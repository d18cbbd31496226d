use crate::logger::{
    lemma_serial_appended_trans, spec_serial_appended, Console, _serial_print,
};
use vstd::prelude::*;
use vstd::string::*;

verus! {

/// Exit status reported to the external test controller when the
/// harness finishes or the failure path runs.
#[derive(Debug, Clone, Copy, PartialEq, Eq, Structural)]
pub enum QemuExitCode {
    Success,
    Failed,
}

impl QemuExitCode {
    /// The four-byte value written to the signalling port for this
    /// status.
    pub open spec fn spec_code(self) -> u32 {
        match self {
            QemuExitCode::Success => 0x10,
            QemuExitCode::Failed => 0x11,
        }
    }

    pub fn code(&self) -> (r: u32)
        ensures
            r == self.spec_code(),
    {
        match self {
            QemuExitCode::Success => 0x10,
            QemuExitCode::Failed => 0x11,
        }
    }
}

/// The hardware signalling port to the external test controller,
/// modelled as the ordered log of four-byte values written to it. Each
/// write is an observable side effect with no acknowledgment; the code
/// that moves each value onto the bus lives outside this library.
pub struct ExitDevice {
    pub writes: Vec<u32>,
}

impl ExitDevice {
    pub fn new() -> (d: ExitDevice)
        ensures
            d.writes@ == Seq::<u32>::empty(),
    {
        ExitDevice { writes: Vec::new() }
    }
}

/// Signals the external test controller: one four-byte write of the
/// exit status to the signalling port, nothing else.
pub fn exit_qemu(port: &mut ExitDevice, exit_code: QemuExitCode)
    ensures
        final(port).writes@ == old(port).writes@.push(exit_code.spec_code()),
{
    let value = exit_code.code();
    port.writes.push(value);
}

/// One test procedure the harness can drive: a name for the report and
/// a body whose return value says whether the test passed.
pub trait Testable {
    fn name(&self) -> String;

    fn run(&self) -> bool;
}

/// The decimal digit character for one digit value.
pub open spec fn spec_digit_char(d: int) -> char {
    if d == 0 {
        '0'
    } else if d == 1 {
        '1'
    } else if d == 2 {
        '2'
    } else if d == 3 {
        '3'
    } else if d == 4 {
        '4'
    } else if d == 5 {
        '5'
    } else if d == 6 {
        '6'
    } else if d == 7 {
        '7'
    } else if d == 8 {
        '8'
    } else {
        '9'
    }
}

/// The usual decimal rendering of a nonnegative number, no leading
/// zeros (except for zero itself).
pub open spec fn spec_decimal(n: int) -> Seq<char>
    decreases n,
{
    if n < 10 {
        seq![spec_digit_char(n)]
    } else {
        spec_decimal(n / 10).push(spec_digit_char(n % 10))
    }
}

fn digit_str(d: usize) -> (r: &'static str)
    requires
        d < 10,
    ensures
        r@ == seq![spec_digit_char(d as int)],
{
    proof {
        reveal_strlit("0");
        reveal_strlit("1");
        reveal_strlit("2");
        reveal_strlit("3");
        reveal_strlit("4");
        reveal_strlit("5");
        reveal_strlit("6");
        reveal_strlit("7");
        reveal_strlit("8");
        reveal_strlit("9");
    }
    if d == 0 {
        proof {
            assert("0"@ =~= seq![spec_digit_char(0)]);
        }
        "0"
    } else if d == 1 {
        proof {
            assert("1"@ =~= seq![spec_digit_char(1)]);
        }
        "1"
    } else if d == 2 {
        proof {
            assert("2"@ =~= seq![spec_digit_char(2)]);
        }
        "2"
    } else if d == 3 {
        proof {
            assert("3"@ =~= seq![spec_digit_char(3)]);
        }
        "3"
    } else if d == 4 {
        proof {
            assert("4"@ =~= seq![spec_digit_char(4)]);
        }
        "4"
    } else if d == 5 {
        proof {
            assert("5"@ =~= seq![spec_digit_char(5)]);
        }
        "5"
    } else if d == 6 {
        proof {
            assert("6"@ =~= seq![spec_digit_char(6)]);
        }
        "6"
    } else if d == 7 {
        proof {
            assert("7"@ =~= seq![spec_digit_char(7)]);
        }
        "7"
    } else if d == 8 {
        proof {
            assert("8"@ =~= seq![spec_digit_char(8)]);
        }
        "8"
    } else {
        proof {
            assert("9"@ =~= seq![spec_digit_char(9)]);
        }
        "9"
    }
}

/// Renders a number in decimal, exactly as `spec_decimal` says.
pub fn decimal_string(n: usize) -> (r: String)
    ensures
        r@ == spec_decimal(n as int),
{
    let mut digits: Vec<usize> = Vec::new();
    let mut m: usize = n;
    while m >= 10
        invariant
            spec_decimal(n as int) =~= spec_decimal(m as int) + digits@.map_values(
                |d: usize| spec_digit_char(d as int),
            ).reverse(),
            forall|i: int| 0 <= i < digits@.len() ==> digits@[i] < 10,
        decreases m,
    {
        let ghost digits0 = digits@;
        let d = m % 10;
        digits.push(d);
        m = m / 10;
        proof {
            let f = |dd: usize| spec_digit_char(dd as int);
            assert(digits@.map_values(f).reverse() =~= seq![spec_digit_char(d as int)]
                + digits0.map_values(f).reverse());
        }
    }
    let ghost digits1 = digits@;
    digits.push(m);
    proof {
        let f = |dd: usize| spec_digit_char(dd as int);
        assert(digits@.map_values(f).reverse() =~= seq![spec_digit_char(m as int)]
            + digits1.map_values(f).reverse());
        assert(spec_decimal(m as int) == seq![spec_digit_char(m as int)]);
        assert(spec_decimal(n as int) =~= digits@.map_values(f).reverse());
    }
    let ghost rev = digits@.map_values(|dd: usize| spec_digit_char(dd as int)).reverse();
    let mut r = String::new();
    let mut k = digits.len();
    while k > 0
        invariant
            k <= digits@.len(),
            forall|i: int| 0 <= i < digits@.len() ==> digits@[i] < 10,
            rev == digits@.map_values(|dd: usize| spec_digit_char(dd as int)).reverse(),
            rev.len() == digits@.len(),
            spec_decimal(n as int) == rev,
            r@ =~= rev.subrange(0, digits@.len() - k),
        decreases k,
    {
        k = k - 1;
        let ds = digit_str(digits[k]);
        r.append(ds);
        proof {
            let len = digits@.len() as int;
            assert(rev[len - 1 - k] == spec_digit_char(digits@[k as int] as int));
            assert(rev.subrange(0, len - k) =~= rev.subrange(0, len - 1 - k).push(
                rev[len - 1 - k],
            ));
        }
    }
    proof {
        assert(rev.subrange(0, rev.len() as int) =~= rev);
    }
    r
}

/// One line of the harness report for one executed test.
pub open spec fn spec_test_line(name: Seq<char>, ok: bool) -> Seq<char> {
    name + " ...\t"@ + if ok {
        "[ok]\n"@
    } else {
        "[failed]\n"@
    }
}

/// The harness report lines for the executed tests, in order.
pub open spec fn spec_transcript(names: Seq<Seq<char>>, results: Seq<bool>) -> Seq<char>
    decreases names.len(),
{
    if names.len() == 0 || results.len() == 0 {
        Seq::empty()
    } else {
        spec_test_line(names[0], results[0]) + spec_transcript(
            names.drop_first(),
            results.drop_first(),
        )
    }
}

/// Everything the harness sends to the serial sink for a run: the test
/// count announcement, then one line per executed test.
pub open spec fn spec_run_output(total: int, names: Seq<Seq<char>>, results: Seq<bool>) -> Seq<
    char,
> {
    "Running "@ + spec_decimal(total) + " tests\n"@ + spec_transcript(names, results)
}

/// Appending one executed test extends the transcript by its line.
proof fn lemma_transcript_snoc(names: Seq<Seq<char>>, results: Seq<bool>, nm: Seq<char>, ok: bool)
    requires
        names.len() == results.len(),
    ensures
        spec_transcript(names.push(nm), results.push(ok)) == spec_transcript(names, results)
            + spec_test_line(nm, ok),
    decreases names.len(),
{
    if names.len() == 0 {
        assert(names.push(nm)[0] == nm);
        assert(results.push(ok)[0] == ok);
        assert(names.push(nm).drop_first() =~= Seq::<Seq<char>>::empty());
        assert(results.push(ok).drop_first() =~= Seq::<bool>::empty());
        assert(spec_transcript(Seq::<Seq<char>>::empty(), Seq::<bool>::empty())
            == Seq::<char>::empty());
        assert(spec_transcript(names.push(nm), results.push(ok)) == spec_test_line(nm, ok)
            + Seq::<char>::empty());
        assert(spec_test_line(nm, ok) + Seq::<char>::empty() =~= spec_test_line(nm, ok));
        assert(spec_transcript(names, results) + spec_test_line(nm, ok) =~= spec_test_line(
            nm,
            ok,
        ));
    } else {
        assert(names.push(nm)[0] == names[0]);
        assert(results.push(ok)[0] == results[0]);
        assert(names.push(nm).drop_first() =~= names.drop_first().push(nm));
        assert(results.push(ok).drop_first() =~= results.drop_first().push(ok));
        lemma_transcript_snoc(names.drop_first(), results.drop_first(), nm, ok);
        assert(spec_transcript(names.push(nm), results.push(ok)) == spec_test_line(
            names[0],
            results[0],
        ) + (spec_transcript(names.drop_first(), results.drop_first()) + spec_test_line(nm, ok)));
        assert(spec_test_line(names[0], results[0]) + (spec_transcript(
            names.drop_first(),
            results.drop_first(),
        ) + spec_test_line(nm, ok)) =~= (spec_test_line(names[0], results[0]) + spec_transcript(
            names.drop_first(),
            results.drop_first(),
        )) + spec_test_line(nm, ok));
    }
}

/// The views of a list of test names.
pub open spec fn spec_names_view(names: Seq<String>) -> Seq<Seq<char>> {
    names.map_values(|s: String| s@)
}

/// What one run of the harness did: the executed tests' names and
/// outcomes in order, and whether the whole list passed.
pub struct HarnessReport {
    pub names: Vec<String>,
    pub results: Vec<bool>,
    pub passed: bool,
}

/// Drives the given tests in order, reporting each over the serial sink.
/// The first failure stops the run — later tests never execute — and
/// signals failure to the controller; a fully successful run signals
/// success. Exactly one exit value is written either way.
pub fn test_runner<T: Testable>(
    tests: &Vec<T>,
    console: &mut Console,
    port: &mut ExitDevice,
) -> (r: HarnessReport)
    requires
        old(console).serial_ok(),
    ensures
        final(console).serial_ok(),
        r.names@.len() == r.results@.len(),
        r.results@.len() <= tests@.len(),
        forall|i: int| 0 <= i < r.results@.len() - 1 ==> r.results@[i],
        r.passed <==> (r.results@.len() == tests@.len() && (forall|i: int|
            0 <= i < r.results@.len() ==> r.results@[i])),
        !r.passed ==> (r.results@.len() > 0 && !r.results@[r.results@.len() - 1]),
        final(port).writes@ == old(port).writes@.push(
            if r.passed {
                0x10u32
            } else {
                0x11u32
            },
        ),
        spec_serial_appended(
            *old(console),
            *final(console),
            spec_run_output(tests@.len() as int, spec_names_view(r.names@), r.results@),
        ),
{
    let total = tests.len();
    let count = decimal_string(total);
    let mut header = String::from_str("Running ");
    header.append(count.as_str());
    header.append(" tests\n");
    let ghost c_start = *console;
    _serial_print(console, header.as_str());
    let mut names: Vec<String> = Vec::new();
    let mut results: Vec<bool> = Vec::new();
    let mut failed = false;
    let mut i: usize = 0;
    proof {
        assert(spec_transcript(Seq::<Seq<char>>::empty(), Seq::<bool>::empty())
            == Seq::<char>::empty());
        assert(spec_names_view(Seq::<String>::empty()) =~= Seq::<Seq<char>>::empty());
        assert(header@ + Seq::<char>::empty() =~= header@);
    }
    while i < total
        invariant
            total == tests@.len(),
            i <= total,
            names@.len() == results@.len(),
            results@.len() <= i,
            !failed ==> results@.len() == i,
            !failed ==> forall|j: int| 0 <= j < results@.len() ==> results@[j],
            failed ==> results@.len() >= 1,
            failed ==> !results@[results@.len() - 1],
            failed ==> forall|j: int| 0 <= j < results@.len() - 1 ==> results@[j],
            *port == *old(port),
            console.serial_ok(),
            spec_serial_appended(
                c_start,
                *console,
                spec_run_output(total as int, spec_names_view(names@), results@),
            ),
        decreases total - i,
    {
        if !failed {
            let ghost c_before = *console;
            let ghost names0 = spec_names_view(names@);
            let ghost results0 = results@;
            let t = &tests[i];
            let name = t.name();
            _serial_print(console, name.as_str());
            let ghost c_after_name = *console;
            _serial_print(console, " ...\t");
            let ghost c_after_sep = *console;
            let ok = t.run();
            let line_end: &'static str = if ok {
                "[ok]\n"
            } else {
                "[failed]\n"
            };
            _serial_print(console, line_end);
            proof {
                lemma_serial_appended_trans(c_before, c_after_name, c_after_sep, name@, " ...\t"@);
                lemma_serial_appended_trans(
                    c_before,
                    c_after_sep,
                    *console,
                    name@ + " ...\t"@,
                    line_end@,
                );
                assert((name@ + " ...\t"@) + line_end@ =~= spec_test_line(name@, ok));
                lemma_serial_appended_trans(
                    c_start,
                    c_before,
                    *console,
                    spec_run_output(total as int, names0, results0),
                    spec_test_line(name@, ok),
                );
                lemma_transcript_snoc(names0, results0, name@, ok);
                assert(spec_names_view(names@.push(name)) =~= names0.push(name@));
                assert(spec_run_output(total as int, names0, results0) + spec_test_line(name@, ok)
                    =~= spec_run_output(total as int, names0.push(name@), results0.push(ok)));
            }
            names.push(name);
            results.push(ok);
            if !ok {
                failed = true;
            }
        }
        i = i + 1;
    }
    let passed = !failed;
    proof {
        if failed {
            assert(!results@[results@.len() - 1]);
        }
    }
    if passed {
        exit_qemu(port, QemuExitCode::Success);
    } else {
        exit_qemu(port, QemuExitCode::Failed);
    }
    HarnessReport { names, results, passed }
}

/// The global failure path, callable from any context — mid-panic, with
/// arbitrary prior lock state. It forcibly frees the serial lock so the
/// report can go out, reports the failure over serial, and writes the
/// failure exit value to the signalling port. The caller halts the
/// machine afterwards; nothing here returns an error.
pub fn panic_handler(console: &mut Console, port: &mut ExitDevice, message: &str)
    ensures
        final(console).serial_ok(),
        final(port).writes@ == old(port).writes@.push(0x11u32),
        old(console).writer is None ==> final(console).writer is None,
        (old(console).writer is Some && old(console).writer.unwrap().serial is None)
            ==> *final(console) == *old(console),
        (old(console).writer is Some && old(console).writer.unwrap().serial is Some) ==> ({
            let w0 = old(console).writer.unwrap();
            let w1 = final(console).writer.unwrap();
            &&& final(console).writer is Some
            &&& w1.frame == w0.frame
            &&& w1.serial is Some
            &&& w1.serial.unwrap().writer.log@ == w0.serial.unwrap().writer.log@ + "[failed]\n"@
                + "Error: "@ + message@ + "\n\n"@
        }),
{
    match &mut console.writer {
        Some(w) => w.force_unlock(),
        None => {},
    }
    let ghost c0 = *console;
    _serial_print(console, "[failed]\n");
    let ghost c1 = *console;
    _serial_print(console, "Error: ");
    let ghost c2 = *console;
    _serial_print(console, message);
    let ghost c3 = *console;
    _serial_print(console, "\n\n");
    proof {
        lemma_serial_appended_trans(c0, c1, c2, "[failed]\n"@, "Error: "@);
        lemma_serial_appended_trans(c0, c2, c3, "[failed]\n"@ + "Error: "@, message@);
        lemma_serial_appended_trans(
            c0,
            c3,
            *console,
            "[failed]\n"@ + "Error: "@ + message@,
            "\n\n"@,
        );
    }
    exit_qemu(port, QemuExitCode::Failed);
}

} // verus!
