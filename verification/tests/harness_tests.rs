use kernel::boot::{
    init as boot_init, advance, BootAction, BootContext, BootError, BootStage, MemoryRegion,
};
use kernel::framebuffer::{PixelFormat, Surface, SurfaceInfo};
use kernel::harness::{
    decimal_string, exit_qemu, panic_handler, test_runner, ExitDevice, QemuExitCode, Testable,
};
use kernel::logger::{init, Console};

fn make_surface() -> Surface {
    let info = SurfaceInfo {
        width: 120,
        height: 80,
        stride: 128,
        bytes_per_pixel: 4,
        pixel_format: PixelFormat::Rgb,
    };
    Surface::new(info, vec![0u8; 80 * 128 * 4]).expect("surface should be accepted")
}

fn make_console() -> Console {
    let mut console = Console::uninit();
    init(&mut console, make_surface());
    console
}

fn serial_text(console: &Console) -> String {
    console.writer.as_ref().unwrap().serial.as_ref().unwrap().writer.log.iter().collect()
}

struct FakeTest {
    nm: &'static str,
    ok: bool,
}

impl Testable for FakeTest {
    fn name(&self) -> String {
        String::from(self.nm)
    }

    fn run(&self) -> bool {
        self.ok
    }
}

#[test]
fn exit_codes_match_the_protocol() {
    assert_eq!(QemuExitCode::Success.code(), 0x10);
    assert_eq!(QemuExitCode::Failed.code(), 0x11);
    let mut port = ExitDevice::new();
    exit_qemu(&mut port, QemuExitCode::Success);
    exit_qemu(&mut port, QemuExitCode::Failed);
    assert_eq!(port.writes, vec![0x10, 0x11]);
}

#[test]
fn decimal_rendering_is_exact() {
    assert_eq!(decimal_string(0).as_str(), "0");
    assert_eq!(decimal_string(7).as_str(), "7");
    assert_eq!(decimal_string(10).as_str(), "10");
    assert_eq!(decimal_string(123).as_str(), "123");
    assert_eq!(decimal_string(90705).as_str(), "90705");
    assert_eq!(decimal_string(usize::MAX).as_str(), "18446744073709551615");
}

#[test]
fn failing_test_stops_the_run_and_signals_failure() {
    let tests = vec![
        FakeTest { nm: "one", ok: true },
        FakeTest { nm: "two", ok: false },
        FakeTest { nm: "three", ok: true },
    ];
    let mut console = make_console();
    let mut port = ExitDevice::new();
    let report = test_runner(&tests, &mut console, &mut port);
    assert!(!report.passed);
    assert_eq!(report.results, vec![true, false]);
    assert_eq!(report.names.len(), 2);
    assert_eq!(port.writes, vec![0x11]);
    let text = serial_text(&console);
    assert_eq!(text, "Running 3 tests\none ...\t[ok]\ntwo ...\t[failed]\n");
    assert!(!text.contains("three"));
}

#[test]
fn all_tests_passing_signals_success() {
    let tests = vec![FakeTest { nm: "a", ok: true }, FakeTest { nm: "b", ok: true }];
    let mut console = make_console();
    let mut port = ExitDevice::new();
    let report = test_runner(&tests, &mut console, &mut port);
    assert!(report.passed);
    assert_eq!(report.results, vec![true, true]);
    assert_eq!(port.writes, vec![0x10]);
    assert_eq!(serial_text(&console), "Running 2 tests\na ...\t[ok]\nb ...\t[ok]\n");
}

#[test]
fn empty_test_list_passes() {
    let tests: Vec<FakeTest> = Vec::new();
    let mut console = make_console();
    let mut port = ExitDevice::new();
    let report = test_runner(&tests, &mut console, &mut port);
    assert!(report.passed);
    assert!(report.results.is_empty());
    assert_eq!(port.writes, vec![0x10]);
    assert_eq!(serial_text(&console), "Running 0 tests\n");
}

#[test]
fn harness_before_init_still_signals_exactly_once() {
    let tests = vec![FakeTest { nm: "quiet", ok: true }];
    let mut console = Console::uninit();
    let mut port = ExitDevice::new();
    let report = test_runner(&tests, &mut console, &mut port);
    assert!(report.passed);
    assert!(console.writer.is_none());
    assert_eq!(port.writes, vec![0x10]);
}

#[test]
fn panic_path_reports_even_with_the_lock_held() {
    let mut console = make_console();
    // the failing code abandoned the serial lock mid-panic
    console.writer.as_mut().unwrap().serial.as_mut().unwrap().acquire();
    let mut port = ExitDevice::new();
    panic_handler(&mut console, &mut port, "heap exhausted");
    assert_eq!(port.writes, vec![0x11]);
    assert_eq!(serial_text(&console), "[failed]\nError: heap exhausted\n\n");
}

#[test]
fn boot_halts_without_a_framebuffer() {
    let ctx = BootContext {
        framebuffer: None,
        physical_memory_offset: Some(0x1000),
        rsdp_addr: None,
        memory_regions: Vec::new(),
    };
    assert_eq!(boot_init(&BootStage::Start, &ctx), BootAction::Halt(BootError::MissingFramebuffer));
}

#[test]
fn boot_halts_without_a_memory_offset() {
    let ctx = BootContext {
        framebuffer: Some(make_surface()),
        physical_memory_offset: None,
        rsdp_addr: Some(0xfee0),
        memory_regions: Vec::new(),
    };
    assert_eq!(
        boot_init(&BootStage::InterruptsOn, &ctx),
        BootAction::Halt(BootError::MissingMemoryOffset)
    );
}

#[test]
fn heap_failure_is_fatal() {
    assert_eq!(advance(&BootStage::MemoryUp, false), Err(BootError::HeapInitFailed));
    assert_eq!(advance(&BootStage::MemoryUp, true), Ok(BootStage::HeapUp));
}

#[test]
fn boot_runs_the_fixed_order() {
    let ctx = BootContext {
        framebuffer: Some(make_surface()),
        physical_memory_offset: Some(0xcafe),
        rsdp_addr: Some(0xfee0),
        memory_regions: vec![MemoryRegion { start: 0, end: 0x10000, usable: true }],
    };
    let mut stage = BootStage::Start;
    let mut actions = Vec::new();
    loop {
        let action = boot_init(&stage, &ctx);
        if action == BootAction::Finished {
            break;
        }
        actions.push(action);
        stage = advance(&stage, true).unwrap();
    }
    assert_eq!(
        actions,
        vec![
            BootAction::InitConsole,
            BootAction::InitDescriptorTables,
            BootAction::InitInterrupts,
            BootAction::EnableInterrupts,
            BootAction::InitMemory(0xcafe),
            BootAction::InitHeap,
            BootAction::ProbeFirmwareTables,
        ]
    );
}

#[test]
fn firmware_probe_logs_degraded_mode() {
    let mut console = make_console();
    kernel::apic::init(&mut console, None);
    let frame = console.writer.as_ref().unwrap().frame.as_ref().unwrap();
    assert!(!frame.locked);
    let mut console2 = make_console();
    kernel::apic::init(&mut console2, Some(0x1234));
    let frame2 = console2.writer.as_ref().unwrap().frame.as_ref().unwrap();
    assert!(!frame2.locked);
    // the two messages render differently on the surface
    assert_ne!(frame.writer.framebuffer.buf, frame2.writer.framebuffer.buf);
}
