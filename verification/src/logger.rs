use crate::framebuffer::{spec_clear, spec_write_text, FrameBufferWriter, Surface, WriterState};
use crate::serial::Serial;
use crate::sink::{force_unlocked, Sink};
use vstd::prelude::*;

verus! {

/// The console's writer pair: zero to two independently lockable sinks,
/// chosen by configuration when the console is initialized.
pub struct LockedWriter {
    pub frame: Option<Sink<FrameBufferWriter>>,
    pub serial: Option<Sink<Serial>>,
}

impl LockedWriter {
    /// The frame sink, if present, is at rest: lock free, surface
    /// well-formed.
    pub open spec fn frame_ok(self) -> bool {
        self.frame is Some ==> (!self.frame.unwrap().locked && self.frame.unwrap().writer.wf())
    }

    /// The serial sink, if present, is at rest: lock free.
    pub open spec fn serial_ok(self) -> bool {
        self.serial is Some ==> !self.serial.unwrap().locked
    }

    pub open spec fn wf(self) -> bool {
        self.frame_ok() && self.serial_ok()
    }

    /// Builds the sinks the configuration asks for. The surface is
    /// consumed either way; a disabled frame sink simply discards it.
    pub fn new(framebuffer: Surface, stdo: bool, serial_output: bool) -> (w: Self)
        requires
            framebuffer.wf(),
        ensures
            w.wf(),
            w.frame is Some <==> stdo,
            w.serial is Some <==> serial_output,
            stdo ==> w.frame.unwrap().writer@ == spec_clear(
                WriterState { info: framebuffer.info, buf: framebuffer.buf@, x: 0, y: 0 },
            ),
            serial_output ==> w.serial.unwrap().writer.log@ == Seq::<char>::empty(),
    {
        let serial = if serial_output {
            Some(Sink::new(Serial::init()))
        } else {
            None
        };
        let frame = if stdo {
            Some(Sink::new(FrameBufferWriter::new(framebuffer)))
        } else {
            None
        };
        LockedWriter { frame, serial }
    }

    /// The failure path's escape hatch: forcibly frees the serial sink's
    /// lock whatever its state, so that failure reporting over serial can
    /// proceed even if the failing code held that lock. Mutual exclusion
    /// is deliberately broken here; the machine halts after reporting.
    pub fn force_unlock(&mut self)
        ensures
            final(self).frame == old(self).frame,
            final(self).serial_ok(),
            match old(self).serial {
                None => final(self).serial is None,
                Some(s) => final(self).serial == Some(force_unlocked(s)),
            },
    {
        match &mut self.serial {
            Some(serial) => serial.force_unlock(),
            None => {},
        }
    }
}

/// The process-wide console singleton. Before initialization it exists
/// in an inert state in which every print operation is a safe no-op;
/// initialization installs the writer pair exactly once.
pub struct Console {
    pub writer: Option<LockedWriter>,
}

impl Console {
    pub open spec fn frame_ok(self) -> bool {
        self.writer is Some ==> self.writer.unwrap().frame_ok()
    }

    pub open spec fn serial_ok(self) -> bool {
        self.writer is Some ==> self.writer.unwrap().serial_ok()
    }

    pub open spec fn wf(self) -> bool {
        self.frame_ok() && self.serial_ok()
    }

    /// The console as it exists before boot brings it up.
    pub fn uninit() -> (c: Console)
        ensures
            c.writer is None,
            c.wf(),
    {
        Console { writer: None }
    }
}

/// Installs the console exactly once, with both sinks enabled, as the
/// boot sequencer does. A second initialization is a programming error
/// that must never be reachable, which the precondition records.
pub fn init(console: &mut Console, framebuffer: Surface)
    requires
        old(console).writer is None,
        framebuffer.wf(),
    ensures
        final(console).wf(),
        final(console).writer is Some,
        final(console).writer.unwrap().frame is Some,
        final(console).writer.unwrap().serial is Some,
        final(console).writer.unwrap().frame.unwrap().writer@ == spec_clear(
            WriterState { info: framebuffer.info, buf: framebuffer.buf@, x: 0, y: 0 },
        ),
        final(console).writer.unwrap().serial.unwrap().writer.log@ == Seq::<char>::empty(),
{
    let writer = LockedWriter::new(framebuffer, true, true);
    console.writer = Some(writer);
}

/// Relates two console states by one frame-targeted delivery: without an
/// installed frame sink the console is untouched; otherwise exactly `out`
/// was rendered onto the frame writer, the serial sink untouched, and the
/// frame lock left free.
pub open spec fn spec_frame_appended(c0: Console, c1: Console, out: Seq<char>) -> bool {
    if c0.writer is Some && c0.writer.unwrap().frame is Some {
        let w0 = c0.writer.unwrap();
        let w1 = c1.writer.unwrap();
        &&& c1.writer is Some
        &&& w1.serial == w0.serial
        &&& w1.frame is Some
        &&& !w1.frame.unwrap().locked
        &&& w1.frame.unwrap().writer@ == spec_write_text(w0.frame.unwrap().writer@, out)
    } else {
        c1 == c0
    }
}

/// Relates two console states by one serial-targeted delivery: without an
/// installed serial sink the console is untouched; otherwise exactly
/// `out` was appended to the serial log, the frame sink untouched, and
/// the serial lock left free.
pub open spec fn spec_serial_appended(c0: Console, c1: Console, out: Seq<char>) -> bool {
    if c0.writer is Some && c0.writer.unwrap().serial is Some {
        let w0 = c0.writer.unwrap();
        let w1 = c1.writer.unwrap();
        &&& c1.writer is Some
        &&& w1.frame == w0.frame
        &&& w1.serial is Some
        &&& !w1.serial.unwrap().locked
        &&& w1.serial.unwrap().writer.log@ == w0.serial.unwrap().writer.log@ + out
    } else {
        c1 == c0
    }
}

/// Two frame deliveries in a row amount to one delivery of the
/// concatenated text: a message split over several print calls renders
/// the same pixels as the message sent whole.
pub proof fn lemma_frame_appended_trans(
    c0: Console,
    c1: Console,
    c2: Console,
    x: Seq<char>,
    y: Seq<char>,
)
    requires
        spec_frame_appended(c0, c1, x),
        spec_frame_appended(c1, c2, y),
    ensures
        spec_frame_appended(c0, c2, x + y),
{
    if c0.writer is Some && c0.writer.unwrap().frame is Some {
        crate::framebuffer::lemma_write_text_concat(
            c0.writer.unwrap().frame.unwrap().writer@,
            x,
            y,
        );
    }
}

/// Two serial deliveries in a row amount to one delivery of the
/// concatenated text.
pub proof fn lemma_serial_appended_trans(
    c0: Console,
    c1: Console,
    c2: Console,
    x: Seq<char>,
    y: Seq<char>,
)
    requires
        spec_serial_appended(c0, c1, x),
        spec_serial_appended(c1, c2, y),
    ensures
        spec_serial_appended(c0, c2, x + y),
{
    if c0.writer is Some && c0.writer.unwrap().serial is Some {
        let l0 = c0.writer.unwrap().serial.unwrap().writer.log@;
        assert((l0 + x) + y =~= l0 + (x + y));
    }
}

/// Prints to the frame sink. Uninitialized console or absent frame sink:
/// the call is silently dropped — no error, no block, no buffering.
/// Otherwise only the frame lock is taken, the text rendered, and the
/// lock released; the serial sink is never touched.
pub fn _print(console: &mut Console, s: &str)
    requires
        old(console).frame_ok(),
    ensures
        final(console).frame_ok(),
        (old(console).writer is None || old(console).writer.unwrap().frame is None)
            ==> *final(console) == *old(console),
        (old(console).writer is Some && old(console).writer.unwrap().frame is Some) ==> ({
            let w0 = old(console).writer.unwrap();
            let w1 = final(console).writer.unwrap();
            &&& final(console).writer is Some
            &&& w1.serial == w0.serial
            &&& w1.frame is Some
            &&& !w1.frame.unwrap().locked
            &&& w1.frame.unwrap().writer@ == spec_write_text(w0.frame.unwrap().writer@, s@)
        }),
        spec_frame_appended(*old(console), *final(console), s@),
{
    match &mut console.writer {
        Some(w) => {
            match &mut w.frame {
                Some(sink) => {
                    sink.acquire();
                    sink.writer.write_text(s);
                    sink.release();
                },
                None => {},
            }
        },
        None => {},
    }
}

/// Prints to the serial sink. Uninitialized console or absent serial
/// sink: the call is silently dropped. Otherwise only the serial lock is
/// taken, the text transmitted, and the lock released; the frame sink is
/// never touched.
pub fn _serial_print(console: &mut Console, s: &str)
    requires
        old(console).serial_ok(),
    ensures
        final(console).serial_ok(),
        (old(console).writer is None || old(console).writer.unwrap().serial is None)
            ==> *final(console) == *old(console),
        (old(console).writer is Some && old(console).writer.unwrap().serial is Some) ==> ({
            let w0 = old(console).writer.unwrap();
            let w1 = final(console).writer.unwrap();
            &&& final(console).writer is Some
            &&& w1.frame == w0.frame
            &&& w1.serial is Some
            &&& !w1.serial.unwrap().locked
            &&& w1.serial.unwrap().writer.log@ == w0.serial.unwrap().writer.log@ + s@
        }),
        spec_serial_appended(*old(console), *final(console), s@),
{
    match &mut console.writer {
        Some(w) => {
            match &mut w.serial {
                Some(sink) => {
                    sink.acquire();
                    sink.writer.write_text(s);
                    sink.release();
                },
                None => {},
            }
        },
        None => {},
    }
}

} // verus!
