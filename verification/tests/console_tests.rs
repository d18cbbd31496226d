use kernel::framebuffer::{PixelFormat, Surface, SurfaceInfo};
use kernel::logger::{init, Console, LockedWriter, _print, _serial_print};
use kernel::serial::Serial;
use kernel::sink::Sink;

fn make_surface() -> Surface {
    let info = SurfaceInfo {
        width: 120,
        height: 80,
        stride: 128,
        bytes_per_pixel: 4,
        pixel_format: PixelFormat::Rgb,
    };
    Surface::new(info, vec![0u8; 80 * 128 * 4]).expect("surface should be accepted")
}

fn serial_text(console: &Console) -> String {
    match &console.writer {
        Some(w) => match &w.serial {
            Some(sink) => sink.writer.log.iter().collect(),
            None => panic!("no serial sink"),
        },
        None => panic!("console not initialized"),
    }
}

#[test]
fn prints_before_init_are_safe_no_ops() {
    let mut console = Console::uninit();
    for _ in 0..1000 {
        _print(&mut console, "never shown");
        _serial_print(&mut console, "never sent");
    }
    assert!(console.writer.is_none());
}

#[test]
fn init_installs_both_sinks_once() {
    let mut console = Console::uninit();
    init(&mut console, make_surface());
    let w = console.writer.as_ref().expect("writer installed");
    assert!(w.frame.is_some());
    assert!(w.serial.is_some());
    assert_eq!(serial_text(&console), "");
}

#[test]
fn serial_print_is_delivered_in_order() {
    let mut console = Console::uninit();
    init(&mut console, make_surface());
    _serial_print(&mut console, "first ");
    _serial_print(&mut console, "second");
    assert_eq!(serial_text(&console), "first second");
}

#[test]
fn frame_print_renders_and_leaves_serial_alone() {
    let mut console = Console::uninit();
    init(&mut console, make_surface());
    _print(&mut console, "Hi");
    let w = console.writer.as_ref().unwrap();
    let frame = w.frame.as_ref().unwrap();
    assert!(!frame.locked);
    assert!(frame.writer.framebuffer.buf.iter().any(|&b| b != 0));
    assert_eq!(serial_text(&console), "");
}

#[test]
fn disabled_frame_sink_drops_frame_calls_and_serial_still_delivers() {
    let writer = LockedWriter::new(make_surface(), false, true);
    assert!(writer.frame.is_none());
    assert!(writer.serial.is_some());
    let mut console = Console { writer: Some(writer) };
    _print(&mut console, "dropped");
    _serial_print(&mut console, "delivered");
    let w = console.writer.as_ref().unwrap();
    assert!(w.frame.is_none());
    assert_eq!(serial_text(&console), "delivered");
}

#[test]
fn disabled_serial_sink_drops_serial_calls() {
    let writer = LockedWriter::new(make_surface(), true, false);
    assert!(writer.serial.is_none());
    let mut console = Console { writer: Some(writer) };
    _serial_print(&mut console, "dropped");
    let w = console.writer.as_ref().unwrap();
    assert!(w.serial.is_none());
}

#[test]
fn force_unlock_frees_an_abandoned_lock() {
    let mut sink = Sink::new(Serial::init());
    sink.acquire();
    // the holder never releases; a forced release must free the sink
    assert!(sink.is_locked());
    sink.force_unlock();
    assert!(!sink.is_locked());
    // the next acquire succeeds immediately
    sink.acquire();
    assert!(sink.is_locked());
    sink.release();
    assert!(!sink.is_locked());
}

#[test]
fn console_force_unlock_targets_the_serial_sink() {
    let mut console = Console::uninit();
    init(&mut console, make_surface());
    let w = console.writer.as_mut().unwrap();
    w.serial.as_mut().unwrap().acquire();
    assert!(w.serial.as_ref().unwrap().locked);
    w.force_unlock();
    assert!(!w.serial.as_ref().unwrap().locked);
}

#[test]
fn serial_transmit_log_is_exact() {
    let mut serial = Serial::init();
    serial.write_text("ok\n");
    serial.write_text("");
    serial.write_text("x");
    let text: String = serial.log.iter().collect();
    assert_eq!(text, "ok\nx");
}
