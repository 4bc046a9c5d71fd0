use chibi_os::exit::ExitDevice;
use chibi_os::harness::TestOutcome;
use chibi_os::harness::TestRecord;
use chibi_os::harness::announce_test;
use chibi_os::harness::report_test_ok;
use chibi_os::harness::run_tests;
use chibi_os::panic_router::report_panic_display;
use chibi_os::panic_router::report_panic_serial;
use chibi_os::serial::SerialPort;
use chibi_os::vga::Cell;
use chibi_os::vga::Color;
use chibi_os::vga::HEIGHT;
use chibi_os::vga::Writer;

fn passing(name: &str) -> TestRecord {
    TestRecord {
        name: name.as_bytes().to_vec(),
        outcome: TestOutcome::Passed,
        panic_message: Vec::new(),
    }
}

fn panicking(name: &str, message: &str) -> TestRecord {
    TestRecord {
        name: name.as_bytes().to_vec(),
        outcome: TestOutcome::Panicked,
        panic_message: message.as_bytes().to_vec(),
    }
}

#[test]
fn all_tests_passing_report_ok_in_order() {
    let tests = vec![passing("alpha"), passing("beta"), passing("gamma")];
    let mut serial = SerialPort::new();
    let mut device = ExitDevice::new();
    run_tests(&tests, &mut serial, &mut device);
    let expected = b"running `alpha`... [ok]\n\
                     running `beta`... [ok]\n\
                     running `gamma`... [ok]\n";
    assert_eq!(serial.tx, expected.to_vec());
    assert_eq!(device.signals, vec![0x10]);
}

#[test]
fn no_tests_still_signal_success_once() {
    let tests: Vec<TestRecord> = Vec::new();
    let mut serial = SerialPort::new();
    let mut device = ExitDevice::new();
    run_tests(&tests, &mut serial, &mut device);
    assert!(serial.tx.is_empty());
    assert_eq!(device.signals, vec![0x10]);
}

#[test]
fn first_panic_aborts_the_run() {
    let tests = vec![
        passing("first"),
        panicking("second", "boom"),
        passing("third"),
    ];
    let mut serial = SerialPort::new();
    let mut device = ExitDevice::new();
    run_tests(&tests, &mut serial, &mut device);
    // [ok] for every test before the panicking one, [failed] for it, and
    // nothing at all for the test after it
    let expected = b"running `first`... [ok]\n\
                     running `second`... [failed]\n\
                     boom\n";
    assert_eq!(serial.tx, expected.to_vec());
    // exactly one signal, the failure code, never a success code
    assert_eq!(device.signals, vec![0x11]);
}

#[test]
fn trivial_pass_then_trivial_fail() {
    let tests = vec![
        passing("trivial_pass"),
        panicking("trivial_fail", "assertion failed: 0 == 1"),
    ];
    let mut serial = SerialPort::new();
    let mut device = ExitDevice::new();
    run_tests(&tests, &mut serial, &mut device);
    let expected = b"running `trivial_pass`... [ok]\n\
                     running `trivial_fail`... [failed]\n\
                     assertion failed: 0 == 1\n";
    assert_eq!(serial.tx, expected.to_vec());
    assert_eq!(device.signals, vec![0x11]);
}

#[test]
fn announce_then_ok_compose_one_entry() {
    let mut serial = SerialPort::new();
    announce_test(&mut serial, b"solo");
    assert_eq!(serial.tx, b"running `solo`... ".to_vec());
    report_test_ok(&mut serial);
    assert_eq!(serial.tx, b"running `solo`... [ok]\n".to_vec());
}

#[test]
fn panic_router_serial_reports_and_signals_failure() {
    let mut serial = SerialPort::new();
    let mut device = ExitDevice::new();
    report_panic_serial(&mut serial, &mut device, b"index out of bounds");
    assert_eq!(serial.tx, b"[failed]\nindex out of bounds\n".to_vec());
    assert_eq!(device.signals, vec![0x11]);
}

#[test]
fn panic_router_display_renders_payload() {
    let mut w = Writer::new(Color::LightGray, Color::Black);
    report_panic_display(&mut w, b"oops");
    // the payload line was closed by a newline, so it scrolled up one row
    assert_eq!(w.col, 0);
    let expected = b"oops";
    for k in 0..4 {
        assert_eq!(w.cell_at(HEIGHT - 2, k), Cell { glyph: expected[k], attr: 0x07 });
    }
    assert_eq!(w.cell_at(HEIGHT - 1, 0), Cell { glyph: 0x20, attr: 0x07 });
}
