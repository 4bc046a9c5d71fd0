//! Test harness: runs a statically registered, ordered list of tests,
//! reporting progress over the serial transmitter and a final verdict over
//! the diagnostic exit device. A test either returns normally or panics; a
//! panic aborts the remaining sequence, is reported as `[failed]` with its
//! payload, and makes the run signal failure. The shell that actually
//! invokes the test procedures records each outcome in a `TestRecord`.

use vstd::prelude::*;
use crate::exit::ExitCode;
use crate::exit::ExitDevice;
use crate::exit::exit_code_value;
use crate::panic_router::report_panic_serial;
use crate::serial::SerialPort;

verus! {

/// How a test procedure came back: normally, or through the panic router.
#[derive(Clone, Copy, PartialEq, Eq, Structural, Debug)]
pub enum TestOutcome {
    Passed,
    Panicked,
}

/// One registered test: its display label, how its procedure came back, and
/// the panic payload (meaningful only when it panicked).
pub struct TestRecord {
    pub name: Vec<u8>,
    pub outcome: TestOutcome,
    pub panic_message: Vec<u8>,
}

/// The bytes `"running \u{60}"` that open a test's progress line.
pub open spec fn running_prefix() -> Seq<u8> {
    seq![0x72, 0x75, 0x6e, 0x6e, 0x69, 0x6e, 0x67, 0x20, 0x60]
}

/// The bytes `"\u{60}... "` that close a test's progress line, before its
/// result is known.
pub open spec fn running_suffix() -> Seq<u8> {
    seq![0x60, 0x2e, 0x2e, 0x2e, 0x20]
}

/// The bytes `"[ok]"` plus a newline, reported for a test that returned.
pub open spec fn ok_line() -> Seq<u8> {
    seq![0x5b, 0x6f, 0x6b, 0x5d, 0x0a]
}

/// The bytes `"[failed]"` plus a newline, reported for a test that panicked.
pub open spec fn failed_line() -> Seq<u8> {
    seq![0x5b, 0x66, 0x61, 0x69, 0x6c, 0x65, 0x64, 0x5d, 0x0a]
}

/// The full progress line announcing a test by name.
pub open spec fn announce_line(name: Seq<u8>) -> Seq<u8> {
    running_prefix() + name + running_suffix()
}

/// Everything the serial path shows for one passing test.
pub open spec fn ok_entry(name: Seq<u8>) -> Seq<u8> {
    announce_line(name) + ok_line()
}

/// Everything the serial path shows for the panicking test that ends a run:
/// its progress line, `[failed]`, and the panic payload on a line of its own.
pub open spec fn fail_entry(name: Seq<u8>, message: Seq<u8>) -> Seq<u8> {
    announce_line(name) + failed_line() + message + seq![0x0a]
}

/// The whole serial transcript of a run: one `ok_entry` per passing test, in
/// declaration order, cut short by the `fail_entry` of the first test that
/// panics.
pub open spec fn run_transcript(tests: Seq<TestRecord>) -> Seq<u8>
    decreases tests.len(),
{
    if tests.len() == 0 {
        Seq::empty()
    } else if tests[0].outcome == TestOutcome::Passed {
        ok_entry(tests[0].name@) + run_transcript(tests.skip(1))
    } else {
        fail_entry(tests[0].name@, tests[0].panic_message@)
    }
}

/// The verdict of a run: success exactly when every test returned normally.
pub open spec fn run_verdict(tests: Seq<TestRecord>) -> ExitCode
    decreases tests.len(),
{
    if tests.len() == 0 {
        ExitCode::Success
    } else if tests[0].outcome == TestOutcome::Passed {
        run_verdict(tests.skip(1))
    } else {
        ExitCode::Failure
    }
}

/// Transmits the progress line announcing a test by name.
pub fn announce_test(serial: &mut SerialPort, name: &[u8])
    ensures
        final(serial).tx@ == old(serial).tx@ + announce_line(name@),
{
    serial.write_byte(0x72);
    serial.write_byte(0x75);
    serial.write_byte(0x6e);
    serial.write_byte(0x6e);
    serial.write_byte(0x69);
    serial.write_byte(0x6e);
    serial.write_byte(0x67);
    serial.write_byte(0x20);
    serial.write_byte(0x60);
    serial.write_str(name);
    serial.write_byte(0x60);
    serial.write_byte(0x2e);
    serial.write_byte(0x2e);
    serial.write_byte(0x2e);
    serial.write_byte(0x20);
    proof {
        assert(serial.tx@ =~= old(serial).tx@ + announce_line(name@));
    }
}

/// Transmits the `[ok]` report for a test that returned normally.
pub fn report_test_ok(serial: &mut SerialPort)
    ensures
        final(serial).tx@ == old(serial).tx@ + ok_line(),
{
    serial.write_byte(0x5b);
    serial.write_byte(0x6f);
    serial.write_byte(0x6b);
    serial.write_byte(0x5d);
    serial.write_byte(0x0a);
    proof {
        assert(serial.tx@ =~= old(serial).tx@ + ok_line());
    }
}

/// Runs the registered tests in declaration order: announces each, reports
/// `[ok]` for each one that returned, stops at the first panic with its
/// `[failed]` report, and writes the run's verdict to the exit device
/// exactly once — failure if any test panicked, success otherwise.
pub fn run_tests(tests: &Vec<TestRecord>, serial: &mut SerialPort, device: &mut ExitDevice)
    ensures
        final(serial).tx@ == old(serial).tx@ + run_transcript(tests@),
        final(device).signals@ == old(device).signals@.push(
            exit_code_value(run_verdict(tests@)),
        ),
{
    let n = tests.len();
    let mut i: usize = 0;
    proof {
        assert(tests@.skip(0) =~= tests@);
    }
    while i < n
        invariant
            n == tests@.len(),
            i <= n,
            device.signals@ == old(device).signals@,
            forall|k: int| 0 <= k < i ==> tests@[k].outcome == TestOutcome::Passed,
            serial.tx@ + run_transcript(tests@.skip(i as int)) == old(serial).tx@
                + run_transcript(tests@),
            run_verdict(tests@.skip(i as int)) == run_verdict(tests@),
        decreases n - i,
    {
        let ghost pre = serial.tx@;
        let t = &tests[i];
        proof {
            assert(tests@.skip(i as int)[0] == tests@[i as int]);
            assert(tests@.skip(i as int).skip(1) =~= tests@.skip(i as int + 1));
        }
        announce_test(serial, t.name.as_slice());
        match t.outcome {
            TestOutcome::Passed => {
                report_test_ok(serial);
                proof {
                    assert(serial.tx@ =~= pre + ok_entry(tests@[i as int].name@));
                    assert(serial.tx@ + run_transcript(tests@.skip(i as int + 1)) =~= pre
                        + run_transcript(tests@.skip(i as int)));
                }
            },
            TestOutcome::Panicked => {
                report_panic_serial(serial, device, t.panic_message.as_slice());
                proof {
                    assert(serial.tx@ =~= pre + fail_entry(
                        tests@[i as int].name@,
                        tests@[i as int].panic_message@,
                    ));
                }
                return ;
            },
        }
        i += 1;
    }
    proof {
        assert(tests@.skip(n as int) =~= Seq::<TestRecord>::empty());
    }
    device.signal(ExitCode::Success);
}

/// The serial transcript of tests that all pass: one `ok_entry` per test,
/// in declaration order.
pub open spec fn passed_transcript(tests: Seq<TestRecord>) -> Seq<u8>
    decreases tests.len(),
{
    if tests.len() == 0 {
        Seq::empty()
    } else {
        ok_entry(tests[0].name@) + passed_transcript(tests.skip(1))
    }
}

/// Law: when every registered test returns normally, the run reports
/// `[ok]` once per test, in declaration order, and its verdict is success —
/// so `run_tests` writes the success code to the exit device exactly once.
pub proof fn lemma_run_all_passed(tests: Seq<TestRecord>)
    requires
        forall|i: int| 0 <= i < tests.len() ==> #[trigger] tests[i].outcome == TestOutcome::Passed,
    ensures
        run_verdict(tests) == ExitCode::Success,
        run_transcript(tests) == passed_transcript(tests),
    decreases tests.len(),
{
    if tests.len() > 0 {
        assert(tests[0].outcome == TestOutcome::Passed);
        assert(forall|i: int|
            0 <= i < tests.skip(1).len() ==> #[trigger] tests.skip(1)[i].outcome
                == TestOutcome::Passed);
        lemma_run_all_passed(tests.skip(1));
    }
}

/// Law: when the first `j` tests return normally and test `j` panics, the
/// run reports `[ok]` for exactly the tests before `j`, in declaration
/// order, then the `[failed]` entry of test `j`, and its verdict is
/// failure — so `run_tests` writes the failure code to the exit device
/// exactly once, and never the success code.
pub proof fn lemma_run_first_panic(tests: Seq<TestRecord>, j: int)
    requires
        0 <= j < tests.len(),
        forall|i: int| 0 <= i < j ==> #[trigger] tests[i].outcome == TestOutcome::Passed,
        tests[j].outcome == TestOutcome::Panicked,
    ensures
        run_verdict(tests) == ExitCode::Failure,
        run_transcript(tests) == passed_transcript(tests.take(j)) + fail_entry(
            tests[j].name@,
            tests[j].panic_message@,
        ),
    decreases j,
{
    if j == 0 {
        assert(tests.take(0).len() == 0);
        assert(passed_transcript(tests.take(0)) + fail_entry(
            tests[0].name@,
            tests[0].panic_message@,
        ) =~= fail_entry(tests[0].name@, tests[0].panic_message@));
    } else {
        assert(tests[0].outcome == TestOutcome::Passed);
        assert(forall|i: int|
            0 <= i < j - 1 ==> #[trigger] tests.skip(1)[i].outcome == TestOutcome::Passed);
        assert(tests.skip(1)[j - 1] == tests[j]);
        lemma_run_first_panic(tests.skip(1), j - 1);
        assert(tests.take(j)[0] == tests[0]);
        assert(tests.take(j).skip(1) =~= tests.skip(1).take(j - 1));
        assert(run_transcript(tests) =~= passed_transcript(tests.take(j)) + fail_entry(
            tests[j].name@,
            tests[j].panic_message@,
        ));
    }
}

} // verus!
