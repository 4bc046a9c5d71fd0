//! Panic router: the sole error boundary. The normal build reports the
//! fault payload through the display writer; the diagnostic build reports
//! `[failed]` plus the payload through the serial transmitter and then
//! signals failure through the exit device. Both variants end in an idle
//! loop that belongs to the hardware shell around the library, since the
//! exit-port write itself does not halt execution.

use vstd::prelude::*;
use crate::exit::ExitCode;
use crate::exit::ExitDevice;
use crate::exit::exit_code_value;
use crate::harness::failed_line;
use crate::serial::SerialPort;
use crate::vga::NEWLINE;
use crate::vga::Writer;
use crate::vga::byte_step;
use crate::vga::str_step;

verus! {

/// Normal-build panic router: renders the fault payload on the display,
/// closed by a newline, exactly as `Writer::write_str` followed by one
/// newline byte would.
pub fn report_panic_display(writer: &mut Writer, message: &[u8])
    requires
        old(writer).wf(),
    ensures
        final(writer).wf(),
        final(writer).attr == old(writer).attr,
        ({
            let mid = str_step(old(writer).cells@, old(writer).col as int, old(writer).attr, message@);
            (final(writer).cells@, final(writer).col as int) == byte_step(
                mid.0,
                mid.1,
                old(writer).attr,
                NEWLINE,
            )
        }),
{
    writer.write_str(message);
    writer.write_byte(NEWLINE);
}

/// Diagnostic-build panic router: reports `[failed]` and the panic payload
/// on a line of its own over the serial path, then writes the failure code
/// to the exit device, exactly once.
pub fn report_panic_serial(serial: &mut SerialPort, device: &mut ExitDevice, message: &[u8])
    ensures
        final(serial).tx@ == old(serial).tx@ + failed_line() + message@ + seq![0x0a],
        final(device).signals@ == old(device).signals@.push(exit_code_value(ExitCode::Failure)),
{
    serial.write_byte(0x5b);
    serial.write_byte(0x66);
    serial.write_byte(0x61);
    serial.write_byte(0x69);
    serial.write_byte(0x6c);
    serial.write_byte(0x65);
    serial.write_byte(0x64);
    serial.write_byte(0x5d);
    serial.write_byte(0x0a);
    serial.write_str(message);
    serial.write_byte(0x0a);
    device.signal(ExitCode::Failure);
    proof {
        assert(serial.tx@ =~= old(serial).tx@ + failed_line() + message@ + seq![0x0a]);
    }
}

} // verus!
