//! Formatted output facade: the front end that multiplexes already
//! formatted text into the display writer or the serial transmitter, with a
//! newline-appending variant of each entry point. The process-wide shared
//! instance, its mutual-exclusion wrapper and the formatting machinery
//! itself live in the shell around the library (they need process-global
//! state); what is verified here is what each entry point emits for one
//! formatted payload, as a single uninterleaved piece.

use vstd::prelude::*;
use crate::serial::SerialPort;
use crate::vga::NEWLINE;
use crate::vga::Writer;
use crate::vga::byte_step;
use crate::vga::str_step;

verus! {

/// Prints one formatted payload on the display.
pub fn print_display(writer: &mut Writer, s: &[u8])
    requires
        old(writer).wf(),
    ensures
        final(writer).wf(),
        final(writer).attr == old(writer).attr,
        (final(writer).cells@, final(writer).col as int) == str_step(
            old(writer).cells@,
            old(writer).col as int,
            old(writer).attr,
            s@,
        ),
{
    writer.write_str(s);
}

/// Prints one formatted payload on the display, closed by a newline.
pub fn println_display(writer: &mut Writer, s: &[u8])
    requires
        old(writer).wf(),
    ensures
        final(writer).wf(),
        final(writer).attr == old(writer).attr,
        ({
            let mid = str_step(old(writer).cells@, old(writer).col as int, old(writer).attr, s@);
            (final(writer).cells@, final(writer).col as int) == byte_step(
                mid.0,
                mid.1,
                old(writer).attr,
                NEWLINE,
            )
        }),
        final(writer).col == 0,
{
    writer.write_str(s);
    writer.write_byte(NEWLINE);
}

/// Sends one formatted payload over the serial path.
pub fn print_serial(serial: &mut SerialPort, s: &[u8])
    ensures
        final(serial).tx@ == old(serial).tx@ + s@,
{
    serial.write_str(s);
}

/// Sends one formatted payload over the serial path, closed by a newline.
pub fn println_serial(serial: &mut SerialPort, s: &[u8])
    ensures
        final(serial).tx@ == old(serial).tx@ + s@ + seq![NEWLINE],
{
    serial.write_str(s);
    serial.write_byte(NEWLINE);
    proof {
        assert(serial.tx@ =~= old(serial).tx@ + s@ + seq![NEWLINE]);
    }
}

} // verus!
