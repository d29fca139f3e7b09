//! The wire format in which FUSE libraries and `fusermount3` hand over the
//! `/dev/fuse` descriptor: one byte that carries a control message on a unix
//! socket.
use vstd::prelude::*;

verus! {

/// The first control message that came with a byte: what it is, and the
/// descriptor in it.
#[derive(Debug, Clone, Copy)]
pub struct Control {
    pub level: i32,
    pub kind: i32,
    pub descriptor: i32,
}

/// What a receive brought.
#[derive(Debug, Clone, Copy, PartialEq, Eq, Structural)]
pub enum Received {
    Descriptor(i32),
    /// The stream ended cleanly, or what came carries no descriptor. A
    /// helper that failed before it sent anything leaves this behind.
    Nothing,
    /// The receive itself failed.
    Error,
}

/// Whether a control message hands over a descriptor: it is of the kind that
/// does, and the number in it is one.
pub open spec fn hands_over(control: Control, level: i32, kind: i32) -> bool {
    control.level == level && control.kind == kind && control.descriptor >= 0
}

/// What a receive brought.
pub open spec fn receipt(count: isize, control: Option<Control>, level: i32, kind: i32) -> Received {
    if count == -1 {
        Received::Error
    } else if count != 0 && (control matches Some(c) && hands_over(c, level, kind)) {
        Received::Descriptor(control->0.descriptor)
    } else {
        Received::Nothing
    }
}

/// The control message that hands a descriptor over.
pub open spec fn handing_over(descriptor: i32, level: i32, kind: i32) -> Control {
    Control { level, kind, descriptor }
}

/// Builds the control message that hands a descriptor over.
pub fn control_for(descriptor: i32, level: i32, kind: i32) -> (control: Control)
    ensures
        control == handing_over(descriptor, level, kind),
{
    Control { level, kind, descriptor }
}

/// A message that hands a descriptor over is received as one. The system puts
/// the receiver's own number for the open file into it on the way; that this
/// number names the same open file is the system's part.
pub proof fn law_what_is_sent_is_received(descriptor: i32, number: i32, level: i32, kind: i32)
    requires
        number >= 0,
    ensures
        receipt(
            1,
            Some(Control { descriptor: number, ..handing_over(descriptor, level, kind) }),
            level,
            kind,
        ) == Received::Descriptor(number),
{
}

/// The end of a stream is no error and brings nothing, whatever is left of
/// an earlier message.
pub proof fn law_the_end_of_a_stream_is_no_error(control: Option<Control>, level: i32, kind: i32)
    ensures
        receipt(0, control, level, kind) == Received::Nothing,
{
}

/// Decides what a receive brought, by the count that it returned and the
/// control message that came with it. `level` and `kind` are those of a
/// message that hands over descriptors.
pub fn recv_fd(count: isize, control: Option<Control>, level: i32, kind: i32) -> (received: Received)
    ensures
        received == receipt(count, control, level, kind),
{
    if count == -1 {
        return Received::Error;
    }
    if count == 0 {
        return Received::Nothing;
    }
    match control {
        Some(c) => if c.level == level && c.kind == kind && c.descriptor >= 0 {
            Received::Descriptor(c.descriptor)
        } else {
            Received::Nothing
        },
        None => Received::Nothing,
    }
}

/// What an attempt to send comes to.
#[derive(Debug, Clone, Copy, PartialEq, Eq, Structural)]
pub enum SendStep {
    Sent,
    /// It was interrupted: try again.
    Again,
    /// The send itself failed.
    Error,
    /// The byte did not go out.
    Short,
}

/// What is said when the byte did not go out.
pub const SHORT_WRITE: &'static str = "short write passing the fuse descriptor";

/// What an attempt to send comes to.
pub open spec fn send_outcome(count: isize, interrupted: bool) -> SendStep {
    if count == 1 {
        SendStep::Sent
    } else if count != -1 {
        SendStep::Short
    } else if interrupted {
        SendStep::Again
    } else {
        SendStep::Error
    }
}

/// Decides what an attempt to send the one byte came to, by the count that
/// it returned and, where it failed, whether it was merely interrupted.
pub fn send_fd(count: isize, interrupted: bool) -> (step: SendStep)
    ensures
        step == send_outcome(count, interrupted),
{
    if count == 1 {
        SendStep::Sent
    } else if count != -1 {
        SendStep::Short
    } else if interrupted {
        SendStep::Again
    } else {
        SendStep::Error
    }
}

/// Whole seconds, and the microseconds left over.
pub open spec fn time_parts(millis: u64) -> (u64, u64) {
    (millis / 1000, ((millis % 1000) * 1000) as u64)
}

/// A time in milliseconds, as whole seconds and the microseconds left over.
pub fn timeout_parts(millis: u64) -> (parts: (u64, u64))
    ensures
        parts == time_parts(millis),
{
    (millis / 1000, (millis % 1000) * 1000)
}

/// A time is as long in seconds and microseconds as it is in milliseconds.
pub proof fn law_a_time_keeps_its_length(millis: u64)
    ensures
        time_parts(millis).0 * 1000000 + time_parts(millis).1 == millis * 1000,
        time_parts(millis).1 < 1000000,
{
}

/// A descriptor is sent exactly if the one byte went out; an attempt that was
/// merely interrupted is repeated, and nothing else is; one that went out in
/// part has words of its own.
pub proof fn law_a_send_ends_unless_interrupted(count: isize, interrupted: bool)
    ensures
        SHORT_WRITE@ == "short write passing the fuse descriptor"@,
        send_outcome(count, interrupted) == SendStep::Sent <==> count == 1,
        send_outcome(count, interrupted) == SendStep::Again <==> count == -1 && interrupted,
        send_outcome(count, interrupted) == SendStep::Error <==> count == -1 && !interrupted,
{
}

/// A receive fails exactly if the system says so, and brings a descriptor
/// exactly if something came, in a message of the right kind, with a number
/// in it that can be one.
pub proof fn law_what_a_receive_brings(count: isize, control: Control, level: i32, kind: i32)
    ensures
        receipt(count, Some(control), level, kind) == Received::Error <==> count == -1,
        receipt(count, None, level, kind) == Received::Error <==> count == -1,
        !(receipt(count, None, level, kind) is Descriptor),
        receipt(count, Some(control), level, kind) is Descriptor <==> count != -1 && count != 0
            && control.level == level && control.kind == kind && control.descriptor >= 0,
        receipt(count, Some(control), level, kind) matches Received::Descriptor(fd) ==> fd
            == control.descriptor,
        handing_over(control.descriptor, level, kind).descriptor == control.descriptor,
        handing_over(control.descriptor, level, kind).level == level,
        handing_over(control.descriptor, level, kind).kind == kind,
{
}

} // verus!
