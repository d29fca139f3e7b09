use fusebridge::fdpass::{
    control_for, recv_fd, send_fd, timeout_parts, Control, Received, SendStep, SHORT_WRITE,
};

#[test]
fn end_of_stream_is_not_an_error() {
    assert_eq!(recv_fd(0, None, 1, 1), Received::Nothing);
}

#[test]
fn a_descriptor_comes_only_in_the_right_message() {
    let control = |level, kind, descriptor| Some(Control { level, kind, descriptor });
    assert_eq!(recv_fd(1, control(1, 1, 5), 1, 1), Received::Descriptor(5));
    assert_eq!(recv_fd(1, control(2, 1, 5), 1, 1), Received::Nothing);
    assert_eq!(recv_fd(1, control(1, 2, 5), 1, 1), Received::Nothing);
    assert_eq!(recv_fd(1, control(1, 1, -1), 1, 1), Received::Nothing);
    assert_eq!(recv_fd(1, None, 1, 1), Received::Nothing);
    assert_eq!(recv_fd(0, control(1, 1, 5), 1, 1), Received::Nothing);
    assert_eq!(recv_fd(-1, None, 1, 1), Received::Error);
}

#[test]
fn a_send_is_repeated_only_when_interrupted() {
    assert_eq!(send_fd(1, false), SendStep::Sent);
    assert_eq!(send_fd(-1, true), SendStep::Again);
    assert_eq!(send_fd(-1, false), SendStep::Error);
    assert_eq!(send_fd(0, false), SendStep::Short);
    assert_eq!(SHORT_WRITE, "short write passing the fuse descriptor");
}

#[test]
fn a_timeout_has_seconds_and_microseconds() {
    assert_eq!(timeout_parts(5000), (5, 0));
    assert_eq!(timeout_parts(50), (0, 50_000));
    assert_eq!(timeout_parts(1999), (1, 999_000));
}

#[test]
fn a_receive_can_time_out() {
    // The limit that is set on the socket, and the count that a receive
    // returns when it has passed.
    assert_eq!(timeout_parts(50), (0, 50_000));
    assert_eq!(recv_fd(-1, None, 1, 1), Received::Error);
}

#[test]
fn a_descriptor_survives_the_round_trip() {
    let sent = control_for(7, 1, 1);
    assert_eq!((sent.level, sent.kind, sent.descriptor), (1, 1, 7));
    // The system replaces the sender's number by one of the receiver's.
    let arrived = Control { descriptor: 9, ..sent };
    assert_eq!(recv_fd(1, Some(arrived), 1, 1), Received::Descriptor(9));
    // Once the sender is gone there is nothing more, and no error.
    assert_eq!(recv_fd(0, None, 1, 1), Received::Nothing);
}
