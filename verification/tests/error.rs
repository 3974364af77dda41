use slcan::error::{non_blocking, to_io_error};
use slcan::{IOError, SlcanError};
use std::io;

#[test]
fn a_transport_error_is_carried_unchanged() {
    let wrapped = IOError::from(io::Error::new(io::ErrorKind::TimedOut, "no answer"));
    assert_eq!(wrapped.inner().kind(), io::ErrorKind::TimedOut);
    assert_eq!(wrapped.inner().to_string(), "no answer");
}

#[test]
fn a_transport_error_keeps_its_operating_system_code() {
    let wrapped: IOError = io::Error::from_raw_os_error(5).into();
    assert_eq!(wrapped.inner().raw_os_error(), Some(5));
}

#[test]
fn a_wrapped_transport_error_can_be_printed_for_debugging() {
    let wrapped = IOError::from(io::Error::new(io::ErrorKind::Other, "gone"));
    assert!(format!("{:?}", wrapped).contains("gone"));
}

#[test]
fn the_error_variants_are_distinct() {
    let all = [
        SlcanError::InvalidHexDigit,
        SlcanError::InvalidLength,
        SlcanError::MalformedFrame,
        SlcanError::UnsupportedCommand,
        SlcanError::NotReady,
    ];
    for (i, a) in all.iter().enumerate() {
        for (j, b) in all.iter().enumerate() {
            assert_eq!(a == b, i == j);
        }
    }
}

#[test]
fn a_wrapped_transport_error_can_be_taken_out_again() {
    let wrapped = IOError::from(io::Error::new(io::ErrorKind::BrokenPipe, "unplugged"));
    let back = wrapped.into_inner();
    assert_eq!(back.kind(), io::ErrorKind::BrokenPipe);
    assert_eq!(back.to_string(), "unplugged");
}

#[test]
fn what_is_no_frame_yet_is_signalled_as_would_block() {
    assert_eq!(to_io_error(SlcanError::NotReady).kind(), io::ErrorKind::WouldBlock);
    assert_eq!(to_io_error(SlcanError::UnsupportedCommand).kind(), io::ErrorKind::WouldBlock);
}

#[test]
fn what_cannot_be_decoded_is_signalled_as_invalid_data() {
    assert_eq!(to_io_error(SlcanError::MalformedFrame).kind(), io::ErrorKind::InvalidData);
    assert_eq!(to_io_error(SlcanError::InvalidHexDigit).kind(), io::ErrorKind::InvalidData);
}

#[test]
fn an_overlong_payload_is_signalled_as_invalid_input() {
    let signalled = to_io_error(SlcanError::InvalidLength);
    assert_eq!(signalled.kind(), io::ErrorKind::InvalidInput);
    assert_eq!(signalled.to_string(), "data length");
}

#[test]
fn an_error_of_the_kind_would_block_is_sorted_as_would_block() {
    let sorted = non_blocking(io::Error::new(io::ErrorKind::WouldBlock, "later"));
    assert!(matches!(sorted, nb::Error::WouldBlock));
}

#[test]
fn an_error_of_another_kind_is_sorted_as_a_failure_and_carried() {
    match non_blocking(io::Error::new(io::ErrorKind::TimedOut, "no answer")) {
        nb::Error::Other(carried) => {
            assert_eq!(carried.inner().kind(), io::ErrorKind::TimedOut);
            assert_eq!(carried.inner().to_string(), "no answer");
        }
        nb::Error::WouldBlock => panic!("a timeout is a failure"),
    }
    assert!(matches!(
        non_blocking(io::Error::new(io::ErrorKind::InvalidData, "")),
        nb::Error::Other(_)
    ));
}

#[test]
fn protocol_errors_would_block_exactly_if_they_are_benign() {
    for (error, benign) in [
        (SlcanError::NotReady, true),
        (SlcanError::UnsupportedCommand, true),
        (SlcanError::MalformedFrame, false),
        (SlcanError::InvalidHexDigit, false),
        (SlcanError::InvalidLength, false),
    ] {
        let sorted = non_blocking(to_io_error(error));
        assert_eq!(matches!(sorted, nb::Error::WouldBlock), benign);
    }
}
