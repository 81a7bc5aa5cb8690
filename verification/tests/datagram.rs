use histdb::udp::deserialize;
use histdb::udp::parse_datagram;
use histdb::udp::DatagramError;

#[test]
fn parses_the_five_fields() {
    let msg = parse_datagram(b"3\0bob\x001\0/tmp\0   42  ls -la\n", 1_700_000_000).unwrap();
    assert_eq!(msg.session, 3);
    assert_eq!(msg.host, "bob");
    assert_eq!(msg.exit_status, 1);
    assert_eq!(msg.dir, "/tmp");
    assert_eq!(msg.argv, "ls -la\n");
    assert_eq!(msg.time, 1_700_000_000);
}

#[test]
fn rejects_four_fields() {
    assert_eq!(parse_datagram(b"3\0bob\x001\0/tmp", 0).err(), Some(DatagramError::FieldCount));
}

#[test]
fn rejects_six_fields() {
    assert_eq!(
        parse_datagram(b"3\0bob\x001\0/tmp\0   42  ls\0more", 0).err(),
        Some(DatagramError::FieldCount)
    );
}

#[test]
fn rejects_an_empty_datagram() {
    assert_eq!(parse_datagram(b"", 0).err(), Some(DatagramError::FieldCount));
}

#[test]
fn rejects_a_session_that_is_no_number() {
    assert_eq!(
        parse_datagram(b"pts3\0bob\x001\0/tmp\0   42  ls", 0).err(),
        Some(DatagramError::Session)
    );
}

#[test]
fn rejects_an_exit_status_that_is_no_number() {
    assert_eq!(
        parse_datagram(b"3\0bob\0one\0/tmp\0   42  ls", 0).err(),
        Some(DatagramError::ExitStatus)
    );
}

#[test]
fn rejects_an_exit_status_out_of_range() {
    assert_eq!(
        parse_datagram(b"3\0bob\x002147483648\0/tmp\0   42  ls", 0).err(),
        Some(DatagramError::ExitStatus)
    );
}

#[test]
fn rejects_a_short_command_line() {
    assert_eq!(
        parse_datagram(b"3\0bob\x001\0/tmp\0   42 ", 0).err(),
        Some(DatagramError::ArgvTooShort)
    );
}

#[test]
fn session_error_comes_before_exit_status_error() {
    assert_eq!(parse_datagram(b"x\0bob\0y\0/tmp\0short", 0).err(), Some(DatagramError::Session));
}

#[test]
fn a_command_line_of_seven_bytes_is_empty() {
    let msg = parse_datagram(b"0\0h\x000\0/\0   42  ", 5).unwrap();
    assert_eq!(msg.argv, "");
}

#[test]
fn negative_and_signed_numbers_are_read() {
    let msg = parse_datagram(b"-7\0h\0+130\0/\0      1 x", 5).unwrap();
    assert_eq!(msg.session, -7);
    assert_eq!(msg.exit_status, 130);
}

#[test]
fn bytes_that_are_no_utf8_are_replaced() {
    let msg = parse_datagram(b"1\0h\xff\x000\0/d\0   42  ls", 5).unwrap();
    assert_eq!(msg.host, "h\u{fffd}");
}

#[test]
fn the_server_stamps_the_time() {
    let msg = deserialize(b"3\0bob\x001\0/tmp\0   42  ls -la\n").unwrap();
    assert!(msg.time > 1_600_000_000);
    assert_eq!(msg.argv, "ls -la\n");
}

#[test]
fn the_server_turns_malformed_datagrams_away() {
    assert_eq!(deserialize(b"garbage").err(), Some(DatagramError::FieldCount));
}

#[test]
fn every_error_has_a_description() {
    assert!(DatagramError::FieldCount.describe().contains("5 null-separated fields"));
    assert!(DatagramError::Session.describe().contains("session id"));
    assert!(DatagramError::ExitStatus.describe().contains("exit status"));
    assert!(DatagramError::ArgvTooShort.describe().contains("too short"));
    assert!(DatagramError::Clock.describe().contains("clock"));
}
