use web_serial_blinky::control::{next_status, parse_command, status_reply, LedAction, LedStatus};

fn read(text: &[u8]) -> ([u8; 64], usize) {
    let mut buf = [0u8; 64];
    buf[..text.len()].copy_from_slice(text);
    (buf, text.len())
}

#[test]
fn messages_are_commands() {
    let (buf, n) = read(b"LED_ON");
    assert_eq!(parse_command(&buf, n), Some(LedAction::ON));
    let (buf, n) = read(b"LED_OFF");
    assert_eq!(parse_command(&buf, n), Some(LedAction::OFF));
    let (buf, n) = read(b"LED_TOGGLE");
    assert_eq!(parse_command(&buf, n), Some(LedAction::TOGGLE));
}

#[test]
fn trailing_bytes_are_ignored() {
    let (buf, n) = read(b"LED_ON\r\n");
    assert_eq!(parse_command(&buf, n), Some(LedAction::ON));
    let (buf, n) = read(b"LED_TOGGLE please");
    assert_eq!(parse_command(&buf, n), Some(LedAction::TOGGLE));
}

#[test]
fn other_bytes_are_no_command() {
    let (buf, n) = read(b"LED_O");
    assert_eq!(parse_command(&buf, n), None);
    let (buf, n) = read(b"led_on");
    assert_eq!(parse_command(&buf, n), None);
    let (buf, n) = read(b" LED_ON");
    assert_eq!(parse_command(&buf, n), None);
    assert_eq!(parse_command(&[0u8; 64], 0), None);
}

#[test]
fn only_received_bytes_count() {
    // the buffer holds a whole message, but only five bytes were received
    let (buf, _) = read(b"LED_ON");
    assert_eq!(parse_command(&buf, 5), None);
}

#[test]
fn actions_move_the_led() {
    for s in [LedStatus::ON, LedStatus::OFF] {
        assert_eq!(next_status(s, LedAction::ON), LedStatus::ON);
        assert_eq!(next_status(s, LedAction::OFF), LedStatus::OFF);
        let t = next_status(s, LedAction::TOGGLE);
        assert_ne!(t, s);
        assert_eq!(next_status(t, LedAction::TOGGLE), s);
    }
}

#[test]
fn replies_report_the_state() {
    assert_eq!(status_reply(LedStatus::ON), b"LED_IS_ON\n".to_vec());
    assert_eq!(status_reply(LedStatus::OFF), b"LED_IS_OFF\n".to_vec());
}
