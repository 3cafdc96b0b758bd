use enamel_gtk::protocol::{Error, Focus, IoError, Message, NavigateDirection, NavigateType};
use enamel_gtk::webext::scrolled_top;

#[test]
fn focus_keeps_its_fields() {
    let f = Focus::new("mid-1".to_string(), true, -3);
    assert_eq!(f.message_id(), "mid-1");
    assert!(f.focus());
    assert_eq!(f.element(), -3);
}

#[test]
fn messages_compare_by_content() {
    let a = Message::Navigate(
        NavigateDirection::Down,
        NavigateType::Message,
        "m".to_string(),
        2,
        false,
    );
    let b = a.clone();
    assert_eq!(a, b);
    assert_ne!(a, Message::Mark("m".to_string(), true));
    let ack = Message::Ack(4, true, Focus::new("x".to_string(), false, 0));
    assert_eq!(ack.clone(), ack);
}

#[test]
fn io_error_converts_to_io_variant() {
    let e = IoError {
        domain: 17,
        code: 0,
        message: "Unexpected early end-of-stream".to_string(),
    };
    match Error::from(e.clone()) {
        Error::ioError(inner) => assert_eq!(inner, e),
        Error::serdeError(_) => panic!("wrong variant"),
    }
}

#[test]
fn decode_error_converts_to_serde_variant() {
    let err = bincode::deserialize::<u32>(&[1u8]).unwrap_err();
    match Error::from(err) {
        Error::serdeError(kind) => match *kind {
            bincode::ErrorKind::Io(_) => {}
            other => panic!("unexpected kind {:?}", other),
        },
        Error::ioError(_) => panic!("wrong variant"),
    }
}

#[test]
fn scroll_moves_by_pixels() {
    assert_eq!(scrolled_top(100, 45), 145);
    assert_eq!(scrolled_top(100, -45), 55);
    assert_eq!(scrolled_top(0, 0), 0);
}
