use bytes::BytesMut;
use telnet_chat::client::{chat_bytes, reader_step, reply_bytes, FromServer, InternalMsg, ReaderStep};
use telnet_chat::telnet::{Item, TelnetCodec};

fn wire_reply(input: &[u8]) -> Vec<u8> {
    let mut codec = TelnetCodec::new();
    let mut src = BytesMut::from(input);
    let item = codec.decode(&mut src).unwrap().unwrap();
    match reader_step(item) {
        ReaderStep::Reply(msg) => reply_bytes(msg),
        other => panic!("no reply: {:?}", other),
    }
}

#[test]
fn will_suppress_go_ahead_is_accepted() {
    assert_eq!(wire_reply(&[0xff, 251, 3]), vec![0xff, 253, 3]);
}

#[test]
fn do_is_refused() {
    assert_eq!(wire_reply(&[0xff, 253, 5]), vec![0xff, 252, 5]);
}

#[test]
fn are_you_there_is_answered() {
    assert_eq!(wire_reply(&[0xff, 246]), b"Yes.\r\n".to_vec());
}

#[test]
fn other_will_is_refused() {
    assert_eq!(wire_reply(&[0xff, 251, 24]), vec![0xff, 254, 24]);
}

#[test]
fn lines_are_forwarded() {
    match reader_step(Item::Line(b"hi".to_vec())) {
        ReaderStep::Forward(line) => assert_eq!(line, b"hi".to_vec()),
        other => panic!("unexpected {:?}", other),
    }
}

#[test]
fn go_ahead_interrupt_and_others() {
    assert!(matches!(reader_step(Item::GoAhead), ReaderStep::Ignore));
    assert!(matches!(reader_step(Item::InterruptProcess), ReaderStep::Stop));
    assert!(matches!(reader_step(Item::Break), ReaderStep::Fail(Item::Break)));
    assert!(matches!(reader_step(Item::Wont(3)), ReaderStep::Fail(Item::Wont(3))));
    assert!(matches!(reader_step(Item::Dont(1)), ReaderStep::Fail(Item::Dont(1))));
}

#[test]
fn reply_encodings() {
    assert_eq!(reply_bytes(InternalMsg::SendDont(7)), vec![0xff, 254, 7]);
    assert_eq!(reply_bytes(InternalMsg::SendWont(7)), vec![0xff, 252, 7]);
    assert_eq!(reply_bytes(InternalMsg::SendDo(7)), vec![0xff, 253, 7]);
    assert_eq!(reply_bytes(InternalMsg::GotAreYouThere), b"Yes.\r\n".to_vec());
}

#[test]
fn chat_payload_ends_with_crlf() {
    assert_eq!(chat_bytes(FromServer::Message(b"hey".to_vec())), b"hey\r\n".to_vec());
    assert_eq!(chat_bytes(FromServer::Message(Vec::new())), b"\r\n".to_vec());
}
