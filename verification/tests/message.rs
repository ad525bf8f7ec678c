use httpz::ws::{decimal_string, CloseFrame, Frame, FrameHeader, Message, OpCode};
use httpz::Error;

fn header(mask: Option<[u8; 4]>) -> FrameHeader {
    FrameHeader { is_final: true, rsv1: false, rsv2: false, rsv3: false, opcode: OpCode::Binary, mask }
}

#[test]
fn text_and_binary_constructors() {
    assert_eq!(Message::text("hi"), Message::Text("hi".to_string()));
    assert_eq!(Message::text(String::from("yo")), Message::Text("yo".to_string()));
    assert_eq!(Message::binary(vec![1u8, 2]), Message::Binary(vec![1, 2]));
    assert_eq!(Message::binary(&[3u8][..]), Message::Binary(vec![3]));
    assert_eq!(Message::from(String::from("a")), Message::Text("a".to_string()));
    assert_eq!(Message::from(vec![9u8]), Message::Binary(vec![9]));
}

#[test]
fn kind_predicates() {
    let msgs = [
        Message::Text("a".into()),
        Message::Binary(vec![]),
        Message::Ping(vec![]),
        Message::Pong(vec![]),
        Message::Close(None),
    ];
    let expected = [
        [true, false, false, false, false],
        [false, true, false, false, false],
        [false, false, true, false, false],
        [false, false, false, true, false],
        [false, false, false, false, true],
    ];
    for (m, e) in msgs.iter().zip(expected.iter()) {
        assert_eq!([m.is_text(), m.is_binary(), m.is_ping(), m.is_pong(), m.is_close()], *e);
    }
}

#[test]
fn len_counts_bytes() {
    assert_eq!(Message::Text("héllo".into()).len(), 6);
    assert_eq!(Message::Binary(vec![1, 2, 3]).len(), 3);
    assert_eq!(Message::Ping(vec![1]).len(), 1);
    assert_eq!(Message::Close(None).len(), 0);
    assert_eq!(Message::Close(Some(CloseFrame { code: 1000, reason: "bye".into() })).len(), 3);
    assert!(Message::Pong(vec![]).is_empty());
    assert!(!Message::Text("x".into()).is_empty());
}

#[test]
fn is_empty_when_len_is_zero() {
    let msgs = vec![
        Message::text(""),
        Message::text("a"),
        Message::text(String::from("é")),
        Message::binary(Vec::<u8>::new()),
        Message::binary(vec![0u8]),
        Message::Ping(vec![]),
        Message::Pong(vec![9]),
        Message::Close(None),
        Message::Close(Some(CloseFrame { code: 1000, reason: "".into() })),
        Message::Close(Some(CloseFrame { code: 1000, reason: "r".into() })),
        Message::Frame(Frame { header: header(None), payload: vec![] }),
    ];
    for m in msgs.iter() {
        assert_eq!(m.is_empty(), m.len() == 0);
    }
    assert!(Message::text("").is_empty());
    assert!(Message::Close(None).is_empty());
    assert!(!Message::text("a").is_empty());
}

#[test]
fn text_round_trips_through_text_and_binary() {
    for s in ["", "hello", "héllo wörld", "日本"] {
        let owned = s.to_string();
        assert_eq!(Message::text(owned.clone()).into_text().unwrap(), owned);
        assert_eq!(Message::binary(owned.clone().into_bytes()).into_text().unwrap(), owned);
    }
    assert!(matches!(Message::binary(vec![0xffu8]).into_text(), Err(Error::Utf8)));
}

#[test]
fn messages_from_slices_hold_the_slice() {
    assert_eq!(Message::text("héllo").len(), 6);
    assert_eq!(Message::Ping(vec![1, 2, 3]).len(), 3);
    assert_eq!(Message::binary(Vec::<u8>::new()).len(), 0);
    assert_eq!(Message::text("").into_text().unwrap(), "");
    assert_eq!(Message::Ping(b"ok".to_vec()).into_text().unwrap(), "ok");
    assert_eq!(Message::text("").display(), "");
    assert_eq!(Message::binary(&[0xffu8, 0xfe][..]).display(), "Binary Data<length=2>");
    assert_eq!(Message::binary(&b"hi"[..]).display(), "hi");
    assert_eq!(Message::binary(&[1u8, 2, 3][..]), Message::Binary(vec![1, 2, 3]));
}

#[test]
fn into_data_len_is_len() {
    let msgs = vec![
        Message::text("héllo"),
        Message::binary(vec![1u8, 2]),
        Message::Ping(vec![3]),
        Message::Pong(vec![]),
        Message::Close(None),
        Message::Close(Some(CloseFrame { code: 1000, reason: "bye".into() })),
    ];
    for m in msgs {
        let n = m.len();
        assert_eq!(m.into_data().len(), n);
    }
}

#[test]
fn frame_len_counts_header_and_payload() {
    let small = Frame { header: header(None), payload: vec![0; 10] };
    assert_eq!(small.len(), 12);
    let masked = Frame { header: header(Some([1, 2, 3, 4])), payload: vec![0; 10] };
    assert_eq!(masked.len(), 16);
    let medium = Frame { header: header(None), payload: vec![0; 126] };
    assert_eq!(medium.len(), 130);
    let large = Frame { header: header(Some([0; 4])), payload: vec![0; 65536] };
    assert_eq!(large.len(), 65536 + 14);
    assert_eq!(Message::Frame(small.clone()).len(), 12);
    assert_eq!(header(None).len(125), 2);
    assert_eq!(header(None).len(65535), 4);
    assert!(!Frame { header: header(None), payload: vec![] }.is_empty());
}

#[test]
fn into_data_gives_the_payload() {
    assert_eq!(Message::Text("ab".into()).into_data(), b"ab".to_vec());
    assert_eq!(Message::Binary(vec![7]).into_data(), vec![7]);
    assert_eq!(Message::Close(None).into_data(), Vec::<u8>::new());
    assert_eq!(Message::Close(Some(CloseFrame { code: 1001, reason: "gone".into() })).into_data(), b"gone".to_vec());
    let f = Frame { header: header(None), payload: vec![5, 6] };
    assert_eq!(Message::Frame(f).into_data(), vec![5, 6]);
}

#[test]
fn into_text_decodes_utf8() {
    assert_eq!(Message::Text("t".into()).into_text().unwrap(), "t");
    assert_eq!(Message::Binary("ünï".as_bytes().to_vec()).into_text().unwrap(), "ünï");
    assert!(matches!(Message::Binary(vec![0xff, 0xfe]).into_text(), Err(Error::Utf8)));
    assert!(matches!(Message::Ping(vec![0xc3]).into_text(), Err(Error::Utf8)));
    assert_eq!(Message::Close(None).into_text().unwrap(), "");
    assert_eq!(Message::Close(Some(CloseFrame { code: 1000, reason: "r".into() })).into_text().unwrap(), "r");
}

#[test]
fn to_text_borrows() {
    assert_eq!(Message::Text("t".into()).to_text().unwrap(), "t");
    assert_eq!(Message::Pong(b"ok".to_vec()).to_text().unwrap(), "ok");
    assert!(matches!(Message::Binary(vec![0x80]).to_text(), Err(Error::Utf8)));
    let f = Frame { header: header(None), payload: vec![0xe2, 0x82, 0xac] };
    assert_eq!(Message::Frame(f).to_text().unwrap(), "€");
}

#[test]
fn display_shows_text_or_length() {
    assert_eq!(Message::Text("hello".into()).display(), "hello");
    assert_eq!(Message::Binary(vec![0xff, 0x00]).display(), "Binary Data<length=2>");
    assert_eq!(Message::Binary(vec![0xff; 1234]).display(), "Binary Data<length=1234>");
    assert_eq!(Message::Binary(b"abc".to_vec()).display(), "abc");
}

#[test]
fn decimal_strings() {
    assert_eq!(decimal_string(0), "0");
    assert_eq!(decimal_string(7), "7");
    assert_eq!(decimal_string(10), "10");
    assert_eq!(decimal_string(90817), "90817");
    assert_eq!(decimal_string(usize::MAX), usize::MAX.to_string());
}

#[test]
fn text_survives_binary_round_trip() {
    let original = Message::Text("grüße".into());
    let data = original.clone().into_data();
    assert_eq!(Message::Binary(data).into_text().unwrap(), "grüße");
}
