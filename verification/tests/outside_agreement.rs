use async_tungstenite::tungstenite::protocol::frame::{coding::OpCode as TOpCode, coding::Data, Frame as TFrame, FrameHeader as THeader};
use base64::Engine;
use httpz::ws::{sign, Frame, FrameHeader, OpCode};
use sha1::Digest;

#[test]
fn frame_len_agrees_with_tungstenite() {
    for size in [0usize, 1, 125, 126, 127, 65535, 65536, 70000] {
        for mask in [None, Some([9u8, 8, 7, 6])] {
            let ours = Frame {
                header: FrameHeader { is_final: true, rsv1: false, rsv2: false, rsv3: false, opcode: OpCode::Binary, mask },
                payload: vec![1; size],
            };
            let mut header = THeader::default();
            header.opcode = TOpCode::Data(Data::Binary);
            header.mask = mask;
            let theirs = TFrame::from_payload(header, vec![1; size]);
            assert_eq!(ours.len(), theirs.len(), "payload of {} bytes", size);
        }
    }
}

#[test]
fn accept_key_agrees_with_sha1_and_base64() {
    for key in ["", "x", "dGhlIHNhbXBsZSBub25jZQ==", "AQIDBAUGBwgJCgsMDQ4PEC==", "a much longer key than usual"] {
        let mut hasher = sha1::Sha1::default();
        hasher.update(key.as_bytes());
        hasher.update(b"258EAFA5-E914-47DA-95CA-C5AB0DC85B11");
        let expected = base64::engine::general_purpose::STANDARD.encode(hasher.finalize());
        assert_eq!(sign(key.as_bytes()), expected);
    }
}
