use holdfast::wire::{decode_message, decode_varint, encode_message, encode_varint, WireError};
use holdfast::ws::{refusal, ws_message, WsInput, WsStep};
use holdfast::protocol::{ErrorCode, Message};

struct XorShift(u64);
impl XorShift {
    fn next(&mut self) -> u64 {
        let mut x = self.0;
        x ^= x << 13;
        x ^= x >> 7;
        x ^= x << 17;
        self.0 = x;
        x
    }
    fn byte(&mut self) -> u8 {
        (self.next() & 0xff) as u8
    }
    fn range(&mut self, n: usize) -> usize {
        (self.next() % n as u64) as usize
    }
}

const MAX_FRAME: u32 = 64 * 1024;

#[test]
fn varint_roundtrip() {
    for v in [0u64, 1, 127, 128, 300, u32::MAX as u64, u64::MAX] {
        let mut buf = Vec::new();
        encode_varint(v, &mut buf);
        assert_eq!(decode_varint(&buf), Some((v, buf.len())));
    }
    assert_eq!(decode_varint(&[]), None);
    assert_eq!(decode_varint(&[0x80]), None, "unterminated varint");
}

#[test]
fn message_roundtrip() {
    let payload = vec![8, 9, 50, 2, 8, 9];
    let msg = encode_message(3, &payload, 1024).unwrap();
    let (ch, back) = decode_message(&msg, 1024).unwrap();
    assert_eq!(ch, 3);
    assert_eq!(back, payload);
}

#[test]
fn trailing_bytes_rejected() {
    let mut msg = encode_message(1, &[8, 1], 1024).unwrap();
    msg.push(0);
    assert!(matches!(decode_message(&msg, 1024), Err(WireError::NotExactlyOneFrame)));
}

#[test]
fn random_messages_never_panic() {
    for seed in 1..=500u64 {
        let mut rng = XorShift(seed.wrapping_mul(0x2545F4914F6CDD1D) | 1);
        let len = rng.range(1024);
        let data: Vec<u8> = (0..len).map(|_| rng.byte()).collect();
        // Any Err is acceptable; a panic is not.
        let _ = decode_message(&data, MAX_FRAME);
    }
}

#[test]
fn multibyte_varint_prefixes_are_handled() {
    // Exercise valid and truncated varint channel prefixes.
    let cases: Vec<Vec<u8>> = vec![
        vec![0x00u8], // channel 0, then a frame
        vec![0x80],   // truncated varint
        vec![0xff, 0xff, 0xff, 0x0f],
        vec![0x80, 0x80, 0x80, 0x80, 0x80, 0x80, 0x80, 0x80, 0x80, 0x80], // overlong
    ];
    for prefix in &cases {
        let mut msg = prefix.clone();
        msg.extend_from_slice(&4u32.to_be_bytes());
        msg.extend_from_slice(&[0u8; 4]);
        // Either parses to a (channel, envelope) or errors — never panics.
        let _ = decode_message(&msg, MAX_FRAME);
    }
}

#[test]
fn oversized_declared_frame_rejected() {
    // channel 0 varint, then a length prefix above the maximum.
    let mut msg = vec![0x00];
    msg.extend_from_slice(&(MAX_FRAME + 1).to_be_bytes());
    msg.extend_from_slice(&[0u8; 16]);
    assert!(decode_message(&msg, MAX_FRAME).is_err());
    assert_eq!(
        decode_message(&msg, MAX_FRAME),
        Err(WireError::FrameTooLarge { len: 65_537, max: 65_536 })
    );
}

#[test]
fn the_wire_form_is_exact() {
    let mut buf = Vec::new();
    encode_varint(300, &mut buf);
    assert_eq!(buf, vec![0xAC, 0x02]);
    assert_eq!(encode_message(300, &[7], 16).unwrap(), vec![0xAC, 0x02, 0, 0, 0, 1, 7]);
    assert!(matches!(encode_message(0, &[7; 17], 16), Err(WireError::FrameTooLarge { .. })));
    assert_eq!(decode_message(&[0x80], 16), Err(WireError::BadVarint));
    assert_eq!(decode_message(&[0, 0, 0, 0, 2, 7], 16), Err(WireError::NotExactlyOneFrame));
}

#[test]
fn socket_messages_are_sorted() {
    let data = encode_message(5, &[1, 2], 16).unwrap();
    assert_eq!(
        ws_message(WsInput::Binary(data), 16),
        WsStep::Dispatch { channel: 5, payload: vec![1, 2] }
    );
    assert_eq!(ws_message(WsInput::Close, 16), WsStep::Close);
    assert_eq!(ws_message(WsInput::Other, 16), WsStep::Ignore);
    assert_eq!(
        ws_message(WsInput::Binary(vec![0x80]), 16),
        WsStep::Refuse { text: "truncated or oversized varint channel prefix".to_string() }
    );
    let told = refusal("no");
    assert!(matches!(
        told.message,
        Some(Message::Error { code: ErrorCode::ErrFrameTooLarge, retryable: false, .. })
    ));
}
