use price_store::session::{handle_message, Session};
use price_store::store::PriceStore;
use price_store::wire::{
    decode_frame, encode_i32_be, encode_response, read_i32_be, InsertMessage, Message,
    QueryMessage, Response,
};

#[test]
fn test_handle_message_insert() {
    let mut prices = PriceStore::new();
    let message = [b'I', 0, 0, 0, 1, 0, 0, 0, 10];

    handle_message(&message, &mut prices);

    assert_eq!(prices.get(1), Some(10));
}

#[test]
fn test_handle_message_query() {
    let mut prices = PriceStore::new();
    prices.insert(1, 10);
    prices.insert(2, 20);
    prices.insert(3, 30);
    prices.insert(4, 40);
    prices.insert(5, 50);

    let message = [b'Q', 0, 0, 0, 2, 0, 0, 0, 4];

    let response = handle_message(&message, &mut prices);

    assert_eq!(response, Some(Response { average: 30 }));
}

#[test]
fn test_decode_insert_frame() {
    let frame = [b'I', 0, 0, 0x30, 0x39, 0, 0, 0, 0x65];
    let decoded = decode_frame(&frame);
    assert_eq!(
        decoded,
        Some(Message::Insert(InsertMessage { tag: b'I', timestamp: 12345, price: 101 }))
    );
}

#[test]
fn test_decode_query_frame_negative_fields() {
    let frame = [b'Q', 0xFF, 0xFF, 0xFF, 0xFF, 0x80, 0, 0, 0];
    let decoded = decode_frame(&frame);
    assert_eq!(
        decoded,
        Some(Message::Query(QueryMessage { tag: b'Q', mintime: -1, maxtime: i32::MIN }))
    );
}

#[test]
fn test_decode_unknown_discriminant() {
    let frame = [b'X', 1, 2, 3, 4, 5, 6, 7, 8];
    assert_eq!(decode_frame(&frame), None);
}

#[test]
fn test_read_i32_be_extremes() {
    assert_eq!(read_i32_be(&[0x80, 0, 0, 0], 0), i32::MIN);
    assert_eq!(read_i32_be(&[0x7F, 0xFF, 0xFF, 0xFF], 0), i32::MAX);
    assert_eq!(read_i32_be(&[0, 0, 0, 0], 0), 0);
    assert_eq!(read_i32_be(&[9, 0xFF, 0xFF, 0xFF, 0xFF], 1), -1);
}

#[test]
fn test_encode_response_bytes() {
    let out = encode_response(&Response { average: 0x01020304 });
    assert_eq!(out, vec![1, 2, 3, 4]);

    let neg = encode_response(&Response { average: -1 });
    assert_eq!(neg, vec![0xFF, 0xFF, 0xFF, 0xFF]);

    let min = encode_response(&Response { average: i32::MIN });
    assert_eq!(min, vec![0x80, 0, 0, 0]);
}

#[test]
fn test_encode_decode_round_trip() {
    for value in [0, 1, -1, 12345, -12345, i32::MIN, i32::MAX, 0x0A0B0C0D] {
        let bytes = encode_i32_be(value);
        assert_eq!(read_i32_be(&bytes, 0), value);
    }
}

#[test]
fn test_unknown_discriminant_keeps_session_open() {
    let mut session = Session::new();

    let junk = [b'X', 1, 2, 3, 4, 5, 6, 7, 8];
    assert_eq!(session.on_frame(&junk), None);
    assert!(session.is_open());

    // A later valid exchange on the same session still works.
    let insert = [b'I', 0, 0, 0, 1, 0, 0, 0, 7];
    assert_eq!(session.on_frame(&insert), None);
    let query = [b'Q', 0, 0, 0, 0, 0, 0, 0, 10];
    assert_eq!(session.on_frame(&query), Some(Response { average: 7 }));
}

#[test]
fn test_three_inserts_then_covering_query() {
    let mut session = Session::new();

    // Insert 12345 -> 101, 12346 -> 102, 12347 -> 100.
    assert_eq!(session.on_frame(&[b'I', 0, 0, 0x30, 0x39, 0, 0, 0, 0x65]), None);
    assert_eq!(session.on_frame(&[b'I', 0, 0, 0x30, 0x3A, 0, 0, 0, 0x66]), None);
    assert_eq!(session.on_frame(&[b'I', 0, 0, 0x30, 0x3B, 0, 0, 0, 0x64]), None);

    // Query 12288..=12348 covers all three.
    let response = session.on_frame(&[b'Q', 0, 0, 0x30, 0x00, 0, 0, 0x30, 0x3C]);
    assert_eq!(response, Some(Response { average: 101 }));
}

#[test]
fn test_query_idempotent() {
    let mut session = Session::new();
    assert_eq!(session.on_frame(&[b'I', 0, 0, 0, 2, 0, 0, 0, 21]), None);
    assert_eq!(session.on_frame(&[b'I', 0, 0, 0, 3, 0, 0, 0, 22]), None);

    let query = [b'Q', 0, 0, 0, 0, 0, 0, 0, 9];
    let first = session.on_frame(&query);
    let second = session.on_frame(&query);
    assert_eq!(first, Some(Response { average: 21 }));
    assert_eq!(second, first);
}

#[test]
fn test_close_is_terminal() {
    let mut session = Session::new();
    assert!(session.is_open());
    session.close();
    assert!(!session.is_open());
}

#[test]
fn test_sessions_start_empty() {
    let mut first = Session::new();
    assert_eq!(first.on_frame(&[b'I', 0, 0, 0, 1, 0, 0, 0, 50]), None);

    // A second session sees none of the first session's data.
    let mut second = Session::new();
    let query = [b'Q', 0, 0, 0, 0, 0, 0, 0, 5];
    assert_eq!(second.on_frame(&query), Some(Response { average: 0 }));
    assert_eq!(first.on_frame(&query), Some(Response { average: 50 }));
}
