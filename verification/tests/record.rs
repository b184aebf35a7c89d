use greeting_counter::error::ErrorKind;
use greeting_counter::record::GreetingAccount;

#[test]
fn decode_reads_little_endian_prefix() {
    let rec = GreetingAccount::decode(&[0x78, 0x56, 0x34, 0x12]).unwrap();
    assert_eq!(rec.counter, 0x12345678);
}

#[test]
fn decode_ignores_trailing_bytes() {
    let rec = GreetingAccount::decode(&[5, 0, 0, 0, 0xAA, 0xBB]).unwrap();
    assert_eq!(rec.counter, 5);
}

#[test]
fn decode_rejects_short_buffer() {
    assert_eq!(
        GreetingAccount::decode(&[1, 2, 3]),
        Err(ErrorKind::MalformedRecord)
    );
    assert_eq!(GreetingAccount::decode(&[]), Err(ErrorKind::MalformedRecord));
}

#[test]
fn encode_writes_prefix_and_keeps_tail() {
    let rec = GreetingAccount { counter: 0x12345678 };
    let mut data = vec![0, 0, 0, 0, 0xAA, 0xBB];
    rec.encode_into(&mut data).unwrap();
    assert_eq!(data, vec![0x78, 0x56, 0x34, 0x12, 0xAA, 0xBB]);
}

#[test]
fn encode_rejects_short_buffer_untouched() {
    let rec = GreetingAccount { counter: 7 };
    let mut data = vec![9, 9, 9];
    assert_eq!(rec.encode_into(&mut data), Err(ErrorKind::BufferTooSmall));
    assert_eq!(data, vec![9, 9, 9]);
}

#[test]
fn round_trip_reproduces_prefix() {
    let original = vec![0xDE, 0xAD, 0xBE, 0xEF, 0x01, 0x02];
    let rec = GreetingAccount::decode(&original).unwrap();
    let mut data = original.clone();
    rec.encode_into(&mut data).unwrap();
    assert_eq!(data, original);
}

#[test]
fn increment_steps_by_one() {
    let mut rec = GreetingAccount { counter: 5 };
    rec.increment();
    assert_eq!(rec.counter, 6);
}

#[test]
fn increment_wraps_at_maximum() {
    let mut rec = GreetingAccount { counter: u32::MAX };
    rec.increment();
    assert_eq!(rec.counter, 0);
}

#[test]
fn encoding_matches_borsh_serialization() {
    let rec = GreetingAccount { counter: 0x12345678 };
    let mut data = vec![0u8; 4];
    rec.encode_into(&mut data).unwrap();
    let reference = borsh::to_vec(&0x12345678u32).unwrap();
    assert_eq!(data, reference);
}

#[test]
fn decoding_matches_borsh_deserialization() {
    let bytes = [0x0D, 0xF0, 0xFE, 0xCA];
    let rec = GreetingAccount::decode(&bytes).unwrap();
    let reference: u32 = borsh::from_slice(&bytes).unwrap();
    assert_eq!(rec.counter, reference);
}
