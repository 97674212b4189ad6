use epaper_refresh::payload::{bounded_chunk, TextPayload, MAX_TEXT_BUFFER_SIZE};

#[test]
fn buffer_capacity_is_2048() {
    assert_eq!(MAX_TEXT_BUFFER_SIZE, 2048);
}

#[test]
fn short_chunk_is_kept_whole() {
    assert_eq!(bounded_chunk(b"abc"), b"abc");
    assert_eq!(bounded_chunk(b""), b"");
}

#[test]
fn chunk_of_exactly_the_capacity_is_kept_whole() {
    let chunk: Vec<u8> = (0..2048u32).map(|i| b'a' + (i % 26) as u8).collect();
    assert_eq!(bounded_chunk(&chunk), &chunk[..]);
    let payload = TextPayload::decode(&chunk).unwrap();
    assert_eq!(payload.as_str().as_bytes(), &chunk[..]);
    assert_eq!(payload.as_str().len(), 2048);
}

#[test]
fn chunk_one_byte_over_the_capacity_loses_its_last_byte() {
    let chunk: Vec<u8> = (0..2049u32).map(|i| b'a' + (i % 26) as u8).collect();
    assert_eq!(bounded_chunk(&chunk), &chunk[..2048]);
    let payload = TextPayload::decode(&chunk).unwrap();
    assert_eq!(payload.as_str().as_bytes(), &chunk[..2048]);
}

#[test]
fn long_chunk_keeps_its_first_2048_bytes() {
    let chunk = vec![b'z'; 10_000];
    assert_eq!(bounded_chunk(&chunk).len(), 2048);
    assert_eq!(TextPayload::decode(&chunk).unwrap().as_str().len(), 2048);
}

#[test]
fn text_is_decoded_as_it_came() {
    let payload = TextPayload::decode("Gr\u{fc}\u{df} dich\n".as_bytes()).unwrap();
    assert_eq!(payload.as_str(), "Gr\u{fc}\u{df} dich\n");
}

#[test]
fn empty_chunk_is_an_empty_payload() {
    assert_eq!(TextPayload::decode(b"").unwrap().as_str(), "");
}

#[test]
fn malformed_utf8_is_refused() {
    assert!(TextPayload::decode(&[0xff]).is_none());
    assert!(TextPayload::decode(&[b'a', 0x80, b'b']).is_none());
    assert!(TextPayload::decode(&[0xc3]).is_none());
    assert!(TextPayload::decode(&[0xed, 0xa0, 0x80]).is_none());
    assert!(TextPayload::decode(&[0xc0, 0xaf]).is_none());
    assert!(TextPayload::decode(&[0xf4, 0x90, 0x80, 0x80]).is_none());
}

#[test]
fn malformed_bytes_past_the_capacity_do_not_count() {
    let mut chunk = vec![b'a'; 2048];
    chunk.push(0xff);
    assert_eq!(TextPayload::decode(&chunk).unwrap().as_str().len(), 2048);
}

#[test]
fn character_cut_in_two_by_the_capacity_is_refused() {
    let mut chunk = vec![b'a'; 2047];
    chunk.extend_from_slice("\u{e4}".as_bytes());
    assert_eq!(chunk.len(), 2049);
    assert!(TextPayload::decode(&chunk).is_none());
}
