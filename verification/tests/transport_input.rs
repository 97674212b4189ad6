use epaper_refresh::transport::{received, StaticSource, ACKNOWLEDGEMENT};

#[test]
fn acknowledgement_is_ok_and_a_line_feed() {
    assert_eq!(ACKNOWLEDGEMENT, "ok !\n");
    assert_eq!(ACKNOWLEDGEMENT.as_bytes(), b"ok !\n");
}

#[test]
fn failed_read_is_no_input() {
    assert_eq!(received(b"stale bytes", None), None);
}

#[test]
fn empty_read_is_no_input() {
    assert_eq!(received(b"stale bytes", Some(0)), None);
}

#[test]
fn read_delivers_the_bytes_it_counted() {
    assert_eq!(received(b"Hello\nWorld....", Some(11)), Some(&b"Hello\nWorld"[..]));
    assert_eq!(received(b"x", Some(1)), Some(&b"x"[..]));
}

#[test]
fn count_beyond_the_buffer_delivers_the_buffer() {
    assert_eq!(received(b"abc", Some(7)), Some(&b"abc"[..]));
}

#[test]
fn static_source_delivers_its_text_once() {
    let mut source = StaticSource::new("Hello\nWorld");
    assert_eq!(source.poll_input(), Some(&b"Hello\nWorld"[..]));
    for _ in 0..10 {
        assert_eq!(source.poll_input(), None);
    }
}

#[test]
fn static_source_delivers_an_empty_text_too() {
    let mut source = StaticSource::new("");
    assert_eq!(source.poll_input(), Some(&b""[..]));
    assert_eq!(source.poll_input(), None);
}

#[test]
fn acknowledging_a_static_source_changes_nothing() {
    let mut source = StaticSource::new("text");
    source.acknowledge(ACKNOWLEDGEMENT.as_bytes());
    assert_eq!(source.poll_input(), Some(&b"text"[..]));
    source.acknowledge(ACKNOWLEDGEMENT.as_bytes());
    assert_eq!(source.poll_input(), None);
}
