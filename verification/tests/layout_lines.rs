use epaper_refresh::layout::{
    layout, FontStyle, LineRecord, LEFT_MARGIN, LINE0_GAP, SECONDARY_PITCH, TOP_MARGIN,
};
use epaper_refresh::payload::TextPayload;

fn texts(bytes: &[u8]) -> Vec<String> {
    let payload = TextPayload::decode(bytes).unwrap();
    layout(&payload).iter().map(|record| record.text.to_string()).collect()
}

#[test]
fn hello_world_gives_title_and_one_body_line() {
    let payload = TextPayload::decode(b"Hello\nWorld").unwrap();
    let records = layout(&payload);
    assert_eq!(records.len(), 2);
    assert_eq!(
        records[0],
        LineRecord { text: "Hello", style: FontStyle::Primary, x: 5, y: 5 }
    );
    assert_eq!(
        records[1],
        LineRecord { text: "World", style: FontStyle::Secondary, x: 5, y: 25 }
    );
}

#[test]
fn empty_payload_gives_one_empty_title() {
    let payload = TextPayload::decode(b"").unwrap();
    let records = layout(&payload);
    assert_eq!(records.len(), 1);
    assert_eq!(
        records[0],
        LineRecord { text: "", style: FontStyle::Primary, x: 5, y: 5 }
    );
}

#[test]
fn margins_and_pitch_have_their_values() {
    assert_eq!(LEFT_MARGIN, 5);
    assert_eq!(TOP_MARGIN, 5);
    assert_eq!(LINE0_GAP, 20);
    assert_eq!(SECONDARY_PITCH, 20);
}

#[test]
fn first_line_is_primary_and_the_rest_secondary() {
    let payload = TextPayload::decode(b"a\nb\nc\nd").unwrap();
    let records = layout(&payload);
    assert_eq!(records.len(), 4);
    assert_eq!(records[0].style, FontStyle::Primary);
    for record in &records[1..] {
        assert_eq!(record.style, FontStyle::Secondary);
    }
}

#[test]
fn baselines_step_by_the_pitch() {
    let payload = TextPayload::decode(b"0\n1\n2\n3\n4\n5").unwrap();
    let records = layout(&payload);
    let ys: Vec<i32> = records.iter().map(|record| record.y).collect();
    assert_eq!(ys, vec![5, 25, 45, 65, 85, 105]);
    for record in &records {
        assert_eq!(record.x, 5);
    }
}

#[test]
fn last_baseline_of_a_full_buffer_of_line_feeds() {
    let chunk = vec![b'\n'; 2048];
    let payload = TextPayload::decode(&chunk).unwrap();
    let records = layout(&payload);
    assert_eq!(records.len(), 2048);
    assert_eq!(records[2047].y, 5 + 20 + 2046 * 20);
    assert_eq!(records[2047].text, "");
}

#[test]
fn final_line_feed_adds_no_line() {
    assert_eq!(texts(b"Hello\n"), vec!["Hello"]);
    assert_eq!(texts(b"Hello\nWorld\n"), vec!["Hello", "World"]);
}

#[test]
fn lone_line_feed_is_one_empty_line() {
    assert_eq!(texts(b"\n"), vec![""]);
}

#[test]
fn empty_lines_in_the_middle_are_kept() {
    assert_eq!(texts(b"a\n\nb"), vec!["a", "", "b"]);
    assert_eq!(texts(b"\n\n"), vec!["", ""]);
    assert_eq!(texts(b"\nx"), vec!["", "x"]);
}

#[test]
fn carriage_return_before_line_feed_is_part_of_the_ending() {
    assert_eq!(texts(b"one\r\ntwo\r\n"), vec!["one", "two"]);
    assert_eq!(texts(b"\r\n"), vec![""]);
}

#[test]
fn carriage_return_elsewhere_is_part_of_the_text() {
    assert_eq!(texts(b"a\rb"), vec!["a\rb"]);
    assert_eq!(texts(b"end\r"), vec!["end\r"]);
    assert_eq!(texts(b"x\r\r\ny"), vec!["x\r", "y"]);
}

#[test]
fn lines_are_what_str_lines_gives() {
    let samples: [&str; 8] = [
        "Hello\nWorld",
        "a\r\nb\nc\r",
        "\n\n\n",
        "no line feed at all",
        "\r\n\r\n",
        "tr\u{e4}nen\n\u{20ac}uro\n",
        "\rleading",
        "x\n",
    ];
    for sample in samples {
        let expected: Vec<String> = sample.lines().map(|line| line.to_string()).collect();
        assert_eq!(texts(sample.as_bytes()), expected);
    }
}

#[test]
fn characters_of_several_bytes_stay_whole() {
    let payload = TextPayload::decode("Gr\u{fc}\u{df}e\n\u{65e5}\u{672c}\n\u{1f600}".as_bytes()).unwrap();
    let records = layout(&payload);
    assert_eq!(records.len(), 3);
    assert_eq!(records[0].text, "Gr\u{fc}\u{df}e");
    assert_eq!(records[1].text, "\u{65e5}\u{672c}");
    assert_eq!(records[2].text, "\u{1f600}");
}

#[test]
fn layout_of_the_same_payload_is_the_same() {
    let payload = TextPayload::decode(b"Title\nfirst\nsecond").unwrap();
    assert_eq!(layout(&payload), layout(&payload));
}
