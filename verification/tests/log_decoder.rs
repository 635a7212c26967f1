use turmy::decode::lossy_text;
use turmy::log_decoder::LogTextDecoder;

fn decoded(pieces: &[&[u8]]) -> String {
    let mut decoder = LogTextDecoder::default();
    let mut output = String::new();
    for piece in pieces {
        decoder.push(piece, &mut output);
    }
    output
}

#[test]
fn decoder_preserves_utf8_split_between_appends() {
    let mut decoder = LogTextDecoder::default();
    let mut output = String::new();
    decoder.push(&[b'a', 0xe2, 0x82], &mut output);
    assert_eq!(output, "a");
    decoder.push(&[0xac, b'b'], &mut output);
    assert_eq!(output, "a€b");
}

#[test]
fn decoder_replaces_invalid_utf8_and_continues() {
    let mut decoder = LogTextDecoder::default();
    let mut output = String::new();
    decoder.push(b"before\xffafter", &mut output);
    assert_eq!(output, "before\u{fffd}after");
}

#[test]
fn decoder_normalizes_common_terminal_output() {
    let mut decoder = LogTextDecoder::default();
    let mut output = String::new();
    decoder.push(b"progress 10%\rprogress 20%\nabc\x08D\tx", &mut output);
    assert_eq!(output, "progress 20%\nabD     x");
}

#[test]
fn decoder_strips_ansi_sequences_across_appends() {
    let mut decoder = LogTextDecoder::default();
    let mut output = String::new();
    decoder.push(b"plain \x1b[31", &mut output);
    decoder.push(b"mred\x1b[0m \x1b]0;title", &mut output);
    decoder.push(b"\x07text", &mut output);
    assert_eq!(output, "plain red text");
}

#[test]
fn decoder_applies_ansi_erase_line() {
    let mut decoder = LogTextDecoder::default();
    let mut output = String::new();
    decoder.push(b"a long status\rshort\x1b[K", &mut output);
    assert_eq!(output, "short");
}

#[test]
fn bytes_may_arrive_in_any_pieces() {
    let bytes = b"10%\r20%\x1b[2K\xe2\x82\xacdone\x1b]0;t\x1b\\\tx\xff\xe2\x82";
    let whole = decoded(&[bytes]);
    for cut in 0..bytes.len() {
        assert_eq!(decoded(&[&bytes[..cut], &bytes[cut..]]), whole);
    }
}

#[test]
fn erase_line_takes_its_parameter() {
    assert_eq!(decoded(&[b"abc\x1b[2K"]), "");
    assert_eq!(decoded(&[b"one\nabc\x1b[2Kd"]), "one\nd");
    assert_eq!(decoded(&[b"abcd\x08\x08\x1b[1K"]), "  cd");
    assert_eq!(decoded(&[b"abcd\x08\x08\x1b[0K"]), "ab");
}

#[test]
fn backspace_stops_at_the_start_of_the_line() {
    assert_eq!(decoded(&[b"x\n\x08\x08y"]), "x\ny");
}

#[test]
fn tabs_reach_the_next_tab_stop() {
    assert_eq!(decoded(&[b"\tx"]), "        x");
    assert_eq!(decoded(&[b"1234567\tx"]), "1234567 x");
    assert_eq!(decoded(&[b"12345678\tx"]), "12345678        x");
    assert_eq!(decoded(&["测\tx".as_bytes()]), "测      x");
}

#[test]
fn other_control_characters_are_dropped() {
    assert_eq!(decoded(&[b"a\x00\x07b\x7fc"]), "abc");
    assert_eq!(decoded(&["a\u{9b}1mb\u{9d}0;t\u{7}c".as_bytes()]), "abc");
}

#[test]
fn reset_forgets_what_was_pending() {
    let mut decoder = LogTextDecoder::default();
    let mut output = String::new();
    decoder.push(b"ab\x1b[3", &mut output);
    decoder.push(b"\xe2", &mut output);
    decoder.reset();
    output.clear();
    decoder.push(b"mcd", &mut output);
    assert_eq!(output, "mcd");
}

#[test]
fn lossy_text_replaces_an_unfinished_end() {
    assert_eq!(lossy_text(b"ok"), "ok");
    assert_eq!(lossy_text(b"a\xe2\x82"), "a\u{fffd}");
    assert_eq!(lossy_text(b"a\xf0\x80b"), "a\u{fffd}\u{fffd}b");
}
