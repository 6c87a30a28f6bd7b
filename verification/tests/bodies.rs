use pstexplorer::body::{html_body_source, resolve, resolve_body, starts_like_html};
use pstexplorer::props::{MessageProps, PropValue};
use pstexplorer::rtf::{header_ok, parse_safe, rtf_compressed_to_text, rtf_to_text};
use pstexplorer::text::str_chars;

const SAMPLE_RTF: &str =
    "{ \\rtf1\\ansi{\\fonttbl\\f0\\fswiss Helvetica;}\\f0\\pard Voici du texte en {\\b gras}.\\par }";

fn no_props() -> MessageProps {
    MessageProps {
        subject: PropValue::Absent,
        from: PropValue::Absent,
        to: PropValue::Absent,
        cc: PropValue::Absent,
        submit_time: PropValue::Absent,
        delivery_time: PropValue::Absent,
        body_plain: PropValue::Absent,
        body_html: PropValue::Absent,
        body_rtf: PropValue::Absent,
    }
}

fn text(s: &str) -> PropValue {
    PropValue::Text(s.to_string())
}

fn compressed(rtf: &str) -> Vec<u8> {
    compressed_rtf::compress_rtf(rtf).unwrap()
}

fn stored(rtf: &[u8]) -> Vec<u8> {
    let mut data = Vec::new();
    data.extend_from_slice(&((rtf.len() as u32 + 12).to_le_bytes()));
    data.extend_from_slice(&(rtf.len() as u32).to_le_bytes());
    data.extend_from_slice(&0x414C_454Du32.to_le_bytes());
    data.extend_from_slice(&0u32.to_le_bytes());
    data.extend_from_slice(rtf);
    data
}

#[test]
fn plain_text_is_preferred() {
    let mut p = no_props();
    p.body_plain = text("plain <b>text</b>");
    p.body_html = text("<p>html</p>");
    p.body_rtf = PropValue::Binary(compressed(SAMPLE_RTF));
    assert_eq!(resolve(&p), "plain <b>text</b>");
}

#[test]
fn html_is_converted_when_there_is_no_plain_text() {
    let mut p = no_props();
    p.body_html = text("<p>html &amp; more</p>");
    p.body_rtf = PropValue::Binary(compressed(SAMPLE_RTF));
    assert_eq!(resolve(&p), "\nhtml & more\n");
    p.body_plain = PropValue::Binary(vec![1, 2, 3]);
    assert_eq!(resolve(&p), "\nhtml & more\n");
}

#[test]
fn html_bytes_are_decoded_and_converted() {
    let mut p = no_props();
    p.body_html = PropValue::Binary(b"  \r\n<div>caf\xC3\xA9 \xFF</div>".to_vec());
    assert_eq!(resolve(&p), "\ncaf\u{E9} \u{FFFD}\n");
}

#[test]
fn html_bytes_that_do_not_look_like_html_are_passed_over() {
    let mut p = no_props();
    p.body_html = PropValue::Binary(b"LZFu binary <p>data</p>".to_vec());
    assert_eq!(resolve_body(&p), None);
    assert_eq!(resolve(&p), "No message content available");
    p.body_rtf = PropValue::Binary(compressed(SAMPLE_RTF));
    assert_eq!(resolve(&p), "Voici du texte en gras.");
}

#[test]
fn html_string_is_taken_without_a_look() {
    let mut p = no_props();
    p.body_html = text("no tag at all");
    assert_eq!(resolve(&p), "no tag at all\n");
}

#[test]
fn rtf_is_decoded_last() {
    let mut p = no_props();
    p.body_rtf = PropValue::Binary(compressed(SAMPLE_RTF));
    assert_eq!(resolve(&p), "Voici du texte en gras.");
    p.body_rtf = text(SAMPLE_RTF);
    assert_eq!(resolve(&p), "No message content available");
}

#[test]
fn nothing_to_show_gives_the_fixed_note() {
    assert_eq!(resolve(&no_props()), "No message content available");
    assert_eq!(resolve_body(&no_props()), None);
    let mut p = no_props();
    p.body_plain = PropValue::Integer(3);
    p.body_html = PropValue::Time(3);
    p.body_rtf = PropValue::Other;
    assert_eq!(resolve(&p), "No message content available");
}

#[test]
fn html_source_of_each_kind_of_value() {
    assert_eq!(html_body_source(&text("x")), Some("x".to_string()));
    assert_eq!(html_body_source(&PropValue::Binary(b"<a>".to_vec())), Some("<a>".to_string()));
    assert_eq!(html_body_source(&PropValue::Binary(b"a<".to_vec())), None);
    assert_eq!(html_body_source(&PropValue::Binary(Vec::new())), None);
    assert_eq!(html_body_source(&PropValue::Absent), None);
    assert_eq!(html_body_source(&PropValue::Integer(1)), None);
}

#[test]
fn html_is_known_by_its_first_character() {
    assert!(starts_like_html("<html>"));
    assert!(starts_like_html(" \t\r\n\u{A0}<p>"));
    assert!(!starts_like_html(""));
    assert!(!starts_like_html("   "));
    assert!(!starts_like_html("x<p>"));
    assert!(!starts_like_html("\u{FEFF}<p>"));
}

#[test]
fn compressed_rtf_gives_its_text() {
    assert_eq!(
        rtf_compressed_to_text(&compressed(SAMPLE_RTF)),
        Some("Voici du texte en gras.".to_string())
    );
    assert_eq!(
        rtf_compressed_to_text(&stored(SAMPLE_RTF.as_bytes())),
        Some("Voici du texte en gras.".to_string())
    );
}

#[test]
fn broken_rtf_bodies_give_nothing() {
    assert_eq!(rtf_compressed_to_text(&Vec::new()), None);
    assert_eq!(rtf_compressed_to_text(&vec![0u8; 15]), None);
    assert_eq!(rtf_compressed_to_text(&vec![0u8; 16]), None);
    let mut short = stored(SAMPLE_RTF.as_bytes());
    short[4] = 0xFF;
    short[5] = 0xFF;
    assert_eq!(rtf_compressed_to_text(&short), None);
    let mut bad_crc = compressed(SAMPLE_RTF);
    bad_crc[12] ^= 1;
    assert_eq!(rtf_compressed_to_text(&bad_crc), None);
    assert_eq!(rtf_compressed_to_text(&compressed("no braces here")), None);
}

#[test]
fn headers_are_checked_before_decompression() {
    assert!(!header_ok(&vec![0u8; 15]));
    assert!(header_ok(&vec![0u8; 16]));
    assert!(header_ok(&stored(b"abc")));
    let mut beyond = stored(b"abc");
    beyond[4] = 4;
    assert!(!header_ok(&beyond));
    assert!(header_ok(&compressed(SAMPLE_RTF)));
}

#[test]
fn rtf_text_is_read_where_the_parser_can_take_it() {
    assert_eq!(rtf_to_text(SAMPLE_RTF), Some("Voici du texte en gras.".to_string()));
    assert_eq!(rtf_to_text("{\\rtf1 a\\u233 b}"), Some("a\u{E9}b".to_string()));
    assert_eq!(rtf_to_text("{\\rtf1 \\uc1 a\\u-3913 b}"), Some("a\u{F0B7}b".to_string()));
    assert_eq!(rtf_to_text("{\\rtf1 \\uc1000 a\\u233 b}"), Some("a\u{E9}b".to_string()));
    assert_eq!(rtf_to_text("{\\rtf1 \\sl-240 a}"), Some("a".to_string()));
    assert_eq!(rtf_to_text("{\\rtf1 \\sl-100000 a}"), Some("a".to_string()));
    assert_eq!(rtf_to_text(""), None);
}

#[test]
fn surrogate_pairs_are_read_together() {
    assert_eq!(rtf_to_text("{\\rtf1 a\\u-10179 \\u-8704 b}"), Some("a\u{1F600}b".to_string()));
    assert_eq!(rtf_to_text("{\\rtf1 a\\u55357\\u56832 b}"), Some("a\u{1F600}b".to_string()));
    assert_eq!(rtf_to_text("{\\rtf1 a\\u55357; \\u56832; b}"), Some("a\u{1F600}b".to_string()));
}

#[test]
fn half_a_surrogate_pair_is_passed_over() {
    assert_eq!(rtf_to_text("{\\rtf1 a\\u55357 b}"), None);
    assert_eq!(rtf_to_text("{\\rtf1 a\\u-10179 b}"), None);
    assert_eq!(rtf_to_text("{\\rtf1 a\\u56832 b}"), None);
    assert_eq!(rtf_to_text("{\\rtf1 a\\u56832 \\u55357 b}"), None);
    assert_eq!(rtf_to_text("{\\rtf1 a\\u55357 ?\\u56832 ?b}"), None);
    assert_eq!(rtf_to_text("{\\rtf1 a\\u55357\\'3f\\u56832\\'3f b}"), None);
    assert_eq!(rtf_to_text("{\\rtf1 a\\u55357{\\u56832 }b}"), None);
}

#[test]
fn words_that_the_lexer_does_not_read_are_no_hindrance() {
    assert!(rtf_to_text("{\\rtf1 a\\u55357?b}").is_some());
    assert!(rtf_to_text("{\\rtf1 a\\u-10179?\\u-8704?b}").is_some());
    assert!(rtf_to_text("{\\rtf1 a\\\\u55357 b}").is_some());
    assert!(rtf_to_text("{\\rtf1 a\\u100000 b}").is_some());
    assert!(rtf_to_text("{\\rtf1 a\\u-70000 b}").is_some());
    assert!(rtf_to_text("{\\rtf1 a\\uc-1x b}").is_some());
}

#[test]
fn counts_and_magnitudes_that_stop_the_parser_are_passed_over() {
    assert_eq!(rtf_to_text("{\\rtf1 \\uc-1 a\\u233 b}"), None);
    assert_eq!(rtf_to_text("{\\rtf1 \\uc-2147483648 a\\u233 b}"), None);
    assert_eq!(rtf_to_text("{\\rtf1 \\uc32768 a\\u233 b}"), None);
    assert_eq!(rtf_to_text("{\\rtf1 \\sl-2147483648 a}"), None);
    assert_eq!(rtf_to_text("{\\rtf1 \\sl-0002147483648 a}"), None);
}

#[test]
fn unsafe_escapes_are_told_apart() {
    let safe = |text: &str| parse_safe(&str_chars(text));
    assert!(safe(""));
    assert!(safe("{\\rtf1\\uc1 \\u8217 x \\u-4000 \\ul \\u}"));
    assert!(safe("\\u55295 \\u57344 \\u-8192 \\u-10241 \\uc999 \\u0065535"));
    assert!(!safe("\\u55296"));
    assert!(!safe("\\u56319 x"));
    assert!(!safe("\\u56320"));
    assert!(!safe("\\u57343"));
    assert!(!safe("\\u-8193"));
    assert!(!safe("\\u-9216"));
    assert!(!safe("\\u-9217"));
    assert!(!safe("\\u-10240"));
    assert!(!safe("\\u055296"));
    assert!(!safe("\\u55296;"));
    assert!(!safe("\\u55296; "));
    assert!(!safe("\\u55296\u{A0}"));
    assert!(!safe("\\u55296\t\\u56320"));
    assert!(!safe("\\u55296  \\u56320"));
    assert!(!safe("\\u55296 \\u56320\\u56320"));
    assert!(!safe("\\u55296 \\u55296 \\u56320"));
    assert!(!safe("\\u55296 \\u56320?"));
    assert!(safe("\\u55296 \\u56320"));
    assert!(safe("\\u55296\\u56320"));
    assert!(safe("\\u-10240;\\u-9216;"));
    assert!(safe("\\u55296 \\u56320 \\u55297 \\u56321\n"));
    assert!(safe("\\u55296?"));
    assert!(safe("\\u55296;x"));
    assert!(safe("\\u55296;;"));
    assert!(safe("\\u55296\u{A0}x"));
    assert!(safe("x\\\\u55296"));
    assert!(safe("\\\\\\u55296 "));
    assert!(safe("\\u100000"));
    assert!(safe("\\u1-2"));
    assert!(safe("\\u--55296"));
    assert!(!safe("\\uc-1"));
    assert!(!safe("\\uc-1;"));
    assert!(!safe("\\uc-2147483648 "));
    assert!(!safe("\\uc32768"));
    assert!(!safe("\\uc2147483647"));
    assert!(safe("\\uc-0"));
    assert!(safe("\\uc-"));
    assert!(safe("\\uc32767"));
    assert!(safe("\\uc1000"));
    assert!(safe("\\uc2147483648"));
    assert!(safe("\\uc-2147483649"));
    assert!(safe("\\uc-1x"));
    assert!(safe("\\\\uc-1"));
    assert!(safe("\\sl240 \\sl-240 \\slmul-2147483648 \\sl"));
    assert!(safe("\\sl-100000"));
    assert!(safe("\\sl-2147483647"));
    assert!(safe("\\sl2147483648"));
    assert!(safe("\\sl-2147483648x"));
    assert!(!safe("\\sl-2147483648"));
    assert!(!safe("\\sl-02147483648}"));
    let long: String = "a".repeat(400_000);
    assert!(safe(&long));
    let most: String = "\\red0\\green0\\blue0;".repeat(65_534);
    assert!(safe(&most));
    let many: String = "\\red0\\green0\\blue0;".repeat(65_535);
    assert!(!safe(&many));
}
