use pstexplorer::html::{html_to_text, parse_digits, scan_chars, tidy_lines};
use pstexplorer::text::{chars_string, str_chars};

fn scan(html: &str) -> String {
    chars_string(&scan_chars(&str_chars(html)))
}

fn tidy(text: &str) -> String {
    chars_string(&tidy_lines(&str_chars(text)))
}

#[test]
fn paragraphs_become_lines() {
    let text = html_to_text("<p>A&amp;B</p><p>C</p>");
    assert_eq!(text, "\nA&B\n\nC\n");
    assert!(!text.contains('<'));
    assert!(!text.contains('>'));
    assert!(text.contains("A&B\n"));
    assert!(text.ends_with("C\n"));
}

#[test]
fn plain_text_passes_through() {
    assert_eq!(html_to_text("hello"), "hello\n");
    assert_eq!(html_to_text(""), "");
}

#[test]
fn inline_tags_are_dropped() {
    assert_eq!(html_to_text("a<b>bold</b>c<span class=\"x\">d</span>"), "aboldcd\n");
}

#[test]
fn block_tags_end_a_line() {
    assert_eq!(scan("a<br>b"), "a\nb");
    assert_eq!(scan("a<br/>b"), "a\nb");
    assert_eq!(scan("a<BR>b"), "a\nb");
    assert_eq!(scan("a<div>b</div>c"), "a\nb\nc");
    assert_eq!(scan("<tr>x</tr>"), "\nx\n");
    assert_eq!(scan("<li>x</li>"), "\nx\n");
    assert_eq!(scan("<h1>x</h1><h6>y</h6>"), "\nx\n\ny\n");
    assert_eq!(scan("<h7>x</h7>"), "x");
    assert_eq!(scan("a< p class='k' >b"), "a\nb");
    assert_eq!(scan("a<pre>b"), "ab");
    assert_eq!(scan("a</br>b"), "ab");
}

#[test]
fn style_and_script_are_left_out() {
    assert_eq!(html_to_text("a<style>p { color: red }</style>b"), "ab\n");
    assert_eq!(html_to_text("a<script>var x = '<p>';</script>b"), "ab\n");
    assert_eq!(html_to_text("a<STYLE type=\"text/css\">x</STYLE>b"), "ab\n");
    assert_eq!(html_to_text("a<style>x<p>y</p>z</style>b"), "ab\n");
}

#[test]
fn named_references_are_decoded() {
    assert_eq!(scan("&amp;&lt;&gt;&quot;&apos;&nbsp;"), "&<>\"' ");
}

#[test]
fn unknown_references_stay_as_written() {
    assert_eq!(scan("x&copy;y"), "x&copy;y");
    assert_eq!(scan("x&;y"), "x&;y");
    assert_eq!(scan("x&AMP;y"), "x&AMP;y");
}

#[test]
fn numeric_references_are_decoded() {
    assert_eq!(scan("&#65;&#x42;&#X43;&#x6a;"), "ABCj");
    assert_eq!(scan("&#+65;"), "A");
    assert_eq!(scan("&#x+41;"), "A");
    assert_eq!(scan("&#0065;"), "A");
    assert_eq!(scan("&#8364;"), "\u{20AC}");
    assert_eq!(scan("&#x10FFFF;"), "\u{10FFFF}");
}

#[test]
fn numeric_references_without_a_character_stay_as_written() {
    assert_eq!(scan("a&#;b"), "a&#;b");
    assert_eq!(scan("a&#x;b"), "a&#x;b");
    assert_eq!(scan("a&#+;b"), "a&#+;b");
    assert_eq!(scan("a&#-65;b"), "a&#-65;b");
    assert_eq!(scan("a&#6 5;b"), "a&#6 5;b");
    assert_eq!(scan("a&#xD800;b"), "a&#xD800;b");
    assert_eq!(scan("a&#x110000;b"), "a&#x110000;b");
    assert_eq!(scan("a&#4294967296;b"), "a&#4294967296;b");
    assert_eq!(scan("a&#99999999999999999999999;b"), "a&#99999999999999999999999;b");
    assert_eq!(scan("a&#xg;b"), "a&#xg;b");
    assert_eq!(scan("a&#"), "a&#;");
}

#[test]
fn reference_at_the_end_is_decoded() {
    assert_eq!(scan("a&amp"), "a&");
    assert_eq!(scan("a&foo"), "a&foo;");
    assert_eq!(scan("a&"), "a&;");
}

#[test]
fn reference_swallows_tags_up_to_the_semicolon() {
    assert_eq!(scan("a&b<p>c;d"), "a&b<p>c;d");
}

#[test]
fn unfinished_tag_is_dropped() {
    assert_eq!(scan("a<p"), "a");
    assert_eq!(html_to_text("a<"), "a\n");
}

#[test]
fn white_space_of_the_source_becomes_one_space() {
    assert_eq!(scan("a\nb"), "a b");
    assert_eq!(scan("a\r\nb"), "a b");
    assert_eq!(scan("a\t\t\tb"), "a b");
    assert_eq!(scan("\na"), "a");
    assert_eq!(scan("a \nb"), "a b");
    assert_eq!(scan("a\n b"), "a b");
    assert_eq!(scan("a<br>\nb"), "a\nb");
    assert_eq!(scan("a<br> b"), "a\nb");
    assert_eq!(scan("a  b"), "a b");
    assert_eq!(scan("a b"), "a b");
    assert_eq!(scan("  a"), "a");
    assert_eq!(scan("a \t\r\n "), "a ");
    assert_eq!(scan("<b>x</b> <i>y</i>"), "x y");
    assert_eq!(scan("a\u{C}b\u{A0}\u{A0}c"), "a\u{C}b\u{A0}\u{A0}c");
    assert_eq!(scan("a&nbsp;&nbsp;&#32;b"), "a   b");
}

#[test]
fn blank_lines_collapse_to_one() {
    assert_eq!(tidy("a\n\n\n\nb"), "a\n\nb\n");
    assert_eq!(tidy("\n\n\na"), "\na\n");
    assert_eq!(tidy("a\n \n\t\nb\n"), "a\n\nb\n");
    assert_eq!(tidy("a\n\nb\n\nc"), "a\n\nb\n\nc\n");
}

#[test]
fn lines_lose_their_trailing_white_space() {
    assert_eq!(tidy("  a  \n\tb c\t"), "  a\n\tb c\n");
    assert_eq!(tidy("a\r\nb\r"), "a\nb\n");
    assert_eq!(tidy("\u{A0}a\u{3000}"), "\u{A0}a\n");
    assert_eq!(tidy(""), "");
    assert_eq!(tidy("\n"), "\n");
    assert_eq!(tidy("   "), "\n");
    assert_eq!(html_to_text("<p>&nbsp;&nbsp;indented &nbsp;</p>"), "\n  indented\n");
}

#[test]
fn conversion_matches_line_handling_of_the_standard_library() {
    let samples = [
        "<html><body><h1>Title</h1>\r\n<p>First &amp; second</p>\r\n\r\n<p>  padded  </p><br><br><br>end</body></html>",
        "one<br>two&#13;&#10;three&#10;&#10;&#10;four",
        "<div><div><div>deep</div></div></div>",
        "&#x85;edge&#x2028;",
    ];
    for html in samples {
        let scanned = scan(html);
        let mut expected = String::new();
        let mut blank = 0;
        for line in scanned.lines() {
            let t = line.trim_end();
            if t.is_empty() {
                blank += 1;
                if blank <= 1 {
                    expected.push('\n');
                }
            } else {
                blank = 0;
                expected.push_str(t);
                expected.push('\n');
            }
        }
        assert_eq!(html_to_text(html), expected);
    }
}

#[test]
fn digits_are_read_as_numbers() {
    assert_eq!(parse_digits(&str_chars("123"), 0, false), Some(123));
    assert_eq!(parse_digits(&str_chars("#x1f"), 2, true), Some(31));
    assert_eq!(parse_digits(&str_chars("4294967295"), 0, false), Some(4294967295));
    assert_eq!(parse_digits(&str_chars("4294967296"), 0, false), None);
    assert_eq!(parse_digits(&str_chars("ffffffff"), 0, true), Some(4294967295));
    assert_eq!(parse_digits(&str_chars("100000000"), 0, true), None);
    assert_eq!(parse_digits(&str_chars("1f"), 0, false), None);
    assert_eq!(parse_digits(&str_chars(""), 0, false), None);
    assert_eq!(parse_digits(&str_chars("+"), 0, false), None);
    assert_eq!(parse_digits(&str_chars("++1"), 0, false), None);
    assert_eq!(parse_digits(&str_chars("abc"), 3, false), None);
}
