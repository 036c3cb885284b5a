use log2csv::document::{convert, split_lines};
use std::io::BufRead;

const HEADER_ROW: &str = "IP Address,Username,Session ID,Timestamp,Timezone,HTTP Method,Request URL,HTTP Version,HTTP Status Code,Bytes Transferred\n";

fn rows_in(bytes: &[u8]) -> usize {
    let mut reader = csv::ReaderBuilder::new().has_headers(false).flexible(true).from_reader(bytes);
    reader.records().map(|r| r.unwrap()).count()
}

#[test]
fn empty_text_has_no_line() {
    assert_eq!(split_lines(""), Vec::<String>::new());
}

#[test]
fn lines_keep_their_line_feed() {
    assert_eq!(split_lines("a\n"), vec!["a\n"]);
    assert_eq!(split_lines("a\nb\n"), vec!["a\n", "b\n"]);
    assert_eq!(split_lines("\n"), vec!["\n"]);
    assert_eq!(split_lines("a\n\n\nb\n"), vec!["a\n", "\n", "\n", "b\n"]);
    assert_eq!(split_lines("a\r\nb\r\n"), vec!["a\r\n", "b\r\n"]);
}

#[test]
fn text_after_the_last_line_feed_is_a_line() {
    assert_eq!(split_lines("a"), vec!["a"]);
    assert_eq!(split_lines("a\nb"), vec!["a\n", "b"]);
    assert_eq!(split_lines("\n "), vec!["\n", " "]);
    assert_eq!(split_lines("h\u{e9}\n\u{65e5}"), vec!["h\u{e9}\n", "\u{65e5}"]);
}

#[test]
fn lines_written_together_are_the_text() {
    for text in ["", "a", "a\n", "\n\n", "a\nbc\n\nd", "x y\r\nz"] {
        assert_eq!(split_lines(text).concat(), text);
    }
}

#[test]
fn split_lines_agrees_with_reading_line_by_line() {
    for text in ["", "a", "a\n", "\n\n", "a\nbc\n\nd", "x y\r\nz", "\u{e9}\n\u{e9}"] {
        let mut reader = std::io::Cursor::new(text.as_bytes());
        let mut read = Vec::new();
        loop {
            let mut line = String::new();
            if reader.read_line(&mut line).unwrap() == 0 {
                break;
            }
            read.push(line);
        }
        assert_eq!(split_lines(text), read);
    }
}

#[test]
fn access_log_line_without_headers() {
    let text = "123.45.67.89 - - [10/Oct/2023:13:55:36 -0700] \"GET /index.html HTTP/1.1\" 200 1024\n";
    assert_eq!(
        convert(text, false),
        b"123.45.67.89,-,-,10/Oct/2023:13:55:36,-0700,GET,/index.html,HTTP/1.1,200,1024\n".to_vec()
    );
}

#[test]
fn empty_input_without_headers_gives_no_row() {
    assert_eq!(convert("", false), Vec::<u8>::new());
}

#[test]
fn empty_input_with_headers_gives_the_header_row_only() {
    assert_eq!(convert("", true), HEADER_ROW.as_bytes().to_vec());
    assert_eq!(rows_in(&convert("", true)), 1);
}

#[test]
fn whitespace_only_line_gives_a_row_with_one_empty_field() {
    assert_eq!(convert("   \n", false), b"\"\"\n".to_vec());
    assert_eq!(convert("a\n \t \nb\n", false), b"a\n\"\"\nb\n".to_vec());
}

#[test]
fn one_row_per_line() {
    let texts = ["", "a\n", "a b\nc\n", "a\n\n\nb c d\n", "a\nb", "a b c\nd e\nf\n\ng h i j", "\n", " "];
    for text in texts {
        let lines = split_lines(text).len();
        assert_eq!(rows_in(&convert(text, false)), lines, "text {:?}", text);
        assert_eq!(rows_in(&convert(text, true)), lines + 1, "text {:?}", text);
    }
}

#[test]
fn trailing_partial_line_gives_a_final_row() {
    assert_eq!(convert("a b\nc d", false), b"a,b\nc,d\n".to_vec());
    assert_eq!(convert("a b\nc d\n", false), b"a,b\nc,d\n".to_vec());
    assert_eq!(convert("c d", false), b"c,d\n".to_vec());
}

#[test]
fn rows_come_in_the_order_of_the_lines() {
    assert_eq!(convert("3\n1\n2\n", false), b"3\n1\n2\n".to_vec());
}

#[test]
fn rows_may_differ_in_width() {
    assert_eq!(convert("a\nb c\nd e f\ng\n", true), format!("{}a\nb,c\nd,e,f\ng\n", HEADER_ROW).into_bytes());
}

#[test]
fn header_row_comes_first_whatever_the_input() {
    let texts = ["", "a\n", "IP Address\n", "x,y \"z\"\n\n", "no newline", "\u{e9} [\u{65e5}]\n"];
    for text in texts {
        let with = convert(text, true);
        let without = convert(text, false);
        assert!(with.starts_with(HEADER_ROW.as_bytes()));
        assert_eq!(&with[HEADER_ROW.len()..], &without[..]);
    }
}

#[test]
fn converting_twice_gives_the_same_bytes() {
    let text = "1.2.3.4 - - [a b] \"GET /x HTTP/1.1\" 200 7\n\n  odd,line \"q\"\nend";
    assert_eq!(convert(text, true), convert(text, true));
    assert_eq!(convert(text, false), convert(text, false));
}
