use coverage::error::CoverageError;
use coverage::text::{decimal_string, push_decimal, source_lines};

#[test]
fn numbers_in_decimal() {
    assert_eq!(decimal_string(0), "0");
    assert_eq!(decimal_string(7), "7");
    assert_eq!(decimal_string(10), "10");
    assert_eq!(decimal_string(1234567890), "1234567890");
    assert_eq!(decimal_string(u64::MAX as u128), "18446744073709551615");
    assert_eq!(decimal_string(u128::MAX), u128::MAX.to_string());
    let mut text = "n=".to_string();
    push_decimal(&mut text, 405);
    push_decimal(&mut text, 0);
    assert_eq!(text, "n=4050");
    for n in 0..1200u128 {
        assert_eq!(decimal_string(n), n.to_string());
    }
}

fn lines(text: &str) -> Vec<String> {
    source_lines(text)
}

#[test]
fn a_text_cut_into_lines() {
    assert_eq!(lines(""), Vec::<String>::new());
    assert_eq!(lines("one"), vec!["one"]);
    assert_eq!(lines("one\n"), vec!["one"]);
    assert_eq!(lines("one\ntwo"), vec!["one", "two"]);
    assert_eq!(lines("one\r\ntwo\r\n"), vec!["one", "two"]);
    assert_eq!(lines("\n"), vec![""]);
    assert_eq!(lines("\n\n"), vec!["", ""]);
    assert_eq!(lines("\r\n"), vec![""]);
    assert_eq!(lines("a\n\nb"), vec!["a", "", "b"]);
    // a carriage return without a line feed behind it stays
    assert_eq!(lines("foo\nbar\n\r\nbaz\r"), vec!["foo", "bar", "", "baz\r"]);
    assert_eq!(lines("a\rb\nc"), vec!["a\rb", "c"]);
    assert_eq!(lines("a\r\r\nb"), vec!["a\r", "b"]);
    assert_eq!(lines("\r"), vec!["\r"]);
    assert_eq!(lines("ü✓\nß"), vec!["ü✓", "ß"]);
}

#[test]
fn lines_are_those_of_the_standard_library() {
    let pieces = ["", "a", "\n", "\r", "\r\n", "bc", "\n\n", " \r"];
    for first in pieces {
        for second in pieces {
            for third in pieces {
                for fourth in pieces {
                    let text = [first, second, third, fourth].concat();
                    let expected: Vec<String> = text.lines().map(str::to_string).collect();
                    assert_eq!(lines(&text), expected);
                }
            }
        }
    }
}

#[test]
fn error_messages() {
    assert_eq!(
        CoverageError::ParseError("expected value".to_string()).message(),
        "failed to parse coverage map: expected value"
    );
    assert_eq!(CoverageError::InvalidProbeId(42).message(), "invalid probe ID: 42");
    assert_eq!(CoverageError::InvalidProbeId(0).message(), "invalid probe ID: 0");
    assert_eq!(
        CoverageError::SourceFileError {
            path: "a.rsx".to_string(),
            source: "not found".to_string(),
        }
        .message(),
        "failed to read source file 'a.rsx': not found"
    );
    assert_eq!(
        CoverageError::WriteError { path: "out/x".to_string(), source: "denied".to_string() }
            .message(),
        "failed to write report to 'out/x': denied"
    );
    assert_eq!(
        CoverageError::NoMapForFile("b.rsx".to_string()).message(),
        "no coverage map found for file: b.rsx"
    );
    assert_eq!(CoverageError::JsonError("eof".to_string()).message(), "JSON error: eof");
    assert_eq!(CoverageError::IoError("broken pipe".to_string()).message(), "I/O error: broken pipe");
}
