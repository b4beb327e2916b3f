use move_function_analyzer::ast::Loc;
use move_function_analyzer::records::AnalyzerError;
use move_function_analyzer::source::{
    compute_line_starts, extract_source, line_at_offset, line_attaches, width_of,
};
use move_function_analyzer::text::{chars_of, string_of};

const TEXT: &str = "module m {\n\n    /// Adds one.\n    /// Twice.\n    fun inc(x: u64): u64 {\n        x + 1\n    }\n\n    fun dec(x: u64): u64 { x - 1 }\n}\n";

fn span_of(text: &str, from: &str, to: &str) -> Loc {
    let start = text.find(from).unwrap();
    let end = text[start..].find(to).unwrap() + start + to.len();
    Loc { start: start as u32, end: end as u32 }
}

#[test]
fn characters_round_trip() {
    let s = "a\u{e9}\u{4e2d}\u{1f600}\n";
    let chars = chars_of(s);
    assert_eq!(chars, vec!['a', '\u{e9}', '\u{4e2d}', '\u{1f600}', '\n']);
    assert_eq!(string_of(&chars), s);
    assert_eq!(string_of(&vec![]), "");
}

#[test]
fn character_widths() {
    assert_eq!(width_of('a'), 1);
    assert_eq!(width_of('\u{7f}'), 1);
    assert_eq!(width_of('\u{80}'), 2);
    assert_eq!(width_of('\u{7ff}'), 2);
    assert_eq!(width_of('\u{800}'), 3);
    assert_eq!(width_of('\u{ffff}'), 3);
    assert_eq!(width_of('\u{10000}'), 4);
    for c in ['a', '\u{e9}', '\u{4e2d}', '\u{1f600}'] {
        assert_eq!(width_of(c) as usize, c.len_utf8());
    }
}

#[test]
fn lines_of_offsets() {
    let chars = chars_of("ab\ncd\n\nef");
    assert_eq!(line_at_offset(&chars, 0), Some(1));
    assert_eq!(line_at_offset(&chars, 2), Some(1));
    assert_eq!(line_at_offset(&chars, 3), Some(2));
    assert_eq!(line_at_offset(&chars, 5), Some(2));
    assert_eq!(line_at_offset(&chars, 6), Some(3));
    assert_eq!(line_at_offset(&chars, 7), Some(4));
    assert_eq!(line_at_offset(&chars, 9), Some(4));
    assert_eq!(line_at_offset(&chars, 10), None);
    assert_eq!(line_at_offset(&chars_of(""), 0), Some(1));
    assert_eq!(line_at_offset(&chars_of(""), 1), None);
}

#[test]
fn offsets_count_bytes_not_characters() {
    let chars = chars_of("\u{4e2d}\u{4e2d}\nx");
    assert_eq!(line_at_offset(&chars, 6), Some(1));
    assert_eq!(line_at_offset(&chars, 7), Some(2));
    assert_eq!(line_at_offset(&chars, 8), Some(2));
    assert_eq!(line_at_offset(&chars, 9), None);
}

#[test]
fn line_starts_follow_line_breaks() {
    assert_eq!(compute_line_starts(&chars_of("")), vec![0]);
    assert_eq!(compute_line_starts(&chars_of("abc")), vec![0]);
    assert_eq!(compute_line_starts(&chars_of("ab\ncd\n\nef")), vec![0, 3, 6, 7]);
    assert_eq!(compute_line_starts(&chars_of("a\n")), vec![0, 2]);
}

#[test]
fn lines_that_attach() {
    let check = |s: &str| {
        let c = chars_of(s);
        line_attaches(&c, 0, c.len())
    };
    assert!(check(""));
    assert!(check("   \t\r"));
    assert!(check("/// doc"));
    assert!(check("    /// doc"));
    assert!(check("/** doc"));
    assert!(check("  * middle"));
    assert!(check("*/"));
    assert!(!check("// plain comment"));
    assert!(!check("fun f() {}"));
    assert!(!check("/"));
    assert!(!check("//"));
    assert!(!check("/*"));
    assert!(!check("x ///"));
}

#[test]
fn source_includes_the_documentation_above() {
    let loc = span_of(TEXT, "fun inc", "}");
    let x = extract_source(TEXT, loc).unwrap();
    assert_eq!(x.start_line, 2);
    assert_eq!(x.end_line, 7);
    assert_eq!(
        x.source,
        "\n    /// Adds one.\n    /// Twice.\n    fun inc(x: u64): u64 {\n        x + 1\n    }"
    );
}

#[test]
fn source_of_a_function_on_one_line() {
    let loc = span_of(TEXT, "fun dec", "}");
    let x = extract_source(TEXT, loc).unwrap();
    assert_eq!(x.start_line, 8);
    assert_eq!(x.end_line, 9);
    assert_eq!(x.source, "\n    fun dec(x: u64): u64 { x - 1 }");
}

#[test]
fn source_without_anything_above() {
    let text = "fun a() {}\nfun b() {}";
    let x = extract_source(text, Loc { start: 11, end: 21 }).unwrap();
    assert_eq!((x.start_line, x.end_line), (2, 2));
    assert_eq!(x.source, "fun b() {}");
    let y = extract_source(text, Loc { start: 0, end: 10 }).unwrap();
    assert_eq!((y.start_line, y.end_line), (1, 1));
    assert_eq!(y.source, "fun a() {}");
    let whole = extract_source(text, Loc { start: 0, end: 21 }).unwrap();
    assert_eq!((whole.start_line, whole.end_line), (1, 2));
    assert_eq!(whole.source, text);
}

#[test]
fn documentation_reaches_up_to_the_first_line() {
    let text = "/// top\n\n/// more\nfun a() {}";
    let x = extract_source(text, Loc { start: 18, end: 28 }).unwrap();
    assert_eq!((x.start_line, x.end_line), (1, 4));
    assert_eq!(x.source, text);
}

#[test]
fn offset_behind_the_end_is_an_error() {
    let text = "fun a() {}";
    match extract_source(text, Loc { start: 0, end: 11 }) {
        Err(AnalyzerError::AnalysisError(m)) => assert_eq!(m, "Byte offset exceeds file length"),
        other => panic!("unexpected: {:?}", other),
    }
    match extract_source(text, Loc { start: 11, end: 12 }) {
        Err(AnalyzerError::AnalysisError(m)) => assert_eq!(m, "Byte offset exceeds file length"),
        other => panic!("unexpected: {:?}", other),
    }
    assert!(extract_source(text, Loc { start: 10, end: 10 }).is_ok());
    assert!(extract_source("", Loc { start: 0, end: 0 }).is_ok());
}

#[test]
fn span_that_ends_before_it_starts_is_an_error() {
    match extract_source("fun a() {}", Loc { start: 5, end: 4 }) {
        Err(AnalyzerError::AnalysisError(m)) => assert_eq!(m, "Span ends before it starts"),
        other => panic!("unexpected: {:?}", other),
    }
}
