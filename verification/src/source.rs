//! From a byte span in a file to line numbers and the text of those lines,
//! together with the documentation that stands directly above them.

use vstd::prelude::*;
use vstd::string::*;
use crate::ast::Loc;
use crate::records::AnalyzerError;
use crate::text::{chars_of, has_prefix, push_char};

verus! {

/// The number of bytes that a character takes in UTF-8.
pub open spec fn char_width(c: char) -> nat {
    if (c as u32) < 0x80 {
        1
    } else if (c as u32) < 0x800 {
        2
    } else if (c as u32) < 0x10000 {
        3
    } else {
        4
    }
}

/// The number of bytes that the first `k` characters take.
pub open spec fn byte_offset(s: Seq<char>, k: nat) -> nat
    decreases k,
{
    if k == 0 || k > s.len() {
        0
    } else {
        byte_offset(s, (k - 1) as nat) + char_width(s[k - 1])
    }
}

/// The length of the text in bytes.
pub open spec fn byte_len(s: Seq<char>) -> nat {
    byte_offset(s, s.len())
}

/// Among the first `n` characters, the line breaks that begin before the
/// byte `offset`.
pub open spec fn newlines_before(s: Seq<char>, offset: nat, n: nat) -> nat
    decreases n,
{
    if n == 0 || n > s.len() {
        0
    } else {
        newlines_before(s, offset, (n - 1) as nat) + if s[n - 1] == '\n' && byte_offset(
            s,
            (n - 1) as nat,
        ) < offset {
            1nat
        } else {
            0nat
        }
    }
}

/// The line, counted from one, on which the byte `offset` lies.
pub open spec fn line_of_offset(s: Seq<char>, offset: nat) -> nat {
    1 + newlines_before(s, offset, s.len())
}

/// Where the lines begin that start within the first `n` characters or
/// directly behind them: index zero, and the index behind each line break.
pub open spec fn line_starts(s: Seq<char>, n: nat) -> Seq<nat>
    decreases n,
{
    if n == 0 || n > s.len() {
        seq![0nat]
    } else if s[n - 1] == '\n' {
        line_starts(s, (n - 1) as nat).push(n)
    } else {
        line_starts(s, (n - 1) as nat)
    }
}

/// The number of lines of the text.
pub open spec fn line_count(s: Seq<char>) -> nat {
    line_starts(s, s.len()).len()
}

/// The index at which a line begins.
pub open spec fn line_begin(s: Seq<char>, line: nat) -> nat {
    line_starts(s, s.len())[line - 1]
}

/// The index behind the last character of a line, its line break not
/// counted.
pub open spec fn line_end(s: Seq<char>, line: nat) -> nat {
    if line < line_count(s) {
        (line_starts(s, s.len())[line as int] - 1) as nat
    } else {
        s.len()
    }
}

/// The text of a line without its line break.
pub open spec fn line_text(s: Seq<char>, line: nat) -> Seq<char> {
    s.subrange(line_begin(s, line) as int, line_end(s, line) as int)
}

/// Spaces, tabs and carriage returns.
pub open spec fn is_blank_char(c: char) -> bool {
    c == ' ' || c == '\t' || c == '\r'
}

/// The text without the blank characters at its start.
pub open spec fn trim_start(t: Seq<char>) -> Seq<char>
    decreases t.len(),
{
    if t.len() > 0 && is_blank_char(t[0]) {
        trim_start(t.drop_first())
    } else {
        t
    }
}

/// Whether a line above a definition belongs to it: a blank line, or one
/// that begins with a documentation marker.
pub open spec fn attaches(line: Seq<char>) -> bool {
    let t = trim_start(line);
    t.len() == 0 || has_prefix(t, seq!['/', '/', '/']) || has_prefix(t, seq!['/', '*', '*'])
        || has_prefix(t, seq!['*'])
}

/// The first line of a definition that begins on `line`, the lines that
/// attach to it from above included.
pub open spec fn doc_start(s: Seq<char>, line: nat) -> nat
    decreases line,
{
    if line <= 1 {
        line
    } else if attaches(line_text(s, (line - 1) as nat)) {
        doc_start(s, (line - 1) as nat)
    } else {
        line
    }
}

/// Whether a span can be placed in the text.
pub open spec fn span_fits(s: Seq<char>, loc: Loc) -> bool {
    &&& loc.start <= loc.end
    &&& loc.end <= byte_len(s)
    &&& line_of_offset(s, loc.end as nat) <= u32::MAX
}

/// What is said of a span that cannot be placed.
pub open spec fn span_error_text(loc: Loc) -> Seq<char> {
    if loc.end < loc.start {
        "Span ends before it starts"@
    } else {
        "Byte offset exceeds file length"@
    }
}

/// The first line of the text that is handed out for a span.
pub open spec fn span_first_line(s: Seq<char>, loc: Loc) -> nat {
    doc_start(s, line_of_offset(s, loc.start as nat))
}

/// The last line of the text that is handed out for a span.
pub open spec fn span_last_line(s: Seq<char>, loc: Loc) -> nat {
    line_of_offset(s, loc.end as nat)
}

/// The text that is handed out for a span: its lines in full, from the
/// first attached line above it to its last line.
pub open spec fn span_text(s: Seq<char>, loc: Loc) -> Seq<char> {
    s.subrange(
        line_begin(s, span_first_line(s, loc)) as int,
        line_end(s, span_last_line(s, loc)) as int,
    )
}

/// More characters take no fewer bytes.
pub proof fn lemma_byte_offset_monotone(s: Seq<char>, i: nat, j: nat)
    requires
        i <= j <= s.len(),
    ensures
        byte_offset(s, i) + (j - i) <= byte_offset(s, j),
    decreases j,
{
    if i < j {
        lemma_byte_offset_monotone(s, i, (j - 1) as nat);
    }
}

/// Line breaks behind the offset are not counted.
pub proof fn lemma_newlines_stop(s: Seq<char>, offset: nat, i: nat, n: nat)
    requires
        i <= n <= s.len(),
        byte_offset(s, i) >= offset,
    ensures
        newlines_before(s, offset, n) == newlines_before(s, offset, i),
    decreases n,
{
    if i < n {
        lemma_newlines_stop(s, offset, i, (n - 1) as nat);
        lemma_byte_offset_monotone(s, i, (n - 1) as nat);
    }
}

/// A later offset lies on no earlier line.
pub proof fn lemma_newlines_monotone(s: Seq<char>, a: nat, b: nat, n: nat)
    requires
        a <= b,
    ensures
        newlines_before(s, a, n) <= newlines_before(s, b, n),
    decreases n,
{
    if n > 0 && n <= s.len() {
        lemma_newlines_monotone(s, a, b, (n - 1) as nat);
    }
}

/// Every offset lies on a line of the text.
pub proof fn lemma_newlines_within_lines(s: Seq<char>, offset: nat, n: nat)
    requires
        n <= s.len(),
    ensures
        1 + newlines_before(s, offset, n) <= line_starts(s, n).len(),
    decreases n,
{
    if n > 0 {
        lemma_newlines_within_lines(s, offset, (n - 1) as nat);
    }
}

/// Lines begin in order, inside the text or at its end, and each but the
/// first directly behind a line break.
pub proof fn lemma_line_starts(s: Seq<char>, n: nat)
    requires
        n <= s.len(),
    ensures
        line_starts(s, n).len() >= 1,
        line_starts(s, n)[0] == 0,
        forall|j: int| 0 <= j < line_starts(s, n).len() ==> #[trigger] line_starts(s, n)[j] <= n,
        forall|j: int|
            1 <= j < line_starts(s, n).len() ==> #[trigger] line_starts(s, n)[j] >= 1 && line_starts(
                s,
                n,
            )[j - 1] < line_starts(s, n)[j],
    decreases n,
{
    if n > 0 {
        lemma_line_starts(s, (n - 1) as nat);
    }
}

/// Earlier lines begin no later.
pub proof fn lemma_line_starts_ordered(s: Seq<char>, i: int, j: int)
    requires
        0 <= i <= j < line_count(s),
    ensures
        line_starts(s, s.len())[i] <= line_starts(s, s.len())[j],
    decreases j - i,
{
    lemma_line_starts(s, s.len());
    if i < j {
        lemma_line_starts_ordered(s, i, j - 1);
    }
}

/// The lines of a definition as they stand in its file.
#[derive(Debug, Clone, PartialEq, Eq)]
pub struct SourceExtract {
    pub source: String,
    pub start_line: u32,
    pub end_line: u32,
}

/// The number of bytes that a character takes in UTF-8.
pub fn width_of(c: char) -> (n: u64)
    ensures
        n == char_width(c),
{
    let v: u32 = c as u32;
    if v < 0x80 {
        1
    } else if v < 0x800 {
        2
    } else if v < 0x10000 {
        3
    } else {
        4
    }
}

/// The line, counted from one, on which a byte offset lies; `None` where
/// the offset lies behind the end of the text or the line number does not
/// fit.
pub fn line_at_offset(chars: &Vec<char>, offset: u32) -> (r: Option<u32>)
    ensures
        match r {
            Some(line) => offset <= byte_len(chars@) && line == line_of_offset(chars@, offset as nat),
            None => offset > byte_len(chars@) || line_of_offset(chars@, offset as nat) > u32::MAX,
        },
{
    let mut i: usize = 0;
    let mut pos: u64 = 0;
    let mut line: u64 = 1;
    while i < chars.len() && pos < offset as u64
        invariant
            i <= chars.len(),
            pos == byte_offset(chars@, i as nat),
            line == 1 + newlines_before(chars@, offset as nat, i as nat),
            line <= i + 1,
            i <= pos,
            pos <= offset + 3,
        decreases chars.len() - i,
    {
        if chars[i] == '\n' {
            line += 1;
        }
        pos += width_of(chars[i]);
        i += 1;
    }
    if pos < offset as u64 {
        return None;
    }
    proof {
        lemma_newlines_stop(chars@, offset as nat, i as nat, chars@.len());
        lemma_byte_offset_monotone(chars@, i as nat, chars@.len());
    }
    if line > u32::MAX as u64 {
        return None;
    }
    Some(line as u32)
}

/// Where the lines of the text begin.
pub fn compute_line_starts(chars: &Vec<char>) -> (v: Vec<usize>)
    ensures
        v@.len() == line_count(chars@),
        forall|j: int| 0 <= j < v@.len() ==> #[trigger] v@[j] == line_starts(chars@, chars@.len())[j],
{
    let mut v: Vec<usize> = Vec::new();
    v.push(0);
    let mut i: usize = 0;
    while i < chars.len()
        invariant
            i <= chars.len(),
            v@.len() == line_starts(chars@, i as nat).len(),
            forall|j: int| 0 <= j < v@.len() ==> #[trigger] v@[j] == line_starts(chars@, i as nat)[j],
        decreases chars.len() - i,
    {
        if chars[i] == '\n' {
            v.push(i + 1);
        }
        i += 1;
    }
    v
}

/// Whether the characters from `begin` up to `end` make a line that
/// attaches to a definition below it.
pub fn line_attaches(chars: &Vec<char>, begin: usize, end: usize) -> (r: bool)
    requires
        begin <= end <= chars.len(),
    ensures
        r == attaches(chars@.subrange(begin as int, end as int)),
{
    let mut j: usize = begin;
    while j < end && (chars[j] == ' ' || chars[j] == '\t' || chars[j] == '\r')
        invariant
            begin <= j <= end <= chars.len(),
            trim_start(chars@.subrange(begin as int, end as int)) == trim_start(
                chars@.subrange(j as int, end as int),
            ),
        decreases end - j,
    {
        assert(chars@.subrange(j as int, end as int).drop_first() == chars@.subrange(
            j + 1,
            end as int,
        ));
        j += 1;
    }
    let ghost t = chars@.subrange(j as int, end as int);
    assert(trim_start(t) == t);
    if j == end {
        return true;
    }
    assert(t[0] == chars@[j as int]);
    if chars[j] == '*' {
        assert(t.subrange(0, 1) == seq!['*']);
        return true;
    }
    assert(!has_prefix(t, seq!['*'])) by {
        if has_prefix(t, seq!['*']) {
            assert(t.subrange(0, 1)[0] == '*');
        }
    }
    if end - j >= 3 && chars[j] == '/' {
        assert(t[1] == chars@[j + 1]);
        assert(t[2] == chars@[j + 2]);
        if chars[j + 1] == '/' && chars[j + 2] == '/' {
            assert(t.subrange(0, 3) == seq!['/', '/', '/']);
            return true;
        }
        if chars[j + 1] == '*' && chars[j + 2] == '*' {
            assert(t.subrange(0, 3) == seq!['/', '*', '*']);
            return true;
        }
    }
    assert(!has_prefix(t, seq!['/', '/', '/'])) by {
        if has_prefix(t, seq!['/', '/', '/']) {
            let p = t.subrange(0, 3);
            assert(p[0] == '/' && p[1] == '/' && p[2] == '/');
        }
    }
    assert(!has_prefix(t, seq!['/', '*', '*'])) by {
        if has_prefix(t, seq!['/', '*', '*']) {
            let p = t.subrange(0, 3);
            assert(p[0] == '/' && p[1] == '*' && p[2] == '*');
        }
    }
    false
}

/// Whether `starts` holds where the lines of the text begin.
pub open spec fn starts_of(s: Seq<char>, starts: Seq<usize>) -> bool {
    &&& starts.len() == line_count(s)
    &&& forall|j: int| 0 <= j < starts.len() ==> #[trigger] starts[j] == line_starts(s, s.len())[j]
}

/// The first line of a definition that begins on `line`, the lines that
/// attach to it from above included.
pub fn first_attached_line(chars: &Vec<char>, starts: &Vec<usize>, line: u32) -> (first: u32)
    requires
        starts_of(chars@, starts@),
        1 <= line <= starts@.len(),
    ensures
        first == doc_start(chars@, line as nat),
        1 <= first <= line,
{
    proof {
        lemma_line_starts(chars@, chars@.len());
    }
    let mut first: u32 = line;
    while first > 1 && line_attaches(
        chars,
        starts[first as usize - 2],
        starts[first as usize - 1] - 1,
    )
        invariant
            1 <= first <= line <= starts@.len(),
            starts_of(chars@, starts@),
            forall|j: int|
                0 <= j < starts@.len() ==> #[trigger] line_starts(chars@, chars@.len())[j]
                    <= chars@.len(),
            forall|j: int|
                1 <= j < starts@.len() ==> #[trigger] line_starts(chars@, chars@.len())[j] >= 1
                    && line_starts(chars@, chars@.len())[j - 1] < line_starts(chars@, chars@.len())[j],
            doc_start(chars@, line as nat) == doc_start(chars@, first as nat),
        decreases first,
    {
        first -= 1;
    }
    first
}

/// The text of the lines from `first` to `last`, the line break behind
/// the last one left out.
pub fn lines_text(chars: &Vec<char>, starts: &Vec<usize>, first: u32, last: u32) -> (source: String)
    requires
        starts_of(chars@, starts@),
        1 <= first <= last <= starts@.len(),
    ensures
        source@ == chars@.subrange(
            line_begin(chars@, first as nat) as int,
            line_end(chars@, last as nat) as int,
        ),
{
    proof {
        lemma_line_starts(chars@, chars@.len());
    }
    let begin: usize = starts[first as usize - 1];
    let end: usize = if (last as usize) < starts.len() {
        starts[last as usize] - 1
    } else {
        chars.len()
    };
    assert(begin == line_begin(chars@, first as nat));
    assert(end == line_end(chars@, last as nat));
    assert(begin <= end) by {
        lemma_line_starts_ordered(chars@, first as int - 1, last as int - 1);
    }
    let mut source = String::new();
    let mut k: usize = begin;
    while k < end
        invariant
            begin <= k <= end <= chars.len(),
            source@ == chars@.subrange(begin as int, k as int),
        decreases end - k,
    {
        push_char(&mut source, chars[k]);
        k += 1;
        assert(chars@.subrange(begin as int, k as int) == chars@.subrange(begin as int, k - 1).push(
            chars@[k - 1],
        ));
    }
    source
}

/// The lines of a definition: from the first line that attaches to it from
/// above to the line on which it ends. Fails exactly where the span cannot
/// be placed in the text.
pub fn extract_source(content: &str, loc: Loc) -> (r: Result<SourceExtract, AnalyzerError>)
    ensures
        match r {
            Ok(x) => span_fits(content@, loc) && x.source@ == span_text(content@, loc)
                && x.start_line == span_first_line(content@, loc) && x.end_line == span_last_line(
                content@,
                loc,
            ),
            Err(e) => !span_fits(content@, loc) && e is AnalysisError && e->AnalysisError_0@
                == span_error_text(loc),
        },
{
    if loc.end < loc.start {
        return Err(AnalyzerError::AnalysisError(String::from_str("Span ends before it starts")));
    }
    let chars = chars_of(content);
    proof {
        lemma_newlines_monotone(chars@, loc.start as nat, loc.end as nat, chars@.len());
    }
    let end_line = match line_at_offset(&chars, loc.end) {
        Some(line) => line,
        None => {
            return Err(
                AnalyzerError::AnalysisError(String::from_str("Byte offset exceeds file length")),
            );
        },
    };
    let start_line = match line_at_offset(&chars, loc.start) {
        Some(line) => line,
        None => {
            proof {
                lemma_byte_offset_monotone(chars@, 0, chars@.len());
            }
            return Err(
                AnalyzerError::AnalysisError(String::from_str("Byte offset exceeds file length")),
            );
        },
    };
    let starts = compute_line_starts(&chars);
    proof {
        lemma_newlines_within_lines(chars@, loc.end as nat, chars@.len());
        lemma_newlines_within_lines(chars@, loc.start as nat, chars@.len());
    }
    let first = first_attached_line(&chars, &starts, start_line);
    let source = lines_text(&chars, &starts, first, end_line);
    Ok(SourceExtract { source, start_line: first, end_line })
}

} // verus!
