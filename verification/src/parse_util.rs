//! Source files, locations within them, and spans between two locations.

use vstd::prelude::*;
use vstd::string::*;

verus! {

/// A source file: its text and its url.
#[derive(Debug)]
pub struct ParseSourceFile {
    pub content: String,
    pub url: String,
}

/// A position in a source file: character offset, zero-based line and column.
#[derive(Debug)]
pub struct ParseLocation {
    pub file: ParseSourceFile,
    pub offset: usize,
    pub line: usize,
    pub col: usize,
}

/// A range of source text.
#[derive(Debug)]
pub struct ParseSourceSpan {
    pub start: ParseLocation,
    pub end: ParseLocation,
    pub details: Option<String>,
}

/// A span relative to the start of an expression's source text.
#[derive(Debug, Clone, Copy)]
pub struct ParseSpan {
    pub start: usize,
    pub end: usize,
}

/// The mathematical value of a source file.
pub struct SpecFile {
    pub content: Seq<char>,
    pub url: Seq<char>,
}

/// The mathematical value of a location.
pub struct SpecLocation {
    pub file: SpecFile,
    pub offset: int,
    pub line: int,
    pub col: int,
}

/// The mathematical value of a span.
pub struct SpecSpan {
    pub start: SpecLocation,
    pub end: SpecLocation,
    pub details: Option<Seq<char>>,
}

impl View for ParseSourceFile {
    type V = SpecFile;

    open spec fn view(&self) -> SpecFile {
        SpecFile { content: self.content@, url: self.url@ }
    }
}

impl View for ParseLocation {
    type V = SpecLocation;

    open spec fn view(&self) -> SpecLocation {
        SpecLocation {
            file: self.file@,
            offset: self.offset as int,
            line: self.line as int,
            col: self.col as int,
        }
    }
}

pub open spec fn opt_string_view(s: Option<String>) -> Option<Seq<char>> {
    match s {
        Some(s) => Some(s@),
        None => None,
    }
}

impl View for ParseSourceSpan {
    type V = SpecSpan;

    open spec fn view(&self) -> SpecSpan {
        SpecSpan { start: self.start@, end: self.end@, details: opt_string_view(self.details) }
    }
}

pub open spec fn opt_span_view(s: Option<ParseSourceSpan>) -> Option<SpecSpan> {
    match s {
        Some(s) => Some(s@),
        None => None,
    }
}

/// Index of the last line feed in `content[0..end)`, or -1 when there is none.
pub open spec fn last_newline_before(content: Seq<char>, end: int) -> int
    decreases end,
{
    if end <= 0 {
        -1
    } else if content[end - 1] == '\n' {
        end - 1
    } else {
        last_newline_before(content, end - 1)
    }
}

/// Moving backwards by `-delta` characters (while `delta < 0` and `offset > 0`): each step
/// decrements the offset; crossing a line feed decrements the line and recomputes the column
/// from the previous line feed, any other character decrements the column.
pub open spec fn move_back(content: Seq<char>, offset: int, line: int, col: int, delta: int) -> (
    int,
    int,
    int,
    int,
)
    decreases (if delta < 0 { -delta } else { 0 }),
{
    if offset > 0 && delta < 0 {
        let o = offset - 1;
        if 0 <= o < content.len() && content[o] == '\n' {
            let prior = last_newline_before(content, o - 1);
            let c = if prior > 0 { o - prior } else { o };
            move_back(content, o, if line > 0 { line - 1 } else { 0 }, c, delta + 1)
        } else {
            move_back(content, o, line, if col > 0 { col - 1 } else { 0 }, delta + 1)
        }
    } else {
        (offset, line, col, delta)
    }
}

/// Moving forwards by `delta` characters (while `delta > 0` and the offset is inside the
/// content): a line feed starts a new line at column 0, any other character advances the column.
pub open spec fn move_forward(content: Seq<char>, offset: int, line: int, col: int, delta: int) -> (
    int,
    int,
    int,
)
    decreases (if delta > 0 { delta } else { 0 }),
{
    if 0 <= offset < content.len() && delta > 0 {
        if content[offset] == '\n' {
            move_forward(content, offset + 1, line + 1, 0, delta - 1)
        } else {
            move_forward(content, offset + 1, line, col + 1, delta - 1)
        }
    } else {
        (offset, line, col)
    }
}

/// The location reached from `loc` by moving `delta` characters: first backwards while the
/// delta is negative, then forwards while it is positive.
pub open spec fn spec_move_by(loc: SpecLocation, delta: int) -> SpecLocation {
    let (o1, l1, c1, d1) = move_back(loc.file.content, loc.offset, loc.line, loc.col, delta);
    let (o2, l2, c2) = move_forward(loc.file.content, o1, l1, c1, d1);
    SpecLocation { file: loc.file, offset: o2, line: l2, col: c2 }
}

proof fn lemma_move_back_bounds(content: Seq<char>, offset: int, line: int, col: int, delta: int)
    requires
        offset >= 0,
        line >= 0,
        col >= 0,
    ensures
        ({
            let (o, l, c, d) = move_back(content, offset, line, col, delta);
            0 <= o <= offset && 0 <= l <= line && c >= 0 && d >= delta && (d < 0 ==> o == 0)
                && (delta >= 0 ==> d == delta && o == offset && l == line && c == col)
        }),
    decreases (if delta < 0 { -delta } else { 0 }),
{
    if offset > 0 && delta < 0 {
        let o = offset - 1;
        if 0 <= o < content.len() && content[o] == '\n' {
            let prior = last_newline_before(content, o - 1);
            let c = if prior > 0 { o - prior } else { o };
            lemma_last_newline_bounds(content, o - 1);
            lemma_move_back_bounds(content, o, if line > 0 { line - 1 } else { 0 }, c, delta + 1);
        } else {
            lemma_move_back_bounds(content, o, line, if col > 0 { col - 1 } else { 0 }, delta + 1);
        }
    }
}

proof fn lemma_last_newline_bounds(content: Seq<char>, end: int)
    ensures
        -1 <= last_newline_before(content, end) < (if end > 0 { end } else { 0 }),
    decreases end,
{
    if end > 0 && content[end - 1] != '\n' {
        lemma_last_newline_bounds(content, end - 1);
    }
}

proof fn lemma_move_forward_bounds(content: Seq<char>, offset: int, line: int, col: int, delta: int)
    requires
        offset >= 0,
        line >= 0,
        col >= 0,
    ensures
        ({
            let (o, l, c) = move_forward(content, offset, line, col, delta);
            offset <= o && o <= offset + (if delta > 0 { delta } else { 0 }) && (o > offset ==> o
                <= content.len()) && line <= l <= line + (o - offset) && 0 <= c <= col + (o
                - offset)
        }),
    decreases (if delta > 0 { delta } else { 0 }),
{
    if 0 <= offset < content.len() && delta > 0 {
        if content[offset] == '\n' {
            lemma_move_forward_bounds(content, offset + 1, line + 1, 0, delta - 1);
        } else {
            lemma_move_forward_bounds(content, offset + 1, line, col + 1, delta - 1);
        }
    }
}

impl ParseSourceFile {
    pub fn new(content: String, url: String) -> (r: Self)
        ensures
            r@ == (SpecFile { content: content@, url: url@ }),
    {
        ParseSourceFile { content, url }
    }

    pub fn clone_file(&self) -> (r: Self)
        ensures
            r@ == self@,
    {
        ParseSourceFile { content: self.content.clone(), url: self.url.clone() }
    }
}

impl ParseLocation {
    pub fn new(file: ParseSourceFile, offset: usize, line: usize, col: usize) -> (r: Self)
        ensures
            r@ == (SpecLocation {
                file: file@,
                offset: offset as int,
                line: line as int,
                col: col as int,
            }),
    {
        ParseLocation { file, offset, line, col }
    }

    pub fn clone_location(&self) -> (r: Self)
        ensures
            r@ == self@,
    {
        ParseLocation {
            file: self.file.clone_file(),
            offset: self.offset,
            line: self.line,
            col: self.col,
        }
    }

    /// The location `delta` characters away from this one, clamped to the start and the end
    /// of the file's content.
    pub fn move_by(&self, delta: i32) -> (r: Self)
        requires
            self.line + self.file.content@.len() <= usize::MAX,
            self.col + self.file.content@.len() <= usize::MAX,
        ensures
            r@ == spec_move_by(self@, delta as int),
    {
        let len = self.file.content.as_str().unicode_len();
        let ghost content = self.file.content@;
        let ghost line0 = self.line as int;
        let ghost col0 = self.col as int;
        let mut offset = self.offset;
        let mut line = self.line;
        let mut col = self.col;
        let mut d: i64 = delta as i64;
        let ghost target = move_back(content, offset as int, line as int, col as int, d as int);
        while offset > 0 && d < 0
            invariant
                len == content.len(),
                content == self.file.content@,
                move_back(content, offset as int, line as int, col as int, d as int) == target,
                d >= delta,
                line <= line0,
                col <= col0 + offset,
                line0 == self.line,
                col0 == self.col,
                line0 + len <= usize::MAX,
                col0 + len <= usize::MAX,
            decreases (if d < 0 { -d } else { 0 }),
        {
            offset = offset - 1;
            d = d + 1;
            if offset < len && self.file.content.as_str().get_char(offset) == '\n' {
                line = if line > 0 { line - 1 } else { 0 };
                let prior = last_newline_index(self.file.content.as_str(), offset);
                proof {
                    lemma_last_newline_bounds(content, offset - 1);
                }
                col = match prior {
                    Some(p) => if p > 0 { offset - p } else { offset },
                    None => offset,
                };
            } else {
                col = if col > 0 { col - 1 } else { 0 };
            }
        }
        let ghost target2 = move_forward(content, offset as int, line as int, col as int, d as int);
        while offset < len && d > 0
            invariant
                len == content.len(),
                content == self.file.content@,
                move_forward(content, offset as int, line as int, col as int, d as int) == target2,
                line <= line0 + offset,
                col <= col0 + offset,
                line0 == self.line,
                col0 == self.col,
                line0 + len <= usize::MAX,
                col0 + len <= usize::MAX,
            decreases (if d > 0 { d } else { 0 }),
        {
            let ch = self.file.content.as_str().get_char(offset);
            offset = offset + 1;
            d = d - 1;
            if ch == '\n' {
                line = line + 1;
                col = 0;
            } else {
                col = col + 1;
            }
        }
        ParseLocation { file: self.file.clone_file(), offset, line, col }
    }
}

/// Index of the last line feed in `s[0..end - 1)`, if there is one.
fn last_newline_index(s: &str, end: usize) -> (r: Option<usize>)
    requires
        end <= s@.len(),
    ensures
        last_newline_before(s@, end - 1) == (match r {
            Some(i) => i as int,
            None => -1,
        }),
{
    if end == 0 {
        return None;
    }
    let mut i: usize = end - 1;
    while i > 0
        invariant
            i <= end - 1,
            end <= s@.len(),
            last_newline_before(s@, i as int) == last_newline_before(s@, end - 1),
        decreases i,
    {
        if s.get_char(i - 1) == '\n' {
            return Some(i - 1);
        }
        i = i - 1;
    }
    None
}

impl ParseSourceSpan {
    pub fn new(start: ParseLocation, end: ParseLocation) -> (r: Self)
        ensures
            r@ == (SpecSpan { start: start@, end: end@, details: None }),
    {
        ParseSourceSpan { start, end, details: None }
    }

    pub fn clone_span(&self) -> (r: Self)
        ensures
            r@ == self@,
    {
        let details = match &self.details {
            Some(d) => Some(d.clone()),
            None => None,
        };
        ParseSourceSpan {
            start: self.start.clone_location(),
            end: self.end.clone_location(),
            details,
        }
    }
}

pub fn clone_opt_span(s: &Option<ParseSourceSpan>) -> (r: Option<ParseSourceSpan>)
    ensures
        opt_span_view(r) == opt_span_view(*s),
{
    match s {
        Some(s) => Some(s.clone_span()),
        None => None,
    }
}

} // verus!
