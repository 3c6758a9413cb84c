use vstd::prelude::*;
use crate::text::{
    decimal, is_white_space, is_whitespace, push_decimal, push_range, push_repeat, push_str,
    repeat, to_owned_string,
};

verus! {

/// A half-open range `[from, to)` of character positions in a source text.
#[derive(Debug, Copy, Clone, PartialEq, Eq, Structural)]
pub struct Span {
    pub from: usize,
    pub to: usize,
}

impl Span {
    pub fn new(from: usize, to: usize) -> (s: Span)
        ensures
            s.from == from,
            s.to == to,
    {
        Span { from, to }
    }

    /// The smallest span that covers both `a` and `b`.
    pub fn combined(a: Span, b: Span) -> (s: Span)
        ensures
            s.from == (if a.from <= b.from { a.from } else { b.from }),
            s.to == (if a.to >= b.to { a.to } else { b.to }),
    {
        let from = if a.from <= b.from { a.from } else { b.from };
        let to = if a.to >= b.to { a.to } else { b.to };
        Span::new(from, to)
    }
}

/// Where in the source an error was found.
#[allow(non_camel_case_types)]
#[derive(Debug, Copy, Clone, PartialEq, Eq, Structural)]
pub enum SpanType {
    SEGMENT(Span),
    LINE(usize),
    UNKNOWN,
}

/// An error together with where it was found and an optional extra message.
#[derive(Debug, Clone)]
pub struct ErrorContext<T> {
    pub error: T,
    pub span_type: SpanType,
    pub message: Option<String>,
}

/// A list of located errors.
pub type Errors<T> = Vec<ErrorContext<T>>;

// ---------------------------------------------------------------------------
// The model of a rendered error.
// ---------------------------------------------------------------------------

/// The number of line breaks in `s`.
pub open spec fn count_newlines(s: Seq<char>) -> nat
    decreases s.len(),
{
    if s.len() == 0 {
        0
    } else {
        count_newlines(s.drop_last()) + if s.last() == '\n' { 1nat } else { 0nat }
    }
}

/// The 1-based number of the line on which position `i` lies.
pub open spec fn line_number(s: Seq<char>, i: int) -> nat {
    count_newlines(s.subrange(0, i)) + 1
}

/// The first position `>= i` (and `< to`) that does not hold white space; `i` when `i >= to`.
pub open spec fn first_non_white(s: Seq<char>, i: int, to: int) -> int
    decreases to - i,
{
    if i >= to {
        i
    } else if is_white_space(s[i]) {
        first_non_white(s, i + 1, to)
    } else {
        i
    }
}

/// The first position `>= i` (and `< to`) that does not hold a blank `' '`; `i` when `i >= to`.
pub open spec fn first_non_blank(s: Seq<char>, i: int, to: int) -> int
    decreases to - i,
{
    if i >= to {
        i
    } else if s[i] == ' ' {
        first_non_blank(s, i + 1, to)
    } else {
        i
    }
}

/// The position just after the last line break in `s[lo..hi]`, or `lo` when there is none.
pub open spec fn after_last_newline(s: Seq<char>, lo: int, hi: int) -> int
    decreases hi - lo,
{
    if hi <= lo {
        lo
    } else if s[hi - 1] == '\n' {
        hi
    } else {
        after_last_newline(s, lo, hi - 1)
    }
}

/// Whether `s[lo..hi]` holds a line break.
pub open spec fn has_newline(s: Seq<char>, lo: int, hi: int) -> bool
    decreases hi - lo,
{
    if lo >= hi {
        false
    } else {
        s[lo] == '\n' || has_newline(s, lo + 1, hi)
    }
}

/// The start of the line that holds position `i`.
pub open spec fn line_start(s: Seq<char>, i: int) -> int
    decreases i,
{
    if i <= 0 {
        0
    } else if s[i - 1] == '\n' {
        i
    } else {
        line_start(s, i - 1)
    }
}

/// The end (a line break or the end of the text) of the line that holds position `i`.
pub open spec fn line_end(s: Seq<char>, i: int) -> int
    decreases s.len() - i,
{
    if i >= s.len() {
        i
    } else if s[i] == '\n' {
        i
    } else {
        line_end(s, i + 1)
    }
}

/// Where a span that starts at `from` and ends at `to` really starts: lines of
/// nothing but white space at its head (before its last position) are skipped.
pub open spec fn trimmed_start(s: Seq<char>, from: int, to: int) -> int {
    let w = first_non_white(s, from, to);
    let lim = if w < to - 1 { w } else { to - 1 };
    after_last_newline(s, from, lim)
}

/// Whether the span, once trimmed, covers a line break before its last position.
pub open spec fn spans_lines(s: Seq<char>, from: int, to: int) -> bool {
    has_newline(s, first_non_white(s, from, to), to - 1)
}

/// The rendering of an error with text `err` found at `span` of the source `s`.
///
/// A span over several lines gives `"<err> on lines <a>-<b>"`. A span on one line
/// gives `"<err> on line <n>"`, the whole source line, and a line that puts `^`
/// under the span (from its first character that is not a blank), each followed
/// by a line break.
pub open spec fn span_error_text(err: Seq<char>, span: Span, s: Seq<char>) -> Seq<char> {
    let to = span.to as int;
    let f = trimmed_start(s, span.from as int, to);
    if spans_lines(s, span.from as int, to) {
        err + " on lines "@ + decimal(line_number(s, f)) + "-"@ + decimal(line_number(s, to))
    } else {
        let k = line_start(s, f);
        let e = line_end(s, to);
        let mid = if f <= to { s.subrange(f, to) } else { Seq::empty() };
        let line = s.subrange(k, f) + mid + s.subrange(to, e);
        let p = first_non_blank(s, f, to);
        let marks = if p < to { (to - p) as nat } else { 0nat };
        let under = repeat(' ', (p - k) as nat) + repeat('^', marks);
        err + " on line "@ + decimal(line_number(s, f)) + "\n"@ + line + "\n"@ + under + "\n"@
    }
}

/// The rendering of an error with text `err` at `span_type` of the source `s`.
pub open spec fn error_text(err: Seq<char>, span_type: SpanType, s: Seq<char>) -> Seq<char> {
    match span_type {
        SpanType::SEGMENT(span) => span_error_text(err, span, s),
        SpanType::LINE(line) => err + " on line "@ + decimal(line as nat),
        SpanType::UNKNOWN => err,
    }
}

/// Whether rendering at `span_type` indexes only inside a source of `len` characters.
pub open spec fn renderable(span_type: SpanType, len: nat) -> bool {
    match span_type {
        SpanType::SEGMENT(span) => span.from <= len && span.to <= len && len < usize::MAX,
        _ => true,
    }
}

impl<T> ErrorContext<T> {
    pub fn new(error: T, from: usize, to: usize) -> (c: Self)
        ensures
            c.error == error,
            c.span_type == SpanType::SEGMENT(Span { from, to }),
            c.message is None,
    {
        ErrorContext { error, span_type: SpanType::SEGMENT(Span::new(from, to)), message: None }
    }

    pub fn line(error: T, line: usize) -> (c: Self)
        ensures
            c.error == error,
            c.span_type == SpanType::LINE(line),
            c.message is None,
    {
        ErrorContext { error, span_type: SpanType::LINE(line), message: None }
    }

    pub fn unknown(error: T) -> (c: Self)
        ensures
            c.error == error,
            c.span_type == SpanType::UNKNOWN,
            c.message is None,
    {
        ErrorContext { error, span_type: SpanType::UNKNOWN, message: None }
    }

    pub fn of(error: T, span: Span) -> (c: Self)
        ensures
            c.error == error,
            c.span_type == SpanType::SEGMENT(span),
            c.message is None,
    {
        ErrorContext { error, span_type: SpanType::SEGMENT(span), message: None }
    }

    pub fn with_message(self, message: String) -> (c: Self)
        ensures
            c.error == self.error,
            c.span_type == self.span_type,
            c.message == Some(message),
    {
        let mut c = self;
        c.message = Some(message);
        c
    }

    /// Renders this error, whose own text is `error_text`, against the source `str`.
    pub fn format(&self, error_text: &str, str: Vec<char>) -> (r: String)
        requires
            renderable(self.span_type, str@.len()),
        ensures
            r@ == crate::error::context::error_text(error_text@, self.span_type, str@),
    {
        match self.span_type {
            SpanType::SEGMENT(span) => Self::format_span_err(span, error_text, &str),
            SpanType::LINE(line) => {
                let mut r = to_owned_string(error_text);
                push_str(&mut r, " on line ");
                push_decimal(&mut r, line);
                r
            },
            SpanType::UNKNOWN => to_owned_string(error_text),
        }
    }

    /// Renders an error with text `error` found at `span` of the source `str`.
    pub fn format_span_err(span: Span, error: &str, str: &Vec<char>) -> (r: String)
        requires
            span.from <= str.len(),
            span.to <= str.len(),
            str.len() < usize::MAX,
        ensures
            r@ == span_error_text(error@, span, str@),
    {
        let from0 = span.from;
        let to = span.to;
        let w = skip_white(str, from0, to);
        let f = trim_start(str, from0, to, w);
        let multi = newline_between(str, w, to);
        let mut r = to_owned_string(error);
        if multi {
            push_str(&mut r, " on lines ");
            push_decimal(&mut r, count_newlines_upto(str, f) + 1);
            push_str(&mut r, "-");
            push_decimal(&mut r, count_newlines_upto(str, to) + 1);
            return r;
        }
        let k = start_of_line(str, f);
        let e = end_of_line(str, to);
        let p = skip_blanks(str, f, to);
        push_str(&mut r, " on line ");
        push_decimal(&mut r, count_newlines_upto(str, f) + 1);
        push_str(&mut r, "\n");
        push_range(&mut r, str, k, f);
        if f <= to {
            push_range(&mut r, str, f, to);
        }
        push_range(&mut r, str, to, e);
        push_str(&mut r, "\n");
        push_repeat(&mut r, ' ', p - k);
        if p < to {
            push_repeat(&mut r, '^', to - p);
        }
        push_str(&mut r, "\n");
        proof {
            let ghost s = str@;
            let marks = if p < to { (to - p) as nat } else { 0nat };
            if p >= to {
                assert(repeat('^', marks) == Seq::<char>::empty());
            }
        }
        r
    }
}

/// The first position `>= from` and `< to` that does not hold white space.
fn skip_white(str: &Vec<char>, from: usize, to: usize) -> (w: usize)
    requires
        to <= str.len(),
    ensures
        w == first_non_white(str@, from as int, to as int),
        from <= w,
        w <= to || w == from,
{
    let mut w: usize = from;
    while w < to && is_whitespace(str[w])
        invariant
            from <= w,
            w <= to || w == from,
            to <= str.len(),
            first_non_white(str@, w as int, to as int) == first_non_white(
                str@,
                from as int,
                to as int,
            ),
        decreases str.len() - w,
    {
        w += 1;
    }
    w
}

/// The first position `>= from` and `< to` that does not hold a blank.
fn skip_blanks(str: &Vec<char>, from: usize, to: usize) -> (p: usize)
    requires
        to <= str.len(),
    ensures
        p == first_non_blank(str@, from as int, to as int),
        from <= p,
        p <= to || p == from,
{
    let mut p: usize = from;
    while p < to && str[p] == ' '
        invariant
            from <= p,
            p <= to || p == from,
            to <= str.len(),
            first_non_blank(str@, p as int, to as int) == first_non_blank(
                str@,
                from as int,
                to as int,
            ),
        decreases str.len() - p,
    {
        p += 1;
    }
    p
}

/// The start of the span once its leading blank lines are skipped.
fn trim_start(str: &Vec<char>, from: usize, to: usize, w: usize) -> (f: usize)
    requires
        from <= str.len(),
        to <= str.len(),
        w == first_non_white(str@, from as int, to as int),
        from <= w,
        w <= to || w == from,
    ensures
        f == trimmed_start(str@, from as int, to as int),
        from <= f <= str.len(),
        f <= to || f == from,
{
    let lim: usize = if to == 0 {
        0
    } else if w < to - 1 {
        w
    } else {
        to - 1
    };
    let mut f: usize = if lim > from { lim } else { from };
    while f > from && str[f - 1] != '\n'
        invariant
            from <= f <= str.len(),
            f <= to || f == from,
            after_last_newline(str@, from as int, f as int) == trimmed_start(
                str@,
                from as int,
                to as int,
            ),
        decreases f,
    {
        f -= 1;
    }
    f
}

/// Whether `str[w..to - 1]` holds a line break.
fn newline_between(str: &Vec<char>, w: usize, to: usize) -> (b: bool)
    requires
        to <= str.len(),
    ensures
        b == has_newline(str@, w as int, to - 1),
{
    let last: usize = if to == 0 { 0 } else { to - 1 };
    let mut j: usize = w;
    while j < last && str[j] != '\n'
        invariant
            w <= j,
            last <= str.len(),
            last == if to == 0 { 0 } else { to - 1 },
            has_newline(str@, w as int, to - 1) == has_newline(str@, j as int, to - 1),
        decreases str.len() - j,
    {
        j += 1;
    }
    j < last
}

/// The start of the line that holds position `i`.
fn start_of_line(str: &Vec<char>, i: usize) -> (k: usize)
    requires
        i <= str.len(),
    ensures
        k == line_start(str@, i as int),
        k <= i,
{
    let mut k: usize = i;
    while k > 0 && str[k - 1] != '\n'
        invariant
            k <= i <= str.len(),
            line_start(str@, k as int) == line_start(str@, i as int),
        decreases k,
    {
        k -= 1;
    }
    k
}

/// The end of the line that holds position `i`.
fn end_of_line(str: &Vec<char>, i: usize) -> (e: usize)
    requires
        i <= str.len(),
    ensures
        e == line_end(str@, i as int),
        i <= e <= str.len(),
{
    let mut e: usize = i;
    while e < str.len() && str[e] != '\n'
        invariant
            i <= e <= str.len(),
            line_end(str@, e as int) == line_end(str@, i as int),
        decreases str.len() - e,
    {
        e += 1;
    }
    e
}

/// The number of line breaks in `str[0..n]`.
pub(crate) fn count_newlines_upto(str: &Vec<char>, n: usize) -> (c: usize)
    requires
        n <= str.len(),
    ensures
        c == count_newlines(str@.subrange(0, n as int)),
        c <= n,
{
    let mut c: usize = 0;
    let mut i: usize = 0;
    while i < n
        invariant
            i <= n <= str.len(),
            c == count_newlines(str@.subrange(0, i as int)),
            c <= i,
        decreases n - i,
    {
        assert(str@.subrange(0, i + 1).drop_last() == str@.subrange(0, i as int));
        if str[i] == '\n' {
            c += 1;
        }
        i += 1;
    }
    c
}

} // verus!
