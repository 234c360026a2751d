//! Changelog markdown rendered into styled lines.
//!
//! A changelog body is split into lines (`\n` or `\r\n` terminated), each
//! line trimmed of Unicode whitespace and classified: blank lines stay blank,
//! `##`/`###` headings become header lines, `#` headings are dropped,
//! `-`/`*`/`+` items become bullets, and anything else is indented plain
//! text. Bullet and plain text go through inline parsing, which recognises
//! `[label](url)` links (label kept), `**bold**`, `` `code` `` and bare
//! `http(s)://` URLs, leftmost first.

use vstd::prelude::*;
use crate::text::{
    chars_of, contains_seq, contains_lower, lowercase, owned, seq_eq, slice_chars, slice_string,
    string_from_chars, to_lower,
};

verus! {

/// The role of a span, which the terminal front end maps to colors.
#[derive(Debug, Clone, Copy, PartialEq, Eq, Structural)]
pub enum MdStyle {
    Plain,
    Header,
    Bullet,
    Bold,
    Code,
    Url,
    Highlight,
}

/// A run of text in one style.
#[derive(Debug, Clone, PartialEq, Eq)]
pub struct MdSpan {
    pub text: String,
    pub style: MdStyle,
}

/// One rendered line.
#[derive(Debug, Clone, PartialEq, Eq)]
pub struct MdLine {
    pub spans: Vec<MdSpan>,
}

/// Ghost form of [`MdSpan`].
pub ghost struct SpanView {
    pub text: Seq<char>,
    pub style: MdStyle,
}

pub open spec fn span_view(s: MdSpan) -> SpanView {
    SpanView { text: s.text@, style: s.style }
}

pub open spec fn spans_view(v: Seq<MdSpan>) -> Seq<SpanView> {
    v.map_values(|s: MdSpan| span_view(s))
}

pub open spec fn lines_view(v: Seq<MdLine>) -> Seq<Seq<SpanView>> {
    v.map_values(|l: MdLine| spans_view(l.spans@))
}

pub open spec fn styled(text: Seq<char>, style: MdStyle) -> SpanView {
    SpanView { text, style }
}

/// Unicode `White_Space` (what `char::is_whitespace` and the regex class
/// `\s` test).
pub open spec fn is_ws(c: char) -> bool {
    let u = c as u32;
    ||| 9 <= u <= 13
    ||| u == 32
    ||| u == 0x85
    ||| u == 0xa0
    ||| u == 0x1680
    ||| 0x2000 <= u <= 0x200a
    ||| u == 0x2028
    ||| u == 0x2029
    ||| u == 0x202f
    ||| u == 0x205f
    ||| u == 0x3000
}

/// Is `c` Unicode whitespace?
pub fn is_whitespace(c: char) -> (r: bool)
    ensures
        r == is_ws(c),
{
    let u = c as u32;
    (9 <= u && u <= 13) || u == 32 || u == 0x85 || u == 0xa0 || u == 0x1680 || (0x2000 <= u && u
        <= 0x200a) || u == 0x2028 || u == 0x2029 || u == 0x202f || u == 0x205f || u == 0x3000
}

/// The characters a forward scan stops at.
#[derive(Debug, Clone, Copy, PartialEq, Eq, Structural)]
pub enum Stop {
    /// `]`, closing a link label.
    Bracket,
    /// `)` or whitespace, ending a link target.
    LinkTarget,
    /// `` ` ``, closing inline code.
    Backtick,
    /// Whitespace, `)`, `]` or `>`, ending a bare URL.
    BareUrl,
    /// A line feed.
    Newline,
    /// Anything but whitespace.
    NonWs,
}

pub open spec fn stops(stop: Stop, c: char) -> bool {
    match stop {
        Stop::Bracket => c == ']',
        Stop::LinkTarget => c == ')' || is_ws(c),
        Stop::Backtick => c == '`',
        Stop::BareUrl => is_ws(c) || c == ')' || c == ']' || c == '>',
        Stop::Newline => c == '\n',
        Stop::NonWs => !is_ws(c),
    }
}

fn stops_exec(stop: Stop, c: char) -> (r: bool)
    ensures
        r == stops(stop, c),
{
    match stop {
        Stop::Bracket => c == ']',
        Stop::LinkTarget => c == ')' || is_whitespace(c),
        Stop::Backtick => c == '`',
        Stop::BareUrl => is_whitespace(c) || c == ')' || c == ']' || c == '>',
        Stop::Newline => c == '\n',
        Stop::NonWs => !is_whitespace(c),
    }
}

/// The first position at or after `from` whose character is a `stop`
/// character, or the end of `t`.
pub open spec fn scan_to(t: Seq<char>, from: int, stop: Stop) -> int
    decreases t.len() - from,
{
    if from >= t.len() {
        t.len() as int
    } else if stops(stop, t[from]) {
        from
    } else {
        scan_to(t, from + 1, stop)
    }
}

pub proof fn lemma_scan_to(t: Seq<char>, from: int, stop: Stop)
    requires
        0 <= from <= t.len(),
    ensures
        from <= scan_to(t, from, stop) <= t.len(),
        scan_to(t, from, stop) < t.len() ==> stops(stop, t[scan_to(t, from, stop)]),
        forall|k: int| from <= k < scan_to(t, from, stop) ==> !stops(stop, #[trigger] t[k]),
    decreases t.len() - from,
{
    if from < t.len() && !stops(stop, t[from]) {
        lemma_scan_to(t, from + 1, stop);
    }
}

fn scan_exec(t: &Vec<char>, from: usize, stop: Stop) -> (r: usize)
    requires
        from <= t.len(),
    ensures
        r == scan_to(t@, from as int, stop),
        from <= r <= t.len(),
{
    let mut k = from;
    while k < t.len() && !stops_exec(stop, t[k])
        invariant
            from <= k <= t.len(),
            scan_to(t@, from as int, stop) == scan_to(t@, k as int, stop),
        decreases t.len() - k,
    {
        k = k + 1;
    }
    k
}

/// Where a `**bold**` run that opened before `from` closes: the first `**`
/// at or after `from`, provided no line feed comes first.
pub open spec fn bold_close(t: Seq<char>, from: int) -> Option<int>
    decreases t.len() - from,
{
    if from + 1 >= t.len() {
        None
    } else if t[from] == '*' && t[from + 1] == '*' {
        Some(from)
    } else if t[from] == '\n' {
        None
    } else {
        bold_close(t, from + 1)
    }
}

pub proof fn lemma_bold_close(t: Seq<char>, from: int)
    requires
        0 <= from,
    ensures
        bold_close(t, from) matches Some(m) ==> from <= m && m + 1 < t.len(),
    decreases t.len() - from,
{
    if from + 1 < t.len() && !(t[from] == '*' && t[from + 1] == '*') && t[from] != '\n' {
        lemma_bold_close(t, from + 1);
    }
}

fn bold_close_exec(t: &Vec<char>, from: usize) -> (r: Option<usize>)
    ensures
        match r {
            Some(m) => bold_close(t@, from as int) == Some(m as int),
            None => bold_close(t@, from as int) is None,
        },
{
    let mut k = from;
    while k < t.len() && k + 1 < t.len()
        invariant
            from <= k,
            bold_close(t@, from as int) == bold_close(t@, k as int),
        decreases t.len() - k,
    {
        if t[k] == '*' && t[k + 1] == '*' {
            return Some(k);
        }
        if t[k] == '\n' {
            return None;
        }
        k = k + 1;
    }
    None
}

/// An inline construct found in a text: it covers `t[start..end]`, and its
/// visible content is `t[from..to]`.
pub ghost struct Token {
    pub end: int,
    pub style: MdStyle,
    pub from: int,
    pub to: int,
}

/// `[label](target)` at `i`: a non-empty label without `]`, then a non-empty
/// target without `)` or whitespace. Only the label is shown.
pub open spec fn link_at(t: Seq<char>, i: int) -> Option<Token> {
    if i + 1 < t.len() && t[i] == '[' {
        let j = scan_to(t, i + 1, Stop::Bracket);
        if j > i + 1 && j + 1 < t.len() && t[j + 1] == '(' {
            let k = scan_to(t, j + 2, Stop::LinkTarget);
            if k > j + 2 && k < t.len() && t[k] == ')' {
                Some(Token { end: k + 1, style: MdStyle::Url, from: i + 1, to: j })
            } else {
                None
            }
        } else {
            None
        }
    } else {
        None
    }
}

/// `**content**` at `i`: the shortest non-empty content on one line.
pub open spec fn bold_at(t: Seq<char>, i: int) -> Option<Token> {
    if i + 2 < t.len() && t[i] == '*' && t[i + 1] == '*' && t[i + 2] != '\n' {
        match bold_close(t, i + 3) {
            Some(m) => Some(Token { end: m + 2, style: MdStyle::Bold, from: i + 2, to: m }),
            None => None,
        }
    } else {
        None
    }
}

/// `` `content` `` at `i`: non-empty content without backticks.
pub open spec fn code_at(t: Seq<char>, i: int) -> Option<Token> {
    if i + 1 < t.len() && t[i] == '`' {
        let k = scan_to(t, i + 1, Stop::Backtick);
        if k > i + 1 && k < t.len() {
            Some(Token { end: k + 1, style: MdStyle::Code, from: i + 1, to: k })
        } else {
            None
        }
    } else {
        None
    }
}

pub open spec fn http_at(t: Seq<char>, i: int) -> bool {
    &&& 0 <= i
    &&& i + 7 <= t.len()
    &&& t[i] == 'h' && t[i + 1] == 't' && t[i + 2] == 't' && t[i + 3] == 'p'
    &&& t[i + 4] == ':' && t[i + 5] == '/' && t[i + 6] == '/'
}

pub open spec fn https_at(t: Seq<char>, i: int) -> bool {
    &&& 0 <= i
    &&& i + 8 <= t.len()
    &&& t[i] == 'h' && t[i + 1] == 't' && t[i + 2] == 't' && t[i + 3] == 'p' && t[i + 4] == 's'
    &&& t[i + 5] == ':' && t[i + 6] == '/' && t[i + 7] == '/'
}

/// A bare `http://` or `https://` URL at `i`, running up to whitespace, `)`,
/// `]` or `>`, with at least one character after the scheme.
pub open spec fn url_at(t: Seq<char>, i: int) -> Option<Token> {
    let p = if https_at(t, i) { i + 8 } else if http_at(t, i) { i + 7 } else { -1 };
    if p >= 0 {
        let e = scan_to(t, p, Stop::BareUrl);
        if e > p {
            Some(Token { end: e, style: MdStyle::Url, from: i, to: e })
        } else {
            None
        }
    } else {
        None
    }
}

/// The inline construct starting at `i`, trying link, bold, code, then URL.
pub open spec fn token_at(t: Seq<char>, i: int) -> Option<Token> {
    match link_at(t, i) {
        Some(tok) => Some(tok),
        None => match bold_at(t, i) {
            Some(tok) => Some(tok),
            None => match code_at(t, i) {
                Some(tok) => Some(tok),
                None => url_at(t, i),
            },
        },
    }
}

pub proof fn lemma_token_bounds(t: Seq<char>, i: int)
    requires
        0 <= i < t.len(),
    ensures
        token_at(t, i) matches Some(tok) ==> i < tok.end <= t.len() && i <= tok.from <= tok.to
            <= tok.end,
{
    if t[i] == '[' {
        lemma_scan_to(t, i + 1, Stop::Bracket);
        let j = scan_to(t, i + 1, Stop::Bracket);
        if j + 2 <= t.len() {
            lemma_scan_to(t, j + 2, Stop::LinkTarget);
        }
    } else if t[i] == '*' {
        lemma_bold_close(t, i + 3);
    } else if t[i] == '`' {
        lemma_scan_to(t, i + 1, Stop::Backtick);
    } else if https_at(t, i) {
        lemma_scan_to(t, i + 8, Stop::BareUrl);
    } else if http_at(t, i) {
        lemma_scan_to(t, i + 7, Stop::BareUrl);
    }
}

/// The inline construct at `i`, as (end, style, content start, content end).
fn token_at_exec(t: &Vec<char>, i: usize) -> (r: Option<(usize, MdStyle, usize, usize)>)
    requires
        i < t.len(),
    ensures
        match (r, token_at(t@, i as int)) {
            (Some((e, st, a, b)), Some(tok)) => e == tok.end && st == tok.style && a == tok.from
                && b == tok.to,
            (None, None) => true,
            _ => false,
        },
{
    let n = t.len();
    let c = t[i];
    if c == '[' {
        if n - i < 2 {
            return None;
        }
        let j = scan_exec(t, i + 1, Stop::Bracket);
        if !(j > i + 1 && j < n - 1 && t[j + 1] == '(') {
            return None;
        }
        let k = scan_exec(t, j + 2, Stop::LinkTarget);
        if k > j + 2 && k < n && t[k] == ')' {
            Some((k + 1, MdStyle::Url, i + 1, j))
        } else {
            None
        }
    } else if c == '*' {
        if !(n - i > 2 && t[i + 1] == '*' && t[i + 2] != '\n') {
            return None;
        }
        proof {
            lemma_bold_close(t@, i + 3);
        }
        match bold_close_exec(t, i + 3) {
            Some(m) => Some((m + 2, MdStyle::Bold, i + 2, m)),
            None => None,
        }
    } else if c == '`' {
        if n - i < 2 {
            return None;
        }
        let k = scan_exec(t, i + 1, Stop::Backtick);
        if k > i + 1 && k < n {
            Some((k + 1, MdStyle::Code, i + 1, k))
        } else {
            None
        }
    } else if c == 'h' {
        let p: usize = if n - i >= 8 && t[i + 1] == 't' && t[i + 2] == 't' && t[i + 3] == 'p' && t[i
            + 4] == 's' && t[i + 5] == ':' && t[i + 6] == '/' && t[i + 7] == '/' {
            i + 8
        } else if n - i >= 7 && t[i + 1] == 't' && t[i + 2] == 't' && t[i + 3] == 'p' && t[i + 4]
            == ':' && t[i + 5] == '/' && t[i + 6] == '/' {
            i + 7
        } else {
            return None;
        };
        let e = scan_exec(t, p, Stop::BareUrl);
        if e > p {
            Some((e, MdStyle::Url, i, e))
        } else {
            None
        }
    } else {
        None
    }
}

/// The spans of `t[i..]`, given that `t[last..i]` is pending plain text.
pub open spec fn inline_scan(t: Seq<char>, i: int, last: int) -> Seq<SpanView>
    decreases t.len() - i,
{
    if i < 0 || i >= t.len() {
        if last < t.len() {
            seq![styled(t.subrange(last, t.len() as int), MdStyle::Plain)]
        } else {
            seq![]
        }
    } else {
        match token_at(t, i) {
            Some(tok) => {
                proof {
                    lemma_token_bounds(t, i);
                }
                let gap = if i > last {
                    seq![styled(t.subrange(last, i), MdStyle::Plain)]
                } else {
                    seq![]
                };
                gap + seq![styled(t.subrange(tok.from, tok.to), tok.style)] + inline_scan(
                    t,
                    tok.end,
                    tok.end,
                )
            },
            None => inline_scan(t, i + 1, last),
        }
    }
}

/// Inline spans of a text: the constructs found left to right with the text
/// between them as plain spans; a text with nothing in it (the empty text)
/// is one plain span.
pub open spec fn spec_inline(t: Seq<char>) -> Seq<SpanView> {
    let s = inline_scan(t, 0, 0);
    if s.len() == 0 {
        seq![styled(t, MdStyle::Plain)]
    } else {
        s
    }
}

/// Parse the inline constructs of `t` into styled spans.
pub fn parse_inline_spans(t: &Vec<char>) -> (r: Vec<MdSpan>)
    ensures
        spans_view(r@) == spec_inline(t@),
{
    let mut out: Vec<MdSpan> = Vec::new();
    let mut i: usize = 0;
    let mut last: usize = 0;
    assert(spans_view(out@) + inline_scan(t@, 0, 0) =~= inline_scan(t@, 0, 0));
    while i < t.len()
        invariant
            last <= i <= t.len(),
            spans_view(out@) + inline_scan(t@, i as int, last as int) == inline_scan(t@, 0, 0),
        decreases t.len() - i,
    {
        proof {
            lemma_token_bounds(t@, i as int);
        }
        match token_at_exec(t, i) {
            Some((end, style, a, b)) => {
                let ghost before = spans_view(out@);
                let ghost gap = if i > last {
                    seq![styled(t@.subrange(last as int, i as int), MdStyle::Plain)]
                } else {
                    seq![]
                };
                if i > last {
                    out.push(MdSpan { text: slice_string(t, last, i), style: MdStyle::Plain });
                }
                out.push(MdSpan { text: slice_string(t, a, b), style });
                assert(spans_view(out@) =~= before + gap + seq![
                    styled(t@.subrange(a as int, b as int), style),
                ]);
                assert(spans_view(out@) + inline_scan(t@, end as int, end as int) =~= before
                    + inline_scan(t@, i as int, last as int));
                i = end;
                last = end;
            },
            None => {
                i = i + 1;
            },
        }
    }
    let ghost before = spans_view(out@);
    if last < t.len() {
        out.push(MdSpan { text: slice_string(t, last, t.len()), style: MdStyle::Plain });
    }
    assert(spans_view(out@) =~= before + inline_scan(t@, i as int, last as int));
    if out.len() == 0 {
        out.push(MdSpan { text: string_from_chars(t), style: MdStyle::Plain });
        assert(spans_view(out@) =~= seq![styled(t@, MdStyle::Plain)]);
    }
    out
}

/// The end of `t[..to]` once trailing whitespace is dropped.
pub open spec fn trim_end_at(t: Seq<char>, to: int) -> int
    decreases to,
{
    if to <= 0 {
        0
    } else if !is_ws(t[to - 1]) {
        to
    } else {
        trim_end_at(t, to - 1)
    }
}

pub proof fn lemma_trim_end_at(t: Seq<char>, to: int)
    requires
        0 <= to <= t.len(),
    ensures
        0 <= trim_end_at(t, to) <= to,
        trim_end_at(t, to) > 0 ==> !is_ws(t[trim_end_at(t, to) - 1]),
    decreases to,
{
    if to > 0 && is_ws(t[to - 1]) {
        lemma_trim_end_at(t, to - 1);
    }
}

/// `t` without leading and trailing whitespace (`str::trim`).
pub open spec fn spec_trim(t: Seq<char>) -> Seq<char> {
    let a = scan_to(t, 0, Stop::NonWs);
    let b = trim_end_at(t, t.len() as int);
    if a < b {
        t.subrange(a, b)
    } else {
        seq![]
    }
}

/// Strip leading and trailing whitespace.
pub fn trim_chars(t: &Vec<char>) -> (r: Vec<char>)
    ensures
        r@ == spec_trim(t@),
{
    let a = scan_exec(t, 0, Stop::NonWs);
    let mut b = t.len();
    while b > 0 && is_whitespace(t[b - 1])
        invariant
            b <= t.len(),
            trim_end_at(t@, t@.len() as int) == trim_end_at(t@, b as int),
        decreases b,
    {
        b = b - 1;
    }
    if a < b {
        slice_chars(t, a, b)
    } else {
        Vec::new()
    }
}

/// The bullet marker that replaces `- `, `* ` and `+ `.
pub open spec fn bullet_marker() -> Seq<char> {
    seq![' ', ' ', '\u{2022}', ' ']
}

/// The indent of plain text lines.
pub open spec fn indent() -> Seq<char> {
    seq![' ', ' ']
}

/// The spans of one trimmed line; `None` for a dropped `# ` heading.
pub open spec fn spec_line_spans(t: Seq<char>) -> Option<Seq<SpanView>> {
    let n = t.len() as int;
    if n == 0 {
        Some(seq![])
    } else if n >= 4 && t[0] == '#' && t[1] == '#' && t[2] == '#' && t[3] == ' ' {
        Some(seq![styled(t.subrange(4, n), MdStyle::Header)])
    } else if n >= 3 && t[0] == '#' && t[1] == '#' && t[2] == ' ' {
        Some(seq![styled(t.subrange(3, n), MdStyle::Header)])
    } else if n >= 2 && t[0] == '#' && t[1] == ' ' {
        None
    } else if n >= 2 && (t[0] == '-' || t[0] == '*' || t[0] == '+') && t[1] == ' ' {
        Some(seq![styled(bullet_marker(), MdStyle::Bullet)] + spec_inline(t.subrange(2, n)))
    } else {
        Some(seq![styled(indent(), MdStyle::Plain)] + spec_inline(t))
    }
}

fn string_of(v: Vec<char>) -> (r: String)
    ensures
        r@ == v@,
{
    string_from_chars(&v)
}

/// Prepend one span to a list of spans.
fn prepend(first: MdSpan, rest: Vec<MdSpan>) -> (r: Vec<MdSpan>)
    ensures
        spans_view(r@) == seq![span_view(first)] + spans_view(rest@),
{
    let mut out: Vec<MdSpan> = Vec::new();
    out.push(first);
    let ghost rv = spans_view(rest@);
    let mut rest = rest;
    out.append(&mut rest);
    assert(spans_view(out@) =~= seq![span_view(first)] + rv);
    out
}

/// Classify and render one trimmed line.
fn line_spans(t: &Vec<char>) -> (r: Option<Vec<MdSpan>>)
    ensures
        match (r, spec_line_spans(t@)) {
            (Some(v), Some(w)) => spans_view(v@) == w,
            (None, None) => true,
            _ => false,
        },
{
    let n = t.len();
    if n == 0 {
        let v: Vec<MdSpan> = Vec::new();
        assert(spans_view(v@) =~= seq![]);
        return Some(v);
    }
    if n >= 4 && t[0] == '#' && t[1] == '#' && t[2] == '#' && t[3] == ' ' {
        let mut v: Vec<MdSpan> = Vec::new();
        v.push(MdSpan { text: slice_string(t, 4, n), style: MdStyle::Header });
        assert(spans_view(v@) =~= seq![styled(t@.subrange(4, n as int), MdStyle::Header)]);
        return Some(v);
    }
    if n >= 3 && t[0] == '#' && t[1] == '#' && t[2] == ' ' {
        let mut v: Vec<MdSpan> = Vec::new();
        v.push(MdSpan { text: slice_string(t, 3, n), style: MdStyle::Header });
        assert(spans_view(v@) =~= seq![styled(t@.subrange(3, n as int), MdStyle::Header)]);
        return Some(v);
    }
    if n >= 2 && t[0] == '#' && t[1] == ' ' {
        return None;
    }
    if n >= 2 && (t[0] == '-' || t[0] == '*' || t[0] == '+') && t[1] == ' ' {
        let mut m: Vec<char> = Vec::new();
        m.push(' ');
        m.push(' ');
        m.push('\u{2022}');
        m.push(' ');
        assert(m@ =~= bullet_marker());
        let rest = slice_chars(t, 2, n);
        let spans = parse_inline_spans(&rest);
        return Some(prepend(MdSpan { text: string_of(m), style: MdStyle::Bullet }, spans));
    }
    let mut m: Vec<char> = Vec::new();
    m.push(' ');
    m.push(' ');
    assert(m@ =~= indent());
    let spans = parse_inline_spans(t);
    Some(prepend(MdSpan { text: string_of(m), style: MdStyle::Plain }, spans))
}

/// The line starting at `start`, without its `\n` or `\r\n` terminator
/// (the lines of `str::lines`).
pub open spec fn line_at(s: Seq<char>, start: int) -> Seq<char> {
    let j = scan_to(s, start, Stop::Newline);
    if start < j < s.len() && s[j - 1] == '\r' {
        s.subrange(start, j - 1)
    } else {
        s.subrange(start, j)
    }
}

/// The rendered lines of `s[start..]`, where `start` begins a line.
pub open spec fn render_from(s: Seq<char>, start: int) -> Seq<Seq<SpanView>>
    decreases s.len() - start,
{
    if start < 0 || start >= s.len() {
        seq![]
    } else {
        let j = scan_to(s, start, Stop::Newline);
        proof {
            lemma_scan_to(s, start, Stop::Newline);
        }
        let rest = if j < s.len() {
            render_from(s, j + 1)
        } else {
            seq![]
        };
        match spec_line_spans(spec_trim(line_at(s, start))) {
            Some(l) => seq![l] + rest,
            None => rest,
        }
    }
}

/// The rendered lines of a changelog body.
pub open spec fn spec_changelog(body: Seq<char>) -> Seq<Seq<SpanView>> {
    render_from(body, 0)
}

/// Convert a raw markdown changelog body into styled lines.
pub fn changelog_to_lines(body: &str) -> (r: Vec<MdLine>)
    ensures
        lines_view(r@) == spec_changelog(body@),
{
    let s = chars_of(body);
    let mut out: Vec<MdLine> = Vec::new();
    let mut start: usize = 0;
    assert(lines_view(out@) + render_from(s@, 0) =~= render_from(s@, 0));
    while start < s.len()
        invariant
            start <= s.len(),
            s@ == body@,
            lines_view(out@) + render_from(s@, start as int) == render_from(s@, 0),
        decreases s.len() - start,
    {
        let j = scan_exec(&s, start, Stop::Newline);
        let raw = if start < j && j < s.len() && s[j - 1] == '\r' {
            slice_chars(&s, start, j - 1)
        } else {
            slice_chars(&s, start, j)
        };
        assert(raw@ == line_at(s@, start as int));
        let t = trim_chars(&raw);
        let ghost before = lines_view(out@);
        let ghost rest = if j < s.len() {
            render_from(s@, j + 1)
        } else {
            seq![]
        };
        match line_spans(&t) {
            Some(spans) => {
                out.push(MdLine { spans });
                assert(lines_view(out@) =~= before + seq![spans_view(spans@)]);
            },
            None => {
                assert(lines_view(out@) =~= before);
            },
        }
        let next = if j < s.len() {
            j + 1
        } else {
            s.len()
        };
        assert(lines_view(out@) + render_from(s@, next as int) =~= before + render_from(
            s@,
            start as int,
        ));
        start = next;
    }
    out
}

/// `q` occurs, ignoring case, in `t` at `p`: the lowercase form of
/// `t[p..p + |q|]` equals that of `q`.
pub open spec fn ci_match(t: Seq<char>, q: Seq<char>, p: int) -> bool {
    &&& 0 <= p
    &&& p + q.len() <= t.len()
    &&& lowercase(t.subrange(p, p + q.len())) == lowercase(q)
}

/// Highlight spans for `t[p..]`, given that `t[last..p]` is pending text in
/// `style`: occurrences are taken left to right without overlap.
pub open spec fn hl_scan(t: Seq<char>, style: MdStyle, q: Seq<char>, p: int, last: int) -> Seq<
    SpanView,
>
    decreases t.len() - p,
{
    if q.len() == 0 || p < 0 || p + q.len() > t.len() {
        if last < t.len() {
            seq![styled(t.subrange(last, t.len() as int), style)]
        } else {
            seq![]
        }
    } else if ci_match(t, q, p) {
        (if p > last {
            seq![styled(t.subrange(last, p), style)]
        } else {
            seq![]
        }) + seq![styled(t.subrange(p, p + q.len()), MdStyle::Highlight)] + hl_scan(
            t,
            style,
            q,
            p + q.len(),
            p + q.len(),
        )
    } else {
        hl_scan(t, style, q, p + 1, last)
    }
}

/// One span split around the case-insensitive occurrences of `q`; an empty
/// span stays as it is.
pub open spec fn highlight_span(sp: SpanView, q: Seq<char>) -> Seq<SpanView> {
    if sp.text.len() == 0 {
        seq![sp]
    } else {
        hl_scan(sp.text, sp.style, q, 0, 0)
    }
}

/// Every span highlighted, in order.
pub open spec fn highlight_all(spans: Seq<SpanView>, q: Seq<char>) -> Seq<SpanView>
    decreases spans.len(),
{
    if spans.len() == 0 {
        seq![]
    } else {
        highlight_all(spans.drop_last(), q) + highlight_span(spans.last(), q)
    }
}

/// A line with the occurrences of `q` highlighted; an empty query changes
/// nothing.
pub open spec fn highlight_line(spans: Seq<SpanView>, q: Seq<char>) -> Seq<SpanView> {
    if q.len() == 0 {
        spans
    } else {
        highlight_all(spans, q)
    }
}

/// Does `q` occur at `p` ignoring case (`lq` is the lowercase `q`)?
fn ci_match_exec(t: &Vec<char>, q: &Vec<char>, lq: &Vec<char>, p: usize) -> (r: bool)
    requires
        p + q.len() <= t.len(),
        lq@ == lowercase(q@),
    ensures
        r == ci_match(t@, q@, p as int),
{
    let sub = slice_string(t, p, p + q.len());
    let low = to_lower(sub.as_str());
    let lv = chars_of(low.as_str());
    seq_eq(&lv, lq)
}

fn copy_span(sp: &MdSpan) -> (r: MdSpan)
    ensures
        span_view(r) == span_view(*sp),
{
    MdSpan { text: owned(sp.text.as_str()), style: sp.style }
}

/// Split one span around the occurrences of `q`.
fn highlight_span_exec(sp: &MdSpan, q: &Vec<char>, lq: &Vec<char>) -> (r: Vec<MdSpan>)
    requires
        q@.len() > 0,
        lq@ == lowercase(q@),
    ensures
        spans_view(r@) == highlight_span(span_view(*sp), q@),
{
    let t = chars_of(sp.text.as_str());
    let style = sp.style;
    let mut out: Vec<MdSpan> = Vec::new();
    if t.len() == 0 {
        out.push(copy_span(sp));
        assert(spans_view(out@) =~= seq![span_view(*sp)]);
        return out;
    }
    let n = q.len();
    let mut p: usize = 0;
    let mut last: usize = 0;
    assert(spans_view(out@) + hl_scan(t@, style, q@, 0, 0) =~= hl_scan(t@, style, q@, 0, 0));
    while n <= t.len() - p
        invariant
            n == q@.len(),
            n > 0,
            lq@ == lowercase(q@),
            last <= p <= t.len(),
            spans_view(out@) + hl_scan(t@, style, q@, p as int, last as int) == hl_scan(
                t@,
                style,
                q@,
                0,
                0,
            ),
        decreases t.len() - p,
    {
        let ghost before = spans_view(out@);
        if ci_match_exec(&t, q, lq, p) {
            let ghost gap = if p > last {
                seq![styled(t@.subrange(last as int, p as int), style)]
            } else {
                seq![]
            };
            if p > last {
                out.push(MdSpan { text: slice_string(&t, last, p), style });
            }
            out.push(MdSpan { text: slice_string(&t, p, p + n), style: MdStyle::Highlight });
            assert(spans_view(out@) =~= before + gap + seq![
                styled(t@.subrange(p as int, p + n), MdStyle::Highlight),
            ]);
            assert(spans_view(out@) + hl_scan(t@, style, q@, p + n, p + n) =~= before + hl_scan(
                t@,
                style,
                q@,
                p as int,
                last as int,
            ));
            p = p + n;
            last = p;
        } else {
            p = p + 1;
        }
    }
    let ghost before = spans_view(out@);
    if last < t.len() {
        out.push(MdSpan { text: slice_string(&t, last, t.len()), style });
    }
    assert(spans_view(out@) =~= before + hl_scan(t@, style, q@, p as int, last as int));
    out
}

/// Highlight every span of a line.
fn highlight_spans(spans: &Vec<MdSpan>, q: &Vec<char>, lq: &Vec<char>) -> (r: Vec<MdSpan>)
    requires
        q@.len() > 0,
        lq@ == lowercase(q@),
    ensures
        spans_view(r@) == highlight_all(spans_view(spans@), q@),
{
    let mut out: Vec<MdSpan> = Vec::new();
    let mut i: usize = 0;
    assert(spans_view(spans@).take(0) =~= seq![]);
    while i < spans.len()
        invariant
            i <= spans.len(),
            q@.len() > 0,
            lq@ == lowercase(q@),
            spans_view(out@) == highlight_all(spans_view(spans@).take(i as int), q@),
        decreases spans.len() - i,
    {
        let ghost before = spans_view(out@);
        let mut part = highlight_span_exec(&spans[i], q, lq);
        let ghost pv = spans_view(part@);
        out.append(&mut part);
        assert(spans_view(spans@).take(i + 1).drop_last() =~= spans_view(spans@).take(i as int));
        assert(spans_view(out@) =~= before + pv);
        i = i + 1;
    }
    assert(spans_view(spans@).take(i as int) =~= spans_view(spans@));
    out
}

/// Copy a line's spans unchanged.
fn copy_spans(spans: &Vec<MdSpan>) -> (r: Vec<MdSpan>)
    ensures
        spans_view(r@) == spans_view(spans@),
{
    let mut out: Vec<MdSpan> = Vec::new();
    let mut i: usize = 0;
    while i < spans.len()
        invariant
            i <= spans.len(),
            out@.len() == i,
            forall|k: int| 0 <= k < i ==> span_view(#[trigger] out@[k]) == span_view(spans@[k]),
        decreases spans.len() - i,
    {
        out.push(copy_span(&spans[i]));
        i = i + 1;
    }
    assert(spans_view(out@) =~= spans_view(spans@));
    out
}

/// Convert a raw markdown changelog body into styled lines with the
/// case-insensitive occurrences of `query` highlighted.
pub fn changelog_to_lines_highlighted(body: &str, query: &str) -> (r: Vec<MdLine>)
    ensures
        lines_view(r@) == spec_changelog(body@).map_values(
            |l: Seq<SpanView>| highlight_line(l, query@),
        ),
{
    let lines = changelog_to_lines(body);
    let q = chars_of(query);
    let lower = to_lower(query);
    let lq = chars_of(lower.as_str());
    let mut out: Vec<MdLine> = Vec::new();
    let mut i: usize = 0;
    while i < lines.len()
        invariant
            i <= lines.len(),
            q@ == query@,
            lq@ == lowercase(q@),
            out@.len() == i,
            forall|k: int|
                0 <= k < i ==> spans_view(#[trigger] out@[k].spans@) == highlight_line(
                    spans_view(lines@[k].spans@),
                    query@,
                ),
        decreases lines.len() - i,
    {
        let spans = if q.len() == 0 {
            copy_spans(&lines[i].spans)
        } else {
            highlight_spans(&lines[i].spans, &q, &lq)
        };
        out.push(MdLine { spans });
        i = i + 1;
    }
    assert(lines_view(out@) =~= lines_view(lines@).map_values(
        |l: Seq<SpanView>| highlight_line(l, query@),
    ));
    out
}

/// Some span of the line contains `q`, ignoring case (never for an empty
/// query).
pub open spec fn spec_line_contains_match(spans: Seq<SpanView>, q: Seq<char>) -> bool {
    &&& q.len() > 0
    &&& exists|k: int| 0 <= k < spans.len() && contains_seq(lowercase(#[trigger] spans[k].text), lowercase(q))
}

/// Check if a line contains a case-insensitive match for the query.
pub fn line_contains_match(line: &MdLine, query: &str) -> (r: bool)
    ensures
        r == spec_line_contains_match(spans_view(line.spans@), query@),
{
    let q = chars_of(query);
    if q.len() == 0 {
        return false;
    }
    let lower = to_lower(query);
    let lq = chars_of(lower.as_str());
    let mut i: usize = 0;
    while i < line.spans.len()
        invariant
            i <= line.spans.len(),
            q@ == query@,
            query@.len() > 0,
            lq@ == lowercase(query@),
            forall|k: int| 0 <= k < i ==> !contains_seq(lowercase(#[trigger] spans_view(line.spans@)[k].text), lowercase(query@)),
        decreases line.spans.len() - i,
    {
        if contains_lower(line.spans[i].text.as_str(), &lq) {
            assert(spans_view(line.spans@)[i as int].text == line.spans@[i as int].text@);
            assert(contains_seq(lowercase(spans_view(line.spans@)[i as int].text), lowercase(query@)));
            return true;
        }
        i = i + 1;
    }
    false
}

/// The text of a run of spans, read in order.
pub open spec fn texts(spans: Seq<SpanView>) -> Seq<char>
    decreases spans.len(),
{
    if spans.len() == 0 {
        seq![]
    } else {
        texts(spans.drop_last()) + spans.last().text
    }
}

proof fn lemma_texts_concat(a: Seq<SpanView>, b: Seq<SpanView>)
    ensures
        texts(a + b) == texts(a) + texts(b),
    decreases b.len(),
{
    if b.len() == 0 {
        assert(a + b =~= a);
        assert(texts(a) + texts(b) =~= texts(a));
    } else {
        lemma_texts_concat(a, b.drop_last());
        assert((a + b).drop_last() =~= a + b.drop_last());
        assert((a + b).last() == b.last());
        assert(texts(a) + texts(b.drop_last()) + b.last().text =~= texts(a) + (texts(b.drop_last())
            + b.last().text));
    }
}

proof fn lemma_texts_single(x: SpanView)
    ensures
        texts(seq![x]) == x.text,
{
    assert(seq![x].drop_last() =~= Seq::<SpanView>::empty());
    assert(texts(Seq::<SpanView>::empty()) == Seq::<char>::empty());
    assert(seq![x].last() == x);
    assert(Seq::<char>::empty() + x.text =~= x.text);
}

proof fn lemma_hl_scan_text(t: Seq<char>, style: MdStyle, q: Seq<char>, p: int, last: int)
    requires
        0 <= last <= p <= t.len(),
    ensures
        texts(hl_scan(t, style, q, p, last)) == t.subrange(last, t.len() as int),
    decreases t.len() - p,
{
    if q.len() == 0 || p + q.len() > t.len() {
        if last < t.len() {
            lemma_texts_single(styled(t.subrange(last, t.len() as int), style));
        } else {
            assert(t.subrange(last, t.len() as int) =~= Seq::<char>::empty());
        }
    } else if ci_match(t, q, p) {
        let n = q.len() as int;
        lemma_hl_scan_text(t, style, q, p + n, p + n);
        let gap = if p > last {
            seq![styled(t.subrange(last, p), style)]
        } else {
            seq![]
        };
        let mid = seq![styled(t.subrange(p, p + n), MdStyle::Highlight)];
        let rest = hl_scan(t, style, q, p + n, p + n);
        lemma_texts_concat(gap + mid, rest);
        lemma_texts_concat(gap, mid);
        lemma_texts_single(styled(t.subrange(p, p + n), MdStyle::Highlight));
        if p > last {
            lemma_texts_single(styled(t.subrange(last, p), style));
        } else {
            assert(texts(gap) =~= t.subrange(last, p));
        }
        assert(t.subrange(last, p) + t.subrange(p, p + n) + t.subrange(p + n, t.len() as int)
            =~= t.subrange(last, t.len() as int));
    } else {
        lemma_hl_scan_text(t, style, q, p + 1, last);
    }
}

proof fn lemma_highlight_all_text(spans: Seq<SpanView>, q: Seq<char>)
    ensures
        texts(highlight_all(spans, q)) == texts(spans),
    decreases spans.len(),
{
    if spans.len() > 0 {
        let sp = spans.last();
        lemma_highlight_all_text(spans.drop_last(), q);
        lemma_texts_concat(highlight_all(spans.drop_last(), q), highlight_span(sp, q));
        if sp.text.len() == 0 {
            lemma_texts_single(sp);
        } else {
            lemma_hl_scan_text(sp.text, sp.style, q, 0, 0);
            assert(sp.text.subrange(0, sp.text.len() as int) =~= sp.text);
        }
    }
}

/// Highlighting only re-styles a line: the text of its spans, read in order,
/// is unchanged.
pub proof fn lemma_highlight_keeps_text(spans: Seq<SpanView>, q: Seq<char>)
    ensures
        texts(highlight_line(spans, q)) == texts(spans),
{
    if q.len() > 0 {
        lemma_highlight_all_text(spans, q);
    }
}

} // verus!
