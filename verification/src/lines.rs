//! Logical lines: the physical lines of a makefile joined at each backslash
//! before a line end, and without their comments.

use crate::args::{is_closer, is_opener, opener_of};
use vstd::prelude::*;

verus! {

/// The position of the line end at or after `i`; the length of the text if
/// there is none.
pub open spec fn line_end(text: Seq<char>, i: int) -> int
    decreases text.len() - i,
{
    if 0 <= i < text.len() && text[i] != '\n' {
        line_end(text, i + 1)
    } else if i < text.len() {
        i
    } else {
        text.len() as int
    }
}

/// The first position at or after `i` that holds neither a space nor a tab.
pub open spec fn skip_blank(text: Seq<char>, i: int) -> int
    decreases text.len() - i,
{
    if 0 <= i < text.len() && (text[i] == ' ' || text[i] == '\t') {
        skip_blank(text, i + 1)
    } else {
        i
    }
}

/// The first position at or after `i` that holds no space.
pub open spec fn skip_space(text: Seq<char>, i: int) -> int
    decreases text.len() - i,
{
    if 0 <= i < text.len() && text[i] == ' ' {
        skip_space(text, i + 1)
    } else {
        i
    }
}

pub proof fn lemma_line_end(text: Seq<char>, i: int)
    requires
        0 <= i <= text.len(),
    ensures
        i <= line_end(text, i) <= text.len(),
    decreases text.len() - i,
{
    if i < text.len() && text[i] != '\n' {
        lemma_line_end(text, i + 1);
    }
}

pub proof fn lemma_skip_blank(text: Seq<char>, i: int)
    requires
        0 <= i <= text.len(),
    ensures
        i <= skip_blank(text, i) <= text.len(),
    decreases text.len() - i,
{
    if i < text.len() && (text[i] == ' ' || text[i] == '\t') {
        lemma_skip_blank(text, i + 1);
    }
}

pub proof fn lemma_skip_space(text: Seq<char>, i: int)
    requires
        0 <= i <= text.len(),
    ensures
        i <= skip_space(text, i) <= text.len(),
    decreases text.len() - i,
{
    if i < text.len() && text[i] == ' ' {
        lemma_skip_space(text, i + 1);
    }
}

/// The position after the line end at or after `i`.
pub open spec fn after_line(text: Seq<char>, i: int) -> int {
    let e = line_end(text, i);
    if e < text.len() {
        e + 1
    } else {
        e
    }
}

/// What has been read of a logical line.
pub struct Scan {
    /// The line so far.
    pub out: Seq<char>,
    /// Inside `'..'`.
    pub single: bool,
    /// Inside `".."`.
    pub double: bool,
    /// The brackets that are open, from a `$(` or `${` on.
    pub stack: Seq<char>,
    /// The length that the line had before a backslash after which the
    /// physical line has held nothing but spaces and tabs.
    pub mark: Option<int>,
    /// The line ends that were read.
    pub lines: nat,
}

/// A logical line, where it started and where the next one starts.
pub struct LineView {
    pub text: Seq<char>,
    /// The number of the physical line with which the logical line starts.
    pub line: usize,
    /// The position after the logical line.
    pub next: int,
    /// How many physical lines lie before `next`.
    pub line_no: usize,
}

/// `n + k`, or the largest number there is if that is less.
pub open spec fn bump(n: usize, k: nat) -> usize {
    if n + k > usize::MAX {
        usize::MAX
    } else {
        (n + k) as usize
    }
}

fn bumped(n: usize, k: usize) -> (r: usize)
    ensures
        r == bump(n, k as nat),
{
    if n > usize::MAX - k {
        usize::MAX
    } else {
        n + k
    }
}

/// The rest of a logical line from position `pos` on:
/// - a line end ends it;
/// - a backslash before a line end joins the next physical line, without
///   the spaces and tabs at its start; a next line that begins with `#` is
///   dropped and ends the logical line;
/// - outside quotes, brackets and recipes a `#` begins a comment, which
///   goes to the line end; the logical line ends there, unless the last
///   character before the comment that is no space or tab is a backslash:
///   then that backslash and what follows it go, and the next physical
///   line is joined;
/// - `'` and `"` begin and end quotes; outside quotes `$(` and `${` open a
///   bracket, inside a bracket `(` and `{` do, and `)` and `}` close the
///   bracket of their own kind that was opened last.
pub open spec fn scan(text: Seq<char>, pos: int, st: Scan, recipe: bool) -> (Seq<char>, int, nat)
    decreases text.len() - pos,
{
    if pos < 0 || pos >= text.len() {
        (st.out, text.len() as int, st.lines)
    } else {
        let c = text[pos];
        let plain = !st.single && !st.double;
        if c == '\n' {
            (st.out, pos + 1, st.lines + 1)
        } else if c == '\\' && pos + 1 < text.len() && text[pos + 1] == '\n' {
            if pos + 2 < text.len() && text[pos + 2] == '#' {
                (st.out, after_line(text, pos + 2), st.lines + 2)
            } else {
                proof {
                    lemma_skip_blank(text, pos + 2);
                }
                scan(
                    text,
                    skip_blank(text, pos + 2),
                    Scan { mark: None, lines: st.lines + 1, ..st },
                    recipe,
                )
            }
        } else if c == '#' && plain && st.stack.len() == 0 && !recipe {
            let e = line_end(text, pos);
            match st.mark {
                Some(m) => if e < text.len() {
                    proof {
                        lemma_line_end(text, pos);
                        lemma_skip_blank(text, e + 1);
                    }
                    scan(
                        text,
                        skip_blank(text, e + 1),
                        Scan { out: st.out.take(m), mark: None, lines: st.lines + 1, ..st },
                        recipe,
                    )
                } else {
                    (st.out.take(m), text.len() as int, st.lines)
                },
                None => (st.out, after_line(text, pos), if e < text.len() {
                    st.lines + 1
                } else {
                    st.lines
                }),
            }
        } else if c == '\'' && !st.double {
            scan(
                text,
                pos + 1,
                Scan { out: st.out.push(c), single: !st.single, mark: None, ..st },
                recipe,
            )
        } else if c == '"' && !st.single {
            scan(
                text,
                pos + 1,
                Scan { out: st.out.push(c), double: !st.double, mark: None, ..st },
                recipe,
            )
        } else if plain && c == '$' && pos + 1 < text.len() && is_opener(text[pos + 1]) {
            scan(
                text,
                pos + 2,
                Scan {
                    out: st.out.push(c).push(text[pos + 1]),
                    stack: st.stack.push(text[pos + 1]),
                    mark: None,
                    ..st
                },
                recipe,
            )
        } else if plain && st.stack.len() > 0 && is_opener(c) {
            scan(
                text,
                pos + 1,
                Scan { out: st.out.push(c), stack: st.stack.push(c), mark: None, ..st },
                recipe,
            )
        } else if plain && st.stack.len() > 0 && is_closer(c) && st.stack.last() == opener_of(c) {
            scan(
                text,
                pos + 1,
                Scan { out: st.out.push(c), stack: st.stack.drop_last(), mark: None, ..st },
                recipe,
            )
        } else if c == '\\' {
            scan(
                text,
                pos + 1,
                Scan { out: st.out.push(c), mark: Some(st.out.len() as int), ..st },
                recipe,
            )
        } else if c == ' ' || c == '\t' {
            scan(text, pos + 1, Scan { out: st.out.push(c), ..st }, recipe)
        } else {
            scan(text, pos + 1, Scan { out: st.out.push(c), mark: None, ..st }, recipe)
        }
    }
}

pub open spec fn fresh() -> Scan {
    Scan {
        out: Seq::empty(),
        single: false,
        double: false,
        stack: Seq::empty(),
        mark: None,
        lines: 0,
    }
}

/// Where the logical line at `pos` begins to be read: after a byte-order
/// mark at the start of the file, and, unless the line begins with a tab,
/// after the spaces at its start.
pub open spec fn line_start(text: Seq<char>, pos: int, line_no: usize) -> int {
    let p = if line_no == 0 && 0 <= pos < text.len() && text[pos] == '\u{feff}' {
        pos + 1
    } else {
        pos
    };
    skip_space(text, p)
}

/// The logical line that begins at `pos`, before which `line_no` physical
/// lines lie. A physical line that begins with `#` is an empty logical line.
pub open spec fn logical_line(text: Seq<char>, pos: int, line_no: usize) -> LineView {
    let p = line_start(text, pos, line_no);
    if p < 0 || p >= text.len() {
        LineView { text: Seq::empty(), line: bump(line_no, 1), next: text.len() as int, line_no }
    } else if text[p] == '#' {
        LineView {
            text: Seq::empty(),
            line: bump(line_no, 1),
            next: after_line(text, p),
            line_no: bump(line_no, 1),
        }
    } else {
        let (out, next, lines) = scan(text, p, fresh(), text[p] == '\t');
        LineView { text: out, line: bump(line_no, 1), next, line_no: bump(line_no, lines) }
    }
}

/// A logical line as it was read.
pub struct LogicalLine {
    pub text: Vec<char>,
    pub line: usize,
    pub next: usize,
    pub line_no: usize,
}

impl View for LogicalLine {
    type V = LineView;

    open spec fn view(&self) -> LineView {
        LineView {
            text: self.text@,
            line: self.line,
            next: self.next as int,
            line_no: self.line_no,
        }
    }
}

fn find_line_end(text: &Vec<char>, from: usize) -> (r: usize)
    requires
        from <= text.len(),
    ensures
        r == line_end(text@, from as int),
        from <= r <= text.len(),
{
    let mut i: usize = from;
    while i < text.len() && text[i] != '\n'
        invariant
            from <= i <= text.len(),
            line_end(text@, i as int) == line_end(text@, from as int),
        decreases text.len() - i,
    {
        i += 1;
    }
    i
}

fn after_blank(text: &Vec<char>, from: usize) -> (r: usize)
    requires
        from <= text.len(),
    ensures
        r == skip_blank(text@, from as int),
        from <= r <= text.len(),
{
    let mut i: usize = from;
    while i < text.len() && (text[i] == ' ' || text[i] == '\t')
        invariant
            from <= i <= text.len(),
            skip_blank(text@, i as int) == skip_blank(text@, from as int),
        decreases text.len() - i,
    {
        i += 1;
    }
    i
}

fn after_space(text: &Vec<char>, from: usize) -> (r: usize)
    requires
        from <= text.len(),
    ensures
        r == skip_space(text@, from as int),
        from <= r <= text.len(),
{
    let mut i: usize = from;
    while i < text.len() && text[i] == ' '
        invariant
            from <= i <= text.len(),
            skip_space(text@, i as int) == skip_space(text@, from as int),
        decreases text.len() - i,
    {
        i += 1;
    }
    i
}

fn after_line_of(text: &Vec<char>, from: usize) -> (r: usize)
    requires
        from <= text.len(),
    ensures
        r == after_line(text@, from as int),
        from <= r <= text.len(),
        from < text.len() ==> from < r,
{
    let e = find_line_end(text, from);
    if e < text.len() {
        e + 1
    } else {
        e
    }
}

/// Reads the logical line that begins at `pos`, before which `line_no`
/// physical lines lie.
pub fn read_logical_line(text: &Vec<char>, pos: usize, line_no: usize) -> (r: LogicalLine)
    ensures
        r@ == logical_line(text@, pos as int, line_no),
        r.next <= text.len(),
        pos < text.len() ==> pos < r.next,
{
    if pos >= text.len() {
        return LogicalLine {
            text: Vec::new(),
            line: bumped(line_no, 1),
            next: text.len(),
            line_no,
        };
    }
    let p0: usize = if line_no == 0 && pos < text.len() && text[pos] == '\u{feff}' {
        pos + 1
    } else {
        pos
    };
    let p = after_space(text, p0);
    if p >= text.len() {
        return LogicalLine {
            text: Vec::new(),
            line: bumped(line_no, 1),
            next: text.len(),
            line_no,
        };
    }
    if text[p] == '#' {
        return LogicalLine {
            text: Vec::new(),
            line: bumped(line_no, 1),
            next: after_line_of(text, p),
            line_no: bumped(line_no, 1),
        };
    }
    let recipe = text[p] == '\t';
    let mut out: Vec<char> = Vec::new();
    let mut single = false;
    let mut double = false;
    let mut stack: Vec<char> = Vec::new();
    let mut mark: Option<usize> = None;
    let mut lines: usize = 0;
    let mut i: usize = p;
    let ghost goal = scan(text@, p as int, fresh(), recipe);
    loop
        invariant
            p <= i <= text.len(),
            p < text.len(),
            pos <= p,
            lines <= i - p,
            p == line_start(text@, pos as int, line_no),
            text@[p as int] != '#',
            recipe == (text@[p as int] == '\t'),
            goal == scan(text@, p as int, fresh(), recipe),
            match mark {
                Some(m) => m <= out.len(),
                None => true,
            },
            scan(
                text@,
                i as int,
                Scan {
                    out: out@,
                    single,
                    double,
                    stack: stack@,
                    mark: match mark {
                        Some(m) => Some(m as int),
                        None => None,
                    },
                    lines: lines as nat,
                },
                recipe,
            ) == goal,
        decreases text.len() - i,
    {
        if i >= text.len() {
            return LogicalLine {
                text: out,
                line: bumped(line_no, 1),
                next: text.len(),
                line_no: bumped(line_no, lines),
            };
        }
        let c = text[i];
        let plain = !single && !double;
        if c == '\n' {
            return LogicalLine {
                text: out,
                line: bumped(line_no, 1),
                next: i + 1,
                line_no: bumped(line_no, lines + 1),
            };
        } else if c == '\\' && i + 1 < text.len() && text[i + 1] == '\n' {
            if i + 2 < text.len() && text[i + 2] == '#' {
                return LogicalLine {
                    text: out,
                    line: bumped(line_no, 1),
                    next: after_line_of(text, i + 2),
                    line_no: bumped(line_no, lines + 2),
                };
            }
            i = after_blank(text, i + 2);
            mark = None;
            lines = lines + 1;
        } else if c == '#' && plain && stack.len() == 0 && !recipe {
            let e = find_line_end(text, i);
            match mark {
                Some(m) => {
                    let ghost before = out@;
                    out.truncate(m);
                    assert(out@ =~= before.take(m as int));
                    if e < text.len() {
                        i = after_blank(text, e + 1);
                        mark = None;
                        lines = lines + 1;
                    } else {
                        return LogicalLine {
                            text: out,
                            line: bumped(line_no, 1),
                            next: text.len(),
                            line_no: bumped(line_no, lines),
                        };
                    }
                },
                None => {
                    return LogicalLine {
                        text: out,
                        line: bumped(line_no, 1),
                        next: if e < text.len() {
                            e + 1
                        } else {
                            e
                        },
                        line_no: if e < text.len() {
                            bumped(line_no, lines + 1)
                        } else {
                            bumped(line_no, lines)
                        },
                    };
                },
            }
        } else if c == '\'' && !double {
            out.push(c);
            single = !single;
            mark = None;
            i += 1;
        } else if c == '"' && !single {
            out.push(c);
            double = !double;
            mark = None;
            i += 1;
        } else if plain && c == '$' && i + 1 < text.len() && (text[i + 1] == '(' || text[i + 1]
            == '{') {
            out.push(c);
            out.push(text[i + 1]);
            stack.push(text[i + 1]);
            mark = None;
            i += 2;
        } else if plain && stack.len() > 0 && (c == '(' || c == '{') {
            out.push(c);
            stack.push(c);
            mark = None;
            i += 1;
        } else if plain && stack.len() > 0 && (c == ')' || c == '}') && stack[stack.len() - 1] == (
        if c == ')' {
            '('
        } else {
            '{'
        }) {
            out.push(c);
            stack.pop();
            mark = None;
            i += 1;
        } else if c == '\\' {
            mark = Some(out.len());
            out.push(c);
            i += 1;
        } else if c == ' ' || c == '\t' {
            out.push(c);
            i += 1;
        } else {
            out.push(c);
            mark = None;
            i += 1;
        }
    }
}

} // verus!
