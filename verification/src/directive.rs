//! What a line of a makefile is: an assignment, a rule, an `export`, or
//! text to expand.

use crate::args::{find_top, find_top_of};
use crate::rules::VarOp;
use crate::text::{chars_of, is_at, is_space, is_space_char, matches_at, skip_spaces, slice_of};
use crate::vars::Origin;
use vstd::prelude::*;

verus! {

/// What follows the word `kw`, if the text begins with it, after white
/// space, and the word ends there.
pub open spec fn keyword(s: Seq<char>, kw: Seq<char>) -> Option<Seq<char>> {
    let a = skip_spaces(s, 0);
    let b = a + kw.len();
    if is_at(s, a, kw) && (b == s.len() || is_space(s[b])) {
        Some(s.skip(b))
    } else {
        None
    }
}

/// What follows the word `kw` at the start of `s`, if `s` begins with it.
pub fn after_keyword(s: &Vec<char>, kw: &str) -> (r: Option<Vec<char>>)
    ensures
        match r {
            Some(t) => keyword(s@, kw@) == Some(t@),
            None => keyword(s@, kw@) is None,
        },
{
    let k = chars_of(kw);
    let mut a: usize = 0;
    while a < s.len() && is_space_char(s[a])
        invariant
            a <= s.len(),
            skip_spaces(s@, a as int) == skip_spaces(s@, 0),
        decreases s.len() - a,
    {
        a += 1;
    }
    if matches_at(s, a, &k) {
        let b = a + k.len();
        if b == s.len() || is_space_char(s[b]) {
            return Some(slice_of(s, b, s.len()));
        }
    }
    None
}

/// A line, taken apart.
#[allow(inconsistent_fields)]
pub enum Directive {
    /// `unexport` and the names it gives.
    Unexport { names: Vec<char> },
    /// `export` and the names it gives.
    Export { names: Vec<char> },
    /// An assignment; with `targets`, for those targets only.
    Assign {
        targets: Option<Vec<char>>,
        name: Vec<char>,
        op: VarOp,
        value: Vec<char>,
        export: bool,
        origin: Origin,
    },
    /// A rule: targets, `true` for `::`, prerequisites, and the recipe that
    /// follows a `;`.
    Rule { targets: Vec<char>, double: bool, prereqs: Vec<char>, recipe: Option<Vec<char>> },
    /// Anything else: text to expand.
    Bare { text: Vec<char> },
}

#[allow(inconsistent_fields)]
pub enum DirectiveView {
    Unexport { names: Seq<char> },
    Export { names: Seq<char> },
    Assign {
        targets: Option<Seq<char>>,
        name: Seq<char>,
        op: VarOp,
        value: Seq<char>,
        export: bool,
        origin: Origin,
    },
    Rule { targets: Seq<char>, double: bool, prereqs: Seq<char>, recipe: Option<Seq<char>> },
    Bare { text: Seq<char> },
}

pub open spec fn opt_view(t: Option<Vec<char>>) -> Option<Seq<char>> {
    match t {
        Some(x) => Some(x@),
        None => None,
    }
}

impl View for Directive {
    type V = DirectiveView;

    open spec fn view(&self) -> DirectiveView {
        match *self {
            Directive::Unexport { names } => DirectiveView::Unexport { names: names@ },
            Directive::Export { names } => DirectiveView::Export { names: names@ },
            Directive::Assign { targets, name, op, value, export, origin } => DirectiveView::Assign {
                targets: opt_view(targets),
                name: name@,
                op,
                value: value@,
                export,
                origin,
            },
            Directive::Rule { targets, double, prereqs, recipe } => DirectiveView::Rule {
                targets: targets@,
                double,
                prereqs: prereqs@,
                recipe: opt_view(recipe),
            },
            Directive::Bare { text } => DirectiveView::Bare { text: text@ },
        }
    }
}

/// Whether the colon at `c` begins the `:=` or `::=` whose `=` stands at `e`.
pub open spec fn begins_operator(src: Seq<char>, c: int, e: int) -> bool {
    e < src.len() && (c + 1 == e || (c + 2 == e && src[c + 1] == ':'))
}

/// Where the rule of a line has its colon: the position of the first `:`
/// outside every bracket, if no `=` outside every bracket stands before it
/// and it does not begin a `:=` or `::=`.
pub open spec fn rule_colon(src: Seq<char>) -> Option<int> {
    let c = find_top(src, ':', 0, 0);
    let e = find_top(src, '=', 0, 0);
    if c < src.len() && c < e && !begins_operator(src, c, e) {
        Some(c)
    } else {
        None
    }
}

/// Whether the colon at `c` is the first of `::`.
pub open spec fn is_double(src: Seq<char>, c: int) -> bool {
    c + 1 < src.len() && src[c + 1] == ':'
}

/// The operator that ends with the `=` at position `k`.
pub open spec fn operator_at(body: Seq<char>, k: int) -> VarOp {
    if k >= 1 && body[k - 1] == '?' {
        VarOp::StoreIfUndef
    } else if k >= 1 && body[k - 1] == '+' {
        VarOp::Append
    } else if k >= 1 && body[k - 1] == '!' {
        VarOp::Shell
    } else if k >= 1 && body[k - 1] == ':' {
        VarOp::Store(true)
    } else {
        VarOp::Store(false)
    }
}

/// Where the operator begins that ends with the `=` at position `k`.
pub open spec fn operator_start(body: Seq<char>, k: int) -> int {
    if k >= 1 && (body[k - 1] == '?' || body[k - 1] == '+' || body[k - 1] == '!') {
        k - 1
    } else if k >= 1 && body[k - 1] == ':' {
        if k >= 2 && body[k - 2] == ':' {
            k - 2
        } else {
            k - 1
        }
    } else {
        k
    }
}

/// What a line is, after its targets, if it is a rule, were taken off:
/// - with a `=` outside every bracket and before any `;`, an assignment;
/// - else, with targets, a rule;
/// - else, after `export`, an export of names;
/// - else text to expand.
pub open spec fn classify_body(
    targets: Option<Seq<char>>,
    double: bool,
    body: Seq<char>,
    export: bool,
    origin: Origin,
) -> DirectiveView {
    let e = find_top(body, '=', 0, 0);
    let semi = find_top(body, ';', 0, 0);
    if e < body.len() && e < semi {
        DirectiveView::Assign {
            targets,
            name: body.take(operator_start(body, e)),
            op: operator_at(body, e),
            value: body.skip(e + 1),
            export,
            origin,
        }
    } else if targets is Some {
        DirectiveView::Rule {
            targets: targets->0,
            double,
            prereqs: body.take(semi),
            recipe: if semi < body.len() {
                Some(body.skip(semi + 1))
            } else {
                None
            },
        }
    } else if export {
        DirectiveView::Export { names: body }
    } else {
        DirectiveView::Bare { text: body }
    }
}

/// What a line is. A rule has a colon as `rule_colon` says; what stands
/// after the colon, or the whole line, may begin with `export` or
/// `override`; a line that is no rule and begins with `unexport` unexports.
pub open spec fn classify(src: Seq<char>) -> DirectiveView {
    let colon = rule_colon(src);
    let double = colon is Some && is_double(src, colon->0);
    let targets = match colon {
        Some(c) => Some(src.take(c)),
        None => None,
    };
    let rest = match colon {
        Some(c) => src.skip(
            if double {
                c + 2
            } else {
                c + 1
            },
        ),
        None => src,
    };
    if colon is None && keyword(rest, "unexport"@) is Some {
        DirectiveView::Unexport { names: keyword(rest, "unexport"@)->0 }
    } else if keyword(rest, "export"@) is Some {
        classify_body(targets, double, keyword(rest, "export"@)->0, true, Origin::File)
    } else if keyword(rest, "override"@) is Some {
        classify_body(targets, double, keyword(rest, "override"@)->0, false, Origin::Override)
    } else {
        classify_body(targets, double, rest, false, Origin::File)
    }
}

fn classify_rest(
    targets: Option<Vec<char>>,
    double: bool,
    body: &Vec<char>,
    export: bool,
    origin: Origin,
) -> (r: Directive)
    ensures
        r@ == classify_body(opt_view(targets), double, body@, export, origin),
{
    let n = body.len();
    let e = find_top_of(body, '=', 0);
    let semi = find_top_of(body, ';', 0);
    if e < n && e < semi {
        let op = if e >= 1 && body[e - 1] == '?' {
            VarOp::StoreIfUndef
        } else if e >= 1 && body[e - 1] == '+' {
            VarOp::Append
        } else if e >= 1 && body[e - 1] == '!' {
            VarOp::Shell
        } else if e >= 1 && body[e - 1] == ':' {
            VarOp::Store(true)
        } else {
            VarOp::Store(false)
        };
        let start: usize = if e >= 1 && (body[e - 1] == '?' || body[e - 1] == '+' || body[e - 1]
            == '!') {
            e - 1
        } else if e >= 1 && body[e - 1] == ':' {
            if e >= 2 && body[e - 2] == ':' {
                e - 2
            } else {
                e - 1
            }
        } else {
            e
        };
        Directive::Assign {
            targets,
            name: slice_of(body, 0, start),
            op,
            value: slice_of(body, e + 1, n),
            export,
            origin,
        }
    } else {
        match targets {
            Some(t) => Directive::Rule {
                targets: t,
                double,
                prereqs: slice_of(body, 0, semi),
                recipe: if semi < n {
                    Some(slice_of(body, semi + 1, n))
                } else {
                    None
                },
            },
            None => {
                let all = slice_of(body, 0, n);
                assert(all@ =~= body@);
                if export {
                    Directive::Export { names: all }
                } else {
                    Directive::Bare { text: all }
                }
            },
        }
    }
}

/// Takes a line apart.
pub fn classify_line(src: &Vec<char>) -> (r: Directive)
    ensures
        r@ == classify(src@),
{
    let n = src.len();
    let c = find_top_of(src, ':', 0);
    let e = find_top_of(src, '=', 0);
    let operator = c < e && e < n && (c + 1 == e || (e >= 2 && c == e - 2 && src[c + 1] == ':'));
    let is_rule = c < n && c < e && !operator;
    let double = is_rule && c + 1 < n && src[c + 1] == ':';
    let (targets, rest) = if is_rule {
        let from: usize = if double {
            c + 2
        } else {
            c + 1
        };
        (Some(slice_of(src, 0, c)), slice_of(src, from, n))
    } else {
        let all = slice_of(src, 0, n);
        assert(all@ =~= src@);
        (None, all)
    };
    if !is_rule {
        match after_keyword(&rest, "unexport") {
            Some(names) => {
                return Directive::Unexport { names };
            },
            None => {},
        }
    }
    match after_keyword(&rest, "export") {
        Some(body) => {
            return classify_rest(targets, double, &body, true, Origin::File);
        },
        None => {},
    }
    match after_keyword(&rest, "override") {
        Some(body) => {
            return classify_rest(targets, double, &body, false, Origin::Override);
        },
        None => {},
    }
    classify_rest(targets, double, &rest, false, Origin::File)
}

} // verus!
