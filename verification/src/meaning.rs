//! What expansion means: the value of a text, and what evaluating it does to
//! the store and the host, as functions of the text, the store and the
//! answers of the host.
//!
//! `fuel` bounds how deeply references are followed: each reference, each
//! function and each reading of a recursive variable takes some of it, and an
//! evaluation that runs out of it ends with the error `TooDeep`.

use crate::args::{all_args, args, close_of, find_top, is_opener, lemma_close_of_bounds};
use crate::fault::{fatal_about, fatal_at, stop_at, FatalKind, FatalView, StopView};
use crate::funcs::{
    addprefix, addsuffix, findstring, firstword, join, lastword, strip, subst, word, word_count,
    wordlist, IndexFault,
};
use crate::host::{AnswerView, EvalView, RequestView, Stream};
use crate::number::{decimal, signed_decimal};
use crate::paths::{parts, Part};
use crate::pattern::{patsubst, substref};
use crate::sort::sort;
use crate::store::StoreView;
use crate::text::trim;
use crate::vars::{Flavor, LocationView, Origin, VarView};
use crate::words::{join_leading, join_single, words};
use vstd::prelude::*;

verus! {

/// The functions that a reference can call.
#[derive(Clone, Copy, Debug, PartialEq, Eq, Structural)]
pub enum Builtin {
    Info,
    Shell,
    Subst,
    Warning,
    BaseName,
    AddPrefix,
    AddSuffix,
    Sort,
    FirstWord,
    LastWord,
    Words,
    Word,
    WordList,
    Suffix,
    Join,
    NotDir,
    Dir,
    AbsPath,
    FindString,
    Error,
    Call,
    Flavor,
    Origin,
    ForEach,
    PatSubst,
    Strip,
    WildCard,
    Value,
}

/// The function of a name, if it names one.
pub open spec fn builtin_named(name: Seq<char>) -> Option<Builtin> {
    if name == "info"@ {
        Some(Builtin::Info)
    } else if name == "shell"@ {
        Some(Builtin::Shell)
    } else if name == "subst"@ {
        Some(Builtin::Subst)
    } else if name == "warning"@ {
        Some(Builtin::Warning)
    } else if name == "basename"@ {
        Some(Builtin::BaseName)
    } else if name == "addprefix"@ {
        Some(Builtin::AddPrefix)
    } else if name == "addsuffix"@ {
        Some(Builtin::AddSuffix)
    } else if name == "sort"@ {
        Some(Builtin::Sort)
    } else if name == "firstword"@ {
        Some(Builtin::FirstWord)
    } else if name == "lastword"@ {
        Some(Builtin::LastWord)
    } else if name == "words"@ {
        Some(Builtin::Words)
    } else if name == "word"@ {
        Some(Builtin::Word)
    } else if name == "wordlist"@ {
        Some(Builtin::WordList)
    } else if name == "suffix"@ {
        Some(Builtin::Suffix)
    } else if name == "join"@ {
        Some(Builtin::Join)
    } else if name == "notdir"@ {
        Some(Builtin::NotDir)
    } else if name == "dir"@ {
        Some(Builtin::Dir)
    } else if name == "abspath"@ {
        Some(Builtin::AbsPath)
    } else if name == "findstring"@ {
        Some(Builtin::FindString)
    } else if name == "error"@ {
        Some(Builtin::Error)
    } else if name == "call"@ {
        Some(Builtin::Call)
    } else if name == "flavor"@ {
        Some(Builtin::Flavor)
    } else if name == "origin"@ {
        Some(Builtin::Origin)
    } else if name == "foreach"@ {
        Some(Builtin::ForEach)
    } else if name == "patsubst"@ {
        Some(Builtin::PatSubst)
    } else if name == "strip"@ {
        Some(Builtin::Strip)
    } else if name == "wildcard"@ {
        Some(Builtin::WildCard)
    } else if name == "value"@ {
        Some(Builtin::Value)
    } else {
        None
    }
}

/// How a function gets its arguments.
#[derive(Clone, Copy, Debug, PartialEq, Eq, Structural)]
pub enum Shape {
    /// All that follows the name is one argument, which is expanded.
    One,
    /// As `One`, but the white space at the ends goes before the expansion.
    OneTrimmed,
    /// This many arguments, parted by commas, each expanded.
    Many(usize),
    /// As `Many`, each argument without the white space at its ends.
    ManyTrimmed(usize),
    /// `call`.
    Call,
    /// `foreach`.
    ForEach,
}

pub open spec fn shape_of(f: Builtin) -> Shape {
    match f {
        Builtin::Flavor | Builtin::Origin => Shape::OneTrimmed,
        Builtin::Subst | Builtin::WordList => Shape::Many(3),
        Builtin::PatSubst => Shape::ManyTrimmed(3),
        Builtin::FindString | Builtin::Word | Builtin::AddPrefix | Builtin::AddSuffix
        | Builtin::Join => Shape::Many(2),
        Builtin::Call => Shape::Call,
        Builtin::ForEach => Shape::ForEach,
        _ => Shape::One,
    }
}

/// The name under which a function reports too few arguments.
pub open spec fn name_of(f: Builtin) -> Seq<char> {
    match f {
        Builtin::Subst => "subst"@,
        Builtin::WordList => "wordlist"@,
        Builtin::PatSubst => "patsubst"@,
        Builtin::FindString => "findstring"@,
        Builtin::Word => "word"@,
        Builtin::AddPrefix => "addprefix"@,
        Builtin::AddSuffix => "addsuffix"@,
        Builtin::Join => "join"@,
        Builtin::ForEach => "foreach"@,
        _ => "call"@,
    }
}

/// A value, or why there is none, and the state in which the evaluation
/// leaves the store and the host.
pub struct Step {
    pub result: Result<Seq<char>, StopView>,
    pub ev: EvalView,
}

/// As `Step`, for a list of values.
pub struct ListStep {
    pub result: Result<Seq<Seq<char>>, StopView>,
    pub ev: EvalView,
}

/// The error of an evaluation that has run out of `fuel`.
pub open spec fn too_deep(ev: EvalView, loc: LocationView) -> Step {
    Step { result: Err(stop_at(FatalKind::TooDeep, loc)), ev }
}

/// As `too_deep`, for a list of values.
pub open spec fn too_deep_list(ev: EvalView, loc: LocationView) -> ListStep {
    ListStep { result: Err(stop_at(FatalKind::TooDeep, loc)), ev }
}

/// `flavor`: how the variable is read.
pub open spec fn flavor_tag(v: Option<VarView>) -> Seq<char> {
    match v {
        Some(c) => match c.flavor {
            Flavor::Simple => "simple"@,
            Flavor::Recursive => "recursive"@,
            Flavor::Undefined => "undefined"@,
        },
        None => "undefined"@,
    }
}

/// `origin`: where the variable's definition comes from.
pub open spec fn origin_tag(v: Option<VarView>) -> Seq<char> {
    match v {
        Some(c) => match c.origin {
            Origin::Default => "default"@,
            Origin::Env => "environment"@,
            Origin::EnvOverride => "environment override"@,
            Origin::File => "file"@,
            Origin::CmdLine => "command line"@,
            Origin::Override => "override"@,
            Origin::Automatic => "automatic"@,
            Origin::Undefined => "undefined"@,
        },
        None => "undefined"@,
    }
}

/// What a command printed, as `shell` gives it: without the line end at its
/// end, and with a space for each line end inside.
pub open spec fn shell_text(text: Seq<char>) -> Seq<char> {
    let t = if text.len() > 0 && text.last() == '\n' {
        text.drop_last()
    } else {
        text
    };
    Seq::new(
        t.len(),
        |i: int|
            if t[i] == '\n' {
                ' '
            } else {
                t[i]
            },
    )
}

/// The cell in which `shell` leaves the exit status of the command.
pub open spec fn status_cell(loc: LocationView, status: i32) -> VarView {
    VarView {
        flavor: Flavor::Simple,
        origin: Origin::Env,
        loc: Some(loc),
        name: ".SHELLSTATUS"@,
        value: signed_decimal(status as int),
        exported: false,
        unexported: false,
        ex_exported: false,
    }
}

/// The cell of an argument of `call`, or of the variable of a `foreach`.
pub open spec fn bound_cell(
    name: Seq<char>,
    value: Seq<char>,
    origin: Origin,
    loc: LocationView,
) -> VarView {
    VarView {
        flavor: Flavor::Simple,
        origin,
        loc: Some(loc),
        name,
        value,
        exported: false,
        unexported: false,
        ex_exported: false,
    }
}

/// The store after the innermost frame has bound the arguments of a `call`
/// from number `i + 1` on.
pub open spec fn bind_positional(
    vars: StoreView,
    loc: LocationView,
    vals: Seq<Seq<char>>,
    i: int,
) -> StoreView
    decreases vals.len() - i,
{
    if i < 0 || i >= vals.len() {
        vars
    } else {
        bind_positional(
            vars.bind(bound_cell(decimal((i + 1) as nat), vals[i], Origin::Automatic, loc)),
            loc,
            vals,
            i + 1,
        )
    }
}

/// The line of a `warning`.
pub open spec fn warning_line(loc: LocationView, text: Seq<char>) -> Seq<char> {
    loc.file_name + seq![':'] + decimal(loc.line as nat) + ": "@ + text
}

/// What a function of one argument gives that needs nothing but the argument.
pub open spec fn pure_one(f: Builtin, arg: Seq<char>) -> Seq<char> {
    match f {
        Builtin::Strip => strip(arg),
        Builtin::Sort => sort(arg),
        Builtin::FirstWord => firstword(arg),
        Builtin::LastWord => lastword(arg),
        Builtin::Words => word_count(arg),
        Builtin::Dir => parts(Part::Dir, arg),
        Builtin::NotDir => parts(Part::NotDir, arg),
        Builtin::BaseName => parts(Part::BaseName, arg),
        Builtin::Suffix => parts(Part::Suffix, arg),
        _ => Seq::empty(),
    }
}

/// The error of `word` or `wordlist` for an index that it refuses.
pub open spec fn index_fault(
    loc: LocationView,
    f: Builtin,
    fault: IndexFault,
    a: Seq<Seq<char>>,
) -> FatalView {
    match fault {
        IndexFault::FirstNotNumber => FatalView {
            kind: FatalKind::FirstNotNumber,
            loc,
            text: a[0],
            other: name_of(f),
            number: 0,
        },
        IndexFault::SecondNotNumber => FatalView {
            kind: FatalKind::SecondNotNumber,
            loc,
            text: a[1],
            other: name_of(f),
            number: 0,
        },
        IndexFault::FirstZero => fatal_at(
            if f == Builtin::Word {
                FatalKind::WordZero
            } else {
                FatalKind::WordListZero
            },
            loc,
        ),
    }
}

/// What a function of several arguments gives, from the expanded arguments.
pub open spec fn pure_many(loc: LocationView, f: Builtin, a: Seq<Seq<char>>) -> Result<
    Seq<char>,
    FatalView,
> {
    match f {
        Builtin::Subst => Ok(subst(a[0], a[1], a[2])),
        Builtin::PatSubst => Ok(patsubst(a[0], a[1], a[2])),
        Builtin::FindString => Ok(findstring(a[0], a[1])),
        Builtin::AddPrefix => Ok(addprefix(a[0], a[1])),
        Builtin::AddSuffix => Ok(addsuffix(a[0], a[1])),
        Builtin::Join => Ok(join(a[0], a[1])),
        Builtin::Word => match word(a[0], a[1]) {
            Ok(t) => Ok(t),
            Err(e) => Err(index_fault(loc, f, e, a)),
        },
        Builtin::WordList => match wordlist(a[0], a[1], a[2]) {
            Ok(t) => Ok(t),
            Err(e) => Err(index_fault(loc, f, e, a)),
        },
        _ => Ok(Seq::empty()),
    }
}

/// Each text without the white space at its ends.
pub open spec fn trim_all(a: Seq<Seq<char>>) -> Seq<Seq<char>> {
    Seq::new(a.len(), |i: int| trim(a[i]))
}

/// `abspath`: the canonical form of each word from number `i` on, as the
/// host gives it; nothing for a path that is not there.
pub open spec fn canonical_from(
    ev: EvalView,
    loc: LocationView,
    ws: Seq<Seq<char>>,
    i: int,
    acc: Seq<Seq<char>>,
) -> ListStep
    decreases ws.len() - i,
{
    if i < 0 || i >= ws.len() {
        ListStep { result: Ok(acc), ev }
    } else {
        match ev.host.next() {
            None => ListStep {
                result: Err(StopView::Need(RequestView::Canonical { path: ws[i] })),
                ev,
            },
            Some(a) => {
                let ev1 = EvalView { host: ev.host.advance(), ..ev };
                match a {
                    AnswerView::Text { text } => canonical_from(ev1, loc, ws, i + 1, acc.push(text)),
                    AnswerView::Missing => canonical_from(
                        ev1,
                        loc,
                        ws,
                        i + 1,
                        acc.push(Seq::empty()),
                    ),
                    _ => ListStep { result: Err(stop_at(FatalKind::BadAnswer, loc)), ev: ev1 },
                }
            },
        }
    }
}

/// `wildcard`: the paths that match, as the host gives them, with single
/// spaces between them.
pub open spec fn wildcard(ev: EvalView, loc: LocationView, pattern: Seq<char>) -> Step {
    match ev.host.next() {
        None => Step { result: Err(StopView::Need(RequestView::Wildcard { pattern })), ev },
        Some(a) => {
            let ev1 = EvalView { host: ev.host.advance(), ..ev };
            match a {
                AnswerView::Paths { paths } => Step { result: Ok(join_single(paths)), ev: ev1 },
                AnswerView::Refused => Step {
                    result: Err(
                        StopView::Fatal(fatal_about(FatalKind::BadPattern, loc, pattern)),
                    ),
                    ev: ev1,
                },
                _ => Step { result: Err(stop_at(FatalKind::BadAnswer, loc)), ev: ev1 },
            }
        },
    }
}

/// The position after the reference whose `$` stands just before `p`.
pub open spec fn dollar_end(text: Seq<char>, p: int) -> int {
    if p < 0 || p >= text.len() {
        p
    } else if is_opener(text[p]) {
        match close_of(text, p + 1, seq![text[p]]) {
            Some(e) => e + 1,
            None => text.len() as int,
        }
    } else {
        p + 1
    }
}

pub proof fn lemma_dollar_end(text: Seq<char>, p: int)
    requires
        0 <= p,
    ensures
        p <= dollar_end(text, p),
        p < text.len() ==> p < dollar_end(text, p) <= text.len(),
{
    if p < text.len() && is_opener(text[p]) {
        lemma_close_of_bounds(text, p + 1, seq![text[p]]);
    }
}

/// The value of `text`: its characters, with each reference replaced by its
/// value, from left to right.
pub open spec fn expand(ev: EvalView, loc: LocationView, text: Seq<char>, fuel: nat) -> Step
    decreases fuel, text.len() + 2,
{
    expand_from(ev, loc, text, 0, Seq::empty(), fuel)
}

/// The value of `text` from position `pos` on, after `out`.
pub open spec fn expand_from(
    ev: EvalView,
    loc: LocationView,
    text: Seq<char>,
    pos: int,
    out: Seq<char>,
    fuel: nat,
) -> Step
    decreases fuel, text.len() - pos + 1,
{
    if pos < 0 || pos >= text.len() {
        Step { result: Ok(out), ev }
    } else if text[pos] != '$' {
        expand_from(ev, loc, text, pos + 1, out.push(text[pos]), fuel)
    } else {
        let d = dollar(ev, loc, text, pos + 1, fuel);
        match d.result {
            Err(e) => d,
            Ok(value) => {
                proof {
                    lemma_dollar_end(text, pos + 1);
                }
                expand_from(d.ev, loc, text, dollar_end(text, pos + 1), out + value, fuel)
            },
        }
    }
}

/// The value of the reference whose `$` stands just before `p`:
/// - `$$`, and a `$` at the end of the text, is a `$`;
/// - `$(..)` and `${..}` is the value of what the brackets hold;
/// - `$` and one other character is the value of the variable of that name.
pub open spec fn dollar(ev: EvalView, loc: LocationView, text: Seq<char>, p: int, fuel: nat) -> Step
    decreases fuel, 0int,
{
    if fuel == 0 {
        too_deep(ev, loc)
    } else if p < 0 || p >= text.len() || text[p] == '$' {
        Step { result: Ok(seq!['$']), ev }
    } else if is_opener(text[p]) {
        match close_of(text, p + 1, seq![text[p]]) {
            None => Step { result: Err(stop_at(FatalKind::Unterminated, loc)), ev },
            Some(e) => reference(ev, loc, text.subrange(p + 1, e), (fuel - 1) as nat),
        }
    } else {
        read(ev, loc, seq![text[p]], (fuel - 1) as nat)
    }
}

/// The value of the variable `name`: nothing if there is none.
pub open spec fn read(ev: EvalView, loc: LocationView, name: Seq<char>, fuel: nat) -> Step
    decreases fuel, 1int,
{
    match ev.vars.get(name) {
        None => Step { result: Ok(Seq::empty()), ev },
        Some(v) => eval(ev, loc, v, fuel),
    }
}

/// The value of a cell: what it holds, expanded if the cell is recursive, at
/// the place of its definition if it has one.
pub open spec fn eval(ev: EvalView, loc: LocationView, v: VarView, fuel: nat) -> Step
    decreases fuel, 0int,
{
    if v.flavor == Flavor::Recursive {
        if fuel == 0 {
            too_deep(ev, loc)
        } else {
            expand(
                ev,
                match v.loc {
                    Some(l) => l,
                    None => loc,
                },
                v.value,
                (fuel - 1) as nat,
            )
        }
    } else {
        Step { result: Ok(v.value), ev }
    }
}

/// The value of what the brackets of a reference hold:
/// - with a `:` outside every bracket and a `=` after it, a substitution
///   reference;
/// - else, where a space stands outside every bracket and what precedes the
///   first such space names a function, the value of that function for what
///   follows the space;
/// - else the value of the variable whose name is the value of the whole.
pub open spec fn reference(ev: EvalView, loc: LocationView, content: Seq<char>, fuel: nat) -> Step
    decreases fuel, 0int,
{
    let colon = find_top(content, ':', 0, 0);
    let eq = find_top(content, '=', colon + 1, 0);
    let sp = find_top(content, ' ', 0, 0);
    if fuel == 0 {
        too_deep(ev, loc)
    } else if colon < content.len() && eq < content.len() {
        substitution(
            ev,
            loc,
            content.take(colon),
            content.subrange(colon + 1, eq),
            content.skip(eq + 1),
            (fuel - 1) as nat,
        )
    } else if sp < content.len() && builtin_named(trim(content.take(sp))) is Some {
        function(
            ev,
            loc,
            builtin_named(trim(content.take(sp)))->0,
            content.skip(sp + 1),
            (fuel - 1) as nat,
        )
    } else {
        let n = expand(ev, loc, trim(content), (fuel - 1) as nat);
        match n.result {
            Err(e) => n,
            Ok(name) => read(n.ev, loc, name, (fuel - 1) as nat),
        }
    }
}

/// The value of the substitution reference `var:pat=repl`: the pattern, the
/// replacement and the name are expanded, in this order, and the words of
/// the variable's value are replaced.
pub open spec fn substitution(
    ev: EvalView,
    loc: LocationView,
    var: Seq<char>,
    pat: Seq<char>,
    repl: Seq<char>,
    fuel: nat,
) -> Step
    decreases fuel, 0int,
{
    if fuel == 0 {
        too_deep(ev, loc)
    } else {
        let p = expand(ev, loc, trim(pat), (fuel - 1) as nat);
        match p.result {
            Err(e) => p,
            Ok(pt) => {
                let r = expand(p.ev, loc, trim(repl), (fuel - 1) as nat);
                match r.result {
                    Err(e) => r,
                    Ok(rt) => {
                        let n = expand(r.ev, loc, trim(var), (fuel - 1) as nat);
                        match n.result {
                            Err(e) => n,
                            Ok(name) => {
                                let v = read(n.ev, loc, name, (fuel - 1) as nat);
                                match v.result {
                                    Err(e) => v,
                                    Ok(value) => Step {
                                        result: Ok(substref(pt, rt, value)),
                                        ev: v.ev,
                                    },
                                }
                            },
                        }
                    },
                }
            },
        }
    }
}

/// The values of the texts of `items` from number `i` on, after `acc`.
pub open spec fn expand_list(
    ev: EvalView,
    loc: LocationView,
    items: Seq<Seq<char>>,
    i: int,
    acc: Seq<Seq<char>>,
    fuel: nat,
) -> ListStep
    decreases fuel, items.len() - i,
{
    if i < 0 || i >= items.len() {
        ListStep { result: Ok(acc), ev }
    } else if fuel == 0 {
        too_deep_list(ev, loc)
    } else {
        let r = expand(ev, loc, items[i], (fuel - 1) as nat);
        match r.result {
            Err(e) => ListStep { result: Err(e), ev: r.ev },
            Ok(t) => expand_list(r.ev, loc, items, i + 1, acc.push(t), fuel),
        }
    }
}

/// The value of the function `f` for `body`, the text after its name.
pub open spec fn function(
    ev: EvalView,
    loc: LocationView,
    f: Builtin,
    body: Seq<char>,
    fuel: nat,
) -> Step
    decreases fuel, 0int,
{
    if fuel == 0 {
        too_deep(ev, loc)
    } else {
        match shape_of(f) {
            Shape::One => {
                let a = expand(ev, loc, body, (fuel - 1) as nat);
                match a.result {
                    Err(e) => a,
                    Ok(arg) => apply_one(a.ev, loc, f, arg, (fuel - 1) as nat),
                }
            },
            Shape::OneTrimmed => {
                let a = expand(ev, loc, trim(body), (fuel - 1) as nat);
                match a.result {
                    Err(e) => a,
                    Ok(arg) => apply_one(a.ev, loc, f, arg, (fuel - 1) as nat),
                }
            },
            Shape::Many(n) => match args(loc, name_of(f), n, body) {
                Err(e) => Step { result: Err(StopView::Fatal(e)), ev },
                Ok(raw) => {
                    let l = expand_list(ev, loc, raw, 0, Seq::empty(), (fuel - 1) as nat);
                    match l.result {
                        Err(e) => Step { result: Err(e), ev: l.ev },
                        Ok(vals) => Step {
                            result: match pure_many(loc, f, vals) {
                                Ok(t) => Ok(t),
                                Err(e) => Err(StopView::Fatal(e)),
                            },
                            ev: l.ev,
                        },
                    }
                },
            },
            Shape::ManyTrimmed(n) => match args(loc, name_of(f), n, body) {
                Err(e) => Step { result: Err(StopView::Fatal(e)), ev },
                Ok(raw) => {
                    let l = expand_list(ev, loc, trim_all(raw), 0, Seq::empty(), (fuel - 1) as nat);
                    match l.result {
                        Err(e) => Step { result: Err(e), ev: l.ev },
                        Ok(vals) => Step {
                            result: match pure_many(loc, f, vals) {
                                Ok(t) => Ok(t),
                                Err(e) => Err(StopView::Fatal(e)),
                            },
                            ev: l.ev,
                        },
                    }
                },
            },
            Shape::Call => call(ev, loc, body, (fuel - 1) as nat),
            Shape::ForEach => foreach(ev, loc, body, (fuel - 1) as nat),
        }
    }
}

/// What a function of one argument gives for the expanded argument.
pub open spec fn apply_one(
    ev: EvalView,
    loc: LocationView,
    f: Builtin,
    arg: Seq<char>,
    fuel: nat,
) -> Step
    decreases fuel, 1int,
{
    match f {
        Builtin::Info => Step {
            result: Ok(Seq::empty()),
            ev: EvalView { host: ev.host.say(Stream::Output, arg), ..ev },
        },
        Builtin::Warning => Step {
            result: Ok(Seq::empty()),
            ev: EvalView { host: ev.host.say(Stream::Error, warning_line(loc, arg)), ..ev },
        },
        Builtin::Error => Step {
            result: Err(StopView::Fatal(fatal_about(FatalKind::UserError, loc, trim(arg)))),
            ev,
        },
        Builtin::Shell => shell(ev, loc, arg, fuel),
        Builtin::WildCard => wildcard(ev, loc, arg),
        Builtin::AbsPath => {
            let l = canonical_from(ev, loc, words(arg), 0, Seq::empty());
            match l.result {
                Err(e) => Step { result: Err(e), ev: l.ev },
                Ok(paths) => Step { result: Ok(join_leading(paths)), ev: l.ev },
            }
        },
        Builtin::Value => Step {
            result: Ok(
                match ev.vars.get(trim(arg)) {
                    Some(v) => v.value,
                    None => Seq::empty(),
                },
            ),
            ev,
        },
        Builtin::Flavor => Step { result: Ok(flavor_tag(ev.vars.get(arg))), ev },
        Builtin::Origin => Step { result: Ok(origin_tag(ev.vars.get(arg))), ev },
        _ => Step { result: Ok(pure_one(f, arg)), ev },
    }
}

/// `shell`: the host runs `command` under the value of `SHELL` with the value
/// of `.SHELLFLAGS`; what the command printed is the value, and its exit
/// status goes to `.SHELLSTATUS`.
pub open spec fn shell(ev: EvalView, loc: LocationView, command: Seq<char>, fuel: nat) -> Step
    decreases fuel, 0int,
{
    if fuel == 0 {
        too_deep(ev, loc)
    } else {
        let s = read(ev, loc, "SHELL"@, (fuel - 1) as nat);
        match s.result {
            Err(e) => s,
            Ok(sh) => {
                let g = read(s.ev, loc, ".SHELLFLAGS"@, (fuel - 1) as nat);
                match g.result {
                    Err(e) => g,
                    Ok(flags) => match g.ev.host.next() {
                        None => Step {
                            result: Err(
                                StopView::Need(RequestView::Shell { shell: sh, flags, command }),
                            ),
                            ev: g.ev,
                        },
                        Some(a) => match a {
                            AnswerView::Output { text, status } => Step {
                                result: Ok(shell_text(text)),
                                ev: EvalView {
                                    vars: g.ev.vars.define(status_cell(loc, status)),
                                    host: g.ev.host.advance(),
                                },
                            },
                            _ => Step {
                                result: Err(stop_at(FatalKind::BadAnswer, loc)),
                                ev: EvalView { host: g.ev.host.advance(), ..g.ev },
                            },
                        },
                    },
                }
            },
        }
    }
}

/// `call`: the first argument names a variable; the others are expanded
/// where the call stands and bound as `1`, `2`, .. in a frame of their own,
/// which hides every positional variable above their number; the value is
/// that of the variable in that frame.
pub open spec fn call(ev: EvalView, loc: LocationView, body: Seq<char>, fuel: nat) -> Step
    decreases fuel, 0int,
{
    if fuel == 0 {
        too_deep(ev, loc)
    } else {
        match all_args(body) {
            None => Step { result: Err(stop_at(FatalKind::Unterminated, loc)), ev },
            Some(raw) => {
                let n = expand(ev, loc, trim(raw[0]), (fuel - 1) as nat);
                match n.result {
                    Err(e) => n,
                    Ok(name) => {
                        let l = expand_list(n.ev, loc, raw, 1, Seq::empty(), (fuel - 1) as nat);
                        match l.result {
                            Err(e) => Step { result: Err(e), ev: l.ev },
                            Ok(vals) => {
                                let framed = EvalView {
                                    vars: bind_positional(
                                        l.ev.vars.push_frame(Some(vals.len() as usize)),
                                        loc,
                                        vals,
                                        0,
                                    ),
                                    ..l.ev
                                };
                                let r = read(framed, loc, name, (fuel - 1) as nat);
                                match r.result {
                                    Err(e) => r,
                                    Ok(t) => Step {
                                        result: Ok(t),
                                        ev: EvalView { vars: r.ev.vars.pop_frame(), ..r.ev },
                                    },
                                }
                            },
                        }
                    },
                }
            },
        }
    }
}

/// The values of `body` with `name` bound to each word from number `i` on.
pub open spec fn foreach_from(
    ev: EvalView,
    loc: LocationView,
    name: Seq<char>,
    ws: Seq<Seq<char>>,
    i: int,
    body: Seq<char>,
    acc: Seq<Seq<char>>,
    fuel: nat,
) -> ListStep
    decreases fuel, ws.len() - i,
{
    if i < 0 || i >= ws.len() {
        ListStep { result: Ok(acc), ev }
    } else if fuel == 0 {
        too_deep_list(ev, loc)
    } else {
        let bound = EvalView {
            vars: ev.vars.bind(bound_cell(name, ws[i], Origin::File, loc)),
            ..ev
        };
        let r = expand(bound, loc, body, (fuel - 1) as nat);
        match r.result {
            Err(e) => ListStep { result: Err(e), ev: r.ev },
            Ok(t) => foreach_from(r.ev, loc, name, ws, i + 1, body, acc.push(t), fuel),
        }
    }
}

/// `foreach`: the name and the list are expanded; the body is expanded once
/// for each word of the list, with the name bound to the word in a frame of
/// its own; the values are joined with single spaces.
pub open spec fn foreach(ev: EvalView, loc: LocationView, body: Seq<char>, fuel: nat) -> Step
    decreases fuel, 0int,
{
    if fuel == 0 {
        too_deep(ev, loc)
    } else {
        match args(loc, "foreach"@, 3, body) {
            Err(e) => Step { result: Err(StopView::Fatal(e)), ev },
            Ok(raw) => {
                let n = expand(ev, loc, raw[0], (fuel - 1) as nat);
                match n.result {
                    Err(e) => n,
                    Ok(name) => {
                        let l = expand(n.ev, loc, raw[1], (fuel - 1) as nat);
                        match l.result {
                            Err(e) => l,
                            Ok(list) => {
                                let framed = EvalView { vars: l.ev.vars.push_frame(None), ..l.ev };
                                let r = foreach_from(
                                    framed,
                                    loc,
                                    trim(name),
                                    words(list),
                                    0,
                                    raw[2],
                                    Seq::empty(),
                                    (fuel - 1) as nat,
                                );
                                match r.result {
                                    Err(e) => Step { result: Err(e), ev: r.ev },
                                    Ok(vals) => Step {
                                        result: Ok(join_single(vals)),
                                        ev: EvalView { vars: r.ev.vars.pop_frame(), ..r.ev },
                                    },
                                }
                            },
                        }
                    },
                }
            },
        }
    }
}

} // verus!
