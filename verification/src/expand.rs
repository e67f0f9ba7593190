//! The expansion engine: it computes what `meaning` says.

use crate::args::{find_close, find_top_of, get_all_args, get_args};
use crate::fault::{stop_at, text_result, Fatal, FatalKind, Stop};
use crate::funcs::{
    addprefix_text, addsuffix_text, findstring_text, firstword_text, join_text, lastword_text,
    strip_text, subst_text, word_count_text, word_text, wordlist_text, IndexFault,
};
use crate::host::{Answer, Evaluator, Request, Stream};
use crate::meaning::{
    apply_one, bind_positional, builtin_named, call, canonical_from, dollar, dollar_end, eval,
    expand, expand_from, expand_list, flavor_tag, foreach, foreach_from, function, index_fault,
    name_of, origin_tag, pure_many, pure_one, read, reference, shape_of, shell, shell_text,
    substitution, trim_all, warning_line, wildcard, Builtin, ListStep, Shape, Step,
};
use crate::number::{decimal_of, signed_decimal_of};
use crate::paths::{parts_text, Part};
use crate::pattern::{patsubst_text, substref_text};
use crate::sort::sort_text;
use crate::text::{
    append, chars_of, copy_text, lemma_texts_push, slice_of, string_of, text_eq, texts, trim_of,
};
use crate::vars::{Flavor, Location, Origin, Var};
use crate::words::{join_leading_of, join_single_of, split_words};
use vstd::prelude::*;

verus! {

/// How deeply `expand_simple_ng` follows references.
pub const DEPTH: usize = 400;

/// What an evaluation returned and the state in which it left the evaluator.
pub open spec fn step(r: Result<Vec<char>, Stop>, ev: Evaluator) -> Step {
    Step { result: text_result(r), ev: ev@ }
}

pub open spec fn list_step(r: Result<Vec<Vec<char>>, Stop>, ev: Evaluator) -> ListStep {
    ListStep {
        result: match r {
            Ok(l) => Ok(texts(l@)),
            Err(s) => Err(s@),
        },
        ev: ev@,
    }
}

pub open spec fn string_step(r: Result<String, Stop>, ev: Evaluator) -> Step {
    Step {
        result: match r {
            Ok(t) => Ok(t@),
            Err(s) => Err(s@),
        },
        ev: ev@,
    }
}

fn stop(kind: FatalKind, loc: &Location) -> (r: Stop)
    ensures
        r@ == stop_at(kind, loc@),
{
    Stop::Fatal(Fatal::at(kind, loc))
}

/// The function that `name` names.
pub fn builtin_of(name: &Vec<char>) -> (r: Option<Builtin>)
    ensures
        r == builtin_named(name@),
{
    if text_eq(name, &chars_of("info")) {
        Some(Builtin::Info)
    } else if text_eq(name, &chars_of("shell")) {
        Some(Builtin::Shell)
    } else if text_eq(name, &chars_of("subst")) {
        Some(Builtin::Subst)
    } else if text_eq(name, &chars_of("warning")) {
        Some(Builtin::Warning)
    } else if text_eq(name, &chars_of("basename")) {
        Some(Builtin::BaseName)
    } else if text_eq(name, &chars_of("addprefix")) {
        Some(Builtin::AddPrefix)
    } else if text_eq(name, &chars_of("addsuffix")) {
        Some(Builtin::AddSuffix)
    } else if text_eq(name, &chars_of("sort")) {
        Some(Builtin::Sort)
    } else if text_eq(name, &chars_of("firstword")) {
        Some(Builtin::FirstWord)
    } else if text_eq(name, &chars_of("lastword")) {
        Some(Builtin::LastWord)
    } else if text_eq(name, &chars_of("words")) {
        Some(Builtin::Words)
    } else if text_eq(name, &chars_of("word")) {
        Some(Builtin::Word)
    } else if text_eq(name, &chars_of("wordlist")) {
        Some(Builtin::WordList)
    } else if text_eq(name, &chars_of("suffix")) {
        Some(Builtin::Suffix)
    } else if text_eq(name, &chars_of("join")) {
        Some(Builtin::Join)
    } else if text_eq(name, &chars_of("notdir")) {
        Some(Builtin::NotDir)
    } else if text_eq(name, &chars_of("dir")) {
        Some(Builtin::Dir)
    } else if text_eq(name, &chars_of("abspath")) {
        Some(Builtin::AbsPath)
    } else if text_eq(name, &chars_of("findstring")) {
        Some(Builtin::FindString)
    } else if text_eq(name, &chars_of("error")) {
        Some(Builtin::Error)
    } else if text_eq(name, &chars_of("call")) {
        Some(Builtin::Call)
    } else if text_eq(name, &chars_of("flavor")) {
        Some(Builtin::Flavor)
    } else if text_eq(name, &chars_of("origin")) {
        Some(Builtin::Origin)
    } else if text_eq(name, &chars_of("foreach")) {
        Some(Builtin::ForEach)
    } else if text_eq(name, &chars_of("patsubst")) {
        Some(Builtin::PatSubst)
    } else if text_eq(name, &chars_of("strip")) {
        Some(Builtin::Strip)
    } else if text_eq(name, &chars_of("wildcard")) {
        Some(Builtin::WildCard)
    } else if text_eq(name, &chars_of("value")) {
        Some(Builtin::Value)
    } else {
        None
    }
}

fn shape(f: Builtin) -> (r: Shape)
    ensures
        r == shape_of(f),
{
    match f {
        Builtin::Flavor | Builtin::Origin => Shape::OneTrimmed,
        Builtin::Subst | Builtin::WordList => Shape::Many(3),
        Builtin::PatSubst => Shape::ManyTrimmed(3),
        Builtin::FindString | Builtin::Word | Builtin::AddPrefix | Builtin::AddSuffix
        | Builtin::Join => Shape::Many(2),
        Builtin::Call => Shape::Call,
        Builtin::ForEach => Shape::ForEach,
        _ => Shape::One,
    }
}

fn name_text(f: Builtin) -> (r: &'static str)
    ensures
        r@ == name_of(f),
{
    match f {
        Builtin::Subst => "subst",
        Builtin::WordList => "wordlist",
        Builtin::PatSubst => "patsubst",
        Builtin::FindString => "findstring",
        Builtin::Word => "word",
        Builtin::AddPrefix => "addprefix",
        Builtin::AddSuffix => "addsuffix",
        Builtin::Join => "join",
        Builtin::ForEach => "foreach",
        _ => "call",
    }
}

/// `flavor` for the cell that a name stands for.
pub fn flavor_of(v: Option<&Var>) -> (r: Vec<char>)
    ensures
        r@ == flavor_tag(
            match v {
                Some(c) => Some(c@),
                None => None,
            },
        ),
{
    match v {
        Some(c) => match c.flavor() {
            Flavor::Simple => chars_of("simple"),
            Flavor::Recursive => chars_of("recursive"),
            Flavor::Undefined => chars_of("undefined"),
        },
        None => chars_of("undefined"),
    }
}

/// `origin` for the cell that a name stands for.
pub fn origin_of(v: Option<&Var>) -> (r: Vec<char>)
    ensures
        r@ == origin_tag(
            match v {
                Some(c) => Some(c@),
                None => None,
            },
        ),
{
    match v {
        Some(c) => match c.origin() {
            Origin::Default => chars_of("default"),
            Origin::Env => chars_of("environment"),
            Origin::EnvOverride => chars_of("environment override"),
            Origin::File => chars_of("file"),
            Origin::CmdLine => chars_of("command line"),
            Origin::Override => chars_of("override"),
            Origin::Automatic => chars_of("automatic"),
            Origin::Undefined => chars_of("undefined"),
        },
        None => chars_of("undefined"),
    }
}

/// What a command printed, as `shell` gives it.
pub fn shell_text_of(text: &Vec<char>) -> (r: Vec<char>)
    ensures
        r@ == shell_text(text@),
{
    let n: usize = if text.len() > 0 && text[text.len() - 1] == '\n' {
        text.len() - 1
    } else {
        text.len()
    };
    let mut r: Vec<char> = Vec::new();
    let mut i: usize = 0;
    while i < n
        invariant
            i <= n <= text.len(),
            r.len() == i,
            forall|j: int|
                0 <= j < i ==> r@[j] == (if text@[j] == '\n' {
                    ' '
                } else {
                    text@[j]
                }),
        decreases n - i,
    {
        if text[i] == '\n' {
            r.push(' ');
        } else {
            r.push(text[i]);
        }
        i += 1;
    }
    assert(r@ =~= shell_text(text@));
    r
}

fn pure_one_of(f: Builtin, arg: &Vec<char>) -> (r: Vec<char>)
    ensures
        r@ == pure_one(f, arg@),
{
    match f {
        Builtin::Strip => strip_text(arg),
        Builtin::Sort => sort_text(arg),
        Builtin::FirstWord => firstword_text(arg),
        Builtin::LastWord => lastword_text(arg),
        Builtin::Words => word_count_text(arg),
        Builtin::Dir => parts_text(Part::Dir, arg),
        Builtin::NotDir => parts_text(Part::NotDir, arg),
        Builtin::BaseName => parts_text(Part::BaseName, arg),
        Builtin::Suffix => parts_text(Part::Suffix, arg),
        _ => Vec::new(),
    }
}

fn index_fault_of(loc: &Location, f: Builtin, fault: IndexFault, a: &Vec<Vec<char>>) -> (r: Fatal)
    requires
        a.len() >= 2,
    ensures
        r@ == index_fault(loc@, f, fault, texts(a@)),
{
    match fault {
        IndexFault::FirstNotNumber => Fatal {
            kind: FatalKind::FirstNotNumber,
            loc: loc.copy(),
            text: copy_text(&a[0]),
            other: chars_of(name_text(f)),
            number: 0,
        },
        IndexFault::SecondNotNumber => Fatal {
            kind: FatalKind::SecondNotNumber,
            loc: loc.copy(),
            text: copy_text(&a[1]),
            other: chars_of(name_text(f)),
            number: 0,
        },
        IndexFault::FirstZero => {
            let word = match f {
                Builtin::Word => true,
                _ => false,
            };
            Fatal::at(
                if word {
                    FatalKind::WordZero
                } else {
                    FatalKind::WordListZero
                },
                loc,
            )
        },
    }
}

fn pure_many_of(loc: &Location, f: Builtin, a: &Vec<Vec<char>>) -> (r: Result<Vec<char>, Fatal>)
    requires
        match shape_of(f) {
            Shape::Many(n) => a.len() == n,
            Shape::ManyTrimmed(n) => a.len() == n,
            _ => false,
        },
    ensures
        match r {
            Ok(t) => pure_many(loc@, f, texts(a@)) == Ok::<Seq<char>, crate::fault::FatalView>(t@),
            Err(e) => pure_many(loc@, f, texts(a@)) == Err::<Seq<char>, crate::fault::FatalView>(
                e@,
            ),
        },
{
    match f {
        Builtin::Subst => Ok(subst_text(&a[0], &a[1], &a[2])),
        Builtin::PatSubst => Ok(patsubst_text(&a[0], &a[1], &a[2])),
        Builtin::FindString => Ok(findstring_text(&a[0], &a[1])),
        Builtin::AddPrefix => Ok(addprefix_text(&a[0], &a[1])),
        Builtin::AddSuffix => Ok(addsuffix_text(&a[0], &a[1])),
        Builtin::Join => Ok(join_text(&a[0], &a[1])),
        Builtin::Word => match word_text(&a[0], &a[1]) {
            Ok(t) => Ok(t),
            Err(e) => Err(index_fault_of(loc, f, e, a)),
        },
        Builtin::WordList => match wordlist_text(&a[0], &a[1], &a[2]) {
            Ok(t) => Ok(t),
            Err(e) => Err(index_fault_of(loc, f, e, a)),
        },
        _ => Ok(Vec::new()),
    }
}

fn trim_each(a: &Vec<Vec<char>>) -> (r: Vec<Vec<char>>)
    ensures
        texts(r@) == trim_all(texts(a@)),
{
    let mut r: Vec<Vec<char>> = Vec::new();
    let mut i: usize = 0;
    while i < a.len()
        invariant
            i <= a.len(),
            r.len() == i,
            forall|j: int| 0 <= j < i ==> (#[trigger] r@[j])@ == crate::text::trim(a@[j]@),
        decreases a.len() - i,
    {
        r.push(trim_of(&a[i]));
        i += 1;
    }
    assert(texts(r@) =~= trim_all(texts(a@)));
    r
}

/// `abspath`: asks the host for the canonical form of each word.
fn canonical_paths(ev: &mut Evaluator, loc: &Location, ws: &Vec<Vec<char>>) -> (r: Result<
    Vec<Vec<char>>,
    Stop,
>)
    ensures
        list_step(r, *final(ev)) == canonical_from(
            old(ev)@,
            loc@,
            texts(ws@),
            0,
            Seq::empty(),
        ),
{
    let mut acc: Vec<Vec<char>> = Vec::new();
    let mut i: usize = 0;
    assert(texts(acc@) =~= Seq::<Seq<char>>::empty());
    while i < ws.len()
        invariant
            i <= ws.len(),
            canonical_from(ev@, loc@, texts(ws@), i as int, texts(acc@)) == canonical_from(
                old(ev)@,
                loc@,
                texts(ws@),
                0,
                Seq::empty(),
            ),
        decreases ws.len() - i,
    {
        let ghost before = acc@;
        match ev.host.take() {
            None => {
                return Err(Stop::Need(Request::Canonical { path: copy_text(&ws[i]) }));
            },
            Some(a) => match a {
                Answer::Text { text } => {
                    acc.push(text);
                    proof {
                        lemma_texts_push(before, text);
                    }
                },
                Answer::Missing => {
                    let e: Vec<char> = Vec::new();
                    acc.push(e);
                    proof {
                        lemma_texts_push(before, e);
                    }
                },
                _ => {
                    return Err(stop(FatalKind::BadAnswer, loc));
                },
            },
        }
        i += 1;
    }
    Ok(acc)
}

/// `wildcard`: asks the host for the paths that match.
fn wildcard_paths(ev: &mut Evaluator, loc: &Location, pattern: Vec<char>) -> (r: Result<
    Vec<char>,
    Stop,
>)
    ensures
        step(r, *final(ev)) == wildcard(old(ev)@, loc@, pattern@),
{
    match ev.host.take() {
        None => Err(Stop::Need(Request::Wildcard { pattern })),
        Some(a) => match a {
            Answer::Paths { paths } => Ok(join_single_of(&paths)),
            Answer::Refused => Err(Stop::Fatal(Fatal::about(FatalKind::BadPattern, loc, pattern))),
            _ => Err(stop(FatalKind::BadAnswer, loc)),
        },
    }
}

/// The position after the reference whose `$` stands just before `p`.
fn end_of_dollar(text: &Vec<char>, p: usize) -> (r: usize)
    requires
        p < text.len(),
    ensures
        r == dollar_end(text@, p as int),
        p < r <= text.len(),
{
    let c = text[p];
    if c == '(' || c == '{' {
        match find_close(text, p + 1, c) {
            Some(e) => e + 1,
            None => text.len(),
        }
    } else {
        p + 1
    }
}

/// The value of `text`.
pub fn expand_text(ev: &mut Evaluator, loc: &Location, text: &Vec<char>, fuel: usize) -> (r: Result<
    Vec<char>,
    Stop,
>)
    ensures
        step(r, *final(ev)) == expand(old(ev)@, loc@, text@, fuel as nat),
    decreases fuel, text.len() + 2,
{
    let mut out: Vec<char> = Vec::new();
    let mut pos: usize = 0;
    while pos < text.len()
        invariant
            pos <= text.len(),
            expand_from(ev@, loc@, text@, pos as int, out@, fuel as nat) == expand(
                old(ev)@,
                loc@,
                text@,
                fuel as nat,
            ),
        decreases text.len() - pos,
    {
        let c = text[pos];
        if c != '$' {
            out.push(c);
            pos += 1;
        } else {
            match expand_ng(ev, loc, text, pos + 1, fuel) {
                Err(e) => {
                    return Err(e);
                },
                Ok(v) => {
                    append(&mut out, &v);
                    if pos + 1 < text.len() {
                        pos = end_of_dollar(text, pos + 1);
                    } else {
                        pos = pos + 1;
                    }
                },
            }
        }
    }
    Ok(out)
}

/// The value of the reference whose `$` stands just before position `p` of
/// `text`.
pub fn expand_ng(ev: &mut Evaluator, loc: &Location, text: &Vec<char>, p: usize, fuel: usize) -> (r:
    Result<Vec<char>, Stop>)
    ensures
        step(r, *final(ev)) == dollar(old(ev)@, loc@, text@, p as int, fuel as nat),
    decreases fuel, 0int,
{
    if fuel == 0 {
        return Err(stop(FatalKind::TooDeep, loc));
    }
    if p >= text.len() || text[p] == '$' {
        let mut r: Vec<char> = Vec::new();
        r.push('$');
        assert(r@ =~= seq!['$']);
        return Ok(r);
    }
    let c = text[p];
    if c == '(' || c == '{' {
        match find_close(text, p + 1, c) {
            None => Err(stop(FatalKind::Unterminated, loc)),
            Some(e) => {
                let content = slice_of(text, p + 1, e);
                expand_reference(ev, loc, &content, fuel - 1)
            },
        }
    } else {
        let mut name: Vec<char> = Vec::new();
        name.push(c);
        assert(name@ =~= seq![c]);
        read_variable(ev, loc, &name, fuel - 1)
    }
}

/// The value of the variable `name`.
pub fn read_variable(ev: &mut Evaluator, loc: &Location, name: &Vec<char>, fuel: usize) -> (r:
    Result<Vec<char>, Stop>)
    ensures
        step(r, *final(ev)) == read(old(ev)@, loc@, name@, fuel as nat),
    decreases fuel, 1int,
{
    let cell = match ev.vars.lookup(name) {
        None => {
            return Ok(Vec::new());
        },
        Some(v) => v.copy(),
    };
    cell.eval(ev, loc, fuel)
}

impl Var {
    /// The value of the cell: what it holds, expanded if the cell is
    /// recursive.
    pub fn eval(&self, ev: &mut Evaluator, loc: &Location, fuel: usize) -> (r: Result<
        Vec<char>,
        Stop,
    >)
        ensures
            step(r, *final(ev)) == eval(old(ev)@, loc@, self@, fuel as nat),
        decreases fuel, 0int,
    {
        match self.flavor() {
            Flavor::Recursive => {
                if fuel == 0 {
                    return Err(stop(FatalKind::TooDeep, loc));
                }
                match self.loc() {
                    Some(l) => expand_text(ev, l, self.value_text(), fuel - 1),
                    None => expand_text(ev, loc, self.value_text(), fuel - 1),
                }
            },
            _ => Ok(copy_text(self.value_text())),
        }
    }
}

/// The value of what the brackets of a reference hold.
pub fn expand_reference(ev: &mut Evaluator, loc: &Location, content: &Vec<char>, fuel: usize) -> (r:
    Result<Vec<char>, Stop>)
    ensures
        step(r, *final(ev)) == reference(old(ev)@, loc@, content@, fuel as nat),
    decreases fuel, 0int,
{
    if fuel == 0 {
        return Err(stop(FatalKind::TooDeep, loc));
    }
    let n = content.len();
    let colon = find_top_of(content, ':', 0);
    let eq = if colon < n {
        find_top_of(content, '=', colon + 1)
    } else {
        n
    };
    if colon < n && eq < n {
        let var = slice_of(content, 0, colon);
        let pat = slice_of(content, colon + 1, eq);
        let repl = slice_of(content, eq + 1, n);
        return expand_substitution(ev, loc, &var, &pat, &repl, fuel - 1);
    }
    let sp = find_top_of(content, ' ', 0);
    if sp < n {
        let head = trim_of(&slice_of(content, 0, sp));
        match builtin_of(&head) {
            Some(f) => {
                let body = slice_of(content, sp + 1, n);
                return expand_function(ev, loc, f, &body, fuel - 1);
            },
            None => {},
        }
    }
    let name = expand_text(ev, loc, &trim_of(content), fuel - 1)?;
    read_variable(ev, loc, &name, fuel - 1)
}

fn expand_substitution(
    ev: &mut Evaluator,
    loc: &Location,
    var: &Vec<char>,
    pat: &Vec<char>,
    repl: &Vec<char>,
    fuel: usize,
) -> (r: Result<Vec<char>, Stop>)
    ensures
        step(r, *final(ev)) == substitution(old(ev)@, loc@, var@, pat@, repl@, fuel as nat),
    decreases fuel, 0int,
{
    if fuel == 0 {
        return Err(stop(FatalKind::TooDeep, loc));
    }
    let p = expand_text(ev, loc, &trim_of(pat), fuel - 1)?;
    let r = expand_text(ev, loc, &trim_of(repl), fuel - 1)?;
    let name = expand_text(ev, loc, &trim_of(var), fuel - 1)?;
    let value = read_variable(ev, loc, &name, fuel - 1)?;
    Ok(substref_text(&p, &r, &value))
}

fn expand_each(
    ev: &mut Evaluator,
    loc: &Location,
    items: &Vec<Vec<char>>,
    from: usize,
    fuel: usize,
) -> (r: Result<Vec<Vec<char>>, Stop>)
    ensures
        list_step(r, *final(ev)) == expand_list(
            old(ev)@,
            loc@,
            texts(items@),
            from as int,
            Seq::empty(),
            fuel as nat,
        ),
    decreases fuel, items.len() - from,
{
    let mut acc: Vec<Vec<char>> = Vec::new();
    let mut i: usize = from;
    assert(texts(acc@) =~= Seq::<Seq<char>>::empty());
    while i < items.len()
        invariant
            from <= i,
            expand_list(ev@, loc@, texts(items@), i as int, texts(acc@), fuel as nat)
                == expand_list(
                old(ev)@,
                loc@,
                texts(items@),
                from as int,
                Seq::empty(),
                fuel as nat,
            ),
        decreases items.len() - i,
    {
        if fuel == 0 {
            return Err(stop(FatalKind::TooDeep, loc));
        }
        let ghost before = acc@;
        match expand_text(ev, loc, &items[i], fuel - 1) {
            Err(e) => {
                return Err(e);
            },
            Ok(t) => {
                acc.push(t);
                proof {
                    lemma_texts_push(before, t);
                }
            },
        }
        i += 1;
    }
    Ok(acc)
}

/// The value of the function `f` for `body`.
pub fn expand_function(
    ev: &mut Evaluator,
    loc: &Location,
    f: Builtin,
    body: &Vec<char>,
    fuel: usize,
) -> (r: Result<Vec<char>, Stop>)
    ensures
        step(r, *final(ev)) == function(old(ev)@, loc@, f, body@, fuel as nat),
    decreases fuel, 0int,
{
    if fuel == 0 {
        return Err(stop(FatalKind::TooDeep, loc));
    }
    match shape(f) {
        Shape::One => {
            let arg = expand_text(ev, loc, body, fuel - 1)?;
            apply(ev, loc, f, arg, fuel - 1)
        },
        Shape::OneTrimmed => {
            let arg = expand_text(ev, loc, &trim_of(body), fuel - 1)?;
            apply(ev, loc, f, arg, fuel - 1)
        },
        Shape::Many(n) => {
            let raw = match get_args(loc, name_text(f), n, body) {
                Err(e) => {
                    return Err(Stop::Fatal(e));
                },
                Ok(raw) => raw,
            };
            let vals = expand_each(ev, loc, &raw, 0, fuel - 1)?;
            proof {
                lemma_expand_list_len(
                    old(ev)@,
                    loc@,
                    texts(raw@),
                    0,
                    Seq::empty(),
                    (fuel - 1) as nat,
                );
            }
            match pure_many_of(loc, f, &vals) {
                Ok(t) => Ok(t),
                Err(e) => Err(Stop::Fatal(e)),
            }
        },
        Shape::ManyTrimmed(n) => {
            let raw = match get_args(loc, name_text(f), n, body) {
                Err(e) => {
                    return Err(Stop::Fatal(e));
                },
                Ok(raw) => raw,
            };
            let trimmed = trim_each(&raw);
            let vals = expand_each(ev, loc, &trimmed, 0, fuel - 1)?;
            proof {
                lemma_expand_list_len(
                    old(ev)@,
                    loc@,
                    texts(trimmed@),
                    0,
                    Seq::empty(),
                    (fuel - 1) as nat,
                );
            }
            match pure_many_of(loc, f, &vals) {
                Ok(t) => Ok(t),
                Err(e) => Err(Stop::Fatal(e)),
            }
        },
        Shape::Call => expand_call(ev, loc, body, fuel - 1),
        Shape::ForEach => expand_foreach(ev, loc, body, fuel - 1),
    }
}

/// A list that was expanded without an error has a value for each text.
pub proof fn lemma_expand_list_len(
    ev: crate::host::EvalView,
    loc: crate::vars::LocationView,
    items: Seq<Seq<char>>,
    i: int,
    acc: Seq<Seq<char>>,
    fuel: nat,
)
    requires
        0 <= i <= items.len(),
    ensures
        match expand_list(ev, loc, items, i, acc, fuel).result {
            Ok(l) => l.len() == acc.len() + items.len() - i,
            Err(_) => true,
        },
    decreases items.len() - i,
{
    if i < items.len() && fuel != 0 {
        let r = expand(ev, loc, items[i], (fuel - 1) as nat);
        match r.result {
            Err(e) => {},
            Ok(t) => {
                lemma_expand_list_len(r.ev, loc, items, i + 1, acc.push(t), fuel);
            },
        }
    }
}

fn apply(ev: &mut Evaluator, loc: &Location, f: Builtin, arg: Vec<char>, fuel: usize) -> (r: Result<
    Vec<char>,
    Stop,
>)
    ensures
        step(r, *final(ev)) == apply_one(old(ev)@, loc@, f, arg@, fuel as nat),
    decreases fuel, 1int,
{
    match f {
        Builtin::Info => {
            ev.host.say(Stream::Output, arg);
            Ok(Vec::new())
        },
        Builtin::Warning => {
            let mut line = copy_text(loc.file_text());
            line.push(':');
            append(&mut line, &decimal_of(loc.line()));
            append(&mut line, &chars_of(": "));
            append(&mut line, &arg);
            assert(line@ =~= warning_line(loc@, arg@));
            ev.host.say(Stream::Error, line);
            Ok(Vec::new())
        },
        Builtin::Error => Err(Stop::Fatal(Fatal::about(FatalKind::UserError, loc, trim_of(&arg)))),
        Builtin::Shell => run_shell(ev, loc, arg, fuel),
        Builtin::WildCard => wildcard_paths(ev, loc, arg),
        Builtin::AbsPath => {
            let ws = split_words(&arg);
            let paths = canonical_paths(ev, loc, &ws)?;
            Ok(join_leading_of(&paths))
        },
        Builtin::Value => {
            match ev.vars.lookup(&trim_of(&arg)) {
                Some(v) => Ok(copy_text(v.value_text())),
                None => Ok(Vec::new()),
            }
        },
        Builtin::Flavor => Ok(flavor_of(ev.vars.lookup(&arg))),
        Builtin::Origin => Ok(origin_of(ev.vars.lookup(&arg))),
        _ => Ok(pure_one_of(f, &arg)),
    }
}

/// `shell`: asks the host to run `command` and takes what it printed.
pub fn run_shell(ev: &mut Evaluator, loc: &Location, command: Vec<char>, fuel: usize) -> (r: Result<
    Vec<char>,
    Stop,
>)
    ensures
        step(r, *final(ev)) == shell(old(ev)@, loc@, command@, fuel as nat),
    decreases fuel, 0int,
{
    if fuel == 0 {
        return Err(stop(FatalKind::TooDeep, loc));
    }
    let sh = read_variable(ev, loc, &chars_of("SHELL"), fuel - 1)?;
    let flags = read_variable(ev, loc, &chars_of(".SHELLFLAGS"), fuel - 1)?;
    match ev.host.take() {
        None => Err(Stop::Need(Request::Shell { shell: sh, flags, command })),
        Some(a) => match a {
            Answer::Output { text, status } => {
                let cell = Var::cell(
                    Flavor::Simple,
                    Origin::Env,
                    Some(loc.copy()),
                    chars_of(".SHELLSTATUS"),
                    signed_decimal_of(status),
                    false,
                );
                ev.vars.define(cell);
                Ok(shell_text_of(&text))
            },
            _ => Err(stop(FatalKind::BadAnswer, loc)),
        },
    }
}

fn bind_arguments(ev: &mut Evaluator, loc: &Location, vals: &Vec<Vec<char>>)
    ensures
        final(ev)@.host == old(ev)@.host,
        final(ev)@.vars == bind_positional(old(ev)@.vars, loc@, texts(vals@), 0),
{
    let mut i: usize = 0;
    while i < vals.len()
        invariant
            i <= vals.len(),
            ev@.host == old(ev)@.host,
            bind_positional(ev@.vars, loc@, texts(vals@), i as int) == bind_positional(
                old(ev)@.vars,
                loc@,
                texts(vals@),
                0,
            ),
        decreases vals.len() - i,
    {
        let cell = Var::cell(
            Flavor::Simple,
            Origin::Automatic,
            Some(loc.copy()),
            decimal_of(i + 1),
            copy_text(&vals[i]),
            false,
        );
        ev.vars.bind(cell);
        i += 1;
    }
}

fn expand_call(ev: &mut Evaluator, loc: &Location, body: &Vec<char>, fuel: usize) -> (r: Result<
    Vec<char>,
    Stop,
>)
    ensures
        step(r, *final(ev)) == call(old(ev)@, loc@, body@, fuel as nat),
    decreases fuel, 0int,
{
    if fuel == 0 {
        return Err(stop(FatalKind::TooDeep, loc));
    }
    let raw = match get_all_args(loc, body) {
        Err(e) => {
            return Err(Stop::Fatal(e));
        },
        Ok(raw) => raw,
    };
    proof {
        crate::args::lemma_all_args_some(body@);
    }
    let name = expand_text(ev, loc, &trim_of(&raw[0]), fuel - 1)?;
    let vals = expand_each(ev, loc, &raw, 1, fuel - 1)?;
    ev.vars.push_frame(Some(vals.len()));
    bind_arguments(ev, loc, &vals);
    let t = read_variable(ev, loc, &name, fuel - 1)?;
    ev.vars.pop_frame();
    Ok(t)
}

fn expand_foreach(ev: &mut Evaluator, loc: &Location, body: &Vec<char>, fuel: usize) -> (r: Result<
    Vec<char>,
    Stop,
>)
    ensures
        step(r, *final(ev)) == foreach(old(ev)@, loc@, body@, fuel as nat),
    decreases fuel, 0int,
{
    if fuel == 0 {
        return Err(stop(FatalKind::TooDeep, loc));
    }
    let raw = match get_args(loc, "foreach", 3, body) {
        Err(e) => {
            return Err(Stop::Fatal(e));
        },
        Ok(raw) => raw,
    };
    assert(texts(raw@).len() == 3);
    assert(texts(raw@)[0] == raw@[0]@ && texts(raw@)[1] == raw@[1]@ && texts(raw@)[2] == raw@[2]@);
    let name = expand_text(ev, loc, &raw[0], fuel - 1)?;
    let list = expand_text(ev, loc, &raw[1], fuel - 1)?;
    let name = trim_of(&name);
    let ws = split_words(&list);
    ev.vars.push_frame(None);
    let vals = expand_for_each(ev, loc, &name, &ws, &raw[2], fuel - 1)?;
    ev.vars.pop_frame();
    Ok(join_single_of(&vals))
}

fn expand_for_each(
    ev: &mut Evaluator,
    loc: &Location,
    name: &Vec<char>,
    ws: &Vec<Vec<char>>,
    body: &Vec<char>,
    fuel: usize,
) -> (r: Result<Vec<Vec<char>>, Stop>)
    ensures
        list_step(r, *final(ev)) == foreach_from(
            old(ev)@,
            loc@,
            name@,
            texts(ws@),
            0,
            body@,
            Seq::empty(),
            fuel as nat,
        ),
    decreases fuel, ws.len(),
{
    let mut acc: Vec<Vec<char>> = Vec::new();
    let mut i: usize = 0;
    assert(texts(acc@) =~= Seq::<Seq<char>>::empty());
    while i < ws.len()
        invariant
            i <= ws.len(),
            foreach_from(ev@, loc@, name@, texts(ws@), i as int, body@, texts(acc@), fuel as nat)
                == foreach_from(
                old(ev)@,
                loc@,
                name@,
                texts(ws@),
                0,
                body@,
                Seq::empty(),
                fuel as nat,
            ),
        decreases ws.len() - i,
    {
        if fuel == 0 {
            return Err(stop(FatalKind::TooDeep, loc));
        }
        let cell = Var::cell(
            Flavor::Simple,
            Origin::File,
            Some(loc.copy()),
            copy_text(name),
            copy_text(&ws[i]),
            false,
        );
        ev.vars.bind(cell);
        let ghost before = acc@;
        match expand_text(ev, loc, body, fuel - 1) {
            Err(e) => {
                return Err(e);
            },
            Ok(t) => {
                acc.push(t);
                proof {
                    lemma_texts_push(before, t);
                }
            },
        }
        i += 1;
    }
    Ok(acc)
}

/// A command as it is handed to the shell: as it is.
pub fn process_for_shell(src: &str) -> (r: String)
    ensures
        r@ == src@,
{
    string_of(&chars_of(src))
}

/// The value of `input`, with references followed `DEPTH` deep.
pub fn expand_simple_ng(ev: &mut Evaluator, loc: &Location, input: &str) -> (r: Result<
    String,
    Stop,
>)
    ensures
        string_step(r, *final(ev)) == expand(old(ev)@, loc@, input@, DEPTH as nat),
{
    let text = chars_of(input);
    match expand_text(ev, loc, &text, DEPTH) {
        Ok(t) => Ok(string_of(&t)),
        Err(e) => Err(e),
    }
}

} // verus!
