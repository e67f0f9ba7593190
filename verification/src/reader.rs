//! Reading a makefile line by line: conditionals, `define`, `include`,
//! recipe lines, and the lines that `parse` takes in.

use crate::args::{args, get_args};
use crate::directive::{after_keyword, keyword};
use crate::expand::{expand_text, DEPTH};
use crate::fault::{fatal_about, fatal_at, stop_at, Fatal, FatalKind, Stop, StopView};
use crate::host::{Answer, AnswerView, EvalView, Evaluator, Request, RequestView};
use crate::lines::{logical_line, read_logical_line};
use crate::meaning::expand;
use crate::parse::{assign_global, failed, parse, parse_line, parse_step, passed, ParseStep};
use crate::rules::{Rule, RuleData, RuleDataView, RuleView, State, StateView, VarOp};
use crate::text::{append, chars_of, copy_text, copy_texts, slice_of, text_eq, texts, trim, trim_of};
use crate::vars::{Location, LocationView, Origin};
use crate::words::{split_words, words};
use vstd::prelude::*;

verus! {

/// How deeply `include` is followed.
pub const INCLUDES: usize = 64;

/// The kinds of conditional.
#[derive(Clone, Copy, Debug, PartialEq, Eq, Structural)]
pub enum Test {
    Ifeq,
    Ifneq,
    Ifdef,
    Ifndef,
}

/// One level of conditionals.
#[derive(Clone, Copy, Debug, PartialEq, Eq, Structural)]
pub struct Level {
    /// A branch of this level has been selected.
    pub taken: bool,
    /// The lines of the branch that is being read count.
    pub live: bool,
}

/// A `define` that is open.
pub struct Define {
    pub name: Vec<char>,
    pub op: VarOp,
    pub text: Vec<char>,
    /// How many lines the text has.
    pub lines: usize,
}

pub struct DefineView {
    pub name: Seq<char>,
    pub op: VarOp,
    pub text: Seq<char>,
    pub lines: usize,
}

impl View for Define {
    type V = DefineView;

    open spec fn view(&self) -> DefineView {
        DefineView { name: self.name@, op: self.op, text: self.text@, lines: self.lines }
    }
}

/// What the reader of one file knows between two lines.
pub struct Reader {
    pub levels: Vec<Level>,
    pub define: Option<Define>,
}

pub struct ReaderView {
    pub levels: Seq<Level>,
    pub define: Option<DefineView>,
}

impl View for Reader {
    type V = ReaderView;

    open spec fn view(&self) -> ReaderView {
        ReaderView {
            levels: self.levels@,
            define: match self.define {
                Some(d) => Some(d@),
                None => None,
            },
        }
    }
}

impl Reader {
    /// A reader at the start of a file.
    pub fn new() -> (r: Reader)
        ensures
            r@ == (ReaderView { levels: Seq::empty(), define: None }),
    {
        Reader { levels: Vec::new(), define: None }
    }
}

/// Whether every level up to `k` counts.
pub open spec fn all_live(levels: Seq<Level>, k: int) -> bool
    decreases k,
{
    if k <= 0 || k > levels.len() {
        true
    } else {
        levels[k - 1].live && all_live(levels, k - 1)
    }
}

fn live_up_to(levels: &Vec<Level>, k: usize) -> (r: bool)
    requires
        k <= levels.len(),
    ensures
        r == all_live(levels@, k as int),
{
    let mut i: usize = k;
    while i > 0
        invariant
            i <= k <= levels.len(),
            all_live(levels@, k as int) == all_live(levels@, i as int),
        decreases i,
    {
        if !levels[i - 1].live {
            return false;
        }
        i -= 1;
    }
    true
}

/// A text without its quotation marks.
pub open spec fn unquote(s: Seq<char>) -> Seq<char>
    decreases s.len(),
{
    if s.len() == 0 {
        Seq::empty()
    } else if s.last() == '"' || s.last() == '\'' {
        unquote(s.drop_last())
    } else {
        unquote(s.drop_last()).push(s.last())
    }
}

/// `s` without its quotation marks.
pub fn unquoted(s: &Vec<char>) -> (r: Vec<char>)
    ensures
        r@ == unquote(s@),
{
    let mut r: Vec<char> = Vec::new();
    let mut i: usize = 0;
    assert(s@.take(0) =~= Seq::<char>::empty());
    while i < s.len()
        invariant
            i <= s.len(),
            r@ == unquote(s@.take(i as int)),
        decreases s.len() - i,
    {
        proof {
            assert(s@.take(i + 1).drop_last() =~= s@.take(i as int));
            assert(s@.take(i + 1).last() == s@[i as int]);
        }
        if s[i] != '"' && s[i] != '\'' {
            r.push(s[i]);
        }
        i += 1;
    }
    assert(s@.take(s.len() as int) =~= s@);
    r
}

/// The two texts that `ifeq` or `ifneq` compares: the two arguments between
/// the brackets, or the first two words.
pub open spec fn operands(loc: LocationView, rest: Seq<char>) -> Result<
    (Seq<char>, Seq<char>),
    crate::fault::FatalView,
> {
    let s = trim(rest);
    if s.len() > 0 && s[0] == '(' {
        if s.last() != ')' {
            Err(fatal_at(FatalKind::BadDirective, loc))
        } else {
            match args(loc, "ifeq"@, 2, s.subrange(1, s.len() - 1)) {
                Err(e) => Err(e),
                Ok(a) => Ok((a[0], a[1])),
            }
        }
    } else if words(s).len() < 2 {
        Err(fatal_at(FatalKind::BadDirective, loc))
    } else {
        Ok((words(s)[0], words(s)[1]))
    }
}

/// Whether the two values are the same once their quotation marks and the
/// white space at their ends are gone.
pub open spec fn same(a: Seq<char>, b: Seq<char>) -> bool {
    trim(unquote(a)) == trim(unquote(b))
}

/// A truth value, or why there is none, and the evaluator after.
pub struct TestStep {
    pub result: Result<bool, StopView>,
    pub ev: EvalView,
}

/// Whether a conditional holds:
/// - `ifeq` where the values of its two operands are the same, `ifneq`
///   where they are not;
/// - `ifdef` where the value of its operand names a variable, `ifndef`
///   where it names none.
pub open spec fn holds(ev: EvalView, loc: LocationView, test: Test, rest: Seq<char>) -> TestStep {
    match test {
        Test::Ifdef | Test::Ifndef => {
            let n = expand(ev, loc, trim(rest), DEPTH as nat);
            match n.result {
                Err(e) => TestStep { result: Err(e), ev: n.ev },
                Ok(name) => TestStep {
                    result: Ok((n.ev.vars.get(name) is Some) == (test == Test::Ifdef)),
                    ev: n.ev,
                },
            }
        },
        _ => match operands(loc, rest) {
            Err(e) => TestStep { result: Err(StopView::Fatal(e)), ev },
            Ok((a, b)) => {
                let x = expand(ev, loc, a, DEPTH as nat);
                match x.result {
                    Err(e) => TestStep { result: Err(e), ev: x.ev },
                    Ok(va) => {
                        let y = expand(x.ev, loc, b, DEPTH as nat);
                        match y.result {
                            Err(e) => TestStep { result: Err(e), ev: y.ev },
                            Ok(vb) => TestStep {
                                result: Ok(same(va, vb) == (test == Test::Ifeq)),
                                ev: y.ev,
                            },
                        }
                    },
                }
            },
        },
    }
}

pub open spec fn test_step(r: Result<bool, Stop>, ev: Evaluator) -> TestStep {
    TestStep {
        result: match r {
            Ok(b) => Ok(b),
            Err(s) => Err(s@),
        },
        ev: ev@,
    }
}

fn operands_of(loc: &Location, rest: &Vec<char>) -> (r: Result<(Vec<char>, Vec<char>), Fatal>)
    ensures
        match r {
            Ok(p) => operands(loc@, rest@) == Ok::<(Seq<char>, Seq<char>), crate::fault::FatalView>(
                (p.0@, p.1@),
            ),
            Err(e) => operands(loc@, rest@) == Err::<(Seq<char>, Seq<char>), crate::fault::FatalView>(
                e@,
            ),
        },
{
    let s = trim_of(rest);
    if s.len() > 0 && s[0] == '(' {
        if s[s.len() - 1] != ')' {
            return Err(Fatal::at(FatalKind::BadDirective, loc));
        }
        let inner = slice_of(&s, 1, s.len() - 1);
        match get_args(loc, "ifeq", 2, &inner) {
            Err(e) => Err(e),
            Ok(a) => {
                assert(texts(a@).len() == 2);
                assert(texts(a@)[0] == a@[0]@ && texts(a@)[1] == a@[1]@);
                Ok((copy_text(&a[0]), copy_text(&a[1])))
            },
        }
    } else {
        let ws = split_words(&s);
        if ws.len() < 2 {
            Err(Fatal::at(FatalKind::BadDirective, loc))
        } else {
            assert(texts(ws@)[0] == ws@[0]@ && texts(ws@)[1] == ws@[1]@);
            Ok((copy_text(&ws[0]), copy_text(&ws[1])))
        }
    }
}

/// Decides a conditional.
pub fn test_holds(ev: &mut Evaluator, loc: &Location, test: Test, rest: &Vec<char>) -> (r: Result<
    bool,
    Stop,
>)
    ensures
        test_step(r, *final(ev)) == holds(old(ev)@, loc@, test, rest@),
{
    let positive = match test {
        Test::Ifdef | Test::Ifeq => true,
        _ => false,
    };
    match test {
        Test::Ifdef | Test::Ifndef => {
            let name = expand_text(ev, loc, &trim_of(rest), DEPTH)?;
            let defined = ev.vars.lookup(&name).is_some();
            Ok(defined == positive)
        },
        _ => {
            let (a, b) = match operands_of(loc, rest) {
                Err(e) => {
                    return Err(Stop::Fatal(e));
                },
                Ok(p) => p,
            };
            let va = expand_text(ev, loc, &a, DEPTH)?;
            let vb = expand_text(ev, loc, &b, DEPTH)?;
            let eq = text_eq(&trim_of(&unquoted(&va)), &trim_of(&unquoted(&vb)));
            Ok(eq == positive)
        },
    }
}

/// The conditional that a line begins, and what follows its word.
pub open spec fn test_of(line: Seq<char>) -> Option<(Test, Seq<char>)> {
    if keyword(line, "ifeq"@) is Some {
        Some((Test::Ifeq, keyword(line, "ifeq"@)->0))
    } else if keyword(line, "ifneq"@) is Some {
        Some((Test::Ifneq, keyword(line, "ifneq"@)->0))
    } else if keyword(line, "ifdef"@) is Some {
        Some((Test::Ifdef, keyword(line, "ifdef"@)->0))
    } else if keyword(line, "ifndef"@) is Some {
        Some((Test::Ifndef, keyword(line, "ifndef"@)->0))
    } else {
        None
    }
}

/// The conditional that `line` begins, and what follows its word.
pub fn test_in(line: &Vec<char>) -> (r: Option<(Test, Vec<char>)>)
    ensures
        match r {
            Some(p) => test_of(line@) == Some((p.0, p.1@)),
            None => test_of(line@) is None,
        },
{
    match after_keyword(line, "ifeq") {
        Some(rest) => {
            return Some((Test::Ifeq, rest));
        },
        None => {},
    }
    match after_keyword(line, "ifneq") {
        Some(rest) => {
            return Some((Test::Ifneq, rest));
        },
        None => {},
    }
    match after_keyword(line, "ifdef") {
        Some(rest) => {
            return Some((Test::Ifdef, rest));
        },
        None => {},
    }
    match after_keyword(line, "ifndef") {
        Some(rest) => {
            return Some((Test::Ifndef, rest));
        },
        None => {},
    }
    None
}

/// The operator that a `define` names; `=` if it names none.
pub open spec fn define_op(ws: Seq<Seq<char>>) -> Option<VarOp> {
    if ws.len() < 2 || ws[1] == "="@ {
        Some(VarOp::Store(false))
    } else if ws[1] == ":="@ || ws[1] == "::="@ {
        Some(VarOp::Store(true))
    } else if ws[1] == "+="@ {
        Some(VarOp::Append)
    } else if ws[1] == "?="@ {
        Some(VarOp::StoreIfUndef)
    } else if ws[1] == "!="@ {
        Some(VarOp::Shell)
    } else {
        None
    }
}

fn define_op_of(ws: &Vec<Vec<char>>) -> (r: Option<VarOp>)
    ensures
        r == define_op(texts(ws@)),
{
    if ws.len() < 2 {
        return Some(VarOp::Store(false));
    }
    assert(texts(ws@)[1] == ws@[1]@);
    let w = &ws[1];
    if text_eq(w, &chars_of("=")) {
        Some(VarOp::Store(false))
    } else if text_eq(w, &chars_of(":=")) || text_eq(w, &chars_of("::=")) {
        Some(VarOp::Store(true))
    } else if text_eq(w, &chars_of("+=")) {
        Some(VarOp::Append)
    } else if text_eq(w, &chars_of("?=")) {
        Some(VarOp::StoreIfUndef)
    } else if text_eq(w, &chars_of("!=")) {
        Some(VarOp::Shell)
    } else {
        None
    }
}

/// Whether a line could be read, and the state in which it leaves the
/// fragments, the reader, the store and the host.
pub struct ReadStep {
    pub result: Result<(), StopView>,
    pub state: StateView,
    pub reader: ReaderView,
    pub ev: EvalView,
}

pub open spec fn read_step(
    r: Result<(), Stop>,
    state: State,
    reader: Reader,
    ev: Evaluator,
) -> ReadStep {
    ReadStep {
        result: match r {
            Ok(_) => Ok(()),
            Err(s) => Err(s@),
        },
        state: state@,
        reader: reader@,
        ev: ev@,
    }
}

pub open spec fn with_reader(p: ParseStep, reader: ReaderView) -> ReadStep {
    ReadStep { result: p.result, state: p.state, reader, ev: p.ev }
}

/// The levels after an `else`, alone or with a conditional that holds as
/// `test` says: the innermost level counts from now on if no branch of it
/// was selected before and the `else` is alone or its conditional holds;
/// it does not count if a branch of it was selected. Without a level the
/// lines that follow do not count.
pub open spec fn after_else(levels: Seq<Level>, test: Option<bool>) -> Seq<Level> {
    if levels.len() == 0 {
        levels.push(Level { taken: true, live: false })
    } else if !all_live(levels, levels.len() - 1) {
        levels
    } else if levels.last().taken {
        levels.update(levels.len() - 1, Level { taken: true, live: false })
    } else {
        let c = match test {
            Some(b) => b,
            None => true,
        };
        levels.update(levels.len() - 1, Level { taken: c, live: c })
    }
}

/// Whether an `else` with a conditional decides it: where the innermost
/// level counts for the lines around it and no branch of it was selected.
pub open spec fn else_decides(levels: Seq<Level>) -> bool {
    levels.len() > 0 && all_live(levels, levels.len() - 1) && !levels.last().taken
}

/// Of one level at most one branch is taken: once a branch of the
/// innermost level was selected, an `else` leaves that level without
/// effect for the lines that follow, whatever its conditional says.
pub proof fn lemma_one_branch_of_a_level(levels: Seq<Level>, test: Option<bool>)
    requires
        levels.len() > 0,
        levels.last().taken,
    ensures
        after_else(levels, test).len() == levels.len(),
        after_else(levels, test).last().taken,
        !after_else(levels, test).last().live || !all_live(levels, levels.len() - 1),
        !all_live(after_else(levels, test), levels.len() as int),
{
    let a = after_else(levels, test);
    if all_live(levels, levels.len() - 1) {
        assert(!a.last().live);
    } else {
        lemma_dead_below(levels, levels.len() - 1, levels.len() as int);
    }
}

/// Where a level does not count, no line inside the levels above it counts.
pub proof fn lemma_dead_below(levels: Seq<Level>, k: int, n: int)
    requires
        0 <= k <= n <= levels.len(),
        !all_live(levels, k),
    ensures
        !all_live(levels, n),
    decreases n - k,
{
    if k < n {
        lemma_dead_below(levels, k, n - 1);
    }
}

/// The text of a `define` after one more line.
pub open spec fn define_more(d: DefineView, line: Seq<char>) -> DefineView {
    DefineView {
        text: if d.lines == 0 {
            line
        } else {
            d.text + seq!['\n'] + line
        },
        lines: if d.lines < usize::MAX {
            (d.lines + 1) as usize
        } else {
            d.lines
        },
        ..d
    }
}

/// What an `else` does: see `after_else`.
pub open spec fn read_else(
    state: StateView,
    reader: ReaderView,
    ev: EvalView,
    loc: LocationView,
    rest: Seq<char>,
) -> ReadStep {
    if trim(rest).len() == 0 || !else_decides(reader.levels) {
        ReadStep {
            result: Ok(()),
            state,
            reader: ReaderView { levels: after_else(reader.levels, None), ..reader },
            ev,
        }
    } else {
        match test_of(rest) {
            None => ReadStep {
                result: Err(stop_at(FatalKind::BadDirective, loc)),
                state,
                reader,
                ev,
            },
            Some((test, operand)) => {
                let t = holds(ev, loc, test, operand);
                match t.result {
                    Err(e) => ReadStep { result: Err(e), state, reader, ev: t.ev },
                    Ok(b) => ReadStep {
                        result: Ok(()),
                        state,
                        reader: ReaderView { levels: after_else(reader.levels, Some(b)), ..reader },
                        ev: t.ev,
                    },
                }
            },
        }
    }
}

/// What a recipe line does: it becomes a fragment for the targets of the
/// fragment before it. Where no recipe line may stand, it is an error.
pub open spec fn read_recipe(state: StateView, loc: LocationView, text: Seq<char>) -> Result<
    StateView,
    StopView,
> {
    if state.in_rule && state.rules.len() > 0 {
        Ok(
            StateView {
                rules: state.rules.push(
                    RuleView {
                        location: loc,
                        targets: state.rules.last().targets,
                        data: RuleDataView::Recipie(text),
                    },
                ),
                ..state
            },
        )
    } else {
        Err(stop_at(FatalKind::RecipeOutsideRule, loc))
    }
}

/// What the file does that an `include` names: it is read as a makefile;
/// one that is not there is passed over if `lenient`, else it is an error.
pub open spec fn include_one(
    state: StateView,
    ev: EvalView,
    loc: LocationView,
    lenient: bool,
    path: Seq<char>,
    fuel: nat,
) -> ParseStep
    decreases fuel, 0int, 0int,
{
    if fuel == 0 {
        failed(stop_at(FatalKind::TooDeep, loc), state, ev)
    } else {
        match ev.host.next() {
            None => failed(StopView::Need(RequestView::Read { path }), state, ev),
            Some(a) => {
                let ev1 = EvalView { host: ev.host.advance(), ..ev };
                match a {
                    AnswerView::Text { text } => process(state, ev1, path, text, (fuel - 1) as nat),
                    AnswerView::Missing => if lenient {
                        passed(state, ev1)
                    } else {
                        failed(
                            StopView::Fatal(fatal_about(FatalKind::MissingInclude, loc, path)),
                            state,
                            ev1,
                        )
                    },
                    _ => failed(stop_at(FatalKind::BadAnswer, loc), state, ev1),
                }
            },
        }
    }
}

/// What the files do that an `include` names, from number `i` on.
pub open spec fn include_from(
    state: StateView,
    ev: EvalView,
    loc: LocationView,
    lenient: bool,
    paths: Seq<Seq<char>>,
    i: int,
    fuel: nat,
) -> ParseStep
    decreases fuel, 1int, paths.len() - i,
{
    if i < 0 || i >= paths.len() {
        passed(state, ev)
    } else {
        let r = include_one(state, ev, loc, lenient, paths[i], fuel);
        match r.result {
            Err(e) => r,
            Ok(_) => include_from(r.state, r.ev, loc, lenient, paths, i + 1, fuel),
        }
    }
}

/// What an `include` does: after it no recipe line may follow.
pub open spec fn read_include(
    state: StateView,
    ev: EvalView,
    loc: LocationView,
    lenient: bool,
    rest: Seq<char>,
    fuel: nat,
) -> ParseStep
    decreases fuel, 2int, 0int,
{
    let s = StateView { in_rule: false, ..state };
    let e = expand(ev, loc, rest, DEPTH as nat);
    match e.result {
        Err(x) => failed(x, s, e.ev),
        Ok(t) => include_from(s, e.ev, loc, lenient, words(t), 0, fuel),
    }
}

/// What follows `include`, `-include` or `sinclude`, and whether a file
/// that is not there is passed over.
pub open spec fn include_of(line: Seq<char>) -> Option<(bool, Seq<char>)> {
    if keyword(line, "include"@) is Some {
        Some((false, keyword(line, "include"@)->0))
    } else if keyword(line, "-include"@) is Some {
        Some((true, keyword(line, "-include"@)->0))
    } else if keyword(line, "sinclude"@) is Some {
        Some((true, keyword(line, "sinclude"@)->0))
    } else {
        None
    }
}

pub open spec fn first_of<A>(p: (A, Seq<char>)) -> A {
    let (a, b) = p;
    a
}

pub open spec fn second_of<A>(p: (A, Seq<char>)) -> Seq<char> {
    let (a, b) = p;
    b
}

/// What a line does inside a `define`: `endef` assigns the text to the
/// name, and any other line is added to the text.
pub open spec fn read_defining(
    state: StateView,
    reader: ReaderView,
    ev: EvalView,
    loc: LocationView,
    line: Seq<char>,
    d: DefineView,
) -> ReadStep {
    if keyword(line, "endef"@) is Some {
        with_reader(
            assign_global(state, ev, loc, d.name, d.op, d.text, false, Origin::File),
            ReaderView { define: None, ..reader },
        )
    } else {
        ReadStep {
            result: Ok(()),
            state,
            reader: ReaderView { define: Some(define_more(d, line)), ..reader },
            ev,
        }
    }
}

/// What a line does where a level of conditionals does not count: a
/// conditional opens a level that never counts, `endif` closes a level,
/// `else` is as `after_else` says, and any other line is passed over.
pub open spec fn read_skipping(
    state: StateView,
    reader: ReaderView,
    ev: EvalView,
    loc: LocationView,
    line: Seq<char>,
) -> ReadStep {
    if test_of(line) is Some {
        ReadStep {
            result: Ok(()),
            state,
            reader: ReaderView {
                levels: reader.levels.push(Level { taken: true, live: false }),
                ..reader
            },
            ev,
        }
    } else if keyword(line, "endif"@) is Some {
        ReadStep {
            result: Ok(()),
            state,
            reader: ReaderView { levels: reader.levels.drop_last(), ..reader },
            ev,
        }
    } else if keyword(line, "else"@) is Some {
        read_else(state, reader, ev, loc, keyword(line, "else"@)->0)
    } else {
        ReadStep { result: Ok(()), state, reader, ev }
    }
}

/// What `define` does: it opens a definition of the name that follows it,
/// with the operator that follows the name.
pub open spec fn read_define(
    state: StateView,
    reader: ReaderView,
    ev: EvalView,
    loc: LocationView,
    rest: Seq<char>,
) -> ReadStep {
    let ws = words(rest);
    if ws.len() == 0 || define_op(ws) is None {
        ReadStep { result: Err(stop_at(FatalKind::BadDirective, loc)), state, reader, ev }
    } else {
        ReadStep {
            result: Ok(()),
            state,
            reader: ReaderView {
                define: Some(
                    DefineView { name: ws[0], op: define_op(ws)->0, text: Seq::empty(), lines: 0 },
                ),
                ..reader
            },
            ev,
        }
    }
}

/// What a conditional does where every level counts: it opens a level
/// that counts if the conditional holds.
pub open spec fn read_test(
    state: StateView,
    reader: ReaderView,
    ev: EvalView,
    loc: LocationView,
    test: Test,
    operand: Seq<char>,
) -> ReadStep {
    let t = holds(ev, loc, test, operand);
    match t.result {
        Err(e) => ReadStep { result: Err(e), state, reader, ev: t.ev },
        Ok(b) => ReadStep {
            result: Ok(()),
            state,
            reader: ReaderView { levels: reader.levels.push(Level { taken: b, live: b }), ..reader },
            ev: t.ev,
        },
    }
}

/// What `endif` does: it closes the innermost level, if there is one.
pub open spec fn read_endif(state: StateView, reader: ReaderView, ev: EvalView) -> ReadStep {
    ReadStep {
        result: Ok(()),
        state,
        reader: ReaderView {
            levels: if reader.levels.len() > 0 {
                reader.levels.drop_last()
            } else {
                reader.levels
            },
            ..reader
        },
        ev,
    }
}

/// What a line does where every level counts, in this order:
/// - `define` opens a definition, a conditional a level, `else` and
///   `endif` end a branch;
/// - a line that begins with a tab is a recipe line;
/// - an empty line does nothing;
/// - `include` reads other files;
/// - any other line is what `parse` says.
pub open spec fn read_active(
    state: StateView,
    reader: ReaderView,
    ev: EvalView,
    loc: LocationView,
    line: Seq<char>,
    fuel: nat,
) -> ReadStep
    decreases fuel, 3int, 0int,
{
    if keyword(line, "define"@) is Some {
        read_define(state, reader, ev, loc, keyword(line, "define"@)->0)
    } else if test_of(line) is Some {
        read_test(state, reader, ev, loc, first_of(test_of(line)->0), second_of(test_of(line)->0))
    } else if keyword(line, "else"@) is Some {
        read_else(state, reader, ev, loc, keyword(line, "else"@)->0)
    } else if keyword(line, "endif"@) is Some {
        read_endif(state, reader, ev)
    } else if line.len() > 0 && line[0] == '\t' {
        match read_recipe(state, loc, line.skip(1)) {
            Ok(s) => ReadStep { result: Ok(()), state: s, reader, ev },
            Err(e) => ReadStep { result: Err(e), state, reader, ev },
        }
    } else if trim(line).len() == 0 {
        ReadStep { result: Ok(()), state, reader, ev }
    } else if include_of(line) is Some {
        with_reader(
            read_include(
                state,
                ev,
                loc,
                first_of(include_of(line)->0),
                second_of(include_of(line)->0),
                fuel,
            ),
            reader,
        )
    } else {
        with_reader(parse(state, ev, loc, line), reader)
    }
}

/// What one logical line does: inside a `define` what `read_defining`
/// says; else, where a level of conditionals does not count, what
/// `read_skipping` says; else what `read_active` says.
pub open spec fn read_line(
    state: StateView,
    reader: ReaderView,
    ev: EvalView,
    loc: LocationView,
    line: Seq<char>,
    fuel: nat,
) -> ReadStep
    decreases fuel, 4int, 0int,
{
    if reader.define is Some {
        read_defining(state, reader, ev, loc, line, reader.define->0)
    } else if !all_live(reader.levels, reader.levels.len() as int) {
        read_skipping(state, reader, ev, loc, line)
    } else {
        read_active(state, reader, ev, loc, line, fuel)
    }
}

pub proof fn lemma_scan_advances(
    text: Seq<char>,
    pos: int,
    st: crate::lines::Scan,
    recipe: bool,
)
    requires
        0 <= pos <= text.len(),
    ensures
        pos <= crate::lines::scan(text, pos, st, recipe).1 <= text.len(),
        pos < text.len() ==> pos < crate::lines::scan(text, pos, st, recipe).1,
    decreases text.len() - pos, 1int,
{
    if pos < text.len() {
        lemma_scan_step(text, pos, st, recipe);
    }
}

proof fn lemma_scan_step(text: Seq<char>, pos: int, st: crate::lines::Scan, recipe: bool)
    requires
        0 <= pos < text.len(),
    ensures
        pos < crate::lines::scan(text, pos, st, recipe).1 <= text.len(),
    decreases text.len() - pos, 0int,
{
    let c = text[pos];
    let plain = !st.single && !st.double;
    crate::lines::lemma_line_end(text, pos);
    if c == '\n' {
    } else if c == '\\' && pos + 1 < text.len() && text[pos + 1] == '\n' {
        if pos + 2 < text.len() && text[pos + 2] == '#' {
            crate::lines::lemma_line_end(text, pos + 2);
        } else {
            crate::lines::lemma_skip_blank(text, pos + 2);
            let q = crate::lines::skip_blank(text, pos + 2);
            lemma_scan_advances(
                    text,
                    q,
                    crate::lines::Scan { mark: None, lines: st.lines + 1, ..st },
                    recipe,
                );
        }
    } else if c == '#' && plain && st.stack.len() == 0 && !recipe {
        let e = crate::lines::line_end(text, pos);
        match st.mark {
            Some(m) => {
                if e < text.len() {
                    crate::lines::lemma_skip_blank(text, e + 1);
                    let q = crate::lines::skip_blank(text, e + 1);
                    lemma_scan_advances(
                            text,
                            q,
                            crate::lines::Scan {
                                out: st.out.take(m),
                                mark: None,
                                lines: st.lines + 1,
                                ..st
                            },
                            recipe,
                        );
                }
            },
            None => {},
        }
    } else if c == '\'' && !st.double {
        lemma_scan_advances(
                text,
                pos + 1,
                crate::lines::Scan { out: st.out.push(c), single: !st.single, mark: None, ..st },
                recipe,
            );
    } else if c == '"' && !st.single {
        lemma_scan_advances(
                text,
                pos + 1,
                crate::lines::Scan { out: st.out.push(c), double: !st.double, mark: None, ..st },
                recipe,
            );
    } else if plain && c == '$' && pos + 1 < text.len() && crate::args::is_opener(text[pos + 1]) {
        lemma_scan_advances(
                text,
                pos + 2,
                crate::lines::Scan {
                    out: st.out.push(c).push(text[pos + 1]),
                    stack: st.stack.push(text[pos + 1]),
                    mark: None,
                    ..st
                },
                recipe,
            );
    } else if plain && st.stack.len() > 0 && crate::args::is_opener(c) {
        lemma_scan_advances(
                text,
                pos + 1,
                crate::lines::Scan { out: st.out.push(c), stack: st.stack.push(c), mark: None, ..st },
                recipe,
            );
    } else if plain && st.stack.len() > 0 && crate::args::is_closer(c) && st.stack.last()
        == crate::args::opener_of(c) {
        lemma_scan_advances(
                text,
                pos + 1,
                crate::lines::Scan {
                    out: st.out.push(c),
                    stack: st.stack.drop_last(),
                    mark: None,
                    ..st
                },
                recipe,
            );
    } else if c == '\\' {
        lemma_scan_advances(
                text,
                pos + 1,
                crate::lines::Scan { out: st.out.push(c), mark: Some(st.out.len() as int), ..st },
                recipe,
            );
    } else if c == ' ' || c == '\t' {
        lemma_scan_advances(
                text,
                pos + 1,
                crate::lines::Scan { out: st.out.push(c), ..st },
                recipe,
            );
    } else {
        lemma_scan_advances(
                text,
                pos + 1,
                crate::lines::Scan { out: st.out.push(c), mark: None, ..st },
                recipe,
            );
    }
}

/// A logical line ends after the position at which it begins.
pub proof fn lemma_line_advances(text: Seq<char>, pos: int, line_no: usize)
    requires
        0 <= pos < text.len(),
    ensures
        pos < logical_line(text, pos, line_no).next <= text.len(),
{
    let p0 = if line_no == 0 && text[pos] == '\u{feff}' {
        pos + 1
    } else {
        pos
    };
    crate::lines::lemma_skip_space(text, p0);
    let p = crate::lines::line_start(text, pos, line_no);
    if p < text.len() {
        if text[p] == '#' {
            crate::lines::lemma_line_end(text, p);
        } else {
            lemma_scan_advances(text, p, crate::lines::fresh(), text[p] == '\t');
        }
    }
}

/// What the lines of a file do from position `pos` on. A file that ends
/// inside a conditional or a `define` is an error.
pub open spec fn process_from(
    state: StateView,
    reader: ReaderView,
    ev: EvalView,
    file: Seq<char>,
    text: Seq<char>,
    pos: int,
    line_no: usize,
    fuel: nat,
) -> ParseStep
    decreases fuel, 5int, text.len() - pos,
{
    if pos < 0 || pos >= text.len() {
        if reader.define is Some {
            failed(
                stop_at(FatalKind::BadDirective, LocationView { file_name: file, line: line_no }),
                state,
                ev,
            )
        } else if reader.levels.len() > 0 {
            failed(
                stop_at(FatalKind::MissingEndif, LocationView { file_name: file, line: line_no }),
                state,
                ev,
            )
        } else {
            passed(state, ev)
        }
    } else {
        let l = logical_line(text, pos, line_no);
        let r = read_line(
            state,
            reader,
            ev,
            LocationView { file_name: file, line: l.line },
            l.text,
            fuel,
        );
        match r.result {
            Err(e) => ParseStep { result: Err(e), state: r.state, ev: r.ev },
            Ok(_) => {
                proof {
                    lemma_line_advances(text, pos, line_no);
                }
                process_from(r.state, r.reader, r.ev, file, text, l.next, l.line_no, fuel)
            },
        }
    }
}

/// What a makefile does: its logical lines are read in order.
pub open spec fn process(
    state: StateView,
    ev: EvalView,
    file: Seq<char>,
    text: Seq<char>,
    fuel: nat,
) -> ParseStep
    decreases fuel, 6int, 0int,
{
    process_from(
        state,
        ReaderView { levels: Seq::empty(), define: None },
        ev,
        file,
        text,
        0,
        0,
        fuel,
    )
}

fn else_levels(levels: &mut Vec<Level>, test: Option<bool>)
    ensures
        final(levels)@ == after_else(old(levels)@, test),
{
    let n = levels.len();
    if n == 0 {
        levels.push(Level { taken: true, live: false });
    } else if !live_up_to(levels, n - 1) {
    } else if levels[n - 1].taken {
        levels[n - 1] = Level { taken: true, live: false };
    } else {
        let c = match test {
            Some(b) => b,
            None => true,
        };
        levels[n - 1] = Level { taken: c, live: c };
    }
}

fn process_else(
    state: &State,
    reader: &mut Reader,
    ev: &mut Evaluator,
    loc: &Location,
    rest: &Vec<char>,
) -> (r: Result<(), Stop>)
    ensures
        read_step(r, *state, *final(reader), *final(ev)) == read_else(
            state@,
            old(reader)@,
            old(ev)@,
            loc@,
            rest@,
        ),
{
    let n = reader.levels.len();
    let decides = n > 0 && live_up_to(&reader.levels, n - 1) && !reader.levels[n - 1].taken;
    if trim_of(rest).len() == 0 || !decides {
        else_levels(&mut reader.levels, None);
        return Ok(());
    }
    match test_in(rest) {
        None => Err(Stop::Fatal(Fatal::at(FatalKind::BadDirective, loc))),
        Some((test, operand)) => {
            let b = test_holds(ev, loc, test, &operand)?;
            else_levels(&mut reader.levels, Some(b));
            Ok(())
        },
    }
}

fn process_recipe(state: &mut State, loc: &Location, text: Vec<char>) -> (r: Result<(), Stop>)
    ensures
        match r {
            Ok(_) => read_recipe(old(state)@, loc@, text@) == Ok::<StateView, StopView>(
                final(state)@,
            ),
            Err(e) => read_recipe(old(state)@, loc@, text@) == Err::<StateView, StopView>(e@)
                && final(state)@ == old(state)@,
        },
{
    if state.in_rule && state.rules.len() > 0 {
        let targets = copy_texts(&state.rules[state.rules.len() - 1].targets);
        state.push_rule(Rule { location: loc.copy(), targets, data: RuleData::Recipie(text) });
        Ok(())
    } else {
        Err(Stop::Fatal(Fatal::at(FatalKind::RecipeOutsideRule, loc)))
    }
}

fn include_in(line: &Vec<char>) -> (r: Option<(bool, Vec<char>)>)
    ensures
        match r {
            Some(p) => include_of(line@) == Some((p.0, p.1@)),
            None => include_of(line@) is None,
        },
{
    match after_keyword(line, "include") {
        Some(rest) => {
            return Some((false, rest));
        },
        None => {},
    }
    match after_keyword(line, "-include") {
        Some(rest) => {
            return Some((true, rest));
        },
        None => {},
    }
    match after_keyword(line, "sinclude") {
        Some(rest) => {
            return Some((true, rest));
        },
        None => {},
    }
    None
}

/// Reads the makefile `path`, which an `include` at `loc` names.
pub fn include_file(
    state: &mut State,
    ev: &mut Evaluator,
    loc: &Location,
    lenient: bool,
    path: &Vec<char>,
    fuel: usize,
) -> (r: Result<(), Stop>)
    ensures
        parse_step(r, *final(state), *final(ev)) == include_one(
            old(state)@,
            old(ev)@,
            loc@,
            lenient,
            path@,
            fuel as nat,
        ),
    decreases fuel, 0int, 0int,
{
    if fuel == 0 {
        return Err(Stop::Fatal(Fatal::at(FatalKind::TooDeep, loc)));
    }
    match ev.host.take() {
        None => Err(Stop::Need(Request::Read { path: copy_text(path) })),
        Some(a) => match a {
            Answer::Text { text } => process_lines(state, ev, path, &text, fuel - 1),
            Answer::Missing => {
                if lenient {
                    Ok(())
                } else {
                    Err(Stop::Fatal(Fatal::about(FatalKind::MissingInclude, loc, copy_text(path))))
                }
            },
            _ => Err(Stop::Fatal(Fatal::at(FatalKind::BadAnswer, loc))),
        },
    }
}

fn include_files(
    state: &mut State,
    ev: &mut Evaluator,
    loc: &Location,
    lenient: bool,
    paths: &Vec<Vec<char>>,
    fuel: usize,
) -> (r: Result<(), Stop>)
    ensures
        parse_step(r, *final(state), *final(ev)) == include_from(
            old(state)@,
            old(ev)@,
            loc@,
            lenient,
            texts(paths@),
            0,
            fuel as nat,
        ),
    decreases fuel, 1int, paths.len(),
{
    let mut i: usize = 0;
    while i < paths.len()
        invariant
            i <= paths.len(),
            include_from(state@, ev@, loc@, lenient, texts(paths@), i as int, fuel as nat)
                == include_from(
                old(state)@,
                old(ev)@,
                loc@,
                lenient,
                texts(paths@),
                0,
                fuel as nat,
            ),
        decreases paths.len() - i,
    {
        assert(texts(paths@)[i as int] == paths@[i as int]@);
        match include_file(state, ev, loc, lenient, &paths[i], fuel) {
            Err(e) => {
                return Err(e);
            },
            Ok(_) => {},
        }
        i += 1;
    }
    Ok(())
}

fn process_include(
    state: &mut State,
    ev: &mut Evaluator,
    loc: &Location,
    lenient: bool,
    rest: &Vec<char>,
    fuel: usize,
) -> (r: Result<(), Stop>)
    ensures
        parse_step(r, *final(state), *final(ev)) == read_include(
            old(state)@,
            old(ev)@,
            loc@,
            lenient,
            rest@,
            fuel as nat,
        ),
    decreases fuel, 2int, 0int,
{
    state.in_rule = false;
    let t = expand_text(ev, loc, rest, DEPTH)?;
    let paths = split_words(&t);
    include_files(state, ev, loc, lenient, &paths, fuel)
}

fn process_defining(
    state: &State,
    reader: &mut Reader,
    ev: &mut Evaluator,
    loc: &Location,
    line: &Vec<char>,
    d: Define,
) -> (r: Result<(), Stop>)
    requires
        old(reader)@.define is None,
    ensures
        read_step(r, *state, *final(reader), *final(ev)) == read_defining(
            state@,
            ReaderView { define: Some(d@), ..old(reader)@ },
            old(ev)@,
            loc@,
            line@,
            d@,
        ),
{
    if after_keyword(line, "endef").is_some() {
        return crate::parse::assign_text(state, ev, loc, d.name, d.op, &d.text, false, Origin::File);
    }
    let mut text = d.text;
    if d.lines == 0 {
        text = copy_text(line);
    } else {
        text.push('\n');
        append(&mut text, line);
        assert(text@ =~= d.text@ + seq!['\n'] + line@);
    }
    reader.define = Some(
        Define {
            name: d.name,
            op: d.op,
            text,
            lines: if d.lines < usize::MAX {
                d.lines + 1
            } else {
                d.lines
            },
        },
    );
    Ok(())
}

fn process_skipping(
    state: &State,
    reader: &mut Reader,
    ev: &mut Evaluator,
    loc: &Location,
    line: &Vec<char>,
) -> (r: Result<(), Stop>)
    requires
        old(reader).levels.len() > 0,
    ensures
        read_step(r, *state, *final(reader), *final(ev)) == read_skipping(
            state@,
            old(reader)@,
            old(ev)@,
            loc@,
            line@,
        ),
{
    if test_in(line).is_some() {
        reader.levels.push(Level { taken: true, live: false });
        return Ok(());
    }
    if after_keyword(line, "endif").is_some() {
        reader.levels.pop();
        return Ok(());
    }
    match after_keyword(line, "else") {
        Some(rest) => process_else(state, reader, ev, loc, &rest),
        None => Ok(()),
    }
}

fn process_define(state: &State, reader: &mut Reader, ev: &Evaluator, loc: &Location, rest: &Vec<char>) -> (r:
    Result<(), Stop>)
    ensures
        read_step(r, *state, *final(reader), *ev) == read_define(
            state@,
            old(reader)@,
            ev@,
            loc@,
            rest@,
        ),
{
    let ws = split_words(rest);
    let op = define_op_of(&ws);
    if ws.len() == 0 || op.is_none() {
        return Err(Stop::Fatal(Fatal::at(FatalKind::BadDirective, loc)));
    }
    assert(texts(ws@)[0] == ws@[0]@);
    reader.define = Some(
        Define { name: copy_text(&ws[0]), op: op.unwrap(), text: Vec::new(), lines: 0 },
    );
    Ok(())
}

fn process_test(
    state: &State,
    reader: &mut Reader,
    ev: &mut Evaluator,
    loc: &Location,
    test: Test,
    operand: &Vec<char>,
) -> (r: Result<(), Stop>)
    ensures
        read_step(r, *state, *final(reader), *final(ev)) == read_test(
            state@,
            old(reader)@,
            old(ev)@,
            loc@,
            test,
            operand@,
        ),
{
    let b = test_holds(ev, loc, test, operand)?;
    reader.levels.push(Level { taken: b, live: b });
    Ok(())
}

fn process_endif(state: &State, reader: &mut Reader, ev: &Evaluator) -> (r: Result<(), Stop>)
    ensures
        read_step(r, *state, *final(reader), *ev) == read_endif(state@, old(reader)@, ev@),
{
    if reader.levels.len() > 0 {
        reader.levels.pop();
    }
    Ok(())
}

fn process_active(
    state: &mut State,
    reader: &mut Reader,
    ev: &mut Evaluator,
    loc: &Location,
    line: &Vec<char>,
    fuel: usize,
) -> (r: Result<(), Stop>)
    ensures
        read_step(r, *final(state), *final(reader), *final(ev)) == read_active(
            old(state)@,
            old(reader)@,
            old(ev)@,
            loc@,
            line@,
            fuel as nat,
        ),
    decreases fuel, 3int, 0int,
{
    match after_keyword(line, "define") {
        Some(rest) => {
            return process_define(state, reader, ev, loc, &rest);
        },
        None => {},
    }
    match test_in(line) {
        Some((test, operand)) => {
            return process_test(state, reader, ev, loc, test, &operand);
        },
        None => {},
    }
    match after_keyword(line, "else") {
        Some(rest) => {
            return process_else(state, reader, ev, loc, &rest);
        },
        None => {},
    }
    if after_keyword(line, "endif").is_some() {
        return process_endif(state, reader, ev);
    }
    if line.len() > 0 && line[0] == '\t' {
        return process_recipe(state, loc, slice_of(line, 1, line.len()));
    }
    if trim_of(line).len() == 0 {
        return Ok(());
    }
    match include_in(line) {
        Some((lenient, rest)) => {
            return process_include(state, ev, loc, lenient, &rest, fuel);
        },
        None => {},
    }
    parse_line(state, ev, loc, line)
}

/// Reads one logical line.
pub fn process_line(
    state: &mut State,
    reader: &mut Reader,
    ev: &mut Evaluator,
    loc: &Location,
    line: &Vec<char>,
    fuel: usize,
) -> (r: Result<(), Stop>)
    ensures
        read_step(r, *final(state), *final(reader), *final(ev)) == read_line(
            old(state)@,
            old(reader)@,
            old(ev)@,
            loc@,
            line@,
            fuel as nat,
        ),
    decreases fuel, 4int, 0int,
{
    match reader.define.take() {
        Some(d) => {
            assert(old(reader)@ == (ReaderView { define: Some(d@), ..reader@ }));
            return process_defining(state, reader, ev, loc, line, d);
        },
        None => {},
    }
    let n = reader.levels.len();
    if !live_up_to(&reader.levels, n) {
        return process_skipping(state, reader, ev, loc, line);
    }
    process_active(state, reader, ev, loc, line, fuel)
}

/// Reads a makefile: `text` is what the file `file_name` holds.
pub fn process_lines(
    state: &mut State,
    ev: &mut Evaluator,
    file_name: &Vec<char>,
    text: &Vec<char>,
    fuel: usize,
) -> (r: Result<(), Stop>)
    ensures
        parse_step(r, *final(state), *final(ev)) == process(
            old(state)@,
            old(ev)@,
            file_name@,
            text@,
            fuel as nat,
        ),
    decreases fuel, 6int, 0int,
{
    let mut reader = Reader::new();
    let mut pos: usize = 0;
    let mut line_no: usize = 0;
    while pos < text.len()
        invariant
            process_from(
                state@,
                reader@,
                ev@,
                file_name@,
                text@,
                pos as int,
                line_no,
                fuel as nat,
            ) == process(old(state)@, old(ev)@, file_name@, text@, fuel as nat),
        decreases text.len() - pos,
    {
        let l = read_logical_line(text, pos, line_no);
        let loc = Location::at(copy_text(file_name), l.line);
        process_line(state, &mut reader, ev, &loc, &l.text, fuel)?;
        pos = l.next;
        line_no = l.line_no;
    }
    let loc = Location::at(copy_text(file_name), line_no);
    if reader.define.is_some() {
        Err(Stop::Fatal(Fatal::at(FatalKind::BadDirective, &loc)))
    } else if reader.levels.len() > 0 {
        Err(Stop::Fatal(Fatal::at(FatalKind::MissingEndif, &loc)))
    } else {
        Ok(())
    }
}

} // verus!
