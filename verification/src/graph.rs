//! The rule graph: for each target its prerequisites and its recipe.

use crate::expand::{expand_text, DEPTH};
use crate::fault::{fatal_about, fatal_at, message, Fatal, FatalKind, FatalView, Stop, StopView};
use crate::host::{EvalView, Evaluator, Stream};
use crate::meaning::expand;
use crate::number::{decimal, decimal_of};
use crate::rules::{holds, Rule, RuleData, RuleDataView, RuleView, State, StateView, VarOp};
use crate::text::{append, chars_of, copy_text, copy_texts, text_eq, texts};
use crate::vars::{Location, LocationView};
use crate::words::{split_words, words};
use vstd::prelude::*;

verus! {

/// One line of a recipe and where it stands.
pub struct Recipe {
    pub loc: Location,
    pub text: Vec<char>,
}

pub struct RecipeView {
    pub loc: LocationView,
    pub text: Seq<char>,
}

impl View for Recipe {
    type V = RecipeView;

    open spec fn view(&self) -> RecipeView {
        RecipeView { loc: self.loc@, text: self.text@ }
    }
}

pub open spec fn recipes_view(r: Seq<Recipe>) -> Seq<RecipeView> {
    Seq::new(r.len(), |i: int| r[i]@)
}

/// A variable for one target only.
pub struct Scoped {
    pub name: Vec<char>,
    pub op: VarOp,
    pub text: Vec<char>,
}

pub struct ScopedView {
    pub name: Seq<char>,
    pub op: VarOp,
    pub text: Seq<char>,
}

impl View for Scoped {
    type V = ScopedView;

    open spec fn view(&self) -> ScopedView {
        ScopedView { name: self.name@, op: self.op, text: self.text@ }
    }
}

pub open spec fn scoped_view(r: Seq<Scoped>) -> Seq<ScopedView> {
    Seq::new(r.len(), |i: int| r[i]@)
}

/// One rule of a target. A target with `::` rules has a node for each.
pub struct Node {
    pub name: Vec<char>,
    pub prerequisites: Vec<Vec<char>>,
    pub recipes: Vec<Recipe>,
    pub vars: Vec<Scoped>,
    pub phony: bool,
    pub silent: bool,
    pub double_colon: bool,
    /// A later rule line has named the target: a recipe that follows
    /// replaces the one that the node has.
    pub closed: bool,
}

pub struct NodeView {
    pub name: Seq<char>,
    pub prerequisites: Seq<Seq<char>>,
    pub recipes: Seq<RecipeView>,
    pub vars: Seq<ScopedView>,
    pub phony: bool,
    pub silent: bool,
    pub double_colon: bool,
    pub closed: bool,
}

impl View for Node {
    type V = NodeView;

    open spec fn view(&self) -> NodeView {
        NodeView {
            name: self.name@,
            prerequisites: texts(self.prerequisites@),
            recipes: recipes_view(self.recipes@),
            vars: scoped_view(self.vars@),
            phony: self.phony,
            silent: self.silent,
            double_colon: self.double_colon,
            closed: self.closed,
        }
    }
}

pub open spec fn graph_view(g: Seq<Node>) -> Seq<NodeView> {
    Seq::new(g.len(), |i: int| g[i]@)
}

pub proof fn lemma_graph_push(g: Seq<Node>, n: Node)
    ensures
        graph_view(g.push(n)) == graph_view(g).push(n@),
{
    assert(graph_view(g.push(n)) =~= graph_view(g).push(n@));
}

pub proof fn lemma_graph_replace(g: Seq<Node>, i: int, n: Node)
    requires
        0 <= i < g.len(),
    ensures
        graph_view(g.remove(i).insert(i, n)) == graph_view(g).update(i, n@),
{
    assert(g.remove(i).insert(i, n) =~= g.update(i, n));
    assert(graph_view(g.update(i, n)) =~= graph_view(g).update(i, n@));
}

/// The last node before `k` with the name; `-1` if there is none.
pub open spec fn last_node(g: Seq<NodeView>, name: Seq<char>, k: int) -> int
    decreases k,
{
    if k <= 0 || k > g.len() {
        -1
    } else if g[k - 1].name == name {
        k - 1
    } else {
        last_node(g, name, k - 1)
    }
}

/// The position after the last node with the name; zero if there is none.
pub fn after_last_node(g: &Vec<Node>, name: &Vec<char>) -> (r: usize)
    ensures
        r == last_node(graph_view(g@), name@, g.len() as int) + 1,
        r <= g.len(),
        r > 0 ==> g@[r - 1]@.name == name@,
{
    let mut k: usize = g.len();
    while k > 0 && !text_eq(&g[k - 1].name, name)
        invariant
            k <= g.len(),
            last_node(graph_view(g@), name@, k as int) == last_node(
                graph_view(g@),
                name@,
                g.len() as int,
            ),
        decreases k,
    {
        k -= 1;
    }
    k
}

/// A node without recipe or variables.
pub open spec fn new_node(
    state: StateView,
    name: Seq<char>,
    double: bool,
    prereqs: Seq<Seq<char>>,
) -> NodeView {
    NodeView {
        name,
        prerequisites: prereqs,
        recipes: Seq::empty(),
        vars: Seq::empty(),
        phony: state.phony.contains(name),
        silent: state.silent_targets.contains(name),
        double_colon: double,
        closed: false,
    }
}

/// The graph after a rule line has named a target:
/// - a target that is new gets a node;
/// - a target that has rules of the other kind is an error;
/// - a target with `::` rules gets one more node;
/// - a target with a `:` rule gets the prerequisites added to its node.
pub open spec fn add_prereqs(
    g: Seq<NodeView>,
    state: StateView,
    loc: LocationView,
    name: Seq<char>,
    double: bool,
    prereqs: Seq<Seq<char>>,
) -> Result<Seq<NodeView>, FatalView> {
    let k = last_node(g, name, g.len() as int);
    if k < 0 {
        Ok(g.push(new_node(state, name, double, prereqs)))
    } else if g[k].double_colon != double {
        Err(fatal_about(FatalKind::MixedColons, loc, name))
    } else if double {
        Ok(g.push(new_node(state, name, double, prereqs)))
    } else {
        Ok(
            g.update(
                k,
                NodeView {
                    prerequisites: g[k].prerequisites + prereqs,
                    closed: g[k].recipes.len() > 0,
                    ..g[k]
                },
            ),
        )
    }
}

/// Whether a recipe line replaces the recipe that the last node of the
/// target has: where a later rule line has named the target.
pub open spec fn replaces(g: Seq<NodeView>, name: Seq<char>) -> bool {
    let k = last_node(g, name, g.len() as int);
    k >= 0 && g[k].closed && g[k].recipes.len() > 0
}

/// The graph after a recipe line for a target: the line is added to the
/// recipe of the target's last node, or becomes its recipe where
/// `replaces` says so. A target without a node is an error.
pub open spec fn add_recipe(
    g: Seq<NodeView>,
    loc: LocationView,
    name: Seq<char>,
    text: Seq<char>,
) -> Result<Seq<NodeView>, FatalView> {
    let k = last_node(g, name, g.len() as int);
    let r = RecipeView { loc, text };
    if k < 0 {
        Err(fatal_at(FatalKind::RecipeOutsideRule, loc))
    } else if g[k].closed && g[k].recipes.len() > 0 {
        Ok(g.update(k, NodeView { recipes: seq![r], closed: false, ..g[k] }))
    } else {
        Ok(g.update(k, NodeView { recipes: g[k].recipes.push(r), closed: false, ..g[k] }))
    }
}

/// The graph after a variable for a target: the target's last node gets
/// it; a target that is new gets a node with a `:` rule.
pub open spec fn add_scoped(
    g: Seq<NodeView>,
    state: StateView,
    name: Seq<char>,
    v: ScopedView,
) -> Seq<NodeView> {
    let k = last_node(g, name, g.len() as int);
    if k < 0 {
        g.push(NodeView { vars: seq![v], ..new_node(state, name, false, Seq::empty()) })
    } else {
        g.update(k, NodeView { vars: g[k].vars.push(v), ..g[k] })
    }
}

/// The line that warns of a recipe that replaces another.
pub open spec fn override_warning(loc: LocationView, name: Seq<char>) -> Seq<char> {
    loc.file_name + seq![':'] + decimal(loc.line as nat) + ": warning: overriding recipe for target '"@
        + name + "'"@
}

/// A graph, or why there is none, and the evaluator after.
pub struct GraphStep {
    pub result: Result<Seq<NodeView>, StopView>,
    pub ev: EvalView,
}

pub open spec fn graph_step(r: Result<(), Stop>, g: Vec<Node>, ev: Evaluator) -> GraphStep {
    GraphStep {
        result: match r {
            Ok(_) => Ok(graph_view(g@)),
            Err(s) => Err(s@),
        },
        ev: ev@,
    }
}

/// What a fragment does for its targets from number `j` on: `prereqs` are
/// the words of its prerequisites, if it has some.
pub open spec fn add_targets(
    g: Seq<NodeView>,
    state: StateView,
    ev: EvalView,
    rule: RuleView,
    prereqs: Seq<Seq<char>>,
    j: int,
) -> GraphStep
    decreases rule.targets.len() - j,
{
    if j < 0 || j >= rule.targets.len() {
        GraphStep { result: Ok(g), ev }
    } else {
        let name = rule.targets[j];
        match rule.data {
            RuleDataView::Prereq(double, _) => match add_prereqs(
                g,
                state,
                rule.location,
                name,
                double,
                prereqs,
            ) {
                Err(e) => GraphStep { result: Err(StopView::Fatal(e)), ev },
                Ok(g1) => add_targets(g1, state, ev, rule, prereqs, j + 1),
            },
            RuleDataView::Recipie(text) => match add_recipe(g, rule.location, name, text) {
                Err(e) => GraphStep { result: Err(StopView::Fatal(e)), ev },
                Ok(g1) => add_targets(
                    g1,
                    state,
                    if replaces(g, name) {
                        EvalView {
                            host: ev.host.say(Stream::Error, override_warning(rule.location, name)),
                            ..ev
                        }
                    } else {
                        ev
                    },
                    rule,
                    prereqs,
                    j + 1,
                ),
            },
            RuleDataView::Var(n, op, text) => add_targets(
                add_scoped(g, state, name, ScopedView { name: n, op, text }),
                state,
                ev,
                rule,
                prereqs,
                j + 1,
            ),
        }
    }
}

/// What a fragment does: its prerequisites are expanded, once, and cut
/// into words; then each of its targets is taken in.
pub open spec fn add_rule(
    g: Seq<NodeView>,
    state: StateView,
    ev: EvalView,
    rule: RuleView,
) -> GraphStep {
    match rule.data {
        RuleDataView::Prereq(_, text) => {
            let e = expand(ev, rule.location, text, DEPTH as nat);
            match e.result {
                Err(s) => GraphStep { result: Err(s), ev: e.ev },
                Ok(t) => add_targets(g, state, e.ev, rule, words(t), 0),
            }
        },
        _ => add_targets(g, state, ev, rule, Seq::empty(), 0),
    }
}

/// The graph of the fragments from number `i` on, in their order.
pub open spec fn build_from(g: Seq<NodeView>, state: StateView, ev: EvalView, i: int) -> GraphStep
    decreases state.rules.len() - i,
{
    if i < 0 || i >= state.rules.len() {
        GraphStep { result: Ok(g), ev }
    } else {
        let r = add_rule(g, state, ev, state.rules[i]);
        match r.result {
            Err(e) => r,
            Ok(g1) => build_from(g1, state, r.ev, i + 1),
        }
    }
}

/// The graph of the fragments that the state holds.
pub open spec fn build(state: StateView, ev: EvalView) -> GraphStep {
    build_from(Seq::empty(), state, ev, 0)
}

fn fresh_node(state: &State, name: &Vec<char>, double: bool, prereqs: &Vec<Vec<char>>) -> (r: Node)
    ensures
        r@ == new_node(state@, name@, double, texts(prereqs@)),
{
    let r = Node {
        name: copy_text(name),
        prerequisites: copy_texts(prereqs),
        recipes: Vec::new(),
        vars: Vec::new(),
        phony: holds(&state.phony, name),
        silent: holds(&state.silent_targets, name),
        double_colon: double,
        closed: false,
    };
    assert(r@.recipes =~= Seq::empty());
    assert(r@.vars =~= Seq::empty());
    r
}

fn take_prereqs(
    g: &mut Vec<Node>,
    state: &State,
    loc: &Location,
    name: &Vec<char>,
    double: bool,
    prereqs: &Vec<Vec<char>>,
) -> (r: Result<(), Fatal>)
    ensures
        match r {
            Ok(_) => add_prereqs(
                graph_view(old(g)@),
                state@,
                loc@,
                name@,
                double,
                texts(prereqs@),
            ) == Ok::<Seq<NodeView>, FatalView>(graph_view(final(g)@)),
            Err(e) => add_prereqs(
                graph_view(old(g)@),
                state@,
                loc@,
                name@,
                double,
                texts(prereqs@),
            ) == Err::<Seq<NodeView>, FatalView>(e@),
        },
{
    let k = after_last_node(g, name);
    if k == 0 {
        let n = fresh_node(state, name, double, prereqs);
        proof {
            lemma_graph_push(g@, n);
        }
        g.push(n);
        Ok(())
    } else if g[k - 1].double_colon != double {
        Err(Fatal::about(FatalKind::MixedColons, loc, copy_text(name)))
    } else if double {
        let n = fresh_node(state, name, double, prereqs);
        proof {
            lemma_graph_push(g@, n);
        }
        g.push(n);
        Ok(())
    } else {
        let ghost before = g@;
        let mut n = g.remove(k - 1);
        crate::rules::extend(&mut n.prerequisites, prereqs);
        n.closed = n.recipes.len() > 0;
        g.insert(k - 1, n);
        proof {
            lemma_graph_replace(before, k - 1, n);
        }
        Ok(())
    }
}

fn take_recipe(g: &mut Vec<Node>, loc: &Location, name: &Vec<char>, text: &Vec<char>) -> (r:
    Result<bool, Fatal>)
    ensures
        match r {
            Ok(b) => add_recipe(graph_view(old(g)@), loc@, name@, text@) == Ok::<
                Seq<NodeView>,
                FatalView,
            >(graph_view(final(g)@)) && b == replaces(graph_view(old(g)@), name@),
            Err(e) => add_recipe(graph_view(old(g)@), loc@, name@, text@) == Err::<
                Seq<NodeView>,
                FatalView,
            >(e@),
        },
{
    let k = after_last_node(g, name);
    if k == 0 {
        return Err(Fatal::at(FatalKind::RecipeOutsideRule, loc));
    }
    let ghost before = g@;
    let mut n = g.remove(k - 1);
    let r = Recipe { loc: loc.copy(), text: copy_text(text) };
    let replace = n.closed && n.recipes.len() > 0;
    let ghost old_recipes = recipes_view(n.recipes@);
    if replace {
        n.recipes = Vec::new();
        n.recipes.push(r);
        assert(recipes_view(n.recipes@) =~= seq![r@]);
    } else {
        n.recipes.push(r);
        assert(recipes_view(n.recipes@) =~= old_recipes.push(r@));
    }
    n.closed = false;
    g.insert(k - 1, n);
    proof {
        lemma_graph_replace(before, k - 1, n);
    }
    Ok(replace)
}

fn take_scoped(g: &mut Vec<Node>, state: &State, name: &Vec<char>, v: Scoped)
    ensures
        graph_view(final(g)@) == add_scoped(graph_view(old(g)@), state@, name@, v@),
{
    let k = after_last_node(g, name);
    if k == 0 {
        let none: Vec<Vec<char>> = Vec::new();
        assert(texts(none@) =~= Seq::<Seq<char>>::empty());
        let mut n = fresh_node(state, name, false, &none);
        n.vars.push(v);
        assert(scoped_view(n.vars@) =~= seq![v@]);
        proof {
            lemma_graph_push(g@, n);
        }
        g.push(n);
    } else {
        let ghost before = g@;
        let mut n = g.remove(k - 1);
        let ghost old_vars = scoped_view(n.vars@);
        n.vars.push(v);
        assert(scoped_view(n.vars@) =~= old_vars.push(v@));
        g.insert(k - 1, n);
        proof {
            lemma_graph_replace(before, k - 1, n);
        }
    }
}

fn warn_of_override(ev: &mut Evaluator, loc: &Location, name: &Vec<char>)
    ensures
        final(ev)@ == (EvalView {
            host: old(ev)@.host.say(Stream::Error, override_warning(loc@, name@)),
            ..old(ev)@
        }),
{
    let mut line = copy_text(loc.file_text());
    line.push(':');
    append(&mut line, &decimal_of(loc.line()));
    append(&mut line, &chars_of(": warning: overriding recipe for target '"));
    append(&mut line, name);
    append(&mut line, &chars_of("'"));
    assert(line@ =~= override_warning(loc@, name@));
    ev.host.say(Stream::Error, line);
}

fn take_targets(
    g: &mut Vec<Node>,
    state: &State,
    ev: &mut Evaluator,
    rule: &Rule,
    prereqs: &Vec<Vec<char>>,
) -> (r: Result<(), Stop>)
    ensures
        graph_step(r, *final(g), *final(ev)) == add_targets(
            graph_view(old(g)@),
            state@,
            old(ev)@,
            rule@,
            texts(prereqs@),
            0,
        ),
{
    let mut j: usize = 0;
    while j < rule.targets.len()
        invariant
            j <= rule.targets.len(),
            add_targets(graph_view(g@), state@, ev@, rule@, texts(prereqs@), j as int)
                == add_targets(graph_view(old(g)@), state@, old(ev)@, rule@, texts(prereqs@), 0),
        decreases rule.targets.len() - j,
    {
        let name = &rule.targets[j];
        assert(rule@.targets[j as int] == name@);
        match &rule.data {
            RuleData::Prereq(double, _) => {
                match take_prereqs(g, state, &rule.location, name, *double, prereqs) {
                    Err(e) => {
                        return Err(Stop::Fatal(e));
                    },
                    Ok(_) => {},
                }
            },
            RuleData::Recipie(text) => {
                match take_recipe(g, &rule.location, name, text) {
                    Err(e) => {
                        return Err(Stop::Fatal(e));
                    },
                    Ok(replaced) => {
                        if replaced {
                            warn_of_override(ev, &rule.location, name);
                        }
                    },
                }
            },
            RuleData::Var(n, op, text) => {
                take_scoped(
                    g,
                    state,
                    name,
                    Scoped { name: copy_text(n), op: *op, text: copy_text(text) },
                );
            },
        }
        j += 1;
    }
    Ok(())
}

fn take_rule(g: &mut Vec<Node>, state: &State, ev: &mut Evaluator, rule: &Rule) -> (r: Result<
    (),
    Stop,
>)
    ensures
        graph_step(r, *final(g), *final(ev)) == add_rule(
            graph_view(old(g)@),
            state@,
            old(ev)@,
            rule@,
        ),
{
    match &rule.data {
        RuleData::Prereq(_, text) => {
            let t = match expand_text(ev, &rule.location, text, DEPTH) {
                Err(e) => {
                    return Err(e);
                },
                Ok(t) => t,
            };
            let ws = split_words(&t);
            take_targets(g, state, ev, rule, &ws)
        },
        _ => {
            let none: Vec<Vec<char>> = Vec::new();
            assert(texts(none@) =~= Seq::<Seq<char>>::empty());
            take_targets(g, state, ev, rule, &none)
        },
    }
}

/// Builds the graph of the fragments that the state holds.
pub fn build_graph(state: &State, ev: &mut Evaluator) -> (r: Result<Vec<Node>, Stop>)
    ensures
        (GraphStep {
            result: match r {
                Ok(g) => Ok(graph_view(g@)),
                Err(s) => Err(s@),
            },
            ev: final(ev)@,
        }) == build(state@, old(ev)@),
{
    let mut g: Vec<Node> = Vec::new();
    assert(graph_view(g@) =~= Seq::<NodeView>::empty());
    let mut i: usize = 0;
    while i < state.rules.len()
        invariant
            i <= state.rules.len(),
            build_from(graph_view(g@), state@, ev@, i as int) == build(state@, old(ev)@),
        decreases state.rules.len() - i,
    {
        assert(state@.rules[i as int] == state.rules@[i as int]@);
        match take_rule(&mut g, state, ev, &state.rules[i]) {
            Err(e) => {
                return Err(e);
            },
            Ok(_) => {},
        }
        i += 1;
    }
    Ok(g)
}

/// A rule line that names a target which has rules of the other kind is an
/// error, and its message is
/// `file:line: *** target file 'T' has both : and :: entries.  Stop`.
pub proof fn lemma_mixed_colons_are_fatal(
    g: Seq<NodeView>,
    state: StateView,
    loc: LocationView,
    name: Seq<char>,
    double: bool,
    prereqs: Seq<Seq<char>>,
)
    requires
        last_node(g, name, g.len() as int) >= 0,
        g[last_node(g, name, g.len() as int)].double_colon != double,
    ensures
        add_prereqs(g, state, loc, name, double, prereqs) == Err::<Seq<NodeView>, FatalView>(
            fatal_about(FatalKind::MixedColons, loc, name),
        ),
        message(fatal_about(FatalKind::MixedColons, loc, name)) == loc.file_name + seq![':']
            + decimal(loc.line as nat) + ": "@ + "*** "@ + ("target file '"@ + name
            + "' has both : and :: entries.  Stop"@),
{
}

/// What the special targets say, from fragment number `i` on: the
/// prerequisites of `.PHONY` are phony; those of `.SILENT` are silent, and
/// a `.SILENT` without prerequisites makes the whole run silent.
pub open spec fn specials_from(state: StateView, ev: EvalView, i: int) -> crate::parse::ParseStep
    decreases state.rules.len() - i,
{
    if i < 0 || i >= state.rules.len() {
        crate::parse::passed(state, ev)
    } else {
        let rule = state.rules[i];
        let special = rule.targets.len() > 0 && (rule.targets[0] == ".PHONY"@ || rule.targets[0]
            == ".SILENT"@);
        match rule.data {
            RuleDataView::Prereq(_, text) => if special {
                let e = expand(ev, rule.location, text, DEPTH as nat);
                match e.result {
                    Err(s) => crate::parse::failed(s, state, e.ev),
                    Ok(t) => specials_from(
                        if rule.targets[0] == ".PHONY"@ {
                            StateView { phony: state.phony + words(t), ..state }
                        } else if words(t).len() == 0 {
                            StateView { silent: true, ..state }
                        } else {
                            StateView {
                                silent_targets: state.silent_targets + words(t),
                                ..state
                            }
                        },
                        e.ev,
                        i + 1,
                    ),
                }
            } else {
                specials_from(state, ev, i + 1)
            },
            _ => specials_from(state, ev, i + 1),
        }
    }
}

/// Takes in what the special targets `.PHONY` and `.SILENT` say.
pub fn process_specials(state: &mut State, ev: &mut Evaluator) -> (r: Result<(), Stop>)
    ensures
        crate::parse::parse_step(r, *final(state), *final(ev)) == specials_from(
            old(state)@,
            old(ev)@,
            0,
        ),
{
    let mut i: usize = 0;
    while i < state.rules.len()
        invariant
            i <= state.rules.len(),
            state@.rules == old(state)@.rules,
            specials_from(state@, ev@, i as int) == specials_from(old(state)@, old(ev)@, 0),
        decreases state.rules.len() - i,
    {
        assert(state@.rules[i as int] == state.rules@[i as int]@);
        let phony = state.rules[i].targets.len() > 0 && text_eq(
            &state.rules[i].targets[0],
            &chars_of(".PHONY"),
        );
        let silent = state.rules[i].targets.len() > 0 && text_eq(
            &state.rules[i].targets[0],
            &chars_of(".SILENT"),
        );
        let found: Option<Vec<char>> = match &state.rules[i].data {
            RuleData::Prereq(_, text) => {
                if phony || silent {
                    Some(copy_text(text))
                } else {
                    None
                }
            },
            _ => None,
        };
        match found {
            Some(text) => {
                let loc = state.rules[i].location.copy();
                let t = match expand_text(ev, &loc, &text, DEPTH) {
                    Err(e) => {
                        return Err(e);
                    },
                    Ok(t) => t,
                };
                let ws = split_words(&t);
                if phony {
                    crate::rules::extend(&mut state.phony, &ws);
                } else if ws.len() == 0 {
                    state.silent = true;
                } else {
                    crate::rules::extend(&mut state.silent_targets, &ws);
                }
            },
            None => {},
        }
        i += 1;
    }
    Ok(())
}

/// What is made where the command line names no target: the prerequisites
/// of the last `.DEFAULT` that has some; else the first target of the
/// first fragment whose first target does not begin with a `.`.
pub struct Choice {
    pub default: Seq<Seq<char>>,
    pub first: Option<Seq<char>>,
}

pub open spec fn chosen(c: Choice) -> Seq<Seq<char>> {
    if c.default.len() > 0 {
        c.default
    } else {
        match c.first {
            Some(t) => seq![t],
            None => Seq::empty(),
        }
    }
}

/// A choice, or why there is none, and the evaluator after.
pub struct ChoiceStep {
    pub result: Result<Choice, StopView>,
    pub ev: EvalView,
}

pub open spec fn select_from(state: StateView, ev: EvalView, i: int, c: Choice) -> ChoiceStep
    decreases state.rules.len() - i,
{
    if i < 0 || i >= state.rules.len() {
        ChoiceStep { result: Ok(c), ev }
    } else {
        let rule = state.rules[i];
        if rule.targets.len() == 0 {
            select_from(state, ev, i + 1, c)
        } else if rule.targets[0] == ".DEFAULT"@ {
            match rule.data {
                RuleDataView::Prereq(_, text) => {
                    let e = expand(ev, rule.location, text, DEPTH as nat);
                    match e.result {
                        Err(s) => ChoiceStep { result: Err(s), ev: e.ev },
                        Ok(t) => select_from(
                            state,
                            e.ev,
                            i + 1,
                            if words(t).len() > 0 {
                                Choice { default: words(t), ..c }
                            } else {
                                c
                            },
                        ),
                    }
                },
                _ => select_from(state, ev, i + 1, c),
            }
        } else if rule.targets[0].len() > 0 && rule.targets[0][0] == '.' {
            select_from(state, ev, i + 1, c)
        } else if c.first is None {
            select_from(state, ev, i + 1, Choice { first: Some(rule.targets[0]), ..c })
        } else {
            select_from(state, ev, i + 1, c)
        }
    }
}

/// The targets to make where the command line names none, or why there
/// are none, and the evaluator after.
pub open spec fn select(state: StateView, ev: EvalView) -> crate::meaning::ListStep {
    let r = select_from(state, ev, 0, Choice { default: Seq::empty(), first: None });
    crate::meaning::ListStep {
        result: match r.result {
            Ok(c) => Ok(chosen(c)),
            Err(e) => Err(e),
        },
        ev: r.ev,
    }
}

/// Chooses the targets to make where the command line names none.
pub fn select_targets(state: &State, ev: &mut Evaluator) -> (r: Result<Vec<Vec<char>>, Stop>)
    ensures
        crate::expand::list_step(r, *final(ev)) == select(state@, old(ev)@),
{
    let mut default: Vec<Vec<char>> = Vec::new();
    let mut first: Option<Vec<char>> = None;
    assert(texts(default@) =~= Seq::<Seq<char>>::empty());
    let mut i: usize = 0;
    while i < state.rules.len()
        invariant
            i <= state.rules.len(),
            select_from(
                state@,
                ev@,
                i as int,
                Choice { default: texts(default@), first: crate::directive::opt_view(first) },
            ) == select_from(
                state@,
                old(ev)@,
                0,
                Choice { default: Seq::empty(), first: None },
            ),
        decreases state.rules.len() - i,
    {
        assert(state@.rules[i as int] == state.rules@[i as int]@);
        let rule = &state.rules[i];
        if rule.targets.len() > 0 {
            let t = &rule.targets[0];
            assert(rule@.targets[0] == t@);
            if text_eq(t, &chars_of(".DEFAULT")) {
                match &rule.data {
                    RuleData::Prereq(_, text) => {
                        let v = match expand_text(ev, &rule.location, text, DEPTH) {
                            Err(e) => {
                                return Err(e);
                            },
                            Ok(v) => v,
                        };
                        let ws = split_words(&v);
                        if ws.len() > 0 {
                            default = ws;
                        }
                    },
                    _ => {},
                }
            } else if t.len() > 0 && t[0] == '.' {
            } else if first.is_none() {
                first = Some(copy_text(t));
            }
        }
        i += 1;
    }
    if default.len() > 0 {
        Ok(default)
    } else {
        match first {
            Some(t) => {
                let mut r: Vec<Vec<char>> = Vec::new();
                r.push(t);
                assert(texts(r@) =~= seq![t@]);
                Ok(r)
            },
            None => {
                assert(texts(default@) =~= Seq::<Seq<char>>::empty());
                Ok(default)
            },
        }
    }
}

/// The rules of one target are all of one kind, and a target with a `:`
/// rule has one node.
pub open spec fn one_kind(g: Seq<NodeView>) -> bool {
    forall|i: int, j: int|
        0 <= i < j < g.len() && (#[trigger] g[i]).name == (#[trigger] g[j]).name ==> g[i].double_colon
            && g[j].double_colon
}

/// No node after the last node of a name has the name.
pub proof fn lemma_last_node_is_last(g: Seq<NodeView>, name: Seq<char>, k: int)
    requires
        0 <= k <= g.len(),
    ensures
        -1 <= last_node(g, name, k) < k,
        last_node(g, name, k) >= 0 ==> g[last_node(g, name, k)].name == name,
        forall|i: int| last_node(g, name, k) < i < k ==> (#[trigger] g[i]).name != name,
    decreases k,
{
    if k > 0 && g[k - 1].name != name {
        lemma_last_node_is_last(g, name, k - 1);
    }
}

/// Taking in a rule line, a recipe line or a variable keeps the rules of
/// each target of one kind.
pub proof fn lemma_graph_stays_of_one_kind(
    g: Seq<NodeView>,
    state: StateView,
    loc: LocationView,
    name: Seq<char>,
    double: bool,
    prereqs: Seq<Seq<char>>,
    text: Seq<char>,
    v: ScopedView,
)
    requires
        one_kind(g),
    ensures
        add_prereqs(g, state, loc, name, double, prereqs) is Ok ==> one_kind(
            add_prereqs(g, state, loc, name, double, prereqs)->Ok_0,
        ),
        add_recipe(g, loc, name, text) is Ok ==> one_kind(add_recipe(g, loc, name, text)->Ok_0),
        one_kind(add_scoped(g, state, name, v)),
{
    lemma_last_node_is_last(g, name, g.len() as int);
    let k = last_node(g, name, g.len() as int);
    if add_prereqs(g, state, loc, name, double, prereqs) is Ok {
        let h = add_prereqs(g, state, loc, name, double, prereqs)->Ok_0;
        assert forall|i: int, j: int|
            0 <= i < j < h.len() && (#[trigger] h[i]).name == (#[trigger] h[j]).name implies h[i].double_colon
            && h[j].double_colon by {
            if k < 0 {
                if j < g.len() {
                    assert(g[i].name == g[j].name);
                } else {
                    assert(g[i].name != name);
                }
            } else if double {
                if j < g.len() {
                    assert(g[i].name == g[j].name);
                } else if i < k {
                    assert(g[i].name == g[k].name);
                }
            } else {
                assert(h[i].name == g[i].name && h[j].name == g[j].name);
                assert(h[i].double_colon == g[i].double_colon);
                assert(h[j].double_colon == g[j].double_colon);
            }
        }
    }
    if add_recipe(g, loc, name, text) is Ok {
        let h = add_recipe(g, loc, name, text)->Ok_0;
        assert forall|i: int, j: int|
            0 <= i < j < h.len() && (#[trigger] h[i]).name == (#[trigger] h[j]).name implies h[i].double_colon
            && h[j].double_colon by {
            assert(h[i].name == g[i].name && h[j].name == g[j].name);
            assert(h[i].double_colon == g[i].double_colon);
            assert(h[j].double_colon == g[j].double_colon);
        }
    }
    let h = add_scoped(g, state, name, v);
    assert forall|i: int, j: int|
        0 <= i < j < h.len() && (#[trigger] h[i]).name == (#[trigger] h[j]).name implies h[i].double_colon
        && h[j].double_colon by {
        if k < 0 {
            if j < g.len() {
                assert(g[i].name == g[j].name);
            } else {
                assert(g[i].name != name);
            }
        } else {
            assert(h[i].name == g[i].name && h[j].name == g[j].name);
            assert(h[i].double_colon == g[i].double_colon);
            assert(h[j].double_colon == g[j].double_colon);
        }
    }
}

/// What a fragment does keeps the rules of each target of one kind.
pub proof fn lemma_targets_stay_of_one_kind(
    g: Seq<NodeView>,
    state: StateView,
    ev: EvalView,
    rule: RuleView,
    prereqs: Seq<Seq<char>>,
    j: int,
)
    requires
        one_kind(g),
        0 <= j,
    ensures
        add_targets(g, state, ev, rule, prereqs, j).result is Ok ==> one_kind(
            add_targets(g, state, ev, rule, prereqs, j).result->Ok_0,
        ),
    decreases rule.targets.len() - j,
{
    if j < rule.targets.len() {
        let name = rule.targets[j];
        match rule.data {
            RuleDataView::Prereq(double, _) => {
                lemma_graph_stays_of_one_kind(
                    g,
                    state,
                    rule.location,
                    name,
                    double,
                    prereqs,
                    Seq::empty(),
                    ScopedView { name, op: VarOp::Append, text: Seq::empty() },
                );
                match add_prereqs(g, state, rule.location, name, double, prereqs) {
                    Err(e) => {},
                    Ok(g1) => {
                        lemma_targets_stay_of_one_kind(g1, state, ev, rule, prereqs, j + 1);
                    },
                }
            },
            RuleDataView::Recipie(text) => {
                lemma_graph_stays_of_one_kind(
                    g,
                    state,
                    rule.location,
                    name,
                    false,
                    prereqs,
                    text,
                    ScopedView { name, op: VarOp::Append, text: Seq::empty() },
                );
                match add_recipe(g, rule.location, name, text) {
                    Err(e) => {},
                    Ok(g1) => {
                        let ev1 = if replaces(g, name) {
                            EvalView {
                                host: ev.host.say(
                                    Stream::Error,
                                    override_warning(rule.location, name),
                                ),
                                ..ev
                            }
                        } else {
                            ev
                        };
                        lemma_targets_stay_of_one_kind(g1, state, ev1, rule, prereqs, j + 1);
                    },
                }
            },
            RuleDataView::Var(n, op, text) => {
                let v = ScopedView { name: n, op, text };
                lemma_graph_stays_of_one_kind(
                    g,
                    state,
                    rule.location,
                    name,
                    false,
                    prereqs,
                    text,
                    v,
                );
                lemma_targets_stay_of_one_kind(
                    add_scoped(g, state, name, v),
                    state,
                    ev,
                    rule,
                    prereqs,
                    j + 1,
                );
            },
        }
    }
}

/// Building keeps the rules of each target of one kind, from any fragment on.
pub proof fn lemma_build_stays_of_one_kind(g: Seq<NodeView>, state: StateView, ev: EvalView, i: int)
    requires
        one_kind(g),
        0 <= i,
    ensures
        build_from(g, state, ev, i).result is Ok ==> one_kind(
            build_from(g, state, ev, i).result->Ok_0,
        ),
    decreases state.rules.len() - i,
{
    if i < state.rules.len() {
        let rule = state.rules[i];
        let r = add_rule(g, state, ev, rule);
        match rule.data {
            RuleDataView::Prereq(_, text) => {
                let e = expand(ev, rule.location, text, DEPTH as nat);
                match e.result {
                    Err(s) => {},
                    Ok(t) => {
                        lemma_targets_stay_of_one_kind(g, state, e.ev, rule, words(t), 0);
                    },
                }
            },
            _ => {
                lemma_targets_stay_of_one_kind(g, state, ev, rule, Seq::empty(), 0);
            },
        }
        match r.result {
            Err(e) => {},
            Ok(g1) => {
                lemma_build_stays_of_one_kind(g1, state, r.ev, i + 1);
            },
        }
    }
}

/// In a graph that was built, the rules of each target are all of one
/// kind: a target has one node with a `:` rule, or nodes with `::` rules.
pub proof fn lemma_built_graph_is_of_one_kind(state: StateView, ev: EvalView)
    ensures
        build(state, ev).result is Ok ==> one_kind(build(state, ev).result->Ok_0),
{
    lemma_build_stays_of_one_kind(Seq::empty(), state, ev, 0);
}

/// Whether the graph holds a rule of this kind for the target.
pub open spec fn has_kind(g: Seq<NodeView>, name: Seq<char>, double: bool) -> bool {
    exists|k: int| 0 <= k < g.len() && #[trigger] g[k].name == name && g[k].double_colon == double
}

/// A rule that the graph holds for a target stays in it, whatever is taken
/// in after.
pub proof fn lemma_kind_stays(
    g: Seq<NodeView>,
    state: StateView,
    loc: LocationView,
    name: Seq<char>,
    double: bool,
    prereqs: Seq<Seq<char>>,
    text: Seq<char>,
    v: ScopedView,
    n: Seq<char>,
    d: bool,
)
    requires
        has_kind(g, n, d),
    ensures
        add_prereqs(g, state, loc, name, double, prereqs) is Ok ==> has_kind(
            add_prereqs(g, state, loc, name, double, prereqs)->Ok_0,
            n,
            d,
        ),
        add_recipe(g, loc, name, text) is Ok ==> has_kind(add_recipe(g, loc, name, text)->Ok_0, n, d),
        has_kind(add_scoped(g, state, name, v), n, d),
{
    let k = choose|k: int| 0 <= k < g.len() && #[trigger] g[k].name == n && g[k].double_colon == d;
    lemma_last_node_is_last(g, name, g.len() as int);
    if add_prereqs(g, state, loc, name, double, prereqs) is Ok {
        let h = add_prereqs(g, state, loc, name, double, prereqs)->Ok_0;
        assert(h[k].name == n && h[k].double_colon == d);
    }
    if add_recipe(g, loc, name, text) is Ok {
        let h = add_recipe(g, loc, name, text)->Ok_0;
        assert(h[k].name == n && h[k].double_colon == d);
    }
    let h = add_scoped(g, state, name, v);
    assert(h[k].name == n && h[k].double_colon == d);
}

/// After a rule line was taken in for a target, the graph holds a rule of
/// the line's kind for it.
pub proof fn lemma_kind_comes(
    g: Seq<NodeView>,
    state: StateView,
    loc: LocationView,
    name: Seq<char>,
    double: bool,
    prereqs: Seq<Seq<char>>,
)
    requires
        add_prereqs(g, state, loc, name, double, prereqs) is Ok,
    ensures
        has_kind(add_prereqs(g, state, loc, name, double, prereqs)->Ok_0, name, double),
{
    lemma_last_node_is_last(g, name, g.len() as int);
    let k = last_node(g, name, g.len() as int);
    let h = add_prereqs(g, state, loc, name, double, prereqs)->Ok_0;
    if k < 0 || double {
        assert(h[g.len() as int].name == name && h[g.len() as int].double_colon == double);
    } else {
        assert(h[k].name == name && h[k].double_colon == double);
    }
}

proof fn lemma_targets_keep_kind(
    g: Seq<NodeView>,
    state: StateView,
    ev: EvalView,
    rule: RuleView,
    prereqs: Seq<Seq<char>>,
    j: int,
    n: Seq<char>,
    d: bool,
)
    requires
        0 <= j,
        has_kind(g, n, d),
        add_targets(g, state, ev, rule, prereqs, j).result is Ok,
    ensures
        has_kind(add_targets(g, state, ev, rule, prereqs, j).result->Ok_0, n, d),
    decreases rule.targets.len() - j,
{
    if j < rule.targets.len() {
        let name = rule.targets[j];
        let none = ScopedView { name, op: VarOp::Append, text: Seq::empty() };
        match rule.data {
            RuleDataView::Prereq(double, _) => {
                lemma_kind_stays(g, state, rule.location, name, double, prereqs, Seq::empty(), none, n, d);
                let g1 = add_prereqs(g, state, rule.location, name, double, prereqs)->Ok_0;
                lemma_targets_keep_kind(g1, state, ev, rule, prereqs, j + 1, n, d);
            },
            RuleDataView::Recipie(text) => {
                lemma_kind_stays(g, state, rule.location, name, false, prereqs, text, none, n, d);
                let g1 = add_recipe(g, rule.location, name, text)->Ok_0;
                let ev1 = if replaces(g, name) {
                    EvalView {
                        host: ev.host.say(Stream::Error, override_warning(rule.location, name)),
                        ..ev
                    }
                } else {
                    ev
                };
                lemma_targets_keep_kind(g1, state, ev1, rule, prereqs, j + 1, n, d);
            },
            RuleDataView::Var(vn, op, text) => {
                let v = ScopedView { name: vn, op, text };
                lemma_kind_stays(g, state, rule.location, name, false, prereqs, text, v, n, d);
                lemma_targets_keep_kind(
                    add_scoped(g, state, name, v),
                    state,
                    ev,
                    rule,
                    prereqs,
                    j + 1,
                    n,
                    d,
                );
            },
        }
    }
}

proof fn lemma_targets_give_kind(
    g: Seq<NodeView>,
    state: StateView,
    ev: EvalView,
    rule: RuleView,
    prereqs: Seq<Seq<char>>,
    j: int,
    m: int,
    d: bool,
)
    requires
        0 <= j <= m < rule.targets.len(),
        rule.data is Prereq,
        rule.data->Prereq_0 == d,
        add_targets(g, state, ev, rule, prereqs, j).result is Ok,
    ensures
        has_kind(add_targets(g, state, ev, rule, prereqs, j).result->Ok_0, rule.targets[m], d),
    decreases rule.targets.len() - j,
{
    let name = rule.targets[j];
    let g1 = add_prereqs(g, state, rule.location, name, d, prereqs)->Ok_0;
    if j == m {
        lemma_kind_comes(g, state, rule.location, name, d, prereqs);
        lemma_targets_keep_kind(g1, state, ev, rule, prereqs, j + 1, name, d);
    } else {
        lemma_targets_give_kind(g1, state, ev, rule, prereqs, j + 1, m, d);
    }
}

proof fn lemma_build_keeps_kind(
    g: Seq<NodeView>,
    state: StateView,
    ev: EvalView,
    i: int,
    n: Seq<char>,
    d: bool,
)
    requires
        0 <= i,
        has_kind(g, n, d),
        build_from(g, state, ev, i).result is Ok,
    ensures
        has_kind(build_from(g, state, ev, i).result->Ok_0, n, d),
    decreases state.rules.len() - i,
{
    if i < state.rules.len() {
        let rule = state.rules[i];
        let r = add_rule(g, state, ev, rule);
        match rule.data {
            RuleDataView::Prereq(_, text) => {
                let e = expand(ev, rule.location, text, DEPTH as nat);
                lemma_targets_keep_kind(g, state, e.ev, rule, words(e.result->Ok_0), 0, n, d);
            },
            _ => {
                lemma_targets_keep_kind(g, state, ev, rule, Seq::empty(), 0, n, d);
            },
        }
        lemma_build_keeps_kind(r.result->Ok_0, state, r.ev, i + 1, n, d);
    }
}

proof fn lemma_build_gives_kind(
    g: Seq<NodeView>,
    state: StateView,
    ev: EvalView,
    i: int,
    k: int,
    m: int,
    d: bool,
)
    requires
        0 <= i <= k < state.rules.len(),
        0 <= m < state.rules[k].targets.len(),
        state.rules[k].data is Prereq,
        state.rules[k].data->Prereq_0 == d,
        build_from(g, state, ev, i).result is Ok,
    ensures
        has_kind(build_from(g, state, ev, i).result->Ok_0, state.rules[k].targets[m], d),
    decreases state.rules.len() - i,
{
    let rule = state.rules[i];
    let r = add_rule(g, state, ev, rule);
    if i == k {
        let text = rule.data->Prereq_1;
        let e = expand(ev, rule.location, text, DEPTH as nat);
        lemma_targets_give_kind(g, state, e.ev, rule, words(e.result->Ok_0), 0, m, d);
        lemma_build_keeps_kind(r.result->Ok_0, state, r.ev, i + 1, rule.targets[m], d);
    } else {
        lemma_build_gives_kind(r.result->Ok_0, state, r.ev, i + 1, k, m, d);
    }
}

/// Where the fragments hold a `:` rule and a `::` rule for one target, in
/// either order, no graph is built: the run ends before any target is
/// visited and any command is handed to the host.
pub proof fn lemma_mixed_colons_stop_the_build(
    state: StateView,
    ev: EvalView,
    a: int,
    b: int,
    target: Seq<char>,
)
    requires
        0 <= a < state.rules.len(),
        0 <= b < state.rules.len(),
        state.rules[a].data is Prereq,
        state.rules[b].data is Prereq,
        !state.rules[a].data->Prereq_0,
        state.rules[b].data->Prereq_0,
        state.rules[a].targets.contains(target),
        state.rules[b].targets.contains(target),
    ensures
        build(state, ev).result is Err,
{
    if build(state, ev).result is Ok {
        let h = build(state, ev).result->Ok_0;
        let ma = choose|m: int| 0 <= m < state.rules[a].targets.len() && state.rules[a].targets[m]
            == target;
        let mb = choose|m: int| 0 <= m < state.rules[b].targets.len() && state.rules[b].targets[m]
            == target;
        lemma_build_gives_kind(Seq::empty(), state, ev, 0, a, ma, false);
        lemma_build_gives_kind(Seq::empty(), state, ev, 0, b, mb, true);
        lemma_built_graph_is_of_one_kind(state, ev);
        let x = choose|k: int| 0 <= k < h.len() && #[trigger] h[k].name == target
            && h[k].double_colon == false;
        let y = choose|k: int| 0 <= k < h.len() && #[trigger] h[k].name == target
            && h[k].double_colon == true;
        if x < y {
            assert(h[x].name == h[y].name);
        } else {
            assert(h[y].name == h[x].name);
        }
    }
}

/// A second `::` rule for a target gets a node of its own, after the nodes
/// that the target has: so each of its rules is made, in their order.
pub proof fn lemma_double_colon_adds_a_node(
    g: Seq<NodeView>,
    state: StateView,
    loc: LocationView,
    name: Seq<char>,
    prereqs: Seq<Seq<char>>,
)
    requires
        last_node(g, name, g.len() as int) >= 0,
        g[last_node(g, name, g.len() as int)].double_colon,
    ensures
        add_prereqs(g, state, loc, name, true, prereqs) == Ok::<Seq<NodeView>, FatalView>(
            g.push(new_node(state, name, true, prereqs)),
        ),
{
}

/// A second `:` rule for a target that has a recipe adds its prerequisites
/// to the target's node, and the recipe line that follows it replaces the
/// recipe that the node has: the first line of the new recipe is then the
/// node's whole recipe, and `replaces` holds, for which a line warns.
pub proof fn lemma_later_recipe_replaces(
    g: Seq<NodeView>,
    state: StateView,
    loc: LocationView,
    name: Seq<char>,
    prereqs: Seq<Seq<char>>,
    text: Seq<char>,
)
    requires
        last_node(g, name, g.len() as int) >= 0,
        !g[last_node(g, name, g.len() as int)].double_colon,
        g[last_node(g, name, g.len() as int)].recipes.len() > 0,
    ensures
        ({
            let k = last_node(g, name, g.len() as int);
            let g1 = add_prereqs(g, state, loc, name, false, prereqs);
            &&& g1 is Ok
            &&& g1->Ok_0.len() == g.len()
            &&& g1->Ok_0[k].prerequisites == g[k].prerequisites + prereqs
            &&& g1->Ok_0[k].recipes == g[k].recipes
            &&& replaces(g1->Ok_0, name)
            &&& add_recipe(g1->Ok_0, loc, name, text) is Ok
            &&& add_recipe(g1->Ok_0, loc, name, text)->Ok_0[k].recipes == seq![
                RecipeView { loc, text },
            ]
            &&& add_recipe(g1->Ok_0, loc, name, text)->Ok_0[k].prerequisites == g[k].prerequisites
                + prereqs
        }),
{
    lemma_last_node_is_last(g, name, g.len() as int);
    let k = last_node(g, name, g.len() as int);
    let g1 = add_prereqs(g, state, loc, name, false, prereqs)->Ok_0;
    lemma_last_node_same(g, g1, name, g.len() as int);
}

/// Of a recipe line that replaces the recipe of its one target a line
/// warns on the error stream.
pub proof fn lemma_override_is_warned(
    g: Seq<NodeView>,
    state: StateView,
    ev: EvalView,
    rule: RuleView,
    prereqs: Seq<Seq<char>>,
)
    requires
        rule.data is Recipie,
        rule.targets.len() == 1,
        replaces(g, rule.targets[0]),
    ensures
        add_recipe(g, rule.location, rule.targets[0], rule.data->Recipie_0) is Ok,
        add_targets(g, state, ev, rule, prereqs, 0).result == Ok::<Seq<NodeView>, StopView>(
            add_recipe(g, rule.location, rule.targets[0], rule.data->Recipie_0)->Ok_0,
        ),
        add_targets(g, state, ev, rule, prereqs, 0).ev == (EvalView {
            host: ev.host.say(Stream::Error, override_warning(rule.location, rule.targets[0])),
            ..ev
        }),
{
    reveal_with_fuel(add_targets, 3);
    lemma_last_node_is_last(g, rule.targets[0], g.len() as int);
    let r = add_recipe(g, rule.location, rule.targets[0], rule.data->Recipie_0);
    assert(r is Ok);
}

/// Where two graphs have the same names at the same places, the last node
/// of a name is the same in both.
pub proof fn lemma_last_node_same(g: Seq<NodeView>, h: Seq<NodeView>, name: Seq<char>, k: int)
    requires
        g.len() == h.len(),
        0 <= k <= g.len(),
        forall|i: int| 0 <= i < g.len() ==> (#[trigger] g[i]).name == h[i].name,
    ensures
        last_node(g, name, k) == last_node(h, name, k),
    decreases k,
{
    if k > 0 {
        assert(g[k - 1].name == h[k - 1].name);
        if g[k - 1].name != name {
            lemma_last_node_same(g, h, name, k - 1);
        }
    }
}

/// What the special targets say changes no fragment.
pub proof fn lemma_specials_keep_rules(state: StateView, ev: EvalView, i: int)
    requires
        0 <= i,
    ensures
        specials_from(state, ev, i).state.rules == state.rules,
    decreases state.rules.len() - i,
{
    if i < state.rules.len() {
        let rule = state.rules[i];
        let special = rule.targets.len() > 0 && (rule.targets[0] == ".PHONY"@ || rule.targets[0]
            == ".SILENT"@);
        match rule.data {
            RuleDataView::Prereq(_, text) => {
                if special {
                    let e = expand(ev, rule.location, text, DEPTH as nat);
                    match e.result {
                        Err(s) => {},
                        Ok(t) => {
                            let next = if rule.targets[0] == ".PHONY"@ {
                                StateView { phony: state.phony + words(t), ..state }
                            } else if words(t).len() == 0 {
                                StateView { silent: true, ..state }
                            } else {
                                StateView {
                                    silent_targets: state.silent_targets + words(t),
                                    ..state
                                }
                            };
                            lemma_specials_keep_rules(next, e.ev, i + 1);
                        },
                    }
                } else {
                    lemma_specials_keep_rules(state, ev, i + 1);
                }
            },
            _ => {
                lemma_specials_keep_rules(state, ev, i + 1);
            },
        }
    }
}

} // verus!
