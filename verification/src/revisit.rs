//! A target is made at most once in a run.

use crate::graph::NodeView;
use crate::host::EvalView;
use crate::plan::{enter, leave, make, remake, visit, visit_nodes, visit_prereqs, Made};
use crate::rules::StateView;
use vstd::prelude::*;

verus! {

/// Every target that `a` counts as visited, `b` counts as visited.
pub open spec fn keeps_visited(a: StateView, b: StateView) -> bool {
    forall|x: Seq<char>| a.processed.contains(x) ==> b.processed.contains(x)
}

proof fn lemma_push_contains(s: Seq<Seq<char>>, x: Seq<char>)
    ensures
        s.push(x).contains(x),
        forall|y: Seq<char>| s.contains(y) ==> s.push(x).contains(y),
{
    assert(s.push(x)[s.len() as int] == x);
    assert forall|y: Seq<char>| s.contains(y) implies s.push(x).contains(y) by {
        let k = choose|k: int| 0 <= k < s.len() && s[k] == y;
        assert(s.push(x)[k] == y);
    }
}

/// A visit forgets no target, and a visit that comes to its end leaves its
/// target visited.
pub proof fn lemma_visit_keeps(
    g: Seq<NodeView>,
    state: StateView,
    ev: EvalView,
    name: Seq<char>,
    parent: Seq<char>,
    fuel: nat,
)
    ensures
        keeps_visited(state, visit(g, state, ev, name, parent, fuel).state),
        visit(g, state, ev, name, parent, fuel).result is Ok ==> visit(
            g,
            state,
            ev,
            name,
            parent,
            fuel,
        ).state.processed.contains(name),
    decreases fuel, 3int, 0int,
{
    if !state.processed.contains(name) && fuel != 0 {
        let s1 = enter(state, name);
        lemma_push_contains(state.processed, name);
        let r = visit_nodes(g, s1, ev, name, 0, None, (fuel - 1) as nat);
        lemma_visit_nodes_keeps(g, s1, ev, name, 0, None, (fuel - 1) as nat);
        assert(keeps_visited(state, r.state));
        assert(r.state.processed.contains(name));
        assert(leave(r.state).processed == r.state.processed);
    }
}

pub proof fn lemma_visit_nodes_keeps(
    g: Seq<NodeView>,
    state: StateView,
    ev: EvalView,
    name: Seq<char>,
    k: int,
    acc: Option<Made>,
    fuel: nat,
)
    ensures
        keeps_visited(state, visit_nodes(g, state, ev, name, k, acc, fuel).state),
    decreases fuel, 2int, g.len() - k,
{
    if 0 <= k < g.len() {
        if g[k].name != name {
            lemma_visit_nodes_keeps(g, state, ev, name, k + 1, acc, fuel);
        } else {
            let r = make(g, state, ev, g[k], fuel);
            lemma_make_keeps(g, state, ev, g[k], fuel);
            match r.result {
                Err(e) => {},
                Ok(m) => {
                    lemma_visit_nodes_keeps(
                        g,
                        r.state,
                        r.ev,
                        name,
                        k + 1,
                        crate::plan::join_made(acc, m),
                        fuel,
                    );
                },
            }
        }
    }
}

pub proof fn lemma_make_keeps(
    g: Seq<NodeView>,
    state: StateView,
    ev: EvalView,
    node: NodeView,
    fuel: nat,
)
    ensures
        keeps_visited(state, make(g, state, ev, node, fuel).state),
    decreases fuel, 1int, 0int,
{
    let framed = EvalView { vars: crate::plan::rule_frame(ev.vars, node), ..ev };
    let none = Made { done: false, recipes: false };
    let p = visit_prereqs(g, state, framed, node, 0, none, fuel);
    lemma_visit_prereqs_keeps(g, state, framed, node, 0, none, fuel);
    match p.result {
        Err(e) => {},
        Ok(pre) => {
            let r = remake(p.state, p.ev, node, pre);
            assert(r.state.processed == p.state.processed);
        },
    }
}

pub proof fn lemma_visit_prereqs_keeps(
    g: Seq<NodeView>,
    state: StateView,
    ev: EvalView,
    node: NodeView,
    j: int,
    acc: Made,
    fuel: nat,
)
    ensures
        keeps_visited(state, visit_prereqs(g, state, ev, node, j, acc, fuel).state),
    decreases fuel, 0int, node.prerequisites.len() - j,
{
    if 0 <= j < node.prerequisites.len() && fuel != 0 {
        let r = visit(g, state, ev, node.prerequisites[j], node.name, (fuel - 1) as nat);
        lemma_visit_keeps(g, state, ev, node.prerequisites[j], node.name, (fuel - 1) as nat);
        match r.result {
            Ok(Some(m)) => {
                lemma_visit_prereqs_keeps(
                    g,
                    r.state,
                    r.ev,
                    node,
                    j + 1,
                    Made { done: acc.done || m.done, recipes: acc.recipes || m.recipes },
                    fuel,
                );
            },
            _ => {},
        }
    }
}

/// A target that was visited is left alone: nothing is made, the state and
/// the store stay as they are, and the host is asked nothing.
pub proof fn lemma_visited_is_left_alone(
    g: Seq<NodeView>,
    state: StateView,
    ev: EvalView,
    name: Seq<char>,
    parent: Seq<char>,
    fuel: nat,
)
    requires
        state.processed.contains(name),
    ensures
        visit(g, state, ev, name, parent, fuel).result == Ok::<Option<Made>, crate::plan::HaltView>(
            Some(Made { done: false, recipes: false }),
        ),
        visit(g, state, ev, name, parent, fuel).state == state,
        visit(g, state, ev, name, parent, fuel).ev.vars == ev.vars,
        visit(g, state, ev, name, parent, fuel).ev.host.used == ev.host.used,
        visit(g, state, ev, name, parent, fuel).ev.host.answers == ev.host.answers,
{
}

/// Making a target twice in a row gives no command the second time: after
/// a visit that came to its end, a visit of the same target makes nothing,
/// changes neither state nor store, and asks the host nothing.
pub proof fn lemma_second_visit_makes_nothing(
    g: Seq<NodeView>,
    state: StateView,
    ev: EvalView,
    name: Seq<char>,
    parent: Seq<char>,
    fuel: nat,
    again: nat,
)
    requires
        visit(g, state, ev, name, parent, fuel).result is Ok,
    ensures
        ({
            let first = visit(g, state, ev, name, parent, fuel);
            let second = visit(g, first.state, first.ev, name, parent, again);
            &&& second.result == Ok::<Option<Made>, crate::plan::HaltView>(
                Some(Made { done: false, recipes: false }),
            )
            &&& second.state == first.state
            &&& second.ev.vars == first.ev.vars
            &&& second.ev.host.used == first.ev.host.used
        }),
{
    lemma_visit_keeps(g, state, ev, name, parent, fuel);
    let first = visit(g, state, ev, name, parent, fuel);
    lemma_visited_is_left_alone(g, first.state, first.ev, name, parent, again);
}

} // verus!
