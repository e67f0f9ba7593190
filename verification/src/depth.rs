//! The depth that the scheduler needs: a visit never halts for depth if it
//! may go two deeper than twice the number of targets that have rules and
//! were not visited.

use crate::graph::NodeView;
use crate::host::EvalView;
use crate::plan::{
    enter, leave, make, remake, rule_frame, visit, visit_nodes, visit_prereqs, visit_source,
    HaltView, Made,
};
use crate::revisit::{
    keeps_visited, lemma_make_keeps, lemma_visit_keeps,
};
use crate::rules::StateView;
use crate::run::depth_of;
use vstd::prelude::*;

verus! {

/// The names of the nodes of a graph.
pub open spec fn names(g: Seq<NodeView>) -> Set<Seq<char>> {
    g.map_values(|n: NodeView| n.name).to_set()
}

/// The targets that have rules and were not visited.
pub open spec fn pending(g: Seq<NodeView>, state: StateView) -> Set<Seq<char>> {
    names(g).difference(state.processed.to_set())
}

/// How many targets have rules and were not visited.
pub open spec fn room(g: Seq<NodeView>, state: StateView) -> nat {
    pending(g, state).len()
}

proof fn lemma_names(g: Seq<NodeView>)
    ensures
        names(g).finite(),
        names(g).len() <= g.len(),
        forall|k: int| 0 <= k < g.len() ==> names(g).contains(#[trigger] g[k].name),
{
    let s = g.map_values(|n: NodeView| n.name);
    vstd::seq_lib::seq_to_set_is_finite(s);
    s.lemma_cardinality_of_set();
    assert forall|k: int| 0 <= k < g.len() implies names(g).contains(#[trigger] g[k].name) by {
        assert(s[k] == g[k].name);
        assert(s.contains(g[k].name));
    }
}

/// Visiting leaves no more targets to visit than there were.
proof fn lemma_room_shrinks(g: Seq<NodeView>, a: StateView, b: StateView)
    requires
        keeps_visited(a, b),
    ensures
        room(g, b) <= room(g, a),
{
    lemma_names(g);
    assert(pending(g, b).subset_of(pending(g, a))) by {
        assert forall|x: Seq<char>| pending(g, b).contains(x) implies pending(g, a).contains(
            x,
        ) by {
            if a.processed.contains(x) {
                assert(b.processed.contains(x));
            }
        }
    }
    vstd::set_lib::lemma_len_subset(pending(g, b), pending(g, a));
}

/// Beginning the visit of a target that has rules leaves one target fewer
/// to visit.
proof fn lemma_room_after_enter(g: Seq<NodeView>, state: StateView, name: Seq<char>)
    requires
        names(g).contains(name),
        !state.processed.contains(name),
    ensures
        room(g, enter(state, name)) + 1 == room(g, state),
{
    lemma_names(g);
    let before = pending(g, state);
    let after = pending(g, enter(state, name));
    assert(after =~= before.remove(name)) by {
        assert forall|x: Seq<char>| after.contains(x) <==> before.remove(name).contains(x) by {
            let p = state.processed;
            assert(p.push(name)[p.len() as int] == name);
            if p.contains(x) {
                let k = choose|k: int| 0 <= k < p.len() && p[k] == x;
                assert(p.push(name)[k] == x);
            }
            if p.push(name).contains(x) {
                let k = choose|k: int| 0 <= k < p.push(name).len() && p.push(name)[k] == x;
                if k < p.len() {
                    assert(p[k] == x);
                }
            }
        }
    }
    assert(before.contains(name));
}

/// A visit does not halt for depth if it may go two deeper than twice the
/// number of targets that have rules and were not visited.
pub proof fn lemma_visit_has_depth(
    g: Seq<NodeView>,
    state: StateView,
    ev: EvalView,
    name: Seq<char>,
    parent: Seq<char>,
    fuel: nat,
)
    requires
        fuel >= 2 * room(g, state) + 2,
    ensures
        !(visit(g, state, ev, name, parent, fuel).result is Err && visit(
            g,
            state,
            ev,
            name,
            parent,
            fuel,
        ).result->Err_0 is Depth),
    decreases fuel, 3int, 0int,
{
    if !state.processed.contains(name) {
        let s1 = enter(state, name);
        lemma_names(g);
        if exists|i: int| 0 <= i < g.len() && g[i].name == name {
            let i = choose|i: int| 0 <= i < g.len() && g[i].name == name;
            assert(names(g).contains(g[i].name));
            lemma_room_after_enter(g, state, name);
        }
        lemma_nodes_have_depth(g, s1, ev, name, 0, None, (fuel - 1) as nat);
    }
}

proof fn lemma_nodes_have_depth(
    g: Seq<NodeView>,
    state: StateView,
    ev: EvalView,
    name: Seq<char>,
    k: int,
    acc: Option<Made>,
    fuel: nat,
)
    requires
        0 <= k,
        (exists|i: int| k <= i < g.len() && g[i].name == name) ==> fuel >= 2 * room(g, state) + 3,
    ensures
        !(visit_nodes(g, state, ev, name, k, acc, fuel).result is Err && visit_nodes(
            g,
            state,
            ev,
            name,
            k,
            acc,
            fuel,
        ).result->Err_0 is Depth),
    decreases fuel, 2int, g.len() - k,
{
    if k < g.len() {
        if g[k].name != name {
            if exists|i: int| k <= i < g.len() && g[i].name == name {
                let i = choose|i: int| k <= i < g.len() && g[i].name == name;
                assert(k + 1 <= i < g.len() && g[i].name == name);
            }
            lemma_nodes_have_depth(g, state, ev, name, k + 1, acc, fuel);
        } else {
            assert(k <= k < g.len() && g[k].name == name);
            lemma_make_has_depth(g, state, ev, g[k], fuel);
            let r = make(g, state, ev, g[k], fuel);
            match r.result {
                Err(e) => {},
                Ok(m) => {
                    lemma_make_keeps(g, state, ev, g[k], fuel);
                    lemma_room_shrinks(g, state, r.state);
                    lemma_nodes_have_depth(
                        g,
                        r.state,
                        r.ev,
                        name,
                        k + 1,
                        crate::plan::join_made(acc, m),
                        fuel,
                    );
                },
            }
        }
    }
}

proof fn lemma_make_has_depth(
    g: Seq<NodeView>,
    state: StateView,
    ev: EvalView,
    node: NodeView,
    fuel: nat,
)
    requires
        fuel >= 2 * room(g, state) + 3,
    ensures
        !(make(g, state, ev, node, fuel).result is Err && make(
            g,
            state,
            ev,
            node,
            fuel,
        ).result->Err_0 is Depth),
    decreases fuel, 1int, 0int,
{
    let framed = EvalView { vars: rule_frame(ev.vars, node), ..ev };
    let none = Made { done: false, recipes: false };
    lemma_prereqs_have_depth(g, state, framed, node, 0, none, fuel);
}

proof fn lemma_prereqs_have_depth(
    g: Seq<NodeView>,
    state: StateView,
    ev: EvalView,
    node: NodeView,
    j: int,
    acc: Made,
    fuel: nat,
)
    requires
        0 <= j,
        fuel >= 2 * room(g, state) + 3,
    ensures
        !(visit_prereqs(g, state, ev, node, j, acc, fuel).result is Err && visit_prereqs(
            g,
            state,
            ev,
            node,
            j,
            acc,
            fuel,
        ).result->Err_0 is Depth),
    decreases fuel, 0int, node.prerequisites.len() - j,
{
    if j < node.prerequisites.len() {
        let p = node.prerequisites[j];
        lemma_visit_has_depth(g, state, ev, p, node.name, (fuel - 1) as nat);
        let r = visit(g, state, ev, p, node.name, (fuel - 1) as nat);
        match r.result {
            Ok(Some(m)) => {
                lemma_visit_keeps(g, state, ev, p, node.name, (fuel - 1) as nat);
                lemma_room_shrinks(g, state, r.state);
                lemma_prereqs_have_depth(
                    g,
                    r.state,
                    r.ev,
                    node,
                    j + 1,
                    Made { done: acc.done || m.done, recipes: acc.recipes || m.recipes },
                    fuel,
                );
            },
            _ => {},
        }
    }
}

/// With the depth that a run gives it, a visit never halts for depth, in
/// whatever state it begins.
pub proof fn lemma_depth_suffices(
    g: Seq<NodeView>,
    state: StateView,
    ev: EvalView,
    name: Seq<char>,
    parent: Seq<char>,
)
    requires
        g.len() <= (usize::MAX - 2) / 2,
    ensures
        !(visit(g, state, ev, name, parent, depth_of(g)).result is Err && visit(
            g,
            state,
            ev,
            name,
            parent,
            depth_of(g),
        ).result->Err_0 is Depth),
{
    lemma_names(g);
    assert(pending(g, state).subset_of(names(g)));
    vstd::set_lib::lemma_len_subset(pending(g, state), names(g));
    lemma_visit_has_depth(g, state, ev, name, parent, depth_of(g));
}

} // verus!
