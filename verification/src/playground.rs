use vstd::prelude::*;

use crate::error::{RunnerError, RunnerErrorKind};
use crate::parser::{Cmd, Command, File};
use crate::runner::Runner;
use crate::value::{arr_rep, clone_value, lemma_arr_rep_index, lemma_arr_rep_len, Value, ValueV};
use crate::webdriver::Webdriver;
use vstd::string::StrSliceExecFns;
use vstd::string::StringExecFns;

verus! {

/// One executable unit of the compiled flow graph: the operation, its
/// position in the pre-filter command list, its nesting level, and the
/// edge(s) leaving it.
#[derive(Debug, PartialEq, Eq)]
pub struct Node {
    pub command: Cmd,
    pub index: usize,
    pub level: usize,
    pub next: Transition,
}

impl Node {
    pub fn new(cmd: Cmd, index: usize, level: usize, transition: Transition) -> (r: Self)
        ensures
            r.command == cmd,
            r.index == index,
            r.level == level,
            r.next == transition,
    {
        Self { command: cmd, index, level, next: transition }
    }
}

/// The compiled edge leaving a node.
#[derive(Debug, PartialEq, Eq, Structural, Clone, Copy)]
pub enum Transition {
    /// Step to the following node.
    Next,
    /// Jump to the given node.
    Move(usize),
    /// Branch on a condition: enter the block, or skip it.
    Conditional { next: usize, end: usize },
}

/// A backpatching anchor's kind: which block opener recorded it.
#[derive(Debug, PartialEq, Eq, Structural, Clone, Copy)]
pub enum AnchorKind {
    While,
    ForEach,
    Times,
    Do,
    If,
}

/// One level decrement, stopping at zero.
pub open spec fn spec_sat_dec(l: nat) -> nat {
    if l > 0 {
        (l - 1) as nat
    } else {
        0
    }
}

/// What one command records as its nesting level, and the level after it.
pub open spec fn spec_level_rec(cmd: Cmd, level: nat) -> (nat, nat) {
    match cmd {
        Cmd::While(_) | Cmd::If(_) | Cmd::ForEach { .. } | Cmd::Times(_) | Cmd::Do => (
            level,
            (level + 1) as nat,
        ),
        Cmd::End | Cmd::RepeatIf(_) => (spec_sat_dec(level), spec_sat_dec(level)),
        Cmd::Else | Cmd::ElseIf(_) => (spec_sat_dec(level), (spec_sat_dec(level) + 1) as nat),
        _ => (level, level),
    }
}

/// The nesting levels of the commands from position `i`, starting at the
/// given level.
pub open spec fn spec_levels_from(commands: Seq<Command>, i: int, level: nat) -> Seq<nat>
    decreases commands.len() - i when 0 <= i
{
    if i >= commands.len() {
        Seq::empty()
    } else {
        let lv = spec_level_rec(commands[i].cmd, level);
        seq![lv.0] + spec_levels_from(commands, i + 1, lv.1)
    }
}

/// The nesting level of every command.
pub open spec fn spec_levels(commands: Seq<Command>) -> Seq<nat> {
    spec_levels_from(commands, 0, 0)
}

/// The pre-filter positions of the commands that stay in the graph:
/// everything but the inert comment commands.
pub open spec fn spec_kept_idx(commands: Seq<Command>, i: int) -> Seq<int>
    decreases commands.len() - i when 0 <= i
{
    if i >= commands.len() {
        Seq::empty()
    } else if commands[i].cmd is Custom {
        spec_kept_idx(commands, i + 1)
    } else {
        seq![i] + spec_kept_idx(commands, i + 1)
    }
}

proof fn lemma_levels_from_len(commands: Seq<Command>, i: int, level: nat)
    requires
        0 <= i <= commands.len(),
    ensures
        spec_levels_from(commands, i, level).len() == commands.len() - i,
    decreases commands.len() - i,
{
    if i < commands.len() {
        lemma_levels_from_len(commands, i + 1, spec_level_rec(commands[i].cmd, level).1);
    }
}

/// Compute the nesting level each command sits at.
fn compute_levels(commands: &Vec<Command>) -> (r: Vec<usize>)
    ensures
        r@.len() == commands@.len(),
        forall|j: int| 0 <= j < r@.len() ==> r@[j] as nat == spec_levels(commands@)[j],
{
    let ghost total: Seq<nat> = spec_levels(commands@);
    let mut levels: Vec<usize> = Vec::new();
    let mut level: usize = 0;
    let mut i: usize = 0;
    proof {
        lemma_levels_from_len(commands@, 0, 0);
    }
    while i < commands.len()
        invariant
            i <= commands@.len(),
            levels@.len() == i,
            level <= i,
            total == spec_levels(commands@),
            total.len() == commands@.len(),
            total =~= levels@.map_values(|x: usize| x as nat) + spec_levels_from(
                commands@,
                i as int,
                level as nat,
            ),
            forall|j: int| 0 <= j < i ==> levels@[j] as nat == total[j],
        decreases commands@.len() - i,
    {
        let ghost pre = levels@.map_values(|x: usize| x as nat);
        let recorded: usize = match &commands[i].cmd {
            Cmd::While(_) | Cmd::If(_) | Cmd::ForEach { .. } | Cmd::Times(_) | Cmd::Do => {
                let rec = level;
                level = level + 1;
                rec
            },
            Cmd::End | Cmd::RepeatIf(_) => {
                if level > 0 {
                    level = level - 1;
                }
                level
            },
            Cmd::Else | Cmd::ElseIf(_) => {
                let rec = if level > 0 {
                    level - 1
                } else {
                    0
                };
                level = rec + 1;
                rec
            },
            _ => level,
        };
        levels.push(recorded);
        proof {
            assert(levels@.map_values(|x: usize| x as nat) =~= pre.push(recorded as nat));
            assert(total[i as int] == recorded as nat);
        }
        i += 1;
    }
    levels
}

/// Build the kept nodes: drop the comment commands, keep each survivor's
/// pre-filter position and level, with every edge still unresolved.
fn create_nodes(commands: Vec<Command>, levels: &Vec<usize>) -> (r: Vec<Node>)
    requires
        levels@.len() == commands@.len(),
        forall|j: int| 0 <= j < levels@.len() ==> levels@[j] as nat == spec_levels(commands@)[j],
    ensures
        r@.len() == spec_kept_idx(commands@, 0).len(),
        forall|k: int|
            0 <= k < r@.len() ==> {
                let idx = spec_kept_idx(commands@, 0)[k];
                &&& (#[trigger] r@[k]).index == idx
                &&& 0 <= idx < commands@.len()
                &&& r@[k].command == commands@[idx].cmd
                &&& r@[k].level as nat == spec_levels(commands@)[idx]
                &&& r@[k].next is Next
            },
{
    let ghost orig = commands@;
    let ghost kept: Seq<int> = spec_kept_idx(orig, 0);
    let n_orig: usize = commands.len();
    proof {
        assert(orig.len() == n_orig as int);
    }
    let mut rest = commands;
    let mut nodes: Vec<Node> = Vec::new();
    let mut i: usize = 0;
    while rest.len() > 0
        invariant
            orig.len() <= usize::MAX,
            i + rest@.len() == orig.len(),
            rest@ =~= orig.skip(i as int),
            levels@.len() == orig.len(),
            forall|j: int| 0 <= j < levels@.len() ==> levels@[j] as nat == spec_levels(orig)[j],
            kept == spec_kept_idx(orig, 0),
            kept =~= nodes@.map_values(|n: Node| n.index as int) + spec_kept_idx(orig, i as int),
            forall|k: int|
                0 <= k < nodes@.len() ==> {
                    let idx = (#[trigger] nodes@[k]).index as int;
                    &&& idx == kept[k]
                    &&& 0 <= idx < orig.len()
                    &&& nodes@[k].command == orig[idx].cmd
                    &&& nodes@[k].level as nat == spec_levels(orig)[idx]
                    &&& nodes@[k].next is Next
                },
        decreases rest@.len(),
    {
        let cmd = rest.remove(0);
        proof {
            assert(cmd.cmd == orig[i as int].cmd);
            assert(rest@ =~= orig.skip(i + 1));
        }
        let keep = !matches!(cmd.cmd, Cmd::Custom { .. });
        if keep {
            let ghost pre = nodes@.map_values(|n: Node| n.index as int);
            nodes.push(Node { command: cmd.cmd, index: i, level: levels[i], next: Transition::Next });
            proof {
                assert(nodes@.map_values(|n: Node| n.index as int) =~= pre.push(i as int));
            }
        }
        i += 1;
    }
    proof {
        assert(spec_kept_idx(orig, orig.len() as int) =~= Seq::<int>::empty());
        assert(kept =~= nodes@.map_values(|n: Node| n.index as int));
    }
    nodes
}

/// The immutable heart of a node: what edge resolution reads. The edges
/// themselves never feed back into it.
pub enum NodeCore {
    Core { command: Cmd, index: int, level: nat },
}

impl NodeCore {
    pub open spec fn command(self) -> Cmd {
        match self {
            NodeCore::Core { command, .. } => command,
        }
    }

    pub open spec fn index(self) -> int {
        match self {
            NodeCore::Core { index, .. } => index,
        }
    }

    pub open spec fn level(self) -> nat {
        match self {
            NodeCore::Core { level, .. } => level,
        }
    }
}

/// The cores of a node list.
pub open spec fn cores_of(nodes: Seq<Node>) -> Seq<NodeCore> {
    nodes.map_values(
        |n: Node| NodeCore::Core { command: n.command, index: n.index as int, level: n.level as nat },
    )
}


/// The kept positions are exactly the pre-filter positions of the
/// non-comment commands, in their original order: dropping comments never
/// renumbers a later command.
pub proof fn lemma_kept_positions(commands: Seq<Command>, i: int)
    requires
        0 <= i <= commands.len(),
    ensures
        forall|k: int|
            0 <= k < spec_kept_idx(commands, i).len() ==> i <= #[trigger] spec_kept_idx(
                commands,
                i,
            )[k] < commands.len(),
        forall|k: int|
            0 <= k < spec_kept_idx(commands, i).len() ==> !(commands[spec_kept_idx(commands, i)[k]].cmd
                is Custom),
        forall|k1: int, k2: int|
            0 <= k1 < k2 < spec_kept_idx(commands, i).len() ==> spec_kept_idx(commands, i)[k1]
                < spec_kept_idx(commands, i)[k2],
        forall|j: int|
            i <= j < commands.len() && !(commands[j].cmd is Custom) ==> spec_kept_idx(
                commands,
                i,
            ).contains(j),
    decreases commands.len() - i,
{
    if i < commands.len() {
        lemma_kept_positions(commands, i + 1);
        let tail = spec_kept_idx(commands, i + 1);
        if commands[i].cmd is Custom {
        } else {
            let whole = seq![i] + tail;
            assert(whole[0] == i);
            assert(forall|k: int| 1 <= k < whole.len() ==> whole[k] == tail[k - 1]);
            assert forall|j: int|
                i <= j < commands.len() && !(commands[j].cmd is Custom) implies whole.contains(
                j,
            ) by {
                if j == i {
                    assert(whole[0] == j);
                } else {
                    assert(tail.contains(j));
                    let k = choose|k: int| 0 <= k < tail.len() && tail[k] == j;
                    assert(whole.len() == tail.len() + 1);
                    assert(whole[k + 1] == tail[k]);
                    assert(whole[k + 1] == j);
                }
            }
        }
    }
}

/// The position of the first node at the given level, from `from` on.
pub open spec fn spec_find_on_level(nodes: Seq<NodeCore>, from: int, level: nat) -> Option<int>
    decreases nodes.len() - from when 0 <= from
{
    if from >= nodes.len() {
        None
    } else if nodes[from].level() == level {
        Some(from)
    } else {
        spec_find_on_level(nodes, from + 1, level)
    }
}

/// The position of the first `End` node at the given level, from `from` on.
pub open spec fn spec_find_end_on_level(nodes: Seq<NodeCore>, from: int, level: nat) -> Option<int>
    decreases nodes.len() - from when 0 <= from
{
    if from >= nodes.len() {
        None
    } else if nodes[from].level() == level && nodes[from].command() is End {
        Some(from)
    } else {
        spec_find_end_on_level(nodes, from + 1, level)
    }
}

/// The pre-filter position of the node after the given one, or one past
/// the last command when there is none.
pub open spec fn spec_next_index(nodes: Seq<NodeCore>, current: int) -> int {
    if current + 1 < nodes.len() {
        nodes[current + 1].index()
    } else {
        nodes[current].index() + 1
    }
}

/// The edge leaving one node, and the anchor stack after it: the
/// backpatching table of the one-pass builder. A lookup that a validated
/// list always satisfies falls back to a plain step when it fails.
pub open spec fn spec_transition(nodes: Seq<NodeCore>, current: int, state: Seq<(AnchorKind, int)>)
    -> (Transition, Seq<(AnchorKind, int)>) {
    let level = nodes[current].level();
    let next = current + 1;
    match nodes[current].command() {
        Cmd::While(_) => match spec_find_end_on_level(nodes, next, level) {
            Some(e) => (
                Transition::Conditional {
                    next: next as usize,
                    end: spec_next_index(nodes, e) as usize,
                },
                state.push((AnchorKind::While, current)),
            ),
            None => (Transition::Next, state),
        },
        Cmd::ForEach { .. } => match spec_find_end_on_level(nodes, next, level) {
            Some(e) => (
                Transition::Conditional {
                    next: next as usize,
                    end: spec_next_index(nodes, e) as usize,
                },
                state.push((AnchorKind::ForEach, current)),
            ),
            None => (Transition::Next, state),
        },
        Cmd::Times(_) => match spec_find_end_on_level(nodes, next, level) {
            Some(e) => (
                Transition::Conditional {
                    next: next as usize,
                    end: spec_next_index(nodes, e) as usize,
                },
                state.push((AnchorKind::Times, current)),
            ),
            None => (Transition::Next, state),
        },
        Cmd::Do => (Transition::Next, state.push((AnchorKind::Do, current))),
        Cmd::If(_) => {
            match (
                spec_find_on_level(nodes, next, level),
                spec_find_end_on_level(nodes, current, level),
            ) {
                (Some(f), Some(e)) => {
                    let st2 = state.push((AnchorKind::If, nodes[e].index()));
                    if next < nodes.len() && nodes[next].level() != level {
                        (
                            Transition::Conditional {
                                next: next as usize,
                                end: nodes[f].index() as usize,
                            },
                            st2,
                        )
                    } else {
                        (
                            Transition::Conditional {
                                next: nodes[e].index() as usize,
                                end: nodes[f].index() as usize,
                            },
                            st2,
                        )
                    }
                },
                _ => (Transition::Next, state),
            }
        },
        Cmd::ElseIf(_) => match spec_find_on_level(nodes, next, level) {
            Some(f) => {
                if next < nodes.len() && nodes[next].level() != level {
                    (
                        Transition::Conditional {
                            next: next as usize,
                            end: nodes[f].index() as usize,
                        },
                        state,
                    )
                } else if state.len() > 0 && state.last().0 is If {
                    (
                        Transition::Conditional {
                            next: state.last().1 as usize,
                            end: nodes[f].index() as usize,
                        },
                        state,
                    )
                } else {
                    (Transition::Next, state)
                }
            },
            None => (Transition::Next, state),
        },
        Cmd::Else => (Transition::Next, state),
        Cmd::RepeatIf(_) => {
            if state.len() > 0 && state.last().0 is Do {
                (
                    Transition::Conditional { next: state.last().1 as usize, end: next as usize },
                    state.drop_last(),
                )
            } else {
                (Transition::Next, state)
            }
        },
        Cmd::End => {
            if state.len() > 0 && (state.last().0 is While || state.last().0 is ForEach
                || state.last().0 is Times) {
                (Transition::Move(state.last().1 as usize), state.drop_last())
            } else if state.len() > 0 && state.last().0 is If {
                (Transition::Next, state.drop_last())
            } else {
                (Transition::Next, state)
            }
        },
        _ => {
            if next < nodes.len() && (nodes[next].command() is Else || nodes[next].command() is ElseIf)
                && state.len() > 0 {
                (Transition::Move(state.last().1 as usize), state)
            } else {
                (Transition::Next, state)
            }
        },
    }
}

/// The edges of all nodes from position `i`, given the anchor stack there.
pub open spec fn spec_transitions_from(
    nodes: Seq<NodeCore>,
    i: int,
    state: Seq<(AnchorKind, int)>,
) -> Seq<Transition>
    decreases nodes.len() - i when 0 <= i
{
    if i >= nodes.len() {
        Seq::empty()
    } else {
        let step = spec_transition(nodes, i, state);
        seq![step.0] + spec_transitions_from(nodes, i + 1, step.1)
    }
}

proof fn lemma_transitions_from_len(nodes: Seq<NodeCore>, i: int, state: Seq<(AnchorKind, int)>)
    requires
        0 <= i <= nodes.len(),
    ensures
        spec_transitions_from(nodes, i, state).len() == nodes.len() - i,
    decreases nodes.len() - i,
{
    if i < nodes.len() {
        lemma_transitions_from_len(nodes, i + 1, spec_transition(nodes, i, state).1);
    }
}

/// The anchor stack as the specification sees it.
pub open spec fn anchors_of(state: Seq<(AnchorKind, usize)>) -> Seq<(AnchorKind, int)> {
    state.map_values(|p: (AnchorKind, usize)| (p.0, p.1 as int))
}

/// Scan for the first node at a level, from a position on.
fn find_next_on_level(nodes: &Vec<Node>, from: usize, level: usize) -> (r: Option<usize>)
    ensures
        match r {
            Some(j) => spec_find_on_level(cores_of(nodes@), from as int, level as nat) == Some(
                j as int,
            ) && from <= j < nodes@.len(),
            None => spec_find_on_level(cores_of(nodes@), from as int, level as nat) is None,
        },
{
    let mut j = from;
    if j > nodes.len() {
        return None;
    }
    while j < nodes.len()
        invariant
            from <= j <= nodes@.len(),
            spec_find_on_level(cores_of(nodes@), from as int, level as nat) == spec_find_on_level(
                cores_of(nodes@),
                j as int,
                level as nat,
            ),
        decreases nodes@.len() - j,
    {
        if nodes[j].level == level {
            return Some(j);
        }
        j += 1;
    }
    None
}

/// Scan for the first `End` node at a level, from a position on.
fn find_next_end_on_level(nodes: &Vec<Node>, from: usize, level: usize) -> (r: Option<usize>)
    ensures
        match r {
            Some(j) => spec_find_end_on_level(cores_of(nodes@), from as int, level as nat) == Some(
                j as int,
            ) && from <= j < nodes@.len(),
            None => spec_find_end_on_level(cores_of(nodes@), from as int, level as nat) is None,
        },
{
    let mut j = from;
    if j > nodes.len() {
        return None;
    }
    while j < nodes.len()
        invariant
            from <= j <= nodes@.len(),
            spec_find_end_on_level(cores_of(nodes@), from as int, level as nat)
                == spec_find_end_on_level(cores_of(nodes@), j as int, level as nat),
        decreases nodes@.len() - j,
    {
        if nodes[j].level == level && matches!(nodes[j].command, Cmd::End) {
            return Some(j);
        }
        j += 1;
    }
    None
}

/// Every node's pre-filter position leaves room for one past it.
pub open spec fn spec_indices_small(nodes: Seq<Node>) -> bool {
    forall|k: int| 0 <= k < nodes.len() ==> (#[trigger] nodes[k]).index < usize::MAX
}

/// The pre-filter position after a node: the following node's, or one
/// past this node's.
fn next_index(nodes: &Vec<Node>, current: usize) -> (r: usize)
    requires
        current < nodes@.len(),
        spec_indices_small(nodes@),
    ensures
        r as int == spec_next_index(cores_of(nodes@), current as int),
{
    let n = nodes.len();
    proof {
        assert(nodes@.len() == n as int);
    }
    if current + 1 < n {
        nodes[current + 1].index
    } else {
        nodes[current].index + 1
    }
}

/// Resolve the edge leaving one node, updating the anchor stack: one row
/// of the backpatching table.
fn connect_commands(
    nodes: &Vec<Node>,
    current: usize,
    next: usize,
    state: &mut Vec<(AnchorKind, usize)>,
) -> (r: Transition)
    requires
        current < nodes@.len(),
        next == current + 1,
        spec_indices_small(nodes@),
    ensures
        (r, anchors_of(final(state)@)) == spec_transition(
            cores_of(nodes@),
            current as int,
            anchors_of(old(state)@),
        ),
{
    let ghost st0 = anchors_of(state@);
    let level = nodes[current].level;
    let mut r = Transition::Next;
    match &nodes[current].command {
        Cmd::While(..) => {
            if let Some(e) = find_next_end_on_level(nodes, next, level) {
                let after = next_index(nodes, e);
                r = Transition::Conditional { next, end: after };
                state.push((AnchorKind::While, current));
                proof {
                    assert(anchors_of(state@) =~= st0.push((AnchorKind::While, current as int)));
                }
            }
        },
        Cmd::ForEach { .. } => {
            if let Some(e) = find_next_end_on_level(nodes, next, level) {
                let after = next_index(nodes, e);
                r = Transition::Conditional { next, end: after };
                state.push((AnchorKind::ForEach, current));
                proof {
                    assert(anchors_of(state@) =~= st0.push((AnchorKind::ForEach, current as int)));
                }
            }
        },
        Cmd::Times(..) => {
            if let Some(e) = find_next_end_on_level(nodes, next, level) {
                let after = next_index(nodes, e);
                r = Transition::Conditional { next, end: after };
                state.push((AnchorKind::Times, current));
                proof {
                    assert(anchors_of(state@) =~= st0.push((AnchorKind::Times, current as int)));
                }
            }
        },
        Cmd::Do => {
            state.push((AnchorKind::Do, current));
            proof {
                assert(anchors_of(state@) =~= st0.push((AnchorKind::Do, current as int)));
            }
        },
        Cmd::If(..) => {
            let found = find_next_on_level(nodes, next, level);
            let found_end = find_next_end_on_level(nodes, current, level);
            match (found, found_end) {
                (Some(f), Some(e)) => {
                    state.push((AnchorKind::If, nodes[e].index));
                    proof {
                        assert(anchors_of(state@) =~= st0.push(
                            (AnchorKind::If, nodes@[e as int].index as int),
                        ));
                    }
                    if next < nodes.len() && nodes[next].level != level {
                        r = Transition::Conditional { next, end: nodes[f].index };
                    } else {
                        r = Transition::Conditional { next: nodes[e].index, end: nodes[f].index };
                    }
                },
                _ => {},
            }
        },
        Cmd::ElseIf(..) => {
            if let Some(f) = find_next_on_level(nodes, next, level) {
                if next < nodes.len() && nodes[next].level != level {
                    r = Transition::Conditional { next, end: nodes[f].index };
                } else if state.len() > 0 && matches!(state[state.len() - 1].0, AnchorKind::If) {
                    r = Transition::Conditional {
                        next: state[state.len() - 1].1,
                        end: nodes[f].index,
                    };
                }
            }
        },
        Cmd::Else => {},
        Cmd::RepeatIf(..) => {
            if state.len() > 0 && matches!(state[state.len() - 1].0, AnchorKind::Do) {
                r = Transition::Conditional { next: state[state.len() - 1].1, end: next };
                let _ = state.pop();
                proof {
                    assert(anchors_of(state@) =~= st0.drop_last());
                }
            }
        },
        Cmd::End => {
            if state.len() > 0 && matches!(
                state[state.len() - 1].0,
                AnchorKind::While | AnchorKind::ForEach | AnchorKind::Times,
            ) {
                r = Transition::Move(state[state.len() - 1].1);
                let _ = state.pop();
                proof {
                    assert(anchors_of(state@) =~= st0.drop_last());
                }
            } else if state.len() > 0 && matches!(state[state.len() - 1].0, AnchorKind::If) {
                let _ = state.pop();
                proof {
                    assert(anchors_of(state@) =~= st0.drop_last());
                }
            }
        },
        _ => {
            if next < nodes.len() && matches!(nodes[next].command, Cmd::Else | Cmd::ElseIf(..))
                && state.len() > 0 {
                r = Transition::Move(state[state.len() - 1].1);
            }
        },
    }
    r
}

/// Resolve every node's edge in one left-to-right pass over the list.
fn connect_nodes(nodes: Vec<Node>) -> (r: Vec<Node>)
    requires
        spec_indices_small(nodes@),
    ensures
        r@.len() == nodes@.len(),
        cores_of(r@) == cores_of(nodes@),
        forall|k: int|
            0 <= k < r@.len() ==> (#[trigger] r@[k]).next == spec_transitions_from(
                cores_of(nodes@),
                0,
                Seq::empty(),
            )[k],
{
    let ghost cores = cores_of(nodes@);
    let ghost all: Seq<Transition> = spec_transitions_from(cores, 0, Seq::empty());
    proof {
        lemma_transitions_from_len(cores, 0, Seq::empty());
    }
    let mut ts: Vec<Transition> = Vec::new();
    let mut state: Vec<(AnchorKind, usize)> = Vec::new();
    let mut i: usize = 0;
    proof {
        assert(anchors_of(state@) =~= Seq::<(AnchorKind, int)>::empty());
    }
    while i < nodes.len()
        invariant
            i <= nodes@.len(),
            ts@.len() == i,
            cores == cores_of(nodes@),
            all == spec_transitions_from(cores, 0, Seq::empty()),
            all.len() == nodes@.len(),
            spec_indices_small(nodes@),
            all =~= ts@ + spec_transitions_from(cores, i as int, anchors_of(state@)),
            forall|j: int| 0 <= j < i ==> ts@[j] == all[j],
        decreases nodes@.len() - i,
    {
        let t = connect_commands(&nodes, i, i + 1, &mut state);
        ts.push(t);
        proof {
            assert(all =~= ts@ + spec_transitions_from(cores, i + 1, anchors_of(state@)));
        }
        i += 1;
    }
    let mut rest = nodes;
    let ghost orig = rest@;
    let n_orig: usize = rest.len();
    proof {
        assert(orig.len() == n_orig as int);
    }
    let mut out: Vec<Node> = Vec::new();
    let mut k: usize = 0;
    while rest.len() > 0
        invariant
            orig.len() <= usize::MAX,
            k + rest@.len() == orig.len(),
            rest@ =~= orig.skip(k as int),
            out@.len() == k,
            ts@.len() == orig.len(),
            forall|j: int| 0 <= j < ts@.len() ==> ts@[j] == all[j],
            forall|j: int|
                0 <= j < k ==> {
                    &&& (#[trigger] out@[j]).command == orig[j].command
                    &&& out@[j].index == orig[j].index
                    &&& out@[j].level == orig[j].level
                    &&& out@[j].next == all[j]
                },
        decreases rest@.len(),
    {
        let mut node = rest.remove(0);
        proof {
            assert(node == orig[k as int]);
            assert(rest@ =~= orig.skip(k + 1));
        }
        node.next = ts[k];
        out.push(node);
        k += 1;
    }
    proof {
        assert(cores_of(out@) =~= cores_of(orig));
    }
    out
}

/// Compile a command list into its flow graph: levels, kept nodes, and
/// resolved edges. Each kept node keeps its pre-filter position, so
/// dropping comment commands never shifts a later node's reported place.
pub fn build_nodes(commands: Vec<Command>) -> (r: Vec<Node>)
    ensures
        r@.len() == spec_kept_idx(commands@, 0).len(),
        forall|k: int|
            0 <= k < r@.len() ==> {
                let idx = spec_kept_idx(commands@, 0)[k];
                &&& (#[trigger] r@[k]).index == idx
                &&& 0 <= idx < commands@.len()
                &&& r@[k].command == commands@[idx].cmd
                &&& r@[k].level as nat == spec_levels(commands@)[idx]
            },
        forall|k: int|
            0 <= k < r@.len() ==> (#[trigger] r@[k]).next == spec_transitions_from(
                cores_of(r@),
                0,
                Seq::empty(),
            )[k],
{
    let ghost orig = commands@;
    let n_orig: usize = commands.len();
    proof {
        assert(orig.len() == n_orig as int);
    }
    let levels = compute_levels(&commands);
    let nodes = create_nodes(commands, &levels);
    proof {
        assert forall|k: int| 0 <= k < nodes@.len() implies (#[trigger] nodes@[k]).index
            < usize::MAX by {
            assert(nodes@[k].index < orig.len());
        }
    }
    let r = connect_nodes(nodes);
    proof {
        assert forall|k: int| 0 <= k < r@.len() implies {
            let idx = spec_kept_idx(orig, 0)[k];
            &&& (#[trigger] r@[k]).index == idx
            &&& 0 <= idx < orig.len()
            &&& r@[k].command == orig[idx].cmd
            &&& r@[k].level as nat == spec_levels(orig)[idx]
        } by {
            assert(cores_of(r@)[k] == cores_of(nodes@)[k]);
        }
    }
    r
}


/// The derived store key under which a loop's remaining items hide.
fn iterator_key(iterator: &str, var: &str) -> (r: String)
    ensures
        r@ == "ITERATOR_INDEX_"@ + iterator@ + "_"@ + var@,
{
    let mut key = "ITERATOR_INDEX_".to_owned();
    key.append(iterator);
    key.append("_");
    key.append(var);
    key
}

/// The derived store key under which a counted loop's remaining count
/// hides, named by the loop header's node position.
fn times_key(position: usize) -> (r: String)
    ensures
        r@ == "TIMES_INDEX_"@ + crate::strutil::spec_digits(position as nat),
{
    let mut key = "TIMES_INDEX_".to_owned();
    let num = crate::strutil::u64_to_string(position as u64);
    key.append(num.as_str());
    key
}

/// Fresh copies of a list of values.
fn clone_values(items: &Vec<Value>) -> (r: Vec<Value>)
    ensures
        r@.len() == items@.len(),
        forall|j: int| 0 <= j < items@.len() ==> (#[trigger] r@[j])@ == items@[j]@,
{
    let mut out: Vec<Value> = Vec::new();
    let mut i: usize = 0;
    while i < items.len()
        invariant
            i <= items@.len(),
            out@.len() == i,
            forall|j: int| 0 <= j < i ==> (#[trigger] out@[j])@ == items@[j]@,
        decreases items@.len() - i,
    {
        let c = clone_value(&items[i]);
        out.push(c);
        i += 1;
    }
    out
}

/// A string's characters, each as a one-character string value.
fn chars_of(s: &str) -> (r: Vec<Value>)
    ensures
        r@.len() == s@.len(),
        forall|j: int| 0 <= j < s@.len() ==> (#[trigger] r@[j])@ == ValueV::Str(seq![s@[j]]),
{
    let n = s.unicode_len();
    let mut out: Vec<Value> = Vec::new();
    let mut i: usize = 0;
    while i < n
        invariant
            i <= n,
            n == s@.len(),
            out@.len() == i,
            forall|j: int| 0 <= j < i ==> (#[trigger] out@[j])@ == ValueV::Str(seq![s@[j]]),
        decreases n - i,
    {
        let mut one = String::new();
        crate::strutil::push_char(&mut one, s.get_char(i));
        proof {
            assert(one@ =~= seq![s@[i as int]]);
        }
        out.push(Value::Str(one));
        i += 1;
    }
    out
}


/// The edges of a node list.
pub open spec fn edges_of(nodes: Seq<Node>) -> Seq<Transition> {
    nodes.map_values(|n: Node| n.next)
}

/// A command the walk below models fully: its effect is decided by the
/// store, the echo log and the recorded script answers alone. Everything
/// else needs a live driver.
pub open spec fn spec_modeled(c: Cmd) -> bool {
    c is Echo || c is Store || c is Assert || c is While || c is If || c is ElseIf || c is Else
        || c is Do || c is RepeatIf || c is ForEach || c is Times || c is End
}

/// A graph whose every node the walk models.
pub open spec fn spec_graph_modeled(cores: Seq<NodeCore>) -> bool {
    forall|k: int| 0 <= k < cores.len() ==> spec_modeled((#[trigger] cores[k]).command())
}

/// The store key a loop hides its remaining items under.
pub open spec fn spec_iter_key(iterator: Seq<char>, var: Seq<char>) -> Seq<char> {
    "ITERATOR_INDEX_"@ + iterator + "_"@ + var
}

/// The store key a counted loop hides its remaining count under.
pub open spec fn spec_times_key(position: int) -> Seq<char> {
    "TIMES_INDEX_"@ + crate::strutil::spec_digits(position as nat)
}

/// What one atomic command does to the store and the echo log.
pub enum AtomicOut {
    /// The effect happened; here is the state after it.
    Go { vars: Map<Seq<char>, ValueV>, log: Seq<Seq<char>> },
    /// An explicit check failed, with both sides.
    Refused { lhs: Seq<char>, rhs: Seq<char> },
    /// Not an atomic command at all: the engine refuses to run it here.
    NotAtomic,
}

/// The modeled atomic commands' effects; a block end, a `do` and an
/// `else` are pure control. Commands outside the modeled set land in
/// `NotAtomic`, which only ever matters for graphs the guard excludes.
pub open spec fn spec_atomic(c: Cmd, vars: Map<Seq<char>, ValueV>, log: Seq<Seq<char>>) -> AtomicOut {
    match c {
        Cmd::Echo(m) => AtomicOut::Go { vars, log: log.push(crate::emit::spec_emit_plain(m@, vars)) },
        Cmd::Store { var, value } => AtomicOut::Go {
            vars: vars.insert(var@, ValueV::Str(value@)),
            log,
        },
        Cmd::Assert { var, value } => if crate::command::spec_shown(vars, var@) == value@ {
            AtomicOut::Go { vars, log }
        } else {
            AtomicOut::Refused { lhs: crate::command::spec_shown(vars, var@), rhs: value@ }
        },
        Cmd::End | Cmd::Do | Cmd::Else => AtomicOut::Go { vars, log },
        _ => AtomicOut::NotAtomic,
    }
}

/// Why a walk stops short of the end.
pub enum WalkFail {
    /// An explicit check failed, with both sides.
    Refused { lhs: Seq<char>, rhs: Seq<char> },
    /// A value did not have the shape the walk needed.
    Mismatch,
    /// The step budget ran out.
    Spent,
}

/// Where a walk of the graph ends.
pub enum WalkOut {
    /// Past the last node: the run is clean.
    Done { vars: Map<Seq<char>, ValueV>, log: Seq<Seq<char>> },
    /// Stopped at a fault, tagged with the position the engine reports.
    Fail { why: WalkFail, at: int, vars: Map<Seq<char>, ValueV>, log: Seq<Seq<char>> },
    /// A condition needed a script answer that never came: the driver
    /// refused it, and the driver's own error decides the kind.
    Waiting { at: int, vars: Map<Seq<char>, ValueV>, log: Seq<Seq<char>> },
}

/// The engine's walk, in specification form: from node `i` with the
/// given store, echo log, script answers still to come, and step budget.
/// Every step spends one unit of budget; conditions consume one answer
/// each; loops keep their cursors in the store under derived keys.
pub open spec fn spec_walk(
    cores: Seq<NodeCore>,
    edges: Seq<Transition>,
    i: int,
    vars: Map<Seq<char>, ValueV>,
    log: Seq<Seq<char>>,
    answers: Seq<ValueV>,
    fuel: nat,
) -> WalkOut
    decreases fuel, 1int,
{
    if !(0 <= i < cores.len()) {
        WalkOut::Done { vars, log }
    } else if fuel == 0 {
        WalkOut::Fail { why: WalkFail::Spent, at: cores[i].index(), vars, log }
    } else {
        match edges[i] {
            Transition::Next => spec_walk_on(cores, edges, i, i + 1, vars, log, answers, fuel),
            Transition::Move(p) => spec_walk_on(cores, edges, i, p as int, vars, log, answers, fuel),
            Transition::Conditional { next, end } => match cores[i].command() {
                Cmd::While(_) | Cmd::If(_) | Cmd::ElseIf(_) | Cmd::RepeatIf(_) => {
                    if answers.len() == 0 {
                        WalkOut::Waiting { at: i, vars, log }
                    } else {
                        match answers[0] {
                            ValueV::Bool(b) => spec_walk(
                                cores,
                                edges,
                                if b { next as int } else { end as int },
                                vars,
                                log,
                                answers.skip(1),
                                (fuel - 1) as nat,
                            ),
                            _ => WalkOut::Fail { why: WalkFail::Mismatch, at: i, vars, log },
                        }
                    }
                },
                Cmd::ForEach { iterator, var } => {
                    let key = spec_iter_key(iterator@, var@);
                    if vars.contains_key(key) {
                        match vars[key] {
                            ValueV::Arr(items) => {
                                let base = vars.remove(key);
                                if items.len() == 0 {
                                    spec_walk(cores, edges, end as int, base, log, answers, (fuel - 1) as nat)
                                } else {
                                    spec_walk(
                                        cores,
                                        edges,
                                        next as int,
                                        base.insert(var@, items[0]).insert(
                                            key,
                                            ValueV::Arr(items.skip(1)),
                                        ),
                                        log,
                                        answers,
                                        (fuel - 1) as nat,
                                    )
                                }
                            },
                            _ => WalkOut::Fail {
                                why: WalkFail::Mismatch,
                                at: cores[i].index(),
                                vars: vars.remove(key),
                                log,
                            },
                        }
                    } else {
                        let source = if vars.contains_key(iterator@) {
                            Some(vars[iterator@])
                        } else {
                            None
                        };
                        match source {
                            Some(ValueV::Arr(items)) => if items.len() == 0 {
                                spec_walk(cores, edges, end as int, vars, log, answers, (fuel - 1) as nat)
                            } else {
                                spec_walk(
                                    cores,
                                    edges,
                                    next as int,
                                    vars.insert(var@, items[0]).insert(
                                        key,
                                        ValueV::Arr(items.skip(1)),
                                    ),
                                    log,
                                    answers,
                                    (fuel - 1) as nat,
                                )
                            },
                            Some(ValueV::Str(text)) => {
                                let items = Seq::new(text.len(), |j: int| ValueV::Str(seq![text[j]]));
                                if items.len() == 0 {
                                    spec_walk(cores, edges, end as int, vars, log, answers, (fuel - 1) as nat)
                                } else {
                                    spec_walk(
                                        cores,
                                        edges,
                                        next as int,
                                        vars.insert(var@, items[0]).insert(
                                            key,
                                            ValueV::Arr(items.skip(1)),
                                        ),
                                        log,
                                        answers,
                                        (fuel - 1) as nat,
                                    )
                                }
                            },
                            _ => spec_walk(cores, edges, end as int, vars, log, answers, (fuel - 1) as nat),
                        }
                    }
                },
                Cmd::Times(expr) => {
                    let key = spec_times_key(i);
                    if vars.contains_key(key) {
                        match vars[key] {
                            ValueV::Num(k) => {
                                let base = vars.remove(key);
                                if k <= 0 {
                                    spec_walk(cores, edges, end as int, base, log, answers, (fuel - 1) as nat)
                                } else {
                                    spec_walk(
                                        cores,
                                        edges,
                                        next as int,
                                        base.insert(key, ValueV::Num(k - 1)),
                                        log,
                                        answers,
                                        (fuel - 1) as nat,
                                    )
                                }
                            },
                            _ => WalkOut::Fail {
                                why: WalkFail::Mismatch,
                                at: cores[i].index(),
                                vars: vars.remove(key),
                                log,
                            },
                        }
                    } else {
                        let t = crate::emit::spec_emit_plain(expr@, vars);
                        if !crate::strutil::spec_uint_shape(t) || crate::strutil::spec_digits_val(
                            crate::strutil::spec_uint_digits(t),
                        ) > u64::MAX {
                            WalkOut::Fail {
                                why: WalkFail::Mismatch,
                                at: cores[i].index(),
                                vars,
                                log,
                            }
                        } else {
                            let n = crate::strutil::spec_digits_val(
                                crate::strutil::spec_uint_digits(t),
                            );
                            if n == 0 {
                                spec_walk(cores, edges, end as int, vars, log, answers, (fuel - 1) as nat)
                            } else {
                                let left: int = if n - 1 <= i64::MAX {
                                    n - 1
                                } else {
                                    i64::MAX as int
                                };
                                spec_walk(
                                    cores,
                                    edges,
                                    next as int,
                                    vars.insert(key, ValueV::Num(left)),
                                    log,
                                    answers,
                                    (fuel - 1) as nat,
                                )
                            }
                        }
                    }
                },
                _ => WalkOut::Fail {
                    why: WalkFail::Mismatch,
                    at: cores[i].index(),
                    vars,
                    log,
                },
            },
        }
    }
}

/// One plain step: the node's atomic effect, then the walk goes on at the
/// target. The spent-budget arm is never reached from the walk, which
/// checks the budget first; it only keeps this function total.
pub open spec fn spec_walk_on(
    cores: Seq<NodeCore>,
    edges: Seq<Transition>,
    i: int,
    target: int,
    vars: Map<Seq<char>, ValueV>,
    log: Seq<Seq<char>>,
    answers: Seq<ValueV>,
    fuel: nat,
) -> WalkOut
    decreases fuel, 0int,
{
    if fuel == 0 {
        WalkOut::Fail { why: WalkFail::Spent, at: 0, vars, log }
    } else {
        match spec_atomic(cores[i].command(), vars, log) {
            AtomicOut::Go { vars: vars2, log: log2 } => spec_walk(
                cores,
                edges,
                target,
                vars2,
                log2,
                answers,
                (fuel - 1) as nat,
            ),
            AtomicOut::Refused { lhs, rhs } => WalkOut::Fail {
                why: WalkFail::Refused { lhs, rhs },
                at: cores[i].index(),
                vars,
                log,
            },
            AtomicOut::NotAtomic => WalkOut::Fail {
                why: WalkFail::Mismatch,
                at: cores[i].index(),
                vars,
                log,
            },
        }
    }
}

/// How an engine run must relate to the walk: started on the old state
/// with exactly the answers that were recorded, the walk reaches the
/// engine's final store and echo log, and decides its outcome: a clean
/// walk is `Ok`; a fault is the error at the walk's position with the
/// walk's kind; a walk left waiting is the driver's own error at the
/// condition it refused.
pub open spec fn spec_walk_agrees(
    cores: Seq<NodeCore>,
    edges: Seq<Transition>,
    vars0: Map<Seq<char>, ValueV>,
    log0: Seq<Seq<char>>,
    answers: Seq<ValueV>,
    vars1: Map<Seq<char>, ValueV>,
    log1: Seq<Seq<char>>,
    r: Result<(), RunnerError>,
) -> bool {
    match spec_walk(cores, edges, 0, vars0, log0, answers, u64::MAX as nat) {
        WalkOut::Done { vars, log } => r is Ok && vars1 == vars && log1 == log,
        WalkOut::Fail { why, at, vars, log } => {
            &&& (r matches Err(e) && e.index as int == at)
            &&& vars1 == vars
            &&& log1 == log
            &&& match why {
                WalkFail::Refused { lhs, rhs } => (r matches Err(e)
                    && (e.kind matches RunnerErrorKind::AssertFailed { lhs: l, rhs: rr } && l@
                    == lhs && rr@ == rhs)),
                WalkFail::Mismatch => (r matches Err(e) && e.kind is MismatchedType),
                WalkFail::Spent => (r matches Err(e) && e.kind is Timeout),
            }
        },
        WalkOut::Waiting { at, vars, log } => (r matches Err(e) && e.index as int == at) && vars1
            == vars && log1 == log,
    }
}

/// Evaluate a condition text as a script returning a boolean: the
/// driver's recorded answer decides the branch; a non-boolean answer is a
/// mismatch; a driver failure passes through with nothing recorded.
fn run_condition<D: Webdriver>(runner: &mut Runner<D>, condition: &str) -> (r: Result<
    bool,
    RunnerErrorKind,
>)
    ensures
        final(runner).vars() == old(runner).vars(),
        final(runner).echoes_log() == old(runner).echoes_log(),
        r matches Ok(b) ==> final(runner).results_log() == old(runner).results_log().push(
            ValueV::Bool(b),
        ),
        r is Err ==> (final(runner).results_log() == old(runner).results_log() || (r matches Err(
            RunnerErrorKind::MismatchedType(_),
        ) && exists|v: ValueV|
            !(v is Bool) && final(runner).results_log() == old(runner).results_log().push(v))),
{
    let mut script = "return ".to_owned();
    script.append(condition);
    let res = runner.exec(script.as_str())?;
    match res {
        Value::Bool(b) => Ok(b),
        _ => {
            proof {
                assert(!(res@ is Bool));
            }
            Err(RunnerErrorKind::MismatchedType("expected boolean type in condition".to_owned()))
        },
    }
}

/// Walk the flow graph: plain steps run the node's operation and move on;
/// a jump runs the node's operation too, unless the node is pure control,
/// and then moves the program counter to its target; branches evaluate a
/// condition or advance a loop cursor. The walk carries a step budget so
/// that it always answers; spending it is reported as a timeout. On a
/// graph whose every command the specification walk models, the engine's
/// outcome, final store and echo log are exactly the walk's, driven by
/// the script answers the run recorded.
#[verifier::loop_isolation(false)]
#[verifier::rlimit(100)]
fn run_nodes<D: Webdriver>(runner: &mut Runner<D>, nodes: &Vec<Node>, file_url: &str) -> (r:
    Result<(), RunnerError>)
    ensures
        old(runner).echoes_log().is_prefix_of(final(runner).echoes_log()),
        old(runner).results_log().is_prefix_of(final(runner).results_log()),
        r matches Err(e) ==> e.test is None,
        spec_graph_modeled(cores_of(nodes@)) ==> spec_walk_agrees(
            cores_of(nodes@),
            edges_of(nodes@),
            old(runner).vars(),
            old(runner).echoes_log(),
            final(runner).results_log().skip(old(runner).results_log().len() as int),
            final(runner).vars(),
            final(runner).echoes_log(),
            r,
        ),
{
    let ghost cores = cores_of(nodes@);
    let ghost edgesg = edges_of(nodes@);
    let ghost vars0 = old(runner).vars();
    let ghost log0 = old(runner).echoes_log();
    let ghost res0 = old(runner).results_log();
    let ghost fuel0: nat = u64::MAX as nat;
    let ghost modeled = spec_graph_modeled(cores);
    let mut i: usize = 0;
    let mut fuel: u64 = u64::MAX;
    proof {
        assert(runner.results_log().skip(res0.len() as int) =~= Seq::<ValueV>::empty());
        assert forall|fut: Seq<ValueV>|
            spec_walk(
                cores,
                edgesg,
                0,
                vars0,
                log0,
                runner.results_log().skip(res0.len() as int) + fut,
                fuel0,
            ) == spec_walk(
                cores,
                edgesg,
                i as int,
                runner.vars(),
                runner.echoes_log(),
                fut,
                fuel as nat,
            ) by {
            assert(runner.results_log().skip(res0.len() as int) + fut =~= fut);
        }
    }
    while i < nodes.len() && fuel > 0
        invariant
            cores == cores_of(nodes@),
            edgesg == edges_of(nodes@),
            cores.len() == nodes@.len(),
            edgesg.len() == nodes@.len(),
            log0.is_prefix_of(runner.echoes_log()),
            res0.is_prefix_of(runner.results_log()),
            modeled ==> forall|fut: Seq<ValueV>|
                spec_walk(
                    cores,
                    edgesg,
                    0,
                    vars0,
                    log0,
                    runner.results_log().skip(res0.len() as int) + fut,
                    fuel0,
                ) == spec_walk(
                    cores,
                    edgesg,
                    i as int,
                    runner.vars(),
                    runner.echoes_log(),
                    fut,
                    fuel as nat,
                ),
        decreases fuel,
    {
        let ghost pre_fuel: nat = fuel as nat;
        let ghost pre_vars = runner.vars();
        let ghost pre_log = runner.echoes_log();
        let ghost pre_results = runner.results_log();
        let ghost pre_taken = runner.results_log().skip(res0.len() as int);
        let ghost at: int = i as int;
        fuel = fuel - 1;
        proof {
            assert(cores[at].command() == nodes@[at].command);
            assert(cores[at].index() == nodes@[at].index as int);
            assert(edgesg[at] == nodes@[at].next);
        }
        let node = &nodes[i];
        match node.next {
            Transition::Move(position) => {
                if !matches!(node.command, Cmd::End | Cmd::Do | Cmd::Else) {
                    match runner.run_command(file_url, &node.command) {
                        Ok(_) => {},
                        Err(e) => {
                            proof {
                                if modeled {
                                    assert(spec_walk(
                                        cores,
                                        edgesg,
                                        0,
                                        vars0,
                                        log0,
                                        pre_taken + Seq::<ValueV>::empty(),
                                        fuel0,
                                    ) == spec_walk(
                                        cores,
                                        edgesg,
                                        at,
                                        pre_vars,
                                        pre_log,
                                        Seq::<ValueV>::empty(),
                                        pre_fuel,
                                    ));
                                    assert(pre_taken + Seq::<ValueV>::empty() =~= pre_taken);
                                    assert(runner.results_log().skip(res0.len() as int)
                                        =~= pre_taken);
                                    assert(spec_walk(
                                        cores,
                                        edgesg,
                                        at,
                                        pre_vars,
                                        pre_log,
                                        Seq::<ValueV>::empty(),
                                        pre_fuel,
                                    ) == spec_walk_on(
                                        cores,
                                        edgesg,
                                        at,
                                        position as int,
                                        pre_vars,
                                        pre_log,
                                        Seq::<ValueV>::empty(),
                                        pre_fuel,
                                    ));
                                    let act = spec_atomic(cores[at].command(), pre_vars, pre_log);
                                    assert(!(act is Go));
                                    if act is Refused {
                                        assert(spec_walk_on(
                                            cores,
                                            edgesg,
                                            at,
                                            position as int,
                                            pre_vars,
                                            pre_log,
                                            Seq::<ValueV>::empty(),
                                            pre_fuel,
                                        ) == (WalkOut::Fail {
                                            why: WalkFail::Refused {
                                                lhs: act->Refused_lhs,
                                                rhs: act->Refused_rhs,
                                            },
                                            at: cores[at].index(),
                                            vars: pre_vars,
                                            log: pre_log,
                                        }));
                                    } else {
                                        assert(act is NotAtomic);
                                        assert(spec_walk_on(
                                            cores,
                                            edgesg,
                                            at,
                                            position as int,
                                            pre_vars,
                                            pre_log,
                                            Seq::<ValueV>::empty(),
                                            pre_fuel,
                                        ) == (WalkOut::Fail {
                                            why: WalkFail::Mismatch,
                                            at: cores[at].index(),
                                            vars: pre_vars,
                                            log: pre_log,
                                        }));
                                    }
                                }
                            }
                            return Err(RunnerError::new(e, node.index));
                        },
                    }
                }
                proof {
                    if modeled {
                        assert forall|fut: Seq<ValueV>|
                            spec_walk(
                                cores,
                                edgesg,
                                0,
                                vars0,
                                log0,
                                runner.results_log().skip(res0.len() as int) + fut,
                                fuel0,
                            ) == spec_walk(
                                cores,
                                edgesg,
                                position as int,
                                runner.vars(),
                                runner.echoes_log(),
                                fut,
                                fuel as nat,
                            ) by {
                            assert(spec_walk(cores, edgesg, 0, vars0, log0, pre_taken + fut, fuel0)
                                == spec_walk(cores, edgesg, at, pre_vars, pre_log, fut, pre_fuel));
                            assert(runner.results_log().skip(res0.len() as int) =~= pre_taken);
                            assert(spec_atomic(cores[at].command(), pre_vars, pre_log)
                                == (AtomicOut::Go {
                                vars: runner.vars(),
                                log: runner.echoes_log(),
                            }));
                            assert(spec_walk(cores, edgesg, at, pre_vars, pre_log, fut, pre_fuel)
                                == spec_walk_on(
                                cores,
                                edgesg,
                                at,
                                position as int,
                                pre_vars,
                                pre_log,
                                fut,
                                pre_fuel,
                            ));
                            assert((pre_fuel - 1) as nat == fuel as nat);
                            assert(spec_walk_on(
                                cores,
                                edgesg,
                                at,
                                position as int,
                                pre_vars,
                                pre_log,
                                fut,
                                pre_fuel,
                            ) == spec_walk(
                                cores,
                                edgesg,
                                position as int,
                                runner.vars(),
                                runner.echoes_log(),
                                fut,
                                fuel as nat,
                            ));
                        }
                    }
                }
                i = position;
            },
            Transition::Next => {
                if !matches!(node.command, Cmd::End | Cmd::Do | Cmd::Else) {
                    match runner.run_command(file_url, &node.command) {
                        Ok(_) => {},
                        Err(e) => {
                            proof {
                                if modeled {
                                    assert(spec_walk(
                                        cores,
                                        edgesg,
                                        0,
                                        vars0,
                                        log0,
                                        pre_taken + Seq::<ValueV>::empty(),
                                        fuel0,
                                    ) == spec_walk(
                                        cores,
                                        edgesg,
                                        at,
                                        pre_vars,
                                        pre_log,
                                        Seq::<ValueV>::empty(),
                                        pre_fuel,
                                    ));
                                    assert(pre_taken + Seq::<ValueV>::empty() =~= pre_taken);
                                    assert(runner.results_log().skip(res0.len() as int)
                                        =~= pre_taken);
                                    assert(spec_walk(
                                        cores,
                                        edgesg,
                                        at,
                                        pre_vars,
                                        pre_log,
                                        Seq::<ValueV>::empty(),
                                        pre_fuel,
                                    ) == spec_walk_on(
                                        cores,
                                        edgesg,
                                        at,
                                        at + 1,
                                        pre_vars,
                                        pre_log,
                                        Seq::<ValueV>::empty(),
                                        pre_fuel,
                                    ));
                                    let act = spec_atomic(cores[at].command(), pre_vars, pre_log);
                                    assert(!(act is Go));
                                    if act is Refused {
                                        assert(spec_walk_on(
                                            cores,
                                            edgesg,
                                            at,
                                            at + 1,
                                            pre_vars,
                                            pre_log,
                                            Seq::<ValueV>::empty(),
                                            pre_fuel,
                                        ) == (WalkOut::Fail {
                                            why: WalkFail::Refused {
                                                lhs: act->Refused_lhs,
                                                rhs: act->Refused_rhs,
                                            },
                                            at: cores[at].index(),
                                            vars: pre_vars,
                                            log: pre_log,
                                        }));
                                    } else {
                                        assert(act is NotAtomic);
                                        assert(spec_walk_on(
                                            cores,
                                            edgesg,
                                            at,
                                            at + 1,
                                            pre_vars,
                                            pre_log,
                                            Seq::<ValueV>::empty(),
                                            pre_fuel,
                                        ) == (WalkOut::Fail {
                                            why: WalkFail::Mismatch,
                                            at: cores[at].index(),
                                            vars: pre_vars,
                                            log: pre_log,
                                        }));
                                    }
                                }
                            }
                            return Err(RunnerError::new(e, node.index));
                        },
                    }
                }
                proof {
                    if modeled {
                        assert forall|fut: Seq<ValueV>|
                            spec_walk(
                                cores,
                                edgesg,
                                0,
                                vars0,
                                log0,
                                runner.results_log().skip(res0.len() as int) + fut,
                                fuel0,
                            ) == spec_walk(
                                cores,
                                edgesg,
                                at + 1,
                                runner.vars(),
                                runner.echoes_log(),
                                fut,
                                fuel as nat,
                            ) by {
                            assert(spec_walk(cores, edgesg, 0, vars0, log0, pre_taken + fut, fuel0)
                                == spec_walk(cores, edgesg, at, pre_vars, pre_log, fut, pre_fuel));
                            assert(runner.results_log().skip(res0.len() as int) =~= pre_taken);
                            assert(spec_atomic(cores[at].command(), pre_vars, pre_log)
                                == (AtomicOut::Go {
                                vars: runner.vars(),
                                log: runner.echoes_log(),
                            }));
                            assert(spec_walk(cores, edgesg, at, pre_vars, pre_log, fut, pre_fuel)
                                == spec_walk_on(
                                cores,
                                edgesg,
                                at,
                                at + 1,
                                pre_vars,
                                pre_log,
                                fut,
                                pre_fuel,
                            ));
                            assert((pre_fuel - 1) as nat == fuel as nat);
                            assert(spec_walk_on(
                                cores,
                                edgesg,
                                at,
                                at + 1,
                                pre_vars,
                                pre_log,
                                fut,
                                pre_fuel,
                            ) == spec_walk(
                                cores,
                                edgesg,
                                at + 1,
                                runner.vars(),
                                runner.echoes_log(),
                                fut,
                                fuel as nat,
                            ));
                        }
                    }
                }
                i = i + 1;
            },
            Transition::Conditional { next, end } => {
                match &node.command {
                    Cmd::While(c) | Cmd::If(c) | Cmd::ElseIf(c) | Cmd::RepeatIf(c) => {
                        match run_condition(runner, c.as_str()) {
                            Ok(b) => {
                                proof {
                                    if modeled {
                                        assert forall|fut: Seq<ValueV>|
                                            spec_walk(
                                                cores,
                                                edgesg,
                                                0,
                                                vars0,
                                                log0,
                                                runner.results_log().skip(res0.len() as int) + fut,
                                                fuel0,
                                            ) == spec_walk(
                                                cores,
                                                edgesg,
                                                (if b { next } else { end }) as int,
                                                runner.vars(),
                                                runner.echoes_log(),
                                                fut,
                                                fuel as nat,
                                            ) by {
                                            let fut_pre = seq![ValueV::Bool(b)] + fut;
                                            assert(spec_walk(
                                                cores,
                                                edgesg,
                                                0,
                                                vars0,
                                                log0,
                                                pre_taken + fut_pre,
                                                fuel0,
                                            ) == spec_walk(
                                                cores,
                                                edgesg,
                                                at,
                                                pre_vars,
                                                pre_log,
                                                fut_pre,
                                                pre_fuel,
                                            ));
                                            assert(runner.results_log().skip(res0.len() as int)
                                                + fut =~= pre_taken + fut_pre);
                                            assert(fut_pre[0] == ValueV::Bool(b));
                                            assert(fut_pre.skip(1) =~= fut);
                                        }
                                    }
                                }
                                if b {
                                    i = next;
                                } else {
                                    i = end;
                                }
                            },
                            Err(e) => {
                                proof {
                                    if modeled {
                                        if runner.results_log() == pre_results {
                                            assert(spec_walk(
                                                cores,
                                                edgesg,
                                                0,
                                                vars0,
                                                log0,
                                                pre_taken + Seq::<ValueV>::empty(),
                                                fuel0,
                                            ) == spec_walk(
                                                cores,
                                                edgesg,
                                                at,
                                                pre_vars,
                                                pre_log,
                                                Seq::<ValueV>::empty(),
                                                pre_fuel,
                                            ));
                                            assert(pre_taken + Seq::<ValueV>::empty()
                                                =~= pre_taken);
                                            assert(runner.results_log().skip(res0.len() as int)
                                                =~= pre_taken);
                                        } else {
                                            let v = choose|v: ValueV|
                                                !(v is Bool) && runner.results_log()
                                                    == pre_results.push(v);
                                            assert(spec_walk(
                                                cores,
                                                edgesg,
                                                0,
                                                vars0,
                                                log0,
                                                pre_taken + seq![v],
                                                fuel0,
                                            ) == spec_walk(
                                                cores,
                                                edgesg,
                                                at,
                                                pre_vars,
                                                pre_log,
                                                seq![v],
                                                pre_fuel,
                                            ));
                                            assert(runner.results_log().skip(res0.len() as int)
                                                =~= pre_taken.push(v));
                                            assert(pre_taken.push(v) =~= pre_taken + seq![v]);
                                            assert(seq![v][0] == v);
                                        }
                                    }
                                }
                                return Err(RunnerError::new(e, i));
                            },
                        }
                    },
                    Cmd::ForEach { iterator, var } => {
                        let ghost keyv = spec_iter_key(iterator@, var@);
                        let key = iterator_key(iterator.as_str(), var.as_str());
                        match runner.data.take(key.as_str()) {
                            Some(Value::Arr(cursor)) => {
                                let ghost items = arr_rep(cursor@);
                                proof {
                                    broadcast use lemma_arr_rep_len, lemma_arr_rep_index;

                                    assert(pre_vars[keyv] == ValueV::Arr(items));
                                }
                                let mut arr = cursor;
                                if arr.len() == 0 {
                                    proof {
                                        if modeled {
                                                assert forall|fut: Seq<ValueV>|
                                                    spec_walk(
                                                        cores,
                                                        edgesg,
                                                        0,
                                                        vars0,
                                                        log0,
                                                        runner.results_log().skip(res0.len() as int) + fut,
                                                        fuel0,
                                                    ) == spec_walk(
                                                        cores,
                                                        edgesg,
                                                        end as int,
                                                        runner.vars(),
                                                        runner.echoes_log(),
                                                        fut,
                                                        fuel as nat,
                                                    ) by {
                                                    assert(spec_walk(cores, edgesg, 0, vars0, log0, pre_taken + fut, fuel0)
                                                        == spec_walk(cores, edgesg, at, pre_vars, pre_log, fut, pre_fuel));
                                                    assert(runner.results_log().skip(res0.len() as int) =~= pre_taken);
                                                }
                                        }
                                    }
                                    i = end;
                                } else {
                                    let head = arr.remove(0);
                                    proof {
                                        broadcast use lemma_arr_rep_len, lemma_arr_rep_index;

                                        assert(head@ == items[0]);
                                        assert(arr_rep(arr@) =~= items.skip(1));
                                    }
                                    runner.save_value(var.clone(), head);
                                    runner.save_value(key, Value::Arr(arr));
                                    proof {
                                        if modeled {
                                                assert forall|fut: Seq<ValueV>|
                                                    spec_walk(
                                                        cores,
                                                        edgesg,
                                                        0,
                                                        vars0,
                                                        log0,
                                                        runner.results_log().skip(res0.len() as int) + fut,
                                                        fuel0,
                                                    ) == spec_walk(
                                                        cores,
                                                        edgesg,
                                                        next as int,
                                                        runner.vars(),
                                                        runner.echoes_log(),
                                                        fut,
                                                        fuel as nat,
                                                    ) by {
                                                    assert(spec_walk(cores, edgesg, 0, vars0, log0, pre_taken + fut, fuel0)
                                                        == spec_walk(cores, edgesg, at, pre_vars, pre_log, fut, pre_fuel));
                                                    assert(runner.results_log().skip(res0.len() as int) =~= pre_taken);
                                                }
                                        }
                                    }
                                    i = next;
                                }
                            },
                            Some(_) => {
                                proof {
                                    if modeled {
                                        assert(!(pre_vars[keyv] is Arr));
                                        assert(spec_walk(
                                            cores,
                                            edgesg,
                                            0,
                                            vars0,
                                            log0,
                                            pre_taken + Seq::<ValueV>::empty(),
                                            fuel0,
                                        ) == spec_walk(
                                            cores,
                                            edgesg,
                                            at,
                                            pre_vars,
                                            pre_log,
                                            Seq::<ValueV>::empty(),
                                            pre_fuel,
                                        ));
                                        assert(pre_taken + Seq::<ValueV>::empty() =~= pre_taken);
                                        assert(runner.results_log().skip(res0.len() as int)
                                            =~= pre_taken);
                                    }
                                }
                                return Err(
                                    RunnerError::new(
                                        RunnerErrorKind::MismatchedType(
                                            "unexpected shape of an iteration cursor".to_owned(),
                                        ),
                                        node.index,
                                    ),
                                );
                            },
                            None => {
                                proof {
                                    assert(pre_vars.remove(keyv) =~= pre_vars);
                                }
                                let items: Option<Vec<Value>> = match runner.get_value(
                                    iterator.as_str(),
                                ) {
                                    Some(Value::Arr(stored)) => {
                                        let copied = clone_values(stored);
                                        proof {
                                            broadcast use lemma_arr_rep_len, lemma_arr_rep_index;

                                            assert(arr_rep(copied@) =~= arr_rep(stored@));
                                            assert(pre_vars[iterator@] == ValueV::Arr(
                                                arr_rep(stored@),
                                            ));
                                        }
                                        Some(copied)
                                    },
                                    Some(Value::Str(text)) => {
                                        let copied = chars_of(text.as_str());
                                        proof {
                                            broadcast use lemma_arr_rep_len, lemma_arr_rep_index;

                                            assert(pre_vars[iterator@] == ValueV::Str(text@));
                                            assert(arr_rep(copied@) =~= Seq::new(
                                                text@.len(),
                                                |j: int| ValueV::Str(seq![text@[j]]),
                                            ));
                                        }
                                        Some(copied)
                                    },
                                    _ => None,
                                };
                                match items {
                                    None => {
                                        proof {
                                            if modeled {
                                            assert forall|fut: Seq<ValueV>|
                                                spec_walk(
                                                    cores,
                                                    edgesg,
                                                    0,
                                                    vars0,
                                                    log0,
                                                    runner.results_log().skip(res0.len() as int) + fut,
                                                    fuel0,
                                                ) == spec_walk(
                                                    cores,
                                                    edgesg,
                                                    end as int,
                                                    runner.vars(),
                                                    runner.echoes_log(),
                                                    fut,
                                                    fuel as nat,
                                                ) by {
                                                assert(spec_walk(cores, edgesg, 0, vars0, log0, pre_taken + fut, fuel0)
                                                    == spec_walk(cores, edgesg, at, pre_vars, pre_log, fut, pre_fuel));
                                                assert(runner.results_log().skip(res0.len() as int) =~= pre_taken);
                                            }
                                            }
                                        }
                                        i = end;
                                    },
                                    Some(fresh) => {
                                        let ghost itemsv = arr_rep(fresh@);
                                        proof {
                                            broadcast use lemma_arr_rep_len, lemma_arr_rep_index;

                                            if pre_vars[iterator@] is Arr {
                                                assert(pre_vars[iterator@] == ValueV::Arr(itemsv));
                                            } else {
                                                let text = pre_vars[iterator@]->Str_0;
                                                assert(itemsv =~= Seq::new(
                                                    text.len(),
                                                    |j: int| ValueV::Str(seq![text[j]]),
                                                ));
                                            }
                                        }
                                        let mut arr = fresh;
                                        if arr.len() == 0 {
                                            proof {
                                                if modeled {
                                                    assert forall|fut: Seq<ValueV>|
                                                        spec_walk(
                                                            cores,
                                                            edgesg,
                                                            0,
                                                            vars0,
                                                            log0,
                                                            runner.results_log().skip(res0.len() as int) + fut,
                                                            fuel0,
                                                        ) == spec_walk(
                                                            cores,
                                                            edgesg,
                                                            end as int,
                                                            runner.vars(),
                                                            runner.echoes_log(),
                                                            fut,
                                                            fuel as nat,
                                                        ) by {
                                                        assert(spec_walk(cores, edgesg, 0, vars0, log0, pre_taken + fut, fuel0)
                                                            == spec_walk(cores, edgesg, at, pre_vars, pre_log, fut, pre_fuel));
                                                        assert(runner.results_log().skip(res0.len() as int) =~= pre_taken);
                                                    }
                                                }
                                            }
                                            i = end;
                                        } else {
                                            let head = arr.remove(0);
                                            proof {
                                                broadcast use lemma_arr_rep_len,
                                                    lemma_arr_rep_index;

                                                assert(head@ == itemsv[0]);
                                                assert(arr_rep(arr@) =~= itemsv.skip(1));
                                            }
                                            runner.save_value(var.clone(), head);
                                            runner.save_value(key, Value::Arr(arr));
                                            proof {
                                                if modeled {
                                                    assert forall|fut: Seq<ValueV>|
                                                        spec_walk(
                                                            cores,
                                                            edgesg,
                                                            0,
                                                            vars0,
                                                            log0,
                                                            runner.results_log().skip(res0.len() as int) + fut,
                                                            fuel0,
                                                        ) == spec_walk(
                                                            cores,
                                                            edgesg,
                                                            next as int,
                                                            runner.vars(),
                                                            runner.echoes_log(),
                                                            fut,
                                                            fuel as nat,
                                                        ) by {
                                                        assert(spec_walk(cores, edgesg, 0, vars0, log0, pre_taken + fut, fuel0)
                                                            == spec_walk(cores, edgesg, at, pre_vars, pre_log, fut, pre_fuel));
                                                        assert(runner.results_log().skip(res0.len() as int) =~= pre_taken);
                                                    }
                                                }
                                            }
                                            i = next;
                                        }
                                    },
                                }
                            },
                        }
                    },
                    Cmd::Times(expr) => {
                        let ghost keyv = spec_times_key(at);
                        let key = times_key(i);
                        match runner.data.take(key.as_str()) {
                            Some(Value::Num(k)) => {
                                if k <= 0 {
                                    proof {
                                        if modeled {
                                                assert forall|fut: Seq<ValueV>|
                                                    spec_walk(
                                                        cores,
                                                        edgesg,
                                                        0,
                                                        vars0,
                                                        log0,
                                                        runner.results_log().skip(res0.len() as int) + fut,
                                                        fuel0,
                                                    ) == spec_walk(
                                                        cores,
                                                        edgesg,
                                                        end as int,
                                                        runner.vars(),
                                                        runner.echoes_log(),
                                                        fut,
                                                        fuel as nat,
                                                    ) by {
                                                    assert(spec_walk(cores, edgesg, 0, vars0, log0, pre_taken + fut, fuel0)
                                                        == spec_walk(cores, edgesg, at, pre_vars, pre_log, fut, pre_fuel));
                                                    assert(runner.results_log().skip(res0.len() as int) =~= pre_taken);
                                                }
                                        }
                                    }
                                    i = end;
                                } else {
                                    runner.save_value(key, Value::Num(k - 1));
                                    proof {
                                        if modeled {
                                                assert forall|fut: Seq<ValueV>|
                                                    spec_walk(
                                                        cores,
                                                        edgesg,
                                                        0,
                                                        vars0,
                                                        log0,
                                                        runner.results_log().skip(res0.len() as int) + fut,
                                                        fuel0,
                                                    ) == spec_walk(
                                                        cores,
                                                        edgesg,
                                                        next as int,
                                                        runner.vars(),
                                                        runner.echoes_log(),
                                                        fut,
                                                        fuel as nat,
                                                    ) by {
                                                    assert(spec_walk(cores, edgesg, 0, vars0, log0, pre_taken + fut, fuel0)
                                                        == spec_walk(cores, edgesg, at, pre_vars, pre_log, fut, pre_fuel));
                                                    assert(runner.results_log().skip(res0.len() as int) =~= pre_taken);
                                                }
                                        }
                                    }
                                    i = next;
                                }
                            },
                            Some(_) => {
                                proof {
                                    if modeled {
                                        assert(!(pre_vars[keyv] is Num));
                                        assert(spec_walk(
                                            cores,
                                            edgesg,
                                            0,
                                            vars0,
                                            log0,
                                            pre_taken + Seq::<ValueV>::empty(),
                                            fuel0,
                                        ) == spec_walk(
                                            cores,
                                            edgesg,
                                            at,
                                            pre_vars,
                                            pre_log,
                                            Seq::<ValueV>::empty(),
                                            pre_fuel,
                                        ));
                                        assert(pre_taken + Seq::<ValueV>::empty() =~= pre_taken);
                                        assert(runner.results_log().skip(res0.len() as int)
                                            =~= pre_taken);
                                    }
                                }
                                return Err(
                                    RunnerError::new(
                                        RunnerErrorKind::MismatchedType(
                                            "unexpected shape of a repeat counter".to_owned(),
                                        ),
                                        node.index,
                                    ),
                                );
                            },
                            None => {
                                proof {
                                    assert(pre_vars.remove(keyv) =~= pre_vars);
                                }
                                let count_text = runner.emit(expr.as_str());
                                match crate::strutil::parse_u64(count_text.as_str()) {
                                    None => {
                                        proof {
                                            if modeled {
                                                assert(spec_walk(
                                                    cores,
                                                    edgesg,
                                                    0,
                                                    vars0,
                                                    log0,
                                                    pre_taken + Seq::<ValueV>::empty(),
                                                    fuel0,
                                                ) == spec_walk(
                                                    cores,
                                                    edgesg,
                                                    at,
                                                    pre_vars,
                                                    pre_log,
                                                    Seq::<ValueV>::empty(),
                                                    pre_fuel,
                                                ));
                                                assert(pre_taken + Seq::<ValueV>::empty()
                                                    =~= pre_taken);
                                                assert(runner.results_log().skip(
                                                    res0.len() as int,
                                                ) =~= pre_taken);
                                            }
                                        }
                                        return Err(
                                            RunnerError::new(
                                                RunnerErrorKind::MismatchedType(
                                                    "expected an integer repeat count".to_owned(),
                                                ),
                                                node.index,
                                            ),
                                        );
                                    },
                                    Some(n) => {
                                        if n == 0 {
                                            proof {
                                                if modeled {
                                                    assert forall|fut: Seq<ValueV>|
                                                        spec_walk(
                                                            cores,
                                                            edgesg,
                                                            0,
                                                            vars0,
                                                            log0,
                                                            runner.results_log().skip(res0.len() as int) + fut,
                                                            fuel0,
                                                        ) == spec_walk(
                                                            cores,
                                                            edgesg,
                                                            end as int,
                                                            runner.vars(),
                                                            runner.echoes_log(),
                                                            fut,
                                                            fuel as nat,
                                                        ) by {
                                                        assert(spec_walk(cores, edgesg, 0, vars0, log0, pre_taken + fut, fuel0)
                                                            == spec_walk(cores, edgesg, at, pre_vars, pre_log, fut, pre_fuel));
                                                        assert(runner.results_log().skip(res0.len() as int) =~= pre_taken);
                                                    }
                                                }
                                            }
                                            i = end;
                                        } else {
                                            let left: i64 = if n - 1 <= i64::MAX as u64 {
                                                (n - 1) as i64
                                            } else {
                                                i64::MAX
                                            };
                                            runner.save_value(key, Value::Num(left));
                                            proof {
                                                if modeled {
                                                    assert forall|fut: Seq<ValueV>|
                                                        spec_walk(
                                                            cores,
                                                            edgesg,
                                                            0,
                                                            vars0,
                                                            log0,
                                                            runner.results_log().skip(res0.len() as int) + fut,
                                                            fuel0,
                                                        ) == spec_walk(
                                                            cores,
                                                            edgesg,
                                                            next as int,
                                                            runner.vars(),
                                                            runner.echoes_log(),
                                                            fut,
                                                            fuel as nat,
                                                        ) by {
                                                        assert(spec_walk(cores, edgesg, 0, vars0, log0, pre_taken + fut, fuel0)
                                                            == spec_walk(cores, edgesg, at, pre_vars, pre_log, fut, pre_fuel));
                                                        assert(runner.results_log().skip(res0.len() as int) =~= pre_taken);
                                                    }
                                                }
                                            }
                                            i = next;
                                        }
                                    },
                                }
                            },
                        }
                    },
                    _ => {
                        proof {
                            if modeled {
                                assert(spec_walk(
                                    cores,
                                    edgesg,
                                    0,
                                    vars0,
                                    log0,
                                    pre_taken + Seq::<ValueV>::empty(),
                                    fuel0,
                                ) == spec_walk(
                                    cores,
                                    edgesg,
                                    at,
                                    pre_vars,
                                    pre_log,
                                    Seq::<ValueV>::empty(),
                                    pre_fuel,
                                ));
                                assert(pre_taken + Seq::<ValueV>::empty() =~= pre_taken);
                                assert(runner.results_log().skip(res0.len() as int) =~= pre_taken);
                            }
                        }
                        return Err(
                            RunnerError::new(
                                RunnerErrorKind::MismatchedType(
                                    "only a condition or a loop may branch".to_owned(),
                                ),
                                node.index,
                            ),
                        );
                    },
                }
            },
        }
    }
    if i < nodes.len() {
        proof {
            if modeled {
                assert(spec_walk(
                    cores,
                    edgesg,
                    0,
                    vars0,
                    log0,
                    runner.results_log().skip(res0.len() as int) + Seq::<ValueV>::empty(),
                    fuel0,
                ) == spec_walk(
                    cores,
                    edgesg,
                    i as int,
                    runner.vars(),
                    runner.echoes_log(),
                    Seq::<ValueV>::empty(),
                    fuel as nat,
                ));
                assert(runner.results_log().skip(res0.len() as int) + Seq::<ValueV>::empty()
                    =~= runner.results_log().skip(res0.len() as int));
                assert(cores_of(nodes@)[i as int].index() == nodes@[i as int].index as int);
            }
        }
        return Err(
            RunnerError::new(
                RunnerErrorKind::Timeout("the run exceeded its step budget".to_owned()),
                nodes[i].index,
            ),
        );
    }
    proof {
        if modeled {
            assert(spec_walk(
                cores,
                edgesg,
                0,
                vars0,
                log0,
                runner.results_log().skip(res0.len() as int) + Seq::<ValueV>::empty(),
                fuel0,
            ) == spec_walk(
                cores,
                edgesg,
                i as int,
                runner.vars(),
                runner.echoes_log(),
                Seq::<ValueV>::empty(),
                fuel as nat,
            ));
            assert(runner.results_log().skip(res0.len() as int) + Seq::<ValueV>::empty()
                =~= runner.results_log().skip(res0.len() as int));
        }
    }
    Ok(())
}


/// The graph a command list compiles to, node cores first: the kept
/// commands with their pre-filter positions and levels.
pub open spec fn spec_build_cores(commands: Seq<Command>) -> Seq<NodeCore> {
    Seq::new(
        spec_kept_idx(commands, 0).len(),
        |k: int|
            NodeCore::Core {
                command: commands[spec_kept_idx(commands, 0)[k]].cmd,
                index: spec_kept_idx(commands, 0)[k],
                level: spec_levels(commands)[spec_kept_idx(commands, 0)[k]],
            },
    )
}

/// The graph's resolved edges.
pub open spec fn spec_build_edges(commands: Seq<Command>) -> Seq<Transition> {
    spec_transitions_from(spec_build_cores(commands), 0, Seq::empty())
}

/// Validate a command list, compile it, and walk it: the complete run of
/// one test's commands. A structural fault aborts before anything runs,
/// leaving the runner untouched, with the validator's position; on a
/// graph whose every command the walk models, the outcome, final store
/// and echo log are exactly the walk's over the recorded script answers.
pub fn run_commands<D: Webdriver>(
    runner: &mut Runner<D>,
    commands: Vec<Command>,
    file_url: &str,
) -> (r: Result<(), RunnerError>)
    ensures
        old(runner).echoes_log().is_prefix_of(final(runner).echoes_log()),
        old(runner).results_log().is_prefix_of(final(runner).results_log()),
        r matches Err(e) ==> e.test is None,
        !crate::validation::spec_valid(commands@) ==> (r matches Err(e) && {
            &&& e.kind is BranchValidationError
            &&& *final(runner) == *old(runner)
            &&& match crate::validation::spec_run(commands@, 0, Seq::empty()) {
                Ok(st) => e.index == commands@.len(),
                Err(ix) => e.index as int == ix,
            }
        }),
        (crate::validation::spec_valid(commands@) && spec_graph_modeled(
            spec_build_cores(commands@),
        )) ==> spec_walk_agrees(
            spec_build_cores(commands@),
            spec_build_edges(commands@),
            old(runner).vars(),
            old(runner).echoes_log(),
            final(runner).results_log().skip(old(runner).results_log().len() as int),
            final(runner).vars(),
            final(runner).echoes_log(),
            r,
        ),
{
    let ghost orig = commands@;
    match crate::validation::validate_conditions(&commands) {
        Ok(_) => {},
        Err(e) => {
            return Err(e);
        },
    }
    let nodes = build_nodes(commands);
    proof {
        lemma_transitions_from_len(cores_of(nodes@), 0, Seq::empty());
        assert(cores_of(nodes@) =~= spec_build_cores(orig)) by {
            assert forall|k: int| 0 <= k < nodes@.len() implies cores_of(nodes@)[k]
                == spec_build_cores(orig)[k] by {
                assert(cores_of(nodes@)[k] == (NodeCore::Core {
                    command: nodes@[k].command,
                    index: nodes@[k].index as int,
                    level: nodes@[k].level as nat,
                }));
            }
        }
        assert(edges_of(nodes@) =~= spec_transitions_from(cores_of(nodes@), 0, Seq::empty()));
        assert(spec_build_edges(orig) == edges_of(nodes@));
    }
    run_nodes(runner, &nodes, file_url)
}


/// The loop round-trip law, stated over the walk of the canonical loop
/// graph `[While, body, End]` with a one-command body: a condition that
/// answers true exactly `k` times and then false runs the body exactly
/// `k` times, in order, and then leaves the loop cleanly past its end.
/// The condition is answered `k + 1` times in all.
pub proof fn lemma_while_round_trip(
    w: Cmd,
    b: Cmd,
    e: Cmd,
    vars: Map<Seq<char>, ValueV>,
    log: Seq<Seq<char>>,
    k: nat,
    fuel: nat,
)
    requires
        w is While,
        b is Echo,
        e is End,
        fuel >= 3 * k + 1,
    ensures
        ({
            let cores = seq![
                NodeCore::Core { command: w, index: 0, level: 0 },
                NodeCore::Core { command: b, index: 1, level: 1 },
                NodeCore::Core { command: e, index: 2, level: 0 },
            ];
            let edges = seq![
                Transition::Conditional { next: 1, end: 3 },
                Transition::Next,
                Transition::Move(0),
            ];
            let answers = Seq::new(k, |j: int| ValueV::Bool(true)).push(
                ValueV::Bool(false),
            );
            spec_walk(cores, edges, 0, vars, log, answers, fuel) == (WalkOut::Done {
                vars,
                log: log + Seq::new(
                    k,
                    |j: int| crate::emit::spec_emit_plain(b->Echo_0@, vars),
                ),
            })
        }),
    decreases k,
{
    let cores = seq![
        NodeCore::Core { command: w, index: 0, level: 0 },
        NodeCore::Core { command: b, index: 1, level: 1 },
        NodeCore::Core { command: e, index: 2, level: 0 },
    ];
    let edges = seq![
        Transition::Conditional { next: 1, end: 3 },
        Transition::Next,
        Transition::Move(0),
    ];
    let answers = Seq::new(k, |j: int| ValueV::Bool(true)).push(ValueV::Bool(false));
    if k == 0 {
        assert(answers[0] == ValueV::Bool(false));
        assert(spec_walk(cores, edges, 0, vars, log, answers, fuel) == spec_walk(
            cores,
            edges,
            3,
            vars,
            log,
            answers.skip(1),
            (fuel - 1) as nat,
        ));
        assert(log + Seq::new(0nat, |j: int| crate::emit::spec_emit_plain(b->Echo_0@, vars)) =~= log);
    } else {
        let log1 = log.push(crate::emit::spec_emit_plain(b->Echo_0@, vars));
        let answers1 = Seq::new((k - 1) as nat, |j: int| ValueV::Bool(true)).push(
            ValueV::Bool(false),
        );
        assert(answers[0] == ValueV::Bool(true));
        assert(spec_walk(cores, edges, 0, vars, log, answers, fuel) == spec_walk(
            cores,
            edges,
            1,
            vars,
            log,
            answers.skip(1),
            (fuel - 1) as nat,
        ));
        assert(spec_atomic(b, vars, log) == (AtomicOut::Go { vars, log: log1 }));
        assert(spec_walk(cores, edges, 1, vars, log, answers.skip(1), (fuel - 1) as nat)
            == spec_walk_on(cores, edges, 1, 2, vars, log, answers.skip(1), (fuel - 1) as nat));
        assert(spec_walk_on(cores, edges, 1, 2, vars, log, answers.skip(1), (fuel - 1) as nat)
            == spec_walk(cores, edges, 2, vars, log1, answers.skip(1), (fuel - 2) as nat));
        assert(spec_atomic(e, vars, log1) == (AtomicOut::Go { vars, log: log1 }));
        assert(spec_walk(cores, edges, 2, vars, log1, answers.skip(1), (fuel - 2) as nat)
            == spec_walk_on(cores, edges, 2, 0, vars, log1, answers.skip(1), (fuel - 2) as nat));
        assert(spec_walk_on(cores, edges, 2, 0, vars, log1, answers.skip(1), (fuel - 2) as nat)
            == spec_walk(cores, edges, 0, vars, log1, answers.skip(1), (fuel - 3) as nat));
        assert(answers.skip(1) =~= answers1);
        lemma_while_round_trip(w, b, e, vars, log1, (k - 1) as nat, (fuel - 3) as nat);
        assert(log1 + Seq::new(
            (k - 1) as nat,
            |j: int| crate::emit::spec_emit_plain(b->Echo_0@, vars),
        ) =~= log + Seq::new(k, |j: int| crate::emit::spec_emit_plain(b->Echo_0@, vars)));
    }
}

/// The branch-exclusivity law, stated over the walk of the canonical
/// `[If, body, ElseIf, body, Else, body, End, after]` graph with
/// one-command branch bodies: for each way the conditions can answer,
/// exactly one branch body runs, conditions after the taken branch are
/// never asked, and the walk always rejoins at the command after the end.
pub proof fn lemma_if_chain_exclusive(
    if_: Cmd,
    e1: Cmd,
    elseif_: Cmd,
    e2: Cmd,
    else_: Cmd,
    e3: Cmd,
    end_: Cmd,
    after: Cmd,
    vars: Map<Seq<char>, ValueV>,
    log: Seq<Seq<char>>,
    c1: bool,
    c2: bool,
    fuel: nat,
)
    requires
        if_ is If,
        e1 is Echo,
        elseif_ is ElseIf,
        e2 is Echo,
        else_ is Else,
        e3 is Echo,
        end_ is End,
        after is Echo,
        fuel >= 8,
    ensures
        ({
            let cores = seq![
                NodeCore::Core { command: if_, index: 0, level: 0 },
                NodeCore::Core { command: e1, index: 1, level: 1 },
                NodeCore::Core { command: elseif_, index: 2, level: 0 },
                NodeCore::Core { command: e2, index: 3, level: 1 },
                NodeCore::Core { command: else_, index: 4, level: 0 },
                NodeCore::Core { command: e3, index: 5, level: 1 },
                NodeCore::Core { command: end_, index: 6, level: 0 },
                NodeCore::Core { command: after, index: 7, level: 0 },
            ];
            let edges = seq![
                Transition::Conditional { next: 1, end: 2 },
                Transition::Move(6),
                Transition::Conditional { next: 3, end: 4 },
                Transition::Move(6),
                Transition::Next,
                Transition::Next,
                Transition::Next,
                Transition::Next,
            ];
            let answers: Seq<ValueV> = if c1 {
                seq![ValueV::Bool(true)]
            } else {
                seq![ValueV::Bool(false), ValueV::Bool(c2)]
            };
            let taken: Cmd = if c1 {
                e1
            } else if c2 {
                e2
            } else {
                e3
            };
            spec_walk(cores, edges, 0, vars, log, answers, fuel) == (WalkOut::Done {
                vars,
                log: log.push(crate::emit::spec_emit_plain(taken->Echo_0@, vars)).push(
                    crate::emit::spec_emit_plain(after->Echo_0@, vars),
                ),
            })
        }),
{
    let cores = seq![
        NodeCore::Core { command: if_, index: 0, level: 0 },
        NodeCore::Core { command: e1, index: 1, level: 1 },
        NodeCore::Core { command: elseif_, index: 2, level: 0 },
        NodeCore::Core { command: e2, index: 3, level: 1 },
        NodeCore::Core { command: else_, index: 4, level: 0 },
        NodeCore::Core { command: e3, index: 5, level: 1 },
        NodeCore::Core { command: end_, index: 6, level: 0 },
        NodeCore::Core { command: after, index: 7, level: 0 },
    ];
    let edges = seq![
        Transition::Conditional { next: 1, end: 2 },
        Transition::Move(6),
        Transition::Conditional { next: 3, end: 4 },
        Transition::Move(6),
        Transition::Next,
        Transition::Next,
        Transition::Next,
        Transition::Next,
    ];
    let answers: Seq<ValueV> = if c1 {
        seq![ValueV::Bool(true)]
    } else {
        seq![ValueV::Bool(false), ValueV::Bool(c2)]
    };
    assert(answers[0] == ValueV::Bool(c1));
    let none: Seq<ValueV> = Seq::empty();
    let taken: Cmd = if c1 {
        e1
    } else if c2 {
        e2
    } else {
        e3
    };
    let log1 = log.push(crate::emit::spec_emit_plain(taken->Echo_0@, vars));
    let log2 = log1.push(crate::emit::spec_emit_plain(after->Echo_0@, vars));
    if c1 {
        assert(answers.skip(1) =~= none);
        assert(spec_walk(cores, edges, 0, vars, log, answers, fuel) == spec_walk(
            cores, edges, 1, vars, log, none, (fuel - 1) as nat,
        ));
        assert(spec_atomic(e1, vars, log) == (AtomicOut::Go { vars, log: log1 }));
        assert(spec_walk(cores, edges, 1, vars, log, none, (fuel - 1) as nat) == spec_walk_on(
            cores, edges, 1, 6, vars, log, none, (fuel - 1) as nat,
        ));
        assert(spec_walk_on(cores, edges, 1, 6, vars, log, none, (fuel - 1) as nat) == spec_walk(
            cores, edges, 6, vars, log1, none, (fuel - 2) as nat,
        ));
        lemma_end_after(cores, edges, end_, after, vars, log1, log2, none, (fuel - 2) as nat);
    } else {
        assert(answers.skip(1) =~= seq![ValueV::Bool(c2)]);
        assert(answers.skip(1)[0] == ValueV::Bool(c2));
        assert(answers.skip(1).skip(1) =~= none);
        assert(spec_walk(cores, edges, 0, vars, log, answers, fuel) == spec_walk(
            cores, edges, 2, vars, log, answers.skip(1), (fuel - 1) as nat,
        ));
        if c2 {
            assert(spec_walk(cores, edges, 2, vars, log, answers.skip(1), (fuel - 1) as nat)
                == spec_walk(cores, edges, 3, vars, log, none, (fuel - 2) as nat));
            assert(spec_atomic(e2, vars, log) == (AtomicOut::Go { vars, log: log1 }));
            assert(spec_walk(cores, edges, 3, vars, log, none, (fuel - 2) as nat) == spec_walk_on(
                cores, edges, 3, 6, vars, log, none, (fuel - 2) as nat,
            ));
            assert(spec_walk_on(cores, edges, 3, 6, vars, log, none, (fuel - 2) as nat)
                == spec_walk(cores, edges, 6, vars, log1, none, (fuel - 3) as nat));
            lemma_end_after(cores, edges, end_, after, vars, log1, log2, none, (fuel - 3) as nat);
        } else {
            assert(spec_walk(cores, edges, 2, vars, log, answers.skip(1), (fuel - 1) as nat)
                == spec_walk(cores, edges, 4, vars, log, none, (fuel - 2) as nat));
            assert(spec_atomic(else_, vars, log) == (AtomicOut::Go { vars, log }));
            assert(spec_walk(cores, edges, 4, vars, log, none, (fuel - 2) as nat) == spec_walk_on(
                cores, edges, 4, 5, vars, log, none, (fuel - 2) as nat,
            ));
            assert(spec_walk_on(cores, edges, 4, 5, vars, log, none, (fuel - 2) as nat)
                == spec_walk(cores, edges, 5, vars, log, none, (fuel - 3) as nat));
            assert(spec_atomic(e3, vars, log) == (AtomicOut::Go { vars, log: log1 }));
            assert(spec_walk(cores, edges, 5, vars, log, none, (fuel - 3) as nat) == spec_walk_on(
                cores, edges, 5, 6, vars, log, none, (fuel - 3) as nat,
            ));
            assert(spec_walk_on(cores, edges, 5, 6, vars, log, none, (fuel - 3) as nat)
                == spec_walk(cores, edges, 6, vars, log1, none, (fuel - 4) as nat));
            lemma_end_after(cores, edges, end_, after, vars, log1, log2, none, (fuel - 4) as nat);
        }
    }
}

/// After rejoining at the chain's end, the walk runs the end (pure
/// control), then the command after it, and finishes.
proof fn lemma_end_after(
    cores: Seq<NodeCore>,
    edges: Seq<Transition>,
    end_: Cmd,
    after: Cmd,
    vars: Map<Seq<char>, ValueV>,
    log1: Seq<Seq<char>>,
    log2: Seq<Seq<char>>,
    none: Seq<ValueV>,
    fuel: nat,
)
    requires
        cores.len() == 8,
        edges.len() == 8,
        cores[6] == (NodeCore::Core { command: end_, index: 6, level: 0 }),
        cores[7] == (NodeCore::Core { command: after, index: 7, level: 0 }),
        edges[6] == Transition::Next,
        edges[7] == Transition::Next,
        end_ is End,
        after is Echo,
        none == Seq::<ValueV>::empty(),
        log2 == log1.push(crate::emit::spec_emit_plain(after->Echo_0@, vars)),
        fuel >= 3,
    ensures
        spec_walk(cores, edges, 6, vars, log1, none, fuel) == (WalkOut::Done { vars, log: log2 }),
{
    assert(spec_atomic(end_, vars, log1) == (AtomicOut::Go { vars, log: log1 }));
    assert(spec_walk(cores, edges, 6, vars, log1, none, fuel) == spec_walk_on(
        cores, edges, 6, 7, vars, log1, none, fuel,
    ));
    assert(spec_walk_on(cores, edges, 6, 7, vars, log1, none, fuel) == spec_walk(
        cores, edges, 7, vars, log1, none, (fuel - 1) as nat,
    ));
    assert(spec_atomic(after, vars, log1) == (AtomicOut::Go { vars, log: log2 }));
    assert(spec_walk(cores, edges, 7, vars, log1, none, (fuel - 1) as nat) == spec_walk_on(
        cores, edges, 7, 8, vars, log1, none, (fuel - 1) as nat,
    ));
    assert(spec_walk_on(cores, edges, 7, 8, vars, log1, none, (fuel - 1) as nat) == spec_walk(
        cores, edges, 8, vars, log2, none, (fuel - 2) as nat,
    ));
}


/// The text of an echo command.
pub open spec fn spec_echo_text(c: Cmd) -> Seq<char> {
    match c {
        Cmd::Echo(m) => m@,
        _ => Seq::empty(),
    }
}

/// The iterator name of a forEach command.
pub open spec fn spec_fe_iter(c: Cmd) -> Seq<char> {
    match c {
        Cmd::ForEach { iterator, .. } => iterator@,
        _ => Seq::empty(),
    }
}

/// The loop variable of a forEach command.
pub open spec fn spec_fe_var(c: Cmd) -> Seq<char> {
    match c {
        Cmd::ForEach { var, .. } => var@,
        _ => Seq::empty(),
    }
}

/// Draining an existing cursor: each pass pops the cursor's head into the
/// loop variable and echoes it, in order; the exhausted cursor is
/// discarded and the walk leaves the loop cleanly.
proof fn lemma_for_each_drain(
    f: Cmd,
    b: Cmd,
    e: Cmd,
    v: Map<Seq<char>, ValueV>,
    log: Seq<Seq<char>>,
    rest: Seq<ValueV>,
    fuel: nat,
)
    requires
        f is ForEach,
        b is Echo,
        e is End,
        spec_echo_text(b) == seq!['$', '{'] + spec_fe_var(f) + seq!['}'],
        forall|i: int|
            0 <= i < spec_fe_var(f).len() ==> spec_fe_var(f)[i] != '}' && spec_fe_var(f)[i]
                != '\n',
        spec_iter_key(spec_fe_iter(f), spec_fe_var(f)) != spec_fe_var(f),
        v.contains_key(spec_iter_key(spec_fe_iter(f), spec_fe_var(f))),
        v[spec_iter_key(spec_fe_iter(f), spec_fe_var(f))] == ValueV::Arr(rest),
        fuel >= 3 * rest.len() + 1,
    ensures
        ({
            let key = spec_iter_key(spec_fe_iter(f), spec_fe_var(f));
            let cores = seq![
                NodeCore::Core { command: f, index: 0, level: 0 },
                NodeCore::Core { command: b, index: 1, level: 1 },
                NodeCore::Core { command: e, index: 2, level: 0 },
            ];
            let edges = seq![
                Transition::Conditional { next: 1, end: 3 },
                Transition::Next,
                Transition::Move(0),
            ];
            spec_walk(cores, edges, 0, v, log, Seq::empty(), fuel) == (WalkOut::Done {
                vars: if rest.len() == 0 {
                    v.remove(key)
                } else {
                    v.remove(key).insert(spec_fe_var(f), rest.last())
                },
                log: log + Seq::new(rest.len(), |j: int| crate::value::spec_plain(rest[j])),
            })
        }),
    decreases rest.len(),
{
    let key = spec_iter_key(spec_fe_iter(f), spec_fe_var(f));
    let varname = spec_fe_var(f);
    let cores = seq![
        NodeCore::Core { command: f, index: 0, level: 0 },
        NodeCore::Core { command: b, index: 1, level: 1 },
        NodeCore::Core { command: e, index: 2, level: 0 },
    ];
    let edges = seq![
        Transition::Conditional { next: 1, end: 3 },
        Transition::Next,
        Transition::Move(0),
    ];
    let none: Seq<ValueV> = Seq::empty();
    if rest.len() == 0 {
        assert(spec_walk(cores, edges, 0, v, log, none, fuel) == spec_walk(
            cores, edges, 3, v.remove(key), log, none, (fuel - 1) as nat,
        ));
        assert(log + Seq::new(0nat, |j: int| crate::value::spec_plain(rest[j])) =~= log);
    } else {
        let v1 = v.remove(key).insert(varname, rest[0]).insert(key, ValueV::Arr(rest.skip(1)));
        assert(spec_walk(cores, edges, 0, v, log, none, fuel) == spec_walk(
            cores, edges, 1, v1, log, none, (fuel - 1) as nat,
        ));
        assert(v1.contains_key(varname) && v1[varname] == rest[0]);
        crate::emit::lemma_bound_var_token(varname, v1);
        let log1 = log.push(crate::value::spec_plain(rest[0]));
        assert(spec_atomic(b, v1, log) == (AtomicOut::Go { vars: v1, log: log1 }));
        assert(spec_walk(cores, edges, 1, v1, log, none, (fuel - 1) as nat) == spec_walk_on(
            cores, edges, 1, 2, v1, log, none, (fuel - 1) as nat,
        ));
        assert(spec_walk_on(cores, edges, 1, 2, v1, log, none, (fuel - 1) as nat) == spec_walk(
            cores, edges, 2, v1, log1, none, (fuel - 2) as nat,
        ));
        assert(spec_atomic(e, v1, log1) == (AtomicOut::Go { vars: v1, log: log1 }));
        assert(spec_walk(cores, edges, 2, v1, log1, none, (fuel - 2) as nat) == spec_walk_on(
            cores, edges, 2, 0, v1, log1, none, (fuel - 2) as nat,
        ));
        assert(spec_walk_on(cores, edges, 2, 0, v1, log1, none, (fuel - 2) as nat) == spec_walk(
            cores, edges, 0, v1, log1, none, (fuel - 3) as nat,
        ));
        assert(v1.contains_key(key) && v1[key] == ValueV::Arr(rest.skip(1)));
        lemma_for_each_drain(f, b, e, v1, log1, rest.skip(1), (fuel - 3) as nat);
        if rest.len() == 1 {
            assert(rest.skip(1).len() == 0);
            assert(v1.remove(key) =~= v.remove(key).insert(varname, rest[0]));
            assert(rest.last() == rest[0]);
        } else {
            assert(rest.skip(1).last() == rest.last());
            assert(v1.remove(key).insert(varname, rest.skip(1).last()) =~= v.remove(key).insert(
                varname,
                rest.last(),
            ));
        }
        assert(log1 + Seq::new(
            rest.skip(1).len(),
            |j: int| crate::value::spec_plain(rest.skip(1)[j]),
        ) =~= log + Seq::new(rest.len(), |j: int| crate::value::spec_plain(rest[j])));
    }
}

/// The forEach exhaustion law, over the walk of the canonical loop graph
/// `[ForEach, Echo of the loop variable, End]`: with the iterator bound
/// to an array and no cursor in the way, the body runs once per element,
/// echoing each element's plain rendering in order, and the walk then
/// leaves the loop cleanly with the cursor gone.
pub proof fn lemma_for_each_exhausts(
    f: Cmd,
    b: Cmd,
    e: Cmd,
    vars: Map<Seq<char>, ValueV>,
    log: Seq<Seq<char>>,
    items: Seq<ValueV>,
    fuel: nat,
)
    requires
        f is ForEach,
        b is Echo,
        e is End,
        spec_echo_text(b) == seq!['$', '{'] + spec_fe_var(f) + seq!['}'],
        forall|i: int|
            0 <= i < spec_fe_var(f).len() ==> spec_fe_var(f)[i] != '}' && spec_fe_var(f)[i]
                != '\n',
        spec_iter_key(spec_fe_iter(f), spec_fe_var(f)) != spec_fe_var(f),
        vars.contains_key(spec_fe_iter(f)),
        vars[spec_fe_iter(f)] == ValueV::Arr(items),
        !vars.contains_key(spec_iter_key(spec_fe_iter(f), spec_fe_var(f))),
        fuel >= 3 * items.len() + 1,
    ensures
        ({
            let cores = seq![
                NodeCore::Core { command: f, index: 0, level: 0 },
                NodeCore::Core { command: b, index: 1, level: 1 },
                NodeCore::Core { command: e, index: 2, level: 0 },
            ];
            let edges = seq![
                Transition::Conditional { next: 1, end: 3 },
                Transition::Next,
                Transition::Move(0),
            ];
            spec_walk(cores, edges, 0, vars, log, Seq::empty(), fuel) == (WalkOut::Done {
                vars: if items.len() == 0 {
                    vars
                } else {
                    vars.insert(spec_fe_var(f), items.last())
                },
                log: log + Seq::new(items.len(), |j: int| crate::value::spec_plain(items[j])),
            })
        }),
{
    let key = spec_iter_key(spec_fe_iter(f), spec_fe_var(f));
    let varname = spec_fe_var(f);
    let cores = seq![
        NodeCore::Core { command: f, index: 0, level: 0 },
        NodeCore::Core { command: b, index: 1, level: 1 },
        NodeCore::Core { command: e, index: 2, level: 0 },
    ];
    let edges = seq![
        Transition::Conditional { next: 1, end: 3 },
        Transition::Next,
        Transition::Move(0),
    ];
    let none: Seq<ValueV> = Seq::empty();
    if items.len() == 0 {
        assert(spec_walk(cores, edges, 0, vars, log, none, fuel) == spec_walk(
            cores, edges, 3, vars, log, none, (fuel - 1) as nat,
        ));
        assert(log + Seq::new(0nat, |j: int| crate::value::spec_plain(items[j])) =~= log);
    } else {
        let v1 = vars.insert(varname, items[0]).insert(key, ValueV::Arr(items.skip(1)));
        assert(spec_walk(cores, edges, 0, vars, log, none, fuel) == spec_walk(
            cores, edges, 1, v1, log, none, (fuel - 1) as nat,
        ));
        assert(v1.contains_key(varname) && v1[varname] == items[0]);
        crate::emit::lemma_bound_var_token(varname, v1);
        let log1 = log.push(crate::value::spec_plain(items[0]));
        assert(spec_atomic(b, v1, log) == (AtomicOut::Go { vars: v1, log: log1 }));
        assert(spec_walk(cores, edges, 1, v1, log, none, (fuel - 1) as nat) == spec_walk_on(
            cores, edges, 1, 2, v1, log, none, (fuel - 1) as nat,
        ));
        assert(spec_walk_on(cores, edges, 1, 2, v1, log, none, (fuel - 1) as nat) == spec_walk(
            cores, edges, 2, v1, log1, none, (fuel - 2) as nat,
        ));
        assert(spec_atomic(e, v1, log1) == (AtomicOut::Go { vars: v1, log: log1 }));
        assert(spec_walk(cores, edges, 2, v1, log1, none, (fuel - 2) as nat) == spec_walk_on(
            cores, edges, 2, 0, v1, log1, none, (fuel - 2) as nat,
        ));
        assert(spec_walk_on(cores, edges, 2, 0, v1, log1, none, (fuel - 2) as nat) == spec_walk(
            cores, edges, 0, v1, log1, none, (fuel - 3) as nat,
        ));
        assert(v1.contains_key(key) && v1[key] == ValueV::Arr(items.skip(1)));
        lemma_for_each_drain(f, b, e, v1, log1, items.skip(1), (fuel - 3) as nat);
        if items.len() == 1 {
            assert(v1.remove(key) =~= vars.insert(varname, items[0]));
            assert(items.last() == items[0]);
        } else {
            assert(items.skip(1).last() == items.last());
            assert(v1.remove(key).insert(varname, items.skip(1).last()) =~= vars.insert(
                varname,
                items.last(),
            ));
        }
        assert(log1 + Seq::new(
            items.skip(1).len(),
            |j: int| crate::value::spec_plain(items.skip(1)[j]),
        ) =~= log + Seq::new(items.len(), |j: int| crate::value::spec_plain(items[j])));
    }
}

/// A test's name attached to a failure.
fn attach_test(e: RunnerError, name: String) -> (r: RunnerError)
    ensures
        r.kind == e.kind,
        r.index == e.index,
        r.test matches Some(n) && n@ == name@,
{
    RunnerError { kind: e.kind, index: e.index, test: Some(name) }
}

/// The runner of one test against one driver.
pub struct Playground;

impl Playground {
    /// Validate one test's structure, compile its flow graph, and walk it.
    /// A structural fault aborts before anything runs; every failure
    /// carries the test's name.
    pub fn run_test<D: Webdriver>(runner: &mut Runner<D>, file: &File, test_index: usize) -> (r:
        Result<(), RunnerError>)
        requires
            test_index < file.tests@.len(),
        ensures
            old(runner).echoes_log().is_prefix_of(final(runner).echoes_log()),
            old(runner).results_log().is_prefix_of(final(runner).results_log()),
            r matches Err(e) ==> (e.test matches Some(n) && n@
                == file.tests@[test_index as int].name@),
            !crate::validation::spec_valid(file.tests@[test_index as int].commands@) ==> (r
                matches Err(e) && e.kind is BranchValidationError),
    {
        let test = &file.tests[test_index];
        match crate::validation::validate_conditions(&test.commands) {
            Ok(_) => {},
            Err(e) => {
                return Err(attach_test(e, test.name.clone()));
            },
        }
        match run_commands(runner, test.commands.clone(), file.url.as_str()) {
            Ok(_) => Ok(()),
            Err(e) => Err(attach_test(e, test.name.clone())),
        }
    }
}

} // verus!
