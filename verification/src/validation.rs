use vstd::prelude::*;

use crate::error::{RunnerError, RunnerErrorKind};
use crate::parser::{Cmd, Command};

verus! {

/// An open block on the validator's stack.
#[derive(Debug, Clone, Copy, PartialEq, Eq)]
pub enum State {
    While,
    If,
    ElseIf,
    Else,
    Do,
    ForEach,
    Times,
}

/// What one command does to the stack of open blocks, or nothing if it is
/// used in the wrong place.
pub open spec fn spec_step(cmd: Cmd, st: Seq<State>) -> Option<Seq<State>> {
    match cmd {
        Cmd::While(_) => Some(st.push(State::While)),
        Cmd::If(_) => Some(st.push(State::If)),
        Cmd::ElseIf(_) => if st.len() > 0 && (st.last() is If || st.last() is ElseIf) {
            Some(st.push(State::ElseIf))
        } else {
            None
        },
        Cmd::Else => if st.len() > 0 && (st.last() is If || st.last() is ElseIf) {
            Some(st.push(State::Else))
        } else {
            None
        },
        Cmd::End => spec_end(st),
        Cmd::Do => Some(st.push(State::Do)),
        Cmd::RepeatIf(_) => if st.len() > 0 && st.last() is Do {
            Some(st.drop_last())
        } else {
            None
        },
        Cmd::ForEach { .. } => Some(st.push(State::ForEach)),
        Cmd::Times(_) => Some(st.push(State::Times)),
        _ => Some(st),
    }
}

/// What `End` does: close the top block; branch markers above it are
/// closed with it.
pub open spec fn spec_end(st: Seq<State>) -> Option<Seq<State>>
    decreases st,
{
    if st.len() == 0 {
        None
    } else if st.last() is While || st.last() is If || st.last() is ForEach || st.last() is Times {
        Some(st.drop_last())
    } else if st.last() is ElseIf || st.last() is Else {
        spec_end(st.drop_last())
    } else {
        None
    }
}

/// The validator's run over the commands from position `i` with the given
/// stack: the final stack, or the position of the first misused command.
pub open spec fn spec_run(commands: Seq<Command>, i: int, st: Seq<State>) -> Result<
    Seq<State>,
    int,
>
    decreases commands.len() - i when 0 <= i
{
    if i >= commands.len() {
        Ok(st)
    } else {
        match spec_step(commands[i].cmd, st) {
            Some(st2) => spec_run(commands, i + 1, st2),
            None => Err(i),
        }
    }
}

/// The whole command list is structurally sound: the validator's run ends
/// cleanly with no block left open.
pub open spec fn spec_valid(commands: Seq<Command>) -> bool {
    spec_run(commands, 0, Seq::empty()) matches Ok(st) && st.len() == 0
}

fn validate_end(state: &mut Vec<State>) -> (r: Result<(), RunnerErrorKind>)
    ensures
        match spec_end(old(state)@) {
            Some(st2) => r is Ok && final(state)@ == st2,
            None => r matches Err(RunnerErrorKind::BranchValidationError(_)),
        },
    decreases old(state)@.len(),
{
    if state.len() > 0 {
        let top = state[state.len() - 1];
        match top {
            State::While | State::If | State::ForEach | State::Times => {
                let _ = state.pop();
                return Ok(());
            },
            State::ElseIf | State::Else => {
                let _ = state.pop();
                return validate_end(state);
            },
            State::Do => {},
        }
    }
    Err(RunnerErrorKind::BranchValidationError("end used in wrong way".to_owned()))
}

fn validate_else(state: &mut Vec<State>) -> (r: Result<(), RunnerErrorKind>)
    ensures
        final(state)@ == old(state)@,
        r is Ok <==> (old(state)@.len() > 0 && (old(state)@.last() is If || old(
            state,
        )@.last() is ElseIf)),
        r is Err ==> r matches Err(RunnerErrorKind::BranchValidationError(_)),
{
    if state.len() > 0 {
        let top = state[state.len() - 1];
        match top {
            State::If | State::ElseIf => {
                return Ok(());
            },
            State::Else => {
                return Err(
                    RunnerErrorKind::BranchValidationError("too many else operations".to_owned()),
                );
            },
            _ => {},
        }
    }
    Err(RunnerErrorKind::BranchValidationError("else used out of if scope".to_owned()))
}

fn validate_else_if(state: &mut Vec<State>) -> (r: Result<(), RunnerErrorKind>)
    ensures
        final(state)@ == old(state)@,
        r is Ok <==> (old(state)@.len() > 0 && (old(state)@.last() is If || old(
            state,
        )@.last() is ElseIf)),
        r is Err ==> r matches Err(RunnerErrorKind::BranchValidationError(_)),
{
    if state.len() > 0 {
        let top = state[state.len() - 1];
        match top {
            State::If | State::ElseIf => {
                return Ok(());
            },
            State::Else => {
                return Err(
                    RunnerErrorKind::BranchValidationError("usage of elseif after else".to_owned()),
                );
            },
            _ => {},
        }
    }
    Err(RunnerErrorKind::BranchValidationError("else if used outside the if scope".to_owned()))
}

fn validate_do(state: &mut Vec<State>) -> (r: Result<(), RunnerErrorKind>)
    ensures
        r is Ok <==> (old(state)@.len() > 0 && old(state)@.last() is Do),
        r is Ok ==> final(state)@ == old(state)@.drop_last(),
        r is Err ==> (r matches Err(RunnerErrorKind::BranchValidationError(_)) && final(state)@
            == old(state)@),
{
    if state.len() > 0 {
        let top = state[state.len() - 1];
        if matches!(top, State::Do) {
            let _ = state.pop();
            return Ok(());
        }
    }
    Err(RunnerErrorKind::BranchValidationError("repeatIf used outside the if scope".to_owned()))
}

/// Apply one command to the stack of open blocks.
fn validate(cmd: &Cmd, state: &mut Vec<State>) -> (r: Result<(), RunnerErrorKind>)
    ensures
        match spec_step(*cmd, old(state)@) {
            Some(st2) => r is Ok && final(state)@ == st2,
            None => r matches Err(RunnerErrorKind::BranchValidationError(_)),
        },
{
    match cmd {
        Cmd::While(..) => {
            state.push(State::While);
            Ok(())
        },
        Cmd::If(..) => {
            state.push(State::If);
            Ok(())
        },
        Cmd::ElseIf(..) => {
            let r = validate_else_if(state);
            if r.is_ok() {
                state.push(State::ElseIf);
            }
            r
        },
        Cmd::Else => {
            let r = validate_else(state);
            if r.is_ok() {
                state.push(State::Else);
            }
            r
        },
        Cmd::End => validate_end(state),
        Cmd::Do => {
            state.push(State::Do);
            Ok(())
        },
        Cmd::RepeatIf(..) => validate_do(state),
        Cmd::ForEach { .. } => {
            state.push(State::ForEach);
            Ok(())
        },
        Cmd::Times(..) => {
            state.push(State::Times);
            Ok(())
        },
        _ => Ok(()),
    }
}

/// Check that every control-flow block of the command list is opened and
/// closed correctly; report the first misused command's position, or the
/// list's length if a block stays open.
pub fn validate_conditions(commands: &Vec<Command>) -> (r: Result<(), RunnerError>)
    ensures
        spec_valid(commands@) <==> r is Ok,
        match r {
            Ok(_) => true,
            Err(e) => {
                &&& e.kind is BranchValidationError
                &&& e.test is None
                &&& match spec_run(commands@, 0, Seq::empty()) {
                    Ok(st) => st.len() > 0 && e.index == commands@.len(),
                    Err(i) => e.index == i,
                }
            },
        },
{
    let mut state: Vec<State> = Vec::new();
    let mut index: usize = 0;
    while index < commands.len()
        invariant
            index <= commands@.len(),
            spec_run(commands@, 0, Seq::empty()) == spec_run(commands@, index as int, state@),
        decreases commands@.len() - index,
    {
        match validate(&commands[index].cmd, &mut state) {
            Ok(_) => {},
            Err(e) => {
                return Err(RunnerError::new(e, index));
            },
        }
        index += 1;
    }
    if state.len() > 0 {
        Err(
            RunnerError::new(
                RunnerErrorKind::BranchValidationError("incomplete block".to_owned()),
                commands.len(),
            ),
        )
    } else {
        Ok(())
    }
}


/// A command that opens, continues or closes a block.
pub open spec fn spec_is_flow(c: Cmd) -> bool {
    c is While || c is If || c is ElseIf || c is Else || c is Do || c is RepeatIf
        || c is ForEach || c is Times || c is End
}

/// A balanced command list: a sequence of complete blocks and plain
/// commands.
pub open spec fn spec_balanced(s: Seq<Command>) -> bool
    decreases s.len(), 1int,
{
    s.len() == 0 || (exists|k: int|
        1 <= k <= s.len() && spec_unit(#[trigger] s.take(k)) && spec_balanced(s.skip(k)))
}

/// One complete block, or one plain command: a loop or branch opener with
/// its matching closer and a balanced body.
pub open spec fn spec_unit(u: Seq<Command>) -> bool
    decreases u.len(), 0int,
{
    ||| (u.len() == 1 && !spec_is_flow(u[0].cmd))
    ||| (u.len() >= 2 && (u[0].cmd is While || u[0].cmd is ForEach || u[0].cmd is Times)
        && u.last().cmd is End && spec_balanced(u.subrange(1, u.len() - 1)))
    ||| (u.len() >= 2 && u[0].cmd is Do && u.last().cmd is RepeatIf && spec_balanced(
        u.subrange(1, u.len() - 1),
    ))
    ||| (u.len() >= 2 && u[0].cmd is If && u.last().cmd is End && spec_if_tail(
        u.subrange(1, u.len() - 1),
    ))
}

/// What stands between an `If` and its `End`: a balanced branch body,
/// then possibly further branches, each introduced by `ElseIf`, or one
/// final `Else`.
pub open spec fn spec_if_tail(t: Seq<Command>) -> bool
    decreases t.len(), 2int,
{
    exists|k: int|
        0 <= k <= t.len() && spec_balanced(#[trigger] t.take(k)) && (k == t.len() || (t[k].cmd
            is ElseIf && spec_if_tail(t.skip(k + 1))) || (t[k].cmd is Else && spec_balanced(
            t.skip(k + 1),
        )))
}

/// Running from a later position equals running the remaining commands
/// alone, with failure positions shifted.
proof fn lemma_run_off(s: Seq<Command>, i: int, st: Seq<State>)
    requires
        0 <= i <= s.len(),
    ensures
        spec_run(s, i, st) == match spec_run(s.skip(i), 0, st) {
            Ok(st2) => Ok::<Seq<State>, int>(st2),
            Err(e) => Err::<Seq<State>, int>(e + i),
        },
    decreases s.len() - i,
{
    if i >= s.len() {
        assert(s.skip(i).len() == 0);
    } else {
        assert(s.skip(i)[0] == s[i]);
        match spec_step(s[i].cmd, st) {
            Some(st2) => {
                lemma_run_off(s, i + 1, st2);
                lemma_run_off(s.skip(i), 1, st2);
                assert(s.skip(i).skip(1) =~= s.skip(i + 1));
            },
            None => {},
        }
    }
}

/// Clean runs over two segments compose into a clean run over both.
proof fn lemma_run_concat_ok(
    a: Seq<Command>,
    b: Seq<Command>,
    st: Seq<State>,
    st1: Seq<State>,
    st2: Seq<State>,
)
    requires
        spec_run(a, 0, st) == Ok::<Seq<State>, int>(st1),
        spec_run(b, 0, st1) == Ok::<Seq<State>, int>(st2),
    ensures
        spec_run(a + b, 0, st) == Ok::<Seq<State>, int>(st2),
    decreases a.len(),
{
    if a.len() == 0 {
        assert(a + b =~= b);
    } else {
        assert((a + b)[0] == a[0]);
        match spec_step(a[0].cmd, st) {
            Some(stm) => {
                lemma_run_off(a, 1, stm);
                lemma_run_off(a + b, 1, stm);
                assert(a.skip(1) + b =~= (a + b).skip(1));
                lemma_run_concat_ok(a.skip(1), b, stm, st1, st2);
            },
            None => {
                assert(false);
            },
        }
    }
}

/// A single command that steps cleanly runs cleanly.
proof fn lemma_run_single(c: Command, st: Seq<State>, st1: Seq<State>)
    requires
        spec_step(c.cmd, st) == Some(st1),
    ensures
        spec_run(seq![c], 0, st) == Ok::<Seq<State>, int>(st1),
{
    assert(seq![c][0] == c);
    assert(seq![c].len() == 1);
    assert(spec_run(seq![c], 1, st1) == Ok::<Seq<State>, int>(st1));
}

/// Closing a chain of branch markers over their `If` pops them all.
proof fn lemma_end_pops(st: Seq<State>, extra: Seq<State>)
    requires
        extra.len() >= 1,
        extra[0] is If,
        forall|j: int| 1 <= j < extra.len() ==> extra[j] is ElseIf || extra[j] is Else,
    ensures
        spec_end(st + extra) == Some(st),
    decreases extra.len(),
{
    let whole = st + extra;
    assert(whole.len() > 0);
    assert(whole.last() == extra.last());
    if extra.len() == 1 {
        assert(whole.drop_last() =~= st);
    } else {
        assert(whole.drop_last() =~= st + extra.drop_last());
        lemma_end_pops(st, extra.drop_last());
    }
}

/// A balanced list runs through the validator without touching what is
/// already on the stack.
proof fn lemma_balanced_runs(s: Seq<Command>, st: Seq<State>)
    requires
        spec_balanced(s),
    ensures
        spec_run(s, 0, st) == Ok::<Seq<State>, int>(st),
    decreases s.len(), 3int,
{
    if s.len() > 0 {
        let k = choose|k: int|
            1 <= k <= s.len() && spec_unit(#[trigger] s.take(k)) && spec_balanced(s.skip(k));
        lemma_unit_runs(s.take(k), st);
        lemma_balanced_runs(s.skip(k), st);
        lemma_run_concat_ok(s.take(k), s.skip(k), st, st, st);
        assert(s.take(k) + s.skip(k) =~= s);
    }
}

/// One complete block runs through the validator and leaves the stack as
/// it was.
proof fn lemma_unit_runs(u: Seq<Command>, st: Seq<State>)
    requires
        spec_unit(u),
    ensures
        spec_run(u, 0, st) == Ok::<Seq<State>, int>(st),
    decreases u.len(), 2int,
{
    if u.len() == 1 && !spec_is_flow(u[0].cmd) {
        assert(spec_step(u[0].cmd, st) == Some(st));
        assert(spec_run(u, 1, st) == Ok::<Seq<State>, int>(st));
    } else if u.len() >= 2 && (u[0].cmd is While || u[0].cmd is ForEach || u[0].cmd is Times)
        && u.last().cmd is End {
        let marker = if u[0].cmd is While {
            State::While
        } else if u[0].cmd is ForEach {
            State::ForEach
        } else {
            State::Times
        };
        let st1 = st.push(marker);
        assert(st1.drop_last() =~= st);
        assert(spec_step(u[0].cmd, st) == Some(st1));
        assert(spec_step(u.last().cmd, st1) == Some(st));
        lemma_open_body_end(u, st, st1);
    } else if u.len() >= 2 && u[0].cmd is Do && u.last().cmd is RepeatIf {
        let st1 = st.push(State::Do);
        assert(st1.drop_last() =~= st);
        assert(spec_step(u[0].cmd, st) == Some(st1));
        assert(spec_step(u.last().cmd, st1) == Some(st));
        lemma_open_body_end(u, st, st1);
    } else {
        let t = u.subrange(1, u.len() - 1);
        let st1 = st.push(State::If);
        assert(spec_step(u[0].cmd, st) == Some(st1));
        assert(st + seq![State::If] =~= st1);
        lemma_if_tail_runs(t, u.last(), st, seq![State::If]);
        assert(t.push(u.last()) =~= u.skip(1));
        lemma_run_off(u, 1, st1);
    }
}

/// After a block opener, a balanced body and the matching closer bring
/// the stack back.
proof fn lemma_open_body_end(u: Seq<Command>, st: Seq<State>, st1: Seq<State>)
    requires
        u.len() >= 2,
        spec_balanced(u.subrange(1, u.len() - 1)),
        spec_step(u[0].cmd, st) == Some(st1),
        spec_step(u.last().cmd, st1) == Some(st),
    ensures
        spec_run(u, 0, st) == Ok::<Seq<State>, int>(st),
    decreases u.len(), 1int,
{
    let body = u.subrange(1, u.len() - 1);
    lemma_balanced_runs(body, st1);
    lemma_run_single(u.last(), st1, st);
    lemma_run_concat_ok(body, seq![u.last()], st1, st1, st);
    assert(body + seq![u.last()] =~= u.skip(1));
    lemma_run_off(u, 1, st1);
}

/// The branches after an `If`, closed by its `End`, bring the stack back
/// below the branch markers.
proof fn lemma_if_tail_runs(t: Seq<Command>, endc: Command, st: Seq<State>, extra: Seq<State>)
    requires
        spec_if_tail(t),
        endc.cmd is End,
        extra.len() >= 1,
        extra[0] is If,
        forall|j: int| 1 <= j < extra.len() ==> extra[j] is ElseIf,
    ensures
        spec_run(t.push(endc), 0, st + extra) == Ok::<Seq<State>, int>(st),
    decreases t.len(), 4int,
{
    let whole = st + extra;
    let k = choose|k: int|
        0 <= k <= t.len() && spec_balanced(#[trigger] t.take(k)) && (k == t.len() || (t[k].cmd
            is ElseIf && spec_if_tail(t.skip(k + 1))) || (t[k].cmd is Else && spec_balanced(
            t.skip(k + 1),
        )));
    lemma_balanced_runs(t.take(k), whole);
    if k == t.len() {
        lemma_end_pops(st, extra);
        assert(spec_step(endc.cmd, whole) == Some(st));
        lemma_run_single(endc, whole, st);
        lemma_run_concat_ok(t.take(k), seq![endc], whole, whole, st);
        assert(t.take(k) + seq![endc] =~= t.push(endc));
    } else if t[k].cmd is ElseIf {
        assert(whole.last() == extra.last());
        let st2 = whole.push(State::ElseIf);
        assert(spec_step(t[k].cmd, whole) == Some(st2));
        let extra2 = extra.push(State::ElseIf);
        assert(st + extra2 =~= st2);
        lemma_if_tail_runs(t.skip(k + 1), endc, st, extra2);
        let rest = seq![t[k]] + t.skip(k + 1).push(endc);
        assert(spec_run(rest, 0, whole) == Ok::<Seq<State>, int>(st)) by {
            assert(rest[0] == t[k]);
            lemma_run_off(rest, 1, st2);
            assert(rest.skip(1) =~= t.skip(k + 1).push(endc));
        }
        lemma_run_concat_ok(t.take(k), rest, whole, whole, st);
        assert(t.take(k) + rest =~= t.push(endc));
    } else {
        assert(whole.last() == extra.last());
        let st2 = whole.push(State::Else);
        assert(spec_step(t[k].cmd, whole) == Some(st2));
        lemma_balanced_runs(t.skip(k + 1), st2);
        let extra2 = extra.push(State::Else);
        assert(st + extra2 =~= st2);
        lemma_end_pops(st, extra2);
        assert(spec_step(endc.cmd, st2) == Some(st));
        lemma_run_single(endc, st2, st);
        lemma_run_concat_ok(t.skip(k + 1), seq![endc], st2, st2, st);
        assert(t.skip(k + 1) + seq![endc] =~= t.skip(k + 1).push(endc));
        let rest = seq![t[k]] + t.skip(k + 1).push(endc);
        assert(spec_run(rest, 0, whole) == Ok::<Seq<State>, int>(st)) by {
            assert(rest[0] == t[k]);
            lemma_run_off(rest, 1, st2);
            assert(rest.skip(1) =~= t.skip(k + 1).push(endc));
        }
        lemma_run_concat_ok(t.take(k), rest, whole, whole, st);
        assert(t.take(k) + rest =~= t.push(endc));
    }
}

/// Every balanced command list passes the structural validator.
pub proof fn lemma_balanced_validates(commands: Seq<Command>)
    requires
        spec_balanced(commands),
    ensures
        spec_valid(commands),
{
    lemma_balanced_runs(commands, Seq::empty());
}

} // verus!
