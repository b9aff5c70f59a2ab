//! The engine's laws: proofs that relate the operations to one another.
//!
//! The contracts in [`crate`] pin each operation's state change to one of
//! the transition functions `spec_undo`, `spec_redo`, `spec_advanced`,
//! `spec_deleted` and `spec_move_committed`. The proofs here state what
//! those transitions guarantee in combination: undoing a run of actions
//! restores the session, the empty-history operations change nothing, a
//! move round-trips through undo and redo, and every fresh action
//! invalidates the previously-undone future.

use vstd::prelude::*;

use crate::control_flow::CommandModel;
use crate::{
    spec_advanced, spec_at_end, spec_deleted, spec_move_committed, spec_redo, spec_undo,
    EngineModel,
};

verus! {

/// One successful cursor-advancing action, as a sequence of them is given
/// to [`lemma_undo_reverses_actions`]: a skip, or a move with the
/// destination path it committed.
pub enum ActionModel {
    Skip,
    Move { dest: Seq<char> },
}

/// The command that the engine records for `a` performed in state `m`.
pub open spec fn action_command(m: EngineModel, a: ActionModel) -> CommandModel {
    match a {
        ActionModel::Skip => CommandModel::Skip,
        ActionModel::Move { dest } => CommandModel::Move {
            current: m.files[m.cursor],
            previous: dest,
        },
    }
}

/// The state after `a` performed in state `m`, provided the action advanced
/// the cursor cleanly (it was not at the last file).
pub open spec fn spec_action(m: EngineModel, a: ActionModel) -> EngineModel {
    spec_advanced(m, action_command(m, a))
}

/// The state after the actions of `actions`, performed in order.
pub open spec fn apply_actions(m: EngineModel, actions: Seq<ActionModel>) -> EngineModel
    decreases actions.len(),
{
    if actions.len() == 0 {
        m
    } else {
        apply_actions(spec_action(m, actions.first()), actions.drop_first())
    }
}

/// The commands that the engine records for the actions of `actions`,
/// performed in order from state `m`, oldest first.
pub open spec fn commands_of(m: EngineModel, actions: Seq<ActionModel>) -> Seq<CommandModel>
    decreases actions.len(),
{
    if actions.len() == 0 {
        Seq::empty()
    } else {
        seq![action_command(m, actions.first())] + commands_of(
            spec_action(m, actions.first()),
            actions.drop_first(),
        )
    }
}

/// The state after `n` undos.
pub open spec fn undo_times(m: EngineModel, n: nat) -> EngineModel
    decreases n,
{
    if n == 0 {
        m
    } else {
        undo_times(spec_undo(m), (n - 1) as nat)
    }
}

/// Away from the last file, a committed move is exactly a cursor-advancing
/// action that records the move.
pub proof fn lemma_move_advances(m: EngineModel, dest: Seq<char>)
    requires
        !spec_at_end(m),
    ensures
        spec_move_committed(m, dest) == spec_advanced(
            m,
            CommandModel::Move { current: m.files[m.cursor], previous: dest },
        ),
{
}

/// The shape of the state a run of actions produces: the lists and the
/// working directory are untouched, the cursor has advanced once per
/// action, the recorded commands sit on top of the undo stack, and the
/// first action cleared the redo stack.
proof fn lemma_apply_actions_shape(m: EngineModel, actions: Seq<ActionModel>)
    ensures
        ({
            let done = apply_actions(m, actions);
            &&& done.files == m.files
            &&& done.folders == m.folders
            &&& done.pwd == m.pwd
            &&& done.cursor == m.cursor + actions.len()
            &&& done.undo_stack == m.undo_stack + commands_of(m, actions)
            &&& done.end_of_files == m.end_of_files
            &&& done.redo_stack == if actions.len() == 0 {
                m.redo_stack
            } else {
                Seq::<CommandModel>::empty()
            }
        }),
    decreases actions.len(),
{
    if actions.len() == 0 {
        assert(m.undo_stack + commands_of(m, actions) =~= m.undo_stack);
    } else {
        let m1 = spec_action(m, actions.first());
        lemma_apply_actions_shape(m1, actions.drop_first());
        assert(m.undo_stack + commands_of(m, actions) =~= m1.undo_stack + commands_of(
            m1,
            actions.drop_first(),
        ));
    }
}

/// Undo peels freshly recorded commands off the undo stack one at a time:
/// from a state that differs from `m` by `cmds` on top of the undo stack,
/// the cursor advanced once per command, and any redo stack, that many
/// undos restore `m` exactly — except that the undone commands land on the
/// redo stack, newest first.
pub proof fn lemma_undo_peels_commands(
    m: EngineModel,
    cmds: Seq<CommandModel>,
    redo: Seq<CommandModel>,
)
    requires
        !m.end_of_files,
        0 <= m.cursor,
    ensures
        ({
            let s = EngineModel {
                cursor: m.cursor + cmds.len(),
                undo_stack: m.undo_stack + cmds,
                redo_stack: redo,
                end_of_files: false,
                ..m
            };
            undo_times(s, cmds.len() as nat) == (EngineModel {
                redo_stack: redo + cmds.reverse(),
                ..m
            })
        }),
    decreases cmds.len(),
{
    let s = EngineModel {
        cursor: m.cursor + cmds.len(),
        undo_stack: m.undo_stack + cmds,
        redo_stack: redo,
        end_of_files: false,
        ..m
    };
    if cmds.len() == 0 {
        assert(m.undo_stack + cmds =~= m.undo_stack);
        assert(redo + cmds.reverse() =~= redo);
        assert(undo_times(s, 0) =~= (EngineModel { redo_stack: redo + cmds.reverse(), ..m }));
    } else {
        let c = cmds.last();
        assert((m.undo_stack + cmds).len() > 0);
        assert((m.undo_stack + cmds).last() == c);
        assert((m.undo_stack + cmds).drop_last() =~= m.undo_stack + cmds.drop_last());
        let s1 = EngineModel {
            cursor: m.cursor + cmds.drop_last().len(),
            undo_stack: m.undo_stack + cmds.drop_last(),
            redo_stack: redo.push(c),
            end_of_files: false,
            ..m
        };
        assert(spec_undo(s) =~= s1);
        lemma_undo_peels_commands(m, cmds.drop_last(), redo.push(c));
        assert(undo_times(s, cmds.len() as nat) == undo_times(
            s1,
            cmds.drop_last().len() as nat,
        ));
        assert(redo.push(c) + cmds.drop_last().reverse() =~= redo + cmds.reverse());
    }
}

/// Undo played back over a run of actions restores the session: after any
/// sequence of successful moves and skips that stays inside the file list,
/// that many undos return the file list, the folder list, the working
/// directory, the cursor, the undo stack and the end-of-files condition to
/// exactly their pre-sequence values, while the redo stack holds exactly
/// the undone commands, newest first.
pub proof fn lemma_undo_reverses_actions(m: EngineModel, actions: Seq<ActionModel>)
    requires
        !m.end_of_files,
        0 <= m.cursor,
        m.cursor + actions.len() < m.files.len(),
    ensures
        ({
            let back = undo_times(apply_actions(m, actions), actions.len() as nat);
            &&& back.files == m.files
            &&& back.folders == m.folders
            &&& back.pwd == m.pwd
            &&& back.cursor == m.cursor
            &&& back.undo_stack == m.undo_stack
            &&& back.end_of_files == m.end_of_files
            &&& back.redo_stack == if actions.len() == 0 {
                m.redo_stack
            } else {
                commands_of(m, actions).reverse()
            }
        }),
{
    let cmds = commands_of(m, actions);
    lemma_apply_actions_shape(m, actions);
    lemma_commands_of_len(m, actions);
    if actions.len() == 0 {
        lemma_undo_peels_commands(m, cmds, m.redo_stack);
        assert(apply_actions(m, actions) =~= (EngineModel {
            cursor: m.cursor + cmds.len(),
            undo_stack: m.undo_stack + cmds,
            redo_stack: m.redo_stack,
            end_of_files: false,
            ..m
        }));
        assert(m.redo_stack + cmds.reverse() =~= m.redo_stack);
    } else {
        lemma_undo_peels_commands(m, cmds, Seq::<CommandModel>::empty());
        assert(apply_actions(m, actions) =~= (EngineModel {
            cursor: m.cursor + cmds.len(),
            undo_stack: m.undo_stack + cmds,
            redo_stack: Seq::<CommandModel>::empty(),
            end_of_files: false,
            ..m
        }));
        assert(Seq::<CommandModel>::empty() + cmds.reverse() =~= cmds.reverse());
    }
}

proof fn lemma_commands_of_len(m: EngineModel, actions: Seq<ActionModel>)
    ensures
        commands_of(m, actions).len() == actions.len(),
    decreases actions.len(),
{
    if actions.len() > 0 {
        lemma_commands_of_len(spec_action(m, actions.first()), actions.drop_first());
    }
}

/// The same restoration for a run that goes right to the end of the file
/// list: after successful moves and skips up to the last file and then a
/// move of the last file itself — which commits, records its command and
/// raises the boundary flag without advancing — one undo per action brings
/// the session back exactly, the undone commands on the redo stack newest
/// first.
pub proof fn lemma_undo_reverses_actions_hitting_the_end(
    m: EngineModel,
    actions: Seq<ActionModel>,
    dest: Seq<char>,
)
    requires
        !m.end_of_files,
        0 <= m.cursor,
        m.cursor + actions.len() == m.files.len() - 1,
    ensures
        ({
            let reached = apply_actions(m, actions);
            let last_move = CommandModel::Move { current: reached.files[reached.cursor], previous: dest };
            let run = spec_move_committed(reached, dest);
            let back = undo_times(run, (actions.len() + 1) as nat);
            &&& back.files == m.files
            &&& back.folders == m.folders
            &&& back.pwd == m.pwd
            &&& back.cursor == m.cursor
            &&& back.undo_stack == m.undo_stack
            &&& back.end_of_files == m.end_of_files
            &&& back.redo_stack == commands_of(m, actions).push(last_move).reverse()
        }),
{
    let cmds = commands_of(m, actions);
    lemma_apply_actions_shape(m, actions);
    lemma_commands_of_len(m, actions);
    let reached = apply_actions(m, actions);
    let last_move = CommandModel::Move { current: reached.files[reached.cursor], previous: dest };
    let run = spec_move_committed(reached, dest);
    assert(spec_at_end(run));
    assert(run.undo_stack == reached.undo_stack.push(last_move));
    assert((m.undo_stack + cmds).push(last_move).drop_last() =~= m.undo_stack + cmds);
    let s1 = EngineModel {
        cursor: m.cursor + cmds.len(),
        undo_stack: m.undo_stack + cmds,
        redo_stack: Seq::<CommandModel>::empty().push(last_move),
        end_of_files: false,
        ..m
    };
    assert(spec_undo(run) =~= s1);
    lemma_undo_times_last_first(run, (actions.len() + 1) as nat);
    lemma_undo_peels_commands(m, cmds, Seq::<CommandModel>::empty().push(last_move));
    assert(undo_times(run, (actions.len() + 1) as nat) == undo_times(s1, cmds.len() as nat));
    assert(Seq::<CommandModel>::empty().push(last_move) + cmds.reverse() =~= cmds.push(
        last_move,
    ).reverse());
}

proof fn lemma_undo_times_last_first(m: EngineModel, n: nat)
    requires
        n > 0,
    ensures
        undo_times(m, n) == undo_times(spec_undo(m), (n - 1) as nat),
{
}

/// The no-op boundaries of the history: an undo with an empty undo stack
/// and a redo with an empty redo stack leave the whole session — cursor,
/// lists and both stacks — exactly as it was.
pub proof fn lemma_empty_history_noop(m: EngineModel)
    ensures
        m.undo_stack.len() == 0 ==> spec_undo(m) == m,
        m.redo_stack.len() == 0 ==> spec_redo(m) == m,
{
}

/// A committed move followed by an undo and a redo comes back to exactly
/// the state the move produced: the redo replays the very command the
/// move recorded — the same destination path — and the cursor ends up
/// advanced exactly once past where it started (except from the last file,
/// where the move leaves it in place and raises the boundary flag both
/// times).
pub proof fn lemma_move_undo_redo_round_trip(m: EngineModel, dest: Seq<char>)
    requires
        !m.end_of_files,
        0 <= m.cursor < m.files.len(),
    ensures
        spec_redo(spec_undo(spec_move_committed(m, dest))) == spec_move_committed(m, dest),
        spec_undo(spec_move_committed(m, dest)).redo_stack.last() == (CommandModel::Move {
            current: m.files[m.cursor],
            previous: dest,
        }),
        !spec_at_end(m) ==> spec_move_committed(m, dest).cursor == m.cursor + 1,
{
    let committed = spec_move_committed(m, dest);
    let undone = spec_undo(committed);
    let c = CommandModel::Move { current: m.files[m.cursor], previous: dest };
    assert(m.undo_stack.push(c).drop_last() =~= m.undo_stack);
    assert(undone.redo_stack =~= Seq::<CommandModel>::empty().push(c));
    assert(undone.redo_stack.drop_last() =~= Seq::<CommandModel>::empty());
    assert(spec_redo(undone) =~= committed);
}

/// Every fresh action — a skip, a move, a deletion — clears the redo
/// stack, so the previously-undone future is no longer replayable: a redo
/// right after such an action is a no-op.
pub proof fn lemma_action_clears_redo(m: EngineModel, c: CommandModel, dest: Seq<char>)
    ensures
        spec_advanced(m, c).redo_stack.len() == 0,
        spec_deleted(m).redo_stack.len() == 0,
        spec_move_committed(m, dest).redo_stack.len() == 0,
        spec_redo(spec_advanced(m, c)) == spec_advanced(m, c),
        spec_redo(spec_deleted(m)) == spec_deleted(m),
        spec_redo(spec_move_committed(m, dest)) == spec_move_committed(m, dest),
{
}

} // verus!
