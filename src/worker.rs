use vstd::prelude::*;

verus! {

/// Where a worker stands in its cycle: each phase names the action it last
/// asked for, whose outcome it awaits.
#[derive(Clone, Copy, Debug, PartialEq, Eq, Structural)]
pub enum Phase {
    /// At a cycle boundary, waiting for a read of the stop flag.
    Start,
    Creating,
    Tracking,
    Writing,
    Syncing,
    Checking,
    Settling,
    Deleting,
    /// Terminal: the worker has left its loop.
    Stopped,
}

/// What came of the last action.
#[derive(Clone, Copy, Debug, PartialEq, Eq, Structural)]
pub enum Outcome {
    /// The stop flag was read and held this value.
    Flag(bool),
    Succeeded,
    Failed,
    /// The size on disk of the file just written.
    Size(u64),
}

/// The step of a cycle that failed; the cycle ends there.
#[derive(Clone, Copy, Debug, PartialEq, Eq, Structural)]
pub enum CycleError {
    Create,
    EmptyBuffer,
    Write,
    Sync,
    Stat,
    Delete,
}

/// What the worker asks its runner to do next.
#[derive(Clone, Copy, Debug, PartialEq, Eq, Structural)]
pub enum Action {
    /// Create a file under a fresh temporary name.
    Create,
    /// Add the created file to the inventory.
    Track,
    /// Write the whole shared buffer to the file.
    Write,
    /// Flush the file to stable storage.
    Sync,
    /// Read the file's size on disk.
    Stat,
    /// Hold the file for the settle delay; where the size did not match the
    /// buffer, report that first.
    Settle { size_matches: bool },
    /// Delete the file.
    Delete,
    /// Remove the deleted file from the inventory; the cycle is complete.
    Untrack,
    /// Report the error; the cycle is over.
    Fail(CycleError),
    /// Leave the loop.
    Exit,
}

/// The worker's decision on `outcome` in `phase`, with a shared buffer of
/// `len` bytes: the next phase and the action to perform. After `Untrack` and
/// `Fail` the worker is at a cycle boundary and awaits a read of the stop flag.
pub open spec fn spec_step(phase: Phase, outcome: Outcome, len: nat) -> (Phase, Action) {
    match phase {
        Phase::Start => if outcome == Outcome::Flag(false) {
            (Phase::Creating, Action::Create)
        } else {
            (Phase::Stopped, Action::Exit)
        },
        Phase::Creating => if outcome == Outcome::Succeeded {
            (Phase::Tracking, Action::Track)
        } else {
            (Phase::Start, Action::Fail(CycleError::Create))
        },
        Phase::Tracking => if len == 0 {
            (Phase::Start, Action::Fail(CycleError::EmptyBuffer))
        } else {
            (Phase::Writing, Action::Write)
        },
        Phase::Writing => if outcome == Outcome::Succeeded {
            (Phase::Syncing, Action::Sync)
        } else {
            (Phase::Start, Action::Fail(CycleError::Write))
        },
        Phase::Syncing => if outcome == Outcome::Succeeded {
            (Phase::Checking, Action::Stat)
        } else {
            (Phase::Start, Action::Fail(CycleError::Sync))
        },
        Phase::Checking => match outcome {
            Outcome::Size(n) => (Phase::Settling, Action::Settle { size_matches: n as nat == len }),
            _ => (Phase::Start, Action::Fail(CycleError::Stat)),
        },
        Phase::Settling => (Phase::Deleting, Action::Delete),
        Phase::Deleting => if outcome == Outcome::Succeeded {
            (Phase::Start, Action::Untrack)
        } else {
            (Phase::Start, Action::Fail(CycleError::Delete))
        },
        Phase::Stopped => (Phase::Stopped, Action::Exit),
    }
}

/// The worker's decision on `outcome` in `phase`, for a shared buffer of
/// `buffer_len` bytes.
pub fn step(phase: Phase, outcome: Outcome, buffer_len: usize) -> (r: (Phase, Action))
    ensures
        r == spec_step(phase, outcome, buffer_len as nat),
{
    match phase {
        Phase::Start => match outcome {
            Outcome::Flag(false) => (Phase::Creating, Action::Create),
            _ => (Phase::Stopped, Action::Exit),
        },
        Phase::Creating => match outcome {
            Outcome::Succeeded => (Phase::Tracking, Action::Track),
            _ => (Phase::Start, Action::Fail(CycleError::Create)),
        },
        Phase::Tracking => if buffer_len == 0 {
            (Phase::Start, Action::Fail(CycleError::EmptyBuffer))
        } else {
            (Phase::Writing, Action::Write)
        },
        Phase::Writing => match outcome {
            Outcome::Succeeded => (Phase::Syncing, Action::Sync),
            _ => (Phase::Start, Action::Fail(CycleError::Write)),
        },
        Phase::Syncing => match outcome {
            Outcome::Succeeded => (Phase::Checking, Action::Stat),
            _ => (Phase::Start, Action::Fail(CycleError::Sync)),
        },
        Phase::Checking => match outcome {
            Outcome::Size(n) => (Phase::Settling, Action::Settle { size_matches: n as u128 == buffer_len as u128 }),
            _ => (Phase::Start, Action::Fail(CycleError::Stat)),
        },
        Phase::Settling => (Phase::Deleting, Action::Delete),
        Phase::Deleting => match outcome {
            Outcome::Succeeded => (Phase::Start, Action::Untrack),
            _ => (Phase::Start, Action::Fail(CycleError::Delete)),
        },
        Phase::Stopped => (Phase::Stopped, Action::Exit),
    }
}

/// The actions a worker takes, from `phase`, on the outcomes `outs` in turn.
pub open spec fn spec_actions(phase: Phase, outs: Seq<Outcome>, len: nat) -> Seq<Action>
    decreases outs.len(),
{
    if outs.len() == 0 {
        Seq::empty()
    } else {
        let (next, a) = spec_step(phase, outs[0], len);
        seq![a] + spec_actions(next, outs.drop_first(), len)
    }
}

/// The phase a worker reaches from `phase` on the outcomes `outs`.
pub open spec fn spec_final_phase(phase: Phase, outs: Seq<Outcome>, len: nat) -> Phase
    decreases outs.len(),
{
    if outs.len() == 0 {
        phase
    } else {
        spec_final_phase(spec_step(phase, outs[0], len).0, outs.drop_first(), len)
    }
}

/// How many steps remain before the cycle in flight reaches its boundary.
pub open spec fn spec_steps_left(phase: Phase) -> nat {
    match phase {
        Phase::Start => 0,
        Phase::Creating => 7,
        Phase::Tracking => 6,
        Phase::Writing => 5,
        Phase::Syncing => 4,
        Phase::Checking => 3,
        Phase::Settling => 2,
        Phase::Deleting => 1,
        Phase::Stopped => 0,
    }
}

/// The outcomes of a cycle in which the stop flag is unset and every
/// operation succeeds, the file holding `len` bytes on disk.
pub open spec fn spec_clean_cycle(len: nat) -> Seq<Outcome> {
    seq![
        Outcome::Flag(false),
        Outcome::Succeeded,
        Outcome::Succeeded,
        Outcome::Succeeded,
        Outcome::Succeeded,
        Outcome::Size(len as u64),
        Outcome::Succeeded,
        Outcome::Succeeded,
    ]
}

/// With a non-empty buffer of `len` bytes, a cycle in which every operation
/// succeeds creates and tracks a file, writes the whole buffer to it once,
/// flushes it, finds all `len` bytes on disk (so no size mismatch is
/// reported), settles, deletes and untracks it, and ends at a cycle boundary.
pub proof fn lemma_clean_cycle_writes_whole_buffer(len: nat)
    requires
        0 < len <= u64::MAX,
    ensures
        spec_actions(Phase::Start, spec_clean_cycle(len), len) == seq![
            Action::Create,
            Action::Track,
            Action::Write,
            Action::Sync,
            Action::Stat,
            Action::Settle { size_matches: true },
            Action::Delete,
            Action::Untrack,
        ],
        spec_final_phase(Phase::Start, spec_clean_cycle(len), len) == Phase::Start,
{
    let outs = spec_clean_cycle(len);
    reveal_with_fuel(spec_actions, 9);
    reveal_with_fuel(spec_final_phase, 9);
    assert(outs.drop_first() =~= outs.subrange(1, 8));
    assert(outs.subrange(1, 8).drop_first() =~= outs.subrange(2, 8));
    assert(outs.subrange(2, 8).drop_first() =~= outs.subrange(3, 8));
    assert(outs.subrange(3, 8).drop_first() =~= outs.subrange(4, 8));
    assert(outs.subrange(4, 8).drop_first() =~= outs.subrange(5, 8));
    assert(outs.subrange(5, 8).drop_first() =~= outs.subrange(6, 8));
    assert(outs.subrange(6, 8).drop_first() =~= outs.subrange(7, 8));
    assert(outs.subrange(7, 8).drop_first() =~= Seq::<Outcome>::empty());
    assert(((len as u64) as nat) == len);
    assert(spec_actions(Phase::Start, outs, len) =~= seq![
        Action::Create,
        Action::Track,
        Action::Write,
        Action::Sync,
        Action::Stat,
        Action::Settle { size_matches: true },
        Action::Delete,
        Action::Untrack,
    ]);
}

/// With an empty buffer, a worker never writes, whatever the outcomes; a
/// cycle that created its file fails with the empty-buffer error instead.
pub proof fn lemma_empty_buffer_never_writes(phase: Phase, outs: Seq<Outcome>)
    ensures
        !spec_actions(phase, outs, 0).contains(Action::Write),
        forall|o: Outcome| spec_step(Phase::Tracking, o, 0) == (Phase::Start, Action::Fail(CycleError::EmptyBuffer)),
    decreases outs.len(),
{
    if outs.len() > 0 {
        let (next, a) = spec_step(phase, outs[0], 0);
        lemma_empty_buffer_never_writes(next, outs.drop_first());
        let rest = spec_actions(next, outs.drop_first(), 0);
        assert(spec_actions(phase, outs, 0) == seq![a] + rest);
        if (seq![a] + rest).contains(Action::Write) {
            let i = choose|i: int| 0 <= i < (seq![a] + rest).len() && (seq![a] + rest)[i] == Action::Write;
            if i > 0 {
                assert(rest[i - 1] == Action::Write);
            }
        }
    }
}

/// Once a stop has been requested, so that every read of the flag from then
/// on finds it set, a worker starts no new cycle: only the cycle in flight
/// runs to its end.
pub proof fn lemma_no_cycle_after_stop(phase: Phase, outs: Seq<Outcome>, len: nat)
    requires
        forall|i: int| 0 <= i < outs.len() ==> outs[i] != Outcome::Flag(false),
    ensures
        !spec_actions(phase, outs, len).contains(Action::Create),
    decreases outs.len(),
{
    if outs.len() > 0 {
        let (next, a) = spec_step(phase, outs[0], len);
        let tail = outs.drop_first();
        assert forall|i: int| 0 <= i < tail.len() implies tail[i] != Outcome::Flag(false) by {
            assert(tail[i] == outs[i + 1]);
        }
        lemma_no_cycle_after_stop(next, tail, len);
        let rest = spec_actions(next, tail, len);
        assert(spec_actions(phase, outs, len) == seq![a] + rest);
        if (seq![a] + rest).contains(Action::Create) {
            let i = choose|i: int| 0 <= i < (seq![a] + rest).len() && (seq![a] + rest)[i] == Action::Create;
            if i > 0 {
                assert(rest[i - 1] == Action::Create);
            }
        }
    }
}

/// Once a stop has been requested, a worker has stopped after at most one
/// step more than its cycle in flight has left, and stays stopped.
pub proof fn lemma_stop_is_reached(phase: Phase, outs: Seq<Outcome>, len: nat)
    requires
        forall|i: int| 0 <= i < outs.len() ==> outs[i] != Outcome::Flag(false),
        outs.len() > spec_steps_left(phase),
    ensures
        spec_final_phase(phase, outs, len) == Phase::Stopped,
    decreases outs.len(),
{
    let next = spec_step(phase, outs[0], len).0;
    let tail = outs.drop_first();
    assert forall|i: int| 0 <= i < tail.len() implies tail[i] != Outcome::Flag(false) by {
        assert(tail[i] == outs[i + 1]);
    }
    assert(spec_final_phase(phase, outs, len) == spec_final_phase(next, tail, len));
    if tail.len() == 0 {
        assert(next == Phase::Stopped);
        assert(spec_final_phase(next, tail, len) == next);
    } else {
        lemma_stop_is_reached(next, tail, len);
    }
}

/// The files on disk that this worker created, after `outcome` in `phase`
/// for the file at `path`.
pub open spec fn spec_disk_effect(phase: Phase, outcome: Outcome, disk: Set<Seq<char>>, path: Seq<char>) -> Set<Seq<char>> {
    if phase == Phase::Creating && outcome == Outcome::Succeeded {
        disk.insert(path)
    } else if phase == Phase::Deleting && outcome == Outcome::Succeeded {
        disk.remove(path)
    } else {
        disk
    }
}

/// The tracked paths after `action` on the file at `path`.
pub open spec fn spec_inventory_effect(action: Action, held: Set<Seq<char>>, path: Seq<char>) -> Set<Seq<char>> {
    match action {
        Action::Track => held.insert(path),
        Action::Untrack => held.remove(path),
        _ => held,
    }
}

/// Tracking follows the disk: where the inventory holds exactly the files on
/// disk, the action a worker takes on an outcome keeps it so, whether the
/// outcome created a file, deleted one, or failed.
pub proof fn lemma_inventory_follows_disk(
    phase: Phase,
    outcome: Outcome,
    len: nat,
    disk: Set<Seq<char>>,
    held: Set<Seq<char>>,
    path: Seq<char>,
)
    requires
        held == disk,
    ensures
        spec_inventory_effect(spec_step(phase, outcome, len).1, held, path)
            == spec_disk_effect(phase, outcome, disk, path),
{
}

} // verus!
