use vstd::prelude::*;

verus! {

/// The stages of one synchronization run. The caller performs the outside
/// work of a stage and reports whether it succeeded.
#[derive(Clone, Copy, PartialEq, Eq, Structural, Debug)]
pub enum Stage {
    Connecting,
    LoggingIn,
    ListingRemote,
    ListingLocal,
    BackingUp,
    /// Linking, resolving and the three transfer passes.
    Syncing,
    Finished,
    Aborted,
}

/// The stage that follows `stage` once its work ended with `succeeded`.
/// Connection, login and backup failures abort the run; listing failures only
/// empty a subtree and transfer failures only count as errors, so neither stops it.
pub open spec fn next_stage_spec(stage: Stage, succeeded: bool, backups_enabled: bool) -> Stage {
    match stage {
        Stage::Connecting => if succeeded { Stage::LoggingIn } else { Stage::Aborted },
        Stage::LoggingIn => if succeeded { Stage::ListingRemote } else { Stage::Aborted },
        Stage::ListingRemote => Stage::ListingLocal,
        Stage::ListingLocal => if backups_enabled { Stage::BackingUp } else { Stage::Syncing },
        Stage::BackingUp => if succeeded { Stage::Syncing } else { Stage::Aborted },
        Stage::Syncing => Stage::Finished,
        Stage::Finished => Stage::Finished,
        Stage::Aborted => Stage::Aborted,
    }
}

/// The stage reached from `stage` after the outcomes `events`, in order.
pub open spec fn stage_after(stage: Stage, events: Seq<bool>, backups_enabled: bool) -> Stage
    decreases events.len(),
{
    if events.len() == 0 {
        stage
    } else {
        next_stage_spec(stage_after(stage, events.drop_last(), backups_enabled), events.last(), backups_enabled)
    }
}

/// The stage a run starts in.
pub fn first_stage() -> (r: Stage)
    ensures
        r == Stage::Connecting,
{
    Stage::Connecting
}

/// The stage that follows `stage` (see `next_stage_spec`).
pub fn next_stage(stage: Stage, succeeded: bool, backups_enabled: bool) -> (r: Stage)
    ensures
        r == next_stage_spec(stage, succeeded, backups_enabled),
{
    match stage {
        Stage::Connecting => if succeeded { Stage::LoggingIn } else { Stage::Aborted },
        Stage::LoggingIn => if succeeded { Stage::ListingRemote } else { Stage::Aborted },
        Stage::ListingRemote => Stage::ListingLocal,
        Stage::ListingLocal => if backups_enabled { Stage::BackingUp } else { Stage::Syncing },
        Stage::BackingUp => if succeeded { Stage::Syncing } else { Stage::Aborted },
        Stage::Syncing => Stage::Finished,
        Stage::Finished => Stage::Finished,
        Stage::Aborted => Stage::Aborted,
    }
}

/// Whether the run is over.
pub fn is_final(stage: Stage) -> (r: bool)
    ensures
        r == (stage == Stage::Finished || stage == Stage::Aborted),
{
    match stage {
        Stage::Finished | Stage::Aborted => true,
        _ => false,
    }
}

proof fn lemma_aborted_stays(events: Seq<bool>, backups_enabled: bool)
    ensures
        stage_after(Stage::Aborted, events, backups_enabled) == Stage::Aborted,
    decreases events.len(),
{
    if events.len() > 0 {
        lemma_aborted_stays(events.drop_last(), backups_enabled);
    }
}

/// A failed backup aborts the run, and whatever is reported afterwards the
/// run never reaches the transfer passes; with backups enabled, the passes are
/// only ever entered from a backup that succeeded.
pub proof fn lemma_backup_failure_aborts(later: Seq<bool>, stage: Stage, succeeded: bool)
    ensures
        next_stage_spec(Stage::BackingUp, false, true) == Stage::Aborted,
        stage_after(Stage::Aborted, later, true) == Stage::Aborted,
        stage_after(Stage::Aborted, later, true) != Stage::Syncing,
        next_stage_spec(stage, succeeded, true) == Stage::Syncing ==> stage == Stage::BackingUp && succeeded,
{
    lemma_aborted_stays(later, true);
}

} // verus!
