//! The patch session: from a source executable to a patched copy of it, one
//! file operation at a time.
//!
//! The session touches no file. It is told what a file operation brought
//! and answers with the next one. The first operation of every session is to
//! look whether the patched executable exists.

use crate::error::{DriverError, IoStage};
use crate::marker::marker_offsets;
use crate::patch::{is_first_overrun, is_patch_of, patch_image, regions_fit};
use crate::platform::{Platform, EXECUTABLE_MODE};
use vstd::prelude::*;

verus! {

/// How a session ended well.
#[derive(Clone, Copy, Debug, PartialEq, Eq, Structural)]
pub enum PatchOutcome {
    /// The patched executable was there already and was left alone.
    Cached,
    /// The patched executable was written, with `regions` regions overwritten.
    Patched { regions: usize },
}

/// How far a session has come.
#[derive(Clone, Copy, Debug, PartialEq, Eq, Structural)]
pub enum PatchState {
    /// Waiting to hear whether the patched executable exists.
    Probing,
    /// Waiting for the bytes of the source executable.
    Reading,
    /// Waiting for the patched image, with `regions` regions overwritten, to
    /// be written.
    Writing { regions: usize },
    /// Waiting for the permission bits to be set.
    Securing { regions: usize },
    /// Ended well. Final.
    Done { outcome: PatchOutcome },
    /// Ended with `error`. Final.
    Failed { error: DriverError },
}

/// What a file operation brought.
#[derive(Debug, PartialEq, Eq)]
pub enum PatchEvent {
    /// The patched executable exists.
    TargetFound,
    /// The patched executable does not exist.
    TargetMissing,
    /// The source executable was read; `image` holds all of its bytes.
    SourceRead { image: Vec<u8> },
    /// The patched executable was written.
    Written,
    /// The permission bits were set.
    PermissionsSet,
    /// The operation asked for failed.
    IoFailed,
}

/// The next thing to do.
#[derive(Debug, PartialEq, Eq)]
pub enum PatchAction {
    /// Read the whole source executable.
    ReadSource,
    /// Create the patched executable afresh, in place of what may be there,
    /// and write `image` to it.
    WriteTarget { image: Vec<u8> },
    /// Set the permission bits of the patched executable to `mode`.
    SetPermissions { mode: u32 },
    /// Nothing is left to do: the session ended with `outcome`.
    Finish { outcome: PatchOutcome },
    /// Give up, with `error`.
    Abort { error: DriverError },
    /// The event does not belong to the state of the session: nothing
    /// changed, and nothing is to be done for it.
    Ignore,
}

/// One step of a session on `platform`: in state `before`, `event` leads to
/// state `after` and to `action`. All of it is fixed by `before` and `event`
/// but the letters in the image that is to be written.
pub open spec fn stepped(
    platform: Platform,
    before: PatchState,
    event: PatchEvent,
    after: PatchState,
    action: PatchAction,
) -> bool {
    match (before, event) {
        (PatchState::Probing, PatchEvent::TargetFound) => {
            &&& after == PatchState::Done { outcome: PatchOutcome::Cached }
            &&& action == PatchAction::Finish { outcome: PatchOutcome::Cached }
        },
        (PatchState::Probing, PatchEvent::TargetMissing) => {
            &&& after == PatchState::Reading
            &&& action == PatchAction::ReadSource
        },
        (PatchState::Reading, PatchEvent::SourceRead { image }) => if regions_fit(image@) {
            &&& after == PatchState::Writing { regions: marker_offsets(image@).len() as usize }
            &&& action matches PatchAction::WriteTarget { image: patched }
            &&& is_patch_of(image@, patched@)
        } else {
            &&& after matches PatchState::Failed { error }
            &&& error matches DriverError::CorruptRegion { offset }
            &&& is_first_overrun(image@, offset as int)
            &&& action == PatchAction::Abort { error }
        },
        (PatchState::Reading, PatchEvent::IoFailed) => failed_with(
            IoStage::ReadSource,
            after,
            action,
        ),
        (PatchState::Writing { regions }, PatchEvent::Written) => if platform.posix() {
            &&& after == PatchState::Securing { regions }
            &&& action == PatchAction::SetPermissions { mode: EXECUTABLE_MODE }
        } else {
            &&& after == PatchState::Done { outcome: PatchOutcome::Patched { regions } }
            &&& action == PatchAction::Finish { outcome: PatchOutcome::Patched { regions } }
        },
        (PatchState::Writing { .. }, PatchEvent::IoFailed) => failed_with(
            IoStage::WriteTarget,
            after,
            action,
        ),
        (PatchState::Securing { regions }, PatchEvent::PermissionsSet) => {
            &&& after == PatchState::Done { outcome: PatchOutcome::Patched { regions } }
            &&& action == PatchAction::Finish { outcome: PatchOutcome::Patched { regions } }
        },
        (PatchState::Securing { .. }, PatchEvent::IoFailed) => failed_with(
            IoStage::SetPermissions,
            after,
            action,
        ),
        _ => after == before && action == PatchAction::Ignore,
    }
}

/// The session failed at `stage`, and the action is to give up for that.
pub open spec fn failed_with(stage: IoStage, after: PatchState, action: PatchAction) -> bool {
    &&& after == PatchState::Failed { error: DriverError::IoError { stage } }
    &&& action == PatchAction::Abort { error: DriverError::IoError { stage } }
}

/// The session has ended, well or not.
pub open spec fn is_final(state: PatchState) -> bool {
    state is Done || state is Failed
}

/// `states`, `events` and `actions` are a run of a session on `platform`:
/// it starts by probing, and each event leads from one state to the next and
/// to the action of the same index.
pub open spec fn is_run(
    platform: Platform,
    states: Seq<PatchState>,
    events: Seq<PatchEvent>,
    actions: Seq<PatchAction>,
) -> bool {
    &&& states.len() == events.len() + 1
    &&& actions.len() == events.len()
    &&& states[0] == PatchState::Probing
    &&& forall|k: int|
        0 <= k < events.len() ==> stepped(
            platform,
            states[k],
            #[trigger] events[k],
            states[k + 1],
            actions[k],
        )
}

/// A session that has ended stays as it is: whatever is reported to it
/// changes nothing and asks for nothing. No error is retried.
pub proof fn lemma_final_states_absorb(
    platform: Platform,
    before: PatchState,
    event: PatchEvent,
    after: PatchState,
    action: PatchAction,
)
    requires
        is_final(before),
        stepped(platform, before, event, after, action),
    ensures
        after == before,
        action == PatchAction::Ignore,
{
}

/// The patched executable is a cache: in a run whose first event is that it
/// exists, the session ends at once, and no action of the run reads, writes
/// or sets permissions.
pub proof fn lemma_cache_hit_writes_nothing(
    platform: Platform,
    states: Seq<PatchState>,
    events: Seq<PatchEvent>,
    actions: Seq<PatchAction>,
)
    requires
        is_run(platform, states, events, actions),
        events.len() >= 1,
        events[0] == PatchEvent::TargetFound,
    ensures
        actions[0] == (PatchAction::Finish { outcome: PatchOutcome::Cached }),
        forall|k: int| 1 <= k < actions.len() ==> actions[k] == PatchAction::Ignore,
        forall|k: int|
            1 <= k < states.len() ==> states[k] == (PatchState::Done {
                outcome: PatchOutcome::Cached,
            }),
{
    assert(stepped(platform, states[0], events[0], states[1], actions[0]));
    lemma_cache_hit_rest(platform, states, events, actions, events.len() as int);
}

/// The induction behind `lemma_cache_hit_writes_nothing`, over the first
/// `upto` events.
proof fn lemma_cache_hit_rest(
    platform: Platform,
    states: Seq<PatchState>,
    events: Seq<PatchEvent>,
    actions: Seq<PatchAction>,
    upto: int,
)
    requires
        is_run(platform, states, events, actions),
        1 <= upto <= events.len(),
        events[0] == PatchEvent::TargetFound,
    ensures
        forall|k: int| 1 <= k < upto ==> actions[k] == PatchAction::Ignore,
        forall|k: int|
            1 <= k <= upto ==> states[k] == (PatchState::Done { outcome: PatchOutcome::Cached }),
    decreases upto,
{
    if upto == 1 {
        assert(stepped(platform, states[0], events[0], states[1], actions[0]));
    } else {
        lemma_cache_hit_rest(platform, states, events, actions, upto - 1);
        assert(stepped(
            platform,
            states[upto - 1],
            events[upto - 1],
            states[upto],
            actions[upto - 1],
        ));
    }
}

/// On a platform with permission bits, the step that
/// follows the write asks for `EXECUTABLE_MODE`, and the session is not done
/// before those bits are set. Elsewhere no permissions are asked for.
pub proof fn lemma_permissions_follow_write(
    platform: Platform,
    regions: usize,
    after: PatchState,
    action: PatchAction,
)
    requires
        stepped(platform, PatchState::Writing { regions }, PatchEvent::Written, after, action),
    ensures
        platform.posix() ==> action == (PatchAction::SetPermissions { mode: EXECUTABLE_MODE })
            && !is_final(after),
        !platform.posix() ==> action == (PatchAction::Finish {
            outcome: PatchOutcome::Patched { regions },
        }),
{
}

/// A patch session on one platform.
pub struct PatchSession {
    platform: Platform,
    state: PatchState,
}

impl PatchSession {
    /// The platform of this session.
    pub closed spec fn spec_platform(self) -> Platform {
        self.platform
    }

    /// How far this session has come.
    pub closed spec fn spec_state(self) -> PatchState {
        self.state
    }

    /// A session on `platform` that waits to hear whether the patched
    /// executable exists.
    pub fn new(platform: Platform) -> (session: PatchSession)
        ensures
            session.spec_platform() == platform,
            session.spec_state() == PatchState::Probing,
    {
        PatchSession { platform, state: PatchState::Probing }
    }

    /// The platform of this session.
    pub fn platform(&self) -> (platform: Platform)
        ensures
            platform == self.spec_platform(),
    {
        self.platform
    }

    /// How far this session has come.
    pub fn state(&self) -> (state: PatchState)
        ensures
            state == self.spec_state(),
    {
        self.state
    }

    /// Takes what a file operation brought and answers with the next thing
    /// to do. The bytes of the source executable are patched on arrival.
    pub fn handle(&mut self, event: PatchEvent) -> (action: PatchAction)
        ensures
            final(self).spec_platform() == old(self).spec_platform(),
            stepped(
                old(self).spec_platform(),
                old(self).spec_state(),
                event,
                final(self).spec_state(),
                action,
            ),
    {
        match (self.state, event) {
            (PatchState::Probing, PatchEvent::TargetFound) => {
                self.state = PatchState::Done { outcome: PatchOutcome::Cached };
                PatchAction::Finish { outcome: PatchOutcome::Cached }
            },
            (PatchState::Probing, PatchEvent::TargetMissing) => {
                self.state = PatchState::Reading;
                PatchAction::ReadSource
            },
            (PatchState::Reading, PatchEvent::SourceRead { image }) => {
                let mut image = image;
                match patch_image(&mut image) {
                    Ok(regions) => {
                        self.state = PatchState::Writing { regions };
                        PatchAction::WriteTarget { image }
                    },
                    Err(error) => {
                        self.state = PatchState::Failed { error };
                        PatchAction::Abort { error }
                    },
                }
            },
            (PatchState::Reading, PatchEvent::IoFailed) => self.fail(IoStage::ReadSource),
            (PatchState::Writing { regions }, PatchEvent::Written) => {
                if self.platform.is_posix() {
                    self.state = PatchState::Securing { regions };
                    PatchAction::SetPermissions { mode: EXECUTABLE_MODE }
                } else {
                    self.state = PatchState::Done { outcome: PatchOutcome::Patched { regions } };
                    PatchAction::Finish { outcome: PatchOutcome::Patched { regions } }
                }
            },
            (PatchState::Writing { .. }, PatchEvent::IoFailed) => self.fail(
                IoStage::WriteTarget,
            ),
            (PatchState::Securing { regions }, PatchEvent::PermissionsSet) => {
                self.state = PatchState::Done { outcome: PatchOutcome::Patched { regions } };
                PatchAction::Finish { outcome: PatchOutcome::Patched { regions } }
            },
            (PatchState::Securing { .. }, PatchEvent::IoFailed) => self.fail(
                IoStage::SetPermissions,
            ),
            _ => PatchAction::Ignore,
        }
    }

    /// Ends the session with the failure of the file operation at `stage`.
    fn fail(&mut self, stage: IoStage) -> (action: PatchAction)
        ensures
            final(self).spec_platform() == old(self).spec_platform(),
            failed_with(stage, final(self).spec_state(), action),
    {
        self.state = PatchState::Failed { error: DriverError::IoError { stage } };
        PatchAction::Abort { error: DriverError::IoError { stage } }
    }
}

} // verus!
