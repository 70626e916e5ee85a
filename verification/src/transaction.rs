//! The apply transaction from the start of the renderer on.
//!
//! Each stage waits for one thing that happens outside; the method named after
//! it takes the outcome and moves on. Whatever fails after the start is rolled
//! back: the renderer is stopped while it is still ours, and the store goes back
//! to the record that it held before.

use vstd::prelude::*;

use crate::apply;
use crate::apply::{
    check_started, ensure_ours, status_is_ours, switch_error, verify_switch, wait_for_promotion,
    ApplyError, Waiting, KWE_PLUGIN,
};
use crate::assignments;
use crate::assignments::{Assignment, PreviousWallpaper};
use crate::identity;
use crate::model::{StartSpec, WorkerStatus};
use crate::probe::{OutputInfo, ProbeError};
use crate::script;
use crate::script::apply_script;

verus! {

/// What a prepared apply sets out to do.
pub struct ApplyPlan {
    pub spec: StartSpec,
    pub content: String,
    pub output_name: String,
    pub desktop_index: usize,
    /// The wallpaper to come back to.
    pub previous: PreviousWallpaper,
    /// The record that survives a failure.
    pub old_assignment: Option<Assignment>,
    /// Clear the failure record first.
    pub retry: bool,
}

/// What the transaction waits for.
#[derive(Debug, Clone, Copy, PartialEq, Eq, Structural)]
pub enum Stage {
    /// The supervisor's answer to the start.
    Starting,
    /// A look at the supervisor, until our renderer is promoted.
    Waiting,
    /// The last look before anything is written.
    CheckingOwner,
    /// The record in the store.
    Persisting,
    /// The switch script.
    Switching,
    /// The enumeration that confirms the switch.
    Verifying,
    Done,
    /// A look at whose renderer it is.
    RollbackLooking,
    /// The stop of our renderer.
    RollbackStopping,
    /// The old record in the store.
    RollbackStore,
    Failed,
}

/// The stages that may follow a stage.
pub open spec fn may_follow(from: Stage, to: Stage) -> bool {
    match from {
        Stage::Starting => to == Stage::Waiting || to == Stage::RollbackLooking,
        Stage::Waiting => to == Stage::Waiting || to == Stage::CheckingOwner || to
            == Stage::RollbackLooking,
        Stage::CheckingOwner => to == Stage::Persisting || to == Stage::RollbackLooking,
        Stage::Persisting => to == Stage::Switching || to == Stage::RollbackLooking,
        Stage::Switching => to == Stage::Verifying || to == Stage::RollbackLooking,
        Stage::Verifying => to == Stage::Done || to == Stage::RollbackLooking,
        Stage::Done => false,
        Stage::RollbackLooking => to == Stage::RollbackStopping || to == Stage::RollbackStore,
        Stage::RollbackStopping => to == Stage::RollbackStore,
        Stage::RollbackStore => to == Stage::Failed,
        Stage::Failed => false,
    }
}

/// A transaction under way.
pub struct ApplyTransaction {
    pub plan: ApplyPlan,
    pub stage: Stage,
    pub promotion_timeout_ms: u64,
    /// When the wait for the promotion began.
    pub wait_started_ms: u64,
    /// What made it fail.
    pub error: Option<ApplyError>,
}

impl ApplyTransaction {
    /// The error is there exactly from the failure on.
    pub open spec fn wf(&self) -> bool {
        self.error is Some <==> (self.stage == Stage::RollbackLooking || self.stage
            == Stage::RollbackStopping || self.stage == Stage::RollbackStore || self.stage
            == Stage::Failed)
    }

    pub open spec fn id(&self) -> Seq<char> {
        self.plan.spec.wallpaper_id@
    }

    pub open spec fn hash(&self) -> Seq<char> {
        self.plan.spec.content_hash@
    }

    /// The transaction went on to `stage`.
    pub open spec fn went_on(before: &Self, after: &Self, stage: Stage) -> bool {
        &&& after.plan == before.plan
        &&& after.promotion_timeout_ms == before.promotion_timeout_ms
        &&& after.wait_started_ms == before.wait_started_ms
        &&& after.stage == stage
        &&& after.error == before.error
    }

    /// The transaction turned to its rollback.
    pub open spec fn turned_back(before: &Self, after: &Self) -> bool {
        &&& after.plan == before.plan
        &&& after.promotion_timeout_ms == before.promotion_timeout_ms
        &&& after.wait_started_ms == before.wait_started_ms
        &&& after.stage == Stage::RollbackLooking
        &&& after.error is Some
    }

    /// The error is a failed step with this detail.
    pub open spec fn step_failed(&self, detail: Seq<char>) -> bool {
        self.error matches Some(error) && error is Transaction && error.text() == Some(detail)
    }

    pub fn new(plan: ApplyPlan, promotion_timeout_ms: u64) -> (transaction: Self)
        ensures
            transaction.wf(),
            transaction.plan == plan,
            transaction.promotion_timeout_ms == promotion_timeout_ms,
            transaction.stage == Stage::Starting,
    {
        ApplyTransaction {
            plan,
            stage: Stage::Starting,
            promotion_timeout_ms,
            wait_started_ms: 0,
            error: None,
        }
    }

    fn turn_back(&mut self, error: ApplyError)
        requires
            old(self).wf(),
            old(self).error is None,
        ensures
            final(self).wf(),
            Self::turned_back(old(self), final(self)),
            final(self).error == Some(error),
    {
        self.stage = Stage::RollbackLooking;
        self.error = Some(error);
    }

    /// Takes the supervisor's answer to the start (or the retry) of the plan's
    /// renderer.
    pub fn started(&mut self, answer: Result<WorkerStatus, String>, now_ms: u64)
        requires
            old(self).wf(),
            old(self).stage == Stage::Starting,
        ensures
            final(self).wf(),
            may_follow(old(self).stage, final(self).stage),
            match answer {
                Err(failure) => Self::turned_back(old(self), final(self)) && final(self).step_failed("renderer.start failed: "@ + failure@),
                Ok(status) => match apply::start_refusal(status) {
                    Some((true, detail)) => Self::turned_back(old(self), final(self)) && (final(self).error matches Some(error) && error is Quarantined && error.text() == Some(
                        detail,
                    )),
                    Some((false, detail)) => Self::turned_back(old(self), final(self)) && final(self).step_failed(detail),
                    None => {
                        &&& final(self).plan == old(self).plan
                        &&& final(self).promotion_timeout_ms == old(self).promotion_timeout_ms
                        &&& final(self).stage == Stage::Waiting
                        &&& final(self).wait_started_ms == now_ms
                    },
                },
            },
    {
        match answer {
            Ok(status) => match check_started(&status) {
                Ok(()) => {
                    self.stage = Stage::Waiting;
                    self.wait_started_ms = now_ms;
                },
                Err(error) => self.turn_back(error),
            },
            Err(failure) => {
                let detail = "renderer.start failed: ".to_owned().concat(failure.as_str());
                self.turn_back(ApplyError::Transaction(detail));
            },
        }
    }

    /// The wait has reached its deadline.
    pub open spec fn overdue(&self, now_ms: u64) -> bool {
        now_ms >= self.wait_started_ms + self.promotion_timeout_ms
    }

    /// Takes a look at the supervisor while the promotion is waited for.
    pub fn polled(&mut self, answer: Result<WorkerStatus, String>, now_ms: u64)
        requires
            old(self).wf(),
            old(self).stage == Stage::Waiting,
        ensures
            final(self).wf(),
            may_follow(old(self).stage, final(self).stage),
            match answer {
                Err(failure) => Self::turned_back(old(self), final(self)) && final(self).step_failed("renderer.status failed: "@ + failure@),
                Ok(status) => match apply::waiting_outcome(
                    status,
                    old(self).id(),
                    old(self).hash(),
                    old(self).overdue(now_ms),
                    old(self).promotion_timeout_ms,
                ) {
                    Some(Ok(())) => Self::went_on(old(self), final(self), Stage::CheckingOwner),
                    Some(Err(detail)) => Self::turned_back(old(self), final(self)) && final(self).step_failed(detail),
                    None => Self::went_on(old(self), final(self), Stage::Waiting),
                },
            },
    {
        match answer {
            Ok(status) => {
                let overdue: bool = now_ms as u128 >= self.wait_started_ms as u128
                    + self.promotion_timeout_ms as u128;
                match wait_for_promotion(
                    &status,
                    self.plan.spec.wallpaper_id.as_str(),
                    self.plan.spec.content_hash.as_str(),
                    overdue,
                    self.promotion_timeout_ms,
                ) {
                    Waiting::Promoted => {
                        self.stage = Stage::CheckingOwner;
                    },
                    Waiting::KeepWaiting => {},
                    Waiting::Failed(error) => self.turn_back(error),
                }
            },
            Err(failure) => {
                let detail = "renderer.status failed: ".to_owned().concat(failure.as_str());
                self.turn_back(ApplyError::Transaction(detail));
            },
        }
    }

    /// Takes the last look at the supervisor before anything is written.
    pub fn owner_checked(&mut self, answer: Result<WorkerStatus, String>)
        requires
            old(self).wf(),
            old(self).stage == Stage::CheckingOwner,
        ensures
            final(self).wf(),
            may_follow(old(self).stage, final(self).stage),
            match answer {
                Err(failure) => Self::turned_back(old(self), final(self)) && final(self).step_failed("renderer.status failed: "@ + failure@),
                Ok(status) => if apply::is_ours(status, old(self).id(), old(self).hash()) {
                    Self::went_on(old(self), final(self), Stage::Persisting)
                } else {
                    Self::turned_back(old(self), final(self)) && final(self).step_failed(
                        apply::ownership_text(status, old(self).id(), old(self).hash()),
                    )
                },
            },
    {
        match answer {
            Ok(status) => match ensure_ours(
                &status,
                self.plan.spec.wallpaper_id.as_str(),
                self.plan.spec.content_hash.as_str(),
            ) {
                Ok(()) => {
                    self.stage = Stage::Persisting;
                },
                Err(error) => self.turn_back(error),
            },
            Err(failure) => {
                let detail = "renderer.status failed: ".to_owned().concat(failure.as_str());
                self.turn_back(ApplyError::Transaction(detail));
            },
        }
    }

    /// The record that the plan puts on its output.
    pub open spec fn record(&self, unix_seconds: u64) -> assignments::AssignmentView {
        assignments::AssignmentView {
            wallpaper_id: self.plan.spec.wallpaper_id@,
            kind: self.plan.spec.kind,
            content: self.plan.content@,
            width: self.plan.spec.width,
            height: self.plan.spec.height,
            fps: self.plan.spec.fps,
            scaling: self.plan.spec.scaling,
            applied_at_unix_seconds: unix_seconds,
            previous: Some(self.plan.previous@),
        }
    }

    /// The record to persist.
    pub fn assignment(&self, unix_seconds: u64) -> (assignment: Assignment)
        ensures
            assignment@ == self.record(unix_seconds),
    {
        Assignment {
            wallpaper_id: self.plan.spec.wallpaper_id.clone(),
            kind: self.plan.spec.kind,
            content: self.plan.content.clone(),
            width: self.plan.spec.width,
            height: self.plan.spec.height,
            fps: self.plan.spec.fps,
            scaling: self.plan.spec.scaling,
            applied_at_unix_seconds: unix_seconds,
            previous: Some(self.plan.previous.clone()),
        }
    }

    /// Takes what putting the record into the store came to.
    pub fn persisted(&mut self, saved: Result<(), String>)
        requires
            old(self).wf(),
            old(self).stage == Stage::Persisting,
        ensures
            final(self).wf(),
            may_follow(old(self).stage, final(self).stage),
            match saved {
                Ok(()) => Self::went_on(old(self), final(self), Stage::Switching),
                Err(failure) => Self::turned_back(old(self), final(self)) && final(self).step_failed("persist assignment failed: "@ + failure@),
            },
    {
        match saved {
            Ok(()) => {
                self.stage = Stage::Switching;
            },
            Err(failure) => {
                let detail = "persist assignment failed: ".to_owned().concat(failure.as_str());
                self.turn_back(ApplyError::Transaction(detail));
            },
        }
    }

    /// The script that switches the plan's desktop to the daemon's plugin. It
    /// carries nothing but the desktop and that plugin.
    pub fn switch_script(&self) -> (text: String)
        ensures
            text@ == script::apply_text(self.plan.desktop_index as nat, KWE_PLUGIN@),
    {
        proof {
            lemma_kwe_is_identity();
        }
        match apply_script(self.plan.desktop_index, KWE_PLUGIN) {
            Ok(text) => text,
            Err(error) => error,
        }
    }

    /// Takes what the switch script came to.
    pub fn switched(&mut self, result: Result<(), ProbeError>)
        requires
            old(self).wf(),
            old(self).stage == Stage::Switching,
        ensures
            final(self).wf(),
            may_follow(old(self).stage, final(self).stage),
            match result {
                Ok(()) => Self::went_on(old(self), final(self), Stage::Verifying),
                Err(failure) => Self::turned_back(old(self), final(self)) && if failure is Unreachable {
                    final(self).error matches Some(error) && error is ShellUnreachable
                        && error.text() == Some(failure.text())
                } else {
                    final(self).step_failed("wallpaper switch failed: "@ + failure.text())
                },
            },
    {
        match result {
            Ok(()) => {
                self.stage = Stage::Verifying;
            },
            Err(failure) => {
                let error = switch_error(failure);
                self.turn_back(error);
            },
        }
    }

    /// Takes the enumeration made after the switch.
    pub fn verified(&mut self, enumerated: Result<Vec<OutputInfo>, ApplyError>)
        requires
            old(self).wf(),
            old(self).stage == Stage::Verifying,
        ensures
            final(self).wf(),
            may_follow(old(self).stage, final(self).stage),
            match enumerated {
                Err(failure) => Self::turned_back(old(self), final(self)) && final(self).error
                    == Some(failure),
                Ok(outputs) => match apply::switch_refusal(
                    outputs@,
                    old(self).plan.output_name@,
                    old(self).plan.desktop_index,
                ) {
                    None => Self::went_on(old(self), final(self), Stage::Done),
                    Some(detail) => Self::turned_back(old(self), final(self)) && final(self).step_failed(detail),
                },
            },
    {
        match enumerated {
            Ok(outputs) => match verify_switch(
                &outputs,
                self.plan.output_name.as_str(),
                self.plan.desktop_index,
            ) {
                Ok(()) => {
                    self.stage = Stage::Done;
                },
                Err(error) => self.turn_back(error),
            },
            Err(failure) => self.turn_back(failure),
        }
    }

    /// Takes a look at whose renderer it is: only ours is stopped. Without an
    /// answer nothing is stopped.
    pub fn looked_for_rollback(&mut self, answer: Result<WorkerStatus, String>)
        requires
            old(self).wf(),
            old(self).stage == Stage::RollbackLooking,
        ensures
            final(self).wf(),
            may_follow(old(self).stage, final(self).stage),
            Self::went_on(
                old(self),
                final(self),
                if answer matches Ok(status) && apply::is_ours(
                    status,
                    old(self).id(),
                    old(self).hash(),
                ) {
                    Stage::RollbackStopping
                } else {
                    Stage::RollbackStore
                },
            ),
    {
        let ours: bool = match &answer {
            Ok(status) => status_is_ours(
                status,
                self.plan.spec.wallpaper_id.as_str(),
                self.plan.spec.content_hash.as_str(),
            ),
            Err(_) => false,
        };
        if ours {
            self.stage = Stage::RollbackStopping;
        } else {
            self.stage = Stage::RollbackStore;
        }
    }

    /// Our renderer was told to stop, whatever came of it.
    pub fn stopped_for_rollback(&mut self)
        requires
            old(self).wf(),
            old(self).stage == Stage::RollbackStopping,
        ensures
            final(self).wf(),
            may_follow(old(self).stage, final(self).stage),
            Self::went_on(old(self), final(self), Stage::RollbackStore),
    {
        self.stage = Stage::RollbackStore;
    }

    /// The record that the store goes back to; without one the output's record
    /// is removed.
    pub fn rollback_record(&self) -> (record: Option<Assignment>)
        ensures
            gives_back(self.plan, record),
    {
        match &self.plan.old_assignment {
            Some(kept) => Some(kept.clone()),
            None => None,
        }
    }

    /// The store was told to go back, whatever came of it.
    pub fn reverted_store(&mut self)
        requires
            old(self).wf(),
            old(self).stage == Stage::RollbackStore,
        ensures
            final(self).wf(),
            may_follow(old(self).stage, final(self).stage),
            Self::went_on(old(self), final(self), Stage::Failed),
    {
        self.stage = Stage::Failed;
    }

    /// What a finished transaction is answered: the record, or the error.
    pub fn outcome(self, unix_seconds: u64) -> (outcome: Result<(String, Assignment), ApplyError>)
        requires
            self.wf(),
            self.stage == Stage::Done || self.stage == Stage::Failed,
        ensures
            match outcome {
                Ok((output, assignment)) => self.stage == Stage::Done && output
                    == self.plan.output_name && assignment@ == self.record(unix_seconds),
                Err(error) => self.stage == Stage::Failed && self.error == Some(error),
            },
    {
        let assignment = self.assignment(unix_seconds);
        match self.error {
            Some(error) => Err(error),
            None => Ok((self.plan.output_name, assignment)),
        }
    }
}

proof fn lemma_kwe_is_identity()
    ensures
        identity::valid_identity(KWE_PLUGIN@),
{
    reveal_strlit("org.kde.kwe.wallpaper");
}

// ---------------------------------------------------------------------------
// Laws
// ---------------------------------------------------------------------------

/// A run of the transaction: the stages that it goes through, one after the
/// other.
pub open spec fn is_run(stages: Seq<Stage>) -> bool {
    stages.len() > 0 && stages[0] == Stage::Starting && forall|i: int|
        0 < i < stages.len() ==> may_follow(stages[i - 1], #[trigger] stages[i])
}

/// The desktop is switched only after the record was stored, the record is
/// stored only after the last look at the owner, and that look comes only after
/// our renderer was promoted.
pub proof fn law_switch_comes_last(stages: Seq<Stage>, i: int)
    requires
        is_run(stages),
        0 <= i < stages.len(),
    ensures
        stages[i] == Stage::Switching ==> i > 0 && stages[i - 1] == Stage::Persisting,
        stages[i] == Stage::Persisting ==> i > 0 && stages[i - 1] == Stage::CheckingOwner,
        stages[i] == Stage::CheckingOwner ==> i > 0 && stages[i - 1] == Stage::Waiting,
        stages[i] == Stage::Done ==> i > 0 && stages[i - 1] == Stage::Verifying,
{
    if i > 0 {
        assert(may_follow(stages[i - 1], stages[i]));
    }
}

/// A failed transaction has gone through its whole rollback, and a completed
/// one through none of it.
pub proof fn law_failure_always_rolls_back(stages: Seq<Stage>, i: int)
    requires
        is_run(stages),
        0 <= i < stages.len(),
    ensures
        stages[i] == Stage::Failed ==> i > 1 && stages[i - 1] == Stage::RollbackStore && (stages[i
            - 2] == Stage::RollbackLooking || (i > 2 && stages[i - 2] == Stage::RollbackStopping
            && stages[i - 3] == Stage::RollbackLooking)),
        stages[i] == Stage::Done ==> forall|j: int|
            0 <= j < i ==> #[trigger] stages[j] != Stage::RollbackLooking,
{
    if i > 0 {
        assert(may_follow(stages[i - 1], stages[i]));
        if i > 1 {
            assert(may_follow(stages[i - 2], stages[i - 1]));
            if i > 2 {
                assert(may_follow(stages[i - 3], stages[i - 2]));
            }
        }
    }
    if stages[i] == Stage::Done {
        lemma_forward_only(stages, i);
    }
}

spec fn going_forward(stage: Stage) -> bool {
    stage == Stage::Starting || stage == Stage::Waiting || stage == Stage::CheckingOwner || stage
        == Stage::Persisting || stage == Stage::Switching || stage == Stage::Verifying || stage
        == Stage::Done
}

proof fn lemma_forward_only(stages: Seq<Stage>, i: int)
    requires
        is_run(stages),
        0 <= i < stages.len(),
        going_forward(stages[i]),
    ensures
        forall|j: int| 0 <= j <= i ==> going_forward(#[trigger] stages[j]),
    decreases i,
{
    if i > 0 {
        assert(may_follow(stages[i - 1], stages[i]));
        lemma_forward_only(stages, i - 1);
    }
}

/// What a store says of each output, apart from the representation.
pub open spec fn record_views(records: Map<Seq<char>, Assignment>) -> Map<
    Seq<char>,
    assignments::AssignmentView,
> {
    records.map_values(|record: Assignment| record@)
}

/// The plan holds on to what the store said of its output before.
pub open spec fn remembers(plan: ApplyPlan, before: Map<Seq<char>, Assignment>) -> bool {
    match plan.old_assignment {
        Some(kept) => before.contains_key(plan.output_name@) && kept@
            == before[plan.output_name@]@,
        None => !before.contains_key(plan.output_name@),
    }
}

/// The record that is given back is the one that the plan holds on to.
pub open spec fn gives_back(plan: ApplyPlan, restored: Option<Assignment>) -> bool {
    match restored {
        Some(copy) => plan.old_assignment matches Some(kept) && copy@ == kept@,
        None => plan.old_assignment is None,
    }
}

/// A failed apply leaves the store as it was, whether or not its own record got
/// in: `during` is the store at the rollback and `after` what the store holds
/// once the record was put back, or taken away where there was none. A record
/// that is put back is never refused.
pub proof fn law_failed_apply_leaves_the_store(
    plan: ApplyPlan,
    before: Map<Seq<char>, Assignment>,
    during: Map<Seq<char>, Assignment>,
    restored: Option<Assignment>,
    after: Map<Seq<char>, Assignment>,
)
    requires
        assignments::valid_records(before),
        remembers(plan, before),
        during == before || during == before.insert(
            plan.output_name@,
            during[plan.output_name@],
        ),
        gives_back(plan, restored),
        match restored {
            Some(copy) => after == during.insert(plan.output_name@, copy),
            None => after == during.remove(plan.output_name@),
        },
    ensures
        record_views(after) == record_views(before),
        restored matches Some(copy) ==> assignments::accepts(during, plan.output_name@, copy@),
{
    assert(record_views(after) =~= record_views(before));
}

} // verus!
