//! What the stages of an apply and of a restore promise: from the request to the
//! record that is stored, and from the record back to the desktop.
//!
//! Each law speaks of what a step may leave behind.

use vstd::prelude::*;

use crate::apply::{ApplyError, ApplyWallpaperParams};
use crate::assignments::{Assignment, PreviousWallpaper};
use crate::gate::Inspection;
use crate::laws_apply::{
    asked_for, can_run, content_is, follows, held_by, is_listed, runs, same_option, same_previous,
    same_texts,
};
use crate::macos_desktop::{parse_switch_script, SwitchCommand};
use crate::model::{CatalogItem, ContentSpec, RendererKind, ScalingMode, WorkerPhase, WorkerStatus};
use crate::names::NameMap;
use crate::prepare::{Preparation, PrepareStage};
use crate::probe::{OutputInfo, ProbeError};
use crate::restore::{Restore, RestoreStage};
use crate::transaction::{ApplyPlan, ApplyTransaction, Stage};

verus! {

// ---------------------------------------------------------------------------
// Preparing
// ---------------------------------------------------------------------------

/// A preparation begins with the request as it is. While another transaction
/// runs, it is refused as busy.
pub proof fn law_preparation_begins_with_the_request(
    params: ApplyWallpaperParams,
    lock_free: bool,
    begun: Result<Preparation, ApplyError>,
)
    requires
        call_ensures(Preparation::begin, (params, lock_free), begun),
    ensures
        !lock_free ==> begun is Err && begun->Err_0 is Busy,
        match begun {
            Ok(preparation) => {
                &&& preparation.output_name@ == params.output@
                &&& preparation.kind == params.kind
                &&& preparation.spec.kind == params.kind
                &&& preparation.spec.wallpaper_id@ == params.wallpaper_id@
                &&& preparation.spec.fps == params.fps
                &&& preparation.spec.scaling == params.scaling
                &&& preparation.width == params.width
                &&& preparation.height == params.height
                &&& preparation.retry == params.retry
                &&& !preparation.follows_output
                &&& same_option(preparation.named_content, params.content)
                &&& params.kind != RendererKind::Test
                &&& preparation.stage == PrepareStage::PreflightClient <==> params.content is Some
                &&& preparation.stage == PrepareStage::Lookup <==> params.content is None
            },
            Err(error) => error is Busy || (lock_free && error is Invalid && (params.kind
                == RendererKind::Test || (params.content is Some && !(1
                <= params.content->0@.len() <= 4096)))),
        },
{
}

/// A playlist entry steps back exactly for a renderer of somebody else's that
/// is live: one that runs, is asked for another wallpaper than the entry, and
/// not for the one that the playlist applied last.
pub proof fn law_playlist_steps_back_for_others(
    id: String,
    lock_free: bool,
    status: Option<&WorkerStatus>,
    applied: Option<&str>,
    begun: Result<Preparation, ApplyError>,
)
    requires
        call_ensures(Preparation::begin_playlist, (id, lock_free, status, applied), begun),
    ensures
        !lock_free ==> begun is Err && begun->Err_0 is Busy,
        lock_free && status is None ==> begun is Ok,
        lock_free && status is Some ==> {
            let seen = *status->0;
            let live = seen.phase == WorkerPhase::Starting || seen.phase == WorkerPhase::Canary
                || seen.phase == WorkerPhase::Live || seen.phase == WorkerPhase::AwaitingAck
                || seen.phase == WorkerPhase::Restarting || seen.phase == WorkerPhase::RolledBack;
            let entry = seen.requested_wallpaper_id is Some
                && seen.requested_wallpaper_id->0@ == id@;
            let own = match (seen.requested_wallpaper_id, applied) {
                (Some(asked), Some(last)) => asked@ == last@,
                (None, None) => true,
                _ => false,
            };
            begun is Err <==> live && !entry && !own
        },
        begun matches Ok(preparation) ==> {
            &&& preparation.spec.wallpaper_id@ == id@
            &&& preparation.follows_output
            &&& !preparation.retry
            &&& preparation.stage == PrepareStage::ResolvingOutput
        },
{
}

/// The lookup settles what is run: the item of that id, its kind, and the
/// item's own content. A request whose kind is another, or an id that nothing
/// usable has, is refused.
pub proof fn law_lookup_settles_kind_and_content(
    preparation: &mut Preparation,
    items: &Vec<CatalogItem>,
)
    requires
        call_ensures(Preparation::looked_up, (preparation, items), ()),
    ensures
        final(preparation).stage == PrepareStage::Canonicalizing || final(preparation).stage
            == PrepareStage::Refused,
        final(preparation).stage == PrepareStage::Canonicalizing ==> {
            let after = *final(preparation);
            &&& after.item is Some
            &&& can_run(after.item->0)
            &&& items@.contains(after.item->0)
            &&& after.item->0.workshop_id@ == old(preparation).spec.wallpaper_id@
            &&& runs(after.item->0.kind, after.kind)
            &&& after.spec.kind == after.kind
            &&& !old(preparation).follows_output ==> after.kind == old(preparation).kind
            &&& after.kind == RendererKind::Web ==> after.content@ == after.item->0.content_root@
            &&& after.kind != RendererKind::Web && after.item->0.entry_file is Some
                ==> after.content@ == after.item->0.entry_file->0@
            &&& after.spec.wallpaper_id == old(preparation).spec.wallpaper_id
            &&& after.output_name == old(preparation).output_name
        },
        final(preparation).stage == PrepareStage::Refused ==> {
            let after = *final(preparation);
            &&& after.error is Some
            &&& after.error->0 is UnknownWallpaper || after.error->0 is Incompatible
            &&& after.error->0 is Incompatible ==> !old(preparation).follows_output
        },
{
    lemma_position(items@, preparation.spec.wallpaper_id@, 0);
}

proof fn lemma_position(items: Seq<CatalogItem>, id: Seq<char>, from: nat)
    requires
        from <= items.len(),
    ensures
        ({
            let at = crate::apply::item_position(items, id, from);
            from <= at <= items.len() && (at < items.len() ==> items[at as int].workshop_id@ == id
                && items.contains(items[at as int]))
        }),
    decreases items.len() - from,
{
    if from < items.len() && items[from as int].workshop_id@ != id {
        lemma_position(items, id, from + 1);
    }
}

/// What a plan is made of does not change on the way to it.
pub open spec fn same_work(before: Preparation, after: Preparation) -> bool {
    &&& after.kind == before.kind
    &&& after.content == before.content
    &&& after.output_name == before.output_name
    &&& after.retry == before.retry
    &&& after.follows_output == before.follows_output
    &&& after.spec.kind == before.spec.kind
    &&& after.spec.wallpaper_id == before.spec.wallpaper_id
}

/// From the canonical paths on, the start spec runs the item's own content:
/// the content of the preparation, as the preparation's kind.
pub proof fn law_start_runs_the_items_content(
    preparation: &mut Preparation,
    client: Option<String>,
    catalog: Option<String>,
)
    requires
        call_ensures(Preparation::canonicalized, (preparation, client, catalog), ()),
    ensures
        final(preparation).stage == PrepareStage::PreflightCatalog || final(preparation).stage
            == PrepareStage::Refused,
        final(preparation).stage == PrepareStage::PreflightCatalog ==> {
            let after = *final(preparation);
            &&& same_work(*old(preparation), after)
            &&& after.spec.content is Some
            &&& content_is(after.spec.content->0, after.kind, after.content@)
            &&& old(preparation).named_content is Some ==> same_option(client, catalog)
            &&& after.content@.len() <= 4096
        },
        final(preparation).stage == PrepareStage::Refused ==> {
            &&& final(preparation).error is Some && final(preparation).error->0 is Invalid
            &&& (old(preparation).named_content is Some && !same_option(client, catalog))
                || old(preparation).content@.len() > 4096
        },
{
}

/// A preflight that passes settles the content's identity and nothing else; one
/// that fails refuses the request.
pub proof fn law_preflight_settles_the_identity(
    preparation: &mut Preparation,
    result: Result<(), String>,
    path: &[u8],
)
    requires
        call_ensures(Preparation::catalog_preflighted, (preparation, result, path), ()),
    ensures
        result is Err ==> final(preparation).stage == PrepareStage::Refused,
        result is Ok ==> {
            let after = *final(preparation);
            &&& after.stage == PrepareStage::Enumerating
            &&& same_work(*old(preparation), after)
            &&& after.spec.content == old(preparation).spec.content
            &&& after.spec.fps == old(preparation).spec.fps
            &&& after.spec.scaling == old(preparation).spec.scaling
            &&& old(preparation).item is Some && old(preparation).item->0.metadata_hash is Some
                ==> after.spec.content_hash@ == old(preparation).item->0.metadata_hash->0@
        },
{
}

/// The enumeration settles where an apply goes and how large it is: the desktop
/// of the first output of the name, what the user had there, and the record
/// that survives a failure. Pinned edges are kept and free ones follow that
/// output. A playlist entry takes the scaling and a sound frame rate from the
/// output's record; a request keeps its own.
pub proof fn law_enumeration_settles_the_target(
    preparation: &mut Preparation,
    enumerated: Result<Vec<OutputInfo>, ApplyError>,
    stored: Option<&Assignment>,
)
    requires
        call_ensures(Preparation::enumerated, (preparation, enumerated, stored), ()),
        final(preparation).stage != PrepareStage::Refused,
    ensures
        enumerated is Ok,
        is_listed(enumerated->Ok_0@, old(preparation).output_name@),
        final(preparation).stage == (if old(preparation).kind == RendererKind::Scene {
            PrepareStage::Inspecting
        } else {
            PrepareStage::Ready
        }),
        same_work(*old(preparation), *final(preparation)),
        final(preparation).spec.content == old(preparation).spec.content,
        final(preparation).spec.content_hash == old(preparation).spec.content_hash,
        exists|i: int|
            {
                &&& 0 <= i < enumerated->Ok_0@.len()
                &&& settled_on(
                    *old(preparation),
                    #[trigger] enumerated->Ok_0@[i],
                    stored,
                    *final(preparation),
                )
                &&& forall|j: int|
                    0 <= j < i ==> (#[trigger] enumerated->Ok_0@[j]).name@
                        != old(preparation).output_name@
            },
{
    let outputs = enumerated->Ok_0@;
    let name = preparation.output_name@;
    lemma_output(outputs, name, 0);
    let at = crate::apply::output_position(outputs, name, 0);
    assert(at < outputs.len());
    let after = *final(preparation);
    let output = outputs[at as int];
    let target = after.target->0;
    if output.wallpaper_plugin is Some && output.wallpaper_plugin->0@ == "org.kde.kwe.wallpaper"@
        && stored is Some && stored->0.previous is Some {
        lemma_texts(target.previous.config_group@, stored->0.previous->0.config_group@);
    } else {
        lemma_texts(target.previous.config_group@, output.config_group@);
    }
    if target.old_assignment is Some {
        lemma_records(target.old_assignment->0, *stored->0);
    }
    if output.geometry is Some && output.geometry->0@[2] > 0 && output.geometry->0@[3] > 0 {
        let out_w = output.geometry->0@[2] as int;
        let out_h = output.geometry->0@[3] as int;
        if out_w > 2560 || out_h > 2560 {
            let long = if out_w > out_h {
                out_w
            } else {
                out_h
            };
            crate::laws_apply::lemma_scaled(out_w, long);
            crate::laws_apply::lemma_scaled(out_h, long);
        }
    }
    assert(settled_on(*preparation, outputs[at as int], stored, after));
}

/// The preparation is settled on this output.
pub open spec fn settled_on(
    before: Preparation,
    output: OutputInfo,
    stored: Option<&Assignment>,
    after: Preparation,
) -> bool {
    &&& output.name@ == before.output_name@
    &&& after.target is Some
    &&& output.desktop_index == Some(after.target->0.desktop_index)
    &&& match (after.target->0.old_assignment, stored) {
        (Some(kept), Some(record)) => same_record(kept, *record),
        (None, None) => true,
        _ => false,
    }
    &&& if output.wallpaper_plugin is Some && output.wallpaper_plugin->0@
        == "org.kde.kwe.wallpaper"@ && stored is Some && stored->0.previous is Some {
        same_previous(after.target->0.previous, stored->0.previous->0)
    } else {
        crate::laws_apply::is_shown(output, after.target->0.previous)
    }
    &&& before.width is Some ==> after.spec.width == before.width->0
    &&& before.height is Some ==> after.spec.height == before.height->0
    &&& sized_for(before.width, before.height, output.geometry, after.spec.width, after.spec.height)
    &&& !before.follows_output ==> after.spec.fps == before.spec.fps && after.spec.scaling
        == before.spec.scaling
    &&& before.follows_output ==> match stored {
        Some(record) => {
            &&& after.spec.scaling == record.scaling
            &&& 1 <= record.fps <= 240 ==> after.spec.fps == record.fps
            &&& !(1 <= record.fps <= 240) ==> after.spec.fps == before.spec.fps
        },
        None => after.spec.scaling == ScalingMode::Aspect && after.spec.fps == before.spec.fps,
    }
}

/// The free edges are those of an output with this geometry.
pub open spec fn sized_for(
    width: Option<u32>,
    height: Option<u32>,
    geometry: Option<[i32; 4]>,
    w: u32,
    h: u32,
) -> bool {
    if geometry is None || geometry->0@[2] <= 0 || geometry->0@[3] <= 0 {
        (width is None ==> w == 960) && (height is None ==> h == 540)
    } else {
        let out_w = geometry->0@[2] as int;
        let out_h = geometry->0@[3] as int;
        if out_w <= 2560 && out_h <= 2560 {
            &&& width is None ==> w == if out_w < 64 {
                64
            } else {
                out_w
            }
            &&& height is None ==> h == if out_h < 64 {
                64
            } else {
                out_h
            }
        } else {
            &&& width is None ==> follows(w as int, out_w, out_h)
            &&& height is None ==> follows(h as int, out_h, out_w)
        }
    }
}

/// Both records say the same, field by field.
pub open spec fn same_record(a: Assignment, b: Assignment) -> bool {
    &&& a.wallpaper_id@ == b.wallpaper_id@
    &&& a.kind == b.kind
    &&& a.content@ == b.content@
    &&& a.width == b.width
    &&& a.height == b.height
    &&& a.fps == b.fps
    &&& a.scaling == b.scaling
    &&& a.applied_at_unix_seconds == b.applied_at_unix_seconds
    &&& match (a.previous, b.previous) {
        (Some(x), Some(y)) => same_previous(x, y),
        (None, None) => true,
        _ => false,
    }
}

proof fn lemma_texts(a: Seq<String>, b: Seq<String>)
    ensures
        crate::text::views(a) == crate::text::views(b) ==> same_texts(a, b),
{
    if crate::text::views(a) == crate::text::views(b) {
        assert(crate::text::views(a).len() == a.len() && crate::text::views(b).len() == b.len());
        assert forall|i: int| 0 <= i < a.len() implies (#[trigger] a[i])@ == b[i]@ by {
            assert(crate::text::views(a)[i] == a[i]@);
            assert(crate::text::views(b)[i] == b[i]@);
        }
    }
}

proof fn lemma_previous(a: PreviousWallpaper, b: PreviousWallpaper)
    ensures
        a@ == b@ ==> same_previous(a, b),
{
    lemma_texts(a.config_group@, b.config_group@);
}

proof fn lemma_records(a: Assignment, b: Assignment)
    ensures
        a@ == b@ ==> same_record(a, b),
{
    if a.previous is Some && b.previous is Some {
        lemma_previous(a.previous->0, b.previous->0);
    }
}

proof fn lemma_output(outputs: Seq<OutputInfo>, name: Seq<char>, from: nat)
    requires
        from <= outputs.len(),
    ensures
        ({
            let at = crate::apply::output_position(outputs, name, from);
            &&& from <= at <= outputs.len()
            &&& at < outputs.len() ==> outputs[at as int].name@ == name
            &&& forall|j: int| from <= j < at ==> (#[trigger] outputs[j]).name@ != name
        }),
    decreases outputs.len() - from,
{
    if from < outputs.len() && outputs[from as int].name@ != name {
        lemma_output(outputs, name, from + 1);
    }
}

/// An inspection changes nothing that is run, only what is known to be missing.
pub proof fn law_inspection_changes_no_work(
    preparation: &mut Preparation,
    inspection: Inspection,
    supported: &NameMap<()>,
    tolerated: &NameMap<()>,
)
    requires
        call_ensures(Preparation::inspected, (preparation, inspection, supported, tolerated), ()),
    ensures
        final(preparation).stage == PrepareStage::Ready || final(preparation).stage
            == PrepareStage::Refused,
        final(preparation).stage == PrepareStage::Ready ==> {
            let after = *final(preparation);
            &&& same_work(*old(preparation), after)
            &&& after.spec.content == old(preparation).spec.content
            &&& after.spec.content_hash == old(preparation).spec.content_hash
            &&& after.spec.width == old(preparation).spec.width
            &&& after.spec.height == old(preparation).spec.height
            &&& after.spec.fps == old(preparation).spec.fps
            &&& after.spec.scaling == old(preparation).spec.scaling
            &&& after.target == old(preparation).target
        },
        final(preparation).stage == PrepareStage::Refused ==> final(preparation).error is Some
            && final(preparation).error->0 is CapabilityGate,
{
}

/// A plan is what was prepared.
pub proof fn law_plan_is_what_was_prepared(
    preparation: Preparation,
    made: Result<ApplyPlan, ApplyError>,
)
    requires
        call_ensures(Preparation::into_plan, (preparation,), made),
    ensures
        match made {
            Ok(plan) => {
                &&& preparation.stage == PrepareStage::Ready
                &&& plan.spec == preparation.spec
                &&& plan.content@ == preparation.content@
                &&& plan.output_name@ == preparation.output_name@
                &&& plan.retry == preparation.retry
                &&& preparation.target is Some
                &&& plan.desktop_index == preparation.target->0.desktop_index
                &&& plan.previous == preparation.target->0.previous
                &&& plan.old_assignment == preparation.target->0.old_assignment
            },
            Err(error) => preparation.error == Some(error),
        },
{
}

/// The record that an apply stores and answers says what its renderer was
/// started with: `canonical`, `preflighted` and `enumerated` are the preparation
/// at those steps, `ready` the one that the plan was made of.
pub proof fn law_record_says_what_the_renderer_runs(
    canonical: &mut Preparation,
    client: Option<String>,
    catalog: Option<String>,
    preflighted: &mut Preparation,
    result: Result<(), String>,
    path: &[u8],
    placed: &mut Preparation,
    enumerated: Result<Vec<OutputInfo>, ApplyError>,
    stored: Option<&Assignment>,
    looked_at: &mut Preparation,
    inspection: Inspection,
    supported: &NameMap<()>,
    tolerated: &NameMap<()>,
    ready: Preparation,
    plan: ApplyPlan,
    run: ApplyTransaction,
    unix_seconds: u64,
    record: Assignment,
)
    requires
        call_ensures(Preparation::canonicalized, (canonical, client, catalog), ()),
        final(canonical).stage == PrepareStage::PreflightCatalog,
        *preflighted == *final(canonical),
        call_ensures(Preparation::catalog_preflighted, (preflighted, result, path), ()),
        result is Ok,
        *placed == *final(preflighted),
        call_ensures(Preparation::enumerated, (placed, enumerated, stored), ()),
        final(placed).stage != PrepareStage::Refused,
        final(placed).stage == PrepareStage::Inspecting ==> *looked_at == *final(placed)
            && call_ensures(
            Preparation::inspected,
            (looked_at, inspection, supported, tolerated),
            (),
        ) && final(looked_at).stage == PrepareStage::Ready,
        ready == (if final(placed).stage == PrepareStage::Inspecting {
            *final(looked_at)
        } else {
            *final(placed)
        }),
        call_ensures(Preparation::into_plan, (ready,), Ok(plan)),
        run.plan == plan,
        call_ensures(ApplyTransaction::assignment, (&run, unix_seconds), record),
    ensures
        plan.spec.content is Some,
        content_is(plan.spec.content->0, old(canonical).kind, record.content@),
        record.content@ == old(canonical).content@,
        record.wallpaper_id@ == plan.spec.wallpaper_id@,
        record.kind == plan.spec.kind,
        record.width == plan.spec.width,
        record.height == plan.spec.height,
        record.fps == plan.spec.fps,
        record.scaling == plan.spec.scaling,
        record.applied_at_unix_seconds == unix_seconds,
        record.previous is Some,
        same_previous(record.previous->0, plan.previous),
{
    law_start_runs_the_items_content(canonical, client, catalog);
    law_preflight_settles_the_identity(preflighted, result, path);
    law_enumeration_settles_the_target(placed, enumerated, stored);
    if final(placed).stage == PrepareStage::Inspecting {
        law_inspection_changes_no_work(looked_at, inspection, supported, tolerated);
    }
    law_plan_is_what_was_prepared(ready, Ok(plan));
    law_record_is_the_plan(run, unix_seconds, record);
}

// ---------------------------------------------------------------------------
// The transaction
// ---------------------------------------------------------------------------

/// The record of a transaction, field by field: what the start spec holds, the
/// content of the plan, the time, and what stood there before.
pub proof fn law_record_is_the_plan(run: ApplyTransaction, unix_seconds: u64, record: Assignment)
    requires
        call_ensures(ApplyTransaction::assignment, (&run, unix_seconds), record),
    ensures
        record.wallpaper_id@ == run.plan.spec.wallpaper_id@,
        record.kind == run.plan.spec.kind,
        record.content@ == run.plan.content@,
        record.width == run.plan.spec.width,
        record.height == run.plan.spec.height,
        record.fps == run.plan.spec.fps,
        record.scaling == run.plan.spec.scaling,
        record.applied_at_unix_seconds == unix_seconds,
        record.previous is Some,
        same_previous(record.previous->0, run.plan.previous),
{
    lemma_previous(record.previous->0, run.plan.previous);
}

/// A transaction that is done answers its output and that very record; one that
/// failed answers its error.
pub proof fn law_outcome_is_the_record_or_the_error(
    run: ApplyTransaction,
    unix_seconds: u64,
    outcome: Result<(String, Assignment), ApplyError>,
)
    requires
        call_ensures(ApplyTransaction::outcome, (run, unix_seconds), outcome),
    ensures
        match outcome {
            Ok((output, record)) => {
                &&& run.stage == Stage::Done
                &&& output@ == run.plan.output_name@
                &&& record.wallpaper_id@ == run.plan.spec.wallpaper_id@
                &&& record.kind == run.plan.spec.kind
                &&& record.content@ == run.plan.content@
                &&& record.width == run.plan.spec.width
                &&& record.height == run.plan.spec.height
                &&& record.fps == run.plan.spec.fps
                &&& record.scaling == run.plan.spec.scaling
                &&& record.applied_at_unix_seconds == unix_seconds
                &&& record.previous is Some && same_previous(
                    record.previous->0,
                    run.plan.previous,
                )
            },
            Err(error) => run.stage == Stage::Failed && run.error == Some(error),
        },
{
    if outcome is Ok {
        lemma_previous(outcome->Ok_0.1.previous->0, run.plan.previous);
    }
}

/// The step went wrong and the rollback begins, with the plan as it was.
pub open spec fn rolls_back(before: ApplyTransaction, after: ApplyTransaction) -> bool {
    after.stage == Stage::RollbackLooking && after.plan == before.plan && after.error is Some
}

/// The step went well: the stage is the next one, and the plan as it was.
pub open spec fn goes_on(before: ApplyTransaction, after: ApplyTransaction, next: Stage) -> bool {
    after.stage == next && after.plan == before.plan
}

/// A start that is answered and not refused is waited for from now on; any
/// other one is rolled back.
pub proof fn law_started_renderer_is_waited_for(
    run: &mut ApplyTransaction,
    answer: Result<WorkerStatus, String>,
    now_ms: u64,
)
    requires
        call_ensures(ApplyTransaction::started, (run, answer, now_ms), ()),
    ensures
        if answer is Ok && answer->Ok_0.phase != WorkerPhase::Quarantined
            && answer->Ok_0.phase != WorkerPhase::RolledBack {
            goes_on(*old(run), *final(run), Stage::Waiting) && final(run).wait_started_ms == now_ms
        } else {
            rolls_back(*old(run), *final(run))
        },
        answer is Ok && answer->Ok_0.quarantined && final(run).stage == Stage::RollbackLooking
            ==> final(run).error->0 is Quarantined,
{
}

/// The wait ends with our renderer's promotion, and is rolled back when the
/// supervisor cannot be asked, runs somebody else's, reports a failure, or the
/// deadline has passed.
pub proof fn law_wait_is_bounded(
    run: &mut ApplyTransaction,
    answer: Result<WorkerStatus, String>,
    now_ms: u64,
)
    requires
        call_ensures(ApplyTransaction::polled, (run, answer, now_ms), ()),
    ensures
        answer is Err ==> rolls_back(*old(run), *final(run)),
        answer is Ok ==> {
            let status = answer->Ok_0;
            let ours = asked_for(
                status,
                old(run).plan.spec.wallpaper_id@,
                old(run).plan.spec.content_hash@,
            );
            let up = status.phase == WorkerPhase::Live || status.phase == WorkerPhase::AwaitingAck;
            let down = status.phase == WorkerPhase::RolledBack || status.phase
                == WorkerPhase::Quarantined || status.phase == WorkerPhase::Stopped;
            let overdue = now_ms >= old(run).wait_started_ms + old(run).promotion_timeout_ms;
            if ours && up {
                goes_on(*old(run), *final(run), Stage::CheckingOwner)
            } else if (!ours && status.phase != WorkerPhase::Idle) || down || overdue {
                rolls_back(*old(run), *final(run))
            } else {
                goes_on(*old(run), *final(run), Stage::Waiting)
            }
        },
{
}

/// Nothing is stored for a renderer that is not ours, and nothing is switched
/// before the record is stored.
pub proof fn law_steps_stand_on_each_other(
    checked: &mut ApplyTransaction,
    answer: Result<WorkerStatus, String>,
    stored: &mut ApplyTransaction,
    saved: Result<(), String>,
    switching: &mut ApplyTransaction,
    result: Result<(), ProbeError>,
)
    requires
        call_ensures(ApplyTransaction::owner_checked, (checked, answer), ()),
        call_ensures(ApplyTransaction::persisted, (stored, saved), ()),
        call_ensures(ApplyTransaction::switched, (switching, result), ()),
    ensures
        if answer is Ok && asked_for(
            answer->Ok_0,
            old(checked).plan.spec.wallpaper_id@,
            old(checked).plan.spec.content_hash@,
        ) {
            goes_on(*old(checked), *final(checked), Stage::Persisting)
        } else {
            rolls_back(*old(checked), *final(checked))
        },
        if saved is Ok {
            goes_on(*old(stored), *final(stored), Stage::Switching)
        } else {
            rolls_back(*old(stored), *final(stored)) && final(stored).error->0 is Transaction
        },
        if result is Ok {
            goes_on(*old(switching), *final(switching), Stage::Verifying)
        } else {
            rolls_back(*old(switching), *final(switching))
        },
{
}

/// A transaction is done only once a fresh enumeration shows the daemon's plugin
/// on the plan's output and desktop.
pub proof fn law_done_means_seen(
    run: &mut ApplyTransaction,
    enumerated: Result<Vec<OutputInfo>, ApplyError>,
)
    requires
        call_ensures(ApplyTransaction::verified, (run, enumerated), ()),
    ensures
        final(run).stage == Stage::Done <==> enumerated is Ok && exists|i: int|
            {
                &&& 0 <= i < enumerated->Ok_0@.len()
                &&& (#[trigger] enumerated->Ok_0@[i]).name@ == old(run).plan.output_name@
                &&& enumerated->Ok_0@[i].desktop_index == Some(old(run).plan.desktop_index)
                &&& enumerated->Ok_0@[i].wallpaper_plugin is Some
                &&& enumerated->Ok_0@[i].wallpaper_plugin->0@ == "org.kde.kwe.wallpaper"@
                &&& forall|j: int|
                    0 <= j < i ==> (#[trigger] enumerated->Ok_0@[j]).name@
                        != old(run).plan.output_name@
            },
        final(run).stage != Stage::Done ==> rolls_back(*old(run), *final(run)),
        final(run).plan == old(run).plan,
{
    if enumerated is Ok {
        lemma_output(enumerated->Ok_0@, run.plan.output_name@, 0);
    }
}

/// A rollback stops our own renderer and nobody else's, and then puts the
/// record back that was there before, or takes the new one away.
pub proof fn law_rollback_touches_only_what_is_ours(
    looking: &mut ApplyTransaction,
    answer: Result<WorkerStatus, String>,
    stopping: &mut ApplyTransaction,
    reverting: &mut ApplyTransaction,
    run: ApplyTransaction,
    record: Option<Assignment>,
)
    requires
        call_ensures(ApplyTransaction::looked_for_rollback, (looking, answer), ()),
        call_ensures(ApplyTransaction::stopped_for_rollback, (stopping,), ()),
        call_ensures(ApplyTransaction::reverted_store, (reverting,), ()),
        call_ensures(ApplyTransaction::rollback_record, (&run,), record),
    ensures
        final(looking).stage == Stage::RollbackStopping <==> answer is Ok && asked_for(
            answer->Ok_0,
            old(looking).plan.spec.wallpaper_id@,
            old(looking).plan.spec.content_hash@,
        ),
        final(looking).stage == Stage::RollbackStopping || final(looking).stage
            == Stage::RollbackStore,
        final(looking).plan == old(looking).plan && final(looking).error == old(looking).error,
        goes_on(*old(stopping), *final(stopping), Stage::RollbackStore),
        final(stopping).error == old(stopping).error,
        goes_on(*old(reverting), *final(reverting), Stage::Failed),
        final(reverting).error == old(reverting).error,
        match (record, run.plan.old_assignment) {
            (Some(back), Some(kept)) => same_record(back, kept),
            (None, None) => true,
            _ => false,
        },
{
    if record is Some {
        lemma_records(record->0, run.plan.old_assignment->0);
    }
}

/// The switch script, read back, puts the daemon's plugin on the plan's desktop
/// and leaves the image alone.
pub proof fn law_switch_script_is_the_plans(
    run: ApplyTransaction,
    text: String,
    read: Result<SwitchCommand, ProbeError>,
    script: &str,
)
    requires
        call_ensures(ApplyTransaction::switch_script, (&run,), text),
        script@ == text@,
        call_ensures(parse_switch_script, (script,), read),
    ensures
        read is Ok,
        read->Ok_0.desktop_index == run.plan.desktop_index,
        read->Ok_0.plugin@ == "org.kde.kwe.wallpaper"@,
        !read->Ok_0.touches_image,
{
    reveal_strlit("org.kde.kwe.wallpaper");
    crate::round_trip::law_apply_script_reads_back(
        run.plan.desktop_index as nat,
        "org.kde.kwe.wallpaper"@,
    );
}

// ---------------------------------------------------------------------------
// Restoring
// ---------------------------------------------------------------------------

/// A restore begins on the desktop of its output with the wallpaper that was
/// noted, or the stock image: its script, read back, says just that.
pub proof fn law_restore_begins_with_what_was_noted(
    output: String,
    enumerated: Result<Vec<OutputInfo>, ApplyError>,
    stored: Option<Assignment>,
    stock: Option<String>,
    begun: Result<Restore, ApplyError>,
)
    requires
        call_ensures(Restore::begin, (output, enumerated, stored, stock), begun),
        begun is Ok,
    ensures
        enumerated is Ok && is_listed(enumerated->Ok_0@, output@),
        begun->Ok_0.output_name@ == output@,
        begun->Ok_0.had_record == (stored is Some),
        begun->Ok_0.stage == RestoreStage::Switching,
        if stored is Some && stored->0.previous is Some
            && stored->0.previous->0.wallpaper_plugin@ != "org.kde.kwe.wallpaper"@ {
            let saved = stored->0.previous->0;
            &&& begun->Ok_0.target.wallpaper_plugin@ == saved.wallpaper_plugin@
            &&& same_texts(begun->Ok_0.target.config_group@, saved.config_group@)
            &&& same_option(begun->Ok_0.target.image, saved.image)
        } else {
            &&& begun->Ok_0.target.wallpaper_plugin@ == "org.kde.image"@
            &&& same_option(begun->Ok_0.target.image, stock)
        },
{
    lemma_output(enumerated->Ok_0@, output@, 0);
    if stored is Some && stored->0.previous is Some && stored->0.previous->0.wallpaper_plugin@
        != "org.kde.kwe.wallpaper"@ {
        lemma_texts(begun->Ok_0.target.config_group@, stored->0.previous->0.config_group@);
    }
}

/// The record of a restored output is cleared only after a fresh enumeration
/// shows the restored plugin on it; a failed script or a failed look keeps the
/// restore where it was.
pub proof fn law_record_is_cleared_after_the_look(
    switching: &mut Restore,
    result: Result<(), ProbeError>,
    next: Result<(), ApplyError>,
    verifying: &mut Restore,
    enumerated: Result<Vec<OutputInfo>, ApplyError>,
    answer: Result<(), ApplyError>,
)
    requires
        call_ensures(Restore::switched, (switching, result), next),
        call_ensures(Restore::verified, (verifying, enumerated), answer),
    ensures
        next is Ok <==> result is Ok,
        result is Ok ==> final(switching).stage == RestoreStage::Verifying,
        result is Err ==> final(switching).stage == old(switching).stage,
        answer is Ok <==> enumerated is Ok && exists|i: int|
            {
                &&& 0 <= i < enumerated->Ok_0@.len()
                &&& (#[trigger] enumerated->Ok_0@[i]).name@ == old(verifying).output_name@
                &&& enumerated->Ok_0@[i].wallpaper_plugin is Some
                &&& enumerated->Ok_0@[i].wallpaper_plugin->0@
                    == old(verifying).target.wallpaper_plugin@
                &&& forall|j: int|
                    0 <= j < i ==> (#[trigger] enumerated->Ok_0@[j]).name@
                        != old(verifying).output_name@
            },
        answer is Ok ==> final(verifying).stage == (if old(verifying).had_record {
            RestoreStage::Clearing
        } else {
            RestoreStage::Done
        }),
        answer is Err ==> final(verifying).stage == old(verifying).stage,
{
    if enumerated is Ok {
        lemma_output(enumerated->Ok_0@, verifying.output_name@, 0);
    }
}

// ---------------------------------------------------------------------------
// Single steps
// ---------------------------------------------------------------------------

/// Content that the client named and that passed its look is looked up; content
/// that did not is refused with what was found. Nothing else of the request
/// changes.
pub proof fn law_named_content_is_looked_at_first(
    run: &mut Preparation,
    result: Result<(), String>,
)
    requires
        call_ensures(Preparation::client_preflighted, (run, result), ()),
    ensures
        result is Ok <==> final(run).stage == PrepareStage::Lookup,
        result is Err <==> final(run).stage == PrepareStage::Refused,
        result is Err ==> final(run).error is Some && final(run).error->0 is Invalid
            && final(run).error->0->Invalid_0@ == result->Err_0@,
        final(run).output_name == old(run).output_name,
        result is Ok ==> final(run).spec == old(run).spec && final(run).kind == old(run).kind,
{
}

/// A playlist's wallpaper goes to the output that was resolved for it; without
/// one it is refused with the reason. What is applied does not change.
pub proof fn law_playlist_goes_where_it_was_resolved(
    run: &mut Preparation,
    resolved: Result<String, ApplyError>,
)
    requires
        call_ensures(Preparation::output_resolved, (run, resolved), ()),
    ensures
        resolved matches Ok(name) ==> final(run).output_name == name && final(run).stage
            == PrepareStage::Lookup && final(run).spec == old(run).spec && final(run).kind == old(run).kind,
        resolved matches Err(error) ==> final(run).stage == PrepareStage::Refused
            && final(run).error == Some(error),
{
}

/// A transaction begins with its plan, by starting the renderer, and nothing has
/// failed; a restore whose record was cleared is done.
pub proof fn law_transaction_begins_with_its_plan(
    plan: ApplyPlan,
    timeout: u64,
    run: ApplyTransaction,
    restore: &mut Restore,
)
    requires
        call_ensures(ApplyTransaction::new, (plan, timeout), run),
        call_ensures(Restore::cleared, (restore,), ()),
    ensures
        run.plan == plan,
        run.stage == Stage::Starting,
        run.error is None,
        run.promotion_timeout_ms == timeout,
        final(restore).stage == RestoreStage::Done,
        final(restore).output_name == old(restore).output_name,
        final(restore).target == old(restore).target,
{
}

// ---------------------------------------------------------------------------
// Failed steps
// ---------------------------------------------------------------------------

/// What a failed step of a transaction said.
pub open spec fn told(run: ApplyTransaction) -> Seq<char> {
    run.error->0->Transaction_0@
}

/// A step that could not be done ends the transaction with the step's name and
/// what was said of it; a shell that was not reached is told as such, and an
/// enumeration that failed as it failed.
pub proof fn law_failed_steps_say_why(
    starting: &mut ApplyTransaction,
    waiting: &mut ApplyTransaction,
    checking: &mut ApplyTransaction,
    storing: &mut ApplyTransaction,
    switching: &mut ApplyTransaction,
    verifying: &mut ApplyTransaction,
    failure: String,
    unreached: ProbeError,
    unlisted: ApplyError,
    now_ms: u64,
)
    requires
        call_ensures(ApplyTransaction::started, (starting, Err(failure), now_ms), ()),
        call_ensures(ApplyTransaction::polled, (waiting, Err(failure), now_ms), ()),
        call_ensures(ApplyTransaction::owner_checked, (checking, Err(failure)), ()),
        call_ensures(ApplyTransaction::persisted, (storing, Err(failure)), ()),
        call_ensures(ApplyTransaction::switched, (switching, Err(unreached)), ()),
        call_ensures(ApplyTransaction::verified, (verifying, Err(unlisted)), ()),
    ensures
        told(*final(starting)) == "renderer.start failed: "@ + failure@,
        told(*final(waiting)) == "renderer.status failed: "@ + failure@,
        told(*final(checking)) == "renderer.status failed: "@ + failure@,
        told(*final(storing)) == "persist assignment failed: "@ + failure@,
        unreached is Unreachable ==> final(switching).error->0->ShellUnreachable_0@
            == unreached->Unreachable_0@,
        unreached is Rejected ==> told(*final(switching)) == "wallpaper switch failed: "@
            + unreached->Rejected_0@,
        unreached is TimedOut ==> told(*final(switching)) == "wallpaper switch failed: "@
            + unreached->TimedOut_0@,
        final(verifying).error == Some(unlisted),
{
}

/// A transaction fails as the check fails that it rests on: a start that was
/// refused, a wait that ended badly, a renderer that was lost, a switch that
/// cannot be seen.
pub proof fn law_transaction_fails_as_its_checks(
    starting: &mut ApplyTransaction,
    waiting: &mut ApplyTransaction,
    checking: &mut ApplyTransaction,
    verifying: &mut ApplyTransaction,
    status: WorkerStatus,
    outputs: Vec<OutputInfo>,
    now_ms: u64,
    start: Result<(), ApplyError>,
    wait: crate::apply::Waiting,
    owner: Result<(), ApplyError>,
    seen: Result<(), ApplyError>,
    id: &str,
    hash: &str,
    overdue: bool,
    timeout_ms: u64,
    name: &str,
    desktop: usize,
)
    requires
        call_ensures(ApplyTransaction::started, (starting, Ok(status), now_ms), ()),
        call_ensures(crate::apply::check_started, (&status,), start),
        call_ensures(ApplyTransaction::polled, (waiting, Ok(status), now_ms), ()),
        id@ == waiting.plan.spec.wallpaper_id@ && hash@ == waiting.plan.spec.content_hash@,
        overdue == (now_ms >= waiting.wait_started_ms + waiting.promotion_timeout_ms),
        timeout_ms == waiting.promotion_timeout_ms,
        call_ensures(
            crate::apply::wait_for_promotion,
            (&status, id, hash, overdue, timeout_ms),
            wait,
        ),
        call_ensures(ApplyTransaction::owner_checked, (checking, Ok(status)), ()),
        checking.plan == waiting.plan,
        call_ensures(crate::apply::ensure_ours, (&status, id, hash), owner),
        call_ensures(ApplyTransaction::verified, (verifying, Ok(outputs)), ()),
        name@ == verifying.plan.output_name@ && desktop == verifying.plan.desktop_index,
        call_ensures(crate::apply::verify_switch, (&outputs, name, desktop), seen),
    ensures
        start is Ok <==> final(starting).stage == Stage::Waiting,
        start is Err ==> final(starting).error is Some && (start->Err_0 is Quarantined
            <==> final(starting).error->0 is Quarantined),
        start is Err && start->Err_0 is Transaction ==> told(*final(starting))
            == start->Err_0->Transaction_0@,
        start is Err && start->Err_0 is Quarantined ==> final(starting).error->0->Quarantined_0@
            == start->Err_0->Quarantined_0@,
        wait is Promoted <==> final(waiting).stage == Stage::CheckingOwner,
        wait is KeepWaiting <==> final(waiting).stage == Stage::Waiting,
        wait is Failed ==> told(*final(waiting)) == wait->Failed_0->Transaction_0@,
        owner is Ok <==> final(checking).stage == Stage::Persisting,
        owner is Err ==> told(*final(checking)) == owner->Err_0->Transaction_0@,
        seen is Ok <==> final(verifying).stage == Stage::Done,
        seen is Err ==> told(*final(verifying)) == seen->Err_0->Transaction_0@,
{
}

} // verus!
