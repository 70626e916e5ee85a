//! What an apply and a restore promise: the canvas, the content, the output, the
//! record that is stored, and what is put back.
//!
//! Each law speaks of what a function may answer to given arguments.

use vstd::prelude::*;

use crate::apply::{
    build_apply_spec, catalog_content_path, catalog_item, check_content, check_started,
    content_hash_for, content_identity, content_spec_for, default_apply_fps, default_apply_height,
    default_apply_width, ensure_ours, enumeration_error, find_output, frame_size_for,
    last_assigned_output, pick_output, previous_for, promotion_verdict, require_kind,
    resolve_playlist_output, restore_error, restore_target, status_is_ours, stock_image_path,
    switch_error, target_output, verify_restore, verify_switch, wait_for_promotion, ApplyError,
    ApplyWallpaperParams, RestoreTarget, Waiting,
};
use crate::assignments::{Assignment, AssignmentStore, PreviousWallpaper};
use crate::model::{
    CatalogItem, ContentSpec, ProjectKind, RendererKind, StartSpec, WorkerPhase, WorkerStatus,
};
use crate::names::NameMap;
use crate::probe::{OutputInfo, ProbeError};

verus! {

// ---------------------------------------------------------------------------
// The canvas
// ---------------------------------------------------------------------------

/// A pinned edge is kept. A free edge of an output whose edges both lie within
/// 64..=2560 is the output's own. Where the output's long edge exceeds 2560, a
/// free long edge is 2560 and a free short one follows it to within the rounding
/// down to even pixels, but not below 64. Without a usable geometry the canvas
/// is 960x540.
pub proof fn law_canvas_follows_the_output(
    width: Option<u32>,
    height: Option<u32>,
    geometry: Option<[i32; 4]>,
    size: (u32, u32),
)
    requires
        call_ensures(frame_size_for, (width, height, geometry), size),
    ensures
        width matches Some(pinned) ==> size.0 == pinned,
        height matches Some(pinned) ==> size.1 == pinned,
        (geometry is None || geometry->0@[2] <= 0 || geometry->0@[3] <= 0) ==> {
            &&& width is None ==> size.0 == 960
            &&& height is None ==> size.1 == 540
        },
        geometry is Some && geometry->0@[2] > 0 && geometry->0@[3] > 0 ==> {
            let out_w = geometry->0@[2] as int;
            let out_h = geometry->0@[3] as int;
            if out_w <= 2560 && out_h <= 2560 {
                &&& width is None ==> size.0 == if out_w < 64 {
                    64
                } else {
                    out_w
                }
                &&& height is None ==> size.1 == if out_h < 64 {
                    64
                } else {
                    out_h
                }
            } else {
                &&& width is None ==> follows(size.0 as int, out_w, out_h)
                &&& height is None ==> follows(size.1 as int, out_h, out_w)
            }
        },
{
    if geometry is Some && geometry->0@[2] > 0 && geometry->0@[3] > 0 {
        let out_w = geometry->0@[2] as int;
        let out_h = geometry->0@[3] as int;
        if out_w > 2560 || out_h > 2560 {
            let long = if out_w > out_h {
                out_w
            } else {
                out_h
            };
            lemma_scaled(out_w, long);
            lemma_scaled(out_h, long);
        }
    }
}

/// An edge of a canvas whose output exceeds the cap: the longer edge is at the
/// cap, and the other one keeps the proportion to within two pixels, is even,
/// and is 64 where the proportion would make it shorter.
pub open spec fn follows(edge: int, out_edge: int, out_other: int) -> bool {
    if out_edge >= out_other {
        edge == 2560
    } else if out_edge * 2560 < 64 * out_other {
        edge == 64
    } else {
        edge % 2 == 0 && edge * out_other <= out_edge * 2560 < (edge + 2) * out_other
    }
}

pub proof fn lemma_scaled(edge: int, long: int)
    requires
        0 < edge <= long,
        long > 2560,
    ensures
        ({
            let scaled = edge * 2560 / long;
            let even = scaled - scaled % 2;
            &&& 0 <= even <= 2560
            &&& edge == long ==> even == 2560
            &&& even * long <= edge * 2560 < (even + 2) * long
            &&& edge * 2560 < 64 * long <==> even < 64
        }),
{
    let scaled = edge * 2560 / long;
    assert(scaled * long <= edge * 2560 < (scaled + 1) * long && 0 <= scaled <= 2560) by (
    nonlinear_arith)
        requires
            0 < edge <= long,
            long > 2560,
            scaled == edge * 2560 / long,
    ;
    if edge == long {
        assert(scaled == 2560) by (nonlinear_arith)
            requires
                long > 0,
                scaled == long * 2560 / long,
        ;
    }
    let even = scaled - scaled % 2;
    assert(even * long <= scaled * long && (scaled + 1) * long <= (even + 2) * long) by (
    nonlinear_arith)
        requires
            even <= scaled <= even + 1,
            long > 0,
    ;
    if even < 64 {
        assert((even + 2) * long <= 64 * long) by (nonlinear_arith)
            requires
                even <= 62,
                long > 0,
        ;
    } else {
        assert(64 * long <= even * long) by (nonlinear_arith)
            requires
                even >= 64,
                long > 0,
        ;
    }
}

// ---------------------------------------------------------------------------
// Outputs
// ---------------------------------------------------------------------------

/// Some output has this name.
pub open spec fn is_listed(outputs: Seq<OutputInfo>, name: Seq<char>) -> bool {
    exists|i: int| 0 <= i < outputs.len() && (#[trigger] outputs[i]).name@ == name
}

/// The first output of that name is found, and none only where no output has
/// it.
pub proof fn law_output_is_found_by_name(
    outputs: &Vec<OutputInfo>,
    name: &str,
    found: Option<&OutputInfo>,
)
    requires
        call_ensures(find_output, (outputs, name), found),
    ensures
        match found {
            Some(output) => exists|i: int|
                {
                    &&& 0 <= i < outputs@.len()
                    &&& #[trigger] outputs@[i] == *output
                    &&& output.name@ == name@
                    &&& forall|j: int| 0 <= j < i ==> (#[trigger] outputs@[j]).name@ != name@
                },
            None => !is_listed(outputs@, name@),
        },
{
    lemma_output_position(outputs@, name@, 0);
}

proof fn lemma_output_position(outputs: Seq<OutputInfo>, name: Seq<char>, from: nat)
    requires
        from <= outputs.len(),
    ensures
        ({
            let at = crate::apply::output_position(outputs, name, from);
            &&& from <= at <= outputs.len()
            &&& at < outputs.len() ==> outputs[at as int].name@ == name
            &&& forall|j: int| from <= j < at ==> (#[trigger] outputs[j]).name@ != name
        }),
    decreases outputs.len() - from,
{
    if from < outputs.len() && outputs[from as int].name@ != name {
        lemma_output_position(outputs, name, from + 1);
    }
}

/// An apply goes to the output of its name and the desktop on it. It is refused
/// as missing where no output has the name, and as a failed step where the
/// output has no desktop.
pub proof fn law_target_is_the_named_output(
    outputs: &Vec<OutputInfo>,
    name: &str,
    target: Result<(&OutputInfo, usize), ApplyError>,
)
    requires
        call_ensures(target_output, (outputs, name), target),
    ensures
        match target {
            Ok((output, index)) => output.name@ == name@ && output.desktop_index == Some(index)
                && outputs@.contains(*output),
            Err(ApplyError::OutputMissing(detail)) => !is_listed(outputs@, name@) && detail@
                == name@,
            Err(ApplyError::Transaction(_)) => exists|i: int|
                0 <= i < outputs@.len() && (#[trigger] outputs@[i]).name@ == name@
                    && outputs@[i].desktop_index is None,
            Err(_) => false,
        },
{
    lemma_output_position(outputs@, name@, 0);
}

/// A playlist without a configured output goes to the stored one while an
/// output of that name is there, and else to the first output that is both
/// enabled and connected. Nothing is picked only where no output is both.
pub proof fn law_playlist_goes_to_a_live_output(
    stored: Option<String>,
    outputs: &Vec<OutputInfo>,
    picked: Result<String, ApplyError>,
)
    requires
        call_ensures(pick_output, (stored, outputs), picked),
    ensures
        stored is Some && is_listed(outputs@, stored->0@) ==> picked is Ok && picked->Ok_0@
            == stored->0@,
        !(stored is Some && is_listed(outputs@, stored->0@)) ==> match picked {
            Ok(chosen) => exists|i: int|
                {
                    &&& 0 <= i < outputs@.len()
                    &&& (#[trigger] outputs@[i]).name@ == chosen@
                    &&& outputs@[i].enabled
                    &&& outputs@[i].connected
                    &&& forall|j: int|
                        0 <= j < i ==> !((#[trigger] outputs@[j]).enabled && outputs@[j].connected)
                },
            Err(error) => error is OutputMissing && forall|i: int|
                0 <= i < outputs@.len() ==> !((#[trigger] outputs@[i]).enabled
                    && outputs@[i].connected),
        },
{
    if stored is Some {
        lemma_output_position(outputs@, stored->0@, 0);
    }
    lemma_live_position(outputs@, 0);
}

proof fn lemma_live_position(outputs: Seq<OutputInfo>, from: nat)
    requires
        from <= outputs.len(),
    ensures
        ({
            let at = crate::apply::live_position(outputs, from);
            &&& from <= at <= outputs.len()
            &&& at < outputs.len() ==> outputs[at as int].enabled && outputs[at as int].connected
            &&& forall|j: int|
                from <= j < at ==> !((#[trigger] outputs[j]).enabled && outputs[j].connected)
        }),
    decreases outputs.len() - from,
{
    if from < outputs.len() && !(outputs[from as int].enabled && outputs[from as int].connected) {
        lemma_live_position(outputs, from + 1);
    }
}

/// The stored output of a playlist carries one of its entries, and no output
/// that does was assigned later.
pub proof fn law_stored_output_was_assigned_last(
    store: &AssignmentStore,
    entries: &NameMap<()>,
    output: Option<String>,
    other: Seq<char>,
)
    requires
        call_ensures(last_assigned_output, (store, entries), output),
    ensures
        output matches Some(name) ==> store@.contains_key(name@) && entries@.contains_key(
            store@[name@].wallpaper_id@,
        ),
        store@.contains_key(other) && entries@.contains_key(store@[other].wallpaper_id@)
            ==> output is Some && store@[other].applied_at_unix_seconds
            <= store@[output->0@].applied_at_unix_seconds,
{
    if store@.contains_key(other) && entries@.contains_key(store@[other].wallpaper_id@) {
        assert(crate::apply::carries_entry(store@, entries@, other));
        if output->0@ != other {
            assert(crate::apply::assigned_after(store@, output->0@, other));
        }
    }
}

// ---------------------------------------------------------------------------
// Content
// ---------------------------------------------------------------------------

/// The renderer of a project: a scene, a video and a web page have their own,
/// anything else has none.
pub open spec fn runs(kind: ProjectKind, renderer: RendererKind) -> bool {
    ||| kind == ProjectKind::Scene && renderer == RendererKind::Scene
    ||| kind == ProjectKind::Video && renderer == RendererKind::Video
    ||| kind == ProjectKind::Web && renderer == RendererKind::Web
}

/// A request is for the item's own kind, and refused as incompatible otherwise.
pub proof fn law_request_is_for_the_items_kind(
    item: &CatalogItem,
    id: &str,
    kind: RendererKind,
    checked: Result<(), ApplyError>,
)
    requires
        call_ensures(require_kind, (item, id, kind), checked),
    ensures
        checked is Ok <==> runs(item.kind, kind),
        checked matches Err(error) ==> error is Incompatible,
{
}

/// An item that is on disk and can be run: local or subscribed and installed,
/// and a scene, a video or a web page.
pub open spec fn can_run(item: CatalogItem) -> bool {
    &&& item.workshop_state@ == "local"@ || item.workshop_state@ == "subscribed_installed"@
    &&& item.kind == ProjectKind::Scene || item.kind == ProjectKind::Video || item.kind
        == ProjectKind::Web
}

/// The first item of that id is what a lookup finds, if it can be run; else the
/// wallpaper counts as unknown.
pub proof fn law_lookup_finds_the_first_item_of_its_id(
    items: &Vec<CatalogItem>,
    id: &str,
    found: Result<&CatalogItem, ApplyError>,
)
    requires
        call_ensures(catalog_item, (items, id), found),
    ensures
        match found {
            Ok(item) => can_run(*item) && item.workshop_id@ == id@ && exists|i: int|
                {
                    &&& 0 <= i < items@.len()
                    &&& #[trigger] items@[i] == *item
                    &&& forall|j: int| 0 <= j < i ==> (#[trigger] items@[j]).workshop_id@ != id@
                },
            Err(ApplyError::UnknownWallpaper(detail)) => {
                &&& detail@ == id@
                &&& forall|i: int|
                    0 <= i < items@.len() && (#[trigger] items@[i]).workshop_id@ == id@ ==> (exists|
                        j: int,
                    |
                        0 <= j <= i && (#[trigger] items@[j]).workshop_id@ == id@ && !can_run(
                            items@[j],
                        ))
            },
            Err(_) => false,
        },
{
    lemma_item_position(items@, id@, 0);
    let at = crate::apply::item_position(items@, id@, 0);
    if found is Err {
        assert forall|i: int| 0 <= i < items@.len() && (#[trigger] items@[i]).workshop_id@
            == id@ implies (exists|j: int|
            0 <= j <= i && (#[trigger] items@[j]).workshop_id@ == id@ && !can_run(items@[j])) by {
            assert(at <= i);
            assert(!can_run(items@[at as int]));
        }
    }
}

proof fn lemma_item_position(items: Seq<CatalogItem>, id: Seq<char>, from: nat)
    requires
        from <= items.len(),
    ensures
        ({
            let at = crate::apply::item_position(items, id, from);
            &&& from <= at <= items.len()
            &&& at < items.len() ==> items[at as int].workshop_id@ == id
            &&& forall|j: int| from <= j < at ==> (#[trigger] items[j]).workshop_id@ != id
        }),
    decreases items.len() - from,
{
    if from < items.len() && items[from as int].workshop_id@ != id {
        lemma_item_position(items, id, from + 1);
    }
}

/// A web page runs from its root, and any other item from the entry that it
/// declares; without one, from `scene.json` below its root.
pub proof fn law_content_is_the_items_own(item: &CatalogItem, kind: RendererKind, path: String)
    requires
        call_ensures(catalog_content_path, (item, kind), path),
    ensures
        kind == RendererKind::Web ==> path@ == item.content_root@,
        kind != RendererKind::Web ==> match item.entry_file {
            Some(entry) => path@ == entry@,
            None => {
                let root = item.content_root@;
                &&& path@.take(root.len() as int) == root
                &&& path@.skip(root.len() as int) == "scene.json"@ || path@.skip(
                    root.len() as int,
                ) == "/scene.json"@
                &&& root.len() > 0 && root.last() != '/' ==> path@.skip(root.len() as int)
                    == "/scene.json"@
                &&& root.len() == 0 || root.last() == '/' ==> path@.skip(root.len() as int)
                    == "scene.json"@
            },
        },
{
    if kind != RendererKind::Web && item.entry_file is None {
        let root = item.content_root@;
        reveal_strlit("/scene.json");
        reveal_strlit("scene.json");
        reveal_strlit("/");
        assert(path@.take(root.len() as int) =~= root);
        if root.len() == 0 || root.last() == '/' {
            assert(path@.skip(root.len() as int) =~= "scene.json"@);
        } else {
            assert(path@.skip(root.len() as int) =~= "/scene.json"@);
        }
    }
}

/// The content is the path itself, under the variant of its kind.
pub open spec fn content_is(content: ContentSpec, kind: RendererKind, path: Seq<char>) -> bool {
    match content {
        ContentSpec::Video { path: own } => kind == RendererKind::Video && own@ == path,
        ContentSpec::Web { root: own } => kind == RendererKind::Web && own@ == path,
        ContentSpec::Scene { path: own } => kind == RendererKind::Scene && own@ == path,
    }
}

/// What a renderer runs is the path that it was given, as its own kind.
pub proof fn law_content_spec_holds_its_path(kind: RendererKind, path: &str, content: ContentSpec)
    requires
        call_ensures(content_spec_for, (kind, path), content),
    ensures
        content_is(content, kind, path@),
{
}

/// Content that a request names runs only if it is the catalog's own on disk,
/// and no content path is longer than 4096 characters.
pub proof fn law_named_content_is_the_catalogs_own(
    client: &Option<String>,
    client_canonical: &Option<String>,
    content: &str,
    catalog_canonical: &Option<String>,
    checked: Result<(), ApplyError>,
)
    requires
        call_ensures(check_content, (client, client_canonical, content, catalog_canonical), checked),
    ensures
        checked is Ok <==> {
            &&& content@.len() <= 4096
            &&& client is Some ==> match (*client_canonical, *catalog_canonical) {
                (Some(named), Some(own)) => named@ == own@,
                (None, None) => true,
                _ => false,
            }
        },
        checked matches Err(error) ==> error is Invalid,
{
}

/// Content with a metadata hash is known by that hash, whatever its path; other
/// content by its path, so that one path has one identity.
pub proof fn law_content_identity(
    item: &CatalogItem,
    other: &CatalogItem,
    path: &[u8],
    elsewhere: &[u8],
    identity: String,
    again: String,
)
    requires
        call_ensures(content_hash_for, (item, path), identity),
        call_ensures(content_hash_for, (other, elsewhere), again),
    ensures
        item.metadata_hash matches Some(hash) ==> identity@ == hash@,
        item.metadata_hash is None && other.metadata_hash is None && path@ == elsewhere@
            ==> identity@ == again@,
{
}

/// The start spec of a request holds what was asked for, field by field, with
/// 960x540 where no edge is pinned. The test renderer, and a content path that
/// is empty or longer than 4096 characters, are refused.
pub proof fn law_start_spec_holds_the_request(
    params: &ApplyWallpaperParams,
    built: Result<StartSpec, ApplyError>,
)
    requires
        call_ensures(build_apply_spec, (params,), built),
    ensures
        built is Ok <==> params.kind != RendererKind::Test && (params.content is Some ==> 1
            <= params.content->0@.len() <= 4096),
        match built {
            Ok(spec) => {
                &&& spec.wallpaper_id@ == params.wallpaper_id@
                &&& spec.kind == params.kind
                &&& spec.fps == params.fps
                &&& spec.scaling == params.scaling
                &&& params.width matches Some(width) ==> spec.width == width
                &&& params.width is None ==> spec.width == 960
                &&& params.height matches Some(height) ==> spec.height == height
                &&& params.height is None ==> spec.height == 540
                &&& match (params.content, spec.content) {
                    (Some(path), Some(content)) => content_is(content, params.kind, path@),
                    (None, None) => true,
                    _ => false,
                }
            },
            Err(error) => error is Invalid,
        },
{
}

// ---------------------------------------------------------------------------
// What stood there before
// ---------------------------------------------------------------------------

/// `saved` is what the output shows: its plugin, its group and its image.
pub open spec fn is_shown(output: OutputInfo, saved: PreviousWallpaper) -> bool {
    &&& output.wallpaper_plugin matches Some(plugin) && plugin@ == saved.wallpaper_plugin@
    &&& same_texts(saved.config_group@, output.config_group@)
    &&& same_option(saved.image, output.image)
}

/// The same texts in the same order.
pub open spec fn same_texts(a: Seq<String>, b: Seq<String>) -> bool {
    a.len() == b.len() && forall|i: int| 0 <= i < a.len() ==> (#[trigger] a[i])@ == b[i]@
}

/// Both are there with the same text, or neither is.
pub open spec fn same_option(a: Option<String>, b: Option<String>) -> bool {
    match (a, b) {
        (Some(x), Some(y)) => x@ == y@,
        (None, None) => true,
        _ => false,
    }
}

/// Both say the same of the wallpaper.
pub open spec fn same_previous(a: PreviousWallpaper, b: PreviousWallpaper) -> bool {
    &&& a.wallpaper_plugin@ == b.wallpaper_plugin@
    &&& same_texts(a.config_group@, b.config_group@)
    &&& same_option(a.image, b.image)
}

proof fn lemma_same_texts(a: Seq<String>, b: Seq<String>)
    requires
        crate::text::views(a) == crate::text::views(b),
    ensures
        same_texts(a, b),
{
    assert(crate::text::views(a).len() == a.len() && crate::text::views(b).len() == b.len());
    assert forall|i: int| 0 <= i < a.len() implies (#[trigger] a[i])@ == b[i]@ by {
        assert(crate::text::views(a)[i] == a[i]@);
        assert(crate::text::views(b)[i] == b[i]@);
    }
}

/// Before an apply the wallpaper that the user had is noted: what the output
/// shows, or, where that is the daemon's own plugin and a record noted
/// something before, what the record noted. An output that shows no plugin is
/// refused.
pub proof fn law_previous_is_what_the_user_had(
    output: &OutputInfo,
    stored: Option<&Assignment>,
    previous: Result<PreviousWallpaper, ApplyError>,
)
    requires
        call_ensures(previous_for, (output, stored), previous),
    ensures
        match previous {
            Ok(saved) => if (output.wallpaper_plugin matches Some(plugin) && plugin@
                == "org.kde.kwe.wallpaper"@) && stored is Some && stored->0.previous is Some {
                same_previous(saved, stored->0.previous->0)
            } else {
                is_shown(*output, saved)
            },
            Err(error) => output.wallpaper_plugin is None && error is Transaction,
        },
{
    if previous is Ok {
        let saved = previous->Ok_0;
        if (output.wallpaper_plugin matches Some(plugin) && plugin@ == "org.kde.kwe.wallpaper"@)
            && stored is Some && stored->0.previous is Some {
            lemma_same_texts(saved.config_group@, stored->0.previous->0.config_group@);
        } else {
            lemma_same_texts(saved.config_group@, output.config_group@);
        }
    }
}

/// A restore goes back to what the record noted, unless that is the daemon's
/// own plugin or nothing was noted: then to the image plugin in its own group,
/// with the stock image.
pub proof fn law_restore_goes_back(
    stored: Option<Assignment>,
    stock: Option<String>,
    target: RestoreTarget,
)
    requires
        call_ensures(restore_target, (stored, stock), target),
    ensures
        if stored is Some && stored->0.previous is Some
            && stored->0.previous->0.wallpaper_plugin@ != "org.kde.kwe.wallpaper"@ {
            let saved = stored->0.previous->0;
            &&& target.wallpaper_plugin@ == saved.wallpaper_plugin@
            &&& same_texts(target.config_group@, saved.config_group@)
            &&& same_option(target.image, saved.image)
            &&& target.mode@ == "assignment"@
        } else {
            &&& target.wallpaper_plugin@ == "org.kde.image"@
            &&& target.config_group@.len() == 3
            &&& target.config_group@[0]@ == "Wallpaper"@
            &&& target.config_group@[1]@ == "org.kde.image"@
            &&& target.config_group@[2]@ == "General"@
            &&& same_option(target.image, stock)
            &&& target.mode@ == "stock"@
        },
{
    if stored is Some && stored->0.previous is Some && stored->0.previous->0.wallpaper_plugin@
        != "org.kde.kwe.wallpaper"@ {
        lemma_same_texts(target.config_group@, stored->0.previous->0.config_group@);
    } else {
        let views = crate::text::views(target.config_group@);
        assert(views.len() == 3);
        assert(views[0] == "Wallpaper"@ && views[1] == "org.kde.image"@ && views[2] == "General"@);
    }
}

// ---------------------------------------------------------------------------
// Promotion
// ---------------------------------------------------------------------------

/// The supervisor was asked for this wallpaper with this content, and for
/// nothing else.
pub open spec fn asked_for(status: WorkerStatus, id: Seq<char>, hash: Seq<char>) -> bool {
    &&& status.requested_wallpaper_id matches Some(asked) && asked@ == id
    &&& status.requested_content_hash matches Some(asked) && asked@ == hash
}

/// A renderer is ours exactly when both the wallpaper and the content are.
pub proof fn law_ours_is_both_wallpaper_and_content(
    status: &WorkerStatus,
    id: &str,
    hash: &str,
    ours: bool,
    checked: Result<(), ApplyError>,
)
    requires
        call_ensures(status_is_ours, (status, id, hash), ours),
        call_ensures(ensure_ours, (status, id, hash), checked),
    ensures
        ours == asked_for(*status, id@, hash@),
        checked is Ok <==> asked_for(*status, id@, hash@),
{
}

/// Only our renderer, live or awaiting its acknowledgement, is promoted; one
/// that was rolled back, quarantined or stopped has failed, with its own detail
/// where it gives one; in any other phase nothing is decided.
pub proof fn law_phases_decide(
    phase: WorkerPhase,
    ours: bool,
    detail: Option<&str>,
    result: Option<Result<(), String>>,
)
    requires
        call_ensures(promotion_verdict, (phase, ours, detail), result),
    ensures
        (result is Some && result->0 is Ok) <==> ours && (phase == WorkerPhase::Live || phase
            == WorkerPhase::AwaitingAck),
        (result is Some && result->0 is Err) <==> phase == WorkerPhase::RolledBack || phase
            == WorkerPhase::Quarantined || phase == WorkerPhase::Stopped,
        result is Some && result->0 is Err && detail is Some ==> result->0->Err_0@ == detail->0@,
{
}

/// While a promotion is waited for: somebody else's renderer fails the wait at
/// once unless nothing runs, ours is promoted when it is live or awaits its
/// acknowledgement, and fails when it is rolled back, quarantined, stopped or
/// overdue. Otherwise the wait goes on.
pub proof fn law_wait_ends(
    status: &WorkerStatus,
    id: &str,
    hash: &str,
    overdue: bool,
    timeout_ms: u64,
    waiting: Waiting,
)
    requires
        call_ensures(wait_for_promotion, (status, id, hash, overdue, timeout_ms), waiting),
    ensures
        ({
            let ours = asked_for(*status, id@, hash@);
            let up = status.phase == WorkerPhase::Live || status.phase == WorkerPhase::AwaitingAck;
            let down = status.phase == WorkerPhase::RolledBack || status.phase
                == WorkerPhase::Quarantined || status.phase == WorkerPhase::Stopped;
            &&& waiting is Promoted <==> ours && up
            &&& waiting is Failed <==> (!ours && status.phase != WorkerPhase::Idle) || down || (
            overdue && !(ours && up))
            &&& waiting matches Waiting::Failed(error) ==> error is Transaction
        }),
{
}

/// A start is accepted unless the supervisor answers that it was quarantined or
/// rolled back. The answer is that the content is disabled exactly where it is
/// quarantined.
pub proof fn law_start_is_accepted(started: &WorkerStatus, checked: Result<(), ApplyError>)
    requires
        call_ensures(check_started, (started,), checked),
    ensures
        checked is Ok <==> started.phase != WorkerPhase::Quarantined && started.phase
            != WorkerPhase::RolledBack,
        checked matches Err(error) ==> {
            &&& error is Quarantined <==> started.quarantined
            &&& error is Transaction <==> !started.quarantined
        },
{
}

// ---------------------------------------------------------------------------
// Verification
// ---------------------------------------------------------------------------

/// A switch counts only if the first output of the name now shows the daemon's
/// plugin on that very desktop.
pub proof fn law_switch_is_seen(
    outputs: &Vec<OutputInfo>,
    name: &str,
    desktop: usize,
    checked: Result<(), ApplyError>,
)
    requires
        call_ensures(verify_switch, (outputs, name, desktop), checked),
    ensures
        checked is Ok <==> exists|i: int|
            {
                &&& 0 <= i < outputs@.len()
                &&& (#[trigger] outputs@[i]).name@ == name@
                &&& outputs@[i].desktop_index == Some(desktop)
                &&& outputs@[i].wallpaper_plugin matches Some(plugin) && plugin@
                    == "org.kde.kwe.wallpaper"@
                &&& forall|j: int| 0 <= j < i ==> (#[trigger] outputs@[j]).name@ != name@
            },
        checked matches Err(error) ==> error is Transaction,
{
    lemma_output_position(outputs@, name@, 0);
}

/// A restore counts only if the first output of the name now shows the plugin
/// that was restored.
pub proof fn law_restore_is_seen(
    outputs: &Vec<OutputInfo>,
    name: &str,
    expected: &str,
    checked: Result<(), ApplyError>,
)
    requires
        call_ensures(verify_restore, (outputs, name, expected), checked),
    ensures
        checked is Ok <==> exists|i: int|
            {
                &&& 0 <= i < outputs@.len()
                &&& (#[trigger] outputs@[i]).name@ == name@
                &&& outputs@[i].wallpaper_plugin matches Some(plugin) && plugin@ == expected@
                &&& forall|j: int| 0 <= j < i ==> (#[trigger] outputs@[j]).name@ != name@
            },
        checked matches Err(error) ==> error is RestoreFailed,
{
    lemma_output_position(outputs@, name@, 0);
}

/// The text that a probe's error holds.
pub open spec fn held_by(error: ProbeError) -> Seq<char> {
    match error {
        ProbeError::Unreachable(detail) => detail@,
        ProbeError::Rejected(detail) => detail@,
        ProbeError::TimedOut(detail) => detail@,
        ProbeError::Parse(detail) => detail@,
        ProbeError::DisplayUnavailable(detail) => detail@,
    }
}

/// A failed enumeration says that the display is missing only where it is, a
/// failed switch or restore says that the shell is unreachable only where it
/// is, and none loses the detail.
pub proof fn law_shell_failures_keep_their_detail(
    error: ProbeError,
    enumerated: ApplyError,
    switched: ApplyError,
    restored: ApplyError,
)
    requires
        call_ensures(enumeration_error, (error,), enumerated),
        call_ensures(switch_error, (error,), switched),
        call_ensures(restore_error, (error,), restored),
    ensures
        match enumerated {
            ApplyError::DisplayUnavailable(detail) => error is DisplayUnavailable && detail@
                == held_by(error),
            ApplyError::ShellUnreachable(detail) => !(error is DisplayUnavailable) && detail@
                == held_by(error),
            _ => false,
        },
        match switched {
            ApplyError::ShellUnreachable(detail) => error is Unreachable && detail@ == held_by(
                error,
            ),
            ApplyError::Transaction(detail) => !(error is Unreachable) && detail@
                == "wallpaper switch failed: "@ + held_by(error),
            _ => false,
        },
        match restored {
            ApplyError::ShellUnreachable(detail) => error is Unreachable && detail@ == held_by(
                error,
            ),
            ApplyError::RestoreFailed(detail) => !(error is Unreachable) && detail@ == held_by(
                error,
            ),
            _ => false,
        },
{
}

// ---------------------------------------------------------------------------
// Identities, stock images and playlist outputs
// ---------------------------------------------------------------------------

/// The half byte that a hexadecimal digit stands for.
pub open spec fn half_byte(c: char) -> int {
    if c as int >= 97 {
        c as int - 87
    } else {
        c as int - 48
    }
}

/// Content without a metadata hash is known by the digest of its path: two
/// hexadecimal digits for each byte, high half first.
pub proof fn law_identity_is_the_digest(
    item: &CatalogItem,
    digest: &Vec<u8>,
    identity: String,
    path: &[u8],
    hashed: String,
    i: int,
)
    requires
        call_ensures(content_identity, (item, digest), identity),
        call_ensures(content_hash_for, (item, path), hashed),
        0 <= i < digest@.len(),
    ensures
        item.metadata_hash matches Some(hash) ==> identity@ == hash@ && hashed@ == hash@,
        item.metadata_hash is None ==> {
            &&& identity@.len() == 2 * digest@.len()
            &&& half_byte(identity@[2 * i]) * 16 + half_byte(identity@[2 * i + 1]) == digest@[i]
        },
        item.metadata_hash is None && digest@ == crate::apply::sha256(path@) ==> hashed@
            == identity@,
{
    if item.metadata_hash is None {
        let byte = digest@[i];
        assert((2 * i) / 2 == i && (2 * i + 1) / 2 == i);
        assert((2 * i) % 2 == 0 && (2 * i + 1) % 2 == 1);
        assert(identity@[2 * i] == crate::apply::hex_char((byte / 16) as nat));
        assert(identity@[2 * i + 1] == crate::apply::hex_char((byte % 16) as nat));
        assert(byte / 16 * 16 + byte % 16 == byte);
        assert(byte / 16 < 16 && byte % 16 < 16);
    }
}

/// A stock image is one that is present; without one none of the three is.
pub proof fn law_stock_image_is_present<P: Fn(&str) -> bool>(present: P, image: Option<String>)
    requires
        call_ensures(stock_image_path::<P>, (present,), image),
    ensures
        image matches Some(path) ==> exists|asked: &str|
            asked@ == path@ && #[trigger] call_ensures(present, (asked,), true),
        image is None ==> exists|asked: &str|
            asked@ == "/usr/share/wallpapers/Next/contents/images/Next.jpg"@
                && #[trigger] call_ensures(present, (asked,), false),
        image is None || image->0@
            != "/usr/share/wallpapers/cachyos-wallpapers/Cachy depths 5K.png"@ ==> exists|
            asked: &str,
        |
            asked@ == "/usr/share/wallpapers/cachyos-wallpapers/Cachy depths 5K.png"@
                && #[trigger] call_ensures(present, (asked,), false),
{
    let all = crate::apply::stock_candidates();
    assert(all[0] == "/usr/share/wallpapers/cachyos-wallpapers/Cachy depths 5K.png"@);
    assert(all[2] == "/usr/share/wallpapers/Next/contents/images/Next.jpg"@);
}

/// A playlist goes to the output that is configured for it, if that is a name;
/// one without goes to an output that was enumerated.
pub proof fn law_configured_output_wins<F: FnOnce() -> Result<Vec<OutputInfo>, ApplyError>>(
    output: Option<&str>,
    store: &AssignmentStore,
    entries: &NameMap<()>,
    enumerate: F,
    resolved: Result<String, ApplyError>,
)
    requires
        call_ensures(
            resolve_playlist_output::<F>,
            (output, store, entries, enumerate),
            resolved,
        ),
    ensures
        output is Some ==> (resolved is Ok <==> crate::laws_stores::is_name(output->0@)),
        output is Some && resolved is Ok ==> resolved->Ok_0@ == output->0@,
        output is Some && resolved is Err ==> resolved->Err_0 is Invalid,
        output is None && resolved is Ok ==> exists|outputs: Vec<OutputInfo>|
            #[trigger] call_ensures(enumerate, (), Ok(outputs)) && is_listed(
                outputs@,
                resolved->Ok_0@,
            ),
        output is None && resolved is Err ==> call_ensures(enumerate, (), Err(resolved->Err_0))
            || resolved->Err_0 is OutputMissing,
{
    if output is Some {
        crate::laws_stores::lemma_names(output->0@);
    } else if resolved is Ok {
        let name = resolved->Ok_0@;
        let (outputs, stored) = choose|outputs: Vec<OutputInfo>, stored: Option<Seq<char>>|
            #[trigger] call_ensures(enumerate, (), Ok(outputs))
                && #[trigger] crate::apply::playlist_output(stored, outputs@) == Some(name);
        lemma_live_position(outputs@, 0);
        if stored is Some {
            lemma_output_position(outputs@, stored->0, 0);
        }
        assert(is_listed(outputs@, name));
    }
}

/// An apply without a size or a rate is for 960 by 540 at 30 frames a second.
pub proof fn law_apply_defaults(width: u32, height: u32, fps: u32)
    requires
        call_ensures(default_apply_width, (), width),
        call_ensures(default_apply_height, (), height),
        call_ensures(default_apply_fps, (), fps),
    ensures
        width == 960 && width * 9 == height * 16 && fps == 30,
{
}

// ---------------------------------------------------------------------------
// Failures in words
// ---------------------------------------------------------------------------

/// The detail that a worker gives for its failure, or else its phase.
pub open spec fn says_why(status: WorkerStatus, phase: Seq<char>) -> Seq<char> {
    match status.last_failure_detail {
        Some(detail) => detail@,
        None => phase,
    }
}

/// A start that was refused is told with the worker's own detail: content that
/// is disabled with the number of its failures, any other with its phase.
pub proof fn law_refused_start_is_told(
    started: &WorkerStatus,
    phase: &'static str,
    checked: Result<(), ApplyError>,
)
    requires
        call_ensures(crate::model::phase_name, (&started.phase,), phase),
        call_ensures(check_started, (started,), checked),
        checked is Err,
    ensures
        started.quarantined ==> checked->Err_0->Quarantined_0@ == "disabled after "@
            + crate::text::decimal(started.failures as nat)
            + " failures under this build; last failure: "@ + says_why(*started, phase@),
        !started.quarantined ==> checked->Err_0->Transaction_0@ == "renderer rejected the start ("@
            + phase@ + ": "@ + says_why(*started, phase@) + ")"@,
{
}

/// A wait that failed says why: who was asked for in whose place, what the
/// renderer failed with, or for how long it was waited.
pub proof fn law_failed_wait_is_told(
    status: &WorkerStatus,
    id: &str,
    hash: &str,
    overdue: bool,
    timeout_ms: u64,
    phase: &'static str,
    waiting: Waiting,
    checked: Result<(), ApplyError>,
)
    requires
        call_ensures(crate::model::phase_name, (&status.phase,), phase),
        call_ensures(wait_for_promotion, (status, id, hash, overdue, timeout_ms), waiting),
        call_ensures(ensure_ours, (status, id, hash), checked),
        waiting is Failed,
    ensures
        ({
            let ours = asked_for(*status, id@, hash@);
            let down = status.phase == WorkerPhase::RolledBack || status.phase
                == WorkerPhase::Quarantined || status.phase == WorkerPhase::Stopped;
            let told = waiting->Failed_0->Transaction_0@;
            &&& !ours && status.phase != WorkerPhase::Idle ==> checked is Err && told
                == checked->Err_0->Transaction_0@
            &&& ours && down ==> told == "renderer did not promote ("@ + says_why(*status, phase@)
                + ")"@
            &&& (ours || status.phase == WorkerPhase::Idle) && !down ==> told
                == "renderer did not promote within "@ + crate::text::decimal(timeout_ms as nat)
                + " ms"@
        }),
{
}

/// A renderer that somebody else took over is told with both names: what the
/// supervisor was asked for, and what was expected.
pub proof fn law_lost_renderer_is_told(
    status: &WorkerStatus,
    id: &str,
    hash: &str,
    checked: Result<(), ApplyError>,
)
    requires
        call_ensures(ensure_ours, (status, id, hash), checked),
        checked is Err,
    ensures
        checked->Err_0 is Transaction,
        checked->Err_0->Transaction_0@ == "renderer ownership changed (requested "@ + (
        if status.requested_wallpaper_id is Some {
            status.requested_wallpaper_id->0@
        } else {
            "none"@
        }) + ":"@ + (if status.requested_content_hash is Some {
            status.requested_content_hash->0@
        } else {
            "none"@
        }) + ", expected "@ + id@ + ":"@ + hash@ + ")"@,
{
}

/// An output that is gone when it is looked at is told by its name.
pub proof fn law_vanished_output_is_told(
    outputs: &Vec<OutputInfo>,
    name: &str,
    desktop: usize,
    expected: &str,
    switched: Result<(), ApplyError>,
    restored: Result<(), ApplyError>,
)
    requires
        !is_listed(outputs@, name@),
        call_ensures(verify_switch, (outputs, name, desktop), switched),
        call_ensures(verify_restore, (outputs, name, expected), restored),
    ensures
        switched is Err && switched->Err_0->Transaction_0@ == "post-switch verification: output "@
            + name@ + " is gone"@,
        restored is Err && restored->Err_0->RestoreFailed_0@
            == "post-restore verification: output "@ + name@ + " is gone"@,
{
    lemma_output_position(outputs@, name@, 0);
}

/// A switch or a restore that cannot be seen is told with what the output
/// reports and what was expected of it.
pub proof fn law_unseen_switch_is_told(
    outputs: &Vec<OutputInfo>,
    name: &str,
    desktop: usize,
    expected: &str,
    found: Option<&OutputInfo>,
    switched: Result<(), ApplyError>,
    restored: Result<(), ApplyError>,
)
    requires
        call_ensures(find_output, (outputs, name), found),
        found is Some,
        call_ensures(verify_switch, (outputs, name, desktop), switched),
        call_ensures(verify_restore, (outputs, name, expected), restored),
    ensures
        ({
            let reported = match found->0.wallpaper_plugin {
                Some(plugin) => "Some("@ + crate::apply::debug_text(plugin@) + ")"@,
                None => "None"@,
            };
            let place = match found->0.desktop_index {
                Some(index) => "Some("@ + crate::text::decimal(index as nat) + ")"@,
                None => "None"@,
            };
            &&& switched is Err ==> switched->Err_0->Transaction_0@
                == "post-switch verification failed: output "@ + name@ + " reports plugin "@
                + reported + " on desktop "@ + place
                + ", expected org.kde.kwe.wallpaper on desktop "@ + crate::text::decimal(
                desktop as nat,
            )
            &&& restored is Err ==> restored->Err_0->RestoreFailed_0@
                == "post-restore verification failed: output "@ + name@ + " reports plugin "@
                + reported + ", expected "@ + crate::apply::debug_text(expected@)
        }),
{
}

/// Without a live output there is none for a playlist, and content that is not
/// the catalog's is told beside it.
pub proof fn law_refusals_name_what_is_wrong(
    stored: Option<String>,
    outputs: &Vec<OutputInfo>,
    picked: Result<String, ApplyError>,
    content: &str,
    client: &Option<String>,
    client_canonical: &Option<String>,
    catalog_canonical: &Option<String>,
    checked: Result<(), ApplyError>,
)
    requires
        call_ensures(pick_output, (stored, outputs), picked),
        call_ensures(
            crate::apply::check_content,
            (client, client_canonical, content, catalog_canonical),
            checked,
        ),
    ensures
        picked is Err ==> picked->Err_0->OutputMissing_0@ == "no enabled, connected output"@,
        checked is Err ==> checked->Err_0->Invalid_0@
            == "catalog content path exceeds 4096 characters"@ || client is Some
            && checked->Err_0->Invalid_0@ == "content "@ + client->0@
            + " does not match the catalog item's resolved content "@ + content@,
{
}

} // verus!
