//! What is promised of what the daemon learns: kinds and phases by name, the
//! capability gate, the outputs, and the display.
//!
//! Each law speaks of what a function may answer, or leave behind.

use vstd::prelude::*;

use crate::apply::ApplyError;
use crate::gate::{
    needs_inspection, read_inspection, scene_capability_gate, Inspection, InspectionRecord, Passage,
};
use crate::inspect::InspectReport;
use crate::laws_apply::same_option;
use crate::laws_session::has_text;
use crate::model::{
    is_playable, phase_name, project_kind_name, renderer_kind_for, CatalogItem, ProjectKind,
    RendererKind, WorkerPhase,
};
use crate::names::NameMap;
use crate::probe::{
    assemble_outputs, classify_probe_failure, parse_display_env, parse_geometry,
    parse_kscreen_doctor, strip_ansi, valid_display_value, OutputCache, OutputInfo, ProbeDesktop,
    ProbeError, SystemOutput,
};
use crate::text::{cut_once, split_lines, split_words};

verus! {

// ---------------------------------------------------------------------------
// Names
// ---------------------------------------------------------------------------

/// A renderer runs the projects of its own kind, and no other project runs.
pub proof fn law_renderer_is_of_the_items_kind(
    item: &CatalogItem,
    kind: Option<RendererKind>,
    yes: bool,
    name: String,
)
    requires
        call_ensures(renderer_kind_for, (item,), kind),
        call_ensures(is_playable, (item,), yes),
        call_ensures(project_kind_name, (&item.kind,), name),
    ensures
        item.kind == ProjectKind::Scene ==> kind == Some(RendererKind::Scene) && name@ == "scene"@,
        item.kind == ProjectKind::Video ==> kind == Some(RendererKind::Video) && name@ == "video"@,
        item.kind == ProjectKind::Web ==> kind == Some(RendererKind::Web) && name@ == "web"@,
        item.kind == ProjectKind::Unknown ==> kind is None && name@ == "unknown"@,
        item.kind == ProjectKind::Invalid ==> kind is None && name@ == "invalid"@,
        yes <==> kind is Some && (item.workshop_state@ == "local"@ || item.workshop_state@
            == "subscribed_installed"@),
{
}

/// A renderer's name on the wire, and a phase's.
pub proof fn law_wire_names(
    kind: RendererKind,
    name: &'static str,
    phase: &WorkerPhase,
    phase_text: &'static str,
)
    requires
        call_ensures(RendererKind::as_str, (kind,), name),
        call_ensures(phase_name, (phase,), phase_text),
    ensures
        kind == RendererKind::Test ==> name@ == "test"@,
        kind == RendererKind::Video ==> name@ == "video"@,
        kind == RendererKind::Web ==> name@ == "web"@,
        kind == RendererKind::Scene ==> name@ == "scene"@,
        *phase == WorkerPhase::Idle ==> phase_text@ == "idle"@,
        *phase == WorkerPhase::Starting ==> phase_text@ == "starting"@,
        *phase == WorkerPhase::Canary ==> phase_text@ == "canary"@,
        *phase == WorkerPhase::Live ==> phase_text@ == "live"@,
        *phase == WorkerPhase::Restarting ==> phase_text@ == "restarting"@,
        *phase == WorkerPhase::AwaitingAck ==> phase_text@ == "awaiting_ack"@,
        *phase == WorkerPhase::RolledBack ==> phase_text@ == "rolled_back"@,
        *phase == WorkerPhase::Stopped ==> phase_text@ == "stopped"@,
        *phase == WorkerPhase::Quarantined ==> phase_text@ == "quarantined"@,
{
}

// ---------------------------------------------------------------------------
// The capability gate
// ---------------------------------------------------------------------------

/// Only scenes are inspected. An inventory is what the record holds, a refusal
/// carries the record's reason, and anything else is no answer.
pub proof fn law_inspection_is_the_reports(
    kind: RendererKind,
    needed: bool,
    report: InspectReport<InspectionRecord>,
    inspection: Inspection,
)
    requires
        call_ensures(needs_inspection, (kind,), needed),
        call_ensures(read_inspection, (report,), inspection),
    ensures
        needed <==> kind == RendererKind::Scene,
        inspection is Inventoried <==> report is Record && report->Record_0.outcome@
            == "inventoried"@,
        inspection is Inventoried ==> inspection->required == report->Record_0.required,
        inspection is Incompatible <==> report is Record && report->Record_0.outcome@
            == "incompatible"@,
        inspection matches Inspection::Incompatible { reason } ==> reason
            == report->Record_0.reason,
        report is Record ==> (inspection matches Inspection::Unavailable { reason } ==> reason
            == report->Record_0.reason),
{
    reveal_strlit("inventoried");
    reveal_strlit("incompatible");
    assert("inventoried"@.len() == 11 && "incompatible"@.len() == 12);
}

/// `picked` are the required ones from `from` on for which `picks` holds, in
/// order: `picked[k]` is `required[places[k]]`.
pub open spec fn picked_in_order(
    required: Seq<String>,
    from: int,
    picked: Seq<Seq<char>>,
    places: Seq<int>,
) -> bool {
    &&& places.len() == picked.len()
    &&& forall|k: int|
        0 <= k < picked.len() ==> from <= #[trigger] places[k] < required.len()
            && required[places[k]]@ == picked[k]
    &&& forall|k: int, l: int|
        0 <= k < l < places.len() ==> #[trigger] places[k] < #[trigger] places[l]
}

proof fn lemma_shortfall(
    required: Seq<String>,
    supported: Map<Seq<char>, ()>,
    tolerated: Map<Seq<char>, ()>,
    tolerable: bool,
    from: nat,
)
    requires
        from <= required.len(),
    ensures
        ({
            let found = crate::gate::shortfall(required, supported, tolerated, tolerable, from);
            &&& exists|places: Seq<int>| #[trigger]
                picked_in_order(required, from as int, found, places)
            &&& forall|k: int|
                0 <= k < found.len() ==> !supported.contains_key(#[trigger] found[k])
                    && tolerated.contains_key(found[k]) == tolerable
            &&& forall|i: int|
                from <= i < required.len() && !supported.contains_key((#[trigger] required[i])@)
                    && tolerated.contains_key(required[i]@) == tolerable ==> found.contains(
                    required[i]@,
                )
        }),
    decreases required.len() - from,
{
    let found = crate::gate::shortfall(required, supported, tolerated, tolerable, from);
    if from >= required.len() {
        assert(picked_in_order(required, from as int, found, Seq::empty()));
    } else {
        lemma_shortfall(required, supported, tolerated, tolerable, from + 1);
        let later = crate::gate::shortfall(required, supported, tolerated, tolerable, from + 1);
        let after = choose|after: Seq<int>| #[trigger]
            picked_in_order(required, from as int + 1, later, after);
        let id = required[from as int]@;
        if !supported.contains_key(id) && tolerated.contains_key(id) == tolerable {
            let places = seq![from as int] + after;
            assert(found == seq![id] + later);
            assert forall|k: int| 0 <= k < found.len() implies from <= #[trigger] places[k]
                < required.len() && required[places[k]]@ == found[k] by {
                if k > 0 {
                    assert(places[k] == after[k - 1] && found[k] == later[k - 1]);
                }
            }
            assert forall|k: int, l: int| 0 <= k < l < places.len() implies #[trigger] places[k]
                < #[trigger] places[l] by {
                assert(places[l] == after[l - 1]);
                if k > 0 {
                    assert(places[k] == after[k - 1]);
                }
            }
            assert(picked_in_order(required, from as int, found, places));
            assert forall|k: int| 0 <= k < found.len() implies !supported.contains_key(
                #[trigger] found[k],
            ) && tolerated.contains_key(found[k]) == tolerable by {
                if k > 0 {
                    assert(found[k] == later[k - 1]);
                }
            }
            assert forall|i: int|
                from <= i < required.len() && !supported.contains_key((#[trigger] required[i])@)
                    && tolerated.contains_key(required[i]@) == tolerable implies found.contains(
                required[i]@,
            ) by {
                if i == from {
                    assert(found[0] == id);
                } else {
                    assert(later.contains(required[i]@));
                    let k = choose|k: int| 0 <= k < later.len() && later[k] == required[i]@;
                    assert(found[k + 1] == later[k]);
                }
            }
        } else {
            assert(picked_in_order(required, from as int, found, after));
        }
    }
}

/// A scene passes exactly when everything that it requires is supported or
/// tolerated, or nothing is known of it. It runs with the limitations that are
/// tolerated and not supported; what stops it is what is neither, in the order
/// in which the scene requires it.
pub proof fn law_scene_passes_with_what_it_lacks(
    inspection: Inspection,
    supported: &NameMap<()>,
    tolerated: &NameMap<()>,
    decision: Result<Passage, ApplyError>,
    id: Seq<char>,
)
    requires
        call_ensures(scene_capability_gate, (inspection, supported, tolerated), decision),
    ensures
        inspection is Unavailable ==> decision is Ok && decision->Ok_0.limitations@.len() == 0
            && decision->Ok_0.inspection_unavailable is Some
            && decision->Ok_0.inspection_unavailable->0@ == inspection->Unavailable_reason@,
        inspection is Incompatible ==> decision is Err && decision->Err_0 is CapabilityGate
            && decision->Err_0->missing@.len() == 0 && decision->Err_0->inspection_reason is Some
            && decision->Err_0->inspection_reason->0@ == inspection->Incompatible_reason@,
        inspection matches Inspection::Inventoried { required } ==> {
            &&& decision is Ok <==> forall|i: int|
                0 <= i < required@.len() ==> supported@.contains_key((#[trigger] required@[i])@)
                    || tolerated@.contains_key(required@[i]@)
            &&& decision is Ok ==> decision->Ok_0.inspection_unavailable is None && (has_text(
                decision->Ok_0.limitations@,
                id,
            ) <==> has_text(required@, id) && tolerated@.contains_key(id)
                && !supported@.contains_key(id)) && exists|places: Seq<int>| #[trigger]
                picked_in_order(
                    required@,
                    0,
                    crate::laws_text::texts_of(decision->Ok_0.limitations@),
                    places,
                )
            &&& decision is Err ==> decision->Err_0 is CapabilityGate
                && decision->Err_0->inspection_reason is None && (has_text(
                decision->Err_0->missing@,
                id,
            ) <==> has_text(required@, id) && !tolerated@.contains_key(id)
                && !supported@.contains_key(id)) && exists|places: Seq<int>| #[trigger]
                picked_in_order(
                    required@,
                    0,
                    crate::laws_text::texts_of(decision->Err_0->missing@),
                    places,
                )
        },
{
    if let Inspection::Inventoried { required } = inspection {
        let missing = crate::gate::shortfall(required@, supported@, tolerated@, false, 0);
        let lacking = crate::gate::shortfall(required@, supported@, tolerated@, true, 0);
        lemma_shortfall(required@, supported@, tolerated@, false, 0);
        lemma_shortfall(required@, supported@, tolerated@, true, 0);
        if forall|i: int|
            0 <= i < required@.len() ==> supported@.contains_key((#[trigger] required@[i])@)
                || tolerated@.contains_key(required@[i]@) {
            if missing.len() > 0 {
                let places = choose|places: Seq<int>| #[trigger]
                    picked_in_order(required@, 0, missing, places);
                assert(required@[places[0]]@ == missing[0]);
            }
        }
        match decision {
            Ok(passage) => {
                lemma_picked(required@, passage.limitations@, supported@, tolerated@, true, id);
                assert(crate::laws_text::texts_of(passage.limitations@) =~= lacking);
            },
            Err(error) => {
                lemma_picked(required@, error->missing@, supported@, tolerated@, false, id);
                assert(crate::laws_text::texts_of(error->missing@) =~= missing);
            },
        }
    }
}

proof fn lemma_picked(
    required: Seq<String>,
    picked: Seq<String>,
    supported: Map<Seq<char>, ()>,
    tolerated: Map<Seq<char>, ()>,
    tolerable: bool,
    id: Seq<char>,
)
    requires
        crate::text::views(picked) == crate::gate::shortfall(
            required,
            supported,
            tolerated,
            tolerable,
            0,
        ),
    ensures
        has_text(picked, id) <==> has_text(required, id) && !supported.contains_key(id)
            && tolerated.contains_key(id) == tolerable,
{
    let found = crate::gate::shortfall(required, supported, tolerated, tolerable, 0);
    let views = crate::text::views(picked);
    lemma_shortfall(required, supported, tolerated, tolerable, 0);
    let places = choose|places: Seq<int>| #[trigger] picked_in_order(required, 0, found, places);
    if has_text(picked, id) {
        let k = choose|k: int| 0 <= k < picked.len() && (#[trigger] picked[k])@ == id;
        assert(views[k] == id);
        assert(found[k] == id);
        assert(required[places[k]]@ == id);
    }
    if has_text(required, id) && !supported.contains_key(id) && tolerated.contains_key(id)
        == tolerable {
        let i = choose|i: int| 0 <= i < required.len() && (#[trigger] required[i])@ == id;
        assert(found.contains(required[i]@));
        let k = choose|k: int| 0 <= k < found.len() && found[k] == id;
        assert(views[k] == id);
        assert(picked[k]@ == id);
    }
}

// ---------------------------------------------------------------------------
// Probes
// ---------------------------------------------------------------------------

/// A probe failure keeps its words; it is a timeout exactly when they say so.
pub proof fn law_probe_failure_keeps_its_words(detail: &str, error: ProbeError, message: String)
    requires
        call_ensures(classify_probe_failure, (detail,), error),
        call_ensures(ProbeError::message, (&error,), message),
    ensures
        message@ == detail@,
        error is TimedOut || error is Unreachable,
        error is TimedOut <==> exists|i: int|
            0 <= i && i + 9 <= detail@.len() && #[trigger] detail@.subrange(i, i + 9)
                == "timed out"@,
{
    reveal_strlit("timed out");
    assert("timed out"@.len() == 9);
    if error is TimedOut {
        let at = choose|at: int| crate::text::occurs_at(detail@, "timed out"@, at);
        assert(detail@.subrange(at, at + 9) == "timed out"@);
    }
    if exists|i: int|
        0 <= i && i + 9 <= detail@.len() && #[trigger] detail@.subrange(i, i + 9) == "timed out"@ {
        let i = choose|i: int|
            0 <= i && i + 9 <= detail@.len() && #[trigger] detail@.subrange(i, i + 9)
                == "timed out"@;
        assert(crate::text::occurs_at(detail@, "timed out"@, i));
    }
}

/// A text without an escape character comes out as it is; none comes out of
/// any; and a colour before a text makes no difference.
pub proof fn law_escapes_are_stripped(
    line: &str,
    plain: String,
    coloured: &str,
    colour: Seq<char>,
    end: char,
    same: String,
)
    requires
        call_ensures(strip_ansi, (line,), plain),
        call_ensures(strip_ansi, (coloured,), same),
        coloured@ == seq!['\u{1b}', '['] + colour + seq![end] + line@,
        forall|i: int| 0 <= i < colour.len() ==> !is_ascii_letter(#[trigger] colour[i]),
        is_ascii_letter(end),
    ensures
        !plain@.contains('\u{1b}'),
        !line@.contains('\u{1b}') ==> plain@ == line@,
        same@ == plain@,
{
    lemma_no_escape(line@, 0);
    if !line@.contains('\u{1b}') {
        lemma_plain(line@, 0);
        assert(line@.skip(0) =~= line@);
    }
    let n = colour.len();
    assert(coloured@[0] == '\u{1b}' && coloured@[1] == '[');
    assert forall|i: int| 2 <= i < n + 2 implies !crate::probe::is_letter(
        #[trigger] coloured@[i],
    ) by {
        assert(coloured@[i] == colour[i - 2]);
        assert(!is_ascii_letter(colour[i - 2]));
    }
    assert(coloured@[n as int + 2] == end);
    lemma_letter_at(coloured@, 2, n + 2);
    assert(coloured@.skip(n as int + 3) =~= line@);
    lemma_shifted(coloured@, n + 3, line@, 0);
}

pub open spec fn is_ascii_letter(c: char) -> bool {
    65 <= c as int <= 90 || 97 <= c as int <= 122
}

proof fn lemma_letter_at(s: Seq<char>, from: nat, at: nat)
    requires
        from <= at < s.len(),
        forall|i: int| from <= i < at ==> !crate::probe::is_letter(#[trigger] s[i]),
        crate::probe::is_letter(s[at as int]),
    ensures
        crate::probe::after_letter(s, from) == at + 1,
    decreases at - from,
{
    if from < at {
        lemma_letter_at(s, from + 1, at);
    }
}

proof fn lemma_no_escape(s: Seq<char>, from: nat)
    ensures
        !crate::probe::without_ansi(s, from).contains('\u{1b}'),
    decreases s.len() - from,
{
    if from < s.len() {
        crate::probe::lemma_after_letter(
            s,
            if from + 2 <= s.len() {
                from + 2
            } else {
                s.len()
            },
        );
        crate::probe::lemma_after_bell(
            s,
            if from + 2 <= s.len() {
                from + 2
            } else {
                s.len()
            },
        );
        if s[from as int] != '\u{1b}' {
            lemma_no_escape(s, from + 1);
            let later = crate::probe::without_ansi(s, from + 1);
            let all = seq![s[from as int]] + later;
            if all.contains('\u{1b}') {
                let i = choose|i: int| 0 <= i < all.len() && all[i] == '\u{1b}';
                assert(later[i - 1] == '\u{1b}');
            }
        } else if from + 1 < s.len() {
            if s[from as int + 1] == '[' {
                lemma_no_escape(s, crate::probe::after_letter(s, from + 2));
            } else if s[from as int + 1] == ']' {
                lemma_no_escape(s, crate::probe::after_bell(s, from + 2));
            } else {
                lemma_no_escape(s, from + 2);
            }
        }
    }
}

proof fn lemma_plain(s: Seq<char>, from: nat)
    requires
        from <= s.len(),
        !s.contains('\u{1b}'),
    ensures
        crate::probe::without_ansi(s, from) == s.skip(from as int),
    decreases s.len() - from,
{
    if from < s.len() {
        lemma_plain(s, from + 1);
        assert(s.skip(from as int) =~= seq![s[from as int]] + s.skip(from as int + 1));
    } else {
        assert(s.skip(from as int) =~= seq![]);
    }
}

proof fn lemma_shifted_ends(s: Seq<char>, by: nat, rest: Seq<char>, from: nat)
    requires
        by <= s.len(),
        rest == s.skip(by as int),
        from <= rest.len(),
    ensures
        crate::probe::after_letter(s, by + from) == by + crate::probe::after_letter(rest, from),
        crate::probe::after_bell(s, by + from) == by + crate::probe::after_bell(rest, from),
    decreases rest.len() - from,
{
    if from < rest.len() {
        assert(rest[from as int] == s[by as int + from]);
        lemma_shifted_ends(s, by, rest, from + 1);
    }
}

proof fn lemma_shifted(s: Seq<char>, by: nat, rest: Seq<char>, from: nat)
    requires
        by <= s.len(),
        rest == s.skip(by as int),
        from <= rest.len(),
    ensures
        crate::probe::without_ansi(s, by + from) == crate::probe::without_ansi(rest, from),
    decreases rest.len() - from,
{
    if from < rest.len() {
        assert(rest[from as int] == s[by as int + from]);
        if rest[from as int] != '\u{1b}' {
            lemma_shifted(s, by, rest, from + 1);
        } else if from + 1 < rest.len() {
            assert(rest[from as int + 1] == s[by as int + from + 1]);
            lemma_shifted_ends(s, by, rest, from + 2);
            crate::probe::lemma_after_letter(rest, from + 2);
            crate::probe::lemma_after_bell(rest, from + 2);
            if rest[from as int + 1] == '[' {
                lemma_shifted(s, by, rest, crate::probe::after_letter(rest, from + 2));
            } else if rest[from as int + 1] == ']' {
                lemma_shifted(s, by, rest, crate::probe::after_bell(rest, from + 2));
            } else {
                lemma_shifted(s, by, rest, from + 2);
            }
        }
    }
}

/// A geometry is the position before the first comma of the first word and
/// after it, and the size before the first `x` of the second word and after
/// it, in that order.
pub proof fn law_geometry_is_position_and_size(
    text: &str,
    geometry: Option<[i32; 4]>,
    words: Vec<String>,
    first: &str,
    second: &str,
    position: Option<(String, String)>,
    size: Option<(String, String)>,
)
    requires
        call_ensures(parse_geometry, (text,), geometry),
        call_ensures(split_words, (text,), words),
        words@.len() >= 2,
        first@ == words@[0]@,
        second@ == words@[1]@,
        call_ensures(cut_once, (first, ','), position),
        call_ensures(cut_once, (second, 'x'), size),
    ensures
        geometry is Some <==> {
            &&& position matches Some((x, y)) && crate::text::parse_signed(x@) is Some
                && crate::text::parse_signed(y@) is Some
            &&& size matches Some((w, h)) && crate::text::parse_signed(w@) is Some
                && crate::text::parse_signed(h@) is Some
        },
        geometry matches Some(numbers) ==> {
            &&& position matches Some((x, y)) && crate::text::parse_signed(x@) == Some(
                numbers@[0] as int,
            ) && crate::text::parse_signed(y@) == Some(numbers@[1] as int)
            &&& size matches Some((w, h)) && crate::text::parse_signed(w@) == Some(
                numbers@[2] as int,
            ) && crate::text::parse_signed(h@) == Some(numbers@[3] as int)
        },
{
    let views = crate::text::views(words@);
    assert(views.len() == words@.len());
    assert(views[0] == words@[0]@ && views[1] == words@[1]@);
    if let Some((x, y)) = position {
        lemma_signed_fits(x@);
        lemma_signed_fits(y@);
    }
    if let Some((w, h)) = size {
        lemma_signed_fits(w@);
        lemma_signed_fits(h@);
    }
}

proof fn lemma_signed_fits(s: Seq<char>)
    ensures
        crate::text::parse_signed(s) matches Some(n) ==> i32::MIN <= n <= i32::MAX,
{
}

// ---------------------------------------------------------------------------
// Outputs
// ---------------------------------------------------------------------------

/// The connector's screen, or none.
pub open spec fn mapped_screen(connectors: NameMap<i32>, name: Seq<char>) -> int {
    if connectors@.contains_key(name) {
        connectors@[name] as int
    } else {
        -1
    }
}

/// A desktop stands on the screen.
pub open spec fn stands_on(desktops: Seq<ProbeDesktop>, screen: int) -> bool {
    screen >= 0 && exists|k: int|
        0 <= k < desktops.len() && (#[trigger] desktops[k]).screen == screen
}

/// Every system output is reported once, in order, with its own name, geometry
/// and state, the screen of its connector, and the first desktop on that
/// screen: its id and index, its plugin and the plugin's config group, and its
/// image if that is not empty.
pub proof fn law_outputs_carry_their_desktops(
    system: Vec<SystemOutput>,
    desktops: Vec<ProbeDesktop>,
    connectors: NameMap<i32>,
    outputs: Vec<OutputInfo>,
    i: int,
)
    requires
        call_ensures(assemble_outputs, (system, desktops, connectors), outputs),
        0 <= i < system@.len(),
    ensures
        outputs@.len() == system@.len(),
        outputs@[i].name@ == system@[i].name@,
        outputs@[i].enabled == system@[i].enabled,
        outputs@[i].connected == system@[i].connected,
        outputs@[i].geometry is Some <==> system@[i].geometry is Some,
        outputs@[i].geometry is Some ==> outputs@[i].geometry->0@ == system@[i].geometry->0@,
        outputs@[i].screen == mapped_screen(connectors, system@[i].name@),
        stands_on(desktops@, outputs@[i].screen as int) ==> exists|k: int|
            0 <= k < desktops@.len() && carries(outputs@[i], #[trigger] desktops@[k]) && forall|
                j: int,
            |
                0 <= j < k ==> (#[trigger] desktops@[j]).screen != outputs@[i].screen,
        !stands_on(desktops@, outputs@[i].screen as int) ==> {
            &&& outputs@[i].desktop_id is None
            &&& outputs@[i].desktop_index is None
            &&& outputs@[i].wallpaper_plugin is None
            &&& outputs@[i].config_group@.len() == 0
            &&& outputs@[i].image is None
        },
{
    let info = outputs@[i];
    assert(crate::probe::merged(system@[i]@, desktops@, connectors@, info));
    let screen = info.screen;
    lemma_first_desktop(desktops@, screen, 0);
    let at = crate::probe::desktop_on(desktops@, screen, 0) as int;
    if screen >= 0 && at < desktops@.len() {
        let desktop = desktops@[at];
        let group = crate::text::views(info.config_group@);
        assert(group.len() == info.config_group@.len());
        assert(group[0] == info.config_group@[0]@);
        assert(group[1] == info.config_group@[1]@);
        assert(group[2] == info.config_group@[2]@);
        assert(carries(info, desktop));
    }
}

/// The output says of its desktop what the desktop says.
pub open spec fn carries(info: OutputInfo, desktop: ProbeDesktop) -> bool {
    &&& desktop.screen == info.screen
    &&& info.desktop_id == Some(desktop.id)
    &&& info.desktop_index == Some(desktop.index)
    &&& info.wallpaper_plugin is Some && info.wallpaper_plugin->0@ == desktop.wp@
    &&& info.config_group@.len() == 3
    &&& info.config_group@[0]@ == "Wallpaper"@
    &&& info.config_group@[1]@ == desktop.wp@
    &&& info.config_group@[2]@ == "General"@
    &&& info.image is Some <==> desktop.image is Some && desktop.image->0@.len() > 0
    &&& info.image is Some ==> info.image->0@ == desktop.image->0@
}

proof fn lemma_first_desktop(desktops: Seq<ProbeDesktop>, screen: i32, from: nat)
    requires
        from <= desktops.len(),
    ensures
        from <= crate::probe::desktop_on(desktops, screen, from) <= desktops.len(),
        crate::probe::desktop_on(desktops, screen, from) < desktops.len()
            ==> desktops[crate::probe::desktop_on(desktops, screen, from) as int].screen == screen,
        forall|j: int|
            from <= j < crate::probe::desktop_on(desktops, screen, from) ==> (
            #[trigger] desktops[j]).screen != screen,
    decreases desktops.len() - from,
{
    if from < desktops.len() && desktops[from as int].screen != screen {
        lemma_first_desktop(desktops, screen, from + 1);
    }
}

/// An enumeration is served for five seconds after it was made, as it was
/// made, and never without one.
pub proof fn law_enumeration_is_served_for_five_seconds(
    cache: &mut OutputCache,
    entries: Vec<OutputInfo>,
    now: u64,
    later: u64,
    fresh: bool,
    stale: OutputCache,
    never: bool,
)
    requires
        call_ensures(OutputCache::store, (cache, entries, now), ()),
        call_ensures(OutputCache::fresh, (&*final(cache), later), fresh),
        call_ensures(OutputCache::stale, (), stale),
        call_ensures(OutputCache::fresh, (&stale, later), never),
    ensures
        final(cache).entries == entries,
        fresh <==> later < now + 5000,
        !never,
        stale.entries@.len() == 0,
{
}

// ---------------------------------------------------------------------------
// kscreen-doctor
// ---------------------------------------------------------------------------

/// A line of the doctor's report as it is read.
pub open spec fn read_line(raw: Seq<char>) -> Seq<char> {
    crate::probe::doctor_line(raw)
}

/// The line opens the block of an output.
pub open spec fn is_heading(raw: Seq<char>) -> bool {
    crate::text::starts_with(read_line(raw), "Output: "@)
}

/// The last of the two lines that stands in `lines[from..to)` is `yes`; with
/// neither of them it is as it was.
pub open spec fn ends_up(
    lines: Seq<Seq<char>>,
    from: int,
    to: int,
    yes: Seq<char>,
    no: Seq<char>,
    before: bool,
) -> bool
    decreases to - from,
{
    if to <= from {
        before
    } else if read_line(lines[to - 1]) == yes {
        true
    } else if read_line(lines[to - 1]) == no {
        false
    } else {
        ends_up(lines, from, to - 1, yes, no, before)
    }
}

/// What the block of lines `lines[from..to)` makes of an output.
spec fn block(
    lines: Seq<Seq<char>>,
    from: int,
    to: int,
    output: crate::probe::SystemOutputView,
) -> crate::probe::SystemOutputView
    decreases to - from,
{
    if to <= from {
        output
    } else {
        crate::probe::described(block(lines, from, to - 1, output), read_line(lines[to - 1]))
    }
}

proof fn lemma_block_first(
    lines: Seq<Seq<char>>,
    from: int,
    to: int,
    output: crate::probe::SystemOutputView,
)
    requires
        from < to,
    ensures
        block(lines, from, to, output) == block(
            lines,
            from + 1,
            to,
            crate::probe::described(output, read_line(lines[from])),
        ),
    decreases to - from,
{
    if from + 1 < to {
        lemma_block_first(lines, from, to - 1, output);
    } else {
        assert(block(lines, from, to - 1, output) == output);
        let next = crate::probe::described(output, read_line(lines[from]));
        assert(block(lines, from + 1, to, next) == next);
    }
}

proof fn lemma_words_differ()
    ensures
        "enabled"@ != "disabled"@,
        "enabled"@ != "connected"@,
        "enabled"@ != "disconnected"@,
        "disabled"@ != "connected"@,
        "disabled"@ != "disconnected"@,
        "connected"@ != "disconnected"@,
        !crate::text::starts_with("enabled"@, "Geometry: "@),
        !crate::text::starts_with("disabled"@, "Geometry: "@),
        !crate::text::starts_with("connected"@, "Geometry: "@),
        !crate::text::starts_with("disconnected"@, "Geometry: "@),
{
    reveal_strlit("enabled");
    reveal_strlit("disabled");
    reveal_strlit("connected");
    reveal_strlit("disconnected");
    reveal_strlit("Geometry: ");
    assert("enabled"@.len() == 7 && "disabled"@.len() == 8 && "connected"@.len() == 9
        && "disconnected"@.len() == 12);
    let heading = "Geometry: "@;
    assert(heading.len() == 10 && heading[0] == 'G');
    assert("disconnected"@[0] == 'd');
    if crate::text::starts_with("disconnected"@, heading) {
        assert("disconnected"@.subrange(0, 10)[0] == 'd');
    }
}

proof fn lemma_block(
    lines: Seq<Seq<char>>,
    from: int,
    to: int,
    output: crate::probe::SystemOutputView,
)
    ensures
        ({
            let made = block(lines, from, to, output);
            &&& made.name == output.name
            &&& made.enabled == ends_up(
                lines,
                from,
                to,
                "enabled"@,
                "disabled"@,
                output.enabled,
            )
            &&& made.connected == ends_up(
                lines,
                from,
                to,
                "connected"@,
                "disconnected"@,
                output.connected,
            )
            &&& forall|g: int|
                from <= g < to && crate::text::starts_with(
                    #[trigger] read_line(lines[g]),
                    "Geometry: "@,
                ) && (forall|j: int|
                    g < j < to ==> !crate::text::starts_with(
                        #[trigger] read_line(lines[j]),
                        "Geometry: "@,
                    )) ==> made.geometry == crate::probe::geometry_of(read_line(lines[g]).skip(10))
            &&& (forall|j: int|
                from <= j < to ==> !crate::text::starts_with(
                    #[trigger] read_line(lines[j]),
                    "Geometry: "@,
                )) ==> made.geometry == output.geometry
        }),
    decreases to - from,
{
    lemma_words_differ();
    reveal_strlit("Geometry: ");
    assert("Geometry: "@.len() == 10);
    if from < to {
        lemma_block(lines, from, to - 1, output);
        let before = block(lines, from, to - 1, output);
        let made = block(lines, from, to, output);
        let line = read_line(lines[to - 1]);
        assert forall|g: int|
            from <= g < to && crate::text::starts_with(
                #[trigger] read_line(lines[g]),
                "Geometry: "@,
            ) && (forall|j: int|
                g < j < to ==> !crate::text::starts_with(
                    #[trigger] read_line(lines[j]),
                    "Geometry: "@,
                )) implies made.geometry == crate::probe::geometry_of(
            read_line(lines[g]).skip(10),
        ) by {
            if g < to - 1 {
                assert(!crate::text::starts_with(read_line(lines[to - 1]), "Geometry: "@));
                assert(before.geometry == crate::probe::geometry_of(
                    read_line(lines[g]).skip(10),
                ));
            }
        }
    }
}

/// The lines below a heading, up to the next, make one output.
proof fn lemma_doctor_block(
    lines: Seq<Seq<char>>,
    from: nat,
    end: nat,
    output: crate::probe::SystemOutputView,
)
    requires
        from <= end <= lines.len(),
        forall|j: int| from <= j < end ==> !is_heading(#[trigger] lines[j]),
        end < lines.len() ==> is_heading(lines[end as int]),
    ensures
        crate::probe::doctor_outputs(lines, from, Some(output)) == seq![
            block(lines, from as int, end as int, output),
        ] + crate::probe::doctor_outputs(lines, end, None),
    decreases end - from,
{
    if from < end {
        assert(!is_heading(lines[from as int]));
        let next = crate::probe::described(output, read_line(lines[from as int]));
        lemma_doctor_block(lines, from + 1, end, next);
        lemma_block_first(lines, from as int, end as int, output);
    } else {
        let none: Seq<crate::probe::SystemOutputView> = seq![];
        let later = crate::probe::doctor_outputs(lines, end, None);
        if end < lines.len() {
            let line = read_line(lines[end as int]);
            let opened = crate::probe::opened_output(line.skip("Output: "@.len() as int));
            let rest = crate::probe::doctor_outputs(lines, end + 1, opened);
            assert(later == none + rest);
            assert(none + rest =~= rest);
            assert(crate::probe::doctor_outputs(lines, from, Some(output)) == seq![output] + rest);
        } else {
            assert(later =~= none);
            assert(seq![output] + later =~= seq![output]);
        }
    }
}

proof fn lemma_doctor_skips(lines: Seq<Seq<char>>, from: nat, end: nat)
    requires
        from <= end <= lines.len(),
        forall|j: int| from <= j < end ==> !is_heading(#[trigger] lines[j]),
    ensures
        crate::probe::doctor_outputs(lines, from, None) == crate::probe::doctor_outputs(
            lines,
            end,
            None,
        ),
    decreases end - from,
{
    if from < end {
        assert(!is_heading(lines[from as int]));
        lemma_doctor_skips(lines, from + 1, end);
    }
}

/// The output came of the block that is opened at `at` and ends at `end`: it
/// goes by the second word of the heading; it is enabled unless the last line
/// about that says `disabled`; it is connected exactly if the last line about
/// that says `connected`; and its geometry is that of the last line that tells
/// one.
pub open spec fn came_of_block(
    lines: Seq<Seq<char>>,
    at: int,
    end: int,
    output: SystemOutput,
) -> bool {
    let words = crate::text::words_from(read_line(lines[at]).skip(8), 0);
    &&& words.len() >= 2 && output.name@ == words[1]
    &&& output.enabled == ends_up(lines, at + 1, end, "enabled"@, "disabled"@, true)
    &&& output.connected == ends_up(lines, at + 1, end, "connected"@, "disconnected"@, false)
    &&& forall|g: int|
        at < g < end && crate::text::starts_with(
            #[trigger] read_line(lines[g]),
            "Geometry: "@,
        ) && (forall|j: int|
            g < j < end ==> !crate::text::starts_with(
                #[trigger] read_line(lines[j]),
                "Geometry: "@,
            )) ==> crate::probe::geometry_view(output.geometry) == crate::probe::geometry_of(
            read_line(lines[g]).skip(10),
        )
    &&& (forall|j: int|
        at < j < end ==> !crate::text::starts_with(
            #[trigger] read_line(lines[j]),
            "Geometry: "@,
        )) ==> output.geometry is None
}

// ---------------------------------------------------------------------------
// The display environment
// ---------------------------------------------------------------------------

/// A printable ASCII character that no shell treats specially within a word.
pub open spec fn is_plain(c: char) -> bool {
    &&& 33 <= c as int <= 126
    &&& c as int != 34 && c as int != 36 && c as int != 39 && c as int != 92 && c as int != 96
}

/// A display value is 1 to 128 plain characters.
pub proof fn law_display_values_are_plain(value: &str, valid: bool)
    requires
        call_ensures(valid_display_value, (value,), valid),
    ensures
        valid <==> 0 < value@.len() < 129 && forall|i: int|
            0 <= i < value@.len() ==> is_plain(#[trigger] value@[i]),
{
    lemma_plain_display(value@);
}

proof fn lemma_plain_display(value: Seq<char>)
    ensures
        crate::probe::valid_display(value) <==> 0 < value.len() < 129 && forall|i: int|
            0 <= i < value.len() ==> is_plain(#[trigger] value[i]),
{
    if crate::probe::valid_display(value) {
        assert forall|i: int| 0 <= i < value.len() implies is_plain(#[trigger] value[i]) by {
            assert(crate::probe::display_char(value[i]));
        }
    }
    if 0 < value.len() < 129 && forall|i: int|
        0 <= i < value.len() ==> is_plain(#[trigger] value[i]) {
        assert forall|i: int| 0 <= i < value.len() implies crate::probe::display_char(
            #[trigger] value[i],
        ) by {
            assert(is_plain(value[i]));
        }
    }
}

/// The line sets this variable to this value, in double quotes or without.
pub open spec fn sets(line: Seq<char>, key: Seq<char>, value: Seq<char>) -> bool {
    ||| line == key + seq!['='] + value
    ||| line == key + seq!['='] + seq!['"'] + value + seq!['"']
}

/// What is picked out of an environment is what its lines set: only the two
/// display variables, each with a plain value.
pub proof fn law_display_variables_are_the_environments(
    text: &str,
    lines: Vec<String>,
    entries: Vec<(String, String)>,
    i: int,
)
    requires
        call_ensures(parse_display_env, (text,), entries),
        call_ensures(split_lines, (text,), lines),
        0 <= i < entries@.len(),
    ensures
        entries@[i].0@ == "WAYLAND_DISPLAY"@ || entries@[i].0@ == "DISPLAY"@,
        0 < entries@[i].1@.len() < 129,
        forall|j: int| 0 <= j < entries@[i].1@.len() ==> is_plain(#[trigger] entries@[i].1@[j]),
        exists|k: int|
            0 <= k < lines@.len() && sets(
                (#[trigger] lines@[k])@,
                entries@[i].0@,
                entries@[i].1@,
            ),
{
    let all = crate::text::views(lines@);
    let found = crate::probe::display_entries(all, 0);
    let views = crate::probe::pair_views(entries@);
    assert(views.len() == entries@.len());
    assert(views[i] == (entries@[i].0@, entries@[i].1@));
    lemma_entry(all, 0, i);
    lemma_plain_display(found[i].1);
    let k = choose|k: int|
        0 <= k < all.len() && crate::probe::display_entry(#[trigger] all[k]) == Some(found[i]);
    assert(all[k] == lines@[k]@);
    lemma_sets(all[k]);
}

proof fn lemma_entry(lines: Seq<Seq<char>>, from: nat, i: int)
    requires
        0 <= i < crate::probe::display_entries(lines, from).len(),
    ensures
        exists|k: int|
            from <= k < lines.len() && crate::probe::display_entry(#[trigger] lines[k]) == Some(
                crate::probe::display_entries(lines, from)[i],
            ),
    decreases lines.len() - from,
{
    if from < lines.len() {
        let later = crate::probe::display_entries(lines, from + 1);
        let all = crate::probe::display_entries(lines, from);
        match crate::probe::display_entry(lines[from as int]) {
            Some(entry) => {
                if i == 0 {
                    assert(all[0] == entry);
                } else {
                    assert(all[i] == later[i - 1]);
                    lemma_entry(lines, from + 1, i - 1);
                }
            },
            None => {
                lemma_entry(lines, from + 1, i);
            },
        }
    }
}

proof fn lemma_sets(line: Seq<char>)
    ensures
        crate::probe::display_entry(line) matches Some((key, value)) ==> sets(line, key, value)
            && crate::probe::display_key(key) && crate::probe::valid_display(value),
{
    crate::text::lemma_index_of(line, '=', 0);
    let at = crate::text::index_of(line, '=', 0) as int;
    if at < line.len() {
        let key = line.take(at);
        let raw = line.skip(at + 1);
        assert(line =~= key + seq!['='] + raw);
        let value = crate::probe::unquoted(raw);
        if raw.len() >= 2 && raw[0] == '"' && raw.last() == '"' {
            assert(raw =~= seq!['"'] + value + seq!['"']);
            assert(line =~= key + seq!['='] + seq!['"'] + value + seq!['"']);
        }
    }
}

// ---------------------------------------------------------------------------
// Refusals in words
// ---------------------------------------------------------------------------

/// The texts one after another, with a comma and a blank between two.
pub open spec fn in_a_row(texts: Seq<Seq<char>>) -> Seq<char>
    decreases texts.len(),
{
    if texts.len() == 0 {
        seq![]
    } else if texts.len() == 1 {
        texts[0]
    } else {
        texts[0] + seq![',', ' '] + in_a_row(texts.drop_first())
    }
}

proof fn lemma_in_a_row(texts: Seq<Seq<char>>)
    ensures
        crate::gate::comma_separated(texts) == in_a_row(texts),
    decreases texts.len(),
{
    reveal_strlit(", ");
    assert(", "@ =~= seq![',', ' ']);
    if texts.len() > 1 {
        let front = texts.drop_last();
        let back = texts.drop_first();
        lemma_in_a_row(front);
        lemma_in_a_row(back);
        if texts.len() == 2 {
            assert(in_a_row(back) == texts[1]);
            assert(crate::gate::comma_separated(front) == texts[0]);
            assert(crate::gate::comma_separated(texts) =~= in_a_row(texts));
        } else {
            let middle = front.drop_first();
            assert(middle =~= back.drop_last());
            lemma_in_a_row(middle);
            assert(front[0] == texts[0]);
            assert(back.last() == texts.last());
            assert(in_a_row(front) == texts[0] + seq![',', ' '] + in_a_row(middle));
            assert(crate::gate::comma_separated(back) == crate::gate::comma_separated(middle)
                + seq![',', ' '] + texts.last());
            assert(crate::gate::comma_separated(texts) =~= in_a_row(texts));
        }
    }
}

/// A refusal says what is missing, all of it and in order, or what the inspector
/// said.
pub proof fn law_refusal_says_what_is_missing(
    inspection: Inspection,
    supported: &NameMap<()>,
    tolerated: &NameMap<()>,
    decision: Result<Passage, ApplyError>,
)
    requires
        call_ensures(scene_capability_gate, (inspection, supported, tolerated), decision),
        decision is Err,
    ensures
        inspection is Inventoried ==> decision->Err_0->CapabilityGate_detail@
            == "scene requires capabilities this build does not implement: "@ + in_a_row(
            crate::laws_text::texts_of(decision->Err_0->missing@),
        ) && decision->Err_0->missing@.len() > 0,
        inspection is Incompatible ==> decision->Err_0->CapabilityGate_detail@
            == "the scene inspector refused the content: "@ + inspection->Incompatible_reason@,
{
    let missing = decision->Err_0->missing@;
    assert(crate::laws_text::texts_of(missing) =~= crate::text::views(missing));
    lemma_in_a_row(crate::text::views(missing));
}

// ---------------------------------------------------------------------------
// Whole reports
// ---------------------------------------------------------------------------

/// The line opens the block of an output that has a name.
pub open spec fn names_output(raw: Seq<char>) -> bool {
    is_heading(raw) && crate::text::words_from(read_line(raw).skip(8), 0).len() >= 2
}

/// `end` is where the block ends that begins before it: at the next heading, or
/// with the report.
pub open spec fn block_ends(lines: Seq<Seq<char>>, at: int, end: int) -> bool {
    &&& at < end <= lines.len()
    &&& forall|j: int| at < j < end ==> !is_heading(#[trigger] lines[j])
    &&& end < lines.len() ==> is_heading(lines[end])
}

/// Output `k` came of the block that is opened at `places[k]`, in order, and
/// every heading that names an output opened one.
pub open spec fn came_of_blocks(
    lines: Seq<Seq<char>>,
    from: int,
    outputs: Seq<SystemOutput>,
    places: Seq<int>,
) -> bool {
    &&& places.len() == outputs.len()
    &&& forall|k: int|
        0 <= k < outputs.len() ==> from <= #[trigger] places[k] < lines.len() && names_output(
            lines[places[k]],
        ) && exists|end: int| #[trigger]
            block_ends(lines, places[k], end) && came_of_block(lines, places[k], end, outputs[k])
    &&& forall|k: int, l: int|
        0 <= k < l < places.len() ==> #[trigger] places[k] < #[trigger] places[l]
    &&& forall|j: int|
        from <= j < lines.len() && names_output(#[trigger] lines[j]) ==> places.contains(j)
}

/// Every block of a report that names an output is read as that output, in
/// order, and nothing else is.
pub proof fn law_every_block_is_an_output(
    report: &str,
    lines: Vec<String>,
    outputs: Vec<SystemOutput>,
)
    requires
        call_ensures(parse_kscreen_doctor, (report,), outputs),
        call_ensures(split_lines, (report,), lines),
    ensures
        exists|places: Seq<int>| #[trigger]
            came_of_blocks(crate::laws_text::texts_of(lines@), 0, outputs@, places),
{
    let all = crate::text::views(lines@);
    assert(crate::laws_text::texts_of(lines@) =~= all);
    lemma_report(all, 0, outputs@);
}

proof fn lemma_next_heading(lines: Seq<Seq<char>>, from: nat) -> (end: nat)
    requires
        from <= lines.len(),
    ensures
        from <= end <= lines.len(),
        forall|j: int| from <= j < end ==> !is_heading(#[trigger] lines[j]),
        end < lines.len() ==> is_heading(lines[end as int]),
    decreases lines.len() - from,
{
    if from == lines.len() || is_heading(lines[from as int]) {
        from
    } else {
        lemma_next_heading(lines, from + 1)
    }
}

/// A block before others, over the lines before them.
proof fn lemma_block_before(
    lines: Seq<Seq<char>>,
    from: int,
    at: int,
    end: int,
    outputs: Seq<SystemOutput>,
    after: Seq<int>,
)
    requires
        0 <= from <= at < lines.len(),
        outputs.len() > 0,
        forall|j: int| from <= j < at ==> !is_heading(#[trigger] lines[j]),
        names_output(lines[at]),
        block_ends(lines, at, end),
        came_of_block(lines, at, end, outputs[0]),
        came_of_blocks(lines, end, outputs.drop_first(), after),
    ensures
        came_of_blocks(lines, from, outputs, seq![at] + after),
{
    let others = outputs.drop_first();
    let places = seq![at] + after;
    assert forall|k: int| 0 <= k < outputs.len() implies from <= #[trigger] places[k]
        < lines.len() && names_output(lines[places[k]]) && exists|stop: int| #[trigger]
        block_ends(lines, places[k], stop) && came_of_block(
            lines,
            places[k],
            stop,
            outputs[k],
        ) by {
        if k > 0 {
            assert(places[k] == after[k - 1] && outputs[k] == others[k - 1]);
        }
    }
    assert forall|k: int, l: int| 0 <= k < l < places.len() implies #[trigger] places[k]
        < #[trigger] places[l] by {
        assert(places[l] == after[l - 1]);
        if k > 0 {
            assert(places[k] == after[k - 1]);
        }
    }
    assert forall|j: int|
        from <= j < lines.len() && names_output(#[trigger] lines[j]) implies places.contains(j) by {
        if j < at {
            assert(!is_heading(lines[j]));
        } else if j == at {
            assert(places[0] == j);
        } else if j < end {
            assert(!is_heading(lines[j]));
        } else {
            assert(after.contains(j));
            let k = choose|k: int| 0 <= k < after.len() && after[k] == j;
            assert(places[k + 1] == j);
        }
    }
}

#[verifier::spinoff_prover]
#[verifier::rlimit(40)]
proof fn lemma_report(lines: Seq<Seq<char>>, from: nat, outputs: Seq<SystemOutput>)
    requires
        from <= lines.len(),
        crate::probe::system_views(outputs) == crate::probe::doctor_outputs(lines, from, None),
    ensures
        exists|places: Seq<int>| #[trigger] came_of_blocks(lines, from as int, outputs, places),
    decreases lines.len() - from,
{
    let views = crate::probe::system_views(outputs);
    assert(views.len() == outputs.len());
    reveal_strlit("Output: ");
    assert("Output: "@.len() == 8);
    let at = lemma_next_heading(lines, from);
    lemma_doctor_skips(lines, from, at);
    if at == lines.len() {
        assert(views.len() == 0);
        assert(came_of_blocks(lines, from as int, outputs, Seq::empty()));
    } else {
        let end = lemma_next_heading(lines, at + 1);
        let opened = crate::probe::opened_output(read_line(lines[at as int]).skip(8));
        let none: Seq<crate::probe::SystemOutputView> = seq![];
        let rest = crate::probe::doctor_outputs(lines, at + 1, opened);
        assert(crate::probe::doctor_outputs(lines, at, None) == none + rest);
        assert(none + rest =~= rest);
        let later = crate::probe::doctor_outputs(lines, end, None);
        if opened is None {
            lemma_doctor_skips(lines, at + 1, end);
            lemma_report(lines, end, outputs);
            let places = choose|places: Seq<int>| #[trigger]
                came_of_blocks(lines, end as int, outputs, places);
            assert forall|j: int|
                from <= j < lines.len() && names_output(#[trigger] lines[j]) implies places.contains(
                j,
            ) by {
                if j < at {
                    assert(!is_heading(lines[j]));
                } else if j > at && j < end {
                    assert(!is_heading(lines[j]));
                }
            }
            assert(came_of_blocks(lines, from as int, outputs, places));
        } else {
            lemma_doctor_block(lines, at + 1, end, opened->0);
            lemma_block(lines, at as int + 1, end as int, opened->0);
            let made = block(lines, at as int + 1, end as int, opened->0);
            assert(views == seq![made] + later);
            let others = outputs.drop_first();
            assert(crate::probe::system_views(others) =~= later) by {
                assert forall|i: int| 0 <= i < others.len() implies crate::probe::system_views(
                    others,
                )[i] == later[i] by {
                    assert(views[i + 1] == outputs[i + 1]@);
                    assert(views[i + 1] == later[i]);
                }
            }
            lemma_report(lines, end, others);
            let after = choose|after: Seq<int>| #[trigger]
                came_of_blocks(lines, end as int, others, after);
            assert(views[0] == made && outputs[0]@ == views[0]);
            assert(came_of_block(lines, at as int, end as int, outputs[0]));
            assert(block_ends(lines, at as int, end as int));
            lemma_block_before(lines, from as int, at as int, end as int, outputs, after);
        }
    }
}

/// A display variable that a line of the environment sets to a plain value is
/// among what is picked out.
pub proof fn law_no_display_variable_is_missed(
    text: &str,
    lines: Vec<String>,
    entries: Vec<(String, String)>,
    k: int,
    key: Seq<char>,
    value: Seq<char>,
)
    requires
        call_ensures(parse_display_env, (text,), entries),
        call_ensures(split_lines, (text,), lines),
        0 <= k < lines@.len(),
        sets(lines@[k]@, key, value),
        key == "WAYLAND_DISPLAY"@ || key == "DISPLAY"@,
        0 < value.len() < 129,
        forall|j: int| 0 <= j < value.len() ==> is_plain(#[trigger] value[j]),
    ensures
        exists|i: int|
            0 <= i < entries@.len() && (#[trigger] entries@[i]).0@ == key && entries@[i].1@ == value,
{
    let all = crate::text::views(lines@);
    let line = all[k];
    assert(line == lines@[k]@);
    lemma_plain_display(value);
    reveal_strlit("WAYLAND_DISPLAY");
    reveal_strlit("DISPLAY");
    let n = key.len();
    assert(line[n as int] == '=');
    assert forall|i: int| 0 <= i < n implies line[i] != '=' by {
        assert(line[i] == key[i]);
    }
    crate::laws_daemon::lemma_index_at(line, '=', 0, n);
    assert(line.take(n as int) =~= key);
    let raw = line.skip(n as int + 1);
    if line == key + seq!['='] + value {
        assert(raw =~= value);
        assert(is_plain(value[0]));
        assert(crate::probe::unquoted(raw) == value);
    } else {
        assert(raw =~= seq!['"'] + value + seq!['"']);
        assert(raw.subrange(1, raw.len() - 1) =~= value);
    }
    assert(crate::probe::display_entry(line) == Some((key, value)));
    lemma_entry_kept(all, 0, k);
    let found = crate::probe::display_entries(all, 0);
    let i = choose|i: int| 0 <= i < found.len() && found[i] == (key, value);
    let views = crate::probe::pair_views(entries@);
    assert(views.len() == entries@.len());
    assert(views[i] == (entries@[i].0@, entries@[i].1@));
}

proof fn lemma_entry_kept(lines: Seq<Seq<char>>, from: nat, k: int)
    requires
        from <= k < lines.len(),
        crate::probe::display_entry(lines[k]) is Some,
    ensures
        crate::probe::display_entries(lines, from).contains(
            crate::probe::display_entry(lines[k])->0,
        ),
    decreases lines.len() - from,
{
    let all = crate::probe::display_entries(lines, from);
    let wanted = crate::probe::display_entry(lines[k])->0;
    if from == k {
        assert(all[0] == wanted);
    } else {
        let later = crate::probe::display_entries(lines, from + 1);
        lemma_entry_kept(lines, from + 1, k);
        let i = choose|i: int| 0 <= i < later.len() && later[i] == wanted;
        if crate::probe::display_entry(lines[from as int]) is Some {
            assert(all[i + 1] == wanted);
        } else {
            assert(all[i] == wanted);
        }
    }
}

} // verus!
