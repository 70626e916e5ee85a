//! What playlists promise: what goes by a name, what an import yields, what a
//! decision wants, and what it means for the screen.
//!
//! Each law speaks of what a function may answer, or leave behind.

use vstd::prelude::*;

use crate::laws_apply::same_texts;
use crate::model::{WorkerPhase, WorkerStatus};
use crate::playlist::{
    copy_playlists, copy_without, decision_signature, decision_wallpaper_id,
    default_duration_seconds, default_repeat, default_transition, derive_id, derive_playlists,
    find_playlist, same_decision, ImportPlaylist, Playlist, PlaylistDecision, PlaylistTransition,
};
use crate::verdict::{
    apply_backoff, apply_verdict, foreign_renderer_live, phase_has_live_worker, ApplyVerdict,
};

verus! {

// ---------------------------------------------------------------------------
// Definitions
// ---------------------------------------------------------------------------

/// Both playlists say the same, field by field.
pub open spec fn same_playlist(a: Playlist, b: Playlist) -> bool {
    &&& a.id@ == b.id@
    &&& a.title@ == b.title@
    &&& same_texts(a.entries@, b.entries@)
    &&& a.shuffle == b.shuffle
    &&& a.repeat == b.repeat
    &&& a.duration_seconds == b.duration_seconds
    &&& a.transition == b.transition
    &&& a.transition_seconds == b.transition_seconds
}

pub proof fn lemma_playlists(a: Playlist, b: Playlist)
    ensures
        a@ == b@ ==> same_playlist(a, b),
{
    if a@ == b@ {
        let x = crate::text::views(a.entries@);
        let y = crate::text::views(b.entries@);
        assert(x == y);
        assert(x.len() == a.entries@.len() && y.len() == b.entries@.len());
        assert forall|i: int| 0 <= i < a.entries@.len() implies (#[trigger] a.entries@[i])@
            == b.entries@[i]@ by {
            assert(x[i] == a.entries@[i]@ && y[i] == b.entries@[i]@);
        }
    }
}

/// Some playlist goes by this name.
pub open spec fn goes_by(playlists: Seq<Playlist>, id: Seq<char>) -> bool {
    exists|i: int| 0 <= i < playlists.len() && (#[trigger] playlists[i]).id@ == id
}

pub proof fn lemma_goes_by(playlists: Seq<Playlist>, id: Seq<char>)
    ensures
        crate::playlist::defines(crate::playlist::playlist_views(playlists), id) <==> goes_by(
            playlists,
            id,
        ),
{
    let views = crate::playlist::playlist_views(playlists);
    if goes_by(playlists, id) {
        let i = choose|i: int| 0 <= i < playlists.len() && (#[trigger] playlists[i]).id@ == id;
        assert(views[i].id == id);
    }
    if crate::playlist::defines(views, id) {
        let i = choose|i: int| 0 <= i < views.len() && (#[trigger] views[i]).id == id;
        assert(playlists[i].id@ == id);
    }
}

/// A playlist is found by its name, and none only where none goes by it.
pub proof fn law_playlist_is_found_by_its_name(
    playlists: &Vec<Playlist>,
    id: &str,
    found: Option<usize>,
)
    requires
        call_ensures(find_playlist, (playlists, id), found),
    ensures
        match found {
            Some(at) => at < playlists@.len() && playlists@[at as int].id@ == id@,
            None => !goes_by(playlists@, id@),
        },
{
    lemma_goes_by(playlists@, id@);
}

/// A copy says the same as the original, playlist by playlist.
pub proof fn law_copies_say_the_same(playlists: &Vec<Playlist>, copy: Vec<Playlist>)
    requires
        call_ensures(copy_playlists, (playlists,), copy),
    ensures
        copy@.len() == playlists@.len(),
        forall|i: int| 0 <= i < copy@.len() ==> same_playlist(#[trigger] copy@[i], playlists@[i]),
{
    let a = crate::playlist::playlist_views(copy@);
    let b = crate::playlist::playlist_views(playlists@);
    assert(a.len() == copy@.len() && b.len() == playlists@.len());
    assert forall|i: int| 0 <= i < copy@.len() implies same_playlist(
        #[trigger] copy@[i],
        playlists@[i],
    ) by {
        assert(a[i] == copy@[i]@ && b[i] == playlists@[i]@);
        lemma_playlists(copy@[i], playlists@[i]);
    }
}

/// Taking a name out leaves every playlist of another name, in order, and none
/// of that name.
pub proof fn law_taking_out_leaves_the_rest(
    playlists: &Vec<Playlist>,
    id: &str,
    copy: Vec<Playlist>,
    other: Seq<char>,
)
    requires
        call_ensures(copy_without, (playlists, id), copy),
    ensures
        !goes_by(copy@, id@),
        other != id@ ==> (goes_by(copy@, other) <==> goes_by(playlists@, other)),
        exists|from: Seq<int>| #[trigger] left_over(playlists@, id@, copy@, from),
{
    let views = crate::playlist::playlist_views(playlists@);
    lemma_goes_by(copy@, id@);
    lemma_goes_by(copy@, other);
    lemma_goes_by(playlists@, other);
    crate::playlist::lemma_without(views, id@, id@);
    crate::playlist::lemma_without(views, id@, other);
    lemma_left_over(views, id@);
    let from = choose|from: Seq<int>| #[trigger]
        left_over_views(views, id@, crate::playlist::without(views, id@), from);
    let kept = crate::playlist::playlist_views(copy@);
    assert forall|i: int| 0 <= i < copy@.len() implies 0 <= #[trigger] from[i] < playlists@.len()
        && same_playlist(copy@[i], playlists@[from[i]]) by {
        assert(kept[i] == views[from[i]]);
        assert(kept[i] == copy@[i]@ && views[from[i]] == playlists@[from[i]]@);
        lemma_playlists(copy@[i], playlists@[from[i]]);
    }
    assert forall|k: int| 0 <= k < playlists@.len() && (#[trigger] playlists@[k]).id@
        != id@ implies from.contains(k) by {
        assert(views[k].id != id@);
    }
    assert(left_over(playlists@, id@, copy@, from));
}

/// `copy[i]` is `playlists[from[i]]`, in order, and everything of another name
/// is there.
pub open spec fn left_over(
    playlists: Seq<Playlist>,
    id: Seq<char>,
    copy: Seq<Playlist>,
    from: Seq<int>,
) -> bool {
    &&& from.len() == copy.len()
    &&& forall|i: int|
        0 <= i < copy.len() ==> 0 <= #[trigger] from[i] < playlists.len() && same_playlist(
            copy[i],
            playlists[from[i]],
        )
    &&& forall|i: int, j: int| 0 <= i < j < from.len() ==> #[trigger] from[i] < #[trigger] from[j]
    &&& forall|k: int|
        0 <= k < playlists.len() && (#[trigger] playlists[k]).id@ != id ==> from.contains(k)
}

spec fn left_over_views(
    all: Seq<crate::playlist::PlaylistView>,
    id: Seq<char>,
    kept: Seq<crate::playlist::PlaylistView>,
    from: Seq<int>,
) -> bool {
    &&& from.len() == kept.len()
    &&& forall|i: int|
        0 <= i < kept.len() ==> 0 <= #[trigger] from[i] < all.len() && kept[i] == all[from[i]]
    &&& forall|i: int, j: int| 0 <= i < j < from.len() ==> #[trigger] from[i] < #[trigger] from[j]
    &&& forall|k: int| 0 <= k < all.len() && (#[trigger] all[k]).id != id ==> from.contains(k)
}

proof fn lemma_left_over(all: Seq<crate::playlist::PlaylistView>, id: Seq<char>)
    ensures
        exists|from: Seq<int>| #[trigger]
            left_over_views(all, id, crate::playlist::without(all, id), from),
    decreases all.len(),
{
    let kept = crate::playlist::without(all, id);
    if all.len() == 0 {
        assert(left_over_views(all, id, kept, Seq::empty()));
    } else {
        let rest = all.drop_last();
        lemma_left_over(rest, id);
        let left = crate::playlist::without(rest, id);
        let from = choose|from: Seq<int>| #[trigger] left_over_views(rest, id, left, from);
        if all.last().id == id {
            assert forall|k: int| 0 <= k < all.len() && (#[trigger] all[k]).id
                != id implies from.contains(k) by {
                assert(rest[k].id != id);
            }
            assert(left_over_views(all, id, kept, from));
        } else {
            let longer = from.push(all.len() - 1);
            assert forall|i: int| 0 <= i < kept.len() implies 0 <= #[trigger] longer[i] < all.len()
                && kept[i] == all[longer[i]] by {
                if i < left.len() {
                    assert(longer[i] == from[i]);
                    assert(left[i] == rest[from[i]]);
                }
            }
            assert forall|i: int, j: int| 0 <= i < j < longer.len() implies #[trigger] longer[i]
                < #[trigger] longer[j] by {
                assert(longer[i] == from[i]);
                if j < from.len() {
                    assert(longer[j] == from[j]);
                }
            }
            assert forall|k: int| 0 <= k < all.len() && (#[trigger] all[k]).id
                != id implies longer.contains(k) by {
                if k < rest.len() {
                    assert(rest[k].id != id);
                    let i = choose|i: int| 0 <= i < from.len() && from[i] == k;
                    assert(longer[i] == k);
                } else {
                    assert(longer[from.len() as int] == k);
                }
            }
            assert(left_over_views(all, id, kept, longer));
        }
    }
}

// ---------------------------------------------------------------------------
// Import
// ---------------------------------------------------------------------------

/// The playlist has what the imported one had: title, entries, shuffle, repeat,
/// duration, transition and its length.
pub open spec fn made_of(legacy: ImportPlaylist, playlist: Playlist) -> bool {
    &&& playlist.title@ == legacy.title@
    &&& same_texts(playlist.entries@, legacy.entries@)
    &&& playlist.shuffle == legacy.shuffle
    &&& playlist.repeat == legacy.repeat
    &&& playlist.duration_seconds == legacy.duration_seconds
    &&& playlist.transition_seconds == legacy.transition_seconds
    &&& match playlist.transition {
        PlaylistTransition::HardCut => legacy.transition@ == "none"@,
        PlaylistTransition::Crossfade => legacy.transition@ == "crossfade"@,
    }
}

proof fn lemma_made_of(legacy: ImportPlaylist, playlist: Playlist)
    requires
        crate::playlist::came_of(legacy@, playlist@),
    ensures
        made_of(legacy, playlist),
{
    let x = crate::text::views(playlist.entries@);
    let y = crate::text::views(legacy.entries@);
    assert(x == y);
    assert(x.len() == playlist.entries@.len() && y.len() == legacy.entries@.len());
    assert forall|i: int| 0 <= i < playlist.entries@.len() implies (
    #[trigger] playlist.entries@[i])@ == legacy.entries@[i]@ by {
        assert(x[i] == playlist.entries@[i]@ && y[i] == legacy.entries@[i]@);
    }
}

/// An imported playlist goes by the id that it was given and has what it had;
/// one with another transition than `none` or `crossfade` does not become one.
pub proof fn law_import_keeps_every_field<V: Fn(&Playlist) -> Result<(), String>>(
    legacy: &ImportPlaylist,
    id: String,
    validate: &V,
    built: Result<Playlist, String>,
)
    requires
        call_ensures(ImportPlaylist::to_playlist::<V>, (legacy, id, validate), built),
    ensures
        built matches Ok(playlist) ==> playlist.id@ == id@ && made_of(*legacy, playlist),
        legacy.transition@ != "none"@ && legacy.transition@ != "crossfade"@ ==> built is Err,
{
    reveal_strlit("none");
    reveal_strlit("crossfade");
    assert("none"@.len() == 4 && "crossfade"@.len() == 9);
    if built is Ok {
        assert(crate::playlist::came_of(legacy@, built->Ok_0@));
        lemma_made_of(*legacy, built->Ok_0);
    }
}

/// `done[i]` came of `legacy[from[i]]`, in order.
pub open spec fn derived_from(
    legacy: Seq<ImportPlaylist>,
    done: Seq<Playlist>,
    from: Seq<int>,
) -> bool {
    &&& from.len() == done.len()
    &&& forall|i: int|
        0 <= i < done.len() ==> 0 <= #[trigger] from[i] < legacy.len() && made_of(
            legacy[from[i]],
            done[i],
        )
    &&& forall|i: int, j: int| 0 <= i < j < from.len() ==> #[trigger] from[i] < #[trigger] from[j]
}

/// What an import yields came, in order and field by field, of what was
/// imported; every playlist is either among it or rejected; and the ids are
/// distinct, not empty, and at most 128 bytes long.
pub proof fn law_import_yields_what_was_imported<V: Fn(&Playlist) -> Result<(), String>>(
    legacy: &Vec<ImportPlaylist>,
    validate: &V,
    derived: (Vec<Playlist>, usize),
)
    requires
        call_ensures(derive_playlists::<V>, (legacy, validate), derived),
    ensures
        derived.0@.len() + derived.1 == legacy@.len(),
        exists|from: Seq<int>| #[trigger] derived_from(legacy@, derived.0@, from),
        forall|i: int|
            0 <= i < derived.0@.len() ==> 0 < (#[trigger] derived.0@[i]).id@.len()
                && vstd::utf8::encode_utf8(derived.0@[i].id@).len() <= 128,
        forall|i: int, j: int|
            0 <= i < j < derived.0@.len() ==> (#[trigger] derived.0@[i]).id@ != (
            #[trigger] derived.0@[j]).id@,
{
    let views = crate::playlist::import_views(legacy@);
    let accepted = choose|accepted: Seq<bool>|
        {
            &&& #[trigger] crate::playlist::import_answers(views, accepted, *validate)
            &&& crate::playlist::import_run(views, accepted) == (
                crate::playlist::playlist_views(derived.0@),
                derived.1 as nat,
            )
        };
    let done = crate::playlist::playlist_views(derived.0@);
    assert(done.len() == derived.0@.len());
    crate::playlist::law_imported_ids_are_distinct_and_bounded(views, accepted);
    lemma_derived(legacy@, accepted, derived.0@, derived.1 as nat);
    assert forall|i: int| 0 <= i < derived.0@.len() implies 0 < (#[trigger] derived.0@[i]).id@.len()
        && vstd::utf8::encode_utf8(derived.0@[i].id@).len() <= 128 by {
        assert(done[i].id == derived.0@[i].id@);
    }
    assert forall|i: int, j: int| 0 <= i < j < derived.0@.len() implies (
    #[trigger] derived.0@[i]).id@ != (#[trigger] derived.0@[j]).id@ by {
        assert(done[i].id == derived.0@[i].id@ && done[j].id == derived.0@[j].id@);
    }
}

/// What an import run yields came, in order and field by field, of what was
/// imported; and every playlist is either among it or rejected.
pub proof fn lemma_derived(
    legacy: Seq<ImportPlaylist>,
    accepted: Seq<bool>,
    done: Seq<Playlist>,
    rejected: nat,
)
    requires
        accepted.len() == legacy.len(),
        crate::playlist::import_run(crate::playlist::import_views(legacy), accepted) == (
            crate::playlist::playlist_views(done),
            rejected,
        ),
    ensures
        done.len() + rejected == legacy.len(),
        exists|from: Seq<int>| #[trigger] derived_from(legacy, done, from),
{
    let views = crate::playlist::import_views(legacy);
    let out = crate::playlist::playlist_views(done);
    assert(out.len() == done.len());
    crate::playlist::law_imported_ids_are_distinct_and_bounded(views, accepted);
    crate::playlist::law_imports_keep_their_order(views, accepted);
    let from = choose|from: Seq<int>| #[trigger] crate::playlist::came_in_order(views, out, from);
    assert forall|i: int| 0 <= i < done.len() implies 0 <= #[trigger] from[i] < legacy.len()
        && made_of(legacy[from[i]], done[i]) by {
        assert(out[i] == done[i]@);
        assert(views[from[i]] == legacy[from[i]]@);
        lemma_made_of(legacy[from[i]], done[i]);
    }
    assert(derived_from(legacy, done, from));
}

/// A derived id is not taken. A title that is short enough and whose name is
/// free is its own id, once the space around it is gone.
pub proof fn law_derived_id_is_free(title: &str, taken: &Vec<Playlist>, id: Option<String>)
    requires
        call_ensures(derive_id, (title, taken), id),
    ensures
        id matches Some(name) ==> !goes_by(taken@, name@) && name@.len() > 0,
        title@.len() > 0 && !goes_by(taken@, title@) && vstd::utf8::encode_utf8(title@).len() <= 124
            && !crate::text::is_space(title@[0]) && !crate::text::is_space(title@.last())
            ==> id is Some && id->0@ == title@,
{
    let views = crate::playlist::playlist_views(taken@);
    let base = crate::playlist::base_id(title@);
    crate::playlist::lemma_free_number(base, views, 2);
    if id is Some {
        lemma_goes_by(taken@, id->0@);
    }
    lemma_goes_by(taken@, title@);
    if title@.len() > 0 && !crate::text::is_space(title@[0]) && !crate::text::is_space(
        title@.last(),
    ) {
        assert(crate::text::skip_run(title@, true, 0) == 0);
        assert(title@.skip(0) =~= title@);
        assert(crate::text::trim(title@) == title@);
    }
}

// ---------------------------------------------------------------------------
// Decisions
// ---------------------------------------------------------------------------

/// A decision wants the wallpaper that it names; an exhausted playlist and one
/// without an eligible entry want none.
pub proof fn law_decision_wants_its_wallpaper(decision: &PlaylistDecision, id: Option<&str>)
    requires
        call_ensures(decision_wallpaper_id, (decision,), id),
    ensures
        match *decision {
            PlaylistDecision::Started { wallpaper_id, .. } => id is Some && id->0@ == wallpaper_id@,
            PlaylistDecision::Waiting { wallpaper_id, .. } => id is Some && id->0@ == wallpaper_id@,
            PlaylistDecision::Advanced { wallpaper_id, .. } => id is Some && id->0@
                == wallpaper_id@,
            PlaylistDecision::Paused { wallpaper_id, .. } => id is Some && id->0@ == wallpaper_id@,
            PlaylistDecision::Exhausted => id is None,
            PlaylistDecision::NoEligible => id is None,
        },
{
}

/// Two decisions are the same exactly when they are of one kind, with one
/// wallpaper at one position, whatever their times.
pub proof fn law_times_make_no_other_decision(
    a: &PlaylistDecision,
    b: &PlaylistDecision,
    equal: bool,
)
    requires
        call_ensures(same_decision, (a, b), equal),
    ensures
        equal == match (*a, *b) {
            (
                PlaylistDecision::Started { wallpaper_id: x, index: i, .. },
                PlaylistDecision::Started { wallpaper_id: y, index: j, .. },
            ) => x@ == y@ && i == j,
            (
                PlaylistDecision::Waiting { wallpaper_id: x, index: i, .. },
                PlaylistDecision::Waiting { wallpaper_id: y, index: j, .. },
            ) => x@ == y@ && i == j,
            (
                PlaylistDecision::Advanced { wallpaper_id: x, index: i, .. },
                PlaylistDecision::Advanced { wallpaper_id: y, index: j, .. },
            ) => x@ == y@ && i == j,
            (
                PlaylistDecision::Paused { wallpaper_id: x, index: i, .. },
                PlaylistDecision::Paused { wallpaper_id: y, index: j, .. },
            ) => x@ == y@ && i == j,
            (PlaylistDecision::Exhausted, PlaylistDecision::Exhausted) => true,
            (PlaylistDecision::NoEligible, PlaylistDecision::NoEligible) => true,
            _ => false,
        },
{
}

// ---------------------------------------------------------------------------
// Verdicts
// ---------------------------------------------------------------------------

/// A renderer is live, or on its way, in every phase but idle, stopped and
/// quarantined.
pub proof fn law_live_phases(phase: WorkerPhase, live: bool)
    requires
        call_ensures(phase_has_live_worker, (phase,), live),
    ensures
        live == !(phase == WorkerPhase::Idle || phase == WorkerPhase::Stopped || phase
            == WorkerPhase::Quarantined),
{
}

/// What the session does about a worker: where nothing is live it applies as
/// soon as it may try again; what it wants and is on its way satisfies it,
/// unless that is being recovered behind something else; another's renderer
/// makes it yield; and its own old one is replaced.
pub proof fn law_verdict_over_the_worker(
    applied: Option<&str>,
    desired: &str,
    status: &WorkerStatus,
    retry_ready: bool,
    verdict: ApplyVerdict,
    foreign: bool,
)
    requires
        call_ensures(apply_verdict, (applied, desired, status, retry_ready), verdict),
        call_ensures(foreign_renderer_live, (status, desired, applied), foreign),
    ensures
        ({
            let live = !(status.phase == WorkerPhase::Idle || status.phase == WorkerPhase::Stopped
                || status.phase == WorkerPhase::Quarantined);
            let wanted = status.requested_wallpaper_id is Some
                && status.requested_wallpaper_id->0@ == desired@;
            let shown = status.wallpaper_id is Some && status.wallpaper_id->0@ == desired@;
            let own = match (status.requested_wallpaper_id, applied) {
                (Some(asked), Some(last)) => asked@ == last@,
                (None, None) => true,
                _ => false,
            };
            let recovered = status.phase == WorkerPhase::RolledBack || status.phase
                == WorkerPhase::Restarting;
            &&& verdict == ApplyVerdict::Satisfied <==> live && wanted && (!recovered || shown)
            &&& verdict == ApplyVerdict::Wait <==> live && wanted && recovered && !shown
            &&& verdict == ApplyVerdict::Yield <==> live && !wanted && !own
            &&& verdict == ApplyVerdict::Apply <==> retry_ready && (!live || (!wanted && own))
            &&& verdict == ApplyVerdict::Hold <==> !retry_ready && (!live || (!wanted && own))
            &&& foreign == (live && !wanted && !own)
        }),
{
}

/// The first failure is waited for one second, every further one twice as long
/// as the one before, up to thirty seconds.
pub proof fn law_backoff_doubles(failures: u32, millis: u64, after: u64)
    requires
        failures < u32::MAX,
        call_ensures(apply_backoff, (failures,), millis),
        call_ensures(apply_backoff, ((failures + 1) as u32,), after),
    ensures
        failures <= 1 ==> millis == 1000,
        failures >= 1 ==> after == if 2 * millis > 30000 {
            30000
        } else {
            2 * millis
        },
        1000 <= millis <= 30000,
{
    crate::verdict::law_backoff_grows_to_its_cap(failures as nat);
}

/// A playlist that does not say otherwise repeats, shows each entry for five
/// minutes, and cuts hard.
pub proof fn law_playlist_defaults(
    repeat: bool,
    seconds: u32,
    transition: String,
)
    requires
        call_ensures(default_repeat, (), repeat),
        call_ensures(default_duration_seconds, (), seconds),
        call_ensures(default_transition, (), transition),
    ensures
        repeat && seconds == 5 * 60 && transition@ == "none"@,
{
}

/// What identifies a decision is its kind, its wallpaper and its position: two
/// decisions with one identity are the same.
pub proof fn law_signature_identifies(
    a: &PlaylistDecision,
    b: &PlaylistDecision,
    first: (u8, String, usize),
    second: (u8, String, usize),
    equal: bool,
    wanted: Option<&str>,
)
    requires
        call_ensures(decision_signature, (a,), first),
        call_ensures(decision_signature, (b,), second),
        call_ensures(same_decision, (a, b), equal),
        call_ensures(decision_wallpaper_id, (a,), wanted),
    ensures
        equal <==> first.0 == second.0 && first.1@ == second.1@ && first.2 == second.2,
        wanted is Some ==> first.1@ == wanted->0@,
{
}

// ---------------------------------------------------------------------------
// Identities of imported playlists
// ---------------------------------------------------------------------------

/// The id that a title comes to at a number.
pub open spec fn with_number(base: Seq<char>, n: nat) -> Seq<char> {
    base + seq!['-'] + crate::text::decimal(n)
}

proof fn lemma_numbered(base: Seq<char>, n: nat)
    ensures
        crate::playlist::numbered(base, n) == with_number(base, n),
{
    reveal_strlit("-");
    assert("-"@ =~= seq!['-']);
}

proof fn lemma_numbers_differ(base: Seq<char>, n: nat, m: nat)
    ensures
        with_number(base, n) == with_number(base, m) ==> n == m,
{
    let a = with_number(base, n);
    let b = with_number(base, m);
    crate::text::lemma_decimal_digits(n);
    crate::text::lemma_decimal_digits(m);
    assert(a.skip(base.len() as int + 1) =~= crate::text::decimal(n));
    assert(b.skip(base.len() as int + 1) =~= crate::text::decimal(m));
}

proof fn lemma_first_free(
    base: Seq<char>,
    taken: Seq<crate::playlist::PlaylistView>,
    from: nat,
)
    requires
        2 <= from,
    ensures
        match crate::playlist::free_number(base, taken, from) {
            Some(id) => exists|n: nat|
                from <= n <= 256 && id == #[trigger] with_number(base, n) && forall|m: nat|
                    from <= m < n ==> crate::playlist::defines(
                        taken,
                        #[trigger] with_number(base, m),
                    ),
            None => forall|m: nat|
                from <= m <= 256 ==> crate::playlist::defines(
                    taken,
                    #[trigger] with_number(base, m),
                ),
        },
    decreases 257 - from,
{
    if from <= 256 {
        lemma_numbered(base, from);
        lemma_first_free(base, taken, from + 1);
        if crate::playlist::defines(taken, with_number(base, from)) {
            if let Some(id) = crate::playlist::free_number(base, taken, from) {
                let n = choose|n: nat|
                    from + 1 <= n <= 256 && id == #[trigger] with_number(base, n) && forall|
                        m: nat,
                    |
                        from + 1 <= m < n ==> crate::playlist::defines(
                            taken,
                            #[trigger] with_number(base, m),
                        );
                assert(id == with_number(base, n));
            }
        } else {
            let id = crate::playlist::numbered(base, from);
            assert(!crate::playlist::defines(taken, id));
            assert(crate::playlist::free_number(base, taken, from) == Some(id));
            assert(id == with_number(base, from));
        }
    }
}

/// A title whose own id is taken gets the first number behind it that is free,
/// from 2 to 256; only where all of them are taken it gets none.
pub proof fn law_taken_titles_are_numbered(
    title: &str,
    taken: &Vec<Playlist>,
    id: Option<String>,
    trimmed: String,
    chars: &Vec<char>,
    base: String,
)
    requires
        call_ensures(derive_id, (title, taken), id),
        call_ensures(crate::text::trimmed, (title,), trimmed),
        chars@ == trimmed@,
        call_ensures(crate::text::cut_to, (chars, 124), base),
    ensures
        base@.len() > 0 && !goes_by(taken@, base@) ==> id is Some && id->0@ == base@,
        base@.len() == 0 || goes_by(taken@, base@) ==> match id {
            Some(name) => exists|n: nat|
                2 <= n <= 256 && name@ == #[trigger] with_number(base@, n) && forall|m: nat|
                    2 <= m < n ==> goes_by(taken@, #[trigger] with_number(base@, m)),
            None => forall|m: nat|
                2 <= m <= 256 ==> goes_by(taken@, #[trigger] with_number(base@, m)),
        },
{
    let views = crate::playlist::playlist_views(taken@);
    assert(base@ == crate::playlist::base_id(title@));
    lemma_goes_by(taken@, base@);
    lemma_first_free(base@, views, 2);
    assert forall|name: Seq<char>| #[trigger] crate::playlist::defines(views, name) <==> goes_by(
        taken@,
        name,
    ) by {
        lemma_goes_by(taken@, name);
    }
}

proof fn lemma_numbers_run_out(
    base: Seq<char>,
    taken: Seq<crate::playlist::PlaylistView>,
    from: nat,
)
    requires
        2 <= from <= 257,
        forall|m: nat|
            from <= m <= 256 ==> crate::playlist::defines(taken, #[trigger] with_number(base, m)),
    ensures
        taken.len() >= 257 - from,
    decreases 257 - from,
{
    if from <= 256 {
        assert(crate::playlist::defines(taken, with_number(base, from)));
        let at = choose|at: int|
            0 <= at < taken.len() && (#[trigger] taken[at]).id == with_number(base, from);
        let rest = taken.remove(at);
        assert forall|m: nat| from + 1 <= m <= 256 implies crate::playlist::defines(
            rest,
            #[trigger] with_number(base, m),
        ) by {
            lemma_numbers_differ(base, from, m);
            let k = choose|k: int|
                0 <= k < taken.len() && (#[trigger] taken[k]).id == with_number(base, m);
            if k < at {
                assert(rest[k] == taken[k]);
            } else {
                assert(rest[k - 1] == taken[k]);
            }
        }
        lemma_numbers_run_out(base, rest, from + 1);
    }
}

/// An import of at most 255 playlists with known transitions, none of which the
/// validation refuses, loses none of them.
pub proof fn law_valid_imports_lose_nothing<V: Fn(&Playlist) -> Result<(), String>>(
    legacy: &Vec<ImportPlaylist>,
    validate: &V,
    derived: (Vec<Playlist>, usize),
)
    requires
        call_ensures(derive_playlists::<V>, (legacy, validate), derived),
        legacy@.len() <= 255,
        forall|i: int|
            0 <= i < legacy@.len() ==> (#[trigger] legacy@[i]).transition@ == "none"@
                || legacy@[i].transition@ == "crossfade"@,
        forall|candidate: &Playlist, answer: Result<(), String>| #[trigger]
            call_ensures(*validate, (candidate,), answer) ==> answer is Ok,
    ensures
        derived.1 == 0,
        derived.0@.len() == legacy@.len(),
{
    let views = crate::playlist::import_views(legacy@);
    let accepted = choose|accepted: Seq<bool>|
        {
            &&& #[trigger] crate::playlist::import_answers(views, accepted, *validate)
            &&& crate::playlist::import_run(views, accepted) == (
                crate::playlist::playlist_views(derived.0@),
                derived.1 as nat,
            )
        };
    assert forall|i: int| 0 <= i < views.len() implies (#[trigger] views[i]).transition == "none"@
        || views[i].transition == "crossfade"@ by {
        assert(views[i] == legacy@[i]@);
    }
    lemma_nothing_lost(views, accepted, *validate, views.len());
    assert(views.take(views.len() as int) =~= views);
    assert(accepted.take(views.len() as int) =~= accepted);
    assert(crate::playlist::playlist_views(derived.0@).len() == derived.0@.len());
}

proof fn lemma_nothing_lost<V: Fn(&Playlist) -> Result<(), String>>(
    legacy: Seq<crate::playlist::ImportView>,
    accepted: Seq<bool>,
    validate: V,
    n: nat,
)
    requires
        n <= legacy.len() <= 255,
        crate::playlist::import_answers(legacy, accepted, validate),
        forall|i: int|
            0 <= i < legacy.len() ==> (#[trigger] legacy[i]).transition == "none"@
                || legacy[i].transition == "crossfade"@,
        forall|candidate: &Playlist, answer: Result<(), String>| #[trigger]
            call_ensures(validate, (candidate,), answer) ==> answer is Ok,
    ensures
        crate::playlist::import_run(legacy.take(n as int), accepted.take(n as int)).1 == 0,
        crate::playlist::import_run(legacy.take(n as int), accepted.take(n as int)).0.len() == n,
    decreases n,
{
    if n > 0 {
        let k = n - 1;
        lemma_nothing_lost(legacy, accepted, validate, k as nat);
        let shorter = legacy.take(n as int);
        let answers = accepted.take(n as int);
        assert(shorter.drop_last() =~= legacy.take(k));
        assert(answers.drop_last() =~= accepted.take(k));
        assert(shorter.last() == legacy[k] && answers.last() == accepted[k]);
        let done = crate::playlist::import_run(legacy.take(k), accepted.take(k)).0;
        let base = crate::playlist::base_id(legacy[k].title);
        lemma_first_free(base, done, 2);
        if crate::playlist::free_number(base, done, 2) is None {
            lemma_numbers_run_out(base, done, 2);
        }
        let playlist = crate::playlist::put_up(legacy[k], done);
        assert(playlist is Some);
        assert(crate::playlist::answered(validate, playlist->0, accepted[k]));
        let (candidate, answer) = choose|candidate: Playlist, answer: Result<(), String>|
            {
                &&& candidate@ == playlist->0
                &&& #[trigger] call_ensures(validate, (&candidate,), answer)
                &&& accepted[k] == (answer is Ok)
            };
        assert(call_ensures(validate, (&candidate,), answer));
        assert(accepted[k]);
    }
}

/// A playlist with a known transition is imported unless the validation refuses
/// it, with that error.
pub proof fn law_import_fails_as_the_validation<V: Fn(&Playlist) -> Result<(), String>>(
    legacy: &ImportPlaylist,
    id: String,
    validate: &V,
    built: Result<Playlist, String>,
)
    requires
        call_ensures(ImportPlaylist::to_playlist::<V>, (legacy, id, validate), built),
        legacy.transition@ == "none"@ || legacy.transition@ == "crossfade"@,
    ensures
        built matches Ok(playlist) ==> exists|candidate: Playlist, answer: Result<(), String>|
            answer is Ok && same_playlist(candidate, playlist) && #[trigger] call_ensures(
                *validate,
                (&candidate,),
                answer,
            ),
        built matches Err(error) ==> exists|candidate: Playlist|
            candidate.id@ == id@ && made_of(*legacy, candidate) && #[trigger] call_ensures(
                *validate,
                (&candidate,),
                Err::<(), String>(error),
            ),
{
    reveal_strlit("none");
    reveal_strlit("crossfade");
    assert("none"@.len() == 4 && "crossfade"@.len() == 9);
    match built {
        Ok(playlist) => {
            let (candidate, answer) = choose|candidate: Playlist, answer: Result<(), String>|
                {
                    &&& candidate@ == playlist@
                    &&& #[trigger] call_ensures(*validate, (&candidate,), answer)
                    &&& true == (answer is Ok)
                };
            lemma_playlists(candidate, playlist);
            assert(call_ensures(*validate, (&candidate,), answer));
        },
        Err(error) => {
            let transition = crate::playlist::transition_named(legacy.transition@)->0;
            let wanted = crate::playlist::imported_as(legacy@, id@, transition);
            let candidate = choose|candidate: Playlist|
                candidate@ == wanted && #[trigger] call_ensures(
                    *validate,
                    (&candidate,),
                    Err::<(), String>(error),
                );
            assert(crate::playlist::came_of(legacy@, candidate@));
            lemma_made_of(*legacy, candidate);
            assert(call_ensures(*validate, (&candidate,), Err::<(), String>(error)));
        },
    }
}

} // verus!
