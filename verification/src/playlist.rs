//! Playlists, what a playlist wants on screen, and how playlists without an
//! identity are given one.

use vstd::prelude::*;

use crate::assignments::copy_strings;
use crate::text;
use crate::text::{chars_of, cut_to, push_decimal, same, trimmed};

verus! {

// ---------------------------------------------------------------------------
// Playlists
// ---------------------------------------------------------------------------

/// How one entry gives way to the next.
#[derive(Debug, Clone, Copy, PartialEq, Eq, Structural)]
pub enum PlaylistTransition {
    HardCut,
    Crossfade,
}

/// A playlist definition.
#[derive(Debug)]
pub struct Playlist {
    pub id: String,
    pub title: String,
    pub entries: Vec<String>,
    pub shuffle: bool,
    pub repeat: bool,
    pub duration_seconds: u32,
    pub transition: PlaylistTransition,
    pub transition_seconds: u8,
}

/// The same, apart from its representation.
#[verifier::ext_equal]
pub struct PlaylistView {
    pub id: Seq<char>,
    pub title: Seq<char>,
    pub entries: Seq<Seq<char>>,
    pub shuffle: bool,
    pub repeat: bool,
    pub duration_seconds: u32,
    pub transition: PlaylistTransition,
    pub transition_seconds: u8,
}

impl View for Playlist {
    type V = PlaylistView;

    open spec fn view(&self) -> PlaylistView {
        PlaylistView {
            id: self.id@,
            title: self.title@,
            entries: text::views(self.entries@),
            shuffle: self.shuffle,
            repeat: self.repeat,
            duration_seconds: self.duration_seconds,
            transition: self.transition,
            transition_seconds: self.transition_seconds,
        }
    }
}

impl Clone for Playlist {
    fn clone(&self) -> (copy: Self)
        ensures
            copy@ == self@,
    {
        Playlist {
            id: self.id.clone(),
            title: self.title.clone(),
            entries: copy_strings(&self.entries),
            shuffle: self.shuffle,
            repeat: self.repeat,
            duration_seconds: self.duration_seconds,
            transition: self.transition,
            transition_seconds: self.transition_seconds,
        }
    }
}

/// The definitions, apart from their representation.
pub open spec fn playlist_views(playlists: Seq<Playlist>) -> Seq<PlaylistView> {
    playlists.map_values(|playlist: Playlist| playlist@)
}

/// Some definition goes by `id`.
pub open spec fn defines(playlists: Seq<PlaylistView>, id: Seq<char>) -> bool {
    exists|i: int| 0 <= i < playlists.len() && (#[trigger] playlists[i]).id == id
}

/// The first definition that goes by `id`.
pub open spec fn defined(playlists: Seq<PlaylistView>, id: Seq<char>) -> Option<PlaylistView>
    decreases playlists.len(),
{
    if playlists.len() == 0 {
        None
    } else if playlists[0].id == id {
        Some(playlists[0])
    } else {
        defined(playlists.drop_first(), id)
    }
}

/// The definitions that do not go by `id`, in their order.
pub open spec fn without(playlists: Seq<PlaylistView>, id: Seq<char>) -> Seq<PlaylistView>
    decreases playlists.len(),
{
    if playlists.len() == 0 {
        Seq::empty()
    } else if playlists.last().id == id {
        without(playlists.drop_last(), id)
    } else {
        without(playlists.drop_last(), id).push(playlists.last())
    }
}

proof fn lemma_defined_at(playlists: Seq<PlaylistView>, id: Seq<char>, at: int)
    requires
        0 <= at < playlists.len(),
        playlists[at].id == id,
        forall|i: int| 0 <= i < at ==> (#[trigger] playlists[i]).id != id,
    ensures
        defined(playlists, id) == Some(playlists[at]),
    decreases playlists.len(),
{
    if at > 0 {
        let rest = playlists.drop_first();
        assert forall|i: int| 0 <= i < at - 1 implies (#[trigger] rest[i]).id != id by {
            assert(rest[i] == playlists[i + 1]);
        }
        lemma_defined_at(rest, id, at - 1);
    }
}

proof fn lemma_defined_nowhere(playlists: Seq<PlaylistView>, id: Seq<char>)
    requires
        !defines(playlists, id),
    ensures
        defined(playlists, id) is None,
    decreases playlists.len(),
{
    if playlists.len() > 0 {
        assert(playlists[0].id != id);
        let rest = playlists.drop_first();
        assert(!defines(rest, id)) by {
            if defines(rest, id) {
                let i = choose|i: int| 0 <= i < rest.len() && (#[trigger] rest[i]).id == id;
                assert(playlists[i + 1].id == id);
            }
        }
        lemma_defined_nowhere(rest, id);
    }
}

/// A definition is found exactly when there is one, and goes by its name.
pub proof fn lemma_defined(playlists: Seq<PlaylistView>, id: Seq<char>)
    ensures
        defined(playlists, id) is Some <==> defines(playlists, id),
        defined(playlists, id) matches Some(found) ==> found.id == id,
    decreases playlists.len(),
{
    if playlists.len() > 0 {
        let rest = playlists.drop_first();
        lemma_defined(rest, id);
        if defines(rest, id) {
            let i = choose|i: int| 0 <= i < rest.len() && (#[trigger] rest[i]).id == id;
            assert(playlists[i + 1].id == id);
        }
        if defines(playlists, id) && playlists[0].id != id {
            let i = choose|i: int| 0 <= i < playlists.len() && (#[trigger] playlists[i]).id == id;
            assert(rest[i - 1].id == id);
        }
    }
}

/// The position of the first definition that goes by `id`.
pub fn find_playlist(playlists: &Vec<Playlist>, id: &str) -> (found: Option<usize>)
    ensures
        match found {
            Some(at) => at < playlists@.len() && defined(playlist_views(playlists@), id@) == Some(
                playlists@[at as int]@,
            ) && playlists@[at as int].id@ == id@ && defines(playlist_views(playlists@), id@),
            None => defined(playlist_views(playlists@), id@) is None && !defines(
                playlist_views(playlists@),
                id@,
            ),
        },
{
    let ghost views = playlist_views(playlists@);
    let mut at: usize = 0;
    while at < playlists.len()
        invariant
            at <= playlists@.len(),
            views == playlist_views(playlists@),
            forall|i: int| 0 <= i < at ==> (#[trigger] views[i]).id != id@,
        decreases playlists.len() - at,
    {
        assert(views[at as int] == playlists@[at as int]@);
        if same(playlists[at].id.as_str(), id) {
            proof {
                lemma_defined_at(views, id@, at as int);
            }
            return Some(at);
        }
        at = at + 1;
    }
    proof {
        lemma_defined_nowhere(views, id@);
    }
    None
}

/// Copies the definitions.
pub fn copy_playlists(playlists: &Vec<Playlist>) -> (copy: Vec<Playlist>)
    ensures
        playlist_views(copy@) == playlist_views(playlists@),
{
    let mut copy: Vec<Playlist> = Vec::new();
    let mut i: usize = 0;
    while i < playlists.len()
        invariant
            i <= playlists@.len(),
            playlist_views(copy@) == playlist_views(playlists@).take(i as int),
        decreases playlists.len() - i,
    {
        let ghost before = copy@;
        copy.push(playlists[i].clone());
        proof {
            let views = playlist_views(playlists@);
            assert(playlist_views(copy@) =~= playlist_views(before).push(views[i as int]));
            assert(views.take(i + 1) =~= views.take(i as int).push(views[i as int]));
        }
        i = i + 1;
    }
    assert(playlist_views(playlists@).take(playlists@.len() as int) =~= playlist_views(
        playlists@,
    ));
    copy
}

/// Copies the definitions that do not go by `id`.
pub fn copy_without(playlists: &Vec<Playlist>, id: &str) -> (copy: Vec<Playlist>)
    ensures
        playlist_views(copy@) == without(playlist_views(playlists@), id@),
{
    let ghost views = playlist_views(playlists@);
    let mut copy: Vec<Playlist> = Vec::new();
    let mut i: usize = 0;
    assert(views.take(0) =~= Seq::empty());
    assert(playlist_views(copy@) =~= Seq::empty());
    while i < playlists.len()
        invariant
            i <= playlists@.len(),
            views == playlist_views(playlists@),
            playlist_views(copy@) == without(views.take(i as int), id@),
        decreases playlists.len() - i,
    {
        let ghost before = copy@;
        assert(views.take(i + 1).drop_last() =~= views.take(i as int));
        assert(views.take(i + 1).last() == playlists@[i as int]@);
        if !same(playlists[i].id.as_str(), id) {
            copy.push(playlists[i].clone());
            assert(playlist_views(copy@) =~= playlist_views(before).push(views[i as int]));
        }
        i = i + 1;
    }
    assert(views.take(views.len() as int) =~= views);
    copy
}

/// Nothing goes by a name that was taken out, and nothing else is lost.
pub proof fn lemma_without(playlists: Seq<PlaylistView>, id: Seq<char>, other: Seq<char>)
    ensures
        defines(without(playlists, id), other) <==> other != id && defines(playlists, other),
    decreases playlists.len(),
{
    let kept = without(playlists, id);
    if playlists.len() > 0 {
        let rest = playlists.drop_last();
        let left = without(rest, id);
        lemma_without(rest, id, other);
        if defines(playlists, other) {
            let i = choose|i: int|
                0 <= i < playlists.len() && (#[trigger] playlists[i]).id == other;
            if i < rest.len() {
                assert(rest[i].id == other);
            }
        }
        if defines(rest, other) {
            let i = choose|i: int| 0 <= i < rest.len() && (#[trigger] rest[i]).id == other;
            assert(playlists[i].id == other);
        }
        if defines(left, other) {
            let i = choose|i: int| 0 <= i < left.len() && (#[trigger] left[i]).id == other;
            assert(kept[i].id == other);
        }
        if defines(kept, other) {
            let i = choose|i: int| 0 <= i < kept.len() && (#[trigger] kept[i]).id == other;
            if i < left.len() {
                assert(left[i].id == other);
            } else {
                assert(playlists[playlists.len() - 1].id == other);
            }
        }
        if playlists.last().id == other && other != id {
            assert(kept[left.len() as int].id == other);
        }
    }
}

/// A definition put last is found unless one of its name comes before.
pub proof fn lemma_defined_push(
    playlists: Seq<PlaylistView>,
    added: PlaylistView,
    id: Seq<char>,
)
    ensures
        defined(playlists.push(added), id) == (match defined(playlists, id) {
            Some(found) => Some(found),
            None => if added.id == id {
                Some(added)
            } else {
                None
            },
        }),
    decreases playlists.len(),
{
    if playlists.len() == 0 {
        assert(playlists.push(added).drop_first() =~= Seq::empty());
    } else {
        assert(playlists.push(added).drop_first() =~= playlists.drop_first().push(added));
        lemma_defined_push(playlists.drop_first(), added, id);
    }
}

/// Taking one name out leaves what goes by another as it was.
pub proof fn lemma_without_keeps(playlists: Seq<PlaylistView>, id: Seq<char>, other: Seq<char>)
    requires
        other != id,
    ensures
        defined(without(playlists, id), other) == defined(playlists, other),
    decreases playlists.len(),
{
    if playlists.len() > 0 {
        let rest = playlists.drop_last();
        lemma_without_keeps(rest, id, other);
        assert(playlists =~= rest.push(playlists.last()));
        lemma_defined_push(rest, playlists.last(), other);
        lemma_defined_push(without(rest, id), playlists.last(), other);
    }
}

// ---------------------------------------------------------------------------
// Decisions
// ---------------------------------------------------------------------------

/// What a playlist wants at one moment.
#[derive(Debug, PartialEq, Eq)]
pub enum PlaylistDecision {
    Started { wallpaper_id: String, index: usize, deadline_ms: u64 },
    Waiting { wallpaper_id: String, index: usize, remaining_ms: u64 },
    Advanced { wallpaper_id: String, index: usize, deadline_ms: u64 },
    Paused { wallpaper_id: String, index: usize, remaining_ms: u64 },
    Exhausted,
    NoEligible,
}

impl Clone for PlaylistDecision {
    fn clone(&self) -> (copy: Self)
        ensures
            copy == *self,
    {
        match self {
            PlaylistDecision::Started { wallpaper_id, index, deadline_ms } =>
                PlaylistDecision::Started {
                wallpaper_id: wallpaper_id.clone(),
                index: *index,
                deadline_ms: *deadline_ms,
            },
            PlaylistDecision::Waiting { wallpaper_id, index, remaining_ms } =>
                PlaylistDecision::Waiting {
                wallpaper_id: wallpaper_id.clone(),
                index: *index,
                remaining_ms: *remaining_ms,
            },
            PlaylistDecision::Advanced { wallpaper_id, index, deadline_ms } =>
                PlaylistDecision::Advanced {
                wallpaper_id: wallpaper_id.clone(),
                index: *index,
                deadline_ms: *deadline_ms,
            },
            PlaylistDecision::Paused { wallpaper_id, index, remaining_ms } =>
                PlaylistDecision::Paused {
                wallpaper_id: wallpaper_id.clone(),
                index: *index,
                remaining_ms: *remaining_ms,
            },
            PlaylistDecision::Exhausted => PlaylistDecision::Exhausted,
            PlaylistDecision::NoEligible => PlaylistDecision::NoEligible,
        }
    }
}

/// The wallpaper that a decision wants on screen, if it wants one.
pub open spec fn wanted(decision: PlaylistDecision) -> Option<Seq<char>> {
    match decision {
        PlaylistDecision::Started { wallpaper_id, .. } => Some(wallpaper_id@),
        PlaylistDecision::Waiting { wallpaper_id, .. } => Some(wallpaper_id@),
        PlaylistDecision::Advanced { wallpaper_id, .. } => Some(wallpaper_id@),
        PlaylistDecision::Paused { wallpaper_id, .. } => Some(wallpaper_id@),
        PlaylistDecision::Exhausted => None,
        PlaylistDecision::NoEligible => None,
    }
}

/// The wallpaper that a decision wants on screen. Nothing is ever applied for
/// an exhausted playlist, nor for one without an eligible entry.
pub fn decision_wallpaper_id(decision: &PlaylistDecision) -> (id: Option<&str>)
    ensures
        crate::verdict::borrowed(id) == wanted(*decision),
{
    match decision {
        PlaylistDecision::Started { wallpaper_id, .. } => Some(wallpaper_id.as_str()),
        PlaylistDecision::Waiting { wallpaper_id, .. } => Some(wallpaper_id.as_str()),
        PlaylistDecision::Advanced { wallpaper_id, .. } => Some(wallpaper_id.as_str()),
        PlaylistDecision::Paused { wallpaper_id, .. } => Some(wallpaper_id.as_str()),
        PlaylistDecision::Exhausted => None,
        PlaylistDecision::NoEligible => None,
    }
}

/// What identifies a decision: its state, its wallpaper and its position. The
/// times in it change at every tick and do not count.
pub open spec fn signature(decision: PlaylistDecision) -> (u8, Seq<char>, usize) {
    match decision {
        PlaylistDecision::Started { wallpaper_id, index, .. } => (0, wallpaper_id@, index),
        PlaylistDecision::Waiting { wallpaper_id, index, .. } => (1, wallpaper_id@, index),
        PlaylistDecision::Advanced { wallpaper_id, index, .. } => (2, wallpaper_id@, index),
        PlaylistDecision::Paused { wallpaper_id, index, .. } => (3, wallpaper_id@, index),
        PlaylistDecision::Exhausted => (4, Seq::empty(), 0),
        PlaylistDecision::NoEligible => (5, Seq::empty(), 0),
    }
}

/// What identifies a decision.
pub fn decision_signature(decision: &PlaylistDecision) -> (identity: (u8, String, usize))
    ensures
        (identity.0, identity.1@, identity.2) == signature(*decision),
{
    match decision {
        PlaylistDecision::Started { wallpaper_id, index, .. } => (0, wallpaper_id.clone(), *index),
        PlaylistDecision::Waiting { wallpaper_id, index, .. } => (1, wallpaper_id.clone(), *index),
        PlaylistDecision::Advanced { wallpaper_id, index, .. } => (2, wallpaper_id.clone(), *index),
        PlaylistDecision::Paused { wallpaper_id, index, .. } => (3, wallpaper_id.clone(), *index),
        PlaylistDecision::Exhausted => (4, String::new(), 0),
        PlaylistDecision::NoEligible => (5, String::new(), 0),
    }
}

/// Whether two decisions are the same one.
pub fn same_decision(a: &PlaylistDecision, b: &PlaylistDecision) -> (equal: bool)
    ensures
        equal == (signature(*a) == signature(*b)),
{
    let (a_state, a_id, a_index): (u8, String, usize) = decision_signature(a);
    let (b_state, b_id, b_index): (u8, String, usize) = decision_signature(b);
    a_state == b_state && a_index == b_index && same(a_id.as_str(), b_id.as_str())
}

// ---------------------------------------------------------------------------
// Import
// ---------------------------------------------------------------------------

/// The longest identity of a playlist, in bytes.
pub const MAX_ID_BYTES: usize = 128;

/// How many bytes of a title an identity is made of: a dash and three digits
/// still fit behind them.
pub const MAX_BASE_BYTES: usize = 124;

/// The last number that is tried to tell two identities apart.
pub const MAX_SUFFIX: u32 = 256;

/// A playlist without an identity.
#[derive(Debug)]
pub struct ImportPlaylist {
    pub title: String,
    pub entries: Vec<String>,
    pub shuffle: bool,
    pub repeat: bool,
    pub duration_seconds: u32,
    pub transition: String,
    pub transition_seconds: u8,
}

/// The same, apart from its representation.
pub struct ImportView {
    pub title: Seq<char>,
    pub entries: Seq<Seq<char>>,
    pub shuffle: bool,
    pub repeat: bool,
    pub duration_seconds: u32,
    pub transition: Seq<char>,
    pub transition_seconds: u8,
}

impl View for ImportPlaylist {
    type V = ImportView;

    open spec fn view(&self) -> ImportView {
        ImportView {
            title: self.title@,
            entries: text::views(self.entries@),
            shuffle: self.shuffle,
            repeat: self.repeat,
            duration_seconds: self.duration_seconds,
            transition: self.transition@,
            transition_seconds: self.transition_seconds,
        }
    }
}

/// Whether a playlist repeats that does not say so.
pub fn default_repeat() -> (repeat: bool)
    ensures
        repeat,
{
    true
}

/// How long an entry is shown in a playlist that does not say so.
pub fn default_duration_seconds() -> (seconds: u32)
    ensures
        seconds == 300,
{
    300
}

/// The transition of a playlist that does not name one.
pub fn default_transition() -> (name: String)
    ensures
        name@ == "none"@,
{
    "none".to_owned()
}

/// The transition of this name.
pub open spec fn transition_named(name: Seq<char>) -> Option<PlaylistTransition> {
    if name == "none"@ {
        Some(PlaylistTransition::HardCut)
    } else if name == "crossfade"@ {
        Some(PlaylistTransition::Crossfade)
    } else {
        None
    }
}

/// The playlist that an import becomes under `id`.
pub open spec fn imported_as(
    legacy: ImportView,
    id: Seq<char>,
    transition: PlaylistTransition,
) -> PlaylistView {
    PlaylistView {
        id,
        title: legacy.title,
        entries: legacy.entries,
        shuffle: legacy.shuffle,
        repeat: legacy.repeat,
        duration_seconds: legacy.duration_seconds,
        transition,
        transition_seconds: legacy.transition_seconds,
    }
}

/// `validate` can answer this about a playlist.
pub open spec fn answered<V: Fn(&Playlist) -> Result<(), String>>(
    validate: V,
    playlist: PlaylistView,
    accepted: bool,
) -> bool {
    exists|candidate: Playlist, answer: Result<(), String>|
        {
            &&& candidate@ == playlist
            &&& #[trigger] call_ensures(validate, (&candidate,), answer)
            &&& accepted == (answer is Ok)
        }
}

/// `validate` can refuse a playlist with this error.
pub open spec fn refused<V: Fn(&Playlist) -> Result<(), String>>(
    validate: V,
    playlist: PlaylistView,
    error: String,
) -> bool {
    exists|candidate: Playlist|
        candidate@ == playlist && #[trigger] call_ensures(
            validate,
            (&candidate,),
            Err::<(), String>(error),
        )
}

impl ImportPlaylist {
    /// The playlist under `id`, if its transition is known and `validate`
    /// takes it.
    pub fn to_playlist<V: Fn(&Playlist) -> Result<(), String>>(
        &self,
        id: String,
        validate: &V,
    ) -> (built: Result<Playlist, String>)
        requires
            forall|candidate: &Playlist| call_requires(*validate, (candidate,)),
        ensures
            match built {
                Ok(playlist) => transition_named(self.transition@) == Some(playlist.transition)
                    && playlist@ == imported_as(self@, id@, playlist.transition) && answered(
                    *validate,
                    playlist@,
                    true,
                ),
                Err(error) => match transition_named(self.transition@) {
                    None => error@ == "unknown transition "@ + self.transition@,
                    Some(transition) => refused(
                        *validate,
                        imported_as(self@, id@, transition),
                        error,
                    ),
                },
            },
    {
        let transition: PlaylistTransition = if same(self.transition.as_str(), "none") {
            PlaylistTransition::HardCut
        } else if same(self.transition.as_str(), "crossfade") {
            PlaylistTransition::Crossfade
        } else {
            return Err("unknown transition ".to_owned().concat(self.transition.as_str()));
        };
        let playlist = Playlist {
            id,
            title: self.title.clone(),
            entries: copy_strings(&self.entries),
            shuffle: self.shuffle,
            repeat: self.repeat,
            duration_seconds: self.duration_seconds,
            transition,
            transition_seconds: self.transition_seconds,
        };
        assert(playlist@ == imported_as(self@, id@, transition));
        let answer: Result<(), String> = validate(&playlist);
        match answer {
            Ok(()) => {
                assert(answered(*validate, playlist@, true));
                Ok(playlist)
            },
            Err(error) => {
                assert(refused(*validate, playlist@, error));
                Err(error)
            },
        }
    }
}

/// What an identity is made of: the title without the space around it, cut so
/// that a number fits behind it.
pub open spec fn base_id(title: Seq<char>) -> Seq<char> {
    text::cut(text::trim(title), MAX_BASE_BYTES as nat)
}

pub open spec fn numbered(base: Seq<char>, suffix: nat) -> Seq<char> {
    base + "-"@ + text::decimal(suffix)
}

/// The first identity from number `suffix` on that is not taken.
pub open spec fn free_number(
    base: Seq<char>,
    taken: Seq<PlaylistView>,
    suffix: nat,
) -> Option<Seq<char>>
    decreases MAX_SUFFIX + 1 - suffix,
{
    if suffix > MAX_SUFFIX {
        None
    } else if !defines(taken, numbered(base, suffix)) {
        Some(numbered(base, suffix))
    } else {
        free_number(base, taken, suffix + 1)
    }
}

/// The identity beside those that are taken: the title's own, or the first
/// free numbered one.
pub open spec fn derived_id(title: Seq<char>, taken: Seq<PlaylistView>) -> Option<Seq<char>> {
    let base = base_id(title);
    if base.len() > 0 && !defines(taken, base) {
        Some(base)
    } else {
        free_number(base, taken, 2)
    }
}

/// What an import is put up for beside the playlists that went before.
pub open spec fn put_up(legacy: ImportView, before: Seq<PlaylistView>) -> Option<PlaylistView> {
    match (derived_id(legacy.title, before), transition_named(legacy.transition)) {
        (Some(id), Some(transition)) => Some(imported_as(legacy, id, transition)),
        _ => None,
    }
}

/// The playlists that come of an import, and how many did not make it.
/// `accepted` says of each what the validation answered.
pub open spec fn import_run(legacy: Seq<ImportView>, accepted: Seq<bool>) -> (
    Seq<PlaylistView>,
    nat,
)
    decreases legacy.len(),
{
    if legacy.len() == 0 {
        (Seq::empty(), 0)
    } else {
        let (done, rejected) = import_run(legacy.drop_last(), accepted.drop_last());
        match put_up(legacy.last(), done) {
            Some(playlist) if accepted.last() => (done.push(playlist), rejected),
            _ => (done, rejected + 1),
        }
    }
}

pub open spec fn import_views(legacy: Seq<ImportPlaylist>) -> Seq<ImportView> {
    legacy.map_values(|playlist: ImportPlaylist| playlist@)
}

/// `accepted` is what `validate` can have answered in the course of an import.
pub open spec fn import_answers<V: Fn(&Playlist) -> Result<(), String>>(
    legacy: Seq<ImportView>,
    accepted: Seq<bool>,
    validate: V,
) -> bool {
    &&& accepted.len() == legacy.len()
    &&& forall|i: int|
        #![trigger accepted[i]]
        0 <= i < legacy.len() ==> (put_up(
            legacy[i],
            import_run(legacy.take(i), accepted.take(i)).0,
        ) matches Some(playlist) ==> answered(validate, playlist, accepted[i]))
}

proof fn lemma_short_decimal(n: nat)
    requires
        n < 1000,
    ensures
        1 <= text::decimal(n).len() <= 3,
{
    reveal_with_fuel(text::decimal, 3);
}

pub proof fn lemma_free_number(base: Seq<char>, taken: Seq<PlaylistView>, suffix: nat)
    ensures
        free_number(base, taken, suffix) matches Some(id) ==> !defines(taken, id) && 0 < id.len()
            && text::byte_count(id) <= text::byte_count(base) + 4,
    decreases MAX_SUFFIX + 1 - suffix,
{
    if suffix <= MAX_SUFFIX {
        reveal_strlit("-");
        let digits = text::decimal(suffix);
        lemma_short_decimal(suffix);
        text::lemma_decimal_digits(suffix);
        text::lemma_bytes_of_digits("-"@);
        text::lemma_bytes_of_digits(digits);
        text::lemma_bytes_join(base, "-"@);
        text::lemma_bytes_join(base + "-"@, digits);
        lemma_free_number(base, taken, suffix + 1);
    }
}

/// Every import keeps the identities apart, none is empty and none is longer
/// than 128 bytes, and every playlist is either imported or rejected.
pub proof fn law_imported_ids_are_distinct_and_bounded(
    legacy: Seq<ImportView>,
    accepted: Seq<bool>,
)
    ensures
        ({
            let (done, rejected) = import_run(legacy, accepted);
            &&& done.len() + rejected == legacy.len()
            &&& forall|i: int|
                0 <= i < done.len() ==> 0 < (#[trigger] done[i]).id.len() && text::byte_count(
                    done[i].id,
                ) <= MAX_ID_BYTES
            &&& forall|i: int, j: int|
                0 <= i < j < done.len() ==> (#[trigger] done[i]).id != (#[trigger] done[j]).id
        }),
    decreases legacy.len(),
{
    if legacy.len() > 0 {
        law_imported_ids_are_distinct_and_bounded(legacy.drop_last(), accepted.drop_last());
        let before = import_run(legacy.drop_last(), accepted.drop_last()).0;
        lemma_free_number(base_id(legacy.last().title), before, 2);
        text::lemma_cut(text::trim(legacy.last().title), MAX_BASE_BYTES as nat);
        let done = import_run(legacy, accepted).0;
        if put_up(legacy.last(), before) is Some && accepted.last() {
            let id = done.last().id;
            assert(!defines(before, id));
            assert forall|i: int, j: int| 0 <= i < j < done.len() implies (#[trigger] done[i]).id
                != (#[trigger] done[j]).id by {
                assert(done[i] == before[i]);
                if j < before.len() {
                    assert(done[j] == before[j]);
                }
            }
            assert forall|i: int| 0 <= i < done.len() implies 0 < (#[trigger] done[i]).id.len()
                && text::byte_count(done[i].id) <= MAX_ID_BYTES by {
                if i < before.len() {
                    assert(done[i] == before[i]);
                }
            }
        }
    }
}

/// `done[i]` came of `legacy[from[i]]`, and later ones of later ones: it has its
/// title, its entries, its shuffle, its repeat, its duration and its transition.
pub open spec fn came_in_order(
    legacy: Seq<ImportView>,
    done: Seq<PlaylistView>,
    from: Seq<int>,
) -> bool {
    &&& from.len() == done.len()
    &&& forall|i: int|
        0 <= i < done.len() ==> 0 <= #[trigger] from[i] < legacy.len() && came_of(
            legacy[from[i]],
            done[i],
        )
    &&& forall|i: int, j: int| 0 <= i < j < from.len() ==> #[trigger] from[i] < #[trigger] from[j]
}

/// The playlist has, field by field, what the imported one had.
pub open spec fn came_of(legacy: ImportView, playlist: PlaylistView) -> bool {
    &&& playlist.title == legacy.title
    &&& playlist.entries == legacy.entries
    &&& playlist.shuffle == legacy.shuffle
    &&& playlist.repeat == legacy.repeat
    &&& playlist.duration_seconds == legacy.duration_seconds
    &&& playlist.transition_seconds == legacy.transition_seconds
    &&& playlist.transition == PlaylistTransition::HardCut <==> legacy.transition == "none"@
    &&& playlist.transition == PlaylistTransition::Crossfade <==> legacy.transition
        == "crossfade"@
}

/// Imported playlists stand in the order of the import, each with what it had
/// there.
pub proof fn law_imports_keep_their_order(legacy: Seq<ImportView>, accepted: Seq<bool>)
    ensures
        exists|from: Seq<int>| #[trigger]
            came_in_order(legacy, import_run(legacy, accepted).0, from),
    decreases legacy.len(),
{
    let done = import_run(legacy, accepted).0;
    if legacy.len() == 0 {
        assert(came_in_order(legacy, done, Seq::empty()));
    } else {
        let shorter = legacy.drop_last();
        law_imports_keep_their_order(shorter, accepted.drop_last());
        let before = import_run(shorter, accepted.drop_last()).0;
        let from = choose|from: Seq<int>| #[trigger] came_in_order(shorter, before, from);
        assert forall|i: int| 0 <= i < before.len() implies 0 <= #[trigger] from[i] < legacy.len()
            && legacy[from[i]] == shorter[from[i]] by {}
        if done.len() > before.len() {
            let longer = from.push(legacy.len() - 1);
            reveal_strlit("none");
            reveal_strlit("crossfade");
            assert("none"@ != "crossfade"@) by {
                assert("none"@.len() == 4 && "crossfade"@.len() == 9);
            }
            assert forall|i: int| 0 <= i < done.len() implies 0 <= #[trigger] longer[i]
                < legacy.len() && came_of(legacy[longer[i]], done[i]) by {
                if i < before.len() {
                    assert(longer[i] == from[i]);
                    assert(done[i] == before[i]);
                }
            }
            assert forall|i: int, j: int| 0 <= i < j < longer.len() implies #[trigger] longer[i]
                < #[trigger] longer[j] by {
                assert(longer[i] == from[i]);
                if j < from.len() {
                    assert(longer[j] == from[j]);
                }
            }
            assert(came_in_order(legacy, done, longer));
        } else {
            assert(done =~= before);
            assert(came_in_order(legacy, done, from));
        }
    }
}

/// The identity of a playlist with this title beside those that are taken.
pub fn derive_id(title: &str, taken: &Vec<Playlist>) -> (id: Option<String>)
    ensures
        crate::probe::option_view(id) == derived_id(title@, playlist_views(taken@)),
{
    let ghost views = playlist_views(taken@);
    let bare = chars_of(trimmed(title).as_str());
    let base = cut_to(&bare, MAX_BASE_BYTES);
    if !base.as_str().is_empty() && find_playlist(taken, base.as_str()).is_none() {
        return Some(base);
    }
    let mut suffix: u32 = 2;
    while suffix <= MAX_SUFFIX
        invariant
            2 <= suffix <= MAX_SUFFIX + 1,
            views == playlist_views(taken@),
            derived_id(title@, views) == free_number(base@, views, suffix as nat),
        decreases MAX_SUFFIX + 1 - suffix,
    {
        let mut id = base.clone();
        id.append("-");
        push_decimal(&mut id, suffix as u128);
        assert(id@ == numbered(base@, suffix as nat));
        if find_playlist(taken, id.as_str()).is_none() {
            return Some(id);
        }
        suffix = suffix + 1;
    }
    None
}

/// Gives every playlist an identity of its own. Those that find none, or that
/// `validate` does not take, are counted as rejected.
pub fn derive_playlists<V: Fn(&Playlist) -> Result<(), String>>(
    legacy: &Vec<ImportPlaylist>,
    validate: &V,
) -> (derived: (Vec<Playlist>, usize))
    requires
        forall|candidate: &Playlist| call_requires(*validate, (candidate,)),
    ensures
        exists|accepted: Seq<bool>|
            {
                &&& #[trigger] import_answers(import_views(legacy@), accepted, *validate)
                &&& import_run(import_views(legacy@), accepted) == (
                    playlist_views(derived.0@),
                    derived.1 as nat,
                )
            },
{
    let ghost views = import_views(legacy@);
    let ghost mut accepted: Seq<bool> = Seq::empty();
    let mut imported: Vec<Playlist> = Vec::new();
    let mut rejected: usize = 0;
    let mut i: usize = 0;
    assert(views.take(0) =~= Seq::empty());
    assert(playlist_views(imported@) =~= Seq::empty());
    while i < legacy.len()
        invariant
            i <= legacy@.len(),
            rejected <= i,
            views == import_views(legacy@),
            forall|candidate: &Playlist| call_requires(*validate, (candidate,)),
            accepted.len() == i,
            import_answers(views.take(i as int), accepted, *validate),
            import_run(views.take(i as int), accepted) == (
                playlist_views(imported@),
                rejected as nat,
            ),
        decreases legacy.len() - i,
    {
        let entry: &ImportPlaylist = &legacy[i];
        let ghost before = imported@;
        let ghost count = rejected as nat;
        let ghost done = views.take(i as int);
        let ghost answers = accepted;
        let ghost mut answer: bool = false;
        assert(views[i as int] == entry@);
        match derive_id(entry.title.as_str(), &imported) {
            Some(id) => {
                match entry.to_playlist(id, validate) {
                    Ok(playlist) => {
                        proof {
                            answer = true;
                            assert(put_up(entry@, playlist_views(before)) == Some(playlist@));
                            assert(answered(*validate, playlist@, true));
                        }
                        imported.push(playlist);
                        assert(playlist_views(imported@) =~= playlist_views(before).push(
                            playlist@,
                        ));
                    },
                    Err(_) => {
                        rejected = rejected + 1;
                    },
                }
            },
            None => {
                rejected = rejected + 1;
            },
        }
        proof {
            accepted = answers.push(answer);
            let longer = views.take(i + 1);
            assert(longer.drop_last() =~= done);
            assert(accepted.drop_last() =~= answers);
            assert forall|k: int|
                #![trigger accepted[k]]
                0 <= k < longer.len() implies (put_up(
                longer[k],
                import_run(longer.take(k), accepted.take(k)).0,
            ) matches Some(playlist) ==> answered(*validate, playlist, accepted[k])) by {
                assert(longer.take(k) =~= done.take(k));
                assert(accepted.take(k) =~= answers.take(k));
                if k < i {
                    assert(accepted[k] == answers[k]);
                    assert(longer[k] == done[k]);
                } else {
                    assert(done.take(k) =~= done);
                    assert(answers.take(k) =~= answers);
                }
            }
        }
        i = i + 1;
    }
    assert(views.take(views.len() as int) =~= views);
    (imported, rejected)
}

} // verus!
