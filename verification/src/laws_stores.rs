//! What the stores promise: grants, assignments, and the files that they are
//! taken up from and saved to.
//!
//! Each law speaks of what a function may answer, or leave behind.

use vstd::prelude::*;

use crate::assignments::{
    copy_strings, validate_assignment, Assignment, AssignmentStore, PersistedAssignments,
    PreviousWallpaper,
};
use crate::grants::{Grant, GrantPatch, GrantStore, PersistedGrants};
use crate::identity::{
    has_identity_chars, is_identity, is_identity_char, validate_identity_part,
};
use crate::laws_apply::{same_previous, same_texts};
use crate::model::RendererKind;
use crate::names::{is_before, NameMap};
use crate::persist::{
    bounded_file, prune_siblings, quarantine_name, read_state_file, save_bounded, StateContent,
    StateFile,
};

verus! {

// ---------------------------------------------------------------------------
// Names
// ---------------------------------------------------------------------------

/// 1 to 128 ASCII letters, digits, dots, underscores or hyphens.
pub open spec fn is_name(s: Seq<char>) -> bool {
    0 < s.len() < 129 && forall|i: int| 0 <= i < s.len() ==> is_name_char(#[trigger] s[i])
}

pub open spec fn is_name_char(c: char) -> bool {
    let code = c as int;
    ||| 97 <= code <= 122
    ||| 65 <= code <= 90
    ||| 48 <= code <= 57
    ||| code == 45
    ||| code == 46
    ||| code == 95
}

pub proof fn lemma_names(s: Seq<char>)
    ensures
        crate::identity::valid_identity(s) <==> is_name(s),
{
    if is_name(s) {
        assert forall|i: int| 0 <= i < s.len() implies crate::identity::identity_char(
            #[trigger] s[i],
        ) by {
            assert(is_name_char(s[i]));
        }
    }
    if crate::identity::valid_identity(s) {
        assert forall|i: int| 0 <= i < s.len() implies is_name_char(#[trigger] s[i]) by {
            assert(crate::identity::identity_char(s[i]));
        }
    }
}

/// Exactly the names of 1 to 128 ASCII letters, digits, dots, underscores and
/// hyphens are identities, and a refusal says which part it was.
pub proof fn law_identities(label: &str, value: &str, yes: bool, checked: Result<(), String>)
    requires
        call_ensures(is_identity, (value,), yes),
        call_ensures(validate_identity_part, (label, value), checked),
    ensures
        yes == is_name(value@),
        checked is Ok <==> is_name(value@),
        checked matches Err(error) ==> error@ == label@
            + " must be 1..=128 ASCII letters, digits, '.', '_', or '-'"@,
{
    lemma_names(value@);
}

/// Names are ordered by their first different character; a name stands before
/// every longer one that it begins, and no name before itself.
pub proof fn law_name_order(a: &str, b: &str, yes: bool, no: bool, k: int)
    requires
        call_ensures(is_before, (a, b), yes),
        call_ensures(is_before, (b, a), no),
        0 <= k,
        k <= a@.len(),
        k <= b@.len(),
        forall|i: int| 0 <= i < k ==> a@[i] == b@[i],
        k < a@.len() && k < b@.len() ==> a@[k] != b@[k],
    ensures
        k < a@.len() && k < b@.len() ==> yes == ((a@[k] as int) < (b@[k] as int)) && no == !yes,
        k == a@.len() ==> !no && yes == (a@.len() < b@.len()),
        k == b@.len() ==> !yes && no == (b@.len() < a@.len()),
{
    lemma_order(a@, b@, k);
    lemma_order(b@, a@, k);
}

proof fn lemma_order(a: Seq<char>, b: Seq<char>, k: int)
    requires
        0 <= k,
        k <= a.len(),
        k <= b.len(),
        forall|i: int| 0 <= i < k ==> a[i] == b[i],
        k < a.len() && k < b.len() ==> a[k] != b[k],
    ensures
        k < a.len() && k < b.len() ==> crate::names::precedes(a, b) == ((a[k] as int) < (
        b[k] as int)),
        k == a.len() ==> crate::names::precedes(a, b) == (a.len() < b.len()),
        k == b.len() && k < a.len() ==> !crate::names::precedes(a, b),
    decreases k,
{
    if k > 0 {
        let x = a.drop_first();
        let y = b.drop_first();
        assert(forall|i: int| 0 <= i < k - 1 ==> x[i] == a[i + 1] && y[i] == b[i + 1]);
        lemma_order(x, y, k - 1);
        assert(a[0] == b[0]);
    }
}

// ---------------------------------------------------------------------------
// Maps by name
// ---------------------------------------------------------------------------

/// What was put under a name is what stands there; the other names keep
/// theirs.
pub proof fn law_put_is_found<T>(
    map: &mut NameMap<T>,
    name: &str,
    value: T,
    replaced: Option<T>,
    other: Seq<char>,
)
    requires
        call_ensures(NameMap::<T>::insert, (map, name, value), replaced),
    ensures
        final(map)@.contains_key(name@) && final(map)@[name@] == value,
        replaced is Some <==> old(map)@.contains_key(name@),
        replaced matches Some(record) ==> record == old(map)@[name@],
        other != name@ ==> (final(map)@.contains_key(other) <==> old(map)@.contains_key(other)),
        other != name@ && old(map)@.contains_key(other) ==> final(map)@[other] == old(map)@[other],
{
}

/// What was taken from under a name is what stood there, and nothing stands
/// there any more; the other names keep theirs.
pub proof fn law_taken_is_gone<T>(
    map: &mut NameMap<T>,
    name: &str,
    removed: Option<T>,
    other: Seq<char>,
)
    requires
        call_ensures(NameMap::<T>::remove, (map, name), removed),
    ensures
        !final(map)@.contains_key(name@),
        removed is Some <==> old(map)@.contains_key(name@),
        removed matches Some(record) ==> record == old(map)@[name@],
        other != name@ ==> (final(map)@.contains_key(other) <==> old(map)@.contains_key(other)),
        other != name@ && old(map)@.contains_key(other) ==> final(map)@[other] == old(map)@[other],
{
}

// ---------------------------------------------------------------------------
// State files
// ---------------------------------------------------------------------------

/// Only a regular file within its bound is read.
pub proof fn law_only_bounded_files_are_read(is_file: bool, size: u64, max: u64, readable: bool)
    requires
        call_ensures(bounded_file, (is_file, size, max), readable),
    ensures
        readable <==> is_file && !(size > max),
{
}

/// A missing file is no fault; a regular file within its bound that was parsed
/// yields what it held; anything else is a reason to quarantine.
pub proof fn law_file_yields_what_it_held<T>(
    file: StateFile<T>,
    max: u64,
    yielded: Result<Option<T>, String>,
)
    requires
        call_ensures(read_state_file::<T>, (file, max), yielded),
    ensures
        match file {
            StateFile::Missing => yielded is Ok && yielded->Ok_0 is None,
            StateFile::OpenFailed(error) => yielded is Err && yielded->Err_0@ == "open failed: "@
                + error@,
            StateFile::MetadataFailed(error) => yielded is Err && yielded->Err_0@
                == "metadata failed: "@ + error@,
            StateFile::Opened { is_file, size, content } => {
                &&& yielded is Ok <==> is_file && size <= max && content is Some
                    && content->0 is Parsed
                &&& yielded is Ok ==> yielded->Ok_0 is Some && content == Some(
                    StateContent::Parsed(yielded->Ok_0->0),
                )
                &&& is_file && size <= max && content is Some && content->0 is ReadFailed
                    ==> yielded->Err_0@ == "read failed: "@ + content->0->ReadFailed_0@
                &&& is_file && size <= max && content is Some && content->0 is ParseFailed
                    ==> yielded->Err_0@ == "parse failed: "@ + content->0->ParseFailed_0@
                &&& !is_file || size > max ==> yielded->Err_0@ == "not a bounded regular file"@
            },
        },
{
}

/// A state counts as saved only if its encoding, within the bound, was
/// written; every failure is the encoder's, the writer's, or the bound's.
pub proof fn law_saved_means_written<
    T,
    E: FnOnce(&T) -> Result<Vec<u8>, String>,
    W: FnOnce(&Vec<u8>) -> Result<(), String>,
>(state: &T, label: &str, max: u64, encode: E, write: W, saved: Result<(), String>)
    requires
        call_ensures(save_bounded::<T, E, W>, (state, label, max, encode, write), saved),
    ensures
        saved is Ok ==> exists|bytes: Vec<u8>|
            bytes@.len() <= max && #[trigger] call_ensures(encode, (state,), Ok(bytes))
                && call_ensures(write, (&bytes,), saved),
        saved matches Err(error) ==> {
            ||| call_ensures(encode, (state,), Err(error))
            ||| exists|bytes: Vec<u8>|
                {
                    &&& #[trigger] call_ensures(encode, (state,), Ok(bytes))
                    &&& bytes@.len() <= max ==> call_ensures(write, (&bytes,), saved)
                    &&& bytes@.len() > max ==> error@ == label@ + " state exceeds "@
                        + crate::text::decimal(max as nat) + " bytes"@
                }
        },
{
}

/// A quarantined file is known by its name.
pub proof fn law_quarantined_files_are_known(
    name: &str,
    seconds: u64,
    nanos: u128,
    moved: String,
)
    requires
        call_ensures(quarantine_name, (name, seconds, nanos), moved),
    ensures
        is_quarantined(moved@, name@),
{
    let prefix = name@ + ".invalid-"@;
    assert(moved@.take(prefix.len() as int) =~= moved@.subrange(0, prefix.len() as int));
}

/// Two quarantines at different times never meet under one name.
pub proof fn law_quarantines_never_meet(
    name: &str,
    seconds: u64,
    nanos: u128,
    moved: String,
    seconds_after: u64,
    nanos_after: u128,
    moved_after: String,
)
    requires
        call_ensures(quarantine_name, (name, seconds, nanos), moved),
        call_ensures(quarantine_name, (name, seconds_after, nanos_after), moved_after),
        moved@ == moved_after@,
    ensures
        seconds == seconds_after && nanos == nanos_after,
{
    let prefix = crate::persist::quarantine_prefix(name@);
    let a = crate::text::decimal(seconds as nat);
    let b = crate::text::decimal(seconds_after as nat);
    let c = crate::text::decimal(nanos as nat);
    let d = crate::text::decimal(nanos_after as nat);
    reveal_strlit("-");
    let dash = "-"@;
    assert(dash =~= seq!['-']);
    crate::text::lemma_decimal_digits(seconds as nat);
    crate::text::lemma_decimal_digits(seconds_after as nat);
    assert(moved@ == prefix + a + dash + c);
    assert(moved_after@ == prefix + b + dash + d);
    let n = prefix.len();
    if a.len() < b.len() {
        assert(moved@[n + a.len() as int] == '-');
        assert(moved_after@[n + a.len() as int] == b[a.len() as int]);
    }
    if b.len() < a.len() {
        assert(moved_after@[n + b.len() as int] == '-');
        assert(moved@[n + b.len() as int] == a[b.len() as int]);
    }
    assert(a =~= b) by {
        assert forall|i: int| 0 <= i < a.len() implies a[i] == b[i] by {
            assert(moved@[n + i] == a[i]);
            assert(moved_after@[n + i] == b[i]);
        }
    }
    assert(c =~= d) by {
        assert(c.len() == d.len());
        assert forall|i: int| 0 <= i < c.len() implies c[i] == d[i] by {
            assert(moved@[n + a.len() + 1 + i] == c[i]);
            assert(moved_after@[n + a.len() + 1 + i] == d[i]);
        }
    }
    crate::text::lemma_decimal_digits(nanos as nat);
    crate::text::lemma_decimal_digits(nanos_after as nat);
}

// ---------------------------------------------------------------------------
// Grants
// ---------------------------------------------------------------------------

/// After a patch every permission that it names has the patch's value, and
/// every other one is as it was.
pub proof fn law_patch_sets_what_it_names(patch: GrantPatch, current: Grant, next: Grant)
    requires
        call_ensures(GrantPatch::apply, (patch, current), next),
    ensures
        patch.network matches Some(value) ==> next.network == value,
        patch.audio matches Some(value) ==> next.audio == value,
        patch.pointer matches Some(value) ==> next.pointer == value,
        patch.network is None ==> next.network == current.network,
        patch.audio is None ==> next.audio == current.audio,
        patch.pointer is None ==> next.pointer == current.pointer,
{
}

/// Without a record a wallpaper has the pointer, and neither network nor audio.
pub proof fn law_defaults_are_cautious(
    store: &GrantStore,
    id: &str,
    defaults: Grant,
    grant: Grant,
)
    requires
        call_ensures(Grant::defaults, (), defaults),
        call_ensures(GrantStore::grant, (store, id), grant),
    ensures
        !defaults.network && !defaults.audio && defaults.pointer,
        !store@.contains_key(id@) ==> !grant.network && !grant.audio && grant.pointer,
        store@.contains_key(id@) ==> grant == store@[id@],
{
}

/// A patch that was taken is what the wallpaper has then, permission by
/// permission, and no other wallpaper notices; one that was refused changes
/// nothing.
pub proof fn law_granted_is_in_force<
    E: FnOnce(&NameMap<Grant>) -> Result<Vec<u8>, String>,
    W: FnOnce(&Vec<u8>) -> Result<(), String>,
>(
    store: &mut GrantStore,
    id: &str,
    patch: GrantPatch,
    encode: E,
    write: W,
    result: Result<Grant, String>,
    had: Grant,
    other: Seq<char>,
)
    requires
        store.wf(),
        call_ensures(GrantStore::grant, (&*store, id), had),
        call_ensures(GrantStore::set::<E, W>, (store, id, patch, encode, write), result),
    ensures
        match result {
            Ok(granted) => {
                &&& is_name(id@)
                &&& final(store)@.contains_key(id@) && final(store)@[id@] == granted
                &&& granted.network == if patch.network is Some {
                    patch.network->0
                } else {
                    had.network
                }
                &&& granted.audio == if patch.audio is Some {
                    patch.audio->0
                } else {
                    had.audio
                }
                &&& granted.pointer == if patch.pointer is Some {
                    patch.pointer->0
                } else {
                    had.pointer
                }
            },
            Err(_) => final(store)@ == old(store)@,
        },
        !is_name(id@) ==> result is Err,
        !old(store)@.contains_key(id@) && old(store)@.len() >= 256 ==> result is Err,
        other != id@ ==> (final(store)@.contains_key(other) <==> old(store)@.contains_key(other)),
        other != id@ && old(store)@.contains_key(other) ==> final(store)@[other]
            == old(store)@[other],
{
    lemma_names(id@);
}

/// A start takes up the grants that the file held, all or none; all of them
/// exactly if the file is of version 1, with at most 256 records, each under a
/// name.
pub proof fn law_grants_are_taken_up_whole(
    file: StateFile<PersistedGrants>,
    loaded: (GrantStore, Option<String>),
    yielded: Result<Option<PersistedGrants>, String>,
)
    requires
        call_ensures(GrantStore::load, (file,), loaded),
        call_ensures(read_state_file::<PersistedGrants>, (file, 1048576), yielded),
    ensures
        match yielded {
            Err(reason) => loaded.0@.dom() =~= Set::empty() && loaded.1 is Some && loaded.1->0@
                == reason@,
            Ok(None) => loaded.0@.dom() =~= Set::empty() && loaded.1 is None,
            Ok(Some(state)) => {
                let fine = state.schema_version == 1 && state.grants@.len() <= 256 && (forall|
                    id: Seq<char>,
                | #[trigger]
                    state.grants@.contains_key(id) ==> is_name(id));
                &&& loaded.1 is None <==> fine
                &&& fine ==> loaded.0@ == state.grants@
                &&& !fine ==> loaded.0@.dom() =~= Set::empty()
            },
        },
{
    assert forall|id: Seq<char>|
        crate::identity::valid_identity(id) <==> #[trigger] is_name(id) by {
        lemma_names(id);
    }
    assert forall|id: Seq<char>| #[trigger] crate::identity::valid_identity(id) implies is_name(
        id,
    ) by {
        lemma_names(id);
    }
}

// ---------------------------------------------------------------------------
// Assignments
// ---------------------------------------------------------------------------

/// A copied list has the same texts in the same order.
pub proof fn law_copied_list_is_the_same(strings: &Vec<String>, copy: Vec<String>)
    requires
        call_ensures(copy_strings, (strings,), copy),
    ensures
        same_texts(copy@, strings@),
{
}

pub proof fn lemma_texts(a: Seq<String>, b: Seq<String>)
    requires
        crate::text::views(a) == crate::text::views(b),
    ensures
        same_texts(a, b),
{
    let x = crate::text::views(a);
    let y = crate::text::views(b);
    assert(x.len() == a.len() && y.len() == b.len());
    assert forall|i: int| 0 <= i < a.len() implies (#[trigger] a[i])@ == b[i]@ by {
        assert(x[i] == a[i]@ && y[i] == b[i]@);
    }
}

/// A copy of a record says the same, field by field.
pub proof fn law_copied_record_is_the_same(
    record: &Assignment,
    copy: Assignment,
    saved: &PreviousWallpaper,
    saved_copy: PreviousWallpaper,
)
    requires
        call_ensures(Assignment::clone, (record,), copy),
        call_ensures(PreviousWallpaper::clone, (saved,), saved_copy),
    ensures
        copy.wallpaper_id@ == record.wallpaper_id@,
        copy.kind == record.kind,
        copy.content@ == record.content@,
        copy.width == record.width,
        copy.height == record.height,
        copy.fps == record.fps,
        copy.scaling == record.scaling,
        copy.applied_at_unix_seconds == record.applied_at_unix_seconds,
        copy.previous is Some <==> record.previous is Some,
        copy.previous is Some ==> same_previous(copy.previous->0, record.previous->0),
        same_previous(saved_copy, *saved),
{
    lemma_texts(saved_copy.config_group@, saved.config_group@);
    if copy.previous is Some && record.previous is Some {
        assert(copy.previous->0@ == record.previous->0@);
        lemma_texts(copy.previous->0.config_group@, record.previous->0.config_group@);
    }
}

/// What a stored wallpaper must be to be gone back to.
pub open spec fn sound_previous(previous: PreviousWallpaper) -> bool {
    &&& is_name(previous.wallpaper_plugin@)
    &&& 0 < previous.config_group@.len() < 5
    &&& forall|i: int|
        0 <= i < previous.config_group@.len() ==> is_name((#[trigger] previous.config_group@[i])@)
    &&& previous.image matches Some(image) ==> 0 < image@.len() && vstd::utf8::encode_utf8(
        image@,
    ).len() <= 4096
}

/// What an assignment must be to be stored under an output.
pub open spec fn sound_assignment(output: Seq<char>, assignment: Assignment) -> bool {
    &&& is_name(output)
    &&& is_name(assignment.wallpaper_id@)
    &&& assignment.kind != RendererKind::Test
    &&& 0 < assignment.content@.len() && vstd::utf8::encode_utf8(assignment.content@).len() <= 4096
    &&& 0 < assignment.width <= 8192
    &&& 0 < assignment.height <= 8192
    &&& 0 < assignment.fps <= 240
    &&& assignment.previous matches Some(previous) ==> sound_previous(previous)
}

proof fn lemma_sound(output: Seq<char>, assignment: Assignment)
    ensures
        crate::assignments::assignment_refusal(output, assignment@) is None <==> sound_assignment(
            output,
            assignment,
        ),
{
    lemma_names(output);
    lemma_names(assignment.wallpaper_id@);
    if let Some(previous) = assignment.previous {
        lemma_names(previous.wallpaper_plugin@);
        let group = crate::text::views(previous.config_group@);
        assert(group.len() == previous.config_group@.len());
        assert forall|i: int| 0 <= i < group.len() implies (crate::identity::valid_identity(
            #[trigger] group[i],
        ) <==> is_name(previous.config_group@[i]@)) by {
            assert(group[i] == previous.config_group@[i]@);
            lemma_names(group[i]);
        }
        if sound_previous(previous) {
            assert forall|i: int| 0 <= i < group.len() implies crate::identity::valid_identity(
                #[trigger] group[i],
            ) by {
                assert(is_name(previous.config_group@[i]@));
            }
        }
        if crate::assignments::previous_refusal(previous@) is None {
            assert forall|i: int| 0 <= i < previous.config_group@.len() implies is_name(
                (#[trigger] previous.config_group@[i])@,
            ) by {
                assert(crate::identity::valid_identity(group[i]));
            }
        }
    }
}

/// Exactly the sound assignments are accepted.
pub proof fn law_sound_assignments_are_accepted(
    output: &str,
    assignment: &Assignment,
    checked: Result<(), String>,
)
    requires
        call_ensures(validate_assignment, (output, assignment), checked),
    ensures
        checked is Ok <==> sound_assignment(output@, *assignment),
{
    lemma_sound(output@, *assignment);
}

/// What was put on an output is what is found there, and no other output
/// notices; what was refused changes nothing.
pub proof fn law_assigned_is_found<
    E: FnOnce(&NameMap<Assignment>) -> Result<Vec<u8>, String>,
    W: FnOnce(&Vec<u8>) -> Result<(), String>,
>(
    store: &mut AssignmentStore,
    output: &str,
    assignment: Assignment,
    encode: E,
    write: W,
    result: Result<(), String>,
    other: Seq<char>,
)
    requires
        call_ensures(
            AssignmentStore::set::<E, W>,
            (store, output, assignment, encode, write),
            result,
        ),
    ensures
        result is Ok ==> sound_assignment(output@, assignment) && final(store)@.contains_key(
            output@,
        ) && final(store)@[output@] == assignment,
        result is Err ==> final(store)@ == old(store)@,
        !sound_assignment(output@, assignment) ==> result is Err,
        !old(store)@.contains_key(output@) && old(store)@.len() >= 16 ==> result is Err,
        other != output@ ==> (final(store)@.contains_key(other) <==> old(store)@.contains_key(
            other,
        )),
        other != output@ && old(store)@.contains_key(other) ==> final(store)@[other]
            == old(store)@[other],
{
    lemma_sound(output@, assignment);
}

/// What was taken off an output is not found there any more; the answer says
/// whether there was anything; and no other output notices.
pub proof fn law_removed_is_gone<
    E: FnOnce(&NameMap<Assignment>) -> Result<Vec<u8>, String>,
    W: FnOnce(&Vec<u8>) -> Result<(), String>,
>(
    store: &mut AssignmentStore,
    output: &str,
    encode: E,
    write: W,
    result: Result<bool, String>,
    other: Seq<char>,
)
    requires
        call_ensures(AssignmentStore::remove::<E, W>, (store, output, encode, write), result),
    ensures
        result matches Ok(existed) ==> existed == old(store)@.contains_key(output@)
            && !final(store)@.contains_key(output@),
        result is Err ==> final(store)@ == old(store)@ && old(store)@.contains_key(output@),
        other != output@ ==> (final(store)@.contains_key(other) <==> old(store)@.contains_key(
            other,
        )),
        other != output@ && old(store)@.contains_key(other) ==> final(store)@[other]
            == old(store)@[other],
{
}

/// A start takes up the assignments that the file held, all or none; all of
/// them exactly if the file is of version 1, with at most 16 records, each
/// sound under its output.
pub proof fn law_assignments_are_taken_up_whole(
    file: StateFile<PersistedAssignments>,
    loaded: (AssignmentStore, Option<String>),
    yielded: Result<Option<PersistedAssignments>, String>,
)
    requires
        call_ensures(AssignmentStore::load, (file,), loaded),
        call_ensures(read_state_file::<PersistedAssignments>, (file, 1048576), yielded),
    ensures
        match yielded {
            Err(reason) => loaded.0@.dom() =~= Set::empty() && loaded.1 is Some && loaded.1->0@
                == reason@,
            Ok(None) => loaded.0@.dom() =~= Set::empty() && loaded.1 is None,
            Ok(Some(state)) => {
                let fine = state.schema_version == 1 && state.outputs@.len() <= 16 && (forall|
                    output: Seq<char>,
                | #[trigger]
                    state.outputs@.contains_key(output) ==> sound_assignment(
                        output,
                        state.outputs@[output],
                    ));
                &&& loaded.1 is None <==> fine
                &&& fine ==> loaded.0@ == state.outputs@
                &&& !fine ==> loaded.0@.dom() =~= Set::empty()
            },
        },
{
    if yielded is Ok && yielded->Ok_0 is Some {
        let state = yielded->Ok_0->0;
        assert forall|output: Seq<char>| #[trigger] state.outputs@.contains_key(output) implies (
        crate::assignments::assignment_refusal(output, state.outputs@[output]@) is None
            <==> sound_assignment(output, state.outputs@[output])) by {
            lemma_sound(output, state.outputs@[output]);
        }
    }
}

/// An assignment is found under its output, and nothing is found where there
/// is none.
pub proof fn law_assignment_is_found_by_output(
    store: &AssignmentStore,
    output: &str,
    found: Option<&Assignment>,
    all: &NameMap<Assignment>,
)
    requires
        call_ensures(AssignmentStore::get, (store, output), found),
        call_ensures(AssignmentStore::all, (store,), all),
    ensures
        found is Some <==> store@.contains_key(output@),
        found matches Some(assignment) ==> *assignment == store@[output@],
        all@ == store@,
{
}

// ---------------------------------------------------------------------------
// Names and their order
// ---------------------------------------------------------------------------

/// A map by name begins empty, says how many names it has, and finds what
/// stands under one.
pub proof fn law_map_finds_what_it_has<T>(
    fresh: NameMap<T>,
    map: &NameMap<T>,
    name: &str,
    value: Option<&T>,
    found: bool,
    count: usize,
)
    requires
        call_ensures(NameMap::<T>::new, (), fresh),
        call_ensures(NameMap::<T>::get, (map, name), value),
        call_ensures(NameMap::<T>::contains, (map, name), found),
        call_ensures(NameMap::<T>::len, (map,), count),
    ensures
        fresh@.dom() =~= Set::empty(),
        found <==> map@.contains_key(name@),
        value is Some <==> map@.contains_key(name@),
        value is Some ==> *value->0 == map@[name@],
        count == map@.len(),
{
}

/// The names of a map come in their order, each once, with what stands under
/// it.
pub proof fn law_map_is_walked_in_order<T>(
    map: &NameMap<T>,
    i: usize,
    j: usize,
    first: &String,
    second: &String,
    value: &T,
    a: &str,
    b: &str,
    before: bool,
)
    requires
        map.wf(),
        i < j < map@.len(),
        call_ensures(NameMap::<T>::name_at, (map, i), first),
        call_ensures(NameMap::<T>::name_at, (map, j), second),
        call_ensures(NameMap::<T>::value_at, (map, i), value),
        a@ == first@,
        b@ == second@,
        call_ensures(is_before, (a, b), before),
    ensures
        map@.contains_key(first@) && *value == map@[first@],
        before,
        first@ != second@,
{
    map.lemma_names();
    crate::names::lemma_precedes_not_self(first@);
}

/// The characters of a name.
pub proof fn law_name_characters(c: char, yes: bool, value: &str, all: bool)
    requires
        call_ensures(is_identity_char, (c,), yes),
        call_ensures(has_identity_chars, (value,), all),
    ensures
        yes <==> is_name_char(c),
        all <==> forall|i: int| 0 <= i < value@.len() ==> is_name_char(#[trigger] value@[i]),
{
    if forall|i: int| 0 <= i < value@.len() ==> is_name_char(#[trigger] value@[i]) {
        assert forall|i: int| 0 <= i < value@.len() implies crate::identity::identity_char(
            #[trigger] value@[i],
        ) by {
            assert(is_name_char(value@[i]));
        }
    }
    if all {
        assert forall|i: int| 0 <= i < value@.len() implies is_name_char(#[trigger] value@[i]) by {
            assert(crate::identity::identity_char(value@[i]));
        }
    }
}

/// A file that was quarantined from this one.
pub open spec fn is_quarantined(file: Seq<char>, name: Seq<char>) -> bool {
    let prefix = name + ".invalid-"@;
    prefix.len() <= file.len() && file.take(prefix.len() as int) == prefix
}

/// Only quarantined files of this name go, and of those the eight newest stay:
/// whatever goes stands, by its name, before whatever stays.
pub proof fn law_newest_quarantined_files_stay(
    files: &Vec<String>,
    name: &str,
    doomed: Vec<String>,
    all: Seq<Seq<char>>,
    i: int,
    gone: &str,
    kept: &str,
    before: bool,
)
    requires
        call_ensures(prune_siblings, (files, name), doomed),
        all.no_duplicates(),
        forall|file: Seq<char>| #[trigger]
            all.contains(file) <==> is_quarantined(file, name@) && exists|k: int|
                0 <= k < files@.len() && (#[trigger] files@[k])@ == file,
        0 <= i < doomed@.len(),
        gone@ == doomed@[i]@,
        all.contains(kept@),
        forall|k: int| 0 <= k < doomed@.len() ==> (#[trigger] doomed@[k])@ != kept@,
        call_ensures(is_before, (gone, kept), before),
    ensures
        all.contains(gone@),
        before,
        doomed@.len() == all.len() - 8,
{
    let out = crate::text::views(doomed@);
    assert(out.len() == doomed@.len());
    assert(out[i] == gone@);
    let siblings = choose|siblings: Seq<Seq<char>>|
        {
            &&& #[trigger] siblings.no_duplicates()
            &&& forall|file: Seq<char>|
                siblings.contains(file) <==> crate::persist::is_sibling(files@, name@, file)
            &&& out.len() == if siblings.len() > 8 {
                siblings.len() - 8
            } else {
                0
            }
        };
    assert forall|file: Seq<char>| #[trigger] all.contains(file) <==> crate::persist::is_sibling(
        files@,
        name@,
        file,
    ) by {
        lemma_sibling(files@, name@, file);
    }
    assert(all.to_set() =~= siblings.to_set());
    all.unique_seq_to_set();
    siblings.unique_seq_to_set();
    assert(crate::persist::is_sibling(files@, name@, out[i]));
    if out.contains(kept@) {
        let k = choose|k: int| 0 <= k < out.len() && out[k] == kept@;
        assert(doomed@[k]@ == kept@);
    }
}

proof fn lemma_sibling(files: Seq<String>, name: Seq<char>, file: Seq<char>)
    ensures
        crate::persist::is_sibling(files, name, file) <==> is_quarantined(file, name) && exists|
            k: int,
        |
            0 <= k < files.len() && (#[trigger] files[k])@ == file,
{
    let prefix = name + ".invalid-"@;
    if prefix.len() <= file.len() {
        assert(file.take(prefix.len() as int) =~= file.subrange(0, prefix.len() as int));
    }
    let views = crate::text::views(files);
    if views.contains(file) {
        let k = choose|k: int| 0 <= k < views.len() && views[k] == file;
        assert(files[k]@ == file);
    }
    if exists|k: int| 0 <= k < files.len() && (#[trigger] files[k])@ == file {
        let k = choose|k: int| 0 <= k < files.len() && (#[trigger] files[k])@ == file;
        assert(views[k] == file);
    }
}

/// A store opens only over a directory that is there, with what its file held.
pub proof fn law_stores_open_over_their_directory(
    directory: Result<(), String>,
    grants: StateFile<PersistedGrants>,
    granted: Result<(GrantStore, Option<String>), String>,
    grants_loaded: (GrantStore, Option<String>),
    assignments: StateFile<PersistedAssignments>,
    assigned: Result<(AssignmentStore, Option<String>), String>,
    assignments_loaded: (AssignmentStore, Option<String>),
    all: &NameMap<Grant>,
)
    requires
        call_ensures(GrantStore::open, (directory, grants), granted),
        call_ensures(GrantStore::load, (grants,), grants_loaded),
        call_ensures(AssignmentStore::open, (directory, assignments), assigned),
        call_ensures(AssignmentStore::load, (assignments,), assignments_loaded),
        call_ensures(GrantStore::all, (&grants_loaded.0,), all),
    ensures
        granted is Ok <==> directory is Ok,
        assigned is Ok <==> directory is Ok,
        granted matches Ok((store, reason)) ==> store@ == grants_loaded.0@ && (reason is Some
            <==> grants_loaded.1 is Some),
        assigned matches Ok((store, reason)) ==> store@ == assignments_loaded.0@ && (reason is Some
            <==> assignments_loaded.1 is Some),
        all@ == grants_loaded.0@,
{
}

// ---------------------------------------------------------------------------
// What is saved
// ---------------------------------------------------------------------------

/// These grants, encoded within a mebibyte, were written.
pub open spec fn grants_written<
    E: FnOnce(&NameMap<Grant>) -> Result<Vec<u8>, String>,
    W: FnOnce(&Vec<u8>) -> Result<(), String>,
>(records: Map<Seq<char>, Grant>, encode: E, write: W) -> bool {
    exists|state: NameMap<Grant>, bytes: Vec<u8>, done: Result<(), String>|
        {
            &&& state@ == records
            &&& #[trigger] call_ensures(encode, (&state,), Ok(bytes))
            &&& bytes@.len() <= 1048576
            &&& done is Ok && #[trigger] call_ensures(write, (&bytes,), done)
        }
}

/// These assignments, encoded within a mebibyte, were written.
pub open spec fn assignments_written<
    E: FnOnce(&NameMap<Assignment>) -> Result<Vec<u8>, String>,
    W: FnOnce(&Vec<u8>) -> Result<(), String>,
>(records: Map<Seq<char>, Assignment>, encode: E, write: W) -> bool {
    exists|state: NameMap<Assignment>, bytes: Vec<u8>, done: Result<(), String>|
        {
            &&& state@ == records
            &&& #[trigger] call_ensures(encode, (&state,), Ok(bytes))
            &&& bytes@.len() <= 1048576
            &&& done is Ok && #[trigger] call_ensures(write, (&bytes,), done)
        }
}

/// Whatever a store holds after a change that was taken was written: the grants
/// that are in force, and the assignments that are found.
pub proof fn law_what_is_in_force_was_written<
    E: FnOnce(&NameMap<Grant>) -> Result<Vec<u8>, String>,
    W: FnOnce(&Vec<u8>) -> Result<(), String>,
    F: FnOnce(&NameMap<Assignment>) -> Result<Vec<u8>, String>,
    X: FnOnce(&Vec<u8>) -> Result<(), String>,
>(
    grants: &mut GrantStore,
    id: &str,
    patch: GrantPatch,
    encode: E,
    write: W,
    granted: Result<Grant, String>,
    store: &mut AssignmentStore,
    output: &str,
    assignment: Assignment,
    encode_records: F,
    write_records: X,
    assigned: Result<(), String>,
)
    requires
        call_ensures(GrantStore::set::<E, W>, (grants, id, patch, encode, write), granted),
        call_ensures(
            AssignmentStore::set::<F, X>,
            (store, output, assignment, encode_records, write_records),
            assigned,
        ),
    ensures
        granted is Ok ==> grants_written(final(grants)@, encode, write),
        assigned is Ok ==> assignments_written(final(store)@, encode_records, write_records),
{
    if granted is Ok {
        let state = choose|state: NameMap<Grant>|
            #![trigger state.wf()]
            state.wf() && state@ == final(grants)@ && crate::persist::save_outcome(
                &state,
                "permissions"@,
                1048576,
                encode,
                write,
                Ok(()),
            );
        let bytes = choose|bytes: Vec<u8>|
            #[trigger] call_ensures(encode, (&state,), Ok(bytes)) && bytes@.len() <= 1048576
                && call_ensures(write, (&bytes,), Ok(()));
        assert(call_ensures(encode, (&state,), Ok(bytes)));
        assert(call_ensures(write, (&bytes,), Ok(())));
    }
    if assigned is Ok {
        let state = choose|state: NameMap<Assignment>|
            #![trigger state.wf()]
            state.wf() && state@ == final(store)@ && crate::persist::save_outcome(
                &state,
                "assignments"@,
                1048576,
                encode_records,
                write_records,
                Ok(()),
            );
        let bytes = choose|bytes: Vec<u8>|
            #[trigger] call_ensures(encode_records, (&state,), Ok(bytes)) && bytes@.len()
                <= 1048576 && call_ensures(write_records, (&bytes,), Ok(()));
        assert(call_ensures(encode_records, (&state,), Ok(bytes)));
        assert(call_ensures(write_records, (&bytes,), Ok(())));
    }
}

/// A record that was taken away is not in what was written.
pub proof fn law_removal_was_written<
    F: FnOnce(&NameMap<Assignment>) -> Result<Vec<u8>, String>,
    X: FnOnce(&Vec<u8>) -> Result<(), String>,
>(
    store: &mut AssignmentStore,
    output: &str,
    encode: F,
    write: X,
    removed: Result<bool, String>,
)
    requires
        call_ensures(AssignmentStore::remove::<F, X>, (store, output, encode, write), removed),
    ensures
        removed is Ok && removed->Ok_0 ==> assignments_written(final(store)@, encode, write),
{
    if removed is Ok && removed->Ok_0 {
        let state = choose|state: NameMap<Assignment>|
            #![trigger state.wf()]
            state.wf() && state@ == final(store)@ && crate::persist::save_outcome(
                &state,
                "assignments"@,
                1048576,
                encode,
                write,
                Ok(()),
            );
        let bytes = choose|bytes: Vec<u8>|
            #[trigger] call_ensures(encode, (&state,), Ok(bytes)) && bytes@.len() <= 1048576
                && call_ensures(write, (&bytes,), Ok(()));
        assert(call_ensures(encode, (&state,), Ok(bytes)));
        assert(call_ensures(write, (&bytes,), Ok(())));
    }
}

} // verus!
