//! State files: what is taken up from one, when a new state counts as saved,
//! and which quarantined files are kept.

use vstd::prelude::*;

use crate::names;
use crate::names::NameMap;
use crate::text;
use crate::text::{begins_with, push_decimal};

verus! {

// ---------------------------------------------------------------------------
// Loading
// ---------------------------------------------------------------------------

/// What opening a state file came to. The content of a file that is not a
/// bounded regular file is never read.
pub enum StateFile<T> {
    Missing,
    OpenFailed(String),
    MetadataFailed(String),
    Opened { is_file: bool, size: u64, content: Option<StateContent<T>> },
}

/// What reading the content came to.
pub enum StateContent<T> {
    ReadFailed(String),
    ParseFailed(String),
    Parsed(T),
}

/// A regular file of at most `max` bytes.
pub open spec fn bounded(is_file: bool, size: u64, max: u64) -> bool {
    is_file && size <= max
}

/// Whether the content of an opened file is to be read.
pub fn bounded_file(is_file: bool, size: u64, max: u64) -> (readable: bool)
    ensures
        readable == bounded(is_file, size, max),
{
    is_file && size <= max
}

impl<T> StateFile<T> {
    /// The content is there whenever the file was to be read.
    pub open spec fn read_as_bounded(self, max: u64) -> bool {
        self matches StateFile::Opened { is_file, size, content } ==> (bounded(is_file, size, max)
            ==> content is Some)
    }
}

/// What a state file yields: nothing when there is none, its content, or the
/// reason to quarantine it.
pub open spec fn file_yields<T>(file: StateFile<T>, max: u64) -> Result<Option<T>, Seq<char>> {
    match file {
        StateFile::Missing => Ok(None),
        StateFile::OpenFailed(error) => Err("open failed: "@ + error@),
        StateFile::MetadataFailed(error) => Err("metadata failed: "@ + error@),
        StateFile::Opened { is_file, size, content } => if !bounded(is_file, size, max) {
            Err("not a bounded regular file"@)
        } else {
            match content {
                Some(StateContent::ReadFailed(error)) => Err("read failed: "@ + error@),
                Some(StateContent::ParseFailed(error)) => Err("parse failed: "@ + error@),
                Some(StateContent::Parsed(state)) => Ok(Some(state)),
                None => Err("not a bounded regular file"@),
            }
        },
    }
}

/// Takes up what a state file yields.
pub fn read_state_file<T>(file: StateFile<T>, max: u64) -> (yielded: Result<Option<T>, String>)
    requires
        file.read_as_bounded(max),
    ensures
        match yielded {
            Ok(state) => file_yields(file, max) == Ok::<Option<T>, Seq<char>>(state),
            Err(reason) => file_yields(file, max) == Err::<Option<T>, Seq<char>>(reason@),
        },
{
    match file {
        StateFile::Missing => Ok(None),
        StateFile::OpenFailed(error) => Err("open failed: ".to_owned().concat(error.as_str())),
        StateFile::MetadataFailed(error) => Err(
            "metadata failed: ".to_owned().concat(error.as_str()),
        ),
        StateFile::Opened { is_file, size, content } => {
            if !bounded_file(is_file, size, max) {
                return Err("not a bounded regular file".to_owned());
            }
            match content {
                Some(StateContent::ReadFailed(error)) => Err(
                    "read failed: ".to_owned().concat(error.as_str()),
                ),
                Some(StateContent::ParseFailed(error)) => Err(
                    "parse failed: ".to_owned().concat(error.as_str()),
                ),
                Some(StateContent::Parsed(state)) => Ok(Some(state)),
                None => Err("not a bounded regular file".to_owned()),
            }
        },
    }
}

// ---------------------------------------------------------------------------
// Saving
// ---------------------------------------------------------------------------

/// What a state that does not fit its file is answered.
pub open spec fn oversize_error(label: Seq<char>, max: u64) -> Seq<char> {
    label + " state exceeds "@ + text::decimal(max as nat) + " bytes"@
}

/// `saved` is what encoding `state`, bounding the bytes and writing them can
/// come to.
pub open spec fn save_outcome<T, E: FnOnce(&T) -> Result<Vec<u8>, String>, W: FnOnce(
    &Vec<u8>,
) -> Result<(), String>>(
    state: &T,
    label: Seq<char>,
    max: u64,
    encode: E,
    write: W,
    saved: Result<(), String>,
) -> bool {
    ||| saved matches Err(error) && call_ensures(encode, (state,), Err(error))
    ||| exists|bytes: Vec<u8>|
        {
            &&& #[trigger] call_ensures(encode, (state,), Ok(bytes))
            &&& if bytes@.len() > max {
                saved matches Err(error) && error@ == oversize_error(label, max)
            } else {
                call_ensures(write, (&bytes,), saved)
            }
        }
}

/// Encodes `state` and writes the bytes, unless they exceed the bound.
pub fn save_bounded<T, E: FnOnce(&T) -> Result<Vec<u8>, String>, W: FnOnce(&Vec<u8>) -> Result<
    (),
    String,
>>(state: &T, label: &str, max: u64, encode: E, write: W) -> (saved: Result<(), String>)
    requires
        call_requires(encode, (state,)),
        // Nothing but the encoding of `state` is written, and only if it fits.
        forall|bytes: &Vec<u8>|
            bytes@.len() <= max && call_ensures(encode, (state,), Ok::<Vec<u8>, String>(*bytes))
                ==> #[trigger] call_requires(write, (bytes,)),
    ensures
        save_outcome(state, label@, max, encode, write, saved),
{
    let bytes: Vec<u8> = match encode(state) {
        Ok(bytes) => bytes,
        Err(error) => { return Err(error) },
    };
    if bytes.len() as u64 > max {
        let mut error = label.to_owned();
        error.append(" state exceeds ");
        push_decimal(&mut error, max as u128);
        error.append(" bytes");
        return Err(error);
    }
    write(&bytes)
}

// ---------------------------------------------------------------------------
// Quarantine
// ---------------------------------------------------------------------------

/// How many quarantined files of one state file are kept.
pub const MAX_INVALID_SIBLINGS: usize = 8;

/// What every quarantined file of `name` begins with.
pub open spec fn quarantine_prefix(name: Seq<char>) -> Seq<char> {
    name + ".invalid-"@
}

/// The name that an invalid state file is moved to: it carries the time, down
/// to the nanosecond, so that two quarantines never meet.
pub fn quarantine_name(name: &str, unix_seconds: u64, unix_nanos: u128) -> (moved: String)
    ensures
        moved@ == quarantine_prefix(name@) + text::decimal(unix_seconds as nat) + "-"@
            + text::decimal(unix_nanos as nat),
        text::starts_with(moved@, quarantine_prefix(name@)),
{
    let mut moved = name.to_owned();
    moved.append(".invalid-");
    let ghost prefix = moved@;
    push_decimal(&mut moved, unix_seconds as u128);
    moved.append("-");
    push_decimal(&mut moved, unix_nanos);
    assert(moved@.subrange(0, prefix.len() as int) =~= prefix);
    moved
}

/// `found` is one of the directory's files quarantined from `name`.
pub open spec fn is_sibling(files: Seq<String>, name: Seq<char>, found: Seq<char>) -> bool {
    text::starts_with(found, quarantine_prefix(name)) && text::views(files).contains(found)
}

/// The quarantined files of `name`, in name order.
fn siblings(files: &Vec<String>, name: &str) -> (found: NameMap<()>)
    ensures
        found.wf(),
        forall|file: Seq<char>|
            #[trigger] found@.contains_key(file) <==> is_sibling(files@, name@, file),
{
    let mut prefix = name.to_owned();
    prefix.append(".invalid-");
    let mut found: NameMap<()> = NameMap::new();
    let mut i: usize = 0;
    while i < files.len()
        invariant
            i <= files@.len(),
            found.wf(),
            prefix@ == quarantine_prefix(name@),
            forall|file: Seq<char>|
                #[trigger] found@.contains_key(file) <==> is_sibling(
                    files@.take(i as int),
                    name@,
                    file,
                ),
        decreases files.len() - i,
    {
        let file: &str = files[i].as_str();
        let ghost before = found@;
        let ghost done = files@.take(i as int);
        if begins_with(file, prefix.as_str()) {
            let _ = found.insert(file, ());
        }
        proof {
            let longer = files@.take(i + 1);
            assert forall|other: Seq<char>|
                #[trigger] found@.contains_key(other) <==> is_sibling(longer, name@, other) by {
                if text::views(longer).contains(other) {
                    let k = choose|k: int|
                        0 <= k < text::views(longer).len() && text::views(longer)[k] == other;
                    if k < i {
                        assert(text::views(done)[k] == other);
                    } else {
                        assert(other == file@);
                    }
                }
                if text::views(done).contains(other) {
                    let k = choose|k: int|
                        0 <= k < text::views(done).len() && text::views(done)[k] == other;
                    assert(text::views(longer)[k] == other);
                }
                if other == file@ {
                    assert(text::views(longer)[i as int] == other);
                }
                assert(before.contains_key(other) <==> is_sibling(done, name@, other));
            }
        }
        i = i + 1;
    }
    assert(files@.take(files@.len() as int) =~= files@);
    found
}

/// `doomed` is what has to go so that the newest files stay: the names carry
/// the time, so the later name is the newer file.
pub open spec fn prunes_to_newest(files: Seq<String>, name: Seq<char>, doomed: Seq<Seq<char>>) -> bool {
    // Only quarantined files of this name go, each once and oldest first.
    &&& forall|i: int| 0 <= i < doomed.len() ==> is_sibling(files, name, #[trigger] doomed[i])
    &&& forall|i: int, j: int|
        0 <= i < j < doomed.len() ==> names::precedes(#[trigger] doomed[i], #[trigger] doomed[j])
    // What stays is newer than all that goes.
    &&& forall|i: int, kept: Seq<char>|
        0 <= i < doomed.len() && is_sibling(files, name, kept) && !doomed.contains(kept)
            ==> names::precedes(#[trigger] doomed[i], kept) && #[trigger] is_sibling(files, name, kept)
    // As many stay as the bound allows.
    &&& exists|all: Seq<Seq<char>>|
        {
            &&& #[trigger] all.no_duplicates()
            &&& forall|file: Seq<char>| all.contains(file) <==> is_sibling(files, name, file)
            &&& doomed.len() == if all.len() > MAX_INVALID_SIBLINGS {
                all.len() - MAX_INVALID_SIBLINGS
            } else {
                0
            }
        }
}

/// The quarantined files to delete, oldest first, so that the newest stay.
pub fn prune_siblings(files: &Vec<String>, name: &str) -> (doomed: Vec<String>)
    ensures
        prunes_to_newest(files@, name@, text::views(doomed@)),
{
    let found = siblings(files, name);
    let total: usize = found.len();
    let excess: usize = if total > MAX_INVALID_SIBLINGS {
        total - MAX_INVALID_SIBLINGS
    } else {
        0
    };
    let ghost all = found.names();
    let mut doomed: Vec<String> = Vec::new();
    let mut i: usize = 0;
    while i < excess
        invariant
            found.wf(),
            i <= excess <= total,
            total == all.len(),
            all == found.names(),
            text::views(doomed@) == all.take(i as int),
        decreases excess - i,
    {
        let ghost before = doomed@;
        doomed.push(found.name_at(i).clone());
        proof {
            assert(text::views(doomed@) =~= text::views(before).push(all[i as int]));
            assert(all.take(i + 1) =~= all.take(i as int).push(all[i as int]));
        }
        i = i + 1;
    }
    proof {
        found.lemma_names();
        let out = text::views(doomed@);
        assert(out == all.take(excess as int));
        assert forall|i: int| 0 <= i < out.len() implies is_sibling(
            files@,
            name@,
            #[trigger] out[i],
        ) by {
            assert(found@.contains_key(all[i]));
        }
        assert forall|i: int, kept: Seq<char>|
            0 <= i < out.len() && is_sibling(files@, name@, kept) && !out.contains(
                kept,
            ) implies names::precedes(#[trigger] out[i], kept) && #[trigger] is_sibling(
            files@,
            name@,
            kept,
        ) by {
            assert(found@.contains_key(kept));
            let k = choose|k: int| 0 <= k < all.len() && all[k] == kept;
            if k < excess {
                assert(out[k] == kept);
            }
            assert(names::precedes(all[i], all[k]));
        }
        assert(all.no_duplicates()) by {
            assert forall|i: int, j: int|
                0 <= i < all.len() && 0 <= j < all.len() && i != j implies all[i] != all[j] by {
                names::lemma_precedes_not_self(all[i]);
                if i < j {
                    assert(names::precedes(all[i], all[j]));
                } else {
                    assert(names::precedes(all[j], all[i]));
                }
            }
        }
        assert forall|file: Seq<char>| all.contains(file) <==> is_sibling(files@, name@, file) by {
            if all.contains(file) {
                let k = choose|k: int| 0 <= k < all.len() && all[k] == file;
                assert(found@.contains_key(all[k]));
            }
            if is_sibling(files@, name@, file) {
                assert(found@.contains_key(file));
            }
        }
    }
    doomed
}

} // verus!
