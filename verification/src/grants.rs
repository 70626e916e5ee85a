//! Permission grants per wallpaper: network, audio and pointer.
//!
//! Without a record a wallpaper has the pointer and neither network nor audio.

use vstd::prelude::*;

use crate::identity;
use crate::identity::{is_identity, validate_identity_part};
use crate::names::NameMap;
use crate::persist;
use crate::persist::{read_state_file, save_bounded, StateFile};

verus! {

/// The most records that the store holds.
pub const MAX_GRANTS: usize = 256;

/// The largest grants file, in bytes.
pub const MAX_GRANT_BYTES: u64 = 1048576;

/// The effective grants of one wallpaper.
#[derive(Debug, Clone, Copy, PartialEq, Eq, Structural)]
pub struct Grant {
    pub network: bool,
    pub audio: bool,
    pub pointer: bool,
}

impl Grant {
    /// The policy for a wallpaper without a record.
    pub open spec fn default_policy() -> Grant {
        Grant { network: false, audio: false, pointer: true }
    }

    /// Network off, audio off, pointer on.
    pub fn defaults() -> (grant: Self)
        ensures
            grant == Grant::default_policy(),
    {
        Grant { network: false, audio: false, pointer: true }
    }
}

/// A partial change: what it names is replaced, the rest is kept.
#[derive(Debug, Clone, Copy)]
pub struct GrantPatch {
    pub network: Option<bool>,
    pub audio: Option<bool>,
    pub pointer: Option<bool>,
}

impl Default for GrantPatch {
    fn default() -> (patch: Self)
        ensures
            patch == (GrantPatch { network: None, audio: None, pointer: None }),
    {
        GrantPatch { network: None, audio: None, pointer: None }
    }
}

/// What a patch leaves of one permission.
pub open spec fn patched_flag(patch: Option<bool>, current: bool) -> bool {
    match patch {
        Some(value) => value,
        None => current,
    }
}

impl GrantPatch {
    pub open spec fn patched(self, current: Grant) -> Grant {
        Grant {
            network: patched_flag(self.network, current.network),
            audio: patched_flag(self.audio, current.audio),
            pointer: patched_flag(self.pointer, current.pointer),
        }
    }

    /// The record after the change.
    pub fn apply(self, current: Grant) -> (next: Grant)
        ensures
            next == self.patched(current),
    {
        Grant {
            network: self.network.unwrap_or(current.network),
            audio: self.audio.unwrap_or(current.audio),
            pointer: self.pointer.unwrap_or(current.pointer),
        }
    }
}

/// The content of the grants file.
pub struct PersistedGrants {
    pub schema_version: u32,
    pub grants: NameMap<Grant>,
}

/// A content that may be taken up.
pub open spec fn valid_content(state: PersistedGrants) -> bool {
    state.schema_version == 1 && state.grants@.len() <= MAX_GRANTS && forall|id: Seq<char>|
        #[trigger] state.grants@.contains_key(id) ==> identity::valid_identity(id)
}

/// The records that a grants file yields, and why it is quarantined if it is.
pub open spec fn taken_up(file: StateFile<PersistedGrants>) -> (
    Map<Seq<char>, Grant>,
    Option<Seq<char>>,
) {
    match persist::file_yields(file, MAX_GRANT_BYTES) {
        Ok(None) => (Map::empty(), None),
        Ok(Some(state)) => if valid_content(state) {
            (state.grants@, None)
        } else {
            (Map::empty(), Some("unsupported schema, unknown field, or invalid wallpaper id"@))
        },
        Err(reason) => (Map::empty(), Some(reason)),
    }
}

/// The effective record of a wallpaper.
pub open spec fn effective(records: Map<Seq<char>, Grant>, id: Seq<char>) -> Grant {
    if records.contains_key(id) {
        records[id]
    } else {
        Grant::default_policy()
    }
}

/// `bytes` encode these records and fit the file.
pub open spec fn encoding_of<E: FnOnce(&NameMap<Grant>) -> Result<Vec<u8>, String>>(
    records: Map<Seq<char>, Grant>,
    encode: E,
    bytes: Vec<u8>,
) -> bool {
    &&& bytes@.len() <= MAX_GRANT_BYTES
    &&& exists|state: NameMap<Grant>|
        #![trigger state.wf()]
        state.wf() && state@ == records && call_ensures(encode, (&state,), Ok(bytes))
}

/// A record that is put under `id`.
pub open spec fn accepts(records: Map<Seq<char>, Grant>, id: Seq<char>) -> bool {
    identity::valid_identity(id) && has_room(records, id)
}

/// There is room for a record under `id`.
pub open spec fn has_room(records: Map<Seq<char>, Grant>, id: Seq<char>) -> bool {
    records.contains_key(id) || records.len() < MAX_GRANTS
}

/// `saved` is what saving these records can come to.
pub open spec fn attempted_save<
    E: FnOnce(&NameMap<Grant>) -> Result<Vec<u8>, String>,
    W: FnOnce(&Vec<u8>) -> Result<(), String>,
>(records: Map<Seq<char>, Grant>, encode: E, write: W, saved: Result<(), String>) -> bool {
    exists|state: NameMap<Grant>|
        #![trigger state.wf()]
        state.wf() && state@ == records && persist::save_outcome(
            &state,
            "permissions"@,
            MAX_GRANT_BYTES,
            encode,
            write,
            saved,
        )
}

/// The grants in force.
pub struct GrantStore {
    grants: NameMap<Grant>,
}

impl View for GrantStore {
    type V = Map<Seq<char>, Grant>;

    closed spec fn view(&self) -> Map<Seq<char>, Grant> {
        self.grants@
    }
}

impl GrantStore {
    /// At most `MAX_GRANTS` records, each under an identity part.
    pub closed spec fn wf(&self) -> bool {
        &&& self.grants.wf()
        &&& self.grants@.dom().finite()
        &&& self.grants@.len() <= MAX_GRANTS
        &&& forall|id: Seq<char>| #[trigger]
            self.grants@.contains_key(id) ==> identity::valid_identity(id)
    }

    /// What `wf` promises to a reader of the store.
    pub proof fn law_store_is_bounded(&self)
        requires
            self.wf(),
        ensures
            self@.dom().finite(),
            self@.len() <= MAX_GRANTS,
            forall|id: Seq<char>| #[trigger]
                self@.contains_key(id) ==> identity::valid_identity(id),
    {
    }

    /// What was saved of a store is what the next start takes up, whole, and
    /// the file is not quarantined.
    pub proof fn law_saved_store_is_taken_up(&self, saved: PersistedGrants, size: u64)
        requires
            self.wf(),
            saved.schema_version == 1,
            saved.grants@ == self@,
            size <= MAX_GRANT_BYTES,
        ensures
            taken_up(
                StateFile::Opened {
                    is_file: true,
                    size,
                    content: Some(persist::StateContent::Parsed(saved)),
                },
            ) == (self@, None::<Seq<char>>),
    {
    }

    /// Opens the store over what its directory and its file came to. A file
    /// that cannot be taken up comes back as the reason to quarantine it, and
    /// the store starts empty.
    pub fn open(
        directory: Result<(), String>,
        file: StateFile<PersistedGrants>,
    ) -> (opened: Result<(GrantStore, Option<String>), String>)
        requires
            file.read_as_bounded(MAX_GRANT_BYTES),
            persist::file_yields(file, MAX_GRANT_BYTES) matches Ok(Some(state))
                ==> state.grants.wf(),
        ensures
            match opened {
                Ok((store, quarantine)) => directory is Ok && store.wf() && store@ == taken_up(
                    file,
                ).0 && crate::probe::option_view(quarantine) == taken_up(file).1,
                Err(error) => directory == Err::<(), String>(error),
            },
    {
        match directory {
            Ok(()) => {},
            Err(error) => { return Err(error) },
        }
        Ok(Self::load(file))
    }

    /// Takes up the content of the grants file.
    pub fn load(file: StateFile<PersistedGrants>) -> (loaded: (GrantStore, Option<String>))
        requires
            file.read_as_bounded(MAX_GRANT_BYTES),
            persist::file_yields(file, MAX_GRANT_BYTES) matches Ok(Some(state))
                ==> state.grants.wf(),
        ensures
            loaded.0.wf(),
            loaded.0@ == taken_up(file).0,
            crate::probe::option_view(loaded.1) == taken_up(file).1,
    {
        match read_state_file(file, MAX_GRANT_BYTES) {
            Ok(Some(state)) => {
                let valid: bool = state.schema_version == 1 && state.grants.len() <= MAX_GRANTS
                    && ids_are_identities(&state.grants);
                if valid {
                    (GrantStore { grants: state.grants }, None)
                } else {
                    (
                        Self::empty(),
                        Some("unsupported schema, unknown field, or invalid wallpaper id".to_owned()),
                    )
                }
            },
            Ok(None) => (Self::empty(), None),
            Err(reason) => (Self::empty(), Some(reason)),
        }
    }

    fn empty() -> (store: Self)
        ensures
            store.wf(),
            store@ == Map::<Seq<char>, Grant>::empty(),
    {
        let store = GrantStore { grants: NameMap::new() };
        proof {
            store.grants.lemma_names();
        }
        store
    }

    /// The effective record of a wallpaper.
    pub fn grant(&self, wallpaper_id: &str) -> (grant: Grant)
        requires
            self.wf(),
        ensures
            grant == effective(self@, wallpaper_id@),
    {
        match self.grants.get(wallpaper_id) {
            Some(record) => *record,
            None => Grant::defaults(),
        }
    }

    /// Every stored record.
    pub fn all(&self) -> (records: &NameMap<Grant>)
        requires
            self.wf(),
        ensures
            records.wf(),
            records@ == self@,
    {
        &self.grants
    }

    /// Patches the record of a wallpaper and saves the store; without a
    /// successful save nothing changes.
    pub fn set<
        E: FnOnce(&NameMap<Grant>) -> Result<Vec<u8>, String>,
        W: FnOnce(&Vec<u8>) -> Result<(), String>,
    >(&mut self, wallpaper_id: &str, patch: GrantPatch, encode: E, write: W) -> (result: Result<
        Grant,
        String,
    >)
        requires
            old(self).wf(),
            // Only a record that is accepted is encoded, and only the store
            // with it is written.
            forall|state: &NameMap<Grant>|
                accepts(old(self)@, wallpaper_id@) && state.wf() && state@ == old(self)@.insert(
                    wallpaper_id@,
                    patch.patched(effective(old(self)@, wallpaper_id@)),
                ) ==> #[trigger] call_requires(encode, (state,)),
            forall|bytes: &Vec<u8>|
                accepts(old(self)@, wallpaper_id@) && encoding_of(
                    old(self)@.insert(
                        wallpaper_id@,
                        patch.patched(effective(old(self)@, wallpaper_id@)),
                    ),
                    encode,
                    *bytes,
                ) ==> #[trigger] call_requires(write, (bytes,)),
        ensures
            final(self).wf(),
            ({
                let next = patch.patched(effective(old(self)@, wallpaper_id@));
                match result {
                    Ok(granted) => {
                        &&& identity::valid_identity(wallpaper_id@)
                        &&& has_room(old(self)@, wallpaper_id@)
                        &&& granted == next
                        &&& final(self)@ == old(self)@.insert(wallpaper_id@, next)
                        &&& attempted_save(final(self)@, encode, write, Ok(()))
                    },
                    Err(error) => {
                        &&& final(self)@ == old(self)@
                        &&& if !identity::valid_identity(wallpaper_id@) {
                            error@ == identity::identity_error("wallpaper_id"@)
                        } else if !has_room(old(self)@, wallpaper_id@) {
                            error@ == "permission grant count exceeds the 256 safety limit"@
                        } else {
                            attempted_save(
                                old(self)@.insert(wallpaper_id@, next),
                                encode,
                                write,
                                Err(error),
                            )
                        }
                    },
                }
            }),
    {
        match validate_identity_part("wallpaper_id", wallpaper_id) {
            Ok(()) => {},
            Err(error) => { return Err(error) },
        }
        let current: Grant = self.grant(wallpaper_id);
        let next: Grant = patch.apply(current);
        if !self.grants.contains(wallpaper_id) && self.grants.len() >= MAX_GRANTS {
            return Err("permission grant count exceeds the 256 safety limit".to_owned());
        }
        let ghost before = self.grants@;
        let replaced: Option<Grant> = self.grants.insert(wallpaper_id, next);
        let ghost staged = self.grants;
        let saved = save_bounded(&self.grants, "permissions", MAX_GRANT_BYTES, encode, write);
        assert(staged.wf() && persist::save_outcome(
            &staged,
            "permissions"@,
            MAX_GRANT_BYTES,
            encode,
            write,
            saved,
        ));
        assert(attempted_save(staged@, encode, write, saved));
        match saved {
            Ok(()) => {
                assert(saved->Ok_0 == ());
                assert(saved == Ok::<(), String>(()));
                Ok(next)
            },
            Err(error) => {
                match replaced {
                    Some(record) => {
                        let _ = self.grants.insert(wallpaper_id, record);
                    },
                    None => {
                        let _ = self.grants.remove(wallpaper_id);
                    },
                }
                assert(self.grants@ =~= before);
                Err(error)
            },
        }
    }
}

/// Whether every record stands under an identity part.
fn ids_are_identities(records: &NameMap<Grant>) -> (valid: bool)
    requires
        records.wf(),
    ensures
        valid == (forall|id: Seq<char>| #[trigger]
            records@.contains_key(id) ==> identity::valid_identity(id)),
{
    proof {
        records.lemma_names();
    }
    let count: usize = records.len();
    let mut i: usize = 0;
    while i < count
        invariant
            records.wf(),
            count == records.names().len(),
            i <= count,
            forall|j: int| 0 <= j < i ==> identity::valid_identity(#[trigger] records.names()[j]),
        decreases count - i,
    {
        let name = records.name_at(i);
        if !is_identity(name.as_str()) {
            assert(records@.contains_key(name@));
            return false;
        }
        i = i + 1;
    }
    proof {
        records.lemma_names();
        assert forall|id: Seq<char>| #[trigger] records@.contains_key(
            id,
        ) implies identity::valid_identity(id) by {
            let k = choose|k: int| 0 <= k < records.names().len() && records.names()[k] == id;
            assert(identity::valid_identity(records.names()[k]));
        }
    }
    true
}

/// A stored patch is what the wallpaper is then granted: the fields that the
/// patch names have its values, the others keep theirs, and no other wallpaper
/// notices.
pub proof fn law_patch_then_grant(
    before: Map<Seq<char>, Grant>,
    id: Seq<char>,
    patch: GrantPatch,
    other: Seq<char>,
)
    ensures
        ({
            let next = patch.patched(effective(before, id));
            let after = before.insert(id, next);
            &&& effective(after, id) == next
            &&& patch.network matches Some(value) ==> next.network == value
            &&& patch.audio matches Some(value) ==> next.audio == value
            &&& patch.pointer matches Some(value) ==> next.pointer == value
            &&& patch.network is None ==> next.network == effective(before, id).network
            &&& patch.audio is None ==> next.audio == effective(before, id).audio
            &&& patch.pointer is None ==> next.pointer == effective(before, id).pointer
            &&& other != id ==> effective(after, other) == effective(before, other)
        }),
{
}

/// A patch at the bound is still accepted for a wallpaper that has a record.
pub proof fn law_patching_needs_no_room(records: Map<Seq<char>, Grant>, id: Seq<char>)
    requires
        records.contains_key(id),
    ensures
        has_room(records, id),
{
}

} // verus!
