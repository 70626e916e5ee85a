//! Which wallpaper is on which output, and what was there before.

use vstd::prelude::*;

use crate::identity;
use crate::identity::validate_identity_part;
use crate::model::{RendererKind, ScalingMode};
use crate::names::NameMap;
use crate::persist;
use crate::persist::{read_state_file, save_bounded, StateFile};
use crate::probe;
use crate::text;
use crate::text::byte_len;

verus! {

/// The most outputs that carry an assignment.
pub const MAX_ASSIGNED_OUTPUTS: usize = 16;

/// The largest assignments file, in bytes.
pub const MAX_ASSIGNMENT_BYTES: u64 = 1048576;

/// The longest content path of an assignment, in bytes.
pub const MAX_CONTENT_BYTES: usize = 4096;

/// The longest image of an assignment, in bytes.
pub const MAX_IMAGE_BYTES: usize = 4096;

// ---------------------------------------------------------------------------
// Records
// ---------------------------------------------------------------------------

/// The wallpaper that was live on an output before an apply.
#[derive(Debug, PartialEq, Eq)]
pub struct PreviousWallpaper {
    pub wallpaper_plugin: String,
    pub config_group: Vec<String>,
    pub image: Option<String>,
}

/// The same, apart from its representation.
#[verifier::ext_equal]
pub struct PreviousView {
    pub wallpaper_plugin: Seq<char>,
    pub config_group: Seq<Seq<char>>,
    pub image: Option<Seq<char>>,
}

impl View for PreviousWallpaper {
    type V = PreviousView;

    open spec fn view(&self) -> PreviousView {
        PreviousView {
            wallpaper_plugin: self.wallpaper_plugin@,
            config_group: text::views(self.config_group@),
            image: probe::option_view(self.image),
        }
    }
}

/// Copies a list of strings.
pub fn copy_strings(strings: &Vec<String>) -> (copy: Vec<String>)
    ensures
        copy@ == strings@,
        text::views(copy@) == text::views(strings@),
{
    let mut copy: Vec<String> = Vec::new();
    let mut i: usize = 0;
    while i < strings.len()
        invariant
            i <= strings@.len(),
            copy@ == strings@.take(i as int),
        decreases strings.len() - i,
    {
        copy.push(strings[i].clone());
        assert(strings@.take(i + 1) =~= strings@.take(i as int).push(strings@[i as int]));
        i = i + 1;
    }
    assert(strings@.take(strings@.len() as int) =~= strings@);
    copy
}

impl Clone for PreviousWallpaper {
    fn clone(&self) -> (copy: Self)
        ensures
            copy@ == self@,
    {
        PreviousWallpaper {
            wallpaper_plugin: self.wallpaper_plugin.clone(),
            config_group: copy_strings(&self.config_group),
            image: self.image.clone(),
        }
    }
}

/// One applied wallpaper on one output.
#[derive(Debug, PartialEq, Eq)]
pub struct Assignment {
    pub wallpaper_id: String,
    pub kind: RendererKind,
    pub content: String,
    pub width: u32,
    pub height: u32,
    pub fps: u32,
    pub scaling: ScalingMode,
    pub applied_at_unix_seconds: u64,
    pub previous: Option<PreviousWallpaper>,
}

/// The same, apart from its representation.
#[verifier::ext_equal]
pub struct AssignmentView {
    pub wallpaper_id: Seq<char>,
    pub kind: RendererKind,
    pub content: Seq<char>,
    pub width: u32,
    pub height: u32,
    pub fps: u32,
    pub scaling: ScalingMode,
    pub applied_at_unix_seconds: u64,
    pub previous: Option<PreviousView>,
}

pub open spec fn previous_view(previous: Option<PreviousWallpaper>) -> Option<PreviousView> {
    match previous {
        Some(saved) => Some(saved@),
        None => None,
    }
}

impl View for Assignment {
    type V = AssignmentView;

    open spec fn view(&self) -> AssignmentView {
        AssignmentView {
            wallpaper_id: self.wallpaper_id@,
            kind: self.kind,
            content: self.content@,
            width: self.width,
            height: self.height,
            fps: self.fps,
            scaling: self.scaling,
            applied_at_unix_seconds: self.applied_at_unix_seconds,
            previous: previous_view(self.previous),
        }
    }
}

impl Clone for Assignment {
    fn clone(&self) -> (copy: Self)
        ensures
            copy@ == self@,
    {
        Assignment {
            wallpaper_id: self.wallpaper_id.clone(),
            kind: self.kind,
            content: self.content.clone(),
            width: self.width,
            height: self.height,
            fps: self.fps,
            scaling: self.scaling,
            applied_at_unix_seconds: self.applied_at_unix_seconds,
            previous: match &self.previous {
                Some(saved) => Some(saved.clone()),
                None => None,
            },
        }
    }
}

// ---------------------------------------------------------------------------
// Validity
// ---------------------------------------------------------------------------

/// A path that is there and fits its bound.
pub open spec fn bounded_path(path: Seq<char>, max: usize) -> bool {
    path.len() > 0 && text::byte_count(path) <= max
}

/// Why a saved wallpaper is refused.
pub open spec fn previous_refusal(previous: PreviousView) -> Option<Seq<char>> {
    if !identity::valid_identity(previous.wallpaper_plugin) {
        Some(identity::identity_error("wallpaper_plugin"@))
    } else if previous.config_group.len() == 0 || previous.config_group.len() > 4 {
        Some("assignment config_group must be a bounded config group"@)
    } else if exists|i: int|
        0 <= i < previous.config_group.len() && !identity::valid_identity(
            #[trigger] previous.config_group[i],
        ) {
        Some(identity::identity_error("config_group"@))
    } else if previous.image matches Some(image) && !bounded_path(image, MAX_IMAGE_BYTES) {
        Some("assignment image must be a bounded image path"@)
    } else {
        None
    }
}

/// Why an assignment under an output name is refused.
pub open spec fn assignment_refusal(
    output: Seq<char>,
    assignment: AssignmentView,
) -> Option<Seq<char>> {
    if !identity::valid_identity(output) {
        Some(identity::identity_error("output"@))
    } else if !identity::valid_identity(assignment.wallpaper_id) {
        Some(identity::identity_error("wallpaper_id"@))
    } else if assignment.kind == RendererKind::Test {
        Some("assignment kind must be video, web, or scene"@)
    } else if !bounded_path(assignment.content, MAX_CONTENT_BYTES) {
        Some("assignment content must be a bounded content path"@)
    } else if !(1 <= assignment.width <= 8192 && 1 <= assignment.height <= 8192) {
        Some("assignment dimensions must be in 1..=8192"@)
    } else if !(1 <= assignment.fps <= 240) {
        Some("assignment fps must be in 1..=240"@)
    } else {
        match assignment.previous {
            Some(previous) => previous_refusal(previous),
            None => None,
        }
    }
}

fn validate_previous(previous: &PreviousWallpaper) -> (checked: Result<(), String>)
    ensures
        match checked {
            Ok(()) => previous_refusal(previous@) is None,
            Err(error) => previous_refusal(previous@) == Some(error@),
        },
{
    match validate_identity_part("wallpaper_plugin", previous.wallpaper_plugin.as_str()) {
        Ok(()) => {},
        Err(error) => { return Err(error) },
    }
    let ghost group = previous@.config_group;
    if previous.config_group.len() == 0 || previous.config_group.len() > 4 {
        return Err("assignment config_group must be a bounded config group".to_owned());
    }
    let mut i: usize = 0;
    while i < previous.config_group.len()
        invariant
            i <= previous.config_group@.len() <= 4,
            group == previous@.config_group,
            group == text::views(previous.config_group@),
            group.len() > 0,
            identity::valid_identity(previous@.wallpaper_plugin),
            forall|j: int| 0 <= j < i ==> identity::valid_identity(#[trigger] group[j]),
        decreases previous.config_group.len() - i,
    {
        assert(group[i as int] == previous.config_group@[i as int]@);
        match validate_identity_part("config_group", previous.config_group[i].as_str()) {
            Ok(()) => {},
            Err(error) => { return Err(error) },
        }
        i = i + 1;
    }
    match &previous.image {
        Some(image) => {
            if image.as_str().is_empty() || byte_len(image.as_str()) > MAX_IMAGE_BYTES {
                return Err("assignment image must be a bounded image path".to_owned());
            }
        },
        None => {},
    }
    Ok(())
}

/// Accepts a valid assignment for a valid output name.
pub fn validate_assignment(output_name: &str, assignment: &Assignment) -> (checked: Result<
    (),
    String,
>)
    ensures
        match checked {
            Ok(()) => assignment_refusal(output_name@, assignment@) is None,
            Err(error) => assignment_refusal(output_name@, assignment@) == Some(error@),
        },
{
    match validate_identity_part("output", output_name) {
        Ok(()) => {},
        Err(error) => { return Err(error) },
    }
    match validate_identity_part("wallpaper_id", assignment.wallpaper_id.as_str()) {
        Ok(()) => {},
        Err(error) => { return Err(error) },
    }
    if assignment.kind == RendererKind::Test {
        return Err("assignment kind must be video, web, or scene".to_owned());
    }
    if assignment.content.as_str().is_empty() || byte_len(assignment.content.as_str())
        > MAX_CONTENT_BYTES {
        return Err("assignment content must be a bounded content path".to_owned());
    }
    if assignment.width == 0 || assignment.width > 8192 || assignment.height == 0
        || assignment.height > 8192 {
        return Err("assignment dimensions must be in 1..=8192".to_owned());
    }
    if assignment.fps < 1 || assignment.fps > 240 {
        return Err("assignment fps must be in 1..=240".to_owned());
    }
    match &assignment.previous {
        Some(previous) => validate_previous(previous),
        None => Ok(()),
    }
}

// ---------------------------------------------------------------------------
// The store
// ---------------------------------------------------------------------------

/// The content of the assignments file.
pub struct PersistedAssignments {
    pub schema_version: u32,
    pub outputs: NameMap<Assignment>,
}

/// Every record is valid under its output.
pub open spec fn valid_records(records: Map<Seq<char>, Assignment>) -> bool {
    forall|output: Seq<char>| #[trigger]
        records.contains_key(output) ==> assignment_refusal(output, records[output]@) is None
}

/// A content that may be taken up.
pub open spec fn valid_content(state: PersistedAssignments) -> bool {
    state.schema_version == 1 && state.outputs@.len() <= MAX_ASSIGNED_OUTPUTS && valid_records(
        state.outputs@,
    )
}

/// The records that an assignments file yields, and why it is quarantined if it
/// is.
pub open spec fn taken_up(file: StateFile<PersistedAssignments>) -> (
    Map<Seq<char>, Assignment>,
    Option<Seq<char>>,
) {
    match persist::file_yields(file, MAX_ASSIGNMENT_BYTES) {
        Ok(None) => (Map::empty(), None),
        Ok(Some(state)) => if valid_content(state) {
            (state.outputs@, None)
        } else {
            (Map::empty(), Some("unsupported schema, unknown field, or invalid assignment"@))
        },
        Err(reason) => (Map::empty(), Some(reason)),
    }
}

/// `saved` is what saving these records can come to.
pub open spec fn attempted_save<
    E: FnOnce(&NameMap<Assignment>) -> Result<Vec<u8>, String>,
    W: FnOnce(&Vec<u8>) -> Result<(), String>,
>(records: Map<Seq<char>, Assignment>, encode: E, write: W, saved: Result<(), String>) -> bool {
    exists|state: NameMap<Assignment>|
        #![trigger state.wf()]
        state.wf() && state@ == records && persist::save_outcome(
            &state,
            "assignments"@,
            MAX_ASSIGNMENT_BYTES,
            encode,
            write,
            saved,
        )
}

/// `bytes` encode these records and fit the file.
pub open spec fn encoding_of<E: FnOnce(&NameMap<Assignment>) -> Result<Vec<u8>, String>>(
    records: Map<Seq<char>, Assignment>,
    encode: E,
    bytes: Vec<u8>,
) -> bool {
    &&& bytes@.len() <= MAX_ASSIGNMENT_BYTES
    &&& exists|state: NameMap<Assignment>|
        #![trigger state.wf()]
        state.wf() && state@ == records && call_ensures(encode, (&state,), Ok(bytes))
}

/// There is room for a record under `output`.
pub open spec fn has_room(records: Map<Seq<char>, Assignment>, output: Seq<char>) -> bool {
    records.contains_key(output) || records.len() < MAX_ASSIGNED_OUTPUTS
}

/// A record that is put under `output`.
pub open spec fn accepts(
    records: Map<Seq<char>, Assignment>,
    output: Seq<char>,
    assignment: AssignmentView,
) -> bool {
    assignment_refusal(output, assignment) is None && has_room(records, output)
}

/// The assignments in force.
pub struct AssignmentStore {
    outputs: NameMap<Assignment>,
}

impl View for AssignmentStore {
    type V = Map<Seq<char>, Assignment>;

    closed spec fn view(&self) -> Map<Seq<char>, Assignment> {
        self.outputs@
    }
}

impl AssignmentStore {
    /// At most `MAX_ASSIGNED_OUTPUTS` records, all valid.
    pub closed spec fn wf(&self) -> bool {
        &&& self.outputs.wf()
        &&& self.outputs@.dom().finite()
        &&& self.outputs@.len() <= MAX_ASSIGNED_OUTPUTS
        &&& valid_records(self.outputs@)
    }

    /// What `wf` promises to a reader of the store.
    pub proof fn law_store_is_bounded_and_valid(&self)
        requires
            self.wf(),
        ensures
            self@.dom().finite(),
            self@.len() <= MAX_ASSIGNED_OUTPUTS,
            valid_records(self@),
    {
    }

    /// What was saved of a store is what the next start takes up, whole, and
    /// the file is not quarantined.
    pub proof fn law_saved_store_is_taken_up(&self, saved: PersistedAssignments, size: u64)
        requires
            self.wf(),
            saved.schema_version == 1,
            saved.outputs@ == self@,
            size <= MAX_ASSIGNMENT_BYTES,
        ensures
            taken_up(
                StateFile::Opened {
                    is_file: true,
                    size,
                    content: Some(persist::StateContent::Parsed(saved)),
                },
            ) == (self@, None::<Seq<char>>),
    {
    }

    /// Opens the store over what its directory and its file came to. A file
    /// that cannot be taken up comes back as the reason to quarantine it, and
    /// the store starts empty.
    pub fn open(
        directory: Result<(), String>,
        file: StateFile<PersistedAssignments>,
    ) -> (opened: Result<(AssignmentStore, Option<String>), String>)
        requires
            file.read_as_bounded(MAX_ASSIGNMENT_BYTES),
            persist::file_yields(file, MAX_ASSIGNMENT_BYTES) matches Ok(Some(state))
                ==> state.outputs.wf(),
        ensures
            match opened {
                Ok((store, quarantine)) => directory is Ok && store.wf() && store@ == taken_up(
                    file,
                ).0 && probe::option_view(quarantine) == taken_up(file).1,
                Err(error) => directory == Err::<(), String>(error),
            },
    {
        match directory {
            Ok(()) => {},
            Err(error) => { return Err(error) },
        }
        Ok(Self::load(file))
    }

    /// Takes up the content of the assignments file.
    pub fn load(file: StateFile<PersistedAssignments>) -> (loaded: (
        AssignmentStore,
        Option<String>,
    ))
        requires
            file.read_as_bounded(MAX_ASSIGNMENT_BYTES),
            persist::file_yields(file, MAX_ASSIGNMENT_BYTES) matches Ok(Some(state))
                ==> state.outputs.wf(),
        ensures
            loaded.0.wf(),
            loaded.0@ == taken_up(file).0,
            probe::option_view(loaded.1) == taken_up(file).1,
    {
        match read_state_file(file, MAX_ASSIGNMENT_BYTES) {
            Ok(Some(state)) => {
                let valid: bool = state.schema_version == 1 && state.outputs.len()
                    <= MAX_ASSIGNED_OUTPUTS && records_are_valid(&state.outputs);
                if valid {
                    (AssignmentStore { outputs: state.outputs }, None)
                } else {
                    (
                        Self::empty(),
                        Some("unsupported schema, unknown field, or invalid assignment".to_owned()),
                    )
                }
            },
            Ok(None) => (Self::empty(), None),
            Err(reason) => (Self::empty(), Some(reason)),
        }
    }

    fn empty() -> (store: Self)
        ensures
            store.wf(),
            store@ == Map::<Seq<char>, Assignment>::empty(),
    {
        let store = AssignmentStore { outputs: NameMap::new() };
        proof {
            store.outputs.lemma_names();
        }
        store
    }

    /// The assignment of an output.
    pub fn get(&self, output: &str) -> (found: Option<&Assignment>)
        requires
            self.wf(),
        ensures
            match found {
                Some(assignment) => self@.contains_key(output@) && *assignment == self@[output@],
                None => !self@.contains_key(output@),
            },
    {
        self.outputs.get(output)
    }

    /// Every assignment.
    pub fn all(&self) -> (records: &NameMap<Assignment>)
        requires
            self.wf(),
        ensures
            records.wf(),
            records@ == self@,
    {
        &self.outputs
    }

    /// Puts an assignment on an output and saves the store; without a
    /// successful save nothing changes.
    pub fn set<
        E: FnOnce(&NameMap<Assignment>) -> Result<Vec<u8>, String>,
        W: FnOnce(&Vec<u8>) -> Result<(), String>,
    >(&mut self, output: &str, assignment: Assignment, encode: E, write: W) -> (result: Result<
        (),
        String,
    >)
        requires
            old(self).wf(),
            // Only a record that is accepted is encoded, and only the store
            // with it is written.
            forall|state: &NameMap<Assignment>|
                accepts(old(self)@, output@, assignment@) && state.wf() && state@
                    == old(self)@.insert(output@, assignment) ==> #[trigger] call_requires(
                    encode,
                    (state,),
                ),
            forall|bytes: &Vec<u8>|
                accepts(old(self)@, output@, assignment@) && encoding_of(
                    old(self)@.insert(output@, assignment),
                    encode,
                    *bytes,
                ) ==> #[trigger] call_requires(write, (bytes,)),
        ensures
            final(self).wf(),
            match result {
                Ok(()) => {
                    &&& assignment_refusal(output@, assignment@) is None
                    &&& has_room(old(self)@, output@)
                    &&& final(self)@ == old(self)@.insert(output@, assignment)
                    &&& attempted_save(final(self)@, encode, write, Ok(()))
                },
                Err(error) => {
                    &&& final(self)@ == old(self)@
                    &&& if assignment_refusal(output@, assignment@) is Some {
                        assignment_refusal(output@, assignment@) == Some(error@)
                    } else if !has_room(old(self)@, output@) {
                        error@ == "assignment count exceeds the 16 output safety limit"@
                    } else {
                        attempted_save(
                            old(self)@.insert(output@, assignment),
                            encode,
                            write,
                            Err(error),
                        )
                    }
                },
            },
    {
        match validate_assignment(output, &assignment) {
            Ok(()) => {},
            Err(error) => { return Err(error) },
        }
        if !self.outputs.contains(output) && self.outputs.len() >= MAX_ASSIGNED_OUTPUTS {
            return Err("assignment count exceeds the 16 output safety limit".to_owned());
        }
        let ghost before = self.outputs@;
        let replaced: Option<Assignment> = self.outputs.insert(output, assignment);
        let ghost staged = self.outputs;
        let saved = save_bounded(
            &self.outputs,
            "assignments",
            MAX_ASSIGNMENT_BYTES,
            encode,
            write,
        );
        assert(staged.wf() && persist::save_outcome(
            &staged,
            "assignments"@,
            MAX_ASSIGNMENT_BYTES,
            encode,
            write,
            saved,
        ));
        assert(attempted_save(staged@, encode, write, saved));
        match saved {
            Ok(()) => {
                assert(saved->Ok_0 == ());
                assert(saved == Ok::<(), String>(()));
                Ok(())
            },
            Err(error) => {
                match replaced {
                    Some(record) => {
                        let _ = self.outputs.insert(output, record);
                    },
                    None => {
                        let _ = self.outputs.remove(output);
                    },
                }
                assert(self.outputs@ =~= before);
                Err(error)
            },
        }
    }

    /// Takes the assignment of an output away and saves the store; without a
    /// successful save nothing changes. Says whether there was one.
    pub fn remove<
        E: FnOnce(&NameMap<Assignment>) -> Result<Vec<u8>, String>,
        W: FnOnce(&Vec<u8>) -> Result<(), String>,
    >(&mut self, output: &str, encode: E, write: W) -> (result: Result<bool, String>)
        requires
            old(self).wf(),
            // Without a record under `output` nothing is encoded or written.
            forall|state: &NameMap<Assignment>|
                old(self)@.contains_key(output@) && state.wf() && state@ == old(self)@.remove(
                    output@,
                ) ==> #[trigger] call_requires(encode, (state,)),
            forall|bytes: &Vec<u8>|
                old(self)@.contains_key(output@) && encoding_of(
                    old(self)@.remove(output@),
                    encode,
                    *bytes,
                ) ==> #[trigger] call_requires(write, (bytes,)),
        ensures
            final(self).wf(),
            match result {
                Ok(existed) => {
                    &&& existed == old(self)@.contains_key(output@)
                    &&& final(self)@ == old(self)@.remove(output@)
                    &&& existed ==> attempted_save(final(self)@, encode, write, Ok(()))
                },
                Err(error) => {
                    &&& final(self)@ == old(self)@
                    &&& old(self)@.contains_key(output@)
                    &&& attempted_save(old(self)@.remove(output@), encode, write, Err(error))
                },
            },
    {
        let ghost before = self.outputs@;
        let removed: Assignment = match self.outputs.remove(output) {
            Some(record) => record,
            None => {
                assert(before.remove(output@) =~= before);
                return Ok(false)
            },
        };
        let ghost staged = self.outputs;
        let saved = save_bounded(
            &self.outputs,
            "assignments",
            MAX_ASSIGNMENT_BYTES,
            encode,
            write,
        );
        assert(staged.wf() && persist::save_outcome(
            &staged,
            "assignments"@,
            MAX_ASSIGNMENT_BYTES,
            encode,
            write,
            saved,
        ));
        assert(attempted_save(staged@, encode, write, saved));
        match saved {
            Ok(()) => {
                assert(saved->Ok_0 == ());
                assert(saved == Ok::<(), String>(()));
                Ok(true)
            },
            Err(error) => {
                let _ = self.outputs.insert(output, removed);
                assert(self.outputs@ =~= before);
                Err(error)
            },
        }
    }
}

/// Whether every record is valid under its output.
fn records_are_valid(records: &NameMap<Assignment>) -> (valid: bool)
    requires
        records.wf(),
    ensures
        valid == valid_records(records@),
{
    proof {
        records.lemma_names();
    }
    let count: usize = records.len();
    let mut i: usize = 0;
    while i < count
        invariant
            records.wf(),
            count == records.names().len(),
            i <= count,
            forall|j: int|
                0 <= j < i ==> assignment_refusal(
                    #[trigger] records.names()[j],
                    records@[records.names()[j]]@,
                ) is None,
        decreases count - i,
    {
        let name = records.name_at(i);
        if validate_assignment(name.as_str(), records.value_at(i)).is_err() {
            assert(records@.contains_key(name@));
            return false;
        }
        i = i + 1;
    }
    proof {
        records.lemma_names();
        assert forall|output: Seq<char>| #[trigger] records@.contains_key(
            output,
        ) implies assignment_refusal(output, records@[output]@) is None by {
            let k = choose|k: int| 0 <= k < records.names().len() && records.names()[k] == output;
            assert(assignment_refusal(records.names()[k], records@[records.names()[k]]@) is None);
        }
    }
    true
}

} // verus!
