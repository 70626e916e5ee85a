use std::cell::RefCell;

use serde_json::Value;

use kwe_daemon::assignments::{
    validate_assignment, Assignment, AssignmentStore, PersistedAssignments, PreviousWallpaper,
    MAX_ASSIGNED_OUTPUTS, MAX_ASSIGNMENT_BYTES, MAX_CONTENT_BYTES,
};
use kwe_daemon::grants::{
    Grant, GrantPatch, GrantStore, PersistedGrants, MAX_GRANTS, MAX_GRANT_BYTES,
};
use kwe_daemon::model::{RendererKind, ScalingMode};
use kwe_daemon::names::{is_before, NameMap};
use kwe_daemon::persist::{
    bounded_file, prune_siblings, quarantine_name, read_state_file, save_bounded, StateContent,
    StateFile, MAX_INVALID_SIBLINGS,
};

// -- a file in memory -------------------------------------------------------

/// The file of one store: nothing was written, or these bytes.
struct Disk {
    bytes: RefCell<Option<Vec<u8>>>,
}

impl Disk {
    fn empty() -> Disk {
        Disk { bytes: RefCell::new(None) }
    }

    fn holding(text: &str) -> Disk {
        Disk { bytes: RefCell::new(Some(text.as_bytes().to_vec())) }
    }

    fn write(&self, bytes: &Vec<u8>) -> Result<(), String> {
        *self.bytes.borrow_mut() = Some(bytes.clone());
        Ok(())
    }

    fn contents(&self) -> Vec<u8> {
        self.bytes.borrow().clone().unwrap()
    }

    fn read<T>(&self, parse: fn(&Value) -> Result<T, String>) -> StateFile<T> {
        match &*self.bytes.borrow() {
            None => StateFile::Missing,
            Some(bytes) => {
                let content = match serde_json::from_slice::<Value>(bytes) {
                    Err(error) => StateContent::ParseFailed(error.to_string()),
                    Ok(value) => match parse(&value) {
                        Err(error) => StateContent::ParseFailed(error),
                        Ok(parsed) => StateContent::Parsed(parsed),
                    },
                };
                StateFile::Opened {
                    is_file: true,
                    size: bytes.len() as u64,
                    content: Some(content),
                }
            }
        }
    }
}

fn object(fields: Vec<(&str, Value)>) -> Value {
    let mut map = serde_json::Map::new();
    for (name, value) in fields {
        map.insert(name.to_string(), value);
    }
    Value::Object(map)
}

/// The fields of an object that may hold these names and no others.
fn fields<'a>(value: &'a Value, names: &[&str]) -> Result<&'a serde_json::Map<String, Value>, String> {
    let map = value.as_object().ok_or("not an object")?;
    for name in map.keys() {
        if !names.contains(&name.as_str()) {
            return Err(format!("unknown field `{name}`"));
        }
    }
    Ok(map)
}

fn text(map: &serde_json::Map<String, Value>, name: &str) -> Result<String, String> {
    Ok(map.get(name).and_then(Value::as_str).ok_or(name)?.to_string())
}

fn number(map: &serde_json::Map<String, Value>, name: &str) -> Result<u64, String> {
    Ok(map.get(name).and_then(Value::as_u64).ok_or(name)?)
}

fn flag(map: &serde_json::Map<String, Value>, name: &str) -> Result<bool, String> {
    Ok(map.get(name).and_then(Value::as_bool).ok_or(name)?)
}

fn encode_assignments(outputs: &NameMap<Assignment>) -> Result<Vec<u8>, String> {
    let mut records = serde_json::Map::new();
    for index in 0..outputs.len() {
        let record = outputs.value_at(index);
        let previous = match &record.previous {
            None => Value::Null,
            Some(previous) => object(vec![
                ("wallpaper_plugin", Value::from(previous.wallpaper_plugin.clone())),
                ("config_group", Value::from(previous.config_group.clone())),
                ("image", previous.image.clone().map_or(Value::Null, Value::from)),
            ]),
        };
        let scaling = match record.scaling {
            ScalingMode::Aspect => "aspect",
            ScalingMode::Fill => "fill",
            ScalingMode::Stretch => "stretch",
        };
        records.insert(
            outputs.name_at(index).clone(),
            object(vec![
                ("wallpaper_id", Value::from(record.wallpaper_id.clone())),
                ("kind", Value::from(record.kind.as_str())),
                ("content", Value::from(record.content.clone())),
                ("width", Value::from(record.width)),
                ("height", Value::from(record.height)),
                ("fps", Value::from(record.fps)),
                ("scaling", Value::from(scaling)),
                ("applied_at_unix_seconds", Value::from(record.applied_at_unix_seconds)),
                ("previous", previous),
            ]),
        );
    }
    let file = object(vec![
        ("schema_version", Value::from(1)),
        ("outputs", Value::Object(records)),
    ]);
    serde_json::to_vec(&file).map_err(|error| error.to_string())
}

fn parse_previous(value: &Value) -> Result<Option<PreviousWallpaper>, String> {
    if value.is_null() {
        return Ok(None);
    }
    let map = fields(value, &["wallpaper_plugin", "config_group", "image"])?;
    let mut config_group = Vec::new();
    for part in map.get("config_group").and_then(Value::as_array).ok_or("config_group")? {
        config_group.push(part.as_str().ok_or("config_group")?.to_string());
    }
    Ok(Some(PreviousWallpaper {
        wallpaper_plugin: text(map, "wallpaper_plugin")?,
        config_group,
        image: map.get("image").and_then(Value::as_str).map(str::to_string),
    }))
}

fn parse_assignments(value: &Value) -> Result<PersistedAssignments, String> {
    let file = fields(value, &["schema_version", "outputs"])?;
    let mut outputs = NameMap::new();
    for (output, value) in file.get("outputs").and_then(Value::as_object).ok_or("outputs")? {
        let map = fields(
            value,
            &[
                "wallpaper_id",
                "kind",
                "content",
                "width",
                "height",
                "fps",
                "scaling",
                "applied_at_unix_seconds",
                "previous",
            ],
        )?;
        let kind = match text(map, "kind")?.as_str() {
            "test" => RendererKind::Test,
            "video" => RendererKind::Video,
            "web" => RendererKind::Web,
            "scene" => RendererKind::Scene,
            other => return Err(format!("unknown variant `{other}`")),
        };
        let scaling = match map.get("scaling").and_then(Value::as_str) {
            None | Some("aspect") => ScalingMode::Aspect,
            Some("fill") => ScalingMode::Fill,
            Some("stretch") => ScalingMode::Stretch,
            Some(other) => return Err(format!("unknown variant `{other}`")),
        };
        outputs.insert(
            output,
            Assignment {
                wallpaper_id: text(map, "wallpaper_id")?,
                kind,
                content: text(map, "content")?,
                width: number(map, "width")? as u32,
                height: number(map, "height")? as u32,
                fps: number(map, "fps")? as u32,
                scaling,
                applied_at_unix_seconds: number(map, "applied_at_unix_seconds")?,
                previous: parse_previous(map.get("previous").unwrap_or(&Value::Null))?,
            },
        );
    }
    Ok(PersistedAssignments { schema_version: number(file, "schema_version")? as u32, outputs })
}

fn encode_grants(grants: &NameMap<Grant>) -> Result<Vec<u8>, String> {
    let mut records = serde_json::Map::new();
    for index in 0..grants.len() {
        let grant = grants.value_at(index);
        records.insert(
            grants.name_at(index).clone(),
            object(vec![
                ("network", Value::from(grant.network)),
                ("audio", Value::from(grant.audio)),
                ("pointer", Value::from(grant.pointer)),
            ]),
        );
    }
    let file = object(vec![
        ("schema_version", Value::from(1)),
        ("grants", Value::Object(records)),
    ]);
    serde_json::to_vec(&file).map_err(|error| error.to_string())
}

fn parse_grants(value: &Value) -> Result<PersistedGrants, String> {
    let file = fields(value, &["schema_version", "grants"])?;
    let mut grants = NameMap::new();
    for (id, value) in file.get("grants").and_then(Value::as_object).ok_or("grants")? {
        let map = fields(value, &["network", "audio", "pointer"])?;
        grants.insert(
            id,
            Grant {
                network: flag(map, "network")?,
                audio: flag(map, "audio")?,
                pointer: flag(map, "pointer")?,
            },
        );
    }
    Ok(PersistedGrants { schema_version: number(file, "schema_version")? as u32, grants })
}

fn open_assignments(disk: &Disk) -> AssignmentStore {
    let (store, quarantined) =
        AssignmentStore::open(Ok(()), disk.read(parse_assignments)).unwrap();
    assert_eq!(quarantined, None);
    store
}

fn set_on(
    disk: &Disk,
    store: &mut AssignmentStore,
    output: &str,
    assignment: Assignment,
) -> Result<(), String> {
    store.set(output, assignment, encode_assignments, |bytes: &Vec<u8>| disk.write(bytes))
}

fn remove_on(disk: &Disk, store: &mut AssignmentStore, output: &str) -> Result<bool, String> {
    store.remove(output, encode_assignments, |bytes: &Vec<u8>| disk.write(bytes))
}

fn open_grants(disk: &Disk) -> GrantStore {
    let (store, quarantined) = GrantStore::open(Ok(()), disk.read(parse_grants)).unwrap();
    assert_eq!(quarantined, None);
    store
}

fn grant_on(
    disk: &Disk,
    store: &mut GrantStore,
    id: &str,
    patch: GrantPatch,
) -> Result<Grant, String> {
    store.set(id, patch, encode_grants, |bytes: &Vec<u8>| disk.write(bytes))
}

fn sample_assignment() -> Assignment {
    Assignment {
        wallpaper_id: "431960-123".into(),
        kind: RendererKind::Video,
        content: "/media/steam/workshop/content/431960/123/scene.mp4".into(),
        width: 960,
        height: 540,
        fps: 30,
        scaling: ScalingMode::Aspect,
        applied_at_unix_seconds: 1_787_188_979,
        previous: Some(PreviousWallpaper {
            wallpaper_plugin: "org.kde.image".into(),
            config_group: vec!["Wallpaper".into(), "org.kde.image".into(), "General".into()],
            image: Some("file:///usr/share/wallpapers/fallback.png".into()),
        }),
    }
}

// -- assignments ------------------------------------------------------------

#[test]
fn store_round_trips_through_the_file() {
    let disk = Disk::empty();
    let mut store = open_assignments(&disk);
    assert_eq!(store.all().len(), 0);
    set_on(&disk, &mut store, "DP-1", sample_assignment()).unwrap();
    assert_eq!(store.get("DP-1"), Some(&sample_assignment()));
    let mut reopened = open_assignments(&disk);
    assert_eq!(reopened.get("DP-1"), Some(&sample_assignment()));
    assert_eq!(reopened.all().len(), 1);
    assert!(remove_on(&disk, &mut reopened, "DP-1").unwrap());
    assert!(!remove_on(&disk, &mut reopened, "DP-1").unwrap());
    assert_eq!(open_assignments(&disk).all().len(), 0);
}

#[test]
fn store_rejects_invalid_outputs_records_and_the_17th_output() {
    let disk = Disk::empty();
    let mut store = open_assignments(&disk);
    for output in ["", "../escape", "bad space", "tab\toutput", &"x".repeat(129)] {
        let error = set_on(&disk, &mut store, output, sample_assignment()).unwrap_err();
        assert!(
            error.contains("output must be 1..=128"),
            "unexpected error for {output:?}: {error}"
        );
    }
    let mut assignment = sample_assignment();
    assignment.wallpaper_id = "../escape".into();
    let error = set_on(&disk, &mut store, "DP-1", assignment).unwrap_err();
    assert!(error.contains("wallpaper_id must be 1..=128"), "{error}");
    let mut assignment = sample_assignment();
    assignment.kind = RendererKind::Test;
    let error = set_on(&disk, &mut store, "DP-1", assignment).unwrap_err();
    assert!(error.contains("video, web, or scene"), "{error}");
    for index in 0..MAX_ASSIGNED_OUTPUTS {
        set_on(&disk, &mut store, &format!("output-{index:02}"), sample_assignment()).unwrap();
    }
    let error = set_on(&disk, &mut store, "output-16", sample_assignment()).unwrap_err();
    assert!(error.contains("safety limit"), "{error}");
    assert_eq!(store.all().len(), MAX_ASSIGNED_OUTPUTS);
}

#[test]
fn apply_a_corrupt_file_is_quarantined_and_the_store_starts_fresh() {
    let mut quarantined = 0;
    for text in [
        "{not json".to_string(),
        r#"{"schema_version":1,"outputs":{"DP-1":{"wallpaper_id":"a","kind":"video","content":"/x","width":960,"height":540,"fps":30,"applied_at_unix_seconds":1,"previous":null,"bogus":1}}}"#.to_string(),
        r#"{"schema_version":1,"outputs":{"DP-1":{"wallpaper_id":"../escape","kind":"video","content":"/x","width":960,"height":540,"fps":30,"applied_at_unix_seconds":1,"previous":null}}}"#.to_string(),
        r#"{"schema_version":1,"outputs":{"DP-1":{"wallpaper_id":"a","kind":"test","content":"/x","width":960,"height":540,"fps":30,"applied_at_unix_seconds":1,"previous":null}}}"#.to_string(),
        "x".repeat((MAX_ASSIGNMENT_BYTES + 1) as usize),
        r#"{"schema_version":2,"outputs":{}}"#.to_string(),
    ] {
        let disk = Disk::holding(&text);
        let (store, reason) =
            AssignmentStore::open(Ok(()), disk.read(parse_assignments)).unwrap();
        assert_eq!(store.all().len(), 0);
        quarantined += usize::from(reason.is_some());
    }
    assert_eq!(quarantined, 6);
    // The same record without its fault is read.
    let disk = Disk::holding(
        r#"{"schema_version":1,"outputs":{"DP-1":{"wallpaper_id":"a","kind":"video","content":"/x","width":960,"height":540,"fps":30,"applied_at_unix_seconds":1,"previous":null}}}"#,
    );
    assert_eq!(open_assignments(&disk).get("DP-1").unwrap().wallpaper_id, "a");
}

#[test]
fn apply_a_failed_save_leaves_the_previous_file_intact() {
    let disk = Disk::empty();
    let mut store = open_assignments(&disk);
    set_on(&disk, &mut store, "DP-1", sample_assignment()).unwrap();
    let before = disk.contents();
    let error = store
        .set(
            "DP-2",
            sample_assignment(),
            |_: &NameMap<Assignment>| Ok(vec![b'y'; MAX_ASSIGNMENT_BYTES as usize + 1]),
            |bytes: &Vec<u8>| disk.write(bytes),
        )
        .unwrap_err();
    assert!(error.contains("exceeds"), "unexpected error: {error}");
    assert_eq!(disk.contents(), before);
    assert!(store.get("DP-1").is_some());
    assert!(store.get("DP-2").is_none());
}

#[test]
fn a_write_that_fails_keeps_the_records() {
    let disk = Disk::empty();
    let mut store = open_assignments(&disk);
    set_on(&disk, &mut store, "DP-1", sample_assignment()).unwrap();
    let refused = |_: &Vec<u8>| Err("no space left".to_string());
    let mut changed = sample_assignment();
    changed.wallpaper_id = "431960-456".into();
    let error = store.set("DP-1", changed, encode_assignments, refused).unwrap_err();
    assert!(error.contains("no space left"), "{error}");
    assert_eq!(store.get("DP-1"), Some(&sample_assignment()));
    let error = store.remove("DP-1", encode_assignments, refused).unwrap_err();
    assert!(error.contains("no space left"), "{error}");
    assert_eq!(store.get("DP-1"), Some(&sample_assignment()));
}

#[test]
fn records_are_bounded_and_valid() {
    assert_eq!(validate_assignment("DP-1", &sample_assignment()), Ok(()));
    let mut empty = sample_assignment();
    empty.content = String::new();
    assert!(validate_assignment("DP-1", &empty).is_err());
    let mut at_bound = sample_assignment();
    at_bound.content = "x".repeat(MAX_CONTENT_BYTES);
    assert!(validate_assignment("DP-1", &at_bound).is_ok());
    let mut past_bound = sample_assignment();
    past_bound.content = "x".repeat(MAX_CONTENT_BYTES + 1);
    assert!(validate_assignment("DP-1", &past_bound).is_err());
    let mut hostile = sample_assignment();
    hostile.previous.as_mut().unwrap().wallpaper_plugin = "a\"b".into();
    assert!(validate_assignment("DP-1", &hostile).is_err());
}

#[test]
fn a_store_without_its_directory_does_not_open() {
    let error = AssignmentStore::open(Err("not private".into()), StateFile::Missing)
        .err()
        .unwrap();
    assert!(error.contains("not private"), "{error}");
    let error = GrantStore::open(Err("not private".into()), StateFile::Missing).err().unwrap();
    assert!(error.contains("not private"), "{error}");
}

// -- grants -----------------------------------------------------------------

#[test]
fn defaults_are_network_off_audio_off_pointer_on() {
    assert_eq!(Grant::defaults(), Grant { network: false, audio: false, pointer: true });
    let store = open_grants(&Disk::empty());
    assert_eq!(store.grant("431960-123"), Grant::defaults());
    assert_eq!(store.all().len(), 0);
}

#[test]
fn set_and_patch_semantics_round_trip_through_the_file() {
    let disk = Disk::empty();
    let mut store = open_grants(&disk);
    let record = grant_on(
        &disk,
        &mut store,
        "431960-123",
        GrantPatch { network: Some(true), ..GrantPatch::default() },
    )
    .unwrap();
    assert_eq!(record, Grant { network: true, audio: false, pointer: true });
    let patched = grant_on(
        &disk,
        &mut store,
        "431960-123",
        GrantPatch { audio: Some(true), ..GrantPatch::default() },
    )
    .unwrap();
    assert_eq!(patched, Grant { network: true, audio: true, pointer: true });
    assert_eq!(store.grant("431960-123"), patched);
    let reopened = open_grants(&disk);
    assert_eq!(reopened.grant("431960-123"), patched);
    assert_eq!(reopened.all().len(), 1);
}

#[test]
fn set_rejects_invalid_wallpaper_ids() {
    let disk = Disk::empty();
    let mut store = open_grants(&disk);
    for id in ["", "../escape", &"x".repeat(129), "bad space", "tab\tid"] {
        let error = grant_on(&disk, &mut store, id, GrantPatch::default()).unwrap_err();
        assert!(
            error.contains("wallpaper_id must be 1..=128"),
            "unexpected error for {id:?}: {error}"
        );
    }
    assert_eq!(store.all().len(), 0);
}

#[test]
fn the_257th_record_is_rejected_and_patching_at_the_bound_still_works() {
    let disk = Disk::empty();
    let mut store = open_grants(&disk);
    for index in 0..MAX_GRANTS {
        grant_on(&disk, &mut store, &format!("wallpaper-{index:03}"), GrantPatch::default())
            .unwrap();
    }
    assert_eq!(store.all().len(), MAX_GRANTS);
    let error =
        grant_on(&disk, &mut store, "wallpaper-256", GrantPatch::default()).unwrap_err();
    assert!(error.contains("safety limit"), "unexpected error: {error}");
    let patched = grant_on(
        &disk,
        &mut store,
        "wallpaper-000",
        GrantPatch { network: Some(true), ..GrantPatch::default() },
    )
    .unwrap();
    assert!(patched.network);
    assert_eq!(store.all().len(), MAX_GRANTS);
}

#[test]
fn grants_a_corrupt_file_is_quarantined_and_the_store_starts_fresh() {
    let mut quarantined = 0;
    for text in [
        "{not json".to_string(),
        r#"{"schema_version":1,"grants":{"a":{"network":true,"audio":false,"pointer":true,"bogus":false}}}"#.to_string(),
        r#"{"schema_version":1,"grants":{"../escape":{"network":true,"audio":false,"pointer":true}}}"#.to_string(),
        "x".repeat((MAX_GRANT_BYTES + 1) as usize),
        r#"{"schema_version":2,"grants":{}}"#.to_string(),
    ] {
        let disk = Disk::holding(&text);
        let (store, reason) = GrantStore::open(Ok(()), disk.read(parse_grants)).unwrap();
        assert_eq!(store.all().len(), 0);
        quarantined += usize::from(reason.is_some());
    }
    assert_eq!(quarantined, 5);
}

#[test]
fn grants_a_failed_save_leaves_the_previous_file_intact() {
    let disk = Disk::empty();
    let mut store = open_grants(&disk);
    grant_on(
        &disk,
        &mut store,
        "431960-123",
        GrantPatch { network: Some(true), ..GrantPatch::default() },
    )
    .unwrap();
    let before = disk.contents();
    let error = store
        .set(
            "431960-456",
            GrantPatch::default(),
            |_: &NameMap<Grant>| Ok(vec![b'y'; MAX_GRANT_BYTES as usize + 1]),
            |bytes: &Vec<u8>| disk.write(bytes),
        )
        .unwrap_err();
    assert!(error.contains("exceeds"), "unexpected error: {error}");
    assert_eq!(disk.contents(), before);
    assert!(store.grant("431960-123").network);
    assert_eq!(store.all().len(), 1);
}

#[test]
fn a_patch_names_what_it_changes() {
    let current = Grant { network: true, audio: true, pointer: false };
    assert_eq!(GrantPatch::default().apply(current), current);
    let patch = GrantPatch { network: Some(false), audio: None, pointer: Some(true) };
    assert_eq!(patch.apply(current), Grant { network: false, audio: true, pointer: true });
    // Applied twice, a patch changes nothing more.
    assert_eq!(patch.apply(patch.apply(current)), patch.apply(current));
}

// -- state files ------------------------------------------------------------

#[test]
fn quarantine_prunes_old_invalid_siblings_to_the_bound() {
    let mut files: Vec<String> = Vec::new();
    for round in 0..12u64 {
        files.push("state.json".to_string());
        let moved = quarantine_name("state.json", 1_787_188_979, 1_000 + u128::from(round));
        files.retain(|name| name != "state.json");
        files.push(moved);
        for doomed in prune_siblings(&files, "state.json") {
            files.retain(|name| *name != doomed);
        }
        assert!(!files.iter().any(|name| name == "state.json"));
        let count = files.len();
        assert!(count <= MAX_INVALID_SIBLINGS, "grew to {count} siblings");
    }
    assert_eq!(files.len(), MAX_INVALID_SIBLINGS);
    for name in &files {
        assert!(name.starts_with("state.json.invalid-"), "unexpected sibling {name}");
    }
    // The survivors are the newest.
    assert_eq!(files[0], "state.json.invalid-1787188979-1004");
    assert_eq!(files[7], "state.json.invalid-1787188979-1011");
}

#[test]
fn pruning_leaves_other_files_alone() {
    let mut files: Vec<String> = Vec::new();
    for index in 0..10 {
        files.push(format!("other.json.invalid-{index}"));
        files.push(format!("state.json.{index}"));
    }
    assert!(prune_siblings(&files, "state.json").is_empty());
}

#[test]
fn only_a_bounded_regular_file_is_read() {
    assert!(bounded_file(true, 10, 10));
    assert!(!bounded_file(true, 11, 10));
    assert!(!bounded_file(false, 1, 10));
    let opened = |is_file, size, content| StateFile::Opened { is_file, size, content };
    assert_eq!(read_state_file(StateFile::<u8>::Missing, 10), Ok(None));
    assert!(read_state_file(StateFile::<u8>::OpenFailed("denied".into()), 10).is_err());
    assert!(read_state_file(StateFile::<u8>::MetadataFailed("gone".into()), 10).is_err());
    assert!(read_state_file(opened(false, 1, Some(StateContent::Parsed(7u8))), 10).is_err());
    assert!(read_state_file(opened(true, 11, Some(StateContent::Parsed(7u8))), 10).is_err());
    assert_eq!(read_state_file(opened(true, 10, Some(StateContent::Parsed(7u8))), 10), Ok(Some(7)));
    let unread: StateFile<u8> = opened(true, 1, Some(StateContent::ReadFailed("short".into())));
    assert!(read_state_file(unread, 10).is_err());
}

#[test]
fn a_save_is_bounded_before_it_is_written() {
    let disk = Disk::empty();
    let encode = |count: &usize| Ok(vec![b'z'; *count]);
    save_bounded(&10, "grants", 10, encode, |bytes: &Vec<u8>| disk.write(bytes)).unwrap();
    assert_eq!(disk.contents(), vec![b'z'; 10]);
    let error =
        save_bounded(&11, "grants", 10, encode, |bytes: &Vec<u8>| disk.write(bytes)).unwrap_err();
    assert!(error.contains("exceeds"), "{error}");
    assert_eq!(disk.contents(), vec![b'z'; 10]);
    let failing = |_: &usize| Err("not a number".to_string());
    assert!(save_bounded(&1, "grants", 10, failing, |bytes: &Vec<u8>| disk.write(bytes)).is_err());
}

// -- names ------------------------------------------------------------------

#[test]
fn names_are_kept_in_order_and_once() {
    let mut map: NameMap<u32> = NameMap::new();
    assert_eq!(map.insert("DP-2", 2), None);
    assert_eq!(map.insert("DP-1", 1), None);
    assert_eq!(map.insert("eDP-1", 3), None);
    assert_eq!(map.insert("DP-1", 4), Some(1));
    assert_eq!(map.len(), 3);
    assert_eq!(map.name_at(0), "DP-1");
    assert_eq!(*map.value_at(0), 4);
    assert_eq!(map.name_at(1), "DP-2");
    assert_eq!(map.name_at(2), "eDP-1");
    assert_eq!(map.get("DP-2"), Some(&2));
    assert_eq!(map.get("HDMI-A-1"), None);
    assert_eq!(map.remove("DP-2"), Some(2));
    assert_eq!(map.remove("DP-2"), None);
    assert!(!map.contains("DP-2"));
    assert!(is_before("DP-1", "DP-10"));
    assert!(is_before("DP-10", "DP-2"));
    assert!(!is_before("DP-1", "DP-1"));
}

#[test]
fn what_is_refused_is_not_written() {
    let disk = Disk::empty();
    let mut store = open_assignments(&disk);
    let never = |_: &NameMap<Assignment>| -> Result<Vec<u8>, String> { panic!("encoded") };
    let nowhere = |_: &Vec<u8>| -> Result<(), String> { panic!("written") };
    let mut invalid = sample_assignment();
    invalid.kind = RendererKind::Test;
    assert!(store.set("DP-1", invalid, never, nowhere).is_err());
    assert_eq!(store.remove("DP-1", never, nowhere), Ok(false));
    for index in 0..MAX_ASSIGNED_OUTPUTS {
        set_on(&disk, &mut store, &format!("output-{index:02}"), sample_assignment()).unwrap();
    }
    let before = disk.contents();
    assert!(store.set("output-16", sample_assignment(), never, nowhere).is_err());
    let huge = |_: &NameMap<Assignment>| Ok(vec![0; MAX_ASSIGNMENT_BYTES as usize + 1]);
    assert!(store.set("output-00", sample_assignment(), huge, nowhere).is_err());
    assert!(store.remove("output-00", huge, nowhere).is_err());
    assert_eq!(disk.contents(), before);
    assert_eq!(store.all().len(), MAX_ASSIGNED_OUTPUTS);
    assert_eq!(store.remove("output-00", encode_nothing, |_: &Vec<u8>| Ok(())), Ok(true));
    assert_eq!(store.remove("output-00", never, nowhere), Ok(false));
}

fn encode_nothing(_: &NameMap<Assignment>) -> Result<Vec<u8>, String> {
    Ok(vec![])
}

#[test]
fn a_refused_grant_is_not_written() {
    let mut store = GrantStore::open(Ok(()), StateFile::Missing).unwrap().0;
    let patch = GrantPatch { network: Some(true), audio: None, pointer: None };
    let error = store
        .set(
            "../escape",
            patch,
            |_: &NameMap<Grant>| panic!("encoded"),
            |_: &Vec<u8>| panic!("written"),
        )
        .unwrap_err();
    assert!(error.contains("wallpaper_id must be 1..=128"), "{error}");
}
