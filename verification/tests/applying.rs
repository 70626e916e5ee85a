use std::cell::{Cell, RefCell};

use serde_json::Value;

use kwe_daemon::apply::{
    catalog_content_path, content_hash_for, default_apply_fps, default_apply_height,
    default_apply_width, enumeration_error, frame_size_for, last_assigned_output,
    promotion_verdict, resolve_playlist_output, restore_target, stock_image_path, verify_restore,
    verify_switch, ApplyError, ApplyWallpaperParams, KWE_PLUGIN,
};
use kwe_daemon::assignments::{
    Assignment, AssignmentStore, PreviousWallpaper, MAX_ASSIGNED_OUTPUTS,
};
use kwe_daemon::gate::{read_inspection, scene_capability_gate, Inspection, InspectionRecord};
use kwe_daemon::handle::{
    enumerate_fresh, parse_probe_reply, ApplyConfig, ApplyHandle, ApplyService,
};
use kwe_daemon::inspect::InspectReport;
use kwe_daemon::model::{
    CatalogItem, ProjectKind, RendererKind, ScalingMode, StartSpec, WorkerPhase, WorkerStatus,
};
use kwe_daemon::names::NameMap;
use kwe_daemon::persist::StateFile;
use kwe_daemon::prepare::{Preparation, PrepareStage};
use kwe_daemon::probe::{OutputInfo, ProbeDesktop, ProbeError, ProbeReply, SystemOutput};
use kwe_daemon::restore::{Restore, RestoreStage};
use kwe_daemon::shell::{ShellProbe, StubProbe};
use kwe_daemon::transaction::{ApplyPlan, ApplyTransaction, Stage};

// -- fixtures ---------------------------------------------------------------

const DP1_PROBE_REPLY: &str = r#"{"desktops":[{"index":1,"id":111,"screen":0,"wp":"org.kde.image","image":"file:///usr/share/wallpapers/fallback.png"}],"connectors":{"DP-1":0}}"#;

const KWE_PROBE_REPLY: &str = r#"{"desktops":[{"index":1,"id":111,"screen":0,"wp":"org.kde.kwe.wallpaper","image":null}],"connectors":{"DP-1":0}}"#;

fn names(items: &[&str]) -> NameMap<()> {
    let mut map = NameMap::new();
    for item in items {
        map.insert(item, ());
    }
    map
}

fn strings(items: &[&str]) -> Vec<String> {
    items.iter().map(|item| item.to_string()).collect()
}

fn dp1_output() -> SystemOutput {
    SystemOutput {
        name: "DP-1".into(),
        enabled: true,
        connected: true,
        geometry: Some([0, 0, 2926, 823]),
    }
}

fn stub_probe(outputs: Vec<SystemOutput>, reply: Option<&str>) -> StubProbe {
    StubProbe::new(outputs, reply.map(str::to_string))
}

fn stub_probe_with_switch(outputs: Vec<SystemOutput>) -> StubProbe {
    stub_probe(outputs, Some(DP1_PROBE_REPLY)).after_switch(KWE_PROBE_REPLY.to_string())
}

fn item(id: &str, content_root: &str, entry_file: Option<&str>, kind: ProjectKind) -> CatalogItem {
    CatalogItem {
        workshop_id: id.into(),
        kind,
        content_root: content_root.into(),
        entry_file: entry_file.map(str::to_string),
        metadata_hash: None,
        workshop_state: "local".into(),
    }
}

/// A catalog with these scenes.
fn scene_catalog(ids: &[&str]) -> Vec<CatalogItem> {
    ids.iter()
        .map(|id| {
            let root = format!("/steam/431960/{id}");
            let entry = format!("{root}/scene.json");
            item(id, &root, Some(&entry), ProjectKind::Scene)
        })
        .collect()
}

fn sample_assignment() -> Assignment {
    Assignment {
        wallpaper_id: "431960-123".into(),
        kind: RendererKind::Video,
        content: "/media/steam/workshop/content/431960/123/scene.mp4".into(),
        width: 960,
        height: 540,
        fps: 30,
        scaling: ScalingMode::Aspect,
        applied_at_unix_seconds: 1_787_188_979,
        previous: Some(image_wallpaper("file:///usr/share/wallpapers/fallback.png")),
    }
}

fn image_wallpaper(image: &str) -> PreviousWallpaper {
    PreviousWallpaper {
        wallpaper_plugin: "org.kde.image".into(),
        config_group: strings(&["Wallpaper", "org.kde.image", "General"]),
        image: Some(image.into()),
    }
}

fn scene_assignment(id: &str, applied_at_unix_seconds: u64) -> Assignment {
    Assignment {
        wallpaper_id: id.into(),
        kind: RendererKind::Scene,
        content: "/tmp/scene.json".into(),
        width: 320,
        height: 180,
        fps: 30,
        scaling: ScalingMode::Aspect,
        applied_at_unix_seconds,
        previous: None,
    }
}

fn apply_params(id: &str, kind: RendererKind, content: Option<&str>) -> ApplyWallpaperParams {
    ApplyWallpaperParams {
        output: "DP-1".into(),
        wallpaper_id: id.into(),
        kind,
        content: content.map(str::to_string),
        width: None,
        height: None,
        fps: 30,
        scaling: ScalingMode::Aspect,
        retry: false,
    }
}

/// Reads a reply; a field that is not known is refused.
fn decode(text: &str) -> Result<ProbeReply, String> {
    let value: Value = serde_json::from_str(text).map_err(|error| error.to_string())?;
    let mut desktops = Vec::new();
    for desktop in value["desktops"].as_array().ok_or("desktops")? {
        for name in desktop.as_object().ok_or("desktop")?.keys() {
            if !["index", "id", "screen", "wp", "image"].contains(&name.as_str()) {
                return Err(format!("unknown field `{name}`"));
            }
        }
        desktops.push(ProbeDesktop {
            index: desktop["index"].as_u64().ok_or("index")? as usize,
            id: desktop["id"].as_u64().ok_or("id")?,
            screen: desktop["screen"].as_i64().ok_or("screen")? as i32,
            wp: desktop["wp"].as_str().ok_or("wp")?.to_string(),
            image: desktop["image"].as_str().map(str::to_string),
        });
    }
    let mut connectors = NameMap::new();
    for (name, screen) in value["connectors"].as_object().ok_or("connectors")? {
        connectors.insert(name, screen.as_i64().ok_or("screen")? as i32);
    }
    Ok(ProbeReply { desktops, connectors })
}

fn fresh_store() -> AssignmentStore {
    AssignmentStore::open(Ok(()), StateFile::Missing).unwrap().0
}

fn store_with(records: Vec<(&str, Assignment)>) -> AssignmentStore {
    let mut store = fresh_store();
    for (output, record) in records {
        store.set(output, record, encode, write).unwrap();
    }
    store
}

fn encode(_: &NameMap<Assignment>) -> Result<Vec<u8>, String> {
    Ok(vec![1])
}

fn write(_: &Vec<u8>) -> Result<(), String> {
    Ok(())
}

// -- a supervisor and a desk ------------------------------------------------

/// A supervisor whose renderer is promoted after a few looks.
struct FakeSupervisor {
    status: RefCell<WorkerStatus>,
    looks: Cell<u32>,
    /// The renderer never gets past its start.
    hangs: bool,
    /// Somebody else's wallpaper takes the slot at this look.
    foreign_at: Option<u32>,
    /// The record of a wallpaper that is not started any more.
    quarantined: Cell<bool>,
    started: RefCell<Vec<StartSpec>>,
}

impl FakeSupervisor {
    fn new() -> Self {
        FakeSupervisor {
            status: RefCell::new(WorkerStatus {
                phase: WorkerPhase::Idle,
                wallpaper_id: None,
                requested_wallpaper_id: None,
                requested_content_hash: None,
                last_failure_detail: None,
                quarantined: false,
                failures: 0,
            }),
            looks: Cell::new(0),
            hangs: false,
            foreign_at: None,
            quarantined: Cell::new(false),
            started: RefCell::new(Vec::new()),
        }
    }

    fn start(&self, spec: &StartSpec, retry: bool) -> WorkerStatus {
        let mut status = self.status.borrow_mut();
        status.requested_wallpaper_id = Some(spec.wallpaper_id.clone());
        status.requested_content_hash = Some(spec.content_hash.clone());
        self.looks.set(0);
        if retry {
            self.quarantined.set(false);
        }
        if self.quarantined.get() {
            status.phase = WorkerPhase::Quarantined;
            status.quarantined = true;
            status.failures = 3;
            status.last_failure_detail =
                Some("exit_code_73 stderr=[Zygote could not fork]".into());
        } else {
            self.started.borrow_mut().push(spec.clone());
            status.phase = WorkerPhase::Starting;
            status.quarantined = false;
            status.failures = 0;
            status.last_failure_detail = None;
        }
        status.clone()
    }

    fn status(&self) -> WorkerStatus {
        let mut status = self.status.borrow_mut();
        self.looks.set(self.looks.get() + 1);
        if self.foreign_at == Some(self.looks.get()) {
            status.requested_wallpaper_id = Some("other".into());
            status.requested_content_hash = Some("foreign-hash".into());
            status.phase = WorkerPhase::Starting;
        } else if !self.hangs {
            status.phase = match status.phase {
                WorkerPhase::Starting => WorkerPhase::Canary,
                WorkerPhase::Canary => {
                    status.wallpaper_id = status.requested_wallpaper_id.clone();
                    WorkerPhase::Live
                }
                other => other,
            };
        }
        status.clone()
    }

    fn stop(&self) {
        self.status.borrow_mut().phase = WorkerPhase::Stopped;
    }

    fn phase(&self) -> WorkerPhase {
        self.status.borrow().phase
    }
}

/// What a request to apply is answered.
#[derive(Debug)]
struct Applied {
    output: String,
    record: Assignment,
    limitations: Vec<String>,
    inspection_unavailable: Option<String>,
}

/// The daemon's side of the desk: it performs what the library asks for.
struct Desk {
    probe: RefCell<StubProbe>,
    handle: ApplyHandle,
    items: Vec<CatalogItem>,
    supervisor: FakeSupervisor,
    /// Files besides those of the catalog.
    files: Vec<String>,
    inspection: Box<dyn Fn() -> Inspection>,
    inspections: u32,
}

impl Desk {
    fn new(probe: StubProbe, items: Vec<CatalogItem>, store: AssignmentStore) -> Desk {
        let config = ApplyConfig {
            state_dir: "/state".into(),
            shell_service: "org.kde.plasmashell".into(),
            qdbus_binary: None,
            switch_command: None,
            kscreen_binary: "kscreen-doctor".into(),
            systemctl_binary: None,
            probe_timeout_ms: 5000,
            promotion_timeout_ms: 1500,
            scene_assets_dir: Some("/assets".into()),
        };
        let service = ApplyService::new(config, Ok(store)).unwrap();
        assert_eq!(service.handle().scene_assets_dir(), Some("/assets"));
        Desk {
            probe: RefCell::new(probe),
            handle: service.handle,
            items,
            supervisor: FakeSupervisor::new(),
            files: Vec::new(),
            inspection: Box::new(|| Inspection::Inventoried { required: Vec::new() }),
            inspections: 0,
        }
    }

    fn enumerate(probe: &RefCell<StubProbe>) -> Result<Vec<OutputInfo>, ApplyError> {
        enumerate_fresh(
            || probe.borrow_mut().system_outputs(),
            |script: &str| probe.borrow_mut().evaluate_script(script),
            decode,
        )
    }

    fn scripts(&self) -> Vec<String> {
        self.probe.borrow().scripts()
    }

    /// The scripts that are no enumeration.
    fn switches(&self) -> Vec<String> {
        self.scripts().into_iter().filter(|script| !script.contains("screenForConnector")).collect()
    }

    fn present(&self, path: &str) -> Option<String> {
        let of_catalog = self.items.iter().any(|item| {
            path == item.content_root || item.entry_file.as_deref() == Some(path)
        });
        if of_catalog || self.files.iter().any(|file| file == path) {
            Some(path.to_string())
        } else {
            None
        }
    }

    fn preflight(&self, spec: &StartSpec, path: &str) -> Result<(), String> {
        if spec.width == 0 || spec.height == 0 {
            return Err("width and height must be positive".into());
        }
        match self.present(path) {
            Some(_) => Ok(()),
            None => Err(format!("{path} does not exist")),
        }
    }

    fn apply(&mut self, params: ApplyWallpaperParams) -> Result<Applied, ApplyError> {
        let lock_free = self.handle.acquire_apply_lock().is_ok();
        let applied = match Preparation::begin(params, lock_free) {
            Ok(preparation) => self.carry_out(preparation, None, &NameMap::new()),
            Err(error) => Err(error),
        };
        if lock_free {
            self.handle.release_apply_lock();
        }
        applied
    }

    fn apply_playlist(
        &mut self,
        id: &str,
        entries: &NameMap<()>,
        applied: Option<&str>,
    ) -> Result<Applied, ApplyError> {
        let lock_free = self.handle.acquire_apply_lock().is_ok();
        let status = self.supervisor.status();
        let result = match Preparation::begin_playlist(id.into(), lock_free, Some(&status), applied)
        {
            Ok(preparation) => self.carry_out(preparation, None, entries),
            Err(error) => Err(error),
        };
        if lock_free {
            self.handle.release_apply_lock();
        }
        result
    }

    fn carry_out(
        &mut self,
        mut preparation: Preparation,
        output: Option<&str>,
        entries: &NameMap<()>,
    ) -> Result<Applied, ApplyError> {
        loop {
            match preparation.stage {
                PrepareStage::ResolvingOutput => {
                    let resolved = resolve_playlist_output(
                        output,
                        &self.handle.store,
                        entries,
                        || Self::enumerate(&self.probe),
                    );
                    preparation.output_resolved(resolved);
                }
                PrepareStage::PreflightClient => {
                    let named = preparation.named_content.clone().unwrap();
                    let result = self.preflight(&preparation.spec, &named);
                    preparation.client_preflighted(result);
                }
                PrepareStage::Lookup => preparation.looked_up(&self.items),
                PrepareStage::Canonicalizing => {
                    let client = match &preparation.named_content {
                        Some(named) => self.present(named),
                        None => None,
                    };
                    let catalog = self.present(&preparation.content);
                    preparation.canonicalized(client, catalog);
                }
                PrepareStage::PreflightCatalog => {
                    let result = self.preflight(&preparation.spec, &preparation.content);
                    let path = preparation.content.clone();
                    preparation.catalog_preflighted(result, path.as_bytes());
                }
                PrepareStage::Enumerating => {
                    let stored = self.handle.stored_assignment(&preparation.output_name);
                    preparation.enumerated(Self::enumerate(&self.probe), stored.as_ref());
                }
                PrepareStage::Inspecting => {
                    self.inspections += 1;
                    preparation.inspected(
                        (self.inspection)(),
                        &names(&["scene.layer.image"]),
                        &names(&["scene.layer.sound"]),
                    );
                }
                PrepareStage::Ready | PrepareStage::Refused => break,
            }
        }
        let inspection_unavailable = preparation.inspection_unavailable.clone();
        let plan = preparation.into_plan()?;
        let limitations = plan.spec.capability_limitations.clone();
        let (output, record) = self.transact(plan)?;
        Ok(Applied { output, record, limitations, inspection_unavailable })
    }

    fn transact(&mut self, plan: ApplyPlan) -> Result<(String, Assignment), ApplyError> {
        let mut now: u64 = 1_000;
        let mut run = ApplyTransaction::new(plan, self.handle.promotion_timeout_ms);
        loop {
            match run.stage {
                Stage::Starting => {
                    let answer = self.supervisor.start(&run.plan.spec, run.plan.retry);
                    run.started(Ok(answer), now);
                }
                Stage::Waiting => {
                    now += 20;
                    run.polled(Ok(self.supervisor.status()), now);
                }
                Stage::CheckingOwner => run.owner_checked(Ok(self.supervisor.status())),
                Stage::Persisting => {
                    let saved = self.handle.store.set(
                        &run.plan.output_name,
                        run.assignment(1_787_188_979),
                        encode,
                        write,
                    );
                    run.persisted(saved);
                }
                Stage::Switching => {
                    let result = self.probe.borrow_mut().evaluate_script(&run.switch_script());
                    run.switched(result.map(|_| ()));
                }
                Stage::Verifying => run.verified(Self::enumerate(&self.probe)),
                Stage::RollbackLooking => run.looked_for_rollback(Ok(self.supervisor.status())),
                Stage::RollbackStopping => {
                    self.supervisor.stop();
                    run.stopped_for_rollback();
                }
                Stage::RollbackStore => {
                    match run.rollback_record() {
                        Some(record) => {
                            let _ = self.handle.store.set(
                                &run.plan.output_name,
                                record,
                                encode,
                                write,
                            );
                        }
                        None => {
                            let _ = self.handle.store.remove(&run.plan.output_name, encode, write);
                        }
                    }
                    run.reverted_store();
                }
                Stage::Done | Stage::Failed => return run.outcome(1_787_188_979),
            }
        }
    }

    fn restore(&mut self, stock_image: Option<String>) -> Result<Restore, ApplyError> {
        let stored = self.handle.stored_assignment("DP-1");
        let mut restore =
            Restore::begin("DP-1".into(), Self::enumerate(&self.probe), stored, stock_image)?;
        let result = self.probe.borrow_mut().evaluate_script(&restore.script);
        restore.switched(result.map(|_| ()))?;
        restore.verified(Self::enumerate(&self.probe))?;
        if restore.stage == RestoreStage::Clearing {
            let _ = self.handle.store.remove("DP-1", encode, write);
            restore.cleared();
        }
        assert_eq!(restore.stage, RestoreStage::Done);
        Ok(restore)
    }

    fn assigned(&self, output: &str) -> Option<String> {
        self.handle.stored_assignment(output).map(|record| record.wallpaper_id)
    }
}

fn inventoried(required: &'static [&'static str]) -> Box<dyn Fn() -> Inspection> {
    Box::new(move || Inspection::Inventoried { required: strings(required) })
}

fn scene_desk() -> Desk {
    Desk::new(
        stub_probe_with_switch(vec![dp1_output()]),
        scene_catalog(&["1", "2", "3"]),
        fresh_store(),
    )
}

fn scene_params() -> ApplyWallpaperParams {
    apply_params("1", RendererKind::Scene, Some("/steam/431960/1/scene.json"))
}

// -- the pieces -------------------------------------------------------------

#[test]
fn probe_reply_parses_and_rejects_unknown_fields() {
    let reply = r#"{"desktops":[{"index":1,"id":111,"screen":0,"wp":"org.kde.image","image":"file:///x.png"}],"connectors":{"DP-1":0,"HDMI-A-1":1}}"#;
    let parsed = parse_probe_reply(reply, decode).unwrap();
    assert_eq!(parsed.desktops.len(), 1);
    assert_eq!(parsed.desktops[0].index, 1);
    assert_eq!(parsed.desktops[0].id, 111);
    assert_eq!(parsed.connectors.get("DP-1"), Some(&0));
    assert!(parse_probe_reply("", decode).is_err());
    assert!(parse_probe_reply("   ", decode).is_err());
    assert!(parse_probe_reply(
        r#"{"desktops":[{"index":0,"id":1,"screen":0,"wp":"a","image":null,"bogus":1}],"connectors":{}}"#,
        decode,
    )
    .is_err());
}

#[test]
fn catalog_content_path_resolves_entries_roots_and_scene_json() {
    assert_eq!(
        catalog_content_path(
            &item("1", "/w/1", Some("/w/1/scene.json"), ProjectKind::Scene),
            RendererKind::Scene
        ),
        "/w/1/scene.json"
    );
    assert_eq!(
        catalog_content_path(&item("1", "/w/2", None, ProjectKind::Scene), RendererKind::Scene),
        "/w/2/scene.json"
    );
    assert_eq!(
        catalog_content_path(
            &item("1", "/w/3", Some("/w/3/index.html"), ProjectKind::Web),
            RendererKind::Web
        ),
        "/w/3"
    );
    assert_eq!(
        catalog_content_path(
            &item("1", "/w/4", Some("/w/4/video.mp4"), ProjectKind::Video),
            RendererKind::Video
        ),
        "/w/4/video.mp4"
    );
}

#[test]
fn restore_target_prefers_the_saved_previous_and_falls_back_to_stock() {
    let target = restore_target(Some(sample_assignment()), Some("/usr/share/stock.png".into()));
    assert_eq!(target.mode, "assignment");
    assert_eq!(target.wallpaper_plugin, "org.kde.image");
    assert_eq!(target.image.as_deref(), Some("file:///usr/share/wallpapers/fallback.png"));
    let target = restore_target(None, Some("/usr/share/stock.png".into()));
    assert_eq!(target.mode, "stock");
    assert_eq!(target.wallpaper_plugin, "org.kde.image");
    assert_eq!(target.image.as_deref(), Some("/usr/share/stock.png"));
    let target = restore_target(None, None);
    assert_eq!(target.mode, "stock");
    assert_eq!(target.image, None);
    let target = restore_target(Some(Assignment { previous: None, ..sample_assignment() }), None);
    assert_eq!(target.mode, "stock");
    assert_eq!(target.wallpaper_plugin, "org.kde.image");
}

#[test]
fn restore_target_contract_documentation_smoke() {
    let target = restore_target(None, None);
    assert_ne!(target.wallpaper_plugin, KWE_PLUGIN);
    let target = restore_target(Some(sample_assignment()), None);
    assert_ne!(target.wallpaper_plugin, KWE_PLUGIN);
}

#[test]
fn a_record_of_the_daemon_itself_is_never_restored() {
    let mut own = sample_assignment();
    own.previous.as_mut().unwrap().wallpaper_plugin = KWE_PLUGIN.into();
    let target = restore_target(Some(own), Some("/usr/share/stock.png".into()));
    assert_eq!(target.wallpaper_plugin, "org.kde.image");
    assert_eq!(target.mode, "stock");
    assert_eq!(target.image.as_deref(), Some("/usr/share/stock.png"));
}

#[test]
fn promotion_verdict_covers_every_phase() {
    assert_eq!(promotion_verdict(WorkerPhase::Live, true, None), Some(Ok(())));
    assert_eq!(promotion_verdict(WorkerPhase::AwaitingAck, true, None), Some(Ok(())));
    let verdict = promotion_verdict(WorkerPhase::RolledBack, true, Some("corrupt"));
    assert_eq!(verdict, Some(Err("corrupt".into())));
    let verdict = promotion_verdict(WorkerPhase::Quarantined, false, None);
    assert_eq!(verdict, Some(Err("quarantined".into())));
    assert_eq!(promotion_verdict(WorkerPhase::Stopped, true, None), Some(Err("stopped".into())));
    for phase in [
        WorkerPhase::Idle,
        WorkerPhase::Starting,
        WorkerPhase::Canary,
        WorkerPhase::Restarting,
    ] {
        assert_eq!(promotion_verdict(phase, true, None), None);
    }
    assert_eq!(promotion_verdict(WorkerPhase::Live, false, None), None);
    assert_eq!(promotion_verdict(WorkerPhase::AwaitingAck, false, None), None);
}

#[test]
fn enumeration_error_keeps_display_unavailable_distinct() {
    let mapped = enumeration_error(ProbeError::DisplayUnavailable("no display".into()));
    assert_eq!(mapped.code(), "display_unavailable");
    assert_eq!(mapped.detail(), Some("no display"));
    for other in [
        ProbeError::Unreachable("gone".into()),
        ProbeError::Rejected("nope".into()),
        ProbeError::TimedOut("slow".into()),
        ProbeError::Parse("garbage".into()),
    ] {
        assert_eq!(enumeration_error(other).code(), "shell_unreachable");
    }
}

#[test]
fn apply_params_defaults_match_the_renderer_defaults() {
    assert_eq!(default_apply_width(), 960);
    assert_eq!(default_apply_height(), 540);
    assert_eq!(default_apply_fps(), 30);
}

#[test]
fn frame_size_follows_the_output_within_the_cap() {
    assert_eq!(frame_size_for(Some(320), Some(180), Some([0, 0, 2926, 823])), (320, 180));
    assert_eq!(frame_size_for(None, None, None), (960, 540));
    assert_eq!(frame_size_for(Some(800), None, None), (800, 540));
    assert_eq!(frame_size_for(None, None, Some([0, 0, 1920, 1080])), (1920, 1080));
    assert_eq!(frame_size_for(None, None, Some([0, 0, 2926, 823])), (2560, 720));
    assert_eq!(frame_size_for(None, None, Some([0, 0, 3840, 2160])), (2560, 1440));
    assert_eq!(frame_size_for(None, None, Some([0, 0, 1080, 3840])), (720, 2560));
    assert_eq!(frame_size_for(None, None, Some([0, 0, 0, 823])), (960, 540));
    assert_eq!(frame_size_for(None, None, Some([0, 0, 10000, 8])), (2560, 64));
    // Every derived canvas is even and small enough to share.
    for geometry in [[0, 0, 7680, 4320], [0, 0, 2926, 823], [0, 0, 640, 480]] {
        let (w, h) = frame_size_for(None, None, Some(geometry));
        assert!(w % 2 == 0 && h % 2 == 0);
        assert!(u64::from(w) * u64::from(h) * 4 * 3 <= 128 * 1024 * 1024);
    }
}

#[test]
fn content_without_metadata_is_identified_by_its_path() {
    let mut scene = item("1", "/w/1", None, ProjectKind::Scene);
    assert_eq!(
        content_hash_for(&scene, b"abc"),
        "ba7816bf8f01cfea414140de5dae2223b00361a396177a9cb410ff61f20015ad"
    );
    scene.metadata_hash = Some("feed".into());
    assert_eq!(content_hash_for(&scene, b"abc"), "feed");
}

#[test]
fn every_error_has_its_code() {
    let gate = ApplyError::CapabilityGate {
        detail: "d".into(),
        missing: strings(&["scene.future-thing"]),
        inspection_reason: None,
    };
    assert_eq!(gate.code(), "apply_incompatible");
    let (missing, reason) = gate.extra_fields().unwrap();
    assert_eq!(*missing, strings(&["scene.future-thing"]));
    assert_eq!(*reason, None);
    for (error, code) in [
        (ApplyError::Invalid("d".into()), "invalid_params"),
        (ApplyError::UnknownWallpaper("d".into()), "apply_unknown_wallpaper"),
        (ApplyError::Incompatible("d".into()), "apply_incompatible"),
        (ApplyError::OutputMissing("d".into()), "output_missing"),
        (ApplyError::Busy, "apply_busy"),
        (ApplyError::ShellUnreachable("d".into()), "shell_unreachable"),
        (ApplyError::DisplayUnavailable("d".into()), "display_unavailable"),
        (ApplyError::Transaction("d".into()), "apply_failed"),
        (ApplyError::Quarantined("d".into()), "apply_quarantined"),
        (ApplyError::RestoreFailed("d".into()), "restore_failed"),
    ] {
        assert_eq!(error.code(), code);
        assert!(error.extra_fields().is_none());
    }
}

#[test]
fn a_switch_that_does_not_show_is_described() {
    let output = |plugin: Option<&str>| OutputInfo {
        name: "DP-1".into(),
        screen: 0,
        desktop_id: Some(111),
        desktop_index: Some(1),
        geometry: None,
        enabled: true,
        connected: true,
        wallpaper_plugin: plugin.map(str::to_string),
        config_group: Vec::new(),
        image: None,
    };
    assert!(verify_switch(&vec![output(Some(KWE_PLUGIN))], "DP-1", 1).is_ok());
    let error = verify_switch(&vec![output(Some("org.kde.image"))], "DP-1", 1).unwrap_err();
    assert_eq!(error.code(), "apply_failed");
    assert!(error.detail().unwrap().contains("Some(\"org.kde.image\")"), "{error:?}");
    let error = verify_switch(&vec![output(None)], "DP-1", 1).unwrap_err();
    assert!(error.detail().unwrap().contains("None"), "{error:?}");
    assert!(verify_switch(&vec![], "DP-1", 1).is_err());
    assert!(verify_restore(&vec![output(Some("org.kde.image"))], "DP-1", "org.kde.image").is_ok());
    let error = verify_restore(&vec![output(None)], "DP-1", "org.kde.image").unwrap_err();
    assert_eq!(error.code(), "restore_failed");
}

// -- scenes and their capabilities ------------------------------------------

#[test]
fn scene_apply_gate_refuses_a_missing_required_capability() {
    let store = store_with(vec![("DP-1", scene_assignment("prior", 1))]);
    let mut desk = Desk::new(
        stub_probe_with_switch(vec![dp1_output()]),
        scene_catalog(&["1"]),
        store,
    );
    desk.inspection = inventoried(&["scene.layer.image", "scene.future-thing"]);
    let error = desk.apply(scene_params()).unwrap_err();
    assert_eq!(error.code(), "apply_incompatible");
    assert_eq!(*error.extra_fields().unwrap().0, strings(&["scene.future-thing"]));
    assert!(!desk.scripts().iter().any(|script| script.contains("org.kde.kwe.wallpaper")));
    assert_eq!(desk.supervisor.phase(), WorkerPhase::Idle);
    assert_eq!(desk.assigned("DP-1").as_deref(), Some("prior"));
}

#[test]
fn scene_apply_gate_proceeds_with_a_tolerated_limitation() {
    let mut desk = scene_desk();
    desk.inspection = inventoried(&["scene.layer.image", "scene.layer.sound"]);
    let applied = desk.apply(scene_params()).unwrap();
    assert_eq!(applied.limitations, strings(&["scene.layer.sound"]));
    assert_eq!(desk.supervisor.phase(), WorkerPhase::Live);
    assert_eq!(
        desk.supervisor.started.borrow()[0].capability_limitations,
        strings(&["scene.layer.sound"])
    );
}

#[test]
fn scene_apply_gate_refuses_content_the_inspector_itself_rejects() {
    let mut desk = scene_desk();
    desk.inspection = Box::new(|| Inspection::Incompatible { reason: "parse-error".into() });
    let error = desk.apply(scene_params()).unwrap_err();
    assert_eq!(error.code(), "apply_incompatible");
    let (missing, reason) = error.extra_fields().unwrap();
    assert!(missing.is_empty());
    assert_eq!(reason.as_deref(), Some("parse-error"));
    assert_eq!(desk.supervisor.phase(), WorkerPhase::Idle);
}

#[test]
fn scene_apply_gate_proceeds_when_the_inspector_hangs() {
    let mut desk = scene_desk();
    desk.inspection = Box::new(|| Inspection::Unavailable { reason: "timeout".into() });
    let applied = desk.apply(scene_params()).unwrap();
    assert_eq!(applied.inspection_unavailable.as_deref(), Some("timeout"));
    assert_eq!(desk.inspections, 1);
    assert_eq!(desk.supervisor.phase(), WorkerPhase::Live);
}

#[test]
fn scene_apply_gate_proceeds_with_an_unconfigured_inspector() {
    let mut desk = scene_desk();
    desk.inspection =
        Box::new(|| Inspection::Unavailable { reason: "inspector-unavailable".into() });
    let applied = desk.apply(scene_params()).unwrap();
    assert_eq!(applied.inspection_unavailable.as_deref(), Some("inspector-unavailable"));
    assert_eq!(desk.supervisor.phase(), WorkerPhase::Live);
}

#[test]
fn scene_apply_gate_runs_no_inspection_for_a_video_kind_apply() {
    let clip = item("1", "/steam/431960/1", Some("/steam/431960/1/clip.mp4"), ProjectKind::Video);
    let mut desk =
        Desk::new(stub_probe_with_switch(vec![dp1_output()]), vec![clip], fresh_store());
    desk.inspection = inventoried(&["scene.future-thing"]);
    desk.apply(apply_params("1", RendererKind::Video, None)).unwrap();
    assert_eq!(desk.inspections, 0);
}

#[test]
fn scene_apply_gate_retry_re_runs_the_gate_no_negative_caching() {
    let mut desk = scene_desk();
    desk.inspection = inventoried(&["scene.layer.image", "scene.future-thing"]);
    let error = desk.apply(scene_params()).unwrap_err();
    assert_eq!(error.code(), "apply_incompatible");
    desk.inspection = inventoried(&["scene.layer.image"]);
    let mut params = scene_params();
    params.retry = true;
    desk.apply(params).unwrap();
    assert_eq!(desk.inspections, 2);
    assert_eq!(desk.supervisor.phase(), WorkerPhase::Live);
}

#[test]
fn what_is_missing_and_what_is_tolerated() {
    let inspection = Inspection::Inventoried { required: strings(&["a", "b", "c", "d"]) };
    let error = scene_capability_gate(inspection, &names(&["a"]), &names(&["c"])).unwrap_err();
    assert_eq!(*error.extra_fields().unwrap().0, strings(&["b", "d"]));
    let inspection = Inspection::Inventoried { required: strings(&["a", "c"]) };
    let passage = scene_capability_gate(inspection, &names(&["a"]), &names(&["c"])).unwrap();
    assert_eq!(passage.limitations, strings(&["c"]));
    assert_eq!(passage.inspection_unavailable, None);
}

#[test]
fn a_report_is_read_as_what_it_means_for_the_scene() {
    let record = |outcome: &str| {
        InspectReport::Record(InspectionRecord {
            outcome: outcome.into(),
            reason: "parse-error".into(),
            required: strings(&["scene.layer.image"]),
        })
    };
    assert_eq!(
        read_inspection(record("inventoried")),
        Inspection::Inventoried { required: strings(&["scene.layer.image"]) }
    );
    assert_eq!(
        read_inspection(record("incompatible")),
        Inspection::Incompatible { reason: "parse-error".into() }
    );
    assert_eq!(
        read_inspection(record("unknown")),
        Inspection::Unavailable { reason: "parse-error".into() }
    );
    assert_eq!(
        read_inspection(InspectReport::Timeout),
        Inspection::Unavailable { reason: "timeout".into() }
    );
    assert_eq!(
        read_inspection(InspectReport::Unavailable),
        Inspection::Unavailable { reason: "inspector-unavailable".into() }
    );
}

// -- outputs ----------------------------------------------------------------

#[test]
fn wallpaper_outputs_enumerates_and_caches_for_five_seconds() {
    let mut desk = Desk::new(
        stub_probe(vec![dp1_output()], Some(DP1_PROBE_REPLY)),
        Vec::new(),
        fresh_store(),
    );
    desk.handle.outputs(10_000, || Desk::enumerate(&desk.probe)).unwrap();
    let outputs = &desk.handle.outputs_cache.entries;
    assert_eq!(outputs.len(), 1);
    assert_eq!(outputs[0].name, "DP-1");
    assert_eq!(outputs[0].screen, 0);
    assert_eq!(outputs[0].desktop_id, Some(111));
    assert_eq!(outputs[0].desktop_index, Some(1));
    assert_eq!(outputs[0].geometry, Some([0, 0, 2926, 823]));
    assert!(outputs[0].enabled);
    assert!(outputs[0].connected);
    assert_eq!(outputs[0].wallpaper_plugin.as_deref(), Some("org.kde.image"));
    assert_eq!(outputs[0].config_group, strings(&["Wallpaper", "org.kde.image", "General"]));
    assert_eq!(outputs[0].image.as_deref(), Some("file:///usr/share/wallpapers/fallback.png"));
    let before = desk.scripts().len();
    desk.handle.outputs(14_999, || Desk::enumerate(&desk.probe)).unwrap();
    assert_eq!(desk.scripts().len(), before, "cache must absorb the second call");
    assert_eq!(desk.handle.outputs_cache.entries[0].name, "DP-1");
    assert!(desk.scripts().last().unwrap().contains("screenForConnector(\"DP-1\")"));
    desk.handle.outputs(15_001, || Desk::enumerate(&desk.probe)).unwrap();
    assert_eq!(desk.scripts().len(), before + 1);
}

#[test]
fn a_failed_enumeration_is_not_remembered() {
    let mut desk = Desk::new(stub_probe(vec![dp1_output()], None), Vec::new(), fresh_store());
    let error = desk.handle.outputs(10, || Desk::enumerate(&desk.probe)).unwrap_err();
    assert_eq!(error.code(), "shell_unreachable");
    desk.probe.borrow_mut().reply = Some(DP1_PROBE_REPLY.into());
    desk.handle.outputs(11, || Desk::enumerate(&desk.probe)).unwrap();
    assert_eq!(desk.handle.outputs_cache.entries.len(), 1);
}

// -- apply ------------------------------------------------------------------

#[test]
fn apply_quarantined_names_the_reason_and_retry_clears_it() {
    let mut desk = scene_desk();
    desk.supervisor.quarantined.set(true);
    let error = desk.apply(scene_params()).unwrap_err();
    assert_eq!(error.code(), "apply_quarantined");
    let detail = error.detail().unwrap();
    assert!(detail.contains("disabled after 3 failures"), "{detail}");
    assert!(detail.contains("Zygote could not fork"), "{detail}");
    assert!(desk.switches().is_empty(), "no switch script may run for a refused start");
    let error = desk.apply(scene_params()).unwrap_err();
    assert_eq!(error.code(), "apply_quarantined");
    let mut params = scene_params();
    params.retry = true;
    let applied = desk.apply(params).unwrap();
    assert_eq!(applied.record.wallpaper_id, "1");
    let status = desk.supervisor.status();
    assert_eq!(status.phase, WorkerPhase::Live);
    assert!(!status.quarantined);
    assert_eq!(status.failures, 0);
}

#[test]
fn apply_derives_the_canvas_from_the_output_and_persists_the_scaling_mode() {
    let mut desk = scene_desk();
    let mut params = scene_params();
    params.scaling = ScalingMode::Fill;
    let applied = desk.apply(params).unwrap();
    assert_eq!(applied.record.scaling, ScalingMode::Fill);
    assert_eq!((applied.record.width, applied.record.height), (2560, 720));
    assert_eq!(desk.supervisor.phase(), WorkerPhase::Live);
    assert_eq!(desk.supervisor.started.borrow()[0].scaling, ScalingMode::Fill);
    let stored = desk.handle.stored_assignment("DP-1").unwrap();
    assert_eq!(stored.scaling, ScalingMode::Fill);
    assert_eq!(stored.width, 2560);
    let mut params = scene_params();
    params.width = Some(320);
    params.height = Some(180);
    let applied = desk.apply(params).unwrap();
    assert_eq!(applied.record.width, 320);
    assert_eq!(applied.record.scaling, ScalingMode::Aspect);
}

#[test]
fn apply_unknown_wallpaper_id_fails_closed_without_touching_the_shell() {
    let mut desk = Desk::new(
        stub_probe(vec![dp1_output()], Some(DP1_PROBE_REPLY)),
        Vec::new(),
        fresh_store(),
    );
    desk.files = strings(&["/tmp/scene.json"]);
    let error =
        desk.apply(apply_params("1", RendererKind::Scene, Some("/tmp/scene.json"))).unwrap_err();
    assert_eq!(error.code(), "apply_unknown_wallpaper");
    assert!(error.detail().unwrap().contains('1'));
    assert!(desk.scripts().is_empty());
    assert_eq!(desk.handle.assignments().len(), 0);
}

#[test]
fn apply_unknown_output_reports_output_missing() {
    let mut desk = Desk::new(
        stub_probe(vec![], Some(DP1_PROBE_REPLY)),
        scene_catalog(&["1"]),
        fresh_store(),
    );
    let error = desk.apply(apply_params("1", RendererKind::Scene, None)).unwrap_err();
    assert_eq!(error.code(), "output_missing");
}

#[test]
fn apply_incompatible_kind_reports_apply_incompatible() {
    let mut desk = scene_desk();
    desk.files = strings(&["/tmp/clip.mp4"]);
    let error =
        desk.apply(apply_params("1", RendererKind::Video, Some("/tmp/clip.mp4"))).unwrap_err();
    assert_eq!(error.code(), "apply_incompatible");
    let detail = error.detail().unwrap();
    assert!(detail.contains("scene") && detail.contains("video"), "{detail}");
    assert!(error.extra_fields().is_none());
}

#[test]
fn apply_invalid_params_are_rejected_at_the_boundary() {
    let mut desk = scene_desk();
    let error = desk.apply(apply_params("1", RendererKind::Test, None)).unwrap_err();
    assert_eq!(error.code(), "invalid_params");
    desk.files = strings(&["/tmp/x.json"]);
    let mut params = apply_params("1", RendererKind::Scene, Some("/tmp/x.json"));
    params.width = Some(0);
    params.height = Some(540);
    let error = desk.apply(params).unwrap_err();
    assert_eq!(error.code(), "invalid_params");
    assert!(desk.scripts().is_empty());
}

#[test]
fn concurrent_apply_reports_apply_busy() {
    let mut desk = scene_desk();
    desk.handle.acquire_apply_lock().unwrap();
    assert_eq!(desk.handle.acquire_apply_lock().unwrap_err().code(), "apply_busy");
    let error =
        desk.apply(apply_params("1", RendererKind::Scene, Some("/tmp/scene.json"))).unwrap_err();
    assert_eq!(error.code(), "apply_busy");
    desk.handle.release_apply_lock();
    desk.apply(scene_params()).unwrap();
    assert!(!desk.handle.applying);
}

#[test]
fn apply_promotes_persists_and_switches_the_plasma_config() {
    let mut desk = scene_desk();
    let mut params = scene_params();
    params.width = Some(320);
    params.height = Some(180);
    let applied = desk.apply(params).unwrap();
    assert_eq!(applied.output, "DP-1");
    assert_eq!(applied.record.wallpaper_id, "1");
    assert_eq!(applied.record.kind, RendererKind::Scene);
    assert_eq!(applied.record.width, 320);
    let previous = applied.record.previous.as_ref().unwrap();
    assert_eq!(previous.wallpaper_plugin, "org.kde.image");
    assert_eq!(previous.config_group, strings(&["Wallpaper", "org.kde.image", "General"]));
    assert!(applied.record.applied_at_unix_seconds > 0);
    let status = desk.supervisor.status();
    assert_eq!(status.phase, WorkerPhase::Live);
    assert_eq!(status.wallpaper_id.as_deref(), Some("1"));
    let switches = desk.switches();
    assert_eq!(
        switches,
        ["var d = desktops()[1]; if (!d) throw \"no desktop 1\"; d.wallpaperPlugin = \"org.kde.kwe.wallpaper\";"]
    );
    assert!(!switches[0].contains("scene.json"));
    let record = desk.handle.stored_assignment("DP-1").unwrap();
    assert_eq!(record.wallpaper_id, "1");
    assert_eq!(record.kind, RendererKind::Scene);
    assert_eq!(
        record.previous.unwrap().image.as_deref(),
        Some("file:///usr/share/wallpapers/fallback.png")
    );
}

#[test]
fn apply_switch_failure_rolls_back_the_transaction() {
    let mut desk = Desk::new(
        stub_probe(vec![dp1_output()], Some(DP1_PROBE_REPLY)),
        scene_catalog(&["1"]),
        fresh_store(),
    );
    desk.probe.borrow_mut().reject_scripts = true;
    let error = desk.apply(apply_params("1", RendererKind::Scene, None)).unwrap_err();
    assert_eq!(error.code(), "shell_unreachable");
    assert_eq!(desk.supervisor.phase(), WorkerPhase::Stopped);
    assert_eq!(desk.handle.assignments().len(), 0);
    assert!(desk.scripts().iter().any(|script| script.contains("wallpaperPlugin")));
}

#[test]
fn reapply_carries_the_original_previous_forward_and_rollback_restores_it() {
    let mut desk = scene_desk();
    let applied = desk.apply(scene_params()).unwrap();
    assert_eq!(
        applied.record.previous.unwrap().image.as_deref(),
        Some("file:///usr/share/wallpapers/fallback.png")
    );
    desk.probe.borrow_mut().reject_scripts = true;
    let error = desk.apply(scene_params()).unwrap_err();
    assert_eq!(error.code(), "shell_unreachable");
    let record = desk.handle.stored_assignment("DP-1").unwrap();
    assert_eq!(record.wallpaper_id, "1");
    let previous = record.previous.unwrap();
    assert_eq!(previous.wallpaper_plugin, "org.kde.image");
    assert_eq!(previous.image.as_deref(), Some("file:///usr/share/wallpapers/fallback.png"));
}

#[test]
fn apply_persist_failure_rolls_back_and_stops_the_renderer() {
    let mut store = fresh_store();
    for index in 0..MAX_ASSIGNED_OUTPUTS {
        let name = format!("Synthetic-{index}");
        store.set(&name, scene_assignment(&name, 1), encode, write).unwrap();
    }
    let mut desk = Desk::new(
        stub_probe(vec![dp1_output()], Some(DP1_PROBE_REPLY)),
        scene_catalog(&["1"]),
        store,
    );
    let error = desk.apply(apply_params("1", RendererKind::Scene, None)).unwrap_err();
    assert_eq!(error.code(), "apply_failed");
    assert!(error.detail().unwrap().contains("persist assignment failed"), "{error:?}");
    assert_eq!(desk.supervisor.phase(), WorkerPhase::Stopped);
    assert_eq!(desk.handle.assignments().len(), 16);
    assert_eq!(desk.assigned("DP-1"), None);
}

#[test]
fn apply_promotion_timeout_rolls_back_and_stops_the_renderer() {
    let mut desk = Desk::new(
        stub_probe(vec![dp1_output()], Some(DP1_PROBE_REPLY)),
        scene_catalog(&["1"]),
        fresh_store(),
    );
    desk.handle.promotion_timeout_ms = 300;
    desk.supervisor.hangs = true;
    let error = desk.apply(apply_params("1", RendererKind::Scene, None)).unwrap_err();
    assert_eq!(error.code(), "apply_failed");
    assert!(error.detail().unwrap().contains("did not promote"), "{error:?}");
    assert_eq!(desk.supervisor.phase(), WorkerPhase::Stopped);
}

#[test]
fn apply_ownership_change_fails_fast_without_stopping_the_other_renderer() {
    let mut desk = Desk::new(
        stub_probe(vec![dp1_output()], Some(DP1_PROBE_REPLY)),
        scene_catalog(&["1"]),
        fresh_store(),
    );
    desk.supervisor.foreign_at = Some(2);
    let error = desk.apply(scene_params()).unwrap_err();
    assert_eq!(error.code(), "apply_failed");
    assert!(error.detail().unwrap().contains("ownership changed"), "{error:?}");
    let status = desk.supervisor.status();
    assert_eq!(status.requested_wallpaper_id.as_deref(), Some("other"));
    assert_ne!(status.phase, WorkerPhase::Stopped);
    assert_ne!(status.phase, WorkerPhase::Idle);
    assert_eq!(desk.handle.assignments().len(), 0);
}

#[test]
fn the_owner_is_looked_at_once_more_before_anything_is_written() {
    let mut desk = scene_desk();
    // The third look finds our renderer replaced after it was promoted.
    desk.supervisor.foreign_at = Some(3);
    let error = desk.apply(scene_params()).unwrap_err();
    assert!(error.detail().unwrap().contains("ownership changed"), "{error:?}");
    assert!(desk.switches().is_empty());
    assert_eq!(desk.handle.assignments().len(), 0);
}

#[test]
fn apply_content_mismatch_is_rejected_before_the_shell_is_touched() {
    let mut desk = scene_desk();
    desk.files = strings(&["/tmp/scene.json"]);
    let error =
        desk.apply(apply_params("1", RendererKind::Scene, Some("/tmp/scene.json"))).unwrap_err();
    assert_eq!(error.code(), "invalid_params");
    assert!(error.detail().unwrap().contains("does not match the catalog"), "{error:?}");
    assert!(desk.scripts().is_empty());
}

#[test]
fn apply_content_path_is_bounded_at_the_params_boundary() {
    let mut desk = scene_desk();
    let oversized = format!("/tmp/{}", "x".repeat(4096));
    let error = desk.apply(apply_params("1", RendererKind::Scene, Some(&oversized))).unwrap_err();
    assert_eq!(error.code(), "invalid_params");
    assert!(error.detail().unwrap().contains("characters"), "{error:?}");
}

#[test]
fn a_switch_that_does_not_take_is_rolled_back() {
    let mut desk = Desk::new(
        stub_probe(vec![dp1_output()], Some(DP1_PROBE_REPLY)),
        scene_catalog(&["1"]),
        fresh_store(),
    );
    let error = desk.apply(scene_params()).unwrap_err();
    assert_eq!(error.code(), "apply_failed");
    assert!(error.detail().unwrap().contains("org.kde.image"), "{error:?}");
    assert_eq!(desk.supervisor.phase(), WorkerPhase::Stopped);
    assert_eq!(desk.handle.assignments().len(), 0);
}

// -- restore ----------------------------------------------------------------

#[test]
fn restore_without_assignment_falls_back_to_the_stock_image() {
    for stock in [Some("/usr/share/wallpapers/stock.png".to_string()), None] {
        let mut desk = Desk::new(
            stub_probe(vec![dp1_output()], Some(DP1_PROBE_REPLY)),
            Vec::new(),
            fresh_store(),
        );
        let restore = desk.restore(stock.clone()).unwrap();
        assert_eq!(restore.target.mode, "stock");
        assert_eq!(restore.target.wallpaper_plugin, "org.kde.image");
        let script = desk.switches().pop().unwrap();
        match stock {
            Some(stock) => {
                assert!(script.contains(&format!("d.writeConfig(\"Image\", \"{stock}\")")));
            }
            None => assert!(!script.contains("writeConfig"), "{script}"),
        }
        assert!(script.ends_with("d.wallpaperPlugin = \"org.kde.image\";"));
        assert!(!script.contains("kwe.wallpaper"));
    }
}

#[test]
fn the_stock_image_is_the_first_that_is_there() {
    let any = stock_image_path(|_: &str| true).unwrap();
    assert!(any.starts_with("/usr/share/"), "unexpected stock image: {any}");
    let second = stock_image_path(|path: &str| path != any.as_str());
    assert!(second.is_some() && second != Some(any));
    assert_eq!(stock_image_path(|_: &str| false), None);
}

#[test]
fn restore_with_stored_assignment_reverts_and_clears_it() {
    let mut record = scene_assignment("1", 42);
    record.previous = Some(image_wallpaper("file:///usr/share/wallpapers/old.png"));
    let mut desk = Desk::new(
        stub_probe(vec![dp1_output()], Some(DP1_PROBE_REPLY)),
        Vec::new(),
        store_with(vec![("DP-1", record)]),
    );
    let restore = desk.restore(None).unwrap();
    assert_eq!(restore.target.mode, "assignment");
    assert_eq!(
        restore.target.image.as_deref(),
        Some("file:///usr/share/wallpapers/old.png")
    );
    let script = desk.switches().pop().unwrap();
    assert!(
        script.contains("d.writeConfig(\"Image\", \"file:///usr/share/wallpapers/old.png\")"),
        "{script}"
    );
    assert_eq!(desk.handle.assignments().len(), 0);
}

#[test]
fn restore_unknown_output_reports_output_missing() {
    let mut desk =
        Desk::new(stub_probe(vec![], Some(DP1_PROBE_REPLY)), Vec::new(), fresh_store());
    let error = desk.restore(None).err().unwrap();
    assert_eq!(error.code(), "output_missing");
}

#[test]
fn a_restore_that_does_not_take_keeps_the_record() {
    let mut desk = Desk::new(
        stub_probe(vec![dp1_output()], Some(KWE_PROBE_REPLY)),
        Vec::new(),
        store_with(vec![("DP-1", sample_assignment())]),
    );
    let error = desk.restore(None).err().unwrap();
    assert_eq!(error.code(), "restore_failed");
    assert_eq!(desk.assigned("DP-1").as_deref(), Some("431960-123"));
    desk.probe.borrow_mut().reject_scripts = true;
    let error = desk.restore(None).err().unwrap();
    assert_eq!(error.code(), "shell_unreachable");
    assert_eq!(desk.assigned("DP-1").as_deref(), Some("431960-123"));
}

// -- playlists --------------------------------------------------------------

#[test]
fn playlist_output_resolution_falls_through_when_the_stored_output_is_stale() {
    let store = store_with(vec![("DP-1", scene_assignment("1", 1))]);
    let dp2 = SystemOutput {
        name: "DP-2".into(),
        enabled: true,
        connected: true,
        geometry: Some([0, 0, 1920, 1080]),
    };
    let probe = RefCell::new(stub_probe(
        vec![dp2],
        Some(r#"{"desktops":[{"index":1,"id":112,"screen":0,"wp":"org.kde.image","image":null}],"connectors":{"DP-2":0}}"#),
    ));
    let entries = names(&["1", "2", "3"]);
    let resolved =
        resolve_playlist_output(None, &store, &entries, || Desk::enumerate(&probe)).unwrap();
    assert_eq!(resolved, "DP-2");
    // A named output is taken as it is.
    let named =
        resolve_playlist_output(Some("DP-9"), &store, &entries, || Desk::enumerate(&probe)).unwrap();
    assert_eq!(named, "DP-9");
}

#[test]
fn the_output_that_was_assigned_last_is_preferred() {
    let store = store_with(vec![
        ("DP-1", scene_assignment("1", 5)),
        ("DP-2", scene_assignment("2", 9)),
        ("DP-3", scene_assignment("3", 9)),
        ("DP-4", scene_assignment("elsewhere", 99)),
    ]);
    let entries = names(&["1", "2", "3"]);
    assert_eq!(last_assigned_output(&store, &entries).as_deref(), Some("DP-2"));
    assert_eq!(last_assigned_output(&store, &names(&["4"])), None);
}

#[test]
fn playlist_lane_yields_to_a_live_foreign_renderer_after_the_lock() {
    let mut desk = scene_desk();
    let mut params =
        apply_params("2", RendererKind::Scene, Some("/steam/431960/2/scene.json"));
    params.width = Some(320);
    params.height = Some(180);
    desk.apply(params).unwrap();
    let entries = names(&["1", "2", "3"]);
    let result = desk.apply_playlist("1", &entries, None);
    assert!(matches!(result, Err(ApplyError::Yielded(_))), "{result:?}");
    let status = desk.supervisor.status();
    assert_eq!(status.requested_wallpaper_id.as_deref(), Some("2"));
    assert_eq!(desk.switches().len(), 1);
    // The playlist's own renderer is displaced.
    let applied = desk.apply_playlist("1", &entries, Some("2")).unwrap();
    assert_eq!(applied.output, "DP-1");
    assert_eq!(applied.record.wallpaper_id, "1");
    assert_eq!((applied.record.width, applied.record.height), (2560, 720));
    assert_eq!(desk.switches().len(), 2);
}
