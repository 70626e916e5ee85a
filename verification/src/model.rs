//! The vocabulary that the daemon's parts share: renderers, projects, and what
//! a renderer is started with.

use vstd::prelude::*;

use crate::text;

verus! {

/// The renderers that the daemon supervises.
#[derive(Debug, Clone, Copy, PartialEq, Eq, Structural)]
pub enum RendererKind {
    Test,
    Video,
    Web,
    Scene,
}

impl RendererKind {
    pub open spec fn name(self) -> Seq<char> {
        match self {
            RendererKind::Test => "test"@,
            RendererKind::Video => "video"@,
            RendererKind::Web => "web"@,
            RendererKind::Scene => "scene"@,
        }
    }

    /// The name on the wire.
    pub fn as_str(self) -> (name: &'static str)
        ensures
            name@ == self.name(),
    {
        match self {
            RendererKind::Test => "test",
            RendererKind::Video => "video",
            RendererKind::Web => "web",
            RendererKind::Scene => "scene",
        }
    }
}

/// How the picture maps onto the output.
#[derive(Debug, Clone, Copy, PartialEq, Eq, Structural)]
pub enum ScalingMode {
    Aspect,
    Fill,
    Stretch,
}

impl Default for ScalingMode {
    fn default() -> (mode: Self)
        ensures
            mode == ScalingMode::Aspect,
    {
        ScalingMode::Aspect
    }
}

/// What a catalog item is.
#[derive(Debug, Clone, Copy, PartialEq, Eq, Structural)]
pub enum ProjectKind {
    Scene,
    Video,
    Web,
    Unknown,
    Invalid,
}

impl ProjectKind {
    pub open spec fn name(self) -> Seq<char> {
        match self {
            ProjectKind::Scene => "scene"@,
            ProjectKind::Video => "video"@,
            ProjectKind::Web => "web"@,
            ProjectKind::Unknown => "unknown"@,
            ProjectKind::Invalid => "invalid"@,
        }
    }

    /// The renderer that runs such a project.
    pub open spec fn renderer(self) -> Option<RendererKind> {
        match self {
            ProjectKind::Scene => Some(RendererKind::Scene),
            ProjectKind::Video => Some(RendererKind::Video),
            ProjectKind::Web => Some(RendererKind::Web),
            ProjectKind::Unknown => None,
            ProjectKind::Invalid => None,
        }
    }
}

/// The name of a project kind in lower case.
pub fn project_kind_name(kind: &ProjectKind) -> (name: String)
    ensures
        name@ == kind.name(),
{
    match kind {
        ProjectKind::Scene => "scene".to_owned(),
        ProjectKind::Video => "video".to_owned(),
        ProjectKind::Web => "web".to_owned(),
        ProjectKind::Unknown => "unknown".to_owned(),
        ProjectKind::Invalid => "invalid".to_owned(),
    }
}

/// What the daemon reads of a catalog item. Paths are text.
#[derive(Debug, Clone, PartialEq, Eq)]
pub struct CatalogItem {
    pub workshop_id: String,
    pub kind: ProjectKind,
    pub content_root: String,
    pub entry_file: Option<String>,
    pub metadata_hash: Option<String>,
    pub workshop_state: String,
}

/// The renderer that runs a catalog item.
pub fn renderer_kind_for(item: &CatalogItem) -> (kind: Option<RendererKind>)
    ensures
        kind == item.kind.renderer(),
{
    match item.kind {
        ProjectKind::Scene => Some(RendererKind::Scene),
        ProjectKind::Video => Some(RendererKind::Video),
        ProjectKind::Web => Some(RendererKind::Web),
        ProjectKind::Unknown => None,
        ProjectKind::Invalid => None,
    }
}

/// The states in which an item's content is on disk.
pub open spec fn installed(workshop_state: Seq<char>) -> bool {
    workshop_state == "local"@ || workshop_state == "subscribed_installed"@
}

/// An item that can be applied or played.
pub open spec fn playable(item: CatalogItem) -> bool {
    item.kind != ProjectKind::Invalid && item.kind != ProjectKind::Unknown && installed(
        item.workshop_state@,
    )
}

/// Whether an item can be applied or played.
pub fn is_playable(item: &CatalogItem) -> (yes: bool)
    ensures
        yes == playable(*item),
{
    item.kind != ProjectKind::Invalid && item.kind != ProjectKind::Unknown && (text::same(
        item.workshop_state.as_str(),
        "local",
    ) || text::same(item.workshop_state.as_str(), "subscribed_installed"))
}

/// The content that a renderer runs.
#[derive(Debug, Clone, PartialEq, Eq)]
pub enum ContentSpec {
    Video { path: String },
    Web { root: String },
    Scene { path: String },
}

impl ContentSpec {
    pub open spec fn kind(self) -> RendererKind {
        match self {
            ContentSpec::Video { path } => RendererKind::Video,
            ContentSpec::Web { root } => RendererKind::Web,
            ContentSpec::Scene { path } => RendererKind::Scene,
        }
    }

    /// The path of the content.
    pub open spec fn location(self) -> Seq<char> {
        match self {
            ContentSpec::Video { path } => path@,
            ContentSpec::Web { root } => root@,
            ContentSpec::Scene { path } => path@,
        }
    }
}

/// What a renderer is started with.
#[derive(Debug, Clone, PartialEq, Eq)]
pub struct StartSpec {
    pub wallpaper_id: String,
    pub content_hash: String,
    pub width: u32,
    pub height: u32,
    pub fps: u32,
    pub kind: RendererKind,
    pub content: Option<ContentSpec>,
    pub scaling: ScalingMode,
    /// The capabilities that the content asks for and does without.
    pub capability_limitations: Vec<String>,
}

/// Where a supervised renderer stands.
#[derive(Debug, Clone, Copy, PartialEq, Eq, Structural)]
pub enum WorkerPhase {
    Idle,
    Starting,
    Canary,
    Live,
    Restarting,
    AwaitingAck,
    RolledBack,
    Stopped,
    Quarantined,
}

impl WorkerPhase {
    pub open spec fn name(self) -> Seq<char> {
        match self {
            WorkerPhase::Idle => "idle"@,
            WorkerPhase::Starting => "starting"@,
            WorkerPhase::Canary => "canary"@,
            WorkerPhase::Live => "live"@,
            WorkerPhase::Restarting => "restarting"@,
            WorkerPhase::AwaitingAck => "awaiting_ack"@,
            WorkerPhase::RolledBack => "rolled_back"@,
            WorkerPhase::Stopped => "stopped"@,
            WorkerPhase::Quarantined => "quarantined"@,
        }
    }
}

/// The name of a phase.
pub fn phase_name(phase: &WorkerPhase) -> (name: &'static str)
    ensures
        name@ == phase.name(),
{
    match phase {
        WorkerPhase::Idle => "idle",
        WorkerPhase::Starting => "starting",
        WorkerPhase::Canary => "canary",
        WorkerPhase::Live => "live",
        WorkerPhase::Restarting => "restarting",
        WorkerPhase::AwaitingAck => "awaiting_ack",
        WorkerPhase::RolledBack => "rolled_back",
        WorkerPhase::Stopped => "stopped",
        WorkerPhase::Quarantined => "quarantined",
    }
}

/// What the daemon reads of the supervisor's status.
#[derive(Debug, Clone, PartialEq, Eq)]
pub struct WorkerStatus {
    pub phase: WorkerPhase,
    /// What is on screen.
    pub wallpaper_id: Option<String>,
    /// What was asked for last.
    pub requested_wallpaper_id: Option<String>,
    pub requested_content_hash: Option<String>,
    pub last_failure_detail: Option<String>,
    pub quarantined: bool,
    pub failures: u32,
}

} // verus!
