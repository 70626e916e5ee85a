//! The daemon's settings: their defaults and bounds, what each renderer may
//! use, and where things are found.

use vstd::prelude::*;

use crate::apply;
use crate::apply::join_path;
use crate::model::RendererKind;

verus! {

// ---------------------------------------------------------------------------
// Renderers
// ---------------------------------------------------------------------------

/// What a renderer process may use at most.
#[derive(Debug, Clone, Copy, PartialEq, Eq, Structural)]
pub struct RendererResourceLimits {
    pub address_space_mib: u64,
    pub file_size_mib: u64,
    pub open_files: u64,
    pub processes: u64,
    pub core_dump_bytes: u64,
}

/// One value for each kind of renderer.
#[derive(Debug, Clone, Copy, PartialEq, Eq, Structural)]
pub struct ByKind<T> {
    pub test: T,
    pub video: T,
    pub web: T,
    pub scene: T,
}

impl<T: Copy> ByKind<T> {
    pub open spec fn at(self, kind: RendererKind) -> T {
        match kind {
            RendererKind::Test => self.test,
            RendererKind::Video => self.video,
            RendererKind::Web => self.web,
            RendererKind::Scene => self.scene,
        }
    }

    /// The value for one kind.
    pub fn of(&self, kind: RendererKind) -> (value: T)
        ensures
            value == self.at(kind),
    {
        match kind {
            RendererKind::Test => self.test,
            RendererKind::Video => self.video,
            RendererKind::Web => self.web,
            RendererKind::Scene => self.scene,
        }
    }
}

/// The ceilings of each kind. The test renderer has the general ones.
pub fn resource_limits_for_kinds(
    global: RendererResourceLimits,
    video: RendererResourceLimits,
    web: RendererResourceLimits,
    scene: RendererResourceLimits,
) -> (limits: ByKind<RendererResourceLimits>)
    ensures
        limits.at(RendererKind::Test) == global,
        limits.at(RendererKind::Video) == video,
        limits.at(RendererKind::Web) == web,
        limits.at(RendererKind::Scene) == scene,
{
    ByKind { test: global, video, web, scene }
}

/// What can be set about the renderers. Times are milliseconds.
#[derive(Debug, Clone, Copy, PartialEq, Eq, Structural)]
pub struct RendererSettings {
    pub renderer_startup_timeout_ms: u64,
    pub renderer_video_startup_timeout_ms: u64,
    pub renderer_scene_startup_timeout_ms: u64,
    pub renderer_web_startup_timeout_ms: u64,
    pub renderer_frame_timeout_ms: u64,
    pub renderer_stop_grace_ms: u64,
    pub renderer_restart_delay_ms: u64,
    pub renderer_canary_ms: u64,
    pub renderer_handoff_timeout_ms: u64,
    pub renderer_max_failures: u32,
    pub renderer_address_space_mib: u64,
    pub renderer_open_files: u64,
    pub renderer_web_address_space_mib: u64,
    pub renderer_web_open_files: u64,
    pub renderer_processes: u64,
    pub renderer_video_processes: u64,
    pub renderer_web_processes: u64,
    pub renderer_scene_processes: u64,
    pub renderer_web_heartbeat_ms: u64,
    pub renderer_web_heartbeat_max_failures: u32,
}

/// The largest file that a renderer may write.
pub const RENDERER_FILE_SIZE_MIB: u64 = 160;

/// The settings of a daemon that is told nothing. The kernel counts every
/// thread of the user against the process ceiling, so the kinds that start
/// many get the whole range.
pub open spec fn default_settings() -> RendererSettings {
    RendererSettings {
        renderer_startup_timeout_ms: 3000,
        renderer_video_startup_timeout_ms: 6000,
        renderer_scene_startup_timeout_ms: 6000,
        renderer_web_startup_timeout_ms: 10000,
        renderer_frame_timeout_ms: 2000,
        renderer_stop_grace_ms: 500,
        renderer_restart_delay_ms: 250,
        renderer_canary_ms: 1000,
        renderer_handoff_timeout_ms: 5000,
        renderer_max_failures: 3,
        renderer_address_space_mib: 4096,
        renderer_open_files: 256,
        renderer_web_address_space_mib: 131072,
        renderer_web_open_files: 1024,
        renderer_processes: 1024,
        renderer_video_processes: 32768,
        renderer_web_processes: 32768,
        renderer_scene_processes: 32768,
        renderer_web_heartbeat_ms: 5000,
        renderer_web_heartbeat_max_failures: 3,
    }
}

impl Default for RendererSettings {
    fn default() -> (settings: Self)
        ensures
            settings == default_settings(),
            settings.within_bounds(),
    {
        RendererSettings {
            renderer_startup_timeout_ms: 3000,
            renderer_video_startup_timeout_ms: 6000,
            renderer_scene_startup_timeout_ms: 6000,
            renderer_web_startup_timeout_ms: 10000,
            renderer_frame_timeout_ms: 2000,
            renderer_stop_grace_ms: 500,
            renderer_restart_delay_ms: 250,
            renderer_canary_ms: 1000,
            renderer_handoff_timeout_ms: 5000,
            renderer_max_failures: 3,
            renderer_address_space_mib: 4096,
            renderer_open_files: 256,
            renderer_web_address_space_mib: 131072,
            renderer_web_open_files: 1024,
            renderer_processes: 1024,
            renderer_video_processes: 32768,
            renderer_web_processes: 32768,
            renderer_scene_processes: 32768,
            renderer_web_heartbeat_ms: 5000,
            renderer_web_heartbeat_max_failures: 3,
        }
    }
}

impl RendererSettings {
    /// What may be set.
    pub open spec fn within_bounds(self) -> bool {
        &&& 100 <= self.renderer_startup_timeout_ms <= 30000
        &&& 100 <= self.renderer_video_startup_timeout_ms <= 30000
        &&& 100 <= self.renderer_scene_startup_timeout_ms <= 30000
        &&& 100 <= self.renderer_web_startup_timeout_ms <= 30000
        &&& 100 <= self.renderer_frame_timeout_ms <= 30000
        &&& 20 <= self.renderer_stop_grace_ms <= 5000
        &&& self.renderer_restart_delay_ms <= 10000
        &&& 100 <= self.renderer_canary_ms <= 30000
        &&& 100 <= self.renderer_handoff_timeout_ms <= 30000
        &&& 1 <= self.renderer_max_failures <= 10
        &&& 256 <= self.renderer_address_space_mib <= 65536
        &&& 32 <= self.renderer_open_files <= 4096
        &&& 256 <= self.renderer_web_address_space_mib <= 262144
        &&& 32 <= self.renderer_web_open_files <= 4096
        &&& 64 <= self.renderer_processes <= 32768
        &&& 64 <= self.renderer_video_processes <= 32768
        &&& 64 <= self.renderer_web_processes <= 32768
        &&& 64 <= self.renderer_scene_processes <= 32768
        &&& 250 <= self.renderer_web_heartbeat_ms <= 60000
        &&& 1 <= self.renderer_web_heartbeat_max_failures <= 10
    }

    /// Whether every setting is within its bounds.
    pub fn is_within_bounds(&self) -> (yes: bool)
        ensures
            yes == self.within_bounds(),
    {
        between(self.renderer_startup_timeout_ms, 100, 30000) && between(
            self.renderer_video_startup_timeout_ms,
            100,
            30000,
        ) && between(self.renderer_scene_startup_timeout_ms, 100, 30000) && between(
            self.renderer_web_startup_timeout_ms,
            100,
            30000,
        ) && between(self.renderer_frame_timeout_ms, 100, 30000) && between(
            self.renderer_stop_grace_ms,
            20,
            5000,
        ) && between(self.renderer_restart_delay_ms, 0, 10000) && between(
            self.renderer_canary_ms,
            100,
            30000,
        ) && between(self.renderer_handoff_timeout_ms, 100, 30000) && between(
            self.renderer_max_failures as u64,
            1,
            10,
        ) && between(self.renderer_address_space_mib, 256, 65536) && between(
            self.renderer_open_files,
            32,
            4096,
        ) && between(self.renderer_web_address_space_mib, 256, 262144) && between(
            self.renderer_web_open_files,
            32,
            4096,
        ) && between(self.renderer_processes, 64, 32768) && between(
            self.renderer_video_processes,
            64,
            32768,
        ) && between(self.renderer_web_processes, 64, 32768) && between(
            self.renderer_scene_processes,
            64,
            32768,
        ) && between(self.renderer_web_heartbeat_ms, 250, 60000) && between(
            self.renderer_web_heartbeat_max_failures as u64,
            1,
            10,
        )
    }

    /// The ceilings that the settings give each kind of renderer.
    pub fn resource_limits(&self) -> (limits: ByKind<RendererResourceLimits>)
        ensures
            limits.at(RendererKind::Test) == (RendererResourceLimits {
                address_space_mib: self.renderer_address_space_mib,
                file_size_mib: RENDERER_FILE_SIZE_MIB,
                open_files: self.renderer_open_files,
                processes: self.renderer_processes,
                core_dump_bytes: 0,
            }),
            limits.at(RendererKind::Video) == (RendererResourceLimits {
                processes: self.renderer_video_processes,
                ..limits.at(RendererKind::Test)
            }),
            limits.at(RendererKind::Web) == (RendererResourceLimits {
                address_space_mib: self.renderer_web_address_space_mib,
                open_files: self.renderer_web_open_files,
                processes: self.renderer_web_processes,
                ..limits.at(RendererKind::Test)
            }),
            limits.at(RendererKind::Scene) == (RendererResourceLimits {
                processes: self.renderer_scene_processes,
                ..limits.at(RendererKind::Test)
            }),
    {
        let global = RendererResourceLimits {
            address_space_mib: self.renderer_address_space_mib,
            file_size_mib: RENDERER_FILE_SIZE_MIB,
            open_files: self.renderer_open_files,
            processes: self.renderer_processes,
            core_dump_bytes: 0,
        };
        let video = RendererResourceLimits { processes: self.renderer_video_processes, ..global };
        let web = RendererResourceLimits {
            address_space_mib: self.renderer_web_address_space_mib,
            open_files: self.renderer_web_open_files,
            processes: self.renderer_web_processes,
            ..global
        };
        let scene = RendererResourceLimits { processes: self.renderer_scene_processes, ..global };
        resource_limits_for_kinds(global, video, web, scene)
    }

    /// How long each kind of renderer may take to start.
    pub fn startup_timeouts(&self) -> (timeouts: ByKind<u64>)
        ensures
            timeouts.at(RendererKind::Test) == self.renderer_startup_timeout_ms,
            timeouts.at(RendererKind::Video) == self.renderer_video_startup_timeout_ms,
            timeouts.at(RendererKind::Web) == self.renderer_web_startup_timeout_ms,
            timeouts.at(RendererKind::Scene) == self.renderer_scene_startup_timeout_ms,
    {
        ByKind {
            test: self.renderer_startup_timeout_ms,
            video: self.renderer_video_startup_timeout_ms,
            web: self.renderer_web_startup_timeout_ms,
            scene: self.renderer_scene_startup_timeout_ms,
        }
    }
}

fn between(value: u64, least: u64, most: u64) -> (yes: bool)
    ensures
        yes == (least <= value <= most),
{
    least <= value && value <= most
}

/// The width of a renderer that is started without one.
pub fn default_width() -> (width: u32)
    ensures
        width == 960,
{
    960
}

/// The height of a renderer that is started without one.
pub fn default_height() -> (height: u32)
    ensures
        height == 540,
{
    540
}

/// The frame rate of a renderer that is started without one.
pub fn default_fps() -> (fps: u32)
    ensures
        fps == 30,
{
    30
}

/// The kind of a renderer that is started without one.
pub fn default_kind() -> (kind: RendererKind)
    ensures
        kind == RendererKind::Test,
{
    RendererKind::Test
}

// ---------------------------------------------------------------------------
// Places
// ---------------------------------------------------------------------------

/// The socket under the user's runtime directory.
pub fn default_socket_path(xdg_runtime_dir: Option<String>) -> (socket: Result<String, String>)
    ensures
        match (xdg_runtime_dir, socket) {
            (Some(runtime), Ok(path)) => path@ == apply::joined(runtime@, "kwe/daemon-v1.sock"@),
            (None, Err(error)) => error@ == "XDG_RUNTIME_DIR is not set; pass --socket"@,
            _ => false,
        },
{
    match xdg_runtime_dir {
        Some(runtime) => Ok(join_path(runtime.as_str(), "kwe/daemon-v1.sock")),
        None => Err("XDG_RUNTIME_DIR is not set; pass --socket".to_owned()),
    }
}

/// The state directory: under the user's state directory if one is set, and
/// else under the home directory.
pub fn default_state_dir(xdg_state_home: Option<String>, home: Option<String>) -> (directory:
    Result<String, String>)
    ensures
        match (xdg_state_home, home, directory) {
            (Some(state), _, Ok(path)) => path@ == apply::joined(state@, "kwe"@),
            (None, Some(home), Ok(path)) => path@ == apply::joined(home@, ".local/state/kwe"@),
            (None, None, Err(error)) => error@ == "HOME is not set; pass --state-dir"@,
            _ => false,
        },
{
    match xdg_state_home {
        Some(state) => Ok(join_path(state.as_str(), "kwe")),
        None => match home {
            Some(home) => Ok(join_path(home.as_str(), ".local/state/kwe")),
            None => Err("HOME is not set; pass --state-dir".to_owned()),
        },
    }
}

/// The name of a renderer's binary.
pub open spec fn renderer_binary(kind: RendererKind) -> Seq<char> {
    match kind {
        RendererKind::Test => "kwe-test-renderer"@,
        RendererKind::Video => "kwe-video-renderer"@,
        RendererKind::Web => "kwe-web-renderer"@,
        RendererKind::Scene => "kwe-scene-renderer"@,
    }
}

/// A renderer's binary beside the daemon.
pub fn default_renderer_path(directory: &str, kind: RendererKind) -> (path: String)
    ensures
        path@ == apply::joined(directory@, renderer_binary(kind)),
{
    match kind {
        RendererKind::Test => join_path(directory, "kwe-test-renderer"),
        RendererKind::Video => join_path(directory, "kwe-video-renderer"),
        RendererKind::Web => join_path(directory, "kwe-web-renderer"),
        RendererKind::Scene => join_path(directory, "kwe-scene-renderer"),
    }
}

/// The audio worker's binary beside the daemon.
pub fn default_audio_worker_path(directory: &str) -> (path: String)
    ensures
        path@ == apply::joined(directory@, "kwe-audio-worker"@),
{
    join_path(directory, "kwe-audio-worker")
}

/// The scene inspector's binary beside the daemon. A daemon that does not know
/// where it is has none.
pub fn default_inspector_path(directory: Option<&str>) -> (path: Option<String>)
    ensures
        match (directory, path) {
            (Some(directory), Some(path)) => path@ == apply::joined(
                directory@,
                "kwe-scene-inspector"@,
            ),
            (None, None) => true,
            _ => false,
        },
{
    match directory {
        Some(directory) => Some(join_path(directory, "kwe-scene-inspector")),
        None => None,
    }
}

/// The assets of the scenes: what was named if it is a directory, nothing if
/// it is not, and what was found if nothing was named.
pub fn choose_assets_dir(
    named: Option<String>,
    named_is_dir: bool,
    found: Option<String>,
) -> (directory: Option<String>)
    ensures
        directory == (match named {
            Some(path) => if named_is_dir {
                Some(path)
            } else {
                None
            },
            None => found,
        }),
{
    match named {
        Some(path) => if named_is_dir {
            Some(path)
        } else {
            None
        },
        None => found,
    }
}

/// What stands where the socket is to be.
#[derive(Debug, Clone, Copy, PartialEq, Eq, Structural)]
pub enum SocketPlace {
    Free,
    /// Something that is not a socket.
    Occupied,
    /// A socket that somebody answers on.
    InUse,
    /// A socket that nobody answers on.
    Abandoned,
}

/// Whether what stands where the socket is to be is to be removed, or why the
/// daemon does not start.
pub fn claim_socket(place: SocketPlace, path: &str) -> (remove: Result<bool, String>)
    ensures
        match place {
            SocketPlace::Free => remove == Ok::<bool, String>(false),
            SocketPlace::Abandoned => remove == Ok::<bool, String>(true),
            SocketPlace::Occupied => remove matches Err(error) && error@
                == "refusing to replace non-socket path "@ + path@,
            SocketPlace::InUse => remove matches Err(error) && error@
                == "another daemon is already listening at "@ + path@,
        },
{
    match place {
        SocketPlace::Free => Ok(false),
        SocketPlace::Abandoned => Ok(true),
        SocketPlace::Occupied => Err(
            "refusing to replace non-socket path ".to_owned().concat(path),
        ),
        SocketPlace::InUse => Err(
            "another daemon is already listening at ".to_owned().concat(path),
        ),
    }
}

/// The socket's directory has to be a real one.
pub fn validate_socket_parent(is_symlink: bool, is_dir: bool) -> (valid: Result<(), String>)
    ensures
        match valid {
            Ok(_) => !is_symlink && is_dir,
            Err(error) => (is_symlink || !is_dir) && error@
                == "socket parent must be a real directory"@,
        },
{
    if is_symlink || !is_dir {
        Err("socket parent must be a real directory".to_owned())
    } else {
        Ok(())
    }
}

} // verus!
