//! Requests: which method is called with what, and what it is answered.

use vstd::prelude::*;

use crate::apply::ApplyError;
use crate::assignments::copy_strings;
use crate::grants::GrantPatch;
use crate::identity;
use crate::identity::validate_identity_part;
use crate::model;
use crate::model::{CatalogItem, ContentSpec, ProjectKind, RendererKind, ScalingMode, StartSpec};
use crate::names::NameMap;
use crate::playlist_session::SessionError;
use crate::probe;
use crate::text;
use crate::text::same;

verus! {

/// The version of the protocol.
pub const API_VERSION: u32 = 1;

// ---------------------------------------------------------------------------
// Faults
// ---------------------------------------------------------------------------

/// What a request that fails is answered.
#[derive(Debug)]
pub struct Fault {
    pub code: String,
    pub detail: Option<String>,
    /// The version that is spoken, where another one was asked for.
    pub supported: Option<u32>,
    /// What a capability refusal says besides its detail.
    pub refusal: Option<Refusal>,
}

/// What is missing, and what the inspector said.
#[derive(Debug)]
pub struct Refusal {
    pub missing: Vec<String>,
    pub inspection_reason: Option<String>,
}

/// The same, apart from its representation.
#[verifier::ext_equal]
pub struct FaultView {
    pub code: Seq<char>,
    pub detail: Option<Seq<char>>,
    pub supported: Option<u32>,
    pub refusal: Option<(Seq<Seq<char>>, Option<Seq<char>>)>,
}

impl View for Fault {
    type V = FaultView;

    open spec fn view(&self) -> FaultView {
        FaultView {
            code: self.code@,
            detail: probe::option_view(self.detail),
            supported: self.supported,
            refusal: match self.refusal {
                Some(refusal) => Some(
                    (
                        text::views(refusal.missing@),
                        probe::option_view(refusal.inspection_reason),
                    ),
                ),
                None => None,
            },
        }
    }
}

/// A fault with a code alone.
pub open spec fn bare(code: Seq<char>) -> FaultView {
    FaultView { code, detail: None, supported: None, refusal: None }
}

/// A fault with a code and a detail.
pub open spec fn detailed(code: Seq<char>, detail: Seq<char>) -> FaultView {
    FaultView { code, detail: Some(detail), supported: None, refusal: None }
}

fn bare_fault(code: &str) -> (fault: Fault)
    ensures
        fault@ == bare(code@),
{
    Fault { code: code.to_owned(), detail: None, supported: None, refusal: None }
}

fn detailed_fault(code: &str, detail: String) -> (fault: Fault)
    ensures
        fault@ == detailed(code@, detail@),
{
    Fault { code: code.to_owned(), detail: Some(detail), supported: None, refusal: None }
}

/// What parameters that do not fit are answered.
pub fn invalid_params(detail: String) -> (fault: Fault)
    ensures
        fault@ == detailed("invalid_params"@, detail@),
{
    detailed_fault("invalid_params", detail)
}

// ---------------------------------------------------------------------------
// Methods
// ---------------------------------------------------------------------------

/// What can be asked for.
#[derive(Debug, Clone, Copy, PartialEq, Eq, Structural)]
pub enum Method {
    Health,
    Catalog,
    Rescan,
    PlaylistList,
    PlaylistPut,
    PlaylistRemove,
    PlaylistActivate,
    PlaylistStatus,
    PlaylistImport,
    PlaylistDebugClockSkip,
    RendererStatus,
    RendererStop,
    RendererAck,
    RendererInput,
    RendererStart,
    RendererRetry,
    AudioForward,
    AudioStatus,
    PermissionsGet,
    PermissionsSet,
    PermissionsList,
    MediaState,
    WallpaperOutputs,
    WallpaperApply,
    WallpaperRestore,
    WallpaperAssignments,
    SceneInspect,
}

impl Method {
    /// The name on the wire.
    pub open spec fn name(self) -> Seq<char> {
        match self {
            Method::Health => "health"@,
            Method::Catalog => "catalog"@,
            Method::Rescan => "rescan"@,
            Method::PlaylistList => "playlist.list"@,
            Method::PlaylistPut => "playlist.put"@,
            Method::PlaylistRemove => "playlist.remove"@,
            Method::PlaylistActivate => "playlist.activate"@,
            Method::PlaylistStatus => "playlist.status"@,
            Method::PlaylistImport => "playlist.import"@,
            Method::PlaylistDebugClockSkip => "playlist.debug-clock-skip"@,
            Method::RendererStatus => "renderer.status"@,
            Method::RendererStop => "renderer.stop"@,
            Method::RendererAck => "renderer.ack"@,
            Method::RendererInput => "renderer.input"@,
            Method::RendererStart => "renderer.start"@,
            Method::RendererRetry => "renderer.retry"@,
            Method::AudioForward => "audio.forward"@,
            Method::AudioStatus => "audio.status"@,
            Method::PermissionsGet => "permissions.get"@,
            Method::PermissionsSet => "permissions.set"@,
            Method::PermissionsList => "permissions.list"@,
            Method::MediaState => "media.state"@,
            Method::WallpaperOutputs => "wallpaper.outputs"@,
            Method::WallpaperApply => "wallpaper.apply"@,
            Method::WallpaperRestore => "wallpaper.restore"@,
            Method::WallpaperAssignments => "wallpaper.assignments"@,
            Method::SceneInspect => "scene.inspect"@,
        }
    }
}

/// No method goes by this name.
pub open spec fn unknown_method(name: Seq<char>) -> bool {
    forall|method: Method| name != #[trigger] method.name()
}

/// The method of this name.
pub fn method_named(name: &str) -> (method: Option<Method>)
    ensures
        match method {
            Some(found) => found.name() == name@,
            None => unknown_method(name@),
        },
{
    if same(name, "health") {
        Some(Method::Health)
    } else if same(name, "catalog") {
        Some(Method::Catalog)
    } else if same(name, "rescan") {
        Some(Method::Rescan)
    } else if same(name, "playlist.list") {
        Some(Method::PlaylistList)
    } else if same(name, "playlist.put") {
        Some(Method::PlaylistPut)
    } else if same(name, "playlist.remove") {
        Some(Method::PlaylistRemove)
    } else if same(name, "playlist.activate") {
        Some(Method::PlaylistActivate)
    } else if same(name, "playlist.status") {
        Some(Method::PlaylistStatus)
    } else if same(name, "playlist.import") {
        Some(Method::PlaylistImport)
    } else if same(name, "playlist.debug-clock-skip") {
        Some(Method::PlaylistDebugClockSkip)
    } else if same(name, "renderer.status") {
        Some(Method::RendererStatus)
    } else if same(name, "renderer.stop") {
        Some(Method::RendererStop)
    } else if same(name, "renderer.ack") {
        Some(Method::RendererAck)
    } else if same(name, "renderer.input") {
        Some(Method::RendererInput)
    } else if same(name, "renderer.start") {
        Some(Method::RendererStart)
    } else if same(name, "renderer.retry") {
        Some(Method::RendererRetry)
    } else if same(name, "audio.forward") {
        Some(Method::AudioForward)
    } else if same(name, "audio.status") {
        Some(Method::AudioStatus)
    } else if same(name, "permissions.get") {
        Some(Method::PermissionsGet)
    } else if same(name, "permissions.set") {
        Some(Method::PermissionsSet)
    } else if same(name, "permissions.list") {
        Some(Method::PermissionsList)
    } else if same(name, "media.state") {
        Some(Method::MediaState)
    } else if same(name, "wallpaper.outputs") {
        Some(Method::WallpaperOutputs)
    } else if same(name, "wallpaper.apply") {
        Some(Method::WallpaperApply)
    } else if same(name, "wallpaper.restore") {
        Some(Method::WallpaperRestore)
    } else if same(name, "wallpaper.assignments") {
        Some(Method::WallpaperAssignments)
    } else if same(name, "scene.inspect") {
        Some(Method::SceneInspect)
    } else {
        None
    }
}

/// The parts of the daemon.
#[derive(Debug, Clone, Copy, PartialEq, Eq, Structural)]
pub enum Part {
    /// The daemon itself, which is always there.
    Daemon,
    Playlist,
    Supervisor,
    Audio,
    Permissions,
    Applier,
    Inspector,
}

impl Method {
    /// The part that answers.
    pub open spec fn part(self) -> Part {
        match self {
            Method::Health | Method::Catalog | Method::Rescan => Part::Daemon,
            Method::PlaylistList | Method::PlaylistPut | Method::PlaylistRemove => Part::Playlist,
            Method::PlaylistActivate | Method::PlaylistStatus | Method::PlaylistImport => {
                Part::Playlist
            },
            Method::PlaylistDebugClockSkip => Part::Playlist,
            Method::RendererStatus | Method::RendererStop | Method::RendererAck => Part::Supervisor,
            Method::RendererInput | Method::RendererStart | Method::RendererRetry => {
                Part::Supervisor
            },
            Method::AudioForward | Method::MediaState => Part::Supervisor,
            Method::AudioStatus => Part::Audio,
            Method::PermissionsGet | Method::PermissionsSet | Method::PermissionsList => {
                Part::Permissions
            },
            Method::WallpaperOutputs | Method::WallpaperApply => Part::Applier,
            Method::WallpaperRestore | Method::WallpaperAssignments => Part::Applier,
            Method::SceneInspect => Part::Inspector,
        }
    }
}

// ---------------------------------------------------------------------------
// Starting a renderer
// ---------------------------------------------------------------------------

/// A fault that a test renderer is asked to show.
#[derive(Debug, Clone, Copy, PartialEq, Eq, Structural)]
pub enum TestFault {
    StartupHang,
    Hang { after: u64 },
    Corrupt { after: u64 },
    Exit { after: u64 },
    IgnoreTermHang { after: u64 },
    MemoryPressure { after: u64, mib: u64 },
}

/// The same, as it is asked for.
#[derive(Debug)]
pub struct TestFaultParams {
    pub kind: String,
    pub after: u64,
    pub mib: Option<u64>,
}

/// What a start is asked with.
#[derive(Debug)]
pub struct RendererStartParams {
    pub wallpaper_id: String,
    pub content_hash: String,
    pub width: u32,
    pub height: u32,
    pub fps: u32,
    pub kind: RendererKind,
    pub content: Option<String>,
    pub test_fault: Option<TestFaultParams>,
    /// How many lines a test renderer is asked to write to its stderr.
    pub stderr_lines: Option<u32>,
    pub scaling: ScalingMode,
}

/// What a renderer is started with by hand.
#[derive(Debug)]
pub struct StartRequest {
    pub spec: StartSpec,
    pub test_fault: Option<TestFault>,
    pub stderr_lines: Option<u32>,
}

/// What is wrong with a fault that is asked for, or which one it is.
pub open spec fn fault_named(fault: TestFaultParams) -> Result<TestFault, Seq<char>> {
    let after = fault.after;
    if fault.kind@ == "startup_hang"@ {
        Ok(TestFault::StartupHang)
    } else if fault.kind@ == "hang"@ {
        Ok(TestFault::Hang { after })
    } else if fault.kind@ == "corrupt"@ {
        Ok(TestFault::Corrupt { after })
    } else if fault.kind@ == "exit"@ {
        Ok(TestFault::Exit { after })
    } else if fault.kind@ == "ignore_term_hang"@ {
        Ok(TestFault::IgnoreTermHang { after })
    } else if fault.kind@ == "memory_pressure"@ {
        match fault.mib {
            Some(mib) => Ok(TestFault::MemoryPressure { after, mib }),
            None => Err("memory_pressure requires mib"@),
        }
    } else {
        Err("unknown synthetic fault kind"@)
    }
}

fn read_fault(fault: &TestFaultParams) -> (read: Result<TestFault, String>)
    ensures
        match read {
            Ok(found) => fault_named(*fault) == Ok::<TestFault, Seq<char>>(found),
            Err(error) => fault_named(*fault) == Err::<TestFault, Seq<char>>(error@),
        },
{
    let kind: &str = fault.kind.as_str();
    let after: u64 = fault.after;
    if same(kind, "startup_hang") {
        Ok(TestFault::StartupHang)
    } else if same(kind, "hang") {
        Ok(TestFault::Hang { after })
    } else if same(kind, "corrupt") {
        Ok(TestFault::Corrupt { after })
    } else if same(kind, "exit") {
        Ok(TestFault::Exit { after })
    } else if same(kind, "ignore_term_hang") {
        Ok(TestFault::IgnoreTermHang { after })
    } else if same(kind, "memory_pressure") {
        match fault.mib {
            Some(mib) => Ok(TestFault::MemoryPressure { after, mib }),
            None => Err("memory_pressure requires mib".to_owned()),
        }
    } else {
        Err("unknown synthetic fault kind".to_owned())
    }
}

/// The fault that is asked for, if one is.
pub open spec fn wanted_fault(fault: Option<TestFaultParams>) -> Result<
    Option<TestFault>,
    Seq<char>,
> {
    match fault {
        None => Ok(None),
        Some(params) => match fault_named(params) {
            Ok(found) => Ok(Some(found)),
            Err(error) => Err(error),
        },
    }
}

/// A test renderer takes no content, and every other kind needs its own.
pub open spec fn content_fits(kind: RendererKind, content: Option<String>) -> bool {
    kind == RendererKind::Test <==> content is None
}

pub open spec fn content_error(kind: RendererKind) -> Seq<char> {
    "renderer kind "@ + kind.name() + " requires a content path (test takes none)"@
}

/// Why a start is refused, if it is: first for the fault that it asks for,
/// then for its content.
pub open spec fn start_refusal(params: RendererStartParams) -> Option<Seq<char>> {
    match wanted_fault(params.test_fault) {
        Err(error) => Some(error),
        Ok(_) => if content_fits(params.kind, params.content) {
            None
        } else {
            Some(content_error(params.kind))
        },
    }
}

/// `request` is the start that is asked for.
pub open spec fn starts_as(params: RendererStartParams, request: StartRequest) -> bool {
    &&& request.spec.wallpaper_id == params.wallpaper_id
    &&& request.spec.content_hash == params.content_hash
    &&& request.spec.width == params.width
    &&& request.spec.height == params.height
    &&& request.spec.fps == params.fps
    &&& request.spec.kind == params.kind
    &&& request.spec.scaling == params.scaling
    &&& request.spec.capability_limitations@.len() == 0
    &&& request.stderr_lines == params.stderr_lines
    &&& wanted_fault(params.test_fault) == Ok::<Option<TestFault>, Seq<char>>(request.test_fault)
    &&& match (params.content, request.spec.content) {
        (None, None) => true,
        (Some(path), Some(content)) => content.kind() == params.kind && content.location() == path@,
        _ => false,
    }
}

impl StartRequest {
    /// The start that is asked for. The content itself is looked at later.
    pub fn try_from(params: RendererStartParams) -> (built: Result<Self, String>)
        ensures
            match built {
                Ok(request) => start_refusal(params) is None && starts_as(params, request),
                Err(error) => start_refusal(params) == Some(error@),
            },
    {
        let test_fault: Option<TestFault> = match &params.test_fault {
            None => None,
            Some(fault) => match read_fault(fault) {
                Ok(found) => Some(found),
                Err(error) => { return Err(error) },
            },
        };
        let content: Option<ContentSpec> = match (params.kind, params.content) {
            (RendererKind::Test, None) => None,
            (RendererKind::Video, Some(path)) => Some(ContentSpec::Video { path }),
            (RendererKind::Web, Some(path)) => Some(ContentSpec::Web { root: path }),
            (RendererKind::Scene, Some(path)) => Some(ContentSpec::Scene { path }),
            _ => {
                let mut error = "renderer kind ".to_owned();
                error.append(params.kind.as_str());
                error.append(" requires a content path (test takes none)");
                return Err(error);
            },
        };
        Ok(
            StartRequest {
                spec: StartSpec {
                    wallpaper_id: params.wallpaper_id,
                    content_hash: params.content_hash,
                    width: params.width,
                    height: params.height,
                    fps: params.fps,
                    kind: params.kind,
                    content,
                    scaling: params.scaling,
                    capability_limitations: Vec::new(),
                },
                test_fault,
                stderr_lines: params.stderr_lines,
            },
        )
    }
}

// ---------------------------------------------------------------------------
// Calls
// ---------------------------------------------------------------------------

/// What a request's parameters hold. `H` is what is handed on as it is.
#[derive(Debug)]
pub enum Params<H> {
    Held(H),
    Permissions { wallpaper_id: String, patch: GrantPatch },
    Start(RendererStartParams),
    Inspect { path: String },
}

/// What is to be done for a request.
#[derive(Debug)]
pub enum Call<H> {
    /// The method, with its parameters as they were parsed.
    Plain(Method, H),
    PermissionsGet { wallpaper_id: String },
    PermissionsSet { wallpaper_id: String, patch: GrantPatch },
    Start { request: StartRequest, retry: bool },
    Inspect { path: String },
}

impl<H> Call<H> {
    /// The part that is called.
    pub open spec fn part(self) -> Part {
        match self {
            Call::Plain(method, _) => method.part(),
            Call::PermissionsGet { .. } | Call::PermissionsSet { .. } => Part::Permissions,
            Call::Start { .. } => Part::Supervisor,
            Call::Inspect { .. } => Part::Inspector,
        }
    }
}

/// The parameters are those of the method.
pub open spec fn fits<H>(method: Method, params: Params<H>) -> bool {
    match method {
        Method::PermissionsGet | Method::PermissionsSet => params is Permissions,
        Method::RendererStart | Method::RendererRetry => params is Start,
        Method::SceneInspect => params is Inspect,
        _ => params is Held,
    }
}

/// A start that asks for something that only tests may have.
pub open spec fn is_synthetic(params: RendererStartParams) -> bool {
    params.test_fault is Some || params.stderr_lines is Some
}

/// A path that says where it begins.
pub open spec fn absolute(path: Seq<char>) -> bool {
    path.len() > 0 && path[0] == '/'
}

/// Why a parsed request is not carried out, if it is not.
pub open spec fn call_refusal<H>(
    method: Method,
    params: Params<H>,
    allow_test_faults: bool,
) -> Option<FaultView> {
    match params {
        Params::Held(_) => None,
        Params::Permissions { wallpaper_id, .. } => if identity::valid_identity(wallpaper_id@) {
            None
        } else {
            Some(detailed("invalid_params"@, identity::identity_error("wallpaper_id"@)))
        },
        Params::Start(start) => if is_synthetic(start) && !allow_test_faults {
            Some(
                detailed(
                    "test_faults_disabled"@,
                    "restart the daemon with --allow-test-faults for synthetic testing"@,
                ),
            )
        } else {
            match start_refusal(start) {
                Some(error) => Some(detailed("invalid_params"@, error)),
                None => None,
            }
        },
        Params::Inspect { path } => if absolute(path@) {
            None
        } else {
            Some(detailed("invalid_params"@, "path must be a non-empty absolute path"@))
        },
    }
}

/// `call` carries the request out.
pub open spec fn carries_out<H>(method: Method, params: Params<H>, call: Call<H>) -> bool {
    match params {
        Params::Held(held) => call == Call::Plain(method, held),
        Params::Permissions { wallpaper_id, patch } => if method == Method::PermissionsSet {
            call == Call::<H>::PermissionsSet { wallpaper_id, patch }
        } else {
            call == Call::<H>::PermissionsGet { wallpaper_id }
        },
        Params::Start(start) => call matches Call::Start { request, retry } && starts_as(
            start,
            request,
        ) && retry == (method == Method::RendererRetry),
        Params::Inspect { path } => call == Call::<H>::Inspect { path },
    }
}

/// Rejects a path that is empty or relative.
pub fn validate_scene_inspect_params(path: String) -> (valid: Result<String, Fault>)
    ensures
        match valid {
            Ok(accepted) => absolute(path@) && accepted == path,
            Err(fault) => !absolute(path@) && fault@ == detailed(
                "invalid_params"@,
                "path must be a non-empty absolute path"@,
            ),
        },
{
    if path.as_str().unicode_len() > 0 && path.as_str().get_char(0) == '/' {
        Ok(path)
    } else {
        Err(invalid_params("path must be a non-empty absolute path".to_owned()))
    }
}

/// What is to be done for a parsed request.
pub fn plan_call<H>(method: Method, params: Params<H>, allow_test_faults: bool) -> (planned: Result<
    Call<H>,
    Fault,
>)
    requires
        fits(method, params),
    ensures
        match planned {
            Ok(call) => call_refusal(method, params, allow_test_faults) is None && carries_out(
                method,
                params,
                call,
            ),
            Err(fault) => call_refusal(method, params, allow_test_faults) == Some(fault@),
        },
{
    match params {
        Params::Held(held) => Ok(Call::Plain(method, held)),
        Params::Permissions { wallpaper_id, patch } => {
            match validate_identity_part("wallpaper_id", wallpaper_id.as_str()) {
                Ok(()) => {},
                Err(detail) => { return Err(invalid_params(detail)) },
            }
            match method {
                Method::PermissionsSet => Ok(Call::PermissionsSet { wallpaper_id, patch }),
                _ => Ok(Call::PermissionsGet { wallpaper_id }),
            }
        },
        Params::Start(start) => {
            if (start.test_fault.is_some() || start.stderr_lines.is_some()) && !allow_test_faults {
                return Err(
                    detailed_fault(
                        "test_faults_disabled",
                        "restart the daemon with --allow-test-faults for synthetic testing".to_owned(),
                    ),
                );
            }
            let retry: bool = match method {
                Method::RendererRetry => true,
                _ => false,
            };
            match StartRequest::try_from(start) {
                Ok(request) => Ok(Call::Start { request, retry }),
                Err(detail) => Err(invalid_params(detail)),
            }
        },
        Params::Inspect { path } => match validate_scene_inspect_params(path) {
            Ok(path) => Ok(Call::Inspect { path }),
            Err(fault) => Err(fault),
        },
    }
}

// ---------------------------------------------------------------------------
// Processing
// ---------------------------------------------------------------------------

/// Why a request is answered before its parameters are looked at, if it is. A
/// daemon whose binary was replaced refuses to apply: what it knows of the
/// renderers does not hold any more.
pub open spec fn early_refusal(
    version: u32,
    method: Seq<char>,
    allow_test_faults: bool,
    stale: Option<(String, String)>,
) -> Option<FaultView> {
    if version != API_VERSION {
        Some(
            FaultView {
                code: "unsupported_api_version"@,
                detail: None,
                supported: Some(API_VERSION),
                refusal: None,
            },
        )
    } else if unknown_method(method) {
        Some(bare("unknown_method"@))
    } else if method == Method::PlaylistDebugClockSkip.name() && !allow_test_faults {
        Some(bare("test_faults_disabled"@))
    } else if method == Method::WallpaperApply.name() && stale is Some {
        Some(detailed(stale->Some_0.0@, stale->Some_0.1@))
    } else {
        None
    }
}

/// The method of a request that is looked at, or its answer.
pub fn begin_request(
    version: u32,
    method: &str,
    allow_test_faults: bool,
    stale: Option<(String, String)>,
) -> (begun: Result<Method, Fault>)
    ensures
        match begun {
            Ok(found) => early_refusal(version, method@, allow_test_faults, stale) is None
                && found.name() == method@,
            Err(fault) => early_refusal(version, method@, allow_test_faults, stale) == Some(fault@),
        },
{
    if version != API_VERSION {
        return Err(
            Fault {
                code: "unsupported_api_version".to_owned(),
                detail: None,
                supported: Some(API_VERSION),
                refusal: None,
            },
        );
    }
    let found: Method = match method_named(method) {
        Some(found) => found,
        None => { return Err(bare_fault("unknown_method")) },
    };
    assert(!unknown_method(method@));
    if same(method, "playlist.debug-clock-skip") && !allow_test_faults {
        return Err(bare_fault("test_faults_disabled"));
    }
    if same(method, "wallpaper.apply") {
        match stale {
            Some((code, detail)) => { return Err(detailed_fault(code.as_str(), detail)) },
            None => {},
        }
    }
    Ok(found)
}

// ---------------------------------------------------------------------------
// Answers of the parts
// ---------------------------------------------------------------------------

/// `answer` passes on what a part of the daemon said: its value, or its error
/// under the part's code. A part that is not there has a code too.
pub open spec fn passes_on<T>(
    said: Option<Result<T, String>>,
    absent: Seq<char>,
    failed: Seq<char>,
    answer: Result<T, Fault>,
) -> bool {
    match said {
        None => answer matches Err(fault) && fault@ == bare(absent),
        Some(Ok(value)) => answer == Ok::<T, Fault>(value),
        Some(Err(error)) => answer matches Err(fault) && fault@ == detailed(failed, error@),
    }
}

fn pass_on<T>(said: Option<Result<T, String>>, absent: &str, failed: &str) -> (answer: Result<
    T,
    Fault,
>)
    ensures
        passes_on(said, absent@, failed@, answer),
{
    match said {
        None => Err(bare_fault(absent)),
        Some(Ok(value)) => Ok(value),
        Some(Err(error)) => Err(detailed_fault(failed, error)),
    }
}

/// What the audio capture said.
pub fn audio_call<T>(said: Option<Result<T, String>>) -> (answer: Result<T, Fault>)
    ensures
        passes_on(said, "audio_unavailable"@, "audio_failed"@, answer),
{
    pass_on(said, "audio_unavailable", "audio_failed")
}

/// What the permission store said.
pub fn permissions_call<T>(said: Option<Result<T, String>>) -> (answer: Result<T, Fault>)
    ensures
        passes_on(said, "permissions_unavailable"@, "permissions_failed"@, answer),
{
    pass_on(said, "permissions_unavailable", "permissions_failed")
}

/// What the supervisor said.
pub fn supervisor_call<T>(said: Option<Result<T, String>>) -> (answer: Result<T, Fault>)
    ensures
        passes_on(said, "supervisor_unavailable"@, "supervisor_failed"@, answer),
{
    pass_on(said, "supervisor_unavailable", "supervisor_failed")
}

/// The fault that an apply error is.
pub open spec fn apply_fault(error: ApplyError) -> FaultView {
    FaultView {
        code: error.wire_code(),
        detail: error.text(),
        supported: None,
        refusal: match error {
            ApplyError::CapabilityGate { missing, inspection_reason, .. } => Some(
                (text::views(missing@), probe::option_view(inspection_reason)),
            ),
            _ => None,
        },
    }
}

/// What the applier said.
pub fn apply_call<T>(said: Option<Result<T, ApplyError>>) -> (answer: Result<T, Fault>)
    ensures
        match said {
            None => answer matches Err(fault) && fault@ == bare("apply_unavailable"@),
            Some(Ok(value)) => answer == Ok::<T, Fault>(value),
            Some(Err(error)) => answer matches Err(fault) && fault@ == apply_fault(error),
        },
{
    match said {
        None => Err(bare_fault("apply_unavailable")),
        Some(Ok(value)) => Ok(value),
        Some(Err(error)) => {
            let detail: Option<String> = match error.detail() {
                Some(text) => Some(text.to_owned()),
                None => None,
            };
            let refusal: Option<Refusal> = match error.extra_fields() {
                Some((missing, reason)) => Some(
                    Refusal { missing: copy_strings(missing), inspection_reason: reason.clone() },
                ),
                None => None,
            };
            Err(Fault { code: error.code().to_owned(), detail, supported: None, refusal })
        },
    }
}

/// The code of a session error.
pub open spec fn session_code(error: SessionError) -> Seq<char> {
    match error {
        SessionError::NotFound(_) => "playlist_not_found"@,
        SessionError::ImportBlocked => "playlist_import_blocked"@,
        SessionError::StoreUnavailable(_) => "playlist_store_unavailable"@,
        SessionError::Invalid(_) => "invalid_playlist"@,
        SessionError::Busy(_) => "playlist_busy"@,
    }
}

/// What the playlist session said.
pub fn playlist_call<T>(said: Option<Result<T, SessionError>>) -> (answer: Result<T, Fault>)
    ensures
        match said {
            None => answer matches Err(fault) && fault@ == bare("playlist_unavailable"@),
            Some(Ok(value)) => answer == Ok::<T, Fault>(value),
            Some(Err(error)) => answer matches Err(fault) && fault@ == detailed(
                session_code(error),
                error.text(),
            ),
        },
{
    match said {
        None => Err(bare_fault("playlist_unavailable")),
        Some(Ok(value)) => Ok(value),
        Some(Err(error)) => {
            let code: &str = match &error {
                SessionError::NotFound(_) => "playlist_not_found",
                SessionError::ImportBlocked => "playlist_import_blocked",
                SessionError::StoreUnavailable(_) => "playlist_store_unavailable",
                SessionError::Invalid(_) => "invalid_playlist",
                SessionError::Busy(_) => "playlist_busy",
            };
            Err(detailed_fault(code, error.message()))
        },
    }
}

/// What an answer that cannot be written down comes to.
pub fn serialized<T>(written: Result<T, String>) -> (answer: Result<T, Fault>)
    ensures
        match written {
            Ok(value) => answer == Ok::<T, Fault>(value),
            Err(error) => answer matches Err(fault) && fault@ == detailed(
                "serialization_failed"@,
                error@,
            ),
        },
{
    match written {
        Ok(value) => Ok(value),
        Err(error) => Err(detailed_fault("serialization_failed", error)),
    }
}

// ---------------------------------------------------------------------------
// The audio worker's frames
// ---------------------------------------------------------------------------

/// What the supervisor says to audio while no renderer is live.
pub const NO_PROMOTED_RENDERER_DETAIL: &'static str =
    "no promoted renderer is available for audio forwarding";

/// Who a request comes from; no process if that could not be had.
#[derive(Debug, Clone, Copy, PartialEq, Eq, Structural)]
pub struct PeerCred {
    pub pid: u32,
    pub uid: u32,
}

impl Default for PeerCred {
    fn default() -> (peer: Self)
        ensures
            peer == (PeerCred { pid: 0, uid: 0 }),
    {
        PeerCred { pid: 0, uid: 0 }
    }
}

/// The request comes from the daemon's own worker: its process and its user.
/// A process number alone may have been used again.
pub open spec fn is_own_worker(peer: PeerCred, worker_pid: u32, effective_uid: u32) -> bool {
    worker_pid != 0 && peer.pid == worker_pid && peer.uid == effective_uid
}

/// The frame was rejected only because no renderer is live.
pub open spec fn is_no_renderer(fault: FaultView) -> bool {
    fault.code == "supervisor_failed"@ && fault.detail == Some(NO_PROMOTED_RENDERER_DETAIL@)
}

/// Whether a rejected frame is dropped in silence: the daemon's own worker goes
/// on capturing while no renderer is live. Everybody else is told.
pub fn classify_audio_error(
    peer: PeerCred,
    worker_pid: u32,
    effective_uid: u32,
    fault: &Fault,
) -> (dropped: bool)
    ensures
        dropped == (is_own_worker(peer, worker_pid, effective_uid) && is_no_renderer(fault@)),
{
    if worker_pid == 0 || peer.pid != worker_pid || peer.uid != effective_uid {
        return false;
    }
    if !same(fault.code.as_str(), "supervisor_failed") {
        return false;
    }
    match &fault.detail {
        Some(detail) => same(detail.as_str(), NO_PROMOTED_RENDERER_DETAIL),
        None => false,
    }
}

/// Whether the drop after `drops` others is written to the log: the first few,
/// and then one in a thousand.
pub fn logs_audio_drop(drops: u64) -> (logged: bool)
    ensures
        logged == (drops < 5 || drops % 1000 == 0),
{
    drops < 5 || drops % 1000 == 0
}

// ---------------------------------------------------------------------------
// Carrying requests out
// ---------------------------------------------------------------------------

/// What a part said to a call; a part that is not there said nothing.
#[derive(Debug)]
pub enum Said<V> {
    Daemon(V),
    Playlist(Option<Result<V, SessionError>>),
    Supervisor(Option<Result<V, String>>),
    Audio(Option<Result<V, String>>),
    Permissions(Option<Result<V, String>>),
    Applier(Option<Result<V, ApplyError>>),
    Inspector(Option<V>),
}

/// The fault under which a part's error is passed on, or its absence.
pub open spec fn part_fault<V>(
    said: Option<Result<V, String>>,
    absent: Seq<char>,
    failed: Seq<char>,
) -> Option<FaultView> {
    match said {
        None => Some(bare(absent)),
        Some(Ok(_)) => None,
        Some(Err(error)) => Some(detailed(failed, error@)),
    }
}

impl<V> Said<V> {
    /// The part that spoke.
    pub open spec fn part(self) -> Part {
        match self {
            Said::Daemon(_) => Part::Daemon,
            Said::Playlist(_) => Part::Playlist,
            Said::Supervisor(_) => Part::Supervisor,
            Said::Audio(_) => Part::Audio,
            Said::Permissions(_) => Part::Permissions,
            Said::Applier(_) => Part::Applier,
            Said::Inspector(_) => Part::Inspector,
        }
    }

    /// The value that was said, if one was.
    pub open spec fn value(self) -> Option<V> {
        match self {
            Said::Daemon(value) => Some(value),
            Said::Playlist(Some(Ok(value))) => Some(value),
            Said::Supervisor(Some(Ok(value))) => Some(value),
            Said::Audio(Some(Ok(value))) => Some(value),
            Said::Permissions(Some(Ok(value))) => Some(value),
            Said::Applier(Some(Ok(value))) => Some(value),
            Said::Inspector(value) => value,
            _ => None,
        }
    }

    /// The fault that it is otherwise.
    pub open spec fn fault(self) -> Option<FaultView> {
        match self {
            Said::Daemon(_) => None,
            Said::Playlist(None) => Some(bare("playlist_unavailable"@)),
            Said::Playlist(Some(Ok(_))) => None,
            Said::Playlist(Some(Err(error))) => Some(detailed(session_code(error), error.text())),
            Said::Supervisor(said) => part_fault(
                said,
                "supervisor_unavailable"@,
                "supervisor_failed"@,
            ),
            Said::Audio(said) => part_fault(said, "audio_unavailable"@, "audio_failed"@),
            Said::Permissions(said) => part_fault(
                said,
                "permissions_unavailable"@,
                "permissions_failed"@,
            ),
            Said::Applier(None) => Some(bare("apply_unavailable"@)),
            Said::Applier(Some(Ok(_))) => None,
            Said::Applier(Some(Err(error))) => Some(apply_fault(error)),
            Said::Inspector(None) => Some(bare("inspect_unavailable"@)),
            Said::Inspector(Some(_)) => None,
        }
    }

    /// Turns what a part said into an answer.
    pub fn answer(self) -> (answer: Result<V, Fault>)
        ensures
            match answer {
                Ok(value) => self.value() == Some(value) && self.fault() is None,
                Err(fault) => self.value() is None && self.fault() == Some(fault@),
            },
    {
        match self {
            Said::Daemon(value) => Ok(value),
            Said::Playlist(said) => playlist_call(said),
            Said::Supervisor(said) => supervisor_call(said),
            Said::Audio(said) => audio_call(said),
            Said::Permissions(said) => permissions_call(said),
            Said::Applier(said) => apply_call(said),
            Said::Inspector(Some(value)) => Ok(value),
            Said::Inspector(None) => Err(bare_fault("inspect_unavailable")),
        }
    }
}

/// Who asks, and who the daemon's own audio worker is.
#[derive(Debug, Clone, Copy, PartialEq, Eq, Structural)]
pub struct Caller {
    pub peer: PeerCred,
    /// No process while no worker runs.
    pub worker_pid: u32,
    pub effective_uid: u32,
}

/// What a request that succeeds is answered.
#[derive(Debug, PartialEq, Eq)]
pub enum Answer<V> {
    Value(V),
    /// The worker's frame was dropped in silence.
    Dropped,
}

/// `answer` is what the caller of a method is told when a part said `said`.
pub open spec fn settled<V>(
    method: Method,
    caller: Caller,
    said: Said<V>,
    answer: Result<Answer<V>, Fault>,
) -> bool {
    match said.fault() {
        None => said.value() matches Some(value) && answer == Ok::<Answer<V>, Fault>(
            Answer::Value(value),
        ),
        Some(refusal) => if method == Method::AudioForward && is_own_worker(
            caller.peer,
            caller.worker_pid,
            caller.effective_uid,
        ) && is_no_renderer(refusal) {
            answer == Ok::<Answer<V>, Fault>(Answer::Dropped)
        } else {
            answer matches Err(fault) && fault@ == refusal
        },
    }
}

/// Tells the caller of a method what a part said.
pub fn settle<V>(method: Method, caller: Caller, said: Said<V>) -> (answer: Result<
    Answer<V>,
    Fault,
>)
    ensures
        settled(method, caller, said, answer),
{
    match said.answer() {
        Ok(value) => Ok(Answer::Value(value)),
        Err(fault) => {
            if method == Method::AudioForward && classify_audio_error(
                caller.peer,
                caller.worker_pid,
                caller.effective_uid,
                &fault,
            ) {
                Ok(Answer::Dropped)
            } else {
                Err(fault)
            }
        },
    }
}

/// `answer` is what making a call can come to.
pub open spec fn made<H, V, X: FnOnce(Call<H>) -> Said<V>>(
    method: Method,
    call: Call<H>,
    caller: Caller,
    execute: X,
    answer: Result<Answer<V>, Fault>,
) -> bool {
    exists|said: Said<V>| #[trigger]
        call_ensures(execute, (call,), said) && said.part() == method.part() && settled(
            method,
            caller,
            said,
            answer,
        )
}

/// What the look at a start before it is made can say; other calls are not
/// looked at.
pub open spec fn looked_at<H, K: FnOnce(&StartRequest) -> Result<(), String>>(
    call: Call<H>,
    preflight: K,
    outcome: Result<(), String>,
) -> bool {
    match call {
        Call::Start { request, .. } => call_ensures(preflight, (&request,), outcome),
        _ => outcome == Ok::<(), String>(()),
    }
}

/// `answer` is what carrying a parsed request out can come to.
pub open spec fn carried_out<
    H,
    V,
    K: FnOnce(&StartRequest) -> Result<(), String>,
    X: FnOnce(Call<H>) -> Said<V>,
>(
    method: Method,
    params: Params<H>,
    allow_test_faults: bool,
    caller: Caller,
    preflight: K,
    execute: X,
    answer: Result<Answer<V>, Fault>,
) -> bool {
    match call_refusal(method, params, allow_test_faults) {
        Some(refusal) => answer matches Err(fault) && fault@ == refusal,
        None => exists|call: Call<H>, outcome: Result<(), String>|
            {
                &&& carries_out(method, params, call)
                &&& #[trigger] looked_at(call, preflight, outcome)
                &&& match outcome {
                    Ok(()) => made(method, call, caller, execute, answer),
                    Err(detail) => answer matches Err(fault) && fault@ == detailed(
                        "invalid_params"@,
                        detail@,
                    ),
                }
            },
    }
}

/// `answer` is what a request can come to.
pub open spec fn processed<
    H,
    V,
    P: FnOnce(Method) -> Result<Params<H>, String>,
    K: FnOnce(&StartRequest) -> Result<(), String>,
    X: FnOnce(Call<H>) -> Said<V>,
>(
    version: u32,
    method: Seq<char>,
    allow_test_faults: bool,
    stale: Option<(String, String)>,
    caller: Caller,
    parse: P,
    preflight: K,
    execute: X,
    answer: Result<Answer<V>, Fault>,
) -> bool {
    match early_refusal(version, method, allow_test_faults, stale) {
        Some(refusal) => answer matches Err(fault) && fault@ == refusal,
        None => exists|found: Method, params: Result<Params<H>, String>|
            {
                &&& found.name() == method
                &&& #[trigger] call_ensures(parse, (found,), params)
                &&& match params {
                    Ok(parsed) => carried_out(
                        found,
                        parsed,
                        allow_test_faults,
                        caller,
                        preflight,
                        execute,
                        answer,
                    ),
                    Err(detail) => answer matches Err(fault) && fault@ == detailed(
                        "invalid_params"@,
                        detail@,
                    ),
                }
            },
    }
}

/// The start that is looked at before it is made: nothing refuses it.
pub open spec fn may_be_looked_at<H>(
    method: Method,
    params: Params<H>,
    allow_test_faults: bool,
    request: StartRequest,
) -> bool {
    &&& call_refusal(method, params, allow_test_faults) is None
    &&& carries_out(
        method,
        params,
        Call::<H>::Start { request, retry: method == Method::RendererRetry },
    )
}

/// The call that is made for a parsed request: nothing refuses it, and a start
/// was looked at and let through.
pub open spec fn may_be_made<H, K: FnOnce(&StartRequest) -> Result<(), String>>(
    method: Method,
    params: Params<H>,
    allow_test_faults: bool,
    preflight: K,
    call: Call<H>,
) -> bool {
    &&& call_refusal(method, params, allow_test_faults) is None
    &&& carries_out(method, params, call)
    &&& looked_at(call, preflight, Ok::<(), String>(()))
}

/// The method whose parameters are read: nothing refuses the request before.
pub open spec fn may_be_read(
    version: u32,
    method: Seq<char>,
    allow_test_faults: bool,
    stale: Option<(String, String)>,
    found: Method,
) -> bool {
    early_refusal(version, method, allow_test_faults, stale) is None && found.name() == method
}

/// The method and its parameters, as they were read.
pub open spec fn was_read<H, P: FnOnce(Method) -> Result<Params<H>, String>>(
    version: u32,
    method: Seq<char>,
    allow_test_faults: bool,
    stale: Option<(String, String)>,
    parse: P,
    found: Method,
    params: Params<H>,
) -> bool {
    may_be_read(version, method, allow_test_faults, stale, found) && call_ensures(
        parse,
        (found,),
        Ok::<Params<H>, String>(params),
    )
}

/// The start that is looked at for a request.
pub open spec fn looks_at<H, P: FnOnce(Method) -> Result<Params<H>, String>>(
    version: u32,
    method: Seq<char>,
    allow_test_faults: bool,
    stale: Option<(String, String)>,
    parse: P,
    request: StartRequest,
) -> bool {
    exists|found: Method, params: Params<H>| #[trigger]
        was_read(version, method, allow_test_faults, stale, parse, found, params)
            && may_be_looked_at(found, params, allow_test_faults, request)
}

/// The call that is made for a request.
pub open spec fn makes<
    H,
    P: FnOnce(Method) -> Result<Params<H>, String>,
    K: FnOnce(&StartRequest) -> Result<(), String>,
>(
    version: u32,
    method: Seq<char>,
    allow_test_faults: bool,
    stale: Option<(String, String)>,
    parse: P,
    preflight: K,
    call: Call<H>,
) -> bool {
    exists|found: Method, params: Params<H>| #[trigger]
        was_read(version, method, allow_test_faults, stale, parse, found, params)
            && may_be_made(found, params, allow_test_faults, preflight, call)
}

/// Carries a parsed request out.
fn carry_out<
    H,
    V,
    K: FnOnce(&StartRequest) -> Result<(), String>,
    X: FnOnce(Call<H>) -> Said<V>,
>(
    method: Method,
    params: Params<H>,
    allow_test_faults: bool,
    caller: Caller,
    preflight: K,
    execute: X,
) -> (answer: Result<Answer<V>, Fault>)
    requires
        fits(method, params),
        // What is refused is neither looked at nor executed.
        forall|request: &StartRequest|
            may_be_looked_at(method, params, allow_test_faults, *request)
                ==> #[trigger] call_requires(preflight, (request,)),
        forall|call: Call<H>|
            may_be_made(method, params, allow_test_faults, preflight, call)
                ==> #[trigger] call_requires(execute, (call,)),
        forall|call: Call<H>, said: Said<V>|
            call_ensures(execute, (call,), said) ==> said.part() == call.part(),
    ensures
        carried_out(method, params, allow_test_faults, caller, preflight, execute, answer),
{
    let call: Call<H> = match plan_call(method, params, allow_test_faults) {
        Ok(call) => call,
        Err(fault) => { return Err(fault) },
    };
    let ghost planned = call;
    proof {
        law_calls_go_to_their_part(method, params, planned);
    }
    match &call {
        Call::Start { request, .. } => {
            assert(may_be_looked_at(method, params, allow_test_faults, *request));
            let looked: Result<(), String> = preflight(request);
            let ghost outcome = looked;
            match looked {
                Ok(unit) => {
                    assert(unit == ());
                    assert(outcome == Ok::<(), String>(()));
                    assert(looked_at(planned, preflight, outcome));
                },
                Err(detail) => {
                    assert(looked_at(planned, preflight, outcome));
                    return Err(invalid_params(detail));
                },
            }
        },
        _ => {},
    }
    assert(looked_at(planned, preflight, Ok::<(), String>(())));
    assert(may_be_made(method, params, allow_test_faults, preflight, planned));
    let said: Said<V> = execute(call);
    assert(call_ensures(execute, (planned,), said));
    let ghost spoken = said;
    let answer: Result<Answer<V>, Fault> = settle(method, caller, said);
    assert(settled(method, caller, spoken, answer));
    assert(made(method, planned, caller, execute, answer));
    answer
}

/// Processes one request: `parse` reads the parameters of its method,
/// `preflight` looks at what a start would run, and `execute` calls the part
/// that answers once nothing speaks against it.
pub fn process_request<
    H,
    V,
    P: FnOnce(Method) -> Result<Params<H>, String>,
    K: FnOnce(&StartRequest) -> Result<(), String>,
    X: FnOnce(Call<H>) -> Said<V>,
>(
    version: u32,
    method: &str,
    allow_test_faults: bool,
    stale: Option<(String, String)>,
    caller: Caller,
    parse: P,
    preflight: K,
    execute: X,
) -> (answer: Result<Answer<V>, Fault>)
    requires
        // A refused request goes no further: its parameters are not read, its
        // start is not looked at, and nothing is executed.
        forall|found: Method|
            may_be_read(version, method@, allow_test_faults, stale, found)
                ==> #[trigger] call_requires(parse, (found,)),
        forall|found: Method, params: Params<H>|
            call_ensures(parse, (found,), Ok::<Params<H>, String>(params)) ==> fits(found, params),
        forall|request: &StartRequest|
            looks_at(version, method@, allow_test_faults, stale, parse, *request)
                ==> #[trigger] call_requires(preflight, (request,)),
        forall|call: Call<H>|
            makes(version, method@, allow_test_faults, stale, parse, preflight, call)
                ==> #[trigger] call_requires(execute, (call,)),
        forall|call: Call<H>, said: Said<V>|
            call_ensures(execute, (call,), said) ==> said.part() == call.part(),
    ensures
        processed(
            version,
            method@,
            allow_test_faults,
            stale,
            caller,
            parse,
            preflight,
            execute,
            answer,
        ),
{
    let found: Method = match begin_request(version, method, allow_test_faults, stale) {
        Ok(found) => found,
        Err(fault) => { return Err(fault) },
    };
    let parsed: Result<Params<H>, String> = parse(found);
    let ghost outcome = parsed;
    assert(call_ensures(parse, (found,), outcome));
    match parsed {
        Ok(params) => {
            assert(was_read(
                version,
                method@,
                allow_test_faults,
                stale,
                parse,
                found,
                params,
            ));
            carry_out(found, params, allow_test_faults, caller, preflight, execute)
        },
        Err(detail) => Err(invalid_params(detail)),
    }
}

// ---------------------------------------------------------------------------
// Inspections
// ---------------------------------------------------------------------------

/// At most one inspection runs.
pub struct InspectGate {
    pub in_flight: bool,
}

/// What is to be done for an inspection.
#[derive(Debug)]
pub enum InspectDispatch {
    Refused(Fault),
    /// Another one runs.
    Busy,
    Run { path: String },
}

impl InspectGate {
    /// Lets an inspection in, if its path is valid and no other one runs.
    pub fn dispatch(&mut self, params: Result<String, String>) -> (dispatch: InspectDispatch)
        ensures
            match params {
                Err(detail) => {
                    &&& dispatch matches InspectDispatch::Refused(fault)
                    &&& fault@ == detailed("invalid_params"@, detail@)
                    &&& *final(self) == *old(self)
                },
                Ok(path) => if !absolute(path@) {
                    &&& dispatch matches InspectDispatch::Refused(fault)
                    &&& fault@ == detailed(
                        "invalid_params"@,
                        "path must be a non-empty absolute path"@,
                    )
                    &&& *final(self) == *old(self)
                } else if old(self).in_flight {
                    dispatch is Busy && final(self).in_flight
                } else {
                    dispatch == (InspectDispatch::Run { path }) && final(self).in_flight
                },
            },
    {
        let path: String = match params {
            Ok(path) => path,
            Err(detail) => { return InspectDispatch::Refused(invalid_params(detail)) },
        };
        let path: String = match validate_scene_inspect_params(path) {
            Ok(path) => path,
            Err(fault) => { return InspectDispatch::Refused(fault) },
        };
        if self.in_flight {
            InspectDispatch::Busy
        } else {
            self.in_flight = true;
            InspectDispatch::Run { path }
        }
    }

    /// The inspection is over, however it ended.
    pub fn leave(&mut self)
        ensures
            !final(self).in_flight,
    {
        self.in_flight = false;
    }
}

// ---------------------------------------------------------------------------
// The catalog
// ---------------------------------------------------------------------------

/// An item that a playlist may play: it is installed and its project is valid.
pub open spec fn available(item: CatalogItem) -> bool {
    model::installed(item.workshop_state@) && item.kind != ProjectKind::Invalid
}

/// Some item of this id may be played.
pub open spec fn available_id(items: Seq<CatalogItem>, id: Seq<char>) -> bool {
    exists|i: int| 0 <= i < items.len() && available(#[trigger] items[i]) && items[i].workshop_id@ == id
}

/// The ids of what a playlist may play.
pub fn compute_valid_ids(items: &Vec<CatalogItem>) -> (ids: NameMap<()>)
    ensures
        ids.wf(),
        forall|id: Seq<char>| #[trigger] ids@.contains_key(id) <==> available_id(items@, id),
{
    let mut ids: NameMap<()> = NameMap::new();
    let mut i: usize = 0;
    while i < items.len()
        invariant
            i <= items@.len(),
            ids.wf(),
            forall|id: Seq<char>| #[trigger]
                ids@.contains_key(id) <==> available_id(items@.take(i as int), id),
        decreases items.len() - i,
    {
        let item: &CatalogItem = &items[i];
        let ghost before = ids@;
        let ghost done = items@.take(i as int);
        let on_disk: bool = same(item.workshop_state.as_str(), "local") || same(
            item.workshop_state.as_str(),
            "subscribed_installed",
        );
        if on_disk && item.kind != ProjectKind::Invalid {
            let _ = ids.insert(item.workshop_id.as_str(), ());
        }
        proof {
            let longer = items@.take(i + 1);
            assert forall|id: Seq<char>| #[trigger]
                ids@.contains_key(id) <==> available_id(longer, id) by {
                assert(before.contains_key(id) <==> available_id(done, id));
                if available_id(done, id) {
                    let k = choose|k: int|
                        0 <= k < done.len() && available(#[trigger] done[k]) && done[k].workshop_id@
                            == id;
                    assert(longer[k] == done[k]);
                }
                if available_id(longer, id) {
                    let k = choose|k: int|
                        0 <= k < longer.len() && available(#[trigger] longer[k])
                            && longer[k].workshop_id@ == id;
                    if k < i {
                        assert(done[k] == longer[k]);
                    }
                }
                if available(*item) && item.workshop_id@ == id {
                    assert(longer[i as int] == *item);
                }
            }
        }
        i = i + 1;
    }
    assert(items@.take(items@.len() as int) =~= items@);
    ids
}

// ---------------------------------------------------------------------------
// Laws
// ---------------------------------------------------------------------------

/// No request of another version goes any further, whatever it asks for, and
/// no apply does on a stale daemon: its parameters are not read, no start is
/// looked at for it, and no call is made.
pub proof fn law_refused_before_anything_is_done<
    H,
    P: FnOnce(Method) -> Result<Params<H>, String>,
    K: FnOnce(&StartRequest) -> Result<(), String>,
>(
    version: u32,
    method: Seq<char>,
    allow_test_faults: bool,
    stale: Option<(String, String)>,
    parse: P,
    preflight: K,
)
    requires
        version != API_VERSION || (method == "wallpaper.apply"@ && stale is Some),
    ensures
        early_refusal(version, method, allow_test_faults, stale) is Some,
        forall|found: Method| !may_be_read(version, method, allow_test_faults, stale, found),
        forall|request: StartRequest|
            !looks_at(version, method, allow_test_faults, stale, parse, request),
        forall|call: Call<H>|
            !makes(version, method, allow_test_faults, stale, parse, preflight, call),
{
    assert(Method::WallpaperApply.name() == "wallpaper.apply"@);
}

/// What is only for tests needs the daemon's leave: a start that asks for a
/// fault, or for lines on stderr, is refused without it, and neither looked at
/// nor made.
pub proof fn law_synthetic_starts_need_leave<H, K: FnOnce(&StartRequest) -> Result<(), String>>(
    method: Method,
    params: RendererStartParams,
    preflight: K,
)
    requires
        is_synthetic(params),
    ensures
        call_refusal(method, Params::<H>::Start(params), false) is Some,
        forall|request: StartRequest|
            !may_be_looked_at(method, Params::<H>::Start(params), false, request),
        forall|call: Call<H>|
            !may_be_made(method, Params::<H>::Start(params), false, preflight, call),
{
}

/// A request that is carried out goes to the part that answers its method.
pub proof fn law_calls_go_to_their_part<H>(method: Method, params: Params<H>, call: Call<H>)
    requires
        fits(method, params),
        carries_out(method, params, call),
    ensures
        call.part() == method.part(),
{
}

/// Only a frame of the daemon's own worker is dropped in silence, and only
/// while no renderer is live: nobody else's failure passes for a success.
pub proof fn law_only_the_own_worker_is_dropped<V>(
    method: Method,
    caller: Caller,
    said: Said<V>,
    answer: Result<Answer<V>, Fault>,
)
    requires
        settled(method, caller, said, answer),
        answer is Ok,
        said.value() is None,
    ensures
        method == Method::AudioForward,
        caller.worker_pid != 0,
        caller.peer.pid == caller.worker_pid,
        caller.peer.uid == caller.effective_uid,
        said.fault() matches Some(fault) && is_no_renderer(fault),
{
}

} // verus!
