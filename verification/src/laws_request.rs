//! What is promised of requests: which method a name is, what is refused, what
//! is handed on, and what the caller is told.
//!
//! Each law speaks of what a function may answer, or leave behind.

use vstd::prelude::*;

use crate::apply::{enumeration_error, ApplyError};
use crate::grants::GrantPatch;
use crate::laws_apply::{same_option, same_texts};
use crate::laws_stores::is_name;
use crate::model::{CatalogItem, ContentSpec, ProjectKind, RendererKind};
use crate::names::NameMap;
use crate::playlist_session::SessionError;
use crate::probe::ProbeError;
use crate::request::{
    apply_call, audio_call, begin_request, classify_audio_error, compute_valid_ids,
    invalid_params, logs_audio_drop, method_named, permissions_call, plan_call, playlist_call, process_request,
    serialized, settle, supervisor_call, validate_scene_inspect_params, Answer, Call, Caller, Fault, InspectDispatch, InspectGate,
    Method, Params, PeerCred, RendererStartParams, Said, StartRequest, TestFault,
};

verus! {

// ---------------------------------------------------------------------------
// Methods
// ---------------------------------------------------------------------------

/// The name of each method on the wire.
pub open spec fn wire_name(method: Method) -> Seq<char> {
    match method {
        Method::Health => "health"@,
        Method::Catalog => "catalog"@,
        Method::Rescan => "rescan"@,
        Method::PlaylistList => "playlist.list"@,
        Method::PlaylistPut => "playlist.put"@,
        Method::PlaylistRemove => "playlist.remove"@,
        Method::PlaylistActivate => "playlist.activate"@,
        Method::PlaylistStatus => "playlist.status"@,
        Method::PlaylistImport => "playlist.import"@,
        Method::PlaylistDebugClockSkip => "playlist.debug-clock-skip"@,
        Method::RendererStatus => "renderer.status"@,
        Method::RendererStop => "renderer.stop"@,
        Method::RendererAck => "renderer.ack"@,
        Method::RendererInput => "renderer.input"@,
        Method::RendererStart => "renderer.start"@,
        Method::RendererRetry => "renderer.retry"@,
        Method::AudioForward => "audio.forward"@,
        Method::AudioStatus => "audio.status"@,
        Method::PermissionsGet => "permissions.get"@,
        Method::PermissionsSet => "permissions.set"@,
        Method::PermissionsList => "permissions.list"@,
        Method::MediaState => "media.state"@,
        Method::WallpaperOutputs => "wallpaper.outputs"@,
        Method::WallpaperApply => "wallpaper.apply"@,
        Method::WallpaperRestore => "wallpaper.restore"@,
        Method::WallpaperAssignments => "wallpaper.assignments"@,
        Method::SceneInspect => "scene.inspect"@,
    }
}

/// A method is found by its own name, and by no other is any.
pub proof fn law_methods_are_found_by_name(name: &str, method: Option<Method>)
    requires
        call_ensures(method_named, (name,), method),
    ensures
        method matches Some(found) ==> name@ == wire_name(found),
        method is None ==> name@ != "health"@,
        method is None ==> name@ != "catalog"@,
        method is None ==> name@ != "rescan"@,
        method is None ==> name@ != "playlist.list"@,
        method is None ==> name@ != "playlist.put"@,
        method is None ==> name@ != "playlist.remove"@,
        method is None ==> name@ != "playlist.activate"@,
        method is None ==> name@ != "playlist.status"@,
        method is None ==> name@ != "playlist.import"@,
        method is None ==> name@ != "playlist.debug-clock-skip"@,
        method is None ==> name@ != "renderer.status"@,
        method is None ==> name@ != "renderer.stop"@,
        method is None ==> name@ != "renderer.ack"@,
        method is None ==> name@ != "renderer.input"@,
        method is None ==> name@ != "renderer.start"@,
        method is None ==> name@ != "renderer.retry"@,
        method is None ==> name@ != "audio.forward"@,
        method is None ==> name@ != "audio.status"@,
        method is None ==> name@ != "permissions.get"@,
        method is None ==> name@ != "permissions.set"@,
        method is None ==> name@ != "permissions.list"@,
        method is None ==> name@ != "media.state"@,
        method is None ==> name@ != "wallpaper.outputs"@,
        method is None ==> name@ != "wallpaper.apply"@,
        method is None ==> name@ != "wallpaper.restore"@,
        method is None ==> name@ != "wallpaper.assignments"@,
        method is None ==> name@ != "scene.inspect"@,
{
    assert(Method::Health.name() == "health"@);
    assert(Method::Catalog.name() == "catalog"@);
    assert(Method::Rescan.name() == "rescan"@);
    assert(Method::PlaylistList.name() == "playlist.list"@);
    assert(Method::PlaylistPut.name() == "playlist.put"@);
    assert(Method::PlaylistRemove.name() == "playlist.remove"@);
    assert(Method::PlaylistActivate.name() == "playlist.activate"@);
    assert(Method::PlaylistStatus.name() == "playlist.status"@);
    assert(Method::PlaylistImport.name() == "playlist.import"@);
    assert(Method::PlaylistDebugClockSkip.name() == "playlist.debug-clock-skip"@);
    assert(Method::RendererStatus.name() == "renderer.status"@);
    assert(Method::RendererStop.name() == "renderer.stop"@);
    assert(Method::RendererAck.name() == "renderer.ack"@);
    assert(Method::RendererInput.name() == "renderer.input"@);
    assert(Method::RendererStart.name() == "renderer.start"@);
    assert(Method::RendererRetry.name() == "renderer.retry"@);
    assert(Method::AudioForward.name() == "audio.forward"@);
    assert(Method::AudioStatus.name() == "audio.status"@);
    assert(Method::PermissionsGet.name() == "permissions.get"@);
    assert(Method::PermissionsSet.name() == "permissions.set"@);
    assert(Method::PermissionsList.name() == "permissions.list"@);
    assert(Method::MediaState.name() == "media.state"@);
    assert(Method::WallpaperOutputs.name() == "wallpaper.outputs"@);
    assert(Method::WallpaperApply.name() == "wallpaper.apply"@);
    assert(Method::WallpaperRestore.name() == "wallpaper.restore"@);
    assert(Method::WallpaperAssignments.name() == "wallpaper.assignments"@);
    assert(Method::SceneInspect.name() == "scene.inspect"@);
}

/// A request of another version than 1 is refused, with the version that is
/// spoken; so is an unknown method, a clock skip without leave, and an apply of
/// a stale daemon, which is told why. Every other one is looked at as the
/// method that it names.
pub proof fn law_requests_are_let_in(
    version: u32,
    method: &str,
    allow_test_faults: bool,
    stale: Option<(String, String)>,
    begun: Result<Method, Fault>,
)
    requires
        call_ensures(begin_request, (version, method, allow_test_faults, stale), begun),
    ensures
        begun matches Ok(found) ==> version == 1 && method@ == wire_name(found),
        version != 1 ==> begun is Err && begun->Err_0.code@ == "unsupported_api_version"@
            && begun->Err_0.supported == Some(1u32),
        version == 1 && begun is Err ==> begun->Err_0.supported is None,
        method@ == "playlist.debug-clock-skip"@ && !allow_test_faults ==> begun is Err,
        version == 1 && method@ == "wallpaper.apply"@ && stale is Some ==> {
            let (code, detail) = stale->0;
            &&& begun is Err && begun->Err_0.code@ == code@
            &&& begun->Err_0.detail is Some && begun->Err_0.detail->0@ == detail@
        },
        version == 1 && method@ == "wallpaper.apply"@ && stale is None ==> begun is Ok,
        version == 1 && method@ == "playlist.debug-clock-skip"@ && allow_test_faults ==> begun is Ok,
        version == 1 && begun is Err && method@ != "wallpaper.apply"@ && (allow_test_faults
            || method@ != "playlist.debug-clock-skip"@) ==> begun->Err_0.code@ == "unknown_method"@
            && forall|any: Method| method@ != #[trigger] wire_name(any),
{
    lemma_wire_names();
    reveal_strlit("wallpaper.apply");
    reveal_strlit("playlist.debug-clock-skip");
    assert("wallpaper.apply"@.len() == 15 && "playlist.debug-clock-skip"@.len() == 25);
    assert(wire_name(Method::WallpaperApply) == "wallpaper.apply"@);
    assert(wire_name(Method::PlaylistDebugClockSkip) == "playlist.debug-clock-skip"@);
    assert(Method::WallpaperApply.name() == "wallpaper.apply"@);
    assert(Method::PlaylistDebugClockSkip.name() == "playlist.debug-clock-skip"@);
}

proof fn lemma_wire_names()
    ensures
        forall|method: Method| #[trigger] method.name() == wire_name(method),
        forall|method: Method| method.name() == #[trigger] wire_name(method),
{
}

// ---------------------------------------------------------------------------
// Calls
// ---------------------------------------------------------------------------

/// A start carries what was asked for: the wallpaper, its hash, the canvas, the
/// rate, the kind, the scaling, and the content under its own kind. It is
/// refused where a test renderer has content or any other kind has none.
pub proof fn law_start_carries_what_was_asked(
    params: RendererStartParams,
    built: Result<StartRequest, String>,
)
    requires
        call_ensures(StartRequest::try_from, (params,), built),
    ensures
        built matches Ok(request) ==> {
            let spec = request.spec;
            &&& spec.wallpaper_id == params.wallpaper_id
            &&& spec.content_hash == params.content_hash
            &&& spec.width == params.width && spec.height == params.height
            &&& spec.fps == params.fps
            &&& spec.kind == params.kind
            &&& spec.scaling == params.scaling
            &&& spec.capability_limitations@.len() == 0
            &&& request.stderr_lines == params.stderr_lines
            &&& request.test_fault is Some <==> params.test_fault is Some
            &&& match spec.content {
                None => params.kind == RendererKind::Test && params.content is None,
                Some(ContentSpec::Video { path }) => params.kind == RendererKind::Video
                    && params.content is Some && path@ == params.content->0@,
                Some(ContentSpec::Web { root }) => params.kind == RendererKind::Web
                    && params.content is Some && root@ == params.content->0@,
                Some(ContentSpec::Scene { path }) => params.kind == RendererKind::Scene
                    && params.content is Some && path@ == params.content->0@,
            }
        },
        params.kind == RendererKind::Test && params.content is Some ==> built is Err,
        params.kind != RendererKind::Test && params.content is None ==> built is Err,
        params.test_fault is None && (params.kind == RendererKind::Test <==> params.content is None)
            ==> built is Ok,
{
}

/// The fault that a test renderer shows is the one that was asked for, after as
/// many frames.
pub proof fn law_test_fault_is_the_one_asked_for(
    params: RendererStartParams,
    built: Result<StartRequest, String>,
)
    requires
        params.test_fault is Some,
        call_ensures(StartRequest::try_from, (params,), built),
        built is Ok,
    ensures
        ({
            let asked = params.test_fault->0;
            match built->Ok_0.test_fault {
                Some(TestFault::StartupHang) => asked.kind@ == "startup_hang"@,
                Some(TestFault::Hang { after }) => asked.kind@ == "hang"@ && after == asked.after,
                Some(TestFault::Corrupt { after }) => asked.kind@ == "corrupt"@ && after
                    == asked.after,
                Some(TestFault::Exit { after }) => asked.kind@ == "exit"@ && after == asked.after,
                Some(TestFault::IgnoreTermHang { after }) => asked.kind@ == "ignore_term_hang"@
                    && after == asked.after,
                Some(TestFault::MemoryPressure { after, mib }) => asked.kind@ == "memory_pressure"@
                    && after == asked.after && asked.mib == Some(mib),
                None => false,
            }
        }),
{
}

/// A request is carried out as it was parsed: permissions for the wallpaper
/// that it names with the patch that it gives, a start or a retry as which of
/// them was asked, and an inspection of the path, which has to be absolute.
pub proof fn law_calls_carry_the_request<H>(
    method: Method,
    params: Params<H>,
    allow_test_faults: bool,
    planned: Result<Call<H>, Fault>,
)
    requires
        crate::request::fits(method, params),
        call_ensures(plan_call::<H>, (method, params, allow_test_faults), planned),
    ensures
        match params {
            Params::Held(held) => planned is Ok && planned->Ok_0 is Plain
                && planned->Ok_0->Plain_0 == method && planned->Ok_0->Plain_1 == held,
            Params::Permissions { wallpaper_id, patch } => {
                &&& planned is Ok <==> is_name(wallpaper_id@)
                &&& planned is Ok && method == Method::PermissionsSet ==> planned->Ok_0
                    == Call::<H>::PermissionsSet { wallpaper_id, patch }
                &&& planned is Ok && method == Method::PermissionsGet ==> planned->Ok_0
                    == Call::<H>::PermissionsGet { wallpaper_id }
            },
            Params::Start(start) => {
                &&& (start.test_fault is Some || start.stderr_lines is Some) && !allow_test_faults
                    ==> planned is Err && planned->Err_0.code@ == "test_faults_disabled"@
                &&& planned is Ok ==> planned->Ok_0 is Start && (planned->Ok_0->retry <==> method
                    == Method::RendererRetry) && planned->Ok_0->request.spec.wallpaper_id
                    == start.wallpaper_id && planned->Ok_0->request.spec.kind == start.kind
            },
            Params::Inspect { path } => {
                &&& planned is Ok <==> path@.len() > 0 && path@[0] == '/'
                &&& planned is Ok ==> planned->Ok_0 is Inspect && planned->Ok_0->path == path
            },
        },
        planned is Err && !(params is Start) ==> planned->Err_0.code@ == "invalid_params"@,
{
    if let Params::Permissions { wallpaper_id, patch } = params {
        crate::laws_stores::lemma_names(wallpaper_id@);
    }
}

// ---------------------------------------------------------------------------
// Answers
// ---------------------------------------------------------------------------

/// An error of the apply service has its own code, and keeps its detail.
pub proof fn law_apply_errors_have_their_codes(
    error: &ApplyError,
    code: &'static str,
    detail: Option<&str>,
    fields: Option<(&Vec<String>, &Option<String>)>,
)
    requires
        call_ensures(ApplyError::code, (error,), code),
        call_ensures(ApplyError::detail, (error,), detail),
        call_ensures(ApplyError::extra_fields, (error,), fields),
    ensures
        detail is None <==> *error is Busy,
        fields is Some <==> *error is CapabilityGate,
        match *error {
            ApplyError::Invalid(text) => code@ == "invalid_params"@ && detail->0@ == text@,
            ApplyError::UnknownWallpaper(text) => code@ == "apply_unknown_wallpaper"@
                && detail->0@ == text@,
            ApplyError::Incompatible(text) => code@ == "apply_incompatible"@ && detail->0@ == text@,
            ApplyError::CapabilityGate { detail: text, missing, inspection_reason } => code@
                == "apply_incompatible"@ && detail->0@ == text@ && fields == Some(
                (&missing, &inspection_reason),
            ),
            ApplyError::OutputMissing(text) => code@ == "output_missing"@ && detail->0@ == text@,
            ApplyError::Busy => code@ == "apply_busy"@,
            ApplyError::Yielded(text) => code@ == "apply_yielded"@ && detail->0@ == text@,
            ApplyError::ShellUnreachable(text) => code@ == "shell_unreachable"@ && detail->0@
                == text@,
            ApplyError::DisplayUnavailable(text) => code@ == "display_unavailable"@ && detail->0@
                == text@,
            ApplyError::Transaction(text) => code@ == "apply_failed"@ && detail->0@ == text@,
            ApplyError::Quarantined(text) => code@ == "apply_quarantined"@ && detail->0@ == text@,
            ApplyError::RestoreFailed(text) => code@ == "restore_failed"@ && detail->0@ == text@,
        },
{
}

/// An enumeration that failed for want of a display says so; any other is an
/// unreachable shell; both keep the detail.
pub proof fn law_missing_display_stays_distinct(
    failure: ProbeError,
    error: ApplyError,
    message: String,
)
    requires
        call_ensures(enumeration_error, (failure,), error),
        call_ensures(ProbeError::message, (&failure,), message),
    ensures
        error is DisplayUnavailable <==> failure is DisplayUnavailable,
        error is ShellUnreachable <==> !(failure is DisplayUnavailable),
        failure is DisplayUnavailable ==> error->DisplayUnavailable_0@ == message@,
        !(failure is DisplayUnavailable) ==> error->ShellUnreachable_0@ == message@,
{
}

/// The fault carries no version and no refusal, and this code and detail.
pub open spec fn says(fault: Fault, code: Seq<char>, detail: Option<String>) -> bool {
    &&& fault.code@ == code
    &&& same_option(fault.detail, detail)
    &&& fault.supported is None
    &&& fault.refusal is None
}

/// What a part said is passed on: its value as it is, its error under the
/// part's own code with its detail, and its absence under another.
pub proof fn law_parts_answers_are_passed_on<T>(
    said: Option<Result<T, String>>,
    audio: Result<T, Fault>,
    permissions: Result<T, Fault>,
    supervisor: Result<T, Fault>,
    written: Result<T, String>,
    answer: Result<T, Fault>,
)
    requires
        call_ensures(audio_call::<T>, (said,), audio),
        call_ensures(permissions_call::<T>, (said,), permissions),
        call_ensures(supervisor_call::<T>, (said,), supervisor),
        call_ensures(serialized::<T>, (written,), answer),
    ensures
        match said {
            None => {
                &&& audio is Err && says(audio->Err_0, "audio_unavailable"@, None)
                &&& permissions is Err && says(
                    permissions->Err_0,
                    "permissions_unavailable"@,
                    None,
                )
                &&& supervisor is Err && says(supervisor->Err_0, "supervisor_unavailable"@, None)
            },
            Some(Ok(value)) => {
                &&& audio is Ok && audio->Ok_0 == value
                &&& permissions is Ok && permissions->Ok_0 == value
                &&& supervisor is Ok && supervisor->Ok_0 == value
            },
            Some(Err(error)) => {
                &&& audio is Err && says(audio->Err_0, "audio_failed"@, Some(error))
                &&& permissions is Err && says(
                    permissions->Err_0,
                    "permissions_failed"@,
                    Some(error),
                )
                &&& supervisor is Err && says(
                    supervisor->Err_0,
                    "supervisor_failed"@,
                    Some(error),
                )
            },
        },
        match written {
            Ok(value) => answer is Ok && answer->Ok_0 == value,
            Err(error) => answer is Err && says(
                answer->Err_0,
                "serialization_failed"@,
                Some(error),
            ),
        },
{
}

/// What the session said is passed on, each error under its own code and in its
/// own words.
pub proof fn law_session_answers_are_passed_on<T>(
    said: Option<Result<T, SessionError>>,
    answer: Result<T, Fault>,
    message: String,
)
    requires
        call_ensures(playlist_call::<T>, (said,), answer),
        said is Some && said->0 is Err ==> call_ensures(
            SessionError::message,
            (&said->0->Err_0,),
            message,
        ),
    ensures
        match said {
            None => answer is Err && says(answer->Err_0, "playlist_unavailable"@, None),
            Some(Ok(value)) => answer is Ok && answer->Ok_0 == value,
            Some(Err(error)) => answer is Err && says(
                answer->Err_0,
                match error {
                    SessionError::NotFound(_) => "playlist_not_found"@,
                    SessionError::ImportBlocked => "playlist_import_blocked"@,
                    SessionError::StoreUnavailable(_) => "playlist_store_unavailable"@,
                    SessionError::Invalid(_) => "invalid_playlist"@,
                    SessionError::Busy(_) => "playlist_busy"@,
                },
                Some(message),
            ),
        },
{
}

/// What the applier said is passed on: its value, or its error with its code,
/// its detail, and what a capability refusal lists.
pub proof fn law_appliers_answers_are_passed_on<T>(
    said: Option<Result<T, ApplyError>>,
    answer: Result<T, Fault>,
    code: &'static str,
    detail: Option<&str>,
)
    requires
        call_ensures(apply_call::<T>, (said,), answer),
        said is Some && said->0 is Err ==> call_ensures(
            ApplyError::code,
            (&said->0->Err_0,),
            code,
        ) && call_ensures(ApplyError::detail, (&said->0->Err_0,), detail),
    ensures
        match said {
            None => answer is Err && says(answer->Err_0, "apply_unavailable"@, None),
            Some(Ok(value)) => answer is Ok && answer->Ok_0 == value,
            Some(Err(error)) => {
                &&& answer is Err && answer->Err_0.code@ == code@
                &&& answer->Err_0.supported is None
                &&& answer->Err_0.detail is Some <==> detail is Some
                &&& detail is Some ==> answer->Err_0.detail->0@ == detail->0@
                &&& answer->Err_0.refusal is Some <==> error is CapabilityGate
                &&& error is CapabilityGate ==> same_texts(
                    answer->Err_0.refusal->0.missing@,
                    error->missing@,
                ) && same_option(
                    answer->Err_0.refusal->0.inspection_reason,
                    error->inspection_reason,
                )
            },
        },
{
    if said is Some && said->0 is Err {
        let error = said->0->Err_0;
        if error is CapabilityGate {
            let fault = answer->Err_0;
            assert(fault@.refusal is Some);
            crate::laws_stores::lemma_texts(fault.refusal->0.missing@, error->missing@);
        }
    }
}

/// The caller is told what the part said: its value, or its fault. Only a frame
/// of the daemon's own worker is dropped in silence, and only because no
/// renderer is live.
pub proof fn law_caller_is_told_what_was_said<T>(
    method: Method,
    caller: Caller,
    said: Said<T>,
    plain: Result<T, Fault>,
    answer: Result<Answer<T>, Fault>,
)
    requires
        call_ensures(Said::<T>::answer, (said,), plain),
        call_ensures(settle::<T>, (method, caller, said), answer),
    ensures
        plain matches Ok(value) ==> answer is Ok && answer->Ok_0 is Value
            && answer->Ok_0->Value_0 == value,
        answer is Ok && answer->Ok_0 is Value ==> plain is Ok,
        answer is Ok && answer->Ok_0 is Dropped <==> {
            &&& plain is Err
            &&& method == Method::AudioForward
            &&& caller.worker_pid != 0 && caller.peer.pid == caller.worker_pid
            &&& caller.peer.uid == caller.effective_uid
            &&& plain->Err_0.code@ == "supervisor_failed"@
            &&& plain->Err_0.detail is Some && plain->Err_0.detail->0@
                == "no promoted renderer is available for audio forwarding"@
        },
        answer is Err ==> plain is Err && answer->Err_0.code@ == plain->Err_0.code@ && same_option(
            answer->Err_0.detail,
            plain->Err_0.detail,
        ),
{
}

/// A frame is dropped in silence only for the daemon's own worker: its process
/// and its user, while one runs; and of the drops the first five and one in a
/// thousand are logged.
pub proof fn law_only_the_workers_frames_are_dropped(
    peer: PeerCred,
    worker_pid: u32,
    uid: u32,
    fault: &Fault,
    dropped: bool,
    drops: u64,
    logged: bool,
    nobody: PeerCred,
)
    requires
        call_ensures(classify_audio_error, (peer, worker_pid, uid, fault), dropped),
        call_ensures(logs_audio_drop, (drops,), logged),
        call_ensures(PeerCred::default, (), nobody),
    ensures
        dropped ==> worker_pid != 0 && peer.pid == worker_pid && peer.uid == uid,
        dropped ==> fault.code@ == "supervisor_failed"@ && fault.detail is Some,
        drops <= 4 ==> logged,
        drops >= 5 ==> (logged <==> drops % 1000 == 0),
        nobody.pid == 0,
{
}

/// A value reaches the caller only where the request is of version 1 and a call
/// was made; and no apply of a stale daemon gets as far.
pub proof fn law_values_come_of_calls<
    H,
    T,
    P: FnOnce(Method) -> Result<Params<H>, String>,
    K: FnOnce(&StartRequest) -> Result<(), String>,
    X: FnOnce(Call<H>) -> Said<T>,
>(
    version: u32,
    method: &str,
    allow_test_faults: bool,
    stale: Option<(String, String)>,
    caller: Caller,
    parse: P,
    preflight: K,
    execute: X,
    answer: Result<Answer<T>, Fault>,
)
    requires
        call_ensures(
            process_request::<H, T, P, K, X>,
            (version, method, allow_test_faults, stale, caller, parse, preflight, execute),
            answer,
        ),
    ensures
        version != 1 ==> answer is Err && answer->Err_0.code@ == "unsupported_api_version"@,
        method@ == "wallpaper.apply"@ && stale is Some ==> answer is Err,
        method@ == "playlist.debug-clock-skip"@ && !allow_test_faults ==> answer is Err,
        answer is Ok ==> exists|call: Call<H>, said: Said<T>| #[trigger]
            call_ensures(execute, (call,), said) && (answer->Ok_0 is Value ==> said.value() == Some(
                answer->Ok_0->Value_0,
            )),
{
    assert(Method::WallpaperApply.name() == "wallpaper.apply"@);
    assert(Method::PlaylistDebugClockSkip.name() == "playlist.debug-clock-skip"@);
    if answer is Ok {
        let (found, params) = choose|found: Method, params: Result<Params<H>, String>|
            {
                &&& found.name() == method@
                &&& #[trigger] call_ensures(parse, (found,), params)
                &&& match params {
                    Ok(parsed) => crate::request::carried_out(
                        found,
                        parsed,
                        allow_test_faults,
                        caller,
                        preflight,
                        execute,
                        answer,
                    ),
                    Err(detail) => answer matches Err(fault) && fault@ == crate::request::detailed(
                        "invalid_params"@,
                        detail@,
                    ),
                }
            };
        let parsed = params->Ok_0;
        let (call, outcome) = choose|call: Call<H>, outcome: Result<(), String>|
            {
                &&& crate::request::carries_out(found, parsed, call)
                &&& #[trigger] crate::request::looked_at(call, preflight, outcome)
                &&& match outcome {
                    Ok(()) => crate::request::made(found, call, caller, execute, answer),
                    Err(detail) => answer matches Err(fault) && fault@ == crate::request::detailed(
                        "invalid_params"@,
                        detail@,
                    ),
                }
            };
        assert(crate::request::made(found, call, caller, execute, answer));
    }
}

// ---------------------------------------------------------------------------
// Inspections and the catalog
// ---------------------------------------------------------------------------

/// One inspection runs at a time, of an absolute path; the next is let in once
/// it is over.
pub proof fn law_one_inspection_at_a_time(
    gate: &mut InspectGate,
    params: Result<String, String>,
    dispatch: InspectDispatch,
    left: &mut InspectGate,
)
    requires
        call_ensures(InspectGate::dispatch, (gate, params), dispatch),
        call_ensures(InspectGate::leave, (left,), ()),
    ensures
        dispatch is Run <==> params is Ok && params->Ok_0@.len() > 0 && params->Ok_0@[0] == '/'
            && !old(gate).in_flight,
        dispatch is Busy <==> params is Ok && params->Ok_0@.len() > 0 && params->Ok_0@[0] == '/'
            && old(gate).in_flight,
        dispatch is Run ==> dispatch->path == params->Ok_0 && final(gate).in_flight,
        dispatch is Refused ==> dispatch->Refused_0.code@ == "invalid_params"@
            && final(gate).in_flight == old(gate).in_flight,
        old(gate).in_flight ==> final(gate).in_flight,
        !final(left).in_flight,
{
}

/// A playlist may play what is installed and not invalid, and nothing else.
pub proof fn law_installed_items_may_be_played(items: &Vec<CatalogItem>, ids: NameMap<()>, i: int)
    requires
        call_ensures(compute_valid_ids, (items,), ids),
        0 <= i < items@.len(),
    ensures
        (items@[i].workshop_state@ == "local"@ || items@[i].workshop_state@
            == "subscribed_installed"@) && items@[i].kind != ProjectKind::Invalid
            ==> ids@.contains_key(items@[i].workshop_id@),
        ids@.contains_key(items@[i].workshop_id@) ==> exists|k: int|
            0 <= k < items@.len() && (#[trigger] items@[k]).workshop_id@ == items@[i].workshop_id@
                && items@[k].kind != ProjectKind::Invalid && (items@[k].workshop_state@ == "local"@
                || items@[k].workshop_state@ == "subscribed_installed"@),
{
    let id = items@[i].workshop_id@;
    assert(ids@.contains_key(id) <==> crate::request::available_id(items@, id));
    if crate::request::available(items@[i]) {
        assert(crate::request::available_id(items@, id));
    }
}

/// Parameters that do not fit are told why; and only an absolute path is
/// inspected.
pub proof fn law_bad_parameters_are_told(
    detail: String,
    fault: Fault,
    path: String,
    valid: Result<String, Fault>,
)
    requires
        call_ensures(invalid_params, (detail,), fault),
        call_ensures(validate_scene_inspect_params, (path,), valid),
    ensures
        says(fault, "invalid_params"@, Some(detail)),
        valid is Ok <==> path@.len() > 0 && path@[0] == '/',
        valid is Ok ==> valid->Ok_0 == path,
        valid is Err ==> valid->Err_0.code@ == "invalid_params"@,
{
}

} // verus!
