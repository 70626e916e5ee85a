//! What the daemon's other parts promise: its settings, the audio worker, its
//! child processes, the web sandbox, its own binary, its request lines, and the
//! apply service's lock and cache.
//!
//! Each law speaks of what a function may answer, or leave behind.

use vstd::prelude::*;

use crate::apply::{join_path, ApplyError};
use crate::assignments::{Assignment, AssignmentStore};
use crate::audio::{
    asked_to_stop, begin_stop, exit_detail, prune_restart_window, stop_polled, worker_arguments,
    AudioCaptureConfig, AudioCaptureHandle, AudioCaptureStatus, AudioRuntime, StopStage,
};
use crate::child::{absorb, BoundedRun, Poll, RunStep};
use crate::handle::{
    enumerate_fresh, enumeration_script, parse_probe_reply, ApplyConfig, ApplyHandle, ApplyService,
};
use crate::laws_apply::same_previous;
use crate::model::RendererKind;
use crate::playlist_session::Sent;
use crate::names::NameMap;
use crate::probe::{OutputInfo, ProbeError, ProbeReply, SystemOutput};
use crate::request_line::{check_request_size, LineStep, RequestLine};
use crate::selfcheck::{stale_detail, stale_error, Installed, InstalledBinary};
use crate::settings::{
    choose_assets_dir, claim_socket, default_audio_worker_path, default_fps, default_height,
    default_inspector_path, default_kind, default_renderer_path, default_socket_path,
    default_state_dir, default_width, resource_limits_for_kinds, validate_socket_parent, ByKind, RendererResourceLimits,
    RendererSettings, SocketPlace,
};
use crate::websandbox::{
    chromium_command, display_binds, sandbox_root, web_preview_command, web_renderer_command,
    x11_display_number,
    WebSandboxCommand,
};

verus! {

// ---------------------------------------------------------------------------
// Settings
// ---------------------------------------------------------------------------

/// The settings that a daemon starts with are ones that may be set.
pub proof fn law_defaults_may_be_set(settings: RendererSettings, yes: bool)
    requires
        call_ensures(RendererSettings::default, (), settings),
        call_ensures(RendererSettings::is_within_bounds, (&settings,), yes),
    ensures
        yes,
        settings.renderer_web_startup_timeout_ms > settings.renderer_video_startup_timeout_ms,
        settings.renderer_video_startup_timeout_ms > settings.renderer_startup_timeout_ms,
        settings.renderer_scene_startup_timeout_ms == settings.renderer_video_startup_timeout_ms,
        settings.renderer_max_failures == 3,
        settings.renderer_web_heartbeat_max_failures == 3,
        settings.renderer_web_address_space_mib > settings.renderer_address_space_mib,
        settings.renderer_web_open_files > settings.renderer_open_files,
        settings.renderer_processes < settings.renderer_video_processes,
        settings.renderer_video_processes == 32768 && settings.renderer_web_processes == 32768
            && settings.renderer_scene_processes == 32768,
{
}

/// What may be set is bounded on both sides: no timeout is shorter than 100 ms
/// or longer than 30 s, no failure count is zero, and no ceiling starves a
/// renderer.
pub proof fn law_settings_are_bounded(settings: &RendererSettings, yes: bool)
    requires
        call_ensures(RendererSettings::is_within_bounds, (settings,), yes),
        yes,
    ensures
        99 < settings.renderer_startup_timeout_ms < 30001,
        99 < settings.renderer_video_startup_timeout_ms < 30001,
        99 < settings.renderer_scene_startup_timeout_ms < 30001,
        99 < settings.renderer_web_startup_timeout_ms < 30001,
        99 < settings.renderer_frame_timeout_ms < 30001,
        99 < settings.renderer_canary_ms < 30001,
        99 < settings.renderer_handoff_timeout_ms < 30001,
        19 < settings.renderer_stop_grace_ms < 5001,
        settings.renderer_restart_delay_ms < 10001,
        0 < settings.renderer_max_failures < 11,
        0 < settings.renderer_web_heartbeat_max_failures < 11,
        249 < settings.renderer_web_heartbeat_ms < 60001,
        255 < settings.renderer_address_space_mib < 65537,
        255 < settings.renderer_web_address_space_mib < 262145,
        31 < settings.renderer_open_files < 4097,
        31 < settings.renderer_web_open_files < 4097,
        63 < settings.renderer_processes < 32769,
        63 < settings.renderer_video_processes < 32769,
        63 < settings.renderer_web_processes < 32769,
        63 < settings.renderer_scene_processes < 32769,
{
}

/// Each kind of renderer gets its own ceilings and its own time to start; none
/// may dump core, and all may write files of the same size.
pub proof fn law_each_kind_has_its_own_limits(
    settings: &RendererSettings,
    limits: ByKind<RendererResourceLimits>,
    timeouts: ByKind<u64>,
    kind: RendererKind,
    limit: RendererResourceLimits,
    timeout: u64,
)
    requires
        call_ensures(RendererSettings::resource_limits, (settings,), limits),
        call_ensures(RendererSettings::startup_timeouts, (settings,), timeouts),
        call_ensures(ByKind::<RendererResourceLimits>::of, (&limits, kind), limit),
        call_ensures(ByKind::<u64>::of, (&timeouts, kind), timeout),
    ensures
        limit.core_dump_bytes == 0,
        limit.file_size_mib == 160,
        limit.address_space_mib == if kind == RendererKind::Web {
            settings.renderer_web_address_space_mib
        } else {
            settings.renderer_address_space_mib
        },
        limit.open_files == if kind == RendererKind::Web {
            settings.renderer_web_open_files
        } else {
            settings.renderer_open_files
        },
        kind == RendererKind::Test ==> limit.processes == settings.renderer_processes && timeout
            == settings.renderer_startup_timeout_ms,
        kind == RendererKind::Video ==> limit.processes == settings.renderer_video_processes
            && timeout == settings.renderer_video_startup_timeout_ms,
        kind == RendererKind::Web ==> limit.processes == settings.renderer_web_processes
            && timeout == settings.renderer_web_startup_timeout_ms,
        kind == RendererKind::Scene ==> limit.processes == settings.renderer_scene_processes
            && timeout == settings.renderer_scene_startup_timeout_ms,
{
}

/// A renderer that is started without a size, a rate or a kind is the test
/// renderer at 960 by 540 and 30 frames a second.
pub proof fn law_start_defaults(width: u32, height: u32, fps: u32, kind: RendererKind)
    requires
        call_ensures(default_width, (), width),
        call_ensures(default_height, (), height),
        call_ensures(default_fps, (), fps),
        call_ensures(default_kind, (), kind),
    ensures
        width * 9 == height * 16 && width == 960,
        fps == 30,
        kind == RendererKind::Test,
{
}

/// The socket is in the runtime directory, the state in the state directory or
/// under the home directory, and neither is anywhere else.
pub proof fn law_places_are_the_users(
    runtime: Option<String>,
    socket: Result<String, String>,
    state_home: Option<String>,
    home: Option<String>,
    state: Result<String, String>,
)
    requires
        call_ensures(default_socket_path, (runtime,), socket),
        call_ensures(default_state_dir, (state_home, home), state),
    ensures
        socket is Ok <==> runtime is Some,
        state is Ok <==> state_home is Some || home is Some,
        socket is Err ==> socket->Err_0@ == "XDG_RUNTIME_DIR is not set; pass --socket"@,
        state is Err ==> state->Err_0@ == "HOME is not set; pass --state-dir"@,
        socket matches Ok(path) ==> path@ == crate::apply::joined(
            runtime->0@,
            "kwe/daemon-v1.sock"@,
        ),
        state_home is Some ==> state->Ok_0@ == crate::apply::joined(state_home->0@, "kwe"@),
        state_home is None && home is Some ==> state->Ok_0@ == crate::apply::joined(
            home->0@,
            ".local/state/kwe"@,
        ),
{
}

/// The binaries stand beside the daemon, each under its own name.
pub proof fn law_binaries_stand_beside_the_daemon(
    directory: &str,
    kind: RendererKind,
    renderer: String,
    worker: String,
    known: Option<&str>,
    inspector: Option<String>,
)
    requires
        call_ensures(default_renderer_path, (directory, kind), renderer),
        call_ensures(default_audio_worker_path, (directory,), worker),
        call_ensures(default_inspector_path, (known,), inspector),
    ensures
        kind == RendererKind::Test ==> renderer@ == crate::apply::joined(
            directory@,
            "kwe-test-renderer"@,
        ),
        kind == RendererKind::Video ==> renderer@ == crate::apply::joined(
            directory@,
            "kwe-video-renderer"@,
        ),
        kind == RendererKind::Web ==> renderer@ == crate::apply::joined(
            directory@,
            "kwe-web-renderer"@,
        ),
        kind == RendererKind::Scene ==> renderer@ == crate::apply::joined(
            directory@,
            "kwe-scene-renderer"@,
        ),
        worker@ == crate::apply::joined(directory@, "kwe-audio-worker"@),
        inspector is Some <==> known is Some,
        inspector is Some ==> inspector->0@ == crate::apply::joined(
            known->0@,
            "kwe-scene-inspector"@,
        ),
{
}

/// A file name is joined to a directory with one slash; to one that ends in a
/// slash, or to none, with no other.
pub proof fn law_paths_are_joined_with_one_slash(base: &str, name: &str, whole: String)
    requires
        call_ensures(join_path, (base, name), whole),
    ensures
        base@.len() > 0 && base@.last() != '/' ==> whole@ == base@ + seq!['/'] + name@,
        base@.len() == 0 || base@.last() == '/' ==> whole@ == base@ + name@,
{
    reveal_strlit("/");
    assert("/"@ =~= seq!['/']);
    assert(Seq::<char>::empty() + name@ =~= name@);
    if base@.len() == 0 {
        assert(base@ =~= Seq::<char>::empty());
    }
}

/// What the user named is taken if it is a directory, and never replaced by
/// what was found.
pub proof fn law_named_assets_are_not_replaced(
    named: Option<String>,
    is_dir: bool,
    found: Option<String>,
    directory: Option<String>,
)
    requires
        call_ensures(choose_assets_dir, (named, is_dir, found), directory),
    ensures
        named is None ==> directory == found,
        named is Some && is_dir ==> directory == named,
        named is Some && !is_dir ==> directory is None,
{
}

/// Only an abandoned socket is removed; the daemon starts over nothing else
/// that stands in its way, and only in a real directory.
pub proof fn law_only_abandoned_sockets_are_removed(
    place: SocketPlace,
    path: &str,
    remove: Result<bool, String>,
    is_symlink: bool,
    is_dir: bool,
    valid: Result<(), String>,
)
    requires
        call_ensures(claim_socket, (place, path), remove),
        call_ensures(validate_socket_parent, (is_symlink, is_dir), valid),
    ensures
        remove is Ok && remove->Ok_0 <==> place == SocketPlace::Abandoned,
        remove is Ok <==> place == SocketPlace::Abandoned || place == SocketPlace::Free,
        valid is Ok <==> is_dir && !is_symlink,
{
}

// ---------------------------------------------------------------------------
// Audio
// ---------------------------------------------------------------------------

/// The worker is told the daemon's socket, and the node to capture if one is
/// set.
pub proof fn law_worker_is_told_its_socket(config: &AudioCaptureConfig, args: Vec<String>)
    requires
        call_ensures(worker_arguments, (config,), args),
    ensures
        args@.len() == if config.capture_node is Some {
            4int
        } else {
            2
        },
        args@[0]@ == "--socket"@ && args@[1]@ == config.socket@,
        config.capture_node is Some ==> args@[2]@ == "--capture-node"@ && args@[3]@
            == config.capture_node->0@,
{
    let views = crate::text::views(args@);
    assert(views.len() == args@.len());
    assert(views[0] == args@[0]@ && views[1] == args@[1]@);
    if config.capture_node is Some {
        assert(views[2] == args@[2]@ && views[3] == args@[3]@);
    }
}

/// Of restarts in their order, exactly those of the window still count.
pub proof fn law_window_is_what_counts(history: &mut Vec<u64>, now: u64, window: u64, time: u64)
    requires
        forall|i: int, j: int| 0 <= i <= j < history@.len() ==> history@[i] <= history@[j],
        call_ensures(prune_restart_window, (history, now, window), ()),
    ensures
        final(history)@.contains(time) <==> old(history)@.contains(time) && now - time <= window,
        final(history)@.len() <= old(history)@.len(),
        final(history)@ == old(history)@.skip(old(history)@.len() - final(history)@.len()),
{
    crate::audio::law_pruning_keeps_the_window(history@, now, window);
    lemma_pruned_is_the_end(history@, now, window);
    let kept = crate::audio::pruned(history@, now, window);
    if kept.contains(time) {
        let i = choose|i: int| 0 <= i < kept.len() && kept[i] == time;
        assert(!crate::audio::out_of_window(kept[i], now, window));
        assert(history@[history@.len() - kept.len() + i] == time);
    }
}

proof fn lemma_pruned_is_the_end(history: Seq<u64>, now: u64, window: u64)
    ensures
        ({
            let kept = crate::audio::pruned(history, now, window);
            kept.len() <= history.len() && kept == history.skip(history.len() - kept.len())
        }),
    decreases history.len(),
{
    let kept = crate::audio::pruned(history, now, window);
    if history.len() > 0 && crate::audio::out_of_window(history[0], now, window) {
        let rest = history.drop_first();
        lemma_pruned_is_the_end(rest, now, window);
        assert(kept =~= history.skip(history.len() - kept.len()));
    } else {
        assert(history.skip(0) =~= history);
    }
}

/// A worker is started again unless it went down three times before within ten
/// minutes; then it never is again. Every restart is counted.
pub proof fn law_restarts_are_budgeted(runtime: &mut AudioRuntime, now: u64, restart: bool)
    requires
        runtime.restarts < u64::MAX,
        runtime.restarts_in_window@.len() <= 3,
        forall|i: int, j: int|
            0 <= i <= j < runtime.restarts_in_window@.len() ==> runtime.restarts_in_window@[i]
                <= runtime.restarts_in_window@[j],
        call_ensures(AudioRuntime::worker_down, (runtime, now), restart),
    ensures
        restart <==> old(runtime).disabled_reason is None && !(old(runtime).restarts_in_window@.len() == 3 && now - old(runtime).restarts_in_window@[0] <= 600000),
        final(runtime).disabled_reason is None <==> restart,
        restart ==> final(runtime).restarts == old(runtime).restarts + 1 && final(runtime).restarts_in_window@.len() > 0 && final(runtime).restarts_in_window@.last() == now,
        !restart ==> final(runtime).restarts == old(runtime).restarts,
        old(runtime).disabled_reason is Some ==> final(runtime).disabled_reason == old(runtime).disabled_reason,
        !restart && old(runtime).disabled_reason is None ==> final(runtime).disabled_reason->0@
            == "too_many_restarts"@,
        final(runtime).worker_pid == 0,
        final(runtime).enabled == old(runtime).enabled,
{
    let history = runtime.restarts_in_window@;
    lemma_pruned_is_the_end(history, now, 600000);
    let kept = crate::audio::pruned(history, now, 600000);
    if history.len() == 3 {
        lemma_pruned_is_the_end(history.drop_first(), now, 600000);
        if kept.len() == 3 {
            assert(kept =~= history);
        }
    }
}

/// The capture begins with no worker and no restarts; a worker that was started
/// is the live one; and the status says so.
pub proof fn law_capture_is_reported(
    enabled: bool,
    fresh: AudioRuntime,
    runtime: &mut AudioRuntime,
    pid: u32,
    status: AudioCaptureStatus,
)
    requires
        call_ensures(AudioRuntime::new, (enabled,), fresh),
        call_ensures(AudioRuntime::spawned, (runtime, pid), ()),
        call_ensures(AudioRuntime::status, (&*final(runtime),), status),
    ensures
        fresh.enabled == enabled && fresh.worker_pid == 0 && fresh.restarts == 0,
        fresh.restarts_in_window@.len() == 0 && fresh.disabled_reason is None,
        status.pid is Some <==> pid != 0,
        status.pid matches Some(live) ==> live == pid,
        status.enabled == old(runtime).enabled,
        status.restarts == old(runtime).restarts,
        status.disabled_reason == old(runtime).disabled_reason,
        final(runtime).restarts_in_window == old(runtime).restarts_in_window,
{
}

/// The capture's status is had only where the question was queued and answered.
pub proof fn law_capture_status_needs_a_reply(
    handle: &AudioCaptureHandle,
    sent: Sent,
    replied: bool,
    answer: Result<AudioCaptureStatus, String>,
)
    requires
        call_ensures(AudioCaptureHandle::status, (handle, sent, replied), answer),
    ensures
        answer is Ok <==> sent == Sent::Queued && replied,
        answer matches Ok(status) ==> status.enabled == handle.runtime.enabled && status.restarts
            == handle.runtime.restarts && status.disabled_reason == handle.runtime.disabled_reason
            && (status.pid is Some <==> handle.runtime.worker_pid != 0),
        sent == Sent::Full ==> answer->Err_0@ == "audio capture command queue is full"@,
        sent == Sent::Disconnected ==> answer->Err_0@ == "audio capture is unavailable"@,
        sent == Sent::Queued && !replied ==> answer->Err_0@
            == "audio capture command timed out"@,
{
}

/// A worker that has not ended is asked first, has one second, and is killed
/// after it and not before.
pub proof fn law_worker_is_asked_before_it_is_killed(
    ended: bool,
    begun: StopStage,
    asked: u64,
    grace: StopStage,
    deadline: u64,
    gone: bool,
    now: u64,
    polled: StopStage,
)
    requires
        asked <= 1000000000000,
        call_ensures(begin_stop, (ended,), begun),
        call_ensures(asked_to_stop, (asked,), grace),
        call_ensures(stop_polled, (deadline, gone, now), polled),
    ensures
        begun == StopStage::Gone <==> ended,
        begun == StopStage::Terminate <==> !ended,
        grace is Grace && grace->deadline == asked + 1000,
        polled == StopStage::Kill <==> now >= deadline,
        polled == StopStage::Gone <==> gone && now < deadline,
        polled is Grace ==> polled->deadline == deadline,
{
}

/// An exit is told by its code, a kill by its signal.
pub proof fn law_exit_is_told(code: Option<i32>, signal: Option<i32>, detail: String)
    requires
        call_ensures(exit_detail, (code, signal), detail),
    ensures
        code is Some && code->0 >= 0 ==> detail@ == "exit_code_"@ + crate::text::decimal(
            code->0 as nat,
        ),
        code is Some && code->0 < 0 ==> detail@ == "exit_code_"@ + ("-"@ + crate::text::decimal(
            (0 - code->0) as nat,
        )),
        code is None && signal is Some && signal->0 >= 0 ==> detail@ == "signal_"@
            + crate::text::decimal(signal->0 as nat),
        code is None && signal is None ==> detail@ == "unknown_exit"@,
{
}

// ---------------------------------------------------------------------------
// Child processes
// ---------------------------------------------------------------------------

/// What is kept of a child's output is its beginning, to the last byte that
/// fits.
pub proof fn law_output_is_kept_from_its_beginning(buffer: &mut Vec<u8>, chunk: &[u8], cap: usize)
    requires
        buffer@.len() <= cap,
        call_ensures(absorb, (buffer, chunk, cap), ()),
    ensures
        final(buffer)@.len() <= cap,
        final(buffer)@ == (old(buffer)@ + chunk@).take(final(buffer)@.len() as int),
        final(buffer)@.len() < cap ==> final(buffer)@ == old(buffer)@ + chunk@,
        old(buffer)@.len() + chunk@.len() >= cap ==> final(buffer)@.len() == cap,
{
    crate::child::law_capped_output_is_a_bounded_prefix(buffer@, chunk@, cap as nat);
}

/// A run begins with nothing seen. It is done exactly once the child has ended
/// and both its pipes; a child that runs is killed at its deadline and not
/// before; and an ended child's pipes are waited for fifty times.
pub proof fn law_run_ends_with_its_child(
    now: u64,
    timeout: u64,
    fresh: BoundedRun,
    run: &mut BoundedRun,
    poll: Poll,
    step: RunStep,
)
    requires
        call_ensures(BoundedRun::start, (now, timeout), fresh),
        call_ensures(BoundedRun::step, (run, poll), step),
    ensures
        !fresh.exited && !fresh.stdout_eof && !fresh.stderr_eof && fresh.waits == 0,
        fresh.started_ms == now && fresh.timeout_ms == timeout,
        step == RunStep::Done <==> (old(run).exited && (old(run).stdout_eof || poll.stdout_eof) && (
        old(run).stderr_eof || poll.stderr_eof)) || (!old(run).exited && poll.exited && poll.stdout_eof
            && poll.stderr_eof),
        step == RunStep::Kill <==> !old(run).exited && !poll.exited && poll.now_ms >= old(run).started_ms
            + old(run).timeout_ms,
        step == RunStep::Stalled ==> old(run).exited && old(run).waits >= 50,
        step is WaitMs && old(run).exited ==> final(run).waits == old(run).waits + 1 && old(run).waits < 50,
        final(run).exited <==> old(run).exited || poll.exited,
        final(run).started_ms == old(run).started_ms && final(run).timeout_ms == old(run).timeout_ms,
{
}

// ---------------------------------------------------------------------------
// The web sandbox
// ---------------------------------------------------------------------------

/// `arguments[at]` and the two after it bind the content, read-only, where the
/// browser looks for it.
pub open spec fn binds_content(arguments: Seq<String>, root: Seq<char>, at: int) -> bool {
    &&& 0 <= at && at + 2 < arguments.len()
    &&& arguments[at]@ == "--ro-bind"@
    &&& arguments[at + 1]@ == root
    &&& arguments[at + 2]@ == "/wallpaper"@
}

/// A web wallpaper's browser runs in `bwrap`, over its own content, which is
/// bound read-only; and without a grant it says first that there is no network,
/// and is otherwise the same.
pub proof fn law_browser_is_confined(
    root: &str,
    width: u32,
    height: u32,
    closed: WebSandboxCommand,
    open: WebSandboxCommand,
    plain_closed: WebSandboxCommand,
    plain_open: WebSandboxCommand,
)
    requires
        call_ensures(web_renderer_command, (root, false, width, height), closed),
        call_ensures(web_renderer_command, (root, true, width, height), open),
        call_ensures(chromium_command, (root, false), plain_closed),
        call_ensures(chromium_command, (root, true), plain_open),
    ensures
        closed.program@ == "bwrap"@ && open.program@ == "bwrap"@,
        plain_closed.program@ == "bwrap"@ && plain_open.program@ == "bwrap"@,
        closed.arguments@.len() == open.arguments@.len() + 1,
        closed.arguments@[0]@ == "--unshare-net"@,
        open.arguments@[0]@ == "--die-with-parent"@,
        forall|i: int|
            0 <= i < open.arguments@.len() ==> (#[trigger] open.arguments@[i])@
                == closed.arguments@[i + 1]@,
        plain_closed.arguments@.len() == plain_open.arguments@.len() + 1,
        plain_closed.arguments@[0]@ == "--unshare-net"@,
        plain_open.arguments@[0]@ == "--die-with-parent"@,
        exists|at: int| #[trigger] binds_content(open.arguments@, root@, at),
        exists|at: int| #[trigger] binds_content(plain_open.arguments@, root@, at),
        open.arguments@.last()@ == "file:///wallpaper/index.html"@,
        plain_open.arguments@.last()@ == "file:///wallpaper/index.html"@,
        crate::laws_session::has_text(
            open.arguments@,
            "--window-size="@ + crate::text::decimal(width as nat) + ","@ + crate::text::decimal(
                height as nat,
            ),
        ),
{
    let a = crate::text::views(open.arguments@);
    let b = crate::text::views(closed.arguments@);
    let c = crate::text::views(plain_open.arguments@);
    let d = crate::text::views(plain_closed.arguments@);
    assert(a.len() == open.arguments@.len() && b.len() == closed.arguments@.len());
    assert(c.len() == plain_open.arguments@.len() && d.len() == plain_closed.arguments@.len());
    crate::websandbox::law_no_network_without_a_grant(root@, None, None, width, height);
    let rest = crate::websandbox::isolation(root@, true);
    let tail = crate::websandbox::renderer_program(width, height);
    assert(b =~= seq!["--unshare-net"@] + a);
    assert(a[0] == open.arguments@[0]@ && b[0] == closed.arguments@[0]@);
    assert(c[0] == plain_open.arguments@[0]@ && d[0] == plain_closed.arguments@[0]@);
    assert forall|i: int| 0 <= i < open.arguments@.len() implies (#[trigger] open.arguments@[i])@
        == closed.arguments@[i + 1]@ by {
        assert(a[i] == open.arguments@[i]@ && b[i + 1] == closed.arguments@[i + 1]@);
        assert(b[i + 1] == a[i]);
    }
    assert(rest.len() == 31);
    assert(a[20] == rest[20] && a[21] == rest[21] && a[22] == rest[22]);
    assert(a[20] == open.arguments@[20]@ && a[21] == open.arguments@[21]@ && a[22]
        == open.arguments@[22]@);
    assert(binds_content(open.arguments@, root@, 20));
    assert(c[2] == plain_open.arguments@[2]@ && c[3] == plain_open.arguments@[3]@ && c[4]
        == plain_open.arguments@[4]@);
    assert(binds_content(plain_open.arguments@, root@, 2));
    assert(a.last() == tail.last());
    assert(a.last() == open.arguments@.last()@);
    assert(c.last() == plain_open.arguments@.last()@);
    assert(a[41] == tail[10]);
    assert(a[41] == open.arguments@[41]@);
}

/// A local display is read from its number, whatever its screen; a display
/// without a colon is none of them.
pub proof fn law_local_displays_are_numbered(
    display: &str,
    n: u32,
    screen: Seq<char>,
    number: Option<u32>,
    remote: &str,
    none: Option<u32>,
)
    requires
        display@ == seq![':'] + crate::text::decimal(n as nat) + screen,
        screen.len() > 0 ==> screen[0] == '.',
        call_ensures(x11_display_number, (display,), number),
        remote@.len() == 0 || remote@[0] != ':',
        call_ensures(x11_display_number, (remote,), none),
    ensures
        number == Some(n),
        none is None,
{
    let digits = crate::text::decimal(n as nat);
    crate::text::lemma_decimal_digits(n as nat);
    let rest = display@.skip(1);
    assert(rest =~= digits + screen);
    assert forall|i: int| 0 <= i < digits.len() implies rest[i] != '.' by {
        assert(rest[i] == digits[i]);
        assert(crate::text::is_digit(digits[i]));
    }
    lemma_index_at(rest, '.', 0, digits.len());
    assert(rest.take(digits.len() as int) =~= digits);
    assert(display@[0] == ':');
}

pub proof fn lemma_index_at(s: Seq<char>, c: char, from: nat, at: nat)
    requires
        from <= at <= s.len(),
        forall|i: int| from <= i < at ==> s[i] != c,
        at < s.len() ==> s[at as int] == c,
    ensures
        crate::text::index_of(s, c, from) == at,
    decreases at - from,
{
    if from < at {
        lemma_index_at(s, c, from + 1, at);
    }
}

/// The binds for the displays come in threes: each a read-only bind of a
/// socket to its own place.
pub proof fn law_display_binds_are_read_only(
    display: Option<&str>,
    wayland: Option<&str>,
    runtime: Option<&str>,
    binds: Vec<String>,
    k: int,
)
    requires
        call_ensures(display_binds, (display, wayland, runtime), binds),
        0 <= k,
        3 * k < binds@.len(),
    ensures
        binds@.len() <= 6 && binds@.len() % 3 == 0,
        binds@[3 * k]@ == "--ro-bind"@,
        binds@[3 * k + 1]@ == binds@[3 * k + 2]@,
        binds@[3 * k + 1]@ == "/tmp/.X11-unix"@ || wayland is Some && wayland->0@.len() > 0
            && runtime is Some,
        display is None && (wayland is None || runtime is None) ==> binds@.len() == 0,
{
    let views = crate::text::views(binds@);
    assert(views.len() == binds@.len());
    assert(views[3 * k] == binds@[3 * k]@ && views[3 * k + 1] == binds@[3 * k + 1]@ && views[3 * k
        + 2] == binds@[3 * k + 2]@);
    assert(k == 0 || k == 1);
}

/// A web wallpaper's content is a directory with an index, and nothing else.
pub proof fn law_web_content_has_an_index(
    canonical: Option<String>,
    is_dir: bool,
    has_index: bool,
    root: Option<String>,
)
    requires
        call_ensures(sandbox_root, (canonical, is_dir, has_index), root),
    ensures
        root is Some ==> is_dir && has_index && root == canonical,
        is_dir && has_index ==> root == canonical,
{
}

// ---------------------------------------------------------------------------
// The daemon's own binary
// ---------------------------------------------------------------------------

/// The first look at the binary is the one that counts.
pub proof fn law_first_look_counts(
    installed: &mut Installed,
    captured: Option<InstalledBinary>,
    fresh: &mut Installed,
)
    requires
        installed.captured is Some,
        call_ensures(crate::selfcheck::init, (installed, captured), ()),
        fresh.captured is None,
        call_ensures(crate::selfcheck::init, (fresh, captured), ()),
    ensures
        final(installed).captured == old(installed).captured,
        final(fresh).captured == Some(captured),
{
}

/// A binary that was looked at is stale exactly when the file at its path is
/// another one or none, and an apply is answered so exactly then.
pub proof fn law_replaced_binary_is_stale(
    binary: &InstalledBinary,
    current: Option<(u64, u64)>,
    stale: bool,
    installed: &Installed,
    known: bool,
    error: Option<(String, String)>,
)
    requires
        installed.captured == Some(Some(*binary)),
        call_ensures(InstalledBinary::is_stale, (binary, current), stale),
        call_ensures(crate::selfcheck::is_stale, (installed, current), known),
        call_ensures(stale_error, (installed, current), error),
    ensures
        stale <==> !(current is Some && current->0 == binary.file()),
        known == stale,
        error is Some <==> stale,
        error matches Some((code, detail)) ==> code@ == "service_stale"@,
{
}

/// A binary that was never found is never stale.
pub proof fn law_unknown_binary_is_never_stale(
    installed: &Installed,
    current: Option<(u64, u64)>,
    stale: bool,
    error: Option<(String, String)>,
)
    requires
        installed.captured is None || installed.captured->0 is None,
        call_ensures(crate::selfcheck::is_stale, (installed, current), stale),
        call_ensures(stale_error, (installed, current), error),
    ensures
        !stale && error is None,
{
}

/// A binary is known by the device and inode that were found at its path; the
/// mark of a binary that is gone is not part of the path.
pub proof fn law_binary_is_known_by_its_file<F: FnOnce(&str) -> Option<(u64, u64)>>(
    path: &str,
    stat: F,
    binary: Option<InstalledBinary>,
    bare: Seq<char>,
)
    requires
        path@ == bare + " (deleted)"@,
        call_ensures(InstalledBinary::for_path::<F>, (path, stat), binary),
    ensures
        exists|asked: &str, found: Option<(u64, u64)>|
            #[trigger] call_ensures(stat, (asked,), found) && asked@ == bare && (found is Some
                <==> binary is Some) && (binary is Some ==> binary->0.file() == found->0
                && binary->0.place() == bare),
{
    crate::selfcheck::law_deleted_mark_is_dropped(bare);
}

// ---------------------------------------------------------------------------
// Request lines
// ---------------------------------------------------------------------------

/// A line is complete exactly when it has a line feed, even past the deadline;
/// without one it is read on until the deadline.
pub proof fn law_line_is_complete_with_its_feed(
    line: &RequestLine,
    now: u64,
    deadline: u64,
    step: LineStep,
)
    requires
        call_ensures(RequestLine::poll, (line, now, deadline), step),
    ensures
        step == LineStep::Complete <==> line@.contains(10u8),
        step == LineStep::Expired <==> !line@.contains(10u8) && now >= deadline,
        step == LineStep::Read <==> !line@.contains(10u8) && now < deadline,
{
}

/// What was read is appended. It is refused exactly when the line exceeds what
/// an import may have, or what a request may have while nothing in it says
/// that it is an import.
pub proof fn law_lines_are_bounded(line: &mut RequestLine, chunk: &[u8], taken: Result<(), String>)
    requires
        call_ensures(RequestLine::took, (line, chunk), taken),
    ensures
        final(line)@ == old(line)@ + chunk@,
        taken is Ok ==> final(line)@.len() <= 4195328,
        taken is Err ==> final(line)@.len() > 65536,
        final(line)@.len() <= 65536 ==> taken is Ok,
        final(line)@.len() > 4195328 ==> taken is Err,
        65536 < final(line)@.len() <= 4195328 ==> (taken is Ok <==> says_import(final(line)@)),
{
    let bytes = final(line)@;
    let marker = crate::request_line::import_marker();
    assert(marker.len() == 15);
    if crate::request_line::has_bytes(bytes, marker) {
        let at = choose|at: int| crate::request_line::bytes_at(bytes, marker, at);
        let part = bytes.subrange(at, at + 15);
        assert forall|i: int| 0 <= i < 15 implies #[trigger] bytes[at + i] as int
            == "playlist.import"@[i] as int by {
            lemma_marker(i);
            assert(part[i] == bytes[at + i]);
        }
        assert(says_import_at(bytes, at));
    }
    if says_import(bytes) {
        let at = choose|at: int| #[trigger] says_import_at(bytes, at);
        assert forall|i: int| 0 <= i < 15 implies bytes.subrange(at, at + 15)[i] == marker[i] by {
            lemma_marker(i);
            assert(bytes[at + i] as int == "playlist.import"@[i] as int);
        }
        assert(bytes.subrange(at, at + 15) =~= marker);
        assert(crate::request_line::bytes_at(bytes, marker, at));
    }
}

/// `playlist.import` stands at this place, in ASCII.
pub open spec fn says_import_at(bytes: Seq<u8>, at: int) -> bool {
    &&& 0 <= at && at + 15 <= bytes.len()
    &&& forall|i: int|
        0 <= i < 15 ==> #[trigger] bytes[at + i] as int == "playlist.import"@[i] as int
}

/// `playlist.import` stands somewhere in the line.
pub open spec fn says_import(bytes: Seq<u8>) -> bool {
    exists|at: int| #[trigger] says_import_at(bytes, at)
}

proof fn lemma_marker(i: int)
    requires
        0 <= i < 15,
    ensures
        crate::request_line::import_marker()[i] as int == "playlist.import"@[i] as int,
{
    reveal_strlit("playlist.import");
}

/// A line is handed on as it was read, if it is whole and in time.
pub proof fn law_whole_line_is_handed_on(
    line: RequestLine,
    expired: bool,
    read: Result<Vec<u8>, String>,
)
    requires
        call_ensures(RequestLine::finish, (line, expired), read),
    ensures
        read is Ok <==> !expired && line@.contains(10u8),
        read matches Ok(bytes) ==> bytes@ == line@,
        expired ==> read->Err_0@ == "request deadline exceeded"@,
        !expired && !line@.contains(10u8) ==> read->Err_0@ == "request ended without a newline"@,
{
}

/// A long request is an import or refused.
pub proof fn law_long_requests_are_imports(bytes: usize, method: &str, checked: Result<(), String>)
    requires
        call_ensures(check_request_size, (bytes, method), checked),
    ensures
        checked is Err <==> bytes > 65536 && method@ != "playlist.import"@,
{
}

// ---------------------------------------------------------------------------
// The apply service
// ---------------------------------------------------------------------------

/// The service begins over its store, with nothing cached and nothing under
/// way, as it was set up.
pub proof fn law_service_begins_as_set_up(
    config: ApplyConfig,
    opened: Result<AssignmentStore, String>,
    service: Result<ApplyService, String>,
)
    requires
        call_ensures(ApplyService::new, (config, opened), service),
    ensures
        service is Ok <==> opened is Ok,
        service matches Ok(started) ==> {
            &&& started.handle.store == opened->Ok_0
            &&& started.handle.outputs_cache.cached_at is None
            &&& !started.handle.applying
            &&& started.handle.promotion_timeout_ms == config.promotion_timeout_ms
            &&& started.handle.scene_assets_dir == config.scene_assets_dir
        },
        service matches Err(error) ==> opened->Err_0 == error,
{
}

/// The lock is had by one at a time: whoever has it, the next is told to wait,
/// until it is given back.
pub proof fn law_one_apply_at_a_time(
    first: &mut ApplyHandle,
    taken: Result<(), ApplyError>,
    second: &mut ApplyHandle,
    again: Result<(), ApplyError>,
    third: &mut ApplyHandle,
    fourth: &mut ApplyHandle,
    after: Result<(), ApplyError>,
)
    requires
        call_ensures(ApplyHandle::acquire_apply_lock, (first,), taken),
        *second == *final(first),
        call_ensures(ApplyHandle::acquire_apply_lock, (second,), again),
        *third == *final(second),
        call_ensures(ApplyHandle::release_apply_lock, (third,), ()),
        *fourth == *final(third),
        call_ensures(ApplyHandle::acquire_apply_lock, (fourth,), after),
    ensures
        taken is Ok <==> !old(first).applying,
        again is Err && again->Err_0 is Busy,
        after is Ok,
        final(fourth).store == old(first).store,
        final(fourth).outputs_cache == old(first).outputs_cache,
{
}

/// The outputs are enumerated anew once the last enumeration is five seconds
/// old; what was enumerated is what is kept, and a failure is not.
pub proof fn law_outputs_are_enumerated_when_stale<
    F: FnOnce() -> Result<Vec<OutputInfo>, ApplyError>,
>(handle: &mut ApplyHandle, now: u64, enumerate: F, result: Result<(), ApplyError>)
    requires
        call_ensures(ApplyHandle::outputs::<F>, (handle, now, enumerate), result),
    ensures
        ({
            let cached = old(handle).outputs_cache;
            let served = cached.cached_at is Some && now < cached.cached_at->0 + 5000;
            &&& served ==> result is Ok && final(handle).outputs_cache == cached
            &&& !served && result is Ok ==> final(handle).outputs_cache.cached_at == Some(now)
                && call_ensures(enumerate, (), Ok(final(handle).outputs_cache.entries))
            &&& !served && result is Err ==> final(handle).outputs_cache == cached
                && call_ensures(enumerate, (), Err(result->Err_0))
        }),
        final(handle).store == old(handle).store,
        final(handle).applying == old(handle).applying,
{
}

/// The stored record of an output is told as it is, field by field.
pub proof fn law_stored_record_is_told(handle: &ApplyHandle, output: &str, record: Option<Assignment>)
    requires
        call_ensures(ApplyHandle::stored_assignment, (handle, output), record),
    ensures
        record is Some <==> handle.store@.contains_key(output@),
        record matches Some(copy) ==> {
            let stored = handle.store@[output@];
            &&& copy.wallpaper_id@ == stored.wallpaper_id@
            &&& copy.kind == stored.kind
            &&& copy.content@ == stored.content@
            &&& copy.width == stored.width && copy.height == stored.height
            &&& copy.fps == stored.fps && copy.scaling == stored.scaling
            &&& copy.applied_at_unix_seconds == stored.applied_at_unix_seconds
            &&& copy.previous is Some <==> stored.previous is Some
            &&& copy.previous is Some ==> same_previous(copy.previous->0, stored.previous->0)
        },
{
    if let Some(copy) = record {
        let stored = handle.store@[output@];
        if copy.previous is Some && stored.previous is Some {
            assert(copy.previous->0@ == stored.previous->0@);
            crate::laws_stores::lemma_texts(
                copy.previous->0.config_group@,
                stored.previous->0.config_group@,
            );
        }
    }
}

/// A reply is what was decoded of a text that is not empty.
pub proof fn law_reply_is_what_was_decoded<D: FnOnce(&str) -> Result<ProbeReply, String>>(
    text: &str,
    decode: D,
    reply: Result<ProbeReply, ProbeError>,
)
    requires
        call_ensures(parse_probe_reply::<D>, (text, decode), reply),
    ensures
        text@.len() == 0 ==> reply is Err && reply->Err_0 is Parse,
        reply matches Ok(value) ==> call_ensures(decode, (text,), Ok(value)),
        reply matches Err(error) ==> error is Parse && (text@.len() == 0 || exists|
            failure: String,
        | #[trigger]
            call_ensures(decode, (text,), Err(failure)) && error->Parse_0@
                == "probe reply is not the expected JSON: "@ + failure@),
{
}

// ---------------------------------------------------------------------------
// Messages, views and enumerations
// ---------------------------------------------------------------------------

/// A run that was killed says after how long, in words that are read as a
/// timeout.
pub proof fn law_killed_run_reads_as_a_timeout(
    run: &BoundedRun,
    message: String,
    text: &str,
    error: ProbeError,
)
    requires
        call_ensures(BoundedRun::timeout_message, (run,), message),
        text@ == message@,
        call_ensures(crate::probe::classify_probe_failure, (text,), error),
    ensures
        error is TimedOut && error->TimedOut_0@ == message@,
        message@ == "timed out after "@ + crate::text::decimal(run.timeout_ms as nat)
            + " ms and was killed"@,
{
    crate::probe::law_killed_child_is_a_timeout(seq![], run.timeout_ms as nat);
    let said = "timed out after "@ + crate::text::decimal(run.timeout_ms as nat)
        + " ms and was killed"@;
    assert(Seq::<char>::empty() + said =~= said);
}

/// A stale binary is named to the user; the path is the one that it was found
/// at.
pub proof fn law_stale_binary_is_named(binary: &InstalledBinary, detail: String, path: &str)
    requires
        call_ensures(stale_detail, (binary,), detail),
        call_ensures(InstalledBinary::path, (binary,), path),
    ensures
        crate::laws_shell::part_at(detail@, "the wallpaper service binary "@ + path@, 0),
{
}

/// The service shows what it has: its state, its assets and its records.
pub proof fn law_service_shows_what_it_has(
    service: &ApplyService,
    handle: &ApplyHandle,
    assets: Option<&str>,
    records: &NameMap<Assignment>,
)
    requires
        call_ensures(ApplyService::handle, (service,), handle),
        call_ensures(ApplyHandle::scene_assets_dir, (handle,), assets),
        call_ensures(ApplyHandle::assignments, (handle,), records),
    ensures
        *handle == service.handle,
        assets is Some <==> service.handle.scene_assets_dir is Some,
        assets is Some ==> assets->0@ == service.handle.scene_assets_dir->0@,
        records@ == service.handle.store@,
{
}

/// The ceilings of a kind are those that were given for it; the test renderer
/// has the general ones.
pub proof fn law_ceilings_go_to_their_kind(
    global: RendererResourceLimits,
    video: RendererResourceLimits,
    web: RendererResourceLimits,
    scene: RendererResourceLimits,
    limits: ByKind<RendererResourceLimits>,
)
    requires
        call_ensures(resource_limits_for_kinds, (global, video, web, scene), limits),
    ensures
        limits.test == global && limits.video == video && limits.web == web && limits.scene
            == scene,
{
    assert(limits.at(RendererKind::Test) == limits.test);
    assert(limits.at(RendererKind::Video) == limits.video);
    assert(limits.at(RendererKind::Web) == limits.web);
    assert(limits.at(RendererKind::Scene) == limits.scene);
}

/// A line begins with nothing read.
pub proof fn law_line_begins_empty(line: RequestLine, now: u64, deadline: u64, step: LineStep)
    requires
        call_ensures(RequestLine::new, (), line),
        call_ensures(RequestLine::poll, (&line, now, deadline), step),
    ensures
        line@.len() == 0,
        step != LineStep::Complete,
{
}

/// The script that enumerates is one over the names of the outputs, each of
/// which has to be a name.
pub proof fn law_enumeration_asks_for_every_output(
    system: &Vec<SystemOutput>,
    built: Result<String, ApplyError>,
)
    requires
        call_ensures(enumeration_script, (system,), built),
    ensures
        built is Ok <==> forall|i: int|
            0 <= i < system@.len() ==> crate::laws_stores::is_name((#[trigger] system@[i]).name@),
        built is Err ==> built->Err_0 is ShellUnreachable,
        built matches Ok(text) ==> exists|names: Seq<String>|
            names.len() == system@.len() && (forall|i: int|
                0 <= i < names.len() ==> (#[trigger] names[i])@ == system@[i].name@) && text@
                == #[trigger] crate::script::probe_text(names),
{
    assert forall|i: int| 0 <= i < system@.len() implies (crate::identity::valid_identity(
        (#[trigger] system@[i]).name@,
    ) <==> crate::laws_stores::is_name(system@[i].name@)) by {
        crate::laws_stores::lemma_names(system@[i].name@);
    }
    if let Ok(text) = built {
        let names = choose|names: Seq<String>|
            crate::text::views(names) == crate::handle::output_names(system@)
                && crate::script::valid_names(names) && text@ == #[trigger] crate::script::probe_text(
                names,
            );
        let views = crate::text::views(names);
        assert(views.len() == names.len());
        assert(crate::handle::output_names(system@).len() == system@.len());
        assert forall|i: int| 0 <= i < names.len() implies (#[trigger] names[i])@
            == system@[i].name@ by {
            assert(views[i] == names[i]@);
            assert(crate::handle::output_names(system@)[i] == system@[i].name@);
        }
        assert forall|i: int| 0 <= i < system@.len() implies crate::laws_stores::is_name(
            (#[trigger] system@[i]).name@,
        ) by {
            assert(crate::identity::valid_identity(names[i]@));
        }
    }
}

/// What is enumerated is one output for each that the system lists, under its
/// own name and with its own state.
pub proof fn law_enumeration_covers_the_system<
    S: FnOnce() -> Result<Vec<SystemOutput>, ProbeError>,
    E: FnOnce(&str) -> Result<String, ProbeError>,
    D: FnOnce(&str) -> Result<ProbeReply, String>,
>(list: S, evaluate: E, decode: D, outputs: Result<Vec<OutputInfo>, ApplyError>)
    requires
        call_ensures(enumerate_fresh::<S, E, D>, (list, evaluate, decode), outputs),
    ensures
        outputs matches Ok(merged) ==> exists|system: Vec<SystemOutput>|
            {
                &&& #[trigger] call_ensures(list, (), Ok(system))
                &&& merged@.len() == system@.len()
                &&& forall|i: int|
                    0 <= i < system@.len() ==> (#[trigger] merged@[i]).name@ == system@[i].name@
                        && merged@[i].enabled == system@[i].enabled && merged@[i].connected
                        == system@[i].connected
            },
        outputs matches Err(error) ==> error is ShellUnreachable || error is DisplayUnavailable,
{
    if let Ok(merged) = outputs {
        let (system, reply) = choose|system: Vec<SystemOutput>, reply: ProbeReply|
            call_ensures(list, (), Ok(system)) && crate::handle::can_reply(
                evaluate,
                decode,
                system@,
                reply,
            ) && #[trigger] crate::handle::all_merged(merged@, system@, reply);
        assert(crate::handle::all_merged(merged@, system@, reply));
        assert(call_ensures(list, (), Ok(system)));
        assert forall|i: int| 0 <= i < system@.len() implies (#[trigger] merged@[i]).name@
            == system@[i].name@ && merged@[i].enabled == system@[i].enabled && merged@[i].connected
            == system@[i].connected by {
            assert(crate::probe::merged(
                system@[i]@,
                reply.desktops@,
                reply.connectors@,
                merged@[i],
            ));
        }
    }
}

/// The preview is confined as the renderer is: it runs in `bwrap` over its own
/// content, without the network unless it is granted.
pub proof fn law_preview_is_confined<F: Fn(&str) -> bool>(
    root: &str,
    network: bool,
    display: Option<&str>,
    wayland: Option<&str>,
    runtime: Option<&str>,
    exists_at: F,
    command: WebSandboxCommand,
    rendered: WebSandboxCommand,
    i: int,
)
    requires
        call_ensures(
            web_preview_command::<F>,
            (root, network, display, wayland, runtime, exists_at),
            command,
        ),
        call_ensures(web_renderer_command, (root, network, 1, 1), rendered),
        0 <= i < 31,
    ensures
        command.program@ == "bwrap"@,
        command.arguments@[i]@ == rendered.arguments@[i]@,
        !network ==> command.arguments@[0]@ == "--unshare-net"@,
        network ==> command.arguments@[0]@ == "--die-with-parent"@,
        command.arguments@.last()@ == "file:///wallpaper/index.html"@,
        exists|at: int| #[trigger] binds_content(command.arguments@, root@, at),
{
    let views = crate::text::views(command.arguments@);
    let others = crate::text::views(rendered.arguments@);
    assert(views.len() == command.arguments@.len());
    assert(others.len() == rendered.arguments@.len());
    let base = crate::websandbox::isolation(root@, network);
    let (a, b) = choose|a: Option<Seq<char>>, b: Option<Seq<char>>|
        views == #[trigger] crate::websandbox::preview_arguments(root@, network, a, b);
    let program = crate::websandbox::preview_program();
    assert(base.len() >= 31);
    assert(views[i] == base[i] && others[i] == base[i]);
    assert(views[i] == command.arguments@[i]@ && others[i] == rendered.arguments@[i]@);
    assert(views[0] == base[0] && views[0] == command.arguments@[0]@);
    assert(views.last() == program.last() && views.last() == command.arguments@.last()@);
    let at: int = if network {
        20
    } else {
        21
    };
    assert(base[at] == "--ro-bind"@ && base[at + 1] == root@ && base[at + 2] == "/wallpaper"@);
    assert(views[at] == base[at] && views[at + 1] == base[at + 1] && views[at + 2] == base[at + 2]);
    assert(views[at] == command.arguments@[at]@ && views[at + 1] == command.arguments@[at + 1]@
        && views[at + 2] == command.arguments@[at + 2]@);
    assert(binds_content(command.arguments@, root@, at));
}

// ---------------------------------------------------------------------------
// What a sandbox sees
// ---------------------------------------------------------------------------

/// A directory of the system that a browser needs to run.
pub open spec fn is_system_directory(path: Seq<char>) -> bool {
    path == "/usr"@ || path == "/etc"@ || path == "/lib"@ || path == "/lib64"@ || path == "/bin"@
        || path == "/sbin"@
}

proof fn lemma_words()
    ensures
        "--die-with-parent"@.len() == 17,
        "--new-session"@.len() == 13,
        "--ro-bind"@.len() == 9,
        "--unshare-net"@.len() == 13,
        "/usr"@.len() == 4,
        "/etc"@.len() == 4,
        "/lib"@.len() == 4,
        "/lib64"@.len() == 6,
        "/bin"@.len() == 4,
        "/sbin"@.len() == 5,
        "/wallpaper"@.len() == 10,
        "--proc"@.len() == 6,
        "/proc"@.len() == 5,
        "--dev"@.len() == 5,
        "/dev"@.len() == 4,
        "--tmpfs"@.len() == 7,
        "/tmp"@.len() == 4,
        "--chdir"@.len() == 7,
        "--bind"@.len() == 6,
        "--bind"@[2] == 'b',
        "--proc"@[2] == 'p',
        "/lib64"@[0] == '/',
        "--bind"@[0] == '-',
        "--ro-bind"@[0] == '-',
{
    reveal_strlit("--die-with-parent");
    reveal_strlit("--new-session");
    reveal_strlit("--ro-bind");
    reveal_strlit("--unshare-net");
    reveal_strlit("/usr");
    reveal_strlit("/etc");
    reveal_strlit("/lib");
    reveal_strlit("/lib64");
    reveal_strlit("/bin");
    reveal_strlit("/sbin");
    reveal_strlit("/wallpaper");
    reveal_strlit("--proc");
    reveal_strlit("/proc");
    reveal_strlit("--dev");
    reveal_strlit("/dev");
    reveal_strlit("--tmpfs");
    reveal_strlit("/tmp");
    reveal_strlit("--chdir");
    reveal_strlit("--bind");
}

/// Within its sandbox a browser sees the content and the system's own
/// directories, each read-only, and nothing else of the disk; nothing is bound
/// to be written.
pub proof fn law_sandbox_binds_nothing_else(
    root: &str,
    network: bool,
    width: u32,
    height: u32,
    command: WebSandboxCommand,
    i: int,
)
    requires
        root@.len() > 0 && root@[0] == '/',
        call_ensures(web_renderer_command, (root, network, width, height), command),
        0 <= i < if network {
            31int
        } else {
            32int
        },
    ensures
        command.arguments@[i]@ == "--ro-bind"@ ==> i + 2 < command.arguments@.len() && (
        is_system_directory(command.arguments@[i + 1]@) && command.arguments@[i + 2]@
            == command.arguments@[i + 1]@ || command.arguments@[i + 1]@ == root@
            && command.arguments@[i + 2]@ == "/wallpaper"@),
        command.arguments@[i]@ != "--bind"@,
        command.arguments@[if network {
            31
        } else {
            32
        }]@ == "--"@,
{
    lemma_words();
    let views = crate::text::views(command.arguments@);
    assert(views.len() == command.arguments@.len());
    let base = crate::websandbox::isolation(root@, network);
    let program = crate::websandbox::renderer_program(width, height);
    let n: int = if network {
        31
    } else {
        32
    };
    assert(base.len() == n);
    assert(views == base + program);
    assert(views[i] == base[i] && views[i] == command.arguments@[i]@);
    assert(views[n] == program[0] && views[n] == command.arguments@[n]@);
    let k = if network {
        i
    } else {
        i - 1
    };
    let rest = crate::websandbox::isolation(root@, true);
    crate::websandbox::law_no_network_without_a_grant(root@, None, None, width, height);
    if k >= 0 {
        assert(base[i] == rest[k]);
        if base[i] == "--ro-bind"@ {
            assert(k == 2 || k == 5 || k == 8 || k == 11 || k == 14 || k == 17 || k == 20);
            assert(base[i + 1] == rest[k + 1] && base[i + 2] == rest[k + 2]);
            assert(views[i + 1] == base[i + 1] && views[i + 2] == base[i + 2]);
            assert(views[i + 1] == command.arguments@[i + 1]@);
            assert(views[i + 2] == command.arguments@[i + 2]@);
        }
    } else {
        assert(base[0] == "--unshare-net"@);
    }
}

/// The browser is headless, keeps its profile in the throwaway directory, and is
/// driven through a pipe.
pub proof fn law_renderer_is_driven_through_a_pipe(
    root: &str,
    network: bool,
    width: u32,
    height: u32,
    command: WebSandboxCommand,
)
    requires
        call_ensures(web_renderer_command, (root, network, width, height), command),
    ensures
        crate::laws_session::has_text(command.arguments@, "--headless=new"@),
        crate::laws_session::has_text(command.arguments@, "--remote-debugging-pipe"@),
        crate::laws_session::has_text(command.arguments@, "--user-data-dir=/tmp/kwe-profile"@),
        crate::laws_session::has_text(command.arguments@, "chromium"@),
        crate::laws_session::has_text(command.arguments@, "--new-session"@),
        crate::laws_session::has_text(command.arguments@, "--die-with-parent"@),
{
    let views = crate::text::views(command.arguments@);
    assert(views.len() == command.arguments@.len());
    let base = crate::websandbox::isolation(root@, network);
    let program = crate::websandbox::renderer_program(width, height);
    let n = base.len() as int;
    assert(views[n + 1] == program[1] && views[n + 1] == command.arguments@[n + 1]@);
    assert(views[n + 2] == program[2] && views[n + 2] == command.arguments@[n + 2]@);
    assert(views[n + 9] == program[9] && views[n + 9] == command.arguments@[n + 9]@);
    assert(views[n + 11] == program[11] && views[n + 11] == command.arguments@[n + 11]@);
    assert(views[n - 31] == base[n - 31] && views[n - 31] == command.arguments@[n - 31]@);
    assert(views[n - 30] == base[n - 30] && views[n - 30] == command.arguments@[n - 30]@);
}

/// A local X11 display is reached through the directory of its sockets, a
/// Wayland display through its own socket in the runtime directory; a display
/// that is on a host, empty, or `none`, through nothing.
pub proof fn law_displays_are_reached_through_their_sockets(
    display: Option<&str>,
    number: Option<u32>,
    wayland: Option<&str>,
    runtime: Option<&str>,
    binds: Vec<String>,
)
    requires
        call_ensures(display_binds, (display, wayland, runtime), binds),
        display is Some ==> call_ensures(x11_display_number, (display->0,), number),
        runtime is Some ==> runtime->0@.len() > 0 && runtime->0@.last() != '/',
    ensures
        ({
            let x11 = display is Some && number is Some;
            let socket = wayland is Some && runtime is Some && wayland->0@.len() > 0 && wayland->0@
                != "none"@;
            &&& binds@.len() == (if x11 {
                3int
            } else {
                0
            }) + (if socket {
                3int
            } else {
                0
            })
            &&& x11 ==> binds@[1]@ == "/tmp/.X11-unix"@
            &&& socket ==> binds@.last()@ == runtime->0@ + seq!['/'] + wayland->0@
        }),
{
    let views = crate::text::views(binds@);
    assert(views.len() == binds@.len());
    reveal_strlit("/");
    assert("/"@ =~= seq!['/']);
    if binds@.len() > 0 {
        assert(views.last() == binds@.last()@);
        assert(views[1] == binds@[1]@);
    }
}

// ---------------------------------------------------------------------------
// What runs in a sandbox
// ---------------------------------------------------------------------------

/// The last arguments are these.
pub open spec fn ends_in(arguments: Seq<String>, last: Seq<Seq<char>>) -> bool {
    &&& arguments.len() >= last.len()
    &&& forall|i: int|
        0 <= i < last.len() ==> (#[trigger] arguments[arguments.len() - last.len() + i])@ == last[i]
}

/// These arguments stand one behind the other, from `at` on.
pub open spec fn stand_at(arguments: Seq<String>, words: Seq<Seq<char>>, at: int) -> bool {
    &&& 0 <= at && at + words.len() <= arguments.len()
    &&& forall|i: int| 0 <= i < words.len() ==> (#[trigger] arguments[at + i])@ == words[i]
}

/// What every sandbox holds besides the system and the content: its own
/// processes, its own devices, a `/tmp` of its own, and the content as the
/// directory that the browser starts in.
pub open spec fn own_places() -> Seq<Seq<char>> {
    seq![
        "--proc"@,
        "/proc"@,
        "--dev"@,
        "/dev"@,
        "--tmpfs"@,
        "/tmp"@,
        "--chdir"@,
        "/wallpaper"@,
    ]
}

/// The renderer's browser has no window and is driven through a pipe, the
/// preview's and the plain one have one; each keeps its profile in the `/tmp`
/// of its sandbox, starts without extensions, and opens the content's index.
pub proof fn law_sandbox_runs_a_browser<F: Fn(&str) -> bool>(
    root: &str,
    network: bool,
    width: u32,
    height: u32,
    display: Option<&str>,
    wayland: Option<&str>,
    runtime: Option<&str>,
    exists_at: F,
    rendered: WebSandboxCommand,
    preview: WebSandboxCommand,
    plain: WebSandboxCommand,
)
    requires
        call_ensures(web_renderer_command, (root, network, width, height), rendered),
        call_ensures(
            web_preview_command::<F>,
            (root, network, display, wayland, runtime, exists_at),
            preview,
        ),
        call_ensures(chromium_command, (root, network), plain),
    ensures
        ends_in(
            rendered.arguments@,
            seq![
                "--"@,
                "chromium"@,
                "--headless=new"@,
                "--no-sandbox"@,
                "--disable-dev-shm-usage"@,
                "--disable-gpu"@,
                "--no-first-run"@,
                "--no-default-browser-check"@,
                "--disable-extensions"@,
                "--remote-debugging-pipe"@,
                "--window-size="@ + crate::text::decimal(width as nat) + ","@
                    + crate::text::decimal(height as nat),
                "--user-data-dir=/tmp/kwe-profile"@,
                "file:///wallpaper/index.html"@,
            ],
        ),
        ends_in(
            preview.arguments@,
            seq![
                "--"@,
                "chromium"@,
                "--no-sandbox"@,
                "--disable-dev-shm-usage"@,
                "--no-first-run"@,
                "--no-default-browser-check"@,
                "--disable-extensions"@,
                "--user-data-dir=/tmp/kwe-preview-profile"@,
                "file:///wallpaper/index.html"@,
            ],
        ),
        ends_in(
            plain.arguments@,
            own_places() + seq![
                "--"@,
                "chromium"@,
                "--no-first-run"@,
                "--no-default-browser-check"@,
                "--disable-extensions"@,
                "--user-data-dir=/tmp/kwe-chromium"@,
                "file:///wallpaper/index.html"@,
            ],
        ),
        ({
            let first: int = if network {
                0
            } else {
                1
            };
            let start = seq!["--die-with-parent"@, "--new-session"@];
            &&& stand_at(rendered.arguments@, start, first)
            &&& stand_at(preview.arguments@, start, first)
            &&& stand_at(plain.arguments@, start, first)
            &&& stand_at(rendered.arguments@, own_places(), first + 23)
            &&& stand_at(preview.arguments@, own_places(), first + 23)
            &&& rendered.arguments@.len() == first + 31 + 13
        }),
{
    let a = crate::text::views(rendered.arguments@);
    let b = crate::text::views(preview.arguments@);
    let c = crate::text::views(plain.arguments@);
    assert(a.len() == rendered.arguments@.len());
    assert(b.len() == preview.arguments@.len());
    assert(c.len() == plain.arguments@.len());
    assert(forall|i: int|
        0 <= i < a.len() ==> (#[trigger] rendered.arguments@[i])@ == a[i]);
    assert(forall|i: int|
        0 <= i < b.len() ==> (#[trigger] preview.arguments@[i])@ == b[i]);
    assert(forall|i: int| 0 <= i < c.len() ==> (#[trigger] plain.arguments@[i])@ == c[i]);
    let (x11, way) = choose|x11: Option<Seq<char>>, way: Option<Seq<char>>|
        b == #[trigger] crate::websandbox::preview_arguments(root@, network, x11, way);
    let base = crate::websandbox::isolation(root@, network);
    let program = crate::websandbox::preview_program();
    let binds = crate::websandbox::binds_of(x11) + crate::websandbox::binds_of(way);
    assert(b =~= base + binds + program);
    let first: int = if network {
        0
    } else {
        1
    };
    assert(base.len() == first + 31);
    assert forall|i: int| 0 <= i < 8 implies #[trigger] base[first + 23 + i] == own_places()[i] by {}
    assert forall|i: int| 0 <= i < 8 implies (#[trigger] rendered.arguments@[first + 23 + i])@
        == own_places()[i] by {
        assert(a[first + 23 + i] == base[first + 23 + i]);
    }
    assert forall|i: int| 0 <= i < 8 implies (#[trigger] preview.arguments@[first + 23 + i])@
        == own_places()[i] by {
        assert(b[first + 23 + i] == base[first + 23 + i]);
    }
    assert(base[first] == "--die-with-parent"@ && base[first + 1] == "--new-session"@);
    assert(a[first] == base[first] && a[first + 1] == base[first + 1]);
    assert(b[first] == base[first] && b[first + 1] == base[first + 1]);
}

/// What a directory for the socket is refused with, and what every default is.
pub proof fn law_settings_begin_here(
    settings: RendererSettings,
    is_symlink: bool,
    is_dir: bool,
    valid: Result<(), String>,
)
    requires
        call_ensures(RendererSettings::default, (), settings),
        call_ensures(validate_socket_parent, (is_symlink, is_dir), valid),
    ensures
        valid is Err ==> valid->Err_0@ == "socket parent must be a real directory"@,
        settings.renderer_startup_timeout_ms == 3000,
        settings.renderer_video_startup_timeout_ms == 6000,
        settings.renderer_web_startup_timeout_ms == 10000,
        settings.renderer_frame_timeout_ms == 2000,
        settings.renderer_stop_grace_ms == 500,
        settings.renderer_restart_delay_ms == 250,
        settings.renderer_canary_ms == 1000,
        settings.renderer_handoff_timeout_ms == 5000,
        settings.renderer_address_space_mib == 4096,
        settings.renderer_open_files == 256,
        settings.renderer_web_address_space_mib == 131072,
        settings.renderer_web_open_files == 1024,
        settings.renderer_processes == 1024,
        settings.renderer_web_heartbeat_ms == 5000,
{
}

/// A preview is given a display's socket exactly if it is there: with none of
/// them there, nothing is bound besides the system and the content; and with
/// every one there, all that the session names are.
pub proof fn law_preview_binds_what_is_there<F: Fn(&str) -> bool>(
    root: &str,
    network: bool,
    display: Option<&str>,
    wayland: Option<&str>,
    runtime: Option<&str>,
    exists_at: F,
    preview: WebSandboxCommand,
    binds: Vec<String>,
    bare: int,
)
    requires
        bare == if network {
            31
        } else {
            32int
        },
        call_ensures(
            web_preview_command::<F>,
            (root, network, display, wayland, runtime, exists_at),
            preview,
        ),
        call_ensures(display_binds, (display, wayland, runtime), binds),
    ensures
        (forall|asked: &str| !#[trigger] call_ensures(exists_at, (asked,), true))
            ==> preview.arguments@.len() == bare + 9,
        (forall|asked: &str| !#[trigger] call_ensures(exists_at, (asked,), false)) ==> {
            &&& preview.arguments@.len() == bare + binds@.len() + 9
            &&& forall|i: int|
                0 <= i < binds@.len() ==> (#[trigger] preview.arguments@[bare + i])@ == binds@[i]@
        },
{
    let views = crate::text::views(preview.arguments@);
    let bound = crate::text::views(binds@);
    assert(views.len() == preview.arguments@.len() && bound.len() == binds@.len());
    let x11 = crate::websandbox::x11_socket(display);
    let way = crate::websandbox::wayland_socket(wayland, runtime);
    let (a, b) = choose|a: Option<Seq<char>>, b: Option<Seq<char>>|
        {
            &&& crate::websandbox::looked_up(x11, exists_at, a)
            &&& crate::websandbox::looked_up(way, exists_at, b)
            &&& views == #[trigger] crate::websandbox::preview_arguments(root@, network, a, b)
        };
    let base = crate::websandbox::isolation(root@, network);
    let program = crate::websandbox::preview_program();
    assert(base.len() == bare && program.len() == 9);
    let middle = crate::websandbox::binds_of(a) + crate::websandbox::binds_of(b);
    assert(views =~= base + middle + program);
    if forall|asked: &str| !#[trigger] call_ensures(exists_at, (asked,), true) {
        assert(a is None && b is None);
    }
    if forall|asked: &str| !#[trigger] call_ensures(exists_at, (asked,), false) {
        assert(a == x11 && b == way);
        assert(bound =~= middle);
        assert forall|i: int| 0 <= i < binds@.len() implies (#[trigger] preview.arguments@[bare
            + i])@ == binds@[i]@ by {
            assert(views[bare + i] == preview.arguments@[bare + i]@);
            assert(bound[i] == binds@[i]@);
            assert(views[bare + i] == middle[i]);
        }
    }
}

/// What an enumeration hands to the shell is the script over the outputs that
/// the system listed: where it can give outputs at all, one such script was
/// answered.
pub proof fn law_enumeration_hands_over_its_script<
    S: FnOnce() -> Result<Vec<SystemOutput>, ProbeError>,
    E: FnOnce(&str) -> Result<String, ProbeError>,
    D: FnOnce(&str) -> Result<ProbeReply, String>,
>(list: S, evaluate: E, decode: D, outputs: Result<Vec<OutputInfo>, ApplyError>)
    requires
        call_ensures(enumerate_fresh::<S, E, D>, (list, evaluate, decode), outputs),
        outputs is Ok,
    ensures
        exists|names: Seq<String>, script: &str, answer: String|
            {
                &&& names.len() == outputs->Ok_0@.len()
                &&& forall|i: int|
                    0 <= i < names.len() ==> (#[trigger] names[i])@ == outputs->Ok_0@[i].name@
                &&& script@ == #[trigger] crate::script::probe_text(names)
                &&& #[trigger] call_ensures(evaluate, (script,), Ok(answer))
            },
{
    let merged = outputs->Ok_0;
    let (system, reply) = choose|system: Vec<SystemOutput>, reply: ProbeReply|
        call_ensures(list, (), Ok(system)) && crate::handle::can_reply(
            evaluate,
            decode,
            system@,
            reply,
        ) && #[trigger] crate::handle::all_merged(merged@, system@, reply);
    assert(crate::handle::all_merged(merged@, system@, reply));
    let (script, answer, text) = choose|script: &str, answer: String, text: &str|
        {
            &&& crate::handle::asks_for(script@, system@)
            &&& #[trigger] call_ensures(evaluate, (script,), Ok(answer))
            &&& text@ == answer@
            &&& #[trigger] call_ensures(decode, (text,), Ok(reply))
        };
    let names = choose|names: Seq<String>|
        crate::text::views(names) == crate::handle::output_names(system@)
            && crate::script::valid_names(names) && script@ == #[trigger] crate::script::probe_text(
            names,
        );
    let views = crate::text::views(names);
    assert(views.len() == names.len());
    assert(crate::handle::output_names(system@).len() == system@.len());
    assert forall|i: int| 0 <= i < names.len() implies (#[trigger] names[i])@
        == merged@[i].name@ by {
        assert(views[i] == names[i]@);
        assert(crate::handle::output_names(system@)[i] == system@[i].name@);
        assert(crate::probe::merged(
            system@[i]@,
            reply.desktops@,
            reply.connectors@,
            merged@[i],
        ));
    }
    assert(script@ == crate::script::probe_text(names));
}

} // verus!
