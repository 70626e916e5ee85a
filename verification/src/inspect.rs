//! One bounded inspection of a scene: how the inspector is launched, how much
//! of what it says is kept, when it is stopped, and what its report comes to.

use vstd::prelude::*;
use vstd::utf8::*;

use crate::text;
use crate::text::{byte_len, chars_of, push_decimal};

verus! {

/// The descriptor that the inspector reports on.
pub const REPORT_FD: u32 = 3;

/// The most that the inspector may write to its stdout.
pub const MAX_REPORT_BYTES: usize = 65536;

/// How much is read at a time.
pub const CHUNK_BYTES: usize = 4096;

/// The longest detail of a malformed report, in bytes.
pub const MAX_DETAIL_BYTES: usize = 256;

/// How much of the end of stderr is kept.
pub const STDERR_TAIL_BYTES: usize = 512;

/// How many chunks of stderr are read at a time, so that a flood of it cannot
/// keep the deadline from being looked at.
pub const STDERR_DRAIN_CHUNKS_PER_TICK: usize = 16;

/// How long the supervision sleeps while the inspector runs.
pub const SUPERVISE_SLEEP_MS: u64 = 10;

// ---------------------------------------------------------------------------
// Reports
// ---------------------------------------------------------------------------

/// What an inspection came to. `R` is the record that a valid report carries.
#[derive(Debug, PartialEq, Eq)]
pub enum InspectReport<R> {
    Record(R),
    /// There is no inspector, or it could not be run.
    Unavailable,
    /// It wrote more than it may.
    Oversize,
    /// It did not end in time.
    Timeout,
    /// It failed.
    Failed { stderr_tail: String },
    /// What it reported cannot be read.
    Malformed { detail: String, stderr_tail: String },
    /// It reported nothing.
    Missing { stderr_tail: String },
    /// It reported more than once.
    Duplicate,
}

impl<R> InspectReport<R> {
    pub open spec fn named(&self) -> Option<Seq<char>> {
        match self {
            InspectReport::Record(_) => None,
            InspectReport::Unavailable => Some("inspector-unavailable"@),
            InspectReport::Oversize => Some("report-oversize"@),
            InspectReport::Timeout => Some("timeout"@),
            InspectReport::Failed { .. } => Some("inspector-failed"@),
            InspectReport::Malformed { .. } => Some("report-malformed"@),
            InspectReport::Missing { .. } => Some("report-missing"@),
            InspectReport::Duplicate => Some("report-duplicate"@),
        }
    }

    /// Why there is no record, if there is none.
    pub fn reason(&self) -> (reason: Option<&'static str>)
        ensures
            match reason {
                Some(name) => self.named() == Some(name@),
                None => self.named() is None,
            },
    {
        match self {
            InspectReport::Record(_) => None,
            InspectReport::Unavailable => Some("inspector-unavailable"),
            InspectReport::Oversize => Some("report-oversize"),
            InspectReport::Timeout => Some("timeout"),
            InspectReport::Failed { .. } => Some("inspector-failed"),
            InspectReport::Malformed { .. } => Some("report-malformed"),
            InspectReport::Missing { .. } => Some("report-missing"),
            InspectReport::Duplicate => Some("report-duplicate"),
        }
    }
}

// ---------------------------------------------------------------------------
// Launching
// ---------------------------------------------------------------------------

/// How inspections are run.
pub struct InspectConfig {
    /// The inspector's binary. Without one every inspection is unavailable.
    pub inspector_path: Option<String>,
    /// Where the private home directories are made.
    pub runtime_dir: String,
    /// How long one inspection may take.
    pub wall_timeout_ms: u64,
}

/// One launch of the inspector.
#[derive(Debug)]
pub struct LaunchPlan {
    pub program: String,
    pub home_dir: String,
    pub args: Vec<String>,
}

pub open spec fn home_for(runtime_dir: Seq<char>, pid: u32, serial: u64) -> Seq<char> {
    crate::apply::joined(
        runtime_dir,
        "inspect-home-"@ + text::decimal(pid as nat) + "-"@ + text::decimal(serial as nat),
    )
}

/// How the inspector is launched on `input`, unless there is none: in a home
/// directory of its own, which carries the daemon's process and the launch's
/// number.
pub fn plan_launch(config: &InspectConfig, input: &str, pid: u32, serial: u64) -> (plan: Option<
    LaunchPlan,
>)
    ensures
        match (config.inspector_path, plan) {
            (None, None) => true,
            (Some(program), Some(launch)) => {
                &&& launch.program == program
                &&& launch.home_dir@ == home_for(config.runtime_dir@, pid, serial)
                &&& text::views(launch.args@) == seq![
                    "--input"@,
                    input@,
                    "--max-wall-ms"@,
                    text::decimal(config.wall_timeout_ms as nat),
                    "--report-fd"@,
                    text::decimal(REPORT_FD as nat),
                ]
            },
            _ => false,
        },
{
    let program: String = match &config.inspector_path {
        Some(program) => program.clone(),
        None => { return None },
    };
    let mut home = "inspect-home-".to_owned();
    push_decimal(&mut home, pid as u128);
    home.append("-");
    push_decimal(&mut home, serial as u128);
    let mut wall = String::new();
    push_decimal(&mut wall, config.wall_timeout_ms as u128);
    assert(wall@ =~= text::decimal(config.wall_timeout_ms as nat));
    let mut report = String::new();
    push_decimal(&mut report, REPORT_FD as u128);
    assert(report@ =~= text::decimal(REPORT_FD as nat));
    let mut args: Vec<String> = Vec::new();
    args.push("--input".to_owned());
    args.push(input.to_owned());
    args.push("--max-wall-ms".to_owned());
    args.push(wall);
    args.push("--report-fd".to_owned());
    args.push(report);
    assert(text::views(args@) =~= seq![
        "--input"@,
        input@,
        "--max-wall-ms"@,
        text::decimal(config.wall_timeout_ms as nat),
        "--report-fd"@,
        text::decimal(REPORT_FD as nat),
    ]);
    let home_dir = crate::apply::join_path(config.runtime_dir.as_str(), home.as_str());
    Some(LaunchPlan { program, home_dir, args })
}

/// A step of the launch that failed.
#[derive(Debug, Clone, Copy, PartialEq, Eq, Structural)]
pub enum LaunchFault {
    HomeNotCreated,
    HomeNotPrivate,
    /// The daemon's process number does not fit the check that the child makes.
    PidOverflow,
    NoPipe,
    NotSpawned,
}

/// A launch that failed is an unavailable inspection. The home directory is
/// removed once it was made.
pub fn launch_failed<R>(fault: LaunchFault) -> (ended: (InspectReport<R>, bool))
    ensures
        ended.0 is Unavailable,
        ended.1 == (fault != LaunchFault::HomeNotCreated),
{
    (InspectReport::Unavailable, fault != LaunchFault::HomeNotCreated)
}

/// The daemon's process number as its child compares it.
pub fn expected_parent(pid: u32) -> (parent: Result<i32, LaunchFault>)
    ensures
        parent == (if pid <= i32::MAX {
            Ok::<i32, LaunchFault>(pid as i32)
        } else {
            Err::<i32, LaunchFault>(LaunchFault::PidOverflow)
        }),
{
    if pid <= 2147483647 {
        Ok(pid as i32)
    } else {
        Err(LaunchFault::PidOverflow)
    }
}

// ---------------------------------------------------------------------------
// Draining
// ---------------------------------------------------------------------------

/// One byte past the longest stream that can be well-formed: a buffer that
/// holds as many is over the cap, and one that holds fewer is not.
pub fn report_stream_max_bytes(
    total_payload: usize,
    max_frames: usize,
    header_bytes: usize,
) -> (bytes: usize)
    requires
        total_payload + max_frames * header_bytes + 1 <= usize::MAX,
    ensures
        bytes == total_payload + max_frames * header_bytes + 1,
{
    proof {
        assert(0 <= max_frames * header_bytes) by (nonlinear_arith);
    }
    total_payload + max_frames * header_bytes + 1
}

/// Appends `chunk` and says whether the buffer holds more than `cap` now. Such
/// a buffer takes nothing more.
fn take_chunk(buffer: &mut Vec<u8>, chunk: &[u8], cap: usize) -> (oversize: bool)
    requires
        chunk@.len() <= CHUNK_BYTES,
        cap <= usize::MAX - CHUNK_BYTES,
    ensures
        old(buffer)@.len() > cap ==> final(buffer)@ == old(buffer)@ && oversize,
        old(buffer)@.len() <= cap ==> final(buffer)@ == old(buffer)@ + chunk@ && oversize == (
        final(buffer)@.len() > cap),
{
    if buffer.len() > cap {
        return true;
    }
    let ghost before = buffer@;
    let mut i: usize = 0;
    while i < chunk.len()
        invariant
            i <= chunk@.len(),
            buffer@ == before + chunk@.take(i as int),
        decreases chunk.len() - i,
    {
        buffer.push(chunk[i]);
        assert(before + chunk@.take(i + 1) =~= (before + chunk@.take(i as int)).push(
            chunk@[i as int],
        ));
        i = i + 1;
    }
    assert(chunk@.take(chunk@.len() as int) =~= chunk@);
    buffer.len() > cap
}

/// Takes what was read from stdout, and says whether it wrote more there than
/// it may. Nothing of it is ever read as a report.
pub fn take_stdout(buffer: &mut Vec<u8>, chunk: &[u8]) -> (oversize: bool)
    requires
        chunk@.len() <= CHUNK_BYTES,
    ensures
        old(buffer)@.len() > MAX_REPORT_BYTES ==> final(buffer)@ == old(buffer)@,
        old(buffer)@.len() <= MAX_REPORT_BYTES ==> final(buffer)@ == old(buffer)@ + chunk@,
        oversize == (final(buffer)@.len() > MAX_REPORT_BYTES),
{
    take_chunk(buffer, chunk, MAX_REPORT_BYTES)
}

/// Takes what was read from the report, and says whether it is longer than a
/// well-formed one can be. `stream_max` is one byte past the longest.
pub fn take_report(buffer: &mut Vec<u8>, chunk: &[u8], stream_max: usize) -> (oversize: bool)
    requires
        chunk@.len() <= CHUNK_BYTES,
        0 < stream_max <= usize::MAX - CHUNK_BYTES,
    ensures
        old(buffer)@.len() >= stream_max ==> final(buffer)@ == old(buffer)@,
        old(buffer)@.len() < stream_max ==> final(buffer)@ == old(buffer)@ + chunk@,
        oversize == (final(buffer)@.len() >= stream_max),
{
    take_chunk(buffer, chunk, stream_max - 1)
}

/// The last bytes, as many as `max` allows.
pub open spec fn tail(bytes: Seq<u8>, max: nat) -> Seq<u8> {
    if bytes.len() > max {
        bytes.skip(bytes.len() - max)
    } else {
        bytes
    }
}

/// Appends `chunk` and keeps the end.
pub fn keep_tail(buffer: &mut Vec<u8>, chunk: &[u8])
    requires
        old(buffer)@.len() <= STDERR_TAIL_BYTES,
        chunk@.len() <= CHUNK_BYTES,
    ensures
        final(buffer)@ == tail(old(buffer)@ + chunk@, STDERR_TAIL_BYTES as nat),
{
    let total: usize = buffer.len() + chunk.len();
    let excess: usize = if total > STDERR_TAIL_BYTES {
        total - STDERR_TAIL_BYTES
    } else {
        0
    };
    let ghost all = buffer@ + chunk@;
    let mut kept: Vec<u8> = Vec::new();
    let mut i: usize = excess;
    while i < total
        invariant
            excess <= i <= total,
            total == buffer@.len() + chunk@.len(),
            total == all.len(),
            all == buffer@ + chunk@,
            kept@ == all.subrange(excess as int, i as int),
        decreases total - i,
    {
        if i < buffer.len() {
            kept.push(buffer[i]);
        } else {
            kept.push(chunk[i - buffer.len()]);
        }
        assert(all.subrange(excess as int, i + 1) =~= all.subrange(excess as int, i as int).push(
            all[i as int],
        ));
        i = i + 1;
    }
    assert(all.subrange(excess as int, total as int) =~= tail(all, STDERR_TAIL_BYTES as nat));
    *buffer = kept;
}

/// Keeping the end chunk by chunk is keeping the end of the whole.
pub proof fn law_tail_of_a_tail(earlier: Seq<u8>, chunk: Seq<u8>, max: nat)
    ensures
        tail(tail(earlier, max) + chunk, max) == tail(earlier + chunk, max),
        tail(earlier, max).len() <= max,
{
    assert(tail(tail(earlier, max) + chunk, max) =~= tail(earlier + chunk, max));
}

// ---------------------------------------------------------------------------
// Supervising
// ---------------------------------------------------------------------------

/// What waiting for the inspector came to.
#[derive(Debug, Clone, Copy, PartialEq, Eq, Structural)]
pub enum WaitOutcome {
    Running,
    Exited { success: bool },
    WaitFailed,
}

/// Where the supervision of one inspector stands.
#[derive(Debug, Clone, Copy, PartialEq, Eq, Structural)]
pub enum SuperviseStage {
    /// What it wrote is to be read, then it is waited for.
    Draining,
    /// It is to be waited for.
    Waiting,
    /// It runs on; look again after a short sleep.
    Sleeping,
    /// It ended; what it wrote last is to be read.
    LastDrain { success: bool },
    /// Its report is to be read.
    Finalizing { success: bool },
    /// It is to be killed and reaped, and there is no report.
    Killing(Stopped),
    /// It is reaped, and there is no report.
    Ended(Stopped),
}

/// Why an inspection ended without its report being read.
#[derive(Debug, Clone, Copy, PartialEq, Eq, Structural)]
pub enum Stopped {
    Unavailable,
    Oversize,
    Timeout,
}

/// The supervision of one inspector.
pub struct Supervision {
    pub deadline: u64,
    pub stage: SuperviseStage,
}

impl Supervision {
    /// Begins a supervision. Pipes that cannot be had, or that would block,
    /// end it at once.
    pub fn begin(now: u64, wall_timeout_ms: u64, pipes_ready: bool) -> (run: Self)
        requires
            now + wall_timeout_ms <= u64::MAX,
        ensures
            run.deadline == now + wall_timeout_ms,
            run.stage == (if pipes_ready {
                SuperviseStage::Draining
            } else {
                SuperviseStage::Killing(Stopped::Unavailable)
            }),
    {
        Supervision {
            deadline: now + wall_timeout_ms,
            stage: if pipes_ready {
                SuperviseStage::Draining
            } else {
                SuperviseStage::Killing(Stopped::Unavailable)
            },
        }
    }

    /// Takes whether stdout or the report went over its cap. A running
    /// inspector is killed for it; one that has ended is reaped already.
    pub fn drained(&mut self, stdout_oversize: bool, report_oversize: bool)
        requires
            old(self).stage is Draining || old(self).stage is LastDrain,
        ensures
            final(self).deadline == old(self).deadline,
            final(self).stage == (match old(self).stage {
                SuperviseStage::LastDrain { success } => if stdout_oversize || report_oversize {
                    SuperviseStage::Ended(Stopped::Oversize)
                } else {
                    SuperviseStage::Finalizing { success }
                },
                _ => if stdout_oversize || report_oversize {
                    SuperviseStage::Killing(Stopped::Oversize)
                } else {
                    SuperviseStage::Waiting
                },
            }),
            forall|now: u64|
                #[trigger] supervision_step(old(self).deadline, old(self).stage, now, final(self).stage),
    {
        let oversize: bool = stdout_oversize || report_oversize;
        self.stage = match self.stage {
            SuperviseStage::LastDrain { success } => if oversize {
                SuperviseStage::Ended(Stopped::Oversize)
            } else {
                SuperviseStage::Finalizing { success }
            },
            _ => if oversize {
                SuperviseStage::Killing(Stopped::Oversize)
            } else {
                SuperviseStage::Waiting
            },
        };
    }

    /// Takes what waiting came to. Past the deadline a running inspector is
    /// killed.
    pub fn waited(&mut self, outcome: WaitOutcome, now: u64)
        requires
            old(self).stage is Waiting,
        ensures
            final(self).deadline == old(self).deadline,
            final(self).stage == (match outcome {
                WaitOutcome::Exited { success } => SuperviseStage::LastDrain { success },
                WaitOutcome::Running => if now >= old(self).deadline {
                    SuperviseStage::Killing(Stopped::Timeout)
                } else {
                    SuperviseStage::Sleeping
                },
                WaitOutcome::WaitFailed => SuperviseStage::Killing(Stopped::Unavailable),
            }),
            supervision_step(old(self).deadline, old(self).stage, now, final(self).stage),
    {
        self.stage = match outcome {
            WaitOutcome::Exited { success } => SuperviseStage::LastDrain { success },
            WaitOutcome::Running => if now >= self.deadline {
                SuperviseStage::Killing(Stopped::Timeout)
            } else {
                SuperviseStage::Sleeping
            },
            WaitOutcome::WaitFailed => SuperviseStage::Killing(Stopped::Unavailable),
        };
    }

    /// The short sleep is over.
    pub fn slept(&mut self)
        requires
            old(self).stage is Sleeping,
        ensures
            final(self).deadline == old(self).deadline,
            final(self).stage is Draining,
            forall|now: u64|
                #[trigger] supervision_step(old(self).deadline, old(self).stage, now, final(self).stage),
    {
        self.stage = SuperviseStage::Draining;
    }

    /// The inspector is killed and reaped.
    pub fn killed(&mut self)
        requires
            old(self).stage is Killing,
        ensures
            final(self).deadline == old(self).deadline,
            final(self).stage == SuperviseStage::Ended(old(self).stage->Killing_0),
            forall|now: u64|
                #[trigger] supervision_step(old(self).deadline, old(self).stage, now, final(self).stage),
    {
        self.stage = match self.stage {
            SuperviseStage::Killing(why) => SuperviseStage::Ended(why),
            other => other,
        };
    }
}

/// What an inspection came to whose report is not read.
pub fn stopped_report<R>(why: Stopped) -> (report: InspectReport<R>)
    ensures
        match why {
            Stopped::Unavailable => report is Unavailable,
            Stopped::Oversize => report is Oversize,
            Stopped::Timeout => report is Timeout,
        },
{
    match why {
        Stopped::Unavailable => InspectReport::Unavailable,
        Stopped::Oversize => InspectReport::Oversize,
        Stopped::Timeout => InspectReport::Timeout,
    }
}

/// One stage follows another at this time.
pub open spec fn supervision_step(
    deadline: u64,
    from: SuperviseStage,
    now: u64,
    to: SuperviseStage,
) -> bool {
    match from {
        SuperviseStage::Draining => to == SuperviseStage::Waiting || to == SuperviseStage::Killing(
            Stopped::Oversize,
        ),
        SuperviseStage::Waiting => {
            ||| to is LastDrain
            ||| to == SuperviseStage::Killing(Stopped::Unavailable)
            ||| now >= deadline && to == SuperviseStage::Killing(Stopped::Timeout)
            ||| now < deadline && to is Sleeping
        },
        SuperviseStage::Sleeping => to is Draining,
        SuperviseStage::LastDrain { success } => to == SuperviseStage::Ended(Stopped::Oversize)
            || to == (SuperviseStage::Finalizing { success }),
        SuperviseStage::Killing(why) => to == SuperviseStage::Ended(why),
        SuperviseStage::Finalizing { .. } => false,
        SuperviseStage::Ended(_) => false,
    }
}

/// Whatever the inspector does, a supervision that looks at it once the
/// deadline has passed is over after at most four more steps: its report is
/// read, or it is killed and reaped.
pub proof fn law_no_inspection_outlives_its_deadline(
    deadline: u64,
    stages: Seq<SuperviseStage>,
    times: Seq<u64>,
)
    requires
        stages.len() == times.len() == 6,
        forall|i: int|
            #![trigger stages[i]]
            0 <= i < 5 ==> supervision_step(deadline, stages[i], times[i], stages[i + 1]) || ((
            stages[i] is Ended || stages[i] is Finalizing) && stages[i + 1] == stages[i]),
        forall|i: int| 0 <= i < 6 ==> #[trigger] times[i] >= deadline,
    ensures
        stages[5] is Ended || stages[5] is Finalizing,
{
    assert(supervision_step(deadline, stages[0], times[0], stages[1]) || stages[1] == stages[0]);
    assert(supervision_step(deadline, stages[1], times[1], stages[2]) || stages[2] == stages[1]);
    assert(supervision_step(deadline, stages[2], times[2], stages[3]) || stages[3] == stages[2]);
    assert(supervision_step(deadline, stages[3], times[3], stages[4]) || stages[4] == stages[3]);
    assert(supervision_step(deadline, stages[4], times[4], stages[5]) || stages[5] == stages[4]);
}

// ---------------------------------------------------------------------------
// Reading the report
// ---------------------------------------------------------------------------

/// Bytes as text, whatever they are: what `String::from_utf8_lossy` makes of
/// them.
pub uninterp spec fn lossy(bytes: Seq<u8>) -> Seq<char>;

/// Calls `String::from_utf8_lossy`. The text depends on the bytes alone, and
/// bytes that are valid UTF-8 are decoded as they stand; what stands for other
/// bytes is not stated.
#[verifier::external_body]
fn lossy_of(bytes: &Vec<u8>) -> (out: String)
    ensures
        out@ == lossy(bytes@),
        valid_utf8(bytes@) ==> out@ == decode_utf8(bytes@),
{
    String::from_utf8_lossy(bytes).into_owned()
}

/// A detail is cut to this: the longest beginning that fits the bound.
pub open spec fn detail_of(text: Seq<char>, detail: Seq<char>) -> bool {
    &&& detail.len() <= text.len()
    &&& detail == text.take(detail.len() as int)
    &&& text::byte_count(detail) <= MAX_DETAIL_BYTES
    &&& detail.len() < text.len() ==> text::byte_count(text.take(detail.len() as int + 1))
        > MAX_DETAIL_BYTES
}

/// Cuts a detail to its bound, never within a character.
pub fn bounded_detail(text: &str) -> (detail: String)
    ensures
        detail_of(text@, detail@),
{
    let chars = chars_of(text);
    let mut detail = String::new();
    proof {
        assert(detail@ =~= chars@.take(0));
        assert(text::byte_count(detail@) == 0);
    }
    let mut i: usize = 0;
    while i < chars.len()
        invariant
            i <= chars@.len(),
            chars@ == text@,
            detail@ == chars@.take(i as int),
            text::byte_count(detail@) <= MAX_DETAIL_BYTES,
        decreases chars.len() - i,
    {
        let mut longer = detail.clone();
        longer.push(chars[i]);
        assert(longer@ =~= chars@.take(i + 1));
        if byte_len(longer.as_str()) > MAX_DETAIL_BYTES {
            return detail;
        }
        detail = longer;
        i = i + 1;
    }
    detail
}

proof fn lemma_byte_count_grows(text: Seq<char>, n: int)
    requires
        0 <= n <= text.len(),
    ensures
        text::byte_count(text.take(n)) <= text::byte_count(text),
    decreases text.len(),
{
    if n > 0 {
        lemma_byte_count_grows(text.drop_first(), n - 1);
        assert(text.take(n).drop_first() =~= text.drop_first().take(n - 1));
        assert(text.take(n)[0] == text[0]);
    }
}

/// A detail within the bound is kept whole, and none is longer than the bound.
pub proof fn law_short_detail_is_kept_whole(text: Seq<char>, detail: Seq<char>)
    requires
        detail_of(text, detail),
    ensures
        text::byte_count(detail) <= MAX_DETAIL_BYTES,
        text::byte_count(text) <= MAX_DETAIL_BYTES ==> detail == text,
{
    if detail.len() < text.len() {
        lemma_byte_count_grows(text, detail.len() as int + 1);
    } else {
        assert(text.take(detail.len() as int) =~= text);
    }
}

/// What a frame of the report is.
#[derive(Debug, Clone, Copy, PartialEq, Eq, Structural)]
pub enum FrameKind {
    SceneInspection,
    /// Anything else; it is passed over.
    Other,
}

/// One frame of the report.
#[derive(Debug)]
pub struct Frame {
    pub kind: FrameKind,
    pub payload: Vec<u8>,
}

/// The frames of a report in their order, and the error that ended it if one
/// did.
pub struct FrameStream {
    pub frames: Vec<Frame>,
    pub error: Option<String>,
}

/// How many of the frames carry an inspection.
pub open spec fn inspections(frames: Seq<Frame>) -> nat
    decreases frames.len(),
{
    if frames.len() == 0 {
        0
    } else {
        inspections(frames.drop_last()) + if frames.last().kind == FrameKind::SceneInspection {
            1nat
        } else {
            0
        }
    }
}

/// `payload` is that of the only inspection of a stream without error.
pub open spec fn only_inspection(stream: FrameStream, payload: Vec<u8>) -> bool {
    &&& stream.error is None
    &&& inspections(stream.frames@) == 1
    &&& exists|at: int|
        0 <= at < stream.frames@.len() && (#[trigger] stream.frames@[at]).kind
            == FrameKind::SceneInspection && stream.frames@[at].payload == payload
}

/// `report` is what a report comes to, over what `validate` can answer.
pub open spec fn reads_as<R, V: FnOnce(&Vec<u8>) -> Result<R, String>>(
    stream: FrameStream,
    stderr_tail: Seq<u8>,
    validate: V,
    report: InspectReport<R>,
) -> bool {
    match stream.error {
        Some(error) => report matches InspectReport::Malformed { detail, stderr_tail: said }
            && detail_of(error@, detail@) && said@ == lossy(stderr_tail),
        None => if inspections(stream.frames@) == 0 {
            report matches InspectReport::Missing { stderr_tail: said } && said@ == lossy(
                stderr_tail,
            )
        } else if inspections(stream.frames@) > 1 {
            report is Duplicate
        } else {
            exists|at: int|
                {
                    &&& 0 <= at < stream.frames@.len()
                    &&& (#[trigger] stream.frames@[at]).kind == FrameKind::SceneInspection
                    &&& validated(stream.frames@[at].payload, stderr_tail, validate, report)
                }
        },
    }
}

/// `report` is what the only inspection comes to.
pub open spec fn validated<R, V: FnOnce(&Vec<u8>) -> Result<R, String>>(
    payload: Vec<u8>,
    stderr_tail: Seq<u8>,
    validate: V,
    report: InspectReport<R>,
) -> bool {
    match report {
        InspectReport::Record(record) => call_ensures(validate, (&payload,), Ok(record)),
        InspectReport::Malformed { detail, stderr_tail: said } => {
            &&& said@ == lossy(stderr_tail)
            &&& exists|error: String|
                detail_of(error@, detail@) && #[trigger] call_ensures(
                    validate,
                    (&payload,),
                    Err::<R, String>(error),
                )
        },
        _ => false,
    }
}

proof fn lemma_inspections(frames: Seq<Frame>, n: int)
    requires
        0 <= n <= frames.len(),
    ensures
        inspections(frames.take(n)) <= inspections(frames),
    decreases frames.len() - n,
{
    if n < frames.len() {
        assert(frames.take(n + 1).drop_last() =~= frames.take(n));
        lemma_inspections(frames, n + 1);
    } else {
        assert(frames.take(n) =~= frames);
    }
}

/// What an inspector that ended comes to. One that failed is not listened to;
/// otherwise exactly one inspection has to be among the frames, and it has to
/// be valid.
pub fn finalize<R, V: FnOnce(&Vec<u8>) -> Result<R, String>>(
    success: bool,
    stream: FrameStream,
    stderr_tail: &Vec<u8>,
    validate: V,
) -> (report: InspectReport<R>)
    requires
        // What an inspector that failed said is not looked at.
        forall|payload: &Vec<u8>|
            success && only_inspection(stream, *payload) ==> #[trigger] call_requires(
                validate,
                (payload,),
            ),
    ensures
        if success {
            reads_as(stream, stderr_tail@, validate, report)
        } else {
            report matches InspectReport::Failed { stderr_tail: said } && said@ == lossy(
                stderr_tail@,
            )
        },
{
    if !success {
        return InspectReport::Failed { stderr_tail: lossy_of(stderr_tail) };
    }
    match &stream.error {
        Some(error) => {
            return InspectReport::Malformed {
                detail: bounded_detail(error.as_str()),
                stderr_tail: lossy_of(stderr_tail),
            };
        },
        None => {},
    }
    let frames: &Vec<Frame> = &stream.frames;
    let mut found: Option<usize> = None;
    let mut i: usize = 0;
    assert(frames@.take(0) =~= Seq::empty());
    while i < frames.len()
        invariant
            i <= frames@.len(),
            *frames == stream.frames,
            stream.error is None,
            success,
            match found {
                Some(at) => at < i && frames@[at as int].kind == FrameKind::SceneInspection
                    && inspections(frames@.take(i as int)) == 1,
                None => inspections(frames@.take(i as int)) == 0,
            },
        decreases frames.len() - i,
    {
        assert(frames@.take(i + 1).drop_last() =~= frames@.take(i as int));
        let is_inspection: bool = match frames[i].kind {
            FrameKind::SceneInspection => true,
            FrameKind::Other => false,
        };
        if is_inspection {
            if found.is_some() {
                proof {
                    lemma_inspections(frames@, i + 1);
                }
                return InspectReport::Duplicate;
            }
            found = Some(i);
        }
        i = i + 1;
    }
    assert(frames@.take(frames@.len() as int) =~= frames@);
    match found {
        None => InspectReport::Missing { stderr_tail: lossy_of(stderr_tail) },
        Some(at) => {
            let payload: &Vec<u8> = &frames[at].payload;
            match validate(payload) {
                Ok(record) => {
                    let report: InspectReport<R> = InspectReport::Record(record);
                    assert(validated(
                        stream.frames@[at as int].payload,
                        stderr_tail@,
                        validate,
                        report,
                    ));
                    report
                },
                Err(error) => {
                    let report: InspectReport<R> = InspectReport::Malformed {
                        detail: bounded_detail(error.as_str()),
                        stderr_tail: lossy_of(stderr_tail),
                    };
                    assert(validated(
                        stream.frames@[at as int].payload,
                        stderr_tail@,
                        validate,
                        report,
                    ));
                    report
                },
            }
        },
    }
}

} // verus!
