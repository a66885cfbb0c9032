//! The exec source: child-process command building, the reader task's
//! framing, the runner's event pipeline, and the scheduled and streaming
//! supervisor decisions.

use vstd::prelude::*;
use crate::codec::{blob_frames, decode_lines, decode_sized_blobs, frames_view, line_frames};
use crate::config::{ExecConfig, ExecConfigError, Mode};
use crate::event::{create_event, is_exec_event, opt_string_view, strings_view, Event};

verus! {

/// Which standard stream of the child a frame was read from.
#[derive(Clone, Copy, Debug, PartialEq, Eq, Structural)]
pub enum StreamTag {
    Stdout,
    Stderr,
}

/// The view of a stream tag as its conventional name.
pub open spec fn tag_view(t: StreamTag) -> Seq<char> {
    match t {
        StreamTag::Stdout => "stdout"@,
        StreamTag::Stderr => "stderr"@,
    }
}

impl StreamTag {
    /// The conventional name of the stream.
    pub fn as_str(&self) -> (r: &'static str)
        ensures
            r@ == tag_view(*self),
    {
        match self {
            StreamTag::Stdout => "stdout",
            StreamTag::Stderr => "stderr",
        }
    }
}

/// How a standard stream of the child is connected.
#[derive(Clone, Copy, Debug, PartialEq, Eq, Structural)]
pub enum StdioSpec {
    /// Captured through a pipe.
    Piped,
    /// Connected to the null device.
    Null,
}

/// Everything that determines the child process to spawn.
#[derive(Clone, Debug)]
pub struct ChildSpec {
    /// The executable to run.
    pub program: String,
    /// Its arguments, in order.
    pub args: Vec<String>,
    /// The working directory, when one is configured.
    pub working_directory: Option<String>,
    pub stdin: StdioSpec,
    pub stdout: StdioSpec,
    pub stderr: StdioSpec,
    /// Whether the child is terminated when its handle is dropped.
    pub kill_on_drop: bool,
}

/// Builds the child specification: program and arguments from the command
/// list, stdin closed, stdout piped, stderr piped only when stderr is
/// included, and the child killed when its handle is dropped.
pub fn build_command(config: &ExecConfig) -> (spec: ChildSpec)
    requires
        config.command@.len() > 0,
    ensures
        spec.program@ == config.command@[0]@,
        spec.args@.len() == config.command@.len() - 1,
        forall|i: int| 0 <= i < spec.args@.len() ==> #[trigger] spec.args@[i]@ == config.command@[i
            + 1]@,
        spec.working_directory is Some <==> config.working_directory is Some,
        (config.working_directory matches Some(d) ==> spec.working_directory matches Some(e) && e@
            == d@),
        spec.stdin is Null,
        spec.stdout is Piped,
        spec.stderr == (if config.include_stderr {
            StdioSpec::Piped
        } else {
            StdioSpec::Null
        }),
        spec.kill_on_drop,
{
    let program = config.command[0].clone();
    let mut args: Vec<String> = Vec::new();
    let mut i: usize = 1;
    while i < config.command.len()
        invariant
            1 <= i <= config.command@.len(),
            args@.len() == i - 1,
            forall|j: int| 0 <= j < args@.len() ==> #[trigger] args@[j]@ == config.command@[j + 1]@,
        decreases config.command@.len() - i,
    {
        args.push(config.command[i].clone());
        i = i + 1;
    }
    let working_directory = match &config.working_directory {
        Some(d) => Some(d.clone()),
        None => None,
    };
    ChildSpec {
        program,
        args,
        working_directory,
        stdin: StdioSpec::Null,
        stdout: StdioSpec::Piped,
        stderr: if config.include_stderr {
            StdioSpec::Piped
        } else {
            StdioSpec::Null
        },
        kill_on_drop: true,
    }
}

/// The frame bytes of a tagged frame list.
pub open spec fn tagged_frames_view(out: Seq<(Vec<u8>, StreamTag)>) -> Seq<Seq<u8>> {
    out.map_values(|p: (Vec<u8>, StreamTag)| p.0@)
}

/// The codec a reader task applies: lines when `event_per_line` is set,
/// sized blobs otherwise.
pub open spec fn reader_frames_spec(input: Seq<u8>, event_per_line: bool, max_length: nat) -> Seq<
    Seq<u8>,
> {
    if event_per_line {
        line_frames(input, max_length)
    } else {
        blob_frames(input, max_length)
    }
}

/// What one reader task enqueues after draining its stream: the decoded
/// frames in order, each tagged with the stream it came from.
pub fn reader_frames(input: &[u8], event_per_line: bool, max_length: usize, stream: StreamTag) -> (
    out: Vec<(Vec<u8>, StreamTag)>)
    requires
        event_per_line || max_length > 0,
    ensures
        tagged_frames_view(out@) == reader_frames_spec(input@, event_per_line, max_length as nat),
        forall|i: int| 0 <= i < out@.len() ==> #[trigger] out@[i].1 == stream,
{
    let mut frames: Vec<Vec<u8>> = if event_per_line {
        decode_lines(input, max_length)
    } else {
        decode_sized_blobs(input, max_length)
    };
    let ghost target = frames_view(frames@);
    let mut out: Vec<(Vec<u8>, StreamTag)> = Vec::new();
    proof {
        assert(tagged_frames_view(out@) + frames_view(frames@) =~= target);
    }
    while frames.len() > 0
        invariant
            tagged_frames_view(out@) + frames_view(frames@) == target,
            forall|i: int| 0 <= i < out@.len() ==> #[trigger] out@[i].1 == stream,
        decreases frames@.len(),
    {
        let frame = frames.remove(0);
        out.push((frame, stream));
        proof {
            assert(tagged_frames_view(out@) + frames_view(frames@) =~= target);
        }
    }
    proof {
        assert(tagged_frames_view(out@) =~= target);
    }
    out
}

/// A telemetry event emitted by the sources; names are stable.
#[derive(Clone, Debug)]
pub enum Telemetry {
    /// One frame was lifted into an event.
    ExecEventReceived { command_line: String, byte_size: usize },
    /// One run ended; non-zero exits are a datum, not an error.
    ExecCommandExecuted {
        command_line: String,
        exit_status: Option<i32>,
        exec_duration_ms: u64,
    },
    /// One run failed to start or to be waited on.
    ExecFailed { command_line: String, error: String },
    /// One scheduled run exceeded its interval and was cancelled.
    ExecTimeout { command_line: String, elapsed_seconds: u64 },
    /// A connection was opened; carries the count after the change.
    ConnectionOpen { count: usize },
    /// A TLS handshake failed on an inbound connection.
    TcpSocketConnectionError { error: String },
    /// Writing an acknowledgement back to a peer failed.
    TcpSendAckError { error: String },
}

/// The telemetry recorded when a run ends: the command line, the exit status
/// when one was observed, and the run's duration.
pub fn handle_exit_status(config: &ExecConfig, exit_status: Option<i32>, exec_duration_ms: u64) -> (
    t: Telemetry)
    ensures
        t matches Telemetry::ExecCommandExecuted {
            command_line,
            exit_status: es,
            exec_duration_ms: d,
        } && command_line@ == config.spec_command_line() && es == exit_status && d
            == exec_duration_ms,
{
    Telemetry::ExecCommandExecuted {
        command_line: config.command_line(),
        exit_status,
        exec_duration_ms,
    }
}

/// The telemetry recorded when one frame is lifted into an event.
pub fn exec_event_received(config: &ExecConfig, byte_size: usize) -> (t: Telemetry)
    ensures
        t matches Telemetry::ExecEventReceived { command_line, byte_size: n } && command_line@
            == config.spec_command_line() && n == byte_size,
{
    Telemetry::ExecEventReceived { command_line: config.command_line(), byte_size }
}

/// The events one run forwards downstream: one per received frame, in arrival
/// order, each carrying the frame's stream tag and the run's metadata.
pub fn runner_events(
    config: &ExecConfig,
    hostname: &Option<String>,
    frames: &Vec<(Vec<u8>, StreamTag)>,
    pid: Option<u32>,
) -> (events: Vec<Event>)
    ensures
        events@.len() == frames@.len(),
        forall|i: int|
            0 <= i < events@.len() ==> is_exec_event(
                #[trigger] events@[i],
                strings_view(config.command@),
                opt_string_view(*hostname),
                frames@[i].0@,
                Some(tag_view(frames@[i].1)),
                pid,
            ),
{
    let mut events: Vec<Event> = Vec::new();
    let mut i: usize = 0;
    while i < frames.len()
        invariant
            i <= frames@.len(),
            events@.len() == i,
            forall|j: int|
                0 <= j < i ==> is_exec_event(
                    #[trigger] events@[j],
                    strings_view(config.command@),
                    opt_string_view(*hostname),
                    frames@[j].0@,
                    Some(tag_view(frames@[j].1)),
                    pid,
                ),
        decreases frames@.len() - i,
    {
        let line = clone_bytes(&frames[i].0);
        let stream = Some(frames[i].1.as_str().to_owned());
        let ev = create_event(config, hostname, line, &stream, pid);
        events.push(ev);
        i = i + 1;
    }
    events
}

/// Clones a byte vector.
pub fn clone_bytes(v: &Vec<u8>) -> (r: Vec<u8>)
    ensures
        r@ == v@,
{
    let mut r: Vec<u8> = Vec::new();
    let mut i: usize = 0;
    while i < v.len()
        invariant
            i <= v@.len(),
            r@ == v@.take(i as int),
        decreases v@.len() - i,
    {
        r.push(v[i]);
        proof {
            assert(v@.take(i as int).push(v@[i as int]) =~= v@.take(i + 1));
        }
        i = i + 1;
    }
    proof {
        assert(v@.take(v@.len() as int) =~= v@);
    }
    r
}

/// How one run of the command ended, as the supervisor sees it.
#[derive(Clone, Debug)]
pub enum RunOutcome {
    /// The run finished; carries the exit code when one was observed.
    Completed(Option<i32>),
    /// The run failed to start or to be read; carries the error text.
    Failed(String),
    /// A scheduled run exceeded its interval and was cancelled.
    TimedOut,
}

/// The scheduled supervisor's decision after one tick: a failure emits
/// `ExecFailed`, a timeout emits `ExecTimeout` with the interval as the
/// elapsed time, and a completed run emits nothing.
pub fn scheduled_tick(config: &ExecConfig, outcome: &RunOutcome, schedule_secs: u64) -> (t: Option<
    Telemetry,
>)
    ensures
        outcome is Completed ==> t is None,
        (outcome matches RunOutcome::Failed(e) ==> t matches Some(
            Telemetry::ExecFailed { command_line, error },
        ) && command_line@ == config.spec_command_line() && error@ == e@),
        outcome is TimedOut ==> (t matches Some(
            Telemetry::ExecTimeout { command_line, elapsed_seconds },
        ) && command_line@ == config.spec_command_line() && elapsed_seconds == schedule_secs),
{
    match outcome {
        RunOutcome::Completed(_) => None,
        RunOutcome::Failed(e) => Some(
            Telemetry::ExecFailed { command_line: config.command_line(), error: e.clone() },
        ),
        RunOutcome::TimedOut => Some(
            Telemetry::ExecTimeout {
                command_line: config.command_line(),
                elapsed_seconds: schedule_secs,
            },
        ),
    }
}

/// The streaming supervisor's state.
#[derive(Clone, Copy, Debug, PartialEq, Eq, Structural)]
pub enum StreamingState {
    /// A run is in progress.
    Running,
    /// Waiting out the respawn interval.
    Cooldown,
    /// Shut down; no further runs.
    Terminated,
}

/// What the streaming supervisor observes at a loop head.
#[derive(Clone, Debug)]
pub enum StreamingEvent {
    /// The shutdown signal resolved.
    Shutdown,
    /// The run ended; carries the error text when it failed.
    RunnerDone(Option<String>),
    /// The respawn pause elapsed.
    CooldownElapsed,
}

/// One streaming supervisor decision: the next state, what to emit, and
/// whether to log that the process ended before shutdown.
pub struct StreamingDecision {
    pub next: StreamingState,
    pub telemetry: Option<Telemetry>,
    pub log_early_end: bool,
}

/// One step of the streaming supervisor: shutdown terminates from any state;
/// a finished run emits `ExecFailed` when it failed, notes an early end while
/// shutdown is still pending, and moves to cooldown only when respawning is
/// on; an elapsed cooldown starts the next run.
pub fn streaming_step(
    config: &ExecConfig,
    state: StreamingState,
    event: &StreamingEvent,
    respawn_on_exit: bool,
    shutdown_pending: bool,
) -> (d: StreamingDecision)
    ensures
        event is Shutdown ==> d.next is Terminated && d.telemetry is None && !d.log_early_end,
        state is Terminated ==> d.next is Terminated,
        state is Running ==> (match *event {
            StreamingEvent::RunnerDone(err) => {
                &&& d.next == (if respawn_on_exit {
                    StreamingState::Cooldown
                } else {
                    StreamingState::Terminated
                })
                &&& (err matches Some(e) ==> d.telemetry matches Some(
                    Telemetry::ExecFailed { command_line, error },
                ) && command_line@ == config.spec_command_line() && error@ == e@)
                &&& (err is None ==> d.telemetry is None)
                &&& d.log_early_end == shutdown_pending
            },
            _ => true,
        }),
        (state is Cooldown && event is CooldownElapsed) ==> d.next is Running && d.telemetry
            is None && !d.log_early_end,
{
    match event {
        StreamingEvent::Shutdown => StreamingDecision {
            next: StreamingState::Terminated,
            telemetry: None,
            log_early_end: false,
        },
        StreamingEvent::RunnerDone(err) => {
            if matches!(state, StreamingState::Terminated) {
                StreamingDecision {
                    next: StreamingState::Terminated,
                    telemetry: None,
                    log_early_end: false,
                }
            } else {
                let telemetry = match err {
                    Some(e) => Some(
                        Telemetry::ExecFailed {
                            command_line: config.command_line(),
                            error: e.clone(),
                        },
                    ),
                    None => None,
                };
                StreamingDecision {
                    next: if respawn_on_exit {
                        StreamingState::Cooldown
                    } else {
                        StreamingState::Terminated
                    },
                    telemetry,
                    log_early_end: shutdown_pending,
                }
            }
        },
        StreamingEvent::CooldownElapsed => {
            if matches!(state, StreamingState::Terminated) {
                StreamingDecision {
                    next: StreamingState::Terminated,
                    telemetry: None,
                    log_early_end: false,
                }
            } else {
                StreamingDecision {
                    next: StreamingState::Running,
                    telemetry: None,
                    log_early_end: false,
                }
            }
        },
    }
}

/// What the host runs for one configuration: the mode with its effective
/// settings, after validation.
#[derive(Clone, Copy, Debug, PartialEq, Eq, Structural)]
pub enum SourcePlan {
    Scheduled { exec_interval_secs: u64 },
    Streaming { respawn_on_exit: bool, respawn_interval_secs: u64 },
}

impl ExecConfig {
    /// Validates the configuration and resolves the mode's effective
    /// settings, defaults applied.
    pub fn build(&self) -> (r: Result<SourcePlan, ExecConfigError>)
        ensures
            r is Ok <==> self.valid(),
            self.command@.len() == 0 ==> r == Result::<SourcePlan, ExecConfigError>::Err(
                ExecConfigError::CommandEmpty,
            ),
            self.command@.len() > 0 && self.maximum_buffer_size_bytes == 0 ==> r == Result::<
                SourcePlan,
                ExecConfigError,
            >::Err(ExecConfigError::ZeroBuffer),
            self.valid() && self.mode is Scheduled ==> r == Result::<
                SourcePlan,
                ExecConfigError,
            >::Ok(SourcePlan::Scheduled { exec_interval_secs: self.spec_exec_interval_secs() }),
            self.valid() && self.mode is Streaming ==> r == Result::<
                SourcePlan,
                ExecConfigError,
            >::Ok(
                SourcePlan::Streaming {
                    respawn_on_exit: self.spec_respawn_on_exit(),
                    respawn_interval_secs: self.spec_respawn_interval_secs(),
                },
            ),
    {
        match self.validate() {
            Err(e) => Err(e),
            Ok(()) => match self.mode {
                Mode::Scheduled => Ok(
                    SourcePlan::Scheduled {
                        exec_interval_secs: self.exec_interval_secs_or_default(),
                    },
                ),
                Mode::Streaming => Ok(
                    SourcePlan::Streaming {
                        respawn_on_exit: self.respawn_on_exit_or_default(),
                        respawn_interval_secs: self.respawn_interval_secs_or_default(),
                    },
                ),
            },
        }
    }
}

} // verus!
