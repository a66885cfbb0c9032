//! Configuration of the exec source: operating mode, command line, framing
//! choice and buffer bound, with validation and defaulting rules.

use vstd::prelude::*;

verus! {

/// Operating mode of the exec source.
#[derive(Clone, Copy, Debug, PartialEq, Eq, Structural)]
pub enum Mode {
    /// Run the command on a fixed interval, one run per tick.
    Scheduled,
    /// Supervise one long-lived run, optionally respawning on exit.
    Streaming,
}

/// Settings that apply in scheduled mode.
#[derive(Clone, Copy, Debug, PartialEq, Eq, Structural)]
pub struct ScheduledConfig {
    pub exec_interval_secs: u64,
}

/// Settings that apply in streaming mode.
#[derive(Clone, Copy, Debug, PartialEq, Eq, Structural)]
pub struct StreamingConfig {
    pub respawn_on_exit: bool,
    pub respawn_interval_secs: u64,
}

/// Why an exec configuration was rejected.
#[derive(Clone, Copy, Debug, PartialEq, Eq, Structural)]
pub enum ExecConfigError {
    /// The command list was empty.
    CommandEmpty,
    /// The maximum buffer size was zero.
    ZeroBuffer,
}

impl ExecConfigError {
    /// The human-readable description of the rejection.
    pub fn message(&self) -> (r: &'static str)
        ensures
            *self is CommandEmpty ==> r@ == "A non-empty list for command must be provided"@,
            *self is ZeroBuffer ==> r@ == "The maximum buffer size must be greater than zero"@,
    {
        match self {
            ExecConfigError::CommandEmpty => "A non-empty list for command must be provided",
            ExecConfigError::ZeroBuffer => "The maximum buffer size must be greater than zero",
        }
    }
}

/// Immutable per-source configuration of the exec source.
#[derive(Clone, Debug)]
pub struct ExecConfig {
    pub mode: Mode,
    pub scheduled: Option<ScheduledConfig>,
    pub streaming: Option<StreamingConfig>,
    /// Element 0 is the executable; the remainder are its arguments.
    pub command: Vec<String>,
    pub working_directory: Option<String>,
    pub include_stderr: bool,
    pub event_per_line: bool,
    pub maximum_buffer_size_bytes: usize,
}

pub fn default_maximum_buffer_size() -> (r: usize)
    ensures
        r == 1000000,
{
    1000000
}

pub fn default_exec_interval_secs() -> (r: u64)
    ensures
        r == 60,
{
    60
}

pub fn default_respawn_interval_secs() -> (r: u64)
    ensures
        r == 5,
{
    5
}

pub fn default_respawn_on_exit() -> (r: bool)
    ensures
        r,
{
    true
}

pub fn default_include_stderr() -> (r: bool)
    ensures
        r,
{
    true
}

pub fn default_events_per_line() -> (r: bool)
    ensures
        r,
{
    true
}

impl ExecConfig {
    /// A configuration is valid when the command is non-empty and the buffer
    /// bound is positive.
    pub open spec fn valid(&self) -> bool {
        &&& self.command@.len() > 0
        &&& self.maximum_buffer_size_bytes > 0
    }

    /// Accepts exactly the valid configurations; names the first violated rule
    /// otherwise.
    pub fn validate(&self) -> (r: Result<(), ExecConfigError>)
        ensures
            r is Ok <==> self.valid(),
            self.command@.len() == 0 ==> r == Result::<(), ExecConfigError>::Err(
                ExecConfigError::CommandEmpty,
            ),
            self.command@.len() > 0 && self.maximum_buffer_size_bytes == 0 ==> r
                == Result::<(), ExecConfigError>::Err(ExecConfigError::ZeroBuffer),
    {
        if self.command.len() == 0 {
            Err(ExecConfigError::CommandEmpty)
        } else if self.maximum_buffer_size_bytes == 0 {
            Err(ExecConfigError::ZeroBuffer)
        } else {
            Ok(())
        }
    }

    /// The command and its arguments joined by single spaces.
    pub open spec fn spec_command_line(&self) -> Seq<char> {
        join_words(self.command@.map_values(|s: String| s@))
    }

    /// Renders the command line for telemetry and log messages.
    pub fn command_line(&self) -> (r: String)
        ensures
            r@ == self.spec_command_line(),
    {
        let mut out = String::new();
        let mut i: usize = 0;
        proof {
            reveal_strlit(" ");
            assert(self.command@.map_values(|s: String| s@).take(0) =~= Seq::<Seq<char>>::empty());
        }
        while i < self.command.len()
            invariant
                i <= self.command@.len(),
                out@ == join_words(self.command@.map_values(|s: String| s@).take(i as int)),
            decreases self.command@.len() - i,
        {
            if i > 0 {
                out.append(" ");
            }
            out.append(self.command[i].as_str());
            proof {
                reveal_strlit(" ");
                let words = self.command@.map_values(|s: String| s@);
                assert(words.take(i + 1).drop_last() =~= words.take(i as int));
                assert(words.take(i + 1).last() == words[i as int]);
                assert(" "@ =~= seq![' ']);
            }
            i = i + 1;
        }
        proof {
            assert(self.command@.map_values(|s: String| s@).take(self.command@.len() as int)
                =~= self.command@.map_values(|s: String| s@));
        }
        out
    }

    /// The scheduled interval, or its default when no scheduled settings were
    /// given.
    pub fn exec_interval_secs_or_default(&self) -> (r: u64)
        ensures
            r == self.spec_exec_interval_secs(),
    {
        match &self.scheduled {
            None => default_exec_interval_secs(),
            Some(config) => config.exec_interval_secs,
        }
    }

    pub open spec fn spec_exec_interval_secs(&self) -> u64 {
        match self.scheduled {
            None => 60,
            Some(config) => config.exec_interval_secs,
        }
    }

    /// Whether a streaming run is respawned on exit, or the default when no
    /// streaming settings were given.
    pub fn respawn_on_exit_or_default(&self) -> (r: bool)
        ensures
            r == self.spec_respawn_on_exit(),
    {
        match &self.streaming {
            None => default_respawn_on_exit(),
            Some(config) => config.respawn_on_exit,
        }
    }

    pub open spec fn spec_respawn_on_exit(&self) -> bool {
        match self.streaming {
            None => true,
            Some(config) => config.respawn_on_exit,
        }
    }

    /// The pause between streaming respawns, or the default when no streaming
    /// settings were given.
    pub fn respawn_interval_secs_or_default(&self) -> (r: u64)
        ensures
            r == self.spec_respawn_interval_secs(),
    {
        match &self.streaming {
            None => default_respawn_interval_secs(),
            Some(config) => config.respawn_interval_secs,
        }
    }

    pub open spec fn spec_respawn_interval_secs(&self) -> u64 {
        match self.streaming {
            None => 5,
            Some(config) => config.respawn_interval_secs,
        }
    }
}

/// Words joined by single spaces: empty for no words, the word alone for one,
/// and each further word preceded by one space.
pub open spec fn join_words(words: Seq<Seq<char>>) -> Seq<char>
    decreases words.len(),
{
    if words.len() == 0 {
        Seq::empty()
    } else if words.len() == 1 {
        words[0]
    } else {
        join_words(words.drop_last()) + seq![' '] + words.last()
    }
}

impl Default for ExecConfig {
    /// The example configuration: scheduled echo of a greeting, with every
    /// optional setting at its default.
    fn default() -> (r: Self)
        ensures
            r.mode is Scheduled,
            r.scheduled == Some(ScheduledConfig { exec_interval_secs: 60 }),
            r.streaming is None,
            r.command@.len() == 2,
            r.command@[0]@ == "echo"@,
            r.command@[1]@ == "Hello World!"@,
            r.working_directory is None,
            r.include_stderr,
            r.event_per_line,
            r.maximum_buffer_size_bytes == 1000000,
            r.valid(),
    {
        let mut command: Vec<String> = Vec::new();
        command.push("echo".to_owned());
        command.push("Hello World!".to_owned());
        ExecConfig {
            mode: Mode::Scheduled,
            scheduled: Some(ScheduledConfig { exec_interval_secs: default_exec_interval_secs() }),
            streaming: None,
            command,
            working_directory: None,
            include_stderr: default_include_stderr(),
            event_per_line: default_events_per_line(),
            maximum_buffer_size_bytes: default_maximum_buffer_size(),
        }
    }
}

} // verus!
