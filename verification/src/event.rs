//! Log events of the exec source: an ordered field map and the builder that
//! lifts one decoded frame into an event with its provenance metadata.

use vstd::prelude::*;
use vstd::utf8::encode_utf8_decode_utf8;
use vstd::string::StringSliceAdditionalSpecFns;
use crate::config::ExecConfig;

verus! {

/// A field value of a log event.
#[derive(Clone, Debug, PartialEq)]
pub enum Value {
    /// Raw message bytes.
    Bytes(Vec<u8>),
    /// Text, such as a stream tag or a hostname.
    Text(String),
    /// A signed integer, such as a process id.
    Integer(i64),
    /// A UTC wall-clock timestamp, in milliseconds since the Unix epoch.
    Timestamp(i64),
    /// An ordered list of strings, such as a command line.
    Strings(Vec<String>),
}

/// The key under which an event's message bytes are stored.
pub const MESSAGE_KEY: &'static str = "message";

/// The key under which an event's creation time is stored.
pub const TIMESTAMP_KEY: &'static str = "timestamp";

/// The key under which an event's source type is stored.
pub const SOURCE_TYPE_KEY: &'static str = "source_type";

/// The key under which the originating stream tag is stored.
pub const STREAM_KEY: &'static str = "stream";

/// The key under which the child's process id is stored.
pub const PID_KEY: &'static str = "pid";

/// The key under which the discovered hostname is stored.
pub const HOST_KEY: &'static str = "host";

/// The key under which the command line is stored.
pub const COMMAND_KEY: &'static str = "command";

/// The source type constant of every exec event.
pub const EXEC: &'static str = "exec";

/// The first value stored under `key`, scanning from the front.
pub open spec fn lookup_fields(fields: Seq<(String, Value)>, key: Seq<char>) -> Option<Value>
    decreases fields.len(),
{
    if fields.len() == 0 {
        None
    } else if fields.first().0@ == key {
        Some(fields.first().1)
    } else {
        lookup_fields(fields.drop_first(), key)
    }
}

/// A log event: an ordered sequence of named field values.
#[derive(Clone, Debug, PartialEq)]
pub struct LogEvent {
    pub fields: Vec<(String, Value)>,
}

/// Character-wise string equality, decided byte-wise.
pub fn str_eq(a: &str, b: &str) -> (r: bool)
    ensures
        r == (a@ == b@),
{
    let ab = a.as_bytes();
    let bb = b.as_bytes();
    if ab.len() != bb.len() {
        return false;
    }
    let mut i: usize = 0;
    while i < ab.len()
        invariant
            i <= ab@.len(),
            ab@.len() == bb@.len(),
            ab@ == a.spec_bytes(),
            bb@ == b.spec_bytes(),
            forall|j: int| 0 <= j < i ==> ab@[j] == bb@[j],
        decreases ab@.len() - i,
    {
        if ab[i] != bb[i] {
            return false;
        }
        i = i + 1;
    }
    proof {
        assert(a.spec_bytes() =~= b.spec_bytes());
        encode_utf8_decode_utf8(a@);
        encode_utf8_decode_utf8(b@);
    }
    true
}

impl LogEvent {
    /// An event with no fields.
    pub fn new() -> (r: Self)
        ensures
            r.fields@.len() == 0,
    {
        LogEvent { fields: Vec::new() }
    }

    /// Appends one field at the end.
    pub fn insert(&mut self, key: &str, value: Value)
        ensures
            final(self).fields@.len() == old(self).fields@.len() + 1,
            final(self).fields@.last().0@ == key@,
            final(self).fields@.last().1 == value,
            final(self).fields@.drop_last() == old(self).fields@,
    {
        self.fields.push((key.to_owned(), value));
        proof {
            assert(final(self).fields@.drop_last() =~= old(self).fields@);
        }
    }

    /// The first value stored under `key`, when one is present.
    pub fn get(&self, key: &str) -> (r: Option<&Value>)
        ensures
            match r {
                Some(v) => lookup_fields(self.fields@, key@) == Some(*v),
                None => lookup_fields(self.fields@, key@) is None,
            },
    {
        let mut i: usize = 0;
        proof {
            assert(self.fields@.skip(0) =~= self.fields@);
        }
        while i < self.fields.len()
            invariant
                i <= self.fields@.len(),
                lookup_fields(self.fields@, key@) == lookup_fields(
                    self.fields@.skip(i as int),
                    key@,
                ),
            decreases self.fields@.len() - i,
        {
            proof {
                let rest = self.fields@.skip(i as int);
                assert(rest.first() == self.fields@[i as int]);
                assert(rest.drop_first() =~= self.fields@.skip(i + 1));
            }
            if str_eq(self.fields[i].0.as_str(), key) {
                return Some(&self.fields[i].1);
            }
            i = i + 1;
        }
        proof {
            assert(self.fields@.skip(i as int) =~= Seq::<(String, Value)>::empty());
        }
        None
    }

    /// The number of fields the event holds.
    pub fn field_count(&self) -> (n: usize)
        ensures
            n == self.fields@.len(),
    {
        self.fields.len()
    }
}

/// An event forwarded downstream; exec and tcp sources produce log events.
#[derive(Clone, Debug, PartialEq)]
pub enum Event {
    Log(LogEvent),
}

impl Event {
    /// The log event this event carries.
    pub open spec fn spec_log(self) -> LogEvent {
        match self {
            Event::Log(log) => log,
        }
    }

    /// Unwraps the carried log event.
    pub fn into_log(self) -> (r: LogEvent)
        ensures
            r == self.spec_log(),
    {
        match self {
            Event::Log(log) => log,
        }
    }

    /// Borrows the carried log event.
    pub fn as_log(&self) -> (r: &LogEvent)
        ensures
            *r == self.spec_log(),
    {
        match self {
            Event::Log(log) => log,
        }
    }
}

/// Relies on chrono::Utc::now: the current UTC wall-clock time, rendered as
/// milliseconds since the Unix epoch.  The value depends on the clock, so
/// nothing is promised of it.
#[verifier::external_body]
fn now_timestamp_millis() -> i64 {
    chrono::Utc::now().timestamp_millis()
}

/// Relies on hostname::get: the machine's hostname as reported by the
/// operating system, when it is available and valid Unicode.  The value
/// depends on the machine, so nothing is promised of it.
#[verifier::external_body]
pub fn get_hostname() -> Option<String> {
    hostname::get().ok().and_then(|h| h.into_string().ok())
}

/// Clones a list of strings element by element.
pub fn clone_strings(v: &Vec<String>) -> (r: Vec<String>)
    ensures
        r@.len() == v@.len(),
        forall|i: int| 0 <= i < v@.len() ==> #[trigger] r@[i]@ == v@[i]@,
{
    let mut r: Vec<String> = Vec::new();
    let mut i: usize = 0;
    while i < v.len()
        invariant
            i <= v@.len(),
            r@.len() == i,
            forall|j: int| 0 <= j < i ==> #[trigger] r@[j]@ == v@[j]@,
        decreases v@.len() - i,
    {
        r.push(v[i].clone());
        i = i + 1;
    }
    r
}

/// The views of a list of strings.
pub open spec fn strings_view(v: Seq<String>) -> Seq<Seq<char>> {
    v.map_values(|s: String| s@)
}

/// The view of an optional string.
pub open spec fn opt_string_view(v: Option<String>) -> Option<Seq<char>> {
    match v {
        Some(s) => Some(s@),
        None => None,
    }
}

/// The shape of an exec event built from one frame: in order `message`,
/// `timestamp`, `source_type`, then `stream`, `pid` and `host` when present,
/// and finally `command`; the field count equals the number of populated
/// categories.
pub open spec fn is_exec_event(
    ev: Event,
    command: Seq<Seq<char>>,
    hostname: Option<Seq<char>>,
    line: Seq<u8>,
    stream: Option<Seq<char>>,
    pid: Option<u32>,
) -> bool {
    let fs = ev.spec_log().fields@;
    let n_stream: int = if stream is Some {
        1
    } else {
        0
    };
    let n_pid: int = if pid is Some {
        1
    } else {
        0
    };
    let n_host: int = if hostname is Some {
        1
    } else {
        0
    };
    &&& fs.len() == 4 + n_stream + n_pid + n_host
    &&& fs[0].0@ == MESSAGE_KEY@
    &&& (fs[0].1 matches Value::Bytes(b) && b@ == line)
    &&& fs[1].0@ == TIMESTAMP_KEY@
    &&& fs[1].1 is Timestamp
    &&& fs[2].0@ == SOURCE_TYPE_KEY@
    &&& (fs[2].1 matches Value::Text(t) && t@ == EXEC@)
    &&& (stream matches Some(s) ==> fs[3].0@ == STREAM_KEY@ && (fs[3].1 matches Value::Text(t)
        && t@ == s))
    &&& (pid matches Some(p) ==> fs[3 + n_stream].0@ == PID_KEY@ && fs[3 + n_stream].1
        == Value::Integer(p as i64))
    &&& (hostname matches Some(h) ==> fs[3 + n_stream + n_pid].0@ == HOST_KEY@ && (fs[3 + n_stream
        + n_pid].1 matches Value::Text(t) && t@ == h))
    &&& fs.last().0@ == COMMAND_KEY@
    &&& (fs.last().1 matches Value::Strings(c) && strings_view(c@) == command)
}

/// Builds one exec log event from a decoded frame; see [`is_exec_event`] for
/// the exact shape.
pub fn create_event(
    config: &ExecConfig,
    hostname: &Option<String>,
    line: Vec<u8>,
    data_stream: &Option<String>,
    pid: Option<u32>,
) -> (ev: Event)
    ensures
        is_exec_event(
            ev,
            strings_view(config.command@),
            opt_string_view(*hostname),
            line@,
            opt_string_view(*data_stream),
            pid,
        ),
{
    let mut log = LogEvent::new();
    log.insert(MESSAGE_KEY, Value::Bytes(line));
    log.insert(TIMESTAMP_KEY, Value::Timestamp(now_timestamp_millis()));
    log.insert(SOURCE_TYPE_KEY, Value::Text(EXEC.to_owned()));
    if let Some(s) = data_stream {
        log.insert(STREAM_KEY, Value::Text(s.clone()));
    }
    if let Some(p) = pid {
        log.insert(PID_KEY, Value::Integer(p as i64));
    }
    if let Some(h) = hostname {
        log.insert(HOST_KEY, Value::Text(h.clone()));
    }
    let cmd = clone_strings(&config.command);
    proof {
        assert(strings_view(cmd@) =~= strings_view(config.command@));
    }
    log.insert(COMMAND_KEY, Value::Strings(cmd));
    Event::Log(log)
}

} // verus!
