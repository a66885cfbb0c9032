//! The tcp source: listen-address parsing, the listener request, the
//! connection gauge, the accept-loop and per-connection state machines, and
//! the per-frame acknowledgement script.

use vstd::prelude::*;
use crate::event::str_eq;
use crate::exec::Telemetry;

verus! {

/// An IPv4 socket address as plain values: four octets and a port.
#[derive(Clone, Copy, Debug, PartialEq, Eq, Structural)]
pub struct SockAddrV4 {
    pub a: u8,
    pub b: u8,
    pub c: u8,
    pub d: u8,
    pub port: u16,
}

/// Where the source listens: a concrete socket address, or the offset of an
/// inherited (systemd-passed) file descriptor.
#[derive(Clone, Copy, Debug, PartialEq, Eq, Structural)]
pub enum SocketListenAddr {
    SocketAddr(SockAddrV4),
    SystemdFd(usize),
}

impl From<SockAddrV4> for SocketListenAddr {
    /// A concrete socket address is a listen address.
    fn from(addr: SockAddrV4) -> Self {
        SocketListenAddr::SocketAddr(addr)
    }
}

impl vstd::std_specs::convert::FromSpecImpl<SockAddrV4> for SocketListenAddr {
    open spec fn obeys_from_spec() -> bool {
        true
    }

    open spec fn from_spec(addr: SockAddrV4) -> Self {
        SocketListenAddr::SocketAddr(addr)
    }
}

/// Why a listen-address string was rejected.
#[derive(Clone, Copy, Debug, PartialEq, Eq, Structural)]
pub enum AddrParseError {
    /// Neither a socket address nor a systemd form.
    NotSystemd,
    /// A systemd form with index 0; indices start from 1.
    SystemdIndexZero,
    /// A systemd form whose index is not a decimal number that fits.
    SystemdIndexInvalid,
}

impl AddrParseError {
    /// The human-readable description of the rejection.
    pub fn message(&self) -> (r: &'static str)
        ensures
            *self is NotSystemd ==> r@ == "must start with \"systemd\""@,
            *self is SystemdIndexZero ==> r@ == "systemd indices start from 1, found 0"@,
            *self is SystemdIndexInvalid ==> r@ == "invalid systemd index"@,
    {
        match self {
            AddrParseError::NotSystemd => "must start with \"systemd\"",
            AddrParseError::SystemdIndexZero => "systemd indices start from 1, found 0",
            AddrParseError::SystemdIndexInvalid => "invalid systemd index",
        }
    }
}

/// Whether `c` is a decimal digit.
pub open spec fn is_digit(c: char) -> bool {
    48 <= (c as u32) && (c as u32) <= 57
}

/// Whether every character of `v` is a decimal digit.
pub open spec fn all_digits(v: Seq<char>) -> bool {
    forall|i: int| 0 <= i < v.len() ==> is_digit(#[trigger] v[i])
}

/// The value of `v` read as a decimal number.
pub open spec fn dec_val(v: Seq<char>) -> int
    decreases v.len(),
{
    if v.len() == 0 {
        0
    } else {
        dec_val(v.drop_last()) * 10 + ((v.last() as u32) as int - 48)
    }
}

/// A canonical decimal number: non-empty, digits only, no leading zero.
pub open spec fn is_canon_decimal(v: Seq<char>) -> bool {
    &&& v.len() > 0
    &&& all_digits(v)
    &&& (v.len() > 1 ==> v.first() != '0')
}

/// The index of the first occurrence of `c` in `v`, or `v.len()` when there
/// is none.
pub open spec fn find_char(v: Seq<char>, c: char) -> int
    decreases v.len(),
{
    if v.len() == 0 {
        0
    } else if v.first() == c {
        0
    } else {
        1 + find_char(v.drop_first(), c)
    }
}

/// An octet string: a canonical decimal of value at most 255.
pub open spec fn spec_octet(v: Seq<char>) -> Option<u8> {
    if is_canon_decimal(v) && dec_val(v) <= 255 {
        Some(dec_val(v) as u8)
    } else {
        None
    }
}

/// A port string: a canonical decimal of value at most 65535.
pub open spec fn spec_port(v: Seq<char>) -> Option<u16> {
    if is_canon_decimal(v) && dec_val(v) <= 65535 {
        Some(dec_val(v) as u16)
    } else {
        None
    }
}

/// Four dot-separated octets.
pub open spec fn spec_ipv4_addr(v: Seq<char>) -> Option<(u8, u8, u8, u8)> {
    let i1 = find_char(v, '.');
    if i1 >= v.len() {
        None
    } else {
        let r1 = v.skip(i1 + 1);
        let i2 = find_char(r1, '.');
        if i2 >= r1.len() {
            None
        } else {
            let r2 = r1.skip(i2 + 1);
            let i3 = find_char(r2, '.');
            if i3 >= r2.len() {
                None
            } else {
                match (spec_octet(v.take(i1)), spec_octet(r1.take(i2)), spec_octet(r2.take(i3)),
                spec_octet(r2.skip(i3 + 1))) {
                    (Some(a), Some(b), Some(c), Some(d)) => Some((a, b, c, d)),
                    _ => None,
                }
            }
        }
    }
}

/// An IPv4 socket address string: four octets, a colon, and a port.
pub open spec fn spec_sockaddr_v4(v: Seq<char>) -> Option<SockAddrV4> {
    let i = find_char(v, ':');
    if i >= v.len() {
        None
    } else {
        match (spec_ipv4_addr(v.take(i)), spec_port(v.skip(i + 1))) {
            (Some((a, b, c, d)), Some(port)) => Some(SockAddrV4 { a, b, c, d, port }),
            _ => None,
        }
    }
}

/// A systemd file-descriptor form: `systemd` is offset 0, `systemd#N` with
/// N at least 1 is offset N-1, index 0 and malformed indices are rejected,
/// and anything else is no systemd form at all.
pub open spec fn spec_systemd_fd(v: Seq<char>) -> Result<usize, AddrParseError> {
    if v == "systemd"@ {
        Ok(0usize)
    } else if v.len() >= 8 && v.take(8) == "systemd#"@ {
        let digits = v.skip(8);
        if all_digits(digits) && digits.len() > 0 && dec_val(digits) <= usize::MAX {
            if dec_val(digits) == 0 {
                Err(AddrParseError::SystemdIndexZero)
            } else {
                Ok((dec_val(digits) - 1) as usize)
            }
        } else {
            Err(AddrParseError::SystemdIndexInvalid)
        }
    } else {
        Err(AddrParseError::NotSystemd)
    }
}

/// A listen-address string: a concrete IPv4 socket address, else a systemd
/// form, else the systemd form's rejection.
pub open spec fn spec_parse_listen_addr(v: Seq<char>) -> Result<
    SocketListenAddr,
    AddrParseError,
> {
    match spec_sockaddr_v4(v) {
        Some(a) => Ok(SocketListenAddr::SocketAddr(a)),
        None => match spec_systemd_fd(v) {
            Ok(n) => Ok(SocketListenAddr::SystemdFd(n)),
            Err(e) => Err(e),
        },
    }
}

proof fn lemma_dec_val_nonneg(v: Seq<char>)
    requires
        all_digits(v),
    ensures
        dec_val(v) >= 0,
    decreases v.len(),
{
    if v.len() > 0 {
        assert forall|i: int| 0 <= i < v.drop_last().len() implies is_digit(
            #[trigger] v.drop_last()[i],
        ) by {
            assert(v.drop_last()[i] == v[i]);
        }
        lemma_dec_val_nonneg(v.drop_last());
        assert(is_digit(v.last()));
    }
}

/// Reading a longer prefix of a digit string never decreases its value.
proof fn lemma_dec_val_monotone(v: Seq<char>, i: int)
    requires
        all_digits(v),
        0 <= i <= v.len(),
    ensures
        dec_val(v.take(i)) <= dec_val(v),
    decreases v.len() - i,
{
    if i < v.len() {
        assert(v.take(i + 1).drop_last() =~= v.take(i));
        assert(v.take(i + 1).last() == v[i]);
        assert forall|j: int| 0 <= j < v.take(i).len() implies is_digit(
            #[trigger] v.take(i)[j],
        ) by {
            assert(v.take(i)[j] == v[j]);
        }
        lemma_dec_val_nonneg(v.take(i));
        assert(dec_val(v.take(i + 1)) >= dec_val(v.take(i)));
        lemma_dec_val_monotone(v, i + 1);
    } else {
        assert(v.take(i) =~= v);
    }
}

proof fn lemma_find_char(v: Seq<char>, c: char)
    ensures
        0 <= find_char(v, c) <= v.len(),
        find_char(v, c) < v.len() ==> v[find_char(v, c)] == c,
        forall|j: int| 0 <= j < find_char(v, c) ==> v[j] != c,
    decreases v.len(),
{
    if v.len() > 0 && v.first() != c {
        lemma_find_char(v.drop_first(), c);
        assert forall|j: int| 0 <= j < find_char(v, c) implies v[j] != c by {
            if j > 0 {
                assert(v.drop_first()[j - 1] == v[j]);
            }
        }
        if find_char(v, c) < v.len() {
            assert(v.drop_first()[find_char(v, c) - 1] == v[find_char(v, c)]);
        }
    }
}

/// Finds the first occurrence of `c`, or the length when there is none.
#[verifier::loop_isolation(false)]
fn find_char_in(s: &str, c: char) -> (i: usize)
    ensures
        i as int == find_char(s@, c),
{
    proof {
        lemma_find_char(s@, c);
    }
    let n = s.unicode_len();
    let mut i: usize = 0;
    while i < n
        invariant
            i <= n,
            n == s@.len(),
            forall|j: int| 0 <= j < i ==> s@[j] != c,
        decreases n - i,
    {
        if s.get_char(i) == c {
            proof {
                if find_char(s@, c) < i as int {
                    assert(s@[find_char(s@, c)] == c);
                }
                if find_char(s@, c) > i as int {
                    assert(s@[i as int] != c);
                }
            }
            return i;
        }
        i = i + 1;
    }
    i
}

/// Parses a canonical decimal of value at most `bound` (at most 65535).
#[verifier::loop_isolation(false)]
fn parse_bounded_decimal(s: &str, bound: u32) -> (r: Option<u32>)
    requires
        bound <= 65535,
    ensures
        match r {
            Some(v) => is_canon_decimal(s@) && dec_val(s@) == v as int && v <= bound,
            None => !(is_canon_decimal(s@) && dec_val(s@) <= bound as int),
        },
{
    let n = s.unicode_len();
    if n == 0 {
        return None;
    }
    if n > 1 && s.get_char(0) == '0' {
        return None;
    }
    let mut i: usize = 0;
    let mut acc: u32 = 0;
    proof {
        assert(s@.take(0) =~= Seq::<char>::empty());
    }
    while i < n
        invariant
            i <= n,
            n == s@.len(),
            bound <= 65535,
            acc <= bound,
            acc as int == dec_val(s@.take(i as int)),
            all_digits(s@.take(i as int)),
        decreases n - i,
    {
        let c = s.get_char(i);
        let u = c as u32;
        if u < 48 || u > 57 {
            proof {
                assert(!is_digit(s@[i as int]));
            }
            return None;
        }
        let d = u - 48;
        let acc2 = acc * 10 + d;
        proof {
            assert(s@.take(i + 1).drop_last() =~= s@.take(i as int));
            assert(s@.take(i + 1).last() == s@[i as int]);
            assert forall|j: int| 0 <= j < i + 1 implies is_digit(#[trigger] s@.take(i + 1)[j]) by {
                assert(s@.take(i + 1)[j] == s@[j]);
                if j < i {
                    assert(s@.take(i as int)[j] == s@[j]);
                }
            }
        }
        if acc2 > bound {
            proof {
                if all_digits(s@) {
                    assert(s@.take(i + 1) =~= s@.take(i + 1));
                    lemma_dec_val_monotone(s@, i + 1);
                }
            }
            return None;
        }
        acc = acc2;
        i = i + 1;
    }
    proof {
        assert(s@.take(n as int) =~= s@);
    }
    Some(acc)
}

/// Parses one octet: a canonical decimal of value at most 255.
fn parse_octet(s: &str) -> (r: Option<u8>)
    ensures
        r == spec_octet(s@),
{
    match parse_bounded_decimal(s, 255) {
        Some(v) => Some(v as u8),
        None => None,
    }
}

/// Parses a port: a canonical decimal of value at most 65535.
fn parse_port(s: &str) -> (r: Option<u16>)
    ensures
        r == spec_port(s@),
{
    match parse_bounded_decimal(s, 65535) {
        Some(v) => Some(v as u16),
        None => None,
    }
}

/// Parses four dot-separated octets.
fn parse_ipv4(s: &str) -> (r: Option<(u8, u8, u8, u8)>)
    ensures
        r == spec_ipv4_addr(s@),
{
    let n = s.unicode_len();
    let i1 = find_char_in(s, '.');
    if i1 >= n {
        return None;
    }
    let o1 = parse_octet(s.substring_char(0, i1));
    let rest1 = s.substring_char(i1 + 1, n);
    proof {
        assert(s@.subrange(0, i1 as int) =~= s@.take(i1 as int));
        assert(rest1@ =~= s@.skip(i1 + 1));
    }
    let n1 = rest1.unicode_len();
    let i2 = find_char_in(rest1, '.');
    if i2 >= n1 {
        return None;
    }
    let o2 = parse_octet(rest1.substring_char(0, i2));
    let rest2 = rest1.substring_char(i2 + 1, n1);
    proof {
        assert(rest1@.subrange(0, i2 as int) =~= rest1@.take(i2 as int));
        assert(rest2@ =~= rest1@.skip(i2 + 1));
    }
    let n2 = rest2.unicode_len();
    let i3 = find_char_in(rest2, '.');
    if i3 >= n2 {
        return None;
    }
    let o3 = parse_octet(rest2.substring_char(0, i3));
    let o4 = parse_octet(rest2.substring_char(i3 + 1, n2));
    proof {
        assert(rest2@.subrange(0, i3 as int) =~= rest2@.take(i3 as int));
        assert(rest2@.subrange(i3 + 1, n2 as int) =~= rest2@.skip(i3 + 1));
    }
    match (o1, o2, o3, o4) {
        (Some(a), Some(b), Some(c), Some(d)) => Some((a, b, c, d)),
        _ => None,
    }
}

/// Parses an IPv4 socket address string such as `127.0.0.1:9000`.
pub fn parse_sockaddr_v4(s: &str) -> (r: Option<SockAddrV4>)
    ensures
        r == spec_sockaddr_v4(s@),
{
    let n = s.unicode_len();
    let i = find_char_in(s, ':');
    if i >= n {
        return None;
    }
    let host = s.substring_char(0, i);
    let ports = s.substring_char(i + 1, n);
    proof {
        assert(host@ =~= s@.take(i as int));
        assert(ports@ =~= s@.skip(i + 1));
    }
    let ip = parse_ipv4(host);
    let p = parse_port(ports);
    match (ip, p) {
        (Some((a, b, c, d)), Some(port)) => Some(SockAddrV4 { a, b, c, d, port }),
        _ => None,
    }
}

/// Parses a systemd file-descriptor form; see [`spec_systemd_fd`].
#[verifier::loop_isolation(false)]
pub fn parse_systemd_fd(s: &str) -> (r: Result<usize, AddrParseError>)
    ensures
        r == spec_systemd_fd(s@),
{
    if str_eq(s, "systemd") {
        return Ok(0);
    }
    let n = s.unicode_len();
    if n < 8 {
        return Err(AddrParseError::NotSystemd);
    }
    let prefix = s.substring_char(0, 8);
    proof {
        assert(prefix@ =~= s@.take(8));
    }
    if !str_eq(prefix, "systemd#") {
        return Err(AddrParseError::NotSystemd);
    }
    if n == 8 {
        proof {
            assert(s@.skip(8) =~= Seq::<char>::empty());
        }
        return Err(AddrParseError::SystemdIndexInvalid);
    }
    let ghost digits = s@.skip(8);
    let mut i: usize = 8;
    let mut acc: usize = 0;
    proof {
        assert(s@.subrange(8, 8) =~= Seq::<char>::empty());
    }
    while i < n
        invariant
            8 <= i <= n,
            n == s@.len(),
            digits == s@.skip(8),
            acc as int == dec_val(s@.subrange(8, i as int)),
            all_digits(s@.subrange(8, i as int)),
        decreases n - i,
    {
        let c = s.get_char(i);
        let u = c as u32;
        if u < 48 || u > 57 {
            proof {
                assert(digits[i - 8] == s@[i as int]);
                assert(!is_digit(digits[i - 8]));
            }
            return Err(AddrParseError::SystemdIndexInvalid);
        }
        let d = (u - 48) as usize;
        proof {
            assert(s@.subrange(8, i + 1).drop_last() =~= s@.subrange(8, i as int));
            assert(s@.subrange(8, i + 1).last() == s@[i as int]);
            assert forall|j: int| 0 <= j < i + 1 - 8 implies is_digit(
                #[trigger] s@.subrange(8, i + 1)[j],
            ) by {
                assert(s@.subrange(8, i + 1)[j] == s@[j + 8]);
                if j < i - 8 {
                    assert(s@.subrange(8, i as int)[j] == s@[j + 8]);
                }
            }
        }
        let acc10 = match acc.checked_mul(10) {
            Some(x) => x,
            None => {
                proof {
                    lemma_systemd_overflow(s@, i as int, acc as int * 10 + d);
                }
                return Err(AddrParseError::SystemdIndexInvalid);
            },
        };
        let acc2 = match acc10.checked_add(d) {
            Some(x) => x,
            None => {
                proof {
                    lemma_systemd_overflow(s@, i as int, acc as int * 10 + d);
                }
                return Err(AddrParseError::SystemdIndexInvalid);
            },
        };
        acc = acc2;
        i = i + 1;
    }
    proof {
        assert(s@.subrange(8, n as int) =~= s@.skip(8));
    }
    if acc == 0 {
        return Err(AddrParseError::SystemdIndexZero);
    }
    Ok(acc - 1)
}

/// When the accumulated value already exceeds `usize::MAX` at position `i`,
/// the whole digit run cannot name an index that fits.
proof fn lemma_systemd_overflow(v: Seq<char>, i: int, val: int)
    requires
        8 <= i < v.len(),
        all_digits(v.subrange(8, i + 1)),
        dec_val(v.subrange(8, i + 1)) == val,
        val > usize::MAX,
    ensures
        !(all_digits(v.skip(8)) && dec_val(v.skip(8)) <= usize::MAX),
{
    let digits = v.skip(8);
    if all_digits(digits) {
        assert(digits.take(i + 1 - 8) =~= v.subrange(8, i + 1));
        lemma_dec_val_monotone(digits, i + 1 - 8);
    }
}

/// Parses a listen-address string: a concrete IPv4 socket address, else a
/// systemd file-descriptor form.
pub fn parse_socket_listen_addr(s: &str) -> (r: Result<SocketListenAddr, AddrParseError>)
    ensures
        r == spec_parse_listen_addr(s@),
{
    match parse_sockaddr_v4(s) {
        Some(a) => Ok(SocketListenAddr::SocketAddr(a)),
        None => match parse_systemd_fd(s) {
            Ok(n) => Ok(SocketListenAddr::SystemdFd(n)),
            Err(e) => Err(e),
        },
    }
}

/// Systemd-form round trip: any digit run naming an index `n >= 1` parses to
/// offset `n - 1`, index 0 is rejected as starting from 1, and a string whose
/// first seven characters are not `systemd` is rejected outright.
pub proof fn lemma_systemd_fd_round_trip(digits: Seq<char>, n: int)
    requires
        all_digits(digits),
        digits.len() > 0,
        dec_val(digits) == n,
        0 <= n <= usize::MAX,
    ensures
        n >= 1 ==> spec_systemd_fd("systemd#"@ + digits) == Result::<usize, AddrParseError>::Ok(
            (n - 1) as usize,
        ),
        n == 0 ==> spec_systemd_fd("systemd#"@ + digits) == Result::<usize, AddrParseError>::Err(
            AddrParseError::SystemdIndexZero,
        ),
{
    reveal_strlit("systemd");
    reveal_strlit("systemd#");
    let v = "systemd#"@ + digits;
    assert(v.len() >= 9);
    assert("systemd"@.len() == 7);
    assert(v.take(8) =~= "systemd#"@);
    assert(v.skip(8) =~= digits);
}

/// What the listener factory asks the operating system for.
#[derive(Clone, Copy, Debug, PartialEq, Eq, Structural)]
pub enum ListenerRequest {
    /// Bind a fresh listening socket to this address.
    Bind(SockAddrV4),
    /// Take the inherited listening socket at this offset.
    TakeFd(usize),
}

/// Decides how a listener is obtained for a listen address: a concrete
/// address is bound, an inherited descriptor is taken by its offset.
pub fn listener_request(addr: &SocketListenAddr) -> (r: ListenerRequest)
    ensures
        (*addr matches SocketListenAddr::SocketAddr(a) ==> r == ListenerRequest::Bind(a)),
        (*addr matches SocketListenAddr::SystemdFd(n) ==> r == ListenerRequest::TakeFd(n)),
{
    match addr {
        SocketListenAddr::SocketAddr(a) => ListenerRequest::Bind(*a),
        SocketListenAddr::SystemdFd(n) => ListenerRequest::TakeFd(*n),
    }
}

/// The process-wide count of currently-open connections.
#[derive(Clone, Copy, Debug, PartialEq, Eq, Structural)]
pub struct OpenGauge {
    pub count: usize,
}

impl OpenGauge {
    /// A gauge with no open connections.
    pub fn new() -> (g: Self)
        ensures
            g.count == 0,
    {
        OpenGauge { count: 0 }
    }

    /// Records one accepted connection; the telemetry carries the count
    /// after the change.
    pub fn open(&mut self) -> (t: Telemetry)
        requires
            old(self).count < usize::MAX,
        ensures
            final(self).count == old(self).count + 1,
            t matches Telemetry::ConnectionOpen { count } && count == final(self).count,
    {
        self.count = self.count + 1;
        Telemetry::ConnectionOpen { count: self.count }
    }

    /// Records one completed handler, releasing its connection.
    pub fn close(&mut self)
        requires
            old(self).count > 0,
        ensures
            final(self).count == old(self).count - 1,
    {
        self.count = self.count - 1;
    }
}

/// The accept loop's state.
#[derive(Clone, Copy, Debug, PartialEq, Eq, Structural)]
pub enum AcceptState {
    /// Accepting connections.
    Accepting,
    /// Shut down; no further connections are accepted.
    Stopped,
}

/// What the accept loop observes at a loop head.
#[derive(Clone, Debug)]
pub enum AcceptEvent {
    /// The shutdown signal resolved.
    Shutdown,
    /// A connection was accepted.
    Accepted,
    /// An accept attempt failed; carries the error text.
    AcceptFailed(String),
}

/// One accept-loop decision: the next state and whether to spawn a handler.
#[derive(Clone, Copy, Debug, PartialEq, Eq, Structural)]
pub struct AcceptDecision {
    pub next: AcceptState,
    pub spawn_handler: bool,
}

/// One step of the accept loop: shutdown stops the loop at the very next
/// iteration whatever else is pending, a successful accept spawns a handler,
/// and a failed accept is logged and skipped.
pub fn accept_step(state: AcceptState, event: &AcceptEvent) -> (d: AcceptDecision)
    ensures
        event is Shutdown ==> d.next is Stopped && !d.spawn_handler,
        state is Stopped ==> d.next is Stopped && !d.spawn_handler,
        (state is Accepting && event is Accepted) ==> d.next is Accepting && d.spawn_handler,
        (state is Accepting && event is AcceptFailed) ==> d.next is Accepting && !d.spawn_handler,
{
    match event {
        AcceptEvent::Shutdown => AcceptDecision { next: AcceptState::Stopped, spawn_handler: false },
        AcceptEvent::Accepted => {
            if matches!(state, AcceptState::Stopped) {
                AcceptDecision { next: AcceptState::Stopped, spawn_handler: false }
            } else {
                AcceptDecision { next: AcceptState::Accepting, spawn_handler: true }
            }
        },
        AcceptEvent::AcceptFailed(_) => {
            if matches!(state, AcceptState::Stopped) {
                AcceptDecision { next: AcceptState::Stopped, spawn_handler: false }
            } else {
                AcceptDecision { next: AcceptState::Accepting, spawn_handler: false }
            }
        },
    }
}

/// A connection handler's state.
#[derive(Clone, Copy, Debug, PartialEq, Eq, Structural)]
pub enum ConnState {
    /// Waiting for the TLS handshake to finish.
    Handshake,
    /// Reading frames.
    Reading,
    /// Shutdown was signaled: the write half is closed and reading continues
    /// until the peer closes or the tripwire fires.
    Draining,
    /// The connection is released.
    Closed,
}

/// What a connection handler observes at a loop head.
#[derive(Clone, Debug)]
pub enum ConnEvent {
    /// The handshake finished.
    HandshakeOk,
    /// The handshake failed; carries the error text.
    HandshakeFailed(String),
    /// The shutdown signal resolved; `established` says whether the socket
    /// is fully established.
    Shutdown { established: bool },
    /// The drain tripwire fired: the drain deadline passed.
    TripwireFired,
    /// One frame was decoded, lifting into this many events.
    Frame { n_events: usize },
    /// The decoder failed; a continuable error is skipped.
    FrameError { can_continue: bool },
    /// The peer closed the connection.
    PeerClosed,
    /// Writing an acknowledgement failed; carries the error text.
    AckWriteFailed(String),
    /// The downstream sink refused an event.
    DownstreamClosed,
}

/// One connection-handler decision.
#[derive(Clone, Debug)]
pub struct ConnDecision {
    pub next: ConnState,
    pub telemetry: Option<Telemetry>,
    /// Perform a write-half shutdown on the socket, signaling EOF.
    pub shutdown_write_half: bool,
    /// Process the decoded frame: lift, send, acknowledge.
    pub process_frame: bool,
}

/// One step of the connection handler, as the handler's loop decides it: a
/// failed handshake emits `TcpSocketConnectionError` and closes; shutdown
/// while reading closes the write half and drains, or closes outright when
/// the socket is not established; the tripwire, a fatal decoder error, a
/// refused downstream send, a failed ack write or the peer's close end the
/// connection; frames and continuable decoder errors keep it going.
pub fn conn_step(state: ConnState, event: &ConnEvent) -> (d: ConnDecision)
    ensures
        state is Closed ==> d.next is Closed,
        state is Handshake ==> (match *event {
            ConnEvent::HandshakeOk => d.next is Reading && d.telemetry is None
                && !d.shutdown_write_half && !d.process_frame,
            ConnEvent::HandshakeFailed(e) => d.next is Closed && !d.process_frame && (d.telemetry
                matches Some(Telemetry::TcpSocketConnectionError { error }) && error@ == e@),
            ConnEvent::Shutdown { .. } => d.next is Closed && d.telemetry is None
                && !d.shutdown_write_half,
            _ => true,
        }),
        (state is Reading || state is Draining) ==> (match *event {
            ConnEvent::Shutdown { established } => if state is Draining {
                d.next is Draining && !d.shutdown_write_half
            } else if established {
                d.next is Draining && d.shutdown_write_half
            } else {
                d.next is Closed && !d.shutdown_write_half
            },
            ConnEvent::TripwireFired => d.next is Closed,
            ConnEvent::Frame { .. } => d.next == state && d.process_frame && d.telemetry is None,
            ConnEvent::FrameError { can_continue } => (if can_continue {
                d.next == state
            } else {
                d.next is Closed
            }) && !d.process_frame,
            ConnEvent::PeerClosed => d.next is Closed,
            ConnEvent::AckWriteFailed(e) => d.next is Closed && (d.telemetry matches Some(
                Telemetry::TcpSendAckError { error },
            ) && error@ == e@),
            ConnEvent::DownstreamClosed => d.next is Closed && d.telemetry is None,
            _ => true,
        }),
{
    let stay = ConnDecision {
        next: state,
        telemetry: None,
        shutdown_write_half: false,
        process_frame: false,
    };
    let closed = ConnDecision {
        next: ConnState::Closed,
        telemetry: None,
        shutdown_write_half: false,
        process_frame: false,
    };
    if matches!(state, ConnState::Closed) {
        return closed;
    }
    match event {
        ConnEvent::HandshakeOk => {
            if matches!(state, ConnState::Handshake) {
                ConnDecision {
                    next: ConnState::Reading,
                    telemetry: None,
                    shutdown_write_half: false,
                    process_frame: false,
                }
            } else {
                stay
            }
        },
        ConnEvent::HandshakeFailed(e) => ConnDecision {
            next: ConnState::Closed,
            telemetry: Some(Telemetry::TcpSocketConnectionError { error: e.clone() }),
            shutdown_write_half: false,
            process_frame: false,
        },
        ConnEvent::Shutdown { established } => {
            if matches!(state, ConnState::Reading) {
                if *established {
                    ConnDecision {
                        next: ConnState::Draining,
                        telemetry: None,
                        shutdown_write_half: true,
                        process_frame: false,
                    }
                } else {
                    closed
                }
            } else if matches!(state, ConnState::Draining) {
                stay
            } else {
                closed
            }
        },
        ConnEvent::TripwireFired => closed,
        ConnEvent::Frame { .. } => {
            if matches!(state, ConnState::Handshake) {
                stay
            } else {
                ConnDecision {
                    next: state,
                    telemetry: None,
                    shutdown_write_half: false,
                    process_frame: true,
                }
            }
        },
        ConnEvent::FrameError { can_continue } => {
            if *can_continue {
                stay
            } else {
                closed
            }
        },
        ConnEvent::PeerClosed => closed,
        ConnEvent::AckWriteFailed(e) => ConnDecision {
            next: ConnState::Closed,
            telemetry: Some(Telemetry::TcpSendAckError { error: e.clone() }),
            shutdown_write_half: false,
            process_frame: false,
        },
        ConnEvent::DownstreamClosed => closed,
    }
}

/// One action of a connection's frame-processing script.
#[derive(Clone, Copy, Debug, PartialEq, Eq, Structural)]
pub enum FrameAction {
    /// Send event `event` lifted from frame `frame` downstream.
    Send { frame: usize, event: usize },
    /// Write frame `frame`'s acknowledgement back to the peer.
    WriteAck { frame: usize },
}

/// The frame an action belongs to.
pub open spec fn spec_action_frame(a: FrameAction) -> usize {
    match a {
        FrameAction::Send { frame, event } => frame,
        FrameAction::WriteAck { frame } => frame,
    }
}

/// The actions processing one frame of `n` events: each event is sent in
/// order and the frame's acknowledgement is written after each accepted send.
pub open spec fn frame_script(frame: usize, n: int) -> Seq<FrameAction>
    decreases n,
{
    if n <= 0 {
        Seq::empty()
    } else {
        frame_script(frame, n - 1) + seq![
            FrameAction::Send { frame, event: (n - 1) as usize },
            FrameAction::WriteAck { frame },
        ]
    }
}

/// The actions processing a whole connection, frame by frame in arrival
/// order; `counts[f]` is the number of events lifted from frame `f`.
pub open spec fn connection_script(counts: Seq<usize>) -> Seq<FrameAction>
    decreases counts.len(),
{
    if counts.len() == 0 {
        Seq::empty()
    } else {
        connection_script(counts.drop_last()) + frame_script(
            (counts.len() - 1) as usize,
            counts.last() as int,
        )
    }
}

/// The total number of events over all frames.
pub open spec fn total_events(counts: Seq<usize>) -> int
    decreases counts.len(),
{
    if counts.len() == 0 {
        0
    } else {
        total_events(counts.drop_last()) + counts.last()
    }
}

/// A script in which frames are processed strictly in order: every action
/// names a known frame, frame numbers never decrease along the script, and
/// every send is immediately followed by the acknowledgement write of its
/// own frame.
pub open spec fn frames_in_order(s: Seq<FrameAction>, n_frames: int) -> bool {
    &&& (forall|p: int| 0 <= p < s.len() ==> (spec_action_frame(#[trigger] s[p]) as int) < n_frames)
    &&& (forall|p: int, q: int|
        0 <= p < q < s.len() ==> spec_action_frame(#[trigger] s[p]) <= spec_action_frame(
            #[trigger] s[q],
        ))
    &&& (forall|p: int|
        (0 <= p < s.len() && #[trigger] s[p] is Send) ==> p + 1 < s.len() && s[p + 1] == (
        FrameAction::WriteAck { frame: spec_action_frame(s[p]) }))
}

proof fn lemma_frame_script_shape(frame: usize, n: int)
    requires
        0 <= n <= usize::MAX,
    ensures
        frame_script(frame, n).len() == 2 * n,
        forall|k: int|
            0 <= k < n ==> #[trigger] frame_script(frame, n)[2 * k] == (FrameAction::Send {
                frame,
                event: k as usize,
            }),
        forall|k: int|
            0 <= k < n ==> #[trigger] frame_script(frame, n)[2 * k + 1] == (FrameAction::WriteAck {
                frame,
            }),
    decreases n,
{
    if n > 0 {
        lemma_frame_script_shape(frame, n - 1);
    }
}

/// Ack ordering on one connection: the whole script has one send and one
/// acknowledgement write per event, frames are processed strictly in arrival
/// order, and each acknowledgement write follows the accepted send it
/// answers, so the acknowledgement of frame `f` is written only after events
/// of frame `f` are accepted downstream, and acknowledgements across frames
/// are written in frame order.
pub proof fn lemma_connection_script_ack_ordering(counts: Seq<usize>)
    requires
        counts.len() <= usize::MAX,
    ensures
        connection_script(counts).len() == 2 * total_events(counts),
        frames_in_order(connection_script(counts), counts.len() as int),
    decreases counts.len(),
{
    let s = connection_script(counts);
    let n = counts.len() as int;
    if counts.len() == 0 {
        assert(s =~= Seq::<FrameAction>::empty());
    } else {
        let s0 = connection_script(counts.drop_last());
        let f = (counts.len() - 1) as usize;
        let m = counts.last() as int;
        let fs = frame_script(f, m);
        lemma_connection_script_ack_ordering(counts.drop_last());
        lemma_frame_script_shape(f, m);
        assert(s == s0 + fs);
        assert(s.len() == s0.len() + 2 * m);
        assert forall|p: int| 0 <= p < fs.len() implies spec_action_frame(#[trigger] fs[p]) == f by {
            let k = p / 2;
            if p % 2 == 0 {
                assert(fs[2 * k] == (FrameAction::Send { frame: f, event: k as usize }));
            } else {
                assert(fs[2 * k + 1] == (FrameAction::WriteAck { frame: f }));
            }
        }
        assert forall|p: int| 0 <= p < s.len() implies (spec_action_frame(#[trigger] s[p]) as int)
            < n by {
            if p < s0.len() {
                assert(s[p] == s0[p]);
            } else {
                assert(s[p] == fs[p - s0.len()]);
            }
        }
        assert forall|p: int, q: int| 0 <= p < q < s.len() implies spec_action_frame(
            #[trigger] s[p],
        ) <= spec_action_frame(#[trigger] s[q]) by {
            if p < s0.len() {
                assert(s[p] == s0[p]);
            } else {
                assert(s[p] == fs[p - s0.len()]);
            }
            if q < s0.len() {
                assert(s[q] == s0[q]);
            } else {
                assert(s[q] == fs[q - s0.len()]);
            }
        }
        assert forall|p: int| (0 <= p < s.len() && #[trigger] s[p] is Send) implies p + 1 < s.len()
            && s[p + 1] == (FrameAction::WriteAck { frame: spec_action_frame(s[p]) }) by {
            if p < s0.len() {
                assert(s[p] == s0[p]);
                assert(s0[p + 1] == s[p + 1]);
            } else {
                let j = p - s0.len();
                let k = j / 2;
                assert(s[p] == fs[j]);
                if j % 2 == 0 {
                    assert(fs[2 * k] == (FrameAction::Send { frame: f, event: k as usize }));
                    assert(fs[2 * k + 1] == (FrameAction::WriteAck { frame: f }));
                    assert(s[p + 1] == fs[j + 1]);
                } else {
                    assert(fs[2 * k + 1] == (FrameAction::WriteAck { frame: f }));
                }
            }
        }
    }
}

/// The executable plan for one decoded frame: send each lifted event in
/// order, writing the frame's acknowledgement after each accepted send.
pub fn frame_plan(frame: usize, n_events: usize) -> (plan: Vec<FrameAction>)
    requires
        n_events <= usize::MAX / 2,
    ensures
        plan@ == frame_script(frame, n_events as int),
{
    let mut plan: Vec<FrameAction> = Vec::new();
    let mut k: usize = 0;
    proof {
        assert(plan@ =~= frame_script(frame, 0));
    }
    while k < n_events
        invariant
            k <= n_events,
            n_events <= usize::MAX / 2,
            plan@ == frame_script(frame, k as int),
        decreases n_events - k,
    {
        plan.push(FrameAction::Send { frame, event: k });
        plan.push(FrameAction::WriteAck { frame });
        proof {
            assert(plan@ =~= frame_script(frame, k as int) + seq![
                FrameAction::Send { frame, event: k },
                FrameAction::WriteAck { frame },
            ]);
        }
        k = k + 1;
    }
    plan
}

/// A string that does not begin with the seven characters `systemd` is no
/// systemd form.
pub proof fn lemma_systemd_fd_rejects_other(v: Seq<char>)
    requires
        v.len() < 7 || v.take(7) != "systemd"@,
    ensures
        spec_systemd_fd(v) == Result::<usize, AddrParseError>::Err(AddrParseError::NotSystemd),
{
    reveal_strlit("systemd");
    reveal_strlit("systemd#");
    if v.len() >= 7 {
        assert(v != "systemd"@) by {
            if v == "systemd"@ {
                assert(v.take(7) =~= v);
            }
        }
        if v.len() >= 8 && v.take(8) == "systemd#"@ {
            assert(v.take(8).take(7) =~= v.take(7));
            assert("systemd#"@.take(7) =~= "systemd"@);
            assert(false);
        }
    }
}

} // verus!
