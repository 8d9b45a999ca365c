//! FIX session acceptor with a pool of reusable connection slots: CompID whitelisting,
//! one connection per CompID, slot reuse, draining and idle eviction.

use vstd::prelude::*;
use std::time::Duration;
use crate::decimal::dec_digits;
use crate::session::{
    duration_from_secs, duration_nanos, NANOS_PER_SEC, Session, SessionConfig, SessionRole,
    SessionState, SequenceResetPolicy,
};
use crate::text::{decimal, str_equal};
use vstd::string::StringExecFns;

verus! {

/// Acceptor configuration.
#[derive(Debug, Clone)]
pub struct AcceptorConfig {
    pub bind_address: String,
    pub port: u16,
    pub max_connections: usize,
    pub connection_pool_size: usize,
    pub accept_timeout_ms: u64,
    pub allowed_comp_ids: Vec<String>,
    pub require_auth: bool,
    pub default_heartbeat_interval: Duration,
    pub default_fix_version: String,
}

impl Default for AcceptorConfig {
    /// Listen on 0.0.0.0:9878, up to 1024 connections, a pool of 256 slots, 5 s accept
    /// timeout, no whitelist, no authentication, 30 s heartbeats, FIX.4.4.
    fn default() -> (c: Self)
        ensures
            c.bind_address@ == "0.0.0.0"@,
            c.port == 9878,
            c.max_connections == 1024,
            c.connection_pool_size == 256,
            c.accept_timeout_ms == 5000,
            c.allowed_comp_ids@.len() == 0,
            !c.require_auth,
            duration_nanos(c.default_heartbeat_interval) == 30 * NANOS_PER_SEC,
            c.default_fix_version@ == "FIX.4.4"@,
    {
        AcceptorConfig {
            bind_address: "0.0.0.0".to_owned(),
            port: 9878,
            max_connections: 1024,
            connection_pool_size: 256,
            accept_timeout_ms: 5000,
            allowed_comp_ids: Vec::new(),
            require_auth: false,
            default_heartbeat_interval: duration_from_secs(30),
            default_fix_version: "FIX.4.4".to_owned(),
        }
    }
}

/// The state of a connection slot.
#[derive(Debug, Clone, Copy, PartialEq, Eq, Structural)]
pub enum ConnectionState {
    Available,
    InUse,
    Draining,
    Closed,
}

/// A slot of the connection pool.
#[derive(Debug)]
pub struct PooledConnection {
    pub id: u64,
    pub state: ConnectionState,
    pub session: Option<Session>,
    pub remote_comp_id: String,
    pub remote_address: String,
    pub connected_at_ms: u64,
    pub last_active_ms: u64,
    pub bytes_received: u64,
    pub bytes_sent: u64,
}

/// Why an acceptor refused a request.
#[derive(Debug, Clone, PartialEq, Eq)]
pub enum AcceptorError {
    PoolExhausted,
    CompIdNotAllowed(String),
    AlreadyConnected(String),
    ConnectionNotFound(u64),
    AuthRequired,
}

/// Acceptor statistics.
#[derive(Debug, Clone, Default)]
pub struct AcceptorStats {
    pub active_connections: usize,
    pub pool_available: usize,
    pub total_accepted: u64,
    pub total_rejected: u64,
    pub total_bytes_received: u64,
    pub total_bytes_sent: u64,
}

/// A connection counts as active while in use or draining.
pub open spec fn is_active(c: PooledConnection) -> bool {
    c.state == ConnectionState::InUse || c.state == ConnectionState::Draining
}

/// The first connection that satisfies `p`.
pub open spec fn first_match(conns: Seq<PooledConnection>, p: spec_fn(PooledConnection) -> bool) -> Option<int>
    decreases conns.len(),
{
    if conns.len() == 0 {
        None
    } else {
        match first_match(conns.drop_last(), p) {
            Some(i) => Some(i),
            None => if p(conns.last()) {
                Some(conns.len() - 1)
            } else {
                None
            },
        }
    }
}

/// `first_match` finds the first connection that satisfies `p`, or tells that none does.
proof fn lemma_first_match(conns: Seq<PooledConnection>, p: spec_fn(PooledConnection) -> bool)
    ensures
        match first_match(conns, p) {
            Some(i) => 0 <= i < conns.len() && p(conns[i]) && forall|j: int| 0 <= j < i ==> !p(conns[j]),
            None => forall|j: int| 0 <= j < conns.len() ==> !p(conns[j]),
        },
    decreases conns.len(),
{
    if conns.len() > 0 {
        lemma_first_match(conns.drop_last(), p);
        assert forall|j: int| 0 <= j < conns.len() - 1 implies conns.drop_last()[j] == conns[j] by {}
    }
}

proof fn lemma_first_match_step(conns: Seq<PooledConnection>, p: spec_fn(PooledConnection) -> bool, i: int)
    requires
        0 <= i < conns.len(),
        first_match(conns.take(i), p) is None,
    ensures
        p(conns[i]) ==> first_match(conns, p) == Some(i),
        !p(conns[i]) ==> first_match(conns.take(i + 1), p) is None,
    decreases conns.len(),
{
    assert(conns.take(i + 1).drop_last() =~= conns.take(i));
    if p(conns[i]) {
        if i == conns.len() - 1 {
            assert(conns.drop_last() =~= conns.take(i));
        } else {
            assert(conns.drop_last().take(i) =~= conns.take(i));
            lemma_first_match_step(conns.drop_last(), p, i);
        }
    }
}

/// Whether `comp_id` may connect: an empty whitelist allows every CompID.
pub open spec fn comp_id_allowed(allowed: Seq<String>, comp_id: Seq<char>) -> bool {
    allowed.len() == 0 || exists|i: int| 0 <= i < allowed.len() && (#[trigger] allowed[i])@ == comp_id
}

/// The active connection of a CompID.
pub open spec fn by_comp_id(comp_id: Seq<char>) -> spec_fn(PooledConnection) -> bool {
    |c: PooledConnection| is_active(c) && c.remote_comp_id@ == comp_id
}

/// A slot ready for a new connection.
pub open spec fn available() -> spec_fn(PooledConnection) -> bool {
    |c: PooledConnection| c.state == ConnectionState::Available
}

/// The connection with an id.
pub open spec fn with_id(id: u64) -> spec_fn(PooledConnection) -> bool {
    |c: PooledConnection| c.id == id
}

/// A connection with an id that is not sitting free in the pool.
pub open spec fn releasable(id: u64) -> spec_fn(PooledConnection) -> bool {
    |c: PooledConnection| c.id == id && c.state != ConnectionState::Available
}

/// Every slot's id is below `next`, so `next` and every id after it are fresh.
pub open spec fn ids_below(conns: Seq<PooledConnection>, next: u64) -> bool {
    forall|j: int| 0 <= j < conns.len() ==> (#[trigger] conns[j]).id < next
}

/// A slot returned to the pool: its id stays, everything else is cleared.
pub open spec fn is_cleared(c: PooledConnection, id: u64) -> bool {
    &&& c.id == id
    &&& c.state == ConnectionState::Available
    &&& c.session is None
    &&& c.remote_comp_id@.len() == 0
    &&& c.remote_address@.len() == 0
    &&& c.connected_at_ms == 0
    &&& c.last_active_ms == 0
    &&& c.bytes_received == 0
    &&& c.bytes_sent == 0
}

/// The decimal text of a number.
pub open spec fn dec_text(v: u64) -> Seq<char> {
    dec_digits(v as nat).map_values(|b: u8| b as char)
}

/// A connection just accepted: in use, fresh counters, and an acceptor session towards
/// `comp_id` named after the connection id.
pub open spec fn is_accepted(
    c: PooledConnection,
    id: u64,
    comp_id: Seq<char>,
    addr: Seq<char>,
    now: u64,
    cfg: AcceptorConfig,
) -> bool {
    &&& c.id == id
    &&& c.state == ConnectionState::InUse
    &&& c.remote_comp_id@ == comp_id
    &&& c.remote_address@ == addr
    &&& c.connected_at_ms == now
    &&& c.last_active_ms == now
    &&& c.bytes_received == 0
    &&& c.bytes_sent == 0
    &&& c.session matches Some(s) && {
        let sc = s.spec_config();
        &&& sc.session_id@ == "ACC-"@ + dec_text(id)
        &&& sc.fix_version@ == cfg.default_fix_version@
        &&& sc.sender_comp_id@ == "VELOCITAS"@
        &&& sc.target_comp_id@ == comp_id
        &&& sc.role == SessionRole::Acceptor
        &&& sc.heartbeat_interval == cfg.default_heartbeat_interval
        &&& duration_nanos(sc.reconnect_interval) == 0
        &&& sc.max_reconnect_attempts == 0
        &&& sc.sequence_reset_policy == SequenceResetPolicy::Daily
        &&& sc.validate_comp_ids
        &&& sc.max_msg_rate == 50000
        &&& s.spec_state() == SessionState::Disconnected
    }
}

/// The number of active connections.
pub open spec fn count_active(conns: Seq<PooledConnection>) -> nat
    decreases conns.len(),
{
    if conns.len() == 0 {
        0
    } else {
        count_active(conns.drop_last()) + if is_active(conns.last()) {
            1nat
        } else {
            0nat
        }
    }
}

/// The number of free slots.
pub open spec fn count_available(conns: Seq<PooledConnection>) -> nat
    decreases conns.len(),
{
    if conns.len() == 0 {
        0
    } else {
        count_available(conns.drop_last()) + if conns.last().state == ConnectionState::Available {
            1nat
        } else {
            0nat
        }
    }
}

/// Bytes received over all slots, in wrapping 64-bit arithmetic.
pub open spec fn sum_received(conns: Seq<PooledConnection>) -> u64
    decreases conns.len(),
{
    if conns.len() == 0 {
        0
    } else {
        sum_received(conns.drop_last()).wrapping_add(conns.last().bytes_received)
    }
}

/// Bytes sent over all slots, in wrapping 64-bit arithmetic.
pub open spec fn sum_sent(conns: Seq<PooledConnection>) -> u64
    decreases conns.len(),
{
    if conns.len() == 0 {
        0
    } else {
        sum_sent(conns.drop_last()).wrapping_add(conns.last().bytes_sent)
    }
}

/// Whether an in-use connection has been idle longer than `max_idle_ms` at `now`.
pub open spec fn is_idle(c: PooledConnection, max_idle_ms: u64, now: u64) -> bool {
    c.state == ConnectionState::InUse && now.saturating_sub(c.last_active_ms) > max_idle_ms
}

/// The number of connections idle at `now`.
pub open spec fn count_idle(conns: Seq<PooledConnection>, max_idle_ms: u64, now: u64) -> nat
    decreases conns.len(),
{
    if conns.len() == 0 {
        0
    } else {
        count_idle(conns.drop_last(), max_idle_ms, now) + if is_idle(conns.last(), max_idle_ms, now) {
            1nat
        } else {
            0nat
        }
    }
}

/// The session ID of connection `conn_id`: "ACC-" followed by the decimal digits of the id.
pub(crate) fn acceptor_session_id(conn_id: u64) -> (s: String)
    ensures
        s@ == "ACC-"@ + dec_text(conn_id),
{
    let mut s = String::from_str("ACC-");
    let digits = decimal(conn_id);
    s.append(digits.as_str());
    s
}

/// A session acceptor over a fixed pool of connection slots.
pub struct Acceptor {
    config: AcceptorConfig,
    connections: Vec<PooledConnection>,
    next_conn_id: u64,
    total_accepted: u64,
    total_rejected: u64,
}

impl Acceptor {
    pub closed spec fn spec_config(&self) -> AcceptorConfig {
        self.config
    }

    /// The pool's slots, in order.
    pub closed spec fn spec_connections(&self) -> Seq<PooledConnection> {
        self.connections@
    }

    /// The id the next accepted connection gets.
    pub closed spec fn spec_next_id(&self) -> u64 {
        self.next_conn_id
    }

    pub closed spec fn spec_accepted(&self) -> u64 {
        self.total_accepted
    }

    pub closed spec fn spec_rejected(&self) -> u64 {
        self.total_rejected
    }

    /// An acceptor whose pool has `connection_pool_size` free slots, numbered from 0.
    pub fn new(config: AcceptorConfig) -> (a: Self)
        requires
            config.connection_pool_size <= u64::MAX,
        ensures
            a.spec_config() == config,
            a.spec_connections().len() == config.connection_pool_size,
            forall|i: int|
                0 <= i < a.spec_connections().len() ==> is_cleared(
                    #[trigger] a.spec_connections()[i],
                    i as u64,
                ),
            a.spec_next_id() == config.connection_pool_size,
            a.spec_accepted() == 0,
            a.spec_rejected() == 0,
            ids_below(a.spec_connections(), a.spec_next_id()),
    {
        let pool_size = config.connection_pool_size;
        let mut connections: Vec<PooledConnection> = Vec::with_capacity(pool_size);
        let mut i: usize = 0;
        while i < pool_size
            invariant
                i <= pool_size,
                pool_size <= u64::MAX,
                connections@.len() == i,
                forall|j: int| 0 <= j < i ==> is_cleared(#[trigger] connections@[j], j as u64),
            decreases pool_size - i,
        {
            connections.push(
                PooledConnection {
                    id: i as u64,
                    state: ConnectionState::Available,
                    session: None,
                    remote_comp_id: String::new(),
                    remote_address: String::new(),
                    connected_at_ms: 0,
                    last_active_ms: 0,
                    bytes_received: 0,
                    bytes_sent: 0,
                },
            );
            i = i + 1;
        }
        Acceptor {
            config,
            connections,
            next_conn_id: pool_size as u64,
            total_accepted: 0,
            total_rejected: 0,
        }
    }

    /// Whether `comp_id` may connect: an empty whitelist allows every CompID.
    pub fn is_comp_id_allowed(&self, comp_id: &str) -> (b: bool)
        ensures
            b == comp_id_allowed(self.spec_config().allowed_comp_ids@, comp_id@),
    {
        let allowed = &self.config.allowed_comp_ids;
        if allowed.len() == 0 {
            return true;
        }
        let n = allowed.len();
        let mut i: usize = 0;
        while i < n
            invariant
                n == allowed@.len(),
                i <= n,
                allowed@ == self.spec_config().allowed_comp_ids@,
                forall|j: int| 0 <= j < i ==> (#[trigger] allowed@[j])@ != comp_id@,
            decreases n - i,
        {
            if str_equal(allowed[i].as_str(), comp_id) {
                assert(allowed@[i as int]@ == comp_id@);
                return true;
            }
            i = i + 1;
        }
        false
    }

    /// The id of the active connection from `comp_id`, if any.
    pub fn find_by_comp_id(&self, comp_id: &str) -> (r: Option<u64>)
        ensures
            match first_match(self.spec_connections(), by_comp_id(comp_id@)) {
                Some(i) => r == Some(self.spec_connections()[i].id),
                None => r is None,
            },
    {
        let n = self.connections.len();
        let mut i: usize = 0;
        let ghost p = by_comp_id(comp_id@);
        assert(self.connections@.take(0) =~= Seq::<PooledConnection>::empty());
        while i < n
            invariant
                n == self.connections@.len(),
                i <= n,
                p == by_comp_id(comp_id@),
                first_match(self.connections@.take(i as int), p) is None,
            decreases n - i,
        {
            proof {
                lemma_first_match_step(self.connections@, p, i as int);
            }
            let c = &self.connections[i];
            if (c.state == ConnectionState::InUse || c.state == ConnectionState::Draining) && str_equal(
                c.remote_comp_id.as_str(),
                comp_id,
            ) {
                return Some(c.id);
            }
            i = i + 1;
        }
        assert(self.connections@.take(n as int) =~= self.connections@);
        None
    }

    fn find_available_slot(&self) -> (r: Option<usize>)
        ensures
            match first_match(self.spec_connections(), available()) {
                Some(i) => r matches Some(k) && k == i,
                None => r is None,
            },
    {
        let n = self.connections.len();
        let mut i: usize = 0;
        let ghost p = available();
        assert(self.connections@.take(0) =~= Seq::<PooledConnection>::empty());
        while i < n
            invariant
                n == self.connections@.len(),
                i <= n,
                p == available(),
                first_match(self.connections@.take(i as int), p) is None,
            decreases n - i,
        {
            proof {
                lemma_first_match_step(self.connections@, p, i as int);
            }
            if self.connections[i].state == ConnectionState::Available {
                return Some(i);
            }
            i = i + 1;
        }
        assert(self.connections@.take(n as int) =~= self.connections@);
        None
    }

    fn find_slot_with_id(&self, conn_id: u64) -> (r: Option<usize>)
        ensures
            match first_match(self.spec_connections(), with_id(conn_id)) {
                Some(i) => r matches Some(k) && k == i,
                None => r is None,
            },
    {
        let n = self.connections.len();
        let mut i: usize = 0;
        let ghost p = with_id(conn_id);
        assert(self.connections@.take(0) =~= Seq::<PooledConnection>::empty());
        while i < n
            invariant
                n == self.connections@.len(),
                i <= n,
                p == with_id(conn_id),
                first_match(self.connections@.take(i as int), p) is None,
            decreases n - i,
        {
            proof {
                lemma_first_match_step(self.connections@, p, i as int);
            }
            if self.connections[i].id == conn_id {
                return Some(i);
            }
            i = i + 1;
        }
        assert(self.connections@.take(n as int) =~= self.connections@);
        None
    }

    fn find_releasable_slot(&self, conn_id: u64) -> (r: Option<usize>)
        ensures
            match first_match(self.spec_connections(), releasable(conn_id)) {
                Some(i) => r matches Some(k) && k == i,
                None => r is None,
            },
    {
        let n = self.connections.len();
        let mut i: usize = 0;
        let ghost p = releasable(conn_id);
        assert(self.connections@.take(0) =~= Seq::<PooledConnection>::empty());
        while i < n
            invariant
                n == self.connections@.len(),
                i <= n,
                p == releasable(conn_id),
                first_match(self.connections@.take(i as int), p) is None,
            decreases n - i,
        {
            proof {
                lemma_first_match_step(self.connections@, p, i as int);
            }
            if self.connections[i].id == conn_id && self.connections[i].state
                != ConnectionState::Available {
                return Some(i);
            }
            i = i + 1;
        }
        assert(self.connections@.take(n as int) =~= self.connections@);
        None
    }

    /// Accept an inbound connection from `remote_addr` for `comp_id` at `current_time_ms`.
    /// Refused, in this order: when authentication is required; when the CompID is not
    /// whitelisted; when the CompID already has an active connection; when no slot is
    /// free. Otherwise the first free slot takes the connection, with the next id and a
    /// new acceptor session, and the id is returned. Every refusal is counted.
    pub fn accept_connection(&mut self, remote_addr: &str, comp_id: &str, current_time_ms: u64) -> (r:
        Result<u64, AcceptorError>)
        ensures
            final(self).spec_config() == old(self).spec_config(),
            ({
                let conns = old(self).spec_connections();
                let cfg = old(self).spec_config();
                if cfg.require_auth {
                    r == Err::<u64, AcceptorError>(AcceptorError::AuthRequired)
                } else if !comp_id_allowed(cfg.allowed_comp_ids@, comp_id@) {
                    r matches Err(AcceptorError::CompIdNotAllowed(s)) && s@ == comp_id@
                } else if first_match(conns, by_comp_id(comp_id@)) is Some {
                    r matches Err(AcceptorError::AlreadyConnected(s)) && s@ == comp_id@
                } else if first_match(conns, available()) is None {
                    r == Err::<u64, AcceptorError>(AcceptorError::PoolExhausted)
                } else {
                    r == Ok::<u64, AcceptorError>(old(self).spec_next_id())
                }
            }),
            r is Err ==> {
                &&& final(self).spec_connections() == old(self).spec_connections()
                &&& final(self).spec_rejected() == old(self).spec_rejected().wrapping_add(1)
                &&& final(self).spec_accepted() == old(self).spec_accepted()
                &&& final(self).spec_next_id() == old(self).spec_next_id()
            },
            r is Ok ==> {
                let slot = first_match(old(self).spec_connections(), available())->Some_0;
                &&& final(self).spec_connections().len() == old(self).spec_connections().len()
                &&& forall|j: int|
                    0 <= j < old(self).spec_connections().len() && j != slot
                        ==> final(self).spec_connections()[j] == old(self).spec_connections()[j]
                &&& is_accepted(
                    final(self).spec_connections()[slot],
                    old(self).spec_next_id(),
                    comp_id@,
                    remote_addr@,
                    current_time_ms,
                    old(self).spec_config(),
                )
                &&& final(self).spec_rejected() == old(self).spec_rejected()
                &&& final(self).spec_accepted() == old(self).spec_accepted().wrapping_add(1)
                &&& final(self).spec_next_id() == old(self).spec_next_id().wrapping_add(1)
            },
            r matches Ok(id) ==> (ids_below(old(self).spec_connections(), old(self).spec_next_id())
                ==> forall|j: int| 0 <= j < old(self).spec_connections().len() ==> (#[trigger] old(self).spec_connections()[j]).id != id),
            ids_below(old(self).spec_connections(), old(self).spec_next_id()) && old(self).spec_next_id() < u64::MAX
                ==> ids_below(final(self).spec_connections(), final(self).spec_next_id()),
    {
        if self.config.require_auth {
            self.total_rejected = self.total_rejected.wrapping_add(1);
            return Err(AcceptorError::AuthRequired);
        }
        if !self.is_comp_id_allowed(comp_id) {
            self.total_rejected = self.total_rejected.wrapping_add(1);
            return Err(AcceptorError::CompIdNotAllowed(comp_id.to_owned()));
        }
        if self.find_by_comp_id(comp_id).is_some() {
            self.total_rejected = self.total_rejected.wrapping_add(1);
            return Err(AcceptorError::AlreadyConnected(comp_id.to_owned()));
        }
        let slot_idx = match self.find_available_slot() {
            Some(idx) => idx,
            None => {
                self.total_rejected = self.total_rejected.wrapping_add(1);
                return Err(AcceptorError::PoolExhausted);
            },
        };
        proof {
            lemma_first_match(self.connections@, available());
        }
        let conn_id = self.next_conn_id;
        self.next_conn_id = self.next_conn_id.wrapping_add(1);
        let session_config = SessionConfig {
            session_id: acceptor_session_id(conn_id),
            fix_version: self.config.default_fix_version.clone(),
            sender_comp_id: "VELOCITAS".to_owned(),
            target_comp_id: comp_id.to_owned(),
            role: SessionRole::Acceptor,
            heartbeat_interval: self.config.default_heartbeat_interval,
            reconnect_interval: duration_from_secs(0),
            max_reconnect_attempts: 0,
            sequence_reset_policy: SequenceResetPolicy::Daily,
            validate_comp_ids: true,
            max_msg_rate: 50_000,
        };
        let conn = PooledConnection {
            id: conn_id,
            state: ConnectionState::InUse,
            session: Some(Session::new(session_config)),
            remote_comp_id: comp_id.to_owned(),
            remote_address: remote_addr.to_owned(),
            connected_at_ms: current_time_ms,
            last_active_ms: current_time_ms,
            bytes_received: 0,
            bytes_sent: 0,
        };
        self.connections.set(slot_idx, conn);
        self.total_accepted = self.total_accepted.wrapping_add(1);
        Ok(conn_id)
    }

    /// Return a connection's slot to the pool: the first slot with this id that is not
    /// already free is cleared (its id stays). `ConnectionNotFound` when there is none.
    pub fn release_connection(&mut self, conn_id: u64) -> (r: Result<(), AcceptorError>)
        ensures
            match first_match(old(self).spec_connections(), releasable(conn_id)) {
                Some(i) => r is Ok && final(self).spec_connections().len() == old(self).spec_connections().len()
                    && is_cleared(final(self).spec_connections()[i], conn_id) && forall|j: int|
                    0 <= j < old(self).spec_connections().len() && j != i
                        ==> final(self).spec_connections()[j] == old(self).spec_connections()[j],
                None => r == Err::<(), AcceptorError>(AcceptorError::ConnectionNotFound(conn_id))
                    && final(self).spec_connections() == old(self).spec_connections(),
            },
            final(self).spec_config() == old(self).spec_config(),
            final(self).spec_next_id() == old(self).spec_next_id(),
            final(self).spec_accepted() == old(self).spec_accepted(),
            final(self).spec_rejected() == old(self).spec_rejected(),
            ids_below(old(self).spec_connections(), old(self).spec_next_id()) ==> ids_below(
                final(self).spec_connections(),
                final(self).spec_next_id(),
            ),
    {
        match self.find_releasable_slot(conn_id) {
            Some(i) => {
                proof {
                    lemma_first_match(self.connections@, releasable(conn_id));
                }
                let cleared = PooledConnection {
                    id: conn_id,
                    state: ConnectionState::Available,
                    session: None,
                    remote_comp_id: String::new(),
                    remote_address: String::new(),
                    connected_at_ms: 0,
                    last_active_ms: 0,
                    bytes_received: 0,
                    bytes_sent: 0,
                };
                self.connections.set(i, cleared);
                Ok(())
            },
            None => Err(AcceptorError::ConnectionNotFound(conn_id)),
        }
    }

    /// The first connection with this id.
    pub fn get_connection(&self, conn_id: u64) -> (r: Option<&PooledConnection>)
        ensures
            match first_match(self.spec_connections(), with_id(conn_id)) {
                Some(i) => r matches Some(c) && *c == self.spec_connections()[i],
                None => r is None,
            },
    {
        match self.find_slot_with_id(conn_id) {
            Some(i) => {
                proof {
                    lemma_first_match(self.spec_connections(), with_id(conn_id));
                }
                Some(&self.connections[i])
            },
            None => None,
        }
    }

    /// The first connection with this id, for updating.
    pub fn get_connection_mut(&mut self, conn_id: u64) -> (r: Option<&mut PooledConnection>)
        ensures
            match first_match(old(self).spec_connections(), with_id(conn_id)) {
                Some(i) => r matches Some(c) && *c == old(self).spec_connections()[i]
                    && final(self).spec_connections() == old(self).spec_connections().update(i, *final(c)),
                None => r is None && *final(self) == *old(self),
            },
            final(self).spec_config() == old(self).spec_config(),
            final(self).spec_next_id() == old(self).spec_next_id(),
            final(self).spec_accepted() == old(self).spec_accepted(),
            final(self).spec_rejected() == old(self).spec_rejected(),
    {
        match self.find_slot_with_id(conn_id) {
            Some(i) => {
                proof {
                    lemma_first_match(self.connections@, with_id(conn_id));
                }
                Some(&mut self.connections[i])
            },
            None => None,
        }
    }

    /// The session of the first connection with this id, when it has one.
    pub fn get_session(&self, conn_id: u64) -> (r: Option<&Session>)
        ensures
            match first_match(self.spec_connections(), with_id(conn_id)) {
                Some(i) => match self.spec_connections()[i].session {
                    Some(s) => r matches Some(x) && *x == s,
                    None => r is None,
                },
                None => r is None,
            },
    {
        match self.find_slot_with_id(conn_id) {
            Some(i) => {
                proof {
                    lemma_first_match(self.connections@, with_id(conn_id));
                }
                self.connections[i].session.as_ref()
            },
            None => None,
        }
    }

    /// The session of the first connection with this id, when it has one, for updating.
    pub fn get_session_mut(&mut self, conn_id: u64) -> (r: Option<&mut Session>)
        ensures
            match first_match(old(self).spec_connections(), with_id(conn_id)) {
                Some(i) => match old(self).spec_connections()[i].session {
                    Some(s) => r matches Some(x) && *x == s && final(self).spec_connections()
                        == old(self).spec_connections().update(
                        i,
                        PooledConnection { session: Some(*final(x)), ..old(self).spec_connections()[i] },
                    ),
                    None => r is None && final(self).spec_connections() == old(self).spec_connections(),
                },
                None => r is None && final(self).spec_connections() == old(self).spec_connections(),
            },
            final(self).spec_config() == old(self).spec_config(),
            final(self).spec_next_id() == old(self).spec_next_id(),
            final(self).spec_accepted() == old(self).spec_accepted(),
            final(self).spec_rejected() == old(self).spec_rejected(),
    {
        match self.find_slot_with_id(conn_id) {
            Some(i) => {
                proof {
                    lemma_first_match(self.connections@, with_id(conn_id));
                }
                let c = &mut self.connections[i];
                c.session.as_mut()
            },
            None => None,
        }
    }

    /// Move the first connection with this id from InUse to Draining (no new messages;
    /// in-flight ones finish). `ConnectionNotFound` when there is no such connection or it
    /// is not in use.
    pub fn drain_connection(&mut self, conn_id: u64) -> (r: Result<(), AcceptorError>)
        ensures
            match first_match(old(self).spec_connections(), with_id(conn_id)) {
                Some(i) => if old(self).spec_connections()[i].state == ConnectionState::InUse {
                    r is Ok && final(self).spec_connections().len() == old(self).spec_connections().len()
                        && final(self).spec_connections()[i].state == ConnectionState::Draining
                        && final(self).spec_connections()[i].id == old(self).spec_connections()[i].id
                        && forall|j: int|
                        0 <= j < old(self).spec_connections().len() && j != i
                            ==> final(self).spec_connections()[j] == old(self).spec_connections()[j]
                } else {
                    r == Err::<(), AcceptorError>(AcceptorError::ConnectionNotFound(conn_id))
                        && final(self).spec_connections() == old(self).spec_connections()
                },
                None => r == Err::<(), AcceptorError>(AcceptorError::ConnectionNotFound(conn_id))
                    && final(self).spec_connections() == old(self).spec_connections(),
            },
            final(self).spec_config() == old(self).spec_config(),
            final(self).spec_next_id() == old(self).spec_next_id(),
            final(self).spec_accepted() == old(self).spec_accepted(),
            final(self).spec_rejected() == old(self).spec_rejected(),
            ids_below(old(self).spec_connections(), old(self).spec_next_id()) ==> ids_below(
                final(self).spec_connections(),
                final(self).spec_next_id(),
            ),
    {
        match self.find_slot_with_id(conn_id) {
            Some(i) => {
                proof {
                    lemma_first_match(self.connections@, with_id(conn_id));
                }
                if self.connections[i].state == ConnectionState::InUse {
                    let c = &mut self.connections[i];
                    c.state = ConnectionState::Draining;
                    Ok(())
                } else {
                    Err(AcceptorError::ConnectionNotFound(conn_id))
                }
            },
            None => Err(AcceptorError::ConnectionNotFound(conn_id)),
        }
    }

    /// The number of active (in use or draining) connections.
    pub fn active_count(&self) -> (n: usize)
        ensures
            n == count_active(self.spec_connections()),
    {
        let len = self.connections.len();
        let mut i: usize = 0;
        let mut n: usize = 0;
        while i < len
            invariant
                len == self.connections@.len(),
                i <= len,
                n <= i,
                n == count_active(self.connections@.take(i as int)),
            decreases len - i,
        {
            assert(self.connections@.take(i + 1).drop_last() =~= self.connections@.take(i as int));
            let st = self.connections[i].state;
            if st == ConnectionState::InUse || st == ConnectionState::Draining {
                n = n + 1;
            }
            i = i + 1;
        }
        assert(self.connections@.take(len as int) =~= self.connections@);
        n
    }

    /// Evict in-use connections idle for more than `max_idle_ms` at `current_time_ms`
    /// (idle time saturates at 0): each is cleared and returned to the pool. Returns how
    /// many were evicted.
    pub fn evict_idle(&mut self, max_idle_ms: u64, current_time_ms: u64) -> (n: usize)
        ensures
            n == count_idle(old(self).spec_connections(), max_idle_ms, current_time_ms),
            final(self).spec_connections().len() == old(self).spec_connections().len(),
            forall|j: int|
                0 <= j < old(self).spec_connections().len() ==> if is_idle(
                    #[trigger] old(self).spec_connections()[j],
                    max_idle_ms,
                    current_time_ms,
                ) {
                    is_cleared(final(self).spec_connections()[j], old(self).spec_connections()[j].id)
                } else {
                    final(self).spec_connections()[j] == old(self).spec_connections()[j]
                },
            final(self).spec_config() == old(self).spec_config(),
            final(self).spec_next_id() == old(self).spec_next_id(),
            final(self).spec_accepted() == old(self).spec_accepted(),
            final(self).spec_rejected() == old(self).spec_rejected(),
            ids_below(old(self).spec_connections(), old(self).spec_next_id()) ==> ids_below(
                final(self).spec_connections(),
                final(self).spec_next_id(),
            ),
    {
        let len = self.connections.len();
        let mut i: usize = 0;
        let mut evicted: usize = 0;
        let ghost old_conns = self.connections@;
        while i < len
            invariant
                len == self.connections@.len(),
                old_conns.len() == len,
                old_conns == old(self).spec_connections(),
                i <= len,
                evicted <= i,
                evicted == count_idle(old_conns.take(i as int), max_idle_ms, current_time_ms),
                forall|j: int|
                    0 <= j < i ==> if is_idle(#[trigger] old_conns[j], max_idle_ms, current_time_ms) {
                        is_cleared(self.connections@[j], old_conns[j].id)
                    } else {
                        self.connections@[j] == old_conns[j]
                    },
                forall|j: int| i <= j < len ==> #[trigger] self.connections@[j] == old_conns[j],
                self.config == old(self).config,
                self.next_conn_id == old(self).next_conn_id,
                self.total_accepted == old(self).total_accepted,
                self.total_rejected == old(self).total_rejected,
            decreases len - i,
        {
            assert(old_conns.take(i + 1).drop_last() =~= old_conns.take(i as int));
            let st = self.connections[i].state;
            let last = self.connections[i].last_active_ms;
            if st == ConnectionState::InUse && current_time_ms.saturating_sub(last) > max_idle_ms {
                let id = self.connections[i].id;
                let cleared = PooledConnection {
                    id,
                    state: ConnectionState::Available,
                    session: None,
                    remote_comp_id: String::new(),
                    remote_address: String::new(),
                    connected_at_ms: 0,
                    last_active_ms: 0,
                    bytes_received: 0,
                    bytes_sent: 0,
                };
                self.connections.set(i, cleared);
                evicted = evicted + 1;
            }
            i = i + 1;
        }
        assert(old_conns.take(len as int) =~= old_conns);
        assert forall|j: int| 0 <= j < len implies (#[trigger] self.connections@[j]).id == old_conns[j].id by {
            if is_idle(old_conns[j], max_idle_ms, current_time_ms) {
            }
        }
        evicted
    }

    /// Acceptor statistics: active and free slots, accepted and rejected totals, and the
    /// bytes received and sent over all slots.
    pub fn stats(&self) -> (st: AcceptorStats)
        ensures
            st.active_connections == count_active(self.spec_connections()),
            st.pool_available == count_available(self.spec_connections()),
            st.total_accepted == self.spec_accepted(),
            st.total_rejected == self.spec_rejected(),
            st.total_bytes_received == sum_received(self.spec_connections()),
            st.total_bytes_sent == sum_sent(self.spec_connections()),
    {
        let active = self.active_count();
        let len = self.connections.len();
        let mut i: usize = 0;
        let mut available_n: usize = 0;
        let mut received: u64 = 0;
        let mut sent: u64 = 0;
        while i < len
            invariant
                len == self.connections@.len(),
                i <= len,
                available_n <= i,
                available_n == count_available(self.connections@.take(i as int)),
                received == sum_received(self.connections@.take(i as int)),
                sent == sum_sent(self.connections@.take(i as int)),
            decreases len - i,
        {
            assert(self.connections@.take(i + 1).drop_last() =~= self.connections@.take(i as int));
            if self.connections[i].state == ConnectionState::Available {
                available_n = available_n + 1;
            }
            received = received.wrapping_add(self.connections[i].bytes_received);
            sent = sent.wrapping_add(self.connections[i].bytes_sent);
            i = i + 1;
        }
        assert(self.connections@.take(len as int) =~= self.connections@);
        AcceptorStats {
            active_connections: active,
            pool_available: available_n,
            total_accepted: self.total_accepted,
            total_rejected: self.total_rejected,
            total_bytes_received: received,
            total_bytes_sent: sent,
        }
    }
}

} // verus!
