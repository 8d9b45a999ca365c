//! The transport layer: configuration, the events delivered to the session layer, the
//! interface every transport backend implements, and the kernel TCP backend's state.

use vstd::prelude::*;
use vstd::string::StringExecFns;

verus! {

// ---------------------------------------------------------------------------
// I/O errors
// ---------------------------------------------------------------------------

/// The error that `std::io::Error::new` makes with kind `NotConnected` and message `msg`.
pub uninterp spec fn not_connected_error(msg: Seq<char>) -> std::io::Error;

/// The error that `std::io::Error::new` makes with kind `AlreadyExists` and message `msg`.
pub uninterp spec fn already_exists_error(msg: Seq<char>) -> std::io::Error;

/// The error that `std::io::Error::new` makes with kind `Other` and message `msg`.
pub uninterp spec fn other_error(msg: Seq<char>) -> std::io::Error;

/// `std::io::Error::new(ErrorKind::NotConnected, msg)`.
#[verifier::external_body]
pub(crate) fn io_not_connected(msg: &str) -> (e: std::io::Error)
    ensures
        e == not_connected_error(msg@),
{
    std::io::Error::new(std::io::ErrorKind::NotConnected, msg)
}

/// `std::io::Error::new(ErrorKind::AlreadyExists, msg)`.
#[verifier::external_body]
pub(crate) fn io_already_exists(msg: &str) -> (e: std::io::Error)
    ensures
        e == already_exists_error(msg@),
{
    std::io::Error::new(std::io::ErrorKind::AlreadyExists, msg)
}

/// `std::io::Error::new(ErrorKind::Other, msg)`.
#[verifier::external_body]
pub(crate) fn io_other(msg: &str) -> (e: std::io::Error)
    ensures
        e == other_error(msg@),
{
    std::io::Error::new(std::io::ErrorKind::Other, msg)
}

// ---------------------------------------------------------------------------
// Events and configuration
// ---------------------------------------------------------------------------

/// Transport event types delivered to the session layer.
#[derive(Debug)]
pub enum TransportEvent {
    Connected,
    Disconnected,
    /// The number of bytes available in the receive buffer.
    DataReceived(usize),
    Error(std::io::Error),
}

/// Transport mode selection.
#[derive(Debug, Clone, Copy, PartialEq, Eq, Structural)]
pub enum TransportMode {
    /// Standard Aeron IPC/UDP integration path.
    Aeron,
    /// Standard kernel TCP/IP stack.
    KernelTcp,
    /// DPDK user-space TCP.
    Dpdk,
    /// Solarflare OpenOnload.
    OpenOnload,
}

/// Transport configuration.
#[derive(Debug, Clone)]
pub struct TransportConfig {
    pub mode: TransportMode,
    pub bind_address: Option<String>,
    pub connect_address: Option<String>,
    pub port: u16,
    pub recv_buffer_size: usize,
    pub send_buffer_size: usize,
    pub tcp_nodelay: bool,
    pub aeron_channel: Option<String>,
    pub aeron_stream_id: i32,
}

/// The default configuration, except for the mode and the stream id.
pub open spec fn is_default_config(c: TransportConfig, mode: TransportMode, stream_id: i32) -> bool {
    &&& c.mode == mode
    &&& c.bind_address is None
    &&& c.connect_address is None
    &&& c.port == 0
    &&& c.recv_buffer_size == 256 * 1024
    &&& c.send_buffer_size == 256 * 1024
    &&& c.tcp_nodelay
    &&& c.aeron_channel matches Some(ch) && ch@ == "aeron:ipc"@
    &&& c.aeron_stream_id == stream_id
}

fn config_with(mode: TransportMode, stream_id: i32) -> (c: TransportConfig)
    ensures
        is_default_config(c, mode, stream_id),
{
    TransportConfig {
        mode,
        bind_address: None,
        connect_address: None,
        port: 0,
        recv_buffer_size: 256 * 1024,
        send_buffer_size: 256 * 1024,
        tcp_nodelay: true,
        aeron_channel: Some(String::from_str("aeron:ipc")),
        aeron_stream_id: stream_id,
    }
}

impl Default for TransportConfig {
    /// Aeron IPC on stream 1001, 256 KiB buffers, no delay.
    fn default() -> (c: Self)
        ensures
            is_default_config(c, TransportMode::Aeron, 1001),
    {
        config_with(TransportMode::Aeron, 1001)
    }
}

impl TransportConfig {
    /// Default internal integration path for colocated services.
    pub fn aeron_ipc(stream_id: i32) -> (c: Self)
        ensures
            is_default_config(c, TransportMode::Aeron, stream_id),
    {
        config_with(TransportMode::Aeron, stream_id)
    }

    /// Explicitly opt into kernel TCP when talking to venues or counterparties.
    pub fn kernel_tcp() -> (c: Self)
        ensures
            is_default_config(c, TransportMode::KernelTcp, 1001),
    {
        config_with(TransportMode::KernelTcp, 1001)
    }
}

// ---------------------------------------------------------------------------
// The transport interface
// ---------------------------------------------------------------------------

/// Transport trait, implemented by each transport backend.
pub trait Transport {
    /// Connect to a remote endpoint (Initiator mode).
    fn connect(&mut self, address: &str, port: u16) -> Result<(), std::io::Error>;

    /// Bind and listen for connections (Acceptor mode).
    fn bind(&mut self, address: &str, port: u16) -> Result<(), std::io::Error>;

    /// Whether this transport keeps the record `sent` of the messages it sends. One that
    /// keeps none (the default) states nothing through `sent`.
    open spec fn records_sent(&self) -> bool {
        false
    }

    /// The messages this transport has sent, in order, when it keeps that record.
    open spec fn sent(&self) -> Seq<Seq<u8>> {
        Seq::empty()
    }

    /// Send data. Returns the number of bytes sent: on success the whole of `data` was sent,
    /// and a transport that keeps the record adds it as the latest message sent.
    fn send(&mut self, data: &[u8]) -> (r: Result<usize, std::io::Error>)
        ensures
            r matches Ok(n) ==> n == data@.len() && (old(self).records_sent() ==> final(self).sent()
                == old(self).sent().push(data@)),
    ;

    /// Receive data into the provided buffer. Returns number of bytes read, which lie at
    /// its start.
    fn recv(&mut self, buffer: &mut [u8]) -> (r: Result<usize, std::io::Error>)
        ensures
            final(buffer)@.len() == old(buffer)@.len(),
            r matches Ok(n) ==> n <= old(buffer)@.len(),
    ;

    /// Close the connection.
    fn close(&mut self) -> Result<(), std::io::Error>;

    /// Poll for events (non-blocking).
    fn poll(&mut self) -> Result<Option<TransportEvent>, std::io::Error>;

    /// Returns true if the transport is connected.
    fn is_connected(&self) -> bool;
}

impl<T: Transport + ?Sized> Transport for Box<T> {
    open spec fn records_sent(&self) -> bool {
        (**self).records_sent()
    }

    open spec fn sent(&self) -> Seq<Seq<u8>> {
        (**self).sent()
    }

    fn connect(&mut self, address: &str, port: u16) -> Result<(), std::io::Error> {
        (**self).connect(address, port)
    }

    fn bind(&mut self, address: &str, port: u16) -> Result<(), std::io::Error> {
        (**self).bind(address, port)
    }

    fn send(&mut self, data: &[u8]) -> Result<usize, std::io::Error> {
        (**self).send(data)
    }

    fn recv(&mut self, buffer: &mut [u8]) -> Result<usize, std::io::Error> {
        (**self).recv(buffer)
    }

    fn close(&mut self) -> Result<(), std::io::Error> {
        (**self).close()
    }

    fn poll(&mut self) -> Result<Option<TransportEvent>, std::io::Error> {
        (**self).poll()
    }

    fn is_connected(&self) -> bool {
        (**self).is_connected()
    }
}

// ---------------------------------------------------------------------------
// Kernel TCP transport state
// ---------------------------------------------------------------------------

/// Kernel TCP transport: the connection state of a standard socket transport.
pub struct KernelTcpTransport {
    connected: bool,
    config: TransportConfig,
    /// The messages sent, in order.
    sent_log: Ghost<Seq<Seq<u8>>>,
}

impl KernelTcpTransport {
    pub closed spec fn spec_connected(&self) -> bool {
        self.connected
    }

    pub closed spec fn spec_config(&self) -> TransportConfig {
        self.config
    }

    pub fn new(config: TransportConfig) -> (t: Self)
        ensures
            !t.spec_connected(),
            t.spec_config() == config,
            t.sent().len() == 0,
    {
        KernelTcpTransport { connected: false, config, sent_log: Ghost(Seq::empty()) }
    }
}

impl Transport for KernelTcpTransport {
    open spec fn records_sent(&self) -> bool {
        true
    }

    closed spec fn sent(&self) -> Seq<Seq<u8>> {
        self.sent_log@
    }

    fn connect(&mut self, address: &str, port: u16) -> (r: Result<(), std::io::Error>)
        ensures
            final(self).spec_connected(),
            final(self).spec_config() == old(self).spec_config(),
            r is Ok,
    {
        self.connected = true;
        Ok(())
    }

    fn bind(&mut self, address: &str, port: u16) -> (r: Result<(), std::io::Error>)
        ensures
            *final(self) == *old(self),
            r is Ok,
    {
        Ok(())
    }

    fn send(&mut self, data: &[u8]) -> (r: Result<usize, std::io::Error>)
        ensures
            final(self).spec_connected() == old(self).spec_connected(),
            final(self).spec_config() == old(self).spec_config(),
            r == (if old(self).spec_connected() {
                Ok(data@.len() as usize)
            } else {
                Err(not_connected_error("not connected"@))
            }),
            !old(self).spec_connected() ==> final(self).sent() == old(self).sent(),
    {
        if !self.connected {
            return Err(io_not_connected("not connected"));
        }
        proof {
            self.sent_log@ = self.sent_log@.push(data@);
        }
        Ok(data.len())
    }

    fn recv(&mut self, buffer: &mut [u8]) -> (r: Result<usize, std::io::Error>)
        ensures
            *final(self) == *old(self),
            final(buffer)@ == old(buffer)@,
            r == (if old(self).spec_connected() {
                Ok(0usize)
            } else {
                Err(not_connected_error("not connected"@))
            }),
    {
        if !self.connected {
            return Err(io_not_connected("not connected"));
        }
        Ok(0)
    }

    fn close(&mut self) -> (r: Result<(), std::io::Error>)
        ensures
            !final(self).spec_connected(),
            final(self).spec_config() == old(self).spec_config(),
            r is Ok,
    {
        self.connected = false;
        Ok(())
    }

    fn poll(&mut self) -> (r: Result<Option<TransportEvent>, std::io::Error>)
        ensures
            *final(self) == *old(self),
            r matches Ok(None),
    {
        Ok(None)
    }

    fn is_connected(&self) -> (b: bool)
        ensures
            b == self.spec_connected(),
    {
        self.connected
    }
}

// ---------------------------------------------------------------------------
// Frame selection for a shared message bus
// ---------------------------------------------------------------------------

/// The index of the first frame sent by someone other than `me`.
pub open spec fn first_foreign(senders: Seq<u64>, me: u64) -> Option<int>
    decreases senders.len(),
{
    if senders.len() == 0 {
        None
    } else {
        match first_foreign(senders.drop_last(), me) {
            Some(i) => Some(i),
            None => if senders.last() != me {
                Some(senders.len() - 1)
            } else {
                None
            },
        }
    }
}

/// The position of the first frame on a bus that another endpoint sent: an endpoint does
/// not receive its own frames.
pub fn first_foreign_frame(senders: &[u64], me: u64) -> (r: Option<usize>)
    ensures
        match first_foreign(senders@, me) {
            Some(i) => r == Some(i as usize),
            None => r is None,
        },
{
    let mut i: usize = 0;
    assert(senders@.take(0).len() == 0);
    while i < senders.len()
        invariant
            i <= senders@.len(),
            first_foreign(senders@.take(i as int), me) is None,
        decreases senders@.len() - i,
    {
        assert(senders@.take(i + 1).drop_last() =~= senders@.take(i as int));
        if senders[i] != me {
            proof {
                lemma_first_foreign_prefix(senders@, me, i + 1, i as int);
            }
            return Some(i);
        }
        i = i + 1;
    }
    assert(senders@.take(i as int) =~= senders@);
    None
}

/// Once a prefix has a foreign frame, every longer prefix has the same first one.
proof fn lemma_first_foreign_prefix(s: Seq<u64>, me: u64, k: int, i: int)
    requires
        0 < k <= s.len(),
        first_foreign(s.take(k), me) == Some(i),
    ensures
        first_foreign(s, me) == Some(i),
    decreases s.len() - k,
{
    if k == s.len() {
        assert(s.take(k) =~= s);
    } else {
        assert(s.take(k + 1).drop_last() =~= s.take(k));
        lemma_first_foreign_prefix(s, me, k + 1, i);
    }
}

} // verus!
