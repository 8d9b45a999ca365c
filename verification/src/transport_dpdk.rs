//! Kernel-bypass transport over DPDK poll-mode drivers: its configuration, port statistics,
//! packet buffers, buffer pools, and the connection state machine of the transport.

use vstd::prelude::*;
use vstd::string::StringExecFns;
use crate::transport::{
    Transport,
    TransportEvent,
    io_already_exists,
    io_not_connected,
    io_other,
    already_exists_error,
    not_connected_error,
    other_error,
};

verus! {

/// DPDK transport configuration.
#[derive(Debug, Clone)]
pub struct DpdkConfig {
    /// EAL (Environment Abstraction Layer) arguments.
    pub eal_args: Vec<String>,
    /// DPDK port ID (NIC).
    pub port_id: u16,
    /// Number of RX queues.
    pub rx_queues: u16,
    /// Number of TX queues.
    pub tx_queues: u16,
    /// RX ring size (must be power of 2).
    pub rx_ring_size: u16,
    /// TX ring size (must be power of 2).
    pub tx_ring_size: u16,
    /// Number of mbufs in the memory pool.
    pub num_mbufs: u32,
    /// Mbuf cache size.
    pub mbuf_cache_size: u32,
    /// Whether to enable hardware timestamping.
    pub hw_timestamps: bool,
    /// CPU core to pin the poll thread to.
    pub poll_core: Option<u32>,
    /// Promiscuous mode.
    pub promiscuous: bool,
}

impl Default for DpdkConfig {
    fn default() -> (c: Self)
        ensures
            c.eal_args@.len() == 0,
            c.port_id == 0,
            c.rx_queues == 1,
            c.tx_queues == 1,
            c.rx_ring_size == 1024,
            c.tx_ring_size == 1024,
            c.num_mbufs == 8192,
            c.mbuf_cache_size == 256,
            !c.hw_timestamps,
            c.poll_core is None,
            !c.promiscuous,
    {
        DpdkConfig {
            eal_args: Vec::new(),
            port_id: 0,
            rx_queues: 1,
            tx_queues: 1,
            rx_ring_size: 1024,
            tx_ring_size: 1024,
            num_mbufs: 8192,
            mbuf_cache_size: 256,
            hw_timestamps: false,
            poll_core: None,
            promiscuous: false,
        }
    }
}

/// DPDK port statistics.
#[derive(Debug, Clone, Copy, PartialEq, Eq, Structural)]
pub struct DpdkStats {
    pub rx_packets: u64,
    pub tx_packets: u64,
    pub rx_bytes: u64,
    pub tx_bytes: u64,
    pub rx_errors: u64,
    pub tx_errors: u64,
    pub rx_missed: u64,
}

/// All counters zero.
pub open spec fn zero_stats() -> DpdkStats {
    DpdkStats {
        rx_packets: 0,
        tx_packets: 0,
        rx_bytes: 0,
        tx_bytes: 0,
        rx_errors: 0,
        tx_errors: 0,
        rx_missed: 0,
    }
}

impl Default for DpdkStats {
    fn default() -> (s: Self)
        ensures
            s == zero_stats(),
    {
        DpdkStats {
            rx_packets: 0,
            tx_packets: 0,
            rx_bytes: 0,
            tx_bytes: 0,
            rx_errors: 0,
            tx_errors: 0,
            rx_missed: 0,
        }
    }
}

/// A DPDK message buffer: packet metadata and its data.
pub struct DpdkMbuf {
    /// Length of the data in the buffer.
    pub data_len: u16,
    /// Total packet length (across chained mbufs).
    pub pkt_len: u32,
    /// Port the packet arrived on / will be sent from.
    pub port: u16,
    /// Hardware timestamp (if available).
    pub timestamp: u64,
    data: Vec<u8>,
}

impl DpdkMbuf {
    /// The packet data.
    pub closed spec fn data_view(&self) -> Seq<u8> {
        self.data@
    }

    pub closed spec fn spec_data_len(&self) -> u16 {
        self.data_len
    }

    pub closed spec fn spec_pkt_len(&self) -> u32 {
        self.pkt_len
    }

    pub closed spec fn spec_port(&self) -> u16 {
        self.port
    }

    pub closed spec fn spec_timestamp(&self) -> u64 {
        self.timestamp
    }

    /// Returns an immutable slice of the packet data.
    pub fn data(&self) -> (r: &[u8])
        ensures
            r@ == self.data_view(),
    {
        self.data.as_slice()
    }

    /// Returns a mutable slice of the packet data.
    pub fn data_mut(&mut self) -> (r: &mut [u8])
        ensures
            r@ == old(self).data_view(),
            final(self).data_view() == final(r)@,
            final(self).spec_data_len() == old(self).spec_data_len(),
            final(self).spec_pkt_len() == old(self).spec_pkt_len(),
            final(self).spec_port() == old(self).spec_port(),
            final(self).spec_timestamp() == old(self).spec_timestamp(),
    {
        self.data.as_mut_slice()
    }

    /// Replace the packet data with `bytes`; both lengths become its length, truncated to
    /// the width of each field.
    pub fn set_data(&mut self, bytes: &[u8])
        ensures
            final(self).data_view() == bytes@,
            final(self).spec_data_len() == bytes@.len() as u16,
            final(self).spec_pkt_len() == bytes@.len() as u32,
            final(self).spec_port() == old(self).spec_port(),
            final(self).spec_timestamp() == old(self).spec_timestamp(),
    {
        self.data = vstd::slice::slice_to_vec(bytes);
        self.data_len = #[verifier::truncate] (bytes.len() as u16);
        self.pkt_len = #[verifier::truncate] (bytes.len() as u32);
    }
}

/// DPDK memory pool for mbuf allocation.
pub struct DpdkMempool {
    /// Name of the mempool.
    pub name: String,
    /// Number of mbufs in the pool.
    pub num_mbufs: u32,
    /// Per-core cache size.
    pub cache_size: u32,
    /// Data room size per mbuf (payload capacity).
    pub data_room_size: u16,
    initialized: bool,
}

impl DpdkMempool {
    pub closed spec fn spec_initialized(&self) -> bool {
        self.initialized
    }

    pub closed spec fn spec_name(&self) -> Seq<char> {
        self.name@
    }

    pub closed spec fn spec_num_mbufs(&self) -> u32 {
        self.num_mbufs
    }

    pub closed spec fn spec_cache_size(&self) -> u32 {
        self.cache_size
    }

    pub closed spec fn spec_data_room_size(&self) -> u16 {
        self.data_room_size
    }

    /// Create a new mempool descriptor.
    pub fn new(name: &str, num_mbufs: u32, cache_size: u32, data_room_size: u16) -> (p: Self)
        ensures
            p.spec_name() == name@,
            p.spec_num_mbufs() == num_mbufs,
            p.spec_cache_size() == cache_size,
            p.spec_data_room_size() == data_room_size,
            p.spec_initialized(),
    {
        DpdkMempool {
            name: String::from_str(name),
            num_mbufs,
            cache_size,
            data_room_size,
            initialized: true,
        }
    }

    /// Allocate an mbuf from the pool: an empty buffer with zeroed metadata, while the pool
    /// is initialized.
    pub fn allocate_mbuf(&self) -> (r: Option<DpdkMbuf>)
        ensures
            r is Some <==> self.spec_initialized(),
            r matches Some(m) ==> m.spec_data_len() == 0 && m.spec_pkt_len() == 0 && m.spec_port() == 0 && m.spec_timestamp()
                == 0 && m.data_view().len() == 0,
    {
        if !self.initialized {
            return None;
        }
        Some(
            DpdkMbuf {
                data_len: 0,
                pkt_len: 0,
                port: 0,
                timestamp: 0,
                data: Vec::with_capacity(self.data_room_size as usize),
            },
        )
    }

    /// Return an mbuf to the pool.
    pub fn free_mbuf(&self, mbuf: DpdkMbuf) {
    }
}

/// DPDK transport: kernel-bypass NIC access via poll-mode drivers.
pub struct DpdkTransport {
    config: DpdkConfig,
    initialized: bool,
    connected: bool,
    stats: DpdkStats,
    /// The messages sent, in order.
    sent_log: Ghost<Seq<Seq<u8>>>,
}

impl DpdkTransport {
    pub closed spec fn spec_config(&self) -> DpdkConfig {
        self.config
    }

    pub closed spec fn spec_initialized(&self) -> bool {
        self.initialized
    }

    pub closed spec fn spec_connected(&self) -> bool {
        self.connected
    }

    pub closed spec fn spec_stats(&self) -> DpdkStats {
        self.stats
    }

    /// Create a new DPDK transport with the given configuration.
    pub fn new(config: DpdkConfig) -> (t: Self)
        ensures
            t.spec_config() == config,
            !t.spec_initialized(),
            !t.spec_connected(),
            t.spec_stats() == zero_stats(),
            t.sent().len() == 0,
    {
        DpdkTransport {
            config,
            initialized: false,
            connected: false,
            stats: DpdkStats::default(),
            sent_log: Ghost(Seq::empty()),
        }
    }

    /// Initialise the environment and configure the port: refused when already done.
    pub fn initialize(&mut self) -> (r: Result<(), std::io::Error>)
        ensures
            final(self).spec_initialized(),
            final(self).spec_connected() == old(self).spec_connected(),
            final(self).spec_stats() == old(self).spec_stats(),
            final(self).spec_config() == old(self).spec_config(),
            r == (if old(self).spec_initialized() {
                Err(already_exists_error("DPDK EAL already initialized"@))
            } else {
                Ok(())
            }),
    {
        if self.initialized {
            return Err(io_already_exists("DPDK EAL already initialized"));
        }
        self.initialized = true;
        Ok(())
    }

    /// Return current port statistics.
    pub fn stats(&self) -> (s: &DpdkStats)
        ensures
            *s == self.spec_stats(),
    {
        &self.stats
    }

    /// Enable or disable promiscuous mode on the port.
    pub fn set_promiscuous(&mut self, enabled: bool)
        ensures
            final(self).spec_config().promiscuous == enabled,
            final(self).spec_config().port_id == old(self).spec_config().port_id,
            final(self).spec_initialized() == old(self).spec_initialized(),
            final(self).spec_connected() == old(self).spec_connected(),
            final(self).spec_stats() == old(self).spec_stats(),
    {
        self.config.promiscuous = enabled;
    }

    /// Whether the port is in promiscuous mode.
    pub fn promiscuous(&self) -> (b: bool)
        ensures
            b == self.spec_config().promiscuous,
    {
        self.config.promiscuous
    }

    /// Return the MAC address of the port.
    pub fn mac_address(&self) -> (m: [u8; 6])
        ensures
            m@ == seq![0u8, 0u8, 0u8, 0u8, 0u8, 0u8],
    {
        [0; 6]
    }
}

/// The statistics after sending one packet of `len` bytes.
pub open spec fn after_send(s: DpdkStats, len: nat) -> DpdkStats {
    DpdkStats {
        tx_packets: s.tx_packets.wrapping_add(1),
        tx_bytes: s.tx_bytes.wrapping_add(len as u64),
        ..s
    }
}

impl Transport for DpdkTransport {
    open spec fn records_sent(&self) -> bool {
        true
    }

    closed spec fn sent(&self) -> Seq<Seq<u8>> {
        self.sent_log@
    }

    /// Connect to a remote endpoint: refused until the environment is initialised.
    fn connect(&mut self, address: &str, port: u16) -> (r: Result<(), std::io::Error>)
        ensures
            final(self).spec_connected() == (old(self).spec_initialized() || old(self).spec_connected()),
            final(self).spec_initialized() == old(self).spec_initialized(),
            final(self).spec_stats() == old(self).spec_stats(),
            final(self).spec_config() == old(self).spec_config(),
            r == (if old(self).spec_initialized() {
                Ok(())
            } else {
                Err(other_error("DPDK not initialized; call initialize() first"@))
            }),
    {
        if !self.initialized {
            return Err(io_other("DPDK not initialized; call initialize() first"));
        }
        self.connected = true;
        Ok(())
    }

    /// Bind and listen: refused until the environment is initialised.
    fn bind(&mut self, address: &str, port: u16) -> (r: Result<(), std::io::Error>)
        ensures
            *final(self) == *old(self),
            r == (if old(self).spec_initialized() {
                Ok(())
            } else {
                Err(other_error("DPDK not initialized; call initialize() first"@))
            }),
    {
        if !self.initialized {
            return Err(io_other("DPDK not initialized; call initialize() first"));
        }
        Ok(())
    }

    /// Send data: counts the packet and its bytes; refused when not connected.
    fn send(&mut self, data: &[u8]) -> (r: Result<usize, std::io::Error>)
        ensures
            final(self).spec_connected() == old(self).spec_connected(),
            final(self).spec_initialized() == old(self).spec_initialized(),
            final(self).spec_config() == old(self).spec_config(),
            old(self).spec_connected() ==> final(self).spec_stats() == after_send(
                old(self).spec_stats(),
                data@.len(),
            ) && r == Ok::<usize, std::io::Error>(data@.len() as usize),
            !old(self).spec_connected() ==> final(self).spec_stats() == old(self).spec_stats()
                && r == Err::<usize, std::io::Error>(not_connected_error("not connected"@))
                && final(self).sent() == old(self).sent(),
    {
        if !self.connected {
            return Err(io_not_connected("not connected"));
        }
        proof {
            self.sent_log@ = self.sent_log@.push(data@);
        }
        let len = data.len();
        self.stats.tx_packets = self.stats.tx_packets.wrapping_add(1);
        self.stats.tx_bytes = self.stats.tx_bytes.wrapping_add(len as u64);
        Ok(len)
    }

    /// Receive data: nothing arrives; refused when not connected.
    fn recv(&mut self, buffer: &mut [u8]) -> (r: Result<usize, std::io::Error>)
        ensures
            *final(self) == *old(self),
            final(buffer)@ == old(buffer)@,
            r == (if old(self).spec_connected() {
                Ok(0usize)
            } else {
                Err(not_connected_error("not connected"@))
            }),
    {
        if !self.connected {
            return Err(io_not_connected("not connected"));
        }
        Ok(0)
    }

    /// Close the connection.
    fn close(&mut self) -> (r: Result<(), std::io::Error>)
        ensures
            !final(self).spec_connected(),
            final(self).spec_initialized() == old(self).spec_initialized(),
            final(self).spec_stats() == old(self).spec_stats(),
            final(self).spec_config() == old(self).spec_config(),
            r is Ok,
    {
        self.connected = false;
        Ok(())
    }

    /// Poll for transport events (non-blocking): none.
    fn poll(&mut self) -> (r: Result<Option<TransportEvent>, std::io::Error>)
        ensures
            *final(self) == *old(self),
            r matches Ok(None),
    {
        Ok(None)
    }

    fn is_connected(&self) -> (b: bool)
        ensures
            b == self.spec_connected(),
    {
        self.connected
    }
}

} // verus!
