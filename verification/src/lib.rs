pub mod tags;
pub mod checksum;
pub mod simd;
pub mod decimal;
pub mod message;
pub mod serializer;

pub mod parser;
pub mod roundtrip;
pub mod session;
pub mod pool;
pub mod text;
pub mod cluster;
pub mod acceptor;
pub mod groups;
pub mod fixt;
pub mod timestamp;
pub mod dictionary;
pub mod dict_compiler;
pub mod dashboard;
pub mod metrics;
pub mod journal;
pub mod transport;
pub mod transport_dpdk;
pub mod engine;
pub mod server;
pub mod client;
pub mod latency;

pub use message::{FieldEntry, MessageView, Side, OrdType, MsgType};
pub use parser::FixParser;
pub use serializer::FixSerializer;
pub use session::{Session, SessionConfig, SessionState};
