//! A filtering DNS forwarder's core: the wire codec, the block-list and its refresh
//! schedule, the query service with its construction states, the table of queries that
//! wait for the upstream resolver, and the decisions taken for each datagram.

pub mod answer;
pub mod block_list;
pub mod cache;
pub mod codec_laws;
pub mod dispatch;
pub mod pending;
pub mod q_class;
pub mod q_type;
pub mod question;
pub mod refresh;
pub mod service;

pub use service::{QueryService, Ready, Response};
