//! Parts of a Tezos node: the payout of cycle rewards, the commands between the node and its
//! protocol runners, and the handling of peers.
pub mod address_map;
pub mod dns_service;
pub mod fraction;
pub mod mutez;
pub mod net;
pub mod peer_connection_closed;
pub mod protocol;
pub mod rewards;
pub mod text;
pub mod websocket;
