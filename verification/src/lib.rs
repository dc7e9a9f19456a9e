//! Proof-construction core of a cross-chain packet relayer.
//!
//! Given packet lifecycle events observed on a chain, the library decides
//! which outbound protocol messages (receive, acknowledge, timeout) must be
//! submitted to the counterparty chain, derives the storage path each proof
//! must be fetched for, and fills each message's proof fields from the
//! fetched chain data. The fetching itself is plain RPC work and lives
//! outside the library; the library states and checks everything that can be
//! decided from the fetched values alone.

pub mod builder;
pub mod encoding;
pub mod ethereum;
pub mod hexfmt;
pub mod keccak;
pub mod mock;
pub mod policy;
pub mod tendermint;
pub mod paths;
pub mod types;

pub use types::{
    Height, Packet, PacketView, EurekaEvent, EurekaEventView, EurekaEventWithHeight,
    EurekaEventWithHeightView, MsgRecvPacket, MsgRecvPacketView, MsgAcknowledgement,
    MsgAcknowledgementView, MsgTimeout, MsgTimeoutView, views_of, event_views, bytes_eq,
    clone_bytes, clone_bytes_list, dup_packet,
};
