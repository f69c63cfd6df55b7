//! Scalar views of IPv4 and TCP headers.
//!
//! The transport core never touches raw byte offsets: an inbound datagram
//! is turned by the codec into these plain-field views, and an outgoing
//! segment is described by the same views before the codec serializes it.

use vstd::prelude::*;

verus! {

/// The IPv4 protocol number that marks a TCP payload.
pub const TCP_PROTOCOL: u8 = 6;

/// Serialized length of an IPv4 header without options.
pub const IP_HEADER_LEN: usize = 20;

/// Serialized length of a TCP header without options.
pub const TCP_HEADER_LEN: usize = 20;

/// Largest raw datagram the core accepts: an IPv4 total length is a
/// 16-bit field, so no well-formed datagram exceeds this many bytes.
pub const MAX_DATAGRAM_SIZE: usize = 65535;

/// Maximum transmission unit used to size outgoing datagrams.
pub const MTU_SIZE: usize = 1500;

/// Time-to-live written into every outgoing IPv4 header.
pub const IP_TTL: u8 = 64;

/// The fields of an IPv4 header that the transport core reads or sets.
/// Addresses are held in big-endian numeric form, so `10.0.0.1` is
/// `0x0a000001`.
#[derive(Clone, Copy, PartialEq, Eq, Structural, Debug)]
pub struct IpView {
    /// Source address of the datagram.
    pub src: u32,
    /// Destination address of the datagram.
    pub dst: u32,
    /// Protocol number of the carried payload.
    pub protocol: u8,
}

/// The fields of a TCP header that the transport core reads or sets.
#[derive(Clone, Copy, PartialEq, Eq, Structural, Debug)]
pub struct TcpView {
    /// Source port.
    pub src_port: u16,
    /// Destination port.
    pub dst_port: u16,
    /// Sequence number of the first payload octet.
    pub seq: u32,
    /// Acknowledgment number; meaningful when `ack_flag` is set.
    pub ack: u32,
    /// Advertised receive window.
    pub window: u16,
    /// SYN flag.
    pub syn: bool,
    /// ACK flag.
    pub ack_flag: bool,
    /// FIN flag.
    pub fin: bool,
    /// RST flag.
    pub rst: bool,
}

} // verus!
