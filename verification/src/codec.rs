//! Trusted boundary to the byte-level header codec.
//!
//! Parsing and serializing raw IPv4 and TCP headers (field layout, byte
//! order, checksums) is delegated to the `etherparse` crate. Each call is
//! wrapped once here; what a call returns is given a name, since the byte
//! layouts are a function of the arguments alone.

use vstd::prelude::*;
use crate::segment::{IpView, TcpView, IP_HEADER_LEN, TCP_HEADER_LEN};

verus! {

/// The IPv4 header fields read from the front of `b`, with the header's
/// serialized length, or `None` when no well-formed IPv4 header is there.
pub uninterp spec fn ip_parse_of(b: Seq<u8>) -> Option<(IpView, usize)>;

/// The TCP header fields read from the front of `b`, with the header's
/// serialized length, or `None` when no well-formed TCP header is there.
pub uninterp spec fn tcp_parse_of(b: Seq<u8>) -> Option<(TcpView, usize)>;

/// The serialized option-free IPv4 header carrying TCP with the given
/// addresses, time-to-live and payload length.
pub uninterp spec fn ipv4_header_bytes(src: u32, dst: u32, ttl: u8, payload_len: u16) -> Seq<u8>;

/// The serialized option-free TCP header with the given ports, sequence
/// and acknowledgment numbers, window and flags.
pub uninterp spec fn tcp_header_bytes(
    src_port: u16,
    dst_port: u16,
    seq: u32,
    ack: u32,
    window: u16,
    syn: bool,
    ack_flag: bool,
    fin: bool,
    rst: bool,
) -> Seq<u8>;

/// Relies on `etherparse::Ipv4HeaderSlice::from_slice`: reads one IPv4
/// header from the front of `buf` or fails; the header it returns was
/// taken from `buf` itself, so its length (20 to 60 bytes, four times the
/// IHL field) never exceeds the buffer's.
#[verifier::external_body]
pub(crate) fn parse_ipv4(buf: &[u8]) -> (r: Option<(IpView, usize)>)
    ensures
        r == ip_parse_of(buf@),
        r is Some ==> IP_HEADER_LEN <= r.unwrap().1 <= buf@.len(),
{
    match etherparse::Ipv4HeaderSlice::from_slice(buf) {
        Ok(h) => Some((
            IpView {
                src: u32::from_be_bytes(h.source()),
                dst: u32::from_be_bytes(h.destination()),
                protocol: h.protocol().0,
            },
            h.slice().len(),
        )),
        Err(_) => None,
    }
}

/// Relies on `etherparse::TcpHeaderSlice::from_slice`: reads one TCP
/// header from the front of `buf` or fails; the header it returns was
/// taken from `buf` itself, so its length (20 to 60 bytes, four times the
/// data-offset field) never exceeds the buffer's.
#[verifier::external_body]
pub(crate) fn parse_tcp(buf: &[u8]) -> (r: Option<(TcpView, usize)>)
    ensures
        r == tcp_parse_of(buf@),
        r is Some ==> TCP_HEADER_LEN <= r.unwrap().1 <= buf@.len(),
{
    match etherparse::TcpHeaderSlice::from_slice(buf) {
        Ok(h) => Some((
            TcpView {
                src_port: h.source_port(), dst_port: h.destination_port(),
                seq: h.sequence_number(), ack: h.acknowledgment_number(),
                window: h.window_size(),
                syn: h.syn(), ack_flag: h.ack(), fin: h.fin(), rst: h.rst(),
            },
            h.slice().len(),
        )),
        Err(_) => None,
    }
}

/// Relies on `etherparse::Ipv4Header::write`: serializes an option-free
/// 20-byte IPv4 header carrying TCP, computing the header checksum. The
/// payload length must fit the 16-bit total-length field next to a 20-byte
/// header, or the header cannot be built.
#[verifier::external_body]
pub(crate) fn encode_ipv4(src: u32, dst: u32, ttl: u8, payload_len: u16) -> (r: Vec<u8>)
    requires
        payload_len <= 65515,
    ensures
        r@ == ipv4_header_bytes(src, dst, ttl, payload_len),
        r@.len() == IP_HEADER_LEN,
{
    let h = etherparse::Ipv4Header::new(
        payload_len,
        ttl,
        etherparse::IpNumber::TCP,
        src.to_be_bytes(),
        dst.to_be_bytes(),
    ).unwrap();
    let mut out: Vec<u8> = Vec::new();
    h.write(&mut out).unwrap();
    out
}

/// Relies on `etherparse::TcpHeader::write`: serializes an option-free
/// 20-byte TCP header with the given ports, numbers, window and flags;
/// the checksum field is written as constructed, not computed.
#[verifier::external_body]
pub(crate) fn encode_tcp(
    src_port: u16,
    dst_port: u16,
    seq: u32,
    ack: u32,
    window: u16,
    syn: bool,
    ack_flag: bool,
    fin: bool,
    rst: bool,
) -> (r: Vec<u8>)
    ensures
        r@ == tcp_header_bytes(src_port, dst_port, seq, ack, window, syn, ack_flag, fin, rst),
        r@.len() == TCP_HEADER_LEN,
{
    let mut h = etherparse::TcpHeader::new(src_port, dst_port, seq, window);
    h.acknowledgment_number = ack;
    h.syn = syn;
    h.ack = ack_flag;
    h.fin = fin;
    h.rst = rst;
    let mut out: Vec<u8> = Vec::new();
    h.write(&mut out).unwrap();
    out
}

} // verus!
