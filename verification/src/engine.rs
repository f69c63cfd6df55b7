//! Datagram entry point of the transport core.
//!
//! One call handles one raw IPv4 datagram: parse the IPv4 header through
//! the codec, check the protocol, parse the TCP header, slice off the
//! payload, and route the segment through the connection table. Malformed
//! or non-TCP datagrams are reported and leave the table untouched.

use vstd::prelude::*;
use vstd::slice::slice_subrange;
use crate::codec::{ip_parse_of, parse_ipv4, parse_tcp, tcp_parse_of};
use crate::segment::{MAX_DATAGRAM_SIZE, TCP_PROTOCOL};
use crate::table::{process_post, ConnectionTable, ProcessOutcome};
use crate::tcb::reply_view;

verus! {

/// What became of one raw inbound datagram.
#[derive(Clone, Copy, PartialEq, Eq, Structural, Debug)]
pub enum DatagramOutcome {
    /// The buffer does not start with a well-formed IPv4 header.
    InvalidIpv4,
    /// The IPv4 header carries a protocol other than TCP.
    NotTcp,
    /// The IPv4 payload does not start with a well-formed TCP header.
    InvalidTcp,
    /// The segment was routed through the connection table.
    Handled(ProcessOutcome),
}

/// What `handle_datagram` does for one raw datagram: a malformed or
/// non-TCP datagram is dropped with the table exactly as it was; a parsed
/// one is routed as [`process_post`] states, with the payload being
/// whatever follows the two headers in the buffer.
pub open spec fn datagram_post(
    pre: ConnectionTable,
    post: ConnectionTable,
    b: Seq<u8>,
    outcome: DatagramOutcome,
    reply: Option<Seq<u8>>,
) -> bool {
    match ip_parse_of(b) {
        Option::None => {
            &&& outcome == DatagramOutcome::InvalidIpv4
            &&& post == pre
            &&& reply is None
        },
        Option::Some(ip) => {
            if ip.0.protocol != TCP_PROTOCOL {
                &&& outcome == DatagramOutcome::NotTcp
                &&& post == pre
                &&& reply is None
            } else {
                let rest = b.subrange(ip.1 as int, b.len() as int);
                match tcp_parse_of(rest) {
                    Option::None => {
                        &&& outcome == DatagramOutcome::InvalidTcp
                        &&& post == pre
                        &&& reply is None
                    },
                    Option::Some(tcp) => {
                        &&& outcome matches DatagramOutcome::Handled(po)
                        &&& process_post(
                            pre,
                            post,
                            ip.0,
                            tcp.0,
                            (rest.len() - tcp.1) as nat,
                            po,
                            reply,
                        )
                    },
                }
            }
        },
    }
}

/// Handle one raw IPv4 datagram, routing its TCP segment to the
/// connection table, and hand back the outcome and the reply datagram to
/// transmit, if the segment called for one.
pub fn handle_datagram(table: &mut ConnectionTable, buf: &[u8]) -> (r: (
    DatagramOutcome,
    Option<Vec<u8>>,
))
    requires
        old(table).wf(),
        buf@.len() <= MAX_DATAGRAM_SIZE,
    ensures
        final(table).wf(),
        datagram_post(*old(table), *final(table), buf@, r.0, reply_view(r.1)),
{
    match parse_ipv4(buf) {
        Option::None => (DatagramOutcome::InvalidIpv4, None),
        Option::Some((ip_hdr, ip_len)) => {
            if ip_hdr.protocol != TCP_PROTOCOL {
                (DatagramOutcome::NotTcp, None)
            } else {
                let rest = slice_subrange(buf, ip_len, buf.len());
                match parse_tcp(rest) {
                    Option::None => (DatagramOutcome::InvalidTcp, None),
                    Option::Some((tcp_hdr, tcp_len)) => {
                        let payload = slice_subrange(rest, tcp_len, rest.len());
                        let (outcome, reply) = table.process(&ip_hdr, &tcp_hdr, payload);
                        (DatagramOutcome::Handled(outcome), reply)
                    },
                }
            }
        },
    }
}

} // verus!
