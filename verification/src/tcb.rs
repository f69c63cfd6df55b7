//! Per-connection Transmission Control Block.
//!
//! A TCB is created by the passive-open `accept` path when an inbound SYN
//! arrives, and then driven by `on_packet` for every later segment of the
//! connection: the RFC 793 acceptable-ACK test, the window acceptability
//! test for the segment's sequence numbers, and the handshake-completing
//! transition from `SynRecv` to `Estab`. Everything past the handshake is
//! out of scope and reported as unsupported rather than guessed at.

use vstd::prelude::*;
use crate::codec::{encode_ipv4, encode_tcp, ipv4_header_bytes, tcp_header_bytes};
use crate::segment::{IpView, TcpView, IP_HEADER_LEN, IP_TTL, MAX_DATAGRAM_SIZE, MTU_SIZE, TCP_HEADER_LEN, TCP_PROTOCOL};
use crate::seqnum::{seq_add, seq_lt, seq_sub, seq_between, seq_add_exec, is_boundary_valid};

verus! {

/// Initial send sequence number of every accepted connection. Any value
/// is protocol-valid; a fixed one keeps the design simple.
pub const INITIAL_SEND_SEQ: u32 = 0;

/// Receive window advertised by every accepted connection.
pub const RECV_WINDOW: u16 = 1024;

/// Protocol state of a connection.
#[derive(Clone, Copy, PartialEq, Eq, Structural, Debug)]
pub enum State {
    Closed,
    Listen,
    SynRecv,
    Estab,
}

impl State {
    /// Whether the connection has completed its handshake. `Closed` and
    /// `Listen` are degenerate in the passive-open scope and excluded.
    pub fn is_synchronized(&self) -> (r: bool)
        requires
            !(*self is Closed),
            !(*self is Listen),
        ensures
            r == (*self is Estab),
    {
        match *self {
            State::SynRecv => false,
            State::Estab => true,
            State::Closed => false,
            State::Listen => false,
        }
    }
}

/// Send-direction sequence variables of a connection.
#[derive(Clone, Copy, PartialEq, Eq, Structural, Debug)]
pub struct SendSequence {
    /// Oldest unacknowledged sequence number.
    pub una: u32,
    /// Next sequence number to send.
    pub next: u32,
    /// Peer's advertised receive window.
    pub window: u16,
    /// Urgent flag (unused in this scope).
    pub up: bool,
    /// Sequence number of the last window update (unused in this scope).
    pub wl1: usize,
    /// Acknowledgment number of the last window update (unused in this scope).
    pub wl2: usize,
    /// Initial send sequence number.
    pub iss: u32,
}

/// Receive-direction sequence variables of a connection.
#[derive(Clone, Copy, PartialEq, Eq, Structural, Debug)]
pub struct RecvSequence {
    /// Next expected sequence number.
    pub next: u32,
    /// Our advertised receive window.
    pub window: u16,
    /// Urgent flag (unused in this scope).
    pub up: bool,
    /// Initial receive sequence number of the peer.
    pub irs: u32,
}

/// The outcome `on_packet` reports for one inbound segment.
#[derive(Clone, Copy, PartialEq, Eq, Structural, Debug)]
pub enum PacketOutcome {
    /// The segment failed a test and was dropped with no state change.
    Dropped,
    /// The segment failed the acceptable-ACK test before the connection
    /// was synchronized; a reset was built in reply, state unchanged.
    ResetSent,
    /// The segment completed the handshake; the connection is established.
    HandshakeComplete,
    /// The segment was acceptable but its processing lies beyond the
    /// handshake scope; it was ignored without corrupting state.
    Unsupported,
}

/// Transmission Control Block: one per connection, owned by the
/// connection-table entry, holding the sequence variables and the header
/// templates every outgoing segment is built from.
#[derive(Clone, Copy, PartialEq, Eq, Structural, Debug)]
pub struct TCB {
    pub state: State,
    pub send: SendSequence,
    pub recv: RecvSequence,
    /// IPv4 header template: source and destination are swapped relative
    /// to the inbound packet that created the connection.
    pub ip: IpView,
    /// TCP header template: ports swapped relative to the inbound packet;
    /// sequence and acknowledgment fields are refreshed on every send.
    pub tcp: TcpView,
}

/// RFC 793 acceptable-ACK test: the acknowledgment must cover something
/// actually sent and not already fully acknowledged, i.e. lie strictly
/// inside the circular interval `(una, next + 1)`.
pub open spec fn ack_acceptable_spec(una: u32, next: u32, ack: u32) -> bool {
    seq_between(una, ack, seq_add(next, 1))
}

/// Executable acceptable-ACK test.
pub fn ack_acceptable(una: u32, next: u32, ack: u32) -> (r: bool)
    ensures
        r == ack_acceptable_spec(una, next, ack),
{
    is_boundary_valid(una, ack, seq_add_exec(next, 1))
}

/// Octets of sequence space a segment occupies: its payload plus one for
/// each of SYN and FIN.
pub open spec fn segment_len(plen: nat, syn: bool, fin: bool) -> nat {
    plen + (if syn { 1nat } else { 0nat }) + (if fin { 1nat } else { 0nat })
}

/// RFC 793 window test for an inbound segment. A zero-length segment is
/// acceptable against a zero window only when it sits exactly at
/// `recv.next`; against a non-zero window its sequence number must fall in
/// the open interval around the window. A non-empty segment is never
/// acceptable against a zero window; otherwise its first or last octet
/// must fall inside the window.
pub open spec fn segment_acceptable_spec(rnext: u32, rwindow: u16, seq: u32, seg_len: nat) -> bool {
    let wend = seq_add(rnext, rwindow as u32);
    if seg_len == 0 {
        if rwindow == 0 {
            seq == rnext
        } else {
            seq_between(seq_sub(rnext, 1), seq, wend)
        }
    } else {
        if rwindow == 0 {
            false
        } else {
            seq_between(seq_sub(rnext, 1), seq, wend)
                || seq_between(seq_sub(rnext, 1), seq_add(seq, (seg_len - 1) as u32), wend)
        }
    }
}

/// Executable window test for an inbound segment.
pub fn segment_acceptable(rnext: u32, rwindow: u16, seq: u32, seg_len: u32) -> (r: bool)
    ensures
        r == segment_acceptable_spec(rnext, rwindow, seq, seg_len as nat),
{
    let wend = seq_add_exec(rnext, rwindow as u32);
    let start = rnext.wrapping_sub(1);
    if seg_len == 0 {
        if rwindow == 0 {
            seq == rnext
        } else {
            is_boundary_valid(start, seq, wend)
        }
    } else {
        if rwindow == 0 {
            false
        } else {
            is_boundary_valid(start, seq, wend)
                || is_boundary_valid(start, seq_add_exec(seq, seg_len - 1), wend)
        }
    }
}

impl TCB {
    /// Well-formedness: the state is one of the two live states of the
    /// passive-open scope, the unacknowledged edge never passes the send
    /// edge in circular order, the next expected receive sequence number
    /// is the peer's initial one plus the octets consumed so far (only
    /// the SYN, in this scope), and the template carries TCP.
    pub open spec fn wf(self) -> bool {
        &&& (self.state is SynRecv || self.state is Estab)
        &&& (self.send.una == self.send.next || seq_lt(self.send.una, self.send.next))
        &&& self.recv.next == seq_add(self.recv.irs, 1)
        &&& self.ip.protocol == TCP_PROTOCOL
    }
}

/// The TCB a successful passive open builds for an inbound SYN, after its
/// SYN+ACK has been sent: the SYN consumed one octet of send sequence
/// space, and the templates have source and destination swapped.
pub open spec fn accept_result(ip_hdr: IpView, tcp_hdr: TcpView) -> TCB {
    TCB {
        state: State::SynRecv,
        send: SendSequence {
            iss: INITIAL_SEND_SEQ,
            una: INITIAL_SEND_SEQ,
            next: seq_add(INITIAL_SEND_SEQ, 1),
            window: tcp_hdr.window,
            up: false,
            wl1: 0,
            wl2: 0,
        },
        recv: RecvSequence {
            irs: tcp_hdr.seq,
            next: seq_add(tcp_hdr.seq, 1),
            window: RECV_WINDOW,
            up: false,
        },
        ip: IpView { src: ip_hdr.dst, dst: ip_hdr.src, protocol: TCP_PROTOCOL },
        tcp: TcpView {
            src_port: tcp_hdr.dst_port,
            dst_port: tcp_hdr.src_port,
            seq: INITIAL_SEND_SEQ,
            ack: seq_add(tcp_hdr.seq, 1),
            window: RECV_WINDOW,
            syn: false,
            ack_flag: true,
            fin: false,
            rst: false,
        },
    }
}

/// The one datagram a successful passive open emits: a SYN+ACK whose
/// sequence number is the initial send sequence number and whose
/// acknowledgment number is the inbound sequence number plus one.
pub open spec fn accept_reply(ip_hdr: IpView, tcp_hdr: TcpView) -> Seq<u8> {
    ipv4_header_bytes(ip_hdr.dst, ip_hdr.src, IP_TTL, TCP_HEADER_LEN as u16)
        + tcp_header_bytes(
        tcp_hdr.dst_port,
        tcp_hdr.src_port,
        INITIAL_SEND_SEQ,
        seq_add(tcp_hdr.seq, 1),
        RECV_WINDOW,
        true,
        true,
        false,
        false,
    )
}

/// The reset datagram a TCB replies with: RST flag set, sequence and
/// acknowledgment numbers zeroed, no payload.
pub open spec fn reset_datagram(t: TCB) -> Seq<u8> {
    ipv4_header_bytes(t.ip.src, t.ip.dst, IP_TTL, TCP_HEADER_LEN as u16)
        + tcp_header_bytes(
        t.tcp.src_port,
        t.tcp.dst_port,
        0,
        0,
        t.tcp.window,
        false,
        t.tcp.ack_flag,
        false,
        true,
    )
}

/// How many payload octets fit an MTU-sized buffer next to the headers.
pub open spec fn payload_sent(plen: nat) -> nat {
    if plen <= MTU_SIZE - IP_HEADER_LEN - TCP_HEADER_LEN {
        plen
    } else {
        (MTU_SIZE - IP_HEADER_LEN - TCP_HEADER_LEN) as nat
    }
}

/// The datagram `send` emits for the given (already truncated) payload:
/// IPv4 header, TCP header taken from the template with the sequence and
/// acknowledgment fields refreshed from `send.next` and `recv.next`, then
/// the payload.
pub open spec fn sent_datagram(t: TCB, payload: Seq<u8>) -> Seq<u8> {
    ipv4_header_bytes(t.ip.src, t.ip.dst, IP_TTL, (TCP_HEADER_LEN + payload.len()) as u16)
        + tcp_header_bytes(
        t.tcp.src_port,
        t.tcp.dst_port,
        t.send.next,
        t.recv.next,
        t.tcp.window,
        t.tcp.syn,
        t.tcp.ack_flag,
        t.tcp.fin,
        t.tcp.rst,
    ) + payload
}

/// The TCB after a send of `sent` payload octets: `send.next` advances by
/// the octets sent plus one for each of SYN and FIN consumed, and those
/// flags are cleared on the template so they are not resent.
pub open spec fn after_send(t: TCB, sent: nat) -> TCB {
    let adv = sent + (if t.tcp.syn { 1nat } else { 0nat }) + (if t.tcp.fin { 1nat } else { 0nat });
    TCB {
        send: (SendSequence { next: seq_add(t.send.next, adv as u32), ..t.send }),
        tcp: (TcpView { seq: t.send.next, ack: t.recv.next, syn: false, fin: false, ..t.tcp }),
        ..t
    }
}

/// The TCB `on_packet` leaves behind, and the outcome it reports. An
/// unacceptable acknowledgment is answered with a reset while the
/// connection is unsynchronized and dropped silently afterwards; an
/// unacceptable segment is dropped; an acceptable segment completes the
/// handshake in `SynRecv` and is reported unsupported in `Estab`. No
/// rejected segment changes the TCB.
pub open spec fn on_packet_result(t: TCB, hdr: TcpView, plen: nat) -> (TCB, PacketOutcome) {
    let ack_ok = ack_acceptable_spec(t.send.una, t.send.next, hdr.ack);
    let seg_ok = segment_acceptable_spec(
        t.recv.next,
        t.recv.window,
        hdr.seq,
        segment_len(plen, hdr.syn, hdr.fin),
    );
    if !ack_ok {
        if t.state is Estab {
            (t, PacketOutcome::Dropped)
        } else {
            (t, PacketOutcome::ResetSent)
        }
    } else if !seg_ok {
        (t, PacketOutcome::Dropped)
    } else if t.state is SynRecv {
        ((TCB { state: State::Estab, ..t }), PacketOutcome::HandshakeComplete)
    } else {
        (t, PacketOutcome::Unsupported)
    }
}

/// The reply `on_packet` emits: a reset exactly when the acknowledgment
/// is unacceptable and the connection is not yet synchronized.
pub open spec fn on_packet_reply(t: TCB, hdr: TcpView, plen: nat) -> Option<Seq<u8>> {
    let ack_ok = ack_acceptable_spec(t.send.una, t.send.next, hdr.ack);
    if !ack_ok && !(t.state is Estab) {
        Some(reset_datagram(t))
    } else {
        None::<Seq<u8>>
    }
}

/// The bytes of an optional reply, for stating contracts over it.
pub open spec fn reply_view(r: Option<Vec<u8>>) -> Option<Seq<u8>> {
    match r {
        Some(v) => Some(v@),
        None => None::<Seq<u8>>,
    }
}

impl TCB {
    /// Passive open. An inbound segment without SYN creates no connection;
    /// an inbound SYN builds a TCB in `SynRecv` and emits exactly one
    /// SYN+ACK segment acknowledging the SYN.
    pub fn accept(ip_hdr: &IpView, tcp_hdr: &TcpView, _payload: &[u8]) -> (r: Option<(TCB, Vec<u8>)>)
        ensures
            !tcp_hdr.syn ==> r is None,
            tcp_hdr.syn ==> {
                &&& r is Some
                &&& r.unwrap().0 == accept_result(*ip_hdr, *tcp_hdr)
                &&& r.unwrap().0.wf()
                &&& r.unwrap().1@ == accept_reply(*ip_hdr, *tcp_hdr)
            },
    {
        if !tcp_hdr.syn {
            return None;
        }
        let iss: u32 = INITIAL_SEND_SEQ;
        let mut tcb = TCB {
            state: State::SynRecv,
            send: SendSequence {
                iss,
                una: iss,
                next: iss,
                window: tcp_hdr.window,
                up: false,
                wl1: 0,
                wl2: 0,
            },
            recv: RecvSequence {
                irs: tcp_hdr.seq,
                next: seq_add_exec(tcp_hdr.seq, 1),
                window: RECV_WINDOW,
                up: false,
            },
            ip: IpView { src: ip_hdr.dst, dst: ip_hdr.src, protocol: TCP_PROTOCOL },
            tcp: TcpView {
                src_port: tcp_hdr.dst_port,
                dst_port: tcp_hdr.src_port,
                seq: iss,
                ack: 0,
                window: RECV_WINDOW,
                syn: true,
                ack_flag: true,
                fin: false,
                rst: false,
            },
        };
        let empty: [u8; 0] = [];
        let (dgram, _sent) = tcb.send(&empty);
        proof {
            assert(tcb == accept_result(*ip_hdr, *tcp_hdr));
            assert(dgram@ =~= accept_reply(*ip_hdr, *tcp_hdr));
        }
        Some((tcb, dgram))
    }

    /// Reaction to one inbound segment of an existing connection: the
    /// acceptable-ACK test, the window test, then the state-specific step,
    /// exactly as [`on_packet_result`] and [`on_packet_reply`] state it.
    pub fn on_packet(&mut self, hdr: &TcpView, payload: &[u8]) -> (r: (PacketOutcome, Option<Vec<u8>>))
        requires
            old(self).wf(),
            payload@.len() <= MAX_DATAGRAM_SIZE,
        ensures
            final(self).wf(),
            *final(self) == on_packet_result(*old(self), *hdr, payload@.len()).0,
            r.0 == on_packet_result(*old(self), *hdr, payload@.len()).1,
            reply_view(r.1) == on_packet_reply(*old(self), *hdr, payload@.len()),
    {
        let ack_num = hdr.ack;
        if !ack_acceptable(self.send.una, self.send.next, ack_num) {
            if !self.state.is_synchronized() {
                let rst = self.send_reset();
                return (PacketOutcome::ResetSent, Some(rst));
            }
            return (PacketOutcome::Dropped, None);
        }

        let mut seg_len: u32 = payload.len() as u32;
        if hdr.fin {
            seg_len = seg_len + 1;
        }
        if hdr.syn {
            seg_len = seg_len + 1;
        }
        if !segment_acceptable(self.recv.next, self.recv.window, hdr.seq, seg_len) {
            return (PacketOutcome::Dropped, None);
        }

        match self.state {
            State::SynRecv => {
                self.state = State::Estab;
                (PacketOutcome::HandshakeComplete, None)
            },
            State::Estab => (PacketOutcome::Unsupported, None),
            State::Closed => (PacketOutcome::Unsupported, None),
            State::Listen => (PacketOutcome::Unsupported, None),
        }
    }

    /// Build the next outgoing segment from the header templates, sized to
    /// the MTU: sequence number from `send.next`, acknowledgment from
    /// `recv.next`, then advance `send.next` by the payload octets sent
    /// plus one for each of SYN and FIN, and clear those flags on the
    /// template. Returns the datagram and the payload octets included.
    pub(crate) fn send(&mut self, payload: &[u8]) -> (r: (Vec<u8>, usize))
        requires
            payload@.len() <= MAX_DATAGRAM_SIZE,
        ensures
            r.1 == payload_sent(payload@.len()),
            r.0@ == sent_datagram(*old(self), payload@.take(r.1 as int)),
            *final(self) == after_send(*old(self), r.1 as nat),
    {
        let cap: usize = MTU_SIZE - IP_HEADER_LEN - TCP_HEADER_LEN;
        let sent: usize = if payload.len() <= cap {
            payload.len()
        } else {
            cap
        };
        self.tcp.seq = self.send.next;
        self.tcp.ack = self.recv.next;

        let mut out = encode_ipv4(self.ip.src, self.ip.dst, IP_TTL, (TCP_HEADER_LEN + sent) as u16);
        let mut tcp_bytes = encode_tcp(
            self.tcp.src_port,
            self.tcp.dst_port,
            self.tcp.seq,
            self.tcp.ack,
            self.tcp.window,
            self.tcp.syn,
            self.tcp.ack_flag,
            self.tcp.fin,
            self.tcp.rst,
        );
        out.append(&mut tcp_bytes);

        let ghost head = out@;
        let mut k: usize = 0;
        while k < sent
            invariant
                k <= sent,
                sent <= payload@.len(),
                out@ == head + payload@.take(k as int),
            decreases sent - k,
        {
            out.push(*vstd::slice::slice_index_get(payload, k));
            proof {
                assert(out@ =~= head + payload@.take(k + 1));
            }
            k = k + 1;
        }

        let mut adv: u32 = sent as u32;
        if self.tcp.syn {
            adv = adv + 1;
            self.tcp.syn = false;
        }
        if self.tcp.fin {
            adv = adv + 1;
            self.tcp.fin = false;
        }
        self.send.next = self.send.next.wrapping_add(adv);
        proof {
            assert(out@ =~= head + payload@.take(sent as int));
        }
        (out, sent)
    }

    /// Build a reset segment: RST flag set, sequence and acknowledgment
    /// numbers zeroed, no payload. The TCB is not changed; a reset
    /// consumes no sequence space.
    pub fn send_reset(&self) -> (r: Vec<u8>)
        ensures
            r@ == reset_datagram(*self),
    {
        let mut out = encode_ipv4(self.ip.src, self.ip.dst, IP_TTL, TCP_HEADER_LEN as u16);
        let mut tcp_bytes = encode_tcp(
            self.tcp.src_port,
            self.tcp.dst_port,
            0,
            0,
            self.tcp.window,
            false,
            self.tcp.ack_flag,
            false,
            true,
        );
        out.append(&mut tcp_bytes);
        proof {
            assert(out@ =~= reset_datagram(*self));
        }
        out
    }
}

/// Handshake completion. A TCB fresh out of `accept` has exactly one
/// octet of sequence space outstanding (the SYN of its SYN+ACK), so an
/// otherwise-empty segment that sits at `recv.next` and acknowledges
/// `send.next` passes both acceptability tests and moves the connection
/// to `Estab`; one that acknowledges only `send.una` fails the
/// acceptable-ACK test, triggers a reset, and leaves the TCB unchanged.
pub proof fn lemma_handshake_completion(t: TCB, hdr: TcpView, plen: nat)
    requires
        t.state is SynRecv,
        t.send.next == seq_add(t.send.una, 1),
        t.recv.window > 0,
        plen == 0,
        !hdr.syn,
        !hdr.fin,
        hdr.seq == t.recv.next,
    ensures
        hdr.ack == t.send.next ==> on_packet_result(t, hdr, plen).0.state is Estab
            && on_packet_result(t, hdr, plen).1 == PacketOutcome::HandshakeComplete
            && on_packet_reply(t, hdr, plen) is None,
        hdr.ack == t.send.una ==> on_packet_result(t, hdr, plen).0 == t
            && on_packet_result(t, hdr, plen).1 == PacketOutcome::ResetSent
            && on_packet_reply(t, hdr, plen) == Some(reset_datagram(t)),
{
}

/// Handshake completion, end to end: the TCB built by the passive open
/// for an inbound SYN with sequence number `s` is moved to `Estab` by an
/// empty segment that sits at `s + 1` and acknowledges the initial send
/// sequence number plus one (the SYN+ACK's sequence space); the same
/// segment acknowledging only the initial send sequence number is
/// answered with a reset and moves nothing.
pub proof fn lemma_accept_then_complete(ip_hdr: IpView, tcp_hdr: TcpView, hdr: TcpView)
    requires
        tcp_hdr.syn,
        !hdr.syn,
        !hdr.fin,
        hdr.seq == seq_add(tcp_hdr.seq, 1),
    ensures
        hdr.ack == seq_add(INITIAL_SEND_SEQ, 1) ==> on_packet_result(
            accept_result(ip_hdr, tcp_hdr),
            hdr,
            0,
        ).0.state is Estab && on_packet_result(accept_result(ip_hdr, tcp_hdr), hdr, 0).1
            == PacketOutcome::HandshakeComplete,
        hdr.ack == INITIAL_SEND_SEQ ==> on_packet_result(accept_result(ip_hdr, tcp_hdr), hdr, 0).0
            == accept_result(ip_hdr, tcp_hdr) && on_packet_result(
            accept_result(ip_hdr, tcp_hdr),
            hdr,
            0,
        ).1 == PacketOutcome::ResetSent,
{
    lemma_handshake_completion(accept_result(ip_hdr, tcp_hdr), hdr, 0);
}

/// Idempotence of drops: whenever `on_packet` reports a segment dropped
/// or answered with a reset, the TCB — its `send` and `recv` variables,
/// its state, and its templates — is exactly what it was.
pub proof fn lemma_rejected_segment_leaves_tcb(t: TCB, hdr: TcpView, plen: nat)
    requires
        on_packet_result(t, hdr, plen).1 == PacketOutcome::Dropped
            || on_packet_result(t, hdr, plen).1 == PacketOutcome::ResetSent,
    ensures
        on_packet_result(t, hdr, plen).0 == t,
{
}

} // verus!
