use ntcp::seqnum::{is_boundary_valid, wrapping_lt};
use ntcp::tcb::{ack_acceptable, segment_acceptable};

#[test]
fn precedes_is_irreflexive() {
    assert!(!wrapping_lt(0, 0));
    assert!(!wrapping_lt(12345, 12345));
    assert!(!wrapping_lt(u32::MAX, u32::MAX));
}

#[test]
fn precedes_is_asymmetric_in_the_middle() {
    assert!(wrapping_lt(100, 200));
    assert!(!wrapping_lt(200, 100));
}

#[test]
fn precedes_holds_across_the_wrap_boundary() {
    // 0xFFFFFFF0 is 21 octets before 5 in the circular space.
    assert!(wrapping_lt(0xFFFF_FFF0, 5));
    assert!(!wrapping_lt(5, 0xFFFF_FFF0));
}

#[test]
fn precedes_is_undecided_only_at_half_the_space() {
    // Exactly half the space apart: neither direction precedes.
    let a: u32 = 7;
    let b: u32 = 7u32.wrapping_add(0x8000_0000);
    assert!(!wrapping_lt(a, b));
    assert!(!wrapping_lt(b, a));
}

#[test]
fn boundary_test_is_an_open_interval() {
    assert!(is_boundary_valid(100, 150, 200));
    assert!(!is_boundary_valid(100, 100, 200));
    assert!(!is_boundary_valid(100, 200, 200));
}

#[test]
fn boundary_test_wraps() {
    assert!(is_boundary_valid(0xFFFF_FFF0, 2, 10));
    assert!(!is_boundary_valid(0xFFFF_FFF0, 11, 10));
}

#[test]
fn acceptable_ack_boundaries() {
    // send.una = 100, send.next = 200.
    assert!(ack_acceptable(100, 200, 150));
    assert!(ack_acceptable(100, 200, 101));
    assert!(ack_acceptable(100, 200, 200));
    assert!(!ack_acceptable(100, 200, 100));
    assert!(!ack_acceptable(100, 200, 201));
}

#[test]
fn zero_window_accepts_only_an_empty_segment_at_next() {
    // recv.next = 1000, recv.window = 0.
    assert!(segment_acceptable(1000, 0, 1000, 0));
    assert!(!segment_acceptable(1000, 0, 1001, 0));
    assert!(!segment_acceptable(1000, 0, 999, 0));
    assert!(!segment_acceptable(1000, 0, 1000, 1));
    assert!(!segment_acceptable(1000, 0, 999, 5));
}

#[test]
fn nonzero_window_accepts_first_or_last_octet_inside() {
    // recv.next = 1000, recv.window = 10, so the window is [1000, 1010).
    assert!(segment_acceptable(1000, 10, 1000, 0));
    assert!(!segment_acceptable(1000, 10, 999, 0));
    assert!(segment_acceptable(1000, 10, 1009, 1));
    assert!(!segment_acceptable(1000, 10, 1010, 1));
    // First octet before the window, last octet inside it.
    assert!(segment_acceptable(1000, 10, 995, 10));
    // Entirely before the window.
    assert!(!segment_acceptable(1000, 10, 995, 3));
    // A segment never has an acceptable octet in an empty space.
    assert!(!segment_acceptable(1000, 10, 1010, 0));
}
