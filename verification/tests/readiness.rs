use raw_socket::retry::AsyncOp;
use raw_socket::retry::Attempt;

#[test]
fn starts_suspended() {
    let op: AsyncOp<i32> = AsyncOp::new();
    assert!(op.is_waiting());
    assert!(!op.is_attempting());
    assert!(!op.is_done());
}

#[test]
fn completes_only_after_a_finished_attempt() {
    // a receive issued before any data exists: the first readiness is
    // stale, the attempt reports would-block, and the operation suspends
    // again instead of returning early
    let mut op: AsyncOp<usize> = AsyncOp::new();
    op.on_readiness();
    assert!(op.is_attempting());
    let r = op.on_attempt(Attempt::WouldBlock);
    assert_eq!(r, None);
    assert!(op.is_waiting());
    assert!(!op.is_done());

    // a datagram arrives: real readiness, and the attempt finishes
    op.on_readiness();
    let r = op.on_attempt(Attempt::Finished(64usize));
    assert_eq!(r, Some(64));
    assert!(op.is_done());
}

#[test]
fn immediate_readiness_finishes_in_one_attempt() {
    let mut op: AsyncOp<Result<usize, i32>> = AsyncOp::new();
    op.on_readiness();
    let r = op.on_attempt(Attempt::Finished(Ok(3)));
    assert_eq!(r, Some(Ok(3)));
    assert!(op.is_done());
}

#[test]
fn non_would_block_error_finishes_the_operation() {
    let mut op: AsyncOp<Result<usize, i32>> = AsyncOp::new();
    op.on_readiness();
    // any outcome other than would-block propagates immediately
    let r = op.on_attempt(Attempt::Finished(Err(111)));
    assert_eq!(r, Some(Err(111)));
    assert!(op.is_done());
}

#[test]
fn repeated_would_block_keeps_waiting() {
    let mut op: AsyncOp<u8> = AsyncOp::new();
    for _ in 0..5 {
        op.on_readiness();
        assert_eq!(op.on_attempt(Attempt::WouldBlock), None);
        assert!(op.is_waiting());
    }
    op.on_readiness();
    assert_eq!(op.on_attempt(Attempt::Finished(1)), Some(1));
    assert!(op.is_done());
}
