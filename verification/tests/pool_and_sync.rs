use umbral::pool::{probe_healthy, Acquire, Pool, ProbeOutcome};
use umbral::sync_client::{send_begin, send_step, ExchangeResult, SendAction};

fn acquired_id(a: Acquire) -> usize {
    match a {
        Acquire::Reuse(id) => id,
        Acquire::Create(id) => id,
        Acquire::Wait => panic!("expected a connection, got a wait"),
    }
}

#[test]
fn pool_capacity_bounds_concurrent_borrowers() {
    // capacity 2: the third concurrent borrower waits, no third connection
    let mut pool = Pool::new(2);
    let a = pool.try_acquire();
    assert!(matches!(a, Acquire::Create(_)));
    let b = pool.try_acquire();
    assert!(matches!(b, Acquire::Create(_)));
    let c = pool.try_acquire();
    assert!(matches!(c, Acquire::Wait));
    // once one is returned, the waiter is served with that very connection
    let id_a = acquired_id(a);
    pool.release(id_a, true);
    let d = pool.try_acquire();
    assert!(matches!(d, Acquire::Reuse(id) if id == id_a));
}

#[test]
fn two_borrowers_hold_distinct_connections() {
    let mut pool = Pool::new(3);
    let a = acquired_id(pool.try_acquire());
    let b = acquired_id(pool.try_acquire());
    assert_ne!(a, b);
}

#[test]
fn unhealthy_connection_is_discarded_not_reused() {
    let mut pool = Pool::new(1);
    let a = acquired_id(pool.try_acquire());
    pool.release(a, false);
    // the slot is free again, but the next borrower opens a new connection
    let b = pool.try_acquire();
    assert!(matches!(b, Acquire::Create(_)));
}

#[test]
fn probe_validation_matches_recycle_policy() {
    assert!(probe_healthy(&ProbeOutcome::Wrote(0)));
    assert!(probe_healthy(&ProbeOutcome::WouldBlock));
    assert!(!probe_healthy(&ProbeOutcome::Broken));
}

#[test]
fn sync_send_returns_first_reply() {
    let mut s = send_begin();
    let a = send_step(&mut s, ExchangeResult::Reply(b"pong".to_vec()));
    match a {
        SendAction::ReturnReply(p) => assert_eq!(p, b"pong".to_vec()),
        _ => panic!("expected the reply"),
    }
    assert!(s.done);
    assert_eq!(s.attempts, 1);
}

#[test]
fn sync_send_reconnects_once_then_succeeds() {
    let mut s = send_begin();
    let a = send_step(&mut s, ExchangeResult::IoFailure(b"broken pipe".to_vec()));
    assert!(matches!(a, SendAction::DiscardAndRetry));
    assert!(!s.done);
    let b = send_step(&mut s, ExchangeResult::Reply(b"pong".to_vec()));
    match b {
        SendAction::ReturnReply(p) => assert_eq!(p, b"pong".to_vec()),
        _ => panic!("expected the reply after the retry"),
    }
    assert!(s.done);
}

#[test]
fn sync_send_surfaces_second_failure_without_third_attempt() {
    let mut s = send_begin();
    let a = send_step(&mut s, ExchangeResult::IoFailure(b"broken pipe".to_vec()));
    assert!(matches!(a, SendAction::DiscardAndRetry));
    let b = send_step(&mut s, ExchangeResult::IoFailure(b"still broken".to_vec()));
    match b {
        SendAction::ReturnError(m) => assert_eq!(m, b"still broken".to_vec()),
        _ => panic!("expected the error to surface"),
    }
    // the call has concluded after exactly two attempts: no third exchange
    assert!(s.done);
    assert_eq!(s.attempts, 2);
}
