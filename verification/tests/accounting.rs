use dockify::ledger::CreditLedger;
use dockify::ports::PortAllocator;

#[test]
fn unknown_user_reads_as_zero() {
    let ledger = CreditLedger::new();
    assert_eq!(ledger.balance(&"nobody".to_string()), 0);
}

#[test]
fn reservation_debits_exactly_the_amount() {
    let mut ledger = CreditLedger::new();
    let user = "alice".to_string();
    ledger.set_credits(&user, 100);
    assert!(ledger.reserve_and_debit(&user, 30));
    assert_eq!(ledger.balance(&user), 70);
}

#[test]
fn refused_reservation_mutates_nothing() {
    let mut ledger = CreditLedger::new();
    let user = "alice".to_string();
    ledger.set_credits(&user, 10);
    assert!(!ledger.reserve_and_debit(&user, 11));
    assert_eq!(ledger.balance(&user), 10);
}

#[test]
fn reservation_on_the_exact_balance_is_granted() {
    let mut ledger = CreditLedger::new();
    let user = "alice".to_string();
    ledger.set_credits(&user, 23);
    assert!(ledger.reserve_and_debit(&user, 23));
    assert_eq!(ledger.balance(&user), 0);
}

#[test]
fn balance_never_goes_negative_through_reservations() {
    let mut ledger = CreditLedger::new();
    let user = "alice".to_string();
    ledger.set_credits(&user, 5);
    assert!(ledger.reserve_and_debit(&user, 5));
    assert!(!ledger.reserve_and_debit(&user, 1));
    assert!(!ledger.reserve_and_debit(&user, 5));
    assert!(ledger.balance(&user) >= 0);
    assert_eq!(ledger.balance(&user), 0);
}

#[test]
fn racing_reservations_grant_exactly_one() {
    // A balance that covers exactly one container: of two requests, the one
    // whose debit lands first wins and the other is refused.
    let mut ledger = CreditLedger::new();
    let user = "bob".to_string();
    ledger.set_credits(&user, 23);
    let first = ledger.reserve_and_debit(&user, 23);
    let second = ledger.reserve_and_debit(&user, 23);
    assert!(first);
    assert!(!second);
    assert_eq!(ledger.balance(&user), 0);
}

#[test]
fn credit_undoes_a_reservation() {
    let mut ledger = CreditLedger::new();
    let user = "alice".to_string();
    ledger.set_credits(&user, 40);
    assert!(ledger.reserve_and_debit(&user, 15));
    ledger.credit(&user, 15);
    assert_eq!(ledger.balance(&user), 40);
}

#[test]
fn credit_creates_the_row_when_missing() {
    let mut ledger = CreditLedger::new();
    let user = "fresh".to_string();
    ledger.credit(&user, 7);
    assert_eq!(ledger.balance(&user), 7);
}

#[test]
fn reservations_touch_only_their_user() {
    let mut ledger = CreditLedger::new();
    let alice = "alice".to_string();
    let bob = "bob".to_string();
    ledger.set_credits(&alice, 50);
    ledger.set_credits(&bob, 60);
    assert!(ledger.reserve_and_debit(&alice, 20));
    assert_eq!(ledger.balance(&bob), 60);
}

#[test]
fn admin_adjustment_may_set_a_negative_balance() {
    let mut ledger = CreditLedger::new();
    let user = "indebted".to_string();
    ledger.set_credits(&user, -12);
    assert_eq!(ledger.balance(&user), -12);
}

#[test]
fn leases_start_at_the_bottom_of_the_range_and_differ() {
    let mut ports = PortAllocator::new();
    let p1 = ports.lease().unwrap();
    let p2 = ports.lease().unwrap();
    assert_eq!(p1, 59001);
    assert_eq!(p2, 59002);
    assert_ne!(p1, p2);
    assert!(ports.holds_lease(p1));
    assert!(ports.holds_lease(p2));
}

#[test]
fn releasing_makes_a_port_reusable() {
    let mut ports = PortAllocator::new();
    let p1 = ports.lease().unwrap();
    ports.release(p1);
    assert!(!ports.holds_lease(p1));
    let p2 = ports.lease().unwrap();
    assert_eq!(p1, p2);
}

#[test]
fn releasing_a_free_port_is_a_no_op() {
    let mut ports = PortAllocator::new();
    let p1 = ports.lease().unwrap();
    ports.release(59500);
    ports.release(59500);
    assert!(ports.holds_lease(p1));
    assert!(!ports.holds_lease(59500));
}

#[test]
fn the_range_exhausts_after_999_leases() {
    let mut ports = PortAllocator::new();
    for expected in 59001u16..60000 {
        assert_eq!(ports.lease(), Some(expected));
    }
    assert_eq!(ports.lease(), None);
}
