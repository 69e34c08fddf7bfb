use payvia::{Payvia, PayviaError};

fn s(x: &str) -> String {
    x.to_string()
}

fn admin_ledger() -> Payvia {
    let mut p = Payvia::new();
    p.init(s("admin")).unwrap();
    p
}

fn ledger_with(users: &[&str]) -> Payvia {
    let mut p = admin_ledger();
    for u in users {
        p.register_user(s(u), s("555-0000")).unwrap();
    }
    p
}

#[test]
fn register_twice_is_refused() {
    let mut p = admin_ledger();
    assert_eq!(p.register_user(s("u"), s("555-0100")), Ok(()));
    let user = p.get_user(&s("u")).unwrap();
    assert_eq!(user.balance, 0);
    assert!(!user.is_verified);
    assert_eq!(user.phone, "555-0100");
    assert_eq!(user.address, "u");
    assert_eq!(p.register_user(s("u"), s("555-0199")), Err(PayviaError::DuplicateAccount));
    assert_eq!(p.get_user(&s("u")).unwrap().phone, "555-0100");
}

#[test]
fn unknown_user_is_not_found() {
    let mut p = ledger_with(&["u"]);
    assert!(matches!(p.get_user(&s("v")), Err(PayviaError::UserNotFound)));
    assert_eq!(p.get_balance(&s("v")), Err(PayviaError::UserNotFound));
    assert_eq!(p.deposit(&s("v"), 10), Err(PayviaError::UserNotFound));
    assert_eq!(p.verify_user(&s("v")), Err(PayviaError::UserNotFound));
}

#[test]
fn verify_is_idempotent() {
    let mut p = ledger_with(&["u"]);
    assert_eq!(p.verify_user(&s("u")), Ok(()));
    assert_eq!(p.verify_user(&s("u")), Ok(()));
    assert!(p.get_user(&s("u")).unwrap().is_verified);
}

#[test]
fn deposit_adds_to_balance() {
    let mut p = ledger_with(&["u", "v"]);
    assert_eq!(p.deposit(&s("u"), 1000), Ok(()));
    assert_eq!(p.deposit(&s("u"), 234), Ok(()));
    assert_eq!(p.get_balance(&s("u")), Ok(1234));
    assert_eq!(p.get_balance(&s("v")), Ok(0));
}

#[test]
fn deposit_out_of_range_is_refused() {
    let mut p = ledger_with(&["u"]);
    assert_eq!(p.deposit(&s("u"), i128::MAX), Ok(()));
    assert_eq!(p.deposit(&s("u"), 1), Err(PayviaError::BalanceOverflow));
    assert_eq!(p.get_balance(&s("u")), Ok(i128::MAX));
}

#[test]
fn transfer_whole_balance_then_one_more() {
    let mut p = ledger_with(&["u", "v"]);
    p.deposit(&s("u"), 500).unwrap();
    assert_eq!(p.send_usdc(&s("u"), &s("v"), 500), Ok(()));
    assert_eq!(p.get_balance(&s("u")), Ok(0));
    assert_eq!(p.get_balance(&s("v")), Ok(500));
    assert_eq!(p.send_usdc(&s("u"), &s("v"), 1), Err(PayviaError::InsufficientBalance));
    assert_eq!(p.get_balance(&s("u")), Ok(0));
    assert_eq!(p.get_balance(&s("v")), Ok(500));
}

#[test]
fn transfer_insufficient_changes_nothing() {
    let mut p = ledger_with(&["a", "b"]);
    p.deposit(&s("a"), 99).unwrap();
    p.deposit(&s("b"), 7).unwrap();
    assert_eq!(p.send_usdc(&s("a"), &s("b"), 100), Err(PayviaError::InsufficientBalance));
    assert_eq!(p.get_balance(&s("a")), Ok(99));
    assert_eq!(p.get_balance(&s("b")), Ok(7));
}

#[test]
fn self_transfer_is_net_zero() {
    let mut p = ledger_with(&["a"]);
    p.deposit(&s("a"), 300).unwrap();
    assert_eq!(p.send_usdc(&s("a"), &s("a"), 300), Ok(()));
    assert_eq!(p.get_balance(&s("a")), Ok(300));
    assert_eq!(p.send_usdc(&s("a"), &s("a"), 301), Err(PayviaError::InsufficientBalance));
}

#[test]
fn transfer_with_missing_party() {
    let mut p = ledger_with(&["a"]);
    p.deposit(&s("a"), 10).unwrap();
    assert_eq!(p.send_usdc(&s("x"), &s("a"), 1), Err(PayviaError::SenderNotFound));
    assert_eq!(p.send_usdc(&s("a"), &s("x"), 1), Err(PayviaError::RecipientNotFound));
    assert_eq!(p.get_balance(&s("a")), Ok(10));
}

#[test]
fn transfer_out_of_range_is_refused() {
    let mut p = ledger_with(&["a", "b"]);
    p.deposit(&s("a"), 5).unwrap();
    p.deposit(&s("b"), i128::MAX).unwrap();
    assert_eq!(p.send_usdc(&s("a"), &s("b"), 5), Err(PayviaError::BalanceOverflow));
    assert_eq!(p.get_balance(&s("a")), Ok(5));
    assert_eq!(p.get_balance(&s("b")), Ok(i128::MAX));
}

#[test]
fn balances_stay_nonnegative_over_a_run() {
    let mut p = ledger_with(&["a", "b", "c"]);
    p.deposit(&s("a"), 100).unwrap();
    let _ = p.send_usdc(&s("a"), &s("b"), 60);
    let _ = p.send_usdc(&s("a"), &s("c"), 60);
    let _ = p.send_usdc(&s("b"), &s("c"), 60);
    let _ = p.pay_bill(s("c"), s("water"), s("W1"), 200, 1);
    let _ = p.withdraw(s("b"), s("mobile"), s("M1"), 1, 3700, 2);
    for u in ["a", "b", "c"] {
        assert!(p.get_balance(&s(u)).unwrap() >= 0);
    }
    assert_eq!(p.get_balance(&s("a")), Ok(40));
    assert_eq!(p.get_balance(&s("b")), Ok(0));
    assert_eq!(p.get_balance(&s("c")), Ok(60));
}

#[test]
fn error_messages() {
    assert_eq!(PayviaError::UserNotFound.message(), "User not found");
    assert_eq!(PayviaError::InsufficientBalance.message(), "Insufficient balance");
    assert_eq!(PayviaError::Unauthorized.message(), "Unauthorized");
}

#[test]
fn administrator_is_set_once() {
    let mut p = Payvia::new();
    assert_eq!(p.admin, None);
    assert_eq!(p.register_user(s("u"), s("555-0100")), Ok(()));
    assert_eq!(p.init(s("admin")), Ok(()));
    assert_eq!(p.init(s("other")), Err(PayviaError::AlreadyInitialized));
    assert_eq!(p.admin, Some(s("admin")));
    assert_eq!(p.get_balance(&s("u")), Ok(0));
}

#[test]
fn negative_deposit_cannot_go_below_zero() {
    let mut p = ledger_with(&["u"]);
    assert_eq!(p.deposit(&s("u"), -5), Err(PayviaError::InsufficientBalance));
    assert_eq!(p.get_balance(&s("u")), Ok(0));
    p.deposit(&s("u"), 10).unwrap();
    assert_eq!(p.deposit(&s("u"), -4), Ok(()));
    assert_eq!(p.get_balance(&s("u")), Ok(6));
    assert_eq!(p.deposit(&s("u"), -6), Ok(()));
    assert_eq!(p.get_balance(&s("u")), Ok(0));
    assert_eq!(p.deposit(&s("u"), i128::MIN), Err(PayviaError::InsufficientBalance));
    assert_eq!(p.get_balance(&s("u")), Ok(0));
}

#[test]
fn negative_transfer_is_refused() {
    let mut p = ledger_with(&["a", "b"]);
    assert_eq!(p.send_usdc(&s("a"), &s("b"), -5), Err(PayviaError::InvalidAmount));
    assert_eq!(p.get_balance(&s("a")), Ok(0));
    assert_eq!(p.get_balance(&s("b")), Ok(0));
    assert_eq!(p.send_usdc(&s("a"), &s("b"), 0), Ok(()));
    assert_eq!(p.send_usdc(&s("a"), &s("a"), -1), Err(PayviaError::InvalidAmount));
}
