use payvia::{Payvia, PayviaError};

fn s(x: &str) -> String {
    x.to_string()
}

fn funded(user: &str, amount: i128) -> Payvia {
    let mut p = Payvia::new();
    p.init(s("admin")).unwrap();
    p.register_user(s(user), s("555-0100")).unwrap();
    p.deposit(&s(user), amount).unwrap();
    p
}

#[test]
fn bill_payment_scenario() {
    let mut p = funded("u", 1000);
    let id = p.pay_bill(s("u"), s("electricity"), s("ACC123"), 300, 1700000000).unwrap();
    assert!(id.starts_with("bill_"));
    assert_eq!(id, "bill_1700000000_0");
    assert_eq!(p.get_balance(&s("u")), Ok(700));
    let listed = p.get_bill_payments(&s("u"));
    assert_eq!(listed.len(), 1);
    assert_eq!(listed[0].id, id);
    assert_eq!(listed[0].status, "pending");
    assert_eq!(listed[0].amount, 300);
    assert_eq!(listed[0].bill_type, "electricity");
    assert_eq!(listed[0].account_number, "ACC123");
    assert_eq!(listed[0].timestamp, 1700000000);
    assert_eq!(
        p.pay_bill(s("u"), s("electricity"), s("ACC123"), 800, 1700000005),
        Err(PayviaError::InsufficientBalance)
    );
    assert_eq!(p.get_balance(&s("u")), Ok(700));
    assert_eq!(p.get_bill_payments(&s("u")).len(), 1);
}

#[test]
fn bill_status_only_by_admin() {
    let mut p = funded("u", 1000);
    let id = p.pay_bill(s("u"), s("water"), s("W9"), 100, 42).unwrap();
    assert_eq!(p.update_bill_status(&s("u"), &id, s("paid")), Err(PayviaError::Unauthorized));
    assert_eq!(p.get_bill_payments(&s("u"))[0].status, "pending");
    assert_eq!(p.update_bill_status(&s("admin"), &id, s("paid")), Ok(()));
    let listed = p.get_bill_payments(&s("u"));
    assert_eq!(listed[0].id, id);
    assert_eq!(listed[0].status, "paid");
    assert_eq!(p.update_bill_status(&s("admin"), &id, s("pending")), Ok(()));
    assert_eq!(p.get_bill_payments(&s("u"))[0].status, "pending");
}

#[test]
fn bill_status_unknown_id() {
    let mut p = funded("u", 10);
    assert_eq!(
        p.update_bill_status(&s("admin"), &s("bill_1"), s("paid")),
        Err(PayviaError::PaymentNotFound)
    );
}

#[test]
fn bill_payment_errors() {
    let mut p = funded("u", 10);
    assert_eq!(p.pay_bill(s("x"), s("t"), s("a"), 1, 5), Err(PayviaError::UserNotFound));
    assert_eq!(p.pay_bill(s("u"), s("t"), s("a"), 4, 5), Ok(s("bill_5_0")));
    assert_eq!(p.pay_bill(s("u"), s("t"), s("a"), 4, 5), Ok(s("bill_5_1")));
    assert_eq!(p.get_balance(&s("u")), Ok(2));
    assert_eq!(p.pay_bill(s("u"), s("t"), s("a"), 2, 0), Ok(s("bill_0_2")));
    assert_eq!(p.get_balance(&s("u")), Ok(0));
    let ids: Vec<String> = p.get_bill_payments(&s("u")).into_iter().map(|b| b.id).collect();
    assert_eq!(ids, vec![s("bill_5_0"), s("bill_5_1"), s("bill_0_2")]);
}

#[test]
fn bill_payment_amount_must_be_positive() {
    let mut p = funded("u", 100);
    assert_eq!(p.pay_bill(s("u"), s("t"), s("a"), -100, 5), Err(PayviaError::InvalidAmount));
    assert_eq!(p.pay_bill(s("u"), s("t"), s("a"), 0, 5), Err(PayviaError::InvalidAmount));
    assert_eq!(p.get_balance(&s("u")), Ok(100));
    assert!(p.get_bill_payments(&s("u")).is_empty());
}

#[test]
fn payments_listed_per_owner_in_order() {
    let mut p = funded("u", 100);
    p.register_user(s("v"), s("555-0200")).unwrap();
    p.deposit(&s("v"), 100).unwrap();
    p.pay_bill(s("u"), s("a"), s("1"), 1, 10).unwrap();
    p.pay_bill(s("v"), s("b"), s("2"), 2, 11).unwrap();
    p.pay_bill(s("u"), s("c"), s("3"), 3, 12).unwrap();
    let u: Vec<String> = p.get_bill_payments(&s("u")).into_iter().map(|b| b.id).collect();
    assert_eq!(u, vec![s("bill_10_0"), s("bill_12_2")]);
    let v: Vec<String> = p.get_bill_payments(&s("v")).into_iter().map(|b| b.id).collect();
    assert_eq!(v, vec![s("bill_11_1")]);
    assert!(p.get_bill_payments(&s("w")).is_empty());
}

#[test]
fn withdrawal_scenario() {
    let mut p = funded("u", 1000);
    let id = p.withdraw(s("u"), s("mobile_money"), s("0772000000"), 250, 925000, 1699999999).unwrap();
    assert_eq!(id, "withdraw_1699999999_0");
    assert_eq!(p.get_balance(&s("u")), Ok(750));
    let listed = p.get_withdrawals(&s("u"));
    assert_eq!(listed.len(), 1);
    assert_eq!(listed[0].usdc_amount, 250);
    assert_eq!(listed[0].ugx_amount, 925000);
    assert_eq!(listed[0].method, "mobile_money");
    assert_eq!(listed[0].status, "pending");
    assert_eq!(
        p.withdraw(s("u"), s("bank"), s("1"), 751, 1, 7),
        Err(PayviaError::InsufficientBalance)
    );
    assert_eq!(p.withdraw(s("x"), s("bank"), s("1"), 1, 1, 7), Err(PayviaError::UserNotFound));
    assert_eq!(p.withdraw(s("u"), s("bank"), s("1"), 0, 1, 7), Err(PayviaError::InvalidAmount));
    assert_eq!(p.withdraw(s("u"), s("bank"), s("1"), -3, 1, 7), Err(PayviaError::InvalidAmount));
    assert_eq!(p.get_balance(&s("u")), Ok(750));
    assert_eq!(
        p.withdraw(s("u"), s("bank"), s("1"), 50, 185000, 1699999999),
        Ok(s("withdraw_1699999999_1"))
    );
    assert_eq!(p.get_balance(&s("u")), Ok(700));
}

#[test]
fn withdrawal_status_only_by_admin() {
    let mut p = funded("u", 1000);
    let id = p.withdraw(s("u"), s("bank"), s("B1"), 100, 370000, 3).unwrap();
    assert_eq!(
        p.update_withdrawal_status(&s("u"), &id, s("done")),
        Err(PayviaError::Unauthorized)
    );
    assert_eq!(p.get_withdrawals(&s("u"))[0].status, "pending");
    assert_eq!(p.update_withdrawal_status(&s("admin"), &id, s("done")), Ok(()));
    assert_eq!(p.get_withdrawals(&s("u"))[0].status, "done");
    assert_eq!(
        p.update_withdrawal_status(&s("admin"), &s("withdraw_3_1"), s("done")),
        Err(PayviaError::WithdrawalNotFound)
    );
}

#[test]
fn status_updates_refused_without_administrator() {
    let mut p = Payvia::new();
    p.register_user(s("u"), s("555-0100")).unwrap();
    p.deposit(&s("u"), 10).unwrap();
    let id = p.pay_bill(s("u"), s("t"), s("a"), 1, 9).unwrap();
    assert_eq!(p.update_bill_status(&s("admin"), &id, s("paid")), Err(PayviaError::Unauthorized));
    assert_eq!(p.get_bill_payments(&s("u"))[0].status, "pending");
}
