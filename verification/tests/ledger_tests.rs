use payment_ledger::ledger::PaymentContract;
use payment_ledger::payment::Address;
use payment_ledger::payment::Error;
use payment_ledger::payment::PaymentStatus;

#[test]
fn test_create_payment() {
    let mut ledger = PaymentContract::new();

    let customer = Address { id: 1 };
    let merchant = Address { id: 2 };
    let token = Address { id: 3 };
    let amount = 1000_i128;

    let payment_id = ledger.create_payment(customer, merchant, amount, token, 0);
    assert_eq!(payment_id, 1);

    let payment = ledger.get_payment(payment_id);
    assert_eq!(payment.id, 1);
    assert_eq!(payment.customer, customer);
    assert_eq!(payment.merchant, merchant);
    assert_eq!(payment.amount, amount);
    assert_eq!(payment.token, token);
}

#[test]
fn test_get_payment() {
    let mut ledger = PaymentContract::new();

    let customer = Address { id: 1 };
    let merchant = Address { id: 2 };
    let token = Address { id: 3 };
    let amount = 5000_i128;

    let payment_id = ledger.create_payment(customer, merchant, amount, token, 0);

    let payment = ledger.get_payment(payment_id);

    assert_eq!(payment.id, payment_id);
    assert_eq!(payment.customer, customer);
    assert_eq!(payment.merchant, merchant);
    assert_eq!(payment.amount, amount);
    assert_eq!(payment.token, token);
    assert_eq!(payment.status, PaymentStatus::Pending);
}

#[test]
#[should_panic]
fn test_get_payment_not_found() {
    let ledger = PaymentContract::new();

    ledger.get_payment(999);
}

#[test]
fn test_complete_payment_success() {
    let mut ledger = PaymentContract::new();

    let customer = Address { id: 1 };
    let merchant = Address { id: 2 };
    let admin = Address { id: 4 };
    let token = Address { id: 3 };
    let amount = 1000_i128;

    let payment_id = ledger.create_payment(customer, merchant, amount, token, 0);

    // Complete the payment
    assert!(ledger.complete_payment(admin, payment_id).is_ok());

    // Verify status changed to Completed
    let payment = ledger.get_payment(payment_id);
    assert_eq!(payment.status, PaymentStatus::Completed);
}

#[test]
fn test_refund_payment_success() {
    let mut ledger = PaymentContract::new();

    let customer = Address { id: 1 };
    let merchant = Address { id: 2 };
    let admin = Address { id: 4 };
    let token = Address { id: 3 };
    let amount = 2000_i128;

    let payment_id = ledger.create_payment(customer, merchant, amount, token, 0);

    // Refund the payment
    assert!(ledger.refund_payment(admin, payment_id).is_ok());

    // Verify status changed to Refunded
    let payment = ledger.get_payment(payment_id);
    assert_eq!(payment.status, PaymentStatus::Refunded);
}

#[test]
fn test_complete_payment_not_found() {
    let mut ledger = PaymentContract::new();

    let admin = Address { id: 4 };

    let result = ledger.complete_payment(admin, 999);
    assert_eq!(result, Err(Error::PaymentNotFound));
}

#[test]
fn test_refund_payment_not_found() {
    let mut ledger = PaymentContract::new();

    let admin = Address { id: 4 };

    let result = ledger.refund_payment(admin, 999);
    assert_eq!(result, Err(Error::PaymentNotFound));
}

#[test]
fn test_complete_already_completed_payment() {
    let mut ledger = PaymentContract::new();

    let customer = Address { id: 1 };
    let merchant = Address { id: 2 };
    let admin = Address { id: 4 };
    let token = Address { id: 3 };
    let amount = 1000_i128;

    let payment_id = ledger.create_payment(customer, merchant, amount, token, 0);

    // Complete the payment first time
    assert!(ledger.complete_payment(admin, payment_id).is_ok());

    // A second attempt is a duplicate request: it fails cleanly and the
    // record keeps its terminal status.
    let result = ledger.complete_payment(admin, payment_id);
    assert_eq!(result, Err(Error::AlreadyProcessed));
    assert_eq!(ledger.get_payment(payment_id).status, PaymentStatus::Completed);
}

#[test]
fn test_refund_already_refunded_payment() {
    let mut ledger = PaymentContract::new();

    let customer = Address { id: 1 };
    let merchant = Address { id: 2 };
    let admin = Address { id: 4 };
    let token = Address { id: 3 };
    let amount = 2000_i128;

    let payment_id = ledger.create_payment(customer, merchant, amount, token, 0);

    // Refund the payment first time
    assert!(ledger.refund_payment(admin, payment_id).is_ok());

    // A second attempt is a duplicate request: it fails cleanly and the
    // record keeps its terminal status.
    let result = ledger.refund_payment(admin, payment_id);
    assert_eq!(result, Err(Error::AlreadyProcessed));
    assert_eq!(ledger.get_payment(payment_id).status, PaymentStatus::Refunded);
}

#[test]
fn test_complete_refunded_payment() {
    let mut ledger = PaymentContract::new();

    let customer = Address { id: 1 };
    let merchant = Address { id: 2 };
    let admin = Address { id: 4 };
    let token = Address { id: 3 };
    let amount = 1000_i128;

    let payment_id = ledger.create_payment(customer, merchant, amount, token, 0);

    // Refund the payment first
    assert!(ledger.refund_payment(admin, payment_id).is_ok());

    // Completing a refunded payment is an ordering error by the caller.
    let result = ledger.complete_payment(admin, payment_id);
    assert_eq!(result, Err(Error::InvalidStatus));
    assert_eq!(ledger.get_payment(payment_id).status, PaymentStatus::Refunded);
}

#[test]
fn test_refund_completed_payment() {
    let mut ledger = PaymentContract::new();

    let customer = Address { id: 1 };
    let merchant = Address { id: 2 };
    let admin = Address { id: 4 };
    let token = Address { id: 3 };
    let amount = 2000_i128;

    let payment_id = ledger.create_payment(customer, merchant, amount, token, 0);

    // Complete the payment first
    assert!(ledger.complete_payment(admin, payment_id).is_ok());

    // Refunding a completed payment is an ordering error by the caller.
    let result = ledger.refund_payment(admin, payment_id);
    assert_eq!(result, Err(Error::InvalidStatus));
    assert_eq!(ledger.get_payment(payment_id).status, PaymentStatus::Completed);
}

#[test]
fn test_multiple_payments_correct_modification() {
    let mut ledger = PaymentContract::new();

    let customer1 = Address { id: 1 };
    let customer2 = Address { id: 5 };
    let merchant = Address { id: 2 };
    let admin = Address { id: 4 };
    let token = Address { id: 3 };

    // Create two payments
    let payment_id1 = ledger.create_payment(customer1, merchant, 1000_i128, token, 0);
    let payment_id2 = ledger.create_payment(customer2, merchant, 2000_i128, token, 0);

    // Complete first payment
    assert!(ledger.complete_payment(admin, payment_id1).is_ok());

    // Check both payments have correct status
    let payment1 = ledger.get_payment(payment_id1);
    let payment2 = ledger.get_payment(payment_id2);

    assert_eq!(payment1.status, PaymentStatus::Completed);
    assert_eq!(payment2.status, PaymentStatus::Pending);
}
