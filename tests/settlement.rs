use walletka::{
    BlindedMessage, CashuMintReporitory, CashuService, FaucetQueryParams, InvoiceStatus, InvoiceTokenStatus, Promise,
    Proof, RequestMintParams, SettlementError,
};

fn s(x: &str) -> String {
    x.to_string()
}

fn out(amount_msat: u64) -> BlindedMessage {
    BlindedMessage { amount_msat, b: s("B") }
}

fn promise(amount_msat: u64) -> Promise {
    Promise { amount_msat, keyset_id: s("ks1"), c: s("C") }
}

fn spent_proof(secret: &str, amount_msat: u64) -> Proof {
    Proof { amount_msat, keyset_id: s("ks1"), secret: s(secret), c: s("c") }
}

/// A service with mint "m1" and a paid invoice "hash-1" of 1000 msat.
fn service_with_paid_invoice() -> CashuService {
    let mut svc = CashuService::init(s("http://mint"), CashuMintReporitory::new());
    svc.new_mint(s("m1"), s("ks1"), 32, 1000).unwrap();
    svc.request_mint(&s("m1"), s("h1"), s("hash-1"), 1000, s("lnbc1")).unwrap();
    svc.handle_paid_invoice(&s("hash-1"), 1700).unwrap();
    svc
}

#[test]
fn request_mint_records_unpaid_invoice() {
    let mut svc = CashuService::init(s("http://mint"), CashuMintReporitory::new());
    svc.new_mint(s("m1"), s("ks1"), 32, 1000).unwrap();
    assert_eq!(svc.new_mint(s("m1"), s("ks9"), 32, 1000), Err(SettlementError::DuplicateMint));
    assert_eq!(svc.request_mint(&s("m9"), s("h1"), s("hash-1"), 1000, s("lnbc1")), Err(SettlementError::NotFound));
    svc.request_mint(&s("m1"), s("h1"), s("hash-1"), 1000, s("lnbc1")).unwrap();
    let inv = svc.repository.get_invoice_info(&s("h1")).unwrap();
    assert_eq!(inv.status, InvoiceStatus::Unpaid);
    assert_eq!(inv.mint_id, Some(s("m1")));
    assert_eq!(inv.amount_msat, 1000);
}

#[test]
fn mint_against_paid_invoice_issues_and_credits() {
    let mut svc = service_with_paid_invoice();
    let outputs = vec![out(512), out(256), out(232)];
    assert_eq!(svc.check_mint(&s("m1"), &s("hash-1"), &outputs), Ok(1000));
    let r = svc.process_mint(&s("m1"), &s("hash-1"), &outputs, Some(vec![promise(512), promise(256), promise(232)]));
    assert_eq!(r.unwrap().len(), 3);
    let inv = svc.repository.get_invoice_info_by_payment_hash(&s("hash-1")).unwrap();
    assert_eq!(inv.token_status, InvoiceTokenStatus::Issued);
    assert_eq!(svc.repository.get_in_circulation(&s("m1")), Ok(1000));
}

#[test]
fn mint_with_wrong_total_is_amount_mismatch() {
    let mut svc = service_with_paid_invoice();
    let r = svc.process_mint(&s("m1"), &s("hash-1"), &vec![out(512), out(256)], Some(vec![promise(768)]));
    assert_eq!(r.err(), Some(SettlementError::AmountMismatch));
    let inv = svc.repository.get_invoice_info_by_payment_hash(&s("hash-1")).unwrap();
    assert_eq!(inv.status, InvoiceStatus::Paid);
    assert_eq!(inv.token_status, InvoiceTokenStatus::NotIssued);
    assert_eq!(svc.repository.get_in_circulation(&s("m1")), Ok(0));
}

#[test]
fn mint_with_overflowing_total_is_amount_mismatch() {
    let mut svc = service_with_paid_invoice();
    let r = svc.process_mint(&s("m1"), &s("hash-1"), &vec![out(u64::MAX), out(1001)], Some(vec![]));
    assert_eq!(r.err(), Some(SettlementError::AmountMismatch));
}

#[test]
fn second_mint_on_same_hash_is_refused() {
    let mut svc = service_with_paid_invoice();
    let outputs = vec![out(1000)];
    assert!(svc.process_mint(&s("m1"), &s("hash-1"), &outputs, Some(vec![promise(1000)])).is_ok());
    let again = svc.process_mint(&s("m1"), &s("hash-1"), &outputs, Some(vec![promise(1000)]));
    assert_eq!(again.err(), Some(SettlementError::PreventDoubleIssuance));
    assert_eq!(svc.repository.get_in_circulation(&s("m1")), Ok(1000));
}

#[test]
fn mint_against_unpaid_invoice_is_refused() {
    let mut svc = CashuService::init(s("http://mint"), CashuMintReporitory::new());
    svc.new_mint(s("m1"), s("ks1"), 32, 1000).unwrap();
    svc.request_mint(&s("m1"), s("h1"), s("hash-1"), 1000, s("lnbc1")).unwrap();
    let r = svc.process_mint(&s("m1"), &s("hash-1"), &vec![out(1000)], Some(vec![promise(1000)]));
    assert_eq!(r.err(), Some(SettlementError::InvoiceNotPayable));
    let r = svc.process_mint(&s("m1"), &s("hash-404"), &vec![out(1000)], Some(vec![promise(1000)]));
    assert_eq!(r.err(), Some(SettlementError::NotFound));
}

#[test]
fn signing_failure_leaves_invoice_retriable() {
    let mut svc = service_with_paid_invoice();
    let outputs = vec![out(1000)];
    let r = svc.process_mint(&s("m1"), &s("hash-1"), &outputs, None);
    assert_eq!(r.err(), Some(SettlementError::SigningError));
    assert!(SettlementError::SigningError.is_retriable());
    assert!(!SettlementError::DoubleSpend.is_retriable());
    let inv = svc.repository.get_invoice_info_by_payment_hash(&s("hash-1")).unwrap();
    assert_eq!(inv.token_status, InvoiceTokenStatus::NotIssued);
    assert!(svc.process_mint(&s("m1"), &s("hash-1"), &outputs, Some(vec![promise(1000)])).is_ok());
}

#[test]
fn overlapping_splits_one_succeeds() {
    let mut svc = service_with_paid_invoice();
    let first = vec![spent_proof("s1", 8), spent_proof("s2", 8)];
    let second = vec![spent_proof("s3", 8), spent_proof("s2", 8)];
    let a = svc.process_split(&s("m1"), &first, Some(vec![promise(16)]));
    let b = svc.process_split(&s("m1"), &second, Some(vec![promise(16)]));
    assert_eq!(a.unwrap().len(), 1);
    assert_eq!(b.err(), Some(SettlementError::DoubleSpend));
    assert!(!svc.repository.is_spent(&s("m1"), &s("s3")));
}

#[test]
fn identical_splits_exactly_one_succeeds() {
    let mut svc = service_with_paid_invoice();
    let batch = vec![spent_proof("q1", 4)];
    let mut ok = 0;
    let mut double = 0;
    for _ in 0..5 {
        match svc.process_split(&s("m1"), &batch, Some(vec![promise(4)])) {
            Ok(_) => ok += 1,
            Err(SettlementError::DoubleSpend) => double += 1,
            Err(e) => panic!("unexpected {:?}", e),
        }
    }
    assert_eq!(ok, 1);
    assert_eq!(double, 4);
    assert_eq!(svc.repository.used_proofs.len(), 1);
}

#[test]
fn split_refused_by_engine_records_nothing() {
    let mut svc = service_with_paid_invoice();
    let r = svc.process_split(&s("m1"), &vec![spent_proof("s1", 8)], None);
    assert_eq!(r.err(), Some(SettlementError::VerifyError));
    assert!(!svc.repository.is_spent(&s("m1"), &s("s1")));
    let r = svc.process_split(&s("m9"), &vec![spent_proof("s1", 8)], Some(vec![]));
    assert_eq!(r.err(), Some(SettlementError::NotFound));
}

#[test]
fn melt_debits_paid_amount_and_change() {
    let mut svc = service_with_paid_invoice();
    svc.process_mint(&s("m1"), &s("hash-1"), &vec![out(1000)], Some(vec![promise(1000)])).unwrap();
    let proofs = vec![spent_proof("t1", 512), spent_proof("t2", 256)];
    assert_eq!(svc.check_melt(&s("m1"), &proofs, true), Ok(()));
    let change = svc.process_melt(&s("m1"), &proofs, 600, true, true, vec![promise(100)]).unwrap();
    assert_eq!(change.len(), 1);
    assert_eq!(svc.repository.get_in_circulation(&s("m1")), Ok(300));
    assert!(svc.repository.is_spent(&s("m1"), &s("t1")));
    assert_eq!(svc.check_melt(&s("m1"), &proofs, true), Err(SettlementError::DoubleSpend));
}

#[test]
fn failed_payment_keeps_proofs_spendable() {
    let mut svc = service_with_paid_invoice();
    svc.process_mint(&s("m1"), &s("hash-1"), &vec![out(1000)], Some(vec![promise(1000)])).unwrap();
    let proofs = vec![spent_proof("t1", 512)];
    let r = svc.process_melt(&s("m1"), &proofs, 500, true, false, vec![]);
    assert_eq!(r.err(), Some(SettlementError::PaymentFailed));
    assert!(!svc.repository.is_spent(&s("m1"), &s("t1")));
    assert_eq!(svc.repository.get_in_circulation(&s("m1")), Ok(1000));
    let r = svc.process_melt(&s("m1"), &proofs, 500, false, true, vec![]);
    assert_eq!(r.err(), Some(SettlementError::InsufficientProofs));
}

#[test]
fn melt_beyond_circulation_is_underflow() {
    let mut svc = service_with_paid_invoice();
    svc.process_mint(&s("m1"), &s("hash-1"), &vec![out(1000)], Some(vec![promise(1000)])).unwrap();
    let r = svc.process_melt(&s("m1"), &vec![spent_proof("t1", 2000)], 950, true, true, vec![promise(100)]);
    assert_eq!(r.err(), Some(SettlementError::LedgerUnderflow));
    assert!(!svc.repository.is_spent(&s("m1"), &s("t1")));
    assert_eq!(svc.repository.get_in_circulation(&s("m1")), Ok(1000));
}

#[test]
fn circulation_is_minted_less_melted_over_a_sequence() {
    let mut svc = service_with_paid_invoice();
    svc.request_mint(&s("m1"), s("h2"), s("hash-2"), 500, s("lnbc2")).unwrap();
    svc.handle_paid_invoice(&s("hash-2"), 1800).unwrap();
    svc.process_mint(&s("m1"), &s("hash-1"), &vec![out(1000)], Some(vec![promise(1000)])).unwrap();
    svc.process_mint(&s("m1"), &s("hash-2"), &vec![out(500)], Some(vec![promise(500)])).unwrap();
    svc.mint_token(&s("m1"), 250, Some(vec![promise(250)])).unwrap();
    svc.process_melt(&s("m1"), &vec![spent_proof("u1", 400)], 300, true, true, vec![promise(100)]).unwrap();
    // 1000 + 500 + 250 - (300 + 100)
    assert_eq!(svc.repository.get_in_circulation(&s("m1")), Ok(1350));
}

#[test]
fn mint_token_outcomes() {
    let mut svc = service_with_paid_invoice();
    assert_eq!(svc.mint_token(&s("m9"), 5, Some(vec![])).err(), Some(SettlementError::NotFound));
    assert_eq!(svc.mint_token(&s("m1"), 5, None).err(), Some(SettlementError::SigningError));
    assert_eq!(svc.repository.get_in_circulation(&s("m1")), Ok(0));
    assert!(svc.mint_token(&s("m1"), 5, Some(vec![promise(5)])).is_ok());
    assert_eq!(svc.repository.get_in_circulation(&s("m1")), Ok(5));
}

#[test]
fn amounts_in_satoshi_become_millisatoshi() {
    assert_eq!(RequestMintParams { amount: 21 }.amount_msat(), Some(21_000));
    assert_eq!(FaucetQueryParams { amount: 0 }.amount_msat(), Some(0));
    assert_eq!(FaucetQueryParams { amount: u64::MAX }.amount_msat(), None);
}

#[test]
fn invoice_of_another_mint_is_not_found() {
    let mut svc = service_with_paid_invoice();
    svc.new_mint(s("m2"), s("ks2"), 32, 0).unwrap();
    let r = svc.process_mint(&s("m2"), &s("hash-1"), &vec![out(1000)], Some(vec![promise(1000)]));
    assert_eq!(r.err(), Some(SettlementError::NotFound));
    assert_eq!(svc.repository.get_in_circulation(&s("m2")), Ok(0));
    assert_eq!(
        svc.repository.get_invoice_info_by_payment_hash(&s("hash-1")).unwrap().token_status,
        InvoiceTokenStatus::NotIssued
    );
}

#[test]
fn promises_not_adding_up_are_a_signing_error() {
    let mut svc = service_with_paid_invoice();
    let r = svc.process_mint(&s("m1"), &s("hash-1"), &vec![out(1000)], Some(vec![promise(999)]));
    assert_eq!(r.err(), Some(SettlementError::SigningError));
    assert_eq!(svc.repository.get_in_circulation(&s("m1")), Ok(0));
    assert_eq!(svc.mint_token(&s("m1"), 5, Some(vec![promise(4)])).err(), Some(SettlementError::SigningError));
    assert_eq!(svc.repository.get_in_circulation(&s("m1")), Ok(0));
}

#[test]
fn payment_for_unknown_invoice_is_handled() {
    let mut svc = service_with_paid_invoice();
    assert_eq!(svc.payment_received(&s("hash-404"), 10), Ok(()));
    svc.request_mint(&s("m1"), s("h2"), s("hash-2"), 10, s("lnbc")).unwrap();
    assert_eq!(svc.payment_received(&s("hash-2"), 11), Ok(()));
    let inv = svc.repository.get_invoice_info_by_payment_hash(&s("hash-2")).unwrap();
    assert_eq!(inv.status, InvoiceStatus::Paid);
    assert_eq!(inv.confirmed_at, Some(11));
}
