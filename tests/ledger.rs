use walletka::{
    to_string, CashuMintReporitory, ErrorResponse, InvoiceInfo, InvoiceStatus, InvoiceTokenStatus, Proof,
    SettlementError, StoredMint,
};

fn s(x: &str) -> String {
    x.to_string()
}

fn spent_proof(secret: &str, amount_msat: u64) -> Proof {
    Proof { amount_msat, keyset_id: s("ks"), secret: s(secret), c: s("c") }
}

fn store_with_mint() -> CashuMintReporitory {
    let mut repo = CashuMintReporitory::new();
    repo.add_mint(StoredMint::new(s("m1"), s("ks1"), 32, 1000)).unwrap();
    repo
}

#[test]
fn hex_of_bytes_is_two_lower_case_digits_each() {
    assert_eq!(to_string(&[0x00, 0xff, 0x10, 0xab]), "00ff10ab");
    assert_eq!(to_string(&[]), "");
    assert_eq!(to_string(&[7]), "07");
}

#[test]
fn error_response_keeps_code_and_message() {
    let r = ErrorResponse::new(404, "Invoice not found");
    assert_eq!(r.code, 404);
    assert_eq!(r.error, "Invoice not found");
    let r = ErrorResponse::from_settlement_error(SettlementError::DoubleSpend, "spent");
    assert_eq!(r.code, 400);
    let r = ErrorResponse::from_settlement_error(SettlementError::NotFound, "gone");
    assert_eq!(r.code, 404);
}

#[test]
fn duplicate_mint_is_refused() {
    let mut repo = store_with_mint();
    assert_eq!(repo.add_mint(StoredMint::new(s("m1"), s("other"), 8, 0)), Err(SettlementError::DuplicateMint));
    assert_eq!(repo.get_all_mints().len(), 1);
    assert_eq!(repo.get_mint(&s("m1")).unwrap().active_keyset, "ks1");
    assert!(repo.get_mint(&s("m2")).is_err());
}

#[test]
fn active_keyset_is_replaced() {
    let mut repo = store_with_mint();
    repo.set_active_keyset(&s("m1"), s("ks2")).unwrap();
    assert_eq!(repo.get_mint(&s("m1")).unwrap().active_keyset, "ks2");
    assert_eq!(repo.set_active_keyset(&s("nope"), s("ks3")), Err(SettlementError::NotFound));
}

#[test]
fn duplicate_payment_hash_is_refused() {
    let mut repo = store_with_mint();
    repo.add_invoice(InvoiceInfo::new(s("h1"), s("hash-1"), 1000, s("lnbc1"), Some(s("m1")))).unwrap();
    let again = repo.add_invoice(InvoiceInfo::new(s("h2"), s("hash-1"), 5, s("lnbc2"), None));
    assert_eq!(again, Err(SettlementError::DuplicatePaymentHash));
    let same_hash = repo.add_invoice(InvoiceInfo::new(s("h1"), s("hash-2"), 5, s("lnbc2"), None));
    assert_eq!(same_hash, Err(SettlementError::DuplicatePaymentHash));
    assert_eq!(repo.invoices.len(), 1);
}

#[test]
fn invoice_lookups() {
    let mut repo = store_with_mint();
    repo.add_invoice(InvoiceInfo::new(s("h1"), s("hash-1"), 1000, s("lnbc1"), Some(s("m1")))).unwrap();
    let inv = repo.get_invoice_info(&s("h1")).unwrap();
    assert_eq!(inv.payment_hash, "hash-1");
    assert_eq!(inv.status, InvoiceStatus::Unpaid);
    assert_eq!(inv.token_status, InvoiceTokenStatus::NotIssued);
    assert_eq!(repo.get_invoice_info_by_payment_hash(&s("hash-1")).unwrap().hash, "h1");
    assert_eq!(repo.get_invoice_info(&s("hash-1")).err(), Some(SettlementError::NotFound));
    assert_eq!(repo.get_invoice_info_by_payment_hash(&s("h1")).err(), Some(SettlementError::NotFound));
}

#[test]
fn mark_paid_transitions() {
    let mut repo = store_with_mint();
    repo.add_invoice(InvoiceInfo::new(s("h1"), s("hash-1"), 1000, s("lnbc1"), None)).unwrap();
    assert_eq!(repo.mark_paid(&s("hash-1"), 1700), Ok(()));
    let inv = repo.get_invoice_info_by_payment_hash(&s("hash-1")).unwrap();
    assert_eq!(inv.status, InvoiceStatus::Paid);
    assert_eq!(inv.confirmed_at, Some(1700));
    // idempotent: the first confirmation time stays
    assert_eq!(repo.mark_paid(&s("hash-1"), 1800), Ok(()));
    assert_eq!(repo.get_invoice_info_by_payment_hash(&s("hash-1")).unwrap().confirmed_at, Some(1700));
    assert_eq!(repo.mark_paid(&s("hash-9"), 1800), Err(SettlementError::NotFound));
}

#[test]
fn expired_invoice_cannot_be_paid() {
    let mut repo = store_with_mint();
    let mut inv = InvoiceInfo::new(s("h1"), s("hash-1"), 1000, s("lnbc1"), None);
    inv.status = InvoiceStatus::Expired;
    repo.add_invoice(inv).unwrap();
    assert_eq!(repo.mark_paid(&s("hash-1"), 1), Err(SettlementError::InvalidTransition));
    assert_eq!(repo.get_invoice_info_by_payment_hash(&s("hash-1")).unwrap().status, InvoiceStatus::Expired);
}

#[test]
fn in_flight_invoice_becomes_paid() {
    let mut repo = store_with_mint();
    let mut inv = InvoiceInfo::new(s("h1"), s("hash-1"), 1000, s("lnbc1"), None);
    inv.status = InvoiceStatus::InFlight;
    repo.add_invoice(inv).unwrap();
    assert_eq!(repo.mark_paid(&s("hash-1"), 5), Ok(()));
    assert_eq!(repo.get_invoice_info_by_payment_hash(&s("hash-1")).unwrap().status, InvoiceStatus::Paid);
}

#[test]
fn mark_issued_flips_once() {
    let mut repo = store_with_mint();
    repo.add_invoice(InvoiceInfo::new(s("h1"), s("hash-1"), 1000, s("lnbc1"), None)).unwrap();
    assert_eq!(repo.mark_issued(&s("hash-1")), Err(SettlementError::InvoiceNotPayable));
    repo.mark_paid(&s("hash-1"), 1).unwrap();
    assert_eq!(repo.mark_issued(&s("hash-1")), Ok(()));
    assert_eq!(repo.get_invoice_info_by_payment_hash(&s("hash-1")).unwrap().token_status, InvoiceTokenStatus::Issued);
    assert_eq!(repo.mark_issued(&s("hash-1")), Err(SettlementError::PreventDoubleIssuance));
    assert_eq!(repo.mark_issued(&s("hash-2")), Err(SettlementError::NotFound));
}

#[test]
fn credit_and_debit_move_circulation() {
    let mut repo = store_with_mint();
    let m = s("m1");
    assert_eq!(repo.get_in_circulation(&m), Ok(0));
    repo.credit(&m, 5000).unwrap();
    repo.debit(&m, 2000).unwrap();
    assert_eq!(repo.get_in_circulation(&m), Ok(3000));
    assert_eq!(repo.debit(&m, 3001), Err(SettlementError::LedgerUnderflow));
    assert_eq!(repo.get_in_circulation(&m), Ok(3000));
    assert_eq!(repo.credit(&m, u64::MAX), Err(SettlementError::LedgerOverflow));
    assert_eq!(repo.get_in_circulation(&m), Ok(3000));
    assert_eq!(repo.credit(&s("m2"), 1), Err(SettlementError::NotFound));
    assert_eq!(repo.get_in_circulation(&s("m2")), Err(SettlementError::NotFound));
}

#[test]
fn proof_batch_is_all_or_nothing() {
    let mut repo = store_with_mint();
    let m = s("m1");
    repo.add_used_proofs(&m, &vec![spent_proof("a", 1), spent_proof("b", 2)]).unwrap();
    assert!(repo.is_spent(&m, &s("a")));
    assert!(repo.is_spent(&m, &s("b")));
    let r = repo.add_used_proofs(&m, &vec![spent_proof("c", 1), spent_proof("a", 1)]);
    assert_eq!(r, Err(SettlementError::DoubleSpend));
    assert!(!repo.is_spent(&m, &s("c")));
    assert_eq!(repo.used_proofs.len(), 2);
}

#[test]
fn secret_twice_in_one_batch_is_double_spend() {
    let mut repo = store_with_mint();
    let m = s("m1");
    let r = repo.add_used_proofs(&m, &vec![spent_proof("x", 1), spent_proof("x", 1)]);
    assert_eq!(r, Err(SettlementError::DoubleSpend));
    assert!(!repo.is_spent(&m, &s("x")));
}

#[test]
fn secrets_are_kept_per_mint() {
    let mut repo = store_with_mint();
    repo.add_mint(StoredMint::new(s("m2"), s("ks"), 32, 0)).unwrap();
    repo.add_used_proofs(&s("m1"), &vec![spent_proof("a", 1)]).unwrap();
    assert!(!repo.is_spent(&s("m2"), &s("a")));
    assert_eq!(repo.add_used_proofs(&s("m2"), &vec![spent_proof("a", 1)]), Ok(()));
}

#[test]
fn spent_secrets_are_listed_per_mint() {
    let mut repo = store_with_mint();
    repo.add_mint(StoredMint::new(s("m2"), s("ks"), 32, 0)).unwrap();
    repo.add_used_proofs(&s("m1"), &vec![spent_proof("a", 1), spent_proof("b", 2)]).unwrap();
    repo.add_used_proofs(&s("m2"), &vec![spent_proof("c", 1)]).unwrap();
    assert_eq!(repo.get_spent_secrets(&s("m1")), vec![s("a"), s("b")]);
    assert_eq!(repo.get_spent_secrets(&s("m2")), vec![s("c")]);
    assert!(repo.get_spent_secrets(&s("m3")).is_empty());
}
