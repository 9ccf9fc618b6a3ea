use crate::cashu::repository::{
    batch_fresh, batch_view, credited, debited, has_mint, has_payment_hash, issue_check, issued_invoice, mint_index,
    payment_hash_index, spent_view, CashuMintReporitory,
};
use crate::cashu::types::{
    amount_sum, outputs_total, total_amount, BlindedMessage, InvoiceInfo, Promise, Proof, StoredMint, UsedProof,
};
use crate::error::SettlementError;
use vstd::prelude::*;

verus! {

/// The total of the amounts of the promises.
pub open spec fn promises_total(promises: Seq<Promise>) -> int
    decreases promises.len(),
{
    if promises.len() == 0 {
        0
    } else {
        promises_total(promises.drop_last()) + promises.last().amount_msat
    }
}

/// The sum of the promise amounts, or `None` where it does not fit in a `u64`.
pub fn promises_amount(promises: &Vec<Promise>) -> (r: Option<u64>)
    ensures
        match r {
            Some(t) => t as int == promises_total(promises@),
            None => promises_total(promises@) > u64::MAX,
        },
{
    let mut total: u64 = 0;
    let mut i: usize = 0;
    while i < promises.len()
        invariant
            i <= promises@.len(),
            total as int == promises_total(promises@.subrange(0, i as int)),
        decreases promises@.len() - i,
    {
        let a = promises[i].amount_msat;
        proof {
            assert(promises@.subrange(0, i + 1).drop_last() =~= promises@.subrange(0, i as int));
        }
        if total > u64::MAX - a {
            proof { lemma_promises_total_grows(promises@, i as int + 1); }
            return None;
        }
        total = total + a;
        i = i + 1;
    }
    assert(promises@.subrange(0, promises@.len() as int) =~= promises@);
    Some(total)
}

/// The total of a prefix never exceeds the total of the whole.
pub proof fn lemma_promises_total_grows(promises: Seq<Promise>, n: int)
    requires
        0 <= n <= promises.len(),
    ensures
        promises_total(promises.subrange(0, n)) <= promises_total(promises),
    decreases promises.len() - n,
{
    if n < promises.len() {
        lemma_promises_total_grows(promises, n + 1);
        assert(promises.subrange(0, n + 1).drop_last() =~= promises.subrange(0, n));
    } else {
        assert(promises.subrange(0, n) =~= promises);
    }
}

/// The invoice was requested at this mint.
pub open spec fn invoice_of_mint(inv: InvoiceInfo, mint_id: Seq<char>) -> bool {
    inv.mint_id matches Some(m) && m@ == mint_id
}

/// Why minting `total` against the invoice with this payment hash at this mint
/// is refused (an invoice requested at another mint counts as not found),
/// checked before the mint engine is asked to sign; `None` where it
/// may go ahead.
pub open spec fn mint_check(repo: CashuMintReporitory, mint_id: Seq<char>, payment_hash: Seq<char>, total: int) -> Option<SettlementError> {
    if !has_mint(repo.mints@, mint_id) || !has_payment_hash(repo.invoices@, payment_hash) {
        Some(SettlementError::NotFound)
    } else {
        let inv = repo.invoices@[payment_hash_index(repo.invoices@, payment_hash)];
        let m = repo.mints@[mint_index(repo.mints@, mint_id)];
        if !invoice_of_mint(inv, mint_id) {
            Some(SettlementError::NotFound)
        } else if total != inv.amount_msat {
            Some(SettlementError::AmountMismatch)
        } else if issue_check(inv) is Some {
            issue_check(inv)
        } else if m.in_circulation_msat + inv.amount_msat > u64::MAX {
            Some(SettlementError::LedgerOverflow)
        } else {
            None
        }
    }
}

/// Why recording a split of these proofs at this mint is refused, given whether
/// the mint engine accepted them; `None` where it goes ahead.
pub open spec fn split_check(repo: CashuMintReporitory, mint_id: Seq<char>, proofs: Seq<Proof>, engine_accepted: bool) -> Option<SettlementError> {
    if !has_mint(repo.mints@, mint_id) {
        Some(SettlementError::NotFound)
    } else if !engine_accepted {
        Some(SettlementError::VerifyError)
    } else if !batch_fresh(repo.used_proofs@, mint_id, proofs) {
        Some(SettlementError::DoubleSpend)
    } else {
        None
    }
}

/// Why a melt is refused before the invoice is paid; `None` where the payment
/// may be sent.
pub open spec fn melt_precheck(repo: CashuMintReporitory, mint_id: Seq<char>, proofs: Seq<Proof>, proofs_cover: bool) -> Option<SettlementError> {
    if !has_mint(repo.mints@, mint_id) {
        Some(SettlementError::NotFound)
    } else if !proofs_cover {
        Some(SettlementError::InsufficientProofs)
    } else if !batch_fresh(repo.used_proofs@, mint_id, proofs) {
        Some(SettlementError::DoubleSpend)
    } else {
        None
    }
}

/// Why a melt is refused, given the outcomes of the proof check and of the
/// payment; `None` where the proofs are consumed and `debit` is taken out of
/// circulation.
pub open spec fn melt_check(
    repo: CashuMintReporitory,
    mint_id: Seq<char>,
    proofs: Seq<Proof>,
    proofs_cover: bool,
    payment_succeeded: bool,
    debit: int,
) -> Option<SettlementError> {
    if melt_precheck(repo, mint_id, proofs, proofs_cover) is Some {
        melt_precheck(repo, mint_id, proofs, proofs_cover)
    } else if !payment_succeeded {
        Some(SettlementError::PaymentFailed)
    } else if repo.mints@[mint_index(repo.mints@, mint_id)].in_circulation_msat < debit {
        Some(SettlementError::LedgerUnderflow)
    } else {
        None
    }
}

/// What `process_mint` does: refused as `mint_check` says, or as a signing
/// error where the engine refused or its promises do not add up to the
/// invoice amount, leaving the store as it was; otherwise the promises are
/// returned, the invoice is marked issued and its amount credited to the mint.
pub open spec fn mint_post(
    before: CashuMintReporitory,
    after: CashuMintReporitory,
    mint_id: Seq<char>,
    payment_hash: Seq<char>,
    total: int,
    signed: Option<Vec<Promise>>,
    r: Result<Vec<Promise>, SettlementError>,
) -> bool {
    &&& after.used_proofs == before.used_proofs
    &&& match mint_check(before, mint_id, payment_hash, total) {
        Some(e) => r == Err::<Vec<Promise>, SettlementError>(e) && after == before,
        None => {
            let i = payment_hash_index(before.invoices@, payment_hash);
            let inv = before.invoices@[i];
            let k = mint_index(before.mints@, mint_id);
            match signed {
                None => r == Err::<Vec<Promise>, SettlementError>(SettlementError::SigningError) && after == before,
                Some(p) => if promises_total(p@) != inv.amount_msat {
                    r == Err::<Vec<Promise>, SettlementError>(SettlementError::SigningError) && after == before
                } else {
                    &&& r == Ok::<Vec<Promise>, SettlementError>(p)
                    &&& after.invoices@ == before.invoices@.update(i, issued_invoice(inv))
                    &&& after.mints@ == before.mints@.update(k, credited(before.mints@[k], inv.amount_msat))
                },
            }
        },
    }
}

/// What `process_split` does: refused as `split_check` says, leaving the store
/// as it was; otherwise the engine's promises are returned and the batch is
/// recorded as spent.
pub open spec fn split_post(
    before: CashuMintReporitory,
    after: CashuMintReporitory,
    mint_id: Seq<char>,
    proofs: Seq<Proof>,
    signed: Option<Vec<Promise>>,
    r: Result<Vec<Promise>, SettlementError>,
) -> bool {
    &&& after.mints == before.mints
    &&& after.invoices == before.invoices
    &&& match split_check(before, mint_id, proofs, signed is Some) {
        Some(e) => r == Err::<Vec<Promise>, SettlementError>(e) && after == before,
        None => r == Ok::<Vec<Promise>, SettlementError>(signed.unwrap())
            && spent_view(after.used_proofs@) == spent_view(before.used_proofs@) + batch_view(mint_id, proofs),
    }
}

/// What `process_melt` does: refused as `melt_check` says, leaving the store as
/// it was; otherwise the change is returned, the batch is recorded as spent and
/// the paid amount plus the change is taken out of circulation.
pub open spec fn melt_post(
    before: CashuMintReporitory,
    after: CashuMintReporitory,
    mint_id: Seq<char>,
    proofs: Seq<Proof>,
    paid_amount_msat: u64,
    proofs_cover: bool,
    payment_succeeded: bool,
    change: Vec<Promise>,
    r: Result<Vec<Promise>, SettlementError>,
) -> bool {
    &&& after.invoices == before.invoices
    &&& match melt_check(before, mint_id, proofs, proofs_cover, payment_succeeded, paid_amount_msat + promises_total(change@)) {
        Some(e) => r == Err::<Vec<Promise>, SettlementError>(e) && after == before,
        None => {
            let k = mint_index(before.mints@, mint_id);
            &&& r == Ok::<Vec<Promise>, SettlementError>(change)
            &&& spent_view(after.used_proofs@) == spent_view(before.used_proofs@) + batch_view(mint_id, proofs)
            &&& after.mints@ == before.mints@.update(
                k, debited(before.mints@[k], (paid_amount_msat + promises_total(change@)) as u64))
        },
    }
}

/// Sequences the mint engine's work with the accounting of each mint.
///
/// Every operation takes `&mut self`: the caller holds the service, and so the
/// mint, exclusively for the whole of one operation.
pub struct CashuService {
    pub repository: CashuMintReporitory,
    pub mint_url: String,
}

impl CashuService {
    pub open spec fn wf(&self) -> bool {
        self.repository.wf()
    }

    /// A service over the given store.
    pub fn init(mint_url: String, repository: CashuMintReporitory) -> (r: Self)
        requires
            repository.wf(),
        ensures
            r.wf(),
            r.repository == repository,
            r.mint_url == mint_url,
    {
        CashuService { repository, mint_url }
    }

    /// Registers a mint whose keyset the engine derived; fails when a mint of
    /// the same name exists.
    pub fn new_mint(&mut self, name: String, active_keyset: String, max_order: u8, min_fee_reserve_msat: u64) -> (r: Result<(), SettlementError>)
        requires
            old(self).wf(),
        ensures
            final(self).wf(),
            final(self).mint_url == old(self).mint_url,
            has_mint(old(self).repository.mints@, name@) ==> r == Err::<(), SettlementError>(SettlementError::DuplicateMint)
                && final(self).repository == old(self).repository,
            !has_mint(old(self).repository.mints@, name@) ==> r is Ok
                && final(self).repository.invoices == old(self).repository.invoices
                && final(self).repository.used_proofs == old(self).repository.used_proofs
                && final(self).repository.mints@.len() == old(self).repository.mints@.len() + 1
                && ({
                    let m = final(self).repository.mints@.last();
                    &&& m.name == name
                    &&& m.active_keyset == active_keyset
                    &&& m.in_circulation_msat == 0
                    &&& m.max_order == max_order
                    &&& m.min_fee_reserve_msat == min_fee_reserve_msat
                })
                && final(self).repository.mints@.drop_last() == old(self).repository.mints@,
    {
        let mint = StoredMint::new(name, active_keyset, max_order, min_fee_reserve_msat);
        let r = self.repository.add_mint(mint);
        proof {
            if r is Ok {
                assert(self.repository.mints@.drop_last() =~= old(self).repository.mints@);
            }
        }
        r
    }

    /// Records the invoice that the node service created for a mint request.
    pub fn request_mint(&mut self, mint_id: &String, hash: String, payment_hash: String, amount_msat: u64, bolt11: String) -> (r: Result<(), SettlementError>)
        requires
            old(self).wf(),
        ensures
            final(self).wf(),
            final(self).mint_url == old(self).mint_url,
            !has_mint(old(self).repository.mints@, mint_id@) ==> r == Err::<(), SettlementError>(SettlementError::NotFound)
                && final(self).repository == old(self).repository,
            has_mint(old(self).repository.mints@, mint_id@) && (has_payment_hash(old(self).repository.invoices@, payment_hash@)
                || crate::cashu::repository::has_hash(old(self).repository.invoices@, hash@))
                ==> r == Err::<(), SettlementError>(SettlementError::DuplicatePaymentHash) && final(self).repository == old(self).repository,
            r is Ok ==> final(self).repository.invoices@.len() == old(self).repository.invoices@.len() + 1
                && final(self).repository.invoices@.drop_last() == old(self).repository.invoices@
                && final(self).repository.invoices@.last().is_fresh(hash@, payment_hash@, amount_msat, bolt11@, Some(mint_id@))
                && final(self).repository.mints == old(self).repository.mints
                && final(self).repository.used_proofs == old(self).repository.used_proofs,
            has_mint(old(self).repository.mints@, mint_id@) && !has_payment_hash(old(self).repository.invoices@, payment_hash@)
                && !crate::cashu::repository::has_hash(old(self).repository.invoices@, hash@) ==> r is Ok,
    {
        if self.repository.get_mint(mint_id).is_err() {
            return Err(SettlementError::NotFound);
        }
        let inv = InvoiceInfo::new(hash, payment_hash, amount_msat, bolt11, Some(mint_id.clone()));
        let r = self.repository.add_invoice(inv);
        proof {
            if r is Ok {
                assert(self.repository.invoices@.drop_last() =~= old(self).repository.invoices@);
            }
        }
        r
    }

    /// Records the payment of the invoice with this payment hash at `now`.
    pub fn handle_paid_invoice(&mut self, payment_hash: &String, now: u64) -> (r: Result<(), SettlementError>)
        requires
            old(self).wf(),
        ensures
            final(self).wf(),
            final(self).mint_url == old(self).mint_url,
            final(self).repository.mints == old(self).repository.mints,
            final(self).repository.used_proofs == old(self).repository.used_proofs,
            !has_payment_hash(old(self).repository.invoices@, payment_hash@) ==> r == Err::<(), SettlementError>(SettlementError::NotFound)
                && final(self).repository.invoices == old(self).repository.invoices,
            has_payment_hash(old(self).repository.invoices@, payment_hash@) ==> {
                let i = payment_hash_index(old(self).repository.invoices@, payment_hash@);
                let inv = old(self).repository.invoices@[i];
                match crate::cashu::repository::mark_paid_check(inv) {
                    Err(e) => r == Err::<(), SettlementError>(e) && final(self).repository.invoices == old(self).repository.invoices,
                    Ok(false) => r is Ok && final(self).repository.invoices == old(self).repository.invoices,
                    Ok(true) => r is Ok && final(self).repository.invoices@
                        == old(self).repository.invoices@.update(i, crate::cashu::repository::paid_invoice(inv, now)),
                }
            },
    {
        self.repository.mark_paid(payment_hash, now)
    }

    /// Handles a payment received by the node: the invoice with this payment
    /// hash is marked paid at `now`; a payment for an invoice that this service
    /// did not issue is no concern of it and is taken as handled.
    pub fn payment_received(&mut self, payment_hash: &String, now: u64) -> (r: Result<(), SettlementError>)
        requires
            old(self).wf(),
        ensures
            final(self).wf(),
            final(self).mint_url == old(self).mint_url,
            final(self).repository.mints == old(self).repository.mints,
            final(self).repository.used_proofs == old(self).repository.used_proofs,
            !has_payment_hash(old(self).repository.invoices@, payment_hash@) ==> r is Ok
                && final(self).repository.invoices == old(self).repository.invoices,
            has_payment_hash(old(self).repository.invoices@, payment_hash@) ==> {
                let i = payment_hash_index(old(self).repository.invoices@, payment_hash@);
                let inv = old(self).repository.invoices@[i];
                match crate::cashu::repository::mark_paid_check(inv) {
                    Err(e) => r == Err::<(), SettlementError>(e) && final(self).repository.invoices == old(self).repository.invoices,
                    Ok(false) => r is Ok && final(self).repository.invoices == old(self).repository.invoices,
                    Ok(true) => r is Ok && final(self).repository.invoices@
                        == old(self).repository.invoices@.update(i, crate::cashu::repository::paid_invoice(inv, now)),
                }
            },
    {
        match self.repository.mark_paid(payment_hash, now) {
            Err(SettlementError::NotFound) => Ok(()),
            r => r,
        }
    }

    /// Checks, before the engine is asked to sign, that minting the outputs
    /// against the invoice may go ahead; returns the amount to be issued.
    pub fn check_mint(&self, mint_id: &String, payment_hash: &String, outputs: &Vec<BlindedMessage>) -> (r: Result<u64, SettlementError>)
        requires
            self.wf(),
        ensures
            match mint_check(self.repository, mint_id@, payment_hash@, outputs_total(outputs@)) {
                Some(e) => r == Err::<u64, SettlementError>(e),
                None => r == Ok::<u64, SettlementError>(outputs_total(outputs@) as u64),
            },
    {
        let m = match self.repository.get_mint(mint_id) {
            Ok(m) => m,
            Err(e) => return Err(e),
        };
        let inv = match self.repository.get_invoice_info_by_payment_hash(payment_hash) {
            Ok(inv) => inv,
            Err(e) => return Err(e),
        };
        let of_mint = match &inv.mint_id {
            Some(m) => *m == *mint_id,
            None => false,
        };
        if !of_mint {
            return Err(SettlementError::NotFound);
        }
        match total_amount(outputs) {
            Some(t) => {
                if t != inv.amount_msat {
                    return Err(SettlementError::AmountMismatch);
                }
            },
            None => return Err(SettlementError::AmountMismatch),
        }
        if inv.token_status == crate::cashu::types::InvoiceTokenStatus::Issued {
            return Err(SettlementError::PreventDoubleIssuance);
        }
        if inv.status != crate::cashu::types::InvoiceStatus::Paid {
            return Err(SettlementError::InvoiceNotPayable);
        }
        if m.in_circulation_msat > u64::MAX - inv.amount_msat {
            return Err(SettlementError::LedgerOverflow);
        }
        Ok(inv.amount_msat)
    }

    /// Completes a mint: `signed` is what the engine returned for the outputs
    /// (`None` where it refused; promises that do not add up to the invoice
    /// amount count as a refusal). On success the invoice is marked issued,
    /// the invoice amount is credited to the mint and the promises are
    /// returned; otherwise nothing changes.
    pub fn process_mint(
        &mut self,
        mint_id: &String,
        payment_hash: &String,
        outputs: &Vec<BlindedMessage>,
        signed: Option<Vec<Promise>>,
    ) -> (r: Result<Vec<Promise>, SettlementError>)
        requires
            old(self).wf(),
        ensures
            final(self).wf(),
            final(self).mint_url == old(self).mint_url,
            mint_post(old(self).repository, final(self).repository, mint_id@, payment_hash@, outputs_total(outputs@), signed, r),
    {
        let amount = match self.check_mint(mint_id, payment_hash, outputs) {
            Ok(a) => a,
            Err(e) => return Err(e),
        };
        let promises = match signed {
            Some(p) => p,
            None => return Err(SettlementError::SigningError),
        };
        match promises_amount(&promises) {
            Some(t) => {
                if t != amount {
                    return Err(SettlementError::SigningError);
                }
            },
            None => return Err(SettlementError::SigningError),
        }
        let r1 = self.repository.mark_issued(payment_hash);
        let r2 = self.repository.credit(mint_id, amount);
        proof {
            assert(r1 is Ok);
            assert(r2 is Ok);
        }
        Ok(promises)
    }

    /// Completes a split: `signed` is what the engine returned for the new
    /// outputs (`None` where it refused the proofs). On success every input
    /// secret is recorded as spent and the new promises are returned; a
    /// refused recording discards them. Otherwise nothing changes.
    pub fn process_split(&mut self, mint_id: &String, proofs: &Vec<Proof>, signed: Option<Vec<Promise>>) -> (r: Result<Vec<Promise>, SettlementError>)
        requires
            old(self).wf(),
        ensures
            final(self).wf(),
            final(self).mint_url == old(self).mint_url,
            final(self).repository.mints == old(self).repository.mints,
            final(self).repository.invoices == old(self).repository.invoices,
            split_post(old(self).repository, final(self).repository, mint_id@, proofs@, signed, r),
    {
        if self.repository.get_mint(mint_id).is_err() {
            return Err(SettlementError::NotFound);
        }
        let promises = match signed {
            Some(p) => p,
            None => return Err(SettlementError::VerifyError),
        };
        match self.repository.add_used_proofs(mint_id, proofs) {
            Ok(()) => Ok(promises),
            Err(e) => Err(e),
        }
    }

    /// Checks, before the invoice is paid, that the proofs may be melted.
    pub fn check_melt(&self, mint_id: &String, proofs: &Vec<Proof>, proofs_cover: bool) -> (r: Result<(), SettlementError>)
        requires
            self.wf(),
        ensures
            match melt_precheck(self.repository, mint_id@, proofs@, proofs_cover) {
                Some(e) => r == Err::<(), SettlementError>(e),
                None => r is Ok,
            },
    {
        if self.repository.get_mint(mint_id).is_err() {
            return Err(SettlementError::NotFound);
        }
        if !proofs_cover {
            return Err(SettlementError::InsufficientProofs);
        }
        if !self.repository.check_fresh(mint_id, proofs) {
            return Err(SettlementError::DoubleSpend);
        }
        Ok(())
    }

    /// Completes a melt: `proofs_cover` is the engine's verdict that the proofs
    /// cover `paid_amount_msat` and the fee reserve, `payment_succeeded` the
    /// node service's outcome of paying the invoice, and `change` the promises
    /// the engine returned. On success the proofs are recorded as spent,
    /// `paid_amount_msat` plus the change is taken out of circulation and the
    /// change is returned; otherwise nothing changes and the proofs stay
    /// spendable.
    pub fn process_melt(
        &mut self,
        mint_id: &String,
        proofs: &Vec<Proof>,
        paid_amount_msat: u64,
        proofs_cover: bool,
        payment_succeeded: bool,
        change: Vec<Promise>,
    ) -> (r: Result<Vec<Promise>, SettlementError>)
        requires
            old(self).wf(),
        ensures
            final(self).wf(),
            final(self).mint_url == old(self).mint_url,
            final(self).repository.invoices == old(self).repository.invoices,
            melt_post(old(self).repository, final(self).repository, mint_id@, proofs@, paid_amount_msat, proofs_cover,
                payment_succeeded, change, r),
    {
        match self.check_melt(mint_id, proofs, proofs_cover) {
            Ok(()) => {},
            Err(e) => return Err(e),
        }
        if !payment_succeeded {
            return Err(SettlementError::PaymentFailed);
        }
        let circulation = match self.repository.get_in_circulation(mint_id) {
            Ok(c) => c,
            Err(e) => return Err(e),
        };
        let debit = match promises_amount(&change) {
            Some(c) => {
                if c > u64::MAX - paid_amount_msat {
                    return Err(SettlementError::LedgerUnderflow);
                }
                paid_amount_msat + c
            },
            None => return Err(SettlementError::LedgerUnderflow),
        };
        if circulation < debit {
            return Err(SettlementError::LedgerUnderflow);
        }
        let r1 = self.repository.add_used_proofs(mint_id, proofs);
        let r2 = self.repository.debit(mint_id, debit);
        proof {
            assert(r1 is Ok);
            assert(r2 is Ok);
        }
        Ok(change)
    }

    /// Completes an issuance that the service makes on its own account (a
    /// token for a customer): `signed` is what the engine returned. On success
    /// the amount is credited to the mint.
    pub fn mint_token(&mut self, mint_id: &String, amount_msat: u64, signed: Option<Vec<Promise>>) -> (r: Result<Vec<Promise>, SettlementError>)
        requires
            old(self).wf(),
        ensures
            final(self).wf(),
            final(self).mint_url == old(self).mint_url,
            final(self).repository.invoices == old(self).repository.invoices,
            final(self).repository.used_proofs == old(self).repository.used_proofs,
            !has_mint(old(self).repository.mints@, mint_id@) ==> r == Err::<Vec<Promise>, SettlementError>(SettlementError::NotFound)
                && final(self).repository == old(self).repository,
            has_mint(old(self).repository.mints@, mint_id@) ==> {
                let k = mint_index(old(self).repository.mints@, mint_id@);
                let m = old(self).repository.mints@[k];
                if signed is None || promises_total(signed.unwrap()@) != amount_msat {
                    r == Err::<Vec<Promise>, SettlementError>(SettlementError::SigningError) && final(self).repository == old(self).repository
                } else if m.in_circulation_msat + amount_msat > u64::MAX {
                    r == Err::<Vec<Promise>, SettlementError>(SettlementError::LedgerOverflow) && final(self).repository == old(self).repository
                } else {
                    r == Ok::<Vec<Promise>, SettlementError>(signed.unwrap())
                        && final(self).repository.mints@ == old(self).repository.mints@.update(k, credited(m, amount_msat))
                }
            },
    {
        if self.repository.get_mint(mint_id).is_err() {
            return Err(SettlementError::NotFound);
        }
        let promises = match signed {
            Some(p) => p,
            None => return Err(SettlementError::SigningError),
        };
        match promises_amount(&promises) {
            Some(t) => {
                if t != amount_msat {
                    return Err(SettlementError::SigningError);
                }
            },
            None => return Err(SettlementError::SigningError),
        }
        match self.repository.credit(mint_id, amount_msat) {
            Ok(()) => Ok(promises),
            Err(e) => Err(e),
        }
    }
}

/// Every mint's circulation is the total it issued less the total taken out by
/// melts (each melt's paid amount plus its change), and so it is never
/// negative.
pub proof fn lemma_circulation_is_issued_less_melted(repo: CashuMintReporitory)
    requires
        repo.wf(),
    ensures
        forall|k: int| 0 <= k < repo.mints@.len() ==> {
            let m = #[trigger] repo.mints@[k];
            &&& m.in_circulation_msat == amount_sum(m.issued_msat@) - amount_sum(m.melted_msat@)
            &&& amount_sum(m.issued_msat@) >= amount_sum(m.melted_msat@)
        },
{
    assert forall|k: int| 0 <= k < repo.mints@.len() implies {
        let m = #[trigger] repo.mints@[k];
        &&& m.in_circulation_msat == amount_sum(m.issued_msat@) - amount_sum(m.melted_msat@)
        &&& amount_sum(m.issued_msat@) >= amount_sum(m.melted_msat@)
    } by {
        assert(repo.mints@[k].wf());
    }
}

/// A secret is recorded as spent at most once at each mint.
pub proof fn lemma_secret_recorded_at_most_once(repo: CashuMintReporitory, mint_id: Seq<char>, secret: Seq<char>, i: int, j: int)
    requires
        repo.wf(),
        0 <= i < repo.used_proofs@.len(),
        0 <= j < repo.used_proofs@.len(),
        repo.used_proofs@[i].mint_id@ == mint_id && repo.used_proofs@[i].secret@ == secret,
        repo.used_proofs@[j].mint_id@ == mint_id && repo.used_proofs@[j].secret@ == secret,
    ensures
        i == j,
{
    assert(spent_view(repo.used_proofs@)[i] == spent_view(repo.used_proofs@)[j]);
}

/// After a batch is recorded, its secrets are spent and the mint stays registered.
proof fn lemma_recorded_secret_is_spent(before: CashuMintReporitory, after: CashuMintReporitory, mint_id: Seq<char>, batch: Seq<Proof>, l: int)
    requires
        spent_view(after.used_proofs@) == spent_view(before.used_proofs@) + batch_view(mint_id, batch),
        0 <= l < batch.len(),
    ensures
        crate::cashu::repository::is_spent_in(after.used_proofs@, mint_id, batch[l].secret@),
{
    let n = spent_view(before.used_proofs@).len();
    assert(spent_view(after.used_proofs@)[n + l] == (mint_id, batch[l].secret@));
}

/// A credit or a debit of one mint keeps every mint registered.
proof fn lemma_update_keeps_mint(before: Seq<StoredMint>, after: Seq<StoredMint>, k: int, mint_id: Seq<char>)
    requires
        has_mint(before, mint_id),
        0 <= k < before.len(),
        after.len() == before.len(),
        after[k].name == before[k].name,
        forall|j: int| 0 <= j < before.len() && j != k ==> after[j] == before[j],
    ensures
        has_mint(after, mint_id),
{
    let j = choose|j: int| 0 <= j < before.len() && before[j].name@ == mint_id;
    assert(after[j].name@ == mint_id);
}

/// In a run of splits at one mint whose batches all present one secret (each
/// at `pos`), once one split succeeds the store never changes again, and every
/// later split is refused: as a double spend wherever the engine accepted it.
pub proof fn lemma_split_run_succeeds_once(
    states: Seq<CashuMintReporitory>,
    mint_id: Seq<char>,
    batches: Seq<Seq<Proof>>,
    pos: Seq<int>,
    secret: Seq<char>,
    signed: Seq<Option<Vec<Promise>>>,
    results: Seq<Result<Vec<Promise>, SettlementError>>,
    i: int,
    k: int,
)
    requires
        states.len() == results.len() + 1,
        batches.len() == results.len(),
        pos.len() == results.len(),
        signed.len() == results.len(),
        forall|t: int| 0 <= t < results.len() ==> split_post(#[trigger] states[t], states[t + 1], mint_id, batches[t], signed[t], results[t]),
        forall|t: int| 0 <= t < results.len() ==> 0 <= #[trigger] pos[t] < batches[t].len() && batches[t][pos[t]].secret@ == secret,
        0 <= i < results.len(),
        results[i] is Ok,
        i < k <= results.len(),
    ensures
        forall|j: int| i < j <= k ==> #[trigger] states[j] == states[i + 1],
        forall|j: int| i < j < k ==> (#[trigger] results[j]) is Err
            && (signed[j] is Some ==> results[j] == Err::<Vec<Promise>, SettlementError>(SettlementError::DoubleSpend)),
    decreases k - i,
{
    if k > i + 1 {
        lemma_split_run_succeeds_once(states, mint_id, batches, pos, secret, signed, results, i, k - 1);
        let t = k - 1;
        let st = states[i + 1];
        assert(split_post(states[i], states[i + 1], mint_id, batches[i], signed[i], results[i]));
        assert(split_post(states[t], states[t + 1], mint_id, batches[t], signed[t], results[t]));
        assert(0 <= pos[i] < batches[i].len());
        assert(0 <= pos[t] < batches[t].len());
        lemma_recorded_secret_is_spent(states[i], st, mint_id, batches[i], pos[i]);
        assert(!batch_fresh(st.used_proofs@, mint_id, batches[t]));
    }
}

/// Of any number of splits at a registered mint that all present the same
/// fresh, non-empty batch and that the engine accepts, exactly the first
/// succeeds and every other is refused as a double spend.
pub proof fn lemma_identical_splits_exactly_one(
    states: Seq<CashuMintReporitory>,
    mint_id: Seq<char>,
    proofs: Seq<Proof>,
    signed: Seq<Option<Vec<Promise>>>,
    results: Seq<Result<Vec<Promise>, SettlementError>>,
)
    requires
        results.len() >= 1,
        states.len() == results.len() + 1,
        signed.len() == results.len(),
        proofs.len() > 0,
        has_mint(states[0].mints@, mint_id),
        batch_fresh(states[0].used_proofs@, mint_id, proofs),
        forall|t: int| 0 <= t < results.len() ==> (#[trigger] signed[t]) is Some,
        forall|t: int| 0 <= t < results.len() ==> split_post(#[trigger] states[t], states[t + 1], mint_id, proofs, signed[t], results[t]),
    ensures
        results[0] is Ok,
        forall|j: int| 0 < j < results.len() ==> #[trigger] results[j] == Err::<Vec<Promise>, SettlementError>(SettlementError::DoubleSpend),
{
    let n = results.len() as int;
    let batches = Seq::new(n as nat, |t: int| proofs);
    let pos = Seq::new(n as nat, |t: int| 0int);
    assert(split_post(states[0], states[1], mint_id, proofs, signed[0], results[0]));
    assert(signed[0] is Some);
    assert forall|t: int| 0 <= t < n implies split_post(#[trigger] states[t], states[t + 1], mint_id, batches[t], signed[t], results[t]) by {
        assert(batches[t] == proofs);
    }
    lemma_split_run_succeeds_once(states, mint_id, batches, pos, proofs[0].secret@, signed, results, 0, n);
    assert forall|j: int| 0 < j < n implies #[trigger] results[j] == Err::<Vec<Promise>, SettlementError>(SettlementError::DoubleSpend) by {
        assert(signed[j] is Some);
    }
}

/// In a run of melts at one mint whose batches all present one secret, once
/// one melt succeeds the store never changes again, and every later melt is
/// refused: as a double spend wherever its proofs were found to cover it.
pub proof fn lemma_melt_run_succeeds_once(
    states: Seq<CashuMintReporitory>,
    mint_id: Seq<char>,
    batches: Seq<Seq<Proof>>,
    pos: Seq<int>,
    secret: Seq<char>,
    paid: Seq<u64>,
    covers: Seq<bool>,
    payments: Seq<bool>,
    changes: Seq<Vec<Promise>>,
    results: Seq<Result<Vec<Promise>, SettlementError>>,
    i: int,
    k: int,
)
    requires
        states.len() == results.len() + 1,
        batches.len() == results.len(),
        pos.len() == results.len(),
        paid.len() == results.len(),
        covers.len() == results.len(),
        payments.len() == results.len(),
        changes.len() == results.len(),
        forall|t: int| 0 <= t < results.len() ==> melt_post(#[trigger] states[t], states[t + 1], mint_id, batches[t], paid[t], covers[t],
            payments[t], changes[t], results[t]),
        forall|t: int| 0 <= t < results.len() ==> 0 <= #[trigger] pos[t] < batches[t].len() && batches[t][pos[t]].secret@ == secret,
        0 <= i < results.len(),
        results[i] is Ok,
        i < k <= results.len(),
    ensures
        forall|j: int| i < j <= k ==> #[trigger] states[j] == states[i + 1],
        forall|j: int| i < j < k ==> (#[trigger] results[j]) is Err
            && (covers[j] ==> results[j] == Err::<Vec<Promise>, SettlementError>(SettlementError::DoubleSpend)),
    decreases k - i,
{
    if k > i + 1 {
        lemma_melt_run_succeeds_once(states, mint_id, batches, pos, secret, paid, covers, payments, changes, results, i, k - 1);
        let t = k - 1;
        let st = states[i + 1];
        assert(melt_post(states[i], states[i + 1], mint_id, batches[i], paid[i], covers[i], payments[i], changes[i], results[i]));
        assert(melt_post(states[t], states[t + 1], mint_id, batches[t], paid[t], covers[t], payments[t], changes[t], results[t]));
        assert(0 <= pos[i] < batches[i].len());
        assert(0 <= pos[t] < batches[t].len());
        lemma_recorded_secret_is_spent(states[i], st, mint_id, batches[i], pos[i]);
        assert(!batch_fresh(st.used_proofs@, mint_id, batches[t]));
        let m = mint_index(states[i].mints@, mint_id);
        lemma_update_keeps_mint(states[i].mints@, st.mints@, m, mint_id);
    }
}

/// In a run of mints at one mint against one payment hash, once one mint
/// succeeds the store never changes again and every later mint is refused:
/// as a double issuance wherever it asks for the invoice's amount.
pub proof fn lemma_mint_run_issues_once(
    states: Seq<CashuMintReporitory>,
    mint_id: Seq<char>,
    payment_hash: Seq<char>,
    totals: Seq<int>,
    signed: Seq<Option<Vec<Promise>>>,
    results: Seq<Result<Vec<Promise>, SettlementError>>,
    i: int,
    k: int,
)
    requires
        states.len() == results.len() + 1,
        totals.len() == results.len(),
        signed.len() == results.len(),
        forall|t: int| 0 <= t <= results.len() ==> (#[trigger] states[t]).wf(),
        forall|t: int| 0 <= t < results.len() ==> mint_post(#[trigger] states[t], states[t + 1], mint_id, payment_hash, totals[t], signed[t], results[t]),
        0 <= i < results.len(),
        results[i] is Ok,
        i < k <= results.len(),
    ensures
        forall|j: int| i < j <= k ==> #[trigger] states[j] == states[i + 1],
        forall|j: int| i < j < k ==> (#[trigger] results[j]) is Err
            && (totals[j] == states[i].invoices@[payment_hash_index(states[i].invoices@, payment_hash)].amount_msat
                ==> results[j] == Err::<Vec<Promise>, SettlementError>(SettlementError::PreventDoubleIssuance)),
    decreases k - i,
{
    if k > i + 1 {
        lemma_mint_run_issues_once(states, mint_id, payment_hash, totals, signed, results, i, k - 1);
        let t = k - 1;
        let before = states[i];
        let st = states[i + 1];
        assert(mint_post(before, st, mint_id, payment_hash, totals[i], signed[i], results[i]));
        assert(mint_post(states[t], states[t + 1], mint_id, payment_hash, totals[t], signed[t], results[t]));
        assert(st.wf());
        let p = payment_hash_index(before.invoices@, payment_hash);
        assert(st.invoices@[p].payment_hash@ == payment_hash);
        assert(has_payment_hash(st.invoices@, payment_hash));
        let q = payment_hash_index(st.invoices@, payment_hash);
        assert(p == q) by {
            if p < q {
                assert(st.invoices@[p].payment_hash@ != st.invoices@[q].payment_hash@);
            } else if q < p {
                assert(st.invoices@[q].payment_hash@ != st.invoices@[p].payment_hash@);
            }
        }
        let m = mint_index(before.mints@, mint_id);
        lemma_update_keeps_mint(before.mints@, st.mints@, m, mint_id);
        assert(issue_check(st.invoices@[q]) == Some(SettlementError::PreventDoubleIssuance));
    }
}

/// A mint whose outputs do not add up to the amount of an invoice requested at
/// that mint is refused as an amount mismatch; `process_mint` then leaves the
/// invoice and the ledger as they were.
pub proof fn lemma_amount_mismatch_is_refused(repo: CashuMintReporitory, mint_id: Seq<char>, payment_hash: Seq<char>, total: int)
    requires
        has_mint(repo.mints@, mint_id),
        has_payment_hash(repo.invoices@, payment_hash),
        invoice_of_mint(repo.invoices@[payment_hash_index(repo.invoices@, payment_hash)], mint_id),
        total != repo.invoices@[payment_hash_index(repo.invoices@, payment_hash)].amount_msat,
    ensures
        mint_check(repo, mint_id, payment_hash, total) == Some(SettlementError::AmountMismatch),
{
}

} // verus!
