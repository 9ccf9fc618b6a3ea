use crate::cashu::types::{lemma_amount_sum_push, InvoiceInfo, InvoiceStatus, InvoiceTokenStatus, Proof, StoredMint, UsedProof};
use crate::error::SettlementError;
use vstd::prelude::*;

verus! {

/// Whether an invoice with this payment hash is recorded.
pub open spec fn has_payment_hash(invoices: Seq<InvoiceInfo>, payment_hash: Seq<char>) -> bool {
    exists|i: int| 0 <= i < invoices.len() && invoices[i].payment_hash@ == payment_hash
}

/// The position of the invoice with this payment hash.
pub open spec fn payment_hash_index(invoices: Seq<InvoiceInfo>, payment_hash: Seq<char>) -> int {
    choose|i: int| 0 <= i < invoices.len() && invoices[i].payment_hash@ == payment_hash
}

/// Whether an invoice with this request hash is recorded.
pub open spec fn has_hash(invoices: Seq<InvoiceInfo>, hash: Seq<char>) -> bool {
    exists|i: int| 0 <= i < invoices.len() && invoices[i].hash@ == hash
}

/// The position of the invoice with this request hash.
pub open spec fn hash_index(invoices: Seq<InvoiceInfo>, hash: Seq<char>) -> int {
    choose|i: int| 0 <= i < invoices.len() && invoices[i].hash@ == hash
}

/// Whether a mint of this name is registered.
pub open spec fn has_mint(mints: Seq<StoredMint>, name: Seq<char>) -> bool {
    exists|i: int| 0 <= i < mints.len() && mints[i].name@ == name
}

/// The position of the mint of this name.
pub open spec fn mint_index(mints: Seq<StoredMint>, name: Seq<char>) -> int {
    choose|i: int| 0 <= i < mints.len() && mints[i].name@ == name
}

/// The spent secrets as (mint, secret) pairs.
pub open spec fn spent_view(used: Seq<UsedProof>) -> Seq<(Seq<char>, Seq<char>)> {
    used.map_values(|u: UsedProof| (u.mint_id@, u.secret@))
}

/// The pairs that recording a batch of proofs for a mint adds.
pub open spec fn batch_view(mint_id: Seq<char>, proofs: Seq<Proof>) -> Seq<(Seq<char>, Seq<char>)> {
    proofs.map_values(|p: Proof| (mint_id, p.secret@))
}

/// Whether the secret is recorded as spent at the mint.
pub open spec fn is_spent_in(used: Seq<UsedProof>, mint_id: Seq<char>, secret: Seq<char>) -> bool {
    spent_view(used).contains((mint_id, secret))
}

/// A batch may be recorded: none of its secrets is spent at the mint, and no
/// secret occurs twice in it.
pub open spec fn batch_fresh(used: Seq<UsedProof>, mint_id: Seq<char>, proofs: Seq<Proof>) -> bool {
    &&& forall|k: int| 0 <= k < proofs.len() ==> !is_spent_in(used, mint_id, #[trigger] proofs[k].secret@)
    &&& forall|k: int, l: int| 0 <= k < l < proofs.len() ==> proofs[k].secret@ != proofs[l].secret@
}

/// The invoice after a confirmed payment at `now`.
pub open spec fn paid_invoice(inv: InvoiceInfo, now: u64) -> InvoiceInfo {
    InvoiceInfo { status: InvoiceStatus::Paid, confirmed_at: Some(now), ..inv }
}

/// The invoice after its tokens were issued.
pub open spec fn issued_invoice(inv: InvoiceInfo) -> InvoiceInfo {
    InvoiceInfo { token_status: InvoiceTokenStatus::Issued, ..inv }
}

/// The mint after `amount` more e-cash was issued.
pub open spec fn credited(m: StoredMint, amount: u64) -> StoredMint {
    StoredMint {
        in_circulation_msat: (m.in_circulation_msat + amount) as u64,
        issued_msat: Ghost(m.issued_msat@.push(amount as nat)),
        ..m
    }
}

/// The mint after `amount` of e-cash was melted.
pub open spec fn debited(m: StoredMint, amount: u64) -> StoredMint {
    StoredMint {
        in_circulation_msat: (m.in_circulation_msat - amount) as u64,
        melted_msat: Ghost(m.melted_msat@.push(amount as nat)),
        ..m
    }
}

/// Appending an element that a sequence lacks keeps its elements distinct.
pub proof fn lemma_push_keeps_distinct<A>(s: Seq<A>, x: A)
    requires
        s.no_duplicates(),
        !s.contains(x),
    ensures
        s.push(x).no_duplicates(),
{
    let t = s.push(x);
    assert forall|i: int, j: int| 0 <= i < t.len() && 0 <= j < t.len() && i != j implies t[i] != t[j] by {
        if i == s.len() {
            assert(t[j] == s[j]);
        } else if j == s.len() {
            assert(t[i] == s[i]);
        }
    }
}

/// What `mark_paid` decides for an invoice: whether it changes (`Ok(false)`
/// where it is already paid and is left as it is), or why it is refused.
pub open spec fn mark_paid_check(inv: InvoiceInfo) -> Result<bool, SettlementError> {
    match inv.status {
        InvoiceStatus::Expired => Err(SettlementError::InvalidTransition),
        InvoiceStatus::Paid => Ok(false),
        _ => Ok(true),
    }
}

/// The failure, if any, of issuing tokens against an invoice.
pub open spec fn issue_check(inv: InvoiceInfo) -> Option<SettlementError> {
    if inv.token_status == InvoiceTokenStatus::Issued {
        Some(SettlementError::PreventDoubleIssuance)
    } else if inv.status != InvoiceStatus::Paid {
        Some(SettlementError::InvoiceNotPayable)
    } else {
        None
    }
}

/// The persisted state of the mint service: mints, invoices and spent proofs.
pub struct CashuMintReporitory {
    pub mints: Vec<StoredMint>,
    pub invoices: Vec<InvoiceInfo>,
    pub used_proofs: Vec<UsedProof>,
}

impl CashuMintReporitory {
    /// Mint names, invoice hashes and payment hashes are unique, every mint's
    /// accounting holds, and no secret is spent twice at a mint.
    pub open spec fn wf(&self) -> bool {
        &&& forall|i: int, j: int| 0 <= i < j < self.mints@.len() ==> (#[trigger] self.mints@[i]).name@ != (#[trigger] self.mints@[j]).name@
        &&& forall|i: int| 0 <= i < self.mints@.len() ==> (#[trigger] self.mints@[i]).wf()
        &&& forall|i: int, j: int| 0 <= i < j < self.invoices@.len()
            ==> (#[trigger] self.invoices@[i]).payment_hash@ != (#[trigger] self.invoices@[j]).payment_hash@
        &&& forall|i: int, j: int| 0 <= i < j < self.invoices@.len()
            ==> (#[trigger] self.invoices@[i]).hash@ != (#[trigger] self.invoices@[j]).hash@
        &&& spent_view(self.used_proofs@).no_duplicates()
    }

    /// An empty store.
    pub fn new() -> (r: Self)
        ensures
            r.wf(),
            r.mints@.len() == 0,
            r.invoices@.len() == 0,
            r.used_proofs@.len() == 0,
    {
        CashuMintReporitory { mints: Vec::new(), invoices: Vec::new(), used_proofs: Vec::new() }
    }

    fn find_mint(&self, name: &String) -> (r: Option<usize>)
        requires
            self.wf(),
        ensures
            r.is_some() == has_mint(self.mints@, name@),
            r matches Some(i) ==> i == mint_index(self.mints@, name@) && i < self.mints@.len(),
    {
        let mut i: usize = 0;
        while i < self.mints.len()
            invariant
                i <= self.mints@.len(),
                self.wf(),
                forall|j: int| 0 <= j < i ==> self.mints@[j].name@ != name@,
            decreases self.mints@.len() - i,
        {
            if self.mints[i].name == *name {
                proof {
                    assert(self.mints@[i as int].name@ == name@);
                    assert(has_mint(self.mints@, name@));
                    let k = mint_index(self.mints@, name@);
                    assert(0 <= k < self.mints@.len() && self.mints@[k].name@ == name@);
                    assert(k == i as int) by {
                        if k != i as int {
                            if k < i { assert(self.mints@[k].name@ != self.mints@[i as int].name@); }
                            else { assert(self.mints@[i as int].name@ != self.mints@[k].name@); }
                        }
                    }
                }
                return Some(i);
            }
            i = i + 1;
        }
        None
    }

    fn find_by_payment_hash(&self, payment_hash: &String) -> (r: Option<usize>)
        requires
            self.wf(),
        ensures
            r.is_some() == has_payment_hash(self.invoices@, payment_hash@),
            r matches Some(i) ==> i == payment_hash_index(self.invoices@, payment_hash@) && i < self.invoices@.len(),
    {
        let mut i: usize = 0;
        while i < self.invoices.len()
            invariant
                i <= self.invoices@.len(),
                self.wf(),
                forall|j: int| 0 <= j < i ==> self.invoices@[j].payment_hash@ != payment_hash@,
            decreases self.invoices@.len() - i,
        {
            if self.invoices[i].payment_hash == *payment_hash {
                proof {
                    assert(self.invoices@[i as int].payment_hash@ == payment_hash@);
                    assert(has_payment_hash(self.invoices@, payment_hash@));
                    let k = payment_hash_index(self.invoices@, payment_hash@);
                    assert(k == i as int) by {
                        if k != i as int {
                            if k < i {
                                assert(self.invoices@[k].payment_hash@ != self.invoices@[i as int].payment_hash@);
                            } else {
                                assert(self.invoices@[i as int].payment_hash@ != self.invoices@[k].payment_hash@);
                            }
                        }
                    }
                }
                return Some(i);
            }
            i = i + 1;
        }
        None
    }

    fn find_by_hash(&self, hash: &String) -> (r: Option<usize>)
        requires
            self.wf(),
        ensures
            r.is_some() == has_hash(self.invoices@, hash@),
            r matches Some(i) ==> i == hash_index(self.invoices@, hash@) && i < self.invoices@.len(),
    {
        let mut i: usize = 0;
        while i < self.invoices.len()
            invariant
                i <= self.invoices@.len(),
                self.wf(),
                forall|j: int| 0 <= j < i ==> self.invoices@[j].hash@ != hash@,
            decreases self.invoices@.len() - i,
        {
            if self.invoices[i].hash == *hash {
                proof {
                    assert(self.invoices@[i as int].hash@ == hash@);
                    assert(has_hash(self.invoices@, hash@));
                    let k = hash_index(self.invoices@, hash@);
                    assert(k == i as int) by {
                        if k != i as int {
                            if k < i {
                                assert(self.invoices@[k].hash@ != self.invoices@[i as int].hash@);
                            } else {
                                assert(self.invoices@[i as int].hash@ != self.invoices@[k].hash@);
                            }
                        }
                    }
                }
                return Some(i);
            }
            i = i + 1;
        }
        None
    }

    /// Registers a mint; fails when one of the same name exists.
    pub fn add_mint(&mut self, mint: StoredMint) -> (r: Result<(), SettlementError>)
        requires
            old(self).wf(),
            mint.wf(),
        ensures
            final(self).wf(),
            has_mint(old(self).mints@, mint.name@) ==> r == Err::<(), SettlementError>(SettlementError::DuplicateMint)
                && *final(self) == *old(self),
            !has_mint(old(self).mints@, mint.name@) ==> r is Ok && final(self).mints@ == old(self).mints@.push(mint)
                && final(self).invoices == old(self).invoices && final(self).used_proofs == old(self).used_proofs,
    {
        if self.find_mint(&mint.name).is_some() {
            return Err(SettlementError::DuplicateMint);
        }
        let ghost prev = self.mints@;
        self.mints.push(mint);
        proof {
            assert forall|i: int, j: int| 0 <= i < j < self.mints@.len() implies
                (#[trigger] self.mints@[i]).name@ != (#[trigger] self.mints@[j]).name@ by {
                if j == prev.len() {
                    assert(!(0 <= i < prev.len() && prev[i].name@ == mint.name@));
                }
            }
            assert forall|i: int| 0 <= i < self.mints@.len() implies (#[trigger] self.mints@[i]).wf() by {
                if i < prev.len() { assert(prev[i].wf()); }
            }
        }
        Ok(())
    }

    /// The mint of this name.
    pub fn get_mint(&self, name: &String) -> (r: Result<&StoredMint, SettlementError>)
        requires
            self.wf(),
        ensures
            match r {
                Ok(m) => has_mint(self.mints@, name@) && *m == self.mints@[mint_index(self.mints@, name@)],
                Err(e) => !has_mint(self.mints@, name@) && e == SettlementError::NotFound,
            },
    {
        match self.find_mint(name) {
            Some(i) => Ok(&self.mints[i]),
            None => Err(SettlementError::NotFound),
        }
    }

    /// Every registered mint.
    pub fn get_all_mints(&self) -> (r: &Vec<StoredMint>)
        ensures
            r@ == self.mints@,
    {
        &self.mints
    }

    /// Makes `keyset_id` the active keyset of the mint.
    pub fn set_active_keyset(&mut self, mint_id: &String, keyset_id: String) -> (r: Result<(), SettlementError>)
        requires
            old(self).wf(),
        ensures
            final(self).wf(),
            final(self).invoices == old(self).invoices,
            final(self).used_proofs == old(self).used_proofs,
            match r {
                Ok(_) => has_mint(old(self).mints@, mint_id@) && final(self).mints@ == old(self).mints@.update(
                    mint_index(old(self).mints@, mint_id@),
                    StoredMint { active_keyset: keyset_id, ..old(self).mints@[mint_index(old(self).mints@, mint_id@)] },
                ),
                Err(e) => !has_mint(old(self).mints@, mint_id@) && e == SettlementError::NotFound
                    && final(self).mints == old(self).mints,
            },
    {
        match self.find_mint(mint_id) {
            Some(i) => {
                self.mints[i].active_keyset = keyset_id;
                proof { self.lemma_mints_keep_names(old(self).mints@); }
                Ok(())
            },
            None => Err(SettlementError::NotFound),
        }
    }

    proof fn lemma_mints_keep_names(&self, prev: Seq<StoredMint>)
        requires
            self.mints@.len() == prev.len(),
            forall|i: int, j: int| 0 <= i < j < prev.len() ==> (#[trigger] prev[i]).name@ != (#[trigger] prev[j]).name@,
            forall|i: int| 0 <= i < prev.len() ==> (#[trigger] self.mints@[i]).name == prev[i].name,
            forall|i: int| 0 <= i < prev.len() ==> (#[trigger] self.mints@[i]).wf(),
            forall|i: int, j: int| 0 <= i < j < self.invoices@.len()
                ==> (#[trigger] self.invoices@[i]).payment_hash@ != (#[trigger] self.invoices@[j]).payment_hash@,
            forall|i: int, j: int| 0 <= i < j < self.invoices@.len()
                ==> (#[trigger] self.invoices@[i]).hash@ != (#[trigger] self.invoices@[j]).hash@,
            spent_view(self.used_proofs@).no_duplicates(),
        ensures
            self.wf(),
    {
        assert forall|i: int, j: int| 0 <= i < j < self.mints@.len() implies
            (#[trigger] self.mints@[i]).name@ != (#[trigger] self.mints@[j]).name@ by {
            assert(prev[i].name@ != prev[j].name@);
        }
    }

    proof fn lemma_invoices_keep_keys(&self, prev: Seq<InvoiceInfo>)
        requires
            self.invoices@.len() == prev.len(),
            forall|i: int, j: int| 0 <= i < j < prev.len()
                ==> (#[trigger] prev[i]).payment_hash@ != (#[trigger] prev[j]).payment_hash@,
            forall|i: int, j: int| 0 <= i < j < prev.len() ==> (#[trigger] prev[i]).hash@ != (#[trigger] prev[j]).hash@,
            forall|i: int| 0 <= i < prev.len() ==> (#[trigger] self.invoices@[i]).hash == prev[i].hash
                && self.invoices@[i].payment_hash == prev[i].payment_hash,
            forall|i: int, j: int| 0 <= i < j < self.mints@.len() ==> (#[trigger] self.mints@[i]).name@ != (#[trigger] self.mints@[j]).name@,
            forall|i: int| 0 <= i < self.mints@.len() ==> (#[trigger] self.mints@[i]).wf(),
            spent_view(self.used_proofs@).no_duplicates(),
        ensures
            self.wf(),
    {
        assert forall|i: int, j: int| 0 <= i < j < self.invoices@.len() implies
            (#[trigger] self.invoices@[i]).payment_hash@ != (#[trigger] self.invoices@[j]).payment_hash@ by {
            assert(prev[i].payment_hash@ != prev[j].payment_hash@);
        }
        assert forall|i: int, j: int| 0 <= i < j < self.invoices@.len() implies
            (#[trigger] self.invoices@[i]).hash@ != (#[trigger] self.invoices@[j]).hash@ by {
            assert(prev[i].hash@ != prev[j].hash@);
        }
    }

    /// Records a new invoice; fails when its payment hash or its request hash is
    /// already recorded.
    pub fn add_invoice(&mut self, invoice: InvoiceInfo) -> (r: Result<(), SettlementError>)
        requires
            old(self).wf(),
        ensures
            final(self).wf(),
            (has_payment_hash(old(self).invoices@, invoice.payment_hash@) || has_hash(old(self).invoices@, invoice.hash@))
                ==> r == Err::<(), SettlementError>(SettlementError::DuplicatePaymentHash) && *final(self) == *old(self),
            !(has_payment_hash(old(self).invoices@, invoice.payment_hash@) || has_hash(old(self).invoices@, invoice.hash@))
                ==> r is Ok && final(self).invoices@ == old(self).invoices@.push(invoice)
                && final(self).mints == old(self).mints && final(self).used_proofs == old(self).used_proofs,
    {
        if self.find_by_payment_hash(&invoice.payment_hash).is_some() || self.find_by_hash(&invoice.hash).is_some() {
            return Err(SettlementError::DuplicatePaymentHash);
        }
        let ghost prev = self.invoices@;
        self.invoices.push(invoice);
        proof {
            assert forall|i: int, j: int| 0 <= i < j < self.invoices@.len() implies
                (#[trigger] self.invoices@[i]).payment_hash@ != (#[trigger] self.invoices@[j]).payment_hash@ by {
                if j == prev.len() {
                    assert(!(0 <= i < prev.len() && prev[i].payment_hash@ == invoice.payment_hash@));
                }
            }
            assert forall|i: int, j: int| 0 <= i < j < self.invoices@.len() implies
                (#[trigger] self.invoices@[i]).hash@ != (#[trigger] self.invoices@[j]).hash@ by {
                if j == prev.len() {
                    assert(!(0 <= i < prev.len() && prev[i].hash@ == invoice.hash@));
                }
            }
        }
        Ok(())
    }

    /// The invoice with this request hash.
    pub fn get_invoice_info(&self, hash: &String) -> (r: Result<&InvoiceInfo, SettlementError>)
        requires
            self.wf(),
        ensures
            match r {
                Ok(inv) => has_hash(self.invoices@, hash@) && *inv == self.invoices@[hash_index(self.invoices@, hash@)],
                Err(e) => !has_hash(self.invoices@, hash@) && e == SettlementError::NotFound,
            },
    {
        match self.find_by_hash(hash) {
            Some(i) => Ok(&self.invoices[i]),
            None => Err(SettlementError::NotFound),
        }
    }

    /// The invoice with this payment hash.
    pub fn get_invoice_info_by_payment_hash(&self, payment_hash: &String) -> (r: Result<&InvoiceInfo, SettlementError>)
        requires
            self.wf(),
        ensures
            match r {
                Ok(inv) => has_payment_hash(self.invoices@, payment_hash@)
                    && *inv == self.invoices@[payment_hash_index(self.invoices@, payment_hash@)],
                Err(e) => !has_payment_hash(self.invoices@, payment_hash@) && e == SettlementError::NotFound,
            },
    {
        match self.find_by_payment_hash(payment_hash) {
            Some(i) => Ok(&self.invoices[i]),
            None => Err(SettlementError::NotFound),
        }
    }

    /// Records that the invoice was paid at `now`: an unpaid or in-flight invoice
    /// becomes paid, a paid one is left as it is, an expired one is refused.
    pub fn mark_paid(&mut self, payment_hash: &String, now: u64) -> (r: Result<(), SettlementError>)
        requires
            old(self).wf(),
        ensures
            final(self).wf(),
            final(self).mints == old(self).mints,
            final(self).used_proofs == old(self).used_proofs,
            !has_payment_hash(old(self).invoices@, payment_hash@) ==> r == Err::<(), SettlementError>(SettlementError::NotFound)
                && final(self).invoices == old(self).invoices,
            has_payment_hash(old(self).invoices@, payment_hash@) ==> {
                let i = payment_hash_index(old(self).invoices@, payment_hash@);
                let inv = old(self).invoices@[i];
                match mark_paid_check(inv) {
                    Err(e) => r == Err::<(), SettlementError>(e) && final(self).invoices == old(self).invoices,
                    Ok(false) => r is Ok && final(self).invoices == old(self).invoices,
                    Ok(true) => r is Ok && final(self).invoices@ == old(self).invoices@.update(i, paid_invoice(inv, now)),
                }
            },
    {
        let i = match self.find_by_payment_hash(payment_hash) {
            Some(i) => i,
            None => return Err(SettlementError::NotFound),
        };
        match self.invoices[i].status {
            InvoiceStatus::Expired => Err(SettlementError::InvalidTransition),
            InvoiceStatus::Paid => Ok(()),
            _ => {
                self.invoices[i].status = InvoiceStatus::Paid;
                self.invoices[i].confirmed_at = Some(now);
                proof { self.lemma_invoices_keep_keys(old(self).invoices@); }
                Ok(())
            },
        }
    }

    /// Records that tokens were issued against the paid invoice; refused for an
    /// invoice already issued or not paid.
    pub fn mark_issued(&mut self, payment_hash: &String) -> (r: Result<(), SettlementError>)
        requires
            old(self).wf(),
        ensures
            final(self).wf(),
            final(self).mints == old(self).mints,
            final(self).used_proofs == old(self).used_proofs,
            !has_payment_hash(old(self).invoices@, payment_hash@) ==> r == Err::<(), SettlementError>(SettlementError::NotFound)
                && final(self).invoices == old(self).invoices,
            has_payment_hash(old(self).invoices@, payment_hash@) ==> {
                let i = payment_hash_index(old(self).invoices@, payment_hash@);
                let inv = old(self).invoices@[i];
                match issue_check(inv) {
                    Some(e) => r == Err::<(), SettlementError>(e) && final(self).invoices == old(self).invoices,
                    None => r is Ok && final(self).invoices@ == old(self).invoices@.update(i, issued_invoice(inv)),
                }
            },
    {
        let i = match self.find_by_payment_hash(payment_hash) {
            Some(i) => i,
            None => return Err(SettlementError::NotFound),
        };
        if self.invoices[i].token_status == InvoiceTokenStatus::Issued {
            return Err(SettlementError::PreventDoubleIssuance);
        }
        if self.invoices[i].status != InvoiceStatus::Paid {
            return Err(SettlementError::InvoiceNotPayable);
        }
        self.invoices[i].token_status = InvoiceTokenStatus::Issued;
        proof { self.lemma_invoices_keep_keys(old(self).invoices@); }
        Ok(())
    }

    /// The e-cash in circulation at the mint, in millisatoshi.
    pub fn get_in_circulation(&self, mint_id: &String) -> (r: Result<u64, SettlementError>)
        requires
            self.wf(),
        ensures
            match r {
                Ok(c) => has_mint(self.mints@, mint_id@) && c == self.mints@[mint_index(self.mints@, mint_id@)].in_circulation_msat,
                Err(e) => !has_mint(self.mints@, mint_id@) && e == SettlementError::NotFound,
            },
    {
        match self.find_mint(mint_id) {
            Some(i) => Ok(self.mints[i].in_circulation_msat),
            None => Err(SettlementError::NotFound),
        }
    }

    /// Adds issued e-cash to the mint's circulation.
    pub fn credit(&mut self, mint_id: &String, amount_msat: u64) -> (r: Result<(), SettlementError>)
        requires
            old(self).wf(),
        ensures
            final(self).wf(),
            final(self).invoices == old(self).invoices,
            final(self).used_proofs == old(self).used_proofs,
            !has_mint(old(self).mints@, mint_id@) ==> r == Err::<(), SettlementError>(SettlementError::NotFound)
                && final(self).mints == old(self).mints,
            has_mint(old(self).mints@, mint_id@) ==> {
                let i = mint_index(old(self).mints@, mint_id@);
                let m = old(self).mints@[i];
                if m.in_circulation_msat + amount_msat > u64::MAX {
                    r == Err::<(), SettlementError>(SettlementError::LedgerOverflow) && final(self).mints == old(self).mints
                } else {
                    r is Ok && final(self).mints@ == old(self).mints@.update(i, credited(m, amount_msat))
                }
            },
    {
        let i = match self.find_mint(mint_id) {
            Some(i) => i,
            None => return Err(SettlementError::NotFound),
        };
        let c = self.mints[i].in_circulation_msat;
        if c > u64::MAX - amount_msat {
            return Err(SettlementError::LedgerOverflow);
        }
        let ghost issued = self.mints@[i as int].issued_msat@;
        self.mints[i].in_circulation_msat = c + amount_msat;
        self.mints[i].issued_msat = Ghost(issued.push(amount_msat as nat));
        proof {
            lemma_amount_sum_push(issued, amount_msat as nat);
            assert(self.mints@[i as int].wf());
            self.lemma_mints_keep_names(old(self).mints@);
        }
        Ok(())
    }

    /// Takes melted e-cash out of the mint's circulation; refused where the
    /// circulation would become negative.
    pub fn debit(&mut self, mint_id: &String, amount_msat: u64) -> (r: Result<(), SettlementError>)
        requires
            old(self).wf(),
        ensures
            final(self).wf(),
            final(self).invoices == old(self).invoices,
            final(self).used_proofs == old(self).used_proofs,
            !has_mint(old(self).mints@, mint_id@) ==> r == Err::<(), SettlementError>(SettlementError::NotFound)
                && final(self).mints == old(self).mints,
            has_mint(old(self).mints@, mint_id@) ==> {
                let i = mint_index(old(self).mints@, mint_id@);
                let m = old(self).mints@[i];
                if m.in_circulation_msat < amount_msat {
                    r == Err::<(), SettlementError>(SettlementError::LedgerUnderflow) && final(self).mints == old(self).mints
                } else {
                    r is Ok && final(self).mints@ == old(self).mints@.update(i, debited(m, amount_msat))
                }
            },
    {
        let i = match self.find_mint(mint_id) {
            Some(i) => i,
            None => return Err(SettlementError::NotFound),
        };
        let c = self.mints[i].in_circulation_msat;
        if c < amount_msat {
            return Err(SettlementError::LedgerUnderflow);
        }
        let ghost melted = self.mints@[i as int].melted_msat@;
        self.mints[i].in_circulation_msat = c - amount_msat;
        self.mints[i].melted_msat = Ghost(melted.push(amount_msat as nat));
        proof {
            lemma_amount_sum_push(melted, amount_msat as nat);
            assert(self.mints@[i as int].wf());
            self.lemma_mints_keep_names(old(self).mints@);
        }
        Ok(())
    }

    /// Whether the secret is recorded as spent at the mint.
    pub fn is_spent(&self, mint_id: &String, secret: &String) -> (r: bool)
        ensures
            r == is_spent_in(self.used_proofs@, mint_id@, secret@),
    {
        let mut i: usize = 0;
        while i < self.used_proofs.len()
            invariant
                i <= self.used_proofs@.len(),
                forall|j: int| 0 <= j < i ==> spent_view(self.used_proofs@)[j] != (mint_id@, secret@),
            decreases self.used_proofs@.len() - i,
        {
            if self.used_proofs[i].mint_id == *mint_id && self.used_proofs[i].secret == *secret {
                assert(spent_view(self.used_proofs@)[i as int] == (mint_id@, secret@));
                return true;
            }
            i = i + 1;
        }
        false
    }

    /// The secrets spent at the mint, in the order they were recorded.
    pub fn get_spent_secrets(&self, mint_id: &String) -> (r: Vec<String>)
        ensures
            forall|k: int| 0 <= k < r@.len() ==> is_spent_in(self.used_proofs@, mint_id@, #[trigger] r@[k]@),
            forall|i: int|
                0 <= i < self.used_proofs@.len() && (#[trigger] self.used_proofs@[i]).mint_id@ == mint_id@
                    ==> exists|k: int| 0 <= k < r@.len() && r@[k]@ == self.used_proofs@[i].secret@,
    {
        let mut r: Vec<String> = Vec::new();
        let mut i: usize = 0;
        while i < self.used_proofs.len()
            invariant
                i <= self.used_proofs@.len(),
                forall|k: int| 0 <= k < r@.len() ==> is_spent_in(self.used_proofs@, mint_id@, #[trigger] r@[k]@),
                forall|j: int|
                    0 <= j < i && (#[trigger] self.used_proofs@[j]).mint_id@ == mint_id@
                        ==> exists|k: int| 0 <= k < r@.len() && r@[k]@ == self.used_proofs@[j].secret@,
            decreases self.used_proofs@.len() - i,
        {
            if self.used_proofs[i].mint_id == *mint_id {
                let secret = self.used_proofs[i].secret.clone();
                proof {
                    assert(spent_view(self.used_proofs@)[i as int] == (mint_id@, secret@));
                }
                let ghost prev = r@;
                r.push(secret);
                proof {
                    assert(r@[prev.len() as int]@ == self.used_proofs@[i as int].secret@);
                    assert forall|j: int|
                        0 <= j < i + 1 && (#[trigger] self.used_proofs@[j]).mint_id@ == mint_id@
                            implies exists|k: int| 0 <= k < r@.len() && r@[k]@ == self.used_proofs@[j].secret@ by {
                        if j < i {
                            let k = choose|k: int| 0 <= k < prev.len() && prev[k]@ == self.used_proofs@[j].secret@;
                            assert(r@[k] == prev[k]);
                        } else {
                            assert(r@[prev.len() as int]@ == self.used_proofs@[j].secret@);
                        }
                    }
                }
            }
            i = i + 1;
        }
        r
    }

    /// Whether the batch may be recorded at the mint.
    pub fn check_fresh(&self, mint_id: &String, proofs: &Vec<Proof>) -> (r: bool)
        ensures
            r == batch_fresh(self.used_proofs@, mint_id@, proofs@),
    {
        let mut k: usize = 0;
        while k < proofs.len()
            invariant
                k <= proofs@.len(),
                forall|a: int| 0 <= a < k ==> !is_spent_in(self.used_proofs@, mint_id@, #[trigger] proofs@[a].secret@),
                forall|a: int, b: int| 0 <= a < b < k ==> proofs@[a].secret@ != proofs@[b].secret@,
            decreases proofs@.len() - k,
        {
            if self.is_spent(mint_id, &proofs[k].secret) {
                return false;
            }
            let mut l: usize = 0;
            while l < k
                invariant
                    l <= k < proofs@.len(),
                    forall|a: int| 0 <= a < l ==> proofs@[a].secret@ != proofs@[k as int].secret@,
                decreases k - l,
            {
                if proofs[l].secret == proofs[k].secret {
                    return false;
                }
                l = l + 1;
            }
            k = k + 1;
        }
        true
    }

    /// Records every secret of the batch as spent at the mint, or none of them:
    /// a batch with a secret already spent there, or with a secret twice, is
    /// refused as a double spend.
    pub fn add_used_proofs(&mut self, mint_id: &String, proofs: &Vec<Proof>) -> (r: Result<(), SettlementError>)
        requires
            old(self).wf(),
        ensures
            final(self).wf(),
            final(self).mints == old(self).mints,
            final(self).invoices == old(self).invoices,
            batch_fresh(old(self).used_proofs@, mint_id@, proofs@) ==> r is Ok
                && spent_view(final(self).used_proofs@) == spent_view(old(self).used_proofs@) + batch_view(mint_id@, proofs@),
            !batch_fresh(old(self).used_proofs@, mint_id@, proofs@) ==> r == Err::<(), SettlementError>(SettlementError::DoubleSpend)
                && final(self).used_proofs == old(self).used_proofs,
    {
        if !self.check_fresh(mint_id, proofs) {
            return Err(SettlementError::DoubleSpend);
        }
        let ghost before = self.used_proofs@;
        let mut k: usize = 0;
        while k < proofs.len()
            invariant
                k <= proofs@.len(),
                self.mints == old(self).mints,
                self.invoices == old(self).invoices,
                before == old(self).used_proofs@,
                batch_fresh(before, mint_id@, proofs@),
                spent_view(before).no_duplicates(),
                spent_view(self.used_proofs@) == spent_view(before) + batch_view(mint_id@, proofs@.subrange(0, k as int)),
                spent_view(self.used_proofs@).no_duplicates(),
            decreases proofs@.len() - k,
        {
            let ghost prev = self.used_proofs@;
            let u = UsedProof { mint_id: mint_id.clone(), secret: proofs[k].secret.clone() };
            let ghost x = (mint_id@, proofs@[k as int].secret@);
            proof {
                assert(!spent_view(prev).contains(x)) by {
                    if spent_view(prev).contains(x) {
                        let t = choose|t: int| 0 <= t < spent_view(prev).len() && spent_view(prev)[t] == x;
                        if t < before.len() {
                            assert(spent_view(before)[t] == x);
                            assert(is_spent_in(before, mint_id@, proofs@[k as int].secret@));
                        } else {
                            let l = t - before.len();
                            assert(batch_view(mint_id@, proofs@.subrange(0, k as int))[l] == x);
                            assert(proofs@[l].secret@ == proofs@[k as int].secret@);
                        }
                    }
                }
            }
            self.used_proofs.push(u);
            proof {
                assert(spent_view(self.used_proofs@) =~= spent_view(prev).push(x));
                assert(batch_view(mint_id@, proofs@.subrange(0, k + 1))
                    =~= batch_view(mint_id@, proofs@.subrange(0, k as int)).push(x));
                assert(spent_view(self.used_proofs@) =~= spent_view(before) + batch_view(mint_id@, proofs@.subrange(0, k + 1)));
                lemma_push_keeps_distinct(spent_view(prev), x);
            }
            k = k + 1;
        }
        assert(proofs@.subrange(0, proofs@.len() as int) =~= proofs@);
        Ok(())
    }
}

} // verus!
