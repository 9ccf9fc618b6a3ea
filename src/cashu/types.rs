use vstd::prelude::*;

verus! {

/// Payment state of a mint invoice.
#[derive(Debug, Clone, Copy, PartialEq, Eq, Structural)]
pub enum InvoiceStatus {
    Unpaid,
    Paid,
    Expired,
    InFlight,
}

/// Whether e-cash was already issued against a paid invoice.
#[derive(Debug, Clone, Copy, PartialEq, Eq, Structural)]
pub enum InvoiceTokenStatus {
    NotIssued,
    Issued,
}

/// A Lightning invoice that a mint handed out in exchange for future e-cash.
#[derive(Debug, Clone)]
pub struct InvoiceInfo {
    /// The mint's own identifier of the request.
    pub hash: String,
    /// The payment hash of the Lightning invoice.
    pub payment_hash: String,
    pub amount_msat: u64,
    pub status: InvoiceStatus,
    pub token_status: InvoiceTokenStatus,
    pub memo: String,
    /// The BOLT11 payment request.
    pub invoice: String,
    /// Unix time at which the payment was confirmed.
    pub confirmed_at: Option<u64>,
    pub mint_id: Option<String>,
}

pub fn copy_string_option(o: &Option<String>) -> (r: Option<String>)
    ensures
        r == *o,
{
    match o {
        Some(s) => Some(s.clone()),
        None => None,
    }
}

impl InvoiceInfo {
    /// This is a fresh invoice with these fields: unpaid, nothing issued, no
    /// memo, no confirmation.
    pub open spec fn is_fresh(self, hash: Seq<char>, payment_hash: Seq<char>, amount_msat: u64, invoice: Seq<char>, mint_id: Option<Seq<char>>) -> bool {
        &&& self.hash@ == hash
        &&& self.payment_hash@ == payment_hash
        &&& self.amount_msat == amount_msat
        &&& self.status == InvoiceStatus::Unpaid
        &&& self.token_status == InvoiceTokenStatus::NotIssued
        &&& self.memo@ == Seq::<char>::empty()
        &&& self.invoice@ == invoice
        &&& self.confirmed_at.is_none()
        &&& match self.mint_id {
            Some(m) => mint_id == Some(m@),
            None => mint_id.is_none(),
        }
    }

    /// A fresh invoice: unpaid, nothing issued, no memo.
    pub fn new(hash: String, payment_hash: String, amount_msat: u64, invoice: String, mint_id: Option<String>) -> (r: Self)
        ensures
            r.hash == hash,
            r.payment_hash == payment_hash,
            r.amount_msat == amount_msat,
            r.status == InvoiceStatus::Unpaid,
            r.token_status == InvoiceTokenStatus::NotIssued,
            r.memo@ == Seq::<char>::empty(),
            r.invoice == invoice,
            r.confirmed_at.is_none(),
            r.mint_id == mint_id,
    {
        InvoiceInfo {
            hash,
            payment_hash,
            amount_msat,
            status: InvoiceStatus::Unpaid,
            token_status: InvoiceTokenStatus::NotIssued,
            memo: String::new(),
            invoice,
            confirmed_at: None,
            mint_id,
        }
    }

    /// An equal copy.
    pub fn duplicate(&self) -> (r: Self)
        ensures
            r == *self,
    {
        InvoiceInfo {
            hash: self.hash.clone(),
            payment_hash: self.payment_hash.clone(),
            amount_msat: self.amount_msat,
            status: self.status,
            token_status: self.token_status,
            memo: self.memo.clone(),
            invoice: self.invoice.clone(),
            confirmed_at: self.confirmed_at,
            mint_id: copy_string_option(&self.mint_id),
        }
    }
}

/// The total of a sequence of amounts.
pub open spec fn amount_sum(amounts: Seq<nat>) -> int
    decreases amounts.len(),
{
    if amounts.len() == 0 {
        0
    } else {
        amount_sum(amounts.drop_last()) + amounts.last()
    }
}

/// Appending an amount adds it to the total.
pub proof fn lemma_amount_sum_push(amounts: Seq<nat>, a: nat)
    ensures
        amount_sum(amounts.push(a)) == amount_sum(amounts) + a,
{
    assert(amounts.push(a).drop_last() =~= amounts);
}

/// The record of one mint: its keysets, fee policy and the e-cash it has in circulation.
///
/// `issued_msat` holds the amount of every issuance since the mint was
/// registered, and `melted_msat` what every melt took out of circulation (the
/// paid amount plus the change).
pub struct StoredMint {
    pub name: String,
    pub active_keyset: String,
    pub inactive_keysets: Vec<String>,
    pub in_circulation_msat: u64,
    pub max_order: u8,
    pub min_fee_reserve_msat: u64,
    pub issued_msat: Ghost<Seq<nat>>,
    pub melted_msat: Ghost<Seq<nat>>,
}

impl StoredMint {
    /// The circulation is what was issued less what was melted.
    pub open spec fn wf(&self) -> bool {
        self.in_circulation_msat as int == amount_sum(self.issued_msat@) - amount_sum(self.melted_msat@)
    }

    /// A newly registered mint, with nothing in circulation.
    pub fn new(name: String, active_keyset: String, max_order: u8, min_fee_reserve_msat: u64) -> (r: Self)
        ensures
            r.wf(),
            r.name == name,
            r.active_keyset == active_keyset,
            r.inactive_keysets@.len() == 0,
            r.in_circulation_msat == 0,
            r.max_order == max_order,
            r.min_fee_reserve_msat == min_fee_reserve_msat,
            r.issued_msat@.len() == 0,
            r.melted_msat@.len() == 0,
    {
        StoredMint {
            name,
            active_keyset,
            inactive_keysets: Vec::new(),
            in_circulation_msat: 0,
            max_order,
            min_fee_reserve_msat,
            issued_msat: Ghost(Seq::empty()),
            melted_msat: Ghost(Seq::empty()),
        }
    }

    /// An equal copy.
    pub fn duplicate(&self) -> (r: Self)
        ensures
            r.name == self.name,
            r.active_keyset == self.active_keyset,
            r.inactive_keysets@ == self.inactive_keysets@,
            r.in_circulation_msat == self.in_circulation_msat,
            r.max_order == self.max_order,
            r.min_fee_reserve_msat == self.min_fee_reserve_msat,
            r.issued_msat == self.issued_msat,
            r.melted_msat == self.melted_msat,
    {
        let mut inactive: Vec<String> = Vec::new();
        let mut i: usize = 0;
        while i < self.inactive_keysets.len()
            invariant
                i <= self.inactive_keysets@.len(),
                inactive@ == self.inactive_keysets@.subrange(0, i as int),
            decreases self.inactive_keysets@.len() - i,
        {
            inactive.push(self.inactive_keysets[i].clone());
            assert(inactive@ =~= self.inactive_keysets@.subrange(0, i + 1));
            i = i + 1;
        }
        assert(inactive@ =~= self.inactive_keysets@);
        StoredMint {
            name: self.name.clone(),
            active_keyset: self.active_keyset.clone(),
            inactive_keysets: inactive,
            in_circulation_msat: self.in_circulation_msat,
            max_order: self.max_order,
            min_fee_reserve_msat: self.min_fee_reserve_msat,
            issued_msat: self.issued_msat,
            melted_msat: self.melted_msat,
        }
    }
}

/// A proof secret recorded as spent at a mint.
#[derive(Debug, Clone)]
pub struct UsedProof {
    pub mint_id: String,
    pub secret: String,
}

/// A bearer-token fragment presented to a mint.
#[derive(Debug, Clone)]
pub struct Proof {
    pub amount_msat: u64,
    pub keyset_id: String,
    pub secret: String,
    pub c: String,
}

/// A blinded output that the mint is asked to sign.
#[derive(Debug, Clone)]
pub struct BlindedMessage {
    pub amount_msat: u64,
    pub b: String,
}

/// A blind signature on an output, as returned by the mint engine.
#[derive(Debug, Clone)]
pub struct Promise {
    pub amount_msat: u64,
    pub keyset_id: String,
    pub c: String,
}

/// The total of the amounts of the outputs.
pub open spec fn outputs_total(outputs: Seq<BlindedMessage>) -> int
    decreases outputs.len(),
{
    if outputs.len() == 0 {
        0
    } else {
        outputs_total(outputs.drop_last()) + outputs.last().amount_msat
    }
}

/// The total of the amounts of the proofs.
pub open spec fn proofs_total(proofs: Seq<Proof>) -> int
    decreases proofs.len(),
{
    if proofs.len() == 0 {
        0
    } else {
        proofs_total(proofs.drop_last()) + proofs.last().amount_msat
    }
}

/// The sum of the output amounts, or `None` where it does not fit in a `u64`.
pub fn total_amount(outputs: &Vec<BlindedMessage>) -> (r: Option<u64>)
    ensures
        match r {
            Some(t) => t as int == outputs_total(outputs@),
            None => outputs_total(outputs@) > u64::MAX,
        },
{
    let mut total: u64 = 0;
    let mut i: usize = 0;
    while i < outputs.len()
        invariant
            i <= outputs@.len(),
            total as int == outputs_total(outputs@.subrange(0, i as int)),
        decreases outputs@.len() - i,
    {
        let a = outputs[i].amount_msat;
        proof {
            assert(outputs@.subrange(0, i + 1).drop_last() =~= outputs@.subrange(0, i as int));
        }
        if total > u64::MAX - a {
            proof { lemma_outputs_total_grows(outputs@, i as int + 1); }
            return None;
        }
        total = total + a;
        i = i + 1;
    }
    assert(outputs@.subrange(0, outputs@.len() as int) =~= outputs@);
    Some(total)
}

/// The total of a prefix never exceeds the total of the whole.
pub proof fn lemma_outputs_total_grows(outputs: Seq<BlindedMessage>, n: int)
    requires
        0 <= n <= outputs.len(),
    ensures
        outputs_total(outputs.subrange(0, n)) <= outputs_total(outputs),
    decreases outputs.len() - n,
{
    if n < outputs.len() {
        lemma_outputs_total_grows(outputs, n + 1);
        assert(outputs.subrange(0, n + 1).drop_last() =~= outputs.subrange(0, n));
    } else {
        assert(outputs.subrange(0, n) =~= outputs);
    }
}

/// The sum of the proof amounts, or `None` where it does not fit in a `u64`.
pub fn proofs_amount(proofs: &Vec<Proof>) -> (r: Option<u64>)
    ensures
        match r {
            Some(t) => t as int == proofs_total(proofs@),
            None => proofs_total(proofs@) > u64::MAX,
        },
{
    let mut total: u64 = 0;
    let mut i: usize = 0;
    while i < proofs.len()
        invariant
            i <= proofs@.len(),
            total as int == proofs_total(proofs@.subrange(0, i as int)),
        decreases proofs@.len() - i,
    {
        let a = proofs[i].amount_msat;
        proof {
            assert(proofs@.subrange(0, i + 1).drop_last() =~= proofs@.subrange(0, i as int));
        }
        if total > u64::MAX - a {
            proof { lemma_proofs_total_grows(proofs@, i as int + 1); }
            return None;
        }
        total = total + a;
        i = i + 1;
    }
    assert(proofs@.subrange(0, proofs@.len() as int) =~= proofs@);
    Some(total)
}

/// The total of a prefix never exceeds the total of the whole.
pub proof fn lemma_proofs_total_grows(proofs: Seq<Proof>, n: int)
    requires
        0 <= n <= proofs.len(),
    ensures
        proofs_total(proofs.subrange(0, n)) <= proofs_total(proofs),
    decreases proofs.len() - n,
{
    if n < proofs.len() {
        lemma_proofs_total_grows(proofs, n + 1);
        assert(proofs.subrange(0, n + 1).drop_last() =~= proofs.subrange(0, n));
    } else {
        assert(proofs.subrange(0, n) =~= proofs);
    }
}

} // verus!
