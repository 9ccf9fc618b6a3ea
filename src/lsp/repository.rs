use crate::error::SettlementError;
use crate::lsp::entity::{LspCustomer, LspCustomerConfig, LspInvoice};
use vstd::prelude::*;

verus! {

/// Whether a customer with this alias is registered.
pub open spec fn has_alias(customers: Seq<LspCustomer>, alias: Seq<char>) -> bool {
    exists|i: int| 0 <= i < customers.len() && customers[i].alias@ == alias
}

/// The position of the customer with this alias.
pub open spec fn alias_index(customers: Seq<LspCustomer>, alias: Seq<char>) -> int {
    choose|i: int| 0 <= i < customers.len() && customers[i].alias@ == alias
}

/// The customer's public identity is `npub`.
pub open spec fn has_npub(c: LspCustomer, npub: Seq<char>) -> bool {
    c.npub matches Some(n) && n@ == npub
}

/// Whether an invoice with this payment hash is stored.
pub open spec fn has_invoice(invoices: Seq<LspInvoice>, payment_hash: Seq<char>) -> bool {
    exists|i: int| 0 <= i < invoices.len() && invoices[i].payment_hash@ == payment_hash
}

/// The position of the invoice with this payment hash.
pub open spec fn invoice_index(invoices: Seq<LspInvoice>, payment_hash: Seq<char>) -> int {
    choose|i: int| 0 <= i < invoices.len() && invoices[i].payment_hash@ == payment_hash
}

/// The customers of the delivery service; aliases are unique.
pub struct LspCustomerRepository {
    pub customers: Vec<LspCustomer>,
}

impl LspCustomerRepository {
    pub open spec fn wf(&self) -> bool {
        forall|i: int, j: int| 0 <= i < j < self.customers@.len()
            ==> (#[trigger] self.customers@[i]).alias@ != (#[trigger] self.customers@[j]).alias@
    }

    /// The customer registered under `alias`, where there is one.
    pub open spec fn customer_of(&self, alias: Seq<char>) -> Option<LspCustomer> {
        if has_alias(self.customers@, alias) {
            Some(self.customers@[alias_index(self.customers@, alias)])
        } else {
            None
        }
    }

    /// An empty repository.
    pub fn new() -> (r: Self)
        ensures
            r.wf(),
            r.customers@.len() == 0,
    {
        LspCustomerRepository { customers: Vec::new() }
    }

    fn find_alias(&self, alias: &String) -> (r: Option<usize>)
        requires
            self.wf(),
        ensures
            r.is_some() == has_alias(self.customers@, alias@),
            r matches Some(i) ==> i == alias_index(self.customers@, alias@) && i < self.customers@.len(),
    {
        let mut i: usize = 0;
        while i < self.customers.len()
            invariant
                self.wf(),
                i <= self.customers@.len(),
                forall|j: int| 0 <= j < i ==> self.customers@[j].alias@ != alias@,
            decreases self.customers@.len() - i,
        {
            if self.customers[i].alias == *alias {
                proof {
                    assert(self.customers@[i as int].alias@ == alias@);
                    assert(has_alias(self.customers@, alias@));
                    let k = alias_index(self.customers@, alias@);
                    assert(k == i as int) by {
                        if k < i {
                            assert(self.customers@[k].alias@ != self.customers@[i as int].alias@);
                        } else if k > i {
                            assert(self.customers@[i as int].alias@ != self.customers@[k].alias@);
                        }
                    }
                }
                return Some(i);
            }
            i = i + 1;
        }
        None
    }

    /// Stores a new customer under its alias, with the alias as its record id;
    /// refused when the alias is taken.
    pub fn add_customer(&mut self, lsp_customer: LspCustomer) -> (r: Result<LspCustomer, SettlementError>)
        requires
            old(self).wf(),
        ensures
            final(self).wf(),
            has_alias(old(self).customers@, lsp_customer.alias@) ==> r == Err::<LspCustomer, SettlementError>(SettlementError::DuplicateAlias)
                && final(self).customers == old(self).customers,
            !has_alias(old(self).customers@, lsp_customer.alias@) ==> {
                let stored = LspCustomer { id: Some(lsp_customer.alias), ..lsp_customer };
                r == Ok::<LspCustomer, SettlementError>(stored) && final(self).customers@ == old(self).customers@.push(stored)
            },
    {
        if self.find_alias(&lsp_customer.alias).is_some() {
            return Err(SettlementError::DuplicateAlias);
        }
        let mut c = lsp_customer;
        c.id = Some(c.alias.clone());
        let stored = c.duplicate();
        let ghost prev = self.customers@;
        self.customers.push(c);
        proof {
            assert forall|i: int, j: int| 0 <= i < j < self.customers@.len() implies
                (#[trigger] self.customers@[i]).alias@ != (#[trigger] self.customers@[j]).alias@ by {
                if j == prev.len() {
                    assert(!(0 <= i < prev.len() && prev[i].alias@ == lsp_customer.alias@));
                }
            }
        }
        Ok(stored)
    }

    /// Replaces the delivery configuration of the customer with this alias.
    pub fn update_customer_lsp_config(&mut self, alias: &String, lsp_customer_config: LspCustomerConfig) -> (r: Result<
        LspCustomerConfig,
        SettlementError,
    >)
        requires
            old(self).wf(),
        ensures
            final(self).wf(),
            !has_alias(old(self).customers@, alias@) ==> r == Err::<LspCustomerConfig, SettlementError>(SettlementError::NotFound)
                && final(self).customers == old(self).customers,
            has_alias(old(self).customers@, alias@) ==> {
                let i = alias_index(old(self).customers@, alias@);
                r == Ok::<LspCustomerConfig, SettlementError>(lsp_customer_config) && final(self).customers@
                    == old(self).customers@.update(i, LspCustomer { config: lsp_customer_config, ..old(self).customers@[i] })
            },
    {
        let i = match self.find_alias(alias) {
            Some(i) => i,
            None => return Err(SettlementError::NotFound),
        };
        self.customers[i].config = lsp_customer_config;
        proof {
            let prev = old(self).customers@;
            assert forall|a: int, b: int| 0 <= a < b < self.customers@.len() implies
                (#[trigger] self.customers@[a]).alias@ != (#[trigger] self.customers@[b]).alias@ by {
                assert(prev[a].alias@ != prev[b].alias@);
            }
        }
        Ok(lsp_customer_config)
    }

    /// Every customer.
    pub fn get_customers(&self) -> (r: &Vec<LspCustomer>)
        ensures
            r@ == self.customers@,
    {
        &self.customers
    }

    /// The customer with this alias.
    pub fn get_customer_by_alias(&self, alias: &String) -> (r: Option<&LspCustomer>)
        requires
            self.wf(),
        ensures
            match r {
                Some(c) => self.customer_of(alias@) == Some(*c),
                None => self.customer_of(alias@) is None,
            },
    {
        match self.find_alias(alias) {
            Some(i) => Some(&self.customers[i]),
            None => None,
        }
    }

    /// The first customer whose public identity is `npub`.
    pub fn get_customer_by_npub(&self, npub: &String) -> (r: Option<&LspCustomer>)
        ensures
            match r {
                Some(c) => exists|i: int|
                    0 <= i < self.customers@.len() && self.customers@[i] == *c && has_npub(*c, npub@)
                        && forall|j: int| 0 <= j < i ==> !has_npub(#[trigger] self.customers@[j], npub@),
                None => forall|j: int| 0 <= j < self.customers@.len() ==> !has_npub(#[trigger] self.customers@[j], npub@),
            },
    {
        let mut i: usize = 0;
        while i < self.customers.len()
            invariant
                i <= self.customers@.len(),
                forall|j: int| 0 <= j < i ==> !has_npub(#[trigger] self.customers@[j], npub@),
            decreases self.customers@.len() - i,
        {
            let found = match &self.customers[i].npub {
                Some(n) => *n == *npub,
                None => false,
            };
            if found {
                return Some(&self.customers[i]);
            }
            i = i + 1;
        }
        None
    }

    /// The customer for whom the invoice with this payment hash was issued.
    pub fn get_customer_by_payment_hash(&self, invoices: &LspInvoiceRepository, payment_hash: &String) -> (r: Option<&LspCustomer>)
        requires
            self.wf(),
            invoices.wf(),
        ensures
            match r {
                Some(c) => invoices.alias_for(payment_hash@) matches Some(a) && self.customer_of(a) == Some(*c),
                None => match invoices.alias_for(payment_hash@) {
                    Some(a) => self.customer_of(a) is None,
                    None => true,
                },
            },
    {
        match invoices.get_alias(payment_hash) {
            Some(alias) => self.get_customer_by_alias(alias),
            None => None,
        }
    }
}

/// The invoices issued on customers' behalf, each with the alias of its
/// customer; payment hashes are unique.
pub struct LspInvoiceRepository {
    pub invoices: Vec<LspInvoice>,
    pub issued_for: Vec<String>,
}

impl LspInvoiceRepository {
    pub open spec fn wf(&self) -> bool {
        &&& self.invoices@.len() == self.issued_for@.len()
        &&& forall|i: int, j: int| 0 <= i < j < self.invoices@.len()
            ==> (#[trigger] self.invoices@[i]).payment_hash@ != (#[trigger] self.invoices@[j]).payment_hash@
    }

    /// The alias of the customer for whom the invoice with this payment hash
    /// was issued.
    pub open spec fn alias_for(&self, payment_hash: Seq<char>) -> Option<Seq<char>> {
        if has_invoice(self.invoices@, payment_hash) {
            Some(self.issued_for@[invoice_index(self.invoices@, payment_hash)]@)
        } else {
            None
        }
    }

    /// An empty repository.
    pub fn new() -> (r: Self)
        ensures
            r.wf(),
            r.invoices@.len() == 0,
    {
        LspInvoiceRepository { invoices: Vec::new(), issued_for: Vec::new() }
    }

    fn find_invoice(&self, payment_hash: &String) -> (r: Option<usize>)
        requires
            self.wf(),
        ensures
            r.is_some() == has_invoice(self.invoices@, payment_hash@),
            r matches Some(i) ==> i == invoice_index(self.invoices@, payment_hash@) && i < self.invoices@.len(),
    {
        let mut i: usize = 0;
        while i < self.invoices.len()
            invariant
                self.wf(),
                i <= self.invoices@.len(),
                forall|j: int| 0 <= j < i ==> self.invoices@[j].payment_hash@ != payment_hash@,
            decreases self.invoices@.len() - i,
        {
            if self.invoices[i].payment_hash == *payment_hash {
                proof {
                    assert(self.invoices@[i as int].payment_hash@ == payment_hash@);
                    assert(has_invoice(self.invoices@, payment_hash@));
                    let k = invoice_index(self.invoices@, payment_hash@);
                    assert(k == i as int) by {
                        if k < i {
                            assert(self.invoices@[k].payment_hash@ != self.invoices@[i as int].payment_hash@);
                        } else if k > i {
                            assert(self.invoices@[i as int].payment_hash@ != self.invoices@[k].payment_hash@);
                        }
                    }
                }
                return Some(i);
            }
            i = i + 1;
        }
        None
    }

    /// The alias of the customer for whom the invoice was issued.
    pub fn get_alias(&self, payment_hash: &String) -> (r: Option<&String>)
        requires
            self.wf(),
        ensures
            match r {
                Some(a) => self.alias_for(payment_hash@) == Some(a@),
                None => self.alias_for(payment_hash@) is None,
            },
    {
        match self.find_invoice(payment_hash) {
            Some(i) => Some(&self.issued_for[i]),
            None => None,
        }
    }

    /// Stores an invoice issued for the customer with this alias, with its
    /// payment hash as its record id; refused when the payment hash is taken.
    pub fn add_invoice(&mut self, lsp_invoice: LspInvoice, lsp_customer_alias: String) -> (r: Result<LspInvoice, SettlementError>)
        requires
            old(self).wf(),
        ensures
            final(self).wf(),
            has_invoice(old(self).invoices@, lsp_invoice.payment_hash@) ==> r == Err::<LspInvoice, SettlementError>(
                SettlementError::DuplicatePaymentHash,
            ) && *final(self) == *old(self),
            !has_invoice(old(self).invoices@, lsp_invoice.payment_hash@) ==> {
                let stored = LspInvoice { id: Some(lsp_invoice.payment_hash), ..lsp_invoice };
                &&& r == Ok::<LspInvoice, SettlementError>(stored)
                &&& final(self).invoices@ == old(self).invoices@.push(stored)
                &&& final(self).issued_for@ == old(self).issued_for@.push(lsp_customer_alias)
            },
    {
        if self.find_invoice(&lsp_invoice.payment_hash).is_some() {
            return Err(SettlementError::DuplicatePaymentHash);
        }
        let mut inv = lsp_invoice;
        inv.id = Some(inv.payment_hash.clone());
        let stored = inv.duplicate();
        let ghost prev = self.invoices@;
        self.invoices.push(inv);
        self.issued_for.push(lsp_customer_alias);
        proof {
            assert forall|i: int, j: int| 0 <= i < j < self.invoices@.len() implies
                (#[trigger] self.invoices@[i]).payment_hash@ != (#[trigger] self.invoices@[j]).payment_hash@ by {
                if j == prev.len() {
                    assert(!(0 <= i < prev.len() && prev[i].payment_hash@ == lsp_invoice.payment_hash@));
                }
            }
        }
        Ok(stored)
    }
}

} // verus!
