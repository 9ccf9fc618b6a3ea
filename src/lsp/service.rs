use crate::error::SettlementError;
use crate::lsp::delivery::{first_step, start_delivery, DeliveryStep};
use crate::lsp::entity::{default_config, LspCustomer, LspCustomerConfig, LspInvoice};
use crate::lsp::models::{GetInvoiceResponse, LspSignUpRequest, Nip05Params};
use crate::lsp::names::{generate_random_name, is_alias};
use crate::lsp::repository::{alias_index, has_alias, has_invoice, has_npub, LspCustomerRepository, LspInvoiceRepository};
use vstd::prelude::*;

verus! {

/// The delivery service: its customers, the invoices issued for them, and the
/// mint that issues their tokens.
pub struct LspCustomerService {
    pub repository: LspCustomerRepository,
    pub invoice_repository: LspInvoiceRepository,
    pub walletka_bank_endpoint: String,
    /// The mint at which tokens for customers are issued.
    pub cashu_mint: String,
}

impl LspCustomerService {
    pub open spec fn wf(&self) -> bool {
        self.repository.wf() && self.invoice_repository.wf()
    }

    /// The customer for whom the invoice with this payment hash was issued.
    pub open spec fn customer_for_payment(&self, payment_hash: Seq<char>) -> Option<LspCustomer> {
        match self.invoice_repository.alias_for(payment_hash) {
            Some(a) => self.repository.customer_of(a),
            None => None,
        }
    }

    pub fn new(
        repository: LspCustomerRepository,
        invoice_repository: LspInvoiceRepository,
        walletka_bank_endpoint: String,
        cashu_mint: String,
    ) -> (r: Self)
        ensures
            r.repository == repository,
            r.invoice_repository == invoice_repository,
            r.walletka_bank_endpoint == walletka_bank_endpoint,
            r.cashu_mint == cashu_mint,
    {
        LspCustomerService { repository, invoice_repository, walletka_bank_endpoint, cashu_mint }
    }

    /// Registers a customer under a freshly drawn alias, with the default
    /// configuration; refused where the alias drawn is taken.
    pub fn create_customer(&mut self, npub: String, node_id: Option<String>) -> (r: Result<LspCustomer, SettlementError>)
        requires
            old(self).wf(),
        ensures
            final(self).wf(),
            final(self).invoice_repository == old(self).invoice_repository,
            final(self).cashu_mint == old(self).cashu_mint,
            match r {
                Ok(c) => {
                    &&& is_alias(c.alias@)
                    &&& c.id == Some(c.alias)
                    &&& c.npub == Some(npub)
                    &&& c.node_id == node_id
                    &&& c.config == default_config()
                    &&& final(self).repository.customers@ == old(self).repository.customers@.push(c)
                },
                Err(e) => e == SettlementError::DuplicateAlias && *final(self) == *old(self),
            },
            r is Err ==> exists|a: Seq<char>| is_alias(a) && #[trigger] has_alias(old(self).repository.customers@, a),
    {
        let alias = generate_random_name();
        let lsp_customer = LspCustomer { id: None, node_id, npub: Some(npub), alias, config: LspCustomerConfig::default() };
        let ghost drawn = lsp_customer.alias@;
        let r = self.repository.add_customer(lsp_customer);
        proof {
            if r is Err {
                assert(is_alias(drawn) && has_alias(old(self).repository.customers@, drawn));
            }
        }
        r
    }

    /// Replaces the delivery configuration of the customer with this alias.
    pub fn update_customer_lsp_config(&mut self, alias: &String, config: LspCustomerConfig) -> (r: Result<
        LspCustomerConfig,
        SettlementError,
    >)
        requires
            old(self).wf(),
        ensures
            final(self).wf(),
            final(self).invoice_repository == old(self).invoice_repository,
            final(self).cashu_mint == old(self).cashu_mint,
            !has_alias(old(self).repository.customers@, alias@) ==> r == Err::<LspCustomerConfig, SettlementError>(
                SettlementError::NotFound,
            ) && final(self).repository == old(self).repository,
            has_alias(old(self).repository.customers@, alias@) ==> {
                let i = alias_index(old(self).repository.customers@, alias@);
                &&& r == Ok::<LspCustomerConfig, SettlementError>(config)
                &&& final(self).repository.customers@
                    == old(self).repository.customers@.update(i, LspCustomer { config, ..old(self).repository.customers@[i] })
                &&& final(self).repository.customer_of(alias@) == Some(
                    LspCustomer { config, ..old(self).repository.customer_of(alias@).unwrap() },
                )
            },
    {
        let r = self.repository.update_customer_lsp_config(alias, config);
        proof {
            if has_alias(old(self).repository.customers@, alias@) {
                let i = crate::lsp::repository::alias_index(old(self).repository.customers@, alias@);
                assert(self.repository.customers@[i].alias@ == alias@);
                assert(has_alias(self.repository.customers@, alias@));
                let j = crate::lsp::repository::alias_index(self.repository.customers@, alias@);
                assert(i == j) by {
                    if i < j {
                        assert(self.repository.customers@[i].alias@ != self.repository.customers@[j].alias@);
                    } else if j < i {
                        assert(self.repository.customers@[j].alias@ != self.repository.customers@[i].alias@);
                    }
                }
            }
        }
        r
    }

    /// Every customer.
    pub fn get_customers(&self) -> (r: &Vec<LspCustomer>)
        ensures
            r@ == self.repository.customers@,
    {
        self.repository.get_customers()
    }

    /// The customer with this alias.
    pub fn get_customer_by_alias(&self, alias: &String) -> (r: Option<&LspCustomer>)
        requires
            self.wf(),
        ensures
            match r {
                Some(c) => self.repository.customer_of(alias@) == Some(*c),
                None => self.repository.customer_of(alias@) is None,
            },
    {
        self.repository.get_customer_by_alias(alias)
    }

    /// The first customer whose public identity is `npub`.
    pub fn get_customer_by_npub(&self, npub: &String) -> (r: Option<&LspCustomer>)
        ensures
            match r {
                Some(c) => exists|i: int|
                    0 <= i < self.repository.customers@.len() && self.repository.customers@[i] == *c && has_npub(*c, npub@)
                        && forall|j: int| 0 <= j < i ==> !has_npub(#[trigger] self.repository.customers@[j], npub@),
                None => forall|j: int|
                    0 <= j < self.repository.customers@.len() ==> !has_npub(#[trigger] self.repository.customers@[j], npub@),
            },
    {
        self.repository.get_customer_by_npub(npub)
    }

    /// Stores an invoice issued for the customer with this alias; `expiration`
    /// is the Unix time at which it expires.
    pub fn store_invoice(
        &mut self,
        alias: &String,
        payment_hash: String,
        bolt11: String,
        amount_msat: Option<u64>,
        expiration: u64,
    ) -> (r: Result<LspInvoice, SettlementError>)
        requires
            old(self).wf(),
        ensures
            final(self).wf(),
            final(self).repository == old(self).repository,
            final(self).cashu_mint == old(self).cashu_mint,
            !has_alias(old(self).repository.customers@, alias@) ==> r == Err::<LspInvoice, SettlementError>(SettlementError::NotFound)
                && final(self).invoice_repository == old(self).invoice_repository,
            has_alias(old(self).repository.customers@, alias@) && has_invoice(old(self).invoice_repository.invoices@, payment_hash@)
                ==> r == Err::<LspInvoice, SettlementError>(SettlementError::DuplicatePaymentHash)
                && final(self).invoice_repository == old(self).invoice_repository,
            has_alias(old(self).repository.customers@, alias@) && !has_invoice(old(self).invoice_repository.invoices@, payment_hash@)
                ==> {
                let stored = LspInvoice { id: Some(payment_hash), payment_hash, bolt11, amount_msat, expiration };
                &&& r == Ok::<LspInvoice, SettlementError>(stored)
                &&& final(self).invoice_repository.invoices@ == old(self).invoice_repository.invoices@.push(stored)
                &&& final(self).invoice_repository.issued_for@ == old(self).invoice_repository.issued_for@.push(*alias)
            },
    {
        if self.repository.get_customer_by_alias(alias).is_none() {
            return Err(SettlementError::NotFound);
        }
        let lsp_invoice = LspInvoice { id: None, payment_hash, bolt11, amount_msat, expiration };
        self.invoice_repository.add_invoice(lsp_invoice, alias.clone())
    }

    /// The first step of delivering a received payment: nothing where no
    /// customer is known for the payment hash.
    pub fn handle_paid_invoice(&self, payment_hash: &String, amount_msat: u64) -> (r: DeliveryStep)
        requires
            self.wf(),
        ensures
            r == match self.customer_for_payment(payment_hash@) {
                Some(c) => first_step(c, amount_msat),
                None => DeliveryStep::Done,
            },
    {
        match self.repository.get_customer_by_payment_hash(&self.invoice_repository, payment_hash) {
            Some(customer) => start_delivery(customer, amount_msat),
            None => DeliveryStep::Done,
        }
    }
}

/// Signs a customer up: one already registered with the same public identity
/// is returned as it is, otherwise a new customer is created.
pub fn lsp_signup(lsp_customer_service: &mut LspCustomerService, body: LspSignUpRequest) -> (r: Result<LspCustomer, SettlementError>)
    requires
        old(lsp_customer_service).wf(),
    ensures
        final(lsp_customer_service).wf(),
        (exists|i: int|
            0 <= i < old(lsp_customer_service).repository.customers@.len()
                && has_npub(#[trigger] old(lsp_customer_service).repository.customers@[i], body.nostr_pubkey@)) ==> {
            &&& *final(lsp_customer_service) == *old(lsp_customer_service)
            &&& (r matches Ok(c) && has_npub(c, body.nostr_pubkey@)
                && old(lsp_customer_service).repository.customers@.contains(c))
        },
        (forall|i: int|
            0 <= i < old(lsp_customer_service).repository.customers@.len()
                ==> !has_npub(#[trigger] old(lsp_customer_service).repository.customers@[i], body.nostr_pubkey@)) ==> match r {
            Ok(c) => {
                &&& is_alias(c.alias@)
                &&& c.npub == Some(body.nostr_pubkey)
                &&& c.node_id == body.node_id
                &&& c.config == default_config()
                &&& final(lsp_customer_service).repository.customers@ == old(lsp_customer_service).repository.customers@.push(c)
            },
            Err(e) => e == SettlementError::DuplicateAlias && *final(lsp_customer_service) == *old(lsp_customer_service)
                && exists|a: Seq<char>| is_alias(a) && #[trigger] has_alias(old(lsp_customer_service).repository.customers@, a),
        },
{
    match lsp_customer_service.get_customer_by_npub(&body.nostr_pubkey) {
        Some(customer) => {
            let c = customer.duplicate();
            proof {
                let i = choose|i: int|
                    0 <= i < lsp_customer_service.repository.customers@.len()
                        && lsp_customer_service.repository.customers@[i] == *customer && has_npub(*customer, body.nostr_pubkey@)
                        && forall|j: int| 0 <= j < i ==> !has_npub(#[trigger] lsp_customer_service.repository.customers@[j], body.nostr_pubkey@);
                assert(lsp_customer_service.repository.customers@[i] == c);
            }
            return Ok(c);
        },
        None => {},
    }
    lsp_customer_service.create_customer(body.nostr_pubkey, body.node_id)
}

/// Replaces the delivery configuration of the customer with this alias.
pub fn update_config(lsp_customer_service: &mut LspCustomerService, alias: &String, body: LspCustomerConfig) -> (r: Result<
    LspCustomerConfig,
    SettlementError,
>)
    requires
        old(lsp_customer_service).wf(),
    ensures
        final(lsp_customer_service).wf(),
        final(lsp_customer_service).invoice_repository == old(lsp_customer_service).invoice_repository,
        !has_alias(old(lsp_customer_service).repository.customers@, alias@) ==> r == Err::<LspCustomerConfig, SettlementError>(
            SettlementError::NotFound,
        ) && final(lsp_customer_service).repository == old(lsp_customer_service).repository,
        has_alias(old(lsp_customer_service).repository.customers@, alias@) ==> {
            let i = alias_index(old(lsp_customer_service).repository.customers@, alias@);
            &&& r == Ok::<LspCustomerConfig, SettlementError>(body)
            &&& final(lsp_customer_service).repository.customers@ == old(lsp_customer_service).repository.customers@.update(
                i,
                LspCustomer { config: body, ..old(lsp_customer_service).repository.customers@[i] },
            )
        },
{
    lsp_customer_service.update_customer_lsp_config(alias, body)
}

/// Records the invoice that the node created for the customer with this alias,
/// and replies with its payment request.
pub fn get_invoice(
    lsp_customer_service: &mut LspCustomerService,
    alias: &String,
    pr: String,
    payment_hash: String,
    amount_msat: Option<u64>,
    expiration: u64,
) -> (r: Result<GetInvoiceResponse, SettlementError>)
    requires
        old(lsp_customer_service).wf(),
    ensures
        final(lsp_customer_service).wf(),
        final(lsp_customer_service).repository == old(lsp_customer_service).repository,
        !has_alias(old(lsp_customer_service).repository.customers@, alias@) ==> r == Err::<GetInvoiceResponse, SettlementError>(
            SettlementError::NotFound,
        ),
        has_alias(old(lsp_customer_service).repository.customers@, alias@) && has_invoice(
            old(lsp_customer_service).invoice_repository.invoices@,
            payment_hash@,
        ) ==> r == Err::<GetInvoiceResponse, SettlementError>(SettlementError::DuplicatePaymentHash),
        has_alias(old(lsp_customer_service).repository.customers@, alias@) && !has_invoice(
            old(lsp_customer_service).invoice_repository.invoices@,
            payment_hash@,
        ) ==> ((r matches Ok(resp) && resp.pr == pr && resp.success_action is None && resp.routes@.len() == 0)
            && final(lsp_customer_service).invoice_repository.issued_for@
            == old(lsp_customer_service).invoice_repository.issued_for@.push(*alias)
            && final(lsp_customer_service).invoice_repository.invoices@ == old(lsp_customer_service).invoice_repository.invoices@.push(
            LspInvoice { id: Some(payment_hash), payment_hash, bolt11: pr, amount_msat, expiration },
        )),
        r is Err ==> final(lsp_customer_service).invoice_repository == old(lsp_customer_service).invoice_repository,
{
    let bolt11 = pr.clone();
    match lsp_customer_service.store_invoice(alias, payment_hash, bolt11, amount_msat, expiration) {
        Ok(_) => Ok(GetInvoiceResponse { pr, success_action: None, routes: Vec::new() }),
        Err(e) => Err(e),
    }
}

/// The public identity of the customer named in the lookup.
pub fn nip05(lsp_customer_service: &LspCustomerService, params: &Nip05Params) -> (r: Result<String, SettlementError>)
    requires
        lsp_customer_service.wf(),
    ensures
        match params.name {
            Some(name) => match lsp_customer_service.repository.customer_of(name@) {
                Some(c) => match c.npub {
                    Some(n) => r == Ok::<String, SettlementError>(n),
                    None => r == Err::<String, SettlementError>(SettlementError::NotFound),
                },
                None => r == Err::<String, SettlementError>(SettlementError::NotFound),
            },
            None => r == Err::<String, SettlementError>(SettlementError::NotFound),
        },
{
    match &params.name {
        Some(name) => match lsp_customer_service.get_customer_by_alias(name) {
            Some(c) => match &c.npub {
                Some(n) => Ok(n.clone()),
                None => Err(SettlementError::NotFound),
            },
            None => Err(SettlementError::NotFound),
        },
        None => Err(SettlementError::NotFound),
    }
}

} // verus!
