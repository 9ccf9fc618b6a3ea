use walletka::lsp::delivery::{channel_amount_sats, next_delivery_step, start_delivery};
use walletka::lsp::names::alias_from_picks;
use walletka::lsp::service::{get_invoice, lsp_signup, nip05, update_config};
use walletka::{
    generate_random_name, DeliveryStep, LspCustomer, LspCustomerConfig, LspCustomerRepository, LspCustomerService,
    LspInvoiceRepository, LspSignUpRequest, Nip05Params, SettlementError, StepOutcome,
};

const SYLLABLES: [&str; 25] = [
    "ko", "mi", "yu", "ta", "sa", "na", "shi", "ka", "to", "mo", "fu", "hi", "ma", "ku", "re", "no", "do", "chi",
    "ro", "me", "ri", "ra", "sen", "gan", "ga",
];

/// The number of syllables `name` splits into, trying every split.
fn syllable_splits(name: &str) -> Vec<usize> {
    if name.is_empty() {
        return vec![0];
    }
    let mut counts = Vec::new();
    for syl in SYLLABLES.iter() {
        if let Some(rest) = name.strip_prefix(syl) {
            for c in syllable_splits(rest) {
                counts.push(c + 1);
            }
        }
    }
    counts
}

fn s(x: &str) -> String {
    x.to_string()
}

fn service() -> LspCustomerService {
    LspCustomerService::new(LspCustomerRepository::new(), LspInvoiceRepository::new(), s("http://bank"), s("lsp-mint"))
}

fn customer(node_id: Option<&str>, npub: Option<&str>) -> LspCustomer {
    LspCustomer {
        id: None,
        node_id: node_id.map(s),
        npub: npub.map(s),
        alias: s("komi"),
        config: LspCustomerConfig::default(),
    }
}

#[test]
fn test_create_user() {
    let mut repository = LspCustomerRepository::new();
    let customer = LspCustomer {
        id: None,
        node_id: Some("fake node id".to_string()),
        npub: Some("None".to_string()),
        alias: "fake alias".to_string(),
        config: LspCustomerConfig::default(),
    };
    let created_customer = repository.add_customer(customer);
    let by_npub = repository.get_customer_by_npub(&"None".to_string());
    assert!(by_npub.is_some());
    assert!(created_customer.is_ok());
    assert!(created_customer.unwrap().id.is_some());
}

#[test]
fn default_config_values() {
    let c = LspCustomerConfig::default();
    assert_eq!(c.min_channel_size_sat, 20_000);
    assert!(!c.include_onchain_fee);
    assert!(c.enable_ecash);
    assert_eq!(c.max_ecash_receive_sat, 210_000_000_000);
    assert!(c.public_channels);
}

#[test]
fn random_alias_is_two_to_four_syllables() {
    for _ in 0..50 {
        let name = generate_random_name();
        let splits = syllable_splits(&name);
        assert!(splits.iter().any(|c| (2..=4).contains(c)), "{}", name);
        assert!(name.len() >= 4);
    }
}

#[test]
fn duplicate_alias_is_refused() {
    let mut repo = LspCustomerRepository::new();
    repo.add_customer(customer(None, None)).unwrap();
    assert_eq!(repo.add_customer(customer(Some("n"), None)).err(), Some(SettlementError::DuplicateAlias));
    assert_eq!(repo.get_customers().len(), 1);
}

#[test]
fn signup_returns_existing_customer_by_identity() {
    let mut svc = service();
    let first = lsp_signup(&mut svc, LspSignUpRequest { node_id: None, nostr_pubkey: s("npub1x") }).unwrap();
    assert_eq!(first.npub, Some(s("npub1x")));
    assert_eq!(first.id, Some(first.alias.clone()));
    let again = lsp_signup(&mut svc, LspSignUpRequest { node_id: Some(s("02ab")), nostr_pubkey: s("npub1x") }).unwrap();
    assert_eq!(again.alias, first.alias);
    assert_eq!(again.node_id, None);
    assert_eq!(svc.get_customers().len(), 1);
}

#[test]
fn config_update_and_lookup() {
    let mut svc = service();
    let c = svc.create_customer(s("npub1y"), Some(s("02cd"))).unwrap();
    let mut cfg = LspCustomerConfig::default();
    cfg.min_channel_size_sat = 1;
    assert_eq!(update_config(&mut svc, &c.alias, cfg), Ok(cfg));
    assert_eq!(svc.get_customer_by_alias(&c.alias).unwrap().config.min_channel_size_sat, 1);
    assert_eq!(update_config(&mut svc, &s("nobody"), cfg), Err(SettlementError::NotFound));
    assert_eq!(svc.get_customer_by_npub(&s("npub1y")).unwrap().alias, c.alias);
    assert!(svc.get_customer_by_npub(&s("npub1z")).is_none());
}

#[test]
fn invoice_links_payment_to_customer() {
    let mut svc = service();
    let c = svc.create_customer(s("npub1y"), Some(s("02cd"))).unwrap();
    let resp = get_invoice(&mut svc, &c.alias, s("lnbc50"), s("ph1"), Some(50_000_000), 1_700_036_000).unwrap();
    assert_eq!(resp.pr, "lnbc50");
    assert!(resp.routes.is_empty());
    assert_eq!(
        get_invoice(&mut svc, &c.alias, s("lnbc51"), s("ph1"), None, 0).err(),
        Some(SettlementError::DuplicatePaymentHash)
    );
    assert_eq!(get_invoice(&mut svc, &s("ghost"), s("lnbc"), s("ph2"), None, 0).err(), Some(SettlementError::NotFound));
    let step = svc.handle_paid_invoice(&s("ph1"), 50_000_000);
    assert_eq!(step, DeliveryStep::SendKeysend { node_id: s("02cd"), amount_msat: 50_000_000 });
    assert_eq!(svc.handle_paid_invoice(&s("unknown"), 1), DeliveryStep::Done);
}

#[test]
fn customer_without_node_is_not_delivered() {
    let c = customer(None, Some("npub"));
    let step = start_delivery(&c, 1000);
    assert_eq!(step, DeliveryStep::Done);
    assert_eq!(step.handler_result(), Some(Ok(())));
}

#[test]
fn fallback_cascade_keysend_channel_token() {
    let c = customer(Some("02node"), Some("npub1c"));
    let mint = s("lsp-mint");
    let amount = 50_000_000;
    let step = start_delivery(&c, amount);
    assert_eq!(step, DeliveryStep::SendKeysend { node_id: s("02node"), amount_msat: amount });
    let step = next_delivery_step(&c, &mint, amount, &step, &StepOutcome::Failed);
    assert_eq!(
        step,
        DeliveryStep::OpenChannel {
            node_id: s("02node"),
            channel_amount_sats: 60_000,
            push_to_counterparty_msat: 50_000_000,
            public: true
        }
    );
    let step = next_delivery_step(&c, &mint, amount, &step, &StepOutcome::Failed);
    assert_eq!(step, DeliveryStep::MintToken { mint_id: mint.clone(), amount_msat: 50_000_000 });
    assert_eq!(step.handler_result(), None);
    let step = next_delivery_step(&c, &mint, amount, &step, &StepOutcome::TokenMinted(s("cashuA1")));
    assert_eq!(step, DeliveryStep::SendToken { npub: s("npub1c"), token: s("cashuA1") });
    let step = next_delivery_step(&c, &mint, amount, &step, &StepOutcome::Succeeded);
    assert_eq!(step, DeliveryStep::Delivered);
    assert_eq!(step.handler_result(), Some(Ok(())));
}

#[test]
fn keysend_success_is_terminal() {
    let c = customer(Some("02node"), None);
    let step = start_delivery(&c, 10);
    let step = next_delivery_step(&c, &s("m"), 10, &step, &StepOutcome::Succeeded);
    assert_eq!(step, DeliveryStep::Delivered);
}

#[test]
fn small_amount_skips_channel() {
    let c = customer(Some("02node"), Some("npub"));
    // exactly at the threshold: not above it
    let amount = 20_000_000;
    let step = start_delivery(&c, amount);
    let step = next_delivery_step(&c, &s("m"), amount, &step, &StepOutcome::Failed);
    assert_eq!(step, DeliveryStep::MintToken { mint_id: s("m"), amount_msat: amount });
}

#[test]
fn token_without_identity_is_undeliverable() {
    let c = customer(Some("02node"), None);
    let step = DeliveryStep::MintToken { mint_id: s("m"), amount_msat: 5 };
    let step = next_delivery_step(&c, &s("m"), 5, &step, &StepOutcome::TokenMinted(s("t")));
    assert_eq!(step, DeliveryStep::Failed(SettlementError::UndeliverablePayment));
    assert_eq!(step.handler_result(), Some(Err(SettlementError::UndeliverablePayment)));
}

#[test]
fn unsent_token_fails_the_event() {
    let c = customer(Some("02node"), Some("npub"));
    let step = DeliveryStep::SendToken { npub: s("npub"), token: s("t") };
    let step = next_delivery_step(&c, &s("m"), 5, &step, &StepOutcome::Failed);
    assert_eq!(step, DeliveryStep::Failed(SettlementError::MessageNotSent));
}

#[test]
fn channel_is_a_fifth_larger() {
    assert_eq!(channel_amount_sats(50_000_000), 60_000);
    assert_eq!(channel_amount_sats(999), 0);
    assert_eq!(channel_amount_sats(u64::MAX), (u64::MAX / 1000) * 12 / 10);
}

#[test]
fn nip05_lookup() {
    let mut svc = service();
    let c = svc.create_customer(s("npub1q"), None).unwrap();
    assert_eq!(nip05(&svc, &Nip05Params { name: Some(c.alias.clone()) }), Ok(s("npub1q")));
    assert_eq!(nip05(&svc, &Nip05Params { name: None }), Err(SettlementError::NotFound));
    assert_eq!(nip05(&svc, &Nip05Params { name: Some(s("zz")) }), Err(SettlementError::NotFound));
}

#[test]
fn alias_is_the_picked_syllables() {
    assert_eq!(alias_from_picks(&vec![0, 22, 6]), "kosenshi");
    assert_eq!(alias_from_picks(&vec![24, 24]), "gaga");
}

#[test]
fn first_customer_always_gets_created() {
    for _ in 0..20 {
        let mut svc = service();
        assert!(svc.create_customer(s("npub"), None).is_ok());
    }
}
