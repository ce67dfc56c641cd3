use aerx::ledger::LedgerError;
use aerx::metadata::FtContractMetadata;
use aerx::reply::CallOutcome;
use aerx::token::{Aex, TokenAction, TokenError, TransferMethod, TransferReply, REGISTRATION_GIFT};

const OWNER: &str = "owner.near";
const AERX: &str = "aerx.near";
const AESWAP: &str = "aeswap.near";
const BYTE_COST: u128 = 10_000_000_000_000_000_000;
const ACCOUNT_BYTES: u64 = 125;
const MIN_STORAGE: u128 = 125 * BYTE_COST;

fn s(x: &str) -> String {
    x.to_string()
}

fn token(supply: u128) -> Aex {
    match Aex::new_default_metadata(s(OWNER), supply, s(AERX), s(AESWAP), ACCOUNT_BYTES, BYTE_COST) {
        Ok(a) => a,
        Err(e) => panic!("creation refused: {:?}", e),
    }
}

fn with_account(t: &mut Aex, id: &str) {
    match t.storage_deposit(&s(id), None, MIN_STORAGE) {
        Ok(_) => {}
        Err(e) => panic!("storage deposit refused: {:?}", e),
    }
}

fn rewarded_user(t: &mut Aex, id: &str) {
    match t.register_and_reward_user(&s(AERX), s(id), MIN_STORAGE + 100, 100) {
        Ok(_) => {}
        Err(e) => panic!("registration refused: {:?}", e),
    }
}

fn sum_of(t: &Aex, ids: &[&str]) -> u128 {
    ids.iter().map(|id| t.ft_balance_of(&s(id))).sum()
}

#[test]
fn default_contract_credits_the_owner() {
    let t = token(1_000_000);
    assert_eq!(t.ft_total_supply(), 1_000_000);
    assert_eq!(t.ft_balance_of(&s(OWNER)), 1_000_000);
    assert_eq!(t.ft_balance_of(&s(AERX)), 0);
    assert!(t.is_registered(&s(AESWAP)));
    assert!(!t.is_registered(&s("nobody.near")));
    assert_eq!(t.get_owner(), s(OWNER));
    let m = t.ft_metadata();
    assert_eq!(m.spec, "ft-1.0.0");
    assert_eq!(m.name, "AEX TOKEN");
    assert_eq!(m.symbol, "AEX");
    assert_eq!(m.decimals, 24);
    assert!(m.icon.as_ref().unwrap().starts_with("data:image/svg+xml,%3csvg xmlns='http://www.w3.org/2000/svg' fill='none' viewBox='0 0 32 32'"));
    assert!(m.reference.is_none() && m.reference_hash.is_none());
}

#[test]
fn creation_checks_metadata_and_distinct_accounts() {
    let mut bad = FtContractMetadata::aex_default();
    bad.spec = s("ft-2.0.0");
    assert!(matches!(
        Aex::new(s(OWNER), 5, bad, s(AERX), s(AESWAP), ACCOUNT_BYTES, BYTE_COST),
        Err(TokenError::InvalidMetadata)
    ));
    let mut half_reference = FtContractMetadata::aex_default();
    half_reference.reference = Some(s("https://aerx.example/ft.json"));
    assert!(matches!(
        Aex::new(s(OWNER), 5, half_reference, s(AERX), s(AESWAP), ACCOUNT_BYTES, BYTE_COST),
        Err(TokenError::InvalidMetadata)
    ));
    let mut short_hash = FtContractMetadata::aex_default();
    short_hash.reference = Some(s("https://aerx.example/ft.json"));
    short_hash.reference_hash = Some(vec![7u8; 31]);
    assert!(matches!(
        Aex::new(s(OWNER), 5, short_hash, s(AERX), s(AESWAP), ACCOUNT_BYTES, BYTE_COST),
        Err(TokenError::InvalidMetadata)
    ));
    let mut full_reference = FtContractMetadata::aex_default();
    full_reference.reference = Some(s("https://aerx.example/ft.json"));
    full_reference.reference_hash = Some(vec![7u8; 32]);
    assert!(Aex::new(s(OWNER), 5, full_reference, s(AERX), s(AESWAP), ACCOUNT_BYTES, BYTE_COST).is_ok());
    assert!(matches!(
        Aex::new_default_metadata(s(OWNER), 5, s(OWNER), s(AESWAP), ACCOUNT_BYTES, BYTE_COST),
        Err(TokenError::Ledger(LedgerError::AlreadyRegistered))
    ));
}

#[test]
fn storage_bounds_follow_account_size() {
    let mut t = token(10);
    let b = t.storage_balance_bounds().unwrap();
    assert_eq!(b.min, MIN_STORAGE);
    assert_eq!(b.max, MIN_STORAGE);
    assert!(t.storage_balance_of(&s("alice.near")).unwrap().is_none());
    assert!(matches!(
        t.storage_deposit(&s("alice.near"), None, MIN_STORAGE - 1),
        Err(TokenError::InsufficientDeposit)
    ));
    let (bal, actions) = t.storage_deposit(&s("alice.near"), None, MIN_STORAGE + 9).unwrap();
    assert_eq!(bal.total, MIN_STORAGE);
    assert_eq!(bal.available, 0);
    assert!(matches!(&actions[..], [TokenAction::Pay { to, amount: 9 }] if to == "alice.near"));
    let again = t.storage_balance_of(&s("alice.near")).unwrap().unwrap();
    assert_eq!(again.total, MIN_STORAGE);
    // A second deposit refunds everything.
    let (_, actions) = t.storage_deposit(&s("alice.near"), None, 5).unwrap();
    assert!(matches!(&actions[..], [TokenAction::Pay { amount: 5, .. }]));
    assert!(matches!(t.storage_withdraw(&s("alice.near"), None, 0), Err(TokenError::RequiresOneYocto)));
    assert!(matches!(t.storage_withdraw(&s("alice.near"), Some(1), 1), Err(TokenError::NothingToWithdraw)));
    assert!(matches!(t.storage_withdraw(&s("bob.near"), None, 1), Err(TokenError::NotRegistered)));
    assert_eq!(t.storage_withdraw(&s("alice.near"), None, 1).unwrap().total, MIN_STORAGE);
}

#[test]
fn registration_gift_is_given_once() {
    let mut t = token(1_000);
    assert!(matches!(
        t.register_and_reward_user(&s("mallory.near"), s("alice.near"), MIN_STORAGE, 0),
        Err(TokenError::Unauthorized)
    ));
    assert!(matches!(
        t.register_and_reward_user(&s(AERX), s("alice.near"), MIN_STORAGE + 99, 100),
        Err(TokenError::InsufficientDeposit)
    ));
    let (balance, actions) = t.register_and_reward_user(&s(AERX), s("alice.near"), MIN_STORAGE + 130, 100).unwrap();
    assert_eq!(balance, REGISTRATION_GIFT);
    assert_eq!(t.ft_total_supply(), 1_000 + REGISTRATION_GIFT);
    assert!(t.is_aerx_user(&s("alice.near")));
    assert!(matches!(&actions[..], [
        TokenAction::Pay { to, amount: 30 },
        TokenAction::Minted { owner, amount, memo },
    ] if to == AERX && owner == "alice.near" && *amount == REGISTRATION_GIFT && memo == "Aerx Registration gift"));
    // Again: no second gift, the whole deposit goes back.
    let (balance, actions) = t.register_and_reward_user(&s(AERX), s("alice.near"), 77, 100).unwrap();
    assert_eq!(balance, REGISTRATION_GIFT);
    assert_eq!(t.ft_total_supply(), 1_000 + REGISTRATION_GIFT);
    assert!(matches!(&actions[..], [TokenAction::Pay { amount: 77, .. }]));
}

#[test]
fn unrewarded_users_pay_storage_but_get_no_gift() {
    let mut t = token(1_000);
    assert!(matches!(
        t.add_unrewarded_user(&s(OWNER), s("carol.near"), MIN_STORAGE + 50, 50),
        Err(TokenError::Unauthorized)
    ));
    let (reply, actions) = t.add_unrewarded_user(&s(AERX), s("carol.near"), MIN_STORAGE + 80, 50).unwrap();
    assert_eq!(reply, vec![MIN_STORAGE + 50, 0]);
    assert!(matches!(&actions[..], [TokenAction::Pay { amount: 30, .. }]));
    assert!(t.is_aerx_user(&s("carol.near")));
    assert_eq!(t.ft_total_supply(), 1_000);
    // An existing account only pays for being recorded.
    with_account(&mut t, "dave.near");
    let (reply, _) = t.add_unrewarded_user(&s(AERX), s("dave.near"), 50, 50).unwrap();
    assert_eq!(reply, vec![50, 0]);
}

#[test]
fn minting_and_burning_belong_to_the_owner() {
    let mut t = token(1_000);
    assert!(matches!(t.mint_aex(&s("alice.near"), 5, None), Err(TokenError::Unauthorized)));
    let (minted, actions) = t.mint_aex(&s(OWNER), 500, Some(s("top up"))).unwrap();
    assert_eq!(minted, 500);
    assert_eq!(t.ft_total_supply(), 1_500);
    assert!(matches!(&actions[..], [TokenAction::Minted { amount: 500, memo, .. }] if memo == "top up"));
    let (burned, _) = t.burn_aex(&s(OWNER), 200, None).unwrap();
    assert_eq!(burned, 200);
    assert_eq!(t.ft_total_supply(), 1_300);
    assert_eq!(t.ft_balance_of(&s(OWNER)), 1_300);
    assert!(matches!(t.burn_aex(&s(OWNER), 5_000, None), Err(TokenError::Ledger(_))));
    assert!(matches!(t.change_owner_to(&s("alice.near"), s("alice.near")), Err(TokenError::Unauthorized)));
    t.change_owner_to(&s(OWNER), s("alice.near")).unwrap();
    assert_eq!(t.get_owner(), s("alice.near"));
}

#[test]
fn swap_minting_is_for_aeswap_only() {
    let mut t = token(1_000);
    with_account(&mut t, "erin.near");
    assert!(matches!(t.mint_aex_for_swap(&s(AERX), s("erin.near"), 5, None), Err(TokenError::Unauthorized)));
    let (amount, _) = t.mint_aex_for_swap(&s(AESWAP), s("erin.near"), 40, None).unwrap();
    assert_eq!(amount, 40);
    assert_eq!(t.ft_balance_of(&s("erin.near")), 40);
    assert_eq!(t.ft_total_supply(), 1_040);
}

#[test]
fn plain_transfer_moves_tokens_and_reports_earnings() {
    let mut t = token(1_000);
    with_account(&mut t, "bob.near");
    rewarded_user(&mut t, "alice.near");
    assert!(matches!(t.ft_transfer(&s(OWNER), s("bob.near"), 10, None, 0), Err(TokenError::RequiresOneYocto)));
    let actions = t.ft_transfer(&s(OWNER), s("bob.near"), 10, Some(s("hi")), 1).unwrap();
    assert_eq!(t.ft_balance_of(&s("bob.near")), 10);
    assert!(matches!(&actions[..], [TokenAction::Transferred { amount: 10, .. }]));
    let actions = t.ft_transfer(&s(OWNER), s("alice.near"), 7, None, 1).unwrap();
    assert_eq!(t.ft_balance_of(&s("alice.near")), REGISTRATION_GIFT + 7);
    assert!(matches!(&actions[..], [
        TokenAction::Transferred { .. },
        TokenAction::IncreaseEarnings { user, amount: 7 },
    ] if user == "alice.near"));
    assert!(matches!(
        t.ft_transfer(&s("bob.near"), s("bob.near"), 1, None, 1),
        Err(TokenError::Ledger(LedgerError::SameAccount))
    ));
    assert!(matches!(
        t.ft_transfer(&s("bob.near"), s(OWNER), 11, None, 1),
        Err(TokenError::Ledger(LedgerError::InsufficientBalance))
    ));
    assert!(matches!(
        t.ft_transfer(&s("bob.near"), s(OWNER), 0, None, 1),
        Err(TokenError::Ledger(LedgerError::ZeroAmount))
    ));
}

#[test]
fn aerx_user_transfers_wait_for_the_earnings_check() {
    let mut t = token(1_000);
    with_account(&mut t, "bob.near");
    rewarded_user(&mut t, "alice.near");
    let actions = t.ft_transfer(&s("alice.near"), s("bob.near"), 25, None, 1).unwrap();
    assert!(matches!(&actions[..], [TokenAction::DecreaseEarningThenResolve { sender, amount: 25, .. }] if sender == "alice.near"));
    assert_eq!(t.ft_balance_of(&s("bob.near")), 0);
    // The AERX contract refused: nothing moves.
    let refused = t.resolve_decrease_earning(
        s("alice.near"),
        s("bob.near"),
        25,
        None,
        None,
        TransferMethod::FtTransfer,
        &CallOutcome::Success(b"false".to_vec()),
    );
    assert!(matches!(refused, Err(TokenError::EarningsRefused)));
    let failed = t.resolve_decrease_earning(
        s("alice.near"),
        s("bob.near"),
        25,
        None,
        None,
        TransferMethod::FtTransfer,
        &CallOutcome::Failure,
    );
    assert!(matches!(failed, Err(TokenError::EarningsCallFailed)));
    let garbled = t.resolve_decrease_earning(
        s("alice.near"),
        s("bob.near"),
        25,
        None,
        None,
        TransferMethod::FtTransfer,
        &CallOutcome::Success(b"yes".to_vec()),
    );
    assert!(garbled.is_err());
    assert_eq!(t.ft_balance_of(&s("bob.near")), 0);
    // Accepted: the transfer happens.
    let (reply, _) = t
        .resolve_decrease_earning(
            s("alice.near"),
            s("bob.near"),
            25,
            None,
            None,
            TransferMethod::FtTransfer,
            &CallOutcome::Success(b"true".to_vec()),
        )
        .unwrap();
    assert!(matches!(reply, TransferReply::Value(_)));
    assert_eq!(t.ft_balance_of(&s("bob.near")), 25);
    assert_eq!(t.ft_balance_of(&s("alice.near")), REGISTRATION_GIFT - 25);
}

#[test]
fn transfer_call_goes_to_aeswap_and_refunds_what_is_unused() {
    let mut t = token(1_000);
    assert!(matches!(
        t.ft_transfer_call(&s(OWNER), s("bob.near"), 10, None, s("swap"), 1, 300_000_000_000_000),
        Err(TokenError::UnsupportedReceiver)
    ));
    assert!(matches!(
        t.ft_transfer_call(&s(OWNER), s(AESWAP), 10, None, s("swap"), 1, 30_000_000_000_000),
        Err(TokenError::NotEnoughGas)
    ));
    let actions = t.ft_transfer_call(&s(OWNER), s(AESWAP), 100, None, s("swap"), 1, 300_000_000_000_000).unwrap();
    assert!(matches!(&actions[..], [
        TokenAction::Transferred { amount: 100, .. },
        TokenAction::CallReceiverThenResolve { msg, amount: 100, .. },
    ] if msg == "swap"));
    assert_eq!(t.ft_balance_of(&s(AESWAP)), 100);
    // The receiver used all but 30 (a JSON string of digits, as U128 is written).
    let (used, _) = t.ft_resolve_transfer(&s(OWNER), &s(AESWAP), 100, &CallOutcome::Success(b"\"30\"".to_vec()));
    assert_eq!(used, 70);
    assert_eq!(t.ft_balance_of(&s(AESWAP)), 70);
    assert_eq!(t.ft_balance_of(&s(OWNER)), 930);
    // A failed receiver call returns everything it still holds.
    t.ft_transfer_call(&s(OWNER), s(AESWAP), 50, None, s("swap"), 1, 300_000_000_000_000).unwrap();
    let (used, _) = t.ft_resolve_transfer(&s(OWNER), &s(AESWAP), 50, &CallOutcome::Failure);
    assert_eq!(used, 0);
    assert_eq!(t.ft_balance_of(&s(AESWAP)), 70);
    assert_eq!(t.ft_total_supply(), 1_000);
}

#[test]
fn send_aex_needs_an_aerx_user_and_a_trusted_caller() {
    let mut t = token(1_000);
    rewarded_user(&mut t, "alice.near");
    with_account(&mut t, "bob.near");
    assert!(matches!(
        t.send_aex(&s("bob.near"), s("alice.near"), s(AERX), 5, None),
        Err(TokenError::Unauthorized)
    ));
    assert!(matches!(
        t.send_aex(&s(AERX), s("bob.near"), s(AERX), 5, None),
        Err(TokenError::NotAerxUser)
    ));
    let (left, _) = t.send_aex(&s(AERX), s("alice.near"), s(AERX), 5, Some(s("fee"))).unwrap();
    assert_eq!(left, REGISTRATION_GIFT - 5);
    assert_eq!(t.ft_balance_of(&s(AERX)), 5);
    let (left, actions) = t.send_aex(&s(AESWAP), s("alice.near"), s("bob.near"), 5, None).unwrap();
    assert_eq!(left, REGISTRATION_GIFT - 5);
    assert!(matches!(&actions[..], [TokenAction::DecreaseEarningThenResolve { method: TransferMethod::SendAex, .. }]));
}

#[test]
fn unregistering_needs_force_for_a_positive_balance() {
    let mut t = token(1_000);
    with_account(&mut t, "bob.near");
    t.ft_transfer(&s(OWNER), s("bob.near"), 10, None, 1).unwrap();
    assert!(matches!(t.storage_unregister(&s("bob.near"), None, 0), Err(TokenError::RequiresOneYocto)));
    assert!(matches!(t.storage_unregister(&s("bob.near"), None, 1), Err(TokenError::PositiveBalance)));
    let (closed, actions) = t.storage_unregister(&s("bob.near"), Some(true), 1).unwrap();
    assert!(closed);
    assert!(matches!(&actions[..], [
        TokenAction::Burned { owner, amount: 10, memo },
        TokenAction::Pay { to, .. },
    ] if owner == "bob.near" && memo == "Account Closure" && to == "bob.near"));
    assert!(!t.is_registered(&s("bob.near")));
    assert_eq!(t.ft_total_supply(), 990);
    let (closed, _) = t.storage_unregister(&s("bob.near"), None, 1).unwrap();
    assert!(!closed);
}

#[test]
fn supply_is_the_sum_of_balances() {
    let mut t = token(1_000);
    let ids = [OWNER, AERX, AESWAP, "alice.near", "bob.near"];
    with_account(&mut t, "bob.near");
    rewarded_user(&mut t, "alice.near");
    t.ft_transfer(&s(OWNER), s("bob.near"), 300, None, 1).unwrap();
    t.mint_aex(&s(OWNER), 55, None).unwrap();
    t.burn_aex(&s(OWNER), 5, None).unwrap();
    t.send_aex(&s(AERX), s("alice.near"), s("bob.near"), 9, None).unwrap();
    assert_eq!(t.ft_total_supply(), sum_of(&t, &ids));
    assert_eq!(t.ft_total_supply(), 1_050 + REGISTRATION_GIFT);
}

#[test]
fn stored_token_state_resumes_as_it_was() {
    let mut t = token(1_000);
    rewarded_user(&mut t, "alice.near");
    with_account(&mut t, "bob.near");
    t.ft_transfer(&s(OWNER), s("bob.near"), 30, None, 1).unwrap();
    let parts = t.into_parts();
    assert_eq!(parts.total_supply, 1_000 + REGISTRATION_GIFT);
    assert_eq!(parts.aerx_users, vec![s("alice.near")]);
    let back = Aex::from_parts(parts).unwrap();
    assert_eq!(back.ft_balance_of(&s("bob.near")), 30);
    assert_eq!(back.ft_balance_of(&s("alice.near")), REGISTRATION_GIFT);
    assert_eq!(back.ft_total_supply(), 1_000 + REGISTRATION_GIFT);
    assert!(back.is_aerx_user(&s("alice.near")));
}

#[test]
fn corrupt_stored_token_state_is_refused() {
    let mut parts = token(1_000).into_parts();
    parts.total_supply += 1;
    assert!(matches!(Aex::from_parts(parts), Err(TokenError::CorruptState)));
    let mut parts = token(1_000).into_parts();
    parts.accounts.push((s(OWNER), 0));
    assert!(matches!(Aex::from_parts(parts), Err(TokenError::CorruptState)));
    let mut parts = token(1_000).into_parts();
    parts.aerx_users = vec![s("alice.near"), s("alice.near")];
    assert!(matches!(Aex::from_parts(parts), Err(TokenError::CorruptState)));
}
