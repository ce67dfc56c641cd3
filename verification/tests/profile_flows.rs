use aerx::metadata::NftContractMetadata;
use aerx::profile::{
    mint_storage_refund, share_parts, storage_refund, u128_reply, verify_marketplace_call, Aerx, Callback,
    Earnings, MintProfileReturn, PriceMethod, PriceRequest, ProfileAction, ProfileError, TokenMetadata,
    CHARGE_GAS_COST, MINT_FEE, MINT_POST_GAS_COST, MINT_PROFILE_GAS_COST, REGISTRATION_GIFT,
    REQUIRED_AEX_STORAGE,
};
use aerx::reply::CallOutcome;

const CONTRACT: &str = "profile.near";
const AERX: &str = "aerx.near";
const AEX: &str = "aex.near";
const AESWAP: &str = "aeswap.near";
const MARKET: &str = "market.near";
const BYTE_COST: u128 = 10_000_000_000_000_000_000;
const TOKEN_BYTES: u64 = 100;

fn s(x: &str) -> String {
    x.to_string()
}

fn meta(title: &str) -> TokenMetadata {
    TokenMetadata {
        title: Some(s(title)),
        description: None,
        media: None,
        media_hash: None,
        copies: None,
        issued_at: None,
        expires_at: None,
        starts_at: None,
        updated_at: None,
        extra: None,
        reference: None,
        reference_hash: None,
    }
}

fn contract() -> Aerx {
    Aerx::new_default_metadata(s(CONTRACT), s(AERX), s(AEX), s(AESWAP), s(MARKET), TOKEN_BYTES, BYTE_COST)
}

fn json(x: &str) -> CallOutcome {
    CallOutcome::Success(x.as_bytes().to_vec())
}

/// A user creates its own profile: the token contract records it and
/// answers its storage fee and the user's balance.
fn own_profile(a: &mut Aerx, user: &str, name: &str, balance: u128) -> MintProfileReturn {
    let actions = a.mint_profile(&s(user), s("ignored.near"), s(name), meta(name), 1_000).unwrap();
    assert!(matches!(&actions[..], [ProfileAction::AddUnrewardedUser { user_id, deposit: 1_000, .. }] if user_id == user));
    let reply = format!("[40,{}]", balance);
    let (minted, left, actions) =
        a.verify_add_unrewarded_user_for_mint_profile(&s(user), s(name), meta(name), 1_000, &json(&reply)).unwrap();
    assert_eq!(left, 960);
    assert!(matches!(&actions[..], [ProfileAction::NftMinted { owner_id, token_id }] if owner_id == user && token_id == name));
    minted
}

/// A user mints its own post, earning together with `origin` (0 for none).
fn own_post(a: &mut Aerx, user: &str, origin: u128, title: &str) -> String {
    let actions = a.mint_post(&s(user), &s(user), s("ignored.near"), origin, Some(meta(title)), 500).unwrap();
    let memo = format!("Post minting payment from '{}' to '{}'", user, AEX);
    assert!(matches!(&actions[..], [ProfileAction::SendAexThen {
        sender_id, receiver_id, amount, memo: m, then: Callback::VerifyMintPost { deposit: 500, .. },
    }] if sender_id == user && receiver_id == CONTRACT && *amount == MINT_FEE && *m == memo));
    let (value, _) =
        a.verify_aex_for_mint_post(&s(user), s(user), origin, Some(meta(title)), 500, &json("5"), 0).unwrap();
    value.unwrap().token_id
}

#[test]
fn new_contract_is_empty_and_checks_metadata() {
    let a = contract();
    assert!(!a.has_registered(&s("alice.near")));
    assert!(a.nft_token(&s("alice")).is_none());
    let m = a.nft_metadata();
    assert_eq!(m.spec, "nft-1.0.0");
    assert_eq!(m.name, "AERX NFT");
    assert_eq!(m.symbol, "AERX-NFT");
    assert!(m.icon.as_ref().unwrap().starts_with("data:image/svg+xml,%3Csvg xmlns='http://www.w3.org/2000/svg' viewBox='0 -30 230 210'"));
    assert!(m.base_uri.is_none() && m.reference.is_none() && m.reference_hash.is_none());
    assert_eq!(a.get_minimum_required_storage_cost().unwrap(), 100 * BYTE_COST);
    let mut bad = NftContractMetadata::aerx_default();
    bad.spec = s("ft-1.0.0");
    assert!(matches!(
        Aerx::new(s(CONTRACT), s(AERX), bad, s(AEX), s(AESWAP), s(MARKET), TOKEN_BYTES, BYTE_COST),
        Err(ProfileError::InvalidMetadata)
    ));
    let good = NftContractMetadata::aerx_default();
    assert!(Aerx::new(s(CONTRACT), s(AERX), good, s(AEX), s(AESWAP), s(MARKET), TOKEN_BYTES, BYTE_COST).is_ok());
}

#[test]
fn usernames_must_be_free_and_not_numbers() {
    let mut a = contract();
    assert!(!a.is_username_available(&s("42")));
    assert!(!a.is_username_available(&s("+7")));
    assert!(a.is_username_available(&s("4two")));
    assert!(matches!(
        a.mint_profile(&s("alice.near"), s("alice.near"), s("123"), meta("x"), 0),
        Err(ProfileError::NumericUsername)
    ));
    own_profile(&mut a, "alice.near", "alice", 3);
    assert!(!a.is_username_available(&s("alice")));
    assert!(matches!(
        a.mint_profile(&s("bob.near"), s("bob.near"), s("alice"), meta("x"), 0),
        Err(ProfileError::UsernameTaken)
    ));
    assert!(matches!(
        a.mint_profile(&s("alice.near"), s("alice.near"), s("alice2"), meta("x"), 0),
        Err(ProfileError::AlreadyRegistered)
    ));
}

#[test]
fn self_made_profile_records_the_reported_balance_as_earnings() {
    let mut a = contract();
    let minted = own_profile(&mut a, "alice.near", "alice", 7);
    assert!(minted.mint_state);
    assert_eq!(minted.token_id, "alice");
    assert_eq!(minted.owner_id, "alice.near");
    assert!(a.has_registered(&s("alice.near")));
    assert_eq!(a.get_earnings(&s("alice.near")), Earnings { total: 7, available: 7 });
    let t = a.nft_token(&s("alice")).unwrap();
    assert_eq!(t.owner_id, "alice.near");
    assert_eq!(t.metadata.unwrap().title, Some(s("alice")));
}

#[test]
fn unrewarded_profile_reply_is_checked() {
    let mut a = contract();
    let md = || meta("bob");
    assert!(matches!(
        a.verify_add_unrewarded_user_for_mint_profile(&s("bob.near"), s("bob"), md(), 10, &CallOutcome::Failure),
        Err(ProfileError::CallFailed)
    ));
    assert!(matches!(
        a.verify_add_unrewarded_user_for_mint_profile(&s("bob.near"), s("bob"), md(), 10, &json("7")),
        Err(ProfileError::UnreadableReply)
    ));
    assert!(matches!(
        a.verify_add_unrewarded_user_for_mint_profile(&s("bob.near"), s("bob"), md(), 10, &json("[]")),
        Err(ProfileError::UnreadableReply)
    ));
    assert!(matches!(
        a.verify_add_unrewarded_user_for_mint_profile(&s("bob.near"), s("bob"), md(), 10, &json("[11,0]")),
        Err(ProfileError::InsufficientDeposit)
    ));
    assert!(matches!(
        a.verify_add_unrewarded_user_for_mint_profile(&s("bob.near"), s("bob"), md(), 10, &json("[10]")),
        Err(ProfileError::UnreadableReply)
    ));
    assert!(!a.has_registered(&s("bob.near")));
}

#[test]
fn profile_made_by_aerx_goes_through_the_price_of_aex() {
    let mut a = contract();
    let actions = a.mint_profile(&s(AERX), s("bob.near"), s("bob"), meta("bob"), 9).unwrap();
    assert!(matches!(&actions[..], [ProfileAction::RegisterAndReward { user_id, deposit: 9, username, .. }]
        if user_id == "bob.near" && username == "bob"));
    let balance = REGISTRATION_GIFT + 500;
    assert!(matches!(
        a.verify_aex_call_for_mint_profile(s("bob.near"), s("bob"), Some(meta("bob")), &json("0")),
        Err(ProfileError::ZeroBalance)
    ));
    let actions = a
        .verify_aex_call_for_mint_profile(s("bob.near"), s("bob"), Some(meta("bob")), &json(&balance.to_string()))
        .unwrap();
    let (request, deposit) = match actions.into_iter().next() {
        Some(ProfileAction::GetPriceThenResolve { request, deposit }) => (request, deposit),
        _ => panic!("expected a price request"),
    };
    assert_eq!(deposit, 100 * BYTE_COST);
    assert_eq!(request.method, PriceMethod::MintProfile);
    assert_eq!(request.balance, Some(balance));
    let expected = 2 * (300 * BYTE_COST + REQUIRED_AEX_STORAGE + MINT_PROFILE_GAS_COST);
    // A balance short of the price in AEX mints nothing.
    let dear = 1_000_000 * (300 * BYTE_COST + REQUIRED_AEX_STORAGE + MINT_PROFILE_GAS_COST);
    assert!(dear > balance);
    let poor = PriceRequest { metadata: Some(meta("bob")), ..copy_request(&request) };
    assert!(matches!(
        a.resolve_get_price_from_pool(poor, deposit, 1_000_000, 300 * BYTE_COST),
        Err(ProfileError::InsufficientBalance)
    ));
    assert!(a.nft_token(&s("bob")).is_none());
    // The profile is minted, its earnings recorded, and the storage its
    // records take is paid in AEX at 2 AEX a NEAR.
    let (value, actions) = a.resolve_get_price_from_pool(request, deposit, 2, 300 * BYTE_COST).unwrap();
    let minted = value.unwrap();
    assert!(minted.mint_state);
    assert_eq!(minted.token_id, "bob");
    assert!(matches!(&actions[..], [
        ProfileAction::NftMinted { .. },
        ProfileAction::SendAex { sender_id, receiver_id, amount, memo },
    ] if sender_id == "bob.near" && receiver_id == CONTRACT && *amount == expected
        && memo == "Aerx Profile creation storage and gas payment"));
    assert_eq!(a.nft_token(&s("bob")).unwrap().owner_id, "bob.near");
    assert_eq!(a.get_earnings(&s("bob.near")), Earnings { total: 500, available: 500 });
}

#[test]
fn gift_larger_than_balance_is_refused() {
    let mut a = contract();
    let request = PriceRequest {
        user_id: s("bob.near"),
        token_id: s("bob"),
        balance: Some(REGISTRATION_GIFT - 1),
        method: PriceMethod::MintProfile,
        metadata: None,
        amount: None,
        repost_id: None,
    };
    let with_meta = PriceRequest { metadata: Some(meta("bob")), ..copy_request(&request) };
    assert!(matches!(a.resolve_get_price_from_pool(with_meta, 0, 1, 0), Err(ProfileError::GiftExceedsBalance)));
    assert!(a.nft_token(&s("bob")).is_none());
    assert_eq!(a.get_earnings(&s("bob.near")), Earnings { total: 0, available: 0 });
    let unknown = PriceRequest { balance: None, metadata: Some(meta("bob")), ..request };
    assert!(matches!(a.resolve_get_price_from_pool(unknown, 0, 1, 0), Err(ProfileError::MissingArgument)));
    let request = PriceRequest {
        user_id: s("bob.near"),
        token_id: s("bob"),
        balance: Some(REGISTRATION_GIFT),
        method: PriceMethod::MintProfile,
        metadata: None,
        amount: None,
        repost_id: None,
    };
    assert!(matches!(a.resolve_get_price_from_pool(request, 0, 1, 0), Err(ProfileError::MissingMetadata)));
}

#[test]
fn posts_are_numbered_and_earn_together() {
    let mut a = contract();
    own_profile(&mut a, "alice.near", "alice", 0);
    own_profile(&mut a, "bob.near", "bob", 0);
    assert!(matches!(
        a.mint_post(&s("alice.near"), &s("someone.near"), s("x"), 0, Some(meta("p")), 0),
        Err(ProfileError::CrossContractCall)
    ));
    assert!(matches!(
        a.mint_post(&s("carol.near"), &s("carol.near"), s("x"), 0, Some(meta("p")), 0),
        Err(ProfileError::NotAerxUser)
    ));
    assert!(matches!(
        a.mint_post(&s("alice.near"), &s("alice.near"), s("x"), 1, Some(meta("p")), 0),
        Err(ProfileError::InvalidOriginPost)
    ));
    assert_eq!(own_post(&mut a, "alice.near", 0, "first"), "1");
    assert_eq!(own_post(&mut a, "bob.near", 1, "second"), "2");
    let first = a.post_details(&s("bob.near"), s("1")).unwrap();
    assert_eq!(first.owner_id, "alice.near");
    assert_eq!(first.total_charges, 0);
    assert_eq!(first.origin_post_id, Some(0));
    assert!(first.co_earners.is_empty());
    let second = a.post_details(&s("bob.near"), s("2")).unwrap();
    assert_eq!(second.owner_id, "bob.near");
    assert_eq!(second.origin_post_id, Some(1));
    assert_eq!(second.co_earners, vec![s("alice.near")]);
    let unknown = a.post_details(&s("bob.near"), s("9")).unwrap();
    assert_eq!(unknown.owner_id, "");
    assert!(unknown.metadata.is_none());
    assert!(matches!(a.post_details(&s("carol.near"), s("1")), Err(ProfileError::NotAerxUser)));
}

#[test]
fn post_callback_checks_its_reply() {
    let mut a = contract();
    own_profile(&mut a, "alice.near", "alice", 0);
    let call = |a: &mut Aerx, outcome: &CallOutcome, md: Option<TokenMetadata>| {
        a.verify_aex_for_mint_post(&s("alice.near"), s("alice.near"), 0, md, 0, outcome, 0)
    };
    assert!(matches!(call(&mut a, &CallOutcome::Failure, Some(meta("p"))), Err(ProfileError::CallFailed)));
    assert!(matches!(call(&mut a, &json("\"5\""), Some(meta("p"))), Err(ProfileError::UnreadableReply)));
    assert!(matches!(call(&mut a, &json("5"), None), Err(ProfileError::MissingMetadata)));
    assert!(matches!(a.post_details(&s("alice.near"), s("1")), Ok(p) if p.owner_id.is_empty()));
}

#[test]
fn aerx_made_post_is_paid_for_then_minted() {
    let mut a = contract();
    own_profile(&mut a, "alice.near", "alice", 0);
    assert!(matches!(
        a.mint_post(&s(AERX), &s(AERX), s("alice.near"), 3, Some(meta("p")), 0),
        Err(ProfileError::OriginPostNotAllowed)
    ));
    let actions = a.mint_post(&s(AERX), &s(AERX), s("alice.near"), 0, Some(meta("p")), 0).unwrap();
    assert!(matches!(&actions[..], [ProfileAction::SendAexThen {
        then: Callback::VerifyMintPost { deposit, .. }, ..
    }] if *deposit == 100 * BYTE_COST));
    assert!(matches!(
        a.continue_mint_post(&s(AERX), s("alice.near"), 0, Some(meta("p")), 7, 0, 77),
        Err(ProfileError::ZeroBalance)
    ));
    let (value, actions) = a.continue_mint_post(&s(AERX), s("alice.near"), 0, Some(meta("p")), 7, 1_000_000, 77).unwrap();
    assert!(value.is_none());
    let request = match actions.into_iter().next() {
        Some(ProfileAction::GetPriceThenResolve { request, deposit: 7 }) => request,
        _ => panic!("expected a price request"),
    };
    assert_eq!(request.token_id, "1");
    assert_eq!(request.amount, Some(77));
    // Nothing is minted before the payment.
    assert!(a.nft_token(&s("1")).is_none());
    let (value, actions) = a.resolve_get_price_from_pool(request, 7, 0, 0).unwrap();
    assert!(value.is_none());
    let (next, deposit) = match actions.into_iter().next() {
        Some(ProfileAction::SendAexThen { amount: 0, memo, then: Callback::ResolveSendAex { request, deposit }, .. })
            if memo == "Aerx Post creation storage and gas payment" => (request, deposit),
        _ => panic!("expected the post payment"),
    };
    assert_eq!(deposit, 7);
    assert_eq!(next.amount, None);
    assert!(matches!(
        a.resolve_send_aex_mint_post_and_charge(
            PriceRequest { metadata: None, ..copy_request(&next) },
            &CallOutcome::Failure,
        ),
        Err(ProfileError::CallFailed)
    ));
    let (minted, actions) = a.resolve_send_aex_mint_post_and_charge(next, &json("1")).unwrap();
    assert!(minted.mint_state);
    assert_eq!(minted.token_id, "1");
    assert_eq!(minted.owner_id, "alice.near");
    assert!(matches!(&actions[..], [ProfileAction::NftMinted { .. }]));
    let p = a.post_details(&s("alice.near"), s("1")).unwrap();
    assert_eq!(p.total_charges, 0);
    assert_eq!(p.origin_post_id, Some(0));
    // The next post is numbered after it.
    assert!(a.mint_post(&s("alice.near"), &s("alice.near"), s("x"), 1, Some(meta("p")), 0).is_ok());
    assert!(matches!(
        a.mint_post(&s("alice.near"), &s("alice.near"), s("x"), 2, Some(meta("p")), 0),
        Err(ProfileError::InvalidOriginPost)
    ));
}

fn copy_request(r: &PriceRequest) -> PriceRequest {
    PriceRequest {
        user_id: r.user_id.clone(),
        token_id: r.token_id.clone(),
        balance: r.balance,
        method: r.method,
        metadata: None,
        amount: r.amount,
        repost_id: r.repost_id,
    }
}

#[test]
fn mint_post_price_covers_storage_and_gas() {
    let mut a = contract();
    let request = PriceRequest {
        user_id: s("alice.near"),
        token_id: s("1"),
        balance: Some(3 * (10 + MINT_POST_GAS_COST) - 1),
        method: PriceMethod::MintPost,
        metadata: Some(meta("p")),
        amount: Some(10),
        repost_id: None,
    };
    assert!(matches!(a.resolve_get_price_from_pool(request, 0, 3, 0), Err(ProfileError::InsufficientBalance)));
    let request = PriceRequest {
        user_id: s("alice.near"),
        token_id: s("1"),
        balance: Some(3 * (10 + MINT_POST_GAS_COST)),
        method: PriceMethod::MintPost,
        metadata: Some(meta("p")),
        amount: Some(10),
        repost_id: None,
    };
    let (_, actions) = a.resolve_get_price_from_pool(request, 0, 3, 0).unwrap();
    assert!(matches!(&actions[..], [ProfileAction::SendAexThen { amount, .. }] if *amount == 3 * (10 + MINT_POST_GAS_COST)));
    let other = PriceRequest {
        user_id: s("alice.near"),
        token_id: s("1"),
        balance: None,
        method: PriceMethod::Other,
        metadata: None,
        amount: None,
        repost_id: None,
    };
    let (value, actions) = a.resolve_get_price_from_pool(other, 0, 3, 0).unwrap();
    let v = value.unwrap();
    assert!(!v.mint_state);
    assert!(v.token_id.is_empty());
    assert!(actions.is_empty());
}

#[test]
fn charging_splits_the_amount() {
    let mut a = contract();
    own_profile(&mut a, "alice.near", "alice", 0);
    own_profile(&mut a, "bob.near", "bob", 0);
    own_profile(&mut a, "carol.near", "carol", 0);
    own_post(&mut a, "alice.near", 0, "first");
    own_post(&mut a, "bob.near", 1, "second");
    assert!(matches!(a.charge(&s("bob.near"), s("carol.near"), 1, 100, 10, 90), Err(ProfileError::Unauthorized)));
    assert!(matches!(a.charge(&s(AERX), s("dan.near"), 1, 100, 10, 90), Err(ProfileError::NotAerxUser)));
    assert!(matches!(a.charge(&s(AERX), s("carol.near"), 3, 100, 10, 90), Err(ProfileError::InvalidPostId)));
    assert!(matches!(a.charge(&s(AERX), s("carol.near"), 0, 100, 10, 90), Err(ProfileError::InvalidPostId)));
    // No co-earners: AERX's tenth, then the rest to the creator.
    let actions = a.charge(&s(AERX), s("carol.near"), 1, 100, 10, 90).unwrap();
    assert!(matches!(&actions[..], [
        ProfileAction::SendAex { receiver_id: r1, amount: 10, memo: m1, .. },
        ProfileAction::SendAexThen { receiver_id: r2, amount: 90, memo: m2,
            then: Callback::VerifyCharge { earners_share: None, amount_charged: 100, .. }, .. },
    ] if r1 == CONTRACT && r2 == "alice.near" && m1 == "Charge post payment from 'carol.near' to Aerx"
        && m2 == "Charge post payment from 'carol.near' to 'alice.near'"));
    // The creator charging its own post pays AERX everything.
    let actions = a.charge(&s(AERX), s("alice.near"), 1, 100, 10, 90).unwrap();
    assert!(matches!(&actions[..], [ProfileAction::SendAex { amount: 100, .. }]));
    // Post 2 has one co-earner (alice): the rest is split in two.
    let p2 = a.post_details(&s("carol.near"), s("2")).unwrap();
    assert_eq!(share_parts(&p2.co_earners, &s("carol.near"), &p2.owner_id), 2);
    assert_eq!(share_parts(&p2.co_earners, &s("bob.near"), &p2.owner_id), 1);
    assert_eq!(share_parts(&p2.co_earners, &s("alice.near"), &p2.owner_id), 1);
    let actions = a.charge(&s(AERX), s("carol.near"), 2, 100, 10, 45).unwrap();
    assert!(matches!(&actions[..], [
        ProfileAction::SendAex { receiver_id: r1, amount: 10, .. },
        ProfileAction::SendAex { receiver_id: r2, amount: 45, .. },
        ProfileAction::SendAexThen { receiver_id: r3, amount: 45,
            then: Callback::VerifyCharge { earners_share: Some(45), .. }, .. },
    ] if r1 == CONTRACT && r2 == "alice.near" && r3 == "bob.near"));
    // A co-earner charging pays AERX's share and nothing else.
    let actions = a.charge(&s(AERX), s("alice.near"), 2, 100, 10, 90).unwrap();
    assert!(matches!(&actions[..], [ProfileAction::SendAex { amount: 10, .. }]));
}

#[test]
fn charge_callbacks_go_on_or_refund() {
    let mut a = contract();
    own_profile(&mut a, "alice.near", "alice", 0);
    own_profile(&mut a, "bob.near", "bob", 0);
    own_profile(&mut a, "carol.near", "carol", 0);
    own_post(&mut a, "alice.near", 0, "first");
    own_post(&mut a, "bob.near", 1, "second");
    // A positive balance goes on to the gas payment.
    let (goes_on, actions) =
        a.verify_aex_call_for_charge(s("alice.near"), s("carol.near"), 1, 100, None, &json("12000000000000000000000000"), 10)
            .unwrap();
    assert!(goes_on);
    let request = match actions.into_iter().next() {
        Some(ProfileAction::GetPriceThenResolve { request, deposit: 0 }) => request,
        _ => panic!("expected a price request"),
    };
    assert_eq!(request.method, PriceMethod::Charge);
    assert_eq!(request.token_id, "1");
    assert_eq!(request.balance, Some(12_000_000_000_000_000_000_000_000));
    assert_eq!(request.amount, Some(100));
    // A zero balance sends the shares back.
    let (goes_on, actions) =
        a.verify_aex_call_for_charge(s("alice.near"), s("carol.near"), 1, 100, None, &json("0"), 10).unwrap();
    assert!(!goes_on);
    assert!(matches!(&actions[..], [ProfileAction::SendAex { sender_id, receiver_id, amount: 90, memo }]
        if sender_id == "alice.near" && receiver_id == CONTRACT && memo == "charge refund"));
    let (_, actions) =
        a.verify_aex_call_for_charge(s("bob.near"), s("carol.near"), 2, 100, Some(45), &json("0"), 10).unwrap();
    assert!(matches!(&actions[..], [
        ProfileAction::SendAex { sender_id: s1, amount: 45, .. },
        ProfileAction::SendAex { sender_id: s2, amount: 45, .. },
    ] if s1 == "alice.near" && s2 == "bob.near"));
    assert!(matches!(
        a.verify_aex_call_for_charge(s("bob.near"), s("carol.near"), 2, 100, None, &json("0"), 10),
        Err(ProfileError::MissingShare)
    ));
    assert!(matches!(
        a.verify_aex_call_for_charge(s("alice.near"), s("carol.near"), 1, 5, None, &json("0"), 10),
        Err(ProfileError::ShareExceedsAmount)
    ));
    assert!(matches!(
        a.verify_aex_call_for_charge(s("alice.near"), s("carol.near"), 1, 100, None, &CallOutcome::Failure, 10),
        Err(ProfileError::CallFailed)
    ));
    // The gas payment, then the charge is recorded on the post.
    let gas = a.resolve_get_price_from_pool(request, 0, 2, 0).unwrap().1;
    let settle = match gas.into_iter().next() {
        Some(ProfileAction::SendAexThen { amount, memo, then: Callback::ResolveSendAex { request, deposit: 0 }, .. })
            if amount == 2 * CHARGE_GAS_COST && memo == "Aerx charge gas payment" => request,
        _ => panic!("expected the gas payment"),
    };
    let (value, _) = a.resolve_send_aex_mint_post_and_charge(settle, &json("1")).unwrap();
    assert!(!value.mint_state);
    assert_eq!(a.post_details(&s("alice.near"), s("1")).unwrap().total_charges, 100);
}

#[test]
fn reposts_are_numbered_from_one() {
    let mut a = contract();
    own_profile(&mut a, "alice.near", "alice", 0);
    own_profile(&mut a, "carol.near", "carol", 0);
    own_post(&mut a, "alice.near", 0, "first");
    assert!(matches!(a.repost(&s("carol.near"), 2), Err(ProfileError::InvalidPostId)));
    assert!(matches!(a.repost(&s("dan.near"), 1), Err(ProfileError::NotAerxUser)));
    let r1 = a.repost(&s("carol.near"), 1).unwrap();
    assert_eq!(r1.id, 1);
    assert_eq!(r1.owner, "carol.near");
    assert_eq!(r1.initial_owner, "alice.near");
    assert_eq!(r1.details.as_ref().unwrap().title, Some(s("first")));
    let r2 = a.repost(&s("alice.near"), 1).unwrap();
    assert_eq!(r2.id, 2);
    let all = a.get_all_repost(&s("carol.near")).unwrap();
    assert_eq!(all.iter().map(|r| r.id).collect::<Vec<_>>(), vec![1, 2]);
    assert_eq!(a.repost_details(&s("carol.near"), 2).unwrap().owner, "alice.near");
    let none = a.repost_details(&s("carol.near"), 3).unwrap();
    assert_eq!(none.id, 0);
    assert!(none.owner.is_empty());
}

#[test]
fn charging_a_repost_pays_the_original_owner_first() {
    let mut a = contract();
    own_profile(&mut a, "alice.near", "alice", 0);
    own_profile(&mut a, "carol.near", "carol", 0);
    own_profile(&mut a, "dan.near", "dan", 0);
    own_post(&mut a, "alice.near", 0, "first");
    a.repost(&s("carol.near"), 1).unwrap();
    assert!(matches!(a.charge_repost(&s(AERX), s("dan.near"), 2, 100, 10, 81, 9), Err(ProfileError::InvalidRepostId)));
    let actions = a.charge_repost(&s(AERX), s("dan.near"), 1, 100, 10, 81, 9).unwrap();
    assert!(matches!(&actions[..], [
        ProfileAction::SendAex { receiver_id: r1, amount: 10, memo: m1, .. },
        ProfileAction::SendAex { receiver_id: r2, amount: 81, memo: m2, .. },
        ProfileAction::SendAexThen { receiver_id: r3, amount: 9, memo: m3,
            then: Callback::VerifyChargeRepost { repost_id: 1, amount_charged: 100, .. }, .. },
    ] if r1 == CONTRACT && r2 == "alice.near" && r3 == "carol.near"
        && m1 == "Charge Repost payment from 'dan.near' to Aerx"
        && m2 == "Charge Repost payment from 'dan.near' to alice.near"
        && m3 == "Charge Repost payment from 'dan.near' to 'carol.near'"));
    // The reposter charging its own repost: the original owner takes the rest.
    let actions = a.charge_repost(&s(AERX), s("carol.near"), 1, 100, 10, 90, 0).unwrap();
    assert!(matches!(&actions[..], [ProfileAction::SendAex { .. }, ProfileAction::SendAexThen { amount: 90, .. }]));
    // Refunds when the last payment left nothing.
    let (goes_on, actions) = a.verify_aex_call_for_charge_repost(s("dan.near"), 1, 100, &json("0"), 81, 9).unwrap();
    assert!(!goes_on);
    assert!(matches!(&actions[..], [
        ProfileAction::SendAex { sender_id: s1, amount: 81, memo, .. },
        ProfileAction::SendAex { sender_id: s2, amount: 9, .. },
    ] if s1 == "alice.near" && s2 == "carol.near" && memo == "Charge Refund"));
    let (goes_on, actions) = a.verify_aex_call_for_charge_repost(s("dan.near"), 1, 100, &json("4"), 81, 9).unwrap();
    assert!(goes_on);
    let request = match actions.into_iter().next() {
        Some(ProfileAction::GetPriceThenResolve { request, .. }) => request,
        _ => panic!("expected a price request"),
    };
    assert_eq!(request.repost_id, Some(1));
    assert_eq!(request.method, PriceMethod::ChargeRepost);
    // Settling a repost charge adds the amount to the repost's charges.
    let (value, _) = a.resolve_send_aex_mint_post_and_charge(request, &json("1")).unwrap();
    assert!(!value.mint_state);
    let repost = a.repost_details(&s("dan.near"), 1).unwrap();
    assert_eq!(repost.total_charges, 100);
    assert_eq!(repost.id, 1);
}

#[test]
fn only_posts_move_and_only_by_their_owner() {
    let mut a = contract();
    own_profile(&mut a, "alice.near", "alice", 0);
    own_profile(&mut a, "bob.near", "bob", 0);
    own_post(&mut a, "alice.near", 0, "first");
    assert!(matches!(
        a.nft_transfer(&s("alice.near"), s("bob.near"), s("1"), None, None, 0),
        Err(ProfileError::RequiresOneYocto)
    ));
    assert!(matches!(
        a.nft_transfer(&s("alice.near"), s("bob.near"), s("alice"), None, None, 1),
        Err(ProfileError::ProfileNotTransferable)
    ));
    assert!(matches!(
        a.nft_transfer(&s("bob.near"), s("bob.near"), s("1"), None, None, 1),
        Err(ProfileError::SenderNotApproved)
    ));
    assert!(matches!(
        a.nft_transfer(&s("alice.near"), s("alice.near"), s("1"), None, None, 1),
        Err(ProfileError::SameOwner)
    ));
    assert!(matches!(
        a.nft_transfer(&s("alice.near"), s("bob.near"), s("7"), None, None, 1),
        Err(ProfileError::TokenNotFound)
    ));
    let actions = a.nft_transfer(&s("alice.near"), s("bob.near"), s("1"), None, Some(s("gift")), 1).unwrap();
    assert!(matches!(&actions[..], [ProfileAction::NftTransferred { old_owner_id, new_owner_id, memo: Some(m), .. }]
        if old_owner_id == "alice.near" && new_owner_id == "bob.near" && m == "gift"));
    assert_eq!(a.nft_token(&s("1")).unwrap().owner_id, "bob.near");
    assert!(a.has_registered(&s("alice.near")));
}

#[test]
fn transfer_call_returns_the_post_when_the_marketplace_declines() {
    let mut a = contract();
    own_profile(&mut a, "alice.near", "alice", 0);
    own_post(&mut a, "alice.near", 0, "first");
    let gas = 100_000_000_000_000;
    assert!(matches!(
        a.nft_transfer_call(&s("alice.near"), s("bob.near"), s("1"), None, None, s("list"), 1, gas),
        Err(ProfileError::UnsupportedReceiver)
    ));
    assert!(matches!(
        a.nft_transfer_call(&s("alice.near"), s(MARKET), s("1"), None, None, s("list"), 1, 1_000),
        Err(ProfileError::NotEnoughGas)
    ));
    let actions = a.nft_transfer_call(&s("alice.near"), s(MARKET), s("1"), None, None, s("list"), 1, gas).unwrap();
    assert!(matches!(&actions[..], [ProfileAction::NftTransferred { .. }, ProfileAction::CallNftReceiverThenResolve { msg, .. }] if msg == "list"));
    assert_eq!(a.nft_token(&s("1")).unwrap().owner_id, MARKET);
    // The marketplace keeps it.
    let (kept, _) = a.nft_resolve_transfer(s("alice.near"), s(MARKET), s("1"), &json("false"));
    assert!(kept);
    assert_eq!(a.nft_token(&s("1")).unwrap().owner_id, MARKET);
    // Asked to give it back (here: an answer that is not a boolean).
    let (kept, actions) = a.nft_resolve_transfer(s("alice.near"), s(MARKET), s("1"), &json("maybe"));
    assert!(!kept);
    assert!(matches!(&actions[..], [ProfileAction::NftTransferred { new_owner_id, .. }] if new_owner_id == "alice.near"));
    assert_eq!(a.nft_token(&s("1")).unwrap().owner_id, "alice.near");
    // Nothing to give back once it moved on.
    let (kept, _) = a.nft_resolve_transfer(s("alice.near"), s(MARKET), s("1"), &json("true"));
    assert!(kept);
}

#[test]
fn spending_what_was_just_earned_restores_available_earnings() {
    let mut a = contract();
    own_profile(&mut a, "alice.near", "alice", 5);
    assert!(matches!(a.increase_earnings(&s("eve.near"), s("alice.near"), 3), Err(ProfileError::Unauthorized)));
    assert_eq!(a.increase_earnings(&s(AEX), s("alice.near"), 20).unwrap(), true);
    assert_eq!(a.get_earnings(&s("alice.near")), Earnings { total: 25, available: 25 });
    assert_eq!(a.decrease_earning(&s(AESWAP), s("alice.near"), 20).unwrap(), true);
    assert_eq!(a.get_earnings(&s("alice.near")), Earnings { total: 25, available: 5 });
    assert!(matches!(a.decrease_earning(&s(CONTRACT), s("alice.near"), 6), Err(ProfileError::InsufficientEarnings)));
    // The total stops at u128::MAX; the available part may not overflow.
    a.increase_earnings(&s(AEX), s("alice.near"), u128::MAX - 5).unwrap();
    assert_eq!(a.get_earnings(&s("alice.near")), Earnings { total: u128::MAX, available: u128::MAX });
    assert!(matches!(a.increase_earnings(&s(AEX), s("alice.near"), 1), Err(ProfileError::EarningsOverflow)));
    // Someone with nothing available who is no AERX user is left alone.
    assert_eq!(a.increase_earnings(&s(AEX), s("stranger.near"), 9).unwrap(), true);
    assert_eq!(a.get_earnings(&s("stranger.near")), Earnings { total: 0, available: 0 });
}

#[test]
fn editing_a_profile_renames_it() {
    let mut a = contract();
    own_profile(&mut a, "alice.near", "alice", 0);
    own_profile(&mut a, "bob.near", "bob", 0);
    own_post(&mut a, "alice.near", 0, "first");
    assert!(matches!(a.edit_profile(&s("carol.near"), s("carol"), meta("c")), Err(ProfileError::NotAerxUser)));
    assert!(matches!(a.edit_profile(&s("alice.near"), s("12"), meta("c")), Err(ProfileError::NumericUsername)));
    assert!(matches!(a.edit_profile(&s("alice.near"), s("bob"), meta("c")), Err(ProfileError::UsernameTaken)));
    let t = a.edit_profile(&s("alice.near"), s("alicia"), meta("new")).unwrap().unwrap();
    assert_eq!(t.token_id, "alicia");
    assert!(a.nft_token(&s("alice")).is_none());
    assert_eq!(a.nft_token(&s("alicia")).unwrap().metadata.unwrap().title, Some(s("new")));
    let found = a.profile_by_id(&s("bob.near"), &s("alice.near")).unwrap();
    assert_eq!(found.token_id, "alicia");
    assert!(matches!(a.profile_by_id(&s("bob.near"), &s("zed.near")), Err(ProfileError::NoProfile)));
    assert!(matches!(a.profile_by_id(&s("zed.near"), &s("bob.near")), Err(ProfileError::NotAerxUser)));
}

#[test]
fn listings_start_with_the_welcome_post_and_skip_repeats() {
    let mut a = contract();
    own_profile(&mut a, "alice.near", "alice", 0);
    own_profile(&mut a, "bob.near", "bob", 0);
    own_post(&mut a, "alice.near", 0, "first");
    assert!(matches!(a.get_all_posts(&s("zed.near")), Err(ProfileError::NotAerxUser)));
    let posts = a.get_all_posts(&s("bob.near")).unwrap();
    assert_eq!(posts[0].post_id, "0");
    assert_eq!(posts[0].owner_id, "Aerx.Aerx");
    assert_eq!(posts[0].metadata.as_ref().unwrap().title, Some(s("Welcome to AERX")));
    let ids: Vec<&str> = posts.iter().map(|p| p.post_id.as_str()).collect();
    // Tokens are visited by id ("1" < "alice" < "bob"); alice owns two
    // tokens, so her list comes twice, and each post appears once.
    assert_eq!(ids, vec!["0", "alice", "1", "bob"]);
    let users = a.get_users_ids(&s("bob.near")).unwrap();
    assert_eq!(users, vec![s("alice.near"), s("bob.near")]);
}

#[test]
fn users_are_listed_by_their_token_ids() {
    let mut a = contract();
    own_profile(&mut a, "zed.near", "zed", 0);
    own_profile(&mut a, "amy.near", "amy", 0);
    own_profile(&mut a, "mo.near", "Mo", 0);
    own_profile(&mut a, "emile.near", "émile", 0);
    own_profile(&mut a, "amys.near", "amys", 0);
    // Upper-case letters come before lower-case ones, a prefix before its
    // extensions, and accented letters after the unaccented alphabet.
    let users = a.get_users_ids(&s("zed.near")).unwrap();
    assert_eq!(users, vec![s("mo.near"), s("amy.near"), s("amys.near"), s("zed.near"), s("emile.near")]);
    let posts = a.get_all_posts(&s("zed.near")).unwrap();
    let ids: Vec<&str> = posts.iter().map(|p| p.post_id.as_str()).collect();
    assert_eq!(ids, vec!["0", "Mo", "amy", "amys", "zed", "émile"]);
}

#[test]
fn storage_fees_are_settled_from_the_deposit() {
    assert_eq!(storage_refund(100, 10, 12, 30).unwrap(), 40);
    assert_eq!(storage_refund(100, 10, 10, 30).unwrap(), 100);
    assert!(matches!(storage_refund(59, 10, 12, 30), Err(ProfileError::InsufficientDeposit)));
    assert!(matches!(storage_refund(100, 12, 10, 30), Err(ProfileError::StorageReleased)));
    assert!(matches!(storage_refund(u128::MAX, 0, 10, u128::MAX), Err(ProfileError::StorageCostOverflow)));
    assert_eq!(mint_storage_refund(100, 10, 12, 30).unwrap(), 40);
    assert_eq!(mint_storage_refund(61, 10, 12, 30).unwrap(), 0);
    assert_eq!(mint_storage_refund(62, 10, 12, 30).unwrap(), 2);
    assert!(matches!(mint_storage_refund(59, 10, 12, 30), Err(ProfileError::InsufficientDeposit)));
}

#[test]
fn replies_are_read_as_json() {
    assert_eq!(u128_reply(&json("340282366920938463463374607431768211455")).unwrap(), u128::MAX);
    assert!(matches!(u128_reply(&json("-1")), Err(ProfileError::UnreadableReply)));
    assert!(matches!(u128_reply(&CallOutcome::Failure), Err(ProfileError::CallFailed)));
    assert_eq!(verify_marketplace_call(&json("true")).unwrap(), true);
    assert!(matches!(verify_marketplace_call(&json("false")), Err(ProfileError::MarketplaceRefused)));
    assert!(matches!(verify_marketplace_call(&json("1")), Err(ProfileError::UnreadableReply)));
    assert_eq!(verify_marketplace_call(&json(" \t\r\ntrue\n ")).unwrap(), true);
    assert!(matches!(verify_marketplace_call(&json("true x")), Err(ProfileError::UnreadableReply)));
    assert!(matches!(verify_marketplace_call(&json("True")), Err(ProfileError::UnreadableReply)));
    assert!(matches!(verify_marketplace_call(&CallOutcome::Failure), Err(ProfileError::CallFailed)));
}

#[test]
fn stored_profile_state_resumes_as_it_was() {
    let mut a = contract();
    own_profile(&mut a, "alice.near", "alice", 4);
    own_profile(&mut a, "bob.near", "bob", 0);
    own_post(&mut a, "alice.near", 0, "first");
    own_post(&mut a, "bob.near", 1, "second");
    a.repost(&s("bob.near"), 1).unwrap();
    let parts = a.into_parts();
    let ids: Vec<&str> = parts.owner_by_id.iter().map(|(t, _)| t.as_str()).collect();
    assert_eq!(ids, vec!["1", "2", "alice", "bob"]);
    let back = Aerx::from_parts(parts).unwrap();
    assert_eq!(back.get_earnings(&s("alice.near")), Earnings { total: 4, available: 4 });
    assert_eq!(back.post_details(&s("bob.near"), s("2")).unwrap().co_earners, vec![s("alice.near")]);
    assert_eq!(back.repost_details(&s("bob.near"), 1).unwrap().owner, "bob.near");
    assert_eq!(back.profile_by_id(&s("bob.near"), &s("alice.near")).unwrap().token_id, "alice");
}

#[test]
fn corrupt_stored_profile_state_is_refused() {
    let build = || {
        let mut a = contract();
        own_profile(&mut a, "alice.near", "alice", 4);
        own_post(&mut a, "alice.near", 0, "first");
        a.into_parts()
    };
    // Token records out of order.
    let mut p = build();
    p.owner_by_id.reverse();
    assert!(matches!(Aerx::from_parts(p), Err(ProfileError::CorruptState)));
    // A token whose owner does not list it.
    let mut p = build();
    p.tokens_per_owner[0].1.pop();
    assert!(matches!(Aerx::from_parts(p), Err(ProfileError::CorruptState)));
    // A listed token owned by somebody else.
    let mut p = build();
    p.owner_by_id[0].1 = s("bob.near");
    assert!(matches!(Aerx::from_parts(p), Err(ProfileError::CorruptState)));
    // A token listed twice.
    let mut p = build();
    let again = p.tokens_per_owner[0].1[0].clone();
    p.tokens_per_owner[0].1.push(again);
    assert!(matches!(Aerx::from_parts(p), Err(ProfileError::CorruptState)));
    // More earnings available than earned.
    let mut p = build();
    p.earnings_per_user[0].1 = Earnings { total: 1, available: 2 };
    assert!(matches!(Aerx::from_parts(p), Err(ProfileError::CorruptState)));
    assert!(Aerx::from_parts(build()).is_ok());
}
