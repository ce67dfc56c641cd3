//! The AERX profile contract: profiles and posts are NFTs. A profile is a
//! token named by the user's username (never a number), a post is a token
//! named by its decimal post number. Users earn AEX when their posts are
//! charged; earnings, reposts and per-post records live here too. Each
//! entry point takes what the runtime reports as arguments and returns what
//! the runtime must do next.
use vstd::prelude::*;
use crate::assoc::{
    AssocList, StrSet, swap_removed, lemma_pairs_map, lemma_pairs_map_values, keys_distinct, keys_sorted, pairs_map,
    entry_views,
};
use crate::order::{text_lt, lemma_text_lt_irreflexive, lemma_text_lt_transitive};
use crate::numeric::{is_numeric_id, parses_as_u128, decimal, decimal_string, lemma_decimal_parses, lemma_decimal_roundtrip};
use crate::metadata::{NftContractMetadata, NftMetadataView, nft_metadata_valid};
use crate::reply::{CallOutcome, read_u128, read_bool, read_u128_list, json_u128, json_bool, json_u128_list};
use crate::text::{
    texts, copy_texts, copy_opt_text, copy_opt_bytes, contains_text, quoted, join_quoted, join_two_quoted,
    same_texts, same_opt_text, same_opt_bytes,
};

verus! {

/// The AEX fee for minting a post: 1 AEX.
pub const MINT_FEE: u128 = 1000000000000000000000000;

/// The gift a new AERX user receives from the token contract: 111 AEX.
pub const REGISTRATION_GIFT: u128 = 111000000000000000000000000;

/// The storage the token contract needs for an AERX user, in yoctoNEAR.
pub const REQUIRED_AEX_STORAGE: u128 = 1250000000000000000000 + 2370000000000000000000;

/// Gas kept back for settling an NFT transfer-and-call.
pub const GAS_FOR_RESOLVE_TRANSFER: u64 = 5000000000000;

/// Gas an NFT transfer-and-call must be given beyond what its receiver gets.
pub const GAS_FOR_NFT_TRANSFER_CALL: u64 = 25000000000000 + GAS_FOR_RESOLVE_TRANSFER;

/// The average gas of creating a profile, 0.0055 NEAR, in yoctoNEAR (the
/// double-precision product of 0.0055 and 10^24, truncated).
pub const MINT_PROFILE_GAS_COST: u128 = 5500000000000000000000;

/// The average gas of minting a post, 0.00709 NEAR, in yoctoNEAR (the
/// double-precision product of 0.00709 and 10^24, truncated).
pub const MINT_POST_GAS_COST: u128 = 7089999999999999475712;

/// The average gas of charging a post, 0.006 NEAR, in yoctoNEAR.
pub const CHARGE_GAS_COST: u128 = 6000000000000000000000;

/// The average gas of charging a repost, 0.00469 NEAR, in yoctoNEAR (the
/// double-precision product of 0.00469 and 10^24, truncated).
pub const CHARGE_REPOST_GAS_COST: u128 = 4689999999999999475712;

/// NEP-177 token metadata.
pub struct TokenMetadata {
    pub title: Option<String>,
    pub description: Option<String>,
    pub media: Option<String>,
    pub media_hash: Option<Vec<u8>>,
    pub copies: Option<u64>,
    pub issued_at: Option<String>,
    pub expires_at: Option<String>,
    pub starts_at: Option<String>,
    pub updated_at: Option<String>,
    pub extra: Option<String>,
    pub reference: Option<String>,
    pub reference_hash: Option<Vec<u8>>,
}

/// Token metadata taken by value.
pub struct MetadataView {
    pub title: Option<Seq<char>>,
    pub description: Option<Seq<char>>,
    pub media: Option<Seq<char>>,
    pub media_hash: Option<Seq<u8>>,
    pub copies: Option<u64>,
    pub issued_at: Option<Seq<char>>,
    pub expires_at: Option<Seq<char>>,
    pub starts_at: Option<Seq<char>>,
    pub updated_at: Option<Seq<char>>,
    pub extra: Option<Seq<char>>,
    pub reference: Option<Seq<char>>,
    pub reference_hash: Option<Seq<u8>>,
}

/// The text of an optional text.
pub open spec fn opt_text(o: Option<String>) -> Option<Seq<char>> {
    match o {
        Some(s) => Some(s@),
        None => None,
    }
}

/// The bytes of an optional byte string.
pub open spec fn opt_bytes(o: Option<Vec<u8>>) -> Option<Seq<u8>> {
    match o {
        Some(b) => Some(b@),
        None => None,
    }
}

impl View for TokenMetadata {
    type V = MetadataView;

    open spec fn view(&self) -> MetadataView {
        MetadataView {
            title: opt_text(self.title),
            description: opt_text(self.description),
            media: opt_text(self.media),
            media_hash: opt_bytes(self.media_hash),
            copies: self.copies,
            issued_at: opt_text(self.issued_at),
            expires_at: opt_text(self.expires_at),
            starts_at: opt_text(self.starts_at),
            updated_at: opt_text(self.updated_at),
            extra: opt_text(self.extra),
            reference: opt_text(self.reference),
            reference_hash: opt_bytes(self.reference_hash),
        }
    }
}

impl TokenMetadata {
    /// A copy of the metadata.
    pub fn duplicate(&self) -> (r: Self)
        ensures
            r@ == self@,
    {
        TokenMetadata {
            title: copy_opt_text(&self.title),
            description: copy_opt_text(&self.description),
            media: copy_opt_text(&self.media),
            media_hash: copy_opt_bytes(&self.media_hash),
            copies: self.copies,
            issued_at: copy_opt_text(&self.issued_at),
            expires_at: copy_opt_text(&self.expires_at),
            starts_at: copy_opt_text(&self.starts_at),
            updated_at: copy_opt_text(&self.updated_at),
            extra: copy_opt_text(&self.extra),
            reference: copy_opt_text(&self.reference),
            reference_hash: copy_opt_bytes(&self.reference_hash),
        }
    }
}

/// The view of optional metadata.
pub open spec fn opt_meta(o: Option<TokenMetadata>) -> Option<MetadataView> {
    match o {
        Some(m) => Some(m@),
        None => None,
    }
}

/// A copy of optional metadata.
pub fn copy_opt_meta(o: &Option<TokenMetadata>) -> (r: Option<TokenMetadata>)
    ensures
        opt_meta(r) == opt_meta(*o),
{
    match o {
        Some(m) => Some(m.duplicate()),
        None => None,
    }
}

/// An NFT as the contract shows it. Approvals are never granted on this
/// contract, so every token's approval list is empty.
pub struct Token {
    pub token_id: String,
    pub owner_id: String,
    pub metadata: Option<TokenMetadata>,
}

pub struct TokenView {
    pub token_id: Seq<char>,
    pub owner_id: Seq<char>,
    pub metadata: Option<MetadataView>,
}

impl View for Token {
    type V = TokenView;

    open spec fn view(&self) -> TokenView {
        TokenView { token_id: self.token_id@, owner_id: self.owner_id@, metadata: opt_meta(self.metadata) }
    }
}

/// What a user has earned from charges: everything, and what is left to spend.
#[derive(Debug, PartialEq, Eq, Clone, Copy, Structural)]
pub struct Earnings {
    pub total: u128,
    pub available: u128,
}

/// The details of a post (or profile) token.
pub struct AexPost {
    pub post_id: String,
    pub owner_id: String,
    pub metadata: Option<TokenMetadata>,
    pub total_charges: u128,
    pub origin_post_id: Option<u128>,
    pub co_earners: Vec<String>,
}

pub struct AexPostView {
    pub post_id: Seq<char>,
    pub owner_id: Seq<char>,
    pub metadata: Option<MetadataView>,
    pub total_charges: u128,
    pub origin_post_id: Option<u128>,
    pub co_earners: Seq<Seq<char>>,
}

impl View for AexPost {
    type V = AexPostView;

    open spec fn view(&self) -> AexPostView {
        AexPostView {
            post_id: self.post_id@,
            owner_id: self.owner_id@,
            metadata: opt_meta(self.metadata),
            total_charges: self.total_charges,
            origin_post_id: self.origin_post_id,
            co_earners: texts(self.co_earners@),
        }
    }
}

/// A repost: a user's borrowing of somebody's post, to earn from it together.
pub struct Repost {
    pub id: u64,
    pub owner: String,
    pub initial_owner: String,
    pub details: Option<TokenMetadata>,
    pub total_charges: u128,
}

pub struct RepostView {
    pub id: u64,
    pub owner: Seq<char>,
    pub initial_owner: Seq<char>,
    pub details: Option<MetadataView>,
    pub total_charges: u128,
}

impl View for Repost {
    type V = RepostView;

    open spec fn view(&self) -> RepostView {
        RepostView {
            id: self.id,
            owner: self.owner@,
            initial_owner: self.initial_owner@,
            details: opt_meta(self.details),
            total_charges: self.total_charges,
        }
    }
}

impl Repost {
    /// A copy of the repost.
    pub fn duplicate(&self) -> (r: Self)
        ensures
            r@ == self@,
    {
        Repost {
            id: self.id,
            owner: self.owner.clone(),
            initial_owner: self.initial_owner.clone(),
            details: copy_opt_meta(&self.details),
            total_charges: self.total_charges,
        }
    }
}

/// The views of a list of reposts.
pub open spec fn repost_views(v: Seq<Repost>) -> Seq<RepostView> {
    v.map_values(|r: Repost| r@)
}

/// The outcome of minting a profile or post: the token minted, or
/// `mint_state == false` when nothing was minted.
pub struct MintProfileReturn {
    pub token_id: String,
    pub owner_id: String,
    pub metadata: Option<TokenMetadata>,
    pub mint_state: bool,
}

pub struct MintReturnView {
    pub token_id: Seq<char>,
    pub owner_id: Seq<char>,
    pub metadata: Option<MetadataView>,
    pub mint_state: bool,
}

impl View for MintProfileReturn {
    type V = MintReturnView;

    open spec fn view(&self) -> MintReturnView {
        MintReturnView {
            token_id: self.token_id@,
            owner_id: self.owner_id@,
            metadata: opt_meta(self.metadata),
            mint_state: self.mint_state,
        }
    }
}

/// The answer when nothing was minted: empty texts, no metadata.
pub open spec fn no_mint() -> MintReturnView {
    MintReturnView {
        token_id: Seq::<char>::empty(),
        owner_id: Seq::<char>::empty(),
        metadata: None,
        mint_state: false,
    }
}

/// Why the profile contract refused a call.
#[derive(Debug, PartialEq, Eq, Clone, Copy, Structural)]
pub enum ProfileError {
    /// A username may not read as a number.
    NumericUsername,
    /// The username is taken.
    UsernameTaken,
    /// The user already has a profile.
    AlreadyRegistered,
    /// Only AERX users (holders of a profile) may do this.
    NotAerxUser,
    /// The caller may not make this call.
    Unauthorized,
    /// The call must be signed by its caller, not made by another contract.
    CrossContractCall,
    /// The AERX account may only mint plain posts for a user.
    OriginPostNotAllowed,
    /// The origin post does not exist.
    InvalidOriginPost,
    /// The post does not exist.
    InvalidPostId,
    /// The repost does not exist.
    InvalidRepostId,
    /// The user has no profile token.
    NoProfile,
    /// The token does not exist.
    TokenNotFound,
    /// Profiles cannot be transferred, only posts.
    ProfileNotTransferable,
    /// Only the owner may transfer a token.
    SenderNotApproved,
    /// A token's owner and receiver must differ.
    SameOwner,
    /// The call must carry exactly one yoctoNEAR.
    RequiresOneYocto,
    /// The call was not given enough gas.
    NotEnoughGas,
    /// Only the AERX marketplace may receive a transfer-and-call.
    UnsupportedReceiver,
    /// The user's available earnings are smaller than the amount.
    InsufficientEarnings,
    /// The available earnings would exceed `u128::MAX`.
    EarningsOverflow,
    /// The attached deposit does not cover the storage used.
    InsufficientDeposit,
    /// The call released storage, which the storage fee arithmetic refuses.
    StorageReleased,
    /// A storage fee does not fit in a `u128`.
    StorageCostOverflow,
    /// A cross-contract call failed.
    CallFailed,
    /// A cross-contract call answered something unreadable.
    UnreadableReply,
    /// The token contract reported a zero balance.
    ZeroBalance,
    /// A token must come with metadata.
    MissingMetadata,
    /// The token id is taken.
    TokenIdTaken,
    /// No more post numbers are available.
    PostIdOverflow,
    /// The charges on a post or repost would exceed `u128::MAX`.
    ChargeOverflow,
    /// The balance after the gift is smaller than the gift.
    GiftExceedsBalance,
    /// The user's AEX balance does not cover the price.
    InsufficientBalance,
    /// A price does not fit in a `u128`.
    PriceOverflow,
    /// A refund share is missing.
    MissingShare,
    /// No more repost numbers are available.
    RepostIdOverflow,
    /// The marketplace refused to list the post.
    MarketplaceRefused,
    /// A value the callback needs was not passed on to it.
    MissingArgument,
    /// A share is larger than the amount it is taken from.
    ShareExceedsAmount,
    /// The contract metadata is not valid NEP-177 metadata.
    InvalidMetadata,
    /// Stored state the contract cannot resume from.
    CorruptState,
}

/// What is left of `attached_deposit` once the storage a call added
/// (from `initial_usage` to `final_usage` bytes, at `byte_cost` each) is
/// paid for; the caller gets it back when it is positive.
pub fn storage_refund(attached_deposit: u128, initial_usage: u64, final_usage: u64, byte_cost: u128) -> (r: Result<
    u128,
    ProfileError,
>)
    ensures
        final_usage < initial_usage ==> r == Err::<u128, ProfileError>(ProfileError::StorageReleased),
        final_usage >= initial_usage && (final_usage - initial_usage) * byte_cost > u128::MAX ==> r == Err::<
            u128,
            ProfileError,
        >(ProfileError::StorageCostOverflow),
        final_usage >= initial_usage && (final_usage - initial_usage) * byte_cost <= u128::MAX && attached_deposit
            < (final_usage - initial_usage) * byte_cost ==> r == Err::<u128, ProfileError>(
            ProfileError::InsufficientDeposit,
        ),
        final_usage >= initial_usage && (final_usage - initial_usage) * byte_cost <= attached_deposit ==> r == Ok::<
            u128,
            ProfileError,
        >((attached_deposit - (final_usage - initial_usage) * byte_cost) as u128),
{
    if final_usage < initial_usage {
        return Err(ProfileError::StorageReleased);
    }
    let used = (final_usage - initial_usage) as u128;
    let cost = match used.checked_mul(byte_cost) {
        Some(c) => c,
        None => {
            return Err(ProfileError::StorageCostOverflow);
        },
    };
    if attached_deposit < cost {
        return Err(ProfileError::InsufficientDeposit);
    }
    Ok(attached_deposit - cost)
}

/// The refund of a token mint, as the NEP-171 core settles it: the storage
/// added (from `initial_usage` to `final_usage` bytes) costs `byte_cost` a
/// byte, the product stopping at `u128::MAX`; the deposit must cover it,
/// and what is left goes back only when it exceeds one yoctoNEAR (0 here
/// means nothing is sent).
pub fn mint_storage_refund(attached_deposit: u128, initial_usage: u64, final_usage: u64, byte_cost: u128) -> (r: Result<
    u128,
    ProfileError,
>)
    ensures
        ({
            let cost = if (final_usage - initial_usage) * byte_cost > u128::MAX {
                u128::MAX as int
            } else {
                (final_usage - initial_usage) * byte_cost
            };
            if final_usage < initial_usage {
                r == Err::<u128, ProfileError>(ProfileError::StorageReleased)
            } else if attached_deposit < cost {
                r == Err::<u128, ProfileError>(ProfileError::InsufficientDeposit)
            } else if attached_deposit - cost > 1 {
                r == Ok::<u128, ProfileError>((attached_deposit - cost) as u128)
            } else {
                r == Ok::<u128, ProfileError>(0)
            }
        }),
{
    if final_usage < initial_usage {
        return Err(ProfileError::StorageReleased);
    }
    let used = (final_usage - initial_usage) as u128;
    let cost = match used.checked_mul(byte_cost) {
        Some(c) => c,
        None => u128::MAX,
    };
    if attached_deposit < cost {
        return Err(ProfileError::InsufficientDeposit);
    }
    let refund = attached_deposit - cost;
    if refund > 1 {
        Ok(refund)
    } else {
        Ok(0)
    }
}

/// The number a cross-contract call answered, read as a JSON `u128`:
/// refused when the call failed or its answer is not such a number.
pub fn u128_reply(outcome: &CallOutcome) -> (r: Result<u128, ProfileError>)
    ensures
        match *outcome {
            CallOutcome::Failure => r == Err::<u128, ProfileError>(ProfileError::CallFailed),
            CallOutcome::Success(bytes) => match json_u128(bytes@) {
                Some(n) => r == Ok::<u128, ProfileError>(n),
                None => r == Err::<u128, ProfileError>(ProfileError::UnreadableReply),
            },
        },
{
    match outcome {
        CallOutcome::Failure => Err(ProfileError::CallFailed),
        CallOutcome::Success(bytes) => match read_u128(bytes.as_slice()) {
            Some(n) => Ok(n),
            None => Err(ProfileError::UnreadableReply),
        },
    }
}

/// The contract's abstract state.
pub struct AerxView {
    pub contract_id: Seq<char>,
    pub owner_id: Seq<char>,
    pub extra_storage_per_token: u64,
    pub byte_cost: u128,
    pub owners: Map<Seq<char>, Seq<char>>,
    pub metadata: Map<Seq<char>, MetadataView>,
    pub tokens_of: Map<Seq<char>, Seq<Seq<char>>>,
    pub token_contract: Seq<char>,
    pub aeswap: Seq<char>,
    pub marketplace: Seq<char>,
    pub last_post_id: u128,
    pub charges: Map<Seq<char>, u128>,
    pub earnings: Map<Seq<char>, Earnings>,
    pub co_earners: Map<Seq<char>, Seq<Seq<char>>>,
    pub origins: Map<Seq<char>, u128>,
    pub reposts: Seq<RepostView>,
    pub contract_metadata: NftMetadataView,
}

/// The earnings after taking `amount` from what is available, `None`
/// when less is available.
pub open spec fn decreased_earnings(e: Earnings, amount: u128) -> Option<Earnings> {
    if e.available >= amount {
        Some(Earnings { total: e.total, available: (e.available - amount) as u128 })
    } else {
        None
    }
}

/// Spending earnings takes exactly the amount from what is available and
/// leaves the total earned as it was; it is refused exactly when less is
/// available than the amount.
pub proof fn lemma_decrease_takes_amount(e: Earnings, amount: u128)
    ensures
        decreased_earnings(e, amount) is Some <==> amount <= e.available,
        decreased_earnings(e, amount) matches Some(n) ==> n.available + amount == e.available && n.total == e.total,
{
}

/// What adding earnings does.
pub enum IncreaseOutcome {
    /// The available earnings would overflow.
    Overflow,
    /// Nothing is recorded (nothing was available and the user is not an AERX user).
    Ignored,
    /// These earnings are recorded.
    Recorded(Earnings),
}

/// The outcome of adding `amount` to `e` for a user who is or is not
/// (`registered`) an AERX user.
pub open spec fn increased_earnings(e: Earnings, amount: u128, registered: bool) -> IncreaseOutcome {
    if e.available == 0 && !registered {
        IncreaseOutcome::Ignored
    } else if e.available + amount > u128::MAX {
        IncreaseOutcome::Overflow
    } else {
        IncreaseOutcome::Recorded(
            Earnings {
                total: if e.total + amount > u128::MAX {
                    u128::MAX
                } else {
                    (e.total + amount) as u128
                },
                available: (e.available + amount) as u128,
            },
        )
    }
}

/// An AERX user, or anybody with earnings available, earns every amount
/// that does not overflow what is available: the available earnings grow
/// by exactly the amount, and the total by the amount (capped at the
/// largest `u128`). Only somebody who is no AERX user and has nothing
/// available earns nothing.
pub proof fn lemma_increase_adds_amount(e: Earnings, amount: u128, registered: bool)
    ensures
        (registered || e.available > 0) && e.available + amount <= u128::MAX ==> (increased_earnings(
            e,
            amount,
            registered,
        ) matches IncreaseOutcome::Recorded(n) && n.available == e.available + amount && (n.total == e.total
            + amount || (n.total == u128::MAX && e.total + amount > u128::MAX))),
        (registered || e.available > 0) && e.available + amount > u128::MAX ==> increased_earnings(
            e,
            amount,
            registered,
        ) is Overflow,
        !registered && e.available == 0 ==> increased_earnings(e, amount, registered) is Ignored,
{
}

/// Spending what was just earned gives back the earnings available
/// before: after recording an increase of `amount`, a decrease by the same
/// amount succeeds and leaves the available earnings where they were,
/// while the total keeps the increase.
pub proof fn lemma_decrease_undoes_increase(e: Earnings, amount: u128, registered: bool)
    requires
        increased_earnings(e, amount, registered) is Recorded,
    ensures
        ({
            let up = increased_earnings(e, amount, registered)->Recorded_0;
            &&& decreased_earnings(up, amount) is Some
            &&& decreased_earnings(up, amount)->Some_0.available == e.available
            &&& decreased_earnings(up, amount)->Some_0.total == up.total
            &&& up.total >= e.total
        }),
{
}

/// The tokens listed under `o`, none when it has no list.
pub open spec fn tokens_list(v: AerxView, o: Seq<char>) -> Seq<Seq<char>> {
    if v.tokens_of.dom().contains(o) {
        v.tokens_of[o]
    } else {
        Seq::<Seq<char>>::empty()
    }
}

/// A list of tokens with `t` added at the end unless it is there already.
pub open spec fn with_token(s: Seq<Seq<char>>, t: Seq<char>) -> Seq<Seq<char>> {
    if s.contains(t) {
        s
    } else {
        s.push(t)
    }
}

/// A list of tokens with `t` removed by moving the last one into its place.
pub open spec fn without_token(s: Seq<Seq<char>>, t: Seq<char>) -> Seq<Seq<char>> {
    match s.index_of_first(t) {
        Some(i) => swap_removed(s, i),
        None => s,
    }
}

/// Ownership and the per-owner token lists agree, and no list repeats a token.
pub open spec fn consistent(v: AerxView) -> bool {
    &&& forall|t: Seq<char>| #[trigger] v.owners.dom().contains(t) ==> v.tokens_of.dom().contains(v.owners[t])
        && v.tokens_of[v.owners[t]].contains(t)
    &&& forall|o: Seq<char>, t: Seq<char>|
        v.tokens_of.dom().contains(o) && (#[trigger] v.tokens_of[o].contains(t)) ==> v.owners.dom().contains(t)
            && v.owners[t] == o
    &&& forall|o: Seq<char>| #[trigger] v.tokens_of.dom().contains(o) ==> v.tokens_of[o].no_duplicates()
}

/// The state after minting token `t` to `o` with metadata `m`.
pub open spec fn minted(v: AerxView, t: Seq<char>, o: Seq<char>, m: MetadataView) -> AerxView {
    AerxView {
        owners: v.owners.insert(t, o),
        metadata: v.metadata.insert(t, m),
        tokens_of: v.tokens_of.insert(o, with_token(tokens_list(v, o), t)),
        ..v
    }
}

/// The state once the post `t` is recorded: it has no charges and no
/// origin, and it is the last post.
pub open spec fn post_recorded(v: AerxView, t: Seq<char>) -> AerxView {
    AerxView {
        charges: v.charges.insert(t, 0),
        origins: v.origins.insert(t, 0),
        last_post_id: (v.last_post_id + 1) as u128,
        ..v
    }
}

/// The state once `user` has earned `amount`, all of it available.
pub open spec fn earnings_set(v: AerxView, user: Seq<char>, amount: u128) -> AerxView {
    AerxView { earnings: v.earnings.insert(user, Earnings { total: amount, available: amount }), ..v }
}

/// The state once repost `repost_id` (counting from one) has `total`
/// charges, all else in it kept.
pub open spec fn repost_charged(v: AerxView, repost_id: u64, total: u128) -> AerxView {
    AerxView {
        reposts: v.reposts.update(
            repost_id - 1,
            RepostView { total_charges: total, ..v.reposts[repost_id - 1] },
        ),
        ..v
    }
}

/// What a new profile costs its owner in AEX, at `aex_per_near` AEX a
/// NEAR: the storage fee of its records, the token contract's storage
/// and the average gas.
pub open spec fn profile_price(storage_cost: u128, aex_per_near: u128) -> int {
    aex_per_near * (storage_cost + REQUIRED_AEX_STORAGE + MINT_PROFILE_GAS_COST)
}

/// `t` is the id of a post: the decimal rendering of a number from 1 to
/// the last post id.
pub open spec fn is_post_id(v: AerxView, t: Seq<char>) -> bool {
    exists|k: nat| 1 <= k <= v.last_post_id && t == #[trigger] decimal(k)
}

/// The token ids that parse as numbers are exactly the post ids 1 to
/// `last_post_id`.
pub open spec fn post_ids_exact(v: AerxView) -> bool {
    forall|t: Seq<char>| #[trigger] parses_as_u128(t) ==> (v.owners.dom().contains(t) <==> is_post_id(v, t))
}

/// `t` is a post id issued so far: the next one, or an earlier one.
pub open spec fn post_id_issued(v: AerxView, t: Seq<char>) -> bool {
    exists|k: nat| 1 <= k <= v.last_post_id + 1 && t == #[trigger] decimal(k)
}

/// With exact post ids, an issued post id that is still free is the next
/// one: every earlier one is taken.
pub proof fn lemma_free_issued_id_is_next(v: AerxView, t: Seq<char>)
    requires
        post_ids_exact(v),
        post_id_issued(v, t),
        !v.owners.dom().contains(t),
    ensures
        t == decimal((v.last_post_id + 1) as nat),
{
    let k = choose|k: nat| 1 <= k <= v.last_post_id + 1 && t == #[trigger] decimal(k);
    if k <= v.last_post_id {
        lemma_decimal_parses(k as u128);
        assert(is_post_id(v, t));
        assert(parses_as_u128(t));
    }
}

/// A contract with no tokens and no posts has exactly its post ids.
pub proof fn lemma_post_ids_at_start(v: AerxView)
    requires
        v.owners.dom() == Set::<Seq<char>>::empty(),
        v.last_post_id == 0,
    ensures
        post_ids_exact(v),
{
}

/// Changes that keep the token ids and the last post id keep the post
/// ids exact.
pub proof fn lemma_post_ids_kept(v: AerxView, w: AerxView)
    requires
        post_ids_exact(v),
        w.owners.dom() == v.owners.dom(),
        w.last_post_id == v.last_post_id,
    ensures
        post_ids_exact(w),
{
    assert forall|t: Seq<char>| #[trigger] parses_as_u128(t) implies (w.owners.dom().contains(t) <==> is_post_id(w, t)) by {
        assert(v.owners.dom().contains(t) <==> is_post_id(v, t));
    }
}

/// Moving a token to another owner keeps the post ids exact.
pub proof fn lemma_post_ids_token_moved(v: AerxView, t: Seq<char>, from: Seq<char>, to: Seq<char>)
    requires
        post_ids_exact(v),
        v.owners.dom().contains(t),
    ensures
        post_ids_exact(token_moved(v, t, from, to)),
{
    let w = token_moved(v, t, from, to);
    assert(w.owners.dom() =~= v.owners.dom());
    lemma_post_ids_kept(v, w);
}

/// Minting a token under a name that is not a number (a profile) keeps
/// the post ids exact.
pub proof fn lemma_post_ids_profile_minted(v: AerxView, t: Seq<char>, o: Seq<char>, m: MetadataView)
    requires
        post_ids_exact(v),
        !parses_as_u128(t),
    ensures
        post_ids_exact(minted(v, t, o, m)),
{
    let w = minted(v, t, o, m);
    assert forall|x: Seq<char>| #[trigger] parses_as_u128(x) implies (w.owners.dom().contains(x) <==> is_post_id(w, x)) by {
        assert(v.owners.dom().contains(x) <==> is_post_id(v, x));
    }
}

/// Renaming a profile from one name that is not a number to another keeps
/// the post ids exact.
pub proof fn lemma_post_ids_renamed(v: AerxView, old_name: Seq<char>, new_name: Seq<char>, user: Seq<char>, m: MetadataView)
    requires
        post_ids_exact(v),
        !parses_as_u128(old_name),
        !parses_as_u128(new_name),
    ensures
        post_ids_exact(renamed(v, old_name, new_name, user, m)),
{
    let w = renamed(v, old_name, new_name, user, m);
    assert forall|x: Seq<char>| #[trigger] parses_as_u128(x) implies (w.owners.dom().contains(x) <==> is_post_id(w, x)) by {
        assert(v.owners.dom().contains(x) <==> is_post_id(v, x));
    }
}

/// The next post id is free, and minting the post under it and recording
/// it keeps the post ids exact.
pub proof fn lemma_post_ids_post_minted(v: AerxView, o: Seq<char>, m: MetadataView)
    requires
        post_ids_exact(v),
        v.last_post_id < u128::MAX,
    ensures
        !v.owners.dom().contains(decimal((v.last_post_id + 1) as nat)),
        post_ids_exact(
            post_recorded(
                minted(v, decimal((v.last_post_id + 1) as nat), o, m),
                decimal((v.last_post_id + 1) as nat),
            ),
        ),
{
    let n: nat = (v.last_post_id + 1) as nat;
    let d = decimal(n);
    lemma_decimal_parses((v.last_post_id + 1) as u128);
    lemma_decimal_roundtrip(n);
    if v.owners.dom().contains(d) {
        assert(is_post_id(v, d));
        let k = choose|k: nat| 1 <= k <= v.last_post_id && d == #[trigger] decimal(k);
        lemma_decimal_roundtrip(k);
        assert(false);
    }
    let w = post_recorded(minted(v, d, o, m), d);
    assert(w.last_post_id == n);
    assert forall|x: Seq<char>| #[trigger] parses_as_u128(x) implies (w.owners.dom().contains(x) <==> is_post_id(w, x)) by {
        assert(v.owners.dom().contains(x) <==> is_post_id(v, x));
        if x == d {
            assert(is_post_id(w, x)) by {
                assert(1 <= n <= w.last_post_id && x == decimal(n));
            }
        } else {
            if is_post_id(w, x) {
                let k = choose|k: nat| 1 <= k <= w.last_post_id && x == #[trigger] decimal(k);
                if k == n {
                    assert(false);
                }
                assert(is_post_id(v, x));
            }
            if is_post_id(v, x) {
                let k = choose|k: nat| 1 <= k <= v.last_post_id && x == #[trigger] decimal(k);
                assert(is_post_id(w, x));
            }
        }
    }
}

/// The token lists after moving `t` from `from` to `to`: `from`'s list
/// loses it (and disappears when empty), `to`'s list gains it.
pub open spec fn lists_moved(
    lists: Map<Seq<char>, Seq<Seq<char>>>,
    t: Seq<char>,
    from: Seq<char>,
    to: Seq<char>,
) -> Map<Seq<char>, Seq<Seq<char>>> {
    let rest = without_token(if lists.dom().contains(from) { lists[from] } else { Seq::empty() }, t);
    let l1 = if rest.len() == 0 { lists.remove(from) } else { lists.insert(from, rest) };
    l1.insert(to, with_token(if l1.dom().contains(to) { l1[to] } else { Seq::empty() }, t))
}

/// The state after moving token `t` from `from` to `to`.
pub open spec fn token_moved(v: AerxView, t: Seq<char>, from: Seq<char>, to: Seq<char>) -> AerxView {
    AerxView { owners: v.owners.insert(t, to), tokens_of: lists_moved(v.tokens_of, t, from, to), ..v }
}

proof fn lemma_with_token(s: Seq<Seq<char>>, t: Seq<char>)
    requires
        s.no_duplicates(),
    ensures
        with_token(s, t).no_duplicates(),
        forall|x: Seq<char>| #[trigger] with_token(s, t).contains(x) <==> (s.contains(x) || x == t),
{
    if !s.contains(t) {
        let u = s.push(t);
        assert forall|x: Seq<char>| #[trigger] u.contains(x) <==> (s.contains(x) || x == t) by {
            if u.contains(x) {
                let j = choose|j: int| 0 <= j < u.len() && u[j] == x;
                if j < s.len() {
                    assert(s[j] == x);
                }
            }
            if s.contains(x) {
                let j = choose|j: int| 0 <= j < s.len() && s[j] == x;
                assert(u[j] == x);
            }
            if x == t {
                assert(u[s.len() as int] == x);
            }
        }
        assert forall|a: int, b: int| 0 <= a < u.len() && 0 <= b < u.len() && a != b implies u[a] != u[b] by {
            if a == s.len() as int {
                assert(s.contains(s[b]));
            } else if b == s.len() as int {
                assert(s.contains(s[a]));
            }
        }
    }
}

proof fn lemma_without_token(s: Seq<Seq<char>>, t: Seq<char>)
    requires
        s.no_duplicates(),
    ensures
        without_token(s, t).no_duplicates(),
        forall|x: Seq<char>| #[trigger] without_token(s, t).contains(x) <==> (s.contains(x) && x != t),
        s.contains(t) ==> without_token(s, t).len() == s.len() - 1,
        !s.contains(t) ==> without_token(s, t) == s,
{
    s.index_of_first_ensures(t);
    match s.index_of_first(t) {
        Some(i) => {
            let u = swap_removed(s, i);
            let n = s.len() - 1;
            assert forall|a: int, b: int| 0 <= a < u.len() && 0 <= b < u.len() && a != b implies u[a] != u[b] by {
                let a2 = if a == i { n } else { a };
                let b2 = if b == i { n } else { b };
                assert(u[a] == s[a2] && u[b] == s[b2]);
            }
            assert forall|x: Seq<char>| #[trigger] u.contains(x) <==> (s.contains(x) && x != t) by {
                if u.contains(x) {
                    let j = choose|j: int| 0 <= j < u.len() && u[j] == x;
                    let j2 = if j == i { n } else { j };
                    assert(u[j] == s[j2]);
                    assert(j2 != i);
                }
                if s.contains(x) && x != t {
                    let j = choose|j: int| 0 <= j < s.len() && s[j] == x;
                    assert(j != i);
                    if j == n {
                        assert(u[i] == x);
                    } else {
                        assert(u[j] == x);
                    }
                }
            }
        },
        None => {},
    }
}

/// Minting a fresh token keeps ownership and token lists in agreement.
pub proof fn lemma_mint_consistent(v: AerxView, t: Seq<char>, o: Seq<char>, m: MetadataView)
    requires
        consistent(v),
        !v.owners.dom().contains(t),
    ensures
        consistent(minted(v, t, o, m)),
{
    let w = minted(v, t, o, m);
    lemma_with_token(tokens_list(v, o), t);
    assert forall|x: Seq<char>| #[trigger] w.owners.dom().contains(x) implies w.tokens_of.dom().contains(w.owners[x])
        && w.tokens_of[w.owners[x]].contains(x) by {
        if x != t {
            assert(v.owners.dom().contains(x));
            let ox = v.owners[x];
            assert(v.tokens_of[ox].contains(x));
        }
    }
    assert forall|p: Seq<char>, x: Seq<char>|
        w.tokens_of.dom().contains(p) && (#[trigger] w.tokens_of[p].contains(x)) implies w.owners.dom().contains(x)
        && w.owners[x] == p by {
        if p == o {
            if x != t {
                assert(tokens_list(v, o).contains(x));
                assert(v.tokens_of[o].contains(x));
            }
        } else {
            assert(v.tokens_of[p].contains(x));
            if x == t {
                assert(v.owners.dom().contains(t));
            }
        }
    }
    assert forall|p: Seq<char>| #[trigger] w.tokens_of.dom().contains(p) implies w.tokens_of[p].no_duplicates() by {
        if p != o {
            assert(v.tokens_of.dom().contains(p));
        }
    }
}

/// Moving a token from its owner to another account keeps ownership and
/// token lists in agreement.
pub proof fn lemma_move_consistent(v: AerxView, t: Seq<char>, from: Seq<char>, to: Seq<char>)
    requires
        consistent(v),
        v.owners.dom().contains(t),
        v.owners[t] == from,
    ensures
        consistent(token_moved(v, t, from, to)),
{
    let w = token_moved(v, t, from, to);
    assert(v.tokens_of.dom().contains(from));
    let fl = v.tokens_of[from];
    lemma_without_token(fl, t);
    let rest = without_token(fl, t);
    let l1 = if rest.len() == 0 { v.tokens_of.remove(from) } else { v.tokens_of.insert(from, rest) };
    let tl = if l1.dom().contains(to) { l1[to] } else { Seq::<Seq<char>>::empty() };
    if to == from {
        assert(tl.no_duplicates());
    } else {
        assert(l1.dom().contains(to) ==> v.tokens_of.dom().contains(to) && l1[to] == v.tokens_of[to]);
        assert(tl.no_duplicates());
    }
    lemma_with_token(tl, t);
    assert forall|x: Seq<char>| #[trigger] w.owners.dom().contains(x) implies w.tokens_of.dom().contains(w.owners[x])
        && w.tokens_of[w.owners[x]].contains(x) by {
        if x != t {
            let ox = v.owners[x];
            assert(v.tokens_of[ox].contains(x));
            if ox == from {
                assert(rest.contains(x));
            }
        }
    }
    assert forall|p: Seq<char>, x: Seq<char>|
        w.tokens_of.dom().contains(p) && (#[trigger] w.tokens_of[p].contains(x)) implies w.owners.dom().contains(x)
        && w.owners[x] == p by {
        if p == to {
            if x != t {
                assert(tl.contains(x));
                if to == from {
                    assert(rest.contains(x));
                    assert(fl.contains(x));
                } else {
                    assert(v.tokens_of[to].contains(x));
                }
            }
        } else if p == from {
            assert(rest.contains(x));
            assert(fl.contains(x));
        } else {
            assert(v.tokens_of[p].contains(x));
            if x == t {
                assert(v.owners[t] == p);
            }
        }
    }
    assert forall|p: Seq<char>| #[trigger] w.tokens_of.dom().contains(p) implies w.tokens_of[p].no_duplicates() by {
        if p != to && p != from {
            assert(v.tokens_of.dom().contains(p));
        }
    }
}

/// Which flow asked the AESWAP contract for the NEAR price of AEX.
#[derive(Debug, PartialEq, Eq, Clone, Copy, Structural)]
pub enum PriceMethod {
    MintProfile,
    MintPost,
    Charge,
    ChargeRepost,
    /// Any other name: the contract answers that nothing was minted.
    Other,
}

/// The arguments carried from a price request to its callback
/// (`resolve_get_price_from_pool`) and on to the payment's callback
/// (`resolve_send_aex_mint_post_and_charge`).
pub struct PriceRequest {
    pub user_id: String,
    pub token_id: String,
    pub balance: Option<u128>,
    pub method: PriceMethod,
    pub metadata: Option<TokenMetadata>,
    pub amount: Option<u128>,
    pub repost_id: Option<u64>,
}

pub struct PriceRequestView {
    pub user_id: Seq<char>,
    pub token_id: Seq<char>,
    pub balance: Option<u128>,
    pub method: PriceMethod,
    pub metadata: Option<MetadataView>,
    pub amount: Option<u128>,
    pub repost_id: Option<u64>,
}

impl View for PriceRequest {
    type V = PriceRequestView;

    open spec fn view(&self) -> PriceRequestView {
        PriceRequestView {
            user_id: self.user_id@,
            token_id: self.token_id@,
            balance: self.balance,
            method: self.method,
            metadata: opt_meta(self.metadata),
            amount: self.amount,
            repost_id: self.repost_id,
        }
    }
}

/// The callback that follows a `send_aex` call.
pub enum Callback {
    /// `verify_aex_for_mint_post`, with `deposit` attached.
    VerifyMintPost { user_id: String, origin_post_id: u128, metadata: Option<TokenMetadata>, deposit: u128 },
    /// `verify_aex_call_for_charge`.
    VerifyCharge { creator_id: String, charger_id: String, post_id: u128, amount_charged: u128, earners_share: Option<u128> },
    /// `verify_aex_call_for_charge_repost`.
    VerifyChargeRepost { charger_id: String, repost_id: u64, amount_charged: u128 },
    /// `resolve_send_aex_mint_post_and_charge`, with `deposit` attached.
    ResolveSendAex { request: PriceRequest, deposit: u128 },
}

pub enum CallbackView {
    VerifyMintPost { user_id: Seq<char>, origin_post_id: u128, metadata: Option<MetadataView>, deposit: u128 },
    VerifyCharge {
        creator_id: Seq<char>,
        charger_id: Seq<char>,
        post_id: u128,
        amount_charged: u128,
        earners_share: Option<u128>,
    },
    VerifyChargeRepost { charger_id: Seq<char>, repost_id: u64, amount_charged: u128 },
    ResolveSendAex { request: PriceRequestView, deposit: u128 },
}

impl View for Callback {
    type V = CallbackView;

    open spec fn view(&self) -> CallbackView {
        match self {
            Callback::VerifyMintPost { user_id, origin_post_id, metadata, deposit } => CallbackView::VerifyMintPost {
                user_id: user_id@,
                origin_post_id: *origin_post_id,
                metadata: opt_meta(*metadata),
                deposit: *deposit,
            },
            Callback::VerifyCharge { creator_id, charger_id, post_id, amount_charged, earners_share } =>
                CallbackView::VerifyCharge {
                creator_id: creator_id@,
                charger_id: charger_id@,
                post_id: *post_id,
                amount_charged: *amount_charged,
                earners_share: *earners_share,
            },
            Callback::VerifyChargeRepost { charger_id, repost_id, amount_charged } =>
                CallbackView::VerifyChargeRepost {
                charger_id: charger_id@,
                repost_id: *repost_id,
                amount_charged: *amount_charged,
            },
            Callback::ResolveSendAex { request, deposit } => CallbackView::ResolveSendAex {
                request: request@,
                deposit: *deposit,
            },
        }
    }
}

/// What the runtime must do after a call of the profile contract.
pub enum ProfileAction {
    /// Call `register_and_reward_user(user_id)` on the token contract with
    /// `deposit` attached, then `verify_aex_call_for_mint_profile`.
    RegisterAndReward { user_id: String, deposit: u128, username: String, metadata: TokenMetadata },
    /// Call `add_unrewarded_user(user_id)` on the token contract with
    /// `deposit` attached, then `verify_add_unrewarded_user_for_mint_profile`
    /// with the same deposit.
    AddUnrewardedUser { user_id: String, deposit: u128, username: String, metadata: TokenMetadata },
    /// Call `send_aex` on the token contract.
    SendAex { sender_id: String, receiver_id: String, amount: u128, memo: String },
    /// Call `send_aex` on the token contract, then `then`.
    SendAexThen { sender_id: String, receiver_id: String, amount: u128, memo: String, then: Callback },
    /// Ask the AESWAP contract for the price in pool 1 of
    /// `nearnativetoken.near`, then call `resolve_get_price_from_pool` with
    /// `deposit` attached.
    GetPriceThenResolve { request: PriceRequest, deposit: u128 },
    /// Call `nft_on_transfer` on the receiver, then `nft_resolve_transfer`.
    CallNftReceiverThenResolve {
        sender_id: String,
        previous_owner_id: String,
        receiver_id: String,
        token_id: String,
        msg: String,
    },
    /// Emit the NEP-171 mint event.
    NftMinted { owner_id: String, token_id: String },
    /// Emit the NEP-171 transfer event.
    NftTransferred { old_owner_id: String, new_owner_id: String, token_id: String, memo: Option<String> },
}

pub enum ProfileEffect {
    RegisterAndReward { user_id: Seq<char>, deposit: u128, username: Seq<char>, metadata: MetadataView },
    AddUnrewardedUser { user_id: Seq<char>, deposit: u128, username: Seq<char>, metadata: MetadataView },
    SendAex { sender_id: Seq<char>, receiver_id: Seq<char>, amount: u128, memo: Seq<char> },
    SendAexThen {
        sender_id: Seq<char>,
        receiver_id: Seq<char>,
        amount: u128,
        memo: Seq<char>,
        then: CallbackView,
    },
    GetPriceThenResolve { request: PriceRequestView, deposit: u128 },
    CallNftReceiverThenResolve {
        sender_id: Seq<char>,
        previous_owner_id: Seq<char>,
        receiver_id: Seq<char>,
        token_id: Seq<char>,
        msg: Seq<char>,
    },
    NftMinted { owner_id: Seq<char>, token_id: Seq<char> },
    NftTransferred {
        old_owner_id: Seq<char>,
        new_owner_id: Seq<char>,
        token_id: Seq<char>,
        memo: Option<Seq<char>>,
    },
}

impl View for ProfileAction {
    type V = ProfileEffect;

    open spec fn view(&self) -> ProfileEffect {
        match self {
            ProfileAction::RegisterAndReward { user_id, deposit, username, metadata } =>
                ProfileEffect::RegisterAndReward {
                user_id: user_id@,
                deposit: *deposit,
                username: username@,
                metadata: metadata@,
            },
            ProfileAction::AddUnrewardedUser { user_id, deposit, username, metadata } =>
                ProfileEffect::AddUnrewardedUser {
                user_id: user_id@,
                deposit: *deposit,
                username: username@,
                metadata: metadata@,
            },
            ProfileAction::SendAex { sender_id, receiver_id, amount, memo } => ProfileEffect::SendAex {
                sender_id: sender_id@,
                receiver_id: receiver_id@,
                amount: *amount,
                memo: memo@,
            },
            ProfileAction::SendAexThen { sender_id, receiver_id, amount, memo, then } =>
                ProfileEffect::SendAexThen {
                sender_id: sender_id@,
                receiver_id: receiver_id@,
                amount: *amount,
                memo: memo@,
                then: then@,
            },
            ProfileAction::GetPriceThenResolve { request, deposit } => ProfileEffect::GetPriceThenResolve {
                request: request@,
                deposit: *deposit,
            },
            ProfileAction::CallNftReceiverThenResolve {
                sender_id,
                previous_owner_id,
                receiver_id,
                token_id,
                msg,
            } => ProfileEffect::CallNftReceiverThenResolve {
                sender_id: sender_id@,
                previous_owner_id: previous_owner_id@,
                receiver_id: receiver_id@,
                token_id: token_id@,
                msg: msg@,
            },
            ProfileAction::NftMinted { owner_id, token_id } => ProfileEffect::NftMinted {
                owner_id: owner_id@,
                token_id: token_id@,
            },
            ProfileAction::NftTransferred { old_owner_id, new_owner_id, token_id, memo } =>
                ProfileEffect::NftTransferred {
                old_owner_id: old_owner_id@,
                new_owner_id: new_owner_id@,
                token_id: token_id@,
                memo: opt_text(*memo),
            },
        }
    }
}

/// The effects of a list of actions.
pub open spec fn profile_effects(v: Seq<ProfileAction>) -> Seq<ProfileEffect> {
    v.map_values(|a: ProfileAction| a@)
}

/// Why `predecessor` may not move `token_id` to `receiver`, if it may not.
pub open spec fn owner_transfer_refusal(v: AerxView, predecessor: Seq<char>, receiver: Seq<char>, token_id: Seq<char>) -> Option<
    ProfileError,
> {
    if !v.owners.dom().contains(token_id) {
        Some(ProfileError::TokenNotFound)
    } else if v.owners[token_id] != predecessor {
        Some(ProfileError::SenderNotApproved)
    } else if v.owners[token_id] == receiver {
        Some(ProfileError::SameOwner)
    } else {
        None
    }
}

/// Why `nft_transfer` refuses, if it does.
pub open spec fn nft_transfer_refusal(
    v: AerxView,
    predecessor: Seq<char>,
    receiver: Seq<char>,
    token_id: Seq<char>,
    deposit: u128,
) -> Option<ProfileError> {
    if deposit != 1 {
        Some(ProfileError::RequiresOneYocto)
    } else if !parses_as_u128(token_id) {
        Some(ProfileError::ProfileNotTransferable)
    } else {
        owner_transfer_refusal(v, predecessor, receiver, token_id)
    }
}

/// The first profile name (a token id that does not read as a number) in
/// `s`, empty when there is none.
pub open spec fn first_profile_name(s: Seq<Seq<char>>) -> Seq<char>
    decreases s.len(),
{
    if s.len() == 0 {
        Seq::<char>::empty()
    } else if !parses_as_u128(s[0]) {
        s[0]
    } else {
        first_profile_name(s.drop_first())
    }
}

proof fn lemma_first_profile_name_member(s: Seq<Seq<char>>)
    ensures
        first_profile_name(s).len() > 0 ==> s.contains(first_profile_name(s)),
        first_profile_name(s).len() > 0 ==> !parses_as_u128(first_profile_name(s)),
    decreases s.len(),
{
    if s.len() > 0 && parses_as_u128(s[0]) {
        lemma_first_profile_name_member(s.drop_first());
        if first_profile_name(s).len() > 0 {
            let j = choose|j: int| 0 <= j < s.drop_first().len() && s.drop_first()[j] == first_profile_name(s);
            assert(s[j + 1] == first_profile_name(s));
        }
    } else if s.len() > 0 {
        assert(s[0] == first_profile_name(s));
    }
}

/// The state after renaming `user`'s profile `old_name` to `new_name` with
/// metadata `m`.
pub open spec fn renamed(v: AerxView, old_name: Seq<char>, new_name: Seq<char>, user: Seq<char>, m: MetadataView) -> AerxView {
    AerxView {
        owners: v.owners.remove(old_name).insert(new_name, user),
        metadata: v.metadata.remove(old_name).insert(new_name, m),
        tokens_of: v.tokens_of.insert(user, with_token(without_token(tokens_list(v, user), old_name), new_name)),
        ..v
    }
}

/// Renaming a listed token of `user` to a fresh name keeps ownership and
/// token lists in agreement.
pub proof fn lemma_rename_consistent(v: AerxView, old_name: Seq<char>, new_name: Seq<char>, user: Seq<char>, m: MetadataView)
    requires
        consistent(v),
        v.tokens_of.dom().contains(user),
        v.tokens_of[user].contains(old_name),
        !v.owners.dom().contains(new_name),
    ensures
        consistent(renamed(v, old_name, new_name, user, m)),
{
    let w = renamed(v, old_name, new_name, user, m);
    let ul = v.tokens_of[user];
    lemma_without_token(ul, old_name);
    let rest = without_token(ul, old_name);
    lemma_with_token(rest, new_name);
    assert(v.owners[old_name] == user);
    assert forall|x: Seq<char>| #[trigger] w.owners.dom().contains(x) implies w.tokens_of.dom().contains(w.owners[x])
        && w.tokens_of[w.owners[x]].contains(x) by {
        if x != new_name {
            assert(v.owners.dom().contains(x));
            let ox = v.owners[x];
            assert(v.tokens_of[ox].contains(x));
            if ox == user {
                assert(rest.contains(x));
            }
        }
    }
    assert forall|p: Seq<char>, x: Seq<char>|
        w.tokens_of.dom().contains(p) && (#[trigger] w.tokens_of[p].contains(x)) implies w.owners.dom().contains(x)
        && w.owners[x] == p by {
        if p == user {
            if x != new_name {
                assert(rest.contains(x));
                assert(ul.contains(x));
            }
        } else {
            assert(v.tokens_of[p].contains(x));
            if x == old_name {
                assert(v.owners[old_name] == p);
            }
            if x == new_name {
                assert(v.owners.dom().contains(new_name));
            }
        }
    }
    assert forall|p: Seq<char>| #[trigger] w.tokens_of.dom().contains(p) implies w.tokens_of[p].no_duplicates() by {
        if p != user {
            assert(v.tokens_of.dom().contains(p));
        }
    }
}

/// Repost `i` (counting from zero) has id `i + 1`.
pub open spec fn reposts_numbered(reposts: Seq<RepostView>) -> bool {
    forall|i: int| 0 <= i < reposts.len() ==> (#[trigger] reposts[i]).id == i + 1
}

/// Repost `repost_id` as `repost_details` shows it: an empty repost with
/// id 0 when there is none.
pub open spec fn repost_view_of(v: AerxView, repost_id: u64) -> RepostView {
    if 1 <= repost_id && repost_id <= v.reposts.len() {
        v.reposts[repost_id - 1]
    } else {
        RepostView {
            id: 0,
            owner: Seq::<char>::empty(),
            initial_owner: Seq::<char>::empty(),
            details: None,
            total_charges: 0,
        }
    }
}

/// The owners in `order`, each once, in order of first appearance.
pub open spec fn distinct_owners(order: Seq<(Seq<char>, Seq<char>)>) -> Seq<Seq<char>>
    decreases order.len(),
{
    if order.len() == 0 {
        Seq::<Seq<char>>::empty()
    } else {
        let d = distinct_owners(order.drop_last());
        if d.contains(order.last().1) {
            d
        } else {
            d.push(order.last().1)
        }
    }
}

/// Why a profile cannot be recorded for an unrewarded user, given the
/// deposit and the token contract's `reply` (its fee, then the balance).
pub open spec fn unrewarded_profile_refusal(v: AerxView, username: Seq<char>, deposit: u128, reply: Seq<u128>) -> Option<
    ProfileError,
> {
    if reply.len() == 0 {
        Some(ProfileError::UnreadableReply)
    } else if deposit < reply[0] {
        Some(ProfileError::InsufficientDeposit)
    } else if v.owners.dom().contains(username) {
        Some(ProfileError::UsernameTaken)
    } else if reply.len() < 2 {
        Some(ProfileError::UnreadableReply)
    } else {
        None
    }
}

/// The state once the profile `username` of the unrewarded user `signer`
/// is recorded, its earnings set to the balance in `reply`.
pub open spec fn unrewarded_profile_recorded(
    v: AerxView,
    signer: Seq<char>,
    username: Seq<char>,
    m: MetadataView,
    reply: Seq<u128>,
) -> AerxView {
    let w = minted(v, username, signer, m);
    AerxView { earnings: w.earnings.insert(signer, Earnings { total: reply[1], available: reply[1] }), ..w }
}

/// The AEX a gas payment of `method` costs at `aex_per_near` AEX a NEAR,
/// for the flows that pay only gas.
pub open spec fn gas_price(method: PriceMethod, aex_per_near: u128) -> int {
    match method {
        PriceMethod::Charge => aex_per_near * CHARGE_GAS_COST,
        _ => aex_per_near * CHARGE_REPOST_GAS_COST,
    }
}

/// The memo of the gas payment of `method`.
pub open spec fn gas_memo(method: PriceMethod) -> Seq<char> {
    match method {
        PriceMethod::Charge => "Aerx charge gas payment"@,
        _ => "Aerx charge repost gas payment"@,
    }
}

/// The memo of a post's minting fee paid by `payer`.
pub open spec fn mint_memo(payer: Seq<char>, token_contract: Seq<char>) -> Seq<char> {
    "Post minting payment from "@ + quoted(payer) + " to "@ + quoted(token_contract)
}

/// The state after a user mints post `token_id` (with metadata `m`) that
/// earns together with post `origin` (none when 0): the post has no
/// charges yet, records its origin and, for an origin, shares earnings
/// with the origin's co-earners and owner; it becomes the last post.
pub open spec fn post_minted(v: AerxView, token_id: Seq<char>, user: Seq<char>, m: MetadataView, origin: u128) -> AerxView {
    let w = minted(v, token_id, user, m);
    let o = decimal(origin as nat);
    let origin_owner = if w.owners.dom().contains(o) {
        w.owners[o]
    } else {
        Seq::<char>::empty()
    };
    let earners = if v.co_earners.dom().contains(o) {
        v.co_earners[o]
    } else {
        Seq::<Seq<char>>::empty()
    };
    AerxView {
        charges: w.charges.insert(token_id, 0),
        origins: w.origins.insert(token_id, origin),
        co_earners: if origin > 0 {
            w.co_earners.insert(token_id, earners.push(origin_owner))
        } else {
            w.co_earners
        },
        last_post_id: (v.last_post_id + 1) as u128,
        ..w
    }
}

/// A post minted with origin `origin` (greater than zero) earns together
/// with the origin's co-earners and then the origin's owner, in that
/// order; it belongs to the user, records its origin and has no charges.
pub proof fn lemma_post_shares_with_origin(v: AerxView, t: Seq<char>, user: Seq<char>, m: MetadataView, origin: u128)
    requires
        origin > 0,
        t != decimal(origin as nat),
    ensures
        ({
            let after = post_view(post_minted(v, t, user, m, origin), t);
            let o = post_view(v, decimal(origin as nat));
            &&& after.co_earners == o.co_earners.push(o.owner_id)
            &&& after.owner_id == user
            &&& after.origin_post_id == Some(origin)
            &&& after.total_charges == 0
        }),
{
}

/// A post minted without an origin records origin 0, belongs to the user,
/// has no charges, and leaves the co-earners of every post as they were.
pub proof fn lemma_post_without_origin(v: AerxView, t: Seq<char>, user: Seq<char>, m: MetadataView)
    ensures
        ({
            let after = post_minted(v, t, user, m, 0);
            &&& post_view(after, t).owner_id == user
            &&& post_view(after, t).origin_post_id == Some(0u128)
            &&& post_view(after, t).total_charges == 0
            &&& after.co_earners == v.co_earners
        }),
{
}

/// One step of minting a post after its fee was paid, as
/// `continue_mint_post` takes it from state `v` to state `after` with
/// result `r`.
pub open spec fn mint_post_step(
    v: AerxView,
    after: AerxView,
    signer: Seq<char>,
    user_id: Seq<char>,
    origin_post_id: u128,
    metadata: Option<MetadataView>,
    deposit: u128,
    balance: u128,
    storage_cost: u128,
    r: Result<(Option<MintProfileReturn>, Vec<ProfileAction>), ProfileError>,
) -> bool {
    let token_id = decimal((v.last_post_id + 1) as nat);
    if v.last_post_id == u128::MAX {
        r == Err::<(Option<MintProfileReturn>, Vec<ProfileAction>), ProfileError>(ProfileError::PostIdOverflow)
    } else if signer == v.owner_id {
        if balance == 0 {
            r == Err::<(Option<MintProfileReturn>, Vec<ProfileAction>), ProfileError>(ProfileError::ZeroBalance)
        } else if metadata is None {
            r == Err::<(Option<MintProfileReturn>, Vec<ProfileAction>), ProfileError>(ProfileError::MissingMetadata)
        } else {
            &&& r matches Ok((None, a))
            &&& profile_effects(r->Ok_0.1@) == seq![
                ProfileEffect::GetPriceThenResolve {
                    request: PriceRequestView {
                        user_id: user_id,
                        token_id: token_id,
                        balance: Some(balance),
                        method: PriceMethod::MintPost,
                        metadata: metadata,
                        amount: Some(storage_cost),
                        repost_id: None,
                    },
                    deposit: deposit,
                },
            ]
            &&& after == v
        }
    } else if metadata is None {
        r == Err::<(Option<MintProfileReturn>, Vec<ProfileAction>), ProfileError>(ProfileError::MissingMetadata)
    } else if v.owners.dom().contains(token_id) {
        r == Err::<(Option<MintProfileReturn>, Vec<ProfileAction>), ProfileError>(ProfileError::TokenIdTaken)
    } else if !registered(v, user_id) || (origin_post_id > 0 && !registered(v, signer)) {
        r == Err::<(Option<MintProfileReturn>, Vec<ProfileAction>), ProfileError>(ProfileError::NotAerxUser)
    } else {
        &&& r matches Ok((Some(m), a))
        &&& r->Ok_0.0->Some_0@ == (MintReturnView {
            token_id: token_id,
            owner_id: user_id,
            metadata: metadata,
            mint_state: true,
        })
        &&& profile_effects(r->Ok_0.1@) == seq![
            ProfileEffect::NftMinted { owner_id: user_id, token_id: token_id },
        ]
        &&& after == post_minted(v, token_id, user_id, metadata->Some_0, origin_post_id)
    }
}

/// The memo of a charge payment from `charger` to `to`.
pub open spec fn charge_memo(charger: Seq<char>, to: Seq<char>) -> Seq<char> {
    "Charge post payment from "@ + quoted(charger) + " to "@ + quoted(to)
}

/// The memo of the AERX share of a charge by `charger`.
pub open spec fn charge_aerx_memo(charger: Seq<char>) -> Seq<char> {
    "Charge post payment from "@ + quoted(charger) + " to Aerx"@
}

/// Into how many equal parts what is left of a charge, once AERX has its
/// tenth, is split: one for each co-earner and one for the creator, but
/// none for the charger itself; with no co-earners the creator takes it all.
pub open spec fn charge_parts(co_earners: Seq<Seq<char>>, charger: Seq<char>, creator: Seq<char>) -> int {
    let n = co_earners.len() as int;
    if n == 0 {
        1
    } else if !co_earners.contains(charger) {
        if charger != creator {
            n + 1
        } else {
            n
        }
    } else if charger != creator {
        n
    } else {
        n - 1
    }
}

/// The payments of `share` from `charger` to each co-earner other than
/// itself, in order.
pub open spec fn earner_payments(co_earners: Seq<Seq<char>>, charger: Seq<char>, share: u128) -> Seq<ProfileEffect>
    decreases co_earners.len(),
{
    if co_earners.len() == 0 {
        Seq::<ProfileEffect>::empty()
    } else {
        let rest = earner_payments(co_earners.drop_last(), charger, share);
        let e = co_earners.last();
        if e == charger {
            rest
        } else {
            rest.push(
                ProfileEffect::SendAex {
                    sender_id: charger,
                    receiver_id: e,
                    amount: share,
                    memo: charge_memo(charger, e),
                },
            )
        }
    }
}

/// The payments `charger` makes when charging post `post_id` with
/// `amount`: AERX's share, then each co-earner's, then the creator's, whose
/// payment is verified by `verify_aex_call_for_charge`. A creator charging
/// a post without co-earners pays the whole amount to AERX.
pub open spec fn charge_effects(
    v: AerxView,
    charger: Seq<char>,
    post_id: u128,
    amount: u128,
    aerx_share: u128,
    earner_share: u128,
) -> Seq<ProfileEffect> {
    let post = post_view(v, decimal(post_id as nat));
    let creator = post.owner_id;
    let co = post.co_earners;
    let to_aerx = ProfileEffect::SendAex {
        sender_id: charger,
        receiver_id: v.contract_id,
        amount: aerx_share,
        memo: charge_aerx_memo(charger),
    };
    let to_creator = |share: Option<u128>|
        ProfileEffect::SendAexThen {
            sender_id: charger,
            receiver_id: creator,
            amount: earner_share,
            memo: charge_memo(charger, creator),
            then: CallbackView::VerifyCharge {
                creator_id: creator,
                charger_id: charger,
                post_id: post_id,
                amount_charged: amount,
                earners_share: share,
            },
        };
    if co.len() > 0 {
        seq![to_aerx] + earner_payments(co, charger, earner_share) + if !co.contains(charger) && charger != creator {
            seq![to_creator(Some(earner_share))]
        } else {
            Seq::<ProfileEffect>::empty()
        }
    } else if charger != creator {
        seq![to_aerx, to_creator(None)]
    } else {
        seq![
            ProfileEffect::SendAex {
                sender_id: charger,
                receiver_id: v.contract_id,
                amount: amount,
                memo: charge_aerx_memo(charger),
            },
        ]
    }
}

/// The payment of `share` from `charger` to the co-earner `e`.
pub open spec fn co_earner_payment(charger: Seq<char>, e: Seq<char>, share: u128) -> ProfileEffect {
    ProfileEffect::SendAex { sender_id: charger, receiver_id: e, amount: share, memo: charge_memo(charger, e) }
}

/// The co-earners that a charge by `charger` pays: all but the charger.
pub open spec fn paid_co_earners(co_earners: Seq<Seq<char>>, charger: Seq<char>) -> Seq<Seq<char>> {
    co_earners.filter(|e: Seq<char>| e != charger)
}

/// The co-earners' payments are one payment of `share` to each co-earner
/// other than the charger, in the order the co-earners are listed.
pub proof fn lemma_earner_payments_pay_each(co_earners: Seq<Seq<char>>, charger: Seq<char>, share: u128)
    ensures
        earner_payments(co_earners, charger, share) == paid_co_earners(co_earners, charger).map_values(
            |e: Seq<char>| co_earner_payment(charger, e, share),
        ),
    decreases co_earners.len(),
{
    reveal(Seq::filter);
    if co_earners.len() > 0 {
        lemma_earner_payments_pay_each(co_earners.drop_last(), charger, share);
        let f = |e: Seq<char>| co_earner_payment(charger, e, share);
        let rest = paid_co_earners(co_earners.drop_last(), charger);
        if co_earners.last() != charger {
            assert(paid_co_earners(co_earners, charger) == rest.push(co_earners.last()));
            assert(rest.push(co_earners.last()).map_values(f) =~= rest.map_values(f).push(f(co_earners.last())));
        } else {
            assert(paid_co_earners(co_earners, charger) == rest);
        }
    }
}

/// Charging a post that has co-earners pays AERX its share first, then each
/// co-earner other than the charger its share, in order, and then, unless
/// the charger is a co-earner or the creator, the creator; so every
/// co-earner but the charger is paid, and nobody else between AERX and the
/// creator.
pub proof fn lemma_charge_pays_each_co_earner(
    v: AerxView,
    charger: Seq<char>,
    post_id: u128,
    amount: u128,
    aerx_share: u128,
    earner_share: u128,
)
    requires
        post_view(v, decimal(post_id as nat)).co_earners.len() > 0,
    ensures
        ({
            let post = post_view(v, decimal(post_id as nat));
            let co = post.co_earners;
            let paid = paid_co_earners(co, charger);
            let fx = charge_effects(v, charger, post_id, amount, aerx_share, earner_share);
            &&& fx[0] == ProfileEffect::SendAex {
                sender_id: charger,
                receiver_id: v.contract_id,
                amount: aerx_share,
                memo: charge_aerx_memo(charger),
            }
            &&& fx.len() == 1 + paid.len() + (if !co.contains(charger) && charger != post.owner_id { 1int } else { 0int })
            &&& forall|i: int| 0 <= i < paid.len() ==> fx[1 + i] == co_earner_payment(charger, #[trigger] paid[i], earner_share)
            &&& forall|i: int|
                0 <= i < co.len() && co[i] != charger ==> fx.contains(co_earner_payment(charger, #[trigger] co[i], earner_share))
        }),
{
    let post = post_view(v, decimal(post_id as nat));
    let co = post.co_earners;
    let paid = paid_co_earners(co, charger);
    let fx = charge_effects(v, charger, post_id, amount, aerx_share, earner_share);
    lemma_earner_payments_pay_each(co, charger, earner_share);
    let pays = earner_payments(co, charger, earner_share);
    assert(pays.len() == paid.len());
    assert forall|i: int| 0 <= i < paid.len() implies fx[1 + i] == co_earner_payment(charger, #[trigger] paid[i], earner_share) by {
        assert(pays[i] == co_earner_payment(charger, paid[i], earner_share));
    }
    assert forall|i: int| 0 <= i < co.len() && co[i] != charger implies fx.contains(
        co_earner_payment(charger, #[trigger] co[i], earner_share),
    ) by {
        let pred = |e: Seq<char>| e != charger;
        co.lemma_filter_contains(pred, i);
        assert(paid.contains(co[i]));
        let j = choose|j: int| 0 <= j < paid.len() && paid[j] == co[i];
        assert(fx[1 + j] == co_earner_payment(charger, paid[j], earner_share));
    }
}

/// The payments `charger` makes when charging repost `repost_id` with
/// `amount`: AERX's share, then the original owner's, then the reposter's;
/// when the reposter charges its own repost, the original owner takes the
/// rest. The last payment is verified by `verify_aex_call_for_charge_repost`.
pub open spec fn charge_repost_effects(
    v: AerxView,
    charger: Seq<char>,
    repost_id: u64,
    amount: u128,
    aerx_share: u128,
    initial_owner_share: u128,
    creator_share: u128,
) -> Seq<ProfileEffect> {
    let rp = repost_view_of(v, repost_id);
    let start = "Charge Repost payment from "@ + quoted(charger);
    let verify = CallbackView::VerifyChargeRepost { charger_id: charger, repost_id: repost_id, amount_charged: amount };
    let to_aerx = ProfileEffect::SendAex {
        sender_id: charger,
        receiver_id: v.contract_id,
        amount: aerx_share,
        memo: start + " to Aerx"@,
    };
    if charger != rp.owner {
        seq![
            to_aerx,
            ProfileEffect::SendAex {
                sender_id: charger,
                receiver_id: rp.initial_owner,
                amount: initial_owner_share,
                memo: start + " to "@ + rp.initial_owner,
            },
            ProfileEffect::SendAexThen {
                sender_id: charger,
                receiver_id: rp.owner,
                amount: creator_share,
                memo: start + " to "@ + quoted(rp.owner),
                then: verify,
            },
        ]
    } else {
        seq![
            to_aerx,
            ProfileEffect::SendAexThen {
                sender_id: charger,
                receiver_id: rp.initial_owner,
                amount: initial_owner_share,
                memo: start + " to "@ + rp.initial_owner,
                then: verify,
            },
        ]
    }
}

/// The refunds of `share` to the contract `to` from each co-earner other
/// than the charger, in order.
pub open spec fn refund_payments(co_earners: Seq<Seq<char>>, charger: Seq<char>, to: Seq<char>, share: u128) -> Seq<
    ProfileEffect,
>
    decreases co_earners.len(),
{
    if co_earners.len() == 0 {
        Seq::<ProfileEffect>::empty()
    } else {
        let rest = refund_payments(co_earners.drop_last(), charger, to, share);
        let e = co_earners.last();
        if e == charger {
            rest
        } else {
            rest.push(ProfileEffect::SendAex { sender_id: e, receiver_id: to, amount: share, memo: "charge refund"@ })
        }
    }
}

/// Charging a repost: every payment comes from the charger; AERX is paid
/// its share first; the original owner of the post is always paid its
/// share; the reposter is paid its share, last, unless it is the charger
/// itself; and the last payment is the one whose outcome
/// `verify_aex_call_for_charge_repost` checks.
pub proof fn lemma_charge_repost_payments(
    v: AerxView,
    charger: Seq<char>,
    repost_id: u64,
    amount: u128,
    aerx_share: u128,
    initial_owner_share: u128,
    creator_share: u128,
)
    ensures
        ({
            let rp = repost_view_of(v, repost_id);
            let fx = charge_repost_effects(v, charger, repost_id, amount, aerx_share, initial_owner_share, creator_share);
            let verify = CallbackView::VerifyChargeRepost {
                charger_id: charger,
                repost_id: repost_id,
                amount_charged: amount,
            };
            &&& (fx[0] matches ProfileEffect::SendAex { sender_id, receiver_id, amount: a, .. } && sender_id == charger
                && receiver_id == v.contract_id && a == aerx_share)
            &&& (fx[1] matches ProfileEffect::SendAex { sender_id, receiver_id, amount: a, .. } && sender_id == charger
                && receiver_id == rp.initial_owner && a == initial_owner_share) || (fx[1] matches ProfileEffect::SendAexThen {
                sender_id,
                receiver_id,
                amount: a,
                ..
            } && sender_id == charger && receiver_id == rp.initial_owner && a == initial_owner_share)
            &&& charger != rp.owner ==> fx.len() == 3 && (fx[2] matches ProfileEffect::SendAexThen {
                sender_id,
                receiver_id,
                amount: a,
                then,
                ..
            } && sender_id == charger && receiver_id == rp.owner && a == creator_share && then == verify)
            &&& charger == rp.owner ==> fx.len() == 2 && (fx[1] matches ProfileEffect::SendAexThen { then, .. } && then
                == verify)
        }),
{
}

/// The refund of `share` from the co-earner `e` to the contract `to`.
pub open spec fn co_earner_refund(e: Seq<char>, to: Seq<char>, share: u128) -> ProfileEffect {
    ProfileEffect::SendAex { sender_id: e, receiver_id: to, amount: share, memo: "charge refund"@ }
}

/// The co-earners' refunds are one refund of `share` from each co-earner
/// other than the charger, in the order the co-earners are listed.
pub proof fn lemma_refunds_from_each(co_earners: Seq<Seq<char>>, charger: Seq<char>, to: Seq<char>, share: u128)
    ensures
        refund_payments(co_earners, charger, to, share) == paid_co_earners(co_earners, charger).map_values(
            |e: Seq<char>| co_earner_refund(e, to, share),
        ),
    decreases co_earners.len(),
{
    reveal(Seq::filter);
    if co_earners.len() > 0 {
        lemma_refunds_from_each(co_earners.drop_last(), charger, to, share);
        let f = |e: Seq<char>| co_earner_refund(e, to, share);
        let rest = paid_co_earners(co_earners.drop_last(), charger);
        if co_earners.last() != charger {
            assert(paid_co_earners(co_earners, charger) == rest.push(co_earners.last()));
            assert(rest.push(co_earners.last()).map_values(f) =~= rest.map_values(f).push(f(co_earners.last())));
        } else {
            assert(paid_co_earners(co_earners, charger) == rest);
        }
    }
}

/// What the payments of a charge are answered with, once the creator's
/// payment reported `paid` (the charger's balance after it): a positive
/// balance asks AESWAP for the price of the gas; otherwise the earners'
/// and creator's shares come back.
pub open spec fn charge_settled(
    v: AerxView,
    creator: Seq<char>,
    charger: Seq<char>,
    post_id: u128,
    amount: u128,
    earners_share: Option<u128>,
    paid: u128,
    aerx_share: u128,
    r: Result<(bool, Vec<ProfileAction>), ProfileError>,
) -> bool {
    let co = post_view(v, decimal(post_id as nat)).co_earners;
    let share = match earners_share {
        Some(x) => x,
        None => 0,
    };
    let creator_refunded = !co.contains(creator) && creator != charger;
    if paid > 0 {
        &&& r matches Ok((true, a))
        &&& profile_effects(r->Ok_0.1@) == seq![
            ProfileEffect::GetPriceThenResolve {
                request: PriceRequestView {
                    user_id: charger,
                    token_id: decimal(post_id as nat),
                    balance: Some(paid),
                    method: PriceMethod::Charge,
                    metadata: None,
                    amount: Some(amount),
                    repost_id: None,
                },
                deposit: 0,
            },
        ]
    } else if !registered(v, charger) {
        r == Err::<(bool, Vec<ProfileAction>), ProfileError>(ProfileError::NotAerxUser)
    } else if co.len() > 0 {
        if earners_share is None && ((exists|i: int| 0 <= i < co.len() && co[i] != charger) || creator_refunded) {
            r == Err::<(bool, Vec<ProfileAction>), ProfileError>(ProfileError::MissingShare)
        } else {
            &&& r matches Ok((false, a))
            &&& profile_effects(r->Ok_0.1@) == refund_payments(co, charger, v.contract_id, share) + if creator_refunded {
                seq![
                    ProfileEffect::SendAex {
                        sender_id: creator,
                        receiver_id: v.contract_id,
                        amount: share,
                        memo: "charge refund"@,
                    },
                ]
            } else {
                Seq::<ProfileEffect>::empty()
            }
        }
    } else if creator != charger {
        if aerx_share > amount {
            r == Err::<(bool, Vec<ProfileAction>), ProfileError>(ProfileError::ShareExceedsAmount)
        } else {
            &&& r matches Ok((false, a))
            &&& profile_effects(r->Ok_0.1@) == seq![
                ProfileEffect::SendAex {
                    sender_id: creator,
                    receiver_id: v.contract_id,
                    amount: (amount - aerx_share) as u128,
                    memo: "charge refund"@,
                },
            ]
        }
    } else {
        r matches Ok((false, a)) && r->Ok_0.1@.len() == 0
    }
}

/// When the charger's last payment left it nothing, the charge is undone:
/// every co-earner other than the charger gives its share back to this
/// contract, in order, and so does the creator when it was paid as well;
/// nothing further is asked of AESWAP.
pub proof fn lemma_failed_charge_refunds_each_co_earner(
    v: AerxView,
    creator: Seq<char>,
    charger: Seq<char>,
    post_id: u128,
    amount: u128,
    share: u128,
    aerx_share: u128,
    r: Result<(bool, Vec<ProfileAction>), ProfileError>,
)
    requires
        charge_settled(v, creator, charger, post_id, amount, Some(share), 0, aerx_share, r),
        registered(v, charger),
        post_view(v, decimal(post_id as nat)).co_earners.len() > 0,
    ensures
        ({
            let co = post_view(v, decimal(post_id as nat)).co_earners;
            let paid = paid_co_earners(co, charger);
            let creator_refunded = !co.contains(creator) && creator != charger;
            &&& r matches Ok((false, a))
            &&& profile_effects(r->Ok_0.1@).len() == paid.len() + (if creator_refunded { 1int } else { 0int })
            &&& forall|i: int| 0 <= i < paid.len() ==> profile_effects(r->Ok_0.1@)[i] == co_earner_refund(
                #[trigger] paid[i],
                v.contract_id,
                share,
            )
            &&& forall|i: int|
                0 <= i < co.len() && co[i] != charger ==> profile_effects(r->Ok_0.1@).contains(
                    co_earner_refund(#[trigger] co[i], v.contract_id, share),
                )
            &&& creator_refunded ==> profile_effects(r->Ok_0.1@).last() == co_earner_refund(creator, v.contract_id, share)
        }),
{
    let co = post_view(v, decimal(post_id as nat)).co_earners;
    let paid = paid_co_earners(co, charger);
    lemma_refunds_from_each(co, charger, v.contract_id, share);
    let fx = profile_effects(r->Ok_0.1@);
    let refunds = refund_payments(co, charger, v.contract_id, share);
    assert(refunds.len() == paid.len());
    assert forall|i: int| 0 <= i < paid.len() implies fx[i] == co_earner_refund(#[trigger] paid[i], v.contract_id, share) by {
        assert(refunds[i] == co_earner_refund(paid[i], v.contract_id, share));
    }
    assert forall|i: int| 0 <= i < co.len() && co[i] != charger implies fx.contains(
        co_earner_refund(#[trigger] co[i], v.contract_id, share),
    ) by {
        let pred = |e: Seq<char>| e != charger;
        co.lemma_filter_contains(pred, i);
        assert(paid.contains(co[i]));
        let j = choose|j: int| 0 <= j < paid.len() && paid[j] == co[i];
        assert(fx[j] == co_earner_refund(paid[j], v.contract_id, share));
    }
}

/// What the payments of a repost charge are answered with, once the last
/// payment reported `paid`: a positive balance asks AESWAP for the price of
/// the gas; otherwise the original owner's and reposter's shares come back.
pub open spec fn repost_charge_settled(
    v: AerxView,
    charger: Seq<char>,
    repost_id: u64,
    amount: u128,
    paid: u128,
    initial_owner_share: u128,
    creator_share: u128,
    r: Result<(bool, Vec<ProfileAction>), ProfileError>,
) -> bool {
    let rp = repost_view_of(v, repost_id);
    let back = |from: Seq<char>, share: u128|
        ProfileEffect::SendAex { sender_id: from, receiver_id: v.contract_id, amount: share, memo: "Charge Refund"@ };
    if paid > 0 {
        &&& r matches Ok((true, a))
        &&& profile_effects(r->Ok_0.1@) == seq![
            ProfileEffect::GetPriceThenResolve {
                request: PriceRequestView {
                    user_id: charger,
                    token_id: decimal(repost_id as nat),
                    balance: Some(paid),
                    method: PriceMethod::ChargeRepost,
                    metadata: None,
                    amount: Some(amount),
                    repost_id: Some(repost_id),
                },
                deposit: 0,
            },
        ]
    } else if !registered(v, charger) {
        r == Err::<(bool, Vec<ProfileAction>), ProfileError>(ProfileError::NotAerxUser)
    } else if charger != rp.owner {
        &&& r matches Ok((false, a))
        &&& profile_effects(r->Ok_0.1@) == seq![back(rp.initial_owner, initial_owner_share), back(rp.owner, creator_share)]
    } else {
        &&& r matches Ok((false, a))
        &&& profile_effects(r->Ok_0.1@) == seq![back(rp.initial_owner, initial_owner_share)]
    }
}

/// The views of a list of posts.
pub open spec fn post_views(s: Seq<AexPost>) -> Seq<AexPostView> {
    s.map_values(|p: AexPost| p@)
}

/// The metadata of the welcome post: its title and description.
pub open spec fn welcome_metadata() -> MetadataView {
    MetadataView {
        title: Some("Welcome to AERX"@),
        description: Some("Welcome to AERX"@),
        media: None,
        media_hash: None,
        copies: None,
        issued_at: None,
        expires_at: None,
        starts_at: None,
        updated_at: None,
        extra: None,
        reference: None,
        reference_hash: None,
    }
}

/// The welcome post that heads every list of posts.
pub open spec fn welcome_post() -> AexPostView {
    AexPostView {
        post_id: "0"@,
        owner_id: "Aerx.Aerx"@,
        metadata: Some(welcome_metadata()),
        total_charges: 0,
        origin_post_id: None,
        co_earners: Seq::<Seq<char>>::empty(),
    }
}

/// The tokens listed under each owner in `order`, owner after owner (an
/// owner comes once for each token it owns).
pub open spec fn listed_post_ids(v: AerxView, order: Seq<(Seq<char>, Seq<char>)>) -> Seq<Seq<char>>
    decreases order.len(),
{
    if order.len() == 0 {
        Seq::<Seq<char>>::empty()
    } else {
        listed_post_ids(v, order.drop_last()) + tokens_list(v, order.last().1)
    }
}

/// `acc` with each of `items` added at the end, unless an equal post is
/// already there.
pub open spec fn push_new(acc: Seq<AexPostView>, items: Seq<AexPostView>) -> Seq<AexPostView>
    decreases items.len(),
{
    if items.len() == 0 {
        acc
    } else {
        let a = push_new(acc, items.drop_last());
        if a.contains(items.last()) {
            a
        } else {
            a.push(items.last())
        }
    }
}

/// The posts `get_all_posts` lists: the welcome post, then the details of
/// every listed token, each distinct post once.
pub open spec fn all_posts(v: AerxView, order: Seq<(Seq<char>, Seq<char>)>) -> Seq<AexPostView> {
    push_new(seq![welcome_post()], listed_post_ids(v, order).map_values(|id: Seq<char>| post_view(v, id)))
}

/// Adding new items keeps `acc` first, repeats nothing that `acc` did not
/// repeat, and leaves every item present.
pub proof fn lemma_push_new(acc: Seq<AexPostView>, items: Seq<AexPostView>)
    requires
        acc.no_duplicates(),
    ensures
        push_new(acc, items).no_duplicates(),
        acc.len() <= push_new(acc, items).len() <= acc.len() + items.len(),
        push_new(acc, items).subrange(0, acc.len() as int) == acc,
        forall|i: int| 0 <= i < items.len() ==> push_new(acc, items).contains(#[trigger] items[i]),
        forall|x: AexPostView| #[trigger] push_new(acc, items).contains(x) ==> acc.contains(x) || items.contains(x),
    decreases items.len(),
{
    if items.len() > 0 {
        let rest = items.drop_last();
        lemma_push_new(acc, rest);
        let a = push_new(acc, rest);
        assert forall|i: int| 0 <= i < items.len() implies push_new(acc, items).contains(#[trigger] items[i]) by {
            if i < items.len() - 1 {
                assert(rest[i] == items[i]);
                assert(a.contains(rest[i]));
                if !a.contains(items.last()) {
                    let j = choose|j: int| 0 <= j < a.len() && a[j] == items[i];
                    assert(a.push(items.last())[j] == items[i]);
                }
            } else if !a.contains(items.last()) {
                assert(a.push(items.last())[a.len() as int] == items.last());
            }
        }
        assert forall|x: AexPostView| #[trigger] push_new(acc, items).contains(x) implies acc.contains(x)
            || items.contains(x) by {
            if a.contains(x) {
                if rest.contains(x) {
                    let j = choose|j: int| 0 <= j < rest.len() && rest[j] == x;
                    assert(items[j] == x);
                }
            } else {
                assert(x == items.last());
                assert(items[items.len() - 1] == x);
            }
        }
        if !a.contains(items.last()) {
            assert(a.push(items.last()).subrange(0, acc.len() as int) =~= a.subrange(0, acc.len() as int));
        }
    }
}

/// `get_all_posts` lists the welcome post first, then each post of a
/// listed token once: no post occurs twice, and every listed token's post
/// is there.
pub proof fn lemma_all_posts_listed_once(v: AerxView, order: Seq<(Seq<char>, Seq<char>)>)
    ensures
        all_posts(v, order).no_duplicates(),
        all_posts(v, order).len() >= 1,
        all_posts(v, order)[0] == welcome_post(),
        forall|i: int|
            0 <= i < listed_post_ids(v, order).len() ==> all_posts(v, order).contains(
                post_view(v, #[trigger] listed_post_ids(v, order)[i]),
            ),
        all_posts(v, order).len() <= 1 + listed_post_ids(v, order).len(),
{
    let ids = listed_post_ids(v, order);
    let items = ids.map_values(|id: Seq<char>| post_view(v, id));
    let acc = seq![welcome_post()];
    lemma_push_new(acc, items);
    assert forall|i: int| 0 <= i < ids.len() implies all_posts(v, order).contains(post_view(v, #[trigger] ids[i])) by {
        assert(items[i] == post_view(v, ids[i]));
    }
    assert(all_posts(v, order).subrange(0, 1)[0] == all_posts(v, order)[0]);
}

/// Nobody has more earnings available than it earned in total.
pub open spec fn earnings_bounded(v: AerxView) -> bool {
    forall|u: Seq<char>| #[trigger] v.earnings.dom().contains(u) ==> v.earnings[u].available <= v.earnings[u].total
}

/// `order` lists each key of `m` once, with its value, in increasing text
/// order of the keys.
pub open spec fn sorted_listing(order: Seq<(Seq<char>, Seq<char>)>, m: Map<Seq<char>, Seq<char>>) -> bool {
    &&& forall|i: int, j: int| 0 <= i < j < order.len() ==> text_lt((#[trigger] order[i]).0, (#[trigger] order[j]).0)
    &&& forall|i: int| 0 <= i < order.len() ==> m.dom().contains((#[trigger] order[i]).0) && m[order[i].0] == order[i].1
    &&& forall|t: Seq<char>| #[trigger] m.dom().contains(t) ==> exists|i: int| 0 <= i < order.len() && (#[trigger] order[i]).0 == t
}

/// A map has one sorted listing: two sorted listings of the same map are
/// the same sequence.
pub proof fn lemma_sorted_listing_unique(a: Seq<(Seq<char>, Seq<char>)>, b: Seq<(Seq<char>, Seq<char>)>, m: Map<Seq<char>, Seq<char>>)
    requires
        sorted_listing(a, m),
        sorted_listing(b, m),
    ensures
        a == b,
    decreases a.len(),
{
    if a.len() == 0 {
        if b.len() > 0 {
            assert(m.dom().contains(b[0].0));
        }
        assert(a =~= b);
    } else {
        assert(m.dom().contains(a[0].0));
        let jb = choose|i: int| 0 <= i < b.len() && (#[trigger] b[i]).0 == a[0].0;
        assert(b.len() > 0);
        assert(m.dom().contains(b[0].0));
        let ja = choose|i: int| 0 <= i < a.len() && (#[trigger] a[i]).0 == b[0].0;
        if a[0].0 != b[0].0 {
            assert(jb > 0 && ja > 0);
            assert(text_lt(b[0].0, b[jb].0));
            assert(text_lt(a[0].0, a[ja].0));
            lemma_text_lt_transitive(a[0].0, b[0].0, a[0].0);
            lemma_text_lt_irreflexive(a[0].0);
        }
        let k = a[0].0;
        let m2 = m.remove(k);
        let a2 = a.drop_first();
        let b2 = b.drop_first();
        assert forall|i: int| 0 <= i < a2.len() implies m2.dom().contains((#[trigger] a2[i]).0) && m2[a2[i].0] == a2[i].1 by {
            assert(a2[i] == a[i + 1]);
            assert(text_lt(a[0].0, a[i + 1].0));
            lemma_text_lt_irreflexive(a[0].0);
        }
        assert forall|i: int| 0 <= i < b2.len() implies m2.dom().contains((#[trigger] b2[i]).0) && m2[b2[i].0] == b2[i].1 by {
            assert(b2[i] == b[i + 1]);
            assert(text_lt(b[0].0, b[i + 1].0));
            lemma_text_lt_irreflexive(b[0].0);
        }
        assert forall|t: Seq<char>| #[trigger] m2.dom().contains(t) implies exists|i: int| 0 <= i < a2.len() && (#[trigger] a2[i]).0 == t by {
            let i = choose|i: int| 0 <= i < a.len() && (#[trigger] a[i]).0 == t;
            assert(i > 0);
            assert(a2[i - 1] == a[i]);
        }
        assert forall|t: Seq<char>| #[trigger] m2.dom().contains(t) implies exists|i: int| 0 <= i < b2.len() && (#[trigger] b2[i]).0 == t by {
            let i = choose|i: int| 0 <= i < b.len() && (#[trigger] b[i]).0 == t;
            assert(i > 0);
            assert(b2[i - 1] == b[i]);
        }
        assert forall|i: int, j: int| 0 <= i < j < a2.len() implies text_lt((#[trigger] a2[i]).0, (#[trigger] a2[j]).0) by {
            assert(a2[i] == a[i + 1] && a2[j] == a[j + 1]);
        }
        assert forall|i: int, j: int| 0 <= i < j < b2.len() implies text_lt((#[trigger] b2[i]).0, (#[trigger] b2[j]).0) by {
            assert(b2[i] == b[i + 1] && b2[j] == b[j + 1]);
        }
        lemma_sorted_listing_unique(a2, b2, m2);
        assert(a[0] == b[0]);
        assert(a =~= seq![a[0]] + a2);
        assert(b =~= seq![b[0]] + b2);
    }
}

/// The profile contract's state as plain values, for storing it between
/// calls.
pub struct AerxParts {
    pub contract_id: String,
    pub owner_id: String,
    pub extra_storage_in_bytes_per_token: u64,
    pub storage_byte_cost: u128,
    pub owner_by_id: Vec<(String, String)>,
    pub token_metadata_by_id: Vec<(String, TokenMetadata)>,
    pub tokens_per_owner: Vec<(String, Vec<String>)>,
    pub token_contract_id: String,
    pub aeswap_contract_id: String,
    pub marketplace_contract_id: String,
    pub last_post_id: u128,
    pub total_charges_per_post: Vec<(String, u128)>,
    pub earnings_per_user: Vec<(String, Earnings)>,
    pub co_earners_per_post: Vec<(String, Vec<String>)>,
    pub origin_post_id_per_post: Vec<(String, u128)>,
    pub reposts: Vec<Repost>,
    pub metadata: NftContractMetadata,
}

/// The state that stored parts describe.
pub open spec fn aerx_parts_view(p: AerxParts) -> AerxView {
    AerxView {
        contract_id: p.contract_id@,
        owner_id: p.owner_id@,
        extra_storage_per_token: p.extra_storage_in_bytes_per_token,
        byte_cost: p.storage_byte_cost,
        owners: pairs_map(entry_views(p.owner_by_id@)).map_values(|s: String| s@),
        metadata: pairs_map(entry_views(p.token_metadata_by_id@)).map_values(|m: TokenMetadata| m@),
        tokens_of: pairs_map(entry_views(p.tokens_per_owner@)).map_values(|v: Vec<String>| texts(v@)),
        token_contract: p.token_contract_id@,
        aeswap: p.aeswap_contract_id@,
        marketplace: p.marketplace_contract_id@,
        last_post_id: p.last_post_id,
        charges: pairs_map(entry_views(p.total_charges_per_post@)),
        earnings: pairs_map(entry_views(p.earnings_per_user@)),
        co_earners: pairs_map(entry_views(p.co_earners_per_post@)).map_values(|v: Vec<String>| texts(v@)),
        origins: pairs_map(entry_views(p.origin_post_id_per_post@)),
        reposts: repost_views(p.reposts@),
        contract_metadata: p.metadata@,
    }
}

/// Stored state that the contract can resume from: no key occurs twice in
/// a record list, token records are sorted by id, no token list repeats a
/// token, and the state keeps the contract's invariants.
pub open spec fn aerx_parts_valid(p: AerxParts) -> bool {
    &&& keys_distinct(entry_views(p.owner_by_id@))
    &&& keys_sorted(entry_views(p.owner_by_id@))
    &&& keys_distinct(entry_views(p.token_metadata_by_id@))
    &&& keys_distinct(entry_views(p.tokens_per_owner@))
    &&& forall|i: int| 0 <= i < p.tokens_per_owner@.len() ==> texts((#[trigger] p.tokens_per_owner@[i]).1@).no_duplicates()
    &&& keys_distinct(entry_views(p.total_charges_per_post@))
    &&& keys_distinct(entry_views(p.earnings_per_user@))
    &&& keys_distinct(entry_views(p.co_earners_per_post@))
    &&& keys_distinct(entry_views(p.origin_post_id_per_post@))
    &&& consistent(aerx_parts_view(p))
    &&& reposts_numbered(aerx_parts_view(p).reposts)
    &&& earnings_bounded(aerx_parts_view(p))
}

/// The profile and post NFT contract.
pub struct Aerx {
    contract_id: String,
    owner_id: String,
    extra_storage_in_bytes_per_token: u64,
    storage_byte_cost: u128,
    owner_by_id: AssocList<String>,
    token_metadata_by_id: AssocList<TokenMetadata>,
    tokens_per_owner: AssocList<StrSet>,
    token_contract_id: String,
    aeswap_contract_id: String,
    marketplace_contract_id: String,
    last_post_id: u128,
    total_charges_per_post: AssocList<u128>,
    earnings_per_user: AssocList<Earnings>,
    co_earners_per_post: AssocList<Vec<String>>,
    origin_post_id_per_post: AssocList<u128>,
    reposts: Vec<Repost>,
    metadata: NftContractMetadata,
}

impl View for Aerx {
    type V = AerxView;

    closed spec fn view(&self) -> AerxView {
        AerxView {
            contract_id: self.contract_id@,
            owner_id: self.owner_id@,
            extra_storage_per_token: self.extra_storage_in_bytes_per_token,
            byte_cost: self.storage_byte_cost,
            owners: self.owner_by_id.map().map_values(|s: String| s@),
            metadata: self.token_metadata_by_id.map().map_values(|m: TokenMetadata| m@),
            tokens_of: self.tokens_per_owner.map().map_values(|s: StrSet| s.seq()),
            token_contract: self.token_contract_id@,
            aeswap: self.aeswap_contract_id@,
            marketplace: self.marketplace_contract_id@,
            last_post_id: self.last_post_id,
            charges: self.total_charges_per_post.map(),
            earnings: self.earnings_per_user.map(),
            co_earners: self.co_earners_per_post.map().map_values(|v: Vec<String>| texts(v@)),
            origins: self.origin_post_id_per_post.map(),
            reposts: repost_views(self.reposts@),
            contract_metadata: self.metadata@,
        }
    }
}

/// The earnings recorded for `user`, zero when none are.
pub open spec fn earnings_of(v: AerxView, user: Seq<char>) -> Earnings {
    if v.earnings.dom().contains(user) {
        v.earnings[user]
    } else {
        Earnings { total: 0, available: 0 }
    }
}

/// Whether `user` is an AERX user: some token is listed under it.
pub open spec fn registered(v: AerxView, user: Seq<char>) -> bool {
    v.tokens_of.dom().contains(user)
}

/// The details of `post_id` as `post_details` reports them.
pub open spec fn post_view(v: AerxView, post_id: Seq<char>) -> AexPostView {
    AexPostView {
        post_id: post_id,
        owner_id: if v.owners.dom().contains(post_id) {
            v.owners[post_id]
        } else {
            Seq::<char>::empty()
        },
        metadata: if v.metadata.dom().contains(post_id) {
            Some(v.metadata[post_id])
        } else {
            None
        },
        total_charges: if v.charges.dom().contains(post_id) {
            v.charges[post_id]
        } else {
            0
        },
        origin_post_id: if v.origins.dom().contains(post_id) {
            Some(v.origins[post_id])
        } else {
            None
        },
        co_earners: if v.co_earners.dom().contains(post_id) {
            v.co_earners[post_id]
        } else {
            Seq::<Seq<char>>::empty()
        },
    }
}

/// The token `token_id` as `nft_token` shows it.
pub open spec fn token_view(v: AerxView, token_id: Seq<char>) -> Option<TokenView> {
    if v.owners.dom().contains(token_id) {
        Some(
            TokenView {
                token_id: token_id,
                owner_id: v.owners[token_id],
                metadata: if v.metadata.dom().contains(token_id) {
                    Some(v.metadata[token_id])
                } else {
                    None
                },
            },
        )
    } else {
        None
    }
}

impl Aerx {
    /// Every list and set is without repetition.
    pub closed spec fn wf(&self) -> bool {
        &&& self.owner_by_id.wf()
        &&& self.owner_by_id.sorted()
        &&& self.token_metadata_by_id.wf()
        &&& self.tokens_per_owner.wf()
        &&& forall|k: Seq<char>| #[trigger] self.tokens_per_owner.map().dom().contains(k)
            ==> self.tokens_per_owner.map()[k].wf()
        &&& self.total_charges_per_post.wf()
        &&& self.earnings_per_user.wf()
        &&& self.co_earners_per_post.wf()
        &&& self.origin_post_id_per_post.wf()
        &&& consistent(self@)
        &&& reposts_numbered(self@.reposts)
        &&& earnings_bounded(self@)
    }

    /// The tokens in the order `owner_by_id` keeps them, with their owners.
    pub closed spec fn owner_order(&self) -> Seq<(Seq<char>, Seq<char>)> {
        self.owner_by_id.pairs().map_values(|p: (Seq<char>, String)| (p.0, p.1@))
    }

    /// Every token is listed under its owner, and every listed token is
    /// owned by the account it is listed under; no list repeats a token.
    pub proof fn lemma_consistent(&self)
        requires
            self.wf(),
        ensures
            consistent(self@),
    {
    }

    /// The token records list every token once, with its owner, in
    /// increasing order of token ids; by `lemma_sorted_listing_unique` this
    /// fixes the order that `get_all_posts` and `get_users_ids` follow.
    pub proof fn lemma_owner_order(&self)
        requires
            self.wf(),
        ensures
            sorted_listing(self.owner_order(), self@.owners),
    {
        let p = self.owner_by_id.pairs();
        let o = self.owner_order();
        lemma_pairs_map(p);
        assert forall|i: int, j: int| 0 <= i < j < o.len() implies text_lt((#[trigger] o[i]).0, (#[trigger] o[j]).0) by {
            assert(o[i].0 == p[i].0 && o[j].0 == p[j].0);
        }
        assert forall|i: int| 0 <= i < o.len() implies self@.owners.dom().contains((#[trigger] o[i]).0)
            && self@.owners[o[i].0] == o[i].1 by {
            assert(o[i] == (p[i].0, p[i].1@));
            assert(self.owner_by_id.map().dom().contains(p[i].0));
        }
        assert forall|t: Seq<char>| #[trigger] self@.owners.dom().contains(t) implies exists|i: int|
            0 <= i < o.len() && (#[trigger] o[i]).0 == t by {
            assert(self.owner_by_id.map().dom().contains(t));
            let i = choose|i: int| 0 <= i < p.len() && (#[trigger] p[i]).0 == t;
            assert(o[i].0 == p[i].0);
        }
    }

    /// The state as plain values, for storing it: parts the contract can
    /// resume from, describing this very state.
    pub fn into_parts(self) -> (r: AerxParts)
        requires
            self.wf(),
        ensures
            aerx_parts_valid(r),
            aerx_parts_view(r) == self@,
    {
        let ghost v = self@;
        let ghost set_pairs = self.tokens_per_owner.pairs();
        let mut lists: Vec<(String, Vec<String>)> = Vec::new();
        let n = self.tokens_per_owner.len();
        let mut i: usize = 0;
        while i < n
            invariant
                i <= n,
                n == set_pairs.len(),
                set_pairs == self.tokens_per_owner.pairs(),
                lists@.len() == i,
                forall|j: int| 0 <= j < i ==> (#[trigger] lists@[j]).0@ == set_pairs[j].0 && texts(lists@[j].1@)
                    == set_pairs[j].1.seq(),
            decreases n - i,
        {
            let (k, set) = self.tokens_per_owner.entry(i);
            let items = set.duplicate().into_items();
            lists.push((k.clone(), items));
            i = i + 1;
        }
        proof {
            let lv = entry_views(lists@);
            assert forall|j: int| 0 <= j < lv.len() implies (#[trigger] lv[j]).0 == set_pairs[j].0 && texts(lv[j].1@)
                == set_pairs[j].1.seq() by {
                assert(lv[j] == (lists@[j].0@, lists@[j].1));
            }
            lemma_pairs_map_values(set_pairs, lv, |st: StrSet| st.seq(), |w: Vec<String>| texts(w@));
            assert forall|a: int, b: int| 0 <= a < b < lv.len() implies (#[trigger] lv[a]).0 != (#[trigger] lv[b]).0 by {
                assert(set_pairs[a].0 != set_pairs[b].0);
            }
            assert forall|j: int| 0 <= j < lists@.len() implies texts((#[trigger] lists@[j]).1@).no_duplicates() by {
                assert(self.tokens_per_owner.map().dom().contains(set_pairs[j].0)) by {
                    lemma_pairs_map(set_pairs);
                }
                lemma_pairs_map(set_pairs);
            }
        }
        let r = AerxParts {
            contract_id: self.contract_id,
            owner_id: self.owner_id,
            extra_storage_in_bytes_per_token: self.extra_storage_in_bytes_per_token,
            storage_byte_cost: self.storage_byte_cost,
            owner_by_id: self.owner_by_id.into_entries(),
            token_metadata_by_id: self.token_metadata_by_id.into_entries(),
            tokens_per_owner: lists,
            token_contract_id: self.token_contract_id,
            aeswap_contract_id: self.aeswap_contract_id,
            marketplace_contract_id: self.marketplace_contract_id,
            last_post_id: self.last_post_id,
            total_charges_per_post: self.total_charges_per_post.into_entries(),
            earnings_per_user: self.earnings_per_user.into_entries(),
            co_earners_per_post: self.co_earners_per_post.into_entries(),
            origin_post_id_per_post: self.origin_post_id_per_post.into_entries(),
            reposts: self.reposts,
            metadata: self.metadata,
        };
        assert(aerx_parts_view(r).tokens_of =~= v.tokens_of);
        assert(aerx_parts_view(r) == v);
        r
    }

    /// Whether every token is listed under its owner.
    fn check_tokens_listed(&self) -> (r: bool)
        requires
            self.owner_by_id.wf(),
            self.tokens_per_owner.wf(),
        ensures
            r == (forall|t: Seq<char>| #[trigger] self@.owners.dom().contains(t) ==> self@.tokens_of.dom().contains(
                self@.owners[t],
            ) && self@.tokens_of[self@.owners[t]].contains(t)),
    {
        let ghost p = self.owner_by_id.pairs();
        let ghost v = self@;
        proof {
            lemma_pairs_map(p);
        }
        let n = self.owner_by_id.len();
        let mut i: usize = 0;
        while i < n
            invariant
                i <= n,
                n == p.len(),
                p == self.owner_by_id.pairs(),
                v == self@,
                self.owner_by_id.wf(),
                self.tokens_per_owner.wf(),
                forall|j: int| 0 <= j < i ==> v.tokens_of.dom().contains(v.owners[(#[trigger] p[j]).0])
                    && v.tokens_of[v.owners[p[j].0]].contains(p[j].0),
            decreases n - i,
        {
            let (t, o) = self.owner_by_id.entry(i);
            proof {
                lemma_pairs_map(p);
                assert(v.owners.dom().contains(t@) && v.owners[t@] == o@);
            }
            let listed = match self.tokens_per_owner.get(o) {
                Some(set) => set.contains(t),
                None => false,
            };
            if !listed {
                assert(v.owners.dom().contains(p[i as int].0));
                return false;
            }
            i = i + 1;
        }
        proof {
            assert forall|t: Seq<char>| #[trigger] v.owners.dom().contains(t) implies v.tokens_of.dom().contains(
                v.owners[t],
            ) && v.tokens_of[v.owners[t]].contains(t) by {
                assert(self.owner_by_id.map().dom().contains(t));
                let j = choose|j: int| 0 <= j < p.len() && (#[trigger] p[j]).0 == t;
            }
        }
        true
    }

    /// Whether every listed token is owned by the account it is listed under.
    fn check_lists_owned(&self) -> (r: bool)
        requires
            self.owner_by_id.wf(),
            self.tokens_per_owner.wf(),
        ensures
            r == (forall|o: Seq<char>, t: Seq<char>|
                self@.tokens_of.dom().contains(o) && (#[trigger] self@.tokens_of[o].contains(t)) ==> self@.owners.dom().contains(t)
                    && self@.owners[t] == o),
    {
        let ghost q = self.tokens_per_owner.pairs();
        let ghost v = self@;
        proof {
            lemma_pairs_map(q);
        }
        let n = self.tokens_per_owner.len();
        let mut i: usize = 0;
        while i < n
            invariant
                i <= n,
                n == q.len(),
                q == self.tokens_per_owner.pairs(),
                v == self@,
                self.owner_by_id.wf(),
                self.tokens_per_owner.wf(),
                forall|k: int, t: Seq<char>| 0 <= k < i && (#[trigger] q[k].1.seq().contains(t)) ==> v.owners.dom().contains(t)
                    && v.owners[t] == q[k].0,
            decreases n - i,
        {
            let (o, set) = self.tokens_per_owner.entry(i);
            let m = set.len();
            let mut j: usize = 0;
            while j < m
                invariant
                    i < n,
                    j <= m,
                    m == set.seq().len(),
                    n == q.len(),
                    q == self.tokens_per_owner.pairs(),
                    q[i as int].0 == o@,
                    q[i as int].1 == *set,
                    v == self@,
                    self.owner_by_id.wf(),
                    self.tokens_per_owner.wf(),
                    forall|k: int, t: Seq<char>| 0 <= k < i && (#[trigger] q[k].1.seq().contains(t)) ==> v.owners.dom().contains(t)
                        && v.owners[t] == q[k].0,
                    forall|jj: int| 0 <= jj < j ==> v.owners.dom().contains(#[trigger] set.seq()[jj]) && v.owners[set.seq()[jj]] == o@,
                decreases m - j,
            {
                let t = set.at(j);
                let owned = match self.owner_by_id.get(t) {
                    Some(x) => *x == *o,
                    None => false,
                };
                if !owned {
                    proof {
                        lemma_pairs_map(q);
                        assert(v.tokens_of.dom().contains(o@) && v.tokens_of[o@] == set.seq());
                        assert(v.tokens_of[o@].contains(t@));
                    }
                    return false;
                }
                j = j + 1;
            }
            proof {
                assert forall|k: int, t: Seq<char>| 0 <= k < i + 1 && (#[trigger] q[k].1.seq().contains(t)) implies v.owners.dom().contains(t)
                    && v.owners[t] == q[k].0 by {
                    if k == i {
                        let jj = choose|jj: int| 0 <= jj < set.seq().len() && set.seq()[jj] == t;
                    }
                }
            }
            i = i + 1;
        }
        proof {
            assert forall|o: Seq<char>, t: Seq<char>|
                v.tokens_of.dom().contains(o) && (#[trigger] v.tokens_of[o].contains(t)) implies v.owners.dom().contains(t)
                && v.owners[t] == o by {
                assert(self.tokens_per_owner.map().dom().contains(o));
                let k = choose|k: int| 0 <= k < q.len() && (#[trigger] q[k]).0 == o;
                assert(v.tokens_of[o] == q[k].1.seq());
            }
        }
        true
    }

    /// Whether the reposts are numbered from 1 in order.
    fn check_reposts(&self) -> (r: bool)
        ensures
            r == reposts_numbered(self@.reposts),
    {
        let ghost rv = self@.reposts;
        let mut i: usize = 0;
        while i < self.reposts.len()
            invariant
                i <= self.reposts@.len(),
                rv == self@.reposts,
                rv == repost_views(self.reposts@),
                forall|j: int| 0 <= j < i ==> (#[trigger] rv[j]).id == j + 1,
            decreases self.reposts@.len() - i,
        {
            assert(rv[i as int] == self.reposts@[i as int]@);
            if self.reposts[i].id as u128 != i as u128 + 1 {
                return false;
            }
            i = i + 1;
        }
        true
    }

    /// Whether nobody has more earnings available than earned in total.
    fn check_earnings(&self) -> (r: bool)
        requires
            self.earnings_per_user.wf(),
        ensures
            r == earnings_bounded(self@),
    {
        let ghost q = self.earnings_per_user.pairs();
        proof {
            lemma_pairs_map(q);
        }
        let n = self.earnings_per_user.len();
        let mut i: usize = 0;
        while i < n
            invariant
                i <= n,
                n == q.len(),
                q == self.earnings_per_user.pairs(),
                self.earnings_per_user.wf(),
                forall|j: int| 0 <= j < i ==> (#[trigger] q[j]).1.available <= q[j].1.total,
            decreases n - i,
        {
            let (_, e) = self.earnings_per_user.entry(i);
            if e.available > e.total {
                proof {
                    lemma_pairs_map(q);
                    assert(self@.earnings.dom().contains(q[i as int].0));
                }
                return false;
            }
            i = i + 1;
        }
        proof {
            assert forall|u: Seq<char>| #[trigger] self@.earnings.dom().contains(u) implies self@.earnings[u].available
                <= self@.earnings[u].total by {
                let j = choose|j: int| 0 <= j < q.len() && (#[trigger] q[j]).0 == u;
            }
        }
        true
    }

    /// Resumes the contract from stored parts; refused unless they are
    /// valid.
    pub fn from_parts(p: AerxParts) -> (r: Result<Aerx, ProfileError>)
        ensures
            r is Ok <==> aerx_parts_valid(p),
            r is Err ==> r == Err::<Aerx, ProfileError>(ProfileError::CorruptState),
            r matches Ok(a) ==> a.wf() && a@ == aerx_parts_view(p),
    {
        let ghost pv = aerx_parts_view(p);
        let ghost lists_in = p.tokens_per_owner@;
        let ghost valid = aerx_parts_valid(p);
        let AerxParts {
            contract_id,
            owner_id,
            extra_storage_in_bytes_per_token,
            storage_byte_cost,
            owner_by_id,
            token_metadata_by_id,
            tokens_per_owner,
            token_contract_id,
            aeswap_contract_id,
            marketplace_contract_id,
            last_post_id,
            total_charges_per_post,
            earnings_per_user,
            co_earners_per_post,
            origin_post_id_per_post,
            reposts,
            metadata,
        } = p;
        let owner_by_id = match AssocList::from_entries(owner_by_id) {
            Some(l) => l,
            None => {
                return Err(ProfileError::CorruptState);
            },
        };
        if !owner_by_id.is_sorted() {
            return Err(ProfileError::CorruptState);
        }
        let token_metadata_by_id = match AssocList::from_entries(token_metadata_by_id) {
            Some(l) => l,
            None => {
                return Err(ProfileError::CorruptState);
            },
        };
        let sets = match sets_of(&tokens_per_owner) {
            Some(x) => x,
            None => {
                return Err(ProfileError::CorruptState);
            },
        };
        let ghost sv = entry_views(sets@);
        let ghost lv = entry_views(lists_in);
        proof {
            assert forall|i: int| 0 <= i < sv.len() implies (#[trigger] sv[i]).0 == lv[i].0 && sv[i].1.seq() == texts(lv[i].1@) by {
                assert(sv[i] == (sets@[i].0@, sets@[i].1) && lv[i] == (lists_in[i].0@, lists_in[i].1));
            }
            if keys_distinct(lv) {
                assert forall|a: int, b: int| 0 <= a < b < sv.len() implies (#[trigger] sv[a]).0 != (#[trigger] sv[b]).0 by {
                    assert(lv[a].0 != lv[b].0);
                }
            }
            if keys_distinct(sv) {
                assert forall|a: int, b: int| 0 <= a < b < lv.len() implies (#[trigger] lv[a]).0 != (#[trigger] lv[b]).0 by {
                    assert(sv[a].0 != sv[b].0);
                }
            }
        }
        let tokens_per_owner = match AssocList::from_entries(sets) {
            Some(l) => l,
            None => {
                return Err(ProfileError::CorruptState);
            },
        };
        let total_charges_per_post = match AssocList::from_entries(total_charges_per_post) {
            Some(l) => l,
            None => {
                return Err(ProfileError::CorruptState);
            },
        };
        let earnings_per_user = match AssocList::from_entries(earnings_per_user) {
            Some(l) => l,
            None => {
                return Err(ProfileError::CorruptState);
            },
        };
        let co_earners_per_post = match AssocList::from_entries(co_earners_per_post) {
            Some(l) => l,
            None => {
                return Err(ProfileError::CorruptState);
            },
        };
        let origin_post_id_per_post = match AssocList::from_entries(origin_post_id_per_post) {
            Some(l) => l,
            None => {
                return Err(ProfileError::CorruptState);
            },
        };
        let a = Aerx {
            contract_id,
            owner_id,
            extra_storage_in_bytes_per_token,
            storage_byte_cost,
            owner_by_id,
            token_metadata_by_id,
            tokens_per_owner,
            token_contract_id,
            aeswap_contract_id,
            marketplace_contract_id,
            last_post_id,
            total_charges_per_post,
            earnings_per_user,
            co_earners_per_post,
            origin_post_id_per_post,
            reposts,
            metadata,
        };
        proof {
            lemma_pairs_map_values(lv, sv, |w: Vec<String>| texts(w@), |st: StrSet| st.seq());
            assert(a@.tokens_of =~= pv.tokens_of);
            assert(a@ == pv);
            lemma_pairs_map(sv);
            assert forall|k: Seq<char>| #[trigger] a.tokens_per_owner.map().dom().contains(k) implies a.tokens_per_owner.map()[k].wf() by {
                let i = choose|i: int| 0 <= i < sv.len() && (#[trigger] sv[i]).0 == k;
                assert(sets@[i].1.wf());
            }
            assert forall|o: Seq<char>| #[trigger] pv.tokens_of.dom().contains(o) implies pv.tokens_of[o].no_duplicates() by {
                assert(a.tokens_per_owner.map()[o].wf());
            }
        }
        if !a.check_tokens_listed() || !a.check_lists_owned() || !a.check_reposts() || !a.check_earnings() {
            return Err(ProfileError::CorruptState);
        }
        Ok(a)
    }

    /// No user has more earnings available than it earned in total.
    pub proof fn lemma_earnings_bounded(&self)
        requires
            self.wf(),
        ensures
            earnings_bounded(self@),
    {
    }

    /// Reposts are numbered from 1 in the order they were made.
    pub proof fn lemma_reposts_numbered(&self)
        requires
            self.wf(),
        ensures
            reposts_numbered(self@.reposts),
    {
    }

    /// Creates the contract (`new`) with no tokens; the metadata must be
    /// valid. `contract_id` is the contract's own account,
    /// `extra_storage_in_bytes_per_token` the storage one token takes and
    /// `storage_byte_cost` the price of a byte, as the runtime reports them.
    pub fn new(
        contract_id: String,
        owner_id: String,
        metadata: NftContractMetadata,
        token_contract_id: String,
        aeswap_contract_id: String,
        marketplace_contract_id: String,
        extra_storage_in_bytes_per_token: u64,
        storage_byte_cost: u128,
    ) -> (r: Result<Aerx, ProfileError>)
        ensures
            !nft_metadata_valid(metadata@) ==> r == Err::<Aerx, ProfileError>(ProfileError::InvalidMetadata),
            nft_metadata_valid(metadata@) ==> (r matches Ok(a) && a.wf() && a@ == (AerxView {
                contract_id: contract_id@,
                owner_id: owner_id@,
                extra_storage_per_token: extra_storage_in_bytes_per_token,
                byte_cost: storage_byte_cost,
                owners: Map::empty(),
                metadata: Map::empty(),
                tokens_of: Map::empty(),
                token_contract: token_contract_id@,
                aeswap: aeswap_contract_id@,
                marketplace: marketplace_contract_id@,
                last_post_id: 0,
                charges: Map::empty(),
                earnings: Map::empty(),
                co_earners: Map::empty(),
                origins: Map::empty(),
                reposts: Seq::empty(),
                contract_metadata: metadata@,
            })),
            r matches Ok(a) ==> post_ids_exact(a@),
    {
        if !metadata.is_valid() {
            return Err(ProfileError::InvalidMetadata);
        }
        let a = Self::fresh(
            contract_id,
            owner_id,
            metadata,
            token_contract_id,
            aeswap_contract_id,
            marketplace_contract_id,
            extra_storage_in_bytes_per_token,
            storage_byte_cost,
        );
        proof {
            assert(a@.owners.dom() =~= Set::<Seq<char>>::empty());
            lemma_post_ids_at_start(a@);
        }
        Ok(a)
    }

    /// The contract with no tokens.
    fn fresh(
        contract_id: String,
        owner_id: String,
        metadata: NftContractMetadata,
        token_contract_id: String,
        aeswap_contract_id: String,
        marketplace_contract_id: String,
        extra_storage_in_bytes_per_token: u64,
        storage_byte_cost: u128,
    ) -> (r: Aerx)
        ensures
            r.wf(),
            r@ == (AerxView {
                contract_id: contract_id@,
                owner_id: owner_id@,
                extra_storage_per_token: extra_storage_in_bytes_per_token,
                byte_cost: storage_byte_cost,
                owners: Map::empty(),
                metadata: Map::empty(),
                tokens_of: Map::empty(),
                token_contract: token_contract_id@,
                aeswap: aeswap_contract_id@,
                marketplace: marketplace_contract_id@,
                last_post_id: 0,
                charges: Map::empty(),
                earnings: Map::empty(),
                co_earners: Map::empty(),
                origins: Map::empty(),
                reposts: Seq::empty(),
                contract_metadata: metadata@,
            }),
    {
        let r = Aerx {
            contract_id,
            owner_id,
            extra_storage_in_bytes_per_token,
            storage_byte_cost,
            owner_by_id: AssocList::new(),
            token_metadata_by_id: AssocList::new(),
            tokens_per_owner: AssocList::new(),
            token_contract_id,
            aeswap_contract_id,
            marketplace_contract_id,
            last_post_id: 0,
            total_charges_per_post: AssocList::new(),
            earnings_per_user: AssocList::new(),
            co_earners_per_post: AssocList::new(),
            origin_post_id_per_post: AssocList::new(),
            reposts: Vec::new(),
            metadata,
        };
        assert(r@.owners =~= Map::empty());
        assert(r@.metadata =~= Map::empty());
        assert(r@.tokens_of =~= Map::empty());
        assert(r@.co_earners =~= Map::empty());
        assert(r@.reposts =~= Seq::empty());
        r
    }

    /// Creates the contract with the default AERX metadata
    /// (`new_default_metadata`), as `new` does.
    pub fn new_default_metadata(
        contract_id: String,
        owner_id: String,
        token_contract_id: String,
        aeswap_contract_id: String,
        marketplace_contract_id: String,
        extra_storage_in_bytes_per_token: u64,
        storage_byte_cost: u128,
    ) -> (r: Aerx)
        ensures
            r.wf(),
            r@ == (AerxView {
                contract_id: contract_id@,
                owner_id: owner_id@,
                extra_storage_per_token: extra_storage_in_bytes_per_token,
                byte_cost: storage_byte_cost,
                owners: Map::empty(),
                metadata: Map::empty(),
                tokens_of: Map::empty(),
                token_contract: token_contract_id@,
                aeswap: aeswap_contract_id@,
                marketplace: marketplace_contract_id@,
                last_post_id: 0,
                charges: Map::empty(),
                earnings: Map::empty(),
                co_earners: Map::empty(),
                origins: Map::empty(),
                reposts: Seq::empty(),
                contract_metadata: NftMetadataView {
                    spec: crate::metadata::NFT_METADATA_SPEC@,
                    name: "AERX NFT"@,
                    symbol: "AERX-NFT"@,
                    icon: Some(crate::metadata::AERX_ICON_URL@),
                    base_uri: None,
                    reference: None,
                    reference_hash: None,
                },
            }),
    {
        Self::fresh(
            contract_id,
            owner_id,
            NftContractMetadata::aerx_default(),
            token_contract_id,
            aeswap_contract_id,
            marketplace_contract_id,
            extra_storage_in_bytes_per_token,
            storage_byte_cost,
        )
    }

    /// The contract metadata (`nft_metadata`).
    pub fn nft_metadata(&self) -> (r: NftContractMetadata)
        ensures
            r@ == self@.contract_metadata,
    {
        self.metadata.duplicate()
    }

    /// Whether `user_id` is an AERX user (`has_registered`).
    pub fn has_registered(&self, user_id: &String) -> (r: bool)
        requires
            self.wf(),
        ensures
            r == registered(self@, user_id@),
    {
        self.tokens_per_owner.contains_key(user_id)
    }

    /// Whether `username` may name a new profile: it does not read as a
    /// number and no token bears it (`is_username_available`).
    pub fn is_username_available(&self, username: &String) -> (r: bool)
        requires
            self.wf(),
        ensures
            r == (!parses_as_u128(username@) && !self@.owners.dom().contains(username@)),
    {
        if is_numeric_id(username.as_str()) {
            false
        } else {
            !self.owner_by_id.contains_key(username)
        }
    }

    /// The token `token_id` with its owner and metadata (`nft_token`).
    pub fn nft_token(&self, token_id: &String) -> (r: Option<Token>)
        requires
            self.wf(),
        ensures
            match r {
                Some(t) => token_view(self@, token_id@) == Some(t@),
                None => token_view(self@, token_id@) is None,
            },
    {
        match self.owner_by_id.get(token_id) {
            None => None,
            Some(owner) => {
                let metadata = match self.token_metadata_by_id.get(token_id) {
                    Some(m) => Some(m.duplicate()),
                    None => None,
                };
                Some(Token { token_id: token_id.clone(), owner_id: owner.clone(), metadata })
            },
        }
    }

    /// The earnings of `user_id`, zero when none are recorded (`get_earnings`).
    pub fn get_earnings(&self, user_id: &String) -> (r: Earnings)
        requires
            self.wf(),
        ensures
            r == earnings_of(self@, user_id@),
    {
        match self.earnings_per_user.get(user_id) {
            Some(e) => *e,
            None => Earnings { total: 0, available: 0 },
        }
    }

    /// The storage deposit a new token needs
    /// (`get_minimum_required_storage_cost`), when it fits in a `u128`.
    pub fn get_minimum_required_storage_cost(&self) -> (r: Result<u128, ProfileError>)
        ensures
            match r {
                Ok(c) => c == self@.extra_storage_per_token * self@.byte_cost,
                Err(e) => e == ProfileError::StorageCostOverflow && self@.extra_storage_per_token
                    * self@.byte_cost > u128::MAX,
            },
    {
        match (self.extra_storage_in_bytes_per_token as u128).checked_mul(self.storage_byte_cost) {
            Some(c) => Ok(c),
            None => Err(ProfileError::StorageCostOverflow),
        }
    }

    /// The details of `post_id` for the AERX user `user_id`
    /// (`post_details`): owner (empty when unknown), metadata, charges,
    /// origin post and co-earners.
    pub fn post_details(&self, user_id: &String, post_id: String) -> (r: Result<AexPost, ProfileError>)
        requires
            self.wf(),
        ensures
            !registered(self@, user_id@) ==> r == Err::<AexPost, ProfileError>(ProfileError::NotAerxUser),
            registered(self@, user_id@) ==> (r matches Ok(p) && p@ == post_view(self@, post_id@)),
    {
        if !self.tokens_per_owner.contains_key(user_id) {
            return Err(ProfileError::NotAerxUser);
        }
        Ok(self.internal_post_details(post_id))
    }

    fn internal_post_details(&self, post_id: String) -> (r: AexPost)
        requires
            self.wf(),
        ensures
            r@ == post_view(self@, post_id@),
    {
        let owner_id = match self.owner_by_id.get(&post_id) {
            Some(o) => o.clone(),
            None => String::new(),
        };
        let metadata = match self.token_metadata_by_id.get(&post_id) {
            Some(m) => Some(m.duplicate()),
            None => None,
        };
        let total_charges = match self.total_charges_per_post.get(&post_id) {
            Some(c) => *c,
            None => 0,
        };
        let origin_post_id = match self.origin_post_id_per_post.get(&post_id) {
            Some(o) => Some(*o),
            None => None,
        };
        let co_earners = match self.co_earners_per_post.get(&post_id) {
            Some(c) => copy_texts(c),
            None => Vec::new(),
        };
        let r = AexPost { post_id, owner_id, metadata, total_charges, origin_post_id, co_earners };
        assert(r@.co_earners =~= post_view(self@, r.post_id@).co_earners);
        r
    }

    /// Whether `predecessor` may change earnings: this contract, the token
    /// contract or the AESWAP contract.
    pub open spec fn may_change_earnings(v: AerxView, predecessor: Seq<char>) -> bool {
        predecessor == v.contract_id || predecessor == v.token_contract || predecessor == v.aeswap
    }

    /// Takes `amount` from the available earnings of `user_id`
    /// (`decrease_earning`); refused when less is available. Returns `true`.
    pub fn decrease_earning(&mut self, predecessor: &String, user_id: String, amount: u128) -> (r: Result<bool, ProfileError>)
        requires
            old(self).wf(),
        ensures
            final(self).wf(),
            r is Err ==> *final(self) == *old(self),
            !Self::may_change_earnings(old(self)@, predecessor@) ==> r == Err::<bool, ProfileError>(
                ProfileError::Unauthorized,
            ),
            Self::may_change_earnings(old(self)@, predecessor@) ==> match decreased_earnings(
                earnings_of(old(self)@, user_id@),
                amount,
            ) {
                None => r == Err::<bool, ProfileError>(ProfileError::InsufficientEarnings),
                Some(e) => r == Ok::<bool, ProfileError>(true) && final(self)@ == (AerxView {
                    earnings: old(self)@.earnings.insert(user_id@, e),
                    ..old(self)@
                }),
            },
    {
        if *predecessor != self.contract_id && *predecessor != self.token_contract_id
            && *predecessor != self.aeswap_contract_id {
            return Err(ProfileError::Unauthorized);
        }
        let e = self.get_earnings(&user_id);
        if e.available >= amount {
            let ghost before = self@;
            self.earnings_per_user.insert(user_id, Earnings { total: e.total, available: e.available - amount });
            assert(self@.owners == before.owners && self@.tokens_of == before.tokens_of);
            Ok(true)
        } else {
            Err(ProfileError::InsufficientEarnings)
        }
    }

    /// Adds `amount` to the earnings of `user_id` (`increase_earnings`):
    /// the available part grows by the amount (refused on overflow), the
    /// total grows too but stops at `u128::MAX`. A user with nothing
    /// available who is not an AERX user is left as is. Returns `true`.
    pub fn increase_earnings(&mut self, predecessor: &String, user_id: String, amount: u128) -> (r: Result<bool, ProfileError>)
        requires
            old(self).wf(),
        ensures
            final(self).wf(),
            r is Err ==> *final(self) == *old(self),
            !Self::may_change_earnings(old(self)@, predecessor@) ==> r == Err::<bool, ProfileError>(
                ProfileError::Unauthorized,
            ),
            Self::may_change_earnings(old(self)@, predecessor@) ==> match increased_earnings(
                earnings_of(old(self)@, user_id@),
                amount,
                registered(old(self)@, user_id@),
            ) {
                IncreaseOutcome::Overflow => r == Err::<bool, ProfileError>(ProfileError::EarningsOverflow),
                IncreaseOutcome::Ignored => r == Ok::<bool, ProfileError>(true) && *final(self) == *old(self),
                IncreaseOutcome::Recorded(e) => r == Ok::<bool, ProfileError>(true) && final(self)@ == (
                AerxView { earnings: old(self)@.earnings.insert(user_id@, e), ..old(self)@ }),
            },
            Self::may_change_earnings(old(self)@, predecessor@) && registered(old(self)@, user_id@)
                && earnings_of(old(self)@, user_id@).available + amount <= u128::MAX ==> r == Ok::<bool, ProfileError>(
                true,
            ) && earnings_of(final(self)@, user_id@).available == earnings_of(old(self)@, user_id@).available
                + amount,
    {
        if *predecessor != self.contract_id && *predecessor != self.token_contract_id
            && *predecessor != self.aeswap_contract_id {
            return Err(ProfileError::Unauthorized);
        }
        let e = self.get_earnings(&user_id);
        if e.available == 0 && !self.tokens_per_owner.contains_key(&user_id) {
            return Ok(true);
        }
        let available = match e.available.checked_add(amount) {
            Some(a) => a,
            None => {
                return Err(ProfileError::EarningsOverflow);
            },
        };
        let total = match e.total.checked_add(amount) {
            Some(t) => t,
            None => u128::MAX,
        };
        self.earnings_per_user.insert(user_id, Earnings { total, available });
        Ok(true)
    }

    /// Mints `token_id` to `owner_id` with `metadata`, as the NEP-171 core
    /// does: metadata is required and the id must be new.
    fn internal_mint(&mut self, token_id: String, owner_id: String, metadata: Option<TokenMetadata>) -> (r: Result<
        Token,
        ProfileError,
    >)
        requires
            old(self).wf(),
        ensures
            final(self).wf(),
            r is Err ==> *final(self) == *old(self),
            metadata is None ==> r == Err::<Token, ProfileError>(ProfileError::MissingMetadata),
            metadata is Some && old(self)@.owners.dom().contains(token_id@) ==> r == Err::<Token, ProfileError>(
                ProfileError::TokenIdTaken,
            ),
            metadata is Some && !old(self)@.owners.dom().contains(token_id@) ==> (r matches Ok(t) && t@ == (
            TokenView { token_id: token_id@, owner_id: owner_id@, metadata: opt_meta(metadata) })
                && final(self)@ == minted(old(self)@, token_id@, owner_id@, metadata->Some_0@)),
    {
        let m = match metadata {
            None => {
                return Err(ProfileError::MissingMetadata);
            },
            Some(m) => m,
        };
        if self.owner_by_id.contains_key(&token_id) {
            return Err(ProfileError::TokenIdTaken);
        }
        let ghost v = self@;
        self.owner_by_id.insert_sorted(token_id.clone(), owner_id.clone());
        self.token_metadata_by_id.insert(token_id.clone(), m.duplicate());
        let mut set = match self.tokens_per_owner.get(&owner_id) {
            Some(s) => s.duplicate(),
            None => StrSet::new(),
        };
        proof {
            assert(set.seq() == tokens_list(v, owner_id@));
        }
        set.insert(token_id.clone());
        proof {
            lemma_with_token(tokens_list(v, owner_id@), token_id@);
            assert(set.seq() == with_token(tokens_list(v, owner_id@), token_id@)) by {
                if tokens_list(v, owner_id@).contains(token_id@) {
                } else {
                }
            }
        }
        let ghost lists_before = self.tokens_per_owner.map();
        self.tokens_per_owner.insert(owner_id.clone(), set);
        proof {
            lemma_mint_consistent(v, token_id@, owner_id@, m@);
            let w = minted(v, token_id@, owner_id@, m@);
            assert(self@.owners =~= w.owners);
            assert(self@.metadata =~= w.metadata);
            assert(self@.tokens_of =~= w.tokens_of);
            assert(self@ == w);
            assert forall|k: Seq<char>| #[trigger] self.tokens_per_owner.map().dom().contains(k) implies self.tokens_per_owner.map()[k].wf() by {
                if k != owner_id@ {
                    assert(lists_before.dom().contains(k));
                }
            }
        }
        Ok(Token { token_id, owner_id, metadata: Some(m) })
    }

    /// Moves `token_id` from its owner `from` to `to` without further checks.
    fn transfer_unguarded(&mut self, token_id: &String, from: &String, to: &String)
        requires
            old(self).wf(),
            old(self)@.owners.dom().contains(token_id@),
            old(self)@.owners[token_id@] == from@,
        ensures
            final(self).wf(),
            final(self)@ == token_moved(old(self)@, token_id@, from@, to@),
    {
        let ghost v = self@;
        proof {
            lemma_move_consistent(v, token_id@, from@, to@);
        }
        self.owner_by_id.insert_sorted(token_id.clone(), to.clone());
        let mut from_set = match self.tokens_per_owner.get(from) {
            Some(s) => s.duplicate(),
            None => StrSet::new(),
        };
        assert(from_set.seq() == v.tokens_of[from@]);
        let ghost fl = from_set.seq();
        from_set.remove(token_id);
        proof {
            lemma_without_token(fl, token_id@);
            assert(from_set.seq() == without_token(fl, token_id@));
        }
        let ghost lists0 = self.tokens_per_owner.map();
        if from_set.len() == 0 {
            self.tokens_per_owner.remove(from);
        } else {
            self.tokens_per_owner.insert(from.clone(), from_set);
        }
        let ghost lists1 = self.tokens_per_owner.map();
        let mut to_set = match self.tokens_per_owner.get(to) {
            Some(s) => s.duplicate(),
            None => StrSet::new(),
        };
        let ghost tl = to_set.seq();
        proof {
            if lists1.dom().contains(to@) {
                assert(lists0.dom().contains(to@));
            }
        }
        to_set.insert(token_id.clone());
        proof {
            lemma_with_token(tl, token_id@);
            assert(to_set.seq() == with_token(tl, token_id@));
        }
        self.tokens_per_owner.insert(to.clone(), to_set);
        proof {
            let w = token_moved(v, token_id@, from@, to@);
            assert(self@.owners =~= w.owners);
            let rest = without_token(fl, token_id@);
            let l1 = if rest.len() == 0 { v.tokens_of.remove(from@) } else { v.tokens_of.insert(from@, rest) };
            assert(lists1.map_values(|s: StrSet| s.seq()) =~= l1);
            assert(self@.tokens_of =~= w.tokens_of);
            assert(self@ == w);
            assert forall|k: Seq<char>| #[trigger] self.tokens_per_owner.map().dom().contains(k) implies self.tokens_per_owner.map()[k].wf() by {
                if k != to@ && k != from@ {
                    assert(lists0.dom().contains(k));
                }
            }
        }
    }

    /// Moves post `token_id` from the caller to `receiver_id`
    /// (`nft_transfer`). The call must carry one yoctoNEAR; profiles cannot
    /// move, and only the owner may move a post (no approvals are ever given).
    pub fn nft_transfer(
        &mut self,
        predecessor: &String,
        receiver_id: String,
        token_id: String,
        approval_id: Option<u64>,
        memo: Option<String>,
        attached_deposit: u128,
    ) -> (r: Result<Vec<ProfileAction>, ProfileError>)
        requires
            old(self).wf(),
        ensures
            final(self).wf(),
            match nft_transfer_refusal(old(self)@, predecessor@, receiver_id@, token_id@, attached_deposit) {
                Some(e) => r == Err::<Vec<ProfileAction>, ProfileError>(e) && *final(self) == *old(self),
                None => r matches Ok(actions) && final(self)@ == token_moved(
                    old(self)@,
                    token_id@,
                    predecessor@,
                    receiver_id@,
                ) && profile_effects(actions@) == seq![
                    ProfileEffect::NftTransferred {
                        old_owner_id: predecessor@,
                        new_owner_id: receiver_id@,
                        token_id: token_id@,
                        memo: opt_text(memo),
                    },
                ],
            },
    {
        if attached_deposit != 1 {
            return Err(ProfileError::RequiresOneYocto);
        }
        if !is_numeric_id(token_id.as_str()) {
            return Err(ProfileError::ProfileNotTransferable);
        }
        self.internal_transfer(predecessor, receiver_id, token_id, memo)
    }

    /// Checks and performs a transfer of `token_id` by `predecessor`.
    fn internal_transfer(&mut self, predecessor: &String, receiver_id: String, token_id: String, memo: Option<String>) -> (r:
        Result<Vec<ProfileAction>, ProfileError>)
        requires
            old(self).wf(),
        ensures
            final(self).wf(),
            match owner_transfer_refusal(old(self)@, predecessor@, receiver_id@, token_id@) {
                Some(e) => r == Err::<Vec<ProfileAction>, ProfileError>(e) && *final(self) == *old(self),
                None => r matches Ok(actions) && final(self)@ == token_moved(
                    old(self)@,
                    token_id@,
                    predecessor@,
                    receiver_id@,
                ) && profile_effects(actions@) == seq![
                    ProfileEffect::NftTransferred {
                        old_owner_id: predecessor@,
                        new_owner_id: receiver_id@,
                        token_id: token_id@,
                        memo: opt_text(memo),
                    },
                ],
            },
    {
        let owner = match self.owner_by_id.get(&token_id) {
            Some(o) => o.clone(),
            None => {
                return Err(ProfileError::TokenNotFound);
            },
        };
        if *predecessor != owner {
            return Err(ProfileError::SenderNotApproved);
        }
        if owner == receiver_id {
            return Err(ProfileError::SameOwner);
        }
        self.transfer_unguarded(&token_id, &owner, &receiver_id);
        let mut actions: Vec<ProfileAction> = Vec::new();
        actions.push(ProfileAction::NftTransferred { old_owner_id: owner, new_owner_id: receiver_id, token_id, memo });
        assert(profile_effects(actions@) =~= seq![actions@[0]@]);
        Ok(actions)
    }

    /// Moves post `token_id` from the caller to the marketplace and lets it
    /// react (`nft_transfer_call`). The call must carry one yoctoNEAR and
    /// more gas than `GAS_FOR_NFT_TRANSFER_CALL`.
    pub fn nft_transfer_call(
        &mut self,
        predecessor: &String,
        receiver_id: String,
        token_id: String,
        approval_id: Option<u64>,
        memo: Option<String>,
        msg: String,
        attached_deposit: u128,
        prepaid_gas: u64,
    ) -> (r: Result<Vec<ProfileAction>, ProfileError>)
        requires
            old(self).wf(),
        ensures
            final(self).wf(),
            r is Err ==> *final(self) == *old(self),
            attached_deposit != 1 ==> r == Err::<Vec<ProfileAction>, ProfileError>(ProfileError::RequiresOneYocto),
            attached_deposit == 1 && !parses_as_u128(token_id@) ==> r == Err::<Vec<ProfileAction>, ProfileError>(
                ProfileError::ProfileNotTransferable,
            ),
            attached_deposit == 1 && parses_as_u128(token_id@) && prepaid_gas <= GAS_FOR_NFT_TRANSFER_CALL ==> r
                == Err::<Vec<ProfileAction>, ProfileError>(ProfileError::NotEnoughGas),
            attached_deposit == 1 && parses_as_u128(token_id@) && prepaid_gas > GAS_FOR_NFT_TRANSFER_CALL
                && receiver_id@ != old(self)@.marketplace ==> r == Err::<Vec<ProfileAction>, ProfileError>(
                ProfileError::UnsupportedReceiver,
            ),
            attached_deposit == 1 && parses_as_u128(token_id@) && prepaid_gas > GAS_FOR_NFT_TRANSFER_CALL
                && receiver_id@ == old(self)@.marketplace ==> match owner_transfer_refusal(
                old(self)@,
                predecessor@,
                receiver_id@,
                token_id@,
            ) {
                Some(e) => r == Err::<Vec<ProfileAction>, ProfileError>(e),
                None => r matches Ok(actions) && final(self)@ == token_moved(
                    old(self)@,
                    token_id@,
                    predecessor@,
                    receiver_id@,
                ) && profile_effects(actions@) == seq![
                    ProfileEffect::NftTransferred {
                        old_owner_id: predecessor@,
                        new_owner_id: receiver_id@,
                        token_id: token_id@,
                        memo: opt_text(memo),
                    },
                    ProfileEffect::CallNftReceiverThenResolve {
                        sender_id: predecessor@,
                        previous_owner_id: predecessor@,
                        receiver_id: receiver_id@,
                        token_id: token_id@,
                        msg: msg@,
                    },
                ],
            },
    {
        if attached_deposit != 1 {
            return Err(ProfileError::RequiresOneYocto);
        }
        if !is_numeric_id(token_id.as_str()) {
            return Err(ProfileError::ProfileNotTransferable);
        }
        if prepaid_gas <= GAS_FOR_NFT_TRANSFER_CALL {
            return Err(ProfileError::NotEnoughGas);
        }
        if receiver_id != self.marketplace_contract_id {
            return Err(ProfileError::UnsupportedReceiver);
        }
        let mut actions = self.internal_transfer(predecessor, receiver_id.clone(), token_id.clone(), memo)?;
        let ghost first = profile_effects(actions@);
        actions.push(
            ProfileAction::CallNftReceiverThenResolve {
                sender_id: predecessor.clone(),
                previous_owner_id: predecessor.clone(),
                receiver_id,
                token_id,
                msg,
            },
        );
        assert(profile_effects(actions@) =~= first.push(actions@[1]@));
        Ok(actions)
    }

    /// Settles an NFT transfer-and-call once the receiver answered whether
    /// to give the token back (`must_revert`): when it must and the receiver
    /// still owns the token, the token returns to `previous_owner_id`.
    /// Returns whether the transfer stands.
    pub fn settle_nft_transfer(&mut self, previous_owner_id: String, receiver_id: String, token_id: String, must_revert: bool) -> (r:
        (bool, Vec<ProfileAction>))
        requires
            old(self).wf(),
        ensures
            final(self).wf(),
            ({
                let v = old(self)@;
                if must_revert && v.owners.dom().contains(token_id@) && v.owners[token_id@] == receiver_id@ {
                    &&& r.0 == false
                    &&& final(self)@ == token_moved(v, token_id@, receiver_id@, previous_owner_id@)
                    &&& profile_effects(r.1@) == seq![
                        ProfileEffect::NftTransferred {
                            old_owner_id: receiver_id@,
                            new_owner_id: previous_owner_id@,
                            token_id: token_id@,
                            memo: None,
                        },
                    ]
                } else {
                    r.0 == true && *final(self) == *old(self) && r.1@.len() == 0
                }
            }),
    {
        if !must_revert {
            return (true, Vec::new());
        }
        match self.owner_by_id.get(&token_id) {
            None => {
                return (true, Vec::new());
            },
            Some(current) => {
                if *current != receiver_id {
                    return (true, Vec::new());
                }
            },
        }
        self.transfer_unguarded(&token_id, &receiver_id, &previous_owner_id);
        let mut actions: Vec<ProfileAction> = Vec::new();
        actions.push(
            ProfileAction::NftTransferred {
                old_owner_id: receiver_id,
                new_owner_id: previous_owner_id,
                token_id,
                memo: None,
            },
        );
        assert(profile_effects(actions@) =~= seq![actions@[0]@]);
        (false, actions)
    }

    /// The callback of an NFT transfer-and-call (`nft_resolve_transfer`):
    /// the receiver's boolean answer says whether to give the token back; a
    /// failed call or an unreadable answer counts as yes. Continues as
    /// `settle_nft_transfer` does.
    pub fn nft_resolve_transfer(&mut self, previous_owner_id: String, receiver_id: String, token_id: String, outcome: &CallOutcome) -> (r:
        (bool, Vec<ProfileAction>))
        requires
            old(self).wf(),
        ensures
            final(self).wf(),
            ({
                let v = old(self)@;
                let must_revert = match *outcome {
                    CallOutcome::Failure => true,
                    CallOutcome::Success(bytes) => match json_bool(bytes@) {
                        Some(b) => b,
                        None => true,
                    },
                };
                if must_revert && v.owners.dom().contains(token_id@) && v.owners[token_id@] == receiver_id@ {
                    &&& r.0 == false
                    &&& final(self)@ == token_moved(v, token_id@, receiver_id@, previous_owner_id@)
                } else {
                    r.0 == true && *final(self) == *old(self)
                }
            }),
    {
        let must_revert = match outcome {
            CallOutcome::Failure => true,
            CallOutcome::Success(bytes) => match read_bool(bytes.as_slice()) {
                Some(b) => b,
                None => true,
            },
        };
        self.settle_nft_transfer(previous_owner_id, receiver_id, token_id, must_revert)
    }

    /// The first profile name (a token id that is not a number) in `set`,
    /// empty when there is none.
    fn first_profile_name(set: &StrSet) -> (r: String)
        ensures
            r@ == first_profile_name(set.seq()),
    {
        let n = set.len();
        let mut i: usize = 0;
        assert(set.seq().skip(0) =~= set.seq());
        while i < n
            invariant
                i <= n,
                n == set.seq().len(),
                first_profile_name(set.seq()) == first_profile_name(set.seq().skip(i as int)),
            decreases n - i,
        {
            let t = set.at(i);
            assert(set.seq().skip(i as int)[0] == set.seq()[i as int]);
            if !is_numeric_id(t.as_str()) {
                return t.clone();
            }
            assert(set.seq().skip(i as int).drop_first() =~= set.seq().skip(i + 1));
            i = i + 1;
        }
        assert(set.seq().skip(n as int) =~= Seq::<Seq<char>>::empty());
        String::new()
    }

    /// The profile token of `user_to_find_id`, for the AERX user `user_id`
    /// (`profile_by_id`): the first token listed under it that is not a
    /// number; refused when there is none.
    pub fn profile_by_id(&self, user_id: &String, user_to_find_id: &String) -> (r: Result<Token, ProfileError>)
        requires
            self.wf(),
        ensures
            !registered(self@, user_id@) ==> r == Err::<Token, ProfileError>(ProfileError::NotAerxUser),
            registered(self@, user_id@) ==> match token_view(
                self@,
                first_profile_name(tokens_list(self@, user_to_find_id@)),
            ) {
                Some(t) => r matches Ok(tok) && tok@ == t,
                None => r == Err::<Token, ProfileError>(ProfileError::NoProfile),
            },
    {
        if !self.tokens_per_owner.contains_key(user_id) {
            return Err(ProfileError::NotAerxUser);
        }
        let name = match self.tokens_per_owner.get(user_to_find_id) {
            Some(set) => Self::first_profile_name(set),
            None => String::new(),
        };
        match self.nft_token(&name) {
            Some(t) => Ok(t),
            None => Err(ProfileError::NoProfile),
        }
    }

    /// Renames the caller's profile to `new_username` with new metadata
    /// (`edit_profile`); returns the renamed token. The storage fee is
    /// settled afterwards by `storage_refund`.
    pub fn edit_profile(&mut self, predecessor: &String, new_username: String, new_details: TokenMetadata) -> (r: Result<
        Option<Token>,
        ProfileError,
    >)
        requires
            old(self).wf(),
        ensures
            final(self).wf(),
            r is Err ==> *final(self) == *old(self),
            post_ids_exact(old(self)@) ==> post_ids_exact(final(self)@),
            ({
                let v = old(self)@;
                let old_name = first_profile_name(tokens_list(v, predecessor@));
                if !registered(v, predecessor@) {
                    r == Err::<Option<Token>, ProfileError>(ProfileError::NotAerxUser)
                } else if parses_as_u128(new_username@) {
                    r == Err::<Option<Token>, ProfileError>(ProfileError::NumericUsername)
                } else if v.owners.dom().contains(new_username@) {
                    r == Err::<Option<Token>, ProfileError>(ProfileError::UsernameTaken)
                } else if old_name.len() == 0 {
                    r == Err::<Option<Token>, ProfileError>(ProfileError::NoProfile)
                } else {
                    &&& r matches Ok(Some(t))
                    &&& r->Ok_0->Some_0@ == (TokenView {
                        token_id: new_username@,
                        owner_id: predecessor@,
                        metadata: Some(new_details@),
                    })
                    &&& final(self)@ == renamed(v, old_name, new_username@, predecessor@, new_details@)
                }
            }),
    {
        if !self.tokens_per_owner.contains_key(predecessor) {
            return Err(ProfileError::NotAerxUser);
        }
        if is_numeric_id(new_username.as_str()) {
            return Err(ProfileError::NumericUsername);
        }
        if self.owner_by_id.contains_key(&new_username) {
            return Err(ProfileError::UsernameTaken);
        }
        let mut set = match self.tokens_per_owner.get(predecessor) {
            Some(s) => s.duplicate(),
            None => StrSet::new(),
        };
        let old_name = Self::first_profile_name(&set);
        if old_name.as_str().unicode_len() == 0 {
            return Err(ProfileError::NoProfile);
        }
        let ghost v = self@;
        proof {
            lemma_first_profile_name_member(set.seq());
            lemma_rename_consistent(v, old_name@, new_username@, predecessor@, new_details@);
        }
        self.owner_by_id.remove_sorted(&old_name);
        self.owner_by_id.insert_sorted(new_username.clone(), predecessor.clone());
        self.token_metadata_by_id.remove(&old_name);
        self.token_metadata_by_id.insert(new_username.clone(), new_details.duplicate());
        let ghost s0 = set.seq();
        set.remove(&old_name);
        proof {
            lemma_without_token(s0, old_name@);
        }
        let ghost s1 = set.seq();
        set.insert(new_username.clone());
        proof {
            lemma_with_token(s1, new_username@);
            assert(set.seq() == with_token(without_token(s0, old_name@), new_username@));
        }
        let ghost lists_before = self.tokens_per_owner.map();
        self.tokens_per_owner.insert(predecessor.clone(), set);
        proof {
            let w = renamed(v, old_name@, new_username@, predecessor@, new_details@);
            assert(self@.owners =~= w.owners);
            assert(self@.metadata =~= w.metadata);
            assert(self@.tokens_of =~= w.tokens_of);
            assert(self@ == w);
            assert forall|k: Seq<char>| #[trigger] self.tokens_per_owner.map().dom().contains(k) implies self.tokens_per_owner.map()[k].wf() by {
                if k != predecessor@ {
                    assert(lists_before.dom().contains(k));
                }
            }
            if post_ids_exact(v) {
                lemma_post_ids_renamed(v, old_name@, new_username@, predecessor@, new_details@);
            }
        }
        Ok(Some(Token { token_id: new_username, owner_id: predecessor.clone(), metadata: Some(new_details) }))
    }

    /// Lets the caller repost post `post_id` to earn from it together with
    /// its owner (`repost`); returns the new repost. The storage fee is
    /// settled afterwards by `storage_refund`.
    pub fn repost(&mut self, predecessor: &String, post_id: u128) -> (r: Result<Repost, ProfileError>)
        requires
            old(self).wf(),
        ensures
            final(self).wf(),
            r is Err ==> *final(self) == *old(self),
            ({
                let v = old(self)@;
                let post = post_view(v, decimal(post_id as nat));
                if !registered(v, predecessor@) {
                    r == Err::<Repost, ProfileError>(ProfileError::NotAerxUser)
                } else if post_id == 0 || post_id > v.last_post_id {
                    r == Err::<Repost, ProfileError>(ProfileError::InvalidPostId)
                } else if post.metadata is None {
                    r == Err::<Repost, ProfileError>(ProfileError::MissingMetadata)
                } else if v.reposts.len() >= u64::MAX {
                    r == Err::<Repost, ProfileError>(ProfileError::RepostIdOverflow)
                } else {
                    let made = RepostView {
                        id: (v.reposts.len() + 1) as u64,
                        owner: predecessor@,
                        initial_owner: post.owner_id,
                        details: post.metadata,
                        total_charges: 0,
                    };
                    &&& r matches Ok(rp)
                    &&& r->Ok_0@ == made
                    &&& final(self)@ == (AerxView { reposts: v.reposts.push(made), ..v })
                }
            }),
    {
        if !self.tokens_per_owner.contains_key(predecessor) {
            return Err(ProfileError::NotAerxUser);
        }
        if post_id == 0 || post_id > self.last_post_id {
            return Err(ProfileError::InvalidPostId);
        }
        let post = self.internal_post_details(decimal_string(post_id));
        let details = match post.metadata {
            Some(m) => m,
            None => {
                return Err(ProfileError::MissingMetadata);
            },
        };
        let n = self.reposts.len();
        if n as u64 >= u64::MAX {
            return Err(ProfileError::RepostIdOverflow);
        }
        let made = Repost {
            id: n as u64 + 1,
            owner: predecessor.clone(),
            initial_owner: post.owner_id,
            details: Some(details),
            total_charges: 0,
        };
        let out = made.duplicate();
        let ghost before = self@;
        self.reposts.push(made);
        proof {
            assert(repost_views(self.reposts@) =~= before.reposts.push(out@));
            assert(self@ == AerxView { reposts: before.reposts.push(out@), ..before });
        }
        Ok(out)
    }

    /// Repost `repost_id` for the AERX user `user_id` (`repost_details`);
    /// an empty repost with id 0 when there is none.
    pub fn repost_details(&self, user_id: &String, repost_id: u64) -> (r: Result<Repost, ProfileError>)
        requires
            self.wf(),
        ensures
            !registered(self@, user_id@) ==> r == Err::<Repost, ProfileError>(ProfileError::NotAerxUser),
            registered(self@, user_id@) ==> (r matches Ok(rp) && rp@ == repost_view_of(self@, repost_id)),
    {
        if !self.tokens_per_owner.contains_key(user_id) {
            return Err(ProfileError::NotAerxUser);
        }
        Ok(self.internal_repost_details(repost_id))
    }

    fn internal_repost_details(&self, repost_id: u64) -> (r: Repost)
        requires
            self.wf(),
        ensures
            r@ == repost_view_of(self@, repost_id),
    {
        if 1 <= repost_id && repost_id <= self.reposts.len() as u64 {
            let i = (repost_id - 1) as usize;
            assert(repost_views(self.reposts@)[i as int] == self.reposts@[i as int]@);
            self.reposts[i].duplicate()
        } else {
            Repost {
                id: 0,
                owner: String::new(),
                initial_owner: String::new(),
                details: None,
                total_charges: 0,
            }
        }
    }

    /// All reposts, for the AERX user `user_id` (`get_all_repost`).
    pub fn get_all_repost(&self, user_id: &String) -> (r: Result<Vec<Repost>, ProfileError>)
        requires
            self.wf(),
        ensures
            !registered(self@, user_id@) ==> r == Err::<Vec<Repost>, ProfileError>(ProfileError::NotAerxUser),
            registered(self@, user_id@) ==> (r matches Ok(v) && repost_views(v@) == self@.reposts),
    {
        if !self.tokens_per_owner.contains_key(user_id) {
            return Err(ProfileError::NotAerxUser);
        }
        let mut out: Vec<Repost> = Vec::new();
        let mut i: usize = 0;
        while i < self.reposts.len()
            invariant
                i <= self.reposts@.len(),
                repost_views(out@) == repost_views(self.reposts@).take(i as int),
            decreases self.reposts@.len() - i,
        {
            let c = self.reposts[i].duplicate();
            let ghost before = out@;
            out.push(c);
            assert(out@ == before.push(c));
            assert(repost_views(self.reposts@)[i as int] == self.reposts@[i as int]@);
            assert(repost_views(out@) =~= repost_views(before).push(c@));
            assert(repost_views(out@) =~= repost_views(self.reposts@).take(i + 1));
            i = i + 1;
        }
        assert(repost_views(self.reposts@).take(self.reposts@.len() as int) =~= repost_views(self.reposts@));
        Ok(out)
    }

    /// The owners of all tokens, each once, in the order of the token
    /// records by token id (`lemma_owner_order`), for the AERX user
    /// `user_id` (`get_users_ids`).
    pub fn get_users_ids(&self, user_id: &String) -> (r: Result<Vec<String>, ProfileError>)
        requires
            self.wf(),
        ensures
            !registered(self@, user_id@) ==> r == Err::<Vec<String>, ProfileError>(ProfileError::NotAerxUser),
            registered(self@, user_id@) ==> (r matches Ok(v) && texts(v@) == distinct_owners(self.owner_order())),
    {
        if !self.tokens_per_owner.contains_key(user_id) {
            return Err(ProfileError::NotAerxUser);
        }
        let mut out: Vec<String> = Vec::new();
        let n = self.owner_by_id.len();
        let mut i: usize = 0;
        while i < n
            invariant
                i <= n,
                n == self.owner_order().len(),
                texts(out@) == distinct_owners(self.owner_order().take(i as int)),
            decreases n - i,
        {
            let (_, owner) = self.owner_by_id.entry(i);
            let ghost prefix = self.owner_order().take(i as int);
            assert(self.owner_order().take(i + 1).drop_last() =~= prefix);
            assert(self.owner_order()[i as int].1 == owner@);
            if !contains_text(&out, owner) {
                out.push(owner.clone());
                assert(texts(out@) =~= distinct_owners(prefix).push(owner@));
            }
            i = i + 1;
        }
        assert(self.owner_order().take(n as int) =~= self.owner_order());
        Ok(out)
    }
}

impl Aerx {
    /// Starts the creation of a profile named `username` (`mint_profile`).
    /// When the AERX account calls, `user_id` is registered and rewarded by
    /// the token contract; otherwise the caller itself is recorded there as
    /// an unrewarded AERX user. Either way the deposit goes along, and the
    /// callback mints the profile.
    pub fn mint_profile(
        &self,
        predecessor: &String,
        user_id: String,
        username: String,
        token_metadata: TokenMetadata,
        attached_deposit: u128,
    ) -> (r: Result<Vec<ProfileAction>, ProfileError>)
        requires
            self.wf(),
        ensures
            ({
                let v = self@;
                if parses_as_u128(username@) {
                    r == Err::<Vec<ProfileAction>, ProfileError>(ProfileError::NumericUsername)
                } else if v.owners.dom().contains(username@) {
                    r == Err::<Vec<ProfileAction>, ProfileError>(ProfileError::UsernameTaken)
                } else if predecessor@ == v.owner_id {
                    if registered(v, user_id@) {
                        r == Err::<Vec<ProfileAction>, ProfileError>(ProfileError::AlreadyRegistered)
                    } else {
                        r matches Ok(a) && profile_effects(a@) == seq![
                            ProfileEffect::RegisterAndReward {
                                user_id: user_id@,
                                deposit: attached_deposit,
                                username: username@,
                                metadata: token_metadata@,
                            },
                        ]
                    }
                } else if registered(v, predecessor@) {
                    r == Err::<Vec<ProfileAction>, ProfileError>(ProfileError::AlreadyRegistered)
                } else {
                    r matches Ok(a) && profile_effects(a@) == seq![
                        ProfileEffect::AddUnrewardedUser {
                            user_id: predecessor@,
                            deposit: attached_deposit,
                            username: username@,
                            metadata: token_metadata@,
                        },
                    ]
                }
            }),
    {
        if is_numeric_id(username.as_str()) {
            return Err(ProfileError::NumericUsername);
        }
        if !self.is_username_available(&username) {
            return Err(ProfileError::UsernameTaken);
        }
        let mut actions: Vec<ProfileAction> = Vec::new();
        if *predecessor == self.owner_id {
            if self.tokens_per_owner.contains_key(&user_id) {
                return Err(ProfileError::AlreadyRegistered);
            }
            actions.push(
                ProfileAction::RegisterAndReward {
                    user_id,
                    deposit: attached_deposit,
                    username,
                    metadata: token_metadata,
                },
            );
        } else {
            if self.tokens_per_owner.contains_key(predecessor) {
                return Err(ProfileError::AlreadyRegistered);
            }
            actions.push(
                ProfileAction::AddUnrewardedUser {
                    user_id: predecessor.clone(),
                    deposit: attached_deposit,
                    username,
                    metadata: token_metadata,
                },
            );
        }
        assert(profile_effects(actions@) =~= seq![actions@[0]@]);
        Ok(actions)
    }

    /// Continues a profile creation once the token contract reported the
    /// user's AEX `balance` after the gift: asks AESWAP for the NEAR price
    /// of AEX, attaching the storage deposit of one token. A zero balance
    /// is refused.
    pub fn request_profile_price(&self, user_id: String, username: String, token_metadata: Option<TokenMetadata>, balance: u128) -> (r:
        Result<Vec<ProfileAction>, ProfileError>)
        ensures
            ({
                let v = self@;
                if balance == 0 {
                    r == Err::<Vec<ProfileAction>, ProfileError>(ProfileError::ZeroBalance)
                } else if v.extra_storage_per_token * v.byte_cost > u128::MAX {
                    r == Err::<Vec<ProfileAction>, ProfileError>(ProfileError::StorageCostOverflow)
                } else {
                    r matches Ok(a) && profile_effects(a@) == seq![
                        ProfileEffect::GetPriceThenResolve {
                            request: PriceRequestView {
                                user_id: user_id@,
                                token_id: username@,
                                balance: Some(balance),
                                method: PriceMethod::MintProfile,
                                metadata: opt_meta(token_metadata),
                                amount: None,
                                repost_id: None,
                            },
                            deposit: (v.extra_storage_per_token * v.byte_cost) as u128,
                        },
                    ]
                }
            }),
    {
        if balance == 0 {
            return Err(ProfileError::ZeroBalance);
        }
        let deposit = self.get_minimum_required_storage_cost()?;
        let request = PriceRequest {
            user_id,
            token_id: username,
            balance: Some(balance),
            method: PriceMethod::MintProfile,
            metadata: token_metadata,
            amount: None,
            repost_id: None,
        };
        let mut actions: Vec<ProfileAction> = Vec::new();
        actions.push(ProfileAction::GetPriceThenResolve { request, deposit });
        assert(profile_effects(actions@) =~= seq![actions@[0]@]);
        Ok(actions)
    }

    /// The callback of `register_and_reward_user`
    /// (`verify_aex_call_for_mint_profile`): reads the balance the token
    /// contract answered and continues as `request_profile_price` does.
    pub fn verify_aex_call_for_mint_profile(
        &self,
        user_id: String,
        username: String,
        token_metadata: Option<TokenMetadata>,
        outcome: &CallOutcome,
    ) -> (r: Result<Vec<ProfileAction>, ProfileError>)
        ensures
            match *outcome {
                CallOutcome::Failure => r == Err::<Vec<ProfileAction>, ProfileError>(ProfileError::CallFailed),
                CallOutcome::Success(bytes) => match json_u128(bytes@) {
                    None => r == Err::<Vec<ProfileAction>, ProfileError>(ProfileError::UnreadableReply),
                    Some(balance) => {
                        let v = self@;
                        if balance == 0 {
                            r == Err::<Vec<ProfileAction>, ProfileError>(ProfileError::ZeroBalance)
                        } else if v.extra_storage_per_token * v.byte_cost > u128::MAX {
                            r == Err::<Vec<ProfileAction>, ProfileError>(ProfileError::StorageCostOverflow)
                        } else {
                            r matches Ok(a) && profile_effects(a@) == seq![
                                ProfileEffect::GetPriceThenResolve {
                                    request: PriceRequestView {
                                        user_id: user_id@,
                                        token_id: username@,
                                        balance: Some(balance),
                                        method: PriceMethod::MintProfile,
                                        metadata: opt_meta(token_metadata),
                                        amount: None,
                                        repost_id: None,
                                    },
                                    deposit: (v.extra_storage_per_token * v.byte_cost) as u128,
                                },
                            ]
                        }
                    },
                },
            },
    {
        let balance = u128_reply(outcome)?;
        self.request_profile_price(user_id, username, token_metadata, balance)
    }

    /// Mints the profile `username` to `signer` once the token contract
    /// recorded it as an unrewarded AERX user and answered `reply`: the
    /// storage fee it charged, then the signer's AEX balance, which becomes
    /// its earnings. Returns the minted profile and what is left of the
    /// deposit for the storage of the new records.
    pub fn record_unrewarded_profile(
        &mut self,
        signer: &String,
        username: String,
        token_metadata: TokenMetadata,
        attached_deposit: u128,
        reply: &Vec<u128>,
    ) -> (r: Result<(MintProfileReturn, u128, Vec<ProfileAction>), ProfileError>)
        requires
            old(self).wf(),
        ensures
            final(self).wf(),
            r is Err ==> *final(self) == *old(self),
            post_ids_exact(old(self)@) && !parses_as_u128(username@) ==> post_ids_exact(final(self)@),
            match unrewarded_profile_refusal(old(self)@, username@, attached_deposit, reply@) {
                Some(e) => r == Err::<(MintProfileReturn, u128, Vec<ProfileAction>), ProfileError>(e),
                None => {
                    &&& r matches Ok((m, left, actions))
                    &&& r->Ok_0.0@ == (MintReturnView {
                        token_id: username@,
                        owner_id: signer@,
                        metadata: Some(token_metadata@),
                        mint_state: true,
                    })
                    &&& r->Ok_0.1 == attached_deposit - reply@[0]
                    &&& profile_effects(r->Ok_0.2@) == seq![
                        ProfileEffect::NftMinted { owner_id: signer@, token_id: username@ },
                    ]
                    &&& final(self)@ == unrewarded_profile_recorded(old(self)@, signer@, username@, token_metadata@, reply@)
                },
            },
    {
        if reply.len() == 0 {
            return Err(ProfileError::UnreadableReply);
        }
        if attached_deposit < reply[0] {
            return Err(ProfileError::InsufficientDeposit);
        }
        let left = attached_deposit - reply[0];
        if self.owner_by_id.contains_key(&username) {
            return Err(ProfileError::UsernameTaken);
        }
        if reply.len() < 2 {
            return Err(ProfileError::UnreadableReply);
        }
        let earned = reply[1];
        let meta = token_metadata.duplicate();
        let ghost v0 = self@;
        let ghost m0 = token_metadata@;
        let minted_token = self.internal_mint(username.clone(), signer.clone(), Some(token_metadata));
        assert(minted_token is Ok);
        let ghost after_mint = self@;
        self.earnings_per_user.insert(signer.clone(), Earnings { total: earned, available: earned });
        assert(self@.owners == after_mint.owners && self@.tokens_of == after_mint.tokens_of);
        proof {
            if post_ids_exact(v0) && !parses_as_u128(username@) {
                lemma_post_ids_profile_minted(v0, username@, signer@, m0);
                lemma_post_ids_kept(after_mint, self@);
            }
        }
        let mut actions: Vec<ProfileAction> = Vec::new();
        actions.push(ProfileAction::NftMinted { owner_id: signer.clone(), token_id: username.clone() });
        assert(profile_effects(actions@) =~= seq![actions@[0]@]);
        let m = MintProfileReturn { token_id: username, owner_id: signer.clone(), metadata: Some(meta), mint_state: true };
        Ok((m, left, actions))
    }

    /// The callback of `add_unrewarded_user`
    /// (`verify_add_unrewarded_user_for_mint_profile`): reads the list of
    /// numbers the token contract answered and continues as
    /// `record_unrewarded_profile` does.
    pub fn verify_add_unrewarded_user_for_mint_profile(
        &mut self,
        signer: &String,
        username: String,
        token_metadata: TokenMetadata,
        attached_deposit: u128,
        outcome: &CallOutcome,
    ) -> (r: Result<(MintProfileReturn, u128, Vec<ProfileAction>), ProfileError>)
        requires
            old(self).wf(),
        ensures
            final(self).wf(),
            r is Err ==> *final(self) == *old(self),
            match *outcome {
                CallOutcome::Failure => r == Err::<(MintProfileReturn, u128, Vec<ProfileAction>), ProfileError>(
                    ProfileError::CallFailed,
                ),
                CallOutcome::Success(bytes) => match json_u128_list(bytes@) {
                    None => r == Err::<(MintProfileReturn, u128, Vec<ProfileAction>), ProfileError>(
                        ProfileError::UnreadableReply,
                    ),
                    Some(reply) => match unrewarded_profile_refusal(old(self)@, username@, attached_deposit, reply) {
                        Some(e) => r == Err::<(MintProfileReturn, u128, Vec<ProfileAction>), ProfileError>(e),
                        None => {
                            &&& r matches Ok((m, left, actions))
                            &&& r->Ok_0.0@ == (MintReturnView {
                                token_id: username@,
                                owner_id: signer@,
                                metadata: Some(token_metadata@),
                                mint_state: true,
                            })
                            &&& r->Ok_0.1 == attached_deposit - reply[0]
                            &&& profile_effects(r->Ok_0.2@) == seq![
                                ProfileEffect::NftMinted { owner_id: signer@, token_id: username@ },
                            ]
                            &&& final(self)@ == unrewarded_profile_recorded(old(self)@, signer@, username@, token_metadata@, reply)
                        },
                    },
                },
            },
    {
        let reply = match outcome {
            CallOutcome::Failure => {
                return Err(ProfileError::CallFailed);
            },
            CallOutcome::Success(bytes) => match read_u128_list(bytes.as_slice()) {
                Some(list) => list,
                None => {
                    return Err(ProfileError::UnreadableReply);
                },
            },
        };
        self.record_unrewarded_profile(signer, username, token_metadata, attached_deposit, &reply)
    }

    /// The callback of the AESWAP price request (`resolve_get_price_from_pool`),
    /// given the price it answered as whole AEX per NEAR (`aex_per_near`).
    /// A profile is minted when the balance the token contract reported
    /// covers the registration gift and the profile's price in AEX; its
    /// owner's earnings become that balance less the gift, and the price
    /// is paid to this contract. `profile_storage_cost` is the storage fee
    /// of the profile's records, as the runtime measures it (the deposit is
    /// settled on that storage, `mint_storage_refund`). A post, a charge or
    /// a repost charge is paid for in AEX first, and then settled by
    /// `resolve_send_aex_mint_post_and_charge`. Any other method mints
    /// nothing. Returns the value answered, if the answer is not the last
    /// action's outcome, and the actions.
    pub fn resolve_get_price_from_pool(
        &mut self,
        request: PriceRequest,
        attached_deposit: u128,
        aex_per_near: u128,
        profile_storage_cost: u128,
    ) -> (r:
        Result<(Option<MintProfileReturn>, Vec<ProfileAction>), ProfileError>)
        requires
            old(self).wf(),
        ensures
            final(self).wf(),
            r is Err ==> *final(self) == *old(self),
            request.method != PriceMethod::MintProfile ==> *final(self) == *old(self),
            post_ids_exact(old(self)@) && !parses_as_u128(request@.token_id) ==> post_ids_exact(final(self)@),
            ({
                let v = old(self)@;
                let q = request@;
                match q.method {
                    PriceMethod::MintProfile => if q.metadata is None {
                        r == Err::<(Option<MintProfileReturn>, Vec<ProfileAction>), ProfileError>(ProfileError::MissingMetadata)
                    } else if v.owners.dom().contains(q.token_id) {
                        r == Err::<(Option<MintProfileReturn>, Vec<ProfileAction>), ProfileError>(ProfileError::TokenIdTaken)
                    } else if q.balance is None {
                        r == Err::<(Option<MintProfileReturn>, Vec<ProfileAction>), ProfileError>(ProfileError::MissingArgument)
                    } else if q.balance->Some_0 < REGISTRATION_GIFT {
                        r == Err::<(Option<MintProfileReturn>, Vec<ProfileAction>), ProfileError>(ProfileError::GiftExceedsBalance)
                    } else if profile_storage_cost + REQUIRED_AEX_STORAGE + MINT_PROFILE_GAS_COST > u128::MAX
                        || profile_price(profile_storage_cost, aex_per_near) > u128::MAX {
                        r == Err::<(Option<MintProfileReturn>, Vec<ProfileAction>), ProfileError>(ProfileError::PriceOverflow)
                    } else if q.balance->Some_0 < profile_price(profile_storage_cost, aex_per_near) {
                        r == Err::<(Option<MintProfileReturn>, Vec<ProfileAction>), ProfileError>(ProfileError::InsufficientBalance)
                    } else {
                        &&& r matches Ok((Some(m), actions))
                        &&& r->Ok_0.0->Some_0@ == (MintReturnView {
                            token_id: q.token_id,
                            owner_id: q.user_id,
                            metadata: q.metadata,
                            mint_state: true,
                        })
                        &&& profile_effects(r->Ok_0.1@) == seq![
                            ProfileEffect::NftMinted { owner_id: q.user_id, token_id: q.token_id },
                            ProfileEffect::SendAex {
                                sender_id: q.user_id,
                                receiver_id: v.contract_id,
                                amount: profile_price(profile_storage_cost, aex_per_near) as u128,
                                memo: "Aerx Profile creation storage and gas payment"@,
                            },
                        ]
                        &&& final(self)@ == earnings_set(
                            minted(v, q.token_id, q.user_id, q.metadata->Some_0),
                            q.user_id,
                            (q.balance->Some_0 - REGISTRATION_GIFT) as u128,
                        )
                    },
                    PriceMethod::MintPost => if q.amount is None {
                        r == Err::<(Option<MintProfileReturn>, Vec<ProfileAction>), ProfileError>(ProfileError::MissingArgument)
                    } else if aex_per_near * (q.amount->Some_0 + MINT_POST_GAS_COST) > u128::MAX || q.amount->Some_0
                        + MINT_POST_GAS_COST > u128::MAX {
                        r == Err::<(Option<MintProfileReturn>, Vec<ProfileAction>), ProfileError>(ProfileError::PriceOverflow)
                    } else if q.balance is None {
                        r == Err::<(Option<MintProfileReturn>, Vec<ProfileAction>), ProfileError>(ProfileError::MissingArgument)
                    } else if q.balance->Some_0 < aex_per_near * (q.amount->Some_0 + MINT_POST_GAS_COST) {
                        r == Err::<(Option<MintProfileReturn>, Vec<ProfileAction>), ProfileError>(ProfileError::InsufficientBalance)
                    } else {
                        &&& r matches Ok((None, actions))
                        &&& profile_effects(r->Ok_0.1@) == seq![
                            ProfileEffect::SendAexThen {
                                sender_id: q.user_id,
                                receiver_id: v.contract_id,
                                amount: (aex_per_near * (q.amount->Some_0 + MINT_POST_GAS_COST)) as u128,
                                memo: "Aerx Post creation storage and gas payment"@,
                                then: CallbackView::ResolveSendAex {
                                    request: PriceRequestView { amount: None, ..q },
                                    deposit: attached_deposit,
                                },
                            },
                        ]
                    },
                    PriceMethod::Other => r matches Ok((Some(m), actions)) && m@ == no_mint() && actions@.len() == 0,
                    _ => if gas_price(q.method, aex_per_near) > u128::MAX {
                        r == Err::<(Option<MintProfileReturn>, Vec<ProfileAction>), ProfileError>(ProfileError::PriceOverflow)
                    } else if q.balance is None {
                        r == Err::<(Option<MintProfileReturn>, Vec<ProfileAction>), ProfileError>(ProfileError::MissingArgument)
                    } else if q.balance->Some_0 < gas_price(q.method, aex_per_near) {
                        r == Err::<(Option<MintProfileReturn>, Vec<ProfileAction>), ProfileError>(ProfileError::InsufficientBalance)
                    } else {
                        &&& r matches Ok((None, actions))
                        &&& profile_effects(r->Ok_0.1@) == seq![
                            ProfileEffect::SendAexThen {
                                sender_id: q.user_id,
                                receiver_id: v.contract_id,
                                amount: gas_price(q.method, aex_per_near) as u128,
                                memo: gas_memo(q.method),
                                then: CallbackView::ResolveSendAex { request: q, deposit: 0 },
                            },
                        ]
                    },
                }
            }),
    {
        match request.method {
            PriceMethod::MintProfile => {
                let PriceRequest { user_id, token_id, balance, method, metadata, amount, repost_id } = request;
                if metadata.is_none() {
                    return Err(ProfileError::MissingMetadata);
                }
                if self.owner_by_id.contains_key(&token_id) {
                    return Err(ProfileError::TokenIdTaken);
                }
                let bal = match balance {
                    Some(b) => b,
                    None => {
                        return Err(ProfileError::MissingArgument);
                    },
                };
                if bal < REGISTRATION_GIFT {
                    return Err(ProfileError::GiftExceedsBalance);
                }
                let to_swap = match profile_storage_cost.checked_add(REQUIRED_AEX_STORAGE) {
                    Some(x) => match x.checked_add(MINT_PROFILE_GAS_COST) {
                        Some(y) => y,
                        None => {
                            return Err(ProfileError::PriceOverflow);
                        },
                    },
                    None => {
                        return Err(ProfileError::PriceOverflow);
                    },
                };
                let price = match aex_per_near.checked_mul(to_swap) {
                    Some(x) => x,
                    None => {
                        return Err(ProfileError::PriceOverflow);
                    },
                };
                if bal < price {
                    return Err(ProfileError::InsufficientBalance);
                }
                let meta = copy_opt_meta(&metadata);
                let ghost v0 = self@;
                let ghost m0 = metadata->Some_0@;
                let minted_token = self.internal_mint(token_id.clone(), user_id.clone(), metadata);
                assert(minted_token is Ok);
                let ghost after_mint = self@;
                self.record_earnings(&user_id, bal - REGISTRATION_GIFT);
                proof {
                    if post_ids_exact(v0) && !parses_as_u128(token_id@) {
                        lemma_post_ids_profile_minted(v0, token_id@, user_id@, m0);
                        lemma_post_ids_kept(after_mint, self@);
                    }
                }
                let mut actions: Vec<ProfileAction> = Vec::new();
                actions.push(ProfileAction::NftMinted { owner_id: user_id.clone(), token_id: token_id.clone() });
                actions.push(
                    ProfileAction::SendAex {
                        sender_id: user_id.clone(),
                        receiver_id: self.contract_id.clone(),
                        amount: price,
                        memo: String::from_str("Aerx Profile creation storage and gas payment"),
                    },
                );
                assert(profile_effects(actions@) =~= seq![actions@[0]@, actions@[1]@]);
                let m = MintProfileReturn { token_id, owner_id: user_id, metadata: meta, mint_state: true };
                Ok((Some(m), actions))
            },
            PriceMethod::MintPost => {
                let amount = match request.amount {
                    Some(a) => a,
                    None => {
                        return Err(ProfileError::MissingArgument);
                    },
                };
                let to_swap = match amount.checked_add(MINT_POST_GAS_COST) {
                    Some(x) => x,
                    None => {
                        return Err(ProfileError::PriceOverflow);
                    },
                };
                let price = match aex_per_near.checked_mul(to_swap) {
                    Some(x) => x,
                    None => {
                        return Err(ProfileError::PriceOverflow);
                    },
                };
                let bal = match request.balance {
                    Some(b) => b,
                    None => {
                        return Err(ProfileError::MissingArgument);
                    },
                };
                if bal < price {
                    return Err(ProfileError::InsufficientBalance);
                }
                let PriceRequest { user_id, token_id, balance, method, metadata, amount, repost_id } = request;
                let next = PriceRequest {
                    user_id: user_id.clone(),
                    token_id,
                    balance,
                    method,
                    metadata,
                    amount: None,
                    repost_id,
                };
                let mut actions: Vec<ProfileAction> = Vec::new();
                actions.push(
                    ProfileAction::SendAexThen {
                        sender_id: user_id,
                        receiver_id: self.contract_id.clone(),
                        amount: price,
                        memo: String::from_str("Aerx Post creation storage and gas payment"),
                        then: Callback::ResolveSendAex { request: next, deposit: attached_deposit },
                    },
                );
                assert(profile_effects(actions@) =~= seq![actions@[0]@]);
                Ok((None, actions))
            },
            PriceMethod::Other => {
                let m = MintProfileReturn { token_id: String::new(), owner_id: String::new(), metadata: None, mint_state: false };
                Ok((Some(m), Vec::new()))
            },
            _ => {
                let is_charge = match request.method {
                    PriceMethod::Charge => true,
                    _ => false,
                };
                let gas = if is_charge { CHARGE_GAS_COST } else { CHARGE_REPOST_GAS_COST };
                let price = match aex_per_near.checked_mul(gas) {
                    Some(x) => x,
                    None => {
                        return Err(ProfileError::PriceOverflow);
                    },
                };
                let bal = match request.balance {
                    Some(b) => b,
                    None => {
                        return Err(ProfileError::MissingArgument);
                    },
                };
                if bal < price {
                    return Err(ProfileError::InsufficientBalance);
                }
                let memo = if is_charge {
                    String::from_str("Aerx charge gas payment")
                } else {
                    String::from_str("Aerx charge repost gas payment")
                };
                let user = request.user_id.clone();
                let mut actions: Vec<ProfileAction> = Vec::new();
                actions.push(
                    ProfileAction::SendAexThen {
                        sender_id: user,
                        receiver_id: self.contract_id.clone(),
                        amount: price,
                        memo,
                        then: Callback::ResolveSendAex { request, deposit: 0 },
                    },
                );
                assert(profile_effects(actions@) =~= seq![actions@[0]@]);
                Ok((None, actions))
            },
        }
    }

    /// Sets the earnings of `user_id` to `earned`, all of it available.
    fn record_earnings(&mut self, user_id: &String, earned: u128)
        requires
            old(self).wf(),
        ensures
            final(self).wf(),
            final(self)@ == earnings_set(old(self)@, user_id@, earned),
    {
        let ghost before = self@;
        self.earnings_per_user.insert(user_id.clone(), Earnings { total: earned, available: earned });
        assert(self@.owners == before.owners && self@.tokens_of == before.tokens_of);
        assert(self@ == earnings_set(before, user_id@, earned));
    }

    /// Records the post `token_id` as new: no charges, no origin, and it
    /// becomes the last post.
    fn record_minted_post(&mut self, token_id: &String)
        requires
            old(self).wf(),
            old(self)@.last_post_id < u128::MAX,
        ensures
            final(self).wf(),
            final(self)@ == post_recorded(old(self)@, token_id@),
    {
        let ghost before = self@;
        self.total_charges_per_post.insert(token_id.clone(), 0);
        self.origin_post_id_per_post.insert(token_id.clone(), 0);
        self.last_post_id = self.last_post_id + 1;
        assert(self@.owners == before.owners && self@.tokens_of == before.tokens_of);
        assert(self@ == post_recorded(before, token_id@));
    }

    /// Gives repost `repost_id` (counting from one) `total` charges.
    fn set_repost_charges(&mut self, repost_id: u64, total: u128)
        requires
            old(self).wf(),
            1 <= repost_id <= old(self)@.reposts.len(),
        ensures
            final(self).wf(),
            final(self)@ == repost_charged(old(self)@, repost_id, total),
    {
        let ghost before = self@;
        assert(before.reposts.len() == self.reposts@.len());
        let n: usize = self.reposts.len();
        assert(repost_id - 1 < n);
        let i = (repost_id - 1) as usize;
        assert(repost_views(self.reposts@)[i as int] == self.reposts@[i as int]@);
        let found = self.reposts[i].duplicate();
        let changed = Repost {
            id: found.id,
            owner: found.owner,
            initial_owner: found.initial_owner,
            details: found.details,
            total_charges: total,
        };
        let ghost changed_view = changed@;
        assert(i as int == repost_id - 1);
        assert(found@ == before.reposts[i as int]);
        assert(changed_view.id == found@.id && changed_view.owner == found@.owner);
        assert(changed_view.initial_owner == found@.initial_owner && changed_view.details == found@.details);
        assert(changed_view == RepostView { total_charges: total, ..before.reposts[repost_id - 1] });
        self.reposts.set(i, changed);
        assert(repost_views(self.reposts@) =~= before.reposts.update(i as int, changed_view));
        assert(self@.reposts == before.reposts.update(repost_id - 1, changed_view));
        assert(self@.owners == before.owners && self@.tokens_of == before.tokens_of);
        assert(self@ == repost_charged(before, repost_id, total));
    }

    /// The callback of the AEX payment for a post, a charge or a repost
    /// charge (`resolve_send_aex_mint_post_and_charge`). A post is minted to
    /// the user (its deposit is settled on the storage of the token records,
    /// `mint_storage_refund`), starts with no charges and no origin, and
    /// becomes the last post; a charge adds its amount to the post's
    /// charges, and a repost charge to the repost's. Any other method
    /// changes nothing.
    pub fn resolve_send_aex_mint_post_and_charge(&mut self, request: PriceRequest, outcome: &CallOutcome) -> (r: Result<
        (MintProfileReturn, Vec<ProfileAction>),
        ProfileError,
    >)
        requires
            old(self).wf(),
        ensures
            final(self).wf(),
            r is Err ==> *final(self) == *old(self),
            post_ids_exact(old(self)@) && (request@.method == PriceMethod::MintPost ==> post_id_issued(
                old(self)@,
                request@.token_id,
            )) ==> post_ids_exact(final(self)@),
            ({
                let v = old(self)@;
                let q = request@;
                if *outcome is Failure {
                    r == Err::<(MintProfileReturn, Vec<ProfileAction>), ProfileError>(ProfileError::CallFailed)
                } else {
                    match q.method {
                        PriceMethod::MintPost => if q.metadata is None {
                            r == Err::<(MintProfileReturn, Vec<ProfileAction>), ProfileError>(ProfileError::MissingMetadata)
                        } else if v.owners.dom().contains(q.token_id) {
                            r == Err::<(MintProfileReturn, Vec<ProfileAction>), ProfileError>(ProfileError::TokenIdTaken)
                        } else if v.last_post_id == u128::MAX {
                            r == Err::<(MintProfileReturn, Vec<ProfileAction>), ProfileError>(ProfileError::PostIdOverflow)
                        } else {
                            &&& r matches Ok((m, actions))
                            &&& r->Ok_0.0@ == (MintReturnView {
                                token_id: q.token_id,
                                owner_id: q.user_id,
                                metadata: q.metadata,
                                mint_state: true,
                            })
                            &&& profile_effects(r->Ok_0.1@) == seq![
                                ProfileEffect::NftMinted { owner_id: q.user_id, token_id: q.token_id },
                            ]
                            &&& final(self)@ == post_recorded(
                                minted(v, q.token_id, q.user_id, q.metadata->Some_0),
                                q.token_id,
                            )
                        },
                        PriceMethod::Charge => if !v.charges.dom().contains(q.token_id) {
                            r == Err::<(MintProfileReturn, Vec<ProfileAction>), ProfileError>(ProfileError::InvalidPostId)
                        } else if q.amount is None {
                            r == Err::<(MintProfileReturn, Vec<ProfileAction>), ProfileError>(ProfileError::MissingArgument)
                        } else if v.charges[q.token_id] + q.amount->Some_0 > u128::MAX {
                            r == Err::<(MintProfileReturn, Vec<ProfileAction>), ProfileError>(ProfileError::ChargeOverflow)
                        } else {
                            &&& r matches Ok((m, actions))
                            &&& r->Ok_0.0@ == no_mint()
                            &&& r->Ok_0.1@.len() == 0
                            &&& final(self)@ == (AerxView {
                                charges: v.charges.insert(q.token_id, (v.charges[q.token_id] + q.amount->Some_0) as u128),
                                ..v
                            })
                        },
                        PriceMethod::ChargeRepost => if q.repost_id is None {
                            r == Err::<(MintProfileReturn, Vec<ProfileAction>), ProfileError>(ProfileError::MissingArgument)
                        } else if repost_view_of(v, q.repost_id->Some_0).id == 0 {
                            r == Err::<(MintProfileReturn, Vec<ProfileAction>), ProfileError>(ProfileError::InvalidRepostId)
                        } else if q.amount is None {
                            r == Err::<(MintProfileReturn, Vec<ProfileAction>), ProfileError>(ProfileError::MissingArgument)
                        } else if repost_view_of(v, q.repost_id->Some_0).total_charges + q.amount->Some_0 > u128::MAX {
                            r == Err::<(MintProfileReturn, Vec<ProfileAction>), ProfileError>(ProfileError::ChargeOverflow)
                        } else {
                            &&& r matches Ok((m, actions))
                            &&& r->Ok_0.0@ == no_mint()
                            &&& r->Ok_0.1@.len() == 0
                            &&& final(self)@ == repost_charged(
                                v,
                                q.repost_id->Some_0,
                                (repost_view_of(v, q.repost_id->Some_0).total_charges + q.amount->Some_0) as u128,
                            )
                        },
                        _ => {
                            &&& r matches Ok((m, actions))
                            &&& r->Ok_0.0@ == no_mint()
                            &&& r->Ok_0.1@.len() == 0
                            &&& *final(self) == *old(self)
                        },
                    }
                }
            }),
    {
        if let CallOutcome::Failure = outcome {
            return Err(ProfileError::CallFailed);
        }
        let ghost v0 = self@;
        let ghost q0 = request@;
        let nothing = MintProfileReturn { token_id: String::new(), owner_id: String::new(), metadata: None, mint_state: false };
        match request.method {
            PriceMethod::MintPost => {
                let PriceRequest { user_id, token_id, balance, method, metadata, amount, repost_id } = request;
                if metadata.is_none() {
                    return Err(ProfileError::MissingMetadata);
                }
                if self.owner_by_id.contains_key(&token_id) {
                    return Err(ProfileError::TokenIdTaken);
                }
                if self.last_post_id == u128::MAX {
                    return Err(ProfileError::PostIdOverflow);
                }
                let meta = copy_opt_meta(&metadata);
                let minted_token = self.internal_mint(token_id.clone(), user_id.clone(), metadata);
                assert(minted_token is Ok);
                self.record_minted_post(&token_id);
                proof {
                    if post_ids_exact(v0) && post_id_issued(v0, q0.token_id) {
                        lemma_free_issued_id_is_next(v0, q0.token_id);
                        lemma_post_ids_post_minted(v0, q0.user_id, q0.metadata->Some_0);
                    }
                }
                let mut actions: Vec<ProfileAction> = Vec::new();
                actions.push(ProfileAction::NftMinted { owner_id: user_id.clone(), token_id: token_id.clone() });
                assert(profile_effects(actions@) =~= seq![actions@[0]@]);
                Ok((MintProfileReturn { token_id, owner_id: user_id, metadata: meta, mint_state: true }, actions))
            },
            PriceMethod::Charge => {
                let last = match self.total_charges_per_post.get(&request.token_id) {
                    Some(c) => *c,
                    None => {
                        return Err(ProfileError::InvalidPostId);
                    },
                };
                let amount = match request.amount {
                    Some(a) => a,
                    None => {
                        return Err(ProfileError::MissingArgument);
                    },
                };
                let total = match last.checked_add(amount) {
                    Some(t) => t,
                    None => {
                        return Err(ProfileError::ChargeOverflow);
                    },
                };
                let ghost before = self@;
                self.total_charges_per_post.insert(request.token_id, total);
                assert(self@.owners == before.owners && self@.tokens_of == before.tokens_of);
                proof {
                    if post_ids_exact(v0) {
                        lemma_post_ids_kept(v0, self@);
                    }
                }
                Ok((nothing, Vec::new()))
            },
            PriceMethod::ChargeRepost => {
                let id = match request.repost_id {
                    Some(i) => i,
                    None => {
                        return Err(ProfileError::MissingArgument);
                    },
                };
                let found = self.internal_repost_details(id);
                if found.id == 0 {
                    return Err(ProfileError::InvalidRepostId);
                }
                let amount = match request.amount {
                    Some(a) => a,
                    None => {
                        return Err(ProfileError::MissingArgument);
                    },
                };
                let total = match found.total_charges.checked_add(amount) {
                    Some(t) => t,
                    None => {
                        return Err(ProfileError::ChargeOverflow);
                    },
                };
                self.set_repost_charges(id, total);
                proof {
                    if post_ids_exact(v0) {
                        lemma_post_ids_kept(v0, self@);
                    }
                }
                Ok((nothing, Vec::new()))
            },
            _ => Ok((nothing, Vec::new())),
        }
    }

    /// Starts minting a post (`mint_post`): the AERX account may mint a
    /// plain post for an AERX user, attaching the storage deposit of one
    /// token; any other AERX user mints its own post, possibly earning
    /// together with an existing post, with its own deposit. The minting fee
    /// is paid in AEX first; the callback mints. The call must not come
    /// from another contract.
    pub fn mint_post(
        &self,
        predecessor: &String,
        signer: &String,
        user_id: String,
        origin_post_id: u128,
        token_metadata: Option<TokenMetadata>,
        attached_deposit: u128,
    ) -> (r: Result<Vec<ProfileAction>, ProfileError>)
        requires
            self.wf(),
        ensures
            ({
                let v = self@;
                if predecessor@ != signer@ {
                    r == Err::<Vec<ProfileAction>, ProfileError>(ProfileError::CrossContractCall)
                } else if signer@ == v.owner_id {
                    if !registered(v, user_id@) {
                        r == Err::<Vec<ProfileAction>, ProfileError>(ProfileError::NotAerxUser)
                    } else if origin_post_id != 0 {
                        r == Err::<Vec<ProfileAction>, ProfileError>(ProfileError::OriginPostNotAllowed)
                    } else if v.extra_storage_per_token * v.byte_cost > u128::MAX {
                        r == Err::<Vec<ProfileAction>, ProfileError>(ProfileError::StorageCostOverflow)
                    } else {
                        r matches Ok(a) && profile_effects(a@) == seq![
                            ProfileEffect::SendAexThen {
                                sender_id: user_id@,
                                receiver_id: v.contract_id,
                                amount: MINT_FEE,
                                memo: mint_memo(user_id@, v.token_contract),
                                then: CallbackView::VerifyMintPost {
                                    user_id: user_id@,
                                    origin_post_id: origin_post_id,
                                    metadata: opt_meta(token_metadata),
                                    deposit: (v.extra_storage_per_token * v.byte_cost) as u128,
                                },
                            },
                        ]
                    }
                } else if !registered(v, predecessor@) {
                    r == Err::<Vec<ProfileAction>, ProfileError>(ProfileError::NotAerxUser)
                } else if origin_post_id > v.last_post_id {
                    r == Err::<Vec<ProfileAction>, ProfileError>(ProfileError::InvalidOriginPost)
                } else {
                    r matches Ok(a) && profile_effects(a@) == seq![
                        ProfileEffect::SendAexThen {
                            sender_id: predecessor@,
                            receiver_id: v.contract_id,
                            amount: MINT_FEE,
                            memo: mint_memo(predecessor@, v.token_contract),
                            then: CallbackView::VerifyMintPost {
                                user_id: predecessor@,
                                origin_post_id: origin_post_id,
                                metadata: opt_meta(token_metadata),
                                deposit: attached_deposit,
                            },
                        },
                    ]
                }
            }),
    {
        if *predecessor != *signer {
            return Err(ProfileError::CrossContractCall);
        }
        let (payer, deposit) = if *signer == self.owner_id {
            if !self.tokens_per_owner.contains_key(&user_id) {
                return Err(ProfileError::NotAerxUser);
            }
            if origin_post_id != 0 {
                return Err(ProfileError::OriginPostNotAllowed);
            }
            let d = self.get_minimum_required_storage_cost()?;
            (user_id, d)
        } else {
            if !self.tokens_per_owner.contains_key(predecessor) {
                return Err(ProfileError::NotAerxUser);
            }
            if origin_post_id > self.last_post_id {
                return Err(ProfileError::InvalidOriginPost);
            }
            (predecessor.clone(), attached_deposit)
        };
        let memo = join_two_quoted("Post minting payment from ", &payer, " to ", &self.token_contract_id);
        let mut actions: Vec<ProfileAction> = Vec::new();
        actions.push(
            ProfileAction::SendAexThen {
                sender_id: payer.clone(),
                receiver_id: self.contract_id.clone(),
                amount: MINT_FEE,
                memo,
                then: Callback::VerifyMintPost { user_id: payer, origin_post_id, metadata: token_metadata, deposit },
            },
        );
        assert(profile_effects(actions@) =~= seq![actions@[0]@]);
        Ok(actions)
    }

    /// Continues minting a post once the minting fee was paid and the token
    /// contract reported the user's remaining AEX `balance`. For the AERX
    /// account, the price of the post's storage (`storage_cost`, as the
    /// runtime measured the records a post takes) and gas is asked of
    /// AESWAP; a zero balance is refused. Otherwise the post, numbered after
    /// the last one, is minted to `user_id`; the storage deposit is settled
    /// afterwards by `storage_refund`. Returns the value answered, if the
    /// answer is not the last action's outcome, and the actions.
    pub fn continue_mint_post(
        &mut self,
        signer: &String,
        user_id: String,
        origin_post_id: u128,
        token_metadata: Option<TokenMetadata>,
        attached_deposit: u128,
        balance: u128,
        storage_cost: u128,
    ) -> (r: Result<(Option<MintProfileReturn>, Vec<ProfileAction>), ProfileError>)
        requires
            old(self).wf(),
        ensures
            final(self).wf(),
            r is Err ==> *final(self) == *old(self),
            r matches Ok((None, a)) ==> *final(self) == *old(self),
            mint_post_step(
                old(self)@,
                final(self)@,
                signer@,
                user_id@,
                origin_post_id,
                opt_meta(token_metadata),
                attached_deposit,
                balance,
                storage_cost,
                r,
            ),
            r matches Ok((Some(made), a)) && 0 < origin_post_id <= old(self)@.last_post_id ==> ({
                let o = post_view(old(self)@, decimal(origin_post_id as nat));
                post_view(final(self)@, decimal((old(self)@.last_post_id + 1) as nat)).co_earners == o.co_earners.push(
                    o.owner_id,
                )
            }),
    {
        if self.last_post_id == u128::MAX {
            return Err(ProfileError::PostIdOverflow);
        }
        let next_id = self.last_post_id + 1;
        let token_id = decimal_string(next_id);
        if *signer == self.owner_id {
            if balance == 0 {
                return Err(ProfileError::ZeroBalance);
            }
            if token_metadata.is_none() {
                return Err(ProfileError::MissingMetadata);
            }
            let request = PriceRequest {
                user_id,
                token_id,
                balance: Some(balance),
                method: PriceMethod::MintPost,
                metadata: token_metadata,
                amount: Some(storage_cost),
                repost_id: None,
            };
            let mut actions: Vec<ProfileAction> = Vec::new();
            actions.push(ProfileAction::GetPriceThenResolve { request, deposit: attached_deposit });
            assert(profile_effects(actions@) =~= seq![actions@[0]@]);
            return Ok((None, actions));
        }
        if token_metadata.is_none() {
            return Err(ProfileError::MissingMetadata);
        }
        if self.owner_by_id.contains_key(&token_id) {
            return Err(ProfileError::TokenIdTaken);
        }
        if !self.tokens_per_owner.contains_key(&user_id) || (origin_post_id > 0 && !self.tokens_per_owner.contains_key(
            signer,
        )) {
            return Err(ProfileError::NotAerxUser);
        }
        let ghost v = self@;
        let meta = copy_opt_meta(&token_metadata);
        let ghost m = opt_meta(token_metadata)->Some_0;
        let minted_token = self.internal_mint(token_id.clone(), user_id.clone(), token_metadata);
        assert(minted_token is Ok);
        let ghost w = self@;
        assert(w == minted(v, token_id@, user_id@, m));
        self.total_charges_per_post.insert(token_id.clone(), 0);
        self.origin_post_id_per_post.insert(token_id.clone(), origin_post_id);
        if origin_post_id > 0 {
            let origin = decimal_string(origin_post_id);
            let mut earners = match self.co_earners_per_post.get(&origin) {
                Some(c) => copy_texts(c),
                None => Vec::new(),
            };
            let origin_owner = match self.owner_by_id.get(&origin) {
                Some(o) => o.clone(),
                None => String::new(),
            };
            let ghost e0 = earners@;
            let ghost o = decimal(origin_post_id as nat);
            assert(texts(e0) == (if w.co_earners.dom().contains(o) { w.co_earners[o] } else { Seq::<Seq<char>>::empty() }));
            assert(origin_owner@ == (if w.owners.dom().contains(o) { w.owners[o] } else { Seq::<char>::empty() }));
            earners.push(origin_owner);
            proof {
                assert(texts(earners@) =~= texts(e0).push(origin_owner@));
            }
            let ghost before_insert = self@;
            assert(before_insert.co_earners == w.co_earners);
            self.co_earners_per_post.insert(token_id.clone(), earners);
            assert(self@.co_earners =~= w.co_earners.insert(token_id@, texts(e0).push(origin_owner@)));
        } else {
            assert(self@.co_earners == w.co_earners);
        }
        self.last_post_id = next_id;
        proof {
            let goal = post_minted(v, token_id@, user_id@, m, origin_post_id);
            assert(self@.owners == w.owners && self@.tokens_of == w.tokens_of);
            assert(self@.co_earners =~= goal.co_earners);
            assert(self@ == goal);
        }
        proof {
            if 0 < origin_post_id <= v.last_post_id {
                lemma_decimal_roundtrip(origin_post_id as nat);
                lemma_decimal_roundtrip(next_id as nat);
                lemma_post_shares_with_origin(v, token_id@, user_id@, m, origin_post_id);
            }
        }
        let mut actions: Vec<ProfileAction> = Vec::new();
        actions.push(ProfileAction::NftMinted { owner_id: user_id.clone(), token_id: token_id.clone() });
        assert(profile_effects(actions@) =~= seq![actions@[0]@]);
        Ok((Some(MintProfileReturn { token_id, owner_id: user_id, metadata: meta, mint_state: true }), actions))
    }

    /// The callback of the minting fee payment (`verify_aex_for_mint_post`):
    /// reads the balance the token contract answered and continues as
    /// `continue_mint_post` does.
    pub fn verify_aex_for_mint_post(
        &mut self,
        signer: &String,
        user_id: String,
        origin_post_id: u128,
        token_metadata: Option<TokenMetadata>,
        attached_deposit: u128,
        outcome: &CallOutcome,
        storage_cost: u128,
    ) -> (r: Result<(Option<MintProfileReturn>, Vec<ProfileAction>), ProfileError>)
        requires
            old(self).wf(),
        ensures
            final(self).wf(),
            r is Err ==> *final(self) == *old(self),
            r matches Ok((None, a)) ==> *final(self) == *old(self),
            match *outcome {
                CallOutcome::Failure => r == Err::<(Option<MintProfileReturn>, Vec<ProfileAction>), ProfileError>(
                    ProfileError::CallFailed,
                ),
                CallOutcome::Success(bytes) => match json_u128(bytes@) {
                    None => r == Err::<(Option<MintProfileReturn>, Vec<ProfileAction>), ProfileError>(
                        ProfileError::UnreadableReply,
                    ),
                    Some(balance) => mint_post_step(
                        old(self)@,
                        final(self)@,
                        signer@,
                        user_id@,
                        origin_post_id,
                        opt_meta(token_metadata),
                        attached_deposit,
                        balance,
                        storage_cost,
                        r,
                    ),
                },
            },
    {
        let balance = u128_reply(outcome)?;
        self.continue_mint_post(signer, user_id, origin_post_id, token_metadata, attached_deposit, balance, storage_cost)
    }
}

/// Into how many equal parts the rest of a charge is split (see
/// `charge_parts`), for a post with these co-earners and creator.
pub fn share_parts(co_earners: &Vec<String>, charger: &String, creator: &String) -> (r: u128)
    ensures
        r == charge_parts(texts(co_earners@), charger@, creator@),
{
    let n = co_earners.len() as u128;
    if n == 0 {
        1
    } else if !contains_text(co_earners, charger) {
        if *charger != *creator {
            n + 1
        } else {
            n
        }
    } else if *charger != *creator {
        n
    } else {
        n - 1
    }
}

impl Aerx {
    /// Charges post `post_id` for the AERX user `charger_id` (`charge`):
    /// `amount` AEX are paid out as `charge_effects` lists. Only the AERX
    /// account may call. `aerx_share` is AERX's tenth of the amount and
    /// `earner_share` the rest divided into `share_parts` parts, as the
    /// caller computed them in floating point.
    pub fn charge(
        &self,
        signer: &String,
        charger_id: String,
        post_id: u128,
        amount: u128,
        aerx_share: u128,
        earner_share: u128,
    ) -> (r: Result<Vec<ProfileAction>, ProfileError>)
        requires
            self.wf(),
        ensures
            ({
                let v = self@;
                if signer@ != v.owner_id {
                    r == Err::<Vec<ProfileAction>, ProfileError>(ProfileError::Unauthorized)
                } else if !registered(v, charger_id@) {
                    r == Err::<Vec<ProfileAction>, ProfileError>(ProfileError::NotAerxUser)
                } else if post_id == 0 || post_id > v.last_post_id {
                    r == Err::<Vec<ProfileAction>, ProfileError>(ProfileError::InvalidPostId)
                } else {
                    r matches Ok(a) && profile_effects(a@) == charge_effects(
                        v,
                        charger_id@,
                        post_id,
                        amount,
                        aerx_share,
                        earner_share,
                    )
                }
            }),
            r matches Ok(a) ==> forall|i: int|
                #![trigger post_view(self@, decimal(post_id as nat)).co_earners[i]]
                0 <= i < post_view(self@, decimal(post_id as nat)).co_earners.len()
                    && post_view(self@, decimal(post_id as nat)).co_earners[i] != charger_id@
                    ==> profile_effects(a@).contains(
                    co_earner_payment(charger_id@, post_view(self@, decimal(post_id as nat)).co_earners[i], earner_share),
                ),
    {
        if *signer != self.owner_id {
            return Err(ProfileError::Unauthorized);
        }
        if !self.tokens_per_owner.contains_key(&charger_id) {
            return Err(ProfileError::NotAerxUser);
        }
        if post_id == 0 || post_id > self.last_post_id {
            return Err(ProfileError::InvalidPostId);
        }
        let post = self.internal_post_details(decimal_string(post_id));
        let creator = post.owner_id;
        let co = post.co_earners;
        let ghost cv = texts(co@);
        let aerx_memo = join_quoted("Charge post payment from ", &charger_id, " to Aerx", "");
        proof {
            reveal_strlit("");
            assert(aerx_memo@ =~= charge_aerx_memo(charger_id@));
        }
        let mut actions: Vec<ProfileAction> = Vec::new();
        if co.len() > 0 {
            actions.push(
                ProfileAction::SendAex {
                    sender_id: charger_id.clone(),
                    receiver_id: self.contract_id.clone(),
                    amount: aerx_share,
                    memo: aerx_memo,
                },
            );
            let ghost head = profile_effects(actions@);
            let mut i: usize = 0;
            while i < co.len()
                invariant
                    i <= co@.len(),
                    cv == texts(co@),
                    profile_effects(actions@) == head + earner_payments(cv.take(i as int), charger_id@, earner_share),
                decreases co@.len() - i,
            {
                let e = &co[i];
                let ghost before = profile_effects(actions@);
                assert(cv.take(i + 1).drop_last() =~= cv.take(i as int));
                assert(cv.take(i + 1).last() == e@);
                if *e != charger_id {
                    let memo = join_two_quoted("Charge post payment from ", &charger_id, " to ", e);
                    actions.push(
                        ProfileAction::SendAex { sender_id: charger_id.clone(), receiver_id: e.clone(), amount: earner_share, memo },
                    );
                    assert(profile_effects(actions@) =~= before.push(actions@.last()@));
                }
                i = i + 1;
            }
            assert(cv.take(co@.len() as int) =~= cv);
            let ghost mid = profile_effects(actions@);
            if !contains_text(&co, &charger_id) && charger_id != creator {
                let memo = join_two_quoted("Charge post payment from ", &charger_id, " to ", &creator);
                actions.push(
                    ProfileAction::SendAexThen {
                        sender_id: charger_id.clone(),
                        receiver_id: creator.clone(),
                        amount: earner_share,
                        memo,
                        then: Callback::VerifyCharge {
                            creator_id: creator,
                            charger_id,
                            post_id,
                            amount_charged: amount,
                            earners_share: Some(earner_share),
                        },
                    },
                );
                assert(profile_effects(actions@) =~= mid.push(actions@.last()@));
            }
        } else if charger_id != creator {
            actions.push(
                ProfileAction::SendAex {
                    sender_id: charger_id.clone(),
                    receiver_id: self.contract_id.clone(),
                    amount: aerx_share,
                    memo: aerx_memo,
                },
            );
            let memo = join_two_quoted("Charge post payment from ", &charger_id, " to ", &creator);
            actions.push(
                ProfileAction::SendAexThen {
                    sender_id: charger_id.clone(),
                    receiver_id: creator.clone(),
                    amount: earner_share,
                    memo,
                    then: Callback::VerifyCharge {
                        creator_id: creator,
                        charger_id,
                        post_id,
                        amount_charged: amount,
                        earners_share: None,
                    },
                },
            );
            assert(profile_effects(actions@) =~= seq![actions@[0]@, actions@[1]@]);
        } else {
            actions.push(
                ProfileAction::SendAex {
                    sender_id: charger_id.clone(),
                    receiver_id: self.contract_id.clone(),
                    amount,
                    memo: aerx_memo,
                },
            );
            assert(profile_effects(actions@) =~= seq![actions@[0]@]);
        }
        proof {
            if post_view(self@, decimal(post_id as nat)).co_earners.len() > 0 {
                lemma_charge_pays_each_co_earner(self@, charger_id@, post_id, amount, aerx_share, earner_share);
            }
        }
        Ok(actions)
    }

    /// Charges repost `repost_id` for the AERX user `charger_id`
    /// (`charge_repost`): `amount` AEX are paid out as
    /// `charge_repost_effects` lists. Only the AERX account may call.
    /// `aerx_share` is AERX's tenth of the amount; `initial_owner_share` is
    /// nine tenths of the rest, or all of it when the reposter charges, and
    /// `creator_share` what remains, as the caller computed them in
    /// floating point.
    pub fn charge_repost(
        &self,
        signer: &String,
        charger_id: String,
        repost_id: u64,
        amount: u128,
        aerx_share: u128,
        initial_owner_share: u128,
        creator_share: u128,
    ) -> (r: Result<Vec<ProfileAction>, ProfileError>)
        requires
            self.wf(),
        ensures
            ({
                let v = self@;
                if signer@ != v.owner_id {
                    r == Err::<Vec<ProfileAction>, ProfileError>(ProfileError::Unauthorized)
                } else if !registered(v, charger_id@) {
                    r == Err::<Vec<ProfileAction>, ProfileError>(ProfileError::NotAerxUser)
                } else if repost_id == 0 || repost_id > v.reposts.len() {
                    r == Err::<Vec<ProfileAction>, ProfileError>(ProfileError::InvalidRepostId)
                } else {
                    r matches Ok(a) && profile_effects(a@) == charge_repost_effects(
                        v,
                        charger_id@,
                        repost_id,
                        amount,
                        aerx_share,
                        initial_owner_share,
                        creator_share,
                    )
                }
            }),
    {
        if *signer != self.owner_id {
            return Err(ProfileError::Unauthorized);
        }
        if !self.tokens_per_owner.contains_key(&charger_id) {
            return Err(ProfileError::NotAerxUser);
        }
        if repost_id == 0 || repost_id > self.reposts.len() as u64 {
            return Err(ProfileError::InvalidRepostId);
        }
        let rp = self.internal_repost_details(repost_id);
        let aerx_memo = join_quoted("Charge Repost payment from ", &charger_id, " to Aerx", "");
        let initial_memo = join_quoted("Charge Repost payment from ", &charger_id, " to ", rp.initial_owner.as_str());
        let ghost start = "Charge Repost payment from "@ + quoted(charger_id@);
        proof {
            reveal_strlit("");
            assert(aerx_memo@ =~= start + " to Aerx"@);
            assert(initial_memo@ =~= start + " to "@ + rp.initial_owner@);
        }
        let verify = Callback::VerifyChargeRepost { charger_id: charger_id.clone(), repost_id, amount_charged: amount };
        let mut actions: Vec<ProfileAction> = Vec::new();
        actions.push(
            ProfileAction::SendAex {
                sender_id: charger_id.clone(),
                receiver_id: self.contract_id.clone(),
                amount: aerx_share,
                memo: aerx_memo,
            },
        );
        if charger_id != rp.owner {
            actions.push(
                ProfileAction::SendAex {
                    sender_id: charger_id.clone(),
                    receiver_id: rp.initial_owner.clone(),
                    amount: initial_owner_share,
                    memo: initial_memo,
                },
            );
            let creator_memo = join_two_quoted("Charge Repost payment from ", &charger_id, " to ", &rp.owner);
            assert(creator_memo@ =~= start + " to "@ + quoted(rp.owner@));
            actions.push(
                ProfileAction::SendAexThen {
                    sender_id: charger_id,
                    receiver_id: rp.owner,
                    amount: creator_share,
                    memo: creator_memo,
                    then: verify,
                },
            );
            assert(profile_effects(actions@) =~= seq![actions@[0]@, actions@[1]@, actions@[2]@]);
        } else {
            actions.push(
                ProfileAction::SendAexThen {
                    sender_id: charger_id,
                    receiver_id: rp.initial_owner,
                    amount: initial_owner_share,
                    memo: initial_memo,
                    then: verify,
                },
            );
            assert(profile_effects(actions@) =~= seq![actions@[0]@, actions@[1]@]);
        }
        Ok(actions)
    }

    /// Settles the payments of a charge on post `post_id` once the creator's
    /// payment reported `paid` (see `charge_settled`). `earners_share` is
    /// the share each earner was paid, and `aerx_share` AERX's tenth of the
    /// amount as the caller computed it in floating point. Returns whether
    /// the charge goes on.
    pub fn settle_charge(
        &self,
        creator_id: String,
        charger_id: String,
        post_id: u128,
        amount_charged: u128,
        earners_share: Option<u128>,
        paid: u128,
        aerx_share: u128,
    ) -> (r: Result<(bool, Vec<ProfileAction>), ProfileError>)
        requires
            self.wf(),
        ensures
            charge_settled(self@, creator_id@, charger_id@, post_id, amount_charged, earners_share, paid, aerx_share, r),
    {
        let mut actions: Vec<ProfileAction> = Vec::new();
        if paid > 0 {
            let request = PriceRequest {
                user_id: charger_id,
                token_id: decimal_string(post_id),
                balance: Some(paid),
                method: PriceMethod::Charge,
                metadata: None,
                amount: Some(amount_charged),
                repost_id: None,
            };
            actions.push(ProfileAction::GetPriceThenResolve { request, deposit: 0 });
            assert(profile_effects(actions@) =~= seq![actions@[0]@]);
            return Ok((true, actions));
        }
        if !self.tokens_per_owner.contains_key(&charger_id) {
            return Err(ProfileError::NotAerxUser);
        }
        let co = self.internal_post_details(decimal_string(post_id)).co_earners;
        let ghost cv = texts(co@);
        assert(cv == post_view(self@, decimal(post_id as nat)).co_earners);
        let ghost share = match earners_share {
            Some(x) => x,
            None => 0,
        };
        let refund = String::from_str("charge refund");
        if co.len() > 0 {
            let mut i: usize = 0;
            while i < co.len()
                invariant
                    i <= co@.len(),
                    cv == texts(co@),
                    cv == post_view(self@, decimal(post_id as nat)).co_earners,
                    paid == 0,
                    registered(self@, charger_id@),
                    refund@ == "charge refund"@,
                    share == (match earners_share {
                        Some(x) => x,
                        None => 0,
                    }),
                    profile_effects(actions@) == refund_payments(cv.take(i as int), charger_id@, self@.contract_id, share),
                    earners_share is None ==> forall|j: int| 0 <= j < i ==> #[trigger] cv[j] == charger_id@,
                decreases co@.len() - i,
            {
                let e = &co[i];
                let ghost before = profile_effects(actions@);
                assert(cv.take(i + 1).drop_last() =~= cv.take(i as int));
                assert(cv.take(i + 1).last() == e@);
                assert(cv[i as int] == e@);
                if *e != charger_id {
                    assert(cv[i as int] != charger_id@);
                    let x = match earners_share {
                        Some(x) => x,
                        None => {
                            assert(exists|j: int| 0 <= j < cv.len() && cv[j] != charger_id@);
                            return Err(ProfileError::MissingShare);
                        },
                    };
                    actions.push(
                        ProfileAction::SendAex {
                            sender_id: e.clone(),
                            receiver_id: self.contract_id.clone(),
                            amount: x,
                            memo: refund.clone(),
                        },
                    );
                    assert(profile_effects(actions@) =~= before.push(actions@.last()@));
                }
                i = i + 1;
            }
            assert(cv.take(co@.len() as int) =~= cv);
            let ghost mid = profile_effects(actions@);
            assert(earners_share is None ==> !(exists|j: int| 0 <= j < cv.len() && cv[j] != charger_id@));
            if !contains_text(&co, &creator_id) && creator_id != charger_id {
                let x = match earners_share {
                    Some(x) => x,
                    None => {
                        return Err(ProfileError::MissingShare);
                    },
                };
                actions.push(
                    ProfileAction::SendAex {
                        sender_id: creator_id,
                        receiver_id: self.contract_id.clone(),
                        amount: x,
                        memo: refund,
                    },
                );
                assert(profile_effects(actions@) =~= mid.push(actions@.last()@));
                assert(actions@.last()@ == ProfileEffect::SendAex {
                    sender_id: creator_id@,
                    receiver_id: self@.contract_id,
                    amount: share,
                    memo: "charge refund"@,
                });
                assert(mid == refund_payments(cv, charger_id@, self@.contract_id, share));
                assert(profile_effects(actions@) =~= refund_payments(cv, charger_id@, self@.contract_id, share) + seq![
                    actions@.last()@,
                ]);
            } else {
                assert(profile_effects(actions@) =~= mid + Seq::<ProfileEffect>::empty());
            }
        } else if creator_id != charger_id {
            if aerx_share > amount_charged {
                return Err(ProfileError::ShareExceedsAmount);
            }
            actions.push(
                ProfileAction::SendAex {
                    sender_id: creator_id,
                    receiver_id: self.contract_id.clone(),
                    amount: amount_charged - aerx_share,
                    memo: refund,
                },
            );
            assert(profile_effects(actions@) =~= seq![actions@[0]@]);
        }
        Ok((false, actions))
    }

    /// The callback of a charge's last payment (`verify_aex_call_for_charge`):
    /// reads the balance the token contract answered and continues as
    /// `settle_charge` does.
    pub fn verify_aex_call_for_charge(
        &self,
        creator_id: String,
        charger_id: String,
        post_id: u128,
        amount_charged: u128,
        earners_share: Option<u128>,
        outcome: &CallOutcome,
        aerx_share: u128,
    ) -> (r: Result<(bool, Vec<ProfileAction>), ProfileError>)
        requires
            self.wf(),
        ensures
            match *outcome {
                CallOutcome::Failure => r == Err::<(bool, Vec<ProfileAction>), ProfileError>(ProfileError::CallFailed),
                CallOutcome::Success(bytes) => match json_u128(bytes@) {
                    None => r == Err::<(bool, Vec<ProfileAction>), ProfileError>(ProfileError::UnreadableReply),
                    Some(paid) => charge_settled(
                        self@,
                        creator_id@,
                        charger_id@,
                        post_id,
                        amount_charged,
                        earners_share,
                        paid,
                        aerx_share,
                        r,
                    ),
                },
            },
    {
        let paid = u128_reply(outcome)?;
        self.settle_charge(creator_id, charger_id, post_id, amount_charged, earners_share, paid, aerx_share)
    }

    /// Settles the payments of a charge on repost `repost_id` once the last
    /// payment reported `paid` (see `repost_charge_settled`). The shares are
    /// those of `charge_repost`. Returns whether the charge goes on.
    pub fn settle_charge_repost(
        &self,
        charger_id: String,
        repost_id: u64,
        amount_charged: u128,
        paid: u128,
        initial_owner_share: u128,
        creator_share: u128,
    ) -> (r: Result<(bool, Vec<ProfileAction>), ProfileError>)
        requires
            self.wf(),
        ensures
            repost_charge_settled(self@, charger_id@, repost_id, amount_charged, paid, initial_owner_share, creator_share, r),
    {
        let mut actions: Vec<ProfileAction> = Vec::new();
        if paid > 0 {
            let request = PriceRequest {
                user_id: charger_id,
                token_id: decimal_string(repost_id as u128),
                balance: Some(paid),
                method: PriceMethod::ChargeRepost,
                metadata: None,
                amount: Some(amount_charged),
                repost_id: Some(repost_id),
            };
            actions.push(ProfileAction::GetPriceThenResolve { request, deposit: 0 });
            assert(profile_effects(actions@) =~= seq![actions@[0]@]);
            return Ok((true, actions));
        }
        if !self.tokens_per_owner.contains_key(&charger_id) {
            return Err(ProfileError::NotAerxUser);
        }
        let rp = self.internal_repost_details(repost_id);
        let refund = String::from_str("Charge Refund");
        actions.push(
            ProfileAction::SendAex {
                sender_id: rp.initial_owner,
                receiver_id: self.contract_id.clone(),
                amount: initial_owner_share,
                memo: refund.clone(),
            },
        );
        if charger_id != rp.owner {
            actions.push(
                ProfileAction::SendAex {
                    sender_id: rp.owner,
                    receiver_id: self.contract_id.clone(),
                    amount: creator_share,
                    memo: refund,
                },
            );
            assert(profile_effects(actions@) =~= seq![actions@[0]@, actions@[1]@]);
        } else {
            assert(profile_effects(actions@) =~= seq![actions@[0]@]);
        }
        Ok((false, actions))
    }

    /// The callback of a repost charge's last payment
    /// (`verify_aex_call_for_charge_repost`): reads the balance the token
    /// contract answered and continues as `settle_charge_repost` does.
    pub fn verify_aex_call_for_charge_repost(
        &self,
        charger_id: String,
        repost_id: u64,
        amount_charged: u128,
        outcome: &CallOutcome,
        initial_owner_share: u128,
        creator_share: u128,
    ) -> (r: Result<(bool, Vec<ProfileAction>), ProfileError>)
        requires
            self.wf(),
        ensures
            match *outcome {
                CallOutcome::Failure => r == Err::<(bool, Vec<ProfileAction>), ProfileError>(ProfileError::CallFailed),
                CallOutcome::Success(bytes) => match json_u128(bytes@) {
                    None => r == Err::<(bool, Vec<ProfileAction>), ProfileError>(ProfileError::UnreadableReply),
                    Some(paid) => repost_charge_settled(
                        self@,
                        charger_id@,
                        repost_id,
                        amount_charged,
                        paid,
                        initial_owner_share,
                        creator_share,
                        r,
                    ),
                },
            },
    {
        let paid = u128_reply(outcome)?;
        self.settle_charge_repost(charger_id, repost_id, amount_charged, paid, initial_owner_share, creator_share)
    }
}

/// The callback of a marketplace listing (`verify_marketplace_call`): the
/// marketplace must answer `true`.
pub fn verify_marketplace_call(outcome: &CallOutcome) -> (r: Result<bool, ProfileError>)
    ensures
        match *outcome {
            CallOutcome::Failure => r == Err::<bool, ProfileError>(ProfileError::CallFailed),
            CallOutcome::Success(bytes) => match json_bool(bytes@) {
                None => r == Err::<bool, ProfileError>(ProfileError::UnreadableReply),
                Some(true) => r == Ok::<bool, ProfileError>(true),
                Some(false) => r == Err::<bool, ProfileError>(ProfileError::MarketplaceRefused),
            },
        },
{
    match outcome {
        CallOutcome::Failure => Err(ProfileError::CallFailed),
        CallOutcome::Success(bytes) => match read_bool(bytes.as_slice()) {
            None => Err(ProfileError::UnreadableReply),
            Some(true) => Ok(true),
            Some(false) => Err(ProfileError::MarketplaceRefused),
        },
    }
}

/// Whether two metadata records are equal.
pub fn same_metadata(a: &TokenMetadata, b: &TokenMetadata) -> (r: bool)
    ensures
        r == (a@ == b@),
{
    same_opt_text(&a.title, &b.title) && same_opt_text(&a.description, &b.description) && same_opt_text(
        &a.media,
        &b.media,
    ) && same_opt_bytes(&a.media_hash, &b.media_hash) && a.copies == b.copies && same_opt_text(
        &a.issued_at,
        &b.issued_at,
    ) && same_opt_text(&a.expires_at, &b.expires_at) && same_opt_text(&a.starts_at, &b.starts_at)
        && same_opt_text(&a.updated_at, &b.updated_at) && same_opt_text(&a.extra, &b.extra) && same_opt_text(
        &a.reference,
        &b.reference,
    ) && same_opt_bytes(&a.reference_hash, &b.reference_hash)
}

/// Whether two posts are equal in every field.
pub fn same_post(a: &AexPost, b: &AexPost) -> (r: bool)
    ensures
        r == (a@ == b@),
{
    let same_meta = match (&a.metadata, &b.metadata) {
        (Some(x), Some(y)) => same_metadata(x, y),
        (None, None) => true,
        _ => false,
    };
    a.post_id == b.post_id && a.owner_id == b.owner_id && same_meta && a.total_charges == b.total_charges
        && a.origin_post_id == b.origin_post_id && same_texts(&a.co_earners, &b.co_earners)
}

/// Whether `posts` holds a post equal to `p`.
pub fn contains_post(posts: &Vec<AexPost>, p: &AexPost) -> (r: bool)
    ensures
        r == post_views(posts@).contains(p@),
{
    let mut i: usize = 0;
    while i < posts.len()
        invariant
            i <= posts@.len(),
            forall|j: int| 0 <= j < i ==> (#[trigger] posts@[j])@ != p@,
        decreases posts@.len() - i,
    {
        if same_post(&posts[i], p) {
            assert(post_views(posts@)[i as int] == p@);
            return true;
        }
        i = i + 1;
    }
    assert forall|j: int| 0 <= j < post_views(posts@).len() implies post_views(posts@)[j] != p@ by {
        assert(post_views(posts@)[j] == posts@[j]@);
    }
    false
}

/// The welcome post that heads every list of posts.
pub fn welcome() -> (r: AexPost)
    ensures
        r@ == welcome_post(),
{
    let metadata = TokenMetadata {
        title: Some(String::from_str("Welcome to AERX")),
        description: Some(String::from_str("Welcome to AERX")),
        media: None,
        media_hash: None,
        copies: None,
        issued_at: None,
        expires_at: None,
        starts_at: None,
        updated_at: None,
        extra: None,
        reference: None,
        reference_hash: None,
    };
    let r = AexPost {
        post_id: String::from_str("0"),
        owner_id: String::from_str("Aerx.Aerx"),
        metadata: Some(metadata),
        total_charges: 0,
        origin_post_id: None,
        co_earners: Vec::new(),
    };
    assert(r@.co_earners =~= Seq::<Seq<char>>::empty());
    r
}

impl Aerx {
    /// All posts, for the AERX user `user_id` (`get_all_posts`): the
    /// welcome post, then, going through the token records by token id
    /// (`lemma_owner_order`), the details of every token their owners hold,
    /// each distinct post once.
    pub fn get_all_posts(&self, user_id: &String) -> (r: Result<Vec<AexPost>, ProfileError>)
        requires
            self.wf(),
        ensures
            !registered(self@, user_id@) ==> r == Err::<Vec<AexPost>, ProfileError>(ProfileError::NotAerxUser),
            registered(self@, user_id@) ==> (r matches Ok(posts) && post_views(posts@) == all_posts(
                self@,
                self.owner_order(),
            )),
    {
        if !self.tokens_per_owner.contains_key(user_id) {
            return Err(ProfileError::NotAerxUser);
        }
        let ghost v = self@;
        let ghost order = self.owner_order();
        let ghost pv = |id: Seq<char>| post_view(v, id);
        let mut out: Vec<AexPost> = Vec::new();
        out.push(welcome());
        assert(post_views(out@) =~= seq![welcome_post()]);
        let n = self.owner_by_id.len();
        let mut i: usize = 0;
        assert(listed_post_ids(v, order.take(0)) =~= Seq::<Seq<char>>::empty());
        assert(listed_post_ids(v, order.take(0)).map_values(pv) =~= Seq::<AexPostView>::empty());
        while i < n
            invariant
                i <= n,
                n == order.len(),
                v == self@,
                order == self.owner_order(),
                pv == (|id: Seq<char>| post_view(v, id)),
                self.wf(),
                post_views(out@) == push_new(seq![welcome_post()], listed_post_ids(v, order.take(i as int)).map_values(pv)),
            decreases n - i,
        {
            let (_, owner) = self.owner_by_id.entry(i);
            assert(order[i as int].1 == owner@);
            let ghost before_ids = listed_post_ids(v, order.take(i as int));
            assert(order.take(i + 1).drop_last() =~= order.take(i as int));
            assert(order.take(i + 1).last() == order[i as int]);
            assert(listed_post_ids(v, order.take(i + 1)) == before_ids + tokens_list(v, owner@));
            match self.tokens_per_owner.get(owner) {
                None => {
                    assert(tokens_list(v, owner@) =~= Seq::<Seq<char>>::empty());
                    assert(before_ids + tokens_list(v, owner@) =~= before_ids);
                },
                Some(set) => {
                    let ghost tl = set.seq();
                    assert(tl == tokens_list(v, owner@));
                    let m = set.len();
                    let mut j: usize = 0;
                    assert(before_ids + tl.take(0) =~= before_ids);
                    while j < m
                        invariant
                            j <= m,
                            m == tl.len(),
                            tl == set.seq(),
                            v == self@,
                            pv == (|id: Seq<char>| post_view(v, id)),
                            self.wf(),
                            post_views(out@) == push_new(seq![welcome_post()], (before_ids + tl.take(j as int)).map_values(pv)),
                        decreases m - j,
                    {
                        let id = set.at(j);
                        let p = self.internal_post_details(id.clone());
                        let ghost items = (before_ids + tl.take(j + 1)).map_values(pv);
                        assert(items.drop_last() =~= (before_ids + tl.take(j as int)).map_values(pv));
                        assert(items.last() == p@);
                        let ghost before = out@;
                        if !contains_post(&out, &p) {
                            out.push(p);
                            assert(post_views(out@) =~= post_views(before).push(items.last()));
                        }
                        j = j + 1;
                    }
                    assert(tl.take(m as int) =~= tl);
                },
            }
            i = i + 1;
        }
        assert(order.take(n as int) =~= order);
        Ok(out)
    }
}

/// The token lists as sets, when no list repeats a token.
fn sets_of(lists: &Vec<(String, Vec<String>)>) -> (r: Option<Vec<(String, StrSet)>>)
    ensures
        r is Some <==> forall|i: int| 0 <= i < lists@.len() ==> texts((#[trigger] lists@[i]).1@).no_duplicates(),
        r matches Some(c) ==> c@.len() == lists@.len() && forall|i: int| 0 <= i < c@.len() ==> (#[trigger] c@[i]).0@
            == lists@[i].0@ && c@[i].1.seq() == texts(lists@[i].1@) && c@[i].1.wf(),
{
    let mut out: Vec<(String, StrSet)> = Vec::new();
    let mut i: usize = 0;
    while i < lists.len()
        invariant
            i <= lists@.len(),
            out@.len() == i,
            forall|j: int| 0 <= j < i ==> texts((#[trigger] lists@[j]).1@).no_duplicates(),
            forall|j: int| 0 <= j < i ==> (#[trigger] out@[j]).0@ == lists@[j].0@ && out@[j].1.seq() == texts(lists@[j].1@)
                && out@[j].1.wf(),
        decreases lists@.len() - i,
    {
        let set = match StrSet::from_items(copy_texts(&lists[i].1)) {
            Some(x) => x,
            None => {
                return None;
            },
        };
        out.push((lists[i].0.clone(), set));
        i = i + 1;
    }
    Some(out)
}

} // verus!
