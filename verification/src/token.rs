//! The AEX token contract: a NEP-141 ledger whose holders that are AERX
//! users have their spending and receiving reported to the AERX contract as
//! earnings. Each entry point takes what the runtime reports (caller,
//! attached deposit, gas, storage prices) as arguments and returns what the
//! runtime must then do (payments, cross-contract calls, events).
use vstd::prelude::*;
use crate::assoc::{StrSet, keys_distinct, pairs_map, entry_views};
use crate::text::texts;
use crate::ledger::{Ledger, LedgerError, balance_in, pairs_sum, lemma_two_entries_le_sum, deposit_outcome, withdraw_outcome, transfer_outcome, resolved_unused};
use crate::reply::{CallOutcome, read_bool, read_u128_text, json_bool, json_u128_text};
use crate::metadata::{FtContractMetadata, FtMetadataView, ft_metadata_valid};

verus! {

/// The gift every new AERX user receives once: 111 AEX.
pub const REGISTRATION_GIFT: u128 = 111000000000000000000000000;

/// Gas kept back for settling a transfer-and-call.
pub const GAS_FOR_RESOLVE_TRANSFER: u64 = 5000000000000;

/// Gas a transfer-and-call must be given beyond what its receiver gets.
pub const GAS_FOR_FT_TRANSFER_CALL: u64 = 25000000000000 + GAS_FOR_RESOLVE_TRANSFER;

/// Why the token contract refused a call.
#[derive(Debug, PartialEq, Eq, Clone, Copy, Structural)]
pub enum TokenError {
    /// The ledger refused the operation.
    Ledger(LedgerError),
    /// The caller may not make this call.
    Unauthorized,
    /// The call must carry exactly one yoctoNEAR.
    RequiresOneYocto,
    /// The attached deposit does not cover the storage the call needs.
    InsufficientDeposit,
    /// The storage price does not fit in a `u128`.
    StorageCostOverflow,
    /// The sender is not an AERX user.
    NotAerxUser,
    /// Only the AESWAP contract may receive a transfer-and-call.
    UnsupportedReceiver,
    /// The call was not given enough gas.
    NotEnoughGas,
    /// The account has no storage registered.
    NotRegistered,
    /// An account with a positive balance is closed only when forced.
    PositiveBalance,
    /// Storage balances are never available for withdrawal.
    NothingToWithdraw,
    /// The earnings call of the AERX contract failed.
    EarningsCallFailed,
    /// The earnings call answered something other than a boolean.
    UnreadableReply,
    /// The AERX contract refused to decrease the sender's earnings.
    EarningsRefused,
    /// A transfer-and-call lost its message.
    MissingMessage,
    /// The contract metadata is not valid NEP-148 metadata.
    InvalidMetadata,
    /// Stored state the contract cannot resume from.
    CorruptState,
}

/// Which entry point began a transfer that waits on the earnings check.
#[derive(Debug, PartialEq, Eq, Clone, Copy, Structural)]
pub enum TransferMethod {
    FtTransfer,
    FtTransferCall,
    SendAex,
}

/// What the runtime must do after a call.
pub enum TokenAction {
    /// Send `amount` yoctoNEAR to `to`.
    Pay { to: String, amount: u128 },
    /// Tell the AERX contract that `user` earned `amount`.
    IncreaseEarnings { user: String, amount: u128 },
    /// Ask the AERX contract to decrease the earnings of `sender` by
    /// `amount`, then call back `resolve_decrease_earning` with the rest.
    DecreaseEarningThenResolve {
        sender: String,
        receiver: String,
        amount: u128,
        memo: Option<String>,
        msg: Option<String>,
        method: TransferMethod,
    },
    /// Call `ft_on_transfer` on the receiver, then `ft_resolve_transfer`.
    CallReceiverThenResolve { sender: String, receiver: String, amount: u128, msg: String },
    /// Emit the NEP-141 mint event.
    Minted { owner: String, amount: u128, memo: String },
    /// Emit the NEP-141 burn event.
    Burned { owner: String, amount: u128, memo: String },
    /// Emit the NEP-141 transfer event.
    Transferred { from: String, to: String, amount: u128, memo: Option<String> },
}

/// A `TokenAction` with its texts taken by value.
pub enum TokenEffect {
    Pay { to: Seq<char>, amount: u128 },
    IncreaseEarnings { user: Seq<char>, amount: u128 },
    DecreaseEarningThenResolve {
        sender: Seq<char>,
        receiver: Seq<char>,
        amount: u128,
        memo: Option<Seq<char>>,
        msg: Option<Seq<char>>,
        method: TransferMethod,
    },
    CallReceiverThenResolve { sender: Seq<char>, receiver: Seq<char>, amount: u128, msg: Seq<char> },
    Minted { owner: Seq<char>, amount: u128, memo: Seq<char> },
    Burned { owner: Seq<char>, amount: u128, memo: Seq<char> },
    Transferred { from: Seq<char>, to: Seq<char>, amount: u128, memo: Option<Seq<char>> },
}

/// The text of an optional text.
pub open spec fn opt_view(o: Option<String>) -> Option<Seq<char>> {
    match o {
        Some(s) => Some(s@),
        None => None,
    }
}

impl TokenAction {
    pub open spec fn effect(&self) -> TokenEffect {
        match self {
            TokenAction::Pay { to, amount } => TokenEffect::Pay { to: to@, amount: *amount },
            TokenAction::IncreaseEarnings { user, amount } => TokenEffect::IncreaseEarnings {
                user: user@,
                amount: *amount,
            },
            TokenAction::DecreaseEarningThenResolve { sender, receiver, amount, memo, msg, method } =>
                TokenEffect::DecreaseEarningThenResolve {
                sender: sender@,
                receiver: receiver@,
                amount: *amount,
                memo: opt_view(*memo),
                msg: opt_view(*msg),
                method: *method,
            },
            TokenAction::CallReceiverThenResolve { sender, receiver, amount, msg } =>
                TokenEffect::CallReceiverThenResolve {
                sender: sender@,
                receiver: receiver@,
                amount: *amount,
                msg: msg@,
            },
            TokenAction::Minted { owner, amount, memo } => TokenEffect::Minted {
                owner: owner@,
                amount: *amount,
                memo: memo@,
            },
            TokenAction::Burned { owner, amount, memo } => TokenEffect::Burned {
                owner: owner@,
                amount: *amount,
                memo: memo@,
            },
            TokenAction::Transferred { from, to, amount, memo } => TokenEffect::Transferred {
                from: from@,
                to: to@,
                amount: *amount,
                memo: opt_view(*memo),
            },
        }
    }
}

/// The effects of a list of actions.
pub open spec fn effects(v: Seq<TokenAction>) -> Seq<TokenEffect> {
    v.map_values(|a: TokenAction| a.effect())
}

/// The abstract state of the token contract.
pub struct AexView {
    pub balances: Map<Seq<char>, u128>,
    pub supply: u128,
    pub owner: Seq<char>,
    pub aerx_users: Set<Seq<char>>,
    pub aerx: Seq<char>,
    pub aeswap: Seq<char>,
    pub account_storage_usage: u64,
    pub byte_cost: u128,
    pub metadata: FtMetadataView,
}

/// The state once `acc` is registered (with a zero balance, if it was not)
/// and has had the registration gift, which it gets only once.
pub open spec fn rewarded(v: AexView, acc: Seq<char>) -> AexView {
    let b1 = if v.balances.dom().contains(acc) {
        v.balances
    } else {
        v.balances.insert(acc, 0)
    };
    let gifted = v.aerx_users.contains(acc);
    AexView {
        balances: if gifted {
            b1
        } else {
            b1.insert(acc, (balance_in(b1, acc) + REGISTRATION_GIFT) as u128)
        },
        supply: if gifted {
            v.supply
        } else {
            (v.supply + REGISTRATION_GIFT) as u128
        },
        aerx_users: v.aerx_users.insert(acc),
        ..v
    }
}

/// The registration gift is given once: registering and rewarding an
/// account a second time leaves the state as the first time left it.
pub proof fn lemma_gift_once(v: AexView, acc: Seq<char>)
    ensures
        rewarded(rewarded(v, acc), acc) == rewarded(v, acc),
{
    let w = rewarded(v, acc);
    assert(w.aerx_users.insert(acc) =~= w.aerx_users);
    assert(w.balances.dom().contains(acc));
}

/// Rewarding an account that has not had the gift yet registers it and
/// credits it exactly the gift, growing the supply by the gift and
/// touching no other balance; an account that had it is only registered.
/// Either way it counts as an AERX user afterwards.
pub proof fn lemma_reward_credits_gift_once(v: AexView, acc: Seq<char>, other: Seq<char>)
    requires
        other != acc,
    ensures
        rewarded(v, acc).aerx_users.contains(acc),
        rewarded(v, acc).balances.dom().contains(acc),
        balance_in(rewarded(v, acc).balances, other) == balance_in(v.balances, other),
        !v.aerx_users.contains(acc) && balance_in(v.balances, acc) + REGISTRATION_GIFT <= u128::MAX
            && v.supply + REGISTRATION_GIFT <= u128::MAX ==> balance_in(rewarded(v, acc).balances, acc) == balance_in(
            v.balances,
            acc,
        ) + REGISTRATION_GIFT && rewarded(v, acc).supply == v.supply + REGISTRATION_GIFT,
        v.aerx_users.contains(acc) ==> balance_in(rewarded(v, acc).balances, acc) == balance_in(v.balances, acc)
            && rewarded(v, acc).supply == v.supply,
{
}

/// Storage bounds of an account: the minimum and maximum deposit.
#[derive(Debug, PartialEq, Eq, Clone, Copy, Structural)]
pub struct StorageBalanceBounds {
    pub min: u128,
    pub max: u128,
}

/// The storage deposit held for an account.
#[derive(Debug, PartialEq, Eq, Clone, Copy, Structural)]
pub struct StorageBalance {
    pub total: u128,
    pub available: u128,
}

/// The answer to a transfer that continues after the earnings check:
/// either a value now, or the receiver's answer later.
#[derive(Debug, PartialEq, Eq, Clone, Copy, Structural)]
pub enum TransferReply {
    Value(u128),
    Pending,
}

/// The storage deposit an account needs: its storage size times the price
/// of a byte.
pub open spec fn min_storage(v: AexView) -> int {
    v.account_storage_usage * v.byte_cost
}

/// The storage fee of recording `account` among the AERX users: nothing
/// when it is already recorded.
pub open spec fn record_fee(v: AexView, account: Seq<char>, record_cost: u128) -> int {
    if v.aerx_users.contains(account) {
        0
    } else {
        record_cost as int
    }
}

/// The effect `Pay { to, amount }` when `amount` is positive, nothing otherwise.
pub open spec fn pay_if_positive(to: Seq<char>, amount: int) -> Seq<TokenEffect> {
    if amount > 0 {
        seq![TokenEffect::Pay { to: to, amount: amount as u128 }]
    } else {
        seq![]
    }
}

/// Why `register_and_reward_user` refuses, if it does.
pub open spec fn register_reward_refusal(
    v: AexView,
    pred: Seq<char>,
    account: Seq<char>,
    deposit: u128,
    record_cost: u128,
) -> Option<TokenError> {
    let registered = v.balances.dom().contains(account);
    let fee = min_storage(v) + record_fee(v, account, record_cost);
    let gifted = v.aerx_users.contains(account);
    if pred != v.aerx {
        Some(TokenError::Unauthorized)
    } else if !registered && fee > u128::MAX {
        Some(TokenError::StorageCostOverflow)
    } else if !registered && deposit < fee {
        Some(TokenError::InsufficientDeposit)
    } else if !gifted && balance_in(v.balances, account) + REGISTRATION_GIFT > u128::MAX {
        Some(TokenError::Ledger(LedgerError::BalanceOverflow))
    } else if !gifted && v.supply + REGISTRATION_GIFT > u128::MAX {
        Some(TokenError::Ledger(LedgerError::TotalSupplyOverflow))
    } else {
        None
    }
}

/// Why `add_unrewarded_user` refuses, if it does.
pub open spec fn add_unrewarded_refusal(
    v: AexView,
    pred: Seq<char>,
    account: Seq<char>,
    deposit: u128,
    record_cost: u128,
) -> Option<TokenError> {
    let registered = v.balances.dom().contains(account);
    let fee = record_fee(v, account, record_cost);
    if pred != v.aerx {
        Some(TokenError::Unauthorized)
    } else if registered && deposit < fee {
        Some(TokenError::InsufficientDeposit)
    } else if !registered && min_storage(v) + fee > u128::MAX {
        Some(TokenError::StorageCostOverflow)
    } else if !registered && deposit < min_storage(v) + fee {
        Some(TokenError::InsufficientDeposit)
    } else {
        None
    }
}

/// The ledger error of a transfer, as the token contract reports it.
pub open spec fn transfer_refusal(v: AexView, sender: Seq<char>, receiver: Seq<char>, amount: u128) -> Option<TokenError> {
    match transfer_outcome(v.balances, sender, receiver, amount) {
        Ok(_) => None,
        Err(e) => Some(TokenError::Ledger(e)),
    }
}

/// The balances after moving `amount` from `sender` to `receiver`.
pub open spec fn moved(m: Map<Seq<char>, u128>, sender: Seq<char>, receiver: Seq<char>, amount: u128) -> Map<Seq<char>, u128> {
    m.insert(sender, (balance_in(m, sender) - amount) as u128).insert(
        receiver,
        (balance_in(m, receiver) + amount) as u128,
    )
}

/// `after` holds exactly `amount` less for `sender` and exactly `amount`
/// more for `receiver` than `before`, with no wrap-around.
pub open spec fn moved_exactly(
    before: Map<Seq<char>, u128>,
    after: Map<Seq<char>, u128>,
    sender: Seq<char>,
    receiver: Seq<char>,
    amount: u128,
) -> bool {
    &&& balance_in(after, sender) == balance_in(before, sender) - amount
    &&& balance_in(after, receiver) == balance_in(before, receiver) + amount
}

/// The supply is the sum of the balances: the registered accounts can be
/// listed, each once, so that their balances add up to the supply.
pub open spec fn supply_is_sum(v: AexView) -> bool {
    exists|s: Seq<(Seq<char>, u128)>|
        #![trigger pairs_sum(s), pairs_map(s)]
        keys_distinct(s) && pairs_map(s) == v.balances && pairs_sum(s) == v.supply
}

/// Two different accounts together hold no more than the supply.
pub proof fn lemma_two_balances_le_supply(v: AexView, a: Seq<char>, b: Seq<char>)
    requires
        supply_is_sum(v),
        a != b,
    ensures
        balance_in(v.balances, a) + balance_in(v.balances, b) <= v.supply,
{
    let s = choose|s: Seq<(Seq<char>, u128)>|
        #![trigger pairs_sum(s), pairs_map(s)]
        keys_distinct(s) && pairs_map(s) == v.balances && pairs_sum(s) == v.supply;
    lemma_two_entries_le_sum(s, a, b);
}

/// A transfer the ledger accepts moves exactly `amount`: the balances it
/// leaves are the old ones with `amount` taken from the sender and added
/// to the receiver, with no wrap-around.
pub proof fn lemma_transfer_moves_exactly(v: AexView, sender: Seq<char>, receiver: Seq<char>, amount: u128)
    requires
        supply_is_sum(v),
        transfer_refusal(v, sender, receiver, amount) is None,
    ensures
        moved_exactly(v.balances, moved(v.balances, sender, receiver, amount), sender, receiver, amount),
{
    lemma_two_balances_le_supply(v, sender, receiver);
}

/// What a completed transfer reports: the transfer event, then the
/// receiver's new earnings when the receiver is an AERX user.
pub open spec fn transfer_effects(
    v: AexView,
    sender: Seq<char>,
    receiver: Seq<char>,
    amount: u128,
    memo: Option<Seq<char>>,
) -> Seq<TokenEffect> {
    seq![TokenEffect::Transferred { from: sender, to: receiver, amount: amount, memo: memo }] + if v.aerx_users.contains(
        receiver,
    ) {
        seq![TokenEffect::IncreaseEarnings { user: receiver, amount: amount }]
    } else {
        Seq::<TokenEffect>::empty()
    }
}

/// How a transfer held for the earnings check continues once the AERX
/// contract answered `answer`: `old` and `new` are the contract before and
/// after, `r` what the callback returns.
pub open spec fn decrease_settled(
    old: &Aex,
    new: &Aex,
    sender: Seq<char>,
    receiver: Seq<char>,
    amount: u128,
    memo: Option<Seq<char>>,
    msg: Option<Seq<char>>,
    method: TransferMethod,
    answer: Option<bool>,
    r: Result<(TransferReply, Vec<TokenAction>), TokenError>,
) -> bool {
    let v = old@;
    let calls_receiver = !v.aerx_users.contains(receiver) && method == TransferMethod::FtTransferCall;
    &&& r is Err ==> *new == *old
    &&& answer is None ==> r == Err::<(TransferReply, Vec<TokenAction>), TokenError>(TokenError::UnreadableReply)
    &&& answer == Some(false) ==> r == Err::<(TransferReply, Vec<TokenAction>), TokenError>(
        TokenError::EarningsRefused,
    )
    &&& answer == Some(true) ==> match transfer_refusal(v, sender, receiver, amount) {
        Some(e) => r == Err::<(TransferReply, Vec<TokenAction>), TokenError>(e),
        None => if calls_receiver && msg is None {
            r == Err::<(TransferReply, Vec<TokenAction>), TokenError>(TokenError::MissingMessage)
        } else {
            &&& r matches Ok((reply, actions))
            &&& new@ == (AexView { balances: moved(v.balances, sender, receiver, amount), ..v })
            &&& r->Ok_0.0 == (if calls_receiver {
                TransferReply::Pending
            } else {
                TransferReply::Value(0)
            })
            &&& effects(r->Ok_0.1@) == transfer_effects(v, sender, receiver, amount, memo) + if calls_receiver {
                seq![
                    TokenEffect::CallReceiverThenResolve {
                        sender: sender,
                        receiver: receiver,
                        amount: amount,
                        msg: msg->Some_0,
                    },
                ]
            } else {
                Seq::<TokenEffect>::empty()
            }
        },
    }
}

/// Once the AERX contract agreed to the earnings decrease, a valid
/// transfer-and-call to a receiver that is not an AERX user moves the
/// amount and then calls the receiver: the reply is pending and the last
/// action calls the receiver and resolves the transfer afterwards.
pub proof fn lemma_settled_transfer_call_calls_receiver(
    before: &Aex,
    after: &Aex,
    sender: Seq<char>,
    receiver: Seq<char>,
    amount: u128,
    memo: Option<Seq<char>>,
    msg: Seq<char>,
    r: Result<(TransferReply, Vec<TokenAction>), TokenError>,
)
    requires
        decrease_settled(before, after, sender, receiver, amount, memo, Some(msg), TransferMethod::FtTransferCall, Some(true), r),
        transfer_refusal(before@, sender, receiver, amount) is None,
        !before@.aerx_users.contains(receiver),
    ensures
        r matches Ok((reply, actions)) && reply == TransferReply::Pending && effects(actions@).len() == 2
            && effects(actions@)[0] == (TokenEffect::Transferred { from: sender, to: receiver, amount: amount, memo: memo })
            && effects(actions@)[1] == (TokenEffect::CallReceiverThenResolve {
                sender: sender,
                receiver: receiver,
                amount: amount,
                msg: msg,
            }),
        after@.balances == moved(before@.balances, sender, receiver, amount),
{
}

/// Once the AERX contract agreed to the earnings decrease, a valid transfer
/// to an AERX user (by any method) moves the amount, reports the
/// receiver's earnings and answers at once: the receiver is never called.
pub proof fn lemma_settled_transfer_to_aerx_user(
    before: &Aex,
    after: &Aex,
    sender: Seq<char>,
    receiver: Seq<char>,
    amount: u128,
    memo: Option<Seq<char>>,
    msg: Option<Seq<char>>,
    method: TransferMethod,
    r: Result<(TransferReply, Vec<TokenAction>), TokenError>,
)
    requires
        decrease_settled(before, after, sender, receiver, amount, memo, msg, method, Some(true), r),
        transfer_refusal(before@, sender, receiver, amount) is None,
        before@.aerx_users.contains(receiver),
    ensures
        r matches Ok((reply, actions)) && reply == TransferReply::Value(0) && effects(actions@) == seq![
            TokenEffect::Transferred { from: sender, to: receiver, amount: amount, memo: memo },
            TokenEffect::IncreaseEarnings { user: receiver, amount: amount },
        ],
        after@.balances == moved(before@.balances, sender, receiver, amount),
{
    assert(transfer_effects(before@, sender, receiver, amount, memo) =~= seq![
        TokenEffect::Transferred { from: sender, to: receiver, amount: amount, memo: memo },
        TokenEffect::IncreaseEarnings { user: receiver, amount: amount },
    ]);
}

/// Once the AERX contract agreed to the earnings decrease, a valid plain
/// transfer or `send_aex` to a receiver that is not an AERX user moves the
/// amount and answers at once with the transfer event alone.
pub proof fn lemma_settled_plain_transfer(
    before: &Aex,
    after: &Aex,
    sender: Seq<char>,
    receiver: Seq<char>,
    amount: u128,
    memo: Option<Seq<char>>,
    msg: Option<Seq<char>>,
    method: TransferMethod,
    r: Result<(TransferReply, Vec<TokenAction>), TokenError>,
)
    requires
        decrease_settled(before, after, sender, receiver, amount, memo, msg, method, Some(true), r),
        transfer_refusal(before@, sender, receiver, amount) is None,
        !before@.aerx_users.contains(receiver),
        method != TransferMethod::FtTransferCall,
    ensures
        r matches Ok((reply, actions)) && reply == TransferReply::Value(0) && effects(actions@) == seq![
            TokenEffect::Transferred { from: sender, to: receiver, amount: amount, memo: memo },
        ],
        after@.balances == moved(before@.balances, sender, receiver, amount),
{
    assert(transfer_effects(before@, sender, receiver, amount, memo) =~= seq![
        TokenEffect::Transferred { from: sender, to: receiver, amount: amount, memo: memo },
    ]);
}

/// How a transfer-and-call settles once the receiver reported the
/// `unused` part: `old` and `new` are the contract before and after, `r`
/// the amount used and the actions.
pub open spec fn transfer_call_settled(
    old: &Aex,
    new: &Aex,
    sender: Seq<char>,
    receiver: Seq<char>,
    amount: u128,
    unused: Option<u128>,
    r: (u128, Vec<TokenAction>),
) -> bool {
    let v = old@;
    let unused_amount = resolved_unused(unused, amount);
    let rb = balance_in(v.balances, receiver);
    let refund = if rb < unused_amount {
        rb
    } else {
        unused_amount
    };
    &&& new@.owner == v.owner && new@.aerx_users == v.aerx_users && new@.aerx == v.aerx
    &&& new@.aeswap == v.aeswap && new@.account_storage_usage == v.account_storage_usage
    &&& new@.byte_cost == v.byte_cost && new@.metadata == v.metadata
    &&& if unused_amount == 0 || rb == 0 {
        r.0 == amount && *new == *old && r.1@.len() == 0
    } else if v.balances.dom().contains(sender) {
        let after = v.balances.insert(receiver, (rb - refund) as u128);
        &&& r.0 == amount - refund
        &&& new@.balances == after.insert(sender, (balance_in(after, sender) + refund) as u128)
        &&& new@.supply == v.supply
        &&& effects(r.1@) == seq![
            TokenEffect::Transferred {
                from: receiver,
                to: sender,
                amount: refund,
                memo: Some("refund"@),
            },
        ]
    } else {
        &&& r.0 == amount
        &&& new@.balances == v.balances.insert(receiver, (rb - refund) as u128)
        &&& new@.supply == v.supply - refund
        &&& effects(r.1@) == seq![TokenEffect::Burned { owner: receiver, amount: refund, memo: "refund"@ }]
    }
}

/// Why closing the registered account `pred` is refused, if it is: a
/// positive balance needs `force`, and the refund must fit in a `u128`.
pub open spec fn closure_refusal(v: AexView, pred: Seq<char>, force: Option<bool>) -> Option<TokenError> {
    if v.balances[pred] > 0 && force != Some(true) {
        Some(TokenError::PositiveBalance)
    } else if min_storage(v) + 1 > u128::MAX {
        Some(TokenError::StorageCostOverflow)
    } else {
        None
    }
}

/// The state once the account `pred` is closed: it is removed and its
/// balance is burned, so the supply falls by that balance.
pub open spec fn closed_account(v: AexView, pred: Seq<char>) -> AexView {
    AexView {
        balances: v.balances.remove(pred),
        supply: (v.supply - v.balances[pred]) as u128,
        ..v
    }
}

/// What closing the account `pred` reports: the burn of a positive
/// balance, then the storage deposit plus one yoctoNEAR paid to the AERX
/// contract for an AERX user and to the account itself otherwise.
pub open spec fn closure_effects(v: AexView, pred: Seq<char>) -> Seq<TokenEffect> {
    let bal = v.balances[pred];
    (if bal > 0 {
        seq![TokenEffect::Burned { owner: pred, amount: bal, memo: "Account Closure"@ }]
    } else {
        Seq::<TokenEffect>::empty()
    }) + seq![
        TokenEffect::Pay {
            to: if v.aerx_users.contains(pred) {
                v.aerx
            } else {
                pred
            },
            amount: (min_storage(v) + 1) as u128,
        },
    ]
}

/// Closing an account pays back the storage deposit plus one yoctoNEAR as
/// its last action: to the AERX contract when the account is an AERX user
/// (the AERX contract paid its storage), and to the account itself
/// otherwise; before that, a positive balance is burned.
pub proof fn lemma_closure_refund_recipient(v: AexView, pred: Seq<char>)
    ensures
        closure_effects(v, pred).len() == (if v.balances[pred] > 0 { 2int } else { 1int }),
        v.aerx_users.contains(pred) ==> closure_effects(v, pred).last() == (TokenEffect::Pay {
            to: v.aerx,
            amount: (min_storage(v) + 1) as u128,
        }),
        !v.aerx_users.contains(pred) ==> closure_effects(v, pred).last() == (TokenEffect::Pay {
            to: pred,
            amount: (min_storage(v) + 1) as u128,
        }),
        v.balances[pred] > 0 ==> closure_effects(v, pred)[0] == (TokenEffect::Burned {
            owner: pred,
            amount: v.balances[pred],
            memo: "Account Closure"@,
        }),
{
}

/// Settling a transfer-and-call gives back to the sender what the
/// receiver did not use, as far as the receiver still holds it: the
/// amount reported used plus what went back is the whole amount, what went
/// back is at most what was unused, the receiver loses exactly that and
/// the sender gains exactly that, and the supply stays as it was.
pub proof fn lemma_transfer_call_refund(
    before: &Aex,
    after: &Aex,
    sender: Seq<char>,
    receiver: Seq<char>,
    amount: u128,
    unused: Option<u128>,
    r: (u128, Vec<TokenAction>),
)
    requires
        transfer_call_settled(before, after, sender, receiver, amount, unused, r),
        supply_is_sum(before@),
        before@.balances.dom().contains(sender),
        sender != receiver,
    ensures
        r.0 <= amount,
        amount - r.0 <= resolved_unused(unused, amount),
        amount - r.0 <= balance_in(before@.balances, receiver),
        balance_in(after@.balances, receiver) == balance_in(before@.balances, receiver) - (amount - r.0),
        balance_in(after@.balances, sender) == balance_in(before@.balances, sender) + (amount - r.0),
        after@.supply == before@.supply,
{
    lemma_two_balances_le_supply(before@, sender, receiver);
}

/// The token contract's state as plain values, for storing it between calls.
pub struct AexParts {
    pub accounts: Vec<(String, u128)>,
    pub total_supply: u128,
    pub owner_id: String,
    pub aerx_users: Vec<String>,
    pub aerx_contract_id: String,
    pub aeswap_contract_id: String,
    pub account_storage_usage: u64,
    pub storage_byte_cost: u128,
    pub metadata: FtContractMetadata,
}

/// Stored state that the contract can resume from: no account or AERX
/// user occurs twice, and the supply is the sum of the balances.
pub open spec fn aex_parts_valid(p: AexParts) -> bool {
    &&& keys_distinct(entry_views(p.accounts@))
    &&& pairs_sum(entry_views(p.accounts@)) == p.total_supply
    &&& texts(p.aerx_users@).no_duplicates()
}

/// The state that stored parts describe.
pub open spec fn aex_parts_view(p: AexParts) -> AexView {
    AexView {
        balances: pairs_map(entry_views(p.accounts@)),
        supply: p.total_supply,
        owner: p.owner_id@,
        aerx_users: texts(p.aerx_users@).to_set(),
        aerx: p.aerx_contract_id@,
        aeswap: p.aeswap_contract_id@,
        account_storage_usage: p.account_storage_usage,
        byte_cost: p.storage_byte_cost,
        metadata: p.metadata@,
    }
}

/// The fungible token contract.
pub struct Aex {
    ledger: Ledger,
    owner_id: String,
    aerx_users: StrSet,
    aerx_contract_id: String,
    aeswap_contract_id: String,
    account_storage_usage: u64,
    storage_byte_cost: u128,
    metadata: FtContractMetadata,
}

impl View for Aex {
    type V = AexView;

    closed spec fn view(&self) -> AexView {
        AexView {
            balances: self.ledger.balances(),
            supply: self.ledger.supply(),
            owner: self.owner_id@,
            aerx_users: self.aerx_users.set(),
            aerx: self.aerx_contract_id@,
            aeswap: self.aeswap_contract_id@,
            account_storage_usage: self.account_storage_usage,
            byte_cost: self.storage_byte_cost,
            metadata: self.metadata@,
        }
    }
}

impl Aex {
    /// The ledger keeps its supply equal to the sum of balances and the
    /// user set has no repetition.
    pub closed spec fn wf(&self) -> bool {
        &&& self.ledger.wf()
        &&& self.aerx_users.wf()
    }

    /// The state as plain values, for storing it: parts the contract can
    /// resume from, describing this very state.
    pub fn into_parts(self) -> (r: AexParts)
        requires
            self.wf(),
        ensures
            aex_parts_valid(r),
            aex_parts_view(r) == self@,
    {
        let ghost v = self@;
        let (accounts, total_supply) = self.ledger.into_accounts();
        let aerx_users = self.aerx_users.into_items();
        let r = AexParts {
            accounts,
            total_supply,
            owner_id: self.owner_id,
            aerx_users,
            aerx_contract_id: self.aerx_contract_id,
            aeswap_contract_id: self.aeswap_contract_id,
            account_storage_usage: self.account_storage_usage,
            storage_byte_cost: self.storage_byte_cost,
            metadata: self.metadata,
        };
        assert(aex_parts_view(r) == v);
        r
    }

    /// Resumes the contract from stored parts; refused unless they are
    /// valid.
    pub fn from_parts(p: AexParts) -> (r: Result<Aex, TokenError>)
        ensures
            r is Ok <==> aex_parts_valid(p),
            r is Err ==> r == Err::<Aex, TokenError>(TokenError::CorruptState),
            r matches Ok(a) ==> a.wf() && a@ == aex_parts_view(p),
    {
        let ghost view = aex_parts_view(p);
        let ghost valid = aex_parts_valid(p);
        let AexParts {
            accounts,
            total_supply,
            owner_id,
            aerx_users,
            aerx_contract_id,
            aeswap_contract_id,
            account_storage_usage,
            storage_byte_cost,
            metadata,
        } = p;
        let ledger = match Ledger::from_accounts(accounts, total_supply) {
            Some(l) => l,
            None => {
                return Err(TokenError::CorruptState);
            },
        };
        let users = match StrSet::from_items(aerx_users) {
            Some(u) => u,
            None => {
                return Err(TokenError::CorruptState);
            },
        };
        let a = Aex {
            ledger,
            owner_id,
            aerx_users: users,
            aerx_contract_id,
            aeswap_contract_id,
            account_storage_usage,
            storage_byte_cost,
            metadata,
        };
        assert(a@ == view);
        Ok(a)
    }

    /// In every state the contract reaches, the supply is the sum of the
    /// balances.
    pub proof fn lemma_supply_is_sum(&self)
        requires
            self.wf(),
        ensures
            supply_is_sum(self@),
    {
        self.ledger.lemma_supply_is_sum();
        let s = self.ledger.accounts_in_order();
        assert(keys_distinct(s) && pairs_map(s) == self@.balances && pairs_sum(s) == self@.supply);
    }

    /// No account holds more than the total supply.
    pub proof fn lemma_balance_le_supply(&self, id: Seq<char>)
        requires
            self.wf(),
        ensures
            balance_in(self@.balances, id) <= self@.supply,
    {
        self.ledger.lemma_balance_le_supply(id);
    }

    /// Creates the contract (`new`): the metadata must be valid; registers
    /// the owner, the AERX contract and the AESWAP contract, which must
    /// differ, and credits the whole supply to the owner.
    /// `account_storage_usage` is the storage one account takes and
    /// `storage_byte_cost` the price of a byte of storage, as the runtime
    /// measures them.
    pub fn new(
        owner_id: String,
        total_supply: u128,
        metadata: FtContractMetadata,
        aerx_contract_id: String,
        aeswap_contract_id: String,
        account_storage_usage: u64,
        storage_byte_cost: u128,
    ) -> (r: Result<Aex, TokenError>)
        ensures
            !ft_metadata_valid(metadata@) ==> r == Err::<Aex, TokenError>(TokenError::InvalidMetadata),
            ft_metadata_valid(metadata@) ==> (r is Err <==> (owner_id@ == aerx_contract_id@ || owner_id@
                == aeswap_contract_id@ || aerx_contract_id@ == aeswap_contract_id@)),
            ft_metadata_valid(metadata@) && r is Err ==> r == Err::<Aex, TokenError>(
                TokenError::Ledger(LedgerError::AlreadyRegistered),
            ),
            r matches Ok(a) ==> a.wf() && a@ == (AexView {
                balances: Map::<Seq<char>, u128>::empty().insert(owner_id@, total_supply).insert(
                    aerx_contract_id@,
                    0,
                ).insert(aeswap_contract_id@, 0),
                supply: total_supply,
                owner: owner_id@,
                aerx_users: Set::<Seq<char>>::empty(),
                aerx: aerx_contract_id@,
                aeswap: aeswap_contract_id@,
                account_storage_usage: account_storage_usage,
                byte_cost: storage_byte_cost,
                metadata: metadata@,
            }),
    {
        if !metadata.is_valid() {
            return Err(TokenError::InvalidMetadata);
        }
        let mut ledger = Ledger::new();
        if ledger.register(&owner_id).is_err() {
            return Err(TokenError::Ledger(LedgerError::AlreadyRegistered));
        }
        if ledger.register(&aerx_contract_id).is_err() {
            return Err(TokenError::Ledger(LedgerError::AlreadyRegistered));
        }
        if ledger.register(&aeswap_contract_id).is_err() {
            return Err(TokenError::Ledger(LedgerError::AlreadyRegistered));
        }
        let d = ledger.deposit(&owner_id, total_supply);
        assert(d is Ok);
        let users = StrSet::new();
        let a = Aex {
            ledger,
            owner_id,
            aerx_users: users,
            aerx_contract_id,
            aeswap_contract_id,
            account_storage_usage,
            storage_byte_cost,
            metadata,
        };
        assert(a@.balances =~= Map::<Seq<char>, u128>::empty().insert(a@.owner, total_supply).insert(
            a@.aerx,
            0,
        ).insert(a@.aeswap, 0));
        assert(a@.aerx_users =~= Set::<Seq<char>>::empty());
        Ok(a)
    }

    /// Creates the contract with the default AEX metadata
    /// (`new_default_metadata`), as `new` does.
    pub fn new_default_metadata(
        owner_id: String,
        total_supply: u128,
        aerx_contract_id: String,
        aeswap_contract_id: String,
        account_storage_usage: u64,
        storage_byte_cost: u128,
    ) -> (r: Result<Aex, TokenError>)
        ensures
            r is Err <==> (owner_id@ == aerx_contract_id@ || owner_id@ == aeswap_contract_id@
                || aerx_contract_id@ == aeswap_contract_id@),
            r is Err ==> r == Err::<Aex, TokenError>(TokenError::Ledger(LedgerError::AlreadyRegistered)),
            r matches Ok(a) ==> a.wf() && a@ == (AexView {
                balances: Map::<Seq<char>, u128>::empty().insert(owner_id@, total_supply).insert(
                    aerx_contract_id@,
                    0,
                ).insert(aeswap_contract_id@, 0),
                supply: total_supply,
                owner: owner_id@,
                aerx_users: Set::<Seq<char>>::empty(),
                aerx: aerx_contract_id@,
                aeswap: aeswap_contract_id@,
                account_storage_usage: account_storage_usage,
                byte_cost: storage_byte_cost,
                metadata: FtMetadataView {
                    spec: crate::metadata::FT_METADATA_SPEC@,
                    name: "AEX TOKEN"@,
                    symbol: "AEX"@,
                    icon: Some(crate::metadata::AEX_ICON_URL@),
                    reference: None,
                    reference_hash: None,
                    decimals: 24,
                },
            }),
    {
        Self::new(
            owner_id,
            total_supply,
            FtContractMetadata::aex_default(),
            aerx_contract_id,
            aeswap_contract_id,
            account_storage_usage,
            storage_byte_cost,
        )
    }

    /// The contract metadata (`ft_metadata`).
    pub fn ft_metadata(&self) -> (r: FtContractMetadata)
        ensures
            r@ == self@.metadata,
    {
        self.metadata.duplicate()
    }

    /// The storage deposit an account needs, when it fits in a `u128`.
    pub fn min_storage_balance(&self) -> (r: Option<u128>)
        ensures
            match r {
                Some(m) => m == min_storage(self@),
                None => min_storage(self@) > u128::MAX,
            },
    {
        (self.account_storage_usage as u128).checked_mul(self.storage_byte_cost)
    }

    /// The storage deposit bounds of an account (`storage_balance_bounds`):
    /// both are the account's storage size times the price of a byte.
    pub fn storage_balance_bounds(&self) -> (r: Result<StorageBalanceBounds, TokenError>)
        ensures
            match r {
                Ok(b) => b.min == min_storage(self@) && b.max == min_storage(self@),
                Err(e) => e == TokenError::StorageCostOverflow && min_storage(self@) > u128::MAX,
            },
    {
        match self.min_storage_balance() {
            Some(m) => Ok(StorageBalanceBounds { min: m, max: m }),
            None => Err(TokenError::StorageCostOverflow),
        }
    }

    /// The storage deposit held for `account_id` (`storage_balance_of`):
    /// the minimum deposit, none of it available, for a registered account.
    pub fn storage_balance_of(&self, account_id: &String) -> (r: Result<Option<StorageBalance>, TokenError>)
        requires
            self.wf(),
        ensures
            !self@.balances.dom().contains(account_id@) ==> r == Ok::<Option<StorageBalance>, TokenError>(None),
            self@.balances.dom().contains(account_id@) ==> match r {
                Ok(Some(b)) => b.total == min_storage(self@) && b.available == 0,
                Ok(None) => false,
                Err(e) => e == TokenError::StorageCostOverflow && min_storage(self@) > u128::MAX,
            },
    {
        if self.ledger.is_registered(account_id) {
            match self.min_storage_balance() {
                Some(m) => Ok(Some(StorageBalance { total: m, available: 0 })),
                None => Err(TokenError::StorageCostOverflow),
            }
        } else {
            Ok(None)
        }
    }

    /// The contract owner (`get_owner`).
    pub fn get_owner(&self) -> (r: String)
        ensures
            r@ == self@.owner,
    {
        self.owner_id.clone()
    }

    /// The total supply (`ft_total_supply`).
    pub fn ft_total_supply(&self) -> (r: u128)
        ensures
            r == self@.supply,
    {
        self.ledger.total_supply()
    }

    /// The balance of `account_id`, zero when it is not registered (`ft_balance_of`).
    pub fn ft_balance_of(&self, account_id: &String) -> (r: u128)
        requires
            self.wf(),
        ensures
            r == balance_in(self@.balances, account_id@),
    {
        self.ledger.balance_of(account_id)
    }

    /// Whether `account_id` holds a registered account (`is_registered`).
    pub fn is_registered(&self, account_id: &String) -> (r: bool)
        requires
            self.wf(),
        ensures
            r == self@.balances.dom().contains(account_id@),
    {
        self.ledger.is_registered(account_id)
    }

    /// Whether `account_id` is an AERX user, rewarded or not.
    pub fn is_aerx_user(&self, account_id: &String) -> (r: bool)
        ensures
            r == self@.aerx_users.contains(account_id@),
    {
        self.aerx_users.contains(account_id)
    }

    /// Hands the contract to `new_owner_id`; only the owner may.
    pub fn change_owner_to(&mut self, predecessor: &String, new_owner_id: String) -> (r: Result<(), TokenError>)
        ensures
            predecessor@ != old(self)@.owner ==> r == Err::<(), TokenError>(TokenError::Unauthorized)
                && *final(self) == *old(self),
            predecessor@ == old(self)@.owner ==> r is Ok && final(self)@ == (AexView {
                owner: new_owner_id@,
                ..old(self)@
            }),
            final(self).wf() == old(self).wf(),
    {
        if *predecessor != self.owner_id {
            return Err(TokenError::Unauthorized);
        }
        self.owner_id = new_owner_id;
        Ok(())
    }

    /// Registers `account_id` if it is new, charging the AERX contract for
    /// its storage, and gives it the registration gift once; returns its
    /// balance (`register_and_reward_user`). Only the AERX contract may call.
    /// `record_cost` is the storage fee of recording an account among the
    /// AERX users, as the runtime measures it.
    pub fn register_and_reward_user(
        &mut self,
        predecessor: &String,
        account_id: String,
        attached_deposit: u128,
        record_cost: u128,
    ) -> (r: Result<(u128, Vec<TokenAction>), TokenError>)
        requires
            old(self).wf(),
        ensures
            final(self).wf(),
            register_reward_refusal(old(self)@, predecessor@, account_id@, attached_deposit, record_cost) matches Some(e)
                ==> r == Err::<(u128, Vec<TokenAction>), TokenError>(e) && *final(self) == *old(self),
            register_reward_refusal(old(self)@, predecessor@, account_id@, attached_deposit, record_cost) is None
                ==> (r matches Ok((bal, actions)) && {
                let v = old(self)@;
                let acc = account_id@;
                let registered = v.balances.dom().contains(acc);
                let gifted = v.aerx_users.contains(acc);
                let fee = min_storage(v) + record_fee(v, acc, record_cost);
                &&& final(self)@ == rewarded(v, acc)
                &&& bal == balance_in(rewarded(v, acc).balances, acc)
                &&& effects(actions@) == (if !registered {
                    pay_if_positive(v.aerx, attached_deposit - fee)
                } else {
                    pay_if_positive(v.aerx, attached_deposit as int)
                }) + (if gifted {
                    Seq::<TokenEffect>::empty()
                } else {
                    seq![
                        TokenEffect::Minted {
                            owner: acc,
                            amount: REGISTRATION_GIFT,
                            memo: "Aerx Registration gift"@,
                        },
                    ]
                })
            }),
    {
        if *predecessor != self.aerx_contract_id {
            return Err(TokenError::Unauthorized);
        }
        let gifted = self.aerx_users.contains(&account_id);
        let registered = self.ledger.is_registered(&account_id);
        let fee: u128 = if gifted { 0 } else { record_cost };
        let mut required: u128 = 0;
        if !registered {
            let min = match self.min_storage_balance() {
                Some(m) => m,
                None => {
                    return Err(TokenError::StorageCostOverflow);
                },
            };
            required = match min.checked_add(fee) {
                Some(x) => x,
                None => {
                    return Err(TokenError::StorageCostOverflow);
                },
            };
            if attached_deposit < required {
                return Err(TokenError::InsufficientDeposit);
            }
        }
        if !gifted {
            let bal = self.ledger.balance_of(&account_id);
            if bal > u128::MAX - REGISTRATION_GIFT {
                return Err(TokenError::Ledger(LedgerError::BalanceOverflow));
            }
            if self.ledger.total_supply() > u128::MAX - REGISTRATION_GIFT {
                return Err(TokenError::Ledger(LedgerError::TotalSupplyOverflow));
            }
        }
        let ghost v = self@;
        let mut actions: Vec<TokenAction> = Vec::new();
        if !registered {
            let reg = self.ledger.register(&account_id);
            assert(reg is Ok);
            let refund = attached_deposit - required;
            if refund > 0 {
                actions.push(TokenAction::Pay { to: self.aerx_contract_id.clone(), amount: refund });
            }
        } else if attached_deposit > 0 {
            actions.push(TokenAction::Pay { to: self.aerx_contract_id.clone(), amount: attached_deposit });
        }
        let ghost pays = effects(actions@);
        if !gifted {
            let dep = self.ledger.deposit(&account_id, REGISTRATION_GIFT);
            assert(dep is Ok);
            self.aerx_users.insert(account_id.clone());
            let memo = String::from_str("Aerx Registration gift");
            actions.push(TokenAction::Minted { owner: account_id.clone(), amount: REGISTRATION_GIFT, memo });
        } else {
            proof {
                assert(self.aerx_users.set() =~= self.aerx_users.set().insert(account_id@));
            }
        }
        let bal = self.ledger.balance_of(&account_id);
        assert(effects(actions@) =~= pays + (if gifted {
            Seq::<TokenEffect>::empty()
        } else {
            seq![
                TokenEffect::Minted {
                    owner: account_id@,
                    amount: REGISTRATION_GIFT,
                    memo: "Aerx Registration gift"@,
                },
            ]
        }));
        Ok((bal, actions))
    }

    /// Records an existing or new account as an AERX user that has not had
    /// the gift, registering it if needed and charging the AERX contract for
    /// the storage; returns the fee charged and the account's balance
    /// (`add_unrewarded_user`). Only the AERX contract may call.
    pub fn add_unrewarded_user(
        &mut self,
        predecessor: &String,
        account_id: String,
        attached_deposit: u128,
        record_cost: u128,
    ) -> (r: Result<(Vec<u128>, Vec<TokenAction>), TokenError>)
        requires
            old(self).wf(),
        ensures
            final(self).wf(),
            add_unrewarded_refusal(old(self)@, predecessor@, account_id@, attached_deposit, record_cost) matches Some(e)
                ==> r == Err::<(Vec<u128>, Vec<TokenAction>), TokenError>(e) && *final(self) == *old(self),
            add_unrewarded_refusal(old(self)@, predecessor@, account_id@, attached_deposit, record_cost) is None
                ==> (r matches Ok((out, actions)) && {
                let v = old(self)@;
                let acc = account_id@;
                let registered = v.balances.dom().contains(acc);
                let fee = if registered {
                    record_fee(v, acc, record_cost)
                } else {
                    min_storage(v) + record_fee(v, acc, record_cost)
                };
                &&& final(self)@ == (AexView {
                    balances: if registered { v.balances } else { v.balances.insert(acc, 0) },
                    aerx_users: v.aerx_users.insert(acc),
                    ..v
                })
                &&& out@ == seq![fee as u128, balance_in(v.balances, acc)]
                &&& effects(actions@) == pay_if_positive(v.aerx, attached_deposit - fee)
            }),
    {
        if *predecessor != self.aerx_contract_id {
            return Err(TokenError::Unauthorized);
        }
        let fee: u128 = if self.aerx_users.contains(&account_id) { 0 } else { record_cost };
        let registered = self.ledger.is_registered(&account_id);
        let total: u128;
        if registered {
            if attached_deposit < fee {
                return Err(TokenError::InsufficientDeposit);
            }
            total = fee;
        } else {
            let min = match self.min_storage_balance() {
                Some(m) => m,
                None => {
                    return Err(TokenError::StorageCostOverflow);
                },
            };
            total = match min.checked_add(fee) {
                Some(x) => x,
                None => {
                    return Err(TokenError::StorageCostOverflow);
                },
            };
            if attached_deposit < total {
                return Err(TokenError::InsufficientDeposit);
            }
            let reg = self.ledger.register(&account_id);
            assert(reg is Ok);
        }
        self.aerx_users.insert(account_id.clone());
        let mut actions: Vec<TokenAction> = Vec::new();
        let refund = attached_deposit - total;
        if refund > 0 {
            actions.push(TokenAction::Pay { to: self.aerx_contract_id.clone(), amount: refund });
        }
        let balance = self.ledger.balance_of(&account_id);
        let out = vec![total, balance];
        assert(out@ =~= seq![total, balance]);
        assert(effects(actions@) =~= pay_if_positive(self.aerx_contract_id@, attached_deposit - total));
        Ok((out, actions))
    }

    /// Mints `amount` to the owner (`mint_aex`); only the owner may call.
    /// Returns the amount minted.
    pub fn mint_aex(&mut self, predecessor: &String, amount: u128, memo: Option<String>) -> (r: Result<
        (u128, Vec<TokenAction>),
        TokenError,
    >)
        requires
            old(self).wf(),
        ensures
            final(self).wf(),
            predecessor@ != old(self)@.owner ==> r == Err::<(u128, Vec<TokenAction>), TokenError>(
                TokenError::Unauthorized,
            ) && *final(self) == *old(self),
            predecessor@ == old(self)@.owner ==> match deposit_outcome(
                old(self)@.balances,
                old(self)@.supply,
                predecessor@,
                amount,
            ) {
                Err(e) => r == Err::<(u128, Vec<TokenAction>), TokenError>(TokenError::Ledger(e))
                    && *final(self) == *old(self),
                Ok(_) => r matches Ok((minted, actions)) && minted == amount && final(self)@ == (
                AexView {
                    balances: old(self)@.balances.insert(
                        predecessor@,
                        (balance_in(old(self)@.balances, predecessor@) + amount) as u128,
                    ),
                    supply: (old(self)@.supply + amount) as u128,
                    ..old(self)@
                }) && effects(actions@) == seq![
                    TokenEffect::Minted {
                        owner: predecessor@,
                        amount: amount,
                        memo: match opt_view(memo) {
                            Some(m) => m,
                            None => Seq::<char>::empty(),
                        },
                    },
                ],
            },
    {
        if *predecessor != self.owner_id {
            return Err(TokenError::Unauthorized);
        }
        match self.ledger.deposit(predecessor, amount) {
            Err(e) => Err(TokenError::Ledger(e)),
            Ok(()) => {
                let memo_text = match memo {
                    Some(m) => m,
                    None => String::new(),
                };
                let mut actions: Vec<TokenAction> = Vec::new();
                actions.push(TokenAction::Minted { owner: predecessor.clone(), amount, memo: memo_text });
                assert(effects(actions@) =~= seq![
                    TokenEffect::Minted {
                        owner: predecessor@,
                        amount: amount,
                        memo: match opt_view(memo) {
                            Some(m) => m,
                            None => Seq::<char>::empty(),
                        },
                    },
                ]);
                Ok((amount, actions))
            },
        }
    }

    /// Mints `amount` to `receiver_id` for a swap (`mint_aex_for_swap`);
    /// only the AESWAP contract may call. An AERX user's earnings grow by
    /// the amount. Returns the amount minted.
    pub fn mint_aex_for_swap(
        &mut self,
        predecessor: &String,
        receiver_id: String,
        amount: u128,
        memo: Option<String>,
    ) -> (r: Result<(u128, Vec<TokenAction>), TokenError>)
        requires
            old(self).wf(),
        ensures
            final(self).wf(),
            predecessor@ != old(self)@.aeswap ==> r == Err::<(u128, Vec<TokenAction>), TokenError>(
                TokenError::Unauthorized,
            ) && *final(self) == *old(self),
            predecessor@ == old(self)@.aeswap ==> match deposit_outcome(
                old(self)@.balances,
                old(self)@.supply,
                receiver_id@,
                amount,
            ) {
                Err(e) => r == Err::<(u128, Vec<TokenAction>), TokenError>(TokenError::Ledger(e))
                    && *final(self) == *old(self),
                Ok(_) => r matches Ok((minted, actions)) && minted == amount && final(self)@ == (
                AexView {
                    balances: old(self)@.balances.insert(
                        receiver_id@,
                        (balance_in(old(self)@.balances, receiver_id@) + amount) as u128,
                    ),
                    supply: (old(self)@.supply + amount) as u128,
                    ..old(self)@
                }) && effects(actions@) == (if old(self)@.aerx_users.contains(receiver_id@) {
                    seq![TokenEffect::IncreaseEarnings { user: receiver_id@, amount: amount }]
                } else {
                    Seq::<TokenEffect>::empty()
                }) + seq![
                    TokenEffect::Minted {
                        owner: receiver_id@,
                        amount: amount,
                        memo: match opt_view(memo) {
                            Some(m) => m,
                            None => Seq::<char>::empty(),
                        },
                    },
                ],
            },
    {
        if *predecessor != self.aeswap_contract_id {
            return Err(TokenError::Unauthorized);
        }
        match self.ledger.deposit(&receiver_id, amount) {
            Err(e) => Err(TokenError::Ledger(e)),
            Ok(()) => {
                let mut actions: Vec<TokenAction> = Vec::new();
                if self.aerx_users.contains(&receiver_id) {
                    actions.push(TokenAction::IncreaseEarnings { user: receiver_id.clone(), amount });
                }
                let ghost first = effects(actions@);
                let memo_text = match memo {
                    Some(m) => m,
                    None => String::new(),
                };
                actions.push(TokenAction::Minted { owner: receiver_id, amount, memo: memo_text });
                assert(effects(actions@) =~= first + seq![
                    TokenEffect::Minted {
                        owner: receiver_id@,
                        amount: amount,
                        memo: match opt_view(memo) {
                            Some(m) => m,
                            None => Seq::<char>::empty(),
                        },
                    },
                ]);
                Ok((amount, actions))
            },
        }
    }

    /// Burns `amount` from the owner's balance (`burn_aex`); only the owner
    /// may call. Returns the amount burned.
    pub fn burn_aex(&mut self, predecessor: &String, amount: u128, memo: Option<String>) -> (r: Result<
        (u128, Vec<TokenAction>),
        TokenError,
    >)
        requires
            old(self).wf(),
        ensures
            final(self).wf(),
            predecessor@ != old(self)@.owner ==> r == Err::<(u128, Vec<TokenAction>), TokenError>(
                TokenError::Unauthorized,
            ) && *final(self) == *old(self),
            predecessor@ == old(self)@.owner ==> match withdraw_outcome(
                old(self)@.balances,
                predecessor@,
                amount,
            ) {
                Err(e) => r == Err::<(u128, Vec<TokenAction>), TokenError>(TokenError::Ledger(e))
                    && *final(self) == *old(self),
                Ok(_) => r matches Ok((burned, actions)) && burned == amount && final(self)@ == (
                AexView {
                    balances: old(self)@.balances.insert(
                        predecessor@,
                        (balance_in(old(self)@.balances, predecessor@) - amount) as u128,
                    ),
                    supply: (old(self)@.supply - amount) as u128,
                    ..old(self)@
                }) && effects(actions@) == seq![
                    TokenEffect::Burned {
                        owner: predecessor@,
                        amount: amount,
                        memo: match opt_view(memo) {
                            Some(m) => m,
                            None => Seq::<char>::empty(),
                        },
                    },
                ],
            },
    {
        if *predecessor != self.owner_id {
            return Err(TokenError::Unauthorized);
        }
        match self.ledger.withdraw(predecessor, amount) {
            Err(e) => Err(TokenError::Ledger(e)),
            Ok(()) => {
                let memo_text = match memo {
                    Some(m) => m,
                    None => String::new(),
                };
                let mut actions: Vec<TokenAction> = Vec::new();
                actions.push(TokenAction::Burned { owner: predecessor.clone(), amount, memo: memo_text });
                assert(effects(actions@) =~= seq![
                    TokenEffect::Burned {
                        owner: predecessor@,
                        amount: amount,
                        memo: match opt_view(memo) {
                            Some(m) => m,
                            None => Seq::<char>::empty(),
                        },
                    },
                ]);
                Ok((amount, actions))
            },
        }
    }

    /// Moves `amount` from `sender` to `receiver` on the ledger, reports the
    /// transfer and, when the receiver is an AERX user, its new earnings.
    fn internal_transfer(&mut self, sender: &String, receiver: &String, amount: u128, memo: Option<String>) -> (r:
        Result<Vec<TokenAction>, TokenError>)
        requires
            old(self).wf(),
        ensures
            final(self).wf(),
            match transfer_refusal(old(self)@, sender@, receiver@, amount) {
                Some(e) => r == Err::<Vec<TokenAction>, TokenError>(e) && *final(self) == *old(self),
                None => r matches Ok(actions) && final(self)@ == (AexView {
                    balances: moved(old(self)@.balances, sender@, receiver@, amount),
                    ..old(self)@
                }) && effects(actions@) == transfer_effects(old(self)@, sender@, receiver@, amount, opt_view(memo)),
            },
            transfer_refusal(old(self)@, sender@, receiver@, amount) is None ==> moved_exactly(
                old(self)@.balances,
                final(self)@.balances,
                sender@,
                receiver@,
                amount,
            ),
    {
        proof {
            if sender@ != receiver@ {
                self.ledger.lemma_two_balances_le_supply(sender@, receiver@);
            }
        }
        match self.ledger.transfer(sender, receiver, amount) {
            Err(e) => Err(TokenError::Ledger(e)),
            Ok(()) => {
                let mut actions: Vec<TokenAction> = Vec::new();
                actions.push(TokenAction::Transferred { from: sender.clone(), to: receiver.clone(), amount, memo });
                if self.aerx_users.contains(receiver) {
                    actions.push(TokenAction::IncreaseEarnings { user: receiver.clone(), amount });
                }
                assert(effects(actions@) =~= transfer_effects(old(self)@, sender@, receiver@, amount, opt_view(memo)));
                Ok(actions)
            },
        }
    }

    /// Transfers `amount` from the caller to `receiver_id` (`ft_transfer`).
    /// The call must carry one yoctoNEAR. A caller that is an AERX user
    /// first has its earnings decreased by the AERX contract; the transfer
    /// then happens in `resolve_decrease_earning`.
    pub fn ft_transfer(
        &mut self,
        predecessor: &String,
        receiver_id: String,
        amount: u128,
        memo: Option<String>,
        attached_deposit: u128,
    ) -> (r: Result<Vec<TokenAction>, TokenError>)
        requires
            old(self).wf(),
        ensures
            final(self).wf(),
            attached_deposit != 1 ==> r == Err::<Vec<TokenAction>, TokenError>(TokenError::RequiresOneYocto)
                && *final(self) == *old(self),
            attached_deposit == 1 && old(self)@.aerx_users.contains(predecessor@) ==> (r matches Ok(actions)
                && *final(self) == *old(self) && effects(actions@) == seq![
                TokenEffect::DecreaseEarningThenResolve {
                    sender: predecessor@,
                    receiver: receiver_id@,
                    amount: amount,
                    memo: opt_view(memo),
                    msg: None,
                    method: TransferMethod::FtTransfer,
                },
            ]),
            attached_deposit == 1 && !old(self)@.aerx_users.contains(predecessor@) ==> match transfer_refusal(
                old(self)@,
                predecessor@,
                receiver_id@,
                amount,
            ) {
                Some(e) => r == Err::<Vec<TokenAction>, TokenError>(e) && *final(self) == *old(self),
                None => r matches Ok(actions) && final(self)@ == (AexView {
                    balances: moved(old(self)@.balances, predecessor@, receiver_id@, amount),
                    ..old(self)@
                }) && effects(actions@) == transfer_effects(
                    old(self)@,
                    predecessor@,
                    receiver_id@,
                    amount,
                    opt_view(memo),
                ),
            },
            attached_deposit == 1 && !old(self)@.aerx_users.contains(predecessor@) && transfer_refusal(
                old(self)@,
                predecessor@,
                receiver_id@,
                amount,
            ) is None ==> moved_exactly(
                old(self)@.balances,
                final(self)@.balances,
                predecessor@,
                receiver_id@,
                amount,
            ),
    {
        if attached_deposit != 1 {
            return Err(TokenError::RequiresOneYocto);
        }
        if !self.aerx_users.contains(predecessor) {
            self.internal_transfer(predecessor, &receiver_id, amount, memo)
        } else {
            let mut actions: Vec<TokenAction> = Vec::new();
            actions.push(
                TokenAction::DecreaseEarningThenResolve {
                    sender: predecessor.clone(),
                    receiver: receiver_id,
                    amount,
                    memo,
                    msg: None,
                    method: TransferMethod::FtTransfer,
                },
            );
            assert(effects(actions@) =~= seq![
                TokenEffect::DecreaseEarningThenResolve {
                    sender: predecessor@,
                    receiver: receiver_id@,
                    amount: amount,
                    memo: opt_view(memo),
                    msg: None,
                    method: TransferMethod::FtTransfer,
                },
            ]);
            Ok(actions)
        }
    }

    /// Transfers `amount` from the caller to the AESWAP contract and lets it
    /// react (`ft_transfer_call`). The call must carry one yoctoNEAR and more
    /// gas than `GAS_FOR_FT_TRANSFER_CALL`. A caller that is an AERX user
    /// first has its earnings decreased; the transfer then happens in
    /// `resolve_decrease_earning`.
    pub fn ft_transfer_call(
        &mut self,
        predecessor: &String,
        receiver_id: String,
        amount: u128,
        memo: Option<String>,
        msg: String,
        attached_deposit: u128,
        prepaid_gas: u64,
    ) -> (r: Result<Vec<TokenAction>, TokenError>)
        requires
            old(self).wf(),
        ensures
            final(self).wf(),
            r is Err ==> *final(self) == *old(self),
            attached_deposit != 1 ==> r == Err::<Vec<TokenAction>, TokenError>(TokenError::RequiresOneYocto),
            attached_deposit == 1 && receiver_id@ != old(self)@.aeswap ==> r == Err::<
                Vec<TokenAction>,
                TokenError,
            >(TokenError::UnsupportedReceiver),
            attached_deposit == 1 && receiver_id@ == old(self)@.aeswap && prepaid_gas <= GAS_FOR_FT_TRANSFER_CALL
                ==> r == Err::<Vec<TokenAction>, TokenError>(TokenError::NotEnoughGas),
            attached_deposit == 1 && receiver_id@ == old(self)@.aeswap && prepaid_gas > GAS_FOR_FT_TRANSFER_CALL
                && old(self)@.aerx_users.contains(predecessor@) ==> (r matches Ok(actions) && *final(self)
                == *old(self) && effects(actions@) == seq![
                TokenEffect::DecreaseEarningThenResolve {
                    sender: predecessor@,
                    receiver: receiver_id@,
                    amount: amount,
                    memo: opt_view(memo),
                    msg: Some(msg@),
                    method: TransferMethod::FtTransferCall,
                },
            ]),
            attached_deposit == 1 && receiver_id@ == old(self)@.aeswap && prepaid_gas > GAS_FOR_FT_TRANSFER_CALL
                && !old(self)@.aerx_users.contains(predecessor@) ==> match transfer_refusal(
                old(self)@,
                predecessor@,
                receiver_id@,
                amount,
            ) {
                Some(e) => r == Err::<Vec<TokenAction>, TokenError>(e),
                None => r matches Ok(actions) && final(self)@ == (AexView {
                    balances: moved(old(self)@.balances, predecessor@, receiver_id@, amount),
                    ..old(self)@
                }) && effects(actions@) == seq![
                    TokenEffect::Transferred {
                        from: predecessor@,
                        to: receiver_id@,
                        amount: amount,
                        memo: opt_view(memo),
                    },
                    TokenEffect::CallReceiverThenResolve {
                        sender: predecessor@,
                        receiver: receiver_id@,
                        amount: amount,
                        msg: msg@,
                    },
                ],
            },
    {
        if attached_deposit != 1 {
            return Err(TokenError::RequiresOneYocto);
        }
        if receiver_id != self.aeswap_contract_id {
            return Err(TokenError::UnsupportedReceiver);
        }
        if prepaid_gas <= GAS_FOR_FT_TRANSFER_CALL {
            return Err(TokenError::NotEnoughGas);
        }
        let mut actions: Vec<TokenAction> = Vec::new();
        if self.aerx_users.contains(predecessor) {
            actions.push(
                TokenAction::DecreaseEarningThenResolve {
                    sender: predecessor.clone(),
                    receiver: receiver_id,
                    amount,
                    memo,
                    msg: Some(msg),
                    method: TransferMethod::FtTransferCall,
                },
            );
            assert(effects(actions@) =~= seq![
                TokenEffect::DecreaseEarningThenResolve {
                    sender: predecessor@,
                    receiver: receiver_id@,
                    amount: amount,
                    memo: opt_view(memo),
                    msg: Some(msg@),
                    method: TransferMethod::FtTransferCall,
                },
            ]);
            Ok(actions)
        } else {
            match self.ledger.transfer(predecessor, &receiver_id, amount) {
                Err(e) => Err(TokenError::Ledger(e)),
                Ok(()) => {
                    actions.push(
                        TokenAction::Transferred {
                            from: predecessor.clone(),
                            to: receiver_id.clone(),
                            amount,
                            memo,
                        },
                    );
                    actions.push(
                        TokenAction::CallReceiverThenResolve {
                            sender: predecessor.clone(),
                            receiver: receiver_id,
                            amount,
                            msg,
                        },
                    );
                    assert(effects(actions@) =~= seq![
                        TokenEffect::Transferred {
                            from: predecessor@,
                            to: receiver_id@,
                            amount: amount,
                            memo: opt_view(memo),
                        },
                        TokenEffect::CallReceiverThenResolve {
                            sender: predecessor@,
                            receiver: receiver_id@,
                            amount: amount,
                            msg: msg@,
                        },
                    ]);
                    Ok(actions)
                },
            }
        }
    }

    /// Moves `amount` from the AERX user `sender_id` to `receiver_id` on
    /// behalf of the AERX or AESWAP contract (`send_aex`); returns the
    /// sender's balance afterwards. When AESWAP asks, the sender's earnings
    /// are decreased first and the transfer happens in
    /// `resolve_decrease_earning`.
    pub fn send_aex(
        &mut self,
        predecessor: &String,
        sender_id: String,
        receiver_id: String,
        amount: u128,
        memo: Option<String>,
    ) -> (r: Result<(u128, Vec<TokenAction>), TokenError>)
        requires
            old(self).wf(),
        ensures
            final(self).wf(),
            r is Err ==> *final(self) == *old(self),
            predecessor@ != old(self)@.aerx && predecessor@ != old(self)@.aeswap ==> r == Err::<
                (u128, Vec<TokenAction>),
                TokenError,
            >(TokenError::Unauthorized),
            (predecessor@ == old(self)@.aerx || predecessor@ == old(self)@.aeswap)
                && !old(self)@.aerx_users.contains(sender_id@) ==> r == Err::<
                (u128, Vec<TokenAction>),
                TokenError,
            >(TokenError::NotAerxUser),
            predecessor@ == old(self)@.aeswap && old(self)@.aerx_users.contains(sender_id@) ==> (r matches Ok(
                (bal, actions),
            ) && *final(self) == *old(self) && bal == balance_in(old(self)@.balances, sender_id@)
                && effects(actions@) == seq![
                TokenEffect::DecreaseEarningThenResolve {
                    sender: sender_id@,
                    receiver: receiver_id@,
                    amount: amount,
                    memo: opt_view(memo),
                    msg: None,
                    method: TransferMethod::SendAex,
                },
            ]),
            predecessor@ == old(self)@.aerx && predecessor@ != old(self)@.aeswap && old(
                self,
            )@.aerx_users.contains(sender_id@) ==> match transfer_refusal(
                old(self)@,
                sender_id@,
                receiver_id@,
                amount,
            ) {
                Some(e) => r == Err::<(u128, Vec<TokenAction>), TokenError>(e),
                None => r matches Ok((bal, actions)) && final(self)@ == (AexView {
                    balances: moved(old(self)@.balances, sender_id@, receiver_id@, amount),
                    ..old(self)@
                }) && bal == balance_in(final(self)@.balances, sender_id@) && effects(actions@)
                    == transfer_effects(old(self)@, sender_id@, receiver_id@, amount, opt_view(memo)),
            },
            predecessor@ == old(self)@.aerx && predecessor@ != old(self)@.aeswap && old(
                self,
            )@.aerx_users.contains(sender_id@) && transfer_refusal(
                old(self)@,
                sender_id@,
                receiver_id@,
                amount,
            ) is None ==> moved_exactly(
                old(self)@.balances,
                final(self)@.balances,
                sender_id@,
                receiver_id@,
                amount,
            ),
    {
        if *predecessor != self.aerx_contract_id && *predecessor != self.aeswap_contract_id {
            return Err(TokenError::Unauthorized);
        }
        if !self.aerx_users.contains(&sender_id) {
            return Err(TokenError::NotAerxUser);
        }
        if *predecessor == self.aeswap_contract_id {
            let bal = self.ledger.balance_of(&sender_id);
            let mut actions: Vec<TokenAction> = Vec::new();
            actions.push(
                TokenAction::DecreaseEarningThenResolve {
                    sender: sender_id,
                    receiver: receiver_id,
                    amount,
                    memo,
                    msg: None,
                    method: TransferMethod::SendAex,
                },
            );
            assert(effects(actions@) =~= seq![
                TokenEffect::DecreaseEarningThenResolve {
                    sender: sender_id@,
                    receiver: receiver_id@,
                    amount: amount,
                    memo: opt_view(memo),
                    msg: None,
                    method: TransferMethod::SendAex,
                },
            ]);
            Ok((bal, actions))
        } else {
            let actions = self.internal_transfer(&sender_id, &receiver_id, amount, memo)?;
            let bal = self.ledger.balance_of(&sender_id);
            Ok((bal, actions))
        }
    }

    /// Continues a transfer held for the earnings check once the AERX
    /// contract has answered `answer` (`None` when the answer was not a
    /// boolean). On `true` the transfer happens; a receiver that is an AERX
    /// user then earns the amount, and the AESWAP contract is called for a
    /// transfer-and-call.
    pub fn settle_decrease_earning(
        &mut self,
        sender_id: String,
        receiver_id: String,
        amount: u128,
        memo: Option<String>,
        msg: Option<String>,
        method: TransferMethod,
        answer: Option<bool>,
    ) -> (r: Result<(TransferReply, Vec<TokenAction>), TokenError>)
        requires
            old(self).wf(),
        ensures
            final(self).wf(),
            decrease_settled(
                old(self),
                final(self),
                sender_id@,
                receiver_id@,
                amount,
                opt_view(memo),
                opt_view(msg),
                method,
                answer,
                r,
            ),
            answer == Some(true) && transfer_refusal(old(self)@, sender_id@, receiver_id@, amount) is None
                && msg is Some ==> (r matches Ok((reply, actions)) && (reply == TransferReply::Pending <==> (!old(
                self,
            )@.aerx_users.contains(receiver_id@) && method == TransferMethod::FtTransferCall))),
    {
        match answer {
            None => {
                return Err(TokenError::UnreadableReply);
            },
            Some(false) => {
                return Err(TokenError::EarningsRefused);
            },
            Some(true) => {},
        }
        if let Err(e) = self.ledger.check_transfer(&sender_id, &receiver_id, amount) {
            return Err(TokenError::Ledger(e));
        }
        let user_receiver = self.aerx_users.contains(&receiver_id);
        let calls_receiver = !user_receiver && method == TransferMethod::FtTransferCall;
        if calls_receiver && msg.is_none() {
            return Err(TokenError::MissingMessage);
        }
        let mut actions = self.internal_transfer(&sender_id, &receiver_id, amount, memo)?;
        if calls_receiver {
            let ghost first = effects(actions@);
            match msg {
                Some(m) => {
                    actions.push(
                        TokenAction::CallReceiverThenResolve {
                            sender: sender_id.clone(),
                            receiver: receiver_id.clone(),
                            amount,
                            msg: m,
                        },
                    );
                    assert(effects(actions@) =~= first + seq![
                        TokenEffect::CallReceiverThenResolve {
                            sender: sender_id@,
                            receiver: receiver_id@,
                            amount: amount,
                            msg: opt_view(msg)->Some_0,
                        },
                    ]);
                },
                None => {},
            }
            Ok((TransferReply::Pending, actions))
        } else {
            assert(effects(actions@) =~= effects(actions@) + Seq::<TokenEffect>::empty());
            Ok((TransferReply::Value(0), actions))
        }
    }

    /// The callback of the earnings check (`resolve_decrease_earning`):
    /// reads the AERX contract's answer and continues as
    /// `settle_decrease_earning` does. A failed call is refused.
    pub fn resolve_decrease_earning(
        &mut self,
        sender_id: String,
        receiver_id: String,
        amount: u128,
        memo: Option<String>,
        msg: Option<String>,
        method: TransferMethod,
        outcome: &CallOutcome,
    ) -> (r: Result<(TransferReply, Vec<TokenAction>), TokenError>)
        requires
            old(self).wf(),
        ensures
            final(self).wf(),
            r is Err ==> *final(self) == *old(self),
            *outcome == CallOutcome::Failure ==> r == Err::<(TransferReply, Vec<TokenAction>), TokenError>(
                TokenError::EarningsCallFailed,
            ),
            outcome matches CallOutcome::Success(bytes) ==> decrease_settled(
                old(self),
                final(self),
                sender_id@,
                receiver_id@,
                amount,
                opt_view(memo),
                opt_view(msg),
                method,
                json_bool(bytes@),
                r,
            ),
    {
        match outcome {
            CallOutcome::Failure => Err(TokenError::EarningsCallFailed),
            CallOutcome::Success(bytes) => {
                let answer = read_bool(bytes.as_slice());
                self.settle_decrease_earning(sender_id, receiver_id, amount, memo, msg, method, answer)
            },
        }
    }

    /// Settles a transfer-and-call once the receiver reported the `unused`
    /// part (`None` when it reported nothing readable): the ledger's NEP-141
    /// settlement, reported as a refund transfer or, when the sender's
    /// account is gone, as a burn. Returns the amount used.
    pub fn settle_transfer_call(
        &mut self,
        sender_id: &String,
        receiver_id: &String,
        amount: u128,
        unused: Option<u128>,
    ) -> (r: (u128, Vec<TokenAction>))
        requires
            old(self).wf(),
        ensures
            final(self).wf(),
            transfer_call_settled(old(self), final(self), sender_id@, receiver_id@, amount, unused, r),
    {
        let ghost v = self@;
        let (used, burned) = self.ledger.resolve_transfer(sender_id, receiver_id, amount, unused);
        let mut actions: Vec<TokenAction> = Vec::new();
        if burned > 0 {
            actions.push(
                TokenAction::Burned {
                    owner: receiver_id.clone(),
                    amount: burned,
                    memo: String::from_str("refund"),
                },
            );
        } else if used < amount {
            actions.push(
                TokenAction::Transferred {
                    from: receiver_id.clone(),
                    to: sender_id.clone(),
                    amount: amount - used,
                    memo: Some(String::from_str("refund")),
                },
            );
        }
        proof {
            let unused_amount = resolved_unused(unused, amount);
            let rb = balance_in(v.balances, receiver_id@);
            let refund = if rb < unused_amount { rb } else { unused_amount };
            if unused_amount == 0 || rb == 0 {
            } else if v.balances.dom().contains(sender_id@) {
                assert(effects(actions@) =~= seq![
                    TokenEffect::Transferred {
                        from: receiver_id@,
                        to: sender_id@,
                        amount: refund,
                        memo: Some("refund"@),
                    },
                ]);
            } else {
                assert(effects(actions@) =~= seq![
                    TokenEffect::Burned { owner: receiver_id@, amount: refund, memo: "refund"@ },
                ]);
            }
        }
        (used, actions)
    }

    /// The callback of a transfer-and-call (`ft_resolve_transfer`): reads
    /// the unused amount the receiver returned (a failed call returned
    /// nothing) and settles as `settle_transfer_call` does.
    pub fn ft_resolve_transfer(
        &mut self,
        sender_id: &String,
        receiver_id: &String,
        amount: u128,
        outcome: &CallOutcome,
    ) -> (r: (u128, Vec<TokenAction>))
        requires
            old(self).wf(),
        ensures
            final(self).wf(),
            transfer_call_settled(
                old(self),
                final(self),
                sender_id@,
                receiver_id@,
                amount,
                match *outcome {
                    CallOutcome::Success(bytes) => json_u128_text(bytes@),
                    CallOutcome::Failure => None,
                },
                r,
            ),
    {
        let unused = match outcome {
            CallOutcome::Success(bytes) => read_u128_text(bytes.as_slice()),
            CallOutcome::Failure => None,
        };
        self.settle_transfer_call(sender_id, receiver_id, amount, unused)
    }

    /// Registers storage for `account_id`, or the caller when it names none
    /// (`storage_deposit`). A new account pays the minimum deposit and gets
    /// the rest back; an existing one gets the whole deposit back. Returns
    /// the account's storage balance.
    pub fn storage_deposit(
        &mut self,
        predecessor: &String,
        account_id: Option<String>,
        attached_deposit: u128,
    ) -> (r: Result<(StorageBalance, Vec<TokenAction>), TokenError>)
        requires
            old(self).wf(),
        ensures
            final(self).wf(),
            r is Err ==> *final(self) == *old(self),
            min_storage(old(self)@) > u128::MAX ==> r == Err::<(StorageBalance, Vec<TokenAction>), TokenError>(
                TokenError::StorageCostOverflow,
            ),
            min_storage(old(self)@) <= u128::MAX ==> ({
                let v = old(self)@;
                let acc = match account_id {
                    Some(a) => a@,
                    None => predecessor@,
                };
                if v.balances.dom().contains(acc) {
                    r matches Ok((b, actions)) && *final(self) == *old(self) && b == (StorageBalance {
                        total: min_storage(v) as u128,
                        available: 0,
                    }) && effects(actions@) == pay_if_positive(predecessor@, attached_deposit as int)
                } else if attached_deposit < min_storage(v) {
                    r == Err::<(StorageBalance, Vec<TokenAction>), TokenError>(TokenError::InsufficientDeposit)
                } else {
                    r matches Ok((b, actions)) && final(self)@ == (AexView {
                        balances: v.balances.insert(acc, 0),
                        ..v
                    }) && b == (StorageBalance { total: min_storage(v) as u128, available: 0 })
                        && effects(actions@) == pay_if_positive(predecessor@, attached_deposit - min_storage(v))
                }
            }),
    {
        let min = match self.min_storage_balance() {
            Some(m) => m,
            None => {
                return Err(TokenError::StorageCostOverflow);
            },
        };
        let account = match account_id {
            Some(a) => a,
            None => predecessor.clone(),
        };
        let mut actions: Vec<TokenAction> = Vec::new();
        if self.ledger.is_registered(&account) {
            if attached_deposit > 0 {
                actions.push(TokenAction::Pay { to: predecessor.clone(), amount: attached_deposit });
            }
        } else {
            if attached_deposit < min {
                return Err(TokenError::InsufficientDeposit);
            }
            let reg = self.ledger.register(&account);
            assert(reg is Ok);
            let refund = attached_deposit - min;
            if refund > 0 {
                actions.push(TokenAction::Pay { to: predecessor.clone(), amount: refund });
            }
        }
        assert(effects(actions@) =~= pay_if_positive(
            predecessor@,
            if old(self)@.balances.dom().contains(account@) {
                attached_deposit as int
            } else {
                attached_deposit - min
            },
        ));
        Ok((StorageBalance { total: min, available: 0 }, actions))
    }

    /// The caller's storage balance (`storage_withdraw`): the call must carry
    /// one yoctoNEAR, and since no storage deposit is ever available,
    /// asking for a positive amount is refused.
    pub fn storage_withdraw(&self, predecessor: &String, amount: Option<u128>, attached_deposit: u128) -> (r: Result<
        StorageBalance,
        TokenError,
    >)
        requires
            self.wf(),
        ensures
            attached_deposit != 1 ==> r == Err::<StorageBalance, TokenError>(TokenError::RequiresOneYocto),
            attached_deposit == 1 && !self@.balances.dom().contains(predecessor@) ==> r == Err::<
                StorageBalance,
                TokenError,
            >(TokenError::NotRegistered),
            attached_deposit == 1 && self@.balances.dom().contains(predecessor@) ==> (if min_storage(self@)
                > u128::MAX {
                r == Err::<StorageBalance, TokenError>(TokenError::StorageCostOverflow)
            } else if amount matches Some(a) && a > 0 {
                r == Err::<StorageBalance, TokenError>(TokenError::NothingToWithdraw)
            } else {
                r == Ok::<StorageBalance, TokenError>(
                    StorageBalance { total: min_storage(self@) as u128, available: 0 },
                )
            }),
    {
        if attached_deposit != 1 {
            return Err(TokenError::RequiresOneYocto);
        }
        match self.storage_balance_of(predecessor)? {
            Some(b) => match amount {
                Some(a) => {
                    if a > 0 {
                        Err(TokenError::NothingToWithdraw)
                    } else {
                        Ok(b)
                    }
                },
                None => Ok(b),
            },
            None => Err(TokenError::NotRegistered),
        }
    }

    /// Closes the caller's account (`unregister_account`). The call must
    /// carry one yoctoNEAR; an account with a positive balance closes only
    /// when forced, and its balance is burned. The storage deposit plus one
    /// yoctoNEAR goes to the AERX contract for an AERX user and to the
    /// account itself otherwise. Returns the closed account and its
    /// balance, or `None` when the caller had no account.
    pub fn unregister_account(&mut self, predecessor: &String, force: Option<bool>, attached_deposit: u128) -> (r:
        Result<(Option<(String, u128)>, Vec<TokenAction>), TokenError>)
        requires
            old(self).wf(),
        ensures
            final(self).wf(),
            r is Err ==> *final(self) == *old(self),
            attached_deposit != 1 ==> r == Err::<(Option<(String, u128)>, Vec<TokenAction>), TokenError>(
                TokenError::RequiresOneYocto,
            ),
            attached_deposit == 1 && !old(self)@.balances.dom().contains(predecessor@) ==> (r matches Ok((None, actions))
                && *final(self) == *old(self) && actions@.len() == 0),
            attached_deposit == 1 && old(self)@.balances.dom().contains(predecessor@) ==> match closure_refusal(
                old(self)@,
                predecessor@,
                force,
            ) {
                Some(e) => r == Err::<(Option<(String, u128)>, Vec<TokenAction>), TokenError>(e),
                None => r matches Ok((Some((id, b)), actions)) && id@ == predecessor@ && b == old(
                    self,
                )@.balances[predecessor@] && final(self)@ == closed_account(old(self)@, predecessor@)
                    && effects(actions@) == closure_effects(old(self)@, predecessor@),
            },
            r matches Ok((Some(closed), actions)) ==> effects(actions@).len() > 0 && effects(actions@).last() == (
            TokenEffect::Pay {
                to: if old(self)@.aerx_users.contains(predecessor@) {
                    old(self)@.aerx
                } else {
                    predecessor@
                },
                amount: (min_storage(old(self)@) + 1) as u128,
            }),
    {
        if attached_deposit != 1 {
            return Err(TokenError::RequiresOneYocto);
        }
        if !self.ledger.is_registered(predecessor) {
            return Ok((None, Vec::new()));
        }
        let bal = self.ledger.balance_of(predecessor);
        let forced = match force {
            Some(f) => f,
            None => false,
        };
        if bal > 0 && !forced {
            return Err(TokenError::PositiveBalance);
        }
        let payout = match self.min_storage_balance() {
            Some(m) => match m.checked_add(1) {
                Some(p) => p,
                None => {
                    return Err(TokenError::StorageCostOverflow);
                },
            },
            None => {
                return Err(TokenError::StorageCostOverflow);
            },
        };
        let removed = self.ledger.remove_account(predecessor);
        assert(removed == Some(bal));
        let mut actions: Vec<TokenAction> = Vec::new();
        if bal > 0 {
            actions.push(
                TokenAction::Burned {
                    owner: predecessor.clone(),
                    amount: bal,
                    memo: String::from_str("Account Closure"),
                },
            );
        }
        let ghost first = effects(actions@);
        let to = if self.aerx_users.contains(predecessor) {
            self.aerx_contract_id.clone()
        } else {
            predecessor.clone()
        };
        actions.push(TokenAction::Pay { to, amount: payout });
        assert(effects(actions@) =~= first + seq![
            TokenEffect::Pay {
                to: if old(self)@.aerx_users.contains(predecessor@) {
                    old(self)@.aerx
                } else {
                    predecessor@
                },
                amount: payout,
            },
        ]);
        Ok((Some((predecessor.clone(), bal)), actions))
    }

    /// Closes the caller's account as `unregister_account` does and tells
    /// whether there was one (`storage_unregister`).
    pub fn storage_unregister(&mut self, predecessor: &String, force: Option<bool>, attached_deposit: u128) -> (r:
        Result<(bool, Vec<TokenAction>), TokenError>)
        requires
            old(self).wf(),
        ensures
            final(self).wf(),
            r is Err ==> *final(self) == *old(self),
            attached_deposit != 1 ==> r == Err::<(bool, Vec<TokenAction>), TokenError>(TokenError::RequiresOneYocto),
            attached_deposit == 1 && !old(self)@.balances.dom().contains(predecessor@) ==> (r matches Ok((false, _))
                && *final(self) == *old(self)),
            attached_deposit == 1 && old(self)@.balances.dom().contains(predecessor@) ==> match closure_refusal(
                old(self)@,
                predecessor@,
                force,
            ) {
                Some(e) => r == Err::<(bool, Vec<TokenAction>), TokenError>(e),
                None => r matches Ok((true, actions)) && final(self)@ == closed_account(old(self)@, predecessor@)
                    && effects(actions@) == closure_effects(old(self)@, predecessor@),
            },
            r matches Ok((true, actions)) ==> effects(actions@).len() > 0 && effects(actions@).last() == (
            TokenEffect::Pay {
                to: if old(self)@.aerx_users.contains(predecessor@) {
                    old(self)@.aerx
                } else {
                    predecessor@
                },
                amount: (min_storage(old(self)@) + 1) as u128,
            }),
    {
        let (closed, actions) = self.unregister_account(predecessor, force, attached_deposit)?;
        Ok((closed.is_some(), actions))
    }
}

} // verus!
