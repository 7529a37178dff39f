use vstd::prelude::*;

use crate::address::{Address, bytes_opt_view};

verus! {

/// Default maximum single deduct amount when none is set at init (no cap).
pub const DEFAULT_MAX_DEDUCT: i128 = 170141183460469231731687303715884105727i128;

/// Vault metadata kept in storage.
#[derive(Debug, Clone, PartialEq, Eq)]
pub struct VaultMeta {
    pub owner: Address,
    pub balance: i128,
    /// Minimum amount required per deposit; deposits below this value are rejected.
    pub min_deposit: i128,
}

/// Abstract value of [`VaultMeta`].
pub struct MetaModel {
    pub owner: Seq<u8>,
    pub balance: int,
    pub min_deposit: int,
}

impl View for VaultMeta {
    type V = MetaModel;

    open spec fn view(&self) -> MetaModel {
        MetaModel { owner: self.owner@, balance: self.balance as int, min_deposit: self.min_deposit as int }
    }
}

/// Single item of a batch deduct: an amount and an optional request id for tracking.
#[derive(Debug, Clone, PartialEq, Eq)]
pub struct DeductItem {
    pub amount: i128,
    pub request_id: Option<Vec<u8>>,
}

/// Abstract value of [`DeductItem`].
pub struct DeductModel {
    pub amount: int,
    pub request_id: Option<Seq<u8>>,
}

impl View for DeductItem {
    type V = DeductModel;

    open spec fn view(&self) -> DeductModel {
        DeductModel { amount: self.amount as int, request_id: bytes_opt_view(self.request_id) }
    }
}

/// Why a call is refused. Every refusal leaves the vault's storage as it was.
#[derive(Debug, Clone, Copy, PartialEq, Eq, Structural)]
pub enum VaultError {
    /// `init` on a vault that already holds its metadata.
    AlreadyInitialized,
    /// `init` with a negative initial balance.
    NegativeInitialBalance,
    /// A value that `init` stores is missing.
    NotInitialized,
    /// The caller is not the current admin.
    NotAdmin,
    /// The caller is not the vault owner.
    NotOwner,
    /// An amount is zero or negative.
    AmountNotPositive,
    /// The vault's USDC holding is smaller than the amount to distribute.
    InsufficientUsdcBalance,
    /// The caller is neither the owner nor an allowed depositor.
    NotAuthorizedDepositor,
    /// The deposit is below the vault's minimum deposit.
    BelowMinimum,
    /// A deduct exceeds the per-deduct cap.
    ExceedsMaxDeduct,
    /// The tracked balance is smaller than the amount (or the running total).
    InsufficientBalance,
    /// A batch deduct with no items.
    EmptyBatch,
    /// `transfer_ownership` to the current owner.
    SameOwner,
    /// No settlement address has been stored.
    SettlementNotSet,
    /// The tracked balance would exceed the range of `i128`.
    BalanceOverflow,
}

/// An event that the vault publishes.
#[derive(Debug, Clone, PartialEq, Eq)]
pub enum VaultEvent {
    /// Topic `("init", owner)`, data `balance`.
    Init { owner: Address, balance: i128 },
    /// Topic `("distribute", to)`, data `amount`.
    Distribute { to: Address, amount: i128 },
    /// Topic `("deposit", caller)`, data `(amount, new_balance)`.
    Deposit { caller: Address, amount: i128, new_balance: i128 },
    /// Topic `("deduct", caller, request_id)`, data `(amount, new_balance)`.
    Deduct { caller: Address, request_id: Vec<u8>, amount: i128, new_balance: i128 },
    /// Topic `("withdraw", owner)`, data `(amount, new_balance)`.
    Withdraw { owner: Address, amount: i128, new_balance: i128 },
    /// Topic `("withdraw_to", owner, to)`, data `(amount, new_balance)`.
    WithdrawTo { owner: Address, to: Address, amount: i128, new_balance: i128 },
    /// Topic `("transfer_ownership", old_owner, new_owner)`, data `()`.
    TransferOwnership { old_owner: Address, new_owner: Address },
    /// Topic `("metadata_set", offering_id, caller)`, data `metadata`.
    MetadataSet { offering_id: Vec<u8>, caller: Address, metadata: Vec<u8> },
    /// Topic `("metadata_updated", offering_id, caller)`, data `(old_metadata, new_metadata)`.
    MetadataUpdated { offering_id: Vec<u8>, caller: Address, old_metadata: Vec<u8>, new_metadata: Vec<u8> },
}

/// Abstract value of [`VaultEvent`].
pub enum EventModel {
    Init { owner: Seq<u8>, balance: int },
    Distribute { to: Seq<u8>, amount: int },
    Deposit { caller: Seq<u8>, amount: int, new_balance: int },
    Deduct { caller: Seq<u8>, request_id: Seq<u8>, amount: int, new_balance: int },
    Withdraw { owner: Seq<u8>, amount: int, new_balance: int },
    WithdrawTo { owner: Seq<u8>, to: Seq<u8>, amount: int, new_balance: int },
    TransferOwnership { old_owner: Seq<u8>, new_owner: Seq<u8> },
    MetadataSet { offering_id: Seq<u8>, caller: Seq<u8>, metadata: Seq<u8> },
    MetadataUpdated { offering_id: Seq<u8>, caller: Seq<u8>, old_metadata: Seq<u8>, new_metadata: Seq<u8> },
}

impl View for VaultEvent {
    type V = EventModel;

    open spec fn view(&self) -> EventModel {
        match self {
            VaultEvent::Init { owner, balance } => EventModel::Init { owner: owner@, balance: *balance as int },
            VaultEvent::Distribute { to, amount } => EventModel::Distribute { to: to@, amount: *amount as int },
            VaultEvent::Deposit { caller, amount, new_balance } => EventModel::Deposit {
                caller: caller@,
                amount: *amount as int,
                new_balance: *new_balance as int,
            },
            VaultEvent::Deduct { caller, request_id, amount, new_balance } => EventModel::Deduct {
                caller: caller@,
                request_id: request_id@,
                amount: *amount as int,
                new_balance: *new_balance as int,
            },
            VaultEvent::Withdraw { owner, amount, new_balance } => EventModel::Withdraw {
                owner: owner@,
                amount: *amount as int,
                new_balance: *new_balance as int,
            },
            VaultEvent::WithdrawTo { owner, to, amount, new_balance } => EventModel::WithdrawTo {
                owner: owner@,
                to: to@,
                amount: *amount as int,
                new_balance: *new_balance as int,
            },
            VaultEvent::TransferOwnership { old_owner, new_owner } => EventModel::TransferOwnership {
                old_owner: old_owner@,
                new_owner: new_owner@,
            },
            VaultEvent::MetadataSet { offering_id, caller, metadata } => EventModel::MetadataSet {
                offering_id: offering_id@,
                caller: caller@,
                metadata: metadata@,
            },
            VaultEvent::MetadataUpdated { offering_id, caller, old_metadata, new_metadata } => EventModel::MetadataUpdated {
                offering_id: offering_id@,
                caller: caller@,
                old_metadata: old_metadata@,
                new_metadata: new_metadata@,
            },
        }
    }
}

/// Work that the host performs after a call is accepted, in order.
#[derive(Debug, Clone, PartialEq, Eq)]
pub enum Effect {
    /// `token.transfer(vault, to, amount)`.
    Transfer { token: Address, to: Address, amount: i128 },
    /// `token.transfer_from(vault, from, vault, amount)`: pull a pre-approved amount into the vault.
    TransferFrom { token: Address, from: Address, amount: i128 },
    /// Store `metadata` under the key `offering_id`.
    StoreMetadata { offering_id: Vec<u8>, metadata: Vec<u8> },
    /// Publish an event.
    Emit(VaultEvent),
}

/// Abstract value of [`Effect`].
pub enum EffectModel {
    Transfer { token: Seq<u8>, to: Seq<u8>, amount: int },
    TransferFrom { token: Seq<u8>, from: Seq<u8>, amount: int },
    StoreMetadata { offering_id: Seq<u8>, metadata: Seq<u8> },
    Emit(EventModel),
}

impl View for Effect {
    type V = EffectModel;

    open spec fn view(&self) -> EffectModel {
        match self {
            Effect::Transfer { token, to, amount } => EffectModel::Transfer { token: token@, to: to@, amount: *amount as int },
            Effect::TransferFrom { token, from, amount } => EffectModel::TransferFrom {
                token: token@,
                from: from@,
                amount: *amount as int,
            },
            Effect::StoreMetadata { offering_id, metadata } => EffectModel::StoreMetadata {
                offering_id: offering_id@,
                metadata: metadata@,
            },
            Effect::Emit(ev) => EffectModel::Emit(ev@),
        }
    }
}

/// Abstract value of a list of effects.
pub open spec fn effects_view(effects: Vec<Effect>) -> Seq<EffectModel> {
    effects@.map_values(|e: Effect| e@)
}

/// Abstract value of a list of deduct items.
pub open spec fn items_view(items: Vec<DeductItem>) -> Seq<DeductModel> {
    items@.map_values(|it: DeductItem| it@)
}

} // verus!
