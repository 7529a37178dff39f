use vstd::prelude::*;

use crate::types::{DEFAULT_MAX_DEDUCT, DeductModel, EffectModel, EventModel, MetaModel, VaultError};

verus! {

/// Abstract value of the vault's storage: each field is one storage key,
/// `None` where the key is absent.
pub struct VaultModel {
    pub meta: Option<MetaModel>,
    pub usdc: Option<Seq<u8>>,
    pub admin: Option<Seq<u8>>,
    pub settlement: Option<Seq<u8>>,
    pub revenue_pool: Option<Seq<u8>>,
    pub max_deduct: Option<int>,
    pub allowed: Option<Seq<Seq<u8>>>,
}

/// The outcome of an accepted call: the storage after it, the effects the host
/// performs, in order, and the value returned to the caller.
pub struct Step<R> {
    pub state: VaultModel,
    pub effects: Seq<EffectModel>,
    pub out: R,
}

/// The given bytes, or the empty string (the default request id and the default old metadata).
pub open spec fn bytes_or_empty(rid: Option<Seq<u8>>) -> Seq<u8> {
    match rid {
        Some(r) => r,
        None => Seq::empty(),
    }
}

/// Sum of the amounts of a list of deduct items.
pub open spec fn amounts_sum(items: Seq<DeductModel>) -> int
    decreases items.len(),
{
    if items.len() == 0 {
        0
    } else {
        amounts_sum(items.drop_last()) + items.last().amount
    }
}

/// Why a single deduct of `item` is refused when `running` is left and `max` is the cap.
pub open spec fn item_error(item: DeductModel, max: int, running: int) -> Option<VaultError> {
    if item.amount <= 0 {
        Some(VaultError::AmountNotPositive)
    } else if item.amount > max {
        Some(VaultError::ExceedsMaxDeduct)
    } else if running < item.amount {
        Some(VaultError::InsufficientBalance)
    } else {
        None
    }
}

/// The refusal of the first item of `items` that fails its check, each item checked
/// against what the items before it leave of `balance`; `None` if all pass.
pub open spec fn batch_error(items: Seq<DeductModel>, max: int, balance: int) -> Option<VaultError>
    decreases items.len(),
{
    if items.len() == 0 {
        None
    } else {
        match batch_error(items.drop_last(), max, balance) {
            Some(e) => Some(e),
            None => item_error(items.last(), max, balance - amounts_sum(items.drop_last())),
        }
    }
}

/// The deduct events of a batch: the `i`-th carries the balance left after the
/// first `i + 1` items.
pub open spec fn batch_events(caller: Seq<u8>, items: Seq<DeductModel>, balance: int) -> Seq<EffectModel> {
    Seq::new(
        items.len(),
        |i: int|
            EffectModel::Emit(
                EventModel::Deduct {
                    caller,
                    request_id: bytes_or_empty(items[i].request_id),
                    amount: items[i].amount,
                    new_balance: balance - amounts_sum(items.take(i + 1)),
                },
            ),
    )
}

impl VaultModel {
    /// Storage of a vault that has not been initialized.
    pub open spec fn empty() -> VaultModel {
        VaultModel {
            meta: None,
            usdc: None,
            admin: None,
            settlement: None,
            revenue_pool: None,
            max_deduct: None,
            allowed: None,
        }
    }

    /// The tracked balance is never negative.
    pub open spec fn balance_nonneg(self) -> bool {
        self.meta matches Some(m) ==> m.balance >= 0
    }

    /// No address is listed twice among the allowed depositors.
    pub open spec fn allowed_unique(self) -> bool {
        self.allowed matches Some(l) ==> l.no_duplicates()
    }

    /// The per-deduct cap: the stored one, or no cap.
    pub open spec fn max_deduct_cap(self) -> int {
        match self.max_deduct {
            Some(v) => v,
            None => DEFAULT_MAX_DEDUCT as int,
        }
    }

    /// Whether `a` is on the allowed-depositors list.
    pub open spec fn is_allowed(self, a: Seq<u8>) -> bool {
        match self.allowed {
            Some(l) => l.contains(a),
            None => false,
        }
    }

    /// The same storage with the tracked balance replaced.
    pub open spec fn with_balance(self, balance: int) -> VaultModel {
        VaultModel { meta: Some(MetaModel { balance, ..self.meta.unwrap() }), ..self }
    }

    /// Passes when `caller` is the owner.
    pub open spec fn owner_check(self, caller: Seq<u8>) -> Result<(), VaultError> {
        match self.meta {
            None => Err(VaultError::NotInitialized),
            Some(m) => if caller == m.owner {
                Ok(())
            } else {
                Err(VaultError::NotOwner)
            },
        }
    }

    /// Passes when `caller` is the admin.
    pub open spec fn admin_check(self, caller: Seq<u8>) -> Result<(), VaultError> {
        match self.admin {
            None => Err(VaultError::NotInitialized),
            Some(a) => if caller == a {
                Ok(())
            } else {
                Err(VaultError::NotAdmin)
            },
        }
    }

    pub open spec fn init(
        self,
        owner: Seq<u8>,
        usdc: Seq<u8>,
        initial_balance: Option<int>,
        min_deposit: Option<int>,
        revenue_pool: Option<Seq<u8>>,
        max_deduct: Option<int>,
    ) -> Result<Step<MetaModel>, VaultError> {
        let balance = match initial_balance {
            Some(b) => b,
            None => 0,
        };
        if self.meta is Some {
            Err(VaultError::AlreadyInitialized)
        } else if balance < 0 {
            Err(VaultError::NegativeInitialBalance)
        } else {
            let meta = MetaModel {
                owner,
                balance,
                min_deposit: match min_deposit {
                    Some(m) => m,
                    None => 0,
                },
            };
            Ok(
                Step {
                    state: VaultModel {
                        meta: Some(meta),
                        usdc: Some(usdc),
                        admin: Some(owner),
                        revenue_pool: match revenue_pool {
                            Some(p) => Some(p),
                            None => self.revenue_pool,
                        },
                        max_deduct: Some(
                            match max_deduct {
                                Some(v) => v,
                                None => DEFAULT_MAX_DEDUCT as int,
                            },
                        ),
                        ..self
                    },
                    effects: seq![EffectModel::Emit(EventModel::Init { owner, balance })],
                    out: meta,
                },
            )
        }
    }

    pub open spec fn get_admin(self) -> Result<Seq<u8>, VaultError> {
        match self.admin {
            Some(a) => Ok(a),
            None => Err(VaultError::NotInitialized),
        }
    }

    pub open spec fn set_admin(self, caller: Seq<u8>, new_admin: Seq<u8>) -> Result<VaultModel, VaultError> {
        match self.admin_check(caller) {
            Err(e) => Err(e),
            Ok(_) => Ok(VaultModel { admin: Some(new_admin), ..self }),
        }
    }

    pub open spec fn is_authorized_depositor(self, caller: Seq<u8>) -> Result<bool, VaultError> {
        match self.meta {
            None => Err(VaultError::NotInitialized),
            Some(m) => Ok(caller == m.owner || self.is_allowed(caller)),
        }
    }

    /// The checks of `distribute` that come before the vault's USDC holding is
    /// read; on success, the token whose holding must be read.
    pub open spec fn distribute_token(self, caller: Seq<u8>, amount: int) -> Result<Seq<u8>, VaultError> {
        match self.admin_check(caller) {
            Err(e) => Err(e),
            Ok(_) => if amount <= 0 {
                Err(VaultError::AmountNotPositive)
            } else {
                match self.usdc {
                    None => Err(VaultError::NotInitialized),
                    Some(u) => Ok(u),
                }
            },
        }
    }

    /// `distribute` given the vault's USDC holding `held`; storage is unchanged.
    pub open spec fn distribute(self, caller: Seq<u8>, to: Seq<u8>, amount: int, held: int) -> Result<Seq<EffectModel>, VaultError> {
        match self.distribute_token(caller, amount) {
            Err(e) => Err(e),
            Ok(token) => if held < amount {
                Err(VaultError::InsufficientUsdcBalance)
            } else {
                Ok(
                    seq![
                        EffectModel::Transfer { token, to, amount },
                        EffectModel::Emit(EventModel::Distribute { to, amount }),
                    ],
                )
            },
        }
    }

    pub open spec fn get_meta(self) -> Result<MetaModel, VaultError> {
        match self.meta {
            Some(m) => Ok(m),
            None => Err(VaultError::NotInitialized),
        }
    }

    pub open spec fn set_allowed_depositor(self, caller: Seq<u8>, depositor: Option<Seq<u8>>) -> Result<VaultModel, VaultError> {
        match self.owner_check(caller) {
            Err(e) => Err(e),
            Ok(_) => match depositor {
                None => Ok(VaultModel { allowed: None, ..self }),
                Some(a) => {
                    let list = match self.allowed {
                        Some(l) => l,
                        None => Seq::empty(),
                    };
                    Ok(
                        VaultModel {
                            allowed: Some(
                                if list.contains(a) {
                                    list
                                } else {
                                    list.push(a)
                                },
                            ),
                            ..self
                        },
                    )
                },
            },
        }
    }

    pub open spec fn deposit(self, caller: Seq<u8>, amount: int) -> Result<Step<int>, VaultError> {
        if amount <= 0 {
            Err(VaultError::AmountNotPositive)
        } else {
            match self.meta {
                None => Err(VaultError::NotInitialized),
                Some(m) => if !(caller == m.owner || self.is_allowed(caller)) {
                    Err(VaultError::NotAuthorizedDepositor)
                } else if amount < m.min_deposit {
                    Err(VaultError::BelowMinimum)
                } else {
                    match self.usdc {
                        None => Err(VaultError::NotInitialized),
                        Some(token) => if m.balance + amount > i128::MAX {
                            Err(VaultError::BalanceOverflow)
                        } else {
                            Ok(
                                Step {
                                    state: self.with_balance(m.balance + amount),
                                    effects: seq![
                                        EffectModel::TransferFrom { token, from: caller, amount },
                                        EffectModel::Emit(
                                            EventModel::Deposit { caller, amount, new_balance: m.balance + amount },
                                        ),
                                    ],
                                    out: m.balance + amount,
                                },
                            )
                        },
                    }
                },
            }
        }
    }

    /// The transfer of `amount` to the revenue pool, when one is configured.
    pub open spec fn pool_transfer(self, amount: int) -> Seq<EffectModel> {
        match self.revenue_pool {
            Some(pool) => seq![EffectModel::Transfer { token: self.usdc.unwrap(), to: pool, amount }],
            None => Seq::empty(),
        }
    }

    pub open spec fn deduct(self, caller: Seq<u8>, amount: int, request_id: Option<Seq<u8>>) -> Result<Step<int>, VaultError> {
        if amount <= 0 {
            Err(VaultError::AmountNotPositive)
        } else if amount > self.max_deduct_cap() {
            Err(VaultError::ExceedsMaxDeduct)
        } else {
            match self.meta {
                None => Err(VaultError::NotInitialized),
                Some(m) => if m.balance < amount {
                    Err(VaultError::InsufficientBalance)
                } else if self.revenue_pool is Some && self.usdc is None {
                    Err(VaultError::NotInitialized)
                } else {
                    let new_balance = m.balance - amount;
                    Ok(
                        Step {
                            state: self.with_balance(new_balance),
                            effects: self.pool_transfer(amount) + seq![
                                EffectModel::Emit(
                                    EventModel::Deduct {
                                        caller,
                                        request_id: bytes_or_empty(request_id),
                                        amount,
                                        new_balance,
                                    },
                                ),
                            ],
                            out: new_balance,
                        },
                    )
                },
            }
        }
    }

    pub open spec fn batch_deduct(self, caller: Seq<u8>, items: Seq<DeductModel>) -> Result<Step<int>, VaultError> {
        match self.meta {
            None => Err(VaultError::NotInitialized),
            Some(m) => if items.len() == 0 {
                Err(VaultError::EmptyBatch)
            } else {
                match batch_error(items, self.max_deduct_cap(), m.balance) {
                    Some(e) => Err(e),
                    None => if self.revenue_pool is Some && self.usdc is None {
                        Err(VaultError::NotInitialized)
                    } else {
                        let total = amounts_sum(items);
                        Ok(
                            Step {
                                state: self.with_balance(m.balance - total),
                                effects: batch_events(caller, items, m.balance) + self.pool_transfer(total),
                                out: m.balance - total,
                            },
                        )
                    },
                }
            },
        }
    }

    pub open spec fn balance(self) -> Result<int, VaultError> {
        match self.meta {
            Some(m) => Ok(m.balance),
            None => Err(VaultError::NotInitialized),
        }
    }

    /// Withdrawal of `amount` to `to` (`None`: to the owner).
    pub open spec fn withdraw_common(self, to: Option<Seq<u8>>, amount: int) -> Result<Step<int>, VaultError> {
        match self.meta {
            None => Err(VaultError::NotInitialized),
            Some(m) => if amount <= 0 {
                Err(VaultError::AmountNotPositive)
            } else if m.balance < amount {
                Err(VaultError::InsufficientBalance)
            } else {
                match self.usdc {
                    None => Err(VaultError::NotInitialized),
                    Some(token) => {
                        let new_balance = m.balance - amount;
                        let event = match to {
                            None => EventModel::Withdraw { owner: m.owner, amount, new_balance },
                            Some(t) => EventModel::WithdrawTo { owner: m.owner, to: t, amount, new_balance },
                        };
                        let dest = match to {
                            None => m.owner,
                            Some(t) => t,
                        };
                        Ok(
                            Step {
                                state: self.with_balance(new_balance),
                                effects: seq![
                                    EffectModel::Transfer { token, to: dest, amount },
                                    EffectModel::Emit(event),
                                ],
                                out: new_balance,
                            },
                        )
                    },
                }
            },
        }
    }

    pub open spec fn withdraw(self, amount: int) -> Result<Step<int>, VaultError> {
        self.withdraw_common(None, amount)
    }

    pub open spec fn withdraw_to(self, to: Seq<u8>, amount: int) -> Result<Step<int>, VaultError> {
        self.withdraw_common(Some(to), amount)
    }

    pub open spec fn transfer_ownership(self, new_owner: Seq<u8>) -> Result<Step<()>, VaultError> {
        match self.meta {
            None => Err(VaultError::NotInitialized),
            Some(m) => if new_owner == m.owner {
                Err(VaultError::SameOwner)
            } else {
                Ok(
                    Step {
                        state: VaultModel { meta: Some(MetaModel { owner: new_owner, ..m }), ..self },
                        effects: seq![
                            EffectModel::Emit(
                                EventModel::TransferOwnership { old_owner: m.owner, new_owner },
                            ),
                        ],
                        out: (),
                    },
                )
            },
        }
    }

    pub open spec fn set_settlement(self, caller: Seq<u8>, settlement: Seq<u8>) -> Result<VaultModel, VaultError> {
        match self.admin_check(caller) {
            Err(e) => Err(e),
            Ok(_) => Ok(VaultModel { settlement: Some(settlement), ..self }),
        }
    }

    pub open spec fn get_settlement(self) -> Result<Seq<u8>, VaultError> {
        match self.settlement {
            Some(s) => Ok(s),
            None => Err(VaultError::SettlementNotSet),
        }
    }

    /// `set_metadata`; storage of the vault itself is unchanged.
    pub open spec fn set_metadata(self, caller: Seq<u8>, offering_id: Seq<u8>, metadata: Seq<u8>) -> Result<Seq<EffectModel>, VaultError> {
        match self.owner_check(caller) {
            Err(e) => Err(e),
            Ok(_) => Ok(
                seq![
                    EffectModel::StoreMetadata { offering_id, metadata },
                    EffectModel::Emit(EventModel::MetadataSet { offering_id, caller, metadata }),
                ],
            ),
        }
    }

    /// `update_metadata`, given what is stored under `offering_id` now.
    pub open spec fn update_metadata(
        self,
        caller: Seq<u8>,
        offering_id: Seq<u8>,
        metadata: Seq<u8>,
        stored: Option<Seq<u8>>,
    ) -> Result<Seq<EffectModel>, VaultError> {
        match self.owner_check(caller) {
            Err(e) => Err(e),
            Ok(_) => Ok(
                seq![
                    EffectModel::StoreMetadata { offering_id, metadata },
                    EffectModel::Emit(
                        EventModel::MetadataUpdated {
                            offering_id,
                            caller,
                            old_metadata: bytes_or_empty(stored),
                            new_metadata: metadata,
                        },
                    ),
                ],
            ),
        }
    }
}

} // verus!

verus! {

/// Once some prefix of a batch holds a refused item, the whole batch is refused
/// for the same reason.
pub proof fn lemma_batch_error_prefix(items: Seq<DeductModel>, max: int, balance: int, k: int)
    requires
        0 <= k <= items.len(),
        batch_error(items.take(k), max, balance) is Some,
    ensures
        batch_error(items, max, balance) == batch_error(items.take(k), max, balance),
    decreases items.len(),
{
    if k < items.len() {
        assert(items.drop_last().take(k) =~= items.take(k));
        lemma_batch_error_prefix(items.drop_last(), max, balance, k);
    } else {
        assert(items.take(k) =~= items);
    }
}

} // verus!
