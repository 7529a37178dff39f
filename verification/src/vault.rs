use vstd::prelude::*;

use crate::address::{Address, address_opt_view, bytes_opt_view, copy_bytes};
use crate::model::{Step, VaultModel, amounts_sum, batch_error, batch_events, bytes_or_empty, lemma_batch_error_prefix};
use crate::types::{
    EffectModel,
    DEFAULT_MAX_DEDUCT, DeductItem, Effect, MetaModel, VaultError, VaultEvent, VaultMeta,
    effects_view, items_view,
};

verus! {

/// The vault's storage: one field per storage key, `None` where the key is absent.
/// The contract's calls are its methods; each either returns the effects that the
/// host must perform and leaves the storage updated, or returns a [`VaultError`]
/// and leaves the storage as it was.
pub struct CalloraVault {
    pub meta: Option<VaultMeta>,
    pub usdc: Option<Address>,
    pub admin: Option<Address>,
    pub settlement: Option<Address>,
    pub revenue_pool: Option<Address>,
    pub max_deduct: Option<i128>,
    pub allowed: Option<Vec<Address>>,
}

/// Abstract value of a list of addresses.
pub open spec fn addresses_view(list: Seq<Address>) -> Seq<Seq<u8>> {
    list.map_values(|a: Address| a@)
}

/// Abstract value of the allowed-depositors list.
pub open spec fn allowed_view(allowed: Option<Vec<Address>>) -> Option<Seq<Seq<u8>>> {
    match allowed {
        Some(l) => Some(addresses_view(l@)),
        None => None,
    }
}

/// Abstract value of optional metadata.
pub open spec fn meta_opt_view(meta: Option<VaultMeta>) -> Option<MetaModel> {
    match meta {
        Some(m) => Some(m@),
        None => None,
    }
}

/// Abstract value of an optional integer.
pub open spec fn int_opt_view(v: Option<i128>) -> Option<int> {
    match v {
        Some(x) => Some(x as int),
        None => None,
    }
}

impl View for CalloraVault {
    type V = VaultModel;

    open spec fn view(&self) -> VaultModel {
        VaultModel {
            meta: meta_opt_view(self.meta),
            usdc: address_opt_view(self.usdc),
            admin: address_opt_view(self.admin),
            settlement: address_opt_view(self.settlement),
            revenue_pool: address_opt_view(self.revenue_pool),
            max_deduct: int_opt_view(self.max_deduct),
            allowed: allowed_view(self.allowed),
        }
    }
}

impl VaultMeta {
    /// A copy of this metadata.
    pub fn duplicate(&self) -> (r: VaultMeta)
        ensures
            r@ == self@,
    {
        VaultMeta { owner: self.owner.duplicate(), balance: self.balance, min_deposit: self.min_deposit }
    }
}

impl CalloraVault {
    /// The storage of a vault that has not been initialized.
    pub fn new() -> (v: CalloraVault)
        ensures
            v@ == VaultModel::empty(),
    {
        CalloraVault {
            meta: None,
            usdc: None,
            admin: None,
            settlement: None,
            revenue_pool: None,
            max_deduct: None,
            allowed: None,
        }
    }

    /// Passes when `caller` is the vault owner.
    fn require_owner(&self, caller: &Address) -> (r: Result<(), VaultError>)
        ensures
            r == self@.owner_check(caller@),
    {
        match &self.meta {
            None => Err(VaultError::NotInitialized),
            Some(m) => if caller.same_as(&m.owner) {
                Ok(())
            } else {
                Err(VaultError::NotOwner)
            },
        }
    }

    /// Passes when `caller` is the admin.
    fn require_admin(&self, caller: &Address) -> (r: Result<(), VaultError>)
        ensures
            r == self@.admin_check(caller@),
    {
        match &self.admin {
            None => Err(VaultError::NotInitialized),
            Some(a) => if caller.same_as(a) {
                Ok(())
            } else {
                Err(VaultError::NotAdmin)
            },
        }
    }

    /// Whether `a` is on the allowed-depositors list.
    fn is_allowed(&self, a: &Address) -> (r: bool)
        ensures
            r == self@.is_allowed(a@),
    {
        match &self.allowed {
            None => false,
            Some(list) => {
                let ghost lv = addresses_view(list@);
                let n = list.len();
                let mut i: usize = 0;
                while i < n
                    invariant
                        n == list.len(),
                        lv == addresses_view(list@),
                        self@.allowed == Some(lv),
                        i <= n,
                        forall|j: int| 0 <= j < i ==> lv[j] != a@,
                    decreases n - i,
                {
                    if list[i].same_as(a) {
                        assert(lv[i as int] == a@);
                        assert(lv.contains(a@));
                        return true;
                    }
                    i = i + 1;
                }
                assert(!lv.contains(a@));
                false
            },
        }
    }

    /// Initializes the vault: `owner` becomes owner and admin; the balance starts at
    /// `initial_balance` (default 0), the minimum deposit at `min_deposit` (default 0),
    /// the per-deduct cap at `max_deduct` (default: no cap); `revenue_pool`, when given,
    /// receives the USDC of every deduct.
    pub fn init(
        &mut self,
        owner: Address,
        usdc_token: Address,
        initial_balance: Option<i128>,
        min_deposit: Option<i128>,
        revenue_pool: Option<Address>,
        max_deduct: Option<i128>,
    ) -> (r: Result<(VaultMeta, Vec<Effect>), VaultError>)
        ensures
            match r {
                Ok((meta, effects)) => old(self)@.init(
                    owner@,
                    usdc_token@,
                    int_opt_view(initial_balance),
                    int_opt_view(min_deposit),
                    address_opt_view(revenue_pool),
                    int_opt_view(max_deduct),
                ) == Ok::<Step<MetaModel>, VaultError>(
                    (Step { state: final(self)@, effects: effects_view(effects), out: meta@ }),
                ),
                Err(e) => old(self)@.init(
                    owner@,
                    usdc_token@,
                    int_opt_view(initial_balance),
                    int_opt_view(min_deposit),
                    address_opt_view(revenue_pool),
                    int_opt_view(max_deduct),
                ) == Err::<Step<MetaModel>, VaultError>(e) && *final(self) == *old(self),
            },
            old(self)@.balance_nonneg() ==> final(self)@.balance_nonneg(),
    {
        if self.meta.is_some() {
            return Err(VaultError::AlreadyInitialized);
        }
        let balance: i128 = match initial_balance {
            Some(b) => b,
            None => 0,
        };
        if balance < 0 {
            return Err(VaultError::NegativeInitialBalance);
        }
        let min: i128 = match min_deposit {
            Some(m) => m,
            None => 0,
        };
        let cap: i128 = match max_deduct {
            Some(v) => v,
            None => DEFAULT_MAX_DEDUCT,
        };
        let meta = VaultMeta { owner: owner.duplicate(), balance, min_deposit: min };
        let event_owner = owner.duplicate();
        self.meta = Some(meta.duplicate());
        self.usdc = Some(usdc_token);
        self.admin = Some(owner);
        match revenue_pool {
            Some(pool) => {
                self.revenue_pool = Some(pool);
            },
            None => {},
        }
        self.max_deduct = Some(cap);
        let mut effects: Vec<Effect> = Vec::new();
        effects.push(Effect::Emit(VaultEvent::Init { owner: event_owner, balance }));
        assert(effects_view(effects) =~= old(self)@.init(
            owner@,
            usdc_token@,
            int_opt_view(initial_balance),
            int_opt_view(min_deposit),
            address_opt_view(revenue_pool),
            int_opt_view(max_deduct),
        ).unwrap().effects);
        Ok((meta, effects))
    }

    /// The current admin.
    pub fn get_admin(&self) -> (r: Result<Address, VaultError>)
        ensures
            match r {
                Ok(a) => self@.get_admin() == Ok::<Seq<u8>, VaultError>(a@),
                Err(e) => self@.get_admin() == Err::<Seq<u8>, VaultError>(e),
            },
    {
        match &self.admin {
            Some(a) => Ok(a.duplicate()),
            None => Err(VaultError::NotInitialized),
        }
    }

    /// Replaces the admin; only the current admin may do so.
    pub fn set_admin(&mut self, caller: &Address, new_admin: Address) -> (r: Result<(), VaultError>)
        ensures
            match r {
                Ok(_) => old(self)@.set_admin(caller@, new_admin@) == Ok::<VaultModel, VaultError>(final(self)@),
                Err(e) => old(self)@.set_admin(caller@, new_admin@) == Err::<VaultModel, VaultError>(e)
                    && *final(self) == *old(self),
            },
            old(self)@.balance_nonneg() ==> final(self)@.balance_nonneg(),
    {
        match self.require_admin(caller) {
            Err(e) => Err(e),
            Ok(_) => {
                self.admin = Some(new_admin);
                Ok(())
            },
        }
    }

    /// Whether `caller` may deposit: the owner or an allowed depositor.
    pub fn is_authorized_depositor(&self, caller: &Address) -> (r: Result<bool, VaultError>)
        ensures
            r == self@.is_authorized_depositor(caller@),
    {
        match &self.meta {
            None => Err(VaultError::NotInitialized),
            Some(m) => {
                if caller.same_as(&m.owner) {
                    return Ok(true);
                }
                Ok(self.is_allowed(caller))
            },
        }
    }

    /// The vault metadata: owner, balance and minimum deposit.
    pub fn get_meta(&self) -> (r: Result<VaultMeta, VaultError>)
        ensures
            match r {
                Ok(m) => self@.get_meta() == Ok::<MetaModel, VaultError>(m@),
                Err(e) => self@.get_meta() == Err::<MetaModel, VaultError>(e),
            },
    {
        match &self.meta {
            Some(m) => Ok(m.duplicate()),
            None => Err(VaultError::NotInitialized),
        }
    }

    /// The per-deduct cap: the stored one, or [`DEFAULT_MAX_DEDUCT`].
    pub fn get_max_deduct(&self) -> (r: i128)
        ensures
            r == self@.max_deduct_cap(),
    {
        match self.max_deduct {
            Some(v) => v,
            None => DEFAULT_MAX_DEDUCT,
        }
    }

    /// The tracked balance.
    pub fn balance(&self) -> (r: Result<i128, VaultError>)
        ensures
            match r {
                Ok(b) => self@.balance() == Ok::<int, VaultError>(b as int),
                Err(e) => self@.balance() == Err::<int, VaultError>(e),
            },
    {
        match &self.meta {
            Some(m) => Ok(m.balance),
            None => Err(VaultError::NotInitialized),
        }
    }

    /// Deducts every item of a batch, all or nothing: each item must be positive,
    /// within the cap and covered by what the items before it leave of the
    /// balance. Emits one deduct event per item and, with a revenue pool, moves
    /// the total to it in one transfer. Returns the new balance.
    pub fn batch_deduct(&mut self, caller: &Address, items: &Vec<DeductItem>) -> (r: Result<(i128, Vec<Effect>), VaultError>)
        ensures
            match r {
                Ok((b, effects)) => old(self)@.batch_deduct(caller@, items_view(*items)) == Ok::<Step<int>, VaultError>(
                    (Step { state: final(self)@, effects: effects_view(effects), out: b as int }),
                ),
                Err(e) => old(self)@.batch_deduct(caller@, items_view(*items)) == Err::<Step<int>, VaultError>(e)
                    && *final(self) == *old(self),
            },
            old(self)@.balance_nonneg() ==> final(self)@.balance_nonneg(),
    {
        let cap = self.get_max_deduct();
        let (owner, balance, min) = match &self.meta {
            None => {
                return Err(VaultError::NotInitialized);
            },
            Some(m) => (m.owner.duplicate(), m.balance, m.min_deposit),
        };
        if items.len() == 0 {
            return Err(VaultError::EmptyBatch);
        }
        let ghost iv = items_view(*items);
        let ghost events = batch_events(caller@, iv, balance as int);
        let n = items.len();
        let mut running: i128 = balance;
        let mut total: i128 = 0;
        let mut effects: Vec<Effect> = Vec::new();
        let mut i: usize = 0;
        while i < n
            invariant
                n == items.len(),
                n > 0,
                *self == *old(self),
                cap == old(self)@.max_deduct_cap(),
                old(self)@.meta matches Some(m) && m.balance == balance,
                iv == items_view(*items),
                events == batch_events(caller@, iv, balance as int),
                i <= n,
                batch_error(iv.take(i as int), cap as int, balance as int) is None,
                total as int == amounts_sum(iv.take(i as int)),
                running as int == balance - total,
                total >= 0,
                i > 0 ==> running >= 0,
                effects_view(effects) == events.take(i as int),
            decreases n - i,
        {
            let item = &items[i];
            proof {
                assert(iv.take(i + 1).drop_last() =~= iv.take(i as int));
                assert(iv.take(i + 1).last() == iv[i as int]);
            }
            if item.amount <= 0 {
                proof { lemma_batch_error_prefix(iv, cap as int, balance as int, i + 1); }
                return Err(VaultError::AmountNotPositive);
            }
            if item.amount > cap {
                proof { lemma_batch_error_prefix(iv, cap as int, balance as int, i + 1); }
                return Err(VaultError::ExceedsMaxDeduct);
            }
            if running < item.amount {
                proof { lemma_batch_error_prefix(iv, cap as int, balance as int, i + 1); }
                return Err(VaultError::InsufficientBalance);
            }
            running = running - item.amount;
            total = total + item.amount;
            let request_id = match &item.request_id {
                Some(rid) => copy_bytes(rid),
                None => Vec::new(),
            };
            let ghost before = effects_view(effects);
            effects.push(
                Effect::Emit(
                    VaultEvent::Deduct {
                        caller: caller.duplicate(),
                        request_id,
                        amount: item.amount,
                        new_balance: running,
                    },
                ),
            );
            proof {
                assert(request_id@ == bytes_or_empty(iv[i as int].request_id));
                assert(effects_view(effects) =~= before.push(events[i as int]));
                assert(events.take(i + 1) =~= events.take(i as int).push(events[i as int]));
            }
            i = i + 1;
        }
        proof {
            assert(iv.take(n as int) =~= iv);
            assert(events.take(n as int) =~= events);
        }
        match &self.revenue_pool {
            None => {},
            Some(pool) => match &self.usdc {
                None => {
                    return Err(VaultError::NotInitialized);
                },
                Some(token) => {
                    let ghost before = effects_view(effects);
                    effects.push(Effect::Transfer { token: token.duplicate(), to: pool.duplicate(), amount: total });
                    assert(effects_view(effects) =~= before + old(self)@.pool_transfer(total as int));
                },
            },
        }
        proof {
            if self.revenue_pool is None {
                assert(effects_view(effects) =~= events + old(self)@.pool_transfer(total as int));
            }
        }
        self.meta = Some(VaultMeta { owner, balance: running, min_deposit: min });
        Ok((running, effects))
    }

    /// Replaces the tracked balance.
    fn set_balance(&mut self, balance: i128)
        requires
            old(self).meta is Some,
        ensures
            final(self)@ == old(self)@.with_balance(balance as int),
    {
        match &self.meta {
            Some(m) => {
                let updated = VaultMeta { owner: m.owner.duplicate(), balance, min_deposit: m.min_deposit };
                self.meta = Some(updated);
            },
            None => {},
        }
    }

    /// Deposits `amount` from `caller`, who must be the owner or an allowed depositor:
    /// pulls the pre-approved USDC into the vault and credits the balance.
    /// Returns the new balance.
    pub fn deposit(&mut self, caller: &Address, amount: i128) -> (r: Result<(i128, Vec<Effect>), VaultError>)
        ensures
            match r {
                Ok((b, effects)) => old(self)@.deposit(caller@, amount as int) == Ok::<Step<int>, VaultError>(
                    (Step { state: final(self)@, effects: effects_view(effects), out: b as int }),
                ),
                Err(e) => old(self)@.deposit(caller@, amount as int) == Err::<Step<int>, VaultError>(e)
                    && *final(self) == *old(self),
            },
            old(self)@.balance_nonneg() ==> final(self)@.balance_nonneg(),
    {
        if amount <= 0 {
            return Err(VaultError::AmountNotPositive);
        }
        let authorized = match self.is_authorized_depositor(caller) {
            Err(e) => {
                return Err(e);
            },
            Ok(b) => b,
        };
        if !authorized {
            return Err(VaultError::NotAuthorizedDepositor);
        }
        let (balance, min) = match &self.meta {
            Some(m) => (m.balance, m.min_deposit),
            None => {
                return Err(VaultError::NotInitialized);
            },
        };
        if amount < min {
            return Err(VaultError::BelowMinimum);
        }
        let token = match &self.usdc {
            Some(u) => u.duplicate(),
            None => {
                return Err(VaultError::NotInitialized);
            },
        };
        let new_balance = match balance.checked_add(amount) {
            Some(v) => v,
            None => {
                return Err(VaultError::BalanceOverflow);
            },
        };
        self.set_balance(new_balance);
        let mut effects: Vec<Effect> = Vec::new();
        effects.push(Effect::TransferFrom { token, from: caller.duplicate(), amount });
        effects.push(Effect::Emit(VaultEvent::Deposit { caller: caller.duplicate(), amount, new_balance }));
        assert(effects_view(effects) =~= old(self)@.deposit(caller@, amount as int).unwrap().effects);
        Ok((new_balance, effects))
    }

    /// Deducts `amount` from the balance: it must be positive, within the cap and
    /// covered by the balance. With a revenue pool, the USDC moves to it.
    /// Returns the new balance.
    pub fn deduct(&mut self, caller: &Address, amount: i128, request_id: Option<Vec<u8>>) -> (r: Result<(i128, Vec<Effect>), VaultError>)
        ensures
            match r {
                Ok((b, effects)) => old(self)@.deduct(caller@, amount as int, bytes_opt_view(request_id))
                    == Ok::<Step<int>, VaultError>(
                    (Step { state: final(self)@, effects: effects_view(effects), out: b as int }),
                ),
                Err(e) => old(self)@.deduct(caller@, amount as int, bytes_opt_view(request_id)) == Err::<Step<int>, VaultError>(e)
                    && *final(self) == *old(self),
            },
            old(self)@.balance_nonneg() ==> final(self)@.balance_nonneg(),
    {
        if amount <= 0 {
            return Err(VaultError::AmountNotPositive);
        }
        let cap = self.get_max_deduct();
        if amount > cap {
            return Err(VaultError::ExceedsMaxDeduct);
        }
        let balance = match &self.meta {
            Some(m) => m.balance,
            None => {
                return Err(VaultError::NotInitialized);
            },
        };
        if balance < amount {
            return Err(VaultError::InsufficientBalance);
        }
        let mut effects: Vec<Effect> = Vec::new();
        match &self.revenue_pool {
            None => {},
            Some(pool) => match &self.usdc {
                None => {
                    return Err(VaultError::NotInitialized);
                },
                Some(token) => {
                    effects.push(Effect::Transfer { token: token.duplicate(), to: pool.duplicate(), amount });
                },
            },
        }
        assert(effects_view(effects) =~= old(self)@.pool_transfer(amount as int));
        let new_balance = balance - amount;
        self.set_balance(new_balance);
        let rid = match request_id {
            Some(v) => v,
            None => Vec::new(),
        };
        let ghost before = effects_view(effects);
        effects.push(Effect::Emit(VaultEvent::Deduct { caller: caller.duplicate(), request_id: rid, amount, new_balance }));
        assert(effects_view(effects) =~= old(self)@.deduct(caller@, amount as int, bytes_opt_view(request_id)).unwrap().effects);
        Ok((new_balance, effects))
    }

    /// Withdrawal of `amount` to `to`, or to the owner when `to` is `None`.
    fn withdraw_common(&mut self, to: Option<&Address>, amount: i128) -> (r: Result<(i128, Vec<Effect>), VaultError>)
        ensures
            match r {
                Ok((b, effects)) => old(self)@.withdraw_common(to_view(to), amount as int) == Ok::<Step<int>, VaultError>(
                    (Step { state: final(self)@, effects: effects_view(effects), out: b as int }),
                ),
                Err(e) => old(self)@.withdraw_common(to_view(to), amount as int) == Err::<Step<int>, VaultError>(e)
                    && *final(self) == *old(self),
            },
            old(self)@.balance_nonneg() ==> final(self)@.balance_nonneg(),
    {
        let (owner, balance) = match &self.meta {
            Some(m) => (m.owner.duplicate(), m.balance),
            None => {
                return Err(VaultError::NotInitialized);
            },
        };
        if amount <= 0 {
            return Err(VaultError::AmountNotPositive);
        }
        if balance < amount {
            return Err(VaultError::InsufficientBalance);
        }
        let token = match &self.usdc {
            Some(u) => u.duplicate(),
            None => {
                return Err(VaultError::NotInitialized);
            },
        };
        let new_balance = balance - amount;
        self.set_balance(new_balance);
        let mut effects: Vec<Effect> = Vec::new();
        match to {
            None => {
                effects.push(Effect::Transfer { token, to: owner.duplicate(), amount });
                effects.push(Effect::Emit(VaultEvent::Withdraw { owner, amount, new_balance }));
            },
            Some(t) => {
                effects.push(Effect::Transfer { token, to: t.duplicate(), amount });
                effects.push(Effect::Emit(VaultEvent::WithdrawTo { owner, to: t.duplicate(), amount, new_balance }));
            },
        }
        assert(effects_view(effects) =~= old(self)@.withdraw_common(to_view(to), amount as int).unwrap().effects);
        Ok((new_balance, effects))
    }

    /// Withdraws `amount` of USDC to the owner. Returns the new balance.
    pub fn withdraw(&mut self, amount: i128) -> (r: Result<(i128, Vec<Effect>), VaultError>)
        ensures
            match r {
                Ok((b, effects)) => old(self)@.withdraw(amount as int) == Ok::<Step<int>, VaultError>(
                    (Step { state: final(self)@, effects: effects_view(effects), out: b as int }),
                ),
                Err(e) => old(self)@.withdraw(amount as int) == Err::<Step<int>, VaultError>(e)
                    && *final(self) == *old(self),
            },
            old(self)@.balance_nonneg() ==> final(self)@.balance_nonneg(),
    {
        self.withdraw_common(None, amount)
    }

    /// Withdraws `amount` of USDC to `to`. Returns the new balance.
    pub fn withdraw_to(&mut self, to: &Address, amount: i128) -> (r: Result<(i128, Vec<Effect>), VaultError>)
        ensures
            match r {
                Ok((b, effects)) => old(self)@.withdraw_to(to@, amount as int) == Ok::<Step<int>, VaultError>(
                    (Step { state: final(self)@, effects: effects_view(effects), out: b as int }),
                ),
                Err(e) => old(self)@.withdraw_to(to@, amount as int) == Err::<Step<int>, VaultError>(e)
                    && *final(self) == *old(self),
            },
            old(self)@.balance_nonneg() ==> final(self)@.balance_nonneg(),
    {
        self.withdraw_common(Some(to), amount)
    }

    /// Adds `depositor` to the allowed depositors if it is not listed yet, or, with
    /// `None`, revokes every depositor. Owner only.
    pub fn set_allowed_depositor(&mut self, caller: &Address, depositor: Option<Address>) -> (r: Result<(), VaultError>)
        ensures
            match r {
                Ok(_) => old(self)@.set_allowed_depositor(caller@, address_opt_view(depositor))
                    == Ok::<VaultModel, VaultError>(final(self)@),
                Err(e) => old(self)@.set_allowed_depositor(caller@, address_opt_view(depositor))
                    == Err::<VaultModel, VaultError>(e) && *final(self) == *old(self),
            },
            old(self)@.balance_nonneg() ==> final(self)@.balance_nonneg(),
            old(self)@.allowed_unique() ==> final(self)@.allowed_unique(),
    {
        match self.require_owner(caller) {
            Err(e) => {
                return Err(e);
            },
            Ok(_) => {},
        }
        match depositor {
            None => {
                self.allowed = None;
            },
            Some(addr) => {
                let present = self.is_allowed(&addr);
                let mut taken: Option<Vec<Address>> = None;
                std::mem::swap(&mut taken, &mut self.allowed);
                let mut list = match taken {
                    Some(l) => l,
                    None => Vec::new(),
                };
                let ghost before = addresses_view(list@);
                assert(before =~= match old(self)@.allowed {
                    Some(l) => l,
                    None => Seq::empty(),
                });
                if !present {
                    list.push(addr);
                    proof {
                        assert(addresses_view(list@) =~= before.push(addr@));
                        if old(self)@.allowed_unique() {
                            assert(before.push(addr@).no_duplicates());
                        }
                    }
                }
                self.allowed = Some(list);
            },
        }
        Ok(())
    }

    /// The checks of `distribute` that come before the vault's USDC holding is read:
    /// admin only, positive amount. Returns the token whose holding is to be read.
    pub fn distribute_token(&self, caller: &Address, amount: i128) -> (r: Result<Address, VaultError>)
        ensures
            match r {
                Ok(t) => self@.distribute_token(caller@, amount as int) == Ok::<Seq<u8>, VaultError>(t@),
                Err(e) => self@.distribute_token(caller@, amount as int) == Err::<Seq<u8>, VaultError>(e),
            },
    {
        match self.require_admin(caller) {
            Err(e) => {
                return Err(e);
            },
            Ok(_) => {},
        }
        if amount <= 0 {
            return Err(VaultError::AmountNotPositive);
        }
        match &self.usdc {
            Some(u) => Ok(u.duplicate()),
            None => Err(VaultError::NotInitialized),
        }
    }

    /// Distributes `amount` of the vault's USDC to `to`, given `held`, the vault's
    /// USDC holding. Admin only; the tracked balance is not touched.
    pub fn distribute(&self, caller: &Address, to: &Address, amount: i128, held: i128) -> (r: Result<Vec<Effect>, VaultError>)
        ensures
            match r {
                Ok(effects) => self@.distribute(caller@, to@, amount as int, held as int)
                    == Ok::<Seq<EffectModel>, VaultError>(effects_view(effects)),
                Err(e) => self@.distribute(caller@, to@, amount as int, held as int)
                    == Err::<Seq<EffectModel>, VaultError>(e),
            },
    {
        let token = match self.distribute_token(caller, amount) {
            Err(e) => {
                return Err(e);
            },
            Ok(t) => t,
        };
        if held < amount {
            return Err(VaultError::InsufficientUsdcBalance);
        }
        let mut effects: Vec<Effect> = Vec::new();
        effects.push(Effect::Transfer { token, to: to.duplicate(), amount });
        effects.push(Effect::Emit(VaultEvent::Distribute { to: to.duplicate(), amount }));
        assert(effects_view(effects) =~= self@.distribute(caller@, to@, amount as int, held as int).unwrap());
        Ok(effects)
    }

    /// Makes `new_owner` the owner; it must differ from the current owner.
    pub fn transfer_ownership(&mut self, new_owner: Address) -> (r: Result<Vec<Effect>, VaultError>)
        ensures
            match r {
                Ok(effects) => old(self)@.transfer_ownership(new_owner@) == Ok::<Step<()>, VaultError>(
                    (Step { state: final(self)@, effects: effects_view(effects), out: () }),
                ),
                Err(e) => old(self)@.transfer_ownership(new_owner@) == Err::<Step<()>, VaultError>(e)
                    && *final(self) == *old(self),
            },
            old(self)@.balance_nonneg() ==> final(self)@.balance_nonneg(),
    {
        let (old_owner, balance, min) = match &self.meta {
            Some(m) => (m.owner.duplicate(), m.balance, m.min_deposit),
            None => {
                return Err(VaultError::NotInitialized);
            },
        };
        if new_owner.same_as(&old_owner) {
            return Err(VaultError::SameOwner);
        }
        let mut effects: Vec<Effect> = Vec::new();
        effects.push(
            Effect::Emit(VaultEvent::TransferOwnership { old_owner, new_owner: new_owner.duplicate() }),
        );
        self.meta = Some(VaultMeta { owner: new_owner, balance, min_deposit: min });
        assert(effects_view(effects) =~= old(self)@.transfer_ownership(new_owner@).unwrap().effects);
        Ok(effects)
    }

    /// Stores the settlement contract address. Admin only.
    pub fn set_settlement(&mut self, caller: &Address, settlement_address: Address) -> (r: Result<(), VaultError>)
        ensures
            match r {
                Ok(_) => old(self)@.set_settlement(caller@, settlement_address@) == Ok::<VaultModel, VaultError>(final(self)@),
                Err(e) => old(self)@.set_settlement(caller@, settlement_address@) == Err::<VaultModel, VaultError>(e)
                    && *final(self) == *old(self),
            },
            old(self)@.balance_nonneg() ==> final(self)@.balance_nonneg(),
    {
        match self.require_admin(caller) {
            Err(e) => Err(e),
            Ok(_) => {
                self.settlement = Some(settlement_address);
                Ok(())
            },
        }
    }

    /// The settlement contract address.
    pub fn get_settlement(&self) -> (r: Result<Address, VaultError>)
        ensures
            match r {
                Ok(a) => self@.get_settlement() == Ok::<Seq<u8>, VaultError>(a@),
                Err(e) => self@.get_settlement() == Err::<Seq<u8>, VaultError>(e),
            },
    {
        match &self.settlement {
            Some(a) => Ok(a.duplicate()),
            None => Err(VaultError::SettlementNotSet),
        }
    }

    /// Stores offering metadata under `offering_id`. Owner only. Returns the metadata.
    pub fn set_metadata(&self, caller: &Address, offering_id: Vec<u8>, metadata: Vec<u8>) -> (r: Result<(Vec<u8>, Vec<Effect>), VaultError>)
        ensures
            match r {
                Ok((m, effects)) => m@ == metadata@ && self@.set_metadata(caller@, offering_id@, metadata@)
                    == Ok::<Seq<EffectModel>, VaultError>(effects_view(effects)),
                Err(e) => self@.set_metadata(caller@, offering_id@, metadata@) == Err::<Seq<EffectModel>, VaultError>(e),
            },
    {
        match self.require_owner(caller) {
            Err(e) => {
                return Err(e);
            },
            Ok(_) => {},
        }
        let mut effects: Vec<Effect> = Vec::new();
        effects.push(Effect::StoreMetadata { offering_id: copy_bytes(&offering_id), metadata: copy_bytes(&metadata) });
        effects.push(
            Effect::Emit(
                VaultEvent::MetadataSet { offering_id, caller: caller.duplicate(), metadata: copy_bytes(&metadata) },
            ),
        );
        assert(effects_view(effects) =~= self@.set_metadata(caller@, offering_id@, metadata@).unwrap());
        Ok((metadata, effects))
    }

    /// Replaces the offering metadata under `offering_id`, given `stored`, what is
    /// stored there now; the event carries the old value, or the empty string.
    /// Owner only. Returns the new metadata.
    pub fn update_metadata(
        &self,
        caller: &Address,
        offering_id: Vec<u8>,
        metadata: Vec<u8>,
        stored: Option<Vec<u8>>,
    ) -> (r: Result<(Vec<u8>, Vec<Effect>), VaultError>)
        ensures
            match r {
                Ok((m, effects)) => m@ == metadata@ && self@.update_metadata(caller@, offering_id@, metadata@, bytes_opt_view(stored))
                    == Ok::<Seq<EffectModel>, VaultError>(effects_view(effects)),
                Err(e) => self@.update_metadata(caller@, offering_id@, metadata@, bytes_opt_view(stored))
                    == Err::<Seq<EffectModel>, VaultError>(e),
            },
    {
        match self.require_owner(caller) {
            Err(e) => {
                return Err(e);
            },
            Ok(_) => {},
        }
        let old_metadata = match stored {
            Some(v) => v,
            None => Vec::new(),
        };
        let mut effects: Vec<Effect> = Vec::new();
        effects.push(Effect::StoreMetadata { offering_id: copy_bytes(&offering_id), metadata: copy_bytes(&metadata) });
        effects.push(
            Effect::Emit(
                VaultEvent::MetadataUpdated {
                    offering_id,
                    caller: caller.duplicate(),
                    old_metadata,
                    new_metadata: copy_bytes(&metadata),
                },
            ),
        );
        assert(effects_view(effects) =~= self@.update_metadata(caller@, offering_id@, metadata@, bytes_opt_view(stored)).unwrap());
        Ok((metadata, effects))
    }
}

/// Abstract value of an optional borrowed address.
pub open spec fn to_view(to: Option<&Address>) -> Option<Seq<u8>> {
    match to {
        Some(t) => Some(t@),
        None => None,
    }
}

} // verus!
