//! Properties of the vault that span several calls, proved over the abstract
//! transitions that the calls' contracts are stated in.
use vstd::prelude::*;

use crate::model::{Step, VaultModel, amounts_sum, batch_error, batch_events};
use crate::types::EventModel;
use crate::types::{DeductModel, EffectModel, MetaModel, VaultError};

verus! {

/// Applies single deducts of `items`, in order, stopping at the first refusal;
/// gathers the effects of all of them and the balance the last one returns.
pub open spec fn deduct_each(m: VaultModel, caller: Seq<u8>, items: Seq<DeductModel>) -> Result<Step<int>, VaultError>
    decreases items.len(),
{
    if items.len() == 0 {
        Ok(Step { state: m, effects: Seq::empty(), out: m.meta.unwrap().balance })
    } else {
        match deduct_each(m, caller, items.drop_last()) {
            Err(e) => Err(e),
            Ok(prev) => match prev.state.deduct(caller, items.last().amount, items.last().request_id) {
                Ok(step) => Ok(Step { state: step.state, effects: prev.effects + step.effects, out: step.out }),
                Err(e) => Err(e),
            },
        }
    }
}

/// The events among a list of effects, in order.
pub open spec fn emitted(effects: Seq<EffectModel>) -> Seq<EffectModel>
    decreases effects.len(),
{
    if effects.len() == 0 {
        Seq::empty()
    } else {
        emitted(effects.drop_last()) + if effects.last() is Emit {
            seq![effects.last()]
        } else {
            Seq::empty()
        }
    }
}

/// The total amount of the token transfers out of the vault among a list of effects.
pub open spec fn transferred(effects: Seq<EffectModel>) -> int
    decreases effects.len(),
{
    if effects.len() == 0 {
        0
    } else {
        transferred(effects.drop_last()) + match effects.last() {
            EffectModel::Transfer { amount, .. } => amount,
            _ => 0,
        }
    }
}

/// Events and transferred totals of a concatenation are those of its parts.
proof fn lemma_emitted_transferred_add(a: Seq<EffectModel>, b: Seq<EffectModel>)
    ensures
        emitted(a + b) == emitted(a) + emitted(b),
        transferred(a + b) == transferred(a) + transferred(b),
    decreases b.len(),
{
    if b.len() == 0 {
        assert(a + b =~= a);
        assert(emitted(a) + emitted(b) =~= emitted(a));
    } else {
        lemma_emitted_transferred_add(a, b.drop_last());
        assert((a + b).drop_last() =~= a + b.drop_last());
        assert((a + b).last() == b.last());
        assert(emitted(a + b) =~= emitted(a) + emitted(b));
    }
}

/// A list of events is its own list of events, and moves no tokens.
proof fn lemma_events_only(events: Seq<EffectModel>)
    requires
        forall|i: int| 0 <= i < events.len() ==> #[trigger] events[i] is Emit,
    ensures
        emitted(events) == events,
        transferred(events) == 0,
    decreases events.len(),
{
    if events.len() > 0 {
        lemma_events_only(events.drop_last());
        assert(emitted(events) =~= events);
    }
}

/// Single deducts in sequence refuse exactly where the batch check refuses;
/// otherwise they lower the balance by the sum of the amounts, emit the batch's
/// events, and move that sum to the revenue pool when one is configured.
proof fn lemma_deduct_each(m: VaultModel, caller: Seq<u8>, items: Seq<DeductModel>)
    requires
        m.meta is Some,
        m.revenue_pool is Some ==> m.usdc is Some,
    ensures
        ({
            let bal = m.meta.unwrap().balance;
            match batch_error(items, m.max_deduct_cap(), bal) {
                Some(e) => deduct_each(m, caller, items) == Err::<Step<int>, VaultError>(e),
                None => deduct_each(m, caller, items) matches Ok(s) && {
                    &&& s.state == m.with_balance(bal - amounts_sum(items))
                    &&& s.out == bal - amounts_sum(items)
                    &&& emitted(s.effects) == batch_events(caller, items, bal)
                    &&& transferred(s.effects) == if m.revenue_pool is Some {
                        amounts_sum(items)
                    } else {
                        0
                    }
                    &&& m.revenue_pool is None ==> s.effects == batch_events(caller, items, bal)
                },
            }
        }),
    decreases items.len(),
{
    let bal = m.meta.unwrap().balance;
    if items.len() == 0 {
        assert(m.with_balance(bal - 0) == m);
        assert(batch_events(caller, items, bal) =~= Seq::<EffectModel>::empty());
    } else {
        let rest = items.drop_last();
        lemma_deduct_each(m, caller, rest);
        if batch_error(items, m.max_deduct_cap(), bal) is Some {
            if batch_error(rest, m.max_deduct_cap(), bal) is None {
                let prev = deduct_each(m, caller, rest).unwrap();
                assert(prev.state.meta.unwrap().balance == bal - amounts_sum(rest));
                assert(prev.state.max_deduct_cap() == m.max_deduct_cap());
            }
            assert(deduct_each(m, caller, items) == Err::<Step<int>, VaultError>(
                batch_error(items, m.max_deduct_cap(), bal).unwrap(),
            ));
        } else {
            let prev = deduct_each(m, caller, rest).unwrap();
            let s1 = prev.state;
            let step = s1.deduct(caller, items.last().amount, items.last().request_id).unwrap();
            assert(s1.with_balance(s1.meta.unwrap().balance - items.last().amount) == m.with_balance(
                bal - amounts_sum(items),
            ));
            let ev = step.effects.last();
            assert(step.effects == s1.pool_transfer(items.last().amount) + seq![ev]);
            lemma_emitted_transferred_add(prev.effects, step.effects);
            lemma_emitted_transferred_add(s1.pool_transfer(items.last().amount), seq![ev]);
            lemma_events_only(seq![ev]);
            let pt = s1.pool_transfer(items.last().amount);
            if m.revenue_pool is Some {
                assert(pt.drop_last() =~= Seq::<EffectModel>::empty());
                assert(emitted(pt.drop_last()) =~= Seq::<EffectModel>::empty());
                assert(transferred(pt.drop_last()) == 0);
                assert(transferred(pt) == items.last().amount);
            } else {
                assert(pt =~= Seq::<EffectModel>::empty());
            }
            assert(emitted(pt) =~= Seq::<EffectModel>::empty());
            let whole = batch_events(caller, items, bal);
            let part = batch_events(caller, rest, bal);
            assert forall|i: int| 0 <= i < rest.len() implies #[trigger] whole[i] == part[i] by {
                assert(rest.take(i + 1) =~= items.take(i + 1));
            }
            assert(items.take(items.len() as int) =~= items);
            assert(whole =~= part.push(ev));
            assert(emitted(prev.effects + step.effects) =~= whole);
            if m.revenue_pool is None {
                assert(prev.effects + step.effects =~= whole);
            }
        }
    }
}

/// A batch deduct on an initialized vault (with a token wherever a revenue pool is
/// configured) does what deducting its items one at a time does: refused with the
/// same error, or ending in the same storage, returning the same balance,
/// publishing the same events and sending the revenue pool the same total; with
/// no revenue pool, the effects are the same list.
pub proof fn lemma_batch_is_sequence_of_deducts(m: VaultModel, caller: Seq<u8>, items: Seq<DeductModel>)
    requires
        m.meta is Some,
        m.revenue_pool is Some ==> m.usdc is Some,
        items.len() > 0,
    ensures
        match m.batch_deduct(caller, items) {
            Ok(b) => deduct_each(m, caller, items) matches Ok(s) && {
                &&& s.state == b.state
                &&& s.out == b.out
                &&& emitted(s.effects) == emitted(b.effects)
                &&& transferred(s.effects) == transferred(b.effects)
                &&& m.revenue_pool is None ==> s.effects == b.effects
            },
            Err(e) => deduct_each(m, caller, items) == Err::<Step<int>, VaultError>(e),
        },
{
    lemma_deduct_each(m, caller, items);
    let bal = m.meta.unwrap().balance;
    if m.batch_deduct(caller, items) is Ok {
        let b = m.batch_deduct(caller, items).unwrap();
        let events = batch_events(caller, items, bal);
        let pool = m.pool_transfer(amounts_sum(items));
        lemma_events_only(events);
        lemma_emitted_transferred_add(events, pool);
        if m.revenue_pool is Some {
            lemma_emitted_transferred_add(Seq::empty(), pool);
            assert(Seq::<EffectModel>::empty() + pool =~= pool);
            assert(pool.drop_last() =~= Seq::<EffectModel>::empty());
            assert(emitted(pool) =~= Seq::<EffectModel>::empty());
        } else {
            assert(pool =~= Seq::<EffectModel>::empty());
            assert(events + pool =~= events);
        }
    }
}

/// Every item of a batch that passes the check is positive and within the cap.
proof fn lemma_batch_items_valid(items: Seq<DeductModel>, max: int, balance: int)
    requires
        batch_error(items, max, balance) is None,
    ensures
        forall|i: int| 0 <= i < items.len() ==> 0 < #[trigger] items[i].amount <= max,
        items.len() > 0 ==> amounts_sum(items) <= balance,
    decreases items.len(),
{
    if items.len() > 0 {
        lemma_batch_items_valid(items.drop_last(), max, balance);
        assert forall|i: int| 0 <= i < items.len() implies 0 < #[trigger] items[i].amount <= max by {
            if i < items.len() - 1 {
                assert(items[i] == items.drop_last()[i]);
            }
        }
    }
}

/// Limits are enforced: an accepted deposit is positive and at least the minimum
/// deposit; an accepted deduct, and every item of an accepted batch, is positive
/// and within the per-deduct cap; and no accepted deduct takes more than the balance.
pub proof fn lemma_limits_enforced(m: VaultModel, caller: Seq<u8>, amount: int, request_id: Option<Seq<u8>>, items: Seq<DeductModel>)
    ensures
        m.deposit(caller, amount) is Ok ==> 0 < amount && amount >= m.meta.unwrap().min_deposit,
        m.deduct(caller, amount, request_id) is Ok ==> 0 < amount <= m.max_deduct_cap() && amount <= m.meta.unwrap().balance,
        m.batch_deduct(caller, items) is Ok ==> {
            &&& forall|i: int| 0 <= i < items.len() ==> 0 < #[trigger] items[i].amount <= m.max_deduct_cap()
            &&& amounts_sum(items) <= m.meta.unwrap().balance
        },
{
    if m.batch_deduct(caller, items) is Ok {
        lemma_batch_items_valid(items, m.max_deduct_cap(), m.meta.unwrap().balance);
    }
}

/// Withdrawing what was just deposited succeeds and restores the storage exactly.
pub proof fn lemma_deposit_then_withdraw(m: VaultModel, caller: Seq<u8>, amount: int)
    requires
        m.balance_nonneg(),
        m.deposit(caller, amount) is Ok,
    ensures
        m.deposit(caller, amount).unwrap().state.withdraw(amount) is Ok,
        m.deposit(caller, amount).unwrap().state.withdraw(amount).unwrap().state == m,
        m.deposit(caller, amount).unwrap().state.withdraw(amount).unwrap().out == m.meta.unwrap().balance,
{
    let s1 = m.deposit(caller, amount).unwrap().state;
    assert(s1.with_balance(m.meta.unwrap().balance) == m);
}

/// The value that deposit, deduct, batch deduct and withdraw return is the balance
/// that they leave stored.
pub proof fn lemma_returned_balance_is_stored(
    m: VaultModel,
    caller: Seq<u8>,
    amount: int,
    request_id: Option<Seq<u8>>,
    items: Seq<DeductModel>,
    to: Seq<u8>,
)
    ensures
        m.deposit(caller, amount) matches Ok(s) ==> s.state.balance() == Ok::<int, VaultError>(s.out),
        m.deduct(caller, amount, request_id) matches Ok(s) ==> s.state.balance() == Ok::<int, VaultError>(s.out),
        m.batch_deduct(caller, items) matches Ok(s) ==> s.state.balance() == Ok::<int, VaultError>(s.out),
        m.withdraw(amount) matches Ok(s) ==> s.state.balance() == Ok::<int, VaultError>(s.out),
        m.withdraw_to(to, amount) matches Ok(s) ==> s.state.balance() == Ok::<int, VaultError>(s.out),
{
}

/// With a revenue pool, the USDC that a deduct or a batch deduct sends to it is
/// exactly the amount by which the tracked balance went down.
pub proof fn lemma_pool_receives_deducted_amount(
    m: VaultModel,
    caller: Seq<u8>,
    amount: int,
    request_id: Option<Seq<u8>>,
    items: Seq<DeductModel>,
)
    requires
        m.revenue_pool is Some,
    ensures
        m.deduct(caller, amount, request_id) matches Ok(s) ==> s.effects[0] == (EffectModel::Transfer {
            token: m.usdc.unwrap(),
            to: m.revenue_pool.unwrap(),
            amount: m.meta.unwrap().balance - s.out,
        }),
        m.batch_deduct(caller, items) matches Ok(s) ==> s.effects.last() == (EffectModel::Transfer {
            token: m.usdc.unwrap(),
            to: m.revenue_pool.unwrap(),
            amount: m.meta.unwrap().balance - s.out,
        }),
{
}

/// The owner of an initialized vault may always deposit.
pub proof fn lemma_owner_may_deposit(m: VaultModel)
    requires
        m.meta is Some,
    ensures
        m.is_authorized_depositor(m.meta.unwrap().owner) == Ok::<bool, VaultError>(true),
{
}

/// After the owner adds a depositor, that depositor may deposit, everyone who could
/// deposit before still can, and adding it again changes nothing.
pub proof fn lemma_add_depositor(m: VaultModel, caller: Seq<u8>, depositor: Seq<u8>, other: Seq<u8>)
    requires
        m.set_allowed_depositor(caller, Some(depositor)) is Ok,
    ensures
        ({
            let s = m.set_allowed_depositor(caller, Some(depositor)).unwrap();
            &&& s.is_authorized_depositor(depositor) == Ok::<bool, VaultError>(true)
            &&& m.is_authorized_depositor(other) == Ok::<bool, VaultError>(true) ==> s.is_authorized_depositor(other)
                == Ok::<bool, VaultError>(true)
            &&& s.set_allowed_depositor(caller, Some(depositor)) == Ok::<VaultModel, VaultError>(s)
        }),
{
    let s = m.set_allowed_depositor(caller, Some(depositor)).unwrap();
    let list = match m.allowed {
        Some(l) => l,
        None => Seq::empty(),
    };
    if !list.contains(depositor) {
        assert(list.push(depositor)[list.len() as int] == depositor);
        if list.contains(other) {
            let k = choose|k: int| 0 <= k < list.len() && list[k] == other;
            assert(list.push(depositor)[k] == other);
        }
    }
    assert(s.allowed.unwrap().contains(depositor));
}

/// After the owner revokes all depositors, only the owner may deposit.
pub proof fn lemma_revoke_all_depositors(m: VaultModel, caller: Seq<u8>, who: Seq<u8>)
    requires
        m.set_allowed_depositor(caller, None) is Ok,
    ensures
        m.set_allowed_depositor(caller, None).unwrap().is_authorized_depositor(who)
            == Ok::<bool, VaultError>(who == m.meta.unwrap().owner),
{
}

/// After the admin hands the role over, the new admin is reported and the former
/// admin (if another address) can no longer act as admin.
pub proof fn lemma_admin_rotation(m: VaultModel, caller: Seq<u8>, new_admin: Seq<u8>, next: Seq<u8>)
    requires
        m.set_admin(caller, new_admin) is Ok,
    ensures
        m.set_admin(caller, new_admin).unwrap().get_admin() == Ok::<Seq<u8>, VaultError>(new_admin),
        caller != new_admin ==> m.set_admin(caller, new_admin).unwrap().set_admin(caller, next)
            == Err::<VaultModel, VaultError>(VaultError::NotAdmin),
{
}

/// After an ownership transfer, the new owner has the owner's rights, the former
/// owner has lost them, and the balance is unchanged.
pub proof fn lemma_ownership_transfer(m: VaultModel, new_owner: Seq<u8>)
    requires
        m.transfer_ownership(new_owner) is Ok,
    ensures
        ({
            let s = m.transfer_ownership(new_owner).unwrap().state;
            &&& s.owner_check(new_owner) == Ok::<(), VaultError>(())
            &&& s.owner_check(m.meta.unwrap().owner) == Err::<(), VaultError>(VaultError::NotOwner)
            &&& s.balance() == m.balance()
        }),
{
}

/// A stored settlement address is the one reported afterwards.
pub proof fn lemma_settlement_roundtrip(m: VaultModel, caller: Seq<u8>, settlement: Seq<u8>)
    requires
        m.set_settlement(caller, settlement) is Ok,
    ensures
        m.set_settlement(caller, settlement).unwrap().get_settlement() == Ok::<Seq<u8>, VaultError>(settlement),
{
}

/// A vault is initialized at most once: after a successful `init`, every further
/// `init` is refused.
pub proof fn lemma_init_once(
    m: VaultModel,
    owner: Seq<u8>,
    usdc: Seq<u8>,
    initial_balance: Option<int>,
    min_deposit: Option<int>,
    revenue_pool: Option<Seq<u8>>,
    max_deduct: Option<int>,
    owner2: Seq<u8>,
    usdc2: Seq<u8>,
    initial_balance2: Option<int>,
    min_deposit2: Option<int>,
    revenue_pool2: Option<Seq<u8>>,
    max_deduct2: Option<int>,
)
    requires
        m.init(owner, usdc, initial_balance, min_deposit, revenue_pool, max_deduct) is Ok,
    ensures
        m.init(owner, usdc, initial_balance, min_deposit, revenue_pool, max_deduct).unwrap().state.init(
            owner2,
            usdc2,
            initial_balance2,
            min_deposit2,
            revenue_pool2,
            max_deduct2,
        ) is Err,
{
}

} // verus!

verus! {

/// A call that can change the vault's storage, with its arguments. (The other
/// calls take the storage by shared reference and leave it as it is.)
pub enum VaultCall {
    Init {
        owner: Seq<u8>,
        usdc: Seq<u8>,
        initial_balance: Option<int>,
        min_deposit: Option<int>,
        revenue_pool: Option<Seq<u8>>,
        max_deduct: Option<int>,
    },
    SetAdmin { caller: Seq<u8>, new_admin: Seq<u8> },
    SetAllowedDepositor { caller: Seq<u8>, depositor: Option<Seq<u8>> },
    Deposit { caller: Seq<u8>, amount: int },
    Deduct { caller: Seq<u8>, amount: int, request_id: Option<Seq<u8>> },
    BatchDeduct { caller: Seq<u8>, items: Seq<DeductModel> },
    Withdraw { amount: int },
    WithdrawTo { to: Seq<u8>, amount: int },
    TransferOwnership { new_owner: Seq<u8> },
    SetSettlement { caller: Seq<u8>, settlement: Seq<u8> },
}

/// The storage after `call`, or its refusal.
pub open spec fn apply_call(m: VaultModel, call: VaultCall) -> Result<VaultModel, VaultError> {
    match call {
        VaultCall::Init { owner, usdc, initial_balance, min_deposit, revenue_pool, max_deduct } => match m.init(
            owner,
            usdc,
            initial_balance,
            min_deposit,
            revenue_pool,
            max_deduct,
        ) {
            Ok(s) => Ok(s.state),
            Err(e) => Err(e),
        },
        VaultCall::SetAdmin { caller, new_admin } => m.set_admin(caller, new_admin),
        VaultCall::SetAllowedDepositor { caller, depositor } => m.set_allowed_depositor(caller, depositor),
        VaultCall::Deposit { caller, amount } => match m.deposit(caller, amount) {
            Ok(s) => Ok(s.state),
            Err(e) => Err(e),
        },
        VaultCall::Deduct { caller, amount, request_id } => match m.deduct(caller, amount, request_id) {
            Ok(s) => Ok(s.state),
            Err(e) => Err(e),
        },
        VaultCall::BatchDeduct { caller, items } => match m.batch_deduct(caller, items) {
            Ok(s) => Ok(s.state),
            Err(e) => Err(e),
        },
        VaultCall::Withdraw { amount } => match m.withdraw(amount) {
            Ok(s) => Ok(s.state),
            Err(e) => Err(e),
        },
        VaultCall::WithdrawTo { to, amount } => match m.withdraw_to(to, amount) {
            Ok(s) => Ok(s.state),
            Err(e) => Err(e),
        },
        VaultCall::TransferOwnership { new_owner } => match m.transfer_ownership(new_owner) {
            Ok(s) => Ok(s.state),
            Err(e) => Err(e),
        },
        VaultCall::SetSettlement { caller, settlement } => m.set_settlement(caller, settlement),
    }
}

/// The storage of a fresh vault after `calls`, in order; a refused call leaves the
/// storage as it was.
pub open spec fn run_calls(calls: Seq<VaultCall>) -> VaultModel
    decreases calls.len(),
{
    if calls.len() == 0 {
        VaultModel::empty()
    } else {
        let before = run_calls(calls.drop_last());
        match apply_call(before, calls.last()) {
            Ok(after) => after,
            Err(_) => before,
        }
    }
}

/// What holds of every storage the vault can reach: the balance is not negative,
/// no depositor is listed twice, an initialized vault has its token and its admin,
/// and a revenue pool comes with the token it is paid in.
pub open spec fn reachable_invariant(m: VaultModel) -> bool {
    &&& m.balance_nonneg()
    &&& m.allowed_unique()
    &&& m.meta is Some ==> m.usdc is Some && m.admin is Some
    &&& m.revenue_pool is Some ==> m.usdc is Some
}

/// Every call that is accepted keeps the invariant.
proof fn lemma_call_keeps_invariant(m: VaultModel, call: VaultCall)
    requires
        reachable_invariant(m),
    ensures
        apply_call(m, call) matches Ok(s) ==> reachable_invariant(s),
{
    match call {
        VaultCall::SetAllowedDepositor { caller, depositor } => {
            if let Ok(s) = m.set_allowed_depositor(caller, depositor) {
                if let Some(a) = depositor {
                    let list = match m.allowed {
                        Some(l) => l,
                        None => Seq::empty(),
                    };
                    if !list.contains(a) {
                        assert(list.push(a).no_duplicates());
                    }
                }
            }
        },
        _ => {},
    }
}

/// Every storage reachable from a fresh vault satisfies [`reachable_invariant`].
pub proof fn lemma_reachable_invariant(calls: Seq<VaultCall>)
    ensures
        reachable_invariant(run_calls(calls)),
    decreases calls.len(),
{
    if calls.len() > 0 {
        lemma_reachable_invariant(calls.drop_last());
        lemma_call_keeps_invariant(run_calls(calls.drop_last()), calls.last());
    }
}

/// In every storage reachable from a fresh vault, `balance` reports the balance of
/// the stored metadata, and that balance is not negative.
pub proof fn lemma_reachable_balance(calls: Seq<VaultCall>)
    ensures
        run_calls(calls).meta matches Some(meta) ==> {
            &&& run_calls(calls).balance() == Ok::<int, VaultError>(meta.balance)
            &&& run_calls(calls).get_meta() == Ok::<MetaModel, VaultError>(meta)
            &&& meta.balance >= 0
        },
{
    lemma_reachable_invariant(calls);
}

} // verus!

verus! {

/// The offering metadata kept in storage after the host performs `effects` on
/// `store` (offering id to metadata).
pub open spec fn apply_metadata(store: Map<Seq<u8>, Seq<u8>>, effects: Seq<EffectModel>) -> Map<Seq<u8>, Seq<u8>>
    decreases effects.len(),
{
    if effects.len() == 0 {
        store
    } else {
        let before = apply_metadata(store, effects.drop_last());
        match effects.last() {
            EffectModel::StoreMetadata { offering_id, metadata } => before.insert(offering_id, metadata),
            _ => before,
        }
    }
}

/// After an accepted `set_metadata` or `update_metadata`, reading the offering id
/// gives the new metadata and every other offering id reads as before.
pub proof fn lemma_metadata_read_back(
    m: VaultModel,
    store: Map<Seq<u8>, Seq<u8>>,
    caller: Seq<u8>,
    offering_id: Seq<u8>,
    metadata: Seq<u8>,
)
    ensures
        m.set_metadata(caller, offering_id, metadata) matches Ok(effects) ==> apply_metadata(store, effects)
            == store.insert(offering_id, metadata),
        m.update_metadata(caller, offering_id, metadata, store.get(offering_id)) matches Ok(effects) ==> apply_metadata(
            store,
            effects,
        ) == store.insert(offering_id, metadata),
{
    if let Ok(effects) = m.set_metadata(caller, offering_id, metadata) {
        assert(effects.drop_last().drop_last() =~= Seq::<EffectModel>::empty());
        assert(apply_metadata(store, effects.drop_last().drop_last()) == store);
        assert(apply_metadata(store, effects.drop_last()) == store.insert(offering_id, metadata));
    }
    if let Ok(effects) = m.update_metadata(caller, offering_id, metadata, store.get(offering_id)) {
        assert(effects.drop_last().drop_last() =~= Seq::<EffectModel>::empty());
        assert(apply_metadata(store, effects.drop_last().drop_last()) == store);
        assert(apply_metadata(store, effects.drop_last()) == store.insert(offering_id, metadata));
    }
}

} // verus!

verus! {

// What each call does, stated in terms of its inputs and results.

/// `x` is on the allowed-depositors list of `m`.
pub open spec fn listed(m: VaultModel, x: Seq<u8>) -> bool {
    m.allowed matches Some(l) && l.contains(x)
}

/// Sum of the amounts of `items`.
pub open spec fn total(items: Seq<DeductModel>) -> int
    decreases items.len(),
{
    if items.len() == 0 {
        0
    } else {
        items[0].amount + total(items.drop_first())
    }
}

/// `after` is `before` with only the balance in the metadata replaced by `balance`.
pub open spec fn only_balance_now(before: VaultModel, after: VaultModel, balance: int) -> bool {
    &&& before.meta matches Some(b) && after.meta matches Some(a) && a.owner == b.owner && a.min_deposit
        == b.min_deposit && a.balance == balance
    &&& after.usdc == before.usdc
    &&& after.admin == before.admin
    &&& after.settlement == before.settlement
    &&& after.revenue_pool == before.revenue_pool
    &&& after.max_deduct == before.max_deduct
    &&& after.allowed == before.allowed
}

proof fn lemma_total_is_sum(items: Seq<DeductModel>)
    ensures
        total(items) == amounts_sum(items),
    decreases items.len(),
{
    if items.len() > 0 {
        lemma_total_is_sum(items.drop_last());
        lemma_total_is_sum(items.drop_first());
        if items.len() > 1 {
            lemma_total_is_sum(items.drop_first().drop_last());
            assert(items.drop_first().drop_last() =~= items.drop_last().drop_first());
            assert(items.drop_first().last() == items.last());
            assert(items.drop_last()[0] == items[0]);
        } else {
            assert(items.drop_first() =~= Seq::<DeductModel>::empty());
            assert(items.drop_last() =~= Seq::<DeductModel>::empty());
        }
    }
}

/// A deposit is accepted exactly when the amount is positive, the vault is
/// initialized with its token, the caller is the owner or listed, the amount
/// reaches the minimum and the new balance fits in `i128`. It then pulls the
/// amount from the caller (whoever the owner is) into the vault, raises the
/// balance by exactly the amount, changes nothing else, and reports the new balance.
pub proof fn lemma_deposit_behaviour(m: VaultModel, caller: Seq<u8>, amount: int)
    ensures
        m.deposit(caller, amount) is Ok <==> {
            &&& amount > 0
            &&& m.meta matches Some(meta) && (caller == meta.owner || listed(m, caller)) && amount
                >= meta.min_deposit && meta.balance + amount <= i128::MAX
            &&& m.usdc is Some
        },
        m.deposit(caller, amount) matches Ok(s) ==> {
            &&& s.out == m.meta.unwrap().balance + amount
            &&& only_balance_now(m, s.state, s.out)
            &&& s.effects.len() == 2
            &&& s.effects[0] == (EffectModel::TransferFrom { token: m.usdc.unwrap(), from: caller, amount })
            &&& s.effects[1] == EffectModel::Emit(EventModel::Deposit { caller, amount, new_balance: s.out })
        },
{
}

/// A caller that is neither the owner nor listed is refused a positive deposit.
pub proof fn lemma_strangers_cannot_deposit(m: VaultModel, caller: Seq<u8>, amount: int)
    requires
        m.meta matches Some(meta) && caller != meta.owner,
        !listed(m, caller),
        amount > 0,
    ensures
        m.deposit(caller, amount) == Err::<Step<int>, VaultError>(VaultError::NotAuthorizedDepositor),
{
}

/// On an initialized vault, `is_authorized_depositor(x)` says whether `x` is the
/// owner or on the allowed list, and nothing else.
pub proof fn lemma_authorized_depositor_behaviour(m: VaultModel, x: Seq<u8>)
    ensures
        m.meta matches Some(meta) ==> m.is_authorized_depositor(x) == Ok::<bool, VaultError>(
            x == meta.owner || listed(m, x),
        ),
        m.meta is None ==> m.is_authorized_depositor(x) == Err::<bool, VaultError>(VaultError::NotInitialized),
{
}

/// A distribution is accepted exactly when the caller is the admin, the amount is
/// positive, the token is known and the vault holds at least the amount. It then
/// transfers exactly the amount to the recipient, whatever the holding, and
/// announces it; the holding matters only for whether it is accepted.
pub proof fn lemma_distribute_behaviour(m: VaultModel, caller: Seq<u8>, to: Seq<u8>, amount: int, held: int, held2: int)
    ensures
        m.distribute(caller, to, amount, held) is Ok <==> (m.admin == Some(caller) && amount > 0 && m.usdc is Some
            && held >= amount),
        m.distribute(caller, to, amount, held) matches Ok(e) ==> e == seq![
            EffectModel::Transfer { token: m.usdc.unwrap(), to, amount },
            EffectModel::Emit(EventModel::Distribute { to, amount }),
        ],
        held >= amount && held2 >= amount ==> m.distribute(caller, to, amount, held) == m.distribute(
            caller,
            to,
            amount,
            held2,
        ),
{
}

/// A withdrawal (to the owner or to any address) is accepted exactly when the vault
/// is initialized with its token and `0 < amount <= balance`; the two kinds are
/// accepted on the same amounts and leave the same storage. The balance goes down by
/// exactly the amount, nothing else changes, and exactly the amount is transferred
/// to the owner, or to `to`.
pub proof fn lemma_withdraw_behaviour(m: VaultModel, to: Seq<u8>, amount: int)
    ensures
        m.withdraw(amount) is Ok <==> (m.meta matches Some(meta) && 0 < amount <= meta.balance && m.usdc is Some),
        m.withdraw_to(to, amount) is Ok <==> m.withdraw(amount) is Ok,
        m.withdraw(amount) matches Ok(s) ==> {
            &&& s.out == m.meta.unwrap().balance - amount
            &&& only_balance_now(m, s.state, s.out)
            &&& s.effects[0] == (EffectModel::Transfer { token: m.usdc.unwrap(), to: m.meta.unwrap().owner, amount })
            &&& s.effects[1] == EffectModel::Emit(
                EventModel::Withdraw { owner: m.meta.unwrap().owner, amount, new_balance: s.out },
            )
            &&& s.effects.len() == 2
        },
        m.withdraw_to(to, amount) matches Ok(s) ==> {
            &&& s.out == m.meta.unwrap().balance - amount
            &&& s.state == m.withdraw(amount).unwrap().state
            &&& only_balance_now(m, s.state, s.out)
            &&& s.effects[0] == (EffectModel::Transfer { token: m.usdc.unwrap(), to, amount })
            &&& s.effects[1] == EffectModel::Emit(
                EventModel::WithdrawTo { owner: m.meta.unwrap().owner, to, amount, new_balance: s.out },
            )
            &&& s.effects.len() == 2
        },
{
}

/// The admin may always hand the role to anyone, whoever the owner is, and that
/// changes only the admin; anyone else is refused.
pub proof fn lemma_set_admin_behaviour(m: VaultModel, caller: Seq<u8>, new_admin: Seq<u8>)
    ensures
        m.admin == Some(caller) ==> m.set_admin(caller, new_admin) == Ok::<VaultModel, VaultError>(
            VaultModel { admin: Some(new_admin), ..m },
        ),
        m.admin matches Some(a) && a != caller ==> m.set_admin(caller, new_admin) == Err::<VaultModel, VaultError>(
            VaultError::NotAdmin,
        ),
        m.admin is None ==> m.set_admin(caller, new_admin) == Err::<VaultModel, VaultError>(VaultError::NotInitialized),
{
}

/// Only the admin may store the settlement address, whoever the owner is; it
/// changes only that address.
pub proof fn lemma_set_settlement_behaviour(m: VaultModel, caller: Seq<u8>, settlement: Seq<u8>)
    ensures
        m.admin == Some(caller) ==> m.set_settlement(caller, settlement) == Ok::<VaultModel, VaultError>(
            VaultModel { settlement: Some(settlement), ..m },
        ),
        m.admin != Some(caller) ==> m.set_settlement(caller, settlement) is Err,
{
}

/// A single deduct is accepted exactly when `0 < amount <= cap`, the vault is
/// initialized, the amount is covered by the balance and a configured revenue pool
/// has its token. It lowers the balance by exactly the amount, changes nothing
/// else, sends exactly the amount to the revenue pool when one is configured, and
/// announces the caller, the request id (empty when none), the amount and the new balance.
pub proof fn lemma_deduct_behaviour(m: VaultModel, caller: Seq<u8>, amount: int, request_id: Option<Seq<u8>>)
    ensures
        m.deduct(caller, amount, request_id) is Ok <==> {
            &&& 0 < amount
            &&& amount <= match m.max_deduct {
                Some(cap) => cap,
                None => i128::MAX as int,
            }
            &&& m.meta matches Some(meta) && amount <= meta.balance
            &&& m.revenue_pool is Some ==> m.usdc is Some
        },
        m.deduct(caller, amount, request_id) matches Ok(s) ==> {
            &&& s.out == m.meta.unwrap().balance - amount
            &&& only_balance_now(m, s.state, s.out)
            &&& s.effects.last() == EffectModel::Emit(
                EventModel::Deduct {
                    caller,
                    request_id: match request_id {
                        Some(r) => r,
                        None => Seq::empty(),
                    },
                    amount,
                    new_balance: s.out,
                },
            )
            &&& m.revenue_pool is None ==> s.effects.len() == 1
            &&& m.revenue_pool matches Some(pool) ==> s.effects.len() == 2 && s.effects[0] == (EffectModel::Transfer {
                token: m.usdc.unwrap(),
                to: pool,
                amount,
            })
        },
{
}

/// With positive amounts, each item passes its check exactly when all items are
/// within the cap and their total is covered by the balance.
proof fn lemma_batch_error_none(items: Seq<DeductModel>, max: int, balance: int)
    requires
        items.len() > 0,
    ensures
        batch_error(items, max, balance) is None <==> (forall|i: int|
            0 <= i < items.len() ==> 0 < #[trigger] items[i].amount <= max) && amounts_sum(items) <= balance,
    decreases items.len(),
{
    let rest = items.drop_last();
    if (forall|i: int| 0 <= i < items.len() ==> 0 < #[trigger] items[i].amount <= max) && amounts_sum(items) <= balance {
        if rest.len() > 0 {
            assert forall|i: int| 0 <= i < rest.len() implies 0 < #[trigger] rest[i].amount <= max by {
                assert(rest[i] == items[i]);
            }
            assert(items.last() == items[items.len() - 1]);
            lemma_batch_error_none(rest, max, balance);
        }
        assert(items.last() == items[items.len() - 1]);
    }
    if batch_error(items, max, balance) is None {
        lemma_batch_items_valid(items, max, balance);
    }
}

/// A batch deduct is accepted exactly when the vault is initialized, the batch is
/// not empty, every amount is positive and within the cap, the total is covered by
/// the balance and a configured revenue pool has its token. It lowers the balance by
/// exactly the total and changes nothing else. It announces one deduct per item, in
/// order: the first from the old balance less its amount, each next from the
/// previous one less its amount, the last at the returned balance; then, with a
/// revenue pool, one transfer of the total to it.
pub proof fn lemma_batch_deduct_behaviour(m: VaultModel, caller: Seq<u8>, items: Seq<DeductModel>)
    ensures
        m.batch_deduct(caller, items) is Ok <==> {
            &&& m.meta matches Some(meta) && total(items) <= meta.balance
            &&& items.len() > 0
            &&& forall|i: int| 0 <= i < items.len() ==> 0 < #[trigger] items[i].amount <= match m.max_deduct {
                Some(cap) => cap,
                None => i128::MAX as int,
            }
            &&& m.revenue_pool is Some ==> m.usdc is Some
        },
        m.batch_deduct(caller, items) matches Ok(s) ==> {
            &&& s.out == m.meta.unwrap().balance - total(items)
            &&& only_balance_now(m, s.state, s.out)
            &&& s.effects.len() == items.len() + if m.revenue_pool is Some {
                1int
            } else {
                0int
            }
            &&& forall|i: int|
                0 <= i < items.len() ==> (#[trigger] s.effects[i] matches EffectModel::Emit(
                    EventModel::Deduct { caller: c, request_id: r, amount: a, new_balance: nb },
                ) && c == caller && a == items[i].amount && r == match items[i].request_id {
                    Some(x) => x,
                    None => Seq::empty(),
                } && nb == (if i == 0 {
                    m.meta.unwrap().balance
                } else {
                    s.effects[i - 1]->Emit_0->Deduct_new_balance
                }) - items[i].amount)
            &&& s.effects[items.len() - 1]->Emit_0->Deduct_new_balance == s.out
            &&& m.revenue_pool matches Some(pool) ==> s.effects.last() == (EffectModel::Transfer {
                token: m.usdc.unwrap(),
                to: pool,
                amount: total(items),
            })
        },
{
    lemma_total_is_sum(items);
    let cap = m.max_deduct_cap();
    if m.meta is Some && items.len() > 0 {
        let bal = m.meta.unwrap().balance;
        lemma_batch_error_none(items, cap, bal);
        if m.batch_deduct(caller, items) is Ok {
            let s = m.batch_deduct(caller, items).unwrap();
            let ev = batch_events(caller, items, bal);
            assert forall|i: int| 0 <= i < items.len() implies s.effects[i] == ev[i] by {}
            assert forall|i: int| 1 <= i < items.len() implies amounts_sum(#[trigger] items.take(i + 1)) == amounts_sum(
                items.take(i),
            ) + items[i].amount by {
                assert(items.take(i + 1).drop_last() =~= items.take(i));
            }
            assert(items.take(1).drop_last() =~= Seq::<DeductModel>::empty());
            assert(items.take(items.len() as int) =~= items);
            assert forall|i: int| 0 <= i < items.len() implies (#[trigger] s.effects[i] matches EffectModel::Emit(
                EventModel::Deduct { caller: c, request_id: r, amount: a, new_balance: nb },
            ) && c == caller && a == items[i].amount && r == match items[i].request_id {
                Some(x) => x,
                None => Seq::empty(),
            } && nb == (if i == 0 {
                bal
            } else {
                s.effects[i - 1]->Emit_0->Deduct_new_balance
            }) - items[i].amount) by {
                assert(s.effects[i] == ev[i]);
                assert(items.take(i + 1).drop_last() =~= items.take(i));
                if i > 0 {
                    assert(s.effects[i - 1] == ev[i - 1]);
                }
            }
            assert(s.effects[items.len() - 1] == ev[items.len() - 1]);
            if m.revenue_pool is Some {
                assert(s.effects.last() == m.pool_transfer(amounts_sum(items))[0]);
            }
        }
    }
}

/// An ownership transfer is accepted exactly when the vault is initialized and the
/// new owner differs from the current one. It replaces only the owner (balance,
/// minimum deposit, admin and everything else stay) and announces old and new owner.
pub proof fn lemma_transfer_ownership_behaviour(m: VaultModel, new_owner: Seq<u8>)
    ensures
        m.transfer_ownership(new_owner) is Ok <==> (m.meta matches Some(meta) && meta.owner != new_owner),
        m.transfer_ownership(new_owner) matches Ok(s) ==> {
            &&& s.state.meta == Some(
                MetaModel {
                    owner: new_owner,
                    balance: m.meta.unwrap().balance,
                    min_deposit: m.meta.unwrap().min_deposit,
                },
            )
            &&& s.state == VaultModel { meta: s.state.meta, ..m }
            &&& s.effects == seq![
                EffectModel::Emit(EventModel::TransferOwnership { old_owner: m.meta.unwrap().owner, new_owner }),
            ]
        },
{
}

/// Only the owner manages the allowed depositors. Adding `a` lists exactly what was
/// listed plus `a`; revoking lists nobody; nothing else changes.
pub proof fn lemma_set_allowed_depositor_behaviour(m: VaultModel, caller: Seq<u8>, depositor: Option<Seq<u8>>, x: Seq<u8>)
    ensures
        m.set_allowed_depositor(caller, depositor) is Ok <==> (m.meta matches Some(meta) && meta.owner == caller),
        m.set_allowed_depositor(caller, depositor) matches Ok(s) ==> {
            &&& s == VaultModel { allowed: s.allowed, ..m }
            &&& listed(s, x) <==> (depositor matches Some(a) && (x == a || listed(m, x)))
        },
{
    if let Ok(s) = m.set_allowed_depositor(caller, depositor) {
        if let Some(a) = depositor {
            let list = match m.allowed {
                Some(l) => l,
                None => Seq::empty(),
            };
            if !list.contains(a) {
                if list.push(a).contains(x) {
                    let k = choose|k: int| 0 <= k < list.push(a).len() && list.push(a)[k] == x;
                    if k < list.len() {
                        assert(list[k] == x);
                    }
                }
                if list.contains(x) {
                    let k = choose|k: int| 0 <= k < list.len() && list[k] == x;
                    assert(list.push(a)[k] == x);
                }
                assert(list.push(a)[list.len() as int] == a);
            }
        }
    }
}

/// `init` is accepted exactly on a vault without metadata and with a non-negative
/// initial balance (default 0). It makes `owner` owner and admin, stores the token,
/// the balance, the minimum deposit (default 0), the cap (default no cap) and the
/// given revenue pool, leaves settlement and depositors as they were, returns the
/// stored metadata and announces owner and balance.
pub proof fn lemma_init_behaviour(
    m: VaultModel,
    owner: Seq<u8>,
    usdc: Seq<u8>,
    initial_balance: Option<int>,
    min_deposit: Option<int>,
    revenue_pool: Option<Seq<u8>>,
    max_deduct: Option<int>,
)
    ensures
        m.init(owner, usdc, initial_balance, min_deposit, revenue_pool, max_deduct) is Ok <==> (m.meta is None && (
        initial_balance matches Some(b) ==> b >= 0)),
        m.init(owner, usdc, initial_balance, min_deposit, revenue_pool, max_deduct) matches Ok(s) ==> {
            let balance = if initial_balance is Some {
                initial_balance.unwrap()
            } else {
                0
            };
            &&& s.out == MetaModel {
                owner,
                balance,
                min_deposit: if min_deposit is Some {
                    min_deposit.unwrap()
                } else {
                    0
                },
            }
            &&& s.state.meta == Some(s.out)
            &&& s.state.usdc == Some(usdc)
            &&& s.state.admin == Some(owner)
            &&& s.state.max_deduct == Some(
                if max_deduct is Some {
                    max_deduct.unwrap()
                } else {
                    i128::MAX as int
                },
            )
            &&& revenue_pool is Some ==> s.state.revenue_pool == revenue_pool
            &&& revenue_pool is None ==> s.state.revenue_pool == m.revenue_pool
            &&& s.state.settlement == m.settlement
            &&& s.state.allowed == m.allowed
            &&& s.effects == seq![EffectModel::Emit(EventModel::Init { owner, balance })]
        },
{
}

/// Only the owner stores or updates offering metadata; an accepted call stores the
/// new metadata under the offering id and announces id, caller and metadata (and,
/// for an update, the value it replaces, or the empty string).
pub proof fn lemma_metadata_behaviour(
    m: VaultModel,
    caller: Seq<u8>,
    offering_id: Seq<u8>,
    metadata: Seq<u8>,
    stored: Option<Seq<u8>>,
)
    ensures
        m.set_metadata(caller, offering_id, metadata) is Ok <==> (m.meta matches Some(meta) && meta.owner == caller),
        m.update_metadata(caller, offering_id, metadata, stored) is Ok <==> (m.meta matches Some(meta) && meta.owner
            == caller),
        m.set_metadata(caller, offering_id, metadata) matches Ok(e) ==> e == seq![
            EffectModel::StoreMetadata { offering_id, metadata },
            EffectModel::Emit(EventModel::MetadataSet { offering_id, caller, metadata }),
        ],
        m.update_metadata(caller, offering_id, metadata, stored) matches Ok(e) ==> e == seq![
            EffectModel::StoreMetadata { offering_id, metadata },
            EffectModel::Emit(
                EventModel::MetadataUpdated {
                    offering_id,
                    caller,
                    old_metadata: match stored {
                        Some(v) => v,
                        None => Seq::empty(),
                    },
                    new_metadata: metadata,
                },
            ),
        ],
{
}

} // verus!
