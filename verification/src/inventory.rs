//! The item inventory store: per-owner (item kind, quantity) balances.
//!
//! An inventory is well formed when no two balance entries share an item
//! kind and no entry holds a zero quantity: debiting a balance down to
//! exactly zero removes the entry entirely. The balance of an item kind is
//! modeled by [`seq_balance`], the sum of the quantities of its entries,
//! which tolerates (transient) duplicate entries by summing.

use vstd::prelude::*;

use crate::errors::ReducerError;
use crate::keyed::{lemma_find_first_at, lemma_find_first_push};
use crate::types::Identity;
use crate::world::{
    balance, find_inventory_index, inv_with_owner, inventories_agree_except, inventory_lookup,
    lemma_inventory_table_update, same_except_inventories, World,
};

verus! {

/// Number of distinct item slots a freshly provisioned inventory offers.
pub const DEFAULT_INVENTORY_SIZE: u32 = 36;

/// One balance entry: a quantity of one item kind.
#[derive(Clone, Copy, PartialEq, Eq, Structural, Debug)]
pub struct ItemRef {
    pub id: u32,
    pub quantity: u32,
}

/// The inventory of one owner: a bounded set of balance entries.
#[derive(Debug)]
pub struct Inventory {
    pub identity: Identity,
    /// Maximum number of distinct item slots.
    pub size: u32,
    pub items: Vec<ItemRef>,
}

/// What one entry contributes to the balance of item kind `k`.
pub open spec fn item_contrib(r: ItemRef, k: u32) -> int {
    if r.id == k {
        r.quantity as int
    } else {
        0
    }
}

/// The balance of item kind `k`: the sum of the quantities of its entries.
pub open spec fn seq_balance(items: Seq<ItemRef>, k: u32) -> int
    decreases items.len(),
{
    if items.len() == 0 {
        0
    } else {
        item_contrib(items[0], k) + seq_balance(items.drop_first(), k)
    }
}

/// Well-formedness of a balance list: distinct item kinds, no zero entries.
pub open spec fn items_wf(items: Seq<ItemRef>) -> bool {
    &&& forall|i: int, j: int| 0 <= i < j < items.len() ==> items[i].id != items[j].id
    &&& forall|i: int| 0 <= i < items.len() ==> items[i].quantity > 0
}

/// Some entry of `items` carries item kind `k`.
pub open spec fn has_entry(items: Seq<ItemRef>, k: u32) -> bool {
    exists|i: int| 0 <= i < items.len() && items[i].id == k
}

pub proof fn lemma_seq_balance_nonneg(items: Seq<ItemRef>, k: u32)
    ensures
        0 <= seq_balance(items, k),
    decreases items.len(),
{
    if items.len() > 0 {
        lemma_seq_balance_nonneg(items.drop_first(), k);
    }
}

pub proof fn lemma_seq_balance_concat(a: Seq<ItemRef>, b: Seq<ItemRef>, k: u32)
    ensures
        seq_balance(a + b, k) == seq_balance(a, k) + seq_balance(b, k),
    decreases a.len(),
{
    if a.len() == 0 {
        assert(a + b =~= b);
    } else {
        assert((a + b)[0] == a[0]);
        assert((a + b).drop_first() =~= a.drop_first() + b);
        lemma_seq_balance_concat(a.drop_first(), b, k);
    }
}

/// Split the balance sum around position `i`.
pub proof fn lemma_seq_balance_split(items: Seq<ItemRef>, i: int, k: u32)
    requires
        0 <= i < items.len(),
    ensures
        seq_balance(items, k) == seq_balance(items.subrange(0, i), k) + item_contrib(items[i], k)
            + seq_balance(items.subrange(i + 1, items.len() as int), k),
{
    let len = items.len() as int;
    let mid = items.subrange(i, i + 1);
    assert(items =~= items.subrange(0, i) + mid + items.subrange(i + 1, len));
    assert(mid.drop_first() =~= Seq::<ItemRef>::empty());
    assert(seq_balance(Seq::<ItemRef>::empty(), k) == 0);
    assert(mid[0] == items[i]);
    assert(seq_balance(mid, k) == item_contrib(items[i], k));
    lemma_seq_balance_concat(items.subrange(0, i) + mid, items.subrange(i + 1, len), k);
    lemma_seq_balance_concat(items.subrange(0, i), mid, k);
}

/// If no entry carries kind `k`, its balance is zero.
pub proof fn lemma_seq_balance_absent(items: Seq<ItemRef>, k: u32)
    requires
        forall|i: int| 0 <= i < items.len() ==> items[i].id != k,
    ensures
        seq_balance(items, k) == 0,
    decreases items.len(),
{
    if items.len() > 0 {
        lemma_seq_balance_absent(items.drop_first(), k);
    }
}

/// In a table of distinct item kinds, the entry at `i` is the whole balance
/// of its kind.
pub proof fn lemma_seq_balance_unique(items: Seq<ItemRef>, i: int, k: u32)
    requires
        forall|i1: int, j1: int| 0 <= i1 < j1 < items.len() ==> items[i1].id != items[j1].id,
        0 <= i < items.len(),
        items[i].id == k,
    ensures
        seq_balance(items, k) == items[i].quantity as int,
{
    let len = items.len() as int;
    lemma_seq_balance_split(items, i, k);
    lemma_seq_balance_absent(items.subrange(0, i), k);
    lemma_seq_balance_absent(items.subrange(i + 1, len), k);
}

/// Appending an entry adds its contribution to every balance.
pub proof fn lemma_seq_balance_push(items: Seq<ItemRef>, r: ItemRef, k: u32)
    ensures
        seq_balance(items.push(r), k) == seq_balance(items, k) + item_contrib(r, k),
{
    assert(items.push(r) =~= items + seq![r]);
    assert(seq![r].drop_first() =~= Seq::<ItemRef>::empty());
    assert(seq_balance(Seq::<ItemRef>::empty(), k) == 0);
    assert(seq_balance(seq![r], k) == item_contrib(r, k));
    lemma_seq_balance_concat(items, seq![r], k);
}

/// The position of the entry carrying item kind `k`, if any.
fn items_find(items: &Vec<ItemRef>, k: u32) -> (r: Option<usize>)
    ensures
        match r {
            Some(i) => i < items@.len() && items@[i as int].id == k && (forall|j: int|
                0 <= j < i ==> items@[j].id != k),
            None => forall|j: int| 0 <= j < items@.len() ==> items@[j].id != k,
        },
{
    let mut i: usize = 0;
    while i < items.len()
        invariant
            i <= items@.len(),
            forall|j: int| 0 <= j < i ==> items@[j].id != k,
        decreases items@.len() - i,
    {
        if items[i].id == k {
            return Some(i);
        }
        i = i + 1;
    }
    None
}

/// A well-formed balance always fits the machine word that stores it.
pub proof fn lemma_seq_balance_le_max(items: Seq<ItemRef>, k: u32)
    requires
        items_wf(items),
    ensures
        seq_balance(items, k) <= u32::MAX,
{
    if has_entry(items, k) {
        let i = choose|i: int| 0 <= i < items.len() && items[i].id == k;
        lemma_seq_balance_unique(items, i, k);
    } else {
        lemma_seq_balance_absent(items, k);
    }
}

/// Increase the balance of item kind `k` by `amount`, creating the entry if
/// it is absent and `amount` is positive; never creates a zero entry. Fails
/// (returning `false`, with the entries untouched) when the new balance
/// would not fit the machine word that stores it.
pub(crate) fn items_try_credit(items: &mut Vec<ItemRef>, k: u32, amount: u32) -> (ok: bool)
    requires
        items_wf(old(items)@),
    ensures
        items_wf(final(items)@),
        ok <==> seq_balance(old(items)@, k) + amount <= u32::MAX,
        ok ==> seq_balance(final(items)@, k) == seq_balance(old(items)@, k) + amount,
        ok ==> forall|k2: u32|
            k2 != k ==> seq_balance(final(items)@, k2) == seq_balance(old(items)@, k2),
        !ok ==> final(items)@ == old(items)@,
{
    let ghost pre = items@;
    match items_find(items, k) {
        Some(i) => {
            proof {
                lemma_seq_balance_unique(pre, i as int, k);
            }
            let q = items[i].quantity;
            if amount > u32::MAX - q {
                return false;
            }
            items[i] = ItemRef { id: k, quantity: q + amount };
            proof {
                let post = items@;
                let len = pre.len() as int;
                assert(post =~= pre.update(i as int, ItemRef { id: k, quantity: (q + amount) as u32 }));
                assert forall|k2: u32| true implies seq_balance(post, k2) == seq_balance(pre, k2)
                    + item_contrib(post[i as int], k2) - item_contrib(pre[i as int], k2) by {
                    lemma_seq_balance_split(pre, i as int, k2);
                    lemma_seq_balance_split(post, i as int, k2);
                    assert(post.subrange(0, i as int) =~= pre.subrange(0, i as int));
                    assert(post.subrange(i as int + 1, len) =~= pre.subrange(i as int + 1, len));
                }
            }
            true
        },
        None => {
            if amount > 0 {
                items.push(ItemRef { id: k, quantity: amount });
                proof {
                    lemma_seq_balance_absent(pre, k);
                    assert forall|k2: u32| true implies seq_balance(items@, k2) == seq_balance(
                        pre,
                        k2,
                    ) + item_contrib(ItemRef { id: k, quantity: amount }, k2) by {
                        lemma_seq_balance_push(pre, ItemRef { id: k, quantity: amount }, k2);
                    }
                }
            } else {
                proof {
                    lemma_seq_balance_absent(pre, k);
                }
            }
            true
        },
    }
}

/// Increase the balance of item kind `k` by `amount`; the caller has
/// already ensured the new balance fits.
pub(crate) fn items_credit(items: &mut Vec<ItemRef>, k: u32, amount: u32)
    requires
        items_wf(old(items)@),
        seq_balance(old(items)@, k) + amount <= u32::MAX,
    ensures
        items_wf(final(items)@),
        seq_balance(final(items)@, k) == seq_balance(old(items)@, k) + amount,
        forall|k2: u32| k2 != k ==> seq_balance(final(items)@, k2) == seq_balance(old(items)@, k2),
{
    let ok = items_try_credit(items, k, amount);
    assert(ok);
}

/// Decrease the balance of item kind `k` by `amount`; fails (returning
/// `false`, with the entries untouched) when `amount` exceeds the balance.
/// Debiting an entry down to exactly zero removes it entirely.
pub(crate) fn items_debit(items: &mut Vec<ItemRef>, k: u32, amount: u32) -> (ok: bool)
    requires
        items_wf(old(items)@),
    ensures
        items_wf(final(items)@),
        ok <==> amount as int <= seq_balance(old(items)@, k),
        ok ==> seq_balance(final(items)@, k) == seq_balance(old(items)@, k) - amount,
        ok ==> forall|k2: u32|
            k2 != k ==> seq_balance(final(items)@, k2) == seq_balance(old(items)@, k2),
        !ok ==> final(items)@ == old(items)@,
        seq_balance(old(items)@, k) == amount ==> !has_entry(final(items)@, k),
{
    let ghost pre = items@;
    let ghost len = pre.len() as int;
    match items_find(items, k) {
        Some(i) => {
            proof {
                lemma_seq_balance_unique(pre, i as int, k);
            }
            let q = items[i].quantity;
            if amount > q {
                false
            } else if amount == q {
                items.remove(i);
                proof {
                    let post = items@;
                    assert(post =~= pre.subrange(0, i as int) + pre.subrange(i as int + 1, len));
                    assert forall|k2: u32| true implies seq_balance(post, k2) == seq_balance(
                        pre,
                        k2,
                    ) - item_contrib(pre[i as int], k2) by {
                        lemma_seq_balance_split(pre, i as int, k2);
                        lemma_seq_balance_concat(
                            pre.subrange(0, i as int),
                            pre.subrange(i as int + 1, len),
                            k2,
                        );
                    }
                    assert forall|j: int| 0 <= j < post.len() implies post[j].id != k by {
                        if j < i as int {
                            assert(post[j] == pre[j]);
                        } else {
                            assert(post[j] == pre[j + 1]);
                        }
                    }
                }
                true
            } else {
                items[i] = ItemRef { id: k, quantity: q - amount };
                proof {
                    let post = items@;
                    assert(post =~= pre.update(i as int, ItemRef { id: k, quantity: (q - amount) as u32 }));
                    assert forall|k2: u32| true implies seq_balance(post, k2) == seq_balance(pre, k2)
                        + item_contrib(post[i as int], k2) - item_contrib(pre[i as int], k2) by {
                        lemma_seq_balance_split(pre, i as int, k2);
                        lemma_seq_balance_split(post, i as int, k2);
                        assert(post.subrange(0, i as int) =~= pre.subrange(0, i as int));
                        assert(post.subrange(i as int + 1, len) =~= pre.subrange(i as int + 1, len));
                    }
                }
                true
            }
        },
        None => {
            proof {
                lemma_seq_balance_absent(pre, k);
            }
            amount == 0
        },
    }
}

/// Provision the caller's inventory: empty, with the default slot count.
/// Each player is provisioned exactly once, so the owner must not already
/// have an inventory.
pub fn inventory_create(w: &mut World, sender: Identity) -> (r: Result<(), ReducerError>)
    requires
        old(w).wf(),
        inventory_lookup(*old(w), sender) is None,
    ensures
        final(w).wf(),
        r is Ok,
        same_except_inventories(*old(w), *final(w)),
        inventories_agree_except(*old(w), *final(w), sender),
        final(w).inventories@.len() == old(w).inventories@.len() + 1,
        match inventory_lookup(*final(w), sender) {
            Some(inv) => inv.identity == sender && inv.size == DEFAULT_INVENTORY_SIZE
                && inv.items@.len() == 0,
            None => false,
        },
        forall|k: u32| balance(*final(w), sender, k) == 0,
{
    let ghost pre = w.inventories@;
    let inventory = Inventory { identity: sender, size: DEFAULT_INVENTORY_SIZE, items: Vec::new() };
    let ghost new_inv = inventory;
    w.inventories.push(inventory);
    proof {
        crate::keyed::lemma_find_first_none_inv(pre, inv_with_owner(sender));
        lemma_find_first_push(pre, inv_with_owner(sender), new_inv);
        assert forall|o: Identity| o != sender implies inventory_lookup(*w, o) == inventory_lookup(
            *old(w),
            o,
        ) by {
            lemma_find_first_push(pre, inv_with_owner(o), new_inv);
        }
    }
    Ok(())
}

/// Credit: increase the caller's balance for `item_id` by `quantity`.
/// Fails (leaving the world untouched) when the caller has no provisioned
/// inventory; balances of every other item kind and owner are unchanged.
pub fn inventory_add_item(w: &mut World, sender: Identity, item_id: u32, quantity: u32) -> (r:
    Result<(), ReducerError>)
    requires
        old(w).wf(),
        balance(*old(w), sender, item_id) + quantity <= u32::MAX,
    ensures
        final(w).wf(),
        same_except_inventories(*old(w), *final(w)),
        inventories_agree_except(*old(w), *final(w), sender),
        match r {
            Ok(()) => {
                &&& inventory_lookup(*old(w), sender) is Some
                &&& balance(*final(w), sender, item_id) == balance(*old(w), sender, item_id)
                    + quantity
                &&& forall|k2: u32|
                    k2 != item_id ==> balance(*final(w), sender, k2) == balance(
                        *old(w),
                        sender,
                        k2,
                    )
                &&& inventory_lookup(*final(w), sender) is Some
                &&& inventory_lookup(*final(w), sender).unwrap().identity == sender
                &&& inventory_lookup(*final(w), sender).unwrap().size == inventory_lookup(
                    *old(w),
                    sender,
                ).unwrap().size
            },
            Err(e) => {
                &&& e == ReducerError::InventoryNotFound
                &&& inventory_lookup(*old(w), sender) is None
                &&& *final(w) == *old(w)
            },
        },
{
    let ghost pre = w.inventories@;
    match find_inventory_index(w, sender) {
        Some(i) => {
            let mut inv = w.inventories.remove(i);
            items_credit(&mut inv.items, item_id, quantity);
            let ghost inv2 = inv;
            w.inventories.insert(i, inv);
            proof {
                assert(w.inventories@ =~= pre.update(i as int, inv2));
                lemma_inventory_table_update(*old(w), *w, i as int, sender);
            }
            Ok(())
        },
        None => Err(ReducerError::InventoryNotFound),
    }
}

/// The caller's balance for one item kind; 0 if the caller has no
/// inventory or no entry for that kind — never an error.
pub fn inventory_get_item(w: &World, sender: Identity, item_id: u32) -> (quantity: u32)
    requires
        w.wf(),
    ensures
        quantity as int == balance(*w, sender, item_id),
{
    match find_inventory_index(w, sender) {
        Some(i) => {
            match items_find(&w.inventories[i].items, item_id) {
                Some(j) => {
                    proof {
                        lemma_seq_balance_unique(w.inventories@[i as int].items@, j as int, item_id);
                    }
                    w.inventories[i].items[j].quantity
                },
                None => {
                    proof {
                        lemma_seq_balance_absent(w.inventories@[i as int].items@, item_id);
                    }
                    0
                },
            }
        },
        None => 0,
    }
}

/// Debit: decrease the caller's balance for `item_id` by `quantity`.
/// Fails with no effect when the caller has no inventory or the balance is
/// short (a balance never goes negative); debiting a balance to exactly
/// zero removes its entry entirely.
pub fn inventory_remove_item(w: &mut World, sender: Identity, item_id: u32, quantity: u32) -> (r:
    Result<(), ReducerError>)
    requires
        old(w).wf(),
    ensures
        final(w).wf(),
        same_except_inventories(*old(w), *final(w)),
        inventories_agree_except(*old(w), *final(w), sender),
        match r {
            Ok(()) => {
                &&& inventory_lookup(*old(w), sender) is Some
                &&& quantity as int <= balance(*old(w), sender, item_id)
                &&& balance(*final(w), sender, item_id) == balance(*old(w), sender, item_id)
                    - quantity
                &&& forall|k2: u32|
                    k2 != item_id ==> balance(*final(w), sender, k2) == balance(
                        *old(w),
                        sender,
                        k2,
                    )
                &&& inventory_lookup(*final(w), sender) is Some
                &&& inventory_lookup(*final(w), sender).unwrap().identity == sender
                &&& inventory_lookup(*final(w), sender).unwrap().size == inventory_lookup(
                    *old(w),
                    sender,
                ).unwrap().size
                &&& (balance(*old(w), sender, item_id) == quantity ==> !has_entry(
                    inventory_lookup(*final(w), sender).unwrap().items@,
                    item_id,
                ))
            },
            Err(e) => {
                &&& *final(w) == *old(w)
                &&& (e == ReducerError::InventoryNotFound || e == ReducerError::InsufficientMaterials)
                &&& (e == ReducerError::InventoryNotFound <==> inventory_lookup(*old(w), sender)
                    is None)
                &&& (e == ReducerError::InsufficientMaterials ==> quantity as int > balance(
                    *old(w),
                    sender,
                    item_id,
                ))
            },
        },
{
    let ghost pre = w.inventories@;
    match find_inventory_index(w, sender) {
        Some(i) => {
            let have = match items_find(&w.inventories[i].items, item_id) {
                Some(j) => {
                    proof {
                        lemma_seq_balance_unique(w.inventories@[i as int].items@, j as int, item_id);
                    }
                    w.inventories[i].items[j].quantity
                },
                None => {
                    proof {
                        lemma_seq_balance_absent(w.inventories@[i as int].items@, item_id);
                    }
                    0
                },
            };
            if quantity > have {
                return Err(ReducerError::InsufficientMaterials);
            }
            let mut inv = w.inventories.remove(i);
            let ok = items_debit(&mut inv.items, item_id, quantity);
            assert(ok);
            let ghost inv2 = inv;
            w.inventories.insert(i, inv);
            proof {
                assert(w.inventories@ =~= pre.update(i as int, inv2));
                lemma_inventory_table_update(*old(w), *w, i as int, sender);
            }
            Ok(())
        },
        None => Err(ReducerError::InventoryNotFound),
    }
}

} // verus!
