//! The inventory: slots filled from the front, the first empty one ending it.

use vstd::prelude::*;

use crate::global::Globals;
use crate::records::{Inventory, MAX_INVENTORY, MAX_PLAYER_EQUIPMENTS};
use crate::roles::PlayerRoles;

verus! {

/// The first slot that is empty or holds `item`; the number of slots if there
/// is none.
pub open spec fn slot_of(inv: Seq<Inventory>, item: u16, from: int) -> int
    decreases inv.len() - from,
{
    if from >= inv.len() {
        inv.len() as int
    } else if inv[from].item == item || inv[from].item == 0 {
        from
    } else {
        slot_of(inv, item, from + 1)
    }
}

/// The inventory holds a slot for `item`.
pub open spec fn holds(inv: Seq<Inventory>, item: u16) -> bool {
    slot_of(inv, item, 0) < inv.len() && inv[slot_of(inv, item, 0)].item == item
}

/// The slots among the first `n` that hold something, in order.
pub open spec fn kept(inv: Seq<Inventory>, n: int) -> Seq<Inventory>
    decreases n,
{
    if n <= 0 {
        Seq::empty()
    } else if inv[n - 1].amount > 0 {
        kept(inv, n - 1).push(inv[n - 1])
    } else {
        kept(inv, n - 1)
    }
}

/// The slots that hold something, in order, followed by empty ones.
pub open spec fn compressed(inv: Seq<Inventory>) -> Seq<Inventory> {
    let k = kept(inv, inv.len() as int);
    Seq::new(inv.len(), |i: int| if i < k.len() { k[i] } else { Inventory::zero() })
}

/// How many of the first `n` equipment slots of `role` hold `item`.
pub open spec fn equipped_count(roles: PlayerRoles, role: int, item: u16, n: int) -> int
    decreases n,
{
    if n <= 0 {
        0
    } else {
        equipped_count(roles, role, item, n - 1) + if roles.equipment@[n - 1]@[role] == item {
            1int
        } else {
            0
        }
    }
}

/// How many equipment slots of the first `n` party members hold `item`.
pub open spec fn party_equipped_count(g: &Globals, item: u16, n: int) -> int
    decreases n,
{
    if n <= 0 {
        0
    } else {
        party_equipped_count(g, item, n - 1) + equipped_count(g.game.player_roles, g.party@[n - 1].player_role as int, item, 6)
    }
}

/// The slots kept are no more than those looked at, and all hold something.
pub proof fn lemma_kept(inv: Seq<Inventory>, n: int)
    requires
        0 <= n <= inv.len(),
    ensures
        kept(inv, n).len() <= n,
        forall|i: int| 0 <= i < kept(inv, n).len() ==> (#[trigger] kept(inv, n)[i]).amount > 0,
    decreases n,
{
    if n > 0 {
        lemma_kept(inv, n - 1);
    }
}

/// What is kept of a run of non-empty slots followed by empty ones is that
/// run.
proof fn lemma_kept_of_run(inv: Seq<Inventory>, run: int, n: int)
    requires
        0 <= run <= inv.len(),
        0 <= n <= inv.len(),
        forall|i: int| 0 <= i < run ==> (#[trigger] inv[i]).amount > 0,
        forall|i: int| run <= i < inv.len() ==> (#[trigger] inv[i]).amount == 0,
    ensures
        kept(inv, n) == inv.take(if n < run { n } else { run }),
    decreases n,
{
    if n > 0 {
        lemma_kept_of_run(inv, run, n - 1);
        if n <= run {
            assert(inv.take(n - 1).push(inv[n - 1]) =~= inv.take(n));
        }
    } else {
        assert(kept(inv, n) =~= inv.take(0));
    }
}

/// Compressing an inventory twice is the same as compressing it once.
pub proof fn law_compression_is_idempotent(inv: Seq<Inventory>)
    ensures
        compressed(compressed(inv)) == compressed(inv),
{
    let n = inv.len() as int;
    let once = compressed(inv);
    lemma_kept(inv, n);
    let run = kept(inv, n).len() as int;
    lemma_kept_of_run(once, run, n);
    assert(compressed(once) =~= once);
}

/// A compressed inventory has no gaps: the slots that hold something come
/// first, with nothing of them lost or reordered.
pub proof fn law_compression_keeps_what_is_held(inv: Seq<Inventory>)
    ensures
        compressed(inv).len() == inv.len(),
        compressed(inv).take(kept(inv, inv.len() as int).len() as int) == kept(inv, inv.len() as int),
        forall|i: int|
            kept(inv, inv.len() as int).len() <= i < inv.len() ==> #[trigger] compressed(inv)[i] == Inventory::zero(),
{
    lemma_kept(inv, inv.len() as int);
    assert(compressed(inv).take(kept(inv, inv.len() as int).len() as int) =~= kept(inv, inv.len() as int));
}

/// Where a search from `from` on ends, and what it has passed.
proof fn lemma_slot_of(inv: Seq<Inventory>, item: u16, from: int)
    requires
        0 <= from <= inv.len(),
    ensures
        from <= slot_of(inv, item, from) <= inv.len(),
        forall|i: int| from <= i < slot_of(inv, item, from) ==> (#[trigger] inv[i]).item != item && inv[i].item != 0,
        slot_of(inv, item, from) < inv.len() ==> {
            ||| inv[slot_of(inv, item, from)].item == item
            ||| inv[slot_of(inv, item, from)].item == 0
        },
    decreases inv.len() - from,
{
    if from < inv.len() && inv[from].item != item && inv[from].item != 0 {
        lemma_slot_of(inv, item, from + 1);
    }
}

/// A search ends at the first slot that is empty or holds the item.
proof fn lemma_slot_is(inv: Seq<Inventory>, item: u16, from: int, slot: int)
    requires
        0 <= from <= slot < inv.len(),
        forall|i: int| from <= i < slot ==> (#[trigger] inv[i]).item != item && inv[i].item != 0,
        inv[slot].item == item || inv[slot].item == 0,
    ensures
        slot_of(inv, item, from) == slot,
    decreases slot - from,
{
    if from < slot {
        lemma_slot_is(inv, item, from + 1, slot);
    }
}

/// What is put into the slot of an item is found there again.
pub proof fn law_stored_item_is_found(inv: Seq<Inventory>, item: u16, entry: Inventory)
    requires
        item != 0,
        slot_of(inv, item, 0) < inv.len(),
        entry.item == item,
    ensures
        ({
            let slot = slot_of(inv, item, 0);
            let after = inv.update(slot, entry);
            holds(after, item) && slot_of(after, item, 0) == slot && after[slot_of(after, item, 0)] == entry
        }),
{
    let slot = slot_of(inv, item, 0);
    lemma_slot_of(inv, item, 0);
    lemma_slot_is(inv.update(slot, entry), item, 0, slot);
}

/// Changing the slot of one item leaves every other item that is held where
/// it is.
pub proof fn law_other_items_stay(inv: Seq<Inventory>, item: u16, entry: Inventory, other: u16)
    requires
        item != 0,
        other != 0,
        other != item,
        slot_of(inv, item, 0) < inv.len(),
        entry.item == item,
        holds(inv, other),
    ensures
        ({
            let after = inv.update(slot_of(inv, item, 0), entry);
            holds(after, other) && slot_of(after, other, 0) == slot_of(inv, other, 0) && after[slot_of(after, other, 0)]
                == inv[slot_of(inv, other, 0)]
        }),
{
    let after = inv.update(slot_of(inv, item, 0), entry);
    lemma_slot_of(inv, item, 0);
    lemma_slot_of(inv, other, 0);
    lemma_slot_is(after, other, 0, slot_of(inv, other, 0));
}

impl Globals {
    /// The party members that are looked at are there and play known roles.
    pub open spec fn party_known(&self) -> bool {
        &&& self.max_party_member_index < 5
        &&& forall|i: int| 0 <= i <= self.max_party_member_index ==> (#[trigger] self.party@[i]).player_role < 6
    }

    /// The slot where `item` is, or would be put.
    proof fn lemma_slot(&self, item: u16, from: int)
        requires
            0 <= from <= 256,
        ensures
            from <= slot_of(self.inventory@, item, from) <= 256,
        decreases 256 - from,
    {
        if from < 256 {
            self.lemma_slot(item, from + 1);
        }
    }

    /// How many of an item the party has, in the inventory and as equipment.
    pub fn count_item(&self, object_id: u16) -> (count: i32)
        requires
            object_id == 0 || self.party_known(),
        ensures
            object_id == 0 ==> count == 0,
            object_id != 0 ==> count == party_equipped_count(self, object_id, self.max_party_member_index + 1) + if holds(
                self.inventory@,
                object_id,
            ) {
                self.inventory@[slot_of(self.inventory@, object_id, 0)].amount as int
            } else {
                0
            },
    {
        if object_id == 0 {
            return 0;
        }
        let (found, index): (bool, usize) = self.get_item_index_to_inventory(object_id);
        let mut count: i32 = if found {
            self.inventory[index].amount as i32
        } else {
            0
        };
        let ghost held: int = count as int;
        let members: usize = self.max_party_member_index as usize + 1;
        for i in 0..members
            invariant
                self.party_known(),
                members == self.max_party_member_index + 1,
                0 <= held <= 65535,
                0 <= party_equipped_count(self, object_id, i as int) <= 6 * i,
                count == held + party_equipped_count(self, object_id, i as int),
        {
            let w: usize = self.party[i].player_role as usize;
            let ghost before: int = count as int;
            for j in 0..MAX_PLAYER_EQUIPMENTS
                invariant
                    w < 6,
                    0 <= before <= 65535 + 30,
                    0 <= equipped_count(self.game.player_roles, w as int, object_id, j as int) <= j,
                    count == before + equipped_count(self.game.player_roles, w as int, object_id, j as int),
            {
                if self.game.player_roles.equipment[j][w] == object_id {
                    count = count + 1;
                }
            }
        }
        count
    }

    /// Whether the inventory holds an item, and the slot where it is or where
    /// the first empty slot is (the number of slots if there is none).
    pub fn get_item_index_to_inventory(&self, object_id: u16) -> (r: (bool, usize))
        ensures
            r.0 == holds(self.inventory@, object_id),
            r.1 == slot_of(self.inventory@, object_id, 0),
            r.1 <= 256,
    {
        let mut index: usize = 0;
        proof {
            self.lemma_slot(object_id, 0);
        }
        while index < MAX_INVENTORY
            invariant
                index <= 256,
                slot_of(self.inventory@, object_id, index as int) == slot_of(self.inventory@, object_id, 0),
            ensures
                index <= 256,
                index == slot_of(self.inventory@, object_id, 0),
                index < 256 ==> self.inventory@[index as int].item == 0 && object_id != 0,
            decreases 256 - index,
        {
            if self.inventory[index].item == object_id {
                return (true, index);
            }
            if self.inventory[index].item == 0 {
                break;
            }
            index = index + 1;
        }
        (false, index)
    }

    /// What adding or removing items does to the inventory, and what it answers.
    pub open spec fn items_added(before: &Globals, after: &Globals, object_id: u16, num: i32, r: i32) -> bool {
        let inv = before.inventory@;
        let n = if num == 0 { 1int } else { num as int };
        let slot = slot_of(inv, object_id, 0);
        let found = holds(inv, object_id);
        let had = if found { inv[slot].amount as int } else { 0 };
        if object_id == 0 || (n > 0 && slot >= 256) || (n < 0 && !found) {
            r == 0 && *after == *before
        } else if n > 0 {
            &&& r == 1
            &&& after.inventory@ == inv.update(
                slot,
                Inventory {
                    item: object_id,
                    amount: (if had + n < 99 { had + n } else { 99 }) as u16,
                    amount_in_use: inv[slot].amount_in_use,
                },
            )
            &&& *after == (Globals { inventory: after.inventory, ..*before })
        } else if had + n < 0 {
            &&& r == had + n
            &&& after.inventory@ == inv.update(slot, Inventory { amount: 0, ..inv[slot] })
            &&& *after == (Globals { inventory: after.inventory, ..*before })
        } else {
            &&& r == 1
            &&& after.inventory@ == inv.update(slot, Inventory { amount: (had + n) as u16, ..inv[slot] })
            &&& after.cur_inv_menu_item == before.cur_inv_menu_item - if had + n == 0
                && slot == before.cur_inv_menu_item && slot + 1 < 256 && inv[slot + 1].amount == 0 {
                1int
            } else {
                0
            }
            &&& *after == (Globals {
                inventory: after.inventory,
                cur_inv_menu_item: after.cur_inv_menu_item,
                ..*before
            })
        }
    }

    /// Add items (a positive number, or 0 for one) or remove them (a negative
    /// one). Returns 1 on success, 0 on failure, and minus the shortage when
    /// there were not enough to remove. No slot holds more than 99.
    pub fn add_item_to_inventory(&mut self, object_id: u16, num: i32) -> (r: i32)
        requires
            object_id != 0 && holds(old(self).inventory@, object_id) ==> num > i32::MIN,
            object_id != 0 && num > 0 && holds(old(self).inventory@, object_id) ==> old(self).inventory@[slot_of(
                old(self).inventory@,
                object_id,
                0,
            )].amount + num <= i32::MAX,
        ensures
            Globals::items_added(old(self), final(self), object_id, num, r),
    {
        if object_id == 0 {
            return 0;
        }
        let mut num: i32 = if num == 0 {
            1
        } else {
            num
        };
        let (found, index): (bool, usize) = self.get_item_index_to_inventory(object_id);
        if num > 0 {
            if index >= MAX_INVENTORY {
                return 0;
            }
            if found {
                let total: i32 = self.inventory[index].amount as i32 + num;
                self.inventory[index].amount = if total < 99 {
                    total as u16
                } else {
                    99
                };
            } else {
                self.inventory[index].item = object_id;
                if num > 99 {
                    num = 99;
                }
                self.inventory[index].amount = num as u16;
            }
            assert(self.inventory@ =~= old(self).inventory@.update(index as int, self.inventory@[index as int]));
            1
        } else if found {
            num = -num;
            if (self.inventory[index].amount as i32) < num {
                let shortage: i32 = num - self.inventory[index].amount as i32;
                self.inventory[index].amount = 0;
                assert(self.inventory@ =~= old(self).inventory@.update(index as int, self.inventory@[index as int]));
                return -shortage;
            }
            self.inventory[index].amount = self.inventory[index].amount - num as u16;
            assert(self.inventory@ =~= old(self).inventory@.update(index as int, self.inventory@[index as int]));
            if self.inventory[index].amount == 0 && index as i32 == self.cur_inv_menu_item && index + 1 < MAX_INVENTORY
                && self.inventory[index + 1].amount == 0 {
                self.cur_inv_menu_item = self.cur_inv_menu_item - 1;
            }
            1
        } else {
            0
        }
    }

    /// How many of an item the inventory holds.
    pub fn get_item_amount(&self, item: u16) -> (n: i32)
        ensures
            n == if item != 0 && holds(self.inventory@, item) {
                self.inventory@[slot_of(self.inventory@, item, 0)].amount as int
            } else {
                0
            },
    {
        if item == 0 {
            return 0;
        }
        let (found, index): (bool, usize) = self.get_item_index_to_inventory(item);
        if found {
            self.inventory[index].amount as i32
        } else {
            0
        }
    }

    /// Close the gaps between slots that hold something.
    pub fn compress_inventory(&mut self)
        ensures
            final(self).inventory@ == compressed(old(self).inventory@),
            *final(self) == (Globals { inventory: final(self).inventory, ..*old(self) }),
    {
        let ghost inv = self.inventory@;
        let mut j: usize = 0;
        for i in 0..MAX_INVENTORY
            invariant
                inv == old(self).inventory@,
                *self == (Globals { inventory: self.inventory, ..*old(self) }),
                j <= i,
                j == kept(inv, i as int).len(),
                forall|k: int| 0 <= k < j ==> #[trigger] self.inventory@[k] == kept(inv, i as int)[k],
                forall|k: int| i <= k < 256 ==> #[trigger] self.inventory@[k] == inv[k],
        {
            if self.inventory[i].amount > 0 {
                self.inventory[j] = self.inventory[i];
                j = j + 1;
            }
        }
        let ghost run: int = j as int;
        let zero: Inventory = Inventory::default();
        while j < MAX_INVENTORY
            invariant
                inv == old(self).inventory@,
                *self == (Globals { inventory: self.inventory, ..*old(self) }),
                run == kept(inv, 256).len(),
                run <= j <= 256,
                zero == Inventory::zero(),
                forall|k: int| 0 <= k < run ==> #[trigger] self.inventory@[k] == kept(inv, 256)[k],
                forall|k: int| run <= k < j ==> #[trigger] self.inventory@[k] == Inventory::zero(),
            decreases 256 - j,
        {
            self.inventory[j] = zero;
            j = j + 1;
        }
        assert(self.inventory@ =~= compressed(inv));
    }
}

/// An item's slot is the first that holds it or is empty.
pub proof fn law_slot_is_first(inv: Seq<Inventory>, item: u16, from: int)
    requires
        0 <= from <= inv.len(),
    ensures
        from <= slot_of(inv, item, from) <= inv.len(),
        forall|i: int|
            from <= i < slot_of(inv, item, from) ==> (#[trigger] inv[i]).item != item && inv[i].item != 0,
        slot_of(inv, item, from) < inv.len() ==> inv[slot_of(inv, item, from)].item == item || inv[slot_of(
            inv,
            item,
            from,
        )].item == 0,
    decreases inv.len() - from,
{
    if from < inv.len() && !(inv[from].item == item || inv[from].item == 0) {
        law_slot_is_first(inv, item, from + 1);
    }
}

/// Compressing keeps exactly the slots with an amount, in order.
pub proof fn law_compression_keeps_amounts(inv: Seq<Inventory>, n: int)
    requires
        0 <= n <= inv.len(),
    ensures
        kept(inv, n) == inv.take(n).filter(|x: Inventory| x.amount > 0),
    decreases n,
{
    let full = |x: Inventory| x.amount > 0;
    reveal(Seq::filter);
    if n > 0 {
        law_compression_keeps_amounts(inv, n - 1);
        assert(inv.take(n).drop_last() =~= inv.take(n - 1));
        assert(inv.take(n).last() == inv[n - 1]);
    } else {
        assert(inv.take(0) =~= Seq::<Inventory>::empty());
    }
}

/// Added items are held: their number grows by those added, to 99 at most. An
/// item that was not held takes the first empty slot. Nothing else changes.
pub proof fn law_added_items_are_held(before: Globals, after: Globals, item: u16, num: i32, r: i32)
    requires
        Globals::items_added(&before, &after, item, num, r),
        item != 0,
        num >= 0,
        slot_of(before.inventory@, item, 0) < 256,
    ensures
        ({
            let slot = slot_of(before.inventory@, item, 0);
            let had = if before.inventory@[slot].item == item { before.inventory@[slot].amount as int } else { 0 };
            let add = if num == 0 { 1int } else { num as int };
            &&& r == 1
            &&& after.inventory@[slot].item == item
            &&& had + add <= 99 ==> after.inventory@[slot].amount == had + add
            &&& had + add > 99 ==> after.inventory@[slot].amount == 99
            &&& holds(after.inventory@, item)
            &&& forall|i: int| 0 <= i < 256 && i != slot ==> #[trigger] after.inventory@[i] == before.inventory@[i]
            &&& after.inventory@[slot].amount_in_use == before.inventory@[slot].amount_in_use
            &&& after == (Globals { inventory: after.inventory, ..before })
        }),
{
    law_slot_is_first(before.inventory@, item, 0);
    law_stored_item_is_found(before.inventory@, item, after.inventory@[slot_of(before.inventory@, item, 0)]);
}

/// Removed items are gone: their number shrinks by those removed. If there are
/// fewer, none is left, and the answer is how many were missing, below 0.
/// Nothing is removed of what is not held, and the answer is 0.
pub proof fn law_removed_items_are_gone(before: Globals, after: Globals, item: u16, num: i32, r: i32)
    requires
        Globals::items_added(&before, &after, item, num, r),
        num < 0,
    ensures
        item == 0 || !holds(before.inventory@, item) ==> r == 0 && after == before,
        item != 0 && holds(before.inventory@, item) ==> {
            let slot = slot_of(before.inventory@, item, 0);
            let had = before.inventory@[slot].amount;
            &&& had + num >= 0 ==> r == 1 && after.inventory@[slot].amount == had + num
            &&& had + num < 0 ==> r == had + num && after.inventory@[slot].amount == 0
            &&& after.inventory@[slot].item == item
            &&& after.inventory@[slot].amount_in_use == before.inventory@[slot].amount_in_use
            &&& forall|i: int| 0 <= i < 256 && i != slot ==> #[trigger] after.inventory@[i] == before.inventory@[i]
            &&& after == (Globals { inventory: after.inventory, cur_inv_menu_item: after.cur_inv_menu_item, ..before })
            &&& after.cur_inv_menu_item == before.cur_inv_menu_item - if had + num == 0 && slot == before.cur_inv_menu_item && slot
                < 255 && before.inventory@[slot + 1].amount == 0 {
                1int
            } else {
                0
            }
        },
{
    law_slot_is_first(before.inventory@, item, 0);
}

/// Items that were added and removed again leave as many as there were.
pub proof fn law_adding_is_undone_by_removing(a: Globals, b: Globals, c: Globals, item: u16, num: i32, r: i32, q: i32)
    requires
        Globals::items_added(&a, &b, item, num, r),
        Globals::items_added(&b, &c, item, (-num) as i32, q),
        item != 0,
        0 < num <= 99,
        holds(a.inventory@, item),
        a.inventory@[slot_of(a.inventory@, item, 0)].amount + num <= 99,
    ensures
        q == 1,
        c.inventory@ == a.inventory@,
{
    law_slot_is_first(a.inventory@, item, 0);
    law_added_items_are_held(a, b, item, num, r);
    law_stored_item_is_found(a.inventory@, item, b.inventory@[slot_of(a.inventory@, item, 0)]);
    assert(b.inventory@ =~= a.inventory@.update(slot_of(a.inventory@, item, 0), b.inventory@[slot_of(a.inventory@, item, 0)]));
    assert(c.inventory@ =~= a.inventory@);
}

/// What is worn is counted part by part: head, body, shoulders, hands, feet and
/// what is worn in addition.
pub proof fn law_worn_items_are_counted(roles: PlayerRoles, role: int, item: u16)
    ensures
        equipped_count(roles, role, item, 6) == (if roles.equipment@[0]@[role] == item { 1int } else { 0 }) + (
        if roles.equipment@[1]@[role] == item { 1int } else { 0 }) + (if roles.equipment@[2]@[role] == item { 1int } else { 0 })
            + (if roles.equipment@[3]@[role] == item { 1int } else { 0 }) + (if roles.equipment@[4]@[role] == item {
            1int
        } else {
            0
        }) + (if roles.equipment@[5]@[role] == item { 1int } else { 0 }),
{
    reveal_with_fuel(equipped_count, 7);
}

/// What the party wears is what its members wear: one member more adds what
/// they wear, and nobody wears less than nothing.
pub proof fn law_party_wears_what_members_wear(g: &Globals, item: u16, n: int)
    requires
        n >= 0,
    ensures
        party_equipped_count(g, item, n + 1) - party_equipped_count(g, item, n) == equipped_count(
            g.game.player_roles,
            g.party@[n].player_role as int,
            item,
            6,
        ),
        party_equipped_count(g, item, 0) == 0,
{
}

/// Nothing is added without an item, or where neither the item nor an empty
/// slot is; the answer is 0.
pub proof fn law_full_inventory_takes_nothing(before: Globals, after: Globals, item: u16, num: i32, r: i32)
    requires
        Globals::items_added(&before, &after, item, num, r),
        num >= 0,
        item == 0 || forall|i: int| 0 <= i < 256 ==> (#[trigger] before.inventory@[i]).item != item && before.inventory@[i].item != 0,
    ensures
        r == 0,
        after == before,
{
    law_slot_is_first(before.inventory@, item, 0);
    let slot = slot_of(before.inventory@, item, 0);
    if item != 0 && slot < 256 {
        assert(before.inventory@[slot].item != item && before.inventory@[slot].item != 0);
    }
}

} // verus!
