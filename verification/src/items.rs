//! Items as the shop reads them, and the player's bag: per pocket, the total
//! quantity of each item, stored in stacks of at most `MAX_ITEM_STACK`.
use vstd::prelude::*;
use crate::ordered::TextMap;
use crate::text::{copy_text, text_eq};

verus! {

pub const MAX_ITEM_STACK: u16 = 99;

pub const ITEM_POCKET_CAPACITY: usize = 20;

pub const BALL_POCKET_CAPACITY: usize = 12;

pub const KEY_ITEM_POCKET_CAPACITY: usize = 25;

pub const TM_HM_POCKET_CAPACITY: usize = 57;

/// The item fields that buying and selling read.
#[derive(Debug, PartialEq, Eq)]
pub struct Item {
    pub name: String,
    pub script_name: String,
    pub price: u16,
    pub pocket: String,
}

/// The pocket an item belongs to, by its pack name (pack-defined pockets keep their own name).
pub fn item_pocket(name: &str) -> (p: String)
    ensures
        p@ == name@,
{
    copy_text(name)
}

pub open spec fn pocket_capacity_of(pocket: Seq<char>) -> nat {
    if pocket == seq!['B', 'A', 'L', 'L'] {
        BALL_POCKET_CAPACITY as nat
    } else if pocket == seq!['K', 'E', 'Y', '_', 'I', 'T', 'E', 'M'] {
        KEY_ITEM_POCKET_CAPACITY as nat
    } else if pocket == seq!['T', 'M', '_', 'H', 'M'] {
        TM_HM_POCKET_CAPACITY as nat
    } else {
        ITEM_POCKET_CAPACITY as nat
    }
}

/// Slots a pocket offers: fixed for the standard pockets, the item pocket's size otherwise.
pub fn pocket_capacity(pocket: &str) -> (n: usize)
    ensures
        n == pocket_capacity_of(pocket@),
{
    let ball = "BALL";
    let key = "KEY_ITEM";
    let tm = "TM_HM";
    proof {
        reveal_strlit("BALL");
        reveal_strlit("KEY_ITEM");
        reveal_strlit("TM_HM");
        assert(ball@ =~= seq!['B', 'A', 'L', 'L']);
        assert(key@ =~= seq!['K', 'E', 'Y', '_', 'I', 'T', 'E', 'M']);
        assert(tm@ =~= seq!['T', 'M', '_', 'H', 'M']);
    }
    if text_eq(pocket, ball) {
        BALL_POCKET_CAPACITY
    } else if text_eq(pocket, key) {
        KEY_ITEM_POCKET_CAPACITY
    } else if text_eq(pocket, tm) {
        TM_HM_POCKET_CAPACITY
    } else {
        ITEM_POCKET_CAPACITY
    }
}

/// Stacks needed for `q` units.
pub open spec fn stacks_for(q: nat) -> nat {
    (q + 98) / 99
}

/// Stacks needed for all the quantities in `qs`.
pub open spec fn stacks_total(qs: Seq<u16>) -> nat
    decreases qs.len(),
{
    if qs.len() == 0 {
        0
    } else {
        stacks_total(qs.drop_last()) + stacks_for(qs.last() as nat)
    }
}

/// The bag: pocket name to (item id to total quantity).
#[derive(Debug, PartialEq, Eq)]
pub struct Bag {
    pockets: TextMap<TextMap<u16>>,
}

impl Bag {
    /// Pocket contents as maps from item id to quantity.
    pub closed spec fn view(&self) -> Map<Seq<char>, Map<Seq<char>, u16>> {
        Map::new(
            |p: Seq<char>| self.pockets.view().contains_key(p),
            |p: Seq<char>| self.pockets.view()[p].view(),
        )
    }

    /// Stacks currently used in `pocket`.
    pub closed spec fn stacks(&self, pocket: Seq<char>) -> nat {
        if self.pockets.view().contains_key(pocket) {
            stacks_total(self.pockets.view()[pocket].value_seq())
        } else {
            0
        }
    }

    /// Stacks `pocket` would use with `item` at quantity `q`.
    pub open spec fn stacks_with(&self, pocket: Seq<char>, item: Seq<char>, q: nat) -> int {
        self.stacks(pocket) - stacks_for(self.qty(pocket, item) as nat) + stacks_for(q)
    }

    /// Units of `item` held in `pocket`.
    pub open spec fn qty(&self, pocket: Seq<char>, item: Seq<char>) -> u16 {
        if self.view().contains_key(pocket) && self.view()[pocket].contains_key(item) {
            self.view()[pocket][item]
        } else {
            0
        }
    }

    /// Whether `q` more units of `item` fit in its pocket.
    pub open spec fn fits(&self, item: Item, q: nat) -> bool {
        &&& self.qty(item.pocket@, item.script_name@) + q <= u16::MAX
        &&& self.stacks_with(item.pocket@, item.script_name@, (self.qty(item.pocket@, item.script_name@) + q) as nat)
            <= pocket_capacity_of(item.pocket@)
    }

    /// The bag with `item` set to quantity `q` in its pocket.
    pub open spec fn with_qty(&self, pocket: Seq<char>, item: Seq<char>, q: u16) -> Map<Seq<char>, Map<Seq<char>, u16>> {
        let inner = if self.view().contains_key(pocket) { self.view()[pocket] } else { Map::empty() };
        self.view().insert(pocket, inner.insert(item, q))
    }

    /// A pocket the bag has no entry for uses no stacks.
    pub proof fn lemma_absent_pocket_has_no_stacks(&self, pocket: Seq<char>)
        requires
            !self.view().contains_key(pocket),
        ensures
            self.stacks(pocket) == 0,
    {
    }

    pub fn new() -> (b: Self)
        ensures
            b.view() == Map::<Seq<char>, Map<Seq<char>, u16>>::empty(),
            forall|p: Seq<char>| #[trigger] b.stacks(p) == 0,
    {
        let b = Bag { pockets: TextMap::new() };
        proof {
            assert(b.view() =~= Map::<Seq<char>, Map<Seq<char>, u16>>::empty());
        }
        b
    }

    /// A copy of the bag.
    pub fn duplicate(&self) -> (b: Self)
        ensures
            b.view() == self.view(),
            forall|p: Seq<char>| b.stacks(p) == self.stacks(p),
            forall|item: Item, q: nat| #[trigger] b.fits(item, q) == self.fits(item, q),
    {
        let n = self.pockets.len();
        let mut pockets: TextMap<TextMap<u16>> = TextMap::new();
        let mut i: usize = 0;
        while i < n
            invariant
                n == self.pockets.key_seq().len(),
                i <= n,
                forall|p: Seq<char>| pockets.view().contains_key(p) <==> #[trigger] self.pockets.key_seq().take(i as int).contains(p),
                forall|p: Seq<char>| #[trigger] pockets.view().contains_key(p) ==> pockets.view()[p].view()
                    == self.pockets.view()[p].view() && pockets.view()[p].value_seq() == self.pockets.view()[p].value_seq(),
                self.pockets.key_seq().no_duplicates(),
                forall|j: int|
                    0 <= j < self.pockets.key_seq().len() ==> #[trigger] self.pockets.view().contains_key(
                        self.pockets.key_seq()[j],
                    ) && self.pockets.view()[self.pockets.key_seq()[j]] == self.pockets.value_seq()[j],
            decreases n - i,
        {
            let key = self.pockets.key_at(i).clone();
            let inner = self.pockets.value_at(i).copy_map();
            let ghost k = key@;
            pockets.insert(key, inner);
            proof {
                let ks = self.pockets.key_seq();
                assert(ks.take(i + 1) =~= ks.take(i as int).push(k));
                assert forall|p: Seq<char>| pockets.view().contains_key(p) <==> #[trigger] ks.take(i + 1).contains(p) by {
                    if ks.take(i + 1).contains(p) {
                        let j = choose|j: int| 0 <= j < i + 1 && #[trigger] ks.take(i + 1)[j] == p;
                        if j < i {
                            assert(ks.take(i as int)[j] == p);
                        }
                    }
                    if ks.take(i as int).contains(p) {
                        let j = choose|j: int| 0 <= j < i && #[trigger] ks.take(i as int)[j] == p;
                        assert(ks.take(i + 1)[j] == p);
                    }
                    if p == k {
                        assert(ks.take(i + 1)[i as int] == p);
                    }
                }
            }
            i += 1;
        }
        proof {
            let ks = self.pockets.key_seq();
            assert(ks.take(n as int) =~= ks);
            assert forall|p: Seq<char>| pockets.view().contains_key(p) <==> self.pockets.view().contains_key(p) by {
                if ks.contains(p) {
                    let j = choose|j: int| 0 <= j < ks.len() && ks[j] == p;
                    assert(self.pockets.view().contains_key(ks[j]));
                }
            }
        }
        let b = Bag { pockets };
        proof {
            assert(b.view() =~= self.view());
        }
        b
    }

    /// Units of `item` held in its pocket.
    pub fn quantity(&self, item: &Item) -> (q: u16)
        ensures
            q == self.qty(item.pocket@, item.script_name@),
    {
        match self.pockets.get(item.pocket.as_str()) {
            Some(inner) => match inner.get(item.script_name.as_str()) {
                Some(q) => *q,
                None => 0,
            },
            None => 0,
        }
    }

    /// Units of `item_id` held in `pocket`.
    pub fn pocket_quantity(&self, pocket: &str, item_id: &str) -> (q: u16)
        ensures
            q == self.qty(pocket@, item_id@),
    {
        match self.pockets.get(pocket) {
            Some(inner) => match inner.get(item_id) {
                Some(q) => *q,
                None => 0,
            },
            None => 0,
        }
    }

    fn stacks_in(&self, pocket: &str) -> (n: u128)
        ensures
            n == self.stacks(pocket@),
    {
        match self.pockets.get(pocket) {
            Some(inner) => {
                let len = inner.len();
                let mut total: u128 = 0;
                let mut i: usize = 0;
                while i < len
                    invariant
                        len == inner.value_seq().len(),
                        len == inner.key_seq().len(),
                        i <= len,
                        total == stacks_total(inner.value_seq().take(i as int)),
                        total <= i * 662,
                    decreases len - i,
                {
                    let q = *inner.value_at(i);
                    proof {
                        assert(inner.value_seq().take(i + 1).drop_last() =~= inner.value_seq().take(i as int));
                    }
                    total = total + ((q as u128) + 98) / 99;
                    i += 1;
                }
                proof {
                    assert(inner.value_seq().take(len as int) =~= inner.value_seq());
                }
                total
            },
            None => 0,
        }
    }

    /// Whether `quantity` more units of `item` fit.
    pub fn can_add_item(&self, item: &Item, quantity: u16) -> (b: bool)
        ensures
            b == self.fits(*item, quantity as nat),
    {
        let held = self.quantity(item);
        if held as u32 + quantity as u32 > u16::MAX as u32 {
            return false;
        }
        let total = held + quantity;
        let used = self.stacks_in(item.pocket.as_str());
        let capacity = pocket_capacity(item.pocket.as_str());
        let before = ((held as u128) + 98) / 99;
        let after = ((total as u128) + 98) / 99;
        proof {
            if self.pockets.view().contains_key(item.pocket@) {
                let inner = self.pockets.view()[item.pocket@];
                lemma_stacks_include(inner, item.script_name@);
                assert(self.view()[item.pocket@] == inner.view());
            }
            assert(before == stacks_for(held as nat));
            assert(before <= used);
        }
        after <= capacity as u128 && used - before <= capacity as u128 - after
    }

    fn set_quantity(&mut self, item: &Item, q: u16)
        ensures
            final(self).view() == old(self).with_qty(item.pocket@, item.script_name@, q),
            final(self).stacks(item.pocket@) == old(self).stacks_with(item.pocket@, item.script_name@, q as nat),
            forall|p: Seq<char>| p != item.pocket@ ==> #[trigger] final(self).stacks(p) == old(self).stacks(p),
    {
        let mut inner = match self.pockets.get(item.pocket.as_str()) {
            Some(m) => m.copy_map(),
            None => TextMap::new(),
        };
        let ghost inner_before = inner;
        inner.insert(item.script_name.clone(), q);
        let ghost inner_view = inner.view();
        let ghost inner_after = inner;
        self.pockets.insert(item.pocket.clone(), inner);
        proof {
            let name = item.script_name@;
            if old(self).pockets.view().contains_key(item.pocket@) {
                assert(inner_before.view() == old(self).pockets.view()[item.pocket@].view());
            } else {
                assert(inner_before.view() =~= Map::<Seq<char>, u16>::empty());
            }
            assert(old(self).qty(item.pocket@, name) as nat == if inner_before.view().contains_key(name) {
                inner_before.view()[name] as nat
            } else {
                0
            });
            assert(old(self).stacks(item.pocket@) == stacks_total(inner_before.value_seq()));
            if inner_before.view().contains_key(name) {
                inner_before.lemma_view_reads(name);
                lemma_stacks_update(inner_before.value_seq(), inner_before.key_seq().index_of(name), q);
            } else {
                let pos = choose|pos: int|
                    0 <= pos <= inner_before.value_seq().len() && inner_after.value_seq() == inner_before.value_seq().insert(
                        pos,
                        q,
                    );
                lemma_stacks_insert(inner_before.value_seq(), pos, q);
            }
            assert(self.pockets.view()[item.pocket@] == inner_after);
            assert forall|p: Seq<char>| p != item.pocket@ implies #[trigger] self.stacks(p) == old(self).stacks(p) by {
                if old(self).pockets.view().contains_key(p) {
                    assert(self.pockets.view()[p] == old(self).pockets.view()[p]);
                }
            }
            let old_inner = if old(self).view().contains_key(item.pocket@) {
                old(self).view()[item.pocket@]
            } else {
                Map::<Seq<char>, u16>::empty()
            };
            assert(inner_view =~= old_inner.insert(item.script_name@, q));
            assert(self.view() =~= old(self).with_qty(item.pocket@, item.script_name@, q));
        }
    }

    /// Add `quantity` units of `item`; `Ok(false)` and no change when they do not fit.
    pub fn add_item(&mut self, item: &Item, quantity: u16) -> (r: Result<bool, String>)
        ensures
            match r {
                Ok(true) => quantity > 0 && old(self).fits(*item, quantity as nat)
                    && final(self).view() == old(self).with_qty(
                    item.pocket@,
                    item.script_name@,
                    (old(self).qty(item.pocket@, item.script_name@) + quantity) as u16,
                ) && final(self).stacks(item.pocket@) == old(self).stacks_with(
                    item.pocket@,
                    item.script_name@,
                    (old(self).qty(item.pocket@, item.script_name@) + quantity) as nat,
                ) && (forall|p: Seq<char>| p != item.pocket@ ==> #[trigger] final(self).stacks(p) == old(self).stacks(p)),
                Ok(false) => quantity > 0 && !old(self).fits(*item, quantity as nat)
                    && *final(self) == *old(self),
                Err(_) => quantity == 0 && *final(self) == *old(self),
            },
    {
        if quantity == 0 {
            return Err(copy_text("item quantity must be positive"));
        }
        if !self.can_add_item(item, quantity) {
            return Ok(false);
        }
        let held = self.quantity(item);
        self.set_quantity(item, held + quantity);
        Ok(true)
    }

    /// Remove `quantity` units of `item`; `Ok(false)` and no change when fewer are held.
    pub fn remove_item(&mut self, item: &Item, quantity: u16) -> (r: Result<bool, String>)
        ensures
            match r {
                Ok(true) => quantity > 0 && quantity <= old(self).qty(item.pocket@, item.script_name@)
                    && final(self).view() == old(self).with_qty(
                    item.pocket@,
                    item.script_name@,
                    (old(self).qty(item.pocket@, item.script_name@) - quantity) as u16,
                ),
                Ok(false) => quantity > 0 && quantity > old(self).qty(item.pocket@, item.script_name@)
                    && *final(self) == *old(self),
                Err(_) => quantity == 0 && *final(self) == *old(self),
            },
    {
        if quantity == 0 {
            return Err(copy_text("item quantity must be positive"));
        }
        let held = self.quantity(item);
        if held < quantity {
            return Ok(false);
        }
        self.set_quantity(item, held - quantity);
        Ok(true)
    }
}

/// The stacks of one entry are part of a pocket's total.
proof fn lemma_stacks_include(inner: TextMap<u16>, item: Seq<char>)
    ensures
        inner.view().contains_key(item) ==> stacks_for(inner.view()[item] as nat) <= stacks_total(
            inner.value_seq(),
        ),
{
    inner.lemma_view_reads(item);
    if inner.view().contains_key(item) {
        lemma_stack_within_total(inner.value_seq(), inner.key_seq().index_of(item));
    }
}

/// Setting one quantity changes the stack count by the difference of its stacks.
proof fn lemma_stacks_update(qs: Seq<u16>, j: int, v: u16)
    requires
        0 <= j < qs.len(),
    ensures
        stacks_total(qs.update(j, v)) == stacks_total(qs) - stacks_for(qs[j] as nat) + stacks_for(v as nat),
    decreases qs.len(),
{
    let u = qs.update(j, v);
    if j == qs.len() - 1 {
        assert(u.drop_last() =~= qs.drop_last());
    } else {
        assert(u.drop_last() =~= qs.drop_last().update(j, v));
        lemma_stacks_update(qs.drop_last(), j, v);
    }
}

/// A new quantity adds its own stacks.
proof fn lemma_stacks_insert(qs: Seq<u16>, p: int, v: u16)
    requires
        0 <= p <= qs.len(),
    ensures
        stacks_total(qs.insert(p, v)) == stacks_total(qs) + stacks_for(v as nat),
    decreases qs.len(),
{
    let u = qs.insert(p, v);
    if p == qs.len() {
        assert(u.drop_last() =~= qs);
    } else {
        assert(u.drop_last() =~= qs.drop_last().insert(p, v));
        assert(u.last() == qs.last());
        lemma_stacks_insert(qs.drop_last(), p, v);
    }
}

proof fn lemma_stack_within_total(qs: Seq<u16>, j: int)
    requires
        0 <= j < qs.len(),
    ensures
        stacks_for(qs[j] as nat) <= stacks_total(qs),
    decreases qs.len(),
{
    if j < qs.len() - 1 {
        lemma_stack_within_total(qs.drop_last(), j);
    }
}

} // verus!
