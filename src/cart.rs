use vstd::prelude::*;
use crate::registry::{Registry, entries_inserted, lemma_map_of_at, lemma_map_of_update};
use crate::user::User;

verus! {

/// A priced menu item.
#[derive(Debug)]
pub struct Item {
    pub id: String,
    pub price: usize,
}

impl Item {
    pub fn new(id: &str, price: usize) -> (r: Item)
        ensures
            r.id@ == id@,
            r.price == price,
    {
        Item { id: id.to_owned(), price }
    }
}

/// How many of `k` the map holds; zero when absent.
pub open spec fn quantity_in(m: Map<Seq<char>, usize>, k: Seq<char>) -> nat {
    if m.dom().contains(k) {
        m[k] as nat
    } else {
        0
    }
}

/// What `add` leaves: one more of `k`.
pub open spec fn added(m: Map<Seq<char>, usize>, k: Seq<char>) -> Map<Seq<char>, usize> {
    m.insert(k, (quantity_in(m, k) + 1) as usize)
}

/// What `remove` leaves: one fewer of `k`, the entry gone at zero, and
/// nothing changed when `k` is absent.
pub open spec fn removed(m: Map<Seq<char>, usize>, k: Seq<char>) -> Map<Seq<char>, usize> {
    if !m.dom().contains(k) {
        m
    } else if m[k] > 1 {
        m.insert(k, (m[k] - 1) as usize)
    } else {
        m.remove(k)
    }
}

/// Removing an item held once deletes its entry; removing an absent item
/// changes nothing, however often it is repeated.
pub proof fn lemma_remove_last_and_absent(m: Map<Seq<char>, usize>, k: Seq<char>)
    ensures
        m.dom().contains(k) && m[k] == 1 ==> !removed(m, k).dom().contains(k),
        m.dom().contains(k) && m[k] == 1 ==> removed(m, k) == m.remove(k),
        !m.dom().contains(k) ==> removed(m, k) == m,
        !m.dom().contains(k) ==> removed(removed(m, k), k) == m,
{
}

/// Item ids and their quantities.
#[derive(Debug)]
pub struct Cart {
    pub(crate) items: Registry<usize>,
}

impl Cart {
    /// Keys are unique and every quantity is at least one.
    pub open(crate) spec fn wf(&self) -> bool {
        &&& self.items.wf()
        &&& forall|k: Seq<char>| #[trigger] self.items@.dom().contains(k) ==> self.items@[k] >= 1
    }

    /// Quantities, by item id.
    pub open(crate) spec fn view(&self) -> Map<Seq<char>, usize> {
        self.items@
    }

    /// The entries in the order their items were first added.
    pub open(crate) spec fn entries(&self) -> Seq<(String, usize)> {
        self.items.entries_view()
    }

    pub fn new() -> (r: Cart)
        ensures
            r.wf(),
            r@ == Map::<Seq<char>, usize>::empty(),
            r.entries() == Seq::<(String, usize)>::empty(),
    {
        Cart { items: Registry::new() }
    }

    /// Whether one more of `item` can be counted.
    pub open(crate) spec fn can_add(&self, item: &Item) -> bool {
        quantity_in(self@, item.id@) < usize::MAX
    }

    /// Adds one of `item`.
    pub fn add(&mut self, item: &Item)
        requires
            old(self).wf(),
            old(self).can_add(item),
        ensures
            final(self).wf(),
            final(self)@ == added(old(self)@, item.id@),
            entries_inserted(
                old(self).entries(),
                final(self).entries(),
                item.id,
                (quantity_in(old(self)@, item.id@) + 1) as usize,
            ),
    {
        let q = self.quantity(item.id.as_str());
        self.items.insert(item.id.clone(), q + 1);
    }

    /// Takes one of `item` away; the entry goes when its quantity would reach
    /// zero, and an absent item changes nothing.
    pub fn remove(&mut self, item: &Item)
        requires
            old(self).wf(),
        ensures
            final(self).wf(),
            final(self)@ == removed(old(self)@, item.id@),
            quantity_in(old(self)@, item.id@) > 1 ==> entries_inserted(
                old(self).entries(),
                final(self).entries(),
                item.id,
                (quantity_in(old(self)@, item.id@) - 1) as usize,
            ),
            quantity_in(old(self)@, item.id@) == 1 ==> exists|i: int|
                0 <= i < old(self).entries().len() && #[trigger] old(self).entries()[i].0@
                    == item.id@ && final(self).entries() == old(self).entries().remove(i),
            quantity_in(old(self)@, item.id@) == 0 ==> final(self).entries() == old(
                self,
            ).entries(),
    {
        let q = self.quantity(item.id.as_str());
        if q > 1 {
            self.items.insert(item.id.clone(), q - 1);
        } else if q == 1 {
            let ghost before = self.items.entries_view();
            self.items.remove(item.id.as_str());
            proof {
                let i = choose|i: int|
                    0 <= i < before.len() && #[trigger] before[i].0@ == item.id@
                        && self.items.entries_view() == before.remove(i);
                assert(old(self).entries()[i].0@ == item.id@);
            }
        }
    }

    /// How many of `item_id` the cart holds.
    pub fn quantity(&self, item_id: &str) -> (r: usize)
        requires
            self.wf(),
        ensures
            r == quantity_in(self@, item_id@),
    {
        match self.items.get(item_id) {
            Some(q) => *q,
            None => 0,
        }
    }

    /// The contents, by item id.
    pub fn get_items(&self) -> (r: &Registry<usize>)
        ensures
            r@ == self@,
            r.entries_view() == self.entries(),
    {
        &self.items
    }

    /// Empties the cart.
    pub fn clear(&mut self)
        ensures
            final(self).wf(),
            final(self)@ == Map::<Seq<char>, usize>::empty(),
            final(self).entries().len() == 0,
    {
        self.items = Registry::new();
    }
}

/// One cart per user id.
#[derive(Debug)]
pub struct CartManager {
    pub(crate) cm: Registry<Cart>,
}

impl CartManager {
    /// Keys are unique and every cart is well formed.
    pub open(crate) spec fn wf(&self) -> bool {
        &&& self.cm.wf()
        &&& forall|k: Seq<char>| #[trigger] self.cm@.dom().contains(k) ==> self.cm@[k].wf()
    }

    /// The carts, by user id.
    pub open(crate) spec fn view(&self) -> Map<Seq<char>, Cart> {
        self.cm@
    }

    pub fn new() -> (r: CartManager)
        ensures
            r.wf(),
            r@ == Map::<Seq<char>, Cart>::empty(),
    {
        CartManager { cm: Registry::new() }
    }

    /// Gives `user` the cart `cart`, replacing any earlier one.
    pub fn attach(&mut self, user: &User, cart: Cart)
        requires
            old(self).wf(),
            cart.wf(),
        ensures
            final(self).wf(),
            final(self)@ == old(self)@.insert(user.id@, cart),
    {
        self.cm.insert(user.id.clone(), cart);
    }

    /// The cart of `user`, if one is attached.
    pub fn get(&self, user: &User) -> (r: Option<&Cart>)
        requires
            self.wf(),
        ensures
            r.is_none() <==> !self@.dom().contains(user.id@),
            r matches Some(c) ==> *c == self@[user.id@],
    {
        self.cm.get(user.id.as_str())
    }

    /// Adds one of `item` to the cart of `user`, which must exist.
    pub fn add_item(&mut self, user: &User, item: &Item)
        requires
            old(self).wf(),
            old(self)@.dom().contains(user.id@),
            old(self)@[user.id@].can_add(item),
        ensures
            final(self).wf(),
            final(self)@.dom() == old(self)@.dom(),
            forall|k: Seq<char>| #[trigger]
                final(self)@.dom().contains(k) && k != user.id@ ==> final(self)@[k] == old(
                    self,
                )@[k],
            final(self)@[user.id@]@ == added(old(self)@[user.id@]@, item.id@),
            entries_inserted(
                old(self)@[user.id@].entries(),
                final(self)@[user.id@].entries(),
                item.id,
                (quantity_in(old(self)@[user.id@]@, item.id@) + 1) as usize,
            ),
    {
        let i = self.cm.index_of(user.id.as_str()).unwrap();
        let ghost s = self.cm.entries@;
        proof {
            lemma_map_of_at(s, i as int);
        }
        self.cm.entries[i].1.add(item);
        proof {
            let e = self.cm.entries@[i as int];
            assert(self.cm.entries@ == s.update(i as int, (s[i as int].0, e.1)));
            lemma_map_of_update(s, i as int, s[i as int].0, e.1);
        }
    }

    /// Empties the cart of `user`, which must exist.
    pub fn clear(&mut self, user: &User)
        requires
            old(self).wf(),
            old(self)@.dom().contains(user.id@),
        ensures
            final(self).wf(),
            final(self)@.dom() == old(self)@.dom(),
            forall|k: Seq<char>| #[trigger]
                final(self)@.dom().contains(k) && k != user.id@ ==> final(self)@[k] == old(
                    self,
                )@[k],
            final(self)@[user.id@]@ == Map::<Seq<char>, usize>::empty(),
            final(self)@[user.id@].entries().len() == 0,
    {
        let i = self.cm.index_of(user.id.as_str()).unwrap();
        let ghost s = self.cm.entries@;
        proof {
            lemma_map_of_at(s, i as int);
        }
        self.cm.entries[i].1.clear();
        proof {
            let e = self.cm.entries@[i as int];
            assert(self.cm.entries@ == s.update(i as int, (s[i as int].0, e.1)));
            lemma_map_of_update(s, i as int, s[i as int].0, e.1);
        }
    }
}

} // verus!
