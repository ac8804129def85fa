use vstd::prelude::*;
use crate::cart::{Cart, CartManager, Item, added, quantity_in};
use crate::error::{CustomError, NotificationError, OrderError, PaymentError, RiderError};
use crate::notification::{Email, NotificationManager, OrderNotice};
use crate::payment::{Gpay, PaymentManager};
use crate::registry::{Registry, entries_inserted};
use crate::restaurant::Restaurant;
use crate::rider::{RiderMatchingService, any_eligible, claimed, is_nearest};
use crate::user::User;

verus! {

/// Every item of `entries` has a price on `menu`.
pub open spec fn on_menu(entries: Seq<(String, usize)>, menu: Map<Seq<char>, usize>) -> bool {
    forall|i: int| 0 <= i < entries.len() ==> #[trigger] menu.dom().contains(entries[i].0@)
}

/// The sum of price times quantity over `entries`, prices taken from `menu`.
pub open spec fn bill(entries: Seq<(String, usize)>, menu: Map<Seq<char>, usize>) -> int
    decreases entries.len(),
{
    if entries.len() == 0 {
        0
    } else {
        let last = entries[entries.len() - 1];
        bill(entries.drop_last(), menu) + menu[last.0@] * last.1
    }
}

proof fn lemma_bill_prefix_grows(entries: Seq<(String, usize)>, menu: Map<Seq<char>, usize>, i: int)
    requires
        0 <= i <= entries.len(),
    ensures
        0 <= bill(entries.take(i), menu) <= bill(entries, menu),
    decreases entries.len(),
{
    if entries.len() == 0 {
        assert(entries.take(i) =~= entries);
    } else {
        let last = entries[entries.len() - 1];
        assert(menu[last.0@] * last.1 >= 0) by (nonlinear_arith)
            requires
                menu[last.0@] >= 0 && last.1 >= 0,
        ;
        if i == entries.len() {
            assert(entries.take(i) =~= entries);
            lemma_bill_prefix_grows(entries.drop_last(), menu, 0);
        } else {
            lemma_bill_prefix_grows(entries.drop_last(), menu, i);
            assert(entries.drop_last().take(i) =~= entries.take(i));
        }
    }
}

/// A bill is never negative.
pub proof fn lemma_bill_nonnegative(entries: Seq<(String, usize)>, menu: Map<Seq<char>, usize>)
    ensures
        bill(entries, menu) >= 0,
{
    lemma_bill_prefix_grows(entries, menu, 0);
}

/// Prices `cart` against `menu`. Fails with `ItemNotOnMenu` when an item has
/// no price, and otherwise with `Other` when the sum does not fit a `usize`.
pub fn bill_total(cart: &Cart, menu: &Registry<usize>) -> (r: Result<usize, CustomError>)
    requires
        cart.wf(),
        menu.wf(),
    ensures
        !on_menu(cart.entries(), menu@) ==> r == Err::<usize, CustomError>(
            CustomError::OrderError(OrderError::ItemNotOnMenu),
        ),
        on_menu(cart.entries(), menu@) && bill(cart.entries(), menu@) > usize::MAX ==> (r matches Err(
            CustomError::Other(_),
        )),
        on_menu(cart.entries(), menu@) && bill(cart.entries(), menu@) <= usize::MAX ==> r == Ok::<
            usize,
            CustomError,
        >(bill(cart.entries(), menu@) as usize),
{
    let entries = &cart.items.entries;
    let mut acc: usize = 0;
    let mut overflow = false;
    let mut i: usize = 0;
    while i < entries.len()
        invariant
            menu.wf(),
            *entries == cart.items.entries,
            0 <= i <= entries@.len(),
            on_menu(entries@.take(i as int), menu@),
            overflow ==> bill(entries@.take(i as int), menu@) > usize::MAX,
            !overflow ==> acc == bill(entries@.take(i as int), menu@),
        decreases entries@.len() - i,
    {
        let ghost t = entries@.take(i + 1);
        proof {
            assert(t.drop_last() =~= entries@.take(i as int));
        }
        match menu.get(entries[i].0.as_str()) {
            None => {
                return Err(CustomError::OrderError(OrderError::ItemNotOnMenu));
            },
            Some(price) => {
                if overflow {
                    proof {
                        lemma_bill_prefix_grows(t, menu@, i as int);
                        assert(t.take(i as int) =~= entries@.take(i as int));
                    }
                } else {
                    match price.checked_mul(entries[i].1) {
                        None => {
                            overflow = true;
                        },
                        Some(line) => match acc.checked_add(line) {
                            None => {
                                overflow = true;
                            },
                            Some(sum) => {
                                acc = sum;
                            },
                        },
                    }
                    proof {
                        if overflow {
                            assert(bill(entries@.take(i as int), menu@) >= 0) by {
                                lemma_bill_prefix_grows(entries@.take(i as int), menu@, 0);
                                assert(entries@.take(i as int).take(0) =~= Seq::<(String, usize)>::empty());
                            }
                        }
                    }
                }
                proof {
                    assert forall|j: int| 0 <= j < t.len() implies #[trigger] menu@.dom().contains(t[j].0@) by {
                        if j < i {
                            assert(t[j] == entries@.take(i as int)[j]);
                        }
                    }
                }
            },
        }
        i = i + 1;
    }
    proof {
        assert(entries@.take(i as int) =~= entries@);
    }
    if overflow {
        Err(CustomError::Other("order total exceeds the largest amount".to_owned()))
    } else {
        Ok(acc)
    }
}

/// What a placed order returns: its total, the rider claimed for it (by
/// position and by id), the balance left, and whether the confirmation went
/// out. A failed confirmation does not undo the order.
#[derive(Debug)]
pub struct OrderReceipt {
    pub total: usize,
    pub rider: usize,
    pub rider_id: String,
    pub remaining_balance: usize,
    pub notification: Result<(), NotificationError>,
}

/// The fulfilment operator: restaurants, per-user registries and the rider
/// pool.
#[derive(Debug)]
pub struct Zomato {
    pub notification_manager: NotificationManager,
    pub payment_manager: PaymentManager,
    pub cart_manager: CartManager,
    pub rider_service: RiderMatchingService,
    pub restaurants: Registry<Restaurant>,
}

impl Zomato {
    pub open(crate) spec fn wf(&self) -> bool {
        &&& self.notification_manager.wf()
        &&& self.payment_manager.wf()
        &&& self.cart_manager.wf()
        &&& self.restaurants.wf()
        &&& forall|k: Seq<char>| #[trigger]
            self.restaurants@.dom().contains(k) ==> self.restaurants@[k].wf()
    }

    /// `self` holds the same as `o` in every part.
    pub open spec fn same_as(&self, o: &Zomato) -> bool {
        &&& self.notification_manager@ == o.notification_manager@
        &&& self.payment_manager@ == o.payment_manager@
        &&& self.cart_manager@ == o.cart_manager@
        &&& self.rider_service@ == o.rider_service@
        &&& self.restaurants@ == o.restaurants@
    }

    /// The entries of the cart of user `uid`.
    pub open spec fn cart_entries(&self, uid: Seq<char>) -> Seq<(String, usize)> {
        self.cart_manager@[uid].entries()
    }

    /// The menu of restaurant `rid`.
    pub open spec fn menu_of(&self, rid: Seq<char>) -> Map<Seq<char>, usize> {
        self.restaurants@[rid].menu@
    }

    /// The bill of the cart of `uid` at restaurant `rid`.
    pub open spec fn order_bill(&self, uid: Seq<char>, rid: Seq<char>) -> int {
        bill(self.cart_entries(uid), self.menu_of(rid))
    }

    /// The cart of `uid` and restaurant `rid` exist, and the cart prices in
    /// full on its menu to an amount that fits a `usize`.
    pub open spec fn billable(&self, uid: Seq<char>, rid: Seq<char>) -> bool {
        &&& self.cart_manager@.dom().contains(uid)
        &&& self.restaurants@.dom().contains(rid)
        &&& on_menu(self.cart_entries(uid), self.menu_of(rid))
        &&& self.order_bill(uid, rid) <= usize::MAX
    }

    /// The order of `uid` at `rid` is billable and its account covers it.
    pub open spec fn payable(&self, uid: Seq<char>, rid: Seq<char>) -> bool {
        &&& self.billable(uid, rid)
        &&& self.payment_manager@.dom().contains(uid)
        &&& self.payment_manager@[uid].balance >= self.order_bill(uid, rid)
    }

    pub fn new() -> (r: Zomato)
        ensures
            r.wf(),
            r.notification_manager@ == Map::<Seq<char>, Email>::empty(),
            r.payment_manager@ == Map::<Seq<char>, Gpay>::empty(),
            r.cart_manager@ == Map::<Seq<char>, Cart>::empty(),
            r.rider_service@.len() == 0,
            r.restaurants@ == Map::<Seq<char>, Restaurant>::empty(),
    {
        Zomato {
            notification_manager: NotificationManager::new(),
            payment_manager: PaymentManager::new(),
            cart_manager: CartManager::new(),
            rider_service: RiderMatchingService::new(),
            restaurants: Registry::new(),
        }
    }

    /// Lists `restaurant` under its id, replacing any earlier one.
    pub fn add_restaurant(&mut self, restaurant: Restaurant)
        requires
            old(self).wf(),
            restaurant.wf(),
        ensures
            final(self).wf(),
            final(self).restaurants@ == old(self).restaurants@.insert(restaurant.id@, restaurant),
            final(self).notification_manager@ == old(self).notification_manager@,
            final(self).payment_manager@ == old(self).payment_manager@,
            final(self).cart_manager@ == old(self).cart_manager@,
            final(self).rider_service@ == old(self).rider_service@,
    {
        let id = restaurant.id.clone();
        self.restaurants.insert(id, restaurant);
    }

    /// Adds one of `item` to the cart of `user`, giving the user an empty
    /// cart first if none is attached. Fails, changing nothing, when the
    /// quantity would not fit a `usize`.
    pub fn add_to_cart(&mut self, user: &User, item: &Item) -> (r: Result<(), CustomError>)
        requires
            old(self).wf(),
        ensures
            final(self).wf(),
            ({
                let carts = old(self).cart_manager@;
                let before = if carts.dom().contains(user.id@) {
                    carts[user.id@]@
                } else {
                    Map::<Seq<char>, usize>::empty()
                };
                let before_entries = if carts.dom().contains(user.id@) {
                    carts[user.id@].entries()
                } else {
                    Seq::<(String, usize)>::empty()
                };
                &&& quantity_in(before, item.id@) == usize::MAX ==> (r matches Err(
                    CustomError::Other(_),
                ))
                &&& quantity_in(before, item.id@) == usize::MAX ==> final(self).same_as(old(self))
                &&& quantity_in(before, item.id@) < usize::MAX ==> {
                    &&& r is Ok
                    &&& final(self).cart_manager@.dom() == carts.dom().insert(user.id@)
                    &&& final(self).cart_manager@[user.id@]@ == added(before, item.id@)
                    &&& entries_inserted(
                        before_entries,
                        final(self).cart_manager@[user.id@].entries(),
                        item.id,
                        (quantity_in(before, item.id@) + 1) as usize,
                    )
                    &&& forall|k: Seq<char>|
                        #![trigger final(self).cart_manager@[k]]
                        carts.dom().contains(k) && k != user.id@ ==> final(self).cart_manager@[k]
                            == carts[k]
                }
            }),
            final(self).notification_manager@ == old(self).notification_manager@,
            final(self).payment_manager@ == old(self).payment_manager@,
            final(self).rider_service@ == old(self).rider_service@,
            final(self).restaurants@ == old(self).restaurants@,
    {
        let q = match self.cart_manager.get(user) {
            Some(cart) => cart.quantity(item.id.as_str()),
            None => 0,
        };
        if q == usize::MAX {
            return Err(CustomError::Other("cart quantity exceeds the largest count".to_owned()));
        }
        if self.cart_manager.get(user).is_none() {
            let cart = Cart::new();
            self.cart_manager.attach(user, cart);
        }
        self.cart_manager.add_item(user, item);
        Ok(())
    }

    /// Places the order of `user` at restaurant `restaurant_id`: prices the
    /// cart, takes payment, claims the nearest rider, sends the confirmation
    /// and empties the cart. Each failure stops the steps after it and leaves
    /// every part as it was; a payment already taken is refunded first. A
    /// failed confirmation is reported in the receipt and does not undo the
    /// order.
    pub fn process_order(&mut self, user: &User, restaurant_id: &str) -> (r: Result<
        OrderReceipt,
        CustomError,
    >)
        requires
            old(self).wf(),
        ensures
            final(self).wf(),
            final(self).restaurants@ == old(self).restaurants@,
            r is Err ==> final(self).same_as(old(self)),
            !old(self).cart_manager@.dom().contains(user.id@) ==> r == Err::<
                OrderReceipt,
                CustomError,
            >(CustomError::OrderError(OrderError::NoCart)),
            old(self).cart_manager@.dom().contains(user.id@) && !old(
                self,
            ).restaurants@.dom().contains(restaurant_id@) ==> r == Err::<OrderReceipt, CustomError>(
                CustomError::OrderError(OrderError::UnknownRestaurant),
            ),
            old(self).cart_manager@.dom().contains(user.id@) && old(
                self,
            ).restaurants@.dom().contains(restaurant_id@) && !on_menu(
                old(self).cart_entries(user.id@),
                old(self).menu_of(restaurant_id@),
            ) ==> r == Err::<OrderReceipt, CustomError>(
                CustomError::OrderError(OrderError::ItemNotOnMenu),
            ),
            old(self).cart_manager@.dom().contains(user.id@) && old(
                self,
            ).restaurants@.dom().contains(restaurant_id@) && on_menu(
                old(self).cart_entries(user.id@),
                old(self).menu_of(restaurant_id@),
            ) && old(self).order_bill(user.id@, restaurant_id@) > usize::MAX ==> (r matches Err(
                CustomError::Other(_),
            )),
            old(self).billable(user.id@, restaurant_id@) && !old(
                self,
            ).payment_manager@.dom().contains(user.id@) ==> r == Err::<OrderReceipt, CustomError>(
                CustomError::PaymentError(PaymentError::NoAccount),
            ),
            old(self).billable(user.id@, restaurant_id@) && old(
                self,
            ).payment_manager@.dom().contains(user.id@) && old(
                self,
            ).payment_manager@[user.id@].balance < old(self).order_bill(user.id@, restaurant_id@)
                ==> r == Err::<OrderReceipt, CustomError>(
                CustomError::PaymentError(PaymentError::InsufficientFunds),
            ),
            old(self).payable(user.id@, restaurant_id@) && !any_eligible(old(self).rider_service@)
                ==> r == Err::<OrderReceipt, CustomError>(
                CustomError::RiderError(RiderError::NoRiderAvailable),
            ),
            old(self).payable(user.id@, restaurant_id@) && any_eligible(old(self).rider_service@)
                ==> r is Ok,
            r matches Ok(receipt) ==> {
                let o = *old(self);
                let f = *final(self);
                let uid = user.id@;
                let total = o.order_bill(uid, restaurant_id@);
                let account = o.payment_manager@[uid];
                &&& receipt.total == total
                &&& receipt.remaining_balance == account.balance - total
                &&& is_nearest(o.rider_service@, user.location, receipt.rider as int)
                &&& receipt.rider_id@ == o.rider_service@[receipt.rider as int].id@
                &&& f.rider_service@ == o.rider_service@.update(
                    receipt.rider as int,
                    claimed(o.rider_service@[receipt.rider as int], user.location),
                )
                &&& f.payment_manager@ == o.payment_manager@.insert(
                    uid,
                    Gpay { balance: receipt.remaining_balance, ..account },
                )
                &&& f.cart_manager@.dom() == o.cart_manager@.dom()
                &&& f.cart_manager@[uid]@ == Map::<Seq<char>, usize>::empty()
                &&& f.cart_manager@[uid].entries().len() == 0
                &&& forall|k: Seq<char>|
                    #![trigger f.cart_manager@[k]]
                    o.cart_manager@.dom().contains(k) && k != uid ==> f.cart_manager@[k]
                        == o.cart_manager@[k]
                &&& !o.notification_manager@.dom().contains(uid) ==> receipt.notification
                    == Err::<(), NotificationError>(NotificationError::NoChannel)
                    && f.notification_manager@ == o.notification_manager@
                &&& o.notification_manager@.dom().contains(uid) ==> {
                    let e = o.notification_manager@[uid];
                    let out = f.notification_manager@[uid].outbox@;
                    &&& receipt.notification is Ok
                    &&& f.notification_manager@ == o.notification_manager@.insert(
                        uid,
                        Email { outbox: f.notification_manager@[uid].outbox, ..e },
                    )
                    &&& out.len() == e.outbox@.len() + 1
                    &&& out.drop_last() == e.outbox@
                    &&& out.last().total == total
                    &&& out.last().restaurant@ == o.restaurants@[restaurant_id@].name@
                    &&& out.last().rider@ == receipt.rider_id@
                    &&& out.last().balance == receipt.remaining_balance
                }
            },
    {
        let cart = match self.cart_manager.get(user) {
            Some(c) => c,
            None => {
                return Err(CustomError::OrderError(OrderError::NoCart));
            },
        };
        let restaurant = match self.restaurants.get(restaurant_id) {
            Some(r) => r,
            None => {
                return Err(CustomError::OrderError(OrderError::UnknownRestaurant));
            },
        };
        let total = match bill_total(cart, &restaurant.menu) {
            Ok(t) => t,
            Err(e) => {
                return Err(e);
            },
        };
        proof {
            lemma_bill_nonnegative(cart.entries(), restaurant.menu@);
        }
        let balance = match self.payment_manager.pay(user, total) {
            Ok(b) => b,
            Err(e) => {
                return Err(CustomError::PaymentError(e));
            },
        };
        let rider = match self.rider_service.match_rider(&user.location) {
            Ok(i) => i,
            Err(e) => {
                self.payment_manager.refund(user, total);
                proof {
                    assert(self.payment_manager@ =~= old(self).payment_manager@);
                }
                return Err(CustomError::RiderError(e));
            },
        };
        let rider_id = self.rider_service.riders[rider].id.clone();
        let notice = OrderNotice {
            total,
            restaurant: restaurant.name.clone(),
            rider: rider_id.clone(),
            balance,
        };
        let notification = self.notification_manager.notify(user, notice);
        self.cart_manager.clear(user);
        Ok(OrderReceipt { total, rider, rider_id, remaining_balance: balance, notification })
    }
}

} // verus!
