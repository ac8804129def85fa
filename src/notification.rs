use vstd::prelude::*;
use crate::error::NotificationError;
use crate::registry::{Registry, lemma_map_of_at, lemma_map_of_update};
use crate::user::User;

verus! {

/// The confirmation of a placed order.
#[derive(Debug)]
pub struct OrderNotice {
    pub total: usize,
    pub restaurant: String,
    pub rider: String,
    pub balance: usize,
}

/// An email channel. Messages wait in `outbox` until the caller delivers
/// them.
#[derive(Debug)]
pub struct Email {
    pub id: String,
    pub outbox: Vec<OrderNotice>,
}

impl Email {
    pub fn new(id: &str) -> (r: Email)
        ensures
            r.id@ == id@,
            r.outbox@.len() == 0,
    {
        Email { id: id.to_owned(), outbox: Vec::new() }
    }

    /// Queues `notice` for delivery.
    pub fn notify(&mut self, notice: OrderNotice) -> (r: Result<(), NotificationError>)
        ensures
            r is Ok,
            final(self).id == old(self).id,
            final(self).outbox@ == old(self).outbox@.push(notice),
    {
        self.outbox.push(notice);
        Ok(())
    }
}

/// One notification channel per user id.
#[derive(Debug)]
pub struct NotificationManager {
    pub(crate) nm: Registry<Email>,
}

impl NotificationManager {
    pub open(crate) spec fn wf(&self) -> bool {
        self.nm.wf()
    }

    /// The channels, by user id.
    pub open(crate) spec fn view(&self) -> Map<Seq<char>, Email> {
        self.nm@
    }

    pub fn new() -> (r: NotificationManager)
        ensures
            r.wf(),
            r@ == Map::<Seq<char>, Email>::empty(),
    {
        NotificationManager { nm: Registry::new() }
    }

    /// Gives `user` the channel `instrument`, replacing any earlier one.
    pub fn attach(&mut self, user: &User, instrument: Email)
        requires
            old(self).wf(),
        ensures
            final(self).wf(),
            final(self)@ == old(self)@.insert(user.id@, instrument),
    {
        self.nm.insert(user.id.clone(), instrument);
    }

    /// The channel of `user`, if one is attached.
    pub fn get(&self, user: &User) -> (r: Option<&Email>)
        requires
            self.wf(),
        ensures
            r.is_none() <==> !self@.dom().contains(user.id@),
            r matches Some(e) ==> *e == self@[user.id@],
    {
        self.nm.get(user.id.as_str())
    }

    /// Sends `notice` on the channel of `user`.
    pub fn notify(&mut self, user: &User, notice: OrderNotice) -> (r: Result<(), NotificationError>)
        requires
            old(self).wf(),
        ensures
            final(self).wf(),
            !old(self)@.dom().contains(user.id@) ==> r == Err::<(), NotificationError>(
                NotificationError::NoChannel,
            ) && final(self)@ == old(self)@,
            old(self)@.dom().contains(user.id@) ==> {
                let e = old(self)@[user.id@];
                &&& r is Ok
                &&& final(self)@ == old(self)@.insert(
                    user.id@,
                    Email { outbox: final(self)@[user.id@].outbox, ..e },
                )
                &&& final(self)@[user.id@].outbox@ == e.outbox@.push(notice)
            },
    {
        match self.nm.index_of(user.id.as_str()) {
            None => Err(NotificationError::NoChannel),
            Some(i) => {
                let ghost s = self.nm.entries@;
                proof {
                    lemma_map_of_at(s, i as int);
                }
                let r = self.nm.entries[i].1.notify(notice);
                proof {
                    let e = self.nm.entries@[i as int];
                    assert(self.nm.entries@ == s.update(i as int, (s[i as int].0, e.1)));
                    lemma_map_of_update(s, i as int, s[i as int].0, e.1);
                }
                r
            },
        }
    }
}

} // verus!
