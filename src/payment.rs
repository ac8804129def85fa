use vstd::prelude::*;
use crate::error::PaymentError;
use crate::registry::{Registry, lemma_map_of_at, lemma_map_of_update};
use crate::user::User;

verus! {

/// A wallet-style payment account.
#[derive(Debug)]
pub struct Gpay {
    pub id: String,
    pub balance: usize,
}

impl Gpay {
    pub fn new(id: &str, balance: usize) -> (r: Gpay)
        ensures
            r.id@ == id@,
            r.balance == balance,
    {
        Gpay { id: id.to_owned(), balance }
    }

    /// Takes `amount` and returns the new balance; fails, changing nothing,
    /// when the balance is short.
    pub fn pay(&mut self, amount: usize) -> (r: Result<usize, PaymentError>)
        ensures
            old(self).balance >= amount ==> r == Ok::<usize, PaymentError>(
                (old(self).balance - amount) as usize,
            ),
            old(self).balance < amount ==> r == Err::<usize, PaymentError>(
                PaymentError::InsufficientFunds,
            ),
            r is Ok ==> final(self).balance == old(self).balance - amount,
            r is Err ==> final(self).balance == old(self).balance,
            final(self).id == old(self).id,
    {
        if self.balance >= amount {
            self.balance = self.balance - amount;
            Ok(self.balance)
        } else {
            Err(PaymentError::InsufficientFunds)
        }
    }

    /// Gives `amount` back and returns the new balance.
    pub fn refund(&mut self, amount: usize) -> (r: usize)
        requires
            old(self).balance + amount <= usize::MAX,
        ensures
            r == final(self).balance,
            final(self).balance == old(self).balance + amount,
            final(self).id == old(self).id,
    {
        self.balance = self.balance + amount;
        self.balance
    }
}

/// One payment account per user id.
#[derive(Debug)]
pub struct PaymentManager {
    pub(crate) pm: Registry<Gpay>,
}

impl PaymentManager {
    pub open(crate) spec fn wf(&self) -> bool {
        self.pm.wf()
    }

    /// The accounts, by user id.
    pub open(crate) spec fn view(&self) -> Map<Seq<char>, Gpay> {
        self.pm@
    }

    pub fn new() -> (r: PaymentManager)
        ensures
            r.wf(),
            r@ == Map::<Seq<char>, Gpay>::empty(),
    {
        PaymentManager { pm: Registry::new() }
    }

    /// Gives `user` the account `instrument`, replacing any earlier one.
    pub fn attach(&mut self, user: &User, instrument: Gpay)
        requires
            old(self).wf(),
        ensures
            final(self).wf(),
            final(self)@ == old(self)@.insert(user.id@, instrument),
    {
        self.pm.insert(user.id.clone(), instrument);
    }

    /// The account of `user`, if one is attached.
    pub fn get(&self, user: &User) -> (r: Option<&Gpay>)
        requires
            self.wf(),
        ensures
            r.is_none() <==> !self@.dom().contains(user.id@),
            r matches Some(g) ==> *g == self@[user.id@],
    {
        self.pm.get(user.id.as_str())
    }

    /// Charges `amount` to the account of `user`.
    pub fn pay(&mut self, user: &User, amount: usize) -> (r: Result<usize, PaymentError>)
        requires
            old(self).wf(),
        ensures
            final(self).wf(),
            !old(self)@.dom().contains(user.id@) ==> r == Err::<usize, PaymentError>(
                PaymentError::NoAccount,
            ) && final(self)@ == old(self)@,
            old(self)@.dom().contains(user.id@) ==> {
                let g = old(self)@[user.id@];
                &&& g.balance >= amount ==> r == Ok::<usize, PaymentError>(
                    (g.balance - amount) as usize,
                ) && final(self)@ == old(self)@.insert(
                    user.id@,
                    Gpay { balance: (g.balance - amount) as usize, ..g },
                )
                &&& g.balance < amount ==> r == Err::<usize, PaymentError>(
                    PaymentError::InsufficientFunds,
                ) && final(self)@ == old(self)@
            },
    {
        match self.pm.index_of(user.id.as_str()) {
            None => Err(PaymentError::NoAccount),
            Some(i) => {
                let ghost s = self.pm.entries@;
                let r = self.pm.entries[i].1.pay(amount);
                proof {
                    let e = self.pm.entries@[i as int];
                    assert(self.pm.entries@ == s.update(i as int, (s[i as int].0, e.1)));
                    lemma_map_of_update(s, i as int, s[i as int].0, e.1);
                }
                r
            },
        }
    }

    /// Gives `amount` back to the account of `user`, returning the new
    /// balance.
    pub fn refund(&mut self, user: &User, amount: usize) -> (r: usize)
        requires
            old(self).wf(),
            old(self)@.dom().contains(user.id@),
            old(self)@[user.id@].balance + amount <= usize::MAX,
        ensures
            final(self).wf(),
            r == old(self)@[user.id@].balance + amount,
            final(self)@ == old(self)@.insert(
                user.id@,
                Gpay { balance: r, ..old(self)@[user.id@] },
            ),
    {
        let i = self.pm.index_of(user.id.as_str()).unwrap();
        let ghost s = self.pm.entries@;
        proof {
            lemma_map_of_at(s, i as int);
        }
        let r = self.pm.entries[i].1.refund(amount);
        proof {
            let e = self.pm.entries@[i as int];
            assert(self.pm.entries@ == s.update(i as int, (s[i as int].0, e.1)));
            lemma_map_of_update(s, i as int, s[i as int].0, e.1);
        }
        r
    }
}

} // verus!
