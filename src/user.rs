use vstd::prelude::*;
use crate::location::Location;

verus! {

/// A customer, known everywhere else by `id`.
#[derive(Debug)]
pub struct User {
    pub id: String,
    pub name: String,
    pub location: Location,
}

impl User {
    pub fn new(id: &str, name: &str, location: Location) -> (r: User)
        ensures
            r.id@ == id@,
            r.name@ == name@,
            r.location == location,
    {
        User { id: id.to_owned(), name: name.to_owned(), location }
    }
}

} // verus!
