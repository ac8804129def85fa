use vstd::prelude::*;
use crate::location::Location;
use crate::registry::Registry;

verus! {

/// A restaurant and its menu, item id to price.
#[derive(Debug)]
pub struct Restaurant {
    pub id: String,
    pub name: String,
    pub location: Location,
    pub menu: Registry<usize>,
}

impl Restaurant {
    pub open(crate) spec fn wf(&self) -> bool {
        self.menu.wf()
    }

    pub fn new(id: &str, name: &str, location: Location, menu: Registry<usize>) -> (r: Restaurant)
        requires
            menu.wf(),
        ensures
            r.wf(),
            r.id@ == id@,
            r.name@ == name@,
            r.location == location,
            r.menu == menu,
    {
        Restaurant { id: id.to_owned(), name: name.to_owned(), location, menu }
    }
}

} // verus!
