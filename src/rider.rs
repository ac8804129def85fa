use vstd::prelude::*;
use crate::error::RiderError;
use crate::location::{Location, dist_sq};

verus! {

/// A delivery rider: where it is, where it is headed, and whether it can take
/// an order.
#[derive(Debug)]
pub struct Rider {
    pub id: String,
    pub location: Option<Location>,
    pub target_location: Option<Location>,
    pub is_available: bool,
}

/// The rider may be matched: it is available and its position is known.
pub open spec fn eligible(r: Rider) -> bool {
    r.is_available && r.location is Some
}

/// Squared distance from an eligible rider to `t`.
pub open spec fn rider_dist(r: Rider, t: Location) -> int {
    dist_sq(r.location.unwrap(), t)
}

/// Some rider in `riders` is eligible.
pub open spec fn any_eligible(riders: Seq<Rider>) -> bool {
    exists|j: int| 0 <= j < riders.len() && #[trigger] eligible(riders[j])
}

/// Rider `i` is the eligible rider closest to `t`, and the first in order
/// among those at that distance.
pub open spec fn is_nearest(riders: Seq<Rider>, t: Location, i: int) -> bool {
    &&& 0 <= i < riders.len()
    &&& eligible(riders[i])
    &&& forall|j: int|
        0 <= j < riders.len() && #[trigger] eligible(riders[j]) ==> rider_dist(riders[i], t)
            <= rider_dist(riders[j], t)
    &&& forall|j: int|
        0 <= j < i && #[trigger] eligible(riders[j]) ==> rider_dist(riders[i], t) < rider_dist(
            riders[j],
            t,
        )
}

/// The rider after taking a ride to `t`.
pub open spec fn claimed(r: Rider, t: Location) -> Rider {
    Rider { target_location: Some(t), is_available: false, ..r }
}

/// The rider after finishing its delivery.
pub open spec fn released(r: Rider) -> Rider {
    Rider { target_location: None, is_available: true, ..r }
}

impl Rider {
    pub fn new(id: &str) -> (r: Rider)
        ensures
            r.id@ == id@,
            r.location is None,
            r.target_location is None,
            r.is_available,
    {
        Rider { id: id.to_owned(), location: None, target_location: None, is_available: true }
    }

    /// Moves the rider; availability is untouched.
    pub fn update(&mut self, location: Location)
        ensures
            *final(self) == (Rider { location: Some(location), ..*old(self) }),
    {
        self.location = Some(location);
    }

    /// Takes a ride to `target_location`.
    pub fn accept_ride(&mut self, target_location: Location)
        ensures
            *final(self) == claimed(*old(self), target_location),
    {
        self.target_location = Some(target_location);
        self.is_available = false;
    }

    /// Finishes the current delivery and becomes available again.
    pub fn complete_delivery(&mut self)
        ensures
            *final(self) == released(*old(self)),
    {
        self.target_location = None;
        self.is_available = true;
    }
}

/// The riders, in registration order.
#[derive(Debug)]
pub struct RiderMatchingService {
    pub riders: Vec<Rider>,
}

impl RiderMatchingService {
    pub open spec fn view(&self) -> Seq<Rider> {
        self.riders@
    }

    pub fn new() -> (r: RiderMatchingService)
        ensures
            r@.len() == 0,
    {
        RiderMatchingService { riders: Vec::new() }
    }

    /// Registers a rider, after all those registered before.
    pub fn push(&mut self, rider: Rider)
        ensures
            final(self)@ == old(self)@.push(rider),
    {
        self.riders.push(rider);
    }

    /// Claims the nearest eligible rider for a ride to `target_location` and
    /// returns its position; fails when no rider is eligible.
    pub fn match_rider(&mut self, target_location: &Location) -> (r: Result<usize, RiderError>)
        ensures
            r is Err <==> !any_eligible(old(self)@),
            r is Err ==> r == Err::<usize, RiderError>(RiderError::NoRiderAvailable),
            r is Err ==> final(self)@ == old(self)@,
            r matches Ok(i) ==> is_nearest(old(self)@, *target_location, i as int),
            r matches Ok(i) ==> final(self)@ == old(self)@.update(
                i as int,
                claimed(old(self)@[i as int], *target_location),
            ),
    {
        let mut best: Option<usize> = None;
        let mut best_d: u128 = 0;
        let mut i: usize = 0;
        while i < self.riders.len()
            invariant
                0 <= i <= self.riders@.len(),
                best is None ==> forall|j: int| 0 <= j < i ==> !#[trigger] eligible(self.riders@[j]),
                best matches Some(b) ==> {
                    &&& is_nearest(self.riders@.take(i as int), *target_location, b as int)
                    &&& best_d as int == rider_dist(self.riders@[b as int], *target_location)
                },
            decreases self.riders@.len() - i,
        {
            let rider = &self.riders[i];
            if rider.is_available {
                match &rider.location {
                    Some(loc) => {
                        let d = loc.squared_distance_to(target_location);
                        let better = match best {
                            None => true,
                            Some(_) => d < best_d,
                        };
                        if better {
                            best = Some(i);
                            best_d = d;
                        }
                    },
                    None => {},
                }
            }
            proof {
                let s = self.riders@.take(i + 1);
                assert(s =~= self.riders@.take(i as int).push(self.riders@[i as int]));
            }
            i = i + 1;
        }
        proof {
            assert(self.riders@.take(i as int) =~= self.riders@);
        }
        match best {
            None => Err(RiderError::NoRiderAvailable),
            Some(b) => {
                self.riders[b].accept_ride(*target_location);
                Ok(b)
            },
        }
    }

    /// The position of the first rider registered under `rider_id`.
    fn position_of(&self, rider_id: &str) -> (r: Option<usize>)
        ensures
            r is None ==> forall|j: int| 0 <= j < self@.len() ==> self@[j].id@ != rider_id@,
            r matches Some(i) ==> i < self@.len() && self@[i as int].id@ == rider_id@,
            r matches Some(i) ==> forall|j: int| 0 <= j < i ==> self@[j].id@ != rider_id@,
    {
        let wanted: String = rider_id.to_owned();
        let mut i: usize = 0;
        while i < self.riders.len()
            invariant
                wanted@ == rider_id@,
                0 <= i <= self@.len(),
                forall|j: int| 0 <= j < i ==> self@[j].id@ != rider_id@,
            decreases self@.len() - i,
        {
            if self.riders[i].id == wanted {
                return Some(i);
            }
            i = i + 1;
        }
        None
    }

    /// Moves the first rider registered under `rider_id`; availability is
    /// untouched. Returns whether such a rider exists.
    pub fn update_location(&mut self, rider_id: &str, location: Location) -> (r: bool)
        ensures
            r == exists|j: int| 0 <= j < old(self)@.len() && #[trigger] old(self)@[j].id@ == rider_id@,
            !r ==> final(self)@ == old(self)@,
            r ==> exists|i: int|
                0 <= i < old(self)@.len() && old(self)@[i].id@ == rider_id@ && (forall|j: int|
                    0 <= j < i ==> #[trigger] old(self)@[j].id@ != rider_id@) && final(self)@
                    == old(self)@.update(i, Rider { location: Some(location), ..old(self)@[i] }),
    {
        match self.position_of(rider_id) {
            None => false,
            Some(i) => {
                let ghost before = self@;
                self.riders[i].update(location);
                assert(0 <= i < before.len() && before[i as int].id@ == rider_id@);
                true
            },
        }
    }

    /// Ends the delivery of the first rider registered under `rider_id`,
    /// making it available again. Returns whether such a rider exists.
    pub fn complete_delivery(&mut self, rider_id: &str) -> (r: bool)
        ensures
            r == exists|j: int| 0 <= j < old(self)@.len() && #[trigger] old(self)@[j].id@ == rider_id@,
            !r ==> final(self)@ == old(self)@,
            r ==> exists|i: int|
                0 <= i < old(self)@.len() && old(self)@[i].id@ == rider_id@ && (forall|j: int|
                    0 <= j < i ==> #[trigger] old(self)@[j].id@ != rider_id@) && final(self)@
                    == old(self)@.update(i, released(old(self)@[i])),
    {
        match self.position_of(rider_id) {
            None => false,
            Some(i) => {
                let ghost before = self@;
                self.riders[i].complete_delivery();
                assert(0 <= i < before.len() && before[i as int].id@ == rider_id@);
                true
            },
        }
    }
}

/// Only an available rider with a known location is ever matched, however
/// close the others are.
pub proof fn lemma_match_only_eligible(riders: Seq<Rider>, t: Location, i: int)
    requires
        is_nearest(riders, t, i),
    ensures
        riders[i].is_available,
        riders[i].location is Some,
{
}

/// At most one rider is the match for a target: the result of matching is
/// determined by the pool and the target.
pub proof fn lemma_nearest_unique(riders: Seq<Rider>, t: Location, i: int, j: int)
    requires
        is_nearest(riders, t, i),
        is_nearest(riders, t, j),
    ensures
        i == j,
{
    if i < j {
        assert(eligible(riders[i]));
    } else if j < i {
        assert(eligible(riders[j]));
    }
}

/// Once claimed, a rider is matched by no later call, whatever its target,
/// until it is released.
pub proof fn lemma_claimed_not_selectable(riders: Seq<Rider>, t: Location, i: int, t2: Location, j: int)
    requires
        is_nearest(riders, t, i),
        is_nearest(riders.update(i, claimed(riders[i], t)), t2, j),
    ensures
        j != i,
{
}

/// A claimed rider stays unmatched while other riders move, finish
/// deliveries or join the pool: only releasing it makes it eligible again.
pub proof fn lemma_claimed_stays_claimed(riders: Seq<Rider>, i: int, j: int, t: Location, l: Location, r: Rider)
    requires
        0 <= i < riders.len(),
        0 <= j < riders.len(),
        i != j,
        !riders[i].is_available,
    ensures
        !eligible(riders.update(j, Rider { location: Some(l), ..riders[j] })[i]),
        !eligible(riders.update(j, released(riders[j]))[i]),
        !eligible(riders.update(j, claimed(riders[j], t))[i]),
        !eligible(riders.update(i, Rider { location: Some(l), ..riders[i] })[i]),
        !eligible(riders.push(r)[i]),
        eligible(riders.update(i, released(riders[i]))[i]) == (riders[i].location is Some),
{
}

} // verus!
