//! The local store of Flight definitions: resolution of a name or id under
//! exact or fuzzy matching, partial edits, insertion and removal. Fuzzy
//! matching ignores the case of ASCII letters only; other letters must match
//! as they are.

use vstd::prelude::*;

use crate::models::Architecture;
use crate::text::{
    chars_eq, chars_of, contains, fold_seq, folded_chars, is_prefix_of, occurs_in, opt_view,
    starts_with,
};

verus! {

/// A named workload definition.
#[derive(Debug, PartialEq, Eq)]
pub struct Flight {
    /// Assigned at creation; never changes and is never reused.
    pub id: String,
    pub name: String,
    pub image: String,
    pub architecture: Architecture,
    pub minimum: u64,
    pub maximum: Option<u64>,
}

pub ghost struct FlightModel {
    pub id: Seq<char>,
    pub name: Seq<char>,
    pub image: Seq<char>,
    pub architecture: Architecture,
    pub minimum: u64,
    pub maximum: Option<u64>,
}

impl View for Flight {
    type V = FlightModel;

    open spec fn view(&self) -> FlightModel {
        FlightModel {
            id: self.id@,
            name: self.name@,
            image: self.image@,
            architecture: self.architecture,
            minimum: self.minimum,
            maximum: self.maximum,
        }
    }
}

/// New attribute values for an edit; a field left `None` keeps the old value.
#[derive(Debug, Default)]
pub struct FlightOverlay {
    pub name: Option<String>,
    pub image: Option<String>,
    pub architecture: Option<Architecture>,
    pub minimum: Option<u64>,
    pub maximum: Option<u64>,
}

pub ghost struct OverlayModel {
    pub name: Option<Seq<char>>,
    pub image: Option<Seq<char>>,
    pub architecture: Option<Architecture>,
    pub minimum: Option<u64>,
    pub maximum: Option<u64>,
}

impl View for FlightOverlay {
    type V = OverlayModel;

    open spec fn view(&self) -> OverlayModel {
        OverlayModel {
            name: opt_view(self.name),
            image: opt_view(self.image),
            architecture: self.architecture,
            minimum: self.minimum,
            maximum: self.maximum,
        }
    }
}

pub open spec fn pick<T>(new: Option<T>, old: T) -> T {
    match new {
        Some(v) => v,
        None => old,
    }
}

/// A Flight after an overlay: each given field replaces the old one, the id
/// never changes.
pub open spec fn overlay_spec(f: FlightModel, o: OverlayModel) -> FlightModel {
    FlightModel {
        id: f.id,
        name: pick(o.name, f.name),
        image: pick(o.image, f.image),
        architecture: pick(o.architecture, f.architecture),
        minimum: pick(o.minimum, f.minimum),
        maximum: match o.maximum {
            Some(m) => Some(m),
            None => f.maximum,
        },
    }
}

fn copy_string(s: &String) -> (r: String)
    ensures
        r@ == s@,
{
    s.clone()
}

impl Flight {
    /// A copy of the Flight.
    pub fn duplicate(&self) -> (r: Flight)
        ensures
            r@ == self@,
    {
        Flight {
            id: copy_string(&self.id),
            name: copy_string(&self.name),
            image: copy_string(&self.image),
            architecture: self.architecture,
            minimum: self.minimum,
            maximum: self.maximum,
        }
    }

    /// Applies an overlay: a partial patch, never a replacement of the whole.
    pub fn apply_overlay(&mut self, overlay: &FlightOverlay)
        ensures
            final(self)@ == overlay_spec(old(self)@, overlay@),
    {
        if let Some(name) = &overlay.name {
            self.name = copy_string(name);
        }
        if let Some(image) = &overlay.image {
            self.image = copy_string(image);
        }
        if let Some(a) = overlay.architecture {
            self.architecture = a;
        }
        if let Some(m) = overlay.minimum {
            self.minimum = m;
        }
        if let Some(m) = overlay.maximum {
            self.maximum = Some(m);
        }
    }
}

/// The ways a name or id can match a Flight, in order of precedence.
#[derive(Clone, Copy, Debug, PartialEq, Eq, Structural)]
pub enum MatchTier {
    /// The id equals the text.
    Id,
    /// The name equals the text.
    Name,
    /// The text begins the name, ignoring ASCII case.
    Prefix,
    /// The text occurs in the name, ignoring ASCII case.
    Substring,
}

pub open spec fn tier_matches(f: FlightModel, q: Seq<char>, t: MatchTier) -> bool {
    match t {
        MatchTier::Id => f.id == q,
        MatchTier::Name => f.name == q,
        MatchTier::Prefix => is_prefix_of(fold_seq(q), fold_seq(f.name)),
        MatchTier::Substring => occurs_in(fold_seq(q), fold_seq(f.name)),
    }
}

/// The positions of the Flights that match in the given way, in store order.
pub open spec fn candidates(s: Seq<FlightModel>, q: Seq<char>, t: MatchTier) -> Seq<int>
    decreases s.len(),
{
    if s.len() == 0 {
        seq![]
    } else {
        let c = candidates(s.drop_last(), q, t);
        if tier_matches(s.last(), q, t) {
            c.push(s.len() - 1)
        } else {
            c
        }
    }
}

/// The first way of matching that finds anything: an exact id, then an exact
/// name, then (fuzzy only) a prefix of the name, then a part of the name.
pub open spec fn chosen_tier(s: Seq<FlightModel>, q: Seq<char>, exact: bool) -> Option<MatchTier> {
    if candidates(s, q, MatchTier::Id).len() > 0 {
        Some(MatchTier::Id)
    } else if candidates(s, q, MatchTier::Name).len() > 0 {
        Some(MatchTier::Name)
    } else if !exact && candidates(s, q, MatchTier::Prefix).len() > 0 {
        Some(MatchTier::Prefix)
    } else if !exact && candidates(s, q, MatchTier::Substring).len() > 0 {
        Some(MatchTier::Substring)
    } else {
        None
    }
}

pub ghost enum Resolution {
    Found(int),
    NotFound,
    Ambiguous(Seq<int>),
}

/// What resolving `q` gives: the one candidate of the chosen way of matching,
/// or all of them when there are several.
pub open spec fn resolve_spec(s: Seq<FlightModel>, q: Seq<char>, exact: bool) -> Resolution {
    match chosen_tier(s, q, exact) {
        None => Resolution::NotFound,
        Some(t) => {
            let c = candidates(s, q, t);
            if c.len() == 1 {
                Resolution::Found(c[0])
            } else {
                Resolution::Ambiguous(c)
            }
        },
    }
}

/// Why a name or id did not pick exactly one Flight.
#[derive(Debug, PartialEq, Eq)]
pub enum ResolutionError {
    NotFound,
    /// The ids of all candidates, in store order.
    Ambiguous(Vec<String>),
}

/// Whether `e` reports the outcome `res` over the store `s`.
pub open spec fn reports(e: ResolutionError, s: Seq<FlightModel>, res: Resolution) -> bool {
    match (e, res) {
        (ResolutionError::NotFound, Resolution::NotFound) => true,
        (ResolutionError::Ambiguous(ids), Resolution::Ambiguous(c)) => {
            &&& ids@.len() == c.len()
            &&& forall|k: int| 0 <= k < c.len() ==> (#[trigger] ids@[k])@ == s[c[k]].id
        },
        _ => false,
    }
}

/// An id that the store already holds.
#[derive(Clone, Copy, Debug, PartialEq, Eq)]
pub struct DuplicateId;

pub open spec fn ids_distinct(s: Seq<FlightModel>) -> bool {
    forall|i: int, j: int| 0 <= i < s.len() && 0 <= j < s.len() && i != j ==> s[i].id != s[j].id
}

pub open spec fn holds_id(s: Seq<FlightModel>, id: Seq<char>) -> bool {
    exists|i: int| 0 <= i < s.len() && s[i].id == id
}

proof fn lemma_candidates_sound(s: Seq<FlightModel>, q: Seq<char>, t: MatchTier)
    ensures
        forall|k: int|
            0 <= k < candidates(s, q, t).len() ==> 0 <= #[trigger] candidates(s, q, t)[k] < s.len()
                && tier_matches(s[candidates(s, q, t)[k]], q, t),
        forall|i: int| 0 <= i < s.len() && tier_matches(s[i], q, t) ==> exists|k: int|
            0 <= k < candidates(s, q, t).len() && candidates(s, q, t)[k] == i,
    decreases s.len(),
{
    if s.len() > 0 {
        lemma_candidates_sound(s.drop_last(), q, t);
        let c = candidates(s.drop_last(), q, t);
        assert forall|i: int| 0 <= i < s.len() && tier_matches(s[i], q, t) implies exists|k: int|
            0 <= k < candidates(s, q, t).len() && candidates(s, q, t)[k] == i by {
            if i < s.len() - 1 {
                assert(s.drop_last()[i] == s[i]);
                let k = choose|k: int| 0 <= k < c.len() && c[k] == i;
                assert(candidates(s, q, t)[k] == i);
            } else {
                assert(candidates(s, q, t)[c.len() as int] == i);
            }
        }
    }
}

/// The Flights of the local store, in order, each id at most once.
#[derive(Debug)]
pub struct Flights {
    inner: Vec<Flight>,
}

impl View for Flights {
    type V = Seq<FlightModel>;

    closed spec fn view(&self) -> Seq<FlightModel> {
        self.inner@.map_values(|f: Flight| f@)
    }
}

impl Flights {
    pub open spec fn wf(&self) -> bool {
        ids_distinct(self@)
    }

    pub fn new() -> (r: Flights)
        ensures
            r@ == Seq::<FlightModel>::empty(),
            r.wf(),
    {
        Flights { inner: Vec::new() }
    }

    pub fn len(&self) -> (n: usize)
        ensures
            n == self@.len(),
    {
        self.inner.len()
    }

    pub fn get(&self, i: usize) -> (f: &Flight)
        requires
            i < self@.len(),
        ensures
            f@ == self@[i as int],
    {
        &self.inner[i]
    }

    /// Whether some Flight has the id `id`.
    pub fn contains_id(&self, id: &String) -> (b: bool)
        ensures
            b == holds_id(self@, id@),
    {
        let mut i: usize = 0;
        while i < self.inner.len()
            invariant
                i <= self.inner.len(),
                forall|j: int| 0 <= j < i ==> self@[j].id != id@,
            decreases self.inner.len() - i,
        {
            if self.inner[i].id == *id {
                assert(self@[i as int].id == id@);
                return true;
            }
            i = i + 1;
        }
        false
    }

    /// Adds a Flight at the end, unless its id is taken; then the store is unchanged.
    pub fn add(&mut self, flight: Flight) -> (r: Result<(), DuplicateId>)
        requires
            old(self).wf(),
        ensures
            final(self).wf(),
            holds_id(old(self)@, flight@.id) ==> r is Err && final(self)@ == old(self)@,
            !holds_id(old(self)@, flight@.id) ==> r is Ok && final(self)@ == old(self)@.push(
                flight@,
            ),
    {
        if self.contains_id(&flight.id) {
            return Err(DuplicateId);
        }
        let ghost f = flight@;
        self.inner.push(flight);
        assert(self@ =~= old(self)@.push(f));
        assert forall|i: int, j: int|
            0 <= i < self@.len() && 0 <= j < self@.len() && i != j implies self@[i].id
            != self@[j].id by {
            if i == old(self)@.len() {
                assert(old(self)@[j].id != f.id);
            } else if j == old(self)@.len() {
                assert(old(self)@[i].id != f.id);
            }
        }
        Ok(())
    }

    /// A store holding the given Flights in order; fails where an id repeats.
    pub fn from_flights(flights: Vec<Flight>) -> (r: Result<Flights, DuplicateId>)
        ensures
            match r {
                Ok(s) => s.wf() && s@ == flights@.map_values(|f: Flight| f@),
                Err(_) => !ids_distinct(flights@.map_values(|f: Flight| f@)),
            },
    {
        let ghost all = flights@.map_values(|f: Flight| f@);
        let mut rest = flights;
        let total = rest.len();
        let mut store = Flights::new();
        let mut i: usize = 0;
        while rest.len() > 0
            invariant
                store.wf(),
                rest@.len() + i == total,
                total == all.len(),
                all == flights@.map_values(|f: Flight| f@),
                store@ == all.take(i as int),
                forall|j: int| 0 <= j < rest@.len() ==> #[trigger] rest@[j]@ == all[i + j],
            decreases rest.len(),
        {
            let f = rest.remove(0);
            assert(f@ == all[i as int]);
            match store.add(f) {
                Ok(()) => {},
                Err(e) => {
                    proof {
                        let k = choose|k: int| 0 <= k < store@.len() && store@[k].id == all[i as int].id;
                        assert(all[k].id == all[i as int].id);
                    }
                    return Err(e);
                },
            }
            assert(all.take(i + 1) =~= all.take(i as int).push(all[i as int]));
            i = i + 1;
        }
        assert(i == total);
        assert(all.take(i as int) =~= all);
        Ok(store)
    }

    /// The positions of the Flights that match `q` in the way `t`, in order.
    fn find(&self, q: &Vec<char>, q_folded: &Vec<char>, t: MatchTier) -> (r: Vec<usize>)
        requires
            q_folded@ == fold_seq(q@),
        ensures
            r@.map_values(|i: usize| i as int) == candidates(self@, q@, t),
    {
        let mut r: Vec<usize> = Vec::new();
        let mut i: usize = 0;
        while i < self.inner.len()
            invariant
                i <= self.inner.len(),
                q_folded@ == fold_seq(q@),
                r@.map_values(|i: usize| i as int) == candidates(self@.take(i as int), q@, t),
            decreases self.inner.len() - i,
        {
            let f = &self.inner[i];
            let hit = match t {
                MatchTier::Id => chars_eq(&chars_of(f.id.as_str()), q),
                MatchTier::Name => chars_eq(&chars_of(f.name.as_str()), q),
                MatchTier::Prefix => starts_with(&folded_chars(f.name.as_str()), q_folded),
                MatchTier::Substring => contains(&folded_chars(f.name.as_str()), q_folded),
            };
            let ghost before = r@;
            if hit {
                r.push(i);
            }
            proof {
                let s = self@.take(i + 1);
                assert(s.drop_last() =~= self@.take(i as int));
                assert(s.last() == self@[i as int]);
                assert(r@.map_values(|i: usize| i as int) =~= candidates(s, q@, t));
            }
            i = i + 1;
        }
        assert(self@.take(i as int) =~= self@);
        r
    }

    /// The ids of the Flights at the given positions, in the same order.
    fn ids_at(&self, positions: &Vec<usize>) -> (r: Vec<String>)
        requires
            forall|k: int| 0 <= k < positions@.len() ==> positions@[k] < self@.len(),
        ensures
            r@.len() == positions@.len(),
            forall|k: int| 0 <= k < positions@.len() ==> (#[trigger] r@[k])@ == self@[positions@[k] as int].id,
    {
        let mut r: Vec<String> = Vec::new();
        let mut k: usize = 0;
        while k < positions.len()
            invariant
                k <= positions.len(),
                forall|j: int| 0 <= j < positions@.len() ==> positions@[j] < self@.len(),
                r@.len() == k,
                forall|j: int| 0 <= j < k ==> (#[trigger] r@[j])@ == self@[positions@[j] as int].id,
            decreases positions.len() - k,
        {
            r.push(copy_string(&self.inner[positions[k]].id));
            k = k + 1;
        }
        r
    }

    /// Finds the one Flight that `name_id` designates: first as an exact id,
    /// then as an exact name, and when `exact` is false then as a prefix of a
    /// name and then as a part of one, both ignoring ASCII case. The first of
    /// these that matches anything decides: one match is the answer, several are
    /// ambiguous, and none at all is not found.
    pub fn resolve(&self, name_id: &str, exact: bool) -> (r: Result<usize, ResolutionError>)
        ensures
            match resolve_spec(self@, name_id@, exact) {
                Resolution::Found(i) => r == Ok::<usize, ResolutionError>(i as usize),
                res => match r {
                    Ok(_) => false,
                    Err(e) => reports(e, self@, res),
                },
            },
    {
        let q = chars_of(name_id);
        let qf = folded_chars(name_id);
        let mut found = self.find(&q, &qf, MatchTier::Id);
        if found.len() == 0 {
            found = self.find(&q, &qf, MatchTier::Name);
        }
        if found.len() == 0 && !exact {
            found = self.find(&q, &qf, MatchTier::Prefix);
        }
        if found.len() == 0 && !exact {
            found = self.find(&q, &qf, MatchTier::Substring);
        }
        let ghost c = found@.map_values(|i: usize| i as int);
        proof {
            lemma_candidates_sound(self@, name_id@, MatchTier::Id);
            lemma_candidates_sound(self@, name_id@, MatchTier::Name);
            lemma_candidates_sound(self@, name_id@, MatchTier::Prefix);
            lemma_candidates_sound(self@, name_id@, MatchTier::Substring);
            assert(c.len() == found@.len());
            assert forall|k: int| 0 <= k < found@.len() implies found@[k] < self@.len() by {
                assert(c[k] == found@[k] as int);
            }
        }
        if found.len() == 0 {
            Err(ResolutionError::NotFound)
        } else if found.len() == 1 {
            assert(c[0] == found@[0] as int);
            Ok(found[0])
        } else {
            let ids = self.ids_at(&found);
            proof {
                assert forall|k: int| 0 <= k < c.len() implies (#[trigger] ids@[k])@ == self@[c[k]].id by {
                    assert(c[k] == found@[k] as int);
                }
            }
            Err(ResolutionError::Ambiguous(ids))
        }
    }

    /// Resolves `name_id` as `resolve` does and applies the overlay to that one
    /// Flight. When resolution fails the store is left exactly as it was.
    pub fn update_flight(&mut self, name_id: &str, exact: bool, overlay: &FlightOverlay) -> (r:
        Result<(), ResolutionError>)
        requires
            old(self).wf(),
        ensures
            final(self).wf(),
            match resolve_spec(old(self)@, name_id@, exact) {
                Resolution::Found(i) => r is Ok && final(self)@ == old(self)@.update(
                    i,
                    overlay_spec(old(self)@[i], overlay@),
                ),
                res => final(self)@ == old(self)@ && match r {
                    Ok(_) => false,
                    Err(e) => reports(e, old(self)@, res),
                },
            },
    {
        let n = self.len();
        match self.resolve(name_id, exact) {
            Ok(i) => {
                proof {
                    lemma_candidates_sound(self@, name_id@, chosen_tier(self@, name_id@, exact).unwrap());
                }
                let mut f = self.inner[i].duplicate();
                assert(f@ == old(self)@[i as int]);
                f.apply_overlay(overlay);
                let ghost nf = f@;
                assert(nf == overlay_spec(old(self)@[i as int], overlay@));
                proof {
                    let c = candidates(old(self)@, name_id@, chosen_tier(old(self)@, name_id@, exact).unwrap());
                    assert(0 <= c[0] < old(self)@.len());
                }
                self.inner.set(i, f);
                assert(self@ =~= old(self)@.update(i as int, nf));
                assert forall|a: int, b: int|
                    0 <= a < self@.len() && 0 <= b < self@.len() && a != b implies self@[a].id
                    != self@[b].id by {
                    assert(old(self)@[a].id == self@[a].id);
                    assert(old(self)@[b].id == self@[b].id);
                }
                Ok(())
            },
            Err(e) => Err(e),
        }
    }

    /// Removes the Flight with the given id, if any, and returns it.
    pub fn remove_by_id(&mut self, id: &String) -> (r: Option<Flight>)
        requires
            old(self).wf(),
        ensures
            final(self).wf(),
            match r {
                Some(f) => f@.id == id@ && exists|i: int|
                    0 <= i < old(self)@.len() && old(self)@[i] == f@ && final(self)@
                        == old(self)@.remove(i),
                None => !holds_id(old(self)@, id@) && final(self)@ == old(self)@,
            },
    {
        let mut i: usize = 0;
        while i < self.inner.len()
            invariant
                i <= self.inner.len(),
                self@ == old(self)@,
                ids_distinct(old(self)@),
                forall|j: int| 0 <= j < i ==> self@[j].id != id@,
            decreases self.inner.len() - i,
        {
            if self.inner[i].id == *id {
                let f = self.inner.remove(i);
                assert(self@ =~= old(self)@.remove(i as int));
                assert forall|a: int, b: int|
                    0 <= a < self@.len() && 0 <= b < self@.len() && a != b implies self@[a].id
                    != self@[b].id by {
                    let a2 = if a < i { a } else { a + 1 };
                    let b2 = if b < i { b } else { b + 1 };
                    assert(old(self)@.remove(i as int)[a] == old(self)@[a2]);
                    assert(old(self)@.remove(i as int)[b] == old(self)@[b2]);
                    assert(a2 != b2);
                    assert(0 <= a2 < old(self)@.len() && 0 <= b2 < old(self)@.len());
                    assert(old(self)@[a2].id != old(self)@[b2].id);
                }
                return Some(f);
            }
            i = i + 1;
        }
        None
    }
}

} // verus!
