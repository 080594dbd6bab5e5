//! The store of people: the one owner of the mapping from identifier to
//! person. Exclusive access (`&mut`) stands for the writer's side of a
//! reader/writer lock, shared access (`&`) for the reader's.

use std::collections::HashMap;
use vstd::prelude::*;
use vstd::std_specs::hash::*;
use crate::ident::fresh_identifier;
use crate::person::{admissible, first_rejection, stack_texts, NewPerson, Person, PersonView};
use crate::search::{lowercase, lowered_chars_of, matches_person, person_matches};
use crate::validation::ValidationError;

verus! {

/// The most people that one search hands out.
pub const SEARCH_CAP: usize = 50;

/// Whether one of `people` has the identifier `id`.
pub open spec fn has_id(people: Seq<PersonView>, id: u128) -> bool {
    exists|i: int| 0 <= i < people.len() && (#[trigger] people[i]).id == id
}

/// A position in `people` of a person with the identifier `id`, where there
/// is one.
pub open spec fn position_of(people: Seq<PersonView>, id: u128) -> int {
    choose|i: int| 0 <= i < people.len() && (#[trigger] people[i]).id == id
}

/// The person among `people` with the identifier `id`, if there is one.
pub open spec fn lookup(people: Seq<PersonView>, id: u128) -> Option<PersonView> {
    if has_id(people, id) {
        Some(people[position_of(people, id)])
    } else {
        None
    }
}

/// Whether no two of `people` share an identifier.
pub open spec fn distinct_ids(people: Seq<PersonView>) -> bool {
    forall|i: int, j: int|
        0 <= i < j < people.len() ==> (#[trigger] people[i]).id != (#[trigger] people[j]).id
}

/// The first `cap` of `people`, in their order, that match `term`; all of
/// them where fewer match.
pub open spec fn first_matches(people: Seq<PersonView>, term: Seq<char>, cap: nat) -> Seq<
    PersonView,
>
    decreases people.len(),
{
    if people.len() == 0 {
        Seq::empty()
    } else {
        let before = first_matches(people.drop_last(), term, cap);
        if before.len() < cap && person_matches(people.last(), term) {
            before.push(people.last())
        } else {
            before
        }
    }
}

/// What a list of people is, as plain values.
pub open spec fn views(people: Seq<Person>) -> Seq<PersonView> {
    people.map_values(|p: Person| p@)
}

/// Once `cap` matches are found among the first `i` of `people`, looking
/// further adds none.
proof fn lemma_full_stays_full(people: Seq<PersonView>, term: Seq<char>, cap: nat, i: int, j: int)
    requires
        0 <= i <= j <= people.len(),
        first_matches(people.take(i), term, cap).len() >= cap,
    ensures
        first_matches(people.take(j), term, cap) == first_matches(people.take(i), term, cap),
    decreases j - i,
{
    if i < j {
        lemma_full_stays_full(people, term, cap, i, j - 1);
        assert(people.take(j).drop_last() =~= people.take(j - 1));
    }
}

/// Where the search for an unused identifier begins when `start` is in
/// use in a store of `len` people: at `start`, or at 0 where fewer than
/// `len` identifiers follow `start`.
pub open spec fn search_base(start: u128, len: nat) -> u128 {
    if start + len <= u128::MAX {
        start
    } else {
        0
    }
}

/// A function that takes the `n + 1` numbers from 0 to `n` to `n` places
/// takes two of them to the same place.
proof fn lemma_more_numbers_than_places(place: spec_fn(int) -> int, n: nat)
    requires
        forall|c: int| 0 <= c <= n ==> 0 <= #[trigger] place(c) < n,
    ensures
        exists|c: int, d: int| 0 <= c < d <= n && #[trigger] place(c) == #[trigger] place(d),
    decreases n,
{
    if n == 0 {
        let only = place(0);
        assert(0 <= only && only < n);
    } else {
        let last = place(n as int);
        if exists|c: int| 0 <= c < n && #[trigger] place(c) == last {
            let c = choose|c: int| 0 <= c < n && #[trigger] place(c) == last;
            assert(place(c) == place(n as int));
        } else {
            let moved = |c: int|
                if place(c) == n - 1 {
                    last
                } else {
                    place(c)
                };
            assert forall|c: int| 0 <= c <= n - 1 implies 0 <= #[trigger] moved(c) < n - 1 by {
                assert(0 <= place(c) < n);
                assert(0 <= place(n as int) < n);
            }
            lemma_more_numbers_than_places(moved, (n - 1) as nat);
            let (c, d) = choose|c: int, d: int|
                0 <= c < d <= n - 1 && #[trigger] moved(c) == #[trigger] moved(d);
            assert(place(c) == place(d));
        }
    }
}

/// The people of the registry in the order of their creation, with an index
/// from identifier to position.
pub struct Store {
    people: Vec<Person>,
    positions: HashMap<u128, usize>,
}

impl View for Store {
    type V = Seq<PersonView>;

    /// The people stored, oldest first.
    closed spec fn view(&self) -> Seq<PersonView> {
        views(self.people@)
    }
}

impl Store {
    /// The store's invariant: the index names exactly the people stored,
    /// each at its position, and every stored person's text fields are
    /// within their bounds.
    pub closed spec fn wf(&self) -> bool {
        &&& forall|k: u128| #[trigger]
            self.positions@.contains_key(k) ==> self.positions@[k] < self.people@.len()
                && self.people@[self.positions@[k] as int].id == k
        &&& forall|i: int|
            0 <= i < self.people@.len() ==> self.positions@.contains_key(
                (#[trigger] self.people@[i]).id,
            ) && self.positions@[self.people@[i].id] == i
        &&& forall|i: int|
            0 <= i < self.people@.len() ==> admissible((#[trigger] self.people@[i])@)
    }

    /// In a store that keeps its invariant no identifier names two people,
    /// and every person's text fields are within their bounds.
    pub proof fn lemma_wf_model(&self)
        requires
            self.wf(),
        ensures
            distinct_ids(self@),
            forall|i: int| 0 <= i < self@.len() ==> admissible(#[trigger] self@[i]),
    {
        assert forall|i: int, j: int| 0 <= i < j < self@.len() implies (#[trigger] self@[i]).id != (
        #[trigger] self@[j]).id by {
            assert(self.people@[i].id == self@[i].id);
            assert(self.people@[j].id == self@[j].id);
        }
        assert forall|i: int| 0 <= i < self@.len() implies admissible(#[trigger] self@[i]) by {
            assert(self.people@[i]@ == self@[i]);
        }
    }

    /// The index knows exactly the identifiers of the people stored.
    proof fn lemma_index_is_exact(&self, id: u128)
        requires
            self.wf(),
        ensures
            self.positions@.contains_key(id) == has_id(self@, id),
            self.positions@.contains_key(id) ==> lookup(self@, id) == Some(
                self.people@[self.positions@[id] as int]@,
            ),
    {
        if self.positions@.contains_key(id) {
            let at = self.positions@[id] as int;
            assert(self@[at].id == id);
            let chosen = position_of(self@, id);
            assert(self.people@[chosen].id == self@[chosen].id);
        }
        if has_id(self@, id) {
            let i = position_of(self@, id);
            assert(self.people@[i].id == self@[i].id);
        }
    }

    /// An empty store.
    pub fn new() -> (store: Store)
        ensures
            store.wf(),
            store@ == Seq::<PersonView>::empty(),
    {
        let store = Store { people: Vec::new(), positions: HashMap::new() };
        assert(store@ =~= Seq::<PersonView>::empty());
        store
    }

    /// The number of people stored.
    pub fn count(&self) -> (n: usize)
        ensures
            n == self@.len(),
    {
        self.people.len()
    }

    /// Whether a person with the identifier `id` is stored.
    pub fn contains_id(&self, id: u128) -> (found: bool)
        requires
            self.wf(),
        ensures
            found == has_id(self@, id),
    {
        broadcast use group_hash_axioms;

        proof {
            self.lemma_index_is_exact(id);
        }
        self.positions.contains_key(&id)
    }

    /// A copy of the person with the identifier `id`, or `None` where no
    /// such person is stored. The store is not changed.
    pub fn get_by_id(&self, id: u128) -> (found: Option<Person>)
        requires
            self.wf(),
        ensures
            match found {
                Some(person) => lookup(self@, id) == Some(person@) && person@.id == id,
                None => lookup(self@, id) is None && !has_id(self@, id),
            },
    {
        broadcast use group_hash_axioms;

        proof {
            self.lemma_index_is_exact(id);
        }
        match self.positions.get(&id) {
            Some(at) => Some(self.people[*at].clone()),
            None => None,
        }
    }

    /// An identifier that names nobody stored: `start` itself where it
    /// names nobody, else the smallest such identifier from
    /// `search_base(start, ..)` on.
    pub fn unused_from(&self, start: u128) -> (id: u128)
        requires
            self.wf(),
        ensures
            !has_id(self@, id),
            !has_id(self@, start) ==> id == start,
            has_id(self@, start) ==> {
                &&& search_base(start, self@.len()) <= id <= search_base(start, self@.len())
                    + self@.len()
                &&& forall|c: u128|
                    search_base(start, self@.len()) <= c < id ==> #[trigger] has_id(self@, c)
            },
    {
        if !self.contains_id(start) {
            return start;
        }
        let n: usize = self.people.len();
        let base: u128 = if start <= u128::MAX - (n as u128) {
            start
        } else {
            0
        };
        let mut k: u128 = 0;
        loop
            invariant
                self.wf(),
                n == self.people@.len(),
                n == self@.len(),
                base == search_base(start, n as nat),
                base + n <= u128::MAX,
                has_id(self@, start),
                k <= n,
                forall|c: u128| base <= c < base + k ==> #[trigger] has_id(self@, c),
            decreases n - k,
        {
            let id: u128 = base + k;
            if !self.contains_id(id) {
                return id;
            }
            proof {
                if k == n {
                    let place = |c: int| self.positions@[(base + c) as u128] as int;
                    assert forall|c: int| 0 <= c <= n implies 0 <= #[trigger] place(c) < n by {
                        assert(has_id(self@, (base + c) as u128));
                        self.lemma_index_is_exact((base + c) as u128);
                    }
                    lemma_more_numbers_than_places(place, n as nat);
                    let (c, d) = choose|c: int, d: int|
                        0 <= c < d <= n && #[trigger] place(c) == #[trigger] place(d);
                    assert(has_id(self@, (base + c) as u128));
                    assert(has_id(self@, (base + d) as u128));
                    self.lemma_index_is_exact((base + c) as u128);
                    self.lemma_index_is_exact((base + d) as u128);
                    assert(self.people@[place(c)].id == (base + c) as u128);
                    assert(self.people@[place(d)].id == (base + d) as u128);
                    assert(false);
                }
            }
            k = k + 1;
        }
    }

    /// Stores `person` as the newest entry. Its identifier must not name a
    /// stored person yet, and its text fields must be within their bounds.
    pub fn insert(&mut self, person: Person)
        requires
            old(self).wf(),
            !has_id(old(self)@, person.id),
            admissible(person@),
        ensures
            final(self).wf(),
            final(self)@ == old(self)@.push(person@),
    {
        broadcast use group_hash_axioms;

        proof {
            self.lemma_index_is_exact(person.id);
        }
        let ghost before = *self;
        let at: usize = self.people.len();
        self.positions.insert(person.id, at);
        self.people.push(person);
        assert(self@ =~= before@.push(person@));
    }

    /// Stores the person that `request` becomes under `minted`, or, where
    /// `minted` already names a stored person, under the identifier that
    /// `unused_from` finds for it. This always succeeds.
    pub fn create_near(&mut self, request: NewPerson, minted: u128) -> (person: Person)
        requires
            old(self).wf(),
        ensures
            final(self).wf(),
            person@ == request.as_person(person@.id),
            !has_id(old(self)@, person@.id),
            !has_id(old(self)@, minted) ==> person@.id == minted,
            has_id(old(self)@, minted) ==> {
                &&& search_base(minted, old(self)@.len()) <= person@.id <= search_base(
                    minted,
                    old(self)@.len(),
                ) + old(self)@.len()
                &&& forall|c: u128|
                    search_base(minted, old(self)@.len()) <= c < person@.id ==> #[trigger] has_id(
                        old(self)@,
                        c,
                    )
            },
            final(self)@ == old(self)@.push(person@),
    {
        let id = self.unused_from(minted);
        let person = request.into_person(id);
        let copy = person.clone();
        self.insert(person);
        copy
    }

    /// Validates the four fields of a request and, where all are in order,
    /// stores the person under a newly minted identifier, which names
    /// nobody else. A request in order is always served; one that is turned
    /// down changes nothing and mints no identifier.
    pub fn create(
        &mut self,
        name: String,
        nick: String,
        birth: &str,
        stack: Option<Vec<String>>,
    ) -> (r: Result<Person, ValidationError>)
        requires
            old(self).wf(),
        ensures
            final(self).wf(),
            match r {
                Ok(person) => {
                    &&& first_rejection(name@, nick@, birth@, stack_texts(stack)) is None
                    &&& !has_id(old(self)@, person@.id)
                    &&& person@.name == name@
                    &&& person@.nick == nick@
                    &&& person@.birth_date == crate::birth::date_in(birth@)
                    &&& person@.stack == stack_texts(stack)
                    &&& final(self)@ == old(self)@.push(person@)
                },
                Err(e) => {
                    &&& first_rejection(name@, nick@, birth@, stack_texts(stack)) == Some(e)
                    &&& final(self)@ == old(self)@
                },
            },
    {
        match NewPerson::validate(name, nick, birth, stack) {
            Ok(request) => {
                let minted = fresh_identifier();
                Ok(self.create_near(request, minted))
            },
            Err(e) => Err(e),
        }
    }

    /// Copies of the first `SEARCH_CAP` people, oldest first, whose name,
    /// nickname or one of whose technologies contains `term`, case aside.
    /// An empty term is turned down.
    pub fn search_substring(&self, term: &str) -> (r: Result<Vec<Person>, ValidationError>)
        ensures
            match r {
                Ok(found) => {
                    &&& term@.len() > 0
                    &&& views(found@) == first_matches(self@, term@, SEARCH_CAP as nat)
                    &&& found@.len() <= SEARCH_CAP
                    &&& forall|k: int|
                        0 <= k < found@.len() ==> person_matches((#[trigger] found@[k])@, term@)
                },
                Err(e) => term@.len() == 0 && e == ValidationError::MissingSearchTerm,
            },
    {
        if term.unicode_len() == 0 {
            return Err(ValidationError::MissingSearchTerm);
        }
        let needle = lowered_chars_of(term);
        let n: usize = self.people.len();
        let mut found: Vec<Person> = Vec::new();
        let mut i: usize = 0;
        while i < n && found.len() < SEARCH_CAP
            invariant
                n == self.people@.len(),
                i <= n,
                needle@ == lowercase(term@),
                found@.len() <= SEARCH_CAP,
                views(found@) == first_matches(self@.take(i as int), term@, SEARCH_CAP as nat),
                forall|k: int|
                    0 <= k < found@.len() ==> person_matches((#[trigger] found@[k])@, term@),
            decreases n - i,
        {
            let ghost before = found@;
            assert(self@.take(i + 1).drop_last() =~= self@.take(i as int));
            assert(self@.take(i + 1).last() == self.people@[i as int]@);
            if matches_person(&self.people[i], &needle) {
                found.push(self.people[i].clone());
                assert(views(found@) =~= views(before).push(self.people@[i as int]@));
            }
            i += 1;
        }
        proof {
            if i < n {
                lemma_full_stays_full(self@, term@, SEARCH_CAP as nat, i as int, n as int);
            }
            assert(self@.take(n as int) =~= self@);
        }
        Ok(found)
    }

    /// The search for `term`, which must be there: a missing term is turned
    /// down like an empty one.
    pub fn search(&self, term: Option<&str>) -> (r: Result<Vec<Person>, ValidationError>)
        ensures
            match r {
                Ok(found) => {
                    &&& term is Some
                    &&& term->Some_0@.len() > 0
                    &&& views(found@) == first_matches(self@, term->Some_0@, SEARCH_CAP as nat)
                    &&& found@.len() <= SEARCH_CAP
                    &&& forall|k: int|
                        0 <= k < found@.len() ==> person_matches(
                            (#[trigger] found@[k])@,
                            term->Some_0@,
                        )
                },
                Err(e) => (term is None || term->Some_0@.len() == 0) && e
                    == ValidationError::MissingSearchTerm,
            },
    {
        match term {
            Some(text) => self.search_substring(text),
            None => Err(ValidationError::MissingSearchTerm),
        }
    }
}

} // verus!
