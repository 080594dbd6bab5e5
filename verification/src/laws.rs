//! What holds of the registry over several operations, stated over the
//! same models as the contracts of the operations themselves.

use vstd::prelude::*;
use crate::person::{all_within, first_rejection, PersonView};
use crate::search::person_matches;
use crate::store::{distinct_ids, first_matches, has_id, lookup};
use crate::validation::{NAME_MAX, NICK_MAX, TECH_MAX};

verus! {

/// Storing a person under an identifier that names nobody yet keeps the
/// identifiers distinct.
pub proof fn lemma_push_keeps_distinct(before: Seq<PersonView>, person: PersonView)
    requires
        distinct_ids(before),
        !has_id(before, person.id),
    ensures
        distinct_ids(before.push(person)),
{
    let after = before.push(person);
    assert forall|i: int, j: int| 0 <= i < j < after.len() implies (#[trigger] after[i]).id != (
    #[trigger] after[j]).id by {
        assert(after[i] == before[i]);
        if j < before.len() {
            assert(after[j] == before[j]);
        }
    }
}

/// A person who was just created is found under the identifier that the
/// creation returned, equal in every field; and everyone stored before is
/// still found as before.
pub proof fn lemma_created_is_found(before: Seq<PersonView>, person: PersonView)
    requires
        distinct_ids(before),
        !has_id(before, person.id),
    ensures
        lookup(before.push(person), person.id) == Some(person),
        forall|id: u128| id != person.id ==> lookup(before.push(person), id) == lookup(before, id),
{
    let after = before.push(person);
    lemma_push_keeps_distinct(before, person);
    assert(after[before.len() as int] == person);
    assert(has_id(after, person.id));
    assert forall|id: u128| id != person.id implies lookup(after, id) == lookup(before, id) by {
        if has_id(before, id) {
            let i = crate::store::position_of(before, id);
            assert(after[i] == before[i]);
            assert(has_id(after, id));
            let j = crate::store::position_of(after, id);
            assert(j < before.len());
            assert(after[j] == before[j]);
        }
        if has_id(after, id) {
            let j = crate::store::position_of(after, id);
            assert(j < before.len());
            assert(after[j] == before[j]);
            assert(has_id(before, id));
        }
    }
}

/// Whether `after` is `before` with one person created: stored last, under
/// an identifier that named nobody.
pub open spec fn is_create_step(before: Seq<PersonView>, after: Seq<PersonView>) -> bool {
    exists|person: PersonView|
        !has_id(before, person.id) && after == #[trigger] before.push(person)
}

/// Whether each of `states` but the first is the one before it with one
/// person created.
pub open spec fn is_run_of_creates(states: Seq<Seq<PersonView>>) -> bool {
    forall|k: int|
        0 <= k < states.len() - 1 ==> is_create_step(#[trigger] states[k], states[k + 1])
}

/// After any number of successful creations, in whatever order their
/// callers came to hold the store, the count has grown by that number, and
/// the identifiers are still distinct.
pub proof fn lemma_count_after_creates(states: Seq<Seq<PersonView>>)
    requires
        states.len() >= 1,
        is_run_of_creates(states),
        distinct_ids(states[0]),
    ensures
        states.last().len() == states[0].len() + states.len() - 1,
        distinct_ids(states.last()),
    decreases states.len(),
{
    if states.len() > 1 {
        let earlier = states.drop_last();
        assert forall|k: int| 0 <= k < earlier.len() - 1 implies is_create_step(
            #[trigger] earlier[k],
            earlier[k + 1],
        ) by {
            assert(is_create_step(states[k], states[k + 1]));
        }
        lemma_count_after_creates(earlier);
        let n = states.len() as int;
        assert(is_create_step(states[n - 2], states[n - 1]));
        let person = choose|person: PersonView|
            !has_id(states[n - 2], person.id) && states[n - 1] == #[trigger] states[n - 2].push(
                person,
            );
        lemma_push_keeps_distinct(states[n - 2], person);
    }
}

/// Whether each of `created`, in turn, came under an identifier that named
/// nobody in `before` nor any of those created ahead of it.
pub open spec fn are_created_in_turn(before: Seq<PersonView>, created: Seq<PersonView>) -> bool {
    forall|k: int|
        0 <= k < created.len() ==> !has_id(before + created.take(k), (#[trigger] created[k]).id)
}

/// However many people are created in turn on a store, their identifiers
/// differ from one another and from all that the store held; the store is
/// the old one with exactly these people behind it, the count has grown by
/// their number, and each of them is found under its own identifier.
pub proof fn lemma_creates_in_turn(before: Seq<PersonView>, created: Seq<PersonView>)
    requires
        distinct_ids(before),
        are_created_in_turn(before, created),
    ensures
        forall|i: int, j: int|
            0 <= i < j < created.len() ==> (#[trigger] created[i]).id != (#[trigger] created[j]).id,
        forall|i: int| 0 <= i < created.len() ==> !has_id(before, (#[trigger] created[i]).id),
        distinct_ids(before + created),
        (before + created).len() == before.len() + created.len(),
        forall|i: int|
            0 <= i < created.len() ==> lookup(before + created, (#[trigger] created[i]).id)
                == Some(created[i]),
{
    let after = before + created;
    assert forall|i: int, j: int| 0 <= i < j < created.len() implies (#[trigger] created[i]).id != (
    #[trigger] created[j]).id by {
        let earlier = before + created.take(j);
        assert(!has_id(earlier, created[j].id));
        assert(earlier[before.len() + i] == created[i]);
    }
    assert forall|i: int| 0 <= i < created.len() implies !has_id(
        before,
        (#[trigger] created[i]).id,
    ) by {
        let earlier = before + created.take(i);
        assert(!has_id(earlier, created[i].id));
        if has_id(before, created[i].id) {
            let at = crate::store::position_of(before, created[i].id);
            assert(earlier[at] == before[at]);
        }
    }
    assert forall|i: int, j: int| 0 <= i < j < after.len() implies (#[trigger] after[i]).id != (
    #[trigger] after[j]).id by {
        if j < before.len() {
            assert(after[i] == before[i] && after[j] == before[j]);
        } else if i < before.len() {
            assert(after[i] == before[i]);
            assert(after[j] == created[j - before.len()]);
        } else {
            assert(after[i] == created[i - before.len()]);
            assert(after[j] == created[j - before.len()]);
        }
    }
    assert forall|i: int| 0 <= i < created.len() implies lookup(
        after,
        (#[trigger] created[i]).id,
    ) == Some(created[i]) by {
        assert(after[before.len() + i] == created[i]);
        assert(has_id(after, created[i].id));
    }
}

/// A request with a name, a nickname or a technology over its bound is
/// turned down.
pub proof fn lemma_too_long_is_rejected(
    name: Seq<char>,
    nick: Seq<char>,
    birth: Seq<char>,
    stack: Option<Seq<Seq<char>>>,
)
    requires
        name.len() > NAME_MAX || nick.len() > NICK_MAX || (stack is Some && !all_within(
            stack->Some_0,
            TECH_MAX as nat,
        )),
    ensures
        first_rejection(name, nick, birth, stack) is Some,
{
}

/// A search hands out at most `cap` people; each of them matches the term
/// and is one of the people searched.
pub proof fn lemma_first_matches_sound(people: Seq<PersonView>, term: Seq<char>, cap: nat)
    ensures
        first_matches(people, term, cap).len() <= cap,
        first_matches(people, term, cap).len() <= people.len(),
        forall|k: int|
            0 <= k < first_matches(people, term, cap).len() ==> {
                &&& person_matches(#[trigger] first_matches(people, term, cap)[k], term)
                &&& people.contains(first_matches(people, term, cap)[k])
            },
    decreases people.len(),
{
    if people.len() > 0 {
        let found = first_matches(people, term, cap);
        let earlier = first_matches(people.drop_last(), term, cap);
        lemma_first_matches_sound(people.drop_last(), term, cap);
        assert forall|k: int| 0 <= k < found.len() implies {
            &&& person_matches(#[trigger] found[k], term)
            &&& people.contains(found[k])
        } by {
            if k < earlier.len() {
                assert(found[k] == earlier[k]);
                let at = choose|at: int|
                    0 <= at < people.drop_last().len() && people.drop_last()[at] == earlier[k];
                assert(people[at] == earlier[k]);
            } else {
                assert(found[k] == people.last());
                assert(people[people.len() - 1] == people.last());
            }
        }
    }
}

} // verus!
