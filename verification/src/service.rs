//! The four operations of the registry as a client sees them: each takes
//! the store and plain values, and gives a status and a body.

use vstd::prelude::*;
use crate::birth::date_in;
use crate::person::{first_rejection, stack_texts, Person};
use crate::search::person_matches;
use crate::store::{first_matches, has_id, lookup, views, Store, SEARCH_CAP};
use crate::validation::ValidationError;

verus! {

/// The status of a request that was served.
pub const STATUS_OK: u16 = 200;

/// The status of a creation that took place.
pub const STATUS_CREATED: u16 = 201;

/// The status of a search without a term.
pub const STATUS_BAD_REQUEST: u16 = 400;

/// The status of a lookup that found nobody.
pub const STATUS_NOT_FOUND: u16 = 404;

/// The status of a creation whose fields were turned down.
pub const STATUS_UNPROCESSABLE: u16 = 422;

/// What a reply carries.
pub enum Body {
    /// One person.
    Person(Person),
    /// The people that a search found, oldest first.
    People(Vec<Person>),
    /// The number of people stored.
    Count(usize),
    /// A message that says what went wrong.
    Message(&'static str),
}

/// A reply: the status and what it carries.
pub struct Reply {
    pub status: u16,
    pub body: Body,
}

/// The text said of a lookup that found nobody.
pub open spec fn not_found_text() -> Seq<char> {
    "Pessoa nao encontrada."@
}

/// Whether `reply` is the status `status` with the message `text`.
pub open spec fn says(reply: Reply, status: u16, text: Seq<char>) -> bool {
    reply.status == status && match reply.body {
        Body::Message(message) => message@ == text,
        _ => false,
    }
}

/// Looks a person up by identifier: `STATUS_OK` with the person, or
/// `STATUS_NOT_FOUND` where the identifier names nobody.
pub fn find_person(people: &Store, person_id: u128) -> (reply: Reply)
    requires
        people.wf(),
    ensures
        match lookup(people@, person_id) {
            Some(person) => reply.status == STATUS_OK && match reply.body {
                Body::Person(found) => found@ == person,
                _ => false,
            },
            None => says(reply, STATUS_NOT_FOUND, not_found_text()),
        },
{
    match people.get_by_id(person_id) {
        Some(person) => Reply { status: STATUS_OK, body: Body::Person(person) },
        None => Reply { status: STATUS_NOT_FOUND, body: Body::Message("Pessoa nao encontrada.") },
    }
}

/// Counts the people stored: always `STATUS_OK`, with the count.
pub fn count_people(people: &Store) -> (reply: Reply)
    ensures
        reply.status == STATUS_OK,
        match reply.body {
            Body::Count(count) => count == people@.len(),
            _ => false,
        },
{
    Reply { status: STATUS_OK, body: Body::Count(people.count()) }
}

/// Searches for `term`: `STATUS_OK` with the first `SEARCH_CAP` people that
/// match, oldest first, or `STATUS_BAD_REQUEST` where the term is missing
/// or empty.
pub fn search_people(people: &Store, term: Option<&str>) -> (reply: Reply)
    ensures
        match term {
            Some(text) if text@.len() > 0 => reply.status == STATUS_OK && match reply.body {
                Body::People(found) => {
                    &&& views(found@) == first_matches(people@, text@, SEARCH_CAP as nat)
                    &&& found@.len() <= SEARCH_CAP
                    &&& forall|k: int|
                        0 <= k < found@.len() ==> person_matches((#[trigger] found@[k])@, text@)
                },
                _ => false,
            },
            _ => says(reply, STATUS_BAD_REQUEST, ValidationError::MissingSearchTerm.text()),
        },
{
    match people.search(term) {
        Ok(found) => Reply { status: STATUS_OK, body: Body::People(found) },
        Err(e) => Reply { status: STATUS_BAD_REQUEST, body: Body::Message(e.message()) },
    }
}

/// Creates a person from the four fields of a request. Fields that are
/// turned down give `STATUS_UNPROCESSABLE` with the message of the first
/// one at fault, and the store stays as it was. Every other request is
/// served: the person is stored last, under an identifier that named
/// nobody, and handed back with `STATUS_CREATED`.
pub fn create_person(
    people: &mut Store,
    name: String,
    nick: String,
    birth: &str,
    stack: Option<Vec<String>>,
) -> (reply: Reply)
    requires
        old(people).wf(),
    ensures
        final(people).wf(),
        match first_rejection(name@, nick@, birth@, stack_texts(stack)) {
            Some(e) => says(reply, STATUS_UNPROCESSABLE, e.text()) && final(people)@ == old(
                people,
            )@,
            None => reply.status == STATUS_CREATED && match reply.body {
                Body::Person(person) => {
                    &&& !has_id(old(people)@, person@.id)
                    &&& person@.name == name@
                    &&& person@.nick == nick@
                    &&& person@.birth_date == date_in(birth@)
                    &&& person@.stack == stack_texts(stack)
                    &&& final(people)@ == old(people)@.push(person@)
                },
                _ => false,
            },
        },
{
    match people.create(name, nick, birth, stack) {
        Ok(person) => Reply { status: STATUS_CREATED, body: Body::Person(person) },
        Err(e) => Reply { status: STATUS_UNPROCESSABLE, body: Body::Message(e.message()) },
    }
}

} // verus!
