//! People as they are stored, and as they are asked to be admitted.

use vstd::prelude::*;
use crate::birth::{date_in, is_birth_date_text, BirthDate, DateView};
use crate::validation::{Nick, PersonName, Tech, ValidationError, NAME_MAX, NICK_MAX, TECH_MAX};

verus! {

/// What a stored person is, as plain values.
pub ghost struct PersonView {
    pub id: u128,
    pub name: Seq<char>,
    pub nick: Seq<char>,
    pub birth_date: DateView,
    pub stack: Option<Seq<Seq<char>>>,
}

/// A stored person.
#[derive(Debug)]
pub struct Person {
    pub id: u128,
    pub name: String,
    pub nick: String,
    pub birth_date: BirthDate,
    pub stack: Option<Vec<String>>,
}

/// The texts of a list of strings.
pub open spec fn texts(items: Seq<String>) -> Seq<Seq<char>> {
    items.map_values(|t: String| t@)
}

/// The technologies of a request as plain values.
pub open spec fn stack_texts(stack: Option<Vec<String>>) -> Option<Seq<Seq<char>>> {
    match stack {
        Some(items) => Some(texts(items@)),
        None => None,
    }
}

/// The texts of a list of technology names.
pub open spec fn tech_texts(items: Seq<Tech>) -> Seq<Seq<char>> {
    items.map_values(|t: Tech| t@)
}

/// Whether each of `items` has at most `max` characters.
pub open spec fn all_within(items: Seq<Seq<char>>, max: nat) -> bool {
    forall|j: int| 0 <= j < items.len() ==> (#[trigger] items[j]).len() <= max
}

/// Whether the text fields of `person` are within their bounds.
pub open spec fn admissible(person: PersonView) -> bool {
    &&& person.name.len() <= NAME_MAX
    &&& person.nick.len() <= NICK_MAX
    &&& match person.stack {
        Some(techs) => all_within(techs, TECH_MAX as nat),
        None => true,
    }
}

/// The first reason, in the order name, nickname, birth date, technologies,
/// for which the four fields of a request are turned down, if there is one.
pub open spec fn first_rejection(
    name: Seq<char>,
    nick: Seq<char>,
    birth: Seq<char>,
    stack: Option<Seq<Seq<char>>>,
) -> Option<ValidationError> {
    if name.len() > NAME_MAX {
        Some(ValidationError::NameTooLong)
    } else if nick.len() > NICK_MAX {
        Some(ValidationError::NickTooLong)
    } else if !is_birth_date_text(birth) {
        Some(ValidationError::InvalidBirthDate)
    } else if stack is Some && !all_within(stack->Some_0, TECH_MAX as nat) {
        Some(ValidationError::TechTooLong)
    } else {
        None
    }
}

impl View for Person {
    type V = PersonView;

    open spec fn view(&self) -> PersonView {
        PersonView {
            id: self.id,
            name: self.name@,
            nick: self.nick@,
            birth_date: self.birth_date@,
            stack: match self.stack {
                Some(techs) => Some(texts(techs@)),
                None => None,
            },
        }
    }
}

/// A copy of a list of strings.
fn copy_strings(items: &Vec<String>) -> (copy: Vec<String>)
    ensures
        copy@ == items@,
{
    let n: usize = items.len();
    let mut copy: Vec<String> = Vec::new();
    let mut i: usize = 0;
    while i < n
        invariant
            n == items@.len(),
            i <= n,
            copy@ == items@.take(i as int),
        decreases n - i,
    {
        copy.push(items[i].clone());
        assert(copy@ =~= items@.take(i + 1));
        i += 1;
    }
    assert(items@.take(n as int) =~= items@);
    copy
}

impl Clone for Person {
    /// A copy with the same identifier and the same fields.
    fn clone(&self) -> (copy: Person)
        ensures
            copy@ == self@,
    {
        Person {
            id: self.id,
            name: self.name.clone(),
            nick: self.nick.clone(),
            birth_date: self.birth_date,
            stack: match &self.stack {
                Some(techs) => Some(copy_strings(techs)),
                None => None,
            },
        }
    }
}

/// A request to admit a person, each field within its bound.
#[derive(Debug)]
pub struct NewPerson {
    pub name: PersonName,
    pub nick: Nick,
    pub birth_date: BirthDate,
    pub stack: Option<Vec<Tech>>,
}

/// Admits each of `items` as a technology name, or none of them.
fn validate_stack(items: &Vec<String>) -> (r: Result<Vec<Tech>, ValidationError>)
    ensures
        match r {
            Ok(techs) => all_within(texts(items@), TECH_MAX as nat) && tech_texts(techs@) == texts(
                items@,
            ),
            Err(e) => !all_within(texts(items@), TECH_MAX as nat) && e
                == ValidationError::TechTooLong,
        },
{
    let n: usize = items.len();
    let mut techs: Vec<Tech> = Vec::new();
    let mut i: usize = 0;
    while i < n
        invariant
            n == items@.len(),
            i <= n,
            techs@.len() == i,
            tech_texts(techs@) == texts(items@).take(i as int),
            all_within(texts(items@).take(i as int), TECH_MAX as nat),
        decreases n - i,
    {
        match Tech::try_from(items[i].clone()) {
            Ok(tech) => {
                techs.push(tech);
                assert(tech_texts(techs@) =~= texts(items@).take(i + 1));
            },
            Err(e) => {
                assert(texts(items@)[i as int].len() > TECH_MAX);
                return Err(e);
            },
        }
        i += 1;
    }
    assert(texts(items@).take(n as int) =~= texts(items@));
    Ok(techs)
}

/// A copy of a list of technology names.
fn copy_techs(items: &Vec<Tech>) -> (copy: Vec<Tech>)
    ensures
        tech_texts(copy@) == tech_texts(items@),
{
    let n: usize = items.len();
    let mut copy: Vec<Tech> = Vec::new();
    let mut i: usize = 0;
    while i < n
        invariant
            n == items@.len(),
            i <= n,
            copy@.len() == i,
            tech_texts(copy@) == tech_texts(items@).take(i as int),
        decreases n - i,
    {
        copy.push(items[i].clone());
        assert(tech_texts(copy@) =~= tech_texts(items@).take(i + 1));
        i += 1;
    }
    assert(tech_texts(items@).take(n as int) =~= tech_texts(items@));
    copy
}

impl Clone for NewPerson {
    /// A copy with the same fields.
    fn clone(&self) -> (copy: NewPerson)
        ensures
            copy.name@ == self.name@,
            copy.nick@ == self.nick@,
            copy.birth_date@ == self.birth_date@,
            copy.techs() == self.techs(),
    {
        NewPerson {
            name: self.name.clone(),
            nick: self.nick.clone(),
            birth_date: self.birth_date,
            stack: match &self.stack {
                Some(techs) => Some(copy_techs(techs)),
                None => None,
            },
        }
    }
}

impl NewPerson {
    /// The technologies of this request as plain values.
    pub open spec fn techs(&self) -> Option<Seq<Seq<char>>> {
        match self.stack {
            Some(techs) => Some(tech_texts(techs@)),
            None => None,
        }
    }

    /// The person that this request becomes under the identifier `id`.
    pub open spec fn as_person(&self, id: u128) -> PersonView {
        PersonView {
            id,
            name: self.name@,
            nick: self.nick@,
            birth_date: self.birth_date@,
            stack: self.techs(),
        }
    }

    /// Validates the four fields of a request, in the order name, nickname,
    /// birth date, technologies. The request is admitted whole or not at
    /// all, and the first field at fault decides the error.
    pub fn validate(name: String, nick: String, birth: &str, stack: Option<Vec<String>>) -> (r:
        Result<NewPerson, ValidationError>)
        ensures
            match r {
                Ok(request) => {
                    &&& first_rejection(name@, nick@, birth@, stack_texts(stack)) is None
                    &&& request.name@ == name@
                    &&& request.nick@ == nick@
                    &&& request.birth_date@ == date_in(birth@)
                    &&& request.techs() == stack_texts(stack)
                },
                Err(e) => first_rejection(name@, nick@, birth@, stack_texts(stack)) == Some(e),
            },
    {
        let name = match PersonName::try_from(name) {
            Ok(name) => name,
            Err(e) => {
                return Err(e);
            },
        };
        let nick = match Nick::try_from(nick) {
            Ok(nick) => nick,
            Err(e) => {
                return Err(e);
            },
        };
        let birth_date = match BirthDate::parse(birth) {
            Ok(date) => date,
            Err(e) => {
                return Err(e);
            },
        };
        let stack = match &stack {
            Some(items) => match validate_stack(items) {
                Ok(techs) => Some(techs),
                Err(e) => {
                    return Err(e);
                },
            },
            None => None,
        };
        Ok(NewPerson { name, nick, birth_date, stack })
    }

    /// The person that this request becomes under the identifier `id`. Its
    /// text fields are within their bounds.
    pub fn into_person(self, id: u128) -> (person: Person)
        ensures
            person@ == self.as_person(id),
            admissible(person@),
    {
        let stack = match &self.stack {
            Some(techs) => {
                let n: usize = techs.len();
                let mut items: Vec<String> = Vec::new();
                let mut i: usize = 0;
                while i < n
                    invariant
                        n == techs@.len(),
                        i <= n,
                        items@.len() == i,
                        texts(items@) == tech_texts(techs@).take(i as int),
                        all_within(texts(items@), TECH_MAX as nat),
                    decreases n - i,
                {
                    let item = String::from_str(techs[i].as_str());
                    items.push(item);
                    assert(texts(items@) =~= tech_texts(techs@).take(i + 1));
                    i += 1;
                }
                assert(tech_texts(techs@).take(n as int) =~= tech_texts(techs@));
                Some(items)
            },
            None => None,
        };
        let birth_date = self.birth_date;
        Person {
            id,
            name: self.name.into_string(),
            nick: self.nick.into_string(),
            birth_date,
            stack,
        }
    }
}

} // verus!
