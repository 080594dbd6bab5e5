//! Length rules for the text fields of a person.

use vstd::prelude::*;

verus! {

/// The longest name admitted, in characters.
pub const NAME_MAX: usize = 32;

/// The longest nickname admitted, in characters.
pub const NICK_MAX: usize = 100;

/// The longest technology name admitted, in characters.
pub const TECH_MAX: usize = 32;

/// Why a request was turned down.
#[derive(Clone, Copy, Debug, PartialEq, Eq, Structural)]
pub enum ValidationError {
    /// The name has more than `NAME_MAX` characters.
    NameTooLong,
    /// The nickname has more than `NICK_MAX` characters.
    NickTooLong,
    /// A technology name has more than `TECH_MAX` characters.
    TechTooLong,
    /// The birth date is not a calendar date written `YYYY-MM-DD`.
    InvalidBirthDate,
    /// A search was asked for without a term, or with an empty one.
    MissingSearchTerm,
}

impl ValidationError {
    /// The text of the message for this rejection.
    pub open spec fn text(self) -> Seq<char> {
        match self {
            ValidationError::NameTooLong => "Nome eh muito grande."@,
            ValidationError::NickTooLong => "Nick eh muito grande."@,
            ValidationError::TechTooLong => "Tech eh muito grande."@,
            ValidationError::InvalidBirthDate => "Nascimento invalido."@,
            ValidationError::MissingSearchTerm => "Termo de busca ausente."@,
        }
    }

    /// The message shown to the client for this rejection.
    pub fn message(&self) -> (message: &'static str)
        ensures
            message@ == self.text(),
    {
        match self {
            ValidationError::NameTooLong => "Nome eh muito grande.",
            ValidationError::NickTooLong => "Nick eh muito grande.",
            ValidationError::TechTooLong => "Tech eh muito grande.",
            ValidationError::InvalidBirthDate => "Nascimento invalido.",
            ValidationError::MissingSearchTerm => "Termo de busca ausente.",
        }
    }
}

/// A name of at most `NAME_MAX` characters.
#[derive(Debug)]
pub struct PersonName(String);

impl View for PersonName {
    type V = Seq<char>;

    closed spec fn view(&self) -> Seq<char> {
        self.0@
    }
}

impl Clone for PersonName {
    /// A copy with the same text.
    fn clone(&self) -> (copy: PersonName)
        ensures
            copy@ == self@,
    {
        proof {
            use_type_invariant(self);
        }
        PersonName(self.0.clone())
    }
}

impl PersonName {
    #[verifier::type_invariant]
    spec fn within_bound(self) -> bool {
        self.0@.len() <= NAME_MAX
    }

    /// Admits `value` as a name exactly when it has at most `NAME_MAX`
    /// characters.
    pub fn try_from(value: String) -> (r: Result<PersonName, ValidationError>)
        ensures
            match r {
                Ok(name) => value@.len() <= NAME_MAX && name@ == value@,
                Err(e) => value@.len() > NAME_MAX && e == ValidationError::NameTooLong,
            },
    {
        if value.as_str().unicode_len() <= NAME_MAX {
            Ok(PersonName(value))
        } else {
            Err(ValidationError::NameTooLong)
        }
    }

    /// The text of the name.
    pub fn as_str(&self) -> (s: &str)
        ensures
            s@ == self@,
            s@.len() <= NAME_MAX,
    {
        proof {
            use_type_invariant(self);
        }
        self.0.as_str()
    }

    /// Gives the text up, which is still within the bound.
    pub fn into_string(self) -> (s: String)
        ensures
            s@ == self@,
            s@.len() <= NAME_MAX,
    {
        proof {
            use_type_invariant(&self);
        }
        self.0
    }
}

/// A nickname of at most `NICK_MAX` characters.
#[derive(Debug)]
pub struct Nick(String);

impl View for Nick {
    type V = Seq<char>;

    closed spec fn view(&self) -> Seq<char> {
        self.0@
    }
}

impl Clone for Nick {
    /// A copy with the same text.
    fn clone(&self) -> (copy: Nick)
        ensures
            copy@ == self@,
    {
        proof {
            use_type_invariant(self);
        }
        Nick(self.0.clone())
    }
}

impl Nick {
    #[verifier::type_invariant]
    spec fn within_bound(self) -> bool {
        self.0@.len() <= NICK_MAX
    }

    /// Admits `value` as a nickname exactly when it has at most `NICK_MAX`
    /// characters.
    pub fn try_from(value: String) -> (r: Result<Nick, ValidationError>)
        ensures
            match r {
                Ok(nick) => value@.len() <= NICK_MAX && nick@ == value@,
                Err(e) => value@.len() > NICK_MAX && e == ValidationError::NickTooLong,
            },
    {
        if value.as_str().unicode_len() <= NICK_MAX {
            Ok(Nick(value))
        } else {
            Err(ValidationError::NickTooLong)
        }
    }

    /// The text of the nickname.
    pub fn as_str(&self) -> (s: &str)
        ensures
            s@ == self@,
            s@.len() <= NICK_MAX,
    {
        proof {
            use_type_invariant(self);
        }
        self.0.as_str()
    }

    /// Gives the text up, which is still within the bound.
    pub fn into_string(self) -> (s: String)
        ensures
            s@ == self@,
            s@.len() <= NICK_MAX,
    {
        proof {
            use_type_invariant(&self);
        }
        self.0
    }
}

/// A technology name of at most `TECH_MAX` characters.
#[derive(Debug)]
pub struct Tech(String);

impl View for Tech {
    type V = Seq<char>;

    closed spec fn view(&self) -> Seq<char> {
        self.0@
    }
}

impl Clone for Tech {
    /// A copy with the same text.
    fn clone(&self) -> (copy: Tech)
        ensures
            copy@ == self@,
    {
        proof {
            use_type_invariant(self);
        }
        Tech(self.0.clone())
    }
}

impl Tech {
    #[verifier::type_invariant]
    spec fn within_bound(self) -> bool {
        self.0@.len() <= TECH_MAX
    }

    /// Admits `value` as a technology name exactly when it has at most
    /// `TECH_MAX` characters.
    pub fn try_from(value: String) -> (r: Result<Tech, ValidationError>)
        ensures
            match r {
                Ok(tech) => value@.len() <= TECH_MAX && tech@ == value@,
                Err(e) => value@.len() > TECH_MAX && e == ValidationError::TechTooLong,
            },
    {
        if value.as_str().unicode_len() <= TECH_MAX {
            Ok(Tech(value))
        } else {
            Err(ValidationError::TechTooLong)
        }
    }

    /// The text of the technology name.
    pub fn as_str(&self) -> (s: &str)
        ensures
            s@ == self@,
            s@.len() <= TECH_MAX,
    {
        proof {
            use_type_invariant(self);
        }
        self.0.as_str()
    }

    /// Gives the text up, which is still within the bound.
    pub fn into_string(self) -> (s: String)
        ensures
            s@ == self@,
            s@.len() <= TECH_MAX,
    {
        proof {
            use_type_invariant(&self);
        }
        self.0
    }
}

} // verus!
