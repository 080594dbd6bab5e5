//! An in-memory registry of people: validated admission, lookup by
//! identifier, case-insensitive search and counting.

pub mod birth;
mod ident;
pub mod laws;
pub mod person;
pub mod search;
pub mod service;
pub mod store;
pub mod validation;

pub use birth::BirthDate;
pub use person::{NewPerson, Person};
pub use store::Store;
pub use validation::{Nick, PersonName, Tech, ValidationError};
