//! The typed definitions of the language and the protocol that reads each
//! of them from a list.

use crate::definition::type_::{Type, TypeView};
use crate::lisp::{Error, ErrorView, List, ListView, Location, LocationView};
use crate::text::same_text;
use vstd::prelude::*;

pub mod enum_;
pub mod field;
pub mod function;
pub mod output;
pub mod struct_;
pub mod type_;

verus! {

/// The models of a run of located types, in order.
pub open spec fn located_types_view(types: Seq<(Location, Type)>) -> Seq<(LocationView, TypeView)> {
    types.map_values(|t: (Location, Type)| (t.0@, t.1@))
}

/// Message of the error for a list that starts with another keyword than `keyword`.
pub open spec fn wrong_keyword_message(keyword: Seq<char>) -> Seq<char> {
    "Expected identifier '"@ + keyword + "'"@
}

/// Message of the error for what is left in a list after its last part.
pub open spec fn end_message() -> Seq<char> {
    "Expected end of list"@
}

/// Whether `list` claims to be a definition of the kind that `keyword`
/// introduces: it starts with the identifier `keyword`.
pub open spec fn can_attempt(list: ListView, keyword: Seq<char>) -> bool {
    list.front_is_identifier() && list.items[0]->name == keyword
}

/// The error for what is left in `list`, if anything is.
pub open spec fn end_checked(list: ListView) -> Option<ErrorView> {
    if list.items.len() == 0 {
        None
    } else {
        Some(ErrorView { message: end_message(), location: list.items[0].first_location() })
    }
}

/// Fails when anything is left in `list`; the error points at what is left.
pub fn expect_end(list: &List) -> (r: Result<(), Error>)
    ensures
        match r {
            Ok(()) => end_checked(list@) is None,
            Err(e) => end_checked(list@) == Some(e@),
        },
{
    match list.peek_front() {
        None => Ok(()),
        Some(node) => Err(
            Error {
                message: String::from_str("Expected end of list"),
                location: node.first_location(),
            },
        ),
    }
}

/// The error for a list that does not start with `keyword`, if it does not.
pub open spec fn keyword_checked(list: ListView, keyword: Seq<char>) -> Option<ErrorView> {
    if !list.front_is_identifier() {
        Some(list.expected("type"@))
    } else if list.items[0]->name != keyword {
        Some(
            ErrorView {
                message: wrong_keyword_message(keyword),
                location: list.items[0]->Identifier_location,
            },
        )
    } else {
        None
    }
}

/// A kind of definition that can be read from a list: a keyword, then
/// the parts that are particular to the kind.
pub trait FromLisp: Sized + View {
    /// The keyword that introduces a definition of this kind.
    spec fn keyword() -> Seq<char>;

    /// What reading the parts after the keyword gives.
    spec fn values_parsed(list: ListView) -> Result<Self::V, ErrorView>;

    /// Every type that a definition mentions, each with the place it is written at.
    spec fn related_types(definition: Self::V) -> Seq<(LocationView, TypeView)>;

    /// The identifier of the type.
    fn identifier() -> (r: &'static str)
        ensures
            r@ == Self::keyword(),
    ;

    /// Returns a list of related types.
    fn get_related_types(&self) -> (r: Vec<(Location, Type)>)
        ensures
            located_types_view(r@) == Self::related_types(self@),
    ;

    /// Converts a lisp list into the type.
    fn from_lisp(list: List) -> (r: Result<Self, Error>)
        ensures
            match keyword_checked(list@, Self::keyword()) {
                Some(wrong) => r is Err && r->Err_0@ == wrong,
                None => match r {
                    Ok(definition) => Self::values_parsed(list@.rest()) == Ok::<_, ErrorView>(
                        definition@,
                    ),
                    Err(e) => Self::values_parsed(list@.rest()) == Err::<Self::V, _>(e@),
                },
            },
    {
        let mut list = list;
        let (id, location) = list.pop_identifier("type")?;
        let keyword = Self::identifier();
        if !same_text(id.as_str(), keyword) {
            let mut message = String::from_str("Expected identifier '");
            message.append(keyword);
            message.append("'");
            return Err(Error { message, location });
        }
        Self::parse_values(&mut list)
    }

    /// Parses the values of the list into the type.
    fn parse_values(list: &mut List) -> (r: Result<Self, Error>)
        ensures
            final(list)@.location == old(list)@.location,
            match r {
                Ok(definition) => Self::values_parsed(old(list)@) == Ok::<_, ErrorView>(
                    definition@,
                ) && final(list)@.items.len() == 0,
                Err(e) => Self::values_parsed(old(list)@) == Err::<Self::V, _>(e@),
            },
    ;

    /// Returns whether the node should be tried.
    fn can_try(list: &List) -> (r: bool)
        ensures
            r == can_attempt(list@, Self::keyword()),
    {
        match list.peek_front() {
            Some(node) => match node.as_identifier() {
                Ok((name, _)) => same_text(name.as_str(), Self::identifier()),
                Err(_) => false,
            },
            None => false,
        }
    }
}

/// What reading a whole list as a definition of kind `T` gives: the
/// keyword must come first, and everything after it must read as the parts
/// of that kind.
pub open spec fn parsed<T: FromLisp>(list: ListView) -> Result<T::V, ErrorView> {
    match keyword_checked(list, T::keyword()) {
        Some(wrong) => Err(wrong),
        None => T::values_parsed(list.rest()),
    }
}

} // verus!
