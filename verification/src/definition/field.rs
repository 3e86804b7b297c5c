//! Named, typed members: the fields of a struct and of an enum variant.

use crate::definition::type_::{starts_with_letter, type_parsed, Type, TypeView};
use crate::lisp::{Error, ErrorView, List, ListView, Location, LocationView};
use crate::text::same_text;
use vstd::prelude::*;
use vstd::std_specs::cmp::PartialEqSpecImpl;

verus! {

/// A field. Can be properties, arguments, etc.
#[derive(Debug)]
pub struct Field {
    pub location: Location,
    pub name: String,
    pub type_: Type,
}

/// What a [`Field`] stands for.
pub struct FieldView {
    pub location: LocationView,
    pub name: Seq<char>,
    pub type_: TypeView,
}

impl View for Field {
    type V = FieldView;

    open spec fn view(&self) -> FieldView {
        FieldView { location: self.location@, name: self.name@, type_: self.type_@ }
    }
}

impl FieldView {
    /// Same name and same type, wherever the two were written.
    pub open spec fn same(self, other: FieldView) -> bool {
        self.name == other.name && self.type_ == other.type_
    }
}

impl Clone for Field {
    fn clone(&self) -> (r: Self)
        ensures
            r@ == self@,
    {
        Field {
            location: self.location.clone(),
            name: self.name.clone(),
            type_: self.type_.clone(),
        }
    }
}

/// Two fields are equal when they have the same name and type, wherever
/// they were written.
impl PartialEq for Field {
    fn eq(&self, other: &Self) -> (r: bool) {
        same_text(self.name.as_str(), other.name.as_str()) && self.type_.same(&other.type_)
    }
}

impl PartialEqSpecImpl for Field {
    open spec fn obeys_eq_spec() -> bool {
        true
    }

    open spec fn eq_spec(&self, other: &Self) -> bool {
        self@.same(other@)
    }
}

/// The models of a run of fields, in order.
pub open spec fn fields_view(fields: Seq<Field>) -> Seq<FieldView> {
    fields.map_values(|f: Field| f@)
}

/// Whether one of `fields` is called `name`.
pub open spec fn has_field(fields: Seq<FieldView>, name: Seq<char>) -> bool {
    exists|i: int| 0 <= i < fields.len() && (#[trigger] fields[i]).name == name
}

/// No two of `fields` have the same name.
pub open spec fn distinct_fields(fields: Seq<FieldView>) -> bool {
    forall|i: int, j: int|
        0 <= i < j < fields.len() ==> (#[trigger] fields[i]).name != (#[trigger] fields[j]).name
}

/// Message of the error for a second `what` called `name`.
pub open spec fn duplicate_message(what: Seq<char>, name: Seq<char>) -> Seq<char> {
    "Duplicate "@ + what + " '"@ + name + "'"@
}

/// The error with the message that `type_parsed` refuses `text` with, if it does.
pub open spec fn located_type(text: Seq<char>, location: LocationView) -> Result<
    TypeView,
    ErrorView,
> {
    match type_parsed(text, starts_with_letter(text)) {
        Ok(t) => Ok(t),
        Err(message) => Err(ErrorView { message, location }),
    }
}

/// What reading one `(type name)` pair from the front of `list` adds to
/// `fields`, or the error it is refused with. `what` names the kind of
/// member in messages. The pair must be a list that starts with a type and
/// a name not yet among `fields`; what follows the name in the pair is
/// not looked at.
pub open spec fn field_parsed(what: Seq<char>, list: ListView, fields: Seq<FieldView>) -> Result<
    Seq<FieldView>,
    ErrorView,
> {
    if !list.front_is_list() {
        Err(list.expected(what + " list"@))
    } else {
        let pair = list.items[0]->List_0;
        if !pair.front_is_identifier() {
            Err(pair.expected("type"@))
        } else {
            match located_type(pair.items[0]->name, pair.items[0]->Identifier_location) {
                Err(e) => Err(e),
                Ok(type_) => {
                    let after = pair.rest();
                    if !after.front_is_identifier() {
                        Err(after.expected("name"@))
                    } else {
                        let name = after.items[0]->name;
                        let location = after.items[0]->Identifier_location;
                        if has_field(fields, name) {
                            Err(ErrorView { message: duplicate_message(what, name), location })
                        } else {
                            Ok(fields.push(FieldView { location, name, type_ }))
                        }
                    }
                },
            }
        }
    }
}

/// The error for a second `what` called `name`, at `location`.
pub fn duplicate(what: &str, name: &str, location: Location) -> (r: Error)
    ensures
        r@ == (ErrorView { message: duplicate_message(what@, name@), location: location@ }),
{
    let mut message = String::from_str("Duplicate ");
    message.append(what);
    message.append(" '");
    message.append(name);
    message.append("'");
    Error { message, location }
}

/// Whether one of `fields` is called `name`.
pub fn contains_field(fields: &Vec<Field>, name: &str) -> (r: bool)
    ensures
        r == has_field(fields_view(fields@), name@),
{
    let mut i: usize = 0;
    while i < fields.len()
        invariant
            i <= fields.len(),
            forall|k: int| 0 <= k < i ==> (#[trigger] fields_view(fields@)[k]).name != name@,
        decreases fields.len() - i,
    {
        if same_text(fields[i].name.as_str(), name) {
            assert(fields_view(fields@)[i as int].name == name@);
            return true;
        }
        i += 1;
    }
    false
}

impl Field {
    /// Reads one `(type name)` pair from the front of `list` and adds the
    /// field to `fields`, unless one of that name is there already.
    pub fn parse_field(field_type: &str, list: &mut List, fields: &mut Vec<Field>) -> (r: Result<
        (),
        Error,
    >)
        ensures
            final(list)@ == (if old(list)@.front_is_list() {
                old(list)@.rest()
            } else {
                old(list)@
            }),
            match r {
                Ok(()) => field_parsed(field_type@, old(list)@, fields_view(old(fields)@)) == Ok::<
                    _,
                    ErrorView,
                >(fields_view(final(fields)@)),
                Err(e) => field_parsed(field_type@, old(list)@, fields_view(old(fields)@)) == Err::<
                    Seq<FieldView>,
                    _,
                >(e@) && fields_view(final(fields)@) == fields_view(old(fields)@),
            },
    {
        let mut what = String::from_str(field_type);
        what.append(" list");
        let mut pair = list.pop_list(what.as_str())?;
        let (type_text, type_location) = pair.pop_identifier("type")?;
        let type_ = Type::try_parse(type_text.as_str(), type_location)?;
        let (name, location) = pair.pop_identifier("name")?;
        if contains_field(fields, name.as_str()) {
            return Err(duplicate(field_type, name.as_str(), location));
        }
        fields.push(Field { location, name, type_ });
        assert(fields_view(fields@) =~= fields_view(old(fields)@).push(fields@.last()@));
        Ok(())
    }
}

/// What reading every pair of `list` adds to `fields`, or the first error.
pub open spec fn fields_parsed(what: Seq<char>, list: ListView, fields: Seq<FieldView>) -> Result<
    Seq<FieldView>,
    ErrorView,
>
    decreases list.items.len(),
{
    if list.items.len() == 0 {
        Ok(fields)
    } else {
        match field_parsed(what, list, fields) {
            Err(e) => Err(e),
            Ok(more) => fields_parsed(what, list.rest(), more),
        }
    }
}

/// Reads every `(type name)` pair of `list` and adds the fields to `fields`.
pub fn parse_fields(field_type: &str, list: &mut List, fields: &mut Vec<Field>) -> (r: Result<
    (),
    Error,
>)
    ensures
        final(list)@.location == old(list)@.location,
        match r {
            Ok(()) => fields_parsed(field_type@, old(list)@, fields_view(old(fields)@)) == Ok::<
                _,
                ErrorView,
            >(fields_view(final(fields)@)) && final(list)@.items.len() == 0,
            Err(e) => fields_parsed(field_type@, old(list)@, fields_view(old(fields)@)) == Err::<
                Seq<FieldView>,
                _,
            >(e@),
        },
{
    while !list.is_empty()
        invariant
            list@.location == old(list)@.location,
            fields_parsed(field_type@, old(list)@, fields_view(old(fields)@)) == fields_parsed(
                field_type@,
                list@,
                fields_view(fields@),
            ),
        decreases list@.items.len(),
    {
        Field::parse_field(field_type, list, fields)?;
    }
    Ok(())
}

/// Copies of the fields, in order.
pub fn clone_fields(fields: &Vec<Field>) -> (r: Vec<Field>)
    ensures
        fields_view(r@) == fields_view(fields@),
{
    let mut out: Vec<Field> = Vec::new();
    let mut i: usize = 0;
    while i < fields.len()
        invariant
            i <= fields.len(),
            fields_view(out@) == fields_view(fields@).take(i as int),
        decreases fields.len() - i,
    {
        let ghost before = fields_view(out@);
        out.push(fields[i].clone());
        assert(fields_view(out@) =~= before.push(fields@[i as int]@));
        assert(before.push(fields@[i as int]@) =~= fields_view(fields@).take(i + 1));
        i += 1;
    }
    assert(fields_view(fields@).take(fields.len() as int) =~= fields_view(fields@));
    out
}

/// Whether the two runs hold the same fields in the same order, wherever
/// they were written.
pub open spec fn same_fields(a: Seq<FieldView>, b: Seq<FieldView>) -> bool {
    a.len() == b.len() && forall|i: int| 0 <= i < a.len() ==> (#[trigger] a[i]).same(b[i])
}

/// Whether the two vectors hold the same fields in the same order.
pub fn fields_equal(a: &Vec<Field>, b: &Vec<Field>) -> (r: bool)
    ensures
        r == same_fields(fields_view(a@), fields_view(b@)),
{
    if a.len() != b.len() {
        return false;
    }
    let mut i: usize = 0;
    while i < a.len()
        invariant
            i <= a.len(),
            a.len() == b.len(),
            forall|k: int|
                0 <= k < i ==> (#[trigger] fields_view(a@)[k]).same(fields_view(b@)[k]),
        decreases a.len() - i,
    {
        if !(same_text(a[i].name.as_str(), b[i].name.as_str()) && a[i].type_.same(&b[i].type_)) {
            assert(!fields_view(a@)[i as int].same(fields_view(b@)[i as int]));
            return false;
        }
        i += 1;
    }
    true
}

/// Adding a field that is read keeps the names distinct.
pub proof fn lemma_field_parsed_distinct(what: Seq<char>, list: ListView, fields: Seq<FieldView>)
    requires
        distinct_fields(fields),
        field_parsed(what, list, fields) is Ok,
    ensures
        distinct_fields(field_parsed(what, list, fields)->Ok_0),
{
}

/// Adding the fields that are read keeps the names distinct.
pub proof fn lemma_fields_parsed_distinct(what: Seq<char>, list: ListView, fields: Seq<FieldView>)
    requires
        distinct_fields(fields),
        fields_parsed(what, list, fields) is Ok,
    ensures
        distinct_fields(fields_parsed(what, list, fields)->Ok_0),
    decreases list.items.len(),
{
    if list.items.len() > 0 {
        lemma_field_parsed_distinct(what, list, fields);
        lemma_fields_parsed_distinct(what, list.rest(), field_parsed(what, list, fields)->Ok_0);
    }
}

} // verus!
