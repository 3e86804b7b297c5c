//! Structs: a name, fields, and member functions.

use crate::definition::field::{
    clone_fields, distinct_fields, duplicate, duplicate_message, fields_equal, fields_parsed,
    fields_view, lemma_fields_parsed_distinct, parse_fields, same_fields, Field, FieldView,
};
use crate::definition::function::{
    lemma_function_parsed_well_formed, Function, FunctionView,
};
use crate::definition::type_::{Type, TypeView};
use crate::definition::{
    can_attempt, end_message, located_types_view, parsed, FromLisp,
};
use crate::lisp::{Error, ErrorView, List, ListView, Location, LocationView};
use crate::text::same_text;
use vstd::prelude::*;
use vstd::std_specs::cmp::PartialEqSpecImpl;

verus! {

/// A struct definition. Contains a name and a list of fields and can be
/// sent over the network. Not tied to anything in particular.
#[derive(Debug)]
pub struct Struct {
    pub location: Location,
    pub name: String,
    /// The fields, in the order they were declared, no two with one name.
    pub fields: Vec<Field>,
    /// The member functions, in the order they were declared, no two with one name.
    pub functions: Vec<Function>,
}

/// What a [`Struct`] stands for.
pub struct StructView {
    pub location: LocationView,
    pub name: Seq<char>,
    pub fields: Seq<FieldView>,
    pub functions: Seq<FunctionView>,
}

/// The models of a run of functions, in order.
pub open spec fn functions_view(functions: Seq<Function>) -> Seq<FunctionView> {
    functions.map_values(|f: Function| f@)
}

/// Whether one of `functions` is called `name`.
pub open spec fn has_function(functions: Seq<FunctionView>, name: Seq<char>) -> bool {
    exists|i: int| 0 <= i < functions.len() && (#[trigger] functions[i]).name == name
}

/// No two of `functions` have the same name.
pub open spec fn distinct_functions(functions: Seq<FunctionView>) -> bool {
    forall|i: int, j: int|
        0 <= i < j < functions.len() ==> (#[trigger] functions[i]).name != (
        #[trigger] functions[j]).name
}

/// The types that the first `count` of `functions` mention, function by function.
pub open spec fn functions_related_types(functions: Seq<FunctionView>, count: int) -> Seq<
    (LocationView, TypeView),
>
    decreases count,
{
    if count <= 0 || count > functions.len() {
        Seq::empty()
    } else {
        functions_related_types(functions, count - 1) + functions[count - 1].related_types()
    }
}

/// The names that the first `count` of `fields` refer to: for each field
/// whose type, under its lists, is the name of a definition, that name.
pub open spec fn referenced_names(fields: Seq<FieldView>, count: int) -> Seq<Seq<char>>
    decreases count,
{
    if count <= 0 || count > fields.len() {
        Seq::empty()
    } else {
        let before = referenced_names(fields, count - 1);
        match fields[count - 1].type_.inner() {
            TypeView::Identifier(name) => before.push(name),
            _ => before,
        }
    }
}

impl View for Struct {
    type V = StructView;

    open spec fn view(&self) -> StructView {
        StructView {
            location: self.location@,
            name: self.name@,
            fields: fields_view(self.fields@),
            functions: functions_view(self.functions@),
        }
    }
}

impl StructView {
    /// Same name and same fields in the same order, wherever the two were
    /// written and whatever their member functions.
    pub open spec fn same(self, other: StructView) -> bool {
        self.name == other.name && same_fields(self.fields, other.fields)
    }

    /// Field names are distinct, and so are the names of member functions
    /// and the parameter names of each of them.
    pub open spec fn well_formed(self) -> bool {
        &&& distinct_fields(self.fields)
        &&& distinct_functions(self.functions)
        &&& forall|i: int|
            0 <= i < self.functions.len() ==> (#[trigger] self.functions[i]).well_formed()
    }

    /// The type of every field, then the types that each member function mentions.
    pub open spec fn related_types(self) -> Seq<(LocationView, TypeView)> {
        self.fields.map_values(|f: FieldView| (f.location, f.type_)) + functions_related_types(
            self.functions,
            self.functions.len() as int,
        )
    }

    /// The names of the definitions that the fields refer to, field by field.
    pub open spec fn referenced(self) -> Seq<Seq<char>> {
        referenced_names(self.fields, self.fields.len() as int)
    }
}

/// Copies of the functions, in order.
pub fn clone_functions(functions: &Vec<Function>) -> (r: Vec<Function>)
    ensures
        functions_view(r@) == functions_view(functions@),
{
    let mut out: Vec<Function> = Vec::new();
    let mut i: usize = 0;
    while i < functions.len()
        invariant
            i <= functions.len(),
            functions_view(out@) == functions_view(functions@).take(i as int),
        decreases functions.len() - i,
    {
        let ghost before = functions_view(out@);
        out.push(functions[i].clone());
        assert(functions_view(out@) =~= before.push(functions@[i as int]@));
        assert(before.push(functions@[i as int]@) =~= functions_view(functions@).take(i + 1));
        i += 1;
    }
    assert(functions_view(functions@).take(functions.len() as int) =~= functions_view(
        functions@,
    ));
    out
}

impl Clone for Struct {
    fn clone(&self) -> (r: Self)
        ensures
            r@ == self@,
    {
        Struct {
            location: self.location.clone(),
            name: self.name.clone(),
            fields: clone_fields(&self.fields),
            functions: clone_functions(&self.functions),
        }
    }
}

/// Two structs are equal when they have the same name and the same fields
/// in the same order.
impl PartialEq for Struct {
    fn eq(&self, other: &Self) -> (r: bool) {
        same_text(self.name.as_str(), other.name.as_str()) && fields_equal(
            &self.fields,
            &other.fields,
        )
    }
}

impl PartialEqSpecImpl for Struct {
    open spec fn obeys_eq_spec() -> bool {
        true
    }

    open spec fn eq_spec(&self, other: &Self) -> bool {
        self@.same(other@)
    }
}

/// Message of the error for a first sub-list that is not headed by `fields`.
pub open spec fn expected_fields_message() -> Seq<char> {
    "Expected fields"@
}

/// What reading the optional `(fields ...)` sub-list at the front of `list`
/// gives. Where anything follows the name, the first of it must be a list
/// headed by the identifier `fields`, and the rest of that list `(type name)`
/// pairs with distinct names.
pub open spec fn struct_fields_parsed(list: ListView) -> Result<Seq<FieldView>, ErrorView> {
    if list.items.len() == 0 {
        Ok(Seq::empty())
    } else if !list.front_is_list() {
        Err(list.expected("fields"@))
    } else {
        let inner = list.items[0]->List_0;
        if !inner.front_is_identifier() {
            Err(inner.expected("fields"@))
        } else if inner.items[0]->name != "fields"@ {
            Err(
                ErrorView {
                    message: expected_fields_message(),
                    location: inner.items[0]->Identifier_location,
                },
            )
        } else {
            fields_parsed("property"@, inner.rest(), Seq::empty())
        }
    }
}

/// What reading every sub-list of `list` as a member function adds to
/// `functions`, or the first error. Each must be a list headed by `fn` that
/// reads as a function whose name is not yet taken.
pub open spec fn member_functions_parsed(list: ListView, functions: Seq<FunctionView>) -> Result<
    Seq<FunctionView>,
    ErrorView,
>
    decreases list.items.len(),
{
    if list.items.len() == 0 {
        Ok(functions)
    } else if !list.front_is_list() {
        Err(list.expected("functions"@))
    } else {
        let inner = list.items[0]->List_0;
        if !can_attempt(inner, Function::keyword()) {
            Err(ErrorView { message: end_message(), location: inner.location })
        } else {
            match parsed::<Function>(inner) {
                Err(e) => Err(e),
                Ok(f) => if has_function(functions, f.name) {
                    Err(
                        ErrorView {
                            message: duplicate_message("function"@, f.name),
                            location: f.location,
                        },
                    )
                } else {
                    member_functions_parsed(list.rest(), functions.push(f))
                },
            }
        }
    }
}

/// What reading the parts of a struct gives: a name, optionally the
/// fields, then member functions up to the end of the list.
pub open spec fn struct_parsed(list: ListView) -> Result<StructView, ErrorView> {
    if !list.front_is_identifier() {
        Err(list.expected("name"@))
    } else {
        let after_name = list.rest();
        let after_fields = if after_name.items.len() == 0 {
            after_name
        } else {
            after_name.rest()
        };
        match struct_fields_parsed(after_name) {
            Err(e) => Err(e),
            Ok(fields) => match member_functions_parsed(after_fields, Seq::empty()) {
                Err(e) => Err(e),
                Ok(functions) => Ok(
                    StructView {
                        location: list.items[0]->Identifier_location,
                        name: list.items[0]->name,
                        fields,
                        functions,
                    },
                ),
            },
        }
    }
}

/// Whether one of `functions` is called `name`.
pub fn contains_function(functions: &Vec<Function>, name: &str) -> (r: bool)
    ensures
        r == has_function(functions_view(functions@), name@),
{
    let mut i: usize = 0;
    while i < functions.len()
        invariant
            i <= functions.len(),
            forall|k: int|
                0 <= k < i ==> (#[trigger] functions_view(functions@)[k]).name != name@,
        decreases functions.len() - i,
    {
        if same_text(functions[i].name.as_str(), name) {
            assert(functions_view(functions@)[i as int].name == name@);
            return true;
        }
        i += 1;
    }
    false
}

impl Struct {
    /// Returns a list of all the other structs referenced by the struct.
    pub fn get_referenced_structs(&self) -> (r: Vec<String>)
        ensures
            r@.map_values(|s: String| s@) == self@.referenced(),
    {
        let mut names: Vec<String> = Vec::new();
        let mut i: usize = 0;
        while i < self.fields.len()
            invariant
                i <= self.fields.len(),
                names@.map_values(|s: String| s@) == referenced_names(self@.fields, i as int),
            decreases self.fields.len() - i,
        {
            let ghost before = names@.map_values(|s: String| s@);
            match self.fields[i].type_.inner_type() {
                Type::Identifier(name) => {
                    names.push(name);
                    assert(names@.map_values(|s: String| s@) =~= before.push(name@));
                },
                _ => {},
            }
            i += 1;
        }
        names
    }
}

impl FromLisp for Struct {
    open spec fn keyword() -> Seq<char> {
        "struct"@
    }

    open spec fn values_parsed(list: ListView) -> Result<StructView, ErrorView> {
        struct_parsed(list)
    }

    open spec fn related_types(definition: StructView) -> Seq<(LocationView, TypeView)> {
        definition.related_types()
    }

    fn identifier() -> (r: &'static str) {
        "struct"
    }

    #[verifier::loop_isolation(false)]
    fn parse_values(list: &mut List) -> (r: Result<Self, Error>) {
        let (name, location) = list.pop_identifier("name")?;
        let mut fields: Vec<Field> = Vec::new();
        let mut functions: Vec<Function> = Vec::new();
        assert(fields_view(fields@) =~= Seq::empty());
        assert(functions_view(functions@) =~= Seq::empty());

        // Parse fields
        if !list.is_empty() {
            let mut inner = list.pop_list("fields")?;
            let (id, loc) = inner.pop_identifier("fields")?;
            if !same_text(id.as_str(), "fields") {
                return Err(Error { message: String::from_str("Expected fields"), location: loc });
            }
            parse_fields("property", &mut inner, &mut fields)?;
        }

        // Parse functions
        let ghost all = list@;
        while !list.is_empty()
            invariant
                list@.location == all.location,
                member_functions_parsed(all, Seq::empty()) == member_functions_parsed(
                    list@,
                    functions_view(functions@),
                ),
            decreases list@.items.len(),
        {
            let ghost before = functions_view(functions@);
            let function_list = list.pop_list("functions")?;
            if Function::can_try(&function_list) {
                let f = Function::from_lisp(function_list)?;
                if contains_function(&functions, f.name.as_str()) {
                    return Err(duplicate("function", f.name.as_str(), f.location.clone()));
                }
                functions.push(f);
                assert(functions_view(functions@) =~= before.push(functions@.last()@));
            } else {
                return Err(
                    Error {
                        message: String::from_str("Expected end of list"),
                        location: function_list.location(),
                    },
                );
            }
        }

        Ok(Struct { location, name, fields, functions })
    }

    fn get_related_types(&self) -> (r: Vec<(Location, Type)>) {
        let mut types: Vec<(Location, Type)> = Vec::new();
        let mut i: usize = 0;
        while i < self.fields.len()
            invariant
                i <= self.fields.len(),
                located_types_view(types@) == self@.fields.take(i as int).map_values(
                    |f: FieldView| (f.location, f.type_),
                ),
            decreases self.fields.len() - i,
        {
            let field = &self.fields[i];
            let ghost before = located_types_view(types@);
            types.push((field.location.clone(), field.type_.clone()));
            assert(located_types_view(types@) =~= before.push((field@.location, field@.type_)));
            assert(self@.fields.take(i + 1) =~= self@.fields.take(i as int).push(field@));
            assert(before.push((field@.location, field@.type_)) =~= self@.fields.take(
                i + 1,
            ).map_values(|f: FieldView| (f.location, f.type_)));
            i += 1;
        }
        assert(self@.fields.take(self.fields.len() as int) =~= self@.fields);
        let ghost of_fields = located_types_view(types@);
        let mut k: usize = 0;
        while k < self.functions.len()
            invariant
                k <= self.functions.len(),
                of_fields == self@.fields.map_values(|f: FieldView| (f.location, f.type_)),
                located_types_view(types@) == of_fields + functions_related_types(
                    self@.functions,
                    k as int,
                ),
            decreases self.functions.len() - k,
        {
            let mut of_function = self.functions[k].get_related_types();
            let ghost before = located_types_view(types@);
            let ghost added = located_types_view(of_function@);
            types.append(&mut of_function);
            assert(located_types_view(types@) =~= before + added);
            assert(before + added =~= of_fields + functions_related_types(
                self@.functions,
                k + 1,
            ));
            k += 1;
        }
        types
    }
}

/// A struct that is read has distinct field names and distinct function names.
pub proof fn lemma_struct_parsed_well_formed(list: ListView)
    requires
        struct_parsed(list) is Ok,
    ensures
        struct_parsed(list)->Ok_0.well_formed(),
{
    let after_name = list.rest();
    if after_name.items.len() > 0 {
        lemma_fields_parsed_distinct(
            "property"@,
            after_name.items[0]->List_0.rest(),
            Seq::empty(),
        );
        lemma_member_functions_distinct(after_name.rest(), Seq::empty());
    } else {
        lemma_member_functions_distinct(after_name, Seq::empty());
    }
}

/// Adding the member functions that are read keeps the names distinct
/// and every function well formed.
pub proof fn lemma_member_functions_distinct(list: ListView, functions: Seq<FunctionView>)
    requires
        distinct_functions(functions),
        forall|i: int| 0 <= i < functions.len() ==> (#[trigger] functions[i]).well_formed(),
        member_functions_parsed(list, functions) is Ok,
    ensures
        distinct_functions(member_functions_parsed(list, functions)->Ok_0),
        forall|i: int|
            0 <= i < member_functions_parsed(list, functions)->Ok_0.len() ==> (
            #[trigger] member_functions_parsed(list, functions)->Ok_0[i]).well_formed(),
    decreases list.items.len(),
{
    if list.items.len() > 0 {
        let inner = list.items[0]->List_0;
        let f = parsed::<Function>(inner)->Ok_0;
        lemma_function_parsed_well_formed(inner.rest());
        lemma_member_functions_distinct(list.rest(), functions.push(f));
    }
}

} // verus!
