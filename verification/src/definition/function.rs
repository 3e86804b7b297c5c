//! Functions: free ones and the member functions of a struct.

use crate::definition::field::{duplicate, duplicate_message, located_type};
use crate::definition::type_::{Type, TypeView};
use crate::definition::{end_checked, expect_end, located_types_view, FromLisp};
use crate::lisp::{Error, ErrorView, List, ListView, Location, LocationView};
use crate::text::same_text;
use vstd::prelude::*;
use vstd::std_specs::cmp::PartialEqSpecImpl;

verus! {

/// A parameter of a function. Its place is where its type is written.
#[derive(Debug)]
pub struct Parameter {
    pub location: Location,
    pub name: String,
    pub type_: Type,
}

/// What a [`Parameter`] stands for.
pub struct ParameterView {
    pub location: LocationView,
    pub name: Seq<char>,
    pub type_: TypeView,
}

impl View for Parameter {
    type V = ParameterView;

    open spec fn view(&self) -> ParameterView {
        ParameterView { location: self.location@, name: self.name@, type_: self.type_@ }
    }
}

impl ParameterView {
    /// Same name and same type, wherever the two were written.
    pub open spec fn same(self, other: ParameterView) -> bool {
        self.name == other.name && self.type_ == other.type_
    }
}

impl Clone for Parameter {
    fn clone(&self) -> (r: Self)
        ensures
            r@ == self@,
    {
        Parameter {
            location: self.location.clone(),
            name: self.name.clone(),
            type_: self.type_.clone(),
        }
    }
}

impl PartialEq for Parameter {
    fn eq(&self, other: &Self) -> (r: bool) {
        same_text(self.name.as_str(), other.name.as_str()) && self.type_.same(&other.type_)
    }
}

impl PartialEqSpecImpl for Parameter {
    open spec fn obeys_eq_spec() -> bool {
        true
    }

    open spec fn eq_spec(&self, other: &Self) -> bool {
        self@.same(other@)
    }
}

/// The models of a run of parameters, in order.
pub open spec fn parameters_view(parameters: Seq<Parameter>) -> Seq<ParameterView> {
    parameters.map_values(|p: Parameter| p@)
}

/// Whether the two runs hold the same parameters in the same order,
/// wherever they were written.
pub open spec fn same_parameters(a: Seq<ParameterView>, b: Seq<ParameterView>) -> bool {
    a.len() == b.len() && forall|i: int| 0 <= i < a.len() ==> (#[trigger] a[i]).same(b[i])
}

/// A function: its name, its parameters in order, and what it returns.
#[derive(Debug)]
pub struct Function {
    pub location: Location,
    pub name: String,
    pub parameters: Vec<Parameter>,
    pub return_type: (Location, Type),
}

/// What a [`Function`] stands for.
pub struct FunctionView {
    pub location: LocationView,
    pub name: Seq<char>,
    pub parameters: Seq<ParameterView>,
    pub return_type: (LocationView, TypeView),
}

impl View for Function {
    type V = FunctionView;

    open spec fn view(&self) -> FunctionView {
        FunctionView {
            location: self.location@,
            name: self.name@,
            parameters: parameters_view(self.parameters@),
            return_type: (self.return_type.0@, self.return_type.1@),
        }
    }
}

impl FunctionView {
    /// Same name, same parameters and same return type, wherever the two
    /// were written.
    pub open spec fn same(self, other: FunctionView) -> bool {
        self.name == other.name && same_parameters(self.parameters, other.parameters)
            && self.return_type.1 == other.return_type.1
    }

    /// No two parameters have the same name.
    pub open spec fn well_formed(self) -> bool {
        forall|j: int| 0 <= j < self.parameters.len() ==> !repeats(self.parameters, j)
    }

    /// The return type, then the type of each parameter in order.
    pub open spec fn related_types(self) -> Seq<(LocationView, TypeView)> {
        seq![self.return_type] + self.parameters.map_values(
            |p: ParameterView| (p.location, p.type_),
        )
    }
}

/// Copies of the parameters, in order.
pub fn clone_parameters(parameters: &Vec<Parameter>) -> (r: Vec<Parameter>)
    ensures
        parameters_view(r@) == parameters_view(parameters@),
{
    let mut out: Vec<Parameter> = Vec::new();
    let mut i: usize = 0;
    while i < parameters.len()
        invariant
            i <= parameters.len(),
            parameters_view(out@) == parameters_view(parameters@).take(i as int),
        decreases parameters.len() - i,
    {
        let ghost before = parameters_view(out@);
        out.push(parameters[i].clone());
        assert(parameters_view(out@) =~= before.push(parameters@[i as int]@));
        assert(before.push(parameters@[i as int]@) =~= parameters_view(parameters@).take(i + 1));
        i += 1;
    }
    assert(parameters_view(parameters@).take(parameters.len() as int) =~= parameters_view(
        parameters@,
    ));
    out
}

impl Clone for Function {
    fn clone(&self) -> (r: Self)
        ensures
            r@ == self@,
    {
        Function {
            location: self.location.clone(),
            name: self.name.clone(),
            parameters: clone_parameters(&self.parameters),
            return_type: (self.return_type.0.clone(), self.return_type.1.clone()),
        }
    }
}

/// Two functions are equal when they have the same name, parameters and
/// return type, wherever they were written.
impl PartialEq for Function {
    fn eq(&self, other: &Self) -> (r: bool) {
        if !same_text(self.name.as_str(), other.name.as_str()) {
            return false;
        }
        if !self.return_type.1.same(&other.return_type.1) {
            return false;
        }
        if self.parameters.len() != other.parameters.len() {
            return false;
        }
        let mut i: usize = 0;
        while i < self.parameters.len()
            invariant
                i <= self.parameters.len(),
                self.parameters.len() == other.parameters.len(),
                forall|k: int|
                    0 <= k < i ==> (#[trigger] self@.parameters[k]).same(other@.parameters[k]),
            decreases self.parameters.len() - i,
        {
            if !(same_text(self.parameters[i].name.as_str(), other.parameters[i].name.as_str())
                && self.parameters[i].type_.same(&other.parameters[i].type_)) {
                assert(!self@.parameters[i as int].same(other@.parameters[i as int]));
                return false;
            }
            i += 1;
        }
        true
    }
}

impl PartialEqSpecImpl for Function {
    open spec fn obeys_eq_spec() -> bool {
        true
    }

    open spec fn eq_spec(&self, other: &Self) -> bool {
        self@.same(other@)
    }
}

/// Whether the parameter at `j` has the name of one before it.
pub open spec fn repeats(parameters: Seq<ParameterView>, j: int) -> bool {
    exists|i: int| 0 <= i < j && (#[trigger] parameters[i]).name == parameters[j].name
}

/// The first position from `from` on whose parameter repeats an earlier
/// name; the length of the run when there is none.
pub open spec fn first_repeat(parameters: Seq<ParameterView>, from: int) -> int
    decreases parameters.len() - from,
{
    if from < 0 || from >= parameters.len() {
        parameters.len() as int
    } else if repeats(parameters, from) {
        from
    } else {
        first_repeat(parameters, from + 1)
    }
}

/// What reading one `(type name)` pair from the front of `list` gives.
/// The pair must be a list that starts with two identifiers, the first of
/// them a type; what follows them in the pair is not looked at.
pub open spec fn parameter_parsed(list: ListView) -> Result<ParameterView, ErrorView> {
    if !list.front_is_list() {
        Err(list.expected("parameter list"@))
    } else {
        let pair = list.items[0]->List_0;
        if !pair.front_is_identifier() {
            Err(pair.expected("parameter type"@))
        } else {
            let after = pair.rest();
            if !after.front_is_identifier() {
                Err(after.expected("parameter name"@))
            } else {
                let location = pair.items[0]->Identifier_location;
                match located_type(pair.items[0]->name, location) {
                    Err(e) => Err(e),
                    Ok(type_) => Ok(
                        ParameterView { location, name: after.items[0]->name, type_ },
                    ),
                }
            }
        }
    }
}

/// What reading every pair of `list` gives, after `seen`.
pub open spec fn parameters_parsed(list: ListView, seen: Seq<ParameterView>) -> Result<
    Seq<ParameterView>,
    ErrorView,
>
    decreases list.items.len(),
{
    if list.items.len() == 0 {
        Ok(seen)
    } else {
        match parameter_parsed(list) {
            Err(e) => Err(e),
            Ok(p) => parameters_parsed(list.rest(), seen.push(p)),
        }
    }
}

/// What reading the parts of a function gives: a name, a list of
/// `(type name)` pairs with distinct names, a return type, and nothing more.
pub open spec fn function_parsed(list: ListView) -> Result<FunctionView, ErrorView> {
    if !list.front_is_identifier() {
        Err(list.expected("function identifier"@))
    } else {
        let after_name = list.rest();
        if !after_name.front_is_list() {
            Err(after_name.expected("list for parameters"@))
        } else {
            match parameters_parsed(after_name.items[0]->List_0, Seq::empty()) {
                Err(e) => Err(e),
                Ok(parameters) => {
                    let j = first_repeat(parameters, 0);
                    let after_parameters = after_name.rest();
                    if j < parameters.len() {
                        Err(
                            ErrorView {
                                message: duplicate_message("parameter"@, parameters[j].name),
                                location: parameters[j].location,
                            },
                        )
                    } else if !after_parameters.front_is_identifier() {
                        Err(after_parameters.expected("valid return type"@))
                    } else {
                        let location = after_parameters.items[0]->Identifier_location;
                        match located_type(after_parameters.items[0]->name, location) {
                            Err(e) => Err(e),
                            Ok(type_) => match end_checked(after_parameters.rest()) {
                                Some(e) => Err(e),
                                None => Ok(
                                    FunctionView {
                                        location: list.items[0]->Identifier_location,
                                        name: list.items[0]->name,
                                        parameters,
                                        return_type: (location, type_),
                                    },
                                ),
                            },
                        }
                    }
                },
            }
        }
    }
}

/// The first parameter that has the name of one before it.
#[verifier::loop_isolation(false)]
fn find_repeat(parameters: &Vec<Parameter>) -> (r: usize)
    ensures
        r == first_repeat(parameters_view(parameters@), 0),
{
    let ghost all = parameters_view(parameters@);
    let mut j: usize = 0;
    while j < parameters.len()
        invariant
            j <= parameters.len(),
            all == parameters_view(parameters@),
            first_repeat(all, 0) == first_repeat(all, j as int),
        decreases parameters.len() - j,
    {
        let mut i: usize = 0;
        let mut found = false;
        while i < j
            invariant
                i <= j,
                j < parameters.len(),
                all == parameters_view(parameters@),
                !found,
                forall|k: int| 0 <= k < i ==> (#[trigger] all[k]).name != all[j as int].name,
            decreases j - i,
        {
            if same_text(parameters[i].name.as_str(), parameters[j].name.as_str()) {
                assert(all[i as int].name == all[j as int].name);
                assert(repeats(all, j as int));
                return j;
            }
            i += 1;
        }
        assert(!repeats(all, j as int));
        j += 1;
    }
    j
}

impl FromLisp for Function {
    open spec fn keyword() -> Seq<char> {
        "fn"@
    }

    open spec fn values_parsed(list: ListView) -> Result<FunctionView, ErrorView> {
        function_parsed(list)
    }

    open spec fn related_types(definition: FunctionView) -> Seq<(LocationView, TypeView)> {
        definition.related_types()
    }

    fn identifier() -> (r: &'static str) {
        "fn"
    }

    #[verifier::loop_isolation(false)]
    fn parse_values(list: &mut List) -> (r: Result<Self, Error>) {
        let (name, location) = list.pop_identifier("function identifier")?;

        let mut parameters: Vec<Parameter> = Vec::new();
        let mut parameter_def = list.pop_list("list for parameters")?;
        let ghost all = parameter_def@;
        assert(parameters_view(parameters@) =~= Seq::empty());
        while !parameter_def.is_empty()
            invariant
                parameters_parsed(all, Seq::empty()) == parameters_parsed(
                    parameter_def@,
                    parameters_view(parameters@),
                ),
            decreases parameter_def@.items.len(),
        {
            let ghost before = parameters_view(parameters@);
            let mut parameter_list = parameter_def.pop_list("parameter list")?;
            let (param_type, loc) = parameter_list.pop_identifier("parameter type")?;
            let (param_name, _) = parameter_list.pop_identifier("parameter name")?;
            let param_type = Type::try_parse(param_type.as_str(), loc.clone())?;
            parameters.push(Parameter { location: loc, name: param_name, type_: param_type });
            assert(parameters_view(parameters@) =~= before.push(parameters@.last()@));
        }

        let j = find_repeat(&parameters);
        if j < parameters.len() {
            return Err(
                duplicate(
                    "parameter",
                    parameters[j].name.as_str(),
                    parameters[j].location.clone(),
                ),
            );
        }
        let (return_type, loc) = list.pop_identifier("valid return type")?;
        let return_type = Type::try_parse(return_type.as_str(), loc.clone())?;
        expect_end(list)?;
        Ok(Function { location, name, parameters, return_type: (loc, return_type) })
    }

    fn get_related_types(&self) -> (r: Vec<(Location, Type)>) {
        let mut types: Vec<(Location, Type)> = Vec::new();
        types.push((self.return_type.0.clone(), self.return_type.1.clone()));
        let mut i: usize = 0;
        while i < self.parameters.len()
            invariant
                i <= self.parameters.len(),
                located_types_view(types@) == seq![self@.return_type] + self@.parameters.take(
                    i as int,
                ).map_values(|p: ParameterView| (p.location, p.type_)),
            decreases self.parameters.len() - i,
        {
            let parameter = &self.parameters[i];
            let ghost before = located_types_view(types@);
            types.push((parameter.location.clone(), parameter.type_.clone()));
            assert(located_types_view(types@) =~= before.push(
                (parameter@.location, parameter@.type_),
            ));
            assert(self@.parameters.take(i + 1) =~= self@.parameters.take(i as int).push(
                parameter@,
            ));
            assert(before.push((parameter@.location, parameter@.type_)) =~= seq![
                self@.return_type,
            ] + self@.parameters.take(i + 1).map_values(
                |p: ParameterView| (p.location, p.type_),
            ));
            i += 1;
        }
        assert(self@.parameters.take(self.parameters.len() as int) =~= self@.parameters);
        types
    }
}

/// A function that is read has parameters with distinct names.
pub proof fn lemma_function_parsed_well_formed(list: ListView)
    requires
        function_parsed(list) is Ok,
    ensures
        function_parsed(list)->Ok_0.well_formed(),
{
    let parameters = function_parsed(list)->Ok_0.parameters;
    lemma_first_repeat(parameters, 0);
}

/// `first_repeat` gives the first repeating position from `from` on, if any.
pub proof fn lemma_first_repeat(parameters: Seq<ParameterView>, from: int)
    requires
        0 <= from,
    ensures
        from <= first_repeat(parameters, from) || first_repeat(parameters, from)
            == parameters.len(),
        first_repeat(parameters, from) <= parameters.len(),
        first_repeat(parameters, from) < parameters.len() ==> repeats(
            parameters,
            first_repeat(parameters, from),
        ),
        forall|j: int| from <= j < first_repeat(parameters, from) ==> !repeats(parameters, j),
    decreases parameters.len() - from,
{
    if from < parameters.len() && !repeats(parameters, from) {
        lemma_first_repeat(parameters, from + 1);
    }
}

} // verus!
