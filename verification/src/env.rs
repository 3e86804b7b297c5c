//! The environment: every definition of a program, checked as a whole.

use crate::definition::enum_::{lemma_enum_parsed_well_formed, Enum, EnumView};
use crate::definition::field::{duplicate, duplicate_message};
use crate::definition::function::{lemma_function_parsed_well_formed, Function, FunctionView};
use crate::definition::output::{Output, OutputView};
use crate::definition::struct_::{
    contains_function, distinct_functions, functions_view, has_function,
    lemma_struct_parsed_well_formed, Struct, StructView,
};
use crate::definition::type_::{Type, TypeView};
use crate::definition::{can_attempt, located_types_view, parsed, FromLisp};
use crate::lisp::{Error, ErrorView, List, ListView, Location, LocationView};
use crate::text::same_text;
use vstd::prelude::*;

verus! {

/// The program's symbol table. Each kind keeps its definitions in the
/// order they were declared, no two of a kind with one name.
#[derive(Debug, PartialEq)]
pub struct Environment {
    pub structs: Vec<Struct>,
    pub enums: Vec<Enum>,
    pub functions: Vec<Function>,
    pub outputs: Vec<Output>,
}

/// What an [`Environment`] stands for.
pub struct EnvironmentView {
    pub structs: Seq<StructView>,
    pub enums: Seq<EnumView>,
    pub functions: Seq<FunctionView>,
    pub outputs: Seq<OutputView>,
}

/// One top-level form.
#[derive(Debug, PartialEq)]
pub enum Definition {
    Empty,
    Enum(Enum),
    Struct(Struct),
    Function(Function),
    Output(Output),
}

/// What a [`Definition`] stands for.
pub enum DefinitionView {
    Empty,
    Enum(EnumView),
    Struct(StructView),
    Function(FunctionView),
    Output(OutputView),
}

impl View for Definition {
    type V = DefinitionView;

    open spec fn view(&self) -> DefinitionView {
        match self {
            Definition::Empty => DefinitionView::Empty,
            Definition::Enum(e) => DefinitionView::Enum(e@),
            Definition::Struct(s) => DefinitionView::Struct(s@),
            Definition::Function(f) => DefinitionView::Function(f@),
            Definition::Output(o) => DefinitionView::Output(o@),
        }
    }
}

/// The models of a run of structs, in order.
pub open spec fn structs_view(structs: Seq<Struct>) -> Seq<StructView> {
    structs.map_values(|s: Struct| s@)
}

/// The models of a run of enums, in order.
pub open spec fn enums_view(enums: Seq<Enum>) -> Seq<EnumView> {
    enums.map_values(|e: Enum| e@)
}

/// The models of a run of outputs, in order.
pub open spec fn outputs_view(outputs: Seq<Output>) -> Seq<OutputView> {
    outputs.map_values(|o: Output| o@)
}

/// The models of a run of lists, in order.
pub open spec fn lists_view(lists: Seq<List>) -> Seq<ListView> {
    lists.map_values(|l: List| l@)
}

impl View for Environment {
    type V = EnvironmentView;

    open spec fn view(&self) -> EnvironmentView {
        EnvironmentView {
            structs: structs_view(self.structs@),
            enums: enums_view(self.enums@),
            functions: functions_view(self.functions@),
            outputs: outputs_view(self.outputs@),
        }
    }
}

/// Whether one of `structs` is called `name`.
pub open spec fn has_struct(structs: Seq<StructView>, name: Seq<char>) -> bool {
    exists|i: int| 0 <= i < structs.len() && (#[trigger] structs[i]).name == name
}

/// Whether one of `enums` is called `name`.
pub open spec fn has_enum(enums: Seq<EnumView>, name: Seq<char>) -> bool {
    exists|i: int| 0 <= i < enums.len() && (#[trigger] enums[i]).name == name
}

/// The types that the first `count` of `structs` mention, struct by struct.
pub open spec fn structs_related_types(structs: Seq<StructView>, count: int) -> Seq<
    (LocationView, TypeView),
>
    decreases count,
{
    if count <= 0 || count > structs.len() {
        Seq::empty()
    } else {
        structs_related_types(structs, count - 1) + structs[count - 1].related_types()
    }
}

/// The types that the first `count` of `enums` mention, enum by enum.
pub open spec fn enums_related_types(enums: Seq<EnumView>, count: int) -> Seq<
    (LocationView, TypeView),
>
    decreases count,
{
    if count <= 0 || count > enums.len() {
        Seq::empty()
    } else {
        enums_related_types(enums, count - 1) + enums[count - 1].related_types()
    }
}

/// The types that the first `count` of `functions` mention, function by function.
pub open spec fn free_functions_related_types(functions: Seq<FunctionView>, count: int) -> Seq<
    (LocationView, TypeView),
>
    decreases count,
{
    if count <= 0 || count > functions.len() {
        Seq::empty()
    } else {
        free_functions_related_types(functions, count - 1) + functions[count
            - 1].related_types()
    }
}

/// Message of the error for a `kind` that shares its name with an `other`.
pub open spec fn clash_message(kind: Seq<char>, name: Seq<char>, other: Seq<char>) -> Seq<char> {
    kind + " '"@ + name + "' has the same name as a "@ + other
}

/// Message of the error for the name of a type that nothing defines.
pub open spec fn unknown_type_message(name: Seq<char>) -> Seq<char> {
    "Unknown type '"@ + name + "'"@
}

/// Message of the error for a list that is no definition of any kind.
pub open spec fn unrecognized_message(list: ListView) -> Seq<char> {
    "Expected enum, fn or struct, got '"@ + list.text() + "'"@
}

impl EnvironmentView {
    /// The environment without any definition.
    pub open spec fn empty() -> EnvironmentView {
        EnvironmentView {
            structs: Seq::empty(),
            enums: Seq::empty(),
            functions: Seq::empty(),
            outputs: Seq::empty(),
        }
    }

    /// Whether `name` is the name of a struct or of an enum.
    pub open spec fn defines(self, name: Seq<char>) -> bool {
        has_struct(self.structs, name) || has_enum(self.enums, name)
    }

    /// The error for the first struct, from `from` on, that shares its
    /// name with an enum or, failing that, with a function.
    pub open spec fn struct_clash(self, from: int) -> Option<ErrorView>
        decreases self.structs.len() - from,
    {
        if from < 0 || from >= self.structs.len() {
            None
        } else {
            let s = self.structs[from];
            if has_enum(self.enums, s.name) {
                Some(
                    ErrorView {
                        message: clash_message("Struct"@, s.name, "enum"@),
                        location: s.location,
                    },
                )
            } else if has_function(self.functions, s.name) {
                Some(
                    ErrorView {
                        message: clash_message("Struct"@, s.name, "function"@),
                        location: s.location,
                    },
                )
            } else {
                self.struct_clash(from + 1)
            }
        }
    }

    /// The error for the first enum, from `from` on, that shares its name
    /// with a struct or, failing that, with a function.
    pub open spec fn enum_clash(self, from: int) -> Option<ErrorView>
        decreases self.enums.len() - from,
    {
        if from < 0 || from >= self.enums.len() {
            None
        } else {
            let e = self.enums[from];
            if has_struct(self.structs, e.name) {
                Some(
                    ErrorView {
                        message: clash_message("Enum"@, e.name, "struct"@),
                        location: e.location,
                    },
                )
            } else if has_function(self.functions, e.name) {
                Some(
                    ErrorView {
                        message: clash_message("Enum"@, e.name, "function"@),
                        location: e.location,
                    },
                )
            } else {
                self.enum_clash(from + 1)
            }
        }
    }

    /// The error for the first name that two kinds share: structs are
    /// looked at first, then enums.
    pub open spec fn name_clash(self) -> Option<ErrorView> {
        match self.struct_clash(0) {
            Some(e) => Some(e),
            None => self.enum_clash(0),
        }
    }

    /// Every type that the definitions mention: those of the structs, then
    /// of the enums, then of the functions.
    pub open spec fn related_types(self) -> Seq<(LocationView, TypeView)> {
        structs_related_types(self.structs, self.structs.len() as int) + enums_related_types(
            self.enums,
            self.enums.len() as int,
        ) + free_functions_related_types(self.functions, self.functions.len() as int)
    }

    /// Whether the type, under its lists, is a name that nothing defines.
    pub open spec fn unresolved(self, type_: TypeView) -> bool {
        type_.inner() is Identifier && !self.defines(type_.inner()->Identifier_0)
    }

    /// The error for the first of `types`, from `from` on, that is unresolved.
    pub open spec fn first_unknown(self, types: Seq<(LocationView, TypeView)>, from: int) -> Option<
        ErrorView,
    >
        decreases types.len() - from,
    {
        if from < 0 || from >= types.len() {
            None
        } else if self.unresolved(types[from].1) {
            Some(
                ErrorView {
                    message: unknown_type_message(types[from].1.inner()->Identifier_0),
                    location: types[from].0,
                },
            )
        } else {
            self.first_unknown(types, from + 1)
        }
    }

    /// The error for the first mentioned type that names no definition.
    pub open spec fn unknown_type(self) -> Option<ErrorView> {
        self.first_unknown(self.related_types(), 0)
    }

    /// No name is shared by a struct and an enum, nor by either and a function.
    pub open spec fn names_apart(self) -> bool {
        &&& forall|i: int|
            0 <= i < self.structs.len() ==> !has_enum(self.enums, (#[trigger] self.structs[i]).name)
                && !has_function(self.functions, self.structs[i].name)
        &&& forall|i: int|
            0 <= i < self.enums.len() ==> !has_struct(
                self.structs,
                (#[trigger] self.enums[i]).name,
            ) && !has_function(self.functions, self.enums[i].name)
    }

    /// Every mentioned type that is a name, under its lists, names a
    /// struct or an enum.
    pub open spec fn resolved(self) -> bool {
        forall|i: int|
            0 <= i < self.related_types().len() ==> !self.unresolved(
                (#[trigger] self.related_types()[i]).1,
            )
    }

    /// No two definitions of one kind have the same name, and every
    /// definition is well formed.
    pub open spec fn well_formed(self) -> bool {
        &&& forall|i: int, j: int|
            0 <= i < j < self.structs.len() ==> (#[trigger] self.structs[i]).name != (
            #[trigger] self.structs[j]).name
        &&& forall|i: int, j: int|
            0 <= i < j < self.enums.len() ==> (#[trigger] self.enums[i]).name != (
            #[trigger] self.enums[j]).name
        &&& distinct_functions(self.functions)
        &&& forall|i: int| 0 <= i < self.structs.len() ==> (#[trigger] self.structs[i]).well_formed()
        &&& forall|i: int| 0 <= i < self.enums.len() ==> (#[trigger] self.enums[i]).well_formed()
        &&& forall|i: int|
            0 <= i < self.functions.len() ==> (#[trigger] self.functions[i]).well_formed()
    }

    /// What holds of every environment that is built: it is well formed,
    /// no name is shared between kinds, and every type resolves.
    pub open spec fn valid(self) -> bool {
        self.well_formed() && self.names_apart() && self.resolved()
    }

    /// What adding a definition gives: the environment with the definition
    /// at the end of its kind, or the error for a name that the kind has already.
    pub open spec fn added(self, definition: DefinitionView) -> Result<EnvironmentView, ErrorView> {
        match definition {
            DefinitionView::Empty => Ok(self),
            DefinitionView::Output(o) => Ok(
                EnvironmentView { outputs: self.outputs.push(o), ..self },
            ),
            DefinitionView::Enum(e) => if has_enum(self.enums, e.name) {
                Err(ErrorView { message: duplicate_message("enum"@, e.name), location: e.location })
            } else {
                Ok(EnvironmentView { enums: self.enums.push(e), ..self })
            },
            DefinitionView::Struct(s) => if has_struct(self.structs, s.name) {
                Err(
                    ErrorView {
                        message: duplicate_message("struct"@, s.name),
                        location: s.location,
                    },
                )
            } else {
                Ok(EnvironmentView { structs: self.structs.push(s), ..self })
            },
            DefinitionView::Function(f) => if has_function(self.functions, f.name) {
                Err(
                    ErrorView {
                        message: duplicate_message("function"@, f.name),
                        location: f.location,
                    },
                )
            } else {
                Ok(EnvironmentView { functions: self.functions.push(f), ..self })
            },
        }
    }
}

/// What reading one top-level list gives. An empty list is nothing. Any
/// other list is read as the first kind whose keyword it starts with
/// (struct, enum, function, output, in this order) and fails where that
/// kind fails; a list that starts with none of them is refused.
pub open spec fn definition_parsed(list: ListView) -> Result<DefinitionView, ErrorView> {
    if list.items.len() == 0 {
        Ok(DefinitionView::Empty)
    } else if can_attempt(list, Struct::keyword()) {
        match parsed::<Struct>(list) {
            Ok(s) => Ok(DefinitionView::Struct(s)),
            Err(e) => Err(e),
        }
    } else if can_attempt(list, Enum::keyword()) {
        match parsed::<Enum>(list) {
            Ok(e) => Ok(DefinitionView::Enum(e)),
            Err(e) => Err(e),
        }
    } else if can_attempt(list, Function::keyword()) {
        match parsed::<Function>(list) {
            Ok(f) => Ok(DefinitionView::Function(f)),
            Err(e) => Err(e),
        }
    } else if can_attempt(list, Output::keyword()) {
        match parsed::<Output>(list) {
            Ok(o) => Ok(DefinitionView::Output(o)),
            Err(e) => Err(e),
        }
    } else {
        Err(ErrorView { message: unrecognized_message(list), location: list.location })
    }
}

/// What reading the lists from `from` on and adding each definition to
/// `env` gives, or the first error.
pub open spec fn collected(lists: Seq<ListView>, from: int, env: EnvironmentView) -> Result<
    EnvironmentView,
    ErrorView,
>
    decreases lists.len() - from,
{
    if from < 0 || from >= lists.len() {
        Ok(env)
    } else {
        match definition_parsed(lists[from]) {
            Err(e) => Err(e),
            Ok(definition) => match env.added(definition) {
                Err(e) => Err(e),
                Ok(more) => collected(lists, from + 1, more),
            },
        }
    }
}

/// The environment that the lists define, or the first error: of reading
/// and collecting, else of a name shared between kinds, else of a type
/// that names no definition.
pub open spec fn environment_parsed(lists: Seq<ListView>) -> Result<EnvironmentView, ErrorView> {
    match collected(lists, 0, EnvironmentView::empty()) {
        Err(e) => Err(e),
        Ok(env) => match env.name_clash() {
            Some(e) => Err(e),
            None => match env.unknown_type() {
                Some(e) => Err(e),
                None => Ok(env),
            },
        },
    }
}

/// Reads one top-level list.
pub fn parse_list(list: List) -> (r: Result<Definition, Error>)
    ensures
        match r {
            Ok(definition) => definition_parsed(list@) == Ok::<_, ErrorView>(definition@),
            Err(e) => definition_parsed(list@) == Err::<DefinitionView, _>(e@),
        },
{
    if list.is_empty() {
        return Ok(Definition::Empty);
    }
    if Struct::can_try(&list) {
        let s = Struct::from_lisp(list)?;
        return Ok(Definition::Struct(s));
    }
    if Enum::can_try(&list) {
        let e = Enum::from_lisp(list)?;
        return Ok(Definition::Enum(e));
    }
    if Function::can_try(&list) {
        let f = Function::from_lisp(list)?;
        return Ok(Definition::Function(f));
    }
    if Output::can_try(&list) {
        let o = Output::from_lisp(list)?;
        return Ok(Definition::Output(o));
    }
    let mut message = String::from_str("Expected enum, fn or struct, got '");
    let text = list.render();
    message.append(text.as_str());
    message.append("'");
    Err(Error { message, location: list.location() })
}

/// Whether one of `structs` is called `name`.
pub fn contains_struct(structs: &Vec<Struct>, name: &str) -> (r: bool)
    ensures
        r == has_struct(structs_view(structs@), name@),
{
    let mut i: usize = 0;
    while i < structs.len()
        invariant
            i <= structs.len(),
            forall|k: int| 0 <= k < i ==> (#[trigger] structs_view(structs@)[k]).name != name@,
        decreases structs.len() - i,
    {
        if same_text(structs[i].name.as_str(), name) {
            assert(structs_view(structs@)[i as int].name == name@);
            return true;
        }
        i += 1;
    }
    false
}

/// Whether one of `enums` is called `name`.
pub fn contains_enum(enums: &Vec<Enum>, name: &str) -> (r: bool)
    ensures
        r == has_enum(enums_view(enums@), name@),
{
    let mut i: usize = 0;
    while i < enums.len()
        invariant
            i <= enums.len(),
            forall|k: int| 0 <= k < i ==> (#[trigger] enums_view(enums@)[k]).name != name@,
        decreases enums.len() - i,
    {
        if same_text(enums[i].name.as_str(), name) {
            assert(enums_view(enums@)[i as int].name == name@);
            return true;
        }
        i += 1;
    }
    false
}

/// The error for a `kind` called `name` that shares its name with an `other`.
fn clash(kind: &str, name: &str, other: &str, location: Location) -> (r: Error)
    ensures
        r@ == (ErrorView { message: clash_message(kind@, name@, other@), location: location@ }),
{
    let mut message = String::from_str(kind);
    message.append(" '");
    message.append(name);
    message.append("' has the same name as a ");
    message.append(other);
    Error { message, location }
}

impl Environment {
    /// The environment without any definition.
    pub fn new() -> (r: Environment)
        ensures
            r@ == EnvironmentView::empty(),
    {
        let r = Environment {
            structs: Vec::new(),
            enums: Vec::new(),
            functions: Vec::new(),
            outputs: Vec::new(),
        };
        assert(r@.structs =~= Seq::empty());
        assert(r@.enums =~= Seq::empty());
        assert(r@.functions =~= Seq::empty());
        assert(r@.outputs =~= Seq::empty());
        r
    }

    /// Adds a definition at the end of its kind, unless the kind has one
    /// of that name already.
    pub fn add(&mut self, definition: Definition) -> (r: Result<(), Error>)
        ensures
            match r {
                Ok(()) => old(self)@.added(definition@) == Ok::<_, ErrorView>(final(self)@),
                Err(e) => old(self)@.added(definition@) == Err::<EnvironmentView, _>(e@)
                    && final(self)@ == old(self)@,
            },
    {
        match definition {
            Definition::Empty => {},
            Definition::Output(output) => {
                self.outputs.push(output);
                assert(self@.outputs =~= old(self)@.outputs.push(output@));
            },
            Definition::Enum(enum_) => {
                if contains_enum(&self.enums, enum_.name.as_str()) {
                    return Err(duplicate("enum", enum_.name.as_str(), enum_.location.clone()));
                }
                self.enums.push(enum_);
                assert(self@.enums =~= old(self)@.enums.push(enum_@));
            },
            Definition::Struct(struct_) => {
                if contains_struct(&self.structs, struct_.name.as_str()) {
                    return Err(
                        duplicate("struct", struct_.name.as_str(), struct_.location.clone()),
                    );
                }
                self.structs.push(struct_);
                assert(self@.structs =~= old(self)@.structs.push(struct_@));
            },
            Definition::Function(function) => {
                if contains_function(&self.functions, function.name.as_str()) {
                    return Err(
                        duplicate("function", function.name.as_str(), function.location.clone()),
                    );
                }
                self.functions.push(function);
                assert(self@.functions =~= old(self)@.functions.push(function@));
            },
        }
        Ok(())
    }

    /// Fails on the first name that two kinds share.
    #[verifier::loop_isolation(false)]
    pub fn validate_no_duplicate_names(&self) -> (r: Result<(), Error>)
        ensures
            match r {
                Ok(()) => self@.name_clash() is None,
                Err(e) => self@.name_clash() == Some(e@),
            },
    {
        // Validate structs against other things
        let mut i: usize = 0;
        while i < self.structs.len()
            invariant
                i <= self.structs.len(),
                self@.struct_clash(0) == self@.struct_clash(i as int),
            decreases self.structs.len() - i,
        {
            let value = &self.structs[i];
            assert(self@.structs[i as int] == value@);
            if contains_enum(&self.enums, value.name.as_str()) {
                return Err(clash("Struct", value.name.as_str(), "enum", value.location.clone()));
            }
            if contains_function(&self.functions, value.name.as_str()) {
                return Err(
                    clash("Struct", value.name.as_str(), "function", value.location.clone()),
                );
            }
            i += 1;
        }

        // Validate enums against other things
        let mut k: usize = 0;
        while k < self.enums.len()
            invariant
                k <= self.enums.len(),
                self@.enum_clash(0) == self@.enum_clash(k as int),
            decreases self.enums.len() - k,
        {
            let value = &self.enums[k];
            assert(self@.enums[k as int] == value@);
            if contains_struct(&self.structs, value.name.as_str()) {
                return Err(clash("Enum", value.name.as_str(), "struct", value.location.clone()));
            }
            if contains_function(&self.functions, value.name.as_str()) {
                return Err(
                    clash("Enum", value.name.as_str(), "function", value.location.clone()),
                );
            }
            k += 1;
        }

        Ok(())
    }

    /// Every type that the definitions mention, each with the place it is
    /// written at: those of the structs, then of the enums, then of the functions.
    #[verifier::loop_isolation(false)]
    pub fn get_related_types(&self) -> (r: Vec<(Location, Type)>)
        ensures
            located_types_view(r@) == self@.related_types(),
    {
        let mut types: Vec<(Location, Type)> = Vec::new();
        assert(located_types_view(types@) =~= Seq::empty());
        let mut i: usize = 0;
        while i < self.structs.len()
            invariant
                i <= self.structs.len(),
                located_types_view(types@) == structs_related_types(self@.structs, i as int),
            decreases self.structs.len() - i,
        {
            let mut more = self.structs[i].get_related_types();
            let ghost before = located_types_view(types@);
            let ghost added = located_types_view(more@);
            types.append(&mut more);
            assert(located_types_view(types@) =~= before + added);
            assert(self@.structs[i as int] == self.structs[i as int]@);
            i += 1;
        }
        let ghost of_structs = located_types_view(types@);
        let mut i: usize = 0;
        assert(of_structs + Seq::empty() =~= of_structs);
        while i < self.enums.len()
            invariant
                i <= self.enums.len(),
                located_types_view(types@) == of_structs + enums_related_types(
                    self@.enums,
                    i as int,
                ),
            decreases self.enums.len() - i,
        {
            let mut more = self.enums[i].get_related_types();
            let ghost before = located_types_view(types@);
            let ghost added = located_types_view(more@);
            types.append(&mut more);
            assert(located_types_view(types@) =~= before + added);
            assert(self@.enums[i as int] == self.enums[i as int]@);
            assert(before + added =~= of_structs + enums_related_types(self@.enums, i + 1));
            i += 1;
        }
        let ghost of_enums = located_types_view(types@);
        let mut i: usize = 0;
        assert(of_enums + Seq::empty() =~= of_enums);
        while i < self.functions.len()
            invariant
                i <= self.functions.len(),
                located_types_view(types@) == of_enums + free_functions_related_types(
                    self@.functions,
                    i as int,
                ),
            decreases self.functions.len() - i,
        {
            let mut more = self.functions[i].get_related_types();
            let ghost before = located_types_view(types@);
            let ghost added = located_types_view(more@);
            types.append(&mut more);
            assert(located_types_view(types@) =~= before + added);
            assert(self@.functions[i as int] == self.functions[i as int]@);
            assert(before + added =~= of_enums + free_functions_related_types(
                self@.functions,
                i + 1,
            ));
            i += 1;
        }
        types
    }

    /// Fails on the first mentioned type that names no definition.
    #[verifier::loop_isolation(false)]
    pub fn validate_identifier_types(&self) -> (r: Result<(), Error>)
        ensures
            match r {
                Ok(()) => self@.unknown_type() is None,
                Err(e) => self@.unknown_type() == Some(e@),
            },
    {
        let types = self.get_related_types();
        let ghost all = self@.related_types();
        let mut i: usize = 0;
        while i < types.len()
            invariant
                i <= types.len(),
                located_types_view(types@) == all,
                self@.first_unknown(all, 0) == self@.first_unknown(all, i as int),
            decreases types.len() - i,
        {
            assert(all[i as int] == (types@[i as int].0@, types@[i as int].1@));
            match types[i].1.inner_type() {
                Type::Identifier(name) => {
                    if !contains_struct(&self.structs, name.as_str()) && !contains_enum(
                        &self.enums,
                        name.as_str(),
                    ) {
                        let mut message = String::from_str("Unknown type '");
                        message.append(name.as_str());
                        message.append("'");
                        return Err(Error { message, location: types[i].0.clone() });
                    }
                },
                _ => {},
            }
            i += 1;
        }
        Ok(())
    }

    /// Builds the environment that the lists define. What is built is valid.
    pub fn parse(lists: Vec<List>) -> (r: Result<Self, Error>)
        ensures
            match r {
                Ok(env) => environment_parsed(lists_view(lists@)) == Ok::<_, ErrorView>(env@)
                    && env@.valid(),
                Err(e) => environment_parsed(lists_view(lists@)) == Err::<EnvironmentView, _>(e@),
            },
    {
        parse(lists)
    }
}

/// Builds the environment that the lists define: reads each list in
/// order, collects the definitions, then checks the whole. What is built
/// is valid.
#[verifier::loop_isolation(false)]
pub fn parse(lists: Vec<List>) -> (r: Result<Environment, Error>)
    ensures
        match r {
            Ok(env) => environment_parsed(lists_view(lists@)) == Ok::<_, ErrorView>(env@)
                && env@.valid(),
            Err(e) => environment_parsed(lists_view(lists@)) == Err::<EnvironmentView, _>(e@),
        },
{
    let ghost all = lists_view(lists@);
    let mut rest = lists;
    let mut env = Environment::new();
    let ghost mut done: int = 0;
    while rest.len() > 0
        invariant
            0 <= done <= all.len(),
            lists_view(rest@) == all.skip(done),
            collected(all, 0, EnvironmentView::empty()) == collected(all, done, env@),
        decreases rest.len(),
    {
        let ghost before = lists_view(rest@);
        let list = rest.remove(0);
        assert(lists_view(rest@) =~= before.skip(1));
        assert(before[0] == list@);
        assert(all.skip(done).skip(1) =~= all.skip(done + 1));
        assert(all[done] == all.skip(done)[0]);
        let definition = parse_list(list)?;
        env.add(definition)?;
        proof {
            done = done + 1;
        }
    }

    env.validate_no_duplicate_names()?;
    env.validate_identifier_types()?;

    proof {
        lemma_environment_parsed_valid(all);
    }
    Ok(env)
}

/// A definition that is read is well formed.
pub proof fn lemma_definition_parsed_well_formed(list: ListView)
    requires
        definition_parsed(list) is Ok,
    ensures
        match definition_parsed(list)->Ok_0 {
            DefinitionView::Struct(s) => s.well_formed(),
            DefinitionView::Enum(e) => e.well_formed(),
            DefinitionView::Function(f) => f.well_formed(),
            _ => true,
        },
{
    if list.items.len() > 0 {
        if can_attempt(list, Struct::keyword()) {
            lemma_struct_parsed_well_formed(list.rest());
        } else if can_attempt(list, Enum::keyword()) {
            lemma_enum_parsed_well_formed(list.rest());
        } else if can_attempt(list, Function::keyword()) {
            lemma_function_parsed_well_formed(list.rest());
        }
    }
}

/// Collecting definitions keeps an environment well formed.
pub proof fn lemma_collected_well_formed(lists: Seq<ListView>, from: int, env: EnvironmentView)
    requires
        0 <= from,
        env.well_formed(),
        collected(lists, from, env) is Ok,
    ensures
        collected(lists, from, env)->Ok_0.well_formed(),
    decreases lists.len() - from,
{
    if from < lists.len() {
        lemma_definition_parsed_well_formed(lists[from]);
        let definition = definition_parsed(lists[from])->Ok_0;
        let more = env.added(definition)->Ok_0;
        lemma_collected_well_formed(lists, from + 1, more);
    }
}

/// Where no struct from `from` on shares its name, none of them does
/// with an enum or a function.
pub proof fn lemma_no_struct_clash(env: EnvironmentView, from: int)
    requires
        0 <= from,
        env.struct_clash(from) is None,
    ensures
        forall|i: int|
            from <= i < env.structs.len() ==> !has_enum(env.enums, (#[trigger] env.structs[i]).name)
                && !has_function(env.functions, env.structs[i].name),
    decreases env.structs.len() - from,
{
    if from < env.structs.len() {
        lemma_no_struct_clash(env, from + 1);
    }
}

/// Where no enum from `from` on shares its name, none of them does with
/// a struct or a function.
pub proof fn lemma_no_enum_clash(env: EnvironmentView, from: int)
    requires
        0 <= from,
        env.enum_clash(from) is None,
    ensures
        forall|i: int|
            from <= i < env.enums.len() ==> !has_struct(
                env.structs,
                (#[trigger] env.enums[i]).name,
            ) && !has_function(env.functions, env.enums[i].name),
    decreases env.enums.len() - from,
{
    if from < env.enums.len() {
        lemma_no_enum_clash(env, from + 1);
    }
}

/// Where none of `types` from `from` on is unknown, each of them resolves.
pub proof fn lemma_none_unknown(
    env: EnvironmentView,
    types: Seq<(LocationView, TypeView)>,
    from: int,
)
    requires
        0 <= from,
        env.first_unknown(types, from) is None,
    ensures
        forall|i: int| from <= i < types.len() ==> !env.unresolved((#[trigger] types[i]).1),
    decreases types.len() - from,
{
    if from < types.len() {
        lemma_none_unknown(env, types, from + 1);
    }
}

/// Every environment that is built is valid: its definitions are well
/// formed and named apart within their kind, no name is shared by a struct
/// and an enum nor by either and a function, and every type that is
/// mentioned by name, under its lists, names a struct or an enum.
pub proof fn lemma_environment_parsed_valid(lists: Seq<ListView>)
    requires
        environment_parsed(lists) is Ok,
    ensures
        environment_parsed(lists)->Ok_0.valid(),
{
    let env = environment_parsed(lists)->Ok_0;
    lemma_collected_well_formed(lists, 0, EnvironmentView::empty());
    lemma_no_struct_clash(env, 0);
    lemma_no_enum_clash(env, 0);
    lemma_none_unknown(env, env.related_types(), 0);
}

} // verus!
