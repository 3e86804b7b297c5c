//! The C++ backend: the text of every class, method and function that
//! an environment gives rise to.

use crate::compiler::order::{
    depends_on, emission_order, has_cycle, lemma_emitted_after_dependencies,
    lemma_ordered_iff_no_cycle, order_structs, positions,
};
use crate::compiler::{compile_identifier, identifier_text};
use crate::definition::field::{Field, FieldView};
use crate::definition::function::{Function, FunctionView, ParameterView};
use crate::definition::struct_::{Struct, StructView};
use crate::definition::type_::{Type, TypeView};
use crate::definition::{located_types_view, FromLisp};
use crate::env::{Environment, EnvironmentView};
use crate::lisp::{Error, ErrorView, Location, LocationView};
use crate::text::{
    chars_of, contains, first_line, first_line_of, has_prefix, join, joined, lemma_first_line_splits,
    lemma_occurs_in_appended, lemma_occurs_in_extended, lemma_prefix_occurs,
    lemma_replaced_keeps_first, lemma_replaced_splits, occurs_in, push_text, replace_all,
    replaced, sort_unique, sorted_unique, strings_view,
};
use vstd::prelude::*;

verus! {

/// How a type is passed or held in C++.
#[derive(Debug)]
pub enum TypeReference {
    Reference(Type),
    ConstReference(Type),
    Pointer(Type),
    Value(Type),
}

/// What a [`TypeReference`] stands for.
pub enum TypeReferenceView {
    Reference(TypeView),
    ConstReference(TypeView),
    Pointer(TypeView),
    Value(TypeView),
}

impl View for TypeReference {
    type V = TypeReferenceView;

    open spec fn view(&self) -> TypeReferenceView {
        match self {
            TypeReference::Reference(t) => TypeReferenceView::Reference(t@),
            TypeReference::ConstReference(t) => TypeReferenceView::ConstReference(t@),
            TypeReference::Pointer(t) => TypeReferenceView::Pointer(t@),
            TypeReference::Value(t) => TypeReferenceView::Value(t@),
        }
    }
}

impl Clone for TypeReference {
    fn clone(&self) -> (r: Self)
        ensures
            r@ == self@,
    {
        match self {
            TypeReference::Reference(t) => TypeReference::Reference(t.clone()),
            TypeReference::ConstReference(t) => TypeReference::ConstReference(t.clone()),
            TypeReference::Pointer(t) => TypeReference::Pointer(t.clone()),
            TypeReference::Value(t) => TypeReference::Value(t.clone()),
        }
    }
}

/// The declaration of a method for the header and its definition for
/// the implementation file.
#[derive(Debug)]
pub struct ClassMethod {
    pub header_declaration: String,
    pub implementation: String,
}

/// What a [`ClassMethod`] stands for.
pub struct ClassMethodView {
    pub header_declaration: Seq<char>,
    pub implementation: Seq<char>,
}

impl View for ClassMethod {
    type V = ClassMethodView;

    open spec fn view(&self) -> ClassMethodView {
        ClassMethodView {
            header_declaration: self.header_declaration@,
            implementation: self.implementation@,
        }
    }
}

/// A member function that is written by hand: the first line of its
/// definition, by which it is found again, and the definition to start from.
#[derive(Debug)]
pub struct CustomMethod {
    pub function_definition: String,
    pub implementation: String,
}

/// What a [`CustomMethod`] stands for.
pub struct CustomMethodView {
    pub function_definition: Seq<char>,
    pub implementation: Seq<char>,
}

impl View for CustomMethod {
    type V = CustomMethodView;

    open spec fn view(&self) -> CustomMethodView {
        CustomMethodView {
            function_definition: self.function_definition@,
            implementation: self.implementation@,
        }
    }
}

/// The models of a run of custom methods, in order.
pub open spec fn custom_methods_view(methods: Seq<CustomMethod>) -> Seq<CustomMethodView> {
    methods.map_values(|m: CustomMethod| m@)
}

/// The text of a class: its definition for the header, the definitions of
/// its generated methods, and its methods that are written by hand.
#[derive(Debug)]
pub struct Class {
    pub header_definition: String,
    pub implementation: String,
    pub custom_methods: Vec<CustomMethod>,
}

/// What a [`Class`] stands for.
pub struct ClassView {
    pub header_definition: Seq<char>,
    pub implementation: Seq<char>,
    pub custom_methods: Seq<CustomMethodView>,
}

impl View for Class {
    type V = ClassView;

    open spec fn view(&self) -> ClassView {
        ClassView {
            header_definition: self.header_definition@,
            implementation: self.implementation@,
            custom_methods: custom_methods_view(self.custom_methods@),
        }
    }
}

/// The declaration of a free function and its definition.
#[derive(Debug)]
pub struct CppFunction {
    pub header_declaration: String,
    pub implementation: String,
}

/// What a [`CppFunction`] stands for.
pub struct CppFunctionView {
    pub header_declaration: Seq<char>,
    pub implementation: Seq<char>,
}

impl View for CppFunction {
    type V = CppFunctionView;

    open spec fn view(&self) -> CppFunctionView {
        CppFunctionView {
            header_declaration: self.header_declaration@,
            implementation: self.implementation@,
        }
    }
}

/// `s` without its `*`.
pub open spec fn without_stars(s: Seq<char>) -> Seq<char> {
    replaced(s, "*"@, ""@)
}

/// The C++ type for a type of the definition language.
pub open spec fn cpp_type(t: TypeView) -> Seq<char>
    decreases t,
{
    match t {
        TypeView::I8 => "int8_t"@,
        TypeView::I16 => "int16_t"@,
        TypeView::I32 => "int32_t"@,
        TypeView::I64 => "int64_t"@,
        TypeView::U8 => "uint8_t"@,
        TypeView::U16 => "uint16_t"@,
        TypeView::U32 => "uint32_t"@,
        TypeView::U64 => "uint64_t"@,
        TypeView::Bool => "bool"@,
        TypeView::String => "std::string"@,
        TypeView::Float => "float"@,
        TypeView::Void => "void"@,
        TypeView::Identifier(i) => identifier_text(i),
        TypeView::List(inner) => "std::vector<"@ + without_stars(cpp_type(*inner)) + ">"@,
    }
}

/// The C++ expression for the default value of a type: zero, false, or
/// an empty string, value or list.
pub open spec fn type_default(t: TypeView) -> Seq<char> {
    match t {
        TypeView::I8 => "0"@,
        TypeView::I16 => "0"@,
        TypeView::I32 => "0"@,
        TypeView::I64 => "0"@,
        TypeView::U8 => "0"@,
        TypeView::U16 => "0"@,
        TypeView::U32 => "0"@,
        TypeView::U64 => "0"@,
        TypeView::Bool => "false"@,
        TypeView::String => "std::string()"@,
        TypeView::Float => "0.0"@,
        TypeView::Void => "()"@,
        TypeView::Identifier(i) => identifier_text(i) + "()"@,
        TypeView::List(inner) => "std::vector<"@ + without_stars(cpp_type(*inner)) + ">()"@,
    }
}

/// The include lines that a type asks for: the vector header for each
/// layer of list, then the header of what the lists hold.
pub open spec fn type_includes(t: TypeView) -> Seq<Seq<char>>
    decreases t,
{
    match t {
        TypeView::List(inner) => seq!["#include <vector>"@] + type_includes(*inner),
        TypeView::Identifier(i) => seq!["#include \""@ + identifier_text(i) + ".hpp\""@],
        TypeView::I8 | TypeView::I16 | TypeView::I32 | TypeView::I64 | TypeView::U8
        | TypeView::U16 | TypeView::U32 | TypeView::U64 => seq!["#include <stdint.h>"@],
        TypeView::String => seq!["#include <string>"@],
        TypeView::Float | TypeView::Bool | TypeView::Void => Seq::empty(),
    }
}

/// The C++ text of a type that is passed or held in the given way.
pub open spec fn reference_text(r: TypeReferenceView) -> Seq<char> {
    match r {
        TypeReferenceView::Reference(t) => cpp_type(t) + "&"@,
        TypeReferenceView::ConstReference(t) => "const "@ + cpp_type(t) + "&"@,
        TypeReferenceView::Pointer(t) => cpp_type(t) + "*"@,
        TypeReferenceView::Value(t) => cpp_type(t),
    }
}

/// The C++ expression that a member of the given kind starts out as: a
/// pointer owns a new default value, a value is the default of its type.
pub open spec fn initial_value(r: TypeReferenceView) -> Seq<char> {
    match r {
        TypeReferenceView::Reference(_) => "TODO"@,
        TypeReferenceView::ConstReference(_) => "TODO"@,
        TypeReferenceView::Pointer(t) => "new "@ + without_stars(cpp_type(t)) + "()"@,
        TypeReferenceView::Value(t) => type_default(t),
    }
}

/// How a struct holds a field: through an owning pointer where the
/// field's type is the name of a definition, by value otherwise.
pub open spec fn field_reference(f: FieldView) -> TypeReferenceView {
    if f.type_ is Identifier {
        TypeReferenceView::Pointer(f.type_)
    } else {
        TypeReferenceView::Value(f.type_)
    }
}

/// The models of a run of named references, in order.
pub open spec fn references_view(parameters: Seq<(String, TypeReference)>) -> Seq<
    (Seq<char>, TypeReferenceView),
> {
    parameters.map_values(|p: (String, TypeReference)| (p.0@, p.1@))
}

/// The C++ text of each parameter: its type, a space, its name.
pub open spec fn parameter_texts(parameters: Seq<(Seq<char>, TypeReferenceView)>) -> Seq<
    Seq<char>,
> {
    Seq::new(
        parameters.len(),
        |i: int| reference_text(parameters[i].1) + " "@ + identifier_text(parameters[i].0),
    )
}

/// The parameters in parentheses, separated by commas.
pub open spec fn parameter_list(parameters: Seq<(Seq<char>, TypeReferenceView)>) -> Seq<char> {
    "("@ + joined(parameter_texts(parameters), ", "@) + ")"@
}

/// The text before the name of a method: its return type and a space,
/// or nothing for constructors and destructors.
pub open spec fn return_text(return_type: Option<TypeReferenceView>) -> Seq<char> {
    match return_type {
        Some(t) => reference_text(t) + " "@,
        None => ""@,
    }
}

/// `text` where `wanted`, nothing otherwise.
pub open spec fn when(wanted: bool, text: Seq<char>) -> Seq<char> {
    if wanted {
        text
    } else {
        ""@
    }
}

/// The declaration and the definition of a method of `class` called
/// `name`, with the given parameters, return type and body.
pub open spec fn class_method(
    name: Seq<char>,
    class: Seq<char>,
    parameters: Seq<(Seq<char>, TypeReferenceView)>,
    return_type: Option<TypeReferenceView>,
    code: Seq<char>,
    is_const: bool,
    inline: bool,
    add_constructor: bool,
) -> ClassMethodView {
    let name = identifier_text(name);
    let class = identifier_text(class);
    let before = return_text(return_type);
    let params = parameter_list(parameters);
    ClassMethodView {
        header_declaration: "\t"@ + before + name + params + when(is_const, " const"@) + ";\n"@,
        implementation: when(inline, "inline "@) + before + class + "::"@ + name + params + when(
            is_const,
            " const"@,
        ) + when(add_constructor, ":"@ + name + "()"@) + "\n{\n"@ + code + "}\n"@,
    }
}

/// A copy of the type.
fn copy_of(t: &Type) -> (r: Type)
    ensures
        r@ == t@,
{
    t.clone()
}

/// `s` without its `*`.
fn strip_stars(s: &str) -> (r: String)
    ensures
        r@ == without_stars(s@),
{
    replace_all(s, "*", "")
}

/// The C++ type for a type of the definition language.
pub fn compile_cpp_type(ty: &Type) -> (r: String)
    ensures
        r@ == cpp_type(ty@),
    decreases ty,
{
    match ty {
        Type::I8 => String::from_str("int8_t"),
        Type::I16 => String::from_str("int16_t"),
        Type::I32 => String::from_str("int32_t"),
        Type::I64 => String::from_str("int64_t"),
        Type::U8 => String::from_str("uint8_t"),
        Type::U16 => String::from_str("uint16_t"),
        Type::U32 => String::from_str("uint32_t"),
        Type::U64 => String::from_str("uint64_t"),
        Type::Bool => String::from_str("bool"),
        Type::String => String::from_str("std::string"),
        Type::Float => String::from_str("float"),
        Type::Void => String::from_str("void"),
        Type::Identifier(i) => compile_identifier(i.as_str()),
        Type::List(t) => {
            let inner = compile_cpp_type(t);
            let inner = strip_stars(inner.as_str());
            let mut out = String::from_str("std::vector<");
            out.append(inner.as_str());
            out.append(">");
            out
        },
    }
}

/// The C++ expression for the default value of a type.
pub fn get_type_default(ty: &Type) -> (r: String)
    ensures
        r@ == type_default(ty@),
{
    match ty {
        Type::I8 => String::from_str("0"),
        Type::I16 => String::from_str("0"),
        Type::I32 => String::from_str("0"),
        Type::I64 => String::from_str("0"),
        Type::U8 => String::from_str("0"),
        Type::U16 => String::from_str("0"),
        Type::U32 => String::from_str("0"),
        Type::U64 => String::from_str("0"),
        Type::Bool => String::from_str("false"),
        Type::String => String::from_str("std::string()"),
        Type::Float => String::from_str("0.0"),
        Type::Void => String::from_str("()"),
        Type::Identifier(i) => {
            let mut out = compile_identifier(i.as_str());
            out.append("()");
            out
        },
        Type::List(t) => {
            let inner = compile_cpp_type(t);
            let inner = strip_stars(inner.as_str());
            let mut out = String::from_str("std::vector<");
            out.append(inner.as_str());
            out.append(">()");
            out
        },
    }
}

/// The include lines that a type asks for.
pub fn get_type_includes(ty: &Type) -> (r: Vec<String>)
    ensures
        strings_view(r@) == type_includes(ty@),
    decreases ty,
{
    let mut includes: Vec<String> = Vec::new();
    assert(strings_view(includes@) =~= Seq::empty());
    match ty {
        Type::List(t) => {
            push_text(&mut includes, String::from_str("#include <vector>"));
            let mut inner = get_type_includes(t);
            let ghost before = strings_view(includes@);
            let ghost added = strings_view(inner@);
            includes.append(&mut inner);
            assert(strings_view(includes@) =~= before + added);
            assert(before =~= seq!["#include <vector>"@]);
        },
        Type::Identifier(i) => {
            let mut line = String::from_str("#include \"");
            let name = compile_identifier(i.as_str());
            line.append(name.as_str());
            line.append(".hpp\"");
            push_text(&mut includes, line);
            assert(strings_view(includes@) =~= seq![line@]);
        },
        Type::I8 | Type::I16 | Type::I32 | Type::I64 | Type::U8 | Type::U16 | Type::U32
        | Type::U64 => {
            push_text(&mut includes, String::from_str("#include <stdint.h>"));
            assert(strings_view(includes@) =~= seq!["#include <stdint.h>"@]);
        },
        Type::String => {
            push_text(&mut includes, String::from_str("#include <string>"));
            assert(strings_view(includes@) =~= seq!["#include <string>"@]);
        },
        Type::Float | Type::Bool | Type::Void => {},
    }
    includes
}

/// The C++ text of a type that is passed or held in the given way.
pub fn compile_type(value: TypeReference) -> (r: String)
    ensures
        r@ == reference_text(value@),
{
    match value {
        TypeReference::Reference(t) => {
            let mut out = compile_cpp_type(&t);
            out.append("&");
            out
        },
        TypeReference::ConstReference(t) => {
            let mut out = String::from_str("const ");
            let inner = compile_cpp_type(&t);
            out.append(inner.as_str());
            out.append("&");
            out
        },
        TypeReference::Pointer(t) => {
            let mut out = compile_cpp_type(&t);
            out.append("*");
            out
        },
        TypeReference::Value(t) => compile_cpp_type(&t),
    }
}

/// How a struct holds a field.
pub fn map_struct_field_type(field: &Field) -> (r: TypeReference)
    ensures
        r@ == field_reference(field@),
{
    if field.type_.is_identifier() {
        TypeReference::Pointer(copy_of(&field.type_))
    } else {
        TypeReference::Value(copy_of(&field.type_))
    }
}

/// The C++ expression that a member of the given kind starts out as.
pub fn init_type_value(ty: TypeReference) -> (r: String)
    ensures
        r@ == initial_value(ty@),
{
    match ty {
        TypeReference::Reference(_) => String::from_str("TODO"),
        TypeReference::ConstReference(_) => String::from_str("TODO"),
        TypeReference::Pointer(t) => {
            let inner = compile_cpp_type(&t);
            let inner = strip_stars(inner.as_str());
            let mut out = String::from_str("new ");
            out.append(inner.as_str());
            out.append("()");
            out
        },
        TypeReference::Value(t) => get_type_default(&t),
    }
}

/// The declaration and the definition of a method.
pub fn generate_class_method(
    name: &str,
    class: &str,
    parameters: Vec<(String, TypeReference)>,
    return_type: Option<TypeReference>,
    code: &str,
    is_const: bool,
    inline: bool,
    add_constructor: bool,
) -> (r: ClassMethod)
    ensures
        r@ == class_method(
            name@,
            class@,
            references_view(parameters@),
            match return_type {
                Some(t) => Some(t@),
                None => None,
            },
            code@,
            is_const,
            inline,
            add_constructor,
        ),
{
    let name = compile_identifier(name);
    let class = compile_identifier(class);

    let mut implementation = String::new();
    let mut header_declaration = String::new();

    let inline = if inline {
        "inline "
    } else {
        ""
    };
    let return_type = match return_type {
        Some(t) => {
            let mut out = compile_type(t);
            out.append(" ");
            out
        },
        None => String::from_str(""),
    };

    let ghost wanted = references_view(parameters@);
    let mut pieces: Vec<String> = Vec::new();
    assert(strings_view(pieces@) =~= parameter_texts(wanted).take(0));
    let mut i: usize = 0;
    while i < parameters.len()
        invariant
            i <= parameters.len(),
            wanted == references_view(parameters@),
            strings_view(pieces@) == parameter_texts(wanted).take(i as int),
        decreases parameters.len() - i,
    {
        let mut piece = compile_type(parameters[i].1.clone());
        piece.append(" ");
        let id = compile_identifier(parameters[i].0.as_str());
        piece.append(id.as_str());
        push_text(&mut pieces, piece);
        assert(strings_view(pieces@) =~= parameter_texts(wanted).take(i + 1));
        i += 1;
    }
    assert(parameter_texts(wanted).take(parameters.len() as int) =~= parameter_texts(wanted));
    let mut params = String::new();
    params.append("(");
    let list = join(&pieces, ", ");
    params.append(list.as_str());
    params.append(")");
    assert(params@ =~= parameter_list(wanted));

    header_declaration.append("\t");
    header_declaration.append(return_type.as_str());
    header_declaration.append(name.as_str());
    header_declaration.append(params.as_str());
    if is_const {
        header_declaration.append(" const");
    } else {
        header_declaration.append("");
    }
    header_declaration.append(";\n");

    implementation.append(inline);
    implementation.append(return_type.as_str());
    implementation.append(class.as_str());
    implementation.append("::");
    implementation.append(name.as_str());
    implementation.append(params.as_str());
    if is_const {
        implementation.append(" const");
    } else {
        implementation.append("");
    }
    if add_constructor {
        let mut call = String::from_str(":");
        call.append(name.as_str());
        call.append("()");
        implementation.append(call.as_str());
    } else {
        implementation.append("");
    }
    implementation.append("\n{\n");
    implementation.append(code);
    implementation.append("}\n");
    ClassMethod { header_declaration, implementation }
}

/// Generated code as it is written out: a space is put around the `:`
/// that follows a `)`, and the `&` and `*` of a type move to the name
/// that follows them.
pub open spec fn formatted(code: Seq<char>) -> Seq<char> {
    replaced(
        replaced(
            replaced(
                replaced(replaced(code, "):"@, ") : "@), "&&"@, "ANDAND"@),
                "& "@,
                " &"@,
            ),
            "* "@,
            " *"@,
        ),
        "ANDAND"@,
        "&&"@,
    )
}

/// Generated code as it is written out.
pub fn format_code(code: &str) -> (r: String)
    ensures
        r@ == formatted(code@),
{
    let a = replace_all(code, "):", ") : ");
    let b = replace_all(a.as_str(), "&&", "ANDAND");
    let c = replace_all(b.as_str(), "& ", " &");
    let d = replace_all(c.as_str(), "* ", " *");
    replace_all(d.as_str(), "ANDAND", "&&")
}

/// The placeholder body of a function that is yet to be written.
pub open spec fn placeholder() -> Seq<char> {
    "\t// TODO: Implement function\n"@
}

/// How a member function takes a parameter: by reference where its type
/// is the name of a definition, by value otherwise.
pub open spec fn parameter_reference(p: ParameterView) -> (Seq<char>, TypeReferenceView) {
    (
        p.name,
        if p.type_ is Identifier {
            TypeReferenceView::Reference(p.type_)
        } else {
            TypeReferenceView::Value(p.type_)
        },
    )
}

/// How a member function takes each of its parameters.
pub open spec fn parameter_references(parameters: Seq<ParameterView>) -> Seq<
    (Seq<char>, TypeReferenceView),
> {
    Seq::new(parameters.len(), |i: int| parameter_reference(parameters[i]))
}

/// The stub of a member function of `s`: it returns by value, or nothing
/// for `void`, and has the placeholder body.
pub open spec fn struct_fn(s: StructView, f: FunctionView) -> ClassMethodView {
    class_method(
        identifier_text(f.name),
        identifier_text(s.name),
        parameter_references(f.parameters),
        if f.return_type.1 is Void {
            None
        } else {
            Some(TypeReferenceView::Value(f.return_type.1))
        },
        placeholder(),
        false,
        false,
        false,
    )
}

/// One line of the default constructor for each field: the field set to
/// what it starts out as.
pub open spec fn constructor_lines(fields: Seq<FieldView>) -> Seq<Seq<char>> {
    Seq::new(
        fields.len(),
        |i: int|
            "\t"@ + identifier_text(fields[i].name) + " = "@ + initial_value(
                field_reference(fields[i]),
            ) + ";"@,
    )
}

/// The default constructor: every field set to zero, to empty, or to a
/// new default value that it owns.
pub open spec fn constructor(s: StructView) -> ClassMethodView {
    class_method(
        s.name,
        s.name,
        Seq::empty(),
        None,
        joined(constructor_lines(s.fields), "\n"@) + "\n"@,
        false,
        false,
        false,
    )
}

/// One line of the destructor for each field held through a pointer,
/// nothing for the others.
pub open spec fn destructor_lines(fields: Seq<FieldView>) -> Seq<Seq<char>> {
    Seq::new(
        fields.len(),
        |i: int|
            if field_reference(fields[i]) is Pointer {
                "\tdelete "@ + identifier_text(fields[i].name) + ";\n"@
            } else {
                ""@
            },
    )
}

/// The destructor: deletes every field held through a pointer.
pub open spec fn destructor(s: StructView) -> ClassMethodView {
    class_method(
        "~"@ + s.name,
        s.name,
        Seq::empty(),
        None,
        joined(destructor_lines(s.fields), ""@),
        false,
        false,
        false,
    )
}

/// One line of `copy_to` for each field: a field held through a pointer
/// copies itself into the other's, any other is assigned.
pub open spec fn copy_lines(fields: Seq<FieldView>) -> Seq<Seq<char>> {
    Seq::new(
        fields.len(),
        |i: int|
            if field_reference(fields[i]) is Pointer {
                "\t"@ + identifier_text(fields[i].name) + "->copy_to(*other."@ + identifier_text(
                    fields[i].name,
                ) + ");\n"@
            } else {
                "\tother."@ + identifier_text(fields[i].name) + " = "@ + identifier_text(
                    fields[i].name,
                ) + ";\n"@
            },
    )
}

/// The parameter `other` of the given kind, of the type of the struct.
pub open spec fn other_parameter(reference: TypeReferenceView) -> Seq<
    (Seq<char>, TypeReferenceView),
> {
    seq![("other"@, reference)]
}

/// `copy_to`: copies every field into another value of the struct.
pub open spec fn copy_to(s: StructView) -> ClassMethodView {
    class_method(
        "copy_to"@,
        s.name,
        other_parameter(TypeReferenceView::Reference(TypeView::Identifier(s.name))),
        Some(TypeReferenceView::Value(TypeView::Void)),
        joined(copy_lines(s.fields), ""@),
        true,
        false,
        false,
    )
}

/// The copy constructor: a default value that the other copies itself into.
pub open spec fn copy_constructor(s: StructView) -> ClassMethodView {
    class_method(
        s.name,
        s.name,
        other_parameter(TypeReferenceView::ConstReference(TypeView::Identifier(s.name))),
        None,
        "\tother.copy_to(*this);\n"@,
        false,
        false,
        true,
    )
}

/// `clone`: a new value that this one copies itself into.
pub open spec fn clone_method(s: StructView) -> ClassMethodView {
    class_method(
        "clone"@,
        s.name,
        Seq::empty(),
        Some(TypeReferenceView::Value(TypeView::Identifier(s.name))),
        "\t"@ + identifier_text(s.name) + " clone;\n"@ + "\tcopy_to(clone);\n"@
            + "\treturn clone;\n"@,
        true,
        false,
        false,
    )
}

/// One comparison for each field: a field held through a pointer is
/// compared by what it points to.
pub open spec fn equality_terms(fields: Seq<FieldView>) -> Seq<Seq<char>> {
    Seq::new(
        fields.len(),
        |i: int|
            when(field_reference(fields[i]) is Pointer, "*"@) + identifier_text(fields[i].name)
                + " == "@ + when(field_reference(fields[i]) is Pointer, "*"@) + "other."@
                + identifier_text(fields[i].name),
    )
}

/// The terms joined by `&&`; `true` where there is no term.
pub open spec fn conjunction(terms: Seq<Seq<char>>) -> Seq<char> {
    if terms.len() == 0 {
        "true"@
    } else {
        joined(terms, " && "@)
    }
}

/// `operator==`: every field equal. Two values of a struct without
/// fields are equal.
pub open spec fn equality_operator(s: StructView) -> ClassMethodView {
    class_method(
        "operator=="@,
        s.name,
        other_parameter(TypeReferenceView::ConstReference(TypeView::Identifier(s.name))),
        Some(TypeReferenceView::Value(TypeView::Bool)),
        "\treturn "@ + conjunction(equality_terms(s.fields)) + ";\n"@,
        true,
        false,
        false,
    )
}

/// `operator!=`: the opposite of what `operator==` says of the two values.
pub open spec fn inequality_operator(s: StructView) -> ClassMethodView {
    class_method(
        "operator!="@,
        s.name,
        other_parameter(TypeReferenceView::ConstReference(TypeView::Identifier(s.name))),
        Some(TypeReferenceView::Value(TypeView::Bool)),
        "\treturn !(*this == other);\n"@,
        true,
        false,
        false,
    )
}

/// `operator=`: nothing when assigned to itself, a copy of the other otherwise.
pub open spec fn assignment_operator(s: StructView) -> ClassMethodView {
    class_method(
        "operator="@,
        s.name,
        other_parameter(TypeReferenceView::ConstReference(TypeView::Identifier(s.name))),
        Some(TypeReferenceView::Reference(TypeView::Identifier(s.name))),
        "\tif (this == &other)\n\t{\n\t\treturn *this;\n\t}\n"@ + "\tother.copy_to(*this);\n"@
            + "\treturn *this;\n"@,
        false,
        false,
        false,
    )
}

/// The methods that every class gets, in the order they are written out.
pub open spec fn generated_methods(s: StructView) -> Seq<ClassMethodView> {
    seq![
        constructor(s),
        copy_constructor(s),
        destructor(s),
        copy_to(s),
        clone_method(s),
        equality_operator(s),
        inequality_operator(s),
        assignment_operator(s),
    ]
}

/// One public member for each field.
pub open spec fn member_lines(fields: Seq<FieldView>) -> Seq<Seq<char>> {
    Seq::new(
        fields.len(),
        |i: int|
            "\t"@ + reference_text(field_reference(fields[i])) + " "@ + identifier_text(
                fields[i].name,
            ) + ";\n"@,
    )
}

/// The declaration of each method.
pub open spec fn declarations(methods: Seq<ClassMethodView>) -> Seq<Seq<char>> {
    Seq::new(methods.len(), |i: int| methods[i].header_declaration)
}

/// The definition of each method.
pub open spec fn definitions(methods: Seq<ClassMethodView>) -> Seq<Seq<char>> {
    Seq::new(methods.len(), |i: int| methods[i].implementation)
}

/// The stub of each member function of `s`.
pub open spec fn struct_fns(s: StructView) -> Seq<ClassMethodView> {
    Seq::new(s.functions.len(), |i: int| struct_fn(s, s.functions[i]))
}

/// The member function as it is kept in the file of methods written by
/// hand: found again by the first line of its definition.
pub open spec fn custom_method(method: ClassMethodView) -> CustomMethodView {
    CustomMethodView {
        function_definition: formatted(first_line(method.implementation)),
        implementation: formatted(method.implementation),
    }
}

/// Each member function as it is kept in the file of methods written by hand.
pub open spec fn custom_methods(methods: Seq<ClassMethodView>) -> Seq<CustomMethodView> {
    Seq::new(methods.len(), |i: int| custom_method(methods[i]))
}

/// The models of a run of methods, in order.
pub open spec fn methods_view(methods: Seq<ClassMethod>) -> Seq<ClassMethodView> {
    methods.map_values(|m: ClassMethod| m@)
}

/// The text of the class for `s`: the fields as public members in the
/// order they were declared, the generated methods, and a stub for each
/// member function.
pub open spec fn class_of(s: StructView) -> ClassView {
    let opening = "class "@ + identifier_text(s.name) + " \n{\n"@ + "public:\n"@;
    let generated = generated_methods(s);
    let custom = struct_fns(s);
    ClassView {
        header_definition: formatted(
            opening + joined(member_lines(s.fields), ""@) + joined(declarations(generated), ""@)
                + joined(declarations(custom), ""@) + "};\n"@,
        ),
        implementation: formatted(joined(definitions(generated), ""@)),
        custom_methods: custom_methods(custom),
    }
}

/// The C++ text of each parameter of a free function: its type, a space,
/// its name.
pub open spec fn function_parameter_texts(parameters: Seq<ParameterView>) -> Seq<Seq<char>> {
    Seq::new(
        parameters.len(),
        |i: int| cpp_type(parameters[i].type_) + " "@ + identifier_text(parameters[i].name),
    )
}

/// The return type, name and parameters of a free function.
pub open spec fn function_signature(f: FunctionView) -> Seq<char> {
    cpp_type(f.return_type.1) + " "@ + identifier_text(f.name) + "("@ + joined(
        function_parameter_texts(f.parameters),
        ", "@,
    )
}

/// The declaration of a free function and its definition, which
/// returns the default value of its return type.
pub open spec fn cpp_function(f: FunctionView) -> CppFunctionView {
    CppFunctionView {
        header_declaration: function_signature(f) + ");"@,
        implementation: function_signature(f) + ")\n{\n"@ + placeholder() + (if f.return_type.1
            is Void {
            ""@
        } else {
            "\treturn "@ + type_default(f.return_type.1) + ";\n"@
        }) + "}\n"@,
    }
}

/// The type `name`.
fn named(name: &String) -> (r: Type)
    ensures
        r@ == TypeView::Identifier(name@),
{
    Type::Identifier(name.clone())
}

/// The parameter `other` of the given kind.
fn other(reference: TypeReference) -> (r: Vec<(String, TypeReference)>)
    ensures
        references_view(r@) == other_parameter(reference@),
{
    let mut parameters: Vec<(String, TypeReference)> = Vec::new();
    parameters.push((String::from_str("other"), reference));
    assert(references_view(parameters@) =~= other_parameter(reference@));
    parameters
}

/// No parameters.
fn no_parameters() -> (r: Vec<(String, TypeReference)>)
    ensures
        references_view(r@) == Seq::<(Seq<char>, TypeReferenceView)>::empty(),
{
    let parameters: Vec<(String, TypeReference)> = Vec::new();
    assert(references_view(parameters@) =~= Seq::empty());
    parameters
}

/// The stub of a member function of `s`.
pub fn generate_struct_fn(s: &Struct, f: &Function) -> (r: ClassMethod)
    ensures
        r@ == struct_fn(s@, f@),
{
    let class_name = compile_identifier(s.name.as_str());
    let function_name = compile_identifier(f.name.as_str());

    let return_type: Option<TypeReference> = match f.return_type.1 {
        Type::Void => None,
        _ => Some(TypeReference::Value(copy_of(&f.return_type.1))),
    };

    let ghost wanted = parameter_references(f@.parameters);
    let mut parameters: Vec<(String, TypeReference)> = Vec::new();
    assert(references_view(parameters@) =~= wanted.take(0));
    let mut i: usize = 0;
    while i < f.parameters.len()
        invariant
            i <= f.parameters.len(),
            wanted == parameter_references(f@.parameters),
            references_view(parameters@) == wanted.take(i as int),
        decreases f.parameters.len() - i,
    {
        let p = &f.parameters[i];
        let ghost before = references_view(parameters@);
        let reference = if p.type_.is_identifier() {
            TypeReference::Reference(copy_of(&p.type_))
        } else {
            TypeReference::Value(copy_of(&p.type_))
        };
        parameters.push((p.name.clone(), reference));
        assert(references_view(parameters@) =~= before.push((p.name@, reference@)));
        assert(f@.parameters[i as int] == p@);
        assert(before.push((p.name@, reference@)) =~= wanted.take(i + 1));
        i += 1;
    }
    assert(wanted.take(f.parameters.len() as int) =~= wanted);

    generate_class_method(
        function_name.as_str(),
        class_name.as_str(),
        parameters,
        return_type,
        "\t// TODO: Implement function\n",
        false,
        false,
        false,
    )
}

/// The default constructor.
pub fn generate_constructor(s: &Struct) -> (r: ClassMethod)
    ensures
        r@ == constructor(s@),
{
    let ghost wanted = constructor_lines(s@.fields);
    let mut lines: Vec<String> = Vec::new();
    assert(strings_view(lines@) =~= wanted.take(0));
    let mut i: usize = 0;
    while i < s.fields.len()
        invariant
            i <= s.fields.len(),
            wanted == constructor_lines(s@.fields),
            strings_view(lines@) == wanted.take(i as int),
        decreases s.fields.len() - i,
    {
        let field = &s.fields[i];
        assert(s@.fields[i as int] == field@);
        let mut line = String::from_str("\t");
        let id = compile_identifier(field.name.as_str());
        line.append(id.as_str());
        line.append(" = ");
        let value = init_type_value(map_struct_field_type(field));
        line.append(value.as_str());
        line.append(";");
        push_text(&mut lines, line);
        assert(strings_view(lines@) =~= wanted.take(i + 1));
        i += 1;
    }
    assert(wanted.take(s.fields.len() as int) =~= wanted);
    let mut constructor_code = join(&lines, "\n");
    constructor_code.append("\n");
    generate_class_method(
        s.name.as_str(),
        s.name.as_str(),
        no_parameters(),
        None,
        constructor_code.as_str(),
        false,
        false,
        false,
    )
}

/// The destructor.
pub fn generate_destructor(s: &Struct) -> (r: ClassMethod)
    ensures
        r@ == destructor(s@),
{
    let ghost wanted = destructor_lines(s@.fields);
    let mut lines: Vec<String> = Vec::new();
    assert(strings_view(lines@) =~= wanted.take(0));
    let mut i: usize = 0;
    while i < s.fields.len()
        invariant
            i <= s.fields.len(),
            wanted == destructor_lines(s@.fields),
            strings_view(lines@) == wanted.take(i as int),
        decreases s.fields.len() - i,
    {
        let field = &s.fields[i];
        assert(s@.fields[i as int] == field@);
        let line = match map_struct_field_type(field) {
            TypeReference::Pointer(_) => {
                let mut line = String::from_str("\tdelete ");
                let id = compile_identifier(field.name.as_str());
                line.append(id.as_str());
                line.append(";\n");
                line
            },
            _ => String::from_str(""),
        };
        push_text(&mut lines, line);
        assert(strings_view(lines@) =~= wanted.take(i + 1));
        i += 1;
    }
    assert(wanted.take(s.fields.len() as int) =~= wanted);
    let destructor_code = join(&lines, "");
    let mut name = String::from_str("~");
    name.append(s.name.as_str());
    generate_class_method(
        name.as_str(),
        s.name.as_str(),
        no_parameters(),
        None,
        destructor_code.as_str(),
        false,
        false,
        false,
    )
}

/// `copy_to`.
pub fn generate_copy_to(s: &Struct) -> (r: ClassMethod)
    ensures
        r@ == copy_to(s@),
{
    let ghost wanted = copy_lines(s@.fields);
    let mut lines: Vec<String> = Vec::new();
    assert(strings_view(lines@) =~= wanted.take(0));
    let mut i: usize = 0;
    while i < s.fields.len()
        invariant
            i <= s.fields.len(),
            wanted == copy_lines(s@.fields),
            strings_view(lines@) == wanted.take(i as int),
        decreases s.fields.len() - i,
    {
        let field = &s.fields[i];
        assert(s@.fields[i as int] == field@);
        let id = compile_identifier(field.name.as_str());
        let line = match map_struct_field_type(field) {
            TypeReference::Pointer(_) => {
                // Call copy_to on the pointer
                let mut line = String::from_str("\t");
                line.append(id.as_str());
                line.append("->copy_to(*other.");
                line.append(id.as_str());
                line.append(");\n");
                line
            },
            _ => {
                let mut line = String::from_str("\tother.");
                line.append(id.as_str());
                line.append(" = ");
                line.append(id.as_str());
                line.append(";\n");
                line
            },
        };
        push_text(&mut lines, line);
        assert(strings_view(lines@) =~= wanted.take(i + 1));
        i += 1;
    }
    assert(wanted.take(s.fields.len() as int) =~= wanted);
    let code = join(&lines, "");
    generate_class_method(
        "copy_to",
        s.name.as_str(),
        other(TypeReference::Reference(named(&s.name))),
        Some(TypeReference::Value(Type::Void)),
        code.as_str(),
        true,
        false,
        false,
    )
}

/// The copy constructor.
pub fn generate_copy_constructor(s: &Struct) -> (r: ClassMethod)
    ensures
        r@ == copy_constructor(s@),
{
    generate_class_method(
        s.name.as_str(),
        s.name.as_str(),
        other(TypeReference::ConstReference(named(&s.name))),
        None,
        "\tother.copy_to(*this);\n",
        false,
        false,
        true,
    )
}

/// `clone`.
pub fn generate_clone(s: &Struct) -> (r: ClassMethod)
    ensures
        r@ == clone_method(s@),
{
    let mut code = String::from_str("\t");
    let id = compile_identifier(s.name.as_str());
    code.append(id.as_str());
    code.append(" clone;\n");
    code.append("\tcopy_to(clone);\n");
    code.append("\treturn clone;\n");

    generate_class_method(
        "clone",
        s.name.as_str(),
        no_parameters(),
        Some(TypeReference::Value(named(&s.name))),
        code.as_str(),
        true,
        false,
        false,
    )
}

/// `operator==`.
pub fn generate_equality_operator(s: &Struct) -> (r: ClassMethod)
    ensures
        r@ == equality_operator(s@),
{
    let ghost wanted = equality_terms(s@.fields);
    let mut terms: Vec<String> = Vec::new();
    assert(strings_view(terms@) =~= wanted.take(0));
    let mut i: usize = 0;
    while i < s.fields.len()
        invariant
            i <= s.fields.len(),
            wanted == equality_terms(s@.fields),
            strings_view(terms@) == wanted.take(i as int),
        decreases s.fields.len() - i,
    {
        let field = &s.fields[i];
        assert(s@.fields[i as int] == field@);
        let prefix = match map_struct_field_type(field) {
            TypeReference::Pointer(_) => "*",
            _ => "",
        };
        let id = compile_identifier(field.name.as_str());
        let mut term = String::from_str(prefix);
        term.append(id.as_str());
        term.append(" == ");
        term.append(prefix);
        term.append("other.");
        term.append(id.as_str());
        push_text(&mut terms, term);
        assert(strings_view(terms@) =~= wanted.take(i + 1));
        i += 1;
    }
    assert(wanted.take(s.fields.len() as int) =~= wanted);
    let mut code = String::from_str("\treturn ");
    let all = if terms.len() == 0 {
        String::from_str("true")
    } else {
        join(&terms, " && ")
    };
    code.append(all.as_str());
    code.append(";\n");
    generate_class_method(
        "operator==",
        s.name.as_str(),
        other(TypeReference::ConstReference(named(&s.name))),
        Some(TypeReference::Value(Type::Bool)),
        code.as_str(),
        true,
        false,
        false,
    )
}

/// `operator!=`.
pub fn generate_inequality_operator(s: &Struct) -> (r: ClassMethod)
    ensures
        r@ == inequality_operator(s@),
{
    generate_class_method(
        "operator!=",
        s.name.as_str(),
        other(TypeReference::ConstReference(named(&s.name))),
        Some(TypeReference::Value(Type::Bool)),
        "\treturn !(*this == other);\n",
        true,
        false,
        false,
    )
}

/// `operator=`.
pub fn generate_assignment_operator(s: &Struct) -> (r: ClassMethod)
    ensures
        r@ == assignment_operator(s@),
{
    let mut code = String::from_str("\tif (this == &other)\n\t{\n\t\treturn *this;\n\t}\n");
    code.append("\tother.copy_to(*this);\n");
    code.append("\treturn *this;\n");

    generate_class_method(
        "operator=",
        s.name.as_str(),
        other(TypeReference::ConstReference(named(&s.name))),
        Some(TypeReference::Reference(named(&s.name))),
        code.as_str(),
        false,
        false,
        false,
    )
}

/// One public member for each field, one to a line.
fn compile_members(s: &Struct) -> (r: String)
    ensures
        r@ == joined(member_lines(s@.fields), ""@),
{
    let ghost members = member_lines(s@.fields);
    let mut lines: Vec<String> = Vec::new();
    assert(strings_view(lines@) =~= members.take(0));
    let mut i: usize = 0;
    while i < s.fields.len()
        invariant
            i <= s.fields.len(),
            members == member_lines(s@.fields),
            strings_view(lines@) == members.take(i as int),
        decreases s.fields.len() - i,
    {
        let field = &s.fields[i];
        assert(s@.fields[i as int] == field@);
        let mut line = String::from_str("\t");
        let ty = compile_type(map_struct_field_type(field));
        line.append(ty.as_str());
        line.append(" ");
        let id = compile_identifier(field.name.as_str());
        line.append(id.as_str());
        line.append(";\n");
        push_text(&mut lines, line);
        assert(strings_view(lines@) =~= members.take(i + 1));
        i += 1;
    }
    assert(members.take(s.fields.len() as int) =~= members);
    join(&lines, "")
}

/// The methods that every class gets, in the order they are written out.
fn generate_methods(s: &Struct) -> (r: Vec<ClassMethod>)
    ensures
        methods_view(r@) == generated_methods(s@),
{
    let mut methods: Vec<ClassMethod> = Vec::new();
    methods.push(generate_constructor(s));
    methods.push(generate_copy_constructor(s));
    methods.push(generate_destructor(s));
    methods.push(generate_copy_to(s));
    methods.push(generate_clone(s));
    methods.push(generate_equality_operator(s));
    methods.push(generate_inequality_operator(s));
    methods.push(generate_assignment_operator(s));
    assert(methods_view(methods@) =~= generated_methods(s@));
    methods
}

/// The stub of each member function of `s`.
fn generate_struct_fns(s: &Struct) -> (r: Vec<ClassMethod>)
    ensures
        methods_view(r@) == struct_fns(s@),
{
    let ghost wanted = struct_fns(s@);
    let mut methods: Vec<ClassMethod> = Vec::new();
    assert(methods_view(methods@) =~= wanted.take(0));
    let mut n: usize = 0;
    while n < s.functions.len()
        invariant
            n <= s.functions.len(),
            wanted == struct_fns(s@),
            methods_view(methods@) == wanted.take(n as int),
        decreases s.functions.len() - n,
    {
        let f = &s.functions[n];
        assert(s@.functions[n as int] == f@);
        let ghost before = methods_view(methods@);
        methods.push(generate_struct_fn(s, f));
        assert(methods_view(methods@) =~= before.push(struct_fn(s@, f@)));
        assert(before.push(struct_fn(s@, f@)) =~= wanted.take(n + 1));
        n += 1;
    }
    assert(wanted.take(s.functions.len() as int) =~= wanted);
    methods
}

/// The declarations of the methods, one after the other.
fn compile_declarations(methods: &Vec<ClassMethod>) -> (r: String)
    ensures
        r@ == joined(declarations(methods_view(methods@)), ""@),
{
    let ghost wanted = declarations(methods_view(methods@));
    let mut lines: Vec<String> = Vec::new();
    assert(strings_view(lines@) =~= wanted.take(0));
    let mut k: usize = 0;
    while k < methods.len()
        invariant
            k <= methods.len(),
            wanted == declarations(methods_view(methods@)),
            strings_view(lines@) == wanted.take(k as int),
        decreases methods.len() - k,
    {
        assert(methods_view(methods@)[k as int] == methods@[k as int]@);
        push_text(&mut lines, methods[k].header_declaration.clone());
        assert(strings_view(lines@) =~= wanted.take(k + 1));
        k += 1;
    }
    assert(wanted.take(methods.len() as int) =~= wanted);
    join(&lines, "")
}

/// The definitions of the methods, one after the other.
fn compile_definitions(methods: &Vec<ClassMethod>) -> (r: String)
    ensures
        r@ == joined(definitions(methods_view(methods@)), ""@),
{
    let ghost wanted = definitions(methods_view(methods@));
    let mut lines: Vec<String> = Vec::new();
    assert(strings_view(lines@) =~= wanted.take(0));
    let mut k: usize = 0;
    while k < methods.len()
        invariant
            k <= methods.len(),
            wanted == definitions(methods_view(methods@)),
            strings_view(lines@) == wanted.take(k as int),
        decreases methods.len() - k,
    {
        assert(methods_view(methods@)[k as int] == methods@[k as int]@);
        push_text(&mut lines, methods[k].implementation.clone());
        assert(strings_view(lines@) =~= wanted.take(k + 1));
        k += 1;
    }
    assert(wanted.take(methods.len() as int) =~= wanted);
    join(&lines, "")
}

/// Each member function as it is kept in the file of methods written by hand.
fn compile_custom_methods(methods: &Vec<ClassMethod>) -> (r: Vec<CustomMethod>)
    ensures
        custom_methods_view(r@) == custom_methods(methods_view(methods@)),
{
    let ghost wanted = custom_methods(methods_view(methods@));
    let mut kept: Vec<CustomMethod> = Vec::new();
    assert(custom_methods_view(kept@) =~= wanted.take(0));
    let mut k: usize = 0;
    while k < methods.len()
        invariant
            k <= methods.len(),
            wanted == custom_methods(methods_view(methods@)),
            custom_methods_view(kept@) == wanted.take(k as int),
        decreases methods.len() - k,
    {
        let method = &methods[k];
        assert(methods_view(methods@)[k as int] == method@);
        // Split off first line as we'll use that for checking if it exists
        let function_definition = first_line_of(method.implementation.as_str());
        let ghost before = custom_methods_view(kept@);
        kept.push(
            CustomMethod {
                function_definition: format_code(function_definition.as_str()),
                implementation: format_code(method.implementation.as_str()),
            },
        );
        assert(custom_methods_view(kept@) =~= before.push(custom_method(method@)));
        assert(before.push(custom_method(method@)) =~= wanted.take(k + 1));
        k += 1;
    }
    assert(wanted.take(methods.len() as int) =~= wanted);
    kept
}

/// The text of the class for `s`.
pub fn compile_cpp_class(s: &Struct) -> (r: Class)
    ensures
        r@ == class_of(s@),
{
    let mut header_definition = String::from_str("class ");
    let id = compile_identifier(s.name.as_str());
    header_definition.append(id.as_str());
    header_definition.append(" \n{\n");
    header_definition.append("public:\n");
    let members = compile_members(s);
    header_definition.append(members.as_str());

    // Generate functions
    let methods = generate_methods(s);
    let declared = compile_declarations(&methods);
    header_definition.append(declared.as_str());
    let implementation = compile_definitions(&methods);

    let custom = generate_struct_fns(s);
    let custom_declared = compile_declarations(&custom);
    header_definition.append(custom_declared.as_str());
    let custom_methods = compile_custom_methods(&custom);

    header_definition.append("};\n");

    Class {
        header_definition: format_code(header_definition.as_str()),
        implementation: format_code(implementation.as_str()),
        custom_methods,
    }
}

/// The declaration of a free function and its definition.
pub fn compile_cpp_function(f: &Function) -> (r: CppFunction)
    ensures
        r@ == cpp_function(f@),
{
    let ghost wanted = function_parameter_texts(f@.parameters);
    let mut pieces: Vec<String> = Vec::new();
    assert(strings_view(pieces@) =~= wanted.take(0));
    let mut i: usize = 0;
    while i < f.parameters.len()
        invariant
            i <= f.parameters.len(),
            wanted == function_parameter_texts(f@.parameters),
            strings_view(pieces@) == wanted.take(i as int),
        decreases f.parameters.len() - i,
    {
        let param = &f.parameters[i];
        assert(f@.parameters[i as int] == param@);
        let mut piece = compile_cpp_type(&param.type_);
        piece.append(" ");
        let id = compile_identifier(param.name.as_str());
        piece.append(id.as_str());
        push_text(&mut pieces, piece);
        assert(strings_view(pieces@) =~= wanted.take(i + 1));
        i += 1;
    }
    assert(wanted.take(f.parameters.len() as int) =~= wanted);

    let mut signature = compile_cpp_type(&f.return_type.1);
    signature.append(" ");
    let id = compile_identifier(f.name.as_str());
    signature.append(id.as_str());
    signature.append("(");
    let parameters = join(&pieces, ", ");
    signature.append(parameters.as_str());

    let mut header_declaration = signature.clone();
    header_declaration.append(");");

    let mut implementation = signature;
    implementation.append(")\n{\n");
    implementation.append("\t// TODO: Implement function\n");
    if f.return_type.1.is_void() {
        implementation.append("");
    } else {
        let mut line = String::from_str("\treturn ");
        let return_value = get_type_default(&f.return_type.1);
        line.append(return_value.as_str());
        line.append(";\n");
        implementation.append(line.as_str());
    }
    implementation.append("}\n");

    CppFunction { header_declaration, implementation }
}

/// A file to write: where, below the output folder, and what.
#[derive(Debug)]
pub struct File {
    pub path: String,
    pub contents: String,
}

/// What a [`File`] stands for.
pub struct FileView {
    pub path: Seq<char>,
    pub contents: Seq<char>,
}

impl View for File {
    type V = FileView;

    open spec fn view(&self) -> FileView {
        FileView { path: self.path@, contents: self.contents@ }
    }
}

/// What is written out for one struct. The header and the generated
/// implementation are written anew each time. The custom implementation is
/// kept: where there is none yet it starts as `custom_start`, and the
/// custom methods that it lacks are added at its end.
#[derive(Debug)]
pub struct StructOutput {
    /// The folder of the class, below the output folder.
    pub folder: String,
    pub header: File,
    pub implementation: File,
    pub custom_path: String,
    pub custom_start: String,
    pub custom_methods: Vec<CustomMethod>,
}

/// What a [`StructOutput`] stands for.
pub struct StructOutputView {
    pub folder: Seq<char>,
    pub header: FileView,
    pub implementation: FileView,
    pub custom_path: Seq<char>,
    pub custom_start: Seq<char>,
    pub custom_methods: Seq<CustomMethodView>,
}

impl View for StructOutput {
    type V = StructOutputView;

    open spec fn view(&self) -> StructOutputView {
        StructOutputView {
            folder: self.folder@,
            header: self.header@,
            implementation: self.implementation@,
            custom_path: self.custom_path@,
            custom_start: self.custom_start@,
            custom_methods: custom_methods_view(self.custom_methods@),
        }
    }
}

/// What is written out for one free function, anew each time.
#[derive(Debug)]
pub struct FunctionOutput {
    pub header: File,
    pub implementation: File,
}

/// What a [`FunctionOutput`] stands for.
pub struct FunctionOutputView {
    pub header: FileView,
    pub implementation: FileView,
}

impl View for FunctionOutput {
    type V = FunctionOutputView;

    open spec fn view(&self) -> FunctionOutputView {
        FunctionOutputView { header: self.header@, implementation: self.implementation@ }
    }
}

/// Everything that one run writes out, in the order it is written.
#[derive(Debug)]
pub struct Generated {
    pub structs: Vec<StructOutput>,
    pub functions: Vec<FunctionOutput>,
}

/// What a [`Generated`] stands for.
pub struct GeneratedView {
    pub structs: Seq<StructOutputView>,
    pub functions: Seq<FunctionOutputView>,
}

impl View for Generated {
    type V = GeneratedView;

    open spec fn view(&self) -> GeneratedView {
        GeneratedView {
            structs: self.structs@.map_values(|s: StructOutput| s@),
            functions: self.functions@.map_values(|f: FunctionOutput| f@),
        }
    }
}

/// The comment at the top of every file that is written anew each time.
pub open spec fn disclaimer() -> Seq<char> {
    "// This file was generated by wc-gen. Do not modify this file manually.\n"@
}

/// The include lines that the first `count` of `types` ask for, type by type.
pub open spec fn includes_of(types: Seq<(LocationView, TypeView)>, count: int) -> Seq<Seq<char>>
    decreases count,
{
    if count <= 0 || count > types.len() {
        Seq::empty()
    } else {
        includes_of(types, count - 1) + type_includes(types[count - 1].1)
    }
}

/// The include lines that `types` ask for, each once, in dictionary
/// order, one to a line.
pub open spec fn includes_text(types: Seq<(LocationView, TypeView)>) -> Seq<char> {
    let all = includes_of(types, types.len() as int);
    joined(sorted_unique(all, all.len() as int), "\n"@)
}

/// The text of a header that is written anew each time: the disclaimer,
/// the guard against being included twice, the includes, then the declarations.
pub open spec fn header_text(includes: Seq<char>, declarations: Seq<char>) -> Seq<char> {
    disclaimer() + "#pragma once\n"@ + includes + "\n\n"@ + declarations
}

/// The text of an implementation file that is written anew each time:
/// the disclaimer, the include of its header, then the definitions.
pub open spec fn implementation_text(header: Seq<char>, definitions: Seq<char>) -> Seq<char> {
    disclaimer() + "\n#include \""@ + header + "\"\n\n"@ + definitions
}

/// The name of the header of the definition called `name`.
pub open spec fn header_name(name: Seq<char>) -> Seq<char> {
    identifier_text(name) + ".hpp"@
}

/// What the custom implementation of the struct called `name` starts as.
pub open spec fn custom_start(name: Seq<char>) -> Seq<char> {
    "#include \"../"@ + header_name(name) + "\"\n\n"@
}

/// What is written out for the struct `s`.
pub open spec fn struct_output(s: StructView) -> StructOutputView {
    let class = class_of(s);
    let id = identifier_text(s.name);
    StructOutputView {
        folder: id,
        header: FileView {
            path: header_name(s.name),
            contents: header_text(includes_text(s.related_types()), class.header_definition),
        },
        implementation: FileView {
            path: id + "/"@ + id + "_generated_impl.cpp"@,
            contents: implementation_text("../"@ + header_name(s.name), class.implementation),
        },
        custom_path: id + "/"@ + id + "_custom_impl.cpp"@,
        custom_start: custom_start(s.name),
        custom_methods: class.custom_methods,
    }
}

/// What is written out for the free function `f`.
pub open spec fn function_output(f: FunctionView) -> FunctionOutputView {
    let function = cpp_function(f);
    FunctionOutputView {
        header: FileView {
            path: header_name(f.name),
            contents: header_text(includes_text(f.related_types()), function.header_declaration),
        },
        implementation: FileView {
            path: identifier_text(f.name) + ".cpp"@,
            contents: implementation_text(header_name(f.name), function.implementation),
        },
    }
}

/// Message of the error for a struct that cannot be written out after
/// all the structs it depends on.
pub open spec fn cycle_message(name: Seq<char>) -> Seq<char> {
    "Struct '"@ + name + "' depends on structs that depend on each other"@
}

/// Everything that a run writes out for `env`: the structs, each after
/// the structs that its fields refer to, then the free functions in the
/// order they were declared. Fails where structs depend on each other in
/// a cycle.
pub open spec fn generated(env: EnvironmentView) -> Result<GeneratedView, ErrorView> {
    match emission_order(env.structs) {
        Err(at) => Err(
            ErrorView {
                message: cycle_message(env.structs[at].name),
                location: env.structs[at].location,
            },
        ),
        Ok(order) => Ok(
            GeneratedView {
                structs: Seq::new(order.len(), |i: int| struct_output(env.structs[order[i]])),
                functions: Seq::new(
                    env.functions.len(),
                    |i: int| function_output(env.functions[i]),
                ),
            },
        ),
    }
}

/// `code` with the definition of each of the first `count` of `methods`
/// added at its end, unless the text so far holds the first line of that
/// definition already.
pub open spec fn merged(code: Seq<char>, methods: Seq<CustomMethodView>, count: int) -> Seq<char>
    decreases count,
{
    if count <= 0 || count > methods.len() {
        code
    } else {
        let before = merged(code, methods, count - 1);
        if occurs_in(before, methods[count - 1].function_definition) {
            before
        } else {
            before + methods[count - 1].implementation
        }
    }
}

/// The include lines that `types` ask for, each once, in dictionary
/// order, one to a line.
pub fn compile_includes(types: &Vec<(Location, Type)>) -> (r: String)
    ensures
        r@ == includes_text(located_types_view(types@)),
{
    let ghost wanted = located_types_view(types@);
    let mut includes: Vec<String> = Vec::new();
    assert(strings_view(includes@) =~= Seq::empty());
    let mut i: usize = 0;
    while i < types.len()
        invariant
            i <= types.len(),
            wanted == located_types_view(types@),
            strings_view(includes@) == includes_of(wanted, i as int),
        decreases types.len() - i,
    {
        let mut more = get_type_includes(&types[i].1);
        let ghost before = strings_view(includes@);
        let ghost added = strings_view(more@);
        includes.append(&mut more);
        assert(strings_view(includes@) =~= before + added);
        assert(wanted[i as int].1 == types@[i as int].1@);
        i += 1;
    }
    let sorted = sort_unique(&includes);
    join(&sorted, "\n")
}

/// The text of a header that is written anew each time.
pub fn compile_header(includes: &str, declarations: &str) -> (r: String)
    ensures
        r@ == header_text(includes@, declarations@),
        has_prefix(r@, disclaimer()),
{
    let mut code = String::from_str(
        "// This file was generated by wc-gen. Do not modify this file manually.\n",
    );
    code.append("#pragma once\n");
    code.append(includes);
    code.append("\n\n");
    code.append(declarations);
    assert(code@.take(disclaimer().len() as int) =~= disclaimer());
    code
}

/// The text of an implementation file that is written anew each time.
pub fn compile_implementation(header: &str, definitions: &str) -> (r: String)
    ensures
        r@ == implementation_text(header@, definitions@),
        has_prefix(r@, disclaimer()),
{
    let mut code = String::from_str(
        "// This file was generated by wc-gen. Do not modify this file manually.\n",
    );
    code.append("\n#include \"");
    code.append(header);
    code.append("\"\n\n");
    code.append(definitions);
    assert(code@.take(disclaimer().len() as int) =~= disclaimer());
    code
}

/// What is written out for the struct `s`. The header and the generated
/// implementation begin with the disclaimer.
pub fn compile_struct(s: &Struct) -> (r: StructOutput)
    ensures
        r@ == struct_output(s@),
        has_prefix(r@.header.contents, disclaimer()),
        has_prefix(r@.implementation.contents, disclaimer()),
{
    let class = compile_cpp_class(s);
    let id = compile_identifier(s.name.as_str());

    let mut hpp_name = id.clone();
    hpp_name.append(".hpp");

    let mut cpp_name = id.clone();
    cpp_name.append("/");
    cpp_name.append(id.as_str());
    cpp_name.append("_generated_impl.cpp");

    let mut custom_cpp_file = id.clone();
    custom_cpp_file.append("/");
    custom_cpp_file.append(id.as_str());
    custom_cpp_file.append("_custom_impl.cpp");

    let types = s.get_related_types();
    let includes = compile_includes(&types);

    let hpp_code = compile_header(includes.as_str(), class.header_definition.as_str());

    let mut from_folder = String::from_str("../");
    from_folder.append(hpp_name.as_str());
    let cpp_code = compile_implementation(from_folder.as_str(), class.implementation.as_str());

    let mut custom_code = String::from_str("#include \"../");
    custom_code.append(hpp_name.as_str());
    custom_code.append("\"\n\n");

    StructOutput {
        folder: id,
        header: File { path: hpp_name, contents: hpp_code },
        implementation: File { path: cpp_name, contents: cpp_code },
        custom_path: custom_cpp_file,
        custom_start: custom_code,
        custom_methods: class.custom_methods,
    }
}

/// What is written out for the free function `f`. Both files begin
/// with the disclaimer.
pub fn compile_function(f: &Function) -> (r: FunctionOutput)
    ensures
        r@ == function_output(f@),
        has_prefix(r@.header.contents, disclaimer()),
        has_prefix(r@.implementation.contents, disclaimer()),
{
    let function = compile_cpp_function(f);
    let id = compile_identifier(f.name.as_str());
    let mut hpp_name = id.clone();
    hpp_name.append(".hpp");
    let mut cpp_name = id;
    cpp_name.append(".cpp");

    let types = f.get_related_types();
    let includes = compile_includes(&types);

    let hpp_code = compile_header(includes.as_str(), function.header_declaration.as_str());
    let cpp_code = compile_implementation(hpp_name.as_str(), function.implementation.as_str());

    FunctionOutput {
        header: File { path: hpp_name, contents: hpp_code },
        implementation: File { path: cpp_name, contents: cpp_code },
    }
}

/// Everything that a run writes out for `env`, in the order it is
/// written. Fails just when structs depend on each other in a cycle.
pub fn generate(env: &Environment) -> (r: Result<Generated, Error>)
    ensures
        match r {
            Ok(output) => generated(env@) == Ok::<_, ErrorView>(output@),
            Err(e) => generated(env@) == Err::<GeneratedView, _>(e@),
        },
        r is Ok <==> !has_cycle(env@.structs),
{
    let order = match order_structs(&env.structs) {
        Ok(order) => order,
        Err(at) => {
            let s = &env.structs[at];
            assert(env@.structs[at as int] == s@);
            let mut message = String::from_str("Struct '");
            message.append(s.name.as_str());
            message.append("' depends on structs that depend on each other");
            return Err(Error { message, location: s.location.clone() });
        },
    };
    let ghost places = positions(order@);
    proof {
        lemma_emitted_after_dependencies(env@.structs);
    }

    // Add classes
    let mut structs: Vec<StructOutput> = Vec::new();
    let mut i: usize = 0;
    while i < order.len()
        invariant
            i <= order.len(),
            places == positions(order@),
            forall|p: int| 0 <= p < places.len() ==> 0 <= #[trigger] places[p] < env.structs.len(),
            structs@.map_values(|s: StructOutput| s@) == Seq::new(
                i as nat,
                |k: int| struct_output(env@.structs[places[k]]),
            ),
        decreases order.len() - i,
    {
        let ghost before = structs@.map_values(|s: StructOutput| s@);
        assert(places[i as int] == order@[i as int]);
        let s = &env.structs[order[i]];
        assert(env@.structs[places[i as int]] == s@);
        structs.push(compile_struct(s));
        assert(structs@.map_values(|s: StructOutput| s@) =~= before.push(struct_output(s@)));
        i += 1;
    }

    // Add function forward declarations
    let mut functions: Vec<FunctionOutput> = Vec::new();
    let mut k: usize = 0;
    while k < env.functions.len()
        invariant
            k <= env.functions.len(),
            functions@.map_values(|f: FunctionOutput| f@) == Seq::new(
                k as nat,
                |n: int| function_output(env@.functions[n]),
            ),
        decreases env.functions.len() - k,
    {
        let ghost before = functions@.map_values(|f: FunctionOutput| f@);
        let f = &env.functions[k];
        assert(env@.functions[k as int] == f@);
        functions.push(compile_function(f));
        assert(functions@.map_values(|f: FunctionOutput| f@) =~= before.push(
            function_output(f@),
        ));
        k += 1;
    }

    let output = Generated { structs, functions };
    assert(output@.structs =~= generated(env@)->Ok_0.structs);
    assert(output@.functions =~= generated(env@)->Ok_0.functions);
    Ok(output)
}

/// What the custom implementation is before a run adds to it: what is
/// there already, or the start where there is nothing yet.
pub open spec fn custom_before(existing: Option<Seq<char>>, start: Seq<char>) -> Seq<char> {
    match existing {
        Some(code) => code,
        None => start,
    }
}

impl StructOutput {
    /// The custom implementation after a run, given what the file holds
    /// before it, if there is one: nothing that is there is lost, and the
    /// methods that are missing are added at the end.
    pub fn custom_contents(&self, existing: Option<&str>) -> (r: String)
        ensures
            r@ == merged(
                custom_before(
                    match existing {
                        Some(code) => Some(code@),
                        None => None,
                    },
                    self@.custom_start,
                ),
                self@.custom_methods,
                self@.custom_methods.len() as int,
            ),
    {
        match existing {
            Some(code) => merge_custom_methods(code, &self.custom_methods),
            None => merge_custom_methods(self.custom_start.as_str(), &self.custom_methods),
        }
    }
}

/// The custom implementation after a run: `existing` with the definition
/// of each method added at its end, unless the text so far holds the first
/// line of that definition already.
pub fn merge_custom_methods(existing: &str, methods: &Vec<CustomMethod>) -> (r: String)
    ensures
        r@ == merged(existing@, custom_methods_view(methods@), methods@.len() as int),
        has_prefix(r@, existing@),
{
    proof {
        lemma_merged_extends(
            existing@,
            custom_methods_view(methods@),
            0,
            methods@.len() as int,
        );
    }
    let mut custom_code = String::from_str(existing);
    let mut i: usize = 0;
    while i < methods.len()
        invariant
            i <= methods.len(),
            custom_code@ == merged(existing@, custom_methods_view(methods@), i as int),
        decreases methods.len() - i,
    {
        let method = &methods[i];
        assert(custom_methods_view(methods@)[i as int] == method@);
        if !contains(custom_code.as_str(), method.function_definition.as_str()) {
            custom_code.append(method.implementation.as_str());
        }
        i += 1;
    }
    custom_code
}

/// Neither a line feed nor a carriage return is part of what formatting
/// looks for.
proof fn lemma_line_ending_is_left_alone(c: char)
    requires
        c == '\n' || c == '\r',
    ensures
        !"):"@.contains(c),
        !"&&"@.contains(c),
        !"& "@.contains(c),
        !"* "@.contains(c),
        !"ANDAND"@.contains(c),
{
    reveal_strlit("):");
    reveal_strlit("&&");
    reveal_strlit("& ");
    reveal_strlit("* ");
    reveal_strlit("ANDAND");
    assert forall|i: int| 0 <= i < "):"@.len() implies "):"@[i] != c by {
        if i == 0 {
        } else {
            assert(i == 1);
        }
    }
    assert forall|i: int| 0 <= i < "&&"@.len() implies "&&"@[i] != c by {
        if i == 0 {
        } else {
            assert(i == 1);
        }
    }
    assert forall|i: int| 0 <= i < "& "@.len() implies "& "@[i] != c by {
        if i == 0 {
        } else {
            assert(i == 1);
        }
    }
    assert forall|i: int| 0 <= i < "* "@.len() implies "* "@[i] != c by {
        if i == 0 {
        } else {
            assert(i == 1);
        }
    }
    assert forall|i: int| 0 <= i < "ANDAND"@.len() implies "ANDAND"@[i] != c by {
        if i == 0 {
        } else if i == 1 {
        } else if i == 2 {
        } else if i == 3 {
        } else if i == 4 {
        } else {
            assert(i == 5);
        }
    }
}

/// One step of formatting treats a text like its two parts, where the
/// second part starts with a line ending.
proof fn lemma_step_splits(a: Seq<char>, b: Seq<char>, from: Seq<char>, to: Seq<char>)
    requires
        b.len() > 0,
        b[0] == '\n' || b[0] == '\r',
        !from.contains(b[0]),
    ensures
        replaced(a + b, from, to) == replaced(a, from, to) + replaced(b, from, to),
        replaced(b, from, to).len() > 0,
        replaced(b, from, to)[0] == b[0],
{
    lemma_replaced_splits(a, b, from, to);
    lemma_replaced_keeps_first(b, from, to);
}

/// Formatted code begins with its formatted first line.
pub proof fn lemma_formatted_first_line(code: Seq<char>)
    ensures
        has_prefix(formatted(code), formatted(first_line(code))),
{
    lemma_first_line_splits(code);
    let a = first_line(code);
    if a.len() < code.len() {
        let b = code.skip(a.len() as int);
        assert(code =~= a + b);
        assert(b[0] == code[a.len() as int]);
        lemma_line_ending_is_left_alone(b[0]);
        lemma_step_splits(a, b, "):"@, ") : "@);
        let a1 = replaced(a, "):"@, ") : "@);
        let b1 = replaced(b, "):"@, ") : "@);
        lemma_step_splits(a1, b1, "&&"@, "ANDAND"@);
        let a2 = replaced(a1, "&&"@, "ANDAND"@);
        let b2 = replaced(b1, "&&"@, "ANDAND"@);
        lemma_step_splits(a2, b2, "& "@, " &"@);
        let a3 = replaced(a2, "& "@, " &"@);
        let b3 = replaced(b2, "& "@, " &"@);
        lemma_step_splits(a3, b3, "* "@, " *"@);
        let a4 = replaced(a3, "* "@, " *"@);
        let b4 = replaced(b3, "* "@, " *"@);
        lemma_step_splits(a4, b4, "ANDAND"@, "&&"@);
        let a5 = replaced(a4, "ANDAND"@, "&&"@);
        let b5 = replaced(b4, "ANDAND"@, "&&"@);
        assert(formatted(code) == a5 + b5);
        assert(formatted(a) == a5);
        assert((a5 + b5).take(a5.len() as int) =~= a5);
    } else {
        assert(a =~= code);
        assert(formatted(code).take(formatted(code).len() as int) =~= formatted(code));
    }
}

/// Merging only ever adds at the end: what was there stays in front.
pub proof fn lemma_merged_extends(
    code: Seq<char>,
    methods: Seq<CustomMethodView>,
    fewer: int,
    count: int,
)
    requires
        0 <= fewer <= count <= methods.len(),
    ensures
        has_prefix(merged(code, methods, count), merged(code, methods, fewer)),
        has_prefix(merged(code, methods, count), code),
    decreases count, fewer,
{
    let all = merged(code, methods, count);
    if count == 0 {
        assert(all.take(all.len() as int) =~= all);
    } else if fewer == count {
        assert(all.take(all.len() as int) =~= all);
        lemma_merged_extends(code, methods, 0, count);
    } else {
        lemma_merged_extends(code, methods, fewer, count - 1);
        let before = merged(code, methods, count - 1);
        let less = merged(code, methods, fewer);
        assert(all.take(less.len() as int) =~= before.take(less.len() as int));
        assert(all.take(code.len() as int) =~= before.take(code.len() as int));
    }
}

/// After merging, the text holds the first line of every method whose
/// definition starts with that line.
pub proof fn lemma_merged_holds(
    code: Seq<char>,
    methods: Seq<CustomMethodView>,
    count: int,
    which: int,
)
    requires
        0 <= which < count <= methods.len(),
        occurs_in(methods[which].implementation, methods[which].function_definition),
    ensures
        occurs_in(merged(code, methods, count), methods[which].function_definition),
    decreases count,
{
    let wanted = methods[which].function_definition;
    if which == count - 1 {
        let before = merged(code, methods, count - 1);
        if !occurs_in(before, wanted) {
            lemma_occurs_in_appended(before, methods[which].implementation, wanted);
        }
    } else {
        lemma_merged_holds(code, methods, count - 1, which);
        let before = merged(code, methods, count - 1);
        if !occurs_in(before, methods[count - 1].function_definition) {
            lemma_occurs_in_extended(before, methods[count - 1].implementation, wanted);
        }
    }
}

/// Merging into a text that holds the first line of every method
/// changes nothing.
pub proof fn lemma_merged_unchanged(code: Seq<char>, methods: Seq<CustomMethodView>, count: int)
    requires
        0 <= count <= methods.len(),
        forall|i: int| 0 <= i < count ==> occurs_in(code, (#[trigger] methods[i]).function_definition),
    ensures
        merged(code, methods, count) == code,
    decreases count,
{
    if count > 0 {
        lemma_merged_unchanged(code, methods, count - 1);
    }
}

/// Merging is idempotent: where the definition of every method starts
/// with its first line, merging a second time changes nothing.
pub proof fn lemma_merge_idempotent(code: Seq<char>, methods: Seq<CustomMethodView>)
    requires
        forall|i: int|
            0 <= i < methods.len() ==> occurs_in(
                (#[trigger] methods[i]).implementation,
                methods[i].function_definition,
            ),
    ensures
        merged(merged(code, methods, methods.len() as int), methods, methods.len() as int)
            == merged(code, methods, methods.len() as int),
{
    let count = methods.len() as int;
    let once = merged(code, methods, count);
    assert forall|i: int| 0 <= i < count implies occurs_in(
        once,
        (#[trigger] methods[i]).function_definition,
    ) by {
        lemma_merged_holds(code, methods, count, i);
    }
    lemma_merged_unchanged(once, methods, count);
}

/// Generating again changes nothing in the code that is written by
/// hand: once the methods of a class have been merged into a text, merging
/// them again leaves the text as it is, and whatever the text held before
/// the first merge is still in front.
pub proof fn lemma_regeneration_keeps_custom_code(s: StructView, code: Seq<char>)
    ensures
        ({
            let methods = class_of(s).custom_methods;
            let once = merged(code, methods, methods.len() as int);
            &&& merged(once, methods, methods.len() as int) == once
            &&& has_prefix(once, code)
        }),
{
    let methods = class_of(s).custom_methods;
    let custom = struct_fns(s);
    assert forall|i: int| 0 <= i < methods.len() implies occurs_in(
        (#[trigger] methods[i]).implementation,
        methods[i].function_definition,
    ) by {
        lemma_formatted_first_line(custom[i].implementation);
        lemma_prefix_occurs(methods[i].implementation, methods[i].function_definition);
    }
    lemma_merge_idempotent(code, methods);
    lemma_merged_extends(code, methods, 0, methods.len() as int);
}

/// A run succeeds just when no structs depend on each other in a
/// cycle. It then writes out every struct once, and each struct after
/// every other struct that one of its fields refers to.
pub proof fn lemma_generated_after_dependencies(env: EnvironmentView)
    ensures
        generated(env) is Ok <==> !has_cycle(env.structs),
        generated(env) is Ok ==> ({
            let order = emission_order(env.structs)->Ok_0;
            let output = generated(env)->Ok_0;
            &&& output.structs.len() == env.structs.len()
            &&& forall|p: int|
                0 <= p < output.structs.len() ==> 0 <= order[p] < env.structs.len()
                    && #[trigger] output.structs[p] == struct_output(env.structs[order[p]])
            &&& forall|a: int| 0 <= a < env.structs.len() ==> order.contains(a)
            &&& forall|p: int, q: int|
                0 <= p < output.structs.len() && 0 <= q < output.structs.len()
                    && #[trigger] depends_on(env.structs, order[p], order[q]) ==> q < p
        }),
{
    lemma_ordered_iff_no_cycle(env.structs);
    if generated(env) is Ok {
        lemma_emitted_after_dependencies(env.structs);
    }
}

/// Where a file stands that is written to `path` below `folder`.
pub open spec fn path_below(folder: Seq<char>, path: Seq<char>) -> Seq<char> {
    if folder.len() == 0 {
        path
    } else if folder.last() == '/' {
        folder + path
    } else {
        folder + "/"@ + path
    }
}

/// The file, below `folder`.
pub open spec fn placed_file(folder: Seq<char>, file: FileView) -> FileView {
    FileView { path: path_below(folder, file.path), contents: file.contents }
}

/// What is written out for a struct, below `folder`.
pub open spec fn placed_struct(folder: Seq<char>, output: StructOutputView) -> StructOutputView {
    StructOutputView {
        folder: path_below(folder, output.folder),
        header: placed_file(folder, output.header),
        implementation: placed_file(folder, output.implementation),
        custom_path: path_below(folder, output.custom_path),
        custom_start: output.custom_start,
        custom_methods: output.custom_methods,
    }
}

/// What is written out for a free function, below `folder`.
pub open spec fn placed_function(
    folder: Seq<char>,
    output: FunctionOutputView,
) -> FunctionOutputView {
    FunctionOutputView {
        header: placed_file(folder, output.header),
        implementation: placed_file(folder, output.implementation),
    }
}

/// Everything that a run writes into `output_folder` for `env`, in the
/// order it is written: what `generated` gives, each file below the folder.
pub open spec fn compiled(output_folder: Seq<char>, env: EnvironmentView) -> Result<
    GeneratedView,
    ErrorView,
> {
    match generated(env) {
        Err(e) => Err(e),
        Ok(output) => Ok(
            GeneratedView {
                structs: Seq::new(
                    output.structs.len(),
                    |i: int| placed_struct(output_folder, output.structs[i]),
                ),
                functions: Seq::new(
                    output.functions.len(),
                    |i: int| placed_function(output_folder, output.functions[i]),
                ),
            },
        ),
    }
}

/// Where a file stands that is written to `path` below `folder`.
pub fn place(folder: &str, path: &str) -> (r: String)
    ensures
        r@ == path_below(folder@, path@),
{
    let parts = chars_of(folder);
    let mut out = String::from_str(folder);
    if parts.len() == 0 {
        assert(out@ + path@ =~= path@);
    } else if parts[parts.len() - 1] != '/' {
        out.append("/");
    }
    out.append(path);
    out
}

/// The file, below `folder`.
fn place_file(folder: &str, file: File) -> (r: File)
    ensures
        r@ == placed_file(folder@, file@),
{
    File { path: place(folder, file.path.as_str()), contents: file.contents }
}

/// What is written out for a struct, below `folder`.
fn place_struct(folder: &str, output: StructOutput) -> (r: StructOutput)
    ensures
        r@ == placed_struct(folder@, output@),
{
    StructOutput {
        folder: place(folder, output.folder.as_str()),
        header: place_file(folder, output.header),
        implementation: place_file(folder, output.implementation),
        custom_path: place(folder, output.custom_path.as_str()),
        custom_start: output.custom_start,
        custom_methods: output.custom_methods,
    }
}

/// What is written out for a free function, below `folder`.
fn place_function(folder: &str, output: FunctionOutput) -> (r: FunctionOutput)
    ensures
        r@ == placed_function(folder@, output@),
{
    FunctionOutput {
        header: place_file(folder, output.header),
        implementation: place_file(folder, output.implementation),
    }
}

/// Everything that a run writes into `output_folder` for `env`, in the
/// order it is written: a header, a generated implementation and a custom
/// implementation for each struct, each struct after the structs that its
/// fields refer to, then a header and an implementation for each free
/// function. The headers and the generated implementations are written
/// anew and begin with the disclaimer; `StructOutput::custom_contents` says
/// what becomes of a custom implementation. Fails just when structs
/// depend on each other in a cycle.
pub fn compile(output_folder: &str, env: &Environment) -> (r: Result<Generated, Error>)
    ensures
        match r {
            Ok(output) => compiled(output_folder@, env@) == Ok::<_, ErrorView>(output@),
            Err(e) => compiled(output_folder@, env@) == Err::<GeneratedView, _>(e@),
        },
        r is Ok <==> !has_cycle(env@.structs),
        r is Ok ==> forall|p: int|
            0 <= p < r->Ok_0@.structs.len() ==> has_prefix(
                (#[trigger] r->Ok_0@.structs[p]).header.contents,
                disclaimer(),
            ) && has_prefix(r->Ok_0@.structs[p].implementation.contents, disclaimer()),
        r is Ok ==> forall|k: int|
            0 <= k < r->Ok_0@.functions.len() ==> has_prefix(
                (#[trigger] r->Ok_0@.functions[k]).header.contents,
                disclaimer(),
            ) && has_prefix(r->Ok_0@.functions[k].implementation.contents, disclaimer()),
{
    proof {
        if compiled(output_folder@, env@) is Ok {
            lemma_compiled_files_begin_with_disclaimer(output_folder@, env@);
        }
    }
    let output = generate(env)?;
    let ghost relative = output@;
    let Generated { structs, functions } = output;
    let mut structs = structs;
    let mut functions = functions;

    let mut placed_structs: Vec<StructOutput> = Vec::new();
    let ghost mut done: int = 0;
    while structs.len() > 0
        invariant
            0 <= done <= relative.structs.len(),
            structs@.map_values(|s: StructOutput| s@) == relative.structs.skip(done),
            placed_structs@.map_values(|s: StructOutput| s@) == Seq::new(
                done as nat,
                |i: int| placed_struct(output_folder@, relative.structs[i]),
            ),
        decreases structs.len(),
    {
        let ghost before = placed_structs@.map_values(|s: StructOutput| s@);
        let ghost left = structs@.map_values(|s: StructOutput| s@);
        let next = structs.remove(0);
        assert(left[0] == next@);
        assert(structs@.map_values(|s: StructOutput| s@) =~= left.skip(1));
        assert(relative.structs.skip(done).skip(1) =~= relative.structs.skip(done + 1));
        assert(relative.structs.skip(done)[0] == relative.structs[done]);
        placed_structs.push(place_struct(output_folder, next));
        assert(placed_structs@.map_values(|s: StructOutput| s@) =~= before.push(
            placed_struct(output_folder@, next@),
        ));
        proof {
            done = done + 1;
        }
    }

    let mut placed_functions: Vec<FunctionOutput> = Vec::new();
    let ghost mut done: int = 0;
    while functions.len() > 0
        invariant
            0 <= done <= relative.functions.len(),
            functions@.map_values(|f: FunctionOutput| f@) == relative.functions.skip(done),
            placed_functions@.map_values(|f: FunctionOutput| f@) == Seq::new(
                done as nat,
                |i: int| placed_function(output_folder@, relative.functions[i]),
            ),
        decreases functions.len(),
    {
        let ghost before = placed_functions@.map_values(|f: FunctionOutput| f@);
        let ghost left = functions@.map_values(|f: FunctionOutput| f@);
        let next = functions.remove(0);
        assert(left[0] == next@);
        assert(functions@.map_values(|f: FunctionOutput| f@) =~= left.skip(1));
        assert(relative.functions.skip(done).skip(1) =~= relative.functions.skip(done + 1));
        assert(relative.functions.skip(done)[0] == relative.functions[done]);
        placed_functions.push(place_function(output_folder, next));
        assert(placed_functions@.map_values(|f: FunctionOutput| f@) =~= before.push(
            placed_function(output_folder@, next@),
        ));
        proof {
            done = done + 1;
        }
    }

    let placed = Generated { structs: placed_structs, functions: placed_functions };
    assert(placed@.structs =~= compiled(output_folder@, env@)->Ok_0.structs);
    assert(placed@.functions =~= compiled(output_folder@, env@)->Ok_0.functions);
    Ok(placed)
}

/// The class of a struct lists its fields first, one public member to
/// a line in the order they were declared, then the declarations of the
/// eight methods that every class gets, in a fixed order, then those of
/// its member functions. A struct without member functions has no method
/// that is written by hand: its custom implementation starts, and stays,
/// as the include line alone.
pub proof fn lemma_class_layout(s: StructView)
    ensures
        class_of(s).header_definition == formatted(
            "class "@ + identifier_text(s.name) + " \n{\n"@ + "public:\n"@ + joined(
                member_lines(s.fields),
                ""@,
            ) + joined(declarations(generated_methods(s)), ""@) + joined(
                declarations(struct_fns(s)),
                ""@,
            ) + "};\n"@,
        ),
        member_lines(s.fields).len() == s.fields.len(),
        forall|i: int|
            0 <= i < s.fields.len() ==> #[trigger] member_lines(s.fields)[i] == "\t"@
                + reference_text(field_reference(s.fields[i])) + " "@ + identifier_text(
                s.fields[i].name,
            ) + ";\n"@,
        declarations(generated_methods(s)) == seq![
            constructor(s).header_declaration,
            copy_constructor(s).header_declaration,
            destructor(s).header_declaration,
            copy_to(s).header_declaration,
            clone_method(s).header_declaration,
            equality_operator(s).header_declaration,
            inequality_operator(s).header_declaration,
            assignment_operator(s).header_declaration,
        ],
        class_of(s).custom_methods.len() == s.functions.len(),
        s.functions.len() == 0 ==> merged(
            custom_start(s.name),
            class_of(s).custom_methods,
            class_of(s).custom_methods.len() as int,
        ) == custom_start(s.name),
{
    assert(declarations(generated_methods(s)) =~= seq![
        constructor(s).header_declaration,
        copy_constructor(s).header_declaration,
        destructor(s).header_declaration,
        copy_to(s).header_declaration,
        clone_method(s).header_declaration,
        equality_operator(s).header_declaration,
        inequality_operator(s).header_declaration,
        assignment_operator(s).header_declaration,
    ]);
}

/// A second run changes nothing in the custom implementation of a
/// struct: what the first run left, the second leaves as it is, and what
/// was there before the first run is still in front.
pub proof fn lemma_second_run_keeps_custom_file(s: StructView, existing: Option<Seq<char>>)
    ensures
        ({
            let output = struct_output(s);
            let count = output.custom_methods.len() as int;
            let before = custom_before(existing, output.custom_start);
            let once = merged(before, output.custom_methods, count);
            &&& merged(
                custom_before(Some(once), output.custom_start),
                output.custom_methods,
                count,
            ) == once
            &&& has_prefix(once, before)
        }),
{
    lemma_regeneration_keeps_custom_code(
        s,
        custom_before(existing, struct_output(s).custom_start),
    );
}

/// The files of a struct that are written anew begin with the
/// disclaimer; its custom implementation, started by a run, does not.
pub proof fn lemma_struct_files_and_disclaimer(s: StructView)
    ensures
        has_prefix(struct_output(s).header.contents, disclaimer()),
        has_prefix(struct_output(s).implementation.contents, disclaimer()),
        !has_prefix(
            merged(
                struct_output(s).custom_start,
                struct_output(s).custom_methods,
                struct_output(s).custom_methods.len() as int,
            ),
            disclaimer(),
        ),
{
    let output = struct_output(s);
    let d = disclaimer();
    assert(output.header.contents.take(d.len() as int) =~= d);
    assert(output.implementation.contents.take(d.len() as int) =~= d);
    let count = output.custom_methods.len() as int;
    let fresh = merged(output.custom_start, output.custom_methods, count);
    lemma_merged_extends(output.custom_start, output.custom_methods, 0, count);
    reveal_strlit("#include \"../");
    reveal_strlit("// This file was generated by wc-gen. Do not modify this file manually.\n");
    assert(output.custom_start[0] == '#');
    assert(fresh.take(output.custom_start.len() as int)[0] == fresh[0]);
    assert(d[0] == '/');
    if has_prefix(fresh, d) {
        assert(fresh.take(d.len() as int)[0] == fresh[0]);
    }
}

/// Both files of a free function begin with the disclaimer.
pub proof fn lemma_function_files_and_disclaimer(f: FunctionView)
    ensures
        has_prefix(function_output(f).header.contents, disclaimer()),
        has_prefix(function_output(f).implementation.contents, disclaimer()),
{
    let output = function_output(f);
    let d = disclaimer();
    assert(output.header.contents.take(d.len() as int) =~= d);
    assert(output.implementation.contents.take(d.len() as int) =~= d);
}

/// What a run writes into a folder. It succeeds just when no structs
/// depend on each other in a cycle. It then writes, below the folder, the
/// files of every struct once, each struct after every other struct that
/// one of its fields refers to, and then the files of every free function
/// in the order they were declared. The same environment gives the same
/// files.
pub proof fn lemma_compiled(output_folder: Seq<char>, env: EnvironmentView)
    ensures
        compiled(output_folder, env) is Ok <==> !has_cycle(env.structs),
        compiled(output_folder, env) is Ok ==> ({
            let order = emission_order(env.structs)->Ok_0;
            let output = compiled(output_folder, env)->Ok_0;
            &&& output.structs.len() == env.structs.len()
            &&& output.functions.len() == env.functions.len()
            &&& forall|a: int| 0 <= a < env.structs.len() ==> order.contains(a)
            &&& forall|p: int|
                0 <= p < output.structs.len() ==> 0 <= #[trigger] order[p] < env.structs.len()
                    && output.structs[p] == placed_struct(
                    output_folder,
                    struct_output(env.structs[order[p]]),
                )
            &&& forall|p: int, q: int|
                0 <= p < output.structs.len() && 0 <= q < output.structs.len()
                    && #[trigger] depends_on(env.structs, order[p], order[q]) ==> q < p
            &&& forall|k: int|
                0 <= k < output.functions.len() ==> #[trigger] output.functions[k]
                    == placed_function(output_folder, function_output(env.functions[k]))
        }),
{
    lemma_generated_after_dependencies(env);
    if compiled(output_folder, env) is Ok {
        let order = emission_order(env.structs)->Ok_0;
        let relative = generated(env)->Ok_0;
        let output = compiled(output_folder, env)->Ok_0;
        assert forall|p: int| 0 <= p < output.structs.len() implies 0 <= #[trigger] order[p]
            < env.structs.len() && output.structs[p] == placed_struct(
            output_folder,
            struct_output(env.structs[order[p]]),
        ) by {
            assert(relative.structs[p] == struct_output(env.structs[order[p]]));
        }
    }
}

/// Every file that a run writes anew begins with the disclaimer: the
/// header and the generated implementation of each struct, and both files
/// of each free function.
pub proof fn lemma_compiled_files_begin_with_disclaimer(
    output_folder: Seq<char>,
    env: EnvironmentView,
)
    requires
        compiled(output_folder, env) is Ok,
    ensures
        forall|p: int|
            0 <= p < compiled(output_folder, env)->Ok_0.structs.len() ==> has_prefix(
                (#[trigger] compiled(output_folder, env)->Ok_0.structs[p]).header.contents,
                disclaimer(),
            ) && has_prefix(
                compiled(output_folder, env)->Ok_0.structs[p].implementation.contents,
                disclaimer(),
            ),
        forall|k: int|
            0 <= k < compiled(output_folder, env)->Ok_0.functions.len() ==> has_prefix(
                (#[trigger] compiled(output_folder, env)->Ok_0.functions[k]).header.contents,
                disclaimer(),
            ) && has_prefix(
                compiled(output_folder, env)->Ok_0.functions[k].implementation.contents,
                disclaimer(),
            ),
{
    lemma_compiled(output_folder, env);
    let order = emission_order(env.structs)->Ok_0;
    let output = compiled(output_folder, env)->Ok_0;
    assert forall|p: int| 0 <= p < output.structs.len() implies has_prefix(
        (#[trigger] output.structs[p]).header.contents,
        disclaimer(),
    ) && has_prefix(output.structs[p].implementation.contents, disclaimer()) by {
        lemma_struct_files_and_disclaimer(env.structs[order[p]]);
        assert(0 <= order[p] < env.structs.len());
    }
    assert forall|k: int| 0 <= k < output.functions.len() implies has_prefix(
        (#[trigger] output.functions[k]).header.contents,
        disclaimer(),
    ) && has_prefix(output.functions[k].implementation.contents, disclaimer()) by {
        lemma_function_files_and_disclaimer(env.functions[k]);
    }
}

} // verus!
