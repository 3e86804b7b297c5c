use wc_gen::definition::enum_::{Enum, Variant};
use wc_gen::definition::field::Field;
use wc_gen::definition::function::{Function, Parameter};
use wc_gen::definition::output::{Output, TargetLanguage};
use wc_gen::definition::struct_::Struct;
use wc_gen::definition::type_::Type;
use wc_gen::definition::FromLisp;
use wc_gen::lisp::{Error, List, Location, Node};

/// Reads the lists of a source text, each node with its line and column.
fn read(input: &str) -> Vec<List> {
    let chars: Vec<char> = input.chars().collect();
    let mut stack: Vec<List> = Vec::new();
    let mut done: Vec<List> = Vec::new();
    let mut line = 0;
    let mut column = 0;
    let mut i = 0;
    while i < chars.len() {
        let c = chars[i];
        let location = Location { line, column, file: None };
        if c == '(' {
            stack.push(List::new(location, Vec::new()));
            i += 1;
            column += 1;
        } else if c == ')' {
            let list = stack.pop().unwrap();
            match stack.last_mut() {
                Some(parent) => parent.items.push(Node::List(list)),
                None => done.push(list),
            }
            i += 1;
            column += 1;
        } else if c.is_whitespace() {
            i += 1;
            if c == '\n' {
                line += 1;
                column = 0;
            } else {
                column += 1;
            }
        } else {
            let mut text = String::new();
            while i < chars.len() && !chars[i].is_whitespace() && chars[i] != '(' && chars[i] != ')' {
                text.push(chars[i]);
                i += 1;
                column += 1;
            }
            let first = text.chars().next().unwrap();
            let literal = first.is_ascii_digit() || first == '"' || text == "true" || text == "false";
            let node = if literal {
                Node::Literal { text, location }
            } else {
                Node::Identifier { name: text, location }
            };
            stack.last_mut().unwrap().items.push(node);
        }
    }
    done
}

/// Reads the first list of a source text.
fn parse(input: &str) -> List {
    read(input).remove(0)
}

fn parse_fn(input: &str) -> Result<Function, Error> {
    Function::from_lisp(parse(input))
}

fn field(name: &str, type_: Type) -> Field {
    Field {
        location: Location::default(),
        name: name.to_string(),
        type_,
    }
}

fn related(types: Vec<(Location, Type)>) -> Vec<Type> {
    let mut result = types.iter().map(|(_, ty)| ty.clone()).collect::<Vec<_>>();
    result.sort();
    result
}

// Structs

#[test]
fn struct__can_try_empty_returns_false() {
    let input = parse("()");
    assert_eq!(Struct::can_try(&input), false);
}

#[test]
fn struct__can_try_not_identifier_returns_false() {
    let input = parse("(foo-bar)");
    assert_eq!(Struct::can_try(&input), false);
}

#[test]
fn struct__can_try_identifier_returns_true() {
    let input = parse(format!("({})", Struct::identifier()).as_str());
    assert_eq!(Struct::can_try(&input), true);
}

#[test]
fn from_lisp_wrong_type_returns_err() {
    let input = parse("(f00 foo)");
    let expected = Err("Expected identifier 'struct'".into());

    assert_eq!(Struct::from_lisp(input), expected);
}

#[test]
fn from_lisp_fields_returns_empty() {
    let input = parse("(struct foo)");
    let expected = Struct {
        location: Location::default(),
        name: "foo".to_string(),
        fields: Vec::new(),
        functions: Vec::new(),
    };

    assert_eq!(Struct::from_lisp(input), Ok(expected));
}

#[test]
fn parses_function_returns_struct() {
    let input = parse(
        "
(struct Aabb
    (fields 
        (i32 x-min)
        (i32 y-min)
        (i32 x-max)
        (i32 y-max))
    (fn collides? ((Aabb other)) bool))",
    );
    let actual = Struct::from_lisp(input).unwrap();

    let expected = Struct {
        location: Location::default(),
        name: "Aabb".to_string(),
        fields: vec![
            Field {
                location: Location::default(),
                name: "x-min".to_string(),
                type_: Type::I32,
            },
            Field {
                location: Location::default(),
                name: "y-min".to_string(),
                type_: Type::I32,
            },
            Field {
                location: Location::default(),
                name: "x-max".to_string(),
                type_: Type::I32,
            },
            Field {
                location: Location::default(),
                name: "y-max".to_string(),
                type_: Type::I32,
            },
        ],
        functions: vec![Function {
            location: Location::default(),
            name: "collides?".to_string(),
            parameters: vec![Parameter {
                location: Location::default(),
                name: "other".to_string(),
                type_: Type::Identifier("Aabb".to_string()),
            }],
            return_type: (Location::default(), Type::Bool),
        }],
    };

    assert_eq!(actual, expected);
    assert_eq!(actual.functions, expected.functions);
}

#[test]
fn parses_two_function_returns_struct() {
    let input = parse(
        "
(struct Aabb
    (fields 
        (i32 x-min)
        (i32 y-min)
        (i32 x-max)
        (i32 y-max))
    (fn collides? ((Aabb other)) bool)
    (fn print () void))",
    );
    let actual = Struct::from_lisp(input).unwrap();

    let expected = Struct {
        location: Location::default(),
        name: "Aabb".to_string(),
        fields: vec![
            Field {
                location: Location::default(),
                name: "x-min".to_string(),
                type_: Type::I32,
            },
            Field {
                location: Location::default(),
                name: "y-min".to_string(),
                type_: Type::I32,
            },
            Field {
                location: Location::default(),
                name: "x-max".to_string(),
                type_: Type::I32,
            },
            Field {
                location: Location::default(),
                name: "y-max".to_string(),
                type_: Type::I32,
            },
        ],
        functions: vec![
            Function {
                location: Location::default(),
                name: "print".to_string(),
                parameters: vec![],
                return_type: (Location::default(), Type::Void),
            },
            Function {
                location: Location::default(),
                name: "collides?".to_string(),
                parameters: vec![Parameter {
                    location: Location::default(),
                    name: "other".to_string(),
                    type_: Type::Identifier("Aabb".to_string()),
                }],
                return_type: (Location::default(), Type::Bool),
            },
        ],
    };

    assert_eq!(actual, expected);
    // The member functions stand in the order they were declared.
    let names: Vec<&str> = actual.functions.iter().map(|f| f.name.as_str()).collect();
    assert_eq!(names, vec!["collides?", "print"]);
}

#[test]
fn parses_function_duplicate_returns_err() {
    let input = parse(
        "
(struct Aabb
    (fields 
        (i32 x-min)
        (i32 y-min)
        (i32 x-max)
        (i32 y-max))
    (fn collides? ((Aabb other)) bool)
    (fn collides? ((Aabb other)) bool))",
    );
    let actual = Struct::from_lisp(input);

    let expected = Err("Duplicate function 'collides?'".into());

    assert_eq!(actual, expected);
}

#[test]
fn from_list_try_fields_returns_err() {
    let input = parse(
        "(struct foo 
        (fieldo (i64 bar)))",
    );
    let expected = Err("Expected fields".into());

    assert_eq!(Struct::from_lisp(input), expected);
}

#[test]
fn from_list_try_fields_not_list_returns_err() {
    let input = parse(
        "(struct foo 
        (fields i64))",
    );
    let expected = Err("Expected property list".into());

    assert_eq!(Struct::from_lisp(input), expected);
}

#[test]
fn from_list_parses_single_field() {
    let input = parse(
        "(struct foo 
        (fields (i64 bar)))",
    );

    let expected = Struct {
        location: Location::default(),
        name: "foo".to_string(),
        fields: vec![field("bar", Type::I64)],
        functions: Vec::new(),
    };

    assert_eq!(Struct::from_lisp(input), Ok(expected));
}

#[test]
fn from_list_parses_multiple_fields() {
    let input = parse(
        "(struct foo 
        (fields 
            (i64 bar)
            (bool baz)
            (string qux)
        ))",
    );

    let expected = Struct {
        location: Location::default(),
        name: "foo".to_string(),
        fields: vec![
            field("bar", Type::I64),
            field("baz", Type::Bool),
            field("qux", Type::String),
        ],
        functions: Vec::new(),
    };

    assert_eq!(Struct::from_lisp(input), Ok(expected));
}

#[test]
fn from_list_duplicate_fields_returns_err() {
    let input = parse(
        "(struct foo 
        (fields (i64 bar) (i64 bar)))",
    );

    let expected = Err("Duplicate property 'bar'".into());

    assert_eq!(Struct::from_lisp(input), expected);
}

#[test]
fn struct__get_related_types() {
    let input = "(struct Shape 
            (fields 
                (i64 x) 
                (i64 y) 
                (i64 z) 
                (i64[] points) 
                (Point point) 
                (Point[] point2s) )
            )";
    let list = parse(input);
    let value = Struct::from_lisp(list).unwrap();
    let mut expected = vec![
        Type::I64,
        Type::I64,
        Type::I64,
        Type::List(Box::new(Type::I64)),
        Type::Identifier("Point".into()),
        Type::List(Box::new(Type::Identifier("Point".into()))),
    ];

    let result = related(value.get_related_types());

    expected.sort();

    assert_eq!(result, expected);
}

#[test]
fn get_related_types_includes_fn() {
    let input = "(struct Shape 
            (fields 
                (i64 x) 
                (i64 y) 
                (i64 z) 
                (i64[] points) 
                (Point point) 
                (Point[] point2s) )
            (fn collides? ((Shape other)) bool)
            )";
    let list = parse(input);
    let value = Struct::from_lisp(list).unwrap();
    let mut expected = vec![
        Type::I64,
        Type::I64,
        Type::I64,
        Type::Bool,
        Type::List(Box::new(Type::I64)),
        Type::Identifier("Point".into()),
        Type::List(Box::new(Type::Identifier("Point".into()))),
        Type::Identifier("Shape".into()),
    ];

    let result = related(value.get_related_types());

    expected.sort();

    assert_eq!(result, expected);
}

#[test]
fn struct_related_types_come_in_declaration_order() {
    let value = Struct::from_lisp(parse(
        "(struct Shape (fields (i64 x) (Point[] points)) (fn area ((bool exact)) f32))",
    ))
    .unwrap();
    let types: Vec<Type> = value
        .get_related_types()
        .into_iter()
        .map(|(_, ty)| ty)
        .collect();
    assert_eq!(
        types,
        vec![
            Type::I64,
            Type::List(Box::new(Type::Identifier("Point".into()))),
            Type::Float,
            Type::Bool,
        ]
    );
}

#[test]
fn struct_referenced_structs_follow_the_fields() {
    let value = Struct::from_lisp(parse(
        "(struct Shape (fields (i64 x) (Point p) (Line[][] lines) (string name)))",
    ))
    .unwrap();
    assert_eq!(
        value.get_referenced_structs(),
        vec!["Point".to_string(), "Line".to_string()]
    );
}

#[test]
fn struct_without_name_returns_err() {
    assert_eq!(Struct::from_lisp(parse("(struct)")), Err("Expected name".into()));
    assert_eq!(Struct::from_lisp(parse("(struct 12)")), Err("Expected name".into()));
}

#[test]
fn struct_with_unrecognized_sub_list_returns_err() {
    let result = Struct::from_lisp(parse("(struct foo (fields (i64 a)) (method bar))"));
    let error = result.unwrap_err();
    assert_eq!(error.message, "Expected end of list");
    assert_eq!(error.location.column, 29);
    assert_eq!(
        Struct::from_lisp(parse("(struct foo (fields) bar)")),
        Err("Expected functions".into())
    );
}

#[test]
fn struct_functions_without_fields_returns_err() {
    assert_eq!(
        Struct::from_lisp(parse("(struct foo (fn f () void))")),
        Err("Expected fields".into())
    );
}

#[test]
fn struct_errors_carry_their_place() {
    let error = Struct::from_lisp(parse("(struct foo\n  (fields (i64 bar)\n          (i64 bar)))"))
        .unwrap_err();
    assert_eq!(error.message, "Duplicate property 'bar'");
    assert_eq!(error.location.line, 2);
    assert_eq!(error.location.column, 15);
}

#[test]
fn struct_without_keyword_returns_err() {
    assert_eq!(Struct::from_lisp(parse("()")), Err("Expected type".into()));
    assert_eq!(Struct::from_lisp(parse("((struct))")), Err("Expected type".into()));
}

// Enums

fn variant(name: &str, values: Vec<Field>) -> Variant {
    Variant {
        location: Location::default(),
        name: name.to_string(),
        values,
    }
}

#[test]
fn enum__can_try_returns_false() {
    let input = "(funco life () int 42)";
    let list = parse(input);
    assert_eq!(false, Enum::can_try(&list));
}

#[test]
fn enum__can_try_returns_true() {
    let input = "(enum Shape Circle Square Triangle)";
    let list = parse(input);
    assert_eq!(true, Enum::can_try(&list));
}

#[test]
fn from_lisp_no_identifer_returns_err() {
    let input = "(enum)";
    let list = parse(input);
    let result = Enum::from_lisp(list);
    let expected = Err("Expected enum name".into());
    assert_eq!(result, expected);
}

#[test]
fn from_lisp_no_values_returns_enum() {
    let input = "(enum Shape)";
    let list = parse(input);
    let expected = Enum {
        location: Location::default(),
        name: "Shape".to_string(),
        variants: Vec::new(),
    };
    let result = Enum::from_lisp(list);
    assert_eq!(result, Ok(expected));
}

#[test]
fn from_lisp_duplicate_simple_variants_returns_errors() {
    let input = "(enum Shape Circle Square Circle)";
    let list = parse(input);
    let expected = Err("Duplicate variant 'Circle'".into());
    let result = Enum::from_lisp(list);
    assert_eq!(result, expected);
}

#[test]
fn from_lisp_parses_simple_variants() {
    let input = "(enum Shape Circle Square Triangle)";
    let list = parse(input);
    let expected = Enum {
        location: Location::default(),
        name: "Shape".to_string(),
        variants: vec![
            variant("Circle", Vec::new()),
            variant("Square", Vec::new()),
            variant("Triangle", Vec::new()),
        ],
    };
    let result = Enum::from_lisp(list);
    assert_eq!(result, Ok(expected));
}

#[test]
fn from_lisp_complex_variant_no_identifier() {
    let input = "(enum Literal (String string))";
    let expected = Enum {
        location: Location::default(),
        name: "Literal".to_string(),
        variants: vec![variant("String", vec![field("value", Type::String)])],
    };

    assert_eq!(Enum::from_lisp(parse(input)), Ok(expected));
}

#[test]
fn from_lisp_complex_variant_no_identifier_returns_err_multiple_types() {
    let input = "(enum Literal (String string string))";
    let expected = Err("A complex variant without named fields must only have one value".into());

    assert_eq!(Enum::from_lisp(parse(input)), expected);
}

#[test]
fn from_lisp_parses_complex_variant() {
    let input = "(enum Shape (Point (i64 x) (i64 y)))";
    let list = parse(input);
    let expected = Enum {
        location: Location::default(),
        name: "Shape".to_string(),
        variants: vec![variant(
            "Point",
            vec![field("x", Type::I64), field("y", Type::I64)],
        )],
    };
    let result = Enum::from_lisp(list);
    assert_eq!(result, Ok(expected));
}

#[test]
fn from_lisp_complex_variant_duplicate_fields_returns_err() {
    let input = "(enum Shape (Point (i64 x) (i64 x)))";
    let list = parse(input);
    let expected = Err("Duplicate complex variant property 'x'".into());
    let result = Enum::from_lisp(list);
    assert_eq!(result, expected);
}

#[test]
fn from_lisp_duplicate_simple_and_complex_variant_returns_err() {
    let input = "(enum Shape Point (Point (i64 x)))";
    let list = parse(input);
    let expected = Err("Duplicate variant 'Point'".into());
    let result = Enum::from_lisp(list);
    assert_eq!(result, expected);
}

#[test]
fn enum__get_related_types() {
    let input = "(enum Shape 
            Aabb 
            (Circle (i64 x)) 
            (Rectangle (i64 x) (i64 y))
            (Line i64[]) 
            (Point Point)
            (Polygon Point[]) 
            )";
    let list = parse(input);
    let value = Enum::from_lisp(list).unwrap();
    let mut expected = vec![
        Type::I64,
        Type::I64,
        Type::I64,
        Type::List(Box::new(Type::I64)),
        Type::Identifier("Point".into()),
        Type::List(Box::new(Type::Identifier("Point".into()))),
    ];

    let result = related(value.get_related_types());

    expected.sort();

    assert_eq!(result, expected);
}

#[test]
fn enum_variant_errors() {
    assert_eq!(
        Enum::from_lisp(parse("(enum Shape 12)")),
        Err("Expected variant name".into())
    );
    assert_eq!(
        Enum::from_lisp(parse("(enum Shape ())")),
        Err("Expected variant name".into())
    );
    assert_eq!(
        Enum::from_lisp(parse("(enum Shape (Line void[]))")),
        Err("void can not be attached to a list".into())
    );
    assert_eq!(
        Enum::from_lisp(parse("(enum Shape (Point (i64 x) y))")),
        Err("Expected complex variant property list".into())
    );
}

#[test]
fn enum_equality_ignores_places() {
    let a = Enum::from_lisp(parse("(enum Shape Circle (Point (i64 x)))")).unwrap();
    let b = Enum::from_lisp(parse("\n\n   (enum Shape Circle\n (Point (i64 x)))")).unwrap();
    let c = Enum::from_lisp(parse("(enum Shape (Point (i64 x)) Circle)")).unwrap();
    assert_eq!(a, b);
    assert_ne!(a.location, b.location);
    assert_ne!(a, c);
}

// Functions

#[test]
fn mod_can_try_returns_false() {
    let input = "(funco life () i64)";
    let list = parse(input);
    assert_eq!(false, Function::can_try(&list));
}

#[test]
fn mod_can_try_returns_true() {
    let input = "(fn life () i64)";
    let list = parse(input);
    assert_eq!(true, Function::can_try(&list));
}

#[test]
fn from_lisp_invalid_identifier_returns_err() {
    let input = "(fn 1234 () i64)";
    let result = parse_fn(input);
    let expected = "Expected function identifier".into();
    assert_eq!(result, Err(expected));
}

#[test]
fn from_lisp_invalid_param_type_returns_err() {
    let input = "(fn life true i64)";
    let result = parse_fn(input);
    let expected = "Expected list for parameters".into();
    assert_eq!(result, Err(expected));
}

#[test]
fn from_lisp_invalid_param_shape_returns_err() {
    let input = "(fn life (true) i64)";
    let result = parse_fn(input);
    let expected = "Expected parameter list".into();
    assert_eq!(result, Err(expected));
}

#[test]
fn from_lisp_duplicate_param_name_returns_err() {
    let input = "(fn life ((i64 a) (i64 a)) i64)";
    let result = parse_fn(input);
    let expected = "Duplicate parameter 'a'".into();
    assert_eq!(result, Err(expected));
}

#[test]
fn from_lisp_invalid_return_type_returns_err() {
    let input = "(fn life () true 42)";
    let result = parse_fn(input);
    let expected = "Expected valid return type".into();
    assert_eq!(result, Err(expected));
}

#[test]
fn from_lisp_simple_function_no_args_returns_ok() {
    let input = "(fn life-meaning () i64)";
    let result = parse_fn(input);

    let expected = Function {
        location: Location::default(),
        name: "life-meaning".into(),
        parameters: vec![],
        return_type: (Location::default(), Type::I64),
    };

    assert_eq!(result, Ok(expected));
}

#[test]
fn get_related_types_for_simple_function_no_args_returns_expected() {
    let input = "(fn life-meaning () i64)";
    let result = related(parse_fn(input).unwrap().get_related_types());

    let mut expected = vec![Type::I64];
    expected.sort();
    assert_eq!(result, expected);
}

#[test]
fn from_lisp_simple_function_w_args_returns_ok() {
    let input = "(fn life-meaning ((i64 a) (i64 b)) i64)";
    let result = parse_fn(input);

    let expected = Function {
        location: Location::default(),
        name: "life-meaning".into(),
        parameters: vec![
            Parameter {
                location: Location::default(),
                name: "a".into(),
                type_: Type::I64,
            },
            Parameter {
                location: Location::default(),
                name: "b".into(),
                type_: Type::I64,
            },
        ],
        return_type: (Location::default(), Type::I64),
    };

    assert_eq!(result, Ok(expected));
}

#[test]
fn get_related_types_for_simple_function_w_args_returns_expected() {
    let input = "(fn life-meaning ((i64[] a) (i64 b)) i64)";
    let result = related(parse_fn(input).unwrap().get_related_types());

    let mut expected = vec![Type::List(Box::new(Type::I64)), Type::I64, Type::I64];
    expected.sort();
    assert_eq!(result, expected);
}

#[test]
fn get_related_types_for_simple_function_bool_returns_expected() {
    let input = "(fn life-meaning ((i64[] a) (i64 b)) bool)";
    let result = related(parse_fn(input).unwrap().get_related_types());

    let mut expected = vec![Type::List(Box::new(Type::I64)), Type::Bool, Type::I64];
    expected.sort();
    assert_eq!(result, expected);
}

#[test]
fn get_related_types_for_simple_function_string_returns_expected() {
    let input = "(fn life-meaning () string)";
    let result = related(parse_fn(input).unwrap().get_related_types());

    let mut expected = vec![Type::String];
    expected.sort();
    assert_eq!(result, expected);
}

#[test]
fn get_related_types_for_simple_function_float_returns_expected() {
    let input = "(fn life-meaning () f32)";
    let result = related(parse_fn(input).unwrap().get_related_types());

    let mut expected = vec![Type::Float];
    expected.sort();
    assert_eq!(result, expected);
}

#[test]
fn get_related_types_for_identifier_returns_expected() {
    let input = "(fn life-meaning ((Point a)) i64)";
    let result = related(parse_fn(input).unwrap().get_related_types());

    let mut expected = vec![Type::Identifier("Point".into()), Type::I64];
    expected.sort();
    assert_eq!(result, expected);
}

#[test]
fn parse_returns_expr() {
    let input = "(fn life-meaning () void )";
    let result = related(parse_fn(input).unwrap().get_related_types());

    let mut expected = vec![Type::Void];
    expected.sort();
    assert_eq!(result, expected);
}

#[test]
fn function_content_after_return_type_returns_err() {
    let error = parse_fn("(fn life () i64 42)").unwrap_err();
    assert_eq!(error.message, "Expected end of list");
    assert_eq!(error.location.column, 16);
}

#[test]
fn function_parameter_errors() {
    assert_eq!(
        parse_fn("(fn life ((i64)) i64)"),
        Err("Expected parameter name".into())
    );
    assert_eq!(
        parse_fn("(fn life ((12 a)) i64)"),
        Err("Expected parameter type".into())
    );
    assert_eq!(
        parse_fn("(fn life ((void[] a)) i64)"),
        Err("void can not be attached to a list".into())
    );
    assert_eq!(parse_fn("(fn life ((i64 a)))"), Err("Expected valid return type".into()));
    assert_eq!(parse_fn("(fn life ((i64 a)) i64[)"), Err("Unclosed list".into()));
}

#[test]
fn function_duplicate_parameter_is_reported_at_the_second() {
    let error = parse_fn("(fn life ((i64 a) (bool b) (string a)) i64)").unwrap_err();
    assert_eq!(error.message, "Duplicate parameter 'a'");
    assert_eq!(error.location.column, 28);
}

#[test]
fn function_equality_ignores_places() {
    let a = parse_fn("(fn life ((i64 a)) i64)").unwrap();
    let b = parse_fn("\n(fn   life (\n(i64 a)) i64)").unwrap();
    assert_eq!(a, b);
    assert_ne!(a.location, b.location);
    assert_ne!(a, parse_fn("(fn life ((i64 a)) i32)").unwrap());
    assert_ne!(a, parse_fn("(fn life ((i64 b)) i64)").unwrap());
    assert_ne!(a, parse_fn("(fn live ((i64 a)) i64)").unwrap());
}

// Outputs

#[test]
fn output_can_try_empty_returns_false() {
    let input = parse("()");
    assert_eq!(Output::can_try(&input), false);
}

#[test]
fn output_can_try_not_identifier_returns_false() {
    let input = parse("(foo-bar)");
    assert_eq!(Output::can_try(&input), false);
}

#[test]
fn output_can_try_identifier_returns_true() {
    let input = parse(format!("({})", Output::identifier()).as_str());
    assert_eq!(Output::can_try(&input), true);
}

#[test]
fn unknown_language_returns_error() {
    let input = "(output unknown ../output)";
    let list = parse(input);
    let value = Output::from_lisp(list);
    assert!(value.is_err());
    assert_eq!(value, Err("Unknown language 'unknown'".into()))
}

#[test]
fn outputs_cpp() {
    // Nothing may follow the folder.
    let input = "(output c++ ../output main.hpp)";
    let list = parse(input);
    assert_eq!(Output::from_lisp(list), Err("Expected end of list".into()));

    let input = "(output c++ ../output)";
    let list = parse(input);
    let value = Output::from_lisp(list).unwrap();
    let expected = Output {
        location: Location::default(),
        folder: "../output".to_string(),
        language: TargetLanguage::Cpp,
    };

    assert_eq!(value, expected);
    assert_eq!(value.get_related_types(), vec![]);
}

#[test]
fn output_errors() {
    assert_eq!(Output::from_lisp(parse("(output)")), Err("Expected language".into()));
    assert_eq!(Output::from_lisp(parse("(output cpp)")), Err("Expected folder".into()));
    assert_eq!(
        Output::from_lisp(parse("(output cpp (out))")),
        Err("Expected folder".into())
    );
}

#[test]
fn keywords() {
    assert_eq!(Struct::identifier(), "struct");
    assert_eq!(Enum::identifier(), "enum");
    assert_eq!(Function::identifier(), "fn");
    assert_eq!(Output::identifier(), "output");
}

#[test]
fn parse_field_adds_to_the_fields() {
    let mut list = parse("((i64 a) (bool b) (i64 a))");
    let mut fields = Vec::new();
    assert_eq!(Field::parse_field("member", &mut list, &mut fields), Ok(()));
    assert_eq!(Field::parse_field("member", &mut list, &mut fields), Ok(()));
    assert_eq!(fields, vec![field("a", Type::I64), field("b", Type::Bool)]);
    assert_eq!(
        Field::parse_field("member", &mut list, &mut fields),
        Err("Duplicate member 'a'".into())
    );
    assert_eq!(fields.len(), 2);
    assert!(list.is_empty());
    assert_eq!(
        Field::parse_field("member", &mut list, &mut fields),
        Err("Expected member list".into())
    );
}

#[test]
fn struct_with_a_field_name_twice_names_the_field() {
    let result = Struct::from_lisp(parse("(struct Foo (fields (i64 a) (i64 a)))"));
    let error = result.unwrap_err();
    assert_eq!(error.message, "Duplicate property 'a'");
    assert_eq!(error.location.column, 33);
}

#[test]
fn struct_field_list_errors() {
    assert_eq!(
        Struct::from_lisp(parse("(struct foo bar)")),
        Err("Expected fields".into())
    );
    assert_eq!(
        Struct::from_lisp(parse("(struct foo ())")),
        Err("Expected fields".into())
    );
    assert_eq!(
        Struct::from_lisp(parse("(struct foo (fields ()))")),
        Err("Expected type".into())
    );
    assert_eq!(
        Struct::from_lisp(parse("(struct foo (fields (i64)))")),
        Err("Expected name".into())
    );
    assert_eq!(
        Struct::from_lisp(parse("(struct foo (fields (i64 12)))")),
        Err("Expected name".into())
    );
    assert_eq!(
        Struct::from_lisp(parse("(struct foo (fields (1x a)))")),
        Err("Expected type".into())
    );
    assert_eq!(
        Struct::from_lisp(parse("(struct foo (fields (-x a)))")),
        Err("Identifier must start with a letter or '_'".into())
    );
    // What follows the name in a pair is not looked at.
    let value = Struct::from_lisp(parse("(struct foo (fields (i64 a b c)))")).unwrap();
    assert_eq!(value.fields.len(), 1);
}

#[test]
fn struct_member_function_errors_are_passed_on() {
    assert_eq!(
        Struct::from_lisp(parse("(struct foo (fields) (fn f))")),
        Err("Expected list for parameters".into())
    );
    assert_eq!(
        Struct::from_lisp(parse("(struct foo (fields) (fn f ((i8 a) (i8 a)) void))")),
        Err("Duplicate parameter 'a'".into())
    );
}
