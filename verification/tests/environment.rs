use wc_gen::definition::enum_::Enum;
use wc_gen::definition::function::Function;
use wc_gen::definition::output::{Output, TargetLanguage};
use wc_gen::definition::struct_::Struct;
use wc_gen::definition::type_::Type;
use wc_gen::env::{parse, parse_list, Definition, Environment};
use wc_gen::lisp::{Error, List, Location, Node};

/// Reads the lists of a source text, each node with its line and column.
fn read(input: &str) -> Vec<List> {
    let chars: Vec<char> = input.chars().collect();
    let mut stack: Vec<List> = Vec::new();
    let mut done: Vec<List> = Vec::new();
    let mut line = 0;
    let mut column = 0;
    let mut i = 0;
    while i < chars.len() {
        let c = chars[i];
        let location = Location { line, column, file: None };
        if c == '(' {
            stack.push(List::new(location, Vec::new()));
            i += 1;
            column += 1;
        } else if c == ')' {
            let list = stack.pop().unwrap();
            match stack.last_mut() {
                Some(parent) => parent.items.push(Node::List(list)),
                None => done.push(list),
            }
            i += 1;
            column += 1;
        } else if c.is_whitespace() {
            i += 1;
            if c == '\n' {
                line += 1;
                column = 0;
            } else {
                column += 1;
            }
        } else {
            let mut text = String::new();
            while i < chars.len() && !chars[i].is_whitespace() && chars[i] != '(' && chars[i] != ')' {
                text.push(chars[i]);
                i += 1;
                column += 1;
            }
            let first = text.chars().next().unwrap();
            let literal = first.is_ascii_digit() || first == '"' || text == "true" || text == "false";
            let node = if literal {
                Node::Literal { text, location }
            } else {
                Node::Identifier { name: text, location }
            };
            stack.last_mut().unwrap().items.push(node);
        }
    }
    done
}

/// Reads the first list of a source text.
fn make(contents: &str) -> List {
    read(contents).remove(0)
}

#[test]
fn parse_returns_environment() {
    let lists = read("(struct foo)");
    let expected = Ok(Environment {
        enums: Vec::new(),
        functions: Vec::new(),
        outputs: vec![],
        structs: vec![Struct {
            location: Location::default(),
            name: "foo".to_string(),
            fields: Default::default(),
            functions: Default::default(),
        }],
    });
    let result = parse(lists);

    assert_eq!(result, expected);
}

#[test]
fn parse_duplicate_struct_returns_err() {
    let list = make("(struct foo)");

    let lists = vec![list.clone(), list];

    let expected = Err(Error {
        message: "Duplicate struct 'foo'".to_string(),
        location: Location::default(),
    });
    let result = parse(lists);

    assert_eq!(result, expected);
}

#[test]
fn parse_list_empty_returns_empty() {
    let list = make("()");
    let expected = Ok(Definition::Empty);
    assert_eq!(parse_list(list), expected);
}

#[test]
fn parse_list_returns_output() {
    // Nothing may follow the folder.
    let list = make("(output cpp ../output output.hpp)");
    assert_eq!(parse_list(list), Err("Expected end of list".into()));

    let list = make("(output cpp ../output)");
    let expected = Ok(Definition::Output(Output {
        location: Location::default(),
        folder: "../output".to_string(),
        language: TargetLanguage::Cpp,
    }));
    assert_eq!(parse_list(list), expected);
}

#[test]
fn parse_list_struct_returns_struct() {
    let list = make("(struct foo)");
    let expected = Ok(Definition::Struct(Struct {
        location: Location::default(),
        name: "foo".to_string(),
        fields: Default::default(),
        functions: Default::default(),
    }));
    assert_eq!(parse_list(list), expected);
}

#[test]
fn parse_list_enum_returns_enum() {
    let list = make("(enum foo)");
    let expected = Ok(Definition::Enum(Enum {
        location: Location::default(),
        name: "foo".to_string(),
        variants: Default::default(),
    }));
    assert_eq!(parse_list(list), expected);
}

#[test]
fn parse_function_returns_expected() {
    let list = make("(fn life () i64)");
    let expected = Ok(Definition::Function(Function {
        location: Location::default(),
        name: "life".to_string(),
        parameters: vec![],
        return_type: (Location::default(), Type::I64),
    }));
    assert_eq!(parse_list(list), expected);
}

#[test]
fn parse_list_unknown_returns_err() {
    let list = make("(foo)");
    let expected = Err(Error {
        message: "Expected enum, fn or struct, got '(foo)'".to_string(),
        location: Location::default(),
    });
    assert_eq!(parse_list(list), expected);
}

#[test]
fn struct_has_unknown_type_returns_err() {
    let lists = read("(struct foo (fields (jaja bar)))");
    let expected = Err(Error {
        message: "Unknown type 'jaja'".to_string(),
        location: Location::default(),
    });
    let result = parse(lists);

    assert_eq!(result, expected);
}

#[test]
fn enum_has_unknown_type_returns_err() {
    let lists = read("(enum foo Point (Pointz Point))");
    let expected = Err(Error {
        message: "Unknown type 'Point'".to_string(),
        location: Location::default(),
    });
    let result = parse(lists);

    assert_eq!(result, expected);
}

#[test]
fn duplicate_function_returns_err() {
    let lists = read("(fn life () i64)\n(fn life () i64)");
    let expected = Err(Error {
        message: "Duplicate function 'life'".to_string(),
        location: Location::default(),
    });
    let result = parse(lists);

    assert_eq!(result, expected);
}

#[test]
fn function_references_struct_returns_ok() {
    let input = "
        (struct Point (fields (i64 x) (i64 y)))
        (fn life ((Point a)) i64)";

    let lists = read(input);

    let result = parse(lists);

    assert_eq!(result.is_ok(), true);
}

#[test]
fn function_references_enum_returns_ok() {
    let input = "
        (enum Point)
        (fn life ((Point a)) i64)";

    let lists = read(input);

    let result = parse(lists);

    assert_eq!(result.is_ok(), true);
}

#[test]
fn struct_references_struct_returns_ok() {
    let input = "
        (struct Baz (fields (foo bar)))
        (struct foo 
            (fields 
                (foo bar)))";

    let lists = read(input);

    let result = parse(lists);

    assert_eq!(result.is_ok(), true);
}

#[test]
fn struct_references_enum_returns_ok() {
    let input = "
        (enum value)
        (struct foo 
            (fields 
                (value bar)))";

    let lists = read(input);

    let result = parse(lists);

    assert_eq!(result.is_ok(), true);
}

#[test]
fn enum_references_enum_returns_ok() {
    let input = "
        (enum Testy (value value))
        (enum value)";

    let lists = read(input);

    let result = parse(lists);

    assert_eq!(result.is_ok(), true);
}

#[test]
fn enum_references_struct_returns_ok() {
    let input = "
        (enum Testy (value value))
        (struct value)";

    let lists = read(input);

    let result = parse(lists);

    assert_eq!(result.is_ok(), true);
}

#[test]
fn struct_has_same_name_as_enum_returns_err() {
    let lists = read("(struct foo)\n(enum foo)");
    let expected = Err(Error {
        message: "Struct 'foo' has the same name as a enum".to_string(),
        location: Location::default(),
    });
    let result = parse(lists);

    assert_eq!(result, expected);
}

#[test]
fn struct_has_same_name_as_func_returns_err() {
    let result = parse(read("(fn foo () void)\n(struct foo)"));
    let error = result.unwrap_err();
    assert_eq!(error.message, "Struct 'foo' has the same name as a function");
    assert_eq!(error.location.line, 1);
}

#[test]
fn enum_has_same_name_as_func_returns_err() {
    let result = parse(read("(enum foo)\n(fn foo () void)"));
    let error = result.unwrap_err();
    assert_eq!(error.message, "Enum 'foo' has the same name as a function");
    assert_eq!(error.location.line, 0);
}

#[test]
fn function_has_unknown_type_is_reported() {
    let result = parse(read("(fn life ((Point point)) i64)"));
    let error = result.unwrap_err();
    assert_eq!(error.message, "Unknown type 'Point'");
    assert_eq!(error.location.column, 11);

    let result = parse(read("(fn life () Point[][])"));
    assert_eq!(result, Err("Unknown type 'Point'".into()));
}

#[test]
fn struct_with_undefined_field_type_names_the_type() {
    let result = parse(read("(struct A (fields (B b)))"));
    let error = result.unwrap_err();
    assert_eq!(error.message, "Unknown type 'B'");
    assert_eq!(error.location.column, 21);
}

#[test]
fn duplicate_names_come_before_unknown_types() {
    let result = parse(read("(struct A (fields (B b)))\n(enum A)"));
    assert_eq!(result, Err("Struct 'A' has the same name as a enum".into()));
}

#[test]
fn first_error_stops_the_run() {
    let result = parse(read("(struct A (fields (i64 a) (i64 a)))\n(nonsense)"));
    assert_eq!(result, Err("Duplicate property 'a'".into()));

    let result = parse(read("(nonsense 1 (a b))\n(struct A (fields (i64 a) (i64 a)))"));
    assert_eq!(
        result,
        Err("Expected enum, fn or struct, got '(nonsense 1 (a b))'".into())
    );
}

#[test]
fn duplicate_enum_returns_err() {
    let result = parse(read("(enum A)\n(struct B)\n(enum A X)"));
    let error = result.unwrap_err();
    assert_eq!(error.message, "Duplicate enum 'A'");
    assert_eq!(error.location.line, 2);
}

#[test]
fn definitions_keep_their_order() {
    let env = parse(read(
        "(struct B)\n()\n(output cpp out)\n(struct A)\n(fn g () void)\n(enum E)\n(fn f () void)\n(output c++ other)",
    ))
    .unwrap();
    let structs: Vec<&str> = env.structs.iter().map(|s| s.name.as_str()).collect();
    let functions: Vec<&str> = env.functions.iter().map(|f| f.name.as_str()).collect();
    let folders: Vec<&str> = env.outputs.iter().map(|o| o.folder.as_str()).collect();
    assert_eq!(structs, vec!["B", "A"]);
    assert_eq!(functions, vec!["g", "f"]);
    assert_eq!(folders, vec!["out", "other"]);
    assert_eq!(env.enums.len(), 1);
}

#[test]
fn keyword_priority() {
    // A list that starts with a keyword is read as that kind and no other.
    assert_eq!(
        parse_list(make("(struct 1)")),
        Err("Expected name".into())
    );
    assert_eq!(parse_list(make("(enum 1)")), Err("Expected enum name".into()));
    assert_eq!(
        parse_list(make("(fn 1)")),
        Err("Expected function identifier".into())
    );
    assert_eq!(parse_list(make("(output 1)")), Err("Expected language".into()));
}

#[test]
fn environment_parse_is_the_free_function() {
    let a = Environment::parse(read("(struct foo (fields (i8 x)))\n(enum bar)"));
    let b = parse(read("(struct foo (fields (i8 x)))\n(enum bar)"));
    assert_eq!(a, b);
    assert!(a.is_ok());
}

#[test]
fn environment_related_types() {
    let env = parse(read(
        "(fn f ((S s)) bool)\n(enum E (V i8))\n(struct S (fields (E e) (u16[] xs)))",
    ))
    .unwrap();
    let types: Vec<Type> = env
        .get_related_types()
        .into_iter()
        .map(|(_, ty)| ty)
        .collect();
    assert_eq!(
        types,
        vec![
            Type::Identifier("E".into()),
            Type::List(Box::new(Type::U16)),
            Type::I8,
            Type::Bool,
            Type::Identifier("S".into()),
        ]
    );
}

#[test]
fn struct_and_enum_of_one_name_are_refused() {
    let result = parse(read("(struct Foo)\n(enum Foo)"));
    let error = result.unwrap_err();
    assert_eq!(error.message, "Struct 'Foo' has the same name as a enum");
    assert_eq!(error.location.line, 0);

    let result = parse(read("(enum Foo)\n(struct Foo)"));
    assert_eq!(result, Err("Struct 'Foo' has the same name as a enum".into()));
}
