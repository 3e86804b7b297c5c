use wc_gen::definition::type_::Type;
use wc_gen::lisp::Location;

#[test]
fn test_inner_type() {
    let ty = Type::I8;
    assert_eq!(ty.inner_type(), Type::I8);

    let ty = Type::List(Box::new(Type::I32));
    assert_eq!(ty.inner_type(), Type::I32);

    let ty = Type::List(Box::new(Type::List(Box::new(Type::I64))));
    assert_eq!(ty.inner_type(), Type::I64);
}

#[test]
fn test_identifier_must_be_alphabetic() {
    let input = "1";
    let expected = "Identifier must start with a letter or '_'".to_string();
    assert_eq!(
        Type::try_parse(input, Location::default()),
        Err(expected.into())
    );

    let input = "[a";
    let expected = "Identifier must start with a letter or '_'".to_string();
    assert_eq!(
        Type::try_parse(input, Location::default()),
        Err(expected.into())
    );

    let input = "_a-struct";
    let expected = Type::Identifier("_a-struct".into());
    assert_eq!(Type::try_parse(input, Location::default()), Ok(expected));

    let input = "a-struct";
    let expected = Type::Identifier("a-struct".into());
    assert_eq!(Type::try_parse(input, Location::default()), Ok(expected));
}

#[test]
fn test_try_parse() {
    assert_eq!(Type::try_parse("i8", Location::default()), Ok(Type::I8));
    assert_eq!(Type::try_parse("i16", Location::default()), Ok(Type::I16));
    assert_eq!(Type::try_parse("i32", Location::default()), Ok(Type::I32));
    assert_eq!(Type::try_parse("i64", Location::default()), Ok(Type::I64));
    assert_eq!(Type::try_parse("bool", Location::default()), Ok(Type::Bool));
    assert_eq!(
        Type::try_parse("string", Location::default()),
        Ok(Type::String)
    );
    assert_eq!(Type::try_parse("f32", Location::default()), Ok(Type::Float));
    assert_eq!(
        Type::try_parse("a-struct", Location::default()),
        Ok(Type::Identifier("a-struct".into()))
    );
}

#[test]
fn parse_unsigned() {
    let input = "u8";
    let expected = Type::U8;
    assert_eq!(Type::try_parse(input, Location::default()), Ok(expected));

    let input = "u16";
    let expected = Type::U16;
    assert_eq!(Type::try_parse(input, Location::default()), Ok(expected));

    let input = "u32";
    let expected = Type::U32;
    assert_eq!(Type::try_parse(input, Location::default()), Ok(expected));

    let input = "u64";
    let expected = Type::U64;
    assert_eq!(Type::try_parse(input, Location::default()), Ok(expected));
}

#[test]
fn parse_void() {
    let input = "void";
    let expected = Type::Void;
    assert_eq!(Type::try_parse(input, Location::default()), Ok(expected));
}

#[test]
fn parse_void_list_returns_err() {
    let input = "void[]";
    let expected = "void can not be attached to a list".to_string();
    assert_eq!(
        Type::try_parse(input, Location::default()),
        Err(expected.into())
    );
}

#[test]
fn parse_list() {
    let input = "i32[]";
    let expected = Type::List(Box::new(Type::I32));
    assert_eq!(Type::try_parse(input, Location::default()), Ok(expected));
}

#[test]
fn parse_double_list() {
    let input = "i8[][]";
    let expected = Type::List(Box::new(Type::List(Box::new(Type::I8))));
    assert_eq!(Type::try_parse(input, Location::default()), Ok(expected));
}

#[test]
fn parse_triple_list() {
    let input = "i16[][][]";
    let expected = Type::List(Box::new(Type::List(Box::new(Type::List(Box::new(
        Type::I16,
    ))))));
    assert_eq!(Type::try_parse(input, Location::default()), Ok(expected));
}

#[test]
fn parse_list_unclosed_returns_err() {
    let input = "int[";
    let expected = "Unclosed list".to_string();
    assert_eq!(
        Type::try_parse(input, Location::default()),
        Err(expected.into())
    );
}

#[test]
fn parse_double_list_unclosed_returns_err() {
    let input = "int[][";
    let expected = "Unclosed list".to_string();
    assert_eq!(
        Type::try_parse(input, Location::default()),
        Err(expected.into())
    );
}

#[test]
fn writing_a_type_gives_back_what_was_read() {
    for text in [
        "i8", "i16", "i32", "i64", "u8", "u16", "u32", "u64", "bool", "string", "f32", "void",
        "Point", "_private", "a-struct", "i32[]", "Point[][]", "string[][][]", "x1", "a[]b",
        "ünïcode", "void[]x",
    ] {
        let parsed = Type::try_parse(text, Location::default()).unwrap();
        assert_eq!(parsed.to_string(), text);
    }
}

#[test]
fn kinds_of_types() {
    let list = Type::List(Box::new(Type::Identifier("Point".into())));
    assert!(list.is_list());
    assert!(!list.is_identifier());
    assert!(!list.is_void());
    assert!(list.inner_type().is_identifier());
    assert!(Type::Identifier("Point".into()).is_identifier());
    assert!(!Type::Identifier("Point".into()).is_list());
    assert!(Type::Void.is_void());
    assert!(!Type::I8.is_void());
    assert!(list.same(&list.clone()));
    assert!(!list.same(&Type::Identifier("Point".into())));
    assert!(Type::I8 < Type::I16);
    assert!(Type::Identifier("a".into()) < Type::Identifier("b".into()));
}

#[test]
fn refused_types() {
    let at = Location {
        line: 3,
        column: 9,
        file: Some("shapes.scm".to_string()),
    };
    let error = Type::try_parse("void[][]", at.clone()).unwrap_err();
    assert_eq!(error.message, "void can not be attached to a list");
    assert_eq!(error.location, at);
    assert_eq!(
        Type::try_parse("", Location::default()),
        Err("Identifier must start with a letter or '_'".into())
    );
    assert_eq!(
        Type::try_parse("[]", Location::default()),
        Err("Identifier must start with a letter or '_'".into())
    );
    assert_eq!(
        Type::try_parse("-x", Location::default()),
        Err("Identifier must start with a letter or '_'".into())
    );
    assert_eq!(
        Type::try_parse("x[[]", Location::default()),
        Err("Unclosed list".into())
    );
    assert_eq!(
        Type::try_parse("_[", Location::default()),
        Err("Unclosed list".into())
    );
    assert_eq!(
        Type::try_parse("i32[", Location::default()),
        Err("Unclosed list".into())
    );
}

#[test]
fn parse_with_is_told_how_the_text_starts() {
    assert_eq!(
        Type::parse_with("Point", Location::default(), true),
        Ok(Type::Identifier("Point".into()))
    );
    assert_eq!(
        Type::parse_with("Point", Location::default(), false),
        Err("Identifier must start with a letter or '_'".into())
    );
    assert_eq!(
        Type::parse_with("_x[]", Location::default(), false),
        Ok(Type::List(Box::new(Type::Identifier("_x".into()))))
    );
    assert_eq!(Type::parse_with("i64", Location::default(), false), Ok(Type::I64));
}

#[test]
fn a_bracket_that_is_never_closed_is_refused() {
    for text in ["int[", "int[][", "a[b", "a[]b[", "a[b]c[d", "_[x", "x[[", "a]b[c", "é[é"] {
        let at = Location {
            line: 4,
            column: 2,
            file: None,
        };
        let error = Type::try_parse(text, at.clone()).unwrap_err();
        assert_eq!(error.message, "Unclosed list", "{:?}", text);
        assert_eq!(error.location, at);
    }
    // Inside a list the element type is held to the same rule.
    assert_eq!(
        Type::try_parse("a[[]", Location::default()),
        Err("Unclosed list".into())
    );
    // The start of the text is looked at first.
    assert_eq!(
        Type::try_parse("[a", Location::default()),
        Err("Identifier must start with a letter or '_'".into())
    );
    assert_eq!(
        Type::parse_with("a[b", Location::default(), false),
        Err("Identifier must start with a letter or '_'".into())
    );
    // Closed brackets are no list suffix unless they end the text.
    assert_eq!(
        Type::try_parse("a[b]", Location::default()),
        Ok(Type::Identifier("a[b]".into()))
    );
}
