use wc_gen::include_rules::{IncludeOps, IncludeRules};
use wc_gen::ir::{Module, PrimitiveType};
use wc_gen::token::{TokenApplication, TokenType};

#[test]
fn primitive_type_to_str() {
    assert_eq!("EggBool", PrimitiveType::EggBool.to_string())
}

#[test]
fn primitive_type_names() {
    assert_eq!(PrimitiveType::EggI32.to_string(), "EggI32");
}

#[test]
fn include_rules_write_each_file() {
    let rules = IncludeRules {
        ops: vec![
            IncludeOps::Concat {
                value: "#include \"".to_string(),
            },
            IncludeOps::IncludeName,
            IncludeOps::Concat {
                value: "\"\n".to_string(),
            },
        ],
    };
    let module = Module {
        file_name: "main".to_string(),
        funcs: vec![],
        includes: vec!["a.h".to_string(), "b.h".to_string()],
        structs: vec![],
    };
    assert_eq!(rules.compile(&module), "#include \"a.h\"\n#include \"b.h\"\n");
    assert_eq!(rules.compile_include("x"), "#include \"x\"\n");

    let nothing = IncludeRules { ops: vec![] };
    assert_eq!(nothing.compile(&module), "");
}

#[test]
fn token_applications() {
    for literal in [TokenType::Number, TokenType::Bool, TokenType::String] {
        let application = literal.application();
        assert_eq!(application.len(), 1);
        assert!(matches!(application[0], TokenApplication::Value));
    }
    let application = TokenType::Add.application();
    assert_eq!(application.len(), 1);
    match &application[0] {
        TokenApplication::Consume {
            values,
            return_type,
        } => {
            assert_eq!(values, &vec![TokenType::Number, TokenType::Number]);
            assert_eq!(*return_type, TokenType::Number);
        }
        TokenApplication::Value => panic!("Add consumes"),
    }
}
