use wc_gen::compiler::compile_identifier;
use wc_gen::compiler::cpp::{
    compile, compile_cpp_class, compile_cpp_function, compile_cpp_type, compile_function, compile_header,
    compile_implementation, compile_struct, compile_type, format_code, generate,
    generate_class_method, generate_equality_operator, generate_inequality_operator,
    generate_struct_fn, get_type_default, get_type_includes, init_type_value,
    map_struct_field_type, merge_custom_methods, place, CustomMethod, TypeReference,
};
use wc_gen::compiler::order::order_structs;
use wc_gen::definition::field::Field;
use wc_gen::definition::type_::Type;
use wc_gen::env::{parse, Environment};
use wc_gen::lisp::{List, Location, Node};

/// Reads the lists of a source text, each node with its line and column.
fn read(input: &str) -> Vec<List> {
    let chars: Vec<char> = input.chars().collect();
    let mut stack: Vec<List> = Vec::new();
    let mut done: Vec<List> = Vec::new();
    let mut line = 0;
    let mut column = 0;
    let mut i = 0;
    while i < chars.len() {
        let c = chars[i];
        let location = Location { line, column, file: None };
        if c == '(' {
            stack.push(List::new(location, Vec::new()));
            i += 1;
            column += 1;
        } else if c == ')' {
            let list = stack.pop().unwrap();
            match stack.last_mut() {
                Some(parent) => parent.items.push(Node::List(list)),
                None => done.push(list),
            }
            i += 1;
            column += 1;
        } else if c.is_whitespace() {
            i += 1;
            if c == '\n' {
                line += 1;
                column = 0;
            } else {
                column += 1;
            }
        } else {
            let mut text = String::new();
            while i < chars.len() && !chars[i].is_whitespace() && chars[i] != '(' && chars[i] != ')' {
                text.push(chars[i]);
                i += 1;
                column += 1;
            }
            let first = text.chars().next().unwrap();
            let literal = first.is_ascii_digit() || first == '"' || text == "true" || text == "false";
            let node = if literal {
                Node::Literal { text, location }
            } else {
                Node::Identifier { name: text, location }
            };
            stack.last_mut().unwrap().items.push(node);
        }
    }
    done
}

fn environment(input: &str) -> Environment {
    parse(read(input)).unwrap()
}

fn list_of(inner: Type) -> Type {
    Type::List(Box::new(inner))
}

fn named(name: &str) -> Type {
    Type::Identifier(name.to_string())
}

#[test]
fn identifiers() {
    assert_eq!(compile_identifier("x-min"), "x_min");
    assert_eq!(compile_identifier("collides?"), "collides");
    assert_eq!(compile_identifier("is-it-so??"), "is_it_so");
    assert_eq!(compile_identifier("Plain_1"), "Plain_1");
    assert_eq!(compile_identifier(""), "");
}

#[test]
fn cpp_types() {
    assert_eq!(compile_cpp_type(&Type::I8), "int8_t");
    assert_eq!(compile_cpp_type(&Type::I16), "int16_t");
    assert_eq!(compile_cpp_type(&Type::I32), "int32_t");
    assert_eq!(compile_cpp_type(&Type::I64), "int64_t");
    assert_eq!(compile_cpp_type(&Type::U8), "uint8_t");
    assert_eq!(compile_cpp_type(&Type::U16), "uint16_t");
    assert_eq!(compile_cpp_type(&Type::U32), "uint32_t");
    assert_eq!(compile_cpp_type(&Type::U64), "uint64_t");
    assert_eq!(compile_cpp_type(&Type::Bool), "bool");
    assert_eq!(compile_cpp_type(&Type::String), "std::string");
    assert_eq!(compile_cpp_type(&Type::Float), "float");
    assert_eq!(compile_cpp_type(&Type::Void), "void");
    assert_eq!(compile_cpp_type(&named("a-struct?")), "a_struct");
    assert_eq!(compile_cpp_type(&list_of(Type::I32)), "std::vector<int32_t>");
    assert_eq!(
        compile_cpp_type(&list_of(list_of(named("Point")))),
        "std::vector<std::vector<Point>>"
    );
    assert_eq!(compile_cpp_type(&list_of(named("a*b"))), "std::vector<ab>");
}

#[test]
fn type_defaults() {
    assert_eq!(get_type_default(&Type::I8), "0");
    assert_eq!(get_type_default(&Type::U64), "0");
    assert_eq!(get_type_default(&Type::Bool), "false");
    assert_eq!(get_type_default(&Type::String), "std::string()");
    assert_eq!(get_type_default(&Type::Float), "0.0");
    assert_eq!(get_type_default(&Type::Void), "()");
    assert_eq!(get_type_default(&named("my-point")), "my_point()");
    assert_eq!(
        get_type_default(&list_of(Type::String)),
        "std::vector<std::string>()"
    );
}

#[test]
fn type_includes() {
    assert_eq!(get_type_includes(&Type::I8), vec!["#include <stdint.h>"]);
    assert_eq!(get_type_includes(&Type::U32), vec!["#include <stdint.h>"]);
    assert_eq!(get_type_includes(&Type::String), vec!["#include <string>"]);
    assert_eq!(get_type_includes(&Type::Bool), Vec::<String>::new());
    assert_eq!(get_type_includes(&Type::Float), Vec::<String>::new());
    assert_eq!(get_type_includes(&Type::Void), Vec::<String>::new());
    assert_eq!(
        get_type_includes(&named("my-point")),
        vec!["#include \"my_point.hpp\""]
    );
    assert_eq!(
        get_type_includes(&list_of(list_of(Type::I64))),
        vec![
            "#include <vector>",
            "#include <vector>",
            "#include <stdint.h>"
        ]
    );
}

#[test]
fn type_references() {
    assert_eq!(compile_type(TypeReference::Reference(named("A"))), "A&");
    assert_eq!(
        compile_type(TypeReference::ConstReference(named("A"))),
        "const A&"
    );
    assert_eq!(compile_type(TypeReference::Pointer(named("A"))), "A*");
    assert_eq!(compile_type(TypeReference::Value(Type::I32)), "int32_t");

    assert_eq!(init_type_value(TypeReference::Reference(named("A"))), "TODO");
    assert_eq!(
        init_type_value(TypeReference::ConstReference(named("A"))),
        "TODO"
    );
    assert_eq!(init_type_value(TypeReference::Pointer(named("A"))), "new A()");
    assert_eq!(init_type_value(TypeReference::Value(Type::Bool)), "false");
}

#[test]
fn fields_of_definitions_are_held_through_pointers() {
    let by_name = Field {
        location: Location::default(),
        name: "other".to_string(),
        type_: named("Other"),
    };
    let by_value = Field {
        location: Location::default(),
        name: "others".to_string(),
        type_: list_of(named("Other")),
    };
    assert!(matches!(
        map_struct_field_type(&by_name),
        TypeReference::Pointer(Type::Identifier(_))
    ));
    assert!(matches!(
        map_struct_field_type(&by_value),
        TypeReference::Value(Type::List(_))
    ));
}

#[test]
fn formatting() {
    assert_eq!(format_code("Foo::Foo(const Foo& other):Foo()"), "Foo::Foo(const Foo &other) : Foo()");
    assert_eq!(format_code("a && b"), "a && b");
    assert_eq!(format_code("return *this;"), "return *this;");
    assert_eq!(format_code("Foo* clone"), "Foo *clone");
    assert_eq!(format_code("a &&& b"), "a && &b");
    assert_eq!(format_code("ANDAND"), "&&");
    assert_eq!(format_code(""), "");
}

#[test]
fn class_methods() {
    let method = generate_class_method(
        "do-it?",
        "my-class",
        vec![
            ("a-b".to_string(), TypeReference::Value(Type::I32)),
            ("other".to_string(), TypeReference::ConstReference(named("my-class"))),
        ],
        Some(TypeReference::Value(Type::Bool)),
        "\treturn true;\n",
        true,
        true,
        false,
    );
    assert_eq!(
        method.header_declaration,
        "\tbool do_it(int32_t a_b, const my_class& other) const;\n"
    );
    assert_eq!(
        method.implementation,
        "inline bool my_class::do_it(int32_t a_b, const my_class& other) const\n{\n\treturn true;\n}\n"
    );

    let constructor = generate_class_method("A", "A", vec![], None, "", false, false, true);
    assert_eq!(constructor.header_declaration, "\tA();\n");
    assert_eq!(constructor.implementation, "A::A():A()\n{\n}\n");
}

const EXECUTABLE: &str = "(struct Executable (fields (bool alive) (i32 hp)))";

#[test]
fn class_of_plain_fields() {
    let env = environment(EXECUTABLE);
    let class = compile_cpp_class(&env.structs[0]);
    assert_eq!(
        class.header_definition,
        "class Executable \n{\npublic:\n\
         \tbool alive;\n\
         \tint32_t hp;\n\
         \tExecutable();\n\
         \tExecutable(const Executable &other);\n\
         \t~Executable();\n\
         \tvoid copy_to(Executable &other) const;\n\
         \tExecutable clone() const;\n\
         \tbool operator==(const Executable &other) const;\n\
         \tbool operator!=(const Executable &other) const;\n\
         \tExecutable &operator=(const Executable &other);\n\
         };\n"
    );
    assert_eq!(
        class.implementation,
        "Executable::Executable()\n{\n\talive = false;\n\thp = 0;\n}\n\
         Executable::Executable(const Executable &other) : Executable()\n{\n\tother.copy_to(*this);\n}\n\
         Executable::~Executable()\n{\n}\n\
         void Executable::copy_to(Executable &other) const\n{\n\tother.alive = alive;\n\tother.hp = hp;\n}\n\
         Executable Executable::clone() const\n{\n\tExecutable clone;\n\tcopy_to(clone);\n\treturn clone;\n}\n\
         bool Executable::operator==(const Executable &other) const\n{\n\treturn alive == other.alive && hp == other.hp;\n}\n\
         bool Executable::operator!=(const Executable &other) const\n{\n\treturn !(*this == other);\n}\n\
         Executable &Executable::operator=(const Executable &other)\n{\n\tif (this == &other)\n\t{\n\t\treturn *this;\n\t}\n\tother.copy_to(*this);\n\treturn *this;\n}\n"
    );
    assert!(class.custom_methods.is_empty());
}

#[test]
fn generated_files_of_plain_fields() {
    let env = environment(EXECUTABLE);
    let output = generate(&env).unwrap();
    assert_eq!(output.structs.len(), 1);
    assert!(output.functions.is_empty());
    let files = &output.structs[0];
    assert_eq!(files.folder, "Executable");
    assert_eq!(files.header.path, "Executable.hpp");
    assert_eq!(files.implementation.path, "Executable/Executable_generated_impl.cpp");
    assert_eq!(files.custom_path, "Executable/Executable_custom_impl.cpp");
    assert!(files.header.contents.starts_with(
        "// This file was generated by wc-gen. Do not modify this file manually.\n#pragma once\n#include <stdint.h>\n\nclass Executable \n{\npublic:\n\tbool alive;\n\tint32_t hp;\n"
    ));
    assert!(files.implementation.contents.starts_with(
        "// This file was generated by wc-gen. Do not modify this file manually.\n\n#include \"../Executable.hpp\"\n\nExecutable::Executable()\n"
    ));
    // Without member functions nothing is written by hand but the first line.
    assert_eq!(files.custom_start, "#include \"../Executable.hpp\"\n\n");
    assert!(files.custom_methods.is_empty());
    assert_eq!(
        merge_custom_methods(&files.custom_start, &files.custom_methods),
        "#include \"../Executable.hpp\"\n\n"
    );
    let class = compile_cpp_class(&env.structs[0]);
    assert!(files.header.contents.ends_with(&class.header_definition));
    assert!(files.implementation.contents.ends_with(&class.implementation));
}

const AABB: &str = "
(struct Point (fields (i64 x) (i64 y)))
(struct Aabb
    (fields
        (Point min)
        (Point[] corners)
        (string label))
    (fn collides? ((Aabb other) (i32 margin)) bool)
    (fn print () void))";

#[test]
fn class_with_pointers_and_member_functions() {
    let env = environment(AABB);
    let class = compile_cpp_class(&env.structs[1]);
    assert!(class.header_definition.contains(
        "public:\n\tPoint *min;\n\tstd::vector<Point> corners;\n\tstd::string label;\n\tAabb();\n"
    ));
    assert!(class.header_definition.ends_with(
        "\tbool collides(Aabb &other, int32_t margin);\n\tprint();\n};\n"
    ));
    assert!(class.implementation.contains(
        "Aabb::Aabb()\n{\n\tmin = new Point();\n\tcorners = std::vector<Point>();\n\tlabel = std::string();\n}\n"
    ));
    assert!(class
        .implementation
        .contains("Aabb::~Aabb()\n{\n\tdelete min;\n}\n"));
    assert!(class.implementation.contains(
        "void Aabb::copy_to(Aabb &other) const\n{\n\tmin->copy_to(*other.min);\n\tother.corners = corners;\n\tother.label = label;\n}\n"
    ));
    assert!(class.implementation.contains(
        "\treturn *min == *other.min && corners == other.corners && label == other.label;\n"
    ));
    assert_eq!(class.custom_methods.len(), 2);
    assert_eq!(
        class.custom_methods[0].function_definition,
        "bool Aabb::collides(Aabb &other, int32_t margin)"
    );
    assert_eq!(
        class.custom_methods[0].implementation,
        "bool Aabb::collides(Aabb &other, int32_t margin)\n{\n\t// TODO: Implement function\n}\n"
    );
    assert_eq!(class.custom_methods[1].function_definition, "Aabb::print()");
    assert_eq!(
        class.custom_methods[1].implementation,
        "Aabb::print()\n{\n\t// TODO: Implement function\n}\n"
    );
}

#[test]
fn member_function_stub() {
    let env = environment(AABB);
    let s = &env.structs[1];
    let method = generate_struct_fn(s, &s.functions[0]);
    assert_eq!(
        method.header_declaration,
        "\tbool collides(Aabb& other, int32_t margin);\n"
    );
    assert_eq!(
        method.implementation,
        "bool Aabb::collides(Aabb& other, int32_t margin)\n{\n\t// TODO: Implement function\n}\n"
    );
}

#[test]
fn includes_are_sorted_and_written_once() {
    let env = environment(AABB);
    let files = compile_struct(&env.structs[1]);
    assert!(files.header.contents.starts_with(
        "// This file was generated by wc-gen. Do not modify this file manually.\n#pragma once\n\
         #include \"Aabb.hpp\"\n#include \"Point.hpp\"\n#include <stdint.h>\n#include <string>\n#include <vector>\n\nclass Aabb "
    ));
}

#[test]
fn free_functions() {
    let env = environment(
        "(struct Point)\n(fn make-point ((i64 x) (Point[] near)) Point)\n(fn reset? () void)\n(fn names () string[])",
    );
    let function = compile_cpp_function(&env.functions[0]);
    assert_eq!(
        function.header_declaration,
        "Point make_point(int64_t x, std::vector<Point> near);"
    );
    assert_eq!(
        function.implementation,
        "Point make_point(int64_t x, std::vector<Point> near)\n{\n\t// TODO: Implement function\n\treturn Point();\n}\n"
    );
    let files = compile_function(&env.functions[0]);
    assert_eq!(files.header.path, "make_point.hpp");
    assert_eq!(files.implementation.path, "make_point.cpp");
    assert_eq!(
        files.header.contents,
        "// This file was generated by wc-gen. Do not modify this file manually.\n#pragma once\n#include \"Point.hpp\"\n#include <stdint.h>\n#include <vector>\n\nPoint make_point(int64_t x, std::vector<Point> near);"
    );
    assert_eq!(
        files.implementation.contents,
        "// This file was generated by wc-gen. Do not modify this file manually.\n\n#include \"make_point.hpp\"\n\nPoint make_point(int64_t x, std::vector<Point> near)\n{\n\t// TODO: Implement function\n\treturn Point();\n}\n"
    );

    let function = compile_cpp_function(&env.functions[1]);
    assert_eq!(function.header_declaration, "void reset();");
    assert_eq!(
        function.implementation,
        "void reset()\n{\n\t// TODO: Implement function\n}\n"
    );
    let files = compile_function(&env.functions[1]);
    assert_eq!(
        files.header.contents,
        "// This file was generated by wc-gen. Do not modify this file manually.\n#pragma once\n\n\nvoid reset();"
    );

    let function = compile_cpp_function(&env.functions[2]);
    assert_eq!(
        function.implementation,
        "std::vector<std::string> names()\n{\n\t// TODO: Implement function\n\treturn std::vector<std::string>();\n}\n"
    );

    let output = generate(&env).unwrap();
    let paths: Vec<&str> = output
        .functions
        .iter()
        .map(|f| f.header.path.as_str())
        .collect();
    assert_eq!(paths, vec!["make_point.hpp", "reset.hpp", "names.hpp"]);
}

#[test]
fn structs_are_written_after_the_structs_they_refer_to() {
    let env = environment(
        "(struct A (fields (B b)))\n(struct B (fields (C[] cs) (B next)))\n(struct D)\n(struct C (fields (E e)))\n(enum E)",
    );
    assert_eq!(order_structs(&env.structs), Ok(vec![2, 3, 1, 0]));
    let output = generate(&env).unwrap();
    let folders: Vec<&str> = output.structs.iter().map(|s| s.folder.as_str()).collect();
    assert_eq!(folders, vec!["D", "C", "B", "A"]);
    let a = folders.iter().position(|f| *f == "A").unwrap();
    let b = folders.iter().position(|f| *f == "B").unwrap();
    assert!(b < a);
}

#[test]
fn independent_structs_keep_their_order() {
    let env = environment("(struct Z)\n(struct M)\n(struct A)");
    assert_eq!(order_structs(&env.structs), Ok(vec![0, 1, 2]));
}

#[test]
fn structs_in_a_cycle_are_refused() {
    let env = environment(
        "(struct Free)\n(struct A (fields (B b)))\n(struct B (fields (C c)))\n(struct C (fields (A[] as)))",
    );
    assert_eq!(order_structs(&env.structs), Err(1));
    let error = generate(&env).unwrap_err();
    assert_eq!(
        error.message,
        "Struct 'A' depends on structs that depend on each other"
    );
    assert_eq!(error.location.line, 1);
}

#[test]
fn merging_adds_what_is_missing() {
    let env = environment(AABB);
    let files = compile_struct(&env.structs[1]);
    let first = merge_custom_methods(&files.custom_start, &files.custom_methods);
    assert_eq!(
        first,
        "#include \"../Aabb.hpp\"\n\n\
         bool Aabb::collides(Aabb &other, int32_t margin)\n{\n\t// TODO: Implement function\n}\n\
         Aabb::print()\n{\n\t// TODO: Implement function\n}\n"
    );
}

#[test]
fn regeneration_changes_nothing() {
    let env = environment(AABB);
    let first = generate(&env).unwrap();
    let second = generate(&env).unwrap();
    assert_eq!(first.structs.len(), second.structs.len());
    for (a, b) in first.structs.iter().zip(second.structs.iter()) {
        assert_eq!(a.header.path, b.header.path);
        assert_eq!(a.header.contents, b.header.contents);
        assert_eq!(a.implementation.path, b.implementation.path);
        assert_eq!(a.implementation.contents, b.implementation.contents);
        let once = merge_custom_methods(&a.custom_start, &a.custom_methods);
        let twice = merge_custom_methods(&once, &b.custom_methods);
        assert_eq!(once, twice);
    }
}

#[test]
fn hand_written_bodies_survive() {
    let env = environment(AABB);
    let files = compile_struct(&env.structs[1]);
    let once = merge_custom_methods(&files.custom_start, &files.custom_methods);
    let edited = once.replace(
        "bool Aabb::collides(Aabb &other, int32_t margin)\n{\n\t// TODO: Implement function\n}\n",
        "bool Aabb::collides(Aabb &other, int32_t margin)\n{\n\treturn margin > 0;\n}\n",
    ) + "\nstatic int helper() { return 1; }\n";
    assert_ne!(edited, once);
    let again = merge_custom_methods(&edited, &files.custom_methods);
    assert_eq!(again, edited);
    let third = merge_custom_methods(&again, &files.custom_methods);
    assert_eq!(third, edited);

    // A body that was removed comes back at the end, the rest stays.
    let without = edited.replace(
        "Aabb::print()\n{\n\t// TODO: Implement function\n}\n",
        "",
    );
    let restored = merge_custom_methods(&without, &files.custom_methods);
    assert!(restored.starts_with(&without));
    assert!(restored.ends_with("Aabb::print()\n{\n\t// TODO: Implement function\n}\n"));
}

#[test]
fn custom_contents_start_where_there_is_no_file() {
    let env = environment(AABB);
    let files = compile_struct(&env.structs[1]);
    let fresh = files.custom_contents(None);
    assert_eq!(
        fresh,
        merge_custom_methods(&files.custom_start, &files.custom_methods)
    );
    assert_eq!(files.custom_contents(Some(&fresh)), fresh);
    assert_eq!(
        files.custom_contents(Some("")),
        "bool Aabb::collides(Aabb &other, int32_t margin)\n{\n\t// TODO: Implement function\n}\n\
         Aabb::print()\n{\n\t// TODO: Implement function\n}\n"
    );
}

#[test]
fn merging_goes_by_the_first_line() {
    let methods = vec![
        CustomMethod {
            function_definition: "void A::f()".to_string(),
            implementation: "void A::f()\n{\n}\n".to_string(),
        },
        CustomMethod {
            function_definition: "void A::g()".to_string(),
            implementation: "void A::g()\n{\n}\n".to_string(),
        },
    ];
    assert_eq!(
        merge_custom_methods("// void A::f() is done elsewhere\n", &methods),
        "// void A::f() is done elsewhere\nvoid A::g()\n{\n}\n"
    );
    assert_eq!(merge_custom_methods("", &Vec::new()), "");
}

const DISCLAIMER: &str = "// This file was generated by wc-gen. Do not modify this file manually.\n";

#[test]
fn every_generated_file_begins_with_the_disclaimer() {
    let env = environment(
        "(struct S (fields (i8 x)) (fn touch () void))\n(fn f ((S s)) bool)",
    );
    let output = generate(&env).unwrap();
    let class = &output.structs[0];
    let function = &output.functions[0];
    assert!(class.header.contents.starts_with(DISCLAIMER));
    assert!(class.implementation.contents.starts_with(DISCLAIMER));
    assert!(function.header.contents.starts_with(DISCLAIMER));
    assert!(function.implementation.contents.starts_with(DISCLAIMER));
    assert_eq!(
        function.header.contents,
        format!(
            "{}#pragma once\n#include \"S.hpp\"\n\nbool f(S s);",
            DISCLAIMER
        )
    );
    assert_eq!(
        function.implementation.contents,
        format!(
            "{}\n#include \"f.hpp\"\n\nbool f(S s)\n{{\n\t// TODO: Implement function\n\treturn false;\n}}\n",
            DISCLAIMER
        )
    );

    // What is written by hand carries no disclaimer.
    let custom = class.custom_contents(None);
    assert!(!custom.contains(DISCLAIMER));
    assert!(custom.starts_with("#include \"../S.hpp\"\n\n"));
}

#[test]
fn header_and_implementation_texts() {
    assert_eq!(
        compile_header("#include <string>", "void f();"),
        format!("{}#pragma once\n#include <string>\n\nvoid f();", DISCLAIMER)
    );
    assert_eq!(
        compile_implementation("../A.hpp", "A::A()\n{\n}\n"),
        format!("{}\n#include \"../A.hpp\"\n\nA::A()\n{{\n}}\n", DISCLAIMER)
    );
}

#[test]
fn inequality_is_the_opposite_of_equality() {
    let env = environment("(struct P (fields (i64 x) (Q q)))\n(struct Q)");
    let method = generate_inequality_operator(&env.structs[0]);
    assert_eq!(
        method.header_declaration,
        "\tbool operator!=(const P& other) const;\n"
    );
    assert_eq!(
        method.implementation,
        "bool P::operator!=(const P& other) const\n{\n\treturn !(*this == other);\n}\n"
    );
    let class = compile_cpp_class(&env.structs[0]);
    assert!(class.implementation.contains(
        "bool P::operator!=(const P &other) const\n{\n\treturn !(*this == other);\n}\n"
    ));
}

#[test]
fn values_of_a_struct_without_fields_are_equal() {
    let env = environment("(struct Empty)\n(struct One (fields (bool b)))");
    let method = generate_equality_operator(&env.structs[0]);
    assert_eq!(
        method.implementation,
        "bool Empty::operator==(const Empty& other) const\n{\n\treturn true;\n}\n"
    );
    let method = generate_equality_operator(&env.structs[1]);
    assert_eq!(
        method.implementation,
        "bool One::operator==(const One& other) const\n{\n\treturn b == other.b;\n}\n"
    );
}

#[test]
fn files_stand_below_the_output_folder() {
    assert_eq!(place("out", "A.hpp"), "out/A.hpp");
    assert_eq!(place("out/", "A.hpp"), "out/A.hpp");
    assert_eq!(place("../a/b", "A/A_custom_impl.cpp"), "../a/b/A/A_custom_impl.cpp");
    assert_eq!(place("", "A.hpp"), "A.hpp");
    assert_eq!(place("/", "A.hpp"), "/A.hpp");
}

#[test]
fn compile_places_what_is_generated() {
    let env = environment("(struct Executable (fields (bool alive) (i32 hp)))\n(fn run () void)");
    let relative = generate(&env).unwrap();
    let placed = compile("out", &env).unwrap();
    assert_eq!(placed.structs.len(), 1);
    assert_eq!(placed.functions.len(), 1);
    let class = &placed.structs[0];
    assert_eq!(class.folder, "out/Executable");
    assert_eq!(class.header.path, "out/Executable.hpp");
    assert_eq!(class.implementation.path, "out/Executable/Executable_generated_impl.cpp");
    assert_eq!(class.custom_path, "out/Executable/Executable_custom_impl.cpp");
    assert_eq!(class.header.contents, relative.structs[0].header.contents);
    assert_eq!(
        class.implementation.contents,
        relative.structs[0].implementation.contents
    );
    assert_eq!(class.custom_start, "#include \"../Executable.hpp\"\n\n");
    assert_eq!(class.custom_contents(None), "#include \"../Executable.hpp\"\n\n");
    assert_eq!(placed.functions[0].header.path, "out/run.hpp");
    assert_eq!(placed.functions[0].implementation.path, "out/run.cpp");
    assert_eq!(
        placed.functions[0].implementation.contents,
        relative.functions[0].implementation.contents
    );

    // The members come first, in the order they were declared, then the methods.
    let header = &class.header.contents;
    let alive = header.find("\tbool alive;\n").unwrap();
    let hp = header.find("\tint32_t hp;\n").unwrap();
    let first_method = header.find("\tExecutable();\n").unwrap();
    assert!(header.find("public:\n").unwrap() < alive);
    assert_eq!(alive + "\tbool alive;\n".len(), hp);
    assert_eq!(hp + "\tint32_t hp;\n".len(), first_method);
}

#[test]
fn compile_writes_a_struct_after_the_struct_it_holds() {
    let env = environment("(struct A (fields (B b)))\n(struct B)");
    let placed = compile("out", &env).unwrap();
    let headers: Vec<&str> = placed.structs.iter().map(|s| s.header.path.as_str()).collect();
    assert_eq!(headers, vec!["out/B.hpp", "out/A.hpp"]);

    let env = environment("(struct A (fields (B b)))\n(struct B (fields (A a)))");
    let error = compile("out", &env).unwrap_err();
    assert_eq!(
        error.message,
        "Struct 'A' depends on structs that depend on each other"
    );
}

#[test]
fn a_second_run_gives_the_same_files() {
    let env = environment(AABB);
    let first = compile("out", &env).unwrap();
    let second = compile("out", &env).unwrap();
    for (a, b) in first.structs.iter().zip(second.structs.iter()) {
        assert_eq!(a.header.path, b.header.path);
        assert_eq!(a.header.contents, b.header.contents);
        assert_eq!(a.implementation.path, b.implementation.path);
        assert_eq!(a.implementation.contents, b.implementation.contents);
        assert_eq!(a.custom_path, b.custom_path);
        let once = a.custom_contents(None);
        assert_eq!(b.custom_contents(Some(&once)), once);
    }
    for (a, b) in first.functions.iter().zip(second.functions.iter()) {
        assert_eq!(a.header.path, b.header.path);
        assert_eq!(a.header.contents, b.header.contents);
        assert_eq!(a.implementation.contents, b.implementation.contents);
    }
}

#[test]
fn every_output_gets_its_files() {
    let env = environment("(output cpp one)\n(struct S)\n(output c++ two/)");
    let all = wc_gen::compiler::compile(&env).unwrap();
    assert_eq!(all.len(), 2);
    assert_eq!(all[0].structs[0].header.path, "one/S.hpp");
    assert_eq!(all[1].structs[0].header.path, "two/S.hpp");
    assert_eq!(all[0].structs[0].header.contents, all[1].structs[0].header.contents);

    let none = environment("(struct A (fields (B b)))\n(struct B (fields (A a)))");
    assert_eq!(wc_gen::compiler::compile(&none).unwrap().len(), 0);
    let cyclic = environment(
        "(output cpp out)\n(struct A (fields (B b)))\n(struct B (fields (A a)))",
    );
    assert!(wc_gen::compiler::compile(&cyclic).is_err());
}
