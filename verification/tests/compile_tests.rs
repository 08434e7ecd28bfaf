use yarn_slinger::compiler::{compile, CompilationJob};
use yarn_slinger::diagnostics::DiagnosticSeverity;
use yarn_slinger::library::{Library, LibraryFunction};
use yarn_slinger::types::{FunctionSignature, SimpleType};

const SALLY_SOURCE: &str = "title: Sally\n\
---\n\
Sally: Oh! Hi.\n\
Sally: You snuck up on me.\n\
[[Anything exciting happen on your watch?|Sally.Watch]]\n\
[[See you later, Sally.|Sally.Exit]]\n\
===\n\
title: Sally.Watch\n\
---\n\
Sally: Not really.\n\
<<jump Sally.Exit>>\n\
===\n\
title: Sally.Exit\n\
---\n\
Sally: Bye.\n\
===\n";

const SHIP_SOURCE: &str = "title: Ship\n\
---\n\
Ship: Hey, friend.\n\
<<set $should_see_ship = false>>\n\
[[Good to hear it!|Ship.Exit]]\n\
===\n\
title: Ship.Exit\n\
---\n\
Ship: Bye!\n\
===\n";

fn test_library() -> Library {
    let mut library = Library::new();
    library.register_function(LibraryFunction {
        name: "assert".to_string(),
        signature: FunctionSignature {
            parameters: vec![SimpleType::Boolean],
            return_type: SimpleType::Boolean,
        },
    });
    library
}

fn error_count(diagnostics: &[yarn_slinger::diagnostics::Diagnostic]) -> usize {
    diagnostics
        .iter()
        .filter(|d| d.severity == DiagnosticSeverity::Error)
        .count()
}

#[test]
fn can_compile_space_demo() {
    let compilation_job_sally = CompilationJob::new()
        .with_file("Sally.yarn".to_string(), SALLY_SOURCE.to_string())
        .with_library(test_library());
    let compilation_job_sally_and_ship = CompilationJob::new()
        .with_file("Sally.yarn".to_string(), SALLY_SOURCE.to_string())
        .with_file("Ship.yarn".to_string(), SHIP_SOURCE.to_string())
        .with_library(test_library());

    let result_sally = compile(compilation_job_sally);
    assert_eq!(error_count(&result_sally.diagnostics), 0);
    let _program_sally = result_sally.program.unwrap();

    let result_sally_and_ship = compile(compilation_job_sally_and_ship);
    assert_eq!(error_count(&result_sally_and_ship.diagnostics), 0);
    let _program_both = result_sally_and_ship.program.unwrap();
}

#[test]
fn compiling_independent_nodes_yields_one_entry_per_title() {
    let result = compile(
        CompilationJob::new()
            .with_file("a.yarn".to_string(), "title: One\n---\n===\ntitle: Two\n---\n===\n".to_string())
            .with_file("b.yarn".to_string(), "title: Three\n---\n===\n".to_string()),
    );
    let program = result.program.unwrap();
    assert_eq!(program.nodes.len(), 3);
    let names: Vec<&str> = program.nodes.iter().map(|n| n.name.as_str()).collect();
    assert!(names.contains(&"One"));
    assert!(names.contains(&"Two"));
    assert!(names.contains(&"Three"));
}

#[test]
fn duplicate_node_name_in_one_job_is_an_error() {
    let result = compile(
        CompilationJob::new()
            .with_file("a.yarn".to_string(), "title: Twin\n---\n===\n".to_string())
            .with_file("b.yarn".to_string(), "title: Twin\n---\n===\n".to_string()),
    );
    assert!(result.program.is_none());
    assert!(error_count(&result.diagnostics) > 0);
}

#[test]
fn implicit_variable_type_is_stable_across_compatible_uses() {
    let source = "title: A\n\
---\n\
<<set $first = \"a\" + $shared>>\n\
<<set $second = $shared + \"b\">>\n\
===\n";
    let result = compile(
        CompilationJob::new().with_file("t.yarn".to_string(), source.to_string()),
    );
    assert_eq!(error_count(&result.diagnostics), 0);
    assert!(result.program.is_some());
}

#[test]
fn conflicting_implicit_variable_uses_raise_exactly_one_error() {
    let source = "title: A\n\
---\n\
<<set $first = \"a\" + $shared>>\n\
<<set $second = $shared * 2>>\n\
===\n";
    let result = compile(
        CompilationJob::new().with_file("t.yarn".to_string(), source.to_string()),
    );
    assert_eq!(error_count(&result.diagnostics), 1);
    assert!(result.program.is_none());
}

#[test]
fn duplicate_explicit_declaration_is_an_error() {
    let source = "title: A\n---\n<<declare $x = 1>>\n<<declare $x = 2>>\n===\n";
    let result = compile(
        CompilationJob::new().with_file("t.yarn".to_string(), source.to_string()),
    );
    assert!(result.program.is_none());
    assert_eq!(error_count(&result.diagnostics), 1);
}

#[test]
fn unknown_function_is_an_error() {
    let source = "title: A\n---\n<<set $x = missing(1)>>\n===\n";
    let result = compile(
        CompilationJob::new().with_file("t.yarn".to_string(), source.to_string()),
    );
    assert!(result.program.is_none());
}

#[test]
fn wrong_function_arity_is_an_error() {
    let source = "title: A\n---\n<<set $x = assert(true, true)>>\n===\n";
    let result = compile(
        CompilationJob::new()
            .with_file("t.yarn".to_string(), source.to_string())
            .with_library(test_library()),
    );
    assert!(result.program.is_none());
}

#[test]
fn known_function_call_with_right_arity_compiles() {
    let source = "title: A\n---\n<<set $x = assert(true)>>\n===\n";
    let result = compile(
        CompilationJob::new()
            .with_file("t.yarn".to_string(), source.to_string())
            .with_library(test_library()),
    );
    assert_eq!(error_count(&result.diagnostics), 0);
    assert!(result.program.is_some());
}

#[test]
fn unknown_jump_destination_is_an_error() {
    let source = "title: A\n---\n<<jump Nowhere>>\n===\n";
    let result = compile(
        CompilationJob::new().with_file("t.yarn".to_string(), source.to_string()),
    );
    assert!(result.program.is_none());
}

#[test]
fn unknown_option_destination_is_an_error() {
    let source = "title: A\n---\n[[Go|Nowhere]]\n===\n";
    let result = compile(
        CompilationJob::new().with_file("t.yarn".to_string(), source.to_string()),
    );
    assert!(result.program.is_none());
}

#[test]
fn duplicate_explicit_line_id_is_an_error() {
    let source = "title: A\n---\nFirst line #line:shared\nSecond line #line:shared\n===\n";
    let result = compile(
        CompilationJob::new().with_file("t.yarn".to_string(), source.to_string()),
    );
    assert!(result.program.is_none());
}

#[test]
fn explicit_line_ids_win_over_derived_ones() {
    let source = "title: A\n---\nHello there #line:greeting\n===\n";
    let result = compile(
        CompilationJob::new().with_file("t.yarn".to_string(), source.to_string()),
    );
    let program = result.program.unwrap();
    let node = &program.nodes[0];
    let mut found = false;
    for instruction in &node.instructions {
        if let yarn_slinger::program::Instruction::RunLine { line_id, .. } = instruction {
            assert_eq!(line_id, "line:greeting");
            found = true;
        }
    }
    assert!(found);
}

#[test]
fn nested_if_is_an_error() {
    let source = "title: A\n---\n<<if true>>\n<<if false>>\nX\n<<endif>>\n<<endif>>\n===\n";
    let result = compile(
        CompilationJob::new().with_file("t.yarn".to_string(), source.to_string()),
    );
    assert!(result.program.is_none());
}

#[test]
fn stray_endif_is_an_error() {
    let source = "title: A\n---\n<<endif>>\n===\n";
    let result = compile(
        CompilationJob::new().with_file("t.yarn".to_string(), source.to_string()),
    );
    assert!(result.program.is_none());
}

#[test]
fn interpolation_only_variable_stays_unresolved_and_errors() {
    let source = "title: A\n---\nHello {$who}!\n===\n";
    let result = compile(
        CompilationJob::new().with_file("t.yarn".to_string(), source.to_string()),
    );
    assert!(result.program.is_none());
}

#[test]
fn declared_interpolation_variable_compiles() {
    let source = "title: A\n---\n<<declare $who = \"you\">>\nHello {$who}!\n===\n";
    let result = compile(
        CompilationJob::new().with_file("t.yarn".to_string(), source.to_string()),
    );
    assert_eq!(error_count(&result.diagnostics), 0);
    assert!(result.program.is_some());
}

#[test]
fn empty_job_compiles_to_an_empty_program() {
    let result = compile(CompilationJob::new());
    let program = result.program.unwrap();
    assert_eq!(program.nodes.len(), 0);
}

#[test]
fn analyzer_diagnostics_point_at_the_node_line() {
    let source = "title: A\n---\n<<set $first = \"a\" + $shared>>\n<<set $second = $shared * 2>>\n===\n";
    let result = compile(
        CompilationJob::new().with_file("t.yarn".to_string(), source.to_string()),
    );
    assert_eq!(error_count(&result.diagnostics), 1);
    let diagnostic = result
        .diagnostics
        .iter()
        .find(|d| d.severity == DiagnosticSeverity::Error)
        .unwrap();
    let range = diagnostic.range.expect("the error carries the node's line range");
    assert_eq!(range.start.line, 0);
}

#[test]
fn parser_diagnostics_carry_range_and_context() {
    let source = "title: A\n---\n<<set oops>>\n===\n";
    let result = compile(
        CompilationJob::new().with_file("t.yarn".to_string(), source.to_string()),
    );
    assert!(result.program.is_none());
    let diagnostic = result
        .diagnostics
        .iter()
        .find(|d| d.severity == DiagnosticSeverity::Error)
        .unwrap();
    let range = diagnostic.range.expect("the error carries the line's range");
    assert_eq!(range.start.line, 2);
    assert_eq!(diagnostic.context.as_deref(), Some("<<set oops>>"));
}

