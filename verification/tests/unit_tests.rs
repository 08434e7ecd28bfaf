use yarn_slinger::declaration::{Declaration, DeclarationSource, DeclarationTable};
use yarn_slinger::diagnostics::{Diagnostic, DiagnosticSeverity, RuleContext};
use yarn_slinger::library::{Library, LibraryFunction};
use yarn_slinger::position::{Position, PositionRange};
use yarn_slinger::text::{split_words, trim};
use yarn_slinger::types::{FunctionSignature, SimpleType, Type, Value};

#[test]
fn split_words_yields_the_maximal_nonblank_runs() {
    let words = split_words("  one two\tthree  ");
    assert_eq!(words, vec!["one".to_string(), "two".to_string(), "three".to_string()]);
    assert!(split_words("   ").is_empty());
    assert!(split_words("").is_empty());
    assert_eq!(split_words("solo"), vec!["solo".to_string()]);
}

#[test]
fn trim_removes_leading_and_trailing_blanks() {
    assert_eq!(trim("  padded \t"), "padded");
    assert_eq!(trim("inner space stays"), "inner space stays");
    assert_eq!(trim(" \t "), "");
}

#[test]
fn diagnostic_from_message_uses_the_error_severity_default() {
    let diagnostic = Diagnostic::from_message("something failed".to_string());
    assert_eq!(diagnostic.message, "something failed");
    assert_eq!(diagnostic.severity, DiagnosticSeverity::Error);
    assert!(diagnostic.file_name.is_none());
    assert!(diagnostic.range.is_none());
    assert!(diagnostic.context.is_none());
}

#[test]
fn diagnostic_builders_set_their_fields() {
    let range = PositionRange::new(Position::new(1, 0), Position::new(1, 9));
    let diagnostic = Diagnostic::from_message("issue".to_string())
        .with_file_name("script.yarn".to_string())
        .with_range(range)
        .with_context("the line".to_string())
        .with_severity(DiagnosticSeverity::Warning);
    assert_eq!(diagnostic.file_name.as_deref(), Some("script.yarn"));
    assert_eq!(diagnostic.range, Some(range));
    assert_eq!(diagnostic.context.as_deref(), Some("the line"));
    assert_eq!(diagnostic.severity, DiagnosticSeverity::Warning);
}

#[test]
fn diagnostic_reads_range_and_context_from_a_rule_context() {
    let context = RuleContext {
        range: PositionRange::new(Position::new(3, 2), Position::new(3, 14)),
        text: "<<set $x = 1>>".to_string(),
    };
    let diagnostic =
        Diagnostic::from_message("bad rule".to_string()).read_parser_rule_context(&context);
    assert_eq!(diagnostic.range, Some(context.range));
    assert_eq!(diagnostic.context.as_deref(), Some("<<set $x = 1>>"));
    assert_eq!(diagnostic.message, "bad rule");
}

#[test]
fn declaration_source_displays_external_or_the_file_name() {
    assert_eq!(DeclarationSource::External.as_display_string(), "(External)");
    assert_eq!(
        DeclarationSource::File("script.yarn".to_string()).as_display_string(),
        "script.yarn"
    );
}

fn sample_declaration(name: &str) -> Declaration {
    Declaration {
        name: name.to_string(),
        default_value: Value::Number(1),
        description: String::new(),
        source_file_name: DeclarationSource::External,
        source_node_name: None,
        source_file_line: None,
        is_implicit: false,
        variable_type: Type::Number,
        range: None,
    }
}

#[test]
fn declaration_table_rejects_duplicate_names() {
    let mut table = DeclarationTable::new();
    assert!(table.add(sample_declaration("x")));
    assert!(!table.add(sample_declaration("x")));
    assert!(table.add(sample_declaration("y")));
    assert_eq!(table.len(), 2);
    assert!(table.contains(&"x".to_string()));
    assert!(!table.contains(&"z".to_string()));
    assert!(table.get(&"y".to_string()).is_some());
    assert!(table.get(&"z".to_string()).is_none());
}

#[test]
fn library_rejects_duplicate_function_names() {
    let mut library = Library::new();
    let entry = LibraryFunction {
        name: "visit".to_string(),
        signature: FunctionSignature {
            parameters: vec![SimpleType::String],
            return_type: SimpleType::Boolean,
        },
    };
    assert!(library.register_function(entry.clone()));
    assert!(!library.register_function(entry));
    assert!(library.contains(&"visit".to_string()));
    assert!(library.get(&"visit".to_string()).is_some());
    assert!(library.get(&"gone".to_string()).is_none());
}

#[test]
fn types_compare_structurally() {
    assert!(Type::Number.same_type_as(&Type::Number));
    assert!(!Type::Number.same_type_as(&Type::String));
    let f = Type::Function(FunctionSignature {
        parameters: vec![SimpleType::Number, SimpleType::String],
        return_type: SimpleType::Boolean,
    });
    let g = Type::Function(FunctionSignature {
        parameters: vec![SimpleType::Number, SimpleType::String],
        return_type: SimpleType::Boolean,
    });
    let h = Type::Function(FunctionSignature {
        parameters: vec![SimpleType::Number],
        return_type: SimpleType::Boolean,
    });
    assert!(f.same_type_as(&g));
    assert!(!f.same_type_as(&h));
}

#[test]
fn values_know_their_types_and_compare_by_content() {
    assert_eq!(Value::Number(3).value_type(), SimpleType::Number);
    assert_eq!(Value::String("a".to_string()).value_type(), SimpleType::String);
    assert_eq!(Value::Boolean(true).value_type(), SimpleType::Boolean);
    assert!(Value::Number(3).same_value_as(&Value::Number(3)));
    assert!(!Value::Number(3).same_value_as(&Value::Number(4)));
    assert!(!Value::Number(3).same_value_as(&Value::Boolean(true)));
    assert!(Value::String("a".to_string()).same_value_as(&Value::String("a".to_string())));
}
