//! The semantic analyzer: resolves every variable and function reference
//! against the declaration table and the function library, infers the
//! types of implicitly declared variables, and reports every conflict as
//! a diagnostic.

use vstd::prelude::*;
use crate::ast::{BasicStatement, BinaryOperator, Expression, ParsedNode, Statement};
use crate::declaration::{
    lemma_lookup_declares, lookup_declaration, Declaration, DeclarationSource, DeclarationTable,
};
use crate::diagnostics::{Diagnostic, DiagnosticSeverity};
use crate::library::Library;
use crate::types::{SimpleType, Value};

verus! {

broadcast use vstd::std_specs::vec::group_vec_axioms;

/// The default value a variable of the given type holds before any store:
/// the empty string, zero, or false. An unresolved variable defaults to
/// false until its type is known.
pub fn default_value_for(t: SimpleType) -> (r: Value)
    ensures
        t != SimpleType::Unresolved ==> r.type_of() == t,
{
    match t {
        SimpleType::String => Value::String(String::new()),
        SimpleType::Number => Value::Number(0),
        SimpleType::Boolean => Value::Boolean(false),
        SimpleType::Unresolved => Value::Boolean(false),
    }
}

/// Builds the implicit declaration recorded for the first use of an
/// undeclared variable.
fn implicit_declaration(name: String, t: SimpleType, file_name: &String) -> (r: Declaration)
    ensures
        r.name == name,
        r.variable_type.simple_type() == t,
        r.is_implicit,
        r.range is None,
    {
    Declaration {
        name,
        default_value: default_value_for(t),
        description: String::new(),
        source_file_name: DeclarationSource::File(file_name.clone()),
        source_node_name: None,
        source_file_line: None,
        is_implicit: true,
        variable_type: t.as_type(),
        range: None,
    }
}

/// Records one use of a variable in a context that requires the given
/// type, and returns the type the variable is known to have afterwards.
///
/// An implicit variable's inferred type is stable: the first use of an
/// undeclared variable declares it implicitly with the context's type;
/// a later use in a compatible context changes nothing and raises no
/// diagnostic; a use in a conflicting context raises exactly one
/// type-mismatch `Error` and leaves the recorded type unchanged.
pub fn note_variable_use(
    table: &mut DeclarationTable,
    name: &String,
    required: SimpleType,
    file_name: &String,
    node_line: usize,
    diagnostics: &mut Vec<Diagnostic>,
) -> (r: SimpleType)
    requires
        old(table).wf(),
    ensures
        final(table).wf(),
        ({
            let prior = lookup_declaration(old(table)@, name@);
            match prior {
                None => {
                    // First use: an implicit declaration with the context's type.
                    &&& final(table)@ == old(table)@.push(final(table)@.last())
                    &&& final(table)@.last().name@ == name@
                    &&& final(table)@.last().variable_type.simple_type() == required
                    &&& final(table)@.last().is_implicit
                    &&& final(diagnostics)@ == old(diagnostics)@
                    &&& r == required
                },
                Some(d) => {
                    if d.variable_type.simple_type() == SimpleType::Unresolved && required
                        != SimpleType::Unresolved {
                        // The first typed use resolves the placeholder.
                        &&& exists|i: int|
                            0 <= i < old(table)@.len() && old(table)@[i].name@ == name@
                                && final(table)@ == old(table)@.update(i, final(table)@[i])
                                && final(table)@[i].name@ == name@
                                && final(table)@[i].variable_type.simple_type() == required
                                && final(table)@[i].is_implicit == d.is_implicit
                        &&& final(diagnostics)@ == old(diagnostics)@
                        &&& r == required
                    } else if required == SimpleType::Unresolved || d.variable_type.simple_type()
                        == required {
                        // A compatible use: nothing changes, no diagnostic.
                        &&& final(table)@ == old(table)@
                        &&& final(diagnostics)@ == old(diagnostics)@
                        &&& r == d.variable_type.simple_type()
                    } else {
                        // A conflicting use: exactly one type-mismatch error,
                        // and the recorded type stands.
                        &&& final(table)@ == old(table)@
                        &&& final(diagnostics)@ == old(diagnostics)@.push(
                            final(diagnostics)@.last(),
                        )
                        &&& final(diagnostics)@.last().severity == DiagnosticSeverity::Error
                        &&& r == d.variable_type.simple_type()
                    }
                },
            }
        }),
{
    proof {
        lemma_lookup_declares(table@, name@);
    }
    let info: Option<(SimpleType, bool)> = match table.get(name) {
        Some(d) => Some((d.variable_type.as_simple_type(), d.is_implicit)),
        None => None,
    };
    match info {
        None => {
            let declaration = implicit_declaration(name.clone(), required, file_name);
            let added = table.add(declaration);
            proof {
                assert(added);
            }
            required
        },
        Some((declared_type, is_implicit)) => {
            if matches!(declared_type, SimpleType::Unresolved) && !matches!(
                required,
                SimpleType::Unresolved,
            ) {
                let mut declaration = implicit_declaration(name.clone(), required, file_name);
                declaration.is_implicit = is_implicit;
                let replaced = table.replace(declaration);
                proof {
                    assert(replaced);
                    let i = choose|i: int|
                        0 <= i < old(table)@.len() && old(table)@[i].name@ == declaration.name@
                            && table@ == old(table)@.update(i, declaration);
                    assert(table@[i] == declaration);
                    assert(0 <= i < old(table)@.len() && old(table)@[i].name@ == name@ && table@
                        == old(table)@.update(i, table@[i]) && table@[i].name@ == name@
                        && table@[i].variable_type.simple_type() == required
                        && table@[i].is_implicit == is_implicit);
                }
                required
            } else if matches!(required, SimpleType::Unresolved) || declared_type == required {
                declared_type
            } else {
                let mut message = String::from_str("the variable $");
                message.append(name.as_str());
                message.append(" is used with a type that conflicts with its declared type");
                push_error(file_name, node_line, message, diagnostics);
                declared_type
            }
        },
    }
}

/// Raises an `Error` diagnostic pointing at the given source line.
fn push_error(
    file_name: &String,
    node_line: usize,
    message: String,
    diagnostics: &mut Vec<Diagnostic>,
)
    ensures
        final(diagnostics)@ == old(diagnostics)@.push(final(diagnostics)@.last()),
        final(diagnostics)@.last().severity == DiagnosticSeverity::Error,
{
    diagnostics.push(
        Diagnostic::from_message(message).with_file_name(file_name.clone()).with_range(
            crate::position::PositionRange::new(
                crate::position::Position::new(node_line, 0),
                crate::position::Position::new(node_line, 0),
            ),
        ),
    );
}

/// Infers the type of an expression, recording every variable use along
/// the way. `expected` is the type the surrounding context requires, or
/// `Unresolved` when the context requires none.
pub fn infer_expression(
    expression: &Expression,
    expected: SimpleType,
    table: &mut DeclarationTable,
    library: &Library,
    file_name: &String,
    node_line: usize,
    diagnostics: &mut Vec<Diagnostic>,
) -> (r: SimpleType)
    requires
        old(table).wf(),
    ensures
        final(table).wf(),
        expression matches Expression::Literal(v) ==> r == v.type_of(),
        expression matches Expression::Literal(v) && (expected == SimpleType::Unresolved
            || v.type_of() == expected) ==> final(table)@ == old(table)@ && final(diagnostics)@
            == old(diagnostics)@,
        expression matches Expression::Literal(v) && expected != SimpleType::Unresolved
            && v.type_of() != expected ==> (final(diagnostics)@ == old(diagnostics)@.push(
            final(diagnostics)@.last(),
        ) && final(diagnostics)@.last().severity == DiagnosticSeverity::Error),
        expression matches Expression::Binary { operator, .. } && (operator
            == BinaryOperator::Subtract || operator == BinaryOperator::Multiply || operator
            == BinaryOperator::Divide) ==> r == SimpleType::Number,
        expression matches Expression::Binary { operator, .. } && (operator
            == BinaryOperator::LessThan || operator == BinaryOperator::LessThanOrEqualTo
            || operator == BinaryOperator::GreaterThan || operator
            == BinaryOperator::GreaterThanOrEqualTo || operator == BinaryOperator::EqualTo
            || operator == BinaryOperator::NotEqualTo || operator == BinaryOperator::And
            || operator == BinaryOperator::Or) ==> r == SimpleType::Boolean,
        expression matches Expression::FunctionCall { function, .. }
            && !crate::library::library_declares(library@, function@) ==> (r
            == SimpleType::Unresolved && final(table)@ == old(table)@ && final(diagnostics)@
            == old(diagnostics)@.push(final(diagnostics)@.last())
            && final(diagnostics)@.last().severity == DiagnosticSeverity::Error),
    decreases *expression,
{
    match expression {
        Expression::Literal(value) => {
            let t = value.value_type();
            if !matches!(expected, SimpleType::Unresolved) && t != expected {
                push_error(
                    file_name,
                    node_line,
                    String::from_str("a literal does not have the type its context requires"),
                    diagnostics,
                );
            }
            t
        },
        Expression::Variable(name) => note_variable_use(
            table,
            name,
            expected,
            file_name,
            node_line,
            diagnostics,
        ),
        Expression::Binary { operator, left, right } => {
            let result = match operator {
                BinaryOperator::Add => {
                    let left_type = infer_expression(
                        left,
                        SimpleType::Unresolved,
                        table,
                        library,
                        file_name,
                        node_line,
                        diagnostics,
                    );
                    let right_type = infer_expression(
                        right,
                        left_type,
                        table,
                        library,
                        file_name,
                        node_line,
                        diagnostics,
                    );
                    let mut combined = left_type;
                    if matches!(left_type, SimpleType::Unresolved) && !matches!(
                        right_type,
                        SimpleType::Unresolved,
                    ) {
                        if let Expression::Variable(name) = &**left {
                            note_variable_use(table, name, right_type, file_name, node_line, diagnostics);
                        }
                        combined = right_type;
                    }
                    if matches!(combined, SimpleType::Boolean) {
                        push_error(
                            file_name,
                            node_line,
                            String::from_str("the plus operator takes numbers or strings"),
                            diagnostics,
                        );
                    }
                    combined
                },
                BinaryOperator::Subtract
                | BinaryOperator::Multiply
                | BinaryOperator::Divide => {
                    infer_expression(
                        left,
                        SimpleType::Number,
                        table,
                        library,
                        file_name,
                        node_line,
                        diagnostics,
                    );
                    infer_expression(
                        right,
                        SimpleType::Number,
                        table,
                        library,
                        file_name,
                        node_line,
                        diagnostics,
                    );
                    SimpleType::Number
                },
                BinaryOperator::LessThan
                | BinaryOperator::LessThanOrEqualTo
                | BinaryOperator::GreaterThan
                | BinaryOperator::GreaterThanOrEqualTo => {
                    infer_expression(
                        left,
                        SimpleType::Number,
                        table,
                        library,
                        file_name,
                        node_line,
                        diagnostics,
                    );
                    infer_expression(
                        right,
                        SimpleType::Number,
                        table,
                        library,
                        file_name,
                        node_line,
                        diagnostics,
                    );
                    SimpleType::Boolean
                },
                BinaryOperator::EqualTo | BinaryOperator::NotEqualTo => {
                    let left_type = infer_expression(
                        left,
                        SimpleType::Unresolved,
                        table,
                        library,
                        file_name,
                        node_line,
                        diagnostics,
                    );
                    let right_type = infer_expression(
                        right,
                        left_type,
                        table,
                        library,
                        file_name,
                        node_line,
                        diagnostics,
                    );
                    if matches!(left_type, SimpleType::Unresolved) && !matches!(
                        right_type,
                        SimpleType::Unresolved,
                    ) {
                        if let Expression::Variable(name) = &**left {
                            note_variable_use(table, name, right_type, file_name, node_line, diagnostics);
                        }
                    }
                    SimpleType::Boolean
                },
                BinaryOperator::And | BinaryOperator::Or => {
                    infer_expression(
                        left,
                        SimpleType::Boolean,
                        table,
                        library,
                        file_name,
                        node_line,
                        diagnostics,
                    );
                    infer_expression(
                        right,
                        SimpleType::Boolean,
                        table,
                        library,
                        file_name,
                        node_line,
                        diagnostics,
                    );
                    SimpleType::Boolean
                },
            };
            if !matches!(expected, SimpleType::Unresolved) && !matches!(
                result,
                SimpleType::Unresolved,
            ) && result != expected {
                push_error(
                    file_name,
                    node_line,
                    String::from_str("the operator yields a type its context cannot take"),
                    diagnostics,
                );
            }
            result
        },
        Expression::FunctionCall { function, arguments } => {
            proof {
                crate::library::lemma_lookup_function(library@, function@);
            }
            let signature: Option<(Vec<SimpleType>, SimpleType)> = match library.get(function) {
                Some(f) => Some((f.signature.parameters.clone(), f.signature.return_type)),
                None => None,
            };
            match signature {
                None => {
                    let mut message = String::from_str("the function ");
                    message.append(function.as_str());
                    message.append(" is not in the library");
                    push_error(file_name, node_line, message, diagnostics);
                    SimpleType::Unresolved
                },
                Some((parameters, return_type)) => {
                    if arguments.len() != parameters.len() {
                        let mut message = String::from_str("the function ");
                        message.append(function.as_str());
                        message.append(" is called with the wrong number of arguments");
                        push_error(file_name, node_line, message, diagnostics);
                    }
                    let count = if arguments.len() < parameters.len() {
                        arguments.len()
                    } else {
                        parameters.len()
                    };
                    let mut i: usize = 0;
                    while i < count
                        invariant
                            table.wf(),
                            count <= arguments@.len(),
                            count <= parameters@.len(),
                            *expression == (Expression::FunctionCall {
                                function: *function,
                                arguments: *arguments,
                            }),
                        decreases count - i,
                    {
                        proof {
                            assert(decreases_to!(*expression => (*expression)->FunctionCall_arguments));
                            assert((*expression)->FunctionCall_arguments == *arguments);
                            assert(decreases_to!(*arguments => arguments@));
                            assert(decreases_to!(arguments@ => arguments@[i as int]));
                        }
                        infer_expression(
                            &arguments[i],
                            parameters[i],
                            table,
                            library,
                            file_name,
                            node_line,
                            diagnostics,
                        );
                        i = i + 1;
                    }
                    if !matches!(expected, SimpleType::Unresolved) && !matches!(
                        return_type,
                        SimpleType::Unresolved,
                    ) && return_type != expected {
                        push_error(
                            file_name,
                            node_line,
                            String::from_str(
                                "the function yields a type its context cannot take",
                            ),
                            diagnostics,
                        );
                    }
                    return_type
                },
            }
        },
    }
}

/// Returns `true` when the name is one of the known node names.
fn node_name_known(node_names: &Vec<String>, name: &String) -> (r: bool)
    ensures
        r == exists|i: int| 0 <= i < node_names@.len() && node_names@[i]@ == name@,
{
    let mut i: usize = 0;
    while i < node_names.len()
        invariant
            0 <= i <= node_names@.len(),
            forall|j: int| 0 <= j < i ==> node_names@[j]@ != name@,
        decreases node_names@.len() - i,
    {
        if node_names[i] == *name {
            return true;
        }
        i = i + 1;
    }
    false
}

/// Validates a jump or option destination against the node names known
/// in the job: a known destination raises nothing, an unknown one
/// raises exactly one `Error`.
fn check_destination(
    destination: &String,
    node_names: &Vec<String>,
    file_name: &String,
    node_line: usize,
    diagnostics: &mut Vec<Diagnostic>,
)
    ensures
        (exists|i: int| 0 <= i < node_names@.len() && (#[trigger] node_names@[i])@
            == destination@) ==> final(diagnostics)@ == old(diagnostics)@,
        !(exists|i: int| 0 <= i < node_names@.len() && (#[trigger] node_names@[i])@
            == destination@) ==> (final(diagnostics)@ == old(diagnostics)@.push(
            final(diagnostics)@.last(),
        ) && final(diagnostics)@.last().severity == DiagnosticSeverity::Error),
{
    if !node_name_known(node_names, destination) {
        let mut message = String::from_str("the destination node ");
        message.append(destination.as_str());
        message.append(" does not exist in this job");
        push_error(file_name, node_line, message, diagnostics);
    }
}

/// Analyzes one statement that opens no block.
fn analyze_basic_statement(
    statement: &BasicStatement,
    node_names: &Vec<String>,
    table: &mut DeclarationTable,
    library: &Library,
    file_name: &String,
    node_line: usize,
    diagnostics: &mut Vec<Diagnostic>,
)
    requires
        old(table).wf(),
    ensures
        final(table).wf(),
{
    match statement {
        BasicStatement::Line { substitutions, .. } => {
            let mut i: usize = 0;
            while i < substitutions.len()
                invariant
                    table.wf(),
                decreases substitutions@.len() - i,
            {
                note_variable_use(
                    table,
                    &substitutions[i],
                    SimpleType::Unresolved,
                    file_name,
                    node_line,
                    diagnostics,
                );
                i = i + 1;
            }
        },
        BasicStatement::OptionLine { destination, .. } => {
            check_destination(destination, node_names, file_name, node_line, diagnostics);
        },
        BasicStatement::SetCommand { variable, expression } => {
            let t = infer_expression(
                expression,
                SimpleType::Unresolved,
                table,
                library,
                file_name,
                node_line,
                diagnostics,
            );
            note_variable_use(table, variable, t, file_name, node_line, diagnostics);
        },
        BasicStatement::DeclareCommand { .. } => {
            // Explicit declarations were collected in the first pass.
        },
        BasicStatement::JumpCommand { destination } => {
            check_destination(destination, node_names, file_name, node_line, diagnostics);
        },
        BasicStatement::CommandText { .. } => {},
        BasicStatement::StopCommand => {},
    }
}

/// Analyzes every statement of one node.
fn analyze_node(
    node: &ParsedNode,
    node_names: &Vec<String>,
    table: &mut DeclarationTable,
    library: &Library,
    file_name: &String,
    diagnostics: &mut Vec<Diagnostic>,
)
    requires
        old(table).wf(),
    ensures
        final(table).wf(),
{
    let mut i: usize = 0;
    while i < node.body.len()
        invariant
            table.wf(),
        decreases node.body@.len() - i,
    {
        match &node.body[i] {
            Statement::Basic(statement) => {
                analyze_basic_statement(
                    statement,
                    node_names,
                    table,
                    library,
                    file_name,
                    node.line,
                    diagnostics,
                );
            },
            Statement::If { branches, else_body } => {
                let mut b: usize = 0;
                while b < branches.len()
                    invariant
                        table.wf(),
                    decreases branches@.len() - b,
                {
                    let condition_type = infer_expression(
                        &branches[b].condition,
                        SimpleType::Boolean,
                        table,
                        library,
                        file_name,
                        node.line,
                        diagnostics,
                    );
                    if matches!(condition_type, SimpleType::String) || matches!(
                        condition_type,
                        SimpleType::Number,
                    ) {
                        push_error(
                            file_name,
                            node.line,
                            String::from_str("an if condition must be a boolean"),
                            diagnostics,
                        );
                    }
                    let mut s: usize = 0;
                    while s < branches[b].body.len()
                        invariant
                            table.wf(),
                            b < branches@.len(),
                        decreases branches@[b as int].body@.len() - s,
                    {
                        analyze_basic_statement(
                            &branches[b].body[s],
                            node_names,
                            table,
                            library,
                            file_name,
                            node.line,
                            diagnostics,
                        );
                        s = s + 1;
                    }
                    b = b + 1;
                }
                let mut s: usize = 0;
                while s < else_body.len()
                    invariant
                        table.wf(),
                    decreases else_body@.len() - s,
                {
                    analyze_basic_statement(
                        &else_body[s],
                        node_names,
                        table,
                        library,
                        file_name,
                        node.line,
                        diagnostics,
                    );
                    s = s + 1;
                }
            },
        }
        i = i + 1;
    }
}

/// Records one explicit declaration: a first declaration of the name
/// enters the table with the literal's type and value and raises
/// nothing; a second explicit declaration of the same name raises
/// exactly one duplicate `Error` and leaves the table unchanged.
fn collect_declaration(
    variable: &String,
    value: &Value,
    node_name: &String,
    table: &mut DeclarationTable,
    file_name: &String,
    node_line: usize,
    diagnostics: &mut Vec<Diagnostic>,
)
    requires
        old(table).wf(),
    ensures
        final(table).wf(),
        !crate::declaration::declares(old(table)@, variable@) ==> ({
            &&& final(table)@ == old(table)@.push(final(table)@.last())
            &&& final(table)@.last().name@ == variable@
            &&& !final(table)@.last().is_implicit
            &&& final(table)@.last().variable_type.simple_type() == value.type_of()
            &&& final(table)@.last().default_value == value
            &&& final(diagnostics)@ == old(diagnostics)@
        }),
        crate::declaration::declares(old(table)@, variable@) ==> ({
            &&& final(table)@ == old(table)@
            &&& final(diagnostics)@ == old(diagnostics)@.push(final(diagnostics)@.last())
            &&& final(diagnostics)@.last().severity == DiagnosticSeverity::Error
        }),
{
    let declaration = Declaration {
        name: variable.clone(),
        default_value: value.clone(),
        description: String::new(),
        source_file_name: DeclarationSource::File(file_name.clone()),
        source_node_name: Some(node_name.clone()),
        source_file_line: None,
        is_implicit: false,
        variable_type: value.value_type().as_type(),
        range: None,
    };
    if !table.add(declaration) {
        let mut message = String::from_str("the variable $");
        message.append(variable.as_str());
        message.append(" has already been declared");
        push_error(file_name, node_line, message, diagnostics);
    }
}

/// First pass: collects every explicit `declare` of the nodes into the
/// declaration table; a duplicate explicit declaration is an `Error`.
pub fn collect_declarations(
    nodes: &Vec<ParsedNode>,
    table: &mut DeclarationTable,
    file_name: &String,
    diagnostics: &mut Vec<Diagnostic>,
)
    requires
        old(table).wf(),
    ensures
        final(table).wf(),
{
    let mut n: usize = 0;
    while n < nodes.len()
        invariant
            table.wf(),
        decreases nodes@.len() - n,
    {
        let node = &nodes[n];
        let mut i: usize = 0;
        while i < node.body.len()
            invariant
                table.wf(),
                n < nodes@.len(),
            decreases node.body@.len() - i,
        {
            match &node.body[i] {
                Statement::Basic(BasicStatement::DeclareCommand { variable, value }) => {
                    collect_declaration(variable, value, &node.name, table, file_name, node.line, diagnostics);
                },
                Statement::If { branches, else_body } => {
                    let mut b: usize = 0;
                    while b < branches.len()
                        invariant
                            table.wf(),
                        decreases branches@.len() - b,
                    {
                        let mut s: usize = 0;
                        while s < branches[b].body.len()
                            invariant
                                table.wf(),
                                b < branches@.len(),
                            decreases branches@[b as int].body@.len() - s,
                        {
                            if let BasicStatement::DeclareCommand { variable, value } = &branches[b].body[s] {
                                collect_declaration(
                                    variable,
                                    value,
                                    &node.name,
                                    table,
                                    file_name,
                                    node.line,
                                    diagnostics,
                                );
                            }
                            s = s + 1;
                        }
                        b = b + 1;
                    }
                    let mut s: usize = 0;
                    while s < else_body.len()
                        invariant
                            table.wf(),
                        decreases else_body@.len() - s,
                    {
                        if let BasicStatement::DeclareCommand { variable, value } = &else_body[s] {
                            collect_declaration(
                                variable,
                                value,
                                &node.name,
                                table,
                                file_name,
                                node.line,
                                diagnostics,
                            );
                        }
                        s = s + 1;
                    }
                },
                _ => {},
            }
            i = i + 1;
        }
        n = n + 1;
    }
}

/// Second pass: walks every node, resolving variable and function
/// references and validating jump destinations.
pub fn analyze(
    nodes: &Vec<ParsedNode>,
    node_names: &Vec<String>,
    library: &Library,
    table: &mut DeclarationTable,
    file_name: &String,
    diagnostics: &mut Vec<Diagnostic>,
)
    requires
        old(table).wf(),
    ensures
        final(table).wf(),
{
    let mut n: usize = 0;
    while n < nodes.len()
        invariant
            table.wf(),
        decreases nodes@.len() - n,
    {
        analyze_node(&nodes[n], node_names, table, library, file_name, diagnostics);
        n = n + 1;
    }
}

/// Holds when some declaration of the sequence is implicit and still
/// carries the unresolved placeholder type.
pub open spec fn has_unresolved_implicit(decls: Seq<Declaration>) -> bool {
    exists|i: int|
        0 <= i < decls.len() && (#[trigger] decls[i]).is_implicit
            && decls[i].variable_type is Unresolved
}

/// Final check: after analysis no implicit declaration may keep the
/// unresolved placeholder type; each one that does is an `Error`.
/// Without such a declaration nothing is reported.
#[verifier::loop_isolation(false)]
pub fn report_unresolved(table: &DeclarationTable, diagnostics: &mut Vec<Diagnostic>)
    ensures
        final(diagnostics)@.subrange(0, old(diagnostics)@.len() as int) == old(diagnostics)@,
        !has_unresolved_implicit(table@) ==> final(diagnostics)@ == old(diagnostics)@,
        has_unresolved_implicit(table@) ==> crate::diagnostics::has_error(final(diagnostics)@),
{
    proof {
        assert(diagnostics@.subrange(0, diagnostics@.len() as int) =~= diagnostics@);
        assert(table@.take(0) =~= Seq::<Declaration>::empty());
    }
    let mut i: usize = 0;
    while i < table.len()
        invariant
            0 <= i <= table@.len(),
            old(diagnostics)@.len() <= diagnostics@.len(),
            diagnostics@.subrange(0, old(diagnostics)@.len() as int) == old(diagnostics)@,
            !has_unresolved_implicit(table@.take(i as int)) ==> diagnostics@ == old(
                diagnostics,
            )@,
            has_unresolved_implicit(table@.take(i as int)) ==> crate::diagnostics::has_error(
                diagnostics@,
            ),
        decreases table@.len() - i,
    {
        proof {
            assert forall|k: int| 0 <= k < i + 1 implies table@.take(i + 1)[k] == table@[k] by {}
            assert forall|k: int| 0 <= k < i implies table@.take(i as int)[k] == table@[k] by {}
        }
        let declaration = table.get_at(i);
        if declaration.is_implicit && matches!(
            declaration.variable_type,
            crate::types::Type::Unresolved,
        ) {
            let mut message = String::from_str("the type of the variable $");
            message.append(declaration.name.as_str());
            message.append(" could not be inferred from its uses");
            let file_name = declaration.source_file_name.as_display_string();
            let ghost before = diagnostics@;
            diagnostics.push(
                Diagnostic::from_message(message).with_file_name(file_name),
            );
            proof {
                assert(diagnostics@.last().severity == DiagnosticSeverity::Error);
                assert(crate::diagnostics::has_error(diagnostics@)) by {
                    assert(diagnostics@[diagnostics@.len() - 1].severity
                        == DiagnosticSeverity::Error);
                }
                assert(diagnostics@.subrange(0, old(diagnostics)@.len() as int)
                    =~= before.subrange(0, old(diagnostics)@.len() as int));
                assert(has_unresolved_implicit(table@.take(i + 1))) by {
                    assert(table@.take(i + 1)[i as int].is_implicit);
                }
            }
        } else {
            proof {
                if has_unresolved_implicit(table@.take(i + 1)) {
                    let k = choose|k: int|
                        0 <= k < table@.take(i + 1).len() && (#[trigger] table@.take(
                            i + 1,
                        )[k]).is_implicit && table@.take(i + 1)[k].variable_type is Unresolved;
                    if k < i {
                        assert(table@.take(i as int)[k].is_implicit);
                    }
                }
            }
        }
        proof {
            if has_unresolved_implicit(table@.take(i as int)) {
                let k = choose|k: int|
                    0 <= k < table@.take(i as int).len() && (#[trigger] table@.take(
                        i as int,
                    )[k]).is_implicit && table@.take(i as int)[k].variable_type is Unresolved;
                assert(table@.take(i + 1)[k].is_implicit);
                assert(has_unresolved_implicit(table@.take(i + 1)));
            }
        }
        i = i + 1;
    }
    proof {
        assert(table@.take(table@.len() as int) =~= table@);
    }
}

} // verus!
