//! The code generator: lowers a semantically-checked node body into an
//! ordered bytecode instruction sequence, and assigns a stable line
//! identifier to every user-visible line and option.

use vstd::prelude::*;
use crate::ast::{BasicStatement, Expression, ParsedNode, Statement};
use crate::diagnostics::Diagnostic;
use crate::parser::{first_header_value, node_tags_spec, parsed_node_wf};
use crate::program::{local_jump_targets_bounded, Instruction, Node};
use crate::text::{push_decimal, views_of};

verus! {

broadcast use vstd::std_specs::vec::group_vec_axioms;

/// Holds for the instructions that jump inside their own node.
pub open spec fn is_local_jump(instruction: Instruction) -> bool {
    instruction is Jump || instruction is JumpIfFalse
}

/// Holds when `second` is `first` with instructions appended, none of
/// them a local jump.
pub open spec fn extends_without_jumps(first: Seq<Instruction>, second: Seq<Instruction>) -> bool {
    &&& second.len() >= first.len()
    &&& second.subrange(0, first.len() as int) == first
    &&& forall|k: int|
        first.len() <= k < second.len() ==> !is_local_jump(#[trigger] second[k])
}

proof fn lemma_extends_refl(s: Seq<Instruction>)
    ensures
        extends_without_jumps(s, s),
{
    assert(s.subrange(0, s.len() as int) =~= s);
}

proof fn lemma_extends_push(s: Seq<Instruction>, instruction: Instruction)
    requires
        !is_local_jump(instruction),
    ensures
        extends_without_jumps(s, s.push(instruction)),
{
    assert(s.push(instruction).subrange(0, s.len() as int) =~= s);
}

proof fn lemma_extends_trans(a: Seq<Instruction>, b: Seq<Instruction>, c: Seq<Instruction>)
    requires
        extends_without_jumps(a, b),
        extends_without_jumps(b, c),
    ensures
        extends_without_jumps(a, c),
{
    assert forall|i: int| 0 <= i < a.len() implies c[i] == a[i] by {
        assert(b.subrange(0, a.len() as int)[i] == a[i]);
        assert(c.subrange(0, b.len() as int)[i] == b[i]);
    }
    assert(c.subrange(0, a.len() as int) =~= a);
    assert forall|k: int| a.len() <= k < c.len() implies !is_local_jump(#[trigger] c[k]) by {
        if k < b.len() {
            assert(c.subrange(0, b.len() as int)[k] == b[k]);
        }
    }
}

/// Appending instructions that are not local jumps, with nothing before
/// them rewritten, keeps every jump target inside the sequence.
proof fn lemma_extends_preserves_bounded(a: Seq<Instruction>, b: Seq<Instruction>)
    requires
        local_jump_targets_bounded(a),
        extends_without_jumps(a, b),
    ensures
        local_jump_targets_bounded(b),
{
    assert forall|i: int| 0 <= i < b.len() implies match #[trigger] b[i] {
        Instruction::Jump(t) => t <= b.len(),
        Instruction::JumpIfFalse(t) => t <= b.len(),
        _ => true,
    } by {
        if i < a.len() {
            assert(b.subrange(0, a.len() as int)[i] == b[i]);
            assert(b[i] == a[i]);
        }
    }
}

/// Returns `true` when the list holds the string.
fn string_list_contains(list: &Vec<String>, value: &String) -> (r: bool)
    ensures
        r == exists|i: int| 0 <= i < list@.len() && list@[i]@ == value@,
{
    let mut i: usize = 0;
    while i < list.len()
        invariant
            0 <= i <= list@.len(),
            forall|j: int| 0 <= j < i ==> list@[j]@ != value@,
        decreases list@.len() - i,
    {
        if list[i] == *value {
            return true;
        }
        i = i + 1;
    }
    false
}

/// Picks the stable line identifier of one user-visible line or option:
/// the explicit `#line:` tag when the line carries one, else an
/// identifier derived from the file, the node and a running ordinal.
/// Explicit identifiers must be unique within the job; a collision is an
/// `Error`.
fn assign_line_id(
    line_tag: Option<String>,
    file_name: &String,
    node_name: &String,
    node_line: usize,
    used_line_ids: &mut Vec<String>,
    next_ordinal: &mut usize,
    diagnostics: &mut Vec<Diagnostic>,
) -> (r: String)
{
    match line_tag {
        Some(tag) => {
            if string_list_contains(used_line_ids, &tag) {
                let mut message = String::from_str("the line id ");
                message.append(tag.as_str());
                message.append(" is used by more than one line");
                diagnostics.push(
                    Diagnostic::from_message(message).with_file_name(file_name.clone())
                        .with_range(
                        crate::position::PositionRange::new(
                            crate::position::Position::new(node_line, 0),
                            crate::position::Position::new(node_line, 0),
                        ),
                    ),
                );
            } else {
                used_line_ids.push(tag.clone());
            }
            tag
        },
        None => {
            let mut id = String::from_str("line:");
            id.append(file_name.as_str());
            id.append("-");
            id.append(node_name.as_str());
            id.append("-");
            push_decimal(&mut id, *next_ordinal);
            if *next_ordinal < usize::MAX {
                *next_ordinal = *next_ordinal + 1;
            }
            used_line_ids.push(id.clone());
            id
        },
    }
}

/// Emits the instructions that evaluate an expression: operands are
/// pushed left to right, and each operator pops its operands and pushes
/// one result. No local jump is emitted, and nothing already emitted is
/// rewritten.
fn generate_expression(expression: &Expression, instructions: &mut Vec<Instruction>)
    ensures
        extends_without_jumps(old(instructions)@, final(instructions)@),
    decreases *expression,
{
    proof {
        lemma_extends_refl(instructions@);
    }
    match expression {
        Expression::Literal(value) => {
            let instruction = Instruction::PushLiteral(value.clone());
            let ghost emitted = instruction;
            instructions.push(instruction);
            proof {
                lemma_extends_push(old(instructions)@, emitted);
            }
        },
        Expression::Variable(name) => {
            let instruction = Instruction::LoadVariable(name.clone());
            let ghost emitted = instruction;
            instructions.push(instruction);
            proof {
                lemma_extends_push(old(instructions)@, emitted);
            }
        },
        Expression::Binary { operator, left, right } => {
            let ghost s0 = instructions@;
            generate_expression(left, instructions);
            let ghost s1 = instructions@;
            generate_expression(right, instructions);
            let ghost s2 = instructions@;
            instructions.push(Instruction::BinaryOperation(*operator));
            proof {
                lemma_extends_push(s2, Instruction::BinaryOperation(*operator));
                lemma_extends_trans(s0, s1, s2);
                lemma_extends_trans(s0, s2, instructions@);
            }
        },
        Expression::FunctionCall { function, arguments } => {
            let mut i: usize = 0;
            while i < arguments.len()
                invariant
                    0 <= i <= arguments@.len(),
                    extends_without_jumps(old(instructions)@, instructions@),
                    *expression == (Expression::FunctionCall {
                        function: *function,
                        arguments: *arguments,
                    }),
                decreases arguments@.len() - i,
            {
                proof {
                    assert(decreases_to!(*expression => (*expression)->FunctionCall_arguments));
                    assert((*expression)->FunctionCall_arguments == *arguments);
                    assert(decreases_to!(*arguments => arguments@));
                    assert(decreases_to!(arguments@ => arguments@[i as int]));
                }
                let ghost before = instructions@;
                generate_expression(&arguments[i], instructions);
                proof {
                    lemma_extends_trans(old(instructions)@, before, instructions@);
                }
                i = i + 1;
            }
            let ghost before_call = instructions@;
            let instruction = Instruction::CallFunction {
                function: function.clone(),
                argument_count: arguments.len(),
            };
            let ghost emitted = instruction;
            instructions.push(instruction);
            proof {
                lemma_extends_push(before_call, emitted);
                lemma_extends_trans(old(instructions)@, before_call, instructions@);
            }
        },
    }
}

/// Holds when `after` is `before` followed by the exact emission the
/// statement prescribes: loads then a line delivery for a line, one
/// buffered option for an option, the stored variable's write for a
/// set, a raw command dispatch, a tail jump, a stop, and nothing for a
/// declaration.
pub open spec fn emission_follows_statement(
    statement: BasicStatement,
    before: Seq<Instruction>,
    after: Seq<Instruction>,
) -> bool {
    match statement {
        BasicStatement::Line { substitutions, .. } => {
            &&& after.len() == before.len() + substitutions@.len() + 1
            &&& forall|j: int|
                0 <= j < substitutions@.len() ==> (#[trigger] after[before.len() + j])
                    == Instruction::LoadVariable(substitutions@[j])
            &&& after.last() matches Instruction::RunLine { substitution_count, .. }
                && substitution_count == substitutions@.len()
        },
        BasicStatement::OptionLine { destination, .. } => {
            &&& after.len() == before.len() + 1
            &&& after.last() matches Instruction::AddOption {
                destination: chosen,
                substitution_count,
                has_condition,
                ..
            } && chosen == destination && substitution_count == 0 && !has_condition
        },
        BasicStatement::SetCommand { variable, .. } => after.len() > before.len() && after.last()
            == Instruction::StoreVariable(variable),
        BasicStatement::DeclareCommand { .. } => after == before,
        BasicStatement::JumpCommand { destination } => after == before.push(
            Instruction::RunNode(destination),
        ),
        BasicStatement::CommandText { text } => after == before.push(
            Instruction::RunCommand { text: text, substitution_count: 0 },
        ),
        BasicStatement::StopCommand => after == before.push(Instruction::Stop),
    }
}

/// Emits the instructions of one statement that opens no block, with
/// the exact emission each statement kind prescribes. No local jump is
/// emitted, and nothing already emitted is rewritten.
fn generate_basic_statement(
    statement: BasicStatement,
    file_name: &String,
    node_name: &String,
    node_line: usize,
    instructions: &mut Vec<Instruction>,
    used_line_ids: &mut Vec<String>,
    next_ordinal: &mut usize,
    diagnostics: &mut Vec<Diagnostic>,
)
    ensures
        extends_without_jumps(old(instructions)@, final(instructions)@),
        emission_follows_statement(statement, old(instructions)@, final(instructions)@),
{
    proof {
        lemma_extends_refl(instructions@);
    }
    match statement {
        BasicStatement::Line { text: _, substitutions, line_tag } => {
            let ghost all_substitutions = substitutions@;
            let substitution_count = substitutions.len();
            let mut remaining = substitutions;
            while remaining.len() > 0
                invariant
                    extends_without_jumps(old(instructions)@, instructions@),
                    remaining@.len() <= all_substitutions.len(),
                    remaining@ == all_substitutions.skip(
                        all_substitutions.len() - remaining@.len(),
                    ),
                    instructions@.len() == old(instructions)@.len() + all_substitutions.len()
                        - remaining@.len(),
                    forall|j: int|
                        0 <= j < all_substitutions.len() - remaining@.len() ==> (
                        #[trigger] instructions@[old(instructions)@.len() + j])
                            == Instruction::LoadVariable(all_substitutions[j]),
                decreases remaining@.len(),
            {
                let ghost pre_remaining = remaining@;
                let name = remaining.remove(0);
                proof {
                    assert(name == pre_remaining[0]);
                    assert(remaining@ =~= all_substitutions.skip(
                        all_substitutions.len() - remaining@.len(),
                    ));
                }
                let ghost before = instructions@;
                let instruction = Instruction::LoadVariable(name);
                let ghost emitted = instruction;
                instructions.push(instruction);
                proof {
                    lemma_extends_push(before, emitted);
                    lemma_extends_trans(old(instructions)@, before, instructions@);
                }
            }
            let line_id = assign_line_id(
                line_tag,
                file_name,
                node_name,
                node_line,
                used_line_ids,
                next_ordinal,
                diagnostics,
            );
            let ghost before = instructions@;
            let instruction = Instruction::RunLine { line_id, substitution_count };
            let ghost emitted = instruction;
            instructions.push(instruction);
            proof {
                lemma_extends_push(before, emitted);
                lemma_extends_trans(old(instructions)@, before, instructions@);
            }
        },
        BasicStatement::OptionLine { text: _, destination, line_tag } => {
            let line_id = assign_line_id(
                line_tag,
                file_name,
                node_name,
                node_line,
                used_line_ids,
                next_ordinal,
                diagnostics,
            );
            let instruction = Instruction::AddOption {
                line_id,
                destination,
                substitution_count: 0,
                has_condition: false,
            };
            let ghost emitted = instruction;
            instructions.push(instruction);
            proof {
                lemma_extends_push(old(instructions)@, emitted);
            }
        },
        BasicStatement::SetCommand { variable, expression } => {
            let ghost s0 = instructions@;
            generate_expression(&expression, instructions);
            let ghost s1 = instructions@;
            let instruction = Instruction::StoreVariable(variable);
            let ghost emitted = instruction;
            instructions.push(instruction);
            proof {
                lemma_extends_push(s1, emitted);
                lemma_extends_trans(s0, s1, instructions@);
            }
        },
        BasicStatement::DeclareCommand { .. } => {
            // A declaration emits no code: its default value lives in the
            // declaration table.
        },
        BasicStatement::JumpCommand { destination } => {
            let instruction = Instruction::RunNode(destination);
            let ghost emitted = instruction;
            instructions.push(instruction);
            proof {
                lemma_extends_push(old(instructions)@, emitted);
            }
        },
        BasicStatement::CommandText { text } => {
            let instruction = Instruction::RunCommand { text, substitution_count: 0 };
            let ghost emitted = instruction;
            instructions.push(instruction);
            proof {
                lemma_extends_push(old(instructions)@, emitted);
            }
        },
        BasicStatement::StopCommand => {
            let ghost emitted = Instruction::Stop;
            instructions.push(Instruction::Stop);
            proof {
                lemma_extends_push(old(instructions)@, emitted);
            }
        },
    }
}

/// Holds when a compiled node keeps the relations its parsed form had:
/// its name is the value of its first `title` header, and its tags are
/// the whitespace-split words of its first `tags` header value.
pub open spec fn compiled_node_wf(node: Node) -> bool {
    &&& first_header_value(node.headers@, "title"@) == Some(node.name@)
    &&& views_of(node.tags@) == node_tags_spec(node.headers@)
}

/// Holds when the statement buffers an option.
fn is_option_line(statement: &BasicStatement) -> (r: bool)
    ensures
        r == (statement is OptionLine),
{
    matches!(statement, BasicStatement::OptionLine { .. })
}

/// Emits the instructions of a list of block-free statements. A maximal
/// run of consecutive options is flushed to the host with one
/// `ShowOptions` after its last option. No local jump is emitted, and
/// nothing already emitted is rewritten.
fn generate_basic_list(
    statements: Vec<BasicStatement>,
    file_name: &String,
    node_name: &String,
    node_line: usize,
    instructions: &mut Vec<Instruction>,
    used_line_ids: &mut Vec<String>,
    next_ordinal: &mut usize,
    diagnostics: &mut Vec<Diagnostic>,
)
    ensures
        extends_without_jumps(old(instructions)@, final(instructions)@),
{
    proof {
        lemma_extends_refl(instructions@);
    }
    let mut remaining = statements;
    while remaining.len() > 0
        invariant
            extends_without_jumps(old(instructions)@, instructions@),
        decreases remaining@.len(),
    {
        let statement = remaining.remove(0);
        let was_option = is_option_line(&statement);
        let ghost before = instructions@;
        generate_basic_statement(
            statement,
            file_name,
            node_name,
            node_line,
            instructions,
            used_line_ids,
            next_ordinal,
            diagnostics,
        );
        proof {
            lemma_extends_trans(old(instructions)@, before, instructions@);
        }
        if was_option && (remaining.len() == 0 || !is_option_line(&remaining[0])) {
            let ghost before_show = instructions@;
            instructions.push(Instruction::ShowOptions);
            proof {
                lemma_extends_push(before_show, Instruction::ShowOptions);
                lemma_extends_trans(old(instructions)@, before_show, instructions@);
            }
        }
    }
}

/// Pushing an instruction whose target, if it has one, lies inside the
/// grown sequence keeps every jump target inside it.
proof fn lemma_push_keeps_bounded(s: Seq<Instruction>, instruction: Instruction)
    requires
        local_jump_targets_bounded(s),
        match instruction {
            Instruction::Jump(t) => t <= s.len() + 1,
            Instruction::JumpIfFalse(t) => t <= s.len() + 1,
            _ => true,
        },
    ensures
        local_jump_targets_bounded(s.push(instruction)),
{
    let grown = s.push(instruction);
    assert forall|i: int| 0 <= i < grown.len() implies match #[trigger] grown[i] {
        Instruction::Jump(t) => t <= grown.len(),
        Instruction::JumpIfFalse(t) => t <= grown.len(),
        _ => true,
    } by {
        if i < s.len() {
            assert(grown[i] == s[i]);
        }
    }
}

/// Rewriting one instruction to a jump whose target lies inside the
/// sequence keeps every jump target inside it.
proof fn lemma_set_keeps_bounded(s: Seq<Instruction>, at: int, instruction: Instruction)
    requires
        local_jump_targets_bounded(s),
        0 <= at < s.len(),
        match instruction {
            Instruction::Jump(t) => t <= s.len(),
            Instruction::JumpIfFalse(t) => t <= s.len(),
            _ => true,
        },
    ensures
        local_jump_targets_bounded(s.update(at, instruction)),
{
    let patched = s.update(at, instruction);
    assert forall|i: int| 0 <= i < patched.len() implies match #[trigger] patched[i] {
        Instruction::Jump(t) => t <= patched.len(),
        Instruction::JumpIfFalse(t) => t <= patched.len(),
        _ => true,
    } by {
        if i != at {
            assert(patched[i] == s[i]);
        }
    }
}

/// Holds when, for a node body whose only statement is a line, the
/// instructions are that line's exact lowering: one variable load per
/// substitution, then the line delivery carrying their count.
pub open spec fn single_line_lowering(body: Seq<Statement>, instructions: Seq<Instruction>) -> bool {
    body[0] matches Statement::Basic(BasicStatement::Line { substitutions, .. }) ==> {
        &&& instructions.len() == substitutions@.len() + 1
        &&& forall|j: int|
            0 <= j < substitutions@.len() ==> (#[trigger] instructions[j])
                == Instruction::LoadVariable(substitutions@[j])
        &&& instructions.last() matches Instruction::RunLine { substitution_count, .. }
            && substitution_count == substitutions@.len()
    }
}

/// Holds when, for a node body whose only statement is a stop, the
/// instructions are exactly one `Stop`.
pub open spec fn single_stop_lowering(body: Seq<Statement>, instructions: Seq<Instruction>) -> bool {
    body[0] matches Statement::Basic(BasicStatement::StopCommand) ==> instructions == seq![
        Instruction::Stop,
    ]
}

/// Lowers one semantically-checked node into its bytecode. The node's
/// name, headers and tags are kept as parsed, and every local jump the
/// lowering emits targets an instruction of the node or its end.
#[verifier::loop_isolation(false)]
pub fn generate_node(
    node: ParsedNode,
    file_name: &String,
    used_line_ids: &mut Vec<String>,
    next_ordinal: &mut usize,
    diagnostics: &mut Vec<Diagnostic>,
) -> (r: Node)
    ensures
        r.name@ == node.name@,
        r.headers@ == node.headers@,
        r.tags@ == node.tags@,
        local_jump_targets_bounded(r.instructions@),
        parsed_node_wf(node) ==> compiled_node_wf(r),
        node.body@.len() == 1 ==> single_line_lowering(node.body@, r.instructions@)
            && single_stop_lowering(node.body@, r.instructions@),
{
    let ParsedNode { name, headers, tags, body, line } = node;
    let ghost whole_body = body@;
    let mut instructions: Vec<Instruction> = Vec::new();
    let mut remaining = body;
    while remaining.len() > 0
        invariant
            local_jump_targets_bounded(instructions@),
            whole_body.len() == 1 ==> (remaining@ == whole_body && instructions@.len() == 0) || (
            remaining@.len() == 0 && single_line_lowering(whole_body, instructions@)
                && single_stop_lowering(whole_body, instructions@)),
        decreases remaining@.len(),
    {
        let ghost instructions_before = instructions@;
        let ghost remaining_before = remaining@;
        let statement = remaining.remove(0);
        proof {
            assert(statement == remaining_before[0]);
            if whole_body.len() == 1 {
                assert(remaining_before == whole_body);
                assert(instructions_before.len() == 0);
            }
        }
        match statement {
            Statement::Basic(basic) => {
                let ghost basic_statement = basic;
                let was_option = is_option_line(&basic);
                let ghost before = instructions@;
                generate_basic_statement(
                    basic,
                    file_name,
                    &name,
                    line,
                    &mut instructions,
                    used_line_ids,
                    next_ordinal,
                    diagnostics,
                );
                proof {
                    lemma_extends_preserves_bounded(before, instructions@);
                }
                let next_is_option = remaining.len() > 0 && (match &remaining[0] {
                    Statement::Basic(next) => is_option_line(next),
                    _ => false,
                });
                if was_option && !next_is_option {
                    proof {
                        lemma_push_keeps_bounded(instructions@, Instruction::ShowOptions);
                    }
                    instructions.push(Instruction::ShowOptions);
                }
                proof {
                    if whole_body.len() == 1 {
                        assert(whole_body[0] == statement);
                        assert(statement == Statement::Basic(basic_statement));
                        if whole_body[0] matches Statement::Basic(BasicStatement::StopCommand) {
                            assert(basic_statement is StopCommand);
                            assert(instructions@ =~= seq![Instruction::Stop]);
                        }
                        if whole_body[0] matches Statement::Basic(BasicStatement::Line { .. }) {
                            assert(basic_statement is Line);
                            let substitutions = basic_statement->Line_substitutions;
                            assert forall|j: int| 0 <= j < substitutions@.len() implies (
                            #[trigger] instructions@[j]) == Instruction::LoadVariable(
                                substitutions@[j],
                            ) by {
                                assert(instructions@[before.len() + j]
                                    == Instruction::LoadVariable(substitutions@[j]));
                            }
                        }
                        assert(single_line_lowering(whole_body, instructions@));
                    }
                }
            },
            Statement::If { branches, else_body } => {
                let mut end_jumps: Vec<usize> = Vec::new();
                let mut remaining_branches = branches;
                while remaining_branches.len() > 0
                    invariant
                        local_jump_targets_bounded(instructions@),
                        forall|j: int|
                            0 <= j < end_jumps@.len() ==> end_jumps@[j] < instructions@.len(),
                    decreases remaining_branches@.len(),
                {
                    let branch = remaining_branches.remove(0);
                    let ghost before_condition = instructions@;
                    generate_expression(&branch.condition, &mut instructions);
                    proof {
                        lemma_extends_preserves_bounded(before_condition, instructions@);
                    }
                    let jump_if_false_at = instructions.len();
                    proof {
                        lemma_push_keeps_bounded(instructions@, Instruction::JumpIfFalse(0));
                    }
                    instructions.push(Instruction::JumpIfFalse(0));
                    let ghost before_body = instructions@;
                    generate_basic_list(
                        branch.body,
                        file_name,
                        &name,
                        line,
                        &mut instructions,
                        used_line_ids,
                        next_ordinal,
                        diagnostics,
                    );
                    proof {
                        lemma_extends_preserves_bounded(before_body, instructions@);
                    }
                    end_jumps.push(instructions.len());
                    proof {
                        lemma_push_keeps_bounded(instructions@, Instruction::Jump(0));
                    }
                    instructions.push(Instruction::Jump(0));
                    let after_branch = instructions.len();
                    proof {
                        lemma_set_keeps_bounded(
                            instructions@,
                            jump_if_false_at as int,
                            Instruction::JumpIfFalse(after_branch),
                        );
                    }
                    instructions.set(jump_if_false_at, Instruction::JumpIfFalse(after_branch));
                }
                let ghost before_else = instructions@;
                generate_basic_list(
                    else_body,
                    file_name,
                    &name,
                    line,
                    &mut instructions,
                    used_line_ids,
                    next_ordinal,
                    diagnostics,
                );
                proof {
                    lemma_extends_preserves_bounded(before_else, instructions@);
                }
                let end_target = instructions.len();
                let mut k: usize = 0;
                while k < end_jumps.len()
                    invariant
                        local_jump_targets_bounded(instructions@),
                        end_target <= instructions@.len(),
                        forall|j: int|
                            0 <= j < end_jumps@.len() ==> end_jumps@[j] < instructions@.len(),
                    decreases end_jumps@.len() - k,
                {
                    proof {
                        lemma_set_keeps_bounded(
                            instructions@,
                            end_jumps@[k as int] as int,
                            Instruction::Jump(end_target),
                        );
                    }
                    instructions.set(end_jumps[k], Instruction::Jump(end_target));
                    k = k + 1;
                }
            },
        }
    }
    Node { name, headers, tags, instructions }
}

} // verus!
