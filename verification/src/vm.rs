//! The dialogue virtual machine: a suspendable stack-machine interpreter
//! that executes one `Program` under the control of a host. Execution
//! suspends whenever host interaction is required — a line was delivered,
//! options await a selection, a command was dispatched — and resumes only
//! on the matching host signal.

use vstd::prelude::*;
use crate::ast::BinaryOperator;
use crate::collections::Stack;
use crate::declaration::{lookup_declaration, DeclarationTable};
use crate::program::{has_node_named, lookup_node, Instruction, Program};
use crate::storage::{stored_value, MemoryVariableStorage, StoredVariable};
use crate::types::{value_eq, Value};

verus! {

/// The state of one VM session.
#[derive(Debug, Clone, Copy, PartialEq, Eq, Structural)]
pub enum ExecutionState {
    /// No node is being executed.
    Stopped,

    /// Instructions are being executed.
    Running,

    /// A line was delivered; the host must continue the dialogue.
    DeliveredLine,

    /// Options were delivered; the host must select one.
    WaitingForOptionSelection,

    /// A command was dispatched; the host must continue the dialogue
    /// once it has performed the command.
    ExecutingCommand,
}

/// One option offered to the host: the line to show, the node selected
/// when it is chosen, the values its text interpolates, and whether its
/// condition allows choosing it.
#[derive(Debug)]
pub struct DialogueOption {
    /// The stable identifier of the option's line.
    pub line_id: String,

    /// The node executed when this option is selected.
    pub destination: String,

    /// The substitution values of the option's line, in order.
    pub substitutions: Vec<Value>,

    /// Whether the option may be selected; false when its condition
    /// evaluated to false.
    pub is_available: bool,
}

/// One host-visible observation of the session.
#[derive(Debug)]
pub enum DialogueEvent {
    /// A line of dialogue was delivered.
    Line { line_id: String, substitutions: Vec<Value> },

    /// Options were buffered and await a selection.
    Options(Vec<DialogueOption>),

    /// A raw command was dispatched to the host.
    Command { text: String, substitutions: Vec<Value> },

    /// The session ended.
    DialogueComplete,
}

/// A failure of one VM call. A caller-contract failure (a call in the
/// wrong state, an option index out of range) leaves the session as it
/// was; every other failure is fatal and stops the session.
#[derive(Debug, PartialEq)]
pub enum DialogueError {
    /// The named node is not in the program.
    UnknownNode(String),

    /// The call is not valid in the session's current state.
    InvalidState,

    /// The selected option index is not below the option count.
    InvalidOptionIndex,

    /// A variable was read that has neither a stored value nor a
    /// declaration with a default value.
    UndeclaredVariable(String),

    /// The function library has no function of this name.
    UnknownFunction(String),

    /// An instruction needed more operands than the stack holds.
    StackUnderflow,

    /// An operator was applied to values it is not defined on, such as
    /// dividing by zero or overflowing the number range.
    InvalidOperands,

    /// A `ShowOptions` instruction ran with no buffered option.
    NoOptionsToShow,

    /// The session executed a great many instructions without reaching a
    /// host-visible event and was stopped as a runaway loop.
    ExecutionLimitReached,
}

/// The functions a host makes callable from scripts: `call_function`
/// returns the function's value, or `None` when it has no function of
/// that name. Nothing is assumed about the value returned.
pub trait FunctionHandler {
    /// Calls the named function on the given arguments.
    fn call_function(&mut self, name: &String, arguments: Vec<Value>) -> Option<Value>;
}

/// A function handler that knows no functions.
pub struct NoFunctions;

impl FunctionHandler for NoFunctions {
    fn call_function(&mut self, name: &String, arguments: Vec<Value>) -> Option<Value> {
        None
    }
}

/// One saved return point: the node and instruction to return to when
/// the current node ends.
#[derive(Debug, Clone)]
pub struct NodeFrame {
    /// The node to return to.
    pub node: String,

    /// The instruction to resume at.
    pub instruction: usize,
}

/// Holds when an operator is defined on two operands: the types fit and
/// the arithmetic stays inside the number range.
pub open spec fn operator_defined(op: BinaryOperator, a: Value, b: Value) -> bool {
    match op {
        BinaryOperator::Add => (a matches Value::String(_) && b matches Value::String(_)) || (
        a matches Value::Number(x) && b matches Value::Number(y) && x.checked_add(y) is Some),
        BinaryOperator::Subtract => a matches Value::Number(x) && b matches Value::Number(y)
            && x.checked_sub(y) is Some,
        BinaryOperator::Multiply => a matches Value::Number(x) && b matches Value::Number(y)
            && x.checked_mul(y) is Some,
        BinaryOperator::Divide => a matches Value::Number(x) && b matches Value::Number(y)
            && x.checked_div(y) is Some,
        BinaryOperator::EqualTo => true,
        BinaryOperator::NotEqualTo => true,
        BinaryOperator::LessThan => a matches Value::Number(_) && b matches Value::Number(_),
        BinaryOperator::LessThanOrEqualTo => a matches Value::Number(_) && b matches Value::Number(
            _,
        ),
        BinaryOperator::GreaterThan => a matches Value::Number(_) && b matches Value::Number(_),
        BinaryOperator::GreaterThanOrEqualTo => a matches Value::Number(_)
            && b matches Value::Number(_),
        BinaryOperator::And => a matches Value::Boolean(_) && b matches Value::Boolean(_),
        BinaryOperator::Or => a matches Value::Boolean(_) && b matches Value::Boolean(_),
    }
}

/// Holds when `v` is the value an operator yields on two operands.
pub open spec fn operator_output(op: BinaryOperator, a: Value, b: Value, v: Value) -> bool {
    match op {
        BinaryOperator::Add => if a matches Value::String(_) {
            a matches Value::String(x) && b matches Value::String(y) && v matches Value::String(s)
                && s@ == x@ + y@
        } else {
            a matches Value::Number(x) && b matches Value::Number(y) && v matches Value::Number(q)
                && x.checked_add(y) == Some(q)
        },
        BinaryOperator::Subtract => a matches Value::Number(x) && b matches Value::Number(y)
            && v matches Value::Number(q) && x.checked_sub(y) == Some(q),
        BinaryOperator::Multiply => a matches Value::Number(x) && b matches Value::Number(y)
            && v matches Value::Number(q) && x.checked_mul(y) == Some(q),
        BinaryOperator::Divide => a matches Value::Number(x) && b matches Value::Number(y)
            && v matches Value::Number(q) && x.checked_div(y) == Some(q),
        BinaryOperator::EqualTo => v == Value::Boolean(value_eq(a, b)),
        BinaryOperator::NotEqualTo => v == Value::Boolean(!value_eq(a, b)),
        BinaryOperator::LessThan => a matches Value::Number(x) && b matches Value::Number(y)
            && v == Value::Boolean(x < y),
        BinaryOperator::LessThanOrEqualTo => a matches Value::Number(x) && b matches Value::Number(
            y,
        ) && v == Value::Boolean(x <= y),
        BinaryOperator::GreaterThan => a matches Value::Number(x) && b matches Value::Number(y)
            && v == Value::Boolean(x > y),
        BinaryOperator::GreaterThanOrEqualTo => a matches Value::Number(x)
            && b matches Value::Number(y) && v == Value::Boolean(x >= y),
        BinaryOperator::And => a matches Value::Boolean(x) && b matches Value::Boolean(y) && v
            == Value::Boolean(x && y),
        BinaryOperator::Or => a matches Value::Boolean(x) && b matches Value::Boolean(y) && v
            == Value::Boolean(x || y),
    }
}

/// Applies a binary operator to two operands. The result is `Ok` exactly
/// when the operator is defined on them: the types fit, no arithmetic
/// leaves the number range, and no division by zero occurs.
pub fn apply_operator(op: BinaryOperator, a: Value, b: Value) -> (r: Result<Value, DialogueError>)
    ensures
        r matches Ok(v) ==> operator_defined(op, a, b) && operator_output(op, a, b, v),
        r matches Err(e) ==> !operator_defined(op, a, b) && e == DialogueError::InvalidOperands,
{
    match op {
        BinaryOperator::Add => {
            match (a, b) {
                (Value::String(x), Value::String(y)) => Ok(Value::String(x.concat(y.as_str()))),
                (Value::Number(x), Value::Number(y)) => match x.checked_add(y) {
                    Some(q) => Ok(Value::Number(q)),
                    None => Err(DialogueError::InvalidOperands),
                },
                _ => Err(DialogueError::InvalidOperands),
            }
        },
        BinaryOperator::Subtract => {
            match (a, b) {
                (Value::Number(x), Value::Number(y)) => match x.checked_sub(y) {
                    Some(q) => Ok(Value::Number(q)),
                    None => Err(DialogueError::InvalidOperands),
                },
                _ => Err(DialogueError::InvalidOperands),
            }
        },
        BinaryOperator::Multiply => {
            match (a, b) {
                (Value::Number(x), Value::Number(y)) => match x.checked_mul(y) {
                    Some(q) => Ok(Value::Number(q)),
                    None => Err(DialogueError::InvalidOperands),
                },
                _ => Err(DialogueError::InvalidOperands),
            }
        },
        BinaryOperator::Divide => {
            match (a, b) {
                (Value::Number(x), Value::Number(y)) => match x.checked_div(y) {
                    Some(q) => Ok(Value::Number(q)),
                    None => Err(DialogueError::InvalidOperands),
                },
                _ => Err(DialogueError::InvalidOperands),
            }
        },
        BinaryOperator::EqualTo => {
            let equal = a.same_value_as(&b);
            Ok(Value::Boolean(equal))
        },
        BinaryOperator::NotEqualTo => {
            let equal = a.same_value_as(&b);
            Ok(Value::Boolean(!equal))
        },
        BinaryOperator::LessThan => {
            match (a, b) {
                (Value::Number(x), Value::Number(y)) => Ok(Value::Boolean(x < y)),
                _ => Err(DialogueError::InvalidOperands),
            }
        },
        BinaryOperator::LessThanOrEqualTo => {
            match (a, b) {
                (Value::Number(x), Value::Number(y)) => Ok(Value::Boolean(x <= y)),
                _ => Err(DialogueError::InvalidOperands),
            }
        },
        BinaryOperator::GreaterThan => {
            match (a, b) {
                (Value::Number(x), Value::Number(y)) => Ok(Value::Boolean(x > y)),
                _ => Err(DialogueError::InvalidOperands),
            }
        },
        BinaryOperator::GreaterThanOrEqualTo => {
            match (a, b) {
                (Value::Number(x), Value::Number(y)) => Ok(Value::Boolean(x >= y)),
                _ => Err(DialogueError::InvalidOperands),
            }
        },
        BinaryOperator::And => {
            match (a, b) {
                (Value::Boolean(x), Value::Boolean(y)) => Ok(Value::Boolean(x && y)),
                _ => Err(DialogueError::InvalidOperands),
            }
        },
        BinaryOperator::Or => {
            match (a, b) {
                (Value::Boolean(x), Value::Boolean(y)) => Ok(Value::Boolean(x || y)),
                _ => Err(DialogueError::InvalidOperands),
            }
        },
    }
}

/// The value a variable read yields: the stored value when one exists,
/// else the declared default, else nothing.
pub open spec fn resolved_variable_spec(
    storage: Seq<StoredVariable>,
    declarations: Seq<crate::declaration::Declaration>,
    name: Seq<char>,
) -> Option<Value> {
    match stored_value(storage, name) {
        Some(v) => Some(v),
        None => match lookup_declaration(declarations, name) {
            Some(d) => Some(d.default_value),
            None => None,
        },
    }
}

/// For every declared variable, a load before any store yields the
/// declaration's default value.
pub proof fn lemma_load_before_store_gives_default(
    storage: Seq<StoredVariable>,
    declarations: Seq<crate::declaration::Declaration>,
    declaration: crate::declaration::Declaration,
)
    requires
        !crate::storage::stores(storage, declaration.name@),
        lookup_declaration(declarations, declaration.name@) == Some(declaration),
    ensures
        resolved_variable_spec(storage, declarations, declaration.name@) == Some(
            declaration.default_value,
        ),
{
    lemma_stored_none(storage, declaration.name@);
}

/// Nothing is stored under a name exactly when its lookup yields nothing.
proof fn lemma_stored_none(storage: Seq<StoredVariable>, name: Seq<char>)
    ensures
        (stored_value(storage, name) is None) == !crate::storage::stores(storage, name),
    decreases storage.len(),
{
    if storage.len() > 0 {
        lemma_stored_none(storage.drop_first(), name);
        if storage[0].name@ == name {
            assert(crate::storage::stores(storage, name));
        } else {
            if crate::storage::stores(storage.drop_first(), name) {
                let k = choose|k: int|
                    0 <= k < storage.drop_first().len() && storage.drop_first()[k].name@ == name;
                assert(storage[k + 1].name@ == name);
            }
            if crate::storage::stores(storage, name) {
                let k = choose|k: int| 0 <= k < storage.len() && storage[k].name@ == name;
                assert(storage.drop_first()[k - 1].name@ == name);
            }
        }
    }
}

/// The instruction the session would execute next: the one under the
/// instruction pointer of the current node, or nothing when no node is
/// selected, the node is missing, or the pointer ran off the node's end.
pub open spec fn fetched_instruction(vm: VirtualMachine) -> Option<Instruction> {
    match vm.current_node {
        Some(name) => match lookup_node(vm.program.nodes@, name@) {
            Some(node) => if vm.instruction_pointer < node.instructions@.len() {
                Some(node.instructions@[vm.instruction_pointer as int])
            } else {
                None
            },
            None => None,
        },
        None => None,
    }
}

/// Holds when the session stands at the end of its current node: the
/// node exists and the instruction pointer ran off its instructions.
pub open spec fn at_node_end(pre: VirtualMachine) -> bool {
    match pre.current_node {
        Some(name) => match lookup_node(pre.program.nodes@, name@) {
            Some(node) => pre.instruction_pointer >= node.instructions@.len(),
            None => false,
        },
        None => false,
    }
}

/// Holds when the session names a current node that the program does
/// not hold.
pub open spec fn at_missing_node(pre: VirtualMachine) -> bool {
    match pre.current_node {
        Some(name) => lookup_node(pre.program.nodes@, name@) is None,
        None => false,
    }
}

/// Holds when the offered options are the buffered options, field for
/// field and in order.
pub open spec fn options_match(offered: Seq<DialogueOption>, pending: Seq<DialogueOption>) -> bool {
    &&& offered.len() == pending.len()
    &&& forall|i: int|
        0 <= i < offered.len() ==> {
            &&& (#[trigger] offered[i]).line_id@ == pending[i].line_id@
            &&& offered[i].destination@ == pending[i].destination@
            &&& offered[i].substitutions@ == pending[i].substitutions@
            &&& offered[i].is_available == pending[i].is_available
        }
}

/// Holds when a step outcome agrees with the instruction that was
/// fetched: every instruction's effect on the stack, the variables, the
/// option buffer and the control state, and the exact error when the
/// instruction cannot execute.
pub open spec fn step_follows_fetch(
    pre: VirtualMachine,
    post: VirtualMachine,
    r: Result<Option<DialogueEvent>, DialogueError>,
) -> bool {
    match fetched_instruction(pre) {
        Some(Instruction::PushLiteral(value)) => match r {
            Ok(None) => post.stack@ == pre.stack@.push(value) && post.state
                == ExecutionState::Running,
            _ => false,
        },
        Some(Instruction::LoadVariable(name)) => match resolved_variable_spec(
            pre.storage@,
            pre.declarations@,
            name@,
        ) {
            Some(value) => match r {
                Ok(None) => post.stack@ == pre.stack@.push(value) && post.state
                    == ExecutionState::Running,
                _ => false,
            },
            None => match r {
                Err(DialogueError::UndeclaredVariable(n)) => n@ == name@,
                _ => false,
            },
        },
        Some(Instruction::StoreVariable(name)) => if pre.stack@.len() > 0 {
            match r {
                Ok(None) => {
                    &&& stored_value(post.storage@, name@) == Some(pre.stack@.last())
                    &&& post.stack@ == pre.stack@.drop_last()
                    &&& post.state == ExecutionState::Running
                },
                _ => false,
            }
        } else {
            r == Err::<Option<DialogueEvent>, DialogueError>(DialogueError::StackUnderflow)
        },
        Some(Instruction::CallFunction { function, argument_count }) => if pre.stack@.len()
            >= argument_count {
            match r {
                // The handler returned a value: the arguments are gone and
                // the result stands in their place.
                Ok(None) => {
                    &&& post.stack@.len() == pre.stack@.len() - argument_count + 1
                    &&& post.stack@.drop_last() == pre.stack@.take(
                        pre.stack@.len() - argument_count as int,
                    )
                    &&& post.state == ExecutionState::Running
                },
                // The handler knows no function of this name.
                Err(DialogueError::UnknownFunction(n)) => n@ == function@,
                _ => false,
            }
        } else {
            r == Err::<Option<DialogueEvent>, DialogueError>(DialogueError::StackUnderflow)
        },
        Some(Instruction::BinaryOperation(op)) => if pre.stack@.len() >= 2 {
            let a = pre.stack@[pre.stack@.len() - 2];
            let b = pre.stack@.last();
            if operator_defined(op, a, b) {
                match r {
                    Ok(None) => {
                        &&& post.stack@ == pre.stack@.take(pre.stack@.len() - 2).push(
                            post.stack@.last(),
                        )
                        &&& operator_output(op, a, b, post.stack@.last())
                        &&& post.state == ExecutionState::Running
                    },
                    _ => false,
                }
            } else {
                r == Err::<Option<DialogueEvent>, DialogueError>(DialogueError::InvalidOperands)
            }
        } else {
            r == Err::<Option<DialogueEvent>, DialogueError>(DialogueError::StackUnderflow)
        },
        Some(Instruction::Jump(target)) => match r {
            Ok(None) => {
                &&& post.instruction_pointer == target
                &&& post.current_node == pre.current_node
                &&& post.stack@ == pre.stack@
                &&& post.state == ExecutionState::Running
            },
            _ => false,
        },
        Some(Instruction::JumpIfFalse(target)) => if pre.stack@.len() == 0 {
            r == Err::<Option<DialogueEvent>, DialogueError>(DialogueError::StackUnderflow)
        } else {
            match pre.stack@.last() {
                Value::Boolean(condition) => match r {
                    Ok(None) => {
                        &&& post.stack@ == pre.stack@.drop_last()
                        &&& (!condition ==> post.instruction_pointer == target)
                        &&& post.current_node == pre.current_node
                        &&& post.state == ExecutionState::Running
                    },
                    _ => false,
                },
                _ => r == Err::<Option<DialogueEvent>, DialogueError>(
                    DialogueError::InvalidOperands,
                ),
            }
        },
        Some(Instruction::RunLine { line_id, substitution_count }) => if pre.stack@.len()
            >= substitution_count {
            match r {
                Ok(Some(DialogueEvent::Line { line_id: delivered_id, substitutions })) => {
                    &&& delivered_id == line_id
                    &&& substitutions@ == pre.stack@.skip(
                        pre.stack@.len() - substitution_count as int,
                    )
                    &&& post.stack@ == pre.stack@.take(
                        pre.stack@.len() - substitution_count as int,
                    )
                    &&& post.state == ExecutionState::DeliveredLine
                },
                _ => false,
            }
        } else {
            r == Err::<Option<DialogueEvent>, DialogueError>(DialogueError::StackUnderflow)
        },
        Some(Instruction::AddOption { line_id, destination, substitution_count, has_condition }) => {
            if !has_condition {
                if pre.stack@.len() >= substitution_count {
                    match r {
                        Ok(None) => {
                            &&& post.pending_options@.len() == pre.pending_options@.len() + 1
                            &&& post.pending_options@.drop_last() == pre.pending_options@
                            &&& post.pending_options@.last().line_id == line_id
                            &&& post.pending_options@.last().destination == destination
                            &&& post.pending_options@.last().substitutions@ == pre.stack@.skip(
                                pre.stack@.len() - substitution_count as int,
                            )
                            &&& post.pending_options@.last().is_available
                            &&& post.stack@ == pre.stack@.take(
                                pre.stack@.len() - substitution_count as int,
                            )
                            &&& post.state == ExecutionState::Running
                        },
                        _ => false,
                    }
                } else {
                    r == Err::<Option<DialogueEvent>, DialogueError>(
                        DialogueError::StackUnderflow,
                    )
                }
            } else {
                // With a condition, the popped boolean decides availability;
                // a success always buffers exactly one matching option.
                match r {
                    Ok(None) => {
                        &&& post.pending_options@.len() == pre.pending_options@.len() + 1
                        &&& post.pending_options@.drop_last() == pre.pending_options@
                        &&& post.pending_options@.last().line_id == line_id
                        &&& post.pending_options@.last().destination == destination
                        &&& post.state == ExecutionState::Running
                    },
                    Ok(Some(_)) => false,
                    Err(_) => true,
                }
            }
        },
        Some(Instruction::ShowOptions) => if pre.pending_options@.len() == 0 {
            r == Err::<Option<DialogueEvent>, DialogueError>(DialogueError::NoOptionsToShow)
        } else {
            match r {
                Ok(Some(DialogueEvent::Options(offered))) => {
                    &&& options_match(offered@, pre.pending_options@)
                    &&& post.pending_options@ == pre.pending_options@
                    &&& post.state == ExecutionState::WaitingForOptionSelection
                },
                _ => false,
            }
        },
        Some(Instruction::RunCommand { text, substitution_count }) => if pre.stack@.len()
            >= substitution_count {
            match r {
                Ok(Some(DialogueEvent::Command { text: sent, substitutions })) => {
                    &&& sent == text
                    &&& substitutions@ == pre.stack@.skip(
                        pre.stack@.len() - substitution_count as int,
                    )
                    &&& post.stack@ == pre.stack@.take(
                        pre.stack@.len() - substitution_count as int,
                    )
                    &&& post.state == ExecutionState::ExecutingCommand
                },
                _ => false,
            }
        } else {
            r == Err::<Option<DialogueEvent>, DialogueError>(DialogueError::StackUnderflow)
        },
        Some(Instruction::RunNode(name)) => if has_node_named(pre.program.nodes@, name@) {
            match r {
                Ok(None) => {
                    &&& (match post.current_node {
                        Some(n) => n@ == name@,
                        None => false,
                    })
                    &&& post.instruction_pointer == 0
                    &&& post.state == ExecutionState::Running
                },
                _ => false,
            }
        } else {
            match r {
                Err(DialogueError::UnknownNode(n)) => n@ == name@,
                _ => false,
            }
        },
        Some(Instruction::Stop) => r == Ok::<Option<DialogueEvent>, DialogueError>(
            Some(DialogueEvent::DialogueComplete),
        ) && post.state == ExecutionState::Stopped,
        None => true,
    }
}

/// Holds when a step outcome agrees with the node boundary the session
/// stands at: no selected node or running off a node's end with no
/// frame to pop is normal termination; a pending frame resumes its
/// node; a missing node is a fatal error.
pub open spec fn step_handles_node_boundary(
    pre: VirtualMachine,
    post: VirtualMachine,
    r: Result<Option<DialogueEvent>, DialogueError>,
) -> bool {
    &&& (pre.current_node is None ==> r == Ok::<Option<DialogueEvent>, DialogueError>(
        Some(DialogueEvent::DialogueComplete),
    ) && post.state == ExecutionState::Stopped)
    &&& (at_missing_node(pre) ==> (match r {
        Err(DialogueError::UnknownNode(n)) => match pre.current_node {
            Some(m) => n@ == m@,
            None => false,
        },
        _ => false,
    }))
    &&& (at_node_end(pre) && pre.call_stack@.len() == 0 ==> r == Ok::<
        Option<DialogueEvent>,
        DialogueError,
    >(Some(DialogueEvent::DialogueComplete)) && post.state == ExecutionState::Stopped)
    &&& (at_node_end(pre) && pre.call_stack@.len() > 0 ==> (match r {
        Ok(None) => {
            &&& (match post.current_node {
                Some(n) => n@ == pre.call_stack@.last().node@,
                None => false,
            })
            &&& post.instruction_pointer == pre.call_stack@.last().instruction
            &&& post.call_stack@ == pre.call_stack@.drop_last()
            &&& post.state == ExecutionState::Running
        },
        _ => false,
    }))
}

/// The same agreement for the calls that run until the session
/// suspends: the event the host receives on resuming is the one the
/// fetched instruction prescribes.
pub open spec fn resume_follows_fetch(
    pre: VirtualMachine,
    r: Result<DialogueEvent, DialogueError>,
) -> bool {
    match fetched_instruction(pre) {
        Some(Instruction::RunLine { line_id, substitution_count }) => {
            if pre.stack@.len() >= substitution_count {
                match r {
                    Ok(DialogueEvent::Line { line_id: delivered_id, substitutions }) => {
                        &&& delivered_id == line_id
                        &&& substitutions@ == pre.stack@.skip(
                            pre.stack@.len() - substitution_count as int,
                        )
                    },
                    _ => false,
                }
            } else {
                r is Err
            }
        },
        Some(Instruction::RunCommand { text, substitution_count }) => {
            if pre.stack@.len() >= substitution_count {
                match r {
                    Ok(DialogueEvent::Command { text: sent, substitutions }) => {
                        &&& sent == text
                        &&& substitutions@ == pre.stack@.skip(
                            pre.stack@.len() - substitution_count as int,
                        )
                    },
                    _ => false,
                }
            } else {
                r is Err
            }
        },
        Some(Instruction::ShowOptions) => if pre.pending_options@.len() == 0 {
            r is Err
        } else {
            match r {
                Ok(DialogueEvent::Options(offered)) => options_match(
                    offered@,
                    pre.pending_options@,
                ),
                _ => false,
            }
        },
        Some(Instruction::Stop) => r == Ok::<DialogueEvent, DialogueError>(
            DialogueEvent::DialogueComplete,
        ),
        _ => true,
    }
}

/// The node-boundary agreement for the calls that run until the session
/// suspends.
pub open spec fn resume_handles_node_boundary(
    pre: VirtualMachine,
    r: Result<DialogueEvent, DialogueError>,
) -> bool {
    &&& (pre.current_node is None ==> r == Ok::<DialogueEvent, DialogueError>(
        DialogueEvent::DialogueComplete,
    ))
    &&& (at_missing_node(pre) ==> r is Err)
    &&& (at_node_end(pre) && pre.call_stack@.len() == 0 ==> r == Ok::<
        DialogueEvent,
        DialogueError,
    >(DialogueEvent::DialogueComplete))
}

/// Holds when the fetched instruction prescribes no particular resume
/// outcome.

pub open spec fn fetch_unconstrained(pre: VirtualMachine) -> bool {
    &&& match fetched_instruction(pre) {
        Some(Instruction::RunLine { .. }) => false,
        Some(Instruction::RunCommand { .. }) => false,
        Some(Instruction::ShowOptions) => false,
        Some(Instruction::Stop) => false,
        _ => true,
    }
    &&& !(pre.current_node is None)
    &&& !at_missing_node(pre)
    &&& !(at_node_end(pre) && pre.call_stack@.len() == 0)
}

/// Holds when an event agrees with the state it leaves the session in.
pub open spec fn event_matches_state(event: DialogueEvent, state: ExecutionState) -> bool {
    match event {
        DialogueEvent::Line { .. } => state == ExecutionState::DeliveredLine,
        DialogueEvent::Options(_) => state == ExecutionState::WaitingForOptionSelection,
        DialogueEvent::Command { .. } => state == ExecutionState::ExecutingCommand,
        DialogueEvent::DialogueComplete => state == ExecutionState::Stopped,
    }
}

/// A suspendable session executing one program. The session owns its
/// transient execution state — operand stack, call stack, buffered
/// options — and its variable storage, and borrows nothing from the
/// host; the host drives it through `start_node`, `continue_dialogue`,
/// `select_option` and `stop`.
pub struct VirtualMachine {
    /// The program being executed.
    pub program: Program,

    /// The declaration table of the program's compilation; variable reads
    /// fall back to its default values.
    pub declarations: DeclarationTable,

    /// The values stored by the session so far.
    pub storage: MemoryVariableStorage,

    /// The state of the session.
    pub state: ExecutionState,

    /// The node being executed, while one is.
    pub current_node: Option<String>,

    /// The index of the next instruction of the current node.
    pub instruction_pointer: usize,

    /// The operand stack.
    pub stack: Stack<Value>,

    /// The return points of call-style node jumps, last in first out.
    pub call_stack: Stack<NodeFrame>,

    /// The options buffered since the last `ShowOptions`.
    pub pending_options: Vec<DialogueOption>,
}

impl VirtualMachine {
    /// Holds when the session is well formed.
    pub open spec fn wf(&self) -> bool {
        &&& self.program.wf()
        &&& self.declarations.wf()
        &&& self.storage.wf()
    }

    /// Creates a stopped session over a program and the declaration
    /// table of its compilation.
    pub fn new(program: Program, declarations: DeclarationTable) -> (r: Self)
        requires
            program.wf(),
            declarations.wf(),
        ensures
            r.wf(),
            r.state == ExecutionState::Stopped,
            r.program == program,
            r.declarations == declarations,
            r.storage@ == Seq::<StoredVariable>::empty(),
            r.current_node is None,
            r.stack@ == Seq::<Value>::empty(),
            r.call_stack@ == Seq::<NodeFrame>::empty(),
            r.pending_options@ == Seq::<DialogueOption>::empty(),
    {
        VirtualMachine {
            program,
            declarations,
            storage: MemoryVariableStorage::new(),
            state: ExecutionState::Stopped,
            current_node: None,
            instruction_pointer: 0,
            stack: Stack::new(),
            call_stack: Stack::new(),
            pending_options: Vec::new(),
        }
    }

    /// Stores a value for a variable, as the host-facing side of the
    /// variable storage contract.
    pub fn set_variable(&mut self, name: String, value: Value)
        requires
            old(self).wf(),
        ensures
            final(self).wf(),
            stored_value(final(self).storage@, name@) == Some(value),
    {
        self.storage.set_value(name, value);
    }

    /// Reads a variable: its stored value when one exists, else its
    /// declared default value, else nothing.
    pub fn get_variable(&self, name: &String) -> (r: Option<Value>)
        ensures
            r == resolved_variable_spec(self.storage@, self.declarations@, name@),
    {
        match self.storage.get_value(name) {
            Some(v) => Some(v),
            None => {
                match self.declarations.get(name) {
                    Some(declaration) => Some(declaration.default_value.clone()),
                    None => {
                        proof {
                            crate::declaration::lemma_lookup_declares(self.declarations@, name@);
                        }
                        None
                    },
                }
            },
        }
    }

    /// Resets the session to `Stopped`, clearing every piece of transient
    /// execution state. Stored variables are kept.
    pub fn stop(&mut self)
        ensures
            final(self).state == ExecutionState::Stopped,
            final(self).current_node is None,
            final(self).stack@ == Seq::<Value>::empty(),
            final(self).call_stack@ == Seq::<NodeFrame>::empty(),
            final(self).pending_options@ == Seq::<DialogueOption>::empty(),
            final(self).program == old(self).program,
            final(self).declarations == old(self).declarations,
            final(self).storage == old(self).storage,
    {
        self.state = ExecutionState::Stopped;
        self.current_node = None;
        self.instruction_pointer = 0;
        self.stack.clear();
        self.call_stack.clear();
        self.pending_options.clear();
    }

    /// Starts the session at the named node: validates that the node
    /// exists, resets the transient state, and transitions to `Running`.
    /// An unknown node name fails with a fatal error and leaves the
    /// session in `Stopped`.
    pub fn start_node(&mut self, node_name: &String) -> (r: Result<(), DialogueError>)
        requires
            old(self).wf(),
        ensures
            final(self).wf(),
            final(self).program == old(self).program,
            final(self).declarations == old(self).declarations,
            final(self).storage == old(self).storage,
            match r {
                Ok(()) => {
                    &&& has_node_named(old(self).program.nodes@, node_name@)
                    &&& final(self).state == ExecutionState::Running
                    &&& final(self).current_node matches Some(n) && n@ == node_name@
                    &&& final(self).instruction_pointer == 0
                    &&& final(self).stack@ == Seq::<Value>::empty()
                    &&& final(self).call_stack@ == Seq::<NodeFrame>::empty()
                    &&& final(self).pending_options@ == Seq::<DialogueOption>::empty()
                },
                Err(e) => {
                    // The failed start leaves no session state behind.
                    &&& !has_node_named(old(self).program.nodes@, node_name@)
                    &&& e matches DialogueError::UnknownNode(n) && n@ == node_name@
                    &&& final(self).state == ExecutionState::Stopped
                    &&& final(self).current_node is None
                    &&& final(self).stack@ == Seq::<Value>::empty()
                    &&& final(self).call_stack@ == Seq::<NodeFrame>::empty()
                    &&& final(self).pending_options@ == Seq::<DialogueOption>::empty()
                },
            },
    {
        if self.program.has_node(node_name) {
            self.state = ExecutionState::Running;
            self.current_node = Some(node_name.clone());
            self.instruction_pointer = 0;
            self.stack.clear();
            self.call_stack.clear();
            self.pending_options.clear();
            Ok(())
        } else {
            self.stop();
            Err(DialogueError::UnknownNode(node_name.clone()))
        }
    }

    /// Selects one buffered option. Only valid while the session waits
    /// for a selection; an out-of-range index is rejected; a valid index
    /// jumps to the chosen option's destination node, clears the buffered
    /// options, and returns the session to `Running`.
    pub fn select_option(&mut self, index: usize) -> (r: Result<(), DialogueError>)
        requires
            old(self).wf(),
        ensures
            final(self).wf(),
            final(self).program == old(self).program,
            final(self).declarations == old(self).declarations,
            final(self).storage == old(self).storage,
            old(self).state != ExecutionState::WaitingForOptionSelection ==> r == Err::<
                (),
                DialogueError,
            >(DialogueError::InvalidState) && *final(self) == *old(self),
            old(self).state == ExecutionState::WaitingForOptionSelection && index >= old(
                self,
            ).pending_options@.len() ==> r == Err::<(), DialogueError>(
                DialogueError::InvalidOptionIndex,
            ) && *final(self) == *old(self),
            old(self).state == ExecutionState::WaitingForOptionSelection && index < old(
                self,
            ).pending_options@.len() ==> {
                let destination = old(self).pending_options@[index as int].destination;
                if has_node_named(old(self).program.nodes@, destination@) {
                    &&& r is Ok
                    &&& final(self).state == ExecutionState::Running
                    &&& final(self).current_node matches Some(n) && n@ == destination@
                    &&& final(self).instruction_pointer == 0
                    &&& final(self).pending_options@ == Seq::<DialogueOption>::empty()
                } else {
                    &&& r matches Err(e) && e matches DialogueError::UnknownNode(n) && n@
                        == destination@
                    &&& final(self).state == ExecutionState::Stopped
                }
            },
    {
        if !matches!(self.state, ExecutionState::WaitingForOptionSelection) {
            return Err(DialogueError::InvalidState);
        }
        if index >= self.pending_options.len() {
            return Err(DialogueError::InvalidOptionIndex);
        }
        let destination = self.pending_options[index].destination.clone();
        if self.program.has_node(&destination) {
            self.current_node = Some(destination);
            self.instruction_pointer = 0;
            self.pending_options.clear();
            self.state = ExecutionState::Running;
            Ok(())
        } else {
            self.stop();
            Err(DialogueError::UnknownNode(destination))
        }
    }

    /// Pops `count` values off the operand stack and returns them in the
    /// order they were pushed.
    fn pop_values(&mut self, count: usize) -> (r: Result<Vec<Value>, DialogueError>)
        ensures
            final(self).program == old(self).program,
            final(self).declarations == old(self).declarations,
            final(self).storage == old(self).storage,
            final(self).state == old(self).state,
            final(self).current_node == old(self).current_node,
            final(self).instruction_pointer == old(self).instruction_pointer,
            final(self).call_stack == old(self).call_stack,
            final(self).pending_options == old(self).pending_options,
            match r {
                Ok(values) => {
                    &&& old(self).stack@.len() >= count
                    &&& final(self).stack@ == old(self).stack@.take(
                        old(self).stack@.len() - count as int,
                    )
                    &&& values@ == old(self).stack@.skip(old(self).stack@.len() - count as int)
                },
                Err(e) => {
                    &&& old(self).stack@.len() < count
                    &&& e == DialogueError::StackUnderflow
                    &&& final(self).stack == old(self).stack
                },
            },
    {
        if self.stack.len() < count {
            return Err(DialogueError::StackUnderflow);
        }
        let mut values: Vec<Value> = Vec::new();
        let mut taken: usize = 0;
        while taken < count
            invariant
                taken <= count,
                count <= old(self).stack@.len(),
                self.stack@ == old(self).stack@.take(old(self).stack@.len() - taken as int),
                values@ == old(self).stack@.skip(old(self).stack@.len() - taken as int),
                self.program == old(self).program,
                self.declarations == old(self).declarations,
                self.storage == old(self).storage,
                self.state == old(self).state,
                self.current_node == old(self).current_node,
                self.instruction_pointer == old(self).instruction_pointer,
                self.call_stack == old(self).call_stack,
                self.pending_options == old(self).pending_options,
            decreases count - taken,
        {
            let value = match self.stack.pop() {
                Some(v) => v,
                None => {
                    proof {
                        assert(false);
                    }
                    return Err(DialogueError::StackUnderflow);
                },
            };
            values.insert(0, value);
            taken = taken + 1;
            proof {
                let n = old(self).stack@.len();
                assert(self.stack@ =~= old(self).stack@.take(n - taken as int));
                assert(values@ =~= old(self).stack@.skip(n - taken as int));
            }
        }
        Ok(values)
    }
}

/// Returns a copy of an option, field for field.
fn clone_dialogue_option(option: &DialogueOption) -> (r: DialogueOption)
    ensures
        r.line_id@ == option.line_id@,
        r.destination@ == option.destination@,
        r.substitutions@ == option.substitutions@,
        r.is_available == option.is_available,
{
    let mut substitutions: Vec<Value> = Vec::new();
    let mut i: usize = 0;
    while i < option.substitutions.len()
        invariant
            0 <= i <= option.substitutions@.len(),
            substitutions@.len() == i,
            forall|j: int| 0 <= j < i ==> substitutions@[j] == option.substitutions@[j],
        decreases option.substitutions@.len() - i,
    {
        substitutions.push(option.substitutions[i].clone());
        i = i + 1;
    }
    proof {
        assert(substitutions@ =~= option.substitutions@);
    }
    DialogueOption {
        line_id: option.line_id.clone(),
        destination: option.destination.clone(),
        substitutions,
        is_available: option.is_available,
    }
}

/// What fetching the next instruction found.
enum FetchResult {
    /// The current node is not in the program.
    Missing,
    /// The instruction pointer ran off the end of the node.
    AtEnd,
    /// The next instruction.
    Fetched(Instruction),
}

impl VirtualMachine {
    /// Advances the instruction pointer past the instruction just
    /// executed.
    fn advance(&mut self)
        ensures
            *final(self) == (VirtualMachine {
                instruction_pointer: final(self).instruction_pointer,
                ..*old(self)
            }),
    {
        if self.instruction_pointer < usize::MAX {
            self.instruction_pointer = self.instruction_pointer + 1;
        }
    }

    /// Executes one instruction. Yields `Ok(None)` to keep running,
    /// `Ok(Some(event))` when the session suspends or ends, and an error
    /// on a fatal execution failure; the caller stops the session on an
    /// error.
    fn step<H: FunctionHandler>(&mut self, handler: &mut H) -> (r: Result<
        Option<DialogueEvent>,
        DialogueError,
    >)
        requires
            old(self).wf(),
            old(self).state == ExecutionState::Running,
        ensures
            final(self).wf(),
            final(self).program == old(self).program,
            final(self).declarations == old(self).declarations,
            r matches Ok(Some(event)) ==> event_matches_state(event, final(self).state),
            r matches Ok(Some(DialogueEvent::Options(offered))) ==> offered@.len() == final(self).pending_options@.len(),
            r matches Ok(None) ==> final(self).state == ExecutionState::Running,
            step_follows_fetch(*old(self), *final(self), r),
            step_handles_node_boundary(*old(self), *final(self), r),
    {
        let node_name = match &self.current_node {
            Some(name) => name.clone(),
            None => {
                self.stop();
                return Ok(Some(DialogueEvent::DialogueComplete));
            },
        };
        let fetched = {
            match self.program.get_node(&node_name) {
                None => FetchResult::Missing,
                Some(node) => {
                    if self.instruction_pointer < node.instructions.len() {
                        FetchResult::Fetched(node.instructions[self.instruction_pointer].clone())
                    } else {
                        FetchResult::AtEnd
                    }
                },
            }
        };
        let instruction = match fetched {
            FetchResult::Missing => {
                proof {
                    crate::program::lemma_lookup_node(self.program.nodes@, node_name@);
                }
                return Err(DialogueError::UnknownNode(node_name));
            },
            FetchResult::AtEnd => {
                // Running off the end of a node is normal termination
                // unless a call frame waits to be resumed.
                match self.call_stack.pop() {
                    Some(frame) => {
                        self.current_node = Some(frame.node);
                        self.instruction_pointer = frame.instruction;
                        return Ok(None);
                    },
                    None => {
                        self.stop();
                        return Ok(Some(DialogueEvent::DialogueComplete));
                    },
                }
            },
            FetchResult::Fetched(instruction) => instruction,
        };
        match instruction {
            Instruction::PushLiteral(value) => {
                self.stack.push(value);
                self.advance();
                Ok(None)
            },
            Instruction::LoadVariable(name) => {
                match self.get_variable(&name) {
                    Some(value) => {
                        self.stack.push(value);
                        self.advance();
                        Ok(None)
                    },
                    None => Err(DialogueError::UndeclaredVariable(name)),
                }
            },
            Instruction::StoreVariable(name) => {
                match self.stack.pop() {
                    Some(value) => {
                        self.storage.set_value(name, value);
                        self.advance();
                        Ok(None)
                    },
                    None => Err(DialogueError::StackUnderflow),
                }
            },
            Instruction::CallFunction { function, argument_count } => {
                let arguments = self.pop_values(argument_count)?;
                match handler.call_function(&function, arguments) {
                    Some(value) => {
                        self.stack.push(value);
                        proof {
                            assert(self.stack@.drop_last() =~= old(self).stack@.take(
                                old(self).stack@.len() - argument_count as int,
                            ));
                        }
                        self.advance();
                        Ok(None)
                    },
                    None => Err(DialogueError::UnknownFunction(function)),
                }
            },
            Instruction::BinaryOperation(operator) => {
                let mut operands = self.pop_values(2)?;
                let left = operands.remove(0);
                let right = operands.remove(0);
                let result = apply_operator(operator, left, right)?;
                self.stack.push(result);
                self.advance();
                Ok(None)
            },
            Instruction::Jump(target) => {
                self.instruction_pointer = target;
                Ok(None)
            },
            Instruction::JumpIfFalse(target) => {
                match self.stack.pop() {
                    Some(Value::Boolean(condition)) => {
                        if condition {
                            self.advance();
                        } else {
                            self.instruction_pointer = target;
                        }
                        Ok(None)
                    },
                    Some(_) => Err(DialogueError::InvalidOperands),
                    None => Err(DialogueError::StackUnderflow),
                }
            },
            Instruction::RunLine { line_id, substitution_count } => {
                let substitutions = self.pop_values(substitution_count)?;
                self.advance();
                self.state = ExecutionState::DeliveredLine;
                Ok(Some(DialogueEvent::Line { line_id, substitutions }))
            },
            Instruction::AddOption { line_id, destination, substitution_count, has_condition } => {
                let substitutions = self.pop_values(substitution_count)?;
                let is_available = if has_condition {
                    match self.stack.pop() {
                        Some(Value::Boolean(condition)) => condition,
                        Some(_) => {
                            return Err(DialogueError::InvalidOperands);
                        },
                        None => {
                            return Err(DialogueError::StackUnderflow);
                        },
                    }
                } else {
                    true
                };
                self.pending_options.push(
                    DialogueOption { line_id, destination, substitutions, is_available },
                );
                proof {
                    assert(self.pending_options@.drop_last() =~= old(self).pending_options@);
                }
                self.advance();
                Ok(None)
            },
            Instruction::ShowOptions => {
                if self.pending_options.len() == 0 {
                    return Err(DialogueError::NoOptionsToShow);
                }
                let mut offered: Vec<DialogueOption> = Vec::new();
                let count = self.pending_options.len();
                let mut i: usize = 0;
                while i < count
                    invariant
                        self.wf(),
                        *self == *old(self),
                        count == self.pending_options@.len(),
                        0 <= i <= count,
                        offered@.len() == i,
                        forall|j: int|
                            0 <= j < i ==> {
                                &&& (#[trigger] offered@[j]).line_id@
                                    == self.pending_options@[j].line_id@
                                &&& offered@[j].destination@
                                    == self.pending_options@[j].destination@
                                &&& offered@[j].substitutions@
                                    == self.pending_options@[j].substitutions@
                                &&& offered@[j].is_available
                                    == self.pending_options@[j].is_available
                            },
                    decreases count - i,
                {
                    offered.push(clone_dialogue_option(&self.pending_options[i]));
                    i = i + 1;
                }
                proof {
                    assert(options_match(offered@, self.pending_options@));
                }
                self.advance();
                self.state = ExecutionState::WaitingForOptionSelection;
                Ok(Some(DialogueEvent::Options(offered)))
            },
            Instruction::RunCommand { text, substitution_count } => {
                let substitutions = self.pop_values(substitution_count)?;
                self.advance();
                self.state = ExecutionState::ExecutingCommand;
                Ok(Some(DialogueEvent::Command { text, substitutions }))
            },
            Instruction::RunNode(name) => {
                // A tail jump: the current node's frame is abandoned.
                if self.program.has_node(&name) {
                    self.current_node = Some(name);
                    self.instruction_pointer = 0;
                    Ok(None)
                } else {
                    Err(DialogueError::UnknownNode(name))
                }
            },
            Instruction::Stop => {
                self.stop();
                Ok(Some(DialogueEvent::DialogueComplete))
            },
        }
    }

    /// Runs instructions until the session suspends, ends, or fails.
    /// A session that executes a very large number of instructions
    /// without reaching a host-visible event is stopped as a runaway
    /// loop.
    fn run<H: FunctionHandler>(&mut self, handler: &mut H) -> (r: Result<
        DialogueEvent,
        DialogueError,
    >)
        requires
            old(self).wf(),
            old(self).state == ExecutionState::Running,
        ensures
            final(self).wf(),
            final(self).program == old(self).program,
            final(self).declarations == old(self).declarations,
            r matches Ok(event) ==> event_matches_state(event, final(self).state),
            r matches Ok(DialogueEvent::Options(offered)) ==> offered@.len() == final(self).pending_options@.len(),
            r is Err ==> final(self).state == ExecutionState::Stopped,
            resume_follows_fetch(*old(self), r),
            resume_handles_node_boundary(*old(self), r),
    {
        // The first instruction is executed outside the loop below, so
        // that the outcome the fetched instruction prescribes is the one
        // this call returns.
        match self.step(handler) {
            Ok(Some(event)) => {
                return Ok(event);
            },
            Ok(None) => {},
            Err(error) => {
                self.stop();
                return Err(error);
            },
        }
        proof {
            assert(fetch_unconstrained(*old(self)));
        }
        let mut fuel: usize = 1_000_000;
        while fuel > 0
            invariant
                self.wf(),
                self.state == ExecutionState::Running,
                self.program == old(self).program,
                self.declarations == old(self).declarations,
                fetch_unconstrained(*old(self)),
            decreases fuel,
        {
            fuel = fuel - 1;
            match self.step(handler) {
                Ok(Some(event)) => {
                    return Ok(event);
                },
                Ok(None) => {},
                Err(error) => {
                    self.stop();
                    return Err(error);
                },
            }
        }
        self.stop();
        Err(DialogueError::ExecutionLimitReached)
    }

    /// Resumes the session: valid while it is `Running`, after a line
    /// was delivered, or after a dispatched command completed. The call
    /// is rejected while the session is `Stopped` or waits for an option
    /// selection. The returned event tells the host why execution
    /// suspended or that the session ended.
    ///
    /// A session that executes a very large number of instructions
    /// without reaching a host-visible event — a script that jumps in a
    /// circle — is stopped with `ExecutionLimitReached` rather than
    /// resuming never; the language itself gives a script no other way
    /// to run forever silently.
    pub fn continue_dialogue<H: FunctionHandler>(&mut self, handler: &mut H) -> (r: Result<
        DialogueEvent,
        DialogueError,
    >)
        requires
            old(self).wf(),
        ensures
            final(self).wf(),
            final(self).program == old(self).program,
            final(self).declarations == old(self).declarations,
            old(self).state == ExecutionState::Stopped ==> r == Err::<
                DialogueEvent,
                DialogueError,
            >(DialogueError::InvalidState) && *final(self) == *old(self),
            old(self).state == ExecutionState::WaitingForOptionSelection ==> r == Err::<
                DialogueEvent,
                DialogueError,
            >(DialogueError::InvalidState) && *final(self) == *old(self),
            r matches Ok(event) ==> event_matches_state(event, final(self).state),
            r matches Ok(DialogueEvent::Options(offered)) ==> offered@.len() == final(self).pending_options@.len(),
            old(self).state != ExecutionState::Stopped && old(self).state
                != ExecutionState::WaitingForOptionSelection && r is Err ==> final(self).state
                == ExecutionState::Stopped,
            old(self).state != ExecutionState::Stopped && old(self).state
                != ExecutionState::WaitingForOptionSelection ==> resume_follows_fetch(
                *old(self),
                r,
            ),
            old(self).state != ExecutionState::Stopped && old(self).state
                != ExecutionState::WaitingForOptionSelection ==> resume_handles_node_boundary(
                *old(self),
                r,
            ),
    {
        match self.state {
            ExecutionState::Stopped => Err(DialogueError::InvalidState),
            ExecutionState::WaitingForOptionSelection => Err(DialogueError::InvalidState),
            _ => {
                self.state = ExecutionState::Running;
                proof {
                    // Entering the running state changes none of the fields
                    // the fetched-instruction relations read.
                    assert(fetched_instruction(*self) == fetched_instruction(*old(self)));
                    assert(at_node_end(*self) == at_node_end(*old(self)));
                    assert(at_missing_node(*self) == at_missing_node(*old(self)));
                }
                self.run(handler)
            },
        }
    }
}

} // verus!
