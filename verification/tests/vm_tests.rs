use yarn_slinger::compiler::{compile, CompilationJob, CompilationResult};
use yarn_slinger::declaration::DeclarationTable;
use yarn_slinger::program::{Instruction, Node, Program};
use yarn_slinger::types::Value;
use yarn_slinger::vm::{
    DialogueError, DialogueEvent, ExecutionState, FunctionHandler, NoFunctions, VirtualMachine,
};

fn compile_one(file_name: &str, source: &str) -> CompilationResult {
    let result = compile(
        CompilationJob::new().with_file(file_name.to_string(), source.to_string()),
    );
    assert!(
        result.program.is_some(),
        "the test script must compile: {:?}",
        result.diagnostics
    );
    result
}

fn machine_for(file_name: &str, source: &str) -> VirtualMachine {
    let result = compile_one(file_name, source);
    VirtualMachine::new(result.program.unwrap(), result.declarations)
}

#[test]
fn starting_an_unknown_node_fails_and_leaves_the_session_stopped() {
    let mut vm = machine_for("t.yarn", "title: A\n---\nHello.\n===\n");
    let result = vm.start_node(&"Missing".to_string());
    assert!(matches!(result, Err(DialogueError::UnknownNode(_))));
    assert_eq!(vm.state, ExecutionState::Stopped);
}

#[test]
fn line_roundtrip_delivers_one_line_then_stops() {
    let mut vm = machine_for("t.yarn", "title: A\n---\nOnly line here.\n===\n");
    vm.start_node(&"A".to_string()).unwrap();
    let mut handler = NoFunctions;
    let event = vm.continue_dialogue(&mut handler).unwrap();
    match event {
        DialogueEvent::Line { line_id, substitutions } => {
            assert_eq!(line_id, "line:t.yarn-A-0");
            assert!(substitutions.is_empty());
        }
        other => panic!("expected a line, got {other:?}"),
    }
    assert_eq!(vm.state, ExecutionState::DeliveredLine);
    let event = vm.continue_dialogue(&mut handler).unwrap();
    assert!(matches!(event, DialogueEvent::DialogueComplete));
    assert_eq!(vm.state, ExecutionState::Stopped);
}

#[test]
fn end_to_end_scenario_with_tags_options_and_two_nodes() {
    let source = "title: A\n\
tags: intro demo\n\
---\n\
First line of A.\n\
[[Go on|B]]\n\
===\n\
title: B\n\
---\n\
Line of B.\n\
<<stop>>\n\
===\n";
    let result = compile_one("t.yarn", source);
    let program = result.program.unwrap();
    assert_eq!(program.nodes.len(), 2);
    let node_a = program.get_node(&"A".to_string()).unwrap();
    assert_eq!(node_a.tags, vec!["intro".to_string(), "demo".to_string()]);

    let mut vm = VirtualMachine::new(program, result.declarations);
    let mut handler = NoFunctions;
    vm.start_node(&"A".to_string()).unwrap();

    let event = vm.continue_dialogue(&mut handler).unwrap();
    assert!(matches!(event, DialogueEvent::Line { .. }));

    let event = vm.continue_dialogue(&mut handler).unwrap();
    match event {
        DialogueEvent::Options(options) => {
            assert_eq!(options.len(), 1);
            assert_eq!(options[0].destination, "B");
            assert!(options[0].is_available);
        }
        other => panic!("expected options, got {other:?}"),
    }
    assert_eq!(vm.state, ExecutionState::WaitingForOptionSelection);

    vm.select_option(0).unwrap();
    assert_eq!(vm.state, ExecutionState::Running);

    let event = vm.continue_dialogue(&mut handler).unwrap();
    assert!(matches!(event, DialogueEvent::Line { .. }));

    let event = vm.continue_dialogue(&mut handler).unwrap();
    assert!(matches!(event, DialogueEvent::DialogueComplete));
    assert_eq!(vm.state, ExecutionState::Stopped);
}

#[test]
fn select_option_outside_the_waiting_state_is_rejected() {
    let mut vm = machine_for("t.yarn", "title: A\n---\nHello.\n===\n");
    assert_eq!(vm.select_option(0), Err(DialogueError::InvalidState));
    vm.start_node(&"A".to_string()).unwrap();
    assert_eq!(vm.select_option(0), Err(DialogueError::InvalidState));
}

#[test]
fn select_option_with_out_of_range_index_is_rejected() {
    let source = "title: A\n---\n[[One|B]]\n[[Two|B]]\n===\ntitle: B\n---\n===\n";
    let mut vm = machine_for("t.yarn", source);
    let mut handler = NoFunctions;
    vm.start_node(&"A".to_string()).unwrap();
    let event = vm.continue_dialogue(&mut handler).unwrap();
    assert!(matches!(event, DialogueEvent::Options(_)));
    assert_eq!(vm.select_option(2), Err(DialogueError::InvalidOptionIndex));
    assert_eq!(vm.state, ExecutionState::WaitingForOptionSelection);
    vm.select_option(1).unwrap();
    assert_eq!(vm.state, ExecutionState::Running);
}

#[test]
fn load_before_any_store_returns_the_declared_default() {
    let source = "title: A\n---\n<<declare $health = 42>>\n===\n";
    let vm = machine_for("t.yarn", source);
    assert_eq!(vm.get_variable(&"health".to_string()), Some(Value::Number(42)));
}

#[test]
fn store_overrides_the_declared_default() {
    let source = "title: A\n---\n<<declare $health = 42>>\n===\n";
    let mut vm = machine_for("t.yarn", source);
    vm.set_variable("health".to_string(), Value::Number(7));
    assert_eq!(vm.get_variable(&"health".to_string()), Some(Value::Number(7)));
}

#[test]
fn set_command_and_arithmetic_update_variables() {
    let source = "title: A\n\
---\n\
<<declare $n = 4>>\n\
<<set $n = $n * 3 - 2>>\n\
===\n";
    let mut vm = machine_for("t.yarn", source);
    let mut handler = NoFunctions;
    vm.start_node(&"A".to_string()).unwrap();
    let event = vm.continue_dialogue(&mut handler).unwrap();
    assert!(matches!(event, DialogueEvent::DialogueComplete));
    assert_eq!(vm.get_variable(&"n".to_string()), Some(Value::Number(10)));
}

#[test]
fn if_branches_choose_the_matching_arm() {
    let source = "title: A\n\
---\n\
<<declare $n = 10>>\n\
<<if $n == 10>>\n\
<<set $answer = \"yes\">>\n\
<<else>>\n\
<<set $answer = \"no\">>\n\
<<endif>>\n\
===\n";
    let mut vm = machine_for("t.yarn", source);
    let mut handler = NoFunctions;
    vm.start_node(&"A".to_string()).unwrap();
    vm.continue_dialogue(&mut handler).unwrap();
    assert_eq!(
        vm.get_variable(&"answer".to_string()),
        Some(Value::String("yes".to_string()))
    );
}

#[test]
fn string_concatenation_joins_values() {
    let source = "title: A\n\
---\n\
<<declare $name = \"world\">>\n\
<<set $greeting = \"hello \" + $name>>\n\
===\n";
    let mut vm = machine_for("t.yarn", source);
    let mut handler = NoFunctions;
    vm.start_node(&"A".to_string()).unwrap();
    vm.continue_dialogue(&mut handler).unwrap();
    assert_eq!(
        vm.get_variable(&"greeting".to_string()),
        Some(Value::String("hello world".to_string()))
    );
}

#[test]
fn line_substitutions_carry_variable_values() {
    let source = "title: A\n\
---\n\
<<declare $who = \"friend\">>\n\
Hello {$who}!\n\
===\n";
    let mut vm = machine_for("t.yarn", source);
    let mut handler = NoFunctions;
    vm.start_node(&"A".to_string()).unwrap();
    let event = vm.continue_dialogue(&mut handler).unwrap();
    match event {
        DialogueEvent::Line { substitutions, .. } => {
            assert_eq!(substitutions, vec![Value::String("friend".to_string())]);
        }
        other => panic!("expected a line, got {other:?}"),
    }
}

#[test]
fn run_command_suspends_until_the_host_continues() {
    let source = "title: A\n---\n<<shake camera>>\nAfter the command.\n===\n";
    let mut vm = machine_for("t.yarn", source);
    let mut handler = NoFunctions;
    vm.start_node(&"A".to_string()).unwrap();
    let event = vm.continue_dialogue(&mut handler).unwrap();
    match event {
        DialogueEvent::Command { text, .. } => assert_eq!(text, "shake camera"),
        other => panic!("expected a command, got {other:?}"),
    }
    assert_eq!(vm.state, ExecutionState::ExecutingCommand);
    let event = vm.continue_dialogue(&mut handler).unwrap();
    assert!(matches!(event, DialogueEvent::Line { .. }));
}

#[test]
fn continue_while_stopped_is_rejected() {
    let mut vm = machine_for("t.yarn", "title: A\n---\nHello.\n===\n");
    let mut handler = NoFunctions;
    assert!(matches!(
        vm.continue_dialogue(&mut handler),
        Err(DialogueError::InvalidState)
    ));
    assert_eq!(vm.state, ExecutionState::Stopped);
}

struct Adder;

impl FunctionHandler for Adder {
    fn call_function(&mut self, name: &String, arguments: Vec<Value>) -> Option<Value> {
        if name == "add" && arguments.len() == 2 {
            if let (Value::Number(a), Value::Number(b)) = (&arguments[0], &arguments[1]) {
                return Some(Value::Number(a + b));
            }
        }
        None
    }
}

#[test]
fn function_calls_dispatch_to_the_host_library() {
    let source = "title: A\n---\n<<set $sum = add(20, 22)>>\n===\n";
    let mut library = yarn_slinger::library::Library::new();
    library.register_function(yarn_slinger::library::LibraryFunction {
        name: "add".to_string(),
        signature: yarn_slinger::types::FunctionSignature {
            parameters: vec![
                yarn_slinger::types::SimpleType::Number,
                yarn_slinger::types::SimpleType::Number,
            ],
            return_type: yarn_slinger::types::SimpleType::Number,
        },
    });
    let result = compile(
        CompilationJob::new()
            .with_file("t.yarn".to_string(), source.to_string())
            .with_library(library),
    );
    assert!(result.program.is_some(), "{:?}", result.diagnostics);
    let mut vm = VirtualMachine::new(result.program.unwrap(), result.declarations);
    let mut handler = Adder;
    vm.start_node(&"A".to_string()).unwrap();
    vm.continue_dialogue(&mut handler).unwrap();
    assert_eq!(vm.get_variable(&"sum".to_string()), Some(Value::Number(42)));
}

#[test]
fn division_by_zero_is_a_fatal_error() {
    let source = "title: A\n---\n<<declare $z = 0>>\n<<set $x = 1 / $z>>\n===\n";
    let mut vm = machine_for("t.yarn", source);
    let mut handler = NoFunctions;
    vm.start_node(&"A".to_string()).unwrap();
    let result = vm.continue_dialogue(&mut handler);
    assert!(matches!(result, Err(DialogueError::InvalidOperands)));
    assert_eq!(vm.state, ExecutionState::Stopped);
}

fn raw_machine(instructions: Vec<Instruction>) -> VirtualMachine {
    let program = Program {
        nodes: vec![Node {
            name: "Raw".to_string(),
            headers: Vec::new(),
            tags: Vec::new(),
            instructions,
        }],
    };
    VirtualMachine::new(program, DeclarationTable::new())
}

#[test]
fn reading_an_undeclared_variable_is_a_fatal_error() {
    let mut vm = raw_machine(vec![Instruction::LoadVariable("ghost".to_string())]);
    let mut handler = NoFunctions;
    vm.start_node(&"Raw".to_string()).unwrap();
    let result = vm.continue_dialogue(&mut handler);
    assert!(matches!(result, Err(DialogueError::UndeclaredVariable(_))));
    assert_eq!(vm.state, ExecutionState::Stopped);
}

#[test]
fn storing_with_an_empty_stack_underflows() {
    let mut vm = raw_machine(vec![Instruction::StoreVariable("x".to_string())]);
    let mut handler = NoFunctions;
    vm.start_node(&"Raw".to_string()).unwrap();
    let result = vm.continue_dialogue(&mut handler);
    assert!(matches!(result, Err(DialogueError::StackUnderflow)));
}

#[test]
fn show_options_without_buffered_options_is_a_fatal_error() {
    let mut vm = raw_machine(vec![Instruction::ShowOptions]);
    let mut handler = NoFunctions;
    vm.start_node(&"Raw".to_string()).unwrap();
    let result = vm.continue_dialogue(&mut handler);
    assert!(matches!(result, Err(DialogueError::NoOptionsToShow)));
}

#[test]
fn missing_function_at_run_time_is_a_fatal_error() {
    let mut vm = raw_machine(vec![Instruction::CallFunction {
        function: "gone".to_string(),
        argument_count: 0,
    }]);
    let mut handler = NoFunctions;
    vm.start_node(&"Raw".to_string()).unwrap();
    let result = vm.continue_dialogue(&mut handler);
    assert!(matches!(result, Err(DialogueError::UnknownFunction(_))));
}

#[test]
fn a_jump_only_loop_is_stopped_as_a_runaway() {
    let mut vm = raw_machine(vec![Instruction::Jump(0)]);
    let mut handler = NoFunctions;
    vm.start_node(&"Raw".to_string()).unwrap();
    let result = vm.continue_dialogue(&mut handler);
    assert!(matches!(result, Err(DialogueError::ExecutionLimitReached)));
    assert_eq!(vm.state, ExecutionState::Stopped);
}

#[test]
fn jump_command_abandons_the_current_node() {
    let source = "title: A\n---\n<<jump B>>\nNever delivered.\n===\ntitle: B\n---\nFrom B.\n===\n";
    let mut vm = machine_for("t.yarn", source);
    let mut handler = NoFunctions;
    vm.start_node(&"A".to_string()).unwrap();
    let event = vm.continue_dialogue(&mut handler).unwrap();
    match event {
        DialogueEvent::Line { line_id, .. } => assert_eq!(line_id, "line:t.yarn-B-1"),
        other => panic!("expected the line of B, got {other:?}"),
    }
}

#[test]
fn stop_resets_the_session() {
    let mut vm = machine_for("t.yarn", "title: A\n---\nHello.\n===\n");
    let mut handler = NoFunctions;
    vm.start_node(&"A".to_string()).unwrap();
    vm.continue_dialogue(&mut handler).unwrap();
    vm.stop();
    assert_eq!(vm.state, ExecutionState::Stopped);
    assert!(vm.current_node.is_none());
}

#[test]
fn elseif_chain_picks_the_first_true_arm() {
    let source = "title: A\n\
---\n\
<<declare $n = 5>>\n\
<<if $n == 1>>\n\
<<set $result = \"one\">>\n\
<<elseif $n == 5>>\n\
<<set $result = \"five\">>\n\
<<elseif $n == 9>>\n\
<<set $result = \"nine\">>\n\
<<else>>\n\
<<set $result = \"other\">>\n\
<<endif>>\n\
===\n";
    let mut vm = machine_for("t.yarn", source);
    let mut handler = NoFunctions;
    vm.start_node(&"A".to_string()).unwrap();
    vm.continue_dialogue(&mut handler).unwrap();
    assert_eq!(
        vm.get_variable(&"result".to_string()),
        Some(Value::String("five".to_string()))
    );
}

#[test]
fn options_inside_an_if_branch_are_offered() {
    let source = "title: A\n\
---\n\
<<if true>>\n\
[[Stay|A]]\n\
[[Leave|B]]\n\
<<endif>>\n\
===\n\
title: B\n\
---\n\
Gone.\n\
===\n";
    let mut vm = machine_for("t.yarn", source);
    let mut handler = NoFunctions;
    vm.start_node(&"A".to_string()).unwrap();
    let event = vm.continue_dialogue(&mut handler).unwrap();
    match event {
        DialogueEvent::Options(options) => {
            assert_eq!(options.len(), 2);
            assert_eq!(options[1].destination, "B");
        }
        other => panic!("expected options, got {other:?}"),
    }
    vm.select_option(1).unwrap();
    let event = vm.continue_dialogue(&mut handler).unwrap();
    assert!(matches!(event, DialogueEvent::Line { .. }));
}


#[test]
fn an_option_with_a_false_condition_is_disabled() {
    let mut vm = raw_machine(vec![
        Instruction::PushLiteral(Value::Boolean(false)),
        Instruction::AddOption {
            line_id: "line:raw-0".to_string(),
            destination: "Raw".to_string(),
            substitution_count: 0,
            has_condition: true,
        },
        Instruction::ShowOptions,
    ]);
    let mut handler = NoFunctions;
    vm.start_node(&"Raw".to_string()).unwrap();
    let event = vm.continue_dialogue(&mut handler).unwrap();
    match event {
        DialogueEvent::Options(options) => {
            assert_eq!(options.len(), 1);
            assert!(!options[0].is_available);
        }
        other => panic!("expected options, got {other:?}"),
    }
}

#[test]
fn selecting_an_option_with_an_unknown_destination_is_fatal() {
    let mut vm = raw_machine(vec![
        Instruction::AddOption {
            line_id: "line:raw-0".to_string(),
            destination: "Vanished".to_string(),
            substitution_count: 0,
            has_condition: false,
        },
        Instruction::ShowOptions,
    ]);
    let mut handler = NoFunctions;
    vm.start_node(&"Raw".to_string()).unwrap();
    vm.continue_dialogue(&mut handler).unwrap();
    let result = vm.select_option(0);
    assert!(matches!(result, Err(DialogueError::UnknownNode(_))));
    assert_eq!(vm.state, ExecutionState::Stopped);
}
