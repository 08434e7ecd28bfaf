//! The compiled artifact: bytecode instructions, nodes, and the linkable
//! `Program` that maps node names to nodes.

use vstd::prelude::*;
use crate::ast::{BinaryOperator, Header};
use crate::types::Value;

verus! {

/// One bytecode instruction of a compiled node.
#[derive(Debug)]
pub enum Instruction {
    /// Push a literal value onto the operand stack.
    PushLiteral(Value),

    /// Push the value of the named variable onto the operand stack.
    LoadVariable(String),

    /// Pop the top of the operand stack into the named variable.
    StoreVariable(String),

    /// Pop `argument_count` arguments, call the named library function on
    /// them, and push its result.
    CallFunction { function: String, argument_count: usize },

    /// Pop two operands, apply the operator, and push the result.
    BinaryOperation(BinaryOperator),

    /// Continue execution at the given instruction of the current node.
    Jump(usize),

    /// Pop a boolean; when it is false, continue execution at the given
    /// instruction of the current node.
    JumpIfFalse(usize),

    /// Deliver a line to the host and suspend. `substitution_count` values
    /// are popped off the operand stack into the line's substitutions.
    RunLine { line_id: String, substitution_count: usize },

    /// Buffer an option for the next `ShowOptions`. When `has_condition`
    /// is set, a boolean is popped that decides whether the option is
    /// enabled.
    AddOption { line_id: String, destination: String, substitution_count: usize, has_condition: bool },

    /// Flush the buffered options to the host and suspend until one is
    /// selected.
    ShowOptions,

    /// Dispatch a raw command to the host and suspend. `substitution_count`
    /// values are popped off the operand stack into the command's
    /// substitutions.
    RunCommand { text: String, substitution_count: usize },

    /// Jump to the first instruction of the named node, abandoning the
    /// current node's frame.
    RunNode(String),

    /// Stop the dialogue.
    Stop,
}

impl Clone for Instruction {
    /// Returns a copy of the instruction.
    fn clone(&self) -> (r: Self)
        ensures
            r == *self,
    {
        match self {
            Instruction::PushLiteral(value) => Instruction::PushLiteral(value.clone()),
            Instruction::LoadVariable(name) => Instruction::LoadVariable(name.clone()),
            Instruction::StoreVariable(name) => Instruction::StoreVariable(name.clone()),
            Instruction::CallFunction { function, argument_count } => Instruction::CallFunction {
                function: function.clone(),
                argument_count: *argument_count,
            },
            Instruction::BinaryOperation(operator) => Instruction::BinaryOperation(*operator),
            Instruction::Jump(target) => Instruction::Jump(*target),
            Instruction::JumpIfFalse(target) => Instruction::JumpIfFalse(*target),
            Instruction::RunLine { line_id, substitution_count } => Instruction::RunLine {
                line_id: line_id.clone(),
                substitution_count: *substitution_count,
            },
            Instruction::AddOption { line_id, destination, substitution_count, has_condition } => {
                Instruction::AddOption {
                    line_id: line_id.clone(),
                    destination: destination.clone(),
                    substitution_count: *substitution_count,
                    has_condition: *has_condition,
                }
            },
            Instruction::ShowOptions => Instruction::ShowOptions,
            Instruction::RunCommand { text, substitution_count } => Instruction::RunCommand {
                text: text.clone(),
                substitution_count: *substitution_count,
            },
            Instruction::RunNode(name) => Instruction::RunNode(name.clone()),
            Instruction::Stop => Instruction::Stop,
        }
    }
}

/// Holds when every local jump of the instruction sequence stays inside
/// it: a target equal to the length means the end of the node.
pub open spec fn local_jump_targets_bounded(instructions: Seq<Instruction>) -> bool {
    forall|i: int|
        0 <= i < instructions.len() ==> match #[trigger] instructions[i] {
            Instruction::Jump(t) => t <= instructions.len(),
            Instruction::JumpIfFalse(t) => t <= instructions.len(),
            _ => true,
        }
}

/// One named unit of dialogue: headers, tags, and compiled instructions.
#[derive(Debug, Clone)]
pub struct Node {
    /// The name of the node, equal to the value of its `title` header.
    pub name: String,

    /// The headers of the node, in declaration order, duplicates kept.
    pub headers: Vec<Header>,

    /// The tags of the node, derived by splitting the `tags` header value
    /// on whitespace.
    pub tags: Vec<String>,

    /// The bytecode instructions of the node, in execution order.
    pub instructions: Vec<Instruction>,
}

/// Holds when the sequence has a node of the given name.
pub open spec fn has_node_named(nodes: Seq<Node>, name: Seq<char>) -> bool {
    exists|i: int| 0 <= i < nodes.len() && nodes[i].name@ == name
}

/// The first node of the sequence that carries the name, or `None` when
/// no node does.
pub open spec fn lookup_node(nodes: Seq<Node>, name: Seq<char>) -> Option<Node>
    decreases nodes.len(),
{
    if nodes.len() == 0 {
        None
    } else if nodes[0].name@ == name {
        Some(nodes[0])
    } else {
        lookup_node(nodes.drop_first(), name)
    }
}

/// A name is looked up successfully exactly when some node carries it,
/// and the node found carries the name looked up.
pub proof fn lemma_lookup_node(nodes: Seq<Node>, name: Seq<char>)
    ensures
        (lookup_node(nodes, name) is None) == !has_node_named(nodes, name),
        lookup_node(nodes, name) matches Some(n) ==> n.name@ == name,
    decreases nodes.len(),
{
    if nodes.len() > 0 {
        lemma_lookup_node(nodes.drop_first(), name);
        if nodes[0].name@ == name {
            assert(has_node_named(nodes, name));
        } else {
            if has_node_named(nodes.drop_first(), name) {
                let k = choose|k: int|
                    0 <= k < nodes.drop_first().len() && nodes.drop_first()[k].name@ == name;
                assert(nodes[k + 1].name@ == name);
            }
            if has_node_named(nodes, name) {
                let k = choose|k: int| 0 <= k < nodes.len() && nodes[k].name@ == name;
                assert(nodes.drop_first()[k - 1].name@ == name);
            }
        }
    }
}

/// Holds when no two nodes of the sequence share a name.
pub open spec fn unique_node_names(nodes: Seq<Node>) -> bool {
    forall|i: int, j: int| 0 <= i < j < nodes.len() ==> nodes[i].name@ != nodes[j].name@
}

/// The nodes of all the programs of the sequence, in order.
pub open spec fn all_nodes(programs: Seq<Program>) -> Seq<Node>
    decreases programs.len(),
{
    if programs.len() == 0 {
        Seq::empty()
    } else {
        programs[0].nodes@ + all_nodes(programs.drop_first())
    }
}

/// The linked compilation artifact: a collection of nodes, each
/// addressable by its unique name. An empty program is valid but inert.
#[derive(Debug, Clone)]
pub struct Program {
    /// The nodes of the program. No two nodes share a name.
    pub nodes: Vec<Node>,
}

impl Program {
    /// Holds when the program is well formed: no node name occurs twice.
    pub open spec fn wf(&self) -> bool {
        unique_node_names(self.nodes@)
    }

    /// Creates a program with no nodes.
    pub fn new() -> (r: Self)
        ensures
            r.nodes@ == Seq::<Node>::empty(),
            r.wf(),
    {
        Program { nodes: Vec::new() }
    }

    /// Returns how many nodes the program holds.
    pub fn node_count(&self) -> (r: usize)
        ensures
            r == self.nodes@.len(),
    {
        self.nodes.len()
    }

    /// Returns a reference to the node of the given name, or `None` when
    /// the program has no such node.
    pub fn get_node(&self, name: &String) -> (r: Option<&Node>)
        ensures
            match r {
                Some(n) => lookup_node(self.nodes@, name@) == Some(*n) && n.name@ == name@,
                None => !has_node_named(self.nodes@, name@),
            },
    {
        proof {
            assert(self.nodes@.skip(0) =~= self.nodes@);
        }
        let mut i: usize = 0;
        while i < self.nodes.len()
            invariant
                0 <= i <= self.nodes@.len(),
                forall|j: int| 0 <= j < i ==> self.nodes@[j].name@ != name@,
                lookup_node(self.nodes@, name@) == lookup_node(
                    self.nodes@.skip(i as int),
                    name@,
                ),
            decreases self.nodes@.len() - i,
        {
            if self.nodes[i].name == *name {
                proof {
                    assert(self.nodes@.skip(i as int)[0] == self.nodes@[i as int]);
                }
                return Some(&self.nodes[i]);
            }
            proof {
                assert(self.nodes@.skip(i as int)[0] == self.nodes@[i as int]);
                assert(self.nodes@.skip(i as int).drop_first() =~= self.nodes@.skip(i + 1));
            }
            i = i + 1;
        }
        proof {
            assert(self.nodes@.skip(self.nodes@.len() as int).len() == 0);
        }
        None
    }

    /// Returns `true` when the program has a node of the given name.
    pub fn has_node(&self, name: &String) -> (r: bool)
        ensures
            r == has_node_named(self.nodes@, name@),
    {
        proof {
            lemma_lookup_node(self.nodes@, name@);
        }
        match self.get_node(name) {
            Some(_) => true,
            None => false,
        }
    }

    /// Adds the node when its name is not yet present and returns `true`;
    /// returns `false` and leaves the program unchanged when a node of the
    /// same name is already present.
    pub fn add_node(&mut self, node: Node) -> (r: bool)
        requires
            old(self).wf(),
        ensures
            final(self).wf(),
            r == !has_node_named(old(self).nodes@, node.name@),
            r ==> final(self).nodes@ == old(self).nodes@.push(node),
            !r ==> final(self).nodes@ == old(self).nodes@,
    {
        if self.has_node(&node.name) {
            return false;
        }
        self.nodes.push(node);
        true
    }

    /// Merges an ordered list of programs into one. Every node name must
    /// occur only once over all the programs together: the first collision
    /// aborts the merge, naming the duplicated node, and no partial
    /// program is produced. On success the result holds the nodes of all
    /// the programs, in order.
    #[verifier::loop_isolation(false)]
    pub fn combine(programs: Vec<Program>) -> (r: Result<Program, String>)
        requires
            forall|i: int| 0 <= i < programs@.len() ==> (#[trigger] programs@[i]).wf(),
        ensures
            match r {
                Ok(p) => {
                    &&& p.wf()
                    &&& p.nodes@ == all_nodes(programs@)
                    &&& unique_node_names(all_nodes(programs@))
                },
                Err(name) => {
                    &&& !unique_node_names(all_nodes(programs@))
                    &&& exists|i: int, j: int|
                        0 <= i < j < all_nodes(programs@).len()
                            && all_nodes(programs@)[i].name@ == name@
                            && all_nodes(programs@)[j].name@ == name@
                },
            },
    {
        let ghost original: Seq<Program> = programs@;
        let mut remaining = programs;
        let mut result = Program::new();
        let ghost mut seen: int = 0;
        proof {
            lemma_all_nodes_split(original, 0);
            assert(original.skip(0) =~= original);
            assert(all_nodes(original).take(0) =~= Seq::<Node>::empty());
        }
        while remaining.len() > 0
            invariant
                result.wf(),
                0 <= seen <= all_nodes(original).len(),
                result.nodes@ == all_nodes(original).take(seen),
                all_nodes(original) == result.nodes@ + all_nodes(remaining@),
            decreases remaining@.len(),
        {
            let mut program = remaining.remove(0);
            proof {
                assert(all_nodes(remaining@.insert(0, program)) == program.nodes@
                    + all_nodes(remaining@)) by {
                    assert(remaining@.insert(0, program).drop_first() =~= remaining@);
                    assert(remaining@.insert(0, program)[0] == program);
                }
            }
            while program.nodes.len() > 0
                invariant
                    result.wf(),
                    0 <= seen <= all_nodes(original).len(),
                    result.nodes@ == all_nodes(original).take(seen),
                    all_nodes(original) == result.nodes@ + program.nodes@ + all_nodes(remaining@),
                decreases program.nodes@.len(),
            {
                let ghost pre = program.nodes@;
                let node = program.nodes.remove(0);
                proof {
                    assert(node == pre[0]);
                    assert(program.nodes@ =~= pre.drop_first());
                    assert(seen == result.nodes@.len());
                    assert(all_nodes(original)[seen] == pre[0]);
                }
                let ghost old_result = result.nodes@;
                let duplicate_name = node.name.clone();
                if !result.add_node(node) {
                    // The name is already present: the merge is aborted and
                    // no partial program escapes.
                    proof {
                        let whole = all_nodes(original);
                        let k = choose|k: int|
                            0 <= k < old_result.len() && old_result[k].name@ == node.name@;
                        assert(whole[k] == old_result[k]);
                        assert(whole[seen] == node);
                        assert(!unique_node_names(whole));
                    }
                    return Err(duplicate_name);
                }
                proof {
                    seen = seen + 1;
                    assert(result.nodes@ =~= all_nodes(original).take(seen));
                }
            }
        }
        proof {
            assert(all_nodes(remaining@).len() == 0) by {
                assert(remaining@.len() == 0);
            }
            assert(result.nodes@ =~= all_nodes(original));
        }
        Ok(result)
    }
}

/// Combining programs with pairwise-disjoint node names yields a node
/// count equal to the sum of the counts: the nodes of a combined
/// sequence are exactly the nodes of its programs, laid end to end.
pub proof fn lemma_all_nodes_len(programs: Seq<Program>)
    ensures
        all_nodes(programs).len() == total_node_count(programs),
    decreases programs.len(),
{
    if programs.len() > 0 {
        lemma_all_nodes_len(programs.drop_first());
    }
}

/// The node counts of a sequence of programs, summed.
pub open spec fn total_node_count(programs: Seq<Program>) -> int
    decreases programs.len(),
{
    if programs.len() == 0 {
        0
    } else {
        programs[0].nodes@.len() + total_node_count(programs.drop_first())
    }
}

/// Splitting a program sequence at any point splits its nodes at the
/// matching point.
proof fn lemma_all_nodes_split(programs: Seq<Program>, i: int)
    requires
        0 <= i <= programs.len(),
    ensures
        all_nodes(programs) == all_nodes(programs.take(i)) + all_nodes(programs.skip(i)),
    decreases i,
{
    if i == 0 {
        assert(programs.take(0) =~= Seq::<Program>::empty());
        assert(programs.skip(0) =~= programs);
        assert(all_nodes(programs.take(0)) =~= Seq::<Node>::empty());
    } else {
        lemma_all_nodes_split(programs.drop_first(), i - 1);
        assert(programs.take(i).drop_first() =~= programs.drop_first().take(i - 1));
        assert(programs.take(i)[0] == programs[0]);
        assert(programs.skip(i) =~= programs.drop_first().skip(i - 1));
        assert(all_nodes(programs) == programs[0].nodes@ + all_nodes(programs.drop_first()));
        assert(all_nodes(programs.take(i)) == programs[0].nodes@ + all_nodes(
            programs.drop_first().take(i - 1),
        ));
    }
}

} // verus!
