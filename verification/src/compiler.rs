//! The compiler pipeline: parses every source text of a job, analyzes
//! the whole job, generates bytecode, and assembles one `Program`.
//! A usable program is produced exactly when no `Error`-severity
//! diagnostic was raised.

use vstd::prelude::*;
use crate::analyzer::{analyze, collect_declarations, report_unresolved};
use crate::ast::ParsedNode;
use crate::codegen::{compiled_node_wf, generate_node};
use crate::declaration::{Declaration, DeclarationTable};
use crate::diagnostics::{diagnostics_contain_error, has_error, Diagnostic};
use crate::library::Library;
use crate::parser::{parse_source, parsed_node_wf};
use crate::program::{has_node_named, local_jump_targets_bounded, unique_node_names, Node, Program};

verus! {

/// One source text of a compilation job, with the file identifier its
/// diagnostics and line identifiers carry.
#[derive(Debug, Clone)]
pub struct SourceFile {
    /// The path, URI or file-name the text came from.
    pub file_name: String,

    /// The source text itself.
    pub source: String,
}

/// The input of one compilation: one or more source texts, the function
/// library calls are checked against, and declarations already known
/// from earlier jobs.
pub struct CompilationJob {
    /// The source texts of the job, each with its file identifier.
    pub files: Vec<SourceFile>,

    /// The functions that the job's scripts may call.
    pub library: Library,

    /// Declarations known before this job runs, such as those of an
    /// earlier compilation.
    pub previous_declarations: Vec<Declaration>,
}

impl CompilationJob {
    /// Creates a job with no files, an empty library and no previous
    /// declarations.
    pub fn new() -> (r: Self)
        ensures
            r.files@ == Seq::<SourceFile>::empty(),
            r.library@ == Seq::<crate::library::LibraryFunction>::empty(),
            r.previous_declarations@ == Seq::<Declaration>::empty(),
    {
        CompilationJob { files: Vec::new(), library: Library::new(), previous_declarations: Vec::new() }
    }

    /// Adds one source text to the job.
    pub fn with_file(self, file_name: String, source: String) -> (r: Self)
        ensures
            r.files@ == self.files@.push(
                SourceFile { file_name: file_name, source: source },
            ),
            r.library == self.library,
            r.previous_declarations == self.previous_declarations,
    {
        let mut this = self;
        this.files.push(SourceFile { file_name, source });
        this
    }

    /// Sets the function library of the job.
    pub fn with_library(self, library: Library) -> (r: Self)
        ensures
            r.files == self.files,
            r.library == library,
            r.previous_declarations == self.previous_declarations,
    {
        let mut this = self;
        this.library = library;
        this
    }

    /// Adds one previously-known declaration to the job.
    pub fn with_declaration(self, declaration: Declaration) -> (r: Self)
        ensures
            r.files == self.files,
            r.library == self.library,
            r.previous_declarations@ == self.previous_declarations@.push(declaration),
    {
        let mut this = self;
        this.previous_declarations.push(declaration);
        this
    }
}

/// The file-level tags of one source file.
#[derive(Debug, Clone)]
pub struct FileTags {
    /// The file the tags belong to.
    pub file_name: String,

    /// The tags, in order of appearance.
    pub tags: Vec<String>,
}

/// The output of one compilation: every diagnostic raised, the program
/// when the job is usable, the final declaration table, and each file's
/// file-level tags.
pub struct CompilationResult {
    /// Every diagnostic raised, in full.
    pub diagnostics: Vec<Diagnostic>,

    /// The compiled program; absent exactly when some diagnostic has
    /// `Error` severity.
    pub program: Option<Program>,

    /// The final declaration table of the job.
    pub declarations: DeclarationTable,

    /// The file-level tags of each source file of the job.
    pub file_tags: Vec<FileTags>,
}

/// One parsed source file, between parsing and code generation.
struct ParsedFile {
    file_name: String,
    nodes: Vec<ParsedNode>,
}

/// Assembles compiled nodes into one program. When every node name is
/// unique the program holds exactly the given nodes in order and no
/// diagnostic is raised; a duplicated name raises an `Error` and the
/// duplicated node is left out.
#[verifier::loop_isolation(false)]
pub fn assemble_program(nodes: Vec<Node>, file_name: &String, diagnostics: &mut Vec<Diagnostic>) -> (r:
    Program)
    ensures
        r.wf(),
        final(diagnostics)@.subrange(0, old(diagnostics)@.len() as int) == old(diagnostics)@,
        unique_node_names(nodes@) ==> r.nodes@ == nodes@ && final(diagnostics)@ == old(
            diagnostics,
        )@,
        !unique_node_names(nodes@) ==> has_error(final(diagnostics)@),
{
    let ghost original = nodes@;
    let mut remaining = nodes;
    let total = remaining.len();
    let mut program = Program::new();
    let mut i: usize = 0;
    proof {
        assert(original.take(0) =~= Seq::<Node>::empty());
    }
    while remaining.len() > 0
        invariant
            program.wf(),
            total == original.len(),
            0 <= i <= original.len(),
            remaining@ == original.skip(i as int),
            old(diagnostics)@.len() <= diagnostics@.len(),
            unique_node_names(original.take(i as int)) ==> program.nodes@ == original.take(
                i as int,
            ) && diagnostics@ == old(diagnostics)@,
            !unique_node_names(original.take(i as int)) ==> has_error(diagnostics@),
            diagnostics@.subrange(0, old(diagnostics)@.len() as int) == old(diagnostics)@,
        decreases remaining@.len(),
    {
        let node = remaining.remove(0);
        proof {
            assert(node == original[i as int]);
            assert(remaining@ =~= original.skip(i + 1));
            assert(original.take(i + 1).drop_last() =~= original.take(i as int));
            assert(original.take(i + 1).last() == original[i as int]);
        }
        let ghost was_unique = unique_node_names(original.take(i as int));
        let ghost old_diags = diagnostics@;
        let added = program.add_node(node);
        if !added {
            let message = String::from_str("the node name is used by more than one node");
            diagnostics.push(
                Diagnostic::from_message(message).with_file_name(file_name.clone()),
            );
            proof {
                assert(diagnostics@.last().severity
                    == crate::diagnostics::DiagnosticSeverity::Error);
                assert(has_error(diagnostics@)) by {
                    assert(diagnostics@[diagnostics@.len() - 1].severity
                        == crate::diagnostics::DiagnosticSeverity::Error);
                }
                if was_unique {
                    // The duplicate was found inside the prefix kept so far.
                    let k = choose|k: int|
                        0 <= k < program.nodes@.len() && program.nodes@[k].name@
                            == original[i as int].name@;
                    assert(original.take(i + 1)[k].name@ == original.take(i + 1)[i as int].name@);
                    assert(!unique_node_names(original.take(i + 1)));
                }
                assert(diagnostics@.subrange(0, old(diagnostics)@.len() as int)
                    =~= old_diags.subrange(0, old(diagnostics)@.len() as int));
            }
        } else {
            proof {
                if was_unique {
                    assert(program.nodes@ =~= original.take(i + 1));
                    assert forall|p: int, q: int| 0 <= p < q < i + 1 implies (#[trigger] original
                        .take(i + 1)[p]).name@ != (#[trigger] original.take(i + 1)[q]).name@ by {
                        if q < i {
                            assert(original.take(i as int)[p].name@ != original.take(
                                i as int,
                            )[q].name@);
                        } else {
                            assert(!has_node_named(
                                original.take(i as int),
                                original[i as int].name@,
                            ));
                            assert(original.take(i as int)[p].name@ != original[i as int].name@);
                        }
                    }
                }
            }
        }
        proof {
            if !unique_node_names(original.take(i + 1)) && unique_node_names(original.take(i as int))
                && added {
                // A fresh name cannot break uniqueness of the prefix.
                let (p, q) = choose|p: int, q: int|
                    0 <= p < q < i + 1 && (#[trigger] original.take(i + 1)[p]).name@
                        == (#[trigger] original.take(i + 1)[q]).name@;
                if q < i {
                    assert(original.take(i as int)[p].name@ == original.take(i as int)[q].name@);
                } else {
                    assert(has_node_named(original.take(i as int), original[i as int].name@)) by {
                        assert(original.take(i as int)[p].name@ == original[i as int].name@);
                    }
                }
            }
            if !unique_node_names(original.take(i as int)) {
                let (p, q) = choose|p: int, q: int|
                    0 <= p < q < i && (#[trigger] original.take(i as int)[p]).name@
                        == (#[trigger] original.take(i as int)[q]).name@;
                assert(original.take(i + 1)[p].name@ == original.take(i + 1)[q].name@);
                assert(!unique_node_names(original.take(i + 1)));
            }
        }
        i = i + 1;
    }
    proof {
        assert(original.take(original.len() as int) =~= original);
    }
    program
}

/// Compiles one job: parses every file, resolves every symbol, generates
/// bytecode and assembles the program. The result carries every
/// diagnostic raised, and carries a program exactly when none of them
/// has `Error` severity.
#[verifier::loop_isolation(false)]
pub fn compile(job: CompilationJob) -> (r: CompilationResult)
    ensures
        (r.program is Some) == !has_error(r.diagnostics@),
        r.program matches Some(p) ==> p.wf(),
        r.declarations.wf(),
        r.file_tags@.len() == job.files@.len(),
        forall|i: int|
            0 <= i < job.files@.len() ==> (#[trigger] r.file_tags@[i]).file_name@
                == job.files@[i].file_name@,
        r.program matches Some(p) ==> forall|i: int|
            0 <= i < p.nodes@.len() ==> local_jump_targets_bounded(
                (#[trigger] p.nodes@[i]).instructions@,
            ),
        r.program matches Some(p) ==> forall|i: int|
            0 <= i < p.nodes@.len() ==> compiled_node_wf(#[trigger] p.nodes@[i]),
        job.files@.len() == 0 && job.previous_declarations@.len() == 0 ==> (
        r.program matches Some(p) && p.nodes@.len() == 0 && r.diagnostics@.len() == 0),
{
    let ghost empty_job = job.files@.len() == 0 && job.previous_declarations@.len() == 0;
    let CompilationJob { files, library, previous_declarations } = job;
    let mut diagnostics: Vec<Diagnostic> = Vec::new();
    let mut table = DeclarationTable::new();

    // Previously-known declarations seed the table.
    let mut remaining_declarations = previous_declarations;
    while remaining_declarations.len() > 0
        invariant
            table.wf(),
            empty_job ==> remaining_declarations@ == Seq::<Declaration>::empty()
                && diagnostics@ == Seq::<Diagnostic>::empty() && table@ == Seq::<
                Declaration,
            >::empty(),
        decreases remaining_declarations@.len(),
    {
        let declaration = remaining_declarations.remove(0);
        let name = declaration.name.clone();
        if !table.add(declaration) {
            let mut message = String::from_str("the variable $");
            message.append(name.as_str());
            message.append(" has already been declared");
            diagnostics.push(Diagnostic::from_message(message));
        }
    }

    // Parse every file.
    let mut parsed: Vec<ParsedFile> = Vec::new();
    let mut file_tags: Vec<FileTags> = Vec::new();
    let ghost all_files = files@;
    let mut remaining_files = files;
    while remaining_files.len() > 0
        invariant
            file_tags@.len() + remaining_files@.len() == all_files.len(),
            remaining_files@ == all_files.skip(file_tags@.len() as int),
            forall|i: int|
                0 <= i < file_tags@.len() ==> (#[trigger] file_tags@[i]).file_name@
                    == all_files[i].file_name@,
            forall|f: int|
                0 <= f < parsed@.len() ==> forall|i: int|
                    0 <= i < (#[trigger] parsed@[f]).nodes@.len() ==> parsed_node_wf(
                        #[trigger] parsed@[f].nodes@[i],
                    ),
            empty_job ==> diagnostics@ == Seq::<Diagnostic>::empty() && parsed@ == Seq::<
                ParsedFile,
            >::empty() && table@ == Seq::<Declaration>::empty(),
        decreases remaining_files@.len(),
    {
        let ghost done = file_tags@.len() as int;
        let file = remaining_files.remove(0);
        proof {
            assert(file == all_files[done]);
            assert(remaining_files@ =~= all_files.skip(done + 1));
        }
        let mut result = parse_source(&file.file_name, file.source.as_str());
        diagnostics.append(&mut result.diagnostics);
        file_tags.push(FileTags { file_name: file.file_name.clone(), tags: result.file_tags });
        parsed.push(ParsedFile { file_name: file.file_name, nodes: result.nodes });
    }

    // The node names known in the job, for jump validation.
    let mut node_names: Vec<String> = Vec::new();
    let mut f: usize = 0;
    while f < parsed.len()
        decreases parsed@.len() - f,
    {
        let mut n: usize = 0;
        while n < parsed[f].nodes.len()
            invariant
                f < parsed@.len(),
            decreases parsed@[f as int].nodes@.len() - n,
        {
            node_names.push(parsed[f].nodes[n].name.clone());
            n = n + 1;
        }
        f = f + 1;
    }

    // First pass: collect every explicit declaration of the job.
    let mut f: usize = 0;
    while f < parsed.len()
        invariant
            table.wf(),
            empty_job ==> diagnostics@ == Seq::<Diagnostic>::empty() && table@ == Seq::<
                Declaration,
            >::empty(),
        decreases parsed@.len() - f,
    {
        collect_declarations(&parsed[f].nodes, &mut table, &parsed[f].file_name, &mut diagnostics);
        f = f + 1;
    }

    // Second pass: resolve every reference.
    let mut f: usize = 0;
    while f < parsed.len()
        invariant
            table.wf(),
            empty_job ==> diagnostics@ == Seq::<Diagnostic>::empty() && table@ == Seq::<
                Declaration,
            >::empty(),
        decreases parsed@.len() - f,
    {
        analyze(
            &parsed[f].nodes,
            &node_names,
            &library,
            &mut table,
            &parsed[f].file_name,
            &mut diagnostics,
        );
        f = f + 1;
    }

    // No unresolved placeholder may remain.
    proof {
        if empty_job {
            assert(!crate::analyzer::has_unresolved_implicit(table@));
        }
    }
    report_unresolved(&table, &mut diagnostics);

    // Generate bytecode for every node.
    let mut compiled: Vec<Node> = Vec::new();
    let mut used_line_ids: Vec<String> = Vec::new();
    let mut next_ordinal: usize = 0;
    let job_name = String::from_str("job");
    let mut remaining_parsed = parsed;
    while remaining_parsed.len() > 0
        invariant
            forall|i: int|
                0 <= i < compiled@.len() ==> local_jump_targets_bounded(
                    (#[trigger] compiled@[i]).instructions@,
                ),
            forall|i: int|
                0 <= i < compiled@.len() ==> compiled_node_wf(#[trigger] compiled@[i]),
            forall|f: int|
                0 <= f < remaining_parsed@.len() ==> forall|i: int|
                    0 <= i < (#[trigger] remaining_parsed@[f]).nodes@.len() ==> parsed_node_wf(
                        #[trigger] remaining_parsed@[f].nodes@[i],
                    ),
            empty_job ==> remaining_parsed@ == Seq::<ParsedFile>::empty() && diagnostics@
                == Seq::<Diagnostic>::empty() && compiled@ == Seq::<Node>::empty(),
        decreases remaining_parsed@.len(),
    {
        let ghost parsed_before = remaining_parsed@;
        let parsed_file = remaining_parsed.remove(0);
        proof {
            assert(parsed_file == parsed_before[0]);
            assert(remaining_parsed@ =~= parsed_before.drop_first());
            assert forall|f: int| 0 <= f < remaining_parsed@.len() implies forall|i: int|
                0 <= i < (#[trigger] remaining_parsed@[f]).nodes@.len() ==> parsed_node_wf(
                    #[trigger] remaining_parsed@[f].nodes@[i],
                ) by {
                assert(remaining_parsed@[f] == parsed_before[f + 1]);
            }
        }
        let file_name = parsed_file.file_name;
        let mut nodes = parsed_file.nodes;
        while nodes.len() > 0
            invariant
                forall|i: int|
                    0 <= i < compiled@.len() ==> local_jump_targets_bounded(
                        (#[trigger] compiled@[i]).instructions@,
                    ),
                forall|i: int|
                    0 <= i < compiled@.len() ==> compiled_node_wf(#[trigger] compiled@[i]),
                forall|i: int| 0 <= i < nodes@.len() ==> parsed_node_wf(#[trigger] nodes@[i]),
            decreases nodes@.len(),
        {
            let ghost nodes_before = nodes@;
            let node = nodes.remove(0);
            proof {
                assert(node == nodes_before[0]);
                assert(nodes@ =~= nodes_before.drop_first());
                assert forall|i: int| 0 <= i < nodes@.len() implies parsed_node_wf(
                    #[trigger] nodes@[i],
                ) by {
                    assert(nodes@[i] == nodes_before[i + 1]);
                }
            }
            compiled.push(
                generate_node(node, &file_name, &mut used_line_ids, &mut next_ordinal, &mut diagnostics),
            );
        }
    }

    // Link the nodes into one program.
    let ghost compiled_nodes = compiled@;
    let program = assemble_program(compiled, &job_name, &mut diagnostics);

    let failed = diagnostics_contain_error(&diagnostics);
    proof {
        if empty_job {
            assert(unique_node_names(compiled_nodes));
            assert(!failed);
        }
        if !failed {
            // Without an error diagnostic the node names were unique, so
            // the program holds exactly the generated nodes.
            assert(unique_node_names(compiled_nodes));
            assert(program.nodes@ == compiled_nodes);
        }
    }
    CompilationResult {
        diagnostics,
        program: if failed {
            None
        } else {
            Some(program)
        },
        declarations: table,
        file_tags,
    }
}

} // verus!
