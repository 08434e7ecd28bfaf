//! Diagnostic messages reported by the compiler.

use vstd::prelude::*;
use crate::position::PositionRange;

verus! {

/// The severity of a reported issue.
#[derive(Debug, Clone, Copy, PartialEq, Eq, Default, Structural)]
pub enum DiagnosticSeverity {
    /// An error.
    ///
    /// If a source file contains errors, it cannot be compiled,
    /// and the compilation process will fail.
    #[default]
    Error,

    /// A warning.
    ///
    /// Warnings represent possible problems that the user should fix,
    /// but do not cause the compilation process to fail.
    Warning,

    /// An informational diagnostic.
    ///
    /// Infos represent possible issues or steps that the user may wish
    /// to fix, but are unlikely to cause problems.
    Info,
}

/// The source context a diagnostic was read from: the range of positions
/// the issue spans, and the source text of that range.
#[derive(Debug, Clone)]
pub struct RuleContext {
    /// The range of positions the parsed rule spans.
    pub range: PositionRange,

    /// The source text the parsed rule spans.
    pub text: String,
}

/// A diagnostic message that describes an error, warning or informational
/// message that the user can take action on.
///
/// Diagnostics are presented to the user as the result of compilation,
/// through the `CompilationResult`'s `diagnostics` field.
#[derive(Debug, Clone, PartialEq, Eq)]
pub struct Diagnostic {
    /// The path, URI or file-name that the issue occurred in.
    pub file_name: Option<String>,

    /// The range of the file indicated by `file_name` that the issue occurred in.
    pub range: Option<PositionRange>,

    /// The description of the issue.
    pub message: String,

    /// The source text of `file_name` containing the issue.
    pub context: Option<String>,

    /// The severity of the issue.
    pub severity: DiagnosticSeverity,
}

impl Diagnostic {
    /// Creates a diagnostic that carries only a message: no file name,
    /// range or context, and the default `Error` severity.
    pub fn from_message(message: String) -> (r: Self)
        ensures
            r.message == message,
            r.file_name is None,
            r.range is None,
            r.context is None,
            r.severity == DiagnosticSeverity::Error,
    {
        Diagnostic {
            message,
            file_name: None,
            range: None,
            context: None,
            severity: DiagnosticSeverity::Error,
        }
    }

    /// Reads the position range and the source text out of the context of
    /// a parsed rule, leaving the other fields unchanged.
    pub fn read_parser_rule_context(self, ctx: &RuleContext) -> (r: Self)
        ensures
            r.range == Some(ctx.range),
            r.context == Some(ctx.text),
            r.message == self.message,
            r.file_name == self.file_name,
            r.severity == self.severity,
    {
        let mut this = self;
        this.range = Some(ctx.range);
        this.context = Some(ctx.text.clone());
        this
    }

    /// Sets the file name the issue occurred in, leaving the other fields unchanged.
    pub fn with_file_name(self, file_name: String) -> (r: Self)
        ensures
            r.file_name == Some(file_name),
            r.range == self.range,
            r.message == self.message,
            r.context == self.context,
            r.severity == self.severity,
    {
        let mut this = self;
        this.file_name = Some(file_name);
        this
    }

    /// Sets the range the issue occurred in, leaving the other fields unchanged.
    pub fn with_range(self, range: PositionRange) -> (r: Self)
        ensures
            r.range == Some(range),
            r.file_name == self.file_name,
            r.message == self.message,
            r.context == self.context,
            r.severity == self.severity,
    {
        let mut this = self;
        this.range = Some(range);
        this
    }

    /// Sets the source context of the issue, leaving the other fields unchanged.
    pub fn with_context(self, context: String) -> (r: Self)
        ensures
            r.context == Some(context),
            r.file_name == self.file_name,
            r.range == self.range,
            r.message == self.message,
            r.severity == self.severity,
    {
        let mut this = self;
        this.context = Some(context);
        this
    }

    /// Sets the severity of the issue, leaving the other fields unchanged.
    pub fn with_severity(self, severity: DiagnosticSeverity) -> (r: Self)
        ensures
            r.severity == severity,
            r.file_name == self.file_name,
            r.range == self.range,
            r.message == self.message,
            r.context == self.context,
    {
        let mut this = self;
        this.severity = severity;
        this
    }
}

/// Holds when some diagnostic of the sequence has `Error` severity:
/// such a sequence makes a compilation non-usable.
pub open spec fn has_error(diags: Seq<Diagnostic>) -> bool {
    exists|i: int| 0 <= i < diags.len() && diags[i].severity == DiagnosticSeverity::Error
}

/// Holds when `after` is `before` with diagnostics appended: nothing
/// already reported is dropped or rewritten.
pub open spec fn extends_diagnostics(before: Seq<Diagnostic>, after: Seq<Diagnostic>) -> bool {
    &&& after.len() >= before.len()
    &&& after.subrange(0, before.len() as int) == before
}

/// The prefix relation is reflexive, transitive, grows by pushes, and
/// never loses a reported error.
pub proof fn lemma_extends_diagnostics(before: Seq<Diagnostic>, middle: Seq<Diagnostic>, after: Seq<Diagnostic>)
    requires
        extends_diagnostics(before, middle),
        extends_diagnostics(middle, after),
    ensures
        extends_diagnostics(before, after),
        has_error(before) ==> has_error(after),
{
    assert forall|i: int| 0 <= i < before.len() implies after[i] == before[i] by {
        assert(middle.subrange(0, before.len() as int)[i] == before[i]);
        assert(after.subrange(0, middle.len() as int)[i] == middle[i]);
    }
    assert(after.subrange(0, before.len() as int) =~= before);
    if has_error(before) {
        let k = choose|k: int|
            0 <= k < before.len() && before[k].severity == DiagnosticSeverity::Error;
        assert(after[k].severity == DiagnosticSeverity::Error);
    }
}

/// Appending one diagnostic keeps the prefix.
pub proof fn lemma_extends_diagnostics_push(before: Seq<Diagnostic>, diagnostic: Diagnostic)
    ensures
        extends_diagnostics(before, before.push(diagnostic)),
        has_error(before) ==> has_error(before.push(diagnostic)),
{
    assert(before.push(diagnostic).subrange(0, before.len() as int) =~= before);
    if has_error(before) {
        let k = choose|k: int|
            0 <= k < before.len() && before[k].severity == DiagnosticSeverity::Error;
        assert(before.push(diagnostic)[k].severity == DiagnosticSeverity::Error);
    }
}

/// Returns `true` when some diagnostic of the list has `Error` severity.
pub fn diagnostics_contain_error(diags: &Vec<Diagnostic>) -> (r: bool)
    ensures
        r == has_error(diags@),
{
    let mut i: usize = 0;
    while i < diags.len()
        invariant
            0 <= i <= diags@.len(),
            !has_error(diags@.subrange(0, i as int)),
        decreases diags@.len() - i,
    {
        if matches!(diags[i].severity, DiagnosticSeverity::Error) {
            assert(diags@[i as int].severity == DiagnosticSeverity::Error);
            return true;
        }
        assert(diags@.subrange(0, i + 1 as int) == diags@.subrange(0, i as int).push(diags@[i as int]));
        i = i + 1;
    }
    assert(diags@.subrange(0, diags@.len() as int) == diags@);
    false
}

} // verus!
