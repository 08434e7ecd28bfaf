//! Declarations of variable and function symbols, and the table that
//! records every symbol seen or declared during a compilation.

use vstd::prelude::*;
use crate::position::PositionRange;
use crate::types::{Type, Value};

verus! {

/// The source of a declaration: either a named source file, or outside
/// any source file.
#[derive(Debug, Clone)]
pub enum DeclarationSource {
    /// The declaration was not found in a source file.
    External,

    /// The declaration was found in the source file of this name.
    File(String),
}

impl DeclarationSource {
    /// The text that `as_display_string` returns.
    pub open spec fn display_spec(&self) -> Seq<char> {
        match self {
            DeclarationSource::External => "(External)"@,
            DeclarationSource::File(name) => name@,
        }
    }

    /// Returns the source as display text: the file name, or `(External)`.
    pub fn as_display_string(&self) -> (r: String)
        ensures
            r@ == self.display_spec(),
    {
        match self {
            DeclarationSource::External => String::from_str("(External)"),
            DeclarationSource::File(name) => name.clone(),
        }
    }
}

/// Information about a declaration. Stored inside a declaration table,
/// which is produced by the compiler.
#[derive(Debug, Clone)]
pub struct Declaration {
    /// The name of this declaration.
    pub name: String,

    /// The default value of this declaration, if no value has been
    /// specified in code or is available from a variable storage.
    pub default_value: Value,

    /// A string describing the purpose of this declaration.
    pub description: String,

    /// The file in which this declaration was found, or
    /// `DeclarationSource::External` when it was not found in a source file.
    pub source_file_name: DeclarationSource,

    /// The name of the node in which this declaration was found, or `None`
    /// when it was not found in a source file.
    pub source_node_name: Option<String>,

    /// The line number at which this declaration was found in the source
    /// file, or `None` when it was not found in a source file.
    pub source_file_line: Option<usize>,

    /// A value indicating whether this declaration was implicitly inferred
    /// from usage rather than written in the source code.
    pub is_implicit: bool,

    /// The type of the declared symbol.
    pub variable_type: Type,

    /// The range of text at which this declaration occurs, or `None` for
    /// an implicit declaration, which has no source range.
    pub range: Option<PositionRange>,
}

/// Holds when the sequence declares the name: some declaration of the
/// sequence carries it.
pub open spec fn declares(decls: Seq<Declaration>, name: Seq<char>) -> bool {
    exists|i: int| 0 <= i < decls.len() && decls[i].name@ == name
}

/// The first declaration of the sequence that carries the name, or `None`
/// when no declaration does.
pub open spec fn lookup_declaration(decls: Seq<Declaration>, name: Seq<char>) -> Option<Declaration>
    decreases decls.len(),
{
    if decls.len() == 0 {
        None
    } else if decls[0].name@ == name {
        Some(decls[0])
    } else {
        lookup_declaration(decls.drop_first(), name)
    }
}

/// A name is looked up successfully exactly when some declaration carries
/// it, and the declaration found carries the name looked up.
pub proof fn lemma_lookup_declares(decls: Seq<Declaration>, name: Seq<char>)
    ensures
        (lookup_declaration(decls, name) is None) == !declares(decls, name),
        lookup_declaration(decls, name) matches Some(d) ==> d.name@ == name,
    decreases decls.len(),
{
    if decls.len() > 0 {
        lemma_lookup_declares(decls.drop_first(), name);
        if decls[0].name@ == name {
            assert(declares(decls, name));
        } else {
            if declares(decls.drop_first(), name) {
                let k = choose|k: int|
                    0 <= k < decls.drop_first().len() && decls.drop_first()[k].name@ == name;
                assert(decls[k + 1].name@ == name);
            }
            if declares(decls, name) {
                let k = choose|k: int| 0 <= k < decls.len() && decls[k].name@ == name;
                assert(decls.drop_first()[k - 1].name@ == name);
            }
        }
    }
}

/// Holds when no two declarations of the sequence carry the same name.
pub open spec fn unique_names(decls: Seq<Declaration>) -> bool {
    forall|i: int, j: int| 0 <= i < j < decls.len() ==> decls[i].name@ != decls[j].name@
}

/// Records every variable and function symbol seen or declared during one
/// compilation. Names are unique within a table.
#[derive(Debug, Clone)]
pub struct DeclarationTable {
    declarations: Vec<Declaration>,
}

impl View for DeclarationTable {
    type V = Seq<Declaration>;

    closed spec fn view(&self) -> Seq<Declaration> {
        self.declarations@
    }
}

impl DeclarationTable {
    /// Holds when the table is well formed: no name is declared twice.
    pub open spec fn wf(&self) -> bool {
        unique_names(self@)
    }

    /// Creates an empty table.
    pub fn new() -> (r: Self)
        ensures
            r@ == Seq::<Declaration>::empty(),
            r.wf(),
    {
        DeclarationTable { declarations: Vec::new() }
    }

    /// Returns how many declarations the table holds.
    pub fn len(&self) -> (r: usize)
        ensures
            r == self@.len(),
    {
        self.declarations.len()
    }

    /// Returns a reference to the declaration at the given position,
    /// in insertion order.
    pub fn get_at(&self, index: usize) -> (r: &Declaration)
        requires
            index < self@.len(),
        ensures
            *r == self@[index as int],
    {
        &self.declarations[index]
    }

    /// Returns `true` when the table declares the name.
    pub fn contains(&self, name: &String) -> (r: bool)
        ensures
            r == declares(self@, name@),
    {
        let mut i: usize = 0;
        while i < self.declarations.len()
            invariant
                0 <= i <= self@.len(),
                self@ == self.declarations@,
                forall|j: int| 0 <= j < i ==> self@[j].name@ != name@,
            decreases self@.len() - i,
        {
            if self.declarations[i].name == *name {
                return true;
            }
            i = i + 1;
        }
        false
    }

    /// Returns a reference to the declaration of the name, or `None` when
    /// the table does not declare it.
    pub fn get(&self, name: &String) -> (r: Option<&Declaration>)
        ensures
            match r {
                Some(d) => lookup_declaration(self@, name@) == Some(*d),
                None => !declares(self@, name@),
            },
    {
        proof {
            assert(self@.skip(0) =~= self@);
        }
        let mut i: usize = 0;
        while i < self.declarations.len()
            invariant
                0 <= i <= self@.len(),
                self@ == self.declarations@,
                forall|j: int| 0 <= j < i ==> self@[j].name@ != name@,
                lookup_declaration(self@, name@) == lookup_declaration(self@.skip(i as int), name@),
            decreases self@.len() - i,
        {
            if self.declarations[i].name == *name {
                proof {
                    assert(self@.skip(i as int)[0] == self@[i as int]);
                }
                return Some(&self.declarations[i]);
            }
            proof {
                assert(self@.skip(i as int).drop_first() =~= self@.skip(i + 1));
            }
            i = i + 1;
        }
        proof {
            assert(self@.skip(self@.len() as int).len() == 0);
        }
        None
    }

    /// Adds the declaration when its name is not yet declared and returns
    /// `true`; returns `false` and leaves the table unchanged when the name
    /// is already declared.
    pub fn add(&mut self, declaration: Declaration) -> (r: bool)
        requires
            old(self).wf(),
        ensures
            final(self).wf(),
            r == !declares(old(self)@, declaration.name@),
            r ==> final(self)@ == old(self)@.push(declaration),
            !r ==> final(self)@ == old(self)@,
    {
        if self.contains(&declaration.name) {
            return false;
        }
        self.declarations.push(declaration);
        true
    }

    /// Replaces the declaration of the given name with `declaration`, which
    /// must carry the same name, and returns `true`; returns `false` and
    /// leaves the table unchanged when the name is not declared.
    pub fn replace(&mut self, declaration: Declaration) -> (r: bool)
        requires
            old(self).wf(),
        ensures
            final(self).wf(),
            r == declares(old(self)@, declaration.name@),
            !r ==> final(self)@ == old(self)@,
            r ==> final(self)@.len() == old(self)@.len(),
            r ==> exists|i: int|
                0 <= i < old(self)@.len() && old(self)@[i].name@ == declaration.name@
                    && final(self)@ == old(self)@.update(i, declaration),
    {
        let mut i: usize = 0;
        while i < self.declarations.len()
            invariant
                0 <= i <= self@.len(),
                self@ == self.declarations@,
                self@ == old(self)@,
                unique_names(self@),
                forall|j: int| 0 <= j < i ==> self@[j].name@ != declaration.name@,
            decreases self@.len() - i,
        {
            if self.declarations[i].name == declaration.name {
                self.declarations.set(i, declaration);
                proof {
                    assert(self@ == old(self)@.update(i as int, declaration));
                    assert forall|k: int| 0 <= k < self@.len() implies self@[k].name@
                        == old(self)@[k].name@ by {
                        if k != i {
                            assert(self@[k] == old(self)@[k]);
                        }
                    }
                    assert(declares(old(self)@, declaration.name@)) by {
                        assert(old(self)@[i as int].name@ == declaration.name@);
                    }
                }
                return true;
            }
            i = i + 1;
        }
        false
    }
}

} // verus!
