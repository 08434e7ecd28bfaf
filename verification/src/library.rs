//! The function library: an enumerable set of named function signatures
//! the analyzer checks calls against.

use vstd::prelude::*;
use crate::types::FunctionSignature;

verus! {

/// One named function of a library.
#[derive(Debug, Clone)]
pub struct LibraryFunction {
    /// The name the function is called by.
    pub name: String,

    /// The declared signature of the function.
    pub signature: FunctionSignature,
}

/// The first function of the sequence that carries the name, or `None`
/// when no function does.
pub open spec fn lookup_function(functions: Seq<LibraryFunction>, name: Seq<char>) -> Option<
    LibraryFunction,
>
    decreases functions.len(),
{
    if functions.len() == 0 {
        None
    } else if functions[0].name@ == name {
        Some(functions[0])
    } else {
        lookup_function(functions.drop_first(), name)
    }
}

/// Holds when some function of the sequence carries the name.
pub open spec fn library_declares(functions: Seq<LibraryFunction>, name: Seq<char>) -> bool {
    exists|i: int| 0 <= i < functions.len() && functions[i].name@ == name
}

/// A name is looked up successfully exactly when some function carries
/// it, and the function found carries the name looked up.
pub proof fn lemma_lookup_function(functions: Seq<LibraryFunction>, name: Seq<char>)
    ensures
        (lookup_function(functions, name) is None) == !library_declares(functions, name),
        lookup_function(functions, name) matches Some(f) ==> f.name@ == name,
    decreases functions.len(),
{
    if functions.len() > 0 {
        lemma_lookup_function(functions.drop_first(), name);
        if functions[0].name@ == name {
            assert(library_declares(functions, name));
        } else {
            if library_declares(functions.drop_first(), name) {
                let k = choose|k: int|
                    0 <= k < functions.drop_first().len() && functions.drop_first()[k].name@
                        == name;
                assert(functions[k + 1].name@ == name);
            }
            if library_declares(functions, name) {
                let k = choose|k: int| 0 <= k < functions.len() && functions[k].name@ == name;
                assert(functions.drop_first()[k - 1].name@ == name);
            }
        }
    }
}

/// A collection of named function signatures, unique by name, that the
/// analyzer resolves function calls against.
#[derive(Debug, Clone)]
pub struct Library {
    functions: Vec<LibraryFunction>,
}

impl View for Library {
    type V = Seq<LibraryFunction>;

    closed spec fn view(&self) -> Seq<LibraryFunction> {
        self.functions@
    }
}

impl Library {
    /// Holds when the library is well formed: no name occurs twice.
    pub open spec fn wf(&self) -> bool {
        forall|i: int, j: int|
            0 <= i < j < self@.len() ==> self@[i].name@ != self@[j].name@
    }

    /// Creates an empty library.
    pub fn new() -> (r: Self)
        ensures
            r@ == Seq::<LibraryFunction>::empty(),
            r.wf(),
    {
        Library { functions: Vec::new() }
    }

    /// Returns `true` when the library has a function of the name.
    pub fn contains(&self, name: &String) -> (r: bool)
        ensures
            r == library_declares(self@, name@),
    {
        let mut i: usize = 0;
        while i < self.functions.len()
            invariant
                0 <= i <= self@.len(),
                self@ == self.functions@,
                forall|j: int| 0 <= j < i ==> self@[j].name@ != name@,
            decreases self@.len() - i,
        {
            if self.functions[i].name == *name {
                return true;
            }
            i = i + 1;
        }
        false
    }

    /// Returns a reference to the function of the name, or `None` when the
    /// library has no such function.
    pub fn get(&self, name: &String) -> (r: Option<&LibraryFunction>)
        ensures
            match r {
                Some(f) => lookup_function(self@, name@) == Some(*f),
                None => !library_declares(self@, name@),
            },
    {
        proof {
            assert(self@.skip(0) =~= self@);
        }
        let mut i: usize = 0;
        while i < self.functions.len()
            invariant
                0 <= i <= self@.len(),
                self@ == self.functions@,
                forall|j: int| 0 <= j < i ==> self@[j].name@ != name@,
                lookup_function(self@, name@) == lookup_function(self@.skip(i as int), name@),
            decreases self@.len() - i,
        {
            if self.functions[i].name == *name {
                proof {
                    assert(self@.skip(i as int)[0] == self@[i as int]);
                }
                return Some(&self.functions[i]);
            }
            proof {
                assert(self@.skip(i as int)[0] == self@[i as int]);
                assert(self@.skip(i as int).drop_first() =~= self@.skip(i + 1));
            }
            i = i + 1;
        }
        proof {
            assert(self@.skip(self@.len() as int).len() == 0);
        }
        None
    }

    /// Registers the function when its name is free and returns `true`;
    /// returns `false` and leaves the library unchanged when a function of
    /// the same name is already registered.
    pub fn register_function(&mut self, function: LibraryFunction) -> (r: bool)
        requires
            old(self).wf(),
        ensures
            final(self).wf(),
            r == !library_declares(old(self)@, function.name@),
            r ==> final(self)@ == old(self)@.push(function),
            !r ==> final(self)@ == old(self)@,
    {
        if self.contains(&function.name) {
            return false;
        }
        self.functions.push(function);
        true
    }
}

} // verus!
