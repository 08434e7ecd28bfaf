//! An in-memory variable storage, keyed by declared variable name.

use vstd::prelude::*;
use crate::types::Value;

verus! {

/// One stored variable: its name and its current value.
#[derive(Debug, Clone)]
pub struct StoredVariable {
    /// The name of the variable.
    pub name: String,

    /// The value the variable currently holds.
    pub value: Value,
}

/// The value stored under the name, or `None` when nothing is stored
/// under it.
pub open spec fn stored_value(values: Seq<StoredVariable>, name: Seq<char>) -> Option<Value>
    decreases values.len(),
{
    if values.len() == 0 {
        None
    } else if values[0].name@ == name {
        Some(values[0].value)
    } else {
        stored_value(values.drop_first(), name)
    }
}

/// Holds when a value is stored under the name.
pub open spec fn stores(values: Seq<StoredVariable>, name: Seq<char>) -> bool {
    exists|i: int| 0 <= i < values.len() && values[i].name@ == name
}

/// A variable storage that keeps every value in memory. Each name holds
/// at most one value; `set_value` replaces an existing value.
#[derive(Debug, Clone)]
pub struct MemoryVariableStorage {
    values: Vec<StoredVariable>,
}

impl View for MemoryVariableStorage {
    type V = Seq<StoredVariable>;

    closed spec fn view(&self) -> Seq<StoredVariable> {
        self.values@
    }
}

impl MemoryVariableStorage {
    /// Holds when the storage is well formed: no name occurs twice.
    pub open spec fn wf(&self) -> bool {
        forall|i: int, j: int| 0 <= i < j < self@.len() ==> self@[i].name@ != self@[j].name@
    }

    /// Creates a storage holding no values.
    pub fn new() -> (r: Self)
        ensures
            r@ == Seq::<StoredVariable>::empty(),
            r.wf(),
    {
        MemoryVariableStorage { values: Vec::new() }
    }

    /// Returns the value stored under the name, or `None` when nothing is
    /// stored under it.
    pub fn get_value(&self, name: &String) -> (r: Option<Value>)
        ensures
            r == stored_value(self@, name@),
    {
        proof {
            assert(self@.skip(0) =~= self@);
        }
        let mut i: usize = 0;
        while i < self.values.len()
            invariant
                0 <= i <= self@.len(),
                self@ == self.values@,
                stored_value(self@, name@) == stored_value(self@.skip(i as int), name@),
            decreases self@.len() - i,
        {
            proof {
                assert(self@.skip(i as int)[0] == self@[i as int]);
            }
            if self.values[i].name == *name {
                return Some(self.values[i].value.clone());
            }
            proof {
                assert(self@.skip(i as int).drop_first() =~= self@.skip(i + 1));
            }
            i = i + 1;
        }
        proof {
            assert(self@.skip(self@.len() as int).len() == 0);
        }
        None
    }

    /// Stores the value under the name, replacing any value stored there
    /// before.
    pub fn set_value(&mut self, name: String, value: Value)
        requires
            old(self).wf(),
        ensures
            final(self).wf(),
            stored_value(final(self)@, name@) == Some(value),
            forall|other: Seq<char>|
                other != name@ ==> stored_value(final(self)@, other) == stored_value(
                    old(self)@,
                    other,
                ),
    {
        proof {
            assert(self@.skip(0) =~= self@);
        }
        let mut i: usize = 0;
        while i < self.values.len()
            invariant
                0 <= i <= self@.len(),
                self@ == self.values@,
                self@ == old(self)@,
                old(self).wf(),
                forall|j: int| 0 <= j < i ==> self@[j].name@ != name@,
            decreases self@.len() - i,
        {
            if self.values[i].name == name {
                self.values.set(i, StoredVariable { name, value });
                proof {
                    let ghost updated = self@;
                    assert(updated == old(self)@.update(i as int, updated[i as int]));
                    assert forall|k: int| 0 <= k < updated.len() implies updated[k].name@
                        == old(self)@[k].name@ by {
                        if k != i {
                            assert(updated[k] == old(self)@[k]);
                        }
                    }
                    lemma_stored_value_update(old(self)@, updated, i as int, name@);
                }
                return ;
            }
            i = i + 1;
        }
        self.values.push(StoredVariable { name, value });
        proof {
            let ghost updated = self@;
            assert(updated == old(self)@.push(updated.last()));
            lemma_stored_value_push(old(self)@, updated.last());
        }
    }
}

/// Looking a name up walks to the first entry that carries it; updating
/// the entry at that first position changes that name alone.
proof fn lemma_stored_value_update(
    original: Seq<StoredVariable>,
    updated: Seq<StoredVariable>,
    at: int,
    name: Seq<char>,
)
    requires
        0 <= at < original.len(),
        updated == original.update(at, updated[at]),
        updated[at].name@ == name,
        original[at].name@ == name,
        forall|j: int| 0 <= j < at ==> original[j].name@ != name,
    ensures
        stored_value(updated, name) == Some(updated[at].value),
        forall|other: Seq<char>|
            other != name ==> stored_value(updated, other) == stored_value(original, other),
    decreases at,
{
    if at == 0 {
        assert(updated[0].name@ == name);
        assert(updated.drop_first() =~= original.drop_first());
        assert forall|other: Seq<char>| other != name implies stored_value(updated, other)
            == stored_value(original, other) by {
            assert(stored_value(updated, other) == stored_value(updated.drop_first(), other));
            assert(stored_value(original, other) == stored_value(original.drop_first(), other));
        }
    } else {
        assert(updated[0] == original[0]);
        assert(updated[0].name@ != name);
        let original_tail = original.drop_first();
        let updated_tail = updated.drop_first();
        assert(updated_tail =~= original_tail.update(at - 1, updated[at]));
        assert(updated_tail[at - 1] == updated[at]);
        assert(original_tail[at - 1] == original[at]);
        assert forall|j: int| 0 <= j < at - 1 implies original_tail[j].name@ != name by {
            assert(original_tail[j] == original[j + 1]);
        }
        lemma_stored_value_update(original_tail, updated_tail, at - 1, name);
        assert forall|other: Seq<char>| other != name implies stored_value(updated, other)
            == stored_value(original, other) by {
            if original[0].name@ != other {
                assert(stored_value(updated, other) == stored_value(updated_tail, other));
                assert(stored_value(original, other) == stored_value(original_tail, other));
            }
        }
    }
}

/// Appending an entry with a fresh position leaves every earlier name's
/// lookup unchanged, and resolves the appended name when nothing earlier
/// carries it.
proof fn lemma_stored_value_push(original: Seq<StoredVariable>, entry: StoredVariable)
    ensures
        !stores(original, entry.name@) ==> stored_value(original.push(entry), entry.name@)
            == Some(entry.value),
        forall|other: Seq<char>|
            stored_value(original, other) is Some ==> stored_value(original.push(entry), other)
                == stored_value(original, other),
        forall|other: Seq<char>|
            other != entry.name@ && stored_value(original, other) is None ==> stored_value(
                original.push(entry),
                other,
            ) is None,
    decreases original.len(),
{
    let pushed = original.push(entry);
    if original.len() == 0 {
        assert(pushed[0] == entry);
        assert(pushed.drop_first() =~= Seq::<StoredVariable>::empty());
        assert forall|other: Seq<char>|
            other != entry.name@ && stored_value(original, other) is None implies stored_value(
            pushed,
            other,
        ) is None by {
            assert(stored_value(pushed, other) == stored_value(pushed.drop_first(), other));
        }
    } else {
        lemma_stored_value_push(original.drop_first(), entry);
        assert(pushed[0] == original[0]);
        assert(pushed.drop_first() =~= original.drop_first().push(entry));
        if !stores(original, entry.name@) {
            assert(original[0].name@ != entry.name@);
            assert(!stores(original.drop_first(), entry.name@)) by {
                if stores(original.drop_first(), entry.name@) {
                    let k = choose|k: int|
                        0 <= k < original.drop_first().len() && original.drop_first()[k].name@
                            == entry.name@;
                    assert(original[k + 1].name@ == entry.name@);
                }
            }
            assert(stored_value(pushed, entry.name@) == Some(entry.value));
        }
        assert forall|other: Seq<char>| stored_value(original, other) is Some implies
            stored_value(pushed, other) == stored_value(original, other) by {
            if original[0].name@ != other {
                assert(stored_value(pushed, other) == stored_value(pushed.drop_first(), other));
                assert(stored_value(original, other) == stored_value(
                    original.drop_first(),
                    other,
                ));
            }
        }
        assert forall|other: Seq<char>|
            other != entry.name@ && stored_value(original, other) is None implies stored_value(
            pushed,
            other,
        ) is None by {
            assert(original[0].name@ != other);
            assert(stored_value(pushed, other) == stored_value(pushed.drop_first(), other));
            assert(stored_value(original, other) == stored_value(original.drop_first(), other));
        }
    }
}

} // verus!
