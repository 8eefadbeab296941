//! A table keyed by qualified names.
//!
//! A qualified name is the name of a module together with the name of a field in that module.

use vstd::prelude::*;

verus! {

/// A qualified name: the bytes of a module's name and the bytes of a field's name.
pub type QualifiedName = (Seq<u8>, Seq<u8>);

/// The qualified name that two strings stand for.
pub open spec fn qualified(module_name: Seq<char>, field_name: Seq<char>) -> QualifiedName {
    (vstd::utf8::encode_utf8(module_name), vstd::utf8::encode_utf8(field_name))
}

/// Different pairs of strings are different qualified names.
pub proof fn law_qualified_names_are_distinct(
    module_name: Seq<char>,
    field_name: Seq<char>,
    other_module_name: Seq<char>,
    other_field_name: Seq<char>,
)
    ensures
        qualified(module_name, field_name) == qualified(other_module_name, other_field_name) <==> (
        module_name == other_module_name && field_name == other_field_name),
{
    broadcast use vstd::utf8::encode_utf8_decode_utf8;

    if qualified(module_name, field_name) == qualified(other_module_name, other_field_name) {
        assert(vstd::utf8::decode_utf8(vstd::utf8::encode_utf8(module_name)) == module_name);
        assert(vstd::utf8::decode_utf8(vstd::utf8::encode_utf8(field_name)) == field_name);
        assert(vstd::utf8::decode_utf8(vstd::utf8::encode_utf8(other_module_name))
            == other_module_name);
        assert(vstd::utf8::decode_utf8(vstd::utf8::encode_utf8(other_field_name))
            == other_field_name);
    }
}

/// What `table` holds under `name`.
pub open spec fn lookup<V>(table: Map<QualifiedName, V>, name: QualifiedName) -> Option<V> {
    if table.dom().contains(name) {
        Some(table[name])
    } else {
        None
    }
}

/// One entry of a [`NameTable`].
pub struct NameEntry<V> {
    pub module_name: Vec<u8>,
    pub field_name: Vec<u8>,
    pub value: V,
}

impl<V> NameEntry<V> {
    pub open spec fn name(self) -> QualifiedName {
        (self.module_name@, self.field_name@)
    }
}

/// A table that holds at most one value under each qualified name.
pub struct NameTable<V> {
    pub entries: Vec<NameEntry<V>>,
}

/// Tells whether two byte strings are equal.
pub fn same_bytes(a: &[u8], b: &[u8]) -> (r: bool)
    ensures
        r == (a@ == b@),
{
    if a.len() != b.len() {
        return false;
    }
    let mut i: usize = 0;
    while i < a.len()
        invariant
            i <= a.len(),
            a.len() == b.len(),
            forall|j: int| 0 <= j < i ==> a@[j] == b@[j],
        decreases a.len() - i,
    {
        if a[i] != b[i] {
            return false;
        }
        i = i + 1;
    }
    assert(a@ =~= b@);
    true
}

impl<V> NameTable<V> {
    /// No name occurs twice.
    pub open spec fn wf(self) -> bool {
        forall|i: int, j: int|
            0 <= i < j < self.entries@.len() ==> (#[trigger] self.entries@[i]).name() != (
            #[trigger] self.entries@[j]).name()
    }

    /// Whether entry `i` is the first one for `name`.
    pub open spec fn stands_at(self, name: QualifiedName, i: int) -> bool {
        &&& 0 <= i < self.entries@.len()
        &&& self.entries@[i].name() == name
        &&& forall|j: int| 0 <= j < i ==> (#[trigger] self.entries@[j]).name() != name
    }
}

impl<V> View for NameTable<V> {
    type V = Map<QualifiedName, V>;

    open spec fn view(&self) -> Map<QualifiedName, V> {
        Map::new(
            |name: QualifiedName| exists|i: int| self.stands_at(name, i),
            |name: QualifiedName| self.entries@[choose|i: int| self.stands_at(name, i)].value,
        )
    }
}

impl<V> NameTable<V> {
    /// The entry at which a name stands determines what the table holds under the name.
    proof fn lemma_entry(self, name: QualifiedName, i: int)
        requires
            self.stands_at(name, i),
        ensures
            lookup(self@, name) == Some(self.entries@[i].value),
    {
        let j = choose|j: int| self.stands_at(name, j);
        assert(self.stands_at(name, j));
        assert(i == j);
    }

    /// Creates an empty table.
    pub fn new() -> (r: NameTable<V>)
        ensures
            r.wf(),
            r@ == Map::<QualifiedName, V>::empty(),
    {
        let r = NameTable { entries: Vec::new() };
        assert(r@ =~= Map::<QualifiedName, V>::empty());
        r
    }

    /// Finds the position of the entry for a name, or the number of entries if there is none.
    fn position(&self, module_name: &[u8], field_name: &[u8]) -> (r: usize)
        ensures
            r <= self.entries@.len(),
            r < self.entries@.len() ==> self.stands_at((module_name@, field_name@), r as int),
            r == self.entries@.len() ==> forall|j: int|
                0 <= j < self.entries@.len() ==> (#[trigger] self.entries@[j]).name() != (
                    module_name@,
                    field_name@,
                ),
    {
        let mut i: usize = 0;
        while i < self.entries.len()
            invariant
                i <= self.entries@.len(),
                forall|j: int|
                    0 <= j < i ==> (#[trigger] self.entries@[j]).name() != (
                        module_name@,
                        field_name@,
                    ),
            decreases self.entries@.len() - i,
        {
            if same_bytes(self.entries[i].module_name.as_slice(), module_name) && same_bytes(
                self.entries[i].field_name.as_slice(),
                field_name,
            ) {
                return i;
            }
            i = i + 1;
        }
        i
    }

    /// Puts `value` under a name, in place of what stood there.
    pub fn insert(&mut self, module_name: Vec<u8>, field_name: Vec<u8>, value: V)
        ensures
            final(self)@ == old(self)@.insert((module_name@, field_name@), value),
            old(self).wf() ==> final(self).wf(),
    {
        let ghost name = (module_name@, field_name@);
        let ghost before = *self;
        let i = self.position(module_name.as_slice(), field_name.as_slice());
        let entry = NameEntry { module_name, field_name, value };
        if i < self.entries.len() {
            self.entries.set(i, entry);
        } else {
            self.entries.push(entry);
        }
        proof {
            let after = *self;
            assert(after.entries@[i as int] == entry && entry.name() == name);
            assert forall|j: int| 0 <= j < before.entries@.len() implies (
            #[trigger] after.entries@[j]).name() == before.entries@[j].name() by {}
            assert(after.stands_at(name, i as int)) by {
                assert forall|j: int| 0 <= j < i implies (#[trigger] after.entries@[j]).name()
                    != name by {
                    assert(before.entries@[j].name() != name);
                }
            }
            after.lemma_entry(name, i as int);
            assert forall|other: QualifiedName, j: int| other != name implies (
            #[trigger] after.stands_at(other, j)) == before.stands_at(other, j) by {
                if after.stands_at(other, j) {
                    assert forall|k: int| 0 <= k < j implies (#[trigger] before.entries@[k]).name()
                        != other by {
                        assert(after.entries@[k].name() != other);
                    }
                }
                if before.stands_at(other, j) {
                    assert forall|k: int| 0 <= k < j implies (#[trigger] after.entries@[k]).name()
                        != other by {
                        assert(before.entries@[k].name() != other);
                    }
                }
            }
            assert forall|other: QualifiedName| #[trigger]
                after@.dom().contains(other) == before@.insert(name, value).dom().contains(other) by {
                if after@.dom().contains(other) && other != name {
                    let j = choose|j: int| after.stands_at(other, j);
                    assert(after.stands_at(other, j));
                    assert(before.stands_at(other, j));
                }
                if before@.dom().contains(other) && other != name {
                    let j = choose|j: int| before.stands_at(other, j);
                    assert(before.stands_at(other, j));
                    assert(after.stands_at(other, j));
                }
            }
            assert forall|other: QualifiedName|
                after@.dom().contains(other) implies #[trigger] after@[other] == before@.insert(
                name,
                value,
            )[other] by {
                if other != name {
                    let j = choose|j: int| after.stands_at(other, j);
                    assert(after.stands_at(other, j));
                    assert(before.stands_at(other, j));
                    before.lemma_entry(other, j);
                    after.lemma_entry(other, j);
                }
            }
            assert(after@ =~= before@.insert(name, value));
        }
    }

    /// Returns what stands under a name.
    pub fn get(&self, module_name: &[u8], field_name: &[u8]) -> (r: Option<&V>)
        ensures
            match r {
                Some(value) => lookup(self@, (module_name@, field_name@)) == Some(*value),
                None => lookup(self@, (module_name@, field_name@)) is None,
            },
    {
        let i = self.position(module_name, field_name);
        if i < self.entries.len() {
            proof {
                self.lemma_entry((module_name@, field_name@), i as int);
            }
            Some(&self.entries[i].value)
        } else {
            None
        }
    }
}

} // verus!
