//! The environment in which a guest module is instantiated.

use crate::codec::{decode_environment, entry_views, Entry, EntryView, ExternEntity};
use crate::error::InstantiationError;
use crate::imports::{Imports, ImportsView};
use crate::mapping::{
    supervisor_func, GuestFuncIndex, GuestToSupervisorFunctionMapping, SupervisorFuncIndex,
};
use crate::memory::Memory;
use crate::names::{lookup, NameTable, QualifiedName};
use crate::store::Store;
use vstd::prelude::*;

verus! {

impl EntryView {
    /// The name under which this entry defines something.
    pub open spec fn name(self) -> QualifiedName {
        (self.module_name, self.field_name)
    }
}

/// The supervisor functions that `entries` define, in the order of their definitions.
pub open spec fn funcs_of(entries: Seq<EntryView>) -> Seq<SupervisorFuncIndex>
    decreases entries.len(),
{
    if entries.len() == 0 {
        Seq::empty()
    } else {
        let before = funcs_of(entries.drop_last());
        match entries.last().entity {
            ExternEntity::Function(func_idx) => before.push(SupervisorFuncIndex(func_idx as usize)),
            ExternEntity::Memory(_) => before,
        }
    }
}

/// The guest indices of the functions that `entries` define, by name.
///
/// A definition takes the place of an earlier one under the same name.
pub open spec fn func_map_of(entries: Seq<EntryView>) -> Map<QualifiedName, GuestFuncIndex>
    decreases entries.len(),
{
    if entries.len() == 0 {
        Map::empty()
    } else {
        let before = func_map_of(entries.drop_last());
        match entries.last().entity {
            ExternEntity::Function(_) => before.insert(
                entries.last().name(),
                GuestFuncIndex(funcs_of(entries.drop_last()).len() as usize),
            ),
            ExternEntity::Memory(_) => before,
        }
    }
}

/// The memory that stands at index `memory_idx` of `memories`, unless it has been torn down.
pub open spec fn live_memory(memories: Seq<Option<Memory>>, memory_idx: u32) -> Option<Memory> {
    if memory_idx < memories.len() {
        memories[memory_idx as int]
    } else {
        None
    }
}

/// The memories that `entries` define, by name, where the indices refer to `memories`.
///
/// A definition takes the place of an earlier one under the same name.
pub open spec fn memory_map_of(
    entries: Seq<EntryView>,
    memories: Seq<Option<Memory>>,
) -> Map<QualifiedName, Memory>
    decreases entries.len(),
{
    if entries.len() == 0 {
        Map::empty()
    } else {
        let before = memory_map_of(entries.drop_last(), memories);
        match entries.last().entity {
            ExternEntity::Function(_) => before,
            ExternEntity::Memory(memory_idx) => before.insert(
                entries.last().name(),
                live_memory(memories, memory_idx)->Some_0,
            ),
        }
    }
}

/// Whether every memory that `entries` refer to exists and has not been torn down.
pub open spec fn memories_are_live(
    entries: Seq<EntryView>,
    memories: Seq<Option<Memory>>,
) -> bool {
    forall|i: int|
        0 <= i < entries.len() ==> ((#[trigger] entries[i]).entity matches ExternEntity::Memory(
            memory_idx,
        ) ==> live_memory(memories, memory_idx) is Some)
}

/// The names and the functions that `entries` define, or the error if they refer to a memory that
/// does not exist or has been torn down.
pub open spec fn environment_of(
    entries: Seq<EntryView>,
    memories: Seq<Option<Memory>>,
) -> Result<(ImportsView, Seq<SupervisorFuncIndex>), InstantiationError> {
    if memories_are_live(entries, memories) {
        Ok(
            (
                ImportsView {
                    funcs: func_map_of(entries),
                    memories: memory_map_of(entries, memories),
                },
                funcs_of(entries),
            ),
        )
    } else {
        Err(InstantiationError::EnvironmentDefinitionCorrupted)
    }
}

/// The names and the functions that a raw environment definition defines.
pub open spec fn raw_environment_of(
    raw_env_def: Seq<u8>,
    memories: Seq<Option<Memory>>,
) -> Result<(ImportsView, Seq<SupervisorFuncIndex>), InstantiationError> {
    match crate::codec::decoded_environment(raw_env_def) {
        None => Err(InstantiationError::EnvironmentDefinitionCorrupted),
        Some(entries) => environment_of(entries, memories),
    }
}

/// What a pair of imports and a mapping stands for.
pub open spec fn definition_view(
    r: Result<(Imports, GuestToSupervisorFunctionMapping), InstantiationError>,
) -> Result<(ImportsView, Seq<SupervisorFuncIndex>), InstantiationError> {
    match r {
        Ok((imports, mapping)) => Ok((imports@, mapping@)),
        Err(error) => Err(error),
    }
}

/// Whether every function that can be imported has a supervisor function behind it.
pub open spec fn funcs_are_mapped(
    funcs_by_name: Map<QualifiedName, GuestFuncIndex>,
    funcs: Seq<SupervisorFuncIndex>,
) -> bool {
    forall|name: QualifiedName| #[trigger]
        funcs_by_name.dom().contains(name) ==> funcs_by_name[name].0 < funcs.len()
}

/// Defines the functions and memories that the entries of an environment definition list.
pub fn define_entries(entries: &Vec<Entry>, memories: &[Option<Memory>]) -> (r: Result<
    (Imports, GuestToSupervisorFunctionMapping),
    InstantiationError,
>)
    ensures
        definition_view(r) == environment_of(entry_views(entries@), memories@),
        r matches Ok((imports, mapping)) ==> imports.wf() && funcs_are_mapped(
            imports@.funcs,
            mapping@,
        ),
{
    let ghost all = entry_views(entries@);
    let mut func_map: NameTable<GuestFuncIndex> = NameTable::new();
    let mut memories_map: NameTable<Memory> = NameTable::new();
    let mut guest_to_supervisor_mapping = GuestToSupervisorFunctionMapping::new();
    let mut i: usize = 0;
    assert(all.take(0) =~= Seq::empty());
    while i < entries.len()
        invariant
            i <= entries@.len(),
            all == entry_views(entries@),
            func_map.wf(),
            memories_map.wf(),
            func_map@ == func_map_of(all.take(i as int)),
            memories_map@ == memory_map_of(all.take(i as int), memories@),
            guest_to_supervisor_mapping@ == funcs_of(all.take(i as int)),
            memories_are_live(all.take(i as int), memories@),
            funcs_are_mapped(func_map@, guest_to_supervisor_mapping@),
        decreases entries@.len() - i,
    {
        let entry = &entries[i];
        proof {
            assert(all.take(i + 1).drop_last() =~= all.take(i as int));
            assert(all.take(i + 1).last() == entry@);
        }
        let module = copy_bytes(&entry.module_name);
        let field = copy_bytes(&entry.field_name);
        match entry.entity {
            ExternEntity::Function(func_idx) => {
                let externals_idx = guest_to_supervisor_mapping.define(
                    SupervisorFuncIndex(func_idx as usize),
                );
                func_map.insert(module, field, externals_idx);
            },
            ExternEntity::Memory(memory_idx) => {
                let memory_ref = match find_memory(memories, memory_idx) {
                    Some(memory) => memory,
                    None => {
                        proof {
                            assert(all[i as int] == entry@);
                            assert(!memories_are_live(all, memories@));
                        }
                        return Err(InstantiationError::EnvironmentDefinitionCorrupted);
                    },
                };
                memories_map.insert(module, field, memory_ref);
            },
        }
        proof {
            assert forall|j: int| 0 <= j < all.take(i + 1).len() implies ((
            #[trigger] all.take(i + 1)[j]).entity matches ExternEntity::Memory(memory_idx)
                ==> live_memory(memories@, memory_idx) is Some) by {
                if j < i {
                    assert(all.take(i + 1)[j] == all.take(i as int)[j]);
                }
            }
        }
        i = i + 1;
    }
    assert(all.take(i as int) =~= all);
    Ok((Imports { func_map, memories_map }, guest_to_supervisor_mapping))
}

/// Copies a byte string.
fn copy_bytes(bytes: &Vec<u8>) -> (r: Vec<u8>)
    ensures
        r@ == bytes@,
{
    let r = bytes.clone();
    assert(r@ =~= bytes@);
    r
}

/// Finds a memory that has not been torn down.
pub fn find_memory(memories: &[Option<Memory>], memory_idx: u32) -> (r: Option<Memory>)
    ensures
        r == live_memory(memories@, memory_idx),
{
    if (memory_idx as usize) < memories.len() {
        match &memories[memory_idx as usize] {
            Some(memory) => Some(memory.clone()),
            None => None,
        }
    } else {
        None
    }
}

/// Decodes an environment definition and defines what its entries list.
pub fn decode_environment_definition(raw_env_def: &[u8], memories: &[Option<Memory>]) -> (r: Result<
    (Imports, GuestToSupervisorFunctionMapping),
    InstantiationError,
>)
    ensures
        definition_view(r) == raw_environment_of(raw_env_def@, memories@),
        r matches Ok((imports, mapping)) ==> imports.wf() && funcs_are_mapped(
            imports@.funcs,
            mapping@,
        ),
{
    match decode_environment(raw_env_def) {
        Some(entries) => define_entries(&entries, memories),
        None => Err(InstantiationError::EnvironmentDefinitionCorrupted),
    }
}

/// An environment in which the guest module is instantiated.
pub struct GuestEnvironment {
    /// Function and memory imports of the guest module.
    pub imports: Imports,
    /// Supervisor functions mapped to the guest index space.
    pub guest_to_supervisor_mapping: GuestToSupervisorFunctionMapping,
}

impl View for GuestEnvironment {
    type V = (ImportsView, Seq<SupervisorFuncIndex>);

    open spec fn view(&self) -> (ImportsView, Seq<SupervisorFuncIndex>) {
        (self.imports@, self.guest_to_supervisor_mapping@)
    }
}

impl GuestEnvironment {
    /// No name occurs twice, and every function that can be imported has a supervisor function
    /// behind it.
    pub open spec fn wf(self) -> bool {
        self.imports.wf() && funcs_are_mapped(
            self.imports@.funcs,
            self.guest_to_supervisor_mapping@,
        )
    }

    /// Decodes an environment definition from the given raw bytes.
    ///
    /// Returns `Err` if the definition cannot be decoded.
    pub fn decode<FR>(store: &Store<FR>, raw_env_def: &[u8]) -> (r: Result<
        Self,
        InstantiationError,
    >)
        ensures
            match raw_environment_of(raw_env_def@, store.memories@) {
                Ok(environment) => r matches Ok(guest_env) && guest_env@ == environment
                    && guest_env.wf(),
                Err(error) => r matches Err(given) && given == error,
            },
    {
        match decode_environment_definition(raw_env_def, store.memories.as_slice()) {
            Ok((imports, guest_to_supervisor_mapping)) => Ok(
                GuestEnvironment { imports, guest_to_supervisor_mapping },
            ),
            Err(error) => Err(error),
        }
    }
}

/// The supervisor function that a guest reaches when it calls what it imported under `name`.
pub open spec fn reached_func(entries: Seq<EntryView>, name: QualifiedName) -> Option<
    SupervisorFuncIndex,
> {
    match lookup(func_map_of(entries), name) {
        Some(index) => supervisor_func(funcs_of(entries), index),
        None => None,
    }
}

/// Whether entry `i` is the last one that defines a function under its name.
pub open spec fn is_last_func(entries: Seq<EntryView>, i: int) -> bool {
    &&& 0 <= i < entries.len()
    &&& entries[i].entity is Function
    &&& forall|j: int|
        i < j < entries.len() && (#[trigger] entries[j]).entity is Function ==> entries[j].name()
            != entries[i].name()
}

/// Whether entry `i` is the last one that defines a memory under its name.
pub open spec fn is_last_memory(entries: Seq<EntryView>, i: int) -> bool {
    &&& 0 <= i < entries.len()
    &&& entries[i].entity is Memory
    &&& forall|j: int|
        i < j < entries.len() && (#[trigger] entries[j]).entity is Memory ==> entries[j].name()
            != entries[i].name()
}

proof fn lemma_funcs_bounded(entries: Seq<EntryView>)
    ensures
        funcs_of(entries).len() <= entries.len(),
    decreases entries.len(),
{
    if entries.len() > 0 {
        lemma_funcs_bounded(entries.drop_last());
    }
}

/// Every function that an environment definition offers for import has a supervisor function
/// behind it, so that a call of an import never goes astray.
pub proof fn law_every_import_is_mapped(entries: Seq<EntryView>)
    requires
        entries.len() <= usize::MAX,
    ensures
        funcs_are_mapped(func_map_of(entries), funcs_of(entries)),
    decreases entries.len(),
{
    if entries.len() > 0 {
        law_every_import_is_mapped(entries.drop_last());
        lemma_funcs_bounded(entries.drop_last());
    }
}

/// A guest that calls what it imported under a name reaches the supervisor function that the last
/// definition under this name gives.
pub proof fn law_import_reaches_last_definition(entries: Seq<EntryView>, i: int)
    requires
        entries.len() <= usize::MAX,
        is_last_func(entries, i),
    ensures
        reached_func(entries, entries[i].name()) == Some(
            SupervisorFuncIndex(entries[i].entity->Function_0 as usize),
        ),
    decreases entries.len(),
{
    let shorter = entries.drop_last();
    lemma_funcs_bounded(shorter);
    if i < entries.len() - 1 {
        assert(is_last_func(shorter, i)) by {
            assert forall|j: int|
                i < j < shorter.len() && (#[trigger] shorter[j]).entity is Function implies shorter[j].name()
                != shorter[i].name() by {
                assert(entries[j] == shorter[j]);
            }
        }
        law_import_reaches_last_definition(shorter, i);
        law_every_import_is_mapped(shorter);
        assert(entries.last() == entries[entries.len() - 1]);
    }
}

/// If every memory that entries refer to is live, so is every one that all but the last refer to.
pub(crate) proof fn lemma_shorter_is_live(
    entries: Seq<EntryView>,
    memories: Seq<Option<Memory>>,
)
    requires
        memories_are_live(entries, memories),
        entries.len() > 0,
    ensures
        memories_are_live(entries.drop_last(), memories),
{
    let shorter = entries.drop_last();
    assert forall|j: int| 0 <= j < shorter.len() implies ((
    #[trigger] shorter[j]).entity matches ExternEntity::Memory(memory_idx) ==> live_memory(
        memories,
        memory_idx,
    ) is Some) by {
        assert(entries[j] == shorter[j]);
    }
}

/// A guest that imports a memory under a name gets the memory that the last definition under this
/// name refers to.
pub proof fn law_import_gets_last_memory(
    entries: Seq<EntryView>,
    memories: Seq<Option<Memory>>,
    i: int,
)
    requires
        memories_are_live(entries, memories),
        is_last_memory(entries, i),
    ensures
        lookup(memory_map_of(entries, memories), entries[i].name()) == live_memory(
            memories,
            entries[i].entity->Memory_0,
        ),
        entries[i].entity->Memory_0 < memories.len(),
        lookup(memory_map_of(entries, memories), entries[i].name())
            == memories[entries[i].entity->Memory_0 as int],
        memories[entries[i].entity->Memory_0 as int] is Some,
    decreases entries.len(),
{
    let shorter = entries.drop_last();
    assert(live_memory(memories, entries[i].entity->Memory_0) is Some);
    if i < entries.len() - 1 {
        assert(is_last_memory(shorter, i)) by {
            assert forall|j: int|
                i < j < shorter.len() && (#[trigger] shorter[j]).entity is Memory implies shorter[j].name()
                != shorter[i].name() by {
                assert(entries[j] == shorter[j]);
            }
        }
        lemma_shorter_is_live(entries, memories);
        law_import_gets_last_memory(shorter, memories, i);
        assert(entries.last() == entries[entries.len() - 1]);
    }
}

/// A name under which a function can be imported is one that an entry defines a function under.
pub(crate) proof fn lemma_func_is_defined(entries: Seq<EntryView>, name: QualifiedName)
    requires
        func_map_of(entries).dom().contains(name),
    ensures
        exists|i: int| is_last_func(entries, i) && #[trigger] entries[i].name() == name,
    decreases entries.len(),
{
    let shorter = entries.drop_last();
    let last = entries.len() - 1;
    assert(entries.last() == entries[last]);
    if entries[last].entity is Function && entries[last].name() == name {
        assert(is_last_func(entries, last));
    } else {
        lemma_func_is_defined(shorter, name);
        let i = choose|i: int| is_last_func(shorter, i) && #[trigger] shorter[i].name() == name;
        assert(entries[i] == shorter[i]);
        assert(is_last_func(entries, i)) by {
            assert forall|j: int|
                i < j < entries.len() && (#[trigger] entries[j]).entity is Function implies entries[j].name()
                != entries[i].name() by {
                if j < last {
                    assert(entries[j] == shorter[j]);
                }
            }
        }
    }
}

/// A name under which a memory can be imported is one that an entry defines a memory under.
pub(crate) proof fn lemma_memory_is_defined(
    entries: Seq<EntryView>,
    memories: Seq<Option<Memory>>,
    name: QualifiedName,
)
    requires
        memory_map_of(entries, memories).dom().contains(name),
    ensures
        exists|i: int| is_last_memory(entries, i) && #[trigger] entries[i].name() == name,
    decreases entries.len(),
{
    let shorter = entries.drop_last();
    let last = entries.len() - 1;
    assert(entries.last() == entries[last]);
    if entries[last].entity is Memory && entries[last].name() == name {
        assert(is_last_memory(entries, last));
    } else {
        lemma_memory_is_defined(shorter, memories, name);
        let i = choose|i: int| is_last_memory(shorter, i) && #[trigger] shorter[i].name() == name;
        assert(entries[i] == shorter[i]);
        assert(is_last_memory(entries, i)) by {
            assert forall|j: int|
                i < j < entries.len() && (#[trigger] entries[j]).entity is Memory implies entries[j].name()
                != entries[i].name() by {
                if j < last {
                    assert(entries[j] == shorter[j]);
                }
            }
        }
    }
}

/// A guest can import functions under exactly the names that entries define functions under. What
/// stands behind such a name is the supervisor function that the last of these entries gives.
pub proof fn law_environment_offers_defined_functions(
    entries: Seq<EntryView>,
    memories: Seq<Option<Memory>>,
    environment: (ImportsView, Seq<SupervisorFuncIndex>),
    name: QualifiedName,
)
    requires
        entries.len() <= usize::MAX,
        environment_of(entries, memories) == Ok::<_, InstantiationError>(environment),
    ensures
        environment.0.funcs.dom().contains(name) <==> exists|i: int|
            0 <= i < entries.len() && (#[trigger] entries[i]).entity is Function
                && entries[i].name() == name,
        environment.0.funcs.dom().contains(name) ==> exists|i: int|
            is_last_func(entries, i) && (#[trigger] entries[i]).name() == name
                && environment.0.funcs[name].0 < environment.1.len()
                && environment.1[environment.0.funcs[name].0 as int] == SupervisorFuncIndex(
                entries[i].entity->Function_0 as usize,
            ),
{
    if environment.0.funcs.dom().contains(name) {
        lemma_func_is_defined(entries, name);
        let i = choose|i: int| is_last_func(entries, i) && #[trigger] entries[i].name() == name;
        law_import_reaches_last_definition(entries, i);
        law_every_import_is_mapped(entries);
        assert(entries[i].name() == name);
    }
    if exists|i: int|
        0 <= i < entries.len() && (#[trigger] entries[i]).entity is Function && entries[i].name()
            == name {
        let i = choose|i: int|
            0 <= i < entries.len() && (#[trigger] entries[i]).entity is Function
                && entries[i].name() == name;
        lemma_defined_func_is_offered(entries, i);
    }
}

proof fn lemma_defined_func_is_offered(entries: Seq<EntryView>, i: int)
    requires
        0 <= i < entries.len(),
        entries[i].entity is Function,
    ensures
        func_map_of(entries).dom().contains(entries[i].name()),
    decreases entries.len(),
{
    if i < entries.len() - 1 {
        lemma_defined_func_is_offered(entries.drop_last(), i);
    }
}

/// A guest can import memories under exactly the names that entries define memories under. What it
/// gets is the memory that the last of these entries refers to.
pub proof fn law_environment_offers_defined_memories(
    entries: Seq<EntryView>,
    memories: Seq<Option<Memory>>,
    environment: (ImportsView, Seq<SupervisorFuncIndex>),
    name: QualifiedName,
)
    requires
        environment_of(entries, memories) == Ok::<_, InstantiationError>(environment),
    ensures
        environment.0.memories.dom().contains(name) <==> exists|i: int|
            0 <= i < entries.len() && (#[trigger] entries[i]).entity is Memory && entries[i].name()
                == name,
        environment.0.memories.dom().contains(name) ==> exists|i: int|
            is_last_memory(entries, i) && (#[trigger] entries[i]).name() == name
                && entries[i].entity->Memory_0 < memories.len()
                && memories[entries[i].entity->Memory_0 as int] == Some(
                environment.0.memories[name],
            ),
{
    if environment.0.memories.dom().contains(name) {
        lemma_memory_is_defined(entries, memories, name);
        let i = choose|i: int| is_last_memory(entries, i) && #[trigger] entries[i].name() == name;
        law_import_gets_last_memory(entries, memories, i);
        assert(entries[i].name() == name);
    }
    if exists|i: int|
        0 <= i < entries.len() && (#[trigger] entries[i]).entity is Memory && entries[i].name()
            == name {
        let i = choose|i: int|
            0 <= i < entries.len() && (#[trigger] entries[i]).entity is Memory && entries[i].name()
                == name;
        lemma_defined_memory_is_offered(entries, memories, i);
    }
}

proof fn lemma_defined_memory_is_offered(
    entries: Seq<EntryView>,
    memories: Seq<Option<Memory>>,
    i: int,
)
    requires
        0 <= i < entries.len(),
        entries[i].entity is Memory,
    ensures
        memory_map_of(entries, memories).dom().contains(entries[i].name()),
    decreases entries.len(),
{
    if i < entries.len() - 1 {
        lemma_defined_memory_is_offered(entries.drop_last(), memories, i);
    }
}

/// An environment definition is refused exactly if it does not decode or one of its entries refers
/// to a memory that does not exist or has been torn down.
pub proof fn law_environment_is_refused(raw_env_def: Seq<u8>, memories: Seq<Option<Memory>>)
    ensures
        raw_environment_of(raw_env_def, memories) is Err <==> match crate::codec::decoded_environment(
            raw_env_def,
        ) {
            None => true,
            Some(entries) => exists|i: int|
                0 <= i < entries.len() && ((#[trigger] entries[i]).entity matches ExternEntity::Memory(
                    memory_idx,
                ) && (memory_idx >= memories.len() || memories[memory_idx as int] is None)),
        },
        raw_environment_of(raw_env_def, memories) matches Err(error) ==> error
            == InstantiationError::EnvironmentDefinitionCorrupted,
{
    if let Some(entries) = crate::codec::decoded_environment(raw_env_def) {
        if raw_environment_of(raw_env_def, memories) is Err {
            let i = choose|i: int|
                0 <= i < entries.len() && !((#[trigger] entries[i]).entity matches ExternEntity::Memory(
                    memory_idx,
                ) ==> live_memory(memories, memory_idx) is Some);
            assert(entries[i].entity is Memory);
        }
        if exists|i: int|
            0 <= i < entries.len() && ((#[trigger] entries[i]).entity matches ExternEntity::Memory(
                memory_idx,
            ) && (memory_idx >= memories.len() || memories[memory_idx as int] is None)) {
            let i = choose|i: int|
                0 <= i < entries.len() && ((#[trigger] entries[i]).entity matches ExternEntity::Memory(
                    memory_idx,
                ) && (memory_idx >= memories.len() || memories[memory_idx as int] is None));
            assert(live_memory(memories, entries[i].entity->Memory_0) is None);
        }
    }
}

/// Nothing can be imported under a name that no entry defines.
pub proof fn law_undefined_names_are_absent(
    entries: Seq<EntryView>,
    memories: Seq<Option<Memory>>,
    name: QualifiedName,
)
    requires
        forall|i: int| 0 <= i < entries.len() ==> (#[trigger] entries[i]).name() != name,
    ensures
        lookup(func_map_of(entries), name) is None,
        lookup(memory_map_of(entries, memories), name) is None,
    decreases entries.len(),
{
    if entries.len() > 0 {
        let shorter = entries.drop_last();
        assert forall|i: int| 0 <= i < shorter.len() implies (#[trigger] shorter[i]).name()
            != name by {
            assert(entries[i] == shorter[i]);
        }
        law_undefined_names_are_absent(shorter, memories, name);
        assert(entries.last() == entries[entries.len() - 1]);
    }
}

} // verus!
