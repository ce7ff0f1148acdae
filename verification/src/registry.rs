//! The data source registry: named resources, each with a mutable manifest
//! pointer that only its owner may change.
//!
//! A resource is stored under the identifier derived from its name and its
//! owner. It exists exactly when the owner recorded at that identifier is
//! not the zero address; existence and ownership are one read.

use vstd::prelude::*;
use crate::identifier::{
    abi_encode_id, bytes_eq, is_zero_address, resource_id, zero_address, Address, Bytes32,
};

verus! {

/// Why a registry operation was refused.
#[derive(Clone, Copy, Debug, PartialEq, Eq, Structural)]
pub enum DatasourceRegistryError {
    /// The caller is not the recorded owner of the data source.
    NotOwner,
    /// No data source exists at the derived identifier.
    DataSourceNotFound,
    /// A data source already exists at the derived identifier.
    DataSourceAlreadyExists,
}

/// One stored data source.
#[derive(Clone, Debug, PartialEq, Eq)]
pub struct StorageDataSource {
    /// Set at creation, never changed.
    pub name: String,
    /// Reference to the current manifest; empty until the owner sets it.
    pub manifest_cid: String,
    /// Set at creation, never changed. Zero means "no data source here".
    pub owner: Address,
}

/// What a [`StorageDataSource`] holds, as mathematical values.
pub struct DataSourceView {
    pub name: Seq<char>,
    pub manifest_cid: Seq<char>,
    pub owner: Seq<u8>,
}

impl View for StorageDataSource {
    type V = DataSourceView;

    open spec fn view(&self) -> DataSourceView {
        DataSourceView { name: self.name@, manifest_cid: self.manifest_cid@, owner: self.owner@ }
    }
}

/// A record that the registry emits when it commits a change.
#[derive(Clone, Debug, PartialEq, Eq)]
pub enum RegistryEvent {
    /// A data source was created.
    DataSourceCreated { id: Bytes32, owner: Address, name: String },
    /// The manifest pointer of a data source was replaced.
    DataSourceUpdated { id: Bytes32, new_manifest_cid: String },
}

/// What a [`RegistryEvent`] holds, as mathematical values.
pub enum RegistryEventView {
    DataSourceCreated { id: Seq<u8>, owner: Seq<u8>, name: Seq<char> },
    DataSourceUpdated { id: Seq<u8>, new_manifest_cid: Seq<char> },
}

impl View for RegistryEvent {
    type V = RegistryEventView;

    open spec fn view(&self) -> RegistryEventView {
        match *self {
            RegistryEvent::DataSourceCreated { id, owner, name } => {
                RegistryEventView::DataSourceCreated { id: id@, owner: owner@, name: name@ }
            },
            RegistryEvent::DataSourceUpdated { id, new_manifest_cid } => {
                RegistryEventView::DataSourceUpdated {
                    id: id@,
                    new_manifest_cid: new_manifest_cid@,
                }
            },
        }
    }
}

/// The registry as a mathematical value: what every contract below speaks of.
pub struct RegistryView {
    /// Identifier to record. An identifier outside the domain reads as a
    /// record whose owner is zero.
    pub data_sources: Map<Seq<u8>, DataSourceView>,
    /// Owner to the identifiers it registered, oldest first. An owner
    /// outside the domain has registered nothing.
    pub owned: Map<Seq<u8>, Seq<Seq<u8>>>,
    /// Every record emitted so far, oldest first.
    pub events: Seq<RegistryEventView>,
}

impl RegistryView {
    /// The registry in which nothing was ever registered.
    pub open spec fn empty() -> RegistryView {
        RegistryView { data_sources: Map::empty(), owned: Map::empty(), events: Seq::empty() }
    }

    /// The owner recorded at `id`; zero where nothing is recorded.
    pub open spec fn owner_of(self, id: Seq<u8>) -> Seq<u8> {
        if self.data_sources.contains_key(id) {
            self.data_sources[id].owner
        } else {
            zero_address()
        }
    }

    /// Whether a data source exists at `id`.
    pub open spec fn exists_at(self, id: Seq<u8>) -> bool {
        self.owner_of(id) != zero_address()
    }

    /// The identifiers that `owner` registered, in registration order.
    pub open spec fn owned_by(self, owner: Seq<u8>) -> Seq<Seq<u8>> {
        ids_in(self.owned, owner)
    }

    /// The registry after `caller` has created the data source `name`.
    pub open spec fn registered(self, name: Seq<char>, caller: Seq<u8>) -> RegistryView {
        let id = resource_id(name, caller);
        RegistryView {
            data_sources: self.data_sources.insert(
                id,
                DataSourceView { name, manifest_cid: Seq::empty(), owner: caller },
            ),
            owned: self.owned.insert(caller, self.owned_by(caller).push(id)),
            events: self.events.push(
                RegistryEventView::DataSourceCreated { id, owner: caller, name },
            ),
        }
    }

    /// The registry after the manifest pointer at `id` was replaced by `cid`.
    pub open spec fn updated(self, id: Seq<u8>, cid: Seq<char>) -> RegistryView {
        RegistryView {
            data_sources: self.data_sources.insert(
                id,
                DataSourceView { manifest_cid: cid, ..self.data_sources[id] },
            ),
            owned: self.owned,
            events: self.events.push(
                RegistryEventView::DataSourceUpdated { id, new_manifest_cid: cid },
            ),
        }
    }

    /// What `register` answers to `caller` for `name`.
    pub open spec fn register_result(self, name: Seq<char>, caller: Seq<u8>) -> Result<
        Seq<u8>,
        DatasourceRegistryError,
    > {
        if self.exists_at(resource_id(name, caller)) {
            Err(DatasourceRegistryError::DataSourceAlreadyExists)
        } else {
            Ok(resource_id(name, caller))
        }
    }

    /// The registry that `register` leaves behind.
    pub open spec fn after_register(self, name: Seq<char>, caller: Seq<u8>) -> RegistryView {
        if self.exists_at(resource_id(name, caller)) {
            self
        } else {
            self.registered(name, caller)
        }
    }

    /// What `update` answers to `caller` for `name`.
    pub open spec fn update_result(self, name: Seq<char>, caller: Seq<u8>) -> Result<
        (),
        DatasourceRegistryError,
    > {
        let id = resource_id(name, caller);
        if !self.exists_at(id) {
            Err(DatasourceRegistryError::DataSourceNotFound)
        } else if self.owner_of(id) != caller {
            Err(DatasourceRegistryError::NotOwner)
        } else {
            Ok(())
        }
    }

    /// The registry that `update` leaves behind.
    pub open spec fn after_update(
        self,
        name: Seq<char>,
        cid: Seq<char>,
        caller: Seq<u8>,
    ) -> RegistryView {
        if self.update_result(name, caller) is Ok {
            self.updated(resource_id(name, caller), cid)
        } else {
            self
        }
    }

    /// What `get` answers for the data source `name` of `owner`.
    pub open spec fn get_result(self, owner: Seq<u8>, name: Seq<char>) -> Result<
        Seq<char>,
        DatasourceRegistryError,
    > {
        let id = resource_id(name, owner);
        if self.exists_at(id) {
            Ok(self.data_sources[id].manifest_cid)
        } else {
            Err(DatasourceRegistryError::DataSourceNotFound)
        }
    }
}

/// The list stored for `owner` in an owner index; empty where none is.
pub open spec fn ids_in(owned: Map<Seq<u8>, Seq<Seq<u8>>>, owner: Seq<u8>) -> Seq<Seq<u8>> {
    if owned.contains_key(owner) {
        owned[owner]
    } else {
        Seq::empty()
    }
}

/// The records that a list of `(identifier, record)` entries stands for.
/// Where an identifier occurs more than once, the last entry counts.
pub open spec fn sources_of(entries: Seq<(Bytes32, StorageDataSource)>) -> Map<
    Seq<u8>,
    DataSourceView,
>
    decreases entries.len(),
{
    if entries.len() == 0 {
        Map::empty()
    } else {
        sources_of(entries.drop_last()).insert(entries.last().0@, entries.last().1@)
    }
}

/// The owner index that a registration log of `(owner, identifier)` pairs
/// stands for: each owner's identifiers in the order of the log.
pub open spec fn owned_of(log: Seq<(Address, Bytes32)>) -> Map<Seq<u8>, Seq<Seq<u8>>>
    decreases log.len(),
{
    if log.len() == 0 {
        Map::empty()
    } else {
        let earlier = owned_of(log.drop_last());
        let owner = log.last().0@;
        earlier.insert(owner, ids_in(earlier, owner).push(log.last().1@))
    }
}

/// The views of a list of events, in the same order.
pub open spec fn events_of(events: Seq<RegistryEvent>) -> Seq<RegistryEventView> {
    events.map_values(|e: RegistryEvent| e@)
}

/// The views of a list of identifiers, in the same order.
pub open spec fn ids_of(ids: Seq<Bytes32>) -> Seq<Seq<u8>> {
    ids.map_values(|id: Bytes32| id@)
}

/// No entry of the list carries `id`.
spec fn absent(entries: Seq<(Bytes32, StorageDataSource)>, id: Seq<u8>) -> bool {
    forall|j: int| 0 <= j < entries.len() ==> (#[trigger] entries[j]).0@ != id
}

/// Entry `i` carries `id`, and no later entry does.
spec fn last_at(entries: Seq<(Bytes32, StorageDataSource)>, id: Seq<u8>, i: int) -> bool {
    &&& 0 <= i < entries.len()
    &&& entries[i].0@ == id
    &&& forall|j: int| i < j < entries.len() ==> (#[trigger] entries[j]).0@ != id
}

/// An identifier that no entry carries has no record.
proof fn lemma_absent_not_stored(entries: Seq<(Bytes32, StorageDataSource)>, id: Seq<u8>)
    requires
        absent(entries, id),
    ensures
        !sources_of(entries).contains_key(id),
    decreases entries.len(),
{
    if entries.len() > 0 {
        lemma_absent_not_stored(entries.drop_last(), id);
    }
}

/// The record of an identifier is that of the last entry that carries it.
proof fn lemma_last_is_stored(entries: Seq<(Bytes32, StorageDataSource)>, id: Seq<u8>, i: int)
    requires
        last_at(entries, id, i),
    ensures
        sources_of(entries).contains_key(id),
        sources_of(entries)[id] == entries[i].1@,
    decreases entries.len(),
{
    if i < entries.len() - 1 {
        lemma_last_is_stored(entries.drop_last(), id, i);
    }
}

/// Replacing the last entry of an identifier overwrites its record and
/// touches no other.
proof fn lemma_replace_last(
    entries: Seq<(Bytes32, StorageDataSource)>,
    i: int,
    entry: (Bytes32, StorageDataSource),
)
    requires
        last_at(entries, entry.0@, i),
    ensures
        sources_of(entries.update(i, entry)) == sources_of(entries).insert(entry.0@, entry.1@),
    decreases entries.len(),
{
    let replaced = entries.update(i, entry);
    let earlier = entries.drop_last();
    if i == entries.len() - 1 {
        assert(replaced.drop_last() =~= earlier);
    } else {
        lemma_replace_last(earlier, i, entry);
        assert(replaced.drop_last() =~= earlier.update(i, entry));
    }
}

/// Index of the last entry that carries `id`, if any does.
fn find_entry(entries: &Vec<(Bytes32, StorageDataSource)>, id: &Bytes32) -> (found: Option<usize>)
    ensures
        match found {
            Some(i) => last_at(entries@, id@, i as int),
            None => absent(entries@, id@),
        },
{
    let mut i: usize = entries.len();
    while i > 0
        invariant
            i <= entries.len(),
            forall|j: int| i <= j < entries.len() ==> (#[trigger] entries@[j]).0@ != id@,
        decreases i,
    {
        i -= 1;
        if bytes_eq(&entries[i].0, id) {
            return Some(i);
        }
    }
    None
}

/// The registry: data sources by identifier, the owner index, and the
/// records emitted so far.
pub struct DatasourceRegistry {
    /// Every registration as `(owner, identifier)`, oldest first.
    owned: Vec<(Address, Bytes32)>,
    /// `(identifier, record)` entries; the last entry of an identifier counts.
    data_sources: Vec<(Bytes32, StorageDataSource)>,
    /// Every record emitted so far, oldest first.
    events: Vec<RegistryEvent>,
}

impl View for DatasourceRegistry {
    type V = RegistryView;

    closed spec fn view(&self) -> RegistryView {
        RegistryView {
            data_sources: sources_of(self.data_sources@),
            owned: owned_of(self.owned@),
            events: events_of(self.events@),
        }
    }
}

impl DatasourceRegistry {
    /// A registry in which nothing is registered.
    pub fn new() -> (registry: Self)
        ensures
            registry@ == RegistryView::empty(),
    {
        let registry = DatasourceRegistry {
            owned: Vec::new(),
            data_sources: Vec::new(),
            events: Vec::new(),
        };
        assert(events_of(registry.events@) =~= Seq::empty());
        registry
    }

    /// A registry rebuilt from what a host has persisted: `data_sources` as
    /// `(identifier, record)` entries, of which the last one of an identifier
    /// counts, and `owned` as the registrations in their order. No record has
    /// been emitted by it yet.
    pub fn restore(
        data_sources: Vec<(Bytes32, StorageDataSource)>,
        owned: Vec<(Address, Bytes32)>,
    ) -> (registry: Self)
        ensures
            registry@ == (RegistryView {
                data_sources: sources_of(data_sources@),
                owned: owned_of(owned@),
                events: Seq::empty(),
            }),
    {
        let registry = DatasourceRegistry { owned, data_sources, events: Vec::new() };
        assert(events_of(registry.events@) =~= Seq::empty());
        registry
    }

    /// Creates the data source `name` for `sender`, with an empty manifest
    /// pointer, and returns its identifier.
    ///
    /// Refused with `DataSourceAlreadyExists`, and nothing changes, where a
    /// data source exists at that identifier. Otherwise the record is
    /// written, the identifier is appended to the sender's list, and one
    /// `DataSourceCreated` record is emitted.
    pub fn register_data_source(&mut self, name: String, sender: Address) -> (result: Result<
        Bytes32,
        DatasourceRegistryError,
    >)
        ensures
            final(self)@ == old(self)@.after_register(name@, sender@),
            match result {
                Ok(id) => old(self)@.register_result(name@, sender@) == Ok::<
                    Seq<u8>,
                    DatasourceRegistryError,
                >(id@),
                Err(e) => old(self)@.register_result(name@, sender@) == Err::<
                    Seq<u8>,
                    DatasourceRegistryError,
                >(e),
            },
    {
        let id = abi_encode_id(name.as_str(), &sender);
        let found = find_entry(&self.data_sources, &id);
        match found {
            Some(i) => {
                proof {
                    lemma_last_is_stored(self.data_sources@, id@, i as int);
                }
                if !is_zero_address(&self.data_sources[i].1.owner) {
                    return Err(DatasourceRegistryError::DataSourceAlreadyExists);
                }
            },
            None => {
                proof {
                    lemma_absent_not_stored(self.data_sources@, id@);
                }
            },
        }
        let record = StorageDataSource {
            name: name.clone(),
            manifest_cid: String::new(),
            owner: sender,
        };
        match found {
            Some(i) => {
                proof {
                    lemma_replace_last(self.data_sources@, i as int, (id, record));
                }
                self.data_sources.set(i, (id, record));
            },
            None => {
                self.data_sources.push((id, record));
                assert(self.data_sources@.drop_last() =~= old(self).data_sources@);
            },
        }
        self.owned.push((sender, id));
        assert(self.owned@.drop_last() =~= old(self).owned@);
        self.events.push(RegistryEvent::DataSourceCreated { id, owner: sender, name });
        assert(events_of(self.events@) =~= old(self)@.registered(name@, sender@).events);
        Ok(id)
    }

    /// Replaces the manifest pointer of the sender's data source `name`.
    ///
    /// Refused with `DataSourceNotFound` where no data source exists at the
    /// identifier derived from `name` and `sender`, and with `NotOwner` where
    /// one exists whose recorded owner is not `sender`; nothing changes then.
    /// Otherwise the pointer is overwritten and one `DataSourceUpdated`
    /// record is emitted.
    pub fn update_data_source(
        &mut self,
        name: String,
        new_manifest_cid: String,
        sender: Address,
    ) -> (result: Result<(), DatasourceRegistryError>)
        ensures
            final(self)@ == old(self)@.after_update(name@, new_manifest_cid@, sender@),
            result == old(self)@.update_result(name@, sender@),
    {
        let id = abi_encode_id(name.as_str(), &sender);
        match find_entry(&self.data_sources, &id) {
            Some(i) => {
                proof {
                    lemma_last_is_stored(self.data_sources@, id@, i as int);
                }
                let owner = self.data_sources[i].1.owner;
                if is_zero_address(&owner) {
                    return Err(DatasourceRegistryError::DataSourceNotFound);
                }
                if !bytes_eq(&owner, &sender) {
                    return Err(DatasourceRegistryError::NotOwner);
                }
                let record = StorageDataSource {
                    name: self.data_sources[i].1.name.clone(),
                    manifest_cid: new_manifest_cid.clone(),
                    owner,
                };
                proof {
                    lemma_replace_last(self.data_sources@, i as int, (id, record));
                }
                self.data_sources.set(i, (id, record));
                self.events.push(RegistryEvent::DataSourceUpdated { id, new_manifest_cid });
                assert(events_of(self.events@) =~= old(self)@.updated(
                    id@,
                    new_manifest_cid@,
                ).events);
                Ok(())
            },
            None => {
                proof {
                    lemma_absent_not_stored(self.data_sources@, id@);
                }
                Err(DatasourceRegistryError::DataSourceNotFound)
            },
        }
    }

    /// The identifiers that `owner` registered, in registration order; empty
    /// where it registered none.
    pub fn get_owned_data_sources(&self, owner: Address) -> (ids: Vec<Bytes32>)
        ensures
            ids_of(ids@) == self@.owned_by(owner@),
    {
        let mut ids: Vec<Bytes32> = Vec::new();
        let mut i: usize = 0;
        while i < self.owned.len()
            invariant
                i <= self.owned.len(),
                ids_of(ids@) == ids_in(owned_of(self.owned@.take(i as int)), owner@),
            decreases self.owned.len() - i,
        {
            let (registrant, id) = self.owned[i];
            proof {
                let log = self.owned@.take(i + 1);
                assert(log.drop_last() =~= self.owned@.take(i as int));
            }
            if bytes_eq(&registrant, &owner) {
                ids.push(id);
            }
            i += 1;
        }
        assert(self.owned@.take(i as int) =~= self.owned@);
        ids
    }

    /// The record stored at `id`, if one was ever written there.
    pub fn data_source(&self, id: &Bytes32) -> (record: Option<&StorageDataSource>)
        ensures
            match record {
                Some(r) => self@.data_sources.contains_key(id@) && r@ == self@.data_sources[id@],
                None => !self@.data_sources.contains_key(id@),
            },
    {
        match find_entry(&self.data_sources, id) {
            Some(i) => {
                proof {
                    lemma_last_is_stored(self.data_sources@, id@, i as int);
                }
                Some(&self.data_sources[i].1)
            },
            None => {
                proof {
                    lemma_absent_not_stored(self.data_sources@, id@);
                }
                None
            },
        }
    }

    /// Every record emitted so far, oldest first.
    pub fn events(&self) -> (events: &Vec<RegistryEvent>)
        ensures
            events_of(events@) == self@.events,
    {
        &self.events
    }

    /// The manifest pointer of the data source `name` of `owner`.
    pub fn get_data_source(&self, owner: Address, name: String) -> (result: Result<
        String,
        DatasourceRegistryError,
    >)
        ensures
            match result {
                Ok(cid) => self@.get_result(owner@, name@) == Ok::<
                    Seq<char>,
                    DatasourceRegistryError,
                >(cid@),
                Err(e) => self@.get_result(owner@, name@) == Err::<
                    Seq<char>,
                    DatasourceRegistryError,
                >(e),
            },
    {
        let id = abi_encode_id(name.as_str(), &owner);
        match find_entry(&self.data_sources, &id) {
            Some(i) => {
                proof {
                    lemma_last_is_stored(self.data_sources@, id@, i as int);
                }
                if is_zero_address(&self.data_sources[i].1.owner) {
                    Err(DatasourceRegistryError::DataSourceNotFound)
                } else {
                    Ok(self.data_sources[i].1.manifest_cid.clone())
                }
            },
            None => {
                proof {
                    lemma_absent_not_stored(self.data_sources@, id@);
                }
                Err(DatasourceRegistryError::DataSourceNotFound)
            },
        }
    }
}

/// A data source that was just created reads back with an empty manifest
/// pointer: where `register` succeeds for a non-zero `owner`, `get` for the
/// same owner and name answers the empty string.
pub proof fn register_then_get_is_empty(s: RegistryView, name: Seq<char>, owner: Seq<u8>)
    requires
        owner != zero_address(),
        s.register_result(name, owner) is Ok,
    ensures
        s.after_register(name, owner).get_result(owner, name) == Ok::<
            Seq<char>,
            DatasourceRegistryError,
        >(Seq::empty()),
{
}

/// Registering the same name twice from the same non-zero caller fails the
/// second time with `DataSourceAlreadyExists`, whatever the first call
/// answered, and the second call changes nothing.
pub proof fn register_twice_is_refused(s: RegistryView, name: Seq<char>, caller: Seq<u8>)
    requires
        caller != zero_address(),
    ensures
        s.after_register(name, caller).register_result(name, caller) == Err::<
            Seq<u8>,
            DatasourceRegistryError,
        >(DatasourceRegistryError::DataSourceAlreadyExists),
        s.after_register(name, caller).after_register(name, caller) == s.after_register(
            name,
            caller,
        ),
{
}

/// An update by anyone but the recorded owner fails with `NotOwner` and
/// changes nothing: where a data source exists at the identifier that the
/// caller's update derives, and its recorded owner is another identity, the
/// registry after the call is the registry before it.
pub proof fn update_by_stranger_is_refused(
    s: RegistryView,
    name: Seq<char>,
    cid: Seq<char>,
    caller: Seq<u8>,
)
    requires
        s.exists_at(resource_id(name, caller)),
        s.owner_of(resource_id(name, caller)) != caller,
    ensures
        s.update_result(name, caller) == Err::<(), DatasourceRegistryError>(
            DatasourceRegistryError::NotOwner,
        ),
        s.after_update(name, cid, caller) == s,
{
}

/// After a successful update, `get` for the same owner and name answers the
/// pointer that was written.
pub proof fn update_then_get_reads_back(
    s: RegistryView,
    name: Seq<char>,
    cid: Seq<char>,
    caller: Seq<u8>,
)
    requires
        s.update_result(name, caller) is Ok,
    ensures
        s.after_update(name, cid, caller).get_result(caller, name) == Ok::<
            Seq<char>,
            DatasourceRegistryError,
        >(cid),
{
}

/// In the empty registry `get` fails with `DataSourceNotFound` for every
/// owner and name.
pub proof fn get_in_empty_registry_fails(owner: Seq<u8>, name: Seq<char>)
    ensures
        RegistryView::empty().get_result(owner, name) == Err::<
            Seq<char>,
            DatasourceRegistryError,
        >(DatasourceRegistryError::DataSourceNotFound),
{
}

/// A data source comes into existence only through a registration at its
/// own identifier: `register` and `update` at any other identifier leave the
/// record at `id` as it was, so `get` keeps failing with
/// `DataSourceNotFound` for a pair that was never registered.
pub proof fn other_identifiers_are_untouched(
    s: RegistryView,
    name: Seq<char>,
    cid: Seq<char>,
    caller: Seq<u8>,
    id: Seq<u8>,
)
    requires
        id != resource_id(name, caller),
    ensures
        s.after_register(name, caller).exists_at(id) == s.exists_at(id),
        s.after_update(name, cid, caller).exists_at(id) == s.exists_at(id),
        s.exists_at(id) ==> s.after_register(name, caller).data_sources[id] == s.data_sources[id],
        s.exists_at(id) ==> s.after_update(name, cid, caller).data_sources[id]
            == s.data_sources[id],
{
}

/// An update never creates or removes a data source, and never changes its
/// name or its owner.
pub proof fn update_keeps_name_and_owner(
    s: RegistryView,
    name: Seq<char>,
    cid: Seq<char>,
    caller: Seq<u8>,
    id: Seq<u8>,
)
    ensures
        s.after_update(name, cid, caller).exists_at(id) == s.exists_at(id),
        s.after_update(name, cid, caller).owner_of(id) == s.owner_of(id),
        s.exists_at(id) ==> s.after_update(name, cid, caller).data_sources[id].name
            == s.data_sources[id].name,
{
}

/// The owner index is append-only and in registration order: a successful
/// registration appends its identifier to the caller's list and touches no
/// other list; a refused registration and every update leave all lists as
/// they were.
pub proof fn owned_lists_grow_in_registration_order(
    s: RegistryView,
    name: Seq<char>,
    cid: Seq<char>,
    caller: Seq<u8>,
    owner: Seq<u8>,
)
    ensures
        s.register_result(name, caller) is Ok ==> s.after_register(name, caller).owned_by(caller)
            == s.owned_by(caller).push(resource_id(name, caller)),
        s.register_result(name, caller) is Ok && owner != caller ==> s.after_register(
            name,
            caller,
        ).owned_by(owner) == s.owned_by(owner),
        s.register_result(name, caller) is Err ==> s.after_register(name, caller).owned_by(owner)
            == s.owned_by(owner),
        s.after_update(name, cid, caller).owned_by(owner) == s.owned_by(owner),
{
}

/// Two registrations by one non-zero owner into the empty registry, under
/// names whose identifiers differ, list exactly those two identifiers, the
/// first registered first.
pub proof fn two_registrations_are_listed_in_order(
    first: Seq<char>,
    second: Seq<char>,
    owner: Seq<u8>,
)
    requires
        owner != zero_address(),
        resource_id(first, owner) != resource_id(second, owner),
    ensures
        RegistryView::empty().after_register(first, owner).after_register(second, owner).owned_by(
            owner,
        ) == seq![resource_id(first, owner), resource_id(second, owner)],
{
}

} // verus!
