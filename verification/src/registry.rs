//! The table of engine instances behind the C interface, addressed by handle.
use crate::id::Id;
use vstd::hash_map::HashMapWithView;
use vstd::prelude::*;

verus! {

broadcast use vstd::std_specs::hash::group_hash_axioms;

/// The operations an engine offers across the C interface.
pub trait EngineBackend {
    fn add_stylesheet(&self, css: String);

    fn create_node(&self, node_id: u64, text: Option<String>);

    fn set_parent(&self, parent_id: u64, child_id: u64);

    fn set_attribute(&self, node_id: u64, key: String, value: String);

    fn root_id(&self) -> u64;

    fn run(&self) -> i32;

    fn destroy(&self) -> i32;
}

/// Why a handle does not address an engine.
#[derive(Clone, Copy, Debug, PartialEq, Eq, Structural)]
pub enum HandleError {
    /// Handle 0 never addresses an engine.
    Invalid,
    /// No engine has this handle.
    NotFound,
}

/// The engines by handle, and the handle that is handed out next.
#[verifier::reject_recursive_types(B)]
pub struct EngineRegistry<B> {
    instances: HashMapWithView<usize, B>,
    next_handle: usize,
}

impl<B> EngineRegistry<B> {
    /// The engines by handle.
    pub closed spec fn engines(&self) -> Map<usize, B> {
        self.instances@
    }

    /// The handle that `allocate_handle` returns next.
    pub closed spec fn next(&self) -> usize {
        self.next_handle
    }

    /// No engines; handles start at 1.
    pub fn new() -> (r: Self)
        ensures
            r.engines() == Map::<usize, B>::empty(),
            r.next() == 1,
    {
        EngineRegistry { instances: HashMapWithView::new(), next_handle: 1 }
    }

    /// Take the next handle; the counter wraps around.
    pub fn allocate_handle(&mut self) -> (r: usize)
        ensures
            r == old(self).next(),
            final(self).next() == (if old(self).next() == usize::MAX {
                0
            } else {
                old(self).next() + 1
            }),
            final(self).engines() == old(self).engines(),
    {
        let h = self.next_handle;
        self.next_handle = h.wrapping_add(1);
        h
    }

    /// Register `backend` under `handle`, replacing any engine there.
    pub fn insert(&mut self, handle: usize, backend: B)
        ensures
            final(self).engines() == old(self).engines().insert(handle, backend),
            final(self).next() == old(self).next(),
    {
        self.instances.insert(handle, backend);
    }

    /// The engine under `handle`, if any.
    pub fn get_engine(&self, handle: usize) -> (r: Option<&B>)
        ensures
            match r {
                Some(b) => self.engines().contains_key(handle) && *b == self.engines()[handle],
                None => !self.engines().contains_key(handle),
            },
    {
        self.instances.get(&handle)
    }

    /// The engine under `handle`; 0 is rejected before any lookup.
    pub fn lookup(&self, handle: usize) -> (r: Result<&B, HandleError>)
        ensures
            handle == 0 ==> r == Err::<&B, HandleError>(HandleError::Invalid),
            handle != 0 && !self.engines().contains_key(handle) ==> r == Err::<&B, HandleError>(
                HandleError::NotFound,
            ),
            handle != 0 && self.engines().contains_key(handle) ==> (r matches Ok(b) && *b
                == self.engines()[handle]),
    {
        if handle == 0 {
            return Err(HandleError::Invalid);
        }
        match self.instances.get(&handle) {
            Some(b) => Ok(b),
            None => Err(HandleError::NotFound),
        }
    }

    /// Take the engine under `handle` out of the table.
    pub fn remove(&mut self, handle: usize) -> (r: Result<B, HandleError>)
        ensures
            handle == 0 ==> r == Err::<B, HandleError>(HandleError::Invalid) && final(self).engines()
                == old(self).engines(),
            handle != 0 && !old(self).engines().contains_key(handle) ==> r == Err::<B, HandleError>(
                HandleError::NotFound,
            ) && final(self).engines() == old(self).engines(),
            handle != 0 && old(self).engines().contains_key(handle) ==> r == Ok::<B, HandleError>(
                old(self).engines()[handle],
            ) && final(self).engines() == old(self).engines().remove(handle),
            final(self).next() == old(self).next(),
    {
        if handle == 0 {
            return Err(HandleError::Invalid);
        }
        match self.instances.remove(&handle) {
            Some(b) => Ok(b),
            None => Err(HandleError::NotFound),
        }
    }
}

/// What `lolite_create_node` returns for a node id: 0 is reserved for the
/// root and rejected.
pub fn accepted_node_id(node_id: u64) -> (r: Option<Id>)
    ensures
        r == if node_id == 0 {
            None::<Id>
        } else {
            Some(Id(node_id))
        },
{
    if node_id == 0 {
        None
    } else {
        Some(Id(node_id))
    }
}

/// A registered engine can be read back until it is removed; after removal
/// its handle addresses nothing.
pub proof fn lemma_registry_read_after_insert<B>(m: Map<usize, B>, handle: usize, b: B, other: usize)
    ensures
        m.insert(handle, b).contains_key(handle) && m.insert(handle, b)[handle] == b,
        !m.insert(handle, b).remove(handle).contains_key(handle),
        other != handle ==> (m.insert(handle, b).contains_key(other) == m.contains_key(other)),
{
}

} // verus!
