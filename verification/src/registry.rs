//! The task registry: which capture process runs for which channel. It is a
//! cache of process ids held by this process, needed to signal and reap the
//! captures; whether a channel is being recorded is decided by the store.

use vstd::prelude::*;

verus! {

#[verifier::external_type_specification]
#[verifier::external_body]
#[verifier::reject_recursive_types(K)]
#[verifier::reject_recursive_types(V)]
#[verifier::reject_recursive_types(S)]
pub struct ExDashMap<K, V, S>(dashmap::DashMap<K, V, S>);

/// What a map of tasks holds: the process id kept for each channel.
pub uninterp spec fn task_entries(m: dashmap::DashMap<String, u32>) -> Map<Seq<char>, u32>;

/// The map without tasks.
pub open spec fn no_tasks() -> Map<Seq<char>, u32> {
    Map::empty()
}

/// `keys` names every channel of `tasks` once and nothing else.
pub open spec fn is_key_snapshot(tasks: Map<Seq<char>, u32>, keys: Seq<String>) -> bool {
    &&& forall|i: int| 0 <= i < keys.len() ==> tasks.contains_key(#[trigger] keys[i]@)
    &&& forall|i: int, j: int| 0 <= i < j < keys.len() ==> keys[i]@ != keys[j]@
    &&& forall|k: Seq<char>|
        #![trigger tasks.contains_key(k)]
        tasks.contains_key(k) ==> exists|i: int| 0 <= i < keys.len() && #[trigger] keys[i]@ == k
}

/// An empty map of tasks.
///
/// Trusted: calls `DashMap::new`, which creates a map without entries.
#[verifier::external_body]
fn tasks_new() -> (r: dashmap::DashMap<String, u32>)
    ensures
        task_entries(r) == no_tasks(),
{
    dashmap::DashMap::new()
}

/// Keeps `pid` for `url` and returns the process id kept before, if any.
///
/// Trusted: calls `DashMap::insert`, which replaces the value of a present
/// key and returns the old value.
#[verifier::external_body]
fn tasks_insert(m: &mut dashmap::DashMap<String, u32>, url: String, pid: u32) -> (r: Option<u32>)
    ensures
        task_entries(*final(m)) == task_entries(*old(m)).insert(url@, pid),
        r == (if task_entries(*old(m)).contains_key(url@) {
            Some(task_entries(*old(m))[url@])
        } else {
            None
        }),
{
    m.insert(url, pid)
}

/// Forgets `url` and returns the process id kept for it, if any.
///
/// Trusted: calls `DashMap::remove`, which removes the entry of the key and
/// returns it if it existed.
#[verifier::external_body]
fn tasks_remove(m: &mut dashmap::DashMap<String, u32>, url: &str) -> (r: Option<u32>)
    ensures
        task_entries(*final(m)) == task_entries(*old(m)).remove(url@),
        r == (if task_entries(*old(m)).contains_key(url@) {
            Some(task_entries(*old(m))[url@])
        } else {
            None
        }),
{
    m.remove(url).map(|entry| entry.1)
}

/// The process id kept for `url`, if any.
///
/// Trusted: calls `DashMap::get`, which finds the entry of the key if it
/// exists.
#[verifier::external_body]
fn tasks_get(m: &dashmap::DashMap<String, u32>, url: &str) -> (r: Option<u32>)
    ensures
        r == (if task_entries(*m).contains_key(url@) {
            Some(task_entries(*m)[url@])
        } else {
            None
        }),
{
    m.get(url).map(|entry| *entry.value())
}

/// The channels that have a process id, in no particular order.
///
/// Trusted: walks the map with `DashMap::iter`, which visits every entry
/// once; the order of the walk is not determined.
#[verifier::external_body]
fn tasks_keys(m: &dashmap::DashMap<String, u32>) -> (keys: Vec<String>)
    ensures
        is_key_snapshot(task_entries(*m), keys@),
{
    m.iter().map(|entry| entry.key().clone()).collect()
}

/// The task registry.
pub struct TaskRegistry {
    tasks: dashmap::DashMap<String, u32>,
}

impl View for TaskRegistry {
    type V = Map<Seq<char>, u32>;

    closed spec fn view(&self) -> Map<Seq<char>, u32> {
        task_entries(self.tasks)
    }
}

impl TaskRegistry {
    /// A registry without tasks.
    pub fn new() -> (r: TaskRegistry)
        ensures
            r@ == Map::<Seq<char>, u32>::empty(),
    {
        TaskRegistry { tasks: tasks_new() }
    }

    /// Registers the process `pid` as the capture of `url`. Returns the
    /// process that was registered for the channel before, if any: the
    /// registry has let go of it.
    pub fn insert(&mut self, url: String, pid: u32) -> (displaced: Option<u32>)
        ensures
            final(self)@ == old(self)@.insert(url@, pid),
            displaced == (if old(self)@.contains_key(url@) {
                Some(old(self)@[url@])
            } else {
                None
            }),
    {
        tasks_insert(&mut self.tasks, url, pid)
    }

    /// Lets go of the capture of `url` and returns its process, if one was
    /// registered. Removing again changes nothing.
    pub fn remove(&mut self, url: &str) -> (r: Option<u32>)
        ensures
            final(self)@ == old(self)@.remove(url@),
            r == (if old(self)@.contains_key(url@) {
                Some(old(self)@[url@])
            } else {
                None
            }),
    {
        tasks_remove(&mut self.tasks, url)
    }

    /// The process registered as the capture of `url`, if any.
    pub fn get(&self, url: &str) -> (r: Option<u32>)
        ensures
            r == (if self@.contains_key(url@) {
                Some(self@[url@])
            } else {
                None
            }),
    {
        tasks_get(&self.tasks, url)
    }

    /// Whether a capture is registered for `url`.
    pub fn contains_key(&self, url: &str) -> (r: bool)
        ensures
            r == self@.contains_key(url@),
    {
        tasks_get(&self.tasks, url).is_some()
    }

    /// The channels that have a registered capture at this moment, each once,
    /// in no particular order.
    pub fn snapshot_keys(&self) -> (keys: Vec<String>)
        ensures
            is_key_snapshot(self@, keys@),
    {
        tasks_keys(&self.tasks)
    }

    /// Whether no capture is registered.
    pub fn is_empty(&self) -> (r: bool)
        ensures
            r == (forall|k: Seq<char>| !self@.contains_key(k)),
    {
        let keys = self.snapshot_keys();
        if keys.len() == 0 {
            true
        } else {
            assert(self@.contains_key(keys@[0]@));
            false
        }
    }
}

} // verus!
