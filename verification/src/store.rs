//! The two bounded `heapless` collections that hold the relay engine's
//! state: the map of pending packets and the queue of recent packet ids.
//!
//! Nothing in this file is proved. Each function states what the `heapless`
//! source shows of the method that it calls; the relay engine is verified
//! against these statements.

use crate::pending::PendingPacket;
use vstd::prelude::*;

verus! {

/// `heapless::IndexMap`, a fixed-capacity hash map, taken as opaque.
#[verifier::external_type_specification]
#[verifier::external_body]
#[verifier::reject_recursive_types(K)]
#[verifier::reject_recursive_types(V)]
#[verifier::reject_recursive_types(S)]
pub struct ExIndexMap<K, V, S, const N: usize>(heapless::IndexMap<K, V, S, N>);

/// `hash32::BuildHasherDefault`, the hasher factory of `FnvIndexMap`, taken as
/// opaque.
#[verifier::external_type_specification]
#[verifier::external_body]
#[verifier::reject_recursive_types(H)]
pub struct ExBuildHasherDefault<H>(hash32::BuildHasherDefault<H>);

/// `hash32::FnvHasher`, the hasher of `FnvIndexMap`, taken as opaque.
#[verifier::external_type_specification]
#[verifier::external_body]
pub struct ExFnvHasher(hash32::FnvHasher);

/// `heapless::spsc::Queue`, a fixed-capacity ring buffer, taken as opaque.
#[verifier::external_type_specification]
#[verifier::external_body]
#[verifier::reject_recursive_types(T)]
pub struct ExQueue<T, const N: usize>(heapless::spsc::Queue<T, N>);

/// The key-value pairs that a pending map holds.
pub uninterp spec fn pending_entries(
    m: heapless::FnvIndexMap<u32, PendingPacket, 16>,
) -> Map<u32, PendingPacket>;

/// The ids that a recent queue holds, oldest first.
pub uninterp spec fn recent_ids(q: heapless::spsc::Queue<u32, 32>) -> Seq<u32>;

/// `FnvIndexMap::new`: the map starts empty.
#[verifier::external_body]
pub(crate) fn pending_new() -> (m: heapless::FnvIndexMap<u32, PendingPacket, 16>)
    ensures
        pending_entries(m) =~= Map::empty(),
{
    heapless::FnvIndexMap::new()
}

/// `IndexMap::len`: the number of pairs in the map.
#[verifier::external_body]
pub(crate) fn pending_len(m: &heapless::FnvIndexMap<u32, PendingPacket, 16>) -> (n: usize)
    ensures
        n == pending_entries(*m).dom().len(),
{
    m.len()
}

/// `IndexMap::get`: the value stored under `id`, if there is one.
#[verifier::external_body]
pub(crate) fn pending_get(m: &heapless::FnvIndexMap<u32, PendingPacket, 16>, id: u32) -> (r:
    Option<&PendingPacket>)
    ensures
        r is Some <==> pending_entries(*m).dom().contains(id),
        r is Some ==> *r->0 == pending_entries(*m)[id],
{
    m.get(&id)
}

/// `IndexMap::insert`: a value under a key that is present replaces the old
/// value, which is returned; a new key is added while fewer than 16 pairs are
/// held; a new key on a full map leaves the map as it is and hands the pair
/// back.
#[verifier::external_body]
pub(crate) fn pending_insert(
    m: &mut heapless::FnvIndexMap<u32, PendingPacket, 16>,
    id: u32,
    p: PendingPacket,
) -> (r: Result<Option<PendingPacket>, (u32, PendingPacket)>)
    ensures
        pending_entries(*old(m)).dom().contains(id) ==> (r matches Ok(Some(v)) && v
            == pending_entries(*old(m))[id]),
        !pending_entries(*old(m)).dom().contains(id) && pending_entries(*old(m)).dom().len() < 16
            ==> r matches Ok(None),
        !pending_entries(*old(m)).dom().contains(id) && pending_entries(*old(m)).dom().len() >= 16
            ==> (r matches Err(pair) && pair == (id, p)),
        r is Ok ==> pending_entries(*final(m)) == pending_entries(*old(m)).insert(id, p),
        r is Err ==> pending_entries(*final(m)) == pending_entries(*old(m)),
{
    m.insert(id, p)
}

/// `IndexMap::remove`: the pair under `id` leaves the map and its value is
/// returned; without such a pair nothing changes.
#[verifier::external_body]
pub(crate) fn pending_remove(m: &mut heapless::FnvIndexMap<u32, PendingPacket, 16>, id: u32) -> (r:
    Option<PendingPacket>)
    ensures
        pending_entries(*final(m)) == pending_entries(*old(m)).remove(id),
        r is Some <==> pending_entries(*old(m)).dom().contains(id),
        r is Some ==> r->0 == pending_entries(*old(m))[id],
{
    m.remove(&id)
}

/// `IndexMap::keys`: every key of the map, each once.
#[verifier::external_body]
pub(crate) fn pending_ids(m: &heapless::FnvIndexMap<u32, PendingPacket, 16>) -> (ids: Vec<u32>)
    ensures
        ids@.no_duplicates(),
        forall|id: u32| ids@.contains(id) <==> pending_entries(*m).dom().contains(id),
{
    m.keys().copied().collect()
}

/// `Queue::new`: the queue starts empty.
#[verifier::external_body]
pub(crate) fn recent_new() -> (q: heapless::spsc::Queue<u32, 32>)
    ensures
        recent_ids(q) =~= Seq::empty(),
{
    heapless::spsc::Queue::new()
}

/// `Queue::len`: the number of ids in the queue.
#[verifier::external_body]
pub(crate) fn recent_len(q: &heapless::spsc::Queue<u32, 32>) -> (n: usize)
    ensures
        n == recent_ids(*q).len(),
{
    q.len()
}

/// `Queue::is_full`: a `Queue<_, 32>` is full when it holds 31 items.
#[verifier::external_body]
pub(crate) fn recent_is_full(q: &heapless::spsc::Queue<u32, 32>) -> (full: bool)
    ensures
        full == (recent_ids(*q).len() == 31),
{
    q.is_full()
}

/// `Queue::enqueue`: the id goes to the back of a queue that is not full;
/// a full queue stays as it is and hands the id back.
#[verifier::external_body]
pub(crate) fn recent_enqueue(q: &mut heapless::spsc::Queue<u32, 32>, id: u32) -> (r: Result<(), u32>)
    ensures
        r is Ok <==> recent_ids(*old(q)).len() != 31,
        r is Ok ==> recent_ids(*final(q)) == recent_ids(*old(q)).push(id),
        r is Err ==> r->Err_0 == id && recent_ids(*final(q)) == recent_ids(*old(q)),
{
    q.enqueue(id)
}

/// `Queue::dequeue`: the oldest id leaves the queue and is returned; an
/// empty queue stays empty.
#[verifier::external_body]
pub(crate) fn recent_dequeue(q: &mut heapless::spsc::Queue<u32, 32>) -> (r: Option<u32>)
    ensures
        r is Some <==> recent_ids(*old(q)).len() > 0,
        r is Some ==> r->0 == recent_ids(*old(q))[0] && recent_ids(*final(q)) == recent_ids(
            *old(q),
        ).drop_first(),
        r is None ==> recent_ids(*final(q)) == recent_ids(*old(q)),
{
    q.dequeue()
}

/// `Queue::iter`: the ids of the queue from the front to the back.
#[verifier::external_body]
pub(crate) fn recent_list(q: &heapless::spsc::Queue<u32, 32>) -> (ids: Vec<u32>)
    ensures
        ids@ == recent_ids(*q),
{
    q.iter().copied().collect()
}

} // verus!
