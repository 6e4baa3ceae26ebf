//! The laws the cache contract guarantees, each proved from the contracts
//! alone: whatever a backend with a locally known table may answer, these
//! pin the answer down. Every law speaks of the table and the contract
//! only, never of a particular backend, so each holds of every backend
//! variant alike.

use vstd::prelude::*;

use crate::local_lookup;
use crate::remote_lookup;
use crate::value::is_json_i64;
use crate::value::CacheValue;
use crate::CacheError;

verus! {

/// Round-trip law: after an encodable value's bytes are stored under a key,
/// every lookup result the contract admits for that key is exactly that
/// value.
pub proof fn lemma_round_trip<T: CacheValue>(
    m: Map<Seq<char>, Seq<u8>>,
    k: Seq<char>,
    v: T,
    r: Result<Option<T>, CacheError>,
)
    requires
        v.encodable(),
        local_lookup::<T>(m.insert(k, v.encoding()), k, r),
    ensures
        r == Ok::<Option<T>, CacheError>(Some(v)),
{
    let m2 = m.insert(k, v.encoding());
    assert(m2.contains_key(k));
    assert(m2[k] == v.encoding());
}

/// Absence law, fresh key: a key that was never inserted reads back as
/// `None`, not as an error.
pub proof fn lemma_absent_key<T: CacheValue>(
    m: Map<Seq<char>, Seq<u8>>,
    k: Seq<char>,
    r: Result<Option<T>, CacheError>,
)
    requires
        !m.contains_key(k),
        local_lookup::<T>(m, k, r),
    ensures
        r == Ok::<Option<T>, CacheError>(None),
{
}

/// Absence law, removed key: a key just removed reads back as `None`, not
/// as an error, whatever was stored before.
pub proof fn lemma_removed_key<T: CacheValue>(
    m: Map<Seq<char>, Seq<u8>>,
    k: Seq<char>,
    r: Result<Option<T>, CacheError>,
)
    requires
        local_lookup::<T>(m.remove(k), k, r),
    ensures
        r == Ok::<Option<T>, CacheError>(None),
{
}

/// Idempotent removal: removing a key twice leaves the very table that one
/// removal leaves; with the contract's unconditional success of `remove` on
/// a local table, both calls succeed with no error.
pub proof fn lemma_remove_idempotent(m: Map<Seq<char>, Seq<u8>>, k: Seq<char>)
    ensures
        m.remove(k).remove(k) == m.remove(k),
{
    assert(m.remove(k).remove(k) =~= m.remove(k));
}

/// Overwrite law: after two inserts under the same key, every lookup result
/// the contract admits is exactly the second value.
pub proof fn lemma_overwrite<T: CacheValue>(
    m: Map<Seq<char>, Seq<u8>>,
    k: Seq<char>,
    v1: T,
    v2: T,
    r: Result<Option<T>, CacheError>,
)
    requires
        v2.encodable(),
        local_lookup::<T>(m.insert(k, v1.encoding()).insert(k, v2.encoding()), k, r),
    ensures
        r == Ok::<Option<T>, CacheError>(Some(v2)),
{
    lemma_round_trip::<T>(m.insert(k, v1.encoding()), k, v2, r);
}

/// Type-mismatch detection: when the bytes stored under a key are the
/// encoding of one type and the lookup asks for a type that rejects them,
/// the contract admits only a serialization error — never a silently wrong
/// value and never absence.
pub proof fn lemma_type_mismatch<A: CacheValue, B: CacheValue>(
    m: Map<Seq<char>, Seq<u8>>,
    k: Seq<char>,
    a: A,
    r: Result<Option<B>, CacheError>,
)
    requires
        a.encodable(),
        B::rejects(a.encoding()),
        local_lookup::<B>(m.insert(k, a.encoding()), k, r),
    ensures
        r matches Err(e) && e is SerDeError,
{
    let m2 = m.insert(k, a.encoding());
    assert(m2.contains_key(k));
    assert(m2[k] == a.encoding());
}

/// The mismatch law at a concrete pair: an integer stored under a key and
/// read back as text is refused as a serialization error.
pub proof fn lemma_type_mismatch_i64_text(
    m: Map<Seq<char>, Seq<u8>>,
    k: Seq<char>,
    n: i64,
    r: Result<Option<String>, CacheError>,
)
    requires
        local_lookup::<String>(m.insert(k, n.encoding()), k, r),
    ensures
        r matches Err(e) && e is SerDeError,
{
    assert(is_json_i64(n.encoding()));
    lemma_type_mismatch::<i64, String>(m, k, n, r);
}

/// The networked backend obeys the round-trip law at its codec boundary:
/// when the remote store replies with the bytes an encodable value was
/// written as, the lookup answers exactly that value.
pub proof fn lemma_remote_round_trip<T: CacheValue>(
    v: T,
    reply: Result<Option<Vec<u8>>, String>,
    r: Result<Option<T>, CacheError>,
)
    requires
        v.encodable(),
        reply matches Ok(Some(b)) && b@ == v.encoding(),
        remote_lookup::<T>(reply, r),
    ensures
        r == Ok::<Option<T>, CacheError>(Some(v)),
{
}

/// The networked backend obeys the absence law: a remote reply of absence
/// is answered as `None` and never as an error, and conversely `None` is
/// answered only on such a reply.
pub proof fn lemma_remote_absence<T: CacheValue>(
    reply: Result<Option<Vec<u8>>, String>,
    r: Result<Option<T>, CacheError>,
)
    requires
        remote_lookup::<T>(reply, r),
    ensures
        reply == Ok::<Option<Vec<u8>>, String>(None) <==> r == Ok::<Option<T>, CacheError>(None),
{
}

/// A transport failure on the networked backend surfaces as exactly an
/// internal error: it is never disguised as absence and never as a
/// serialization failure.
pub proof fn lemma_remote_failure_is_internal<T: CacheValue>(
    reply: Result<Option<Vec<u8>>, String>,
    r: Result<Option<T>, CacheError>,
)
    requires
        remote_lookup::<T>(reply, r),
        reply is Err,
    ensures
        r matches Err(e) && e is InternalError,
{
}

/// The table after a batch of inserts, one per list entry, in list order.
pub open spec fn insert_all(
    m: Map<Seq<char>, Seq<u8>>,
    ps: Seq<(Seq<char>, Seq<u8>)>,
) -> Map<Seq<char>, Seq<u8>>
    decreases ps.len(),
{
    if ps.len() == 0 {
        m
    } else {
        insert_all(m, ps.drop_last()).insert(ps.last().0, ps.last().1)
    }
}

/// Concurrent insert safety: when inserts to pairwise distinct keys land in
/// some order, no write is lost — afterwards every key holds exactly the
/// bytes written to it.
pub proof fn lemma_no_lost_writes(
    m: Map<Seq<char>, Seq<u8>>,
    ps: Seq<(Seq<char>, Seq<u8>)>,
    i: int,
)
    requires
        forall|a: int, b: int| 0 <= a < b < ps.len() ==> (#[trigger] ps[a]).0 != (#[trigger] ps[b]).0,
        0 <= i < ps.len(),
    ensures
        insert_all(m, ps).contains_key(ps[i].0),
        insert_all(m, ps)[ps[i].0] == ps[i].1,
    decreases ps.len(),
{
    let pre = ps.drop_last();
    assert(forall|x: int| 0 <= x < pre.len() ==> #[trigger] pre[x] == ps[x]);
    if i < ps.len() - 1 {
        lemma_no_lost_writes(m, pre, i);
        assert(ps[i].0 != ps[ps.len() - 1].0);
    }
}

/// Inserts to distinct keys commute: the table does not depend on the order
/// in which writes to different keys land.
pub proof fn lemma_insert_commutes(
    m: Map<Seq<char>, Seq<u8>>,
    k1: Seq<char>,
    b1: Seq<u8>,
    k2: Seq<char>,
    b2: Seq<u8>,
)
    requires
        k1 != k2,
    ensures
        m.insert(k1, b1).insert(k2, b2) == m.insert(k2, b2).insert(k1, b1),
{
    assert(m.insert(k1, b1).insert(k2, b2) =~= m.insert(k2, b2).insert(k1, b1));
}

} // verus!
