//! Laws of the reorg reconciler.
use vstd::prelude::*;
use crate::events::{has_payload, minus, minus_upto, Event};
use crate::reorg::ids_of;

verus! {

/// The events among the first `n` of `s` whose id is not listed in `ids`.
pub open spec fn keep_unlisted_upto(s: Seq<Event>, ids: Seq<u128>, n: int) -> Seq<Event>
    decreases n,
{
    if n <= 0 {
        Seq::empty()
    } else if ids.contains(s[n - 1].id) {
        keep_unlisted_upto(s, ids, n - 1)
    } else {
        keep_unlisted_upto(s, ids, n - 1).push(s[n - 1])
    }
}

/// What the store holds for the window after the repair that `plan_repair`
/// computes: the stored events but those deleted by id, then the inserted ones.
pub open spec fn store_after_repair(already: Seq<Event>, live: Seq<Event>) -> Seq<Event> {
    keep_unlisted_upto(already, ids_of(minus(already, live)), already.len() as int) + minus(
        live,
        already,
    )
}

proof fn lemma_minus_empty(a: Seq<Event>, b: Seq<Event>, n: int)
    requires
        0 <= n <= a.len(),
        forall|i: int| 0 <= i < n ==> has_payload(b, #[trigger] a[i]),
    ensures
        minus_upto(a, b, n).len() == 0,
    decreases n,
{
    if n > 0 {
        lemma_minus_empty(a, b, n - 1);
    }
}

proof fn lemma_minus_member(a: Seq<Event>, b: Seq<Event>, n: int, p: int)
    requires
        0 <= n <= a.len(),
        0 <= p < minus_upto(a, b, n).len(),
    ensures
        exists|q: int| 0 <= q < n && #[trigger] a[q] == minus_upto(a, b, n)[p] && !has_payload(b, a[q]),
    decreases n,
{
    if n > 0 {
        if p < minus_upto(a, b, n - 1).len() {
            lemma_minus_member(a, b, n - 1, p);
            let q = choose|q: int|
                0 <= q < n - 1 && #[trigger] a[q] == minus_upto(a, b, n - 1)[p] && !has_payload(b, a[q]);
            assert(a[q] == minus_upto(a, b, n)[p]);
        } else {
            assert(a[n - 1] == minus_upto(a, b, n)[p]);
        }
    }
}

proof fn lemma_minus_complete(a: Seq<Event>, b: Seq<Event>, n: int, q: int)
    requires
        0 <= q < n <= a.len(),
        !has_payload(b, a[q]),
    ensures
        exists|p: int| 0 <= p < minus_upto(a, b, n).len() && #[trigger] minus_upto(a, b, n)[p] == a[q],
    decreases n,
{
    if q < n - 1 {
        lemma_minus_complete(a, b, n - 1, q);
        let p = choose|p: int|
            0 <= p < minus_upto(a, b, n - 1).len() && #[trigger] minus_upto(a, b, n - 1)[p] == a[q];
        assert(minus_upto(a, b, n)[p] == a[q]);
    } else {
        let p = minus_upto(a, b, n - 1).len() as int;
        assert(minus_upto(a, b, n)[p] == a[q]);
    }
}

proof fn lemma_keep_member(s: Seq<Event>, ids: Seq<u128>, n: int, p: int)
    requires
        0 <= n <= s.len(),
        0 <= p < keep_unlisted_upto(s, ids, n).len(),
    ensures
        exists|q: int| 0 <= q < n && #[trigger] s[q] == keep_unlisted_upto(s, ids, n)[p] && !ids.contains(s[q].id),
    decreases n,
{
    if n > 0 {
        if p < keep_unlisted_upto(s, ids, n - 1).len() {
            lemma_keep_member(s, ids, n - 1, p);
            let q = choose|q: int|
                0 <= q < n - 1 && #[trigger] s[q] == keep_unlisted_upto(s, ids, n - 1)[p] && !ids.contains(s[q].id);
            assert(s[q] == keep_unlisted_upto(s, ids, n)[p]);
        } else {
            assert(s[n - 1] == keep_unlisted_upto(s, ids, n)[p]);
        }
    }
}

proof fn lemma_keep_complete(s: Seq<Event>, ids: Seq<u128>, n: int, q: int)
    requires
        0 <= q < n <= s.len(),
        !ids.contains(s[q].id),
    ensures
        exists|p: int| 0 <= p < keep_unlisted_upto(s, ids, n).len() && #[trigger] keep_unlisted_upto(s, ids, n)[p] == s[q],
    decreases n,
{
    if q < n - 1 {
        lemma_keep_complete(s, ids, n - 1, q);
        let p = choose|p: int|
            0 <= p < keep_unlisted_upto(s, ids, n - 1).len() && #[trigger] keep_unlisted_upto(s, ids, n - 1)[p] == s[q];
        assert(keep_unlisted_upto(s, ids, n)[p] == s[q]);
    } else {
        let p = keep_unlisted_upto(s, ids, n - 1).len() as int;
        assert(keep_unlisted_upto(s, ids, n)[p] == s[q]);
    }
}

/// When the stored and the live events hold the same payloads, the diff finds
/// nothing added and nothing removed.
pub proof fn law_diff_of_equal_sets_is_empty(already: Seq<Event>, live: Seq<Event>)
    requires
        forall|i: int| 0 <= i < already.len() ==> has_payload(live, #[trigger] already[i]),
        forall|i: int| 0 <= i < live.len() ==> has_payload(already, #[trigger] live[i]),
    ensures
        minus(live, already).len() == 0,
        minus(already, live).len() == 0,
{
    lemma_minus_empty(live, already, live.len() as int);
    lemma_minus_empty(already, live, already.len() as int);
}

/// After the repair is applied, reconciling the same window against the same
/// chain finds nothing to write (event ids in the store are distinct).
pub proof fn law_repair_is_idempotent(already: Seq<Event>, live: Seq<Event>)
    requires
        forall|i: int, j: int|
            0 <= i < already.len() && 0 <= j < already.len() && #[trigger] already[i].id
                == #[trigger] already[j].id ==> i == j,
    ensures
        minus(live, store_after_repair(already, live)).len() == 0,
        minus(store_after_repair(already, live), live).len() == 0,
{
    let removed = minus(already, live);
    let ids = ids_of(removed);
    let n = already.len() as int;
    let kept = keep_unlisted_upto(already, ids, n);
    let added = minus(live, already);
    let store = store_after_repair(already, live);
    assert(store == kept + added);
    // An id is listed exactly when its event has no live counterpart.
    assert forall|q: int| 0 <= q < n implies (ids.contains(#[trigger] already[q].id) <==> !has_payload(live, already[q])) by {
        if ids.contains(already[q].id) {
            let p = choose|p: int| 0 <= p < ids.len() && ids[p] == already[q].id;
            lemma_minus_member(already, live, n, p);
            let q2 = choose|q2: int| 0 <= q2 < n && #[trigger] already[q2] == removed[p] && !has_payload(live, already[q2]);
            assert(already[q2].id == already[q].id);
        }
        if !has_payload(live, already[q]) {
            lemma_minus_complete(already, live, n, q);
            let p = choose|p: int| 0 <= p < removed.len() && #[trigger] removed[p] == already[q];
            assert(ids[p] == already[q].id);
        }
    }
    assert forall|i: int| 0 <= i < live.len() implies has_payload(store, #[trigger] live[i]) by {
        if has_payload(already, live[i]) {
            let q = choose|q: int| 0 <= q < already.len() && #[trigger] already[q].payload() == live[i].payload();
            assert(has_payload(live, already[q]));
            lemma_keep_complete(already, ids, n, q);
            let p = choose|p: int| 0 <= p < kept.len() && #[trigger] kept[p] == already[q];
            assert(store[p] == kept[p]);
        } else {
            lemma_minus_complete(live, already, live.len() as int, i);
            let p = choose|p: int| 0 <= p < added.len() && #[trigger] added[p] == live[i];
            assert(store[kept.len() + p] == added[p]);
        }
    }
    lemma_minus_empty(live, store, live.len() as int);
    assert forall|t: int| 0 <= t < store.len() implies has_payload(live, #[trigger] store[t]) by {
        if t < kept.len() {
            lemma_keep_member(already, ids, n, t);
            let q = choose|q: int| 0 <= q < n && #[trigger] already[q] == kept[t] && !ids.contains(already[q].id);
            assert(store[t] == kept[t]);
        } else {
            lemma_minus_member(live, already, live.len() as int, t - kept.len());
            let q = choose|q: int| 0 <= q < live.len() && #[trigger] live[q] == added[t - kept.len()] && !has_payload(already, live[q]);
            assert(store[t] == added[t - kept.len()]);
            assert(live[q].payload() == store[t].payload());
        }
    }
    lemma_minus_empty(store, live, store.len() as int);
}

} // verus!
