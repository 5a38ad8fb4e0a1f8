//! The differential synchronization cycle: given the previously persisted
//! index (the baseline) and the records freshly fetched from the remote,
//! decide which cached bodies to invalidate, merge the two record sets
//! with the fetched record winning on conflict, order the result by
//! timestamp descending, and assemble the new index.
//!
//! Fetching itself and persisting the index are input/output concerns of
//! the surrounding program; every decision they act on is made here.

use crate::cache::{store_delete, store_wf, ContentCache, StoreV};
use crate::types::{
    find_gist_index, first_gist_with_id, gist_ids_unique, gists_view, has_gist_id, index_wf,
    lemma_first_gist_at, lemma_first_gist_none, CacheMetadata, GistCache, GistInfo, GistInfoV,
};
use vstd::multiset::Multiset;
use vstd::prelude::*;

verus! {

/// Whether a fetched record invalidates the cached bodies of its gist:
/// the baseline knows the id and the timestamps differ - in either
/// direction, inequality rather than "newer than".
pub open spec fn is_changed(olds: Seq<GistInfoV>, g: GistInfoV) -> bool {
    match first_gist_with_id(olds, g.id) {
        Option::Some(o) => o.updated_at != g.updated_at,
        Option::None => false,
    }
}

/// The ids whose cached bodies a fetch invalidates, in fetch order.
pub open spec fn changed_ids(olds: Seq<GistInfoV>, fetched: Seq<GistInfoV>) -> Seq<Seq<char>>
    decreases fetched.len(),
{
    if fetched.len() == 0 {
        Seq::empty()
    } else {
        changed_ids(olds, fetched.drop_last()) + (if is_changed(olds, fetched.last()) {
            seq![fetched.last().id]
        } else {
            Seq::empty()
        })
    }
}

/// One fetched record merged into an accumulated record list: it replaces
/// the first record with its id, or is appended if the id is new.
pub open spec fn merge_one(acc: Seq<GistInfoV>, g: GistInfoV) -> Seq<GistInfoV>
    decreases acc.len(),
{
    if acc.len() == 0 {
        seq![g]
    } else if acc[0].id == g.id {
        seq![g] + acc.drop_first()
    } else {
        seq![acc[0]] + merge_one(acc.drop_first(), g)
    }
}

/// The whole merge: the baseline records, then every fetched record folded
/// in left to right - so on conflict the fetched record wins, and of two
/// fetched records with one id the later wins.
pub open spec fn merge_seq(olds: Seq<GistInfoV>, fetched: Seq<GistInfoV>) -> Seq<GistInfoV>
    decreases fetched.len(),
{
    if fetched.len() == 0 {
        olds
    } else {
        merge_one(merge_seq(olds, fetched.drop_last()), fetched.last())
    }
}

/// Most recently updated first.
pub open spec fn sorted_by_updated_desc(gists: Seq<GistInfoV>) -> bool {
    forall|i: int, j: int| 0 <= i < j < gists.len() ==> gists[i].updated_at >= gists[j].updated_at
}

// ---------------------------------------------------------------------
// Bridging lemmas.
// ---------------------------------------------------------------------

/// Unfolding `changed_ids` over a prefix, one fetched record at a time.
pub proof fn lemma_changed_ids_take_step(olds: Seq<GistInfoV>, fetched: Seq<GistInfoV>, i: int)
    requires
        0 <= i < fetched.len(),
    ensures
        changed_ids(olds, fetched.take(i + 1)) == changed_ids(olds, fetched.take(i)) + (
        if is_changed(olds, fetched[i]) {
            seq![fetched[i].id]
        } else {
            Seq::empty()
        }),
{
    assert(fetched.take(i + 1).drop_last() =~= fetched.take(i));
    assert(fetched.take(i + 1).last() == fetched[i]);
}

/// Unfolding `merge_seq` over a prefix, one fetched record at a time.
pub proof fn lemma_merge_seq_take_step(olds: Seq<GistInfoV>, fetched: Seq<GistInfoV>, i: int)
    requires
        0 <= i < fetched.len(),
    ensures
        merge_seq(olds, fetched.take(i + 1)) == merge_one(
            merge_seq(olds, fetched.take(i)),
            fetched[i],
        ),
{
    assert(fetched.take(i + 1).drop_last() =~= fetched.take(i));
    assert(fetched.take(i + 1).last() == fetched[i]);
}

/// A first match at index `i` turns `merge_one` into an in-place update.
pub proof fn lemma_merge_one_at(acc: Seq<GistInfoV>, g: GistInfoV, i: int)
    requires
        0 <= i < acc.len(),
        acc[i].id == g.id,
        forall|k: int| 0 <= k < i ==> acc[k].id != g.id,
    ensures
        merge_one(acc, g) == acc.update(i, g),
    decreases i,
{
    if i == 0 {
        assert(merge_one(acc, g) =~= acc.update(0, g));
    } else {
        lemma_merge_one_at(acc.drop_first(), g, i - 1);
        assert(merge_one(acc, g) =~= acc.update(i, g));
    }
}

/// With no match anywhere, `merge_one` appends.
pub proof fn lemma_merge_one_append(acc: Seq<GistInfoV>, g: GistInfoV)
    requires
        forall|k: int| 0 <= k < acc.len() ==> acc[k].id != g.id,
    ensures
        merge_one(acc, g) == acc + seq![g],
    decreases acc.len(),
{
    if acc.len() == 0 {
        assert(merge_one(acc, g) =~= acc + seq![g]);
    } else {
        lemma_merge_one_append(acc.drop_first(), g);
        assert(merge_one(acc, g) =~= acc + seq![g]);
    }
}

/// Folding one record in keeps ids unique; the merged set of ids is the
/// old set plus the record's.
pub proof fn lemma_merge_one_unique(acc: Seq<GistInfoV>, g: GistInfoV)
    requires
        gist_ids_unique(acc),
    ensures
        gist_ids_unique(merge_one(acc, g)),
        forall|id: Seq<char>|
            #[trigger] has_gist_id(merge_one(acc, g), id) <==> (has_gist_id(acc, id) || id == g.id),
    decreases acc.len(),
{
    if acc.len() == 0 {
        assert forall|id: Seq<char>| #[trigger]
            has_gist_id(merge_one(acc, g), id) <==> (has_gist_id(acc, id) || id == g.id) by {
            if has_gist_id(merge_one(acc, g), id) {
                let w = choose|w: int|
                    0 <= w < merge_one(acc, g).len() && merge_one(acc, g)[w].id == id;
                assert(w == 0);
            }
            if id == g.id {
                assert(merge_one(acc, g)[0].id == id);
            }
        }
    } else if acc[0].id == g.id {
        let m = merge_one(acc, g);
        assert(m =~= seq![g] + acc.drop_first());
        assert forall|a: int, b: int| 0 <= a < b < m.len() implies m[a].id != m[b].id by {
            if a == 0 {
                assert(m[b] == acc[b]);
                assert(acc[0].id != acc[b].id);
            } else {
                assert(m[a] == acc[a] && m[b] == acc[b]);
            }
        }
        assert forall|id: Seq<char>| #[trigger]
            has_gist_id(m, id) <==> (has_gist_id(acc, id) || id == g.id) by {
            if has_gist_id(m, id) {
                let w = choose|w: int| 0 <= w < m.len() && m[w].id == id;
                if w == 0 {
                } else {
                    assert(acc[w].id == id);
                }
            }
            if has_gist_id(acc, id) {
                let w = choose|w: int| 0 <= w < acc.len() && acc[w].id == id;
                if w == 0 {
                    assert(m[0].id == id);
                } else {
                    assert(m[w].id == id);
                }
            }
            if id == g.id {
                assert(m[0].id == id);
            }
        }
    } else {
        assert(gist_ids_unique(acc.drop_first())) by {
            assert(forall|k: int|
                0 <= k < acc.drop_first().len() ==> acc.drop_first()[k] == acc[k + 1]);
        }
        lemma_merge_one_unique(acc.drop_first(), g);
        let m = merge_one(acc, g);
        let mrest = merge_one(acc.drop_first(), g);
        assert(m =~= seq![acc[0]] + mrest);
        assert forall|a: int, b: int| 0 <= a < b < m.len() implies m[a].id != m[b].id by {
            if a == 0 {
                assert(m[b] == mrest[b - 1]);
                assert(has_gist_id(mrest, m[b].id)) by {
                    assert(mrest[b - 1].id == m[b].id);
                }
                if m[b].id == acc[0].id {
                    assert(has_gist_id(acc.drop_first(), acc[0].id) || acc[0].id == g.id);
                    if has_gist_id(acc.drop_first(), acc[0].id) {
                        let w = choose|w: int|
                            0 <= w < acc.drop_first().len() && acc.drop_first()[w].id == acc[0].id;
                        assert(acc[w + 1].id == acc[0].id);
                        assert(false);
                    }
                }
            } else {
                assert(m[a] == mrest[a - 1] && m[b] == mrest[b - 1]);
            }
        }
        assert forall|id: Seq<char>| #[trigger]
            has_gist_id(m, id) <==> (has_gist_id(acc, id) || id == g.id) by {
            if has_gist_id(m, id) {
                let w = choose|w: int| 0 <= w < m.len() && m[w].id == id;
                if w == 0 {
                    assert(acc[0].id == id);
                } else {
                    assert(mrest[w - 1].id == id);
                    assert(has_gist_id(mrest, id));
                    if has_gist_id(acc.drop_first(), id) {
                        let v = choose|v: int|
                            0 <= v < acc.drop_first().len() && acc.drop_first()[v].id == id;
                        assert(acc[v + 1].id == id);
                    }
                }
            }
            if has_gist_id(acc, id) {
                let w = choose|w: int| 0 <= w < acc.len() && acc[w].id == id;
                if w == 0 {
                    assert(m[0].id == id);
                } else {
                    assert(acc.drop_first()[w - 1].id == id);
                    assert(has_gist_id(acc.drop_first(), id));
                    assert(has_gist_id(mrest, id));
                    let v = choose|v: int| 0 <= v < mrest.len() && mrest[v].id == id;
                    assert(m[v + 1].id == id);
                }
            }
            if id == g.id {
                assert(has_gist_id(mrest, id));
                let v = choose|v: int| 0 <= v < mrest.len() && mrest[v].id == id;
                assert(m[v + 1].id == id);
            }
        }
    }
}

/// The whole merge keeps ids unique, and its ids are the union of the
/// baseline's and the fetch's.
pub proof fn lemma_merge_unique(olds: Seq<GistInfoV>, fetched: Seq<GistInfoV>)
    requires
        gist_ids_unique(olds),
    ensures
        gist_ids_unique(merge_seq(olds, fetched)),
        forall|id: Seq<char>|
            #[trigger] has_gist_id(merge_seq(olds, fetched), id) <==> (has_gist_id(olds, id)
                || has_gist_id(fetched, id)),
    decreases fetched.len(),
{
    if fetched.len() == 0 {
        assert forall|id: Seq<char>| #[trigger]
            has_gist_id(merge_seq(olds, fetched), id) <==> (has_gist_id(olds, id) || has_gist_id(
                fetched,
                id,
            )) by {
            if has_gist_id(fetched, id) {
                let w = choose|w: int| 0 <= w < fetched.len() && fetched[w].id == id;
            }
        }
    } else {
        let dl = fetched.drop_last();
        lemma_merge_unique(olds, dl);
        lemma_merge_one_unique(merge_seq(olds, dl), fetched.last());
        assert forall|id: Seq<char>| #[trigger]
            has_gist_id(merge_seq(olds, fetched), id) <==> (has_gist_id(olds, id) || has_gist_id(
                fetched,
                id,
            )) by {
            assert(has_gist_id(merge_seq(olds, fetched), id) <==> (has_gist_id(
                merge_seq(olds, dl),
                id,
            ) || id == fetched.last().id));
            if has_gist_id(dl, id) {
                let w = choose|w: int| 0 <= w < dl.len() && dl[w].id == id;
                assert(fetched[w].id == id);
            }
            if id == fetched.last().id {
                assert(fetched[fetched.len() - 1].id == id);
            }
            if has_gist_id(fetched, id) && id != fetched.last().id {
                let w = choose|w: int| 0 <= w < fetched.len() && fetched[w].id == id;
                assert(dl[w].id == id);
            }
        }
    }
}

// ---------------------------------------------------------------------
// Sequential eviction over the store model.
// ---------------------------------------------------------------------

/// The store after deleting every id in `ids`, front to back.
pub open spec fn spec_delete_ids(v: StoreV, ids: Seq<Seq<char>>) -> StoreV
    decreases ids.len(),
{
    if ids.len() == 0 {
        v
    } else {
        spec_delete_ids(store_delete(v, ids.first()), ids.drop_first())
    }
}

/// How many of the deletions in `ids` actually removed a directory.
pub open spec fn spec_delete_hits(v: StoreV, ids: Seq<Seq<char>>) -> nat
    decreases ids.len(),
{
    if ids.len() == 0 {
        0
    } else {
        (if crate::cache::has_dir(v.dirs, ids.first()) {
            1nat
        } else {
            0
        }) + spec_delete_hits(store_delete(v, ids.first()), ids.drop_first())
    }
}


/// The last record in `gists` carrying `id`, if any: with repeated fetched
/// ids, the later record is the one that counts.
pub open spec fn last_gist_with_id(gists: Seq<GistInfoV>, id: Seq<char>) -> Option<GistInfoV>
    decreases gists.len(),
{
    if gists.len() == 0 {
        Option::None
    } else if gists.last().id == id {
        Option::Some(gists.last())
    } else {
        last_gist_with_id(gists.drop_last(), id)
    }
}

/// Folding one record in: under its own id the record is what is found;
/// every other id resolves as before.
pub proof fn lemma_merge_one_lookup(acc: Seq<GistInfoV>, g: GistInfoV, id: Seq<char>)
    ensures
        first_gist_with_id(merge_one(acc, g), id) == (if id == g.id {
            Option::Some(g)
        } else {
            first_gist_with_id(acc, id)
        }),
    decreases acc.len(),
{
    if acc.len() == 0 {
    } else if acc[0].id == g.id {
        assert(merge_one(acc, g).drop_first() =~= acc.drop_first());
        if id != g.id {
            assert(first_gist_with_id(acc, id) == first_gist_with_id(acc.drop_first(), id));
        }
    } else {
        lemma_merge_one_lookup(acc.drop_first(), g, id);
        assert(merge_one(acc, g).drop_first() =~= merge_one(acc.drop_first(), g));
        assert(merge_one(acc, g)[0] == acc[0]);
    }
}

/// Merge correctness: under each id the merged index holds the last
/// fetched record with that id, and where the fetch had none, the
/// baseline record - the fetched record always wins on conflict.
pub proof fn lemma_merge_resolves(olds: Seq<GistInfoV>, fetched: Seq<GistInfoV>, id: Seq<char>)
    ensures
        first_gist_with_id(merge_seq(olds, fetched), id) == (match last_gist_with_id(fetched, id) {
            Option::Some(g) => Option::Some(g),
            Option::None => first_gist_with_id(olds, id),
        }),
    decreases fetched.len(),
{
    if fetched.len() > 0 {
        lemma_merge_resolves(olds, fetched.drop_last(), id);
        lemma_merge_one_lookup(merge_seq(olds, fetched.drop_last()), fetched.last(), id);
    }
}

// ---------------------------------------------------------------------
// The executable cycle.
// ---------------------------------------------------------------------

/// The ids whose cached bodies must be evicted: fetched records whose id
/// the baseline also carries, with a different `updated_at` - inequality
/// in either direction, not "newer than".
pub fn changed_gist_ids(olds: &Vec<GistInfo>, fetched: &Vec<GistInfo>) -> (r: Vec<String>)
    ensures
        r@.map_values(|s: String| s@) == changed_ids(gists_view(olds@), gists_view(fetched@)),
{
    let ghost ov = gists_view(olds@);
    let ghost fv = gists_view(fetched@);
    let mut out: Vec<String> = Vec::new();
    let mut i: usize = 0;
    while i < fetched.len()
        invariant
            i <= fetched.len(),
            ov == gists_view(olds@),
            fv == gists_view(fetched@),
            fv.len() == fetched.len(),
            out@.map_values(|s: String| s@) == changed_ids(ov, fv.take(i as int)),
        decreases fetched.len() - i,
    {
        proof {
            lemma_changed_ids_take_step(ov, fv, i as int);
            assert(fv[i as int] == fetched@[i as int]@);
        }
        let ghost oldout = out@;
        match find_gist_index(olds, fetched[i].id.as_str()) {
            Option::Some(j) => {
                proof {
                    assert forall|k: int| 0 <= k < j implies ov[k].id != fv[i as int].id by {
                        assert(ov[k] == olds@[k]@);
                    }
                    assert(ov[j as int] == olds@[j as int]@);
                    lemma_first_gist_at(ov, fv[i as int].id, j as int);
                }
                if olds[j].updated_at != fetched[i].updated_at {
                    out.push(fetched[i].id.clone());
                    proof {
                        assert(out@.map_values(|s: String| s@) =~= oldout.map_values(
                            |s: String| s@,
                        ) + seq![fv[i as int].id]);
                    }
                } else {
                    proof {
                        assert(out@.map_values(|s: String| s@) =~= changed_ids(
                            ov,
                            fv.take(i + 1),
                        ));
                    }
                }
            },
            Option::None => {
                proof {
                    assert forall|k: int| 0 <= k < ov.len() implies ov[k].id != fv[i as int].id by {
                        assert(ov[k] == olds@[k]@);
                    }
                    lemma_first_gist_none(ov, fv[i as int].id);
                    assert(out@.map_values(|s: String| s@) =~= changed_ids(ov, fv.take(i + 1)));
                }
            },
        }
        i = i + 1;
    }
    proof {
        assert(fv.take(fv.len() as int) =~= fv);
    }
    out
}

/// Merge the fetched records into the baseline records by id: each fetched
/// record replaces the baseline record with its id in place, or is
/// appended - the fetched record always wins, even when timestamps are
/// (degenerately) equal.
pub fn merge_gists(olds: Vec<GistInfo>, fetched: Vec<GistInfo>) -> (r: Vec<GistInfo>)
    ensures
        gists_view(r@) == merge_seq(gists_view(olds@), gists_view(fetched@)),
{
    let ghost ov = gists_view(olds@);
    let ghost fv = gists_view(fetched@);
    let ghost prefetched = fetched@;
    let mut acc = olds;
    let mut rem = fetched;
    let ghost t = 0int;
    proof {
        assert(rem@ =~= prefetched.subrange(0, prefetched.len() as int));
        assert(gists_view(acc@) =~= merge_seq(ov, fv.take(0)));
    }
    while rem.len() > 0
        invariant
            0 <= t <= prefetched.len(),
            fv == gists_view(prefetched),
            fv.len() == prefetched.len(),
            rem@ == prefetched.subrange(t, prefetched.len() as int),
            gists_view(acc@) == merge_seq(ov, fv.take(t)),
        decreases rem.len(),
    {
        proof {
            lemma_merge_seq_take_step(ov, fv, t);
        }
        let g = rem.remove(0);
        let ghost gv = g@;
        proof {
            assert(g == prefetched[t]);
            assert(rem@ =~= prefetched.subrange(t + 1, prefetched.len() as int));
            assert(gists_view(prefetched)[t] == prefetched[t]@);
            assert(gv == fv[t]);
        }
        let ghost mprev = gists_view(acc@);
        match find_gist_index(&acc, g.id.as_str()) {
            Option::Some(j) => {
                proof {
                    assert forall|k: int| 0 <= k < j implies mprev[k].id != gv.id by {
                        assert(mprev[k] == acc@[k]@);
                    }
                    assert(mprev[j as int] == acc@[j as int]@);
                    lemma_merge_one_at(mprev, gv, j as int);
                }
                acc.set(j, g);
                proof {
                    assert(gists_view(acc@) =~= mprev.update(j as int, gv));
                }
            },
            Option::None => {
                proof {
                    assert forall|k: int| 0 <= k < mprev.len() implies mprev[k].id != gv.id by {
                        assert(mprev[k] == acc@[k]@);
                    }
                    lemma_merge_one_append(mprev, gv);
                }
                acc.push(g);
                proof {
                    assert(gists_view(acc@) =~= mprev + seq![gv]);
                }
            },
        }
        proof {
            t = t + 1;
        }
    }
    proof {
        assert(fv.take(fv.len() as int) =~= fv);
    }
    acc
}


/// Sort the records most-recently-updated first. The record multiset is
/// unchanged, and distinct ids stay distinct.
pub fn sort_gists_by_updated_desc(gists: &mut Vec<GistInfo>)
    ensures
        sorted_by_updated_desc(gists_view(final(gists)@)),
        gists_view(final(gists)@).to_multiset() == gists_view(old(gists)@).to_multiset(),
        final(gists)@.len() == old(gists)@.len(),
        gist_ids_unique(gists_view(old(gists)@)) ==> gist_ids_unique(gists_view(final(gists)@)),
{
    broadcast use vstd::seq_lib::group_to_multiset_ensures;

    let ghost orig = gists@;
    let ghost ov = gists_view(orig);
    let ghost uniq = gist_ids_unique(ov);
    let mut out: Vec<GistInfo> = Vec::new();
    let ghost t = 0int;
    proof {
        assert(gists@ =~= orig.subrange(0, orig.len() as int));
        assert(gists_view(out@) =~= Seq::<GistInfoV>::empty());
        assert(ov.take(0) =~= Seq::<GistInfoV>::empty());
        assert(gists_view(out@).to_multiset() =~= ov.take(0).to_multiset());
    }
    while gists.len() > 0
        invariant
            0 <= t <= orig.len(),
            ov == gists_view(orig),
            ov.len() == orig.len(),
            uniq == gist_ids_unique(ov),
            gists@ == orig.subrange(t, orig.len() as int),
            out@.len() == t,
            sorted_by_updated_desc(gists_view(out@)),
            gists_view(out@).to_multiset() == ov.take(t).to_multiset(),
            uniq ==> gist_ids_unique(gists_view(out@)),
            uniq ==> forall|a: int, l: int|
                0 <= a < out@.len() && t <= l < orig.len() ==> gists_view(out@)[a].id != ov[l].id,
        decreases gists.len(),
    {
        let g = gists.remove(0);
        let ghost gv = g@;
        proof {
            assert(g == orig[t]);
            assert(gists@ =~= orig.subrange(t + 1, orig.len() as int));
            assert(gists_view(orig)[t] == orig[t]@);
            assert(gv == ov[t]);
        }
        let ghost outprev = gists_view(out@);
        let mut p: usize = 0;
        while p < out.len() && out[p].updated_at >= g.updated_at
            invariant
                p <= out.len(),
                outprev == gists_view(out@),
                outprev.len() == out.len(),
                gv == g@,
                forall|k: int| 0 <= k < p ==> outprev[k].updated_at >= gv.updated_at,
            decreases out.len() - p,
        {
            proof {
                assert(outprev[p as int] == out@[p as int]@);
            }
            p = p + 1;
        }
        proof {
            if (p as int) < out@.len() {
                assert(outprev[p as int] == out@[p as int]@);
                assert(outprev[p as int].updated_at < gv.updated_at);
            }
        }
        out.insert(p, g);
        proof {
            let outnew = gists_view(out@);
            assert(outnew =~= outprev.insert(p as int, gv));
            // sortedness of the new list
            assert forall|a: int, b: int|
                0 <= a < b < outnew.len() implies outnew[a].updated_at
                >= outnew[b].updated_at by {
                if a < p && b == p {
                } else if a == p && b > p {
                    assert(sorted_by_updated_desc(outprev));
                    assert(outprev[p as int].updated_at >= outnew[b].updated_at);
                } else if a < p && b > p {
                    assert(outnew[a] == outprev[a] && outnew[b] == outprev[b - 1]);
                } else if a > p || b < p {
                    assert(outnew[a] == outprev[if a < p { a } else { a - 1 }]);
                }
            }
            // the multiset gains exactly the inserted record
            vstd::seq_lib::to_multiset_insert(outprev, p as int, gv);
            assert(outnew.to_multiset() == outprev.to_multiset().insert(gv));
            assert(ov.take(t + 1) =~= ov.take(t).push(gv));
            vstd::seq_lib::to_multiset_build(ov.take(t), gv);
            assert(ov.take(t + 1).to_multiset() == ov.take(t).to_multiset().insert(gv));
            // distinct ids stay distinct
            if uniq {
                assert forall|a: int, b: int|
                    0 <= a < b < outnew.len() implies outnew[a].id != outnew[b].id by {
                    if a == p {
                        assert(outnew[b] == outprev[b - 1]);
                    } else if b == p {
                        assert(outnew[a] == outprev[a]);
                    } else {
                        assert(outnew[a] == outprev[if a < p { a } else { a - 1 }]);
                        assert(outnew[b] == outprev[if b < p { b } else { b - 1 }]);
                    }
                }
                assert forall|a: int, l: int|
                    0 <= a < outnew.len() && t + 1 <= l < orig.len() implies outnew[a].id
                    != ov[l].id by {
                    if a != p {
                        assert(outnew[a] == outprev[if a < p { a } else { a - 1 }]);
                    }
                }
            }
            t = t + 1;
        }
    }
    proof {
        assert(orig.subrange(t, orig.len() as int).len() == 0);
        assert(t == orig.len());
        assert(ov.take(t) =~= ov);
    }
    *gists = out;
}

/// Assemble a fresh index around `gists`: the header carries the moment of
/// the cycle, the record count, and the owning user.
pub fn build_index(gists: Vec<GistInfo>, github_user: String, now: i64) -> (r: GistCache)
    ensures
        r.metadata.last_updated == now,
        r.metadata.total_count == r.gists@.len(),
        r.metadata.github_user@ == github_user@,
        gists_view(r.gists@) == gists_view(gists@),
{
    let total_count = gists.len();
    GistCache {
        metadata: CacheMetadata { last_updated: now, total_count, github_user },
        gists,
    }
}


/// The baseline's records, or nothing when no index was persisted yet (or
/// a full resync was forced).
pub open spec fn baseline_gists(baseline: Option<GistCache>) -> Seq<GistInfoV> {
    match baseline {
        Option::Some(b) => gists_view(b.gists@),
        Option::None => Seq::empty(),
    }
}

/// What one synchronization cycle produced.
pub struct SyncOutcome {
    /// The new metadata index, ready to persist.
    pub cache: GistCache,
    /// The ids whose cached bodies the cycle invalidated, in fetch order.
    pub invalidated: Vec<String>,
    /// How many of those invalidations removed an actual directory.
    pub deleted_count: usize,
}

/// One complete synchronization cycle over in-memory state: evict the
/// cached bodies of every gist whose fetched timestamp differs from the
/// baseline's, merge the fetched records into the baseline with the
/// fetched record winning, order by timestamp descending, and assemble
/// the new index stamped `now`. When a baseline exists and the fetch
/// returned nothing, the baseline's records pass through unchanged.
pub fn apply_sync_cycle(
    baseline: Option<GistCache>,
    fetched: Vec<GistInfo>,
    github_user: String,
    now: i64,
    store: &mut ContentCache,
) -> (r: SyncOutcome)
    requires
        store_wf(old(store)@),
        baseline matches Option::Some(b) ==> gist_ids_unique(gists_view(b.gists@)),
    ensures
        r.invalidated@.map_values(|s: String| s@) == changed_ids(
            baseline_gists(baseline),
            gists_view(fetched@),
        ),
        final(store)@ == spec_delete_ids(
            old(store)@,
            changed_ids(baseline_gists(baseline), gists_view(fetched@)),
        ),
        store_wf(final(store)@),
        r.deleted_count == spec_delete_hits(
            old(store)@,
            changed_ids(baseline_gists(baseline), gists_view(fetched@)),
        ),
        r.cache.metadata.last_updated == now,
        r.cache.metadata.github_user@ == github_user@,
        index_wf(r.cache@),
        (baseline is Some && fetched@.len() == 0) ==> gists_view(r.cache.gists@)
            == baseline_gists(baseline),
        !(baseline is Some && fetched@.len() == 0) ==> {
            &&& sorted_by_updated_desc(gists_view(r.cache.gists@))
            &&& gists_view(r.cache.gists@).to_multiset() == merge_seq(
                baseline_gists(baseline),
                gists_view(fetched@),
            ).to_multiset()
        },
{
    let ghost bg = baseline_gists(baseline);
    let ghost fv = gists_view(fetched@);
    let had_baseline = baseline.is_some();
    let old_gists: Vec<GistInfo> = match baseline {
        Option::Some(b) => b.gists,
        Option::None => Vec::new(),
    };
    proof {
        if !had_baseline {
            assert(gists_view(old_gists@) =~= bg);
        }
        assert(gist_ids_unique(bg));
    }
    let invalidated = changed_gist_ids(&old_gists, &fetched);
    let ghost ids = changed_ids(bg, fv);
    let ghost idmap = invalidated@.map_values(|s: String| s@);
    let ghost pre = store@;
    let mut deleted_count: usize = 0;
    let mut k: usize = 0;
    proof {
        assert(idmap.skip(0) =~= idmap);
    }
    while k < invalidated.len()
        invariant
            k <= invalidated.len(),
            idmap == invalidated@.map_values(|s: String| s@),
            idmap.len() == invalidated.len(),
            store_wf(store@),
            spec_delete_ids(store@, idmap.skip(k as int)) == spec_delete_ids(pre, idmap),
            deleted_count + spec_delete_hits(store@, idmap.skip(k as int)) == spec_delete_hits(
                pre,
                idmap,
            ),
            deleted_count <= k,
        decreases invalidated.len() - k,
    {
        proof {
            assert(idmap[k as int] == invalidated@[k as int]@);
            assert(idmap.skip(k as int).first() == idmap[k as int]);
            assert(idmap.skip(k as int).drop_first() =~= idmap.skip(k + 1));
        }
        let ghost cur = store@;
        match store.delete_gist(invalidated[k].as_str()) {
            Result::Ok(removed) => {
                if removed {
                    deleted_count = deleted_count + 1;
                }
            },
            Result::Err(_) => {},
        }
        proof {
            assert(store@ == store_delete(cur, idmap[k as int]));
            assert(spec_delete_ids(cur, idmap.skip(k as int)) == spec_delete_ids(
                store@,
                idmap.skip(k + 1),
            ));
            assert(spec_delete_hits(cur, idmap.skip(k as int)) == (if crate::cache::has_dir(
                cur.dirs,
                idmap[k as int],
            ) {
                1nat
            } else {
                0
            }) + spec_delete_hits(store@, idmap.skip(k + 1)));
        }
        k = k + 1;
    }
    proof {
        assert(idmap.skip(idmap.len() as int) =~= Seq::<Seq<char>>::empty());
        assert(spec_delete_ids(store@, idmap.skip(idmap.len() as int)) == store@);
        assert(idmap == ids);
    }
    let final_gists: Vec<GistInfo> = if had_baseline && fetched.len() == 0 {
        old_gists
    } else {
        proof {
            lemma_merge_unique(bg, fv);
        }
        let mut merged = merge_gists(old_gists, fetched);
        sort_gists_by_updated_desc(&mut merged);
        merged
    };
    let cache = build_index(final_gists, github_user, now);
    SyncOutcome { cache, invalidated, deleted_count }
}


/// Assemble a fresh index around `gists`, stamped with the clock's
/// current moment. Whatever the clock reads, the count, the owner and the
/// records are as given.
pub fn build_index_now(gists: Vec<GistInfo>, github_user: String) -> (r: GistCache)
    ensures
        r.metadata.total_count == r.gists@.len(),
        r.metadata.github_user@ == github_user@,
        gists_view(r.gists@) == gists_view(gists@),
{
    let now = crate::time::now_timestamp();
    build_index(gists, github_user, now)
}

} // verus!