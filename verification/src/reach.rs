use vstd::prelude::*;
use crate::bitset::BitSet;
use crate::ids::ModuleId;
use crate::import_record::ImportRecord;

verus! {

/// The module graph as reachability reads it: for each module, its import
/// edges in order. Static and dynamic edges count alike.
pub open spec fn graph_ok(graph: Seq<Vec<ImportRecord>>) -> bool {
    forall|u: int, k: int|
        0 <= u < graph.len() && 0 <= k < graph[u]@.len() ==> (
        #[trigger] graph[u]@[k]).resolved_module.0 < graph.len()
}

/// Module `u` has an import edge to module `v`.
pub open spec fn has_edge(graph: Seq<Vec<ImportRecord>>, u: int, v: int) -> bool {
    0 <= u < graph.len() && exists|k: int|
        0 <= k < graph[u]@.len() && (#[trigger] graph[u]@[k]).resolved_module.0 == v
}

/// `path` follows import edges from its first module to its last.
pub open spec fn is_path(graph: Seq<Vec<ImportRecord>>, path: Seq<int>) -> bool {
    path.len() > 0 && forall|i: int|
        0 <= i < path.len() - 1 ==> has_edge(graph, #[trigger] path[i], path[i + 1])
}

/// Module `to` is `from` itself or can be reached from it through import
/// edges.
pub open spec fn reaches(graph: Seq<Vec<ImportRecord>>, from: int, to: int) -> bool {
    exists|path: Seq<int>| #[trigger] is_path(graph, path) && path[0] == from && path.last() == to
}

/// How many modules are not marked.
pub open spec fn unseen(seen: Seq<bool>) -> nat
    decreases seen.len(),
{
    if seen.len() == 0 {
        0
    } else {
        unseen(seen.drop_last()) + if seen.last() {
            0nat
        } else {
            1nat
        }
    }
}

proof fn lemma_unseen_update(seen: Seq<bool>, i: int)
    requires
        0 <= i < seen.len(),
        !seen[i],
    ensures
        unseen(seen.update(i, true)) + 1 == unseen(seen),
    decreases seen.len(),
{
    if i == seen.len() - 1 {
        assert(seen.update(i, true).drop_last() =~= seen.drop_last());
    } else {
        lemma_unseen_update(seen.drop_last(), i);
        assert(seen.update(i, true).drop_last() =~= seen.drop_last().update(i, true));
    }
}

proof fn lemma_reaches_self(graph: Seq<Vec<ImportRecord>>, m: int)
    ensures
        reaches(graph, m, m),
{
    let path = seq![m];
    assert(is_path(graph, path) && path[0] == m && path.last() == m);
}

proof fn lemma_reaches_step(graph: Seq<Vec<ImportRecord>>, from: int, u: int, v: int)
    requires
        reaches(graph, from, u),
        has_edge(graph, u, v),
    ensures
        reaches(graph, from, v),
{
    let path = choose|path: Seq<int>| #[trigger]
        is_path(graph, path) && path[0] == from && path.last() == u;
    let longer = path.push(v);
    assert forall|i: int| 0 <= i < longer.len() - 1 implies has_edge(
        graph,
        #[trigger] longer[i],
        longer[i + 1],
    ) by {
        if i < path.len() - 1 {
            assert(has_edge(graph, path[i], path[i + 1]));
        }
    }
    assert(is_path(graph, longer) && longer[0] == from && longer.last() == v);
}

/// The marks are closed under import edges.
pub open spec fn closed(graph: Seq<Vec<ImportRecord>>, seen: Seq<bool>) -> bool {
    forall|u: int, k: int|
        0 <= u < graph.len() && seen[u] && 0 <= k < graph[u]@.len() ==> seen[(
        #[trigger] graph[u]@[k]).resolved_module.0 as int]
}

proof fn lemma_closed_holds_paths(graph: Seq<Vec<ImportRecord>>, seen: Seq<bool>, path: Seq<int>)
    requires
        graph_ok(graph),
        seen.len() == graph.len(),
        closed(graph, seen),
        is_path(graph, path),
        0 <= path[0] < graph.len(),
        seen[path[0]],
    ensures
        0 <= path.last() < graph.len(),
        seen[path.last()],
    decreases path.len(),
{
    if path.len() > 1 {
        let shorter = path.drop_last();
        assert forall|i: int| 0 <= i < shorter.len() - 1 implies has_edge(
            graph,
            #[trigger] shorter[i],
            shorter[i + 1],
        ) by {
            assert(has_edge(graph, path[i], path[i + 1]));
        }
        lemma_closed_holds_paths(graph, seen, shorter);
        let u = shorter.last();
        assert(u == path[path.len() - 2]);
        assert(has_edge(graph, path[path.len() - 2], path[path.len() - 2 + 1]));
        let k = choose|k: int|
            0 <= k < graph[u]@.len() && (#[trigger] graph[u]@[k]).resolved_module.0 == path.last();
        assert(seen[graph[u]@[k].resolved_module.0 as int]);
    }
}

/// Marks the modules that `entry` reaches.
pub fn reachable_from(graph: &Vec<Vec<ImportRecord>>, entry: usize) -> (seen: Vec<bool>)
    requires
        graph_ok(graph@),
        entry < graph@.len(),
    ensures
        seen@.len() == graph@.len(),
        forall|m: int| 0 <= m < graph@.len() ==> seen@[m] == reaches(graph@, entry as int, m),
{
    let n = graph.len();
    let mut seen: Vec<bool> = Vec::new();
    let mut i: usize = 0;
    while i < n
        invariant
            i <= n,
            seen@.len() == i,
            forall|m: int| 0 <= m < i ==> !seen@[m],
        decreases n - i,
    {
        seen.push(false);
        i += 1;
    }
    seen.set(entry, true);
    let mut work: Vec<usize> = Vec::new();
    work.push(entry);
    proof {
        lemma_reaches_self(graph@, entry as int);
        assert(work@[0] == entry);
        assert(work@.contains(entry));
        assert(forall|m: int| 0 <= m < n && seen@[m] ==> m == entry);
    }
    while work.len() > 0
        invariant
            n == graph@.len(),
            graph_ok(graph@),
            entry < n,
            seen@.len() == n,
            seen@[entry as int],
            forall|m: int| 0 <= m < n && seen@[m] ==> reaches(graph@, entry as int, m),
            forall|w: int| 0 <= w < work@.len() ==> (#[trigger] work@[w]) < n && seen@[work@[w] as int],
            forall|u: int, k: int|
                0 <= u < n && seen@[u] && !work@.contains(u as usize) && 0 <= k < graph@[u]@.len()
                    ==> seen@[(#[trigger] graph@[u]@[k]).resolved_module.0 as int],
        decreases 2 * unseen(seen@) + work@.len(),
    {
        let ghost work_before = work@;
        let ghost measure = 2 * unseen(seen@) + work@.len();
        let u = work.pop().unwrap();
        assert(work_before[work_before.len() - 1] == u);
        assert forall|x: usize| x != u && !#[trigger] work@.contains(x) implies !work_before.contains(
            x,
        ) by {
            if work_before.contains(x) {
                let w = choose|w: int| 0 <= w < work_before.len() && work_before[w] == x;
                assert(work@[w] == x);
            }
        }
        let mut k: usize = 0;
        while k < graph[u].len()
            invariant
                n == graph@.len(),
                graph_ok(graph@),
                entry < n,
                u < n,
                seen@.len() == n,
                seen@[entry as int],
                seen@[u as int],
                k <= graph@[u as int]@.len(),
                forall|m: int| 0 <= m < n && seen@[m] ==> reaches(graph@, entry as int, m),
                forall|w: int|
                    0 <= w < work@.len() ==> (#[trigger] work@[w]) < n && seen@[work@[w] as int],
                forall|x: int, j: int|
                    0 <= x < n && x != u && seen@[x] && !work@.contains(x as usize) && 0 <= j
                        < graph@[x]@.len() ==> seen@[(
                    #[trigger] graph@[x]@[j]).resolved_module.0 as int],
                forall|j: int|
                    0 <= j < k ==> seen@[(
                    #[trigger] graph@[u as int]@[j]).resolved_module.0 as int],
                2 * unseen(seen@) + work@.len() < measure,
            decreases graph@[u as int]@.len() - k,
        {
            let v = graph[u][k].resolved_module.0 as usize;
            assert(graph@[u as int]@[k as int].resolved_module.0 < n);
            if !seen[v] {
                proof {
                    lemma_unseen_update(seen@, v as int);
                    assert(has_edge(graph@, u as int, v as int));
                    lemma_reaches_step(graph@, entry as int, u as int, v as int);
                }
                let ghost work_mid = work@;
                seen.set(v, true);
                work.push(v);
                proof {
                    assert forall|x: usize| !#[trigger] work@.contains(x) implies !work_mid.contains(
                        x,
                    ) by {
                        if work_mid.contains(x) {
                            let w = choose|w: int| 0 <= w < work_mid.len() && work_mid[w] == x;
                            assert(work@[w] == x);
                        }
                    }
                    assert(work@[work@.len() - 1] == v);
                    assert(work@.contains(v));
                }
            }
            k += 1;
        }
    }
    proof {
        assert(closed(graph@, seen@)) by {
            assert forall|u: int, k: int|
                0 <= u < graph@.len() && seen@[u] && 0 <= k < graph@[u]@.len() implies seen@[(
            #[trigger] graph@[u]@[k]).resolved_module.0 as int] by {
                assert(!work@.contains(u as usize));
            }
        }
        assert forall|m: int| 0 <= m < graph@.len() implies seen@[m] == reaches(
            graph@,
            entry as int,
            m,
        ) by {
            if reaches(graph@, entry as int, m) {
                let path = choose|path: Seq<int>| #[trigger]
                    is_path(graph@, path) && path[0] == entry as int && path.last() == m;
                lemma_closed_holds_paths(graph@, seen@, path);
            }
        }
    }
    seen
}

/// The fingerprints are those of the graph: bit `k` of module `m` is set
/// exactly when entry point `k` reaches `m`, and no other bit is set.
pub open spec fn is_reachability_of(
    bits: Seq<BitSet>,
    graph: Seq<Vec<ImportRecord>>,
    entries: Seq<ModuleId>,
) -> bool {
    &&& bits.len() == graph.len()
    &&& forall|m: int|
        0 <= m < bits.len() ==> {
            &&& (#[trigger] bits[m])@.len() == (entries.len() + 7) / 8
            &&& forall|k: nat|
                k < bits[m].capacity() ==> #[trigger] bits[m].has(k) == (k < entries.len()
                    && reaches(graph, entries[k as int].0 as int, m))
        }
}

/// Computes the reachability fingerprint of every module.
pub fn compute_reachability(graph: &Vec<Vec<ImportRecord>>, entries: &Vec<ModuleId>) -> (bits: Vec<BitSet>)
    requires
        graph_ok(graph@),
        entries@.len() <= u32::MAX,
        forall|k: int| 0 <= k < entries@.len() ==> (#[trigger] entries@[k]).0 < graph@.len(),
    ensures
        is_reachability_of(bits@, graph@, entries@),
{
    let mut reach: Vec<Vec<bool>> = Vec::new();
    let mut k: usize = 0;
    while k < entries.len()
        invariant
            k <= entries@.len(),
            graph_ok(graph@),
            forall|j: int| 0 <= j < entries@.len() ==> (#[trigger] entries@[j]).0 < graph@.len(),
            reach@.len() == k,
            forall|j: int|
                0 <= j < k ==> {
                    &&& (#[trigger] reach@[j])@.len() == graph@.len()
                    &&& forall|m: int|
                        0 <= m < graph@.len() ==> reach@[j]@[m] == reaches(
                            graph@,
                            entries@[j].0 as int,
                            m,
                        )
                },
        decreases entries.len() - k,
    {
        let seen = reachable_from(graph, entries[k].0 as usize);
        reach.push(seen);
        k += 1;
    }
    let mut bits: Vec<BitSet> = Vec::new();
    let mut m: usize = 0;
    while m < graph.len()
        invariant
            m <= graph@.len(),
            entries@.len() <= u32::MAX,
            reach@.len() == entries@.len(),
            forall|j: int|
                0 <= j < entries@.len() ==> {
                    &&& (#[trigger] reach@[j])@.len() == graph@.len()
                    &&& forall|x: int|
                        0 <= x < graph@.len() ==> reach@[j]@[x] == reaches(
                            graph@,
                            entries@[j].0 as int,
                            x,
                        )
                },
            bits@.len() == m,
            forall|x: int|
                0 <= x < m ==> {
                    &&& (#[trigger] bits@[x])@.len() == (entries@.len() + 7) / 8
                    &&& forall|b: nat|
                        b < bits@[x].capacity() ==> #[trigger] bits@[x].has(b) == (b
                            < entries@.len() && reaches(graph@, entries@[b as int].0 as int, x))
                },
        decreases graph.len() - m,
    {
        let mut set = BitSet::new(entries.len() as u32);
        let mut e: usize = 0;
        while e < entries.len()
            invariant
                e <= entries@.len(),
                m < graph@.len(),
                entries@.len() <= u32::MAX,
                reach@.len() == entries@.len(),
                forall|j: int|
                    0 <= j < entries@.len() ==> {
                        &&& (#[trigger] reach@[j])@.len() == graph@.len()
                        &&& forall|x: int|
                            0 <= x < graph@.len() ==> reach@[j]@[x] == reaches(
                                graph@,
                                entries@[j].0 as int,
                                x,
                            )
                    },
                set@.len() == (entries@.len() + 7) / 8,
                set.capacity() >= entries@.len(),
                forall|b: nat|
                    b < set.capacity() ==> #[trigger] set.has(b) == (b < e && reaches(
                        graph@,
                        entries@[b as int].0 as int,
                        m as int,
                    )),
            decreases entries.len() - e,
        {
            if reach[e][m] {
                set.set_bit(e as u32);
            }
            e += 1;
        }
        bits.push(set);
        m += 1;
    }
    bits
}

} // verus!
