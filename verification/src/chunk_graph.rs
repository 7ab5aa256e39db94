use vstd::prelude::*;
use crate::bitset::BitSet;
use crate::chunk::Chunk;
use crate::ids::{ChunkId, ModuleId};

verus! {

/// All chunks, and for each module the chunk that holds it.
#[derive(Debug)]
pub struct ChunkGraph {
    pub chunks: Vec<Chunk>,
    pub module_to_chunk: Vec<ChunkId>,
}

/// The grouping of the first `done` modules by fingerprint: `chunk_of` gives
/// each module its group, `firsts` the first module of each group.
///
/// Every module has the fingerprint of its group's first module, which does
/// not come after it; the first module of a group belongs to that group; the
/// groups stand in the order of their first modules; and two groups never
/// have the same fingerprint.
pub open spec fn grouped(bits: Seq<BitSet>, done: int, chunk_of: Seq<usize>, firsts: Seq<usize>) -> bool {
    &&& 0 <= done <= bits.len()
    &&& chunk_of.len() == done
    &&& forall|i: int|
        0 <= i < done ==> {
            &&& (#[trigger] chunk_of[i]) < firsts.len()
            &&& firsts[chunk_of[i] as int] <= i
            &&& bits[firsts[chunk_of[i] as int] as int]@ == bits[i]@
        }
    &&& forall|c: int|
        0 <= c < firsts.len() ==> (#[trigger] firsts[c]) < done && chunk_of[firsts[c] as int] == c
    &&& forall|c: int, d: int|
        0 <= c < d < firsts.len() ==> {
            &&& (#[trigger] firsts[c]) < (#[trigger] firsts[d])
            &&& bits[firsts[c] as int]@ != bits[firsts[d] as int]@
        }
}

/// The modules of group `c`, in module order.
pub open spec fn members(chunk_of: Seq<usize>, c: usize) -> Seq<ModuleId>
    decreases chunk_of.len(),
{
    if chunk_of.len() == 0 {
        Seq::empty()
    } else {
        let head = members(chunk_of.drop_last(), c);
        if chunk_of.last() == c {
            head.push(ModuleId((chunk_of.len() - 1) as u32))
        } else {
            head
        }
    }
}

/// The entry module of group `c`: the first of the entry points that the
/// group holds, if it holds one.
pub open spec fn entry_of(entries: Seq<ModuleId>, chunk_of: Seq<usize>, c: usize) -> Option<ModuleId>
    decreases entries.len(),
{
    if entries.len() == 0 {
        None
    } else {
        let earlier = entry_of(entries.drop_last(), chunk_of, c);
        let e = entries.last();
        if earlier is Some {
            earlier
        } else if e.0 < chunk_of.len() && chunk_of[e.0 as int] == c {
            Some(e)
        } else {
            None
        }
    }
}

/// The result of grouping modules by fingerprint.
#[derive(Debug)]
pub struct Grouping {
    pub chunk_of: Vec<usize>,
    pub firsts: Vec<usize>,
}

/// Groups the modules by fingerprint, groups in the order in which their
/// first modules come.
pub fn group_by_bits(bits: &Vec<BitSet>) -> (g: Grouping)
    ensures
        grouped(bits@, bits@.len() as int, g.chunk_of@, g.firsts@),
{
    let mut chunk_of: Vec<usize> = Vec::new();
    let mut firsts: Vec<usize> = Vec::new();
    let mut m: usize = 0;
    while m < bits.len()
        invariant
            grouped(bits@, m as int, chunk_of@, firsts@),
        decreases bits.len() - m,
    {
        let mut c: usize = 0;
        let mut found: bool = false;
        while c < firsts.len() && !found
            invariant
                grouped(bits@, m as int, chunk_of@, firsts@),
                m < bits.len(),
                c <= firsts.len(),
                found ==> c < firsts.len() && bits@[firsts@[c as int] as int]@ == bits@[m as int]@,
                forall|d: int|
                    0 <= d < c && !found ==> bits@[(#[trigger] firsts@[d]) as int]@
                        != bits@[m as int]@,
            decreases firsts.len() - c + (if found { 0int } else { 1int }),
        {
            if bits[firsts[c]].same_bits(&bits[m]) {
                found = true;
            } else {
                c += 1;
            }
        }
        let ghost old_chunk_of = chunk_of@;
        let ghost old_firsts = firsts@;
        if found {
            chunk_of.push(c);
        } else {
            firsts.push(m);
            chunk_of.push(c);
        }
        proof {
            assert forall|i: int| 0 <= i < m + 1 implies {
                &&& (#[trigger] chunk_of@[i]) < firsts@.len()
                &&& firsts@[chunk_of@[i] as int] <= i
                &&& bits@[firsts@[chunk_of@[i] as int] as int]@ == bits@[i]@
            } by {
                if i < m {
                    assert(chunk_of@[i] == old_chunk_of[i]);
                    assert(firsts@[old_chunk_of[i] as int] == old_firsts[old_chunk_of[i] as int]);
                }
            }
            assert forall|c2: int| 0 <= c2 < firsts@.len() implies (#[trigger] firsts@[c2]) < m + 1
                && chunk_of@[firsts@[c2] as int] == c2 by {
                if c2 < old_firsts.len() {
                    assert(firsts@[c2] == old_firsts[c2]);
                    assert(chunk_of@[old_firsts[c2] as int] == old_chunk_of[old_firsts[c2] as int]);
                }
            }
            assert forall|c2: int, d: int| 0 <= c2 < d < firsts@.len() implies {
                &&& (#[trigger] firsts@[c2]) < (#[trigger] firsts@[d])
                &&& bits@[firsts@[c2] as int]@ != bits@[firsts@[d] as int]@
            } by {
                assert(firsts@[c2] == old_firsts[c2]);
                if d < old_firsts.len() {
                    assert(firsts@[d] == old_firsts[d]);
                }
            }
        }
        m += 1;
    }
    Grouping { chunk_of, firsts }
}

/// Two modules share a group exactly when their fingerprints are
/// bit-identical.
pub proof fn lemma_same_chunk_iff_same_bits(
    bits: Seq<BitSet>,
    chunk_of: Seq<usize>,
    firsts: Seq<usize>,
    i: int,
    j: int,
)
    requires
        grouped(bits, bits.len() as int, chunk_of, firsts),
        0 <= i < bits.len(),
        0 <= j < bits.len(),
    ensures
        (chunk_of[i] == chunk_of[j]) <==> (bits[i]@ == bits[j]@),
{
    let c = chunk_of[i] as int;
    let d = chunk_of[j] as int;
    if bits[i]@ == bits[j]@ && c != d {
        if c < d {
            assert(bits[firsts[c] as int]@ != bits[firsts[d] as int]@);
        } else {
            assert(bits[firsts[d] as int]@ != bits[firsts[c] as int]@);
        }
    }
}

/// A module stays with an entry module, or stays apart from it, as long as
/// the fingerprints of the two are left as they were: what else changes in
/// the graph does not matter.
pub proof fn lemma_membership_depends_on_own_bits(
    before: Seq<BitSet>,
    chunk_before: Seq<usize>,
    firsts_before: Seq<usize>,
    after: Seq<BitSet>,
    chunk_after: Seq<usize>,
    firsts_after: Seq<usize>,
    entry: int,
    module: int,
)
    requires
        grouped(before, before.len() as int, chunk_before, firsts_before),
        grouped(after, after.len() as int, chunk_after, firsts_after),
        before.len() == after.len(),
        0 <= entry < before.len(),
        0 <= module < before.len(),
        before[entry]@ == after[entry]@,
        before[module]@ == after[module]@,
    ensures
        (chunk_before[module] == chunk_before[entry]) <==> (chunk_after[module]
            == chunk_after[entry]),
{
    lemma_same_chunk_iff_same_bits(before, chunk_before, firsts_before, module, entry);
    lemma_same_chunk_iff_same_bits(after, chunk_after, firsts_after, module, entry);
}

/// The first module of each fingerprint's group is the first module with
/// that fingerprint, so the grouping depends on discovery order alone.
pub proof fn lemma_first_is_earliest(
    bits: Seq<BitSet>,
    chunk_of: Seq<usize>,
    firsts: Seq<usize>,
    i: int,
    j: int,
)
    requires
        grouped(bits, bits.len() as int, chunk_of, firsts),
        0 <= j <= i < bits.len(),
        bits[i]@ == bits[j]@,
    ensures
        firsts[chunk_of[i] as int] <= j,
{
    lemma_same_chunk_iff_same_bits(bits, chunk_of, firsts, i, j);
}

fn collect_members(chunk_of: &Vec<usize>, c: usize) -> (out: Vec<ModuleId>)
    requires
        chunk_of@.len() <= u32::MAX,
    ensures
        out@ == members(chunk_of@, c),
{
    let mut out: Vec<ModuleId> = Vec::new();
    let mut i: usize = 0;
    while i < chunk_of.len()
        invariant
            i <= chunk_of@.len(),
            chunk_of@.len() <= u32::MAX,
            out@ == members(chunk_of@.take(i as int), c),
        decreases chunk_of.len() - i,
    {
        proof {
            assert(chunk_of@.take(i + 1).drop_last() =~= chunk_of@.take(i as int));
        }
        if chunk_of[i] == c {
            out.push(ModuleId(i as u32));
        }
        i += 1;
    }
    proof {
        assert(chunk_of@.take(chunk_of@.len() as int) =~= chunk_of@);
    }
    out
}

fn find_entry(entries: &Vec<ModuleId>, chunk_of: &Vec<usize>, c: usize) -> (out: Option<ModuleId>)
    ensures
        out == entry_of(entries@, chunk_of@, c),
{
    let mut out: Option<ModuleId> = None;
    let mut k: usize = 0;
    while k < entries.len()
        invariant
            k <= entries@.len(),
            out == entry_of(entries@.take(k as int), chunk_of@, c),
        decreases entries.len() - k,
    {
        proof {
            assert(entries@.take(k + 1).drop_last() =~= entries@.take(k as int));
        }
        let e = entries[k];
        if out.is_none() && (e.0 as usize) < chunk_of.len() && chunk_of[e.0 as usize] == c {
            out = Some(e);
        }
        k += 1;
    }
    proof {
        assert(entries@.take(entries@.len() as int) =~= entries@);
    }
    out
}

impl ChunkGraph {
    /// For each module, the index of its chunk.
    pub open spec fn assignment(&self) -> Seq<usize> {
        self.module_to_chunk@.map_values(|c: ChunkId| c.0 as usize)
    }

    /// The chunks are the groups of `bits`: chunk `c` holds the members of
    /// group `c` in module order, carries their fingerprint, is an entry
    /// chunk exactly when it holds an entry point, and has nothing linked
    /// yet.
    pub open spec fn is_partition_of(&self, bits: Seq<BitSet>, entries: Seq<ModuleId>) -> bool {
        &&& exists|firsts: Seq<usize>|
            {
                &&& #[trigger] grouped(bits, bits.len() as int, self.assignment(), firsts)
                &&& firsts.len() == self.chunks@.len()
            }
        &&& forall|c: int|
            0 <= c < self.chunks@.len() ==> {
                let chunk = #[trigger] self.chunks@[c];
                &&& chunk.modules@ == members(self.assignment(), c as usize)
                &&& chunk.modules@.len() > 0
                &&& chunk.bits@ == bits[chunk.modules@[0].0 as int]@
                &&& chunk.entry_module == entry_of(entries, self.assignment(), c as usize)
                &&& chunk.name is None
                &&& chunk.file_name is None
                &&& chunk.canonical_names@.len() == 0
                &&& chunk.imports_from_other_chunks@.len() == 0
                &&& chunk.exports_to_other_chunks@.len() == 0
            }
    }
}

/// A member of a group is listed among the group's members.
proof fn lemma_members_contains(chunk_of: Seq<usize>, c: usize, m: int)
    requires
        0 <= m < chunk_of.len() <= u32::MAX,
        chunk_of[m] == c,
    ensures
        members(chunk_of, c).contains(ModuleId(m as u32)),
    decreases chunk_of.len(),
{
    let head = members(chunk_of.drop_last(), c);
    if m == chunk_of.len() - 1 {
        assert(members(chunk_of, c).last() == ModuleId(m as u32));
    } else {
        lemma_members_contains(chunk_of.drop_last(), c, m);
        let k = choose|k: int| 0 <= k < head.len() && head[k] == ModuleId(m as u32);
        assert(members(chunk_of, c)[k] == ModuleId(m as u32));
    }
}

/// The listed members of a group are modules of that group, in rising
/// order.
proof fn lemma_members_sound(chunk_of: Seq<usize>, c: usize, k: int)
    requires
        chunk_of.len() <= u32::MAX,
        0 <= k < members(chunk_of, c).len(),
    ensures
        members(chunk_of, c)[k].0 < chunk_of.len(),
        chunk_of[members(chunk_of, c)[k].0 as int] == c,
        forall|h: int| 0 <= h < k ==> members(chunk_of, c)[h].0 < members(chunk_of, c)[k].0,
    decreases chunk_of.len(),
{
    if chunk_of.len() > 0 {
        let head = members(chunk_of.drop_last(), c);
        if k < head.len() {
            lemma_members_sound(chunk_of.drop_last(), c, k);
        } else {
            assert forall|h: int| 0 <= h < k implies members(chunk_of, c)[h].0 < members(
                chunk_of,
                c,
            )[k].0 by {
                lemma_members_sound(chunk_of.drop_last(), c, h);
            }
        }
    }
}

/// Partitions the modules into chunks by fingerprint. Module `m` has the
/// fingerprint `bits[m]`; chunks and their members follow discovery order.
pub fn partition_modules(bits: &Vec<BitSet>, entries: &Vec<ModuleId>) -> (g: ChunkGraph)
    requires
        bits@.len() <= u32::MAX,
    ensures
        g.module_to_chunk@.len() == bits@.len(),
        g.is_partition_of(bits@, entries@),
{
    let grouping = group_by_bits(bits);
    let mut module_to_chunk: Vec<ChunkId> = Vec::new();
    let mut m: usize = 0;
    while m < grouping.chunk_of.len()
        invariant
            m <= grouping.chunk_of@.len(),
            grouped(bits@, bits@.len() as int, grouping.chunk_of@, grouping.firsts@),
            bits@.len() <= u32::MAX,
            module_to_chunk@.len() == m,
            forall|i: int|
                0 <= i < m ==> (#[trigger] module_to_chunk@[i]).0 as usize
                    == grouping.chunk_of@[i],
        decreases grouping.chunk_of.len() - m,
    {
        let c = grouping.chunk_of[m];
        proof {
            lemma_firsts_bounded(grouping.firsts@, bits@.len() as int);
        }
        module_to_chunk.push(ChunkId(c as u32));
        m += 1;
    }
    let ghost assignment = module_to_chunk@.map_values(|c: ChunkId| c.0 as usize);
    assert(assignment =~= grouping.chunk_of@);
    let mut chunks: Vec<Chunk> = Vec::new();
    let mut c: usize = 0;
    while c < grouping.firsts.len()
        invariant
            c <= grouping.firsts@.len(),
            grouped(bits@, bits@.len() as int, grouping.chunk_of@, grouping.firsts@),
            bits@.len() <= u32::MAX,
            chunks@.len() == c,
            forall|d: int|
                0 <= d < c ==> {
                    let chunk = #[trigger] chunks@[d];
                    &&& chunk.modules@ == members(grouping.chunk_of@, d as usize)
                    &&& chunk.modules@.len() > 0
                    &&& chunk.bits@ == bits@[chunk.modules@[0].0 as int]@
                    &&& chunk.entry_module == entry_of(entries@, grouping.chunk_of@, d as usize)
                    &&& chunk.name is None
                    &&& chunk.file_name is None
                    &&& chunk.canonical_names@.len() == 0
                    &&& chunk.imports_from_other_chunks@.len() == 0
                    &&& chunk.exports_to_other_chunks@.len() == 0
                },
        decreases grouping.firsts.len() - c,
    {
        let modules = collect_members(&grouping.chunk_of, c);
        let first = grouping.firsts[c];
        proof {
            lemma_members_contains(grouping.chunk_of@, c, first as int);
            lemma_members_sound(grouping.chunk_of@, c, 0);
            let head = modules@[0].0 as int;
            assert(grouping.chunk_of@[head] == c);
            assert(bits@[grouping.firsts@[c as int] as int]@ == bits@[head]@);
        }
        let entry = find_entry(entries, &grouping.chunk_of, c);
        let chunk = Chunk::new(None, entry, bits[modules[0].0 as usize].copy(), modules);
        chunks.push(chunk);
        c += 1;
    }
    let g = ChunkGraph { chunks, module_to_chunk };
    proof {
        assert(g.assignment() == grouping.chunk_of@);
        assert(grouped(bits@, bits@.len() as int, g.assignment(), grouping.firsts@));
    }
    g
}

/// Rising firsts below a bound are no more than the bound.
proof fn lemma_firsts_bounded(firsts: Seq<usize>, bound: int)
    requires
        forall|c: int| 0 <= c < firsts.len() ==> (#[trigger] firsts[c]) < bound,
        forall|c: int, d: int|
            0 <= c < d < firsts.len() ==> (#[trigger] firsts[c]) < (#[trigger] firsts[d]),
    ensures
        firsts.len() <= bound || firsts.len() == 0,
    decreases firsts.len(),
{
    if firsts.len() > 0 {
        let rest = firsts.drop_last();
        let top = firsts.last() as int;
        assert forall|c: int| 0 <= c < rest.len() implies (#[trigger] rest[c]) < top by {
            assert(firsts[c] < firsts[firsts.len() - 1]);
        }
        lemma_firsts_bounded(rest, top);
    }
}

/// In a partition two modules share a chunk exactly when their fingerprints
/// are bit-identical.
pub proof fn lemma_partition_follows_bits(
    g: ChunkGraph,
    bits: Seq<BitSet>,
    entries: Seq<ModuleId>,
    i: int,
    j: int,
)
    requires
        g.is_partition_of(bits, entries),
        0 <= i < bits.len(),
        0 <= j < bits.len(),
    ensures
        (g.module_to_chunk@[i] == g.module_to_chunk@[j]) <==> (bits[i]@ == bits[j]@),
{
    let firsts = choose|firsts: Seq<usize>|
        {
            &&& #[trigger] grouped(bits, bits.len() as int, g.assignment(), firsts)
            &&& firsts.len() == g.chunks@.len()
        };
    lemma_same_chunk_iff_same_bits(bits, g.assignment(), firsts, i, j);
    assert(g.assignment()[i] == g.module_to_chunk@[i].0 as usize);
    assert(g.assignment()[j] == g.module_to_chunk@[j].0 as usize);
}

/// In a partition each module belongs to exactly one chunk: the one that
/// the module-to-chunk map names.
pub proof fn lemma_module_in_exactly_one_chunk(
    g: ChunkGraph,
    bits: Seq<BitSet>,
    entries: Seq<ModuleId>,
    m: int,
    c: int,
)
    requires
        g.is_partition_of(bits, entries),
        bits.len() <= u32::MAX,
        0 <= m < bits.len(),
        0 <= c < g.chunks@.len(),
    ensures
        g.chunks@[c].modules@.contains(ModuleId(m as u32)) <==> g.module_to_chunk@[m].0 == c,
{
    let firsts = choose|firsts: Seq<usize>|
        {
            &&& #[trigger] grouped(bits, bits.len() as int, g.assignment(), firsts)
            &&& firsts.len() == g.chunks@.len()
        };
    let chunk_of = g.assignment();
    let listed = g.chunks@[c].modules@;
    lemma_firsts_bounded(firsts, bits.len() as int);
    assert(c <= u32::MAX);
    assert(g.chunks@[c].modules@ == members(chunk_of, c as usize));
    assert(chunk_of[m] == g.module_to_chunk@[m].0 as usize);
    if chunk_of[m] == c as usize {
        lemma_members_contains(chunk_of, c as usize, m);
    }
    if listed.contains(ModuleId(m as u32)) {
        let k = choose|k: int| 0 <= k < listed.len() && listed[k] == ModuleId(m as u32);
        lemma_members_sound(chunk_of, c as usize, k);
    }
}

} // verus!
