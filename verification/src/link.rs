use vstd::prelude::*;
use crate::chunk::{ChunkImports, CrossChunkImportItem};
use crate::ids::{ChunkId, SymbolRef};

verus! {

/// Every referenced symbol is owned by a module that has a chunk.
pub open spec fn refs_known(refs: Seq<SymbolRef>, module_to_chunk: Seq<ChunkId>) -> bool {
    forall|i: int| 0 <= i < refs.len() ==> (#[trigger] refs[i]).owner.0 < module_to_chunk.len()
}

/// The chunk that declares a symbol.
pub open spec fn home(module_to_chunk: Seq<ChunkId>, s: SymbolRef) -> ChunkId {
    module_to_chunk[s.owner.0 as int]
}

/// The symbols among `refs` that chunk `c` does not declare itself, each
/// once, in first-discovery order.
pub open spec fn foreign_symbols(refs: Seq<SymbolRef>, module_to_chunk: Seq<ChunkId>, c: ChunkId) -> Seq<SymbolRef>
    decreases refs.len(),
{
    if refs.len() == 0 {
        Seq::empty()
    } else {
        let head = foreign_symbols(refs.drop_last(), module_to_chunk, c);
        let s = refs.last();
        if home(module_to_chunk, s) == c || head.contains(s) {
            head
        } else {
            head.push(s)
        }
    }
}

/// The chunks that declare the given symbols, each once, in first-discovery
/// order.
pub open spec fn source_chunks(symbols: Seq<SymbolRef>, module_to_chunk: Seq<ChunkId>) -> Seq<ChunkId>
    decreases symbols.len(),
{
    if symbols.len() == 0 {
        Seq::empty()
    } else {
        let head = source_chunks(symbols.drop_last(), module_to_chunk);
        let h = home(module_to_chunk, symbols.last());
        if head.contains(h) {
            head
        } else {
            head.push(h)
        }
    }
}

/// Those of the given symbols that chunk `src` declares, in order.
pub open spec fn symbols_from(symbols: Seq<SymbolRef>, module_to_chunk: Seq<ChunkId>, src: ChunkId) -> Seq<SymbolRef>
    decreases symbols.len(),
{
    if symbols.len() == 0 {
        Seq::empty()
    } else {
        let head = symbols_from(symbols.drop_last(), module_to_chunk, src);
        if home(module_to_chunk, symbols.last()) == src {
            head.push(symbols.last())
        } else {
            head
        }
    }
}

pub open spec fn import_refs(items: Seq<CrossChunkImportItem>) -> Seq<SymbolRef> {
    items.map_values(|i: CrossChunkImportItem| i.import_ref)
}

/// The import map of chunk `c` for the symbols its code refers to: one
/// entry per chunk imported from, in first-discovery order, each with the
/// symbols taken from that chunk, each once, in first-discovery order, and
/// no export alias chosen yet.
pub open spec fn is_import_map_of(
    imports: Seq<ChunkImports>,
    refs: Seq<SymbolRef>,
    module_to_chunk: Seq<ChunkId>,
    c: ChunkId,
) -> bool {
    let foreign = foreign_symbols(refs, module_to_chunk, c);
    let sources = source_chunks(foreign, module_to_chunk);
    &&& imports.len() == sources.len()
    &&& forall|k: int|
        0 <= k < imports.len() ==> {
            &&& (#[trigger] imports[k]).chunk == sources[k]
            &&& import_refs(imports[k].items@) == symbols_from(foreign, module_to_chunk, sources[k])
            &&& forall|j: int|
                0 <= j < imports[k].items@.len() ==> (#[trigger] imports[k].items@[j]).export_alias is None
        }
}

fn contains_symbol(list: &Vec<SymbolRef>, s: SymbolRef) -> (r: bool)
    ensures
        r == list@.contains(s),
{
    let mut i: usize = 0;
    while i < list.len()
        invariant
            i <= list@.len(),
            forall|j: int| 0 <= j < i ==> list@[j] != s,
        decreases list.len() - i,
    {
        if list[i] == s {
            return true;
        }
        i += 1;
    }
    false
}

fn contains_chunk(list: &Vec<ChunkId>, c: ChunkId) -> (r: bool)
    ensures
        r == list@.contains(c),
{
    let mut i: usize = 0;
    while i < list.len()
        invariant
            i <= list@.len(),
            forall|j: int| 0 <= j < i ==> list@[j] != c,
        decreases list.len() - i,
    {
        if list[i] == c {
            return true;
        }
        i += 1;
    }
    false
}

/// The symbols that chunk `c` has to import.
pub fn collect_foreign_symbols(refs: &Vec<SymbolRef>, module_to_chunk: &Vec<ChunkId>, c: ChunkId) -> (out: Vec<SymbolRef>)
    requires
        refs_known(refs@, module_to_chunk@),
    ensures
        out@ == foreign_symbols(refs@, module_to_chunk@, c),
{
    let mut out: Vec<SymbolRef> = Vec::new();
    let mut i: usize = 0;
    while i < refs.len()
        invariant
            i <= refs@.len(),
            refs_known(refs@, module_to_chunk@),
            out@ == foreign_symbols(refs@.take(i as int), module_to_chunk@, c),
        decreases refs.len() - i,
    {
        proof {
            assert(refs@.take(i + 1).drop_last() =~= refs@.take(i as int));
        }
        let s = refs[i];
        let h = module_to_chunk[s.owner.0 as usize];
        if !(h == c) && !contains_symbol(&out, s) {
            out.push(s);
        }
        i += 1;
    }
    proof {
        assert(refs@.take(refs@.len() as int) =~= refs@);
    }
    out
}

fn collect_source_chunks(symbols: &Vec<SymbolRef>, module_to_chunk: &Vec<ChunkId>) -> (out: Vec<ChunkId>)
    requires
        refs_known(symbols@, module_to_chunk@),
    ensures
        out@ == source_chunks(symbols@, module_to_chunk@),
{
    let mut out: Vec<ChunkId> = Vec::new();
    let mut i: usize = 0;
    while i < symbols.len()
        invariant
            i <= symbols@.len(),
            refs_known(symbols@, module_to_chunk@),
            out@ == source_chunks(symbols@.take(i as int), module_to_chunk@),
        decreases symbols.len() - i,
    {
        proof {
            assert(symbols@.take(i + 1).drop_last() =~= symbols@.take(i as int));
        }
        let h = module_to_chunk[symbols[i].owner.0 as usize];
        if !contains_chunk(&out, h) {
            out.push(h);
        }
        i += 1;
    }
    proof {
        assert(symbols@.take(symbols@.len() as int) =~= symbols@);
    }
    out
}

fn collect_items_from(symbols: &Vec<SymbolRef>, module_to_chunk: &Vec<ChunkId>, src: ChunkId) -> (out: Vec<CrossChunkImportItem>)
    requires
        refs_known(symbols@, module_to_chunk@),
    ensures
        import_refs(out@) == symbols_from(symbols@, module_to_chunk@, src),
        forall|j: int| 0 <= j < out@.len() ==> (#[trigger] out@[j]).export_alias is None,
{
    let mut out: Vec<CrossChunkImportItem> = Vec::new();
    let mut i: usize = 0;
    assert(import_refs(out@) =~= Seq::<SymbolRef>::empty());
    while i < symbols.len()
        invariant
            i <= symbols@.len(),
            refs_known(symbols@, module_to_chunk@),
            import_refs(out@) == symbols_from(symbols@.take(i as int), module_to_chunk@, src),
            forall|j: int| 0 <= j < out@.len() ==> (#[trigger] out@[j]).export_alias is None,
        decreases symbols.len() - i,
    {
        proof {
            assert(symbols@.take(i + 1).drop_last() =~= symbols@.take(i as int));
        }
        let s = symbols[i];
        if module_to_chunk[s.owner.0 as usize] == src {
            let item = CrossChunkImportItem { export_alias: None, import_ref: s };
            proof {
                assert(import_refs(out@.push(item)) =~= import_refs(out@).push(s));
            }
            out.push(item);
        }
        i += 1;
    }
    proof {
        assert(symbols@.take(symbols@.len() as int) =~= symbols@);
    }
    out
}

/// What `foreign_symbols` lists is among the references.
pub proof fn lemma_foreign_known(refs: Seq<SymbolRef>, module_to_chunk: Seq<ChunkId>, c: ChunkId)
    requires
        refs_known(refs, module_to_chunk),
    ensures
        refs_known(foreign_symbols(refs, module_to_chunk, c), module_to_chunk),
    decreases refs.len(),
{
    if refs.len() > 0 {
        lemma_foreign_known(refs.drop_last(), module_to_chunk, c);
        let head = foreign_symbols(refs.drop_last(), module_to_chunk, c);
        assert(refs.last() == refs[refs.len() - 1]);
        assert forall|i: int| 0 <= i < foreign_symbols(refs, module_to_chunk, c).len() implies (
        #[trigger] foreign_symbols(refs, module_to_chunk, c)[i]).owner.0
            < module_to_chunk.len() by {
            if i < head.len() {
                assert(foreign_symbols(refs, module_to_chunk, c)[i] == head[i]);
            }
        }
    }
}

/// Builds the import map of chunk `c` from the symbols its code refers to.
pub fn compute_cross_chunk_imports(refs: &Vec<SymbolRef>, module_to_chunk: &Vec<ChunkId>, c: ChunkId) -> (out: Vec<ChunkImports>)
    requires
        refs_known(refs@, module_to_chunk@),
    ensures
        is_import_map_of(out@, refs@, module_to_chunk@, c),
{
    let foreign = collect_foreign_symbols(refs, module_to_chunk, c);
    proof {
        lemma_foreign_known(refs@, module_to_chunk@, c);
    }
    let sources = collect_source_chunks(&foreign, module_to_chunk);
    let mut out: Vec<ChunkImports> = Vec::new();
    let mut k: usize = 0;
    while k < sources.len()
        invariant
            k <= sources@.len(),
            out@.len() == k,
            refs_known(foreign@, module_to_chunk@),
            forall|d: int|
                0 <= d < k ==> {
                    &&& (#[trigger] out@[d]).chunk == sources@[d]
                    &&& import_refs(out@[d].items@) == symbols_from(
                        foreign@,
                        module_to_chunk@,
                        sources@[d],
                    )
                    &&& forall|j: int|
                        0 <= j < out@[d].items@.len() ==> (#[trigger] out@[d].items@[j]).export_alias is None
                },
        decreases sources.len() - k,
    {
        let items = collect_items_from(&foreign, module_to_chunk, sources[k]);
        out.push(ChunkImports { chunk: sources[k], items });
        k += 1;
    }
    out
}

/// The symbols listed as foreign hold every reference that the chunk does
/// not declare itself.
pub proof fn lemma_foreign_complete(refs: Seq<SymbolRef>, module_to_chunk: Seq<ChunkId>, c: ChunkId, i: int)
    requires
        0 <= i < refs.len(),
        home(module_to_chunk, refs[i]) != c,
    ensures
        foreign_symbols(refs, module_to_chunk, c).contains(refs[i]),
    decreases refs.len(),
{
    let head = foreign_symbols(refs.drop_last(), module_to_chunk, c);
    let all = foreign_symbols(refs, module_to_chunk, c);
    if i < refs.len() - 1 {
        lemma_foreign_complete(refs.drop_last(), module_to_chunk, c, i);
        let k = choose|k: int| 0 <= k < head.len() && head[k] == refs[i];
        assert(all[k] == refs[i]);
    } else {
        if !head.contains(refs[i]) {
            assert(all.last() == refs[i]);
        }
    }
}

/// The chunk that declares a listed symbol is among the source chunks.
pub proof fn lemma_source_listed(symbols: Seq<SymbolRef>, module_to_chunk: Seq<ChunkId>, i: int)
    requires
        0 <= i < symbols.len(),
    ensures
        source_chunks(symbols, module_to_chunk).contains(home(module_to_chunk, symbols[i])),
    decreases symbols.len(),
{
    let head = source_chunks(symbols.drop_last(), module_to_chunk);
    let all = source_chunks(symbols, module_to_chunk);
    let h = home(module_to_chunk, symbols[i]);
    if i < symbols.len() - 1 {
        lemma_source_listed(symbols.drop_last(), module_to_chunk, i);
        let k = choose|k: int| 0 <= k < head.len() && head[k] == h;
        assert(all[k] == h);
    } else {
        if !head.contains(h) {
            assert(all.last() == h);
        }
    }
}

/// A listed symbol is among those taken from the chunk that declares it.
pub proof fn lemma_symbol_taken(symbols: Seq<SymbolRef>, module_to_chunk: Seq<ChunkId>, i: int)
    requires
        0 <= i < symbols.len(),
    ensures
        symbols_from(symbols, module_to_chunk, home(module_to_chunk, symbols[i])).contains(
            symbols[i],
        ),
    decreases symbols.len(),
{
    let src = home(module_to_chunk, symbols[i]);
    let head = symbols_from(symbols.drop_last(), module_to_chunk, src);
    let all = symbols_from(symbols, module_to_chunk, src);
    if i < symbols.len() - 1 {
        lemma_symbol_taken(symbols.drop_last(), module_to_chunk, i);
        let k = choose|k: int| 0 <= k < head.len() && head[k] == symbols[i];
        assert(all[k] == symbols[i]);
    } else {
        assert(all.last() == symbols[i]);
    }
}

/// Every symbol that the code of a chunk refers to is declared in the chunk
/// or stands in the chunk's import map, under the chunk that declares it.
pub proof fn lemma_every_reference_resolves(
    imports: Seq<ChunkImports>,
    refs: Seq<SymbolRef>,
    module_to_chunk: Seq<ChunkId>,
    c: ChunkId,
    i: int,
)
    requires
        is_import_map_of(imports, refs, module_to_chunk, c),
        0 <= i < refs.len(),
    ensures
        home(module_to_chunk, refs[i]) == c || exists|k: int|
            0 <= k < imports.len() && (#[trigger] imports[k]).chunk == home(
                module_to_chunk,
                refs[i],
            ) && import_refs(imports[k].items@).contains(refs[i]),
{
    let s = refs[i];
    if home(module_to_chunk, s) != c {
        let foreign = foreign_symbols(refs, module_to_chunk, c);
        let sources = source_chunks(foreign, module_to_chunk);
        lemma_foreign_complete(refs, module_to_chunk, c, i);
        let f = choose|f: int| 0 <= f < foreign.len() && foreign[f] == s;
        lemma_source_listed(foreign, module_to_chunk, f);
        lemma_symbol_taken(foreign, module_to_chunk, f);
        let k = choose|k: int| 0 <= k < sources.len() && sources[k] == home(module_to_chunk, s);
        assert(imports[k].chunk == sources[k]);
    }
}

} // verus!
