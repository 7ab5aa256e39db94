use vstd::prelude::*;
use vstd::string::*;
use crate::chunk::{CanonicalName, Chunk, ChunkImports, CrossChunkImportItem, ExportedName};
use crate::glue::{
    exports_text, imports_text, render_chunk_exports, render_chunk_imports, ImportStatement,
    NamePair, OutputFormat,
};
use crate::ids::SymbolRef;
use crate::render::option_pieces;
use crate::text::{join_lines, joined, pieces_fit, push_piece, texts};

verus! {

/// The canonical name of a symbol in a chunk's overlay: that of the first
/// entry for the symbol.
pub open spec fn canonical_name_for(names: Seq<CanonicalName>, s: SymbolRef) -> Option<Seq<char>>
    decreases names.len(),
{
    if names.len() == 0 {
        None
    } else {
        match canonical_name_for(names.drop_last(), s) {
            Some(n) => Some(n),
            None => if names.last().symbol == s {
                Some(names.last().name@)
            } else {
                None
            },
        }
    }
}

/// Looks the canonical name of a symbol up.
pub fn lookup_canonical_name(names: &Vec<CanonicalName>, s: SymbolRef) -> (r: Option<String>)
    ensures
        r is Some == canonical_name_for(names@, s) is Some,
        r is Some ==> r.unwrap()@ == canonical_name_for(names@, s).unwrap(),
{
    let mut i: usize = 0;
    while i < names.len()
        invariant
            i <= names@.len(),
            canonical_name_for(names@.take(i as int), s) is None,
        decreases names.len() - i,
    {
        proof {
            assert(names@.take(i + 1).drop_last() =~= names@.take(i as int));
        }
        if names[i].symbol == s {
            proof {
                lemma_name_found_stays(names@, s, i + 1);
            }
            return Some(names[i].name.clone());
        }
        i += 1;
    }
    proof {
        assert(names@.take(names@.len() as int) =~= names@);
    }
    None
}

/// A name found among the first entries is the name found among all.
pub proof fn lemma_name_found_stays(names: Seq<CanonicalName>, s: SymbolRef, k: int)
    requires
        0 <= k <= names.len(),
        canonical_name_for(names.take(k), s) is Some,
    ensures
        canonical_name_for(names, s) == canonical_name_for(names.take(k), s),
    decreases names.len(),
{
    if k < names.len() {
        assert(names.drop_last().take(k) =~= names.take(k));
        lemma_name_found_stays(names.drop_last(), s, k);
    } else {
        assert(names.take(k) =~= names);
    }
}

/// The export record of a chunk for the symbols that other chunks take from
/// it: each symbol is offered under its canonical name in the chunk.
pub open spec fn is_export_record(
    exports: Seq<ExportedName>,
    wanted: Seq<SymbolRef>,
    names: Seq<CanonicalName>,
) -> bool {
    &&& exports.len() == wanted.len()
    &&& forall|i: int|
        0 <= i < wanted.len() ==> {
            &&& (#[trigger] exports[i]).symbol == wanted[i]
            &&& canonical_name_for(names, wanted[i]) == Some(exports[i].alias@)
        }
}

pub open spec fn all_named(wanted: Seq<SymbolRef>, names: Seq<CanonicalName>) -> bool {
    forall|i: int| 0 <= i < wanted.len() ==> canonical_name_for(names, #[trigger] wanted[i]) is Some
}

/// Records the export aliases of a chunk, or gives `None` where a wanted
/// symbol has no canonical name in the chunk.
pub fn compute_chunk_exports(wanted: &Vec<SymbolRef>, names: &Vec<CanonicalName>) -> (r: Option<Vec<ExportedName>>)
    ensures
        r is Some == all_named(wanted@, names@),
        r is Some ==> is_export_record(r.unwrap()@, wanted@, names@),
{
    let mut out: Vec<ExportedName> = Vec::new();
    let mut i: usize = 0;
    while i < wanted.len()
        invariant
            i <= wanted@.len(),
            out@.len() == i,
            forall|j: int| 0 <= j < i ==> canonical_name_for(names@, #[trigger] wanted@[j]) is Some,
            forall|j: int|
                0 <= j < i ==> {
                    &&& (#[trigger] out@[j]).symbol == wanted@[j]
                    &&& canonical_name_for(names@, wanted@[j]) == Some(out@[j].alias@)
                },
        decreases wanted.len() - i,
    {
        match lookup_canonical_name(names, wanted[i]) {
            Some(alias) => {
                out.push(ExportedName { symbol: wanted[i], alias });
            },
            None => {
                return None;
            },
        }
        i += 1;
    }
    Some(out)
}

/// The alias under which a chunk's export record offers a symbol: that of
/// the first entry for the symbol.
pub open spec fn alias_for(exports: Seq<ExportedName>, s: SymbolRef) -> Option<Seq<char>>
    decreases exports.len(),
{
    if exports.len() == 0 {
        None
    } else {
        match alias_for(exports.drop_last(), s) {
            Some(a) => Some(a),
            None => if exports.last().symbol == s {
                Some(exports.last().alias@)
            } else {
                None
            },
        }
    }
}

/// An alias found among the first entries is the alias found among all.
pub proof fn lemma_alias_found_stays(exports: Seq<ExportedName>, s: SymbolRef, k: int)
    requires
        0 <= k <= exports.len(),
        alias_for(exports.take(k), s) is Some,
    ensures
        alias_for(exports, s) == alias_for(exports.take(k), s),
    decreases exports.len(),
{
    if k < exports.len() {
        assert(exports.drop_last().take(k) =~= exports.take(k));
        lemma_alias_found_stays(exports.drop_last(), s, k);
    } else {
        assert(exports.take(k) =~= exports);
    }
}

/// Looks the export alias of a symbol up.
pub fn lookup_export_alias(exports: &Vec<ExportedName>, s: SymbolRef) -> (r: Option<String>)
    ensures
        r is Some == alias_for(exports@, s) is Some,
        r is Some ==> r.unwrap()@ == alias_for(exports@, s).unwrap(),
{
    let mut i: usize = 0;
    while i < exports.len()
        invariant
            i <= exports@.len(),
            alias_for(exports@.take(i as int), s) is None,
        decreases exports.len() - i,
    {
        proof {
            assert(exports@.take(i + 1).drop_last() =~= exports@.take(i as int));
        }
        if exports[i].symbol == s {
            proof {
                lemma_alias_found_stays(exports@, s, i + 1);
            }
            return Some(exports[i].alias.clone());
        }
        i += 1;
    }
    proof {
        assert(exports@.take(exports@.len() as int) =~= exports@);
    }
    None
}

/// The item carries the alias that the exporting chunk recorded for its
/// symbol, or none where the chunk recorded none.
pub open spec fn alias_filled(
    filled: CrossChunkImportItem,
    item: CrossChunkImportItem,
    exports: Seq<ExportedName>,
) -> bool {
    &&& filled.import_ref == item.import_ref
    &&& filled.export_alias is Some == alias_for(exports, item.import_ref) is Some
    &&& filled.export_alias is Some ==> filled.export_alias.unwrap()@ == alias_for(
        exports,
        item.import_ref,
    ).unwrap()
}

/// Gives each item taken from one chunk the alias under which that chunk
/// exports it.
pub fn fill_export_aliases(items: &Vec<CrossChunkImportItem>, exports: &Vec<ExportedName>) -> (out: Vec<CrossChunkImportItem>)
    ensures
        out@.len() == items@.len(),
        forall|j: int|
            0 <= j < items@.len() ==> alias_filled(#[trigger] out@[j], items@[j], exports@),
{
    let mut out: Vec<CrossChunkImportItem> = Vec::new();
    let mut j: usize = 0;
    while j < items.len()
        invariant
            j <= items@.len(),
            out@.len() == j,
            forall|h: int| 0 <= h < j ==> alias_filled(#[trigger] out@[h], items@[h], exports@),
        decreases items.len() - j,
    {
        let alias = lookup_export_alias(exports, items[j].import_ref);
        out.push(CrossChunkImportItem { export_alias: alias, import_ref: items[j].import_ref });
        j += 1;
    }
    out
}

/// One import item can be written down: it has its export alias, and the
/// importing chunk has a canonical name for it.
pub open spec fn item_resolved(item: CrossChunkImportItem, names: Seq<CanonicalName>) -> bool {
    item.export_alias is Some && canonical_name_for(names, item.import_ref) is Some
}

/// The pair an import item is written as: the exporting chunk's alias, then
/// the importing chunk's canonical name.
pub open spec fn item_pair_ok(pair: NamePair, item: CrossChunkImportItem, names: Seq<CanonicalName>) -> bool {
    pair.name@ == item.export_alias.unwrap()@ && Some(pair.alias@) == canonical_name_for(
        names,
        item.import_ref,
    )
}

pub open spec fn items_resolved(items: Seq<CrossChunkImportItem>, names: Seq<CanonicalName>) -> bool {
    forall|j: int| 0 <= j < items.len() ==> item_resolved(#[trigger] items[j], names)
}

fn resolve_items(items: &Vec<CrossChunkImportItem>, names: &Vec<CanonicalName>) -> (r: Option<Vec<NamePair>>)
    ensures
        r is Some == items_resolved(items@, names@),
        r is Some ==> r.unwrap()@.len() == items@.len() && forall|j: int|
            0 <= j < items@.len() ==> item_pair_ok(#[trigger] r.unwrap()@[j], items@[j], names@),
{
    let mut out: Vec<NamePair> = Vec::new();
    let mut j: usize = 0;
    while j < items.len()
        invariant
            j <= items@.len(),
            out@.len() == j,
            forall|h: int| 0 <= h < j ==> item_resolved(#[trigger] items@[h], names@),
            forall|h: int| 0 <= h < j ==> item_pair_ok(#[trigger] out@[h], items@[h], names@),
        decreases items.len() - j,
    {
        let local = lookup_canonical_name(names, items[j].import_ref);
        match (&items[j].export_alias, local) {
            (Some(alias), Some(local)) => {
                out.push(NamePair { name: alias.clone(), alias: local });
            },
            _ => {
                assert(!item_resolved(items@[j as int], names@));
                return None;
            },
        }
        j += 1;
    }
    Some(out)
}

/// The path by which a chunk imports another chunk's file.
pub open spec fn import_path(file_name: Seq<char>) -> Seq<char> {
    "./"@ + file_name
}

impl Chunk {
    /// One entry of the import map can be written down: its chunk exists and
    /// has its file name, and every item is resolved.
    pub open spec fn import_resolved(&self, entry: ChunkImports, chunks: Seq<Chunk>) -> bool {
        &&& entry.chunk.0 < chunks.len()
        &&& chunks[entry.chunk.0 as int].file_name is Some
        &&& items_resolved(entry.items@, self.canonical_names@)
    }

    pub open spec fn imports_resolved(&self, chunks: Seq<Chunk>) -> bool {
        forall|k: int|
            0 <= k < self.imports_from_other_chunks@.len() ==> self.import_resolved(
                #[trigger] self.imports_from_other_chunks@[k],
                chunks,
            )
    }

    pub open spec fn statement_ok(&self, stmt: ImportStatement, entry: ChunkImports, chunks: Seq<Chunk>) -> bool {
        &&& stmt.path@ == import_path(chunks[entry.chunk.0 as int].file_name.unwrap()@)
        &&& stmt.items@.len() == entry.items@.len()
        &&& forall|j: int|
            0 <= j < entry.items@.len() ==> item_pair_ok(
                #[trigger] stmt.items@[j],
                entry.items@[j],
                self.canonical_names@,
            )
    }

    /// The import statements of the chunk: one per chunk imported from, in
    /// the order of the import map; `None` where the map cannot be written
    /// down.
    pub fn import_statements(&self, chunks: &Vec<Chunk>) -> (r: Option<Vec<ImportStatement>>)
        ensures
            r is Some == self.imports_resolved(chunks@),
            r is Some ==> r.unwrap()@.len() == self.imports_from_other_chunks@.len()
                && forall|k: int|
                0 <= k < self.imports_from_other_chunks@.len() ==> self.statement_ok(
                    #[trigger] r.unwrap()@[k],
                    self.imports_from_other_chunks@[k],
                    chunks@,
                ),
    {
        let mut out: Vec<ImportStatement> = Vec::new();
        let mut k: usize = 0;
        while k < self.imports_from_other_chunks.len()
            invariant
                k <= self.imports_from_other_chunks@.len(),
                out@.len() == k,
                forall|h: int|
                    0 <= h < k ==> self.import_resolved(
                        #[trigger] self.imports_from_other_chunks@[h],
                        chunks@,
                    ),
                forall|h: int|
                    0 <= h < k ==> self.statement_ok(
                        #[trigger] out@[h],
                        self.imports_from_other_chunks@[h],
                        chunks@,
                    ),
            decreases self.imports_from_other_chunks.len() - k,
        {
            let entry = &self.imports_from_other_chunks[k];
            let at = entry.chunk.0 as usize;
            if at >= chunks.len() {
                assert(!self.import_resolved(self.imports_from_other_chunks@[k as int], chunks@));
                return None;
            }
            let path = match &chunks[at].file_name {
                Some(n) => {
                    let mut p = String::from_str("./");
                    p.append(n.as_str());
                    p
                },
                None => {
                    assert(!self.import_resolved(
                        self.imports_from_other_chunks@[k as int],
                        chunks@,
                    ));
                    return None;
                },
            };
            let items = match resolve_items(&entry.items, &self.canonical_names) {
                Some(i) => i,
                None => {
                    assert(!self.import_resolved(
                        self.imports_from_other_chunks@[k as int],
                        chunks@,
                    ));
                    return None;
                },
            };
            out.push(ImportStatement { path, items });
            k += 1;
        }
        Some(out)
    }

    /// Every exported symbol has a canonical name in the chunk.
    pub open spec fn exports_resolved(&self) -> bool {
        forall|i: int|
            0 <= i < self.exports_to_other_chunks@.len() ==> canonical_name_for(
                self.canonical_names@,
                (#[trigger] self.exports_to_other_chunks@[i]).symbol,
            ) is Some
    }

    /// The pair an export is written as: the chunk's canonical name, then
    /// the alias it is offered under.
    pub open spec fn export_pair_ok(&self, pair: NamePair, export: ExportedName) -> bool {
        pair.alias@ == export.alias@ && Some(pair.name@) == canonical_name_for(
            self.canonical_names@,
            export.symbol,
        )
    }

    /// The items of the chunk's export block, in the order of the export
    /// record; `None` where an exported symbol has no canonical name.
    pub fn export_items(&self) -> (r: Option<Vec<NamePair>>)
        ensures
            r is Some == self.exports_resolved(),
            r is Some ==> r.unwrap()@.len() == self.exports_to_other_chunks@.len()
                && forall|i: int|
                0 <= i < self.exports_to_other_chunks@.len() ==> self.export_pair_ok(
                    #[trigger] r.unwrap()@[i],
                    self.exports_to_other_chunks@[i],
                ),
    {
        let mut out: Vec<NamePair> = Vec::new();
        let mut i: usize = 0;
        while i < self.exports_to_other_chunks.len()
            invariant
                i <= self.exports_to_other_chunks@.len(),
                out@.len() == i,
                forall|h: int|
                    0 <= h < i ==> canonical_name_for(
                        self.canonical_names@,
                        (#[trigger] self.exports_to_other_chunks@[h]).symbol,
                    ) is Some,
                forall|h: int|
                    0 <= h < i ==> self.export_pair_ok(
                        #[trigger] out@[h],
                        self.exports_to_other_chunks@[h],
                    ),
            decreases self.exports_to_other_chunks.len() - i,
        {
            let export = &self.exports_to_other_chunks[i];
            match lookup_canonical_name(&self.canonical_names, export.symbol) {
                Some(name) => {
                    out.push(NamePair { name, alias: export.alias.clone() });
                },
                None => {
                    return None;
                },
            }
            i += 1;
        }
        Some(out)
    }
}

/// The texts of the fragments that are present, in order.
pub open spec fn present_texts(fragments: Seq<Option<String>>) -> Seq<Seq<char>>
    decreases fragments.len(),
{
    if fragments.len() == 0 {
        Seq::empty()
    } else {
        let head = present_texts(fragments.drop_last());
        match fragments.last() {
            Some(t) => head.push(t@),
            None => head,
        }
    }
}

/// The pieces of a chunk rendered as an ES module: the import preamble, the
/// fragments that are present, and the export block if there is one.
pub open spec fn esm_pieces(
    imports: Seq<ImportStatement>,
    fragments: Seq<Option<String>>,
    exports: Seq<NamePair>,
) -> Seq<Seq<char>> {
    seq![imports_text(imports, OutputFormat::Esm)] + present_texts(fragments) + option_pieces(
        exports_text(exports, OutputFormat::Esm),
    )
}

/// Collects the pieces of a chunk rendered as an ES module.
pub fn collect_esm_pieces(
    imports: &Vec<ImportStatement>,
    fragments: &Vec<Option<String>>,
    exports: &Vec<NamePair>,
) -> (pieces: Vec<String>)
    ensures
        texts(pieces@) == esm_pieces(imports@, fragments@, exports@),
{
    let mut pieces: Vec<String> = Vec::new();
    assert(texts(pieces@) =~= Seq::<Seq<char>>::empty());
    push_piece(&mut pieces, render_chunk_imports(imports, OutputFormat::Esm));
    let ghost first = texts(pieces@);
    assert(first =~= seq![imports_text(imports@, OutputFormat::Esm)]);
    let mut i: usize = 0;
    assert(texts(pieces@) =~= first + present_texts(fragments@.take(0)));
    while i < fragments.len()
        invariant
            i <= fragments@.len(),
            texts(pieces@) == first + present_texts(fragments@.take(i as int)),
        decreases fragments.len() - i,
    {
        proof {
            assert(fragments@.take(i + 1).drop_last() =~= fragments@.take(i as int));
        }
        match &fragments[i] {
            Some(t) => {
                push_piece(&mut pieces, t.clone());
                assert(texts(pieces@) =~= first + present_texts(fragments@.take(i + 1)));
            },
            None => {},
        }
        i += 1;
    }
    proof {
        assert(fragments@.take(fragments@.len() as int) =~= fragments@);
    }
    match render_chunk_exports(exports, OutputFormat::Esm) {
        Some(e) => {
            push_piece(&mut pieces, e);
        },
        None => {},
    }
    assert(texts(pieces@) =~= esm_pieces(imports@, fragments@, exports@));
    pieces
}

impl Chunk {
    /// Renders the chunk as an ES module from the rendered text of its
    /// members, given in the chunk's module order: the import preamble, the
    /// members that rendered to something, and the export block, one per
    /// line. Gives `None` where the chunk's maps cannot be written down or a
    /// piece is larger than the joiner takes.
    pub fn render(&self, chunks: &Vec<Chunk>, fragments: &Vec<Option<String>>) -> (r: Option<String>)
        ensures
            !self.imports_resolved(chunks@) || !self.exports_resolved() ==> r is None,
            self.imports_resolved(chunks@) && self.exports_resolved() ==> exists|
                imports: Seq<ImportStatement>,
                exports: Seq<NamePair>,
            | #[trigger] self.renders_as(chunks@, fragments@, imports, exports, r),
    {
        let imports = match self.import_statements(chunks) {
            Some(i) => i,
            None => {
                return None;
            },
        };
        let exports = match self.export_items() {
            Some(e) => e,
            None => {
                return None;
            },
        };
        let r = render_esm(&imports, fragments, &exports);
        assert(self.renders_as(chunks@, fragments@, imports@, exports@, r));
        r
    }

    /// `r` is the chunk rendered from the import statements and export
    /// items that its maps resolve to.
    pub open spec fn renders_as(
        &self,
        chunks: Seq<Chunk>,
        fragments: Seq<Option<String>>,
        imports: Seq<ImportStatement>,
        exports: Seq<NamePair>,
        r: Option<String>,
    ) -> bool {
        &&& imports.len() == self.imports_from_other_chunks@.len()
        &&& forall|k: int|
            0 <= k < imports.len() ==> self.statement_ok(
                #[trigger] imports[k],
                self.imports_from_other_chunks@[k],
                chunks,
            )
        &&& exports.len() == self.exports_to_other_chunks@.len()
        &&& forall|i: int|
            0 <= i < exports.len() ==> self.export_pair_ok(
                #[trigger] exports[i],
                self.exports_to_other_chunks@[i],
            )
        &&& r is None <==> some_piece_too_large(esm_pieces(imports, fragments, exports))
        &&& r is Some ==> r.unwrap()@ == joined(esm_pieces(imports, fragments, exports), seq!['\n'])
    }
}

/// Whether some piece is larger than the joiner takes.
pub open spec fn some_piece_too_large(pieces: Seq<Seq<char>>) -> bool {
    exists|i: int|
        0 <= i < pieces.len() && crate::text::byte_len(#[trigger] pieces[i])
            > crate::text::MAX_PIECE_BYTES
}

/// Joins the pieces of a chunk rendered as an ES module, one per line.
pub fn render_esm(
    imports: &Vec<ImportStatement>,
    fragments: &Vec<Option<String>>,
    exports: &Vec<NamePair>,
) -> (r: Option<String>)
    ensures
        r is Some ==> r.unwrap()@ == joined(
            esm_pieces(imports@, fragments@, exports@),
            seq!['\n'],
        ),
        r is None <==> some_piece_too_large(esm_pieces(imports@, fragments@, exports@)),
{
    let pieces = collect_esm_pieces(imports, fragments, exports);
    let r = join_lines(&pieces);
    proof {
        let all = esm_pieces(imports@, fragments@, exports@);
        assert(all.len() == pieces@.len());
        if !pieces_fit(pieces@) {
            let i = choose|i: int|
                0 <= i < pieces@.len() && crate::text::byte_len(#[trigger] pieces@[i]@)
                    > crate::text::MAX_PIECE_BYTES;
            assert(all[i] == pieces@[i]@);
        } else {
            assert forall|i: int| 0 <= i < all.len() implies crate::text::byte_len(
                #[trigger] all[i],
            ) <= crate::text::MAX_PIECE_BYTES by {
                assert(all[i] == pieces@[i]@);
            }
        }
    }
    r
}

} // verus!
