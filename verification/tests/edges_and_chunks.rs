use chunk_linker::bitset::BitSet;
use chunk_linker::chunk::{
    CanonicalName, Chunk, ChunkImports, CrossChunkImportItem, ExportedName, FileNameTemplate,
};
use chunk_linker::chunk_graph::{group_by_bits, partition_modules};
use chunk_linker::ids::{ChunkId, ModuleId, SymbolRef};
use chunk_linker::import_record::{ImportKind, RawImportRecord};
use chunk_linker::link::{collect_foreign_symbols, compute_cross_chunk_imports};
use chunk_linker::load::{load_source, LoadStep};
use chunk_linker::naming::{assign_canonical_names, decimal, make_candidate, NamedSymbol};
use chunk_linker::import_record::ImportRecord;
use chunk_linker::reach::{compute_reachability, reachable_from};
use chunk_linker::resolve::{
    compute_chunk_exports, fill_export_aliases, lookup_canonical_name, lookup_export_alias,
};

fn sym(owner: u32, symbol: u32) -> SymbolRef {
    SymbolRef { owner: ModuleId(owner), symbol }
}

fn bits_of(total: u32, set: &[u32]) -> BitSet {
    let mut b = BitSet::new(total);
    for i in set {
        b.set_bit(*i);
    }
    b
}

#[test]
fn import_and_require_are_static() {
    assert!(ImportKind::Import.is_static());
    assert!(ImportKind::Require.is_static());
    assert!(!ImportKind::DynamicImport.is_static());
}

#[test]
fn import_kinds_have_their_diagnostic_names() {
    assert_eq!(ImportKind::Import.to_string(), "import-statement");
    assert_eq!(ImportKind::DynamicImport.to_string(), "dynamic-import");
    assert_eq!(ImportKind::Require.to_string(), "require-call");
}

#[test]
fn raw_record_starts_with_cleared_flags() {
    let raw = RawImportRecord::new("./b".to_string(), ImportKind::Import, sym(0, 3));
    assert_eq!(raw.module_request, "./b");
    assert_eq!(raw.kind, ImportKind::Import);
    assert_eq!(raw.namespace_ref, sym(0, 3));
    assert!(!raw.contains_import_star);
    assert!(!raw.contains_import_default);
}

#[test]
fn resolving_a_record_keeps_its_fields() {
    let mut raw = RawImportRecord::new("lib".to_string(), ImportKind::Require, sym(2, 1));
    raw.contains_import_star = true;
    let rec = raw.into_import_record(ModuleId(7));
    assert_eq!(rec.module_request, "lib");
    assert_eq!(rec.resolved_module, ModuleId(7));
    assert_eq!(rec.kind, ImportKind::Require);
    assert_eq!(rec.namespace_ref, sym(2, 1));
    assert!(rec.contains_import_star);
    assert!(!rec.contains_import_default);
}

#[test]
fn bitset_sets_and_reads_single_bits() {
    let mut b = BitSet::new(10);
    assert_eq!(b.entries.len(), 2);
    assert!(!b.has_bit(9));
    b.set_bit(9);
    b.set_bit(0);
    assert!(b.has_bit(9));
    assert!(b.has_bit(0));
    assert!(!b.has_bit(1));
    assert!(!b.has_bit(8));
    assert_eq!(b.entries, vec![1u8, 2u8]);
}

#[test]
fn bitset_union_adds_the_other_bits() {
    let mut a = bits_of(16, &[1, 8]);
    let b = bits_of(16, &[1, 2, 15]);
    a.union(&b);
    assert_eq!(a.entries, vec![0b0000_0110u8, 0b1000_0001u8]);
    assert!(a.same_bits(&bits_of(16, &[1, 2, 8, 15])));
    assert!(!a.same_bits(&b));
    assert!(a.copy().same_bits(&a));
    assert!(!BitSet::new(8).same_bits(&BitSet::new(16)));
}

#[test]
fn modules_group_by_identical_bits_in_discovery_order() {
    // Two entries; module 2 is reached by both, module 3 by the second only.
    let bits = vec![
        bits_of(2, &[0]),
        bits_of(2, &[1]),
        bits_of(2, &[0, 1]),
        bits_of(2, &[1]),
        bits_of(2, &[0, 1]),
        bits_of(2, &[0]),
    ];
    let g = group_by_bits(&bits);
    assert_eq!(g.chunk_of, vec![0, 1, 2, 1, 2, 0]);
    assert_eq!(g.firsts, vec![0, 1, 2]);
}

#[test]
fn partition_builds_entry_and_shared_chunks() {
    let bits = vec![
        bits_of(2, &[0]),
        bits_of(2, &[0, 1]),
        bits_of(2, &[1]),
        bits_of(2, &[0, 1]),
        bits_of(2, &[1]),
    ];
    let entries = vec![ModuleId(0), ModuleId(2)];
    let g = partition_modules(&bits, &entries);
    assert_eq!(
        g.module_to_chunk,
        vec![ChunkId(0), ChunkId(1), ChunkId(2), ChunkId(1), ChunkId(2)]
    );
    assert_eq!(g.chunks.len(), 3);
    assert_eq!(g.chunks[0].modules, vec![ModuleId(0)]);
    assert_eq!(g.chunks[1].modules, vec![ModuleId(1), ModuleId(3)]);
    assert_eq!(g.chunks[2].modules, vec![ModuleId(2), ModuleId(4)]);
    assert_eq!(g.chunks[0].entry_module, Some(ModuleId(0)));
    assert_eq!(g.chunks[1].entry_module, None);
    assert_eq!(g.chunks[2].entry_module, Some(ModuleId(2)));
    assert!(g.chunks[1].bits.same_bits(&bits[1]));
    assert!(g.chunks[0].file_name.is_none());
    assert!(g.chunks[0].canonical_names.is_empty());
}

#[test]
fn partition_of_no_modules_is_empty() {
    let g = partition_modules(&Vec::new(), &Vec::new());
    assert!(g.chunks.is_empty());
    assert!(g.module_to_chunk.is_empty());
}

#[test]
fn every_module_is_in_exactly_one_chunk() {
    let bits = vec![bits_of(3, &[0]), bits_of(3, &[2]), bits_of(3, &[0]), bits_of(3, &[1, 2])];
    let g = partition_modules(&bits, &vec![ModuleId(0)]);
    for m in 0..bits.len() {
        let mut count = 0;
        for c in &g.chunks {
            if c.modules.contains(&ModuleId(m as u32)) {
                count += 1;
            }
        }
        assert_eq!(count, 1);
        let home = g.module_to_chunk[m].0 as usize;
        assert!(g.chunks[home].modules.contains(&ModuleId(m as u32)));
    }
}

#[test]
fn decimal_writes_digits() {
    assert_eq!(decimal(0), "0");
    assert_eq!(decimal(7), "7");
    assert_eq!(decimal(10), "10");
    assert_eq!(decimal(4096), "4096");
}

#[test]
fn candidates_carry_a_dollar_suffix() {
    assert_eq!(make_candidate(&"foo".to_string(), 0), "foo");
    assert_eq!(make_candidate(&"foo".to_string(), 1), "foo$1");
    assert_eq!(make_candidate(&"foo".to_string(), 12), "foo$12");
}

#[test]
fn colliding_names_get_suffixes_in_discovery_order() {
    let symbols = vec![
        NamedSymbol { symbol: sym(0, 0), name: "x".to_string() },
        NamedSymbol { symbol: sym(1, 0), name: "x".to_string() },
        NamedSymbol { symbol: sym(2, 0), name: "y".to_string() },
        NamedSymbol { symbol: sym(3, 0), name: "x$1".to_string() },
        NamedSymbol { symbol: sym(4, 0), name: "x".to_string() },
    ];
    let names = assign_canonical_names(&symbols);
    let got: Vec<String> = names.iter().map(|n| n.name.clone()).collect();
    assert_eq!(got, vec!["x", "x$1", "y", "x$1$1", "x$2"]);
    for (i, n) in names.iter().enumerate() {
        assert_eq!(n.symbol, symbols[i].symbol);
        for m in &names[..i] {
            assert_ne!(m.name, n.name);
        }
    }
}

#[test]
fn canonical_names_do_not_depend_on_later_symbols() {
    let mut symbols = vec![
        NamedSymbol { symbol: sym(0, 0), name: "a".to_string() },
        NamedSymbol { symbol: sym(1, 0), name: "a".to_string() },
    ];
    let short: Vec<String> =
        assign_canonical_names(&symbols).iter().map(|n| n.name.clone()).collect();
    symbols.push(NamedSymbol { symbol: sym(2, 0), name: "a".to_string() });
    let long: Vec<String> =
        assign_canonical_names(&symbols).iter().map(|n| n.name.clone()).collect();
    assert_eq!(&long[..2], &short[..]);
    assert_eq!(long[2], "a$2");
}

#[test]
fn foreign_symbols_are_listed_once_in_discovery_order() {
    let module_to_chunk = vec![ChunkId(0), ChunkId(1), ChunkId(2), ChunkId(1)];
    let refs = vec![sym(2, 0), sym(0, 1), sym(1, 5), sym(2, 0), sym(3, 2), sym(1, 5)];
    let foreign = collect_foreign_symbols(&refs, &module_to_chunk, ChunkId(0));
    assert_eq!(foreign, vec![sym(2, 0), sym(1, 5), sym(3, 2)]);
}

#[test]
fn import_map_groups_symbols_by_source_chunk() {
    let module_to_chunk = vec![ChunkId(0), ChunkId(1), ChunkId(2), ChunkId(1)];
    let refs = vec![sym(2, 0), sym(0, 1), sym(1, 5), sym(2, 0), sym(3, 2)];
    let imports = compute_cross_chunk_imports(&refs, &module_to_chunk, ChunkId(0));
    assert_eq!(imports.len(), 2);
    assert_eq!(imports[0].chunk, ChunkId(2));
    assert_eq!(imports[1].chunk, ChunkId(1));
    let first: Vec<SymbolRef> = imports[0].items.iter().map(|i| i.import_ref).collect();
    let second: Vec<SymbolRef> = imports[1].items.iter().map(|i| i.import_ref).collect();
    assert_eq!(first, vec![sym(2, 0)]);
    assert_eq!(second, vec![sym(1, 5), sym(3, 2)]);
    assert!(imports[1].items.iter().all(|i| i.export_alias.is_none()));
    // every reference is local or imported
    for r in &refs {
        let home = module_to_chunk[r.owner.0 as usize];
        let imported = imports
            .iter()
            .any(|e| e.chunk == home && e.items.iter().any(|i| i.import_ref == *r));
        assert!(home == ChunkId(0) || imported);
    }
}

#[test]
fn a_chunk_that_refers_to_itself_alone_imports_nothing() {
    let module_to_chunk = vec![ChunkId(0), ChunkId(0)];
    let refs = vec![sym(0, 0), sym(1, 0)];
    assert!(compute_cross_chunk_imports(&refs, &module_to_chunk, ChunkId(0)).is_empty());
}

#[test]
fn canonical_name_lookup_takes_the_first_entry() {
    let names = vec![
        CanonicalName { symbol: sym(0, 0), name: "a".to_string() },
        CanonicalName { symbol: sym(0, 1), name: "b".to_string() },
        CanonicalName { symbol: sym(0, 0), name: "late".to_string() },
    ];
    assert_eq!(lookup_canonical_name(&names, sym(0, 0)), Some("a".to_string()));
    assert_eq!(lookup_canonical_name(&names, sym(0, 1)), Some("b".to_string()));
    assert_eq!(lookup_canonical_name(&names, sym(9, 9)), None);
}

#[test]
fn exports_are_offered_under_canonical_names() {
    let names = vec![
        CanonicalName { symbol: sym(0, 0), name: "a".to_string() },
        CanonicalName { symbol: sym(0, 1), name: "b$1".to_string() },
    ];
    let exports = compute_chunk_exports(&vec![sym(0, 1), sym(0, 0)], &names).unwrap();
    assert_eq!(exports.len(), 2);
    assert_eq!(exports[0].symbol, sym(0, 1));
    assert_eq!(exports[0].alias, "b$1");
    assert_eq!(exports[1].alias, "a");
    assert!(compute_chunk_exports(&vec![sym(4, 4)], &names).is_none());
}

#[test]
fn file_name_comes_from_template_and_name() {
    let template = FileNameTemplate { template: "[name]-chunk/[name].js".to_string() };
    let mut chunk =
        Chunk::new(Some("main".to_string()), Some(ModuleId(0)), BitSet::new(1), vec![ModuleId(0)]);
    chunk.render_file_name(&template);
    assert_eq!(chunk.file_name, Some("main-chunk/main.js".to_string()));
    assert_eq!(chunk.name, Some("main".to_string()));
    let mut anonymous = Chunk::new(None, None, BitSet::new(1), vec![ModuleId(1)]);
    anonymous.render_file_name(&template);
    assert_eq!(anonymous.file_name, Some("[name]-chunk/[name].js".to_string()));
}

#[test]
fn new_chunk_has_nothing_linked() {
    let chunk = Chunk::new(None, Some(ModuleId(3)), bits_of(4, &[2]), vec![ModuleId(3), ModuleId(5)]);
    assert_eq!(chunk.entry_module, Some(ModuleId(3)));
    assert_eq!(chunk.modules, vec![ModuleId(3), ModuleId(5)]);
    assert!(chunk.name.is_none());
    assert!(chunk.file_name.is_none());
    assert!(chunk.canonical_names.is_empty());
    assert!(chunk.imports_from_other_chunks.is_empty());
    assert!(chunk.exports_to_other_chunks.is_empty());
    assert!(chunk.bits.has_bit(2));
}

#[test]
fn chunk_renders_as_es_module_with_glue() {
    let mut shared = Chunk::new(Some("shared".to_string()), None, BitSet::new(2), vec![ModuleId(1)]);
    shared.file_name = Some("shared.js".to_string());
    shared.canonical_names = vec![CanonicalName { symbol: sym(1, 0), name: "x".to_string() }];
    shared.exports_to_other_chunks = vec![ExportedName { symbol: sym(1, 0), alias: "x".to_string() }];
    let mut main = Chunk::new(Some("main".to_string()), Some(ModuleId(0)), BitSet::new(2), vec![ModuleId(0)]);
    main.canonical_names = vec![CanonicalName { symbol: sym(1, 0), name: "x$1".to_string() }];
    main.imports_from_other_chunks = vec![ChunkImports {
        chunk: ChunkId(1),
        items: vec![CrossChunkImportItem { export_alias: Some("x".to_string()), import_ref: sym(1, 0) }],
    }];
    let fragments = vec![Some("console.log(x$1);".to_string())];
    let chunks = vec![
        Chunk::new(None, None, BitSet::new(2), vec![]),
        shared,
    ];
    let code = main.render(&chunks, &fragments).unwrap();
    assert_eq!(code, "import { x as x$1 } from \"./shared.js\";\nconsole.log(x$1);");
    let shared_code = chunks[1].render(&chunks, &vec![None, Some("const x = 1;".to_string())]).unwrap();
    assert_eq!(shared_code, "\nconst x = 1;\nexport { x as x };");
}

#[test]
fn chunk_with_unresolved_import_does_not_render() {
    let mut main = Chunk::new(None, Some(ModuleId(0)), BitSet::new(1), vec![ModuleId(0)]);
    main.imports_from_other_chunks = vec![ChunkImports {
        chunk: ChunkId(5),
        items: vec![],
    }];
    assert!(main.render(&vec![], &vec![]).is_none());
    assert!(main.import_statements(&vec![]).is_none());
}

#[test]
fn load_prefers_hook_then_ignored_then_file() {
    assert!(matches!(load_source(Some("code".to_string()), true), LoadStep::Loaded(s) if s == "code"));
    assert!(matches!(load_source(Some("code".to_string()), false), LoadStep::Loaded(s) if s == "code"));
    assert!(matches!(load_source(None, true), LoadStep::Loaded(s) if s.is_empty()));
    assert!(matches!(load_source(None, false), LoadStep::ReadFile));
}

fn edge(to: u32, kind: ImportKind) -> ImportRecord {
    RawImportRecord::new(format!("./m{to}"), kind, sym(to, 0)).into_import_record(ModuleId(to))
}

fn sample_graph() -> Vec<Vec<ImportRecord>> {
    // 0 -> 2, 1 -> 2 (dynamic), 1 -> 3, 2 -> 4, 4 -> 2, 5 stands alone
    vec![
        vec![edge(2, ImportKind::Import)],
        vec![edge(2, ImportKind::DynamicImport), edge(3, ImportKind::Require)],
        vec![edge(4, ImportKind::Import)],
        vec![],
        vec![edge(2, ImportKind::Import)],
        vec![],
    ]
}

#[test]
fn reachability_follows_static_and_dynamic_edges() {
    let graph = sample_graph();
    assert_eq!(reachable_from(&graph, 0), vec![true, false, true, false, true, false]);
    assert_eq!(reachable_from(&graph, 1), vec![false, true, true, true, true, false]);
    assert_eq!(reachable_from(&graph, 5), vec![false, false, false, false, false, true]);
}

#[test]
fn fingerprints_have_one_bit_per_entry() {
    let graph = sample_graph();
    let entries = vec![ModuleId(0), ModuleId(1)];
    let bits = compute_reachability(&graph, &entries);
    let got: Vec<Vec<u8>> = bits.iter().map(|b| b.entries.clone()).collect();
    assert_eq!(got, vec![vec![1u8], vec![2], vec![3], vec![2], vec![3], vec![0]]);
}

#[test]
fn modules_reached_alike_share_a_chunk() {
    let graph = sample_graph();
    let entries = vec![ModuleId(0), ModuleId(1)];
    let bits = compute_reachability(&graph, &entries);
    let g = partition_modules(&bits, &entries);
    for i in 0..bits.len() {
        for j in 0..bits.len() {
            assert_eq!(g.module_to_chunk[i] == g.module_to_chunk[j], bits[i].same_bits(&bits[j]));
        }
    }
    assert_eq!(g.chunks.len(), 4);
    assert_eq!(g.chunks[0].modules, vec![ModuleId(0)]);
    assert_eq!(g.chunks[1].modules, vec![ModuleId(1), ModuleId(3)]);
    assert_eq!(g.chunks[2].modules, vec![ModuleId(2), ModuleId(4)]);
    assert_eq!(g.chunks[3].modules, vec![ModuleId(5)]);
    assert_eq!(g.chunks[1].entry_module, Some(ModuleId(1)));
    assert_eq!(g.chunks[2].entry_module, None);
}

#[test]
fn import_items_take_the_exporting_chunks_alias() {
    let exports = vec![
        ExportedName { symbol: sym(1, 0), alias: "x".to_string() },
        ExportedName { symbol: sym(1, 1), alias: "y$1".to_string() },
    ];
    assert_eq!(lookup_export_alias(&exports, sym(1, 1)), Some("y$1".to_string()));
    assert_eq!(lookup_export_alias(&exports, sym(2, 1)), None);
    let items = vec![
        CrossChunkImportItem { export_alias: None, import_ref: sym(1, 1) },
        CrossChunkImportItem { export_alias: None, import_ref: sym(3, 3) },
        CrossChunkImportItem { export_alias: None, import_ref: sym(1, 0) },
    ];
    let filled = fill_export_aliases(&items, &exports);
    assert_eq!(filled.len(), 3);
    assert_eq!(filled[0].export_alias, Some("y$1".to_string()));
    assert_eq!(filled[0].import_ref, sym(1, 1));
    assert_eq!(filled[1].export_alias, None);
    assert_eq!(filled[2].export_alias, Some("x".to_string()));
}
