use chunk_linker::glue::{
    render_chunk_exports, render_chunk_imports, render_import_statement, ImportStatement, NamePair,
    OutputFormat,
};
use chunk_linker::render::{
    are_modules_all_strict, assemble, assemble_code, generate_rendered_chunk, render_chunk,
    render_entry_wrap, ChunkRenderInput, EntryFacts, ExportsKind, ModuleFacts, ModuleRenderOutput,
    RenderError, RenderedModule, WrapKind,
};
use chunk_linker::sourcemap::{
    count_lines, relativize_sources, rewrite_sources, stitch, MapPiece, SourceMap, Token,
};
use chunk_linker::text::{check_pieces, concat_with, join_lines};

fn pair(name: &str, alias: &str) -> NamePair {
    NamePair { name: name.to_string(), alias: alias.to_string() }
}

fn fragment(path: &str, content: &str) -> Option<ModuleRenderOutput> {
    Some(ModuleRenderOutput {
        path: format!("/src/{path}"),
        pretty_path: path.to_string(),
        rendered_module: RenderedModule { code: Some(content.to_string()) },
        rendered_content: content.to_string(),
        sourcemap: None,
        lines_count: 0,
    })
}

fn esm_module() -> ModuleFacts {
    ModuleFacts { exports_kind: ExportsKind::Esm, contains_use_strict: false }
}

fn input(format: OutputFormat) -> ChunkRenderInput {
    ChunkRenderInput {
        format,
        imports: vec![],
        fragments: vec![],
        modules: vec![],
        entry: None,
        exports: vec![],
        banner: None,
        footer: None,
    }
}

fn token(dst_line: u32, source_id: u32) -> Token {
    Token { dst_line, dst_col: 0, src_line: 0, src_col: 0, source_id }
}

#[test]
fn join_lines_puts_a_line_feed_between_pieces() {
    let parts = vec!["a".to_string(), "".to_string(), "b\n".to_string(), "c".to_string()];
    assert!(check_pieces(&parts));
    assert_eq!(join_lines(&parts), Some("a\n\nb\n\nc".to_string()));
    assert_eq!(join_lines(&vec![]), Some(String::new()));
    assert_eq!(join_lines(&vec!["only".to_string()]), Some("only".to_string()));
}

#[test]
fn concat_with_uses_the_separator() {
    let parts = vec!["a".to_string(), "b".to_string(), "c".to_string()];
    assert_eq!(concat_with(&parts, ", "), "a, b, c");
    assert_eq!(concat_with(&vec![], ", "), "");
}

#[test]
fn esm_import_statement_has_its_shape() {
    let stmt = ImportStatement { path: "./shared.js".to_string(), items: vec![pair("a", "b"), pair("c", "d")] };
    assert_eq!(
        render_import_statement(&stmt, OutputFormat::Esm),
        "import { a as b, c as d } from \"./shared.js\";"
    );
}

#[test]
fn cjs_import_statement_has_its_shape() {
    let stmt = ImportStatement { path: "./shared.js".to_string(), items: vec![pair("a", "b")] };
    assert_eq!(
        render_import_statement(&stmt, OutputFormat::Cjs),
        "const { a: b } = require(\"./shared.js\");"
    );
}

#[test]
fn import_preamble_has_one_line_per_chunk() {
    let stmts = vec![
        ImportStatement { path: "./one.js".to_string(), items: vec![pair("a", "a$1")] },
        ImportStatement { path: "./two.js".to_string(), items: vec![pair("b", "b"), pair("c", "c")] },
    ];
    assert_eq!(
        render_chunk_imports(&stmts, OutputFormat::Esm),
        "import { a as a$1 } from \"./one.js\";\nimport { b as b, c as c } from \"./two.js\";"
    );
    assert_eq!(render_chunk_imports(&vec![], OutputFormat::Esm), "");
}

#[test]
fn export_block_depends_on_format() {
    let items = vec![pair("a", "b"), pair("c", "d")];
    assert_eq!(render_chunk_exports(&items, OutputFormat::Esm), Some("export { a as b, c as d };".to_string()));
    assert_eq!(
        render_chunk_exports(&items, OutputFormat::Cjs),
        Some("exports.b = a;\nexports.d = c;".to_string())
    );
    assert_eq!(render_chunk_exports(&items, OutputFormat::App), None);
    assert_eq!(render_chunk_exports(&vec![], OutputFormat::Esm), None);
}

#[test]
fn two_modules_in_one_esm_chunk_render_in_module_order() {
    let mut inp = input(OutputFormat::Esm);
    inp.fragments = vec![fragment("b.js", "const x = 1;"), fragment("a.js", "console.log(x);")];
    inp.modules = vec![esm_module(), esm_module()];
    inp.entry = Some(EntryFacts { wrap_kind: WrapKind::Plain, wrapper_name: None });
    let code = assemble_code(&inp).unwrap();
    assert_eq!(code, "\n// b.js\nconst x = 1;\n// a.js\nconsole.log(x);");
    assert!(!code.contains("import "));
    assert!(!code.contains("export "));
    assert!(code.find("const x = 1;").unwrap() < code.find("console.log(x);").unwrap());
}

#[test]
fn absent_fragments_leave_no_trace() {
    let mut inp = input(OutputFormat::App);
    inp.fragments = vec![None, fragment("a.js", "a();"), None];
    assert_eq!(assemble_code(&inp).unwrap(), "// a.js\na();");
}

#[test]
fn app_format_has_no_import_or_export_glue() {
    let mut inp = input(OutputFormat::App);
    inp.imports = vec![ImportStatement { path: "./x.js".to_string(), items: vec![pair("a", "a")] }];
    inp.exports = vec![pair("a", "a")];
    inp.fragments = vec![fragment("a.js", "a();")];
    assert_eq!(assemble_code(&inp).unwrap(), "// a.js\na();");
}

#[test]
fn cjs_chunk_with_a_sloppy_module_gets_no_strict_prologue() {
    let mut inp = input(OutputFormat::Cjs);
    inp.modules = vec![
        esm_module(),
        ModuleFacts { exports_kind: ExportsKind::CommonJs, contains_use_strict: false },
    ];
    inp.fragments = vec![fragment("a.js", "a();"), fragment("b.js", "b();")];
    assert!(!are_modules_all_strict(&inp.modules));
    let code = assemble_code(&inp).unwrap();
    assert!(!code.contains("use strict"));
    assert_eq!(code, "\n// a.js\na();\n// b.js\nb();");
}

#[test]
fn cjs_chunk_of_es_modules_gets_the_strict_prologue() {
    let mut inp = input(OutputFormat::Cjs);
    inp.modules = vec![esm_module(), esm_module()];
    inp.fragments = vec![fragment("a.js", "a();")];
    assert!(are_modules_all_strict(&inp.modules));
    let code = assemble_code(&inp).unwrap();
    assert!(code.starts_with("\"use strict\";\n"));
    assert_eq!(code, "\"use strict\";\n\n\n// a.js\na();");
}

#[test]
fn textually_strict_commonjs_modules_count_as_strict() {
    let modules = vec![
        ModuleFacts { exports_kind: ExportsKind::CommonJs, contains_use_strict: true },
        ModuleFacts { exports_kind: ExportsKind::Neither, contains_use_strict: true },
    ];
    assert!(are_modules_all_strict(&modules));
    assert!(are_modules_all_strict(&vec![]));
    assert!(!are_modules_all_strict(&vec![ModuleFacts {
        exports_kind: ExportsKind::Neither,
        contains_use_strict: false
    }]));
}

#[test]
fn esm_chunk_never_gets_the_strict_prologue() {
    let mut inp = input(OutputFormat::Esm);
    inp.modules = vec![esm_module()];
    assert!(!assemble_code(&inp).unwrap().contains("use strict"));
}

#[test]
fn cjs_wrapped_entry_ends_with_export_default() {
    let mut inp = input(OutputFormat::Esm);
    inp.fragments = vec![fragment("a.js", "var require_a = wrap();")];
    inp.entry = Some(EntryFacts { wrap_kind: WrapKind::Cjs, wrapper_name: Some("require_a".to_string()) });
    let code = assemble_code(&inp).unwrap();
    assert!(code.ends_with("export default require_a();"));
    assert_eq!(code, "\n// a.js\nvar require_a = wrap();\nexport default require_a();");
}

#[test]
fn cjs_wrap_line_stands_between_code_and_export_block() {
    let mut inp = input(OutputFormat::Esm);
    inp.fragments = vec![fragment("a.js", "var require_a = wrap();")];
    inp.entry = Some(EntryFacts { wrap_kind: WrapKind::Cjs, wrapper_name: Some("require_a".to_string()) });
    inp.exports = vec![pair("y", "y")];
    let code = assemble_code(&inp).unwrap();
    let wrap_at = code.find("export default require_a();").unwrap();
    assert!(code.find("var require_a = wrap();").unwrap() < wrap_at);
    assert!(wrap_at < code.find("export { y as y };").unwrap());
    assert!(code.ends_with("export default require_a();\nexport { y as y };"));
}

#[test]
fn esm_wrapped_entry_calls_its_initializer() {
    let mut inp = input(OutputFormat::Esm);
    inp.fragments = vec![fragment("a.js", "var init_a = wrap();")];
    inp.entry = Some(EntryFacts { wrap_kind: WrapKind::Esm, wrapper_name: Some("init_a".to_string()) });
    assert_eq!(render_entry_wrap(&inp), Ok(Some("init_a();".to_string())));
    assert!(assemble_code(&inp).unwrap().ends_with("var init_a = wrap();\ninit_a();"));
}

#[test]
fn wrap_line_is_for_esm_output_only() {
    let mut inp = input(OutputFormat::Cjs);
    inp.entry = Some(EntryFacts { wrap_kind: WrapKind::Cjs, wrapper_name: None });
    assert_eq!(render_entry_wrap(&inp), Ok(None));
    inp.format = OutputFormat::App;
    assert_eq!(render_entry_wrap(&inp), Ok(None));
    inp.format = OutputFormat::Esm;
    inp.entry = Some(EntryFacts { wrap_kind: WrapKind::Plain, wrapper_name: None });
    assert_eq!(render_entry_wrap(&inp), Ok(None));
}

#[test]
fn wrapped_entry_without_initializer_is_fatal() {
    let mut inp = input(OutputFormat::Esm);
    inp.entry = Some(EntryFacts { wrap_kind: WrapKind::Esm, wrapper_name: None });
    assert_eq!(assemble_code(&inp), Err(RenderError::MissingWrapTarget));
    let r = render_chunk(&inp, "/work", "dist", &Some("main.js".to_string()));
    assert_eq!(r.err(), Some(RenderError::MissingWrapTarget));
}

#[test]
fn banner_is_first_even_before_the_strict_prologue() {
    let mut inp = input(OutputFormat::Cjs);
    inp.modules = vec![esm_module()];
    inp.fragments = vec![fragment("a.js", "a();")];
    inp.banner = Some("#!/usr/bin/env node".to_string());
    inp.footer = Some("/* end */".to_string());
    let code = assemble_code(&inp).unwrap();
    assert!(code.starts_with("#!/usr/bin/env node\n\"use strict\";\n"));
    assert!(code.ends_with("a();\n/* end */"));
}

#[test]
fn empty_hook_texts_are_left_out() {
    let mut inp = input(OutputFormat::App);
    inp.fragments = vec![fragment("a.js", "a();")];
    inp.banner = Some(String::new());
    inp.footer = Some(String::new());
    assert_eq!(assemble_code(&inp).unwrap(), "// a.js\na();");
}

#[test]
fn rendering_twice_gives_the_same_bytes() {
    let mut inp = input(OutputFormat::Esm);
    inp.imports = vec![ImportStatement { path: "./s.js".to_string(), items: vec![pair("a", "b")] }];
    inp.fragments = vec![fragment("a.js", "a();"), None, fragment("c.js", "c();")];
    inp.exports = vec![pair("c", "c")];
    let first = assemble_code(&inp).unwrap();
    let second = assemble_code(&inp).unwrap();
    assert_eq!(first, second);
    assert_eq!(
        first,
        "import { a as b } from \"./s.js\";\n// a.js\na();\n// c.js\nc();\nexport { c as c };"
    );
}

#[test]
fn summary_leaves_synthetic_modules_out() {
    let mut virtual_module = fragment("rt", "runtime();").unwrap();
    virtual_module.path = "\0runtime".to_string();
    let frags = vec![fragment("a.js", "a();"), Some(virtual_module), None, fragment("b.js", "b();")];
    let summary = generate_rendered_chunk(&"main.js".to_string(), true, &frags);
    assert_eq!(summary.file_name, "main.js");
    assert!(summary.is_entry);
    assert_eq!(summary.modules.len(), 2);
    assert_eq!(summary.modules.get("/src/a.js").unwrap().code, Some("a();".to_string()));
    assert_eq!(summary.modules.get("/src/b.js").unwrap().code, Some("b();".to_string()));
    assert!(!summary.modules.contains_key("\0runtime"));
}

#[test]
fn summary_keeps_the_last_record_of_a_path() {
    let frags = vec![fragment("a.js", "first();"), fragment("a.js", "second();")];
    let summary = generate_rendered_chunk(&"main.js".to_string(), false, &frags);
    assert_eq!(summary.modules.len(), 1);
    assert_eq!(summary.modules.get("/src/a.js").unwrap().code, Some("second();".to_string()));
}

#[test]
fn render_chunk_reports_directory_and_file_name() {
    let mut inp = input(OutputFormat::Esm);
    inp.fragments = vec![fragment("a.js", "a();")];
    inp.entry = Some(EntryFacts { wrap_kind: WrapKind::Plain, wrapper_name: None });
    let out = render_chunk(&inp, "/work", "dist", &Some("assets/main.js".to_string())).unwrap();
    assert_eq!(out.code, "\n// a.js\na();");
    assert_eq!(out.preliminary_filename, "assets/main.js");
    assert_eq!(out.rendered_chunk.file_name, "assets/main.js");
    assert!(out.rendered_chunk.is_entry);
    assert_eq!(out.rendered_chunk.modules.len(), 1);
    assert!(out.map.is_none());
    assert_eq!(std::path::Path::new(&out.file_dir), std::path::Path::new("/work/dist/assets"));
}

#[test]
fn missing_file_name_is_fatal() {
    let inp = input(OutputFormat::Esm);
    let r = render_chunk(&inp, "/work", "dist", &None);
    assert_eq!(r.err(), Some(RenderError::MissingPreliminaryFilename));
}

#[test]
fn file_path_without_parent_is_fatal() {
    let inp = input(OutputFormat::Esm);
    let r = render_chunk(&inp, "", "", &Some(String::new()));
    assert_eq!(r.err(), Some(RenderError::MissingParentDirectory));
}

#[test]
fn errors_name_the_broken_invariant() {
    assert_eq!(RenderError::MissingPreliminaryFilename.message(), "chunk file name should be generated before rendering");
    assert_eq!(RenderError::MissingParentDirectory.message(), "chunk file name should have a parent");
    assert_eq!(RenderError::MissingWrapTarget.message(), "entry wrapper should be generated before rendering");
    assert_eq!(RenderError::UnresolvedSourcePath.message(), "mapped source path should resolve against the chunk directory");
    assert_eq!(RenderError::SourceMapOverflow.message(), "composite source map should fit its index range");
}

#[test]
fn count_lines_counts_line_feeds() {
    assert_eq!(count_lines(""), 0);
    assert_eq!(count_lines("a"), 0);
    assert_eq!(count_lines("a\nb\n"), 2);
    assert_eq!(count_lines("\"use strict\";\n"), 1);
}

#[test]
fn stitch_moves_tokens_down_and_renumbers_sources() {
    let first = SourceMap { sources: vec!["a.ts".to_string()], tokens: vec![token(0, 0), token(1, 0)] };
    let second = SourceMap {
        sources: vec!["b.ts".to_string(), "c.ts".to_string()],
        tokens: vec![token(0, 1), token(2, 0)],
    };
    let pieces = vec![
        MapPiece { lines: 0, map: None },
        MapPiece { lines: 1, map: Some(&first) },
        MapPiece { lines: 2, map: None },
        MapPiece { lines: 2, map: Some(&second) },
    ];
    let map = stitch(&pieces).unwrap().unwrap();
    assert_eq!(map.sources, vec!["a.ts", "b.ts", "c.ts"]);
    assert_eq!(map.tokens, vec![token(1, 0), token(2, 0), token(6, 2), token(8, 1)]);
}

#[test]
fn stitch_without_maps_gives_no_map() {
    let pieces = vec![MapPiece { lines: 3, map: None }, MapPiece { lines: 0, map: None }];
    assert!(stitch(&pieces).unwrap().is_none());
    assert!(stitch(&vec![]).unwrap().is_none());
}

#[test]
fn stitch_reports_a_line_that_does_not_fit() {
    let map = SourceMap { sources: vec!["a.ts".to_string()], tokens: vec![token(5, 0)] };
    let pieces = vec![MapPiece { lines: u32::MAX - 5, map: None }, MapPiece { lines: 0, map: Some(&map) }];
    assert!(stitch(&pieces).is_none());
    let fits = vec![MapPiece { lines: u32::MAX - 6, map: None }, MapPiece { lines: 0, map: Some(&map) }];
    assert_eq!(stitch(&fits).unwrap().unwrap().tokens, vec![token(u32::MAX, 0)]);
}

#[test]
fn sources_become_relative_to_the_chunk_directory() {
    let map = SourceMap {
        sources: vec!["/work/src/a.ts".to_string(), "/work/dist/assets/b.ts".to_string()],
        tokens: vec![token(3, 1)],
    };
    let out = relativize_sources(map, "/work/dist/assets").unwrap();
    assert_eq!(out.tokens, vec![token(3, 1)]);
    assert_eq!(out.sources.len(), 2);
    assert_eq!(std::path::Path::new(&out.sources[0]), std::path::Path::new("../../src/a.ts"));
    assert_eq!(std::path::Path::new(&out.sources[1]), std::path::Path::new("b.ts"));
}

#[test]
fn render_chunk_stitches_and_rewrites_the_map() {
    let mut inp = input(OutputFormat::Esm);
    let mut a = fragment("a.ts", "a();\nb();").unwrap();
    a.sourcemap = Some(SourceMap { sources: vec!["/work/src/a.ts".to_string()], tokens: vec![token(0, 0), token(1, 0)] });
    a.lines_count = 1;
    let mut c = fragment("c.ts", "c();").unwrap();
    c.sourcemap = Some(SourceMap { sources: vec!["/work/src/c.ts".to_string()], tokens: vec![token(0, 0)] });
    inp.fragments = vec![Some(a), fragment("plain.js", "p();"), Some(c)];
    inp.banner = Some("/* banner */".to_string());
    let out = render_chunk(&inp, "/work", "dist", &Some("main.js".to_string())).unwrap();
    assert_eq!(
        out.code,
        "/* banner */\n\n// a.ts\na();\nb();\n// plain.js\np();\n// c.ts\nc();"
    );
    let map = out.map.unwrap();
    assert_eq!(map.tokens, vec![token(3, 0), token(4, 0), token(8, 1)]);
    assert_eq!(map.sources.len(), 2);
    assert_eq!(std::path::Path::new(&map.sources[0]), std::path::Path::new("../src/a.ts"));
    assert_eq!(std::path::Path::new(&map.sources[1]), std::path::Path::new("../src/c.ts"));
    let assembled = assemble(&inp).unwrap();
    assert_eq!(assembled.code, out.code);
    assert_eq!(assembled.map.unwrap().sources, vec!["/work/src/a.ts", "/work/src/c.ts"]);
}

#[test]
fn a_map_pushed_past_the_last_line_is_fatal() {
    let mut inp = input(OutputFormat::App);
    let mut long = fragment("long.ts", "l();").unwrap();
    long.sourcemap = Some(SourceMap { sources: vec!["/s/long.ts".to_string()], tokens: vec![token(0, 0)] });
    long.lines_count = u32::MAX;
    let mut next = fragment("next.ts", "n();").unwrap();
    next.sourcemap = Some(SourceMap { sources: vec!["/s/next.ts".to_string()], tokens: vec![token(0, 0)] });
    inp.fragments = vec![Some(long), Some(next)];
    assert_eq!(assemble(&inp).err(), Some(RenderError::SourceMapOverflow));
    let r = render_chunk(&inp, "/work", "dist", &Some("main.js".to_string()));
    assert_eq!(r.err(), Some(RenderError::SourceMapOverflow));
    assert_eq!(assemble_code(&inp).unwrap(), "// long.ts\nl();\n// next.ts\nn();");
}

#[test]
fn rewritten_paths_replace_the_sources_in_order() {
    let map = SourceMap {
        sources: vec!["/a/x.ts".to_string(), "/a/y.ts".to_string()],
        tokens: vec![token(1, 0), token(2, 1)],
    };
    let outcomes = vec![Some("../x.ts".to_string()), Some("y.ts".to_string())];
    let out = rewrite_sources(map, &outcomes).unwrap();
    assert_eq!(out.sources, vec!["../x.ts", "y.ts"]);
    assert_eq!(out.tokens, vec![token(1, 0), token(2, 1)]);
}

#[test]
fn one_unresolved_path_leaves_no_map() {
    let map = SourceMap { sources: vec!["/a/x.ts".to_string(), "/a/y.ts".to_string()], tokens: vec![] };
    assert!(rewrite_sources(map, &vec![Some("x.ts".to_string()), None]).is_none());
    let empty = SourceMap { sources: vec![], tokens: vec![token(0, 0)] };
    let kept = rewrite_sources(empty, &vec![]).unwrap();
    assert!(kept.sources.is_empty());
    assert_eq!(kept.tokens, vec![token(0, 0)]);
}
