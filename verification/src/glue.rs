use vstd::prelude::*;
use vstd::string::*;
use crate::text::{concat_with, joined, texts};

verus! {

/// The module output formats.
#[derive(Debug, PartialEq, Eq, Clone, Copy, Structural)]
pub enum OutputFormat {
    Esm,
    Cjs,
    App,
}

/// One binding that crosses a chunk boundary: the name on the far side and
/// the name on this side.
#[derive(Debug, Clone)]
pub struct NamePair {
    pub name: String,
    pub alias: String,
}

/// All that one chunk takes from one other chunk, in first-discovery order.
#[derive(Debug, Clone)]
pub struct ImportStatement {
    pub path: String,
    pub items: Vec<NamePair>,
}

/// One item of an ES-module import or export list: `a as b`.
pub open spec fn esm_item_text(pair: NamePair) -> Seq<char> {
    pair.name@ + " as "@ + pair.alias@
}

/// One item of a CommonJS destructuring import: `a: b`.
pub open spec fn cjs_item_text(pair: NamePair) -> Seq<char> {
    pair.name@ + ": "@ + pair.alias@
}

/// One line of a CommonJS export block: `exports.b = a;`.
pub open spec fn cjs_export_text(pair: NamePair) -> Seq<char> {
    "exports."@ + pair.alias@ + " = "@ + pair.name@ + ";"@
}

pub open spec fn esm_item_texts(items: Seq<NamePair>) -> Seq<Seq<char>> {
    items.map_values(|p: NamePair| esm_item_text(p))
}

pub open spec fn cjs_item_texts(items: Seq<NamePair>) -> Seq<Seq<char>> {
    items.map_values(|p: NamePair| cjs_item_text(p))
}

pub open spec fn cjs_export_texts(items: Seq<NamePair>) -> Seq<Seq<char>> {
    items.map_values(|p: NamePair| cjs_export_text(p))
}

/// The statement that brings the items of one other chunk in:
/// `const { a: b } = require("<path>");` for CommonJS output,
/// `import { a as b, ... } from "<path>";` otherwise.
pub open spec fn import_statement_text(stmt: ImportStatement, format: OutputFormat) -> Seq<char> {
    if format == OutputFormat::Cjs {
        "const { "@ + joined(cjs_item_texts(stmt.items@), ", "@) + " } = require(\""@ + stmt.path@
            + "\");"@
    } else {
        "import { "@ + joined(esm_item_texts(stmt.items@), ", "@) + " } from \""@ + stmt.path@
            + "\";"@
    }
}

pub open spec fn import_statement_texts(
    stmts: Seq<ImportStatement>,
    format: OutputFormat,
) -> Seq<Seq<char>> {
    stmts.map_values(|s: ImportStatement| import_statement_text(s, format))
}

/// The import preamble: one statement per chunk imported from, one per line,
/// in the order given.
pub open spec fn imports_text(stmts: Seq<ImportStatement>, format: OutputFormat) -> Seq<char> {
    joined(import_statement_texts(stmts, format), seq!['\n'])
}

/// The export block, where there is one: nothing for an empty export list,
/// `export { a as b, ... };` for ES-module output, one `exports.b = a;` per
/// line for CommonJS output. A self-executing application has no export
/// surface.
pub open spec fn exports_text(items: Seq<NamePair>, format: OutputFormat) -> Option<Seq<char>> {
    if items.len() == 0 {
        None
    } else {
        match format {
            OutputFormat::Esm => Some("export { "@ + joined(esm_item_texts(items), ", "@) + " };"@),
            OutputFormat::Cjs => Some(joined(cjs_export_texts(items), seq!['\n'])),
            OutputFormat::App => None,
        }
    }
}

fn render_esm_items(items: &Vec<NamePair>) -> (out: Vec<String>)
    ensures
        texts(out@) == esm_item_texts(items@),
{
    let mut out: Vec<String> = Vec::new();
    let mut i: usize = 0;
    while i < items.len()
        invariant
            i <= items.len(),
            out@.len() == i,
            forall|j: int| 0 <= j < i ==> (#[trigger] out@[j])@ == esm_item_text(items@[j]),
        decreases items.len() - i,
    {
        let mut s = items[i].name.clone();
        s.append(" as ");
        s.append(items[i].alias.as_str());
        out.push(s);
        i += 1;
    }
    proof {
        assert(texts(out@) =~= esm_item_texts(items@));
    }
    out
}

fn render_cjs_items(items: &Vec<NamePair>) -> (out: Vec<String>)
    ensures
        texts(out@) == cjs_item_texts(items@),
{
    let mut out: Vec<String> = Vec::new();
    let mut i: usize = 0;
    while i < items.len()
        invariant
            i <= items.len(),
            out@.len() == i,
            forall|j: int| 0 <= j < i ==> (#[trigger] out@[j])@ == cjs_item_text(items@[j]),
        decreases items.len() - i,
    {
        let mut s = items[i].name.clone();
        s.append(": ");
        s.append(items[i].alias.as_str());
        out.push(s);
        i += 1;
    }
    proof {
        assert(texts(out@) =~= cjs_item_texts(items@));
    }
    out
}

fn render_cjs_exports(items: &Vec<NamePair>) -> (out: Vec<String>)
    ensures
        texts(out@) == cjs_export_texts(items@),
{
    let mut out: Vec<String> = Vec::new();
    let mut i: usize = 0;
    while i < items.len()
        invariant
            i <= items.len(),
            out@.len() == i,
            forall|j: int| 0 <= j < i ==> (#[trigger] out@[j])@ == cjs_export_text(items@[j]),
        decreases items.len() - i,
    {
        let mut s = String::from_str("exports.");
        s.append(items[i].alias.as_str());
        s.append(" = ");
        s.append(items[i].name.as_str());
        s.append(";");
        out.push(s);
        i += 1;
    }
    proof {
        assert(texts(out@) =~= cjs_export_texts(items@));
    }
    out
}

/// Renders the statement that imports from one other chunk.
pub fn render_import_statement(stmt: &ImportStatement, format: OutputFormat) -> (out: String)
    ensures
        out@ == import_statement_text(*stmt, format),
{
    if format == OutputFormat::Cjs {
        let items = render_cjs_items(&stmt.items);
        let list = concat_with(&items, ", ");
        let mut s = String::from_str("const { ");
        s.append(list.as_str());
        s.append(" } = require(\"");
        s.append(stmt.path.as_str());
        s.append("\");");
        s
    } else {
        let items = render_esm_items(&stmt.items);
        let list = concat_with(&items, ", ");
        let mut s = String::from_str("import { ");
        s.append(list.as_str());
        s.append(" } from \"");
        s.append(stmt.path.as_str());
        s.append("\";");
        s
    }
}

/// Renders the cross-chunk import preamble of a chunk.
pub fn render_chunk_imports(stmts: &Vec<ImportStatement>, format: OutputFormat) -> (out: String)
    ensures
        out@ == imports_text(stmts@, format),
{
    let mut lines: Vec<String> = Vec::new();
    let mut i: usize = 0;
    while i < stmts.len()
        invariant
            i <= stmts.len(),
            lines@.len() == i,
            forall|j: int|
                0 <= j < i ==> (#[trigger] lines@[j])@ == import_statement_text(stmts@[j], format),
        decreases stmts.len() - i,
    {
        let line = render_import_statement(&stmts[i], format);
        lines.push(line);
        i += 1;
    }
    proof {
        assert(texts(lines@) =~= import_statement_texts(stmts@, format));
        reveal_strlit("\n");
        assert("\n"@ =~= seq!['\n']);
    }
    concat_with(&lines, "\n")
}

/// Renders the export block of a chunk, if it has one.
pub fn render_chunk_exports(items: &Vec<NamePair>, format: OutputFormat) -> (out: Option<String>)
    ensures
        out.is_some() == exports_text(items@, format).is_some(),
        out.is_some() ==> out.unwrap()@ == exports_text(items@, format).unwrap(),
{
    if items.len() == 0 {
        return None;
    }
    match format {
        OutputFormat::Esm => {
            let parts = render_esm_items(items);
            let list = concat_with(&parts, ", ");
            let mut s = String::from_str("export { ");
            s.append(list.as_str());
            s.append(" };");
            Some(s)
        },
        OutputFormat::Cjs => {
            let parts = render_cjs_exports(items);
            proof {
                reveal_strlit("\n");
                assert("\n"@ =~= seq!['\n']);
            }
            Some(concat_with(&parts, "\n"))
        },
        OutputFormat::App => None,
    }
}

} // verus!
