use vstd::prelude::*;
use vstd::string::*;
use crate::bitset::BitSet;
use crate::ids::{ChunkId, ModuleId, SymbolRef};

verus! {

/// One symbol that a chunk takes from another chunk.
#[derive(Debug, Clone)]
pub struct CrossChunkImportItem {
    pub export_alias: Option<String>,
    pub import_ref: SymbolRef,
}

/// The items that a chunk takes from one other chunk, in first-discovery
/// order.
#[derive(Debug, Clone)]
pub struct ChunkImports {
    pub chunk: ChunkId,
    pub items: Vec<CrossChunkImportItem>,
}

/// The final identifier of one symbol inside one chunk.
#[derive(Debug, Clone)]
pub struct CanonicalName {
    pub symbol: SymbolRef,
    pub name: String,
}

/// The alias under which a chunk offers one of its symbols to other chunks.
#[derive(Debug, Clone)]
pub struct ExportedName {
    pub symbol: SymbolRef,
    pub alias: String,
}

/// A group of modules that share one reachability fingerprint. The three
/// maps are kept as lists in first-discovery order, so that nothing emitted
/// from them depends on an unordered walk.
#[derive(Debug)]
pub struct Chunk {
    pub entry_module: Option<ModuleId>,
    pub modules: Vec<ModuleId>,
    pub name: Option<String>,
    pub file_name: Option<String>,
    pub canonical_names: Vec<CanonicalName>,
    pub bits: BitSet,
    pub imports_from_other_chunks: Vec<ChunkImports>,
    /// Meaningless for an entry chunk that nothing imports from.
    pub exports_to_other_chunks: Vec<ExportedName>,
}

/// `text` with every occurrence of `pattern` replaced by `with`, found from
/// left to right without overlap.
pub open spec fn replaced(text: Seq<char>, pattern: Seq<char>, with: Seq<char>) -> Seq<char>
    decreases text.len(),
{
    if pattern.len() == 0 || text.len() < pattern.len() {
        text
    } else if text.subrange(0, pattern.len() as int) == pattern {
        with + replaced(text.subrange(pattern.len() as int, text.len() as int), pattern, with)
    } else {
        seq![text[0]] + replaced(text.subrange(1, text.len() as int), pattern, with)
    }
}

/// `str::replace` of std: a new string in which all matches of the pattern
/// are replaced; matches are found from the left and do not overlap.
#[verifier::external_body]
fn replace_all(text: &str, pattern: &str, with: &str) -> (out: String)
    requires
        pattern@.len() > 0,
    ensures
        out@ == replaced(text@, pattern@, with@),
{
    text.replace(pattern, with)
}

/// A file-name template, in which `[name]` stands for the chunk's name.
#[derive(Debug, Clone)]
pub struct FileNameTemplate {
    pub template: String,
}

/// The placeholder for the chunk's logical name.
pub open spec fn name_placeholder() -> Seq<char> {
    "[name]"@
}

impl FileNameTemplate {
    /// The file name the template gives for a chunk's logical name: the
    /// template itself for a chunk without one.
    pub open spec fn spec_render(&self, name: Option<String>) -> Seq<char> {
        match name {
            Some(n) => replaced(self.template@, name_placeholder(), n@),
            None => self.template@,
        }
    }

    pub fn render(&self, name: &Option<String>) -> (out: String)
        ensures
            out@ == self.spec_render(*name),
    {
        match name {
            Some(n) => {
                proof {
                    reveal_strlit("[name]");
                }
                replace_all(self.template.as_str(), "[name]", n.as_str())
            },
            None => self.template.clone(),
        }
    }
}

impl Chunk {
    /// A chunk with its members and fingerprint, and nothing linked yet.
    pub fn new(
        name: Option<String>,
        entry_module: Option<ModuleId>,
        bits: BitSet,
        modules: Vec<ModuleId>,
    ) -> (r: Self)
        ensures
            r.name == name,
            r.entry_module == entry_module,
            r.bits == bits,
            r.modules == modules,
            r.file_name is None,
            r.canonical_names@.len() == 0,
            r.imports_from_other_chunks@.len() == 0,
            r.exports_to_other_chunks@.len() == 0,
    {
        Chunk {
            entry_module,
            modules,
            name,
            file_name: None,
            canonical_names: Vec::new(),
            bits,
            imports_from_other_chunks: Vec::new(),
            exports_to_other_chunks: Vec::new(),
        }
    }

    /// Sets the chunk's file name from the template and the chunk's own
    /// logical name; nothing else changes.
    pub fn render_file_name(&mut self, template: &FileNameTemplate)
        ensures
            final(self).file_name is Some,
            final(self).file_name.unwrap()@ == template.spec_render(old(self).name),
            final(self).name == old(self).name,
            final(self).entry_module == old(self).entry_module,
            final(self).modules == old(self).modules,
            final(self).canonical_names == old(self).canonical_names,
            final(self).bits == old(self).bits,
            final(self).imports_from_other_chunks == old(self).imports_from_other_chunks,
            final(self).exports_to_other_chunks == old(self).exports_to_other_chunks,
    {
        let file_name = template.render(&self.name);
        self.file_name = Some(file_name);
    }
}

} // verus!
