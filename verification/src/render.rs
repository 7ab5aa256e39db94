use vstd::prelude::*;
use vstd::string::*;
use rustc_hash::{FxBuildHasher, FxHashMap};
use crate::glue::{
    exports_text, imports_text, render_chunk_exports, render_chunk_imports, ImportStatement,
    NamePair, OutputFormat,
};
use crate::sourcemap::{
    any_map, count_lines, plain_piece, plain_pieces, push_plain_pieces, relativize_sources, stitch,
    stitch_fits, stitched_sources, stitched_tokens, MapPiece, SourceMap,
};
use crate::text::{concat_with, joined, lemma_texts_push, push_piece, texts};

verus! {

/// What a module exposes, as decided when it was parsed.
#[derive(Debug, PartialEq, Eq, Clone, Copy, Structural)]
pub enum ExportsKind {
    Esm,
    CommonJs,
    Neither,
}

/// The interop wrapping that linking chose for a module.
#[derive(Debug, PartialEq, Eq, Clone, Copy, Structural)]
pub enum WrapKind {
    Plain,
    Cjs,
    Esm,
}

/// What the strict-mode decision reads of one member module.
#[derive(Debug, Clone, Copy)]
pub struct ModuleFacts {
    pub exports_kind: ExportsKind,
    pub contains_use_strict: bool,
}

/// What the wrapper stage reads of the entry module of an entry chunk: its
/// wrap kind and the canonical name of its generated initializer, if any.
#[derive(Debug, Clone)]
pub struct EntryFacts {
    pub wrap_kind: WrapKind,
    pub wrapper_name: Option<String>,
}

/// The name-mapping record of one rendered module, kept for introspection.
#[derive(Debug, Clone)]
pub struct RenderedModule {
    pub code: Option<String>,
}

/// What rendering one member module produced.
#[derive(Debug, Clone)]
pub struct ModuleRenderOutput {
    pub path: String,
    pub pretty_path: String,
    pub rendered_module: RenderedModule,
    pub rendered_content: String,
    pub sourcemap: Option<SourceMap>,
    pub lines_count: u32,
}

/// The format-agnostic summary of a chunk that the banner and footer hooks
/// are given.
#[derive(Debug, Clone)]
pub struct RenderedChunk {
    pub file_name: String,
    pub is_entry: bool,
    pub modules: FxHashMap<String, RenderedModule>,
}

/// Paths of synthetic modules start with a NUL character.
pub open spec fn is_virtual_path(path: Seq<char>) -> bool {
    path.len() > 0 && path[0] == '\0'
}

/// What the record of a module holds, as plain values.
pub open spec fn record_view(module: RenderedModule) -> Option<Seq<char>> {
    match module.code {
        Some(c) => Some(c@),
        None => None,
    }
}

/// The summary of the fragments: the record of each fragment that is
/// present and whose module path is not synthetic, under its module path.
pub open spec fn summary_map(frags: Seq<Option<ModuleRenderOutput>>) -> Map<Seq<char>, Option<Seq<char>>>
    decreases frags.len(),
{
    if frags.len() == 0 {
        Map::empty()
    } else {
        let head = summary_map(frags.drop_last());
        match frags.last() {
            Some(f) => if is_virtual_path(f.path@) {
                head
            } else {
                head.insert(f.path@, record_view(f.rendered_module))
            },
            None => head,
        }
    }
}

/// The entries of a map that holds nothing.
pub open spec fn no_entries() -> Map<Seq<char>, Option<Seq<char>>> {
    Map::empty()
}

/// `rustc_hash::FxBuildHasher`, the hasher of the summary's module map.
#[verifier::external_type_specification]
#[verifier::external_body]
pub struct ExFxBuildHasher(FxBuildHasher);

/// What a module map holds: for each module path, what its record holds.
pub uninterp spec fn module_map_entries(map: FxHashMap<String, RenderedModule>) -> Map<Seq<char>, Option<Seq<char>>>;

/// `FxHashMap::default`: a map that holds nothing.
#[verifier::external_body]
fn new_module_map() -> (modules: FxHashMap<String, RenderedModule>)
    ensures
        module_map_entries(modules) == no_entries(),
{
    FxHashMap::default()
}

/// `HashMap::insert` on a map with the Fx hasher: afterwards the key maps
/// to the value, whether or not it was present, and every other key is as
/// before.
#[verifier::external_body]
fn module_map_insert(map: &mut FxHashMap<String, RenderedModule>, key: String, value: RenderedModule)
    ensures
        module_map_entries(*final(map)) == module_map_entries(*old(map)).insert(
            key@,
            record_view(value),
        ),
{
    map.insert(key, value);
}

fn starts_with_nul(path: &String) -> (r: bool)
    ensures
        r == is_virtual_path(path@),
{
    let s = path.as_str();
    s.unicode_len() > 0 && s.get_char(0) == '\0'
}

fn copy_rendered_module(m: &RenderedModule) -> (r: RenderedModule)
    ensures
        r == *m,
{
    match &m.code {
        Some(c) => RenderedModule { code: Some(c.clone()) },
        None => RenderedModule { code: None },
    }
}

/// Builds the summary of a chunk from its rendered fragments.
pub fn generate_rendered_chunk(
    file_name: &String,
    is_entry: bool,
    fragments: &Vec<Option<ModuleRenderOutput>>,
) -> (r: RenderedChunk)
    ensures
        r.file_name@ == file_name@,
        r.is_entry == is_entry,
        module_map_entries(r.modules) == summary_map(fragments@),
{
    let mut modules = new_module_map();
    let mut i: usize = 0;
    while i < fragments.len()
        invariant
            i <= fragments.len(),
            module_map_entries(modules) == summary_map(fragments@.take(i as int)),
        decreases fragments.len() - i,
    {
        proof {
            assert(fragments@.take(i + 1).drop_last() =~= fragments@.take(i as int));
        }
        match &fragments[i] {
            Some(f) => {
                if !starts_with_nul(&f.path) {
                    module_map_insert(
                        &mut modules,
                        f.path.clone(),
                        copy_rendered_module(&f.rendered_module),
                    );
                }
            },
            None => {},
        }
        i += 1;
    }
    proof {
        assert(fragments@.take(fragments.len() as int) =~= fragments@);
    }
    RenderedChunk { file_name: file_name.clone(), is_entry, modules }
}

/// Everything the code of one chunk is assembled from. `fragments` and
/// `modules` follow the chunk's static module order.
#[derive(Debug, Clone)]
pub struct ChunkRenderInput {
    pub format: OutputFormat,
    pub imports: Vec<ImportStatement>,
    pub fragments: Vec<Option<ModuleRenderOutput>>,
    pub modules: Vec<ModuleFacts>,
    pub entry: Option<EntryFacts>,
    pub exports: Vec<NamePair>,
    pub banner: Option<String>,
    pub footer: Option<String>,
}

/// A module counts as strict when it is of ES-module export kind or its text
/// already carries the directive.
pub open spec fn module_is_strict(m: ModuleFacts) -> bool {
    m.exports_kind == ExportsKind::Esm || m.contains_use_strict
}

pub open spec fn all_strict(modules: Seq<ModuleFacts>) -> bool {
    forall|i: int| 0 <= i < modules.len() ==> module_is_strict(#[trigger] modules[i])
}

/// The strict-mode directive, as it is emitted.
pub open spec fn strict_directive() -> Seq<char> {
    "\"use strict\";\n"@
}

/// The two pieces of each fragment that is present: a comment that names the
/// module, then its rendered text.
pub open spec fn fragment_pieces(frags: Seq<Option<ModuleRenderOutput>>) -> Seq<Seq<char>>
    decreases frags.len(),
{
    if frags.len() == 0 {
        Seq::empty()
    } else {
        let head = fragment_pieces(frags.drop_last());
        match frags.last() {
            Some(f) => head.push("// "@ + f.pretty_path@).push(f.rendered_content@),
            None => head,
        }
    }
}

/// What stitching reads of the two pieces of each fragment that is present:
/// the comment has no map; the rendered text has the fragment's map and line
/// count, or counts as plain text where the fragment has no map.
pub open spec fn fragment_map_pieces<'a>(frags: Seq<Option<ModuleRenderOutput>>) -> Seq<MapPiece<'a>>
    decreases frags.len(),
{
    if frags.len() == 0 {
        Seq::empty()
    } else {
        let head = fragment_map_pieces(frags.drop_last());
        match frags.last() {
            Some(f) => head.push(plain_piece("// "@ + f.pretty_path@)).push(
                match f.sourcemap {
                    Some(m) => (MapPiece { lines: f.lines_count, map: Some(&m) }),
                    None => plain_piece(f.rendered_content@),
                },
            ),
            None => head,
        }
    }
}

/// A hook's text counts only where it is not empty.
pub open spec fn hook_pieces(text: Option<String>) -> Seq<Seq<char>> {
    match text {
        Some(t) => if t@.len() == 0 {
            Seq::empty()
        } else {
            seq![t@]
        },
        None => Seq::empty(),
    }
}

pub open spec fn option_pieces(text: Option<Seq<char>>) -> Seq<Seq<char>> {
    match text {
        Some(t) => seq![t],
        None => Seq::empty(),
    }
}

impl ChunkRenderInput {
    /// The wrap kind that the wrapper stage acts on: that of the entry of an
    /// entry chunk under ES-module output, and none otherwise.
    pub open spec fn effective_wrap(&self) -> WrapKind {
        match self.entry {
            Some(e) => if self.format == OutputFormat::Esm {
                e.wrap_kind
            } else {
                WrapKind::Plain
            },
            None => WrapKind::Plain,
        }
    }

    /// The wrapper stage needs an initializer that linking did not supply.
    pub open spec fn wrap_target_missing(&self) -> bool {
        self.effective_wrap() != WrapKind::Plain && self.entry.unwrap().wrapper_name.is_none()
    }

    /// The line the wrapper stage appends, if any.
    pub open spec fn wrap_text(&self) -> Option<Seq<char>> {
        match self.effective_wrap() {
            WrapKind::Plain => None,
            WrapKind::Esm => Some(self.entry.unwrap().wrapper_name.unwrap()@ + "();"@),
            WrapKind::Cjs => Some(
                "export default "@ + self.entry.unwrap().wrapper_name.unwrap()@ + "();"@,
            ),
        }
    }

    /// Whether the strict-mode directive is due.
    pub open spec fn strict_due(&self) -> bool {
        self.format == OutputFormat::Cjs && all_strict(self.modules@)
    }

    /// What stands before all generated code: the banner, then the
    /// strict-mode directive.
    pub open spec fn prepend_pieces(&self) -> Seq<Seq<char>> {
        hook_pieces(self.banner) + if self.strict_due() {
            seq![strict_directive()]
        } else {
            Seq::empty()
        }
    }

    /// The import preamble; none for a self-executing application.
    pub open spec fn preamble_pieces(&self) -> Seq<Seq<char>> {
        if self.format == OutputFormat::App {
            Seq::empty()
        } else {
            seq![imports_text(self.imports@, self.format)]
        }
    }

    /// The generated code in stage order: import preamble, module fragments,
    /// entry wrapper line, export block, footer.
    pub open spec fn body_pieces(&self) -> Seq<Seq<char>> {
        self.preamble_pieces() + fragment_pieces(self.fragments@) + option_pieces(self.wrap_text())
            + option_pieces(exports_text(self.exports@, self.format)) + hook_pieces(self.footer)
    }

    pub open spec fn pieces(&self) -> Seq<Seq<char>> {
        self.prepend_pieces() + self.body_pieces()
    }

    /// The pieces before the module fragments.
    pub open spec fn head_pieces(&self) -> Seq<Seq<char>> {
        self.prepend_pieces() + self.preamble_pieces()
    }

    /// The pieces after the module fragments.
    pub open spec fn tail_pieces(&self) -> Seq<Seq<char>> {
        option_pieces(self.wrap_text()) + option_pieces(exports_text(self.exports@, self.format))
            + hook_pieces(self.footer)
    }

    /// What source-map stitching reads of the pieces: generated glue has no
    /// map, a fragment has the map and the line count it was rendered with.
    pub open spec fn map_pieces<'a>(&self) -> Seq<MapPiece<'a>> {
        plain_pieces(self.head_pieces()) + fragment_map_pieces(self.fragments@) + plain_pieces(
            self.tail_pieces(),
        )
    }

    /// The text of the chunk: all pieces, one line feed between neighbours.
    pub open spec fn code(&self) -> Seq<char> {
        joined(self.pieces(), seq!['\n'])
    }
}

/// Whether every member module is strict.
pub fn are_modules_all_strict(modules: &Vec<ModuleFacts>) -> (r: bool)
    ensures
        r == all_strict(modules@),
{
    let mut i: usize = 0;
    while i < modules.len()
        invariant
            i <= modules.len(),
            forall|j: int| 0 <= j < i ==> module_is_strict(#[trigger] modules@[j]),
        decreases modules.len() - i,
    {
        let is_esm = modules[i].exports_kind == ExportsKind::Esm;
        if !is_esm && !modules[i].contains_use_strict {
            return false;
        }
        i += 1;
    }
    true
}

fn push_hook(pieces: &mut Vec<String>, text: &Option<String>)
    ensures
        texts(final(pieces)@) == texts(old(pieces)@) + hook_pieces(*text),
{
    match text {
        Some(t) => {
            if !t.as_str().is_empty() {
                push_piece(pieces, t.clone());
                assert(texts(old(pieces)@).push(t@) =~= texts(old(pieces)@) + seq![t@]);
            } else {
                assert(texts(pieces@) =~= texts(old(pieces)@) + Seq::<Seq<char>>::empty());
            }
        },
        None => {
            assert(texts(pieces@) =~= texts(old(pieces)@) + Seq::<Seq<char>>::empty());
        },
    }
}

fn push_fragments(pieces: &mut Vec<String>, fragments: &Vec<Option<ModuleRenderOutput>>)
    ensures
        texts(final(pieces)@) == texts(old(pieces)@) + fragment_pieces(fragments@),
{
    let mut i: usize = 0;
    assert(texts(pieces@) =~= texts(old(pieces)@) + fragment_pieces(fragments@.take(0)));
    while i < fragments.len()
        invariant
            i <= fragments.len(),
            texts(pieces@) == texts(old(pieces)@) + fragment_pieces(fragments@.take(i as int)),
        decreases fragments.len() - i,
    {
        proof {
            assert(fragments@.take(i + 1).drop_last() =~= fragments@.take(i as int));
        }
        match &fragments[i] {
            Some(f) => {
                let mut comment = String::from_str("// ");
                comment.append(f.pretty_path.as_str());
                push_piece(pieces, comment);
                push_piece(pieces, f.rendered_content.clone());
                assert(texts(pieces@) =~= texts(old(pieces)@) + fragment_pieces(
                    fragments@.take(i + 1),
                ));
            },
            None => {},
        }
        i += 1;
    }
    proof {
        assert(fragments@.take(fragments.len() as int) =~= fragments@);
    }
}

/// The line of the wrapper stage, or the fact that its initializer is
/// missing.
pub fn render_entry_wrap(input: &ChunkRenderInput) -> (r: Result<Option<String>, RenderError>)
    ensures
        input.wrap_target_missing() <==> r is Err,
        r is Err ==> r == Err::<Option<String>, RenderError>(RenderError::MissingWrapTarget),
        r is Ok ==> (r.unwrap() is Some) == (input.wrap_text() is Some),
        r is Ok && r.unwrap() is Some ==> r.unwrap().unwrap()@ == input.wrap_text().unwrap(),
{
    match &input.entry {
        Some(e) => {
            if input.format == OutputFormat::Esm {
                match e.wrap_kind {
                    WrapKind::Plain => Ok(None),
                    WrapKind::Esm => match &e.wrapper_name {
                        Some(name) => {
                            let mut s = name.clone();
                            s.append("();");
                            Ok(Some(s))
                        },
                        None => Err(RenderError::MissingWrapTarget),
                    },
                    WrapKind::Cjs => match &e.wrapper_name {
                        Some(name) => {
                            let mut s = String::from_str("export default ");
                            s.append(name.as_str());
                            s.append("();");
                            Ok(Some(s))
                        },
                        None => Err(RenderError::MissingWrapTarget),
                    },
                }
            } else {
                Ok(None)
            }
        },
        None => Ok(None),
    }
}

/// A broken upstream invariant that aborts the build of a chunk.
#[derive(Debug, PartialEq, Eq, Clone, Copy, Structural)]
pub enum RenderError {
    /// The entry is wrapped but linking supplied no initializer.
    MissingWrapTarget,
    /// The chunk has no preliminary file name.
    MissingPreliminaryFilename,
    /// The resolved file path of the chunk has no parent directory.
    MissingParentDirectory,
    /// A mapped source path could not be made relative.
    UnresolvedSourcePath,
    /// The composite source map would need a line or source index beyond
    /// what its fields hold.
    SourceMapOverflow,
}

impl RenderError {
    pub open spec fn spec_message(self) -> Seq<char> {
        match self {
            RenderError::MissingWrapTarget => "entry wrapper should be generated before rendering"@,
            RenderError::MissingPreliminaryFilename => "chunk file name should be generated before rendering"@,
            RenderError::MissingParentDirectory => "chunk file name should have a parent"@,
            RenderError::UnresolvedSourcePath => "mapped source path should resolve against the chunk directory"@,
            RenderError::SourceMapOverflow => "composite source map should fit its index range"@,
        }
    }

    /// The diagnostic that names the violated invariant.
    pub fn message(&self) -> (r: String)
        ensures
            r@ == self.spec_message(),
    {
        match self {
            RenderError::MissingWrapTarget => String::from_str(
                "entry wrapper should be generated before rendering",
            ),
            RenderError::MissingPreliminaryFilename => String::from_str(
                "chunk file name should be generated before rendering",
            ),
            RenderError::MissingParentDirectory => String::from_str(
                "chunk file name should have a parent",
            ),
            RenderError::UnresolvedSourcePath => String::from_str(
                "mapped source path should resolve against the chunk directory",
            ),
            RenderError::SourceMapOverflow => String::from_str(
                "composite source map should fit its index range",
            ),
        }
    }
}

fn render_head(input: &ChunkRenderInput) -> (pieces: Vec<String>)
    ensures
        texts(pieces@) == input.head_pieces(),
{
    let mut pieces: Vec<String> = Vec::new();
    assert(texts(pieces@) =~= Seq::<Seq<char>>::empty());
    push_hook(&mut pieces, &input.banner);
    if input.format == OutputFormat::Cjs && are_modules_all_strict(&input.modules) {
        push_piece(&mut pieces, String::from_str("\"use strict\";\n"));
    }
    assert(texts(pieces@) =~= input.prepend_pieces());
    if input.format != OutputFormat::App {
        push_piece(&mut pieces, render_chunk_imports(&input.imports, input.format));
    }
    assert(texts(pieces@) =~= input.head_pieces());
    pieces
}

fn render_tail(input: &ChunkRenderInput) -> (r: Result<Vec<String>, RenderError>)
    ensures
        input.wrap_target_missing() <==> r is Err,
        r is Err ==> r.unwrap_err() == RenderError::MissingWrapTarget,
        r is Ok ==> texts(r.unwrap()@) == input.tail_pieces(),
{
    let wrap = match render_entry_wrap(input) {
        Ok(w) => w,
        Err(e) => {
            return Err(e);
        },
    };
    let mut pieces: Vec<String> = Vec::new();
    assert(texts(pieces@) =~= Seq::<Seq<char>>::empty());
    match wrap {
        Some(w) => {
            push_piece(&mut pieces, w);
        },
        None => {},
    }
    assert(texts(pieces@) =~= option_pieces(input.wrap_text()));
    match render_chunk_exports(&input.exports, input.format) {
        Some(e) => {
            push_piece(&mut pieces, e);
        },
        None => {},
    }
    assert(texts(pieces@) =~= option_pieces(input.wrap_text()) + option_pieces(
        exports_text(input.exports@, input.format),
    ));
    push_hook(&mut pieces, &input.footer);
    assert(texts(pieces@) =~= input.tail_pieces());
    Ok(pieces)
}

fn append_pieces(dst: &mut Vec<String>, src: &Vec<String>)
    ensures
        texts(final(dst)@) == texts(old(dst)@) + texts(src@),
{
    let mut i: usize = 0;
    assert(texts(dst@) =~= texts(old(dst)@) + texts(src@.take(0)));
    while i < src.len()
        invariant
            i <= src@.len(),
            texts(dst@) == texts(old(dst)@) + texts(src@.take(i as int)),
        decreases src.len() - i,
    {
        proof {
            assert(src@.take(i + 1) =~= src@.take(i as int).push(src@[i as int]));
            lemma_texts_push(src@.take(i as int), src@[i as int]);
        }
        push_piece(dst, src[i].clone());
        assert(texts(dst@) =~= texts(old(dst)@) + texts(src@.take(i + 1)));
        i += 1;
    }
    proof {
        assert(src@.take(src@.len() as int) =~= src@);
    }
}

fn push_fragment_maps<'a>(dst: &mut Vec<MapPiece<'a>>, fragments: &'a Vec<Option<ModuleRenderOutput>>)
    ensures
        final(dst)@ == old(dst)@ + fragment_map_pieces(fragments@),
{
    let mut i: usize = 0;
    assert(dst@ =~= old(dst)@ + fragment_map_pieces(fragments@.take(0)));
    while i < fragments.len()
        invariant
            i <= fragments@.len(),
            dst@ == old(dst)@ + fragment_map_pieces(fragments@.take(i as int)),
        decreases fragments.len() - i,
    {
        proof {
            assert(fragments@.take(i + 1).drop_last() =~= fragments@.take(i as int));
        }
        match &fragments[i] {
            Some(f) => {
                let mut comment = String::from_str("// ");
                comment.append(f.pretty_path.as_str());
                dst.push(MapPiece { lines: count_lines(comment.as_str()), map: None });
                let content = match &f.sourcemap {
                    Some(m) => MapPiece { lines: f.lines_count, map: Some(m) },
                    None => MapPiece { lines: count_lines(f.rendered_content.as_str()), map: None },
                };
                dst.push(content);
                assert(dst@ =~= old(dst)@ + fragment_map_pieces(fragments@.take(i + 1)));
            },
            None => {},
        }
        i += 1;
    }
    proof {
        assert(fragments@.take(fragments@.len() as int) =~= fragments@);
    }
}

/// The text and the source map of a chunk, before the paths of the map are
/// rewritten.
#[derive(Debug)]
pub struct Assembled {
    pub code: String,
    pub map: Option<SourceMap>,
}

/// Assembles a chunk: every stage's piece in stage order, the banner and
/// the strict-mode directive before all of them, one line feed between
/// neighbouring pieces, and the source maps of the fragments stitched into
/// one.
pub fn assemble(input: &ChunkRenderInput) -> (r: Result<Assembled, RenderError>)
    ensures
        input.wrap_target_missing() <==> r is Err && r.unwrap_err()
            == RenderError::MissingWrapTarget,
        !input.wrap_target_missing() && !stitch_fits(input.map_pieces()) <==> r is Err
            && r.unwrap_err() == RenderError::SourceMapOverflow,
        r is Err ==> r.unwrap_err() == RenderError::MissingWrapTarget || r.unwrap_err()
            == RenderError::SourceMapOverflow,
        r is Ok ==> {
            &&& r.unwrap().code@ == input.code()
            &&& (r.unwrap().map is Some) == any_map(input.map_pieces())
            &&& r.unwrap().map is Some ==> {
                &&& texts(r.unwrap().map.unwrap().sources@) == stitched_sources(input.map_pieces())
                &&& r.unwrap().map.unwrap().tokens@ == stitched_tokens(input.map_pieces())
            }
        },
{
    let head = render_head(input);
    let tail = match render_tail(input) {
        Ok(t) => t,
        Err(e) => {
            return Err(e);
        },
    };
    let mut pieces: Vec<String> = Vec::new();
    assert(texts(pieces@) =~= Seq::<Seq<char>>::empty());
    append_pieces(&mut pieces, &head);
    push_fragments(&mut pieces, &input.fragments);
    append_pieces(&mut pieces, &tail);
    assert(texts(pieces@) =~= input.pieces());
    proof {
        reveal_strlit("\n");
        assert("\n"@ =~= seq!['\n']);
    }
    let code = concat_with(&pieces, "\n");
    let mut map_pieces: Vec<MapPiece> = Vec::new();
    push_plain_pieces(&mut map_pieces, &head);
    push_fragment_maps(&mut map_pieces, &input.fragments);
    push_plain_pieces(&mut map_pieces, &tail);
    assert(map_pieces@ =~= input.map_pieces());
    match stitch(&map_pieces) {
        Some(map) => Ok(Assembled { code, map }),
        None => Err(RenderError::SourceMapOverflow),
    }
}

/// Assembles the text of a chunk alone.
pub fn assemble_code(input: &ChunkRenderInput) -> (r: Result<String, RenderError>)
    ensures
        input.wrap_target_missing() <==> r is Err,
        r is Err ==> r.unwrap_err() == RenderError::MissingWrapTarget,
        r is Ok ==> r.unwrap()@ == input.code(),
{
    let head = render_head(input);
    let tail = match render_tail(input) {
        Ok(t) => t,
        Err(e) => {
            return Err(e);
        },
    };
    let mut pieces: Vec<String> = Vec::new();
    assert(texts(pieces@) =~= Seq::<Seq<char>>::empty());
    append_pieces(&mut pieces, &head);
    push_fragments(&mut pieces, &input.fragments);
    append_pieces(&mut pieces, &tail);
    assert(texts(pieces@) =~= input.pieces());
    proof {
        reveal_strlit("\n");
        assert("\n"@ =~= seq!['\n']);
    }
    Ok(concat_with(&pieces, "\n"))
}

/// What rendering one chunk hands back.
#[derive(Debug)]
pub struct ChunkRenderReturn {
    pub code: String,
    pub map: Option<SourceMap>,
    pub rendered_chunk: RenderedChunk,
    pub augment_chunk_hash: Option<String>,
    pub file_dir: String,
    pub preliminary_filename: String,
}

/// `std::path::Path::join`: the path `rest` resolved against `base`. How the
/// two are put together depends on the platform, so nothing is claimed of
/// the result.
#[verifier::external_body]
fn path_join(base: &str, rest: &str) -> (out: String) {
    std::path::Path::new(base).join(rest).to_string_lossy().into_owned()
}

/// `std::path::Path::parent`: the path without its last component, if it has
/// one. What counts as a component depends on the platform, so nothing is
/// claimed of the result.
#[verifier::external_body]
fn path_parent(path: &str) -> (out: Option<String>) {
    match std::path::Path::new(path).parent() {
        Some(p) => Some(p.to_string_lossy().into_owned()),
        None => None,
    }
}

/// The directory of the chunk's file, or the fact that its path has no
/// parent.
pub fn require_file_dir(file_dir: Option<String>) -> (r: Result<String, RenderError>)
    ensures
        r is Err <==> file_dir is None,
        r is Err ==> r.unwrap_err() == RenderError::MissingParentDirectory,
        r is Ok ==> r.unwrap() == file_dir.unwrap(),
{
    match file_dir {
        Some(dir) => Ok(dir),
        None => Err(RenderError::MissingParentDirectory),
    }
}

/// Puts the result of a render together once the directory of the chunk's
/// file is known and the source paths of its map, if it has one, were made
/// relative to that directory; a path that could not be made relative is
/// fatal.
pub fn finish_chunk(
    code: String,
    map: Option<Option<SourceMap>>,
    rendered_chunk: RenderedChunk,
    preliminary_filename: String,
    file_dir: String,
) -> (r: Result<ChunkRenderReturn, RenderError>)
    ensures
        r is Err <==> map is None,
        r is Err ==> r.unwrap_err() == RenderError::UnresolvedSourcePath,
        r is Ok ==> r.unwrap() == (ChunkRenderReturn {
            code,
            map: map.unwrap(),
            rendered_chunk,
            augment_chunk_hash: None,
            file_dir,
            preliminary_filename,
        }),
{
    match map {
        Some(m) => Ok(
            ChunkRenderReturn {
                code,
                map: m,
                rendered_chunk,
                augment_chunk_hash: None,
                file_dir,
                preliminary_filename,
            },
        ),
        None => Err(RenderError::UnresolvedSourcePath),
    }
}

/// Renders one chunk. The text is `input.code()`; the source map is the
/// stitched map of the fragments, its source paths rewritten relative to the
/// chunk's directory. The file of the chunk is `preliminary_filename` under
/// `dir` under `cwd`, and its parent is the chunk's directory. A wrapped
/// entry without an initializer, a source map that outgrows its fields, a
/// missing file name, a file path without a parent and a source path that
/// cannot be made relative are fatal, in that order.
pub fn render_chunk(
    input: &ChunkRenderInput,
    cwd: &str,
    dir: &str,
    preliminary_filename: &Option<String>,
) -> (r: Result<ChunkRenderReturn, RenderError>)
    ensures
        input.wrap_target_missing() <==> r is Err && r.unwrap_err()
            == RenderError::MissingWrapTarget,
        !input.wrap_target_missing() && !stitch_fits(input.map_pieces()) <==> r is Err
            && r.unwrap_err() == RenderError::SourceMapOverflow,
        !input.wrap_target_missing() && stitch_fits(input.map_pieces()) && preliminary_filename
            is None <==> r is Err && r.unwrap_err() == RenderError::MissingPreliminaryFilename,
        r is Err && r.unwrap_err() == RenderError::UnresolvedSourcePath ==> any_map(
            input.map_pieces(),
        ),
        r is Ok ==> {
            &&& r.unwrap().code@ == input.code()
            &&& r.unwrap().preliminary_filename@ == preliminary_filename.unwrap()@
            &&& r.unwrap().rendered_chunk.file_name@ == preliminary_filename.unwrap()@
            &&& r.unwrap().augment_chunk_hash is None
            &&& r.unwrap().rendered_chunk.is_entry == (input.entry is Some)
            &&& module_map_entries(r.unwrap().rendered_chunk.modules) == summary_map(input.fragments@)
            &&& (r.unwrap().map is Some) == any_map(input.map_pieces())
            &&& r.unwrap().map is Some ==> {
                &&& r.unwrap().map.unwrap().tokens@ == stitched_tokens(input.map_pieces())
                &&& r.unwrap().map.unwrap().sources@.len() == stitched_sources(
                    input.map_pieces(),
                ).len()
            }
        },
{
    let assembled = match assemble(input) {
        Ok(a) => a,
        Err(e) => {
            return Err(e);
        },
    };
    let file_name = match preliminary_filename {
        Some(n) => n.clone(),
        None => {
            return Err(RenderError::MissingPreliminaryFilename);
        },
    };
    let summary = generate_rendered_chunk(&file_name, input.entry.is_some(), &input.fragments);
    let out_dir = path_join(cwd, dir);
    let file_path = path_join(out_dir.as_str(), file_name.as_str());
    let file_dir = match require_file_dir(path_parent(file_path.as_str())) {
        Ok(d) => d,
        Err(e) => {
            return Err(e);
        },
    };
    let map = match assembled.map {
        Some(m) => match relativize_sources(m, file_dir.as_str()) {
            Some(rewritten) => Some(Some(rewritten)),
            None => None,
        },
        None => Some(None),
    };
    finish_chunk(assembled.code, map, summary, file_name, file_dir)
}

} // verus!
