use vstd::prelude::*;
use vstd::string::*;
use sugar_path::SugarPath;
use crate::text::{lemma_texts_push, texts};

verus! {

/// One mapping of a source map: a position in the generated text and the
/// position in the source it came from.
#[derive(Debug, Clone, Copy, PartialEq, Eq, Structural)]
pub struct Token {
    pub dst_line: u32,
    pub dst_col: u32,
    pub src_line: u32,
    pub src_col: u32,
    pub source_id: u32,
}

/// A source map as plain values: the source paths and the mappings, each of
/// which names a source by its index.
#[derive(Debug, Clone)]
pub struct SourceMap {
    pub sources: Vec<String>,
    pub tokens: Vec<Token>,
}

/// What stitching reads of one piece of the output: how many line feeds the
/// piece holds, and its own source map if it has one.
#[derive(Debug)]
pub struct MapPiece<'a> {
    pub lines: u32,
    pub map: Option<&'a SourceMap>,
}

/// How many of the bytes are line feeds.
pub open spec fn line_feeds(bytes: Seq<u8>) -> nat
    decreases bytes.len(),
{
    if bytes.len() == 0 {
        0
    } else {
        line_feeds(bytes.drop_last()) + if bytes.last() == 10u8 {
            1nat
        } else {
            0nat
        }
    }
}

/// The line feeds of a text in its UTF-8 form, counted up to `u32::MAX`.
pub open spec fn text_lines(text: Seq<char>) -> u32 {
    let n = line_feeds(vstd::utf8::encode_utf8(text));
    if n > u32::MAX {
        u32::MAX
    } else {
        n as u32
    }
}

/// Counts the line feeds of a text.
pub fn count_lines(text: &str) -> (r: u32)
    ensures
        r == text_lines(text@),
{
    let bytes = text.as_bytes();
    let mut n: u32 = 0;
    let mut i: usize = 0;
    while i < bytes.len()
        invariant
            i <= bytes@.len(),
            bytes@ == vstd::utf8::encode_utf8(text@),
            n as nat == if line_feeds(bytes@.take(i as int)) > u32::MAX {
                u32::MAX as nat
            } else {
                line_feeds(bytes@.take(i as int))
            },
        decreases bytes.len() - i,
    {
        proof {
            assert(bytes@.take(i + 1).drop_last() =~= bytes@.take(i as int));
        }
        if bytes[i] == 10u8 && n < u32::MAX {
            n += 1;
        }
        i += 1;
    }
    proof {
        assert(bytes@.take(bytes@.len() as int) =~= bytes@);
    }
    n
}

/// A piece of generated text that has no source map of its own.
pub open spec fn plain_piece<'a>(text: Seq<char>) -> MapPiece<'a> {
    MapPiece { lines: text_lines(text), map: None }
}

pub open spec fn plain_pieces<'a>(pieces: Seq<Seq<char>>) -> Seq<MapPiece<'a>> {
    pieces.map_values(|t: Seq<char>| plain_piece(t))
}

/// Appends one plain piece for each of the texts.
pub fn push_plain_pieces<'a>(dst: &mut Vec<MapPiece<'a>>, src: &Vec<String>)
    ensures
        final(dst)@ == old(dst)@ + plain_pieces(texts(src@)),
{
    let mut i: usize = 0;
    assert(dst@ =~= old(dst)@ + plain_pieces(texts(src@.take(0))));
    while i < src.len()
        invariant
            i <= src@.len(),
            dst@ == old(dst)@ + plain_pieces(texts(src@.take(i as int))),
        decreases src.len() - i,
    {
        let piece = MapPiece { lines: count_lines(src[i].as_str()), map: None };
        proof {
            assert(src@.take(i + 1) =~= src@.take(i as int).push(src@[i as int]));
            lemma_texts_push(src@.take(i as int), src@[i as int]);
            assert(dst@.push(piece) =~= old(dst)@ + plain_pieces(texts(src@.take(i + 1))));
        }
        dst.push(piece);
        i += 1;
    }
    proof {
        assert(src@.take(src@.len() as int) =~= src@);
    }
}

/// The lines that stand before whatever follows the given pieces: each
/// piece's own line feeds and the one that separates it from the next.
pub open spec fn lines_before(pieces: Seq<MapPiece>) -> nat
    decreases pieces.len(),
{
    if pieces.len() == 0 {
        0
    } else {
        lines_before(pieces.drop_last()) + pieces.last().lines as nat + 1
    }
}

pub open spec fn piece_sources(piece: MapPiece) -> Seq<Seq<char>> {
    match piece.map {
        Some(m) => texts(m.sources@),
        None => Seq::empty(),
    }
}

/// The sources of the composite map: those of each piece, in piece order.
pub open spec fn stitched_sources(pieces: Seq<MapPiece>) -> Seq<Seq<char>>
    decreases pieces.len(),
{
    if pieces.len() == 0 {
        Seq::empty()
    } else {
        stitched_sources(pieces.drop_last()) + piece_sources(pieces.last())
    }
}

/// A mapping moved down by `lines` lines, its source counted from `srcs`.
pub open spec fn shifted(t: Token, lines: nat, srcs: nat) -> Token {
    Token {
        dst_line: (t.dst_line + lines) as u32,
        dst_col: t.dst_col,
        src_line: t.src_line,
        src_col: t.src_col,
        source_id: (t.source_id + srcs) as u32,
    }
}

pub open spec fn token_fits(t: Token, lines: nat, srcs: nat) -> bool {
    t.dst_line + lines <= u32::MAX && t.source_id + srcs <= u32::MAX
}

pub open spec fn piece_tokens(piece: MapPiece, lines: nat, srcs: nat) -> Seq<Token> {
    match piece.map {
        Some(m) => m.tokens@.map_values(|t: Token| shifted(t, lines, srcs)),
        None => Seq::empty(),
    }
}

pub open spec fn piece_fits(piece: MapPiece, lines: nat, srcs: nat) -> bool {
    match piece.map {
        Some(m) => forall|i: int|
            0 <= i < m.tokens@.len() ==> token_fits(#[trigger] m.tokens@[i], lines, srcs),
        None => true,
    }
}

/// The mappings of the composite map: those of each piece, in piece order,
/// moved down by the lines before the piece and renumbered after the
/// sources before it.
pub open spec fn stitched_tokens(pieces: Seq<MapPiece>) -> Seq<Token>
    decreases pieces.len(),
{
    if pieces.len() == 0 {
        Seq::empty()
    } else {
        let head = pieces.drop_last();
        stitched_tokens(head) + piece_tokens(
            pieces.last(),
            lines_before(head),
            stitched_sources(head).len(),
        )
    }
}

/// Every moved mapping still fits its fields.
pub open spec fn stitch_fits(pieces: Seq<MapPiece>) -> bool
    decreases pieces.len(),
{
    if pieces.len() == 0 {
        true
    } else {
        let head = pieces.drop_last();
        stitch_fits(head) && piece_fits(
            pieces.last(),
            lines_before(head),
            stitched_sources(head).len(),
        )
    }
}

/// Some piece has a source map.
pub open spec fn any_map(pieces: Seq<MapPiece>) -> bool {
    exists|k: int| 0 <= k < pieces.len() && (#[trigger] pieces[k]).map is Some
}

/// Line offsets are tracked up to this bound; beyond it no mapping fits.
pub const LINE_CAP: u64 = 0x2_0000_0000;

pub open spec fn capped(n: nat) -> u64 {
    if n > LINE_CAP {
        LINE_CAP
    } else {
        n as u64
    }
}

/// Stitches the source maps of the pieces of one output into the map of the
/// whole. There is no map where no piece has one.
#[verifier::loop_isolation(false)]
pub fn stitch(pieces: &Vec<MapPiece>) -> (r: Option<Option<SourceMap>>)
    ensures
        r is Some == stitch_fits(pieces@),
        r is Some ==> (r.unwrap() is Some) == any_map(pieces@),
        r is Some && r.unwrap() is Some ==> {
            &&& texts(r.unwrap().unwrap().sources@) == stitched_sources(pieces@)
            &&& r.unwrap().unwrap().tokens@ == stitched_tokens(pieces@)
        },
{
    let mut sources: Vec<String> = Vec::new();
    let mut tokens: Vec<Token> = Vec::new();
    let mut lines: u64 = 0;
    let mut seen: bool = false;
    let mut i: usize = 0;
    assert(texts(sources@) =~= stitched_sources(pieces@.take(0)));
    assert(tokens@ =~= stitched_tokens(pieces@.take(0)));
    while i < pieces.len()
        invariant
            i <= pieces@.len(),
            stitch_fits(pieces@.take(i as int)),
            texts(sources@) == stitched_sources(pieces@.take(i as int)),
            tokens@ == stitched_tokens(pieces@.take(i as int)),
            lines == capped(lines_before(pieces@.take(i as int))),
            seen == any_map(pieces@.take(i as int)),
        decreases pieces.len() - i,
    {
        let ghost head = pieces@.take(i as int);
        let ghost next = pieces@.take(i + 1);
        let ghost line_off = lines_before(head);
        let ghost src_off = stitched_sources(head).len();
        proof {
            assert(next.drop_last() =~= head);
            assert(next.last() == pieces@[i as int]);
        }
        match pieces[i].map {
            Some(m) => {
                let base: usize = sources.len();
                let mut t: usize = 0;
                let ghost tokens_before = tokens@;
                while t < m.tokens.len()
                    invariant
                        t <= m.tokens@.len(),
                        base == src_off,
                        lines == capped(line_off),
                        tokens@ == tokens_before + m.tokens@.take(t as int).map_values(
                            |x: Token| shifted(x, line_off, src_off),
                        ),
                        forall|j: int|
                            0 <= j < t ==> token_fits(#[trigger] m.tokens@[j], line_off, src_off),
                    decreases m.tokens.len() - t,
                {
                    let tok = m.tokens[t];
                    let line: u64 = tok.dst_line as u64 + lines;
                    if line > u32::MAX as u64 || base > u32::MAX as usize || tok.source_id
                        > u32::MAX - base as u32 {
                        proof {
                            assert(!token_fits(m.tokens@[t as int], line_off, src_off));
                            assert(!piece_fits(pieces@[i as int], line_off, src_off));
                            lemma_stitch_fails_for_good(pieces@, i + 1);
                        }
                        return None;
                    }
                    let moved = Token {
                        dst_line: line as u32,
                        dst_col: tok.dst_col,
                        src_line: tok.src_line,
                        src_col: tok.src_col,
                        source_id: tok.source_id + base as u32,
                    };
                    proof {
                        assert(moved == shifted(tok, line_off, src_off));
                        assert(m.tokens@.take(t + 1).map_values(
                            |x: Token| shifted(x, line_off, src_off),
                        ) =~= m.tokens@.take(t as int).map_values(
                            |x: Token| shifted(x, line_off, src_off),
                        ).push(moved));
                    }
                    tokens.push(moved);
                    t += 1;
                }
                proof {
                    assert(m.tokens@.take(m.tokens@.len() as int) =~= m.tokens@);
                }
                let mut s: usize = 0;
                let ghost sources_before = sources@;
                while s < m.sources.len()
                    invariant
                        s <= m.sources@.len(),
                        texts(sources@) == texts(sources_before) + texts(m.sources@.take(s as int)),
                    decreases m.sources.len() - s,
                {
                    proof {
                        assert(m.sources@.take(s + 1) =~= m.sources@.take(s as int).push(
                            m.sources@[s as int],
                        ));
                        lemma_texts_push(sources@, m.sources@[s as int]);
                        lemma_texts_push(m.sources@.take(s as int), m.sources@[s as int]);
                        assert((texts(sources_before) + texts(m.sources@.take(s as int))).push(
                            m.sources@[s as int]@,
                        ) =~= texts(sources_before) + texts(m.sources@.take(s as int)).push(
                            m.sources@[s as int]@,
                        ));
                    }
                    sources.push(m.sources[s].clone());
                    s += 1;
                }
                proof {
                    assert(m.sources@.take(m.sources@.len() as int) =~= m.sources@);
                    assert(next[i as int].map is Some);
                }
                seen = true;
            },
            None => {
                proof {
                    assert(tokens@ =~= stitched_tokens(next));
                    assert(texts(sources@) =~= stitched_sources(next));
                    if any_map(next) {
                        let k = choose|k: int| 0 <= k < next.len() && (#[trigger] next[k]).map is Some;
                        assert(head[k].map is Some);
                    }
                    if any_map(head) {
                        let k = choose|k: int| 0 <= k < head.len() && (#[trigger] head[k]).map is Some;
                        assert(next[k].map is Some);
                    }
                }
            },
        }
        let grown: u64 = lines + pieces[i].lines as u64 + 1;
        lines = if grown > LINE_CAP {
            LINE_CAP
        } else {
            grown
        };
        i += 1;
    }
    proof {
        assert(pieces@.take(pieces@.len() as int) =~= pieces@);
    }
    if seen {
        Some(Some(SourceMap { sources, tokens }))
    } else {
        Some(None)
    }
}

/// Where the first pieces do not fit, the whole does not.
pub proof fn lemma_stitch_fails_for_good(pieces: Seq<MapPiece>, k: int)
    requires
        0 <= k <= pieces.len(),
        !stitch_fits(pieces.take(k)),
    ensures
        !stitch_fits(pieces),
    decreases pieces.len(),
{
    if k < pieces.len() {
        assert(pieces.drop_last().take(k) =~= pieces.take(k));
        lemma_stitch_fails_for_good(pieces.drop_last(), k);
    } else {
        assert(pieces.take(k) =~= pieces);
    }
}

/// `sugar_path::SugarPath::try_relative` on the two paths: the lexical path
/// from `base` to `source`, or nothing where the crate reports an error. The
/// result depends on the platform and, for relative inputs, on the working
/// directory, so nothing is claimed of it.
#[verifier::external_body]
fn relative_path(source: &str, base: &str) -> (out: Option<String>) {
    match source.try_relative(base) {
        Ok(p) => Some(p.to_string_lossy().into_owned()),
        Err(_) => None,
    }
}

/// The map with its source paths exchanged for the given ones.
pub fn with_sources(map: SourceMap, sources: Vec<String>) -> (r: SourceMap)
    ensures
        r.sources == sources,
        r.tokens == map.tokens,
{
    SourceMap { sources, tokens: map.tokens }
}

/// Every path could be made relative.
pub open spec fn all_resolved(outcomes: Seq<Option<String>>) -> bool {
    forall|i: int| 0 <= i < outcomes.len() ==> (#[trigger] outcomes[i]) is Some
}

/// Puts the rewritten paths into the map, given for each source path what
/// making it relative came to: the map gets the new paths in the order of
/// the old ones and keeps its mappings; one path that could not be made
/// relative leaves no map at all.
pub fn rewrite_sources(map: SourceMap, outcomes: &Vec<Option<String>>) -> (r: Option<SourceMap>)
    ensures
        r is Some == all_resolved(outcomes@),
        r is Some ==> {
            &&& r.unwrap().tokens == map.tokens
            &&& r.unwrap().sources@.len() == outcomes@.len()
            &&& forall|i: int|
                0 <= i < outcomes@.len() ==> (#[trigger] r.unwrap().sources@[i])
                    == outcomes@[i].unwrap()
        },
{
    let mut sources: Vec<String> = Vec::new();
    let mut i: usize = 0;
    while i < outcomes.len()
        invariant
            i <= outcomes@.len(),
            sources@.len() == i,
            forall|j: int| 0 <= j < i ==> (#[trigger] outcomes@[j]) is Some,
            forall|j: int| 0 <= j < i ==> (#[trigger] sources@[j]) == outcomes@[j].unwrap(),
        decreases outcomes.len() - i,
    {
        match &outcomes[i] {
            Some(p) => {
                sources.push(p.clone());
            },
            None => {
                return None;
            },
        }
        i += 1;
    }
    Some(with_sources(map, sources))
}

/// Rewrites every source path of the map to be relative to `file_dir`; the
/// relative form is taken as it comes, without further normalisation. Gives
/// `None` where a path cannot be made relative.
pub fn relativize_sources(map: SourceMap, file_dir: &str) -> (r: Option<SourceMap>)
    ensures
        r is Some ==> r.unwrap().tokens == map.tokens && r.unwrap().sources@.len()
            == map.sources@.len(),
        map.sources@.len() == 0 ==> r is Some,
{
    let mut outcomes: Vec<Option<String>> = Vec::new();
    let mut i: usize = 0;
    while i < map.sources.len()
        invariant
            i <= map.sources@.len(),
            outcomes@.len() == i,
        decreases map.sources.len() - i,
    {
        outcomes.push(relative_path(map.sources[i].as_str(), file_dir));
        i += 1;
    }
    rewrite_sources(map, &outcomes)
}

} // verus!
