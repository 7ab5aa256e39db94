use vstd::prelude::*;
use crate::glue::{exports_text, OutputFormat};
use crate::render::{
    all_strict, fragment_pieces, hook_pieces, module_is_strict, option_pieces, strict_directive,
    ChunkRenderInput, ModuleRenderOutput, WrapKind,
};
use crate::text::joined;

verus! {

/// A joined text begins with its first part.
pub proof fn lemma_joined_starts_with_first(parts: Seq<Seq<char>>, sep: Seq<char>)
    requires
        parts.len() > 0,
    ensures
        parts[0].is_prefix_of(joined(parts, sep)),
    decreases parts.len(),
{
    if parts.len() > 1 {
        lemma_joined_starts_with_first(parts.drop_last(), sep);
        let head = joined(parts.drop_last(), sep);
        assert(parts.drop_last()[0] == parts[0]);
        assert(joined(parts, sep) == head + sep + parts.last());
        assert((head + sep + parts.last()).subrange(0, parts[0].len() as int) =~= head.subrange(
            0,
            parts[0].len() as int,
        ));
    } else {
        assert(joined(parts, sep).subrange(0, parts[0].len() as int) =~= parts[0]);
    }
}

/// Under CommonJS output a chunk with one member that is neither of
/// ES-module export kind nor textually strict gets no strict-mode directive:
/// nothing but the banner stands before the generated code. A CommonJS chunk
/// whose members are all of ES-module export kind gets the directive, right
/// after the banner.
pub proof fn lemma_strict_prologue(input: ChunkRenderInput, sloppy: int)
    requires
        input.format == OutputFormat::Cjs,
    ensures
        0 <= sloppy < input.modules@.len() && !module_is_strict(input.modules@[sloppy])
            ==> input.prepend_pieces() == hook_pieces(input.banner),
        all_strict(input.modules@) ==> input.prepend_pieces() == hook_pieces(input.banner).push(
            strict_directive(),
        ),
        all_strict(input.modules@) && hook_pieces(input.banner).len() == 0
            ==> strict_directive().is_prefix_of(input.code()),
{
    if 0 <= sloppy < input.modules@.len() && !module_is_strict(input.modules@[sloppy]) {
        assert(!all_strict(input.modules@));
        assert(input.prepend_pieces() =~= hook_pieces(input.banner));
    }
    if all_strict(input.modules@) {
        assert(input.prepend_pieces() =~= hook_pieces(input.banner).push(strict_directive()));
        if hook_pieces(input.banner).len() == 0 {
            assert(input.pieces()[0] == strict_directive());
            lemma_joined_starts_with_first(input.pieces(), seq!['\n']);
        }
    }
}

/// No other output format ever gets the strict-mode directive.
pub proof fn lemma_strict_prologue_only_for_cjs(input: ChunkRenderInput)
    requires
        input.format != OutputFormat::Cjs,
    ensures
        input.prepend_pieces() == hook_pieces(input.banner),
{
    assert(input.prepend_pieces() =~= hook_pieces(input.banner));
}

/// Where the entry of an ES-module chunk is CJS-wrapped, the line
/// `export default <name>();` is its own piece: every piece of module code
/// stands before it, and after it come only the export block, if there is
/// one, and the footer.
pub proof fn lemma_cjs_wrap_line(input: ChunkRenderInput)
    requires
        input.format == OutputFormat::Esm,
        input.entry is Some,
        input.entry.unwrap().wrap_kind == WrapKind::Cjs,
        input.entry.unwrap().wrapper_name is Some,
    ensures
        !input.wrap_target_missing(),
        input.body_pieces() == (input.preamble_pieces() + fragment_pieces(input.fragments@)).push(
            "export default "@ + input.entry.unwrap().wrapper_name.unwrap()@ + "();"@,
        ) + option_pieces(exports_text(input.exports@, input.format)) + hook_pieces(input.footer),
        exports_text(input.exports@, input.format) is None && hook_pieces(input.footer).len() == 0
            ==> input.pieces().last() == "export default "@
            + input.entry.unwrap().wrapper_name.unwrap()@ + "();"@,
{
    let line = "export default "@ + input.entry.unwrap().wrapper_name.unwrap()@ + "();"@;
    assert(option_pieces(input.wrap_text()) =~= seq![line]);
    assert(input.body_pieces() =~= (input.preamble_pieces() + fragment_pieces(
        input.fragments@,
    )).push(line) + option_pieces(exports_text(input.exports@, input.format)) + hook_pieces(
        input.footer,
    ));
}

/// A banner that is not empty is the first text of the chunk, before the
/// strict-mode directive and whatever the footer is.
pub proof fn lemma_banner_comes_first(input: ChunkRenderInput)
    requires
        input.banner is Some,
        input.banner.unwrap()@.len() > 0,
    ensures
        input.pieces()[0] == input.banner.unwrap()@,
        input.banner.unwrap()@.is_prefix_of(input.code()),
        input.strict_due() ==> input.pieces()[1] == strict_directive(),
{
    assert(hook_pieces(input.banner) =~= seq![input.banner.unwrap()@]);
    assert(input.pieces()[0] == input.banner.unwrap()@);
    lemma_joined_starts_with_first(input.pieces(), seq!['\n']);
}

/// Fragments are laid out in the chunk's static module order: the pieces of
/// a list of fragments are the pieces of its front followed by the pieces of
/// its back, whatever order the fragments were computed in.
pub proof fn lemma_fragments_follow_module_order(
    front: Seq<Option<ModuleRenderOutput>>,
    back: Seq<Option<ModuleRenderOutput>>,
)
    ensures
        fragment_pieces(front + back) == fragment_pieces(front) + fragment_pieces(back),
    decreases back.len(),
{
    if back.len() == 0 {
        assert(front + back =~= front);
        assert(fragment_pieces(front) + fragment_pieces(back) =~= fragment_pieces(front));
    } else {
        lemma_fragments_follow_module_order(front, back.drop_last());
        assert((front + back).drop_last() =~= front + back.drop_last());
        assert((front + back).last() == back.last());
        assert(fragment_pieces(front + back) =~= fragment_pieces(front) + fragment_pieces(back));
    }
}

/// The text of a chunk is a function of what it is assembled from: the same
/// pieces in the same static order give the same text, however the
/// fragments were computed.
pub proof fn lemma_render_is_deterministic(a: ChunkRenderInput, b: ChunkRenderInput)
    requires
        a.pieces() == b.pieces(),
    ensures
        a.code() == b.code(),
{
}

} // verus!
