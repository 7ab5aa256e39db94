use vstd::prelude::*;
use vstd::string::*;
use string_wizard::{Joiner, JoinerOptions};

verus! {

/// The texts held by a list of strings, in order.
pub open spec fn texts(parts: Seq<String>) -> Seq<Seq<char>> {
    parts.map_values(|s: String| s@)
}

/// `parts` laid end to end with `sep` between each neighbouring pair.
pub open spec fn joined(parts: Seq<Seq<char>>, sep: Seq<char>) -> Seq<char>
    decreases parts.len(),
{
    if parts.len() == 0 {
        Seq::empty()
    } else if parts.len() == 1 {
        parts[0]
    } else {
        joined(parts.drop_last(), sep) + sep + parts.last()
    }
}

/// Number of bytes of the UTF-8 form of `s`.
pub open spec fn byte_len(s: Seq<char>) -> nat {
    vstd::utf8::encode_utf8(s).len()
}

/// Largest piece, in bytes, that the joiner takes.
pub const MAX_PIECE_BYTES: usize = 0xFFFF_FFFF;

/// Every piece is small enough for the joiner.
pub open spec fn pieces_fit(parts: Seq<String>) -> bool {
    forall|i: int| 0 <= i < parts.len() ==> byte_len(#[trigger] parts[i]@) <= MAX_PIECE_BYTES
}

/// `string_wizard::Joiner`, which collects sources and joins them.
#[verifier::external_type_specification]
#[verifier::external_body]
pub struct ExJoiner<'s>(Joiner<'s>);

/// The texts of the sources that a joiner holds, in the order in which they
/// were appended.
pub uninterp spec fn joiner_sources(joiner: Joiner) -> Seq<Seq<char>>;

/// The separator that a joiner was made with.
pub uninterp spec fn joiner_separator(joiner: Joiner) -> Option<Seq<char>>;

/// `Joiner::with_options` with a separator: a joiner that holds no source
/// yet and keeps the separator.
#[verifier::external_body]
fn joiner_with_separator<'s>(sep: &str) -> (joiner: Joiner<'s>)
    ensures
        joiner_sources(joiner) == Seq::<Seq<char>>::empty(),
        joiner_separator(joiner) == Some(sep@),
{
    Joiner::with_options(JoinerOptions { separator: Some(sep.to_string()) })
}

/// `Joiner::append_raw`: the text becomes the joiner's last source, and the
/// separator stays. A raw source longer than `u32::MAX` bytes trips an
/// assertion in the crate, hence the bound.
#[verifier::external_body]
fn joiner_append_raw<'s>(joiner: &mut Joiner<'s>, raw: &'s str)
    requires
        byte_len(raw@) <= MAX_PIECE_BYTES,
    ensures
        joiner_sources(*final(joiner)) == joiner_sources(*old(joiner)).push(raw@),
        joiner_separator(*final(joiner)) == joiner_separator(*old(joiner)),
{
    joiner.append_raw(raw);
}

/// `Joiner::join`: the text of every source in order, with the separator,
/// where there is one, before every source but the first.
#[verifier::external_body]
fn joiner_join(joiner: &Joiner) -> (out: String)
    ensures
        out@ == joined(
            joiner_sources(*joiner),
            match joiner_separator(*joiner) {
                Some(sep) => sep,
                None => Seq::empty(),
            },
        ),
{
    joiner.join()
}

/// Whether every piece is small enough for the joiner.
pub fn check_pieces(parts: &Vec<String>) -> (ok: bool)
    ensures
        ok == pieces_fit(parts@),
{
    let mut i: usize = 0;
    while i < parts.len()
        invariant
            i <= parts.len(),
            forall|j: int| 0 <= j < i ==> byte_len(#[trigger] parts@[j]@) <= MAX_PIECE_BYTES,
        decreases parts.len() - i,
    {
        let bytes = parts[i].as_str().as_bytes();
        proof {
            vstd::slice::axiom_spec_len(bytes);
        }
        if bytes.len() > MAX_PIECE_BYTES {
            return false;
        }
        i += 1;
    }
    true
}

/// Joins the pieces with a line feed between each neighbouring pair, or
/// gives `None` when a piece is larger than the joiner takes.
pub fn join_lines(parts: &Vec<String>) -> (out: Option<String>)
    ensures
        out.is_some() == pieces_fit(parts@),
        out.is_some() ==> out.unwrap()@ == joined(texts(parts@), seq!['\n']),
{
    if !check_pieces(parts) {
        return None;
    }
    proof {
        reveal_strlit("\n");
        assert("\n"@ =~= seq!['\n']);
    }
    let mut joiner = joiner_with_separator("\n");
    let mut i: usize = 0;
    assert(texts(parts@.take(0)) =~= Seq::<Seq<char>>::empty());
    while i < parts.len()
        invariant
            i <= parts@.len(),
            pieces_fit(parts@),
            joiner_sources(joiner) == texts(parts@.take(i as int)),
            joiner_separator(joiner) == Some(seq!['\n']),
        decreases parts.len() - i,
    {
        proof {
            assert(parts@.take(i + 1) =~= parts@.take(i as int).push(parts@[i as int]));
            lemma_texts_push(parts@.take(i as int), parts@[i as int]);
        }
        joiner_append_raw(&mut joiner, parts[i].as_str());
        i += 1;
    }
    proof {
        assert(parts@.take(parts@.len() as int) =~= parts@);
    }
    Some(joiner_join(&joiner))
}

/// Taking one more part of a list joins the separator and that part on.
pub proof fn lemma_joined_push(parts: Seq<Seq<char>>, last: Seq<char>, sep: Seq<char>)
    ensures
        joined(parts.push(last), sep) == if parts.len() == 0 {
            last
        } else {
            joined(parts, sep) + sep + last
        },
{
    assert(parts.push(last).drop_last() =~= parts);
    assert(parts.push(last).last() == last);
}

/// The texts of a list with one more string at its end.
pub proof fn lemma_texts_push(parts: Seq<String>, last: String)
    ensures
        texts(parts.push(last)) == texts(parts).push(last@),
{
    assert(texts(parts.push(last)) =~= texts(parts).push(last@));
}

/// Lays the parts end to end with `sep` between each neighbouring pair.
pub fn concat_with(parts: &Vec<String>, sep: &str) -> (out: String)
    ensures
        out@ == joined(texts(parts@), sep@),
{
    let mut out = String::new();
    let mut i: usize = 0;
    while i < parts.len()
        invariant
            i <= parts.len(),
            out@ == joined(texts(parts@.take(i as int)), sep@),
        decreases parts.len() - i,
    {
        proof {
            assert(parts@.take(i + 1) =~= parts@.take(i as int).push(parts@[i as int]));
            lemma_texts_push(parts@.take(i as int), parts@[i as int]);
            lemma_joined_push(texts(parts@.take(i as int)), parts@[i as int]@, sep@);
        }
        if i > 0 {
            out.append(sep);
        }
        out.append(parts[i].as_str());
        i += 1;
    }
    proof {
        assert(parts@.take(parts.len() as int) =~= parts@);
    }
    out
}

/// Appends one piece to a list of pieces.
pub fn push_piece(pieces: &mut Vec<String>, piece: String)
    ensures
        final(pieces)@ == old(pieces)@.push(piece),
        texts(final(pieces)@) == texts(old(pieces)@).push(piece@),
{
    proof {
        lemma_texts_push(pieces@, piece);
    }
    pieces.push(piece);
}

} // verus!
