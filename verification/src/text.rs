//! Text in fixed-width fields: UTF-8 bytes, left-justified and padded with
//! spaces to the field's width.
use crate::bytes::{copy_into, overwritten, zeros};
use vstd::prelude::*;
use vstd::slice::slice_to_vec;
use vstd::string::StringExecFns;
use vstd::utf8::*;

verus! {

/// `n` filler characters: spaces.
pub open spec fn filler(n: nat) -> Seq<char> {
    Seq::new(n, |i: int| ' ')
}

/// The number of bytes that `text` takes in a field.
pub open spec fn byte_len(text: Seq<char>) -> nat {
    encode_utf8(text).len()
}

/// `text`, followed by as many filler characters as bring it to `width`
/// bytes.
pub open spec fn padded(text: Seq<char>, width: nat) -> Seq<char> {
    text + filler((width - byte_len(text)) as nat)
}

/// The bytes of two texts in a row are the bytes of the first, then those of
/// the second.
pub proof fn lemma_encode_concat(a: Seq<char>, b: Seq<char>)
    ensures
        encode_utf8(a + b) == encode_utf8(a) + encode_utf8(b),
    decreases a.len(),
{
    if a.len() == 0 {
        assert(a + b =~= b);
        assert(encode_utf8(a) + encode_utf8(b) =~= encode_utf8(b));
    } else {
        assert((a + b).drop_first() =~= a.drop_first() + b);
        lemma_encode_concat(a.drop_first(), b);
        assert(encode_utf8(a + b) =~= encode_utf8(a) + encode_utf8(b));
    }
}

/// Characters below 128 take one byte each: the character's own number.
pub proof fn lemma_encode_ascii(text: Seq<char>)
    requires
        is_ascii_chars(text),
    ensures
        encode_utf8(text) == Seq::new(text.len(), |i: int| text[i] as u8),
{
    is_ascii_chars_encode_utf8(text);
}

/// A filler takes one byte per character.
pub proof fn lemma_filler_len(n: nat)
    ensures
        byte_len(filler(n)) == n,
{
    assert(is_ascii_chars(filler(n)));
    lemma_encode_ascii(filler(n));
}

/// A padded text fills its field exactly.
pub proof fn lemma_padded_len(text: Seq<char>, width: nat)
    requires
        byte_len(text) <= width,
    ensures
        byte_len(padded(text, width)) == width,
{
    let rest = (width - byte_len(text)) as nat;
    lemma_encode_concat(text, filler(rest));
    lemma_filler_len(rest);
}

/// The bytes of a padded text are the bytes of the text, then one space for
/// each byte that its field is wider.
pub proof fn lemma_padded_bytes(text: Seq<char>, width: nat)
    requires
        byte_len(text) <= width,
    ensures
        encode_utf8(padded(text, width)) == encode_utf8(text) + Seq::new(
            (width - byte_len(text)) as nat,
            |i: int| 32u8,
        ),
{
    let rest = (width - byte_len(text)) as nat;
    lemma_encode_concat(text, filler(rest));
    assert(is_ascii_chars(filler(rest)));
    lemma_encode_ascii(filler(rest));
    assert(encode_utf8(filler(rest)) =~= Seq::new(rest, |i: int| 32u8));
}

/// A text that fills its field is its own padded text.
pub proof fn lemma_padded_full(text: Seq<char>, width: nat)
    requires
        byte_len(text) == width,
    ensures
        padded(text, width) == text,
{
    assert(padded(text, width) =~= text);
}

/// Zero bytes are the text of as many NUL characters.
pub proof fn lemma_zeros_text(n: nat)
    ensures
        valid_utf8(zeros(n)),
        decode_utf8(zeros(n)) == Seq::new(n, |i: int| '\0'),
{
    let nuls = Seq::new(n, |i: int| '\0');
    assert(is_ascii_chars(nuls));
    lemma_encode_ascii(nuls);
    assert(encode_utf8(nuls) =~= zeros(n));
    encode_utf8_valid_utf8(nuls);
    encode_utf8_decode_utf8(nuls);
}

/// Calls `String::from_utf8` of std, which gives the text that the bytes
/// spell if they are well-formed UTF-8 and an error if they are not. The
/// error comes back as `None`.
#[verifier::external_body]
fn string_from_utf8(bytes: Vec<u8>) -> (text: Option<String>)
    ensures
        text is Some <==> valid_utf8(bytes@),
        text matches Some(t) ==> t@ == decode_utf8(bytes@),
{
    String::from_utf8(bytes).ok()
}

/// The text that `bytes` spell, or `None` where they are not UTF-8.
pub fn text_of(bytes: &[u8]) -> (text: Option<String>)
    ensures
        text is Some <==> valid_utf8(bytes@),
        text matches Some(t) ==> t@ == decode_utf8(bytes@) && encode_utf8(t@) == bytes@,
{
    let text = string_from_utf8(slice_to_vec(bytes));
    proof {
        if valid_utf8(bytes@) {
            decode_utf8_encode_utf8(bytes@);
        }
    }
    text
}

/// `text` padded with spaces to `width` bytes, or `None` where it is longer
/// than that.
pub fn pad(text: &str, width: usize) -> (field: Option<String>)
    ensures
        field is Some <==> byte_len(text@) <= width,
        field matches Some(f) ==> f@ == padded(text@, width as nat) && byte_len(f@) == width,
{
    let len = text.as_bytes().len();
    if len > width {
        return None;
    }
    let mut field = String::from_str(text);
    let mut n: usize = len;
    proof {
        assert(filler(0) =~= Seq::<char>::empty());
        assert(text@ + filler(0) =~= text@);
    }
    while n < width
        invariant
            len <= n <= width,
            len == byte_len(text@),
            field@ == text@ + filler((n - len) as nat),
        decreases width - n,
    {
        field.append(" ");
        proof {
            reveal_strlit(" ");
            assert(" "@ =~= seq![' ']);
            assert(filler((n - len) as nat) + seq![' '] =~= filler((n + 1 - len) as nat));
            assert(field@ =~= text@ + filler((n + 1 - len) as nat));
        }
        n = n + 1;
    }
    proof {
        lemma_padded_len(text@, width as nat);
    }
    Some(field)
}

/// Writes `text` into the field of `width` bytes that begins at offset `at`
/// of `dst`: the bytes of the text, then spaces.
pub fn write_text(dst: &mut [u8], at: usize, text: &str, width: usize)
    requires
        byte_len(text@) <= width,
        at + width <= old(dst)@.len(),
    ensures
        final(dst)@ == overwritten(old(dst)@, at as int, encode_utf8(padded(text@, width as nat))),
{
    let ghost before = dst@;
    let bytes = text.as_bytes();
    let len = bytes.len();
    let total = dst.len();
    copy_into(dst, at, bytes);
    let mut n: usize = len;
    while n < width
        invariant
            len <= n <= width,
            at + width <= before.len() == total,
            dst@.len() == before.len(),
            bytes@ == encode_utf8(text@),
            len == bytes@.len(),
            forall|j: int| 0 <= j < len ==> dst@[at + j] == bytes@[j],
            forall|j: int| at + len <= j < at + n ==> dst@[j] == 32u8,
            forall|j: int| 0 <= j < at || at + n <= j < before.len() ==> dst@[j] == before[j],
        decreases width - n,
    {
        dst[at + n] = 32u8;
        n = n + 1;
    }
    proof {
        lemma_padded_bytes(text@, width as nat);
        assert(dst@ =~= overwritten(
            before,
            at as int,
            encode_utf8(padded(text@, width as nat)),
        ));
    }
}

} // verus!
