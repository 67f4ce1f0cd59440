//! Comparing and taking apart byte strings and text.

use vstd::prelude::*;
use vstd::slice::slice_subrange;

verus! {

/// The characters that the Unicode property `White_Space` holds of.
pub open spec fn white_space(c: char) -> bool {
    ||| '\u{9}' <= c <= '\u{d}'
    ||| c == ' '
    ||| c == '\u{85}'
    ||| c == '\u{a0}'
    ||| c == '\u{1680}'
    ||| '\u{2000}' <= c <= '\u{200a}'
    ||| c == '\u{2028}'
    ||| c == '\u{2029}'
    ||| c == '\u{202f}'
    ||| c == '\u{205f}'
    ||| c == '\u{3000}'
}

/// `text` without the white space it starts with.
pub open spec fn trim_start(text: Seq<char>) -> Seq<char>
    decreases text.len(),
{
    if text.len() > 0 && white_space(text[0]) {
        trim_start(text.drop_first())
    } else {
        text
    }
}

/// `text` without the white space it ends with.
pub open spec fn trim_end(text: Seq<char>) -> Seq<char>
    decreases text.len(),
{
    if text.len() > 0 && white_space(text.last()) {
        trim_end(text.drop_last())
    } else {
        text
    }
}

/// `text` without the white space around it.
pub open spec fn trimmed(text: Seq<char>) -> Seq<char> {
    trim_end(trim_start(text))
}

/// `bytes` read as one character per byte.
pub open spec fn ascii_text(bytes: Seq<u8>) -> Seq<char> {
    Seq::new(bytes.len(), |i: int| bytes[i] as char)
}

/// Chunks as they are read, one behind the other.
pub open spec fn joined(chunks: Seq<Seq<u8>>) -> Seq<u8>
    decreases chunks.len(),
{
    if chunks.len() == 0 {
        seq![]
    } else {
        joined(chunks.drop_last()) + chunks.last()
    }
}

/// The decimal digits of `n`, most significant first, without leading zeros.
pub open spec fn decimal(n: nat) -> Seq<u8>
    decreases n,
{
    if n < 10 {
        seq![(48 + n) as u8]
    } else {
        decimal(n / 10).push((48 + n % 10) as u8)
    }
}

/// `str::trim`, of the standard library: the text between the leading and the
/// trailing white space, where white space is what the Unicode property
/// `White_Space` says.
#[verifier::external_body]
pub(crate) fn trim(text: &str) -> (r: &str)
    ensures
        r@ == trimmed(text@),
{
    text.trim()
}

/// `str::strip_prefix`, of the standard library: the rest of `text` behind
/// `prefix` where `text` starts with it, `None` where it does not.
#[verifier::external_body]
pub(crate) fn after_prefix<'a>(text: &'a str, prefix: &str) -> (r: Option<&'a str>)
    ensures
        match r {
            Some(rest) => prefix@.is_prefix_of(text@) && rest@ == text@.skip(prefix@.len() as int),
            None => !prefix@.is_prefix_of(text@),
        },
{
    text.strip_prefix(prefix)
}

/// `std::str::from_utf8`, of the standard library: it succeeds exactly on valid
/// UTF-8.
#[verifier::external_body]
pub(crate) fn is_utf8(bytes: &[u8]) -> (r: bool)
    ensures
        r == vstd::utf8::valid_utf8(bytes@),
{
    std::str::from_utf8(bytes).is_ok()
}

/// Whether two byte strings are equal.
pub fn same_bytes(a: &[u8], b: &[u8]) -> (r: bool)
    ensures
        r == (a@ == b@),
{
    if a.len() != b.len() {
        return false;
    }
    let mut i: usize = 0;
    while i < a.len()
        invariant
            i <= a.len(),
            a@.len() == b@.len(),
            a@.take(i as int) == b@.take(i as int),
        decreases a.len() - i,
    {
        if a[i] != b[i] {
            return false;
        }
        proof {
            assert(a@.take(i + 1) =~= a@.take(i as int).push(a@[i as int]));
            assert(b@.take(i + 1) =~= b@.take(i as int).push(b@[i as int]));
        }
        i = i + 1;
    }
    proof {
        assert(a@.take(i as int) =~= a@);
        assert(b@.take(i as int) =~= b@);
    }
    true
}

/// Whether `bytes` starts with `prefix`.
pub fn starts_with(bytes: &[u8], prefix: &[u8]) -> (r: bool)
    ensures
        r == prefix@.is_prefix_of(bytes@),
{
    if bytes.len() < prefix.len() {
        false
    } else {
        same_bytes(slice_subrange(bytes, 0, prefix.len()), prefix)
    }
}

/// Two texts are equal where their UTF-8 encodings are.
pub proof fn lemma_encode_utf8_injective(a: Seq<char>, b: Seq<char>)
    ensures
        vstd::utf8::encode_utf8(a) == vstd::utf8::encode_utf8(b) ==> a == b,
{
    vstd::utf8::encode_utf8_decode_utf8(a);
    vstd::utf8::encode_utf8_decode_utf8(b);
}

/// Whether two texts are equal.
pub fn same_text(a: &str, b: &str) -> (r: bool)
    ensures
        r == (a@ == b@),
{
    proof {
        lemma_encode_utf8_injective(a@, b@);
    }
    same_bytes(a.as_bytes(), b.as_bytes())
}

/// Appends `bytes` to `buffer`.
pub fn append_bytes(buffer: &mut Vec<u8>, bytes: &[u8])
    ensures
        final(buffer)@ == old(buffer)@ + bytes@,
{
    buffer.extend_from_slice(bytes);
    proof {
        assert(buffer@ =~= old(buffer)@ + bytes@);
    }
}

/// Texts one behind the other are encoded one behind the other.
pub proof fn lemma_encode_utf8_concat(a: Seq<char>, b: Seq<char>)
    ensures
        vstd::utf8::encode_utf8(a + b) == vstd::utf8::encode_utf8(a) + vstd::utf8::encode_utf8(b),
    decreases a.len(),
{
    if a.len() == 0 {
        assert(a + b =~= b);
        assert(vstd::utf8::encode_utf8(a) =~= seq![]);
    } else {
        assert((a + b).drop_first() =~= a.drop_first() + b);
        lemma_encode_utf8_concat(a.drop_first(), b);
        assert(vstd::utf8::encode_utf8(a + b) =~= vstd::utf8::encode_utf8(a)
            + vstd::utf8::encode_utf8(b));
    }
}

/// ASCII bytes are the encoding of the text that they are read as.
pub proof fn lemma_encode_ascii_text(bytes: Seq<u8>)
    requires
        forall|i: int| 0 <= i < bytes.len() ==> #[trigger] bytes[i] < 128,
    ensures
        vstd::utf8::encode_utf8(ascii_text(bytes)) == bytes,
{
    let text = ascii_text(bytes);
    assert forall|i: int| 0 <= i < text.len() implies '\0' <= #[trigger] text[i] <= '\u{7f}' by {
        assert(bytes[i] < 128);
    }
    vstd::utf8::is_ascii_chars_encode_utf8(text);
    assert forall|i: int| 0 <= i < bytes.len() implies vstd::utf8::encode_utf8(text)[i]
        == bytes[i] by {
        assert(bytes[i] < 128);
        assert(text[i] as u8 == bytes[i]);
    }
    assert(vstd::utf8::encode_utf8(text) =~= bytes);
}

/// What is read is the chunks, all of them and nothing else.
pub proof fn law_joined_is_flattened(chunks: Seq<Seq<u8>>)
    ensures
        joined(chunks) == chunks.flatten(),
    decreases chunks.len(),
{
    chunks.lemma_flatten_and_flatten_alt_are_equivalent();
    if chunks.len() > 0 {
        law_joined_is_flattened(chunks.drop_last());
        chunks.drop_last().lemma_flatten_and_flatten_alt_are_equivalent();
    }
}

/// A number is written with its digits: a digit by itself, and a number with one
/// more digit behind it as the number and then the digit.
pub proof fn law_decimal_has_the_digits(n: nat, digit: nat)
    requires
        digit < 10,
    ensures
        decimal(digit) == seq![(48 + digit) as u8],
        n > 0 ==> decimal(10 * n + digit) == decimal(n) + seq![(48 + digit) as u8],
{
    if n > 0 {
        assert((10 * n + digit) / 10 == n);
        assert((10 * n + digit) % 10 == digit);
        assert(decimal(10 * n + digit) =~= decimal(n) + seq![(48 + digit) as u8]);
    }
}

/// Two numbers are written differently.
pub proof fn law_decimal_tells_numbers_apart(a: nat, b: nat)
    requires
        decimal(a) == decimal(b),
    ensures
        a == b,
    decreases a,
{
    lemma_decimal_len(a);
    lemma_decimal_len(b);
    if a >= 10 && b >= 10 {
        assert(decimal(a).drop_last() =~= decimal(a / 10));
        assert(decimal(b).drop_last() =~= decimal(b / 10));
        assert(decimal(a).last() == (48 + a % 10) as u8);
        assert(decimal(b).last() == (48 + b % 10) as u8);
        law_decimal_tells_numbers_apart(a / 10, b / 10);
    } else if a < 10 && b < 10 {
        assert(decimal(a)[0] == (48 + a) as u8);
        assert(decimal(b)[0] == (48 + b) as u8);
    }
}

proof fn lemma_decimal_len(n: nat)
    ensures
        decimal(n).len() >= 1,
        decimal(n).len() == 1 <==> n < 10,
    decreases n,
{
    if n >= 10 {
        lemma_decimal_len(n / 10);
    }
}

/// Trimming takes white space away and nothing else: what is left is a part of the
/// text, all that stands before it and behind it is white space, and it neither
/// starts nor ends with white space. Where the part starts and ends is given back.
pub proof fn law_trimming_takes_white_space(text: Seq<char>) -> (r: (int, int))
    ensures
        0 <= r.0 <= r.1 <= text.len(),
        trimmed(text) == text.subrange(r.0, r.1),
        forall|i: int| 0 <= i < r.0 ==> white_space(#[trigger] text[i]),
        forall|i: int| r.1 <= i < text.len() ==> white_space(#[trigger] text[i]),
        r.0 < r.1 ==> !white_space(text[r.0]) && !white_space(text[r.1 - 1]),
{
    let i = lemma_trim_start(text);
    let rest = text.skip(i);
    let n = lemma_trim_end(rest);
    assert(trimmed(text) =~= text.subrange(i, i + n));
    assert forall|k: int| i + n <= k < text.len() implies white_space(#[trigger] text[k]) by {
        assert(rest[k - i] == text[k]);
    }
    if n > 0 {
        assert(rest[0] == text[i]);
        assert(rest[n - 1] == text[i + n - 1]);
    }
    (i, i + n)
}

proof fn lemma_trim_start(text: Seq<char>) -> (i: int)
    ensures
        0 <= i <= text.len(),
        trim_start(text) == text.skip(i),
        forall|k: int| 0 <= k < i ==> white_space(#[trigger] text[k]),
        i < text.len() ==> !white_space(text[i]),
    decreases text.len(),
{
    if text.len() > 0 && white_space(text[0]) {
        let rest = text.drop_first();
        let i = lemma_trim_start(rest);
        assert(rest.skip(i) =~= text.skip(i + 1));
        assert forall|k: int| 0 <= k < i + 1 implies white_space(#[trigger] text[k]) by {
            if k > 0 {
                assert(rest[k - 1] == text[k]);
            }
        }
        if i < rest.len() {
            assert(rest[i] == text[i + 1]);
        }
        i + 1
    } else {
        assert(text.skip(0) =~= text);
        0
    }
}

proof fn lemma_trim_end(text: Seq<char>) -> (n: int)
    ensures
        0 <= n <= text.len(),
        trim_end(text) == text.take(n),
        forall|k: int| n <= k < text.len() ==> white_space(#[trigger] text[k]),
        n > 0 ==> !white_space(text[n - 1]),
    decreases text.len(),
{
    if text.len() > 0 && white_space(text.last()) {
        let rest = text.drop_last();
        let n = lemma_trim_end(rest);
        assert(rest.take(n) =~= text.take(n));
        assert forall|k: int| n <= k < text.len() implies white_space(#[trigger] text[k]) by {
            if k < rest.len() {
                assert(rest[k] == text[k]);
            }
        }
        if n > 0 {
            assert(rest[n - 1] == text[n - 1]);
        }
        n
    } else {
        assert(text.take(text.len() as int) =~= text);
        text.len() as int
    }
}

/// Spaces, tabs and line ends are white space; what can be seen of ASCII is not.
pub proof fn law_ascii_white_space(c: char)
    ensures
        c == ' ' || c == '\t' || c == '\n' || c == '\r' ==> white_space(c),
        '!' <= c <= '~' ==> !white_space(c),
{
}

/// Byte strings are equal where they have the same bytes, and one starts with
/// another where it has the bytes of the other in the same places.
pub proof fn law_bytes_are_compared(
    a: &[u8],
    b: &[u8],
    same: bool,
    starts: bool,
)
    requires
        call_ensures(same_bytes, (a, b), same),
        call_ensures(starts_with, (a, b), starts),
    ensures
        starts <==> b@.len() <= a@.len() && forall|i: int| 0 <= i < b@.len() ==> a@[i] == b@[i],
        same <==> starts && a@.len() == b@.len(),
{
    if starts {
        assert(forall|i: int| 0 <= i < b@.len() ==> a@.subrange(0, b@.len() as int)[i] == b@[i]);
    }
    if b@.len() <= a@.len() && forall|i: int| 0 <= i < b@.len() ==> a@[i] == b@[i] {
        assert(b@ =~= a@.subrange(0, b@.len() as int));
    }
    if starts && a@.len() == b@.len() {
        assert(a@ =~= b@);
    }
}

/// Texts are equal where they have the same characters, and bytes that are appended
/// stand behind those that were there.
pub proof fn law_texts_and_buffers(
    a: &str,
    b: &str,
    same: bool,
    buffer: &mut Vec<u8>,
    bytes: &[u8],
)
    requires
        call_ensures(same_text, (a, b), same),
        call_ensures(append_bytes, (buffer, bytes), ()),
    ensures
        same <==> a@.len() == b@.len() && forall|i: int| 0 <= i < a@.len() ==> a@[i] == b@[i],
        final(buffer)@.len() == old(buffer)@.len() + bytes@.len(),
        forall|i: int| 0 <= i < old(buffer)@.len() ==> final(buffer)@[i] == old(buffer)@[i],
        forall|i: int|
            0 <= i < bytes@.len() ==> final(buffer)@[old(buffer)@.len() + i] == #[trigger] bytes@[i],
{
    if a@.len() == b@.len() && forall|i: int| 0 <= i < a@.len() ==> a@[i] == b@[i] {
        assert(a@ =~= b@);
    }
}

} // verus!
