//! Paths of the system, and the text that stands for them.
//!
//! The system has a path as bytes, which need not be UTF-8. Here a path is text with slashes
//! between its parts. A byte that is no part of a character stands in it as two characters: a NUL,
//! which no path holds, and one that tells the byte. So no two paths have the same text, and the
//! bytes can be had back from it.

use vstd::prelude::*;
use vstd::slice::slice_subrange;
use vstd::string::*;
use vstd::utf8::{
    char_is_scalar, char_u32_cast, decode_first_scalar, decode_utf8, decode_utf8_first_scalar,
    encode_scalar, encode_utf8, encode_utf8_first_scalar, has_width_1_encoding,
    has_width_2_encoding, has_width_3_encoding, has_width_4_encoding, is_scalar,
    last_continuation_byte, leading_byte_width_1, leading_byte_width_2, leading_byte_width_3,
    leading_byte_width_4, length_of_first_scalar, pop_first_scalar, second_last_continuation_byte,
    take_first_scalar, third_last_continuation_byte, valid_first_scalar, valid_utf8,
};

use crate::chars::{chars_of, replace_char, replaced};
use crate::order::{lemma_text_order_antisymmetric, text_before};

verus! {

// ── Bytes as text ────────────────────────────────────────────────────────────

/// The text that `String::from_utf8_lossy` makes of bytes.
pub uninterp spec fn lossy(bytes: Seq<u8>) -> Seq<char>;

/// Bytes as text.
///
/// Calls `String::from_utf8_lossy`: bytes that are UTF-8 become the text that they encode. What
/// becomes of other bytes (replacement characters stand for invalid parts) is named, and left
/// unsaid.
#[verifier::external_body]
pub(crate) fn lossy_text(bytes: &[u8]) -> (r: String)
    ensures
        r@ == lossy(bytes@),
        valid_utf8(bytes@) ==> r@ == decode_utf8(bytes@),
{
    String::from_utf8_lossy(bytes).into_owned()
}

// ── From bytes to paths ──────────────────────────────────────────────────────

/// The text that stands for the path of the given bytes: the characters that they encode, and a
/// NUL with the byte for each byte that is no part of one.
pub open spec fn path_text(bytes: Seq<u8>) -> Seq<char>
    decreases bytes.len(),
{
    if bytes.len() == 0 {
        Seq::empty()
    } else if valid_first_scalar(bytes) {
        seq![decode_first_scalar(bytes) as char] + path_text(pop_first_scalar(bytes))
    } else {
        seq!['\0', bytes[0] as char] + path_text(bytes.drop_first())
    }
}

/// The bytes of the path that `text` stands for.
pub open spec fn path_bytes(text: Seq<char>) -> Seq<u8>
    decreases text.len(),
{
    if text.len() == 0 {
        Seq::empty()
    } else if byte_told(text) {
        seq![text[1] as u8] + path_bytes(text.skip(2))
    } else {
        encode_scalar(text[0] as u32) + path_bytes(text.drop_first())
    }
}

/// Whether `text` starts with a byte that is no part of a character.
pub open spec fn byte_told(text: Seq<char>) -> bool {
    text.len() >= 2 && text[0] == '\0' && '\u{80}' <= text[1] <= '\u{ff}'
}

/// The length of the character that `bytes` encode from index `i` on, or 0 where they encode none.
fn char_length(bytes: &[u8], i: usize) -> (r: usize)
    requires
        i < bytes@.len(),
    ensures
        r == (if valid_first_scalar(bytes@.skip(i as int)) {
            length_of_first_scalar(bytes@.skip(i as int))
        } else {
            0
        }),
        i + r <= bytes@.len(),
{
    let ghost rest = bytes@.skip(i as int);
    let n = bytes.len() - i;
    let a = bytes[i];
    proof {
        assert(rest[0] == a);
        assert(rest.len() == n);
    }
    if a <= 0x7f {
        proof {
            assert(a & 0x7f == a) by (bit_vector)
                requires
                    a <= 0x7f,
            ;
        }
        return 1;
    }
    if n < 2 {
        return 0;
    }
    let b = bytes[i + 1];
    proof {
        assert(rest[1] == b);
    }
    if 0xc0 <= a && a <= 0xdf {
        let point: u32 = (((a & 0x1f) as u32) << 6) | ((b & 0x3f) as u32);
        return if 0x80 <= b && b <= 0xbf && 0x80 <= point && !(0xd800 <= point && point <= 0xdfff) {
            2
        } else {
            0
        };
    }
    if n < 3 {
        return 0;
    }
    let c = bytes[i + 2];
    proof {
        assert(rest[2] == c);
    }
    if 0xe0 <= a && a <= 0xef {
        let point: u32 = (((a & 0x0f) as u32) << 12) | (((b & 0x3f) as u32) << 6) | ((c
            & 0x3f) as u32);
        return if 0x80 <= b && b <= 0xbf && 0x80 <= c && c <= 0xbf && 0x800 <= point && !(0xd800
            <= point && point <= 0xdfff) {
            3
        } else {
            0
        };
    }
    if n < 4 {
        return 0;
    }
    let d = bytes[i + 3];
    proof {
        assert(rest[3] == d);
    }
    if 0xf0 <= a && a <= 0xf7 {
        let point: u32 = (((a & 0x07) as u32) << 18) | (((b & 0x3f) as u32) << 12) | (((c
            & 0x3f) as u32) << 6) | ((d & 0x3f) as u32);
        return if 0x80 <= b && b <= 0xbf && 0x80 <= c && c <= 0xbf && 0x80 <= d && d <= 0xbf
            && 0x10000 <= point && point <= 0x10ffff && !(0xd800 <= point && point <= 0xdfff) {
            4
        } else {
            0
        };
    }
    0
}

/// What is valid at the start of `bytes` is valid alone, and is that one character.
proof fn lemma_first_alone(bytes: Seq<u8>)
    requires
        bytes.len() > 0,
        valid_first_scalar(bytes),
    ensures
        0 < length_of_first_scalar(bytes) <= bytes.len(),
        valid_utf8(take_first_scalar(bytes)),
        decode_utf8(take_first_scalar(bytes)) == seq![decode_first_scalar(bytes) as char],
        encode_scalar((decode_first_scalar(bytes) as char) as u32) == take_first_scalar(bytes),
{
    let one = take_first_scalar(bytes);
    assert(valid_first_scalar(one));
    assert(decode_first_scalar(one) == decode_first_scalar(bytes));
    assert(pop_first_scalar(one) =~= Seq::<u8>::empty());
    assert(valid_utf8(pop_first_scalar(one)));
    assert(decode_utf8(pop_first_scalar(one)) =~= Seq::<char>::empty());
    assert(decode_utf8(one) =~= seq![decode_first_scalar(bytes) as char]);
    decode_utf8_first_scalar(one);
    assert(take_first_scalar(one) =~= one);
}

/// The text that stands for the path of the given bytes.
pub fn path_text_of(bytes: &[u8]) -> (r: String)
    ensures
        r@ == path_text(bytes@),
{
    let mut out = String::new();
    let mut i: usize = 0;
    proof {
        assert(bytes@.skip(0) =~= bytes@);
        assert(out@ + path_text(bytes@) =~= path_text(bytes@));
    }
    while i < bytes.len()
        invariant
            i <= bytes@.len(),
            out@ + path_text(bytes@.skip(i as int)) == path_text(bytes@),
        decreases bytes@.len() - i,
    {
        let ghost rest = bytes@.skip(i as int);
        let ghost before = out@;
        let n = char_length(bytes, i);
        if n > 0 {
            proof {
                lemma_first_alone(rest);
                assert(bytes@.subrange(i as int, i + n) =~= take_first_scalar(rest));
                assert(pop_first_scalar(rest) =~= bytes@.skip(i + n));
            }
            let piece = lossy_text(slice_subrange(bytes, i, i + n));
            out.append(piece.as_str());
            proof {
                assert(out@ + path_text(bytes@.skip(i + n)) =~= before + path_text(rest));
            }
            i = i + n;
        } else {
            out.push('\0');
            out.push(bytes[i] as char);
            proof {
                assert(rest[0] == bytes@[i as int]);
                assert(rest.drop_first() =~= bytes@.skip(i + 1));
                assert(out@ + path_text(bytes@.skip(i + 1)) =~= before + path_text(rest));
            }
            i = i + 1;
        }
    }
    proof {
        assert(bytes@.skip(i as int) =~= Seq::<u8>::empty());
        assert(out@ + Seq::<char>::empty() =~= out@);
    }
    out
}

/// The bytes of the path that `text` stands for.
pub fn path_bytes_of(text: &str) -> (r: Vec<u8>)
    ensures
        r@ == path_bytes(text@),
{
    let cs = chars_of(text);
    let mut out: Vec<u8> = Vec::new();
    let mut i: usize = 0;
    proof {
        assert(text@.skip(0) =~= text@);
        assert(out@ + path_bytes(text@) =~= path_bytes(text@));
    }
    while i < cs.len()
        invariant
            cs@ == text@,
            i <= cs@.len(),
            out@ + path_bytes(text@.skip(i as int)) == path_bytes(text@),
        decreases cs@.len() - i,
    {
        let ghost rest = text@.skip(i as int);
        let ghost before = out@;
        if cs[i] == '\0' && cs.len() - i >= 2 && '\u{80}' <= cs[i + 1] && cs[i + 1] <= '\u{ff}' {
            out.push(cs[i + 1] as u8);
            proof {
                assert(rest.skip(2) =~= text@.skip(i + 2));
                assert(out@ + path_bytes(text@.skip(i + 2)) =~= before + path_bytes(rest));
            }
            i = i + 2;
        } else {
            let one = text.substring_char(i, i + 1);
            let bytes = one.as_bytes();
            proof {
                assert(one@ =~= seq![rest[0]]);
                assert(one@.drop_first() =~= Seq::<char>::empty());
                assert(one@[0] == rest[0]);
                assert(encode_utf8(one@.drop_first()) =~= Seq::<u8>::empty());
                assert(encode_utf8(one@) =~= encode_scalar(rest[0] as u32));
                assert(rest.drop_first() =~= text@.skip(i + 1));
            }
            let k = bytes.len();
            for j in 0..k
                invariant
                    k == bytes@.len(),
                    out@ == before + bytes@.take(j as int),
            {
                out.push(bytes[j]);
                proof {
                    assert(bytes@.take(j + 1) =~= bytes@.take(j as int).push(bytes@[j as int]));
                }
            }
            proof {
                assert(bytes@.take(k as int) =~= bytes@);
                assert(out@ + path_bytes(text@.skip(i + 1)) =~= before + path_bytes(rest));
            }
            i = i + 1;
        }
    }
    proof {
        assert(text@.skip(i as int) =~= Seq::<char>::empty());
        assert(out@ + Seq::<u8>::empty() =~= out@);
    }
    out
}

/// The bytes of a path are had back from its text, whatever they are, but for a zero byte, which no
/// path holds. So no two paths have the same text.
pub proof fn lemma_path_reads_back(bytes: Seq<u8>)
    requires
        forall|i: int| 0 <= i < bytes.len() ==> #[trigger] bytes[i] != 0,
    ensures
        path_bytes(path_text(bytes)) == bytes,
    decreases bytes.len(),
{
    let text = path_text(bytes);
    if bytes.len() == 0 {
    } else if valid_first_scalar(bytes) {
        let rest = pop_first_scalar(bytes);
        let c = decode_first_scalar(bytes) as char;
        lemma_first_alone(bytes);
        lemma_path_reads_back(rest);
        if c == '\0' {
            assert(0u32 & 0x7f == 0u32) by (bit_vector);
            assert(encode_scalar(0u32)[0] == 0u8);
            assert(bytes[0] == take_first_scalar(bytes)[0]);
        }
        assert(text.drop_first() =~= path_text(rest));
        assert(text[0] == c);
        assert(take_first_scalar(bytes) + rest =~= bytes);
    } else {
        let rest = bytes.drop_first();
        lemma_path_reads_back(rest);
        let b = bytes[0];
        if b <= 0x7f {
            assert(b & 0x7f == b) by (bit_vector)
                requires
                    b <= 0x7f,
            ;
        }
        assert(text[0] == '\0' && text[1] == b as char);
        assert(text.skip(2) =~= path_text(rest));
        assert((b as char) as u8 == b);
        assert(seq![b] + rest =~= bytes);
    }
}

/// A path that is UTF-8 stands as the text that it encodes.
pub proof fn lemma_utf8_path_is_its_text(text: Seq<char>)
    ensures
        path_text(encode_utf8(text)) == text,
        !text.contains('\0') ==> path_bytes(text) == encode_utf8(text),
    decreases text.len(),
{
    if text.len() > 0 {
        let rest = text.drop_first();
        let bytes = encode_utf8(text);
        lemma_utf8_path_is_its_text(rest);
        encode_utf8_first_scalar(text);
        char_u32_cast(text[0], decode_first_scalar(bytes));
        assert(pop_first_scalar(bytes) =~= encode_utf8(rest));
        assert(bytes.len() > 0);
        assert(seq![text[0]] + rest =~= text);
        assert(path_text(bytes) =~= text);
        if !text.contains('\0') {
            assert(text[0] != '\0') by {
                assert(text.contains(text[0]));
            }
            assert(!rest.contains('\0')) by {
                if rest.contains('\0') {
                    let i = choose|i: int| 0 <= i < rest.len() && rest[i] == '\0';
                    assert(text[i + 1] == '\0');
                }
            }
        }
    }
}

// ── Order ────────────────────────────────────────────────────────────────────

/// The bytes of a path, each as the character with its number.
pub open spec fn byte_key(text: Seq<char>) -> Seq<char> {
    path_bytes(text).map_values(|b: u8| b as char)
}

/// The bytes of a path, each as the character with its number.
pub fn byte_key_of(text: &str) -> (r: String)
    ensures
        r@ == byte_key(text@),
{
    let bytes = path_bytes_of(text);
    let mut out = String::new();
    proof {
        assert(byte_key(text@).take(0) =~= out@);
    }
    for i in 0..bytes.len()
        invariant
            bytes@ == path_bytes(text@),
            out@ == byte_key(text@).take(i as int),
    {
        out.push(bytes[i] as char);
        proof {
            assert(byte_key(text@).take(i + 1) =~= byte_key(text@).take(i as int).push(
                byte_key(text@)[i as int],
            ));
        }
    }
    proof {
        assert(byte_key(text@).take(bytes@.len() as int) =~= byte_key(text@));
    }
    out
}

/// Where the encodings of two characters first differ, and that the lesser character has the lesser
/// byte there.
proof fn first_difference(c: u32, d: u32) -> (k: int)
    requires
        is_scalar(c),
        is_scalar(d),
        c < d,
    ensures
        0 <= k < encode_scalar(c).len(),
        k < encode_scalar(d).len(),
        forall|j: int| 0 <= j < k ==> encode_scalar(c)[j] == encode_scalar(d)[j],
        encode_scalar(c)[k] < encode_scalar(d)[k],
{
    lemma_leading_bytes(c);
    lemma_leading_bytes(d);
    let x = encode_scalar(c);
    let y = encode_scalar(d);
    if has_width_1_encoding(d) {
        assert(leading_byte_width_1(c) < leading_byte_width_1(d)) by (bit_vector)
            requires
                c < d,
                d <= 0x7f,
        ;
    } else if has_width_2_encoding(c) && has_width_2_encoding(d) {
        assert(leading_byte_width_2(c) < leading_byte_width_2(d) || leading_byte_width_2(c)
            == leading_byte_width_2(d) && last_continuation_byte(c) < last_continuation_byte(d))
            by (bit_vector)
            requires
                c < d,
                d <= 0x7ff,
        ;
    } else if has_width_3_encoding(c) && has_width_3_encoding(d) {
        assert(leading_byte_width_3(c) < leading_byte_width_3(d) || leading_byte_width_3(c)
            == leading_byte_width_3(d) && (second_last_continuation_byte(c)
            < second_last_continuation_byte(d) || second_last_continuation_byte(c)
            == second_last_continuation_byte(d) && last_continuation_byte(c)
            < last_continuation_byte(d))) by (bit_vector)
            requires
                c < d,
                d <= 0xffff,
        ;
    } else if has_width_4_encoding(c) && has_width_4_encoding(d) {
        assert(leading_byte_width_4(c) < leading_byte_width_4(d) || leading_byte_width_4(c)
            == leading_byte_width_4(d) && (third_last_continuation_byte(c)
            < third_last_continuation_byte(d) || third_last_continuation_byte(c)
            == third_last_continuation_byte(d) && (second_last_continuation_byte(c)
            < second_last_continuation_byte(d) || second_last_continuation_byte(c)
            == second_last_continuation_byte(d) && last_continuation_byte(c)
            < last_continuation_byte(d)))) by (bit_vector)
            requires
                c < d,
                d <= 0x10ffff,
        ;
    }
    if x[0] < y[0] {
        0
    } else if x[1] < y[1] {
        1
    } else if x[2] < y[2] {
        2
    } else {
        3
    }
}

/// The first byte of an encoding tells how long it is.
proof fn lemma_leading_bytes(c: u32)
    requires
        is_scalar(c),
    ensures
        has_width_1_encoding(c) ==> encode_scalar(c)[0] <= 0x7f,
        has_width_2_encoding(c) ==> 0xc0 <= encode_scalar(c)[0] <= 0xdf,
        has_width_3_encoding(c) ==> 0xe0 <= encode_scalar(c)[0] <= 0xef,
        has_width_4_encoding(c) ==> 0xf0 <= encode_scalar(c)[0] <= 0xf7,
{
    assert(leading_byte_width_1(c) <= 0x7f) by (bit_vector);
    assert(0xc0 <= leading_byte_width_2(c) <= 0xdf) by (bit_vector);
    assert(0xe0 <= leading_byte_width_3(c) <= 0xef) by (bit_vector);
    assert(0xf0 <= leading_byte_width_4(c) <= 0xf7) by (bit_vector);
}

/// What is the same at the start of two texts does not matter for their order.
proof fn lemma_common_start(s: Seq<char>, a: Seq<char>, b: Seq<char>)
    ensures
        text_before(s + a, s + b) == text_before(a, b),
    decreases s.len(),
{
    if s.len() == 0 {
        assert(s + a =~= a);
        assert(s + b =~= b);
    } else {
        lemma_common_start(s.drop_first(), a, b);
        assert((s + a).drop_first() =~= s.drop_first() + a);
        assert((s + b).drop_first() =~= s.drop_first() + b);
    }
}

/// Paths that are UTF-8 have their bytes in the order of their characters.
pub proof fn lemma_bytes_order_as_text(a: Seq<char>, b: Seq<char>)
    requires
        !a.contains('\0'),
        !b.contains('\0'),
    ensures
        text_before(byte_key(a), byte_key(b)) == text_before(a, b),
        byte_key(a) == byte_key(b) ==> a == b,
    decreases a.len(),
{
    let x = byte_key(a);
    let y = byte_key(b);
    lemma_first_key(a);
    lemma_first_key(b);
    lemma_text_order_antisymmetric(x, y);
    if a.len() > 0 && b.len() > 0 {
        let p = key_of_char(a[0]);
        let q = key_of_char(b[0]);
        char_is_scalar(a[0]);
        char_is_scalar(b[0]);
        if a[0] == b[0] {
            lemma_bytes_order_as_text(a.drop_first(), b.drop_first());
            let u = byte_key(a.drop_first());
            let v = byte_key(b.drop_first());
            lemma_common_start(p, u, v);
            if x == y {
                assert(u =~= x.skip(p.len() as int));
                assert(v =~= y.skip(p.len() as int));
                assert(a =~= seq![a[0]] + a.drop_first());
                assert(b =~= seq![b[0]] + b.drop_first());
            }
        } else if (a[0] as u32) < (b[0] as u32) {
            let k = first_difference(a[0] as u32, b[0] as u32);
            lemma_less_at(x, y, k);
        } else {
            char_u32_cast(a[0], a[0] as u32);
            char_u32_cast(b[0], b[0] as u32);
            let k = first_difference(b[0] as u32, a[0] as u32);
            lemma_less_at(y, x, k);
        }
    } else if a.len() == 0 && b.len() == 0 {
        assert(a =~= b);
    }
}

/// The bytes of a character, each as the character with its number.
spec fn key_of_char(c: char) -> Seq<char> {
    encode_scalar(c as u32).map_values(|b: u8| b as char)
}

/// The key of a path starts with the bytes of its first character.
proof fn lemma_first_key(text: Seq<char>)
    requires
        !text.contains('\0'),
    ensures
        text.len() == 0 ==> byte_key(text).len() == 0,
        text.len() > 0 ==> {
            &&& byte_key(text) == key_of_char(text[0]) + byte_key(text.drop_first())
            &&& key_of_char(text[0]).len() > 0
            &&& !text.drop_first().contains('\0')
        },
{
    if text.len() > 0 {
        let rest = text.drop_first();
        char_is_scalar(text[0]);
        assert(text[0] != '\0') by {
            assert(text.contains(text[0]));
        }
        assert(!rest.contains('\0')) by {
            if rest.contains('\0') {
                let i = choose|i: int| 0 <= i < rest.len() && rest[i] == '\0';
                assert(text[i + 1] == '\0');
            }
        }
        assert(byte_key(text) =~= key_of_char(text[0]) + byte_key(rest));
    }
}

/// A text with the lesser character where two first differ comes before the other.
proof fn lemma_less_at(x: Seq<char>, y: Seq<char>, k: int)
    requires
        0 <= k < x.len(),
        k < y.len(),
        forall|j: int| 0 <= j < k ==> #[trigger] x[j] == y[j],
        (x[k] as u32) < (y[k] as u32),
    ensures
        text_before(x, y),
        x != y,
{
    assert(x.take(k) =~= y.take(k));
    assert(x =~= x.take(k) + x.skip(k));
    assert(y =~= y.take(k) + y.skip(k));
    lemma_common_start(x.take(k), x.skip(k), y.skip(k));
}

// ── Showing paths ────────────────────────────────────────────────────────────

/// A path as it is shown: replacement characters stand for what is not UTF-8 in it.
pub open spec fn shown(path: Seq<char>) -> Seq<char> {
    if path.contains('\0') {
        lossy(path_bytes(path))
    } else {
        path
    }
}

/// A path as it is shown.
pub fn show(path: &str) -> (r: String)
    ensures
        r@ == shown(path@),
{
    let cs = chars_of(path);
    for i in 0..cs.len()
        invariant
            cs@ == path@,
            forall|j: int| 0 <= j < i ==> path@[j] != '\0',
    {
        if cs[i] == '\0' {
            proof {
                assert(path@[i as int] == '\0');
            }
            let bytes = path_bytes_of(path);
            return lossy_text(bytes.as_slice());
        }
    }
    path.to_owned()
}

// ── The system's own form ────────────────────────────────────────────────────

/// `path` with slashes between its parts, where the system has backslashes there as well or not.
pub open spec fn slashed(path: Seq<char>, backslash: bool) -> Seq<char> {
    if backslash {
        replaced(path, '\\', "/"@)
    } else {
        path
    }
}

/// `path` with slashes between its parts, where the system has backslashes there as well or not.
pub fn with_slashes(path: &str, backslash: bool) -> (r: String)
    ensures
        r@ == slashed(path@, backslash),
{
    if backslash {
        replace_char(path, '\\', "/")
    } else {
        path.to_owned()
    }
}

/// Whether a backslash stands between the parts of a path.
///
/// Calls `std::path::is_separator`. What it says depends on the system, so nothing is claimed of
/// it.
#[verifier::external_body]
fn backslash_separates() -> (r: bool)
{
    std::path::is_separator('\\')
}

/// The text that stands for a path which this system has as the given bytes.
pub fn system_path(bytes: &[u8]) -> (r: String)
    ensures
        exists|backslash: bool| r@ == #[trigger] slashed(path_text(bytes@), backslash),
{
    let text = path_text_of(bytes);
    with_slashes(text.as_str(), backslash_separates())
}

} // verus!
