//! Text helpers shared by the parsers and the response writer.
//!
//! Text is modelled as a sequence of characters. The executable code scans
//! the UTF-8 bytes of a `&str`; the lemmas here carry what it finds there
//! over to the characters.

use vstd::prelude::*;
use vstd::string::StringSliceAdditionalSpecFns;
use vstd::string::StringExecFns;
use vstd::utf8::*;

verus! {

/// `core::str::Utf8Error`, the failure that `core::str::from_utf8` reports.
/// It is carried, never read.
#[verifier::external_type_specification]
#[verifier::external_body]
pub struct ExUtf8Error(core::str::Utf8Error);

/// Taken on trust of `core::str::from_utf8`: it succeeds on exactly the byte
/// strings that are well-formed UTF-8, and the text it then hands back has
/// those same bytes.
pub assume_specification<'a>[ core::str::from_utf8 ](v: &'a [u8]) -> (r: Result<
    &'a str,
    core::str::Utf8Error,
>)
    ensures
        r is Ok <==> valid_utf8(v@),
        r is Ok ==> r->Ok_0.spec_bytes() == v@,
;

/// Index of the first occurrence of `a` or `b` in `s`, or `s.len()` where
/// neither occurs.
pub open spec fn first_of(s: Seq<char>, a: char, b: char) -> int
    decreases s.len(),
{
    if s.len() == 0 || s[0] == a || s[0] == b {
        0
    } else {
        1 + first_of(s.drop_first(), a, b)
    }
}

/// `s` cut at its first `a` or `b`: what stands before it and what stands
/// after it, the delimiter itself left out. `None` where `s` holds neither.
pub open spec fn split_first(s: Seq<char>, a: char, b: char) -> Option<(Seq<char>, Seq<char>)> {
    let i = first_of(s, a, b);
    if i < s.len() {
        Some((s.take(i), s.skip(i + 1)))
    } else {
        None
    }
}

/// `first_of` stays within `s`, stops on a delimiter, and passes none.
pub proof fn lemma_first_of_bounds(s: Seq<char>, a: char, b: char)
    ensures
        0 <= first_of(s, a, b) <= s.len(),
        first_of(s, a, b) < s.len() ==> s[first_of(s, a, b)] == a || s[first_of(s, a, b)] == b,
        forall|k: int| 0 <= k < first_of(s, a, b) ==> s[k] != a && s[k] != b,
    decreases s.len(),
{
    if s.len() == 0 || s[0] == a || s[0] == b {
    } else {
        let t = s.drop_first();
        lemma_first_of_bounds(t, a, b);
        assert forall|k: int| 0 <= k < first_of(s, a, b) implies s[k] != a && s[k] != b by {
            if k > 0 {
                assert(s[k] == t[k - 1]);
            }
        }
    }
}

/// An index that stops on a delimiter, or at the end, and has passed none is
/// the one `first_of` gives.
pub proof fn lemma_first_of_is(s: Seq<char>, a: char, b: char, i: int)
    requires
        0 <= i <= s.len(),
        i < s.len() ==> s[i] == a || s[i] == b,
        forall|k: int| 0 <= k < i ==> s[k] != a && s[k] != b,
    ensures
        first_of(s, a, b) == i,
    decreases s.len(),
{
    if s.len() == 0 || s[0] == a || s[0] == b {
    } else {
        let t = s.drop_first();
        assert forall|k: int| 0 <= k < i - 1 implies t[k] != a && t[k] != b by {
            assert(t[k] == s[k + 1]);
        }
        lemma_first_of_is(t, a, b, i - 1);
    }
}

/// Text that was put together from a head without delimiters, one delimiter
/// and a tail splits back into that head and that tail.
pub proof fn lemma_split_first_of_concat(head: Seq<char>, d: char, tail: Seq<char>, a: char, b: char)
    requires
        d == a || d == b,
        forall|k: int| 0 <= k < head.len() ==> head[k] != a && head[k] != b,
    ensures
        split_first(head + seq![d] + tail, a, b) == Some((head, tail)),
{
    let s = head + seq![d] + tail;
    lemma_first_of_is(s, a, b, head.len() as int);
    assert(s.take(head.len() as int) =~= head);
    assert(s.skip(head.len() as int + 1) =~= tail);
}

/// An ASCII character of a text occurs, as its own byte, in the text's UTF-8
/// encoding.
proof fn lemma_ascii_char_has_byte(cs: Seq<char>, j: int) -> (k: int)
    requires
        0 <= j < cs.len(),
        (cs[j] as u32) < 128,
    ensures
        0 <= k < encode_utf8(cs).len(),
        encode_utf8(cs)[k] as u32 == cs[j] as u32,
    decreases j,
{
    let first = encode_scalar(cs[0] as u32);
    let rest = encode_utf8(cs.drop_first());
    assert(encode_utf8(cs) == first + rest);
    if j == 0 {
        let c = cs[0] as u32;
        assert(((c & 0x7F) as u8) as u32 == c) by (bit_vector)
            requires
                c < 128,
        ;
        assert(first == seq![leading_byte_width_1(c)]);
        assert(encode_utf8(cs)[0] == first[0]);
        0
    } else {
        let k = lemma_ascii_char_has_byte(cs.drop_first(), j - 1);
        assert(cs.drop_first()[j - 1] == cs[j]);
        assert(encode_utf8(cs)[first.len() + k] == rest[k]);
        first.len() + k
    }
}

/// Where the UTF-8 bytes of a text hold neither `a` nor `b`, the text holds
/// neither character.
proof fn lemma_no_byte_no_char(cs: Seq<char>, a: u8, b: u8)
    requires
        a < 128,
        b < 128,
        forall|k: int| 0 <= k < encode_utf8(cs).len() ==> encode_utf8(cs)[k] != a && encode_utf8(cs)[k] != b,
    ensures
        forall|j: int| 0 <= j < cs.len() ==> cs[j] != a as char && cs[j] != b as char,
{
    assert forall|j: int| 0 <= j < cs.len() implies cs[j] != a as char && cs[j] != b as char by {
        if cs[j] == a as char || cs[j] == b as char {
            let k = lemma_ascii_char_has_byte(cs, j);
        }
    }
}

/// The text whose UTF-8 bytes are the single ASCII byte `d` is the single
/// character `d`.
proof fn lemma_decode_ascii_head(bytes: Seq<u8>)
    requires
        valid_utf8(bytes),
        bytes.len() > 0,
        bytes[0] < 128,
    ensures
        valid_utf8(bytes.subrange(1, bytes.len() as int)),
        is_char_boundary(bytes, 1),
        decode_utf8(bytes) == seq![bytes[0] as char] + decode_utf8(
            bytes.subrange(1, bytes.len() as int),
        ),
{
    let d = bytes[0];
    assert((d & 0x7F) as u32 == d as u32) by (bit_vector)
        requires
            d < 128,
    ;
    assert(length_of_first_scalar(bytes) == 1);
    assert(pop_first_scalar(bytes) == bytes.subrange(1, bytes.len() as int));
    assert(decode_first_scalar(bytes) == d as u32);
    reveal_with_fuel(is_char_boundary, 2);
}

/// Compares two texts character by character.
pub(crate) fn str_eq(a: &str, b: &str) -> (r: bool)
    ensures
        r == (a@ == b@),
{
    broadcast use encode_utf8_decode_utf8;

    let x = a.as_bytes();
    let y = b.as_bytes();
    if x.len() != y.len() {
        return false;
    }
    let n = x.len();
    let mut i: usize = 0;
    while i < n
        invariant
            i <= n,
            n == x@.len(),
            n == y@.len(),
            x@ == a.spec_bytes(),
            y@ == b.spec_bytes(),
            forall|k: int| 0 <= k < i ==> x@[k] == y@[k],
        decreases n - i,
    {
        if x[i] != y[i] {
            return false;
        }
        i += 1;
    }
    assert(x@ =~= y@);
    assert(decode_utf8(encode_utf8(a@)) == decode_utf8(encode_utf8(b@)));
    true
}

/// Cuts `s` at its first byte `a` or `b`, both ASCII: the text before it and
/// the text after it, as views into `s`.
pub(crate) fn split_once<'a>(s: &'a str, a: u8, b: u8) -> (r: Option<(&'a str, &'a str)>)
    requires
        a < 128,
        b < 128,
    ensures
        match r {
            Some((head, tail)) => split_first(s@, a as char, b as char) == Some((head@, tail@)),
            None => split_first(s@, a as char, b as char) is None,
        },
{
    let bytes = s.as_bytes();
    let n = bytes.len();
    let mut i: usize = 0;
    while i < n
        invariant
            i <= n,
            n == bytes@.len(),
            bytes@ == s.spec_bytes(),
            a < 128,
            b < 128,
            forall|k: int| 0 <= k < i ==> bytes@[k] != a && bytes@[k] != b,
        decreases n - i,
    {
        broadcast use {
            encode_utf8_decode_utf8,
            encode_utf8_valid_utf8,
            valid_utf8_split,
            decode_utf8_split,
        };

        let d = bytes[i];
        if d == a || d == b {
            let ghost all = s.spec_bytes();
            let ghost rest_bytes = all.subrange(i as int, n as int);
            proof {
                assert(all == encode_utf8(s@));
                assert(valid_utf8(all));
                is_char_boundary_iff_not_is_continuation_byte(all, i as int);
                assert(valid_utf8(rest_bytes));
                lemma_decode_ascii_head(rest_bytes);
            }
            let (head, rest) = s.split_at(i);
            assert(rest.spec_bytes() == rest_bytes);
            let (_, tail) = rest.split_at(1);
            proof {
                let head_bytes = all.subrange(0, i as int);
                let tail_bytes = rest_bytes.subrange(1, rest_bytes.len() as int);
                assert(head.spec_bytes() == head_bytes);
                assert(tail.spec_bytes() == tail_bytes);
                assert(head.spec_bytes() == encode_utf8(head@));
                assert(tail.spec_bytes() == encode_utf8(tail@));
                assert(decode_utf8(all) == s@);
                assert(decode_utf8(head_bytes) == head@);
                assert(decode_utf8(tail_bytes) == tail@);
                assert(decode_utf8(all) == decode_utf8(head_bytes) + decode_utf8(rest_bytes));
                assert(s@ == head@ + seq![d as char] + tail@);
                lemma_no_byte_no_char(head@, a, b);
                lemma_split_first_of_concat(head@, d as char, tail@, a as char, b as char);
            }
            return Some((head, tail));
        }
        i += 1;
    }
    proof {
        assert(s.spec_bytes() == encode_utf8(s@));
        lemma_no_byte_no_char(s@, a, b);
        lemma_first_of_is(s@, a as char, b as char, s@.len() as int);
    }
    None
}

/// The character of a decimal digit.
pub open spec fn digit(d: nat) -> char
    recommends
        d < 10,
{
    seq!['0', '1', '2', '3', '4', '5', '6', '7', '8', '9'][d as int]
}

/// The decimal numeral of `n`: no sign, no leading zero, `"0"` for zero.
pub open spec fn decimal(n: nat) -> Seq<char>
    decreases n,
{
    if n < 10 {
        seq![digit(n)]
    } else {
        decimal(n / 10).push(digit(n % 10))
    }
}

/// The numeral of one decimal digit.
fn digit_str(d: u16) -> (r: &'static str)
    requires
        d < 10,
    ensures
        r@ == seq![digit(d as nat)],
{
    proof {
        reveal_strlit("0");
        reveal_strlit("1");
        reveal_strlit("2");
        reveal_strlit("3");
        reveal_strlit("4");
        reveal_strlit("5");
        reveal_strlit("6");
        reveal_strlit("7");
        reveal_strlit("8");
        reveal_strlit("9");
    }
    let r = if d == 0 {
        "0"
    } else if d == 1 {
        "1"
    } else if d == 2 {
        "2"
    } else if d == 3 {
        "3"
    } else if d == 4 {
        "4"
    } else if d == 5 {
        "5"
    } else if d == 6 {
        "6"
    } else if d == 7 {
        "7"
    } else if d == 8 {
        "8"
    } else {
        "9"
    };
    assert(r@ =~= seq![digit(d as nat)]);
    r
}

/// Appends the decimal numeral of `n` to `out`.
pub(crate) fn push_decimal(out: &mut String, n: u16)
    ensures
        final(out)@ == old(out)@ + decimal(n as nat),
    decreases n,
{
    if n >= 10 {
        push_decimal(out, n / 10);
    }
    out.append(digit_str(n % 10));
    assert(out@ =~= old(out)@ + decimal(n as nat));
}

} // verus!
