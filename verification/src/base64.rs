//! Base64, the host side of the `btoa` and `atob` globals. Both work on
//! strings of 8-bit code units, held as bytes: `btoa` gives the text of its
//! argument, `atob` gives back what a text stands for.

use crate::text::chars_of;
use vstd::prelude::*;
use vstd::string::StringSliceAdditionalSpecFns;
use vstd::utf8::encode_utf8;

verus! {

/// The padding character, `=`.
pub const PAD: u8 = 61;

/// The character that stands for the six bits `v`: `A` to `Z`, `a` to `z`,
/// `0` to `9`, `+` and `/`.
pub open spec fn sextet_char(v: int) -> u8 {
    if v < 26 {
        (65 + v) as u8
    } else if v < 52 {
        (97 + v - 26) as u8
    } else if v < 62 {
        (48 + v - 52) as u8
    } else if v == 62 {
        43
    } else {
        47
    }
}

/// The six bits that the character `c` stands for, if it stands for any.
pub open spec fn sextet_value(c: u8) -> Option<int> {
    if 65 <= c <= 90 {
        Some(c - 65)
    } else if 97 <= c <= 122 {
        Some(c - 97 + 26)
    } else if 48 <= c <= 57 {
        Some(c - 48 + 52)
    } else if c == 43 {
        Some(62)
    } else if c == 47 {
        Some(63)
    } else {
        None
    }
}

/// The four characters of three bytes.
pub open spec fn quad_of(d0: u8, d1: u8, d2: u8) -> Seq<u8> {
    seq![
        sextet_char(d0 as int / 4),
        sextet_char((d0 as int % 4) * 16 + d1 as int / 16),
        sextet_char((d1 as int % 16) * 4 + d2 as int / 64),
        sextet_char(d2 as int % 64),
    ]
}

/// The text of `data`: four characters for every three bytes, and for the
/// one or two bytes that are left at the end four characters of which the
/// last two or the last one are padding.
pub open spec fn encoded(data: Seq<u8>) -> Seq<u8>
    decreases data.len(),
{
    if data.len() == 0 {
        Seq::empty()
    } else if data.len() == 1 {
        seq![
            sextet_char(data[0] as int / 4),
            sextet_char((data[0] as int % 4) * 16),
            PAD,
            PAD,
        ]
    } else if data.len() == 2 {
        seq![
            sextet_char(data[0] as int / 4),
            sextet_char((data[0] as int % 4) * 16 + data[1] as int / 16),
            sextet_char((data[1] as int % 16) * 4),
            PAD,
        ]
    } else {
        quad_of(data[0], data[1], data[2]) + encoded(data.skip(3))
    }
}

/// The three bytes of four characters, none of them padding.
pub open spec fn decoded_quad(q: Seq<u8>) -> Option<Seq<u8>> {
    match (sextet_value(q[0]), sextet_value(q[1]), sextet_value(q[2]), sextet_value(q[3])) {
        (Some(a), Some(b), Some(c), Some(d)) => Some(
            seq![(a * 4 + b / 16) as u8, ((b % 16) * 16 + c / 4) as u8, ((c % 4) * 64 + d) as u8],
        ),
        _ => None,
    }
}

/// The bytes of the last four characters of a text, which may end in
/// padding. The bits that stand for no byte have to be zero.
pub open spec fn decoded_tail(q: Seq<u8>) -> Option<Seq<u8>> {
    if q[3] != PAD {
        decoded_quad(q)
    } else if q[2] != PAD {
        match (sextet_value(q[0]), sextet_value(q[1]), sextet_value(q[2])) {
            (Some(a), Some(b), Some(c)) if c % 4 == 0 => Some(
                seq![(a * 4 + b / 16) as u8, ((b % 16) * 16 + c / 4) as u8],
            ),
            _ => None,
        }
    } else {
        match (sextet_value(q[0]), sextet_value(q[1])) {
            (Some(a), Some(b)) if b % 16 == 0 => Some(seq![(a * 4 + b / 16) as u8]),
            _ => None,
        }
    }
}

/// What `text` stands for, if it is the text of anything.
pub open spec fn decoded(text: Seq<u8>) -> Option<Seq<u8>>
    decreases text.len(),
{
    if text.len() == 0 {
        Some(Seq::empty())
    } else if text.len() < 4 {
        None
    } else if text.len() == 4 {
        decoded_tail(text)
    } else {
        match (decoded_quad(text.take(4)), decoded(text.skip(4))) {
            (Some(head), Some(rest)) => Some(head + rest),
            _ => None,
        }
    }
}

fn sextet(v: u8) -> (c: u8)
    requires
        v < 64,
    ensures
        c == sextet_char(v as int),
        sextet_value(c) == Some(v as int),
        c != PAD,
{
    if v < 26 {
        65 + v
    } else if v < 52 {
        97 + (v - 26)
    } else if v < 62 {
        48 + (v - 52)
    } else if v == 62 {
        43
    } else {
        47
    }
}

fn value_of(c: u8) -> (v: Option<u8>)
    ensures
        match v {
            Some(x) => sextet_value(c) == Some(x as int) && x < 64,
            None => sextet_value(c) is None,
        },
{
    if 65 <= c && c <= 90 {
        Some(c - 65)
    } else if 97 <= c && c <= 122 {
        Some(c - 97 + 26)
    } else if 48 <= c && c <= 57 {
        Some(c - 48 + 52)
    } else if c == 43 {
        Some(62)
    } else if c == 47 {
        Some(63)
    } else {
        None
    }
}

/// The base64 text of `data`.
pub fn btoa(data: &[u8]) -> (text: Vec<u8>)
    ensures
        text@ == encoded(data@),
{
    let mut text: Vec<u8> = Vec::new();
    let mut i: usize = 0;
    let n = data.len();
    proof {
        assert(data@.skip(0) =~= data@);
        assert(text@ + encoded(data@) =~= encoded(data@));
    }
    while n - i >= 3
        invariant
            n == data@.len(),
            i <= n,
            text@ + encoded(data@.skip(i as int)) == encoded(data@),
        decreases n - i,
    {
        let d0 = data[i];
        let d1 = data[i + 1];
        let d2 = data[i + 2];
        let ghost before = text@;
        let ghost rest = data@.skip(i as int);
        text.push(sextet(d0 / 4));
        text.push(sextet((d0 % 4) * 16 + d1 / 16));
        text.push(sextet((d1 % 16) * 4 + d2 / 64));
        text.push(sextet(d2 % 64));
        proof {
            assert(rest.skip(3) =~= data@.skip(i + 3));
            assert(text@ =~= before + quad_of(d0, d1, d2));
            assert(encoded(rest) == quad_of(rest[0], rest[1], rest[2]) + encoded(rest.skip(3)));
            assert(before + quad_of(d0, d1, d2) + encoded(rest.skip(3)) =~= before + (quad_of(
                d0,
                d1,
                d2,
            ) + encoded(rest.skip(3))));
        }
        i += 3;
    }
    let ghost before = text@;
    let ghost rest = data@.skip(i as int);
    if n - i == 1 {
        let d0 = data[i];
        text.push(sextet(d0 / 4));
        text.push(sextet((d0 % 4) * 16));
        text.push(PAD);
        text.push(PAD);
        assert(text@ =~= before + encoded(rest));
    } else if n - i == 2 {
        let d0 = data[i];
        let d1 = data[i + 1];
        text.push(sextet(d0 / 4));
        text.push(sextet((d0 % 4) * 16 + d1 / 16));
        text.push(sextet((d1 % 16) * 4));
        text.push(PAD);
        assert(text@ =~= before + encoded(rest));
    } else {
        assert(text@ =~= before + encoded(rest));
    }
    text
}

/// Whether `text` is a string of 8-bit code units: none of its characters
/// lies above U+00FF.
pub open spec fn is_byte_string(text: Seq<char>) -> bool {
    forall|i: int| 0 <= i < text.len() ==> (#[trigger] text[i]) as u32 <= 0xff
}

/// The bytes that `btoa` encodes for the string `text`: for a string of
/// 8-bit code units one byte for each unit, and for a string that holds a
/// character above U+00FF the bytes of its UTF-8 encoding.
pub open spec fn string_bytes(text: Seq<char>) -> Seq<u8> {
    if is_byte_string(text) {
        Seq::new(text.len(), |i: int| text[i] as u32 as u8)
    } else {
        encode_utf8(text)
    }
}

/// The string whose code units are `bytes`, as `atob` returns it.
pub open spec fn byte_string(bytes: Seq<u8>) -> Seq<char> {
    Seq::new(bytes.len(), |i: int| bytes[i] as u32 as char)
}

/// The base64 text of the string `text`.
pub fn btoa_text(text: &str) -> (encoded_text: Vec<u8>)
    ensures
        encoded_text@ == encoded(string_bytes(text@)),
{
    let chars = chars_of(text);
    let mut bytes: Vec<u8> = Vec::new();
    let mut i: usize = 0;
    while i < chars.len()
        invariant
            chars@ == text@,
            i <= chars.len(),
            bytes@.len() == i,
            forall|j: int| 0 <= j < i ==> (#[trigger] chars@[j]) as u32 <= 0xff,
            forall|j: int| 0 <= j < i ==> bytes@[j] == chars@[j] as u32 as u8,
        decreases chars.len() - i,
    {
        let unit = chars[i] as u32;
        if unit > 0xff {
            assert(!is_byte_string(text@));
            return btoa(text.as_bytes());
        }
        bytes.push(unit as u8);
        i += 1;
    }
    assert(is_byte_string(text@));
    assert(bytes@ =~= string_bytes(text@));
    btoa(bytes.as_slice())
}

/// What the base64 text `text` stands for; `None` where it is the text of
/// nothing.
pub fn atob(text: &[u8]) -> (data: Option<Vec<u8>>)
    ensures
        match data {
            Some(bytes) => decoded(text@) == Some(bytes@),
            None => decoded(text@) is None,
        },
{
    let n = text.len();
    let mut data: Vec<u8> = Vec::new();
    if n == 0 {
        return Some(data);
    }
    if n % 4 != 0 {
        proof {
            lemma_decoded_length(text@);
        }
        return None;
    }
    let mut i: usize = 0;
    proof {
        assert(text@.skip(0) =~= text@);
        match decoded(text@) {
            Some(all) => {
                assert(data@ + all =~= all);
            },
            None => {},
        }
    }
    while n - i > 4
        invariant
            n == text@.len(),
            i <= n,
            n - i >= 4,
            (n - i) % 4 == 0,
            decoded(text@) == match decoded(text@.skip(i as int)) {
                Some(rest) => Some(data@ + rest),
                None => None,
            },
        decreases n - i,
    {
        let ghost rest = text@.skip(i as int);
        let ghost before = data@;
        proof {
            assert(rest.take(4) =~= seq![text@[i as int], text@[i + 1], text@[i + 2], text@[i + 3]]);
            assert(rest.skip(4) =~= text@.skip(i + 4));
        }
        let a = value_of(text[i]);
        let b = value_of(text[i + 1]);
        let c = value_of(text[i + 2]);
        let d = value_of(text[i + 3]);
        match (a, b, c, d) {
            (Some(a), Some(b), Some(c), Some(d)) => {
                data.push(a * 4 + b / 16);
                data.push((b % 16) * 16 + c / 4);
                data.push((c % 4) * 64 + d);
                proof {
                    let head = decoded_quad(rest.take(4))->0;
                    assert(data@ =~= before + head);
                    match decoded(rest.skip(4)) {
                        Some(tail) => {
                            assert(before + (head + tail) =~= data@ + tail);
                        },
                        None => {},
                    }
                }
            },
            _ => {
                return None;
            },
        }
        i += 4;
    }
    let ghost rest = text@.skip(i as int);
    let ghost before = data@;
    proof {
        assert(rest =~= seq![text@[i as int], text@[i + 1], text@[i + 2], text@[i + 3]]);
    }
    let a = value_of(text[i]);
    let b = value_of(text[i + 1]);
    if text[i + 3] != PAD {
        let c = value_of(text[i + 2]);
        let d = value_of(text[i + 3]);
        match (a, b, c, d) {
            (Some(a), Some(b), Some(c), Some(d)) => {
                data.push(a * 4 + b / 16);
                data.push((b % 16) * 16 + c / 4);
                data.push((c % 4) * 64 + d);
                assert(data@ =~= before + decoded_tail(rest)->0);
                Some(data)
            },
            _ => None,
        }
    } else if text[i + 2] != PAD {
        let c = value_of(text[i + 2]);
        match (a, b, c) {
            (Some(a), Some(b), Some(c)) => {
                if c % 4 != 0 {
                    return None;
                }
                data.push(a * 4 + b / 16);
                data.push((b % 16) * 16 + c / 4);
                assert(data@ =~= before + decoded_tail(rest)->0);
                Some(data)
            },
            _ => None,
        }
    } else {
        match (a, b) {
            (Some(a), Some(b)) => {
                if b % 16 != 0 {
                    return None;
                }
                data.push(a * 4 + b / 16);
                assert(data@ =~= before + decoded_tail(rest)->0);
                Some(data)
            },
            _ => None,
        }
    }
}

/// A text whose length is no multiple of four stands for nothing.
pub proof fn lemma_decoded_length(text: Seq<u8>)
    requires
        text.len() % 4 != 0,
    ensures
        decoded(text) is None,
    decreases text.len(),
{
    if text.len() > 4 {
        lemma_decoded_length(text.skip(4));
    }
}

proof fn lemma_sextet_inverse(v: int)
    requires
        0 <= v < 64,
    ensures
        sextet_value(sextet_char(v)) == Some(v),
        sextet_char(v) != PAD,
{
}

proof fn lemma_char_inverse(c: u8)
    requires
        sextet_value(c) is Some,
    ensures
        sextet_char(sextet_value(c)->0) == c,
        0 <= sextet_value(c)->0 < 64,
{
}

proof fn lemma_encoded_nonempty(data: Seq<u8>)
    requires
        data.len() > 0,
    ensures
        encoded(data).len() >= 4,
{
}

/// Decoding the text of `data` gives `data` back: what `atob` makes of the
/// result of `btoa` is the argument of `btoa`.
pub proof fn lemma_round_trip(data: Seq<u8>)
    ensures
        decoded(encoded(data)) == Some(data),
    decreases data.len(),
{
    let text = encoded(data);
    if data.len() == 0 {
        assert(data =~= Seq::<u8>::empty());
    } else if data.len() == 1 {
        let d0 = data[0] as int;
        lemma_sextet_inverse(d0 / 4);
        lemma_sextet_inverse((d0 % 4) * 16);
        assert(decoded_tail(text)->0 =~= data);
    } else if data.len() == 2 {
        let d0 = data[0] as int;
        let d1 = data[1] as int;
        lemma_sextet_inverse(d0 / 4);
        lemma_sextet_inverse((d0 % 4) * 16 + d1 / 16);
        lemma_sextet_inverse((d1 % 16) * 4);
        assert(decoded_tail(text)->0 =~= data);
    } else {
        let d0 = data[0] as int;
        let d1 = data[1] as int;
        let d2 = data[2] as int;
        let quad = quad_of(data[0], data[1], data[2]);
        lemma_sextet_inverse(d0 / 4);
        lemma_sextet_inverse((d0 % 4) * 16 + d1 / 16);
        lemma_sextet_inverse((d1 % 16) * 4 + d2 / 64);
        lemma_sextet_inverse(d2 % 64);
        let head = seq![data[0], data[1], data[2]];
        assert(decoded_quad(quad)->0 =~= head);
        if data.len() == 3 {
            assert(data.skip(3) =~= Seq::<u8>::empty());
            assert(encoded(Seq::<u8>::empty()) =~= Seq::<u8>::empty());
            assert(text =~= quad);
            assert(head =~= data);
        } else {
            lemma_encoded_nonempty(data.skip(3));
            lemma_round_trip(data.skip(3));
            assert(text.take(4) =~= quad);
            assert(text.skip(4) =~= encoded(data.skip(3)));
            assert(head + data.skip(3) =~= data);
        }
    }
}

proof fn lemma_quad_is_encoded(q: Seq<u8>)
    requires
        q.len() == 4,
        decoded_quad(q) is Some,
    ensures
        decoded_quad(q)->0.len() == 3,
        quad_of(decoded_quad(q)->0[0], decoded_quad(q)->0[1], decoded_quad(q)->0[2]) == q,
{
    lemma_char_inverse(q[0]);
    lemma_char_inverse(q[1]);
    lemma_char_inverse(q[2]);
    lemma_char_inverse(q[3]);
    let a = sextet_value(q[0])->0;
    let b = sextet_value(q[1])->0;
    let c = sextet_value(q[2])->0;
    let d = sextet_value(q[3])->0;
    let d0 = a * 4 + b / 16;
    let d1 = (b % 16) * 16 + c / 4;
    let d2 = (c % 4) * 64 + d;
    let data = decoded_quad(q)->0;
    assert(data[0] == d0 && data[1] == d1 && data[2] == d2);
    assert(d0 / 4 == a);
    assert((d0 % 4) * 16 + d1 / 16 == b);
    assert((d1 % 16) * 4 + d2 / 64 == c);
    assert(d2 % 64 == d);
    assert(quad_of(data[0], data[1], data[2]) =~= q);
}

proof fn lemma_tail_is_encoded(q: Seq<u8>)
    requires
        q.len() == 4,
        decoded_tail(q) is Some,
    ensures
        encoded(decoded_tail(q)->0) == q,
{
    reveal_with_fuel(encoded, 2);
    let data = decoded_tail(q)->0;
    if q[3] != PAD {
        lemma_quad_is_encoded(q);
        assert(data.skip(3) =~= Seq::<u8>::empty());
        assert(encoded(data) =~= q);
    } else if q[2] != PAD {
        lemma_char_inverse(q[0]);
        lemma_char_inverse(q[1]);
        lemma_char_inverse(q[2]);
        let a = sextet_value(q[0])->0;
        let b = sextet_value(q[1])->0;
        let c = sextet_value(q[2])->0;
        let d0 = a * 4 + b / 16;
        let d1 = (b % 16) * 16 + c / 4;
        assert(data[0] == d0 && data[1] == d1);
        assert(d0 / 4 == a);
        assert((d0 % 4) * 16 + d1 / 16 == b);
        assert((d1 % 16) * 4 == c);
        assert(encoded(data) =~= q);
    } else {
        lemma_char_inverse(q[0]);
        lemma_char_inverse(q[1]);
        let a = sextet_value(q[0])->0;
        let b = sextet_value(q[1])->0;
        let d0 = a * 4 + b / 16;
        assert(data[0] == d0);
        assert(d0 / 4 == a);
        assert((d0 % 4) * 16 == b);
        assert(encoded(data) =~= q);
    }
}

/// Only the text of `data` decodes to `data`: a text that `atob` accepts is
/// what `btoa` makes of the result.
pub proof fn lemma_decoded_is_encoded(text: Seq<u8>)
    requires
        decoded(text) is Some,
    ensures
        encoded(decoded(text)->0) == text,
    decreases text.len(),
{
    let data = decoded(text)->0;
    if text.len() == 0 {
        assert(text =~= Seq::<u8>::empty());
    } else if text.len() == 4 {
        lemma_tail_is_encoded(text);
    } else {
        let quad = text.take(4);
        let head = decoded_quad(quad)->0;
        let rest = decoded(text.skip(4))->0;
        lemma_decoded_is_encoded(text.skip(4));
        lemma_quad_is_encoded(quad);
        assert(data == head + rest);
        assert(rest.len() > 0) by {
            if rest.len() == 0 {
                assert(encoded(rest).len() == 0);
            }
        }
        assert(data.skip(3) =~= rest);
        assert(data[0] == head[0] && data[1] == head[1] && data[2] == head[2]);
        assert(encoded(data) == quad_of(data[0], data[1], data[2]) + encoded(data.skip(3)));
        assert(quad + text.skip(4) =~= text);
    }
}

/// For a string of 8-bit code units, `atob` of its `btoa` is the string
/// again: the bytes that come back are its code units.
pub proof fn lemma_string_round_trip(text: Seq<char>)
    requires
        is_byte_string(text),
    ensures
        decoded(encoded(string_bytes(text))) == Some(string_bytes(text)),
        byte_string(string_bytes(text)) == text,
{
    lemma_round_trip(string_bytes(text));
    assert forall|i: int| 0 <= i < text.len() implies byte_string(string_bytes(text))[i]
        == text[i] by {
        let c = text[i];
        let b = string_bytes(text)[i];
        assert(c as u32 <= 0xff);
        assert(b == c as u32 as u8);
        assert(b as u32 == c as u32);
        vstd::utf8::char_u32_cast(c, c as u32);
        assert(byte_string(string_bytes(text))[i] == b as u32 as char);
    }
    assert(byte_string(string_bytes(text)) =~= text);
}

} // verus!
