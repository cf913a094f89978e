//! Script identifiers: 128-bit values whose text on the wire is the
//! hyphenated lower-case hexadecimal form, 8-4-4-4-12 digits.

use crate::text::chars_of;
use vstd::prelude::*;

verus! {

/// The identifier of a stored script.
#[derive(Clone, Copy, Debug, PartialEq, Eq, Structural)]
pub struct ScriptId {
    pub value: u128,
}

/// Length of an identifier's text.
pub const ID_TEXT_LEN: usize = 36;

/// 16 to the power `e`.
pub open spec fn pow16(e: nat) -> nat
    decreases e,
{
    if e == 0 {
        1
    } else {
        16 * pow16((e - 1) as nat)
    }
}

/// The `k`-th hexadecimal digit of `id`, counted from the most significant
/// one, for `k` from 0 to 31.
pub open spec fn nibble(id: nat, k: int) -> int {
    (id / pow16((31 - k) as nat)) as int % 16
}

/// The lower-case hexadecimal digit that stands for `n`, from 0 to 15.
pub open spec fn hex_digit(n: int) -> char {
    seq!['0', '1', '2', '3', '4', '5', '6', '7', '8', '9', 'a', 'b', 'c', 'd', 'e', 'f'][n]
}

/// Whether a hyphen stands at position `i` of an identifier's text.
pub open spec fn is_hyphen_position(i: int) -> bool {
    i == 8 || i == 13 || i == 18 || i == 23
}

/// Which digit of the identifier stands at position `i` of its text.
pub open spec fn digit_index(i: int) -> int {
    if i < 8 {
        i
    } else if i < 13 {
        i - 1
    } else if i < 18 {
        i - 2
    } else if i < 23 {
        i - 3
    } else {
        i - 4
    }
}

/// The text of `id`: 36 characters, hyphens after the 8th, 12th, 16th and
/// 20th digit, the digits in lower case and the most significant first.
pub open spec fn id_text(id: u128) -> Seq<char> {
    Seq::new(
        36,
        |i: int|
            if is_hyphen_position(i) {
                '-'
            } else {
                hex_digit(nibble(id as nat, digit_index(i)))
            },
    )
}

/// A digit or a letter from `a` to `f`.
pub open spec fn is_lower_hex(c: char) -> bool {
    ('0' <= c && c <= '9') || ('a' <= c && c <= 'f')
}

/// Whether `s` has the shape of an identifier's text.
pub open spec fn canonical_text(s: Seq<char>) -> bool {
    &&& s.len() == 36
    &&& forall|i: int|
        0 <= i < 36 ==> if is_hyphen_position(i) {
            s[i] == '-'
        } else {
            is_lower_hex(#[trigger] s[i])
        }
}

/// The number that the lower-case hexadecimal digit `c` stands for.
pub open spec fn hex_value(c: char) -> int {
    if '0' <= c && c <= '9' {
        c as int - '0' as int
    } else {
        c as int - 'a' as int + 10
    }
}

/// The position in an identifier's text of its `k`-th digit.
pub open spec fn digit_position(k: int) -> int {
    if k < 8 {
        k
    } else if k < 12 {
        k + 1
    } else if k < 16 {
        k + 2
    } else if k < 20 {
        k + 3
    } else {
        k + 4
    }
}

/// The number that the first `k` digits of the text `s` stand for.
pub open spec fn digits_value(s: Seq<char>, k: nat) -> nat
    decreases k,
{
    if k == 0 {
        0
    } else {
        (16 * digits_value(s, (k - 1) as nat) + hex_value(s[digit_position(k - 1)])) as nat
    }
}

/// Whether `value` carries the marks of a random identifier: its thirteenth
/// digit, the version, is 4, and the two highest bits of its seventeenth
/// digit, the variant, are 1 and 0. The other 122 bits are free.
pub open spec fn is_random_id(value: u128) -> bool {
    value & 0x0000_0000_0000_f000_c000_0000_0000_0000
        == 0x0000_0000_0000_4000_8000_0000_0000_0000
}

/// Draws a random identifier with `uuid::Uuid::new_v4`, which sets the
/// version and the variant in 128 random bits: the value carries the marks
/// of a random identifier, and nothing else is claimed of it. The call
/// panics where the operating system gives no random bytes.
#[verifier::external_body]
fn random_value() -> (value: u128)
    ensures
        is_random_id(value),
{
    uuid::Uuid::new_v4().as_u128()
}

/// Formats with `uuid::Uuid::hyphenated` and its `Display`: the result is the
/// text of `value` as `id_text` gives it.
#[verifier::external_body]
fn format_value(value: u128) -> (text: String)
    ensures
        text@ == id_text(value),
{
    uuid::Uuid::from_u128(value).hyphenated().to_string()
}

/// Parses with `uuid::Uuid::parse_str`. On a text of canonical shape the
/// parser succeeds, and the value it gives is the one whose text is `s`.
#[verifier::external_body]
fn parse_value(s: &str) -> (value: Option<u128>)
    requires
        canonical_text(s@),
    ensures
        value is Some,
        id_text(value.unwrap()) == s@,
{
    uuid::Uuid::parse_str(s).ok().map(|u| u.as_u128())
}

fn is_lower_hex_char(c: char) -> (b: bool)
    ensures
        b == is_lower_hex(c),
{
    ('0' <= c && c <= '9') || ('a' <= c && c <= 'f')
}

/// Whether `chars` has the shape of an identifier's text.
pub fn is_canonical(chars: &Vec<char>) -> (b: bool)
    ensures
        b == canonical_text(chars@),
{
    if chars.len() != ID_TEXT_LEN {
        return false;
    }
    let mut i: usize = 0;
    while i < ID_TEXT_LEN
        invariant
            chars.len() == 36,
            i <= 36,
            forall|j: int|
                0 <= j < i ==> if is_hyphen_position(j) {
                    chars@[j] == '-'
                } else {
                    is_lower_hex(#[trigger] chars@[j])
                },
        decreases 36 - i,
    {
        let c = chars[i];
        let ok = if i == 8 || i == 13 || i == 18 || i == 23 {
            c == '-'
        } else {
            is_lower_hex_char(c)
        };
        if !ok {
            assert(!is_lower_hex('-'));
            return false;
        }
        i += 1;
    }
    true
}

impl ScriptId {
    /// The identifier that `s` is the text of, if `s` is the text of one:
    /// the number that its 32 digits stand for.
    pub open spec fn parsed(s: Seq<char>) -> Option<ScriptId> {
        if canonical_text(s) {
            Some(ScriptId { value: digits_value(s, 32) as u128 })
        } else {
            None
        }
    }

    /// A new identifier: 122 random bits, marked as a random identifier by
    /// its version and variant.
    pub fn fresh() -> (id: ScriptId)
        ensures
            is_random_id(id.value),
    {
        ScriptId { value: random_value() }
    }

    /// Reads an identifier from its text. Anything but the canonical
    /// hyphenated lower-case form gives `None`.
    pub fn parse(s: &str) -> (id: Option<ScriptId>)
        ensures
            id == ScriptId::parsed(s@),
            id matches Some(found) ==> id_text(found.value) == s@,
    {
        let chars = chars_of(s);
        if !is_canonical(&chars) {
            return None;
        }
        match parse_value(s) {
            Some(value) => {
                proof {
                    lemma_parsed_text(s@);
                    lemma_text_determines_id(value, digits_value(s@, 32) as u128);
                }
                Some(ScriptId { value })
            },
            None => None,
        }
    }

    /// The text of the identifier.
    pub fn to_text(&self) -> (text: String)
        ensures
            text@ == id_text(self.value),
    {
        format_value(self.value)
    }
}

proof fn lemma_pow16_32()
    ensures
        pow16(32) == 0x1_0000_0000_0000_0000_0000_0000_0000_0000,
{
    reveal_with_fuel(pow16, 33);
}

/// The digits before position `k`, read as a number.
spec fn leading(id: nat, k: nat) -> nat {
    id / pow16((32 - k) as nat)
}

proof fn lemma_pow16_positive(e: nat)
    ensures
        pow16(e) > 0,
    decreases e,
{
    if e > 0 {
        lemma_pow16_positive((e - 1) as nat);
    }
}

proof fn lemma_leading_step(id: nat, k: nat)
    requires
        k < 32,
    ensures
        leading(id, k + 1) == leading(id, k) * 16 + nibble(id, k as int),
{
    let p = pow16((31 - k) as nat);
    lemma_pow16_positive((31 - k) as nat);
    assert(pow16((32 - k) as nat) == 16 * p);
    let q = id / p;
    assert(pow16((32 - (k + 1)) as nat) == p);
    vstd::arithmetic::div_mod::lemma_div_denominator(id as int, p as int, 16);
    assert((id as int / p as int) / 16 == id as int / (p as int * 16));
    assert(p as int * 16 == 16 * p);
    vstd::arithmetic::div_mod::lemma_fundamental_div_mod(q as int, 16);
}

proof fn lemma_same_digits_same_leading(a: nat, b: nat, k: nat)
    requires
        a < pow16(32),
        b < pow16(32),
        k <= 32,
        forall|j: int| 0 <= j < k ==> nibble(a, j) == nibble(b, j),
    ensures
        leading(a, k) == leading(b, k),
    decreases k,
{
    if k == 0 {
        vstd::arithmetic::div_mod::lemma_basic_div(a as int, pow16(32) as int);
        vstd::arithmetic::div_mod::lemma_basic_div(b as int, pow16(32) as int);
    } else {
        lemma_same_digits_same_leading(a, b, (k - 1) as nat);
        lemma_leading_step(a, (k - 1) as nat);
        lemma_leading_step(b, (k - 1) as nat);
    }
}

proof fn lemma_nibble_range(id: nat, k: int)
    requires
        0 <= k < 32,
    ensures
        0 <= nibble(id, k) < 16,
{
    lemma_pow16_positive((31 - k) as nat);
}

/// Two identifiers with the same text are the same identifier.
pub proof fn lemma_text_determines_id(a: u128, b: u128)
    requires
        id_text(a) == id_text(b),
    ensures
        a == b,
{
    lemma_pow16_32();
    assert forall|j: int| 0 <= j < 32 implies nibble(a as nat, j) == nibble(b as nat, j) by {
        let i = digit_position(j);
        assert(!is_hyphen_position(i) && digit_index(i) == j);
        assert(id_text(a)[i] == hex_digit(nibble(a as nat, j)));
        assert(id_text(b)[i] == hex_digit(nibble(b as nat, j)));
        lemma_nibble_range(a as nat, j);
        lemma_nibble_range(b as nat, j);
    }
    lemma_same_digits_same_leading(a as nat, b as nat, 32);
    assert(pow16(0) == 1);
    assert(leading(a as nat, 32) == a as nat / 1);
    assert(leading(b as nat, 32) == b as nat / 1);
}

proof fn lemma_digits_value_bound(s: Seq<char>, k: nat)
    requires
        canonical_text(s),
        k <= 32,
    ensures
        digits_value(s, k) < pow16(k),
    decreases k,
{
    if k > 0 {
        lemma_digits_value_bound(s, (k - 1) as nat);
        let c = s[digit_position(k - 1)];
        assert(is_lower_hex(c));
    }
}

proof fn lemma_leading_of_digits_value(s: Seq<char>, k: nat)
    requires
        canonical_text(s),
        k <= 32,
    ensures
        leading(digits_value(s, 32), k) == digits_value(s, k),
    decreases 32 - k,
{
    let v = digits_value(s, 32);
    if k == 32 {
        assert(pow16(0) == 1);
        assert(leading(v, 32) == v / 1);
    } else {
        lemma_leading_of_digits_value(s, k + 1);
        lemma_leading_step(v, k);
        let c = s[digit_position(k as int)];
        assert(is_lower_hex(c));
        lemma_nibble_range(v, k as int);
    }
}

/// A text of canonical shape is the text of the identifier that it is read
/// as.
pub proof fn lemma_parsed_text(s: Seq<char>)
    requires
        canonical_text(s),
    ensures
        digits_value(s, 32) <= u128::MAX,
        id_text(digits_value(s, 32) as u128) == s,
{
    let v = digits_value(s, 32);
    lemma_digits_value_bound(s, 32);
    lemma_pow16_32();
    assert forall|i: int| 0 <= i < 36 implies id_text(v as u128)[i] == s[i] by {
        if !is_hyphen_position(i) {
            let k = digit_index(i);
            assert(digit_position(k) == i);
            let c = s[i];
            assert(is_lower_hex(c));
            lemma_leading_of_digits_value(s, k as nat);
            lemma_leading_of_digits_value(s, (k + 1) as nat);
            lemma_leading_step(v, k as nat);
            lemma_nibble_range(v, k);
            assert(nibble(v, k) == hex_value(c));
            assert(hex_digit(hex_value(c)) == c);
        }
    }
    assert(id_text(v as u128) =~= s);
}

/// The text of every identifier has the canonical shape, and reading it
/// gives the identifier back.
pub proof fn lemma_text_round_trip(id: ScriptId)
    ensures
        canonical_text(id_text(id.value)),
        ScriptId::parsed(id_text(id.value)) == Some(id),
{
    let s = id_text(id.value);
    assert forall|i: int| 0 <= i < 36 implies if is_hyphen_position(i) {
        s[i] == '-'
    } else {
        is_lower_hex(#[trigger] s[i])
    } by {
        if !is_hyphen_position(i) {
            lemma_nibble_range(id.value as nat, digit_index(i));
        }
    }
    lemma_parsed_text(s);
    lemma_text_determines_id(digits_value(s, 32) as u128, id.value);
}

} // verus!
