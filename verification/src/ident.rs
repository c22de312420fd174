//! Session identifiers: 128-bit UUIDs, made and written by the `uuid` crate.
use vstd::prelude::*;
use vstd::arithmetic::power::pow;
use vstd::string::*;

verus! {

/// The `k`-th hexadecimal digit of `id`, counted from the most significant one.
pub open spec fn uuid_nibble(id: u128, k: int) -> int {
    (id as int / pow(16, (31 - k) as nat)) % 16
}

/// The lower-case character of a hexadecimal digit.
pub open spec fn hex_digit(d: int) -> char {
    if d < 10 {
        (48 + d) as char
    } else {
        (87 + d) as char
    }
}

/// Whether position `i` of the hyphenated form holds a hyphen.
pub open spec fn hyphen_position(i: int) -> bool {
    i == 8 || i == 13 || i == 18 || i == 23
}

/// The digit shown at position `i` of the hyphenated form (not a hyphen).
pub open spec fn digit_index(i: int) -> int {
    if i < 8 {
        i
    } else if i < 13 {
        i - 1
    } else if i < 18 {
        i - 2
    } else if i < 23 {
        i - 3
    } else {
        i - 4
    }
}

/// The hyphenated lower-case form of a UUID: groups of 8, 4, 4, 4 and 12
/// hexadecimal digits separated by `-`, 36 characters in all.
pub open spec fn uuid_hyphenated(id: u128) -> Seq<char> {
    Seq::new(
        36,
        |i: int|
            if hyphen_position(i) {
                '-'
            } else {
                hex_digit(uuid_nibble(id, digit_index(i)))
            },
    )
}

/// Whether `id` has the version (4) and variant (RFC 4122) bits of a random UUID.
pub open spec fn is_random_uuid(id: u128) -> bool {
    uuid_nibble(id, 12) == 4 && (id as int / pow(2, 62)) % 4 == 2
}

/// A new random identifier: `uuid::Uuid::new_v4`, as its 128-bit value.
/// The value rests on chance; stated is only that it carries the version and
/// variant bits that `new_v4` sets on every outcome.
#[verifier::external_body]
pub(crate) fn new_random_id() -> (id: u128)
    ensures
        is_random_uuid(id),
{
    uuid::Uuid::new_v4().as_u128()
}

/// The text form of an identifier: `Display` of `uuid::Uuid`, which writes the
/// hyphenated lower-case form.
#[verifier::external_body]
pub(crate) fn id_text(id: u128) -> (s: String)
    ensures
        s@ == uuid_hyphenated(id),
{
    uuid::Uuid::from_u128(id).to_string()
}

/// The value of a hexadecimal digit, in either case.
pub open spec fn hex_value(c: char) -> Option<int> {
    if '0' <= c && c <= '9' {
        Some(c as int - 48)
    } else if 'a' <= c && c <= 'f' {
        Some(c as int - 87)
    } else if 'A' <= c && c <= 'F' {
        Some(c as int - 55)
    } else {
        None
    }
}

/// The number written by the hexadecimal digits `s`, most significant first;
/// `None` where a character is not a hexadecimal digit.
pub open spec fn hex_number(s: Seq<char>) -> Option<int>
    decreases s.len(),
{
    if s.len() == 0 {
        Some(0)
    } else {
        match (hex_number(s.drop_last()), hex_value(s.last())) {
            (Some(high), Some(low)) => Some(high * 16 + low),
            _ => None,
        }
    }
}

/// The 32 digits of a hyphenated form: 36 characters with `-` at positions 8,
/// 13, 18 and 23, the hyphens taken out.
pub open spec fn hyphenated_digits(s: Seq<char>) -> Option<Seq<char>> {
    if s.len() == 36 && s[8] == '-' && s[13] == '-' && s[18] == '-' && s[23] == '-' {
        Some(s.subrange(0, 8) + s.subrange(9, 13) + s.subrange(14, 18) + s.subrange(19, 23)
            + s.subrange(24, 36))
    } else {
        None
    }
}

/// `c` in lower case, where it is an ASCII letter.
pub open spec fn ascii_lower(c: char) -> char {
    if 'A' <= c && c <= 'Z' {
        (c as int + 32) as char
    } else {
        c
    }
}

/// The identifier written by 32 hexadecimal digits.
pub open spec fn id_of_digits(digits: Option<Seq<char>>) -> Option<u128> {
    match digits {
        Some(d) => match hex_number(d) {
            Some(n) => Some(n as u128),
            None => None,
        },
        None => None,
    }
}

/// What `uuid::Uuid::parse_str` reads from a text: 32 hexadecimal digits; the
/// hyphenated form; the hyphenated form between `{` and `}`; or `urn:uuid:`
/// (in either case) followed by the hyphenated form. Hexadecimal digits may
/// be of either case. Any other text is refused.
pub open spec fn uuid_parse(s: Seq<char>) -> Option<u128> {
    if s.len() == 32 {
        id_of_digits(Some(s))
    } else if s.len() == 36 {
        id_of_digits(hyphenated_digits(s))
    } else if s.len() == 38 && s[0] == '{' && s[37] == '}' {
        id_of_digits(hyphenated_digits(s.subrange(1, 37)))
    } else if s.len() == 45 && s.take(9).map_values(|c: char| ascii_lower(c)) == "urn:uuid:"@ {
        id_of_digits(hyphenated_digits(s.skip(9)))
    } else {
        None
    }
}

/// Reads an identifier with `uuid::Uuid::parse_str`, which works on the bytes
/// of the text: a text that is not ASCII never reads, so the statement over
/// characters in `uuid_parse` is the same as the crate's over bytes.
#[verifier::external_body]
pub(crate) fn parse_id(s: &str) -> (r: Option<u128>)
    ensures
        r == uuid_parse(s@),
{
    match uuid::Uuid::parse_str(s) {
        Ok(u) => Some(u.as_u128()),
        Err(_) => None,
    }
}

/// The leading `m` hexadecimal digits of `x` determine `x / 16^(32 - m)`.
proof fn lemma_leading_digits(a: u128, b: u128, m: nat)
    requires
        m <= 32,
        forall|k: int| 0 <= k < m ==> uuid_nibble(a, k) == uuid_nibble(b, k),
    ensures
        a as int / pow(16, (32 - m) as nat) == b as int / pow(16, (32 - m) as nat),
    decreases m,
{
    if m == 0 {
        reveal_with_fuel(pow, 33);
        assert(pow(16, 32) == 0x1_0000_0000_0000_0000_0000_0000_0000_0000int);
        vstd::arithmetic::div_mod::lemma_basic_div(a as int, pow(16, 32));
        vstd::arithmetic::div_mod::lemma_basic_div(b as int, pow(16, 32));
    } else {
        lemma_leading_digits(a, b, (m - 1) as nat);
        let q = pow(16, (32 - m) as nat);
        let p = pow(16, (33 - m) as nat);
        reveal(pow);
        assert(p == 16 * q);
        vstd::arithmetic::power::lemma_pow_positive(16, (32 - m) as nat);
        vstd::arithmetic::div_mod::lemma_div_denominator(a as int, q, 16);
        vstd::arithmetic::div_mod::lemma_div_denominator(b as int, q, 16);
        vstd::arithmetic::div_mod::lemma_fundamental_div_mod(a as int / q, 16);
        vstd::arithmetic::div_mod::lemma_fundamental_div_mod(b as int / q, 16);
        assert(uuid_nibble(a, m - 1) == (a as int / q) % 16);
        assert(uuid_nibble(b, m - 1) == (b as int / q) % 16);
        assert(q * 16 == p) by (nonlinear_arith)
            requires
                p == 16 * q,
        ;
        assert(a as int / p == b as int / p);
        assert((a as int / q) / 16 == (b as int / q) / 16);
        assert((a as int / q) % 16 == (b as int / q) % 16);
    }
}

/// Different identifiers have different text forms.
pub proof fn lemma_text_form_injective(a: u128, b: u128)
    requires
        uuid_hyphenated(a) == uuid_hyphenated(b),
    ensures
        a == b,
{
    assert forall|k: int| 0 <= k < 32 implies uuid_nibble(a, k) == uuid_nibble(b, k) by {
        let i = if k < 8 {
            k
        } else if k < 12 {
            k + 1
        } else if k < 16 {
            k + 2
        } else if k < 20 {
            k + 3
        } else {
            k + 4
        };
        assert(!hyphen_position(i) && digit_index(i) == k);
        assert(0 <= i < 36);
        assert(uuid_hyphenated(a)[i] == hex_digit(uuid_nibble(a, k)));
        assert(uuid_hyphenated(b)[i] == hex_digit(uuid_nibble(b, k)));
        assert(uuid_hyphenated(a)[i] == uuid_hyphenated(b)[i]);
        vstd::arithmetic::power::lemma_pow_positive(16, (31 - k) as nat);
        vstd::arithmetic::div_mod::lemma_mod_bound(a as int / pow(16, (31 - k) as nat), 16);
        vstd::arithmetic::div_mod::lemma_mod_bound(b as int / pow(16, (31 - k) as nat), 16);
        assert(0 <= uuid_nibble(a, k) < 16);
        assert(0 <= uuid_nibble(b, k) < 16);
    }
    lemma_leading_digits(a, b, 32);
    reveal(pow);
}

/// The 32 digits of the text form of `id`.
proof fn lemma_digits_of_text_form(id: u128)
    ensures
        hyphenated_digits(uuid_hyphenated(id)) == Some(
            Seq::new(32, |k: int| hex_digit(uuid_nibble(id, k))),
        ),
{
    let h = uuid_hyphenated(id);
    let d = Seq::new(32, |k: int| hex_digit(uuid_nibble(id, k)));
    let g = h.subrange(0, 8) + h.subrange(9, 13) + h.subrange(14, 18) + h.subrange(19, 23)
        + h.subrange(24, 36);
    assert(g =~= d);
}

/// The leading `m` digits of an identifier's text form read as its leading value.
proof fn lemma_read_leading_digits(id: u128, m: nat)
    requires
        m <= 32,
    ensures
        hex_number(Seq::new(32, |k: int| hex_digit(uuid_nibble(id, k))).take(m as int)) == Some(
            id as int / pow(16, (32 - m) as nat),
        ),
    decreases m,
{
    let d = Seq::new(32, |k: int| hex_digit(uuid_nibble(id, k)));
    if m == 0 {
        reveal_with_fuel(pow, 33);
        assert(pow(16, 32) == 0x1_0000_0000_0000_0000_0000_0000_0000_0000int);
        vstd::arithmetic::div_mod::lemma_basic_div(id as int, pow(16, 32));
        assert(d.take(0) =~= Seq::<char>::empty());
    } else {
        lemma_read_leading_digits(id, (m - 1) as nat);
        assert(d.take(m as int).drop_last() =~= d.take(m - 1));
        let q = pow(16, (32 - m) as nat);
        let p = pow(16, (33 - m) as nat);
        reveal(pow);
        assert(p == 16 * q);
        vstd::arithmetic::power::lemma_pow_positive(16, (32 - m) as nat);
        vstd::arithmetic::div_mod::lemma_div_denominator(id as int, q, 16);
        vstd::arithmetic::div_mod::lemma_fundamental_div_mod(id as int / q, 16);
        vstd::arithmetic::div_mod::lemma_mod_bound(id as int / q, 16);
        assert(q * 16 == p) by (nonlinear_arith)
            requires
                p == 16 * q,
        ;
        let n = uuid_nibble(id, m - 1);
        assert(n == (id as int / q) % 16);
        assert(d.take(m as int).last() == hex_digit(n));
        assert(hex_value(hex_digit(n)) == Some(n));
    }
}

/// Reading the text form of an identifier gives the identifier back.
pub proof fn lemma_text_form_reads_back(id: u128)
    ensures
        uuid_parse(uuid_hyphenated(id)) == Some(id),
{
    lemma_digits_of_text_form(id);
    lemma_read_leading_digits(id, 32);
    let d = Seq::new(32, |k: int| hex_digit(uuid_nibble(id, k)));
    assert(d.take(32) =~= d);
    reveal(pow);
}

} // verus!
