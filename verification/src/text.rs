//! Small string operations over the character view of `str` and `String`.
use vstd::prelude::*;
use vstd::string::*;
use vstd::utf8::encode_utf8;

verus! {

/// `s` begins with `prefix`.
pub open spec fn starts_with_seq(s: Seq<char>, prefix: Seq<char>) -> bool {
    prefix.len() <= s.len() && s.subrange(0, prefix.len() as int) == prefix
}

/// `s` ends with `suffix`.
pub open spec fn ends_with_seq(s: Seq<char>, suffix: Seq<char>) -> bool {
    suffix.len() <= s.len() && s.subrange(s.len() - suffix.len(), s.len() as int) == suffix
}

/// `c` occurs somewhere in `s`.
pub open spec fn has_char(s: Seq<char>, c: char) -> bool {
    exists|i: int| 0 <= i < s.len() && s[i] == c
}

/// Appends one character to a string.
#[verifier::external_body]
pub(crate) fn push_char(s: &mut String, c: char)
    ensures
        final(s)@ == old(s)@.push(c),
{
    s.push(c);
}

/// Copies a string slice into a new `String`.
pub fn to_owned_string(s: &str) -> (r: String)
    ensures
        r@ == s@,
{
    s.to_owned()
}

/// Concatenation of two string slices.
pub fn concat2(a: &str, b: &str) -> (r: String)
    ensures
        r@ == a@ + b@,
{
    let mut r = to_owned_string(a);
    r.append(b);
    r
}

/// Whether `s` begins with `prefix`.
pub fn starts_with(s: &str, prefix: &str) -> (b: bool)
    ensures
        b == starts_with_seq(s@, prefix@),
{
    let n = s.unicode_len();
    let m = prefix.unicode_len();
    if m > n {
        return false;
    }
    let mut i: usize = 0;
    while i < m
        invariant
            n == s@.len(),
            m == prefix@.len(),
            m <= n,
            i <= m,
            forall|k: int| 0 <= k < i ==> s@[k] == prefix@[k],
        decreases m - i,
    {
        if s.get_char(i) != prefix.get_char(i) {
            assert(s@.subrange(0, m as int)[i as int] != prefix@[i as int]);
            return false;
        }
        i = i + 1;
    }
    assert(s@.subrange(0, m as int) =~= prefix@);
    true
}

/// Whether `s` ends with `suffix`.
pub fn ends_with(s: &str, suffix: &str) -> (b: bool)
    ensures
        b == ends_with_seq(s@, suffix@),
{
    let n = s.unicode_len();
    let m = suffix.unicode_len();
    if m > n {
        return false;
    }
    let off = n - m;
    let mut i: usize = 0;
    while i < m
        invariant
            n == s@.len(),
            m == suffix@.len(),
            off == n - m,
            i <= m,
            forall|k: int| 0 <= k < i ==> s@[off + k] == suffix@[k],
        decreases m - i,
    {
        if s.get_char(off + i) != suffix.get_char(i) {
            assert(s@.subrange(off as int, n as int)[i as int] != suffix@[i as int]);
            return false;
        }
        i = i + 1;
    }
    assert(s@.subrange(off as int, n as int) =~= suffix@);
    true
}

/// Whether the character `c` occurs in `s`.
pub fn contains_char(s: &str, c: char) -> (b: bool)
    ensures
        b == has_char(s@, c),
{
    let n = s.unicode_len();
    let mut i: usize = 0;
    while i < n
        invariant
            n == s@.len(),
            i <= n,
            forall|k: int| 0 <= k < i ==> s@[k] != c,
        decreases n - i,
    {
        if s.get_char(i) == c {
            return true;
        }
        i = i + 1;
    }
    false
}

/// The decimal digits of `n`, most significant first, without leading zeros.
pub open spec fn decimal(n: nat) -> Seq<char>
    decreases n,
{
    if n < 10 {
        seq![digit_char(n)]
    } else {
        decimal(n / 10).push(digit_char(n % 10))
    }
}

/// The character of a decimal digit.
pub open spec fn digit_char(d: nat) -> char {
    ((48 + d) as u8) as char
}

/// Writes `n` in decimal.
pub fn decimal_string(n: u64) -> (r: String)
    ensures
        r@ == decimal(n as nat),
    decreases n,
{
    if n < 10 {
        let mut r = String::new();
        push_char(&mut r, ((48 + n) as u8) as char);
        r
    } else {
        let mut r = decimal_string(n / 10);
        push_char(&mut r, ((48 + n % 10) as u8) as char);
        r
    }
}

/// `a` comes strictly before `b` in lexicographic order of code points (the
/// order of `str`'s comparison, since UTF-8 keeps the order of code points).
pub open spec fn lex_lt(a: Seq<char>, b: Seq<char>) -> bool
    decreases a.len(),
{
    if b.len() == 0 {
        false
    } else if a.len() == 0 {
        true
    } else if a[0] != b[0] {
        (a[0] as int) < (b[0] as int)
    } else {
        lex_lt(a.drop_first(), b.drop_first())
    }
}

/// No text comes before itself.
pub proof fn lemma_lex_irreflexive(a: Seq<char>)
    ensures
        !lex_lt(a, a),
    decreases a.len(),
{
    if a.len() > 0 {
        lemma_lex_irreflexive(a.drop_first());
    }
}

/// The lexicographic order is transitive.
pub proof fn lemma_lex_transitive(a: Seq<char>, b: Seq<char>, c: Seq<char>)
    requires
        lex_lt(a, b),
        lex_lt(b, c),
    ensures
        lex_lt(a, c),
    decreases a.len(),
{
    if a.len() > 0 && b.len() > 0 && c.len() > 0 && a[0] == b[0] && b[0] == c[0] {
        lemma_lex_transitive(a.drop_first(), b.drop_first(), c.drop_first());
    }
}

/// Of two different texts, one comes before the other.
pub proof fn lemma_lex_total(a: Seq<char>, b: Seq<char>)
    requires
        a != b,
    ensures
        lex_lt(a, b) || lex_lt(b, a),
    decreases a.len(),
{
    if a.len() > 0 && b.len() > 0 && a[0] == b[0] {
        if a.drop_first() =~= b.drop_first() {
            assert forall|k: int| 0 <= k < a.len() implies a[k] == b[k] by {
                if k > 0 {
                    assert(a[k] == a.drop_first()[k - 1]);
                    assert(b[k] == b.drop_first()[k - 1]);
                }
            }
            assert(a =~= b);
        } else {
            lemma_lex_total(a.drop_first(), b.drop_first());
        }
    } else if a.len() == 0 && b.len() == 0 {
        assert(a =~= b);
    } else if a.len() > 0 && b.len() > 0 {
        assert((a[0] as int) != (b[0] as int));
    }
}

/// Whatever `c` is, it comes after `a` or before `b` when `a` comes before `b`.
pub proof fn lemma_lex_split(a: Seq<char>, b: Seq<char>, c: Seq<char>)
    requires
        lex_lt(a, b),
    ensures
        lex_lt(a, c) || lex_lt(c, b),
{
    if c != a && !lex_lt(a, c) {
        lemma_lex_total(a, c);
        lemma_lex_transitive(c, a, b);
    }
}

/// Texts that agree on their first `i` characters compare as their rests do.
proof fn lemma_lex_skip(a: Seq<char>, b: Seq<char>, i: int)
    requires
        0 <= i <= a.len(),
        i <= b.len(),
        forall|k: int| 0 <= k < i ==> a[k] == b[k],
    ensures
        lex_lt(a, b) == lex_lt(a.skip(i), b.skip(i)),
    decreases i,
{
    if i > 0 {
        lemma_lex_skip(a.drop_first(), b.drop_first(), i - 1);
        assert(a.drop_first().skip(i - 1) =~= a.skip(i));
        assert(b.drop_first().skip(i - 1) =~= b.skip(i));
    } else {
        assert(a.skip(0) =~= a);
        assert(b.skip(0) =~= b);
    }
}

/// Whether `a` comes strictly before `b` in lexicographic order.
pub fn text_less(a: &str, b: &str) -> (r: bool)
    ensures
        r == lex_lt(a@, b@),
{
    let n = a.unicode_len();
    let m = b.unicode_len();
    let mut i: usize = 0;
    while i < n && i < m
        invariant
            n == a@.len(),
            m == b@.len(),
            i <= n,
            i <= m,
            forall|k: int| 0 <= k < i ==> a@[k] == b@[k],
        decreases n - i,
    {
        let x = a.get_char(i);
        let y = b.get_char(i);
        if x != y {
            proof {
                lemma_lex_skip(a@, b@, i as int);
                assert(a@.skip(i as int)[0] == x);
                assert(b@.skip(i as int)[0] == y);
            }
            return (x as u32) < (y as u32);
        }
        i = i + 1;
    }
    proof {
        lemma_lex_skip(a@, b@, i as int);
    }
    i < m
}

/// The parts joined, with `sep` between each two.
pub open spec fn join_with(parts: Seq<Seq<char>>, sep: char) -> Seq<char>
    decreases parts.len(),
{
    if parts.len() == 0 {
        Seq::empty()
    } else if parts.len() == 1 {
        parts[0]
    } else {
        join_with(parts.drop_last(), sep).push(sep) + parts.last()
    }
}

/// `s` cut at every occurrence of `sep`: the pieces, none of which holds `sep`,
/// that give back `s` when joined with `sep`. There is always at least one.
pub open spec fn is_split_of(parts: Seq<Seq<char>>, s: Seq<char>, sep: char) -> bool {
    &&& parts.len() > 0
    &&& join_with(parts, sep) == s
    &&& forall|k: int| 0 <= k < parts.len() ==> !has_char(#[trigger] parts[k], sep)
}

/// The pieces of `s` between the occurrences of `sep`, from first to last.
pub open spec fn pieces(s: Seq<char>, sep: char) -> Seq<Seq<char>>
    decreases s.len(),
{
    if s.len() == 0 {
        seq![Seq::empty()]
    } else {
        let p = pieces(s.drop_last(), sep);
        if s.last() == sep {
            p.push(Seq::empty())
        } else {
            p.update(p.len() - 1, p.last().push(s.last()))
        }
    }
}

/// There is always at least one piece.
pub proof fn lemma_pieces_nonempty(s: Seq<char>, sep: char)
    ensures
        pieces(s, sep).len() > 0,
    decreases s.len(),
{
    if s.len() > 0 {
        lemma_pieces_nonempty(s.drop_last(), sep);
    }
}

/// Joining two non-empty runs of parts is joining each and putting `sep` between.
pub proof fn lemma_join_concat(a: Seq<Seq<char>>, b: Seq<Seq<char>>, sep: char)
    requires
        a.len() > 0,
        b.len() > 0,
    ensures
        join_with(a + b, sep) == join_with(a, sep).push(sep) + join_with(b, sep),
    decreases b.len(),
{
    if b.len() == 1 {
        assert((a + b).drop_last() =~= a);
    } else {
        lemma_join_concat(a, b.drop_last(), sep);
        assert((a + b).drop_last() =~= a + b.drop_last());
        assert(join_with(a + b, sep) =~= join_with(a, sep).push(sep) + join_with(b, sep));
    }
}

/// Whatever occurs in a part occurs in the join.
pub proof fn lemma_join_holds_parts(parts: Seq<Seq<char>>, sep: char, k: int, c: char)
    requires
        0 <= k < parts.len(),
        has_char(parts[k], c),
    ensures
        has_char(join_with(parts, sep), c),
    decreases parts.len(),
{
    let i = choose|i: int| 0 <= i < parts[k].len() && parts[k][i] == c;
    if parts.len() > 1 {
        let front = join_with(parts.drop_last(), sep).push(sep);
        if k == parts.len() - 1 {
            assert(join_with(parts, sep)[front.len() + i] == c);
        } else {
            lemma_join_holds_parts(parts.drop_last(), sep, k, c);
            let j = choose|j: int|
                0 <= j < join_with(parts.drop_last(), sep).len() && join_with(parts.drop_last(), sep)[j]
                    == c;
            assert(join_with(parts, sep)[j] == c);
        }
    }
}

/// A join of non-empty parts without `c`, with a separator other than `c`, is
/// non-empty and has no `c`.
pub proof fn lemma_join_lacks(parts: Seq<Seq<char>>, sep: char, c: char)
    requires
        parts.len() > 0,
        sep != c,
        forall|k: int| 0 <= k < parts.len() ==> (#[trigger] parts[k]).len() > 0 && !has_char(parts[k], c),
    ensures
        join_with(parts, sep).len() > 0,
        !has_char(join_with(parts, sep), c),
    decreases parts.len(),
{
    if parts.len() > 1 {
        let rest = parts.drop_last();
        assert(forall|k: int| 0 <= k < rest.len() ==> rest[k] == parts[k]);
        lemma_join_lacks(rest, sep, c);
        let front = join_with(rest, sep).push(sep);
        let last = parts.last();
        assert(parts[parts.len() - 1] == last);
        assert forall|i: int| 0 <= i < join_with(parts, sep).len() implies join_with(parts, sep)[i]
            != c by {
            if i < front.len() - 1 {
                assert(join_with(parts, sep)[i] == join_with(rest, sep)[i]);
            } else if i >= front.len() {
                assert(join_with(parts, sep)[i] == last[i - front.len()]);
            }
        }
    } else {
        assert(parts[0].len() > 0);
    }
}

/// Joining the pieces of `s` with the separator gives back `s`.
pub proof fn lemma_pieces_join(s: Seq<char>, sep: char)
    ensures
        join_with(pieces(s, sep), sep) == s,
    decreases s.len(),
{
    if s.len() > 0 {
        let p = pieces(s.drop_last(), sep);
        lemma_pieces_join(s.drop_last(), sep);
        lemma_pieces_nonempty(s.drop_last(), sep);
        if s.last() == sep {
            assert(p.push(Seq::empty()).drop_last() =~= p);
            assert(join_with(p.push(Seq::empty()), sep) =~= s);
        } else {
            let q = p.update(p.len() - 1, p.last().push(s.last()));
            if p.len() == 1 {
                assert(join_with(q, sep) =~= s);
            } else {
                assert(q.drop_last() =~= p.drop_last());
                assert(q.last() == p.last().push(s.last()));
                assert(join_with(p, sep) == join_with(p.drop_last(), sep).push(sep) + p.last());
                assert(join_with(q, sep) == join_with(p.drop_last(), sep).push(sep) + p.last().push(
                    s.last(),
                ));
                assert(s =~= s.drop_last().push(s.last()));
                assert(join_with(q, sep) =~= s);
            }
        }
    }
}

/// Cuts `s` at every occurrence of `sep`.
pub fn split_at_char(s: &str, sep: char) -> (parts: Vec<String>)
    ensures
        parts.deep_view() == pieces(s@, sep),
        is_split_of(parts.deep_view(), s@, sep),
{
    let n = s.unicode_len();
    let mut parts: Vec<String> = Vec::new();
    let ghost mut ps: Seq<Seq<char>> = Seq::empty();
    let mut cur = String::new();
    let mut i: usize = 0;
    while i < n
        invariant
            n == s@.len(),
            i <= n,
            parts.deep_view() == ps,
            ps.push(cur@) == pieces(s@.take(i as int), sep),
            join_with(ps.push(cur@), sep) == s@.take(i as int),
            forall|k: int| 0 <= k < ps.len() ==> !has_char(#[trigger] ps[k], sep),
            !has_char(cur@, sep),
        decreases n - i,
    {
        let c = s.get_char(i);
        let ghost before = ps.push(cur@);
        assert(s@.take(i + 1) =~= s@.take(i as int).push(c));
        assert(s@.take(i + 1).drop_last() =~= s@.take(i as int));
        proof {
            lemma_pieces_nonempty(s@.take(i as int), sep);
        }
        if c == sep {
            let done = cur;
            parts.push(done);
            cur = String::new();
            proof {
                ps = before;
                assert(parts.deep_view() =~= ps);
                let now = ps.push(cur@);
                assert(now.drop_last() =~= before);
                assert(join_with(now, sep) == join_with(before, sep).push(sep) + cur@);
                assert(join_with(now, sep) =~= s@.take(i + 1));
                assert(now =~= pieces(s@.take(i + 1), sep));
            }
        } else {
            let ghost old_cur = cur@;
            push_char(&mut cur, c);
            proof {
                let now = ps.push(cur@);
                if ps.len() == 0 {
                    assert(join_with(before, sep) == old_cur);
                    assert(join_with(now, sep) == cur@);
                } else {
                    assert(now.drop_last() =~= ps);
                    assert(before.drop_last() =~= ps);
                    assert(join_with(now, sep) == join_with(ps, sep).push(sep) + cur@);
                    assert(join_with(before, sep) == join_with(ps, sep).push(sep) + old_cur);
                }
                assert(join_with(now, sep) =~= s@.take(i + 1));
                assert(now =~= pieces(s@.take(i + 1), sep));
                assert forall|j: int| 0 <= j < cur@.len() implies cur@[j] != sep by {
                    if j < old_cur.len() {
                        assert(cur@[j] == old_cur[j]);
                    }
                }
            }
        }
        i = i + 1;
    }
    let last = cur;
    parts.push(last);
    proof {
        assert(parts.deep_view() =~= ps.push(last@));
        assert(s@.take(n as int) =~= s@);
    }
    parts
}

/// Whether two texts are the same.
pub fn same_text(a: &str, b: &str) -> (r: bool)
    ensures
        r == (a@ == b@),
{
    if a.unicode_len() != b.unicode_len() {
        return false;
    }
    let r = starts_with(a, b);
    proof {
        if r {
            assert(a@ =~= b@);
        }
        if a@ == b@ {
            assert(a@.subrange(0, b@.len() as int) =~= b@);
        }
    }
    r
}

/// A text of `n` characters takes between `n` and `4 * n` bytes in UTF-8.
pub proof fn lemma_utf8_len_bounds(chars: Seq<char>)
    ensures
        chars.len() <= encode_utf8(chars).len() <= 4 * chars.len(),
    decreases chars.len(),
{
    if chars.len() > 0 {
        lemma_utf8_len_bounds(chars.drop_first());
    }
}

/// Appends `n` in decimal.
pub fn append_decimal(s: &mut String, n: u64)
    ensures
        final(s)@ == old(s)@ + decimal(n as nat),
{
    let d = decimal_string(n);
    s.append(d.as_str());
}

/// The length of `s` in bytes of UTF-8.
pub fn byte_len(s: &str) -> (n: usize)
    ensures
        n == encode_utf8(s@).len() as usize,
{
    s.len()
}

/// Whether `c` has the Unicode `White_Space` property.
pub open spec fn is_white_space(c: char) -> bool {
    let n = c as u32;
    ||| 0x09 <= n <= 0x0d
    ||| n == 0x20
    ||| n == 0x85
    ||| n == 0xa0
    ||| n == 0x1680
    ||| 0x2000 <= n <= 0x200a
    ||| n == 0x2028
    ||| n == 0x2029
    ||| n == 0x202f
    ||| n == 0x205f
    ||| n == 0x3000
}

/// `s` without the white space at its start.
pub open spec fn trim_start(s: Seq<char>) -> Seq<char>
    decreases s.len(),
{
    if s.len() > 0 && is_white_space(s[0]) {
        trim_start(s.drop_first())
    } else {
        s
    }
}

/// `s` without the white space at its end.
pub open spec fn trim_end(s: Seq<char>) -> Seq<char>
    decreases s.len(),
{
    if s.len() > 0 && is_white_space(s.last()) {
        trim_end(s.drop_last())
    } else {
        s
    }
}

/// `s` without the white space at its start and end.
pub open spec fn trimmed(s: Seq<char>) -> Seq<char> {
    trim_end(trim_start(s))
}

/// `str::trim`: the text without leading and trailing white space, white space
/// being the characters of the Unicode `White_Space` property, which is what
/// its documentation says.
#[verifier::external_body]
pub(crate) fn trim_text(s: &str) -> (r: &str)
    ensures
        r@ == trimmed(s@),
{
    s.trim()
}

} // verus!
