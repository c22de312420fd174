//! Stable sorting by a strict weak order.
use vstd::prelude::*;

verus! {

/// Values with a strict weak order: `precedes` is irreflexive, transitive, and
/// whenever `a` precedes `b`, any `c` comes after `a` or before `b`.
pub trait Ranked: Sized {
    /// `self` comes strictly before `other`.
    spec fn precedes(&self, other: &Self) -> bool;

    /// Whether `self` comes strictly before `other`.
    fn comes_before(&self, other: &Self) -> (b: bool)
        ensures
            b == self.precedes(other),
    ;

    proof fn lemma_irreflexive(a: &Self)
        ensures
            !a.precedes(a),
    ;

    proof fn lemma_transitive(a: &Self, b: &Self, c: &Self)
        requires
            a.precedes(b),
            b.precedes(c),
        ensures
            a.precedes(c),
    ;

    proof fn lemma_split(a: &Self, b: &Self, c: &Self)
        requires
            a.precedes(b),
        ensures
            a.precedes(c) || c.precedes(b),
    ;
}

/// No element of `s` comes before an element to its left.
pub open spec fn sorted_by_rank<T: Ranked>(s: Seq<T>) -> bool {
    forall|i: int, j: int| #![trigger s[i], s[j]] 0 <= i < j < s.len() ==> !s[j].precedes(&s[i])
}

/// Neither of `a` and `b` comes before the other.
pub open spec fn tied<T: Ranked>(a: T, b: T) -> bool {
    !a.precedes(&b) && !b.precedes(&a)
}

/// `out` holds the elements of `inp`, `out[k]` being `inp[p[k]]`, each taken
/// once, and tied elements keep their order.
pub open spec fn stable_arrangement<T: Ranked>(out: Seq<T>, inp: Seq<T>, p: Seq<int>) -> bool {
    &&& p.len() == inp.len()
    &&& out.len() == inp.len()
    &&& forall|k: int| 0 <= k < p.len() ==> 0 <= #[trigger] p[k] < inp.len() && out[k] == inp[p[k]]
    &&& forall|k: int, l: int| 0 <= k < l < p.len() ==> #[trigger] p[k] != #[trigger] p[l]
    &&& forall|k: int, l: int|
        0 <= k < l < p.len() && tied(#[trigger] out[k], #[trigger] out[l]) ==> p[k] < p[l]
}

/// `out` is `inp` sorted by rank, tied elements in the order they had in `inp`.
pub open spec fn is_stable_sort<T: Ranked>(out: Seq<T>, inp: Seq<T>) -> bool {
    sorted_by_rank(out) && exists|p: Seq<int>| stable_arrangement(out, inp, p)
}

/// Inserting `x` at `pos`, before the first element that it precedes, keeps a
/// sorted arrangement sorted and stable.
proof fn lemma_insert<T: Ranked>(out: Seq<T>, inp: Seq<T>, p: Seq<int>, x: T, pos: int, i: int)
    requires
        0 <= pos <= out.len(),
        out.len() == i,
        p.len() == i,
        i < inp.len(),
        inp[i] == x,
        forall|k: int| 0 <= k < i ==> 0 <= #[trigger] p[k] < i && out[k] == inp[p[k]],
        forall|k: int, l: int| 0 <= k < l < i ==> #[trigger] p[k] != #[trigger] p[l],
        sorted_by_rank(out),
        forall|k: int, l: int| 0 <= k < l < i && tied(#[trigger] out[k], #[trigger] out[l]) ==> p[k] < p[l],
        forall|k: int| 0 <= k < pos ==> !x.precedes(&#[trigger] out[k]),
        pos < out.len() ==> x.precedes(&out[pos]),
    ensures
        ({
            let out2 = out.insert(pos, x);
            let p2 = p.insert(pos, i);
            &&& forall|k: int| 0 <= k < i + 1 ==> 0 <= #[trigger] p2[k] < i + 1 && out2[k] == inp[p2[k]]
            &&& forall|k: int, l: int| 0 <= k < l < i + 1 ==> #[trigger] p2[k] != #[trigger] p2[l]
            &&& sorted_by_rank(out2)
            &&& forall|k: int, l: int|
                0 <= k < l < i + 1 && tied(#[trigger] out2[k], #[trigger] out2[l]) ==> p2[k] < p2[l]
        }),
{
    let out2 = out.insert(pos, x);
    let p2 = p.insert(pos, i);
    // every element at or after `pos` comes after `x`
    assert forall|l: int| pos <= l < out.len() implies x.precedes(&#[trigger] out[l]) by {
        if l > pos {
            T::lemma_split(&x, &out[pos], &out[l]);
        }
    }
    assert forall|l: int| pos <= l < out.len() implies !(#[trigger] out[l]).precedes(&x) by {
        if out[l].precedes(&x) {
            T::lemma_transitive(&out[l], &x, &out[l]);
            T::lemma_irreflexive(&out[l]);
        }
    }
    assert forall|k: int| 0 <= k < i + 1 implies 0 <= #[trigger] p2[k] < i + 1 && out2[k] == inp[p2[k]] by {
        if k < pos {
            assert(p2[k] == p[k]);
        } else if k > pos {
            assert(p2[k] == p[k - 1]);
        }
    }
    assert forall|k: int, l: int| 0 <= k < l < i + 1 implies #[trigger] p2[k] != #[trigger] p2[l] by {
        if k < pos && l < pos {
        } else if k < pos && l == pos {
            assert(p[k] < i);
        } else if k < pos && l > pos {
            assert(p2[l] == p[l - 1]);
        } else if k == pos {
            assert(p2[l] == p[l - 1]);
            assert(p[l - 1] < i);
        } else {
            assert(p2[k] == p[k - 1]);
            assert(p2[l] == p[l - 1]);
        }
    }
    assert forall|a: int, b: int| #![trigger out2[a], out2[b]]
        0 <= a < b < out2.len() implies !out2[b].precedes(&out2[a]) by {
        if b < pos {
        } else if b == pos {
            assert(out2[a] == out[a]);
        } else if a < pos {
            assert(out2[b] == out[b - 1]);
            assert(out2[a] == out[a]);
        } else if a == pos {
            assert(out2[b] == out[b - 1]);
        } else {
            assert(out2[b] == out[b - 1]);
            assert(out2[a] == out[a - 1]);
        }
    }
    assert forall|k: int, l: int|
        0 <= k < l < i + 1 && tied(#[trigger] out2[k], #[trigger] out2[l]) implies p2[k] < p2[l] by {
        if l < pos {
        } else if l == pos {
            assert(p[k] < i);
        } else if k < pos {
            assert(out2[l] == out[l - 1]);
            assert(p2[l] == p[l - 1]);
        } else if k == pos {
            assert(out2[l] == out[l - 1]);
            assert(x.precedes(&out[l - 1]));
        } else {
            assert(out2[l] == out[l - 1]);
            assert(out2[k] == out[k - 1]);
            assert(p2[l] == p[l - 1]);
            assert(p2[k] == p[k - 1]);
        }
    }
}

/// Sorts `v` by rank; tied elements keep their order.
pub fn stable_sort<T: Ranked>(v: Vec<T>) -> (out: Vec<T>)
    ensures
        is_stable_sort(out@, v@),
{
    let ghost inp = v@;
    let mut rest = v;
    let mut out: Vec<T> = Vec::new();
    let ghost mut p: Seq<int> = Seq::empty();
    let n = rest.len();
    let mut i: usize = 0;
    while i < n
        invariant
            n == inp.len(),
            i <= n,
            rest@ == inp.subrange(i as int, n as int),
            out@.len() == i,
            p.len() == i,
            forall|k: int| 0 <= k < i ==> 0 <= #[trigger] p[k] < i && out@[k] == inp[p[k]],
            forall|k: int, l: int| 0 <= k < l < i ==> #[trigger] p[k] != #[trigger] p[l],
            sorted_by_rank(out@),
            forall|k: int, l: int|
                0 <= k < l < i && tied(#[trigger] out@[k], #[trigger] out@[l]) ==> p[k] < p[l],
        decreases n - i,
    {
        let x = rest.remove(0);
        assert(x == inp[i as int]);
        let mut pos: usize = 0;
        while pos < out.len() && !x.comes_before(&out[pos])
            invariant
                pos <= out@.len(),
                forall|k: int| 0 <= k < pos ==> !x.precedes(&#[trigger] out@[k]),
            decreases out@.len() - pos,
        {
            pos = pos + 1;
        }
        proof {
            lemma_insert(out@, inp, p, x, pos as int, i as int);
        }
        out.insert(pos, x);
        proof {
            p = p.insert(pos as int, i as int);
            assert(rest@ =~= inp.subrange(i + 1, n as int));
        }
        i = i + 1;
    }
    assert(stable_arrangement(out@, inp, p));
    out
}

} // verus!
