//! Byte keys: lexicographic order, prefixes and the increment that turns a
//! prefix into an exclusive upper bound.
use vstd::prelude::*;

verus! {

/// `a` and `b` hold the same bytes at every position below `n`.
pub open spec fn agree_before(a: Seq<u8>, b: Seq<u8>, n: int) -> bool {
    forall|j: int| 0 <= j < n ==> #[trigger] a[j] == b[j]
}

/// `p` is a (not necessarily strict) prefix of `k`.
pub open spec fn is_prefix(p: Seq<u8>, k: Seq<u8>) -> bool {
    p.len() <= k.len() && agree_before(p, k, p.len() as int)
}

/// `a` and `b` first differ at position `n`, where `a` holds the smaller byte.
pub open spec fn first_smaller_at(a: Seq<u8>, b: Seq<u8>, n: int) -> bool {
    0 <= n < a.len() && n < b.len() && agree_before(a, b, n) && a[n] < b[n]
}

/// Strict lexicographic order on unsigned bytes.
pub open spec fn lex_lt(a: Seq<u8>, b: Seq<u8>) -> bool {
    (a.len() < b.len() && is_prefix(a, b)) || exists|n: int| #[trigger] first_smaller_at(a, b, n)
}

pub open spec fn lex_le(a: Seq<u8>, b: Seq<u8>) -> bool {
    a == b || lex_lt(a, b)
}

/// Every byte of `b` is 0xFF (vacuously true of the empty sequence).
pub open spec fn all_ff(b: Seq<u8>) -> bool {
    forall|i: int| 0 <= i < b.len() ==> #[trigger] b[i] == 0xFFu8
}

/// Drops trailing 0xFF bytes and adds one to the last byte that remains.
pub open spec fn carry(b: Seq<u8>) -> Seq<u8>
    decreases b.len(),
{
    if b.len() == 0 {
        b
    } else if b.last() < 0xFFu8 {
        b.drop_last().push((b.last() + 1) as u8)
    } else {
        carry(b.drop_last())
    }
}

/// The lexicographic increment of a key: the carry of `b`, or, when every byte
/// is 0xFF, a run of zero bytes one longer than `b`.
pub open spec fn increment(b: Seq<u8>) -> Seq<u8> {
    if all_ff(b) {
        Seq::new((b.len() + 1) as nat, |_i: int| 0u8)
    } else {
        carry(b)
    }
}

/// The position of the last byte of `b` below 0xFF, as a carry sees it.
pub open spec fn last_below_ff(b: Seq<u8>, i: int) -> bool {
    0 <= i < b.len() && b[i] < 0xFFu8 && forall|j: int| i < j < b.len() ==> #[trigger] b[j] == 0xFFu8
}

proof fn lemma_carry_shape(b: Seq<u8>, i: int)
    requires
        last_below_ff(b, i),
    ensures
        carry(b) == b.subrange(0, i).push((b[i] + 1) as u8),
    decreases b.len(),
{
    if b.last() < 0xFFu8 {
        assert(i == b.len() - 1);
        assert(b.drop_last() =~= b.subrange(0, i));
    } else {
        let c = b.drop_last();
        assert(last_below_ff(c, i));
        lemma_carry_shape(c, i);
        assert(c.subrange(0, i) =~= b.subrange(0, i));
    }
}

proof fn lemma_last_below_ff_exists(b: Seq<u8>) -> (i: int)
    requires
        !all_ff(b),
    ensures
        last_below_ff(b, i),
    decreases b.len(),
{
    if b.last() < 0xFFu8 {
        (b.len() - 1) as int
    } else {
        let c = b.drop_last();
        assert(!all_ff(c)) by {
            let k = choose|k: int| 0 <= k < b.len() && b[k] != 0xFFu8;
            assert(c[k] == b[k]);
        }
        let i = lemma_last_below_ff_exists(c);
        assert(last_below_ff(b, i)) by {
            assert forall|j: int| i < j < b.len() implies #[trigger] b[j] == 0xFFu8 by {
                if j < c.len() {
                    assert(c[j] == b[j]);
                }
            }
        }
        i
    }
}

/// The increment of a key that is not all 0xFF is strictly greater than it, and
/// the keys from `b` (inclusive) up to its increment (exclusive) are exactly the
/// keys that start with `b`.
pub proof fn lemma_increment_bounds_family(b: Seq<u8>, k: Seq<u8>)
    requires
        !all_ff(b),
    ensures
        lex_lt(b, increment(b)),
        (lex_le(b, k) && lex_lt(k, increment(b))) <==> is_prefix(b, k),
{
    let i = lemma_last_below_ff_exists(b);
    lemma_carry_shape(b, i);
    let c = increment(b);
    assert(c.len() == i + 1);
    assert(c[i] == b[i] + 1);
    assert(agree_before(b, c, i));
    assert(first_smaller_at(b, c, i));
    if is_prefix(b, k) {
        assert(k[i] == b[i]);
        assert(agree_before(k, c, i));
        assert(first_smaller_at(k, c, i));
        if k != b {
            assert(k.len() > b.len()) by {
                if k.len() == b.len() {
                    assert(k =~= b);
                }
            }
        }
    }
    if lex_le(b, k) && lex_lt(k, c) && k != b && !is_prefix(b, k) {
        let m = choose|m: int| #[trigger] first_smaller_at(b, k, m);
        if m > i {
            assert(b[m] == 0xFFu8);
        } else if k.len() < c.len() && is_prefix(k, c) {
            assert(k[m] == c[m]);
        } else {
            let n = choose|n: int| #[trigger] first_smaller_at(k, c, n);
            if n < m {
                assert(k[n] == b[n]);
                assert(c[n] == b[n]);
            } else if n == m {
                assert(c[m] == b[m] || m == i);
            } else {
                assert(k[m] == c[m]);
                assert(c[m] == b[m] || m == i);
            }
        }
    }
}

/// A prefix of a key is at most the key.
pub proof fn lemma_prefix_le(p: Seq<u8>, k: Seq<u8>)
    requires
        is_prefix(p, k),
    ensures
        lex_le(p, k),
{
    if p.len() == k.len() {
        assert(p =~= k);
    }
}

proof fn lemma_first_difference(a: Seq<u8>, b: Seq<u8>, n: int)
    requires
        0 <= n <= a.len(),
        n <= b.len(),
    ensures
        agree_before(a, b, n) || exists|m: int|
            0 <= m < n && agree_before(a, b, m) && #[trigger] a[m] != b[m],
    decreases n,
{
    if n > 0 {
        lemma_first_difference(a, b, n - 1);
        if agree_before(a, b, n - 1) && a[n - 1] != b[n - 1] {
            assert(0 <= n - 1 < n && agree_before(a, b, n - 1) && a[n - 1] != b[n - 1]);
        }
    }
}

/// Any two keys are equal or ordered one way.
pub proof fn lemma_lex_total(a: Seq<u8>, b: Seq<u8>)
    ensures
        lex_lt(a, b) || a == b || lex_lt(b, a),
{
    let n = if a.len() <= b.len() { a.len() as int } else { b.len() as int };
    lemma_first_difference(a, b, n);
    if agree_before(a, b, n) {
        if a.len() == b.len() {
            assert(a =~= b);
        } else if a.len() > b.len() {
            assert(agree_before(b, a, n));
        }
    } else {
        let m = choose|m: int| 0 <= m < n && agree_before(a, b, m) && #[trigger] a[m] != b[m];
        if a[m] < b[m] {
            assert(first_smaller_at(a, b, m));
        } else {
            assert(agree_before(b, a, m));
            assert(first_smaller_at(b, a, m));
        }
    }
}

/// The order is strict: no key is below itself, and never both ways.
pub proof fn lemma_lex_asym(a: Seq<u8>, b: Seq<u8>)
    requires
        lex_lt(a, b),
    ensures
        !lex_lt(b, a),
        a != b,
{
    if a.len() < b.len() && is_prefix(a, b) {
        if lex_lt(b, a) {
            let n = choose|n: int| #[trigger] first_smaller_at(b, a, n);
            assert(a[n] == b[n]);
        }
    } else {
        let m = choose|m: int| #[trigger] first_smaller_at(a, b, m);
        if lex_lt(b, a) {
            if b.len() < a.len() && is_prefix(b, a) {
                assert(b[m] == a[m]);
            } else {
                let n = choose|n: int| #[trigger] first_smaller_at(b, a, n);
                if n < m {
                    assert(a[n] == b[n]);
                } else if n > m {
                    assert(a[m] == b[m]);
                }
            }
        }
    }
}

/// The order is transitive.
pub proof fn lemma_lex_trans(a: Seq<u8>, b: Seq<u8>, c: Seq<u8>)
    requires
        lex_lt(a, b),
        lex_lt(b, c),
    ensures
        lex_lt(a, c),
{
    let ab_prefix = a.len() < b.len() && is_prefix(a, b);
    let bc_prefix = b.len() < c.len() && is_prefix(b, c);
    if ab_prefix && bc_prefix {
        assert(agree_before(a, c, a.len() as int)) by {
            assert forall|j: int| 0 <= j < a.len() implies #[trigger] a[j] == c[j] by {
                assert(a[j] == b[j]);
                assert(b[j] == c[j]);
            }
        }
    } else if ab_prefix {
        let n = choose|n: int| #[trigger] first_smaller_at(b, c, n);
        if n < a.len() {
            assert(agree_before(a, c, n)) by {
                assert forall|j: int| 0 <= j < n implies #[trigger] a[j] == c[j] by {
                    assert(a[j] == b[j]);
                    assert(b[j] == c[j]);
                }
            }
            assert(a[n] == b[n]);
            assert(first_smaller_at(a, c, n));
        } else {
            assert(agree_before(a, c, a.len() as int)) by {
                assert forall|j: int| 0 <= j < a.len() implies #[trigger] a[j] == c[j] by {
                    assert(a[j] == b[j]);
                    assert(b[j] == c[j]);
                }
            }
        }
    } else if bc_prefix {
        let m = choose|m: int| #[trigger] first_smaller_at(a, b, m);
        assert(b[m] == c[m]);
        assert(agree_before(a, c, m)) by {
            assert forall|j: int| 0 <= j < m implies #[trigger] a[j] == c[j] by {
                assert(a[j] == b[j]);
                assert(b[j] == c[j]);
            }
        }
        assert(first_smaller_at(a, c, m));
    } else {
        let m = choose|m: int| #[trigger] first_smaller_at(a, b, m);
        let n = choose|n: int| #[trigger] first_smaller_at(b, c, n);
        let d = if m < n { m } else { n };
        assert(agree_before(a, c, d)) by {
            assert forall|j: int| 0 <= j < d implies #[trigger] a[j] == c[j] by {
                assert(a[j] == b[j]);
                assert(b[j] == c[j]);
            }
        }
        if m < n {
            assert(b[m] == c[m]);
        } else if n < m {
            assert(a[n] == b[n]);
        }
        assert(first_smaller_at(a, c, d));
    }
}

/// Returns the lexicographic increment of `bytes`: scanning from the end, the
/// first byte below 0xFF is raised by one and everything after it is cut off;
/// when every byte is 0xFF the result is one zero byte longer than the input,
/// all zeros.
pub fn increment_vec_u8(bytes: &Vec<u8>) -> (r: Vec<u8>)
    requires
        bytes@.len() < usize::MAX,
    ensures
        r@ == increment(bytes@),
{
    let n = bytes.len();
    let mut i: usize = n;
    while i > 0 && bytes[i - 1] == 0xFF
        invariant
            n == bytes@.len(),
            i <= n,
            forall|j: int| i <= j < n ==> #[trigger] bytes@[j] == 0xFFu8,
        decreases i,
    {
        i = i - 1;
    }
    if i == 0 {
        let mut r: Vec<u8> = Vec::new();
        let mut k: usize = 0;
        while k <= n
            invariant
                k <= n + 1,
                n < usize::MAX,
                r@.len() == k,
                forall|j: int| 0 <= j < k ==> #[trigger] r@[j] == 0u8,
            decreases n + 1 - k,
        {
            r.push(0u8);
            k = k + 1;
        }
        assert(all_ff(bytes@));
        assert(r@ =~= Seq::new((bytes@.len() + 1) as nat, |_i: int| 0u8));
        r
    } else {
        let last = i - 1;
        let mut r: Vec<u8> = Vec::new();
        let mut k: usize = 0;
        while k < last
            invariant
                last < n,
                n == bytes@.len(),
                k <= last,
                r@ == bytes@.subrange(0, k as int),
            decreases last - k,
        {
            r.push(bytes[k]);
            k = k + 1;
            assert(r@ =~= bytes@.subrange(0, k as int));
        }
        r.push(bytes[last] + 1);
        proof {
            assert(bytes@[last as int] < 0xFFu8);
            assert(last_below_ff(bytes@, last as int));
            assert(!all_ff(bytes@));
            lemma_carry_shape(bytes@, last as int);
        }
        r
    }
}

/// Whether `a` sorts strictly before `b`, byte by byte, unsigned.
pub fn key_less(a: &[u8], b: &[u8]) -> (r: bool)
    ensures
        r == lex_lt(a@, b@),
{
    let n: usize = if a.len() <= b.len() { a.len() } else { b.len() };
    let mut i: usize = 0;
    while i < n
        invariant
            n <= a@.len(),
            n <= b@.len(),
            n == a@.len() || n == b@.len(),
            i <= n,
            agree_before(a@, b@, i as int),
        decreases n - i,
    {
        if a[i] != b[i] {
            let r = a[i] < b[i];
            proof {
                if r {
                    assert(first_smaller_at(a@, b@, i as int));
                } else {
                    assert(agree_before(b@, a@, i as int));
                    assert(first_smaller_at(b@, a@, i as int));
                    lemma_lex_asym(b@, a@);
                }
            }
            return r;
        }
        i = i + 1;
    }
    proof {
        if a@.len() < b@.len() {
            assert(is_prefix(a@, b@));
        } else {
            if a@.len() == b@.len() {
                assert(a@ =~= b@);
            } else {
                assert(agree_before(b@, a@, n as int));
                assert(is_prefix(b@, a@));
            }
            if lex_lt(a@, b@) {
                if a@ != b@ {
                    lemma_lex_asym(b@, a@);
                } else {
                    lemma_lex_asym(a@, b@);
                }
            }
        }
    }
    a.len() < b.len()
}

/// Whether `a` and `b` hold the same bytes.
pub fn key_eq(a: &[u8], b: &[u8]) -> (r: bool)
    ensures
        r == (a@ == b@),
{
    if a.len() != b.len() {
        return false;
    }
    let mut i: usize = 0;
    while i < a.len()
        invariant
            a@.len() == b@.len(),
            i <= a@.len(),
            agree_before(a@, b@, i as int),
        decreases a@.len() - i,
    {
        if a[i] != b[i] {
            return false;
        }
        i = i + 1;
    }
    assert(a@ =~= b@);
    true
}

} // verus!
