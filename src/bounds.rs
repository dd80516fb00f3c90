//! Resolution of a scan request, by prefix or by explicit bounds, into a
//! half-open window `[lower, upper)` and a direction.
use vstd::prelude::*;
use crate::db::RocksDB;
use crate::error::{ErrorKind, HubError};
use crate::keys::{
    agree_before, all_ff, increment, increment_vec_u8, is_prefix, key_eq, key_less, lemma_increment_bounds_family, lemma_lex_asym,
    lemma_lex_total, lemma_lex_trans, lemma_prefix_le, lex_le, lex_lt,
};

verus! {

/// Direction and resumption point of a prefix scan. The page token is the
/// rest of the last key seen after the prefix.
pub struct PageOptions {
    pub reverse: bool,
    pub page_token: Option<Vec<u8>>,
}

impl PageOptions {
    pub open spec fn token(&self) -> Option<Seq<u8>> {
        match self.page_token {
            Some(t) => Some(t@),
            None => None,
        }
    }
}

/// A resolved scan window. Keys from `lower` (left out when `exclusive_lower`
/// holds) up to `upper` (always left out) are visited, in descending order when
/// `reverse` holds.
pub struct IteratorOptions {
    pub lower: Vec<u8>,
    pub upper: Vec<u8>,
    pub reverse: bool,
    pub exclusive_lower: bool,
}

/// A scan request by explicit bounds: exactly one of `gte` and `gt`, and `lt`.
pub struct JsIteratorOptions {
    pub reverse: bool,
    pub gte: Option<Vec<u8>>,
    pub gt: Option<Vec<u8>>,
    pub lt: Vec<u8>,
}

/// Whether key `k` lies in the window `[lower, upper)`, leaving `lower` out when
/// `exclusive` holds.
pub open spec fn in_window(lower: Seq<u8>, upper: Seq<u8>, exclusive: bool, k: Seq<u8>) -> bool {
    lex_le(lower, k) && lex_lt(k, upper) && !(exclusive && k == lower)
}

impl IteratorOptions {
    pub open spec fn contains(&self, k: Seq<u8>) -> bool {
        in_window(self.lower@, self.upper@, self.exclusive_lower, k)
    }
}

/// Lower bound of a prefix scan.
pub open spec fn prefix_lower(prefix: Seq<u8>, reverse: bool, token: Option<Seq<u8>>) -> Seq<u8> {
    if prefix.len() == 0 || reverse {
        prefix
    } else {
        match token {
            Some(t) => increment(prefix + t),
            None => prefix,
        }
    }
}

/// Upper bound of a prefix scan.
pub open spec fn prefix_upper(prefix: Seq<u8>, reverse: bool, token: Option<Seq<u8>>) -> Seq<u8> {
    if prefix.len() == 0 {
        seq![0xFFu8]
    } else if reverse {
        match token {
            Some(t) => prefix + t,
            None => increment(prefix),
        }
    } else {
        increment(prefix)
    }
}

/// Lengths for which a prefix and a page token can be joined and incremented.
pub open spec fn prefix_request_fits(prefix: Seq<u8>, token: Option<Seq<u8>>) -> bool {
    match token {
        Some(t) => prefix.len() + t.len() + 1 < usize::MAX,
        None => prefix.len() + 1 < usize::MAX,
    }
}

/// A prefix scan without a page token covers exactly the keys that start with
/// the prefix, whichever its direction (for a non-empty prefix that is not all
/// 0xFF).
pub proof fn lemma_prefix_scan_covers_family(prefix: Seq<u8>, reverse: bool, k: Seq<u8>)
    requires
        prefix.len() > 0,
        !all_ff(prefix),
    ensures
        in_window(prefix_lower(prefix, reverse, None), prefix_upper(prefix, reverse, None), false, k)
            <==> is_prefix(prefix, k),
{
    lemma_increment_bounds_family(prefix, k);
}

/// A reverse prefix scan without a page token has the same window as the
/// forward one; only the direction differs.
pub proof fn lemma_reverse_scan_same_window(prefix: Seq<u8>)
    ensures
        prefix_lower(prefix, true, None) == prefix_lower(prefix, false, None),
        prefix_upper(prefix, true, None) == prefix_upper(prefix, false, None),
{
}

/// Resuming a forward prefix scan with the page token `token` (the rest of the
/// last key seen, `prefix ++ token`) covers exactly the keys of the prefix's
/// family above that last key. Keys that extend the last key are the one
/// exception, so they are left out here.
pub proof fn lemma_forward_page_resumes_after_last(prefix: Seq<u8>, token: Seq<u8>, k: Seq<u8>)
    requires
        prefix.len() > 0,
        !all_ff(prefix),
        !all_ff(prefix + token),
        !(is_prefix(prefix + token, k) && k.len() > prefix.len() + token.len()),
    ensures
        in_window(
            prefix_lower(prefix, false, Some(token)),
            prefix_upper(prefix, false, Some(token)),
            false,
            k,
        ) <==> (is_prefix(prefix, k) && lex_lt(prefix + token, k)),
{
    let last = prefix + token;
    let next = increment(last);
    let upper = increment(prefix);
    lemma_increment_bounds_family(last, k);
    lemma_increment_bounds_family(prefix, k);
    lemma_increment_bounds_family(last, last);
    assert(is_prefix(prefix, last)) by {
        assert forall|j: int| 0 <= j < prefix.len() implies #[trigger] prefix[j] == last[j] by {}
    }
    lemma_prefix_le(prefix, last);
    if lex_le(next, k) && lex_lt(k, upper) {
        if next != k {
            lemma_lex_trans(last, next, k);
        }
        if prefix != last {
            lemma_lex_trans(prefix, last, k);
        }
    }
    if is_prefix(prefix, k) && lex_lt(last, k) {
        lemma_lex_asym(last, k);
        lemma_lex_total(next, k);
        if lex_lt(k, next) {
            assert(is_prefix(last, k));
            assert(k.len() > last.len()) by {
                if k.len() == last.len() {
                    assert(k =~= last);
                }
            }
        }
    }
}

/// Resuming a reverse prefix scan with the page token `token` (the rest of the
/// last key seen, `prefix ++ token`) covers exactly the keys of the prefix's
/// family below that last key.
pub proof fn lemma_reverse_page_resumes_before_last(prefix: Seq<u8>, token: Seq<u8>, k: Seq<u8>)
    requires
        prefix.len() > 0,
    ensures
        in_window(
            prefix_lower(prefix, true, Some(token)),
            prefix_upper(prefix, true, Some(token)),
            false,
            k,
        ) <==> (is_prefix(prefix, k) && lex_lt(k, prefix + token)),
{
    let last = prefix + token;
    if is_prefix(prefix, k) {
        lemma_prefix_le(prefix, k);
    }
    if lex_le(prefix, k) && lex_lt(k, last) && !is_prefix(prefix, k) {
        if k.len() < last.len() && is_prefix(k, last) {
            if k.len() < prefix.len() {
                assert(is_prefix(k, prefix)) by {
                    assert forall|j: int| 0 <= j < k.len() implies #[trigger] k[j] == prefix[j] by {
                        assert(k[j] == last[j]);
                    }
                }
                lemma_lex_asym(k, prefix);
            } else {
                assert(agree_before(prefix, k, prefix.len() as int)) by {
                    assert forall|j: int| 0 <= j < prefix.len() implies #[trigger] prefix[j] == k[j] by {
                        assert(k[j] == last[j]);
                    }
                }
            }
        } else {
            let n = choose|n: int| #[trigger] crate::keys::first_smaller_at(k, last, n);
            if n < prefix.len() {
                assert(last[n] == prefix[n]);
                assert(crate::keys::first_smaller_at(k, prefix, n)) by {
                    assert forall|j: int| 0 <= j < n implies #[trigger] k[j] == prefix[j] by {
                        assert(k[j] == last[j]);
                    }
                }
                lemma_lex_asym(k, prefix);
            } else {
                assert(agree_before(prefix, k, prefix.len() as int)) by {
                    assert forall|j: int| 0 <= j < prefix.len() implies #[trigger] prefix[j] == k[j] by {
                        assert(k[j] == last[j]);
                    }
                }
            }
        }
    }
}

/// A copy of `s`.
pub fn copy_bytes(s: &[u8]) -> (r: Vec<u8>)
    ensures
        r@ == s@,
{
    let mut r: Vec<u8> = Vec::new();
    let mut i: usize = 0;
    while i < s.len()
        invariant
            i <= s@.len(),
            r@ == s@.subrange(0, i as int),
        decreases s@.len() - i,
    {
        r.push(s[i]);
        i = i + 1;
        assert(r@ =~= s@.subrange(0, i as int));
    }
    assert(r@ =~= s@);
    r
}

/// `a` followed by `b`.
pub fn concat_bytes(a: &[u8], b: &[u8]) -> (r: Vec<u8>)
    ensures
        r@ == a@ + b@,
{
    let mut r = copy_bytes(a);
    let mut i: usize = 0;
    while i < b.len()
        invariant
            i <= b@.len(),
            r@ == a@ + b@.subrange(0, i as int),
        decreases b@.len() - i,
    {
        r.push(b[i]);
        i = i + 1;
        assert(r@ =~= a@ + b@.subrange(0, i as int));
    }
    assert(r@ =~= a@ + b@);
    r
}

/// Builds the window of a prefix scan. An empty prefix covers every key below
/// the single byte 0xFF. Otherwise a forward scan runs from the prefix (or, with
/// a page token, from just past prefix ++ token) up to the prefix's increment;
/// a reverse scan runs from the prefix up to prefix ++ token (or, without one,
/// the prefix's increment).
impl RocksDB {
pub fn get_iterator_options(prefix: &[u8], page_options: &PageOptions) -> (r: IteratorOptions)
    requires
        prefix_request_fits(prefix@, page_options.token()),
    ensures
        r.lower@ == prefix_lower(prefix@, page_options.reverse, page_options.token()),
        r.upper@ == prefix_upper(prefix@, page_options.reverse, page_options.token()),
        r.reverse == page_options.reverse,
        !r.exclusive_lower,
{
    if prefix.len() == 0 {
        return IteratorOptions {
            lower: Vec::new(),
            upper: vec![0xFFu8],
            reverse: page_options.reverse,
            exclusive_lower: false,
        };
    }
    let lower;
    let upper;
    if page_options.reverse {
        lower = copy_bytes(prefix);
        match &page_options.page_token {
            Some(token) => {
                upper = concat_bytes(prefix, token.as_slice());
            },
            None => {
                let p = copy_bytes(prefix);
                upper = increment_vec_u8(&p);
            },
        }
    } else {
        match &page_options.page_token {
            Some(token) => {
                let last_seen = concat_bytes(prefix, token.as_slice());
                lower = increment_vec_u8(&last_seen);
            },
            None => {
                lower = copy_bytes(prefix);
            },
        }
        let p = copy_bytes(prefix);
        upper = increment_vec_u8(&p);
    }
    IteratorOptions { lower, upper, reverse: page_options.reverse, exclusive_lower: false }
}
}

impl JsIteratorOptions {
    /// Exactly one of `gte` and `gt` is given.
    pub open spec fn well_formed(&self) -> bool {
        self.gte.is_some() != self.gt.is_some()
    }

    /// Lower bound: `gte` if given, else `gt`.
    pub open spec fn spec_lower(&self) -> Seq<u8> {
        match self.gte {
            Some(g) => g@,
            None => match self.gt {
                Some(g) => g@,
                None => Seq::empty(),
            },
        }
    }
}

impl IteratorOptions {
    /// Builds the window of a scan by explicit bounds: from `gte` (inclusive) or
    /// `gt` (exclusive) up to `lt`. Fails with `InvalidIteratorOptions` when both
    /// or neither of `gte` and `gt` are given.
    pub fn from_js(js_opts: JsIteratorOptions) -> (r: Result<IteratorOptions, HubError>)
        ensures
            js_opts.well_formed() <==> r is Ok,
            r is Err ==> r->Err_0.kind == ErrorKind::InvalidIteratorOptions,
            r is Ok ==> ({
                let o = r->Ok_0;
                &&& o.lower@ == js_opts.spec_lower()
                &&& o.upper@ == js_opts.lt@
                &&& o.reverse == js_opts.reverse
                &&& o.exclusive_lower == js_opts.gt.is_some()
            }),
    {
        let JsIteratorOptions { reverse, gte, gt, lt } = js_opts;
        match (gte, gt) {
            (Some(_), Some(_)) => Err(
                HubError::new(
                    ErrorKind::InvalidIteratorOptions,
                    "gte and gt cannot be set at the same time".to_string(),
                ),
            ),
            (None, None) => Err(
                HubError::new(ErrorKind::InvalidIteratorOptions, "gte or gt must be set".to_string()),
            ),
            (Some(lower), None) => Ok(
                IteratorOptions { lower, upper: lt, reverse, exclusive_lower: false },
            ),
            (None, Some(lower)) => Ok(
                IteratorOptions { lower, upper: lt, reverse, exclusive_lower: true },
            ),
        }
    }
}

impl IteratorOptions {
    /// Whether `key` lies in this window.
    pub fn admits(&self, key: &[u8]) -> (r: bool)
        ensures
            r == self.contains(key@),
    {
        let is_lower = key_eq(self.lower.as_slice(), key);
        let above_lower = is_lower || key_less(self.lower.as_slice(), key);
        above_lower && key_less(key, self.upper.as_slice()) && !(self.exclusive_lower && is_lower)
    }
}

} // verus!
