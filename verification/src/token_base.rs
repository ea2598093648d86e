//! The token store: an owned mapping from opaque token strings to expiry
//! instants in seconds. Entries are created by generation, read by validity
//! and expiry lookups, and never removed; an expired entry simply stops
//! validating. The caller serializes access (one lock around the store) and
//! supplies the current time, so every operation is a pure function of
//! store and clock.

use vstd::prelude::*;

use vstd::seq_lib::*;
use vstd::set_lib::{lemma_int_range, lemma_len_subset, set_int_range};

use crate::text::{
    ascii_char, is_digit_char, lemma_dec_round, push_char, spec_u64_dec, u64_to_dec,
};

verus! {

/// Seconds a freshly generated token stays valid.
pub const TOKEN_TTL_S: u64 = 30;

/// Characters in a token.
pub const TOKEN_LEN: usize = 30;

/// Characters in the token alphabet.
pub const CHARSET_LEN: usize = 73;

/// Random draws before generation falls back to a reserve candidate; with
/// 73 characters in each of 30 positions a collision per draw is next to
/// impossible.
const MAX_ATTEMPTS: usize = 16;

/// The token alphabet: upper- and lower-case letters, digits, and a few
/// symbols.
pub open spec fn spec_charset(i: int) -> char {
    if 0 <= i < 26 {
        (('A' as int + i) as char)
    } else if 26 <= i < 52 {
        (('a' as int + i - 26) as char)
    } else if 52 <= i < 62 {
        (('0' as int + i - 52) as char)
    } else if i == 62 {
        ')'
    } else if i == 63 {
        '('
    } else if i == 64 {
        '*'
    } else if i == 65 {
        '&'
    } else if i == 66 {
        '^'
    } else if i == 67 {
        '%'
    } else if i == 68 {
        '$'
    } else if i == 69 {
        '#'
    } else if i == 70 {
        '@'
    } else if i == 71 {
        '!'
    } else {
        '~'
    }
}

/// A character drawn from the token alphabet.
pub open spec fn is_charset_char(c: char) -> bool {
    exists|j: int| 0 <= j < CHARSET_LEN && c == spec_charset(j)
}

/// A well-formed token: fixed length, all characters from the alphabet.
pub open spec fn spec_token_wf(t: Seq<char>) -> bool {
    t.len() == TOKEN_LEN && (forall|i: int| 0 <= i < t.len() ==> is_charset_char(#[trigger] t[i]))
}

/// The alphabet character at a given index.
fn charset_char(i: usize) -> (r: char)
    requires
        i < CHARSET_LEN,
    ensures
        r == spec_charset(i as int),
{
    if i < 26 {
        ascii_char('A' as u32 + i as u32)
    } else if i < 52 {
        ascii_char('a' as u32 + i as u32 - 26)
    } else if i < 62 {
        ascii_char('0' as u32 + i as u32 - 52)
    } else if i == 62 {
        ')'
    } else if i == 63 {
        '('
    } else if i == 64 {
        '*'
    } else if i == 65 {
        '&'
    } else if i == 66 {
        '^'
    } else if i == 67 {
        '%'
    } else if i == 68 {
        '$'
    } else if i == 69 {
        '#'
    } else if i == 70 {
        '@'
    } else if i == 71 {
        '!'
    } else {
        '~'
    }
}

/// Relies on `rand::random_range`: a uniformly drawn index below the
/// bound; the range must not be empty.
#[verifier::external_body]
fn random_index(bound: usize) -> (r: usize)
    requires
        bound > 0,
    ensures
        r < bound,
{
    rand::random_range(0..bound)
}

/// Draws one random candidate token from the alphabet.
fn random_token() -> (r: String)
    ensures
        spec_token_wf(r@),
{
    let mut s = String::new();
    let mut i: usize = 0;
    while i < TOKEN_LEN
        invariant
            i <= TOKEN_LEN,
            s@.len() == i,
            forall|j: int| 0 <= j < i ==> is_charset_char(#[trigger] s@[j]),
        decreases TOKEN_LEN - i,
    {
        let idx = random_index(CHARSET_LEN);
        let c = charset_char(idx);
        proof {
            assert(is_charset_char(c));
        }
        crate::text::push_char(&mut s, c);
        i += 1;
    }
    s
}

/// The store viewed as an association list from token text to expiry.
pub type StoreView = Seq<(Seq<char>, u64)>;

/// The expiry recorded under `t`, first occurrence.
pub open spec fn spec_expiry_lookup(ps: StoreView, t: Seq<char>) -> Option<u64>
    decreases ps.len(),
{
    if ps.len() == 0 {
        None
    } else if ps[0].0 == t {
        Some(ps[0].1)
    } else {
        spec_expiry_lookup(ps.drop_first(), t)
    }
}

/// Replaces the expiry at the first occurrence of `t`, or appends.
pub open spec fn spec_set_expiry(ps: StoreView, t: Seq<char>, e: u64) -> StoreView
    decreases ps.len(),
{
    if ps.len() == 0 {
        seq![(t, e)]
    } else if ps[0].0 == t {
        seq![(t, e)] + ps.drop_first()
    } else {
        seq![ps[0]] + spec_set_expiry(ps.drop_first(), t, e)
    }
}

/// A token is valid when it is recorded and its expiry is strictly later
/// than now.
pub open spec fn spec_store_valid(ps: StoreView, t: Seq<char>, now_s: u64) -> bool {
    match spec_expiry_lookup(ps, t) {
        Some(e) => e > now_s,
        None => false,
    }
}

/// After a set, lookup sees the new expiry under that token and is
/// unchanged under every other.
pub proof fn lemma_expiry_after_set(ps: StoreView, t: Seq<char>, e: u64, u: Seq<char>)
    ensures
        spec_expiry_lookup(spec_set_expiry(ps, t, e), u) == if u == t {
            Some(e)
        } else {
            spec_expiry_lookup(ps, u)
        },
    decreases ps.len(),
{
    let q = spec_set_expiry(ps, t, e);
    if ps.len() == 0 {
        assert(q == seq![(t, e)]);
        assert(q[0] == (t, e));
        assert(q.drop_first() =~= Seq::<(Seq<char>, u64)>::empty());
        assert(spec_expiry_lookup(Seq::<(Seq<char>, u64)>::empty(), u) is None);
        if u == t {
            assert(spec_expiry_lookup(q, u) == Some(e));
        } else {
            assert(spec_expiry_lookup(q, u) == spec_expiry_lookup(q.drop_first(), u));
        }
    } else if ps[0].0 == t {
        assert(q == seq![(t, e)] + ps.drop_first());
        assert(q[0] == (t, e));
        assert(q.drop_first() =~= ps.drop_first());
        if u == t {
            assert(spec_expiry_lookup(q, u) == Some(e));
        } else {
            assert(spec_expiry_lookup(q, u) == spec_expiry_lookup(ps.drop_first(), u));
            assert(spec_expiry_lookup(ps, u) == spec_expiry_lookup(ps.drop_first(), u));
        }
    } else {
        lemma_expiry_after_set(ps.drop_first(), t, e, u);
        assert(q == seq![ps[0]] + spec_set_expiry(ps.drop_first(), t, e));
        assert(q[0] == ps[0]);
        assert(q.drop_first() =~= spec_set_expiry(ps.drop_first(), t, e));
        if ps[0].0 == u {
            assert(spec_expiry_lookup(q, u) == Some(ps[0].1));
            assert(spec_expiry_lookup(ps, u) == Some(ps[0].1));
        } else {
            assert(spec_expiry_lookup(q, u) == spec_expiry_lookup(
                spec_set_expiry(ps.drop_first(), t, e),
                u,
            ));
            assert(spec_expiry_lookup(ps, u) == spec_expiry_lookup(ps.drop_first(), u));
        }
    }
}

/// Where the first `i` tokens differ from `t`, setting skips over them.
proof fn lemma_set_expiry_skip(ps: StoreView, t: Seq<char>, e: u64, i: int)
    requires
        0 <= i <= ps.len(),
        forall|j: int| 0 <= j < i ==> ps[j].0 != t,
    ensures
        spec_set_expiry(ps, t, e) == ps.subrange(0, i) + spec_set_expiry(
            ps.subrange(i, ps.len() as int),
            t,
            e,
        ),
    decreases i,
{
    if i == 0 {
        assert(ps.subrange(0, ps.len() as int) =~= ps);
        assert(spec_set_expiry(ps, t, e) =~= ps.subrange(0, 0) + spec_set_expiry(
            ps.subrange(0, ps.len() as int),
            t,
            e,
        ));
    } else {
        lemma_set_expiry_skip(ps.drop_first(), t, e, i - 1);
        assert(ps.drop_first().subrange(0, i - 1) =~= ps.subrange(1, i));
        assert(ps.drop_first().subrange(i - 1, ps.drop_first().len() as int) =~= ps.subrange(
            i,
            ps.len() as int,
        ));
        assert(spec_set_expiry(ps, t, e) == seq![ps[0]] + spec_set_expiry(ps.drop_first(), t, e));
        assert(seq![ps[0]] + (ps.subrange(1, i) + spec_set_expiry(
            ps.subrange(i, ps.len() as int),
            t,
            e,
        )) =~= ps.subrange(0, i) + spec_set_expiry(ps.subrange(i, ps.len() as int), t, e));
    }
}

/// The token store. Expired entries are never swept, so the store only
/// grows until the process ends; callers must not assume a bounded size.
#[derive(Debug)]
pub struct TokenBase {
    tokens: Vec<(String, u64)>,
}

impl View for TokenBase {
    type V = StoreView;

    closed spec fn view(&self) -> StoreView {
        self.tokens.deep_view()
    }
}

impl TokenBase {
    /// An empty store.
    pub fn new() -> (r: TokenBase)
        ensures
            r@ == Seq::<(Seq<char>, u64)>::empty(),
    {
        let r = TokenBase { tokens: Vec::new() };
        proof {
            assert(r@ =~= Seq::<(Seq<char>, u64)>::empty());
        }
        r
    }

    /// Records `expiry` under `token`: replaces the first occurrence, or
    /// appends.
    pub fn insert_token(&mut self, token: &String, expiry: u64)
        ensures
            final(self)@ == spec_set_expiry(old(self)@, token@, expiry),
    {
        let mut i: usize = 0;
        while i < self.tokens.len()
            invariant
                i <= self.tokens@.len(),
                self.tokens@ == old(self).tokens@,
                forall|j: int| 0 <= j < i ==> self@[j].0 != token@,
            decreases self.tokens@.len() - i,
        {
            if crate::text::str_eq(self.tokens[i].0.as_str(), token.as_str()) {
                let ghost prev = self@;
                let ghost n = prev.len();
                proof {
                    assert(prev[i as int] == (self.tokens@[i as int].0@, self.tokens@[i as int].1));
                    assert(prev[i as int].0 == token@);
                }
                self.tokens.set(i, (token.clone(), expiry));
                proof {
                    lemma_set_expiry_skip(prev, token@, expiry, i as int);
                    let seg = prev.subrange(i as int, n as int);
                    assert(seg[0] == prev[i as int]);
                    assert(spec_set_expiry(seg, token@, expiry) == seq![(token@, expiry)]
                        + seg.drop_first());
                    assert(seg.drop_first() =~= prev.subrange(i as int + 1, n as int));
                    let target = prev.subrange(0, i as int) + (seq![(token@, expiry)]
                        + prev.subrange(i as int + 1, n as int));
                    assert(spec_set_expiry(prev, token@, expiry) == target);
                    assert forall|j: int| 0 <= j < n implies self@[j] == target[j] by {
                        assert(self@[j] == (self.tokens@[j].0@, self.tokens@[j].1));
                        if j != i {
                            assert(prev[j] == (old(self).tokens@[j].0@, old(self).tokens@[j].1));
                        }
                    }
                    assert(self@ =~= target);
                }
                return ;
            }
            proof {
                assert(self@[i as int] == (self.tokens@[i as int].0@, self.tokens@[i as int].1));
            }
            i += 1;
        }
        let ghost prev = self@;
        let ghost n = prev.len();
        self.tokens.push((token.clone(), expiry));
        proof {
            lemma_set_expiry_skip(prev, token@, expiry, n as int);
            let seg = prev.subrange(n as int, n as int);
            assert(seg.len() == 0);
            assert(spec_set_expiry(seg, token@, expiry) == seq![(token@, expiry)]);
            let target = prev.subrange(0, n as int) + seq![(token@, expiry)];
            assert(spec_set_expiry(prev, token@, expiry) == target);
            assert forall|j: int| 0 <= j < n + 1 implies self@[j] == target[j] by {
                assert(self@[j] == (self.tokens@[j].0@, self.tokens@[j].1));
                if j < n {
                    assert(prev[j] == (old(self).tokens@[j].0@, old(self).tokens@[j].1));
                    assert(prev.subrange(0, n as int)[j] == prev[j]);
                }
            }
            assert(self@ =~= target);
        }
    }

    /// The recorded expiry of `token`, if any.
    pub fn get_expiry(&self, token: &str) -> (r: Option<u64>)
        ensures
            r == spec_expiry_lookup(self@, token@),
    {
        let mut i: usize = 0;
        proof {
            assert(self@.subrange(0, self@.len() as int) =~= self@);
        }
        while i < self.tokens.len()
            invariant
                i <= self.tokens@.len(),
                spec_expiry_lookup(self@, token@) == spec_expiry_lookup(
                    self@.subrange(i as int, self@.len() as int),
                    token@,
                ),
            decreases self.tokens@.len() - i,
        {
            let ghost seg = self@.subrange(i as int, self@.len() as int);
            proof {
                assert(seg[0] == self@[i as int]);
                assert(self@[i as int] == (self.tokens@[i as int].0@, self.tokens@[i as int].1));
            }
            if crate::text::str_eq(self.tokens[i].0.as_str(), token) {
                return Some(self.tokens[i].1);
            }
            proof {
                assert(seg.drop_first() =~= self@.subrange(i as int + 1, self@.len() as int));
            }
            i += 1;
        }
        proof {
            assert(self@.subrange(self@.len() as int, self@.len() as int).len() == 0);
        }
        None
    }

    /// Whether `token` is recorded with an expiry strictly after `now_s`.
    pub fn is_token_valid(&self, token: &str, now_s: u64) -> (r: bool)
        ensures
            r == spec_store_valid(self@, token@, now_s),
    {
        match self.get_expiry(token) {
            Some(e) => e > now_s,
            None => false,
        }
    }

    /// The number of recorded entries, expired ones included.
    pub fn len(&self) -> (r: usize)
        ensures
            r == self@.len(),
    {
        self.tokens.len()
    }
}

// ------------------------------------------------------------------
// The deterministic reserve: among any store's-length-plus-one fixed
// candidates, one is always free
// ------------------------------------------------------------------
/// Ten to the `m`.
spec fn pow10(m: nat) -> int
    decreases m,
{
    if m == 0 {
        1
    } else {
        10 * pow10((m - 1) as nat)
    }
}

/// Numbers below ten-to-the-`m` spell in at most `m` digits.
proof fn lemma_dec_len_bound(n: int, m: nat)
    requires
        n >= 0,
        m >= 1,
        n < pow10(m),
    ensures
        spec_u64_dec(n).len() <= m,
    decreases n,
{
    if n < 10 {
    } else {
        assert(pow10(1) == 10 * pow10(0));
        if m == 1 {
            assert(n < 10);
        }
        vstd::arithmetic::div_mod::lemma_fundamental_div_mod(n, 10);
        assert(pow10(m) == 10 * pow10((m - 1) as nat));
        assert(10 * (n / 10) <= n);
        assert(n / 10 < pow10((m - 1) as nat));
        lemma_dec_len_bound(n / 10, (m - 1) as nat);
        assert(spec_u64_dec(n) == spec_u64_dec(n / 10).push(
            crate::text::spec_digit_char(n % 10),
        ));
    }
}

/// Every number a `u64` can hold spells in at most twenty digits.
proof fn lemma_dec_len_u64(n: u64)
    ensures
        spec_u64_dec(n as int).len() <= 20,
{
    assert(pow10(0) == 1);
    assert(pow10(1) == 10);
    assert(pow10(2) == 100);
    assert(pow10(3) == 1000);
    assert(pow10(4) == 10000);
    assert(pow10(5) == 100000);
    assert(pow10(6) == 1000000);
    assert(pow10(7) == 10000000);
    assert(pow10(8) == 100000000);
    assert(pow10(9) == 1000000000);
    assert(pow10(10) == 10000000000);
    assert(pow10(11) == 100000000000);
    assert(pow10(12) == 1000000000000);
    assert(pow10(13) == 10000000000000);
    assert(pow10(14) == 100000000000000);
    assert(pow10(15) == 1000000000000000);
    assert(pow10(16) == 10000000000000000);
    assert(pow10(17) == 100000000000000000);
    assert(pow10(18) == 1000000000000000000);
    assert(pow10(19) == 10000000000000000000);
    assert(pow10(20) == 100000000000000000000);
    assert((n as int) < pow10(20));
    lemma_dec_len_bound(n as int, 20);
}

/// A run of one repeated character.
pub open spec fn spec_pad(c: char, m: nat) -> Seq<char> {
    Seq::new(m, |i: int| c)
}

/// The reserve candidate for `k`: capital-A padding and then the decimal
/// digits of `k`, thirty characters in all.
pub open spec fn spec_enc_token(k: u64) -> Seq<char> {
    spec_pad('A', (TOKEN_LEN - spec_u64_dec(k as int).len()) as nat) + spec_u64_dec(k as int)
}

/// Reserve candidates are well-formed tokens.
proof fn lemma_enc_token_wf(k: u64)
    ensures
        spec_token_wf(spec_enc_token(k)),
{
    lemma_dec_len_u64(k);
    lemma_dec_round(k);
    let d = spec_u64_dec(k as int);
    let t = spec_enc_token(k);
    assert(t.len() == TOKEN_LEN);
    assert forall|i: int| 0 <= i < t.len() implies is_charset_char(#[trigger] t[i]) by {
        if i < TOKEN_LEN - d.len() {
            assert(t[i] == 'A');
            assert(spec_charset(0) == 'A');
        } else {
            let c = d[i - (TOKEN_LEN - d.len())];
            assert(t[i] == c);
            assert(is_digit_char(c));
            let j = 52 + (c as int - '0' as int);
            assert(spec_charset(j) == c);
        }
    }
}

/// Distinct numbers give distinct reserve candidates.
proof fn lemma_enc_token_injective(k1: u64, k2: u64)
    requires
        spec_enc_token(k1) == spec_enc_token(k2),
    ensures
        k1 == k2,
{
    lemma_dec_len_u64(k1);
    lemma_dec_len_u64(k2);
    lemma_dec_round(k1);
    lemma_dec_round(k2);
    let d1 = spec_u64_dec(k1 as int);
    let d2 = spec_u64_dec(k2 as int);
    if d1.len() == d2.len() {
        assert forall|i: int| 0 <= i < d1.len() implies d1[i] == d2[i] by {
            assert(spec_enc_token(k1)[TOKEN_LEN - d1.len() + i] == d1[i]);
            assert(spec_enc_token(k2)[TOKEN_LEN - d2.len() + i] == d2[i]);
        }
        assert(d1 =~= d2);
        assert(crate::text::spec_dec_val(d1) == k1 && crate::text::spec_dec_val(d2) == k2);
    } else if d1.len() < d2.len() {
        let p = TOKEN_LEN - d2.len();
        assert(spec_enc_token(k1)[p] == 'A');
        assert(spec_enc_token(k2)[p] == d2[0]);
        assert(is_digit_char(d2[0]));
        assert(false);
    } else {
        let p = TOKEN_LEN - d1.len();
        assert(spec_enc_token(k2)[p] == 'A');
        assert(spec_enc_token(k1)[p] == d1[0]);
        assert(is_digit_char(d1[0]));
        assert(false);
    }
}

/// A looked-up token is one of the recorded keys.
proof fn lemma_store_lookup_some_key(ps: StoreView, t: Seq<char>)
    requires
        spec_expiry_lookup(ps, t) is Some,
    ensures
        exists|i: int| 0 <= i < ps.len() && ps[i].0 == t,
    decreases ps.len(),
{
    if ps.len() > 0 && ps[0].0 != t {
        lemma_store_lookup_some_key(ps.drop_first(), t);
        let i = choose|i: int| 0 <= i < ps.drop_first().len() && ps.drop_first()[i].0 == t;
        assert(ps[i + 1].0 == t);
    }
}

/// Among the first store-length-plus-one reserve candidates, at least one
/// is not currently valid: there are more candidates than entries.
proof fn lemma_free_candidate(ps: StoreView, now_s: u64)
    requires
        ps.len() <= u64::MAX,
    ensures
        exists|k: u64| k <= ps.len() && !spec_store_valid(ps, #[trigger] spec_enc_token(k), now_s),
{
    let n = ps.len() as int;
    if forall|k: u64| k <= ps.len() ==> spec_store_valid(ps, #[trigger] spec_enc_token(k), now_s) {
        let w = Seq::<int>::new(
            (n + 1) as nat,
            |k: int|
                choose|i: int| 0 <= i < ps.len() && ps[i].0 == spec_enc_token(k as u64),
        );
        assert forall|k: int| 0 <= k <= n implies 0 <= #[trigger] w[k] < n && ps[w[k]].0
            == spec_enc_token(k as u64) by {
            assert(spec_store_valid(ps, spec_enc_token(k as u64), now_s));
            lemma_store_lookup_some_key(ps, spec_enc_token(k as u64));
        }
        assert(w.no_duplicates()) by {
            assert forall|k1: int, k2: int|
                0 <= k1 < w.len() && 0 <= k2 < w.len() && k1 != k2 implies w[k1] != w[k2] by {
                if w[k1] == w[k2] {
                    assert(ps[w[k1]].0 == spec_enc_token(k1 as u64));
                    assert(ps[w[k2]].0 == spec_enc_token(k2 as u64));
                    lemma_enc_token_injective(k1 as u64, k2 as u64);
                }
            }
        }
        w.unique_seq_to_set();
        assert(w.to_set().subset_of(set_int_range(0, n))) by {
            assert forall|x: int| w.to_set().contains(x) implies set_int_range(0, n).contains(
                x,
            ) by {
                let k = choose|k: int| 0 <= k < w.len() && w[k] == x;
            }
        }
        lemma_int_range(0, n);
        lemma_len_subset(w.to_set(), set_int_range(0, n));
        assert(false);
    }
}

/// The reserve candidate for `k`.
fn enc_token(k: u64) -> (r: String)
    ensures
        r@ == spec_enc_token(k),
{
    proof {
        lemma_dec_len_u64(k);
    }
    let d = u64_to_dec(k);
    let dl = d.as_str().unicode_len();
    let mut s = String::new();
    let mut i: usize = 0;
    while i < TOKEN_LEN - dl
        invariant
            dl == spec_u64_dec(k as int).len(),
            dl <= TOKEN_LEN,
            i <= TOKEN_LEN - dl,
            s@ == spec_pad('A', i as nat),
        decreases TOKEN_LEN - dl - i,
    {
        push_char(&mut s, 'A');
        proof {
            assert(s@ =~= spec_pad('A', (i + 1) as nat));
        }
        i += 1;
    }
    s.append(d.as_str());
    proof {
        assert(s@ =~= spec_enc_token(k));
    }
    s
}

/// The first reserve candidate that is not currently valid; one always
/// exists because there are more candidates than store entries.
fn find_free_token(base: &TokenBase, now_s: u64) -> (r: String)
    ensures
        spec_token_wf(r@),
        !spec_store_valid(base@, r@, now_s),
{
    let n = base.len();
    let mut k: u64 = 0;
    proof {
        lemma_free_candidate(base@, now_s);
    }
    loop
        invariant
            n == base@.len(),
            k <= base@.len(),
            forall|j: u64| j < k ==> spec_store_valid(base@, #[trigger] spec_enc_token(j), now_s),
        decreases base@.len() + 1 - k,
    {
        let cand = enc_token(k);
        if !base.is_token_valid(cand.as_str(), now_s) {
            proof {
                lemma_enc_token_wf(k);
            }
            return cand;
        }
        proof {
            if k == base@.len() {
                lemma_free_candidate(base@, now_s);
                let kk = choose|kk: u64|
                    kk <= base@.len() && !spec_store_valid(
                        base@,
                        #[trigger] spec_enc_token(kk),
                        now_s,
                    );
                assert(spec_store_valid(base@, spec_enc_token(kk), now_s));
                assert(false);
            }
        }
        k = k + 1;
    }
}

/// Generates a fresh token at time `now_s`: draws random candidates until
/// one is not currently valid — in practice the first draw — and falls
/// back to a deterministic reserve candidate should every draw collide;
/// the fresh token is recorded with expiry `now_s` plus the lifetime and
/// returned.
pub fn generate_token(base: &mut TokenBase, now_s: u64) -> (r: String)
    requires
        now_s <= u64::MAX - TOKEN_TTL_S,
    ensures
        spec_token_wf(r@),
        !spec_store_valid(old(base)@, r@, now_s),
        final(base)@ == spec_set_expiry(old(base)@, r@, (now_s + TOKEN_TTL_S) as u64),
        spec_store_valid(final(base)@, r@, now_s),
{
    let mut attempts: usize = 0;
    let mut cand = random_token();
    while attempts < MAX_ATTEMPTS && base.is_token_valid(cand.as_str(), now_s)
        invariant
            base@ == old(base)@,
            spec_token_wf(cand@),
        decreases MAX_ATTEMPTS - attempts,
    {
        cand = random_token();
        attempts += 1;
    }
    if base.is_token_valid(cand.as_str(), now_s) {
        cand = find_free_token(base, now_s);
    }
    base.insert_token(&cand, now_s + TOKEN_TTL_S);
    proof {
        lemma_expiry_after_set(old(base)@, cand@, (now_s + TOKEN_TTL_S) as u64, cand@);
    }
    cand
}

/// The recorded expiry of `token` in `base`.
pub fn get_token_expiry(base: &TokenBase, token: &str) -> (r: Option<u64>)
    ensures
        r == spec_expiry_lookup(base@, token@),
{
    base.get_expiry(token)
}

/// Whether `token` is valid in `base` at time `now_s`.
pub fn get_token_validity(base: &TokenBase, token: &str, now_s: u64) -> (r: bool)
    ensures
        r == spec_store_valid(base@, token@, now_s),
{
    base.is_token_valid(token, now_s)
}

/// A generated token is valid the moment it is made, and no longer valid
/// once its recorded lifetime has passed.
pub proof fn lemma_generated_token_lifetime(
    before: StoreView,
    after: StoreView,
    t: Seq<char>,
    now_s: u64,
    later_s: u64,
)
    requires
        now_s <= u64::MAX - TOKEN_TTL_S,
        after == spec_set_expiry(before, t, (now_s + TOKEN_TTL_S) as u64),
    ensures
        spec_store_valid(after, t, now_s),
        later_s >= now_s + TOKEN_TTL_S ==> !spec_store_valid(after, t, later_s),
{
    lemma_expiry_after_set(before, t, (now_s + TOKEN_TTL_S) as u64, t);
}

/// Tokens from two generations in a row never collide: the second draw
/// rejects anything still valid, and the first token is valid from its
/// creation until its lifetime has passed.
pub proof fn lemma_generate_unique(
    s0: StoreView,
    s1: StoreView,
    s2: StoreView,
    t1: Seq<char>,
    t2: Seq<char>,
    now1_s: u64,
    now2_s: u64,
)
    requires
        now1_s <= u64::MAX - TOKEN_TTL_S,
        now2_s <= u64::MAX - TOKEN_TTL_S,
        s1 == spec_set_expiry(s0, t1, (now1_s + TOKEN_TTL_S) as u64),
        now1_s <= now2_s < now1_s + TOKEN_TTL_S,
        !spec_store_valid(s1, t2, now2_s),
        s2 == spec_set_expiry(s1, t2, (now2_s + TOKEN_TTL_S) as u64),
    ensures
        t1 != t2,
{
    lemma_expiry_after_set(s0, t1, (now1_s + TOKEN_TTL_S) as u64, t1);
    assert(spec_store_valid(s1, t1, now2_s));
}

} // verus!
