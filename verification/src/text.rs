//! Character-level helpers over `String` and `&str`: equality, ASCII
//! lower-casing, and building strings one character at a time.

use vstd::prelude::*;

verus! {

/// Relies on `String::push`: appends exactly the given character.
#[verifier::external_body]
pub fn push_char(s: &mut String, c: char)
    ensures
        final(s)@ == old(s)@.push(c),
{
    s.push(c);
}

/// Relies on `char::from_u32`: the character with the given code point,
/// which exists for every value below 128.
#[verifier::external_body]
pub(crate) fn ascii_char(b: u32) -> (r: char)
    requires
        b < 128,
    ensures
        r == (b as char),
{
    char::from_u32(b).unwrap()
}

/// Builds an owned `String` whose characters are exactly `v`.
pub fn chars_to_string(v: &Vec<char>) -> (r: String)
    ensures
        r@ == v@,
{
    let mut out = String::new();
    let mut i: usize = 0;
    while i < v.len()
        invariant
            i <= v@.len(),
            out@ == v@.subrange(0, i as int),
        decreases v@.len() - i,
    {
        push_char(&mut out, v[i]);
        proof {
            assert(out@ =~= v@.subrange(0, i + 1 as int));
        }
        i += 1;
    }
    proof {
        assert(v@.subrange(0, v@.len() as int) =~= v@);
    }
    out
}

/// Collects the characters of `s` into a vector.
pub fn to_char_vec(s: &str) -> (r: Vec<char>)
    ensures
        r@ == s@,
{
    let len = s.unicode_len();
    let mut out: Vec<char> = Vec::new();
    let mut i: usize = 0;
    while i < len
        invariant
            i <= len,
            len == s@.len(),
            out@ == s@.subrange(0, i as int),
        decreases len - i,
    {
        out.push(s.get_char(i));
        proof {
            assert(out@ =~= s@.subrange(0, i + 1 as int));
        }
        i += 1;
    }
    proof {
        assert(s@.subrange(0, s@.len() as int) =~= s@);
    }
    out
}

/// Character equality of two string slices.
pub fn str_eq(a: &str, b: &str) -> (r: bool)
    ensures
        r == (a@ == b@),
{
    let alen = a.unicode_len();
    let blen = b.unicode_len();
    if alen != blen {
        return false;
    }
    let mut i: usize = 0;
    while i < alen
        invariant
            i <= alen,
            alen == a@.len(),
            alen == b@.len(),
            forall|j: int| 0 <= j < i ==> a@[j] == b@[j],
        decreases alen - i,
    {
        if a.get_char(i) != b.get_char(i) {
            return false;
        }
        i += 1;
    }
    proof {
        assert(a@ =~= b@);
    }
    true
}

/// The whitespace characters recognized when tokenizing and trimming.
pub open spec fn is_space_char(c: char) -> bool {
    c == ' ' || c == '\t' || c == '\r' || c == '\n'
}

/// Whitespace test, matching `is_space_char`.
pub fn is_space(c: char) -> (r: bool)
    ensures
        r == is_space_char(c),
{
    c == ' ' || c == '\t' || c == '\r' || c == '\n'
}

/// The index of the first occurrence of `c` at or after `from`, or the
/// length of `s` when there is none.
pub open spec fn spec_find(s: Seq<char>, c: char, from: int) -> int
    decreases s.len() - from,
{
    if from < 0 || from >= s.len() {
        s.len() as int
    } else if s[from] == c {
        from
    } else {
        spec_find(s, c, from + 1)
    }
}

/// Basic bounds of `spec_find`: the result lies between `from` and the
/// length, no occurrence lies before it, and it points at `c` if in range.
pub proof fn lemma_spec_find(s: Seq<char>, c: char, from: int)
    requires
        0 <= from <= s.len(),
    ensures
        from <= spec_find(s, c, from) <= s.len(),
        spec_find(s, c, from) < s.len() ==> s[spec_find(s, c, from)] == c,
        forall|j: int| from <= j < spec_find(s, c, from) ==> s[j] != c,
    decreases s.len() - from,
{
    if from < s.len() && s[from] != c {
        lemma_spec_find(s, c, from + 1);
    }
}

/// Finds the first occurrence of `c` in `v` at or after `from`.
pub fn find_char(v: &Vec<char>, c: char, from: usize) -> (r: usize)
    requires
        from <= v@.len(),
    ensures
        r == spec_find(v@, c, from as int),
{
    let mut i: usize = from;
    while i < v.len()
        invariant
            from <= i <= v@.len(),
            spec_find(v@, c, from as int) == spec_find(v@, c, i as int),
        decreases v@.len() - i,
    {
        if v[i] == c {
            return i;
        }
        i += 1;
    }
    i
}

/// Whether `c` occurs anywhere in `s`.
pub open spec fn spec_has_char(s: Seq<char>, c: char) -> bool {
    exists|i: int| 0 <= i < s.len() && s[i] == c
}

/// A character occurs iff searching from the start finds it.
pub proof fn lemma_has_find(s: Seq<char>, c: char)
    ensures
        spec_has_char(s, c) <==> spec_find(s, c, 0) < s.len(),
{
    lemma_spec_find(s, c, 0);
    if spec_has_char(s, c) {
        let i = choose|i: int| 0 <= i < s.len() && s[i] == c;
        assert(spec_find(s, c, 0) <= i);
    }
}

/// A character occurs in a concatenation iff it occurs in one of the parts.
pub proof fn lemma_has_concat(a: Seq<char>, b: Seq<char>, c: char)
    ensures
        spec_has_char(a + b, c) <==> spec_has_char(a, c) || spec_has_char(b, c),
{
    if spec_has_char(a + b, c) {
        let i = choose|i: int| 0 <= i < (a + b).len() && (a + b)[i] == c;
        if i < a.len() {
            assert(a[i] == c);
        } else {
            assert(b[i - a.len()] == c);
        }
    }
    if spec_has_char(a, c) {
        let i = choose|i: int| 0 <= i < a.len() && a[i] == c;
        assert((a + b)[i] == c);
    }
    if spec_has_char(b, c) {
        let i = choose|i: int| 0 <= i < b.len() && b[i] == c;
        assert((a + b)[a.len() + i] == c);
    }
}

/// Searching a suffix finds the same first occurrence, shifted.
pub proof fn lemma_find_skip(s: Seq<char>, c: char, i: int)
    requires
        0 <= i <= s.len(),
    ensures
        spec_find(s.skip(i), c, 0) == spec_find(s, c, i) - i,
{
    let t = s.skip(i);
    let a = spec_find(s, c, i);
    let b = spec_find(t, c, 0);
    lemma_spec_find(s, c, i);
    lemma_spec_find(t, c, 0);
    assert(forall|j: int| 0 <= j < t.len() ==> t[j] == s[i + j]);
    if b + i < a {
        assert(t[b] == c);
        assert(s[i + b] == c);
    } else if a < b + i {
        assert(s[a] == c);
        assert(t[a - i] == c);
    }
}

/// Whether `c` occurs anywhere in `v`.
pub fn has_char(v: &Vec<char>, c: char) -> (r: bool)
    ensures
        r == spec_has_char(v@, c),
{
    let idx = find_char(v, c, 0);
    proof {
        lemma_has_find(v@, c);
    }
    idx < v.len()
}

/// Copies the characters of `v` in the range `from..to`.
pub fn copy_range(v: &Vec<char>, from: usize, to: usize) -> (r: Vec<char>)
    requires
        from <= to <= v@.len(),
    ensures
        r@ == v@.subrange(from as int, to as int),
{
    let mut out: Vec<char> = Vec::new();
    let mut i: usize = from;
    while i < to
        invariant
            from <= i <= to <= v@.len(),
            out@ == v@.subrange(from as int, i as int),
        decreases to - i,
    {
        out.push(v[i]);
        proof {
            assert(out@ =~= v@.subrange(from as int, i + 1 as int));
        }
        i += 1;
    }
    out
}

/// Drops leading whitespace.
pub open spec fn spec_trim_start(s: Seq<char>) -> Seq<char>
    decreases s.len(),
{
    if s.len() > 0 && is_space_char(s[0]) {
        spec_trim_start(s.drop_first())
    } else {
        s
    }
}

/// Drops trailing whitespace.
pub open spec fn spec_trim_end(s: Seq<char>) -> Seq<char>
    decreases s.len(),
{
    if s.len() > 0 && is_space_char(s[s.len() - 1]) {
        spec_trim_end(s.drop_last())
    } else {
        s
    }
}

/// Drops whitespace from both ends.
pub open spec fn spec_trim(s: Seq<char>) -> Seq<char> {
    spec_trim_end(spec_trim_start(s))
}

/// A sequence with neither leading nor trailing whitespace trims to itself.
pub proof fn lemma_trim_of_trimmed(s: Seq<char>)
    requires
        s.len() > 0 ==> !is_space_char(s[0]) && !is_space_char(s[s.len() - 1]),
    ensures
        spec_trim(s) == s,
{
}

/// Trims whitespace from both ends of a character vector.
pub fn trim(v: &Vec<char>) -> (r: Vec<char>)
    ensures
        r@ == spec_trim(v@),
{
    let mut lo: usize = 0;
    proof {
        assert(v@.subrange(0, v@.len() as int) =~= v@);
    }
    while lo < v.len() && is_space(v[lo])
        invariant
            lo <= v@.len(),
            spec_trim_start(v@) == spec_trim_start(v@.subrange(lo as int, v@.len() as int)),
        decreases v@.len() - lo,
    {
        proof {
            assert(v@.subrange(lo as int, v@.len() as int).drop_first() =~= v@.subrange(
                lo as int + 1,
                v@.len() as int,
            ));
        }
        lo += 1;
    }
    proof {
        let seg = v@.subrange(lo as int, v@.len() as int);
        if lo < v@.len() {
            assert(seg[0] == v@[lo as int]);
        }
        assert(spec_trim_start(seg) == seg);
        assert(spec_trim(v@) == spec_trim_end(seg));
    }
    let mut hi: usize = v.len();
    while hi > lo && is_space(v[hi - 1])
        invariant
            lo <= hi <= v@.len(),
            spec_trim(v@) == spec_trim_end(v@.subrange(lo as int, hi as int)),
        decreases hi,
    {
        proof {
            let seg = v@.subrange(lo as int, hi as int);
            assert(seg[seg.len() - 1] == v@[hi - 1]);
            assert(seg.drop_last() =~= v@.subrange(lo as int, hi as int - 1));
        }
        hi -= 1;
    }
    proof {
        let seg = v@.subrange(lo as int, hi as int);
        if hi > lo {
            assert(seg[seg.len() - 1] == v@[hi - 1]);
        }
        assert(spec_trim_end(seg) == seg);
    }
    copy_range(v, lo, hi)
}

/// The whitespace-separated tokens of `s` starting at `from`, skipping any
/// leading run of whitespace before each token.
pub open spec fn spec_tokens_from(s: Seq<char>, from: int) -> Seq<Seq<char>>
    decreases s.len() - from,
    when 0 <= from <= s.len()
    via spec_tokens_from_dec
{
    if from >= s.len() {
        Seq::empty()
    } else if is_space_char(s[from]) {
        spec_tokens_from(s, from + 1)
    } else {
        let end = spec_token_end(s, from);
        seq![s.subrange(from, end)] + spec_tokens_from(s, end)
    }
}

#[via_fn]
proof fn spec_tokens_from_dec(s: Seq<char>, from: int) {
    if 0 <= from && from < s.len() && !is_space_char(s[from]) {
        lemma_spec_token_end(s, from);
    }
}

/// The end of the token that starts at `from`: the first whitespace at or
/// after `from`, or the length of `s`.
pub open spec fn spec_token_end(s: Seq<char>, from: int) -> int
    decreases s.len() - from,
{
    if from < 0 || from >= s.len() {
        s.len() as int
    } else if is_space_char(s[from]) {
        from
    } else {
        spec_token_end(s, from + 1)
    }
}

/// Basic bounds of `spec_token_end`.
pub proof fn lemma_spec_token_end(s: Seq<char>, from: int)
    requires
        0 <= from <= s.len(),
    ensures
        from <= spec_token_end(s, from) <= s.len(),
        spec_token_end(s, from) < s.len() ==> is_space_char(s[spec_token_end(s, from)]),
        forall|j: int| from <= j < spec_token_end(s, from) ==> !is_space_char(s[j]),
    decreases s.len() - from,
{
    if from < s.len() && !is_space_char(s[from]) {
        lemma_spec_token_end(s, from + 1);
    }
}

/// The whitespace-separated tokens of `s`.
pub open spec fn spec_tokens(s: Seq<char>) -> Seq<Seq<char>> {
    spec_tokens_from(s, 0)
}

/// Splits `v` into its whitespace-separated tokens.
pub fn split_ws(v: &Vec<char>) -> (r: Vec<Vec<char>>)
    ensures
        r.deep_view() == spec_tokens(v@),
{
    let mut out: Vec<Vec<char>> = Vec::new();
    let mut i: usize = 0;
    proof {
        assert(out.deep_view() + spec_tokens_from(v@, 0) =~~= spec_tokens(v@));
    }
    while i < v.len()
        invariant
            i <= v@.len(),
            spec_tokens(v@) == out.deep_view() + spec_tokens_from(v@, i as int),
        decreases v@.len() - i,
    {
        if is_space(v[i]) {
            i += 1;
        } else {
            let mut j: usize = i;
            while j < v.len() && !is_space(v[j])
                invariant
                    i <= j <= v@.len(),
                    spec_token_end(v@, i as int) == spec_token_end(v@, j as int),
                decreases v@.len() - j,
            {
                j += 1;
            }
            proof {
                assert(spec_token_end(v@, j as int) == j);
            }
            let tok = copy_range(v, i, j);
            let ghost prev = out.deep_view();
            let ghost rest = spec_tokens_from(v@, i as int);
            out.push(tok);
            proof {
                assert(out.deep_view() =~~= prev + seq![tok@]);
                assert(rest == seq![v@.subrange(i as int, j as int)] + spec_tokens_from(
                    v@,
                    j as int,
                ));
                assert(prev + seq![tok@] + spec_tokens_from(v@, j as int) =~~= prev + rest);
            }
            i = j;
        }
    }
    proof {
        assert(out.deep_view() + spec_tokens_from(v@, v@.len() as int) =~~= out.deep_view());
    }
    out
}

/// The first occurrence characterizes `spec_find`.
pub proof fn lemma_find_first_at(s: Seq<char>, c: char, k: int)
    requires
        0 <= k < s.len(),
        s[k] == c,
        forall|j: int| 0 <= j < k ==> s[j] != c,
    ensures
        spec_find(s, c, 0) == k,
{
    lemma_spec_find(s, c, 0);
    let f = spec_find(s, c, 0);
    if f < k {
        assert(s[f] == c);
    }
}

/// Token ends shift with a suffix.
pub proof fn lemma_token_end_skip(s: Seq<char>, k: int)
    requires
        0 <= k <= s.len(),
    ensures
        spec_token_end(s.skip(k), 0) == spec_token_end(s, k) - k,
{
    let t = s.skip(k);
    let a = spec_token_end(s, k);
    let b = spec_token_end(t, 0);
    lemma_spec_token_end(s, k);
    lemma_spec_token_end(t, 0);
    assert(forall|j: int| 0 <= j < t.len() ==> t[j] == s[k + j]);
    if b + k < a {
        assert(is_space_char(t[b]));
        assert(!is_space_char(s[k + b]));
    } else if a < b + k {
        assert(is_space_char(s[a]));
        assert(!is_space_char(t[a - k]));
    }
}

/// Tokenizing from an offset is tokenizing the suffix.
pub proof fn lemma_tokens_skip(s: Seq<char>, k: int)
    requires
        0 <= k <= s.len(),
    ensures
        spec_tokens_from(s, k) == spec_tokens(s.skip(k)),
    decreases s.len() - k,
{
    let t = s.skip(k);
    if k >= s.len() {
        assert(t.len() == 0);
    } else if is_space_char(s[k]) {
        assert(t[0] == s[k]);
        lemma_tokens_skip(s, k + 1);
        assert(t.skip(1) =~= s.skip(k + 1));
        lemma_tokens_skip(t, 1);
        assert(spec_tokens_from(t, 0) == spec_tokens_from(t, 1));
    } else {
        assert(t[0] == s[k]);
        lemma_token_end_skip(s, k);
        let end = spec_token_end(s, k);
        lemma_spec_token_end(s, k);
        assert(t.subrange(0, end - k) =~= s.subrange(k, end));
        lemma_tokens_skip(s, end);
        lemma_tokens_skip(t, end - k);
        assert(t.skip(end - k) =~= s.skip(end));
        assert(spec_tokens_from(t, 0) == seq![t.subrange(0, end - k)] + spec_tokens_from(
            t,
            end - k,
        ));
    }
}

/// A leading token splits off the front of the token list.
pub proof fn lemma_tokens_step(t: Seq<char>, rest: Seq<char>)
    requires
        t.len() > 0,
        forall|i: int| 0 <= i < t.len() ==> !is_space_char(t[i]),
        rest.len() == 0 || is_space_char(rest[0]),
    ensures
        spec_tokens(t + rest) == seq![t] + spec_tokens(rest),
{
    let s = t + rest;
    assert(s[0] == t[0]);
    let e = spec_token_end(s, 0);
    lemma_spec_token_end(s, 0);
    assert forall|j: int| 0 <= j < t.len() implies !is_space_char(s[j]) by {
        assert(s[j] == t[j]);
    }
    if t.len() < s.len() {
        assert(s[t.len() as int] == rest[0]);
        assert(is_space_char(s[t.len() as int]));
    }
    assert(e == t.len()) by {
        if e < t.len() {
            assert(is_space_char(s[e]));
        }
        if e > t.len() {
            assert(t.len() < s.len());
            assert(!is_space_char(s[t.len() as int]));
        }
    }
    assert(s.subrange(0, e) =~= t);
    lemma_tokens_skip(s, e);
    assert(s.skip(e) =~= rest);
    assert(spec_tokens(s) == seq![t] + spec_tokens_from(s, e));
}

/// A leading whitespace character does not change the tokens.
pub proof fn lemma_tokens_space(c: char, rest: Seq<char>)
    requires
        is_space_char(c),
    ensures
        spec_tokens(seq![c] + rest) == spec_tokens(rest),
{
    let s = seq![c] + rest;
    assert(s[0] == c);
    lemma_tokens_skip(s, 1);
    assert(s.skip(1) =~= rest);
    assert(spec_tokens(s) == spec_tokens_from(s, 1));
}

/// Text that starts with a non-space has at least one token.
pub proof fn lemma_tokens_nonempty(s: Seq<char>)
    requires
        s.len() > 0,
        !is_space_char(s[0]),
    ensures
        spec_tokens(s).len() >= 1,
{
}

/// Dropping one leading whitespace character does not change the start
/// trim.
pub proof fn lemma_trim_start_cons(c: char, w: Seq<char>)
    requires
        is_space_char(c),
    ensures
        spec_trim_start(seq![c] + w) == spec_trim_start(w),
{
    let s = seq![c] + w;
    assert(s.len() > 0);
    assert(s[0] == c);
    assert(s.drop_first() =~= w);
}

/// Dropping one trailing whitespace character does not change the end
/// trim.
pub proof fn lemma_trim_end_snoc(w: Seq<char>, c: char)
    requires
        is_space_char(c),
    ensures
        spec_trim_end(w + seq![c]) == spec_trim_end(w),
{
    let s = w + seq![c];
    assert(s.len() > 0);
    assert(s[s.len() - 1] == c);
    assert(s.drop_last() =~= w);
}

/// Trimming strips one leading space and one trailing carriage return from
/// text with no surrounding whitespace of its own.
pub proof fn lemma_trim_wrapped(v: Seq<char>)
    requires
        v.len() > 0 ==> !is_space_char(v[0]) && !is_space_char(v[v.len() - 1]),
    ensures
        spec_trim(seq![' '] + v + seq!['\r']) == v,
{
    let s = seq![' '] + v + seq!['\r'];
    assert(s =~= seq![' '] + (v + seq!['\r']));
    lemma_trim_start_cons(' ', v + seq!['\r']);
    if v.len() == 0 {
        assert(v + seq!['\r'] =~= seq!['\r'] + Seq::<char>::empty());
        lemma_trim_start_cons('\r', Seq::<char>::empty());
        assert(spec_trim_start(Seq::<char>::empty()) == Seq::<char>::empty());
        assert(spec_trim_end(Seq::<char>::empty()) == Seq::<char>::empty());
        assert(spec_trim(s) =~= v);
    } else {
        assert((v + seq!['\r'])[0] == v[0]);
        assert(spec_trim_start(v + seq!['\r']) == v + seq!['\r']);
        lemma_trim_end_snoc(v, '\r');
        assert(v[v.len() - 1] == v.last());
        assert(spec_trim_end(v) == v);
    }
}

/// The decimal spelling of a number reads back as that number.
pub proof fn lemma_dec_round(n: u64)
    ensures
        spec_dec_val(spec_u64_dec(n as int)) == n,
        spec_u64_dec(n as int).len() > 0,
        forall|i: int|
            0 <= i < spec_u64_dec(n as int).len() ==> is_digit_char(
                #[trigger] spec_u64_dec(n as int)[i],
            ),
        spec_parse_u64(spec_u64_dec(n as int)) == Some(n),
    decreases n,
{
    let d = spec_u64_dec(n as int);
    if n < 10 {
        assert(d == seq![spec_digit_char(n as int)]);
        assert(is_digit_char(d[0]));
        assert(d.drop_last() =~= Seq::<char>::empty());
        assert(spec_dec_val(Seq::<char>::empty()) == 0);
        assert(spec_dec_val(d) == spec_dec_val(d.drop_last()) * 10 + spec_digit_val(d.last()));
        assert(d.last() == spec_digit_char(n as int));
        assert(spec_digit_val(spec_digit_char(n as int)) == n);
    } else {
        lemma_dec_round(n / 10);
        let p = spec_u64_dec((n / 10) as int);
        assert(d == p.push(spec_digit_char((n % 10) as int)));
        assert(d.drop_last() =~= p);
        assert(d.last() == spec_digit_char((n % 10) as int));
        assert(spec_digit_val(spec_digit_char((n % 10) as int)) == n % 10);
        assert(spec_dec_val(d) == spec_dec_val(d.drop_last()) * 10 + spec_digit_val(d.last()));
        assert(spec_dec_val(d) == spec_dec_val(p) * 10 + n % 10);
        assert((n / 10) * 10 + n % 10 == n) by {
            vstd::arithmetic::div_mod::lemma_fundamental_div_mod(n as int, 10);
        }
        assert forall|i: int| 0 <= i < d.len() implies is_digit_char(#[trigger] d[i]) by {
            if i < p.len() {
                assert(d[i] == p[i]);
            }
        }
    }
}

/// The ASCII lower-case image of a character; anything outside `A..=Z` is
/// left unchanged.
pub open spec fn spec_lower_char(c: char) -> char {
    if 'A' <= c && c <= 'Z' {
        (c as u32 + 32) as char
    } else {
        c
    }
}

/// Lower-cases a character sequence, ASCII letters only.
pub open spec fn spec_lower(s: Seq<char>) -> Seq<char> {
    s.map_values(|c: char| spec_lower_char(c))
}

/// ASCII lower-casing of one character.
pub fn lower_char(c: char) -> (r: char)
    ensures
        r == spec_lower_char(c),
{
    match c {
        'A' => 'a',
        'B' => 'b',
        'C' => 'c',
        'D' => 'd',
        'E' => 'e',
        'F' => 'f',
        'G' => 'g',
        'H' => 'h',
        'I' => 'i',
        'J' => 'j',
        'K' => 'k',
        'L' => 'l',
        'M' => 'm',
        'N' => 'n',
        'O' => 'o',
        'P' => 'p',
        'Q' => 'q',
        'R' => 'r',
        'S' => 's',
        'T' => 't',
        'U' => 'u',
        'V' => 'v',
        'W' => 'w',
        'X' => 'x',
        'Y' => 'y',
        'Z' => 'z',
        _ => c,
    }
}

/// ASCII lower-casing of a whole string.
pub fn lower_str(s: &str) -> (r: String)
    ensures
        r@ == spec_lower(s@),
{
    let len = s.unicode_len();
    let mut out = String::new();
    let mut i: usize = 0;
    while i < len
        invariant
            i <= len,
            len == s@.len(),
            out@.len() == i,
            forall|j: int| 0 <= j < i ==> out@[j] == spec_lower_char(s@[j]),
        decreases len - i,
    {
        push_char(&mut out, lower_char(s.get_char(i)));
        i += 1;
    }
    proof {
        assert(out@ =~= spec_lower(s@));
    }
    out
}

/// The decimal digit characters.
pub open spec fn is_digit_char(c: char) -> bool {
    '0' <= c && c <= '9'
}

/// The numeric value of a digit character.
pub open spec fn spec_digit_val(c: char) -> int {
    c as int - '0' as int
}

/// The digit character of a value below ten.
pub open spec fn spec_digit_char(d: int) -> char {
    if d == 0 {
        '0'
    } else if d == 1 {
        '1'
    } else if d == 2 {
        '2'
    } else if d == 3 {
        '3'
    } else if d == 4 {
        '4'
    } else if d == 5 {
        '5'
    } else if d == 6 {
        '6'
    } else if d == 7 {
        '7'
    } else if d == 8 {
        '8'
    } else {
        '9'
    }
}

/// The decimal spelling of a non-negative integer, no leading zeros.
pub open spec fn spec_u64_dec(n: int) -> Seq<char>
    decreases n,
    when n >= 0
{
    if n < 10 {
        seq![spec_digit_char(n)]
    } else {
        spec_u64_dec(n / 10).push(spec_digit_char(n % 10))
    }
}

/// The value of a character sequence read as a decimal numeral.
pub open spec fn spec_dec_val(s: Seq<char>) -> int
    decreases s.len(),
{
    if s.len() == 0 {
        0
    } else {
        spec_dec_val(s.drop_last()) * 10 + spec_digit_val(s.last())
    }
}

/// What a numeral denotes: defined only for non-empty all-digit sequences
/// whose value fits in a `u64`.
pub open spec fn spec_parse_u64(s: Seq<char>) -> Option<u64> {
    if s.len() > 0 && (forall|j: int| 0 <= j < s.len() ==> is_digit_char(s[j])) && spec_dec_val(s)
        <= u64::MAX {
        Some(spec_dec_val(s) as u64)
    } else {
        None
    }
}

/// A digit string's value is non-negative.
pub proof fn lemma_dec_val_nonneg(s: Seq<char>)
    requires
        forall|j: int| 0 <= j < s.len() ==> is_digit_char(s[j]),
    ensures
        spec_dec_val(s) >= 0,
    decreases s.len(),
{
    if s.len() > 0 {
        lemma_dec_val_nonneg(s.drop_last());
    }
}

/// Extending a digit string never decreases its value.
pub proof fn lemma_dec_val_prefix_le(s: Seq<char>, i: int)
    requires
        0 <= i <= s.len(),
        forall|j: int| 0 <= j < s.len() ==> is_digit_char(s[j]),
    ensures
        spec_dec_val(s.subrange(0, i)) <= spec_dec_val(s),
    decreases s.len() - i,
{
    if i < s.len() {
        lemma_dec_val_prefix_le(s, i + 1);
        let a = s.subrange(0, i);
        let b = s.subrange(0, i + 1);
        assert(b.drop_last() =~= a);
        assert(b.last() == s[i]);
        lemma_dec_val_nonneg(a);
        assert(spec_dec_val(b) == spec_dec_val(a) * 10 + spec_digit_val(s[i]));
        assert(spec_dec_val(a) * 10 >= spec_dec_val(a));
    } else {
        assert(s.subrange(0, i) =~= s);
    }
}

/// A digit character of a value below ten.
pub fn digit_char(d: u64) -> (r: char)
    requires
        d < 10,
    ensures
        r == spec_digit_char(d as int),
{
    if d == 0 {
        '0'
    } else if d == 1 {
        '1'
    } else if d == 2 {
        '2'
    } else if d == 3 {
        '3'
    } else if d == 4 {
        '4'
    } else if d == 5 {
        '5'
    } else if d == 6 {
        '6'
    } else if d == 7 {
        '7'
    } else if d == 8 {
        '8'
    } else {
        '9'
    }
}

/// The decimal spelling of `n`.
pub fn u64_to_dec(n: u64) -> (r: String)
    ensures
        r@ == spec_u64_dec(n as int),
    decreases n,
{
    if n < 10 {
        let mut s = String::new();
        push_char(&mut s, digit_char(n));
        proof {
            assert(s@ =~= seq![spec_digit_char(n as int)]);
        }
        s
    } else {
        let mut s = u64_to_dec(n / 10);
        push_char(&mut s, digit_char(n % 10));
        s
    }
}

/// Reads `v` as a decimal numeral; anything that is empty, holds a
/// non-digit, or overflows a `u64` is rejected.
pub fn parse_u64(v: &Vec<char>) -> (r: Option<u64>)
    ensures
        r == spec_parse_u64(v@),
{
    if v.len() == 0 {
        return None;
    }
    let mut acc: u64 = 0;
    let mut i: usize = 0;
    proof {
        assert(v@.subrange(0, 0) =~= Seq::<char>::empty());
    }
    while i < v.len()
        invariant
            i <= v@.len(),
            v@.len() > 0,
            forall|j: int| 0 <= j < i ==> is_digit_char(v@[j]),
            acc == spec_dec_val(v@.subrange(0, i as int)),
        decreases v@.len() - i,
    {
        let c = v[i];
        if !(c >= '0' && c <= '9') {
            return None;
        }
        let d: u64 = ((c as u32) - 48) as u64;
        proof {
            assert(d == spec_digit_val(c));
        }
        if acc > (u64::MAX - d) / 10 {
            proof {
                let m = (u64::MAX - d) as int;
                vstd::arithmetic::div_mod::lemma_fundamental_div_mod(m, 10);
                assert(m % 10 < 10) by {
                    vstd::arithmetic::div_mod::lemma_mod_bound(m, 10);
                }
                let b = v@.subrange(0, i as int + 1);
                assert(b.drop_last() =~= v@.subrange(0, i as int));
                assert(b.last() == c);
                assert(spec_dec_val(b) == acc * 10 + spec_digit_val(c));
                assert(acc * 10 + d > u64::MAX);
                if forall|j: int| 0 <= j < v@.len() ==> is_digit_char(v@[j]) {
                    lemma_dec_val_prefix_le(v@, i as int + 1);
                    assert(spec_dec_val(v@) > u64::MAX);
                }
            }
            return None;
        }
        let ghost prev = acc;
        acc = acc * 10 + d;
        proof {
            let b = v@.subrange(0, i as int + 1);
            assert(b.drop_last() =~= v@.subrange(0, i as int));
            assert(b.last() == c);
            assert(acc == spec_dec_val(b));
        }
        i += 1;
    }
    proof {
        assert(v@.subrange(0, v@.len() as int) =~= v@);
    }
    Some(acc)
}

} // verus!
