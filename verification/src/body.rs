//! Message bodies: a flat string-to-string object, written on the wire as a
//! JSON object and read back from either JSON or form-urlencoded text.

use vstd::prelude::*;

use crate::kv::{
    PairsView, copy_pairs, kv_get, kv_set, lemma_fold_set_unique, spec_fold_set, spec_keys_unique,
    spec_lookup, spec_set_pair,
};
use crate::text::{
    ascii_char, chars_to_string, copy_range, find_char, has_char, lemma_find_skip,
    lemma_has_concat, lemma_spec_find, spec_find, spec_has_char, to_char_vec,
};

verus! {

// ------------------------------------------------------------------
// JSON string escaping
// ------------------------------------------------------------------
/// How one character is written inside a JSON string literal.
pub open spec fn spec_escape_char(c: char) -> Seq<char> {
    if c == '"' {
        seq!['\\', '"']
    } else if c == '\\' {
        seq!['\\', '\\']
    } else if c == '\n' {
        seq!['\\', 'n']
    } else if c == '\r' {
        seq!['\\', 'r']
    } else if c == '\t' {
        seq!['\\', 't']
    } else {
        seq![c]
    }
}

/// How a whole string is written inside a JSON string literal.
pub open spec fn spec_escape(s: Seq<char>) -> Seq<char>
    decreases s.len(),
{
    if s.len() == 0 {
        Seq::empty()
    } else {
        spec_escape_char(s[0]) + spec_escape(s.drop_first())
    }
}

/// Escaping distributes over appending one character at the back.
pub proof fn lemma_escape_push(s: Seq<char>, c: char)
    ensures
        spec_escape(s.push(c)) == spec_escape(s) + spec_escape_char(c),
    decreases s.len(),
{
    if s.len() == 0 {
        assert(s.push(c)[0] == c);
        assert(s.push(c).drop_first() =~= Seq::<char>::empty());
        assert(spec_escape(s.push(c)) == spec_escape_char(c) + spec_escape(Seq::<char>::empty()));
        assert(spec_escape_char(c) + Seq::<char>::empty() =~= spec_escape_char(c));
        assert(Seq::<char>::empty() + spec_escape_char(c) =~= spec_escape_char(c));
    } else {
        lemma_escape_push(s.drop_first(), c);
        assert(s.push(c).drop_first() =~= s.drop_first().push(c));
        assert(s.push(c)[0] == s[0]);
        assert(spec_escape_char(s[0]) + (spec_escape(s.drop_first()) + spec_escape_char(c)) =~= (
        spec_escape_char(s[0]) + spec_escape(s.drop_first())) + spec_escape_char(c));
    }
}

/// The character a JSON escape code stands for.
pub open spec fn spec_unescape_code(c: char) -> Option<char> {
    if c == '"' {
        Some('"')
    } else if c == '\\' {
        Some('\\')
    } else if c == 'n' {
        Some('\n')
    } else if c == 'r' {
        Some('\r')
    } else if c == 't' {
        Some('\t')
    } else {
        None
    }
}

/// Escapes the characters of `v` for use inside a JSON string literal.
pub fn escape_chars(v: &Vec<char>, out: &mut Vec<char>)
    ensures
        final(out)@ == old(out)@ + spec_escape(v@),
{
    let mut i: usize = 0;
    proof {
        assert(v@.subrange(0, 0) =~= Seq::<char>::empty());
        assert(old(out)@ + spec_escape(v@.subrange(0, 0)) =~= old(out)@);
    }
    while i < v.len()
        invariant
            i <= v@.len(),
            out@ == old(out)@ + spec_escape(v@.subrange(0, i as int)),
        decreases v@.len() - i,
    {
        let c = v[i];
        let ghost pre = v@.subrange(0, i as int);
        if c == '"' {
            out.push('\\');
            out.push('"');
        } else if c == '\\' {
            out.push('\\');
            out.push('\\');
        } else if c == '\n' {
            out.push('\\');
            out.push('n');
        } else if c == '\r' {
            out.push('\\');
            out.push('r');
        } else if c == '\t' {
            out.push('\\');
            out.push('t');
        } else {
            out.push(c);
        }
        proof {
            lemma_escape_push(pre, c);
            assert(pre.push(c) =~= v@.subrange(0, i as int + 1));
            assert(out@ =~= old(out)@ + spec_escape(v@.subrange(0, i as int + 1)));
        }
        i += 1;
    }
    proof {
        assert(v@.subrange(0, v@.len() as int) =~= v@);
    }
}

/// Decodes one JSON escape code.
pub fn unescape_code(c: char) -> (r: Option<char>)
    ensures
        r == spec_unescape_code(c),
{
    if c == '"' {
        Some('"')
    } else if c == '\\' {
        Some('\\')
    } else if c == 'n' {
        Some('\n')
    } else if c == 'r' {
        Some('\r')
    } else if c == 't' {
        Some('\t')
    } else {
        None
    }
}

// ------------------------------------------------------------------
// JSON parsing: string literals, members, whole object
// ------------------------------------------------------------------
/// Reads the remainder of a JSON string literal (the opening quote already
/// consumed): the decoded content and the text after the closing quote.
pub open spec fn spec_parse_jstr(s: Seq<char>) -> Option<(Seq<char>, Seq<char>)>
    decreases s.len(),
{
    if s.len() == 0 {
        None
    } else if s[0] == '"' {
        Some((Seq::empty(), s.drop_first()))
    } else if s[0] == '\\' {
        if s.len() < 2 {
            None
        } else {
            match spec_unescape_code(s[1]) {
                Some(c) => match spec_parse_jstr(s.skip(2)) {
                    Some((r, rest)) => Some((seq![c] + r, rest)),
                    None => None,
                },
                None => None,
            }
        }
    } else {
        match spec_parse_jstr(s.drop_first()) {
            Some((r, rest)) => Some((seq![s[0]] + r, rest)),
            None => None,
        }
    }
}

/// A parsed string literal leaves a strictly shorter remainder.
pub proof fn lemma_parse_jstr_rest(s: Seq<char>)
    requires
        spec_parse_jstr(s) is Some,
    ensures
        spec_parse_jstr(s)->Some_0.1.len() < s.len(),
    decreases s.len(),
{
    if s[0] == '"' {
    } else if s[0] == '\\' {
        lemma_parse_jstr_rest(s.skip(2));
    } else {
        lemma_parse_jstr_rest(s.drop_first());
    }
}

/// Reads the members of a JSON object (the opening brace already consumed,
/// at least one member present): the pairs in order and the text after the
/// closing brace.
pub open spec fn spec_parse_members(s: Seq<char>) -> Option<(PairsView, Seq<char>)>
    decreases s.len(),
    via spec_parse_members_dec
{
    if s.len() == 0 || s[0] != '"' {
        None
    } else {
        match spec_parse_jstr(s.drop_first()) {
            Some((k, r1)) => {
                if r1.len() >= 2 && r1[0] == ':' && r1[1] == '"' {
                    match spec_parse_jstr(r1.skip(2)) {
                        Some((v, r2)) => {
                            if r2.len() >= 1 && r2[0] == ',' {
                                match spec_parse_members(r2.drop_first()) {
                                    Some((rest, r3)) => Some((seq![(k, v)] + rest, r3)),
                                    None => None,
                                }
                            } else if r2.len() >= 1 && r2[0] == '}' {
                                Some((seq![(k, v)], r2.drop_first()))
                            } else {
                                None
                            }
                        },
                        None => None,
                    }
                } else {
                    None
                }
            },
            None => None,
        }
    }
}

#[via_fn]
proof fn spec_parse_members_dec(s: Seq<char>) {
    if s.len() > 0 && s[0] == '"' {
        if spec_parse_jstr(s.drop_first()) is Some {
            lemma_parse_jstr_rest(s.drop_first());
            let r1 = spec_parse_jstr(s.drop_first())->Some_0.1;
            if r1.len() >= 2 && r1[0] == ':' && r1[1] == '"' {
                if spec_parse_jstr(r1.skip(2)) is Some {
                    lemma_parse_jstr_rest(r1.skip(2));
                }
            }
        }
    }
}

/// The remainder after parsed members is never longer than the input.
pub proof fn lemma_parse_members_rest(s: Seq<char>)
    requires
        spec_parse_members(s) is Some,
    ensures
        spec_parse_members(s)->Some_0.1.len() < s.len(),
    decreases s.len(),
{
    let r1 = spec_parse_jstr(s.drop_first())->Some_0.1;
    lemma_parse_jstr_rest(s.drop_first());
    let r2 = spec_parse_jstr(r1.skip(2))->Some_0.1;
    lemma_parse_jstr_rest(r1.skip(2));
    if r2.len() >= 1 && r2[0] == ',' {
        lemma_parse_members_rest(r2.drop_first());
    }
}

/// Reads a whole JSON object of string members.
pub open spec fn spec_parse_json(s: Seq<char>) -> Option<PairsView> {
    if s.len() >= 2 && s[0] == '{' {
        if s.len() == 2 && s[1] == '}' {
            Some(Seq::empty())
        } else {
            match spec_parse_members(s.drop_first()) {
                Some((ps, rest)) => if rest.len() == 0 {
                    Some(ps)
                } else {
                    None
                },
                None => None,
            }
        }
    } else {
        None
    }
}

// ------------------------------------------------------------------
// JSON writing
// ------------------------------------------------------------------
/// One `"key":"value"` member.
pub open spec fn spec_json_entry(k: Seq<char>, v: Seq<char>) -> Seq<char> {
    seq!['"'] + spec_escape(k) + seq!['"', ':', '"'] + spec_escape(v) + seq!['"']
}

/// The members of an object, comma-separated.
pub open spec fn spec_json_members(ps: PairsView) -> Seq<char>
    decreases ps.len(),
{
    if ps.len() == 0 {
        Seq::empty()
    } else if ps.len() == 1 {
        spec_json_entry(ps[0].0, ps[0].1)
    } else {
        spec_json_entry(ps[0].0, ps[0].1) + seq![','] + spec_json_members(ps.drop_first())
    }
}

/// The whole object.
pub open spec fn spec_json_body(ps: PairsView) -> Seq<char> {
    seq!['{'] + spec_json_members(ps) + seq!['}']
}

/// Appending one member at the back of the member list.
pub proof fn lemma_members_push(ps: PairsView, p: (Seq<char>, Seq<char>))
    ensures
        spec_json_members(ps.push(p)) == if ps.len() == 0 {
            spec_json_entry(p.0, p.1)
        } else {
            spec_json_members(ps) + seq![','] + spec_json_entry(p.0, p.1)
        },
    decreases ps.len(),
{
    let q = ps.push(p);
    if ps.len() == 0 {
        assert(q.len() == 1);
        assert(q[0] == p);
    } else {
        lemma_members_push(ps.drop_first(), p);
        assert(q.drop_first() =~= ps.drop_first().push(p));
        assert(q[0] == ps[0]);
        assert(q.len() >= 2);
        if ps.len() == 1 {
            assert(ps.drop_first().len() == 0);
            assert(spec_json_members(q) == spec_json_entry(ps[0].0, ps[0].1) + seq![',']
                + spec_json_entry(p.0, p.1));
            assert(spec_json_members(q) =~= spec_json_members(ps) + seq![','] + spec_json_entry(
                p.0,
                p.1,
            ));
        } else {
            assert(spec_json_members(q) == spec_json_entry(ps[0].0, ps[0].1) + seq![','] + (
            spec_json_members(ps.drop_first()) + seq![','] + spec_json_entry(p.0, p.1)));
            assert(spec_json_members(q) =~= (spec_json_entry(ps[0].0, ps[0].1) + seq![',']
                + spec_json_members(ps.drop_first())) + seq![','] + spec_json_entry(p.0, p.1));
        }
    }
}

/// Writes the pairs as a JSON object.
pub fn json_encode_pairs(ps: &Vec<(String, String)>) -> (r: Vec<char>)
    ensures
        r@ == spec_json_body(ps.deep_view()),
{
    let mut out: Vec<char> = Vec::new();
    out.push('{');
    let mut i: usize = 0;
    proof {
        assert(ps.deep_view().subrange(0, 0) =~= Seq::<(Seq<char>, Seq<char>)>::empty());
        assert(out@ =~= seq!['{'] + spec_json_members(ps.deep_view().subrange(0, 0)));
    }
    while i < ps.len()
        invariant
            i <= ps@.len(),
            out@ == seq!['{'] + spec_json_members(ps.deep_view().subrange(0, i as int)),
        decreases ps@.len() - i,
    {
        let ghost pre = ps.deep_view().subrange(0, i as int);
        if i > 0 {
            out.push(',');
        }
        out.push('"');
        let kc = to_char_vec(ps[i].0.as_str());
        escape_chars(&kc, &mut out);
        out.push('"');
        out.push(':');
        out.push('"');
        let vc = to_char_vec(ps[i].1.as_str());
        escape_chars(&vc, &mut out);
        out.push('"');
        proof {
            let p = ps.deep_view()[i as int];
            assert(p == (ps@[i as int].0@, ps@[i as int].1@));
            lemma_members_push(pre, p);
            assert(pre.push(p) =~= ps.deep_view().subrange(0, i as int + 1));
            if i == 0 {
                assert(out@ =~= seq!['{'] + spec_json_members(
                    ps.deep_view().subrange(0, i as int + 1),
                ));
            } else {
                assert(out@ =~= seq!['{'] + spec_json_members(
                    ps.deep_view().subrange(0, i as int + 1),
                ));
            }
        }
        i += 1;
    }
    out.push('}');
    proof {
        assert(ps.deep_view().subrange(0, ps@.len() as int) =~= ps.deep_view());
        assert(out@ =~= spec_json_body(ps.deep_view()));
    }
    out
}

/// Lifts prepending onto the result of a string-literal parse.
pub open spec fn spec_prepend_jstr(pre: Seq<char>, o: Option<(Seq<char>, Seq<char>)>) -> Option<
    (Seq<char>, Seq<char>),
> {
    match o {
        Some((c, rest)) => Some((pre + c, rest)),
        None => None,
    }
}

/// Reads a JSON string literal starting at `pos` (opening quote already
/// consumed); returns its decoded content and the index after the closing
/// quote.
pub fn parse_jstr_at(v: &Vec<char>, pos: usize) -> (r: Option<(Vec<char>, usize)>)
    requires
        pos <= v@.len(),
    ensures
        r matches Some((content, p2)) ==> pos < p2 <= v@.len() && spec_parse_jstr(
            v@.skip(pos as int),
        ) == Some((content@, v@.skip(p2 as int))),
        r is None ==> spec_parse_jstr(v@.skip(pos as int)) is None,
{
    let mut out: Vec<char> = Vec::new();
    let mut i: usize = pos;
    proof {
        assert(spec_prepend_jstr(out@, spec_parse_jstr(v@.skip(pos as int))) == spec_parse_jstr(
            v@.skip(pos as int),
        ));
    }
    while i < v.len()
        invariant
            pos <= i <= v@.len(),
            spec_parse_jstr(v@.skip(pos as int)) == spec_prepend_jstr(
                out@,
                spec_parse_jstr(v@.skip(i as int)),
            ),
        decreases v@.len() - i,
    {
        let ghost si = v@.skip(i as int);
        let c = v[i];
        proof {
            assert(si[0] == v@[i as int]);
        }
        if c == '"' {
            proof {
                assert(si.drop_first() =~= v@.skip(i as int + 1));
                assert(spec_parse_jstr(si) == Some((Seq::<char>::empty(), v@.skip(i as int + 1))));
                assert(out@ + Seq::<char>::empty() =~= out@);
            }
            return Some((out, i + 1));
        } else if c == '\\' {
            if i + 1 >= v.len() {
                proof {
                    assert(si.len() < 2);
                }
                return None;
            }
            let code = v[i + 1];
            proof {
                assert(si[1] == v@[i as int + 1]);
            }
            match unescape_code(code) {
                Some(d) => {
                    let ghost prev = out@;
                    out.push(d);
                    proof {
                        assert(si.skip(2) =~= v@.skip(i as int + 2));
                        assert(out@ =~= prev + seq![d]);
                        let inner = spec_parse_jstr(v@.skip(i as int + 2));
                        match inner {
                            Some((rc, rr)) => {
                                assert(spec_parse_jstr(si) == Some((seq![d] + rc, rr)));
                                assert(prev + (seq![d] + rc) =~= (prev + seq![d]) + rc);
                            },
                            None => {},
                        }
                    }
                    i += 2;
                },
                None => {
                    return None;
                },
            }
        } else {
            let ghost prev = out@;
            out.push(c);
            proof {
                assert(si.drop_first() =~= v@.skip(i as int + 1));
                assert(out@ =~= prev + seq![c]);
                let inner = spec_parse_jstr(v@.skip(i as int + 1));
                match inner {
                    Some((rc, rr)) => {
                        assert(spec_parse_jstr(si) == Some((seq![c] + rc, rr)));
                        assert(prev + (seq![c] + rc) =~= (prev + seq![c]) + rc);
                    },
                    None => {},
                }
            }
            i += 1;
        }
    }
    proof {
        assert(v@.skip(i as int).len() == 0);
    }
    None
}

/// Lifts prepending onto the result of a members parse.
pub open spec fn spec_prepend_members(pre: PairsView, o: Option<(PairsView, Seq<char>)>) -> Option<
    (PairsView, Seq<char>),
> {
    match o {
        Some((ps, rest)) => Some((pre + ps, rest)),
        None => None,
    }
}

/// Reads the members of a JSON object starting at `pos` (opening brace
/// already consumed); returns the pairs and the index after the closing
/// brace.
pub fn parse_members_at(v: &Vec<char>, pos: usize) -> (r: Option<(Vec<(String, String)>, usize)>)
    requires
        pos <= v@.len(),
    ensures
        r matches Some((ps, p2)) ==> pos < p2 <= v@.len() && spec_parse_members(
            v@.skip(pos as int),
        ) == Some((ps.deep_view(), v@.skip(p2 as int))),
        r is None ==> spec_parse_members(v@.skip(pos as int)) is None,
{
    let mut acc: Vec<(String, String)> = Vec::new();
    let mut i: usize = pos;
    proof {
        assert(acc.deep_view() =~= Seq::<(Seq<char>, Seq<char>)>::empty());
        assert(acc.deep_view() + spec_parse_members(v@.skip(pos as int))->Some_0.0
            =~= spec_parse_members(v@.skip(pos as int))->Some_0.0);
    }
    loop
        invariant
            pos <= i <= v@.len(),
            spec_parse_members(v@.skip(pos as int)) == spec_prepend_members(
                acc.deep_view(),
                spec_parse_members(v@.skip(i as int)),
            ),
        decreases v@.len() - i,
    {
        let ghost si = v@.skip(i as int);
        if i >= v.len() {
            proof {
                assert(si.len() == 0);
            }
            return None;
        }
        proof {
            assert(si[0] == v@[i as int]);
        }
        if v[i] != '"' {
            return None;
        }
        proof {
            assert(si.drop_first() =~= v@.skip(i as int + 1));
        }
        let key = parse_jstr_at(v, i + 1);
        if key.is_none() {
            return None;
        }
        let (kc, p1) = key.unwrap();
        let ghost r1 = v@.skip(p1 as int);
        if v.len() - p1 < 2 {
            proof {
                assert(r1.len() < 2);
            }
            return None;
        }
        proof {
            assert(r1.len() >= 2);
            assert(r1[0] == v@[p1 as int]);
            assert(r1[1] == v@[p1 as int + 1]);
        }
        if !(v[p1] == ':' && v[p1 + 1] == '"') {
            return None;
        }
        proof {
            assert(r1.skip(2) =~= v@.skip(p1 as int + 2));
        }
        let val = parse_jstr_at(v, p1 + 2);
        if val.is_none() {
            return None;
        }
        let (vc, p2) = val.unwrap();
        let ghost r2 = v@.skip(p2 as int);
        let ghost prevacc = acc.deep_view();
        let ghost pair = (kc@, vc@);
        let ks = chars_to_string(&kc);
        let vs = chars_to_string(&vc);
        acc.push((ks, vs));
        proof {
            assert forall|j: int| 0 <= j < acc@.len() implies acc.deep_view()[j] == prevacc.push(
                pair,
            )[j] by {
                assert(acc.deep_view()[j] == (acc@[j].0@, acc@[j].1@));
            }
            assert(acc.deep_view() =~= prevacc.push(pair));
        }
        if p2 < v.len() && v[p2] == ',' {
            proof {
                assert(r2[0] == v@[p2 as int]);
                assert(r2.drop_first() =~= v@.skip(p2 as int + 1));
                let inner = spec_parse_members(v@.skip(p2 as int + 1));
                match inner {
                    Some((rest, r3)) => {
                        assert(spec_parse_members(si) == Some((seq![pair] + rest, r3)));
                        assert(prevacc + (seq![pair] + rest) =~= prevacc.push(pair) + rest);
                    },
                    None => {
                        assert(spec_parse_members(si) is None);
                    },
                }
            }
            i = p2 + 1;
        } else if p2 < v.len() && v[p2] == '}' {
            proof {
                assert(r2[0] == v@[p2 as int]);
                assert(r2.len() >= 1 && r2[0] != ',');
                assert(r2.drop_first() =~= v@.skip(p2 as int + 1));
                assert(spec_parse_members(si) == Some((seq![pair], r2.drop_first())));
                assert(prevacc + seq![pair] =~= prevacc.push(pair));
            }
            return Some((acc, p2 + 1));
        } else {
            proof {
                if r2.len() >= 1 {
                    assert(r2[0] == v@[p2 as int]);
                }
            }
            return None;
        }
    }
}

/// Reads a whole JSON object of string members.
pub fn json_decode(v: &Vec<char>) -> (r: Option<Vec<(String, String)>>)
    ensures
        r matches Some(ps) ==> spec_parse_json(v@) == Some(ps.deep_view()),
        r is None ==> spec_parse_json(v@) is None,
{
    if v.len() < 2 {
        return None;
    }
    if v[0] != '{' {
        return None;
    }
    if v.len() == 2 && v[1] == '}' {
        let empty: Vec<(String, String)> = Vec::new();
        proof {
            assert(empty.deep_view() =~= Seq::<(Seq<char>, Seq<char>)>::empty());
        }
        return Some(empty);
    }
    proof {
        assert(v@.drop_first() =~= v@.skip(1));
    }
    match parse_members_at(v, 1) {
        Some((ps, p)) => {
            if p == v.len() {
                proof {
                    assert(v@.skip(p as int).len() == 0);
                }
                Some(ps)
            } else {
                proof {
                    assert(v@.skip(p as int).len() > 0);
                }
                None
            }
        },
        None => None,
    }
}

// ------------------------------------------------------------------
// Round trip: parsing what was written gives the pairs back
// ------------------------------------------------------------------
/// Parsing an escaped string literal recovers the original text.
pub proof fn lemma_parse_jstr_round(x: Seq<char>, tail: Seq<char>)
    ensures
        spec_parse_jstr(spec_escape(x) + seq!['"'] + tail) == Some((x, tail)),
    decreases x.len(),
{
    let s = spec_escape(x) + seq!['"'] + tail;
    if x.len() == 0 {
        assert(s =~= seq!['"'] + tail);
        assert(s[0] == '"');
        assert(s.drop_first() =~= tail);
        assert(x =~= Seq::<char>::empty());
    } else {
        let c = x[0];
        let x1 = x.drop_first();
        lemma_parse_jstr_round(x1, tail);
        let s1 = spec_escape(x1) + seq!['"'] + tail;
        assert(spec_escape(x) == spec_escape_char(c) + spec_escape(x1));
        if c == '"' || c == '\\' || c == '\n' || c == '\r' || c == '\t' {
            let code = spec_escape_char(c)[1];
            assert(s[0] == '\\');
            assert(s.len() >= 2);
            assert(s[1] == code);
            assert(spec_unescape_code(code) == Some(c));
            assert(s.skip(2) =~= s1);
            assert(seq![c] + x1 =~= x);
        } else {
            assert(spec_escape_char(c) == seq![c]);
            assert(s[0] == c);
            assert(c != '"' && c != '\\');
            assert(s.drop_first() =~= s1);
            assert(seq![c] + x1 =~= x);
        }
    }
}

/// Parsing written members recovers the pairs.
pub proof fn lemma_parse_members_round(ps: PairsView, tail: Seq<char>)
    requires
        ps.len() >= 1,
    ensures
        spec_parse_members(spec_json_members(ps) + seq!['}'] + tail) == Some((ps, tail)),
    decreases ps.len(),
{
    let k = ps[0].0;
    let v = ps[0].1;
    let s = spec_json_members(ps) + seq!['}'] + tail;
    if ps.len() == 1 {
        let t1 = seq![':', '"'] + spec_escape(v) + seq!['"'] + (seq!['}'] + tail);
        assert(s[0] == '"');
        assert(s.drop_first() =~= spec_escape(k) + seq!['"'] + t1);
        lemma_parse_jstr_round(k, t1);
        assert(spec_parse_jstr(s.drop_first()) == Some((k, t1)));
        assert(t1.len() >= 2 && t1[0] == ':' && t1[1] == '"');
        assert(t1.skip(2) =~= spec_escape(v) + seq!['"'] + (seq!['}'] + tail));
        lemma_parse_jstr_round(v, seq!['}'] + tail);
        let r2 = seq!['}'] + tail;
        assert(r2.len() >= 1 && r2[0] == '}');
        assert(r2[0] != ',');
        assert(r2.drop_first() =~= tail);
        assert(seq![(k, v)] =~= ps);
    } else {
        let rest = ps.drop_first();
        lemma_parse_members_round(rest, tail);
        let t2 = seq![','] + (spec_json_members(rest) + seq!['}'] + tail);
        let t1 = seq![':', '"'] + spec_escape(v) + seq!['"'] + t2;
        assert(s[0] == '"');
        assert(s.drop_first() =~= spec_escape(k) + seq!['"'] + t1);
        lemma_parse_jstr_round(k, t1);
        assert(spec_parse_jstr(s.drop_first()) == Some((k, t1)));
        assert(t1.len() >= 2 && t1[0] == ':' && t1[1] == '"');
        assert(t1.skip(2) =~= spec_escape(v) + seq!['"'] + t2);
        lemma_parse_jstr_round(v, t2);
        assert(t2.len() >= 1 && t2[0] == ',');
        assert(t2.drop_first() =~= spec_json_members(rest) + seq!['}'] + tail);
        assert(spec_parse_members(t2.drop_first()) == Some((rest, tail)));
        assert(seq![(k, v)] + rest =~= ps);
    }
}

/// Parsing a written object recovers the pairs.
pub proof fn lemma_parse_json_round(ps: PairsView)
    ensures
        spec_parse_json(spec_json_body(ps)) == Some(ps),
{
    let s = spec_json_body(ps);
    if ps.len() == 0 {
        assert(s =~= seq!['{', '}']);
        assert(s.len() == 2 && s[0] == '{' && s[1] == '}');
        assert(ps =~= Seq::<(Seq<char>, Seq<char>)>::empty());
    } else {
        lemma_parse_members_round(ps, Seq::<char>::empty());
        assert(s[0] == '{');
        assert(s.drop_first() =~= spec_json_members(ps) + seq!['}'] + Seq::<char>::empty());
        assert(spec_json_members(ps).len() >= 5);
        assert(s.len() > 2);
        assert(spec_parse_members(s.drop_first()) == Some((ps, Seq::<char>::empty())));
    }
}

// ------------------------------------------------------------------
// Form-urlencoded bodies
// ------------------------------------------------------------------
/// The hexadecimal digit characters.
pub open spec fn is_hex_char(c: char) -> bool {
    ('0' <= c && c <= '9') || ('a' <= c && c <= 'f') || ('A' <= c && c <= 'F')
}

/// The value of a hexadecimal digit.
pub open spec fn spec_hex_val(c: char) -> int {
    if '0' <= c && c <= '9' {
        c as int - '0' as int
    } else if 'a' <= c && c <= 'f' {
        c as int - 'a' as int + 10
    } else {
        c as int - 'A' as int + 10
    }
}

/// Form-urlencoded text decoding: `+` stands for a space and `%XY` with a
/// seven-bit value stands for that character; anything else, including a
/// malformed or non-ASCII percent sequence, is kept as written.
pub open spec fn spec_pct_decode(x: Seq<char>) -> Seq<char>
    decreases x.len(),
{
    if x.len() == 0 {
        Seq::empty()
    } else if x[0] == '+' {
        seq![' '] + spec_pct_decode(x.drop_first())
    } else if x[0] == '%' && x.len() >= 3 && is_hex_char(x[1]) && is_hex_char(x[2]) && spec_hex_val(
        x[1],
    ) * 16 + spec_hex_val(x[2]) < 128 {
        seq![((spec_hex_val(x[1]) * 16 + spec_hex_val(x[2])) as char)] + spec_pct_decode(x.skip(3))
    } else {
        seq![x[0]] + spec_pct_decode(x.drop_first())
    }
}

/// One `key=value` piece of a form body, both sides decoded; a piece with
/// no `=` is a key with an empty value.
pub open spec fn spec_form_pair(piece: Seq<char>) -> (Seq<char>, Seq<char>) {
    let eq = spec_find(piece, '=', 0);
    if eq < piece.len() {
        (
            spec_pct_decode(piece.subrange(0, eq)),
            spec_pct_decode(piece.subrange(eq + 1, piece.len() as int)),
        )
    } else {
        (spec_pct_decode(piece), Seq::empty())
    }
}

/// The pieces of a form body, split on `&`, empty pieces skipped.
pub open spec fn spec_form_members(s: Seq<char>) -> PairsView
    decreases s.len(),
    via spec_form_members_dec
{
    if s.len() == 0 {
        Seq::empty()
    } else {
        let amp = spec_find(s, '&', 0);
        let piece = s.subrange(0, amp);
        let rest = if amp < s.len() {
            spec_form_members(s.skip(amp + 1))
        } else {
            Seq::empty()
        };
        if piece.len() == 0 {
            rest
        } else {
            seq![spec_form_pair(piece)] + rest
        }
    }
}

#[via_fn]
proof fn spec_form_members_dec(s: Seq<char>) {
    if s.len() > 0 {
        lemma_spec_find(s, '&', 0);
    }
}

/// The value of a hexadecimal digit.
fn hex_val(c: char) -> (r: u32)
    requires
        is_hex_char(c),
    ensures
        r == spec_hex_val(c),
{
    if '0' <= c && c <= '9' {
        (c as u32) - ('0' as u32)
    } else if 'a' <= c && c <= 'f' {
        (c as u32) - ('a' as u32) + 10
    } else {
        (c as u32) - ('A' as u32) + 10
    }
}

/// A hexadecimal digit test.
fn is_hex(c: char) -> (r: bool)
    ensures
        r == is_hex_char(c),
{
    ('0' <= c && c <= '9') || ('a' <= c && c <= 'f') || ('A' <= c && c <= 'F')
}

/// Decodes `+` and seven-bit `%XY` sequences.
pub fn pct_decode(v: &Vec<char>) -> (r: Vec<char>)
    ensures
        r@ == spec_pct_decode(v@),
{
    let mut out: Vec<char> = Vec::new();
    let mut i: usize = 0;
    proof {
        assert(v@.skip(0) =~= v@);
        assert(out@ + spec_pct_decode(v@) =~= spec_pct_decode(v@));
    }
    while i < v.len()
        invariant
            i <= v@.len(),
            spec_pct_decode(v@) == out@ + spec_pct_decode(v@.skip(i as int)),
        decreases v@.len() - i,
    {
        let ghost si = v@.skip(i as int);
        let ghost prev = out@;
        proof {
            assert(si[0] == v@[i as int]);
            if si.len() >= 3 {
                assert(si[1] == v@[i as int + 1]);
                assert(si[2] == v@[i as int + 2]);
            }
        }
        let c = v[i];
        if c == '+' {
            out.push(' ');
            proof {
                assert(si.drop_first() =~= v@.skip(i as int + 1));
                assert(prev + (seq![' '] + spec_pct_decode(v@.skip(i as int + 1))) =~= (prev
                    + seq![' ']) + spec_pct_decode(v@.skip(i as int + 1)));
            }
            i += 1;
        } else if c == '%' && v.len() - i >= 3 && is_hex(v[i + 1]) && is_hex(v[i + 2]) && hex_val(
            v[i + 1],
        ) * 16 + hex_val(v[i + 2]) < 128 {
            let h = hex_val(v[i + 1]) * 16 + hex_val(v[i + 2]);
            let d = ascii_char(h);
            out.push(d);
            proof {
                assert(si.skip(3) =~= v@.skip(i as int + 3));
                assert(prev + (seq![d] + spec_pct_decode(v@.skip(i as int + 3))) =~= (prev
                    + seq![d]) + spec_pct_decode(v@.skip(i as int + 3)));
            }
            i += 3;
        } else {
            out.push(c);
            proof {
                assert(si.drop_first() =~= v@.skip(i as int + 1));
                assert(prev + (seq![c] + spec_pct_decode(v@.skip(i as int + 1))) =~= (prev
                    + seq![c]) + spec_pct_decode(v@.skip(i as int + 1)));
            }
            i += 1;
        }
    }
    proof {
        assert(v@.skip(v@.len() as int).len() == 0);
    }
    out
}

/// Splits one piece into its decoded key and value.
fn form_pair(piece: &Vec<char>) -> (r: (String, String))
    ensures
        (r.0@, r.1@) == spec_form_pair(piece@),
{
    proof {
        lemma_spec_find(piece@, '=', 0);
    }
    let eq = find_char(piece, '=', 0);
    if eq < piece.len() {
        let kc = copy_range(piece, 0, eq);
        let vc = copy_range(piece, eq + 1, piece.len());
        let kd = pct_decode(&kc);
        let vd = pct_decode(&vc);
        (chars_to_string(&kd), chars_to_string(&vd))
    } else {
        let kd = pct_decode(piece);
        (chars_to_string(&kd), String::new())
    }
}

/// Splits a form body into its decoded pairs, in order, duplicates kept.
pub fn form_decode_raw(v: &Vec<char>) -> (r: Vec<(String, String)>)
    ensures
        r.deep_view() == spec_form_members(v@),
{
    let mut acc: Vec<(String, String)> = Vec::new();
    let mut i: usize = 0;
    proof {
        assert(v@.skip(0) =~= v@);
        assert(acc.deep_view() + spec_form_members(v@) =~= spec_form_members(v@));
    }
    while i < v.len()
        invariant
            i <= v@.len(),
            spec_form_members(v@) == acc.deep_view() + spec_form_members(v@.skip(i as int)),
        decreases v@.len() - i,
    {
        let ghost si = v@.skip(i as int);
        proof {
            lemma_spec_find(v@, '&', i as int);
            lemma_find_skip(v@, '&', i as int);
        }
        let amp = find_char(v, '&', i);
        let piece = copy_range(v, i, amp);
        proof {
            assert(piece@ =~= si.subrange(0, amp - i));
        }
        let ghost prevacc = acc.deep_view();
        if piece.len() > 0 {
            let p = form_pair(&piece);
            acc.push(p);
            proof {
                assert forall|j: int| 0 <= j < acc@.len() implies acc.deep_view()[j]
                    == prevacc.push(spec_form_pair(piece@))[j] by {
                    assert(acc.deep_view()[j] == (acc@[j].0@, acc@[j].1@));
                }
                assert(acc.deep_view() =~= prevacc.push(spec_form_pair(piece@)));
            }
        }
        if amp < v.len() {
            proof {
                assert(si.skip(amp - i + 1) =~= v@.skip(amp as int + 1));
                let rest = spec_form_members(v@.skip(amp as int + 1));
                if piece@.len() == 0 {
                    assert(spec_form_members(si) == rest);
                } else {
                    assert(spec_form_members(si) == seq![spec_form_pair(piece@)] + rest);
                    assert(prevacc + (seq![spec_form_pair(piece@)] + rest) =~= prevacc.push(
                        spec_form_pair(piece@),
                    ) + rest);
                }
            }
            i = amp + 1;
        } else {
            proof {
                if piece@.len() == 0 {
                    assert(spec_form_members(si) =~= Seq::<(Seq<char>, Seq<char>)>::empty());
                    assert(prevacc + spec_form_members(si) =~= prevacc);
                } else {
                    assert(spec_form_members(si) == seq![spec_form_pair(piece@)]
                        + Seq::<(Seq<char>, Seq<char>)>::empty());
                    assert(prevacc + spec_form_members(si) =~= prevacc.push(
                        spec_form_pair(piece@),
                    ));
                }
                assert(v@.skip(v@.len() as int).len() == 0);
            }
            i = v.len();
        }
    }
    proof {
        assert(v@.skip(v@.len() as int).len() == 0);
    }
    acc
}

// ------------------------------------------------------------------
// Folding raw pairs, last write wins
// ------------------------------------------------------------------
/// Folding distributes over appending one member at the back.
pub proof fn lemma_fold_set_push(acc: PairsView, ms: PairsView, m: (Seq<char>, Seq<char>))
    ensures
        spec_fold_set(acc, ms.push(m)) == spec_set_pair(spec_fold_set(acc, ms), m.0, m.1),
    decreases ms.len(),
{
    let q = ms.push(m);
    if ms.len() == 0 {
        assert(q[0] == m);
        assert(q.drop_first() =~= Seq::<(Seq<char>, Seq<char>)>::empty());
        assert(spec_fold_set(acc, q) == spec_fold_set(
            spec_set_pair(acc, m.0, m.1),
            q.drop_first(),
        ));
        assert(spec_fold_set(spec_set_pair(acc, m.0, m.1), q.drop_first()) == spec_set_pair(
            acc,
            m.0,
            m.1,
        ));
        assert(spec_fold_set(acc, ms) == acc);
    } else {
        lemma_fold_set_push(spec_set_pair(acc, ms[0].0, ms[0].1), ms.drop_first(), m);
        assert(q[0] == ms[0]);
        assert(q.drop_first() =~= ms.drop_first().push(m));
        assert(spec_fold_set(acc, q) == spec_fold_set(
            spec_set_pair(acc, ms[0].0, ms[0].1),
            ms.drop_first().push(m),
        ));
        assert(spec_fold_set(acc, ms) == spec_fold_set(
            spec_set_pair(acc, ms[0].0, ms[0].1),
            ms.drop_first(),
        ));
    }
}

/// Inserts the pairs into an empty list in order, later values replacing
/// earlier ones under the same key.
pub fn fold_pairs(ms: &Vec<(String, String)>) -> (r: Vec<(String, String)>)
    ensures
        r.deep_view() == spec_fold_set(Seq::empty(), ms.deep_view()),
{
    let mut acc: Vec<(String, String)> = Vec::new();
    let mut i: usize = 0;
    proof {
        assert(ms.deep_view().subrange(0, 0) =~= Seq::<(Seq<char>, Seq<char>)>::empty());
        assert(acc.deep_view() =~= Seq::<(Seq<char>, Seq<char>)>::empty());
    }
    while i < ms.len()
        invariant
            i <= ms@.len(),
            acc.deep_view() == spec_fold_set(Seq::empty(), ms.deep_view().subrange(0, i as int)),
        decreases ms@.len() - i,
    {
        let ghost prefix = ms.deep_view().subrange(0, i as int);
        let ghost m = ms.deep_view()[i as int];
        proof {
            assert(m == (ms@[i as int].0@, ms@[i as int].1@));
        }
        kv_set(&mut acc, ms[i].0.clone(), ms[i].1.clone());
        proof {
            lemma_fold_set_push(Seq::empty(), prefix, m);
            assert(prefix.push(m) =~= ms.deep_view().subrange(0, i as int + 1));
        }
        i += 1;
    }
    proof {
        assert(ms.deep_view().subrange(0, ms@.len() as int) =~= ms.deep_view());
    }
    acc
}

// ------------------------------------------------------------------
// The body type
// ------------------------------------------------------------------
/// A flat string-to-string object: the one body shape this engine speaks,
/// whether it arrived as JSON or as form data.
#[derive(Debug)]
pub struct Body {
    pairs: Vec<(String, String)>,
}

impl View for Body {
    type V = PairsView;

    closed spec fn view(&self) -> PairsView {
        self.pairs.deep_view()
    }
}

impl Body {
    /// An empty body.
    pub fn new() -> (r: Body)
        ensures
            r@ == Seq::<(Seq<char>, Seq<char>)>::empty(),
    {
        let b = Body { pairs: Vec::new() };
        proof {
            assert(b@ =~= Seq::<(Seq<char>, Seq<char>)>::empty());
        }
        b
    }

    /// A body holding exactly the given fields, in order.
    pub fn from_pairs(pairs: Vec<(String, String)>) -> (r: Body)
        ensures
            r@ == pairs.deep_view(),
    {
        Body { pairs }
    }

    /// The value under `k`, first occurrence.
    pub fn get(&self, k: &str) -> (r: Option<String>)
        ensures
            r matches Some(v) ==> spec_lookup(self@, k@) == Some(v@),
            r is None ==> spec_lookup(self@, k@) is None,
    {
        kv_get(&self.pairs, k)
    }

    /// Sets `k` to `v`: replaces the first occurrence, or appends.
    pub fn set(&mut self, k: &str, v: &str)
        ensures
            final(self)@ == spec_set_pair(old(self)@, k@, v@),
    {
        kv_set(&mut self.pairs, k.to_owned(), v.to_owned())
    }

    /// The number of fields.
    pub fn len(&self) -> (r: usize)
        ensures
            r == self@.len(),
    {
        self.pairs.len()
    }

    /// An identical copy.
    pub fn duplicate(&self) -> (r: Body)
        ensures
            r@ == self@,
    {
        Body { pairs: copy_pairs(&self.pairs) }
    }

    /// The JSON object text of this body.
    pub fn to_json(&self) -> (r: String)
        ensures
            r@ == spec_json_body(self@),
    {
        let cs = json_encode_pairs(&self.pairs);
        chars_to_string(&cs)
    }
}

/// What body text denotes: nothing at all is an empty body; text holding
/// both `=` and `&` is read as form data; anything else must be a JSON
/// object of strings. Duplicate keys are folded, last write wins.
pub open spec fn spec_body_decode(s: Seq<char>) -> Option<PairsView> {
    if s.len() == 0 {
        Some(Seq::empty())
    } else if spec_has_char(s, '=') && spec_has_char(s, '&') {
        Some(spec_fold_set(Seq::empty(), spec_form_members(s)))
    } else {
        match spec_parse_json(s) {
            Some(ms) => Some(spec_fold_set(Seq::empty(), ms)),
            None => None,
        }
    }
}

/// Decodes body text; only undecodable JSON is an error.
pub fn body_decode(v: &Vec<char>) -> (r: Option<Body>)
    ensures
        r matches Some(b) ==> spec_body_decode(v@) == Some(b@),
        r is None ==> spec_body_decode(v@) is None,
{
    if v.len() == 0 {
        return Some(Body::new());
    }
    let has_eq = has_char(v, '=');
    let has_amp = has_char(v, '&');
    if has_eq && has_amp {
        let ms = form_decode_raw(v);
        let folded = fold_pairs(&ms);
        Some(Body { pairs: folded })
    } else {
        match json_decode(v) {
            Some(ms) => {
                let folded = fold_pairs(&ms);
                Some(Body { pairs: folded })
            },
            None => None,
        }
    }
}

// ------------------------------------------------------------------
// The body round trip
// ------------------------------------------------------------------
/// Escaping introduces no occurrence of a character outside the escape
/// alphabet.
pub proof fn lemma_escape_has(x: Seq<char>, c: char)
    requires
        c != '\\' && c != '"' && c != 'n' && c != 'r' && c != 't',
    ensures
        spec_has_char(spec_escape(x), c) ==> spec_has_char(x, c),
    decreases x.len(),
{
    if x.len() > 0 {
        lemma_escape_has(x.drop_first(), c);
        lemma_has_concat(spec_escape_char(x[0]), spec_escape(x.drop_first()), c);
        if spec_has_char(spec_escape_char(x[0]), c) {
            let i = choose|i: int|
                0 <= i < spec_escape_char(x[0]).len() && spec_escape_char(x[0])[i] == c;
            assert(x[0] == c);
            assert(spec_has_char(x, c));
        }
        if spec_has_char(x.drop_first(), c) {
            let i = choose|i: int| 0 <= i < x.drop_first().len() && x.drop_first()[i] == c;
            assert(x[i + 1] == c);
        }
    }
}

/// A member list holds a character outside the JSON punctuation and escape
/// alphabet only where one of its fields does.
pub proof fn lemma_members_has(ps: PairsView, c: char)
    requires
        c != '\\' && c != '"' && c != 'n' && c != 'r' && c != 't' && c != ',' && c != ':',
    ensures
        spec_has_char(spec_json_members(ps), c) ==> exists|i: int|
            0 <= i < ps.len() && (spec_has_char(ps[i].0, c) || spec_has_char(ps[i].1, c)),
    decreases ps.len(),
{
    if ps.len() == 0 {
    } else {
        let k = ps[0].0;
        let v = ps[0].1;
        let entry = spec_json_entry(k, v);
        lemma_escape_has(k, c);
        lemma_escape_has(v, c);
        lemma_has_concat(seq!['"'], spec_escape(k), c);
        lemma_has_concat(seq!['"'] + spec_escape(k), seq!['"', ':', '"'], c);
        lemma_has_concat(seq!['"'] + spec_escape(k) + seq!['"', ':', '"'], spec_escape(v), c);
        lemma_has_concat(
            seq!['"'] + spec_escape(k) + seq!['"', ':', '"'] + spec_escape(v),
            seq!['"'],
            c,
        );
        assert(spec_has_char(entry, c) ==> spec_has_char(k, c) || spec_has_char(v, c)) by {
            if spec_has_char(seq!['"'], c) {
                assert(seq!['"'][0] == '"');
                let i = choose|i: int| 0 <= i < seq!['"'].len() && seq!['"'][i] == c;
                assert(false);
            }
            if spec_has_char(seq!['"', ':', '"'], c) {
                let i = choose|i: int|
                    0 <= i < seq!['"', ':', '"'].len() && seq!['"', ':', '"'][i] == c;
                assert(false);
            }
        }
        if ps.len() == 1 {
        } else {
            lemma_members_has(ps.drop_first(), c);
            lemma_has_concat(entry, seq![','], c);
            lemma_has_concat(entry + seq![','], spec_json_members(ps.drop_first()), c);
            if spec_has_char(seq![','], c) {
                let i = choose|i: int| 0 <= i < seq![','].len() && seq![','][i] == c;
                assert(false);
            }
            if spec_has_char(spec_json_members(ps.drop_first()), c) {
                let i = choose|i: int|
                    0 <= i < ps.drop_first().len() && (spec_has_char(ps.drop_first()[i].0, c)
                        || spec_has_char(ps.drop_first()[i].1, c));
                assert(ps[i + 1] == ps.drop_first()[i]);
            }
            assert(spec_json_members(ps) == entry + seq![','] + spec_json_members(
                ps.drop_first(),
            ));
            assert((entry + seq![',']) + spec_json_members(ps.drop_first()) =~= entry + seq![',']
                + spec_json_members(ps.drop_first()));
        }
    }
}

/// No field of `ps` holds `=`, or none holds `&`: then the written object
/// cannot be mistaken for form data.
pub open spec fn spec_body_sniff_safe(ps: PairsView) -> bool {
    !((exists|i: int|
        0 <= i < ps.len() && (spec_has_char(ps[i].0, '=') || spec_has_char(ps[i].1, '='))) && (
    exists|i: int|
        0 <= i < ps.len() && (spec_has_char(ps[i].0, '&') || spec_has_char(ps[i].1, '&'))))
}

/// Decoding a written body recovers the pairs: the round trip law for
/// bodies with pairwise-distinct keys that cannot be sniffed as form data.
pub proof fn lemma_body_round_trip(ps: PairsView)
    requires
        spec_keys_unique(ps),
        spec_body_sniff_safe(ps),
    ensures
        spec_body_decode(spec_json_body(ps)) == Some(ps),
{
    let s = spec_json_body(ps);
    assert(s.len() >= 2);
    lemma_has_concat(seq!['{'], spec_json_members(ps), '=');
    lemma_has_concat(seq!['{'] + spec_json_members(ps), seq!['}'], '=');
    lemma_has_concat(seq!['{'], spec_json_members(ps), '&');
    lemma_has_concat(seq!['{'] + spec_json_members(ps), seq!['}'], '&');
    lemma_members_has(ps, '=');
    lemma_members_has(ps, '&');
    assert(!(spec_has_char(s, '=') && spec_has_char(s, '&'))) by {
        if spec_has_char(seq!['{'], '=') {
            let i = choose|i: int| 0 <= i < seq!['{'].len() && seq!['{'][i] == '=';
            assert(false);
        }
        if spec_has_char(seq!['}'], '=') {
            let i = choose|i: int| 0 <= i < seq!['}'].len() && seq!['}'][i] == '=';
            assert(false);
        }
        if spec_has_char(seq!['{'], '&') {
            let i = choose|i: int| 0 <= i < seq!['{'].len() && seq!['{'][i] == '&';
            assert(false);
        }
        if spec_has_char(seq!['}'], '&') {
            let i = choose|i: int| 0 <= i < seq!['}'].len() && seq!['}'][i] == '&';
            assert(false);
        }
    }
    lemma_parse_json_round(ps);
    assert(forall|i: int| 0 <= i < ps.len() ==> spec_lookup(Seq::empty(), #[trigger] ps[i].0)
        is None);
    lemma_fold_set_unique(Seq::empty(), ps);
    assert(Seq::empty() + ps =~= ps);
}

} // verus!
