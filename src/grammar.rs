//! The frame grammar: line delimiters, tokens and decimal numbers.
use vstd::prelude::*;

verus! {

/// `"\r\n"` starts at index `i` of `s`.
pub open spec fn crlf_at(s: Seq<u8>, i: int) -> bool {
    0 <= i && i + 1 < s.len() && s[i] == 13u8 && s[i + 1] == 10u8
}

/// The index of the first line delimiter in `s`, if there is one.
pub open spec fn first_crlf(s: Seq<u8>) -> Option<int> {
    if exists|i: int| crlf_at(s, i) && forall|j: int| 0 <= j < i ==> !crlf_at(s, j) {
        Some(choose|i: int| crlf_at(s, i) && forall|j: int| 0 <= j < i ==> !crlf_at(s, j))
    } else {
        None
    }
}

/// Finds the first `"\r\n"` in `dat`.
pub fn find_crlf(dat: &[u8]) -> (r: Option<usize>)
    ensures
        match r {
            Some(i) => crlf_at(dat@, i as int) && forall|j: int| 0 <= j < i ==> !crlf_at(dat@, j),
            None => forall|j: int| !crlf_at(dat@, j),
        },
        r matches Some(i) ==> first_crlf(dat@) == Some(i as int),
        r is None <==> first_crlf(dat@) is None,
{
    if dat.len() < 2 {
        return None;
    }
    let mut i: usize = 0;
    while i < dat.len() - 1
        invariant
            dat.len() >= 2,
            i <= dat.len() - 1,
            forall|j: int| 0 <= j < i ==> !crlf_at(dat@, j),
        decreases dat.len() - 1 - i,
    {
        if dat[i] == 13 && dat[i + 1] == 10 {
            proof {
                let k = choose|k: int| crlf_at(dat@, k) && forall|j: int| 0 <= j < k ==> !crlf_at(dat@, j);
                assert(crlf_at(dat@, i as int));
                if k < i {
                } else if k > i {
                    assert(!crlf_at(dat@, i as int));
                }
            }
            return Some(i);
        }
        i += 1;
    }
    None
}


/// The decimal digits of `n`, most significant first, without leading zeros.
pub open spec fn decimal(n: nat) -> Seq<u8>
    decreases n,
{
    if n < 10 {
        seq![(48 + n) as u8]
    } else {
        decimal(n / 10).push((48 + n % 10) as u8)
    }
}

/// The decimal text of a signed number: a `'-'` before the digits of its magnitude.
pub open spec fn signed_decimal(n: int) -> Seq<u8> {
    if n < 0 {
        seq![45u8] + decimal((-n) as nat)
    } else {
        decimal(n as nat)
    }
}

/// Appends the decimal digits of `n` to `out`.
pub fn push_decimal(out: &mut Vec<u8>, n: u64)
    ensures
        final(out)@ == old(out)@ + decimal(n as nat),
    decreases n,
{
    if n >= 10 {
        push_decimal(out, n / 10);
    }
    out.push((48 + n % 10) as u8);
}

/// Appends the decimal text of the signed number `n` to `out`.
pub fn push_signed_decimal(out: &mut Vec<u8>, n: i32)
    ensures
        final(out)@ == old(out)@ + signed_decimal(n as int),
{
    if n < 0 {
        out.push(45u8);
        let m: u64 = (0i64 - n as i64) as u64;
        push_decimal(out, m);
        assert(final(out)@ =~= old(out)@ + signed_decimal(n as int));
    } else {
        push_decimal(out, n as u64);
    }
}

/// A decimal digit.
pub open spec fn is_digit(b: u8) -> bool {
    48 <= b <= 57
}

/// The value of a string of decimal digits.
pub open spec fn digits_value(s: Seq<u8>) -> nat
    decreases s.len(),
{
    if s.len() == 0 {
        0
    } else {
        digits_value(s.drop_last()) * 10 + (s.last() - 48) as nat
    }
}

/// The digits of a number token: the token without one leading `'+'`.
pub open spec fn unsigned_digits(s: Seq<u8>) -> Seq<u8> {
    if s.len() > 0 && s[0] == 43u8 {
        s.drop_first()
    } else {
        s
    }
}

/// The value of a number token: an optional `'+'` and one or more decimal
/// digits, at most `max`.
pub open spec fn number_value(s: Seq<u8>, max: nat) -> Option<nat> {
    let d = unsigned_digits(s);
    if d.len() > 0 && (forall|i: int| 0 <= i < d.len() ==> is_digit(d[i])) && digits_value(d)
        <= max {
        Some(digits_value(d))
    } else {
        None
    }
}

proof fn lemma_digits_value_prefix(s: Seq<u8>, i: int)
    requires
        0 <= i <= s.len(),
        forall|k: int| 0 <= k < s.len() ==> is_digit(s[k]),
    ensures
        digits_value(s.subrange(0, i)) <= digits_value(s),
    decreases s.len() - i,
{
    if i < s.len() {
        lemma_digits_value_prefix(s, i + 1);
        assert(s.subrange(0, i + 1).drop_last() =~= s.subrange(0, i));
    } else {
        assert(s.subrange(0, i) =~= s);
    }
}

/// Reads a number token, as `number_value` describes.
pub fn parse_number(tok: &[u8], max: u64) -> (r: Option<u64>)
    ensures
        match number_value(tok@, max as nat) {
            Some(v) => r == Some(v as u64),
            None => r is None,
        },
{
    let start: usize = if tok.len() > 0 && tok[0] == 43 {
        1
    } else {
        0
    };
    let ghost d = unsigned_digits(tok@);
    assert(d =~= tok@.subrange(start as int, tok@.len() as int));
    if start >= tok.len() {
        return None;
    }
    let mut acc: u64 = 0;
    let mut i: usize = start;
    while i < tok.len()
        invariant
            start <= i <= tok.len(),
            d == unsigned_digits(tok@),
            d =~= tok@.subrange(start as int, tok@.len() as int),
            forall|k: int| 0 <= k < i - start ==> is_digit(d[k]),
            acc as nat == digits_value(d.subrange(0, i - start)),
            acc <= max,
        decreases tok.len() - i,
    {
        let b = tok[i];
        if b < 48 || b > 57 {
            assert(d[i - start] == tok@[i as int]);
            assert(!is_digit(d[i - start]));
            assert(!(forall|k: int| 0 <= k < d.len() ==> is_digit(d[k])));
            assert(number_value(tok@, max as nat) is None);
            return None;
        }
        let digit = (b - 48) as u64;
        assert(d.subrange(0, i + 1 - start).drop_last() =~= d.subrange(0, i - start));
        assert(d[i - start] == tok@[i as int]);
        if digit > max || acc > (max - digit) / 10 {
            proof {
                assert(acc * 10 + digit > max) by (nonlinear_arith)
                    requires digit > max || acc > (max - digit) / 10, digit <= max || acc >= 0;
                let p = d.subrange(0, i + 1 - start);
                assert(p.last() == b);
                assert(digits_value(p) == acc * 10 + digit);
                if forall|k: int| 0 <= k < d.len() ==> is_digit(d[k]) {
                    lemma_digits_value_prefix(d, i + 1 - start);
                    assert(digits_value(d) > max);
                }
                assert(number_value(tok@, max as nat) is None);
            }
            return None;
        }
        proof {
            assert(acc * 10 + digit <= max) by (nonlinear_arith)
                requires acc <= (max - digit) / 10, digit <= max;
        }
        acc = acc * 10 + digit;
        i += 1;
    }
    assert(d.subrange(0, i - start) =~= d);
    Some(acc)
}


/// Appends the bytes of `b` to `out`.
pub fn append_bytes(out: &mut Vec<u8>, b: &[u8])
    ensures
        final(out)@ == old(out)@ + b@,
{
    let mut i: usize = 0;
    while i < b.len()
        invariant
            i <= b.len(),
            out@ == old(out)@ + b@.subrange(0, i as int),
        decreases b.len() - i,
    {
        out.push(b[i]);
        i += 1;
        assert(out@ =~= old(out)@ + b@.subrange(0, i as int));
    }
    assert(b@.subrange(0, i as int) =~= b@);
}

/// The pieces of `s` between single spaces: `k` spaces give `k + 1` pieces,
/// some of which may be empty.
pub open spec fn split_spaces(s: Seq<u8>) -> Seq<Seq<u8>>
    decreases s.len(),
{
    if s.len() == 0 {
        seq![Seq::empty()]
    } else {
        let r = split_spaces(s.drop_last());
        if s.last() == 32u8 {
            r.push(Seq::empty())
        } else {
            r.update(r.len() - 1, r.last().push(s.last()))
        }
    }
}

/// The pieces put back together, with one space between two neighbours.
pub open spec fn join_spaces(t: Seq<Seq<u8>>) -> Seq<u8>
    decreases t.len(),
{
    if t.len() == 0 {
        Seq::empty()
    } else if t.len() == 1 {
        t[0]
    } else {
        join_spaces(t.drop_last()) + seq![32u8] + t.last()
    }
}

/// Splitting gives at least one piece.
pub proof fn lemma_split_spaces_len(s: Seq<u8>)
    ensures
        split_spaces(s).len() >= 1,
    decreases s.len(),
{
    if s.len() > 0 {
        lemma_split_spaces_len(s.drop_last());
    }
}

/// The byte strings held by a vector of tokens.
pub open spec fn token_views(v: Seq<Vec<u8>>) -> Seq<Seq<u8>> {
    v.map_values(|t: Vec<u8>| t@)
}

/// Splits `line` at each space, as `split_spaces` describes.
pub fn split_tokens(line: &[u8]) -> (r: Vec<Vec<u8>>)
    ensures
        token_views(r@) == split_spaces(line@),
{
    let mut toks: Vec<Vec<u8>> = Vec::new();
    let mut cur: Vec<u8> = Vec::new();
    let mut i: usize = 0;
    assert(line@.subrange(0, 0) =~= Seq::<u8>::empty());
    assert(token_views(toks@).push(cur@) =~= split_spaces(line@.subrange(0, 0)));
    while i < line.len()
        invariant
            i <= line.len(),
            token_views(toks@).push(cur@) == split_spaces(line@.subrange(0, i as int)),
        decreases line.len() - i,
    {
        let ghost before = line@.subrange(0, i as int);
        let ghost after = line@.subrange(0, i + 1);
        assert(after.drop_last() =~= before);
        proof {
            lemma_split_spaces_len(before);
        }
        if line[i] == 32 {
            toks.push(cur);
            cur = Vec::new();
            assert(token_views(toks@) =~= split_spaces(before));
            assert(token_views(toks@).push(cur@) =~= split_spaces(after));
        } else {
            let ghost old_toks = token_views(toks@);
            cur.push(line[i]);
            assert(token_views(toks@) =~= old_toks);
            assert(token_views(toks@).push(cur@) =~= split_spaces(after));
        }
        i += 1;
    }
    let ghost last = cur@;
    let ghost prev = token_views(toks@);
    toks.push(cur);
    assert(token_views(toks@) =~= prev.push(last));
    assert(line@.subrange(0, i as int) =~= line@);
    toks
}

/// Joins `toks[start..]` with single spaces, as `join_spaces` describes.
pub fn join_tokens(toks: &Vec<Vec<u8>>, start: usize) -> (r: Vec<u8>)
    requires
        start <= toks.len(),
    ensures
        r@ == join_spaces(token_views(toks@).subrange(start as int, toks.len() as int)),
{
    let mut out: Vec<u8> = Vec::new();
    let mut i: usize = start;
    assert(token_views(toks@).subrange(start as int, start as int) =~= Seq::<Seq<u8>>::empty());
    while i < toks.len()
        invariant
            start <= i <= toks.len(),
            out@ == join_spaces(token_views(toks@).subrange(start as int, i as int)),
        decreases toks.len() - i,
    {
        let ghost prev = token_views(toks@).subrange(start as int, i as int);
        let ghost next = token_views(toks@).subrange(start as int, i + 1);
        assert(next.drop_last() =~= prev);
        assert(next.last() == toks[i as int]@);
        if i > start {
            out.push(32u8);
        }
        append_bytes(&mut out, toks[i].as_slice());
        if i == start {
            assert(next =~= seq![toks[i as int]@]);
        }
        assert(out@ =~= join_spaces(next));
        i += 1;
    }
    out
}

} // verus!
