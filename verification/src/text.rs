//! Byte-string utilities the engine is built on: splitting a path into
//! segments, decimal parsing and formatting, and first-match lookup in a
//! list of key/value pairs.

use vstd::prelude::*;

verus! {

/// True of the ASCII decimal digits.
pub open spec fn is_digit(b: u8) -> bool {
    48 <= b && b <= 57
}

/// True when every byte of `s` is an ASCII decimal digit.
pub open spec fn all_digits(s: Seq<u8>) -> bool {
    forall|i: int| 0 <= i < s.len() ==> is_digit(s[i])
}

/// The number denoted by a sequence of decimal digit bytes (most
/// significant first); 0 for the empty sequence.
pub open spec fn digits_value(s: Seq<u8>) -> int
    decreases s.len(),
{
    if s.len() == 0 {
        0
    } else {
        digits_value(s.drop_last()) * 10 + (s.last() - 48)
    }
}

/// The canonical decimal digit sequence of `n`: no leading zero except for
/// `n == 0` itself.
pub open spec fn dec_digits(n: nat) -> Seq<u8>
    decreases n,
{
    if n < 10 {
        seq![(n + 48) as u8]
    } else {
        dec_digits(n / 10).push((n % 10 + 48) as u8)
    }
}

/// The decimal rendering of a signed number: a leading minus sign for
/// negative values.
pub open spec fn signed_dec_digits(n: int) -> Seq<u8> {
    if n >= 0 {
        dec_digits(n as nat)
    } else {
        seq![45u8] + dec_digits((-n) as nat)
    }
}

pub proof fn lemma_digits_value_nonneg(s: Seq<u8>)
    requires
        all_digits(s),
    ensures
        digits_value(s) >= 0,
    decreases s.len(),
{
    if s.len() > 0 {
        assert(all_digits(s.drop_last()));
        lemma_digits_value_nonneg(s.drop_last());
    }
}

/// A digit prefix never denotes more than the whole digit string.
pub proof fn lemma_digits_value_prefix(s: Seq<u8>, i: int)
    requires
        all_digits(s),
        0 <= i <= s.len(),
    ensures
        digits_value(s.take(i)) <= digits_value(s),
    decreases s.len(),
{
    if i == s.len() {
        assert(s.take(i) =~= s);
    } else {
        assert(all_digits(s.drop_last()));
        assert(s.take(i) =~= s.drop_last().take(i));
        lemma_digits_value_prefix(s.drop_last(), i);
        lemma_digits_value_nonneg(s.drop_last());
    }
}

/// Formatting then reading back is the identity: `dec_digits(n)` is all
/// digits, is never empty, and denotes `n`.
pub proof fn lemma_dec_digits_value(n: nat)
    ensures
        all_digits(dec_digits(n)),
        dec_digits(n).len() >= 1,
        digits_value(dec_digits(n)) == n,
    decreases n,
{
    if n < 10 {
        assert(dec_digits(n) =~= seq![(n + 48) as u8]);
        assert(dec_digits(n).drop_last() =~= Seq::<u8>::empty());
        assert(dec_digits(n).last() == (n + 48) as u8);
        assert((n + 48) as u8 == n + 48);
        assert(digits_value(Seq::<u8>::empty()) == 0);
    } else {
        lemma_dec_digits_value(n / 10);
        assert(dec_digits(n).drop_last() =~= dec_digits(n / 10));
        assert(dec_digits(n).last() == (n % 10 + 48) as u8);
        assert((n % 10 + 48) as u8 == n % 10 + 48);
        assert(digits_value(dec_digits(n)) == (n / 10) * 10 + n % 10);
        assert((n / 10) * 10 + n % 10 == n) by (nonlinear_arith);
    }
}

/// Parses a decimal `u32`; `None` when the input is empty, holds a
/// non-digit, or denotes a value above `u32::MAX`.
pub fn parse_u32(s: &[u8]) -> (r: Option<u32>)
    ensures
        r is Some <==> (s@.len() > 0 && all_digits(s@) && digits_value(s@) <= u32::MAX),
        r is Some ==> r->0 as int == digits_value(s@),
{
    if s.len() == 0 {
        return None;
    }
    let mut acc: u32 = 0;
    let mut i: usize = 0;
    while i < s.len()
        invariant
            0 <= i <= s@.len(),
            all_digits(s@.take(i as int)),
            acc as int == digits_value(s@.take(i as int)),
        decreases s@.len() - i,
    {
        let b = s[i];
        if b < 48 || b > 57 {
            assert(!is_digit(s@[i as int]));
            return None;
        }
        let d: u32 = (b - 48) as u32;
        if acc > 0xffff_ffffu32 / 10 || (acc == 0xffff_ffffu32 / 10 && d > 0xffff_ffffu32 % 10) {
            proof {
                assert(s@.take(i + 1).drop_last() =~= s@.take(i as int));
                assert(s@.take(i + 1).last() == s@[i as int]);
                assert(digits_value(s@.take(i + 1)) > u32::MAX);
                if all_digits(s@) && digits_value(s@) <= u32::MAX {
                    lemma_digits_value_prefix(s@, i + 1);
                }
            }
            return None;
        }
        proof {
            assert(s@.take(i + 1).drop_last() =~= s@.take(i as int));
            assert(s@.take(i + 1).last() == s@[i as int]);
        }
        acc = acc * 10 + d;
        i = i + 1;
    }
    proof {
        assert(s@.take(i as int) =~= s@);
    }
    Some(acc)
}

/// Renders `n` in decimal, most significant digit first.
pub fn u64_to_dec(n: u64) -> (r: Vec<u8>)
    ensures
        r@ == dec_digits(n as nat),
    decreases n,
{
    if n < 10 {
        let mut v: Vec<u8> = Vec::new();
        v.push((n as u8) + 48);
        proof {
            assert(v@ =~= dec_digits(n as nat));
        }
        v
    } else {
        let mut v = u64_to_dec(n / 10);
        v.push((n % 10) as u8 + 48);
        proof {
            assert(v@ =~= dec_digits(n as nat));
        }
        v
    }
}

/// Renders a signed number in decimal with a leading minus sign when
/// negative.
pub fn i64_to_dec(n: i64) -> (r: Vec<u8>)
    ensures
        r@ == signed_dec_digits(n as int),
{
    if n >= 0 {
        u64_to_dec(n as u64)
    } else {
        let neg: i128 = -(n as i128);
        proof {
            assert(0 <= neg <= u64::MAX);
        }
        let m: u64 = neg as u64;
        let digits = u64_to_dec(m);
        let mut v: Vec<u8> = Vec::new();
        v.push(45);
        let mut j: usize = 0;
        while j < digits.len()
            invariant
                0 <= j <= digits@.len(),
                v@ == seq![45u8] + digits@.take(j as int),
            decreases digits@.len() - j,
        {
            v.push(digits[j]);
            proof {
                assert(v@ =~= seq![45u8] + digits@.take(j + 1));
            }
            j = j + 1;
        }
        proof {
            assert(digits@.take(j as int) =~= digits@);
            assert(v@ =~= signed_dec_digits(n as int));
        }
        v
    }
}

/// Byte-wise equality of two slices, reflected to their views.
pub fn bytes_eq(a: &[u8], b: &[u8]) -> (r: bool)
    ensures
        r <==> a@ == b@,
{
    if a.len() != b.len() {
        return false;
    }
    let mut i: usize = 0;
    while i < a.len()
        invariant
            0 <= i <= a@.len(),
            a@.len() == b@.len(),
            forall|k: int| 0 <= k < i ==> a@[k] == b@[k],
        decreases a@.len() - i,
    {
        if a[i] != b[i] {
            return false;
        }
        i = i + 1;
    }
    proof {
        assert(a@ =~= b@);
    }
    true
}

/// Appends all of `src` onto `dst`.
pub fn append_bytes(dst: &mut Vec<u8>, src: &[u8])
    ensures
        final(dst)@ == old(dst)@ + src@,
{
    let mut i: usize = 0;
    while i < src.len()
        invariant
            0 <= i <= src@.len(),
            dst@ == old(dst)@ + src@.take(i as int),
        decreases src@.len() - i,
    {
        dst.push(src[i]);
        proof {
            assert(old(dst)@ + src@.take(i + 1) =~= (old(dst)@ + src@.take(i as int)).push(
                src@[i as int],
            ));
        }
        i = i + 1;
    }
    proof {
        assert(src@.take(i as int) =~= src@);
    }
}

/// The views of a sequence of byte vectors.
pub open spec fn views_of(vs: Seq<Vec<u8>>) -> Seq<Seq<u8>> {
    vs.map_values(|v: Vec<u8>| v@)
}

/// Splitting `s` at every occurrence of `sep`: always at least one piece,
/// one more piece per separator, separators never appear in a piece.
pub open spec fn spec_split(s: Seq<u8>, sep: u8) -> Seq<Seq<u8>>
    decreases s.len(),
{
    if s.len() == 0 {
        seq![Seq::<u8>::empty()]
    } else if s.last() == sep {
        spec_split(s.drop_last(), sep).push(Seq::<u8>::empty())
    } else {
        let r = spec_split(s.drop_last(), sep);
        r.update(r.len() - 1, r.last().push(s.last()))
    }
}

/// Splits `s` at every occurrence of `sep`.
pub fn split_bytes(s: &[u8], sep: u8) -> (r: Vec<Vec<u8>>)
    ensures
        views_of(r@) == spec_split(s@, sep),
        r@.len() >= 1,
{
    let mut parts: Vec<Vec<u8>> = Vec::new();
    parts.push(Vec::new());
    proof {
        assert(s@.take(0) =~= Seq::<u8>::empty());
        assert(views_of(parts@) =~= spec_split(s@.take(0), sep));
    }
    let mut i: usize = 0;
    while i < s.len()
        invariant
            0 <= i <= s@.len(),
            parts@.len() >= 1,
            views_of(parts@) == spec_split(s@.take(i as int), sep),
        decreases s@.len() - i,
    {
        proof {
            assert(s@.take(i + 1).drop_last() =~= s@.take(i as int));
            assert(s@.take(i + 1).last() == s@[i as int]);
        }
        if s[i] == sep {
            parts.push(Vec::new());
            proof {
                assert(views_of(parts@) =~= spec_split(s@.take(i + 1), sep));
            }
        } else {
            let b = s[i];
            let mut last = parts.pop().unwrap();
            last.push(b);
            parts.push(last);
            proof {
                assert(views_of(parts@) =~= spec_split(s@.take(i + 1), sep));
            }
        }
        i = i + 1;
    }
    proof {
        assert(s@.take(i as int) =~= s@);
    }
    parts
}

/// The non-empty pieces of `parts`, in order.
pub open spec fn non_empty(parts: Seq<Seq<u8>>) -> Seq<Seq<u8>>
    decreases parts.len(),
{
    if parts.len() == 0 {
        Seq::<Seq<u8>>::empty()
    } else if parts.last().len() == 0 {
        non_empty(parts.drop_last())
    } else {
        non_empty(parts.drop_last()).push(parts.last())
    }
}

/// Keeps the non-empty pieces of `parts`, in order.
pub fn keep_non_empty(parts: Vec<Vec<u8>>) -> (r: Vec<Vec<u8>>)
    ensures
        views_of(r@) == non_empty(views_of(parts@)),
{
    let mut out: Vec<Vec<u8>> = Vec::new();
    proof {
        assert(views_of(parts@).take(0) =~= Seq::<Seq<u8>>::empty());
        assert(views_of(out@) =~= non_empty(views_of(parts@).take(0)));
    }
    let mut i: usize = 0;
    while i < parts.len()
        invariant
            0 <= i <= parts@.len(),
            views_of(out@) == non_empty(views_of(parts@).take(i as int)),
        decreases parts@.len() - i,
    {
        proof {
            assert(views_of(parts@).take(i + 1).drop_last() =~= views_of(parts@).take(i as int));
            assert(views_of(parts@).take(i + 1).last() == views_of(parts@)[i as int]);
        }
        if parts[i].len() > 0 {
            let piece = parts[i].clone();
            out.push(piece);
            proof {
                assert(views_of(out@) =~= non_empty(views_of(parts@).take(i + 1)));
            }
        } else {
            proof {
                assert(views_of(out@) =~= non_empty(views_of(parts@).take(i + 1)));
            }
        }
        i = i + 1;
    }
    proof {
        assert(views_of(parts@).take(i as int) =~= views_of(parts@));
    }
    out
}

/// The view of one byte-vector pair.
pub open spec fn pair_view(p: (Vec<u8>, Vec<u8>)) -> (Seq<u8>, Seq<u8>) {
    (p.0@, p.1@)
}

/// The views of a sequence of byte-vector pairs.
pub open spec fn pair_views(ps: Seq<(Vec<u8>, Vec<u8>)>) -> Seq<(Seq<u8>, Seq<u8>)> {
    ps.map_values(|p: (Vec<u8>, Vec<u8>)| pair_view(p))
}

/// The value of the first pair whose key equals `k`, if any.
pub open spec fn lookup_first(ps: Seq<(Seq<u8>, Seq<u8>)>, k: Seq<u8>) -> Option<Seq<u8>>
    decreases ps.len(),
{
    if ps.len() == 0 {
        None
    } else if ps[0].0 == k {
        Some(ps[0].1)
    } else {
        lookup_first(ps.drop_first(), k)
    }
}

/// True when some pair of `ps` is exactly `(k, v)`.
pub open spec fn has_pair(ps: Seq<(Seq<u8>, Seq<u8>)>, k: Seq<u8>, v: Seq<u8>) -> bool {
    exists|i: int| 0 <= i < ps.len() && ps[i].0 == k && ps[i].1 == v
}

/// Returns a copy of the value of the first pair whose key is `key`.
pub fn lookup_pair(ps: &Vec<(Vec<u8>, Vec<u8>)>, key: &[u8]) -> (r: Option<Vec<u8>>)
    ensures
        match r {
            Some(v) => lookup_first(pair_views(ps@), key@) == Some(v@),
            None => lookup_first(pair_views(ps@), key@) is None,
        },
{
    let mut i: usize = 0;
    proof {
        assert(pair_views(ps@).skip(0) =~= pair_views(ps@));
    }
    while i < ps.len()
        invariant
            0 <= i <= ps@.len(),
            lookup_first(pair_views(ps@), key@) == lookup_first(
                pair_views(ps@).skip(i as int),
                key@,
            ),
        decreases ps@.len() - i,
    {
        if bytes_eq(ps[i].0.as_slice(), key) {
            proof {
                assert(pair_views(ps@).skip(i as int)[0] == pair_views(ps@)[i as int]);
            }
            return Some(ps[i].1.clone());
        }
        proof {
            assert(pair_views(ps@).skip(i as int)[0] == pair_views(ps@)[i as int]);
            assert(pair_views(ps@).skip(i as int).drop_first() =~= pair_views(ps@).skip(i + 1));
        }
        i = i + 1;
    }
    proof {
        assert(pair_views(ps@).skip(i as int) =~= Seq::<(Seq<u8>, Seq<u8>)>::empty());
    }
    None
}

} // verus!
