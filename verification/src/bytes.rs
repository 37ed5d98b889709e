//! Byte-string helpers for claim labels and names.
//!
//! Claim content arrives as raw bytes.  Labels are ASCII decimal numbers,
//! possibly joined with `.` into `parcel.district` pairs, and bitmap claims
//! carry a fixed `.bitmap` suffix.  This module gives the verified splitting,
//! parsing and comparison primitives the classifier is built on.

use vstd::prelude::*;

verus! {

/// The ASCII code of `.`, the separator inside claim labels.
pub const DOT: u8 = 46;

/// The `.bitmap` suffix that marks bitmap-claim content.
pub open spec fn bitmap_suffix() -> Seq<u8> {
    seq![46u8, 98u8, 105u8, 116u8, 109u8, 97u8, 112u8]
}

/// The `prune` history-retention mode.
pub open spec fn prune_mode() -> Seq<u8> {
    seq![112u8, 114u8, 117u8, 110u8, 101u8]
}

/// The `testnet` chain name, on which rejected name claims are quarantined.
pub open spec fn testnet_name() -> Seq<u8> {
    seq![116u8, 101u8, 115u8, 116u8, 110u8, 101u8, 116u8]
}

pub open spec fn is_digit(b: u8) -> bool {
    48 <= b && b <= 57
}

pub open spec fn all_digits(s: Seq<u8>) -> bool {
    forall|i: int| 0 <= i < s.len() ==> is_digit(#[trigger] s[i])
}

/// The numeric value of a decimal digit string.
pub open spec fn dec_value(s: Seq<u8>) -> nat
    decreases s.len(),
{
    if s.len() == 0 {
        0
    } else {
        dec_value(s.drop_last()) * 10 + (s.last() - 48) as nat
    }
}

/// Whether a label segment is a well-formed number: a non-empty digit
/// string whose value fits in `u64`.  Claims whose label segment is not a
/// number are rejected, never read as some default value.
pub open spec fn is_label_number(s: Seq<u8>) -> bool {
    s.len() > 0 && all_digits(s) && dec_value(s) <= u64::MAX
}

/// A prefix of a digit string never denotes more than the whole string.
pub proof fn lemma_dec_value_prefix(s: Seq<u8>, j: int)
    requires
        0 <= j <= s.len(),
    ensures
        dec_value(s.subrange(0, j)) <= dec_value(s),
    decreases s.len(),
{
    if j == s.len() {
        assert(s.subrange(0, j) =~= s);
    } else {
        lemma_dec_value_prefix(s.drop_last(), j);
        assert(s.drop_last().subrange(0, j) =~= s.subrange(0, j));
    }
}

/// Parses a decimal label segment: its value where the segment is a
/// non-empty digit string fitting in `u64`, and nothing otherwise.
pub fn parse_label(s: &Vec<u8>) -> (r: Option<u64>)
    ensures
        r == (if is_label_number(s@) {
            Some(dec_value(s@) as u64)
        } else {
            None::<u64>
        }),
{
    if s.len() == 0 {
        return None;
    }
    let mut acc: u64 = 0;
    let mut i: usize = 0;
    while i < s.len()
        invariant
            0 <= i <= s@.len(),
            s@.len() > 0,
            all_digits(s@.subrange(0, i as int)),
            acc == dec_value(s@.subrange(0, i as int)),
        decreases s@.len() - i,
    {
        let b = s[i];
        if !(48 <= b && b <= 57) {
            assert(!all_digits(s@));
            return None;
        }
        let wide: u128 = (acc as u128) * 10 + ((b - 48) as u128);
        proof {
            assert(s@.subrange(0, i + 1).drop_last() =~= s@.subrange(0, i as int));
            assert(s@.subrange(0, i + 1).last() == s@[i as int]);
        }
        if wide > u64::MAX as u128 {
            proof {
                assert(dec_value(s@.subrange(0, i + 1)) > u64::MAX);
                lemma_dec_value_prefix(s@, i + 1);
            }
            return None;
        }
        acc = wide as u64;
        i = i + 1;
    }
    proof {
        assert(s@.subrange(0, s@.len() as int) =~= s@);
    }
    Some(acc)
}

/// True when `a` and `b` hold the same bytes.
pub fn bytes_eq(a: &Vec<u8>, b: &Vec<u8>) -> (r: bool)
    ensures
        r == (a@ == b@),
{
    if a.len() != b.len() {
        return false;
    }
    let mut i: usize = 0;
    while i < a.len()
        invariant
            0 <= i <= a@.len(),
            a@.len() == b@.len(),
            forall|j: int| 0 <= j < i ==> a@[j] == b@[j],
        decreases a@.len() - i,
    {
        if a[i] != b[i] {
            return false;
        }
        i = i + 1;
    }
    proof {
        assert(a@ =~= b@);
    }
    true
}

/// A fresh vector holding the same bytes as `v`.
pub fn copy_bytes(v: &Vec<u8>) -> (r: Vec<u8>)
    ensures
        r@ == v@,
{
    let mut r: Vec<u8> = Vec::new();
    let mut i: usize = 0;
    while i < v.len()
        invariant
            0 <= i <= v@.len(),
            r@ == v@.subrange(0, i as int),
        decreases v@.len() - i,
    {
        r.push(v[i]);
        proof {
            assert(v@.subrange(0, i as int).push(v@[i as int]) =~= v@.subrange(0, i + 1));
        }
        i = i + 1;
    }
    proof {
        assert(v@.subrange(0, v@.len() as int) =~= v@);
    }
    r
}

/// The concatenation of `a` and `b`.
pub fn concat_bytes(a: &Vec<u8>, b: &Vec<u8>) -> (r: Vec<u8>)
    ensures
        r@ == a@ + b@,
{
    let mut r = copy_bytes(a);
    let mut i: usize = 0;
    while i < b.len()
        invariant
            0 <= i <= b@.len(),
            r@ == a@ + b@.subrange(0, i as int),
        decreases b@.len() - i,
    {
        r.push(b[i]);
        proof {
            assert((a@ + b@.subrange(0, i as int)).push(b@[i as int]) =~= a@ + b@.subrange(
                0,
                i + 1,
            ));
        }
        i = i + 1;
    }
    proof {
        assert(a@ + b@.subrange(0, b@.len() as int) =~= a@ + b@);
        assert(a@ + b@.subrange(0, 0) =~= a@);
    }
    r
}

pub open spec fn has_suffix(s: Seq<u8>, suffix: Seq<u8>) -> bool {
    s.len() >= suffix.len() && s.subrange(s.len() - suffix.len(), s.len() as int) == suffix
}

/// True when `s` ends with `suffix`.
pub fn ends_with(s: &Vec<u8>, suffix: &Vec<u8>) -> (r: bool)
    ensures
        r == has_suffix(s@, suffix@),
{
    if s.len() < suffix.len() {
        return false;
    }
    let n: usize = s.len();
    let start: usize = n - suffix.len();
    let mut i: usize = 0;
    while i < suffix.len()
        invariant
            0 <= i <= suffix@.len(),
            n == s@.len(),
            start == s@.len() - suffix@.len(),
            s@.len() >= suffix@.len(),
            forall|j: int| 0 <= j < i ==> s@[start + j] == suffix@[j],
        decreases suffix@.len() - i,
    {
        proof {
            assert(start + i < s@.len());
        }
        if s[start + i] != suffix[i] {
            proof {
                let tail = s@.subrange(s@.len() - suffix@.len(), s@.len() as int);
                assert(tail[i as int] == s@[start + i]);
            }
            return false;
        }
        i = i + 1;
    }
    proof {
        assert(s@.subrange(s@.len() - suffix@.len(), s@.len() as int) =~= suffix@);
    }
    true
}

/// An exec vector holding the `.bitmap` suffix bytes.
pub fn bitmap_suffix_bytes() -> (r: Vec<u8>)
    ensures
        r@ == bitmap_suffix(),
{
    let r: Vec<u8> = vec![46u8, 98u8, 105u8, 116u8, 109u8, 97u8, 112u8];
    proof {
        assert(r@ =~= bitmap_suffix());
    }
    r
}

/// An exec vector holding the `prune` mode bytes.
pub fn prune_mode_bytes() -> (r: Vec<u8>)
    ensures
        r@ == prune_mode(),
{
    let r: Vec<u8> = vec![112u8, 114u8, 117u8, 110u8, 101u8];
    proof {
        assert(r@ =~= prune_mode());
    }
    r
}

/// An exec vector holding the `testnet` chain name bytes.
pub fn testnet_name_bytes() -> (r: Vec<u8>)
    ensures
        r@ == testnet_name(),
{
    let r: Vec<u8> = vec![116u8, 101u8, 115u8, 116u8, 110u8, 101u8, 116u8];
    proof {
        assert(r@ =~= testnet_name());
    }
    r
}

/// The segments of `s` between `.` separators, in order.  A string without a
/// dot is one segment; every dot opens a further segment, so the result is
/// never empty and `"a.".split` style edge shapes keep their empty segments.
pub open spec fn split_dots(s: Seq<u8>) -> Seq<Seq<u8>>
    decreases s.len(),
{
    if s.len() == 0 {
        seq![Seq::<u8>::empty()]
    } else if s[0] == DOT {
        seq![Seq::<u8>::empty()] + split_dots(s.subrange(1, s.len() as int))
    } else {
        let rest = split_dots(s.subrange(1, s.len() as int));
        seq![seq![s[0]] + rest[0]] + rest.subrange(1, rest.len() as int)
    }
}

pub proof fn lemma_split_dots_len(s: Seq<u8>)
    ensures
        split_dots(s).len() >= 1,
    decreases s.len(),
{
    if s.len() != 0 {
        lemma_split_dots_len(s.subrange(1, s.len() as int));
    }
}

/// Prepending a dot-free prefix extends the first segment and nothing else.
pub proof fn lemma_split_prepend(a: Seq<u8>, t: Seq<u8>)
    requires
        forall|j: int| 0 <= j < a.len() ==> a[j] != DOT,
    ensures
        split_dots(a + t).len() == split_dots(t).len(),
        split_dots(a + t)[0] == a + split_dots(t)[0],
        forall|k: int| 1 <= k < split_dots(t).len() ==> split_dots(a + t)[k] == split_dots(t)[k],
    decreases a.len(),
{
    lemma_split_dots_len(t);
    if a.len() == 0 {
        assert(a + t =~= t);
        assert(a + split_dots(t)[0] =~= split_dots(t)[0]);
    } else {
        lemma_split_prepend(a.subrange(1, a.len() as int), t);
        let s = a + t;
        assert(s.len() > 0 && s[0] == a[0] && a[0] != DOT);
        assert(s.subrange(1, s.len() as int) =~= a.subrange(1, a.len() as int) + t);
        let rest = split_dots(s.subrange(1, s.len() as int));
        assert(split_dots(s)[0] == seq![s[0]] + rest[0]);
        assert(seq![s[0]] + (a.subrange(1, a.len() as int) + split_dots(t)[0]) =~= a + split_dots(
            t,
        )[0]);
        assert forall|k: int| 1 <= k < split_dots(t).len() implies split_dots(s)[k] == split_dots(
            t,
        )[k] by {
            assert(split_dots(s)[k] == rest.subrange(1, rest.len() as int)[k - 1]);
            assert(rest[k] == split_dots(t)[k]);
        }
    }
}

/// A dot-free string is a single segment.
pub proof fn lemma_split_nodot(a: Seq<u8>)
    requires
        forall|j: int| 0 <= j < a.len() ==> a[j] != DOT,
    ensures
        split_dots(a) =~~= seq![a],
{
    lemma_split_prepend(a, Seq::<u8>::empty());
    assert(a + Seq::<u8>::empty() =~= a);
    assert(split_dots(Seq::<u8>::empty()) =~= seq![Seq::<u8>::empty()]);
    assert(a + Seq::<u8>::empty() =~= a);
    assert(split_dots(a)[0] =~= a);
    assert(split_dots(a) =~~= seq![a]);
}

/// A dot-free string followed by a dot and a tail splits as that string, then
/// the tail's segments.
pub proof fn lemma_split_at_dot(a: Seq<u8>, t: Seq<u8>)
    requires
        forall|j: int| 0 <= j < a.len() ==> a[j] != DOT,
    ensures
        split_dots(a + seq![DOT] + t) =~~= seq![a] + split_dots(t),
{
    lemma_split_dots_len(t);
    assert(a + seq![DOT] + t =~= a + (seq![DOT] + t));
    lemma_split_prepend(a, seq![DOT] + t);
    let d = seq![DOT] + t;
    assert(d[0] == DOT);
    assert(d.subrange(1, d.len() as int) =~= t);
    assert(split_dots(d) =~= seq![Seq::<u8>::empty()] + split_dots(t));
    assert(split_dots(d)[0] =~= Seq::<u8>::empty());
    let s = a + (seq![DOT] + t);
    assert(split_dots(s)[0] =~= a + Seq::<u8>::empty());
    assert(a + Seq::<u8>::empty() =~= a);
    assert forall|k: int| 1 <= k < split_dots(s).len() implies split_dots(s)[k] == (seq![a]
        + split_dots(t))[k] by {
        assert(split_dots(s)[k] == split_dots(d)[k]);
        assert(split_dots(d)[k] == (seq![Seq::<u8>::empty()] + split_dots(t))[k]);
    }
    assert(split_dots(s) =~~= seq![a] + split_dots(t));
}

/// The views of a vector of byte vectors.
pub open spec fn views_of(p: Seq<Vec<u8>>) -> Seq<Seq<u8>> {
    p.map_values(|v: Vec<u8>| v@)
}

/// Splits `s` on every `.`, as the protocol reads claim labels.
pub fn split_on_dot(s: &Vec<u8>) -> (r: Vec<Vec<u8>>)
    ensures
        views_of(r@) == split_dots(s@),
        r@.len() == split_dots(s@).len(),
        forall|k: int| 0 <= k < r@.len() ==> (#[trigger] r@[k])@ == split_dots(s@)[k],
{
    let mut parts: Vec<Vec<u8>> = Vec::new();
    let mut cur: Vec<u8> = Vec::new();
    let mut i: usize = 0;
    proof {
        assert(Seq::<u8>::empty() + s@.subrange(0, s@.len() as int) =~= s@);
        assert(views_of(Seq::<Vec<u8>>::empty()) =~= Seq::<Seq<u8>>::empty());
    }
    while i < s.len()
        invariant
            0 <= i <= s@.len(),
            forall|j: int| 0 <= j < cur@.len() ==> cur@[j] != DOT,
            split_dots(s@) =~~= views_of(parts@) + split_dots(cur@ + s@.subrange(i as int, s@.len() as int)),
        decreases s@.len() - i,
    {
        let ghost old_parts = parts@;
        let ghost old_cur = cur@;
        let ghost rest = s@.subrange(i + 1, s@.len() as int);
        let b = s[i];
        if b == DOT {
            proof {
                assert(old_cur + s@.subrange(i as int, s@.len() as int) =~= old_cur + seq![DOT]
                    + rest);
                lemma_split_at_dot(old_cur, rest);
            }
            parts.push(cur);
            cur = Vec::new();
            proof {
                assert(views_of(parts@) =~= views_of(old_parts).push(old_cur));
                assert(views_of(old_parts) + (seq![old_cur] + split_dots(rest)) =~~= views_of(
                    parts@,
                ) + split_dots(Seq::<u8>::empty() + rest));
                assert(Seq::<u8>::empty() + rest =~= rest);
            }
        } else {
            cur.push(b);
            proof {
                assert(cur@ + rest =~= old_cur + s@.subrange(i as int, s@.len() as int));
            }
        }
        i = i + 1;
    }
    proof {
        assert(cur@ + s@.subrange(s@.len() as int, s@.len() as int) =~= cur@);
        lemma_split_nodot(cur@);
    }
    parts.push(cur);
    proof {
        assert(views_of(parts@) =~~= split_dots(s@));
    }
    parts
}

} // verus!
