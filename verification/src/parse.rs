//! Byte-level helpers: decimal parsing, comma splitting, and small searches
//! over byte and id vectors, each pinned to a spec-level definition.

use vstd::prelude::*;

verus! {

/// `b` is an ASCII decimal digit.
pub open spec fn is_digit(b: u8) -> bool {
    48 <= b <= 57
}

/// Every byte of `s` is an ASCII decimal digit.
pub open spec fn all_digits(s: Seq<u8>) -> bool {
    forall|i: int| 0 <= i < s.len() ==> is_digit(#[trigger] s[i])
}

/// Numeric value of a digit string, most significant digit first.
pub open spec fn digits_val(s: Seq<u8>) -> int
    decreases s.len(),
{
    if s.len() == 0 {
        0
    } else {
        10 * digits_val(s.drop_last()) + (s.last() - 48)
    }
}

/// What a decimal byte string denotes as a `u32`: defined exactly when the
/// string is non-empty, all digits, and its value fits.
pub open spec fn spec_parse_u32(s: Seq<u8>) -> Option<u32> {
    if s.len() > 0 && all_digits(s) && digits_val(s) <= u32::MAX {
        Some(digits_val(s) as u32)
    } else {
        None
    }
}

proof fn lemma_digits_val_nonneg(s: Seq<u8>)
    requires
        all_digits(s),
    ensures
        digits_val(s) >= 0,
    decreases s.len(),
{
    if s.len() > 0 {
        assert(all_digits(s.drop_last()));
        lemma_digits_val_nonneg(s.drop_last());
    }
}

/// A digit string is worth at least any of its prefixes.
proof fn lemma_digits_val_prefix_le(s: Seq<u8>, i: int)
    requires
        all_digits(s),
        0 <= i <= s.len(),
    ensures
        digits_val(s.take(i)) <= digits_val(s),
    decreases s.len() - i,
{
    if i < s.len() {
        lemma_digits_val_prefix_le(s, i + 1);
        let t = s.take(i + 1);
        assert(t.drop_last() =~= s.take(i));
        assert(all_digits(t.drop_last()));
        lemma_digits_val_nonneg(t.drop_last());
        assert(digits_val(t) == 10 * digits_val(s.take(i)) + (s[i] - 48));
    } else {
        assert(s.take(i) =~= s);
    }
}

/// Parses a non-empty, all-digit decimal byte string into a `u32`.
pub fn parse_u32(s: &[u8]) -> (r: Option<u32>)
    ensures
        r == spec_parse_u32(s@),
{
    if s.len() == 0 {
        return None;
    }
    let mut acc: u64 = 0;
    let mut i: usize = 0;
    while i < s.len()
        invariant
            0 <= i <= s@.len(),
            all_digits(s@.take(i as int)),
            acc == digits_val(s@.take(i as int)),
            acc <= u32::MAX,
        decreases s@.len() - i,
    {
        let b = s[i];
        if b < 48 || b > 57 {
            assert(!all_digits(s@));
            return None;
        }
        acc = acc * 10 + ((b - 48) as u64);
        i = i + 1;
        proof {
            let t = s@.take(i as int);
            assert(t.drop_last() =~= s@.take(i as int - 1));
            assert(t.last() == s@[i as int - 1]);
        }
        if acc > 0xFFFF_FFFFu64 {
            proof {
                if all_digits(s@) {
                    lemma_digits_val_prefix_le(s@, i as int);
                }
            }
            return None;
        }
    }
    proof {
        assert(s@.take(i as int) =~= s@);
    }
    Some(acc as u32)
}

/// Splitting a byte string at commas, mirroring how `","`-separated fields
/// read: an empty string yields one empty field, and each comma ends a field.
pub open spec fn split_commas(s: Seq<u8>) -> Seq<Seq<u8>>
    decreases s.len(),
{
    if s.len() == 0 {
        seq![Seq::empty()]
    } else if s.last() == 44 {
        split_commas(s.drop_last()).push(Seq::empty())
    } else {
        let r = split_commas(s.drop_last());
        r.update(r.len() - 1, r.last().push(s.last()))
    }
}

proof fn lemma_split_commas_len(s: Seq<u8>)
    ensures
        split_commas(s).len() >= 1,
    decreases s.len(),
{
    if s.len() > 0 {
        lemma_split_commas_len(s.drop_last());
    }
}

/// Splits `s` at each comma byte into owned segments.
pub fn split_at_commas(s: &[u8]) -> (r: Vec<Vec<u8>>)
    ensures
        r.deep_view() == split_commas(s@),
{
    let mut segs: Vec<Vec<u8>> = Vec::new();
    segs.push(Vec::new());
    proof {
        assert(segs.deep_view() =~~= split_commas(s@.take(0)));
    }
    let mut i: usize = 0;
    while i < s.len()
        invariant
            0 <= i <= s@.len(),
            segs.deep_view() == split_commas(s@.take(i as int)),
            segs.len() >= 1,
        decreases s@.len() - i,
    {
        let ghost prev = segs.deep_view();
        let b = s[i];
        if b == 44 {
            segs.push(Vec::new());
        } else {
            let last = segs.len() - 1;
            let mut seg = segs.remove(last);
            seg.push(b);
            segs.push(seg);
        }
        i = i + 1;
        proof {
            let t = s@.take(i as int);
            assert(t.drop_last() =~= s@.take(i as int - 1));
            assert(t.last() == s@[i as int - 1]);
            lemma_split_commas_len(t.drop_last());
            if b == 44 {
                assert(segs.deep_view() =~~= prev.push(Seq::empty()));
            } else {
                assert(segs.deep_view() =~~= prev.update(
                    prev.len() - 1,
                    prev.last().push(b),
                ));
            }
            assert(segs.deep_view() =~~= split_commas(t));
        }
    }
    proof {
        assert(s@.take(i as int) =~= s@);
    }
    segs
}

/// No byte of `s` is NUL.
pub open spec fn no_nul(s: Seq<u8>) -> bool {
    forall|i: int| 0 <= i < s.len() ==> #[trigger] s[i] != 0
}

/// Reports whether `s` holds a NUL byte.
pub fn has_nul(s: &[u8]) -> (r: bool)
    ensures
        r == !no_nul(s@),
{
    let mut i: usize = 0;
    while i < s.len()
        invariant
            0 <= i <= s@.len(),
            no_nul(s@.take(i as int)),
        decreases s@.len() - i,
    {
        if s[i] == 0 {
            return true;
        }
        i = i + 1;
        proof {
            assert(s@.take(i as int) =~= s@.take(i as int - 1).push(s@[i as int - 1]));
        }
    }
    proof {
        assert(s@.take(i as int) =~= s@);
    }
    false
}

/// Reports whether the id vector `v` holds `x`.
pub fn contains_id(v: &Vec<u32>, x: u32) -> (r: bool)
    ensures
        r == v@.contains(x),
{
    let mut i: usize = 0;
    while i < v.len()
        invariant
            0 <= i <= v@.len(),
            forall|j: int| 0 <= j < i ==> v@[j] != x,
        decreases v@.len() - i,
    {
        if v[i] == x {
            return true;
        }
        i = i + 1;
    }
    false
}

/// Reports whether the id vectors `a` and `b` share an element.
pub fn ids_intersect(a: &Vec<u32>, b: &Vec<u32>) -> (r: bool)
    ensures
        r == exists|g: u32| a@.contains(g) && b@.contains(g),
{
    let mut i: usize = 0;
    while i < a.len()
        invariant
            0 <= i <= a@.len(),
            forall|j: int| 0 <= j < i ==> !b@.contains(#[trigger] a@[j]),
        decreases a@.len() - i,
    {
        if contains_id(b, a[i]) {
            return true;
        }
        i = i + 1;
    }
    false
}

/// Reports whether two byte vectors hold the same bytes.
pub fn bytes_eq(a: &Vec<u8>, b: &Vec<u8>) -> (r: bool)
    ensures
        r == (a@ == b@),
{
    if a.len() != b.len() {
        return false;
    }
    let mut i: usize = 0;
    while i < a.len()
        invariant
            0 <= i <= a@.len(),
            a@.len() == b@.len(),
            forall|j: int| 0 <= j < i ==> a@[j] == b@[j],
        decreases a@.len() - i,
    {
        if a[i] != b[i] {
            return false;
        }
        i = i + 1;
    }
    proof {
        assert(a@ =~= b@);
    }
    true
}

/// Reports whether `paths` holds a byte string equal to `x`.
pub fn contains_bytes(paths: &Vec<Vec<u8>>, x: &Vec<u8>) -> (r: bool)
    ensures
        r == paths.deep_view().contains(x@),
{
    let mut i: usize = 0;
    while i < paths.len()
        invariant
            0 <= i <= paths@.len(),
            forall|j: int| 0 <= j < i ==> paths.deep_view()[j] != x@,
        decreases paths@.len() - i,
    {
        proof {
            assert(paths.deep_view()[i as int] == paths@[i as int]@);
        }
        if bytes_eq(&paths[i], x) {
            return true;
        }
        i = i + 1;
    }
    false
}

} // verus!
