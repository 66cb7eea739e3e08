//! Small verified helpers on byte strings: equality, suffix test, and
//! membership of a byte string in a list of byte strings.

use vstd::prelude::*;

verus! {

/// `s` ends with `suffix`.
pub open spec fn spec_has_suffix(s: Seq<u8>, suffix: Seq<u8>) -> bool {
    s.len() >= suffix.len() && s.skip(s.len() - suffix.len()) == suffix
}

/// Byte-for-byte equality of two byte strings.
pub fn bytes_eq(a: &Vec<u8>, b: &Vec<u8>) -> (r: bool)
    ensures
        r == (a@ == b@),
{
    if a.len() != b.len() {
        assert(a@ != b@);
        return false;
    }
    let mut i: usize = 0;
    while i < a.len()
        invariant
            i <= a.len(),
            a.len() == b.len(),
            forall|j: int| 0 <= j < i ==> a@[j] == b@[j],
        decreases a.len() - i,
    {
        if a[i] != b[i] {
            return false;
        }
        i += 1;
    }
    assert(a@ =~= b@);
    true
}

/// Whether `name` ends with `suffix`.
pub fn has_suffix(name: &Vec<u8>, suffix: &Vec<u8>) -> (r: bool)
    ensures
        r == spec_has_suffix(name@, suffix@),
{
    if name.len() < suffix.len() {
        return false;
    }
    let start: usize = name.len() - suffix.len();
    let mut i: usize = 0;
    while i < suffix.len()
        invariant
            i <= suffix.len(),
            start == name.len() - suffix.len(),
            name.len() >= suffix.len(),
            forall|j: int| 0 <= j < i ==> name@[start + j] == suffix@[j],
        decreases suffix.len() - i,
    {
        if name[start + i] != suffix[i] {
            assert(name@.skip(name@.len() - suffix@.len())[i as int] != suffix@[i as int]);
            return false;
        }
        i += 1;
    }
    assert(name@.skip(name@.len() - suffix@.len()) =~= suffix@);
    true
}

/// A copy of a byte string.
pub fn copy_bytes(v: &Vec<u8>) -> (r: Vec<u8>)
    ensures
        r@ == v@,
{
    let mut out: Vec<u8> = Vec::new();
    let mut i: usize = 0;
    while i < v.len()
        invariant
            i <= v@.len(),
            out@ =~= v@.take(i as int),
        decreases v.len() - i,
    {
        out.push(v[i]);
        i += 1;
    }
    proof {
        assert(v@.take(v@.len() as int) =~= v@);
    }
    out
}

/// Whether `target` occurs in `names`.
pub fn contains_name(names: &Vec<Vec<u8>>, target: &Vec<u8>) -> (r: bool)
    ensures
        r == names.deep_view().contains(target@),
{
    let mut i: usize = 0;
    while i < names.len()
        invariant
            i <= names.len(),
            forall|j: int| 0 <= j < i ==> names.deep_view()[j] != target@,
        decreases names.len() - i,
    {
        assert(names.deep_view()[i as int] =~= names@[i as int]@);
        if bytes_eq(&names[i], target) {
            return true;
        }
        i += 1;
    }
    false
}

} // verus!
