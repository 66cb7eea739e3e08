//! File-name logic on plain byte names: extension, stem, and replacing an
//! extension. A name's extension is everything after its last dot, except
//! that a dot in the first position (a hidden file) does not start one.

use vstd::prelude::*;

verus! {

pub const DOT: u8 = 46;

/// Index of the last dot of `s` that can start an extension: the largest
/// `i >= 1` with `s[i]` a dot, or `-1` if there is none.
pub open spec fn last_dot_index(s: Seq<u8>) -> int
    decreases s.len(),
{
    if s.len() <= 1 {
        -1
    } else if s[s.len() - 1] == DOT {
        s.len() - 1
    } else {
        last_dot_index(s.drop_last())
    }
}

/// `last_dot_index` points at the last extension dot: it is a dot at a
/// position past the first, and no dot follows it.
pub proof fn lemma_last_dot_index(s: Seq<u8>)
    ensures
        last_dot_index(s) == -1 || 1 <= last_dot_index(s) < s.len(),
        last_dot_index(s) >= 1 ==> s[last_dot_index(s)] == DOT,
        forall|j: int| last_dot_index(s) < j < s.len() && j >= 1 ==> s[j] != DOT,
    decreases s.len(),
{
    if s.len() > 1 && s[s.len() - 1] != DOT {
        lemma_last_dot_index(s.drop_last());
        assert forall|j: int| last_dot_index(s) < j < s.len() && j >= 1 implies s[j] != DOT by {
            if j < s.len() - 1 {
                assert(s.drop_last()[j] == s[j]);
            }
        }
        if last_dot_index(s) >= 1 {
            assert(s.drop_last()[last_dot_index(s)] == s[last_dot_index(s)]);
        }
    }
}

/// Any dot position past the first with no dot after it is
/// `last_dot_index(s)`.
pub proof fn lemma_last_dot_index_unique(s: Seq<u8>, i: int)
    requires
        1 <= i < s.len(),
        s[i] == DOT,
        forall|j: int| i < j < s.len() ==> s[j] != DOT,
    ensures
        last_dot_index(s) == i,
    decreases s.len(),
{
    if i == s.len() - 1 {
    } else {
        assert(s[s.len() - 1] != DOT);
        assert(s.drop_last()[i] == s[i]);
        assert forall|j: int| i < j < s.len() - 1 implies s.drop_last()[j] != DOT by {
            assert(s.drop_last()[j] == s[j]);
        }
        lemma_last_dot_index_unique(s.drop_last(), i);
    }
}

/// The extension of `name`, if it has one. A name ending in a dot has the
/// empty extension; a name whose only dot is its first byte has none.
pub open spec fn spec_extension(name: Seq<u8>) -> Option<Seq<u8>> {
    if last_dot_index(name) == -1 {
        None
    } else {
        Some(name.skip(last_dot_index(name) + 1))
    }
}

/// The stem of `name`: the part before the extension dot, or the whole name
/// when there is no extension.
pub open spec fn spec_stem(name: Seq<u8>) -> Seq<u8> {
    if last_dot_index(name) == -1 {
        name
    } else {
        name.take(last_dot_index(name))
    }
}

/// `name` with its extension replaced by `ext` (or removed, when `ext` is
/// empty).
pub open spec fn spec_with_extension(name: Seq<u8>, ext: Seq<u8>) -> Seq<u8> {
    if ext.len() == 0 {
        spec_stem(name)
    } else {
        spec_stem(name) + seq![DOT] + ext
    }
}

/// Index of the last extension dot of `name`, if it has one.
fn find_last_dot(name: &Vec<u8>) -> (r: Option<usize>)
    ensures
        match r {
            Some(i) => last_dot_index(name@) == i as int,
            None => last_dot_index(name@) == -1,
        },
{
    proof {
        lemma_last_dot_index(name@);
    }
    let mut i: usize = name.len();
    while i > 1
        invariant
            i <= name.len(),
            forall|j: int| i <= j < name@.len() ==> name@[j] != DOT,
        decreases i,
    {
        i -= 1;
        if name[i] == DOT {
            proof {
                lemma_last_dot_index_unique(name@, i as int);
            }
            return Some(i);
        }
    }
    None
}

/// The extension of `name`, if it has one.
pub fn file_extension(name: &Vec<u8>) -> (r: Option<Vec<u8>>)
    ensures
        match r {
            Some(e) => spec_extension(name@) == Some(e@),
            None => spec_extension(name@) is None,
        },
{
    match find_last_dot(name) {
        None => None,
        Some(i) => {
            let n = name.len();
            proof {
                lemma_last_dot_index(name@);
                assert(last_dot_index(name@) == i as int);
                assert(i < n);
            }
            let mut e: Vec<u8> = Vec::new();
            let mut j: usize = i + 1;
            while j < name.len()
                invariant
                    i + 1 <= j <= name@.len(),
                    e@ =~= name@.subrange(i + 1, j as int),
                decreases name.len() - j,
            {
                e.push(name[j]);
                j += 1;
            }
            proof {
                assert(e@ =~= name@.skip(i + 1));
            }
            Some(e)
        },
    }
}

/// The stem of `name`.
pub fn file_stem(name: &Vec<u8>) -> (r: Vec<u8>)
    ensures
        r@ == spec_stem(name@),
{
    proof {
        lemma_last_dot_index(name@);
    }
    let end = match find_last_dot(name) {
        None => name.len(),
        Some(i) => i,
    };
    let mut s: Vec<u8> = Vec::new();
    let mut j: usize = 0;
    while j < end
        invariant
            j <= end <= name@.len(),
            s@ =~= name@.subrange(0, j as int),
        decreases end - j,
    {
        s.push(name[j]);
        j += 1;
    }
    proof {
        assert(s@ =~= name@.take(end as int));
        assert(name@.take(name@.len() as int) =~= name@);
    }
    s
}

/// `name` with its extension replaced by `ext`.
pub fn with_extension(name: &Vec<u8>, ext: &Vec<u8>) -> (r: Vec<u8>)
    ensures
        r@ == spec_with_extension(name@, ext@),
{
    let mut r = file_stem(name);
    if ext.len() == 0 {
        return r;
    }
    r.push(DOT);
    let mut j: usize = 0;
    while j < ext.len()
        invariant
            j <= ext@.len(),
            r@ =~= spec_stem(name@) + seq![DOT] + ext@.take(j as int),
        decreases ext.len() - j,
    {
        r.push(ext[j]);
        j += 1;
    }
    proof {
        assert(ext@.take(ext@.len() as int) =~= ext@);
    }
    r
}

} // verus!
