//! The fixture scanner: out of a directory listing it keeps the input files,
//! each paired with its same-stem expected-output file, in listing order;
//! names without a partner are skipped.

use vstd::prelude::*;
use crate::bytes::contains_name;
use crate::bytes::copy_bytes;
use crate::bytes::has_suffix;
use crate::bytes::spec_has_suffix;
use crate::paths::DOT;
use crate::paths::file_stem;
use crate::paths::spec_stem;
use crate::paths::spec_with_extension;
use crate::paths::with_extension;

verus! {

/// Byte value of the letter `i`.
pub const LETTER_I: u8 = 105;

/// Byte value of the letter `n`.
pub const LETTER_N: u8 = 110;

/// Byte value of the letter `o`.
pub const LETTER_O: u8 = 111;

/// Byte value of the letter `u`.
pub const LETTER_U: u8 = 117;

/// Byte value of the letter `t`.
pub const LETTER_T: u8 = 116;

/// The suffix that marks an input file: `.in`.
pub open spec fn in_suffix() -> Seq<u8> {
    seq![DOT, LETTER_I, LETTER_N]
}

/// The extension of an expected-output file: `out`.
pub open spec fn out_extension() -> Seq<u8> {
    seq![LETTER_O, LETTER_U, LETTER_T]
}

/// A paired input/expected-output file set, named by a shared stem.
pub struct Fixture {
    pub input_name: Vec<u8>,
    pub output_name: Vec<u8>,
    pub stem: Vec<u8>,
}

/// The mathematical shape of a `Fixture`.
pub ghost struct FixtureView {
    pub input_name: Seq<u8>,
    pub output_name: Seq<u8>,
    pub stem: Seq<u8>,
}

impl View for Fixture {
    type V = FixtureView;

    open spec fn view(&self) -> FixtureView {
        FixtureView {
            input_name: self.input_name@,
            output_name: self.output_name@,
            stem: self.stem@,
        }
    }
}

/// The views of a sequence of fixtures.
pub open spec fn fixture_views(s: Seq<Fixture>) -> Seq<FixtureView> {
    s.map_values(|f: Fixture| f@)
}

/// `name` is an input file of the listing `names` that has its partner:
/// it ends in `.in` and the listing also holds its `.out` counterpart.
pub open spec fn spec_is_paired(names: Seq<Seq<u8>>, name: Seq<u8>) -> bool {
    &&& spec_has_suffix(name, in_suffix())
    &&& names.contains(spec_with_extension(name, out_extension()))
}

/// The fixture built from an input file name.
pub open spec fn fixture_of(name: Seq<u8>) -> FixtureView {
    FixtureView {
        input_name: name,
        output_name: spec_with_extension(name, out_extension()),
        stem: spec_stem(name),
    }
}

/// The fixtures among `names[i..]`, in listing order.
pub open spec fn spec_fixtures_from(names: Seq<Seq<u8>>, i: int) -> Seq<FixtureView>
    decreases names.len() - i,
{
    if i < 0 || i >= names.len() {
        Seq::empty()
    } else if spec_is_paired(names, names[i]) {
        seq![fixture_of(names[i])] + spec_fixtures_from(names, i + 1)
    } else {
        spec_fixtures_from(names, i + 1)
    }
}

/// The fixtures of the listing `names`, in listing order.
pub open spec fn spec_fixtures(names: Seq<Seq<u8>>) -> Seq<FixtureView> {
    spec_fixtures_from(names, 0)
}

/// Pair the input files of the listing `names` with their expected-output
/// partners; names without a partner are skipped.
pub fn pair_fixtures(names: &Vec<Vec<u8>>) -> (r: Vec<Fixture>)
    ensures
        fixture_views(r@) == spec_fixtures(names.deep_view()),
{
    let ghost dnames = names.deep_view();
    let mut in_suf: Vec<u8> = Vec::new();
    in_suf.push(DOT);
    in_suf.push(LETTER_I);
    in_suf.push(LETTER_N);
    let mut out_ext: Vec<u8> = Vec::new();
    out_ext.push(LETTER_O);
    out_ext.push(LETTER_U);
    out_ext.push(LETTER_T);
    proof {
        assert(in_suf@ =~= in_suffix());
        assert(out_ext@ =~= out_extension());
    }
    let mut r: Vec<Fixture> = Vec::new();
    let mut i: usize = 0;
    proof {
        assert(fixture_views(r@) =~= Seq::<FixtureView>::empty());
        assert(spec_fixtures(dnames) =~= Seq::<FixtureView>::empty() + spec_fixtures_from(
            dnames,
            0,
        ));
    }
    while i < names.len()
        invariant
            i <= names@.len(),
            dnames == names.deep_view(),
            in_suf@ == in_suffix(),
            out_ext@ == out_extension(),
            spec_fixtures(dnames) =~= fixture_views(r@) + spec_fixtures_from(dnames, i as int),
        decreases names.len() - i,
    {
        let ghost views = fixture_views(r@);
        proof {
            assert(dnames[i as int] =~= names@[i as int]@);
        }
        let name = &names[i];
        if has_suffix(name, &in_suf) {
            let output_name = with_extension(name, &out_ext);
            if contains_name(names, &output_name) {
                let f = Fixture {
                    input_name: copy_bytes(name),
                    output_name,
                    stem: file_stem(name),
                };
                proof {
                    assert(spec_is_paired(dnames, dnames[i as int]));
                    assert(f@ == fixture_of(dnames[i as int]));
                }
                r.push(f);
                proof {
                    assert(fixture_views(r@) =~= views.push(f@));
                    assert(views.push(f@) =~= views + seq![fixture_of(dnames[i as int])]);
                }
            } else {
                proof {
                    assert(!spec_is_paired(dnames, dnames[i as int]));
                }
            }
        } else {
            proof {
                assert(!spec_is_paired(dnames, dnames[i as int]));
            }
        }
        i += 1;
    }
    r
}

/// Every fixture of a listing is paired: its input name ends in `.in` and
/// its expected-output partner is in the listing.
pub proof fn lemma_fixtures_from_all_paired(names: Seq<Seq<u8>>, i: int)
    ensures
        forall|k: int|
            0 <= k < spec_fixtures_from(names, i).len() ==> spec_is_paired(
                names,
                #[trigger] spec_fixtures_from(names, i)[k].input_name,
            ),
    decreases names.len() - i,
{
    if 0 <= i < names.len() {
        lemma_fixtures_from_all_paired(names, i + 1);
        let rest = spec_fixtures_from(names, i + 1);
        if spec_is_paired(names, names[i]) {
            let s = seq![fixture_of(names[i])] + rest;
            assert(spec_fixtures_from(names, i) == s);
            assert forall|k: int|
                0 <= k < spec_fixtures_from(names, i).len() implies spec_is_paired(
                names,
                #[trigger] spec_fixtures_from(names, i)[k].input_name,
            ) by {
                assert(spec_fixtures_from(names, i)[k] == s[k]);
                if k == 0 {
                    assert(s[k] == fixture_of(names[i]));
                } else {
                    assert(s[k] == rest[k - 1]);
                    assert(spec_is_paired(names, rest[k - 1].input_name));
                }
            }
        } else {
            assert forall|k: int|
                0 <= k < spec_fixtures_from(names, i).len() implies spec_is_paired(
                names,
                #[trigger] spec_fixtures_from(names, i)[k].input_name,
            ) by {
                assert(spec_fixtures_from(names, i)[k] == rest[k]);
                assert(spec_is_paired(names, rest[k].input_name));
            }
        }
    }
}

/// A name without a partner never appears in the fixture list: no verdict is
/// ever produced for it.
pub proof fn lemma_unpaired_name_excluded(names: Seq<Seq<u8>>, name: Seq<u8>)
    requires
        !spec_is_paired(names, name),
    ensures
        forall|k: int|
            0 <= k < spec_fixtures(names).len() ==> #[trigger] spec_fixtures(
                names,
            )[k].input_name != name,
{
    lemma_fixtures_from_all_paired(names, 0);
}

} // verus!
