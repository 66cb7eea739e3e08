//! Scaffolding a new solution: template names are normalized to the
//! language's source extension, and the solution file's content is the
//! templates' contents, copied verbatim one after another.

use vstd::prelude::*;
use crate::bytes::copy_bytes;
use crate::paths::DOT;
use crate::paths::file_extension;
use crate::paths::lemma_last_dot_index;
use crate::paths::lemma_last_dot_index_unique;
use crate::paths::last_dot_index;
use crate::paths::spec_extension;
use crate::paths::spec_stem;
use crate::paths::spec_with_extension;
use crate::paths::with_extension;

verus! {

/// A template name, normalized: its extension is replaced by the extension
/// of the language's source file name, when that name has one.
pub open spec fn spec_normalize(template: Seq<u8>, source: Seq<u8>) -> Seq<u8> {
    match spec_extension(source) {
        Some(e) => spec_with_extension(template, e),
        None => template,
    }
}

/// Normalize `template` to the extension of `source_name`.
pub fn normalize_template_name(template: &Vec<u8>, source_name: &Vec<u8>) -> (r: Vec<u8>)
    ensures
        r@ == spec_normalize(template@, source_name@),
{
    match file_extension(source_name) {
        Some(e) => with_extension(template, &e),
        None => copy_bytes(template),
    }
}

/// The contents of the templates, in order, as one byte string.
pub fn assemble_solution(parts: &Vec<Vec<u8>>) -> (r: Vec<u8>)
    ensures
        r@ == parts.deep_view().flatten(),
{
    let ghost dv = parts.deep_view();
    let mut out: Vec<u8> = Vec::new();
    let mut i: usize = 0;
    proof {
        assert(dv.take(0) =~= Seq::<Seq<u8>>::empty());
        assert(out@ =~= dv.take(0).flatten());
    }
    while i < parts.len()
        invariant
            i <= parts@.len(),
            dv == parts.deep_view(),
            out@ =~= dv.take(i as int).flatten(),
        decreases parts.len() - i,
    {
        let ghost before = out@;
        let part = &parts[i];
        proof {
            assert(dv[i as int] =~= part@);
        }
        let mut j: usize = 0;
        while j < part.len()
            invariant
                j <= part@.len(),
                out@ =~= before + part@.take(j as int),
            decreases part.len() - j,
        {
            out.push(part[j]);
            j += 1;
        }
        proof {
            assert(part@.take(part@.len() as int) =~= part@);
            assert(dv.take(i + 1) =~= dv.take(i as int).push(dv[i as int]));
            dv.take(i as int).lemma_flatten_push(dv[i as int]);
        }
        i += 1;
    }
    proof {
        assert(dv.take(dv.len() as int) =~= dv);
    }
    out
}

/// The scaffolding round trip: a template whose name is normalized to the
/// language's source extension ends with exactly that extension, and the
/// solution scaffolded from one template holds that template's content
/// verbatim.
pub proof fn lemma_scaffold_round_trip(
    template: Seq<u8>,
    source: Seq<u8>,
    e: Seq<u8>,
    content: Seq<u8>,
)
    requires
        template.len() > 0,
        spec_extension(source) == Some(e),
        e.len() > 0,
    ensures
        spec_extension(spec_normalize(template, source)) == Some(e),
        seq![content].flatten() == content,
{
    lemma_last_dot_index(source);
    lemma_last_dot_index(template);
    let d = last_dot_index(source);
    assert(e =~= source.skip(d + 1));
    let stem = spec_stem(template);
    assert(stem.len() >= 1);
    let normalized = spec_normalize(template, source);
    assert(normalized == stem + seq![DOT] + e);
    let p = stem.len() as int;
    assert(normalized[p] == DOT);
    assert forall|j: int| p < j < normalized.len() implies normalized[j] != DOT by {
        assert(normalized[j] == e[j - p - 1]);
        assert(e[j - p - 1] == source[d + 1 + (j - p - 1)]);
    }
    lemma_last_dot_index_unique(normalized, p);
    assert(spec_extension(normalized) == Some(normalized.skip(p + 1)));
    assert(normalized.skip(p + 1) =~= e);
    seq![content].lemma_flatten_one_element();
    assert(seq![content].first() == content);
}

} // verus!
