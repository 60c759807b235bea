use vstd::prelude::*;

verus! {

/// The values of the entries that are present, in order; absent entries are dropped.
pub open spec fn present_values<A>(s: Seq<Option<A>>) -> Seq<A>
    decreases s.len(),
{
    if s.len() == 0 {
        Seq::empty()
    } else {
        let rest = present_values(s.drop_last());
        match s.last() {
            Some(v) => rest.push(v),
            None => rest,
        }
    }
}

/// Of the first `n` glyphs, those whose dimensions were found.
pub open spec fn kept_glyphs<A>(glyphs: Seq<u32>, dims: Seq<Option<A>>, n: nat) -> Seq<u32>
    decreases n,
{
    if n == 0 {
        Seq::empty()
    } else {
        let rest = kept_glyphs(glyphs, dims, (n - 1) as nat);
        if dims[n - 1] is Some {
            rest.push(glyphs[n - 1])
        } else {
            rest
        }
    }
}

/// Of the first `n` dimension lookups, the advances that were found.
pub open spec fn kept_advances<A>(dims: Seq<Option<A>>, n: nat) -> Seq<A>
    decreases n,
{
    if n == 0 {
        Seq::empty()
    } else {
        let rest = kept_advances(dims, (n - 1) as nat);
        match dims[n - 1] {
            Some(a) => rest.push(a),
            None => rest,
        }
    }
}

/// How many glyph and dimension lookups are paired: the shorter of the two.
pub open spec fn paired_len(glyph_count: int, dims_count: int) -> nat {
    if glyph_count <= dims_count {
        glyph_count as nat
    } else {
        dims_count as nat
    }
}

pub proof fn lemma_present_values_len<A>(s: Seq<Option<A>>)
    ensures
        present_values(s).len() <= s.len(),
        s.len() == 0 ==> present_values(s).len() == 0,
    decreases s.len(),
{
    if s.len() > 0 {
        lemma_present_values_len(s.drop_last());
    }
}

pub proof fn lemma_kept_len<A>(glyphs: Seq<u32>, dims: Seq<Option<A>>, n: nat)
    ensures
        kept_glyphs(glyphs, dims, n).len() == kept_advances(dims, n).len(),
        kept_advances(dims, n).len() <= n,
    decreases n,
{
    if n > 0 {
        lemma_kept_len(glyphs, dims, (n - 1) as nat);
    }
}

/// Shaping a text gives glyph indices and advances of equal length, and no
/// more of them than the text has characters (one index lookup per character);
/// an empty text gives two empty sequences.
pub proof fn lemma_shape_lengths<A>(lookups: Seq<Option<u32>>, dims: Seq<Option<A>>)
    ensures
        ({
            let glyphs = present_values(lookups);
            let n = paired_len(glyphs.len() as int, dims.len() as int);
            &&& kept_glyphs(glyphs, dims, n).len() == kept_advances(dims, n).len()
            &&& kept_advances(dims, n).len() <= lookups.len()
            &&& lookups.len() == 0 ==> glyphs.len() == 0 && kept_advances(dims, n).len() == 0
        }),
{
    let glyphs = present_values(lookups);
    let n = paired_len(glyphs.len() as int, dims.len() as int);
    lemma_present_values_len(lookups);
    lemma_kept_len(glyphs, dims, n);
}

/// The glyph indices that the font maps, in order; characters without a glyph
/// are dropped, not replaced.
pub fn glyph_indices(lookups: &Vec<Option<u32>>) -> (r: Vec<u32>)
    ensures
        r@ == present_values(lookups@),
{
    let mut r: Vec<u32> = Vec::new();
    let mut i: usize = 0;
    while i < lookups.len()
        invariant
            i <= lookups.len(),
            r@ == present_values(lookups@.take(i as int)),
        decreases lookups.len() - i,
    {
        assert(lookups@.take(i + 1).drop_last() =~= lookups@.take(i as int));
        match lookups[i] {
            Some(g) => r.push(g),
            None => {},
        }
        i += 1;
    }
    assert(lookups@.take(i as int) =~= lookups@);
    r
}

/// Pairs glyph indices with the advances found for them; a glyph whose
/// dimensions are unknown is dropped from both results, which therefore have
/// equal lengths.
pub fn glyphs_with_advances<A>(glyphs: Vec<u32>, dims: Vec<Option<A>>) -> (r: (Vec<u32>, Vec<A>))
    ensures
        r.0@ == kept_glyphs(glyphs@, dims@, paired_len(glyphs@.len() as int, dims@.len() as int)),
        r.1@ == kept_advances(dims@, paired_len(glyphs@.len() as int, dims@.len() as int)),
{
    let n: usize = if glyphs.len() <= dims.len() {
        glyphs.len()
    } else {
        dims.len()
    };
    let ghost all = dims@;
    let mut dims = dims;
    let mut reversed: Vec<Option<A>> = Vec::new();
    while dims.len() > 0
        invariant
            reversed.len() + dims.len() == all.len(),
            dims@ == all.take(dims.len() as int),
            forall|k: int| 0 <= k < reversed.len() ==> reversed@[k] == all[all.len() - 1 - k],
        decreases dims.len(),
    {
        match dims.pop() {
            Some(d) => reversed.push(d),
            None => {},
        }
    }
    let mut kept: Vec<u32> = Vec::new();
    let mut advances: Vec<A> = Vec::new();
    let mut i: usize = 0;
    while i < n
        invariant
            n == paired_len(glyphs@.len() as int, all.len() as int),
            i <= n,
            reversed.len() == all.len() - i,
            forall|k: int| 0 <= k < reversed.len() ==> reversed@[k] == all[all.len() - 1 - k],
            kept@ == kept_glyphs(glyphs@, all, i as nat),
            advances@ == kept_advances(all, i as nat),
        decreases n - i,
    {
        match reversed.pop() {
            Some(Some(a)) => {
                kept.push(glyphs[i]);
                advances.push(a);
            },
            _ => {},
        }
        i += 1;
    }
    (kept, advances)
}

} // verus!
