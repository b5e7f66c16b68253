//! The loaders: drive the tag classifier and the visitors across every
//! (feature, lookup) pair of the GSUB table, and across the MATH variant
//! constructions, for a batch of seed (codepoint, base glyph) pairs, and
//! record every produced glyph in the reverse glyph map. The contracts
//! state the final map exactly, as the left-to-right fold of the insert
//! sequence the tables determine, so the last write for a glyph wins.

use vstd::prelude::*;
use crate::rmap::ReverseGlyphMap;
use crate::tables::{LayoutTable, Lookup, MathVariants};
use crate::variant::{spec_tag_variant, Variant, get_tag_variant};

verus! {

/// One recorded association: produced glyph id to (codepoint, variant).
pub type Entry = (u16, (char, Variant));

/// The map after inserting every entry of `s` into `m`, in order; a
/// later entry for the same glyph overrides an earlier one.
pub open spec fn apply_inserts(m: Map<u16, (char, Variant)>, s: Seq<Entry>) -> Map<
    u16,
    (char, Variant),
>
    decreases s.len(),
{
    if s.len() == 0 {
        m
    } else {
        apply_inserts(m, s.drop_last()).insert(s.last().0, s.last().1)
    }
}

/// Folding a concatenation is folding the two parts in turn.
pub proof fn lemma_apply_inserts_concat(
    m: Map<u16, (char, Variant)>,
    a: Seq<Entry>,
    b: Seq<Entry>,
)
    ensures
        apply_inserts(m, a + b) == apply_inserts(apply_inserts(m, a), b),
    decreases b.len(),
{
    if b.len() == 0 {
        assert(a + b =~= a);
    } else {
        lemma_apply_inserts_concat(m, a, b.drop_last());
        assert((a + b).drop_last() =~= a + b.drop_last());
        assert((a + b).last() == b.last());
    }
}

/// The entries that record each glyph of `outs` as produced from
/// codepoint `c` under variant `v`, in order.
pub open spec fn entries_of(outs: Seq<u16>, c: char, v: Variant) -> Seq<Entry> {
    Seq::new(outs.len(), |i: int| (outs[i], (c, v)))
}

/// The entries one lookup index contributes for seed (`c`, `g`) under
/// variant `v`: the outputs of the indexed lookup, or nothing when the
/// index is outside the font's lookup list (tolerated, never fatal).
pub open spec fn lookup_entries(
    lookups: Seq<Lookup>,
    idx: int,
    c: char,
    v: Variant,
    g: u16,
) -> Seq<Entry> {
    if 0 <= idx < lookups.len() {
        entries_of(lookups[idx].spec_outputs(g), c, v)
    } else {
        Seq::empty()
    }
}

/// The entries a feature's lookup-index list contributes, in list order.
pub open spec fn indices_entries(
    lookups: Seq<Lookup>,
    idxs: Seq<u16>,
    c: char,
    v: Variant,
    g: u16,
) -> Seq<Entry>
    decreases idxs.len(),
{
    if idxs.len() == 0 {
        Seq::empty()
    } else {
        indices_entries(lookups, idxs.drop_last(), c, v, g) + lookup_entries(
            lookups,
            idxs.last() as int,
            c,
            v,
            g,
        )
    }
}

/// The entries one feature contributes for seed (`c`, `g`): nothing when
/// its tag is unsupported, else the contributions of its lookup indices
/// under the classified variant.
pub open spec fn feature_entries(
    lookups: Seq<Lookup>,
    f: crate::tables::Feature,
    c: char,
    g: u16,
) -> Seq<Entry> {
    match spec_tag_variant(f.tag@) {
        Some(v) => indices_entries(lookups, f.lookup_indices@, c, v, g),
        None => Seq::empty(),
    }
}

/// The entries a feature list contributes for seed (`c`, `g`), in the
/// font's feature order.
pub open spec fn features_entries(
    lookups: Seq<Lookup>,
    feats: Seq<crate::tables::Feature>,
    c: char,
    g: u16,
) -> Seq<Entry>
    decreases feats.len(),
{
    if feats.len() == 0 {
        Seq::empty()
    } else {
        features_entries(lookups, feats.drop_last(), c, g) + feature_entries(
            lookups,
            feats.last(),
            c,
            g,
        )
    }
}

/// The entire insert sequence the GSUB load performs for `seeds`, seed
/// by seed in order.
pub open spec fn gsub_entries(gsub: LayoutTable, seeds: Seq<(char, u16)>) -> Seq<Entry>
    decreases seeds.len(),
{
    if seeds.len() == 0 {
        Seq::empty()
    } else {
        gsub_entries(gsub, seeds.drop_last()) + features_entries(
            gsub.lookups@,
            gsub.features@,
            seeds.last().0,
            seeds.last().1,
        )
    }
}

/// The entire insert sequence the MATH load performs for `seeds`: each
/// seed's variant glyphs under `Variant::Math`, seed by seed in order.
pub open spec fn math_entries(mv: MathVariants, seeds: Seq<(char, u16)>) -> Seq<Entry>
    decreases seeds.len(),
{
    if seeds.len() == 0 {
        Seq::empty()
    } else {
        math_entries(mv, seeds.drop_last()) + entries_of(
            mv.spec_outputs(seeds.last().1),
            seeds.last().0,
            Variant::Math,
        )
    }
}

/// Insert every glyph of `outputs`, in order, as produced from `c` under
/// variant `v`.
fn insert_outputs(reverse_gmap: &mut ReverseGlyphMap, outputs: &Vec<u16>, c: char, v: Variant)
    ensures
        final(reverse_gmap)@ == apply_inserts(old(reverse_gmap)@, entries_of(outputs@, c, v)),
{
    let n = outputs.len();
    let mut i: usize = 0;
    while i < n
        invariant
            0 <= i <= n,
            n == outputs@.len(),
            reverse_gmap@ == apply_inserts(
                old(reverse_gmap)@,
                entries_of(outputs@.take(i as int), c, v),
            ),
        decreases n - i,
    {
        reverse_gmap.insert((c, v), outputs[i]);
        proof {
            let e1 = entries_of(outputs@.take(i + 1), c, v);
            let e0 = entries_of(outputs@.take(i as int), c, v);
            assert(e1.drop_last() =~= e0);
            assert(e1.last() == (outputs@[i as int], (c, v)));
        }
        i = i + 1;
    }
    proof {
        assert(entries_of(outputs@.take(n as int), c, v) =~= entries_of(outputs@, c, v));
    }
}

/// Load the GSUB table: for every seed pair and every feature with a
/// supported tag, run every referenced lookup's substitution over the
/// seed glyph and record each produced glyph. The final map is exactly
/// the fold of the insert sequence `gsub_entries` states, over the map
/// as it was, so collisions resolve to the last write in table order.
pub fn load_gsub(reverse_gmap: &mut ReverseGlyphMap, gsub: &LayoutTable, dglyphs: &[(char, u16)])
    ensures
        final(reverse_gmap)@ == apply_inserts(old(reverse_gmap)@, gsub_entries(*gsub, dglyphs@)),
{
    let ns = dglyphs.len();
    let mut si: usize = 0;
    while si < ns
        invariant
            0 <= si <= ns,
            ns == dglyphs@.len(),
            reverse_gmap@ == apply_inserts(
                old(reverse_gmap)@,
                gsub_entries(*gsub, dglyphs@.take(si as int)),
            ),
        decreases ns - si,
    {
        let (c, dglyph) = dglyphs[si];
        let ghost m_seed = reverse_gmap@;
        let nf = gsub.features.len();
        let mut fi: usize = 0;
        while fi < nf
            invariant
                0 <= fi <= nf,
                nf == gsub.features@.len(),
                reverse_gmap@ == apply_inserts(
                    m_seed,
                    features_entries(gsub.lookups@, gsub.features@.take(fi as int), c, dglyph),
                ),
            decreases nf - fi,
        {
            let feat = &gsub.features[fi];
            let ghost m_feat = reverse_gmap@;
            let ghost feats_pre = features_entries(
                gsub.lookups@,
                gsub.features@.take(fi as int),
                c,
                dglyph,
            );
            match get_tag_variant(&feat.tag) {
                Some(tag_variant) => {
                    let nk = feat.lookup_indices.len();
                    let mut k: usize = 0;
                    while k < nk
                        invariant
                            0 <= k <= nk,
                            nk == feat.lookup_indices@.len(),
                            *feat == gsub.features@[fi as int],
                            0 <= fi < gsub.features@.len(),
                            spec_tag_variant(feat.tag@) == Some(tag_variant),
                            reverse_gmap@ == apply_inserts(
                                m_feat,
                                indices_entries(
                                    gsub.lookups@,
                                    feat.lookup_indices@.take(k as int),
                                    c,
                                    tag_variant,
                                    dglyph,
                                ),
                            ),
                        decreases nk - k,
                    {
                        let ghost idx_pre = indices_entries(
                            gsub.lookups@,
                            feat.lookup_indices@.take(k as int),
                            c,
                            tag_variant,
                            dglyph,
                        );
                        let li = feat.lookup_indices[k] as usize;
                        if li < gsub.lookups.len() {
                            let produced = gsub.lookups[li].visit_glyph(dglyph);
                            insert_outputs(reverse_gmap, &produced, c, tag_variant);
                        }
                        proof {
                            let idxs1 = feat.lookup_indices@.take(k + 1);
                            assert(idxs1.drop_last() =~= feat.lookup_indices@.take(k as int));
                            assert(idxs1.last() == feat.lookup_indices@[k as int]);
                            lemma_apply_inserts_concat(
                                m_feat,
                                idx_pre,
                                lookup_entries(gsub.lookups@, li as int, c, tag_variant, dglyph),
                            );
                        }
                        k = k + 1;
                    }
                    proof {
                        assert(feat.lookup_indices@.take(nk as int) =~= feat.lookup_indices@);
                    }
                },
                None => {
                },
            }
            proof {
                let feats1 = gsub.features@.take(fi + 1);
                assert(feats1.drop_last() =~= gsub.features@.take(fi as int));
                assert(feats1.last() == gsub.features@[fi as int]);
                lemma_apply_inserts_concat(
                    m_seed,
                    feats_pre,
                    feature_entries(gsub.lookups@, gsub.features@[fi as int], c, dglyph),
                );
            }
            fi = fi + 1;
        }
        proof {
            assert(gsub.features@.take(nf as int) =~= gsub.features@);
            let seeds1 = dglyphs@.take(si + 1);
            assert(seeds1.drop_last() =~= dglyphs@.take(si as int));
            assert(seeds1.last() == dglyphs@[si as int]);
            lemma_apply_inserts_concat(
                old(reverse_gmap)@,
                gsub_entries(*gsub, dglyphs@.take(si as int)),
                features_entries(gsub.lookups@, gsub.features@, c, dglyph),
            );
        }
        si = si + 1;
    }
    proof {
        assert(dglyphs@.take(ns as int) =~= dglyphs@);
    }
}

/// Load the MATH variant constructions: for every seed pair record each
/// horizontal then vertical variant glyph under `Variant::Math`. The
/// final map is exactly the fold of the insert sequence `math_entries`
/// states, over the map as it was; GSUB and MATH loads may run in either
/// order against the same map, the final state depending only on the
/// relative insert order.
pub fn load_math_variants(
    reverse_gmap: &mut ReverseGlyphMap,
    variant: &MathVariants,
    dglyphs: &[(char, u16)],
)
    ensures
        final(reverse_gmap)@ == apply_inserts(old(reverse_gmap)@, math_entries(*variant, dglyphs@)),
{
    let ns = dglyphs.len();
    let mut si: usize = 0;
    while si < ns
        invariant
            0 <= si <= ns,
            ns == dglyphs@.len(),
            reverse_gmap@ == apply_inserts(
                old(reverse_gmap)@,
                math_entries(*variant, dglyphs@.take(si as int)),
            ),
        decreases ns - si,
    {
        let (c, dglyph) = dglyphs[si];
        let ghost pre = math_entries(*variant, dglyphs@.take(si as int));
        let produced = variant.visit_glyph(dglyph);
        insert_outputs(reverse_gmap, &produced, c, Variant::Math);
        proof {
            let seeds1 = dglyphs@.take(si + 1);
            assert(seeds1.drop_last() =~= dglyphs@.take(si as int));
            assert(seeds1.last() == dglyphs@[si as int]);
            lemma_apply_inserts_concat(
                old(reverse_gmap)@,
                pre,
                entries_of(produced@, c, Variant::Math),
            );
        }
        si = si + 1;
    }
    proof {
        assert(dglyphs@.take(ns as int) =~= dglyphs@);
    }
}

/// A feature whose tag is unsupported contributes no entries, however
/// well-formed the subtables its lookups hold.
pub proof fn lemma_unsupported_feature_contributes_nothing(
    lookups: Seq<Lookup>,
    f: crate::tables::Feature,
    c: char,
    g: u16,
)
    requires
        spec_tag_variant(f.tag@) is None,
    ensures
        feature_entries(lookups, f, c, g) == Seq::<Entry>::empty(),
{
}

/// A key is in the folded map exactly when it was in the map before or
/// some entry inserts it.
pub proof fn lemma_apply_inserts_dom(m: Map<u16, (char, Variant)>, s: Seq<Entry>, k: u16)
    ensures
        apply_inserts(m, s).contains_key(k) <==> m.contains_key(k) || exists|i: int|
            0 <= i < s.len() && (#[trigger] s[i]).0 == k,
    decreases s.len(),
{
    if s.len() > 0 {
        lemma_apply_inserts_dom(m, s.drop_last(), k);
        if s.last().0 == k {
            assert(0 <= s.len() - 1 < s.len() && s[s.len() - 1].0 == k);
        } else {
            assert(forall|i: int|
                0 <= i < s.len() - 1 ==> s.drop_last()[i] == s[i]);
            if exists|i: int| 0 <= i < s.len() && (#[trigger] s[i]).0 == k {
                let i = choose|i: int| 0 <= i < s.len() && (#[trigger] s[i]).0 == k;
                assert(i < s.len() - 1);
                assert(s.drop_last()[i].0 == k);
            }
        }
    }
}

/// Last write wins: when position `i` holds the last entry for its
/// glyph, the folded map records exactly that entry's value for it.
pub proof fn lemma_last_write_wins(m: Map<u16, (char, Variant)>, s: Seq<Entry>, i: int)
    requires
        0 <= i < s.len(),
        forall|j: int| i < j < s.len() ==> (#[trigger] s[j]).0 != s[i].0,
    ensures
        apply_inserts(m, s).contains_key(s[i].0),
        apply_inserts(m, s)[s[i].0] == s[i].1,
    decreases s.len(),
{
    if i == s.len() - 1 {
    } else {
        assert(forall|j: int|
            i < j < s.len() - 1 ==> (#[trigger] s.drop_last()[j]) == s[j]);
        assert(s.drop_last()[i] == s[i]);
        lemma_last_write_wins(m, s.drop_last(), i);
        assert(s.last().0 != s[i].0);
    }
}

/// Size invariant: folding entries whose glyphs are pairwise distinct
/// and all new to the map grows the key count by exactly the number of
/// entries.
pub proof fn lemma_fresh_inserts_len(m: Map<u16, (char, Variant)>, s: Seq<Entry>)
    requires
        m.dom().finite(),
        forall|i: int, j: int| 0 <= i < j < s.len() ==> (#[trigger] s[i]).0 != (#[trigger] s[j]).0,
        forall|i: int| 0 <= i < s.len() ==> !m.contains_key((#[trigger] s[i]).0),
    ensures
        apply_inserts(m, s).dom().finite(),
        apply_inserts(m, s).len() == m.len() + s.len(),
    decreases s.len(),
{
    if s.len() > 0 {
        assert(forall|i: int|
            0 <= i < s.len() - 1 ==> (#[trigger] s.drop_last()[i]) == s[i]);
        lemma_fresh_inserts_len(m, s.drop_last());
        lemma_apply_inserts_dom(m, s.drop_last(), s.last().0);
        let md = apply_inserts(m, s.drop_last());
        assert(!md.contains_key(s.last().0));
        assert(apply_inserts(m, s).dom() == md.dom().insert(s.last().0));
    }
}

} // verus!
