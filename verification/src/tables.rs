//! The font-table views this engine walks: coverage tables, the two
//! single-substitution formats, alternate substitution, lookups, the
//! GSUB feature list, and the MATH variant constructions. Each table is
//! held as plain values, exactly the data the traversal reads, and each
//! visitor returns the ordered sequence of glyphs substitution would
//! produce for one input glyph.

use vstd::prelude::*;

verus! {

/// A coverage table: maps a glyph id to a compact index, the glyph's
/// position in the covered list.
pub struct Coverage {
    pub glyphs: Vec<u16>,
}

/// The index of the first occurrence of `g` in `s`, if any.
pub open spec fn spec_cov_index(s: Seq<u16>, g: u16) -> Option<int>
    decreases s.len(),
{
    if s.len() == 0 {
        None
    } else if s[0] == g {
        Some(0int)
    } else {
        match spec_cov_index(s.drop_first(), g) {
            Some(i) => Some(i + 1),
            None => None,
        }
    }
}

/// The index returned for a covered glyph is in range and holds that
/// glyph; an uncovered glyph has no index.
pub proof fn lemma_cov_index(s: Seq<u16>, g: u16)
    ensures
        match spec_cov_index(s, g) {
            Some(i) => 0 <= i < s.len() && s[i] == g,
            None => forall|j: int| 0 <= j < s.len() ==> s[j] != g,
        },
    decreases s.len(),
{
    if s.len() > 0 && s[0] != g {
        lemma_cov_index(s.drop_first(), g);
        match spec_cov_index(s.drop_first(), g) {
            Some(i) => {
                assert(s.drop_first()[i] == s[i + 1]);
            },
            None => {
                assert forall|j: int| 0 <= j < s.len() implies s[j] != g by {
                    if j > 0 {
                        assert(s.drop_first()[j - 1] == s[j]);
                    }
                }
            },
        }
    }
}

impl Coverage {
    /// The coverage index for `g`, if `g` is covered.
    pub open spec fn spec_get(&self, g: u16) -> Option<int> {
        spec_cov_index(self.glyphs@, g)
    }

    /// Look a glyph up, exactly as `spec_get` states: the index of a
    /// covered glyph is in range and holds that glyph.
    pub fn get(&self, g: u16) -> (r: Option<usize>)
        ensures
            match r {
                Some(i) => self.spec_get(g) == Some(i as int) && i < self.glyphs@.len()
                    && self.glyphs@[i as int] == g,
                None => self.spec_get(g) is None && !self.glyphs@.contains(g),
            },
    {
        proof {
            lemma_cov_index(self.glyphs@, g);
        }
        let n = self.glyphs.len();
        let mut i: usize = 0;
        assert(self.glyphs@.skip(0) =~= self.glyphs@);
        while i < n
            invariant
                0 <= i <= n,
                n == self.glyphs@.len(),
                spec_cov_index(self.glyphs@, g) == match spec_cov_index(
                    self.glyphs@.skip(i as int),
                    g,
                ) {
                    Some(k) => Some(k + i),
                    None => None::<int>,
                },
            decreases n - i,
        {
            assert(self.glyphs@.skip(i as int)[0] == self.glyphs@[i as int]);
            if self.glyphs[i] == g {
                return Some(i);
            }
            assert(self.glyphs@.skip(i as int).drop_first() =~= self.glyphs@.skip(i + 1));
            i = i + 1;
        }
        assert(self.glyphs@.skip(n as int).len() == 0);
        None
    }
}

/// The glyph a single substitution by delta produces: the input glyph
/// plus the signed delta, wrapped into the 16-bit glyph-id space.
pub open spec fn spec_delta_glyph(g: u16, delta: i16) -> u16 {
    let s = g + delta;
    if s < 0 {
        (s + 0x10000) as u16
    } else if s > 0xffff {
        (s - 0x10000) as u16
    } else {
        s as u16
    }
}

/// A single (1:1) substitution subtable, in either of its two formats.
pub enum SingleSubstitution {
    /// Every covered glyph is remapped by one signed delta.
    Format1 { coverage: Coverage, delta: i16 },
    /// The coverage index selects the substitute from an explicit table.
    Format2 { coverage: Coverage, substitutes: Vec<u16> },
}

impl SingleSubstitution {
    /// The glyphs substitution produces for `g`: one glyph when `g` is
    /// covered (and, for format 2, the coverage index has a substitute),
    /// none otherwise. A coverage index with no substitute entry is
    /// tolerated and produces nothing.
    pub open spec fn spec_outputs(&self, g: u16) -> Seq<u16> {
        match *self {
            SingleSubstitution::Format1 { coverage, delta } => match coverage.spec_get(g) {
                Some(_) => seq![spec_delta_glyph(g, delta)],
                None => Seq::empty(),
            },
            SingleSubstitution::Format2 { coverage, substitutes } => match coverage.spec_get(g) {
                Some(i) => if i < substitutes@.len() {
                    seq![substitutes@[i]]
                } else {
                    Seq::empty()
                },
                None => Seq::empty(),
            },
        }
    }

    /// Visit the glyphs substitution produces for `dglyph`, exactly as
    /// `spec_outputs` states.
    pub fn visit_glyph(&self, dglyph: u16) -> (r: Vec<u16>)
        ensures
            r@ == self.spec_outputs(dglyph),
    {
        let mut out: Vec<u16> = Vec::new();
        match self {
            SingleSubstitution::Format1 { coverage, delta } => {
                if coverage.get(dglyph).is_some() {
                    let wide: i32 = dglyph as i32 + *delta as i32;
                    let narrowed: u16 = if wide < 0 {
                        (wide + 0x10000) as u16
                    } else if wide > 0xffff {
                        (wide - 0x10000) as u16
                    } else {
                        wide as u16
                    };
                    out.push(narrowed);
                    assert(out@ =~= self.spec_outputs(dglyph));
                }
            },
            SingleSubstitution::Format2 { coverage, substitutes } => {
                if let Some(index) = coverage.get(dglyph) {
                    if index < substitutes.len() {
                        out.push(substitutes[index]);
                        assert(out@ =~= self.spec_outputs(dglyph));
                    }
                }
            },
        }
        out
    }
}

/// An alternate (1:many) substitution subtable: the coverage index
/// selects an ordered set of alternate glyphs.
pub struct AlternateSubstitution {
    pub coverage: Coverage,
    pub alternate_sets: Vec<Vec<u16>>,
}

impl AlternateSubstitution {
    /// The glyphs substitution produces for `g`: the whole alternate set
    /// the coverage index selects, in stored order; none when `g` is
    /// uncovered or the index has no set.
    pub open spec fn spec_outputs(&self, g: u16) -> Seq<u16> {
        match self.coverage.spec_get(g) {
            Some(i) => if i < self.alternate_sets@.len() {
                self.alternate_sets@[i]@
            } else {
                Seq::empty()
            },
            None => Seq::empty(),
        }
    }

    /// Visit the glyphs substitution produces for `dglyph`, exactly as
    /// `spec_outputs` states.
    pub fn visit_glyph(&self, dglyph: u16) -> (r: Vec<u16>)
        ensures
            r@ == self.spec_outputs(dglyph),
    {
        if let Some(index) = self.coverage.get(dglyph) {
            if index < self.alternate_sets.len() {
                let set = &self.alternate_sets[index];
                let mut out: Vec<u16> = Vec::new();
                let n = set.len();
                let mut i: usize = 0;
                while i < n
                    invariant
                        0 <= i <= n,
                        n == set@.len(),
                        out@ == set@.take(i as int),
                    decreases n - i,
                {
                    out.push(set[i]);
                    assert(out@ =~= set@.take(i + 1));
                    i = i + 1;
                }
                assert(set@.take(n as int) =~= set@);
                return out;
            }
        }
        Vec::new()
    }
}

/// One substitution subtable of a lookup. Only single and alternate
/// substitutions carry recoverable base-codepoint semantics; every other
/// subtable kind is `Other` and is skipped silently.
pub enum SubstitutionSubtable {
    Single(SingleSubstitution),
    Alternate(AlternateSubstitution),
    Other,
}

impl SubstitutionSubtable {
    /// The glyphs this subtable produces for `g`; an `Other` subtable
    /// produces none.
    pub open spec fn spec_outputs(&self, g: u16) -> Seq<u16> {
        match *self {
            SubstitutionSubtable::Single(s) => s.spec_outputs(g),
            SubstitutionSubtable::Alternate(a) => a.spec_outputs(g),
            SubstitutionSubtable::Other => Seq::empty(),
        }
    }
}

/// The glyphs the subtables `sts` produce for `g`, concatenated in
/// subtable order.
pub open spec fn spec_subtables_outputs(sts: Seq<SubstitutionSubtable>, g: u16) -> Seq<u16>
    decreases sts.len(),
{
    if sts.len() == 0 {
        Seq::empty()
    } else {
        spec_subtables_outputs(sts.drop_last(), g) + sts.last().spec_outputs(g)
    }
}

/// One lookup of the GSUB table: an ordered list of substitution
/// subtables.
pub struct Lookup {
    pub subtables: Vec<SubstitutionSubtable>,
}

impl Lookup {
    /// The glyphs this lookup produces for `g`: each subtable's outputs
    /// in subtable order.
    pub open spec fn spec_outputs(&self, g: u16) -> Seq<u16> {
        spec_subtables_outputs(self.subtables@, g)
    }

    /// Visit the glyphs every subtable of this lookup produces for
    /// `dglyph`, exactly as `spec_outputs` states.
    pub fn visit_glyph(&self, dglyph: u16) -> (r: Vec<u16>)
        ensures
            r@ == self.spec_outputs(dglyph),
    {
        let mut out: Vec<u16> = Vec::new();
        let n = self.subtables.len();
        let mut i: usize = 0;
        while i < n
            invariant
                0 <= i <= n,
                n == self.subtables@.len(),
                out@ == spec_subtables_outputs(self.subtables@.take(i as int), dglyph),
            decreases n - i,
        {
            let mut produced: Vec<u16> = match &self.subtables[i] {
                SubstitutionSubtable::Single(t) => t.visit_glyph(dglyph),
                SubstitutionSubtable::Alternate(t) => t.visit_glyph(dglyph),
                SubstitutionSubtable::Other => Vec::new(),
            };
            assert(produced@ == self.subtables@[i as int].spec_outputs(dglyph));
            out.append(&mut produced);
            proof {
                let pre = self.subtables@.take(i as int);
                let cur = self.subtables@.take(i + 1);
                assert(cur.drop_last() =~= pre);
                assert(cur.last() == self.subtables@[i as int]);
            }
            i = i + 1;
        }
        proof {
            assert(self.subtables@.take(n as int) =~= self.subtables@);
        }
        out
    }
}

/// One feature of the GSUB table: its 4-byte tag and the lookup indices
/// it references, in the font's own order.
pub struct Feature {
    pub tag: [u8; 4],
    pub lookup_indices: Vec<u16>,
}

/// The GSUB layout table: the font's ordered feature list and ordered
/// lookup list.
pub struct LayoutTable {
    pub features: Vec<Feature>,
    pub lookups: Vec<Lookup>,
}

/// One orientation of the MATH variant constructions: the coverage index
/// of a base glyph selects its ordered list of variant glyphs.
pub struct Constructions {
    pub coverage: Coverage,
    pub variants: Vec<Vec<u16>>,
}

impl Constructions {
    /// The variant glyphs recorded for `g` in this orientation: the list
    /// its coverage index selects, or none when `g` is uncovered or the
    /// index has no list.
    pub open spec fn spec_outputs(&self, g: u16) -> Seq<u16> {
        match self.coverage.spec_get(g) {
            Some(i) => if i < self.variants@.len() {
                self.variants@[i]@
            } else {
                Seq::empty()
            },
            None => Seq::empty(),
        }
    }

    fn outputs(&self, g: u16) -> (r: Vec<u16>)
        ensures
            r@ == self.spec_outputs(g),
    {
        if let Some(index) = self.coverage.get(g) {
            if index < self.variants.len() {
                let list = &self.variants[index];
                let mut out: Vec<u16> = Vec::new();
                let n = list.len();
                let mut i: usize = 0;
                while i < n
                    invariant
                        0 <= i <= n,
                        n == list@.len(),
                        out@ == list@.take(i as int),
                    decreases n - i,
                {
                    out.push(list[i]);
                    assert(out@ =~= list@.take(i + 1));
                    i = i + 1;
                }
                assert(list@.take(n as int) =~= list@);
                return out;
            }
        }
        Vec::new()
    }
}

/// The MATH variant constructions: horizontal and vertical lists of
/// stretchy or sized alternates per base glyph.
pub struct MathVariants {
    pub horizontal_constructions: Constructions,
    pub vertical_constructions: Constructions,
}

impl MathVariants {
    /// The glyphs the MATH table records for `g`: the horizontal list
    /// then the vertical list, each in stored order, with no
    /// deduplication and the orientation discarded.
    pub open spec fn spec_outputs(&self, g: u16) -> Seq<u16> {
        self.horizontal_constructions.spec_outputs(g) + self.vertical_constructions.spec_outputs(g)
    }

    /// Visit the variant glyphs of `dglyph`, exactly as `spec_outputs`
    /// states.
    pub fn visit_glyph(&self, dglyph: u16) -> (r: Vec<u16>)
        ensures
            r@ == self.spec_outputs(dglyph),
    {
        let mut out = self.horizontal_constructions.outputs(dglyph);
        let mut vert = self.vertical_constructions.outputs(dglyph);
        out.append(&mut vert);
        out
    }
}

} // verus!
