//! The byte-buffer scanner the bibliography tokenizer drives: a shared
//! byte buffer with cursor offsets that scanning operations read and
//! advance in place. Each operation either reports "matched / did not
//! match" as a boolean or classifies how the scan stopped.

use vstd::prelude::*;

verus! {

/// Lexical class of one buffer byte.
#[derive(Debug, Clone, Copy, PartialEq, Eq, Structural)]
pub enum LexClass {
    Illegal,
    Whitespace,
    Alpha,
    Numeric,
    SepChar,
    Other,
}

/// The lexical class of byte `c`: whitespace for space, tab, line feed,
/// form feed and carriage return; numeric for ASCII digits; alpha for
/// ASCII letters; separators for tilde and hyphen; illegal for the
/// remaining control bytes and delete; other for the rest.
pub open spec fn spec_lex_class(c: u8) -> LexClass {
    if c == 32 || c == 9 || c == 10 || c == 12 || c == 13 {
        LexClass::Whitespace
    } else if 48 <= c <= 57 {
        LexClass::Numeric
    } else if (65 <= c <= 90) || (97 <= c <= 122) {
        LexClass::Alpha
    } else if c == 126 || c == 45 {
        LexClass::SepChar
    } else if c < 32 || c == 127 {
        LexClass::Illegal
    } else {
        LexClass::Other
    }
}

impl LexClass {
    /// Classify a byte, exactly as `spec_lex_class` states.
    pub fn of(c: u8) -> (r: LexClass)
        ensures
            r == spec_lex_class(c),
    {
        if c == 32 || c == 9 || c == 10 || c == 12 || c == 13 {
            LexClass::Whitespace
        } else if 48 <= c && c <= 57 {
            LexClass::Numeric
        } else if (65 <= c && c <= 90) || (97 <= c && c <= 122) {
            LexClass::Alpha
        } else if c == 126 || c == 45 {
            LexClass::SepChar
        } else if c < 32 || c == 127 {
            LexClass::Illegal
        } else {
            LexClass::Other
        }
    }
}

/// Whether a byte may stand in an identifier.
#[derive(Debug, Clone, Copy, PartialEq, Eq, Structural)]
pub enum IdClass {
    IllegalIdChar,
    LegalIdChar,
}

/// True for the printable bytes that identifiers exclude: double quote,
/// number sign, percent, apostrophe, the parentheses, comma, equals and
/// the braces.
pub open spec fn spec_id_forbidden(c: u8) -> bool {
    c == 34 || c == 35 || c == 37 || c == 39 || c == 40 || c == 41 || c == 44 || c == 61 || c == 123
        || c == 125
}

/// The identifier class of byte `c`: legal for every printable
/// non-space byte that `spec_id_forbidden` does not exclude.
pub open spec fn spec_id_class(c: u8) -> IdClass {
    if 33 <= c <= 126 && !spec_id_forbidden(c) {
        IdClass::LegalIdChar
    } else {
        IdClass::IllegalIdChar
    }
}

impl IdClass {
    /// Classify a byte, exactly as `spec_id_class` states.
    pub fn of(c: u8) -> (r: IdClass)
        ensures
            r == spec_id_class(c),
    {
        if 33 <= c && c <= 126 && !(c == 34 || c == 35 || c == 37 || c == 39 || c == 40 || c == 41
            || c == 44 || c == 61 || c == 123 || c == 125) {
            IdClass::LegalIdChar
        } else {
            IdClass::IllegalIdChar
        }
    }
}

/// How an identifier scan stopped.
#[derive(Debug, Clone, Copy, PartialEq, Eq, Structural)]
pub enum ScanRes {
    IdNull,
    SpecifiedCharAdjacent,
    OtherCharAdjacent,
    WhitespaceAdjacent,
}

/// The shared byte buffer the tokenizer and its collaborators agree on:
/// the bytes, and three cursor offsets — an initial position owned by
/// the caller, the start of the token a scan last recognized, and the
/// scan position the operations advance.
pub struct ScanBuffer {
    pub chars: Vec<u8>,
    pub init: usize,
    pub start: usize,
    pub pos: usize,
}

/// A scan request: stop at any byte of `chars`, at any byte whose
/// lexical class is not `not_class`, or at any byte whose lexical class
/// is `class`.
pub struct Scan<'a> {
    pub chars: &'a [u8],
    pub not_class: Option<LexClass>,
    pub class: Option<LexClass>,
}

impl<'a> Scan<'a> {
    /// True when the scan stops at byte `c`.
    pub open spec fn spec_match(self, c: u8) -> bool {
        (match self.not_class {
            Some(cl) => spec_lex_class(c) != cl,
            None => false,
        }) || (match self.class {
            Some(cl) => spec_lex_class(c) == cl,
            None => false,
        }) || self.chars@.contains(c)
    }

    /// A scan that stops only at the bytes of `chars`.
    pub fn new(chars: &'a [u8]) -> (r: Scan<'a>)
        ensures
            r.chars@ == chars@,
            r.not_class is None,
            r.class is None,
    {
        Scan { chars, not_class: None, class: None }
    }

    /// Stop also at every byte whose lexical class is not `class`.
    pub fn not_class(self, class: LexClass) -> (r: Self)
        ensures
            r.chars@ == self.chars@,
            r.not_class == Some(class),
            r.class == self.class,
    {
        Scan { not_class: Some(class), ..self }
    }

    /// Stop also at every byte whose lexical class is `class`.
    pub fn class(self, class: LexClass) -> (r: Self)
        ensures
            r.chars@ == self.chars@,
            r.not_class == self.not_class,
            r.class == Some(class),
    {
        Scan { class: Some(class), ..self }
    }

    /// Whether the scan stops at byte `c`, exactly as `spec_match`
    /// states.
    pub fn match_char(&self, c: u8) -> (r: bool)
        ensures
            r == self.spec_match(c),
    {
        let by_not_class = match self.not_class {
            Some(cl) => {
                let lc = LexClass::of(c);
                lc != cl
            },
            None => false,
        };
        let by_class = match self.class {
            Some(cl) => {
                let lc = LexClass::of(c);
                lc == cl
            },
            None => false,
        };
        by_not_class || by_class || contains_byte(self.chars, c)
    }

    /// Advance the scan position to the first byte at or after it, and
    /// before `last`, where the scan stops; record the old position as
    /// the token start. Returns whether such a byte was found before
    /// `last`.
    pub fn scan_till(&self, buffer: &mut ScanBuffer, last: usize) -> (r: bool)
        requires
            old(buffer).pos <= last,
            last <= old(buffer).chars.len(),
        ensures
            final(buffer).chars == old(buffer).chars,
            final(buffer).init == old(buffer).init,
            final(buffer).start == old(buffer).pos,
            old(buffer).pos <= final(buffer).pos <= last,
            forall|j: int|
                old(buffer).pos <= j < final(buffer).pos ==> !self.spec_match(
                    #[trigger] final(buffer).chars@[j],
                ),
            final(buffer).pos < last ==> self.spec_match(final(buffer).chars@[final(buffer).pos as int]),
            r == (final(buffer).pos < last),
    {
        buffer.start = buffer.pos;
        let mut idx: usize = buffer.pos;
        while idx < last && !self.match_char(buffer.chars[idx])
            invariant
                old(buffer).pos <= idx <= last,
                last <= buffer.chars.len(),
                *buffer == (ScanBuffer { start: old(buffer).pos, ..*old(buffer) }),
                forall|j: int|
                    old(buffer).pos <= j < idx ==> !self.spec_match(#[trigger] buffer.chars@[j]),
            decreases last - idx,
        {
            idx = idx + 1;
        }
        buffer.pos = idx;
        idx < last
    }

    /// As `scan_till`, but report whether the position advanced at all.
    pub fn scan_till_nonempty(&self, buffer: &mut ScanBuffer, last: usize) -> (r: bool)
        requires
            old(buffer).pos <= last,
            last <= old(buffer).chars.len(),
        ensures
            final(buffer).chars == old(buffer).chars,
            final(buffer).init == old(buffer).init,
            final(buffer).start == old(buffer).pos,
            old(buffer).pos <= final(buffer).pos <= last,
            forall|j: int|
                old(buffer).pos <= j < final(buffer).pos ==> !self.spec_match(
                    #[trigger] final(buffer).chars@[j],
                ),
            final(buffer).pos < last ==> self.spec_match(final(buffer).chars@[final(buffer).pos as int]),
            r == (final(buffer).pos != old(buffer).pos),
    {
        let start = buffer.pos;
        self.scan_till(buffer, last);
        buffer.pos != start
    }
}

/// True when `s` holds the byte `c`.
fn contains_byte(s: &[u8], c: u8) -> (r: bool)
    ensures
        r == s@.contains(c),
{
    let n = s.len();
    let mut i: usize = 0;
    while i < n
        invariant
            0 <= i <= n,
            n == s@.len(),
            forall|j: int| 0 <= j < i ==> s@[j] != c,
        decreases n - i,
    {
        if s[i] == c {
            return true;
        }
        i = i + 1;
    }
    false
}

/// Stop at `char1`.
pub fn scan1(char1: u8, buffer: &mut ScanBuffer, last: usize) -> (r: bool)
    requires
        old(buffer).pos <= last,
        last <= old(buffer).chars.len(),
    ensures
        final(buffer).chars == old(buffer).chars,
        final(buffer).init == old(buffer).init,
        final(buffer).start == old(buffer).pos,
        old(buffer).pos <= final(buffer).pos <= last,
        forall|j: int| old(buffer).pos <= j < final(buffer).pos ==> #[trigger] final(buffer).chars@[j] != char1,
        final(buffer).pos < last ==> final(buffer).chars@[final(buffer).pos as int] == char1,
        r == (final(buffer).pos < last),
{
    let arr: [u8; 1] = [char1];
    let scan = Scan::new(arr.as_slice());
    let r = scan.scan_till(buffer, last);
    proof {
        assert forall|j: int|
            old(buffer).pos <= j < buffer.pos implies #[trigger] buffer.chars@[j] != char1 by {
            assert(arr@[0] == char1);
        }
        if buffer.pos < last {
            assert(arr@.contains(buffer.chars@[buffer.pos as int]));
        }
    }
    r
}

/// Stop at `char1` or at whitespace.
pub fn scan1_white(char1: u8, buffer: &mut ScanBuffer, last: usize) -> (r: bool)
    requires
        old(buffer).pos <= last,
        last <= old(buffer).chars.len(),
    ensures
        final(buffer).chars == old(buffer).chars,
        final(buffer).init == old(buffer).init,
        final(buffer).start == old(buffer).pos,
        old(buffer).pos <= final(buffer).pos <= last,
        forall|j: int|
            old(buffer).pos <= j < final(buffer).pos ==> (#[trigger] final(buffer).chars@[j] != char1
                && spec_lex_class(final(buffer).chars@[j]) != LexClass::Whitespace),
        final(buffer).pos < last ==> (final(buffer).chars@[final(buffer).pos as int] == char1 || spec_lex_class(
            final(buffer).chars@[final(buffer).pos as int],
        ) == LexClass::Whitespace),
        r == (final(buffer).pos < last),
{
    let arr: [u8; 1] = [char1];
    let scan = Scan::new(arr.as_slice()).class(LexClass::Whitespace);
    let r = scan.scan_till(buffer, last);
    proof {
        assert forall|j: int|
            old(buffer).pos <= j < buffer.pos implies (#[trigger] buffer.chars@[j] != char1
            && spec_lex_class(buffer.chars@[j]) != LexClass::Whitespace) by {
            assert(arr@[0] == char1);
        }
        if buffer.pos < last {
            let c = buffer.chars@[buffer.pos as int];
            if arr@.contains(c) {
                assert(c == arr@[choose|i: int| 0 <= i < arr@.len() && arr@[i] == c]);
            }
        }
    }
    r
}

/// Stop at `char1` or `char2`.
pub fn scan2(char1: u8, char2: u8, buffer: &mut ScanBuffer, last: usize) -> (r: bool)
    requires
        old(buffer).pos <= last,
        last <= old(buffer).chars.len(),
    ensures
        final(buffer).chars == old(buffer).chars,
        final(buffer).init == old(buffer).init,
        final(buffer).start == old(buffer).pos,
        old(buffer).pos <= final(buffer).pos <= last,
        forall|j: int|
            old(buffer).pos <= j < final(buffer).pos ==> (#[trigger] final(buffer).chars@[j] != char1
                && final(buffer).chars@[j] != char2),
        final(buffer).pos < last ==> (final(buffer).chars@[final(buffer).pos as int] == char1 || final(buffer).chars@[final(buffer).pos as int] == char2),
        r == (final(buffer).pos < last),
{
    let arr: [u8; 2] = [char1, char2];
    let scan = Scan::new(arr.as_slice());
    let r = scan.scan_till(buffer, last);
    proof {
        assert forall|j: int|
            old(buffer).pos <= j < buffer.pos implies (#[trigger] buffer.chars@[j] != char1
            && buffer.chars@[j] != char2) by {
            assert(arr@[0] == char1);
            assert(arr@[1] == char2);
        }
        if buffer.pos < last {
            let c = buffer.chars@[buffer.pos as int];
            assert(c == arr@[choose|i: int| 0 <= i < arr@.len() && arr@[i] == c]);
        }
    }
    r
}

/// Stop at `char1`, `char2` or whitespace.
pub fn scan2_white(char1: u8, char2: u8, buffer: &mut ScanBuffer, last: usize) -> (r: bool)
    requires
        old(buffer).pos <= last,
        last <= old(buffer).chars.len(),
    ensures
        final(buffer).chars == old(buffer).chars,
        final(buffer).init == old(buffer).init,
        final(buffer).start == old(buffer).pos,
        old(buffer).pos <= final(buffer).pos <= last,
        forall|j: int|
            old(buffer).pos <= j < final(buffer).pos ==> (#[trigger] final(buffer).chars@[j] != char1
                && final(buffer).chars@[j] != char2 && spec_lex_class(final(buffer).chars@[j])
                != LexClass::Whitespace),
        final(buffer).pos < last ==> (final(buffer).chars@[final(buffer).pos as int] == char1 || final(buffer).chars@[final(buffer).pos as int] == char2 || spec_lex_class(final(buffer).chars@[final(buffer).pos as int]) == LexClass::Whitespace),
        r == (final(buffer).pos < last),
{
    let arr: [u8; 2] = [char1, char2];
    let scan = Scan::new(arr.as_slice()).class(LexClass::Whitespace);
    let r = scan.scan_till(buffer, last);
    proof {
        assert forall|j: int|
            old(buffer).pos <= j < buffer.pos implies (#[trigger] buffer.chars@[j] != char1
            && buffer.chars@[j] != char2 && spec_lex_class(buffer.chars@[j])
            != LexClass::Whitespace) by {
            assert(arr@[0] == char1);
            assert(arr@[1] == char2);
        }
        if buffer.pos < last {
            let c = buffer.chars@[buffer.pos as int];
            if arr@.contains(c) {
                assert(c == arr@[choose|i: int| 0 <= i < arr@.len() && arr@[i] == c]);
            }
        }
    }
    r
}

/// Stop at `char1`, `char2` or `char3`.
pub fn scan3(char1: u8, char2: u8, char3: u8, buffer: &mut ScanBuffer, last: usize) -> (r: bool)
    requires
        old(buffer).pos <= last,
        last <= old(buffer).chars.len(),
    ensures
        final(buffer).chars == old(buffer).chars,
        final(buffer).init == old(buffer).init,
        final(buffer).start == old(buffer).pos,
        old(buffer).pos <= final(buffer).pos <= last,
        forall|j: int|
            old(buffer).pos <= j < final(buffer).pos ==> (#[trigger] final(buffer).chars@[j] != char1
                && final(buffer).chars@[j] != char2 && final(buffer).chars@[j] != char3),
        final(buffer).pos < last ==> (final(buffer).chars@[final(buffer).pos as int] == char1 || final(buffer).chars@[final(buffer).pos as int] == char2 || final(buffer).chars@[final(buffer).pos as int] == char3),
        r == (final(buffer).pos < last),
{
    let arr: [u8; 3] = [char1, char2, char3];
    let scan = Scan::new(arr.as_slice());
    let r = scan.scan_till(buffer, last);
    proof {
        assert forall|j: int|
            old(buffer).pos <= j < buffer.pos implies (#[trigger] buffer.chars@[j] != char1
            && buffer.chars@[j] != char2 && buffer.chars@[j] != char3) by {
            assert(arr@[0] == char1);
            assert(arr@[1] == char2);
            assert(arr@[2] == char3);
        }
        if buffer.pos < last {
            let c = buffer.chars@[buffer.pos as int];
            assert(c == arr@[choose|i: int| 0 <= i < arr@.len() && arr@[i] == c]);
        }
    }
    r
}

/// Scan a run of alphabetic bytes; report whether it was non-empty.
pub fn scan_alpha(buffer: &mut ScanBuffer, last: usize) -> (r: bool)
    requires
        old(buffer).pos <= last,
        last <= old(buffer).chars.len(),
    ensures
        final(buffer).chars == old(buffer).chars,
        final(buffer).init == old(buffer).init,
        final(buffer).start == old(buffer).pos,
        old(buffer).pos <= final(buffer).pos <= last,
        forall|j: int|
            old(buffer).pos <= j < final(buffer).pos ==> spec_lex_class(#[trigger] final(buffer).chars@[j])
                == LexClass::Alpha,
        final(buffer).pos < last ==> spec_lex_class(final(buffer).chars@[final(buffer).pos as int]) != LexClass::Alpha,
        r == (final(buffer).pos != old(buffer).pos),
{
    let arr: [u8; 0] = [];
    let scan = Scan::new(arr.as_slice()).not_class(LexClass::Alpha);
    scan.scan_till_nonempty(buffer, last)
}

/// Skip a run of whitespace; report whether a non-whitespace byte was
/// found before `last`.
pub fn scan_white_space(buffer: &mut ScanBuffer, last: usize) -> (r: bool)
    requires
        old(buffer).pos <= last,
        last <= old(buffer).chars.len(),
    ensures
        final(buffer).chars == old(buffer).chars,
        final(buffer).init == old(buffer).init,
        final(buffer).start == old(buffer).pos,
        old(buffer).pos <= final(buffer).pos <= last,
        forall|j: int|
            old(buffer).pos <= j < final(buffer).pos ==> spec_lex_class(#[trigger] final(buffer).chars@[j])
                == LexClass::Whitespace,
        final(buffer).pos < last ==> spec_lex_class(final(buffer).chars@[final(buffer).pos as int])
            != LexClass::Whitespace,
        r == (final(buffer).pos < last),
{
    let arr: [u8; 0] = [];
    let scan = Scan::new(arr.as_slice()).not_class(LexClass::Whitespace);
    scan.scan_till(buffer, last)
}

/// Scan a run of numeric bytes; report whether it was non-empty.
pub fn scan_nonneg_integer(buffer: &mut ScanBuffer, last: usize) -> (r: bool)
    requires
        old(buffer).pos <= last,
        last <= old(buffer).chars.len(),
    ensures
        final(buffer).chars == old(buffer).chars,
        final(buffer).init == old(buffer).init,
        final(buffer).start == old(buffer).pos,
        old(buffer).pos <= final(buffer).pos <= last,
        forall|j: int|
            old(buffer).pos <= j < final(buffer).pos ==> spec_lex_class(#[trigger] final(buffer).chars@[j])
                == LexClass::Numeric,
        final(buffer).pos < last ==> spec_lex_class(final(buffer).chars@[final(buffer).pos as int])
            != LexClass::Numeric,
        r == (final(buffer).pos != old(buffer).pos),
{
    let arr: [u8; 0] = [];
    let scan = Scan::new(arr.as_slice()).not_class(LexClass::Numeric);
    scan.scan_till_nonempty(buffer, last)
}

/// Scan an identifier starting at the scan position: a run of legal
/// identifier bytes, unless the first byte is numeric. The result says
/// whether anything was scanned and, if so, what follows it: the end of
/// the region or whitespace, one of the three given bytes, or some
/// other byte.
pub fn scan_identifier(
    char1: u8,
    char2: u8,
    char3: u8,
    buffer: &mut ScanBuffer,
    last: usize,
) -> (r: ScanRes)
    requires
        old(buffer).pos <= last,
        last <= old(buffer).chars.len(),
    ensures
        final(buffer).chars == old(buffer).chars,
        final(buffer).init == old(buffer).init,
        final(buffer).start == old(buffer).pos,
        old(buffer).pos <= final(buffer).pos <= last,
        if old(buffer).pos < last && spec_lex_class(final(buffer).chars@[old(buffer).pos as int])
            == LexClass::Numeric {
            final(buffer).pos == old(buffer).pos
        } else {
            (forall|j: int|
                old(buffer).pos <= j < final(buffer).pos ==> spec_id_class(#[trigger] final(buffer).chars@[j])
                    == IdClass::LegalIdChar) && (final(buffer).pos < last ==> spec_id_class(
                final(buffer).chars@[final(buffer).pos as int],
            ) != IdClass::LegalIdChar)
        },
        r == (if final(buffer).pos == old(buffer).pos {
            ScanRes::IdNull
        } else if final(buffer).pos == last || spec_lex_class(final(buffer).chars@[final(buffer).pos as int])
            == LexClass::Whitespace {
            ScanRes::WhitespaceAdjacent
        } else if final(buffer).chars@[final(buffer).pos as int] == char1 || final(buffer).chars@[final(buffer).pos as int]
            == char2 || final(buffer).chars@[final(buffer).pos as int] == char3 {
            ScanRes::SpecifiedCharAdjacent
        } else {
            ScanRes::OtherCharAdjacent
        }),
{
    let start = buffer.pos;
    buffer.start = start;
    let mut idx: usize = start;
    if idx < last && LexClass::of(buffer.chars[idx]) != LexClass::Numeric {
        while idx < last && IdClass::of(buffer.chars[idx]) == IdClass::LegalIdChar
            invariant
                start <= idx <= last,
                last <= buffer.chars.len(),
                *buffer == (ScanBuffer { start, ..*old(buffer) }),
                start == old(buffer).pos,
                forall|j: int|
                    start <= j < idx ==> spec_id_class(#[trigger] buffer.chars@[j])
                        == IdClass::LegalIdChar,
            decreases last - idx,
        {
            idx = idx + 1;
        }
    }
    buffer.pos = idx;
    if idx == start {
        ScanRes::IdNull
    } else if idx == last || LexClass::of(buffer.chars[idx]) == LexClass::Whitespace {
        ScanRes::WhitespaceAdjacent
    } else if buffer.chars[idx] == char1 || buffer.chars[idx] == char2 || buffer.chars[idx]
        == char3 {
        ScanRes::SpecifiedCharAdjacent
    } else {
        ScanRes::OtherCharAdjacent
    }
}

/// The wrapped 32-bit value of the decimal digits `cs[from..to]`, most
/// significant first: each step multiplies by ten and adds the next
/// digit, both wrapping.
pub open spec fn spec_digits_value(cs: Seq<u8>, from: int, to: int) -> i32
    decreases to - from,
{
    if to <= from {
        0i32
    } else {
        spec_digits_value(cs, from, to - 1).wrapping_mul(10).wrapping_add((cs[to - 1] - 48) as i32)
    }
}

/// Scan an optionally negated decimal integer at the scan position into
/// `token_value`, accumulating with wrapping 32-bit arithmetic; report
/// whether any digit followed the optional minus sign.
pub fn scan_integer(token_value: &mut i32, buffer: &mut ScanBuffer, last: usize) -> (r: bool)
    requires
        old(buffer).pos <= last,
        last <= old(buffer).chars.len(),
    ensures
        final(buffer).chars == old(buffer).chars,
        final(buffer).init == old(buffer).init,
        final(buffer).start == old(buffer).pos,
        ({
            let cs = final(buffer).chars@;
            let p0 = old(buffer).pos as int;
            let sign = p0 < last && cs[p0] == 45;
            let d0 = if sign {
                p0 + 1
            } else {
                p0
            };
            &&& d0 <= final(buffer).pos <= last
            &&& (forall|j: int|
                d0 <= j < final(buffer).pos ==> spec_lex_class(#[trigger] cs[j]) == LexClass::Numeric)
            &&& (final(buffer).pos < last ==> spec_lex_class(cs[final(buffer).pos as int]) != LexClass::Numeric)
            &&& *final(token_value) == (if sign {
                (0i32).wrapping_sub(spec_digits_value(cs, d0, final(buffer).pos as int))
            } else {
                spec_digits_value(cs, d0, final(buffer).pos as int)
            })
            &&& r == (final(buffer).pos - p0 != (if sign {
                1int
            } else {
                0int
            }))
        }),
{
    let start = buffer.pos;
    buffer.start = start;
    let mut idx: usize = start;
    let sign = if idx < last && buffer.chars[idx] == 45 {
        idx = idx + 1;
        true
    } else {
        false
    };
    let ghost d0 = idx as int;
    let mut value: i32 = 0;
    while idx < last && LexClass::of(buffer.chars[idx]) == LexClass::Numeric
        invariant
            d0 <= idx <= last,
            last <= buffer.chars.len(),
            *buffer == (ScanBuffer { start, ..*old(buffer) }),
            value == spec_digits_value(buffer.chars@, d0, idx as int),
            forall|j: int|
                d0 <= j < idx ==> spec_lex_class(#[trigger] buffer.chars@[j]) == LexClass::Numeric,
        decreases last - idx,
    {
        value = value.wrapping_mul(10).wrapping_add((buffer.chars[idx] - 48) as i32);
        idx = idx + 1;
    }
    buffer.pos = idx;
    *token_value = if sign {
        (0i32).wrapping_sub(value)
    } else {
        value
    };
    idx - start != (if sign {
        1
    } else {
        0
    })
}

} // verus!
