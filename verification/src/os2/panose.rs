//! A [PANOSE classification](https://monotype.github.io/panose/pan1.htm) implementation.

use vstd::prelude::*;

verus! {

/// The number of PANOSE digits. Fixed by the specification.
pub const DIGITS: usize = 10;

// Digit positions. Only the first is family-independent; the meaning of every other
// position is determined by it, which is why the accessors below dispatch on the
// family type before indexing.
const FAMILY_TYPE: usize = 0;

const WEIGHT: usize = 2;

/// Proportion for Latin Text, spacing for Latin Handwritten and Latin Symbol,
/// aspect ratio for Latin Decorative. All four encode "monospaced" at this position.
const PROPORTION: usize = 3;

/// Letterform for Latin Text, hand form for Latin Handwritten.
const LETTERFORM: usize = 7;

const FAMILY_ANY: u8 = 0;

const FAMILY_NO_FIT: u8 = 1;

const FAMILY_LATIN_TEXT: u8 = 2;

const FAMILY_LATIN_HANDWRITTEN: u8 = 3;

const FAMILY_LATIN_DECORATIVE: u8 = 4;

const FAMILY_LATIN_SYMBOL: u8 = 5;

const WEIGHT_BOLD: u8 = 8;

/// Oblique letterform values for Latin Text, which run to the end of the range.
const TEXT_OBLIQUE_FIRST: u8 = 9;

/// Oblique hand form values for Latin Handwritten. Unlike Latin Text this is not an
/// open-ended range: 10 and above are the "exaggerated" upright forms.
const HANDWRITTEN_OBLIQUE_FIRST: u8 = 6;

const HANDWRITTEN_OBLIQUE_LAST: u8 = 9;

const TEXT_MONOSPACED: u8 = 9;

const DECORATIVE_MONOSPACED: u8 = 9;

const SPACING_MONOSPACED: u8 = 3;

/// A PANOSE family type, the first of the ten PANOSE digits.
///
/// The family type determines how the remaining nine digits are interpreted; the same
/// digit position means different things for different families.
#[derive(Clone, Copy, PartialEq, Eq, Structural, Debug, Hash)]
#[allow(missing_docs)]
#[non_exhaustive]
pub enum FamilyType {
    Any,
    NoFit,
    LatinText,
    LatinHandwritten,
    LatinDecorative,
    LatinSymbol,
    /// A value not defined by PANOSE 2.0.
    Other(u8),
}

/// A [PANOSE classification](https://monotype.github.io/panose/pan1.htm).
///
/// Ten bytes describing a face's visual characteristics, stored in the `OS/2` table.
///
/// The raw digits are public, because PANOSE has more digit values than this crate models
/// and their meaning depends on [`FamilyType`]. Only the classifications that map onto
/// something this crate already exposes have accessors.
///
/// PANOSE is largely of historical interest and real-world values are frequently
/// zero-filled or simply wrong, so treat it as a hint rather than a source of truth.
#[derive(Clone, Copy, PartialEq, Eq, Debug, Hash)]
pub struct Panose(pub [u8; DIGITS]);

/// The family type that a first PANOSE digit stands for.
pub open spec fn family_type_of(digit: u8) -> FamilyType {
    if digit == 0 {
        FamilyType::Any
    } else if digit == 1 {
        FamilyType::NoFit
    } else if digit == 2 {
        FamilyType::LatinText
    } else if digit == 3 {
        FamilyType::LatinHandwritten
    } else if digit == 4 {
        FamilyType::LatinDecorative
    } else if digit == 5 {
        FamilyType::LatinSymbol
    } else {
        FamilyType::Other(digit)
    }
}

/// The four Latin families, the only ones whose remaining digits carry a meaning.
pub open spec fn is_latin_family(family: FamilyType) -> bool {
    ||| family is LatinText
    ||| family is LatinHandwritten
    ||| family is LatinDecorative
    ||| family is LatinSymbol
}

impl Panose {
    /// The digit at position `i`.
    pub open spec fn digit(self, i: int) -> u8 {
        self.0@[i]
    }

    /// The family type, read from the first digit.
    pub open spec fn family(self) -> FamilyType {
        family_type_of(self.digit(0))
    }

    /// The weight digit (position 2) is *Bold* (8), in a family that has a weight.
    pub open spec fn spec_is_bold(self) -> bool {
        is_latin_family(self.family()) && self.digit(2) == 8
    }

    /// The letterform digit (position 7) is oblique: 9 and above for Latin Text,
    /// 6 through 9 for Latin Handwritten; no other family classifies letterform.
    pub open spec fn spec_is_italic(self) -> bool {
        let letterform = self.digit(7);
        match self.family() {
            FamilyType::LatinText => letterform >= 9,
            FamilyType::LatinHandwritten => 6 <= letterform <= 9,
            _ => false,
        }
    }

    /// The proportion digit (position 3) holds the family's *Monospaced* value:
    /// 9 for Latin Text and Latin Decorative, 3 for Latin Handwritten and Latin Symbol.
    pub open spec fn spec_is_monospaced(self) -> bool {
        let proportion = self.digit(3);
        match self.family() {
            FamilyType::LatinText => proportion == 9,
            FamilyType::LatinDecorative => proportion == 9,
            FamilyType::LatinHandwritten => proportion == 3,
            FamilyType::LatinSymbol => proportion == 3,
            _ => false,
        }
    }

    /// Returns the family type, which determines how the remaining digits are read.
    #[inline]
    pub fn family_type(&self) -> (family: FamilyType)
        ensures
            family == self.family(),
    {
        let digit = self.0[FAMILY_TYPE];
        if digit == FAMILY_ANY {
            FamilyType::Any
        } else if digit == FAMILY_NO_FIT {
            FamilyType::NoFit
        } else if digit == FAMILY_LATIN_TEXT {
            FamilyType::LatinText
        } else if digit == FAMILY_LATIN_HANDWRITTEN {
            FamilyType::LatinHandwritten
        } else if digit == FAMILY_LATIN_DECORATIVE {
            FamilyType::LatinDecorative
        } else if digit == FAMILY_LATIN_SYMBOL {
            FamilyType::LatinSymbol
        } else {
            FamilyType::Other(digit)
        }
    }

    /// Checks if the weight digit is set to *Bold*.
    ///
    /// Returns `false` for the `Any` and `NoFit` families, whose remaining digits
    /// carry no meaning.
    #[inline]
    pub fn is_bold(&self) -> (bold: bool)
        ensures
            bold == self.spec_is_bold(),
    {
        match self.family_type() {
            FamilyType::LatinText
            | FamilyType::LatinHandwritten
            | FamilyType::LatinDecorative
            | FamilyType::LatinSymbol => self.0[WEIGHT] == WEIGHT_BOLD,
            _ => false,
        }
    }

    /// Checks if the letterform digit is set to one of the oblique values.
    ///
    /// Only Latin Text and Latin Handwritten classify letterform; the other families
    /// return `false`.
    #[inline]
    pub fn is_italic(&self) -> (italic: bool)
        ensures
            italic == self.spec_is_italic(),
    {
        let letterform = self.0[LETTERFORM];
        match self.family_type() {
            FamilyType::LatinText => letterform >= TEXT_OBLIQUE_FIRST,
            FamilyType::LatinHandwritten => {
                HANDWRITTEN_OBLIQUE_FIRST <= letterform && letterform <= HANDWRITTEN_OBLIQUE_LAST
            },
            _ => false,
        }
    }

    /// Checks if the proportion digit is set to *Monospaced*.
    #[inline]
    pub fn is_monospaced(&self) -> (monospaced: bool)
        ensures
            monospaced == self.spec_is_monospaced(),
    {
        let proportion = self.0[PROPORTION];
        match self.family_type() {
            FamilyType::LatinText => proportion == TEXT_MONOSPACED,
            FamilyType::LatinDecorative => proportion == DECORATIVE_MONOSPACED,
            FamilyType::LatinHandwritten | FamilyType::LatinSymbol => {
                proportion == SPACING_MONOSPACED
            },
            _ => false,
        }
    }

    /// Parses a classification from the first ten bytes of `data`.
    ///
    /// Every ten-byte sequence is accepted. Out-of-range digits are preserved rather than
    /// rejected: PANOSE fields in real fonts are routinely junk, and discarding the whole
    /// classification because one digit is unknown would also discard the digits that are
    /// fine. Callers see the raw value and can decide.
    #[inline]
    pub fn parse(data: &[u8]) -> (parsed: Option<Panose>)
        ensures
            parsed is Some <==> data@.len() >= DIGITS,
            parsed matches Some(panose) ==> panose.0@ == data@.subrange(0, DIGITS as int),
    {
        if data.len() < DIGITS {
            return None;
        }
        let panose = Panose(
            [
                data[0],
                data[1],
                data[2],
                data[3],
                data[4],
                data[5],
                data[6],
                data[7],
                data[8],
                data[9],
            ],
        );
        assert(panose.0@ =~= data@.subrange(0, DIGITS as int));
        Some(panose)
    }
}

/// The family type loses nothing of the first digit: two digits with the same family
/// type are the same digit, and a digit outside the six defined by PANOSE 2.0 is
/// reported verbatim as `Other`.
pub proof fn lemma_family_type_keeps_the_digit(a: u8, b: u8)
    ensures
        family_type_of(a) == family_type_of(b) ==> a == b,
        family_type_of(a) is Other <==> a >= 6,
        family_type_of(a) matches FamilyType::Other(n) ==> n == a,
{
}

/// A classification whose family is not one of the four Latin families (`Any`,
/// `NoFit` or an undefined value) reports neither bold, italic nor monospaced,
/// whatever its other digits hold.
pub proof fn lemma_unclassified_family_has_no_style(panose: Panose)
    requires
        !is_latin_family(panose.family()),
    ensures
        !panose.spec_is_bold(),
        !panose.spec_is_italic(),
        !panose.spec_is_monospaced(),
{
}

/// Only the first digit decides the family; of the others, each accessor reads one
/// position: bold the weight (2), monospaced the proportion (3), italic the
/// letterform (7). Two classifications that agree on the first digit and on that
/// position agree on the accessor.
pub proof fn lemma_style_reads_one_digit(p: Panose, q: Panose)
    requires
        p.digit(0) == q.digit(0),
    ensures
        p.family() == q.family(),
        p.digit(2) == q.digit(2) ==> p.spec_is_bold() == q.spec_is_bold(),
        p.digit(3) == q.digit(3) ==> p.spec_is_monospaced() == q.spec_is_monospaced(),
        p.digit(7) == q.digit(7) ==> p.spec_is_italic() == q.spec_is_italic(),
{
}

/// The family is named by the first digit alone: 0 is `Any`, 1 `NoFit`, 2 Latin
/// Text, 3 Latin Handwritten, 4 Latin Decorative, 5 Latin Symbol, and every other
/// value is reported as `Other` holding that value.
pub proof fn lemma_family_is_the_first_digit(panose: Panose)
    ensures
        panose.0[0] == 0 <==> panose.family() == FamilyType::Any,
        panose.0[0] == 1 <==> panose.family() == FamilyType::NoFit,
        panose.0[0] == 2 <==> panose.family() == FamilyType::LatinText,
        panose.0[0] == 3 <==> panose.family() == FamilyType::LatinHandwritten,
        panose.0[0] == 4 <==> panose.family() == FamilyType::LatinDecorative,
        panose.0[0] == 5 <==> panose.family() == FamilyType::LatinSymbol,
        panose.0[0] >= 6 <==> panose.family() == FamilyType::Other(panose.0[0]),
{
}

/// Bold is the weight digit (position 2) at 8 in each of the four Latin families
/// (first digit 2 to 5), and nothing else is bold; no other family is bold at all.
pub proof fn lemma_bold_is_weight_eight(panose: Panose)
    ensures
        2 <= panose.0[0] <= 5 ==> (panose.spec_is_bold() <==> panose.0[2] == 8),
        panose.0[0] < 2 || panose.0[0] > 5 ==> !panose.spec_is_bold(),
{
}

/// Italic is an oblique letterform (position 7): for Latin Text (first digit 2) every
/// value from 9 up, for Latin Handwritten (first digit 3) the values 6 through 9 and
/// no others; every other family is never italic.
pub proof fn lemma_italic_is_an_oblique_letterform(panose: Panose)
    ensures
        panose.0[0] == 2 ==> (panose.spec_is_italic() <==> panose.0[7] >= 9),
        panose.0[0] == 3 ==> (panose.spec_is_italic() <==> 6 <= panose.0[7] <= 9),
        panose.0[0] != 2 && panose.0[0] != 3 ==> !panose.spec_is_italic(),
{
}

/// Monospaced is the proportion digit (position 3) at the family's own value: 9 for
/// Latin Text and Latin Decorative (first digit 2 or 4), 3 for Latin Handwritten and
/// Latin Symbol (first digit 3 or 5), and no other value; every other family is never
/// monospaced.
pub proof fn lemma_monospaced_is_the_family_value(panose: Panose)
    ensures
        panose.0[0] == 2 || panose.0[0] == 4 ==> (panose.spec_is_monospaced() <==> panose.0[3]
            == 9),
        panose.0[0] == 3 || panose.0[0] == 5 ==> (panose.spec_is_monospaced() <==> panose.0[3]
            == 3),
        panose.0[0] < 2 || panose.0[0] > 5 ==> !panose.spec_is_monospaced(),
{
}

} // verus!
