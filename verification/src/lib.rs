//! A verified subset of a TrueType/OpenType font parser: the PANOSE
//! classification of the `OS/2` table and the delta-set index map used by
//! variable fonts.

pub mod delta_set;
pub mod os2;
