//! Data of the `OS/2` table.

pub mod panose;
