//! File attribute flags of a directory entry.

use vstd::prelude::*;

verus! {

/// The 8-bit attribute field of an entry. Known flags are tested through
/// the methods below; the reserved bits (0x08, 0x40, 0x80) are carried
/// opaquely and never interpreted.
#[derive(Debug, Clone, Copy)]
pub struct Attributes(u8);

impl Attributes {
    /// The file may not be written.
    pub const READ_ONLY: u8 = 0x01;

    /// The entry is hidden from normal listings.
    pub const HIDDEN: u8 = 0x02;

    /// The entry belongs to the operating system.
    pub const SYSTEM: u8 = 0x04;

    /// The entry is a directory.
    pub const DIRECTORY: u8 = 0x10;

    /// The entry has changed since it was last archived.
    pub const ARCHIVE: u8 = 0x20;

    /// The raw bitfield, every bit kept as it was supplied.
    pub closed spec fn spec_value(&self) -> u8 {
        self.0
    }

    /// Wrap a raw attribute byte, preserving all bits, reserved ones too.
    pub fn new(value: u8) -> (r: Self)
        ensures
            r.spec_value() == value,
    {
        Attributes(value)
    }

    /// Whether the read-only flag is set.
    pub fn is_read_only(self) -> (r: bool)
        ensures
            r == (self.spec_value() & Attributes::READ_ONLY != 0),
    {
        self.0 & Attributes::READ_ONLY != 0
    }

    /// Whether the hidden flag is set.
    pub fn is_hidden(self) -> (r: bool)
        ensures
            r == (self.spec_value() & Attributes::HIDDEN != 0),
    {
        self.0 & Attributes::HIDDEN != 0
    }

    /// Whether the system flag is set.
    pub fn is_system(self) -> (r: bool)
        ensures
            r == (self.spec_value() & Attributes::SYSTEM != 0),
    {
        self.0 & Attributes::SYSTEM != 0
    }

    /// Whether the directory flag is set.
    pub fn is_directory(self) -> (r: bool)
        ensures
            r == (self.spec_value() & Attributes::DIRECTORY != 0),
    {
        self.0 & Attributes::DIRECTORY != 0
    }

    /// Whether the archive flag is set.
    pub fn is_archive(self) -> (r: bool)
        ensures
            r == (self.spec_value() & Attributes::ARCHIVE != 0),
    {
        self.0 & Attributes::ARCHIVE != 0
    }
}

} // verus!
