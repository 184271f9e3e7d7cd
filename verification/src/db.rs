//! The record catalog as this library sees it.
//!
//! The catalog maps a canonical id to a span of the archive. It is read by
//! the caller; what comes back is turned here into the span to fetch.

use vstd::prelude::*;

verus! {

/// Number of bytes that the archive puts before the pixel data of each
/// stored item. A fetch starts past them.
pub const HEADER_SKIP: u64 = 8;

/// One row of the catalog, as it is stored.
#[derive(Clone, Copy, Debug, PartialEq, Eq, Structural)]
pub struct File {
    pub id: i64,
    pub database_type: i64,
    pub file_type: i64,
    pub file_subtype: i64,
    pub file_offset: i64,
    pub file_size: i64,
}

/// A catalog entry: where in the archive the bytes of a canonical id lie.
#[derive(Clone, Copy, Debug, PartialEq, Eq, Structural)]
pub struct Record {
    pub id: i32,
    pub offset: u64,
    pub length: u32,
}

/// The span of the archive to fetch for a record.
#[derive(Clone, Copy, Debug, PartialEq, Eq, Structural)]
pub struct ByteRange {
    pub offset: u64,
    pub length: u64,
}

impl File {
    /// The record that this row stands for, where its id fits 32 bits, its
    /// offset is not negative and its size fits 32 bits without a sign.
    pub open spec fn spec_record(self) -> Option<Record> {
        if i32::MIN <= self.id <= i32::MAX && 0 <= self.file_offset && 0 <= self.file_size
            <= u32::MAX {
            Some(
                Record {
                    id: self.id as i32,
                    offset: self.file_offset as u64,
                    length: self.file_size as u32,
                },
            )
        } else {
            None
        }
    }

    /// The record that this row stands for, or `None` where a field is out
    /// of range.
    pub fn record(&self) -> (r: Option<Record>)
        ensures
            r == self.spec_record(),
    {
        if self.id < -0x8000_0000 || self.id > 0x7fff_ffff {
            return None;
        }
        if self.file_offset < 0 || self.file_size < 0 || self.file_size > 0xffff_ffff {
            return None;
        }
        Some(
            Record {
                id: self.id as i32,
                offset: self.file_offset as u64,
                length: self.file_size as u32,
            },
        )
    }
}

impl Record {
    /// The span to fetch: it starts [`HEADER_SKIP`] bytes past the offset of
    /// the record and has the length of the record. There is none where the
    /// start would pass `u64::MAX`.
    pub open spec fn spec_byte_range(self) -> Option<ByteRange> {
        if self.offset + HEADER_SKIP <= u64::MAX {
            Some(
                ByteRange {
                    offset: (self.offset + HEADER_SKIP) as u64,
                    length: self.length as u64,
                },
            )
        } else {
            None
        }
    }

    /// The span of the archive to fetch for this record.
    pub fn byte_range(&self) -> (r: Option<ByteRange>)
        ensures
            r == self.spec_byte_range(),
    {
        match self.offset.checked_add(HEADER_SKIP) {
            Some(start) => Some(ByteRange { offset: start, length: self.length as u64 }),
            None => None,
        }
    }
}

} // verus!
