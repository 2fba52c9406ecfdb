use vstd::prelude::*;
use crate::bytes::{be_u24_at, be_u32_at, read_be_u32, u32_from_3_bytes_be};
use crate::error::FormatError;

verus! {

/// The number of bytes of the header.
pub const HEADER_LEN: usize = 20;

/// The fixed header at the front of a blueprint.
#[derive(Debug, Clone, Copy, PartialEq, Eq)]
pub struct BlueprintHeader {
    pub version: u32,
    pub checksum: [u8; 6],
    pub width: u32,
    pub height: u32,
}

impl BlueprintHeader {
    /// Whether this header holds the fields that the first 20 bytes of `s` encode:
    /// 3 ignored bytes, a 3-byte version, 6 checksum bytes, then width and height.
    pub open spec fn encoded_by(self, s: Seq<u8>) -> bool {
        &&& s.len() >= 20
        &&& self.version == be_u24_at(s, 3)
        &&& self.checksum@ == s.subrange(6, 12)
        &&& self.width == be_u32_at(s, 12)
        &&& self.height == be_u32_at(s, 16)
    }

    /// Parses the header at the front of `bytes`. Nothing in it is validated.
    pub fn from_reader(bytes: &[u8]) -> (r: Result<BlueprintHeader, FormatError>)
        ensures
            bytes@.len() >= 20 <==> r is Ok,
            r matches Ok(h) ==> h.encoded_by(bytes@),
            r matches Err(e) ==> e == FormatError::TruncatedHeader,
    {
        if bytes.len() < HEADER_LEN {
            return Err(FormatError::TruncatedHeader);
        }
        let version_bytes: [u8; 3] = [bytes[3], bytes[4], bytes[5]];
        let version = u32_from_3_bytes_be(&version_bytes);
        let checksum: [u8; 6] = [bytes[6], bytes[7], bytes[8], bytes[9], bytes[10], bytes[11]];
        let width = read_be_u32(bytes, 12);
        let height = read_be_u32(bytes, 16);
        let h = BlueprintHeader { version, checksum, width, height };
        assert(h.checksum@ =~= bytes@.subrange(6, 12));
        Ok(h)
    }
}

} // verus!
