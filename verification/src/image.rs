//! Image access: translating a relative virtual address to a file offset
//! through the section layout of an executable image, and extracting byte
//! ranges from the image buffer.

use vstd::prelude::*;

use crate::errors::CoreError;

verus! {

/// One section of an executable image: where its bytes sit virtually and
/// where they sit in the file. Sections are file-contiguous within their
/// own declared size; no cross-section stitching is performed.
#[derive(Clone, Copy, Debug)]
pub struct Section {
    pub virtual_address: u64,
    pub virtual_size: u64,
    pub file_offset: u64,
}

/// A section's ranges stay within the 64-bit address space.
pub open spec fn section_wf(s: Section) -> bool {
    &&& s.virtual_address + s.virtual_size <= u64::MAX
    &&& s.file_offset + s.virtual_size <= u64::MAX
}

/// Whether the virtual address falls inside the section.
pub open spec fn section_contains(s: Section, va: u64) -> bool {
    s.virtual_address <= va < s.virtual_address + s.virtual_size
}

/// The read-only view over an image's section layout. Well-formed when the
/// sections' virtual ranges are non-overlapping; translation is defined
/// only for addresses falling inside exactly one section.
#[derive(Debug)]
pub struct SectionMap {
    pub sections: Vec<Section>,
}

/// Two sections' virtual ranges do not overlap.
pub open spec fn sections_disjoint(a: Section, b: Section) -> bool {
    a.virtual_address + a.virtual_size <= b.virtual_address || b.virtual_address + b.virtual_size
        <= a.virtual_address
}

/// Sections are individually well-formed and pairwise virtually disjoint.
pub open spec fn sections_wf(sections: Seq<Section>) -> bool {
    &&& forall|i: int| 0 <= i < sections.len() ==> section_wf(#[trigger] sections[i])
    &&& forall|i: int, j: int|
        0 <= i < j < sections.len() ==> sections_disjoint(
            #[trigger] sections[i],
            #[trigger] sections[j],
        )
}

impl SectionMap {
    /// Sections are individually well-formed and virtually disjoint.
    pub open spec fn wf(self) -> bool {
        sections_wf(self.sections@)
    }

    /// Decides well-formedness: every section within the address space,
    /// every pair of virtual ranges disjoint.
    pub fn check_wf(&self) -> (r: bool)
        ensures
            r == self.wf(),
    {
        let n = self.sections.len();
        let mut i: usize = 0;
        while i < n
            invariant
                0 <= i <= n,
                n == self.sections@.len(),
                forall|k: int| 0 <= k < i ==> section_wf(#[trigger] self.sections@[k]),
                forall|k: int, l: int|
                    0 <= k < l < self.sections@.len() && k < i ==> sections_disjoint(
                        #[trigger] self.sections@[k],
                        #[trigger] self.sections@[l],
                    ),
            decreases n - i,
        {
            let a = self.sections[i];
            if a.virtual_size > u64::MAX - a.virtual_address || a.virtual_size > u64::MAX
                - a.file_offset {
                return false;
            }
            let mut j: usize = i + 1;
            while j < n
                invariant
                    i < j <= n,
                    n == self.sections@.len(),
                    a == self.sections@[i as int],
                    section_wf(a),
                    forall|l: int|
                        i < l < j ==> sections_disjoint(
                            self.sections@[i as int],
                            #[trigger] self.sections@[l],
                        ),
                decreases n - j,
            {
                let b = self.sections[j];
                if b.virtual_size > u64::MAX - b.virtual_address {
                    return false;
                }
                if !(a.virtual_address + a.virtual_size <= b.virtual_address || b.virtual_address
                    + b.virtual_size <= a.virtual_address) {
                    return false;
                }
                j = j + 1;
            }
            i = i + 1;
        }
        true
    }

    /// The file offset a section maps the address to.
    pub open spec fn offset_in(s: Section, va: u64) -> u64 {
        (s.file_offset + (va - s.virtual_address)) as u64
    }

    /// Maps a virtual address to a file offset: locate the unique section
    /// whose virtual range contains it; the offset is the section's file
    /// offset plus the address's distance into the section. An address
    /// inside no section is an `IOFailure`.
    pub fn translate(&self, va: u64) -> (r: Result<u64, CoreError>)
        requires
            self.wf(),
        ensures
            forall|i: int|
                0 <= i < self.sections@.len() && section_contains(#[trigger] self.sections@[i], va)
                    ==> r == Ok::<u64, CoreError>(Self::offset_in(self.sections@[i], va)),
            r matches Ok(off) ==> exists|i: int|
                0 <= i < self.sections@.len() && section_contains(#[trigger] self.sections@[i], va)
                    && off == Self::offset_in(self.sections@[i], va),
            r is Err <==> (forall|i: int|
                0 <= i < self.sections@.len() ==> !section_contains(
                    #[trigger] self.sections@[i],
                    va,
                )),
            r is Err ==> r == Err::<u64, CoreError>(CoreError::IOFailure),
    {
        let mut k: usize = 0;
        while k < self.sections.len()
            invariant
                0 <= k <= self.sections@.len(),
                self.wf(),
                forall|l: int| 0 <= l < k ==> !section_contains(#[trigger] self.sections@[l], va),
            decreases self.sections@.len() - k,
        {
            let s = self.sections[k];
            if s.virtual_address <= va && va - s.virtual_address < s.virtual_size {
                return Ok(s.file_offset + (va - s.virtual_address));
            }
            k = k + 1;
        }
        Err(CoreError::IOFailure)
    }
}

/// Reads `length` bytes of the image buffer starting at `offset`; fails
/// with `IOFailure` when the requested range exceeds the buffer instead of
/// silently truncating.
pub fn read_bytes(bytes: &[u8], offset: u64, length: u64) -> (r: Result<Vec<u8>, CoreError>)
    ensures
        offset + length <= bytes@.len() ==> (r matches Ok(b) && b@ == bytes@.subrange(
            offset as int,
            offset + length,
        )),
        offset + length > bytes@.len() ==> r == Err::<Vec<u8>, CoreError>(CoreError::IOFailure),
{
    let len64: u64 = bytes.len() as u64;
    if offset > len64 || length > len64 - offset {
        return Err(CoreError::IOFailure);
    }
    let start: usize = offset as usize;
    let end: usize = (offset + length) as usize;
    let part = vstd::slice::slice_subrange(bytes, start, end);
    Ok(vstd::slice::slice_to_vec(part))
}

/// An executable image: its raw bytes and its parsed section layout.
pub struct Image {
    pub bytes: Vec<u8>,
    pub sections: SectionMap,
}

impl Image {
    pub open spec fn wf(self) -> bool {
        self.sections.wf()
    }

    /// What `extract_range` yields: translation of the start address
    /// followed by a bounds-checked read of `length` bytes.
    pub open spec fn extract_ok(self, va: u64, length: u64, b: Seq<u8>) -> bool {
        exists|i: int|
            0 <= i < self.sections.sections@.len() && section_contains(
                #[trigger] self.sections.sections@[i],
                va,
            ) && SectionMap::offset_in(self.sections.sections@[i], va) + length
                <= self.bytes@.len() && b == self.bytes@.subrange(
                SectionMap::offset_in(self.sections.sections@[i], va) as int,
                SectionMap::offset_in(self.sections.sections@[i], va) + length,
            )
    }

    /// Some byte string can be extracted at `va`: the address translates
    /// and the read stays inside the buffer.
    pub open spec fn can_extract(self, va: u64, length: u64) -> bool {
        exists|b: Seq<u8>| self.extract_ok(va, length, b)
    }

    /// Translates `va` and reads `length` bytes of the image there.
    pub fn extract_range(&self, va: u64, length: u64) -> (r: Result<Vec<u8>, CoreError>)
        requires
            self.wf(),
        ensures
            r matches Ok(b) ==> self.extract_ok(va, length, b@),
            r matches Err(e) ==> (e == CoreError::IOFailure && (forall|b: Seq<u8>|
                !self.extract_ok(va, length, b))),
    {
        let off = match self.sections.translate(va) {
            Ok(off) => off,
            Err(e) => {
                proof {
                    assert forall|b: Seq<u8>| !self.extract_ok(va, length, b) by {}
                }
                return Err(e);
            },
        };
        match read_bytes(self.bytes.as_slice(), off, length) {
            Ok(b) => Ok(b),
            Err(e) => {
                proof {
                    assert forall|b: Seq<u8>| !self.extract_ok(va, length, b) by {}
                }
                Err(e)
            },
        }
    }
}


/// The little-endian 16-bit value at `off`.
pub open spec fn le16(s: Seq<u8>, off: int) -> int
    recommends
        0 <= off,
        off + 2 <= s.len(),
{
    s[off] + 0x100 * s[off + 1]
}

/// The little-endian 32-bit value at `off`.
pub open spec fn le32(s: Seq<u8>, off: int) -> int
    recommends
        0 <= off,
        off + 4 <= s.len(),
{
    s[off] + 0x100 * s[off + 1] + 0x10000 * s[off + 2] + 0x1000000 * s[off + 3]
}

/// Where the image's file header starts: the offset stored at `0x3C`.
pub open spec fn pe_offset(s: Seq<u8>) -> int {
    le32(s, 0x3C)
}

/// How many sections the file header declares.
pub open spec fn pe_section_count(s: Seq<u8>) -> int {
    le16(s, pe_offset(s) + 6)
}

/// Where the section table starts: after the file header and the optional
/// header, whose size the file header declares.
pub open spec fn pe_table_offset(s: Seq<u8>) -> int {
    pe_offset(s) + 24 + le16(s, pe_offset(s) + 20)
}

/// The headers are present, carry the `PE` signature, and declare a
/// section table that lies inside the buffer.
pub open spec fn pe_header_ok(s: Seq<u8>) -> bool {
    &&& s.len() >= 0x40
    &&& pe_offset(s) + 24 <= s.len()
    &&& le32(s, pe_offset(s)) == 0x4550
    &&& pe_table_offset(s) + pe_section_count(s) * 40 <= s.len()
}

/// One section table row: its virtual size, virtual address and raw-data
/// pointer, at their fixed offsets inside the forty-byte row.
pub open spec fn pe_section_at(s: Seq<u8>, base: int) -> Section {
    Section {
        virtual_address: le32(s, base + 12) as u64,
        virtual_size: le32(s, base + 8) as u64,
        file_offset: le32(s, base + 20) as u64,
    }
}

/// The sections the image's headers declare, in table order.
pub open spec fn pe_sections(s: Seq<u8>) -> Seq<Section> {
    Seq::new(
        pe_section_count(s) as nat,
        |i: int| pe_section_at(s, pe_table_offset(s) + i * 40),
    )
}

/// Reads the little-endian 32-bit value at `off`, when it is in range.
fn get_u32(bytes: &[u8], off: u64) -> (r: Option<u32>)
    ensures
        off + 4 <= bytes@.len() ==> r == Some(le32(bytes@, off as int) as u32),
        off + 4 > bytes@.len() ==> r is None,
{
    if off > bytes.len() as u64 || bytes.len() as u64 - off < 4 {
        return None;
    }
    let o = off as usize;
    let v: u32 = (bytes[o] as u32) + 0x100 * (bytes[o + 1] as u32) + 0x10000 * (bytes[o + 2]
        as u32) + 0x1000000 * (bytes[o + 3] as u32);
    Some(v)
}

/// Reads the little-endian 16-bit value at `off`, when it is in range.
fn get_u16(bytes: &[u8], off: u64) -> (r: Option<u16>)
    ensures
        off + 2 <= bytes@.len() ==> r == Some(le16(bytes@, off as int) as u16),
        off + 2 > bytes@.len() ==> r is None,
{
    if off > bytes.len() as u64 || bytes.len() as u64 - off < 2 {
        return None;
    }
    let o = off as usize;
    Some((bytes[o] as u16) + 0x100 * (bytes[o + 1] as u16))
}

/// Extracts the section layout the executable's headers declare.
///
/// Succeeds exactly when the headers are well-formed (`pe_header_ok`) and
/// the declared sections make a well-formed map (within the address
/// space, virtually disjoint); the result then holds exactly the declared
/// sections, in table order. Anything else is an `IOFailure`.
pub fn parse_section_table(bytes: &[u8]) -> (r: Result<SectionMap, CoreError>)
    ensures
        pe_header_ok(bytes@) && sections_wf(pe_sections(bytes@)) ==> (r matches Ok(m)
            && m.sections@ == pe_sections(bytes@) && m.wf()),
        !(pe_header_ok(bytes@) && sections_wf(pe_sections(bytes@))) ==> r == Err::<
            SectionMap,
            CoreError,
        >(CoreError::IOFailure),
{
    let len: u64 = bytes.len() as u64;
    if len < 0x40 {
        return Err(CoreError::IOFailure);
    }
    let pe: u64 = match get_u32(bytes, 0x3C) {
        Some(v) => v as u64,
        None => {
            return Err(CoreError::IOFailure);
        },
    };
    if pe > len || len - pe < 24 {
        return Err(CoreError::IOFailure);
    }
    let sig = match get_u32(bytes, pe) {
        Some(v) => v,
        None => {
            return Err(CoreError::IOFailure);
        },
    };
    if sig != 0x4550 {
        return Err(CoreError::IOFailure);
    }
    let n: u64 = match get_u16(bytes, pe + 6) {
        Some(v) => v as u64,
        None => {
            return Err(CoreError::IOFailure);
        },
    };
    let opt_size: u64 = match get_u16(bytes, pe + 20) {
        Some(v) => v as u64,
        None => {
            return Err(CoreError::IOFailure);
        },
    };
    let table: u64 = pe + 24 + opt_size;
    if table > len || (len - table) / 40 < n {
        proof {
            assert(!(pe_table_offset(bytes@) + pe_section_count(bytes@) * 40 <= bytes@.len()));
        }
        return Err(CoreError::IOFailure);
    }
    proof {
        assert(table + n * 40 <= len);
    }
    let mut sections: Vec<Section> = Vec::new();
    let mut i: u64 = 0;
    while i < n
        invariant
            0 <= i <= n,
            table + n * 40 <= len,
            len == bytes@.len(),
            n == pe_section_count(bytes@),
            table == pe_table_offset(bytes@),
            sections@.len() == i,
            forall|k: int|
                0 <= k < i ==> #[trigger] sections@[k] == pe_section_at(
                    bytes@,
                    pe_table_offset(bytes@) + k * 40,
                ),
        decreases n - i,
    {
        let base: u64 = table + i * 40;
        let virtual_size = match get_u32(bytes, base + 8) {
            Some(v) => v as u64,
            None => {
                return Err(CoreError::IOFailure);
            },
        };
        let virtual_address = match get_u32(bytes, base + 12) {
            Some(v) => v as u64,
            None => {
                return Err(CoreError::IOFailure);
            },
        };
        let file_offset = match get_u32(bytes, base + 20) {
            Some(v) => v as u64,
            None => {
                return Err(CoreError::IOFailure);
            },
        };
        sections.push(Section { virtual_address, virtual_size, file_offset });
        i = i + 1;
    }
    let map = SectionMap { sections };
    proof {
        assert(map.sections@ =~= pe_sections(bytes@));
    }
    if map.check_wf() {
        Ok(map)
    } else {
        Err(CoreError::IOFailure)
    }
}

} // verus!
