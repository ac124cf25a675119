//! Symbol resolution: scanning the textual debug metadata produced by an
//! external symbol-dump utility for a named function, and the persisted
//! name-to-size table used for the binary lacking debug information.
//!
//! The metadata text is consumed line by line. An entry line holds two or
//! three space-separated fields: the symbol name, its relative virtual
//! address, and optionally its byte length, the numbers written in decimal
//! or `0x`-prefixed hexadecimal.

use vstd::prelude::*;

use crate::errors::CoreError;
use crate::offsets::{offset_value, parse_offset};
use crate::scan::{bytes_eq, split_by, split_bytes};

verus! {

pub const LINE_FEED: u8 = 10;
pub const SPACE: u8 = 32;

/// A function found in the debug metadata: its name, its relative virtual
/// address, and, when the metadata reports one, its byte length.
#[derive(Debug)]
pub struct SymbolInfo {
    pub name: Vec<u8>,
    pub relative_virtual_address: u64,
    pub length: Option<u64>,
}

/// The parsed form of one metadata line, if it is an entry line: name,
/// address, optional length. Numbers over `u64::MAX` make no entry.
pub open spec fn entry_of(line: Seq<u8>) -> Option<(Seq<u8>, u64, Option<u64>)> {
    let t = split_by(line, SPACE);
    if t.len() == 2 {
        match offset_value(t[1]) {
            Some(a) => if t[0].len() > 0 && a <= u64::MAX {
                Some((t[0], a as u64, None))
            } else {
                None
            },
            None => None,
        }
    } else if t.len() == 3 {
        match (offset_value(t[1]), offset_value(t[2])) {
            (Some(a), Some(l)) => if t[0].len() > 0 && a <= u64::MAX && l <= u64::MAX {
                Some((t[0], a as u64, Some(l as u64)))
            } else {
                None
            },
            _ => None,
        }
    } else {
        None
    }
}

/// The first entry among `lines` whose name is exactly `name`, as its
/// (address, optional length) pair.
pub open spec fn find_entry(lines: Seq<Seq<u8>>, name: Seq<u8>) -> Option<(u64, Option<u64>)>
    decreases lines.len(),
{
    if lines.len() == 0 {
        None
    } else {
        match entry_of(lines[0]) {
            Some(e) => if e.0 == name {
                Some((e.1, e.2))
            } else {
                find_entry(lines.skip(1), name)
            },
            None => find_entry(lines.skip(1), name),
        }
    }
}

/// A search that comes back empty really means the name is absent: no
/// line parses as an entry with that name. A found pair really comes from
/// some entry line carrying the name.
pub proof fn lemma_find_entry_complete(lines: Seq<Seq<u8>>, name: Seq<u8>)
    ensures
        find_entry(lines, name) is None ==> forall|i: int|
            0 <= i < lines.len() ==> !(entry_of(#[trigger] lines[i]) matches Some(e) && e.0
                == name),
        find_entry(lines, name) matches Some(r) ==> exists|i: int|
            0 <= i < lines.len() && (entry_of(#[trigger] lines[i]) matches Some(e) && e.0 == name
                && r == (e.1, e.2)),
    decreases lines.len(),
{
    if lines.len() > 0 {
        lemma_find_entry_complete(lines.skip(1), name);
        let head_match = entry_of(lines[0]) matches Some(e) && e.0 == name;
        if find_entry(lines, name) is None {
            assert(!head_match);
            assert forall|i: int| 0 <= i < lines.len() implies !(entry_of(
                #[trigger] lines[i],
            ) matches Some(e) && e.0 == name) by {
                if i > 0 {
                    assert(lines.skip(1)[i - 1] == lines[i]);
                }
            }
        } else {
            let r = find_entry(lines, name)->Some_0;
            if head_match {
                assert(entry_of(lines[0]) matches Some(e) && e.0 == name && r == (e.1, e.2));
            } else {
                let j = choose|j: int|
                    0 <= j < lines.skip(1).len() && (entry_of(
                        #[trigger] lines.skip(1)[j],
                    ) matches Some(e) && e.0 == name && r == (e.1, e.2));
                assert(lines.skip(1)[j] == lines[j + 1]);
                assert(entry_of(lines[j + 1]) matches Some(e) && e.0 == name && r == (e.1, e.2));
            }
        }
    }
}

/// What `resolve` finds for `name` in the metadata text: the first
/// matching entry of its lines.
pub open spec fn resolve_spec(text: Seq<u8>, name: Seq<u8>) -> Option<(u64, Option<u64>)> {
    find_entry(split_by(text, LINE_FEED), name)
}

/// Parses one metadata line as an entry, if it is one.
fn parse_entry_line(line: &Vec<u8>) -> (r: Option<(Vec<u8>, u64, Option<u64>)>)
    ensures
        match entry_of(line@) {
            Some(e) => r matches Some(p) && p.0@ == e.0 && p.1 == e.1 && p.2 == e.2,
            None => r is None,
        },
{
    let fields = split_bytes(line.as_slice(), SPACE);
    let ghost t = split_by(line@, SPACE);
    proof {
        assert(fields@.map_values(|p: Vec<u8>| p@).len() == t.len());
    }
    if fields.len() == 2 {
        proof {
            assert(fields@.map_values(|p: Vec<u8>| p@)[0] == t[0]);
            assert(fields@.map_values(|p: Vec<u8>| p@)[1] == t[1]);
        }
        if fields[0].len() == 0 {
            return None;
        }
        match parse_offset(fields[1].as_slice()) {
            Some(a) => {
                let mut fields = fields;
                let name = fields.remove(0);
                Some((name, a, None))
            },
            None => None,
        }
    } else if fields.len() == 3 {
        proof {
            assert(fields@.map_values(|p: Vec<u8>| p@)[0] == t[0]);
            assert(fields@.map_values(|p: Vec<u8>| p@)[1] == t[1]);
            assert(fields@.map_values(|p: Vec<u8>| p@)[2] == t[2]);
        }
        if fields[0].len() == 0 {
            return None;
        }
        match (parse_offset(fields[1].as_slice()), parse_offset(fields[2].as_slice())) {
            (Some(a), Some(l)) => {
                let mut fields = fields;
                let name = fields.remove(0);
                Some((name, a, Some(l)))
            },
            _ => None,
        }
    } else {
        None
    }
}

/// Finds the named function in the debug-metadata text.
///
/// Returns the first entry whose name matches `name` exactly, with its
/// relative virtual address and, when the entry encodes one, its length;
/// fails with `SymbolNotFound` when no entry matches. A pure text-to-struct
/// transform with no side effects.
pub fn resolve(text: &[u8], name: &[u8]) -> (r: Result<SymbolInfo, CoreError>)
    ensures
        match resolve_spec(text@, name@) {
            Some(e) => r matches Ok(si) && si.name@ == name@ && si.relative_virtual_address == e.0
                && si.length == e.1,
            None => r matches Err(err) && err == CoreError::SymbolNotFound,
        },
{
    let lines = split_bytes(text, LINE_FEED);
    let ghost ls = split_by(text@, LINE_FEED);
    let mut j: usize = 0;
    proof {
        assert(ls.skip(0) =~= ls);
    }
    while j < lines.len()
        invariant
            0 <= j <= lines@.len(),
            ls == split_by(text@, LINE_FEED),
            lines@.map_values(|p: Vec<u8>| p@) == ls,
            find_entry(ls, name@) == find_entry(ls.skip(j as int), name@),
        decreases lines@.len() - j,
    {
        proof {
            assert(ls.skip(j as int)[0] == lines@.map_values(|p: Vec<u8>| p@)[j as int]);
            assert(ls.skip(j as int).skip(1) =~= ls.skip(j + 1));
        }
        match parse_entry_line(&lines[j]) {
            Some(entry) => {
                if bytes_eq(entry.0.as_slice(), name) {
                    proof {
                        assert(lines@.map_values(|p: Vec<u8>| p@)[j as int] == lines@[j as int]@);
                        assert(lines@[j as int]@ == ls.skip(j as int)[0]);
                        let e = entry_of(ls.skip(j as int)[0])->Some_0;
                        assert(e.0 == name@);
                        assert(e.1 == entry.1 && e.2 == entry.2);
                        assert(find_entry(ls.skip(j as int), name@) == Some((e.1, e.2)));
                        assert(resolve_spec(text@, name@) == Some((e.1, e.2)));
                    }
                    let name_copy: Vec<u8> = vstd::slice::slice_to_vec(name);
                    return Ok(
                        SymbolInfo {
                            name: name_copy,
                            relative_virtual_address: entry.1,
                            length: entry.2,
                        },
                    );
                }
            },
            None => {},
        }
        j = j + 1;
    }
    proof {
        assert(ls.skip(ls.len() as int) =~= Seq::<Seq<u8>>::empty());
    }
    Err(CoreError::SymbolNotFound)
}

/// One entry of the persisted symbol-size table: a name, an optional
/// explicit address in the reference binary, and an optional byte length.
#[derive(Debug)]
pub struct SizeEntry {
    pub name: Vec<u8>,
    pub address: Option<u64>,
    pub size: Option<u64>,
}

/// The persisted mapping from symbol name to (optional address, optional
/// length), kept in its stored order. A name absent from the table means
/// "size unknown"; lookups are by exact name match.
#[derive(Debug)]
pub struct SymbolSizeTable {
    pub entries: Vec<SizeEntry>,
}

/// The first table entry with the given name, as its
/// (optional address, optional size) pair.
pub open spec fn table_lookup(entries: Seq<SizeEntry>, name: Seq<u8>) -> Option<
    (Option<u64>, Option<u64>),
>
    decreases entries.len(),
{
    if entries.len() == 0 {
        None
    } else if entries[0].name@ == name {
        Some((entries[0].address, entries[0].size))
    } else {
        table_lookup(entries.skip(1), name)
    }
}

impl SymbolSizeTable {
    /// Looks the name up by exact match, in stored order.
    pub fn lookup(&self, name: &[u8]) -> (r: Option<(Option<u64>, Option<u64>)>)
        ensures
            r == table_lookup(self.entries@, name@),
    {
        let mut j: usize = 0;
        proof {
            assert(self.entries@.skip(0) =~= self.entries@);
        }
        while j < self.entries.len()
            invariant
                0 <= j <= self.entries@.len(),
                table_lookup(self.entries@, name@) == table_lookup(
                    self.entries@.skip(j as int),
                    name@,
                ),
            decreases self.entries@.len() - j,
        {
            proof {
                assert(self.entries@.skip(j as int)[0] == self.entries@[j as int]);
                assert(self.entries@.skip(j as int).skip(1) =~= self.entries@.skip(j + 1));
            }
            if bytes_eq(self.entries[j].name.as_slice(), name) {
                return Some((self.entries[j].address, self.entries[j].size));
            }
            j = j + 1;
        }
        proof {
            assert(self.entries@.skip(self.entries@.len() as int) =~= Seq::<SizeEntry>::empty());
        }
        None
    }
}

} // verus!
