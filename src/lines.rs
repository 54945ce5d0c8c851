use vstd::prelude::*;

verus! {

/// What the line mapping needs of a decoded instruction: whether it is a line marker.
#[derive(Clone, Copy, Debug, PartialEq, Eq, Structural)]
pub enum Instruction {
    DbgLine(u32),
    Other,
}

/// One entry of a disassembly listing: the instruction's offset and what it is.
#[derive(Clone, Copy, Debug, PartialEq, Eq, Structural)]
pub struct Decoded {
    pub offset: u32,
    pub instruction: Instruction,
}

/// Scans a listing for `offset`, carrying the last line marker seen in `cur`.
/// The scan stops at the first instruction past `offset` or at the one exactly at it;
/// a listing that ends first gives none.
pub open spec fn line_scan(s: Seq<Decoded>, offset: u32, cur: Option<u32>) -> Option<u32>
    decreases s.len(),
{
    if s.len() == 0 {
        None
    } else if s[0].offset > offset {
        cur
    } else {
        let next = match s[0].instruction {
            Instruction::DbgLine(l) => Some(l),
            Instruction::Other => cur,
        };
        if s[0].offset == offset {
            next
        } else {
            line_scan(s.drop_first(), offset, next)
        }
    }
}

/// The offset of the instruction right after the first marker of `line`, if there is one.
pub open spec fn offset_scan(s: Seq<Decoded>, line: u32) -> Option<u32>
    decreases s.len(),
{
    if s.len() == 0 {
        None
    } else if s[0].instruction == Instruction::DbgLine(line) {
        if s.len() > 1 {
            Some(s[1].offset)
        } else {
            None
        }
    } else {
        offset_scan(s.drop_first(), line)
    }
}

/// The source line of an instruction offset, from the proc's listing (none where the proc
/// was not found).
pub fn get_line_number(listing: &Option<Vec<Decoded>>, offset: u32) -> (r: Option<u32>)
    ensures
        r == match listing {
            Some(l) => line_scan(l@, offset, None),
            None => None,
        },
{
    match listing {
        None => None,
        Some(dism) => {
            let n = dism.len();
            let mut cur: Option<u32> = None;
            let mut i: usize = 0;
            assert(dism@.skip(0) =~= dism@);
            while i < n
                invariant
                    n == dism@.len(),
                    match listing {
                        Some(l) => l@ == dism@,
                        None => false,
                    },
                    i <= n,
                    line_scan(dism@, offset, None) == line_scan(dism@.skip(i as int), offset, cur),
                decreases n - i,
            {
                let d = dism[i];
                assert(dism@.skip(i as int).drop_first() =~= dism@.skip(i + 1));
                assert(dism@.skip(i as int)[0] == d);
                if d.offset > offset {
                    return cur;
                }
                if let Instruction::DbgLine(line) = d.instruction {
                    cur = Some(line);
                }
                if d.offset == offset {
                    return cur;
                }
                i = i + 1;
            }
            None
        },
    }
}

/// The offset of the first instruction of a source line, from the proc's listing.
pub fn get_offset(listing: &Option<Vec<Decoded>>, line: u32) -> (r: Option<u32>)
    ensures
        r == match listing {
            Some(l) => offset_scan(l@, line),
            None => None,
        },
{
    match listing {
        None => None,
        Some(dism) => {
            let n = dism.len();
            let mut i: usize = 0;
            assert(dism@.skip(0) =~= dism@);
            while i < n
                invariant
                    n == dism@.len(),
                    match listing {
                        Some(l) => l@ == dism@,
                        None => false,
                    },
                    i <= n,
                    offset_scan(dism@, line) == offset_scan(dism@.skip(i as int), line),
                decreases n - i,
            {
                assert(dism@.skip(i as int).drop_first() =~= dism@.skip(i + 1));
                assert(dism@.skip(i as int)[0] == dism@[i as int]);
                assert(i + 1 < n ==> dism@.skip(i as int)[1] == dism@[i + 1]);
                if dism[i].instruction == Instruction::DbgLine(line) {
                    if i + 1 < n {
                        return Some(dism[i + 1].offset);
                    }
                    return None;
                }
                i = i + 1;
            }
            None
        },
    }
}

} // verus!
