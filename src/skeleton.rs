use vstd::prelude::*;

verus! {

/// The byte that opens every encoded term: the version of the format.
pub const FORMAT_VERSION: u8 = 131;

/// The tags of the terms that the two schemas are made of.
pub const ATOM_EXT: u8 = 100;
pub const SMALL_TUPLE_EXT: u8 = 104;
pub const LARGE_TUPLE_EXT: u8 = 105;
pub const BINARY_EXT: u8 = 109;
pub const SMALL_ATOM_EXT: u8 = 115;
pub const MAP_EXT: u8 = 116;
pub const ATOM_UTF8_EXT: u8 = 118;
pub const SMALL_ATOM_UTF8_EXT: u8 = 119;

/// How deeply maps and tuples may nest.
pub const MAX_DEPTH: usize = 32;

/// The big-endian integer in the two bytes at `p`.
pub open spec fn be16(b: Seq<u8>, p: int) -> int {
    b[p] * 256 + b[p + 1]
}

/// The big-endian integer in the four bytes at `p`.
pub open spec fn be32(b: Seq<u8>, p: int) -> int {
    ((b[p] * 256 + b[p + 1]) * 256 + b[p + 2]) * 256 + b[p + 3]
}

/// Reads the rest of a term skeleton from `pos` on. `stack` holds, for each
/// map or tuple still open, how many terms it still holds; the last is the
/// innermost. Only maps, tuples, atoms and binaries are read, and maps and
/// tuples nest at most `MAX_DEPTH` deep. Bytes after the term are left.
pub open spec fn skeleton_from(b: Seq<u8>, pos: int, stack: Seq<u64>) -> bool
    decreases 2 * (b.len() - pos) + stack.len(),
{
    if pos < 0 || pos > b.len() {
        false
    } else if stack.len() == 0 {
        true
    } else if stack.last() == 0 {
        skeleton_from(b, pos, stack.drop_last())
    } else if pos >= b.len() {
        false
    } else {
        let rest = stack.drop_last().push((stack.last() - 1) as u64);
        let tag = b[pos];
        if tag == BINARY_EXT {
            pos + 5 <= b.len() && pos + 5 + be32(b, pos + 1) <= b.len()
                && skeleton_from(b, pos + 5 + be32(b, pos + 1), rest)
        } else if tag == ATOM_EXT || tag == ATOM_UTF8_EXT {
            pos + 3 <= b.len() && pos + 3 + be16(b, pos + 1) <= b.len()
                && skeleton_from(b, pos + 3 + be16(b, pos + 1), rest)
        } else if tag == SMALL_ATOM_EXT || tag == SMALL_ATOM_UTF8_EXT {
            pos + 2 <= b.len() && pos + 2 + b[pos + 1] <= b.len()
                && skeleton_from(b, pos + 2 + b[pos + 1], rest)
        } else if tag == SMALL_TUPLE_EXT {
            pos + 2 <= b.len() && rest.len() < MAX_DEPTH
                && skeleton_from(b, pos + 2, rest.push(b[pos + 1] as u64))
        } else if tag == LARGE_TUPLE_EXT {
            pos + 5 <= b.len() && rest.len() < MAX_DEPTH
                && skeleton_from(b, pos + 5, rest.push(be32(b, pos + 1) as u64))
        } else if tag == MAP_EXT {
            pos + 5 <= b.len() && rest.len() < MAX_DEPTH
                && skeleton_from(b, pos + 5, rest.push((2 * be32(b, pos + 1)) as u64))
        } else {
            false
        }
    }
}

/// The bytes open with the version of the format and hold one term made of
/// maps, tuples, atoms and binaries alone, nested at most `MAX_DEPTH` deep.
pub open spec fn readable_term(b: Seq<u8>) -> bool {
    b.len() >= 1 && b[0] == FORMAT_VERSION && skeleton_from(b, 1, seq![1u64])
}

fn read_be16(b: &[u8], p: usize) -> (r: usize)
    requires
        p + 2 <= b@.len(),
    ensures
        r == be16(b@, p as int),
{
    (b[p] as usize) * 256 + (b[p + 1] as usize)
}

fn read_be32(b: &[u8], p: usize) -> (r: u64)
    requires
        p + 4 <= b@.len(),
    ensures
        r == be32(b@, p as int),
        r < 0x1_0000_0000,
{
    let b0 = b[p] as u64;
    let b1 = b[p + 1] as u64;
    let b2 = b[p + 2] as u64;
    let b3 = b[p + 3] as u64;
    ((b0 * 256 + b1) * 256 + b2) * 256 + b3
}

/// Tells whether the bytes hold a term that the schemas can be read from,
/// and nothing that the decoder could not take.
pub fn is_readable_term(b: &[u8]) -> (r: bool)
    ensures
        r == readable_term(b@),
{
    if b.len() < 1 || b[0] != FORMAT_VERSION {
        return false;
    }
    let mut pos: usize = 1;
    let mut stack: Vec<u64> = Vec::new();
    stack.push(1);
    assert(stack@ =~= seq![1u64]);
    while stack.len() > 0
        invariant
            1 <= pos <= b@.len(),
            stack@.len() <= MAX_DEPTH + 1,
            b@.len() >= 1 && b@[0] == FORMAT_VERSION,
            skeleton_from(b@, pos as int, stack@) == readable_term(b@),
        decreases 2 * (b@.len() - pos) + stack@.len(),
    {
        let ghost prev = stack@;
        let ghost p0 = pos as int;
        let last = stack.len() - 1;
        let top = stack[last];
        if top == 0 {
            stack.pop();
            assert(stack@ =~= prev.drop_last());
            continue;
        }
        if pos >= b.len() {
            return false;
        }
        stack.set(last, top - 1);
        assert(stack@ =~= prev.drop_last().push((prev.last() - 1) as u64));
        let tag = b[pos];
        let avail = b.len() - pos;
        if tag == BINARY_EXT {
            if avail < 5 {
                return false;
            }
            let n = read_be32(b, pos + 1);
            if n > (avail - 5) as u64 {
                return false;
            }
            pos = pos + 5 + n as usize;
        } else if tag == ATOM_EXT || tag == ATOM_UTF8_EXT {
            if avail < 3 {
                return false;
            }
            let n = read_be16(b, pos + 1);
            if n > avail - 3 {
                return false;
            }
            pos = pos + 3 + n;
        } else if tag == SMALL_ATOM_EXT || tag == SMALL_ATOM_UTF8_EXT {
            if avail < 2 {
                return false;
            }
            let n = b[pos + 1] as usize;
            if n > avail - 2 {
                return false;
            }
            pos = pos + 2 + n;
        } else if tag == SMALL_TUPLE_EXT || tag == LARGE_TUPLE_EXT || tag == MAP_EXT {
            if stack.len() >= MAX_DEPTH {
                return false;
            }
            if tag == SMALL_TUPLE_EXT {
                if avail < 2 {
                    return false;
                }
                let count = b[pos + 1] as u64;
                pos = pos + 2;
                stack.push(count);
            } else {
                if avail < 5 {
                    return false;
                }
                let n = read_be32(b, pos + 1);
                let count = if tag == MAP_EXT { 2 * n } else { n };
                pos = pos + 5;
                stack.push(count);
            }
        } else {
            return false;
        }
    }
    true
}

} // verus!
