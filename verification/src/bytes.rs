//! Little-endian integer decoding and small byte-sequence helpers that the
//! format reader and the execution engine share.

use vstd::prelude::*;

verus! {

/// The 32-bit integer encoded little-endian by the four bytes of `d`
/// starting at index `i`.
pub open spec fn le32(d: Seq<u8>, i: int) -> u32 {
    (d[i] as int + d[i + 1] as int * 0x100 + d[i + 2] as int * 0x1_0000
        + d[i + 3] as int * 0x100_0000) as u32
}

/// The 64-bit integer encoded little-endian by the eight bytes of `d`
/// starting at index `i`.
pub open spec fn le64(d: Seq<u8>, i: int) -> u64 {
    (d[i] as int + d[i + 1] as int * 0x100 + d[i + 2] as int * 0x1_0000
        + d[i + 3] as int * 0x100_0000 + d[i + 4] as int * 0x1_0000_0000
        + d[i + 5] as int * 0x100_0000_0000 + d[i + 6] as int * 0x1_0000_0000_0000
        + d[i + 7] as int * 0x100_0000_0000_0000) as u64
}

/// Relies on byteorder's `LittleEndian::read_u32`: the first four bytes of
/// `buf`, read as a little-endian 32-bit integer (`u32::from_le_bytes`).
/// It panics when `buf` holds fewer than four bytes, so that case is ruled out.
#[verifier::external_body]
pub(crate) fn read_u32_le(buf: &[u8]) -> (r: u32)
    requires
        buf@.len() >= 4,
    ensures
        r == le32(buf@, 0),
{
    <byteorder::LittleEndian as byteorder::ByteOrder>::read_u32(buf)
}

/// Relies on byteorder's `LittleEndian::read_u64`: the first eight bytes of
/// `buf`, read as a little-endian 64-bit integer (`u64::from_le_bytes`).
/// It panics when `buf` holds fewer than eight bytes, so that case is ruled out.
#[verifier::external_body]
pub(crate) fn read_u64_le(buf: &[u8]) -> (r: u64)
    requires
        buf@.len() >= 8,
    ensures
        r == le64(buf@, 0),
{
    <byteorder::LittleEndian as byteorder::ByteOrder>::read_u64(buf)
}

/// Reads the little-endian 32-bit integer at byte offset `off` of `data`.
pub fn read_u32_at(data: &[u8], off: usize) -> (r: u32)
    requires
        off + 4 <= data@.len(),
    ensures
        r == le32(data@, off as int),
{
    let n = data.len();
    assert(off + 4 <= n);
    let window = vstd::slice::slice_subrange(data, off, off + 4);
    let r = read_u32_le(window);
    proof {
        assert(le32(window@, 0) == le32(data@, off as int));
    }
    r
}

/// Reads the little-endian 64-bit integer at byte offset `off` of `data`.
pub fn read_u64_at(data: &[u8], off: usize) -> (r: u64)
    requires
        off + 8 <= data@.len(),
    ensures
        r == le64(data@, off as int),
{
    let n = data.len();
    assert(off + 8 <= n);
    let window = vstd::slice::slice_subrange(data, off, off + 8);
    let r = read_u64_le(window);
    proof {
        assert(le64(window@, 0) == le64(data@, off as int));
    }
    r
}

/// `s` with its leading NUL bytes removed.
pub open spec fn trim_front(s: Seq<u8>) -> Seq<u8>
    decreases s.len(),
{
    if s.len() > 0 && s[0] == 0 {
        trim_front(s.drop_first())
    } else {
        s
    }
}

/// `s` with its trailing NUL bytes removed.
pub open spec fn trim_back(s: Seq<u8>) -> Seq<u8>
    decreases s.len(),
{
    if s.len() > 0 && s[s.len() - 1] == 0 {
        trim_back(s.drop_last())
    } else {
        s
    }
}

/// A fixed-width name field with its NUL padding removed from both ends.
pub open spec fn trim_nul(s: Seq<u8>) -> Seq<u8> {
    trim_back(trim_front(s))
}

/// True when the two byte slices hold the same bytes.
pub fn bytes_eq(a: &[u8], b: &[u8]) -> (r: bool)
    ensures
        r == (a@ == b@),
{
    if a.len() != b.len() {
        assert(a@ != b@);
        return false;
    }
    let n: usize = a.len();
    let mut i: usize = 0;
    while i < n
        invariant
            n == a@.len(),
            n == b@.len(),
            i <= n,
            forall|j: int| 0 <= j < i ==> a@[j] == b@[j],
        decreases n - i,
    {
        if a[i] != b[i] {
            assert(a@ != b@);
            return false;
        }
        i += 1;
    }
    proof {
        assert(a@ =~= b@);
    }
    true
}

/// Copies a fixed-width, NUL-padded name field into an owned buffer with the
/// padding removed from both ends.
pub fn read_name(data: &[u8]) -> (r: Vec<u8>)
    ensures
        r@ == trim_nul(data@),
{
    let n: usize = data.len();
    proof {
        assert(data@.subrange(0, n as int) =~= data@);
    }
    let mut start: usize = 0;
    while start < n && data[start] == 0
        invariant
            n == data@.len(),
            start <= n,
            trim_front(data@) == trim_front(data@.subrange(start as int, n as int)),
        decreases n - start,
    {
        proof {
            let s = data@.subrange(start as int, n as int);
            assert(s.drop_first() =~= data@.subrange(start as int + 1, n as int));
        }
        start += 1;
    }
    proof {
        let s = data@.subrange(start as int, n as int);
        assert(trim_front(data@) == s);
    }
    let mut end: usize = n;
    while end > start && data[end - 1] == 0
        invariant
            n == data@.len(),
            start <= end <= n,
            trim_front(data@) == data@.subrange(start as int, n as int),
            trim_back(data@.subrange(start as int, n as int)) == trim_back(
                data@.subrange(start as int, end as int),
            ),
        decreases end,
    {
        proof {
            let s = data@.subrange(start as int, end as int);
            assert(s.drop_last() =~= data@.subrange(start as int, end as int - 1));
        }
        end -= 1;
    }
    proof {
        let s = data@.subrange(start as int, end as int);
        assert(trim_nul(data@) == s);
    }
    let mut out: Vec<u8> = Vec::new();
    let mut i: usize = start;
    while i < end
        invariant
            start <= i <= end <= n,
            n == data@.len(),
            out@ =~= data@.subrange(start as int, i as int),
        decreases end - i,
    {
        out.push(data[i]);
        i += 1;
    }
    proof {
        assert(out@ =~= data@.subrange(start as int, end as int));
    }
    out
}

} // verus!
