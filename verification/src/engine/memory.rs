//! Linear memory: a vector of bytes that grows by whole pages.

use crate::page::Page;
use crate::PAGE_SIZE;
use vstd::bytes::{
    spec_u32_from_le_bytes, spec_u32_to_le_bytes, spec_u64_from_le_bytes, spec_u64_to_le_bytes,
    u32_from_le_bytes, u32_to_le_bytes, u64_from_le_bytes, u64_to_le_bytes,
};
use vstd::prelude::*;
use vstd::slice::slice_subrange;

verus! {

/// The largest number of pages a memory can have.
pub const MAX_PAGES: usize = 65536;

/// A memory instance: its bytes and the largest number of pages it may grow to.
#[derive(Debug)]
pub struct MemoryInstance {
    pub data: Vec<u8>,
    pub max: Option<u32>,
}

/// `n` zero bytes.
pub open spec fn zeros(n: nat) -> Seq<u8> {
    Seq::new(n, |i: int| 0u8)
}

/// The number of whole pages in `len` bytes.
pub open spec fn pages_of(len: nat) -> nat {
    len / PAGE_SIZE as nat
}

/// Whether growing a memory of `len` bytes and maximum `max` by `n > 0` pages
/// stays within the limits.
pub open spec fn can_grow(len: nat, max: Option<u32>, n: nat) -> bool {
    &&& n + pages_of(len) <= MAX_PAGES
    &&& match max {
        Some(m) => n + pages_of(len) <= m,
        None => true,
    }
}

/// A vector of `n` zero bytes.
pub fn zero_bytes(n: usize) -> (v: Vec<u8>)
    ensures
        v@ == zeros(n as nat),
{
    let mut v: Vec<u8> = Vec::new();
    let mut i: usize = 0;
    while i < n
        invariant
            i <= n,
            v@ == zeros(i as nat),
        decreases n - i,
    {
        v.push(0u8);
        i = i + 1;
        proof {
            assert(v@ =~= zeros(i as nat));
        }
    }
    v
}

/// Grows the memory by `n` pages, each filled with zeros, and returns the new
/// number of pages. Growing by zero pages returns the current number. Growing
/// beyond the largest number of pages, or beyond the maximum of the memory,
/// fails and changes nothing.
pub fn grow_memory(instance: &mut MemoryInstance, n: Page) -> (r: Result<Page, ()>)
    requires
        n@ + pages_of(old(instance).data@.len()) <= usize::MAX,
    ensures
        final(instance).max == old(instance).max,
        n@ == 0 ==> (r matches Ok(p) && p@ == pages_of(old(instance).data@.len()) && final(instance).data@
            == old(instance).data@),
        n@ > 0 && !(can_grow(old(instance).data@.len(), old(instance).max, n@) && n@ * PAGE_SIZE
            <= usize::MAX) ==> r is Err && final(instance).data@ == old(instance).data@,
        n@ > 0 && can_grow(old(instance).data@.len(), old(instance).max, n@) && n@ * PAGE_SIZE
            <= usize::MAX ==> (r matches Ok(p) && p@ == pages_of(old(instance).data@.len()) + n@
            && final(instance).data@ == old(instance).data@ + zeros(n@ * PAGE_SIZE as nat)),
{
    let current = Page::from_count(instance.data.len());
    if n.is_zero() {
        return Ok(current);
    }
    let len = n.add(current);
    if len.pages() > MAX_PAGES {
        return Err(());
    }
    if let Some(max) = instance.max {
        if len.pages() > max as usize {
            return Err(());
        }
    }
    if n.pages() > usize::MAX / PAGE_SIZE {
        return Err(());
    }
    let mut extension = zero_bytes(n.elements());
    instance.data.append(&mut extension);
    Ok(len)
}

/// The bytes `data[addr..addr + n]`.
pub open spec fn bytes_at(data: Seq<u8>, addr: int, n: int) -> Seq<u8> {
    data.subrange(addr, addr + n)
}

/// The memory with `bytes` written from `addr` on.
pub open spec fn write_bytes(data: Seq<u8>, addr: int, bytes: Seq<u8>) -> Seq<u8> {
    data.subrange(0, addr) + bytes + data.subrange(addr + bytes.len(), data.len() as int)
}

impl MemoryInstance {
    /// The four bytes at `addr`, little-endian; `None` where they are not all in memory.
    pub fn read_u32(&self, addr: usize) -> (r: Option<u32>)
        ensures
            addr + 4 <= self.data@.len() ==> r == Some(spec_u32_from_le_bytes(bytes_at(self.data@, addr as int, 4))),
            addr + 4 > self.data@.len() ==> r is None,
    {
        if addr > self.data.len() || self.data.len() - addr < 4 {
            return None;
        }
        let s = self.data.as_slice();
        let w = slice_subrange(s, addr, addr + 4);
        Some(u32_from_le_bytes(w))
    }

    /// The eight bytes at `addr`, little-endian; `None` where they are not all in memory.
    pub fn read_u64(&self, addr: usize) -> (r: Option<u64>)
        ensures
            addr + 8 <= self.data@.len() ==> r == Some(spec_u64_from_le_bytes(bytes_at(self.data@, addr as int, 8))),
            addr + 8 > self.data@.len() ==> r is None,
    {
        if addr > self.data.len() || self.data.len() - addr < 8 {
            return None;
        }
        let s = self.data.as_slice();
        let w = slice_subrange(s, addr, addr + 8);
        Some(u64_from_le_bytes(w))
    }

    /// Writes `bytes` from `addr` on; fails, changing nothing, where they do not all
    /// fit.
    pub fn write(&mut self, addr: usize, bytes: &[u8]) -> (ok: bool)
        ensures
            ok == (addr + bytes@.len() <= old(self).data@.len()),
            ok ==> final(self).data@ == write_bytes(old(self).data@, addr as int, bytes@),
            !ok ==> final(self).data@ == old(self).data@,
            final(self).max == old(self).max,
    {
        if addr > self.data.len() || self.data.len() - addr < bytes.len() {
            return false;
        }
        let mut k: usize = 0;
        while k < bytes.len()
            invariant
                k <= bytes@.len(),
                addr + bytes@.len() <= self.data.len(),
                self.data@.len() == old(self).data@.len(),
                self.max == old(self).max,
                self.data@ == write_bytes(old(self).data@, addr as int, bytes@.subrange(0, k as int)),
            decreases bytes@.len() - k,
        {
            self.data.set(addr + k, bytes[k]);
            k = k + 1;
            proof {
                assert(self.data@ =~= write_bytes(old(self).data@, addr as int, bytes@.subrange(0, k as int)));
            }
        }
        proof {
            assert(bytes@.subrange(0, k as int) =~= bytes@);
        }
        true
    }

    /// Writes the four bytes of `v`, little-endian.
    pub fn write_u32(&mut self, addr: usize, v: u32) -> (ok: bool)
        ensures
            ok == (addr + 4 <= old(self).data@.len()),
            ok ==> final(self).data@ == write_bytes(old(self).data@, addr as int, spec_u32_to_le_bytes(v)),
            !ok ==> final(self).data@ == old(self).data@,
            final(self).max == old(self).max,
    {
        let bytes = u32_to_le_bytes(v);
        proof {
            vstd::bytes::lemma_auto_spec_u32_to_from_le_bytes();
        }
        self.write(addr, bytes.as_slice())
    }

    /// Writes the eight bytes of `v`, little-endian.
    pub fn write_u64(&mut self, addr: usize, v: u64) -> (ok: bool)
        ensures
            ok == (addr + 8 <= old(self).data@.len()),
            ok ==> final(self).data@ == write_bytes(old(self).data@, addr as int, spec_u64_to_le_bytes(v)),
            !ok ==> final(self).data@ == old(self).data@,
            final(self).max == old(self).max,
    {
        let bytes = u64_to_le_bytes(v);
        proof {
            vstd::bytes::lemma_auto_spec_u64_to_from_le_bytes();
        }
        self.write(addr, bytes.as_slice())
    }

    /// Writes the low `n` bytes of `v`, little-endian, for `n` of one, two or four.
    pub fn write_low_bytes(&mut self, addr: usize, v: u64, n: usize) -> (ok: bool)
        requires
            n == 1 || n == 2 || n == 4,
        ensures
            ok == (addr + n <= old(self).data@.len()),
            ok ==> final(self).data@ == write_bytes(
                old(self).data@,
                addr as int,
                spec_u64_to_le_bytes(v).subrange(0, n as int),
            ),
            !ok ==> final(self).data@ == old(self).data@,
            final(self).max == old(self).max,
    {
        let bytes = u64_to_le_bytes(v);
        proof {
            vstd::bytes::lemma_auto_spec_u64_to_from_le_bytes();
        }
        let low = slice_subrange(bytes.as_slice(), 0, n);
        self.write(addr, low)
    }
}

/// What a read of four bytes gives back of a write of four bytes at the same
/// address: the value written.
pub proof fn read_after_write_u32(data: Seq<u8>, addr: int, v: u32)
    requires
        0 <= addr,
        addr + 4 <= data.len(),
    ensures
        spec_u32_from_le_bytes(bytes_at(write_bytes(data, addr, spec_u32_to_le_bytes(v)), addr, 4)) == v,
        write_bytes(data, addr, spec_u32_to_le_bytes(v)).len() == data.len(),
{
    vstd::bytes::lemma_auto_spec_u32_to_from_le_bytes();
    let w = write_bytes(data, addr, spec_u32_to_le_bytes(v));
    assert(bytes_at(w, addr, 4) =~= spec_u32_to_le_bytes(v));
}

/// What a read of eight bytes gives back of a write of eight bytes at the same
/// address: the value written.
pub proof fn read_after_write_u64(data: Seq<u8>, addr: int, v: u64)
    requires
        0 <= addr,
        addr + 8 <= data.len(),
    ensures
        spec_u64_from_le_bytes(bytes_at(write_bytes(data, addr, spec_u64_to_le_bytes(v)), addr, 8)) == v,
        write_bytes(data, addr, spec_u64_to_le_bytes(v)).len() == data.len(),
{
    vstd::bytes::lemma_auto_spec_u64_to_from_le_bytes();
    let w = write_bytes(data, addr, spec_u64_to_le_bytes(v));
    assert(bytes_at(w, addr, 8) =~= spec_u64_to_le_bytes(v));
}

/// A write leaves every byte outside the written range as it was.
pub proof fn write_keeps_other_bytes(data: Seq<u8>, addr: int, bytes: Seq<u8>, i: int)
    requires
        0 <= addr,
        addr + bytes.len() <= data.len(),
        0 <= i < data.len(),
        i < addr || i >= addr + bytes.len(),
    ensures
        write_bytes(data, addr, bytes)[i] == data[i],
{
}

/// A write puts its bytes at the address, one after the other, and keeps the
/// length of the memory.
pub proof fn write_puts_bytes(data: Seq<u8>, addr: int, bytes: Seq<u8>, j: int)
    requires
        0 <= addr,
        addr + bytes.len() <= data.len(),
        0 <= j < bytes.len(),
    ensures
        write_bytes(data, addr, bytes)[addr + j] == bytes[j],
        write_bytes(data, addr, bytes).len() == data.len(),
{
}

} // verus!
