//! The remote memory reader: materializes a NUL-terminated string from the
//! tracee's address space, one machine word at a time, best-effort.  A
//! word that cannot be read truncates the string to what was accumulated
//! so far; it never fails the record.
//!
//! Beside the live reader stands a reader over an explicit memory model,
//! with the same word-by-word algorithm and an exact contract, so that the
//! scanning logic can be exercised without a tracee.

use vstd::prelude::*;

use crate::cstring::{
    append_word_until_nul, has_nul, lemma_take_until_nul_nul_free, lemma_take_until_nul_whole,
    take_until_nul,
};
use crate::sys;
use crate::sys::lossy_utf8;
use vstd::bytes::{spec_u64_to_le_bytes, u64_to_le_bytes};

verus! {

/// One readable stretch of simulated tracee memory: consecutive
/// little-endian words starting at a word-aligned address.
pub struct MemRegion {
    pub start: u64,
    pub words: Vec<u64>,
}

/// Simulated tracee memory: any address outside every region is
/// unreadable, as an unmapped page is.
pub struct SimMemory {
    pub regions: Vec<MemRegion>,
}

/// The word that `region` holds at `addr`: defined when `addr` is
/// word-aligned relative to the region's start and falls inside it.
pub open spec fn region_word(region: &MemRegion, addr: u64) -> Option<u64> {
    if region.start <= addr && (addr - region.start) % 8 == 0 && (addr - region.start) / 8
        < region.words@.len() {
        Some(region.words@[(addr - region.start) / 8])
    } else {
        None
    }
}

pub open spec fn peek_from(regions: Seq<MemRegion>, addr: u64) -> Option<u64>
    decreases regions.len(),
{
    if regions.len() == 0 {
        None
    } else {
        match region_word(&regions[0], addr) {
            Some(w) => Some(w),
            None => peek_from(regions.drop_first(), addr),
        }
    }
}

/// The word the simulated memory holds at `addr`, from the first region
/// that covers it; `None` where no region does.
pub open spec fn spec_peek(mem: &SimMemory, addr: u64) -> Option<u64> {
    peek_from(mem.regions@, addr)
}

/// Read one simulated word, as the trace interface would from a live
/// tracee: the word at a readable address, a failure anywhere else.
pub fn sim_peek(mem: &SimMemory, addr: u64) -> (r: Option<u64>)
    ensures
        r == spec_peek(mem, addr),
{
    let n = mem.regions.len();
    proof {
        assert(mem.regions@.subrange(0, n as int) =~= mem.regions@);
    }
    let mut i: usize = 0;
    while i < n
        invariant
            0 <= i <= n,
            n == mem.regions@.len(),
            peek_from(mem.regions@, addr) == peek_from(mem.regions@.subrange(i as int, n as int), addr),
        decreases n - i,
    {
        let region = &mem.regions[i];
        proof {
            assert(mem.regions@.subrange(i as int, n as int)[0] == mem.regions@[i as int]);
        }
        if region.start <= addr {
            let off = addr - region.start;
            if off % 8 == 0 && off / 8 < region.words.len() as u64 {
                let w = region.words[(off / 8) as usize];
                return Some(w);
            }
        }
        proof {
            assert(mem.regions@.subrange(i as int, n as int).drop_first() =~= mem.regions@.subrange(
                i + 1,
                n as int,
            ));
        }
        i = i + 1;
    }
    proof {
        assert(mem.regions@.subrange(n as int, n as int).len() == 0);
    }
    None
}

/// The bytes a word-by-word scan of the simulated memory accumulates from
/// `addr` on: each readable word contributes the bytes before its first
/// zero byte, the scan ends at that zero byte, at the first unreadable
/// word, or at the end of the address space.
pub open spec fn cstr_bytes(mem: &SimMemory, addr: u64) -> Seq<u8>
    decreases u64::MAX - addr,
{
    match spec_peek(mem, addr) {
        None => Seq::empty(),
        Some(w) => {
            let bs = spec_u64_to_le_bytes(w);
            if has_nul(bs) {
                take_until_nul(bs)
            } else if addr <= u64::MAX - 8 {
                bs + cstr_bytes(mem, (addr + 8) as u64)
            } else {
                bs
            }
        },
    }
}

/// Read the NUL-terminated string at `addr` out of the simulated memory,
/// decoded as lossy UTF-8.
pub fn read_c_string_sim(mem: &SimMemory, addr: u64) -> (r: String)
    ensures
        r@ == lossy_utf8(cstr_bytes(mem, addr)),
{
    let mut buf: Vec<u8> = Vec::new();
    let mut cur: u64 = addr;
    loop
        invariant_except_break
            buf@ + cstr_bytes(mem, cur) == cstr_bytes(mem, addr),
        ensures
            buf@ == cstr_bytes(mem, addr),
        decreases u64::MAX - cur,
    {
        match sim_peek(mem, cur) {
            None => {
                assert(buf@ =~= buf@ + cstr_bytes(mem, cur));
                break ;
            },
            Some(w) => {
                let word_bytes = u64_to_le_bytes(w);
                let ghost old_buf = buf@;
                let ghost bs = spec_u64_to_le_bytes(w);
                let found = append_word_until_nul(&mut buf, &word_bytes);
                if found {
                    proof {
                        assert(cstr_bytes(mem, cur) == take_until_nul(bs));
                        assert(buf@ =~= old_buf + take_until_nul(bs));
                        assert(buf@ =~= old_buf + cstr_bytes(mem, cur));
                    }
                    break ;
                }
                proof {
                    lemma_take_until_nul_whole(bs);
                }
                if cur <= u64::MAX - 8 {
                    proof {
                        assert(cstr_bytes(mem, cur) == bs + cstr_bytes(mem, (cur + 8) as u64));
                        assert(buf@ + cstr_bytes(mem, (cur + 8) as u64) =~= old_buf + cstr_bytes(
                            mem,
                            cur,
                        ));
                    }
                    cur = cur + 8;
                } else {
                    proof {
                        assert(cstr_bytes(mem, cur) == bs);
                        assert(buf@ =~= old_buf + cstr_bytes(mem, cur));
                    }
                    break ;
                }
            },
        }
    }
    sys::lossy_string(&buf)
}

/// Read the NUL-terminated string at `addr` out of the live tracee's
/// memory.  Best-effort: the result is the lossy UTF-8 decoding of the
/// NUL-free bytes accumulated before the terminator, or before the first
/// word the trace interface refused to read.
pub fn read_c_string(pid: i32, addr: u64) -> (r: String)
    ensures
        exists|bytes: Seq<u8>| !has_nul(bytes) && r@ == lossy_utf8(bytes),
{
    let mut buf: Vec<u8> = Vec::new();
    let mut cur: u64 = addr;
    loop
        invariant_except_break
            !has_nul(buf@),
        ensures
            !has_nul(buf@),
        decreases u64::MAX - cur,
    {
        match sys::peek_word(pid, cur) {
            Err(_) => {
                break ;
            },
            Ok(w) => {
                let word_bytes = u64_to_le_bytes(w);
                proof {
                    lemma_take_until_nul_nul_free(word_bytes@);
                    if !has_nul(word_bytes@) {
                        crate::cstring::lemma_take_until_nul_whole(word_bytes@);
                    }
                }
                let ghost old_buf = buf@;
                let found = append_word_until_nul(&mut buf, &word_bytes);
                proof {
                    assert forall|i: int| 0 <= i < buf@.len() implies buf@[i] != 0 by {
                        if i < old_buf.len() {
                            assert(buf@[i] == old_buf[i]);
                        } else {
                            assert(buf@[i] == take_until_nul(word_bytes@)[i - old_buf.len()]);
                        }
                    }
                }
                if found {
                    break ;
                }
                if cur <= u64::MAX - 8 {
                    cur = cur + 8;
                } else {
                    break ;
                }
            },
        }
    }
    sys::lossy_string(&buf)
}

} // verus!
