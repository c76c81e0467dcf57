//! The memory-report decoder: each line is matched against a fixed,
//! ordered table of labels by left-anchored prefix, most specific label
//! first, and the first match alone assigns its field from the line's second
//! token. Unmatched lines are ignored and absent fields stay zero; values
//! keep the kernel's native unit, and the trailing unit token is not read.

use vstd::prelude::*;
use vstd::string::StringSliceAdditionalSpecFns;
use crate::DecodeError;
use crate::counters::{lemma_scalar_line, scalar_line, second_u64, stat_scalar_line, to_u64};
use crate::scan::{
    has_prefix, join_bytes, lemma_differs, lemma_nl_join_lines, line_clean, lines_of, nl_join,
    split_lines, starts_with, token_clean, views_of, COLON, NL,
};

verus! {

/// One snapshot of the kernel's memory counters, in the kernel's native
/// unit. A field whose line is absent stays zero.
#[verifier::ext_equal]
#[derive(Clone, Debug, PartialEq)]
pub struct MemInfo {
    pub mem_total: u64,
    pub mem_free: u64,
    pub mem_available: u64,
    pub bufers: u64,
    pub cached: u64,
    pub swap_cached: u64,
    pub active_anon: u64,
    pub inactive_anon: u64,
    pub active_file: u64,
    pub inactive_file: u64,
    pub active: u64,
    pub inactive: u64,
    pub unevictable: u64,
    pub mlocked: u64,
    pub swap_total: u64,
    pub swap_free: u64,
    pub dirty: u64,
    pub writeback_tmp: u64,
    pub writeback: u64,
    pub anon_pages: u64,
    pub mapped: u64,
    pub shmem: u64,
    pub slab: u64,
    pub s_reclaimable: u64,
    pub s_unreclaim: u64,
    pub kernel_stack: u64,
    pub page_tables: u64,
    pub nfs_unstable: u64,
    pub bounce: u64,
    pub commit_limit: u64,
    pub committed_as: u64,
    pub vmalloc_total: u64,
    pub vmalloc_used: u64,
    pub vmalloc_chunk: u64,
    pub hardware_corrupted: u64,
    pub anon_huge_pages: u64,
    pub cma_total: u64,
    pub cma_free: u64,
    pub huge_pages_total: u64,
    pub huge_pages_free: u64,
    pub huge_pages_rsvd: u64,
    pub huge_pages_surp: u64,
    pub hugepagesize: u64,
    pub direct_map_4k: u64,
    pub direct_map_2m: u64,
}

/// The all-zero record: what an empty input decodes to.
pub open spec fn meminfo_zero() -> MemInfo {
    MemInfo {
        mem_total: 0,
        mem_free: 0,
        mem_available: 0,
        bufers: 0,
        cached: 0,
        swap_cached: 0,
        active_anon: 0,
        inactive_anon: 0,
        active_file: 0,
        inactive_file: 0,
        active: 0,
        inactive: 0,
        unevictable: 0,
        mlocked: 0,
        swap_total: 0,
        swap_free: 0,
        dirty: 0,
        writeback_tmp: 0,
        writeback: 0,
        anon_pages: 0,
        mapped: 0,
        shmem: 0,
        slab: 0,
        s_reclaimable: 0,
        s_unreclaim: 0,
        kernel_stack: 0,
        page_tables: 0,
        nfs_unstable: 0,
        bounce: 0,
        commit_limit: 0,
        committed_as: 0,
        vmalloc_total: 0,
        vmalloc_used: 0,
        vmalloc_chunk: 0,
        hardware_corrupted: 0,
        anon_huge_pages: 0,
        cma_total: 0,
        cma_free: 0,
        huge_pages_total: 0,
        huge_pages_free: 0,
        huge_pages_rsvd: 0,
        huge_pages_surp: 0,
        hugepagesize: 0,
        direct_map_4k: 0,
        direct_map_2m: 0,
    }
}

impl Default for MemInfo {
    /// The explicit all-zero record.
    fn default() -> (r: MemInfo)
        ensures
            r == meminfo_zero(),
    {
        MemInfo {
            mem_total: 0,
            mem_free: 0,
            mem_available: 0,
            bufers: 0,
            cached: 0,
            swap_cached: 0,
            active_anon: 0,
            inactive_anon: 0,
            active_file: 0,
            inactive_file: 0,
            active: 0,
            inactive: 0,
            unevictable: 0,
            mlocked: 0,
            swap_total: 0,
            swap_free: 0,
            dirty: 0,
            writeback_tmp: 0,
            writeback: 0,
            anon_pages: 0,
            mapped: 0,
            shmem: 0,
            slab: 0,
            s_reclaimable: 0,
            s_unreclaim: 0,
            kernel_stack: 0,
            page_tables: 0,
            nfs_unstable: 0,
            bounce: 0,
            commit_limit: 0,
            committed_as: 0,
            vmalloc_total: 0,
            vmalloc_used: 0,
            vmalloc_chunk: 0,
            hardware_corrupted: 0,
            anon_huge_pages: 0,
            cma_total: 0,
            cma_free: 0,
            huge_pages_total: 0,
            huge_pages_free: 0,
            huge_pages_rsvd: 0,
            huge_pages_surp: 0,
            hugepagesize: 0,
            direct_map_4k: 0,
            direct_map_2m: 0,
        }
    }
}

pub open spec fn lab_mem_total() -> Seq<u8> {
    seq!['M' as u8, 'e' as u8, 'm' as u8, 'T' as u8, 'o' as u8, 't' as u8, 'a' as u8, 'l' as u8]
}

pub open spec fn lab_mem_free() -> Seq<u8> {
    seq!['M' as u8, 'e' as u8, 'm' as u8, 'F' as u8, 'r' as u8, 'e' as u8, 'e' as u8]
}

pub open spec fn lab_mem_available() -> Seq<u8> {
    seq!['M' as u8, 'e' as u8, 'm' as u8, 'A' as u8, 'v' as u8, 'a' as u8, 'i' as u8, 'l' as u8, 'a' as u8, 'b' as u8, 'l' as u8, 'e' as u8]
}

pub open spec fn lab_bufers() -> Seq<u8> {
    seq!['B' as u8, 'u' as u8, 'f' as u8, 'f' as u8, 'e' as u8, 'r' as u8, 's' as u8]
}

pub open spec fn lab_cached() -> Seq<u8> {
    seq!['C' as u8, 'a' as u8, 'c' as u8, 'h' as u8, 'e' as u8, 'd' as u8]
}

pub open spec fn lab_swap_cached() -> Seq<u8> {
    seq!['S' as u8, 'w' as u8, 'a' as u8, 'p' as u8, 'C' as u8, 'a' as u8, 'c' as u8, 'h' as u8, 'e' as u8, 'd' as u8]
}

pub open spec fn lab_active_anon() -> Seq<u8> {
    seq!['A' as u8, 'c' as u8, 't' as u8, 'i' as u8, 'v' as u8, 'e' as u8, '(' as u8, 'a' as u8, 'n' as u8, 'o' as u8, 'n' as u8, ')' as u8]
}

pub open spec fn lab_inactive_anon() -> Seq<u8> {
    seq!['I' as u8, 'n' as u8, 'a' as u8, 'c' as u8, 't' as u8, 'i' as u8, 'v' as u8, 'e' as u8, '(' as u8, 'a' as u8, 'n' as u8, 'o' as u8, 'n' as u8, ')' as u8]
}

pub open spec fn lab_active_file() -> Seq<u8> {
    seq!['A' as u8, 'c' as u8, 't' as u8, 'i' as u8, 'v' as u8, 'e' as u8, '(' as u8, 'f' as u8, 'i' as u8, 'l' as u8, 'e' as u8, ')' as u8]
}

pub open spec fn lab_inactive_file() -> Seq<u8> {
    seq!['I' as u8, 'n' as u8, 'a' as u8, 'c' as u8, 't' as u8, 'i' as u8, 'v' as u8, 'e' as u8, '(' as u8, 'f' as u8, 'i' as u8, 'l' as u8, 'e' as u8, ')' as u8]
}

pub open spec fn lab_active() -> Seq<u8> {
    seq!['A' as u8, 'c' as u8, 't' as u8, 'i' as u8, 'v' as u8, 'e' as u8]
}

pub open spec fn lab_inactive() -> Seq<u8> {
    seq!['I' as u8, 'n' as u8, 'a' as u8, 'c' as u8, 't' as u8, 'i' as u8, 'v' as u8, 'e' as u8]
}

pub open spec fn lab_unevictable() -> Seq<u8> {
    seq!['U' as u8, 'n' as u8, 'e' as u8, 'v' as u8, 'i' as u8, 'c' as u8, 't' as u8, 'a' as u8, 'b' as u8, 'l' as u8, 'e' as u8]
}

pub open spec fn lab_mlocked() -> Seq<u8> {
    seq!['M' as u8, 'l' as u8, 'o' as u8, 'c' as u8, 'k' as u8, 'e' as u8, 'd' as u8]
}

pub open spec fn lab_swap_total() -> Seq<u8> {
    seq!['S' as u8, 'w' as u8, 'a' as u8, 'p' as u8, 'T' as u8, 'o' as u8, 't' as u8, 'a' as u8, 'l' as u8]
}

pub open spec fn lab_swap_free() -> Seq<u8> {
    seq!['S' as u8, 'w' as u8, 'a' as u8, 'p' as u8, 'F' as u8, 'r' as u8, 'e' as u8, 'e' as u8]
}

pub open spec fn lab_dirty() -> Seq<u8> {
    seq!['D' as u8, 'i' as u8, 'r' as u8, 't' as u8, 'y' as u8]
}

pub open spec fn lab_writeback_tmp() -> Seq<u8> {
    seq!['W' as u8, 'r' as u8, 'i' as u8, 't' as u8, 'e' as u8, 'b' as u8, 'a' as u8, 'c' as u8, 'k' as u8, 'T' as u8, 'm' as u8, 'p' as u8]
}

pub open spec fn lab_writeback() -> Seq<u8> {
    seq!['W' as u8, 'r' as u8, 'i' as u8, 't' as u8, 'e' as u8, 'b' as u8, 'a' as u8, 'c' as u8, 'k' as u8]
}

pub open spec fn lab_anon_pages() -> Seq<u8> {
    seq!['A' as u8, 'n' as u8, 'o' as u8, 'n' as u8, 'P' as u8, 'a' as u8, 'g' as u8, 'e' as u8, 's' as u8]
}

pub open spec fn lab_mapped() -> Seq<u8> {
    seq!['M' as u8, 'a' as u8, 'p' as u8, 'p' as u8, 'e' as u8, 'd' as u8]
}

pub open spec fn lab_shmem() -> Seq<u8> {
    seq!['S' as u8, 'h' as u8, 'm' as u8, 'e' as u8, 'm' as u8]
}

pub open spec fn lab_slab() -> Seq<u8> {
    seq!['S' as u8, 'l' as u8, 'a' as u8, 'b' as u8]
}

pub open spec fn lab_s_reclaimable() -> Seq<u8> {
    seq!['S' as u8, 'R' as u8, 'e' as u8, 'c' as u8, 'l' as u8, 'a' as u8, 'i' as u8, 'm' as u8, 'a' as u8, 'b' as u8, 'l' as u8, 'e' as u8]
}

pub open spec fn lab_s_unreclaim() -> Seq<u8> {
    seq!['S' as u8, 'U' as u8, 'n' as u8, 'r' as u8, 'e' as u8, 'c' as u8, 'l' as u8, 'a' as u8, 'i' as u8, 'm' as u8]
}

pub open spec fn lab_kernel_stack() -> Seq<u8> {
    seq!['K' as u8, 'e' as u8, 'r' as u8, 'n' as u8, 'e' as u8, 'l' as u8, 'S' as u8, 't' as u8, 'a' as u8, 'c' as u8, 'k' as u8]
}

pub open spec fn lab_page_tables() -> Seq<u8> {
    seq!['P' as u8, 'a' as u8, 'g' as u8, 'e' as u8, 'T' as u8, 'a' as u8, 'b' as u8, 'l' as u8, 'e' as u8, 's' as u8]
}

pub open spec fn lab_nfs_unstable() -> Seq<u8> {
    seq!['N' as u8, 'F' as u8, 'S' as u8, '_' as u8, 'U' as u8, 'n' as u8, 's' as u8, 't' as u8, 'a' as u8, 'b' as u8, 'l' as u8, 'e' as u8]
}

pub open spec fn lab_bounce() -> Seq<u8> {
    seq!['B' as u8, 'o' as u8, 'u' as u8, 'n' as u8, 'c' as u8, 'e' as u8]
}

pub open spec fn lab_commit_limit() -> Seq<u8> {
    seq!['C' as u8, 'o' as u8, 'm' as u8, 'm' as u8, 'i' as u8, 't' as u8, 'L' as u8, 'i' as u8, 'm' as u8, 'i' as u8, 't' as u8]
}

pub open spec fn lab_committed_as() -> Seq<u8> {
    seq!['C' as u8, 'o' as u8, 'm' as u8, 'm' as u8, 'i' as u8, 't' as u8, 't' as u8, 'e' as u8, 'd' as u8, '_' as u8, 'A' as u8, 'S' as u8]
}

pub open spec fn lab_vmalloc_total() -> Seq<u8> {
    seq!['V' as u8, 'm' as u8, 'a' as u8, 'l' as u8, 'l' as u8, 'o' as u8, 'c' as u8, 'T' as u8, 'o' as u8, 't' as u8, 'a' as u8, 'l' as u8]
}

pub open spec fn lab_vmalloc_used() -> Seq<u8> {
    seq!['V' as u8, 'm' as u8, 'a' as u8, 'l' as u8, 'l' as u8, 'o' as u8, 'c' as u8, 'U' as u8, 's' as u8, 'e' as u8, 'd' as u8]
}

pub open spec fn lab_vmalloc_chunk() -> Seq<u8> {
    seq!['V' as u8, 'm' as u8, 'a' as u8, 'l' as u8, 'l' as u8, 'o' as u8, 'c' as u8, 'C' as u8, 'h' as u8, 'u' as u8, 'n' as u8, 'k' as u8]
}

pub open spec fn lab_hardware_corrupted() -> Seq<u8> {
    seq!['H' as u8, 'a' as u8, 'r' as u8, 'd' as u8, 'w' as u8, 'a' as u8, 'r' as u8, 'e' as u8, 'C' as u8, 'o' as u8, 'r' as u8, 'r' as u8, 'u' as u8, 'p' as u8, 't' as u8, 'e' as u8, 'd' as u8]
}

pub open spec fn lab_anon_huge_pages() -> Seq<u8> {
    seq!['A' as u8, 'n' as u8, 'o' as u8, 'n' as u8, 'H' as u8, 'u' as u8, 'g' as u8, 'e' as u8, 'P' as u8, 'a' as u8, 'g' as u8, 'e' as u8, 's' as u8]
}

pub open spec fn lab_cma_total() -> Seq<u8> {
    seq!['C' as u8, 'm' as u8, 'a' as u8, 'T' as u8, 'o' as u8, 't' as u8, 'a' as u8, 'l' as u8]
}

pub open spec fn lab_cma_free() -> Seq<u8> {
    seq!['C' as u8, 'm' as u8, 'a' as u8, 'F' as u8, 'r' as u8, 'e' as u8, 'e' as u8]
}

pub open spec fn lab_huge_pages_total() -> Seq<u8> {
    seq!['H' as u8, 'u' as u8, 'g' as u8, 'e' as u8, 'P' as u8, 'a' as u8, 'g' as u8, 'e' as u8, 's' as u8, '_' as u8, 'T' as u8, 'o' as u8, 't' as u8, 'a' as u8, 'l' as u8]
}

pub open spec fn lab_huge_pages_free() -> Seq<u8> {
    seq!['H' as u8, 'u' as u8, 'g' as u8, 'e' as u8, 'P' as u8, 'a' as u8, 'g' as u8, 'e' as u8, 's' as u8, '_' as u8, 'F' as u8, 'r' as u8, 'e' as u8, 'e' as u8]
}

pub open spec fn lab_huge_pages_rsvd() -> Seq<u8> {
    seq!['H' as u8, 'u' as u8, 'g' as u8, 'e' as u8, 'P' as u8, 'a' as u8, 'g' as u8, 'e' as u8, 's' as u8, '_' as u8, 'R' as u8, 's' as u8, 'v' as u8, 'd' as u8]
}

pub open spec fn lab_huge_pages_surp() -> Seq<u8> {
    seq!['H' as u8, 'u' as u8, 'g' as u8, 'e' as u8, 'P' as u8, 'a' as u8, 'g' as u8, 'e' as u8, 's' as u8, '_' as u8, 'S' as u8, 'u' as u8, 'r' as u8, 'p' as u8]
}

pub open spec fn lab_hugepagesize() -> Seq<u8> {
    seq!['H' as u8, 'u' as u8, 'g' as u8, 'e' as u8, 'p' as u8, 'a' as u8, 'g' as u8, 'e' as u8, 's' as u8, 'i' as u8, 'z' as u8, 'e' as u8]
}

pub open spec fn lab_direct_map_4k() -> Seq<u8> {
    seq!['D' as u8, 'i' as u8, 'r' as u8, 'e' as u8, 'c' as u8, 't' as u8, 'M' as u8, 'a' as u8, 'p' as u8, '4' as u8, 'k' as u8]
}

pub open spec fn lab_direct_map_2m() -> Seq<u8> {
    seq!['D' as u8, 'i' as u8, 'r' as u8, 'e' as u8, 'c' as u8, 't' as u8, 'M' as u8, 'a' as u8, 'p' as u8, '2' as u8, 'M' as u8]
}

/// The ordered label table: one line assigns at most one field, the first
/// matching label wins, so a label never shadows a more specific one.
pub open spec fn mem_line_update(m: MemInfo, line: Seq<u8>) -> Result<MemInfo, DecodeError> {
    if has_prefix(line, lab_mem_total()) {
        match second_u64(line) {
            Err(e) => Err(e),
            Ok(v) => Ok(MemInfo { mem_total: v, ..m }),
        }
    } else if has_prefix(line, lab_mem_free()) {
        match second_u64(line) {
            Err(e) => Err(e),
            Ok(v) => Ok(MemInfo { mem_free: v, ..m }),
        }
    } else if has_prefix(line, lab_mem_available()) {
        match second_u64(line) {
            Err(e) => Err(e),
            Ok(v) => Ok(MemInfo { mem_available: v, ..m }),
        }
    } else if has_prefix(line, lab_bufers()) {
        match second_u64(line) {
            Err(e) => Err(e),
            Ok(v) => Ok(MemInfo { bufers: v, ..m }),
        }
    } else if has_prefix(line, lab_cached()) {
        match second_u64(line) {
            Err(e) => Err(e),
            Ok(v) => Ok(MemInfo { cached: v, ..m }),
        }
    } else if has_prefix(line, lab_swap_cached()) {
        match second_u64(line) {
            Err(e) => Err(e),
            Ok(v) => Ok(MemInfo { swap_cached: v, ..m }),
        }
    } else if has_prefix(line, lab_active_anon()) {
        match second_u64(line) {
            Err(e) => Err(e),
            Ok(v) => Ok(MemInfo { active_anon: v, ..m }),
        }
    } else if has_prefix(line, lab_inactive_anon()) {
        match second_u64(line) {
            Err(e) => Err(e),
            Ok(v) => Ok(MemInfo { inactive_anon: v, ..m }),
        }
    } else if has_prefix(line, lab_active_file()) {
        match second_u64(line) {
            Err(e) => Err(e),
            Ok(v) => Ok(MemInfo { active_file: v, ..m }),
        }
    } else if has_prefix(line, lab_inactive_file()) {
        match second_u64(line) {
            Err(e) => Err(e),
            Ok(v) => Ok(MemInfo { inactive_file: v, ..m }),
        }
    } else if has_prefix(line, lab_active()) {
        match second_u64(line) {
            Err(e) => Err(e),
            Ok(v) => Ok(MemInfo { active: v, ..m }),
        }
    } else if has_prefix(line, lab_inactive()) {
        match second_u64(line) {
            Err(e) => Err(e),
            Ok(v) => Ok(MemInfo { inactive: v, ..m }),
        }
    } else if has_prefix(line, lab_unevictable()) {
        match second_u64(line) {
            Err(e) => Err(e),
            Ok(v) => Ok(MemInfo { unevictable: v, ..m }),
        }
    } else if has_prefix(line, lab_mlocked()) {
        match second_u64(line) {
            Err(e) => Err(e),
            Ok(v) => Ok(MemInfo { mlocked: v, ..m }),
        }
    } else if has_prefix(line, lab_swap_total()) {
        match second_u64(line) {
            Err(e) => Err(e),
            Ok(v) => Ok(MemInfo { swap_total: v, ..m }),
        }
    } else if has_prefix(line, lab_swap_free()) {
        match second_u64(line) {
            Err(e) => Err(e),
            Ok(v) => Ok(MemInfo { swap_free: v, ..m }),
        }
    } else if has_prefix(line, lab_dirty()) {
        match second_u64(line) {
            Err(e) => Err(e),
            Ok(v) => Ok(MemInfo { dirty: v, ..m }),
        }
    } else if has_prefix(line, lab_writeback_tmp()) {
        match second_u64(line) {
            Err(e) => Err(e),
            Ok(v) => Ok(MemInfo { writeback_tmp: v, ..m }),
        }
    } else if has_prefix(line, lab_writeback()) {
        match second_u64(line) {
            Err(e) => Err(e),
            Ok(v) => Ok(MemInfo { writeback: v, ..m }),
        }
    } else if has_prefix(line, lab_anon_pages()) {
        match second_u64(line) {
            Err(e) => Err(e),
            Ok(v) => Ok(MemInfo { anon_pages: v, ..m }),
        }
    } else if has_prefix(line, lab_mapped()) {
        match second_u64(line) {
            Err(e) => Err(e),
            Ok(v) => Ok(MemInfo { mapped: v, ..m }),
        }
    } else if has_prefix(line, lab_shmem()) {
        match second_u64(line) {
            Err(e) => Err(e),
            Ok(v) => Ok(MemInfo { shmem: v, ..m }),
        }
    } else if has_prefix(line, lab_slab()) {
        match second_u64(line) {
            Err(e) => Err(e),
            Ok(v) => Ok(MemInfo { slab: v, ..m }),
        }
    } else if has_prefix(line, lab_s_reclaimable()) {
        match second_u64(line) {
            Err(e) => Err(e),
            Ok(v) => Ok(MemInfo { s_reclaimable: v, ..m }),
        }
    } else if has_prefix(line, lab_s_unreclaim()) {
        match second_u64(line) {
            Err(e) => Err(e),
            Ok(v) => Ok(MemInfo { s_unreclaim: v, ..m }),
        }
    } else if has_prefix(line, lab_kernel_stack()) {
        match second_u64(line) {
            Err(e) => Err(e),
            Ok(v) => Ok(MemInfo { kernel_stack: v, ..m }),
        }
    } else if has_prefix(line, lab_page_tables()) {
        match second_u64(line) {
            Err(e) => Err(e),
            Ok(v) => Ok(MemInfo { page_tables: v, ..m }),
        }
    } else if has_prefix(line, lab_nfs_unstable()) {
        match second_u64(line) {
            Err(e) => Err(e),
            Ok(v) => Ok(MemInfo { nfs_unstable: v, ..m }),
        }
    } else if has_prefix(line, lab_bounce()) {
        match second_u64(line) {
            Err(e) => Err(e),
            Ok(v) => Ok(MemInfo { bounce: v, ..m }),
        }
    } else if has_prefix(line, lab_commit_limit()) {
        match second_u64(line) {
            Err(e) => Err(e),
            Ok(v) => Ok(MemInfo { commit_limit: v, ..m }),
        }
    } else if has_prefix(line, lab_committed_as()) {
        match second_u64(line) {
            Err(e) => Err(e),
            Ok(v) => Ok(MemInfo { committed_as: v, ..m }),
        }
    } else if has_prefix(line, lab_vmalloc_total()) {
        match second_u64(line) {
            Err(e) => Err(e),
            Ok(v) => Ok(MemInfo { vmalloc_total: v, ..m }),
        }
    } else if has_prefix(line, lab_vmalloc_used()) {
        match second_u64(line) {
            Err(e) => Err(e),
            Ok(v) => Ok(MemInfo { vmalloc_used: v, ..m }),
        }
    } else if has_prefix(line, lab_vmalloc_chunk()) {
        match second_u64(line) {
            Err(e) => Err(e),
            Ok(v) => Ok(MemInfo { vmalloc_chunk: v, ..m }),
        }
    } else if has_prefix(line, lab_hardware_corrupted()) {
        match second_u64(line) {
            Err(e) => Err(e),
            Ok(v) => Ok(MemInfo { hardware_corrupted: v, ..m }),
        }
    } else if has_prefix(line, lab_anon_huge_pages()) {
        match second_u64(line) {
            Err(e) => Err(e),
            Ok(v) => Ok(MemInfo { anon_huge_pages: v, ..m }),
        }
    } else if has_prefix(line, lab_cma_total()) {
        match second_u64(line) {
            Err(e) => Err(e),
            Ok(v) => Ok(MemInfo { cma_total: v, ..m }),
        }
    } else if has_prefix(line, lab_cma_free()) {
        match second_u64(line) {
            Err(e) => Err(e),
            Ok(v) => Ok(MemInfo { cma_free: v, ..m }),
        }
    } else if has_prefix(line, lab_huge_pages_total()) {
        match second_u64(line) {
            Err(e) => Err(e),
            Ok(v) => Ok(MemInfo { huge_pages_total: v, ..m }),
        }
    } else if has_prefix(line, lab_huge_pages_free()) {
        match second_u64(line) {
            Err(e) => Err(e),
            Ok(v) => Ok(MemInfo { huge_pages_free: v, ..m }),
        }
    } else if has_prefix(line, lab_huge_pages_rsvd()) {
        match second_u64(line) {
            Err(e) => Err(e),
            Ok(v) => Ok(MemInfo { huge_pages_rsvd: v, ..m }),
        }
    } else if has_prefix(line, lab_huge_pages_surp()) {
        match second_u64(line) {
            Err(e) => Err(e),
            Ok(v) => Ok(MemInfo { huge_pages_surp: v, ..m }),
        }
    } else if has_prefix(line, lab_hugepagesize()) {
        match second_u64(line) {
            Err(e) => Err(e),
            Ok(v) => Ok(MemInfo { hugepagesize: v, ..m }),
        }
    } else if has_prefix(line, lab_direct_map_4k()) {
        match second_u64(line) {
            Err(e) => Err(e),
            Ok(v) => Ok(MemInfo { direct_map_4k: v, ..m }),
        }
    } else if has_prefix(line, lab_direct_map_2m()) {
        match second_u64(line) {
            Err(e) => Err(e),
            Ok(v) => Ok(MemInfo { direct_map_2m: v, ..m }),
        }
    } else {
        Ok(m)
    }
}

pub open spec fn mem_go(ls: Seq<Seq<u8>>, m: MemInfo) -> Result<MemInfo, DecodeError>
    decreases ls.len(),
{
    if ls.len() == 0 {
        Ok(m)
    } else {
        match mem_line_update(m, ls[0]) {
            Err(e) => Err(e),
            Ok(m2) => mem_go(ls.drop_first(), m2),
        }
    }
}

/// What decoding a memory-report text yields.
pub open spec fn spec_meminfo(text: Seq<u8>) -> Result<MemInfo, DecodeError> {
    mem_go(lines_of(text), meminfo_zero())
}

/// Decoding an empty input yields the all-zero record, never a failure.
pub proof fn lemma_meminfo_empty(text: Seq<u8>)
    requires
        text.len() == 0,
    ensures
        spec_meminfo(text) == Ok::<MemInfo, DecodeError>(meminfo_zero()),
{
    assert(text =~= Seq::<u8>::empty());
    assert(lines_of(text).len() == 0);
}

fn mem_apply_line(m: MemInfo, line: &[u8]) -> (r: Result<MemInfo, DecodeError>)
    ensures
        r == mem_line_update(m, line@),
{
    let mut s = m;
    let lab_mem_total_a: [u8; 8] = ['M' as u8, 'e' as u8, 'm' as u8, 'T' as u8, 'o' as u8, 't' as u8, 'a' as u8, 'l' as u8];
    let lab_mem_free_a: [u8; 7] = ['M' as u8, 'e' as u8, 'm' as u8, 'F' as u8, 'r' as u8, 'e' as u8, 'e' as u8];
    let lab_mem_available_a: [u8; 12] = ['M' as u8, 'e' as u8, 'm' as u8, 'A' as u8, 'v' as u8, 'a' as u8, 'i' as u8, 'l' as u8, 'a' as u8, 'b' as u8, 'l' as u8, 'e' as u8];
    let lab_bufers_a: [u8; 7] = ['B' as u8, 'u' as u8, 'f' as u8, 'f' as u8, 'e' as u8, 'r' as u8, 's' as u8];
    let lab_cached_a: [u8; 6] = ['C' as u8, 'a' as u8, 'c' as u8, 'h' as u8, 'e' as u8, 'd' as u8];
    let lab_swap_cached_a: [u8; 10] = ['S' as u8, 'w' as u8, 'a' as u8, 'p' as u8, 'C' as u8, 'a' as u8, 'c' as u8, 'h' as u8, 'e' as u8, 'd' as u8];
    let lab_active_anon_a: [u8; 12] = ['A' as u8, 'c' as u8, 't' as u8, 'i' as u8, 'v' as u8, 'e' as u8, '(' as u8, 'a' as u8, 'n' as u8, 'o' as u8, 'n' as u8, ')' as u8];
    let lab_inactive_anon_a: [u8; 14] = ['I' as u8, 'n' as u8, 'a' as u8, 'c' as u8, 't' as u8, 'i' as u8, 'v' as u8, 'e' as u8, '(' as u8, 'a' as u8, 'n' as u8, 'o' as u8, 'n' as u8, ')' as u8];
    let lab_active_file_a: [u8; 12] = ['A' as u8, 'c' as u8, 't' as u8, 'i' as u8, 'v' as u8, 'e' as u8, '(' as u8, 'f' as u8, 'i' as u8, 'l' as u8, 'e' as u8, ')' as u8];
    let lab_inactive_file_a: [u8; 14] = ['I' as u8, 'n' as u8, 'a' as u8, 'c' as u8, 't' as u8, 'i' as u8, 'v' as u8, 'e' as u8, '(' as u8, 'f' as u8, 'i' as u8, 'l' as u8, 'e' as u8, ')' as u8];
    let lab_active_a: [u8; 6] = ['A' as u8, 'c' as u8, 't' as u8, 'i' as u8, 'v' as u8, 'e' as u8];
    let lab_inactive_a: [u8; 8] = ['I' as u8, 'n' as u8, 'a' as u8, 'c' as u8, 't' as u8, 'i' as u8, 'v' as u8, 'e' as u8];
    let lab_unevictable_a: [u8; 11] = ['U' as u8, 'n' as u8, 'e' as u8, 'v' as u8, 'i' as u8, 'c' as u8, 't' as u8, 'a' as u8, 'b' as u8, 'l' as u8, 'e' as u8];
    let lab_mlocked_a: [u8; 7] = ['M' as u8, 'l' as u8, 'o' as u8, 'c' as u8, 'k' as u8, 'e' as u8, 'd' as u8];
    let lab_swap_total_a: [u8; 9] = ['S' as u8, 'w' as u8, 'a' as u8, 'p' as u8, 'T' as u8, 'o' as u8, 't' as u8, 'a' as u8, 'l' as u8];
    let lab_swap_free_a: [u8; 8] = ['S' as u8, 'w' as u8, 'a' as u8, 'p' as u8, 'F' as u8, 'r' as u8, 'e' as u8, 'e' as u8];
    let lab_dirty_a: [u8; 5] = ['D' as u8, 'i' as u8, 'r' as u8, 't' as u8, 'y' as u8];
    let lab_writeback_tmp_a: [u8; 12] = ['W' as u8, 'r' as u8, 'i' as u8, 't' as u8, 'e' as u8, 'b' as u8, 'a' as u8, 'c' as u8, 'k' as u8, 'T' as u8, 'm' as u8, 'p' as u8];
    let lab_writeback_a: [u8; 9] = ['W' as u8, 'r' as u8, 'i' as u8, 't' as u8, 'e' as u8, 'b' as u8, 'a' as u8, 'c' as u8, 'k' as u8];
    let lab_anon_pages_a: [u8; 9] = ['A' as u8, 'n' as u8, 'o' as u8, 'n' as u8, 'P' as u8, 'a' as u8, 'g' as u8, 'e' as u8, 's' as u8];
    let lab_mapped_a: [u8; 6] = ['M' as u8, 'a' as u8, 'p' as u8, 'p' as u8, 'e' as u8, 'd' as u8];
    let lab_shmem_a: [u8; 5] = ['S' as u8, 'h' as u8, 'm' as u8, 'e' as u8, 'm' as u8];
    let lab_slab_a: [u8; 4] = ['S' as u8, 'l' as u8, 'a' as u8, 'b' as u8];
    let lab_s_reclaimable_a: [u8; 12] = ['S' as u8, 'R' as u8, 'e' as u8, 'c' as u8, 'l' as u8, 'a' as u8, 'i' as u8, 'm' as u8, 'a' as u8, 'b' as u8, 'l' as u8, 'e' as u8];
    let lab_s_unreclaim_a: [u8; 10] = ['S' as u8, 'U' as u8, 'n' as u8, 'r' as u8, 'e' as u8, 'c' as u8, 'l' as u8, 'a' as u8, 'i' as u8, 'm' as u8];
    let lab_kernel_stack_a: [u8; 11] = ['K' as u8, 'e' as u8, 'r' as u8, 'n' as u8, 'e' as u8, 'l' as u8, 'S' as u8, 't' as u8, 'a' as u8, 'c' as u8, 'k' as u8];
    let lab_page_tables_a: [u8; 10] = ['P' as u8, 'a' as u8, 'g' as u8, 'e' as u8, 'T' as u8, 'a' as u8, 'b' as u8, 'l' as u8, 'e' as u8, 's' as u8];
    let lab_nfs_unstable_a: [u8; 12] = ['N' as u8, 'F' as u8, 'S' as u8, '_' as u8, 'U' as u8, 'n' as u8, 's' as u8, 't' as u8, 'a' as u8, 'b' as u8, 'l' as u8, 'e' as u8];
    let lab_bounce_a: [u8; 6] = ['B' as u8, 'o' as u8, 'u' as u8, 'n' as u8, 'c' as u8, 'e' as u8];
    let lab_commit_limit_a: [u8; 11] = ['C' as u8, 'o' as u8, 'm' as u8, 'm' as u8, 'i' as u8, 't' as u8, 'L' as u8, 'i' as u8, 'm' as u8, 'i' as u8, 't' as u8];
    let lab_committed_as_a: [u8; 12] = ['C' as u8, 'o' as u8, 'm' as u8, 'm' as u8, 'i' as u8, 't' as u8, 't' as u8, 'e' as u8, 'd' as u8, '_' as u8, 'A' as u8, 'S' as u8];
    let lab_vmalloc_total_a: [u8; 12] = ['V' as u8, 'm' as u8, 'a' as u8, 'l' as u8, 'l' as u8, 'o' as u8, 'c' as u8, 'T' as u8, 'o' as u8, 't' as u8, 'a' as u8, 'l' as u8];
    let lab_vmalloc_used_a: [u8; 11] = ['V' as u8, 'm' as u8, 'a' as u8, 'l' as u8, 'l' as u8, 'o' as u8, 'c' as u8, 'U' as u8, 's' as u8, 'e' as u8, 'd' as u8];
    let lab_vmalloc_chunk_a: [u8; 12] = ['V' as u8, 'm' as u8, 'a' as u8, 'l' as u8, 'l' as u8, 'o' as u8, 'c' as u8, 'C' as u8, 'h' as u8, 'u' as u8, 'n' as u8, 'k' as u8];
    let lab_hardware_corrupted_a: [u8; 17] = ['H' as u8, 'a' as u8, 'r' as u8, 'd' as u8, 'w' as u8, 'a' as u8, 'r' as u8, 'e' as u8, 'C' as u8, 'o' as u8, 'r' as u8, 'r' as u8, 'u' as u8, 'p' as u8, 't' as u8, 'e' as u8, 'd' as u8];
    let lab_anon_huge_pages_a: [u8; 13] = ['A' as u8, 'n' as u8, 'o' as u8, 'n' as u8, 'H' as u8, 'u' as u8, 'g' as u8, 'e' as u8, 'P' as u8, 'a' as u8, 'g' as u8, 'e' as u8, 's' as u8];
    let lab_cma_total_a: [u8; 8] = ['C' as u8, 'm' as u8, 'a' as u8, 'T' as u8, 'o' as u8, 't' as u8, 'a' as u8, 'l' as u8];
    let lab_cma_free_a: [u8; 7] = ['C' as u8, 'm' as u8, 'a' as u8, 'F' as u8, 'r' as u8, 'e' as u8, 'e' as u8];
    let lab_huge_pages_total_a: [u8; 15] = ['H' as u8, 'u' as u8, 'g' as u8, 'e' as u8, 'P' as u8, 'a' as u8, 'g' as u8, 'e' as u8, 's' as u8, '_' as u8, 'T' as u8, 'o' as u8, 't' as u8, 'a' as u8, 'l' as u8];
    let lab_huge_pages_free_a: [u8; 14] = ['H' as u8, 'u' as u8, 'g' as u8, 'e' as u8, 'P' as u8, 'a' as u8, 'g' as u8, 'e' as u8, 's' as u8, '_' as u8, 'F' as u8, 'r' as u8, 'e' as u8, 'e' as u8];
    let lab_huge_pages_rsvd_a: [u8; 14] = ['H' as u8, 'u' as u8, 'g' as u8, 'e' as u8, 'P' as u8, 'a' as u8, 'g' as u8, 'e' as u8, 's' as u8, '_' as u8, 'R' as u8, 's' as u8, 'v' as u8, 'd' as u8];
    let lab_huge_pages_surp_a: [u8; 14] = ['H' as u8, 'u' as u8, 'g' as u8, 'e' as u8, 'P' as u8, 'a' as u8, 'g' as u8, 'e' as u8, 's' as u8, '_' as u8, 'S' as u8, 'u' as u8, 'r' as u8, 'p' as u8];
    let lab_hugepagesize_a: [u8; 12] = ['H' as u8, 'u' as u8, 'g' as u8, 'e' as u8, 'p' as u8, 'a' as u8, 'g' as u8, 'e' as u8, 's' as u8, 'i' as u8, 'z' as u8, 'e' as u8];
    let lab_direct_map_4k_a: [u8; 11] = ['D' as u8, 'i' as u8, 'r' as u8, 'e' as u8, 'c' as u8, 't' as u8, 'M' as u8, 'a' as u8, 'p' as u8, '4' as u8, 'k' as u8];
    let lab_direct_map_2m_a: [u8; 11] = ['D' as u8, 'i' as u8, 'r' as u8, 'e' as u8, 'c' as u8, 't' as u8, 'M' as u8, 'a' as u8, 'p' as u8, '2' as u8, 'M' as u8];
    proof {
        assert(lab_mem_total_a@ =~= lab_mem_total());
        assert(lab_mem_free_a@ =~= lab_mem_free());
        assert(lab_mem_available_a@ =~= lab_mem_available());
        assert(lab_bufers_a@ =~= lab_bufers());
        assert(lab_cached_a@ =~= lab_cached());
        assert(lab_swap_cached_a@ =~= lab_swap_cached());
        assert(lab_active_anon_a@ =~= lab_active_anon());
        assert(lab_inactive_anon_a@ =~= lab_inactive_anon());
        assert(lab_active_file_a@ =~= lab_active_file());
        assert(lab_inactive_file_a@ =~= lab_inactive_file());
        assert(lab_active_a@ =~= lab_active());
        assert(lab_inactive_a@ =~= lab_inactive());
        assert(lab_unevictable_a@ =~= lab_unevictable());
        assert(lab_mlocked_a@ =~= lab_mlocked());
        assert(lab_swap_total_a@ =~= lab_swap_total());
        assert(lab_swap_free_a@ =~= lab_swap_free());
        assert(lab_dirty_a@ =~= lab_dirty());
        assert(lab_writeback_tmp_a@ =~= lab_writeback_tmp());
        assert(lab_writeback_a@ =~= lab_writeback());
        assert(lab_anon_pages_a@ =~= lab_anon_pages());
        assert(lab_mapped_a@ =~= lab_mapped());
        assert(lab_shmem_a@ =~= lab_shmem());
        assert(lab_slab_a@ =~= lab_slab());
        assert(lab_s_reclaimable_a@ =~= lab_s_reclaimable());
        assert(lab_s_unreclaim_a@ =~= lab_s_unreclaim());
        assert(lab_kernel_stack_a@ =~= lab_kernel_stack());
        assert(lab_page_tables_a@ =~= lab_page_tables());
        assert(lab_nfs_unstable_a@ =~= lab_nfs_unstable());
        assert(lab_bounce_a@ =~= lab_bounce());
        assert(lab_commit_limit_a@ =~= lab_commit_limit());
        assert(lab_committed_as_a@ =~= lab_committed_as());
        assert(lab_vmalloc_total_a@ =~= lab_vmalloc_total());
        assert(lab_vmalloc_used_a@ =~= lab_vmalloc_used());
        assert(lab_vmalloc_chunk_a@ =~= lab_vmalloc_chunk());
        assert(lab_hardware_corrupted_a@ =~= lab_hardware_corrupted());
        assert(lab_anon_huge_pages_a@ =~= lab_anon_huge_pages());
        assert(lab_cma_total_a@ =~= lab_cma_total());
        assert(lab_cma_free_a@ =~= lab_cma_free());
        assert(lab_huge_pages_total_a@ =~= lab_huge_pages_total());
        assert(lab_huge_pages_free_a@ =~= lab_huge_pages_free());
        assert(lab_huge_pages_rsvd_a@ =~= lab_huge_pages_rsvd());
        assert(lab_huge_pages_surp_a@ =~= lab_huge_pages_surp());
        assert(lab_hugepagesize_a@ =~= lab_hugepagesize());
        assert(lab_direct_map_4k_a@ =~= lab_direct_map_4k());
        assert(lab_direct_map_2m_a@ =~= lab_direct_map_2m());
    }
    if starts_with(line, lab_mem_total_a.as_slice()) {
        match to_u64(line) {
            Ok(v) => {
                s.mem_total = v;
                Ok(s)
            },
            Err(e) => Err(e),
        }
    } else if starts_with(line, lab_mem_free_a.as_slice()) {
        match to_u64(line) {
            Ok(v) => {
                s.mem_free = v;
                Ok(s)
            },
            Err(e) => Err(e),
        }
    } else if starts_with(line, lab_mem_available_a.as_slice()) {
        match to_u64(line) {
            Ok(v) => {
                s.mem_available = v;
                Ok(s)
            },
            Err(e) => Err(e),
        }
    } else if starts_with(line, lab_bufers_a.as_slice()) {
        match to_u64(line) {
            Ok(v) => {
                s.bufers = v;
                Ok(s)
            },
            Err(e) => Err(e),
        }
    } else if starts_with(line, lab_cached_a.as_slice()) {
        match to_u64(line) {
            Ok(v) => {
                s.cached = v;
                Ok(s)
            },
            Err(e) => Err(e),
        }
    } else if starts_with(line, lab_swap_cached_a.as_slice()) {
        match to_u64(line) {
            Ok(v) => {
                s.swap_cached = v;
                Ok(s)
            },
            Err(e) => Err(e),
        }
    } else if starts_with(line, lab_active_anon_a.as_slice()) {
        match to_u64(line) {
            Ok(v) => {
                s.active_anon = v;
                Ok(s)
            },
            Err(e) => Err(e),
        }
    } else if starts_with(line, lab_inactive_anon_a.as_slice()) {
        match to_u64(line) {
            Ok(v) => {
                s.inactive_anon = v;
                Ok(s)
            },
            Err(e) => Err(e),
        }
    } else if starts_with(line, lab_active_file_a.as_slice()) {
        match to_u64(line) {
            Ok(v) => {
                s.active_file = v;
                Ok(s)
            },
            Err(e) => Err(e),
        }
    } else if starts_with(line, lab_inactive_file_a.as_slice()) {
        match to_u64(line) {
            Ok(v) => {
                s.inactive_file = v;
                Ok(s)
            },
            Err(e) => Err(e),
        }
    } else if starts_with(line, lab_active_a.as_slice()) {
        match to_u64(line) {
            Ok(v) => {
                s.active = v;
                Ok(s)
            },
            Err(e) => Err(e),
        }
    } else if starts_with(line, lab_inactive_a.as_slice()) {
        match to_u64(line) {
            Ok(v) => {
                s.inactive = v;
                Ok(s)
            },
            Err(e) => Err(e),
        }
    } else if starts_with(line, lab_unevictable_a.as_slice()) {
        match to_u64(line) {
            Ok(v) => {
                s.unevictable = v;
                Ok(s)
            },
            Err(e) => Err(e),
        }
    } else if starts_with(line, lab_mlocked_a.as_slice()) {
        match to_u64(line) {
            Ok(v) => {
                s.mlocked = v;
                Ok(s)
            },
            Err(e) => Err(e),
        }
    } else if starts_with(line, lab_swap_total_a.as_slice()) {
        match to_u64(line) {
            Ok(v) => {
                s.swap_total = v;
                Ok(s)
            },
            Err(e) => Err(e),
        }
    } else if starts_with(line, lab_swap_free_a.as_slice()) {
        match to_u64(line) {
            Ok(v) => {
                s.swap_free = v;
                Ok(s)
            },
            Err(e) => Err(e),
        }
    } else if starts_with(line, lab_dirty_a.as_slice()) {
        match to_u64(line) {
            Ok(v) => {
                s.dirty = v;
                Ok(s)
            },
            Err(e) => Err(e),
        }
    } else if starts_with(line, lab_writeback_tmp_a.as_slice()) {
        match to_u64(line) {
            Ok(v) => {
                s.writeback_tmp = v;
                Ok(s)
            },
            Err(e) => Err(e),
        }
    } else if starts_with(line, lab_writeback_a.as_slice()) {
        match to_u64(line) {
            Ok(v) => {
                s.writeback = v;
                Ok(s)
            },
            Err(e) => Err(e),
        }
    } else if starts_with(line, lab_anon_pages_a.as_slice()) {
        match to_u64(line) {
            Ok(v) => {
                s.anon_pages = v;
                Ok(s)
            },
            Err(e) => Err(e),
        }
    } else if starts_with(line, lab_mapped_a.as_slice()) {
        match to_u64(line) {
            Ok(v) => {
                s.mapped = v;
                Ok(s)
            },
            Err(e) => Err(e),
        }
    } else if starts_with(line, lab_shmem_a.as_slice()) {
        match to_u64(line) {
            Ok(v) => {
                s.shmem = v;
                Ok(s)
            },
            Err(e) => Err(e),
        }
    } else if starts_with(line, lab_slab_a.as_slice()) {
        match to_u64(line) {
            Ok(v) => {
                s.slab = v;
                Ok(s)
            },
            Err(e) => Err(e),
        }
    } else if starts_with(line, lab_s_reclaimable_a.as_slice()) {
        match to_u64(line) {
            Ok(v) => {
                s.s_reclaimable = v;
                Ok(s)
            },
            Err(e) => Err(e),
        }
    } else if starts_with(line, lab_s_unreclaim_a.as_slice()) {
        match to_u64(line) {
            Ok(v) => {
                s.s_unreclaim = v;
                Ok(s)
            },
            Err(e) => Err(e),
        }
    } else if starts_with(line, lab_kernel_stack_a.as_slice()) {
        match to_u64(line) {
            Ok(v) => {
                s.kernel_stack = v;
                Ok(s)
            },
            Err(e) => Err(e),
        }
    } else if starts_with(line, lab_page_tables_a.as_slice()) {
        match to_u64(line) {
            Ok(v) => {
                s.page_tables = v;
                Ok(s)
            },
            Err(e) => Err(e),
        }
    } else if starts_with(line, lab_nfs_unstable_a.as_slice()) {
        match to_u64(line) {
            Ok(v) => {
                s.nfs_unstable = v;
                Ok(s)
            },
            Err(e) => Err(e),
        }
    } else if starts_with(line, lab_bounce_a.as_slice()) {
        match to_u64(line) {
            Ok(v) => {
                s.bounce = v;
                Ok(s)
            },
            Err(e) => Err(e),
        }
    } else if starts_with(line, lab_commit_limit_a.as_slice()) {
        match to_u64(line) {
            Ok(v) => {
                s.commit_limit = v;
                Ok(s)
            },
            Err(e) => Err(e),
        }
    } else if starts_with(line, lab_committed_as_a.as_slice()) {
        match to_u64(line) {
            Ok(v) => {
                s.committed_as = v;
                Ok(s)
            },
            Err(e) => Err(e),
        }
    } else if starts_with(line, lab_vmalloc_total_a.as_slice()) {
        match to_u64(line) {
            Ok(v) => {
                s.vmalloc_total = v;
                Ok(s)
            },
            Err(e) => Err(e),
        }
    } else if starts_with(line, lab_vmalloc_used_a.as_slice()) {
        match to_u64(line) {
            Ok(v) => {
                s.vmalloc_used = v;
                Ok(s)
            },
            Err(e) => Err(e),
        }
    } else if starts_with(line, lab_vmalloc_chunk_a.as_slice()) {
        match to_u64(line) {
            Ok(v) => {
                s.vmalloc_chunk = v;
                Ok(s)
            },
            Err(e) => Err(e),
        }
    } else if starts_with(line, lab_hardware_corrupted_a.as_slice()) {
        match to_u64(line) {
            Ok(v) => {
                s.hardware_corrupted = v;
                Ok(s)
            },
            Err(e) => Err(e),
        }
    } else if starts_with(line, lab_anon_huge_pages_a.as_slice()) {
        match to_u64(line) {
            Ok(v) => {
                s.anon_huge_pages = v;
                Ok(s)
            },
            Err(e) => Err(e),
        }
    } else if starts_with(line, lab_cma_total_a.as_slice()) {
        match to_u64(line) {
            Ok(v) => {
                s.cma_total = v;
                Ok(s)
            },
            Err(e) => Err(e),
        }
    } else if starts_with(line, lab_cma_free_a.as_slice()) {
        match to_u64(line) {
            Ok(v) => {
                s.cma_free = v;
                Ok(s)
            },
            Err(e) => Err(e),
        }
    } else if starts_with(line, lab_huge_pages_total_a.as_slice()) {
        match to_u64(line) {
            Ok(v) => {
                s.huge_pages_total = v;
                Ok(s)
            },
            Err(e) => Err(e),
        }
    } else if starts_with(line, lab_huge_pages_free_a.as_slice()) {
        match to_u64(line) {
            Ok(v) => {
                s.huge_pages_free = v;
                Ok(s)
            },
            Err(e) => Err(e),
        }
    } else if starts_with(line, lab_huge_pages_rsvd_a.as_slice()) {
        match to_u64(line) {
            Ok(v) => {
                s.huge_pages_rsvd = v;
                Ok(s)
            },
            Err(e) => Err(e),
        }
    } else if starts_with(line, lab_huge_pages_surp_a.as_slice()) {
        match to_u64(line) {
            Ok(v) => {
                s.huge_pages_surp = v;
                Ok(s)
            },
            Err(e) => Err(e),
        }
    } else if starts_with(line, lab_hugepagesize_a.as_slice()) {
        match to_u64(line) {
            Ok(v) => {
                s.hugepagesize = v;
                Ok(s)
            },
            Err(e) => Err(e),
        }
    } else if starts_with(line, lab_direct_map_4k_a.as_slice()) {
        match to_u64(line) {
            Ok(v) => {
                s.direct_map_4k = v;
                Ok(s)
            },
            Err(e) => Err(e),
        }
    } else if starts_with(line, lab_direct_map_2m_a.as_slice()) {
        match to_u64(line) {
            Ok(v) => {
                s.direct_map_2m = v;
                Ok(s)
            },
            Err(e) => Err(e),
        }
    } else {
        Ok(s)
    }
}

/// Decode a memory report from its text, given as bytes.
pub fn meminfo_bytes(text: &[u8]) -> (r: Result<MemInfo, DecodeError>)
    ensures
        r == spec_meminfo(text@),
{
    let lines = split_lines(text);
    let ghost ls = lines_of(text@);
    let mut m = MemInfo::default();
    let mut i: usize = 0;
    proof {
        assert(ls.skip(0) =~= ls);
    }
    while i < lines.len()
        invariant
            0 <= i <= lines@.len(),
            views_of(lines@) == lines_of(text@),
            lines_of(text@).len() == lines@.len(),
            ls == lines_of(text@),
            mem_go(ls, meminfo_zero()) == mem_go(ls.skip(i as int), m),
        decreases lines@.len() - i,
    {
        proof {
            assert(ls.skip(i as int)[0] == ls[i as int]);
            assert(ls[i as int] == views_of(lines@)[i as int]);
            assert(views_of(lines@)[i as int] == lines@[i as int]@);
            assert(ls.skip(i as int).drop_first() =~= ls.skip(i as int + 1));
        }
        match mem_apply_line(m, lines[i].as_slice()) {
            Ok(m2) => {
                m = m2;
            },
            Err(e) => {
                return Err(e);
            },
        }
        i = i + 1;
    }
    proof {
        assert(ls.skip(i as int) =~= Seq::<Seq<u8>>::empty());
    }
    Ok(m)
}

/// Decode a memory report from its text.
pub fn meminfo(text: &str) -> (r: Result<MemInfo, DecodeError>)
    ensures
        r == spec_meminfo(text.spec_bytes()),
{
    meminfo_bytes(text.as_bytes())
}


// ---------------------------------------------------------------------------
// Canonical text, and the round trip back through the decoder.
// ---------------------------------------------------------------------------

/// The canonical line of one field: the label with its colon, one blank,
/// and the value in decimal.
pub open spec fn mem_line(lab: Seq<u8>, v: u64) -> Seq<u8> {
    stat_scalar_line(lab.push(COLON), v)
}

pub open spec fn canon_mem_lines(m: MemInfo) -> Seq<Seq<u8>> {
    seq![
        mem_line(lab_mem_total(), m.mem_total),
        mem_line(lab_mem_free(), m.mem_free),
        mem_line(lab_mem_available(), m.mem_available),
        mem_line(lab_bufers(), m.bufers),
        mem_line(lab_cached(), m.cached),
        mem_line(lab_swap_cached(), m.swap_cached),
        mem_line(lab_active_anon(), m.active_anon),
        mem_line(lab_inactive_anon(), m.inactive_anon),
        mem_line(lab_active_file(), m.active_file),
        mem_line(lab_inactive_file(), m.inactive_file),
        mem_line(lab_active(), m.active),
        mem_line(lab_inactive(), m.inactive),
        mem_line(lab_unevictable(), m.unevictable),
        mem_line(lab_mlocked(), m.mlocked),
        mem_line(lab_swap_total(), m.swap_total),
        mem_line(lab_swap_free(), m.swap_free),
        mem_line(lab_dirty(), m.dirty),
        mem_line(lab_writeback_tmp(), m.writeback_tmp),
        mem_line(lab_writeback(), m.writeback),
        mem_line(lab_anon_pages(), m.anon_pages),
        mem_line(lab_mapped(), m.mapped),
        mem_line(lab_shmem(), m.shmem),
        mem_line(lab_slab(), m.slab),
        mem_line(lab_s_reclaimable(), m.s_reclaimable),
        mem_line(lab_s_unreclaim(), m.s_unreclaim),
        mem_line(lab_kernel_stack(), m.kernel_stack),
        mem_line(lab_page_tables(), m.page_tables),
        mem_line(lab_nfs_unstable(), m.nfs_unstable),
        mem_line(lab_bounce(), m.bounce),
        mem_line(lab_commit_limit(), m.commit_limit),
        mem_line(lab_committed_as(), m.committed_as),
        mem_line(lab_vmalloc_total(), m.vmalloc_total),
        mem_line(lab_vmalloc_used(), m.vmalloc_used),
        mem_line(lab_vmalloc_chunk(), m.vmalloc_chunk),
        mem_line(lab_hardware_corrupted(), m.hardware_corrupted),
        mem_line(lab_anon_huge_pages(), m.anon_huge_pages),
        mem_line(lab_cma_total(), m.cma_total),
        mem_line(lab_cma_free(), m.cma_free),
        mem_line(lab_huge_pages_total(), m.huge_pages_total),
        mem_line(lab_huge_pages_free(), m.huge_pages_free),
        mem_line(lab_huge_pages_rsvd(), m.huge_pages_rsvd),
        mem_line(lab_huge_pages_surp(), m.huge_pages_surp),
        mem_line(lab_hugepagesize(), m.hugepagesize),
        mem_line(lab_direct_map_4k(), m.direct_map_4k),
        mem_line(lab_direct_map_2m(), m.direct_map_2m),
    ]
}

/// The canonical text of a memory report: every field's line, in the
/// decoder's own table order.
pub open spec fn canon_meminfo(m: MemInfo) -> Seq<u8> {
    nl_join(canon_mem_lines(m))
}

proof fn lemma_mem_line_mem_total(m: MemInfo, v: u64)
    ensures
        mem_line_update(m, mem_line(lab_mem_total(), v)) == Ok::<MemInfo, DecodeError>(
            MemInfo { mem_total: v, ..m },
        ),
        line_clean(mem_line(lab_mem_total(), v)),
{
    let lab2 = lab_mem_total().push(COLON);
    assert(token_clean(lab2));
    lemma_scalar_line(lab2, v);
    let line = mem_line(lab_mem_total(), v);
    assert forall|k: int| 0 <= k < lab_mem_total().len() implies #[trigger] line[k] == lab_mem_total()[k] by {
        assert(line[k] == lab2[k]);
    }
    assert(has_prefix(line, lab_mem_total()));
}

proof fn lemma_mem_line_mem_free(m: MemInfo, v: u64)
    ensures
        mem_line_update(m, mem_line(lab_mem_free(), v)) == Ok::<MemInfo, DecodeError>(
            MemInfo { mem_free: v, ..m },
        ),
        line_clean(mem_line(lab_mem_free(), v)),
{
    let lab2 = lab_mem_free().push(COLON);
    assert(token_clean(lab2));
    lemma_scalar_line(lab2, v);
    let line = mem_line(lab_mem_free(), v);
    assert forall|k: int| 0 <= k < lab_mem_free().len() implies #[trigger] line[k] == lab_mem_free()[k] by {
        assert(line[k] == lab2[k]);
    }
    assert(has_prefix(line, lab_mem_free()));
    assert(line[3] == lab2[3]);
    lemma_differs(line, lab_mem_total(), 3);
}

proof fn lemma_mem_line_mem_available(m: MemInfo, v: u64)
    ensures
        mem_line_update(m, mem_line(lab_mem_available(), v)) == Ok::<MemInfo, DecodeError>(
            MemInfo { mem_available: v, ..m },
        ),
        line_clean(mem_line(lab_mem_available(), v)),
{
    let lab2 = lab_mem_available().push(COLON);
    assert(token_clean(lab2));
    lemma_scalar_line(lab2, v);
    let line = mem_line(lab_mem_available(), v);
    assert forall|k: int| 0 <= k < lab_mem_available().len() implies #[trigger] line[k] == lab_mem_available()[k] by {
        assert(line[k] == lab2[k]);
    }
    assert(has_prefix(line, lab_mem_available()));
    assert(line[3] == lab2[3]);
    lemma_differs(line, lab_mem_total(), 3);
    assert(line[3] == lab2[3]);
    lemma_differs(line, lab_mem_free(), 3);
}

proof fn lemma_mem_line_bufers(m: MemInfo, v: u64)
    ensures
        mem_line_update(m, mem_line(lab_bufers(), v)) == Ok::<MemInfo, DecodeError>(
            MemInfo { bufers: v, ..m },
        ),
        line_clean(mem_line(lab_bufers(), v)),
{
    let lab2 = lab_bufers().push(COLON);
    assert(token_clean(lab2));
    lemma_scalar_line(lab2, v);
    let line = mem_line(lab_bufers(), v);
    assert forall|k: int| 0 <= k < lab_bufers().len() implies #[trigger] line[k] == lab_bufers()[k] by {
        assert(line[k] == lab2[k]);
    }
    assert(has_prefix(line, lab_bufers()));
    assert(line[0] == lab2[0]);
    lemma_differs(line, lab_mem_total(), 0);
    assert(line[0] == lab2[0]);
    lemma_differs(line, lab_mem_free(), 0);
    assert(line[0] == lab2[0]);
    lemma_differs(line, lab_mem_available(), 0);
}

proof fn lemma_mem_line_cached(m: MemInfo, v: u64)
    ensures
        mem_line_update(m, mem_line(lab_cached(), v)) == Ok::<MemInfo, DecodeError>(
            MemInfo { cached: v, ..m },
        ),
        line_clean(mem_line(lab_cached(), v)),
{
    let lab2 = lab_cached().push(COLON);
    assert(token_clean(lab2));
    lemma_scalar_line(lab2, v);
    let line = mem_line(lab_cached(), v);
    assert forall|k: int| 0 <= k < lab_cached().len() implies #[trigger] line[k] == lab_cached()[k] by {
        assert(line[k] == lab2[k]);
    }
    assert(has_prefix(line, lab_cached()));
    assert(line[0] == lab2[0]);
    lemma_differs(line, lab_mem_total(), 0);
    assert(line[0] == lab2[0]);
    lemma_differs(line, lab_mem_free(), 0);
    assert(line[0] == lab2[0]);
    lemma_differs(line, lab_mem_available(), 0);
    assert(line[0] == lab2[0]);
    lemma_differs(line, lab_bufers(), 0);
}

proof fn lemma_mem_line_swap_cached(m: MemInfo, v: u64)
    ensures
        mem_line_update(m, mem_line(lab_swap_cached(), v)) == Ok::<MemInfo, DecodeError>(
            MemInfo { swap_cached: v, ..m },
        ),
        line_clean(mem_line(lab_swap_cached(), v)),
{
    let lab2 = lab_swap_cached().push(COLON);
    assert(token_clean(lab2));
    lemma_scalar_line(lab2, v);
    let line = mem_line(lab_swap_cached(), v);
    assert forall|k: int| 0 <= k < lab_swap_cached().len() implies #[trigger] line[k] == lab_swap_cached()[k] by {
        assert(line[k] == lab2[k]);
    }
    assert(has_prefix(line, lab_swap_cached()));
    assert(line[0] == lab2[0]);
    lemma_differs(line, lab_mem_total(), 0);
    assert(line[0] == lab2[0]);
    lemma_differs(line, lab_mem_free(), 0);
    assert(line[0] == lab2[0]);
    lemma_differs(line, lab_mem_available(), 0);
    assert(line[0] == lab2[0]);
    lemma_differs(line, lab_bufers(), 0);
    assert(line[0] == lab2[0]);
    lemma_differs(line, lab_cached(), 0);
}

proof fn lemma_mem_line_active_anon(m: MemInfo, v: u64)
    ensures
        mem_line_update(m, mem_line(lab_active_anon(), v)) == Ok::<MemInfo, DecodeError>(
            MemInfo { active_anon: v, ..m },
        ),
        line_clean(mem_line(lab_active_anon(), v)),
{
    let lab2 = lab_active_anon().push(COLON);
    assert(token_clean(lab2));
    lemma_scalar_line(lab2, v);
    let line = mem_line(lab_active_anon(), v);
    assert forall|k: int| 0 <= k < lab_active_anon().len() implies #[trigger] line[k] == lab_active_anon()[k] by {
        assert(line[k] == lab2[k]);
    }
    assert(has_prefix(line, lab_active_anon()));
    assert(line[0] == lab2[0]);
    lemma_differs(line, lab_mem_total(), 0);
    assert(line[0] == lab2[0]);
    lemma_differs(line, lab_mem_free(), 0);
    assert(line[0] == lab2[0]);
    lemma_differs(line, lab_mem_available(), 0);
    assert(line[0] == lab2[0]);
    lemma_differs(line, lab_bufers(), 0);
    assert(line[0] == lab2[0]);
    lemma_differs(line, lab_cached(), 0);
    assert(line[0] == lab2[0]);
    lemma_differs(line, lab_swap_cached(), 0);
}

proof fn lemma_mem_line_inactive_anon(m: MemInfo, v: u64)
    ensures
        mem_line_update(m, mem_line(lab_inactive_anon(), v)) == Ok::<MemInfo, DecodeError>(
            MemInfo { inactive_anon: v, ..m },
        ),
        line_clean(mem_line(lab_inactive_anon(), v)),
{
    let lab2 = lab_inactive_anon().push(COLON);
    assert(token_clean(lab2));
    lemma_scalar_line(lab2, v);
    let line = mem_line(lab_inactive_anon(), v);
    assert forall|k: int| 0 <= k < lab_inactive_anon().len() implies #[trigger] line[k] == lab_inactive_anon()[k] by {
        assert(line[k] == lab2[k]);
    }
    assert(has_prefix(line, lab_inactive_anon()));
    assert(line[0] == lab2[0]);
    lemma_differs(line, lab_mem_total(), 0);
    assert(line[0] == lab2[0]);
    lemma_differs(line, lab_mem_free(), 0);
    assert(line[0] == lab2[0]);
    lemma_differs(line, lab_mem_available(), 0);
    assert(line[0] == lab2[0]);
    lemma_differs(line, lab_bufers(), 0);
    assert(line[0] == lab2[0]);
    lemma_differs(line, lab_cached(), 0);
    assert(line[0] == lab2[0]);
    lemma_differs(line, lab_swap_cached(), 0);
    assert(line[0] == lab2[0]);
    lemma_differs(line, lab_active_anon(), 0);
}

proof fn lemma_mem_line_active_file(m: MemInfo, v: u64)
    ensures
        mem_line_update(m, mem_line(lab_active_file(), v)) == Ok::<MemInfo, DecodeError>(
            MemInfo { active_file: v, ..m },
        ),
        line_clean(mem_line(lab_active_file(), v)),
{
    let lab2 = lab_active_file().push(COLON);
    assert(token_clean(lab2));
    lemma_scalar_line(lab2, v);
    let line = mem_line(lab_active_file(), v);
    assert forall|k: int| 0 <= k < lab_active_file().len() implies #[trigger] line[k] == lab_active_file()[k] by {
        assert(line[k] == lab2[k]);
    }
    assert(has_prefix(line, lab_active_file()));
    assert(line[0] == lab2[0]);
    lemma_differs(line, lab_mem_total(), 0);
    assert(line[0] == lab2[0]);
    lemma_differs(line, lab_mem_free(), 0);
    assert(line[0] == lab2[0]);
    lemma_differs(line, lab_mem_available(), 0);
    assert(line[0] == lab2[0]);
    lemma_differs(line, lab_bufers(), 0);
    assert(line[0] == lab2[0]);
    lemma_differs(line, lab_cached(), 0);
    assert(line[0] == lab2[0]);
    lemma_differs(line, lab_swap_cached(), 0);
    assert(line[7] == lab2[7]);
    lemma_differs(line, lab_active_anon(), 7);
    assert(line[0] == lab2[0]);
    lemma_differs(line, lab_inactive_anon(), 0);
}

proof fn lemma_mem_line_inactive_file(m: MemInfo, v: u64)
    ensures
        mem_line_update(m, mem_line(lab_inactive_file(), v)) == Ok::<MemInfo, DecodeError>(
            MemInfo { inactive_file: v, ..m },
        ),
        line_clean(mem_line(lab_inactive_file(), v)),
{
    let lab2 = lab_inactive_file().push(COLON);
    assert(token_clean(lab2));
    lemma_scalar_line(lab2, v);
    let line = mem_line(lab_inactive_file(), v);
    assert forall|k: int| 0 <= k < lab_inactive_file().len() implies #[trigger] line[k] == lab_inactive_file()[k] by {
        assert(line[k] == lab2[k]);
    }
    assert(has_prefix(line, lab_inactive_file()));
    assert(line[0] == lab2[0]);
    lemma_differs(line, lab_mem_total(), 0);
    assert(line[0] == lab2[0]);
    lemma_differs(line, lab_mem_free(), 0);
    assert(line[0] == lab2[0]);
    lemma_differs(line, lab_mem_available(), 0);
    assert(line[0] == lab2[0]);
    lemma_differs(line, lab_bufers(), 0);
    assert(line[0] == lab2[0]);
    lemma_differs(line, lab_cached(), 0);
    assert(line[0] == lab2[0]);
    lemma_differs(line, lab_swap_cached(), 0);
    assert(line[0] == lab2[0]);
    lemma_differs(line, lab_active_anon(), 0);
    assert(line[9] == lab2[9]);
    lemma_differs(line, lab_inactive_anon(), 9);
    assert(line[0] == lab2[0]);
    lemma_differs(line, lab_active_file(), 0);
}

proof fn lemma_mem_line_active(m: MemInfo, v: u64)
    ensures
        mem_line_update(m, mem_line(lab_active(), v)) == Ok::<MemInfo, DecodeError>(
            MemInfo { active: v, ..m },
        ),
        line_clean(mem_line(lab_active(), v)),
{
    let lab2 = lab_active().push(COLON);
    assert(token_clean(lab2));
    lemma_scalar_line(lab2, v);
    let line = mem_line(lab_active(), v);
    assert forall|k: int| 0 <= k < lab_active().len() implies #[trigger] line[k] == lab_active()[k] by {
        assert(line[k] == lab2[k]);
    }
    assert(has_prefix(line, lab_active()));
    assert(line[0] == lab2[0]);
    lemma_differs(line, lab_mem_total(), 0);
    assert(line[0] == lab2[0]);
    lemma_differs(line, lab_mem_free(), 0);
    assert(line[0] == lab2[0]);
    lemma_differs(line, lab_mem_available(), 0);
    assert(line[0] == lab2[0]);
    lemma_differs(line, lab_bufers(), 0);
    assert(line[0] == lab2[0]);
    lemma_differs(line, lab_cached(), 0);
    assert(line[0] == lab2[0]);
    lemma_differs(line, lab_swap_cached(), 0);
    assert(line[6] == lab2[6]);
    lemma_differs(line, lab_active_anon(), 6);
    assert(line[0] == lab2[0]);
    lemma_differs(line, lab_inactive_anon(), 0);
    assert(line[6] == lab2[6]);
    lemma_differs(line, lab_active_file(), 6);
    assert(line[0] == lab2[0]);
    lemma_differs(line, lab_inactive_file(), 0);
}

proof fn lemma_mem_line_inactive(m: MemInfo, v: u64)
    ensures
        mem_line_update(m, mem_line(lab_inactive(), v)) == Ok::<MemInfo, DecodeError>(
            MemInfo { inactive: v, ..m },
        ),
        line_clean(mem_line(lab_inactive(), v)),
{
    let lab2 = lab_inactive().push(COLON);
    assert(token_clean(lab2));
    lemma_scalar_line(lab2, v);
    let line = mem_line(lab_inactive(), v);
    assert forall|k: int| 0 <= k < lab_inactive().len() implies #[trigger] line[k] == lab_inactive()[k] by {
        assert(line[k] == lab2[k]);
    }
    assert(has_prefix(line, lab_inactive()));
    assert(line[0] == lab2[0]);
    lemma_differs(line, lab_mem_total(), 0);
    assert(line[0] == lab2[0]);
    lemma_differs(line, lab_mem_free(), 0);
    assert(line[0] == lab2[0]);
    lemma_differs(line, lab_mem_available(), 0);
    assert(line[0] == lab2[0]);
    lemma_differs(line, lab_bufers(), 0);
    assert(line[0] == lab2[0]);
    lemma_differs(line, lab_cached(), 0);
    assert(line[0] == lab2[0]);
    lemma_differs(line, lab_swap_cached(), 0);
    assert(line[0] == lab2[0]);
    lemma_differs(line, lab_active_anon(), 0);
    assert(line[8] == lab2[8]);
    lemma_differs(line, lab_inactive_anon(), 8);
    assert(line[0] == lab2[0]);
    lemma_differs(line, lab_active_file(), 0);
    assert(line[8] == lab2[8]);
    lemma_differs(line, lab_inactive_file(), 8);
    assert(line[0] == lab2[0]);
    lemma_differs(line, lab_active(), 0);
}

proof fn lemma_mem_line_unevictable(m: MemInfo, v: u64)
    ensures
        mem_line_update(m, mem_line(lab_unevictable(), v)) == Ok::<MemInfo, DecodeError>(
            MemInfo { unevictable: v, ..m },
        ),
        line_clean(mem_line(lab_unevictable(), v)),
{
    let lab2 = lab_unevictable().push(COLON);
    assert(token_clean(lab2));
    lemma_scalar_line(lab2, v);
    let line = mem_line(lab_unevictable(), v);
    assert forall|k: int| 0 <= k < lab_unevictable().len() implies #[trigger] line[k] == lab_unevictable()[k] by {
        assert(line[k] == lab2[k]);
    }
    assert(has_prefix(line, lab_unevictable()));
    assert(line[0] == lab2[0]);
    lemma_differs(line, lab_mem_total(), 0);
    assert(line[0] == lab2[0]);
    lemma_differs(line, lab_mem_free(), 0);
    assert(line[0] == lab2[0]);
    lemma_differs(line, lab_mem_available(), 0);
    assert(line[0] == lab2[0]);
    lemma_differs(line, lab_bufers(), 0);
    assert(line[0] == lab2[0]);
    lemma_differs(line, lab_cached(), 0);
    assert(line[0] == lab2[0]);
    lemma_differs(line, lab_swap_cached(), 0);
    assert(line[0] == lab2[0]);
    lemma_differs(line, lab_active_anon(), 0);
    assert(line[0] == lab2[0]);
    lemma_differs(line, lab_inactive_anon(), 0);
    assert(line[0] == lab2[0]);
    lemma_differs(line, lab_active_file(), 0);
    assert(line[0] == lab2[0]);
    lemma_differs(line, lab_inactive_file(), 0);
    assert(line[0] == lab2[0]);
    lemma_differs(line, lab_active(), 0);
    assert(line[0] == lab2[0]);
    lemma_differs(line, lab_inactive(), 0);
}

proof fn lemma_mem_line_mlocked(m: MemInfo, v: u64)
    ensures
        mem_line_update(m, mem_line(lab_mlocked(), v)) == Ok::<MemInfo, DecodeError>(
            MemInfo { mlocked: v, ..m },
        ),
        line_clean(mem_line(lab_mlocked(), v)),
{
    let lab2 = lab_mlocked().push(COLON);
    assert(token_clean(lab2));
    lemma_scalar_line(lab2, v);
    let line = mem_line(lab_mlocked(), v);
    assert forall|k: int| 0 <= k < lab_mlocked().len() implies #[trigger] line[k] == lab_mlocked()[k] by {
        assert(line[k] == lab2[k]);
    }
    assert(has_prefix(line, lab_mlocked()));
    assert(line[1] == lab2[1]);
    lemma_differs(line, lab_mem_total(), 1);
    assert(line[1] == lab2[1]);
    lemma_differs(line, lab_mem_free(), 1);
    assert(line[1] == lab2[1]);
    lemma_differs(line, lab_mem_available(), 1);
    assert(line[0] == lab2[0]);
    lemma_differs(line, lab_bufers(), 0);
    assert(line[0] == lab2[0]);
    lemma_differs(line, lab_cached(), 0);
    assert(line[0] == lab2[0]);
    lemma_differs(line, lab_swap_cached(), 0);
    assert(line[0] == lab2[0]);
    lemma_differs(line, lab_active_anon(), 0);
    assert(line[0] == lab2[0]);
    lemma_differs(line, lab_inactive_anon(), 0);
    assert(line[0] == lab2[0]);
    lemma_differs(line, lab_active_file(), 0);
    assert(line[0] == lab2[0]);
    lemma_differs(line, lab_inactive_file(), 0);
    assert(line[0] == lab2[0]);
    lemma_differs(line, lab_active(), 0);
    assert(line[0] == lab2[0]);
    lemma_differs(line, lab_inactive(), 0);
    assert(line[0] == lab2[0]);
    lemma_differs(line, lab_unevictable(), 0);
}

proof fn lemma_mem_line_swap_total(m: MemInfo, v: u64)
    ensures
        mem_line_update(m, mem_line(lab_swap_total(), v)) == Ok::<MemInfo, DecodeError>(
            MemInfo { swap_total: v, ..m },
        ),
        line_clean(mem_line(lab_swap_total(), v)),
{
    let lab2 = lab_swap_total().push(COLON);
    assert(token_clean(lab2));
    lemma_scalar_line(lab2, v);
    let line = mem_line(lab_swap_total(), v);
    assert forall|k: int| 0 <= k < lab_swap_total().len() implies #[trigger] line[k] == lab_swap_total()[k] by {
        assert(line[k] == lab2[k]);
    }
    assert(has_prefix(line, lab_swap_total()));
    assert(line[0] == lab2[0]);
    lemma_differs(line, lab_mem_total(), 0);
    assert(line[0] == lab2[0]);
    lemma_differs(line, lab_mem_free(), 0);
    assert(line[0] == lab2[0]);
    lemma_differs(line, lab_mem_available(), 0);
    assert(line[0] == lab2[0]);
    lemma_differs(line, lab_bufers(), 0);
    assert(line[0] == lab2[0]);
    lemma_differs(line, lab_cached(), 0);
    assert(line[4] == lab2[4]);
    lemma_differs(line, lab_swap_cached(), 4);
    assert(line[0] == lab2[0]);
    lemma_differs(line, lab_active_anon(), 0);
    assert(line[0] == lab2[0]);
    lemma_differs(line, lab_inactive_anon(), 0);
    assert(line[0] == lab2[0]);
    lemma_differs(line, lab_active_file(), 0);
    assert(line[0] == lab2[0]);
    lemma_differs(line, lab_inactive_file(), 0);
    assert(line[0] == lab2[0]);
    lemma_differs(line, lab_active(), 0);
    assert(line[0] == lab2[0]);
    lemma_differs(line, lab_inactive(), 0);
    assert(line[0] == lab2[0]);
    lemma_differs(line, lab_unevictable(), 0);
    assert(line[0] == lab2[0]);
    lemma_differs(line, lab_mlocked(), 0);
}

proof fn lemma_mem_line_swap_free(m: MemInfo, v: u64)
    ensures
        mem_line_update(m, mem_line(lab_swap_free(), v)) == Ok::<MemInfo, DecodeError>(
            MemInfo { swap_free: v, ..m },
        ),
        line_clean(mem_line(lab_swap_free(), v)),
{
    let lab2 = lab_swap_free().push(COLON);
    assert(token_clean(lab2));
    lemma_scalar_line(lab2, v);
    let line = mem_line(lab_swap_free(), v);
    assert forall|k: int| 0 <= k < lab_swap_free().len() implies #[trigger] line[k] == lab_swap_free()[k] by {
        assert(line[k] == lab2[k]);
    }
    assert(has_prefix(line, lab_swap_free()));
    assert(line[0] == lab2[0]);
    lemma_differs(line, lab_mem_total(), 0);
    assert(line[0] == lab2[0]);
    lemma_differs(line, lab_mem_free(), 0);
    assert(line[0] == lab2[0]);
    lemma_differs(line, lab_mem_available(), 0);
    assert(line[0] == lab2[0]);
    lemma_differs(line, lab_bufers(), 0);
    assert(line[0] == lab2[0]);
    lemma_differs(line, lab_cached(), 0);
    assert(line[4] == lab2[4]);
    lemma_differs(line, lab_swap_cached(), 4);
    assert(line[0] == lab2[0]);
    lemma_differs(line, lab_active_anon(), 0);
    assert(line[0] == lab2[0]);
    lemma_differs(line, lab_inactive_anon(), 0);
    assert(line[0] == lab2[0]);
    lemma_differs(line, lab_active_file(), 0);
    assert(line[0] == lab2[0]);
    lemma_differs(line, lab_inactive_file(), 0);
    assert(line[0] == lab2[0]);
    lemma_differs(line, lab_active(), 0);
    assert(line[0] == lab2[0]);
    lemma_differs(line, lab_inactive(), 0);
    assert(line[0] == lab2[0]);
    lemma_differs(line, lab_unevictable(), 0);
    assert(line[0] == lab2[0]);
    lemma_differs(line, lab_mlocked(), 0);
    assert(line[4] == lab2[4]);
    lemma_differs(line, lab_swap_total(), 4);
}

proof fn lemma_mem_line_dirty(m: MemInfo, v: u64)
    ensures
        mem_line_update(m, mem_line(lab_dirty(), v)) == Ok::<MemInfo, DecodeError>(
            MemInfo { dirty: v, ..m },
        ),
        line_clean(mem_line(lab_dirty(), v)),
{
    let lab2 = lab_dirty().push(COLON);
    assert(token_clean(lab2));
    lemma_scalar_line(lab2, v);
    let line = mem_line(lab_dirty(), v);
    assert forall|k: int| 0 <= k < lab_dirty().len() implies #[trigger] line[k] == lab_dirty()[k] by {
        assert(line[k] == lab2[k]);
    }
    assert(has_prefix(line, lab_dirty()));
    assert(line[0] == lab2[0]);
    lemma_differs(line, lab_mem_total(), 0);
    assert(line[0] == lab2[0]);
    lemma_differs(line, lab_mem_free(), 0);
    assert(line[0] == lab2[0]);
    lemma_differs(line, lab_mem_available(), 0);
    assert(line[0] == lab2[0]);
    lemma_differs(line, lab_bufers(), 0);
    assert(line[0] == lab2[0]);
    lemma_differs(line, lab_cached(), 0);
    assert(line[0] == lab2[0]);
    lemma_differs(line, lab_swap_cached(), 0);
    assert(line[0] == lab2[0]);
    lemma_differs(line, lab_active_anon(), 0);
    assert(line[0] == lab2[0]);
    lemma_differs(line, lab_inactive_anon(), 0);
    assert(line[0] == lab2[0]);
    lemma_differs(line, lab_active_file(), 0);
    assert(line[0] == lab2[0]);
    lemma_differs(line, lab_inactive_file(), 0);
    assert(line[0] == lab2[0]);
    lemma_differs(line, lab_active(), 0);
    assert(line[0] == lab2[0]);
    lemma_differs(line, lab_inactive(), 0);
    assert(line[0] == lab2[0]);
    lemma_differs(line, lab_unevictable(), 0);
    assert(line[0] == lab2[0]);
    lemma_differs(line, lab_mlocked(), 0);
    assert(line[0] == lab2[0]);
    lemma_differs(line, lab_swap_total(), 0);
    assert(line[0] == lab2[0]);
    lemma_differs(line, lab_swap_free(), 0);
}

proof fn lemma_mem_line_writeback_tmp(m: MemInfo, v: u64)
    ensures
        mem_line_update(m, mem_line(lab_writeback_tmp(), v)) == Ok::<MemInfo, DecodeError>(
            MemInfo { writeback_tmp: v, ..m },
        ),
        line_clean(mem_line(lab_writeback_tmp(), v)),
{
    let lab2 = lab_writeback_tmp().push(COLON);
    assert(token_clean(lab2));
    lemma_scalar_line(lab2, v);
    let line = mem_line(lab_writeback_tmp(), v);
    assert forall|k: int| 0 <= k < lab_writeback_tmp().len() implies #[trigger] line[k] == lab_writeback_tmp()[k] by {
        assert(line[k] == lab2[k]);
    }
    assert(has_prefix(line, lab_writeback_tmp()));
    assert(line[0] == lab2[0]);
    lemma_differs(line, lab_mem_total(), 0);
    assert(line[0] == lab2[0]);
    lemma_differs(line, lab_mem_free(), 0);
    assert(line[0] == lab2[0]);
    lemma_differs(line, lab_mem_available(), 0);
    assert(line[0] == lab2[0]);
    lemma_differs(line, lab_bufers(), 0);
    assert(line[0] == lab2[0]);
    lemma_differs(line, lab_cached(), 0);
    assert(line[0] == lab2[0]);
    lemma_differs(line, lab_swap_cached(), 0);
    assert(line[0] == lab2[0]);
    lemma_differs(line, lab_active_anon(), 0);
    assert(line[0] == lab2[0]);
    lemma_differs(line, lab_inactive_anon(), 0);
    assert(line[0] == lab2[0]);
    lemma_differs(line, lab_active_file(), 0);
    assert(line[0] == lab2[0]);
    lemma_differs(line, lab_inactive_file(), 0);
    assert(line[0] == lab2[0]);
    lemma_differs(line, lab_active(), 0);
    assert(line[0] == lab2[0]);
    lemma_differs(line, lab_inactive(), 0);
    assert(line[0] == lab2[0]);
    lemma_differs(line, lab_unevictable(), 0);
    assert(line[0] == lab2[0]);
    lemma_differs(line, lab_mlocked(), 0);
    assert(line[0] == lab2[0]);
    lemma_differs(line, lab_swap_total(), 0);
    assert(line[0] == lab2[0]);
    lemma_differs(line, lab_swap_free(), 0);
    assert(line[0] == lab2[0]);
    lemma_differs(line, lab_dirty(), 0);
}

proof fn lemma_mem_line_writeback(m: MemInfo, v: u64)
    ensures
        mem_line_update(m, mem_line(lab_writeback(), v)) == Ok::<MemInfo, DecodeError>(
            MemInfo { writeback: v, ..m },
        ),
        line_clean(mem_line(lab_writeback(), v)),
{
    let lab2 = lab_writeback().push(COLON);
    assert(token_clean(lab2));
    lemma_scalar_line(lab2, v);
    let line = mem_line(lab_writeback(), v);
    assert forall|k: int| 0 <= k < lab_writeback().len() implies #[trigger] line[k] == lab_writeback()[k] by {
        assert(line[k] == lab2[k]);
    }
    assert(has_prefix(line, lab_writeback()));
    assert(line[0] == lab2[0]);
    lemma_differs(line, lab_mem_total(), 0);
    assert(line[0] == lab2[0]);
    lemma_differs(line, lab_mem_free(), 0);
    assert(line[0] == lab2[0]);
    lemma_differs(line, lab_mem_available(), 0);
    assert(line[0] == lab2[0]);
    lemma_differs(line, lab_bufers(), 0);
    assert(line[0] == lab2[0]);
    lemma_differs(line, lab_cached(), 0);
    assert(line[0] == lab2[0]);
    lemma_differs(line, lab_swap_cached(), 0);
    assert(line[0] == lab2[0]);
    lemma_differs(line, lab_active_anon(), 0);
    assert(line[0] == lab2[0]);
    lemma_differs(line, lab_inactive_anon(), 0);
    assert(line[0] == lab2[0]);
    lemma_differs(line, lab_active_file(), 0);
    assert(line[0] == lab2[0]);
    lemma_differs(line, lab_inactive_file(), 0);
    assert(line[0] == lab2[0]);
    lemma_differs(line, lab_active(), 0);
    assert(line[0] == lab2[0]);
    lemma_differs(line, lab_inactive(), 0);
    assert(line[0] == lab2[0]);
    lemma_differs(line, lab_unevictable(), 0);
    assert(line[0] == lab2[0]);
    lemma_differs(line, lab_mlocked(), 0);
    assert(line[0] == lab2[0]);
    lemma_differs(line, lab_swap_total(), 0);
    assert(line[0] == lab2[0]);
    lemma_differs(line, lab_swap_free(), 0);
    assert(line[0] == lab2[0]);
    lemma_differs(line, lab_dirty(), 0);
    assert(line[9] == lab2[9]);
    lemma_differs(line, lab_writeback_tmp(), 9);
}

proof fn lemma_mem_line_anon_pages(m: MemInfo, v: u64)
    ensures
        mem_line_update(m, mem_line(lab_anon_pages(), v)) == Ok::<MemInfo, DecodeError>(
            MemInfo { anon_pages: v, ..m },
        ),
        line_clean(mem_line(lab_anon_pages(), v)),
{
    let lab2 = lab_anon_pages().push(COLON);
    assert(token_clean(lab2));
    lemma_scalar_line(lab2, v);
    let line = mem_line(lab_anon_pages(), v);
    assert forall|k: int| 0 <= k < lab_anon_pages().len() implies #[trigger] line[k] == lab_anon_pages()[k] by {
        assert(line[k] == lab2[k]);
    }
    assert(has_prefix(line, lab_anon_pages()));
    assert(line[0] == lab2[0]);
    lemma_differs(line, lab_mem_total(), 0);
    assert(line[0] == lab2[0]);
    lemma_differs(line, lab_mem_free(), 0);
    assert(line[0] == lab2[0]);
    lemma_differs(line, lab_mem_available(), 0);
    assert(line[0] == lab2[0]);
    lemma_differs(line, lab_bufers(), 0);
    assert(line[0] == lab2[0]);
    lemma_differs(line, lab_cached(), 0);
    assert(line[0] == lab2[0]);
    lemma_differs(line, lab_swap_cached(), 0);
    assert(line[1] == lab2[1]);
    lemma_differs(line, lab_active_anon(), 1);
    assert(line[0] == lab2[0]);
    lemma_differs(line, lab_inactive_anon(), 0);
    assert(line[1] == lab2[1]);
    lemma_differs(line, lab_active_file(), 1);
    assert(line[0] == lab2[0]);
    lemma_differs(line, lab_inactive_file(), 0);
    assert(line[1] == lab2[1]);
    lemma_differs(line, lab_active(), 1);
    assert(line[0] == lab2[0]);
    lemma_differs(line, lab_inactive(), 0);
    assert(line[0] == lab2[0]);
    lemma_differs(line, lab_unevictable(), 0);
    assert(line[0] == lab2[0]);
    lemma_differs(line, lab_mlocked(), 0);
    assert(line[0] == lab2[0]);
    lemma_differs(line, lab_swap_total(), 0);
    assert(line[0] == lab2[0]);
    lemma_differs(line, lab_swap_free(), 0);
    assert(line[0] == lab2[0]);
    lemma_differs(line, lab_dirty(), 0);
    assert(line[0] == lab2[0]);
    lemma_differs(line, lab_writeback_tmp(), 0);
    assert(line[0] == lab2[0]);
    lemma_differs(line, lab_writeback(), 0);
}

proof fn lemma_mem_line_mapped(m: MemInfo, v: u64)
    ensures
        mem_line_update(m, mem_line(lab_mapped(), v)) == Ok::<MemInfo, DecodeError>(
            MemInfo { mapped: v, ..m },
        ),
        line_clean(mem_line(lab_mapped(), v)),
{
    let lab2 = lab_mapped().push(COLON);
    assert(token_clean(lab2));
    lemma_scalar_line(lab2, v);
    let line = mem_line(lab_mapped(), v);
    assert forall|k: int| 0 <= k < lab_mapped().len() implies #[trigger] line[k] == lab_mapped()[k] by {
        assert(line[k] == lab2[k]);
    }
    assert(has_prefix(line, lab_mapped()));
    assert(line[1] == lab2[1]);
    lemma_differs(line, lab_mem_total(), 1);
    assert(line[1] == lab2[1]);
    lemma_differs(line, lab_mem_free(), 1);
    assert(line[1] == lab2[1]);
    lemma_differs(line, lab_mem_available(), 1);
    assert(line[0] == lab2[0]);
    lemma_differs(line, lab_bufers(), 0);
    assert(line[0] == lab2[0]);
    lemma_differs(line, lab_cached(), 0);
    assert(line[0] == lab2[0]);
    lemma_differs(line, lab_swap_cached(), 0);
    assert(line[0] == lab2[0]);
    lemma_differs(line, lab_active_anon(), 0);
    assert(line[0] == lab2[0]);
    lemma_differs(line, lab_inactive_anon(), 0);
    assert(line[0] == lab2[0]);
    lemma_differs(line, lab_active_file(), 0);
    assert(line[0] == lab2[0]);
    lemma_differs(line, lab_inactive_file(), 0);
    assert(line[0] == lab2[0]);
    lemma_differs(line, lab_active(), 0);
    assert(line[0] == lab2[0]);
    lemma_differs(line, lab_inactive(), 0);
    assert(line[0] == lab2[0]);
    lemma_differs(line, lab_unevictable(), 0);
    assert(line[1] == lab2[1]);
    lemma_differs(line, lab_mlocked(), 1);
    assert(line[0] == lab2[0]);
    lemma_differs(line, lab_swap_total(), 0);
    assert(line[0] == lab2[0]);
    lemma_differs(line, lab_swap_free(), 0);
    assert(line[0] == lab2[0]);
    lemma_differs(line, lab_dirty(), 0);
    assert(line[0] == lab2[0]);
    lemma_differs(line, lab_writeback_tmp(), 0);
    assert(line[0] == lab2[0]);
    lemma_differs(line, lab_writeback(), 0);
    assert(line[0] == lab2[0]);
    lemma_differs(line, lab_anon_pages(), 0);
}

proof fn lemma_mem_line_shmem(m: MemInfo, v: u64)
    ensures
        mem_line_update(m, mem_line(lab_shmem(), v)) == Ok::<MemInfo, DecodeError>(
            MemInfo { shmem: v, ..m },
        ),
        line_clean(mem_line(lab_shmem(), v)),
{
    let lab2 = lab_shmem().push(COLON);
    assert(token_clean(lab2));
    lemma_scalar_line(lab2, v);
    let line = mem_line(lab_shmem(), v);
    assert forall|k: int| 0 <= k < lab_shmem().len() implies #[trigger] line[k] == lab_shmem()[k] by {
        assert(line[k] == lab2[k]);
    }
    assert(has_prefix(line, lab_shmem()));
    assert(line[0] == lab2[0]);
    lemma_differs(line, lab_mem_total(), 0);
    assert(line[0] == lab2[0]);
    lemma_differs(line, lab_mem_free(), 0);
    assert(line[0] == lab2[0]);
    lemma_differs(line, lab_mem_available(), 0);
    assert(line[0] == lab2[0]);
    lemma_differs(line, lab_bufers(), 0);
    assert(line[0] == lab2[0]);
    lemma_differs(line, lab_cached(), 0);
    assert(line[1] == lab2[1]);
    lemma_differs(line, lab_swap_cached(), 1);
    assert(line[0] == lab2[0]);
    lemma_differs(line, lab_active_anon(), 0);
    assert(line[0] == lab2[0]);
    lemma_differs(line, lab_inactive_anon(), 0);
    assert(line[0] == lab2[0]);
    lemma_differs(line, lab_active_file(), 0);
    assert(line[0] == lab2[0]);
    lemma_differs(line, lab_inactive_file(), 0);
    assert(line[0] == lab2[0]);
    lemma_differs(line, lab_active(), 0);
    assert(line[0] == lab2[0]);
    lemma_differs(line, lab_inactive(), 0);
    assert(line[0] == lab2[0]);
    lemma_differs(line, lab_unevictable(), 0);
    assert(line[0] == lab2[0]);
    lemma_differs(line, lab_mlocked(), 0);
    assert(line[1] == lab2[1]);
    lemma_differs(line, lab_swap_total(), 1);
    assert(line[1] == lab2[1]);
    lemma_differs(line, lab_swap_free(), 1);
    assert(line[0] == lab2[0]);
    lemma_differs(line, lab_dirty(), 0);
    assert(line[0] == lab2[0]);
    lemma_differs(line, lab_writeback_tmp(), 0);
    assert(line[0] == lab2[0]);
    lemma_differs(line, lab_writeback(), 0);
    assert(line[0] == lab2[0]);
    lemma_differs(line, lab_anon_pages(), 0);
    assert(line[0] == lab2[0]);
    lemma_differs(line, lab_mapped(), 0);
}

proof fn lemma_mem_line_slab(m: MemInfo, v: u64)
    ensures
        mem_line_update(m, mem_line(lab_slab(), v)) == Ok::<MemInfo, DecodeError>(
            MemInfo { slab: v, ..m },
        ),
        line_clean(mem_line(lab_slab(), v)),
{
    let lab2 = lab_slab().push(COLON);
    assert(token_clean(lab2));
    lemma_scalar_line(lab2, v);
    let line = mem_line(lab_slab(), v);
    assert forall|k: int| 0 <= k < lab_slab().len() implies #[trigger] line[k] == lab_slab()[k] by {
        assert(line[k] == lab2[k]);
    }
    assert(has_prefix(line, lab_slab()));
    assert(line[0] == lab2[0]);
    lemma_differs(line, lab_mem_total(), 0);
    assert(line[0] == lab2[0]);
    lemma_differs(line, lab_mem_free(), 0);
    assert(line[0] == lab2[0]);
    lemma_differs(line, lab_mem_available(), 0);
    assert(line[0] == lab2[0]);
    lemma_differs(line, lab_bufers(), 0);
    assert(line[0] == lab2[0]);
    lemma_differs(line, lab_cached(), 0);
    assert(line[1] == lab2[1]);
    lemma_differs(line, lab_swap_cached(), 1);
    assert(line[0] == lab2[0]);
    lemma_differs(line, lab_active_anon(), 0);
    assert(line[0] == lab2[0]);
    lemma_differs(line, lab_inactive_anon(), 0);
    assert(line[0] == lab2[0]);
    lemma_differs(line, lab_active_file(), 0);
    assert(line[0] == lab2[0]);
    lemma_differs(line, lab_inactive_file(), 0);
    assert(line[0] == lab2[0]);
    lemma_differs(line, lab_active(), 0);
    assert(line[0] == lab2[0]);
    lemma_differs(line, lab_inactive(), 0);
    assert(line[0] == lab2[0]);
    lemma_differs(line, lab_unevictable(), 0);
    assert(line[0] == lab2[0]);
    lemma_differs(line, lab_mlocked(), 0);
    assert(line[1] == lab2[1]);
    lemma_differs(line, lab_swap_total(), 1);
    assert(line[1] == lab2[1]);
    lemma_differs(line, lab_swap_free(), 1);
    assert(line[0] == lab2[0]);
    lemma_differs(line, lab_dirty(), 0);
    assert(line[0] == lab2[0]);
    lemma_differs(line, lab_writeback_tmp(), 0);
    assert(line[0] == lab2[0]);
    lemma_differs(line, lab_writeback(), 0);
    assert(line[0] == lab2[0]);
    lemma_differs(line, lab_anon_pages(), 0);
    assert(line[0] == lab2[0]);
    lemma_differs(line, lab_mapped(), 0);
    assert(line[1] == lab2[1]);
    lemma_differs(line, lab_shmem(), 1);
}

proof fn lemma_mem_line_s_reclaimable(m: MemInfo, v: u64)
    ensures
        mem_line_update(m, mem_line(lab_s_reclaimable(), v)) == Ok::<MemInfo, DecodeError>(
            MemInfo { s_reclaimable: v, ..m },
        ),
        line_clean(mem_line(lab_s_reclaimable(), v)),
{
    let lab2 = lab_s_reclaimable().push(COLON);
    assert(token_clean(lab2));
    lemma_scalar_line(lab2, v);
    let line = mem_line(lab_s_reclaimable(), v);
    assert forall|k: int| 0 <= k < lab_s_reclaimable().len() implies #[trigger] line[k] == lab_s_reclaimable()[k] by {
        assert(line[k] == lab2[k]);
    }
    assert(has_prefix(line, lab_s_reclaimable()));
    assert(line[0] == lab2[0]);
    lemma_differs(line, lab_mem_total(), 0);
    assert(line[0] == lab2[0]);
    lemma_differs(line, lab_mem_free(), 0);
    assert(line[0] == lab2[0]);
    lemma_differs(line, lab_mem_available(), 0);
    assert(line[0] == lab2[0]);
    lemma_differs(line, lab_bufers(), 0);
    assert(line[0] == lab2[0]);
    lemma_differs(line, lab_cached(), 0);
    assert(line[1] == lab2[1]);
    lemma_differs(line, lab_swap_cached(), 1);
    assert(line[0] == lab2[0]);
    lemma_differs(line, lab_active_anon(), 0);
    assert(line[0] == lab2[0]);
    lemma_differs(line, lab_inactive_anon(), 0);
    assert(line[0] == lab2[0]);
    lemma_differs(line, lab_active_file(), 0);
    assert(line[0] == lab2[0]);
    lemma_differs(line, lab_inactive_file(), 0);
    assert(line[0] == lab2[0]);
    lemma_differs(line, lab_active(), 0);
    assert(line[0] == lab2[0]);
    lemma_differs(line, lab_inactive(), 0);
    assert(line[0] == lab2[0]);
    lemma_differs(line, lab_unevictable(), 0);
    assert(line[0] == lab2[0]);
    lemma_differs(line, lab_mlocked(), 0);
    assert(line[1] == lab2[1]);
    lemma_differs(line, lab_swap_total(), 1);
    assert(line[1] == lab2[1]);
    lemma_differs(line, lab_swap_free(), 1);
    assert(line[0] == lab2[0]);
    lemma_differs(line, lab_dirty(), 0);
    assert(line[0] == lab2[0]);
    lemma_differs(line, lab_writeback_tmp(), 0);
    assert(line[0] == lab2[0]);
    lemma_differs(line, lab_writeback(), 0);
    assert(line[0] == lab2[0]);
    lemma_differs(line, lab_anon_pages(), 0);
    assert(line[0] == lab2[0]);
    lemma_differs(line, lab_mapped(), 0);
    assert(line[1] == lab2[1]);
    lemma_differs(line, lab_shmem(), 1);
    assert(line[1] == lab2[1]);
    lemma_differs(line, lab_slab(), 1);
}

proof fn lemma_mem_line_s_unreclaim(m: MemInfo, v: u64)
    ensures
        mem_line_update(m, mem_line(lab_s_unreclaim(), v)) == Ok::<MemInfo, DecodeError>(
            MemInfo { s_unreclaim: v, ..m },
        ),
        line_clean(mem_line(lab_s_unreclaim(), v)),
{
    let lab2 = lab_s_unreclaim().push(COLON);
    assert(token_clean(lab2));
    lemma_scalar_line(lab2, v);
    let line = mem_line(lab_s_unreclaim(), v);
    assert forall|k: int| 0 <= k < lab_s_unreclaim().len() implies #[trigger] line[k] == lab_s_unreclaim()[k] by {
        assert(line[k] == lab2[k]);
    }
    assert(has_prefix(line, lab_s_unreclaim()));
    assert(line[0] == lab2[0]);
    lemma_differs(line, lab_mem_total(), 0);
    assert(line[0] == lab2[0]);
    lemma_differs(line, lab_mem_free(), 0);
    assert(line[0] == lab2[0]);
    lemma_differs(line, lab_mem_available(), 0);
    assert(line[0] == lab2[0]);
    lemma_differs(line, lab_bufers(), 0);
    assert(line[0] == lab2[0]);
    lemma_differs(line, lab_cached(), 0);
    assert(line[1] == lab2[1]);
    lemma_differs(line, lab_swap_cached(), 1);
    assert(line[0] == lab2[0]);
    lemma_differs(line, lab_active_anon(), 0);
    assert(line[0] == lab2[0]);
    lemma_differs(line, lab_inactive_anon(), 0);
    assert(line[0] == lab2[0]);
    lemma_differs(line, lab_active_file(), 0);
    assert(line[0] == lab2[0]);
    lemma_differs(line, lab_inactive_file(), 0);
    assert(line[0] == lab2[0]);
    lemma_differs(line, lab_active(), 0);
    assert(line[0] == lab2[0]);
    lemma_differs(line, lab_inactive(), 0);
    assert(line[0] == lab2[0]);
    lemma_differs(line, lab_unevictable(), 0);
    assert(line[0] == lab2[0]);
    lemma_differs(line, lab_mlocked(), 0);
    assert(line[1] == lab2[1]);
    lemma_differs(line, lab_swap_total(), 1);
    assert(line[1] == lab2[1]);
    lemma_differs(line, lab_swap_free(), 1);
    assert(line[0] == lab2[0]);
    lemma_differs(line, lab_dirty(), 0);
    assert(line[0] == lab2[0]);
    lemma_differs(line, lab_writeback_tmp(), 0);
    assert(line[0] == lab2[0]);
    lemma_differs(line, lab_writeback(), 0);
    assert(line[0] == lab2[0]);
    lemma_differs(line, lab_anon_pages(), 0);
    assert(line[0] == lab2[0]);
    lemma_differs(line, lab_mapped(), 0);
    assert(line[1] == lab2[1]);
    lemma_differs(line, lab_shmem(), 1);
    assert(line[1] == lab2[1]);
    lemma_differs(line, lab_slab(), 1);
    assert(line[1] == lab2[1]);
    lemma_differs(line, lab_s_reclaimable(), 1);
}

proof fn lemma_mem_line_kernel_stack(m: MemInfo, v: u64)
    ensures
        mem_line_update(m, mem_line(lab_kernel_stack(), v)) == Ok::<MemInfo, DecodeError>(
            MemInfo { kernel_stack: v, ..m },
        ),
        line_clean(mem_line(lab_kernel_stack(), v)),
{
    let lab2 = lab_kernel_stack().push(COLON);
    assert(token_clean(lab2));
    lemma_scalar_line(lab2, v);
    let line = mem_line(lab_kernel_stack(), v);
    assert forall|k: int| 0 <= k < lab_kernel_stack().len() implies #[trigger] line[k] == lab_kernel_stack()[k] by {
        assert(line[k] == lab2[k]);
    }
    assert(has_prefix(line, lab_kernel_stack()));
    assert(line[0] == lab2[0]);
    lemma_differs(line, lab_mem_total(), 0);
    assert(line[0] == lab2[0]);
    lemma_differs(line, lab_mem_free(), 0);
    assert(line[0] == lab2[0]);
    lemma_differs(line, lab_mem_available(), 0);
    assert(line[0] == lab2[0]);
    lemma_differs(line, lab_bufers(), 0);
    assert(line[0] == lab2[0]);
    lemma_differs(line, lab_cached(), 0);
    assert(line[0] == lab2[0]);
    lemma_differs(line, lab_swap_cached(), 0);
    assert(line[0] == lab2[0]);
    lemma_differs(line, lab_active_anon(), 0);
    assert(line[0] == lab2[0]);
    lemma_differs(line, lab_inactive_anon(), 0);
    assert(line[0] == lab2[0]);
    lemma_differs(line, lab_active_file(), 0);
    assert(line[0] == lab2[0]);
    lemma_differs(line, lab_inactive_file(), 0);
    assert(line[0] == lab2[0]);
    lemma_differs(line, lab_active(), 0);
    assert(line[0] == lab2[0]);
    lemma_differs(line, lab_inactive(), 0);
    assert(line[0] == lab2[0]);
    lemma_differs(line, lab_unevictable(), 0);
    assert(line[0] == lab2[0]);
    lemma_differs(line, lab_mlocked(), 0);
    assert(line[0] == lab2[0]);
    lemma_differs(line, lab_swap_total(), 0);
    assert(line[0] == lab2[0]);
    lemma_differs(line, lab_swap_free(), 0);
    assert(line[0] == lab2[0]);
    lemma_differs(line, lab_dirty(), 0);
    assert(line[0] == lab2[0]);
    lemma_differs(line, lab_writeback_tmp(), 0);
    assert(line[0] == lab2[0]);
    lemma_differs(line, lab_writeback(), 0);
    assert(line[0] == lab2[0]);
    lemma_differs(line, lab_anon_pages(), 0);
    assert(line[0] == lab2[0]);
    lemma_differs(line, lab_mapped(), 0);
    assert(line[0] == lab2[0]);
    lemma_differs(line, lab_shmem(), 0);
    assert(line[0] == lab2[0]);
    lemma_differs(line, lab_slab(), 0);
    assert(line[0] == lab2[0]);
    lemma_differs(line, lab_s_reclaimable(), 0);
    assert(line[0] == lab2[0]);
    lemma_differs(line, lab_s_unreclaim(), 0);
}

proof fn lemma_mem_line_page_tables(m: MemInfo, v: u64)
    ensures
        mem_line_update(m, mem_line(lab_page_tables(), v)) == Ok::<MemInfo, DecodeError>(
            MemInfo { page_tables: v, ..m },
        ),
        line_clean(mem_line(lab_page_tables(), v)),
{
    let lab2 = lab_page_tables().push(COLON);
    assert(token_clean(lab2));
    lemma_scalar_line(lab2, v);
    let line = mem_line(lab_page_tables(), v);
    assert forall|k: int| 0 <= k < lab_page_tables().len() implies #[trigger] line[k] == lab_page_tables()[k] by {
        assert(line[k] == lab2[k]);
    }
    assert(has_prefix(line, lab_page_tables()));
    assert(line[0] == lab2[0]);
    lemma_differs(line, lab_mem_total(), 0);
    assert(line[0] == lab2[0]);
    lemma_differs(line, lab_mem_free(), 0);
    assert(line[0] == lab2[0]);
    lemma_differs(line, lab_mem_available(), 0);
    assert(line[0] == lab2[0]);
    lemma_differs(line, lab_bufers(), 0);
    assert(line[0] == lab2[0]);
    lemma_differs(line, lab_cached(), 0);
    assert(line[0] == lab2[0]);
    lemma_differs(line, lab_swap_cached(), 0);
    assert(line[0] == lab2[0]);
    lemma_differs(line, lab_active_anon(), 0);
    assert(line[0] == lab2[0]);
    lemma_differs(line, lab_inactive_anon(), 0);
    assert(line[0] == lab2[0]);
    lemma_differs(line, lab_active_file(), 0);
    assert(line[0] == lab2[0]);
    lemma_differs(line, lab_inactive_file(), 0);
    assert(line[0] == lab2[0]);
    lemma_differs(line, lab_active(), 0);
    assert(line[0] == lab2[0]);
    lemma_differs(line, lab_inactive(), 0);
    assert(line[0] == lab2[0]);
    lemma_differs(line, lab_unevictable(), 0);
    assert(line[0] == lab2[0]);
    lemma_differs(line, lab_mlocked(), 0);
    assert(line[0] == lab2[0]);
    lemma_differs(line, lab_swap_total(), 0);
    assert(line[0] == lab2[0]);
    lemma_differs(line, lab_swap_free(), 0);
    assert(line[0] == lab2[0]);
    lemma_differs(line, lab_dirty(), 0);
    assert(line[0] == lab2[0]);
    lemma_differs(line, lab_writeback_tmp(), 0);
    assert(line[0] == lab2[0]);
    lemma_differs(line, lab_writeback(), 0);
    assert(line[0] == lab2[0]);
    lemma_differs(line, lab_anon_pages(), 0);
    assert(line[0] == lab2[0]);
    lemma_differs(line, lab_mapped(), 0);
    assert(line[0] == lab2[0]);
    lemma_differs(line, lab_shmem(), 0);
    assert(line[0] == lab2[0]);
    lemma_differs(line, lab_slab(), 0);
    assert(line[0] == lab2[0]);
    lemma_differs(line, lab_s_reclaimable(), 0);
    assert(line[0] == lab2[0]);
    lemma_differs(line, lab_s_unreclaim(), 0);
    assert(line[0] == lab2[0]);
    lemma_differs(line, lab_kernel_stack(), 0);
}

proof fn lemma_mem_line_nfs_unstable(m: MemInfo, v: u64)
    ensures
        mem_line_update(m, mem_line(lab_nfs_unstable(), v)) == Ok::<MemInfo, DecodeError>(
            MemInfo { nfs_unstable: v, ..m },
        ),
        line_clean(mem_line(lab_nfs_unstable(), v)),
{
    let lab2 = lab_nfs_unstable().push(COLON);
    assert(token_clean(lab2));
    lemma_scalar_line(lab2, v);
    let line = mem_line(lab_nfs_unstable(), v);
    assert forall|k: int| 0 <= k < lab_nfs_unstable().len() implies #[trigger] line[k] == lab_nfs_unstable()[k] by {
        assert(line[k] == lab2[k]);
    }
    assert(has_prefix(line, lab_nfs_unstable()));
    assert(line[0] == lab2[0]);
    lemma_differs(line, lab_mem_total(), 0);
    assert(line[0] == lab2[0]);
    lemma_differs(line, lab_mem_free(), 0);
    assert(line[0] == lab2[0]);
    lemma_differs(line, lab_mem_available(), 0);
    assert(line[0] == lab2[0]);
    lemma_differs(line, lab_bufers(), 0);
    assert(line[0] == lab2[0]);
    lemma_differs(line, lab_cached(), 0);
    assert(line[0] == lab2[0]);
    lemma_differs(line, lab_swap_cached(), 0);
    assert(line[0] == lab2[0]);
    lemma_differs(line, lab_active_anon(), 0);
    assert(line[0] == lab2[0]);
    lemma_differs(line, lab_inactive_anon(), 0);
    assert(line[0] == lab2[0]);
    lemma_differs(line, lab_active_file(), 0);
    assert(line[0] == lab2[0]);
    lemma_differs(line, lab_inactive_file(), 0);
    assert(line[0] == lab2[0]);
    lemma_differs(line, lab_active(), 0);
    assert(line[0] == lab2[0]);
    lemma_differs(line, lab_inactive(), 0);
    assert(line[0] == lab2[0]);
    lemma_differs(line, lab_unevictable(), 0);
    assert(line[0] == lab2[0]);
    lemma_differs(line, lab_mlocked(), 0);
    assert(line[0] == lab2[0]);
    lemma_differs(line, lab_swap_total(), 0);
    assert(line[0] == lab2[0]);
    lemma_differs(line, lab_swap_free(), 0);
    assert(line[0] == lab2[0]);
    lemma_differs(line, lab_dirty(), 0);
    assert(line[0] == lab2[0]);
    lemma_differs(line, lab_writeback_tmp(), 0);
    assert(line[0] == lab2[0]);
    lemma_differs(line, lab_writeback(), 0);
    assert(line[0] == lab2[0]);
    lemma_differs(line, lab_anon_pages(), 0);
    assert(line[0] == lab2[0]);
    lemma_differs(line, lab_mapped(), 0);
    assert(line[0] == lab2[0]);
    lemma_differs(line, lab_shmem(), 0);
    assert(line[0] == lab2[0]);
    lemma_differs(line, lab_slab(), 0);
    assert(line[0] == lab2[0]);
    lemma_differs(line, lab_s_reclaimable(), 0);
    assert(line[0] == lab2[0]);
    lemma_differs(line, lab_s_unreclaim(), 0);
    assert(line[0] == lab2[0]);
    lemma_differs(line, lab_kernel_stack(), 0);
    assert(line[0] == lab2[0]);
    lemma_differs(line, lab_page_tables(), 0);
}

proof fn lemma_mem_line_bounce(m: MemInfo, v: u64)
    ensures
        mem_line_update(m, mem_line(lab_bounce(), v)) == Ok::<MemInfo, DecodeError>(
            MemInfo { bounce: v, ..m },
        ),
        line_clean(mem_line(lab_bounce(), v)),
{
    let lab2 = lab_bounce().push(COLON);
    assert(token_clean(lab2));
    lemma_scalar_line(lab2, v);
    let line = mem_line(lab_bounce(), v);
    assert forall|k: int| 0 <= k < lab_bounce().len() implies #[trigger] line[k] == lab_bounce()[k] by {
        assert(line[k] == lab2[k]);
    }
    assert(has_prefix(line, lab_bounce()));
    assert(line[0] == lab2[0]);
    lemma_differs(line, lab_mem_total(), 0);
    assert(line[0] == lab2[0]);
    lemma_differs(line, lab_mem_free(), 0);
    assert(line[0] == lab2[0]);
    lemma_differs(line, lab_mem_available(), 0);
    assert(line[1] == lab2[1]);
    lemma_differs(line, lab_bufers(), 1);
    assert(line[0] == lab2[0]);
    lemma_differs(line, lab_cached(), 0);
    assert(line[0] == lab2[0]);
    lemma_differs(line, lab_swap_cached(), 0);
    assert(line[0] == lab2[0]);
    lemma_differs(line, lab_active_anon(), 0);
    assert(line[0] == lab2[0]);
    lemma_differs(line, lab_inactive_anon(), 0);
    assert(line[0] == lab2[0]);
    lemma_differs(line, lab_active_file(), 0);
    assert(line[0] == lab2[0]);
    lemma_differs(line, lab_inactive_file(), 0);
    assert(line[0] == lab2[0]);
    lemma_differs(line, lab_active(), 0);
    assert(line[0] == lab2[0]);
    lemma_differs(line, lab_inactive(), 0);
    assert(line[0] == lab2[0]);
    lemma_differs(line, lab_unevictable(), 0);
    assert(line[0] == lab2[0]);
    lemma_differs(line, lab_mlocked(), 0);
    assert(line[0] == lab2[0]);
    lemma_differs(line, lab_swap_total(), 0);
    assert(line[0] == lab2[0]);
    lemma_differs(line, lab_swap_free(), 0);
    assert(line[0] == lab2[0]);
    lemma_differs(line, lab_dirty(), 0);
    assert(line[0] == lab2[0]);
    lemma_differs(line, lab_writeback_tmp(), 0);
    assert(line[0] == lab2[0]);
    lemma_differs(line, lab_writeback(), 0);
    assert(line[0] == lab2[0]);
    lemma_differs(line, lab_anon_pages(), 0);
    assert(line[0] == lab2[0]);
    lemma_differs(line, lab_mapped(), 0);
    assert(line[0] == lab2[0]);
    lemma_differs(line, lab_shmem(), 0);
    assert(line[0] == lab2[0]);
    lemma_differs(line, lab_slab(), 0);
    assert(line[0] == lab2[0]);
    lemma_differs(line, lab_s_reclaimable(), 0);
    assert(line[0] == lab2[0]);
    lemma_differs(line, lab_s_unreclaim(), 0);
    assert(line[0] == lab2[0]);
    lemma_differs(line, lab_kernel_stack(), 0);
    assert(line[0] == lab2[0]);
    lemma_differs(line, lab_page_tables(), 0);
    assert(line[0] == lab2[0]);
    lemma_differs(line, lab_nfs_unstable(), 0);
}

proof fn lemma_mem_line_commit_limit(m: MemInfo, v: u64)
    ensures
        mem_line_update(m, mem_line(lab_commit_limit(), v)) == Ok::<MemInfo, DecodeError>(
            MemInfo { commit_limit: v, ..m },
        ),
        line_clean(mem_line(lab_commit_limit(), v)),
{
    let lab2 = lab_commit_limit().push(COLON);
    assert(token_clean(lab2));
    lemma_scalar_line(lab2, v);
    let line = mem_line(lab_commit_limit(), v);
    assert forall|k: int| 0 <= k < lab_commit_limit().len() implies #[trigger] line[k] == lab_commit_limit()[k] by {
        assert(line[k] == lab2[k]);
    }
    assert(has_prefix(line, lab_commit_limit()));
    assert(line[0] == lab2[0]);
    lemma_differs(line, lab_mem_total(), 0);
    assert(line[0] == lab2[0]);
    lemma_differs(line, lab_mem_free(), 0);
    assert(line[0] == lab2[0]);
    lemma_differs(line, lab_mem_available(), 0);
    assert(line[0] == lab2[0]);
    lemma_differs(line, lab_bufers(), 0);
    assert(line[1] == lab2[1]);
    lemma_differs(line, lab_cached(), 1);
    assert(line[0] == lab2[0]);
    lemma_differs(line, lab_swap_cached(), 0);
    assert(line[0] == lab2[0]);
    lemma_differs(line, lab_active_anon(), 0);
    assert(line[0] == lab2[0]);
    lemma_differs(line, lab_inactive_anon(), 0);
    assert(line[0] == lab2[0]);
    lemma_differs(line, lab_active_file(), 0);
    assert(line[0] == lab2[0]);
    lemma_differs(line, lab_inactive_file(), 0);
    assert(line[0] == lab2[0]);
    lemma_differs(line, lab_active(), 0);
    assert(line[0] == lab2[0]);
    lemma_differs(line, lab_inactive(), 0);
    assert(line[0] == lab2[0]);
    lemma_differs(line, lab_unevictable(), 0);
    assert(line[0] == lab2[0]);
    lemma_differs(line, lab_mlocked(), 0);
    assert(line[0] == lab2[0]);
    lemma_differs(line, lab_swap_total(), 0);
    assert(line[0] == lab2[0]);
    lemma_differs(line, lab_swap_free(), 0);
    assert(line[0] == lab2[0]);
    lemma_differs(line, lab_dirty(), 0);
    assert(line[0] == lab2[0]);
    lemma_differs(line, lab_writeback_tmp(), 0);
    assert(line[0] == lab2[0]);
    lemma_differs(line, lab_writeback(), 0);
    assert(line[0] == lab2[0]);
    lemma_differs(line, lab_anon_pages(), 0);
    assert(line[0] == lab2[0]);
    lemma_differs(line, lab_mapped(), 0);
    assert(line[0] == lab2[0]);
    lemma_differs(line, lab_shmem(), 0);
    assert(line[0] == lab2[0]);
    lemma_differs(line, lab_slab(), 0);
    assert(line[0] == lab2[0]);
    lemma_differs(line, lab_s_reclaimable(), 0);
    assert(line[0] == lab2[0]);
    lemma_differs(line, lab_s_unreclaim(), 0);
    assert(line[0] == lab2[0]);
    lemma_differs(line, lab_kernel_stack(), 0);
    assert(line[0] == lab2[0]);
    lemma_differs(line, lab_page_tables(), 0);
    assert(line[0] == lab2[0]);
    lemma_differs(line, lab_nfs_unstable(), 0);
    assert(line[0] == lab2[0]);
    lemma_differs(line, lab_bounce(), 0);
}

proof fn lemma_mem_line_committed_as(m: MemInfo, v: u64)
    ensures
        mem_line_update(m, mem_line(lab_committed_as(), v)) == Ok::<MemInfo, DecodeError>(
            MemInfo { committed_as: v, ..m },
        ),
        line_clean(mem_line(lab_committed_as(), v)),
{
    let lab2 = lab_committed_as().push(COLON);
    assert(token_clean(lab2));
    lemma_scalar_line(lab2, v);
    let line = mem_line(lab_committed_as(), v);
    assert forall|k: int| 0 <= k < lab_committed_as().len() implies #[trigger] line[k] == lab_committed_as()[k] by {
        assert(line[k] == lab2[k]);
    }
    assert(has_prefix(line, lab_committed_as()));
    assert(line[0] == lab2[0]);
    lemma_differs(line, lab_mem_total(), 0);
    assert(line[0] == lab2[0]);
    lemma_differs(line, lab_mem_free(), 0);
    assert(line[0] == lab2[0]);
    lemma_differs(line, lab_mem_available(), 0);
    assert(line[0] == lab2[0]);
    lemma_differs(line, lab_bufers(), 0);
    assert(line[1] == lab2[1]);
    lemma_differs(line, lab_cached(), 1);
    assert(line[0] == lab2[0]);
    lemma_differs(line, lab_swap_cached(), 0);
    assert(line[0] == lab2[0]);
    lemma_differs(line, lab_active_anon(), 0);
    assert(line[0] == lab2[0]);
    lemma_differs(line, lab_inactive_anon(), 0);
    assert(line[0] == lab2[0]);
    lemma_differs(line, lab_active_file(), 0);
    assert(line[0] == lab2[0]);
    lemma_differs(line, lab_inactive_file(), 0);
    assert(line[0] == lab2[0]);
    lemma_differs(line, lab_active(), 0);
    assert(line[0] == lab2[0]);
    lemma_differs(line, lab_inactive(), 0);
    assert(line[0] == lab2[0]);
    lemma_differs(line, lab_unevictable(), 0);
    assert(line[0] == lab2[0]);
    lemma_differs(line, lab_mlocked(), 0);
    assert(line[0] == lab2[0]);
    lemma_differs(line, lab_swap_total(), 0);
    assert(line[0] == lab2[0]);
    lemma_differs(line, lab_swap_free(), 0);
    assert(line[0] == lab2[0]);
    lemma_differs(line, lab_dirty(), 0);
    assert(line[0] == lab2[0]);
    lemma_differs(line, lab_writeback_tmp(), 0);
    assert(line[0] == lab2[0]);
    lemma_differs(line, lab_writeback(), 0);
    assert(line[0] == lab2[0]);
    lemma_differs(line, lab_anon_pages(), 0);
    assert(line[0] == lab2[0]);
    lemma_differs(line, lab_mapped(), 0);
    assert(line[0] == lab2[0]);
    lemma_differs(line, lab_shmem(), 0);
    assert(line[0] == lab2[0]);
    lemma_differs(line, lab_slab(), 0);
    assert(line[0] == lab2[0]);
    lemma_differs(line, lab_s_reclaimable(), 0);
    assert(line[0] == lab2[0]);
    lemma_differs(line, lab_s_unreclaim(), 0);
    assert(line[0] == lab2[0]);
    lemma_differs(line, lab_kernel_stack(), 0);
    assert(line[0] == lab2[0]);
    lemma_differs(line, lab_page_tables(), 0);
    assert(line[0] == lab2[0]);
    lemma_differs(line, lab_nfs_unstable(), 0);
    assert(line[0] == lab2[0]);
    lemma_differs(line, lab_bounce(), 0);
    assert(line[6] == lab2[6]);
    lemma_differs(line, lab_commit_limit(), 6);
}

proof fn lemma_mem_line_vmalloc_total(m: MemInfo, v: u64)
    ensures
        mem_line_update(m, mem_line(lab_vmalloc_total(), v)) == Ok::<MemInfo, DecodeError>(
            MemInfo { vmalloc_total: v, ..m },
        ),
        line_clean(mem_line(lab_vmalloc_total(), v)),
{
    let lab2 = lab_vmalloc_total().push(COLON);
    assert(token_clean(lab2));
    lemma_scalar_line(lab2, v);
    let line = mem_line(lab_vmalloc_total(), v);
    assert forall|k: int| 0 <= k < lab_vmalloc_total().len() implies #[trigger] line[k] == lab_vmalloc_total()[k] by {
        assert(line[k] == lab2[k]);
    }
    assert(has_prefix(line, lab_vmalloc_total()));
    assert(line[0] == lab2[0]);
    lemma_differs(line, lab_mem_total(), 0);
    assert(line[0] == lab2[0]);
    lemma_differs(line, lab_mem_free(), 0);
    assert(line[0] == lab2[0]);
    lemma_differs(line, lab_mem_available(), 0);
    assert(line[0] == lab2[0]);
    lemma_differs(line, lab_bufers(), 0);
    assert(line[0] == lab2[0]);
    lemma_differs(line, lab_cached(), 0);
    assert(line[0] == lab2[0]);
    lemma_differs(line, lab_swap_cached(), 0);
    assert(line[0] == lab2[0]);
    lemma_differs(line, lab_active_anon(), 0);
    assert(line[0] == lab2[0]);
    lemma_differs(line, lab_inactive_anon(), 0);
    assert(line[0] == lab2[0]);
    lemma_differs(line, lab_active_file(), 0);
    assert(line[0] == lab2[0]);
    lemma_differs(line, lab_inactive_file(), 0);
    assert(line[0] == lab2[0]);
    lemma_differs(line, lab_active(), 0);
    assert(line[0] == lab2[0]);
    lemma_differs(line, lab_inactive(), 0);
    assert(line[0] == lab2[0]);
    lemma_differs(line, lab_unevictable(), 0);
    assert(line[0] == lab2[0]);
    lemma_differs(line, lab_mlocked(), 0);
    assert(line[0] == lab2[0]);
    lemma_differs(line, lab_swap_total(), 0);
    assert(line[0] == lab2[0]);
    lemma_differs(line, lab_swap_free(), 0);
    assert(line[0] == lab2[0]);
    lemma_differs(line, lab_dirty(), 0);
    assert(line[0] == lab2[0]);
    lemma_differs(line, lab_writeback_tmp(), 0);
    assert(line[0] == lab2[0]);
    lemma_differs(line, lab_writeback(), 0);
    assert(line[0] == lab2[0]);
    lemma_differs(line, lab_anon_pages(), 0);
    assert(line[0] == lab2[0]);
    lemma_differs(line, lab_mapped(), 0);
    assert(line[0] == lab2[0]);
    lemma_differs(line, lab_shmem(), 0);
    assert(line[0] == lab2[0]);
    lemma_differs(line, lab_slab(), 0);
    assert(line[0] == lab2[0]);
    lemma_differs(line, lab_s_reclaimable(), 0);
    assert(line[0] == lab2[0]);
    lemma_differs(line, lab_s_unreclaim(), 0);
    assert(line[0] == lab2[0]);
    lemma_differs(line, lab_kernel_stack(), 0);
    assert(line[0] == lab2[0]);
    lemma_differs(line, lab_page_tables(), 0);
    assert(line[0] == lab2[0]);
    lemma_differs(line, lab_nfs_unstable(), 0);
    assert(line[0] == lab2[0]);
    lemma_differs(line, lab_bounce(), 0);
    assert(line[0] == lab2[0]);
    lemma_differs(line, lab_commit_limit(), 0);
    assert(line[0] == lab2[0]);
    lemma_differs(line, lab_committed_as(), 0);
}

proof fn lemma_mem_line_vmalloc_used(m: MemInfo, v: u64)
    ensures
        mem_line_update(m, mem_line(lab_vmalloc_used(), v)) == Ok::<MemInfo, DecodeError>(
            MemInfo { vmalloc_used: v, ..m },
        ),
        line_clean(mem_line(lab_vmalloc_used(), v)),
{
    let lab2 = lab_vmalloc_used().push(COLON);
    assert(token_clean(lab2));
    lemma_scalar_line(lab2, v);
    let line = mem_line(lab_vmalloc_used(), v);
    assert forall|k: int| 0 <= k < lab_vmalloc_used().len() implies #[trigger] line[k] == lab_vmalloc_used()[k] by {
        assert(line[k] == lab2[k]);
    }
    assert(has_prefix(line, lab_vmalloc_used()));
    assert(line[0] == lab2[0]);
    lemma_differs(line, lab_mem_total(), 0);
    assert(line[0] == lab2[0]);
    lemma_differs(line, lab_mem_free(), 0);
    assert(line[0] == lab2[0]);
    lemma_differs(line, lab_mem_available(), 0);
    assert(line[0] == lab2[0]);
    lemma_differs(line, lab_bufers(), 0);
    assert(line[0] == lab2[0]);
    lemma_differs(line, lab_cached(), 0);
    assert(line[0] == lab2[0]);
    lemma_differs(line, lab_swap_cached(), 0);
    assert(line[0] == lab2[0]);
    lemma_differs(line, lab_active_anon(), 0);
    assert(line[0] == lab2[0]);
    lemma_differs(line, lab_inactive_anon(), 0);
    assert(line[0] == lab2[0]);
    lemma_differs(line, lab_active_file(), 0);
    assert(line[0] == lab2[0]);
    lemma_differs(line, lab_inactive_file(), 0);
    assert(line[0] == lab2[0]);
    lemma_differs(line, lab_active(), 0);
    assert(line[0] == lab2[0]);
    lemma_differs(line, lab_inactive(), 0);
    assert(line[0] == lab2[0]);
    lemma_differs(line, lab_unevictable(), 0);
    assert(line[0] == lab2[0]);
    lemma_differs(line, lab_mlocked(), 0);
    assert(line[0] == lab2[0]);
    lemma_differs(line, lab_swap_total(), 0);
    assert(line[0] == lab2[0]);
    lemma_differs(line, lab_swap_free(), 0);
    assert(line[0] == lab2[0]);
    lemma_differs(line, lab_dirty(), 0);
    assert(line[0] == lab2[0]);
    lemma_differs(line, lab_writeback_tmp(), 0);
    assert(line[0] == lab2[0]);
    lemma_differs(line, lab_writeback(), 0);
    assert(line[0] == lab2[0]);
    lemma_differs(line, lab_anon_pages(), 0);
    assert(line[0] == lab2[0]);
    lemma_differs(line, lab_mapped(), 0);
    assert(line[0] == lab2[0]);
    lemma_differs(line, lab_shmem(), 0);
    assert(line[0] == lab2[0]);
    lemma_differs(line, lab_slab(), 0);
    assert(line[0] == lab2[0]);
    lemma_differs(line, lab_s_reclaimable(), 0);
    assert(line[0] == lab2[0]);
    lemma_differs(line, lab_s_unreclaim(), 0);
    assert(line[0] == lab2[0]);
    lemma_differs(line, lab_kernel_stack(), 0);
    assert(line[0] == lab2[0]);
    lemma_differs(line, lab_page_tables(), 0);
    assert(line[0] == lab2[0]);
    lemma_differs(line, lab_nfs_unstable(), 0);
    assert(line[0] == lab2[0]);
    lemma_differs(line, lab_bounce(), 0);
    assert(line[0] == lab2[0]);
    lemma_differs(line, lab_commit_limit(), 0);
    assert(line[0] == lab2[0]);
    lemma_differs(line, lab_committed_as(), 0);
    assert(line[7] == lab2[7]);
    lemma_differs(line, lab_vmalloc_total(), 7);
}

proof fn lemma_mem_line_vmalloc_chunk(m: MemInfo, v: u64)
    ensures
        mem_line_update(m, mem_line(lab_vmalloc_chunk(), v)) == Ok::<MemInfo, DecodeError>(
            MemInfo { vmalloc_chunk: v, ..m },
        ),
        line_clean(mem_line(lab_vmalloc_chunk(), v)),
{
    let lab2 = lab_vmalloc_chunk().push(COLON);
    assert(token_clean(lab2));
    lemma_scalar_line(lab2, v);
    let line = mem_line(lab_vmalloc_chunk(), v);
    assert forall|k: int| 0 <= k < lab_vmalloc_chunk().len() implies #[trigger] line[k] == lab_vmalloc_chunk()[k] by {
        assert(line[k] == lab2[k]);
    }
    assert(has_prefix(line, lab_vmalloc_chunk()));
    assert(line[0] == lab2[0]);
    lemma_differs(line, lab_mem_total(), 0);
    assert(line[0] == lab2[0]);
    lemma_differs(line, lab_mem_free(), 0);
    assert(line[0] == lab2[0]);
    lemma_differs(line, lab_mem_available(), 0);
    assert(line[0] == lab2[0]);
    lemma_differs(line, lab_bufers(), 0);
    assert(line[0] == lab2[0]);
    lemma_differs(line, lab_cached(), 0);
    assert(line[0] == lab2[0]);
    lemma_differs(line, lab_swap_cached(), 0);
    assert(line[0] == lab2[0]);
    lemma_differs(line, lab_active_anon(), 0);
    assert(line[0] == lab2[0]);
    lemma_differs(line, lab_inactive_anon(), 0);
    assert(line[0] == lab2[0]);
    lemma_differs(line, lab_active_file(), 0);
    assert(line[0] == lab2[0]);
    lemma_differs(line, lab_inactive_file(), 0);
    assert(line[0] == lab2[0]);
    lemma_differs(line, lab_active(), 0);
    assert(line[0] == lab2[0]);
    lemma_differs(line, lab_inactive(), 0);
    assert(line[0] == lab2[0]);
    lemma_differs(line, lab_unevictable(), 0);
    assert(line[0] == lab2[0]);
    lemma_differs(line, lab_mlocked(), 0);
    assert(line[0] == lab2[0]);
    lemma_differs(line, lab_swap_total(), 0);
    assert(line[0] == lab2[0]);
    lemma_differs(line, lab_swap_free(), 0);
    assert(line[0] == lab2[0]);
    lemma_differs(line, lab_dirty(), 0);
    assert(line[0] == lab2[0]);
    lemma_differs(line, lab_writeback_tmp(), 0);
    assert(line[0] == lab2[0]);
    lemma_differs(line, lab_writeback(), 0);
    assert(line[0] == lab2[0]);
    lemma_differs(line, lab_anon_pages(), 0);
    assert(line[0] == lab2[0]);
    lemma_differs(line, lab_mapped(), 0);
    assert(line[0] == lab2[0]);
    lemma_differs(line, lab_shmem(), 0);
    assert(line[0] == lab2[0]);
    lemma_differs(line, lab_slab(), 0);
    assert(line[0] == lab2[0]);
    lemma_differs(line, lab_s_reclaimable(), 0);
    assert(line[0] == lab2[0]);
    lemma_differs(line, lab_s_unreclaim(), 0);
    assert(line[0] == lab2[0]);
    lemma_differs(line, lab_kernel_stack(), 0);
    assert(line[0] == lab2[0]);
    lemma_differs(line, lab_page_tables(), 0);
    assert(line[0] == lab2[0]);
    lemma_differs(line, lab_nfs_unstable(), 0);
    assert(line[0] == lab2[0]);
    lemma_differs(line, lab_bounce(), 0);
    assert(line[0] == lab2[0]);
    lemma_differs(line, lab_commit_limit(), 0);
    assert(line[0] == lab2[0]);
    lemma_differs(line, lab_committed_as(), 0);
    assert(line[7] == lab2[7]);
    lemma_differs(line, lab_vmalloc_total(), 7);
    assert(line[7] == lab2[7]);
    lemma_differs(line, lab_vmalloc_used(), 7);
}

proof fn lemma_mem_line_hardware_corrupted(m: MemInfo, v: u64)
    ensures
        mem_line_update(m, mem_line(lab_hardware_corrupted(), v)) == Ok::<MemInfo, DecodeError>(
            MemInfo { hardware_corrupted: v, ..m },
        ),
        line_clean(mem_line(lab_hardware_corrupted(), v)),
{
    let lab2 = lab_hardware_corrupted().push(COLON);
    assert(token_clean(lab2));
    lemma_scalar_line(lab2, v);
    let line = mem_line(lab_hardware_corrupted(), v);
    assert forall|k: int| 0 <= k < lab_hardware_corrupted().len() implies #[trigger] line[k] == lab_hardware_corrupted()[k] by {
        assert(line[k] == lab2[k]);
    }
    assert(has_prefix(line, lab_hardware_corrupted()));
    assert(line[0] == lab2[0]);
    lemma_differs(line, lab_mem_total(), 0);
    assert(line[0] == lab2[0]);
    lemma_differs(line, lab_mem_free(), 0);
    assert(line[0] == lab2[0]);
    lemma_differs(line, lab_mem_available(), 0);
    assert(line[0] == lab2[0]);
    lemma_differs(line, lab_bufers(), 0);
    assert(line[0] == lab2[0]);
    lemma_differs(line, lab_cached(), 0);
    assert(line[0] == lab2[0]);
    lemma_differs(line, lab_swap_cached(), 0);
    assert(line[0] == lab2[0]);
    lemma_differs(line, lab_active_anon(), 0);
    assert(line[0] == lab2[0]);
    lemma_differs(line, lab_inactive_anon(), 0);
    assert(line[0] == lab2[0]);
    lemma_differs(line, lab_active_file(), 0);
    assert(line[0] == lab2[0]);
    lemma_differs(line, lab_inactive_file(), 0);
    assert(line[0] == lab2[0]);
    lemma_differs(line, lab_active(), 0);
    assert(line[0] == lab2[0]);
    lemma_differs(line, lab_inactive(), 0);
    assert(line[0] == lab2[0]);
    lemma_differs(line, lab_unevictable(), 0);
    assert(line[0] == lab2[0]);
    lemma_differs(line, lab_mlocked(), 0);
    assert(line[0] == lab2[0]);
    lemma_differs(line, lab_swap_total(), 0);
    assert(line[0] == lab2[0]);
    lemma_differs(line, lab_swap_free(), 0);
    assert(line[0] == lab2[0]);
    lemma_differs(line, lab_dirty(), 0);
    assert(line[0] == lab2[0]);
    lemma_differs(line, lab_writeback_tmp(), 0);
    assert(line[0] == lab2[0]);
    lemma_differs(line, lab_writeback(), 0);
    assert(line[0] == lab2[0]);
    lemma_differs(line, lab_anon_pages(), 0);
    assert(line[0] == lab2[0]);
    lemma_differs(line, lab_mapped(), 0);
    assert(line[0] == lab2[0]);
    lemma_differs(line, lab_shmem(), 0);
    assert(line[0] == lab2[0]);
    lemma_differs(line, lab_slab(), 0);
    assert(line[0] == lab2[0]);
    lemma_differs(line, lab_s_reclaimable(), 0);
    assert(line[0] == lab2[0]);
    lemma_differs(line, lab_s_unreclaim(), 0);
    assert(line[0] == lab2[0]);
    lemma_differs(line, lab_kernel_stack(), 0);
    assert(line[0] == lab2[0]);
    lemma_differs(line, lab_page_tables(), 0);
    assert(line[0] == lab2[0]);
    lemma_differs(line, lab_nfs_unstable(), 0);
    assert(line[0] == lab2[0]);
    lemma_differs(line, lab_bounce(), 0);
    assert(line[0] == lab2[0]);
    lemma_differs(line, lab_commit_limit(), 0);
    assert(line[0] == lab2[0]);
    lemma_differs(line, lab_committed_as(), 0);
    assert(line[0] == lab2[0]);
    lemma_differs(line, lab_vmalloc_total(), 0);
    assert(line[0] == lab2[0]);
    lemma_differs(line, lab_vmalloc_used(), 0);
    assert(line[0] == lab2[0]);
    lemma_differs(line, lab_vmalloc_chunk(), 0);
}

proof fn lemma_mem_line_anon_huge_pages(m: MemInfo, v: u64)
    ensures
        mem_line_update(m, mem_line(lab_anon_huge_pages(), v)) == Ok::<MemInfo, DecodeError>(
            MemInfo { anon_huge_pages: v, ..m },
        ),
        line_clean(mem_line(lab_anon_huge_pages(), v)),
{
    let lab2 = lab_anon_huge_pages().push(COLON);
    assert(token_clean(lab2));
    lemma_scalar_line(lab2, v);
    let line = mem_line(lab_anon_huge_pages(), v);
    assert forall|k: int| 0 <= k < lab_anon_huge_pages().len() implies #[trigger] line[k] == lab_anon_huge_pages()[k] by {
        assert(line[k] == lab2[k]);
    }
    assert(has_prefix(line, lab_anon_huge_pages()));
    assert(line[0] == lab2[0]);
    lemma_differs(line, lab_mem_total(), 0);
    assert(line[0] == lab2[0]);
    lemma_differs(line, lab_mem_free(), 0);
    assert(line[0] == lab2[0]);
    lemma_differs(line, lab_mem_available(), 0);
    assert(line[0] == lab2[0]);
    lemma_differs(line, lab_bufers(), 0);
    assert(line[0] == lab2[0]);
    lemma_differs(line, lab_cached(), 0);
    assert(line[0] == lab2[0]);
    lemma_differs(line, lab_swap_cached(), 0);
    assert(line[1] == lab2[1]);
    lemma_differs(line, lab_active_anon(), 1);
    assert(line[0] == lab2[0]);
    lemma_differs(line, lab_inactive_anon(), 0);
    assert(line[1] == lab2[1]);
    lemma_differs(line, lab_active_file(), 1);
    assert(line[0] == lab2[0]);
    lemma_differs(line, lab_inactive_file(), 0);
    assert(line[1] == lab2[1]);
    lemma_differs(line, lab_active(), 1);
    assert(line[0] == lab2[0]);
    lemma_differs(line, lab_inactive(), 0);
    assert(line[0] == lab2[0]);
    lemma_differs(line, lab_unevictable(), 0);
    assert(line[0] == lab2[0]);
    lemma_differs(line, lab_mlocked(), 0);
    assert(line[0] == lab2[0]);
    lemma_differs(line, lab_swap_total(), 0);
    assert(line[0] == lab2[0]);
    lemma_differs(line, lab_swap_free(), 0);
    assert(line[0] == lab2[0]);
    lemma_differs(line, lab_dirty(), 0);
    assert(line[0] == lab2[0]);
    lemma_differs(line, lab_writeback_tmp(), 0);
    assert(line[0] == lab2[0]);
    lemma_differs(line, lab_writeback(), 0);
    assert(line[4] == lab2[4]);
    lemma_differs(line, lab_anon_pages(), 4);
    assert(line[0] == lab2[0]);
    lemma_differs(line, lab_mapped(), 0);
    assert(line[0] == lab2[0]);
    lemma_differs(line, lab_shmem(), 0);
    assert(line[0] == lab2[0]);
    lemma_differs(line, lab_slab(), 0);
    assert(line[0] == lab2[0]);
    lemma_differs(line, lab_s_reclaimable(), 0);
    assert(line[0] == lab2[0]);
    lemma_differs(line, lab_s_unreclaim(), 0);
    assert(line[0] == lab2[0]);
    lemma_differs(line, lab_kernel_stack(), 0);
    assert(line[0] == lab2[0]);
    lemma_differs(line, lab_page_tables(), 0);
    assert(line[0] == lab2[0]);
    lemma_differs(line, lab_nfs_unstable(), 0);
    assert(line[0] == lab2[0]);
    lemma_differs(line, lab_bounce(), 0);
    assert(line[0] == lab2[0]);
    lemma_differs(line, lab_commit_limit(), 0);
    assert(line[0] == lab2[0]);
    lemma_differs(line, lab_committed_as(), 0);
    assert(line[0] == lab2[0]);
    lemma_differs(line, lab_vmalloc_total(), 0);
    assert(line[0] == lab2[0]);
    lemma_differs(line, lab_vmalloc_used(), 0);
    assert(line[0] == lab2[0]);
    lemma_differs(line, lab_vmalloc_chunk(), 0);
    assert(line[0] == lab2[0]);
    lemma_differs(line, lab_hardware_corrupted(), 0);
}

proof fn lemma_mem_line_cma_total(m: MemInfo, v: u64)
    ensures
        mem_line_update(m, mem_line(lab_cma_total(), v)) == Ok::<MemInfo, DecodeError>(
            MemInfo { cma_total: v, ..m },
        ),
        line_clean(mem_line(lab_cma_total(), v)),
{
    let lab2 = lab_cma_total().push(COLON);
    assert(token_clean(lab2));
    lemma_scalar_line(lab2, v);
    let line = mem_line(lab_cma_total(), v);
    assert forall|k: int| 0 <= k < lab_cma_total().len() implies #[trigger] line[k] == lab_cma_total()[k] by {
        assert(line[k] == lab2[k]);
    }
    assert(has_prefix(line, lab_cma_total()));
    assert(line[0] == lab2[0]);
    lemma_differs(line, lab_mem_total(), 0);
    assert(line[0] == lab2[0]);
    lemma_differs(line, lab_mem_free(), 0);
    assert(line[0] == lab2[0]);
    lemma_differs(line, lab_mem_available(), 0);
    assert(line[0] == lab2[0]);
    lemma_differs(line, lab_bufers(), 0);
    assert(line[1] == lab2[1]);
    lemma_differs(line, lab_cached(), 1);
    assert(line[0] == lab2[0]);
    lemma_differs(line, lab_swap_cached(), 0);
    assert(line[0] == lab2[0]);
    lemma_differs(line, lab_active_anon(), 0);
    assert(line[0] == lab2[0]);
    lemma_differs(line, lab_inactive_anon(), 0);
    assert(line[0] == lab2[0]);
    lemma_differs(line, lab_active_file(), 0);
    assert(line[0] == lab2[0]);
    lemma_differs(line, lab_inactive_file(), 0);
    assert(line[0] == lab2[0]);
    lemma_differs(line, lab_active(), 0);
    assert(line[0] == lab2[0]);
    lemma_differs(line, lab_inactive(), 0);
    assert(line[0] == lab2[0]);
    lemma_differs(line, lab_unevictable(), 0);
    assert(line[0] == lab2[0]);
    lemma_differs(line, lab_mlocked(), 0);
    assert(line[0] == lab2[0]);
    lemma_differs(line, lab_swap_total(), 0);
    assert(line[0] == lab2[0]);
    lemma_differs(line, lab_swap_free(), 0);
    assert(line[0] == lab2[0]);
    lemma_differs(line, lab_dirty(), 0);
    assert(line[0] == lab2[0]);
    lemma_differs(line, lab_writeback_tmp(), 0);
    assert(line[0] == lab2[0]);
    lemma_differs(line, lab_writeback(), 0);
    assert(line[0] == lab2[0]);
    lemma_differs(line, lab_anon_pages(), 0);
    assert(line[0] == lab2[0]);
    lemma_differs(line, lab_mapped(), 0);
    assert(line[0] == lab2[0]);
    lemma_differs(line, lab_shmem(), 0);
    assert(line[0] == lab2[0]);
    lemma_differs(line, lab_slab(), 0);
    assert(line[0] == lab2[0]);
    lemma_differs(line, lab_s_reclaimable(), 0);
    assert(line[0] == lab2[0]);
    lemma_differs(line, lab_s_unreclaim(), 0);
    assert(line[0] == lab2[0]);
    lemma_differs(line, lab_kernel_stack(), 0);
    assert(line[0] == lab2[0]);
    lemma_differs(line, lab_page_tables(), 0);
    assert(line[0] == lab2[0]);
    lemma_differs(line, lab_nfs_unstable(), 0);
    assert(line[0] == lab2[0]);
    lemma_differs(line, lab_bounce(), 0);
    assert(line[1] == lab2[1]);
    lemma_differs(line, lab_commit_limit(), 1);
    assert(line[1] == lab2[1]);
    lemma_differs(line, lab_committed_as(), 1);
    assert(line[0] == lab2[0]);
    lemma_differs(line, lab_vmalloc_total(), 0);
    assert(line[0] == lab2[0]);
    lemma_differs(line, lab_vmalloc_used(), 0);
    assert(line[0] == lab2[0]);
    lemma_differs(line, lab_vmalloc_chunk(), 0);
    assert(line[0] == lab2[0]);
    lemma_differs(line, lab_hardware_corrupted(), 0);
    assert(line[0] == lab2[0]);
    lemma_differs(line, lab_anon_huge_pages(), 0);
}

proof fn lemma_mem_line_cma_free(m: MemInfo, v: u64)
    ensures
        mem_line_update(m, mem_line(lab_cma_free(), v)) == Ok::<MemInfo, DecodeError>(
            MemInfo { cma_free: v, ..m },
        ),
        line_clean(mem_line(lab_cma_free(), v)),
{
    let lab2 = lab_cma_free().push(COLON);
    assert(token_clean(lab2));
    lemma_scalar_line(lab2, v);
    let line = mem_line(lab_cma_free(), v);
    assert forall|k: int| 0 <= k < lab_cma_free().len() implies #[trigger] line[k] == lab_cma_free()[k] by {
        assert(line[k] == lab2[k]);
    }
    assert(has_prefix(line, lab_cma_free()));
    assert(line[0] == lab2[0]);
    lemma_differs(line, lab_mem_total(), 0);
    assert(line[0] == lab2[0]);
    lemma_differs(line, lab_mem_free(), 0);
    assert(line[0] == lab2[0]);
    lemma_differs(line, lab_mem_available(), 0);
    assert(line[0] == lab2[0]);
    lemma_differs(line, lab_bufers(), 0);
    assert(line[1] == lab2[1]);
    lemma_differs(line, lab_cached(), 1);
    assert(line[0] == lab2[0]);
    lemma_differs(line, lab_swap_cached(), 0);
    assert(line[0] == lab2[0]);
    lemma_differs(line, lab_active_anon(), 0);
    assert(line[0] == lab2[0]);
    lemma_differs(line, lab_inactive_anon(), 0);
    assert(line[0] == lab2[0]);
    lemma_differs(line, lab_active_file(), 0);
    assert(line[0] == lab2[0]);
    lemma_differs(line, lab_inactive_file(), 0);
    assert(line[0] == lab2[0]);
    lemma_differs(line, lab_active(), 0);
    assert(line[0] == lab2[0]);
    lemma_differs(line, lab_inactive(), 0);
    assert(line[0] == lab2[0]);
    lemma_differs(line, lab_unevictable(), 0);
    assert(line[0] == lab2[0]);
    lemma_differs(line, lab_mlocked(), 0);
    assert(line[0] == lab2[0]);
    lemma_differs(line, lab_swap_total(), 0);
    assert(line[0] == lab2[0]);
    lemma_differs(line, lab_swap_free(), 0);
    assert(line[0] == lab2[0]);
    lemma_differs(line, lab_dirty(), 0);
    assert(line[0] == lab2[0]);
    lemma_differs(line, lab_writeback_tmp(), 0);
    assert(line[0] == lab2[0]);
    lemma_differs(line, lab_writeback(), 0);
    assert(line[0] == lab2[0]);
    lemma_differs(line, lab_anon_pages(), 0);
    assert(line[0] == lab2[0]);
    lemma_differs(line, lab_mapped(), 0);
    assert(line[0] == lab2[0]);
    lemma_differs(line, lab_shmem(), 0);
    assert(line[0] == lab2[0]);
    lemma_differs(line, lab_slab(), 0);
    assert(line[0] == lab2[0]);
    lemma_differs(line, lab_s_reclaimable(), 0);
    assert(line[0] == lab2[0]);
    lemma_differs(line, lab_s_unreclaim(), 0);
    assert(line[0] == lab2[0]);
    lemma_differs(line, lab_kernel_stack(), 0);
    assert(line[0] == lab2[0]);
    lemma_differs(line, lab_page_tables(), 0);
    assert(line[0] == lab2[0]);
    lemma_differs(line, lab_nfs_unstable(), 0);
    assert(line[0] == lab2[0]);
    lemma_differs(line, lab_bounce(), 0);
    assert(line[1] == lab2[1]);
    lemma_differs(line, lab_commit_limit(), 1);
    assert(line[1] == lab2[1]);
    lemma_differs(line, lab_committed_as(), 1);
    assert(line[0] == lab2[0]);
    lemma_differs(line, lab_vmalloc_total(), 0);
    assert(line[0] == lab2[0]);
    lemma_differs(line, lab_vmalloc_used(), 0);
    assert(line[0] == lab2[0]);
    lemma_differs(line, lab_vmalloc_chunk(), 0);
    assert(line[0] == lab2[0]);
    lemma_differs(line, lab_hardware_corrupted(), 0);
    assert(line[0] == lab2[0]);
    lemma_differs(line, lab_anon_huge_pages(), 0);
    assert(line[3] == lab2[3]);
    lemma_differs(line, lab_cma_total(), 3);
}

proof fn lemma_mem_line_huge_pages_total(m: MemInfo, v: u64)
    ensures
        mem_line_update(m, mem_line(lab_huge_pages_total(), v)) == Ok::<MemInfo, DecodeError>(
            MemInfo { huge_pages_total: v, ..m },
        ),
        line_clean(mem_line(lab_huge_pages_total(), v)),
{
    let lab2 = lab_huge_pages_total().push(COLON);
    assert(token_clean(lab2));
    lemma_scalar_line(lab2, v);
    let line = mem_line(lab_huge_pages_total(), v);
    assert forall|k: int| 0 <= k < lab_huge_pages_total().len() implies #[trigger] line[k] == lab_huge_pages_total()[k] by {
        assert(line[k] == lab2[k]);
    }
    assert(has_prefix(line, lab_huge_pages_total()));
    assert(line[0] == lab2[0]);
    lemma_differs(line, lab_mem_total(), 0);
    assert(line[0] == lab2[0]);
    lemma_differs(line, lab_mem_free(), 0);
    assert(line[0] == lab2[0]);
    lemma_differs(line, lab_mem_available(), 0);
    assert(line[0] == lab2[0]);
    lemma_differs(line, lab_bufers(), 0);
    assert(line[0] == lab2[0]);
    lemma_differs(line, lab_cached(), 0);
    assert(line[0] == lab2[0]);
    lemma_differs(line, lab_swap_cached(), 0);
    assert(line[0] == lab2[0]);
    lemma_differs(line, lab_active_anon(), 0);
    assert(line[0] == lab2[0]);
    lemma_differs(line, lab_inactive_anon(), 0);
    assert(line[0] == lab2[0]);
    lemma_differs(line, lab_active_file(), 0);
    assert(line[0] == lab2[0]);
    lemma_differs(line, lab_inactive_file(), 0);
    assert(line[0] == lab2[0]);
    lemma_differs(line, lab_active(), 0);
    assert(line[0] == lab2[0]);
    lemma_differs(line, lab_inactive(), 0);
    assert(line[0] == lab2[0]);
    lemma_differs(line, lab_unevictable(), 0);
    assert(line[0] == lab2[0]);
    lemma_differs(line, lab_mlocked(), 0);
    assert(line[0] == lab2[0]);
    lemma_differs(line, lab_swap_total(), 0);
    assert(line[0] == lab2[0]);
    lemma_differs(line, lab_swap_free(), 0);
    assert(line[0] == lab2[0]);
    lemma_differs(line, lab_dirty(), 0);
    assert(line[0] == lab2[0]);
    lemma_differs(line, lab_writeback_tmp(), 0);
    assert(line[0] == lab2[0]);
    lemma_differs(line, lab_writeback(), 0);
    assert(line[0] == lab2[0]);
    lemma_differs(line, lab_anon_pages(), 0);
    assert(line[0] == lab2[0]);
    lemma_differs(line, lab_mapped(), 0);
    assert(line[0] == lab2[0]);
    lemma_differs(line, lab_shmem(), 0);
    assert(line[0] == lab2[0]);
    lemma_differs(line, lab_slab(), 0);
    assert(line[0] == lab2[0]);
    lemma_differs(line, lab_s_reclaimable(), 0);
    assert(line[0] == lab2[0]);
    lemma_differs(line, lab_s_unreclaim(), 0);
    assert(line[0] == lab2[0]);
    lemma_differs(line, lab_kernel_stack(), 0);
    assert(line[0] == lab2[0]);
    lemma_differs(line, lab_page_tables(), 0);
    assert(line[0] == lab2[0]);
    lemma_differs(line, lab_nfs_unstable(), 0);
    assert(line[0] == lab2[0]);
    lemma_differs(line, lab_bounce(), 0);
    assert(line[0] == lab2[0]);
    lemma_differs(line, lab_commit_limit(), 0);
    assert(line[0] == lab2[0]);
    lemma_differs(line, lab_committed_as(), 0);
    assert(line[0] == lab2[0]);
    lemma_differs(line, lab_vmalloc_total(), 0);
    assert(line[0] == lab2[0]);
    lemma_differs(line, lab_vmalloc_used(), 0);
    assert(line[0] == lab2[0]);
    lemma_differs(line, lab_vmalloc_chunk(), 0);
    assert(line[1] == lab2[1]);
    lemma_differs(line, lab_hardware_corrupted(), 1);
    assert(line[0] == lab2[0]);
    lemma_differs(line, lab_anon_huge_pages(), 0);
    assert(line[0] == lab2[0]);
    lemma_differs(line, lab_cma_total(), 0);
    assert(line[0] == lab2[0]);
    lemma_differs(line, lab_cma_free(), 0);
}

proof fn lemma_mem_line_huge_pages_free(m: MemInfo, v: u64)
    ensures
        mem_line_update(m, mem_line(lab_huge_pages_free(), v)) == Ok::<MemInfo, DecodeError>(
            MemInfo { huge_pages_free: v, ..m },
        ),
        line_clean(mem_line(lab_huge_pages_free(), v)),
{
    let lab2 = lab_huge_pages_free().push(COLON);
    assert(token_clean(lab2));
    lemma_scalar_line(lab2, v);
    let line = mem_line(lab_huge_pages_free(), v);
    assert forall|k: int| 0 <= k < lab_huge_pages_free().len() implies #[trigger] line[k] == lab_huge_pages_free()[k] by {
        assert(line[k] == lab2[k]);
    }
    assert(has_prefix(line, lab_huge_pages_free()));
    assert(line[0] == lab2[0]);
    lemma_differs(line, lab_mem_total(), 0);
    assert(line[0] == lab2[0]);
    lemma_differs(line, lab_mem_free(), 0);
    assert(line[0] == lab2[0]);
    lemma_differs(line, lab_mem_available(), 0);
    assert(line[0] == lab2[0]);
    lemma_differs(line, lab_bufers(), 0);
    assert(line[0] == lab2[0]);
    lemma_differs(line, lab_cached(), 0);
    assert(line[0] == lab2[0]);
    lemma_differs(line, lab_swap_cached(), 0);
    assert(line[0] == lab2[0]);
    lemma_differs(line, lab_active_anon(), 0);
    assert(line[0] == lab2[0]);
    lemma_differs(line, lab_inactive_anon(), 0);
    assert(line[0] == lab2[0]);
    lemma_differs(line, lab_active_file(), 0);
    assert(line[0] == lab2[0]);
    lemma_differs(line, lab_inactive_file(), 0);
    assert(line[0] == lab2[0]);
    lemma_differs(line, lab_active(), 0);
    assert(line[0] == lab2[0]);
    lemma_differs(line, lab_inactive(), 0);
    assert(line[0] == lab2[0]);
    lemma_differs(line, lab_unevictable(), 0);
    assert(line[0] == lab2[0]);
    lemma_differs(line, lab_mlocked(), 0);
    assert(line[0] == lab2[0]);
    lemma_differs(line, lab_swap_total(), 0);
    assert(line[0] == lab2[0]);
    lemma_differs(line, lab_swap_free(), 0);
    assert(line[0] == lab2[0]);
    lemma_differs(line, lab_dirty(), 0);
    assert(line[0] == lab2[0]);
    lemma_differs(line, lab_writeback_tmp(), 0);
    assert(line[0] == lab2[0]);
    lemma_differs(line, lab_writeback(), 0);
    assert(line[0] == lab2[0]);
    lemma_differs(line, lab_anon_pages(), 0);
    assert(line[0] == lab2[0]);
    lemma_differs(line, lab_mapped(), 0);
    assert(line[0] == lab2[0]);
    lemma_differs(line, lab_shmem(), 0);
    assert(line[0] == lab2[0]);
    lemma_differs(line, lab_slab(), 0);
    assert(line[0] == lab2[0]);
    lemma_differs(line, lab_s_reclaimable(), 0);
    assert(line[0] == lab2[0]);
    lemma_differs(line, lab_s_unreclaim(), 0);
    assert(line[0] == lab2[0]);
    lemma_differs(line, lab_kernel_stack(), 0);
    assert(line[0] == lab2[0]);
    lemma_differs(line, lab_page_tables(), 0);
    assert(line[0] == lab2[0]);
    lemma_differs(line, lab_nfs_unstable(), 0);
    assert(line[0] == lab2[0]);
    lemma_differs(line, lab_bounce(), 0);
    assert(line[0] == lab2[0]);
    lemma_differs(line, lab_commit_limit(), 0);
    assert(line[0] == lab2[0]);
    lemma_differs(line, lab_committed_as(), 0);
    assert(line[0] == lab2[0]);
    lemma_differs(line, lab_vmalloc_total(), 0);
    assert(line[0] == lab2[0]);
    lemma_differs(line, lab_vmalloc_used(), 0);
    assert(line[0] == lab2[0]);
    lemma_differs(line, lab_vmalloc_chunk(), 0);
    assert(line[1] == lab2[1]);
    lemma_differs(line, lab_hardware_corrupted(), 1);
    assert(line[0] == lab2[0]);
    lemma_differs(line, lab_anon_huge_pages(), 0);
    assert(line[0] == lab2[0]);
    lemma_differs(line, lab_cma_total(), 0);
    assert(line[0] == lab2[0]);
    lemma_differs(line, lab_cma_free(), 0);
    assert(line[10] == lab2[10]);
    lemma_differs(line, lab_huge_pages_total(), 10);
}

proof fn lemma_mem_line_huge_pages_rsvd(m: MemInfo, v: u64)
    ensures
        mem_line_update(m, mem_line(lab_huge_pages_rsvd(), v)) == Ok::<MemInfo, DecodeError>(
            MemInfo { huge_pages_rsvd: v, ..m },
        ),
        line_clean(mem_line(lab_huge_pages_rsvd(), v)),
{
    let lab2 = lab_huge_pages_rsvd().push(COLON);
    assert(token_clean(lab2));
    lemma_scalar_line(lab2, v);
    let line = mem_line(lab_huge_pages_rsvd(), v);
    assert forall|k: int| 0 <= k < lab_huge_pages_rsvd().len() implies #[trigger] line[k] == lab_huge_pages_rsvd()[k] by {
        assert(line[k] == lab2[k]);
    }
    assert(has_prefix(line, lab_huge_pages_rsvd()));
    assert(line[0] == lab2[0]);
    lemma_differs(line, lab_mem_total(), 0);
    assert(line[0] == lab2[0]);
    lemma_differs(line, lab_mem_free(), 0);
    assert(line[0] == lab2[0]);
    lemma_differs(line, lab_mem_available(), 0);
    assert(line[0] == lab2[0]);
    lemma_differs(line, lab_bufers(), 0);
    assert(line[0] == lab2[0]);
    lemma_differs(line, lab_cached(), 0);
    assert(line[0] == lab2[0]);
    lemma_differs(line, lab_swap_cached(), 0);
    assert(line[0] == lab2[0]);
    lemma_differs(line, lab_active_anon(), 0);
    assert(line[0] == lab2[0]);
    lemma_differs(line, lab_inactive_anon(), 0);
    assert(line[0] == lab2[0]);
    lemma_differs(line, lab_active_file(), 0);
    assert(line[0] == lab2[0]);
    lemma_differs(line, lab_inactive_file(), 0);
    assert(line[0] == lab2[0]);
    lemma_differs(line, lab_active(), 0);
    assert(line[0] == lab2[0]);
    lemma_differs(line, lab_inactive(), 0);
    assert(line[0] == lab2[0]);
    lemma_differs(line, lab_unevictable(), 0);
    assert(line[0] == lab2[0]);
    lemma_differs(line, lab_mlocked(), 0);
    assert(line[0] == lab2[0]);
    lemma_differs(line, lab_swap_total(), 0);
    assert(line[0] == lab2[0]);
    lemma_differs(line, lab_swap_free(), 0);
    assert(line[0] == lab2[0]);
    lemma_differs(line, lab_dirty(), 0);
    assert(line[0] == lab2[0]);
    lemma_differs(line, lab_writeback_tmp(), 0);
    assert(line[0] == lab2[0]);
    lemma_differs(line, lab_writeback(), 0);
    assert(line[0] == lab2[0]);
    lemma_differs(line, lab_anon_pages(), 0);
    assert(line[0] == lab2[0]);
    lemma_differs(line, lab_mapped(), 0);
    assert(line[0] == lab2[0]);
    lemma_differs(line, lab_shmem(), 0);
    assert(line[0] == lab2[0]);
    lemma_differs(line, lab_slab(), 0);
    assert(line[0] == lab2[0]);
    lemma_differs(line, lab_s_reclaimable(), 0);
    assert(line[0] == lab2[0]);
    lemma_differs(line, lab_s_unreclaim(), 0);
    assert(line[0] == lab2[0]);
    lemma_differs(line, lab_kernel_stack(), 0);
    assert(line[0] == lab2[0]);
    lemma_differs(line, lab_page_tables(), 0);
    assert(line[0] == lab2[0]);
    lemma_differs(line, lab_nfs_unstable(), 0);
    assert(line[0] == lab2[0]);
    lemma_differs(line, lab_bounce(), 0);
    assert(line[0] == lab2[0]);
    lemma_differs(line, lab_commit_limit(), 0);
    assert(line[0] == lab2[0]);
    lemma_differs(line, lab_committed_as(), 0);
    assert(line[0] == lab2[0]);
    lemma_differs(line, lab_vmalloc_total(), 0);
    assert(line[0] == lab2[0]);
    lemma_differs(line, lab_vmalloc_used(), 0);
    assert(line[0] == lab2[0]);
    lemma_differs(line, lab_vmalloc_chunk(), 0);
    assert(line[1] == lab2[1]);
    lemma_differs(line, lab_hardware_corrupted(), 1);
    assert(line[0] == lab2[0]);
    lemma_differs(line, lab_anon_huge_pages(), 0);
    assert(line[0] == lab2[0]);
    lemma_differs(line, lab_cma_total(), 0);
    assert(line[0] == lab2[0]);
    lemma_differs(line, lab_cma_free(), 0);
    assert(line[10] == lab2[10]);
    lemma_differs(line, lab_huge_pages_total(), 10);
    assert(line[10] == lab2[10]);
    lemma_differs(line, lab_huge_pages_free(), 10);
}

proof fn lemma_mem_line_huge_pages_surp(m: MemInfo, v: u64)
    ensures
        mem_line_update(m, mem_line(lab_huge_pages_surp(), v)) == Ok::<MemInfo, DecodeError>(
            MemInfo { huge_pages_surp: v, ..m },
        ),
        line_clean(mem_line(lab_huge_pages_surp(), v)),
{
    let lab2 = lab_huge_pages_surp().push(COLON);
    assert(token_clean(lab2));
    lemma_scalar_line(lab2, v);
    let line = mem_line(lab_huge_pages_surp(), v);
    assert forall|k: int| 0 <= k < lab_huge_pages_surp().len() implies #[trigger] line[k] == lab_huge_pages_surp()[k] by {
        assert(line[k] == lab2[k]);
    }
    assert(has_prefix(line, lab_huge_pages_surp()));
    assert(line[0] == lab2[0]);
    lemma_differs(line, lab_mem_total(), 0);
    assert(line[0] == lab2[0]);
    lemma_differs(line, lab_mem_free(), 0);
    assert(line[0] == lab2[0]);
    lemma_differs(line, lab_mem_available(), 0);
    assert(line[0] == lab2[0]);
    lemma_differs(line, lab_bufers(), 0);
    assert(line[0] == lab2[0]);
    lemma_differs(line, lab_cached(), 0);
    assert(line[0] == lab2[0]);
    lemma_differs(line, lab_swap_cached(), 0);
    assert(line[0] == lab2[0]);
    lemma_differs(line, lab_active_anon(), 0);
    assert(line[0] == lab2[0]);
    lemma_differs(line, lab_inactive_anon(), 0);
    assert(line[0] == lab2[0]);
    lemma_differs(line, lab_active_file(), 0);
    assert(line[0] == lab2[0]);
    lemma_differs(line, lab_inactive_file(), 0);
    assert(line[0] == lab2[0]);
    lemma_differs(line, lab_active(), 0);
    assert(line[0] == lab2[0]);
    lemma_differs(line, lab_inactive(), 0);
    assert(line[0] == lab2[0]);
    lemma_differs(line, lab_unevictable(), 0);
    assert(line[0] == lab2[0]);
    lemma_differs(line, lab_mlocked(), 0);
    assert(line[0] == lab2[0]);
    lemma_differs(line, lab_swap_total(), 0);
    assert(line[0] == lab2[0]);
    lemma_differs(line, lab_swap_free(), 0);
    assert(line[0] == lab2[0]);
    lemma_differs(line, lab_dirty(), 0);
    assert(line[0] == lab2[0]);
    lemma_differs(line, lab_writeback_tmp(), 0);
    assert(line[0] == lab2[0]);
    lemma_differs(line, lab_writeback(), 0);
    assert(line[0] == lab2[0]);
    lemma_differs(line, lab_anon_pages(), 0);
    assert(line[0] == lab2[0]);
    lemma_differs(line, lab_mapped(), 0);
    assert(line[0] == lab2[0]);
    lemma_differs(line, lab_shmem(), 0);
    assert(line[0] == lab2[0]);
    lemma_differs(line, lab_slab(), 0);
    assert(line[0] == lab2[0]);
    lemma_differs(line, lab_s_reclaimable(), 0);
    assert(line[0] == lab2[0]);
    lemma_differs(line, lab_s_unreclaim(), 0);
    assert(line[0] == lab2[0]);
    lemma_differs(line, lab_kernel_stack(), 0);
    assert(line[0] == lab2[0]);
    lemma_differs(line, lab_page_tables(), 0);
    assert(line[0] == lab2[0]);
    lemma_differs(line, lab_nfs_unstable(), 0);
    assert(line[0] == lab2[0]);
    lemma_differs(line, lab_bounce(), 0);
    assert(line[0] == lab2[0]);
    lemma_differs(line, lab_commit_limit(), 0);
    assert(line[0] == lab2[0]);
    lemma_differs(line, lab_committed_as(), 0);
    assert(line[0] == lab2[0]);
    lemma_differs(line, lab_vmalloc_total(), 0);
    assert(line[0] == lab2[0]);
    lemma_differs(line, lab_vmalloc_used(), 0);
    assert(line[0] == lab2[0]);
    lemma_differs(line, lab_vmalloc_chunk(), 0);
    assert(line[1] == lab2[1]);
    lemma_differs(line, lab_hardware_corrupted(), 1);
    assert(line[0] == lab2[0]);
    lemma_differs(line, lab_anon_huge_pages(), 0);
    assert(line[0] == lab2[0]);
    lemma_differs(line, lab_cma_total(), 0);
    assert(line[0] == lab2[0]);
    lemma_differs(line, lab_cma_free(), 0);
    assert(line[10] == lab2[10]);
    lemma_differs(line, lab_huge_pages_total(), 10);
    assert(line[10] == lab2[10]);
    lemma_differs(line, lab_huge_pages_free(), 10);
    assert(line[10] == lab2[10]);
    lemma_differs(line, lab_huge_pages_rsvd(), 10);
}

proof fn lemma_mem_line_hugepagesize(m: MemInfo, v: u64)
    ensures
        mem_line_update(m, mem_line(lab_hugepagesize(), v)) == Ok::<MemInfo, DecodeError>(
            MemInfo { hugepagesize: v, ..m },
        ),
        line_clean(mem_line(lab_hugepagesize(), v)),
{
    let lab2 = lab_hugepagesize().push(COLON);
    assert(token_clean(lab2));
    lemma_scalar_line(lab2, v);
    let line = mem_line(lab_hugepagesize(), v);
    assert forall|k: int| 0 <= k < lab_hugepagesize().len() implies #[trigger] line[k] == lab_hugepagesize()[k] by {
        assert(line[k] == lab2[k]);
    }
    assert(has_prefix(line, lab_hugepagesize()));
    assert(line[0] == lab2[0]);
    lemma_differs(line, lab_mem_total(), 0);
    assert(line[0] == lab2[0]);
    lemma_differs(line, lab_mem_free(), 0);
    assert(line[0] == lab2[0]);
    lemma_differs(line, lab_mem_available(), 0);
    assert(line[0] == lab2[0]);
    lemma_differs(line, lab_bufers(), 0);
    assert(line[0] == lab2[0]);
    lemma_differs(line, lab_cached(), 0);
    assert(line[0] == lab2[0]);
    lemma_differs(line, lab_swap_cached(), 0);
    assert(line[0] == lab2[0]);
    lemma_differs(line, lab_active_anon(), 0);
    assert(line[0] == lab2[0]);
    lemma_differs(line, lab_inactive_anon(), 0);
    assert(line[0] == lab2[0]);
    lemma_differs(line, lab_active_file(), 0);
    assert(line[0] == lab2[0]);
    lemma_differs(line, lab_inactive_file(), 0);
    assert(line[0] == lab2[0]);
    lemma_differs(line, lab_active(), 0);
    assert(line[0] == lab2[0]);
    lemma_differs(line, lab_inactive(), 0);
    assert(line[0] == lab2[0]);
    lemma_differs(line, lab_unevictable(), 0);
    assert(line[0] == lab2[0]);
    lemma_differs(line, lab_mlocked(), 0);
    assert(line[0] == lab2[0]);
    lemma_differs(line, lab_swap_total(), 0);
    assert(line[0] == lab2[0]);
    lemma_differs(line, lab_swap_free(), 0);
    assert(line[0] == lab2[0]);
    lemma_differs(line, lab_dirty(), 0);
    assert(line[0] == lab2[0]);
    lemma_differs(line, lab_writeback_tmp(), 0);
    assert(line[0] == lab2[0]);
    lemma_differs(line, lab_writeback(), 0);
    assert(line[0] == lab2[0]);
    lemma_differs(line, lab_anon_pages(), 0);
    assert(line[0] == lab2[0]);
    lemma_differs(line, lab_mapped(), 0);
    assert(line[0] == lab2[0]);
    lemma_differs(line, lab_shmem(), 0);
    assert(line[0] == lab2[0]);
    lemma_differs(line, lab_slab(), 0);
    assert(line[0] == lab2[0]);
    lemma_differs(line, lab_s_reclaimable(), 0);
    assert(line[0] == lab2[0]);
    lemma_differs(line, lab_s_unreclaim(), 0);
    assert(line[0] == lab2[0]);
    lemma_differs(line, lab_kernel_stack(), 0);
    assert(line[0] == lab2[0]);
    lemma_differs(line, lab_page_tables(), 0);
    assert(line[0] == lab2[0]);
    lemma_differs(line, lab_nfs_unstable(), 0);
    assert(line[0] == lab2[0]);
    lemma_differs(line, lab_bounce(), 0);
    assert(line[0] == lab2[0]);
    lemma_differs(line, lab_commit_limit(), 0);
    assert(line[0] == lab2[0]);
    lemma_differs(line, lab_committed_as(), 0);
    assert(line[0] == lab2[0]);
    lemma_differs(line, lab_vmalloc_total(), 0);
    assert(line[0] == lab2[0]);
    lemma_differs(line, lab_vmalloc_used(), 0);
    assert(line[0] == lab2[0]);
    lemma_differs(line, lab_vmalloc_chunk(), 0);
    assert(line[1] == lab2[1]);
    lemma_differs(line, lab_hardware_corrupted(), 1);
    assert(line[0] == lab2[0]);
    lemma_differs(line, lab_anon_huge_pages(), 0);
    assert(line[0] == lab2[0]);
    lemma_differs(line, lab_cma_total(), 0);
    assert(line[0] == lab2[0]);
    lemma_differs(line, lab_cma_free(), 0);
    assert(line[4] == lab2[4]);
    lemma_differs(line, lab_huge_pages_total(), 4);
    assert(line[4] == lab2[4]);
    lemma_differs(line, lab_huge_pages_free(), 4);
    assert(line[4] == lab2[4]);
    lemma_differs(line, lab_huge_pages_rsvd(), 4);
    assert(line[4] == lab2[4]);
    lemma_differs(line, lab_huge_pages_surp(), 4);
}

proof fn lemma_mem_line_direct_map_4k(m: MemInfo, v: u64)
    ensures
        mem_line_update(m, mem_line(lab_direct_map_4k(), v)) == Ok::<MemInfo, DecodeError>(
            MemInfo { direct_map_4k: v, ..m },
        ),
        line_clean(mem_line(lab_direct_map_4k(), v)),
{
    let lab2 = lab_direct_map_4k().push(COLON);
    assert(token_clean(lab2));
    lemma_scalar_line(lab2, v);
    let line = mem_line(lab_direct_map_4k(), v);
    assert forall|k: int| 0 <= k < lab_direct_map_4k().len() implies #[trigger] line[k] == lab_direct_map_4k()[k] by {
        assert(line[k] == lab2[k]);
    }
    assert(has_prefix(line, lab_direct_map_4k()));
    assert(line[0] == lab2[0]);
    lemma_differs(line, lab_mem_total(), 0);
    assert(line[0] == lab2[0]);
    lemma_differs(line, lab_mem_free(), 0);
    assert(line[0] == lab2[0]);
    lemma_differs(line, lab_mem_available(), 0);
    assert(line[0] == lab2[0]);
    lemma_differs(line, lab_bufers(), 0);
    assert(line[0] == lab2[0]);
    lemma_differs(line, lab_cached(), 0);
    assert(line[0] == lab2[0]);
    lemma_differs(line, lab_swap_cached(), 0);
    assert(line[0] == lab2[0]);
    lemma_differs(line, lab_active_anon(), 0);
    assert(line[0] == lab2[0]);
    lemma_differs(line, lab_inactive_anon(), 0);
    assert(line[0] == lab2[0]);
    lemma_differs(line, lab_active_file(), 0);
    assert(line[0] == lab2[0]);
    lemma_differs(line, lab_inactive_file(), 0);
    assert(line[0] == lab2[0]);
    lemma_differs(line, lab_active(), 0);
    assert(line[0] == lab2[0]);
    lemma_differs(line, lab_inactive(), 0);
    assert(line[0] == lab2[0]);
    lemma_differs(line, lab_unevictable(), 0);
    assert(line[0] == lab2[0]);
    lemma_differs(line, lab_mlocked(), 0);
    assert(line[0] == lab2[0]);
    lemma_differs(line, lab_swap_total(), 0);
    assert(line[0] == lab2[0]);
    lemma_differs(line, lab_swap_free(), 0);
    assert(line[3] == lab2[3]);
    lemma_differs(line, lab_dirty(), 3);
    assert(line[0] == lab2[0]);
    lemma_differs(line, lab_writeback_tmp(), 0);
    assert(line[0] == lab2[0]);
    lemma_differs(line, lab_writeback(), 0);
    assert(line[0] == lab2[0]);
    lemma_differs(line, lab_anon_pages(), 0);
    assert(line[0] == lab2[0]);
    lemma_differs(line, lab_mapped(), 0);
    assert(line[0] == lab2[0]);
    lemma_differs(line, lab_shmem(), 0);
    assert(line[0] == lab2[0]);
    lemma_differs(line, lab_slab(), 0);
    assert(line[0] == lab2[0]);
    lemma_differs(line, lab_s_reclaimable(), 0);
    assert(line[0] == lab2[0]);
    lemma_differs(line, lab_s_unreclaim(), 0);
    assert(line[0] == lab2[0]);
    lemma_differs(line, lab_kernel_stack(), 0);
    assert(line[0] == lab2[0]);
    lemma_differs(line, lab_page_tables(), 0);
    assert(line[0] == lab2[0]);
    lemma_differs(line, lab_nfs_unstable(), 0);
    assert(line[0] == lab2[0]);
    lemma_differs(line, lab_bounce(), 0);
    assert(line[0] == lab2[0]);
    lemma_differs(line, lab_commit_limit(), 0);
    assert(line[0] == lab2[0]);
    lemma_differs(line, lab_committed_as(), 0);
    assert(line[0] == lab2[0]);
    lemma_differs(line, lab_vmalloc_total(), 0);
    assert(line[0] == lab2[0]);
    lemma_differs(line, lab_vmalloc_used(), 0);
    assert(line[0] == lab2[0]);
    lemma_differs(line, lab_vmalloc_chunk(), 0);
    assert(line[0] == lab2[0]);
    lemma_differs(line, lab_hardware_corrupted(), 0);
    assert(line[0] == lab2[0]);
    lemma_differs(line, lab_anon_huge_pages(), 0);
    assert(line[0] == lab2[0]);
    lemma_differs(line, lab_cma_total(), 0);
    assert(line[0] == lab2[0]);
    lemma_differs(line, lab_cma_free(), 0);
    assert(line[0] == lab2[0]);
    lemma_differs(line, lab_huge_pages_total(), 0);
    assert(line[0] == lab2[0]);
    lemma_differs(line, lab_huge_pages_free(), 0);
    assert(line[0] == lab2[0]);
    lemma_differs(line, lab_huge_pages_rsvd(), 0);
    assert(line[0] == lab2[0]);
    lemma_differs(line, lab_huge_pages_surp(), 0);
    assert(line[0] == lab2[0]);
    lemma_differs(line, lab_hugepagesize(), 0);
}

proof fn lemma_mem_line_direct_map_2m(m: MemInfo, v: u64)
    ensures
        mem_line_update(m, mem_line(lab_direct_map_2m(), v)) == Ok::<MemInfo, DecodeError>(
            MemInfo { direct_map_2m: v, ..m },
        ),
        line_clean(mem_line(lab_direct_map_2m(), v)),
{
    let lab2 = lab_direct_map_2m().push(COLON);
    assert(token_clean(lab2));
    lemma_scalar_line(lab2, v);
    let line = mem_line(lab_direct_map_2m(), v);
    assert forall|k: int| 0 <= k < lab_direct_map_2m().len() implies #[trigger] line[k] == lab_direct_map_2m()[k] by {
        assert(line[k] == lab2[k]);
    }
    assert(has_prefix(line, lab_direct_map_2m()));
    assert(line[0] == lab2[0]);
    lemma_differs(line, lab_mem_total(), 0);
    assert(line[0] == lab2[0]);
    lemma_differs(line, lab_mem_free(), 0);
    assert(line[0] == lab2[0]);
    lemma_differs(line, lab_mem_available(), 0);
    assert(line[0] == lab2[0]);
    lemma_differs(line, lab_bufers(), 0);
    assert(line[0] == lab2[0]);
    lemma_differs(line, lab_cached(), 0);
    assert(line[0] == lab2[0]);
    lemma_differs(line, lab_swap_cached(), 0);
    assert(line[0] == lab2[0]);
    lemma_differs(line, lab_active_anon(), 0);
    assert(line[0] == lab2[0]);
    lemma_differs(line, lab_inactive_anon(), 0);
    assert(line[0] == lab2[0]);
    lemma_differs(line, lab_active_file(), 0);
    assert(line[0] == lab2[0]);
    lemma_differs(line, lab_inactive_file(), 0);
    assert(line[0] == lab2[0]);
    lemma_differs(line, lab_active(), 0);
    assert(line[0] == lab2[0]);
    lemma_differs(line, lab_inactive(), 0);
    assert(line[0] == lab2[0]);
    lemma_differs(line, lab_unevictable(), 0);
    assert(line[0] == lab2[0]);
    lemma_differs(line, lab_mlocked(), 0);
    assert(line[0] == lab2[0]);
    lemma_differs(line, lab_swap_total(), 0);
    assert(line[0] == lab2[0]);
    lemma_differs(line, lab_swap_free(), 0);
    assert(line[3] == lab2[3]);
    lemma_differs(line, lab_dirty(), 3);
    assert(line[0] == lab2[0]);
    lemma_differs(line, lab_writeback_tmp(), 0);
    assert(line[0] == lab2[0]);
    lemma_differs(line, lab_writeback(), 0);
    assert(line[0] == lab2[0]);
    lemma_differs(line, lab_anon_pages(), 0);
    assert(line[0] == lab2[0]);
    lemma_differs(line, lab_mapped(), 0);
    assert(line[0] == lab2[0]);
    lemma_differs(line, lab_shmem(), 0);
    assert(line[0] == lab2[0]);
    lemma_differs(line, lab_slab(), 0);
    assert(line[0] == lab2[0]);
    lemma_differs(line, lab_s_reclaimable(), 0);
    assert(line[0] == lab2[0]);
    lemma_differs(line, lab_s_unreclaim(), 0);
    assert(line[0] == lab2[0]);
    lemma_differs(line, lab_kernel_stack(), 0);
    assert(line[0] == lab2[0]);
    lemma_differs(line, lab_page_tables(), 0);
    assert(line[0] == lab2[0]);
    lemma_differs(line, lab_nfs_unstable(), 0);
    assert(line[0] == lab2[0]);
    lemma_differs(line, lab_bounce(), 0);
    assert(line[0] == lab2[0]);
    lemma_differs(line, lab_commit_limit(), 0);
    assert(line[0] == lab2[0]);
    lemma_differs(line, lab_committed_as(), 0);
    assert(line[0] == lab2[0]);
    lemma_differs(line, lab_vmalloc_total(), 0);
    assert(line[0] == lab2[0]);
    lemma_differs(line, lab_vmalloc_used(), 0);
    assert(line[0] == lab2[0]);
    lemma_differs(line, lab_vmalloc_chunk(), 0);
    assert(line[0] == lab2[0]);
    lemma_differs(line, lab_hardware_corrupted(), 0);
    assert(line[0] == lab2[0]);
    lemma_differs(line, lab_anon_huge_pages(), 0);
    assert(line[0] == lab2[0]);
    lemma_differs(line, lab_cma_total(), 0);
    assert(line[0] == lab2[0]);
    lemma_differs(line, lab_cma_free(), 0);
    assert(line[0] == lab2[0]);
    lemma_differs(line, lab_huge_pages_total(), 0);
    assert(line[0] == lab2[0]);
    lemma_differs(line, lab_huge_pages_free(), 0);
    assert(line[0] == lab2[0]);
    lemma_differs(line, lab_huge_pages_rsvd(), 0);
    assert(line[0] == lab2[0]);
    lemma_differs(line, lab_huge_pages_surp(), 0);
    assert(line[0] == lab2[0]);
    lemma_differs(line, lab_hugepagesize(), 0);
    assert(line[9] == lab2[9]);
    lemma_differs(line, lab_direct_map_4k(), 9);
}

/// Decoding the canonical text of any record recovers the record exactly,
/// field for field.
#[verifier::rlimit(100)]
#[verifier::spinoff_prover]
pub proof fn lemma_meminfo_round_trip(m: MemInfo)
    ensures
        spec_meminfo(canon_meminfo(m)) == Ok::<MemInfo, DecodeError>(m),
{
    let ls = canon_mem_lines(m);
    let m0 = meminfo_zero();
    lemma_mem_line_mem_total(m0, m.mem_total);
    let m1 = MemInfo { mem_total: m.mem_total, ..m0 };
    assert(ls.skip(0)[0] == ls[0]);
    assert(ls.skip(0).drop_first() =~= ls.skip(1));
    assert(mem_go(ls.skip(0), m0) == mem_go(ls.skip(1), m1));
    lemma_mem_line_mem_free(m1, m.mem_free);
    let m2 = MemInfo { mem_free: m.mem_free, ..m1 };
    assert(ls.skip(1)[0] == ls[1]);
    assert(ls.skip(1).drop_first() =~= ls.skip(2));
    assert(mem_go(ls.skip(1), m1) == mem_go(ls.skip(2), m2));
    lemma_mem_line_mem_available(m2, m.mem_available);
    let m3 = MemInfo { mem_available: m.mem_available, ..m2 };
    assert(ls.skip(2)[0] == ls[2]);
    assert(ls.skip(2).drop_first() =~= ls.skip(3));
    assert(mem_go(ls.skip(2), m2) == mem_go(ls.skip(3), m3));
    lemma_mem_line_bufers(m3, m.bufers);
    let m4 = MemInfo { bufers: m.bufers, ..m3 };
    assert(ls.skip(3)[0] == ls[3]);
    assert(ls.skip(3).drop_first() =~= ls.skip(4));
    assert(mem_go(ls.skip(3), m3) == mem_go(ls.skip(4), m4));
    lemma_mem_line_cached(m4, m.cached);
    let m5 = MemInfo { cached: m.cached, ..m4 };
    assert(ls.skip(4)[0] == ls[4]);
    assert(ls.skip(4).drop_first() =~= ls.skip(5));
    assert(mem_go(ls.skip(4), m4) == mem_go(ls.skip(5), m5));
    lemma_mem_line_swap_cached(m5, m.swap_cached);
    let m6 = MemInfo { swap_cached: m.swap_cached, ..m5 };
    assert(ls.skip(5)[0] == ls[5]);
    assert(ls.skip(5).drop_first() =~= ls.skip(6));
    assert(mem_go(ls.skip(5), m5) == mem_go(ls.skip(6), m6));
    lemma_mem_line_active_anon(m6, m.active_anon);
    let m7 = MemInfo { active_anon: m.active_anon, ..m6 };
    assert(ls.skip(6)[0] == ls[6]);
    assert(ls.skip(6).drop_first() =~= ls.skip(7));
    assert(mem_go(ls.skip(6), m6) == mem_go(ls.skip(7), m7));
    lemma_mem_line_inactive_anon(m7, m.inactive_anon);
    let m8 = MemInfo { inactive_anon: m.inactive_anon, ..m7 };
    assert(ls.skip(7)[0] == ls[7]);
    assert(ls.skip(7).drop_first() =~= ls.skip(8));
    assert(mem_go(ls.skip(7), m7) == mem_go(ls.skip(8), m8));
    lemma_mem_line_active_file(m8, m.active_file);
    let m9 = MemInfo { active_file: m.active_file, ..m8 };
    assert(ls.skip(8)[0] == ls[8]);
    assert(ls.skip(8).drop_first() =~= ls.skip(9));
    assert(mem_go(ls.skip(8), m8) == mem_go(ls.skip(9), m9));
    lemma_mem_line_inactive_file(m9, m.inactive_file);
    let m10 = MemInfo { inactive_file: m.inactive_file, ..m9 };
    assert(ls.skip(9)[0] == ls[9]);
    assert(ls.skip(9).drop_first() =~= ls.skip(10));
    assert(mem_go(ls.skip(9), m9) == mem_go(ls.skip(10), m10));
    lemma_mem_line_active(m10, m.active);
    let m11 = MemInfo { active: m.active, ..m10 };
    assert(ls.skip(10)[0] == ls[10]);
    assert(ls.skip(10).drop_first() =~= ls.skip(11));
    assert(mem_go(ls.skip(10), m10) == mem_go(ls.skip(11), m11));
    lemma_mem_line_inactive(m11, m.inactive);
    let m12 = MemInfo { inactive: m.inactive, ..m11 };
    assert(ls.skip(11)[0] == ls[11]);
    assert(ls.skip(11).drop_first() =~= ls.skip(12));
    assert(mem_go(ls.skip(11), m11) == mem_go(ls.skip(12), m12));
    lemma_mem_line_unevictable(m12, m.unevictable);
    let m13 = MemInfo { unevictable: m.unevictable, ..m12 };
    assert(ls.skip(12)[0] == ls[12]);
    assert(ls.skip(12).drop_first() =~= ls.skip(13));
    assert(mem_go(ls.skip(12), m12) == mem_go(ls.skip(13), m13));
    lemma_mem_line_mlocked(m13, m.mlocked);
    let m14 = MemInfo { mlocked: m.mlocked, ..m13 };
    assert(ls.skip(13)[0] == ls[13]);
    assert(ls.skip(13).drop_first() =~= ls.skip(14));
    assert(mem_go(ls.skip(13), m13) == mem_go(ls.skip(14), m14));
    lemma_mem_line_swap_total(m14, m.swap_total);
    let m15 = MemInfo { swap_total: m.swap_total, ..m14 };
    assert(ls.skip(14)[0] == ls[14]);
    assert(ls.skip(14).drop_first() =~= ls.skip(15));
    assert(mem_go(ls.skip(14), m14) == mem_go(ls.skip(15), m15));
    lemma_mem_line_swap_free(m15, m.swap_free);
    let m16 = MemInfo { swap_free: m.swap_free, ..m15 };
    assert(ls.skip(15)[0] == ls[15]);
    assert(ls.skip(15).drop_first() =~= ls.skip(16));
    assert(mem_go(ls.skip(15), m15) == mem_go(ls.skip(16), m16));
    lemma_mem_line_dirty(m16, m.dirty);
    let m17 = MemInfo { dirty: m.dirty, ..m16 };
    assert(ls.skip(16)[0] == ls[16]);
    assert(ls.skip(16).drop_first() =~= ls.skip(17));
    assert(mem_go(ls.skip(16), m16) == mem_go(ls.skip(17), m17));
    lemma_mem_line_writeback_tmp(m17, m.writeback_tmp);
    let m18 = MemInfo { writeback_tmp: m.writeback_tmp, ..m17 };
    assert(ls.skip(17)[0] == ls[17]);
    assert(ls.skip(17).drop_first() =~= ls.skip(18));
    assert(mem_go(ls.skip(17), m17) == mem_go(ls.skip(18), m18));
    lemma_mem_line_writeback(m18, m.writeback);
    let m19 = MemInfo { writeback: m.writeback, ..m18 };
    assert(ls.skip(18)[0] == ls[18]);
    assert(ls.skip(18).drop_first() =~= ls.skip(19));
    assert(mem_go(ls.skip(18), m18) == mem_go(ls.skip(19), m19));
    lemma_mem_line_anon_pages(m19, m.anon_pages);
    let m20 = MemInfo { anon_pages: m.anon_pages, ..m19 };
    assert(ls.skip(19)[0] == ls[19]);
    assert(ls.skip(19).drop_first() =~= ls.skip(20));
    assert(mem_go(ls.skip(19), m19) == mem_go(ls.skip(20), m20));
    lemma_mem_line_mapped(m20, m.mapped);
    let m21 = MemInfo { mapped: m.mapped, ..m20 };
    assert(ls.skip(20)[0] == ls[20]);
    assert(ls.skip(20).drop_first() =~= ls.skip(21));
    assert(mem_go(ls.skip(20), m20) == mem_go(ls.skip(21), m21));
    lemma_mem_line_shmem(m21, m.shmem);
    let m22 = MemInfo { shmem: m.shmem, ..m21 };
    assert(ls.skip(21)[0] == ls[21]);
    assert(ls.skip(21).drop_first() =~= ls.skip(22));
    assert(mem_go(ls.skip(21), m21) == mem_go(ls.skip(22), m22));
    lemma_mem_line_slab(m22, m.slab);
    let m23 = MemInfo { slab: m.slab, ..m22 };
    assert(ls.skip(22)[0] == ls[22]);
    assert(ls.skip(22).drop_first() =~= ls.skip(23));
    assert(mem_go(ls.skip(22), m22) == mem_go(ls.skip(23), m23));
    lemma_mem_line_s_reclaimable(m23, m.s_reclaimable);
    let m24 = MemInfo { s_reclaimable: m.s_reclaimable, ..m23 };
    assert(ls.skip(23)[0] == ls[23]);
    assert(ls.skip(23).drop_first() =~= ls.skip(24));
    assert(mem_go(ls.skip(23), m23) == mem_go(ls.skip(24), m24));
    lemma_mem_line_s_unreclaim(m24, m.s_unreclaim);
    let m25 = MemInfo { s_unreclaim: m.s_unreclaim, ..m24 };
    assert(ls.skip(24)[0] == ls[24]);
    assert(ls.skip(24).drop_first() =~= ls.skip(25));
    assert(mem_go(ls.skip(24), m24) == mem_go(ls.skip(25), m25));
    lemma_mem_line_kernel_stack(m25, m.kernel_stack);
    let m26 = MemInfo { kernel_stack: m.kernel_stack, ..m25 };
    assert(ls.skip(25)[0] == ls[25]);
    assert(ls.skip(25).drop_first() =~= ls.skip(26));
    assert(mem_go(ls.skip(25), m25) == mem_go(ls.skip(26), m26));
    lemma_mem_line_page_tables(m26, m.page_tables);
    let m27 = MemInfo { page_tables: m.page_tables, ..m26 };
    assert(ls.skip(26)[0] == ls[26]);
    assert(ls.skip(26).drop_first() =~= ls.skip(27));
    assert(mem_go(ls.skip(26), m26) == mem_go(ls.skip(27), m27));
    lemma_mem_line_nfs_unstable(m27, m.nfs_unstable);
    let m28 = MemInfo { nfs_unstable: m.nfs_unstable, ..m27 };
    assert(ls.skip(27)[0] == ls[27]);
    assert(ls.skip(27).drop_first() =~= ls.skip(28));
    assert(mem_go(ls.skip(27), m27) == mem_go(ls.skip(28), m28));
    lemma_mem_line_bounce(m28, m.bounce);
    let m29 = MemInfo { bounce: m.bounce, ..m28 };
    assert(ls.skip(28)[0] == ls[28]);
    assert(ls.skip(28).drop_first() =~= ls.skip(29));
    assert(mem_go(ls.skip(28), m28) == mem_go(ls.skip(29), m29));
    lemma_mem_line_commit_limit(m29, m.commit_limit);
    let m30 = MemInfo { commit_limit: m.commit_limit, ..m29 };
    assert(ls.skip(29)[0] == ls[29]);
    assert(ls.skip(29).drop_first() =~= ls.skip(30));
    assert(mem_go(ls.skip(29), m29) == mem_go(ls.skip(30), m30));
    lemma_mem_line_committed_as(m30, m.committed_as);
    let m31 = MemInfo { committed_as: m.committed_as, ..m30 };
    assert(ls.skip(30)[0] == ls[30]);
    assert(ls.skip(30).drop_first() =~= ls.skip(31));
    assert(mem_go(ls.skip(30), m30) == mem_go(ls.skip(31), m31));
    lemma_mem_line_vmalloc_total(m31, m.vmalloc_total);
    let m32 = MemInfo { vmalloc_total: m.vmalloc_total, ..m31 };
    assert(ls.skip(31)[0] == ls[31]);
    assert(ls.skip(31).drop_first() =~= ls.skip(32));
    assert(mem_go(ls.skip(31), m31) == mem_go(ls.skip(32), m32));
    lemma_mem_line_vmalloc_used(m32, m.vmalloc_used);
    let m33 = MemInfo { vmalloc_used: m.vmalloc_used, ..m32 };
    assert(ls.skip(32)[0] == ls[32]);
    assert(ls.skip(32).drop_first() =~= ls.skip(33));
    assert(mem_go(ls.skip(32), m32) == mem_go(ls.skip(33), m33));
    lemma_mem_line_vmalloc_chunk(m33, m.vmalloc_chunk);
    let m34 = MemInfo { vmalloc_chunk: m.vmalloc_chunk, ..m33 };
    assert(ls.skip(33)[0] == ls[33]);
    assert(ls.skip(33).drop_first() =~= ls.skip(34));
    assert(mem_go(ls.skip(33), m33) == mem_go(ls.skip(34), m34));
    lemma_mem_line_hardware_corrupted(m34, m.hardware_corrupted);
    let m35 = MemInfo { hardware_corrupted: m.hardware_corrupted, ..m34 };
    assert(ls.skip(34)[0] == ls[34]);
    assert(ls.skip(34).drop_first() =~= ls.skip(35));
    assert(mem_go(ls.skip(34), m34) == mem_go(ls.skip(35), m35));
    lemma_mem_line_anon_huge_pages(m35, m.anon_huge_pages);
    let m36 = MemInfo { anon_huge_pages: m.anon_huge_pages, ..m35 };
    assert(ls.skip(35)[0] == ls[35]);
    assert(ls.skip(35).drop_first() =~= ls.skip(36));
    assert(mem_go(ls.skip(35), m35) == mem_go(ls.skip(36), m36));
    lemma_mem_line_cma_total(m36, m.cma_total);
    let m37 = MemInfo { cma_total: m.cma_total, ..m36 };
    assert(ls.skip(36)[0] == ls[36]);
    assert(ls.skip(36).drop_first() =~= ls.skip(37));
    assert(mem_go(ls.skip(36), m36) == mem_go(ls.skip(37), m37));
    lemma_mem_line_cma_free(m37, m.cma_free);
    let m38 = MemInfo { cma_free: m.cma_free, ..m37 };
    assert(ls.skip(37)[0] == ls[37]);
    assert(ls.skip(37).drop_first() =~= ls.skip(38));
    assert(mem_go(ls.skip(37), m37) == mem_go(ls.skip(38), m38));
    lemma_mem_line_huge_pages_total(m38, m.huge_pages_total);
    let m39 = MemInfo { huge_pages_total: m.huge_pages_total, ..m38 };
    assert(ls.skip(38)[0] == ls[38]);
    assert(ls.skip(38).drop_first() =~= ls.skip(39));
    assert(mem_go(ls.skip(38), m38) == mem_go(ls.skip(39), m39));
    lemma_mem_line_huge_pages_free(m39, m.huge_pages_free);
    let m40 = MemInfo { huge_pages_free: m.huge_pages_free, ..m39 };
    assert(ls.skip(39)[0] == ls[39]);
    assert(ls.skip(39).drop_first() =~= ls.skip(40));
    assert(mem_go(ls.skip(39), m39) == mem_go(ls.skip(40), m40));
    lemma_mem_line_huge_pages_rsvd(m40, m.huge_pages_rsvd);
    let m41 = MemInfo { huge_pages_rsvd: m.huge_pages_rsvd, ..m40 };
    assert(ls.skip(40)[0] == ls[40]);
    assert(ls.skip(40).drop_first() =~= ls.skip(41));
    assert(mem_go(ls.skip(40), m40) == mem_go(ls.skip(41), m41));
    lemma_mem_line_huge_pages_surp(m41, m.huge_pages_surp);
    let m42 = MemInfo { huge_pages_surp: m.huge_pages_surp, ..m41 };
    assert(ls.skip(41)[0] == ls[41]);
    assert(ls.skip(41).drop_first() =~= ls.skip(42));
    assert(mem_go(ls.skip(41), m41) == mem_go(ls.skip(42), m42));
    lemma_mem_line_hugepagesize(m42, m.hugepagesize);
    let m43 = MemInfo { hugepagesize: m.hugepagesize, ..m42 };
    assert(ls.skip(42)[0] == ls[42]);
    assert(ls.skip(42).drop_first() =~= ls.skip(43));
    assert(mem_go(ls.skip(42), m42) == mem_go(ls.skip(43), m43));
    lemma_mem_line_direct_map_4k(m43, m.direct_map_4k);
    let m44 = MemInfo { direct_map_4k: m.direct_map_4k, ..m43 };
    assert(ls.skip(43)[0] == ls[43]);
    assert(ls.skip(43).drop_first() =~= ls.skip(44));
    assert(mem_go(ls.skip(43), m43) == mem_go(ls.skip(44), m44));
    lemma_mem_line_direct_map_2m(m44, m.direct_map_2m);
    let m45 = MemInfo { direct_map_2m: m.direct_map_2m, ..m44 };
    assert(ls.skip(44)[0] == ls[44]);
    assert(ls.skip(44).drop_first() =~= ls.skip(45));
    assert(mem_go(ls.skip(44), m44) == mem_go(ls.skip(45), m45));
    assert(ls.skip(45) =~= Seq::<Seq<u8>>::empty());
    assert(mem_go(ls.skip(45), m45) == Ok::<MemInfo, DecodeError>(m45));
    assert(m45 =~= m);
    assert forall|i: int| 0 <= i < ls.len() implies line_clean(#[trigger] ls[i]) by {
    }
    lemma_nl_join_lines(ls);
    assert(lines_of(canon_meminfo(m)) == ls);
    assert(ls.skip(0) =~= ls);
    assert(mem_go(ls, m0) == Ok::<MemInfo, DecodeError>(m));
}

/// Render the canonical text of a memory report.
pub fn meminfo_text(m: &MemInfo) -> (r: Vec<u8>)
    ensures
        r@ == canon_meminfo(*m),
{
    let mut lines: Vec<Vec<u8>> = Vec::new();
    let lab_mem_total_c: [u8; 9] = ['M' as u8, 'e' as u8, 'm' as u8, 'T' as u8, 'o' as u8, 't' as u8, 'a' as u8, 'l' as u8, ':' as u8];
    let lab_mem_free_c: [u8; 8] = ['M' as u8, 'e' as u8, 'm' as u8, 'F' as u8, 'r' as u8, 'e' as u8, 'e' as u8, ':' as u8];
    let lab_mem_available_c: [u8; 13] = ['M' as u8, 'e' as u8, 'm' as u8, 'A' as u8, 'v' as u8, 'a' as u8, 'i' as u8, 'l' as u8, 'a' as u8, 'b' as u8, 'l' as u8, 'e' as u8, ':' as u8];
    let lab_bufers_c: [u8; 8] = ['B' as u8, 'u' as u8, 'f' as u8, 'f' as u8, 'e' as u8, 'r' as u8, 's' as u8, ':' as u8];
    let lab_cached_c: [u8; 7] = ['C' as u8, 'a' as u8, 'c' as u8, 'h' as u8, 'e' as u8, 'd' as u8, ':' as u8];
    let lab_swap_cached_c: [u8; 11] = ['S' as u8, 'w' as u8, 'a' as u8, 'p' as u8, 'C' as u8, 'a' as u8, 'c' as u8, 'h' as u8, 'e' as u8, 'd' as u8, ':' as u8];
    let lab_active_anon_c: [u8; 13] = ['A' as u8, 'c' as u8, 't' as u8, 'i' as u8, 'v' as u8, 'e' as u8, '(' as u8, 'a' as u8, 'n' as u8, 'o' as u8, 'n' as u8, ')' as u8, ':' as u8];
    let lab_inactive_anon_c: [u8; 15] = ['I' as u8, 'n' as u8, 'a' as u8, 'c' as u8, 't' as u8, 'i' as u8, 'v' as u8, 'e' as u8, '(' as u8, 'a' as u8, 'n' as u8, 'o' as u8, 'n' as u8, ')' as u8, ':' as u8];
    let lab_active_file_c: [u8; 13] = ['A' as u8, 'c' as u8, 't' as u8, 'i' as u8, 'v' as u8, 'e' as u8, '(' as u8, 'f' as u8, 'i' as u8, 'l' as u8, 'e' as u8, ')' as u8, ':' as u8];
    let lab_inactive_file_c: [u8; 15] = ['I' as u8, 'n' as u8, 'a' as u8, 'c' as u8, 't' as u8, 'i' as u8, 'v' as u8, 'e' as u8, '(' as u8, 'f' as u8, 'i' as u8, 'l' as u8, 'e' as u8, ')' as u8, ':' as u8];
    let lab_active_c: [u8; 7] = ['A' as u8, 'c' as u8, 't' as u8, 'i' as u8, 'v' as u8, 'e' as u8, ':' as u8];
    let lab_inactive_c: [u8; 9] = ['I' as u8, 'n' as u8, 'a' as u8, 'c' as u8, 't' as u8, 'i' as u8, 'v' as u8, 'e' as u8, ':' as u8];
    let lab_unevictable_c: [u8; 12] = ['U' as u8, 'n' as u8, 'e' as u8, 'v' as u8, 'i' as u8, 'c' as u8, 't' as u8, 'a' as u8, 'b' as u8, 'l' as u8, 'e' as u8, ':' as u8];
    let lab_mlocked_c: [u8; 8] = ['M' as u8, 'l' as u8, 'o' as u8, 'c' as u8, 'k' as u8, 'e' as u8, 'd' as u8, ':' as u8];
    let lab_swap_total_c: [u8; 10] = ['S' as u8, 'w' as u8, 'a' as u8, 'p' as u8, 'T' as u8, 'o' as u8, 't' as u8, 'a' as u8, 'l' as u8, ':' as u8];
    let lab_swap_free_c: [u8; 9] = ['S' as u8, 'w' as u8, 'a' as u8, 'p' as u8, 'F' as u8, 'r' as u8, 'e' as u8, 'e' as u8, ':' as u8];
    let lab_dirty_c: [u8; 6] = ['D' as u8, 'i' as u8, 'r' as u8, 't' as u8, 'y' as u8, ':' as u8];
    let lab_writeback_tmp_c: [u8; 13] = ['W' as u8, 'r' as u8, 'i' as u8, 't' as u8, 'e' as u8, 'b' as u8, 'a' as u8, 'c' as u8, 'k' as u8, 'T' as u8, 'm' as u8, 'p' as u8, ':' as u8];
    let lab_writeback_c: [u8; 10] = ['W' as u8, 'r' as u8, 'i' as u8, 't' as u8, 'e' as u8, 'b' as u8, 'a' as u8, 'c' as u8, 'k' as u8, ':' as u8];
    let lab_anon_pages_c: [u8; 10] = ['A' as u8, 'n' as u8, 'o' as u8, 'n' as u8, 'P' as u8, 'a' as u8, 'g' as u8, 'e' as u8, 's' as u8, ':' as u8];
    let lab_mapped_c: [u8; 7] = ['M' as u8, 'a' as u8, 'p' as u8, 'p' as u8, 'e' as u8, 'd' as u8, ':' as u8];
    let lab_shmem_c: [u8; 6] = ['S' as u8, 'h' as u8, 'm' as u8, 'e' as u8, 'm' as u8, ':' as u8];
    let lab_slab_c: [u8; 5] = ['S' as u8, 'l' as u8, 'a' as u8, 'b' as u8, ':' as u8];
    let lab_s_reclaimable_c: [u8; 13] = ['S' as u8, 'R' as u8, 'e' as u8, 'c' as u8, 'l' as u8, 'a' as u8, 'i' as u8, 'm' as u8, 'a' as u8, 'b' as u8, 'l' as u8, 'e' as u8, ':' as u8];
    let lab_s_unreclaim_c: [u8; 11] = ['S' as u8, 'U' as u8, 'n' as u8, 'r' as u8, 'e' as u8, 'c' as u8, 'l' as u8, 'a' as u8, 'i' as u8, 'm' as u8, ':' as u8];
    let lab_kernel_stack_c: [u8; 12] = ['K' as u8, 'e' as u8, 'r' as u8, 'n' as u8, 'e' as u8, 'l' as u8, 'S' as u8, 't' as u8, 'a' as u8, 'c' as u8, 'k' as u8, ':' as u8];
    let lab_page_tables_c: [u8; 11] = ['P' as u8, 'a' as u8, 'g' as u8, 'e' as u8, 'T' as u8, 'a' as u8, 'b' as u8, 'l' as u8, 'e' as u8, 's' as u8, ':' as u8];
    let lab_nfs_unstable_c: [u8; 13] = ['N' as u8, 'F' as u8, 'S' as u8, '_' as u8, 'U' as u8, 'n' as u8, 's' as u8, 't' as u8, 'a' as u8, 'b' as u8, 'l' as u8, 'e' as u8, ':' as u8];
    let lab_bounce_c: [u8; 7] = ['B' as u8, 'o' as u8, 'u' as u8, 'n' as u8, 'c' as u8, 'e' as u8, ':' as u8];
    let lab_commit_limit_c: [u8; 12] = ['C' as u8, 'o' as u8, 'm' as u8, 'm' as u8, 'i' as u8, 't' as u8, 'L' as u8, 'i' as u8, 'm' as u8, 'i' as u8, 't' as u8, ':' as u8];
    let lab_committed_as_c: [u8; 13] = ['C' as u8, 'o' as u8, 'm' as u8, 'm' as u8, 'i' as u8, 't' as u8, 't' as u8, 'e' as u8, 'd' as u8, '_' as u8, 'A' as u8, 'S' as u8, ':' as u8];
    let lab_vmalloc_total_c: [u8; 13] = ['V' as u8, 'm' as u8, 'a' as u8, 'l' as u8, 'l' as u8, 'o' as u8, 'c' as u8, 'T' as u8, 'o' as u8, 't' as u8, 'a' as u8, 'l' as u8, ':' as u8];
    let lab_vmalloc_used_c: [u8; 12] = ['V' as u8, 'm' as u8, 'a' as u8, 'l' as u8, 'l' as u8, 'o' as u8, 'c' as u8, 'U' as u8, 's' as u8, 'e' as u8, 'd' as u8, ':' as u8];
    let lab_vmalloc_chunk_c: [u8; 13] = ['V' as u8, 'm' as u8, 'a' as u8, 'l' as u8, 'l' as u8, 'o' as u8, 'c' as u8, 'C' as u8, 'h' as u8, 'u' as u8, 'n' as u8, 'k' as u8, ':' as u8];
    let lab_hardware_corrupted_c: [u8; 18] = ['H' as u8, 'a' as u8, 'r' as u8, 'd' as u8, 'w' as u8, 'a' as u8, 'r' as u8, 'e' as u8, 'C' as u8, 'o' as u8, 'r' as u8, 'r' as u8, 'u' as u8, 'p' as u8, 't' as u8, 'e' as u8, 'd' as u8, ':' as u8];
    let lab_anon_huge_pages_c: [u8; 14] = ['A' as u8, 'n' as u8, 'o' as u8, 'n' as u8, 'H' as u8, 'u' as u8, 'g' as u8, 'e' as u8, 'P' as u8, 'a' as u8, 'g' as u8, 'e' as u8, 's' as u8, ':' as u8];
    let lab_cma_total_c: [u8; 9] = ['C' as u8, 'm' as u8, 'a' as u8, 'T' as u8, 'o' as u8, 't' as u8, 'a' as u8, 'l' as u8, ':' as u8];
    let lab_cma_free_c: [u8; 8] = ['C' as u8, 'm' as u8, 'a' as u8, 'F' as u8, 'r' as u8, 'e' as u8, 'e' as u8, ':' as u8];
    let lab_huge_pages_total_c: [u8; 16] = ['H' as u8, 'u' as u8, 'g' as u8, 'e' as u8, 'P' as u8, 'a' as u8, 'g' as u8, 'e' as u8, 's' as u8, '_' as u8, 'T' as u8, 'o' as u8, 't' as u8, 'a' as u8, 'l' as u8, ':' as u8];
    let lab_huge_pages_free_c: [u8; 15] = ['H' as u8, 'u' as u8, 'g' as u8, 'e' as u8, 'P' as u8, 'a' as u8, 'g' as u8, 'e' as u8, 's' as u8, '_' as u8, 'F' as u8, 'r' as u8, 'e' as u8, 'e' as u8, ':' as u8];
    let lab_huge_pages_rsvd_c: [u8; 15] = ['H' as u8, 'u' as u8, 'g' as u8, 'e' as u8, 'P' as u8, 'a' as u8, 'g' as u8, 'e' as u8, 's' as u8, '_' as u8, 'R' as u8, 's' as u8, 'v' as u8, 'd' as u8, ':' as u8];
    let lab_huge_pages_surp_c: [u8; 15] = ['H' as u8, 'u' as u8, 'g' as u8, 'e' as u8, 'P' as u8, 'a' as u8, 'g' as u8, 'e' as u8, 's' as u8, '_' as u8, 'S' as u8, 'u' as u8, 'r' as u8, 'p' as u8, ':' as u8];
    let lab_hugepagesize_c: [u8; 13] = ['H' as u8, 'u' as u8, 'g' as u8, 'e' as u8, 'p' as u8, 'a' as u8, 'g' as u8, 'e' as u8, 's' as u8, 'i' as u8, 'z' as u8, 'e' as u8, ':' as u8];
    let lab_direct_map_4k_c: [u8; 12] = ['D' as u8, 'i' as u8, 'r' as u8, 'e' as u8, 'c' as u8, 't' as u8, 'M' as u8, 'a' as u8, 'p' as u8, '4' as u8, 'k' as u8, ':' as u8];
    let lab_direct_map_2m_c: [u8; 12] = ['D' as u8, 'i' as u8, 'r' as u8, 'e' as u8, 'c' as u8, 't' as u8, 'M' as u8, 'a' as u8, 'p' as u8, '2' as u8, 'M' as u8, ':' as u8];
    proof {
        assert(lab_mem_total_c@ =~= lab_mem_total().push(COLON));
        assert(lab_mem_free_c@ =~= lab_mem_free().push(COLON));
        assert(lab_mem_available_c@ =~= lab_mem_available().push(COLON));
        assert(lab_bufers_c@ =~= lab_bufers().push(COLON));
        assert(lab_cached_c@ =~= lab_cached().push(COLON));
        assert(lab_swap_cached_c@ =~= lab_swap_cached().push(COLON));
        assert(lab_active_anon_c@ =~= lab_active_anon().push(COLON));
        assert(lab_inactive_anon_c@ =~= lab_inactive_anon().push(COLON));
        assert(lab_active_file_c@ =~= lab_active_file().push(COLON));
        assert(lab_inactive_file_c@ =~= lab_inactive_file().push(COLON));
        assert(lab_active_c@ =~= lab_active().push(COLON));
        assert(lab_inactive_c@ =~= lab_inactive().push(COLON));
        assert(lab_unevictable_c@ =~= lab_unevictable().push(COLON));
        assert(lab_mlocked_c@ =~= lab_mlocked().push(COLON));
        assert(lab_swap_total_c@ =~= lab_swap_total().push(COLON));
        assert(lab_swap_free_c@ =~= lab_swap_free().push(COLON));
        assert(lab_dirty_c@ =~= lab_dirty().push(COLON));
        assert(lab_writeback_tmp_c@ =~= lab_writeback_tmp().push(COLON));
        assert(lab_writeback_c@ =~= lab_writeback().push(COLON));
        assert(lab_anon_pages_c@ =~= lab_anon_pages().push(COLON));
        assert(lab_mapped_c@ =~= lab_mapped().push(COLON));
        assert(lab_shmem_c@ =~= lab_shmem().push(COLON));
        assert(lab_slab_c@ =~= lab_slab().push(COLON));
        assert(lab_s_reclaimable_c@ =~= lab_s_reclaimable().push(COLON));
        assert(lab_s_unreclaim_c@ =~= lab_s_unreclaim().push(COLON));
        assert(lab_kernel_stack_c@ =~= lab_kernel_stack().push(COLON));
        assert(lab_page_tables_c@ =~= lab_page_tables().push(COLON));
        assert(lab_nfs_unstable_c@ =~= lab_nfs_unstable().push(COLON));
        assert(lab_bounce_c@ =~= lab_bounce().push(COLON));
        assert(lab_commit_limit_c@ =~= lab_commit_limit().push(COLON));
        assert(lab_committed_as_c@ =~= lab_committed_as().push(COLON));
        assert(lab_vmalloc_total_c@ =~= lab_vmalloc_total().push(COLON));
        assert(lab_vmalloc_used_c@ =~= lab_vmalloc_used().push(COLON));
        assert(lab_vmalloc_chunk_c@ =~= lab_vmalloc_chunk().push(COLON));
        assert(lab_hardware_corrupted_c@ =~= lab_hardware_corrupted().push(COLON));
        assert(lab_anon_huge_pages_c@ =~= lab_anon_huge_pages().push(COLON));
        assert(lab_cma_total_c@ =~= lab_cma_total().push(COLON));
        assert(lab_cma_free_c@ =~= lab_cma_free().push(COLON));
        assert(lab_huge_pages_total_c@ =~= lab_huge_pages_total().push(COLON));
        assert(lab_huge_pages_free_c@ =~= lab_huge_pages_free().push(COLON));
        assert(lab_huge_pages_rsvd_c@ =~= lab_huge_pages_rsvd().push(COLON));
        assert(lab_huge_pages_surp_c@ =~= lab_huge_pages_surp().push(COLON));
        assert(lab_hugepagesize_c@ =~= lab_hugepagesize().push(COLON));
        assert(lab_direct_map_4k_c@ =~= lab_direct_map_4k().push(COLON));
        assert(lab_direct_map_2m_c@ =~= lab_direct_map_2m().push(COLON));
    }
    lines.push(scalar_line(lab_mem_total_c.as_slice(), m.mem_total));
    lines.push(scalar_line(lab_mem_free_c.as_slice(), m.mem_free));
    lines.push(scalar_line(lab_mem_available_c.as_slice(), m.mem_available));
    lines.push(scalar_line(lab_bufers_c.as_slice(), m.bufers));
    lines.push(scalar_line(lab_cached_c.as_slice(), m.cached));
    lines.push(scalar_line(lab_swap_cached_c.as_slice(), m.swap_cached));
    lines.push(scalar_line(lab_active_anon_c.as_slice(), m.active_anon));
    lines.push(scalar_line(lab_inactive_anon_c.as_slice(), m.inactive_anon));
    lines.push(scalar_line(lab_active_file_c.as_slice(), m.active_file));
    lines.push(scalar_line(lab_inactive_file_c.as_slice(), m.inactive_file));
    lines.push(scalar_line(lab_active_c.as_slice(), m.active));
    lines.push(scalar_line(lab_inactive_c.as_slice(), m.inactive));
    lines.push(scalar_line(lab_unevictable_c.as_slice(), m.unevictable));
    lines.push(scalar_line(lab_mlocked_c.as_slice(), m.mlocked));
    lines.push(scalar_line(lab_swap_total_c.as_slice(), m.swap_total));
    lines.push(scalar_line(lab_swap_free_c.as_slice(), m.swap_free));
    lines.push(scalar_line(lab_dirty_c.as_slice(), m.dirty));
    lines.push(scalar_line(lab_writeback_tmp_c.as_slice(), m.writeback_tmp));
    lines.push(scalar_line(lab_writeback_c.as_slice(), m.writeback));
    lines.push(scalar_line(lab_anon_pages_c.as_slice(), m.anon_pages));
    lines.push(scalar_line(lab_mapped_c.as_slice(), m.mapped));
    lines.push(scalar_line(lab_shmem_c.as_slice(), m.shmem));
    lines.push(scalar_line(lab_slab_c.as_slice(), m.slab));
    lines.push(scalar_line(lab_s_reclaimable_c.as_slice(), m.s_reclaimable));
    lines.push(scalar_line(lab_s_unreclaim_c.as_slice(), m.s_unreclaim));
    lines.push(scalar_line(lab_kernel_stack_c.as_slice(), m.kernel_stack));
    lines.push(scalar_line(lab_page_tables_c.as_slice(), m.page_tables));
    lines.push(scalar_line(lab_nfs_unstable_c.as_slice(), m.nfs_unstable));
    lines.push(scalar_line(lab_bounce_c.as_slice(), m.bounce));
    lines.push(scalar_line(lab_commit_limit_c.as_slice(), m.commit_limit));
    lines.push(scalar_line(lab_committed_as_c.as_slice(), m.committed_as));
    lines.push(scalar_line(lab_vmalloc_total_c.as_slice(), m.vmalloc_total));
    lines.push(scalar_line(lab_vmalloc_used_c.as_slice(), m.vmalloc_used));
    lines.push(scalar_line(lab_vmalloc_chunk_c.as_slice(), m.vmalloc_chunk));
    lines.push(scalar_line(lab_hardware_corrupted_c.as_slice(), m.hardware_corrupted));
    lines.push(scalar_line(lab_anon_huge_pages_c.as_slice(), m.anon_huge_pages));
    lines.push(scalar_line(lab_cma_total_c.as_slice(), m.cma_total));
    lines.push(scalar_line(lab_cma_free_c.as_slice(), m.cma_free));
    lines.push(scalar_line(lab_huge_pages_total_c.as_slice(), m.huge_pages_total));
    lines.push(scalar_line(lab_huge_pages_free_c.as_slice(), m.huge_pages_free));
    lines.push(scalar_line(lab_huge_pages_rsvd_c.as_slice(), m.huge_pages_rsvd));
    lines.push(scalar_line(lab_huge_pages_surp_c.as_slice(), m.huge_pages_surp));
    lines.push(scalar_line(lab_hugepagesize_c.as_slice(), m.hugepagesize));
    lines.push(scalar_line(lab_direct_map_4k_c.as_slice(), m.direct_map_4k));
    lines.push(scalar_line(lab_direct_map_2m_c.as_slice(), m.direct_map_2m));
    proof {
        assert(views_of(lines@) =~= canon_mem_lines(*m));
    }
    join_bytes(&lines, NL)
}

} // verus!
