use linux_stats::MemInfo;

static MEMINFO_1_RAW: &str = "MemTotal:       3521920 kB\nMemFree:        1878240 kB\nMemAvailable:   2275916 kB\nBuffers:        35428 kB\nCached:         386132 kB\nSwapCached:     0 kB\nActive:         134352 kB\nInactive:       266336 kB\nActive(anon):   1094728 kB\nInactive(anon): 17664 kB\nActive(file):   134352 kB\nInactive(file): 266336 kB\nUnevictable:    3660 kB\nMlocked:        3660 kB\nSwapTotal:      0 kB\nSwapFree:       0 kB\nDirty:          12 kB\nWriteback:      0 kB\nAnonPages:      1095172 kB\nMapped:         71384 kB\nShmem:          18456 kB\nSlab:           50800 kB\nSReclaimable:   24684 kB\nSUnreclaim:     26116 kB\nKernelStack:    5584 kB\nPageTables:     6184 kB\nNFS_Unstable:   0 kB\nBounce:         0 kB\nWritebackTmp:   0 kB\nCommitLimit:    1760960 kB\nCommitted_AS:   2064016 kB\nVmallocTotal:   34359738367 kB\nVmallocUsed:    0 kB\nVmallocChunk:   0 kB\nHardwareCorrupted: 0 kB\nAnonHugePages:  1013760 kB\nCmaTotal:       0 kB\nCmaFree:        0 kB\nHugePages_Total: 0\nHugePages_Free: 0\nHugePages_Rsvd: 0\nHugePages_Surp: 0\nHugepagesize:   2048 kB\nDirectMap4k:    67520 kB\nDirectMap2M:    3602432 kB\n";

static MEMINFO_2_RAW: &str = "MemTotal:       32828552 kB\nMemFree:        12195628 kB\nMemAvailable:   13725248 kB\nBuffers:        185048 kB\nCached:         1876616 kB\nSwapCached:     0 kB\nActive:         806832 kB\nInactive:       1015204 kB\nActive(anon):   1531372 kB\nInactive(anon): 105576 kB\nActive(file):   806832 kB\nInactive(file): 1015204 kB\nUnevictable:    132464 kB\nMlocked:        0 kB\nSwapTotal:      4194280 kB\nSwapFree:       4194280 kB\nDirty:          224 kB\nWriteback:      0 kB\nAnonPages:      1529596 kB\nMapped:         16887024 kB\nShmem:          0 kB\nSlab:           354316 kB\nSReclaimable:   155152 kB\nSUnreclaim:     199164 kB\nKernelStack:    8912 kB\nPageTables:     47852 kB\nNFS_Unstable:   0 kB\nBounce:         0 kB\nWritebackTmp:   0 kB\nCommitLimit:    20608556 kB\nCommitted_AS:   20066912 kB\nVmallocTotal:   34359738367 kB\nVmallocUsed:    0 kB\nVmallocChunk:   0 kB\nHardwareCorrupted: 0 kB\nAnonHugePages:  0 kB\nCmaTotal:       0 kB\nCmaFree:        0 kB\nHugePages_Total: 0\nHugePages_Free: 0\nHugePages_Rsvd: 0\nHugePages_Surp: 0\nHugepagesize:   2048 kB\nDirectMap4k:    215212 kB\nDirectMap2M:    8062976 kB\n";

fn meminfo_1_expected() -> MemInfo {
    MemInfo {
        mem_total: 3521920,
        mem_free: 1878240,
        mem_available: 2275916,
        bufers: 35428,
        cached: 386132,
        swap_cached: 0,
        active: 134352,
        inactive: 266336,
        active_anon: 1094728,
        inactive_anon: 17664,
        active_file: 134352,
        inactive_file: 266336,
        unevictable: 3660,
        mlocked: 3660,
        swap_total: 0,
        swap_free: 0,
        dirty: 12,
        writeback: 0,
        anon_pages: 1095172,
        mapped: 71384,
        shmem: 18456,
        slab: 50800,
        s_reclaimable: 24684,
        s_unreclaim: 26116,
        kernel_stack: 5584,
        page_tables: 6184,
        nfs_unstable: 0,
        bounce: 0,
        writeback_tmp: 0,
        commit_limit: 1760960,
        committed_as: 2064016,
        vmalloc_total: 34359738367,
        vmalloc_used: 0,
        vmalloc_chunk: 0,
        hardware_corrupted: 0,
        anon_huge_pages: 1013760,
        cma_total: 0,
        cma_free: 0,
        huge_pages_total: 0,
        huge_pages_free: 0,
        huge_pages_rsvd: 0,
        huge_pages_surp: 0,
        hugepagesize: 2048,
        direct_map_4k: 67520,
        direct_map_2m: 3602432,
    }
}

fn meminfo_2_expected() -> MemInfo {
    MemInfo {
        mem_total: 32828552,
        mem_free: 12195628,
        mem_available: 13725248,
        bufers: 185048,
        cached: 1876616,
        swap_cached: 0,
        active: 806832,
        inactive: 1015204,
        active_anon: 1531372,
        inactive_anon: 105576,
        active_file: 806832,
        inactive_file: 1015204,
        unevictable: 132464,
        mlocked: 0,
        swap_total: 4194280,
        swap_free: 4194280,
        dirty: 224,
        writeback: 0,
        anon_pages: 1529596,
        mapped: 16887024,
        shmem: 0,
        slab: 354316,
        s_reclaimable: 155152,
        s_unreclaim: 199164,
        kernel_stack: 8912,
        page_tables: 47852,
        nfs_unstable: 0,
        bounce: 0,
        writeback_tmp: 0,
        commit_limit: 20608556,
        committed_as: 20066912,
        vmalloc_total: 34359738367,
        vmalloc_used: 0,
        vmalloc_chunk: 0,
        hardware_corrupted: 0,
        anon_huge_pages: 0,
        cma_total: 0,
        cma_free: 0,
        huge_pages_total: 0,
        huge_pages_free: 0,
        huge_pages_rsvd: 0,
        huge_pages_surp: 0,
        hugepagesize: 2048,
        direct_map_4k: 215212,
        direct_map_2m: 8062976,
    }
}

#[test]
fn meminfo_empty() {
    assert_eq!(linux_stats::meminfo("").unwrap(), MemInfo::default());
}

#[test]
fn meminfo_1() {
    assert_eq!(linux_stats::meminfo(MEMINFO_1_RAW).unwrap(), meminfo_1_expected());
}

#[test]
fn meminfo_2() {
    assert_eq!(linux_stats::meminfo(MEMINFO_2_RAW).unwrap(), meminfo_2_expected());
}

#[test]
fn meminfo_reduced_fixture_leaves_absent_fields_zero() {
    let m = linux_stats::meminfo("MemTotal: 1024 kB\nSwapFree: 77 kB\n").unwrap();
    assert_eq!(m.mem_total, 1024);
    assert_eq!(m.swap_free, 77);
    assert_eq!(m.mem_free, 0);
    assert_eq!(m.active, 0);
    assert_eq!(m.direct_map_2m, 0);
}

#[test]
fn meminfo_specific_label_not_shadowed() {
    let m = linux_stats::meminfo(
        "Active:  300 kB\nActive(anon): 100 kB\nActive(file): 200 kB\n",
    )
    .unwrap();
    assert_eq!(m.active, 300);
    assert_eq!(m.active_anon, 100);
    assert_eq!(m.active_file, 200);
}

#[test]
fn meminfo_missing_value_is_error() {
    assert!(linux_stats::meminfo("MemTotal:\n").is_err());
}

#[test]
fn meminfo_malformed_value_is_error() {
    assert!(linux_stats::meminfo("MemTotal: abc kB\n").is_err());
}

#[test]
fn meminfo_unknown_lines_are_ignored(){
    let m = linux_stats::meminfo("SomethingNew:  5 kB\nMemFree: 9 kB\n").unwrap();
    assert_eq!(m.mem_free, 9);
    assert_eq!(m.mem_total, 0);
}
