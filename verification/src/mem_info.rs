//! Memory figures: the parsers of `/proc/meminfo`, of the memory-device
//! properties that `udevadm` reports, and of the `vm_stat` report.
use crate::text;
use vstd::prelude::*;

verus! {

/// Memory figures of the system, in bytes (huge page counts are counts).
#[derive(Clone, Copy, Debug, PartialEq, Eq, Structural)]
pub struct MemInfo {
    pub mem_total: usize,
    pub mem_free: usize,
    pub mem_available: usize,
    pub buffers: usize,
    pub cached: usize,
    pub swap_cached: usize,
    pub active: usize,
    pub inactive: usize,
    pub active_anon: usize,
    pub inactive_anon: usize,
    pub active_file: usize,
    pub inactive_file: usize,
    pub unevictable: usize,
    pub m_locked: usize,
    pub swap_total: usize,
    pub swap_free: usize,
    pub zswap: usize,
    pub zswapped: usize,
    pub dirty: usize,
    pub writeback: usize,
    pub anon_pages: usize,
    pub mapped: usize,
    pub sh_mem: usize,
    pub k_reclaimable: usize,
    pub slab: usize,
    pub s_reclaimable: usize,
    pub s_unreclaim: usize,
    pub kernel_stack: usize,
    pub page_tables: usize,
    pub sec_page_tables: usize,
    pub nfs_unstable: usize,
    pub bounce: usize,
    pub writeback_tmp: usize,
    pub commit_limit: usize,
    pub committed: usize,
    pub vmalloc_total: usize,
    pub vmalloc_used: usize,
    pub vmalloc_chunk: usize,
    pub percpu: usize,
    pub hardware_corrupted: usize,
    pub anon_huge_pages: usize,
    pub shmem_huge_pages: usize,
    pub shmem_pmd_mapped: usize,
    pub file_huge_pages: usize,
    pub file_pmd_mapped: usize,
    pub cma_total: usize,
    pub cma_free: usize,
    pub huge_pages_total: usize,
    pub huge_pages_free: usize,
    pub huge_pages_rsvd: usize,
    pub huge_pages_surp: usize,
    pub hugepagesize: usize,
    pub hugetlb: usize,
    pub direct_map4k: usize,
    pub direct_map2m: usize,
    pub direct_map1g: usize,
}

impl Default for MemInfo {
    fn default() -> (r: Self)
        ensures
            r == MemInfo::zero(),
    {
        MemInfo {
            mem_total: 0,
            mem_free: 0,
            mem_available: 0,
            buffers: 0,
            cached: 0,
            swap_cached: 0,
            active: 0,
            inactive: 0,
            active_anon: 0,
            inactive_anon: 0,
            active_file: 0,
            inactive_file: 0,
            unevictable: 0,
            m_locked: 0,
            swap_total: 0,
            swap_free: 0,
            zswap: 0,
            zswapped: 0,
            dirty: 0,
            writeback: 0,
            anon_pages: 0,
            mapped: 0,
            sh_mem: 0,
            k_reclaimable: 0,
            slab: 0,
            s_reclaimable: 0,
            s_unreclaim: 0,
            kernel_stack: 0,
            page_tables: 0,
            sec_page_tables: 0,
            nfs_unstable: 0,
            bounce: 0,
            writeback_tmp: 0,
            commit_limit: 0,
            committed: 0,
            vmalloc_total: 0,
            vmalloc_used: 0,
            vmalloc_chunk: 0,
            percpu: 0,
            hardware_corrupted: 0,
            anon_huge_pages: 0,
            shmem_huge_pages: 0,
            shmem_pmd_mapped: 0,
            file_huge_pages: 0,
            file_pmd_mapped: 0,
            cma_total: 0,
            cma_free: 0,
            huge_pages_total: 0,
            huge_pages_free: 0,
            huge_pages_rsvd: 0,
            huge_pages_surp: 0,
            hugepagesize: 0,
            hugetlb: 0,
            direct_map4k: 0,
            direct_map2m: 0,
            direct_map1g: 0,
        }
    }
}

impl MemInfo {
    /// Every figure zero.
    pub open spec fn zero() -> MemInfo {
        MemInfo {
            mem_total: 0,
            mem_free: 0,
            mem_available: 0,
            buffers: 0,
            cached: 0,
            swap_cached: 0,
            active: 0,
            inactive: 0,
            active_anon: 0,
            inactive_anon: 0,
            active_file: 0,
            inactive_file: 0,
            unevictable: 0,
            m_locked: 0,
            swap_total: 0,
            swap_free: 0,
            zswap: 0,
            zswapped: 0,
            dirty: 0,
            writeback: 0,
            anon_pages: 0,
            mapped: 0,
            sh_mem: 0,
            k_reclaimable: 0,
            slab: 0,
            s_reclaimable: 0,
            s_unreclaim: 0,
            kernel_stack: 0,
            page_tables: 0,
            sec_page_tables: 0,
            nfs_unstable: 0,
            bounce: 0,
            writeback_tmp: 0,
            commit_limit: 0,
            committed: 0,
            vmalloc_total: 0,
            vmalloc_used: 0,
            vmalloc_chunk: 0,
            percpu: 0,
            hardware_corrupted: 0,
            anon_huge_pages: 0,
            shmem_huge_pages: 0,
            shmem_pmd_mapped: 0,
            file_huge_pages: 0,
            file_pmd_mapped: 0,
            cma_total: 0,
            cma_free: 0,
            huge_pages_total: 0,
            huge_pages_free: 0,
            huge_pages_rsvd: 0,
            huge_pages_surp: 0,
            hugepagesize: 0,
            hugetlb: 0,
            direct_map4k: 0,
            direct_map2m: 0,
            direct_map1g: 0,
        }
    }
}

/// The field of `/proc/meminfo` that a line with `key` fills, given the
/// line's value already multiplied by 1024; the huge page counts are
/// divided back by 1024. Other keys change nothing.
pub open spec fn meminfo_apply(m: MemInfo, key: Seq<char>, value: usize) -> MemInfo {
    if key == "MemTotal:"@ {
        MemInfo { mem_total: value, ..m }
    } else if key == "MemFree:"@ {
        MemInfo { mem_free: value, ..m }
    } else if key == "MemAvailable:"@ {
        MemInfo { mem_available: value, ..m }
    } else if key == "Buffers:"@ {
        MemInfo { buffers: value, ..m }
    } else if key == "Cached:"@ {
        MemInfo { cached: value, ..m }
    } else if key == "SwapCached:"@ {
        MemInfo { swap_cached: value, ..m }
    } else if key == "Active:"@ {
        MemInfo { active: value, ..m }
    } else if key == "Inactive:"@ {
        MemInfo { inactive: value, ..m }
    } else if key == "Active(anon):"@ {
        MemInfo { active_anon: value, ..m }
    } else if key == "Inactive(anon):"@ {
        MemInfo { inactive_anon: value, ..m }
    } else if key == "Active(file):"@ {
        MemInfo { active_file: value, ..m }
    } else if key == "Inactive(file):"@ {
        MemInfo { inactive_file: value, ..m }
    } else if key == "Unevictable:"@ {
        MemInfo { unevictable: value, ..m }
    } else if key == "Mlocked:"@ {
        MemInfo { m_locked: value, ..m }
    } else if key == "SwapTotal:"@ {
        MemInfo { swap_total: value, ..m }
    } else if key == "SwapFree:"@ {
        MemInfo { swap_free: value, ..m }
    } else if key == "ZSwap:"@ {
        MemInfo { zswap: value, ..m }
    } else if key == "ZSwapTotal:"@ {
        MemInfo { zswapped: value, ..m }
    } else if key == "Dirty:"@ {
        MemInfo { dirty: value, ..m }
    } else if key == "Writeback:"@ {
        MemInfo { writeback: value, ..m }
    } else if key == "AnonPages:"@ {
        MemInfo { anon_pages: value, ..m }
    } else if key == "Mapped:"@ {
        MemInfo { mapped: value, ..m }
    } else if key == "Shmem:"@ {
        MemInfo { sh_mem: value, ..m }
    } else if key == "KReclaimable:"@ {
        MemInfo { k_reclaimable: value, ..m }
    } else if key == "Slab:"@ {
        MemInfo { slab: value, ..m }
    } else if key == "SReclaimable:"@ {
        MemInfo { s_reclaimable: value, ..m }
    } else if key == "SUnreclaim:"@ {
        MemInfo { s_unreclaim: value, ..m }
    } else if key == "KernelStack:"@ {
        MemInfo { kernel_stack: value, ..m }
    } else if key == "PageTables:"@ {
        MemInfo { page_tables: value, ..m }
    } else if key == "SecMemTables:"@ {
        MemInfo { sec_page_tables: value, ..m }
    } else if key == "NFS_Unstable:"@ {
        MemInfo { nfs_unstable: value, ..m }
    } else if key == "Bounce:"@ {
        MemInfo { bounce: value, ..m }
    } else if key == "WritebackTmp:"@ {
        MemInfo { writeback_tmp: value, ..m }
    } else if key == "CommitLimit:"@ {
        MemInfo { commit_limit: value, ..m }
    } else if key == "Committed_AS:"@ {
        MemInfo { committed: value, ..m }
    } else if key == "VmallocTotal:"@ {
        MemInfo { vmalloc_total: value, ..m }
    } else if key == "VmallocUsed:"@ {
        MemInfo { vmalloc_used: value, ..m }
    } else if key == "VmallocChunk:"@ {
        MemInfo { vmalloc_chunk: value, ..m }
    } else if key == "Percpu:"@ {
        MemInfo { percpu: value, ..m }
    } else if key == "HardwareCorrupted:"@ {
        MemInfo { hardware_corrupted: value, ..m }
    } else if key == "AnonHugePages:"@ {
        MemInfo { anon_huge_pages: value, ..m }
    } else if key == "ShmemHugePages:"@ {
        MemInfo { shmem_huge_pages: value, ..m }
    } else if key == "ShmemPmdMapped:"@ {
        MemInfo { shmem_pmd_mapped: value, ..m }
    } else if key == "FileHugePages:"@ {
        MemInfo { file_huge_pages: value, ..m }
    } else if key == "FilePmdMapped:"@ {
        MemInfo { file_pmd_mapped: value, ..m }
    } else if key == "CmaTotal:"@ {
        MemInfo { cma_total: value, ..m }
    } else if key == "CmaFree:"@ {
        MemInfo { cma_free: value, ..m }
    } else if key == "HugePages_Total:"@ {
        MemInfo { huge_pages_total: value / 1024, ..m }
    } else if key == "HugePages_Free:"@ {
        MemInfo { huge_pages_free: value / 1024, ..m }
    } else if key == "HugePages_Rsvd:"@ {
        MemInfo { huge_pages_rsvd: value / 1024, ..m }
    } else if key == "HugePages_Surp:"@ {
        MemInfo { huge_pages_surp: value / 1024, ..m }
    } else if key == "Hugepagesize:"@ {
        MemInfo { hugepagesize: value, ..m }
    } else if key == "Hugetlb:"@ {
        MemInfo { hugetlb: value, ..m }
    } else if key == "DirectMap4k:"@ {
        MemInfo { direct_map4k: value, ..m }
    } else if key == "DirectMap2M:"@ {
        MemInfo { direct_map2m: value, ..m }
    } else if key == "DirectMap1G:"@ {
        MemInfo { direct_map1g: value, ..m }
    } else {
        m
    }
}

// ---------------------------------------------------------------------------
// What a `/proc/meminfo` key names
// ---------------------------------------------------------------------------

/// The figure of `m` that a `/proc/meminfo` key names, in the unit the
/// report gives times 1024 (bytes for sizes; the huge page counts are kept
/// as counts, so they are multiplied back here); `None` for a key the
/// reader does not know.
pub open spec fn meminfo_field(m: MemInfo, key: Seq<char>) -> Option<nat> {
    if key == "MemTotal:"@ {
        Some(m.mem_total as nat)
    } else if key == "MemFree:"@ {
        Some(m.mem_free as nat)
    } else if key == "MemAvailable:"@ {
        Some(m.mem_available as nat)
    } else if key == "Buffers:"@ {
        Some(m.buffers as nat)
    } else if key == "Cached:"@ {
        Some(m.cached as nat)
    } else if key == "SwapCached:"@ {
        Some(m.swap_cached as nat)
    } else if key == "Active:"@ {
        Some(m.active as nat)
    } else if key == "Inactive:"@ {
        Some(m.inactive as nat)
    } else if key == "Active(anon):"@ {
        Some(m.active_anon as nat)
    } else if key == "Inactive(anon):"@ {
        Some(m.inactive_anon as nat)
    } else if key == "Active(file):"@ {
        Some(m.active_file as nat)
    } else if key == "Inactive(file):"@ {
        Some(m.inactive_file as nat)
    } else if key == "Unevictable:"@ {
        Some(m.unevictable as nat)
    } else if key == "Mlocked:"@ {
        Some(m.m_locked as nat)
    } else if key == "SwapTotal:"@ {
        Some(m.swap_total as nat)
    } else if key == "SwapFree:"@ {
        Some(m.swap_free as nat)
    } else if key == "ZSwap:"@ {
        Some(m.zswap as nat)
    } else if key == "ZSwapTotal:"@ {
        Some(m.zswapped as nat)
    } else if key == "Dirty:"@ {
        Some(m.dirty as nat)
    } else if key == "Writeback:"@ {
        Some(m.writeback as nat)
    } else if key == "AnonPages:"@ {
        Some(m.anon_pages as nat)
    } else if key == "Mapped:"@ {
        Some(m.mapped as nat)
    } else if key == "Shmem:"@ {
        Some(m.sh_mem as nat)
    } else if key == "KReclaimable:"@ {
        Some(m.k_reclaimable as nat)
    } else if key == "Slab:"@ {
        Some(m.slab as nat)
    } else if key == "SReclaimable:"@ {
        Some(m.s_reclaimable as nat)
    } else if key == "SUnreclaim:"@ {
        Some(m.s_unreclaim as nat)
    } else if key == "KernelStack:"@ {
        Some(m.kernel_stack as nat)
    } else if key == "PageTables:"@ {
        Some(m.page_tables as nat)
    } else if key == "SecMemTables:"@ {
        Some(m.sec_page_tables as nat)
    } else if key == "NFS_Unstable:"@ {
        Some(m.nfs_unstable as nat)
    } else if key == "Bounce:"@ {
        Some(m.bounce as nat)
    } else if key == "WritebackTmp:"@ {
        Some(m.writeback_tmp as nat)
    } else if key == "CommitLimit:"@ {
        Some(m.commit_limit as nat)
    } else if key == "Committed_AS:"@ {
        Some(m.committed as nat)
    } else if key == "VmallocTotal:"@ {
        Some(m.vmalloc_total as nat)
    } else if key == "VmallocUsed:"@ {
        Some(m.vmalloc_used as nat)
    } else if key == "VmallocChunk:"@ {
        Some(m.vmalloc_chunk as nat)
    } else if key == "Percpu:"@ {
        Some(m.percpu as nat)
    } else if key == "HardwareCorrupted:"@ {
        Some(m.hardware_corrupted as nat)
    } else if key == "AnonHugePages:"@ {
        Some(m.anon_huge_pages as nat)
    } else if key == "ShmemHugePages:"@ {
        Some(m.shmem_huge_pages as nat)
    } else if key == "ShmemPmdMapped:"@ {
        Some(m.shmem_pmd_mapped as nat)
    } else if key == "FileHugePages:"@ {
        Some(m.file_huge_pages as nat)
    } else if key == "FilePmdMapped:"@ {
        Some(m.file_pmd_mapped as nat)
    } else if key == "CmaTotal:"@ {
        Some(m.cma_total as nat)
    } else if key == "CmaFree:"@ {
        Some(m.cma_free as nat)
    } else if key == "HugePages_Total:"@ {
        Some(m.huge_pages_total as nat * 1024)
    } else if key == "HugePages_Free:"@ {
        Some(m.huge_pages_free as nat * 1024)
    } else if key == "HugePages_Rsvd:"@ {
        Some(m.huge_pages_rsvd as nat * 1024)
    } else if key == "HugePages_Surp:"@ {
        Some(m.huge_pages_surp as nat * 1024)
    } else if key == "Hugepagesize:"@ {
        Some(m.hugepagesize as nat)
    } else if key == "Hugetlb:"@ {
        Some(m.hugetlb as nat)
    } else if key == "DirectMap4k:"@ {
        Some(m.direct_map4k as nat)
    } else if key == "DirectMap2M:"@ {
        Some(m.direct_map2m as nat)
    } else if key == "DirectMap1G:"@ {
        Some(m.direct_map1g as nat)
    } else {
        None
    }
}

/// The number on the last line of `ls` whose key is `key`, or 0 where no
/// line has that key.
pub open spec fn last_figure(ls: Seq<Seq<char>>, key: Seq<char>) -> nat
    decreases ls.len(),
{
    if ls.len() == 0 {
        0
    } else if meminfo_key(ls.last()) == key {
        meminfo_kib(ls.last())
    } else {
        last_figure(ls.drop_last(), key)
    }
}

/// Reading one line changes the figure its key names and no other.
#[verifier::rlimit(60)]
proof fn lemma_meminfo_apply_field(m: MemInfo, k: Seq<char>, v: usize, key: Seq<char>)
    requires
        v % 1024 == 0,
    ensures
        meminfo_field(meminfo_apply(m, k, v), key) == (if k == key && meminfo_field(m, key) is Some {
            Some(v as nat)
        } else {
            meminfo_field(m, key)
        }),
{
    assert((v / 1024) as nat * 1024 == v as nat);
}

proof fn lemma_meminfo_fold_field(ls: Seq<Seq<char>>, key: Seq<char>)
    requires
        forall|i: int| 0 <= i < ls.len() ==> #[trigger] meminfo_kib(ls[i]) * 1024 <= usize::MAX,
        meminfo_field(MemInfo::zero(), key) is Some,
    ensures
        meminfo_field(meminfo_fold(ls), key) == Some(last_figure(ls, key) * 1024),
    decreases ls.len(),
{
    if ls.len() > 0 {
        let l = ls.last();
        assert forall|i: int| 0 <= i < ls.drop_last().len() implies #[trigger] meminfo_kib(ls.drop_last()[i]) * 1024 <= usize::MAX by {
            assert(ls.drop_last()[i] == ls[i]);
        }
        lemma_meminfo_fold_field(ls.drop_last(), key);
        assert(meminfo_kib(ls[ls.len() - 1]) * 1024 <= usize::MAX);
        let v = (meminfo_kib(l) * 1024) as usize;
        assert(v as nat == meminfo_kib(l) * 1024);
        lemma_meminfo_apply_field(meminfo_fold(ls.drop_last()), meminfo_key(l), v, key);
    }
}

/// Each key the reader knows fills the figure it names: that figure is
/// the number on the last line with that key, times 1024 (0 where no line
/// has it).
pub proof fn lemma_meminfo_last_line_per_key(report: Seq<char>, key: Seq<char>)
    requires
        meminfo_fits(report),
        meminfo_field(MemInfo::zero(), key) is Some,
    ensures
        meminfo_field(meminfo_of(report), key) == Some(last_figure(meminfo_lines(report), key) * 1024),
{
    let ls = meminfo_lines(report);
    assert forall|i: int| 0 <= i < ls.len() implies #[trigger] meminfo_kib(ls[i]) * 1024 <= usize::MAX by {
        assert(meminfo_kib(meminfo_lines(report)[i]) * 1024 <= usize::MAX);
    }
    lemma_meminfo_fold_field(ls, key);
}

/// The main figures in particular: total, free and available memory and
/// total and free swap are each 1024 times the number on the last line with
/// their own key.
pub proof fn lemma_meminfo_main_figures(report: Seq<char>)
    requires
        meminfo_fits(report),
    ensures
        meminfo_of(report).mem_total == last_figure(meminfo_lines(report), "MemTotal:"@) * 1024,
        meminfo_of(report).mem_free == last_figure(meminfo_lines(report), "MemFree:"@) * 1024,
        meminfo_of(report).mem_available == last_figure(meminfo_lines(report), "MemAvailable:"@) * 1024,
        meminfo_of(report).swap_total == last_figure(meminfo_lines(report), "SwapTotal:"@) * 1024,
        meminfo_of(report).swap_free == last_figure(meminfo_lines(report), "SwapFree:"@) * 1024,
{
    reveal_strlit("MemTotal:");
    reveal_strlit("MemFree:");
    reveal_strlit("MemAvailable:");
    reveal_strlit("Buffers:");
    reveal_strlit("Cached:");
    reveal_strlit("SwapCached:");
    reveal_strlit("Active:");
    reveal_strlit("Inactive:");
    reveal_strlit("Active(anon):");
    reveal_strlit("Inactive(anon):");
    reveal_strlit("Active(file):");
    reveal_strlit("Inactive(file):");
    reveal_strlit("Unevictable:");
    reveal_strlit("Mlocked:");
    reveal_strlit("SwapTotal:");
    reveal_strlit("SwapFree:");
    assert("MemFree:"@.len() != "MemTotal:"@.len());
    assert("MemAvailable:"@.len() != "MemTotal:"@.len());
    assert("MemAvailable:"@.len() != "MemFree:"@.len());
    assert("SwapTotal:"@.len() != "MemTotal:"@.len());
    assert("SwapTotal:"@.len() != "MemFree:"@.len());
    assert("SwapTotal:"@.len() != "MemAvailable:"@.len());
    assert("SwapTotal:"@.len() != "Buffers:"@.len());
    assert("SwapTotal:"@.len() != "Cached:"@.len());
    assert("SwapTotal:"@.len() != "SwapCached:"@.len());
    assert("SwapTotal:"@.len() != "Active:"@.len());
    assert("SwapTotal:"@.len() != "Inactive:"@.len());
    assert("SwapTotal:"@.len() != "Active(anon):"@.len());
    assert("SwapTotal:"@.len() != "Inactive(anon):"@.len());
    assert("SwapTotal:"@.len() != "Active(file):"@.len());
    assert("SwapTotal:"@.len() != "Inactive(file):"@.len());
    assert("SwapTotal:"@.len() != "Unevictable:"@.len());
    assert("SwapTotal:"@.len() != "Mlocked:"@.len());
    assert("SwapFree:"@[0] != "MemTotal:"@[0]);
    assert("SwapFree:"@.len() != "MemFree:"@.len());
    assert("SwapFree:"@.len() != "MemAvailable:"@.len());
    assert("SwapFree:"@.len() != "Buffers:"@.len());
    assert("SwapFree:"@.len() != "Cached:"@.len());
    assert("SwapFree:"@.len() != "SwapCached:"@.len());
    assert("SwapFree:"@.len() != "Active:"@.len());
    assert("SwapFree:"@[0] != "Inactive:"@[0]);
    assert("SwapFree:"@.len() != "Active(anon):"@.len());
    assert("SwapFree:"@.len() != "Inactive(anon):"@.len());
    assert("SwapFree:"@.len() != "Active(file):"@.len());
    assert("SwapFree:"@.len() != "Inactive(file):"@.len());
    assert("SwapFree:"@.len() != "Unevictable:"@.len());
    assert("SwapFree:"@.len() != "Mlocked:"@.len());
    assert("SwapFree:"@.len() != "SwapTotal:"@.len());
    lemma_meminfo_last_line_per_key(report, "MemTotal:"@);
    lemma_meminfo_last_line_per_key(report, "MemFree:"@);
    lemma_meminfo_last_line_per_key(report, "MemAvailable:"@);
    lemma_meminfo_last_line_per_key(report, "SwapTotal:"@);
    lemma_meminfo_last_line_per_key(report, "SwapFree:"@);
}

fn meminfo_apply_exec(m: &mut MemInfo, key: &[char], value: usize)
    ensures
        *final(m) == meminfo_apply(*old(m), key@, value),
{
    if text::eq_str(key, "MemTotal:") {
        m.mem_total = value;
    } else if text::eq_str(key, "MemFree:") {
        m.mem_free = value;
    } else if text::eq_str(key, "MemAvailable:") {
        m.mem_available = value;
    } else if text::eq_str(key, "Buffers:") {
        m.buffers = value;
    } else if text::eq_str(key, "Cached:") {
        m.cached = value;
    } else if text::eq_str(key, "SwapCached:") {
        m.swap_cached = value;
    } else if text::eq_str(key, "Active:") {
        m.active = value;
    } else if text::eq_str(key, "Inactive:") {
        m.inactive = value;
    } else if text::eq_str(key, "Active(anon):") {
        m.active_anon = value;
    } else if text::eq_str(key, "Inactive(anon):") {
        m.inactive_anon = value;
    } else if text::eq_str(key, "Active(file):") {
        m.active_file = value;
    } else if text::eq_str(key, "Inactive(file):") {
        m.inactive_file = value;
    } else if text::eq_str(key, "Unevictable:") {
        m.unevictable = value;
    } else if text::eq_str(key, "Mlocked:") {
        m.m_locked = value;
    } else if text::eq_str(key, "SwapTotal:") {
        m.swap_total = value;
    } else if text::eq_str(key, "SwapFree:") {
        m.swap_free = value;
    } else if text::eq_str(key, "ZSwap:") {
        m.zswap = value;
    } else if text::eq_str(key, "ZSwapTotal:") {
        m.zswapped = value;
    } else if text::eq_str(key, "Dirty:") {
        m.dirty = value;
    } else if text::eq_str(key, "Writeback:") {
        m.writeback = value;
    } else if text::eq_str(key, "AnonPages:") {
        m.anon_pages = value;
    } else if text::eq_str(key, "Mapped:") {
        m.mapped = value;
    } else if text::eq_str(key, "Shmem:") {
        m.sh_mem = value;
    } else if text::eq_str(key, "KReclaimable:") {
        m.k_reclaimable = value;
    } else if text::eq_str(key, "Slab:") {
        m.slab = value;
    } else if text::eq_str(key, "SReclaimable:") {
        m.s_reclaimable = value;
    } else if text::eq_str(key, "SUnreclaim:") {
        m.s_unreclaim = value;
    } else if text::eq_str(key, "KernelStack:") {
        m.kernel_stack = value;
    } else if text::eq_str(key, "PageTables:") {
        m.page_tables = value;
    } else if text::eq_str(key, "SecMemTables:") {
        m.sec_page_tables = value;
    } else if text::eq_str(key, "NFS_Unstable:") {
        m.nfs_unstable = value;
    } else if text::eq_str(key, "Bounce:") {
        m.bounce = value;
    } else if text::eq_str(key, "WritebackTmp:") {
        m.writeback_tmp = value;
    } else if text::eq_str(key, "CommitLimit:") {
        m.commit_limit = value;
    } else if text::eq_str(key, "Committed_AS:") {
        m.committed = value;
    } else if text::eq_str(key, "VmallocTotal:") {
        m.vmalloc_total = value;
    } else if text::eq_str(key, "VmallocUsed:") {
        m.vmalloc_used = value;
    } else if text::eq_str(key, "VmallocChunk:") {
        m.vmalloc_chunk = value;
    } else if text::eq_str(key, "Percpu:") {
        m.percpu = value;
    } else if text::eq_str(key, "HardwareCorrupted:") {
        m.hardware_corrupted = value;
    } else if text::eq_str(key, "AnonHugePages:") {
        m.anon_huge_pages = value;
    } else if text::eq_str(key, "ShmemHugePages:") {
        m.shmem_huge_pages = value;
    } else if text::eq_str(key, "ShmemPmdMapped:") {
        m.shmem_pmd_mapped = value;
    } else if text::eq_str(key, "FileHugePages:") {
        m.file_huge_pages = value;
    } else if text::eq_str(key, "FilePmdMapped:") {
        m.file_pmd_mapped = value;
    } else if text::eq_str(key, "CmaTotal:") {
        m.cma_total = value;
    } else if text::eq_str(key, "CmaFree:") {
        m.cma_free = value;
    } else if text::eq_str(key, "HugePages_Total:") {
        m.huge_pages_total = value / 1024;
    } else if text::eq_str(key, "HugePages_Free:") {
        m.huge_pages_free = value / 1024;
    } else if text::eq_str(key, "HugePages_Rsvd:") {
        m.huge_pages_rsvd = value / 1024;
    } else if text::eq_str(key, "HugePages_Surp:") {
        m.huge_pages_surp = value / 1024;
    } else if text::eq_str(key, "Hugepagesize:") {
        m.hugepagesize = value;
    } else if text::eq_str(key, "Hugetlb:") {
        m.hugetlb = value;
    } else if text::eq_str(key, "DirectMap4k:") {
        m.direct_map4k = value;
    } else if text::eq_str(key, "DirectMap2M:") {
        m.direct_map2m = value;
    } else if text::eq_str(key, "DirectMap1G:") {
        m.direct_map1g = value;
    }
}

// ---------------------------------------------------------------------------
// `/proc/meminfo`
// ---------------------------------------------------------------------------

/// The `i`-th word, or the empty text where there is none.
pub open spec fn word_at(ws: Seq<Seq<char>>, i: int) -> Seq<char> {
    if 0 <= i < ws.len() {
        ws[i]
    } else {
        seq![]
    }
}

/// `str::parse::<usize>()`, with 0 where the text does not parse.
pub open spec fn usize_or_zero(s: Seq<char>) -> nat {
    match text::parse_uint(s, 10, usize::MAX as nat) {
        Some(v) => v,
        None => 0,
    }
}

/// The key of a `/proc/meminfo` line: its first word.
pub open spec fn meminfo_key(line: Seq<char>) -> Seq<char> {
    word_at(text::split_whitespace(line), 0)
}

/// The figure of a `/proc/meminfo` line in KiB: its second word.
pub open spec fn meminfo_kib(line: Seq<char>) -> nat {
    usize_or_zero(word_at(text::split_whitespace(line), 1))
}

/// The lines of the report, after trimming it.
pub open spec fn meminfo_lines(report: Seq<char>) -> Seq<Seq<char>> {
    text::lines(text::trim(report))
}

/// Every figure of the report, in bytes, fits in a `usize`.
pub open spec fn meminfo_fits(report: Seq<char>) -> bool {
    forall|i: int|
        0 <= i < meminfo_lines(report).len() ==> #[trigger] meminfo_kib(meminfo_lines(report)[i])
            * 1024 <= usize::MAX
}

/// The figures after reading the given lines in order: each line overwrites
/// the field its key names with its figure in bytes.
pub open spec fn meminfo_fold(ls: Seq<Seq<char>>) -> MemInfo
    decreases ls.len(),
{
    if ls.len() == 0 {
        MemInfo::zero()
    } else {
        let l = ls.last();
        meminfo_apply(meminfo_fold(ls.drop_last()), meminfo_key(l), (meminfo_kib(l) * 1024) as usize)
    }
}

/// The figures that a `/proc/meminfo` report gives.
pub open spec fn meminfo_of(report: Seq<char>) -> MemInfo {
    meminfo_fold(meminfo_lines(report))
}

/// `str::parse::<usize>()` with 0 where the text does not parse.
pub fn parse_usize_or_zero(s: &[char]) -> (r: usize)
    ensures
        r == usize_or_zero(s@),
{
    match text::parse_uint_exec(s, 10, usize::MAX as u64) {
        Some(v) => v as usize,
        None => 0,
    }
}

fn word_at_exec(ws: &Vec<Vec<char>>, i: usize) -> (r: Vec<char>)
    ensures
        r@ == word_at(ws.deep_view(), i as int),
{
    if i < ws.len() {
        let w = ws[i].clone();
        assert(w@ == ws.deep_view()[i as int]);
        w
    } else {
        Vec::new()
    }
}

impl MemInfo {
    /// The figures of a `/proc/meminfo` report, or `None` where a figure in
    /// bytes does not fit in a `usize`.
    pub fn try_parse_proc_meminfo(report: &str) -> (r: Option<MemInfo>)
        ensures
            r == (if meminfo_fits(report@) {
                Some(meminfo_of(report@))
            } else {
                None
            }),
    {
        let chars = text::chars_of(report);
        let trimmed = text::trim_chars(chars.as_slice());
        let ls = text::lines_exec(trimmed.as_slice());
        let ghost lv = ls.deep_view();
        assert(lv == meminfo_lines(report@));
        let mut m = MemInfo::default();
        let mut i: usize = 0;
        while i < ls.len()
            invariant
                i <= ls.len(),
                lv == ls.deep_view(),
                lv == meminfo_lines(report@),
                m == meminfo_fold(lv.take(i as int)),
                forall|j: int| 0 <= j < i ==> #[trigger] meminfo_kib(lv[j]) * 1024 <= usize::MAX,
            decreases ls.len() - i,
        {
            let ghost l = lv[i as int];
            assert(ls[i as int]@ == l);
            let words = text::split_whitespace_exec(ls[i].as_slice());
            let key = word_at_exec(&words, 0);
            let num = word_at_exec(&words, 1);
            let kib = parse_usize_or_zero(num.as_slice());
            if kib > usize::MAX / 1024 {
                assert(meminfo_kib(lv[i as int]) * 1024 > usize::MAX);
                return None;
            }
            let value = kib * 1024;
            meminfo_apply_exec(&mut m, key.as_slice(), value);
            assert(lv.take(i + 1).drop_last() =~= lv.take(i as int));
            assert(lv.take(i + 1).last() == l);
            i += 1;
        }
        assert(lv.take(ls.len() as int) =~= lv);
        Some(m)
    }

    /// The figures of a `/proc/meminfo` report whose figures in bytes fit in
    /// a `usize`.
    pub fn parse_proc_meminfo(report: &str) -> (r: MemInfo)
        requires
            meminfo_fits(report@),
        ensures
            r == meminfo_of(report@),
    {
        match MemInfo::try_parse_proc_meminfo(report) {
            Some(m) => m,
            None => MemInfo::default(),
        }
    }

    /// What the memory figures are, given what `cat /proc/meminfo` wrote:
    /// `None` where it wrote to its error stream, or where a figure in bytes
    /// does not fit in a `usize`; otherwise the figures of its output, read
    /// as UTF-8 with invalid sequences replaced.
    pub fn from_proc_meminfo_output(stdout: &[u8], stderr: &[u8]) -> (r: Option<MemInfo>)
        ensures
            stderr@.len() > 0 ==> r is None,
            stderr@.len() == 0 ==> r == (if meminfo_fits(text::utf8_lossy(stdout@)) {
                Some(meminfo_of(text::utf8_lossy(stdout@)))
            } else {
                None
            }),
    {
        if stderr.len() > 0 {
            return None;
        }
        let report = text::from_utf8_lossy(stdout);
        MemInfo::try_parse_proc_meminfo(report.as_str())
    }
}


// ---------------------------------------------------------------------------
// Memory devices
// ---------------------------------------------------------------------------

/// One installed memory module.
#[derive(Clone, Debug, PartialEq, Eq)]
pub struct MemoryDevice {
    pub size: usize,
    pub form_factor: String,
    pub locator: String,
    pub bank_locator: String,
    pub ram_type: String,
    pub speed: usize,
    pub rank: u8,
}

/// The mathematical value of a `MemoryDevice`.
pub struct MemoryDeviceView {
    pub size: usize,
    pub form_factor: Seq<char>,
    pub locator: Seq<char>,
    pub bank_locator: Seq<char>,
    pub ram_type: Seq<char>,
    pub speed: usize,
    pub rank: u8,
}

impl MemoryDeviceView {
    /// A module with every figure zero and every text empty.
    pub open spec fn empty() -> MemoryDeviceView {
        MemoryDeviceView {
            size: 0,
            form_factor: seq![],
            locator: seq![],
            bank_locator: seq![],
            ram_type: seq![],
            speed: 0,
            rank: 0,
        }
    }
}

impl View for MemoryDevice {
    type V = MemoryDeviceView;

    open spec fn view(&self) -> MemoryDeviceView {
        MemoryDeviceView {
            size: self.size,
            form_factor: self.form_factor@,
            locator: self.locator@,
            bank_locator: self.bank_locator@,
            ram_type: self.ram_type@,
            speed: self.speed,
            rank: self.rank,
        }
    }
}

impl Default for MemoryDevice {
    fn default() -> (r: Self)
        ensures
            r@ == MemoryDeviceView::empty(),
    {
        MemoryDevice {
            size: 0,
            form_factor: String::new(),
            locator: String::new(),
            bank_locator: String::new(),
            ram_type: String::new(),
            speed: 0,
            rank: 0,
        }
    }
}

/// The views of a list of modules.
pub open spec fn devices_view(v: Seq<MemoryDevice>) -> Seq<MemoryDeviceView> {
    v.map_values(|d: MemoryDevice| d@)
}

/// `str::parse::<u8>()`, with 0 where the text does not parse.
pub open spec fn u8_or_zero(s: Seq<char>) -> nat {
    match text::parse_uint(s, 10, 255) {
        Some(v) => v,
        None => 0,
    }
}

/// The prefix of the properties of module `n`: `MEMORY_DEVICE_<n>_`.
pub open spec fn device_prefix(n: nat) -> Seq<char> {
    "MEMORY_DEVICE_"@ + text::decimal(n) + "_"@
}

/// The key of a `KEY=VALUE` property line, without the module prefix.
pub open spec fn prop_key(line: Seq<char>, prefix: Seq<char>) -> Seq<char> {
    let k = text::trim(word_at(text::split(text::trim(line), "="@), 0));
    match text::strip_prefix(k, prefix) {
        Some(r) => r,
        None => k,
    }
}

/// The value of a `KEY=VALUE` property line.
pub open spec fn prop_value(line: Seq<char>) -> Seq<char> {
    text::trim(word_at(text::split(text::trim(line), "="@), 1))
}

/// One property line read into the module being built and the speed to fall
/// back on. A module reported absent (`PRESENT=0`) is dropped, and nothing
/// after it is read.
pub open spec fn device_step(st: (Option<MemoryDeviceView>, usize), key: Seq<char>, value: Seq<
    char,
>) -> (Option<MemoryDeviceView>, usize) {
    match st.0 {
        None => st,
        Some(d) => if key == "PRESENT"@ {
            if value == "0"@ {
                (None, st.1)
            } else {
                st
            }
        } else if key == "SIZE"@ {
            (Some(MemoryDeviceView { size: usize_or_zero(value) as usize, ..d }), st.1)
        } else if key == "FORM_FACTOR"@ {
            (Some(MemoryDeviceView { form_factor: value, ..d }), st.1)
        } else if key == "LOCATOR"@ {
            (Some(MemoryDeviceView { locator: value, ..d }), st.1)
        } else if key == "BANK_LOCATOR"@ {
            (Some(MemoryDeviceView { bank_locator: value, ..d }), st.1)
        } else if key == "TYPE"@ {
            (Some(MemoryDeviceView { ram_type: value, ..d }), st.1)
        } else if key == "SPEED_MTS"@ {
            (Some(d), usize_or_zero(value) as usize)
        } else if key == "CONFIGURED_SPEED_MTS"@ {
            (Some(MemoryDeviceView { speed: usize_or_zero(value) as usize, ..d }), st.1)
        } else if key == "RANK"@ {
            (Some(MemoryDeviceView { rank: u8_or_zero(value) as u8, ..d }), st.1)
        } else {
            st
        },
    }
}

/// The module and fallback speed after reading the given lines in order.
pub open spec fn device_fold(ls: Seq<Seq<char>>, prefix: Seq<char>, st: (
    Option<MemoryDeviceView>,
    usize,
)) -> (Option<MemoryDeviceView>, usize)
    decreases ls.len(),
{
    if ls.len() == 0 {
        st
    } else {
        let l = ls.last();
        device_step(device_fold(ls.drop_last(), prefix, st), prop_key(l, prefix), prop_value(l))
    }
}

/// The modules that one read adds: none where the module was absent; a
/// module without a configured speed takes the fallback speed.
pub open spec fn finish_device(st: (Option<MemoryDeviceView>, usize)) -> Seq<MemoryDeviceView> {
    match st.0 {
        Some(d) => seq![
            if d.speed == 0 {
                MemoryDeviceView { speed: st.1, ..d }
            } else {
                d
            },
        ],
        None => seq![],
    }
}

/// Prepends `a` to a result that may be missing.
pub open spec fn prepend_devices(a: Seq<MemoryDeviceView>, o: Option<Seq<MemoryDeviceView>>) -> Option<
    Seq<MemoryDeviceView>,
> {
    match o {
        Some(r) => Some(a + r),
        None => None,
    }
}

/// The modules read from the rest `s` of a `udevadm info -q property` report,
/// where the previous module's prefix ended at byte `prev` of the text it was
/// found in, `n` modules were looked for so far and `fallback` is the speed
/// to fall back on. Each round looks for the prefix of module `n` in the
/// trimmed rest, reads every line after it into a module, and goes on from
/// byte `prev` of the untrimmed rest. `None` where that byte offset is not a
/// character boundary (where slicing the text panics).
pub open spec fn udev_scan(s: Seq<char>, prev: nat, n: nat, fallback: usize) -> Option<
    Seq<MemoryDeviceView>,
>
    decreases s.len(),
{
    if prev >= text::byte_len(s) {
        Some(seq![])
    } else {
        let t = text::trim(s);
        let prefix = device_prefix(n);
        match text::find(t, prefix) {
            None => Some(seq![]),
            Some(ci) => {
                let at = text::byte_len(t.take(ci)) + text::byte_len(prefix);
                let body = text::trim(t.skip(ci + prefix.len()));
                let st = device_fold(
                    text::lines(body),
                    prefix,
                    (Some(MemoryDeviceView::empty()), fallback),
                );
                let found = finish_device(st);
                if at < text::byte_len(s) {
                    match text::char_at_byte(s, at as int) {
                        None => None,
                        Some(k) => {
                            proof {
                                text::lemma_byte_len_pos(prefix);
                                text::lemma_char_at_byte(s, at as int);
                                text::lemma_trim_len(s.skip(k));
                            }
                            prepend_devices(found, udev_scan(text::trim(s.skip(k)), at, n + 1, st.1))
                        },
                    }
                } else {
                    Some(found)
                }
            },
        }
    }
}

/// The modules of a `udevadm info -q property` report.
pub open spec fn udev_devices(report: Seq<char>) -> Option<Seq<MemoryDeviceView>> {
    udev_scan(report, 0, 0, 0)
}

/// The view of a module that may be missing.
pub open spec fn opt_device_view(o: Option<MemoryDevice>) -> Option<MemoryDeviceView> {
    match o {
        Some(d) => Some(d@),
        None => None,
    }
}

/// `str::parse::<u8>()` with 0 where the text does not parse.
pub fn parse_u8_or_zero(s: &[char]) -> (r: u8)
    ensures
        r == u8_or_zero(s@),
{
    match text::parse_uint_exec(s, 10, 255) {
        Some(v) => v as u8,
        None => 0,
    }
}

fn device_prefix_exec(n: usize) -> (v: Vec<char>)
    ensures
        v@ == device_prefix(n as nat),
{
    let mut v = text::chars_of("MEMORY_DEVICE_");
    let d = text::decimal_exec(n as u64);
    text::append_chars(&mut v, d.as_slice());
    let u = text::chars_of("_");
    text::append_chars(&mut v, u.as_slice());
    v
}

fn prop_line_exec(line: &[char], prefix: &[char]) -> (r: (Vec<char>, Vec<char>))
    ensures
        r.0@ == prop_key(line@, prefix@),
        r.1@ == prop_value(line@),
{
    let t = text::trim_chars(line);
    let eq = text::chars_of("=");
    proof {
        reveal_strlit("=");
    }
    let pieces = text::split_exec(t.as_slice(), eq.as_slice());
    let k0 = word_at_exec(&pieces, 0);
    let k = text::trim_chars(k0.as_slice());
    let key = match text::strip_prefix_exec(k.as_slice(), prefix) {
        Some(r) => r,
        None => k,
    };
    let v0 = word_at_exec(&pieces, 1);
    let value = text::trim_chars(v0.as_slice());
    (key, value)
}

fn device_step_exec(dev: Option<MemoryDevice>, fallback: usize, key: &[char], value: &[char]) -> (r:
    (Option<MemoryDevice>, usize))
    ensures
        (opt_device_view(r.0), r.1) == device_step((opt_device_view(dev), fallback), key@, value@),
{
    match dev {
        None => (None, fallback),
        Some(mut d) => {
            if text::eq_str(key, "PRESENT") {
                if text::eq_str(value, "0") {
                    (None, fallback)
                } else {
                    (Some(d), fallback)
                }
            } else if text::eq_str(key, "SIZE") {
                d.size = parse_usize_or_zero(value);
                (Some(d), fallback)
            } else if text::eq_str(key, "FORM_FACTOR") {
                d.form_factor = text::string_of(value);
                (Some(d), fallback)
            } else if text::eq_str(key, "LOCATOR") {
                d.locator = text::string_of(value);
                (Some(d), fallback)
            } else if text::eq_str(key, "BANK_LOCATOR") {
                d.bank_locator = text::string_of(value);
                (Some(d), fallback)
            } else if text::eq_str(key, "TYPE") {
                d.ram_type = text::string_of(value);
                (Some(d), fallback)
            } else if text::eq_str(key, "SPEED_MTS") {
                let fb = parse_usize_or_zero(value);
                (Some(d), fb)
            } else if text::eq_str(key, "CONFIGURED_SPEED_MTS") {
                d.speed = parse_usize_or_zero(value);
                (Some(d), fallback)
            } else if text::eq_str(key, "RANK") {
                d.rank = parse_u8_or_zero(value);
                (Some(d), fallback)
            } else {
                (Some(d), fallback)
            }
        },
    }
}

fn read_device(body: &[char], prefix: &[char], fallback: usize) -> (r: (Option<MemoryDevice>, usize))
    ensures
        (opt_device_view(r.0), r.1) == device_fold(
            text::lines(body@),
            prefix@,
            (Some(MemoryDeviceView::empty()), fallback),
        ),
{
    let ls = text::lines_exec(body);
    let ghost lv = ls.deep_view();
    let ghost init = (Some(MemoryDeviceView::empty()), fallback);
    let mut dev = Some(MemoryDevice::default());
    let mut fb = fallback;
    let mut i: usize = 0;
    assert(lv.take(0) =~= Seq::<Seq<char>>::empty());
    while i < ls.len()
        invariant
            i <= ls.len(),
            lv == ls.deep_view(),
            lv == text::lines(body@),
            init == (Some(MemoryDeviceView::empty()), fallback),
            (opt_device_view(dev), fb) == device_fold(lv.take(i as int), prefix@, init),
        decreases ls.len() - i,
    {
        assert(ls[i as int]@ == lv[i as int]);
        let (key, value) = prop_line_exec(ls[i].as_slice(), prefix);
        let (d2, f2) = device_step_exec(dev, fb, key.as_slice(), value.as_slice());
        dev = d2;
        fb = f2;
        assert(lv.take(i + 1).drop_last() =~= lv.take(i as int));
        assert(lv.take(i + 1).last() == lv[i as int]);
        i += 1;
    }
    assert(lv.take(ls.len() as int) =~= lv);
    (dev, fb)
}

fn push_finished(out: &mut Vec<MemoryDevice>, dev: Option<MemoryDevice>, fallback: usize)
    ensures
        devices_view(final(out)@) == devices_view(old(out)@) + finish_device(
            (opt_device_view(dev), fallback),
        ),
{
    match dev {
        Some(mut d) => {
            if d.speed == 0 {
                d.speed = fallback;
            }
            let ghost dv = d@;
            out.push(d);
            assert(devices_view(out@) =~= devices_view(old(out)@).push(dv));
        },
        None => {
            assert(devices_view(out@) =~= devices_view(old(out)@) + Seq::<MemoryDeviceView>::empty());
        },
    }
}

impl MemInfo {
    /// The memory modules of a `udevadm info -q property` report on the DMI
    /// device; `None` where the report makes the reader slice the text inside
    /// a character.
    pub fn parse_udevadm_memory_devices(report: &str) -> (r: Option<Vec<MemoryDevice>>)
        ensures
            match r {
                Some(v) => udev_devices(report@) == Some(devices_view(v@)),
                None => udev_devices(report@) is None,
            },
    {
        let mut cur = text::chars_of(report);
        let mut prev: u128 = 0;
        let mut n: usize = 0;
        let mut fallback: usize = 0;
        let mut out: Vec<MemoryDevice> = Vec::new();
        assert(cur@.len() == cur.len());
        assert(devices_view(out@) =~= Seq::<MemoryDeviceView>::empty());
        assert(prepend_devices(Seq::<MemoryDeviceView>::empty(), udev_devices(report@)) == udev_devices(report@)) by {
            match udev_devices(report@) {
                Some(r) => { assert(Seq::<MemoryDeviceView>::empty() + r =~= r); },
                None => {},
            }
        }
        loop
            invariant
                udev_devices(report@) == prepend_devices(
                    devices_view(out@),
                    udev_scan(cur@, prev as nat, n as nat, fallback),
                ),
                n + cur@.len() <= report@.len(),
                report@.len() <= usize::MAX,
            decreases cur@.len(),
        {
            let ghost acc = devices_view(out@);
            let blen = text::byte_len_exec(cur.as_slice());
            if prev >= blen {
                assert(acc + Seq::<MemoryDeviceView>::empty() =~= acc);
                return Some(out);
            }
            let t = text::trim_chars(cur.as_slice());
            let prefix = device_prefix_exec(n);
            match text::find_exec(t.as_slice(), prefix.as_slice()) {
                None => {
                    assert(acc + Seq::<MemoryDeviceView>::empty() =~= acc);
                    return Some(out);
                },
                Some(ci) => {
                    proof {
                        text::lemma_find_from(t@, prefix@, 0);
                        assert(text::matches_at(t@, prefix@, ci as int));
                        text::lemma_byte_len_pos(prefix@);
                    }
                    let ghost old_fb = fallback;
                    assert(ci + prefix@.len() <= t@.len());
                    assert(t@.len() == t.len() && prefix@.len() == prefix.len());
                    let pre = text::copy_range(t.as_slice(), 0, ci);
                    assert(pre@ == t@.take(ci as int));
                    assert(pre@.len() == pre.len());
                    let at: u128 = text::byte_len_exec(pre.as_slice()) + text::byte_len_exec(
                        prefix.as_slice(),
                    );
                    let body0 = text::copy_range(t.as_slice(), ci + prefix.len(), t.len());
                    assert(body0@ == t@.skip(ci + prefix@.len()));
                    let body = text::trim_chars(body0.as_slice());
                    let (dev, fb) = read_device(body.as_slice(), prefix.as_slice(), fallback);
                    let ghost found = finish_device((opt_device_view(dev), fb));
                    push_finished(&mut out, dev, fb);
                    fallback = fb;
                    if at < blen {
                        match text::char_at_byte_exec(cur.as_slice(), at) {
                            None => {
                                assert(udev_scan(cur@, prev as nat, n as nat, old_fb) is None);
                                return None;
                            },
                            Some(k) => {
                                proof {
                                    text::lemma_char_at_byte(cur@, at as int);
                                    text::lemma_trim_len(cur@.skip(k as int));
                                }
                                let rest = text::copy_range(cur.as_slice(), k, cur.len());
                                assert(rest@ == cur@.skip(k as int));
                                let ghost old_cur = cur@;
                                let ghost old_n = n;
                                cur = text::trim_chars(rest.as_slice());
                                prev = at;
                                n = n + 1;
                                proof {
                                    match udev_scan(cur@, prev as nat, n as nat, fallback) {
                                        Some(r) => {
                                            assert(acc + (found + r) =~= (acc + found) + r);
                                        },
                                        None => {},
                                    }
                                }
                            },
                        }
                    } else {
                        return Some(out);
                    }
                },
            }
        }
    }

    /// The memory modules, given what `udevadm info -q property -p
    /// /sys/devices/virtual/dmi/id` wrote: `None` where it wrote to its error
    /// stream, where its output is not UTF-8, or where the report makes the
    /// reader slice the text inside a character.
    pub fn memory_devices_from_udevadm_output(stdout: &[u8], stderr: &[u8]) -> (r: Option<
        Vec<MemoryDevice>,
    >)
        ensures
            stderr@.len() > 0 ==> r is None,
            stderr@.len() == 0 && !vstd::utf8::valid_utf8(stdout@) ==> r is None,
            stderr@.len() == 0 && vstd::utf8::valid_utf8(stdout@) ==> match r {
                Some(v) => udev_devices(vstd::utf8::decode_utf8(stdout@)) == Some(devices_view(v@)),
                None => udev_devices(vstd::utf8::decode_utf8(stdout@)) is None,
            },
    {
        if stderr.len() > 0 {
            return None;
        }
        match text::str_from_utf8(stdout) {
            Some(report) => MemInfo::parse_udevadm_memory_devices(report),
            None => None,
        }
    }
}

// ---------------------------------------------------------------------------
// `vm_stat` (macOS)
// ---------------------------------------------------------------------------

/// The page counts of a `vm_stat` report and its page size.
#[derive(Clone, Copy, Debug, PartialEq, Eq, Structural)]
pub struct VmStat {
    pub page_size: usize,
    pub free: usize,
    pub active: usize,
    pub inactive: usize,
    pub wired: usize,
    pub purgeable: usize,
    pub speculative: usize,
    pub anonymous: usize,
    pub file_backed: usize,
    pub compressor: usize,
    pub stored_in_compressor: usize,
}

impl VmStat {
    /// What is assumed before the report is read: pages of 4096 bytes and no
    /// pages counted.
    pub open spec fn initial() -> VmStat {
        VmStat {
            page_size: 4096,
            free: 0,
            active: 0,
            inactive: 0,
            wired: 0,
            purgeable: 0,
            speculative: 0,
            anonymous: 0,
            file_backed: 0,
            compressor: 0,
            stored_in_compressor: 0,
        }
    }
}

/// `str::parse::<usize>()`, with `default` where the text does not parse.
pub open spec fn usize_or(s: Seq<char>, default: nat) -> nat {
    match text::parse_uint(s, 10, usize::MAX as nat) {
        Some(v) => v,
        None => default,
    }
}

/// The page size that the header line states, if the line is the header and
/// has the text `page size of `: the text up to ` bytes` after it, read as a
/// number (4096 where it is not one).
pub open spec fn vm_header_page_size(line: Seq<char>) -> Option<nat> {
    if text::starts_with(line, "Mach Virtual Memory Statistics:"@) {
        let pieces = text::split(line, "page size of "@);
        if pieces.len() > 1 {
            Some(usize_or(text::trim(text::split_first(pieces[1], " bytes"@).0), 4096))
        } else {
            None
        }
    } else {
        None
    }
}

/// The key of a `vm_stat` line: the trimmed text before the first `:`.
pub open spec fn vm_key(line: Seq<char>) -> Seq<char> {
    text::trim(text::split_first(line, ":"@).0)
}

/// The count of a `vm_stat` line: the text after the first `:`, trimmed,
/// without its trailing dots, read as a number (0 where it is not one).
pub open spec fn vm_count(line: Seq<char>) -> nat {
    let rest = match text::split_first(line, ":"@).1 {
        Some(r) => r,
        None => seq![],
    };
    usize_or(text::trim(text::trim_end_matches(text::trim(rest), "."@)), 0)
}

/// The counts after one line: the header sets the page size, and a line
/// whose key names a count sets that count.
pub open spec fn vm_step(v: VmStat, line: Seq<char>) -> VmStat {
    let v1 = match vm_header_page_size(line) {
        Some(p) => VmStat { page_size: p as usize, ..v },
        None => v,
    };
    let key = vm_key(line);
    let c = vm_count(line) as usize;
    if key == "Pages free"@ {
        VmStat { free: c, ..v1 }
    } else if key == "Pages active"@ {
        VmStat { active: c, ..v1 }
    } else if key == "Pages inactive"@ {
        VmStat { inactive: c, ..v1 }
    } else if key == "Pages wired down"@ {
        VmStat { wired: c, ..v1 }
    } else if key == "Pages purgeable"@ {
        VmStat { purgeable: c, ..v1 }
    } else if key == "Pages speculative"@ {
        VmStat { speculative: c, ..v1 }
    } else if key == "Anonymous pages"@ {
        VmStat { anonymous: c, ..v1 }
    } else if key == "File-backed pages"@ {
        VmStat { file_backed: c, ..v1 }
    } else if key == "Pages occupied by compressor"@ {
        VmStat { compressor: c, ..v1 }
    } else if key == "Pages stored in compressor"@ {
        VmStat { stored_in_compressor: c, ..v1 }
    } else {
        v1
    }
}

pub open spec fn vm_fold(ls: Seq<Seq<char>>) -> VmStat
    decreases ls.len(),
{
    if ls.len() == 0 {
        VmStat::initial()
    } else {
        vm_step(vm_fold(ls.drop_last()), ls.last())
    }
}

/// The counts that a `vm_stat` report gives.
pub open spec fn vm_stat_of(report: Seq<char>) -> VmStat {
    vm_fold(text::lines(report))
}

fn vm_header_page_size_exec(line: &[char]) -> (r: Option<usize>)
    ensures
        match r {
            Some(p) => vm_header_page_size(line@) == Some(p as nat),
            None => vm_header_page_size(line@) is None,
        },
{
    let head = text::chars_of("Mach Virtual Memory Statistics:");
    if !text::starts_with_exec(line, head.as_slice()) {
        return None;
    }
    let pat = text::chars_of("page size of ");
    proof {
        reveal_strlit("page size of ");
    }
    let pieces = text::split_exec(line, pat.as_slice());
    if pieces.len() > 1 {
        let ghost pv = pieces.deep_view();
        assert(pieces[1]@ == pv[1]);
        let bytes = text::chars_of(" bytes");
        let (a, _b) = text::split_first_bounds(pieces[1].as_slice(), 0, pieces[1].len(), bytes.as_slice());
        proof {
            assert(pieces[1]@.subrange(0, pieces[1]@.len() as int) =~= pieces[1]@);
        }
        let num = text::copy_range(pieces[1].as_slice(), 0, a);
        let t = text::trim_chars(num.as_slice());
        match text::parse_uint_exec(t.as_slice(), 10, usize::MAX as u64) {
            Some(v) => Some(v as usize),
            None => Some(4096),
        }
    } else {
        None
    }
}

fn vm_line_exec(line: &[char]) -> (r: (Vec<char>, usize))
    ensures
        r.0@ == vm_key(line@),
        r.1 == vm_count(line@),
{
    let colon = text::chars_of(":");
    let (a, b) = text::split_first_bounds(line, 0, line.len(), colon.as_slice());
    proof {
        assert(line@.subrange(0, line@.len() as int) =~= line@);
    }
    let k0 = text::copy_range(line, 0, a);
    let key = text::trim_chars(k0.as_slice());
    let rest = match b {
        Some(b) => text::copy_range(line, b, line.len()),
        None => Vec::new(),
    };
    let t1 = text::trim_chars(rest.as_slice());
    let dot = text::chars_of(".");
    let t2 = text::trim_end_matches_exec(t1.as_slice(), dot.as_slice());
    let t3 = text::trim_chars(t2.as_slice());
    let c = parse_usize_or_zero(t3.as_slice());
    (key, c)
}

fn vm_step_exec(v: &mut VmStat, line: &[char])
    ensures
        *final(v) == vm_step(*old(v), line@),
{
    match vm_header_page_size_exec(line) {
        Some(p) => {
            v.page_size = p;
        },
        None => {},
    }
    let (key, c) = vm_line_exec(line);
    let k = key.as_slice();
    if text::eq_str(k, "Pages free") {
        v.free = c;
    } else if text::eq_str(k, "Pages active") {
        v.active = c;
    } else if text::eq_str(k, "Pages inactive") {
        v.inactive = c;
    } else if text::eq_str(k, "Pages wired down") {
        v.wired = c;
    } else if text::eq_str(k, "Pages purgeable") {
        v.purgeable = c;
    } else if text::eq_str(k, "Pages speculative") {
        v.speculative = c;
    } else if text::eq_str(k, "Anonymous pages") {
        v.anonymous = c;
    } else if text::eq_str(k, "File-backed pages") {
        v.file_backed = c;
    } else if text::eq_str(k, "Pages occupied by compressor") {
        v.compressor = c;
    } else if text::eq_str(k, "Pages stored in compressor") {
        v.stored_in_compressor = c;
    }
}

impl VmStat {
    /// The page counts and page size of a `vm_stat` report.
    pub fn parse(report: &str) -> (r: VmStat)
        ensures
            r == vm_stat_of(report@),
    {
        let chars = text::chars_of(report);
        let ls = text::lines_exec(chars.as_slice());
        let ghost lv = ls.deep_view();
        let mut v = VmStat {
            page_size: 4096,
            free: 0,
            active: 0,
            inactive: 0,
            wired: 0,
            purgeable: 0,
            speculative: 0,
            anonymous: 0,
            file_backed: 0,
            compressor: 0,
            stored_in_compressor: 0,
        };
        let mut i: usize = 0;
        while i < ls.len()
            invariant
                i <= ls.len(),
                lv == ls.deep_view(),
                lv == text::lines(report@),
                v == vm_fold(lv.take(i as int)),
            decreases ls.len() - i,
        {
            assert(ls[i as int]@ == lv[i as int]);
            vm_step_exec(&mut v, ls[i].as_slice());
            assert(lv.take(i + 1).drop_last() =~= lv.take(i as int));
            assert(lv.take(i + 1).last() == lv[i as int]);
            i += 1;
        }
        assert(lv.take(ls.len() as int) =~= lv);
        v
    }
}

/// The free pages that are not speculative (`saturating_sub`).
pub open spec fn real_free(v: VmStat) -> nat {
    if v.free >= v.speculative {
        (v.free - v.speculative) as nat
    } else {
        0
    }
}

/// Every sum and product that the figures are computed with fits in a
/// `usize`.
pub open spec fn vm_fits(v: VmStat, swap_used: usize) -> bool {
    &&& v.anonymous + v.wired + v.compressor <= usize::MAX
    &&& (v.anonymous + v.wired + v.compressor) * v.page_size <= usize::MAX
    &&& v.file_backed + v.purgeable <= usize::MAX
    &&& (v.file_backed + v.purgeable) * v.page_size <= usize::MAX
    &&& real_free(v) + v.inactive <= usize::MAX
    &&& (real_free(v) + v.inactive) * v.page_size <= usize::MAX
    &&& v.anonymous + v.wired + v.stored_in_compressor <= usize::MAX
    &&& (v.anonymous + v.wired + v.stored_in_compressor) * v.page_size + swap_used <= usize::MAX
    &&& real_free(v) * v.page_size <= usize::MAX
    &&& v.inactive * v.page_size <= usize::MAX
}

/// The memory figures computed from the page counts, the installed memory
/// (where it could be read) and the swap figures.
pub open spec fn mem_info_from_vm(mem_size: Option<u64>, v: VmStat, swap_total: usize, swap_used: usize) -> MemInfo {
    let base = MemInfo::zero();
    MemInfo {
        mem_total: match mem_size {
            Some(s) => s as usize,
            None => 0,
        },
        mem_free: (real_free(v) * v.page_size) as usize,
        active: ((v.anonymous + v.wired + v.compressor) * v.page_size) as usize,
        inactive: (v.inactive * v.page_size) as usize,
        cached: ((v.file_backed + v.purgeable) * v.page_size) as usize,
        mem_available: ((real_free(v) + v.inactive) * v.page_size) as usize,
        committed: ((v.anonymous + v.wired + v.stored_in_compressor) * v.page_size + swap_used) as usize,
        dirty: 0,
        swap_total: swap_total,
        swap_free: if swap_total >= swap_used {
            (swap_total - swap_used) as usize
        } else {
            0
        },
        ..base
    }
}

fn mul_checked(a: usize, b: usize) -> (r: Option<usize>)
    ensures
        match r {
            Some(x) => x == a * b,
            None => a * b > usize::MAX,
        },
{
    a.checked_mul(b)
}

fn add_checked(a: usize, b: usize) -> (r: Option<usize>)
    ensures
        match r {
            Some(x) => x == a + b,
            None => a + b > usize::MAX,
        },
{
    a.checked_add(b)
}

impl MemInfo {
    /// The memory figures computed from `vm_stat` counts; `None` where one
    /// of them does not fit in a `usize`.
    pub fn try_from_vm_stat(mem_size: Option<u64>, v: &VmStat, swap_total: usize, swap_used: usize) -> (r: Option<MemInfo>)
        ensures
            r == (if vm_fits(*v, swap_used) {
                Some(mem_info_from_vm(mem_size, *v, swap_total, swap_used))
            } else {
                None
            }),
    {
        let ps = v.page_size;
        let free_pages = if v.free >= v.speculative {
            v.free - v.speculative
        } else {
            0
        };
        let a = match add_checked(v.anonymous, v.wired) {
            Some(x) => x,
            None => return None,
        };
        let in_use_pages = match add_checked(a, v.compressor) {
            Some(x) => x,
            None => return None,
        };
        let in_use = match mul_checked(in_use_pages, ps) {
            Some(x) => x,
            None => return None,
        };
        let cached_pages = match add_checked(v.file_backed, v.purgeable) {
            Some(x) => x,
            None => return None,
        };
        let cached = match mul_checked(cached_pages, ps) {
            Some(x) => x,
            None => return None,
        };
        let available_pages = match add_checked(free_pages, v.inactive) {
            Some(x) => x,
            None => return None,
        };
        let available = match mul_checked(available_pages, ps) {
            Some(x) => x,
            None => return None,
        };
        let committed_pages = match add_checked(a, v.stored_in_compressor) {
            Some(x) => x,
            None => return None,
        };
        let committed_bytes = match mul_checked(committed_pages, ps) {
            Some(x) => x,
            None => return None,
        };
        let committed = match add_checked(committed_bytes, swap_used) {
            Some(x) => x,
            None => return None,
        };
        let mem_free = match mul_checked(free_pages, ps) {
            Some(x) => x,
            None => return None,
        };
        let inactive = match mul_checked(v.inactive, ps) {
            Some(x) => x,
            None => return None,
        };
        let mut m = MemInfo::default();
        m.mem_total = match mem_size {
            Some(s) => s as usize,
            None => 0,
        };
        m.mem_free = mem_free;
        m.active = in_use;
        m.inactive = inactive;
        m.cached = cached;
        m.mem_available = available;
        m.committed = committed;
        m.dirty = 0;
        m.swap_total = swap_total;
        m.swap_free = if swap_total >= swap_used {
            swap_total - swap_used
        } else {
            0
        };
        Some(m)
    }

    /// The memory figures computed from `vm_stat` counts whose figures fit
    /// in a `usize`.
    pub fn from_vm_stat(mem_size: Option<u64>, v: &VmStat, swap_total: usize, swap_used: usize) -> (r: MemInfo)
        requires
            vm_fits(*v, swap_used),
        ensures
            r == mem_info_from_vm(mem_size, *v, swap_total, swap_used),
    {
        match MemInfo::try_from_vm_stat(mem_size, v, swap_total, swap_used) {
            Some(m) => m,
            None => MemInfo::default(),
        }
    }

    /// The memory figures, given the installed memory (where it could be
    /// read), what `vm_stat` wrote (read as UTF-8 with invalid sequences
    /// replaced) and the swap figures; `None` where a figure does not fit in
    /// a `usize`.
    pub fn from_vm_stat_output(mem_size: Option<u64>, vm_stat_stdout: &[u8], swap_total: usize, swap_used: usize) -> (r: Option<MemInfo>)
        ensures
            ({
                let v = vm_stat_of(text::utf8_lossy(vm_stat_stdout@));
                r == (if vm_fits(v, swap_used) {
                    Some(mem_info_from_vm(mem_size, v, swap_total, swap_used))
                } else {
                    None
                })
            }),
    {
        let report = text::from_utf8_lossy(vm_stat_stdout);
        let v = VmStat::parse(report.as_str());
        MemInfo::try_from_vm_stat(mem_size, &v, swap_total, swap_used)
    }
}

// ---------------------------------------------------------------------------
// `system_profiler SPMemoryDataType` (macOS)
// ---------------------------------------------------------------------------

/// The fields of one entry of the `SPMemoryDataType` list that are read,
/// each where the entry has it as a string.
#[derive(Clone, Debug, PartialEq, Eq)]
pub struct ProfilerMemoryItem {
    pub dimm_size: Option<String>,
    pub dimm_speed: Option<String>,
    pub dimm_type: Option<String>,
    pub name: Option<String>,
}

/// The text of an optional string, or `default`.
pub open spec fn text_or(o: Option<String>, default: Seq<char>) -> Seq<char> {
    match o {
        Some(s) => s@,
        None => default,
    }
}

/// The size text without its unit (` MB`, then ` GB`, each as many times
/// as it ends the text), read as a number of MiB or GiB (0 where it is not
/// a number).
pub open spec fn dimm_size_number(size: Seq<char>) -> nat {
    usize_or_zero(text::trim_end_matches(text::trim_end_matches(size, " MB"@), " GB"@))
}

/// The size of a module in bytes: GiB where the text ends with ` GB`, MiB
/// otherwise.
pub open spec fn dimm_size_bytes(size: Seq<char>) -> nat {
    if text::ends_with(size, " GB"@) {
        dimm_size_number(size) * 1024 * 1024 * 1024
    } else {
        dimm_size_number(size) * 1024 * 1024
    }
}

/// The module that an entry describes.
pub open spec fn profiler_device(item: ProfilerMemoryItem) -> MemoryDeviceView {
    let size = text_or(item.dimm_size, "0"@);
    MemoryDeviceView {
        size: dimm_size_bytes(size) as usize,
        form_factor: text_or(item.dimm_type, seq![]),
        locator: text_or(item.name, seq![]),
        bank_locator: seq![],
        ram_type: text_or(item.dimm_type, seq![]),
        speed: usize_or_zero(text::trim_end_matches(text_or(item.dimm_speed, "0"@), " MHz"@)) as usize,
        rank: 0,
    }
}

/// The size of the module that an entry describes fits in a `usize`.
pub open spec fn profiler_item_fits(item: ProfilerMemoryItem) -> bool {
    dimm_size_bytes(text_or(item.dimm_size, "0"@)) <= usize::MAX
}

fn text_or_exec(o: &Option<String>, default: &str) -> (r: Vec<char>)
    ensures
        r@ == text_or(*o, default@),
{
    match o {
        Some(s) => text::chars_of(s.as_str()),
        None => text::chars_of(default),
    }
}

impl MemInfo {
    /// The module that a `system_profiler` memory entry describes; `None`
    /// where its size in bytes does not fit in a `usize`.
    pub fn memory_device_from_profiler(item: &ProfilerMemoryItem) -> (r: Option<MemoryDevice>)
        ensures
            match r {
                Some(d) => profiler_item_fits(*item) && d@ == profiler_device(*item),
                None => !profiler_item_fits(*item),
            },
    {
        let size = text_or_exec(&item.dimm_size, "0");
        let mb = text::chars_of(" MB");
        let gb = text::chars_of(" GB");
        let t1 = text::trim_end_matches_exec(size.as_slice(), mb.as_slice());
        let t2 = text::trim_end_matches_exec(t1.as_slice(), gb.as_slice());
        let number = parse_usize_or_zero(t2.as_slice());
        let unit: usize = if text::ends_with_exec(size.as_slice(), gb.as_slice()) {
            1024 * 1024 * 1024
        } else {
            1024 * 1024
        };
        proof {
            if text::ends_with(size@, " GB"@) {
                assert(number * 1024 * 1024 * 1024 == number * 1073741824) by (nonlinear_arith);
            } else {
                assert(number * 1024 * 1024 == number * 1048576) by (nonlinear_arith);
            }
        }
        assert(number * unit == dimm_size_bytes(size@));
        let bytes = match mul_checked(number, unit) {
            Some(b) => b,
            None => {
                return None;
            },
        };
        let speed_text = text_or_exec(&item.dimm_speed, "0");
        let mhz = text::chars_of(" MHz");
        let s1 = text::trim_end_matches_exec(speed_text.as_slice(), mhz.as_slice());
        let speed = parse_usize_or_zero(s1.as_slice());
        let form = text_or_exec(&item.dimm_type, "");
        let loc = text_or_exec(&item.name, "");
        proof {
            reveal_strlit("");
            assert(""@ =~= Seq::<char>::empty());
        }
        Some(MemoryDevice {
            size: bytes,
            form_factor: text::string_of(form.as_slice()),
            locator: text::string_of(loc.as_slice()),
            bank_locator: String::new(),
            ram_type: text::string_of(form.as_slice()),
            speed,
            rank: 0,
        })
    }

    /// The modules that the `system_profiler SPMemoryDataType` entries
    /// describe, in order; `None` where the size of one does not fit in a
    /// `usize`.
    pub fn memory_devices_from_profiler(items: &Vec<ProfilerMemoryItem>) -> (r: Option<Vec<MemoryDevice>>)
        ensures
            match r {
                Some(v) => (forall|i: int| 0 <= i < items@.len() ==> profiler_item_fits(#[trigger] items@[i]))
                    && devices_view(v@) == items@.map_values(|it: ProfilerMemoryItem| profiler_device(it)),
                None => exists|i: int| 0 <= i < items@.len() && !profiler_item_fits(#[trigger] items@[i]),
            },
    {
        let mut out: Vec<MemoryDevice> = Vec::new();
        let mut i: usize = 0;
        while i < items.len()
            invariant
                i <= items.len(),
                forall|j: int| 0 <= j < i ==> profiler_item_fits(#[trigger] items@[j]),
                devices_view(out@) == items@.take(i as int).map_values(|it: ProfilerMemoryItem| profiler_device(it)),
            decreases items.len() - i,
        {
            match MemInfo::memory_device_from_profiler(&items[i]) {
                Some(d) => {
                    let ghost prev = devices_view(out@);
                    out.push(d);
                    assert(devices_view(out@) =~= prev.push(d@));
                    assert(items@.take(i + 1).map_values(|it: ProfilerMemoryItem| profiler_device(it)) =~= items@.take(i as int).map_values(|it: ProfilerMemoryItem| profiler_device(it)).push(profiler_device(items@[i as int])));
                },
                None => {
                    assert(!profiler_item_fits(items@[i as int]));
                    return None;
                },
            }
            i += 1;
        }
        assert(items@.take(items.len() as int) =~= items@);
        Some(out)
    }
}

} // verus!
