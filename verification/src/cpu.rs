//! Processor information: what `sysctl` reports of the processor and the
//! per-core tick counters, and what is computed from them.
use crate::processes;
use crate::text;
use vstd::prelude::*;

verus! {

/// What does not change while the system runs.
#[derive(Clone, Debug, PartialEq, Eq)]
pub struct MacosCpuStaticInfo {
    pub name: String,
    pub logical_cpu_count: u32,
    pub socket_count: Option<u8>,
    pub base_frequency_khz: Option<u64>,
    pub virtualization_technology: Option<String>,
    pub is_virtual_machine: Option<bool>,
    pub l1_combined_cache: Option<u64>,
    pub l2_cache: Option<u64>,
    pub l3_cache: Option<u64>,
    pub l4_cache: Option<u64>,
}

impl Default for MacosCpuStaticInfo {
    fn default() -> (r: Self)
        ensures
            r.name@.len() == 0,
            r.logical_cpu_count == 0,
            r.socket_count is None,
            r.base_frequency_khz is None,
            r.virtualization_technology is None,
            r.is_virtual_machine is None,
            r.l1_combined_cache is None,
            r.l2_cache is None,
            r.l3_cache is None,
            r.l4_cache is None,
    {
        MacosCpuStaticInfo {
            name: String::new(),
            logical_cpu_count: 0,
            socket_count: None,
            base_frequency_khz: None,
            virtualization_technology: None,
            is_virtual_machine: None,
            l1_combined_cache: None,
            l2_cache: None,
            l3_cache: None,
            l4_cache: None,
        }
    }
}

impl MacosCpuStaticInfo {
    pub fn name(&self) -> (r: &str)
        ensures
            r@ == self.name@,
    {
        self.name.as_str()
    }

    pub fn logical_cpu_count(&self) -> (r: u32)
        ensures
            r == self.logical_cpu_count,
    {
        self.logical_cpu_count
    }

    pub fn socket_count(&self) -> (r: Option<u8>)
        ensures
            r == self.socket_count,
    {
        self.socket_count
    }

    pub fn base_frequency_khz(&self) -> (r: Option<u64>)
        ensures
            r == self.base_frequency_khz,
    {
        self.base_frequency_khz
    }

    pub fn virtualization_technology(&self) -> (r: Option<&str>)
        ensures
            text::opt_str_view(r) == crate::apps::opt_string_view(self.virtualization_technology),
    {
        match &self.virtualization_technology {
            Some(s) => Some(s.as_str()),
            None => None,
        }
    }

    pub fn is_virtual_machine(&self) -> (r: Option<bool>)
        ensures
            r == self.is_virtual_machine,
    {
        self.is_virtual_machine
    }

    pub fn l1_combined_cache(&self) -> (r: Option<u64>)
        ensures
            r == self.l1_combined_cache,
    {
        self.l1_combined_cache
    }

    pub fn l2_cache(&self) -> (r: Option<u64>)
        ensures
            r == self.l2_cache,
    {
        self.l2_cache
    }

    pub fn l3_cache(&self) -> (r: Option<u64>)
        ensures
            r == self.l3_cache,
    {
        self.l3_cache
    }

    pub fn l4_cache(&self) -> (r: Option<u64>)
        ensures
            r == self.l4_cache,
    {
        self.l4_cache
    }
}

/// What `sysctl` reported of the processor; `None` where a name could not
/// be read.
#[derive(Clone, Debug, PartialEq, Eq)]
pub struct CpuSysctl {
    /// `machdep.cpu.brand_string`
    pub brand: Option<String>,
    /// `hw.logicalcpu`
    pub logical: Option<u32>,
    /// `hw.physicalcpu`
    pub physical: Option<u32>,
    /// `hw.cpufrequency`, in Hz
    pub frequency_hz: Option<u64>,
    /// `hw.l1icachesize`
    pub l1i: Option<u64>,
    /// `hw.l1dcachesize`
    pub l1d: Option<u64>,
    /// `hw.l2cachesize`
    pub l2: Option<u64>,
    /// `hw.l3cachesize`
    pub l3: Option<u64>,
    /// `kern.hv_vmm_present`
    pub hv_vmm_present: Option<u32>,
}

pub open spec fn u32_or(o: Option<u32>, d: u32) -> u32 {
    match o {
        Some(v) => v,
        None => d,
    }
}

pub open spec fn u64_or(o: Option<u64>, d: u64) -> u64 {
    match o {
        Some(v) => v,
        None => d,
    }
}

/// The number of sockets: logical over physical processors (at least 1
/// physical), at least 1, as a `u8` (truncated).
pub open spec fn socket_count_of(logical: u32, physical: u32) -> u8 {
    let q = logical / (if physical == 0 { 1 } else { physical });
    (if q == 0 { 1 } else { q }) as u8
}

/// The L1 caches fit in a `u64` together.
pub open spec fn cpu_sysctl_fits(s: CpuSysctl) -> bool {
    u64_or(s.l1i, 0) + u64_or(s.l1d, 0) <= u64::MAX
}

/// The processor's static information from what `sysctl` reported: the
/// brand string (`Unknown CPU` where there is none); 1 logical and 1
/// physical processor where unknown; the base frequency in kHz; the L1
/// caches together, where they are not 0; `Hypervisor` as the
/// virtualization technology of a virtual machine.
pub open spec fn static_info_ok(s: CpuSysctl, r: MacosCpuStaticInfo) -> bool {
    let logical = u32_or(s.logical, 1);
    let l1 = u64_or(s.l1i, 0) + u64_or(s.l1d, 0);
    &&& r.name@ == match s.brand {
        Some(b) => b@,
        None => "Unknown CPU"@,
    }
    &&& r.logical_cpu_count == logical
    &&& r.socket_count == Some(socket_count_of(logical, u32_or(s.physical, 1)))
    &&& r.base_frequency_khz == match s.frequency_hz {
        Some(f) => Some((f / 1000) as u64),
        None => None,
    }
    &&& r.l1_combined_cache == (if l1 > 0 { Some(l1 as u64) } else { None })
    &&& r.l2_cache == s.l2
    &&& r.l3_cache == s.l3
    &&& r.l4_cache is None
    &&& r.is_virtual_machine == match s.hv_vmm_present {
        Some(v) => Some(v != 0),
        None => None,
    }
    &&& crate::apps::opt_string_view(r.virtualization_technology) == (if r.is_virtual_machine == Some(true) {
        Some("Hypervisor"@)
    } else {
        None
    })
}

impl MacosCpuStaticInfo {
    /// The processor's static information from what `sysctl` reported,
    /// where the L1 caches fit in a `u64` together.
    pub fn from_sysctl(s: &CpuSysctl) -> (r: MacosCpuStaticInfo)
        requires
            cpu_sysctl_fits(*s),
        ensures
            static_info_ok(*s, r),
    {
        let name = match &s.brand {
            Some(b) => {
                let c = text::chars_of(b.as_str());
                text::string_of(c.as_slice())
            },
            None => {
                let c = text::chars_of("Unknown CPU");
                text::string_of(c.as_slice())
            },
        };
        let logical = match s.logical {
            Some(v) => v,
            None => 1,
        };
        let physical = match s.physical {
            Some(v) => v,
            None => 1,
        };
        let q = logical / (if physical == 0 { 1 } else { physical });
        let sockets = (if q == 0 { 1 } else { q }) as u8;
        let khz = match s.frequency_hz {
            Some(f) => Some(f / 1000),
            None => None,
        };
        let l1i = match s.l1i {
            Some(v) => v,
            None => 0,
        };
        let l1d = match s.l1d {
            Some(v) => v,
            None => 0,
        };
        let l1 = if l1i + l1d > 0 { Some(l1i + l1d) } else { None };
        let is_vm = match s.hv_vmm_present {
            Some(v) => Some(v != 0),
            None => None,
        };
        let virt = match is_vm {
            Some(true) => {
                let c = text::chars_of("Hypervisor");
                Some(text::string_of(c.as_slice()))
            },
            _ => None,
        };
        MacosCpuStaticInfo {
            name,
            logical_cpu_count: logical,
            socket_count: Some(sockets),
            base_frequency_khz: khz,
            virtualization_technology: virt,
            is_virtual_machine: is_vm,
            l1_combined_cache: l1,
            l2_cache: s.l2,
            l3_cache: s.l3,
            l4_cache: None,
        }
    }

    /// The processor's static information from what `sysctl` reported;
    /// `None` where the L1 caches do not fit in a `u64` together.
    pub fn try_from_sysctl(s: &CpuSysctl) -> (r: Option<MacosCpuStaticInfo>)
        ensures
            match r {
                Some(i) => cpu_sysctl_fits(*s) && static_info_ok(*s, i),
                None => !cpu_sysctl_fits(*s),
            },
    {
        let l1i = match s.l1i {
            Some(v) => v,
            None => 0,
        };
        let l1d = match s.l1d {
            Some(v) => v,
            None => 0,
        };
        if l1i > u64::MAX - l1d {
            return None;
        }
        Some(MacosCpuStaticInfo::from_sysctl(s))
    }
}

/// The text that `sysctlbyname` wrote for a string value: up to the first
/// NUL, or `size` bytes where there is none, as UTF-8 with invalid
/// sequences replaced.
pub fn sysctl_text(buf: &[u8], size: usize) -> (r: String)
    requires
        processes::c_text_len(buf@, size as int) <= buf@.len(),
    ensures
        r@ == processes::c_text(buf@, size as int),
{
    let len = match processes::nul_from_exec(buf, 0) {
        Some(j) => j,
        None => size,
    };
    let part = text::bytes_range(buf, 0, len);
    text::from_utf8_lossy(part.as_slice())
}

// ---------------------------------------------------------------------------
// Tick counters
// ---------------------------------------------------------------------------

/// The ticks a core spent in each state.
#[derive(Clone, Copy, Debug, PartialEq, Eq, Structural)]
pub struct CpuTicks {
    pub user: u64,
    pub system: u64,
    pub idle: u64,
    pub nice: u64,
}

/// The ticks of the cores in the load report of `host_processor_info`:
/// four counters (user, system, idle, nice) per core, each sign-extended.
pub open spec fn ticks_of(info: Seq<i32>, count: nat) -> Seq<CpuTicks> {
    Seq::new(
        count,
        |i: int|
            CpuTicks {
                user: info[4 * i] as u64,
                system: info[4 * i + 1] as u64,
                idle: info[4 * i + 2] as u64,
                nice: info[4 * i + 3] as u64,
            },
    )
}

/// The ticks of `count` cores in a load report.
pub fn ticks_from_load_info(info: &[i32], count: usize) -> (r: Vec<CpuTicks>)
    requires
        4 * count <= info@.len(),
    ensures
        r@ == ticks_of(info@, count as nat),
{
    let mut out: Vec<CpuTicks> = Vec::new();
    let mut i: usize = 0;
    while i < count
        invariant
            i <= count,
            4 * count <= info@.len(),
            out@ =~= ticks_of(info@, count as nat).take(i as int),
        decreases count - i,
    {
        assert(i * 4 + 3 < info@.len()) by (nonlinear_arith)
            requires
                i < count,
                4 * count <= info@.len(),
        ;
        assert(info@.len() == info.len());
        let base = i * 4;
        out.push(
            CpuTicks {
                user: info[base] as u64,
                system: info[base + 1] as u64,
                idle: info[base + 2] as u64,
                nice: info[base + 3] as u64,
            },
        );
        i += 1;
    }
    out
}

/// The ticks of `count` idle cores (what is reported when the counters
/// cannot be read).
pub fn zero_ticks(count: usize) -> (r: Vec<CpuTicks>)
    ensures
        r@.len() == count,
        forall|i: int| 0 <= i < count ==> r@[i] == (CpuTicks { user: 0, system: 0, idle: 0, nice: 0 }),
{
    let mut out: Vec<CpuTicks> = Vec::new();
    let mut i: usize = 0;
    while i < count
        invariant
            i <= count,
            out@.len() == i,
            forall|j: int| 0 <= j < i ==> out@[j] == (CpuTicks { user: 0, system: 0, idle: 0, nice: 0 }),
        decreases count - i,
    {
        out.push(CpuTicks { user: 0, system: 0, idle: 0, nice: 0 });
        i += 1;
    }
    out
}

/// The ticks a core spent between two readings: in all states, in user and
/// system mode. Counters that went down count 0.
#[derive(Clone, Copy, Debug, PartialEq, Eq, Structural)]
pub struct TickDelta {
    pub total: u64,
    pub user: u64,
    pub system: u64,
}

/// All the ticks of a reading.
pub open spec fn total_ticks(t: CpuTicks) -> nat {
    (t.user + t.system + t.idle + t.nice) as nat
}

/// The ticks between two readings of a core.
pub open spec fn delta_of(prev: CpuTicks, curr: CpuTicks) -> TickDelta {
    TickDelta {
        total: processes::sat_sub_nat(total_ticks(curr), total_ticks(prev)) as u64,
        user: processes::sat_sub(curr.user, prev.user) as u64,
        system: processes::sat_sub(curr.system, prev.system) as u64,
    }
}

/// The totals of every reading fit in a `u64`.
pub open spec fn ticks_fit(ts: Seq<CpuTicks>) -> bool {
    forall|i: int| 0 <= i < ts.len() ==> #[trigger] total_ticks(ts[i]) <= u64::MAX
}

/// The ticks of each core between two readings; `None` where the readings
/// have different numbers of cores (the previous reading is then replaced
/// and every usage is 0).
pub fn tick_deltas(prev: &Vec<CpuTicks>, curr: &Vec<CpuTicks>) -> (r: Option<Vec<TickDelta>>)
    requires
        prev@.len() == curr@.len() ==> ticks_fit(prev@) && ticks_fit(curr@),
    ensures
        match r {
            Some(d) => prev@.len() == curr@.len() && d@.len() == curr@.len() && forall|i: int|
                0 <= i < d@.len() ==> #[trigger] d@[i] == delta_of(prev@[i], curr@[i]),
            None => prev@.len() != curr@.len(),
        },
{
    if prev.len() != curr.len() {
        return None;
    }
    let mut out: Vec<TickDelta> = Vec::new();
    let mut i: usize = 0;
    while i < curr.len()
        invariant
            prev@.len() == curr@.len(),
            ticks_fit(prev@),
            ticks_fit(curr@),
            i <= curr.len(),
            out@.len() == i,
            forall|j: int| 0 <= j < i ==> #[trigger] out@[j] == delta_of(prev@[j], curr@[j]),
        decreases curr.len() - i,
    {
        let p = prev[i];
        let c = curr[i];
        assert(total_ticks(p) <= u64::MAX && total_ticks(c) <= u64::MAX) by {
            assert(total_ticks(prev@[i as int]) <= u64::MAX);
            assert(total_ticks(curr@[i as int]) <= u64::MAX);
        }
        let pt = p.user + p.system + p.idle + p.nice;
        let ct = c.user + c.system + c.idle + c.nice;
        out.push(
            TickDelta {
                total: ct.saturating_sub(pt),
                user: c.user.saturating_sub(p.user),
                system: c.system.saturating_sub(p.system),
            },
        );
        i += 1;
    }
    Some(out)
}

/// A core's tick deltas count every state: the total is the rise of
/// user + system + idle + nice between the readings (0 where it went down),
/// and the user and system deltas are the rises of those counters. So ticks
/// spent only in nice mode raise the total by as many and leave user and
/// system at 0.
pub proof fn lemma_tick_delta_counts_all_states(prev: CpuTicks, curr: CpuTicks)
    requires
        prev.user + prev.system + prev.idle + prev.nice <= u64::MAX,
        curr.user + curr.system + curr.idle + curr.nice <= u64::MAX,
    ensures
        delta_of(prev, curr).total == (if curr.user + curr.system + curr.idle + curr.nice
            >= prev.user + prev.system + prev.idle + prev.nice {
            (curr.user + curr.system + curr.idle + curr.nice) - (prev.user + prev.system + prev.idle
                + prev.nice)
        } else {
            0
        }),
        delta_of(prev, curr).user == (if curr.user >= prev.user {
            curr.user - prev.user
        } else {
            0
        }),
        delta_of(prev, curr).system == (if curr.system >= prev.system {
            curr.system - prev.system
        } else {
            0
        }),
        curr.user == prev.user && curr.system == prev.system && curr.idle == prev.idle
            && curr.nice >= prev.nice ==> delta_of(prev, curr).total == curr.nice - prev.nice
            && delta_of(prev, curr).user == 0 && delta_of(prev, curr).system == 0,
        curr.user >= prev.user && curr.system >= prev.system && curr.idle >= prev.idle && curr.nice
            >= prev.nice ==> delta_of(prev, curr).total >= delta_of(prev, curr).user + delta_of(
            prev,
            curr,
        ).system,
{
}

/// The current frequency in MHz: `hw.cpufrequency`, or `hw.cpufrequency_max`
/// where that cannot be read, or 0.
pub fn current_frequency_mhz(frequency_hz: Option<u64>, frequency_max_hz: Option<u64>) -> (r: u64)
    ensures
        r == match frequency_hz {
            Some(f) => f / 1000000,
            None => match frequency_max_hz {
                Some(f) => f / 1000000,
                None => 0,
            },
        },
{
    match frequency_hz {
        Some(f) => f / 1000000,
        None => match frequency_max_hz {
            Some(f) => f / 1000000,
            None => 0,
        },
    }
}

/// The seconds since boot (0 where the clock is behind the boot time).
pub fn uptime_seconds(now: u64, boot: u64) -> (r: u64)
    ensures
        r == processes::sat_sub(now, boot),
{
    now.saturating_sub(boot)
}

/// The sum of the thread counts of the processes.
pub open spec fn sum_counts(s: Seq<usize>) -> nat
    decreases s.len(),
{
    if s.len() == 0 {
        0
    } else {
        sum_counts(s.drop_last()) + s.last() as nat
    }
}

/// The number of threads of all processes, where it fits in a `u64`.
pub fn thread_count(task_counts: &Vec<usize>) -> (r: u64)
    requires
        sum_counts(task_counts@) <= u64::MAX,
    ensures
        r == sum_counts(task_counts@),
{
    let mut total: u64 = 0;
    let mut i: usize = 0;
    while i < task_counts.len()
        invariant
            i <= task_counts.len(),
            sum_counts(task_counts@) <= u64::MAX,
            total == sum_counts(task_counts@.take(i as int)),
        decreases task_counts.len() - i,
    {
        proof {
            assert(task_counts@.take(i + 1).drop_last() =~= task_counts@.take(i as int));
            lemma_sum_counts_prefix(task_counts@, i + 1);
        }
        total = total + task_counts[i] as u64;
        i += 1;
    }
    assert(task_counts@.take(task_counts.len() as int) =~= task_counts@);
    total
}

/// A prefix sums to no more than the whole.
pub proof fn lemma_sum_counts_prefix(s: Seq<usize>, k: int)
    requires
        0 <= k <= s.len(),
    ensures
        sum_counts(s.take(k)) <= sum_counts(s),
    decreases s.len() - k,
{
    if k < s.len() {
        lemma_sum_counts_prefix(s, k + 1);
        assert(s.take(k + 1).drop_last() =~= s.take(k));
    } else {
        assert(s.take(k) =~= s);
    }
}

} // verus!
