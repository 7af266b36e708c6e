//! Processes: their states and the decoding of what the kernel reports
//! about a process (its names, its arguments, its usage counters).
use crate::text;
use vstd::prelude::*;

verus! {

// ---------------------------------------------------------------------------
// States
// ---------------------------------------------------------------------------

/// What a process is doing, in the order of its wire code.
#[derive(Clone, Copy, Debug, PartialEq, Eq, Structural)]
pub enum ProcessState {
    Running,
    Sleeping,
    SleepingUninterruptible,
    Zombie,
    Stopped,
    Tracing,
    Dead,
    WakeKill,
    Waking,
    Parked,
    Unknown,
}

impl ProcessState {
    /// The wire code of a state.
    pub open spec fn spec_code(self) -> u8 {
        match self {
            ProcessState::Running => 0,
            ProcessState::Sleeping => 1,
            ProcessState::SleepingUninterruptible => 2,
            ProcessState::Zombie => 3,
            ProcessState::Stopped => 4,
            ProcessState::Tracing => 5,
            ProcessState::Dead => 6,
            ProcessState::WakeKill => 7,
            ProcessState::Waking => 8,
            ProcessState::Parked => 9,
            ProcessState::Unknown => 10,
        }
    }

    /// The state of a wire code: codes from 10 up are `Unknown`.
    pub open spec fn spec_from_code(u: u64) -> ProcessState {
        if u == 0 {
            ProcessState::Running
        } else if u == 1 {
            ProcessState::Sleeping
        } else if u == 2 {
            ProcessState::SleepingUninterruptible
        } else if u == 3 {
            ProcessState::Zombie
        } else if u == 4 {
            ProcessState::Stopped
        } else if u == 5 {
            ProcessState::Tracing
        } else if u == 6 {
            ProcessState::Dead
        } else if u == 7 {
            ProcessState::WakeKill
        } else if u == 8 {
            ProcessState::Waking
        } else if u == 9 {
            ProcessState::Parked
        } else {
            ProcessState::Unknown
        }
    }

    /// The wire code of a state.
    pub fn code(&self) -> (r: u8)
        ensures
            r == self.spec_code(),
    {
        match self {
            ProcessState::Running => 0,
            ProcessState::Sleeping => 1,
            ProcessState::SleepingUninterruptible => 2,
            ProcessState::Zombie => 3,
            ProcessState::Stopped => 4,
            ProcessState::Tracing => 5,
            ProcessState::Dead => 6,
            ProcessState::WakeKill => 7,
            ProcessState::Waking => 8,
            ProcessState::Parked => 9,
            ProcessState::Unknown => 10,
        }
    }

    /// The state of a wire code: codes from 10 up are `Unknown`.
    pub fn from_code(u: u64) -> (r: ProcessState)
        ensures
            r == ProcessState::spec_from_code(u),
    {
        if u == 0 {
            ProcessState::Running
        } else if u == 1 {
            ProcessState::Sleeping
        } else if u == 2 {
            ProcessState::SleepingUninterruptible
        } else if u == 3 {
            ProcessState::Zombie
        } else if u == 4 {
            ProcessState::Stopped
        } else if u == 5 {
            ProcessState::Tracing
        } else if u == 6 {
            ProcessState::Dead
        } else if u == 7 {
            ProcessState::WakeKill
        } else if u == 8 {
            ProcessState::Waking
        } else if u == 9 {
            ProcessState::Parked
        } else {
            ProcessState::Unknown
        }
    }
}

/// Decoding the wire code of a state gives the state back.
pub proof fn lemma_state_code_roundtrip(s: ProcessState)
    ensures
        ProcessState::spec_from_code(s.spec_code() as u64) == s,
{
}

/// The state that the kernel's run status of a process (macOS `pti_numrunning`
/// as read) stands for.
pub open spec fn spec_map_proc_state(status: u32) -> ProcessState {
    if status == 1 {
        ProcessState::Sleeping
    } else if status == 2 {
        ProcessState::Running
    } else if status == 3 {
        ProcessState::Stopped
    } else if status == 4 {
        ProcessState::Zombie
    } else {
        ProcessState::Unknown
    }
}

/// The state that a process's run status stands for.
pub fn map_proc_state(status: u32) -> (r: ProcessState)
    ensures
        r == spec_map_proc_state(status),
{
    match status {
        1 => ProcessState::Sleeping,
        2 => ProcessState::Running,
        3 => ProcessState::Stopped,
        4 => ProcessState::Zombie,
        _ => ProcessState::Unknown,
    }
}

// ---------------------------------------------------------------------------
// Names read from a NUL-terminated buffer
// ---------------------------------------------------------------------------

/// The first NUL byte of `b` at or after `i`.
pub open spec fn nul_from(b: Seq<u8>, i: int) -> Option<int>
    decreases b.len() - i,
{
    if i < 0 || i >= b.len() {
        None
    } else if b[i] == 0 {
        Some(i)
    } else {
        nul_from(b, i + 1)
    }
}

pub proof fn lemma_nul_from(b: Seq<u8>, i: int)
    requires
        0 <= i,
    ensures
        nul_from(b, i) matches Some(j) ==> i <= j < b.len() && b[j] == 0 && forall|k: int|
            i <= k < j ==> b[k] != 0,
        nul_from(b, i) is None ==> forall|k: int| i <= k < b.len() ==> b[k] != 0,
    decreases b.len() - i,
{
    if i < b.len() && b[i] != 0 {
        lemma_nul_from(b, i + 1);
    }
}

/// The index of the first NUL byte at or after `i`.
pub fn nul_from_exec(b: &[u8], i: usize) -> (r: Option<usize>)
    ensures
        match r {
            Some(j) => nul_from(b@, i as int) == Some(j as int),
            None => nul_from(b@, i as int) is None,
        },
{
    let mut k = i;
    while k < b.len()
        invariant
            i <= k,
            nul_from(b@, i as int) == nul_from(b@, k as int),
        decreases b.len() - k,
    {
        if b[k] == 0 {
            return Some(k);
        }
        k += 1;
    }
    None
}

/// The length of the text that a kernel call wrote into a buffer: up to the
/// first NUL, or the length the call returned where there is none.
pub open spec fn c_text_len(b: Seq<u8>, ret: int) -> int {
    match nul_from(b, 0) {
        Some(j) => j,
        None => ret,
    }
}

/// The text a kernel call wrote into a buffer, as UTF-8 with invalid
/// sequences replaced, where the call returned `ret > 0`.
pub open spec fn c_text(b: Seq<u8>, ret: int) -> Seq<char> {
    text::utf8_lossy(b.take(c_text_len(b, ret)))
}

/// The text that a kernel call returning `ret` bytes wrote into `buf`;
/// `None` where the call failed (`ret <= 0`).
pub fn c_text_of(buf: &[u8], ret: i32) -> (r: Option<String>)
    requires
        ret > 0 ==> c_text_len(buf@, ret as int) <= buf@.len(),
    ensures
        match r {
            Some(s) => ret > 0 && s@ == c_text(buf@, ret as int),
            None => ret <= 0,
        },
{
    if ret <= 0 {
        return None;
    }
    let len = match nul_from_exec(buf, 0) {
        Some(j) => j,
        None => ret as usize,
    };
    let part = text::bytes_range(buf, 0, len);
    Some(text::from_utf8_lossy(part.as_slice()))
}

/// The name of a process as `proc_name` wrote it, or `pid:<pid>` where the
/// call failed.
pub fn proc_name_from(buf: &[u8], ret: i32, pid: u32) -> (r: String)
    requires
        ret > 0 ==> c_text_len(buf@, ret as int) <= buf@.len(),
    ensures
        r@ == (if ret > 0 {
            c_text(buf@, ret as int)
        } else {
            "pid:"@ + text::decimal(pid as nat)
        }),
{
    match c_text_of(buf, ret) {
        Some(s) => s,
        None => {
            let mut v = text::chars_of("pid:");
            let d = text::decimal_exec(pid as u64);
            text::append_chars(&mut v, d.as_slice());
            text::string_of(v.as_slice())
        },
    }
}

/// The executable path of a process as `proc_pidpath` wrote it, or the
/// empty text where the call failed.
pub fn proc_exe_from(buf: &[u8], ret: i32) -> (r: String)
    requires
        ret > 0 ==> c_text_len(buf@, ret as int) <= buf@.len(),
    ensures
        r@ == (if ret > 0 {
            c_text(buf@, ret as int)
        } else {
            Seq::<char>::empty()
        }),
{
    match c_text_of(buf, ret) {
        Some(s) => s,
        None => String::new(),
    }
}

/// The positive entries of `s`, in order, as process ids.
pub open spec fn positive_pids_of(s: Seq<i32>) -> Seq<u32>
    decreases s.len(),
{
    if s.len() == 0 {
        seq![]
    } else if s.last() > 0 {
        positive_pids_of(s.drop_last()).push(s.last() as u32)
    } else {
        positive_pids_of(s.drop_last())
    }
}

/// The process ids that `proc_listallpids` wrote: the first `actual` entries
/// that are positive, in order; none where the call failed.
pub open spec fn listed_pids(buf: Seq<i32>, actual: int) -> Seq<u32> {
    if actual <= 0 {
        seq![]
    } else {
        positive_pids_of(buf.take(actual))
    }
}

/// The process ids that `proc_listallpids` wrote into `buf`.
pub fn positive_pids(buf: &[i32], actual: i32) -> (r: Vec<u32>)
    requires
        actual <= buf@.len(),
    ensures
        r@ == listed_pids(buf@, actual as int),
{
    let mut out: Vec<u32> = Vec::new();
    if actual <= 0 {
        return out;
    }
    let n = actual as usize;
    let mut i: usize = 0;
    while i < n
        invariant
            n == actual,
            n <= buf.len(),
            i <= n,
            out@ == positive_pids_of(buf@.take(i as int)),
        decreases n - i,
    {
        let p = buf[i];
        assert(buf@.take(i + 1).drop_last() =~= buf@.take(i as int));
        assert(buf@.take(i + 1).last() == p);
        if p > 0 {
            out.push(p as u32);
        }
        i += 1;
    }
    out
}

// ---------------------------------------------------------------------------
// Arguments (`KERN_PROCARGS2`)
// ---------------------------------------------------------------------------

/// The first non-NUL byte of `b` at or after `i`.
pub open spec fn non_nul_from(b: Seq<u8>, i: int) -> Option<int>
    decreases b.len() - i,
{
    if i < 0 || i >= b.len() {
        None
    } else if b[i] != 0 {
        Some(i)
    } else {
        non_nul_from(b, i + 1)
    }
}

pub proof fn lemma_non_nul_from(b: Seq<u8>, i: int)
    requires
        0 <= i,
    ensures
        non_nul_from(b, i) matches Some(j) ==> i <= j < b.len() && b[j] != 0,
    decreases b.len() - i,
{
    if i < b.len() && b[i] == 0 {
        lemma_non_nul_from(b, i + 1);
    }
}

/// The arguments from byte `pos` on: the non-empty NUL-terminated pieces
/// (the last one may lack its NUL), until `argc` of them were taken.
pub open spec fn procargs_from(rest: Seq<u8>, pos: int, taken: nat, argc: nat) -> Seq<Seq<u8>>
    decreases rest.len() + 1 - pos,
{
    if pos < 0 || pos >= rest.len() || taken >= argc {
        seq![]
    } else {
        let end = match nul_from(rest, pos) {
            Some(e) => e,
            None => rest.len() as int,
        };
        proof {
            lemma_nul_from(rest, pos);
        }
        if end > pos {
            seq![rest.subrange(pos, end)] + procargs_from(rest, end + 1, taken + 1, argc)
        } else {
            procargs_from(rest, end + 1, taken, argc)
        }
    }
}

/// Where the arguments start: after the executable path (up to the first
/// NUL) and the NULs that pad it.
pub open spec fn procargs_start(rest: Seq<u8>) -> int {
    let exe_end = match nul_from(rest, 0) {
        Some(e) => e,
        None => rest.len() as int,
    };
    match non_nul_from(rest, exe_end) {
        Some(s) => s,
        None => rest.len() as int,
    }
}

/// The texts of byte pieces, as UTF-8 with invalid sequences replaced.
pub open spec fn lossy_texts(ps: Seq<Seq<u8>>) -> Seq<Seq<char>> {
    ps.map_values(|p: Seq<u8>| text::utf8_lossy(p))
}

/// The arguments of a process in the part of a `KERN_PROCARGS2` buffer after
/// its argument count, at most `argc` of them.
pub open spec fn procargs(rest: Seq<u8>, argc: nat) -> Seq<Seq<char>> {
    lossy_texts(procargs_from(rest, procargs_start(rest), 0, argc))
}

/// The views of a list of strings.
pub open spec fn strings_view(v: Seq<String>) -> Seq<Seq<char>> {
    v.map_values(|s: String| s@)
}

/// `u32::from_be_bytes`.
pub open spec fn be_u32(b: Seq<u8>) -> nat {
    b[3] as nat + 256 * (b[2] as nat) + 65536 * (b[1] as nat) + 16777216 * (b[0] as nat)
}

/// `u32::from_ne_bytes` (std). Stated: the result reads the bytes in one of
/// the two byte orders; which one is the machine's and is not stated.
#[verifier::external_body]
fn u32_from_ne(b: [u8; 4]) -> (r: u32)
    ensures
        r == crate::ipc::le_u32(b@) || r == be_u32(b@),
{
    u32::from_ne_bytes(b)
}

/// The first non-NUL byte at or after `i`.
fn non_nul_from_exec(b: &[u8], i: usize) -> (r: Option<usize>)
    ensures
        match r {
            Some(j) => non_nul_from(b@, i as int) == Some(j as int),
            None => non_nul_from(b@, i as int) is None,
        },
{
    let mut k = i;
    while k < b.len()
        invariant
            i <= k,
            non_nul_from(b@, i as int) == non_nul_from(b@, k as int),
        decreases b.len() - k,
    {
        if b[k] != 0 {
            return Some(k);
        }
        k += 1;
    }
    None
}

/// The arguments in the part of a `KERN_PROCARGS2` buffer after its
/// argument count, at most `argc` of them.
pub fn procargs_args(rest: &[u8], argc: usize) -> (r: Vec<String>)
    ensures
        strings_view(r@) == procargs(rest@, argc as nat),
{
    let exe_end = match nul_from_exec(rest, 0) {
        Some(e) => e,
        None => rest.len(),
    };
    let start = match non_nul_from_exec(rest, exe_end) {
        Some(s) => s,
        None => rest.len(),
    };
    proof {
        lemma_nul_from(rest@, 0);
        lemma_non_nul_from(rest@, exe_end as int);
    }
    let mut out: Vec<String> = Vec::new();
    let mut pos = start;
    let ghost all = procargs_from(rest@, start as int, 0, argc as nat);
    assert(strings_view(out@) =~= Seq::<Seq<char>>::empty());
    while pos < rest.len() && out.len() < argc
        invariant
            all == procargs_from(rest@, start as int, 0, argc as nat),
            lossy_texts(all) == strings_view(out@) + lossy_texts(procargs_from(rest@, pos as int, out.len() as nat, argc as nat)),
            pos <= rest.len(),
        decreases rest.len() - pos,
    {
        proof {
            lemma_nul_from(rest@, pos as int);
        }
        let end = match nul_from_exec(rest, pos) {
            Some(e) => e,
            None => rest.len(),
        };
        let ghost tail = procargs_from(rest@, end + 1, out.len() as nat + (if end > pos { 1nat } else { 0nat }), argc as nat);
        if end > pos {
            let piece = text::bytes_range(rest, pos, end);
            let s = text::from_utf8_lossy(piece.as_slice());
            let ghost prev = strings_view(out@);
            out.push(s);
            proof {
                assert(strings_view(out@) =~= prev.push(s@));
                let cur = procargs_from(rest@, pos as int, (out.len() - 1) as nat, argc as nat);
                assert(cur == seq![rest@.subrange(pos as int, end as int)] + tail);
                assert(lossy_texts(cur) =~= seq![text::utf8_lossy(rest@.subrange(pos as int, end as int))] + lossy_texts(tail));
                assert(prev + lossy_texts(cur) =~= prev.push(s@) + lossy_texts(tail));
            }
        }
        if end < rest.len() {
            pos = end + 1;
        } else {
            pos = rest.len();
            proof {
                assert(procargs_from(rest@, end + 1, out.len() as nat, argc as nat) == Seq::<Seq<u8>>::empty());
                assert(procargs_from(rest@, pos as int, out.len() as nat, argc as nat) == Seq::<Seq<u8>>::empty());
            }
        }
    }
    proof {
        let t = procargs_from(rest@, pos as int, out.len() as nat, argc as nat);
        assert(t == Seq::<Seq<u8>>::empty());
        assert(lossy_texts(t) =~= Seq::<Seq<char>>::empty());
        assert(strings_view(out@) + lossy_texts(t) =~= strings_view(out@));
    }
    out
}

/// The arguments of a process from the first `size` bytes of its
/// `KERN_PROCARGS2` buffer: none where there is no argument count; the
/// count is read in the machine's byte order.
pub fn parse_procargs2(buf: &[u8], size: usize) -> (r: Vec<String>)
    requires
        size >= 4 ==> size <= buf@.len(),
    ensures
        size < 4 ==> r@.len() == 0,
        size >= 4 ==> ({
            let rest = buf@.subrange(4, size as int);
            strings_view(r@) == procargs(rest, crate::ipc::le_u32(buf@.take(4)))
                || strings_view(r@) == procargs(rest, be_u32(buf@.take(4)))
        }),
{
    if size < 4 {
        return Vec::new();
    }
    let head = [buf[0], buf[1], buf[2], buf[3]];
    assert(head@ =~= buf@.take(4));
    let argc = u32_from_ne(head) as usize;
    let rest = text::bytes_range(buf, 4, size);
    procargs_args(rest.as_slice(), argc)
}

// ---------------------------------------------------------------------------
// Usage counters and the process table
// ---------------------------------------------------------------------------

/// What the kernel reports of a process's task.
#[derive(Clone, Copy, Debug, PartialEq, Eq, Structural)]
pub struct ProcTaskInfo {
    pub user_time_us: u64,
    pub sys_time_us: u64,
    pub resident_bytes: u64,
    pub disk_read_bytes: u64,
    pub disk_write_bytes: u64,
    pub thread_count: u32,
    pub status: u32,
}

/// The counters of a process kept from one refresh to the next.
#[derive(Clone, Copy, Debug, PartialEq, Eq, Structural)]
pub struct RawStats {
    pub user_time_us: u64,
    pub sys_time_us: u64,
    pub disk_read_bytes: u64,
    pub disk_write_bytes: u64,
}

impl Default for RawStats {
    fn default() -> (r: Self)
        ensures
            r == (RawStats { user_time_us: 0, sys_time_us: 0, disk_read_bytes: 0, disk_write_bytes: 0 }),
    {
        RawStats { user_time_us: 0, sys_time_us: 0, disk_read_bytes: 0, disk_write_bytes: 0 }
    }
}

/// `u64::saturating_sub`.
pub open spec fn sat_sub(a: u64, b: u64) -> nat {
    if a >= b {
        (a - b) as nat
    } else {
        0
    }
}

/// Saturating subtraction of natural numbers.
pub open spec fn sat_sub_nat(a: nat, b: nat) -> nat {
    if a >= b {
        (a - b) as nat
    } else {
        0
    }
}

/// The counters to compare with: those of the last refresh, or the current
/// ones for a process not seen before.
pub open spec fn prev_stats(info: ProcTaskInfo, prev: Option<RawStats>) -> RawStats {
    match prev {
        Some(p) => p,
        None => RawStats {
            user_time_us: info.user_time_us,
            sys_time_us: info.sys_time_us,
            disk_read_bytes: info.disk_read_bytes,
            disk_write_bytes: info.disk_write_bytes,
        },
    }
}

/// The CPU time (user and system, in microseconds) and the disk bytes (read
/// and written) since the counters compared with; a counter that went down
/// counts 0.
pub open spec fn usage_deltas_of(info: ProcTaskInfo, prev: Option<RawStats>) -> (nat, nat) {
    let p = prev_stats(info, prev);
    (
        sat_sub(info.user_time_us, p.user_time_us) + sat_sub(info.sys_time_us, p.sys_time_us),
        sat_sub(info.disk_read_bytes, p.disk_read_bytes) + sat_sub(info.disk_write_bytes, p.disk_write_bytes),
    )
}

impl RawStats {
    /// The counters of a report, to keep for the next refresh.
    pub fn of(info: &ProcTaskInfo) -> (r: RawStats)
        ensures
            r == prev_stats(*info, None),
    {
        RawStats {
            user_time_us: info.user_time_us,
            sys_time_us: info.sys_time_us,
            disk_read_bytes: info.disk_read_bytes,
            disk_write_bytes: info.disk_write_bytes,
        }
    }
}

/// The CPU time and disk bytes of a process since the last refresh, where
/// each sum fits in a `u64`.
pub fn usage_deltas(info: &ProcTaskInfo, prev: Option<RawStats>) -> (r: (u64, u64))
    requires
        usage_deltas_of(*info, prev).0 <= u64::MAX,
        usage_deltas_of(*info, prev).1 <= u64::MAX,
    ensures
        r.0 == usage_deltas_of(*info, prev).0,
        r.1 == usage_deltas_of(*info, prev).1,
{
    let p = match prev {
        Some(p) => p,
        None => RawStats::of(info),
    };
    let user = info.user_time_us.saturating_sub(p.user_time_us);
    let sys = info.sys_time_us.saturating_sub(p.sys_time_us);
    let read = info.disk_read_bytes.saturating_sub(p.disk_read_bytes);
    let write = info.disk_write_bytes.saturating_sub(p.disk_write_bytes);
    (user + sys, read + write)
}

/// The CPU time and disk bytes of a process since the last refresh; `None`
/// where a sum does not fit in a `u64`.
pub fn try_usage_deltas(info: &ProcTaskInfo, prev: Option<RawStats>) -> (r: Option<(u64, u64)>)
    ensures
        match r {
            Some(d) => d.0 == usage_deltas_of(*info, prev).0 && d.1 == usage_deltas_of(*info, prev).1,
            None => usage_deltas_of(*info, prev).0 > u64::MAX || usage_deltas_of(*info, prev).1 > u64::MAX,
        },
{
    let p = match prev {
        Some(p) => p,
        None => RawStats::of(info),
    };
    let user = info.user_time_us.saturating_sub(p.user_time_us);
    let sys = info.sys_time_us.saturating_sub(p.sys_time_us);
    let read = info.disk_read_bytes.saturating_sub(p.disk_read_bytes);
    let write = info.disk_write_bytes.saturating_sub(p.disk_write_bytes);
    if user > u64::MAX - sys || read > u64::MAX - write {
        return None;
    }
    Some(usage_deltas(info, prev))
}

/// The least time between two refreshes of a cache (processes, processor
/// usage, disks, graphics processors), in nanoseconds.
pub const MIN_REFRESH_NANOS: u128 = 200000000;

/// Whether a cache is refreshed, given the nanoseconds since its last
/// refresh (`None` before the first one).
pub fn refresh_due(since_last_nanos: Option<u128>) -> (r: bool)
    ensures
        r == match since_last_nanos {
            Some(n) => n >= MIN_REFRESH_NANOS,
            None => true,
        },
{
    match since_last_nanos {
        Some(n) => n >= MIN_REFRESH_NANOS,
        None => true,
    }
}

/// The table of processes by id from a list in order: entries with id 0 are
/// left out and a later entry replaces an earlier one with the same id.
pub open spec fn pid_map<T>(items: Seq<(u32, T)>) -> Map<u32, T>
    decreases items.len(),
{
    if items.len() == 0 {
        Map::empty()
    } else {
        let (p, v) = items.last();
        if p == 0 {
            pid_map(items.drop_last())
        } else {
            pid_map(items.drop_last()).insert(p, v)
        }
    }
}

/// The table of processes by id from a list in order.
pub fn index_by_pid<T>(items: Vec<(u32, T)>) -> (r: std::collections::HashMap<u32, T>)
    ensures
        r@ == pid_map(items@),
{
    broadcast use vstd::std_specs::hash::group_hash_axioms;

    let ghost all = items@;
    assert(all.len() == items.len());
    let mut rest = items;
    let mut m: std::collections::HashMap<u32, T> = std::collections::HashMap::new();
    let mut k: usize = 0;
    while rest.len() > 0
        invariant
            k <= all.len() <= usize::MAX,
            rest@ == all.skip(k as int),
            m@ == pid_map(all.take(k as int)),
        decreases rest.len(),
    {
        let (p, v) = rest.remove(0);
        proof {
            assert(all.take(k + 1).drop_last() =~= all.take(k as int));
            assert(all.take(k + 1).last() == all[k as int]);
            assert(all.skip(k + 1) =~= all.skip(k as int).drop_first());
        }
        if p != 0 {
            m.insert(p, v);
        }
        k += 1;
    }
    assert(all.take(all.len() as int) =~= all);
    m
}

/// No process has id 0 in the table, and every id in it comes from the
/// list.
pub proof fn lemma_pid_map_ids<T>(items: Seq<(u32, T)>)
    ensures
        !pid_map(items).dom().contains(0),
        forall|p: u32| #[trigger] pid_map(items).dom().contains(p) ==> exists|i: int|
            0 <= i < items.len() && items[i].0 == p,
    decreases items.len(),
{
    if items.len() > 0 {
        let rest = items.drop_last();
        lemma_pid_map_ids(rest);
        assert forall|p: u32| #[trigger] pid_map(items).dom().contains(p) implies exists|i: int|
            0 <= i < items.len() && items[i].0 == p by {
            if p == items.last().0 {
                assert(items[items.len() - 1].0 == p);
            } else {
                assert(pid_map(rest).dom().contains(p));
                let i = choose|i: int| 0 <= i < rest.len() && rest[i].0 == p;
                assert(items[i].0 == p);
            }
        }
    }
}

/// At most `argc` arguments are read.
pub proof fn lemma_procargs_at_most_argc(rest: Seq<u8>, argc: nat)
    ensures
        procargs(rest, argc).len() <= argc,
{
    lemma_procargs_from_len(rest, procargs_start(rest), 0, argc);
}

proof fn lemma_procargs_from_len(rest: Seq<u8>, pos: int, taken: nat, argc: nat)
    ensures
        taken <= argc ==> procargs_from(rest, pos, taken, argc).len() + taken <= argc,
    decreases rest.len() + 1 - pos,
{
    if pos >= 0 && pos < rest.len() && taken < argc {
        lemma_nul_from(rest, pos);
        let end = match nul_from(rest, pos) {
            Some(e) => e,
            None => rest.len() as int,
        };
        if end > pos {
            lemma_procargs_from_len(rest, end + 1, taken + 1, argc);
        } else {
            lemma_procargs_from_len(rest, end + 1, taken, argc);
        }
    }
}

// ---------------------------------------------------------------------------
// A process record read off D-Bus
// ---------------------------------------------------------------------------

/// One field of a process record as the reader takes it: a string, an
/// unsigned number, a list whose items are strings or not, the usage
/// record with its number of entries, or anything else.
pub enum WireArg {
    Text(String),
    Number(u64),
    TextItems(Vec<Option<String>>),
    Usage(usize),
    Other,
}

/// What a process record gives, apart from the usage figures: the fields
/// in order, as far as they could be read. `fields_read` counts the fields
/// taken; reading stops at the first field of the wrong kind, and the rest
/// keep their defaults.
pub struct ProcessRecord {
    pub name: String,
    pub cmd: Vec<String>,
    pub exe: String,
    pub state: ProcessState,
    pub pid: u32,
    pub parent: u32,
    pub task_count: usize,
    pub fields_read: usize,
}

/// The mathematical value of a `ProcessRecord`.
pub struct ProcessRecordView {
    pub name: Seq<char>,
    pub cmd: Seq<Seq<char>>,
    pub exe: Seq<char>,
    pub state: ProcessState,
    pub pid: u32,
    pub parent: u32,
    pub task_count: usize,
    pub fields_read: nat,
}

impl View for ProcessRecord {
    type V = ProcessRecordView;

    open spec fn view(&self) -> ProcessRecordView {
        ProcessRecordView {
            name: self.name@,
            cmd: strings_view(self.cmd@),
            exe: self.exe@,
            state: self.state,
            pid: self.pid,
            parent: self.parent,
            task_count: self.task_count,
            fields_read: self.fields_read as nat,
        }
    }
}

/// The strings among the items of a list, in order.
pub open spec fn text_items(items: Seq<Option<String>>) -> Seq<Seq<char>>
    decreases items.len(),
{
    if items.len() == 0 {
        seq![]
    } else {
        match items.last() {
            Some(s) => text_items(items.drop_last()).push(s@),
            None => text_items(items.drop_last()),
        }
    }
}

/// The record of a process that could not be read: empty texts, state
/// `Unknown`, every number 0.
pub open spec fn empty_record() -> ProcessRecordView {
    ProcessRecordView {
        name: seq![],
        cmd: seq![],
        exe: seq![],
        state: ProcessState::Unknown,
        pid: 0,
        parent: 0,
        task_count: 0,
        fields_read: 0,
    }
}

/// The record that the fields give (`None`: the value is not a record).
pub open spec fn record_of(fields: Option<Seq<WireArg>>) -> ProcessRecordView {
    let r0 = empty_record();
    match fields {
        None => r0,
        Some(f) => match (if f.len() > 0 { f[0] } else { WireArg::Other }) {
            WireArg::Text(n) => {
                let r1 = ProcessRecordView { name: n@, fields_read: 1, ..r0 };
                match (if f.len() > 1 { f[1] } else { WireArg::Other }) {
                    WireArg::TextItems(items) => {
                        let r2 = ProcessRecordView { cmd: text_items(items@), fields_read: 2, ..r1 };
                        match (if f.len() > 2 { f[2] } else { WireArg::Other }) {
                            WireArg::Text(e) => {
                                let r3 = ProcessRecordView { exe: e@, fields_read: 3, ..r2 };
                                match (if f.len() > 3 { f[3] } else { WireArg::Other }) {
                                    WireArg::Number(u) => {
                                        let r4 = ProcessRecordView {
                                            state: ProcessState::spec_from_code(u),
                                            fields_read: 4,
                                            ..r3
                                        };
                                        match (if f.len() > 4 { f[4] } else { WireArg::Other }) {
                                            WireArg::Number(p) => {
                                                let r5 = ProcessRecordView { pid: p as u32, fields_read: 5, ..r4 };
                                                match (if f.len() > 5 { f[5] } else { WireArg::Other }) {
                                                    WireArg::Number(pp) => {
                                                        let r6 = ProcessRecordView {
                                                            parent: pp as u32,
                                                            fields_read: 6,
                                                            ..r5
                                                        };
                                                        match (if f.len() > 6 { f[6] } else { WireArg::Other }) {
                                                            WireArg::Usage(_) => {
                                                                let r7 = ProcessRecordView { fields_read: 7, ..r6 };
                                                                match (if f.len() > 7 { f[7] } else { WireArg::Other }) {
                                                                    WireArg::Number(tc) => ProcessRecordView {
                                                                        task_count: tc as usize,
                                                                        fields_read: 8,
                                                                        ..r7
                                                                    },
                                                                    _ => r7,
                                                                }
                                                            },
                                                            _ => r6,
                                                        }
                                                    },
                                                    _ => r5,
                                                }
                                            },
                                            _ => r4,
                                        }
                                    },
                                    _ => r3,
                                }
                            },
                            _ => r2,
                        }
                    },
                    _ => r1,
                }
            },
            _ => r0,
        },
    }
}

/// The usage record of the fields, where reading gets to it, has at most
/// six entries (the reader stores them in six slots).
pub open spec fn usage_fits(fields: Option<Seq<WireArg>>) -> bool {
    record_of(fields).fields_read >= 6 ==> match fields {
        Some(f) => (f.len() > 6 ==> (f[6] matches WireArg::Usage(n) ==> n <= 6)),
        None => true,
    }
}

fn text_items_exec(items: &Vec<Option<String>>) -> (r: Vec<String>)
    ensures
        strings_view(r@) == text_items(items@),
{
    let mut out: Vec<String> = Vec::new();
    let mut i: usize = 0;
    assert(strings_view(out@) =~= Seq::<Seq<char>>::empty());
    while i < items.len()
        invariant
            i <= items.len(),
            strings_view(out@) == text_items(items@.take(i as int)),
        decreases items.len() - i,
    {
        assert(items@.take(i + 1).drop_last() =~= items@.take(i as int));
        assert(items@.take(i + 1).last() == items@[i as int]);
        match &items[i] {
            Some(s) => {
                let c = text::chars_of(s.as_str());
                let t = text::string_of(c.as_slice());
                let ghost prev = strings_view(out@);
                out.push(t);
                assert(strings_view(out@) =~= prev.push(s@));
            },
            None => {},
        }
        i += 1;
    }
    assert(items@.take(items.len() as int) =~= items@);
    out
}

fn copy_string(s: &String) -> (r: String)
    ensures
        r@ == s@,
{
    let c = text::chars_of(s.as_str());
    text::string_of(c.as_slice())
}

/// The command line a process is listed with: its arguments, or its
/// executable alone where it has none.
pub open spec fn listed_command(cmd: Seq<Seq<char>>, exe: Seq<char>) -> Seq<Seq<char>> {
    if cmd.len() == 0 {
        seq![exe]
    } else {
        cmd
    }
}

/// The command line of a listed process: `cmd`, or `[exe]` where `cmd` is
/// empty.
pub fn command_or_exe(cmd: &Vec<String>, exe: &str) -> (r: Vec<String>)
    ensures
        strings_view(r@) == listed_command(strings_view(cmd@), exe@),
{
    let mut out: Vec<String> = Vec::new();
    if cmd.len() == 0 {
        let c = text::chars_of(exe);
        out.push(text::string_of(c.as_slice()));
        assert(strings_view(out@) =~= seq![exe@]);
        return out;
    }
    let mut i: usize = 0;
    while i < cmd.len()
        invariant
            i <= cmd.len(),
            strings_view(out@) == strings_view(cmd@.take(i as int)),
        decreases cmd.len() - i,
    {
        let ghost prev = strings_view(out@);
        out.push(copy_string(&cmd[i]));
        assert(cmd@.take(i + 1) =~= cmd@.take(i as int).push(cmd@[i as int]));
        assert(strings_view(out@) =~= prev.push(cmd@[i as int]@));
        assert(strings_view(cmd@.take(i + 1)) =~= strings_view(cmd@.take(i as int)).push(cmd@[i as int]@));
        i += 1;
    }
    assert(cmd@.take(cmd.len() as int) =~= cmd@);
    out
}

/// A process with arguments is listed with exactly those arguments, in
/// order, whatever its executable; only a process with none is listed with
/// its executable alone.
pub proof fn lemma_listed_command_keeps_arguments(cmd: Seq<Seq<char>>, exe: Seq<char>)
    ensures
        cmd.len() > 0 ==> listed_command(cmd, exe).len() == cmd.len() && forall|i: int|
            0 <= i < cmd.len() ==> #[trigger] listed_command(cmd, exe)[i] == cmd[i],
        cmd.len() > 0 ==> forall|other: Seq<char>| listed_command(cmd, exe) == #[trigger] listed_command(cmd, other),
        cmd.len() == 0 ==> listed_command(cmd, exe).len() == 1 && listed_command(cmd, exe)[0] == exe,
{
}

impl ProcessRecord {
    /// The record of a process that could not be read.
    pub fn empty() -> (r: ProcessRecord)
        ensures
            r@ == empty_record(),
    {
        let r = ProcessRecord {
            name: String::new(),
            cmd: Vec::new(),
            exe: String::new(),
            state: ProcessState::Unknown,
            pid: 0,
            parent: 0,
            task_count: 0,
            fields_read: 0,
        };
        assert(strings_view(r.cmd@) =~= Seq::<Seq<char>>::empty());
        r
    }

    /// Reads the fields of a D-Bus process record (`None`: the value is not
    /// a record), stopping at the first field of the wrong kind.
    pub fn decode(fields: Option<&Vec<WireArg>>) -> (r: ProcessRecord)
        requires
            usage_fits(
                match fields {
                    Some(f) => Some(f@),
                    None => None,
                },
            ),
        ensures
            r@ == record_of(
                match fields {
                    Some(f) => Some(f@),
                    None => None,
                },
            ),
    {
        let mut r = ProcessRecord::empty();
        let f = match fields {
            None => return r,
            Some(f) => f,
        };
        if f.len() < 1 {
            return r;
        }
        match &f[0] {
            WireArg::Text(n) => {
                r.name = copy_string(n);
                r.fields_read = 1;
            },
            _ => return r,
        }
        if f.len() < 2 {
            return r;
        }
        match &f[1] {
            WireArg::TextItems(items) => {
                r.cmd = text_items_exec(items);
                r.fields_read = 2;
            },
            _ => return r,
        }
        if f.len() < 3 {
            return r;
        }
        match &f[2] {
            WireArg::Text(e) => {
                r.exe = copy_string(e);
                r.fields_read = 3;
            },
            _ => return r,
        }
        if f.len() < 4 {
            return r;
        }
        match &f[3] {
            WireArg::Number(u) => {
                r.state = ProcessState::from_code(*u);
                r.fields_read = 4;
            },
            _ => return r,
        }
        if f.len() < 5 {
            return r;
        }
        match &f[4] {
            WireArg::Number(p) => {
                r.pid = *p as u32;
                r.fields_read = 5;
            },
            _ => return r,
        }
        if f.len() < 6 {
            return r;
        }
        match &f[5] {
            WireArg::Number(p) => {
                r.parent = *p as u32;
                r.fields_read = 6;
            },
            _ => return r,
        }
        if f.len() < 7 {
            return r;
        }
        match &f[6] {
            WireArg::Usage(_) => {
                r.fields_read = 7;
            },
            _ => return r,
        }
        if f.len() < 8 {
            return r;
        }
        match &f[7] {
            WireArg::Number(tc) => {
                r.task_count = *tc as usize;
                r.fields_read = 8;
            },
            _ => return r,
        }
        r
    }
}

} // verus!
