//! The gatherer's request protocol: how a request is framed and read back,
//! which command a request names, and the state that the commands change.
use crate::apps::MacosApps;
use crate::services::{MacosServiceController, MacosServices};
use crate::text;
use vstd::prelude::*;

verus! {

// ---------------------------------------------------------------------------
// Framing: a 4-byte little-endian length, then the payload
// ---------------------------------------------------------------------------

/// The largest request the gatherer reads, in bytes.
pub const MAX_REQUEST_LEN: u32 = 1048576;

/// `u32::from_le_bytes`.
pub open spec fn le_u32(b: Seq<u8>) -> nat {
    b[0] as nat + 256 * (b[1] as nat) + 65536 * (b[2] as nat) + 16777216 * (b[3] as nat)
}

/// `u32::to_le_bytes` of `x` (taken modulo 2^32).
pub open spec fn le_bytes(x: nat) -> Seq<u8> {
    seq![
        (x % 256) as u8,
        ((x / 256) % 256) as u8,
        ((x / 65536) % 256) as u8,
        ((x / 16777216) % 256) as u8,
    ]
}

/// `u32::from_le_bytes`.
pub fn u32_from_le(b: [u8; 4]) -> (r: u32)
    ensures
        r == le_u32(b@),
{
    b[0] as u32 + (b[1] as u32) * 256 + (b[2] as u32) * 65536 + (b[3] as u32) * 16777216
}

/// `u32::to_le_bytes`.
pub fn u32_to_le(x: u32) -> (r: [u8; 4])
    ensures
        r@ == le_bytes(x as nat),
{
    let r = [(x % 256) as u8, ((x / 256) % 256) as u8, ((x / 65536) % 256) as u8, ((x / 16777216) % 256) as u8];
    assert(r@ =~= le_bytes(x as nat));
    r
}

/// Reading back the bytes that `u32::to_le_bytes` wrote gives the number.
pub proof fn lemma_le_roundtrip(x: nat)
    requires
        x < 4294967296,
    ensures
        le_u32(le_bytes(x)) == x,
{
    let b0 = x % 256;
    let b1 = (x / 256) % 256;
    let b2 = (x / 65536) % 256;
    let b3 = (x / 16777216) % 256;
    assert(x == b0 + 256 * b1 + 65536 * b2 + 16777216 * b3) by (nonlinear_arith)
        requires
            0 <= x < 4294967296,
            b0 == x % 256,
            b1 == (x / 256) % 256,
            b2 == (x / 65536) % 256,
            b3 == (x / 16777216) % 256,
    ;
}

/// The length of the request that a length prefix announces, where the
/// gatherer accepts it: more than 0 and at most `MAX_REQUEST_LEN` bytes.
pub open spec fn request_len(b: Seq<u8>) -> Option<nat> {
    let n = le_u32(b);
    if n == 0 || n > MAX_REQUEST_LEN {
        None
    } else {
        Some(n)
    }
}

/// The length of the request that a length prefix announces; `None` where
/// the gatherer closes the connection instead (0, or more than
/// `MAX_REQUEST_LEN` bytes).
pub fn accepted_request_len(len_buf: [u8; 4]) -> (r: Option<usize>)
    ensures
        match r {
            Some(n) => request_len(len_buf@) == Some(n as nat),
            None => request_len(len_buf@) is None,
        },
{
    let n = u32_from_le(len_buf);
    if n == 0 || n > MAX_REQUEST_LEN {
        None
    } else {
        Some(n as usize)
    }
}

/// The length of the reply that a length prefix announces.
pub fn reply_len(len_buf: [u8; 4]) -> (r: usize)
    ensures
        r == le_u32(len_buf@),
{
    u32_from_le(len_buf) as usize
}

/// The length prefix of a reply of `len` bytes: the length modulo 2^32 as
/// four little-endian bytes.
pub fn reply_len_prefix(len: usize) -> (r: [u8; 4])
    ensures
        r@ == le_bytes(len as nat % 4294967296),
{
    u32_to_le((len as u64 % 4294967296u64) as u32)
}

/// The payload of a request: the method, a NUL, and the argument (nothing
/// where there is none).
pub open spec fn request_payload(method: Seq<char>, arg: Option<Seq<char>>) -> Seq<char> {
    method + seq!['\0'] + match arg {
        Some(a) => a,
        None => seq![],
    }
}

/// The bytes sent for a request: the payload's length in UTF-8 (modulo
/// 2^32) as four little-endian bytes, then the payload in UTF-8.
pub open spec fn request_frame(method: Seq<char>, arg: Option<Seq<char>>) -> Seq<u8> {
    let bytes = vstd::utf8::encode_utf8(request_payload(method, arg));
    le_bytes(bytes.len() % 4294967296) + bytes
}

/// The bytes to send for a request to the gatherer.
pub fn encode_request(method: &str, arg: Option<&str>) -> (r: Vec<u8>)
    ensures
        r@ == request_frame(method@, text::opt_str_view(arg)),
{
    let mut payload = text::chars_of(method);
    payload.push('\0');
    match arg {
        Some(a) => {
            let ac = text::chars_of(a);
            text::append_chars(&mut payload, ac.as_slice());
        },
        None => {},
    }
    assert(payload@ =~= request_payload(method@, text::opt_str_view(arg)));
    let s = text::string_of(payload.as_slice());
    let bytes = s.as_str().as_bytes();
    let len = (bytes.len() as u64 % 4294967296u64) as u32;
    let head = u32_to_le(len);
    let mut out: Vec<u8> = Vec::new();
    let mut i: usize = 0;
    while i < 4
        invariant
            i <= 4,
            out@ == head@.take(i as int),
        decreases 4 - i,
    {
        out.push(head[i]);
        assert(head@.take(i + 1) =~= head@.take(i as int).push(head@[i as int]));
        i += 1;
    }
    let mut j: usize = 0;
    while j < bytes.len()
        invariant
            j <= bytes.len(),
            out@ == head@ + bytes@.take(j as int),
        decreases bytes.len() - j,
    {
        out.push(bytes[j]);
        assert(bytes@.take(j + 1) =~= bytes@.take(j as int).push(bytes@[j as int]));
        j += 1;
    }
    assert(bytes@.take(bytes.len() as int) =~= bytes@);
    out
}

/// What the gatherer reads from a request's text: the method before the
/// first NUL and the argument after it (empty where there is no NUL).
pub open spec fn split_request(raw: Seq<char>) -> (Seq<char>, Seq<char>) {
    let (m, a) = text::split_first(raw, seq!['\0']);
    match a {
        Some(a) => (m, a),
        None => (m, seq![]),
    }
}

/// What the gatherer reads from a request's bytes: `None` where they are
/// not UTF-8 (the gatherer then closes the connection).
pub open spec fn read_request(msg: Seq<u8>) -> Option<(Seq<char>, Seq<char>)> {
    if vstd::utf8::valid_utf8(msg) {
        Some(split_request(vstd::utf8::decode_utf8(msg)))
    } else {
        None
    }
}

/// The method and argument of a request's bytes, as the gatherer reads
/// them; `None` where they are not UTF-8.
pub fn parse_request(msg: &[u8]) -> (r: Option<(String, String)>)
    ensures
        match r {
            Some((m, a)) => read_request(msg@) == Some((m@, a@)),
            None => read_request(msg@) is None,
        },
{
    match text::str_from_utf8(msg) {
        None => None,
        Some(raw) => {
            let chars = text::chars_of(raw);
            let nul = vec!['\0'];
            assert(nul@ =~= seq!['\0']);
            let (a, b) = text::split_first_bounds(chars.as_slice(), 0, chars.len(), nul.as_slice());
            assert(chars@.subrange(0, chars@.len() as int) =~= chars@);
            let m = text::copy_range(chars.as_slice(), 0, a);
            let arg = match b {
                Some(b) => text::copy_range(chars.as_slice(), b, chars.len()),
                None => Vec::new(),
            };
            Some((text::string_of(m.as_slice()), text::string_of(arg.as_slice())))
        },
    }
}

/// What the gatherer reads back from the payload of a request is its method
/// and argument (the empty text where there is none), where the method has
/// no NUL.
pub proof fn lemma_request_roundtrip(method: Seq<char>, arg: Option<Seq<char>>)
    requires
        !method.contains('\0'),
    ensures
        read_request(vstd::utf8::encode_utf8(request_payload(method, arg))) == Some(
            (
                method,
                match arg {
                    Some(a) => a,
                    None => seq![],
                },
            ),
        ),
{
    let p = request_payload(method, arg);
    let a = match arg {
        Some(a) => a,
        None => seq![],
    };
    vstd::utf8::encode_utf8_valid_utf8(p);
    vstd::utf8::encode_utf8_decode_utf8(p);
    let nul = seq!['\0'];
    assert(text::matches_at(p, nul, method.len() as int)) by {
        assert(p.subrange(method.len() as int, method.len() + 1int) =~= nul);
    }
    assert forall|k: int| 0 <= k < method.len() implies !text::matches_at(p, nul, k) by {
        if text::matches_at(p, nul, k) {
            assert(p.subrange(k, k + 1)[0] == p[k]);
            assert(p[k] == method[k]);
        }
    }
    text::lemma_find_from_is(p, nul, 0, Some(method.len() as int));
    assert(p.take(method.len() as int) =~= method);
    assert(p.skip(method.len() + 1int) =~= a);
}

/// The length prefix of a request frame announces the payload's length,
/// and the gatherer accepts it where the payload is at most
/// `MAX_REQUEST_LEN` bytes.
pub proof fn lemma_frame_len(method: Seq<char>, arg: Option<Seq<char>>)
    requires
        vstd::utf8::encode_utf8(request_payload(method, arg)).len() <= MAX_REQUEST_LEN,
    ensures
        request_len(request_frame(method, arg).take(4)) == Some(
            vstd::utf8::encode_utf8(request_payload(method, arg)).len(),
        ),
{
    let bytes = vstd::utf8::encode_utf8(request_payload(method, arg));
    let n = bytes.len();
    assert(n % 4294967296 == n);
    lemma_le_roundtrip(n);
    assert(request_frame(method, arg).take(4) =~= le_bytes(n));
    let p = request_payload(method, arg);
    assert(p.len() > 0);
    lemma_encode_nonempty(p);
}

proof fn lemma_encode_nonempty(p: Seq<char>)
    requires
        p.len() > 0,
    ensures
        vstd::utf8::encode_utf8(p).len() > 0,
{
    reveal_with_fuel(vstd::utf8::encode_utf8, 2);
    assert(vstd::utf8::encode_scalar(p[0] as u32).len() > 0);
}

// ---------------------------------------------------------------------------
// Commands
// ---------------------------------------------------------------------------

/// The data that a request asks for.
#[derive(Clone, Copy, Debug, PartialEq, Eq, Structural)]
pub enum IpcQuery {
    CpuStaticInfo,
    CpuDynamicInfo,
    DisksInfo,
    GpuList,
    GpuStaticInfo,
    GpuDynamicInfo,
    FansInfo,
    Processes,
    Apps,
    Services,
}

/// What a request asks the gatherer to do. A number argument that does
/// not parse is `None`.
#[derive(Clone, Copy, Debug, PartialEq, Eq, Structural)]
pub enum IpcCommand {
    Query(IpcQuery),
    TerminateProcess(Option<u32>),
    KillProcess(Option<u32>),
    SetRefreshInterval(Option<u64>),
    SetCoreCountAffectsPercentages(bool),
    Unknown,
}

/// `str::parse::<u32>()`.
pub open spec fn parse_u32(s: Seq<char>) -> Option<u32> {
    match text::parse_uint(s, 10, 4294967295) {
        Some(v) => Some(v as u32),
        None => None,
    }
}

/// `str::parse::<u64>()`.
pub open spec fn parse_u64(s: Seq<char>) -> Option<u64> {
    match text::parse_uint(s, 10, 18446744073709551615) {
        Some(v) => Some(v as u64),
        None => None,
    }
}

/// The command that a method name and argument name.
pub open spec fn command_of(method: Seq<char>, arg: Seq<char>) -> IpcCommand {
    if method == "GetCPUStaticInfo"@ {
        IpcCommand::Query(IpcQuery::CpuStaticInfo)
    } else if method == "GetCPUDynamicInfo"@ {
        IpcCommand::Query(IpcQuery::CpuDynamicInfo)
    } else if method == "GetDisksInfo"@ {
        IpcCommand::Query(IpcQuery::DisksInfo)
    } else if method == "GetGPUList"@ {
        IpcCommand::Query(IpcQuery::GpuList)
    } else if method == "GetGPUStaticInfo"@ {
        IpcCommand::Query(IpcQuery::GpuStaticInfo)
    } else if method == "GetGPUDynamicInfo"@ {
        IpcCommand::Query(IpcQuery::GpuDynamicInfo)
    } else if method == "GetFansInfo"@ {
        IpcCommand::Query(IpcQuery::FansInfo)
    } else if method == "GetProcesses"@ {
        IpcCommand::Query(IpcQuery::Processes)
    } else if method == "GetApps"@ {
        IpcCommand::Query(IpcQuery::Apps)
    } else if method == "GetServices"@ {
        IpcCommand::Query(IpcQuery::Services)
    } else if method == "TerminateProcess"@ {
        IpcCommand::TerminateProcess(parse_u32(arg))
    } else if method == "KillProcess"@ {
        IpcCommand::KillProcess(parse_u32(arg))
    } else if method == "SetRefreshInterval"@ {
        IpcCommand::SetRefreshInterval(parse_u64(arg))
    } else if method == "SetCoreCountAffectsPercentages"@ {
        IpcCommand::SetCoreCountAffectsPercentages(arg == "true"@ || arg == "1"@)
    } else {
        IpcCommand::Unknown
    }
}

fn parse_u32_exec(s: &[char]) -> (r: Option<u32>)
    ensures
        r == parse_u32(s@),
{
    match text::parse_uint_exec(s, 10, 4294967295) {
        Some(v) => Some(v as u32),
        None => None,
    }
}

fn parse_u64_exec(s: &[char]) -> (r: Option<u64>)
    ensures
        r == parse_u64(s@),
{
    text::parse_uint_exec(s, 10, 18446744073709551615)
}

/// The command that a request's method and argument name.
pub fn ipc_command(method: &str, arg: &str) -> (r: IpcCommand)
    ensures
        r == command_of(method@, arg@),
{
    let m = text::chars_of(method);
    let a = text::chars_of(arg);
    let m = m.as_slice();
    if text::eq_str(m, "GetCPUStaticInfo") {
        IpcCommand::Query(IpcQuery::CpuStaticInfo)
    } else if text::eq_str(m, "GetCPUDynamicInfo") {
        IpcCommand::Query(IpcQuery::CpuDynamicInfo)
    } else if text::eq_str(m, "GetDisksInfo") {
        IpcCommand::Query(IpcQuery::DisksInfo)
    } else if text::eq_str(m, "GetGPUList") {
        IpcCommand::Query(IpcQuery::GpuList)
    } else if text::eq_str(m, "GetGPUStaticInfo") {
        IpcCommand::Query(IpcQuery::GpuStaticInfo)
    } else if text::eq_str(m, "GetGPUDynamicInfo") {
        IpcCommand::Query(IpcQuery::GpuDynamicInfo)
    } else if text::eq_str(m, "GetFansInfo") {
        IpcCommand::Query(IpcQuery::FansInfo)
    } else if text::eq_str(m, "GetProcesses") {
        IpcCommand::Query(IpcQuery::Processes)
    } else if text::eq_str(m, "GetApps") {
        IpcCommand::Query(IpcQuery::Apps)
    } else if text::eq_str(m, "GetServices") {
        IpcCommand::Query(IpcQuery::Services)
    } else if text::eq_str(m, "TerminateProcess") {
        IpcCommand::TerminateProcess(parse_u32_exec(a.as_slice()))
    } else if text::eq_str(m, "KillProcess") {
        IpcCommand::KillProcess(parse_u32_exec(a.as_slice()))
    } else if text::eq_str(m, "SetRefreshInterval") {
        IpcCommand::SetRefreshInterval(parse_u64_exec(a.as_slice()))
    } else if text::eq_str(m, "SetCoreCountAffectsPercentages") {
        let on = text::eq_str(a.as_slice(), "true") || text::eq_str(a.as_slice(), "1");
        IpcCommand::SetCoreCountAffectsPercentages(on)
    } else {
        IpcCommand::Unknown
    }
}

/// The reply to a request that asks for no data: `{}`.
pub fn empty_reply() -> (r: Vec<u8>)
    ensures
        r@ == seq![123u8, 125u8],
{
    let mut r = Vec::new();
    r.push(123u8);
    r.push(125u8);
    assert(r@ =~= seq![123u8, 125u8]);
    r
}

// ---------------------------------------------------------------------------
// The gatherer's state
// ---------------------------------------------------------------------------

/// One step of refreshing the gatherer's caches.
#[derive(Clone, Copy, Debug, PartialEq, Eq, Structural)]
pub enum RefreshStep {
    Processes,
    DivideProcessCpuUsageByCoreCount,
    CpuDynamicInfo,
    Disks,
    GpuDynamicInfo,
    Fans,
    Apps,
    Services,
}

/// The gatherer's state: the settings that requests change, the services
/// with the controller that acts on them, and the running applications.
pub struct SystemState {
    /// Milliseconds between two refreshes.
    pub refresh_interval: u64,
    /// Whether a process's CPU usage is a share of all cores (`true`) or of
    /// one core (`false`, the usage is divided by the number of cores).
    pub core_count_affects_percentages: bool,
    /// The services of the system.
    pub services: MacosServices,
    /// What acts on the services, once it has been set up.
    pub service_controller: Option<MacosServiceController>,
    /// The running applications.
    pub apps: MacosApps,
}

/// What the gatherer does on a request, after changing its settings.
#[derive(Clone, Copy, Debug, PartialEq, Eq, Structural)]
pub enum IpcAction {
    /// Reply with the data asked for.
    Reply(IpcQuery),
    /// Terminate the process, then reply `{}`.
    TerminateProcess(u32),
    /// Kill the process, then reply `{}`.
    KillProcess(u32),
    /// Reply `{}`.
    Acknowledge,
}

/// The refresh steps, in order; the CPU usage of the processes is divided
/// by the number of cores right after the processes are refreshed, where
/// the core count does not affect percentages.
pub open spec fn refresh_plan(core_count_affects_percentages: bool) -> Seq<RefreshStep> {
    let head = if core_count_affects_percentages {
        seq![RefreshStep::Processes]
    } else {
        seq![RefreshStep::Processes, RefreshStep::DivideProcessCpuUsageByCoreCount]
    };
    head + seq![
        RefreshStep::CpuDynamicInfo,
        RefreshStep::Disks,
        RefreshStep::GpuDynamicInfo,
        RefreshStep::Fans,
        RefreshStep::Apps,
        RefreshStep::Services,
    ]
}

/// A part of the gatherer's state: its two settings, what it reads once
/// at start-up, and the caches that a refresh fills.
#[derive(Clone, Copy, Debug, PartialEq, Eq, Structural)]
pub enum GathererPart {
    RefreshInterval,
    CoreCountAffectsPercentages,
    ServiceController,
    CpuStaticInfo,
    GpuList,
    GpuStaticInfo,
    ProcessCache,
    CpuDynamicCache,
    DiskCache,
    GpuDynamicCache,
    FanCache,
    AppCache,
    ServiceCache,
}

/// The part of the gatherer's state that a refresh step writes.
pub open spec fn written_part(step: RefreshStep) -> GathererPart {
    match step {
        RefreshStep::Processes => GathererPart::ProcessCache,
        RefreshStep::DivideProcessCpuUsageByCoreCount => GathererPart::ProcessCache,
        RefreshStep::CpuDynamicInfo => GathererPart::CpuDynamicCache,
        RefreshStep::Disks => GathererPart::DiskCache,
        RefreshStep::GpuDynamicInfo => GathererPart::GpuDynamicCache,
        RefreshStep::Fans => GathererPart::FanCache,
        RefreshStep::Apps => GathererPart::AppCache,
        RefreshStep::Services => GathererPart::ServiceCache,
    }
}

/// Whether a part of the gatherer's state is one of the caches that a
/// refresh fills.
pub open spec fn is_cache(part: GathererPart) -> bool {
    match part {
        GathererPart::ProcessCache | GathererPart::CpuDynamicCache | GathererPart::DiskCache
        | GathererPart::GpuDynamicCache | GathererPart::FanCache | GathererPart::AppCache
        | GathererPart::ServiceCache => true,
        _ => false,
    }
}

/// The settings after a command.
pub open spec fn apply_command(s: SystemState, c: IpcCommand) -> SystemState {
    match c {
        IpcCommand::SetRefreshInterval(Some(ms)) => SystemState { refresh_interval: ms, ..s },
        IpcCommand::SetCoreCountAffectsPercentages(on) => SystemState {
            core_count_affects_percentages: on,
            ..s
        },
        _ => s,
    }
}

/// What the gatherer does for a command.
pub open spec fn action_of(c: IpcCommand) -> IpcAction {
    match c {
        IpcCommand::Query(q) => IpcAction::Reply(q),
        IpcCommand::TerminateProcess(Some(pid)) => IpcAction::TerminateProcess(pid),
        IpcCommand::KillProcess(Some(pid)) => IpcAction::KillProcess(pid),
        _ => IpcAction::Acknowledge,
    }
}

/// Why a property could not be set.
#[derive(Clone, Copy, Debug, PartialEq, Eq, Structural)]
pub enum PropertyError {
    /// The value is not an unsigned integer.
    InvalidValue,
}

impl SystemState {
    /// A refresh every second; a process's CPU usage is a share of all
    /// cores.
    /// No service controller is set up yet and there is no application.
    pub fn new() -> (r: SystemState)
        ensures
            r.refresh_interval == 1000,
            r.core_count_affects_percentages,
            r.service_controller is None,
            r.apps.apps@.len() == 0,
    {
        SystemState {
            refresh_interval: 1000,
            core_count_affects_percentages: true,
            services: MacosServices::new(),
            service_controller: None,
            apps: MacosApps::new(),
        }
    }

    /// Sets up the service controller from the services; where they offer
    /// none, the gatherer goes on without one. Nothing else changes.
    pub fn install_service_controller(&mut self)
        ensures
            final(self).service_controller is Some,
            final(self).refresh_interval == old(self).refresh_interval,
            final(self).core_count_affects_percentages == old(self).core_count_affects_percentages,
            final(self).services == old(self).services,
            final(self).apps == old(self).apps,
    {
        self.service_controller = match self.services.controller() {
            Ok(c) => Some(c),
            Err(_) => None,
        };
    }

    /// The steps of one refresh of the caches, in order.
    pub fn snapshot(&self) -> (r: Vec<RefreshStep>)
        ensures
            r@ == refresh_plan(self.core_count_affects_percentages),
    {
        let mut r = Vec::new();
        r.push(RefreshStep::Processes);
        if !self.core_count_affects_percentages {
            r.push(RefreshStep::DivideProcessCpuUsageByCoreCount);
        }
        r.push(RefreshStep::CpuDynamicInfo);
        r.push(RefreshStep::Disks);
        r.push(RefreshStep::GpuDynamicInfo);
        r.push(RefreshStep::Fans);
        r.push(RefreshStep::Apps);
        r.push(RefreshStep::Services);
        assert(r@ =~= refresh_plan(self.core_count_affects_percentages));
        r
    }

    /// Carries out the settings part of a request and says what is left to
    /// do.
    pub fn handle(&mut self, c: IpcCommand) -> (r: IpcAction)
        ensures
            *final(self) == apply_command(*old(self), c),
            r == action_of(c),
    {
        match c {
            IpcCommand::Query(q) => IpcAction::Reply(q),
            IpcCommand::TerminateProcess(Some(pid)) => IpcAction::TerminateProcess(pid),
            IpcCommand::KillProcess(Some(pid)) => IpcAction::KillProcess(pid),
            IpcCommand::SetRefreshInterval(Some(ms)) => {
                self.refresh_interval = ms;
                IpcAction::Acknowledge
            },
            IpcCommand::SetCoreCountAffectsPercentages(on) => {
                self.core_count_affects_percentages = on;
                IpcAction::Acknowledge
            },
            _ => IpcAction::Acknowledge,
        }
    }

    /// Sets the `RefreshInterval` D-Bus property from a value that is an
    /// unsigned integer where `value` is `Some`.
    pub fn set_refresh_interval_property(&mut self, value: Option<u64>) -> (r: Result<u64, PropertyError>)
        ensures
            match value {
                Some(v) => r == Ok::<u64, PropertyError>(v) && *final(self) == (SystemState { refresh_interval: v, ..*old(self) }),
                None => r == Err::<u64, PropertyError>(PropertyError::InvalidValue) && *final(self) == *old(self),
            },
    {
        match value {
            Some(v) => {
                self.refresh_interval = v;
                Ok(v)
            },
            None => Err(PropertyError::InvalidValue),
        }
    }

    /// Sets the `CoreCountAffectsPercentages` D-Bus property from a value
    /// that is an unsigned integer where `value` is `Some`: any value but 0
    /// is `true`.
    pub fn set_core_count_affects_percentages_property(&mut self, value: Option<u64>) -> (r: Result<bool, PropertyError>)
        ensures
            match value {
                Some(v) => r == Ok::<bool, PropertyError>(v != 0) && *final(self) == (SystemState {
                    core_count_affects_percentages: v != 0,
                    ..*old(self)
                }),
                None => r == Err::<bool, PropertyError>(PropertyError::InvalidValue) && *final(self) == *old(self),
            },
    {
        match value {
            Some(v) => {
                let on = v != 0;
                self.core_count_affects_percentages = on;
                Ok(on)
            },
            None => Err(PropertyError::InvalidValue),
        }
    }
}

// ---------------------------------------------------------------------------
// The client side (macOS) and the D-Bus side (Linux)
// ---------------------------------------------------------------------------

/// The method name of a query.
pub open spec fn query_method(q: IpcQuery) -> Seq<char> {
    match q {
        IpcQuery::CpuStaticInfo => "GetCPUStaticInfo"@,
        IpcQuery::CpuDynamicInfo => "GetCPUDynamicInfo"@,
        IpcQuery::DisksInfo => "GetDisksInfo"@,
        IpcQuery::GpuList => "GetGPUList"@,
        IpcQuery::GpuStaticInfo => "GetGPUStaticInfo"@,
        IpcQuery::GpuDynamicInfo => "GetGPUDynamicInfo"@,
        IpcQuery::FansInfo => "GetFansInfo"@,
        IpcQuery::Processes => "GetProcesses"@,
        IpcQuery::Apps => "GetApps"@,
        IpcQuery::Services => "GetServices"@,
    }
}

/// The method name of a query.
pub fn query_method_name(q: IpcQuery) -> (r: &'static str)
    ensures
        r@ == query_method(q),
{
    match q {
        IpcQuery::CpuStaticInfo => "GetCPUStaticInfo",
        IpcQuery::CpuDynamicInfo => "GetCPUDynamicInfo",
        IpcQuery::DisksInfo => "GetDisksInfo",
        IpcQuery::GpuList => "GetGPUList",
        IpcQuery::GpuStaticInfo => "GetGPUStaticInfo",
        IpcQuery::GpuDynamicInfo => "GetGPUDynamicInfo",
        IpcQuery::FansInfo => "GetFansInfo",
        IpcQuery::Processes => "GetProcesses",
        IpcQuery::Apps => "GetApps",
        IpcQuery::Services => "GetServices",
    }
}

/// The argument of a service-log request: the service name, the byte 1,
/// and the process id (0 where there is none).
pub open spec fn service_logs_arg_of(name: Seq<char>, pid: Option<u32>) -> Seq<char> {
    name + seq!['\u{1}'] + text::decimal(
        match pid {
            Some(p) => p as nat,
            None => 0,
        },
    )
}

/// The client of the gatherer's Unix socket.
pub struct MacosGathererProxy {
    pub socket_path: String,
}

impl MacosGathererProxy {
    /// A client of the socket at `socket_path`.
    pub fn new(socket_path: String) -> (r: MacosGathererProxy)
        ensures
            r.socket_path@ == socket_path@,
    {
        MacosGathererProxy { socket_path }
    }

    /// The bytes that ask for the data of a query.
    pub fn query_request(&self, q: IpcQuery) -> (r: Vec<u8>)
        ensures
            r@ == request_frame(query_method(q), None),
    {
        encode_request(query_method_name(q), None)
    }

    /// The bytes that ask the gatherer to terminate a process.
    pub fn terminate_process_request(&self, pid: u32) -> (r: Vec<u8>)
        ensures
            r@ == request_frame("TerminateProcess"@, Some(text::decimal(pid as nat))),
    {
        let d = text::decimal_exec(pid as u64);
        let s = text::string_of(d.as_slice());
        encode_request("TerminateProcess", Some(s.as_str()))
    }

    /// The bytes that ask the gatherer to kill a process.
    pub fn kill_process_request(&self, pid: u32) -> (r: Vec<u8>)
        ensures
            r@ == request_frame("KillProcess"@, Some(text::decimal(pid as nat))),
    {
        let d = text::decimal_exec(pid as u64);
        let s = text::string_of(d.as_slice());
        encode_request("KillProcess", Some(s.as_str()))
    }

    /// The bytes of a request about a service (`EnableService`,
    /// `DisableService`, `StartService`, `StopService`, `RestartService`).
    pub fn service_request(&self, method: &str, service_name: &str) -> (r: Vec<u8>)
        ensures
            r@ == request_frame(method@, Some(service_name@)),
    {
        encode_request(method, Some(service_name))
    }

    /// The argument of a service-log request.
    pub fn service_logs_arg(service_name: &str, pid: Option<u32>) -> (r: String)
        ensures
            r@ == service_logs_arg_of(service_name@, pid),
    {
        let mut v = text::chars_of(service_name);
        v.push('\u{1}');
        let n: u32 = match pid {
            Some(p) => p,
            None => 0,
        };
        let d = text::decimal_exec(n as u64);
        text::append_chars(&mut v, d.as_slice());
        assert(v@ =~= service_logs_arg_of(service_name@, pid));
        text::string_of(v.as_slice())
    }

    /// The bytes that ask for the log of a service.
    pub fn service_logs_request(&self, service_name: &str, pid: Option<u32>) -> (r: Vec<u8>)
        ensures
            r@ == request_frame("GetServiceLogs"@, Some(service_logs_arg_of(service_name@, pid))),
    {
        let arg = MacosGathererProxy::service_logs_arg(service_name, pid);
        encode_request("GetServiceLogs", Some(arg.as_str()))
    }
}

/// The bus name that the gatherer owns.
pub fn gatherer_bus_name() -> (r: &'static str)
    ensures
        r@ == "io.missioncenter.MissionCenter.Gatherer"@,
{
    "io.missioncenter.MissionCenter.Gatherer"
}

/// The `NameLost` signal of the D-Bus daemon.
pub struct OrgFreedesktopDBusNameLost {
    pub arg0: String,
}

impl OrgFreedesktopDBusNameLost {
    /// Whether the gatherer keeps running on this signal: it exits when the
    /// name lost is its own.
    pub fn keeps_running(&self) -> (r: bool)
        ensures
            r == (self.arg0@ != "io.missioncenter.MissionCenter.Gatherer"@),
    {
        let a = text::chars_of(self.arg0.as_str());
        !text::eq_str(a.as_slice(), gatherer_bus_name())
    }
}

/// The reply to `GetMachineId`: the trimmed content of the machine-id file,
/// or `UNKNOWN` where it could not be read.
pub fn machine_id_reply(content: Option<&str>) -> (r: String)
    ensures
        r@ == match text::opt_str_view(content) {
            Some(c) => text::trim(c),
            None => "UNKNOWN"@,
        },
{
    match content {
        Some(c) => {
            let v = text::chars_of(c);
            let t = text::trim_chars(v.as_slice());
            text::string_of(t.as_slice())
        },
        None => {
            let v = text::chars_of("UNKNOWN");
            text::string_of(v.as_slice())
        },
    }
}

// ---------------------------------------------------------------------------
// Laws of the protocol
// ---------------------------------------------------------------------------

/// The gatherer understands the request that the client sends for a query:
/// it reads back the query's method with an empty argument, and that names
/// the query.
pub proof fn lemma_query_request_understood(q: IpcQuery)
    ensures
        read_request(vstd::utf8::encode_utf8(request_payload(query_method(q), None))) == Some(
            (query_method(q), Seq::<char>::empty()),
        ),
        command_of(query_method(q), Seq::<char>::empty()) == IpcCommand::Query(q),
{
    reveal_strlit("GetCPUStaticInfo");
    reveal_strlit("GetCPUDynamicInfo");
    reveal_strlit("GetDisksInfo");
    reveal_strlit("GetGPUList");
    reveal_strlit("GetGPUStaticInfo");
    reveal_strlit("GetGPUDynamicInfo");
    reveal_strlit("GetFansInfo");
    reveal_strlit("GetProcesses");
    reveal_strlit("GetApps");
    reveal_strlit("GetServices");
    let m = query_method(q);
    assert("GetGPUStaticInfo"@[3] != "GetCPUStaticInfo"@[3]);
    assert("GetGPUDynamicInfo"@[3] != "GetCPUDynamicInfo"@[3]);
    assert("GetProcesses"@[3] != "GetDisksInfo"@[3]);
    assert("GetServices"@[3] != "GetFansInfo"@[3]);
    assert(!m.contains('\0'));
    lemma_request_roundtrip(m, None);
}

/// The gatherer understands the request that the client sends to
/// terminate a process: it reads back `TerminateProcess` and the process id.
pub proof fn lemma_terminate_request_understood(pid: u32)
    ensures
        read_request(vstd::utf8::encode_utf8(request_payload("TerminateProcess"@, Some(text::decimal(pid as nat)))))
            == Some(("TerminateProcess"@, text::decimal(pid as nat))),
        command_of("TerminateProcess"@, text::decimal(pid as nat)) == IpcCommand::TerminateProcess(Some(pid)),
{
    reveal_strlit("GetCPUStaticInfo");
    reveal_strlit("GetCPUDynamicInfo");
    reveal_strlit("GetDisksInfo");
    reveal_strlit("GetGPUList");
    reveal_strlit("GetGPUStaticInfo");
    reveal_strlit("GetGPUDynamicInfo");
    reveal_strlit("GetFansInfo");
    reveal_strlit("GetProcesses");
    reveal_strlit("GetApps");
    reveal_strlit("GetServices");
    reveal_strlit("TerminateProcess");
    assert(!"TerminateProcess"@.contains('\0'));
    lemma_request_roundtrip("TerminateProcess"@, Some(text::decimal(pid as nat)));
    text::lemma_parse_decimal(pid as nat, 4294967295);
}

/// The gatherer understands the request that the client sends to kill a
/// process: it reads back `KillProcess` and the process id.
pub proof fn lemma_kill_request_understood(pid: u32)
    ensures
        read_request(vstd::utf8::encode_utf8(request_payload("KillProcess"@, Some(text::decimal(pid as nat)))))
            == Some(("KillProcess"@, text::decimal(pid as nat))),
        command_of("KillProcess"@, text::decimal(pid as nat)) == IpcCommand::KillProcess(Some(pid)),
{
    reveal_strlit("GetCPUStaticInfo");
    reveal_strlit("GetCPUDynamicInfo");
    reveal_strlit("GetDisksInfo");
    reveal_strlit("GetGPUList");
    reveal_strlit("GetGPUStaticInfo");
    reveal_strlit("GetGPUDynamicInfo");
    reveal_strlit("GetFansInfo");
    reveal_strlit("GetProcesses");
    reveal_strlit("GetApps");
    reveal_strlit("GetServices");
    reveal_strlit("TerminateProcess");
    reveal_strlit("KillProcess");
    assert(!"KillProcess"@.contains('\0'));
    lemma_request_roundtrip("KillProcess"@, Some(text::decimal(pid as nat)));
    text::lemma_parse_decimal(pid as nat, 4294967295);
}

/// A `SetRefreshInterval` request with a number sets the refresh interval
/// to it and changes nothing else.
pub proof fn lemma_set_refresh_interval(s: SystemState, ms: u64)
    ensures
        apply_command(s, command_of("SetRefreshInterval"@, text::decimal(ms as nat))) == (SystemState {
            refresh_interval: ms,
            ..s
        }),
{
    reveal_strlit("GetCPUStaticInfo");
    reveal_strlit("GetCPUDynamicInfo");
    reveal_strlit("GetDisksInfo");
    reveal_strlit("GetGPUList");
    reveal_strlit("GetGPUStaticInfo");
    reveal_strlit("GetGPUDynamicInfo");
    reveal_strlit("GetFansInfo");
    reveal_strlit("GetProcesses");
    reveal_strlit("GetApps");
    reveal_strlit("GetServices");
    reveal_strlit("TerminateProcess");
    reveal_strlit("KillProcess");
    reveal_strlit("SetRefreshInterval");
    text::lemma_parse_decimal(ms as nat, 18446744073709551615);
    assert(parse_u64(text::decimal(ms as nat)) == Some(ms));
    assert("SetRefreshInterval"@.len() != "GetCPUStaticInfo"@.len());
    assert("SetRefreshInterval"@.len() != "GetCPUDynamicInfo"@.len());
    assert("SetRefreshInterval"@.len() != "GetDisksInfo"@.len());
    assert("SetRefreshInterval"@.len() != "GetGPUList"@.len());
    assert("SetRefreshInterval"@.len() != "GetGPUStaticInfo"@.len());
    assert("SetRefreshInterval"@.len() != "GetGPUDynamicInfo"@.len());
    assert("SetRefreshInterval"@.len() != "GetFansInfo"@.len());
    assert("SetRefreshInterval"@.len() != "GetProcesses"@.len());
    assert("SetRefreshInterval"@.len() != "GetApps"@.len());
    assert("SetRefreshInterval"@.len() != "GetServices"@.len());
    assert("SetRefreshInterval"@.len() != "TerminateProcess"@.len());
    assert("SetRefreshInterval"@.len() != "KillProcess"@.len());
    assert(command_of("SetRefreshInterval"@, text::decimal(ms as nat)) == IpcCommand::SetRefreshInterval(Some(ms)));
}

/// Queries change no setting, and a refresh divides the processes' CPU
/// usage by the core count exactly when the core count does not affect
/// percentages.
pub proof fn lemma_queries_keep_settings(s: SystemState, q: IpcQuery)
    ensures
        apply_command(s, IpcCommand::Query(q)) == s,
        refresh_plan(s.core_count_affects_percentages).contains(
            RefreshStep::DivideProcessCpuUsageByCoreCount,
        ) <==> !s.core_count_affects_percentages,
{
    let p = refresh_plan(s.core_count_affects_percentages);
    if !s.core_count_affects_percentages {
        assert(p[1] == RefreshStep::DivideProcessCpuUsageByCoreCount);
    } else {
        assert forall|i: int| 0 <= i < p.len() implies p[i] != RefreshStep::DivideProcessCpuUsageByCoreCount by {
        }
    }
}

/// A refresh writes the caches and nothing else: every step writes a
/// cache, every cache is written, no step is repeated, the processes come
/// first, and their CPU usage is divided by the core count right after
/// them exactly when the core count does not affect percentages. The
/// settings stay as they were (`snapshot` only reads the state).
pub proof fn lemma_snapshot_writes_only_caches(s: SystemState)
    ensures
        ({
            let p = refresh_plan(s.core_count_affects_percentages);
            &&& p[0] == RefreshStep::Processes
            &&& (forall|i: int| 0 <= i < p.len() ==> is_cache(#[trigger] written_part(p[i])))
            &&& (forall|c: GathererPart|
                is_cache(c) ==> exists|i: int| 0 <= i < p.len() && #[trigger] written_part(p[i]) == c)
            &&& (forall|i: int, j: int| 0 <= i < j < p.len() ==> #[trigger] p[i] != #[trigger] p[j])
            &&& (forall|i: int|
                0 <= i < p.len() && #[trigger] p[i] == RefreshStep::DivideProcessCpuUsageByCoreCount
                    ==> i == 1 && p[0] == RefreshStep::Processes)
            &&& (p.contains(RefreshStep::DivideProcessCpuUsageByCoreCount)
                <==> !s.core_count_affects_percentages)
        }),
{
    let p = refresh_plan(s.core_count_affects_percentages);
    let k: int = if s.core_count_affects_percentages { 0 } else { 1 };
    assert(p.len() == 7 + k);
    assert(p[0] == RefreshStep::Processes);
    assert(p[k + 1] == RefreshStep::CpuDynamicInfo);
    assert(p[k + 2] == RefreshStep::Disks);
    assert(p[k + 3] == RefreshStep::GpuDynamicInfo);
    assert(p[k + 4] == RefreshStep::Fans);
    assert(p[k + 5] == RefreshStep::Apps);
    assert(p[k + 6] == RefreshStep::Services);
    if k == 1 {
        assert(p[1] == RefreshStep::DivideProcessCpuUsageByCoreCount);
    }
    assert forall|c: GathererPart| is_cache(c) implies exists|i: int|
        0 <= i < p.len() && #[trigger] written_part(p[i]) == c by {
        match c {
            GathererPart::ProcessCache => assert(written_part(p[0]) == c),
            GathererPart::CpuDynamicCache => assert(written_part(p[k + 1]) == c),
            GathererPart::DiskCache => assert(written_part(p[k + 2]) == c),
            GathererPart::GpuDynamicCache => assert(written_part(p[k + 3]) == c),
            GathererPart::FanCache => assert(written_part(p[k + 4]) == c),
            GathererPart::AppCache => assert(written_part(p[k + 5]) == c),
            GathererPart::ServiceCache => assert(written_part(p[k + 6]) == c),
            _ => {},
        }
    }
    if s.core_count_affects_percentages {
        assert forall|i: int| 0 <= i < p.len() implies p[i] != RefreshStep::DivideProcessCpuUsageByCoreCount by {
        }
    }
}

} // verus!
