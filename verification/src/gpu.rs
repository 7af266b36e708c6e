//! Graphics processors: what `system_profiler` and `ioreg` report of them.
use crate::apps::opt_string_view;
use crate::disk;
use crate::text;
use vstd::prelude::*;

verus! {

/// A version of a graphics API.
#[derive(Clone, Copy, Debug, PartialEq, Eq, Structural)]
pub struct ApiVersion {
    pub major: u16,
    pub minor: u16,
    pub patch: u16,
}

/// The flavour of OpenGL a version is of.
#[derive(Clone, Copy, Debug, PartialEq, Eq, Structural)]
pub enum OpenGLApi {
    OpenGL,
    OpenGLES,
    Invalid,
}

/// A version of OpenGL.
#[derive(Clone, Copy, Debug, PartialEq, Eq, Structural)]
pub struct OpenGLApiVersion {
    pub major: u8,
    pub minor: u8,
    pub api: OpenGLApi,
}

/// What does not change of a graphics processor while the system runs.
#[derive(Clone, Debug, PartialEq, Eq)]
pub struct MacosGpuStaticInfo {
    pub id: String,
    pub device_name: String,
    pub vendor_id: u16,
    pub device_id: u16,
    pub total_memory: u64,
    pub total_gtt: u64,
    pub opengl_version: Option<OpenGLApiVersion>,
    pub vulkan_version: Option<ApiVersion>,
    pub metal_version: Option<ApiVersion>,
    pub pcie_gen: u8,
    pub pcie_lanes: u8,
}

impl Default for MacosGpuStaticInfo {
    fn default() -> (r: Self)
        ensures
            r.id@.len() == 0,
            r.device_name@.len() == 0,
            r.vendor_id == 0,
            r.device_id == 0,
            r.total_memory == 0,
            r.total_gtt == 0,
            r.opengl_version is None,
            r.vulkan_version is None,
            r.metal_version is None,
            r.pcie_gen == 0,
            r.pcie_lanes == 0,
    {
        MacosGpuStaticInfo {
            id: String::new(),
            device_name: String::new(),
            vendor_id: 0,
            device_id: 0,
            total_memory: 0,
            total_gtt: 0,
            opengl_version: None,
            vulkan_version: None,
            metal_version: None,
            pcie_gen: 0,
            pcie_lanes: 0,
        }
    }
}

impl MacosGpuStaticInfo {
    pub fn id(&self) -> (r: &str)
        ensures
            r@ == self.id@,
    {
        self.id.as_str()
    }

    pub fn device_name(&self) -> (r: &str)
        ensures
            r@ == self.device_name@,
    {
        self.device_name.as_str()
    }

    pub fn vendor_id(&self) -> (r: u16)
        ensures
            r == self.vendor_id,
    {
        self.vendor_id
    }

    pub fn device_id(&self) -> (r: u16)
        ensures
            r == self.device_id,
    {
        self.device_id
    }

    pub fn total_memory(&self) -> (r: u64)
        ensures
            r == self.total_memory,
    {
        self.total_memory
    }

    pub fn total_gtt(&self) -> (r: u64)
        ensures
            r == self.total_gtt,
    {
        self.total_gtt
    }

    pub fn opengl_version(&self) -> (r: Option<OpenGLApiVersion>)
        ensures
            r == self.opengl_version,
    {
        self.opengl_version
    }

    pub fn vulkan_version(&self) -> (r: Option<ApiVersion>)
        ensures
            r == self.vulkan_version,
    {
        self.vulkan_version
    }

    pub fn metal_version(&self) -> (r: Option<ApiVersion>)
        ensures
            r == self.metal_version,
    {
        self.metal_version
    }

    /// There is no Direct3D on macOS.
    pub fn direct3d_version(&self) -> (r: Option<ApiVersion>)
        ensures
            r is None,
    {
        None
    }

    pub fn pcie_gen(&self) -> (r: u8)
        ensures
            r == self.pcie_gen,
    {
        self.pcie_gen
    }

    pub fn pcie_lanes(&self) -> (r: u8)
        ensures
            r == self.pcie_lanes,
    {
        self.pcie_lanes
    }
}

// ---------------------------------------------------------------------------
// `system_profiler SPDisplaysDataType`
// ---------------------------------------------------------------------------

/// The PCI vendor id that a vendor text names, by the first of `apple`,
/// `amd` or `ati`, `nvidia`, `intel` that its lowercase form contains (0
/// for none).
pub open spec fn vendor_id_of(s: Seq<char>) -> u16 {
    vendor_id_of_lowercase(text::lowercase(s))
}

fn contains_lit(h: &[char], n: &str) -> (r: bool)
    ensures
        r == text::contains(h@, n@),
{
    let nc = text::chars_of(n);
    text::contains_exec(h, nc.as_slice())
}

/// The PCI vendor id that the lowercase form of a vendor text names.
pub open spec fn vendor_id_of_lowercase(lower: Seq<char>) -> u16 {
    if text::contains(lower, "apple"@) {
        0x106b
    } else if text::contains(lower, "amd"@) || text::contains(lower, "ati"@) {
        0x1002
    } else if text::contains(lower, "nvidia"@) {
        0x10de
    } else if text::contains(lower, "intel"@) {
        0x8086
    } else {
        0
    }
}

/// The PCI vendor id that the lowercase form of a vendor text names.
pub fn vendor_id_from_lowercase(lower: &str) -> (r: u16)
    ensures
        r == vendor_id_of_lowercase(lower@),
{
    let l = text::chars_of(lower);
    let l = l.as_slice();
    if contains_lit(l, "apple") {
        0x106b
    } else if contains_lit(l, "amd") || contains_lit(l, "ati") {
        0x1002
    } else if contains_lit(l, "nvidia") {
        0x10de
    } else if contains_lit(l, "intel") {
        0x8086
    } else {
        0
    }
}

/// The PCI vendor id that a vendor text names.
pub fn parse_vendor_id(s: &str) -> (r: u16)
    ensures
        r == vendor_id_of(s@),
{
    let lower = text::to_lowercase(s);
    vendor_id_from_lowercase(lower.as_str())
}

/// The Metal version that a Metal family text names: 3 for `Metal 3` or
/// `GPUFamily Apple 9`, 2 for `Metal 2` or `GPUFamily Apple`, 1 for any
/// other `Metal`; none otherwise or where there is no text.
pub open spec fn metal_version_of(family: Option<Seq<char>>) -> Option<ApiVersion> {
    match family {
        None => None,
        Some(f) => if text::contains(f, "Metal 3"@) || text::contains(f, "GPUFamily Apple 9"@) {
            Some(ApiVersion { major: 3, minor: 0, patch: 0 })
        } else if text::contains(f, "Metal 2"@) || text::contains(f, "GPUFamily Apple"@) {
            Some(ApiVersion { major: 2, minor: 0, patch: 0 })
        } else if text::contains(f, "Metal"@) {
            Some(ApiVersion { major: 1, minor: 0, patch: 0 })
        } else {
            None
        },
    }
}

/// The Metal version that the `spdisplays_metal` text of a display names.
pub fn detect_metal_version(family: Option<&str>) -> (r: Option<ApiVersion>)
    ensures
        r == metal_version_of(text::opt_str_view(family)),
{
    match family {
        None => None,
        Some(f) => {
            let c = text::chars_of(f);
            let c = c.as_slice();
            if contains_lit(c, "Metal 3") || contains_lit(c, "GPUFamily Apple 9") {
                Some(ApiVersion { major: 3, minor: 0, patch: 0 })
            } else if contains_lit(c, "Metal 2") || contains_lit(c, "GPUFamily Apple") {
                Some(ApiVersion { major: 2, minor: 0, patch: 0 })
            } else if contains_lit(c, "Metal") {
                Some(ApiVersion { major: 1, minor: 0, patch: 0 })
            } else {
                None
            }
        },
    }
}

/// The device id of a `sppci_device_id` text: hexadecimal after any
/// number of leading `0x`, 0 where it does not parse as a `u16`.
pub open spec fn device_id_of(s: Seq<char>) -> u16 {
    match text::parse_uint(text::trim_start_matches(s, "0x"@), 16, 65535) {
        Some(v) => v as u16,
        None => 0,
    }
}

/// The device id of a `sppci_device_id` text.
pub fn parse_device_id(s: &str) -> (r: u16)
    ensures
        r == device_id_of(s@),
{
    let c = text::chars_of(s);
    let p = text::chars_of("0x");
    let t = text::trim_start_matches_exec(c.as_slice(), p.as_slice());
    match text::parse_uint_exec(t.as_slice(), 16, 65535) {
        Some(v) => v as u16,
        None => 0,
    }
}

/// What one entry of the `SPDisplaysDataType` list gives, as far as it is
/// read; the memory size is what its `spdisplays_vram` text reads as.
#[derive(Clone, Debug, PartialEq, Eq)]
pub struct DisplayEntry {
    /// `sppci_model`, where it is a string.
    pub model: Option<String>,
    /// The size that `spdisplays_vram` states, where it is a string.
    pub vram_bytes: Option<u64>,
    /// `spdisplays_vendor`.
    pub vendor: text::FieldValue,
    /// `sppci_vendor`.
    pub pci_vendor: text::FieldValue,
    /// `sppci_device_id`, where it is a string.
    pub device_id: Option<String>,
    /// `spdisplays_metal`, where it is a string.
    pub metal: Option<String>,
}

/// The identifier of the `idx`-th graphics processor: `gpu-<idx>`.
pub open spec fn gpu_id_of(idx: nat) -> Seq<char> {
    "gpu-"@ + text::decimal(idx)
}

/// The static information of the `idx`-th display entry: named by its
/// model (`Unknown GPU` where there is none); its memory size where it is
/// above 0, else the installed memory; the vendor from `spdisplays_vendor`,
/// or `sppci_vendor` where that key is absent.
pub open spec fn gpu_static_ok(idx: nat, e: DisplayEntry, total_mem: u64, r: MacosGpuStaticInfo) -> bool {
    &&& r.id@ == gpu_id_of(idx)
    &&& r.device_name@ == match e.model {
        Some(m) => m@,
        None => "Unknown GPU"@,
    }
    &&& r.total_memory == match e.vram_bytes {
        Some(v) => if v > 0 {
            v
        } else {
            total_mem
        },
        None => total_mem,
    }
    &&& r.vendor_id == match crate::apps::first_present(e.vendor, e.pci_vendor) {
        text::FieldValue::Text(s) => vendor_id_of(s@),
        _ => 0,
    }
    &&& r.device_id == match e.device_id {
        Some(d) => device_id_of(d@),
        None => 0,
    }
    &&& r.metal_version == metal_version_of(opt_string_view(e.metal))
    &&& r.total_gtt == 0
    &&& r.opengl_version is None
    &&& r.vulkan_version is None
    &&& r.pcie_gen == 0
    &&& r.pcie_lanes == 0
}

/// The device id of a graphics processor is the hexadecimal number its
/// `sppci_device_id` text writes, with or without a leading `0x`, wherever
/// that number fits in a `u16`.
pub proof fn lemma_device_id_is_hex_value(
    idx: nat,
    e: DisplayEntry,
    total_mem: u64,
    r: MacosGpuStaticInfo,
    hex: Seq<char>,
)
    requires
        gpu_static_ok(idx, e, total_mem, r),
        e.device_id matches Some(d) && (d@ == hex || d@ == "0x"@ + hex),
        hex.len() > 0,
        text::all_digits(hex, 16),
        text::digits_value(hex, 16) <= 0xFFFF,
    ensures
        r.device_id == text::digits_value(hex, 16),
{
    reveal_strlit("0x");
    let d = e.device_id.unwrap()@;
    assert(text::char_digit('x', 16) is None);
    assert(text::char_digit(hex[0], 16) is Some);
    assert(!text::starts_with(hex, "0x"@)) by {
        if hex.len() >= 2 {
            assert(text::char_digit(hex[1], 16) is Some);
            assert(hex[1] != 'x');
            assert(hex.take(2) != "0x"@.take(2)) by {
                assert(hex.take(2)[1] != "0x"@[1]);
            }
        }
    }
    assert(hex[0] != '+');
    if d == "0x"@ + hex {
        assert(text::starts_with(d, "0x"@)) by {
            assert(d.take(2) =~= "0x"@);
        }
        assert(d.skip(2) =~= hex);
        assert(text::trim_start_matches(d, "0x"@) == text::trim_start_matches(hex, "0x"@));
    }
    assert(text::trim_start_matches(hex, "0x"@) == hex);
    assert(text::trim_start_matches(d, "0x"@) == hex);
    assert(text::unsigned_digits(hex) == hex);
}

impl MacosGpuStaticInfo {
    /// The static information of the `idx`-th display entry.
    pub fn from_display_entry(idx: usize, e: &DisplayEntry, total_mem: u64) -> (r: MacosGpuStaticInfo)
        ensures
            gpu_static_ok(idx as nat, *e, total_mem, r),
    {
        let mut id = text::chars_of("gpu-");
        let d = text::decimal_exec(idx as u64);
        text::append_chars(&mut id, d.as_slice());
        let name = match &e.model {
            Some(m) => {
                let c = text::chars_of(m.as_str());
                text::string_of(c.as_slice())
            },
            None => {
                let c = text::chars_of("Unknown GPU");
                text::string_of(c.as_slice())
            },
        };
        let mem = match e.vram_bytes {
            Some(v) => if v > 0 {
                v
            } else {
                total_mem
            },
            None => total_mem,
        };
        let vendor = match &e.vendor {
            text::FieldValue::Missing => &e.pci_vendor,
            _ => &e.vendor,
        };
        let vendor_id = match vendor {
            text::FieldValue::Text(s) => parse_vendor_id(s.as_str()),
            _ => 0,
        };
        let device_id = match &e.device_id {
            Some(s) => parse_device_id(s.as_str()),
            None => 0,
        };
        let metal = match &e.metal {
            Some(m) => detect_metal_version(Some(m.as_str())),
            None => detect_metal_version(None),
        };
        MacosGpuStaticInfo {
            id: text::string_of(id.as_slice()),
            device_name: name,
            vendor_id,
            device_id,
            total_memory: mem,
            total_gtt: 0,
            opengl_version: None,
            vulkan_version: None,
            metal_version: metal,
            pcie_gen: 0,
            pcie_lanes: 0,
        }
    }
}

/// The static information of the graphics processors that the display
/// entries describe, in order.
pub fn gpus_from_display_entries(entries: &Vec<DisplayEntry>, total_mem: u64) -> (r: Vec<MacosGpuStaticInfo>)
    ensures
        r@.len() == entries@.len(),
        forall|i: int| 0 <= i < r@.len() ==> gpu_static_ok(i as nat, entries@[i], total_mem, #[trigger] r@[i]),
{
    let mut out: Vec<MacosGpuStaticInfo> = Vec::new();
    let mut i: usize = 0;
    while i < entries.len()
        invariant
            i <= entries.len(),
            out@.len() == i,
            forall|j: int| 0 <= j < i ==> gpu_static_ok(j as nat, entries@[j], total_mem, #[trigger] out@[j]),
        decreases entries.len() - i,
    {
        let g = MacosGpuStaticInfo::from_display_entry(i, &entries[i], total_mem);
        out.push(g);
        i += 1;
    }
    out
}

// ---------------------------------------------------------------------------
// `ioreg -c IOAccelerator`
// ---------------------------------------------------------------------------

/// What the accelerator statistics give.
#[derive(Clone, Copy, Debug, PartialEq, Eq, Structural)]
pub struct AcceleratorStats {
    pub util_percent: u32,
    pub clock_mhz: u32,
    pub mem_clock_mhz: u32,
    pub used_vram: u64,
    pub free_vram: u64,
    pub encoder_percent: u32,
    pub decoder_percent: u32,
}

/// The statistics after one line: a trimmed line that mentions
/// `PerformanceStatistics` sets the utilization (truncated to a `u32`) and
/// the memory in use, where it has them.
pub open spec fn accel_step(s: AcceleratorStats, line: Seq<char>) -> AcceleratorStats {
    let t = text::trim(line);
    if text::contains(t, "PerformanceStatistics"@) {
        let s1 = match disk::ioreg_stat(t, "Device Utilization %"@) {
            Some(v) => AcceleratorStats { util_percent: v as u32, ..s },
            None => s,
        };
        match disk::ioreg_stat(t, "In use system memory"@) {
            Some(v) => AcceleratorStats { used_vram: v as u64, ..s1 },
            None => s1,
        }
    } else {
        s
    }
}

pub open spec fn accel_fold(ls: Seq<Seq<char>>) -> AcceleratorStats
    decreases ls.len(),
{
    if ls.len() == 0 {
        AcceleratorStats {
            util_percent: 0,
            clock_mhz: 0,
            mem_clock_mhz: 0,
            used_vram: 0,
            free_vram: 0,
            encoder_percent: 0,
            decoder_percent: 0,
        }
    } else {
        accel_step(accel_fold(ls.drop_last()), ls.last())
    }
}

/// The number after `"KEY"=` in a line of `ioreg` output.
pub fn extract_ioreg_u64(line: &str, key: &str) -> (r: Option<u64>)
    ensures
        match r {
            Some(v) => disk::ioreg_stat(line@, key@) == Some(v as nat),
            None => disk::ioreg_stat(line@, key@) is None,
        },
{
    disk::extract_ioreg_stat(line, key)
}

/// The accelerator statistics in `ioreg -r -d 1 -c IOAccelerator` output.
pub fn parse_ioreg_gpu(report: &str) -> (r: AcceleratorStats)
    ensures
        r == accel_fold(text::lines(report@)),
{
    let chars = text::chars_of(report);
    let ls = text::lines_exec(chars.as_slice());
    let ghost lv = ls.deep_view();
    let mut s = AcceleratorStats {
        util_percent: 0,
        clock_mhz: 0,
        mem_clock_mhz: 0,
        used_vram: 0,
        free_vram: 0,
        encoder_percent: 0,
        decoder_percent: 0,
    };
    let mut i: usize = 0;
    while i < ls.len()
        invariant
            i <= ls.len(),
            lv == ls.deep_view(),
            lv == text::lines(report@),
            s == accel_fold(lv.take(i as int)),
        decreases ls.len() - i,
    {
        assert(ls[i as int]@ == lv[i as int]);
        let t = text::trim_chars(ls[i].as_slice());
        if contains_lit(t.as_slice(), "PerformanceStatistics") {
            let line = text::string_of(t.as_slice());
            match extract_ioreg_u64(line.as_str(), "Device Utilization %") {
                Some(v) => {
                    s.util_percent = v as u32;
                },
                None => {},
            }
            match extract_ioreg_u64(line.as_str(), "In use system memory") {
                Some(v) => {
                    s.used_vram = v;
                },
                None => {},
            }
        }
        assert(lv.take(i + 1).drop_last() =~= lv.take(i as int));
        assert(lv.take(i + 1).last() == lv[i as int]);
        i += 1;
    }
    assert(lv.take(ls.len() as int) =~= lv);
    s
}

} // verus!
