//! Disk information: the parsers of `diskutil` and `ioreg` output and the
//! decisions made from what they report.
use crate::text;
use vstd::prelude::*;

verus! {

/// Kind of storage device, in the order of its wire code.
#[allow(non_camel_case_types)]
#[derive(Clone, Copy, Debug, PartialEq, Eq, Structural)]
pub enum DiskType {
    Unknown,
    HDD,
    SSD,
    NVMe,
    eMMC,
    SD,
    iSCSI,
    Optical,
}

impl Default for DiskType {
    fn default() -> (r: Self)
        ensures
            r == DiskType::Unknown,
    {
        DiskType::Unknown
    }
}

impl DiskType {
    /// The numeric code of the disk type on the wire.
    pub open spec fn spec_code(self) -> u8 {
        match self {
            DiskType::Unknown => 0,
            DiskType::HDD => 1,
            DiskType::SSD => 2,
            DiskType::NVMe => 3,
            DiskType::eMMC => 4,
            DiskType::SD => 5,
            DiskType::iSCSI => 6,
            DiskType::Optical => 7,
        }
    }

    pub fn code(&self) -> (r: u8)
        ensures
            r == self.spec_code(),
    {
        match self {
            DiskType::Unknown => 0,
            DiskType::HDD => 1,
            DiskType::SSD => 2,
            DiskType::NVMe => 3,
            DiskType::eMMC => 4,
            DiskType::SD => 5,
            DiskType::iSCSI => 6,
            DiskType::Optical => 7,
        }
    }
}

// ---------------------------------------------------------------------------
// Property lists written one element per line
// ---------------------------------------------------------------------------

/// `<key>KEY</key>`
pub open spec fn plist_key_line(key: Seq<char>) -> Seq<char> {
    "<key>"@ + key + "</key>"@
}

/// The trimmed line that follows a line reading `search` (after trimming).
/// A repeated `search` line keeps looking at the line after it.
pub open spec fn line_after_key(ls: Seq<Seq<char>>, search: Seq<char>, next: bool) -> Option<
    Seq<char>,
>
    decreases ls.len(),
{
    if ls.len() == 0 {
        None
    } else {
        let t = text::trim(ls[0]);
        if t == search {
            line_after_key(ls.drop_first(), search, true)
        } else if next {
            Some(t)
        } else {
            line_after_key(ls.drop_first(), search, false)
        }
    }
}

/// The text inside `open ... close` on the line after `search`.
pub open spec fn plist_scan(ls: Seq<Seq<char>>, search: Seq<char>, open: Seq<char>, close: Seq<char>) -> Option<
    Seq<char>,
> {
    match line_after_key(ls, search, false) {
        Some(t) => match text::strip_prefix(t, open) {
            Some(a) => text::strip_suffix(a, close),
            None => None,
        },
        None => None,
    }
}

/// The text of the `<string>` element that follows `<key>KEY</key>`.
pub open spec fn plist_str(text: Seq<char>, key: Seq<char>) -> Option<Seq<char>> {
    plist_scan(text::lines(text), plist_key_line(key), "<string>"@, "</string>"@)
}

/// The value of the `<integer>` element that follows `<key>KEY</key>`, when
/// it reads as a `u64`.
pub open spec fn plist_u64(text: Seq<char>, key: Seq<char>) -> Option<nat> {
    match plist_scan(text::lines(text), plist_key_line(key), "<integer>"@, "</integer>"@) {
        Some(v) => text::parse_uint(v, 10, u64::MAX as nat),
        None => None,
    }
}

fn line_after_key_exec(ls: &Vec<Vec<char>>, search: &[char]) -> (r: Option<Vec<char>>)
    ensures
        match r {
            Some(v) => line_after_key(ls.deep_view(), search@, false) == Some(v@),
            None => line_after_key(ls.deep_view(), search@, false) is None,
        },
{
    let ghost lv = ls.deep_view();
    proof {
        text::lemma_deep_view_chars(ls);
    }
    let mut next = false;
    let mut i: usize = 0;
    assert(lv.skip(0) =~= lv);
    while i < ls.len()
        invariant
            lv == ls.deep_view(),
            lv.len() == ls@.len(),
            forall|k: int| 0 <= k < ls@.len() ==> #[trigger] lv[k] == ls@[k]@,
            i <= ls.len(),
            line_after_key(lv, search@, false) == line_after_key(lv.skip(i as int), search@, next),
        decreases ls.len() - i,
    {
        let ghost rest = lv.skip(i as int);
        assert(rest[0] == ls@[i as int]@);
        assert(rest.drop_first() =~= lv.skip(i + 1));
        let t = text::trim_chars(ls[i].as_slice());
        if text::chars_eq(t.as_slice(), search) {
            next = true;
        } else if next {
            return Some(t);
        }
        i += 1;
    }
    None
}

fn plist_scan_exec(ls: &Vec<Vec<char>>, search: &[char], open: &[char], close: &[char]) -> (r:
    Option<Vec<char>>)
    ensures
        match r {
            Some(v) => plist_scan(ls.deep_view(), search@, open@, close@) == Some(v@),
            None => plist_scan(ls.deep_view(), search@, open@, close@) is None,
        },
{
    match line_after_key_exec(ls, search) {
        Some(t) => match text::strip_prefix_exec(t.as_slice(), open) {
            Some(a) => text::strip_suffix_exec(a.as_slice(), close),
            None => None,
        },
        None => None,
    }
}

fn plist_key_line_exec(key: &[char]) -> (v: Vec<char>)
    ensures
        v@ == plist_key_line(key@),
{
    let mut v = text::chars_of("<key>");
    let mut i: usize = 0;
    let ghost base = v@;
    while i < key.len()
        invariant
            i <= key.len(),
            v@ == base + key@.take(i as int),
        decreases key.len() - i,
    {
        v.push(key[i]);
        assert(key@.take(i + 1) =~= key@.take(i as int).push(key@[i as int]));
        i += 1;
    }
    assert(key@.take(key@.len() as int) =~= key@);
    let close = text::chars_of("</key>");
    text::append_chars(&mut v, close.as_slice());
    v
}

/// The text of the `<string>` element after `<key>KEY</key>` in a property list.
pub fn parse_plist_str(text: &str, key: &str) -> (r: Option<String>)
    ensures
        r.deep_view() == plist_str(text@, key@),
{
    let t = text::chars_of(text);
    let ls = text::lines_exec(t.as_slice());
    let k = text::chars_of(key);
    let search = plist_key_line_exec(k.as_slice());
    let open = text::chars_of("<string>");
    let close = text::chars_of("</string>");
    match plist_scan_exec(&ls, search.as_slice(), open.as_slice(), close.as_slice()) {
        Some(v) => Some(text::string_of(v.as_slice())),
        None => None,
    }
}

/// The `<integer>` element after `<key>KEY</key>` in a property list, read as a `u64`.
pub fn parse_plist_u64(text: &str, key: &str) -> (r: Option<u64>)
    ensures
        match r {
            Some(v) => plist_u64(text@, key@) == Some(v as nat),
            None => plist_u64(text@, key@) is None,
        },
{
    let t = text::chars_of(text);
    let ls = text::lines_exec(t.as_slice());
    let k = text::chars_of(key);
    let search = plist_key_line_exec(k.as_slice());
    let open = text::chars_of("<integer>");
    let close = text::chars_of("</integer>");
    match plist_scan_exec(&ls, search.as_slice(), open.as_slice(), close.as_slice()) {
        Some(v) => text::parse_uint_exec(v.as_slice(), 10, u64::MAX),
        None => None,
    }
}

// ---------------------------------------------------------------------------
// `diskutil list -plist`
// ---------------------------------------------------------------------------

/// The disk name in a `<string>diskN</string>` line: the text between
/// `<string>` and the next `</string>`, kept when what follows `disk` is all
/// ASCII digits.
pub open spec fn diskutil_entry(t: Seq<char>) -> Option<Seq<char>> {
    match text::find(t, "<string>disk"@) {
        Some(start) => {
            let rest = t.skip(start + 8);
            match text::find(rest, "</string>"@) {
                Some(end) => {
                    let name = rest.take(end);
                    if text::all_ascii_digits(name.skip(4)) {
                        Some(name)
                    } else {
                        None
                    }
                },
                None => None,
            }
        },
        None => None,
    }
}

/// The disk names listed after `<key>AllDisks</key>`, up to the `</array>`
/// that closes them.
pub open spec fn diskutil_scan(ls: Seq<Seq<char>>, in_all: bool) -> Seq<Seq<char>>
    decreases ls.len(),
{
    if ls.len() == 0 {
        seq![]
    } else {
        let t = text::trim(ls[0]);
        if text::contains(t, "<key>AllDisks</key>"@) {
            diskutil_scan(ls.drop_first(), true)
        } else if in_all {
            if text::starts_with(t, "</array>"@) {
                seq![]
            } else {
                match diskutil_entry(t) {
                    Some(n) => seq![n] + diskutil_scan(ls.drop_first(), true),
                    None => diskutil_scan(ls.drop_first(), true),
                }
            }
        } else {
            diskutil_scan(ls.drop_first(), false)
        }
    }
}

pub open spec fn diskutil_disks(plist: Seq<char>) -> Seq<Seq<char>> {
    diskutil_scan(text::lines(plist), false)
}

fn diskutil_entry_exec(t: &[char]) -> (r: Option<Vec<char>>)
    ensures
        match r {
            Some(v) => diskutil_entry(t@) == Some(v@),
            None => diskutil_entry(t@) is None,
        },
{
    let open = text::chars_of("<string>disk");
    let close = text::chars_of("</string>");
    proof {
        reveal_strlit("<string>disk");
    }
    match text::find_exec(t, open.as_slice()) {
        Some(start) => {
            proof {
                text::lemma_find_from(t@, open@, 0);
                assert(open@.len() == 12);
                assert(text::matches_at(t@, open@, start as int));
                assert(start + open@.len() <= t@.len());
                assert(t@.len() == t.len());
            }
            let rest = text::copy_range(t, start + 8, t.len());
            assert(rest@ =~= t@.skip(start + 8));
            match text::find_exec(rest.as_slice(), close.as_slice()) {
                Some(end) => {
                    proof {
                        text::lemma_find_from(rest@, close@, 0);
                    }
                    let name = text::copy_range(rest.as_slice(), 0, end);
                    assert(name@ =~= rest@.take(end as int));
                    proof {
                        assert(name@.len() >= 4) by {
                            assert(t@.subrange(start as int, start + 12) == open@);
                            assert(t@[start + 8] == rest@[0]);
                            assert(rest@[0] == open@[8]);
                            assert(rest@.subrange(end as int, end + close@.len()) == close@);
                            assert(open@[8] == 'd');
                            assert(rest@[1] == open@[9]);
                            assert(rest@[2] == open@[10]);
                            assert(rest@[3] == open@[11]);
                            reveal_strlit("</string>");
                            assert(close@[0] == '<');
                            if end < 4 {
                                assert(rest@[end as int] == close@[0]);
                            }
                        }
                    }
                    let suffix = text::copy_range(name.as_slice(), 4, name.len());
                    assert(suffix@ =~= name@.skip(4));
                    if text::all_ascii_digits_exec(suffix.as_slice()) {
                        Some(name)
                    } else {
                        None
                    }
                },
                None => None,
            }
        },
        None => None,
    }
}

/// The whole-disk and partition names that `diskutil list -plist` lists
/// under `AllDisks` and whose part after `disk` is all digits.
pub fn parse_diskutil_list(plist: &str) -> (r: Vec<String>)
    ensures
        r.deep_view() == diskutil_disks(plist@),
{
    let t = text::chars_of(plist);
    let ls = text::lines_exec(t.as_slice());
    let ghost lv = ls.deep_view();
    proof {
        text::lemma_deep_view_chars(&ls);
    }
    let key = text::chars_of("<key>AllDisks</key>");
    let close = text::chars_of("</array>");
    let mut out: Vec<String> = Vec::new();
    let mut in_all = false;
    let mut i: usize = 0;
    assert(lv.skip(0) =~= lv);
    while i < ls.len()
        invariant
            lv == ls.deep_view(),
            lv == text::lines(plist@),
            lv.len() == ls@.len(),
            forall|k: int| 0 <= k < ls@.len() ==> #[trigger] lv[k] == ls@[k]@,
            i <= ls.len(),
            key@ == "<key>AllDisks</key>"@,
            close@ == "</array>"@,
            diskutil_scan(lv, false) == out.deep_view() + diskutil_scan(lv.skip(i as int), in_all),
        decreases ls.len() - i,
    {
        let ghost rest = lv.skip(i as int);
        assert(rest[0] == ls@[i as int]@);
        assert(rest.drop_first() =~= lv.skip(i + 1));
        let tr = text::trim_chars(ls[i].as_slice());
        if text::contains_exec(tr.as_slice(), key.as_slice()) {
            in_all = true;
        } else if in_all {
            if text::starts_with_exec(tr.as_slice(), close.as_slice()) {
                assert(diskutil_scan(rest, true) =~= Seq::<Seq<char>>::empty());
                assert(out.deep_view() + Seq::<Seq<char>>::empty() =~= out.deep_view());
                return out;
            }
            match diskutil_entry_exec(tr.as_slice()) {
                Some(name) => {
                    let ghost prev = out.deep_view();
                    let s = text::string_of(name.as_slice());
                    out.push(s);
                    assert(out.deep_view() =~= prev.push(name@));
                    assert(prev.push(name@) + diskutil_scan(lv.skip(i + 1), true) =~= prev + (seq![
                        name@,
                    ] + diskutil_scan(lv.skip(i + 1), true)));
                },
                None => {},
            }
        }
        i += 1;
    }
    assert(lv.skip(i as int) =~= Seq::<Seq<char>>::empty());
    assert(out.deep_view() + Seq::<Seq<char>>::empty() =~= out.deep_view());
    out
}

// ---------------------------------------------------------------------------
// Partitions and whole disks
// ---------------------------------------------------------------------------

/// `diskNsM` names the whole disk `diskN`: a final `s` followed by at least
/// one digit, and nothing else, is removed.
pub open spec fn strip_partition(bsd: Seq<char>) -> Seq<char> {
    match text::rfind_char(bsd, 's') {
        Some(pos) => {
            let suffix = bsd.skip(pos + 1);
            if suffix.len() > 0 && text::all_ascii_digits(suffix) {
                bsd.take(pos)
            } else {
                bsd
            }
        },
        None => bsd,
    }
}

/// The whole-disk name of a partition name.
pub fn strip_partition_suffix(bsd: &str) -> (r: String)
    ensures
        r@ == strip_partition(bsd@),
{
    let b = text::chars_of(bsd);
    match text::rfind_char_exec(b.as_slice(), 's') {
        Some(pos) => {
            proof {
                text::lemma_rfind_char(b@, 's');
            }
            let suffix = text::copy_range(b.as_slice(), pos + 1, b.len());
            assert(suffix@ =~= b@.skip(pos + 1));
            if suffix.len() > 0 && text::all_ascii_digits_exec(suffix.as_slice()) {
                let head = text::copy_range(b.as_slice(), 0, pos);
                assert(head@ =~= b@.take(pos as int));
                return text::string_of(head.as_slice());
            }
        },
        None => {},
    }
    text::string_of(b.as_slice())
}

// ---------------------------------------------------------------------------
// `ioreg -l` properties
// ---------------------------------------------------------------------------

/// `"KEY" = "`
pub open spec fn str_field_pattern(key: Seq<char>) -> Seq<char> {
    seq!['"'] + key + "\" = \""@
}

/// The quoted value of `"KEY" = "VALUE"` in a block of `ioreg` output.
pub open spec fn str_field(block: Seq<char>, key: Seq<char>) -> Option<Seq<char>> {
    let search = str_field_pattern(key);
    match text::find(block, search) {
        Some(pos) => {
            let rest = block.skip(pos + search.len());
            match text::find(rest, seq!['"']) {
                Some(end) => Some(rest.take(end)),
                None => None,
            }
        },
        None => None,
    }
}

/// `"KEY"=`
pub open spec fn stat_pattern(key: Seq<char>) -> Seq<char> {
    seq!['"'] + key + "\"="@
}

/// The number right after `"KEY"=`: its leading digits read as a `u64`.
pub open spec fn ioreg_stat(block: Seq<char>, key: Seq<char>) -> Option<nat> {
    let search = stat_pattern(key);
    match text::find(block, search) {
        Some(pos) => {
            let rest = block.skip(pos + search.len());
            text::parse_uint(rest.take(text::digit_prefix_len(rest) as int), 10, u64::MAX as nat)
        },
        None => None,
    }
}

fn quoted_pattern(key: &[char], tail: &str) -> (v: Vec<char>)
    ensures
        v@ == seq!['"'] + key@ + tail@,
{
    let mut v: Vec<char> = Vec::new();
    v.push('"');
    text::append_chars(&mut v, key);
    let t = text::chars_of(tail);
    text::append_chars(&mut v, t.as_slice());
    assert(v@ =~= seq!['"'] + key@ + tail@);
    v
}

fn str_field_exec(block: &[char], key: &[char]) -> (r: Option<Vec<char>>)
    ensures
        match r {
            Some(v) => str_field(block@, key@) == Some(v@),
            None => str_field(block@, key@) is None,
        },
{
    let search = quoted_pattern(key, "\" = \"");
    match text::find_exec(block, search.as_slice()) {
        Some(pos) => {
            proof {
                text::lemma_find_from(block@, search@, 0);
                assert(text::matches_at(block@, search@, pos as int));
                assert(pos + search@.len() <= block@.len());
                assert(block@.len() == block.len());
                assert(search@.len() == search.len());
            }
            let rest = text::copy_range(block, pos + search.len(), block.len());
            assert(rest@ =~= block@.skip(pos + search@.len()));
            let mut q: Vec<char> = Vec::new();
            q.push('"');
            assert(q@ =~= seq!['"']);
            match text::find_exec(rest.as_slice(), q.as_slice()) {
                Some(end) => {
                    proof {
                        text::lemma_find_from(rest@, q@, 0);
                    }
                    let v = text::copy_range(rest.as_slice(), 0, end);
                    assert(v@ =~= rest@.take(end as int));
                    Some(v)
                },
                None => None,
            }
        },
        None => None,
    }
}

/// The quoted value of `"KEY" = "VALUE"` in a block of `ioreg` output.
pub fn extract_str_field(block: &str, key: &str) -> (r: Option<String>)
    ensures
        r.deep_view() == str_field(block@, key@),
{
    let b = text::chars_of(block);
    let k = text::chars_of(key);
    match str_field_exec(b.as_slice(), k.as_slice()) {
        Some(v) => Some(text::string_of(v.as_slice())),
        None => None,
    }
}

fn ioreg_stat_exec(block: &[char], key: &[char]) -> (r: Option<u64>)
    ensures
        match r {
            Some(v) => ioreg_stat(block@, key@) == Some(v as nat),
            None => ioreg_stat(block@, key@) is None,
        },
{
    let search = quoted_pattern(key, "\"=");
    match text::find_exec(block, search.as_slice()) {
        Some(pos) => {
            proof {
                text::lemma_find_from(block@, search@, 0);
                assert(text::matches_at(block@, search@, pos as int));
                assert(pos + search@.len() <= block@.len());
                assert(block@.len() == block.len());
                assert(search@.len() == search.len());
            }
            let digits = text::digit_prefix_exec(block, pos + search.len());
            text::parse_uint_exec(digits.as_slice(), 10, u64::MAX)
        },
        None => None,
    }
}

/// The number after `"KEY"=` in a block of `ioreg` output.
pub fn extract_ioreg_stat(block: &str, key: &str) -> (r: Option<u64>)
    ensures
        match r {
            Some(v) => ioreg_stat(block@, key@) == Some(v as nat),
            None => ioreg_stat(block@, key@) is None,
        },
{
    let b = text::chars_of(block);
    let k = text::chars_of(key);
    ioreg_stat_exec(b.as_slice(), k.as_slice())
}

// ---------------------------------------------------------------------------
// Per-disk I/O counters from `ioreg -c IOBlockStorageDriver -l`
// ---------------------------------------------------------------------------

/// Cumulative I/O counters of one disk.
#[derive(Clone, Copy, Debug, PartialEq, Eq, Structural)]
pub struct RawDiskStats {
    pub read_bytes: u64,
    pub write_bytes: u64,
    pub busy_time_ns: u64,
    pub read_ops: u64,
    pub write_ops: u64,
}

impl Default for RawDiskStats {
    fn default() -> (r: Self)
        ensures
            r == (RawDiskStats {
                read_bytes: 0,
                write_bytes: 0,
                busy_time_ns: 0,
                read_ops: 0,
                write_ops: 0,
            }),
    {
        RawDiskStats { read_bytes: 0, write_bytes: 0, busy_time_ns: 0, read_ops: 0, write_ops: 0 }
    }
}

/// The text that separates the storage drivers in the `ioreg` output.
pub open spec fn driver_separator() -> Seq<char> {
    "+-o IOBlockStorageDriver"@
}

pub open spec fn ioreg_blocks(text: Seq<char>) -> Seq<Seq<char>> {
    text::split(text, driver_separator())
}

pub open spec fn stat_or_zero(block: Seq<char>, key: Seq<char>) -> nat {
    match ioreg_stat(block, key) {
        Some(v) => v,
        None => 0,
    }
}

/// The BSD name of a driver block, kept when it is `disk` (repeated) followed
/// by at least one digit and nothing else.
pub open spec fn block_bsd(block: Seq<char>) -> Option<Seq<char>> {
    match str_field(block, "BSD Name"@) {
        Some(b) => {
            let suffix = text::trim_start_matches(b, "disk"@);
            if text::all_ascii_digits(suffix) && suffix.len() > 0 {
                Some(b)
            } else {
                None
            }
        },
        None => None,
    }
}

/// Read and write time together.
pub open spec fn block_busy(block: Seq<char>) -> nat {
    stat_or_zero(block, "Total Time (Read)"@) + stat_or_zero(block, "Total Time (Write)"@)
}

pub open spec fn block_stats(block: Seq<char>) -> RawDiskStats {
    RawDiskStats {
        read_bytes: stat_or_zero(block, "Bytes (Read)"@) as u64,
        write_bytes: stat_or_zero(block, "Bytes (Write)"@) as u64,
        busy_time_ns: block_busy(block) as u64,
        read_ops: stat_or_zero(block, "Operations (Read)"@) as u64,
        write_ops: stat_or_zero(block, "Operations (Write)"@) as u64,
    }
}

/// The sum of read and write time of every block with a disk name fits in a `u64`.
pub open spec fn ioreg_fits(blocks: Seq<Seq<char>>) -> bool {
    forall|i: int|
        0 <= i < blocks.len() && (#[trigger] block_bsd(blocks[i])) is Some ==> block_busy(blocks[i])
            <= u64::MAX
}

/// First index holding key `k`, at or after `i`.
pub open spec fn key_index_from<V>(m: Seq<(Seq<char>, V)>, k: Seq<char>, i: int) -> Option<int>
    decreases m.len() - i,
{
    if i < 0 || i >= m.len() {
        None
    } else if m[i].0 == k {
        Some(i)
    } else {
        key_index_from(m, k, i + 1)
    }
}

/// Map insertion on an association list: the entry of `k` is replaced, or
/// a new entry is added at the end.
pub open spec fn upsert<V>(m: Seq<(Seq<char>, V)>, k: Seq<char>, v: V) -> Seq<(Seq<char>, V)> {
    match key_index_from(m, k, 0) {
        Some(i) => m.update(i, (k, v)),
        None => m.push((k, v)),
    }
}

pub open spec fn keys_unique<V>(m: Seq<(Seq<char>, V)>) -> bool {
    forall|i: int, j: int| 0 <= i < m.len() && 0 <= j < m.len() && i != j ==> m[i].0 != m[j].0
}

/// The counters of each disk, the last block of a disk giving its values.
pub open spec fn ioreg_entries(blocks: Seq<Seq<char>>) -> Seq<(Seq<char>, RawDiskStats)>
    decreases blocks.len(),
{
    if blocks.len() == 0 {
        seq![]
    } else {
        let m = ioreg_entries(blocks.drop_last());
        match block_bsd(blocks.last()) {
            Some(b) => upsert(m, b, block_stats(blocks.last())),
            None => m,
        }
    }
}

pub open spec fn entries_view(v: Seq<(String, RawDiskStats)>) -> Seq<(Seq<char>, RawDiskStats)> {
    Seq::new(v.len(), |i: int| (v[i].0@, v[i].1))
}

pub proof fn lemma_key_index_from<V>(m: Seq<(Seq<char>, V)>, k: Seq<char>, i: int)
    requires
        0 <= i,
    ensures
        key_index_from(m, k, i) matches Some(j) ==> i <= j < m.len() && m[j].0 == k,
        key_index_from(m, k, i) is None ==> forall|j: int| i <= j < m.len() ==> m[j].0 != k,
    decreases m.len() - i,
{
    if i < m.len() && m[i].0 != k {
        lemma_key_index_from(m, k, i + 1);
    }
}

/// Inserting keeps the keys distinct.
pub proof fn lemma_upsert_unique<V>(m: Seq<(Seq<char>, V)>, k: Seq<char>, v: V)
    requires
        keys_unique(m),
    ensures
        keys_unique(upsert(m, k, v)),
{
    lemma_key_index_from(m, k, 0);
}

fn upsert_exec(m: &mut Vec<(String, RawDiskStats)>, k: String, v: RawDiskStats)
    ensures
        entries_view(final(m)@) == upsert(entries_view(old(m)@), k@, v),
{
    let ghost mv = entries_view(m@);
    let mut j: usize = 0;
    while j < m.len()
        invariant
            j <= m.len(),
            mv == entries_view(m@),
            mv == entries_view(old(m)@),
            key_index_from(mv, k@, 0) == key_index_from(mv, k@, j as int),
        decreases m.len() - j,
    {
        if m[j].0 == k {
            let ghost before = m@;
            m.set(j, (k, v));
            assert(entries_view(m@) =~= mv.update(j as int, (k@, v)));
            return;
        }
        j += 1;
    }
    m.push((k, v));
    assert(entries_view(m@) =~= mv.push((k@, v)));
}

/// The counters of the disks in `ioreg -c IOBlockStorageDriver -l` output;
/// `None` exactly when the read and write times of a disk add up to more
/// than a `u64` holds.
pub fn try_parse_all_ioreg_disk_stats(text: &str) -> (r: Option<Vec<(String, RawDiskStats)>>)
    ensures
        match r {
            Some(v) => ioreg_fits(ioreg_blocks(text@)) && entries_view(v@) == ioreg_entries(
                ioreg_blocks(text@),
            ) && keys_unique(entries_view(v@)),
            None => !ioreg_fits(ioreg_blocks(text@)),
        },
{
    let t = text::chars_of(text);
    let sep = text::chars_of("+-o IOBlockStorageDriver");
    proof {
        reveal_strlit("+-o IOBlockStorageDriver");
    }
    let blocks = text::split_exec(t.as_slice(), sep.as_slice());
    let ghost bv = blocks.deep_view();
    proof {
        text::lemma_deep_view_chars(&blocks);
    }
    let bsd_key = text::chars_of("BSD Name");
    let disk = text::chars_of("disk");
    let k_rb = text::chars_of("Bytes (Read)");
    let k_wb = text::chars_of("Bytes (Write)");
    let k_tr = text::chars_of("Total Time (Read)");
    let k_tw = text::chars_of("Total Time (Write)");
    let k_ro = text::chars_of("Operations (Read)");
    let k_wo = text::chars_of("Operations (Write)");
    let mut out: Vec<(String, RawDiskStats)> = Vec::new();
    let mut i: usize = 0;
    assert(bv.take(0) =~= Seq::<Seq<char>>::empty());
    while i < blocks.len()
        invariant
            bv == blocks.deep_view(),
            bv == ioreg_blocks(text@),
            bv.len() == blocks@.len(),
            forall|k: int| 0 <= k < blocks@.len() ==> #[trigger] bv[k] == blocks@[k]@,
            i <= blocks.len(),
            bsd_key@ == "BSD Name"@,
            disk@ == "disk"@,
            k_rb@ == "Bytes (Read)"@,
            k_wb@ == "Bytes (Write)"@,
            k_tr@ == "Total Time (Read)"@,
            k_tw@ == "Total Time (Write)"@,
            k_ro@ == "Operations (Read)"@,
            k_wo@ == "Operations (Write)"@,
            entries_view(out@) == ioreg_entries(bv.take(i as int)),
            keys_unique(entries_view(out@)),
            forall|k: int|
                0 <= k < i && (#[trigger] block_bsd(bv[k])) is Some ==> block_busy(bv[k])
                    <= u64::MAX,
        decreases blocks.len() - i,
    {
        let b = blocks[i].as_slice();
        let ghost blk = bv[i as int];
        assert(bv.take(i + 1).drop_last() =~= bv.take(i as int));
        assert(bv.take(i + 1).last() == blk);
        let name = match str_field_exec(b, bsd_key.as_slice()) {
            Some(n) => n,
            None => {
                i += 1;
                continue;
            },
        };
        let suffix = text::trim_start_matches_exec(name.as_slice(), disk.as_slice());
        if !(text::all_ascii_digits_exec(suffix.as_slice()) && suffix.len() > 0) {
            i += 1;
            continue;
        }
        let read_bytes = match ioreg_stat_exec(b, k_rb.as_slice()) {
            Some(v) => v,
            None => 0,
        };
        let write_bytes = match ioreg_stat_exec(b, k_wb.as_slice()) {
            Some(v) => v,
            None => 0,
        };
        let total_time_read = match ioreg_stat_exec(b, k_tr.as_slice()) {
            Some(v) => v,
            None => 0,
        };
        let total_time_write = match ioreg_stat_exec(b, k_tw.as_slice()) {
            Some(v) => v,
            None => 0,
        };
        let busy_time_ns = match total_time_read.checked_add(total_time_write) {
            Some(v) => v,
            None => {
                assert(block_bsd(bv[i as int]) is Some);
                return None;
            },
        };
        let read_ops = match ioreg_stat_exec(b, k_ro.as_slice()) {
            Some(v) => v,
            None => 0,
        };
        let write_ops = match ioreg_stat_exec(b, k_wo.as_slice()) {
            Some(v) => v,
            None => 0,
        };
        let stats = RawDiskStats { read_bytes, write_bytes, busy_time_ns, read_ops, write_ops };
        assert(stats == block_stats(blk));
        proof {
            lemma_upsert_unique(entries_view(out@), name@, stats);
        }
        upsert_exec(&mut out, text::string_of(name.as_slice()), stats);
        i += 1;
    }
    assert(bv.take(i as int) =~= bv);
    Some(out)
}

/// The counters of the disks in `ioreg -c IOBlockStorageDriver -l` output,
/// keyed by BSD name (`diskN`). Where a disk appears in several blocks the
/// last one gives its counters.
pub fn parse_all_ioreg_disk_stats(text: &str) -> (r: Vec<(String, RawDiskStats)>)
    requires
        ioreg_fits(ioreg_blocks(text@)),
    ensures
        entries_view(r@) == ioreg_entries(ioreg_blocks(text@)),
        keys_unique(entries_view(r@)),
{
    match try_parse_all_ioreg_disk_stats(text) {
        Some(v) => v,
        None => {
            assert(false);
            Vec::new()
        },
    }
}

/// The value of `k` in an association list (`HashMap::get`).
pub open spec fn entry_of(m: Seq<(Seq<char>, RawDiskStats)>, k: Seq<char>) -> Option<RawDiskStats> {
    match key_index_from(m, k, 0) {
        Some(i) => Some(m[i].1),
        None => None,
    }
}

/// The counters recorded for `name`.
pub fn disk_stats_of(stats: &Vec<(String, RawDiskStats)>, name: &str) -> (r: Option<RawDiskStats>)
    ensures
        r == entry_of(entries_view(stats@), name@),
{
    let ghost mv = entries_view(stats@);
    let mut j: usize = 0;
    while j < stats.len()
        invariant
            j <= stats.len(),
            mv == entries_view(stats@),
            key_index_from(mv, name@, 0) == key_index_from(mv, name@, j as int),
        decreases stats.len() - j,
    {
        if text::eq_str(text::chars_of(stats[j].0.as_str()).as_slice(), name) {
            return Some(stats[j].1);
        }
        j += 1;
    }
    None
}

// ---------------------------------------------------------------------------
// `diskutil info` of one disk
// ---------------------------------------------------------------------------

/// A disk is virtual when the line after `<key>VirtualOrPhysical</key>`
/// contains `Virtual`. No output (the command failed) means not virtual.
pub open spec fn info_says_virtual(info: Option<Seq<char>>) -> bool {
    match info {
        Some(t) => match line_after_key(text::lines(t), "<key>VirtualOrPhysical</key>"@, false) {
            Some(l) => text::contains(l, "Virtual"@),
            None => false,
        },
        None => false,
    }
}

/// Whether `diskutil info -plist DISK` output (`None` when the command
/// failed) describes a virtual disk.
pub fn is_virtual_disk(info: Option<&str>) -> (r: bool)
    ensures
        r == info_says_virtual(text::opt_str_view(info)),
{
    match info {
        Some(text) => {
            let t = text::chars_of(text);
            let ls = text::lines_exec(t.as_slice());
            let key = text::chars_of("<key>VirtualOrPhysical</key>");
            match line_after_key_exec(&ls, key.as_slice()) {
                Some(l) => {
                    let v = text::chars_of("Virtual");
                    text::contains_exec(l.as_slice(), v.as_slice())
                },
                None => false,
            }
        },
        None => false,
    }
}

/// The value after the first `:` of the first line that mentions
/// `Device / Media Name:`, trimmed.
pub open spec fn model_scan(ls: Seq<Seq<char>>) -> Option<Seq<char>>
    decreases ls.len(),
{
    if ls.len() == 0 {
        None
    } else if text::contains(ls[0], "Device / Media Name:"@) {
        match text::split_first(ls[0], ":"@).1 {
            Some(v) => Some(text::trim(v)),
            None => model_scan(ls.drop_first()),
        }
    } else {
        model_scan(ls.drop_first())
    }
}

/// The model of a disk from `diskutil info DISK` output, or the BSD name
/// when the output (`None` when the command failed) does not name one.
pub open spec fn info_model(info: Option<Seq<char>>, bsd: Seq<char>) -> Seq<char> {
    match info {
        Some(t) => match model_scan(text::lines(t)) {
            Some(m) => m,
            None => bsd,
        },
        None => bsd,
    }
}

pub fn read_iokit_disk_model(info: Option<&str>, bsd_name: &str) -> (r: String)
    ensures
        r@ == info_model(text::opt_str_view(info), bsd_name@),
{
    match info {
        Some(text) => {
            let t = text::chars_of(text);
            let ls = text::lines_exec(t.as_slice());
            let ghost lv = ls.deep_view();
            proof {
                text::lemma_deep_view_chars(&ls);
            }
            let key = text::chars_of("Device / Media Name:");
            let colon = text::chars_of(":");
            let mut i: usize = 0;
            assert(lv.skip(0) =~= lv);
            while i < ls.len()
                invariant
                    lv == ls.deep_view(),
                    lv == text::lines(text@),
                    lv.len() == ls@.len(),
                    forall|k: int| 0 <= k < ls@.len() ==> #[trigger] lv[k] == ls@[k]@,
                    i <= ls.len(),
                    key@ == "Device / Media Name:"@,
                    colon@ == ":"@,
                    text::opt_str_view(info) == Some(text@),
                    model_scan(lv) == model_scan(lv.skip(i as int)),
                decreases ls.len() - i,
            {
                let ghost rest = lv.skip(i as int);
                assert(rest[0] == ls@[i as int]@);
                assert(rest.drop_first() =~= lv.skip(i + 1));
                let line = ls[i].as_slice();
                if text::contains_exec(line, key.as_slice()) {
                    let (_, after) = text::split_first_bounds(line, 0, line.len(), colon.as_slice());
                    assert(line@.subrange(0, line@.len() as int) =~= line@);
                    match after {
                        Some(b) => {
                            let (x, y) = text::trim_bounds(line, b, line.len());
                            let v = text::copy_range(line, x, y);
                            return text::string_of(v.as_slice());
                        },
                        None => {},
                    }
                }
                i += 1;
            }
            text::string_of(text::chars_of(bsd_name).as_slice())
        },
        None => text::string_of(text::chars_of(bsd_name).as_slice()),
    }
}

/// The kind of disk that the lowercased `diskutil info` output describes.
pub open spec fn disk_type_of(lower: Seq<char>) -> DiskType {
    if text::contains(lower, "solid state"@) || text::contains(lower, "ssd"@) || text::contains(
        lower,
        "flash"@,
    ) {
        if text::contains(lower, "nvme"@) {
            DiskType::NVMe
        } else {
            DiskType::SSD
        }
    } else if text::contains(lower, "optical"@) || text::contains(lower, "cd"@) || text::contains(
        lower,
        "dvd"@,
    ) {
        DiskType::Optical
    } else if text::contains(lower, "sd card"@) || text::contains(lower, "sdxc"@) {
        DiskType::SD
    } else {
        DiskType::HDD
    }
}

fn contains_lit(h: &[char], n: &str) -> (r: bool)
    ensures
        r == text::contains(h@, n@),
{
    let v = text::chars_of(n);
    text::contains_exec(h, v.as_slice())
}

/// The kind of storage that the lowercase text of `diskutil info` names.
pub fn disk_type_of_lowercase(lower: &str) -> (r: DiskType)
    ensures
        r == disk_type_of(lower@),
{
    let lc = text::chars_of(lower);
    let l = lc.as_slice();
    if contains_lit(l, "solid state") || contains_lit(l, "ssd") || contains_lit(l, "flash") {
        if contains_lit(l, "nvme") {
            DiskType::NVMe
        } else {
            DiskType::SSD
        }
    } else if contains_lit(l, "optical") || contains_lit(l, "cd") || contains_lit(l, "dvd") {
        DiskType::Optical
    } else if contains_lit(l, "sd card") || contains_lit(l, "sdxc") {
        DiskType::SD
    } else {
        DiskType::HDD
    }
}

/// The kind of a disk from its `diskutil info` output (`None` when the
/// command failed, which gives `Unknown`).
pub fn detect_disk_type(info: Option<&str>) -> (r: DiskType)
    ensures
        r == (match info {
            Some(t) => disk_type_of(text::lowercase(t@)),
            None => DiskType::Unknown,
        }),
{
    match info {
        Some(t) => {
            let lower = text::to_lowercase(t);
            disk_type_of_lowercase(lower.as_str())
        },
        None => DiskType::Unknown,
    }
}

// ---------------------------------------------------------------------------
// APFS containers (`diskutil apfs list -plist`) and capacity
// ---------------------------------------------------------------------------

/// An APFS container: free space, size, and the whole disk that holds it.
#[derive(Clone, Debug)]
pub struct ApfsContainerInfo {
    pub free: u64,
    pub ceiling: u64,
    pub physical_store: String,
}

/// What the container scan has seen since the last container ended.
pub struct ApfsScan {
    pub free: u64,
    pub ceiling: u64,
    pub store: Seq<char>,
    pub key: Seq<char>,
}

pub open spec fn apfs_initial() -> ApfsScan {
    ApfsScan { free: 0, ceiling: 0, store: Seq::empty(), key: Seq::empty() }
}

/// One trimmed line of the listing: a `<key>` names what follows, an
/// `<integer>` sets the free space or size, a `<string>` sets the physical
/// store, and a `</dict>` ends a container that has both a store and a size.
pub open spec fn apfs_step(st: ApfsScan, t: Seq<char>) -> (ApfsScan, Option<(u64, u64, Seq<char>)>) {
    if text::starts_with(t, "<key>"@) && text::ends_with(t, "</key>"@) {
        (ApfsScan { key: t.subrange(5, t.len() - 6), ..st }, None)
    } else if text::strip_prefix(t, "<integer>"@) is Some && text::strip_suffix(
        text::strip_prefix(t, "<integer>"@).unwrap(),
        "</integer>"@,
    ) is Some {
        let v = text::strip_suffix(text::strip_prefix(t, "<integer>"@).unwrap(), "</integer>"@).unwrap();
        match text::parse_uint(v, 10, u64::MAX as nat) {
            Some(n) => if st.key == "CapacityFree"@ {
                (ApfsScan { free: n as u64, ..st }, None)
            } else if st.key == "CapacityCeiling"@ {
                (ApfsScan { ceiling: n as u64, ..st }, None)
            } else {
                (st, None)
            },
            None => (st, None),
        }
    } else if text::strip_prefix(t, "<string>"@) is Some && text::strip_suffix(
        text::strip_prefix(t, "<string>"@).unwrap(),
        "</string>"@,
    ) is Some {
        let v = text::strip_suffix(text::strip_prefix(t, "<string>"@).unwrap(), "</string>"@).unwrap();
        if st.key == "DesignatedPhysicalStore"@ {
            (ApfsScan { store: strip_partition(v), ..st }, None)
        } else {
            (st, None)
        }
    } else if t == "</dict>"@ && st.store.len() > 0 && st.ceiling > 0 {
        (
            ApfsScan { free: 0, ceiling: 0, store: Seq::empty(), ..st },
            Some((st.free, st.ceiling, st.store)),
        )
    } else {
        (st, None)
    }
}

pub open spec fn apfs_scan(ls: Seq<Seq<char>>, st: ApfsScan) -> Seq<(u64, u64, Seq<char>)>
    decreases ls.len(),
{
    if ls.len() == 0 {
        seq![]
    } else {
        let (next, out) = apfs_step(st, text::trim(ls[0]));
        match out {
            Some(c) => seq![c] + apfs_scan(ls.drop_first(), next),
            None => apfs_scan(ls.drop_first(), next),
        }
    }
}

pub open spec fn apfs_containers(listing: Seq<char>) -> Seq<(u64, u64, Seq<char>)> {
    apfs_scan(text::lines(listing), apfs_initial())
}

pub open spec fn containers_view(v: Seq<ApfsContainerInfo>) -> Seq<(u64, u64, Seq<char>)> {
    Seq::new(v.len(), |i: int| (v[i].free, v[i].ceiling, v[i].physical_store@))
}

/// A line that starts with `<key>` and ends with `</key>` has at least the
/// characters of both.
proof fn lemma_key_line_len(t: Seq<char>)
    requires
        text::starts_with(t, "<key>"@),
        text::ends_with(t, "</key>"@),
    ensures
        t.len() >= 11,
{
    reveal_strlit("<key>");
    reveal_strlit("</key>");
    let n = t.len();
    if n < 11 {
        let a = t.take(5);
        let b = t.skip(n - 6);
        assert(a == "<key>"@);
        assert(b == "</key>"@);
        assert(b[0] == '<');
        assert(t[n - 6] == b[0]);
        if n - 6 >= 1 {
            assert(t[n - 6] == a[n - 6]);
        } else {
            assert(t[1] == a[1]);
            assert(t[1] == b[1]);
        }
    }
}

fn strip_wrapped(t: &[char], open: &str, close: &str) -> (r: Option<Vec<char>>)
    ensures
        match r {
            Some(v) => text::strip_prefix(t@, open@) is Some && text::strip_suffix(
                text::strip_prefix(t@, open@).unwrap(),
                close@,
            ) == Some(v@),
            None => !(text::strip_prefix(t@, open@) is Some && text::strip_suffix(
                text::strip_prefix(t@, open@).unwrap(),
                close@,
            ) is Some),
        },
{
    let o = text::chars_of(open);
    let c = text::chars_of(close);
    match text::strip_prefix_exec(t, o.as_slice()) {
        Some(a) => text::strip_suffix_exec(a.as_slice(), c.as_slice()),
        None => None,
    }
}

/// The APFS containers in `diskutil apfs list -plist` output.
pub fn parse_apfs_containers(listing: &str) -> (r: Vec<ApfsContainerInfo>)
    ensures
        containers_view(r@) == apfs_containers(listing@),
{
    let t = text::chars_of(listing);
    let ls = text::lines_exec(t.as_slice());
    let ghost lv = ls.deep_view();
    proof {
        text::lemma_deep_view_chars(&ls);
    }
    let key_open = text::chars_of("<key>");
    let key_close = text::chars_of("</key>");
    let mut out: Vec<ApfsContainerInfo> = Vec::new();
    let mut free: u64 = 0;
    let mut ceiling: u64 = 0;
    let mut store: Vec<char> = Vec::new();
    let mut key: Vec<char> = Vec::new();
    let mut i: usize = 0;
    assert(lv.skip(0) =~= lv);
    while i < ls.len()
        invariant
            lv == ls.deep_view(),
            lv.len() == ls@.len(),
            forall|k: int| 0 <= k < ls@.len() ==> #[trigger] lv[k] == ls@[k]@,
            i <= ls.len(),
            key_open@ == "<key>"@,
            key_close@ == "</key>"@,
            apfs_scan(lv, apfs_initial()) == containers_view(out@) + apfs_scan(
                lv.skip(i as int),
                ApfsScan { free, ceiling, store: store@, key: key@ },
            ),
        decreases ls.len() - i,
    {
        let ghost rest = lv.skip(i as int);
        let ghost st = ApfsScan { free, ceiling, store: store@, key: key@ };
        assert(rest[0] == ls@[i as int]@);
        assert(rest.drop_first() =~= lv.skip(i + 1));
        let tr = text::trim_chars(ls[i].as_slice());
        let ghost step = apfs_step(st, tr@);
        if text::starts_with_exec(tr.as_slice(), key_open.as_slice()) && text::ends_with_exec(
            tr.as_slice(),
            key_close.as_slice(),
        ) {
            proof {
                lemma_key_line_len(tr@);
            }
            key = text::copy_range(tr.as_slice(), 5, tr.len() - 6);
        } else {
            match strip_wrapped(tr.as_slice(), "<integer>", "</integer>") {
                Some(v) => {
                    match text::parse_uint_exec(v.as_slice(), 10, u64::MAX) {
                        Some(n) => {
                            if text::eq_str(key.as_slice(), "CapacityFree") {
                                free = n;
                            } else if text::eq_str(key.as_slice(), "CapacityCeiling") {
                                ceiling = n;
                            }
                        },
                        None => {},
                    }
                },
                None => {
                    match strip_wrapped(tr.as_slice(), "<string>", "</string>") {
                        Some(v) => {
                            if text::eq_str(key.as_slice(), "DesignatedPhysicalStore") {
                                let vs = text::string_of(v.as_slice());
                                let st2 = strip_partition_suffix(vs.as_str());
                                store = text::chars_of(st2.as_str());
                            }
                        },
                        None => {
                            if text::eq_str(tr.as_slice(), "</dict>") && store.len() > 0 && ceiling
                                > 0 {
                                let ghost prev = containers_view(out@);
                                out.push(
                                    ApfsContainerInfo {
                                        free,
                                        ceiling,
                                        physical_store: text::string_of(store.as_slice()),
                                    },
                                );
                                assert(containers_view(out@) =~= prev.push(
                                    (st.free, st.ceiling, st.store),
                                ));
                                assert(prev.push((st.free, st.ceiling, st.store)) + apfs_scan(
                                    lv.skip(i + 1),
                                    step.0,
                                ) =~= prev + (seq![(st.free, st.ceiling, st.store)] + apfs_scan(
                                    lv.skip(i + 1),
                                    step.0,
                                )));
                                free = 0;
                                ceiling = 0;
                                store = Vec::new();
                            }
                        },
                    }
                },
            }
        }
        assert(ApfsScan { free, ceiling, store: store@, key: key@ } == step.0);
        i += 1;
    }
    assert(lv.skip(i as int) =~= Seq::<Seq<char>>::empty());
    assert(containers_view(out@) + Seq::<(u64, u64, Seq<char>)>::empty() =~= containers_view(out@));
    out
}

/// Free space of the containers stored on `bsd`.
pub open spec fn free_on(cs: Seq<(u64, u64, Seq<char>)>, bsd: Seq<char>) -> nat
    decreases cs.len(),
{
    if cs.len() == 0 {
        0
    } else {
        free_on(cs.drop_last(), bsd) + if cs.last().2 == bsd {
            cs.last().0 as nat
        } else {
            0
        }
    }
}

/// Free space of the APFS containers stored on `bsd`; `None` exactly when it
/// does not fit in a `u64`.
pub fn apfs_free_bytes(containers: &Vec<ApfsContainerInfo>, bsd: &str) -> (r: Option<u64>)
    ensures
        match r {
            Some(v) => v as nat == free_on(containers_view(containers@), bsd@),
            None => free_on(containers_view(containers@), bsd@) > u64::MAX,
        },
{
    let ghost cv = containers_view(containers@);
    let mut sum: u64 = 0;
    let mut i: usize = 0;
    assert(cv.take(0) =~= Seq::<(u64, u64, Seq<char>)>::empty());
    while i < containers.len()
        invariant
            i <= containers.len(),
            cv == containers_view(containers@),
            sum as nat == free_on(cv.take(i as int), bsd@),
        decreases containers.len() - i,
    {
        assert(cv.take(i + 1).drop_last() =~= cv.take(i as int));
        if containers[i].physical_store == text::string_of(text::chars_of(bsd).as_slice()) {
            match sum.checked_add(containers[i].free) {
                Some(v) => sum = v,
                None => {
                    proof {
                        lemma_free_on_monotone(cv, bsd@, i + 1);
                    }
                    return None;
                },
            }
        }
        i += 1;
    }
    assert(cv.take(i as int) =~= cv);
    Some(sum)
}

proof fn lemma_free_on_monotone(cs: Seq<(u64, u64, Seq<char>)>, bsd: Seq<char>, k: int)
    requires
        0 <= k <= cs.len(),
    ensures
        free_on(cs, bsd) >= free_on(cs.take(k), bsd),
    decreases cs.len() - k,
{
    if k < cs.len() {
        lemma_free_on_monotone(cs.drop_last(), bsd, if k < cs.len() { k } else { k - 1 });
        assert(cs.drop_last().take(k) =~= cs.take(k));
    } else {
        assert(cs.take(k) =~= cs);
    }
}

/// Capacity of a disk and how much of it is in use: the `TotalSize` of its
/// `diskutil info -plist` output (0 when the command failed or there is
/// none), and that less the free space of the containers on it.
pub open spec fn disk_capacity(info: Option<Seq<char>>, cs: Seq<(u64, u64, Seq<char>)>, bsd: Seq<char>) -> (
    nat,
    nat,
) {
    let total: nat = match info {
        Some(t) => match plist_u64(t, "TotalSize"@) {
            Some(v) => v,
            None => 0,
        },
        None => 0,
    };
    let free = free_on(cs, bsd);
    (total, if total >= free {
        (total - free) as nat
    } else {
        0
    })
}

/// Total and used bytes of the disk `bsd_name`.
pub fn read_disk_capacity(info: Option<&str>, containers: &Vec<ApfsContainerInfo>, bsd_name: &str) -> (r: (
    u64,
    u64,
))
    requires
        free_on(containers_view(containers@), bsd_name@) <= u64::MAX,
    ensures
        (r.0 as nat, r.1 as nat) == disk_capacity(
            text::opt_str_view(info),
            containers_view(containers@),
            bsd_name@,
        ),
{
    let total = match info {
        Some(t) => match parse_plist_u64(t, "TotalSize") {
            Some(v) => v,
            None => 0,
        },
        None => 0,
    };
    let free = match apfs_free_bytes(containers, bsd_name) {
        Some(v) => v,
        None => 0,
    };
    (total, total.saturating_sub(free))
}

// ---------------------------------------------------------------------------
// The system disk
// ---------------------------------------------------------------------------

/// The device of the first mount on `/`, without its `/dev/` prefix.
pub open spec fn root_device(mounts: Seq<(Seq<char>, Seq<char>)>) -> Option<Seq<char>>
    decreases mounts.len(),
{
    if mounts.len() == 0 {
        None
    } else if mounts[0].1 == "/"@ {
        Some(text::trim_start_matches(mounts[0].0, "/dev/"@))
    } else {
        root_device(mounts.drop_first())
    }
}

pub open spec fn mounts_view(m: Seq<(String, String)>) -> Seq<(Seq<char>, Seq<char>)> {
    Seq::new(m.len(), |i: int| (m[i].0@, m[i].1@))
}

/// The BSD name of the device mounted on `/` (`mounts` holds pairs of
/// device and mount point).
pub fn detect_system_disk(mounts: &Vec<(String, String)>) -> (r: Option<String>)
    ensures
        r.deep_view() == root_device(mounts_view(mounts@)),
{
    let ghost mv = mounts_view(mounts@);
    let dev = text::chars_of("/dev/");
    let mut i: usize = 0;
    assert(mv.skip(0) =~= mv);
    while i < mounts.len()
        invariant
            i <= mounts.len(),
            mv == mounts_view(mounts@),
            dev@ == "/dev/"@,
            root_device(mv) == root_device(mv.skip(i as int)),
        decreases mounts.len() - i,
    {
        assert(mv.skip(i as int).drop_first() =~= mv.skip(i + 1));
        assert(mv.skip(i as int)[0] == (mounts@[i as int].0@, mounts@[i as int].1@));
        if text::eq_str(text::chars_of(mounts[i].1.as_str()).as_slice(), "/") {
            let d = text::trim_start_matches_exec(
                text::chars_of(mounts[i].0.as_str()).as_slice(),
                dev.as_slice(),
            );
            return Some(text::string_of(d.as_slice()));
        }
        i += 1;
    }
    None
}

/// What one `diskutil info -plist` answer says about finding the physical
/// disk behind a device.
#[derive(Clone, Debug, PartialEq, Eq)]
pub enum PhysicalDiskStep {
    /// The physical disk is found.
    Found(String),
    /// No physical disk can be found.
    NotFound,
    /// The device lives on this parent disk, which must be asked next.
    Parent(String),
}

pub open spec fn step_view(s: PhysicalDiskStep) -> (int, Seq<char>) {
    match s {
        PhysicalDiskStep::Found(d) => (0, d@),
        PhysicalDiskStep::NotFound => (1, Seq::empty()),
        PhysicalDiskStep::Parent(d) => (2, d@),
    }
}

/// A whole disk is its own `ParentWholeDisk`; its physical disk is the one
/// under its APFS physical store, if it has one. Any other device leads to
/// its parent.
pub open spec fn physical_step(bsd: Seq<char>, info: Option<Seq<char>>) -> (int, Seq<char>) {
    match info {
        None => (1, Seq::empty()),
        Some(t) => match plist_str(t, "ParentWholeDisk"@) {
            None => (1, Seq::empty()),
            Some(parent) => if parent == bsd {
                match plist_str(t, "APFSPhysicalStore"@) {
                    Some(store) => (0, strip_partition(store)),
                    None => (0, parent),
                }
            } else {
                (2, parent)
            },
        },
    }
}

/// One step of finding the physical disk of `bsd` from its
/// `diskutil info -plist` output (`None` when the command failed).
pub fn physical_disk_step(bsd: &str, info: Option<&str>) -> (r: PhysicalDiskStep)
    ensures
        step_view(r) == physical_step(bsd@, text::opt_str_view(info)),
{
    match info {
        None => PhysicalDiskStep::NotFound,
        Some(t) => match parse_plist_str(t, "ParentWholeDisk") {
            None => PhysicalDiskStep::NotFound,
            Some(parent) => {
                if text::eq_str(text::chars_of(parent.as_str()).as_slice(), bsd) {
                    match parse_plist_str(t, "APFSPhysicalStore") {
                        Some(store) => PhysicalDiskStep::Found(strip_partition_suffix(store.as_str())),
                        None => PhysicalDiskStep::Found(parent),
                    }
                } else {
                    PhysicalDiskStep::Parent(parent)
                }
            },
        },
    }
}

// ---------------------------------------------------------------------------
// Counters between two refreshes
// ---------------------------------------------------------------------------

/// The counters of a disk kept from one refresh to the next (a disk not
/// seen before starts from zero).
#[derive(Clone, Copy, Debug, PartialEq, Eq, Structural)]
pub struct DiskCounters {
    pub read_bytes: u64,
    pub write_bytes: u64,
    pub busy_time_ns: u64,
    pub total_ops: u64,
}

/// What a disk did since the counters kept: bytes read and written, busy
/// nanoseconds and operations; a counter that went down counts 0.
#[derive(Clone, Copy, Debug, PartialEq, Eq, Structural)]
pub struct DiskDeltas {
    pub read_bytes: u64,
    pub write_bytes: u64,
    pub busy_time_ns: u64,
    pub ops: u64,
}

/// `u64::saturating_add`.
pub open spec fn sat_add(a: u64, b: u64) -> u64 {
    if a + b > u64::MAX {
        u64::MAX
    } else {
        (a + b) as u64
    }
}

/// The counters to keep from a reading.
pub open spec fn counters_of(raw: RawDiskStats) -> DiskCounters {
    DiskCounters {
        read_bytes: raw.read_bytes,
        write_bytes: raw.write_bytes,
        busy_time_ns: raw.busy_time_ns,
        total_ops: sat_add(raw.read_ops, raw.write_ops),
    }
}

/// What a disk did between the counters kept and a reading.
pub open spec fn deltas_of(raw: RawDiskStats, prev: DiskCounters) -> DiskDeltas {
    let now = counters_of(raw);
    DiskDeltas {
        read_bytes: crate::processes::sat_sub(now.read_bytes, prev.read_bytes) as u64,
        write_bytes: crate::processes::sat_sub(now.write_bytes, prev.write_bytes) as u64,
        busy_time_ns: crate::processes::sat_sub(now.busy_time_ns, prev.busy_time_ns) as u64,
        ops: crate::processes::sat_sub(now.total_ops, prev.total_ops) as u64,
    }
}

/// The counters to keep from a reading and what the disk did since the
/// counters kept (zero counters for a disk not seen before).
pub fn disk_deltas(raw: &RawDiskStats, prev: Option<DiskCounters>) -> (r: (DiskCounters, DiskDeltas))
    ensures
        r.0 == counters_of(*raw),
        r.1 == deltas_of(
            *raw,
            match prev {
                Some(p) => p,
                None => DiskCounters { read_bytes: 0, write_bytes: 0, busy_time_ns: 0, total_ops: 0 },
            },
        ),
{
    let p = match prev {
        Some(p) => p,
        None => DiskCounters { read_bytes: 0, write_bytes: 0, busy_time_ns: 0, total_ops: 0 },
    };
    let now = DiskCounters {
        read_bytes: raw.read_bytes,
        write_bytes: raw.write_bytes,
        busy_time_ns: raw.busy_time_ns,
        total_ops: raw.read_ops.saturating_add(raw.write_ops),
    };
    let d = DiskDeltas {
        read_bytes: now.read_bytes.saturating_sub(p.read_bytes),
        write_bytes: now.write_bytes.saturating_sub(p.write_bytes),
        busy_time_ns: now.busy_time_ns.saturating_sub(p.busy_time_ns),
        ops: now.total_ops.saturating_sub(p.total_ops),
    };
    (now, d)
}

/// The counters kept from a reading are its byte counts, busy time and
/// the number of read and write operations together (at most `u64::MAX`);
/// what the disk did is each counter's rise since the counters kept, or 0
/// where it went down. A disk not seen before did all it has counted: with
/// no saturation, `read_ops + write_ops` operations.
pub proof fn lemma_disk_counters_and_deltas(raw: RawDiskStats, prev: DiskCounters)
    ensures
        counters_of(raw).read_bytes == raw.read_bytes,
        counters_of(raw).write_bytes == raw.write_bytes,
        counters_of(raw).busy_time_ns == raw.busy_time_ns,
        raw.read_ops + raw.write_ops <= u64::MAX ==> counters_of(raw).total_ops == raw.read_ops + raw.write_ops,
        raw.read_ops + raw.write_ops > u64::MAX ==> counters_of(raw).total_ops == u64::MAX,
        counters_of(raw).total_ops >= raw.read_ops,
        counters_of(raw).total_ops >= raw.write_ops,
        deltas_of(raw, prev).read_bytes == (if raw.read_bytes >= prev.read_bytes {
            raw.read_bytes - prev.read_bytes
        } else {
            0
        }),
        deltas_of(raw, prev).write_bytes == (if raw.write_bytes >= prev.write_bytes {
            raw.write_bytes - prev.write_bytes
        } else {
            0
        }),
        deltas_of(raw, prev).busy_time_ns == (if raw.busy_time_ns >= prev.busy_time_ns {
            raw.busy_time_ns - prev.busy_time_ns
        } else {
            0
        }),
        deltas_of(raw, prev).ops == (if counters_of(raw).total_ops >= prev.total_ops {
            counters_of(raw).total_ops - prev.total_ops
        } else {
            0
        }),
        raw.read_ops + raw.write_ops <= u64::MAX ==> deltas_of(
            raw,
            DiskCounters { read_bytes: 0, write_bytes: 0, busy_time_ns: 0, total_ops: 0 },
        ).ops == raw.read_ops + raw.write_ops,
{
}

/// Whether a disk is the one the system runs from.
pub fn is_system_disk(system_disk: Option<&str>, bsd_name: &str) -> (r: bool)
    ensures
        r == (text::opt_str_view(system_disk) == Some(bsd_name@)),
{
    match system_disk {
        Some(s) => {
            let a = text::chars_of(s);
            let b = text::chars_of(bsd_name);
            text::chars_eq(a.as_slice(), b.as_slice())
        },
        None => false,
    }
}

} // verus!
