//! Applications: the processes grouped by the application bundle they run
//! from, and the list of applications sorted by name.
use crate::disk;
use crate::processes;
use crate::text;
use vstd::prelude::*;

verus! {

/// A running application.
#[derive(Clone, Debug, PartialEq, Eq)]
pub struct MacosApp {
    pub name: String,
    pub icon: Option<String>,
    pub id: String,
    pub command: String,
    pub pids: Vec<u32>,
}

/// The mathematical value of a `MacosApp`.
pub struct MacosAppView {
    pub name: Seq<char>,
    pub icon: Option<Seq<char>>,
    pub id: Seq<char>,
    pub command: Seq<char>,
    pub pids: Seq<u32>,
}

/// The view of an optional string.
pub open spec fn opt_string_view(o: Option<String>) -> Option<Seq<char>> {
    match o {
        Some(s) => Some(s@),
        None => None,
    }
}

impl View for MacosApp {
    type V = MacosAppView;

    open spec fn view(&self) -> MacosAppView {
        MacosAppView {
            name: self.name@,
            icon: opt_string_view(self.icon),
            id: self.id@,
            command: self.command@,
            pids: self.pids@,
        }
    }
}

impl Default for MacosApp {
    fn default() -> (r: Self)
        ensures
            r@ == (MacosAppView { name: seq![], icon: None, id: seq![], command: seq![], pids: seq![] }),
    {
        MacosApp { name: String::new(), icon: None, id: String::new(), command: String::new(), pids: Vec::new() }
    }
}

impl MacosApp {
    pub fn name(&self) -> (r: &str)
        ensures
            r@ == self.name@,
    {
        self.name.as_str()
    }

    pub fn icon(&self) -> (r: Option<&str>)
        ensures
            text::opt_str_view(r) == opt_string_view(self.icon),
    {
        match &self.icon {
            Some(i) => Some(i.as_str()),
            None => None,
        }
    }

    pub fn id(&self) -> (r: &str)
        ensures
            r@ == self.id@,
    {
        self.id.as_str()
    }

    pub fn command(&self) -> (r: &str)
        ensures
            r@ == self.command@,
    {
        self.command.as_str()
    }

    pub fn pids(&self) -> (r: &[u32])
        ensures
            r@ == self.pids@,
    {
        self.pids.as_slice()
    }
}

/// The views of a list of applications.
pub open spec fn apps_view(v: Seq<MacosApp>) -> Seq<MacosAppView> {
    v.map_values(|a: MacosApp| a@)
}

/// The running applications.
pub struct MacosApps {
    pub apps: Vec<MacosApp>,
}

impl MacosApps {
    /// No application.
    pub fn new() -> (r: MacosApps)
        ensures
            r.apps@.len() == 0,
    {
        MacosApps { apps: Vec::new() }
    }

    /// The applications, sorted by name.
    pub fn app_list(&self) -> (r: &[MacosApp])
        ensures
            r@ == self.apps@,
    {
        self.apps.as_slice()
    }
}

// ---------------------------------------------------------------------------
// The bundle an executable belongs to
// ---------------------------------------------------------------------------

/// The path of the bundle an executable belongs to, given the lowercase
/// form of the path: the path up to the byte offset just after the first
/// `.app` followed by `/` in the lowercase form (so that `.APP/` counts
/// too). `None` where there is no such `.app/`; `Err` where that offset is
/// not a character boundary of the path (where slicing it panics).
pub open spec fn bundle_path_in(exe: Seq<char>, lower: Seq<char>) -> Result<Option<Seq<char>>, ()> {
    match text::find(lower, ".app/"@) {
        Some(i) => match text::char_at_byte(exe, text::byte_len(lower.take(i)) + 4int) {
            Some(k) => Ok(Some(exe.take(k))),
            None => Err(()),
        },
        None => Ok(None),
    }
}

/// Slicing the path where its bundle ends does not panic.
pub open spec fn bundle_slice_ok(exe: Seq<char>) -> bool {
    bundle_path_in(exe, text::lowercase(exe)) is Ok
}

/// The path of the bundle an executable belongs to.
pub open spec fn bundle_path_of(exe: Seq<char>) -> Option<Seq<char>> {
    match bundle_path_in(exe, text::lowercase(exe)) {
        Ok(o) => o,
        Err(_) => None,
    }
}

/// The path of the bundle an executable belongs to, given the lowercase
/// form of the path.
pub fn bundle_path_given_lowercase(exe: &str, lower: &str) -> (r: Result<Option<String>, ()>)
    ensures
        match r {
            Ok(o) => bundle_path_in(exe@, lower@) == Ok::<Option<Seq<char>>, ()>(opt_string_view(o)),
            Err(_) => bundle_path_in(exe@, lower@) is Err,
        },
{
    let lc = text::chars_of(lower);
    let pat = text::chars_of(".app/");
    match text::find_exec(lc.as_slice(), pat.as_slice()) {
        None => Ok(None),
        Some(i) => {
            proof {
                text::lemma_find_from(lc@, pat@, 0);
            }
            let pre = text::copy_range(lc.as_slice(), 0, i);
            assert(pre@ == lc@.take(i as int));
            let b = text::byte_len_exec(pre.as_slice()) + 4;
            let ec = text::chars_of(exe);
            match text::char_at_byte_exec(ec.as_slice(), b) {
                Some(k) => {
                    proof {
                        text::lemma_char_at_byte(ec@, b as int);
                    }
                    let p = text::copy_range(ec.as_slice(), 0, k);
                    assert(p@ =~= exe@.take(k as int));
                    Ok(Some(text::string_of(p.as_slice())))
                },
                None => Err(()),
            }
        },
    }
}

/// The path of the bundle an executable belongs to, or `Err` where the
/// path cannot be sliced where its bundle ends.
pub fn try_bundle_path_from_exe(exe: &str) -> (r: Result<Option<String>, ()>)
    ensures
        match r {
            Ok(o) => bundle_slice_ok(exe@) && opt_string_view(o) == bundle_path_of(exe@),
            Err(_) => !bundle_slice_ok(exe@),
        },
{
    let lower = text::to_lowercase(exe);
    bundle_path_given_lowercase(exe, lower.as_str())
}

/// The path of the bundle an executable belongs to.
pub fn bundle_path_from_exe(exe: &str) -> (r: Option<String>)
    requires
        bundle_slice_ok(exe@),
    ensures
        opt_string_view(r) == bundle_path_of(exe@),
{
    match try_bundle_path_from_exe(exe) {
        Ok(o) => o,
        Err(_) => None,
    }
}

// ---------------------------------------------------------------------------
// Grouping processes by bundle
// ---------------------------------------------------------------------------

/// Adds a process to the group of its bundle, or starts a group at the end.
pub open spec fn add_to_group(gs: Seq<(Seq<char>, Seq<u32>)>, b: Seq<char>, pid: u32) -> Seq<
    (Seq<char>, Seq<u32>),
> {
    match disk::key_index_from(gs, b, 0) {
        Some(i) => gs.update(i, (b, gs[i].1.push(pid))),
        None => gs.push((b, seq![pid])),
    }
}

/// The processes (id and executable path, in the order given) grouped by
/// the bundle they run from, the groups in the order of their first
/// process; processes without an executable path or outside a bundle are
/// left out.
pub open spec fn group_bundles(procs: Seq<(u32, Seq<char>)>) -> Seq<(Seq<char>, Seq<u32>)>
    decreases procs.len(),
{
    if procs.len() == 0 {
        seq![]
    } else {
        let (pid, exe) = procs.last();
        let gs = group_bundles(procs.drop_last());
        if exe.len() == 0 {
            gs
        } else {
            match bundle_path_of(exe) {
                Some(b) => add_to_group(gs, b, pid),
                None => gs,
            }
        }
    }
}

/// Every executable path can be sliced where its bundle ends.
pub open spec fn bundles_slice_ok(procs: Seq<(u32, Seq<char>)>) -> bool {
    forall|i: int| 0 <= i < procs.len() ==> bundle_slice_ok(#[trigger] procs[i].1)
}

/// The views of process ids and executable paths.
pub open spec fn procs_view(v: Seq<(u32, String)>) -> Seq<(u32, Seq<char>)> {
    v.map_values(|p: (u32, String)| (p.0, p.1@))
}

/// The views of bundle groups.
pub open spec fn groups_view(v: Seq<(String, Vec<u32>)>) -> Seq<(Seq<char>, Seq<u32>)> {
    v.map_values(|g: (String, Vec<u32>)| (g.0@, g.1@))
}

fn add_to_group_exec(gs: &mut Vec<(String, Vec<u32>)>, b: String, pid: u32)
    ensures
        groups_view(final(gs)@) == add_to_group(groups_view(old(gs)@), b@, pid),
{
    let ghost gv = groups_view(gs@);
    let mut i: usize = 0;
    while i < gs.len()
        invariant
            i <= gs.len(),
            gs@ == old(gs)@,
            gv == groups_view(gs@),
            disk::key_index_from(gv, b@, 0) == disk::key_index_from(gv, b@, i as int),
        decreases gs.len() - i,
    {
        let k = text::chars_of(gs[i].0.as_str());
        let bc = text::chars_of(b.as_str());
        assert(gv[i as int].0 == gs@[i as int].0@);
        if text::chars_eq(k.as_slice(), bc.as_slice()) {
            assert(disk::key_index_from(gv, b@, i as int) == Some(i as int));
            let mut g = gs.remove(i);
            g.1.push(pid);
            let ghost gp = g.1@;
            gs.insert(i, g);
            assert(groups_view(gs@) =~= gv.update(i as int, (b@, gv[i as int].1.push(pid))));
            return;
        }
        i += 1;
    }
    let mut v: Vec<u32> = Vec::new();
    v.push(pid);
    let ghost bv = b@;
    gs.push((b, v));
    assert(groups_view(gs@) =~= gv.push((bv, seq![pid])));
}

/// The processes grouped by the bundle they run from, where every
/// executable path can be sliced where its bundle ends.
pub fn group_by_bundle(procs: &Vec<(u32, String)>) -> (r: Vec<(String, Vec<u32>)>)
    requires
        bundles_slice_ok(procs_view(procs@)),
    ensures
        groups_view(r@) == group_bundles(procs_view(procs@)),
{
    let ghost pv = procs_view(procs@);
    let mut gs: Vec<(String, Vec<u32>)> = Vec::new();
    let mut i: usize = 0;
    assert(groups_view(gs@) =~= Seq::<(Seq<char>, Seq<u32>)>::empty());
    while i < procs.len()
        invariant
            i <= procs.len(),
            pv == procs_view(procs@),
            bundles_slice_ok(pv),
            groups_view(gs@) == group_bundles(pv.take(i as int)),
        decreases procs.len() - i,
    {
        let pid = procs[i].0;
        let exe = procs[i].1.as_str();
        assert(pv[i as int] == (pid, exe@));
        assert(pv.take(i + 1).drop_last() =~= pv.take(i as int));
        assert(pv.take(i + 1).last() == pv[i as int]);
        assert(bundle_slice_ok(pv[i as int].1));
        let ec = text::chars_of(exe);
        if ec.len() > 0 {
            match bundle_path_from_exe(exe) {
                Some(b) => {
                    add_to_group_exec(&mut gs, b, pid);
                },
                None => {},
            }
        }
        i += 1;
    }
    assert(pv.take(procs.len() as int) =~= pv);
    gs
}

/// The processes grouped by the bundle they run from; `None` where the
/// path of one of them cannot be sliced where its bundle ends.
pub fn try_group_by_bundle(procs: &Vec<(u32, String)>) -> (r: Option<Vec<(String, Vec<u32>)>>)
    ensures
        match r {
            Some(g) => bundles_slice_ok(procs_view(procs@)) && groups_view(g@) == group_bundles(
                procs_view(procs@),
            ),
            None => !bundles_slice_ok(procs_view(procs@)),
        },
{
    let ghost pv = procs_view(procs@);
    let mut i: usize = 0;
    while i < procs.len()
        invariant
            i <= procs.len(),
            pv == procs_view(procs@),
            forall|j: int| 0 <= j < i ==> bundle_slice_ok(#[trigger] pv[j].1),
        decreases procs.len() - i,
    {
        assert(pv[i as int].1 == procs@[i as int].1@);
        match try_bundle_path_from_exe(procs[i].1.as_str()) {
            Ok(_) => {},
            Err(_) => {
                return None;
            },
        }
        i += 1;
    }
    Some(group_by_bundle(procs))
}
// ---------------------------------------------------------------------------
// What a bundle's `Info.plist` says
// ---------------------------------------------------------------------------

/// What `std::path::Path::file_stem` returns for a path, as text.
pub uninterp spec fn file_stem(path: Seq<char>) -> Option<Seq<char>>;

/// `Path::file_stem` (std), as text. Stated: the result is `file_stem` of
/// the path. What the stem of a given path is (the last component without
/// its extension) is not stated.
#[verifier::external_body]
fn path_file_stem(path: &str) -> (r: Option<String>)
    ensures
        opt_string_view(r) == file_stem(path@),
{
    std::path::Path::new(path).file_stem().and_then(|s| s.to_str()).map(|s| s.to_string())
}

/// The keys of a bundle's `Info.plist` that are read.
#[derive(Clone, Debug, PartialEq, Eq)]
pub struct BundlePlist {
    pub identifier: text::FieldValue,
    pub name: text::FieldValue,
    pub display_name: text::FieldValue,
    pub icon_file: text::FieldValue,
    pub icon_name: text::FieldValue,
}

/// The value of the first key, or of the second where the first is absent.
pub open spec fn first_present(a: text::FieldValue, b: text::FieldValue) -> text::FieldValue {
    match a {
        text::FieldValue::Missing => b,
        _ => a,
    }
}

/// The text of a value that is a non-empty string.
pub open spec fn nonempty_text(v: text::FieldValue) -> Option<Seq<char>> {
    match v {
        text::FieldValue::Text(s) => if s@.len() > 0 {
            Some(s@)
        } else {
            None
        },
        _ => None,
    }
}

/// The path of a bundle's `Info.plist`.
pub open spec fn info_plist_path_of(bundle: Seq<char>) -> Seq<char> {
    bundle + "/Contents/Info.plist"@
}

/// The path of the icon file that a bundle names: in its resources, with
/// `.icns` added where the name does not end with it.
pub open spec fn icon_path_of(bundle: Seq<char>, icon: Seq<char>) -> Seq<char> {
    bundle + "/Contents/Resources/"@ + if text::ends_with(icon, ".icns"@) {
        icon
    } else {
        icon + ".icns"@
    }
}

/// What a bundle's `Info.plist` gives: its identifier, where it is a
/// non-empty string; its name (`CFBundleName`, or `CFBundleDisplayName`
/// where that key is absent; the file stem of the bundle path where there
/// is no non-empty string); and the path of its icon file, where one is
/// named (`CFBundleIconFile`, or `CFBundleIconName` where that key is
/// absent).
pub open spec fn bundle_info_of(bundle: Seq<char>, p: BundlePlist) -> Option<(Seq<char>, Seq<char>, Option<Seq<char>>)> {
    match nonempty_text(p.identifier) {
        None => None,
        Some(id) => {
            let name = match nonempty_text(first_present(p.name, p.display_name)) {
                Some(n) => n,
                None => match file_stem(bundle) {
                    Some(s) => s,
                    None => seq![],
                },
            };
            let icon = match nonempty_text(first_present(p.icon_file, p.icon_name)) {
                Some(i) => Some(icon_path_of(bundle, i)),
                None => None,
            };
            Some((id, name, icon))
        },
    }
}

/// The path of a bundle's `Info.plist`.
pub fn info_plist_path(bundle: &str) -> (r: String)
    ensures
        r@ == info_plist_path_of(bundle@),
{
    let mut v = text::chars_of(bundle);
    let t = text::chars_of("/Contents/Info.plist");
    text::append_chars(&mut v, t.as_slice());
    text::string_of(v.as_slice())
}

fn first_present_exec<'a>(a: &'a text::FieldValue, b: &'a text::FieldValue) -> (r: &'a text::FieldValue)
    ensures
        *r == first_present(*a, *b),
{
    match a {
        text::FieldValue::Missing => b,
        _ => a,
    }
}

fn nonempty_text_exec(v: &text::FieldValue) -> (r: Option<Vec<char>>)
    ensures
        match r {
            Some(t) => nonempty_text(*v) == Some(t@),
            None => nonempty_text(*v) is None,
        },
{
    match v {
        text::FieldValue::Text(s) => {
            let c = text::chars_of(s.as_str());
            if c.len() > 0 {
                Some(c)
            } else {
                None
            }
        },
        _ => None,
    }
}

/// The identifier, name and icon file path that a bundle's `Info.plist`
/// gives; `None` where it has no identifier.
pub fn bundle_info_from_plist(bundle: &str, p: &BundlePlist) -> (r: Option<(String, String, Option<String>)>)
    ensures
        match r {
            Some((id, name, icon)) => bundle_info_of(bundle@, *p) == Some((id@, name@, opt_string_view(icon))),
            None => bundle_info_of(bundle@, *p) is None,
        },
{
    let id = match nonempty_text_exec(&p.identifier) {
        Some(id) => id,
        None => return None,
    };
    let name = match nonempty_text_exec(first_present_exec(&p.name, &p.display_name)) {
        Some(n) => n,
        None => match path_file_stem(bundle) {
            Some(s) => text::chars_of(s.as_str()),
            None => Vec::new(),
        },
    };
    let icon = match nonempty_text_exec(first_present_exec(&p.icon_file, &p.icon_name)) {
        Some(i) => {
            let mut v = text::chars_of(bundle);
            let res = text::chars_of("/Contents/Resources/");
            text::append_chars(&mut v, res.as_slice());
            text::append_chars(&mut v, i.as_slice());
            let ext = text::chars_of(".icns");
            if !text::ends_with_exec(i.as_slice(), ext.as_slice()) {
                text::append_chars(&mut v, ext.as_slice());
            }
            assert(v@ =~= icon_path_of(bundle@, i@));
            Some(text::string_of(v.as_slice()))
        },
        None => None,
    };
    Some((text::string_of(id.as_slice()), text::string_of(name.as_slice()), icon))
}

// ---------------------------------------------------------------------------
// The list of applications
// ---------------------------------------------------------------------------

/// What is known of a bundle: its identifier and its icon.
#[derive(Clone, Debug, PartialEq, Eq)]
pub struct BundleInfo {
    pub id: String,
    pub icon: Option<String>,
}

/// A bundle with its processes and what is known of it (`None`: its
/// `Info.plist` could not be read).
pub type BundleEntry = (String, Vec<u32>, Option<BundleInfo>);

/// The view of what is known of a bundle.
pub open spec fn info_view(i: Option<BundleInfo>) -> Option<(Seq<char>, Option<Seq<char>>)> {
    match i {
        Some(b) => Some((b.id@, opt_string_view(b.icon))),
        None => None,
    }
}

/// The views of bundle entries.
pub open spec fn entries_view(v: Seq<BundleEntry>) -> Seq<(Seq<char>, Seq<u32>, Option<(Seq<char>, Option<Seq<char>>)>)> {
    v.map_values(|e: BundleEntry| (e.0@, e.1@, info_view(e.2)))
}

/// The application of a bundle: none where it has no identifier or no
/// process; named by the file stem of its path (its identifier where there
/// is none); its command is its path.
pub open spec fn app_of_bundle(e: (Seq<char>, Seq<u32>, Option<(Seq<char>, Option<Seq<char>>)>)) -> Option<MacosAppView> {
    let (id, icon) = match e.2 {
        Some(i) => i,
        None => (Seq::<char>::empty(), None),
    };
    if id.len() == 0 || e.1.len() == 0 {
        None
    } else {
        Some(
            MacosAppView {
                name: match file_stem(e.0) {
                    Some(s) => s,
                    None => id,
                },
                icon: icon,
                id: id,
                command: e.0,
                pids: e.1,
            },
        )
    }
}

/// The applications of the bundles, in the order of the bundles.
pub open spec fn apps_of_bundles(es: Seq<(Seq<char>, Seq<u32>, Option<(Seq<char>, Option<Seq<char>>)>)>) -> Seq<MacosAppView>
    decreases es.len(),
{
    if es.len() == 0 {
        seq![]
    } else {
        match app_of_bundle(es.last()) {
            Some(a) => apps_of_bundles(es.drop_last()).push(a),
            None => apps_of_bundles(es.drop_last()),
        }
    }
}

/// The key by which applications are sorted: the lowercase name.
pub open spec fn app_key(a: MacosAppView) -> Seq<char> {
    text::lowercase(a.name)
}

/// The applications are in the order of their lowercase names.
pub open spec fn sorted_by_name(v: Seq<MacosAppView>) -> bool {
    forall|i: int, j: int| 0 <= i < j < v.len() ==> text::text_le(app_key(v[i]), app_key(v[j]))
}

fn app_key_exec(a: &MacosApp) -> (r: Vec<char>)
    ensures
        r@ == app_key(a@),
{
    let l = text::to_lowercase(a.name.as_str());
    text::chars_of(l.as_str())
}

/// The applications sorted by their lowercase names; applications with the
/// same key keep their order.
pub fn sort_apps_by_name(apps: Vec<MacosApp>) -> (r: Vec<MacosApp>)
    ensures
        sorted_by_name(apps_view(r@)),
        apps_view(r@).to_multiset() == apps_view(apps@).to_multiset(),
{
    broadcast use vstd::seq_lib::to_multiset_build, vstd::seq_lib::to_multiset_insert;

    let ghost all = apps@;
    assert(all.len() == apps.len());
    let mut rest = apps;
    let mut out: Vec<MacosApp> = Vec::new();
    let mut k: usize = 0;
    assert(apps_view(out@) =~= apps_view(all.take(0)));
    while rest.len() > 0
        invariant
            k <= all.len() <= usize::MAX,
            rest@ == all.skip(k as int),
            sorted_by_name(apps_view(out@)),
            apps_view(out@).to_multiset() == apps_view(all.take(k as int)).to_multiset(),
        decreases rest.len(),
    {
        let ghost r0 = rest@;
        assert(r0.len() > 0 && k < all.len());
        assert(r0[0] == all[k as int]);
        let a = rest.remove(0);
        let key = app_key_exec(&a);
        let ghost ov = apps_view(out@);
        let mut pos: usize = 0;
        while pos < out.len() && text::text_le_exec(app_key_exec(&out[pos]).as_slice(), key.as_slice())
            invariant
                pos <= out.len(),
                ov == apps_view(out@),
                key@ == app_key(a@),
                forall|j: int| 0 <= j < pos ==> text::text_le(app_key(#[trigger] ov[j]), key@),
            decreases out.len() - pos,
        {
            pos += 1;
        }
        proof {
            if pos < out.len() {
                assert(!text::text_le(app_key(ov[pos as int]), key@));
                text::lemma_text_le_total(app_key(ov[pos as int]), key@);
            }
        }
        let ghost av = a@;
        out.insert(pos, a);
        proof {
            let nv = apps_view(out@);
            assert(nv =~= ov.insert(pos as int, av));
            assert forall|i: int, j: int| 0 <= i < j < nv.len() implies text::text_le(app_key(nv[i]), app_key(nv[j])) by {
                if j < pos {
                } else if i < pos && j == pos {
                } else if i < pos && j > pos {
                    text::lemma_text_le_trans(app_key(nv[i]), key@, app_key(nv[pos as int + 1]));
                    if j > pos + 1 {
                        text::lemma_text_le_trans(app_key(nv[i]), app_key(nv[pos as int + 1]), app_key(nv[j]));
                    }
                } else if i == pos {
                    assert(text::text_le(key@, app_key(ov[pos as int])));
                    if j > pos + 1 {
                        text::lemma_text_le_trans(key@, app_key(ov[pos as int]), app_key(nv[j]));
                    }
                } else {
                }
            }
            assert(all.take(k + 1) =~= all.take(k as int).push(all[k as int]));
            assert(apps_view(all.take(k + 1)) =~= apps_view(all.take(k as int)).push(av));
            vstd::seq_lib::to_multiset_insert(ov, pos as int, av);
            vstd::seq_lib::to_multiset_build(apps_view(all.take(k as int)), av);
        }
        assert(rest@ =~= all.skip(k + 1));
        k += 1;
    }
    assert(all.take(all.len() as int) =~= all);
    out
}

/// The list of applications of the bundles, sorted by lowercase name.
pub fn build_app_list(entries: Vec<BundleEntry>) -> (r: Vec<MacosApp>)
    ensures
        sorted_by_name(apps_view(r@)),
        apps_view(r@).to_multiset() == apps_of_bundles(entries_view(entries@)).to_multiset(),
{
    let ghost all = entries_view(entries@);
    assert(all.len() == entries.len());
    let mut rest = entries;
    let mut apps: Vec<MacosApp> = Vec::new();
    let mut k: usize = 0;
    assert(apps_view(apps@) =~= apps_of_bundles(all.take(0)));
    while rest.len() > 0
        invariant
            k <= all.len() <= usize::MAX,
            entries_view(rest@) == all.skip(k as int),
            apps_view(apps@) == apps_of_bundles(all.take(k as int)),
        decreases rest.len(),
    {
        let ghost rv = entries_view(rest@);
        assert(rv.len() > 0 && k < all.len());
        assert(rv[0] == all[k as int]);
        let (path, pids, info) = rest.remove(0);
        proof {
            assert(rv[0] == (path@, pids@, info_view(info)));
            assert(all.take(k + 1).drop_last() =~= all.take(k as int));
            assert(all.take(k + 1).last() == rv[0]);
        }
        match info {
            Some(bi) => {
                let idc = text::chars_of(bi.id.as_str());
                if idc.len() > 0 && pids.len() > 0 {
                    let name = match path_file_stem(path.as_str()) {
                        Some(s) => s,
                        None => text::string_of(idc.as_slice()),
                    };
                    let ghost prev = apps_view(apps@);
                    let app = MacosApp { name, icon: bi.icon, id: bi.id, command: path, pids };
                    let ghost appv = app@;
                    apps.push(app);
                    assert(apps_view(apps@) =~= prev.push(appv));
                }
            },
            None => {},
        }
        proof {
            assert(entries_view(rest@) =~= rv.drop_first());
            assert(rv.drop_first() =~= all.skip(k + 1));
        }
        k += 1;
    }
    assert(all.take(all.len() as int) =~= all);
    sort_apps_by_name(apps)
}

impl MacosApps {
    /// Replaces the applications with those of the bundles that the
    /// processes run from, sorted by lowercase name.
    pub fn refresh_cache(&mut self, entries: Vec<BundleEntry>)
        ensures
            sorted_by_name(apps_view(final(self).apps@)),
            apps_view(final(self).apps@).to_multiset() == apps_of_bundles(entries_view(entries@)).to_multiset(),
    {
        self.apps = build_app_list(entries);
    }
}

// ---------------------------------------------------------------------------
// Laws of the application list
// ---------------------------------------------------------------------------

/// The groups have distinct bundle paths: a bundle gives at most one
/// application.
pub proof fn lemma_bundle_groups_distinct(procs: Seq<(u32, Seq<char>)>)
    ensures
        disk::keys_unique(group_bundles(procs)),
    decreases procs.len(),
{
    if procs.len() > 0 {
        let gs = group_bundles(procs.drop_last());
        lemma_bundle_groups_distinct(procs.drop_last());
        let (pid, exe) = procs.last();
        if exe.len() > 0 {
            match bundle_path_of(exe) {
                Some(b) => {
                    disk::lemma_key_index_from(gs, b, 0);
                },
                None => {},
            }
        }
    }
}

/// Every listed application has an identifier and at least one process,
/// and its command is the path of its bundle.
pub proof fn lemma_listed_apps_have_id_and_pids(es: Seq<(Seq<char>, Seq<u32>, Option<(Seq<char>, Option<Seq<char>>)>)>)
    ensures
        forall|i: int|
            0 <= i < apps_of_bundles(es).len() ==> (#[trigger] apps_of_bundles(es)[i]).id.len() > 0
                && apps_of_bundles(es)[i].pids.len() > 0,
    decreases es.len(),
{
    if es.len() > 0 {
        lemma_listed_apps_have_id_and_pids(es.drop_last());
    }
}

} // verus!
