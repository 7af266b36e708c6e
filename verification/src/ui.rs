//! What the user interface shows: the texts of the "About this system"
//! dialog, which loading placeholder a profile names, and the size a
//! placeholder block asks for.
use crate::apps::opt_string_view;
use crate::text;
use vstd::prelude::*;

verus! {

// ---------------------------------------------------------------------------
// About this system
// ---------------------------------------------------------------------------

/// What is known of the operating system; `None` where it is unknown.
#[derive(Clone, Debug, PartialEq, Eq)]
pub struct OsInfo {
    pub name: Option<String>,
    pub pretty_name: Option<String>,
    pub version: Option<String>,
    pub version_id: Option<String>,
    pub os_type: Option<String>,
    pub kernel_release: Option<String>,
    pub kernel_version: Option<String>,
    pub package_manager: Option<String>,
    pub package_manager_version: Option<String>,
}

/// What is known of the desktop environment.
#[derive(Clone, Debug, PartialEq, Eq)]
pub struct DeInfo {
    pub desktop_environment: Option<String>,
    pub version: Option<String>,
    pub windowing_system: Option<String>,
    pub virtual_terminal: Option<String>,
}

/// The text of the kernel release row: the kernel's type and release,
/// `Unknown` for a missing type, the type alone for a missing release.
pub open spec fn kernel_release_of(os_type: Option<Seq<char>>, release: Option<Seq<char>>) -> Option<Seq<char>> {
    match (os_type, release) {
        (Some(k), Some(r)) => Some(k + " "@ + r),
        (None, Some(r)) => Some("Unknown "@ + r),
        (Some(k), None) => Some(k),
        (None, None) => None,
    }
}

/// The text of the kernel release row.
pub fn format_kernel_release_string(os: &OsInfo) -> (r: Option<String>)
    ensures
        opt_string_view(r) == kernel_release_of(opt_string_view(os.os_type), opt_string_view(os.kernel_release)),
{
    match (&os.os_type, &os.kernel_release) {
        (Some(k), Some(rel)) => {
            let mut v = text::chars_of(k.as_str());
            v.push(' ');
            let rc = text::chars_of(rel.as_str());
            text::append_chars(&mut v, rc.as_slice());
            proof {
                reveal_strlit(" ");
            }
            assert(v@ =~= k@ + " "@ + rel@);
            Some(text::string_of(v.as_slice()))
        },
        (None, Some(rel)) => {
            let mut v = text::chars_of("Unknown ");
            let rc = text::chars_of(rel.as_str());
            text::append_chars(&mut v, rc.as_slice());
            Some(text::string_of(v.as_slice()))
        },
        (Some(k), None) => {
            let c = text::chars_of(k.as_str());
            Some(text::string_of(c.as_slice()))
        },
        (None, None) => None,
    }
}

/// What the dialog shows: the text of each value label, `None` where the
/// label is hidden.
pub struct AboutLabels {
    pub os_name: Option<String>,
    pub version: Option<String>,
    pub package_manager: Option<String>,
    pub package_manager_version: Option<String>,
    pub kernel_release: Option<String>,
    pub kernel_version: Option<String>,
    pub desktop_environment: Option<String>,
    pub desktop_environment_version: Option<String>,
    pub windowing_system: Option<String>,
    pub virtual_terminal: Option<String>,
}

/// The first of two texts that is known.
pub open spec fn first_known(a: Option<Seq<char>>, b: Option<Seq<char>>) -> Option<Seq<char>> {
    match a {
        Some(x) => Some(x),
        None => b,
    }
}

/// What the dialog shows: the pretty OS name (else the name), the version
/// id (else the version), the kernel release row's text and the other
/// values as they are known.
pub open spec fn about_labels_ok(os: OsInfo, de: DeInfo, r: AboutLabels) -> bool {
    &&& opt_string_view(r.os_name) == first_known(opt_string_view(os.pretty_name), opt_string_view(os.name))
    &&& opt_string_view(r.version) == first_known(opt_string_view(os.version_id), opt_string_view(os.version))
    &&& opt_string_view(r.package_manager) == opt_string_view(os.package_manager)
    &&& opt_string_view(r.package_manager_version) == opt_string_view(os.package_manager_version)
    &&& opt_string_view(r.kernel_release) == kernel_release_of(opt_string_view(os.os_type), opt_string_view(os.kernel_release))
    &&& opt_string_view(r.kernel_version) == opt_string_view(os.kernel_version)
    &&& opt_string_view(r.desktop_environment) == opt_string_view(de.desktop_environment)
    &&& opt_string_view(r.desktop_environment_version) == opt_string_view(de.version)
    &&& opt_string_view(r.windowing_system) == opt_string_view(de.windowing_system)
    &&& opt_string_view(r.virtual_terminal) == opt_string_view(de.virtual_terminal)
}

fn copy_opt(o: &Option<String>) -> (r: Option<String>)
    ensures
        opt_string_view(r) == opt_string_view(*o),
{
    match o {
        Some(s) => {
            let c = text::chars_of(s.as_str());
            Some(text::string_of(c.as_slice()))
        },
        None => None,
    }
}

fn first_known_exec(a: &Option<String>, b: &Option<String>) -> (r: Option<String>)
    ensures
        opt_string_view(r) == first_known(opt_string_view(*a), opt_string_view(*b)),
{
    match a {
        Some(_) => copy_opt(a),
        None => copy_opt(b),
    }
}

impl AboutLabels {
    /// What the dialog shows for what is known of the system.
    pub fn setup(os: &OsInfo, de: &DeInfo) -> (r: AboutLabels)
        ensures
            about_labels_ok(*os, *de, r),
    {
        AboutLabels {
            os_name: first_known_exec(&os.pretty_name, &os.name),
            version: first_known_exec(&os.version_id, &os.version),
            package_manager: copy_opt(&os.package_manager),
            package_manager_version: copy_opt(&os.package_manager_version),
            kernel_release: format_kernel_release_string(os),
            kernel_version: copy_opt(&os.kernel_version),
            desktop_environment: copy_opt(&de.desktop_environment),
            desktop_environment_version: copy_opt(&de.version),
            windowing_system: copy_opt(&de.windowing_system),
            virtual_terminal: copy_opt(&de.virtual_terminal),
        }
    }

    /// The operating system group is shown where one of its values is.
    pub fn os_group_visible(&self) -> (r: bool)
        ensures
            r == (self.os_name is Some || self.version is Some || self.package_manager is Some
                || self.package_manager_version is Some),
    {
        self.os_name.is_some() || self.version.is_some() || self.package_manager.is_some()
            || self.package_manager_version.is_some()
    }

    /// The kernel group is shown where one of its values is.
    pub fn kernel_group_visible(&self) -> (r: bool)
        ensures
            r == (self.kernel_release is Some || self.kernel_version is Some),
    {
        self.kernel_release.is_some() || self.kernel_version.is_some()
    }

    /// The desktop environment group is shown where one of its values is.
    pub fn de_group_visible(&self) -> (r: bool)
        ensures
            r == (self.desktop_environment is Some || self.desktop_environment_version is Some
                || self.windowing_system is Some || self.virtual_terminal is Some),
    {
        self.desktop_environment.is_some() || self.desktop_environment_version.is_some()
            || self.windowing_system.is_some() || self.virtual_terminal.is_some()
    }
}

/// The text that activating a row puts on the clipboard: `NAME: VALUE`.
pub fn row_copy_text(name: &str, value: &str) -> (r: String)
    ensures
        r@ == name@ + ": "@ + value@,
{
    let mut v = text::chars_of(name);
    let sep = text::chars_of(": ");
    text::append_chars(&mut v, sep.as_slice());
    let vc = text::chars_of(value);
    text::append_chars(&mut v, vc.as_slice());
    text::string_of(v.as_slice())
}

/// The text that "copy all" puts on the clipboard, from the texts of the
/// labels in order: OS name, version, package manager and its version,
/// kernel release and version, desktop environment and its version,
/// windowing system, virtual terminal.
pub open spec fn copy_all_of(v: Seq<Seq<char>>) -> Seq<char> {
    "System Information:\n    Operating System Information\n    Name:                    "@
        + v[0] + "\n    Version:                 "@
        + v[1] + "\n    Package Manager:         "@
        + v[2] + "\n    Package Manager Version: "@
        + v[3] + "\n\n    Kernel Information\n    Kernel Release:          "@
        + v[4] + "\n    Version:                 "@
        + v[5] + "\n\n    Desktop Environment Information\n    Name:                    "@
        + v[6] + "\n    Version:                 "@
        + v[7] + "\n    Windowing System:        "@
        + v[8] + "\n    Virtual Terminal:        "@
        + v[9]
}

/// The text that "copy all" puts on the clipboard.
pub fn copy_all_text(labels: &Vec<String>) -> (r: String)
    requires
        labels@.len() == 10,
    ensures
        r@ == copy_all_of(crate::processes::strings_view(labels@)),
{
    let ghost lv = crate::processes::strings_view(labels@);
    let mut v = text::chars_of("System Information:\n    Operating System Information\n    Name:                    ");
    let c0 = text::chars_of(labels[0].as_str());
    text::append_chars(&mut v, c0.as_slice());
    let p0 = text::chars_of("\n    Version:                 ");
    text::append_chars(&mut v, p0.as_slice());
    let c1 = text::chars_of(labels[1].as_str());
    text::append_chars(&mut v, c1.as_slice());
    let p1 = text::chars_of("\n    Package Manager:         ");
    text::append_chars(&mut v, p1.as_slice());
    let c2 = text::chars_of(labels[2].as_str());
    text::append_chars(&mut v, c2.as_slice());
    let p2 = text::chars_of("\n    Package Manager Version: ");
    text::append_chars(&mut v, p2.as_slice());
    let c3 = text::chars_of(labels[3].as_str());
    text::append_chars(&mut v, c3.as_slice());
    let p3 = text::chars_of("\n\n    Kernel Information\n    Kernel Release:          ");
    text::append_chars(&mut v, p3.as_slice());
    let c4 = text::chars_of(labels[4].as_str());
    text::append_chars(&mut v, c4.as_slice());
    let p4 = text::chars_of("\n    Version:                 ");
    text::append_chars(&mut v, p4.as_slice());
    let c5 = text::chars_of(labels[5].as_str());
    text::append_chars(&mut v, c5.as_slice());
    let p5 = text::chars_of("\n\n    Desktop Environment Information\n    Name:                    ");
    text::append_chars(&mut v, p5.as_slice());
    let c6 = text::chars_of(labels[6].as_str());
    text::append_chars(&mut v, c6.as_slice());
    let p6 = text::chars_of("\n    Version:                 ");
    text::append_chars(&mut v, p6.as_slice());
    let c7 = text::chars_of(labels[7].as_str());
    text::append_chars(&mut v, c7.as_slice());
    let p7 = text::chars_of("\n    Windowing System:        ");
    text::append_chars(&mut v, p7.as_slice());
    let c8 = text::chars_of(labels[8].as_str());
    text::append_chars(&mut v, c8.as_slice());
    let p8 = text::chars_of("\n    Virtual Terminal:        ");
    text::append_chars(&mut v, p8.as_slice());
    let c9 = text::chars_of(labels[9].as_str());
    text::append_chars(&mut v, c9.as_slice());
    assert(v@ =~= copy_all_of(lv));
    text::string_of(v.as_slice())
}

// ---------------------------------------------------------------------------
// Loading placeholders
// ---------------------------------------------------------------------------

/// The loading placeholder that a profile names.
#[derive(Clone, Copy, Debug, PartialEq, Eq, Structural)]
pub enum PlaceholderProfile {
    Sidebar,
    PerformancePageGraph,
    PerformancePageInfo,
    AppsPage,
    ServicesPage,
    /// Any other profile: the placeholder stays empty.
    Empty,
}

/// The placeholder of a profile name.
pub open spec fn profile_of(s: Seq<char>) -> PlaceholderProfile {
    if s == "sidebar"@ {
        PlaceholderProfile::Sidebar
    } else if s == "performance-page-graph"@ {
        PlaceholderProfile::PerformancePageGraph
    } else if s == "performance-page-info"@ {
        PlaceholderProfile::PerformancePageInfo
    } else if s == "apps-page"@ {
        PlaceholderProfile::AppsPage
    } else if s == "services-page"@ {
        PlaceholderProfile::ServicesPage
    } else {
        PlaceholderProfile::Empty
    }
}

/// The placeholder that a profile name selects when it is rebuilt.
pub fn placeholder_profile(profile: &str) -> (r: PlaceholderProfile)
    ensures
        r == profile_of(profile@),
{
    let c = text::chars_of(profile);
    let c = c.as_slice();
    if text::eq_str(c, "sidebar") {
        PlaceholderProfile::Sidebar
    } else if text::eq_str(c, "performance-page-graph") {
        PlaceholderProfile::PerformancePageGraph
    } else if text::eq_str(c, "performance-page-info") {
        PlaceholderProfile::PerformancePageInfo
    } else if text::eq_str(c, "apps-page") {
        PlaceholderProfile::AppsPage
    } else if text::eq_str(c, "services-page") {
        PlaceholderProfile::ServicesPage
    } else {
        PlaceholderProfile::Empty
    }
}

/// A block of a loading placeholder, of a set width and height.
#[derive(Clone, Copy, Debug, PartialEq, Eq, Structural)]
pub struct ShimmerBlock {
    pub width: i32,
    pub height: i32,
}

impl ShimmerBlock {
    pub fn new(width: i32, height: i32) -> (r: ShimmerBlock)
        ensures
            r.width == width,
            r.height == height,
    {
        ShimmerBlock { width, height }
    }

    /// The size the block asks for (minimum, natural, and no baselines):
    /// across, from nothing up to its width; down, exactly its height.
    pub fn measure(&self, horizontal: bool) -> (r: (i32, i32, i32, i32))
        ensures
            r == (if horizontal {
                (0i32, self.width, -1i32, -1i32)
            } else {
                (self.height, self.height, -1i32, -1i32)
            }),
    {
        if horizontal {
            (0, self.width, -1, -1)
        } else {
            (self.height, self.height, -1, -1)
        }
    }
}

} // verus!
