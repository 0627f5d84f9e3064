//! The system information module: CPU, memory, disk, GPU, battery, power.
use vstd::prelude::*;

use crate::localtime::{is_hms, local_hms};
use crate::module_trait::{ModuleUpdate, PanelModule};
use crate::number::{parse_i64, parse_i64_spec, parse_u64, parse_u64_spec};
use crate::text::{
    chars_of, contains, contains_spec, find, find_spec, lines, lines_spec, push_str, slice_of,
    split_on, split_spec, sep_of, split_str, split_str_spec, split_whitespace, split_ws_spec,
    starts_with, starts_with_spec, string_of, trim, trim_spec, trim_start_matches,
    trim_start_matches_spec, str_eq,
};
use crate::modules::system_temp::{file_i64, HwmonReading};

verus! {

/// The CPU time counters of `/proc/stat`'s first line.
#[derive(Debug, Clone, Copy, PartialEq, Eq, Structural)]
pub struct CpuStats {
    pub user: u64,
    pub nice: u64,
    pub system: u64,
    pub idle: u64,
    pub iowait: u64,
}

/// The number in field `i`, or 0 when it is not one.
pub open spec fn field_u64(p: Seq<Seq<char>>, i: int) -> u64 {
    match parse_u64_spec(p[i]) {
        Some(v) => v,
        None => 0,
    }
}

/// The counters of a `cpu` line: fields 1 to 5 of its whitespace-separated
/// fields (0 where a field is not a number), when it has at least 8 fields.
pub open spec fn stat_line_spec(line: Seq<char>) -> Option<CpuStats> {
    let p = split_ws_spec(line);
    if p.len() < 8 {
        None
    } else {
        Some(
            CpuStats {
                user: field_u64(p, 1),
                nice: field_u64(p, 2),
                system: field_u64(p, 3),
                idle: field_u64(p, 4),
                iowait: field_u64(p, 5),
            },
        )
    }
}

fn field(p: &Vec<Vec<char>>, i: usize) -> (r: u64)
    requires
        i < p@.len(),
    ensures
        r == field_u64(crate::text::views(p@), i as int),
{
    match parse_u64(&p[i]) {
        Some(v) => v,
        None => 0,
    }
}

impl CpuStats {
    pub open spec fn spec_total(self) -> int {
        self.user + self.nice + self.system + self.idle + self.iowait
    }

    pub open spec fn spec_active(self) -> int {
        self.user + self.nice + self.system
    }

    /// Reads the counters of a `cpu` line of `/proc/stat`.
    pub fn from_stat_line(line: &str) -> (r: Option<CpuStats>)
        ensures
            r == stat_line_spec(line@),
    {
        let c = chars_of(line);
        let parts = split_whitespace(&c);
        if parts.len() < 8 {
            return None;
        }
        Some(
            CpuStats {
                user: field(&parts, 1),
                nice: field(&parts, 2),
                system: field(&parts, 3),
                idle: field(&parts, 4),
                iowait: field(&parts, 5),
            },
        )
    }

    /// Whether the total fits a `u64`.
    pub fn total_fits(&self) -> (r: bool)
        ensures
            r == (self.spec_total() <= u64::MAX),
    {
        self.user <= u64::MAX - self.nice && self.user + self.nice <= u64::MAX - self.system
            && self.user + self.nice + self.system <= u64::MAX - self.idle && self.user + self.nice
            + self.system + self.idle <= u64::MAX - self.iowait
    }

    /// All the time counted: user, nice, system, idle and iowait.
    pub fn total(&self) -> (r: u64)
        requires
            self.spec_total() <= u64::MAX,
        ensures
            r == self.spec_total(),
    {
        self.user + self.nice + self.system + self.idle + self.iowait
    }

    /// The busy time: user, nice and system.
    pub fn active(&self) -> (r: u64)
        requires
            self.spec_active() <= u64::MAX,
        ensures
            r == self.spec_active(),
    {
        self.user + self.nice + self.system
    }
}

/// The first line of `s`, or nothing when `s` has none.
pub open spec fn first_line(s: Seq<char>) -> Seq<char> {
    if lines_spec(s).len() > 0 {
        lines_spec(s)[0]
    } else {
        Seq::empty()
    }
}

/// What the CPU usage is computed from.
#[derive(Debug, Clone, Copy, PartialEq, Eq, Structural)]
pub enum CpuSample {
    /// `/proc/stat` could not be read or parsed: shown as `N/A`.
    Unavailable,
    /// The first sample: shown as `0.0%`.
    First,
    /// Usage between the earlier sample and this one.
    Usage(CpuStats, CpuStats),
}

/// `(memory total, memory available)` in kB: the `MemTotal:` and
/// `MemAvailable:` lines of `/proc/meminfo` (the last of each wins; a value
/// that is not a number counts as 0; absent means 0).
pub open spec fn meminfo_spec(ls: Seq<Seq<char>>) -> (u64, u64)
    decreases ls.len(),
{
    if ls.len() == 0 {
        (0, 0)
    } else {
        let (t, a) = meminfo_spec(ls.drop_last());
        let p = split_ws_spec(ls.last());
        if p.len() >= 2 {
            let v = field_u64(p, 1);
            if p[0] == "MemTotal:"@ {
                (v, a)
            } else if p[0] == "MemAvailable:"@ {
                (t, v)
            } else {
                (t, a)
            }
        } else {
            (t, a)
        }
    }
}

pub fn parse_meminfo(content: &str) -> (r: (u64, u64))
    ensures
        r == meminfo_spec(lines_spec(content@)),
{
    let c = chars_of(content);
    let ls = lines(&c);
    let total_key = chars_of("MemTotal:");
    let avail_key = chars_of("MemAvailable:");
    let ghost lv = crate::text::views(ls@);
    let mut total: u64 = 0;
    let mut avail: u64 = 0;
    let mut i: usize = 0;
    while i < ls.len()
        invariant
            i <= ls.len(),
            lv == crate::text::views(ls@),
            total_key@ == "MemTotal:"@,
            avail_key@ == "MemAvailable:"@,
            (total, avail) == meminfo_spec(lv.take(i as int)),
        decreases ls.len() - i,
    {
        assert(lv.take(i + 1).drop_last() =~= lv.take(i as int));
        let parts = split_whitespace(&ls[i]);
        if parts.len() >= 2 {
            let v = field(&parts, 1);
            if crate::text::chars_eq(&parts[0], &total_key) {
                total = v;
            } else if crate::text::chars_eq(&parts[0], &avail_key) {
                avail = v;
            }
        }
        i = i + 1;
    }
    assert(lv.take(ls.len() as int) =~= lv);
    (total, avail)
}

/// The memory in use (kB), from the total and the available memory: none
/// when the total is unknown (0).
pub fn memory_used(total: u64, available: u64) -> (r: Option<u64>)
    requires
        total > 0 ==> available <= total,
    ensures
        r == (if total == 0 {
            None::<u64>
        } else {
            Some((total - available) as u64)
        }),
{
    if total == 0 {
        None
    } else {
        Some(total - available)
    }
}

/// The disk usage that `df /` printed: the fifth field of its second line,
/// else `N/A`.
pub open spec fn disk_usage_spec(out: Option<Seq<char>>) -> Seq<char> {
    match out {
        Some(s) => {
            let ls = lines_spec(s);
            if ls.len() >= 2 && split_ws_spec(ls[1]).len() >= 5 {
                split_ws_spec(ls[1])[4]
            } else {
                "N/A"@
            }
        },
        None => "N/A"@,
    }
}

pub fn disk_usage_text(out: Option<&str>) -> (r: String)
    ensures
        r@ == disk_usage_spec(match out {
            Some(s) => Some(s@),
            None => None,
        }),
{
    match out {
        Some(s) => {
            let c = chars_of(s);
            let ls = lines(&c);
            if ls.len() >= 2 {
                let parts = split_whitespace(&ls[1]);
                if parts.len() >= 5 {
                    return string_of(&parts[4]);
                }
            }
            "N/A".to_owned()
        },
        None => "N/A".to_owned(),
    }
}

/// The GPU name on one `lspci -v` line, when the line names a display
/// controller and holds `": "`.
pub open spec fn lspci_line(l: Seq<char>) -> Option<Seq<char>> {
    if (contains_spec(l, "VGA compatible controller"@) || contains_spec(l, "3D controller"@))
        && find_spec(l, ": "@) is Some {
        let rest = trim_spec(l.skip(find_spec(l, ": "@)->0 + 2));
        Some(trim_spec(split_spec(rest, sep_of('(', false))[0]))
    } else {
        None
    }
}

/// The GPU name in `lspci -v` output: on the first line that mentions
/// `VGA compatible controller` or `3D controller` and holds `": "`, the text
/// after it, trimmed, up to the first `(`, trimmed.
pub open spec fn lspci_name_from(ls: Seq<Seq<char>>, i: int) -> Option<Seq<char>>
    decreases ls.len() - i,
{
    if i < 0 || i >= ls.len() {
        None
    } else {
        match lspci_line(ls[i]) {
            Some(n) => Some(n),
            None => lspci_name_from(ls, i + 1),
        }
    }
}

/// The first `DRM_DEVICE_NAME=` value among DRM `uevent` files, from `i` on.
pub open spec fn drm_name_from(files: Seq<Option<String>>, i: int) -> Option<Seq<char>>
    decreases files.len() - i,
{
    if i < 0 || i >= files.len() {
        None
    } else {
        match files[i] {
            Some(f) => match drm_line(lines_spec(f@), 0) {
                Some(v) => Some(v),
                None => drm_name_from(files, i + 1),
            },
            None => drm_name_from(files, i + 1),
        }
    }
}

/// The value of the first `DRM_DEVICE_NAME=` line, from line `j` on.
pub open spec fn drm_line(ls: Seq<Seq<char>>, j: int) -> Option<Seq<char>>
    decreases ls.len() - j,
{
    if j < 0 || j >= ls.len() {
        None
    } else if starts_with_spec(ls[j], "DRM_DEVICE_NAME="@) {
        Some(trim_start_matches_spec(ls[j], "DRM_DEVICE_NAME="@))
    } else {
        drm_line(ls, j + 1)
    }
}

/// The GPU name: from `lspci -v` output (when it ran), else from the DRM
/// devices' `uevent` files, else empty.
pub open spec fn gpu_name_spec(lspci: Option<Seq<char>>, uevents: Seq<Option<String>>) -> Seq<char> {
    match (match lspci {
        Some(out) => lspci_name_from(lines_spec(out), 0),
        None => None,
    }) {
        Some(n) => n,
        None => match drm_name_from(uevents, 0) {
            Some(n) => n,
            None => Seq::empty(),
        },
    }
}

fn lspci_line_exec(l: &Vec<char>) -> (r: Option<Vec<char>>)
    ensures
        match r {
            Some(n) => lspci_line(l@) == Some(n@),
            None => lspci_line(l@) is None,
        },
{
    let vga = chars_of("VGA compatible controller");
    let d3 = chars_of("3D controller");
    let sep = chars_of(": ");
    proof {
        reveal_strlit(": ");
        assert(sep@.len() == 2);
    }
    if contains(l, &vga) || contains(l, &d3) {
        match find(l, &sep) {
            Some(start) => {
                assert(crate::text::occurs_at(l@, sep@, start as int));
                let n = l.len();
                assert(start + 2 <= n);
                let rest = trim(&slice_of(l, start + 2, n));
                assert(l@.subrange(start + 2, l@.len() as int) =~= l@.skip(start + 2));
                let pieces = split_on(&rest, '(');
                proof {
                    crate::text::lemma_split_nonempty(rest@, sep_of('(', false));
                }
                Some(trim(&pieces[0]))
            },
            None => None,
        }
    } else {
        None
    }
}

fn lspci_name(out: &str) -> (r: Option<Vec<char>>)
    ensures
        match r {
            Some(n) => lspci_name_from(lines_spec(out@), 0) == Some(n@),
            None => lspci_name_from(lines_spec(out@), 0) is None,
        },
{
    let c = chars_of(out);
    let ls = lines(&c);
    let ghost lv = crate::text::views(ls@);
    let mut i: usize = 0;
    while i < ls.len()
        invariant
            i <= ls.len(),
            lv == crate::text::views(ls@),
            lv == lines_spec(out@),
            lspci_name_from(lv, 0) == lspci_name_from(lv, i as int),
        decreases ls.len() - i,
    {
        assert(lv[i as int] == ls@[i as int]@);
        match lspci_line_exec(&ls[i]) {
            Some(n) => {
                return Some(n);
            },
            None => {},
        }
        i = i + 1;
    }
    None
}

fn drm_value(f: &str) -> (r: Option<Vec<char>>)
    ensures
        match r {
            Some(v) => drm_line(lines_spec(f@), 0) == Some(v@),
            None => drm_line(lines_spec(f@), 0) is None,
        },
{
    let c = chars_of(f);
    let ls = lines(&c);
    let ghost lv = crate::text::views(ls@);
    let key = chars_of("DRM_DEVICE_NAME=");
    let mut j: usize = 0;
    while j < ls.len()
        invariant
            j <= ls.len(),
            lv == crate::text::views(ls@),
            lv == lines_spec(f@),
            key@ == "DRM_DEVICE_NAME="@,
            drm_line(lv, 0) == drm_line(lv, j as int),
        decreases ls.len() - j,
    {
        assert(lv[j as int] == ls@[j as int]@);
        if starts_with(&ls[j], &key) {
            return Some(trim_start_matches(&ls[j], &key));
        }
        j = j + 1;
    }
    None
}

/// The GPU name, from `lspci -v` output or the DRM `uevent` files.
pub fn gpu_name(lspci: Option<&str>, uevents: &Vec<Option<String>>) -> (r: String)
    ensures
        r@ == gpu_name_spec(
            match lspci {
                Some(s) => Some(s@),
                None => None,
            },
            uevents@,
        ),
{
    match lspci {
        Some(out) => match lspci_name(out) {
            Some(n) => {
                return string_of(&n);
            },
            None => {},
        },
        None => {},
    }
    let mut i: usize = 0;
    while i < uevents.len()
        invariant
            i <= uevents.len(),
            match lspci {
                Some(s) => lspci_name_from(lines_spec(s@), 0) is None,
                None => true,
            },
            drm_name_from(uevents@, 0) == drm_name_from(uevents@, i as int),
        decreases uevents.len() - i,
    {
        match &uevents[i] {
            Some(f) => match drm_value(f.as_str()) {
                Some(v) => {
                    return string_of(&v);
                },
                None => {},
            },
            None => {},
        }
        i = i + 1;
    }
    String::new()
}

/// The GPU line: from `nvidia-smi` CSV output (name, use, memory used,
/// memory total) when it succeeded with at least four `", "`-separated
/// fields; else from an AMD busy percentage; else the name alone; else `N/A`.
pub open spec fn gpu_info_spec(nvidia: Option<Seq<char>>, amd_busy: Option<Seq<char>>, name: Seq<char>) -> Seq<char> {
    let nv = match nvidia {
        Some(out) => if trim_spec(out).len() > 0 && split_str_spec(trim_spec(out), ", "@).len() >= 4 {
            let p = split_str_spec(trim_spec(out), ", "@);
            Some(p[0] + " | 使用："@ + p[1] + " | 显存："@ + p[2] + "/"@ + p[3])
        } else {
            None
        },
        None => None,
    };
    match nv {
        Some(t) => t,
        None => match amd_busy {
            Some(b) => if trim_spec(b).len() > 0 {
                name + " | 使用："@ + trim_spec(b) + "%"@
            } else if name.len() > 0 {
                name + " | 使用：N/A"@
            } else {
                "N/A"@
            },
            None => if name.len() > 0 {
                name + " | 使用：N/A"@
            } else {
                "N/A"@
            },
        },
    }
}

/// The GPU line, from the output of a successful `nvidia-smi` query, the
/// AMD `gpu_busy_percent` file, and the GPU name.
pub fn gpu_info_text(nvidia: Option<&str>, amd_busy: Option<&str>, name: &str) -> (r: String)
    ensures
        r@ == gpu_info_spec(
            match nvidia {
                Some(s) => Some(s@),
                None => None,
            },
            match amd_busy {
                Some(s) => Some(s@),
                None => None,
            },
            name@,
        ),
{
    proof {
        reveal_strlit(", ");
    }
    let ghost nv: Option<Seq<char>> = match nvidia {
        Some(s) => Some(s@),
        None => None,
    };
    let ghost ab: Option<Seq<char>> = match amd_busy {
        Some(s) => Some(s@),
        None => None,
    };
    match nvidia {
        Some(out) => {
            let c = chars_of(out);
            let t = trim(&c);
            if t.len() > 0 {
                let sep = chars_of(", ");
                let p = split_str(&t, &sep);
                let ghost pv = crate::text::views(p@);
                if p.len() >= 4 {
                    let mut v: Vec<char> = Vec::new();
                    push_str(&mut v, string_of(&p[0]).as_str());
                    push_str(&mut v, " | 使用：");
                    push_str(&mut v, string_of(&p[1]).as_str());
                    push_str(&mut v, " | 显存：");
                    push_str(&mut v, string_of(&p[2]).as_str());
                    push_str(&mut v, "/");
                    push_str(&mut v, string_of(&p[3]).as_str());
                    assert(v@ =~= pv[0] + " | 使用："@ + pv[1] + " | 显存："@ + pv[2] + "/"@ + pv[3]);
                    return string_of(&v);
                }
            }
        },
        None => {},
    }
    let r = amd_or_name(amd_busy, name);
    assert(r@ == gpu_info_spec(nv, ab, name@));
    r
}

fn amd_or_name(amd_busy: Option<&str>, name: &str) -> (r: String)
    ensures
        r@ == gpu_info_spec(
            None,
            match amd_busy {
                Some(s) => Some(s@),
                None => None,
            },
            name@,
        ),
{
    match amd_busy {
        Some(b) => {
            let c = chars_of(b);
            let t = trim(&c);
            if t.len() > 0 {
                let mut v: Vec<char> = Vec::new();
                push_str(&mut v, name);
                push_str(&mut v, " | 使用：");
                push_str(&mut v, string_of(&t).as_str());
                push_str(&mut v, "%");
                assert(v@ =~= name@ + " | 使用："@ + t@ + "%"@);
                return string_of(&v);
            }
        },
        None => {},
    }
    if !name.is_empty() {
        let mut v: Vec<char> = Vec::new();
        push_str(&mut v, name);
        push_str(&mut v, " | 使用：N/A");
        assert(v@ =~= name@ + " | 使用：N/A"@);
        string_of(&v)
    } else {
        "N/A".to_owned()
    }
}

/// Whether an adapter's `online` file says `1`.
pub open spec fn is_online(o: Option<String>) -> bool {
    match o {
        Some(s) => trim_spec(s@) == "1"@,
        None => false,
    }
}

/// The battery line: `<icon> <percent>% <plug><status>`, from the battery's
/// capacity and status files and the adapters' `online` files; `N/A` when
/// the capacity is missing or blank.
pub open spec fn battery_spec(capacity: Option<Seq<char>>, status: Option<Seq<char>>, online: Seq<Option<String>>) -> Seq<char> {
    let percent = match capacity {
        Some(c) => trim_spec(c),
        None => Seq::empty(),
    };
    let st = match status {
        Some(s) => trim_spec(s),
        None => Seq::empty(),
    };
    let plugged = exists|i: int| 0 <= i < online.len() && #[trigger] is_online(online[i]);
    if percent.len() == 0 {
        "N/A"@
    } else {
        let icon = if st == "Full"@ {
            "✓"@
        } else if st == "Charging"@ {
            "⚡"@
        } else if st == "Discharging"@ {
            "🔋"@
        } else if st == "Not charging"@ {
            "⏸️"@
        } else {
            "🔋"@
        };
        icon + " "@ + percent + "% "@ + (if plugged { "🔌"@ } else { Seq::empty() }) + st
    }
}

pub fn battery_info_text(capacity: Option<&str>, status: Option<&str>, online: &Vec<Option<String>>) -> (r: String)
    ensures
        r@ == battery_spec(
            match capacity {
                Some(s) => Some(s@),
                None => None,
            },
            match status {
                Some(s) => Some(s@),
                None => None,
            },
            online@,
        ),
{
    let percent: Vec<char> = match capacity {
        Some(c) => trim(&chars_of(c)),
        None => Vec::new(),
    };
    let st: String = match status {
        Some(s) => string_of(&trim(&chars_of(s))),
        None => String::new(),
    };
    let mut plugged = false;
    let mut i: usize = 0;
    while i < online.len() && !plugged
        invariant
            i <= online.len(),
            !plugged ==> forall|j: int| 0 <= j < i ==> !#[trigger] is_online(online@[j]),
            plugged ==> exists|j: int| 0 <= j < online@.len() && #[trigger] is_online(online@[j]),
        decreases online.len() - i,
    {
        match &online[i] {
            Some(o) => {
                let t = string_of(&trim(&chars_of(o.as_str())));
                if str_eq(t.as_str(), "1") {
                    assert(is_online(online@[i as int]));
                    plugged = true;
                }
            },
            None => {},
        }
        i = i + 1;
    }
    if percent.len() == 0 {
        return "N/A".to_owned();
    }
    let icon = if str_eq(st.as_str(), "Full") {
        "✓"
    } else if str_eq(st.as_str(), "Charging") {
        "⚡"
    } else if str_eq(st.as_str(), "Discharging") {
        "🔋"
    } else if str_eq(st.as_str(), "Not charging") {
        "⏸️"
    } else {
        "🔋"
    };
    let mut v: Vec<char> = Vec::new();
    push_str(&mut v, icon);
    push_str(&mut v, " ");
    push_str(&mut v, string_of(&percent).as_str());
    push_str(&mut v, "% ");
    push_str(&mut v, if plugged { "🔌" } else { "" });
    push_str(&mut v, st.as_str());
    assert(v@ =~= icon@ + " "@ + percent@ + "% "@ + (if plugged { "🔌"@ } else { ""@ }) + st@);
    proof {
        reveal_strlit("");
        assert(""@ =~= Seq::<char>::empty());
    }
    string_of(&v)
}

/// Where the power reading comes from.
#[derive(Debug, Clone, PartialEq, Eq)]
pub enum PowerSource {
    /// A monitor's `power1_input`, in microwatts.
    Micro(i64),
    /// A line of `amdgpu_pm_info` mentioning power, trimmed.
    Line(String),
    /// Nothing found: shown as `N/A`.
    Unknown,
}

/// The first monitor from `i` on whose `power1_input` holds a positive integer.
pub open spec fn first_positive_power(hw: Seq<HwmonReading>, i: int) -> Option<i64>
    decreases hw.len() - i,
{
    if i < 0 || i >= hw.len() {
        None
    } else {
        match file_i64(hw[i].power1_input) {
            Some(p) => if p > 0 {
                Some(p)
            } else {
                first_positive_power(hw, i + 1)
            },
            None => first_positive_power(hw, i + 1),
        }
    }
}

/// The first line from `j` on that mentions `power` or `Power`, trimmed.
pub open spec fn power_line_from(ls: Seq<Seq<char>>, j: int) -> Option<Seq<char>>
    decreases ls.len() - j,
{
    if j < 0 || j >= ls.len() {
        None
    } else if contains_spec(ls[j], "power"@) || contains_spec(ls[j], "Power"@) {
        Some(trim_spec(ls[j]))
    } else {
        power_line_from(ls, j + 1)
    }
}

/// The first monitor from `i` on whose name mentions `amdgpu` and whose
/// `power1_input` holds an integer.
pub open spec fn first_amd_power(hw: Seq<HwmonReading>, i: int) -> Option<i64>
    decreases hw.len() - i,
{
    if i < 0 || i >= hw.len() {
        None
    } else if (match hw[i].name {
        Some(n) => contains_spec(n@, "amdgpu"@),
        None => false,
    }) && file_i64(hw[i].power1_input) is Some {
        file_i64(hw[i].power1_input)
    } else {
        first_amd_power(hw, i + 1)
    }
}

/// A power reading as the triple that `power_spec` speaks of: whether it is
/// a microwatt number, that number, and the line of text otherwise.
pub open spec fn power_view(r: PowerSource) -> Option<(bool, i64, Seq<char>)> {
    match r {
        PowerSource::Micro(p) => Some((true, p, Seq::empty())),
        PowerSource::Line(s) => Some((false, 0, s@)),
        PowerSource::Unknown => None,
    }
}

pub open spec fn power_spec(hw: Seq<HwmonReading>, pm_info: Option<Seq<char>>) -> Option<(bool, i64, Seq<char>)> {
    match first_positive_power(hw, 0) {
        Some(p) => Some((true, p, Seq::empty())),
        None => match (match pm_info {
            Some(s) => power_line_from(lines_spec(s), 0),
            None => None,
        }) {
            Some(l) => Some((false, 0, l)),
            None => match first_amd_power(hw, 0) {
                Some(p) => Some((true, p, Seq::empty())),
                None => None,
            },
        },
    }
}

/// The power reading: the first monitor with a positive `power1_input`, else
/// the first power line of `amdgpu_pm_info`, else the first `amdgpu`
/// monitor's `power1_input`.
pub fn power_source(hw: &Vec<HwmonReading>, pm_info: Option<&str>) -> (r: PowerSource)
    ensures
        power_view(r) == power_spec(
            hw@,
            match pm_info {
                Some(s) => Some(s@),
                None => None,
            },
        ),
{
    let mut i: usize = 0;
    while i < hw.len()
        invariant
            i <= hw.len(),
            first_positive_power(hw@, 0) == first_positive_power(hw@, i as int),
        decreases hw.len() - i,
    {
        match read_file_i64(&hw[i].power1_input) {
            Some(p) => {
                if p > 0 {
                    return PowerSource::Micro(p);
                }
            },
            None => {},
        }
        i = i + 1;
    }
    match pm_info {
        Some(s) => {
            let c = chars_of(s);
            let ls = lines(&c);
            let ghost lv = crate::text::views(ls@);
            let lower = chars_of("power");
            let upper = chars_of("Power");
            let mut j: usize = 0;
            while j < ls.len()
                invariant
                    j <= ls.len(),
                    lv == crate::text::views(ls@),
                    lv == lines_spec(s@),
                    pm_info == Some(s),
                    lower@ == "power"@,
                    upper@ == "Power"@,
                    first_positive_power(hw@, 0) is None,
                    power_line_from(lv, 0) == power_line_from(lv, j as int),
                decreases ls.len() - j,
            {
                assert(lv[j as int] == ls@[j as int]@);
                if contains(&ls[j], &lower) || contains(&ls[j], &upper) {
                    let line = string_of(&trim(&ls[j]));
                    assert(power_line_from(lv, j as int) == Some(line@));
                    assert(power_line_from(lines_spec(s@), 0) == Some(line@));
                    assert(power_spec(hw@, Some(s@)) == Some((false, 0i64, line@)));
                    let r = PowerSource::Line(line);
                    return r;
                }
                j = j + 1;
            }
        },
        None => {},
    }
    let amd = chars_of("amdgpu");
    let mut k: usize = 0;
    while k < hw.len()
        invariant
            k <= hw.len(),
            amd@ == "amdgpu"@,
            first_positive_power(hw@, 0) is None,
            match pm_info {
                Some(s) => power_line_from(lines_spec(s@), 0) is None,
                None => true,
            },
            first_amd_power(hw@, 0) == first_amd_power(hw@, k as int),
        decreases hw.len() - k,
    {
        let named = match &hw[k].name {
            Some(n) => contains(&chars_of(n.as_str()), &amd),
            None => false,
        };
        if named {
            match read_file_i64(&hw[k].power1_input) {
                Some(p) => {
                    return PowerSource::Micro(p);
                },
                None => {},
            }
        }
        k = k + 1;
    }
    PowerSource::Unknown
}

fn read_file_i64(o: &Option<String>) -> (r: Option<i64>)
    ensures
        r == file_i64(*o),
{
    match o {
        Some(s) => parse_i64(&trim(&chars_of(s.as_str()))),
        None => None,
    }
}

/// The system information module.
pub struct SystemInfoModule {
    cpu_usage: String,
    memory_usage: String,
    memory_detail: String,
    disk_usage: String,
    gpu_info: String,
    battery_info: String,
    power_usage: String,
    last_update: String,
    refresh_interval: u64,
    paused: bool,
    prev_cpu_stats: Option<CpuStats>,
}

/// The texts the module shows.
pub struct SystemInfoTexts {
    pub cpu_usage: String,
    pub memory_usage: String,
    pub memory_detail: String,
    pub disk_usage: String,
    pub gpu_info: String,
    pub battery_info: String,
    pub power_usage: String,
}

impl SystemInfoModule {
    /// The texts shown, in the order of `SystemInfoTexts`.
    pub closed spec fn texts(&self) -> Seq<Seq<char>> {
        seq![
            self.cpu_usage@,
            self.memory_usage@,
            self.memory_detail@,
            self.disk_usage@,
            self.gpu_info@,
            self.battery_info@,
            self.power_usage@,
        ]
    }

    pub closed spec fn prev_stats(&self) -> Option<CpuStats> {
        self.prev_cpu_stats
    }

    pub closed spec fn last_update_text(&self) -> Seq<char> {
        self.last_update@
    }

    pub fn new(refresh_interval: u64) -> (r: Self)
        ensures
            r.texts() == seq!["N/A"@, "N/A"@, Seq::<char>::empty(), "N/A"@, "N/A"@, "N/A"@, "N/A"@],
            r.last_update_text() == Seq::<char>::empty(),
            r.prev_stats() is None,
            r.spec_stored_interval() == refresh_interval,
            !r.spec_paused(),
    {
        let r = SystemInfoModule {
            cpu_usage: "N/A".to_owned(),
            memory_usage: "N/A".to_owned(),
            memory_detail: String::new(),
            disk_usage: "N/A".to_owned(),
            gpu_info: "N/A".to_owned(),
            battery_info: "N/A".to_owned(),
            power_usage: "N/A".to_owned(),
            last_update: String::new(),
            refresh_interval,
            paused: false,
            prev_cpu_stats: None,
        };
        assert(r.texts() =~= seq!["N/A"@, "N/A"@, Seq::<char>::empty(), "N/A"@, "N/A"@, "N/A"@, "N/A"@]);
        r
    }

    /// Takes a CPU sample from the text of `/proc/stat` (when it could be
    /// read) and the milliseconds since the earlier sample was stored (when
    /// there is one). The first sample is stored; a later one is compared with
    /// the stored one, and replaces it unless it came within 50 ms.
    pub fn cpu_sample(&mut self, stat: Option<&str>, since_prev_ms: Option<u64>) -> (r: CpuSample)
        ensures
            ({
                let cur = match stat {
                    Some(s) => stat_line_spec(first_line(s@)),
                    None => None,
                };
                match cur {
                    None => r == CpuSample::Unavailable && final(self).prev_stats() == old(self).prev_stats(),
                    Some(c) => match (old(self).prev_stats(), since_prev_ms) {
                        (Some(p), Some(ms)) => r == CpuSample::Usage(p, c) && final(self).prev_stats() == (
                        if ms < 50 {
                            Some(p)
                        } else {
                            Some(c)
                        }),
                        _ => r == CpuSample::First && final(self).prev_stats() == Some(c),
                    },
                }
            }),
            final(self).texts() == old(self).texts(),
            final(self).last_update_text() == old(self).last_update_text(),
            final(self).spec_stored_interval() == old(self).spec_stored_interval(),
            final(self).spec_paused() == old(self).spec_paused(),
    {
        let content = match stat {
            Some(s) => s,
            None => {
                return CpuSample::Unavailable;
            },
        };
        let c = chars_of(content);
        let ls = lines(&c);
        let first: String = if ls.len() > 0 {
            string_of(&ls[0])
        } else {
            String::new()
        };
        let current = match CpuStats::from_stat_line(first.as_str()) {
            Some(s) => s,
            None => {
                return CpuSample::Unavailable;
            },
        };
        match (self.prev_cpu_stats, since_prev_ms) {
            (Some(prev), Some(ms)) => {
                if ms >= 50 {
                    self.prev_cpu_stats = Some(current);
                }
                CpuSample::Usage(prev, current)
            },
            _ => {
                self.prev_cpu_stats = Some(current);
                CpuSample::First
            },
        }
    }

    /// Whether `cpu_sample`, giving `sample` for `since_prev_ms`, stored the
    /// current counters (the first sample, or a later one at least 50 ms
    /// after the stored one): when to restart the clock of the stored sample.
    pub fn restarts_clock(sample: CpuSample, since_prev_ms: Option<u64>) -> (r: bool)
        ensures
            r == (match sample {
                CpuSample::First => true,
                CpuSample::Usage(_, _) => since_prev_ms matches Some(ms) && ms >= 50,
                CpuSample::Unavailable => false,
            }),
    {
        match sample {
            CpuSample::First => true,
            CpuSample::Usage(_, _) => match since_prev_ms {
                Some(ms) => ms >= 50,
                None => false,
            },
            CpuSample::Unavailable => false,
        }
    }

    /// Shows new texts, stamped with the local time.
    pub fn apply_texts(&mut self, t: SystemInfoTexts)
        ensures
            final(self).texts() == seq![
                t.cpu_usage@,
                t.memory_usage@,
                t.memory_detail@,
                t.disk_usage@,
                t.gpu_info@,
                t.battery_info@,
                t.power_usage@,
            ],
            is_hms(final(self).last_update_text()),
            final(self).prev_stats() == old(self).prev_stats(),
            final(self).spec_stored_interval() == old(self).spec_stored_interval(),
            final(self).spec_paused() == old(self).spec_paused(),
    {
        self.cpu_usage = t.cpu_usage;
        self.memory_usage = t.memory_usage;
        self.memory_detail = t.memory_detail;
        self.disk_usage = t.disk_usage;
        self.gpu_info = t.gpu_info;
        self.battery_info = t.battery_info;
        self.power_usage = t.power_usage;
        self.last_update = local_hms();
    }

    /// The result of an update: it always succeeds.
    pub fn update_result(&self) -> (r: ModuleUpdate)
        ensures
            r.id@ == "system_info"@,
            r.success,
            r.error is None,
    {
        ModuleUpdate { id: "system_info".to_owned(), success: true, error: None }
    }

    /// When the module last took its readings (`%H:%M:%S`), or nothing yet.
    pub fn last_update(&self) -> (r: &str)
        ensures
            r@ == self.last_update_text(),
    {
        self.last_update.as_str()
    }

    pub fn cpu_usage(&self) -> (r: &str)
        ensures
            r@ == self.texts()[0],
    {
        self.cpu_usage.as_str()
    }

    pub fn memory_usage(&self) -> (r: &str)
        ensures
            r@ == self.texts()[1],
    {
        self.memory_usage.as_str()
    }

    pub fn memory_detail(&self) -> (r: &str)
        ensures
            r@ == self.texts()[2],
    {
        self.memory_detail.as_str()
    }

    pub fn disk_usage(&self) -> (r: &str)
        ensures
            r@ == self.texts()[3],
    {
        self.disk_usage.as_str()
    }

    pub fn gpu_info(&self) -> (r: &str)
        ensures
            r@ == self.texts()[4],
    {
        self.gpu_info.as_str()
    }

    pub fn battery_info(&self) -> (r: &str)
        ensures
            r@ == self.texts()[5],
    {
        self.battery_info.as_str()
    }

    pub fn power_usage(&self) -> (r: &str)
        ensures
            r@ == self.texts()[6],
    {
        self.power_usage.as_str()
    }

    pub fn pause_line(&self) -> (r: String)
        ensures
            r@ == super::pause_label_spec(self.spec_paused(), self.spec_stored_interval()),
    {
        super::pause_label(self.paused, self.refresh_interval)
    }
}

impl PanelModule for SystemInfoModule {
    open spec fn spec_id(&self) -> Seq<char> {
        "system_info"@
    }

    open spec fn spec_name(&self) -> Seq<char> {
        "🖥️ 系统信息"@
    }

    closed spec fn spec_stored_interval(&self) -> u64 {
        self.refresh_interval
    }

    closed spec fn spec_paused(&self) -> bool {
        self.paused
    }

    open spec fn spec_height(&self) -> u16 {
        10
    }

    open spec fn spec_error(&self) -> Option<Seq<char>> {
        None
    }

    fn id(&self) -> (r: &str) {
        "system_info"
    }

    fn name(&self) -> (r: &str) {
        "🖥️ 系统信息"
    }

    fn refresh_interval(&self) -> (r: u64) {
        if self.paused {
            0
        } else {
            self.refresh_interval
        }
    }

    /// Sets the interval; a positive interval resumes, 0 leaves the pause
    /// switch as it was.
    fn set_refresh_interval(&mut self, interval: u64)
        ensures
            final(self).spec_paused() == (if interval > 0 { false } else { old(self).spec_paused() }),
    {
        self.refresh_interval = interval;
        if interval > 0 {
            self.paused = false;
        }
    }

    fn toggle_pause(&mut self) {
        self.paused = !self.paused;
    }

    fn height(&self) -> (r: u16) {
        10
    }

    fn get_error(&self) -> (r: Option<&str>) {
        None
    }
}

/// Whether an adapter's `online` file, trimmed, reads `1`.
pub open spec fn reads_one(o: Option<String>) -> bool {
    match o {
        Some(x) => trim_spec(x@) == seq!['1'],
        None => false,
    }
}

/// The battery line depends on the adapters only through whether one of
/// them reads `1`: two adapter lists that agree on that give the same line
/// (so adapters that read `0`, or cannot be read, change nothing).
pub proof fn law_battery_adapters_by_a_one(
    capacity: Option<Seq<char>>,
    status: Option<Seq<char>>,
    a: Seq<Option<String>>,
    b: Seq<Option<String>>,
)
    requires
        (exists|i: int| 0 <= i < a.len() && #[trigger] reads_one(a[i])) == (exists|j: int|
            0 <= j < b.len() && #[trigger] reads_one(b[j])),
    ensures
        battery_spec(capacity, status, a) == battery_spec(capacity, status, b),
{
    reveal_strlit("1");
    assert("1"@ =~= seq!['1']);
    assert forall|i: int| 0 <= i < a.len() implies is_online(a[i]) == #[trigger] reads_one(a[i]) by {}
    assert forall|i: int| 0 <= i < b.len() implies is_online(b[i]) == #[trigger] reads_one(b[i]) by {}
    let pa = exists|i: int| 0 <= i < a.len() && #[trigger] is_online(a[i]);
    let pb = exists|i: int| 0 <= i < b.len() && #[trigger] is_online(b[i]);
    if pa {
        let i = choose|i: int| 0 <= i < a.len() && #[trigger] is_online(a[i]);
        assert(reads_one(a[i]));
        let j = choose|j: int| 0 <= j < b.len() && #[trigger] reads_one(b[j]);
        assert(is_online(b[j]));
    }
    if pb {
        let j = choose|j: int| 0 <= j < b.len() && #[trigger] is_online(b[j]);
        assert(reads_one(b[j]));
        let i = choose|i: int| 0 <= i < a.len() && #[trigger] reads_one(a[i]);
        assert(is_online(a[i]));
    }
    assert(pa == pb);
}

/// With a battery reading, an adapter that reads `1` marks the line as
/// plugged in: the line differs from the one with no adapter.
pub proof fn law_battery_plug_shown(
    capacity: Seq<char>,
    status: Option<Seq<char>>,
    online: Seq<Option<String>>,
    i: int,
)
    requires
        trim_spec(capacity).len() > 0,
        0 <= i < online.len(),
        reads_one(online[i]),
    ensures
        battery_spec(Some(capacity), status, online) != battery_spec(
            Some(capacity),
            status,
            Seq::empty(),
        ),
{
    reveal_strlit("1");
    reveal_strlit("🔌");
    assert("1"@ =~= seq!['1']);
    assert(is_online(online[i]));
    let x = battery_spec(Some(capacity), status, online);
    let y = battery_spec(Some(capacity), status, Seq::empty());
    assert(x.len() == y.len() + "🔌"@.len());
}

} // verus!
