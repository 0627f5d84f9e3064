//! The temperature and fan module.
use vstd::prelude::*;

use crate::localtime::{is_hms, local_hms};
use crate::module_trait::{ModuleUpdate, PanelModule};
use crate::number::{int_decimal_spec, parse_i32, parse_i32_spec, parse_i64, parse_i64_spec, push_int_decimal};
use crate::text::{chars_of, contains, contains_spec, lowercase, push_str, string_of, to_lowercase, trim, trim_spec, str_eq};

verus! {

/// What one hardware monitor (`/sys/class/hwmon/*`) offers: the files the
/// panel reads, each when it could be read.
#[derive(Debug)]
pub struct HwmonReading {
    pub name: Option<String>,
    pub temp1_input: Option<String>,
    pub fan1_input: Option<String>,
    pub power1_input: Option<String>,
}

/// What one thermal zone (`/sys/class/thermal/*`) offers.
#[derive(Debug)]
pub struct ThermalReading {
    pub zone_type: Option<String>,
    pub temp: Option<String>,
}

/// The view of an optional text.
pub open spec fn opt_view(o: Option<String>) -> Option<Seq<char>> {
    match o {
        Some(s) => Some(s@),
        None => None,
    }
}

/// The value of a file holding an integer (surrounding whitespace allowed).
pub open spec fn file_i64(o: Option<String>) -> Option<i64> {
    match o {
        Some(s) => parse_i64_spec(trim_spec(s@)),
        None => None,
    }
}

/// The trimmed, lowercased name of a monitor.
pub open spec fn monitor_name(e: HwmonReading) -> Option<Seq<char>> {
    match e.name {
        Some(s) => Some(lowercase(trim_spec(s@))),
        None => None,
    }
}

/// Whether a monitor's name holds one of `keys`.
pub open spec fn name_has_any(e: HwmonReading, keys: Seq<Seq<char>>) -> bool {
    match monitor_name(e) {
        Some(n) => exists|k: int| 0 <= k < keys.len() && contains_spec(n, keys[k]),
        None => false,
    }
}

/// The first monitor from `i` on whose name holds one of `keys` and whose
/// `temp1_input` holds an integer: that integer.
pub open spec fn first_monitor_temp(hw: Seq<HwmonReading>, keys: Seq<Seq<char>>, i: int) -> Option<i64>
    decreases hw.len() - i,
{
    if i < 0 || i >= hw.len() {
        None
    } else if name_has_any(hw[i], keys) && file_i64(hw[i].temp1_input) is Some {
        file_i64(hw[i].temp1_input)
    } else {
        first_monitor_temp(hw, keys, i + 1)
    }
}

/// The first thermal zone from `i` on of type `x86_pkg` or `cpu` whose
/// `temp` holds an integer: that integer.
pub open spec fn first_zone_temp(zones: Seq<ThermalReading>, i: int) -> Option<i64>
    decreases zones.len() - i,
{
    if i < 0 || i >= zones.len() {
        None
    } else if (match zones[i].zone_type {
        Some(t) => trim_spec(t@) == "x86_pkg"@ || trim_spec(t@) == "cpu"@,
        None => false,
    }) && file_i64(zones[i].temp) is Some {
        file_i64(zones[i].temp)
    } else {
        first_zone_temp(zones, i + 1)
    }
}

/// The CPU temperature in millidegrees: from the monitors named for CPUs,
/// else from the thermal zones.
pub open spec fn cpu_temp_spec(hw: Seq<HwmonReading>, zones: Seq<ThermalReading>) -> Option<i64> {
    match first_monitor_temp(hw, cpu_keys(), 0) {
        Some(t) => Some(t),
        None => first_zone_temp(zones, 0),
    }
}

pub open spec fn cpu_keys() -> Seq<Seq<char>> {
    seq!["coretemp"@, "k10temp"@, "zenpower"@]
}

pub open spec fn gpu_keys() -> Seq<Seq<char>> {
    seq!["amdgpu"@]
}

pub open spec fn board_keys() -> Seq<Seq<char>> {
    seq!["nct"@, "it87"@, "acpitz"@]
}

fn read_i64(o: &Option<String>) -> (r: Option<i64>)
    ensures
        r == file_i64(*o),
{
    match o {
        Some(s) => {
            let c = chars_of(s.as_str());
            let t = trim(&c);
            parse_i64(&t)
        },
        None => None,
    }
}

fn name_matches(e: &HwmonReading, keys: &Vec<&str>) -> (r: bool)
    ensures
        r == name_has_any(*e, keys@.map_values(|k: &str| k@)),
{
    let ghost ks = keys@.map_values(|k: &str| k@);
    match &e.name {
        Some(n) => {
            let c = chars_of(n.as_str());
            let t = string_of(&trim(&c));
            let low = to_lowercase(t.as_str());
            let lc = chars_of(low.as_str());
            let mut k: usize = 0;
            while k < keys.len()
                invariant
                    k <= keys.len(),
                    ks == keys@.map_values(|k: &str| k@),
                    lc@ == lowercase(trim_spec(n@)),
                    monitor_name(*e) == Some(lc@),
                    forall|j: int| 0 <= j < k ==> !contains_spec(lc@, ks[j]),
                decreases keys.len() - k,
            {
                let key = chars_of(keys[k]);
                if contains(&lc, &key) {
                    assert(ks[k as int] == key@);
                    assert(0 <= k < ks.len() && contains_spec(lc@, ks[k as int]));
                    assert(exists|j: int| 0 <= j < ks.len() && contains_spec(lc@, ks[j]));
                    return true;
                }
                k = k + 1;
            }
            false
        },
        None => false,
    }
}

/// The temperature (millidegrees) of the first monitor named by one of
/// `keys` that reports one.
fn monitor_temp(hw: &Vec<HwmonReading>, keys: &Vec<&str>) -> (r: Option<i64>)
    ensures
        r == first_monitor_temp(hw@, keys@.map_values(|k: &str| k@), 0),
{
    let ghost ks = keys@.map_values(|k: &str| k@);
    let mut i: usize = 0;
    while i < hw.len()
        invariant
            i <= hw.len(),
            ks == keys@.map_values(|k: &str| k@),
            first_monitor_temp(hw@, ks, 0) == first_monitor_temp(hw@, ks, i as int),
        decreases hw.len() - i,
    {
        if name_matches(&hw[i], keys) {
            let t = read_i64(&hw[i].temp1_input);
            if t.is_some() {
                return t;
            }
        }
        i = i + 1;
    }
    None
}

/// The CPU temperature (millidegrees): from the first `coretemp`, `k10temp`
/// or `zenpower` monitor that reports one, else from the first `x86_pkg` or
/// `cpu` thermal zone that reports one.
pub fn cpu_temp_milli(hw: &Vec<HwmonReading>, zones: &Vec<ThermalReading>) -> (r: Option<i64>)
    ensures
        r == cpu_temp_spec(hw@, zones@),
{
    let keys = vec!["coretemp", "k10temp", "zenpower"];
    assert(keys@.map_values(|k: &str| k@) =~= cpu_keys());
    match monitor_temp(hw, &keys) {
        Some(t) => Some(t),
        None => {
            let mut i: usize = 0;
            while i < zones.len()
                invariant
                    i <= zones.len(),
                    first_monitor_temp(hw@, cpu_keys(), 0) is None,
                    first_zone_temp(zones@, 0) == first_zone_temp(zones@, i as int),
                decreases zones.len() - i,
            {
                let kind = match &zones[i].zone_type {
                    Some(t) => {
                        let c = chars_of(t.as_str());
                        let tt = string_of(&trim(&c));
                        str_eq(tt.as_str(), "x86_pkg") || str_eq(tt.as_str(), "cpu")
                    },
                    None => false,
                };
                if kind {
                    let t = read_i64(&zones[i].temp);
                    if t.is_some() {
                        return t;
                    }
                }
                i = i + 1;
            }
            None
        },
    }
}

/// The GPU temperature, as the module finds it.
#[derive(Debug, Clone, Copy, PartialEq, Eq, Structural)]
pub enum GpuTemp {
    /// From an `amdgpu` monitor, in millidegrees.
    Milli(i64),
    /// From `nvidia-smi`, in whole degrees.
    Whole(i32),
    /// Not found.
    Unknown,
}

/// The GPU temperature: from the first `amdgpu` monitor that reports one,
/// else the whole number that `nvidia-smi` printed (surrounding whitespace
/// allowed), when it ran.
pub fn gpu_temp(hw: &Vec<HwmonReading>, nvidia_stdout: &Option<String>) -> (r: GpuTemp)
    ensures
        r == (match first_monitor_temp(hw@, gpu_keys(), 0) {
            Some(t) => GpuTemp::Milli(t),
            None => match nvidia_stdout {
                Some(out) => match parse_i32_spec(trim_spec(out@)) {
                    Some(t) => GpuTemp::Whole(t),
                    None => GpuTemp::Unknown,
                },
                None => GpuTemp::Unknown,
            },
        }),
{
    let keys = vec!["amdgpu"];
    assert(keys@.map_values(|k: &str| k@) =~= gpu_keys());
    match monitor_temp(hw, &keys) {
        Some(t) => GpuTemp::Milli(t),
        None => match nvidia_stdout {
            Some(out) => {
                let c = chars_of(out.as_str());
                match parse_i32(&trim(&c)) {
                    Some(t) => GpuTemp::Whole(t),
                    None => GpuTemp::Unknown,
                }
            },
            None => GpuTemp::Unknown,
        },
    }
}

/// The motherboard temperature (millidegrees): from the first `nct`, `it87`
/// or `acpitz` monitor that reports one.
pub fn motherboard_temp_milli(hw: &Vec<HwmonReading>) -> (r: Option<i64>)
    ensures
        r == first_monitor_temp(hw@, board_keys(), 0),
{
    let keys = vec!["nct", "it87", "acpitz"];
    assert(keys@.map_values(|k: &str| k@) =~= board_keys());
    monitor_temp(hw, &keys)
}

/// The first monitor from `i` on whose `fan1_input` holds a positive `i32`.
pub open spec fn first_fan(hw: Seq<HwmonReading>, i: int) -> Option<i32>
    decreases hw.len() - i,
{
    if i < 0 || i >= hw.len() {
        None
    } else {
        match hw[i].fan1_input {
            Some(s) => match parse_i32_spec(trim_spec(s@)) {
                Some(rpm) => if rpm > 0 {
                    Some(rpm)
                } else {
                    first_fan(hw, i + 1)
                },
                None => first_fan(hw, i + 1),
            },
            None => first_fan(hw, i + 1),
        }
    }
}

/// The fan speed: `<rpm> RPM` from the first monitor whose fan turns, else
/// `N/A`.
pub fn fan_speed_text(hw: &Vec<HwmonReading>) -> (r: String)
    ensures
        r@ == (match first_fan(hw@, 0) {
            Some(rpm) => int_decimal_spec(rpm as int) + " RPM"@,
            None => "N/A"@,
        }),
{
    let mut i: usize = 0;
    while i < hw.len()
        invariant
            i <= hw.len(),
            first_fan(hw@, 0) == first_fan(hw@, i as int),
        decreases hw.len() - i,
    {
        match &hw[i].fan1_input {
            Some(s) => {
                let c = chars_of(s.as_str());
                match parse_i32(&trim(&c)) {
                    Some(rpm) => {
                        if rpm > 0 {
                            let mut v: Vec<char> = Vec::new();
                            push_int_decimal(&mut v, rpm as i64);
                            push_str(&mut v, " RPM");
                            return string_of(&v);
                        }
                    },
                    None => {},
                }
            },
            None => {},
        }
        i = i + 1;
    }
    "N/A".to_owned()
}

/// A whole-degree temperature: `<t>°C`.
pub fn whole_degrees_text(t: i32) -> (r: String)
    ensures
        r@ == int_decimal_spec(t as int) + "°C"@,
{
    let mut v: Vec<char> = Vec::new();
    push_int_decimal(&mut v, t as i64);
    push_str(&mut v, "°C");
    string_of(&v)
}

/// The temperature and fan module.
pub struct SystemTempModule {
    cpu_temp: String,
    gpu_temp: String,
    motherboard_temp: String,
    fan_speed: String,
    last_update: String,
    error: Option<String>,
    refresh_interval: u64,
    paused: bool,
}

impl SystemTempModule {
    pub closed spec fn readings(&self) -> (Seq<char>, Seq<char>, Seq<char>, Seq<char>) {
        (self.cpu_temp@, self.gpu_temp@, self.motherboard_temp@, self.fan_speed@)
    }

    pub closed spec fn last_update_text(&self) -> Seq<char> {
        self.last_update@
    }

    pub fn new(refresh_interval: u64) -> (r: Self)
        ensures
            r.readings() == ("N/A"@, "N/A"@, "N/A"@, "N/A"@),
            r.last_update_text() == Seq::<char>::empty(),
            r.spec_error() is None,
            r.spec_stored_interval() == refresh_interval,
            !r.spec_paused(),
    {
        SystemTempModule {
            cpu_temp: "N/A".to_owned(),
            gpu_temp: "N/A".to_owned(),
            motherboard_temp: "N/A".to_owned(),
            fan_speed: "N/A".to_owned(),
            last_update: String::new(),
            error: None,
            refresh_interval,
            paused: false,
        }
    }

    /// Shows new readings, stamped with the local time; clears the error.
    pub fn apply_readings(&mut self, cpu: String, gpu: String, board: String, fan: String)
        ensures
            final(self).readings() == (cpu@, gpu@, board@, fan@),
            is_hms(final(self).last_update_text()),
            final(self).spec_error() is None,
            final(self).spec_stored_interval() == old(self).spec_stored_interval(),
            final(self).spec_paused() == old(self).spec_paused(),
    {
        self.cpu_temp = cpu;
        self.gpu_temp = gpu;
        self.motherboard_temp = board;
        self.fan_speed = fan;
        self.last_update = local_hms();
        self.error = None;
    }

    /// The result of an update: it always succeeds.
    pub fn update_result(&self) -> (r: ModuleUpdate)
        ensures
            r.id@ == "system_temp"@,
            r.success,
            r.error is None,
    {
        ModuleUpdate { id: "system_temp".to_owned(), success: true, error: None }
    }

    /// When the module last took its readings (`%H:%M:%S`), or nothing yet.
    pub fn last_update(&self) -> (r: &str)
        ensures
            r@ == self.last_update_text(),
    {
        self.last_update.as_str()
    }

    pub fn cpu_temp(&self) -> (r: &str)
        ensures
            r@ == self.readings().0,
    {
        self.cpu_temp.as_str()
    }

    pub fn gpu_temp(&self) -> (r: &str)
        ensures
            r@ == self.readings().1,
    {
        self.gpu_temp.as_str()
    }

    pub fn motherboard_temp(&self) -> (r: &str)
        ensures
            r@ == self.readings().2,
    {
        self.motherboard_temp.as_str()
    }

    pub fn fan_speed(&self) -> (r: &str)
        ensures
            r@ == self.readings().3,
    {
        self.fan_speed.as_str()
    }

    pub fn pause_line(&self) -> (r: String)
        ensures
            r@ == super::pause_label_spec(self.spec_paused(), self.spec_stored_interval()),
    {
        super::pause_label(self.paused, self.refresh_interval)
    }
}

impl PanelModule for SystemTempModule {
    open spec fn spec_id(&self) -> Seq<char> {
        "system_temp"@
    }

    open spec fn spec_name(&self) -> Seq<char> {
        "🌡️ 系统温度"@
    }

    closed spec fn spec_stored_interval(&self) -> u64 {
        self.refresh_interval
    }

    closed spec fn spec_paused(&self) -> bool {
        self.paused
    }

    open spec fn spec_height(&self) -> u16 {
        8
    }

    closed spec fn spec_error(&self) -> Option<Seq<char>> {
        match self.error {
            Some(e) => Some(e@),
            None => None,
        }
    }

    fn id(&self) -> (r: &str) {
        "system_temp"
    }

    fn name(&self) -> (r: &str) {
        "🌡️ 系统温度"
    }

    fn refresh_interval(&self) -> (r: u64) {
        if self.paused {
            0
        } else {
            self.refresh_interval
        }
    }

    /// Sets the interval; 0 pauses, any other interval resumes.
    fn set_refresh_interval(&mut self, interval: u64)
        ensures
            final(self).spec_paused() == (interval == 0),
    {
        self.refresh_interval = interval;
        self.paused = interval == 0;
    }

    fn toggle_pause(&mut self) {
        self.paused = !self.paused;
    }

    fn height(&self) -> (r: u16) {
        8
    }

    fn get_error(&self) -> (r: Option<&str>) {
        match &self.error {
            Some(e) => Some(e.as_str()),
            None => None,
        }
    }
}

/// Whether a monitor is named for a CPU (Intel `coretemp`, AMD `k10temp`
/// or `zenpower`) and reports an integer `temp1_input`.
pub open spec fn cpu_monitor_reading(e: HwmonReading) -> bool {
    &&& match monitor_name(e) {
        Some(n) => contains_spec(n, "coretemp"@) || contains_spec(n, "k10temp"@) || contains_spec(
            n,
            "zenpower"@,
        ),
        None => false,
    }
    &&& file_i64(e.temp1_input) is Some
}

proof fn lemma_cpu_keys(e: HwmonReading)
    ensures
        (name_has_any(e, cpu_keys()) && file_i64(e.temp1_input) is Some) == cpu_monitor_reading(e),
{
    let keys = cpu_keys();
    match monitor_name(e) {
        Some(n) => {
            if contains_spec(n, "coretemp"@) {
                assert(keys[0] == "coretemp"@);
            }
            if contains_spec(n, "k10temp"@) {
                assert(keys[1] == "k10temp"@);
            }
            if contains_spec(n, "zenpower"@) {
                assert(keys[2] == "zenpower"@);
            }
            if name_has_any(e, keys) {
                let k = choose|k: int| 0 <= k < keys.len() && contains_spec(n, keys[k]);
                assert(k == 0 || k == 1 || k == 2);
            }
        },
        None => {},
    }
}

proof fn lemma_first_cpu_monitor(hw: Seq<HwmonReading>, i: int, j: int)
    requires
        0 <= j <= i < hw.len(),
        cpu_monitor_reading(hw[i]),
        forall|k: int| 0 <= k < i ==> !cpu_monitor_reading(#[trigger] hw[k]),
    ensures
        first_monitor_temp(hw, cpu_keys(), j) == file_i64(hw[i].temp1_input),
    decreases i - j,
{
    lemma_cpu_keys(hw[j]);
    if j < i {
        lemma_first_cpu_monitor(hw, i, j + 1);
    }
}

/// The CPU temperature is that of the first monitor named for a CPU
/// (`coretemp`, `k10temp` or `zenpower`, in any case and with surrounding
/// whitespace) that reports an integer `temp1_input`; the thermal zones
/// count only when there is no such monitor.
pub proof fn law_cpu_temp_from_first_cpu_monitor(
    hw: Seq<HwmonReading>,
    zones: Seq<ThermalReading>,
    i: int,
)
    requires
        0 <= i < hw.len(),
        cpu_monitor_reading(hw[i]),
        forall|k: int| 0 <= k < i ==> !cpu_monitor_reading(#[trigger] hw[k]),
    ensures
        cpu_temp_spec(hw, zones) == file_i64(hw[i].temp1_input),
        cpu_temp_spec(hw, zones) is Some,
{
    lemma_first_cpu_monitor(hw, i, 0);
}

} // verus!
