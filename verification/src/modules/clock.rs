//! The clock and calendar module.
use vstd::prelude::*;

use crate::localtime::{is_cn_date, is_hms, local_clock, ClockReading};
use crate::module_trait::{ModuleUpdate, PanelModule};
use crate::number::{decimal_spec, push_decimal};
use crate::text::{push_str, string_of};

verus! {

/// The clock: time, date, weekday and week number.
pub struct ClockModule {
    time: String,
    date: String,
    weekday: String,
    week_number: String,
    refresh_interval: u64,
    paused: bool,
}

/// The weekday shown for a day number: 0 is 星期日, 1 to 6 are 星期一 to
/// 星期六, any other number is 未知.
pub open spec fn weekday_name_spec(n: u32) -> Seq<char> {
    if n == 0 {
        "星期日"@
    } else if n == 1 {
        "星期一"@
    } else if n == 2 {
        "星期二"@
    } else if n == 3 {
        "星期三"@
    } else if n == 4 {
        "星期四"@
    } else if n == 5 {
        "星期五"@
    } else if n == 6 {
        "星期六"@
    } else {
        "未知"@
    }
}

pub fn weekday_name(n: u32) -> (r: &'static str)
    ensures
        r@ == weekday_name_spec(n),
{
    if n == 0 {
        "星期日"
    } else if n == 1 {
        "星期一"
    } else if n == 2 {
        "星期二"
    } else if n == 3 {
        "星期三"
    } else if n == 4 {
        "星期四"
    } else if n == 5 {
        "星期五"
    } else if n == 6 {
        "星期六"
    } else {
        "未知"
    }
}

/// The week label: 第<n>周.
pub open spec fn week_label_spec(n: u32) -> Seq<char> {
    "第"@ + decimal_spec(n as nat) + "周"@
}

impl ClockModule {
    pub closed spec fn time_text(&self) -> Seq<char> {
        self.time@
    }

    pub closed spec fn date_text(&self) -> Seq<char> {
        self.date@
    }

    pub closed spec fn weekday_text(&self) -> Seq<char> {
        self.weekday@
    }

    pub closed spec fn week_text(&self) -> Seq<char> {
        self.week_number@
    }

    pub fn new(refresh_interval: u64) -> (r: Self)
        ensures
            r.time_text() == Seq::<char>::empty(),
            r.date_text() == Seq::<char>::empty(),
            r.weekday_text() == Seq::<char>::empty(),
            r.week_text() == Seq::<char>::empty(),
            r.spec_stored_interval() == refresh_interval,
            !r.spec_paused(),
    {
        ClockModule {
            time: String::new(),
            date: String::new(),
            weekday: String::new(),
            week_number: String::new(),
            refresh_interval,
            paused: false,
        }
    }

    /// Shows a clock reading: its time and date, the weekday named by its day
    /// number counted from Sunday = 1, and its week number.
    pub fn apply_reading(&mut self, reading: ClockReading)
        ensures
            final(self).time_text() == reading.time@,
            final(self).date_text() == reading.date@,
            final(self).weekday_text() == weekday_name_spec(reading.weekday_from_sunday),
            final(self).week_text() == week_label_spec(reading.iso_week),
            final(self).spec_stored_interval() == old(self).spec_stored_interval(),
            final(self).spec_paused() == old(self).spec_paused(),
    {
        self.weekday = weekday_name(reading.weekday_from_sunday).to_owned();
        let mut w: Vec<char> = Vec::new();
        push_str(&mut w, "第");
        push_decimal(&mut w, reading.iso_week as u64);
        push_str(&mut w, "周");
        self.week_number = string_of(&w);
        self.time = reading.time;
        self.date = reading.date;
    }

    /// Reads the local clock and shows it.
    pub fn update_info(&mut self)
        ensures
            is_hms(final(self).time_text()),
            is_cn_date(final(self).date_text()),
            exists|n: u32| 1 <= n <= 7 && final(self).weekday_text() == weekday_name_spec(n),
            exists|w: u32| 1 <= w <= 53 && final(self).week_text() == week_label_spec(w),
            final(self).spec_stored_interval() == old(self).spec_stored_interval(),
            final(self).spec_paused() == old(self).spec_paused(),
    {
        let reading = local_clock();
        let ghost n = reading.weekday_from_sunday;
        let ghost w = reading.iso_week;
        self.apply_reading(reading);
        assert(1 <= n <= 7 && self.weekday_text() == weekday_name_spec(n));
        assert(1 <= w <= 53 && self.week_text() == week_label_spec(w));
    }

    /// Updates the module: it always succeeds.
    pub fn update(&mut self) -> (r: ModuleUpdate)
        ensures
            r.id@ == "clock"@,
            r.success,
            r.error is None,
            is_hms(final(self).time_text()),
            is_cn_date(final(self).date_text()),
            exists|n: u32| 1 <= n <= 7 && final(self).weekday_text() == weekday_name_spec(n),
            exists|w: u32| 1 <= w <= 53 && final(self).week_text() == week_label_spec(w),
            final(self).spec_stored_interval() == old(self).spec_stored_interval(),
            final(self).spec_paused() == old(self).spec_paused(),
    {
        self.update_info();
        ModuleUpdate { id: "clock".to_owned(), success: true, error: None }
    }

    pub fn time(&self) -> (r: &str)
        ensures
            r@ == self.time_text(),
    {
        self.time.as_str()
    }

    pub fn date(&self) -> (r: &str)
        ensures
            r@ == self.date_text(),
    {
        self.date.as_str()
    }

    pub fn weekday(&self) -> (r: &str)
        ensures
            r@ == self.weekday_text(),
    {
        self.weekday.as_str()
    }

    pub fn week_number(&self) -> (r: &str)
        ensures
            r@ == self.week_text(),
    {
        self.week_number.as_str()
    }

    /// The pause line.
    pub fn pause_line(&self) -> (r: String)
        ensures
            r@ == super::pause_label_spec(self.spec_paused(), self.spec_stored_interval()),
    {
        super::pause_label(self.paused, self.refresh_interval)
    }
}

impl PanelModule for ClockModule {
    open spec fn spec_id(&self) -> Seq<char> {
        "clock"@
    }

    open spec fn spec_name(&self) -> Seq<char> {
        "🕐 时钟日历"@
    }

    closed spec fn spec_stored_interval(&self) -> u64 {
        self.refresh_interval
    }

    closed spec fn spec_paused(&self) -> bool {
        self.paused
    }

    open spec fn spec_height(&self) -> u16 {
        7
    }

    open spec fn spec_error(&self) -> Option<Seq<char>> {
        None
    }

    fn id(&self) -> (r: &str) {
        "clock"
    }

    fn name(&self) -> (r: &str) {
        "🕐 时钟日历"
    }

    fn refresh_interval(&self) -> (r: u64) {
        if self.paused {
            0
        } else {
            self.refresh_interval
        }
    }

    /// Sets the interval; 0 pauses, any other interval resumes.
    fn set_refresh_interval(&mut self, interval: u64)
        ensures
            final(self).spec_paused() == (interval == 0),
    {
        self.refresh_interval = interval;
        self.paused = interval == 0;
    }

    fn toggle_pause(&mut self) {
        self.paused = !self.paused;
    }

    fn height(&self) -> (r: u16) {
        7
    }

    fn get_error(&self) -> (r: Option<&str>) {
        None
    }
}

/// The weekday names follow the day number counted from Sunday = 0: 0 to 6
/// name 星期日, 星期一, 星期二, 星期三, 星期四, 星期五, 星期六 in that order,
/// each number its own day; every other number is 未知.
pub proof fn law_weekday_names(n: u32, m: u32)
    ensures
        n <= 6 ==> weekday_name_spec(n) == seq![
            "星期日"@,
            "星期一"@,
            "星期二"@,
            "星期三"@,
            "星期四"@,
            "星期五"@,
            "星期六"@,
        ][n as int],
        n > 6 ==> weekday_name_spec(n) == "未知"@,
        n <= 6 && m <= 6 && n != m ==> weekday_name_spec(n) != weekday_name_spec(m),
{
    reveal_strlit("星期日");
    reveal_strlit("星期一");
    reveal_strlit("星期二");
    reveal_strlit("星期三");
    reveal_strlit("星期四");
    reveal_strlit("星期五");
    reveal_strlit("星期六");
    if n <= 6 && m <= 6 && n != m {
        assert(weekday_name_spec(n)[2] != weekday_name_spec(m)[2]);
    }
}

} // verus!
