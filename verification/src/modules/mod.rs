//! The built-in modules.
use vstd::prelude::*;

use crate::number::{decimal_spec, push_decimal};
use crate::text::{push_str, string_of};

pub mod any;
pub mod clock;
pub mod deepseek_balance;
pub mod network_monitor;
pub mod system_info;
pub mod system_temp;
pub mod web_api;

pub use any::AnyModule;
pub use clock::ClockModule;
pub use deepseek_balance::DeepSeekBalanceModule;
pub use network_monitor::NetworkMonitorModule;
pub use system_info::SystemInfoModule;
pub use system_temp::SystemTempModule;
pub use web_api::WebApiModule;

verus! {

/// The line every module shows under its data: paused, or how often it
/// refreshes.
pub open spec fn pause_label_spec(paused: bool, interval: u64) -> Seq<char> {
    if paused {
        "⏸️ 已暂停"@
    } else {
        "🕐 每"@ + decimal_spec(interval as nat) + "秒刷新"@
    }
}

pub fn pause_label(paused: bool, interval: u64) -> (r: String)
    ensures
        r@ == pause_label_spec(paused, interval),
{
    if paused {
        "⏸️ 已暂停".to_owned()
    } else {
        let mut v: Vec<char> = Vec::new();
        push_str(&mut v, "🕐 每");
        push_decimal(&mut v, interval);
        push_str(&mut v, "秒刷新");
        string_of(&v)
    }
}

} // verus!
