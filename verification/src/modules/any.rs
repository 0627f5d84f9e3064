//! Any one of the built-in modules, so that a panel can hold them together.
use vstd::prelude::*;

use crate::module_trait::PanelModule;
use crate::modules::{
    ClockModule, DeepSeekBalanceModule, NetworkMonitorModule, SystemInfoModule, SystemTempModule,
    WebApiModule,
};

verus! {

/// One of the built-in modules.
pub enum AnyModule {
    DeepSeek(DeepSeekBalanceModule),
    SystemInfo(SystemInfoModule),
    Network(NetworkMonitorModule),
    Temp(SystemTempModule),
    Clock(ClockModule),
    Web(WebApiModule),
}

impl PanelModule for AnyModule {
    open spec fn spec_id(&self) -> Seq<char> {
        match self {
            AnyModule::DeepSeek(m) => m.spec_id(),
            AnyModule::SystemInfo(m) => m.spec_id(),
            AnyModule::Network(m) => m.spec_id(),
            AnyModule::Temp(m) => m.spec_id(),
            AnyModule::Clock(m) => m.spec_id(),
            AnyModule::Web(m) => m.spec_id(),
        }
    }

    open spec fn spec_name(&self) -> Seq<char> {
        match self {
            AnyModule::DeepSeek(m) => m.spec_name(),
            AnyModule::SystemInfo(m) => m.spec_name(),
            AnyModule::Network(m) => m.spec_name(),
            AnyModule::Temp(m) => m.spec_name(),
            AnyModule::Clock(m) => m.spec_name(),
            AnyModule::Web(m) => m.spec_name(),
        }
    }

    open spec fn spec_stored_interval(&self) -> u64 {
        match self {
            AnyModule::DeepSeek(m) => m.spec_stored_interval(),
            AnyModule::SystemInfo(m) => m.spec_stored_interval(),
            AnyModule::Network(m) => m.spec_stored_interval(),
            AnyModule::Temp(m) => m.spec_stored_interval(),
            AnyModule::Clock(m) => m.spec_stored_interval(),
            AnyModule::Web(m) => m.spec_stored_interval(),
        }
    }

    open spec fn spec_paused(&self) -> bool {
        match self {
            AnyModule::DeepSeek(m) => m.spec_paused(),
            AnyModule::SystemInfo(m) => m.spec_paused(),
            AnyModule::Network(m) => m.spec_paused(),
            AnyModule::Temp(m) => m.spec_paused(),
            AnyModule::Clock(m) => m.spec_paused(),
            AnyModule::Web(m) => m.spec_paused(),
        }
    }

    open spec fn spec_height(&self) -> u16 {
        match self {
            AnyModule::DeepSeek(m) => m.spec_height(),
            AnyModule::SystemInfo(m) => m.spec_height(),
            AnyModule::Network(m) => m.spec_height(),
            AnyModule::Temp(m) => m.spec_height(),
            AnyModule::Clock(m) => m.spec_height(),
            AnyModule::Web(m) => m.spec_height(),
        }
    }

    open spec fn spec_error(&self) -> Option<Seq<char>> {
        match self {
            AnyModule::DeepSeek(m) => m.spec_error(),
            AnyModule::SystemInfo(m) => m.spec_error(),
            AnyModule::Network(m) => m.spec_error(),
            AnyModule::Temp(m) => m.spec_error(),
            AnyModule::Clock(m) => m.spec_error(),
            AnyModule::Web(m) => m.spec_error(),
        }
    }

    fn id(&self) -> (r: &str) {
        match self {
            AnyModule::DeepSeek(m) => m.id(),
            AnyModule::SystemInfo(m) => m.id(),
            AnyModule::Network(m) => m.id(),
            AnyModule::Temp(m) => m.id(),
            AnyModule::Clock(m) => m.id(),
            AnyModule::Web(m) => m.id(),
        }
    }

    fn name(&self) -> (r: &str) {
        match self {
            AnyModule::DeepSeek(m) => m.name(),
            AnyModule::SystemInfo(m) => m.name(),
            AnyModule::Network(m) => m.name(),
            AnyModule::Temp(m) => m.name(),
            AnyModule::Clock(m) => m.name(),
            AnyModule::Web(m) => PanelModule::name(m),
        }
    }

    fn refresh_interval(&self) -> (r: u64) {
        match self {
            AnyModule::DeepSeek(m) => m.refresh_interval(),
            AnyModule::SystemInfo(m) => m.refresh_interval(),
            AnyModule::Network(m) => m.refresh_interval(),
            AnyModule::Temp(m) => m.refresh_interval(),
            AnyModule::Clock(m) => m.refresh_interval(),
            AnyModule::Web(m) => m.refresh_interval(),
        }
    }

    fn set_refresh_interval(&mut self, interval: u64) {
        match self {
            AnyModule::DeepSeek(m) => m.set_refresh_interval(interval),
            AnyModule::SystemInfo(m) => m.set_refresh_interval(interval),
            AnyModule::Network(m) => m.set_refresh_interval(interval),
            AnyModule::Temp(m) => m.set_refresh_interval(interval),
            AnyModule::Clock(m) => m.set_refresh_interval(interval),
            AnyModule::Web(m) => m.set_refresh_interval(interval),
        }
    }

    fn toggle_pause(&mut self) {
        match self {
            AnyModule::DeepSeek(m) => m.toggle_pause(),
            AnyModule::SystemInfo(m) => m.toggle_pause(),
            AnyModule::Network(m) => m.toggle_pause(),
            AnyModule::Temp(m) => m.toggle_pause(),
            AnyModule::Clock(m) => m.toggle_pause(),
            AnyModule::Web(m) => m.toggle_pause(),
        }
    }

    fn height(&self) -> (r: u16) {
        match self {
            AnyModule::DeepSeek(m) => m.height(),
            AnyModule::SystemInfo(m) => m.height(),
            AnyModule::Network(m) => m.height(),
            AnyModule::Temp(m) => m.height(),
            AnyModule::Clock(m) => m.height(),
            AnyModule::Web(m) => m.height(),
        }
    }

    fn get_error(&self) -> (r: Option<&str>) {
        match self {
            AnyModule::DeepSeek(m) => m.get_error(),
            AnyModule::SystemInfo(m) => m.get_error(),
            AnyModule::Network(m) => m.get_error(),
            AnyModule::Temp(m) => m.get_error(),
            AnyModule::Clock(m) => m.get_error(),
            AnyModule::Web(m) => m.get_error(),
        }
    }
}

} // verus!
