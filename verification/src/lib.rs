pub mod config;
pub mod http_status;
pub mod localtime;
pub mod logger;
pub mod module_trait;
pub mod modules;
pub mod number;
pub mod panel;
pub mod registry;
pub mod schedule;
pub mod text;
pub mod theme;

pub use config::Config;
pub use logger::Logger;
pub use module_trait::{ModuleUpdate, PanelModule};
pub use panel::Panel;
pub use registry::ModuleRegistry;
pub use theme::{theme_index_by_name, Theme};
