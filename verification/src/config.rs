//! The saved settings: layout, column weights, API key, theme, module order
//! and per-module switches.
use vstd::prelude::*;

use crate::text::{chars_of, contains, contains_spec};

verus! {

/// The saved settings of one module.
#[derive(Debug, Clone, Copy, PartialEq, Eq, Structural)]
pub struct ModuleConfig {
    pub visible: bool,
    pub height_offset: i16,
}

/// The saved settings; the per-module settings are kept as pairs of a
/// module's id and its settings.
#[derive(Debug)]
pub struct Config {
    pub layout: String,
    pub column_weights: Vec<u16>,
    pub deepseek_api_key: String,
    pub theme: String,
    pub module_order: Vec<String>,
    pub modules: Vec<(String, ModuleConfig)>,
}

impl Config {
    /// The settings used when none are saved.
    pub open spec fn is_default(&self) -> bool {
        &&& self.layout@ == "Single"@
        &&& self.column_weights@ == seq![10u16]
        &&& self.deepseek_api_key@ == Seq::<char>::empty()
        &&& self.theme@ == "Dracula"@
        &&& self.module_order@.len() == 0
        &&& self.modules@.len() == 0
    }

    /// What loading settings gives, from the file's text (when it could be
    /// read) and what that text parsed to (when it parsed): the settings,
    /// and whether they are to be written back. A file that does not mention
    /// `deepseek_api_key` is written back so that it gains the field; an
    /// unreadable or unparsable file gives the defaults, written back.
    pub fn resolve_loaded(content: Option<&str>, parsed: Option<Config>) -> (r: (Config, bool))
        requires
            content is None ==> parsed is None,
        ensures
            match (content, parsed) {
                (Some(c), Some(cfg)) => r.0 == cfg && r.1 == !contains_spec(
                    c@,
                    "deepseek_api_key"@,
                ),
                _ => r.0.is_default() && r.1,
            },
    {
        match content {
            Some(c) => match parsed {
                Some(config) => {
                    let text = chars_of(c);
                    let key = chars_of("deepseek_api_key");
                    let has_key = contains(&text, &key);
                    (config, !has_key)
                },
                None => (Config::default(), true),
            },
            None => (Config::default(), true),
        }
    }
}

impl Default for Config {
    fn default() -> (r: Config)
        ensures
            r.is_default(),
    {
        let mut w: Vec<u16> = Vec::new();
        w.push(10);
        let r = Config {
            layout: "Single".to_owned(),
            column_weights: w,
            deepseek_api_key: String::new(),
            theme: "Dracula".to_owned(),
            module_order: Vec::new(),
            modules: Vec::new(),
        };
        assert(r.column_weights@ =~= seq![10u16]);
        r
    }
}

} // verus!
