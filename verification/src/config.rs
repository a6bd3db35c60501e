//! The panel's configuration model. Reading and writing the configuration
//! file, and its serialized form, live outside the library; here stand the
//! plain settings values and their defaults.

use vstd::prelude::*;

use crate::icons::IconTheme;

verus! {

/// Settings of the application tray: the application ids pinned to it.
pub struct AppTrayConfig {
    pub favorites: Vec<String>,
}

impl Default for AppTrayConfig {
    /// One pinned application: Firefox.
    fn default() -> (r: AppTrayConfig)
        ensures
            r.favorites@.len() == 1,
            r.favorites@[0]@ == "org.mozilla.firefox"@,
    {
        let mut favorites: Vec<String> = Vec::new();
        favorites.push("org.mozilla.firefox".to_owned());
        AppTrayConfig { favorites }
    }
}

/// The settings stored in the configuration file.
pub struct InnerConfig {
    pub app_tray: AppTrayConfig,
    pub icon_theme: Option<IconTheme>,
    pub use_winit: Option<bool>,
}

impl Default for InnerConfig {
    fn default() -> (r: InnerConfig)
        ensures
            r.app_tray.favorites@.len() == 1,
            r.app_tray.favorites@[0]@ == "org.mozilla.firefox"@,
            r.icon_theme is None,
            r.use_winit is None,
    {
        InnerConfig { app_tray: AppTrayConfig::default(), icon_theme: None, use_winit: None }
    }
}

/// The loaded configuration together with the path it came from, to which it
/// is saved back on exit.
pub struct PanelConfig {
    pub inner: InnerConfig,
    pub file_path: String,
}

impl PanelConfig {
    /// Pair settings with the path of their file.
    pub fn new(inner: InnerConfig, file_path: String) -> (r: PanelConfig)
        ensures
            r.inner == inner,
            r.file_path@ == file_path@,
    {
        PanelConfig { inner, file_path }
    }

}

} // verus!
