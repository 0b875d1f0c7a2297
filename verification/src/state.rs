use vstd::prelude::*;

verus! {

/// Paths and facts resolved once at startup and read everywhere: the
/// launcher's own version and the directories the platform gave it.  The
/// application constructs one instance and passes it by shared reference.
#[derive(Debug, Clone)]
pub struct AppStatics {
    pub version: String,
    pub app_data_dir: String,
    pub resource_dir: String,
    pub ff_cache_dir: String,
    pub offline_cache_dir: String,
    pub compat_data_dir: String,
    pub ffrunner_log_path: String,
}

impl AppStatics {
    /// The launcher's own version text.
    pub fn get_version(&self) -> (r: &str)
        ensures
            r@ == self.version@,
    {
        self.version.as_str()
    }
}

/// The default base directory for game caches.
pub fn get_default_cache_dir(statics: &AppStatics) -> (r: String)
    ensures
        r@ == statics.ff_cache_dir@,
{
    statics.ff_cache_dir.clone()
}

/// The default base directory for offline caches.
pub fn get_default_offline_cache_dir(statics: &AppStatics) -> (r: String)
    ensures
        r@ == statics.offline_cache_dir@,
{
    statics.offline_cache_dir.clone()
}

} // verus!
