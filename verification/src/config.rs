use vstd::prelude::*;

verus! {

/// Visual theme of the launcher window.
#[derive(Debug, Clone, Copy, PartialEq, Eq, Structural)]
pub enum LauncherTheme {
    DexlabsDark,
    DexlabsLight,
}

/// What the launcher does with itself once the game starts.
#[derive(Debug, Clone, Copy, PartialEq, Eq, Structural)]
pub enum LaunchBehavior {
    Hide,
    Quit,
    StayOpen,
}

/// The language the launcher starts in.
pub fn default_language() -> (r: String)
    ensures
        r@ == "en"@,
{
    "en".to_owned()
}

/// The default for settings that start switched on.
pub fn true_fn() -> (r: bool)
    ensures
        r,
{
    true
}

/// The default for settings that start switched off.
pub fn false_fn() -> (r: bool)
    ensures
        !r,
{
    false
}

/// Launcher-level settings, including the cache engine's policy knobs and
/// the two base cache directories.
#[derive(Debug, Clone)]
pub struct LauncherSettings {
    pub check_for_updates: bool,
    pub language: String,
    pub theme: Option<LauncherTheme>,
    pub use_offline_caches: bool,
    pub verify_offline_caches: bool,
    pub delete_old_game_caches: bool,
    pub launch_behavior: LaunchBehavior,
    pub game_cache_path: String,
    pub offline_cache_path: String,
}

impl LauncherSettings {
    /// The default launcher settings over the default cache directories the
    /// application resolved for this platform: updates checked, English,
    /// system theme, offline caches used but not verified, old game caches
    /// kept, and the launcher hidden while the game runs.
    pub fn defaults(game_cache_path: String, offline_cache_path: String) -> (r: Self)
        ensures
            r.check_for_updates,
            r.language@ == "en"@,
            r.theme is None,
            r.use_offline_caches,
            !r.verify_offline_caches,
            !r.delete_old_game_caches,
            r.launch_behavior == LaunchBehavior::Hide,
            r.game_cache_path == game_cache_path,
            r.offline_cache_path == offline_cache_path,
    {
        LauncherSettings {
            check_for_updates: true,
            language: default_language(),
            theme: None,
            use_offline_caches: true,
            verify_offline_caches: false,
            delete_old_game_caches: false,
            launch_behavior: LaunchBehavior::Hide,
            game_cache_path,
            offline_cache_path,
        }
    }
}

/// Which graphics backend the game is forced to.
#[derive(Debug, Clone, Copy, PartialEq, Eq, Structural)]
pub enum GraphicsApi {
    Dx9,
    OpenGl,
    Vulkan,
}

/// How the frame-rate fix behaves.
#[derive(Debug, Clone, Copy, PartialEq, Eq, Structural)]
pub enum FpsFix {
    On,
    OnWithLimiter(u32),
    Off,
}

/// A forced game window size.
#[derive(Debug, Clone, Copy, PartialEq, Eq, Structural)]
pub struct WindowSize {
    pub width: u32,
    pub height: u32,
}

/// Game-level settings.
#[derive(Debug, Clone)]
pub struct GameSettings {
    pub graphics_api: GraphicsApi,
    pub fps_fix: FpsFix,
    pub window_size: Option<WindowSize>,
    pub launch_command: Option<String>,
}

impl Default for GameSettings {
    /// The default game settings: DirectX 9, the frame-rate fix on, no
    /// forced window size, no custom launch command.
    fn default() -> (r: Self)
        ensures
            r.graphics_api == GraphicsApi::Dx9,
            r.fps_fix == FpsFix::On,
            r.window_size is None,
            r.launch_command is None,
    {
        GameSettings {
            graphics_api: GraphicsApi::Dx9,
            fps_fix: FpsFix::On,
            window_size: None,
            launch_command: None,
        }
    }
}

/// The launcher's whole configuration.
#[derive(Debug, Clone)]
pub struct Config {
    pub launcher: LauncherSettings,
    pub game: GameSettings,
}

impl Config {
    /// The default configuration over the resolved default cache
    /// directories.
    pub fn defaults(game_cache_path: String, offline_cache_path: String) -> (r: Self)
        ensures
            r.launcher.check_for_updates,
            r.launcher.language@ == "en"@,
            r.launcher.theme is None,
            r.launcher.use_offline_caches,
            !r.launcher.verify_offline_caches,
            !r.launcher.delete_old_game_caches,
            r.launcher.launch_behavior == LaunchBehavior::Hide,
            r.launcher.game_cache_path == game_cache_path,
            r.launcher.offline_cache_path == offline_cache_path,
            r.game.graphics_api == GraphicsApi::Dx9,
            r.game.fps_fix == FpsFix::On,
            r.game.window_size is None,
            r.game.launch_command is None,
    {
        Config {
            launcher: LauncherSettings::defaults(game_cache_path, offline_cache_path),
            game: GameSettings::default(),
        }
    }
}

} // verus!
