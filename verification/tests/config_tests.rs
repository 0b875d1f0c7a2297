use scamper::config::{
    default_language, false_fn, true_fn, Config, FpsFix, GameSettings, GraphicsApi,
    LaunchBehavior,
};
use scamper::endpoint::{
    cookie_outcome, http_status_is_success, refresh_token_outcome, register_outcome, AccountInfo,
    AccountInfoResponse, CookieResponse, EndpointError, InfoResponse,
};
use scamper::state::{get_default_cache_dir, get_default_offline_cache_dir, AppStatics};
use scamper::textutil::{
    get_path_as_file_uri, is_version_tag, parse_u16, parse_u32, split_addr_port, str_eq,
    string_version_to_u32,
};

#[test]
fn config_defaults_match_policy() {
    let cfg = Config::defaults("/caches/game".to_string(), "/caches/offline".to_string());
    assert!(cfg.launcher.check_for_updates);
    assert_eq!(cfg.launcher.language, "en");
    assert!(cfg.launcher.theme.is_none());
    assert!(cfg.launcher.use_offline_caches);
    assert!(!cfg.launcher.verify_offline_caches);
    assert!(!cfg.launcher.delete_old_game_caches);
    assert_eq!(cfg.launcher.launch_behavior, LaunchBehavior::Hide);
    assert_eq!(cfg.launcher.game_cache_path, "/caches/game");
    assert_eq!(cfg.launcher.offline_cache_path, "/caches/offline");
    assert_eq!(cfg.game.graphics_api, GraphicsApi::Dx9);
    assert_eq!(cfg.game.fps_fix, FpsFix::On);
    assert!(cfg.game.window_size.is_none());
    assert!(cfg.game.launch_command.is_none());
    let game = GameSettings::default();
    assert_eq!(game.graphics_api, GraphicsApi::Dx9);
    assert_eq!(default_language(), "en");
    assert!(true_fn());
    assert!(!false_fn());
}

fn info(single: Option<&str>, many: Option<Vec<&str>>) -> InfoResponse {
    InfoResponse {
        api_version: "1.0".to_string(),
        secure_apis_enabled: true,
        game_version: single.map(|s| s.to_string()),
        game_versions: many.map(|v| v.into_iter().map(|s| s.to_string()).collect()),
        login_address: "login.example.net:23000".to_string(),
        email_required: None,
        custom_loading_screen: None,
    }
}

#[test]
fn supported_versions_prefer_the_list() {
    let both = info(Some("a"), Some(vec!["b", "c"]));
    assert_eq!(both.get_supported_versions(), vec!["b", "c"]);
    let single = info(Some("a"), None);
    assert_eq!(single.get_supported_versions(), vec!["a"]);
    let neither = info(None, None);
    assert!(neither.get_supported_versions().is_empty());
}

#[test]
fn account_info_drops_empty_email() {
    let with_email = AccountInfo::from(AccountInfoResponse {
        username: "kim".to_string(),
        email: "kim@example.net".to_string(),
    });
    assert_eq!(with_email.email.as_deref(), Some("kim@example.net"));
    let without = AccountInfo::from(AccountInfoResponse {
        username: "kim".to_string(),
        email: String::new(),
    });
    assert!(without.email.is_none());
}

#[test]
fn response_outcomes_follow_status() {
    assert!(http_status_is_success(200));
    assert!(http_status_is_success(299));
    assert!(!http_status_is_success(199));
    assert!(!http_status_is_success(404));

    let created = register_outcome(201, "welcome".to_string()).unwrap();
    assert_eq!(created.resp, "welcome");
    assert!(created.can_login);
    let accepted = register_outcome(200, "pending".to_string()).unwrap();
    assert!(!accepted.can_login);
    assert!(matches!(
        register_outcome(500, "boom".to_string()),
        Err(EndpointError::Api(b)) if b == "boom"
    ));

    assert_eq!(
        refresh_token_outcome(200, "token".to_string()).unwrap(),
        "token"
    );
    assert!(matches!(
        refresh_token_outcome(401, "no".to_string()),
        Err(EndpointError::IncorrectCredentials)
    ));
    assert!(matches!(
        refresh_token_outcome(503, "down".to_string()),
        Err(EndpointError::Api(b)) if b == "down"
    ));
}

#[test]
fn expired_cookies_are_rejected() {
    let cookie = CookieResponse {
        username: "kim".to_string(),
        cookie: "crumb".to_string(),
        expires: 100,
    };
    let (user, crumb) = cookie_outcome(cookie.clone(), 100).unwrap();
    assert_eq!(user, "kim");
    assert_eq!(crumb, "crumb");
    assert!(matches!(
        cookie_outcome(cookie, 101),
        Err(EndpointError::CookieExpired)
    ));
}

#[test]
fn app_statics_expose_version_and_cache_dirs() {
    let statics = AppStatics {
        version: "1.6.1".to_string(),
        app_data_dir: "/data".to_string(),
        resource_dir: "/res".to_string(),
        ff_cache_dir: "/data/ffcache".to_string(),
        offline_cache_dir: "/data/offline_cache".to_string(),
        compat_data_dir: "/data/compat".to_string(),
        ffrunner_log_path: "/data/ffrunner.log".to_string(),
    };
    assert_eq!(statics.get_version(), "1.6.1");
    assert_eq!(get_default_cache_dir(&statics), "/data/ffcache");
    assert_eq!(get_default_offline_cache_dir(&statics), "/data/offline_cache");
}

#[test]
fn string_equality_is_exact() {
    assert!(str_eq("abc", "abc"));
    assert!(!str_eq("abc", "abd"));
    assert!(!str_eq("abc", "ab"));
    assert!(str_eq("", ""));
}

#[test]
fn decimal_parsing_is_exact_and_bounded() {
    assert_eq!(parse_u32("0"), Some(0));
    assert_eq!(parse_u32("23000"), Some(23000));
    assert_eq!(parse_u32("4294967295"), Some(u32::MAX));
    assert_eq!(parse_u32("4294967296"), None);
    assert_eq!(parse_u32(""), None);
    assert_eq!(parse_u32("12a"), None);
    assert_eq!(parse_u32("-1"), None);
    assert_eq!(parse_u16("65535"), Some(65535));
    assert_eq!(parse_u16("65536"), None);
}

#[test]
fn paths_become_file_uris() {
    assert_eq!(
        get_path_as_file_uri("C:\\caches\\v1", true),
        "file:///C:/caches/v1"
    );
    assert_eq!(
        get_path_as_file_uri("/home/kim/cache", false),
        "file:///home/kim/cache"
    );
}

#[test]
fn release_tags_match_the_tag_grammar() {
    assert!(is_version_tag("v1.6"));
    assert!(is_version_tag("1.6.1"));
    assert!(is_version_tag("10"));
    assert!(is_version_tag("v2"));
    assert!(!is_version_tag(""));
    assert!(!is_version_tag("v"));
    // each group after the integer part is a dot and a single digit
    assert!(!is_version_tag("1.23"));
    assert!(!is_version_tag("abc"));
    assert!(!is_version_tag("v1.x"));
    assert!(!is_version_tag("1."));
}

#[test]
fn version_texts_pack_into_comparable_codes() {
    assert_eq!(string_version_to_u32("1.6.1"), Some((1 << 16) | (6 << 8) | 1));
    assert_eq!(string_version_to_u32("1"), Some(1 << 16));
    assert_eq!(string_version_to_u32("1.2"), Some((1 << 16) | (2 << 8)));
    // anything after the patch part is ignored
    assert_eq!(
        string_version_to_u32("1.2.3.junk"),
        Some((1 << 16) | (2 << 8) | 3)
    );
    assert!(string_version_to_u32("1..2").is_none());
    assert!(string_version_to_u32("a.b").is_none());
    assert!(string_version_to_u32("").is_none());
    // newer versions compare above older ones
    assert!(string_version_to_u32("1.6.1").unwrap() > string_version_to_u32("1.6").unwrap());
}

#[test]
fn addresses_split_into_host_and_port() {
    let (host, port) = split_addr_port("play.example.net").unwrap();
    assert_eq!(host, "play.example.net");
    assert_eq!(port, 23000);
    let (host, port) = split_addr_port("play.example.net:8080").unwrap();
    assert_eq!(host, "play.example.net");
    assert_eq!(port, 8080);
    // anything after a second colon is ignored
    let (host, port) = split_addr_port("play.example.net:8080:extra").unwrap();
    assert_eq!(host, "play.example.net");
    assert_eq!(port, 8080);
    assert!(split_addr_port("play.example.net:").is_none());
    assert!(split_addr_port("play.example.net:notaport").is_none());
    assert!(split_addr_port("play.example.net:70000").is_none());
}
