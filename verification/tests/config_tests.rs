use fluttertools::config::{
    apply_version_defaults, config_format, expand_android_config, expand_config,
    expand_flutter_create_config, platform_selection, AndroidAppBuildConfig, AndroidAppConfig,
    AndroidBuildConfig, AndroidConfig, AndroidGradleWrapperConfig, AndroidSettingsConfig, Config,
    ConfigError, ConfigFormat, FlutterCreateConfig, PlatformSelection, PubspecConfig,
    RepositoryList,
};
use fluttertools::expand::{expand_env_vars, ExpandError};

fn env(pairs: &[(&str, &str)]) -> Vec<(String, String)> {
    pairs.iter().map(|(k, v)| (k.to_string(), v.to_string())).collect()
}

fn sample_config() -> Config {
    Config {
        project_name: "myapp".to_string(),
        org: Some("com.example.".to_string()),
        description: None,
        version: None,
        output_file_name_pattern: None,
        pubspec: Some(PubspecConfig {
            name: None,
            description: None,
            version: Some("1.2.3+4".to_string()),
            homepage: None,
            repository: None,
        }),
        platforms_dir: None,
        create: FlutterCreateConfig { platforms: None, android_language: None },
        android: AndroidConfig {
            gradle_wrapper: AndroidGradleWrapperConfig { distribution_url: None },
            app: AndroidAppConfig {
                build: AndroidAppBuildConfig {
                    namespace: String::new(),
                    application_id: String::new(),
                    output_file_name: None,
                    abi_filters: None,
                    kotlin_incremental: None,
                },
            },
            build: AndroidBuildConfig {
                allprojects: RepositoryList { repositories: Vec::new() },
            },
            settings: AndroidSettingsConfig {
                plugin_management: RepositoryList { repositories: Vec::new() },
            },
        },
        ios: None,
        windows: None,
    }
}

#[test]
fn expands_bare_and_braced_references() {
    let e = env(&[("NAME", "world"), ("GREETING", "hi")]);
    assert_eq!(expand_env_vars("hello $NAME!", &e).unwrap(), "hello world!");
    assert_eq!(expand_env_vars("${GREETING}-${NAME}", &e).unwrap(), "hi-world");
    assert_eq!(expand_env_vars("no refs", &e).unwrap(), "no refs");
    assert_eq!(expand_env_vars("$GREETING$NAME", &e).unwrap(), "hiworld");
}

#[test]
fn lone_dollar_signs_pass_through() {
    let e = env(&[]);
    assert_eq!(expand_env_vars("$", &e).unwrap(), "$");
    assert_eq!(expand_env_vars("a$ b", &e).unwrap(), "a$ b");
    assert_eq!(expand_env_vars("$$", &e).unwrap(), "$$");
}

#[test]
fn missing_reference_is_an_error() {
    let e = env(&[("A", "1")]);
    match expand_env_vars("$MISSING", &e) {
        Err(ExpandError::MissingEnvVar(name)) => assert_eq!(name, "MISSING"),
        other => panic!("expected a missing-reference error, got {:?}", other.is_ok()),
    }
}

#[test]
fn unclosed_brace_is_an_error() {
    let e = env(&[("A", "1")]);
    match expand_env_vars("x${A", &e) {
        Err(ExpandError::UnclosedEnvVar(input)) => assert_eq!(input, "x${A"),
        other => panic!("expected an unclosed-reference error, got {:?}", other.is_ok()),
    }
}

#[test]
fn first_binding_wins_in_the_table() {
    let e = env(&[("K", "first"), ("K", "second")]);
    assert_eq!(expand_env_vars("$K", &e).unwrap(), "first");
}

#[test]
fn expand_config_defaults_application_id_and_namespace() {
    let mut cfg = sample_config();
    let e = env(&[]);
    expand_config(&mut cfg, &e).unwrap();
    // The trailing dots of the organization are dropped before joining.
    assert_eq!(cfg.android.app.build.application_id, "com.example.myapp");
    assert_eq!(cfg.android.app.build.namespace, "com.example.myapp");
}

#[test]
fn expand_config_requires_org_when_id_is_blank() {
    let mut cfg = sample_config();
    cfg.org = None;
    let e = env(&[]);
    match expand_config(&mut cfg, &e) {
        Err(ConfigError::MissingApplicationId) => {}
        _ => panic!("expected the missing-application-id error"),
    }
}

#[test]
fn expand_config_expands_values_and_keeps_explicit_ids() {
    let mut cfg = sample_config();
    cfg.project_name = "${APP}".to_string();
    cfg.android.app.build.namespace = "ns.$APP".to_string();
    cfg.android.app.build.application_id = "id.$APP".to_string();
    let e = env(&[("APP", "demo")]);
    expand_config(&mut cfg, &e).unwrap();
    assert_eq!(cfg.project_name, "demo");
    assert_eq!(cfg.android.app.build.namespace, "ns.demo");
    assert_eq!(cfg.android.app.build.application_id, "id.demo");
}

#[test]
fn android_config_expansion_covers_repositories() {
    let mut android = sample_config().android;
    android.build.allprojects.repositories =
        vec!["https://$HOST/maven".to_string(), "plain".to_string()];
    android.settings.plugin_management.repositories = vec!["${HOST}".to_string()];
    android.gradle_wrapper.distribution_url = Some("https://$HOST/dist.zip".to_string());
    let e = env(&[("HOST", "mirror.example")]);
    expand_android_config(&mut android, &e).unwrap();
    assert_eq!(
        android.build.allprojects.repositories,
        vec!["https://mirror.example/maven".to_string(), "plain".to_string()]
    );
    assert_eq!(
        android.settings.plugin_management.repositories,
        vec!["mirror.example".to_string()]
    );
    assert_eq!(
        android.gradle_wrapper.distribution_url.as_deref(),
        Some("https://mirror.example/dist.zip")
    );
}

#[test]
fn flutter_create_expansion_covers_platforms_and_language() {
    let mut create = FlutterCreateConfig {
        platforms: Some(vec!["$P1".to_string(), "web".to_string()]),
        android_language: Some("${LANG}".to_string()),
    };
    let e = env(&[("P1", "android"), ("LANG", "kotlin")]);
    expand_flutter_create_config(&mut create, &e).unwrap();
    assert_eq!(
        create.platforms,
        Some(vec!["android".to_string(), "web".to_string()])
    );
    assert_eq!(create.android_language.as_deref(), Some("kotlin"));
}

#[test]
fn version_defaults_come_from_pubspec_and_fill_output_name() {
    let mut cfg = sample_config();
    let took = apply_version_defaults(&mut cfg);
    assert!(took);
    assert_eq!(cfg.version.as_deref(), Some("1.2.3+4"));
    assert_eq!(
        cfg.android.app.build.output_file_name.as_deref(),
        Some("myapp-v1.2.3+4-${name}.apk")
    );
}

#[test]
fn explicit_version_and_pattern_are_respected() {
    let mut cfg = sample_config();
    cfg.version = Some("9.9.9".to_string());
    cfg.output_file_name_pattern = Some("{project_name}_{version}.apk".to_string());
    let took = apply_version_defaults(&mut cfg);
    assert!(!took);
    assert_eq!(
        cfg.android.app.build.output_file_name.as_deref(),
        Some("myapp_9.9.9.apk")
    );
}

#[test]
fn platform_selection_defaults_to_android() {
    assert_eq!(
        platform_selection(&None),
        PlatformSelection { android: true, web: false, windows: false }
    );
    assert_eq!(
        platform_selection(&Some(Vec::new())),
        PlatformSelection { android: true, web: false, windows: false }
    );
    assert_eq!(
        platform_selection(&Some(vec!["web".to_string(), "windows".to_string()])),
        PlatformSelection { android: false, web: true, windows: true }
    );
    assert_eq!(
        platform_selection(&Some(vec!["android".to_string(), "web".to_string()])),
        PlatformSelection { android: true, web: true, windows: false }
    );
}

#[test]
fn config_format_follows_the_extension() {
    assert_eq!(config_format("app.pkl"), ConfigFormat::Pkl);
    assert_eq!(config_format("dir/sub/config.toml"), ConfigFormat::Toml);
    assert_eq!(config_format("config.yaml"), ConfigFormat::Unsupported);
    assert_eq!(config_format("noextension"), ConfigFormat::Unsupported);
    assert_eq!(config_format(".pkl"), ConfigFormat::Unsupported);
    assert_eq!(config_format("dir.pkl/file"), ConfigFormat::Unsupported);
}
