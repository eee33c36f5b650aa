//! The project configuration the platform generator works from, and the
//! expansion pass that replaces environment references in its values and
//! fills the defaulted Android identifiers.

use vstd::prelude::*;

use crate::expand::{
    expand_all, expand_all_opt, expand_env_vars, expand_opt, expand_opt_value, expand_opt_values,
    expand_values, expand_view, ExpandError, ExpandIssue,
};
use crate::text::{
    replace_all, spec_replace_all, str_eq, trim, trim_end_char, trimmed, trimmed_end,
};

verus! {

/// Top-level project configuration.
pub struct Config {
    pub project_name: String,
    pub org: Option<String>,
    pub description: Option<String>,
    pub version: Option<String>,
    pub output_file_name_pattern: Option<String>,
    pub pubspec: Option<PubspecConfig>,
    pub platforms_dir: Option<String>,
    pub create: FlutterCreateConfig,
    pub android: AndroidConfig,
    pub ios: Option<IosConfig>,
    pub windows: Option<WindowsConfig>,
}

/// Fields written into the generated pubspec.
pub struct PubspecConfig {
    pub name: Option<String>,
    pub description: Option<String>,
    pub version: Option<String>,
    pub homepage: Option<String>,
    pub repository: Option<String>,
}

/// Options handed to the project scaffolding step.
pub struct FlutterCreateConfig {
    pub platforms: Option<Vec<String>>,
    pub android_language: Option<String>,
}

/// The Android platform's configuration.
pub struct AndroidConfig {
    pub gradle_wrapper: AndroidGradleWrapperConfig,
    pub app: AndroidAppConfig,
    pub build: AndroidBuildConfig,
    pub settings: AndroidSettingsConfig,
}

/// Repositories for the project-level build file.
pub struct AndroidBuildConfig {
    pub allprojects: RepositoryList,
}

/// Repositories for plugin management in the settings file.
pub struct AndroidSettingsConfig {
    pub plugin_management: RepositoryList,
}

/// Gradle wrapper distribution override.
pub struct AndroidGradleWrapperConfig {
    pub distribution_url: Option<String>,
}

/// The application module's configuration.
pub struct AndroidAppConfig {
    pub build: AndroidAppBuildConfig,
}

/// Settings written into the application module's build file.
pub struct AndroidAppBuildConfig {
    pub namespace: String,
    pub application_id: String,
    pub output_file_name: Option<String>,
    pub abi_filters: Option<Vec<String>>,
    pub kotlin_incremental: Option<bool>,
}

/// The iOS platform's configuration; it carries no options yet.
pub struct IosConfig {}

/// The Windows platform's configuration.
pub struct WindowsConfig {
    pub enabled: bool,
    pub window_width: Option<u32>,
    pub window_height: Option<u32>,
}

/// A list of artifact repository addresses.
pub struct RepositoryList {
    pub repositories: Vec<String>,
}

#[verifier::ext_equal]
pub struct ConfigView {
    pub project_name: Seq<char>,
    pub org: Option<Seq<char>>,
    pub description: Option<Seq<char>>,
    pub version: Option<Seq<char>>,
    pub output_file_name_pattern: Option<Seq<char>>,
    pub pubspec: Option<PubspecView>,
    pub platforms_dir: Option<Seq<char>>,
    pub create: FlutterCreateView,
    pub android: AndroidView,
    pub ios: Option<IosView>,
    pub windows: Option<WindowsView>,
}

#[verifier::ext_equal]
pub struct PubspecView {
    pub name: Option<Seq<char>>,
    pub description: Option<Seq<char>>,
    pub version: Option<Seq<char>>,
    pub homepage: Option<Seq<char>>,
    pub repository: Option<Seq<char>>,
}

#[verifier::ext_equal]
pub struct FlutterCreateView {
    pub platforms: Option<Seq<Seq<char>>>,
    pub android_language: Option<Seq<char>>,
}

#[verifier::ext_equal]
pub struct AndroidView {
    pub gradle_wrapper: AndroidGradleWrapperView,
    pub app: AndroidAppView,
    pub build: AndroidBuildView,
    pub settings: AndroidSettingsView,
}

#[verifier::ext_equal]
pub struct AndroidBuildView {
    pub allprojects: RepositoryListView,
}

#[verifier::ext_equal]
pub struct AndroidSettingsView {
    pub plugin_management: RepositoryListView,
}

#[verifier::ext_equal]
pub struct AndroidGradleWrapperView {
    pub distribution_url: Option<Seq<char>>,
}

#[verifier::ext_equal]
pub struct AndroidAppView {
    pub build: AndroidAppBuildView,
}

#[verifier::ext_equal]
pub struct AndroidAppBuildView {
    pub namespace: Seq<char>,
    pub application_id: Seq<char>,
    pub output_file_name: Option<Seq<char>>,
    pub abi_filters: Option<Seq<Seq<char>>>,
    pub kotlin_incremental: Option<bool>,
}

#[verifier::ext_equal]
pub struct IosView {}

#[verifier::ext_equal]
pub struct WindowsView {
    pub enabled: bool,
    pub window_width: Option<u32>,
    pub window_height: Option<u32>,
}

impl View for PubspecConfig {
    type V = PubspecView;

    open spec fn view(&self) -> PubspecView {
        PubspecView {
            name: self.name.deep_view(),
            description: self.description.deep_view(),
            version: self.version.deep_view(),
            homepage: self.homepage.deep_view(),
            repository: self.repository.deep_view(),
        }
    }
}

impl View for FlutterCreateConfig {
    type V = FlutterCreateView;

    open spec fn view(&self) -> FlutterCreateView {
        FlutterCreateView {
            platforms: self.platforms.deep_view(),
            android_language: self.android_language.deep_view(),
        }
    }
}

impl View for AndroidGradleWrapperConfig {
    type V = AndroidGradleWrapperView;

    open spec fn view(&self) -> AndroidGradleWrapperView {
        AndroidGradleWrapperView { distribution_url: self.distribution_url.deep_view() }
    }
}

impl View for AndroidAppBuildConfig {
    type V = AndroidAppBuildView;

    open spec fn view(&self) -> AndroidAppBuildView {
        AndroidAppBuildView {
            namespace: self.namespace@,
            application_id: self.application_id@,
            output_file_name: self.output_file_name.deep_view(),
            abi_filters: self.abi_filters.deep_view(),
            kotlin_incremental: self.kotlin_incremental,
        }
    }
}

impl View for AndroidAppConfig {
    type V = AndroidAppView;

    open spec fn view(&self) -> AndroidAppView {
        AndroidAppView { build: self.build@ }
    }
}

impl View for RepositoryList {
    type V = RepositoryListView;

    open spec fn view(&self) -> RepositoryListView {
        RepositoryListView { repositories: self.repositories.deep_view() }
    }
}

#[verifier::ext_equal]
pub struct RepositoryListView {
    pub repositories: Seq<Seq<char>>,
}

impl View for AndroidBuildConfig {
    type V = AndroidBuildView;

    open spec fn view(&self) -> AndroidBuildView {
        AndroidBuildView { allprojects: self.allprojects@ }
    }
}

impl View for AndroidSettingsConfig {
    type V = AndroidSettingsView;

    open spec fn view(&self) -> AndroidSettingsView {
        AndroidSettingsView { plugin_management: self.plugin_management@ }
    }
}

impl View for AndroidConfig {
    type V = AndroidView;

    open spec fn view(&self) -> AndroidView {
        AndroidView {
            gradle_wrapper: self.gradle_wrapper@,
            app: self.app@,
            build: self.build@,
            settings: self.settings@,
        }
    }
}

impl View for IosConfig {
    type V = IosView;

    open spec fn view(&self) -> IosView {
        IosView {  }
    }
}

impl View for WindowsConfig {
    type V = WindowsView;

    open spec fn view(&self) -> WindowsView {
        WindowsView {
            enabled: self.enabled,
            window_width: self.window_width,
            window_height: self.window_height,
        }
    }
}

impl View for Config {
    type V = ConfigView;

    open spec fn view(&self) -> ConfigView {
        ConfigView {
            project_name: self.project_name@,
            org: self.org.deep_view(),
            description: self.description.deep_view(),
            version: self.version.deep_view(),
            output_file_name_pattern: self.output_file_name_pattern.deep_view(),
            pubspec: match self.pubspec {
                Some(ref p) => Some(p@),
                None => None,
            },
            platforms_dir: self.platforms_dir.deep_view(),
            create: self.create@,
            android: self.android@,
            ios: match self.ios {
                Some(ref p) => Some(p@),
                None => None,
            },
            windows: match self.windows {
                Some(ref w) => Some(w@),
                None => None,
            },
        }
    }
}

/// How preparing a configuration can fail, at the specification level.
pub enum ConfigIssue {
    /// An environment reference could not be expanded.
    Expand(ExpandIssue),
    /// No application identifier was given and none can be derived, because
    /// the organization is absent or blank.
    MissingApplicationId,
}

/// How preparing a configuration can fail.
#[derive(Debug)]
pub enum ConfigError {
    /// An environment reference could not be expanded.
    Expand(ExpandError),
    /// No application identifier was given and none can be derived, because
    /// the organization is absent or blank.
    MissingApplicationId,
}

impl View for ConfigError {
    type V = ConfigIssue;

    open spec fn view(&self) -> ConfigIssue {
        match self {
            ConfigError::Expand(e) => ConfigIssue::Expand(e@),
            ConfigError::MissingApplicationId => ConfigIssue::MissingApplicationId,
        }
    }
}

/// The scaffolding options after expansion: language first, then the
/// platform list.
pub open spec fn spec_expand_flutter_create(c: FlutterCreateView, env: Seq<(String, String)>)
    -> Result<FlutterCreateView, ExpandIssue> {
    match expand_opt(c.android_language, env) {
        Err(e) => Err(e),
        Ok(lang) => match expand_all_opt(c.platforms, env) {
            Err(e) => Err(e),
            Ok(ps) => Ok(FlutterCreateView { android_language: lang, platforms: ps }),
        },
    }
}

/// The Android configuration after expansion: namespace, application
/// identifier, wrapper address, then the two repository lists.
pub open spec fn spec_expand_android(c: AndroidView, env: Seq<(String, String)>) -> Result<
    AndroidView,
    ExpandIssue,
> {
    match expand_view(c.app.build.namespace, env) {
        Err(e) => Err(e),
        Ok(ns) => match expand_view(c.app.build.application_id, env) {
            Err(e) => Err(e),
            Ok(id) => match expand_opt(c.gradle_wrapper.distribution_url, env) {
                Err(e) => Err(e),
                Ok(du) => match expand_all(c.build.allprojects.repositories, env) {
                    Err(e) => Err(e),
                    Ok(ar) => match expand_all(c.settings.plugin_management.repositories, env) {
                        Err(e) => Err(e),
                        Ok(pr) => Ok(
                            AndroidView {
                                gradle_wrapper: AndroidGradleWrapperView { distribution_url: du },
                                app: AndroidAppView {
                                    build: AndroidAppBuildView {
                                        namespace: ns,
                                        application_id: id,
                                        ..c.app.build
                                    },
                                },
                                build: AndroidBuildView {
                                    allprojects: RepositoryListView { repositories: ar },
                                },
                                settings: AndroidSettingsView {
                                    plugin_management: RepositoryListView { repositories: pr },
                                },
                            },
                        ),
                    },
                },
            },
        },
    }
}

pub open spec fn with_application_id(c: ConfigView, id: Seq<char>) -> ConfigView {
    ConfigView {
        android: AndroidView {
            app: AndroidAppView {
                build: AndroidAppBuildView { application_id: id, ..c.android.app.build },
            },
            ..c.android
        },
        ..c
    }
}

pub open spec fn with_namespace(c: ConfigView, ns: Seq<char>) -> ConfigView {
    ConfigView {
        android: AndroidView {
            app: AndroidAppView {
                build: AndroidAppBuildView { namespace: ns, ..c.android.app.build },
            },
            ..c.android
        },
        ..c
    }
}

/// Fills a blank application identifier from the organization and the
/// project name, then a blank namespace from the application identifier.
pub open spec fn spec_default_ids(c: ConfigView) -> Result<ConfigView, ConfigIssue> {
    let step1 = if trimmed(c.android.app.build.application_id).len() == 0 {
        match c.org {
            Some(o) => if trimmed(o).len() == 0 {
                Err(ConfigIssue::MissingApplicationId)
            } else {
                Ok(
                    with_application_id(
                        c,
                        trimmed_end(trimmed(o), '.') + seq!['.'] + c.project_name,
                    ),
                )
            },
            None => Err(ConfigIssue::MissingApplicationId),
        }
    } else {
        Ok(c)
    };
    match step1 {
        Err(e) => Err(e),
        Ok(c1) => Ok(
            if trimmed(c1.android.app.build.namespace).len() == 0 {
                with_namespace(c1, c1.android.app.build.application_id)
            } else {
                c1
            },
        ),
    }
}

/// The whole configuration after expansion and identifier defaulting, in
/// the order the values are written back: project name, organization,
/// description, platforms directory, scaffolding options, Android options,
/// then the defaulted identifiers.
pub open spec fn spec_expand_config(c: ConfigView, env: Seq<(String, String)>) -> Result<
    ConfigView,
    ConfigIssue,
> {
    match expand_view(c.project_name, env) {
        Err(e) => Err(ConfigIssue::Expand(e)),
        Ok(pn) => match expand_opt(c.org, env) {
            Err(e) => Err(ConfigIssue::Expand(e)),
            Ok(org) => match expand_opt(c.description, env) {
                Err(e) => Err(ConfigIssue::Expand(e)),
                Ok(desc) => match expand_opt(c.platforms_dir, env) {
                    Err(e) => Err(ConfigIssue::Expand(e)),
                    Ok(pd) => match spec_expand_flutter_create(c.create, env) {
                        Err(e) => Err(ConfigIssue::Expand(e)),
                        Ok(cr) => match spec_expand_android(c.android, env) {
                            Err(e) => Err(ConfigIssue::Expand(e)),
                            Ok(an) => spec_default_ids(
                                ConfigView {
                                    project_name: pn,
                                    org: org,
                                    description: desc,
                                    platforms_dir: pd,
                                    create: cr,
                                    android: an,
                                    ..c
                                },
                            ),
                        },
                    },
                },
            },
        },
    }
}

/// Expands the environment references in the scaffolding options.
pub fn expand_flutter_create_config(cfg: &mut FlutterCreateConfig, env: &Vec<(String, String)>)
    -> (r: Result<(), ExpandError>)
    ensures
        match r {
            Ok(()) => spec_expand_flutter_create(old(cfg)@, env@) == Ok::<
                FlutterCreateView,
                ExpandIssue,
            >(final(cfg)@),
            Err(e) => spec_expand_flutter_create(old(cfg)@, env@) == Err::<
                FlutterCreateView,
                ExpandIssue,
            >(e@),
        },
{
    match expand_opt_value(&cfg.android_language, env) {
        Err(e) => {
            return Err(e);
        },
        Ok(lang) => {
            cfg.android_language = lang;
        },
    }
    match expand_opt_values(&cfg.platforms, env) {
        Err(e) => {
            return Err(e);
        },
        Ok(ps) => {
            cfg.platforms = ps;
        },
    }
    Ok(())
}

/// Expands the environment references in the Android options.
pub fn expand_android_config(cfg: &mut AndroidConfig, env: &Vec<(String, String)>) -> (r: Result<
    (),
    ExpandError,
>)
    ensures
        match r {
            Ok(()) => spec_expand_android(old(cfg)@, env@) == Ok::<AndroidView, ExpandIssue>(
                final(cfg)@,
            ),
            Err(e) => spec_expand_android(old(cfg)@, env@) == Err::<AndroidView, ExpandIssue>(e@),
        },
{
    match expand_env_vars(cfg.app.build.namespace.as_str(), env) {
        Err(e) => {
            return Err(e);
        },
        Ok(v) => {
            cfg.app.build.namespace = v;
        },
    }
    match expand_env_vars(cfg.app.build.application_id.as_str(), env) {
        Err(e) => {
            return Err(e);
        },
        Ok(v) => {
            cfg.app.build.application_id = v;
        },
    }
    match expand_opt_value(&cfg.gradle_wrapper.distribution_url, env) {
        Err(e) => {
            return Err(e);
        },
        Ok(v) => {
            cfg.gradle_wrapper.distribution_url = v;
        },
    }
    match expand_values(&cfg.build.allprojects.repositories, env) {
        Err(e) => {
            return Err(e);
        },
        Ok(v) => {
            cfg.build.allprojects.repositories = v;
        },
    }
    match expand_values(&cfg.settings.plugin_management.repositories, env) {
        Err(e) => {
            return Err(e);
        },
        Ok(v) => {
            cfg.settings.plugin_management.repositories = v;
        },
    }
    proof {
        assert(spec_expand_android(old(cfg)@, env@) matches Ok(av) && av =~= cfg@);
    }
    Ok(())
}

/// Expands the environment references in every substitutable value of the
/// configuration and fills the defaulted Android identifiers.
pub fn expand_config(cfg: &mut Config, env: &Vec<(String, String)>) -> (r: Result<
    (),
    ConfigError,
>)
    ensures
        match r {
            Ok(()) => spec_expand_config(old(cfg)@, env@) == Ok::<ConfigView, ConfigIssue>(
                final(cfg)@,
            ),
            Err(e) => spec_expand_config(old(cfg)@, env@) == Err::<ConfigView, ConfigIssue>(e@),
        },
{
    match expand_env_vars(cfg.project_name.as_str(), env) {
        Err(e) => {
            return Err(ConfigError::Expand(e));
        },
        Ok(v) => {
            cfg.project_name = v;
        },
    }
    match expand_opt_value(&cfg.org, env) {
        Err(e) => {
            return Err(ConfigError::Expand(e));
        },
        Ok(v) => {
            cfg.org = v;
        },
    }
    match expand_opt_value(&cfg.description, env) {
        Err(e) => {
            return Err(ConfigError::Expand(e));
        },
        Ok(v) => {
            cfg.description = v;
        },
    }
    match expand_opt_value(&cfg.platforms_dir, env) {
        Err(e) => {
            return Err(ConfigError::Expand(e));
        },
        Ok(v) => {
            cfg.platforms_dir = v;
        },
    }
    match expand_flutter_create_config(&mut cfg.create, env) {
        Err(e) => {
            return Err(ConfigError::Expand(e));
        },
        Ok(()) => {},
    }
    match expand_android_config(&mut cfg.android, env) {
        Err(e) => {
            return Err(ConfigError::Expand(e));
        },
        Ok(()) => {},
    }
    let ghost c1 = cfg@;
    proof {
        assert(spec_expand_config(old(cfg)@, env@) =~= spec_default_ids(c1));
    }
    let id_trim = trim(cfg.android.app.build.application_id.as_str());
    if id_trim.unicode_len() == 0 {
        let org_derived: String;
        match &cfg.org {
            Some(o) => {
                let ot = trim(o.as_str());
                if ot.unicode_len() == 0 {
                    return Err(ConfigError::MissingApplicationId);
                }
                org_derived = trim_end_char(ot.as_str(), '.');
            },
            None => {
                return Err(ConfigError::MissingApplicationId);
            },
        }
        let mut id = org_derived;
        id.append(".");
        id.append(cfg.project_name.as_str());
        proof {
            reveal_strlit(".");
            assert("."@ =~= seq!['.']);
        }
        cfg.android.app.build.application_id = id;
        proof {
            assert(cfg@ =~= with_application_id(
                c1,
                trimmed_end(trimmed(c1.org->0), '.') + seq!['.'] + c1.project_name,
            ));
        }
    }
    let ghost c2 = cfg@;
    let ns_trim = trim(cfg.android.app.build.namespace.as_str());
    if ns_trim.unicode_len() == 0 {
        cfg.android.app.build.namespace = cfg.android.app.build.application_id.clone();
        proof {
            assert(cfg@ =~= with_namespace(c2, c2.android.app.build.application_id));
        }
    }
    proof {
        assert(spec_default_ids(c1) matches Ok(cv) && cv =~= cfg@);
    }
    Ok(())
}

// ---------------------------------------------------------------------------
// Defaults taken from the pubspec section
// ---------------------------------------------------------------------------

/// The output-name pattern used when the configuration gives none.
pub open spec fn default_output_pattern() -> Seq<char> {
    "{project_name}-v{version}-${name}.apk"@
}

/// The output file name: the pattern with the version and the project
/// name substituted.
pub open spec fn spec_output_file_name(
    pattern: Seq<char>,
    version: Seq<char>,
    project: Seq<char>,
) -> Seq<char> {
    spec_replace_all(spec_replace_all(pattern, "{version}"@, version), "{project_name}"@, project)
}

pub open spec fn with_output_file_name(c: ConfigView, name: Seq<char>) -> ConfigView {
    ConfigView {
        android: AndroidView {
            app: AndroidAppView {
                build: AndroidAppBuildView { output_file_name: Some(name), ..c.android.app.build },
            },
            ..c.android
        },
        ..c
    }
}

/// The configuration with an absent version filled from the pubspec
/// section, and an absent output file name derived from the pattern, the
/// version and the project name.
pub open spec fn spec_version_defaults(c: ConfigView) -> ConfigView {
    let c1 = if c.version is None {
        match c.pubspec {
            Some(p) => match p.version {
                Some(v) => ConfigView { version: Some(v), ..c },
                None => c,
            },
            None => c,
        }
    } else {
        c
    };
    if c1.android.app.build.output_file_name is None && c1.version is Some {
        let pattern = match c1.output_file_name_pattern {
            Some(p) => p,
            None => default_output_pattern(),
        };
        with_output_file_name(
            c1,
            spec_output_file_name(pattern, c1.version->0, c1.project_name),
        )
    } else {
        c1
    }
}

/// Fills an absent version from the pubspec section and an absent output
/// file name from the pattern; says whether the version was taken from
/// the pubspec, so the caller can report it.
pub fn apply_version_defaults(cfg: &mut Config) -> (took_pubspec_version: bool)
    ensures
        final(cfg)@ == spec_version_defaults(old(cfg)@),
        took_pubspec_version == (old(cfg)@.version is None && final(cfg)@.version is Some),
{
    let mut took = false;
    if cfg.version.is_none() {
        match &cfg.pubspec {
            Some(p) => match &p.version {
                Some(v) => {
                    let value = v.clone();
                    cfg.version = Some(value);
                    took = true;
                },
                None => {},
            },
            None => {},
        }
    }
    let ghost c1 = cfg@;
    if cfg.android.app.build.output_file_name.is_none() && cfg.version.is_some() {
        let pattern = match &cfg.output_file_name_pattern {
            Some(p) => p.clone(),
            None => "{project_name}-v{version}-${name}.apk".to_owned(),
        };
        let version = match &cfg.version {
            Some(v) => v.clone(),
            None => String::new(),
        };
        proof {
            reveal_strlit("{version}");
            reveal_strlit("{project_name}");
        }
        let step1 = replace_all(pattern.as_str(), "{version}", version.as_str());
        let name = replace_all(step1.as_str(), "{project_name}", cfg.project_name.as_str());
        cfg.android.app.build.output_file_name = Some(name);
        proof {
            assert(cfg@ =~= with_output_file_name(
                c1,
                spec_output_file_name(
                    match c1.output_file_name_pattern {
                        Some(p) => p,
                        None => default_output_pattern(),
                    },
                    c1.version->0,
                    c1.project_name,
                ),
            ));
        }
    }
    took
}

// ---------------------------------------------------------------------------
// Which platforms a run processes
// ---------------------------------------------------------------------------

/// The platforms a run generates.
#[derive(Clone, Copy, PartialEq, Eq, Structural, Debug)]
pub struct PlatformSelection {
    pub android: bool,
    pub web: bool,
    pub windows: bool,
}

/// Whether the list holds this exact string.
pub open spec fn contains_str(xs: Seq<Seq<char>>, x: Seq<char>) -> bool {
    exists|i: int| 0 <= i < xs.len() && xs[i] == x
}

/// The platforms selected by the configuration: with no list, or an empty
/// one, only the Android platform; otherwise exactly the named ones, the
/// Android platform only when named.
pub open spec fn spec_platform_selection(platforms: Option<Seq<Seq<char>>>) -> PlatformSelection {
    match platforms {
        None => PlatformSelection { android: true, web: false, windows: false },
        Some(xs) => PlatformSelection {
            android: xs.len() == 0 || contains_str(xs, "android"@),
            web: contains_str(xs, "web"@),
            windows: contains_str(xs, "windows"@),
        },
    }
}

fn vec_contains_str(xs: &Vec<String>, x: &str) -> (r: bool)
    ensures
        r == contains_str(xs.deep_view(), x@),
{
    let n = xs.len();
    let mut i: usize = 0;
    while i < n
        invariant
            0 <= i <= n,
            n == xs@.len(),
            forall|k: int| 0 <= k < i ==> xs.deep_view()[k] != x@,
        decreases n - i,
    {
        if str_eq(xs[i].as_str(), x) {
            proof {
                assert(xs.deep_view()[i as int] == x@);
            }
            return true;
        }
        i = i + 1;
    }
    false
}

/// Reads which platforms the configuration selects.
pub fn platform_selection(platforms: &Option<Vec<String>>) -> (r: PlatformSelection)
    ensures
        r == spec_platform_selection(platforms.deep_view()),
{
    match platforms {
        None => PlatformSelection { android: true, web: false, windows: false },
        Some(xs) => {
            let android = xs.len() == 0 || vec_contains_str(xs, "android");
            let web = vec_contains_str(xs, "web");
            let windows = vec_contains_str(xs, "windows");
            PlatformSelection { android, web, windows }
        },
    }
}

// ---------------------------------------------------------------------------
// Which loader a configuration file needs
// ---------------------------------------------------------------------------

/// The configuration formats the loader knows.
#[derive(Clone, Copy, PartialEq, Eq, Structural, Debug)]
pub enum ConfigFormat {
    Pkl,
    Toml,
    Unsupported,
}

/// Start of the final path component: the index after the last slash or
/// backslash.
pub open spec fn file_name_start(s: Seq<char>) -> int
    decreases s.len(),
{
    if s.len() == 0 {
        0
    } else if s[s.len() - 1] == '/' || s[s.len() - 1] == '\\' {
        s.len() as int
    } else {
        file_name_start(s.drop_last())
    }
}

/// Index of the last dot of `s`, or a negative number if none.
pub open spec fn last_dot(s: Seq<char>) -> int
    decreases s.len(),
{
    if s.len() == 0 {
        -1
    } else if s[s.len() - 1] == '.' {
        s.len() - 1
    } else {
        last_dot(s.drop_last())
    }
}

/// The path's extension: what follows the last dot of the final
/// component, provided that dot is not the component's first character.
pub open spec fn spec_extension(path: Seq<char>) -> Option<Seq<char>> {
    let name = path.skip(file_name_start(path));
    let d = last_dot(name);
    if d > 0 {
        Some(name.skip(d + 1))
    } else {
        None
    }
}

/// The format a configuration path selects, by its extension.
pub open spec fn spec_config_format(path: Seq<char>) -> ConfigFormat {
    match spec_extension(path) {
        Some(e) => if e == "pkl"@ {
            ConfigFormat::Pkl
        } else if e == "toml"@ {
            ConfigFormat::Toml
        } else {
            ConfigFormat::Unsupported
        },
        None => ConfigFormat::Unsupported,
    }
}

proof fn lemma_file_name_start_pins(s: Seq<char>, j: int)
    requires
        0 <= j <= s.len(),
        forall|k: int| j <= k < s.len() ==> s[k] != '/' && s[k] != '\\',
        j > 0 ==> (s[j - 1] == '/' || s[j - 1] == '\\'),
    ensures
        file_name_start(s) == j,
    decreases s.len(),
{
    if s.len() > 0 && !(s[s.len() - 1] == '/' || s[s.len() - 1] == '\\') {
        assert forall|k: int| j <= k < s.drop_last().len() implies s.drop_last()[k] != '/'
            && s.drop_last()[k] != '\\' by {
            assert(s.drop_last()[k] == s[k]);
        }
        if j > 0 {
            assert(j < s.len());
            assert(s.drop_last()[j - 1] == s[j - 1]);
        }
        lemma_file_name_start_pins(s.drop_last(), j);
    }
}

proof fn lemma_last_dot_pins(s: Seq<char>, d: int)
    requires
        -1 <= d < s.len(),
        forall|k: int| d < k < s.len() ==> s[k] != '.',
        d >= 0 ==> s[d] == '.',
    ensures
        last_dot(s) == d,
    decreases s.len(),
{
    if s.len() > 0 && s[s.len() - 1] != '.' {
        assert(d < s.len() - 1);
        assert forall|k: int| d < k < s.drop_last().len() implies s.drop_last()[k] != '.' by {
            assert(s.drop_last()[k] == s[k]);
        }
        if d >= 0 {
            assert(s.drop_last()[d] == s[d]);
        }
        lemma_last_dot_pins(s.drop_last(), d);
    }
}

/// Reads which loader the configuration path selects.
pub fn config_format(path: &str) -> (r: ConfigFormat)
    ensures
        r == spec_config_format(path@),
{
    let len = path.unicode_len();
    let mut j: usize = len;
    while j > 0 && path.get_char(j - 1) != '/' && path.get_char(j - 1) != '\\'
        invariant
            0 <= j <= len,
            len == path@.len(),
            forall|k: int| j <= k < len ==> path@[k] != '/' && path@[k] != '\\',
        decreases j,
    {
        j = j - 1;
    }
    proof {
        lemma_file_name_start_pins(path@, j as int);
    }
    let name = path.substring_char(j, len);
    proof {
        assert(name@ =~= path@.skip(file_name_start(path@)));
    }
    let nlen = name.unicode_len();
    let mut d: usize = nlen;
    while d > 0 && name.get_char(d - 1) != '.'
        invariant
            0 <= d <= nlen,
            nlen == name@.len(),
            forall|k: int| d <= k < nlen ==> name@[k] != '.',
        decreases d,
    {
        d = d - 1;
    }
    if d == 0 {
        proof {
            lemma_last_dot_pins(name@, -1);
        }
        return ConfigFormat::Unsupported;
    }
    proof {
        lemma_last_dot_pins(name@, d as int - 1);
    }
    if d == 1 {
        return ConfigFormat::Unsupported;
    }
    let ext = name.substring_char(d, nlen);
    proof {
        assert(ext@ =~= name@.skip(last_dot(name@) + 1));
    }
    if str_eq(ext, "pkl") {
        ConfigFormat::Pkl
    } else if str_eq(ext, "toml") {
        ConfigFormat::Toml
    } else {
        ConfigFormat::Unsupported
    }
}

} // verus!
