use fluttertools::gradle::{
    apply_app_gradle, apply_plugin_repositories, apply_repositories, manifest_mappings,
    platforms_root,
};

#[test]
fn repositories_are_inserted_after_the_first_opener() {
    let content = "allprojects {\n    repositories {\n        google()\n    }\n}\n";
    let repos = vec!["https://maven.example/releases".to_string()];
    let out = apply_repositories(content, &repos);
    let expected = "allprojects {\n    repositories {\n        maven { url = uri(\"https://maven.example/releases\") }\n        google()\n    }\n}\n";
    assert_eq!(out, expected);
}

#[test]
fn only_the_first_opener_gets_the_insertion() {
    let content = "repositories {\n}\nrepositories {\n}\n";
    let repos = vec!["r1".to_string(), "r2".to_string()];
    let out = apply_repositories(content, &repos);
    let expected = "repositories {\n        maven { url = uri(\"r1\") }\n        maven { url = uri(\"r2\") }\n}\nrepositories {\n}\n";
    assert_eq!(out, expected);
}

#[test]
fn without_an_opener_the_file_is_unchanged_up_to_line_endings() {
    let content = "plugins {\n    id(\"x\")\n}\n";
    let out = apply_repositories(content, &Vec::new());
    assert_eq!(out, content);
}

#[test]
fn plugin_repositories_use_the_same_insertion() {
    let content = "pluginManagement {\n    repositories {\n        gradlePluginPortal()\n    }\n}\n";
    let repos = vec!["https://plugins.example".to_string()];
    let out = apply_plugin_repositories(content, &repos);
    let expected = "pluginManagement {\n    repositories {\n        maven { url = uri(\"https://plugins.example\") }\n        gradlePluginPortal()\n    }\n}\n";
    assert_eq!(out, expected);
}

fn app_gradle_input() -> &'static str {
    "android {\n    namespace = \"old.ns\"\n    defaultConfig {\n        applicationId = \"old.id\"\n    }\n    buildTypes {\n        release {\n        }\n    }\n    kotlinOptions {\n        jvmTarget = \"1.8\"\n    }\n}\n"
}

#[test]
fn app_gradle_substitutes_namespace_and_application_id() {
    let out = apply_app_gradle(app_gradle_input(), "new.ns", "new.id", &None, &None, None);
    assert!(out.contains("    namespace = \"new.ns\"\n"));
    assert!(out.contains("        applicationId = \"new.id\"\n"));
    assert!(!out.contains("old.ns"));
    assert!(!out.contains("old.id"));
}

#[test]
fn app_gradle_rewrites_nothing_else_without_options() {
    let out = apply_app_gradle(app_gradle_input(), "old.ns", "old.id", &None, &None, None);
    assert_eq!(out, app_gradle_input());
}

#[test]
fn app_gradle_adds_ndk_block_inside_default_config() {
    let abis = Some(vec!["arm64-v8a".to_string(), "x86_64".to_string()]);
    let out = apply_app_gradle(app_gradle_input(), "n", "i", &None, &abis, None);
    let expected_block = "        ndk {\n            abiFilters.add(\"arm64-v8a\")\n            abiFilters.add(\"x86_64\")\n        }\n    }\n";
    assert!(out.contains(expected_block), "missing ndk block in:\n{}", out);
}

#[test]
fn app_gradle_empty_abi_list_adds_nothing() {
    let out = apply_app_gradle(
        app_gradle_input(),
        "old.ns",
        "old.id",
        &None,
        &Some(Vec::new()),
        None,
    );
    assert_eq!(out, app_gradle_input());
}

#[test]
fn app_gradle_adds_output_name_block_after_build_types() {
    let pat = Some("app-${name}.apk".to_string());
    let out = apply_app_gradle(app_gradle_input(), "n", "i", &pat, &None, None);
    assert!(out.contains("    applicationVariants.all {"));
    assert!(out.contains("            output.outputFileName = \"app-${name}.apk\""));
}

#[test]
fn app_gradle_disables_kotlin_incremental_only_when_asked() {
    let with = apply_app_gradle(app_gradle_input(), "n", "i", &None, &None, Some(false));
    assert!(with.contains("        incremental = false"));
    let without = apply_app_gradle(app_gradle_input(), "n", "i", &None, &None, Some(true));
    assert!(!without.contains("incremental = false"));
    let absent = apply_app_gradle(app_gradle_input(), "n", "i", &None, &None, None);
    assert!(!absent.contains("incremental = false"));
}

#[test]
fn app_gradle_full_rewrite_is_exact() {
    let content = "    defaultConfig {\n    }\n    buildTypes {\n    }\n";
    let abis = Some(vec!["x86".to_string()]);
    let pat = Some("p.apk".to_string());
    let out = apply_app_gradle(content, "n", "i", &pat, &abis, None);
    let expected = "    defaultConfig {\n        ndk {\n            abiFilters.add(\"x86\")\n        }\n    }\n    buildTypes {\n    }\n\n    applicationVariants.all {\n        outputs.all {\n            val output = this as com.android.build.gradle.internal.api.BaseVariantOutputImpl\n            output.outputFileName = \"p.apk\"\n        }\n    }\n";
    assert_eq!(out, expected);
}

#[test]
fn manifest_mappings_name_the_three_templates() {
    let m = manifest_mappings();
    assert_eq!(m.len(), 3);
    assert_eq!(m[0].template, "AndroidManifest.main.xml");
    assert_eq!(m[0].destination, "app/src/main/AndroidManifest.xml");
    assert!(m[0].required);
    assert_eq!(m[1].template, "AndroidManifest.debug.xml");
    assert!(!m[1].required);
    assert_eq!(m[2].template, "AndroidManifest.profile.xml");
    assert!(!m[2].required);
}

#[test]
fn platforms_root_defaults_and_trims() {
    assert_eq!(platforms_root(&None), "platforms");
    assert_eq!(platforms_root(&Some("  ".to_string())), "platforms");
    assert_eq!(platforms_root(&Some(" custom ".to_string())), "custom");
}
