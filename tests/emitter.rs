use built::text::{decimal, join_texts, strip_prefix};
use built::{fmt_option_str, render_built_file, version_from_output, write_ci, write_compiler_version,
            write_dependencies, write_env, write_features, write_git_version, write_time, BuildInfo,
            EnvironmentMap, GenError, Options};

fn env_of(pairs: &[(&str, &str)]) -> EnvironmentMap {
    let mut m = EnvironmentMap::new();
    for (k, v) in pairs {
        m.insert((*k).to_owned(), (*v).to_owned());
    }
    m
}

fn full_env() -> Vec<(&'static str, &'static str)> {
    vec![("CARGO_PKG_VERSION", "1.2.3-rc1"),
         ("CARGO_PKG_VERSION_MAJOR", "1"),
         ("CARGO_PKG_VERSION_MINOR", "2"),
         ("CARGO_PKG_VERSION_PATCH", "3"),
         ("CARGO_PKG_VERSION_PRE", "rc1"),
         ("CARGO_PKG_AUTHORS", "Joe:Bob"),
         ("CARGO_PKG_NAME", "testbox"),
         ("CARGO_PKG_DESCRIPTION", "xobtset"),
         ("CARGO_PKG_HOMEPAGE", "localhost"),
         ("TARGET", "x86_64-apple-darwin"),
         ("HOST", "x86_64-apple-darwin"),
         ("PROFILE", "debug"),
         ("RUSTC", "rustc"),
         ("RUSTDOC", "rustdoc"),
         ("OPT_LEVEL", "0"),
         ("NUM_JOBS", "8"),
         ("DEBUG", "true")]
}

fn info(time: &str) -> BuildInfo {
    BuildInfo {
        rustc_version: "rustc 1.15.0".to_owned(),
        rustdoc_version: "rustdoc 1.15.0".to_owned(),
        git_version: Some("0.1".to_owned()),
        dependencies: vec![("built".to_owned(), "0.1.0".to_owned()),
                           ("time".to_owned(), "0.1.36".to_owned())],
        built_time: time.to_owned(),
    }
}

#[test]
fn ci_declaration_for_travis() {
    let mut out = String::from("x");
    write_ci(&env_of(&[("TRAVIS", "true")]), &mut out);
    assert_eq!(out,
               "x/// The Continuous Integration platform detected during compilation.\n\
                pub const CI_PLATFORM: Option<&'static str> = Some(\"Travis CI\");\n");
}

#[test]
fn ci_declaration_without_platform() {
    let mut out = String::new();
    write_ci(&env_of(&[]), &mut out);
    assert!(out.ends_with("pub const CI_PLATFORM: Option<&'static str> = None;\n"));
}

#[test]
fn features_sorted_and_quoted() {
    let m = env_of(&[("CARGO_FEATURE_WAYLAND", "1"), ("PATH", "/bin"), ("CARGO_FEATURE_DEFAULT", "1")]);
    let mut out = String::new();
    write_features(&m, &mut out);
    assert_eq!(out,
               "/// The features that were enabled during compilation.\n\
                pub const FEATURES: [&'static str; 2] = [\"DEFAULT\", \"WAYLAND\"];\n\
                /// The features as a comma-separated string.\n\
                pub const FEATURES_STR: &'static str = \"DEFAULT, WAYLAND\";\n");
}

#[test]
fn features_none() {
    let mut out = String::new();
    write_features(&env_of(&[("CARGO_FEATURE", "1")]), &mut out);
    assert!(out.contains("pub const FEATURES: [&'static str; 0] = [];\n"));
    assert!(out.contains("pub const FEATURES_STR: &'static str = \"\";\n"));
}

#[test]
fn features_quote_escapes() {
    let mut out = String::new();
    write_features(&env_of(&[("CARGO_FEATURE_A\"B", "1")]), &mut out);
    assert!(out.contains("= [\"A\\\"B\"];\n"));
}

#[test]
fn dependencies_declarations() {
    let deps = vec![("built".to_owned(), "0.1.0".to_owned()), ("time".to_owned(), "0.1.36".to_owned())];
    let mut out = String::new();
    write_dependencies(&deps, &mut out);
    assert_eq!(out,
               "/// An array of effective dependencies as documented by `Cargo.lock`.\n\
                pub const DEPENDENCIES: [(&'static str, &'static str); 2] = [(\"built\", \"0.1.0\"), (\"time\", \"0.1.36\")];\n\
                /// The effective dependencies as a comma-separated string.\n\
                pub const DEPENDENCIES_STR: &'static str = \"built 0.1.0, time 0.1.36\";\n");
}

#[test]
fn env_declarations() {
    let m = env_of(&full_env());
    let mut out = String::new();
    write_env(&m, &mut out).unwrap();
    assert!(out.starts_with("#[doc=\"The full version.\"]\npub const PKG_VERSION: &'static str = \"1.2.3-rc1\";\n"));
    assert!(out.contains("#[doc=\"A colon-separated list of authors.\"]\npub const PKG_AUTHORS: &'static str = \"Joe:Bob\";\n"));
    assert!(out.contains("pub const OPT_LEVEL: u8 = 0;\n"));
    assert!(out.contains("pub const NUM_JOBS: u32 = 8;\n"));
    assert!(out.ends_with("#[doc=\"Value of DEBUG for the profile used during compilation.\"]\npub const DEBUG: bool = true;\n"));
    assert_eq!(out.matches("pub const ").count(), 17);
}

#[test]
fn env_debug_false() {
    let mut pairs = full_env();
    pairs.push(("DEBUG", "1"));
    let mut out = String::new();
    write_env(&env_of(&pairs), &mut out).unwrap();
    assert!(out.ends_with("pub const DEBUG: bool = false;\n"));
}

#[test]
fn env_missing_variable() {
    let pairs: Vec<_> = full_env().into_iter().filter(|(k, _)| *k != "NUM_JOBS").collect();
    let mut out = String::from("kept");
    assert_eq!(write_env(&env_of(&pairs), &mut out),
               Err(GenError::MissingVariable("NUM_JOBS".to_owned())));
    assert_eq!(out, "kept");
}

#[test]
fn compiler_declarations() {
    let mut out = String::new();
    write_compiler_version(&env_of(&full_env()), "rustc 1.15.0", "rustdoc 1.15.0", &mut out).unwrap();
    assert_eq!(out,
               "/// The output of `rustc -V`\npub const RUSTC_VERSION: &'static str = \"rustc 1.15.0\";\n\
                /// The output of `rustdoc -V`\npub const RUSTDOC_VERSION: &'static str = \"rustdoc 1.15.0\";\n");
    let mut out = String::new();
    assert_eq!(write_compiler_version(&env_of(&[("RUSTC", "rustc")]), "a", "b", &mut out),
               Err(GenError::MissingVariable("RUSTDOC".to_owned())));
    assert_eq!(out, "");
}

#[test]
fn git_and_time_declarations() {
    let mut out = String::new();
    write_git_version(&Some("foobar".to_owned()), &mut out);
    assert!(out.ends_with("pub const GIT_VERSION: Option<&'static str> = Some(\"foobar\");\n"));
    let mut out = String::new();
    write_git_version(&None, &mut out);
    assert!(out.ends_with("pub const GIT_VERSION: Option<&'static str> = None;\n"));
    let mut out = String::new();
    write_time("Tue, 14 Feb 2017 01:12:35 GMT", &mut out);
    assert_eq!(out,
               "/// The built-time in RFC822, UTC\npub const BUILT_TIME_UTC: &'static str = \"Tue, 14 Feb 2017 01:12:35 GMT\";\n");
}

#[test]
fn version_output_trimmed() {
    assert_eq!(version_from_output("rustc 1.15.0\n"), "rustc 1.15.0");
    assert_eq!(version_from_output("rustc 1.15.0\r\n"), "rustc 1.15.0");
    assert_eq!(version_from_output("rustc 1.15.0"), "rustc 1.15.0");
    assert_eq!(version_from_output(""), "");
}

#[test]
fn option_strings() {
    assert_eq!(fmt_option_str(Some("a")), "Some(\"a\")");
    assert_eq!(fmt_option_str(None), "None");
}

#[test]
fn text_helpers() {
    assert_eq!(decimal(0), "0");
    assert_eq!(decimal(1907), "1907");
    assert_eq!(join_texts(&vec!["a".to_owned(), "b".to_owned(), "c".to_owned()], ", "), "a, b, c");
    assert_eq!(strip_prefix("CARGO_FEATURE_X", "CARGO_FEATURE_"), Some("X".to_owned()));
    assert_eq!(strip_prefix("CARGO_FEAT", "CARGO_FEATURE_"), None);
}

#[test]
fn options_default_and_setters() {
    let mut o = Options::default();
    assert!(o.compiler && o.git && o.ci && o.env && o.features && o.time);
    assert!(!o.deps);
    o.set_dependencies(true).set_time(false).set_git(false);
    assert!(o.deps && !o.time && !o.git);
    o.set_compiler(false).set_ci(false).set_env(false).set_features(false);
    assert!(!o.compiler && !o.ci && !o.env && !o.features);
}

#[test]
fn render_full_module() {
    let m = env_of(&full_env());
    let mut o = Options::default();
    o.set_dependencies(true);
    let text = render_built_file(&o, &m, &info("T1")).unwrap();
    assert!(text.starts_with("//\n// EVERYTHING BELOW THIS POINT WAS AUTO-GENERATED DURING COMPILATION. DO NOT MODIFY.\n//\n/// The Continuous"));
    assert!(text.ends_with("\"T1\";\n//\n// EVERYTHING ABOVE THIS POINT WAS AUTO-GENERATED DURING COMPILATION. DO NOT MODIFY.\n//\n"));
    let order = ["CI_PLATFORM", "PKG_VERSION", "FEATURES", "RUSTC_VERSION", "GIT_VERSION", "DEPENDENCIES", "BUILT_TIME_UTC"];
    let mut at = 0;
    for name in order.iter() {
        let p = text[at..].find(&format!("pub const {}", name)).unwrap();
        at += p + 1;
    }
}

#[test]
fn render_twice_differs_only_in_time() {
    let m = env_of(&full_env());
    let o = Options::default();
    let a = render_built_file(&o, &m, &info("Tue, 14 Feb 2017 01:12:35 GMT")).unwrap();
    let b = render_built_file(&o, &m, &info("Wed, 15 Feb 2017 01:12:35 GMT")).unwrap();
    assert_ne!(a, b);
    assert_eq!(a.replace("Tue, 14", "Wed, 15"), b);
    let mut o = Options::default();
    o.set_time(false);
    assert_eq!(render_built_file(&o, &m, &info("x")).unwrap(), render_built_file(&o, &m, &info("y")).unwrap());
}

#[test]
fn render_missing_tool_path() {
    let m = env_of(&[("TRAVIS", "true")]);
    let mut o = Options::default();
    o.set_env(false);
    assert_eq!(render_built_file(&o, &m, &info("t")),
               Err(GenError::MissingVariable("RUSTC".to_owned())));
    o.set_compiler(false);
    let text = render_built_file(&o, &m, &info("t")).unwrap();
    assert!(text.contains("Some(\"Travis CI\")"));
}

#[test]
fn render_nothing_enabled() {
    let o = Options { compiler: false, git: false, ci: false, env: false, deps: false, features: false, time: false };
    assert_eq!(render_built_file(&o, &env_of(&[]), &info("t")).unwrap(),
               "//\n// EVERYTHING BELOW THIS POINT WAS AUTO-GENERATED DURING COMPILATION. DO NOT MODIFY.\n//\n\
                //\n// EVERYTHING ABOVE THIS POINT WAS AUTO-GENERATED DURING COMPILATION. DO NOT MODIFY.\n//\n");
}
