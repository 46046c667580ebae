use std::collections::HashMap;

use create_tauri_app::conditional::resolve_file_name;
use create_tauri_app::manifest::Manifest;
use create_tauri_app::package_manager::PackageManager;
use create_tauri_app::render::{file_bytes, lib_name, Asset, FileWrite, RenderError};
use create_tauri_app::template::{Flavor, Template};

const MANIFEST_FILE: &str = r#"
        # Copyright 2019-2022 Tauri Programme within The Commons Conservancy
        # SPDX-License-Identifier: Apache-2.0
        # SPDX-License-Identifier: MIT

        beforeDevCommand = ~pkg_manager_run_command~ start~double-dash~ --port 1420
        beforeBuildCommand = ~pkg_manager_run_command~ build # this comment should be stripped
        devPath = http://localhost:1420

        [files]
        tauri.svg = src/assets/tauri.svg
        styles.css = src/styles.css
    "#;

#[test]
fn it_works() {
    let manifest_file = MANIFEST_FILE;

    let content = r#"{
    "build": {
        "beforeDevCommand": "~fragment_before_dev_command~",
        "beforeBuildCommand": "~fragment_before_build_command~",
        "devPath": "~fragment_dev_path~",
        "distDir": "~fragment_dist_dir~"
    },
}"#;

    let manifest = Manifest::parse(manifest_file, false).unwrap();
    assert_eq!(
        Template::replace_vars(content, "cta_lib", "cta-app", PackageManager::Npm, manifest).as_str(),
        r#"{
    "build": {
        "beforeDevCommand": "npm run start -- --port 1420",
        "beforeBuildCommand": "npm run build",
        "devPath": "http://localhost:1420",
        "distDir": ""
    },
}"#
        .to_string()
    );

    let manifest = Manifest::parse(manifest_file, false).unwrap();
    assert_eq!(
        Template::replace_vars(content, "cta_lib", "cta-app", PackageManager::Pnpm, manifest).as_str(),
        r#"{
    "build": {
        "beforeDevCommand": "pnpm start --port 1420",
        "beforeBuildCommand": "pnpm build",
        "devPath": "http://localhost:1420",
        "distDir": ""
    },
}"#
        .to_string()
    );
}

const FLAVORS: [Flavor; 2] = [Flavor::JavaScript, Flavor::TypeScript];

fn with_flavors() -> Vec<Template> {
    vec![Template::Vanilla, Template::Vue, Template::Svelte, Template::React, Template::Solid, Template::Preact]
}

#[test]
fn without_flavor_undoes_from_flavor() {
    for t in with_flavors() {
        for f in FLAVORS {
            assert_eq!(t.from_flavor(f).without_flavor(), t);
        }
    }
    assert_eq!(Template::Vue.from_flavor(Flavor::TypeScript), Template::VueTs);
    assert_eq!(Template::Vue.from_flavor(Flavor::JavaScript), Template::Vue);
}

#[test]
fn from_flavor_is_noop_without_support() {
    for t in Template::all() {
        if with_flavors().contains(&t) {
            continue;
        }
        for f in FLAVORS {
            assert_eq!(t.from_flavor(f), t);
        }
    }
}

#[test]
fn flavors_offered() {
    assert_eq!(Template::Vanilla.flavors(PackageManager::Cargo), None);
    assert_eq!(Template::Vanilla.flavors(PackageManager::Npm), Some(vec![Flavor::TypeScript, Flavor::JavaScript]));
    assert_eq!(Template::Yew.flavors(PackageManager::Cargo), None);
    for t in Template::all() {
        assert_eq!(t.flavors(PackageManager::Cargo), None);
    }
    assert_eq!(Template::Vue.flavors(PackageManager::Cargo), None);
    assert_eq!(Template::Preact.flavors(PackageManager::Bun), Some(vec![Flavor::TypeScript, Flavor::JavaScript]));
    assert_eq!(Template::ReactTs.flavors(PackageManager::Pnpm), None);
    assert_eq!(Flavor::TypeScript.name(), "TypeScript");
}

#[test]
fn catalog_lookups() {
    assert_eq!(Template::Vanilla.possible_package_managers().len(), 5);
    assert_eq!(Template::Yew.possible_package_managers(), vec![PackageManager::Cargo]);
    assert_eq!(Template::Angular.possible_package_managers(), PackageManager::node());
    assert!(Template::Leptos.needs_trunk());
    assert!(!Template::Vue.needs_trunk());
    assert!(Template::Vanilla.needs_tauri_cli());
    assert!(!Template::VanillaTs.needs_tauri_cli());
    assert!(Template::Sycamore.needs_wasm32_target());
    assert_eq!(Template::Vue.select_text(), "Vue - (https://vuejs.org)");
    assert_eq!(Template::default(), Template::Vanilla);
}

#[test]
fn parse_templates() {
    for t in Template::all() {
        assert_eq!(Template::parse(t.id()), Ok(t));
    }
    let err = Template::parse("vanila").unwrap_err();
    assert!(err.starts_with("vanila is not a valid template. Valid templates are [vanilla, vanilla-ts, vue,"));
    assert!(err.ends_with("preact, preact-ts]"));
    assert_eq!(PackageManager::from_id("bun"), Some(PackageManager::Bun));
    assert_eq!(PackageManager::from_id("deno"), None);
}

#[test]
fn conditional_stable_managers() {
    let name = "%(pnpm-npm-yarn-stable-alpha)%package.json";
    for pm in [PackageManager::Pnpm, PackageManager::Npm, PackageManager::Yarn] {
        assert_eq!(resolve_file_name(name, pm, false, false), Some("package.json".to_string()));
    }
    assert_eq!(resolve_file_name(name, PackageManager::Bun, false, false), None);
    assert_eq!(resolve_file_name(name, PackageManager::Cargo, false, false), None);
    assert_eq!(resolve_file_name(name, PackageManager::Npm, true, false), Some("package.json".to_string()));
    assert_eq!(resolve_file_name(name, PackageManager::Npm, true, true), None);
}

#[test]
fn conditional_mobile() {
    let name = "%(mobile)%config.extra.json";
    assert_eq!(resolve_file_name(name, PackageManager::Cargo, true, true), Some("config.extra.json".to_string()));
    assert_eq!(resolve_file_name(name, PackageManager::Cargo, true, false), None);
    assert_eq!(resolve_file_name(name, PackageManager::Cargo, false, true), None);
}

#[test]
fn fixed_renames() {
    let pm = PackageManager::Npm;
    assert_eq!(resolve_file_name("_gitignore", pm, false, false), Some(".gitignore".to_string()));
    assert_eq!(resolve_file_name("_Cargo.toml", pm, false, false), Some("Cargo.toml".to_string()));
    assert_eq!(resolve_file_name("_cta_manifest_", pm, false, false), None);
    assert_eq!(resolve_file_name("%(npm)%_cta_manifest_", pm, false, false), None);
    assert_eq!(resolve_file_name("index.html", pm, false, false), Some("index.html".to_string()));
    assert_eq!(resolve_file_name("%(npm)%a)%b", pm, false, false), Some("a".to_string()));
    assert_eq!(resolve_file_name("%()%x", pm, false, false), None);
    assert_eq!(resolve_file_name("%(npm%x", pm, false, false), Some("%(npm%x".to_string()));
}

#[test]
fn substitution_order_and_separator() {
    let m = Manifest::parse("", false).unwrap();
    let s = "~pkg_manager_run_command~ start~double-dash~ --port 1420";
    assert_eq!(Template::replace_vars(s, "x_lib", "x", PackageManager::Npm, m), "npm run start -- --port 1420");
    let m = Manifest::parse("", false).unwrap();
    assert_eq!(Template::replace_vars(s, "x_lib", "x", PackageManager::Pnpm, m), "pnpm start --port 1420");
    let m = Manifest::parse("beforeDevCommand = ~package_name~", false).unwrap();
    assert_eq!(
        Template::replace_vars("~fragment_before_dev_command~ ~lib_name~", "my_app_lib", "my-app", PackageManager::Bun, m),
        "my-app my_app_lib"
    );
    let m = Manifest::parse("", false).unwrap();
    assert_eq!(
        Template::replace_vars(r#"{"g": "~fragment_with_global_tauri~"}"#, "a", "b", PackageManager::Cargo, m),
        r#"{"g": false}"#
    );
    assert_eq!(lib_name("cta-app"), "cta_app_lib");
}

#[test]
fn manifest_errors_and_mobile_keys() {
    let e = Manifest::parse("devPath = x\nno equals here\n", false).err().unwrap();
    assert_eq!(e.line, 2);
    let text = "[files]\na.png = one.png\nmobile.b.png = two.png\n";
    assert_eq!(Manifest::parse(text, false).unwrap().files().len(), 1);
    let m = Manifest::parse(text, true).unwrap();
    assert_eq!(m.files().len(), 2);
    assert_eq!(m.files()[1].0, "b.png".chars().collect::<Vec<char>>());
}

#[test]
fn binary_content_is_copied() {
    let m = Manifest::parse("", false).unwrap();
    let data = vec![0xff, 0xfe, b'~', 0x80, 0x00];
    assert_eq!(file_bytes("package.json", &data, "app", PackageManager::Npm, &m), data);
    let text = b"name = \"~package_name~\"".to_vec();
    assert_eq!(file_bytes("Cargo.toml", &text, "my-app", PackageManager::Npm, &m), b"name = \"my-app\"".to_vec());
    assert_eq!(file_bytes("README.md", &text, "my-app", PackageManager::Npm, &m), text);
}

fn asset(path: &str, data: &[u8]) -> Asset {
    Asset { path: path.to_string(), data: data.to_vec() }
}

fn apply(writes: &[FileWrite]) -> HashMap<String, Vec<u8>> {
    let mut fs: HashMap<String, Vec<u8>> = HashMap::new();
    for w in writes {
        if w.append {
            fs.entry(w.path.clone()).or_default().extend_from_slice(&w.data);
        } else {
            fs.insert(w.path.clone(), w.data.clone());
        }
    }
    fs
}

#[test]
fn template_zone_overrides_base() {
    let store = vec![
        asset("fragment-vanilla/common/app.css", b"template"),
        asset("_base_/common/app.css", b"base"),
        asset("_base_/_gitignore", b"target"),
        asset("fragment-vanilla/_cta_manifest_", b"devPath = x\n"),
        asset("fragment-vue/common/app.css", b"vue"),
    ];
    let writes = Template::Vanilla.render(&store, PackageManager::Cargo, "app", false, false).ok().unwrap();
    let fs = apply(&writes);
    assert_eq!(fs.get("common/app.css"), Some(&b"template".to_vec()));
    assert_eq!(fs.get(".gitignore"), Some(&b"target".to_vec()));
    assert_eq!(fs.len(), 2);
}

#[test]
fn extra_files_concatenate() {
    let store = vec![
        asset("fragment-vue/_cta_manifest_", b"[files]\nicon-a.png = src/assets/icon.png\nicon-b.png = src/assets/icon.png\n"),
        asset("_assets_/icon-a.png", &[1, 2, 3]),
        asset("_assets_/icon-b.png", &[4, 5]),
        asset("fragment-vue/src/main.rs", b"~lib_name~"),
    ];
    let writes = Template::Vue.render(&store, PackageManager::Pnpm, "my-app", false, false).ok().unwrap();
    let fs = apply(&writes);
    assert_eq!(fs.get("src/assets/icon.png"), Some(&vec![1, 2, 3, 4, 5]));
    assert_eq!(fs.get("src/main.rs"), Some(&b"my_app_lib".to_vec()));
}

#[test]
fn render_errors() {
    let store = vec![asset("_base_/a.txt", b"a")];
    match Template::Vue.render(&store, PackageManager::Npm, "x", false, false) {
        Err(RenderError::AssetNotFound(p)) => assert_eq!(p, "fragment-vue/_cta_manifest_"),
        _ => panic!("expected a missing manifest"),
    }
    let store = vec![asset("fragment-vue/_cta_manifest_", &[0xff])];
    assert!(matches!(Template::Vue.render(&store, PackageManager::Npm, "x", false, false), Err(RenderError::ManifestNotText)));
    let store = vec![asset("fragment-vue/_cta_manifest_", b"\n\nbad line")];
    assert!(matches!(Template::Vue.render(&store, PackageManager::Npm, "x", false, false), Err(RenderError::ManifestParse(3))));
    let store = vec![asset("fragment-vue/_cta_manifest_", b"[files]\nnone.png = a.png")];
    match Template::Vue.render(&store, PackageManager::Npm, "x", false, false) {
        Err(RenderError::AssetNotFound(p)) => assert_eq!(p, "_assets_/none.png"),
        _ => panic!("expected a missing asset"),
    }
}
