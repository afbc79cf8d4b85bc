use modpack_downloader::layout::{
    mod_file_name, modpack_paths, plan_mod_download, ModpackPathError,
};
use modpack_downloader::overrides::{
    is_override_entry, normalize_entry_name, plan_override_entry, sanitize_override_path,
    OverridePlan,
};
use modpack_downloader::paths::{join_path, split_text};

#[test]
fn join_path_follows_unix_rules() {
    assert_eq!(join_path("a", "b"), "a/b");
    assert_eq!(join_path("a/", "b"), "a/b");
    assert_eq!(join_path("", "b"), "b");
    assert_eq!(join_path("a", "/b"), "/b");
    assert_eq!(join_path("a", ""), "a/");
    assert_eq!(join_path("", ""), "");
}

#[test]
fn join_path_agrees_with_std() {
    for (base, part) in [("a", "b"), ("a/", "b"), ("", "b"), ("a", "/b"), ("a", ""), ("/x/y", "z.txt")] {
        let expected = std::path::Path::new(base).join(part);
        assert_eq!(join_path(base, part), expected.to_string_lossy());
    }
}

#[test]
fn split_text_keeps_empty_pieces() {
    assert_eq!(split_text(""), vec![""]);
    assert_eq!(split_text("a/b"), vec!["a", "b"]);
    assert_eq!(split_text("/a//"), vec!["", "a", "", ""]);
}

#[test]
fn modpack_paths_beside_the_archive() {
    let p = modpack_paths("/home/u/pack.zip").unwrap();
    assert_eq!(p.output, "/home/u/pack");
    assert_eq!(p.mods, "/home/u/pack/mods");
    let r = modpack_paths("/srv/packs/All The Mods.v2.zip").unwrap();
    assert_eq!(r.output, "/srv/packs/All The Mods.v2");
    let q = modpack_paths("pack.zip").unwrap();
    assert_eq!(q.output, "pack");
    assert_eq!(q.mods, "pack/mods");
}

#[test]
fn modpack_paths_errors() {
    assert_eq!(modpack_paths("/").err(), Some(ModpackPathError::NoParentDir));
    assert_eq!(modpack_paths("").err(), Some(ModpackPathError::NoParentDir));
    assert_eq!(modpack_paths("..").err(), Some(ModpackPathError::MissingFileStem));
    assert_eq!(ModpackPathError::NoParentDir.message(), "Modpack file has no parent dir");
    assert_eq!(
        ModpackPathError::MissingFileStem.message(),
        "Modpack file is missing .zip extension"
    );
}

#[test]
fn mod_file_name_after_last_slash() {
    assert_eq!(mod_file_name("https://cdn.example.com/files/1/2/jei-1.0.jar"), "jei-1.0.jar");
    assert_eq!(mod_file_name("https://cdn.example.com/files/"), "");
    assert_eq!(mod_file_name("mailto:x"), "ailto:x");
}

#[test]
fn plan_mod_download_parses_and_names() {
    let d = plan_mod_download("HTTPS://Example.COM/a/b.jar", "/out/mods").unwrap();
    assert_eq!(d.url, "https://example.com/a/b.jar");
    assert_eq!(d.file_name, "b.jar");
    assert_eq!(d.path, "/out/mods/b.jar");
    assert!(plan_mod_download("not a url/x.jar", "/out/mods").is_none());
    assert!(plan_mod_download("\u{e9}tude", "/out/mods").is_none());
    assert!(plan_mod_download("", "/out/mods").is_none());
    let m = plan_mod_download("mailto:x", "/out/mods").unwrap();
    assert_eq!(m.path, "/out/mods/ailto:x");
}

#[test]
fn entry_names_are_normalized() {
    assert_eq!(normalize_entry_name("overrides\\config\\a.cfg"), "overrides/config/a.cfg");
    assert_eq!(normalize_entry_name("plain"), "plain");
}

#[test]
fn override_entries_are_recognized() {
    assert!(is_override_entry("overrides/a"));
    assert!(is_override_entry("/overrides/a"));
    assert!(is_override_entry("overrides/"));
    assert!(!is_override_entry("overrides"));
    assert!(!is_override_entry("modlist.json"));
    assert!(!is_override_entry("xoverrides/a"));
}

#[test]
fn override_path_drops_the_first_piece_and_sanitizes() {
    assert_eq!(sanitize_override_path("overrides/config/a.cfg"), "config/a.cfg");
    assert_eq!(sanitize_override_path("overrides/co:nfig/a?.cfg"), "config/a.cfg");
    assert_eq!(sanitize_override_path("overrides/"), "");
    assert_eq!(sanitize_override_path("overrides/config/"), "config/");
    assert_eq!(sanitize_override_path("/overrides/a"), "a");
    assert_eq!(sanitize_override_path("/overrides/config/a.cfg"), "config/a.cfg");
}

#[test]
fn override_path_never_climbs_out() {
    let p = sanitize_override_path("overrides/../../etc/passwd");
    assert_eq!(p, "etc/passwd");
    assert!(p.split('/').all(|seg| seg != ".." && seg != "."));
}

#[test]
fn override_parent_lies_in_output() {
    match plan_override_entry("overrides/a/b/c.txt", "/home/u/pack") {
        Some(OverridePlan::File { path, parent }) => {
            assert_eq!(path, "/home/u/pack/a/b/c.txt");
            assert_eq!(parent, Some("/home/u/pack/a/b".to_string()));
        }
        _ => panic!("expected a file"),
    }
    match plan_override_entry("overrides/x.txt", "pack") {
        Some(OverridePlan::File { path, parent }) => {
            assert_eq!(path, "pack/x.txt");
            assert_eq!(parent, Some("pack".to_string()));
        }
        _ => panic!("expected a file"),
    }
}

#[test]
fn override_pieces_lose_separators_and_colons() {
    assert_eq!(sanitize_override_path("overrides/c:on\\fig/a.cfg"), "config/a.cfg");
}

#[test]
fn plan_override_entry_kinds() {
    assert!(plan_override_entry("modlist.json", "/out").is_none());
    match plan_override_entry("overrides\\config\\a.cfg", "/out") {
        Some(OverridePlan::File { path, parent }) => {
            assert_eq!(path, "/out/config/a.cfg");
            assert_eq!(parent, Some("/out/config".to_string()));
        }
        _ => panic!("expected a file"),
    }
    match plan_override_entry("overrides/config/", "/out") {
        Some(OverridePlan::Directory { path }) => assert_eq!(path, "/out/config/"),
        _ => panic!("expected a directory"),
    }
    match plan_override_entry("\\overrides\\config\\a.cfg", "/out") {
        Some(OverridePlan::File { path, .. }) => assert_eq!(path, "/out/config/a.cfg"),
        _ => panic!("expected a file"),
    }
    match plan_override_entry("overrides/", "/out") {
        Some(OverridePlan::Directory { path }) => assert_eq!(path, "/out/"),
        _ => panic!("expected a directory"),
    }
}
