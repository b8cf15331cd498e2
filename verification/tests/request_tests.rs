use mcmm::config::Config;
use mcmm::request::{
    extension_for, file_from_url, holds_separator, lookup_url, resolve_after_fetch, resolve_by_name, resolve_flags,
    resolve_start, search_url, versions_url, ResolveFlags, ResolveStep, UrlLookup,
};
use mcmm::structs::{Info, ModInfo, ModInfos};
use mcmm::trusted::{first_match, parse_url, url_decode, url_encode, with_extension, has_extension};

#[test]
fn search_request_url() {
    assert_eq!(
        search_url("sodium mod", "fabric", "1.21.1", 2),
        "https://api.modrinth.com/v2/search?query=sodium%20mod&offset=2&facets=%5B%5B%22project_type%3Amod%22%5D%2C%5B%22versions%3A1.21.1%22%5D%2C%5B%22categories%3Afabric%22%5D%5D&limit=20"
    );
}

#[test]
fn versions_request_url() {
    assert_eq!(versions_url("AANobbMI"), "https://api.modrinth.com/v2/project/AANobbMI/version");
}

#[test]
fn percent_encoding() {
    assert_eq!(url_encode("方块"), "%E6%96%B9%E5%9D%97");
    assert_eq!(url_encode("a-b_c.d~e"), "a-b_c.d~e");
    assert_eq!(url_encode("a b/c"), "a%20b%2Fc");
}

#[test]
fn percent_decoding() {
    assert_eq!(url_decode("My%20Mod.jar"), Some("My Mod.jar".to_string()));
    assert_eq!(url_decode("100%"), Some("100%".to_string()));
    assert_eq!(url_decode("%zz%4"), Some("%zz%4".to_string()));
    assert_eq!(url_decode("%e6%96%b9"), Some("方".to_string()));
    assert_eq!(url_decode("%FF"), None);
}

#[test]
fn url_parts() {
    let p = parse_url("https://cdn.example.com/data/My%20Mod.jar?v=2").unwrap();
    assert_eq!(p.text, "https://cdn.example.com/data/My%20Mod.jar?v=2");
    assert_eq!(p.segments, Some(vec!["data".to_string(), "My%20Mod.jar".to_string()]));
    let q = parse_url("HTTPS://Example.com").unwrap();
    assert_eq!(q.text, "https://example.com/");
    assert!(parse_url("not a url").is_none());
    assert_eq!(parse_url("mailto:a@b.c").unwrap().segments, None);
}

#[test]
fn regex_first_line() {
    assert_eq!(first_match("(?m)^java\\s+(.*)$", "cd x\njava -jar a.jar\njava b"),
        Some(Some("java -jar a.jar".to_string())));
    assert_eq!(first_match("(?m)^java\\s+(.*)$", "nothing"), Some(None));
    assert_eq!(first_match("(", "x"), None);
}

#[test]
fn path_extensions() {
    assert!(has_extension("a.jar"));
    assert!(!has_extension("a"));
    assert_eq!(with_extension("My Mod.jar", "v=2.jar"), Some("My Mod.v=2.jar".to_string()));
    assert_eq!(with_extension("b", "jar"), Some("b.jar".to_string()));
}

#[test]
fn extension_rules() {
    assert_eq!(extension_for("v=2", true), Some("v=2.jar".to_string()));
    assert_eq!(extension_for("q", false), Some("jar".to_string()));
    assert_eq!(extension_for("q", true), None);
    assert_eq!(extension_for("", false), Some("jar".to_string()));
    assert_eq!(extension_for("é", true), Some("é.jar".to_string()));
    assert!(holds_separator("a/b"));
    assert!(holds_separator("a\\b"));
    assert!(!holds_separator("a.b"));
}

#[test]
fn url_ids_are_named_after_their_last_segment() {
    match lookup_url("https://cdn.example.com/data/My%20Mod.jar?v=2") {
        UrlLookup::Named(Some((name, url))) => {
            assert_eq!(name, "My Mod.v=2.jar");
            assert_eq!(url, "https://cdn.example.com/data/My%20Mod.jar?v=2");
        },
        other => panic!("{:?}", other),
    }
    match lookup_url("https://x.com/a/b?q") {
        UrlLookup::Named(Some((name, url))) => {
            assert_eq!(name, "b.jar");
            assert_eq!(url, "https://x.com/a/b?q");
        },
        other => panic!("{:?}", other),
    }
    assert!(matches!(lookup_url("https://x.com/a/c.jar?q"), UrlLookup::Named(Some((ref n, _))) if n == "c.jar"));
    assert!(matches!(lookup_url("https://cdn.example.com/a/mod.jar"), UrlLookup::Aborted));
    assert!(matches!(lookup_url("AANobbMI"), UrlLookup::NotUrl));
    assert!(matches!(lookup_url("https://x.com/%FF?ab"), UrlLookup::Named(None)));
}

#[test]
fn every_way_follows_url() {
    let f = resolve_flags(&vec!["url", "id"]);
    assert!(f.by_url && f.by_id && f.by_name);
    let f = resolve_flags(&vec!["name", "url", "id"]);
    assert!(f.by_url && f.by_id && f.by_name);
    let f = resolve_flags(&vec!["id", "name"]);
    assert!(!f.by_url && !f.by_id && !f.by_name);
}

#[test]
fn resolving_steps() {
    let all = ResolveFlags { by_url: true, by_id: true, by_name: true };
    assert!(matches!(resolve_start("https://x.com/a/b?q", &all), ResolveStep::Found(..)));
    assert!(matches!(resolve_start("https://x.com/a/b.jar", &all), ResolveStep::Aborted));
    assert!(matches!(resolve_start("AANobbMI", &all), ResolveStep::FetchVersions));
    let none = ResolveFlags { by_url: false, by_id: false, by_name: false };
    assert!(matches!(resolve_start("https://x.com/a/b?q", &none), ResolveStep::Missing));
    let name_only = ResolveFlags { by_url: false, by_id: false, by_name: true };
    assert!(matches!(resolve_start("AANobbMI", &name_only), ResolveStep::ReadConfig));

    let infos = ModInfos::new(vec![ModInfo {
        loaders: vec!["fabric".to_string()],
        game_versions: vec!["1.21.1".to_string()],
        files: vec![Info { filename: "sodium.jar".to_string(), url: "https://cdn/sodium.jar".to_string() }],
    }]);
    match resolve_after_fetch(Some(&infos), "1.21.1", "fabric", &all) {
        ResolveStep::Found(n, u) => assert_eq!((n.as_str(), u.as_str()), ("sodium.jar", "https://cdn/sodium.jar")),
        other => panic!("{:?}", other),
    }
    assert!(matches!(resolve_after_fetch(Some(&infos), "1.20.1", "fabric", &all), ResolveStep::Missing));
    assert!(matches!(resolve_after_fetch(None, "1.21.1", "fabric", &all), ResolveStep::ReadConfig));
    assert!(matches!(resolve_after_fetch(None, "1.21.1", "fabric", &none), ResolveStep::Missing));

    let mut c = Config::new("1.21.1", "fabric", "mods");
    c.push("sodium.jar", "https://cdn/sodium.jar");
    match resolve_by_name("sodium.jar", Some(&c)) {
        ResolveStep::Found(n, u) => assert_eq!((n.as_str(), u.as_str()), ("sodium.jar", "")),
        other => panic!("{:?}", other),
    }
    assert!(matches!(resolve_by_name("other.jar", Some(&c)), ResolveStep::Missing));
    assert!(matches!(resolve_by_name("sodium.jar", None), ResolveStep::Missing));
}

#[test]
fn url_is_given_back_in_normal_form() {
    match lookup_url("HTTPS://X.com/a/b?q") {
        UrlLookup::Named(Some((name, url))) => {
            assert_eq!(name, "b.jar");
            assert_eq!(url, "https://x.com/a/b?q");
        },
        other => panic!("{:?}", other),
    }
}

#[test]
fn modrinth_file_url_with_query() {
    let id = "https://cdn.modrinth.com/data/AANobbMI/versions/abc/sodium%20fabric.jar?v=2";
    match lookup_url(id) {
        UrlLookup::Named(Some((name, url))) => {
            assert_eq!(name, "sodium fabric.v=2.jar");
            assert_eq!(url, id);
        },
        other => panic!("{:?}", other),
    }
    let all = ResolveFlags { by_url: true, by_id: true, by_name: true };
    match resolve_start(id, &all) {
        ResolveStep::Found(name, _) => assert_eq!(name, "sodium fabric.v=2.jar"),
        other => panic!("{:?}", other),
    }
}

#[test]
fn plain_name_extensions() {
    assert!(!has_extension(".a"));
    assert!(!has_extension(".."));
    assert!(!has_extension("."));
    assert!(has_extension("a."));
    assert!(has_extension("..a"));
    assert_eq!(with_extension(".a", "jar"), Some(".a.jar".to_string()));
    assert_eq!(with_extension("a..", "x"), Some("a..x".to_string()));
    assert_eq!(with_extension("a.b.c", "x"), Some("a.b.x".to_string()));
    assert_eq!(with_extension("..", "jar"), Some("..".to_string()));
    assert_eq!(with_extension(".", "jar"), Some(".".to_string()));
    assert_eq!(with_extension("", "jar"), Some("".to_string()));
}

#[test]
fn file_from_parse_result() {
    let id = "https://x.com/a/b%20c?v=10";
    let p = parse_url(id).unwrap();
    match file_from_url(id, p) {
        UrlLookup::Named(Some((name, url))) => {
            assert_eq!(name, "b c.v=10.jar");
            assert_eq!(url, id);
        },
        other => panic!("{:?}", other),
    }
}
