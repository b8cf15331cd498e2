use mcmm::mcmm::MCMM;
use mcmm::structs::{Fabric, Info, Mod, ModInfo, ModInfos, Mods, NeoForge};

fn hit(id: &str, title: &str) -> Mod {
    Mod { project_id: id.to_string(), title: title.to_string() }
}

fn version(loaders: &[&str], games: &[&str], files: &[(&str, &str)]) -> ModInfo {
    ModInfo {
        loaders: loaders.iter().map(|s| s.to_string()).collect(),
        game_versions: games.iter().map(|s| s.to_string()).collect(),
        files: files.iter().map(|(n, u)| Info { filename: n.to_string(), url: u.to_string() }).collect(),
    }
}

#[test]
fn mods_page_accessors() {
    let m = Mods { hits: vec![hit("AANobbMI", "Sodium"), hit("gvQqBUqZ", "Lithium")], offset: 3, limit: 20 };
    assert_eq!(m.offset(), 3);
    assert_eq!(m.limit(), 20);
    assert_eq!(m.list().len(), 2);
    assert_eq!(m.index(1).map(|x| x.id()), Some("gvQqBUqZ"));
    assert_eq!(m.index(0).map(|x| x.title()), Some("Sodium"));
    assert!(m.index(2).is_none());
}

#[test]
fn grid_numbers_hits_from_zero() {
    let m = Mods { hits: vec![hit("A", "Sodium"), hit("B", "Lithium")], offset: 0, limit: 20 };
    let g = m.grid();
    assert_eq!(g.len(), 2);
    assert_eq!((g[0].key, g[0].title.as_str(), g[0].id.as_str()), (0, "Sodium", "A"));
    assert_eq!((g[1].key, g[1].title.as_str(), g[1].id.as_str()), (1, "Lithium", "B"));
}

#[test]
fn chk_keeps_matching_versions_in_order() {
    let infos = ModInfos::new(vec![
        version(&["fabric"], &["1.21.1"], &[("a-fabric.jar", "u1")]),
        version(&["neoforge"], &["1.21.1"], &[("a-neo-1.jar", "u2")]),
        version(&["neoforge", "forge"], &["1.20.1", "1.21.1"], &[("a-neo-2.jar", "u3"), ("x.jar", "u4")]),
        version(&["neoforge"], &["1.20.1"], &[("a-old.jar", "u5")]),
    ]);
    let kept = infos.chk("1.21.1", "neoforge");
    assert_eq!(kept.content.len(), 2);
    assert_eq!(kept.file().map(|f| (f.name(), f.url())), Some(("a-neo-1.jar", "u2")));
    assert_eq!(kept.content[1].file().map(|f| f.name()), Some("a-neo-2.jar"));
    let again = kept.chk("1.21.1", "neoforge");
    assert_eq!(again.content.len(), 2);
    assert!(infos.chk("1.19", "neoforge").file().is_none());
}

#[test]
fn version_checks() {
    let v = version(&["forge"], &["1.20.1"], &[]);
    assert!(v.chk_version("1.20.1"));
    assert!(!v.chk_version("1.20"));
    assert!(v.chk_loader("forge"));
    assert!(!v.chk_loader("neoforge"));
    assert!(v.file().is_none());
    assert!(ModInfos::new(vec![v]).file().is_none());
    assert!(ModInfos::new(vec![]).file().is_none());
}

#[test]
fn loader_lists() {
    let n = NeoForge { versions: vec!["21.1.1".to_string(), "21.1.2".to_string()] };
    assert_eq!(n.versions(), vec!["21.1.1".to_string(), "21.1.2".to_string()]);
    let f = Fabric { version: "0.16.5".to_string() };
    assert_eq!(f.version(), "0.16.5");
}

#[test]
fn usage_rows() {
    let rows = MCMM::new();
    let got: Vec<(&str, &str, &str)> = rows.iter().map(|r| (r.options, r.functions, r.parameters)).collect();
    assert_eq!(got, vec![
        ("init", "初始化", ""),
        ("install, i", "下载", ""),
        ("add, a", "添加", "id(来自modrinth.com)"),
        ("search, s", "搜索", "关键词"),
        ("clear, c", "清空", ""),
    ]);
}
