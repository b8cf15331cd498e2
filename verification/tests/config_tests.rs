use mcmm::config::Config;
use mcmm::strmap::StrMap;
use mcmm::tool::forget_mod;

fn names(c: &Config) -> Vec<String> {
    c.get_content().into_iter().map(|(k, _)| k).collect()
}

#[test]
fn new_config_is_empty() {
    let c = Config::new("1.21.1", "neoforge", "mods");
    assert_eq!(c.version(), "1.21.1");
    assert_eq!(c.loader(), "neoforge");
    assert_eq!(c.dir(), "mods");
    assert!(c.get_content().is_empty());
    assert_eq!(c.script("start"), None);
}

#[test]
fn push_keeps_names_in_ascending_order() {
    let mut c = Config::new("1.21.1", "fabric", "mods");
    c.push("sodium.jar", "https://a/sodium.jar");
    c.push("lithium.jar", "https://a/lithium.jar");
    c.push("iris.jar", "https://a/iris.jar");
    c.push("Zeta.jar", "https://a/zeta.jar");
    assert_eq!(names(&c), vec!["Zeta.jar", "iris.jar", "lithium.jar", "sodium.jar"]);
    assert_eq!(c.get_content()[1], ("iris.jar".to_string(), "https://a/iris.jar".to_string()));
}

#[test]
fn push_then_read_back() {
    let mut c = Config::new("1.21.1", "fabric", "mods");
    c.push("a.jar", "u1");
    c.push("b.jar", "u2");
    assert!(c.has_mod("a.jar"));
    assert!(c.has_mod("b.jar"));
    assert!(!c.has_mod("c.jar"));
    assert_eq!(c.mods.get("a.jar"), Some("u1"));
    assert_eq!(c.mods.get("b.jar"), Some("u2"));
}

#[test]
fn push_twice_keeps_last() {
    let mut c = Config::new("1.21.1", "fabric", "mods");
    c.push("a.jar", "u1");
    c.push("a.jar", "u2");
    assert_eq!(c.get_content(), vec![("a.jar".to_string(), "u2".to_string())]);
}

#[test]
fn remove_by_name_undoes_push() {
    let mut c = Config::new("1.21.1", "fabric", "mods");
    c.push("a.jar", "u1");
    let before = c.get_content();
    c.push("b.jar", "u2");
    c.remove_by_name("b.jar");
    assert_eq!(c.get_content(), before);
    c.remove_by_name("missing.jar");
    assert_eq!(c.get_content(), before);
}

#[test]
fn remove_by_url_drops_every_mod_from_it() {
    let mut c = Config::new("1.21.1", "fabric", "mods");
    c.push("a.jar", "u1");
    c.push("b.jar", "u2");
    c.push("c.jar", "u1");
    c.remove_by_url("u1");
    assert_eq!(c.get_content(), vec![("b.jar".to_string(), "u2".to_string())]);
}

#[test]
fn scripts_read_back() {
    let mut c = Config::new("1.21.1", "forge", "mods");
    c.set_script("start", "java -jar server.jar nogui");
    c.set_script("backup", "tar czf b.tgz world");
    assert_eq!(c.script("start"), Some("java -jar server.jar nogui"));
    assert_eq!(c.script("backup"), Some("tar czf b.tgz world"));
    c.set_script("start", "java2");
    assert_eq!(c.script("start"), Some("java2"));
    assert_eq!(c.script("stop"), None);
    assert!(c.get_content().is_empty());
}

#[test]
fn order_depends_only_on_contents() {
    let mut m1 = StrMap::new();
    m1.insert("b".to_string(), "2".to_string());
    m1.insert("a".to_string(), "1".to_string());
    m1.insert("c".to_string(), "3".to_string());
    let mut m2 = StrMap::new();
    m2.insert("c".to_string(), "3".to_string());
    m2.insert("a".to_string(), "1".to_string());
    m2.insert("b".to_string(), "2".to_string());
    assert_eq!(m1.entries(), m2.entries());
    assert_eq!(m1.len(), 3);
    m1.remove("b");
    assert_eq!(m1.len(), 2);
    assert!(!m1.contains_key("b"));
}

#[test]
fn forget_mod_by_name_and_url() {
    let mut c = Config::new("1.21.1", "fabric", "mods");
    c.push("a.jar", "u1");
    c.push("b.jar", "u2");
    c.push("c.jar", "u2");
    forget_mod(&mut c, "a.jar", "");
    assert_eq!(c.get_content().len(), 2);
    forget_mod(&mut c, "zzz.jar", "u2");
    assert!(c.get_content().is_empty());
}
