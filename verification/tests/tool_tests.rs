use mcmm::config::Config;
use mcmm::error::ToolError;
use mcmm::structs::{Mod, Mods};
use mcmm::tool::{
    init_config, is_stale, java_executable, plan_server, progress_step, read_script, script_for,
    script_from_match, search_step, start_command, to_download, Loader, SearchAction,
};

#[test]
fn java_executable_paths() {
    assert_eq!(java_executable("", false), "java");
    assert_eq!(java_executable("/usr/lib/jvm/bin", false), "/usr/lib/jvm/bin/java");
    assert_eq!(java_executable("C:\\jdk\\bin", true), "C:\\jdk\\bin\\java");
    assert_eq!(java_executable("/usr/bin/java", false), "/usr/bin/java");
    assert_eq!(java_executable("C:\\jdk\\bin\\java.exe", true), "C:\\jdk\\bin\\java.exe");
}

#[test]
fn java_executable_settles() {
    for (j, w) in [("", false), ("/opt/jdk", false), ("C:\\jdk", true), ("java", true)] {
        let once = java_executable(j, w);
        assert_eq!(java_executable(&once, w), once);
        assert!(once.ends_with("java") || once.ends_with("java.exe"));
    }
}

#[test]
fn server_plans() {
    let p = plan_server("forge", "java", false).unwrap();
    assert_eq!(p.loader, Loader::Forge);
    assert_eq!(p.installer, "forge_server_installer.jar");
    assert_eq!(p.install_command, "java -jar forge_server_installer.jar --installServer .");
    assert_eq!(p.files, vec![("eula.txt".to_string(), "eula=true".to_string()),
        ("user_jvm_args.txt".to_string(), "-Xmx4G".to_string())]);
    assert_eq!(p.launch_script.as_deref(), Some("run.sh"));
    assert!(p.start.is_none());

    let p = plan_server("neoforge", "/j/java", true).unwrap();
    assert_eq!(p.loader, Loader::NeoForge);
    assert_eq!(p.install_command, "/j/java -jar neoforge_server_installer.jar --installServer .");
    assert_eq!(p.launch_script.as_deref(), Some("run.bat"));

    let p = plan_server("fabric", "java", false).unwrap();
    assert_eq!(p.installer, "fabric_server.jar");
    assert_eq!(p.install_command, "java -jar fabric_server.jar");
    assert_eq!(p.files, vec![("eula.txt".to_string(), "eula=true".to_string())]);
    assert!(p.launch_script.is_none());
    assert_eq!(p.start.as_deref(), Some("java -jar fabric_server.jar nogui"));

    match plan_server("forge\n", "java", false) {
        Err(ToolError::UnknownLoader(l)) => assert_eq!(l, "forge\n"),
        other => panic!("{:?}", other),
    }
}

#[test]
fn start_and_init() {
    assert_eq!(start_command("java", "java @user_jvm_args.txt"), "javajava @user_jvm_args.txt nogui");
    let c = init_config("1.21.1\n", " neoforge \n", "mods");
    assert_eq!((c.version(), c.loader(), c.dir()), ("1.21.1", "neoforge", "mods"));
}

#[test]
fn progress_steps() {
    assert_eq!(progress_step(1), 100);
    assert_eq!(progress_step(2), 0);
    assert_eq!(progress_step(7), 0);
}

#[test]
fn downloads_and_stale_files() {
    let entries = vec![("a.jar".to_string(), "u1".to_string()), ("b.jar".to_string(), "u2".to_string()),
        ("c.jar".to_string(), "u3".to_string())];
    assert_eq!(to_download(&entries, &vec![true, false, false]),
        vec![("b.jar".to_string(), "u2".to_string()), ("c.jar".to_string(), "u3".to_string())]);
    assert!(to_download(&entries, &vec![true, true, true]).is_empty());
    let names = vec!["a.jar".to_string(), "b.jar".to_string()];
    assert!(!is_stale(&names, "a.jar"));
    assert!(is_stale(&names, "old.jar"));
}

#[test]
fn scripts() {
    let mut c = Config::new("1.21.1", "forge", "mods");
    c.set_script("start", "java -jar x.jar nogui");
    assert_eq!(script_for(&c, "start").unwrap(), "java -jar x.jar nogui");
    match script_for(&c, "stop") {
        Err(ToolError::ScriptMissing(k)) => assert_eq!(k, "stop"),
        other => panic!("{:?}", other),
    }
}

#[test]
fn launch_script_line() {
    let text = "#!/usr/bin/env sh\n# comment\njava @user_jvm_args.txt @libraries/args.txt \"$@\"\n";
    assert_eq!(read_script(text).unwrap(), "java @user_jvm_args.txt @libraries/args.txt \"$@\"");
    assert!(matches!(read_script("echo hi\n"), Err(ToolError::NoScript)));
    assert!(matches!(script_from_match(None), Err(ToolError::BadPattern)));
    assert!(matches!(script_from_match(Some(None)), Err(ToolError::NoScript)));
    assert_eq!(script_from_match(Some(Some(" java x \r".to_string()))).unwrap(), "java x");
}

#[test]
fn search_prompt() {
    let page = Mods {
        hits: vec![Mod { project_id: "AANobbMI".to_string(), title: "Sodium".to_string() }],
        offset: 0,
        limit: 20,
    };
    assert!(matches!(search_step(0, "n\n", &page), SearchAction::Page(1)));
    assert!(matches!(search_step(5, " p ", &page), SearchAction::Page(4)));
    assert!(matches!(search_step(0, "p\n", &page), SearchAction::Page(0)));
    assert!(matches!(search_step(usize::MAX, "n", &page), SearchAction::Page(m) if m == usize::MAX));
    match search_step(0, "0\n", &page) {
        SearchAction::Pick(id) => assert_eq!(id, "AANobbMI"),
        other => panic!("{:?}", other),
    }
    assert!(matches!(search_step(0, "1\n", &page), SearchAction::Quit));
    assert!(matches!(search_step(0, "q\n", &page), SearchAction::Quit));
    assert!(matches!(search_step(0, "n\nn\n", &page), SearchAction::Quit));
    // forward then back returns to where it was
    if let SearchAction::Page(o) = search_step(7, "n", &page) {
        assert!(matches!(search_step(o, "p", &page), SearchAction::Page(7)));
    } else {
        panic!("no page");
    }
}

#[test]
fn install_plans() {
    let entries = vec![("a.jar".to_string(), "u1".to_string()), ("b.jar".to_string(), "u2".to_string())];
    let p = mcmm::tool::plan_install(&entries, &vec![true, false]);
    assert_eq!(p.names, vec!["a.jar".to_string(), "b.jar".to_string()]);
    assert_eq!(p.downloads, vec![("b.jar".to_string(), "u2".to_string())]);
    assert!(p.clear_after);
    assert_eq!(p.step, 100);
    let p = mcmm::tool::plan_install(&entries, &vec![false, false]);
    assert_eq!(p.downloads.len(), 2);
    assert!(p.clear_after);
    assert_eq!(p.step, 0);
    let p = mcmm::tool::plan_install(&entries, &vec![true, true]);
    assert!(p.downloads.is_empty());
    assert!(!p.clear_after);
    assert_eq!(p.step, 0);
}
