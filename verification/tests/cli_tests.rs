use mcmm::cli::{parse_args, Command};
use mcmm::error::ToolError;

fn args(a: &[&str]) -> Vec<String> {
    a.iter().map(|s| s.to_string()).collect()
}

#[test]
fn no_command_shows_usage() {
    assert!(matches!(parse_args(&args(&["mcmm"])), Ok(Command::Usage)));
    assert!(matches!(parse_args(&args(&[])), Ok(Command::Usage)));
    assert!(matches!(parse_args(&args(&["mcmm", "help"])), Ok(Command::Usage)));
}

#[test]
fn new_takes_defaults() {
    match parse_args(&args(&["mcmm", "n", "srv", "1.21.1"])) {
        Ok(Command::New { path, version, loader, java, dir }) => {
            assert_eq!((path.as_str(), version.as_str(), loader.as_str(), java.as_str(), dir.as_str()),
                ("srv", "1.21.1", "", "", "mods"));
        },
        other => panic!("{:?}", other),
    }
    match parse_args(&args(&["mcmm", "new", "s", "v", "fabric", "/jdk", "plugins"])) {
        Ok(Command::New { dir, java, .. }) => assert_eq!((dir.as_str(), java.as_str()), ("plugins", "/jdk")),
        other => panic!("{:?}", other),
    }
}

#[test]
fn init_install_clear_run() {
    match parse_args(&args(&["mcmm", "init", "1.21.1", "neoforge"])) {
        Ok(Command::Init { version, loader, dir }) => {
            assert_eq!((version.as_str(), loader.as_str(), dir.as_str()), ("1.21.1", "neoforge", "mods"));
        },
        other => panic!("{:?}", other),
    }
    assert!(matches!(parse_args(&args(&["mcmm", "i"])), Ok(Command::Install)));
    assert!(matches!(parse_args(&args(&["mcmm", "install"])), Ok(Command::Install)));
    match parse_args(&args(&["mcmm", "c"])) {
        Ok(Command::Clear(d)) => assert_eq!(d, "mods"),
        other => panic!("{:?}", other),
    }
    match parse_args(&args(&["mcmm", "run", "start"])) {
        Ok(Command::Run(k)) => assert_eq!(k, "start"),
        other => panic!("{:?}", other),
    }
}

#[test]
fn add_remove_search_need_arguments() {
    assert!(matches!(parse_args(&args(&["mcmm", "add"])), Err(ToolError::NoAddTarget)));
    assert!(matches!(parse_args(&args(&["mcmm", "r"])), Err(ToolError::NoRemoveTarget)));
    assert!(matches!(parse_args(&args(&["mcmm", "s"])), Err(ToolError::NoSearchTerm)));
    assert!(matches!(parse_args(&args(&["mcmm", "run"])), Err(ToolError::NoCommand)));
    match parse_args(&args(&["mcmm", "a", "AANobbMI", "gvQqBUqZ"])) {
        Ok(Command::Add(ids)) => assert_eq!(ids, args(&["AANobbMI", "gvQqBUqZ"])),
        other => panic!("{:?}", other),
    }
    match parse_args(&args(&["mcmm", "remove", "x.jar"])) {
        Ok(Command::Remove(ids)) => assert_eq!(ids, args(&["x.jar"])),
        other => panic!("{:?}", other),
    }
    match parse_args(&args(&["mcmm", "search", "sodium", "extra"])) {
        Ok(Command::Search(k)) => assert_eq!(k, "sodium"),
        other => panic!("{:?}", other),
    }
}
