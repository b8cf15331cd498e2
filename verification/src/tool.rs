//! The decisions of the tool's commands, apart from the reading, writing, downloading and
//! running that the program around the library does.

use vstd::prelude::*;
use crate::config::Config;
use crate::decimal::{parse_usize, parsed_usize};
use crate::error::ToolError;
use crate::strmap::{as_map, Entries};
use crate::structs::{Mods, ModView, strings_view};
use crate::text::{contains_str, has_suffix, ends_with, trim, trimmed, compare_keys, KeyOrder};
use crate::trusted::{first_match, regex_first_match};

verus! {

/// The java executable a server is set up with: empty means `java`; a path that does not
/// already end in `java` or `java.exe` gets the executable's name appended with the
/// platform's separator.
pub open spec fn java_rule(java: Seq<char>, windows: bool) -> Seq<char> {
    if java.len() > 0 && !(has_suffix(java, "java"@) || has_suffix(java, "java.exe"@)) {
        java + (if windows { "\\java"@ } else { "/java"@ })
    } else if java.len() == 0 {
        "java"@
    } else {
        java
    }
}

/// The java executable to run, from what the user gave.
pub fn java_executable(java: &str, windows: bool) -> (r: String)
    ensures
        r@ == java_rule(java@, windows),
{
    if !java.is_empty() && !(ends_with(java, "java") || ends_with(java, "java.exe")) {
        let mut r = java.to_owned();
        r.append(if windows { "\\java" } else { "/java" });
        r
    } else if java.is_empty() {
        "java".to_owned()
    } else {
        java.to_owned()
    }
}

/// What `java_executable` gives ends in `java` or `java.exe`, and giving it its own result
/// changes nothing.
pub proof fn lemma_java_rule_settles(java: Seq<char>, windows: bool)
    ensures
        has_suffix(java_rule(java, windows), "java"@) || has_suffix(java_rule(java, windows), "java.exe"@),
        java_rule(java_rule(java, windows), windows) == java_rule(java, windows),
{
    reveal_strlit("java");
    reveal_strlit("java.exe");
    reveal_strlit("\\java");
    reveal_strlit("/java");
    let r = java_rule(java, windows);
    if java.len() > 0 && !(has_suffix(java, "java"@) || has_suffix(java, "java.exe"@)) {
        assert(r.subrange(r.len() - 4, r.len() as int) =~= "java"@);
    } else if java.len() == 0 {
        assert(r.subrange(0, 4) =~= "java"@);
    }
}

/// The mod loaders a server can be set up with.
#[derive(PartialEq, Eq, Structural, Clone, Copy, Debug)]
pub enum Loader {
    Forge,
    NeoForge,
    Fabric,
}

/// How to set up a server: the installer to download, the command that installs, the files
/// to write afterwards, and how the start command is found.
#[derive(Debug)]
pub struct ServerPlan {
    pub loader: Loader,
    /// File name the installer is downloaded to, in the server directory.
    pub installer: String,
    /// Command line that runs the installer, in the server directory.
    pub install_command: String,
    /// (file name, content) written in the server directory after installing.
    pub files: Vec<(String, String)>,
    /// Script whose `java` line gives the start command, when it is read from one.
    pub launch_script: Option<String>,
    /// The start command, when it is not read from a script.
    pub start: Option<String>,
}

/// The loader named `loader`, exactly as typed.
pub open spec fn loader_of(loader: Seq<char>) -> Option<Loader> {
    if loader == "forge"@ {
        Some(Loader::Forge)
    } else if loader == "neoforge"@ {
        Some(Loader::NeoForge)
    } else if loader == "fabric"@ {
        Some(Loader::Fabric)
    } else {
        None
    }
}

/// The installer file of a loader.
pub open spec fn installer_of(l: Loader) -> Seq<char> {
    match l {
        Loader::Forge => "forge_server_installer.jar"@,
        Loader::NeoForge => "neoforge_server_installer.jar"@,
        Loader::Fabric => "fabric_server.jar"@,
    }
}

/// The command that runs a loader's installer with `java`.
pub open spec fn install_command_of(l: Loader, java: Seq<char>) -> Seq<char> {
    match l {
        Loader::Forge => java + " -jar forge_server_installer.jar --installServer ."@,
        Loader::NeoForge => java + " -jar neoforge_server_installer.jar --installServer ."@,
        Loader::Fabric => java + " -jar fabric_server.jar"@,
    }
}

/// The files written after installing.
pub open spec fn files_of(l: Loader) -> Seq<(Seq<char>, Seq<char>)> {
    match l {
        Loader::Fabric => seq![("eula.txt"@, "eula=true"@)],
        _ => seq![("eula.txt"@, "eula=true"@), ("user_jvm_args.txt"@, "-Xmx4G"@)],
    }
}

/// The launch script the installer writes, read for the start command.
pub open spec fn script_of(l: Loader, windows: bool) -> Option<Seq<char>> {
    match l {
        Loader::Fabric => None,
        _ => Some(if windows { "run.bat"@ } else { "run.sh"@ }),
    }
}

/// The start command known without reading a script.
pub open spec fn start_of(l: Loader, java: Seq<char>) -> Option<Seq<char>> {
    match l {
        Loader::Fabric => Some(java + " -jar fabric_server.jar nogui"@),
        _ => None,
    }
}

/// Whether `s` begins with `t`.
pub open spec fn has_prefix(s: Seq<char>, t: Seq<char>) -> bool {
    s.len() >= t.len() && s.take(t.len() as int) == t
}

/// The installer a plan downloads is the jar its install command runs with the given java
/// (`java -jar <installer> ...`), it is named after the loader (`<loader>_server...`), and
/// a start command known without a script runs that same jar.
pub proof fn lemma_installer_is_what_runs(loader: Seq<char>, java: Seq<char>)
    requires
        loader_of(loader) is Some,
    ensures
        has_prefix(installer_of(loader_of(loader)->0), loader + "_server"@),
        has_prefix(install_command_of(loader_of(loader)->0, java), java + " -jar "@ + installer_of(loader_of(loader)->0)),
        start_of(loader_of(loader)->0, java) matches Some(st) ==> has_prefix(st, java + " -jar "@ + installer_of(
            loader_of(loader)->0)),
{
    let l = loader_of(loader)->0;
    if loader == "forge"@ {
        lemma_forge_plan(java);
    } else if loader == "neoforge"@ {
        lemma_neoforge_plan(java);
    } else {
        lemma_fabric_plan(java);
    }
}

proof fn lemma_forge_plan(java: Seq<char>)
    ensures
        has_prefix(installer_of(Loader::Forge), "forge"@ + "_server"@),
        has_prefix(install_command_of(Loader::Forge, java), java + " -jar "@ + installer_of(Loader::Forge)),
{
    reveal_strlit("forge");
    reveal_strlit("_server");
    reveal_strlit(" -jar ");
    reveal_strlit("forge_server_installer.jar");
    reveal_strlit(" -jar forge_server_installer.jar --installServer .");
    let inst = installer_of(Loader::Forge);
    let pre = java + " -jar "@ + inst;
    assert(inst.take(12) =~= "forge"@ + "_server"@);
    assert(install_command_of(Loader::Forge, java).take(pre.len() as int) =~= pre);
}

proof fn lemma_neoforge_plan(java: Seq<char>)
    ensures
        has_prefix(installer_of(Loader::NeoForge), "neoforge"@ + "_server"@),
        has_prefix(install_command_of(Loader::NeoForge, java), java + " -jar "@ + installer_of(Loader::NeoForge)),
{
    reveal_strlit("neoforge");
    reveal_strlit("_server");
    reveal_strlit(" -jar ");
    reveal_strlit("neoforge_server_installer.jar");
    reveal_strlit(" -jar neoforge_server_installer.jar --installServer .");
    let inst = installer_of(Loader::NeoForge);
    let pre = java + " -jar "@ + inst;
    assert(inst.take(15) =~= "neoforge"@ + "_server"@);
    assert(install_command_of(Loader::NeoForge, java).take(pre.len() as int) =~= pre);
}

proof fn lemma_fabric_plan(java: Seq<char>)
    ensures
        has_prefix(installer_of(Loader::Fabric), "fabric"@ + "_server"@),
        has_prefix(install_command_of(Loader::Fabric, java), java + " -jar "@ + installer_of(Loader::Fabric)),
        has_prefix(start_of(Loader::Fabric, java)->0, java + " -jar "@ + installer_of(Loader::Fabric)),
{
    reveal_strlit("fabric");
    reveal_strlit("_server");
    reveal_strlit(" -jar ");
    reveal_strlit("fabric_server.jar");
    reveal_strlit(" -jar fabric_server.jar");
    reveal_strlit(" -jar fabric_server.jar nogui");
    let inst = installer_of(Loader::Fabric);
    let pre = java + " -jar "@ + inst;
    assert(inst.take(13) =~= "fabric"@ + "_server"@);
    assert(install_command_of(Loader::Fabric, java).take(pre.len() as int) =~= pre);
    assert((start_of(Loader::Fabric, java)->0).take(pre.len() as int) =~= pre);
}

fn joined(a: &str, b: &str) -> (r: String)
    ensures
        r@ == a@ + b@,
{
    let mut r = a.to_owned();
    r.append(b);
    r
}

fn file_pair(name: &str, content: &str) -> (r: (String, String))
    ensures
        r.0@ == name@ && r.1@ == content@,
{
    (name.to_owned(), content.to_owned())
}

/// The plan for setting up a server with loader `loader` (as typed, untrimmed) and the java
/// executable `java`.
pub fn plan_server(loader: &str, java: &str, windows: bool) -> (r: Result<ServerPlan, ToolError>)
    ensures
        loader_of(loader@) is None <==> r is Err,
        r matches Err(e) ==> e matches ToolError::UnknownLoader(l) && l@ == loader@,
        r matches Ok(p) ==> has_prefix(p.install_command@, java@ + " -jar "@ + p.installer@),
        r matches Ok(p) ==> has_prefix(p.installer@, loader@ + "_server"@),
        r matches Ok(p) ==> {
            let l = loader_of(loader@)->0;
            &&& p.loader == l
            &&& p.installer@ == installer_of(l)
            &&& p.install_command@ == install_command_of(l, java@)
            &&& p.files@.map_values(|f: (String, String)| (f.0@, f.1@)) == files_of(l)
            &&& match p.launch_script {
                Some(s) => script_of(l, windows) == Some(s@),
                None => script_of(l, windows) is None,
            }
            &&& match p.start {
                Some(s) => start_of(l, java@) == Some(s@),
                None => start_of(l, java@) is None,
            }
        },
{
    let script = if windows { "run.bat" } else { "run.sh" };
    proof {
        if loader_of(loader@) is Some {
            lemma_installer_is_what_runs(loader@, java@);
        }
    }
    if compare_keys(loader, "forge") == KeyOrder::Equal {
        let files = vec![file_pair("eula.txt", "eula=true"), file_pair("user_jvm_args.txt", "-Xmx4G")];
        assert(files@.map_values(|f: (String, String)| (f.0@, f.1@)) =~= files_of(Loader::Forge));
        Ok(ServerPlan {
            loader: Loader::Forge,
            installer: "forge_server_installer.jar".to_owned(),
            install_command: joined(java, " -jar forge_server_installer.jar --installServer ."),
            files,
            launch_script: Some(script.to_owned()),
            start: None,
        })
    } else if compare_keys(loader, "neoforge") == KeyOrder::Equal {
        let files = vec![file_pair("eula.txt", "eula=true"), file_pair("user_jvm_args.txt", "-Xmx4G")];
        assert(files@.map_values(|f: (String, String)| (f.0@, f.1@)) =~= files_of(Loader::NeoForge));
        Ok(ServerPlan {
            loader: Loader::NeoForge,
            installer: "neoforge_server_installer.jar".to_owned(),
            install_command: joined(java, " -jar neoforge_server_installer.jar --installServer ."),
            files,
            launch_script: Some(script.to_owned()),
            start: None,
        })
    } else if compare_keys(loader, "fabric") == KeyOrder::Equal {
        let files = vec![file_pair("eula.txt", "eula=true")];
        assert(files@.map_values(|f: (String, String)| (f.0@, f.1@)) =~= files_of(Loader::Fabric));
        Ok(ServerPlan {
            loader: Loader::Fabric,
            installer: "fabric_server.jar".to_owned(),
            install_command: joined(java, " -jar fabric_server.jar"),
            files,
            launch_script: None,
            start: Some(joined(java, " -jar fabric_server.jar nogui")),
        })
    } else {
        Err(ToolError::UnknownLoader(loader.to_owned()))
    }
}

/// The start command made of the java executable and the `java` line of the launch script.
pub fn start_command(java: &str, script: &str) -> (r: String)
    ensures
        r@ == java@ + script@ + " nogui"@,
{
    let mut r = java.to_owned();
    r.append(script);
    r.append(" nogui");
    r
}

/// The project file that `init` writes: version and loader trimmed of white space.
pub fn init_config(version: &str, loader: &str, dir: &str) -> (c: Config)
    ensures
        c.server.version@ == trimmed(version@),
        c.server.loader@ == trimmed(loader@),
        c.server.dir@ == dir@,
        c.mods@.len() == 0,
        c.scripts@.len() == 0,
{
    let v = trim(version);
    let l = trim(loader);
    Config::new(v.as_str(), l.as_str(), dir)
}

/// How far the progress bar moves for each finished download out of `n`.
pub fn progress_step(n: usize) -> (r: u64)
    requires
        n > 0,
    ensures
        r == (if n == 1 { 100u64 } else { 0u64 }),
{
    assert(1usize / n == (if n == 1 { 1usize } else { 0usize })) by (nonlinear_arith)
        requires
            n > 0,
    ;
    ((1 / n) * 100) as u64
}

/// The entries whose file is not present, in order.
pub open spec fn missing_entries(e: Entries, present: Seq<bool>) -> Entries
    decreases e.len(),
{
    if e.len() == 0 {
        e
    } else if !present[e.len() - 1] {
        missing_entries(e.drop_last(), present.take(e.len() - 1)).push(e.last())
    } else {
        missing_entries(e.drop_last(), present.take(e.len() - 1))
    }
}

/// How many of the flags are `false`.
pub open spec fn count_absent(present: Seq<bool>) -> nat
    decreases present.len(),
{
    if present.len() == 0 {
        0
    } else {
        count_absent(present.drop_last()) + (if present.last() { 0nat } else { 1nat })
    }
}

/// The mods downloaded are exactly those whose file is missing: every entry whose flag says
/// absent is among them, each of them is an entry whose flag says absent, and there are as
/// many of them as there are absent flags.
pub proof fn lemma_downloads_exactly_missing(e: Entries, present: Seq<bool>)
    requires
        present.len() == e.len(),
    ensures
        forall|i: int| 0 <= i < e.len() && !present[i] ==> missing_entries(e, present).contains(#[trigger] e[i]),
        forall|k: int| 0 <= k < missing_entries(e, present).len() ==> exists|i: int| 0 <= i < e.len()
            && !present[i] && e[i] == #[trigger] missing_entries(e, present)[k],
        missing_entries(e, present).len() == count_absent(present),
    decreases e.len(),
{
    if e.len() > 0 {
        let n = e.len() - 1;
        let e1 = e.drop_last();
        let p1 = present.take(n);
        assert(p1 =~= present.drop_last());
        lemma_downloads_exactly_missing(e1, p1);
        let m1 = missing_entries(e1, p1);
        let m = missing_entries(e, present);
        assert forall|i: int| 0 <= i < e.len() && !present[i] implies m.contains(#[trigger] e[i]) by {
            if i < n {
                assert(e1[i] == e[i] && p1[i] == present[i]);
                assert(m1.contains(e1[i]));
                let k = choose|k: int| 0 <= k < m1.len() && m1[k] == e1[i];
                if !present[n] {
                    assert(m[k] == m1[k]);
                }
            } else {
                assert(m[m.len() - 1] == e[n]);
            }
        }
        assert forall|k: int| 0 <= k < m.len() implies exists|i: int| 0 <= i < e.len() && !present[i]
            && e[i] == #[trigger] m[k] by {
            if k < m1.len() {
                assert(m[k] == m1[k]);
                let i = choose|i: int| 0 <= i < e1.len() && !p1[i] && e1[i] == m1[k];
                assert(e[i] == e1[i] && present[i] == p1[i]);
            } else {
                assert(!present[n] && m[k] == e[n]);
            }
        }
    }
}

/// The mods to download: those whose file is not present (`present[i]` for entry `i`).
pub fn to_download(entries: &Vec<(String, String)>, present: &Vec<bool>) -> (r: Vec<(String, String)>)
    requires
        present@.len() == entries@.len(),
    ensures
        r@.map_values(|e: (String, String)| (e.0@, e.1@)) == missing_entries(
            entries@.map_values(|e: (String, String)| (e.0@, e.1@)),
            present@,
        ),
{
    let ghost ev = entries@.map_values(|e: (String, String)| (e.0@, e.1@));
    let n = entries.len();
    let mut r: Vec<(String, String)> = Vec::new();
    let mut i: usize = 0;
    while i < n
        invariant
            n == entries@.len(),
            n == present@.len(),
            i <= n,
            ev == entries@.map_values(|e: (String, String)| (e.0@, e.1@)),
            r@.map_values(|e: (String, String)| (e.0@, e.1@)) == missing_entries(ev.take(i as int), present@.take(i as int)),
        decreases n - i,
    {
        assert(ev.take(i + 1).drop_last() =~= ev.take(i as int));
        assert(present@.take(i + 1).take(i as int) =~= present@.take(i as int));
        assert(ev.take(i + 1).last() == ev[i as int]);
        if !present[i] {
            let e = &entries[i];
            let ghost before = r@.map_values(|e: (String, String)| (e.0@, e.1@));
            r.push((e.0.clone(), e.1.clone()));
            assert(r@.map_values(|e: (String, String)| (e.0@, e.1@)) =~= before.push(ev[i as int]));
        }
        i = i + 1;
    }
    assert(ev.take(n as int) =~= ev);
    assert(present@.take(n as int) =~= present@);
    r
}

/// What `install` does with the mods of the project file.
#[derive(Debug)]
pub struct InstallPlan {
    /// The names of all recorded mods, in order: the files that clearing keeps.
    pub names: Vec<String>,
    /// The mods whose file is missing, to download.
    pub downloads: Vec<(String, String)>,
    /// Whether the directory is cleared after the downloads (only when there are some).
    pub clear_after: bool,
    /// How far the progress bar moves per finished download (0 when there are none).
    pub step: u64,
}

/// The install plan for the recorded mods `entries` (as `get_content` gives them), where
/// `present[i]` tells whether the file of entry `i` exists: download the missing ones, and,
/// when there are any, show progress and then clear the files that are not recorded.
pub fn plan_install(entries: &Vec<(String, String)>, present: &Vec<bool>) -> (p: InstallPlan)
    requires
        present@.len() == entries@.len(),
    ensures
        strings_view(p.names@) == entries@.map_values(|e: (String, String)| e.0@),
        p.downloads@.map_values(|e: (String, String)| (e.0@, e.1@)) == missing_entries(
            entries@.map_values(|e: (String, String)| (e.0@, e.1@)),
            present@,
        ),
        p.clear_after == (p.downloads@.len() > 0),
        p.step == (if p.downloads@.len() == 1 { 100u64 } else { 0u64 }),
{
    let n = entries.len();
    let mut names: Vec<String> = Vec::new();
    let mut i: usize = 0;
    while i < n
        invariant
            n == entries@.len(),
            i <= n,
            strings_view(names@) == entries@.map_values(|e: (String, String)| e.0@).take(i as int),
        decreases n - i,
    {
        let ghost before = names@;
        names.push(entries[i].0.clone());
        assert(strings_view(names@) =~= strings_view(before).push(entries@[i as int].0@));
        assert(entries@.map_values(|e: (String, String)| e.0@).take(i + 1) =~= entries@.map_values(
            |e: (String, String)| e.0@,
        ).take(i as int).push(entries@[i as int].0@));
        i = i + 1;
    }
    assert(entries@.map_values(|e: (String, String)| e.0@).take(n as int) =~= entries@.map_values(
        |e: (String, String)| e.0@,
    ));
    let downloads = to_download(entries, present);
    let k = downloads.len();
    let step = if k > 0 { progress_step(k) } else { 0 };
    InstallPlan { names, downloads, clear_after: k > 0, step }
}

/// Whether a file named `name` is to be deleted: it is not one of `names`.
pub fn is_stale(names: &Vec<String>, name: &str) -> (b: bool)
    ensures
        b == !strings_view(names@).contains(name@),
{
    let found = contains_str(names, name);
    proof {
        if found {
            let j = choose|j: int| 0 <= j < names@.len() && (#[trigger] names@[j])@ == name@;
            assert(strings_view(names@)[j] == name@);
        } else {
            if strings_view(names@).contains(name@) {
                let j = choose|j: int| 0 <= j < strings_view(names@).len() && strings_view(names@)[j] == name@;
                assert(names@[j]@ == name@);
            }
        }
    }
    !found
}

/// Forgets the mod that an id resolved to: by its file name, and, when the URL is not
/// empty, every mod downloaded from that URL too.
pub fn forget_mod(config: &mut Config, name: &str, url: &str)
    ensures
        url@.len() == 0 ==> as_map(final(config).mods@) == as_map(old(config).mods@).remove(name@),
        url@.len() > 0 ==> forall|x: Seq<char>| #[trigger] as_map(final(config).mods@).contains_key(x) == (
            as_map(old(config).mods@).contains_key(x) && x != name@ && as_map(old(config).mods@)[x] != url@),
        url@.len() > 0 ==> forall|x: Seq<char>| #[trigger] as_map(final(config).mods@).contains_key(x)
            ==> as_map(final(config).mods@)[x] == as_map(old(config).mods@)[x],
        final(config).scripts == old(config).scripts,
        final(config).server == old(config).server,
{
    config.remove_by_name(name);
    if !url.is_empty() {
        config.remove_by_url(url);
    }
}

/// The command line of the script named `k`.
pub fn script_for(config: &Config, k: &str) -> (r: Result<String, ToolError>)
    ensures
        r is Ok == as_map(config.scripts@).contains_key(k@),
        r matches Ok(s) ==> s@ == as_map(config.scripts@)[k@],
        r matches Err(e) ==> e matches ToolError::ScriptMissing(m) && m@ == k@,
{
    match config.script(k) {
        Some(s) => Ok(s.to_owned()),
        None => Err(ToolError::ScriptMissing(k.to_owned())),
    }
}

/// The pattern of the `java` line in a launch script.
pub const JAVA_LINE: &'static str = "(?m)^java\\s+(.*)$";

/// The start line made of what the pattern matched: refused pattern, no match, or the
/// match trimmed.
pub open spec fn script_rule(m: Option<Option<Seq<char>>>) -> Result<Seq<char>, ToolError> {
    match m {
        None => Err(ToolError::BadPattern),
        Some(None) => Err(ToolError::NoScript),
        Some(Some(t)) => Ok(trimmed(t)),
    }
}

/// The start line from what the pattern matched.
pub fn script_from_match(m: Option<Option<String>>) -> (r: Result<String, ToolError>)
    ensures
        match m {
            None => r matches Err(ToolError::BadPattern),
            Some(None) => r matches Err(ToolError::NoScript),
            Some(Some(t)) => r matches Ok(s) && s@ == trimmed(t@),
        },
{
    match m {
        None => Err(ToolError::BadPattern),
        Some(None) => Err(ToolError::NoScript),
        Some(Some(t)) => Ok(trim(t.as_str())),
    }
}

/// The `java` line of a launch script's text, trimmed.
pub fn read_script(text: &str) -> (r: Result<String, ToolError>)
    ensures
        match regex_first_match(JAVA_LINE@, text@) {
            None => r matches Err(ToolError::BadPattern),
            Some(None) => r matches Err(ToolError::NoScript),
            Some(Some(t)) => r matches Ok(s) && s@ == trimmed(t),
        },
{
    script_from_match(first_match(JAVA_LINE, text))
}

/// The offset after paging forward: one more, unless at the largest `usize`.
pub open spec fn next_offset(offset: usize) -> usize {
    if offset < usize::MAX { (offset + 1) as usize } else { offset }
}

/// The offset after paging back: one less, unless at zero.
pub open spec fn prev_offset(offset: usize) -> usize {
    if offset > 0 { (offset - 1) as usize } else { offset }
}

/// Paging forward and then back returns to the same offset (below the largest `usize`);
/// paging back and then forward does too (above zero).
pub proof fn lemma_paging_undoes(offset: usize)
    ensures
        offset < usize::MAX ==> prev_offset(next_offset(offset)) == offset,
        offset > 0 ==> next_offset(prev_offset(offset)) == offset,
        next_offset(offset) >= offset,
        prev_offset(offset) <= offset,
{
}

/// What one answer at the search prompt leads to.
#[derive(Debug)]
pub enum SearchAction {
    /// Show the page at this offset.
    Page(usize),
    /// Add the mod with this project id.
    Pick(String),
    /// Leave the search.
    Quit,
}

/// The next step of the search prompt, at page `offset` showing `mods`, after the user
/// typed `input`: `n` pages forward and `p` back (neither past the ends of `usize`), a
/// number picks that hit, anything else leaves.
pub fn search_step(offset: usize, input: &str, mods: &Mods) -> (r: SearchAction)
    ensures
        ({
            let t = trimmed(input@);
            if t == "n"@ {
                r == SearchAction::Page(next_offset(offset))
            } else if t == "p"@ {
                r == SearchAction::Page(prev_offset(offset))
            } else {
                match parsed_usize(t) {
                    Some(k) => if k < mods.hits@.len() {
                        r matches SearchAction::Pick(id) && id@ == mods.hits@[k as int].project_id@
                    } else {
                        r is Quit
                    },
                    None => r is Quit,
                }
            }
        }),
{
    let t = trim(input);
    let t = t.as_str();
    if compare_keys(t, "n") == KeyOrder::Equal {
        SearchAction::Page(if offset < usize::MAX { offset + 1 } else { offset })
    } else if compare_keys(t, "p") == KeyOrder::Equal {
        SearchAction::Page(if offset > 0 { offset - 1 } else { offset })
    } else {
        match parse_usize(t) {
            Some(k) => match mods.index(k) {
                Some(m) => SearchAction::Pick(m.id().to_owned()),
                None => SearchAction::Quit,
            },
            None => SearchAction::Quit,
        }
    }
}

} // verus!
