//! Reading the command line: which command, and its arguments with their defaults.

use vstd::prelude::*;
use crate::error::ToolError;
use crate::text::{compare_keys, KeyOrder};
use crate::structs::strings_view;

verus! {

/// A command of the tool with its arguments.
#[derive(Debug)]
pub enum Command {
    /// Set up a new server in `path` for game `version` and `loader`, using `java`, with
    /// mods kept in `dir`.
    New { path: String, version: String, loader: String, java: String, dir: String },
    /// Write a project file for game `version` and `loader`, with mods kept in `dir`.
    Init { version: String, loader: String, dir: String },
    /// Download the recorded mods that are missing.
    Install,
    /// Record the given mods.
    Add(Vec<String>),
    /// Forget the given mods.
    Remove(Vec<String>),
    /// Search the mod site for a keyword.
    Search(String),
    /// Delete files in a directory that are not recorded mods.
    Clear(String),
    /// Run a named script.
    Run(String),
    /// Show the usage table.
    Usage,
}

/// Abstract command.
pub enum CommandView {
    New { path: Seq<char>, version: Seq<char>, loader: Seq<char>, java: Seq<char>, dir: Seq<char> },
    Init { version: Seq<char>, loader: Seq<char>, dir: Seq<char> },
    Install,
    Add(Seq<Seq<char>>),
    Remove(Seq<Seq<char>>),
    Search(Seq<char>),
    Clear(Seq<char>),
    Run(Seq<char>),
    Usage,
}

impl View for Command {
    type V = CommandView;

    open spec fn view(&self) -> CommandView {
        match self {
            Command::New { path, version, loader, java, dir } => CommandView::New {
                path: path@,
                version: version@,
                loader: loader@,
                java: java@,
                dir: dir@,
            },
            Command::Init { version, loader, dir } => CommandView::Init {
                version: version@,
                loader: loader@,
                dir: dir@,
            },
            Command::Install => CommandView::Install,
            Command::Add(v) => CommandView::Add(strings_view(v@)),
            Command::Remove(v) => CommandView::Remove(strings_view(v@)),
            Command::Search(s) => CommandView::Search(s@),
            Command::Clear(s) => CommandView::Clear(s@),
            Command::Run(s) => CommandView::Run(s@),
            Command::Usage => CommandView::Usage,
        }
    }
}

/// Argument `i`, or `default` when there are not that many.
pub open spec fn arg_or(a: Seq<Seq<char>>, i: int, default: Seq<char>) -> Seq<char> {
    if i < a.len() { a[i] } else { default }
}

/// The command word: the first argument after the program name, or empty.
pub open spec fn command_word(a: Seq<Seq<char>>) -> Seq<char> {
    arg_or(a, 1, ""@)
}

/// What the arguments `a` (the program name first) ask for.
pub open spec fn command_of(a: Seq<Seq<char>>) -> Result<CommandView, ToolError> {
    let w = command_word(a);
    if w == "new"@ || w == "n"@ {
        Ok(CommandView::New {
            path: arg_or(a, 2, ""@),
            version: arg_or(a, 3, ""@),
            loader: arg_or(a, 4, ""@),
            java: arg_or(a, 5, ""@),
            dir: arg_or(a, 6, "mods"@),
        })
    } else if w == "init"@ {
        Ok(CommandView::Init {
            version: arg_or(a, 2, ""@),
            loader: arg_or(a, 3, ""@),
            dir: arg_or(a, 4, "mods"@),
        })
    } else if w == "install"@ || w == "i"@ {
        Ok(CommandView::Install)
    } else if w == "add"@ || w == "a"@ {
        if a.len() > 2 { Ok(CommandView::Add(a.skip(2))) } else { Err(ToolError::NoAddTarget) }
    } else if w == "remove"@ || w == "r"@ {
        if a.len() > 2 { Ok(CommandView::Remove(a.skip(2))) } else { Err(ToolError::NoRemoveTarget) }
    } else if w == "search"@ || w == "s"@ {
        if a.len() > 2 { Ok(CommandView::Search(a[2])) } else { Err(ToolError::NoSearchTerm) }
    } else if w == "clear"@ || w == "c"@ {
        Ok(CommandView::Clear(arg_or(a, 2, "mods"@)))
    } else if w == "run"@ {
        if a.len() > 2 { Ok(CommandView::Run(a[2])) } else { Err(ToolError::NoCommand) }
    } else {
        Ok(CommandView::Usage)
    }
}

/// Each command word and its one-letter alias are read alike, whatever the other
/// arguments: `new`/`n` set up a server (arguments 2 to 6, the last defaulting to `mods`),
/// `init` writes the project file, `install`/`i` installs, `add`/`a`, `remove`/`r` and
/// `search`/`s` take the rest of the arguments (and fail without any), `clear`/`c` clears
/// `mods` unless told another directory, `run` runs a named script.
pub proof fn lemma_command_words(a: Seq<Seq<char>>)
    requires
        a.len() >= 2,
    ensures
        command_of(a.update(1, "new"@)) == command_of(a.update(1, "n"@)),
        command_of(a.update(1, "new"@)) == Ok::<CommandView, ToolError>(CommandView::New {
            path: arg_or(a, 2, ""@),
            version: arg_or(a, 3, ""@),
            loader: arg_or(a, 4, ""@),
            java: arg_or(a, 5, ""@),
            dir: arg_or(a, 6, "mods"@),
        }),
        command_of(a.update(1, "init"@)) == Ok::<CommandView, ToolError>(CommandView::Init {
            version: arg_or(a, 2, ""@),
            loader: arg_or(a, 3, ""@),
            dir: arg_or(a, 4, "mods"@),
        }),
        command_of(a.update(1, "install"@)) == Ok::<CommandView, ToolError>(CommandView::Install),
        command_of(a.update(1, "i"@)) == Ok::<CommandView, ToolError>(CommandView::Install),
        command_of(a.update(1, "add"@)) == command_of(a.update(1, "a"@)),
        command_of(a.update(1, "add"@)) == (if a.len() > 2 {
            Ok::<CommandView, ToolError>(CommandView::Add(a.skip(2)))
        } else {
            Err::<CommandView, ToolError>(ToolError::NoAddTarget)
        }),
        command_of(a.update(1, "remove"@)) == command_of(a.update(1, "r"@)),
        command_of(a.update(1, "remove"@)) == (if a.len() > 2 {
            Ok::<CommandView, ToolError>(CommandView::Remove(a.skip(2)))
        } else {
            Err::<CommandView, ToolError>(ToolError::NoRemoveTarget)
        }),
        command_of(a.update(1, "search"@)) == command_of(a.update(1, "s"@)),
        command_of(a.update(1, "search"@)) == (if a.len() > 2 {
            Ok::<CommandView, ToolError>(CommandView::Search(a[2]))
        } else {
            Err::<CommandView, ToolError>(ToolError::NoSearchTerm)
        }),
        command_of(a.update(1, "clear"@)) == command_of(a.update(1, "c"@)),
        command_of(a.update(1, "clear"@)) == Ok::<CommandView, ToolError>(CommandView::Clear(arg_or(a, 2, "mods"@))),
        command_of(a.update(1, "run"@)) == (if a.len() > 2 {
            Ok::<CommandView, ToolError>(CommandView::Run(a[2]))
        } else {
            Err::<CommandView, ToolError>(ToolError::NoCommand)
        }),
{
    reveal_strlit("new");
    reveal_strlit("n");
    reveal_strlit("init");
    reveal_strlit("install");
    reveal_strlit("i");
    reveal_strlit("add");
    reveal_strlit("a");
    reveal_strlit("remove");
    reveal_strlit("r");
    reveal_strlit("search");
    reveal_strlit("s");
    reveal_strlit("clear");
    reveal_strlit("c");
    reveal_strlit("run");
    lemma_with_word(a, "new"@);
    lemma_with_word(a, "n"@);
    lemma_with_word(a, "init"@);
    lemma_with_word(a, "install"@);
    lemma_with_word(a, "i"@);
    lemma_with_word(a, "add"@);
    lemma_with_word(a, "a"@);
    lemma_with_word(a, "remove"@);
    lemma_with_word(a, "r"@);
    lemma_with_word(a, "search"@);
    lemma_with_word(a, "s"@);
    lemma_with_word(a, "clear"@);
    lemma_with_word(a, "c"@);
    lemma_with_word(a, "run"@);
    assert("new"@ != "n"@) by { assert("new"@.len() != "n"@.len()); }
    assert("new"@ != "init"@) by { assert("new"@.len() != "init"@.len()); }
    assert("new"@ != "install"@) by { assert("new"@.len() != "install"@.len()); }
    assert("new"@ != "i"@) by { assert("new"@.len() != "i"@.len()); }
    assert("new"@ != "add"@) by { assert("new"@[0] != "add"@[0]); }
    assert("new"@ != "a"@) by { assert("new"@.len() != "a"@.len()); }
    assert("new"@ != "remove"@) by { assert("new"@.len() != "remove"@.len()); }
    assert("new"@ != "r"@) by { assert("new"@.len() != "r"@.len()); }
    assert("new"@ != "search"@) by { assert("new"@.len() != "search"@.len()); }
    assert("new"@ != "s"@) by { assert("new"@.len() != "s"@.len()); }
    assert("new"@ != "clear"@) by { assert("new"@.len() != "clear"@.len()); }
    assert("new"@ != "c"@) by { assert("new"@.len() != "c"@.len()); }
    assert("new"@ != "run"@) by { assert("new"@[0] != "run"@[0]); }
    assert("n"@ != "init"@) by { assert("n"@.len() != "init"@.len()); }
    assert("n"@ != "install"@) by { assert("n"@.len() != "install"@.len()); }
    assert("n"@ != "i"@) by { assert("n"@[0] != "i"@[0]); }
    assert("n"@ != "add"@) by { assert("n"@.len() != "add"@.len()); }
    assert("n"@ != "a"@) by { assert("n"@[0] != "a"@[0]); }
    assert("n"@ != "remove"@) by { assert("n"@.len() != "remove"@.len()); }
    assert("n"@ != "r"@) by { assert("n"@[0] != "r"@[0]); }
    assert("n"@ != "search"@) by { assert("n"@.len() != "search"@.len()); }
    assert("n"@ != "s"@) by { assert("n"@[0] != "s"@[0]); }
    assert("n"@ != "clear"@) by { assert("n"@.len() != "clear"@.len()); }
    assert("n"@ != "c"@) by { assert("n"@[0] != "c"@[0]); }
    assert("n"@ != "run"@) by { assert("n"@.len() != "run"@.len()); }
    assert("init"@ != "install"@) by { assert("init"@.len() != "install"@.len()); }
    assert("init"@ != "i"@) by { assert("init"@.len() != "i"@.len()); }
    assert("init"@ != "add"@) by { assert("init"@.len() != "add"@.len()); }
    assert("init"@ != "a"@) by { assert("init"@.len() != "a"@.len()); }
    assert("init"@ != "remove"@) by { assert("init"@.len() != "remove"@.len()); }
    assert("init"@ != "r"@) by { assert("init"@.len() != "r"@.len()); }
    assert("init"@ != "search"@) by { assert("init"@.len() != "search"@.len()); }
    assert("init"@ != "s"@) by { assert("init"@.len() != "s"@.len()); }
    assert("init"@ != "clear"@) by { assert("init"@.len() != "clear"@.len()); }
    assert("init"@ != "c"@) by { assert("init"@.len() != "c"@.len()); }
    assert("init"@ != "run"@) by { assert("init"@.len() != "run"@.len()); }
    assert("install"@ != "i"@) by { assert("install"@.len() != "i"@.len()); }
    assert("install"@ != "add"@) by { assert("install"@.len() != "add"@.len()); }
    assert("install"@ != "a"@) by { assert("install"@.len() != "a"@.len()); }
    assert("install"@ != "remove"@) by { assert("install"@.len() != "remove"@.len()); }
    assert("install"@ != "r"@) by { assert("install"@.len() != "r"@.len()); }
    assert("install"@ != "search"@) by { assert("install"@.len() != "search"@.len()); }
    assert("install"@ != "s"@) by { assert("install"@.len() != "s"@.len()); }
    assert("install"@ != "clear"@) by { assert("install"@.len() != "clear"@.len()); }
    assert("install"@ != "c"@) by { assert("install"@.len() != "c"@.len()); }
    assert("install"@ != "run"@) by { assert("install"@.len() != "run"@.len()); }
    assert("i"@ != "add"@) by { assert("i"@.len() != "add"@.len()); }
    assert("i"@ != "a"@) by { assert("i"@[0] != "a"@[0]); }
    assert("i"@ != "remove"@) by { assert("i"@.len() != "remove"@.len()); }
    assert("i"@ != "r"@) by { assert("i"@[0] != "r"@[0]); }
    assert("i"@ != "search"@) by { assert("i"@.len() != "search"@.len()); }
    assert("i"@ != "s"@) by { assert("i"@[0] != "s"@[0]); }
    assert("i"@ != "clear"@) by { assert("i"@.len() != "clear"@.len()); }
    assert("i"@ != "c"@) by { assert("i"@[0] != "c"@[0]); }
    assert("i"@ != "run"@) by { assert("i"@.len() != "run"@.len()); }
    assert("add"@ != "a"@) by { assert("add"@.len() != "a"@.len()); }
    assert("add"@ != "remove"@) by { assert("add"@.len() != "remove"@.len()); }
    assert("add"@ != "r"@) by { assert("add"@.len() != "r"@.len()); }
    assert("add"@ != "search"@) by { assert("add"@.len() != "search"@.len()); }
    assert("add"@ != "s"@) by { assert("add"@.len() != "s"@.len()); }
    assert("add"@ != "clear"@) by { assert("add"@.len() != "clear"@.len()); }
    assert("add"@ != "c"@) by { assert("add"@.len() != "c"@.len()); }
    assert("add"@ != "run"@) by { assert("add"@[0] != "run"@[0]); }
    assert("a"@ != "remove"@) by { assert("a"@.len() != "remove"@.len()); }
    assert("a"@ != "r"@) by { assert("a"@[0] != "r"@[0]); }
    assert("a"@ != "search"@) by { assert("a"@.len() != "search"@.len()); }
    assert("a"@ != "s"@) by { assert("a"@[0] != "s"@[0]); }
    assert("a"@ != "clear"@) by { assert("a"@.len() != "clear"@.len()); }
    assert("a"@ != "c"@) by { assert("a"@[0] != "c"@[0]); }
    assert("a"@ != "run"@) by { assert("a"@.len() != "run"@.len()); }
    assert("remove"@ != "r"@) by { assert("remove"@.len() != "r"@.len()); }
    assert("remove"@ != "search"@) by { assert("remove"@[0] != "search"@[0]); }
    assert("remove"@ != "s"@) by { assert("remove"@.len() != "s"@.len()); }
    assert("remove"@ != "clear"@) by { assert("remove"@.len() != "clear"@.len()); }
    assert("remove"@ != "c"@) by { assert("remove"@.len() != "c"@.len()); }
    assert("remove"@ != "run"@) by { assert("remove"@.len() != "run"@.len()); }
    assert("r"@ != "search"@) by { assert("r"@.len() != "search"@.len()); }
    assert("r"@ != "s"@) by { assert("r"@[0] != "s"@[0]); }
    assert("r"@ != "clear"@) by { assert("r"@.len() != "clear"@.len()); }
    assert("r"@ != "c"@) by { assert("r"@[0] != "c"@[0]); }
    assert("r"@ != "run"@) by { assert("r"@.len() != "run"@.len()); }
    assert("search"@ != "s"@) by { assert("search"@.len() != "s"@.len()); }
    assert("search"@ != "clear"@) by { assert("search"@.len() != "clear"@.len()); }
    assert("search"@ != "c"@) by { assert("search"@.len() != "c"@.len()); }
    assert("search"@ != "run"@) by { assert("search"@.len() != "run"@.len()); }
    assert("s"@ != "clear"@) by { assert("s"@.len() != "clear"@.len()); }
    assert("s"@ != "c"@) by { assert("s"@[0] != "c"@[0]); }
    assert("s"@ != "run"@) by { assert("s"@.len() != "run"@.len()); }
    assert("clear"@ != "c"@) by { assert("clear"@.len() != "c"@.len()); }
    assert("clear"@ != "run"@) by { assert("clear"@.len() != "run"@.len()); }
    assert("c"@ != "run"@) by { assert("c"@.len() != "run"@.len()); }
}

proof fn lemma_with_word(a: Seq<Seq<char>>, w: Seq<char>)
    requires
        a.len() >= 2,
    ensures
        command_word(a.update(1, w)) == w,
        a.update(1, w).len() == a.len(),
        forall|k: int, d: Seq<char>| 0 <= k && k != 1 ==> #[trigger] arg_or(a.update(1, w), k, d) == arg_or(a, k, d),
        a.update(1, w).skip(2) == a.skip(2),
        a.len() > 2 ==> a.update(1, w)[2] == a[2],
{
    assert(a.update(1, w).skip(2) =~= a.skip(2));
}

fn is_word(s: &str, w: &str) -> (b: bool)
    ensures
        b == (s@ == w@),
{
    compare_keys(s, w) == KeyOrder::Equal
}

fn arg_or_exec(args: &Vec<String>, i: usize, default: &str) -> (r: String)
    ensures
        r@ == arg_or(strings_view(args@), i as int, default@),
{
    if i < args.len() {
        args[i].clone()
    } else {
        default.to_owned()
    }
}

fn rest_from(args: &Vec<String>, start: usize) -> (r: Vec<String>)
    requires
        start <= args@.len(),
    ensures
        strings_view(r@) == strings_view(args@).skip(start as int),
{
    let n = args.len();
    let mut r: Vec<String> = Vec::new();
    let mut i: usize = start;
    while i < n
        invariant
            n == args@.len(),
            start <= i <= n,
            r@ == args@.subrange(start as int, i as int),
        decreases n - i,
    {
        r.push(args[i].clone());
        assert(args@.subrange(start as int, i + 1) =~= args@.subrange(start as int, i as int).push(args@[i as int]));
        i = i + 1;
    }
    assert(strings_view(r@) =~= strings_view(args@).skip(start as int));
    r
}

/// Reads the command line `args` (the program name first).
pub fn parse_args(args: &Vec<String>) -> (r: Result<Command, ToolError>)
    ensures
        match r {
            Ok(c) => command_of(strings_view(args@)) == Ok::<CommandView, ToolError>(c@),
            Err(e) => command_of(strings_view(args@)) == Err::<CommandView, ToolError>(e),
        },
{
    let ghost a = strings_view(args@);
    let n = args.len();
    let w = arg_or_exec(args, 1, "");
    let w = w.as_str();
    if is_word(w, "new") || is_word(w, "n") {
        Ok(Command::New {
            path: arg_or_exec(args, 2, ""),
            version: arg_or_exec(args, 3, ""),
            loader: arg_or_exec(args, 4, ""),
            java: arg_or_exec(args, 5, ""),
            dir: arg_or_exec(args, 6, "mods"),
        })
    } else if is_word(w, "init") {
        Ok(Command::Init {
            version: arg_or_exec(args, 2, ""),
            loader: arg_or_exec(args, 3, ""),
            dir: arg_or_exec(args, 4, "mods"),
        })
    } else if is_word(w, "install") || is_word(w, "i") {
        Ok(Command::Install)
    } else if is_word(w, "add") || is_word(w, "a") {
        if n > 2 { Ok(Command::Add(rest_from(args, 2))) } else { Err(ToolError::NoAddTarget) }
    } else if is_word(w, "remove") || is_word(w, "r") {
        if n > 2 { Ok(Command::Remove(rest_from(args, 2))) } else { Err(ToolError::NoRemoveTarget) }
    } else if is_word(w, "search") || is_word(w, "s") {
        if n > 2 { Ok(Command::Search(args[2].clone())) } else { Err(ToolError::NoSearchTerm) }
    } else if is_word(w, "clear") || is_word(w, "c") {
        Ok(Command::Clear(arg_or_exec(args, 2, "mods")))
    } else if is_word(w, "run") {
        if n > 2 { Ok(Command::Run(args[2].clone())) } else { Err(ToolError::NoCommand) }
    } else {
        Ok(Command::Usage)
    }
}

} // verus!
