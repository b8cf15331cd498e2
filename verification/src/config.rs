//! The project file: where the server lives, which game version and loader it runs,
//! the mods (file name to download URL) and the named scripts.

use vstd::prelude::*;
use crate::strmap::{StrMap, Entries, as_map, keys_ascending};

verus! {

/// The server's directory, game version and mod loader.
#[derive(Debug)]
pub struct ServerInfo {
    pub dir: String,
    pub version: String,
    pub loader: String,
}

/// The whole project file.
#[derive(Debug)]
pub struct Config {
    pub server: ServerInfo,
    /// Mod file name to the URL it is downloaded from.
    pub mods: StrMap,
    /// Script name to the command line it runs.
    pub scripts: StrMap,
}

impl Config {
    /// A project for game `version` and `loader`, with mods kept in `dir`, and no mods or
    /// scripts yet.
    pub fn new(version: &str, loader: &str, dir: &str) -> (c: Config)
        ensures
            c.server.dir@ == dir@,
            c.server.version@ == version@,
            c.server.loader@ == loader@,
            c.mods@.len() == 0,
            c.scripts@.len() == 0,
    {
        let info = ServerInfo {
            dir: dir.to_owned(),
            version: version.to_owned(),
            loader: loader.to_owned(),
        };
        Config { server: info, mods: StrMap::new(), scripts: StrMap::new() }
    }

    /// The directory that holds the mods.
    pub fn dir(&self) -> (r: &str)
        ensures
            r@ == self.server.dir@,
    {
        self.server.dir.as_str()
    }

    /// The game version.
    pub fn version(&self) -> (r: &str)
        ensures
            r@ == self.server.version@,
    {
        self.server.version.as_str()
    }

    /// The mod loader.
    pub fn loader(&self) -> (r: &str)
        ensures
            r@ == self.server.loader@,
    {
        self.server.loader.as_str()
    }

    /// Every mod as (file name, URL), in ascending order of file name.
    pub fn get_content(&self) -> (r: Vec<(String, String)>)
        ensures
            r@.len() == self.mods@.len(),
            forall|i: int| 0 <= i < r@.len() ==> (#[trigger] r@[i]).0@ == self.mods@[i].0 && r@[i].1@
                == self.mods@[i].1,
            keys_ascending(self.mods@),
    {
        self.mods.entries()
    }

    /// Records mod `k` as downloaded from `v`, replacing what was recorded for `k`.
    pub fn push(&mut self, k: &str, v: &str)
        ensures
            as_map(final(self).mods@) == as_map(old(self).mods@).insert(k@, v@),
            final(self).scripts == old(self).scripts,
            final(self).server == old(self).server,
    {
        self.mods.insert(k.to_owned(), v.to_owned());
    }

    /// The command line of script `k`.
    pub fn script(&self, k: &str) -> (r: Option<&str>)
        ensures
            r is Some == as_map(self.scripts@).contains_key(k@),
            r matches Some(v) ==> v@ == as_map(self.scripts@)[k@],
    {
        self.scripts.get(k)
    }

    /// Sets script `k` to run `v`.
    pub fn set_script(&mut self, k: &str, v: &str)
        ensures
            as_map(final(self).scripts@) == as_map(old(self).scripts@).insert(k@, v@),
            final(self).mods == old(self).mods,
            final(self).server == old(self).server,
    {
        self.scripts.insert(k.to_owned(), v.to_owned());
    }

    /// Whether a mod with file name `name` is recorded.
    pub fn has_mod(&self, name: &str) -> (b: bool)
        ensures
            b == as_map(self.mods@).contains_key(name@),
    {
        self.mods.contains_key(name)
    }

    /// Forgets the mod with file name `name`.
    pub fn remove_by_name(&mut self, name: &str)
        ensures
            as_map(final(self).mods@) == as_map(old(self).mods@).remove(name@),
            final(self).scripts == old(self).scripts,
            final(self).server == old(self).server,
    {
        self.mods.remove(name);
    }

    /// Forgets every mod downloaded from `url`.
    pub fn remove_by_url(&mut self, url: &str)
        ensures
            forall|x: Seq<char>| #[trigger] as_map(final(self).mods@).contains_key(x) == (as_map(
                old(self).mods@,
            ).contains_key(x) && as_map(old(self).mods@)[x] != url@),
            forall|x: Seq<char>| #[trigger] as_map(final(self).mods@).contains_key(x) ==> as_map(
                final(self).mods@,
            )[x] == as_map(old(self).mods@)[x],
            final(self).scripts == old(self).scripts,
            final(self).server == old(self).server,
    {
        self.mods.remove_value(url);
    }
}

/// After `push(k, v)`, mod `k` reads back as `v`, and every other mod reads as before.
pub proof fn lemma_push_then_read(before: Config, after: Config, k: Seq<char>, v: Seq<char>, other: Seq<char>)
    requires
        as_map(after.mods@) == as_map(before.mods@).insert(k, v),
    ensures
        as_map(after.mods@).contains_key(k),
        as_map(after.mods@)[k] == v,
        other != k ==> as_map(after.mods@).contains_key(other) == as_map(before.mods@).contains_key(other),
        other != k && as_map(before.mods@).contains_key(other) ==> as_map(after.mods@)[other]
            == as_map(before.mods@)[other],
{
}

/// Pushing the same mod twice leaves what the second push recorded, as if the first had
/// not happened.
pub proof fn lemma_push_last_wins(
    before: Config,
    mid: Config,
    after: Config,
    k: Seq<char>,
    v1: Seq<char>,
    v2: Seq<char>,
)
    requires
        as_map(mid.mods@) == as_map(before.mods@).insert(k, v1),
        as_map(after.mods@) == as_map(mid.mods@).insert(k, v2),
    ensures
        as_map(after.mods@) == as_map(before.mods@).insert(k, v2),
{
    assert(as_map(after.mods@) =~= as_map(before.mods@).insert(k, v2));
}

/// Removing by name a mod that was just pushed, and was not recorded before, gives back
/// the mods as they were.
pub proof fn lemma_remove_undoes_push(before: Config, mid: Config, after: Config, k: Seq<char>, v: Seq<char>)
    requires
        !as_map(before.mods@).contains_key(k),
        as_map(mid.mods@) == as_map(before.mods@).insert(k, v),
        as_map(after.mods@) == as_map(mid.mods@).remove(k),
    ensures
        as_map(after.mods@) == as_map(before.mods@),
{
    assert(as_map(after.mods@) =~= as_map(before.mods@));
}

/// After `set_script(k, v)`, `script(k)` reads back `v`, and other scripts are unchanged.
pub proof fn lemma_set_script_then_read(before: Config, after: Config, k: Seq<char>, v: Seq<char>, other: Seq<char>)
    requires
        as_map(after.scripts@) == as_map(before.scripts@).insert(k, v),
    ensures
        as_map(after.scripts@).contains_key(k),
        as_map(after.scripts@)[k] == v,
        other != k ==> as_map(after.scripts@).contains_key(other) == as_map(before.scripts@).contains_key(other),
        other != k && as_map(before.scripts@).contains_key(other) ==> as_map(after.scripts@)[other]
            == as_map(before.scripts@)[other],
{
}

/// After `remove_by_url(url)`, no recorded mod is downloaded from `url`.
pub proof fn lemma_no_mod_from_removed_url(before: Config, after: Config, url: Seq<char>, x: Seq<char>)
    requires
        forall|y: Seq<char>| #[trigger] as_map(after.mods@).contains_key(y) == (as_map(before.mods@).contains_key(y)
            && as_map(before.mods@)[y] != url),
        forall|y: Seq<char>| #[trigger] as_map(after.mods@).contains_key(y) ==> as_map(after.mods@)[y]
            == as_map(before.mods@)[y],
    ensures
        as_map(after.mods@).contains_key(x) ==> as_map(after.mods@)[x] != url,
{
}

} // verus!
