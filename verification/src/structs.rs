//! What the mod site answers: search hits, the versions of a project and their files, and
//! the loader version lists.

use vstd::prelude::*;
use crate::text::{contains_str, copy_strings};

verus! {

/// One search hit.
#[derive(Debug)]
pub struct Mod {
    pub project_id: String,
    pub title: String,
}

/// A page of search hits.
#[derive(Debug)]
pub struct Mods {
    pub hits: Vec<Mod>,
    pub offset: usize,
    pub limit: usize,
}

/// A downloadable file of a project version.
#[derive(Debug)]
pub struct Info {
    pub filename: String,
    pub url: String,
}

/// One version of a project: the loaders and game versions it supports, and its files.
#[derive(Debug)]
pub struct ModInfo {
    pub loaders: Vec<String>,
    pub game_versions: Vec<String>,
    pub files: Vec<Info>,
}

/// The versions of a project.
#[derive(Debug)]
pub struct ModInfos {
    pub content: Vec<ModInfo>,
}

/// The versions the NeoForge maven lists.
#[derive(Debug)]
pub struct NeoForge {
    pub versions: Vec<String>,
}

/// A Fabric version entry.
#[derive(Debug)]
pub struct Fabric {
    pub version: String,
}

/// One row of the table that shows search hits.
#[derive(Debug)]
pub struct ModsGrid {
    pub key: usize,
    pub title: String,
    pub id: String,
}

/// Abstract search hit.
pub struct ModView {
    pub project_id: Seq<char>,
    pub title: Seq<char>,
}

impl View for Mod {
    type V = ModView;

    open spec fn view(&self) -> ModView {
        ModView { project_id: self.project_id@, title: self.title@ }
    }
}

/// Abstract file.
pub struct InfoView {
    pub filename: Seq<char>,
    pub url: Seq<char>,
}

impl View for Info {
    type V = InfoView;

    open spec fn view(&self) -> InfoView {
        InfoView { filename: self.filename@, url: self.url@ }
    }
}

/// Abstract project version.
pub struct ModInfoView {
    pub loaders: Seq<Seq<char>>,
    pub game_versions: Seq<Seq<char>>,
    pub files: Seq<InfoView>,
}

/// The views of a list of strings.
pub open spec fn strings_view(v: Seq<String>) -> Seq<Seq<char>> {
    v.map_values(|s: String| s@)
}

impl View for ModInfo {
    type V = ModInfoView;

    open spec fn view(&self) -> ModInfoView {
        ModInfoView {
            loaders: strings_view(self.loaders@),
            game_versions: strings_view(self.game_versions@),
            files: self.files@.map_values(|f: Info| f@),
        }
    }
}

impl View for ModInfos {
    type V = Seq<ModInfoView>;

    open spec fn view(&self) -> Seq<ModInfoView> {
        self.content@.map_values(|m: ModInfo| m@)
    }
}

/// Whether a project version supports game version `version` and loader `loader`.
pub open spec fn supports(m: ModInfoView, version: Seq<char>, loader: Seq<char>) -> bool {
    m.game_versions.contains(version) && m.loaders.contains(loader)
}

/// The versions in `s` that support `version` and `loader`, in their order.
pub open spec fn supporting(s: Seq<ModInfoView>, version: Seq<char>, loader: Seq<char>) -> Seq<ModInfoView>
    decreases s.len(),
{
    if s.len() == 0 {
        s
    } else if supports(s.last(), version, loader) {
        supporting(s.drop_last(), version, loader).push(s.last())
    } else {
        supporting(s.drop_last(), version, loader)
    }
}

impl Mods {
    /// The hits on this page.
    pub fn list(&self) -> (r: &Vec<Mod>)
        ensures
            r@ == self.hits@,
    {
        &self.hits
    }

    /// Hit number `i` of this page, if there is one.
    pub fn index(&self, i: usize) -> (r: Option<&Mod>)
        ensures
            r is Some == (i < self.hits@.len()),
            r matches Some(m) ==> *m == self.hits@[i as int],
    {
        if i < self.hits.len() {
            Some(&self.hits[i])
        } else {
            None
        }
    }

    /// How many hits the search skipped.
    pub fn offset(&self) -> (r: usize)
        ensures
            r == self.offset,
    {
        self.offset
    }

    /// How many hits a page holds.
    pub fn limit(&self) -> (r: usize)
        ensures
            r == self.limit,
    {
        self.limit
    }

    /// The table rows for this page: the hit's number, title and project id.
    pub fn grid(&self) -> (rows: Vec<ModsGrid>)
        ensures
            rows@.len() == self.hits@.len(),
            forall|i: int| 0 <= i < rows@.len() ==> (#[trigger] rows@[i]).key == i
                && rows@[i].title@ == self.hits@[i].title@
                && rows@[i].id@ == self.hits@[i].project_id@,
    {
        let n = self.hits.len();
        let mut rows: Vec<ModsGrid> = Vec::new();
        let mut i: usize = 0;
        while i < n
            invariant
                n == self.hits@.len(),
                i <= n,
                rows@.len() == i,
                forall|j: int| 0 <= j < i ==> (#[trigger] rows@[j]).key == j
                    && rows@[j].title@ == self.hits@[j].title@
                    && rows@[j].id@ == self.hits@[j].project_id@,
            decreases n - i,
        {
            let m = &self.hits[i];
            rows.push(ModsGrid { key: i, title: m.title().to_owned(), id: m.id().to_owned() });
            i = i + 1;
        }
        rows
    }
}

impl Mod {
    /// The project's title.
    pub fn title(&self) -> (r: &str)
        ensures
            r@ == self.title@,
    {
        self.title.as_str()
    }

    /// The project's id.
    pub fn id(&self) -> (r: &str)
        ensures
            r@ == self.project_id@,
    {
        self.project_id.as_str()
    }
}

impl Info {
    /// The file name.
    pub fn name(&self) -> (r: &str)
        ensures
            r@ == self.filename@,
    {
        self.filename.as_str()
    }

    /// Where the file is downloaded from.
    pub fn url(&self) -> (r: &str)
        ensures
            r@ == self.url@,
    {
        self.url.as_str()
    }

    /// A copy of this file entry.
    pub fn duplicate(&self) -> (r: Info)
        ensures
            r@ == self@,
    {
        Info { filename: self.filename.clone(), url: self.url.clone() }
    }
}

impl ModInfo {
    /// Whether this version supports game version `i`.
    pub fn chk_version(&self, i: &str) -> (b: bool)
        ensures
            b == self@.game_versions.contains(i@),
    {
        let b = contains_str(&self.game_versions, i);
        proof {
            if b {
                let j = choose|j: int| 0 <= j < self.game_versions@.len() && (#[trigger] self.game_versions@[j])@ == i@;
                assert(self@.game_versions[j] == i@);
            }
        }
        b
    }

    /// Whether this version supports loader `i`.
    pub fn chk_loader(&self, i: &str) -> (b: bool)
        ensures
            b == self@.loaders.contains(i@),
    {
        let b = contains_str(&self.loaders, i);
        proof {
            if b {
                let j = choose|j: int| 0 <= j < self.loaders@.len() && (#[trigger] self.loaders@[j])@ == i@;
                assert(self@.loaders[j] == i@);
            }
        }
        b
    }

    /// The first file of this version.
    pub fn file(&self) -> (r: Option<&Info>)
        ensures
            r is Some == (self@.files.len() > 0),
            r matches Some(f) ==> f@ == self@.files[0],
    {
        if self.files.len() > 0 {
            Some(&self.files[0])
        } else {
            None
        }
    }

    /// A copy of this version entry.
    pub fn duplicate(&self) -> (r: ModInfo)
        ensures
            r@ == self@,
    {
        let n = self.files.len();
        let mut files: Vec<Info> = Vec::new();
        let mut i: usize = 0;
        while i < n
            invariant
                n == self.files@.len(),
                i <= n,
                files@.len() == i,
                forall|j: int| 0 <= j < i ==> (#[trigger] files@[j])@ == self.files@[j]@,
            decreases n - i,
        {
            files.push(self.files[i].duplicate());
            i = i + 1;
        }
        assert(files@.map_values(|f: Info| f@) =~= self.files@.map_values(|f: Info| f@));
        ModInfo {
            loaders: copy_strings(&self.loaders),
            game_versions: copy_strings(&self.game_versions),
            files,
        }
    }
}

impl ModInfos {
    /// The versions `content`.
    pub fn new(content: Vec<ModInfo>) -> (r: ModInfos)
        ensures
            r.content == content,
    {
        ModInfos { content: content }
    }

    /// The versions that support game version `version` and loader `loader`, in order.
    pub fn chk(&self, version: &str, loader: &str) -> (r: ModInfos)
        ensures
            r@ == supporting(self@, version@, loader@),
    {
        let n = self.content.len();
        let mut kept: Vec<ModInfo> = Vec::new();
        let mut i: usize = 0;
        while i < n
            invariant
                n == self@.len(),
                i <= n,
                kept@.map_values(|m: ModInfo| m@) == supporting(self@.take(i as int), version@, loader@),
            decreases n - i,
        {
            let m = &self.content[i];
            assert(self@.take(i + 1).drop_last() =~= self@.take(i as int));
            assert(self@.take(i + 1).last() == m@);
            if m.chk_version(version) && m.chk_loader(loader) {
                kept.push(m.duplicate());
                assert(kept@.map_values(|m: ModInfo| m@) =~= supporting(self@.take(i as int), version@, loader@).push(m@));
            }
            i = i + 1;
        }
        assert(self@.take(n as int) =~= self@);
        ModInfos::new(kept)
    }

    /// The first file of the first version.
    pub fn file(&self) -> (r: Option<&Info>)
        ensures
            r is Some == (self@.len() > 0 && self@[0].files.len() > 0),
            r matches Some(f) ==> f@ == self@[0].files[0],
    {
        if self.content.len() > 0 {
            self.content[0].file()
        } else {
            None
        }
    }
}

impl NeoForge {
    /// The listed versions.
    pub fn versions(&self) -> (r: Vec<String>)
        ensures
            r@ == self.versions@,
    {
        copy_strings(&self.versions)
    }
}

impl Fabric {
    /// The version.
    pub fn version(&self) -> (r: &str)
        ensures
            r@ == self.version@,
    {
        self.version.as_str()
    }
}

/// Every version that `supporting` keeps supports the version and loader.
pub proof fn lemma_supporting_sound(s: Seq<ModInfoView>, version: Seq<char>, loader: Seq<char>)
    ensures
        forall|i: int| 0 <= i < supporting(s, version, loader).len() ==> supports(
            #[trigger] supporting(s, version, loader)[i], version, loader),
        supporting(s, version, loader).len() <= s.len(),
    decreases s.len(),
{
    if s.len() > 0 {
        lemma_supporting_sound(s.drop_last(), version, loader);
    }
}

/// Selecting twice selects the same as once.
pub proof fn lemma_supporting_idempotent(s: Seq<ModInfoView>, version: Seq<char>, loader: Seq<char>)
    ensures
        supporting(supporting(s, version, loader), version, loader) == supporting(s, version, loader),
    decreases s.len(),
{
    if s.len() > 0 {
        lemma_supporting_idempotent(s.drop_last(), version, loader);
        let t = supporting(s.drop_last(), version, loader);
        if supports(s.last(), version, loader) {
            assert(t.push(s.last()).drop_last() =~= t);
        }
    }
}

/// Selecting from two lists one after the other selects from each in turn.
pub proof fn lemma_supporting_append(a: Seq<ModInfoView>, b: Seq<ModInfoView>, version: Seq<char>, loader: Seq<char>)
    ensures
        supporting(a + b, version, loader) == supporting(a, version, loader) + supporting(b, version, loader),
    decreases b.len(),
{
    if b.len() == 0 {
        assert(a + b =~= a);
        assert(supporting(a, version, loader) + supporting(b, version, loader) =~= supporting(a, version, loader));
    } else {
        lemma_supporting_append(a, b.drop_last(), version, loader);
        assert((a + b).drop_last() =~= a + b.drop_last());
        assert((a + b).last() == b.last());
        if supports(b.last(), version, loader) {
            assert(supporting(a, version, loader) + supporting(b.drop_last(), version, loader).push(b.last())
                =~= (supporting(a, version, loader) + supporting(b.drop_last(), version, loader)).push(b.last()));
        }
    }
}

proof fn lemma_supporting_one(m: ModInfoView, version: Seq<char>, loader: Seq<char>)
    ensures
        supporting(seq![m], version, loader) == (if supports(m, version, loader) { seq![m] } else {
            Seq::<ModInfoView>::empty()
        }),
{
    assert(seq![m].drop_last() =~= Seq::<ModInfoView>::empty());
    assert(seq![m].last() == m);
    assert(supporting(Seq::<ModInfoView>::empty(), version, loader) == Seq::<ModInfoView>::empty());
    assert(Seq::<ModInfoView>::empty().push(m) =~= seq![m]);
}

proof fn lemma_supporting_none(s: Seq<ModInfoView>, version: Seq<char>, loader: Seq<char>)
    requires
        forall|j: int| 0 <= j < s.len() ==> !(s[j].game_versions.contains(version) && s[j].loaders.contains(loader)),
    ensures
        supporting(s, version, loader).len() == 0,
    decreases s.len(),
{
    if s.len() > 0 {
        lemma_supporting_none(s.drop_last(), version, loader);
        assert(!supports(s[s.len() - 1], version, loader));
    }
}

/// A version is kept exactly when its game versions hold the server's version and its
/// loaders hold the server's loader, at whatever position: every version with both is
/// among those kept, every kept version has both, and the kept versions come first in the
/// order they had.
pub proof fn lemma_chk_keeps_exactly(s: Seq<ModInfoView>, version: Seq<char>, loader: Seq<char>, i: int)
    requires
        0 <= i < s.len(),
    ensures
        (s[i].game_versions.contains(version) && s[i].loaders.contains(loader)) ==> supporting(s, version,
            loader).contains(s[i]),
        forall|k: int| 0 <= k < supporting(s, version, loader).len() ==> (#[trigger] supporting(s, version,
            loader)[k]).game_versions.contains(version) && supporting(s, version, loader)[k].loaders.contains(loader),
        (forall|j: int| 0 <= j < i ==> !(s[j].game_versions.contains(version) && s[j].loaders.contains(loader)))
            && s[i].game_versions.contains(version) && s[i].loaders.contains(loader) ==> supporting(s, version,
            loader).len() > 0 && supporting(s, version, loader)[0] == s[i],
{
    lemma_supporting_sound(s, version, loader);
    let pre = s.take(i);
    let rest = s.skip(i + 1);
    assert(s =~= pre + (seq![s[i]] + rest));
    lemma_supporting_append(pre, seq![s[i]] + rest, version, loader);
    lemma_supporting_append(seq![s[i]], rest, version, loader);
    lemma_supporting_one(s[i], version, loader);
    let whole = supporting(s, version, loader);
    let a = supporting(pre, version, loader);
    let b = supporting(rest, version, loader);
    if s[i].game_versions.contains(version) && s[i].loaders.contains(loader) {
        assert(whole == a + (seq![s[i]] + b));
        assert(whole[a.len() as int] == s[i]);
        if forall|j: int| 0 <= j < i ==> !(s[j].game_versions.contains(version) && s[j].loaders.contains(loader)) {
            assert forall|j: int| 0 <= j < pre.len() implies !(pre[j].game_versions.contains(version)
                && pre[j].loaders.contains(loader)) by {
                assert(pre[j] == s[j]);
            }
            lemma_supporting_none(pre, version, loader);
            assert(whole[0] == s[i]);
        }
    }
}

/// Every kept version is one of the versions given.
pub proof fn lemma_supporting_members(s: Seq<ModInfoView>, version: Seq<char>, loader: Seq<char>, k: int)
    requires
        0 <= k < supporting(s, version, loader).len(),
    ensures
        exists|j: int| 0 <= j < s.len() && s[j] == supporting(s, version, loader)[k],
    decreases s.len(),
{
    if s.len() > 0 {
        let t = supporting(s.drop_last(), version, loader);
        if k < t.len() {
            lemma_supporting_members(s.drop_last(), version, loader, k);
            let j = choose|j: int| 0 <= j < s.drop_last().len() && s.drop_last()[j] == t[k];
            assert(s[j] == s.drop_last()[j]);
        } else {
            assert(s[s.len() - 1] == s.last());
        }
    }
}

} // verus!
