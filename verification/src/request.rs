//! What the tool asks the mod site, and how it turns an id given on the command line into
//! a (file name, URL) pair.

use vstd::prelude::*;
use vstd::utf8::encode_utf8;
use crate::config::Config;
use crate::decimal::{decimal, usize_to_decimal};
use crate::error::ToolError;
use crate::strmap::as_map;
use crate::structs::{ModInfos, ModInfoView, supporting, supports, lemma_chk_keeps_exactly, lemma_supporting_sound,
    lemma_supporting_members};
use crate::text::{after_last, chars_of, compare_keys, last_piece, KeyOrder};
use crate::trusted::{
    url_encode, url_encoded, url_decode, url_decoded, parse_url, url_parse, has_extension,
    with_extension, ParsedUrl, parsed_view, has_separator, plain_name, name_has_extension,
    name_with_extension,
};

verus! {

/// The facet filter of a search: mods for game `version` and `loader`.
pub open spec fn search_facets(version: Seq<char>, loader: Seq<char>) -> Seq<char> {
    "[[\"project_type:mod\"],[\"versions:"@ + version + "\"],[\"categories:"@ + loader + "\"]]"@
}

/// The search request for keyword `name`, skipping `offset` hits, 20 hits a page.
pub open spec fn search_request(name: Seq<char>, loader: Seq<char>, version: Seq<char>, offset: nat) -> Seq<char> {
    "https://api.modrinth.com/v2/search?query="@ + url_encoded(name) + "&offset="@ + decimal(offset)
        + "&facets="@ + url_encoded(search_facets(version, loader)) + "&limit=20"@
}

/// The request that lists the versions of project `id`.
pub open spec fn versions_request(id: Seq<char>) -> Seq<char> {
    "https://api.modrinth.com/v2/project/"@ + id + "/version"@
}

/// The URL that searches the mod site for `name` among mods for `version` and `loader`.
pub fn search_url(name: &str, loader: &str, version: &str, offset: usize) -> (r: String)
    ensures
        r@ == search_request(name@, loader@, version@, offset as nat),
{
    let mut facets = "[[\"project_type:mod\"],[\"versions:".to_owned();
    facets.append(version);
    facets.append("\"],[\"categories:");
    facets.append(loader);
    facets.append("\"]]");
    let mut r = "https://api.modrinth.com/v2/search?query=".to_owned();
    r.append(url_encode(name).as_str());
    r.append("&offset=");
    r.append(usize_to_decimal(offset).as_str());
    r.append("&facets=");
    r.append(url_encode(facets.as_str()).as_str());
    r.append("&limit=20");
    r
}

/// The URL that lists the versions of project `id`.
pub fn versions_url(id: &str) -> (r: String)
    ensures
        r@ == versions_request(id@),
{
    let mut r = "https://api.modrinth.com/v2/project/".to_owned();
    r.append(id);
    r.append("/version");
    r
}

/// The error for a download that could not be written to `path` (`None` when the path is
/// not UTF-8).
pub fn error(path: Option<&str>) -> (e: ToolError)
    ensures
        match path {
            Some(p) => e matches ToolError::DownloadFailed(Some(q)) && q@ == p@,
            None => e matches ToolError::DownloadFailed(None),
        },
{
    match path {
        Some(p) => ToolError::DownloadFailed(Some(p.to_owned())),
        None => ToolError::DownloadFailed(None),
    }
}

/// The extension that a file named from a URL gets: the text after the URL's last `?`
/// (the whole URL when it has none) and `.jar`, when that text is longer than one byte;
/// otherwise `jar` when the name has no extension; otherwise none.
pub open spec fn extension_rule(query: Seq<char>, has_ext: bool) -> Option<Seq<char>> {
    if encode_utf8(query).len() > 1 {
        Some(query + ".jar"@)
    } else if !has_ext {
        Some("jar"@)
    } else {
        None
    }
}

/// The extension to give a file named after a URL whose last `?`-piece is `query`.
pub fn extension_for(query: &str, has_ext: bool) -> (r: Option<String>)
    ensures
        r is Some == extension_rule(query@, has_ext) is Some,
        r matches Some(e) ==> e@ == extension_rule(query@, has_ext)->0,
{
    if query.as_bytes().len() > 1 {
        let mut e = query.to_owned();
        e.append(".jar");
        Some(e)
    } else if !has_ext {
        Some("jar".to_owned())
    } else {
        None
    }
}

/// What an id that may be a URL gives.
#[derive(Debug)]
pub enum UrlLookup {
    /// The id does not parse as a URL.
    NotUrl,
    /// The id is a URL; the (file name, URL) it names, when a name can be made of it.
    Named(Option<(String, String)>),
    /// The id is a URL, but the extension its name would get holds a path separator, which
    /// `Path::with_extension` refuses by panicking: the lookup is abandoned.
    Aborted,
}

/// The last path segment of a parse result.
pub open spec fn last_segment(p: (Seq<char>, Option<Seq<Seq<char>>>)) -> Option<Seq<char>> {
    match p.1 {
        Some(segs) => if segs.len() > 0 { Some(segs.last()) } else { None },
        None => None,
    }
}

/// Whether naming a file after the parse result `p` of `id` is abandoned: the extension
/// the name would get holds a path separator.
pub open spec fn url_aborts(id: Seq<char>, p: (Seq<char>, Option<Seq<Seq<char>>>)) -> bool {
    let q = after_last(id, '?');
    &&& last_segment(p) is Some
    &&& url_decoded(last_segment(p)->0) is Some
    &&& encode_utf8(q).len() > 1
    &&& has_separator(q + ".jar"@)
}

/// Whether the lookup of `id` is abandoned.
pub open spec fn lookup_aborts(id: Seq<char>) -> bool {
    url_parse(id) is Some && url_aborts(id, url_parse(id)->0)
}

/// The file name made of the decoded last segment `d` of a URL whose last `?`-piece is
/// `q`: `d` with the extension that `extension_rule` gives, if any.
pub open spec fn url_file_name(d: Seq<char>, q: Seq<char>) -> Seq<char> {
    match extension_rule(q, name_has_extension(d)) {
        Some(e) => name_with_extension(d, e),
        None => d,
    }
}

/// What naming a file after the parse result `p` of `id` gives, as far as it does not rest
/// on how the platform splits paths: nothing without a decodable last segment; the file
/// name `url_file_name` for a plain decoded segment; the serialization as the URL.
pub open spec fn url_lookup_rule(id: Seq<char>, p: (Seq<char>, Option<Seq<Seq<char>>>), r: UrlLookup) -> bool {
    let seg = last_segment(p);
    let q = after_last(id, '?');
    &&& !(r is NotUrl)
    &&& url_aborts(id, p) <==> r is Aborted
    &&& ((seg is None || url_decoded(seg->0) is None) ==> (r matches UrlLookup::Named(None)))
    &&& (r matches UrlLookup::Named(Some((name, u))) ==> u@ == p.0)
    &&& ((seg is Some && url_decoded(seg->0) is Some && plain_name(url_decoded(seg->0)->0) && !url_aborts(id, p))
        ==> (r matches UrlLookup::Named(Some((name, u))) && name@ == url_file_name(url_decoded(seg->0)->0, q)))
    &&& (r matches UrlLookup::Named(None) ==> (seg is None || url_decoded(seg->0) is None
        || !plain_name(url_decoded(seg->0)->0)))
}

/// The (file name, URL) that an id names as a URL, where that does not rest on how the
/// platform splits paths: the id parses, its last path segment decodes to a plain name,
/// and the lookup is not abandoned.
pub open spec fn url_named(id: Seq<char>) -> Option<(Seq<char>, Seq<char>)> {
    let p = url_parse(id)->0;
    let seg = last_segment(p);
    if url_parse(id) is Some && seg is Some && url_decoded(seg->0) is Some && plain_name(
        url_decoded(seg->0)->0,
    ) && !url_aborts(id, p) {
        Some((url_file_name(url_decoded(seg->0)->0, after_last(id, '?')), p.0))
    } else {
        None
    }
}

/// Takes an id that may be a URL. When it parses, the file is named after the
/// percent-decoded last path segment, with the extension that `extension_rule` gives.
pub fn lookup_url(id: &str) -> (r: UrlLookup)
    ensures
        url_parse(id@) is None <==> r is NotUrl,
        lookup_aborts(id@) <==> r is Aborted,
        url_parse(id@) is Some ==> url_lookup_rule(id@, url_parse(id@)->0, r),
        url_named(id@) matches Some((name, u)) ==> (r matches UrlLookup::Named(Some((n2, u2))) && n2@
            == name && u2@ == u),
{
    match parse_url(id) {
        None => UrlLookup::NotUrl,
        Some(p) => file_from_url(id, p),
    }
}

/// Whether `s` holds a `/` or a `\\`.
pub fn holds_separator(s: &str) -> (b: bool)
    ensures
        b == has_separator(s@),
{
    let v = chars_of(s);
    let n = v.len();
    let mut i: usize = 0;
    while i < n
        invariant
            v@ == s@,
            n == v@.len(),
            i <= n,
            forall|j: int| 0 <= j < i ==> s@[j] != '/' && s@[j] != '\\',
        decreases n - i,
    {
        if v[i] == '/' || v[i] == '\\' {
            return true;
        }
        i = i + 1;
    }
    false
}

/// Names the file for id `id` after its parse result `p`.
pub fn file_from_url(id: &str, p: ParsedUrl) -> (r: UrlLookup)
    ensures
        url_lookup_rule(id@, parsed_view(p), r),
{
    let ghost v = parsed_view(p);
    let ParsedUrl { text, segments } = p;
    let segs = match segments {
        Some(s) => s,
        None => return UrlLookup::Named(None),
    };
    let n = segs.len();
    if n == 0 {
        return UrlLookup::Named(None);
    }
    assert(v.1->0 =~= segs@.map_values(|s: String| s@));
    assert(last_segment(v)->0 == segs@[n - 1]@);
    let name = match url_decode(segs[n - 1].as_str()) {
        Some(d) => d,
        None => return UrlLookup::Named(None),
    };
    let query = last_piece(id, '?');
    let has_ext = has_extension(name.as_str());
    proof {
        reveal_strlit("jar");
        reveal_strlit(".jar");
    }
    let file = match extension_for(query.as_str(), has_ext) {
        Some(ext) => {
            if holds_separator(ext.as_str()) {
                proof {
                    if encode_utf8(query@).len() <= 1 {
                        assert(ext@ == "jar"@);
                        assert(!has_separator(ext@));
                    }
                }
                return UrlLookup::Aborted;
            }
            assert(ext@.len() > 0);
            match with_extension(name.as_str(), ext.as_str()) {
                Some(f) => f,
                None => return UrlLookup::Named(None),
            }
        },
        None => name,
    };
    UrlLookup::Named(Some((file, text)))
}

/// Which ways of finding a mod are tried for an id.
#[derive(Debug)]
pub struct ResolveFlags {
    pub by_url: bool,
    pub by_id: bool,
    pub by_name: bool,
}

/// Whether `funcs` names `w`.
pub open spec fn names_word(funcs: Seq<&str>, w: Seq<char>) -> bool {
    exists|i: int| 0 <= i < funcs.len() && (#[trigger] funcs[i])@ == w
}

/// The ways to try, given the list of ways the caller asks for. Each of the three is
/// switched on by `"url"` in the list.
pub fn resolve_flags(funcs: &Vec<&str>) -> (f: ResolveFlags)
    ensures
        f.by_url == names_word(funcs@, "url"@),
        f.by_id == names_word(funcs@, "url"@),
        f.by_name == names_word(funcs@, "url"@),
{
    let n = funcs.len();
    let mut found = false;
    let mut i: usize = 0;
    while i < n
        invariant
            n == funcs@.len(),
            i <= n,
            found == (exists|j: int| 0 <= j < i && (#[trigger] funcs@[j])@ == "url"@),
        decreases n - i,
    {
        if compare_keys(funcs[i], "url") == KeyOrder::Equal {
            found = true;
        }
        i = i + 1;
    }
    ResolveFlags { by_url: found, by_id: found, by_name: found }
}

/// The next thing to do while resolving an id.
#[derive(Debug)]
pub enum ResolveStep {
    /// The id resolves to this (file name, URL).
    Found(String, String),
    /// The id resolves to nothing.
    Missing,
    /// Ask the mod site for the versions of the project with this id.
    FetchVersions,
    /// Read the project file.
    ReadConfig,
    /// The lookup is abandoned without a word (what a panicking lookup task amounts to).
    Aborted,
}

/// The first step: a URL id is named from the URL; otherwise the project versions are
/// fetched, or else the project file read, as the flags allow.
pub fn resolve_start(id: &str, flags: &ResolveFlags) -> (s: ResolveStep)
    ensures
        flags.by_url && url_parse(id@) is Some ==> (s is Found || s is Missing || s is Aborted),
        flags.by_url ==> (lookup_aborts(id@) <==> s is Aborted),
        flags.by_url && url_parse(id@) is Some && (last_segment(url_parse(id@)->0) is None
            || url_decoded(last_segment(url_parse(id@)->0)->0) is None) ==> s is Missing,
        !(flags.by_url && url_parse(id@) is Some) ==> (if flags.by_id {
            s is FetchVersions
        } else if flags.by_name {
            s is ReadConfig
        } else {
            s is Missing
        }),
        s matches ResolveStep::Found(name, u) ==> u@ == (url_parse(id@)->0).0,
        flags.by_url ==> (url_named(id@) matches Some((name, u)) ==> (s matches ResolveStep::Found(n2, u2)
            && n2@ == name && u2@ == u)),
        flags.by_url && url_parse(id@) is Some && s is Missing ==> ({
            let seg = last_segment(url_parse(id@)->0);
            seg is None || url_decoded(seg->0) is None || !plain_name(url_decoded(seg->0)->0)
        }),
{
    if flags.by_url {
        match lookup_url(id) {
            UrlLookup::Named(Some((name, u))) => return ResolveStep::Found(name, u),
            UrlLookup::Named(None) => return ResolveStep::Missing,
            UrlLookup::Aborted => return ResolveStep::Aborted,
            UrlLookup::NotUrl => {},
        }
    }
    if flags.by_id {
        ResolveStep::FetchVersions
    } else if flags.by_name {
        ResolveStep::ReadConfig
    } else {
        ResolveStep::Missing
    }
}

/// The first file of the first version that supports the game version and loader.
pub open spec fn chosen_file(versions: Seq<ModInfoView>, version: Seq<char>, loader: Seq<char>) -> Option<(Seq<char>, Seq<char>)> {
    let kept = supporting(versions, version, loader);
    if kept.len() > 0 && kept[0].files.len() > 0 {
        Some((kept[0].files[0].filename, kept[0].files[0].url))
    } else {
        None
    }
}

/// The file chosen for a project id is the first file of the earliest version whose game
/// versions hold `version` and whose loaders hold `loader`; no version with both gives no
/// file. Later matching versions never decide.
pub proof fn lemma_first_matching_version_chosen(
    versions: Seq<ModInfoView>,
    version: Seq<char>,
    loader: Seq<char>,
    i: int,
)
    requires
        0 <= i < versions.len(),
        versions[i].game_versions.contains(version),
        versions[i].loaders.contains(loader),
        forall|j: int| 0 <= j < i ==> !(versions[j].game_versions.contains(version)
            && versions[j].loaders.contains(loader)),
    ensures
        chosen_file(versions, version, loader) == (if versions[i].files.len() > 0 {
            Some((versions[i].files[0].filename, versions[i].files[0].url))
        } else {
            None
        }),
{
    lemma_chk_keeps_exactly(versions, version, loader, i);
}

/// When no version holds both the game version and the loader, no file is chosen.
pub proof fn lemma_no_matching_version(versions: Seq<ModInfoView>, version: Seq<char>, loader: Seq<char>)
    requires
        forall|j: int| 0 <= j < versions.len() ==> !(versions[j].game_versions.contains(version)
            && versions[j].loaders.contains(loader)),
    ensures
        chosen_file(versions, version, loader) is None,
{
    lemma_supporting_sound(versions, version, loader);
    if supporting(versions, version, loader).len() > 0 {
        let m = supporting(versions, version, loader)[0];
        assert(supports(m, version, loader));
        lemma_supporting_members(versions, version, loader, 0);
    }
}

/// The step after asking for the project's versions (`None` when the request failed): the
/// first file of the first version for `version` and `loader`, or nothing; after a failed
/// request, the project file is read if the flags allow.
pub fn resolve_after_fetch(fetched: Option<&ModInfos>, version: &str, loader: &str, flags: &ResolveFlags) -> (s: ResolveStep)
    ensures
        match fetched {
            Some(m) => match chosen_file(m@, version@, loader@) {
                Some((name, u)) => s matches ResolveStep::Found(n2, u2) && n2@ == name && u2@ == u,
                None => s is Missing,
            },
            None => if flags.by_name { s is ReadConfig } else { s is Missing },
        },
{
    match fetched {
        Some(m) => {
            let kept = m.chk(version, loader);
            match kept.file() {
                Some(f) => ResolveStep::Found(f.name().to_owned(), f.url().to_owned()),
                None => ResolveStep::Missing,
            }
        },
        None => if flags.by_name {
            ResolveStep::ReadConfig
        } else {
            ResolveStep::Missing
        },
    }
}

/// The last step: with the project file read (`None` when it could not be), an id that is
/// a recorded mod file name resolves to that name and an empty URL.
pub fn resolve_by_name(id: &str, config: Option<&Config>) -> (s: ResolveStep)
    ensures
        match config {
            Some(c) => if as_map(c.mods@).contains_key(id@) {
                s matches ResolveStep::Found(n, u) && n@ == id@ && u@ == Seq::<char>::empty()
            } else {
                s is Missing
            },
            None => s is Missing,
        },
{
    match config {
        Some(c) => if c.has_mod(id) {
            ResolveStep::Found(id.to_owned(), String::new())
        } else {
            ResolveStep::Missing
        },
        None => ResolveStep::Missing,
    }
}

} // verus!
