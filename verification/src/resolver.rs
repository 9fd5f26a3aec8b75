//! Resolution: from catalog sources, through the collections that they name,
//! to the registry.
//!
//! A source is a catalog text under the location by which collections refer
//! to it. Resolving a source reads its declarations in order. A collection
//! stands for the declarations of the source at its location, which are
//! resolved in its place before the declarations that follow it; every other
//! declaration is offered to the registry. The sources that are being resolved
//! form the path; a collection that names a source on the path closes a cycle,
//! and resolution fails.

use vstd::prelude::*;
use vstd::string::*;

use crate::catalog::{parse, parse_catalog};
use crate::plugin::{views, Plugin, PluginType, PluginView};
use crate::registry::{register_all, Registry};
use crate::text::{same_text, texts};

verus! {

/// A catalog text and the location under which it is known.
#[derive(Debug)]
pub struct CatalogSource {
    pub location: String,
    pub text: String,
}

/// What a catalog source holds.
pub struct SourceView {
    pub location: Seq<char>,
    pub text: Seq<char>,
}

impl View for CatalogSource {
    type V = SourceView;

    open spec fn view(&self) -> SourceView {
        SourceView { location: self.location@, text: self.text@ }
    }
}

/// What each of a list of sources holds.
pub open spec fn source_views(sources: Seq<CatalogSource>) -> Seq<SourceView> {
    sources.map_values(|s: CatalogSource| s@)
}

/// Why a resolution failed.
#[derive(Debug)]
pub enum ResolveError {
    /// No source is known under this location.
    CatalogUnreadable(String),
    /// A collection names this location while the source under it is being
    /// resolved.
    CyclicCollectionReference(String),
}

/// What a resolution error says.
pub enum ResolveFailure {
    CatalogUnreadable(Seq<char>),
    CyclicCollectionReference(Seq<char>),
}

impl View for ResolveError {
    type V = ResolveFailure;

    open spec fn view(&self) -> ResolveFailure {
        match self {
            ResolveError::CatalogUnreadable(location) => ResolveFailure::CatalogUnreadable(
                location@,
            ),
            ResolveError::CyclicCollectionReference(location) => {
                ResolveFailure::CyclicCollectionReference(location@)
            },
        }
    }
}

/// The text of the first source under `location`.
pub open spec fn source_text(sources: Seq<SourceView>, location: Seq<char>) -> Option<Seq<char>>
    decreases sources.len(),
{
    if sources.len() == 0 {
        None
    } else if sources[0].location == location {
        Some(sources[0].text)
    } else {
        source_text(sources.drop_first(), location)
    }
}

/// The number of sources whose location is not on the path.
pub open spec fn unvisited(sources: Seq<SourceView>, path: Seq<Seq<char>>) -> nat
    decreases sources.len(),
{
    if sources.len() == 0 {
        0
    } else if path.contains(sources[0].location) {
        unvisited(sources.drop_first(), path)
    } else {
        1 + unvisited(sources.drop_first(), path)
    }
}

/// The declarations that the source under `location` stands for, while the
/// sources of `path` are being resolved: its own, with every collection
/// replaced by what it stands for.
pub open spec fn expand_source(
    sources: Seq<SourceView>,
    path: Seq<Seq<char>>,
    location: Seq<char>,
) -> Result<Seq<PluginView>, ResolveFailure>
    decreases unvisited(sources, path), 0nat,
{
    if path.contains(location) {
        Err(ResolveFailure::CyclicCollectionReference(location))
    } else {
        match source_text(sources, location) {
            None => Err(ResolveFailure::CatalogUnreadable(location)),
            Some(text) => {
                proof {
                    lemma_unvisited_step(sources, path, location);
                }
                expand_all(sources, path.push(location), parse_catalog(text))
            },
        }
    }
}

/// The declarations that `plugins` stand for, while the sources of `path` are
/// being resolved: the same in the same order, with every collection replaced
/// by what the source at its location stands for. The first failure on the way
/// is the result.
pub open spec fn expand_all(
    sources: Seq<SourceView>,
    path: Seq<Seq<char>>,
    plugins: Seq<PluginView>,
) -> Result<Seq<PluginView>, ResolveFailure>
    decreases unvisited(sources, path), plugins.len() + 1,
{
    if plugins.len() == 0 {
        Ok(Seq::empty())
    } else {
        match expand_all(sources, path, plugins.drop_last()) {
            Err(failure) => Err(failure),
            Ok(before) => {
                if plugins.last().plugin_type == PluginType::Collection {
                    match expand_source(sources, path, plugins.last().location) {
                        Err(failure) => Err(failure),
                        Ok(inner) => Ok(before + inner),
                    }
                } else {
                    Ok(before.push(plugins.last()))
                }
            },
        }
    }
}

/// The collection that names the source at `location`.
pub open spec fn collection_of(location: Seq<char>) -> PluginView {
    PluginView {
        name: Seq::empty(),
        enabled: false,
        plugin_type: PluginType::Collection,
        location,
    }
}

/// The registry after the declarations that `plugins` stand for have been
/// offered to it in their order; the failure where they stand for nothing.
pub open spec fn merged(
    registry: Map<Seq<char>, PluginView>,
    sources: Seq<SourceView>,
    plugins: Seq<PluginView>,
) -> Result<Map<Seq<char>, PluginView>, ResolveFailure> {
    match expand_all(sources, Seq::empty(), plugins) {
        Err(failure) => Err(failure),
        Ok(flat) => Ok(register_all(registry, flat)),
    }
}

/// The collections that name the sources at `roots`.
pub open spec fn collections_of(roots: Seq<Seq<char>>) -> Seq<PluginView> {
    roots.map_values(|r: Seq<char>| collection_of(r))
}

/// The registry that the sources at `roots` resolve to, the first one first:
/// the declarations that they stand for, offered to an empty registry in
/// their order.
pub open spec fn resolve_roots(
    sources: Seq<SourceView>,
    roots: Seq<Seq<char>>,
) -> Result<Map<Seq<char>, PluginView>, ResolveFailure> {
    merged(Map::empty(), sources, collections_of(roots))
}

/// Adding a location to the path does not raise the number of unvisited
/// sources.
pub proof fn lemma_unvisited_monotone(
    sources: Seq<SourceView>,
    path: Seq<Seq<char>>,
    location: Seq<char>,
)
    ensures
        unvisited(sources, path.push(location)) <= unvisited(sources, path),
    decreases sources.len(),
{
    if sources.len() > 0 {
        lemma_unvisited_monotone(sources.drop_first(), path, location);
        if path.contains(sources[0].location) {
            let at = choose|i: int| 0 <= i < path.len() && path[i] == sources[0].location;
            assert(path.push(location)[at] == sources[0].location);
        }
    }
}

/// Entering a source that is known and not on the path lowers the number of
/// unvisited sources.
pub proof fn lemma_unvisited_step(
    sources: Seq<SourceView>,
    path: Seq<Seq<char>>,
    location: Seq<char>,
)
    requires
        source_text(sources, location) is Some,
        !path.contains(location),
    ensures
        unvisited(sources, path.push(location)) < unvisited(sources, path),
    decreases sources.len(),
{
    let longer = path.push(location);
    if sources[0].location == location {
        assert(longer[path.len() as int] == location);
        lemma_unvisited_monotone(sources.drop_first(), path, location);
    } else {
        lemma_unvisited_step(sources.drop_first(), path, location);
        if path.contains(sources[0].location) {
            let at = choose|i: int| 0 <= i < path.len() && path[i] == sources[0].location;
            assert(longer[at] == sources[0].location);
        }
    }
}

/// The first source under a location is the one whose text `source_text`
/// gives.
proof fn lemma_source_text_at(sources: Seq<SourceView>, location: Seq<char>, at: int)
    requires
        0 <= at <= sources.len(),
        forall|j: int| 0 <= j < at ==> (#[trigger] sources[j]).location != location,
        at < sources.len() ==> sources[at].location == location,
    ensures
        at < sources.len() ==> source_text(sources, location) == Some(sources[at].text),
        at == sources.len() ==> source_text(sources, location) is None,
    decreases sources.len(),
{
    if sources.len() > 0 && at > 0 {
        lemma_source_text_at(sources.drop_first(), location, at - 1);
    }
}

/// The first source under `location`.
fn find_source<'a>(sources: &'a Vec<CatalogSource>, location: &str) -> (found: Option<
    &'a CatalogSource,
>)
    ensures
        match found {
            Some(source) => source_text(source_views(sources@), location@) == Some(source@.text),
            None => source_text(source_views(sources@), location@) is None,
        },
{
    let mut i: usize = 0;
    while i < sources.len()
        invariant
            0 <= i <= sources.len(),
            forall|j: int|
                0 <= j < i ==> (#[trigger] source_views(sources@)[j]).location != location@,
        decreases sources.len() - i,
    {
        if same_text(sources[i].location.as_str(), location) {
            proof {
                lemma_source_text_at(source_views(sources@), location@, i as int);
            }
            return Some(&sources[i]);
        }
        i = i + 1;
    }
    proof {
        lemma_source_text_at(source_views(sources@), location@, i as int);
    }
    None
}

/// Whether `location` is on the path.
fn on_path(path: &Vec<String>, location: &str) -> (r: bool)
    ensures
        r == texts(path@).contains(location@),
{
    let mut i: usize = 0;
    while i < path.len()
        invariant
            0 <= i <= path.len(),
            forall|j: int| 0 <= j < i ==> (#[trigger] texts(path@)[j]) != location@,
        decreases path.len() - i,
    {
        if same_text(path[i].as_str(), location) {
            assert(texts(path@)[i as int] == location@);
            return true;
        }
        i = i + 1;
    }
    false
}

/// Appends to `out` the declarations that the source under `location` stands
/// for.
fn expand_source_into(
    sources: &Vec<CatalogSource>,
    path: &mut Vec<String>,
    location: &str,
    out: &mut Vec<Plugin>,
) -> (r: Result<(), ResolveError>)
    ensures
        match expand_source(source_views(sources@), texts(old(path)@), location@) {
            Ok(flat) => {
                &&& r is Ok
                &&& views(final(out)@) == views(old(out)@) + flat
                &&& texts(final(path)@) == texts(old(path)@)
            },
            Err(failure) => r is Err && r->Err_0@ == failure,
        },
    decreases unvisited(source_views(sources@), texts(old(path)@)), 0nat,
{
    if on_path(path, location) {
        return Err(ResolveError::CyclicCollectionReference(location.to_owned()));
    }
    match find_source(sources, location) {
        None => Err(ResolveError::CatalogUnreadable(location.to_owned())),
        Some(source) => {
            let plugins = parse(source.text.as_str());
            let ghost outer = texts(path@);
            proof {
                lemma_unvisited_step(source_views(sources@), outer, location@);
            }
            path.push(location.to_owned());
            assert(texts(path@) =~= outer.push(location@));
            let r = expand_all_into(sources, path, &plugins, out);
            if r.is_ok() {
                let ghost inner = path@;
                path.pop();
                assert(texts(path@) =~= texts(inner).drop_last());
            }
            r
        },
    }
}

/// Appends to `out` the declarations that `plugins` stand for.
fn expand_all_into(
    sources: &Vec<CatalogSource>,
    path: &mut Vec<String>,
    plugins: &Vec<Plugin>,
    out: &mut Vec<Plugin>,
) -> (r: Result<(), ResolveError>)
    ensures
        match expand_all(source_views(sources@), texts(old(path)@), views(plugins@)) {
            Ok(flat) => {
                &&& r is Ok
                &&& views(final(out)@) == views(old(out)@) + flat
                &&& texts(final(path)@) == texts(old(path)@)
            },
            Err(failure) => r is Err && r->Err_0@ == failure,
        },
    decreases unvisited(source_views(sources@), texts(old(path)@)), plugins.len() + 1,
{
    let ghost all = views(plugins@);
    let ghost known = source_views(sources@);
    let ghost way = texts(path@);
    let ghost start = views(out@);
    let mut i: usize = 0;
    while i < plugins.len()
        invariant
            all == views(plugins@),
            known == source_views(sources@),
            way == texts(old(path)@),
            texts(path@) == way,
            0 <= i <= plugins.len(),
            expand_all(known, way, all.take(i as int)) is Ok,
            views(out@) == start + expand_all(known, way, all.take(i as int))->Ok_0,
        decreases plugins.len() - i,
    {
        proof {
            assert(all.take(i + 1).drop_last() =~= all.take(i as int));
            lemma_expand_all_prefix(known, way, all, i + 1);
        }
        if plugins[i].get_plugin_type() == PluginType::Collection {
            let location = plugins[i].get_location();
            let r = expand_source_into(sources, path, location.as_str(), out);
            if r.is_err() {
                return r;
            }
        } else {
            let ghost held = views(out@);
            out.push(plugins[i].duplicate());
            assert(views(out@) =~= held.push(plugins[i as int]@));
        }
        i = i + 1;
    }
    assert(all.take(i as int) =~= all);
    Ok(())
}

/// Where expanding a prefix of the declarations fails, expanding them all
/// fails in the same way.
pub proof fn lemma_expand_all_prefix(
    sources: Seq<SourceView>,
    path: Seq<Seq<char>>,
    plugins: Seq<PluginView>,
    n: int,
)
    requires
        0 <= n <= plugins.len(),
    ensures
        expand_all(sources, path, plugins.take(n)) is Err ==> expand_all(sources, path, plugins)
            == expand_all(sources, path, plugins.take(n)),
    decreases plugins.len() - n,
{
    if n == plugins.len() {
        assert(plugins.take(n) =~= plugins);
    } else {
        assert(plugins.take(n + 1).drop_last() =~= plugins.take(n));
        lemma_expand_all_prefix(sources, path, plugins, n + 1);
    }
}

/// The collections that name the sources at `roots`.
pub fn collections(roots: &Vec<String>) -> (plugins: Vec<Plugin>)
    ensures
        views(plugins@) == collections_of(texts(roots@)),
{
    let mut plugins: Vec<Plugin> = Vec::new();
    let mut i: usize = 0;
    let ghost wanted = collections_of(texts(roots@));
    while i < roots.len()
        invariant
            0 <= i <= roots.len(),
            wanted == collections_of(texts(roots@)),
            views(plugins@) =~= wanted.take(i as int),
        decreases roots.len() - i,
    {
        let ghost before = views(plugins@);
        plugins.push(Plugin::new(String::new(), false, PluginType::Collection, roots[i].clone()));
        proof {
            assert(views(plugins@) =~= before.push(collection_of(roots[i as int]@)));
        }
        i = i + 1;
    }
    plugins
}

/// Offers to the registry, in their order, the declarations that `plugins`
/// stand for. Where they stand for nothing, the registry is left as it was.
pub fn merge(registry: &mut Registry, sources: &Vec<CatalogSource>, plugins: &Vec<Plugin>) -> (r:
    Result<(), ResolveError>)
    ensures
        match merged(old(registry)@, source_views(sources@), views(plugins@)) {
            Ok(after) => r is Ok && final(registry)@ == after,
            Err(failure) => r is Err && r->Err_0@ == failure && final(registry)@ == old(registry)@,
        },
{
    let mut path: Vec<String> = Vec::new();
    let mut flat: Vec<Plugin> = Vec::new();
    assert(texts(path@) =~= Seq::<Seq<char>>::empty());
    match expand_all_into(sources, &mut path, plugins, &mut flat) {
        Err(failure) => Err(failure),
        Ok(()) => {
            let ghost all = views(flat@);
            let ghost start = registry@;
            let mut k: usize = 0;
            while k < flat.len()
                invariant
                    0 <= k <= flat.len(),
                    all == views(flat@),
                    registry@ == register_all(start, all.take(k as int)),
                decreases flat.len() - k,
            {
                registry.insert(flat[k].duplicate());
                proof {
                    assert(all.take(k + 1).drop_last() =~= all.take(k as int));
                }
                k = k + 1;
            }
            assert(all.take(k as int) =~= all);
            Ok(())
        },
    }
}

/// Resolves the sources at `roots`, the first one first, to the registry.
///
/// `sources` holds the catalog texts that are known, each under its
/// location; where two share a location, the first one counts. The result is
/// the first failure on the way where there is one: a location without source,
/// or one that a collection names while the source under it is being resolved.
pub fn resolve(roots: &Vec<String>, sources: &Vec<CatalogSource>) -> (r: Result<
    Registry,
    ResolveError,
>)
    ensures
        match resolve_roots(source_views(sources@), texts(roots@)) {
            Ok(registry) => r is Ok && r->Ok_0@ == registry,
            Err(failure) => r is Err && r->Err_0@ == failure,
        },
{
    let named = collections(roots);
    let mut registry = Registry::new();
    match merge(&mut registry, sources, &named) {
        Err(failure) => Err(failure),
        Ok(()) => Ok(registry),
    }
}

} // verus!
