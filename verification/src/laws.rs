//! What holds of resolution, of the ledger and of the operations, whatever
//! the catalogs and the ledger say.

use vstd::prelude::*;

use crate::catalog::parse_catalog;
use crate::ledger::{entries_of, is_line, lemma_entries_of_line, lemma_without_first, without_first};
use crate::listing::{
    all_declared, law_listing_round_trip, law_parse_declared, listing, well_declared,
};
use crate::plugin::{PluginType, PluginView};
use crate::plugin_manager::{
    install_step, known, ledger_after, upgrade_targets, ManagerView, Outcome, Seen, Status,
    StepView,
};
use crate::registry::{
    last_retained, lemma_last_retained, lemma_register_all, lemma_register_all_append,
    register_all,
};
use crate::resolver::{
    collection_of, collections_of, expand_all, expand_source, lemma_unvisited_step, resolve_roots,
    source_text, unvisited, ResolveFailure, SourceView,
};

verus! {

/// None of `plugins` is a collection.
pub open spec fn plain(plugins: Seq<PluginView>) -> bool {
    forall|i: int| 0 <= i < plugins.len() ==> (#[trigger] plugins[i]).plugin_type
        != PluginType::Collection
}

/// The source at `from` is known and declares a collection that names `to`.
pub open spec fn refers(sources: Seq<SourceView>, from: Seq<char>, to: Seq<char>) -> bool {
    match source_text(sources, from) {
        None => false,
        Some(text) => exists|i: int|
            0 <= i < parse_catalog(text).len() && (#[trigger] parse_catalog(text)[i]).plugin_type
                == PluginType::Collection && parse_catalog(text)[i].location == to,
    }
}

/// Each location of `walk` refers to the next one.
pub open spec fn is_walk(sources: Seq<SourceView>, walk: Seq<Seq<char>>) -> bool {
    forall|k: int| 0 <= k < walk.len() - 1 ==> refers(sources, #[trigger] walk[k], walk[k + 1])
}

/// Every location that a collection of a known source names is known.
pub open spec fn closed(sources: Seq<SourceView>) -> bool {
    forall|from: Seq<char>, to: Seq<char>| #[trigger]
        refers(sources, from, to) ==> source_text(sources, to) is Some
}

/// Declarations without collection stand for themselves.
pub proof fn lemma_expand_plain(
    sources: Seq<SourceView>,
    path: Seq<Seq<char>>,
    plugins: Seq<PluginView>,
)
    requires
        plain(plugins),
    ensures
        expand_all(sources, path, plugins) == Ok::<Seq<PluginView>, ResolveFailure>(plugins),
    decreases plugins.len(),
{
    if plugins.len() > 0 {
        let front = plugins.drop_last();
        assert(plain(front));
        lemma_expand_plain(sources, path, front);
        assert(front.push(plugins.last()) =~= plugins);
    } else {
        assert(plugins =~= Seq::empty());
    }
}

/// Declarations with one more at their end stand for what they stood for,
/// followed by what the added one stands for.
pub proof fn lemma_expand_push(
    sources: Seq<SourceView>,
    path: Seq<Seq<char>>,
    plugins: Seq<PluginView>,
    plugin: PluginView,
)
    ensures
        expand_all(sources, path, plugins.push(plugin)) == match expand_all(
            sources,
            path,
            plugins,
        ) {
            Err(failure) => Err::<Seq<PluginView>, ResolveFailure>(failure),
            Ok(before) => if plugin.plugin_type == PluginType::Collection {
                match expand_source(sources, path, plugin.location) {
                    Err(failure) => Err(failure),
                    Ok(inner) => Ok(before + inner),
                }
            } else {
                Ok(before.push(plugin))
            },
        },
{
    assert(plugins.push(plugin).drop_last() =~= plugins);
}

/// A known source off the path whose catalog declares no collection stands
/// for its own declarations.
pub proof fn lemma_expand_source_of_plain(
    sources: Seq<SourceView>,
    path: Seq<Seq<char>>,
    location: Seq<char>,
)
    requires
        !path.contains(location),
        source_text(sources, location) is Some,
        plain(parse_catalog(source_text(sources, location)->Some_0)),
    ensures
        expand_source(sources, path, location) == Ok::<Seq<PluginView>, ResolveFailure>(
            parse_catalog(source_text(sources, location)->Some_0),
        ),
{
    lemma_expand_plain(
        sources,
        path.push(location),
        parse_catalog(source_text(sources, location)->Some_0),
    );
}

/// What a source stands for holds no collection.
pub proof fn lemma_expand_source_plain(
    sources: Seq<SourceView>,
    path: Seq<Seq<char>>,
    location: Seq<char>,
)
    ensures
        expand_source(sources, path, location) matches Ok(flat) ==> plain(flat),
    decreases unvisited(sources, path), 0nat,
{
    if !path.contains(location) {
        match source_text(sources, location) {
            None => {},
            Some(text) => {
                lemma_unvisited_step(sources, path, location);
                lemma_expand_all_plain(sources, path.push(location), parse_catalog(text));
            },
        }
    }
}

/// What declarations stand for holds no collection.
pub proof fn lemma_expand_all_plain(
    sources: Seq<SourceView>,
    path: Seq<Seq<char>>,
    plugins: Seq<PluginView>,
)
    ensures
        expand_all(sources, path, plugins) matches Ok(flat) ==> plain(flat),
    decreases unvisited(sources, path), plugins.len() + 1,
{
    if plugins.len() > 0 {
        lemma_expand_all_plain(sources, path, plugins.drop_last());
        if plugins.last().plugin_type == PluginType::Collection {
            lemma_expand_source_plain(sources, path, plugins.last().location);
        }
    }
}

/// Where declarations stand for something, so does each source that a
/// collection among them names.
pub proof fn lemma_expand_all_member(
    sources: Seq<SourceView>,
    path: Seq<Seq<char>>,
    plugins: Seq<PluginView>,
    at: int,
)
    requires
        0 <= at < plugins.len(),
        plugins[at].plugin_type == PluginType::Collection,
        expand_all(sources, path, plugins) is Ok,
    ensures
        expand_source(sources, path, plugins[at].location) is Ok,
    decreases plugins.len(),
{
    if at < plugins.len() - 1 {
        lemma_expand_all_member(sources, path, plugins.drop_last(), at);
    }
}

/// Where the first location of a walk stands for something, so does each
/// later one, with the locations before it on the path.
pub proof fn lemma_walk(
    sources: Seq<SourceView>,
    path: Seq<Seq<char>>,
    walk: Seq<Seq<char>>,
    k: int,
)
    requires
        is_walk(sources, walk),
        0 <= k < walk.len(),
        expand_source(sources, path, walk[0]) is Ok,
    ensures
        expand_source(sources, path + walk.take(k), walk[k]) is Ok,
    decreases k,
{
    if k > 0 {
        lemma_walk(sources, path, walk, k - 1);
        let here = path + walk.take(k - 1);
        let text = source_text(sources, walk[k - 1])->Some_0;
        let at = choose|i: int|
            0 <= i < parse_catalog(text).len() && (#[trigger] parse_catalog(text)[i]).plugin_type
                == PluginType::Collection && parse_catalog(text)[i].location == walk[k];
        lemma_expand_all_member(sources, here.push(walk[k - 1]), parse_catalog(text), at);
        assert(here.push(walk[k - 1]) =~= path + walk.take(k));
    }
}

/// Among sources that are closed, a known source stands for something, or a
/// cycle is met: no location is found unreadable.
pub proof fn lemma_closed_source(
    sources: Seq<SourceView>,
    path: Seq<Seq<char>>,
    location: Seq<char>,
)
    requires
        closed(sources),
        source_text(sources, location) is Some,
    ensures
        expand_source(sources, path, location) matches Err(failure) ==> failure
            is CyclicCollectionReference,
    decreases unvisited(sources, path), 0nat,
{
    if !path.contains(location) {
        let text = source_text(sources, location)->Some_0;
        lemma_unvisited_step(sources, path, location);
        lemma_closed_all(sources, path.push(location), location, parse_catalog(text).len() as int);
        assert(parse_catalog(text).take(parse_catalog(text).len() as int) =~= parse_catalog(text));
    }
}

/// The same of the first `n` declarations of a known source.
pub proof fn lemma_closed_all(
    sources: Seq<SourceView>,
    path: Seq<Seq<char>>,
    origin: Seq<char>,
    n: int,
)
    requires
        closed(sources),
        source_text(sources, origin) is Some,
        0 <= n <= parse_catalog(source_text(sources, origin)->Some_0).len(),
    ensures
        expand_all(sources, path, parse_catalog(source_text(sources, origin)->Some_0).take(n))
            matches Err(failure) ==> failure is CyclicCollectionReference,
    decreases unvisited(sources, path), n + 1,
{
    let all = parse_catalog(source_text(sources, origin)->Some_0);
    let plugins = all.take(n);
    if n > 0 {
        assert(plugins.drop_last() =~= all.take(n - 1));
        lemma_closed_all(sources, path, origin, n - 1);
        if plugins.last().plugin_type == PluginType::Collection {
            assert(refers(sources, origin, plugins.last().location));
            lemma_closed_source(sources, path, plugins.last().location);
        }
    }
}

/// A catalog that declares no collection resolves to exactly its enabled
/// blocks, by name, each as the catalog declares it; of two enabled blocks
/// with one name, the later one.
pub proof fn law_plain_catalog(sources: Seq<SourceView>, location: Seq<char>, name: Seq<char>)
    requires
        source_text(sources, location) is Some,
        plain(parse_catalog(source_text(sources, location)->Some_0)),
    ensures
        ({
            let blocks = parse_catalog(source_text(sources, location)->Some_0);
            &&& resolve_roots(sources, seq![location]) matches Ok(registry)
            &&& registry == register_all(Map::empty(), blocks)
            &&& registry.contains_key(name) <==> exists|i: int|
                0 <= i < blocks.len() && (#[trigger] blocks[i]).enabled && blocks[i].name == name
            &&& forall|i: int|
                0 <= i < blocks.len() && (#[trigger] blocks[i]).enabled && blocks[i].name == name
                    && (forall|j: int|
                    i < j < blocks.len() ==> !((#[trigger] blocks[j]).enabled && blocks[j].name
                        == name)) ==> registry[name] == blocks[i]
        }),
{
    let blocks = parse_catalog(source_text(sources, location)->Some_0);
    lemma_resolve_one_plain(sources, location);
    lemma_register_all(Map::empty(), blocks, name);
    lemma_last_retained(blocks, name);
}

/// A single root whose catalog declares no collection resolves to the
/// registry of its own declarations.
pub proof fn lemma_resolve_one_plain(sources: Seq<SourceView>, location: Seq<char>)
    requires
        source_text(sources, location) is Some,
        plain(parse_catalog(source_text(sources, location)->Some_0)),
    ensures
        resolve_roots(sources, seq![location]) == Ok::<Map<Seq<char>, PluginView>, ResolveFailure>(
            register_all(Map::empty(), parse_catalog(source_text(sources, location)->Some_0)),
        ),
{
    let roots = collections_of(seq![location]);
    let none = Seq::<Seq<char>>::empty();
    let nothing = Seq::<PluginView>::empty();
    lemma_expand_source_of_plain(sources, none, location);
    lemma_expand_push(sources, none, nothing, collection_of(location));
    assert(roots =~= nothing.push(collection_of(location)));
}

/// Resolving catalogs that name each other through collections gives what
/// resolving one catalog gives in which every collection is replaced by the
/// declarations that it stands for.
pub proof fn law_inlined(
    sources: Seq<SourceView>,
    roots: Seq<Seq<char>>,
    others: Seq<SourceView>,
    inlined: Seq<char>,
)
    requires
        expand_all(sources, Seq::empty(), collections_of(roots)) is Ok,
        source_text(others, inlined) is Some,
        parse_catalog(source_text(others, inlined)->Some_0) == expand_all(
            sources,
            Seq::empty(),
            collections_of(roots),
        )->Ok_0,
    ensures
        resolve_roots(others, seq![inlined]) == resolve_roots(sources, roots),
{
    lemma_expand_all_plain(sources, Seq::empty(), collections_of(roots));
    lemma_resolve_one_plain(others, inlined);
}

/// Where the sources reached from a root refer to each other in a circle,
/// resolving the root fails.
pub proof fn law_cycle_fails(
    sources: Seq<SourceView>,
    path: Seq<Seq<char>>,
    walk: Seq<Seq<char>>,
    again: int,
)
    requires
        is_walk(sources, walk),
        0 <= again < walk.len() - 1,
        walk[again] == walk.last(),
    ensures
        expand_source(sources, path, walk[0]) is Err,
{
    if expand_source(sources, path, walk[0]) is Ok {
        let last = walk.len() - 1;
        lemma_walk(sources, path, walk, last);
        let here = path + walk.take(last);
        assert(here[path.len() + again] == walk[again]);
    }
}

/// Where, moreover, every location that a collection names is known, the
/// failure is the cycle: resolving a known root, from which a circle of
/// references is reached, fails with `CyclicCollectionReference`.
pub proof fn law_cycle(sources: Seq<SourceView>, walk: Seq<Seq<char>>, again: int)
    requires
        closed(sources),
        is_walk(sources, walk),
        0 <= again < walk.len() - 1,
        walk[again] == walk.last(),
    ensures
        resolve_roots(sources, seq![walk[0]]) matches Err(failure) && failure
            is CyclicCollectionReference,
{
    let none = Seq::<Seq<char>>::empty();
    let roots = collections_of(seq![walk[0]]);
    law_cycle_fails(sources, none, walk, again);
    lemma_closed_source(sources, none, walk[0]);
    assert(expand_all(sources, none, roots.drop_last()) == Ok::<
        Seq<PluginView>,
        ResolveFailure,
    >(Seq::empty()));
}

/// Of two catalogs without collections that each declare an enabled plugin of
/// one name, the registry holds the plugin as the catalog resolved last
/// declares it.
pub proof fn law_override(
    sources: Seq<SourceView>,
    first: Seq<char>,
    second: Seq<char>,
    name: Seq<char>,
)
    requires
        source_text(sources, first) is Some,
        source_text(sources, second) is Some,
        plain(parse_catalog(source_text(sources, first)->Some_0)),
        plain(parse_catalog(source_text(sources, second)->Some_0)),
        last_retained(parse_catalog(source_text(sources, second)->Some_0), name) is Some,
    ensures
        ({
            let later = parse_catalog(source_text(sources, second)->Some_0);
            &&& resolve_roots(sources, seq![first, second]) matches Ok(registry)
            &&& registry.contains_key(name)
            &&& registry[name] == later[last_retained(later, name)->Some_0]
        }),
{
    let earlier = parse_catalog(source_text(sources, first)->Some_0);
    let later = parse_catalog(source_text(sources, second)->Some_0);
    let none = Seq::<Seq<char>>::empty();
    let nothing = Seq::<PluginView>::empty();
    let roots = collections_of(seq![first, second]);
    lemma_expand_source_of_plain(sources, none, first);
    lemma_expand_source_of_plain(sources, none, second);
    let front = nothing.push(collection_of(first));
    lemma_expand_push(sources, none, nothing, collection_of(first));
    lemma_expand_push(sources, none, front, collection_of(second));
    assert(roots =~= front.push(collection_of(second)));
    lemma_register_all_append(Map::empty(), earlier, later);
    lemma_register_all(register_all(Map::empty(), earlier), later, name);
    lemma_last_retained(later, name);
}

/// Recording two names adds them at the end of the ledger in that order;
/// removing the first of the two then leaves the ledger as if only the second
/// had been recorded.
pub proof fn law_record_remove(ledger: Seq<Seq<char>>, first: Seq<char>, second: Seq<char>)
    requires
        is_line(first),
        is_line(second),
        !ledger.contains(first),
    ensures
        ledger + entries_of(first) + entries_of(second) == ledger.push(first).push(second),
        without_first(ledger.push(first).push(second), first) == ledger.push(second),
{
    lemma_entries_of_line(first);
    lemma_entries_of_line(second);
    let recorded = ledger.push(first).push(second);
    assert forall|j: int| 0 <= j < ledger.len() implies recorded[j] != first by {}
    lemma_without_first(recorded, first, ledger.len() as int);
}

/// Installing a local plugin in whose place a directory stands already copies
/// nothing and leaves the ledger as it was, however the world answers.
pub proof fn law_install_present(
    manager: ManagerView,
    ledger: Seq<Seq<char>>,
    name: Seq<char>,
    seen: Seen,
    backend: Outcome,
)
    requires
        manager.plugins.contains_key(name),
        manager.plugins[name].plugin_type == PluginType::Local,
        seen.destination_is_dir,
    ensures
        install_step(manager, name, seen) is Skip,
        seen.source_is_dir ==> install_step(manager, name, seen) == StepView::Skip(
            Status::AlreadyInstalled,
        ),
        ledger_after(ledger, name, install_step(manager, name, seen), backend) == ledger,
{
}

/// The names among `names` that the registry knows are exactly those of
/// `names` under which the registry holds a plugin.
pub proof fn lemma_known(
    registry: Map<Seq<char>, PluginView>,
    names: Seq<Seq<char>>,
    name: Seq<char>,
)
    ensures
        known(registry, names).contains(name) <==> names.contains(name) && registry.contains_key(
            name,
        ),
    decreases names.len(),
{
    if names.len() > 0 {
        let front = names.drop_last();
        lemma_known(registry, front, name);
        let before = known(registry, front);
        if names.contains(name) {
            let at = choose|i: int| 0 <= i < names.len() && names[i] == name;
            if at < front.len() {
                assert(front[at] == name);
            }
        }
        if registry.contains_key(names.last()) {
            let after = before.push(names.last());
            assert(after[before.len() as int] == names.last());
            if before.contains(name) {
                let at = choose|i: int| 0 <= i < before.len() && before[i] == name;
                assert(after[at] == name);
            }
        }
    }
}

/// An upgrade for which no name is asked for is for exactly the names of the
/// ledger that the registry knows.
pub proof fn law_upgrade_all(
    registry: Map<Seq<char>, PluginView>,
    ledger: Seq<Seq<char>>,
    name: Seq<char>,
)
    ensures
        upgrade_targets(registry, Seq::empty(), ledger) == known(registry, ledger),
        upgrade_targets(registry, Seq::empty(), ledger).contains(name) <==> ledger.contains(name)
            && registry.contains_key(name),
{
    lemma_known(registry, ledger, name);
}

/// What a source stands for is well declared.
pub proof fn lemma_expand_source_declared(
    sources: Seq<SourceView>,
    path: Seq<Seq<char>>,
    location: Seq<char>,
)
    ensures
        expand_source(sources, path, location) matches Ok(flat) ==> all_declared(flat),
    decreases unvisited(sources, path), 0nat,
{
    if !path.contains(location) {
        match source_text(sources, location) {
            None => {},
            Some(text) => {
                lemma_unvisited_step(sources, path, location);
                law_parse_declared(text);
                lemma_expand_all_declared(sources, path.push(location), parse_catalog(text));
            },
        }
    }
}

/// What declarations stand for is well declared, where those of them are
/// that are no collections.
pub proof fn lemma_expand_all_declared(
    sources: Seq<SourceView>,
    path: Seq<Seq<char>>,
    plugins: Seq<PluginView>,
)
    requires
        forall|i: int|
            0 <= i < plugins.len() && (#[trigger] plugins[i]).plugin_type != PluginType::Collection
                ==> well_declared(plugins[i]),
    ensures
        expand_all(sources, path, plugins) matches Ok(flat) ==> all_declared(flat),
    decreases unvisited(sources, path), plugins.len() + 1,
{
    if plugins.len() > 0 {
        let front = plugins.drop_last();
        assert forall|i: int|
            0 <= i < front.len() && (#[trigger] front[i]).plugin_type
                != PluginType::Collection implies well_declared(front[i]) by {}
        lemma_expand_all_declared(sources, path, front);
        if plugins.last().plugin_type == PluginType::Collection {
            lemma_expand_source_declared(sources, path, plugins.last().location);
        }
    }
}

/// Resolving catalogs that name each other through collections gives what
/// resolving the one catalog gives that lists what they stand for.
pub proof fn law_inlined_listing(
    sources: Seq<SourceView>,
    roots: Seq<Seq<char>>,
    location: Seq<char>,
)
    requires
        expand_all(sources, Seq::empty(), collections_of(roots)) is Ok,
    ensures
        resolve_roots(
            seq![
                SourceView {
                    location,
                    text: listing(
                        expand_all(sources, Seq::empty(), collections_of(roots))->Ok_0,
                    ),
                },
            ],
            seq![location],
        ) == resolve_roots(sources, roots),
{
    let flat = expand_all(sources, Seq::empty(), collections_of(roots))->Ok_0;
    let inlined = seq![SourceView { location, text: listing(flat) }];
    lemma_expand_all_declared(sources, Seq::empty(), collections_of(roots));
    law_listing_round_trip(flat);
    law_inlined(sources, roots, inlined, location);
}

} // verus!
