//! The registry: the installable plugins of the resolved catalogs, by name.
//!
//! Declarations enter in the order in which resolution meets them. A
//! declaration that is disabled, or that is a collection, never enters; one
//! that enters replaces an earlier one of the same name.

use vstd::prelude::*;
use vstd::string::*;

use crate::plugin::{retained, views, Plugin, PluginType, PluginView};

verus! {

/// The registry after one declaration has been offered to it.
pub open spec fn register(
    registry: Map<Seq<char>, PluginView>,
    plugin: PluginView,
) -> Map<Seq<char>, PluginView> {
    if retained(plugin) {
        registry.insert(plugin.name, plugin)
    } else {
        registry
    }
}

/// The registry after a sequence of declarations has been offered to it, the
/// first one first.
pub open spec fn register_all(
    registry: Map<Seq<char>, PluginView>,
    plugins: Seq<PluginView>,
) -> Map<Seq<char>, PluginView>
    decreases plugins.len(),
{
    if plugins.len() == 0 {
        registry
    } else {
        register(register_all(registry, plugins.drop_last()), plugins.last())
    }
}

/// The index of the last declaration in `plugins` that is retained and called
/// `name`.
pub open spec fn last_retained(plugins: Seq<PluginView>, name: Seq<char>) -> Option<int>
    decreases plugins.len(),
{
    if plugins.len() == 0 {
        None
    } else if retained(plugins.last()) && plugins.last().name == name {
        Some(plugins.len() - 1)
    } else {
        last_retained(plugins.drop_last(), name)
    }
}

/// No two of `plugins` share a name, and each of them is retained.
pub open spec fn distinct_retained(plugins: Seq<PluginView>) -> bool {
    &&& forall|i: int| 0 <= i < plugins.len() ==> retained(#[trigger] plugins[i])
    &&& forall|i: int, j: int|
        0 <= i < j < plugins.len() ==> (#[trigger] plugins[i]).name != (#[trigger] plugins[j]).name
}

/// What `last_retained` finds: a retained declaration of that name after
/// which no other such declaration stands; and where it finds none, there is
/// none.
pub proof fn lemma_last_retained(plugins: Seq<PluginView>, name: Seq<char>)
    ensures
        match last_retained(plugins, name) {
            Some(at) => {
                &&& 0 <= at < plugins.len()
                &&& retained(plugins[at])
                &&& plugins[at].name == name
                &&& forall|j: int|
                    at < j < plugins.len() ==> !(retained(#[trigger] plugins[j]) && plugins[j].name
                        == name)
            },
            None => forall|j: int|
                0 <= j < plugins.len() ==> !(retained(#[trigger] plugins[j]) && plugins[j].name
                    == name),
        },
    decreases plugins.len(),
{
    if plugins.len() > 0 && !(retained(plugins.last()) && plugins.last().name == name) {
        let front = plugins.drop_last();
        lemma_last_retained(front, name);
        match last_retained(front, name) {
            Some(at) => {
                assert forall|j: int| at < j < plugins.len() implies !(retained(
                    #[trigger] plugins[j],
                ) && plugins[j].name == name) by {
                    if j < front.len() {
                        assert(plugins[j] == front[j]);
                    }
                }
            },
            None => {
                assert forall|j: int| 0 <= j < plugins.len() implies !(retained(
                    #[trigger] plugins[j],
                ) && plugins[j].name == name) by {
                    if j < front.len() {
                        assert(plugins[j] == front[j]);
                    }
                }
            },
        }
    }
}

/// Under a name, the registry holds the last retained declaration of that
/// name among those offered; where none was offered, what it held before.
pub proof fn lemma_register_all(
    registry: Map<Seq<char>, PluginView>,
    plugins: Seq<PluginView>,
    name: Seq<char>,
)
    ensures
        match last_retained(plugins, name) {
            Some(at) => {
                &&& register_all(registry, plugins).contains_key(name)
                &&& register_all(registry, plugins)[name] == plugins[at]
            },
            None => {
                &&& register_all(registry, plugins).contains_key(name) == registry.contains_key(
                    name,
                )
                &&& registry.contains_key(name) ==> register_all(registry, plugins)[name]
                    == registry[name]
            },
        },
    decreases plugins.len(),
{
    if plugins.len() > 0 {
        lemma_register_all(registry, plugins.drop_last(), name);
        lemma_last_retained(plugins.drop_last(), name);
    }
}

/// Offering one sequence of declarations and then another is offering the two
/// in a row.
pub proof fn lemma_register_all_append(
    registry: Map<Seq<char>, PluginView>,
    first: Seq<PluginView>,
    second: Seq<PluginView>,
)
    ensures
        register_all(registry, first + second) == register_all(
            register_all(registry, first),
            second,
        ),
    decreases second.len(),
{
    if second.len() > 0 {
        lemma_register_all_append(registry, first, second.drop_last());
        assert((first + second).drop_last() =~= first + second.drop_last());
    }
}

/// The place in `plugins` of the plugin called `name`.
fn position(plugins: &Vec<Plugin>, name: &str) -> (at: Option<usize>)
    ensures
        match at {
            Some(i) => i < plugins.len() && plugins[i as int]@.name == name@,
            None => forall|j: int| 0 <= j < plugins.len() ==> (#[trigger] plugins[j])@.name != name@,
        },
{
    let mut i: usize = 0;
    while i < plugins.len()
        invariant
            0 <= i <= plugins.len(),
            forall|j: int| 0 <= j < i ==> (#[trigger] plugins[j])@.name != name@,
        decreases plugins.len() - i,
    {
        if plugins[i].is_named(name) {
            return Some(i);
        }
        i = i + 1;
    }
    None
}

/// The installable plugins, by name.
pub struct Registry {
    plugins: Vec<Plugin>,
}

impl View for Registry {
    type V = Map<Seq<char>, PluginView>;

    closed spec fn view(&self) -> Map<Seq<char>, PluginView> {
        register_all(Map::empty(), views(self.plugins@))
    }
}

impl Registry {
    #[verifier::type_invariant]
    spec fn well_formed(&self) -> bool {
        distinct_retained(views(self.plugins@))
    }

    /// The plugin that each place of the registry holds.
    pub closed spec fn entries(&self) -> Seq<PluginView> {
        views(self.plugins@)
    }

    /// The registry without any plugin.
    pub fn new() -> (registry: Registry)
        ensures
            registry@ == Map::<Seq<char>, PluginView>::empty(),
            registry.entries().len() == 0,
    {
        let plugins: Vec<Plugin> = Vec::new();
        Registry { plugins }
    }

    /// The number of plugins.
    pub fn len(&self) -> (n: usize)
        ensures
            n == self.entries().len(),
            n == self@.dom().len(),
            self@.dom().finite(),
    {
        proof {
            use_type_invariant(self);
            lemma_distinct_len(views(self.plugins@));
        }
        self.plugins.len()
    }

    /// Whether a plugin is called `name`.
    pub fn contains_key(&self, name: &str) -> (r: bool)
        ensures
            r == self@.contains_key(name@),
    {
        self.get(name).is_some()
    }

    /// The plugin called `name`.
    pub fn get(&self, name: &str) -> (found: Option<&Plugin>)
        ensures
            match found {
                Some(plugin) => self@.contains_key(name@) && self@[name@] == plugin@,
                None => !self@.contains_key(name@),
            },
    {
        proof {
            use_type_invariant(self);
            lemma_register_all(Map::empty(), views(self.plugins@), name@);
            lemma_last_retained(views(self.plugins@), name@);
        }
        match position(&self.plugins, name) {
            Some(i) => {
                assert(views(self.plugins@)[i as int] == self.plugins[i as int]@);
                Some(&self.plugins[i])
            },
            None => {
                None
            },
        }
    }

    /// The plugin at a place of the registry.
    pub fn entry(&self, at: usize) -> (plugin: &Plugin)
        requires
            at < self.entries().len(),
        ensures
            plugin@ == self.entries()[at as int],
            self@.contains_key(plugin@.name),
            self@[plugin@.name] == plugin@,
    {
        proof {
            use_type_invariant(self);
            let all = views(self.plugins@);
            lemma_register_all(Map::empty(), all, all[at as int].name);
            lemma_last_retained(all, all[at as int].name);
        }
        &self.plugins[at]
    }

    /// Offers a declaration to the registry: it enters where it is enabled
    /// and no collection, and then replaces the plugin of its name.
    pub fn insert(&mut self, plugin: Plugin)
        ensures
            final(self)@ == register(old(self)@, plugin@),
    {
        proof {
            use_type_invariant(&*self);
        }
        if !plugin.is_enabled() || plugin.get_plugin_type() == PluginType::Collection {
            return ;
        }
        let ghost before = views(self.plugins@);
        let ghost entry = plugin@;
        let mut plugins: Vec<Plugin> = Vec::new();
        std::mem::swap(&mut self.plugins, &mut plugins);
        let name = plugin.get_name();
        match position(&plugins, name.as_str()) {
            Some(i) => {
                plugins.set(i, plugin);
                proof {
                    let after = views(plugins@);
                    assert(after =~= before.update(i as int, entry));
                    lemma_replace(before, i as int, entry);
                }
            },
            None => {
                plugins.push(plugin);
                proof {
                    let after = views(plugins@);
                    assert(after =~= before.push(entry));
                    assert(after.drop_last() =~= before);
                }
            },
        }
        std::mem::swap(&mut self.plugins, &mut plugins);
    }
}

/// Among declarations that are retained and of distinct names, putting one of
/// the same name in the place of another is offering it after them all.
proof fn lemma_replace(plugins: Seq<PluginView>, at: int, plugin: PluginView)
    requires
        distinct_retained(plugins),
        0 <= at < plugins.len(),
        retained(plugin),
        plugin.name == plugins[at].name,
    ensures
        register_all(Map::empty(), plugins.update(at, plugin)) == register(
            register_all(Map::empty(), plugins),
            plugin,
        ),
{
    let after = plugins.update(at, plugin);
    let left = register_all(Map::empty(), after);
    let right = register(register_all(Map::empty(), plugins), plugin);
    assert forall|name: Seq<char>|
        #![trigger left.dom().contains(name)]
        #![trigger right.dom().contains(name)]
        left.dom().contains(name) == right.dom().contains(name) && (left.dom().contains(name)
            ==> left[name] == right[name]) by {
        lemma_register_all(Map::empty(), after, name);
        lemma_register_all(Map::empty(), plugins, name);
        lemma_last_retained(after, name);
        lemma_last_retained(plugins, name);
        if name == plugin.name {
            assert(retained(after[at]) && after[at].name == name);
        } else {
            match last_retained(plugins, name) {
                Some(i) => {
                    assert(after[i] == plugins[i]);
                },
                None => {},
            }
        }
    }
}

/// Declarations that are retained and of distinct names fill a registry with
/// as many plugins as they are.
proof fn lemma_distinct_len(plugins: Seq<PluginView>)
    requires
        distinct_retained(plugins),
    ensures
        register_all(Map::empty(), plugins).dom().finite(),
        register_all(Map::empty(), plugins).dom().len() == plugins.len(),
    decreases plugins.len(),
{
    if plugins.len() > 0 {
        let front = plugins.drop_last();
        assert(distinct_retained(front));
        lemma_distinct_len(front);
        lemma_register_all(Map::empty(), front, plugins.last().name);
        lemma_last_retained(front, plugins.last().name);
    }
}

} // verus!
