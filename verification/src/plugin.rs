//! Plugins as a catalog declares them.

use vstd::prelude::*;
use vstd::string::*;

use crate::text::{lemma_unlines_push, same_text, unlines};

verus! {

/// How a plugin is obtained.
#[derive(Debug, PartialEq, Eq, Clone, Copy, Structural)]
pub enum PluginType {
    /// No plugin itself: its location names another catalog.
    Collection,
    /// Fetched with the version-control tool.
    Repo,
    /// Copied from a local directory.
    Local,
}

/// The name of a plugin type.
pub open spec fn kind_name(plugin_type: PluginType) -> Seq<char> {
    match plugin_type {
        PluginType::Collection => "Collection"@,
        PluginType::Repo => "Repo"@,
        PluginType::Local => "Local"@,
    }
}

/// The word by which a catalog names a plugin type.
pub open spec fn kind_keyword(plugin_type: PluginType) -> Seq<char> {
    match plugin_type {
        PluginType::Collection => "collection"@,
        PluginType::Repo => "repo"@,
        PluginType::Local => "local"@,
    }
}

/// The word by which a catalog writes a truth value.
pub open spec fn bool_keyword(b: bool) -> Seq<char> {
    if b {
        "true"@
    } else {
        "false"@
    }
}

impl PluginType {
    /// The type's name, capitalised.
    pub fn to_string(&self) -> (out: String)
        ensures
            out@ == kind_name(*self),
    {
        match self {
            PluginType::Collection => String::from_str("Collection"),
            PluginType::Repo => String::from_str("Repo"),
            PluginType::Local => String::from_str("Local"),
        }
    }

    /// The word by which a catalog names the type.
    pub fn keyword(&self) -> (out: String)
        ensures
            out@ == kind_keyword(*self),
    {
        match self {
            PluginType::Collection => String::from_str("collection"),
            PluginType::Repo => String::from_str("repo"),
            PluginType::Local => String::from_str("local"),
        }
    }
}

/// What a plugin declaration says.
pub struct PluginView {
    pub name: Seq<char>,
    pub enabled: bool,
    pub plugin_type: PluginType,
    pub location: Seq<char>,
}

/// A declaration that is kept as an installable plugin: enabled, and no
/// collection.
pub open spec fn retained(plugin: PluginView) -> bool {
    plugin.enabled && plugin.plugin_type != PluginType::Collection
}

/// The line that opens the block of the plugin called `name`.
pub open spec fn header_line(name: Seq<char>) -> Seq<char> {
    seq!['['] + name + seq![']']
}

/// The line that gives `value` to `key`.
pub open spec fn field_line(key: Seq<char>, value: Seq<char>) -> Seq<char> {
    key + seq!['='] + value
}

/// The lines of the catalog block that declares `plugin`: its header, its
/// three fields, and an empty line.
pub open spec fn block_lines(plugin: PluginView) -> Seq<Seq<char>> {
    seq![
        header_line(plugin.name),
        field_line("enabled"@, bool_keyword(plugin.enabled)),
        field_line("type"@, kind_keyword(plugin.plugin_type)),
        field_line("location"@, plugin.location),
        Seq::empty(),
    ]
}

/// The catalog block that declares `plugin`.
pub open spec fn block_text(plugin: PluginView) -> Seq<char> {
    unlines(block_lines(plugin))
}

/// One plugin declaration of a catalog.
#[derive(Debug)]
pub struct Plugin {
    name: String,
    enabled: bool,
    plugin_type: PluginType,
    location: String,
}

impl View for Plugin {
    type V = PluginView;

    closed spec fn view(&self) -> PluginView {
        PluginView {
            name: self.name@,
            enabled: self.enabled,
            plugin_type: self.plugin_type,
            location: self.location@,
        }
    }
}

/// What each of a list of declarations says.
pub open spec fn views(plugins: Seq<Plugin>) -> Seq<PluginView> {
    plugins.map_values(|p: Plugin| p@)
}

impl Plugin {
    /// The declaration that says what is given.
    pub fn new(name: String, enabled: bool, plugin_type: PluginType, location: String) -> (plugin:
        Plugin)
        ensures
            plugin@ == (PluginView { name: name@, enabled, plugin_type, location: location@ }),
    {
        Plugin { name, enabled, plugin_type, location }
    }

    /// How the plugin is obtained.
    pub fn get_plugin_type(&self) -> (plugin_type: PluginType)
        ensures
            plugin_type == self@.plugin_type,
    {
        self.plugin_type
    }

    /// Where the plugin is obtained from.
    pub fn get_location(&self) -> (location: String)
        ensures
            location@ == self@.location,
    {
        self.location.clone()
    }

    /// What the plugin is called.
    pub fn get_name(&self) -> (name: String)
        ensures
            name@ == self@.name,
    {
        self.name.clone()
    }

    /// Whether the catalog enables the plugin.
    pub fn is_enabled(&self) -> (enabled: bool)
        ensures
            enabled == self@.enabled,
    {
        self.enabled
    }

    /// Whether the plugin is called `name`.
    pub fn is_named(&self, name: &str) -> (r: bool)
        ensures
            r == (self@.name == name@),
    {
        let own = self.name.as_str();
        same_text(own, name)
    }

    /// A second value that says the same.
    pub fn duplicate(&self) -> (plugin: Plugin)
        ensures
            plugin@ == self@,
    {
        Plugin {
            name: self.name.clone(),
            enabled: self.enabled,
            plugin_type: self.plugin_type,
            location: self.location.clone(),
        }
    }

    /// The catalog block that declares the plugin.
    pub fn to_string(&self) -> (out: String)
        ensures
            out@ == block_text(self@),
    {
        let ghost all = block_lines(self@);
        let mut out = String::new();
        proof {
            reveal_strlit("[");
            reveal_strlit("]");
            reveal_strlit("=");
            reveal_strlit("\n");
        }
        out.append("[");
        out.append(self.name.as_str());
        out.append("]");
        out.append("\n");
        proof {
            lemma_unlines_push(all.take(0), all[0]);
            assert(all.take(0).push(all[0]) =~= all.take(1));
        }
        out.append("enabled");
        out.append("=");
        out.append(if self.enabled {
            "true"
        } else {
            "false"
        });
        out.append("\n");
        proof {
            lemma_unlines_push(all.take(1), all[1]);
            assert(all.take(1).push(all[1]) =~= all.take(2));
        }
        out.append("type");
        out.append("=");
        let keyword = self.plugin_type.keyword();
        out.append(keyword.as_str());
        out.append("\n");
        proof {
            lemma_unlines_push(all.take(2), all[2]);
            assert(all.take(2).push(all[2]) =~= all.take(3));
        }
        out.append("location");
        out.append("=");
        out.append(self.location.as_str());
        out.append("\n");
        proof {
            lemma_unlines_push(all.take(3), all[3]);
            assert(all.take(3).push(all[3]) =~= all.take(4));
        }
        out.append("\n");
        proof {
            lemma_unlines_push(all.take(4), all[4]);
        }
        out
    }
}

} // verus!
