//! The configuration format: lines of the form `key: value` that name the
//! places in which the manager keeps its files.
//!
//! A line is split at its first colon. The key is what stands before it, the
//! value what stands between it and the next colon or the end of the line,
//! both without surrounding whitespace. Lines without colon and lines with a
//! key that is not known are passed over.

use vstd::prelude::*;
use vstd::string::*;

use crate::text::{
    chars_of, find, find_char, line_spans, lines, piece, range_is, span_texts, spans_within,
    split_once, trim, trim_range,
};

verus! {

/// The places that a configuration can name.
#[derive(Debug, PartialEq, Eq, Clone, Copy, Structural)]
pub enum ConfigKey {
    /// The ledger of installed plugins.
    InstalledCache,
    /// The first catalog.
    OfficialRepo,
    /// The folder of further catalogs.
    RepoFolder,
    /// The folder into which plugins are installed.
    PluginFolder,
}

/// What is found under a path.
#[derive(Debug, PartialEq, Eq, Clone, Copy, Structural)]
pub enum PathKind {
    Missing,
    File,
    Directory,
}

/// One line of a configuration that names a known place.
#[derive(Debug)]
pub struct ConfigEntry {
    pub key: ConfigKey,
    pub value: String,
}

/// What a configuration entry says.
pub struct EntryView {
    pub key: ConfigKey,
    pub value: Seq<char>,
}

impl View for ConfigEntry {
    type V = EntryView;

    open spec fn view(&self) -> EntryView {
        EntryView { key: self.key, value: self.value@ }
    }
}

/// What each of a list of entries says.
pub open spec fn entry_views(entries: Seq<ConfigEntry>) -> Seq<EntryView> {
    entries.map_values(|e: ConfigEntry| e@)
}

/// The place that a configuration word names.
pub open spec fn key_of(word: Seq<char>) -> Option<ConfigKey> {
    if word == "installed_cache_location"@ {
        Some(ConfigKey::InstalledCache)
    } else if word == "official_repo_location"@ {
        Some(ConfigKey::OfficialRepo)
    } else if word == "repo_folder_location"@ {
        Some(ConfigKey::RepoFolder)
    } else if word == "plugin_folder_location"@ {
        Some(ConfigKey::PluginFolder)
    } else {
        None
    }
}

/// What must be found under the path that is given for a place: a file for
/// the ledger and the first catalog, a directory for the two folders.
pub open spec fn wanted(key: ConfigKey) -> PathKind {
    match key {
        ConfigKey::InstalledCache => PathKind::File,
        ConfigKey::OfficialRepo => PathKind::File,
        ConfigKey::RepoFolder => PathKind::Directory,
        ConfigKey::PluginFolder => PathKind::Directory,
    }
}

/// The value in what follows the first colon of a line: what stands before
/// the next colon, without surrounding whitespace.
pub open spec fn value_of(rest: Seq<char>) -> Seq<char> {
    trim(rest.take(find(rest, ':') as int))
}

/// The entry that a line makes.
pub open spec fn entry_of(line: Seq<char>) -> Option<EntryView> {
    match split_once(line, ':') {
        None => None,
        Some((left, right)) => match key_of(trim(left)) {
            None => None,
            Some(key) => Some(EntryView { key, value: value_of(right) }),
        },
    }
}

/// The entries that a sequence of lines makes, in their order.
pub open spec fn entries_of_lines(lines: Seq<Seq<char>>) -> Seq<EntryView>
    decreases lines.len(),
{
    if lines.len() == 0 {
        Seq::empty()
    } else {
        match entry_of(lines.last()) {
            None => entries_of_lines(lines.drop_last()),
            Some(entry) => entries_of_lines(lines.drop_last()).push(entry),
        }
    }
}

/// The entries of a configuration text.
pub open spec fn config_entries(text: Seq<char>) -> Seq<EntryView> {
    entries_of_lines(lines(text))
}

impl ConfigKey {
    /// What must be found under the path that is given for the place.
    pub fn wanted(&self) -> (kind: PathKind)
        ensures
            kind == wanted(*self),
    {
        match self {
            ConfigKey::InstalledCache => PathKind::File,
            ConfigKey::OfficialRepo => PathKind::File,
            ConfigKey::RepoFolder => PathKind::Directory,
            ConfigKey::PluginFolder => PathKind::Directory,
        }
    }
}

/// The place that the range `from..to` of `chars` names.
fn read_key(chars: &Vec<char>, from: usize, to: usize) -> (r: Option<ConfigKey>)
    requires
        from <= to <= chars.len(),
    ensures
        r == key_of(chars@.subrange(from as int, to as int)),
{
    if range_is(chars, from, to, "installed_cache_location") {
        Some(ConfigKey::InstalledCache)
    } else if range_is(chars, from, to, "official_repo_location") {
        Some(ConfigKey::OfficialRepo)
    } else if range_is(chars, from, to, "repo_folder_location") {
        Some(ConfigKey::RepoFolder)
    } else if range_is(chars, from, to, "plugin_folder_location") {
        Some(ConfigKey::PluginFolder)
    } else {
        None
    }
}

/// Reads a configuration text into its entries, in the order of their lines.
pub fn parse_config(text: &str) -> (entries: Vec<ConfigEntry>)
    ensures
        entry_views(entries@) == config_entries(text@),
{
    let chars = chars_of(text);
    let spans = line_spans(&chars);
    let mut entries: Vec<ConfigEntry> = Vec::new();
    let ghost all = lines(text@);
    let mut i: usize = 0;
    while i < spans.len()
        invariant
            chars@ == text@,
            all == lines(text@),
            span_texts(chars@, spans@) == all,
            spans_within(spans@, chars@.len()),
            0 <= i <= spans.len(),
            entry_views(entries@) == entries_of_lines(all.take(i as int)),
        decreases spans.len() - i,
    {
        let (from, to) = spans[i];
        let ghost line = chars@.subrange(from as int, to as int);
        assert(all.take(i + 1).drop_last() =~= all.take(i as int));
        let at = find_char(&chars, from, to, ':');
        if at < to {
            let (key_from, key_to) = trim_range(&chars, from, at);
            proof {
                assert(line.take(at - from) =~= chars@.subrange(from as int, at as int));
                assert(line.skip(at - from + 1) =~= chars@.subrange(at + 1, to as int));
            }
            match read_key(&chars, key_from, key_to) {
                None => {},
                Some(key) => {
                    let next = find_char(&chars, at + 1, to, ':');
                    let (value_from, value_to) = trim_range(&chars, at + 1, next);
                    let ghost rest = chars@.subrange(at + 1, to as int);
                    assert(rest.take(next - (at + 1)) =~= chars@.subrange(at + 1, next as int));
                    let value = piece(text, value_from, value_to);
                    entries.push(ConfigEntry { key, value });
                },
            }
        }
        i = i + 1;
    }
    assert(all.take(i as int) =~= all);
    entries
}

} // verus!
