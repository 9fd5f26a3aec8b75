//! The catalog format: blocks that a `[name]` line opens, each followed by
//! `key = value` lines.
//!
//! ```text
//! [editor]
//! enabled = true
//! type = local
//! location = /srv/plugins/editor
//! ```
//!
//! A block reaches to the next header line or to the end of the text. Lines
//! before the first header, lines without `=` and lines with a key that is not
//! known are passed over.

use vstd::prelude::*;
use vstd::string::*;

use crate::plugin::{views, Plugin, PluginType, PluginView};
use crate::text::{
    chars_of, find_char, line_spans, lines, piece, range_is, span_texts, spans_within, split_once,
    trim, trim_range,
};

verus! {

/// A line that opens a block: its first character is `[`.
pub open spec fn is_header(line: Seq<char>) -> bool {
    line.len() > 0 && line[0] == '['
}

/// The name that a header line gives: the line without the bracket that opens
/// it and, where the line ends in one, without the bracket that closes it.
pub open spec fn header_name(line: Seq<char>) -> Seq<char> {
    let body = line.drop_first();
    if body.len() > 0 && body.last() == ']' {
        body.drop_last()
    } else {
        body
    }
}

/// The declaration that a header alone makes: disabled, of type `Repo`,
/// without location.
pub open spec fn fresh(name: Seq<char>) -> PluginView {
    PluginView { name, enabled: false, plugin_type: PluginType::Repo, location: Seq::empty() }
}

/// The plugin type that a catalog word names.
pub open spec fn keyword_type(word: Seq<char>) -> Option<PluginType> {
    if word == "repo"@ {
        Some(PluginType::Repo)
    } else if word == "local"@ {
        Some(PluginType::Local)
    } else if word == "collection"@ {
        Some(PluginType::Collection)
    } else {
        None
    }
}

/// The declaration after a line of its block has been read.
///
/// The line is split at its first `=`; both sides are trimmed. `enabled` is
/// set by the value `true` and cleared by any other; `type` takes one of the
/// three type words and is left as it was by any other; `location` takes the
/// value as it stands.
pub open spec fn apply_field(plugin: PluginView, line: Seq<char>) -> PluginView {
    match split_once(line, '=') {
        None => plugin,
        Some((left, right)) => {
            let key = trim(left);
            let value = trim(right);
            if key == "enabled"@ {
                PluginView { enabled: value == "true"@, ..plugin }
            } else if key == "type"@ {
                match keyword_type(value) {
                    Some(plugin_type) => PluginView { plugin_type, ..plugin },
                    None => plugin,
                }
            } else if key == "location"@ {
                PluginView { location: value, ..plugin }
            } else {
                plugin
            }
        },
    }
}

/// The declarations that a sequence of lines makes.
pub open spec fn parse_lines(lines: Seq<Seq<char>>) -> Seq<PluginView>
    decreases lines.len(),
{
    if lines.len() == 0 {
        Seq::empty()
    } else {
        let before = parse_lines(lines.drop_last());
        let line = lines.last();
        if is_header(line) {
            before.push(fresh(header_name(line)))
        } else if before.len() == 0 {
            before
        } else {
            before.update(before.len() - 1, apply_field(before.last(), line))
        }
    }
}

/// The declarations of a catalog text, in the order of their headers.
pub open spec fn parse_catalog(text: Seq<char>) -> Seq<PluginView> {
    parse_lines(lines(text))
}

/// The plugin type that the range `from..to` of `chars` names.
fn read_type(chars: &Vec<char>, from: usize, to: usize) -> (r: Option<PluginType>)
    requires
        from <= to <= chars.len(),
    ensures
        r == keyword_type(chars@.subrange(from as int, to as int)),
{
    if range_is(chars, from, to, "repo") {
        Some(PluginType::Repo)
    } else if range_is(chars, from, to, "local") {
        Some(PluginType::Local)
    } else if range_is(chars, from, to, "collection") {
        Some(PluginType::Collection)
    } else {
        None
    }
}

/// The range of the name in the header line `from..to` of `chars`.
fn name_range(chars: &Vec<char>, from: usize, to: usize) -> (r: (usize, usize))
    requires
        from < to <= chars.len(),
    ensures
        from <= r.0 <= r.1 <= to,
        chars@.subrange(r.0 as int, r.1 as int) == header_name(
            chars@.subrange(from as int, to as int),
        ),
{
    let start = from + 1;
    let end = if start < to && chars[to - 1] == ']' {
        to - 1
    } else {
        to
    };
    (start, end)
}

/// Reads a catalog text into its declarations, in the order of their headers.
pub fn parse(text: &str) -> (plugins: Vec<Plugin>)
    ensures
        views(plugins@) == parse_catalog(text@),
{
    let chars = chars_of(text);
    let spans = line_spans(&chars);
    let mut plugins: Vec<Plugin> = Vec::new();
    let mut open = false;
    let mut name = String::new();
    let mut enabled = false;
    let mut plugin_type = PluginType::Repo;
    let mut location = String::new();
    let ghost all = lines(text@);
    let mut i: usize = 0;
    while i < spans.len()
        invariant
            chars@ == text@,
            all == lines(text@),
            span_texts(chars@, spans@) == all,
            spans_within(spans@, chars@.len()),
            0 <= i <= spans.len(),
            !open ==> parse_lines(all.take(i as int)) == views(plugins@),
            !open ==> plugins.len() == 0,
            open ==> parse_lines(all.take(i as int)) == views(plugins@).push(
                PluginView { name: name@, enabled, plugin_type, location: location@ },
            ),
        decreases spans.len() - i,
    {
        let (from, to) = spans[i];
        let ghost line = chars@.subrange(from as int, to as int);
        assert(all.take(i + 1).drop_last() =~= all.take(i as int));
        if from < to && chars[from] == '[' {
            if open {
                plugins.push(Plugin::new(name, enabled, plugin_type, location));
            }
            let (start, end) = name_range(&chars, from, to);
            name = piece(text, start, end);
            enabled = false;
            plugin_type = PluginType::Repo;
            location = String::new();
            open = true;
        } else if open {
            let at = find_char(&chars, from, to, '=');
            if at < to {
                let (key_from, key_to) = trim_range(&chars, from, at);
                let (value_from, value_to) = trim_range(&chars, at + 1, to);
                proof {
                    assert(line.take(at - from) =~= chars@.subrange(from as int, at as int));
                    assert(line.skip(at - from + 1) =~= chars@.subrange(at + 1, to as int));
                }
                if range_is(&chars, key_from, key_to, "enabled") {
                    enabled = range_is(&chars, value_from, value_to, "true");
                } else if range_is(&chars, key_from, key_to, "type") {
                    match read_type(&chars, value_from, value_to) {
                        Some(named) => {
                            plugin_type = named;
                        },
                        None => {},
                    }
                } else if range_is(&chars, key_from, key_to, "location") {
                    location = piece(text, value_from, value_to);
                }
            }
        }
        i = i + 1;
    }
    assert(all.take(i as int) =~= all);
    if open {
        plugins.push(Plugin::new(name, enabled, plugin_type, location));
    }
    plugins
}

} // verus!
