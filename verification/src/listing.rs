//! Writing catalogs: the listing of plugins, and what reading it back gives.
//!
//! A plugin is written as a block of five lines: its header, its three
//! fields, and an empty line. A declaration is well declared where such a
//! block can hold it as it is; what a catalog text declares always is.

use vstd::prelude::*;
use vstd::string::*;

use crate::catalog::{
    apply_field, fresh, header_name, is_header, keyword_type, parse_catalog, parse_lines,
};
use crate::plugin::{
    block_lines, block_text, bool_keyword, field_line, header_line, kind_keyword, PluginType,
    PluginView,
};
use crate::text::{
    all_plain, find, lemma_find, lemma_find_is, lemma_line_plain, lemma_lines_free,
    lemma_lines_unlines, lemma_part_free, lemma_plain_word, lemma_trim, lemma_trim_trimmed,
    lemma_unlines_add, lines, sides, trimmed, unlines,
};

verus! {

/// The catalog blocks of `plugins`, one after the other.
pub open spec fn listing(plugins: Seq<PluginView>) -> Seq<char>
    decreases plugins.len(),
{
    if plugins.len() == 0 {
        Seq::empty()
    } else {
        listing(plugins.drop_last()) + block_text(plugins.last())
    }
}

/// A declaration that a catalog block can hold as it is: its name and its
/// location are without line feed, and its location is trimmed.
pub open spec fn well_declared(plugin: PluginView) -> bool {
    &&& !plugin.name.contains('\n')
    &&& !plugin.location.contains('\n')
    &&& trimmed(plugin.location)
}

/// Every one of `plugins` is well declared.
pub open spec fn all_declared(plugins: Seq<PluginView>) -> bool {
    forall|i: int| 0 <= i < plugins.len() ==> well_declared(#[trigger] plugins[i])
}

/// The lines of the catalog blocks of `plugins`, one block after the other.
pub open spec fn listing_lines(plugins: Seq<PluginView>) -> Seq<Seq<char>>
    decreases plugins.len(),
{
    if plugins.len() == 0 {
        Seq::empty()
    } else {
        listing_lines(plugins.drop_last()) + block_lines(plugins.last())
    }
}

/// A word that can stand as the key of a field line: not empty, trimmed,
/// without `=`, without line feed, and not opening a header.
pub open spec fn is_key(word: Seq<char>) -> bool {
    &&& word.len() > 0
    &&& trimmed(word)
    &&& !word.contains('=')
    &&& !word.contains('\n')
    &&& word[0] != '['
}

/// The two sides of a field line are its key and its value.
pub proof fn lemma_field_sides(key: Seq<char>, value: Seq<char>)
    requires
        is_key(key),
        trimmed(value),
    ensures
        sides(field_line(key, value), '=') == Some((key, value)),
        !is_header(field_line(key, value)),
{
    let line = field_line(key, value);
    lemma_find_is(line, '=', key.len() as int);
    lemma_trim_trimmed(key);
    lemma_trim_trimmed(value);
}

/// What the words of the catalog format hold.
pub proof fn lemma_words()
    ensures
        is_key("enabled"@),
        is_key("type"@),
        is_key("location"@),
        "enabled"@ != "type"@,
        "enabled"@ != "location"@,
        "type"@ != "location"@,
        forall|b: bool| trimmed(#[trigger] bool_keyword(b)) && !bool_keyword(b).contains('\n'),
        forall|b: bool| (#[trigger] bool_keyword(b) == "true"@) == b,
        forall|t: PluginType|
            trimmed(#[trigger] kind_keyword(t)) && !kind_keyword(t).contains('\n'),
        forall|t: PluginType| keyword_type(#[trigger] kind_keyword(t)) == Some(t),
{
    reveal_strlit("enabled");
    reveal_strlit("type");
    reveal_strlit("location");
    reveal_strlit("true");
    reveal_strlit("false");
    reveal_strlit("repo");
    reveal_strlit("local");
    reveal_strlit("collection");
    lemma_plain_word("enabled"@);
    lemma_plain_word("type"@);
    lemma_plain_word("location"@);
    lemma_plain_word("true"@);
    lemma_plain_word("false"@);
    lemma_plain_word("repo"@);
    lemma_plain_word("local"@);
    lemma_plain_word("collection"@);
}

/// A header line opens a block and gives the name that it was written for.
pub proof fn lemma_header_line(name: Seq<char>)
    ensures
        is_header(header_line(name)),
        header_name(header_line(name)) == name,
{
}

/// The declarations of lines with one more line: a header opens a new
/// declaration; another line is read into the last declaration, where there
/// is one.
pub proof fn lemma_parse_push(lines: Seq<Seq<char>>, line: Seq<char>)
    ensures
        parse_lines(lines.push(line)) == if is_header(line) {
            parse_lines(lines).push(fresh(header_name(line)))
        } else if parse_lines(lines).len() == 0 {
            parse_lines(lines)
        } else {
            parse_lines(lines).update(
                parse_lines(lines).len() - 1,
                apply_field(parse_lines(lines).last(), line),
            )
        },
{
    assert(lines.push(line).drop_last() =~= lines);
}

/// An empty line changes no declaration.
pub proof fn lemma_parse_empty_line(lines: Seq<Seq<char>>)
    ensures
        parse_lines(lines.push(Seq::empty())) == parse_lines(lines),
{
    lemma_parse_push(lines, Seq::empty());
}

/// The lines of a block are plain, and declare what the block was written
/// for.
pub proof fn lemma_parse_block(plugin: PluginView)
    requires
        well_declared(plugin),
    ensures
        all_plain(block_lines(plugin)),
        is_header(block_lines(plugin)[0]),
        parse_lines(block_lines(plugin)) == seq![plugin],
{
    lemma_words();
    let all = block_lines(plugin);
    lemma_header_line(plugin.name);
    lemma_field_sides("enabled"@, bool_keyword(plugin.enabled));
    lemma_field_sides("type"@, kind_keyword(plugin.plugin_type));
    lemma_field_sides("location"@, plugin.location);
    let none = Seq::<Seq<char>>::empty();
    lemma_parse_push(none, all[0]);
    lemma_parse_push(none.push(all[0]), all[1]);
    lemma_parse_push(none.push(all[0]).push(all[1]), all[2]);
    lemma_parse_push(none.push(all[0]).push(all[1]).push(all[2]), all[3]);
    lemma_parse_empty_line(none.push(all[0]).push(all[1]).push(all[2]).push(all[3]));
    assert(none.push(all[0]).push(all[1]).push(all[2]).push(all[3]).push(all[4]) =~= all);
    lemma_line_plain(seq!['['], plugin.name, seq![']']);
    lemma_line_plain("enabled"@, seq!['='], bool_keyword(plugin.enabled));
    lemma_line_plain("type"@, seq!['='], kind_keyword(plugin.plugin_type));
    lemma_line_plain("location"@, seq!['='], plugin.location);
}

/// Lines that begin with a header declare something.
pub proof fn lemma_parse_headed(lines: Seq<Seq<char>>)
    requires
        lines.len() > 0,
        is_header(lines[0]),
    ensures
        parse_lines(lines).len() > 0,
    decreases lines.len(),
{
    if lines.len() > 1 {
        lemma_parse_headed(lines.drop_last());
    }
}

/// Lines followed by lines that begin with a header declare what the former
/// declare, followed by what the latter declare.
pub proof fn lemma_parse_add(first: Seq<Seq<char>>, second: Seq<Seq<char>>)
    requires
        second.len() > 0 ==> is_header(second[0]),
    ensures
        parse_lines(first + second) == parse_lines(first) + parse_lines(second),
    decreases second.len(),
{
    if second.len() > 0 {
        let front = second.drop_last();
        lemma_parse_add(first, front);
        assert((first + second).drop_last() =~= first + front);
        if front.len() > 0 {
            lemma_parse_headed(front);
        }
    }
}

/// The lines of the blocks of well declared plugins are plain, and declare
/// these plugins.
pub proof fn lemma_parse_listing(plugins: Seq<PluginView>)
    requires
        all_declared(plugins),
    ensures
        all_plain(listing_lines(plugins)),
        listing(plugins) == unlines(listing_lines(plugins)),
        parse_lines(listing_lines(plugins)) == plugins,
    decreases plugins.len(),
{
    if plugins.len() > 0 {
        let front = plugins.drop_last();
        lemma_parse_listing(front);
        lemma_parse_block(plugins.last());
        lemma_parse_add(listing_lines(front), block_lines(plugins.last()));
        lemma_unlines_add(listing_lines(front), block_lines(plugins.last()));
    }
}

/// What is written is read back: the listing of well declared plugins
/// declares exactly these plugins, in their order.
pub proof fn law_listing_round_trip(plugins: Seq<PluginView>)
    requires
        all_declared(plugins),
    ensures
        parse_catalog(listing(plugins)) == plugins,
{
    lemma_parse_listing(plugins);
    lemma_lines_unlines(listing_lines(plugins));
    lemma_parse_empty_line(listing_lines(plugins));
}

/// A line without line feed leaves a well declared declaration well
/// declared.
pub proof fn lemma_apply_field_declared(plugin: PluginView, line: Seq<char>)
    requires
        well_declared(plugin),
        !line.contains('\n'),
    ensures
        well_declared(apply_field(plugin, line)),
{
    let at = find(line, '=') as int;
    lemma_find(line, '=');
    if at < line.len() {
        let right = line.skip(at + 1);
        lemma_part_free(line, right, at + 1);
        lemma_trim(right);
    }
}

/// The declarations of lines without line feed are well declared.
pub proof fn lemma_parse_declared(all: Seq<Seq<char>>)
    requires
        forall|i: int| 0 <= i < all.len() ==> !(#[trigger] all[i]).contains('\n'),
    ensures
        all_declared(parse_lines(all)),
    decreases all.len(),
{
    if all.len() > 0 {
        let front = all.drop_last();
        lemma_parse_declared(front);
        let before = parse_lines(front);
        let line = all.last();
        if is_header(line) {
            let body = line.drop_first();
            lemma_part_free(line, body, 1);
            let name = header_name(line);
            assert(name =~= body.subrange(0, name.len() as int));
            lemma_part_free(body, name, 0);
        } else if before.len() > 0 {
            lemma_apply_field_declared(before.last(), line);
        }
    }
}

/// What a catalog text declares is well declared.
pub proof fn law_parse_declared(text: Seq<char>)
    ensures
        all_declared(parse_catalog(text)),
{
    assert forall|i: int| 0 <= i < lines(text).len() implies !(#[trigger] lines(text)[i]).contains(
        '\n',
    ) by {
        lemma_lines_free(text, i);
    }
    lemma_parse_declared(lines(text));
}

} // verus!
