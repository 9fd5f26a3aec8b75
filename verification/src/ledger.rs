//! The install ledger: the names of the plugins that are installed, in the
//! order in which they were installed.
//!
//! The ledger is kept as a text with one name on each line. Reading it takes
//! every line that is not empty; recording a name adds it as a line at the end;
//! removing a name takes the first line away that holds it and keeps the others
//! in their order.

use vstd::prelude::*;
use vstd::string::*;

use crate::text::{
    all_plain, chars_of, is_plain, lemma_lines_single, lemma_lines_unlines, line_spans, lines,
    piece, same_text, span_texts, spans_within, texts, unlines,
};

verus! {

/// The members of `all` that are not empty, in their order.
pub open spec fn non_empty(all: Seq<Seq<char>>) -> Seq<Seq<char>>
    decreases all.len(),
{
    if all.len() == 0 {
        all
    } else if all.last().len() == 0 {
        non_empty(all.drop_last())
    } else {
        non_empty(all.drop_last()).push(all.last())
    }
}

/// The names that a ledger text holds: its lines that are not empty.
pub open spec fn entries_of(text: Seq<char>) -> Seq<Seq<char>> {
    non_empty(lines(text))
}

/// A name that fills exactly one line of a ledger: not empty, without line
/// feed, and without carriage return at its end.
pub open spec fn is_line(name: Seq<char>) -> bool {
    name.len() > 0 && is_plain(name)
}

/// Every name fills one line.
pub open spec fn all_lines(names: Seq<Seq<char>>) -> bool {
    forall|i: int| 0 <= i < names.len() ==> is_line(#[trigger] names[i])
}

/// `names` without the first of them that equals `name`.
pub open spec fn without_first(names: Seq<Seq<char>>, name: Seq<char>) -> Seq<Seq<char>>
    decreases names.len(),
{
    if names.len() == 0 {
        names
    } else if names[0] == name {
        names.drop_first()
    } else {
        seq![names[0]] + without_first(names.drop_first(), name)
    }
}

/// The text that holds `names`, one on each line.
pub open spec fn ledger_text(names: Seq<Seq<char>>) -> Seq<char> {
    unlines(names)
}

/// A name that fills one line is, as a text, the ledger of that one name.
pub proof fn lemma_entries_of_line(name: Seq<char>)
    requires
        is_line(name),
    ensures
        entries_of(name) == seq![name],
{
    lemma_lines_single(name);
    let all = seq![name];
    assert(non_empty(all.drop_last()) =~= Seq::<Seq<char>>::empty());
}

/// Taking away the first name at `at`, before which none equals `name`, is
/// removing what stands at `at`; where no name equals `name`, nothing changes.
pub proof fn lemma_without_first(names: Seq<Seq<char>>, name: Seq<char>, at: int)
    requires
        0 <= at <= names.len(),
        forall|j: int| 0 <= j < at ==> names[j] != name,
        at < names.len() ==> names[at] == name,
    ensures
        at < names.len() ==> without_first(names, name) == names.remove(at),
        at == names.len() ==> without_first(names, name) == names,
    decreases names.len(),
{
    if names.len() > 0 && at > 0 {
        lemma_without_first(names.drop_first(), name, at - 1);
    }
}

/// Of lines none of which is empty, followed by empty ones, those that are
/// not empty are the former.
pub proof fn lemma_non_empty(names: Seq<Seq<char>>)
    requires
        forall|i: int| 0 <= i < names.len() ==> (#[trigger] names[i]).len() > 0,
    ensures
        non_empty(names) == names,
        non_empty(names.push(Seq::empty())) == names,
    decreases names.len(),
{
    if names.len() > 0 {
        lemma_non_empty(names.drop_last());
    }
    assert(names.push(Seq::empty()).drop_last() =~= names);
}

/// What is written is read back: the text of names that each fill one line
/// holds exactly these names, in their order.
pub proof fn law_text_round_trip(names: Seq<Seq<char>>)
    requires
        all_lines(names),
    ensures
        entries_of(ledger_text(names)) == names,
{
    assert(all_plain(names));
    assert forall|i: int| 0 <= i < names.len() implies (#[trigger] names[i]).len() > 0 by {}
    lemma_lines_unlines(names);
    lemma_non_empty(names);
}

/// The names of the installed plugins, oldest first.
#[derive(Debug)]
pub struct Ledger {
    entries: Vec<String>,
}

impl View for Ledger {
    type V = Seq<Seq<char>>;

    closed spec fn view(&self) -> Seq<Seq<char>> {
        texts(self.entries@)
    }
}

impl Ledger {
    /// The ledger without any name.
    pub fn new() -> (ledger: Ledger)
        ensures
            ledger@ == Seq::<Seq<char>>::empty(),
    {
        let entries: Vec<String> = Vec::new();
        Ledger { entries }
    }

    /// Reads a ledger text.
    pub fn from_text(text: &str) -> (ledger: Ledger)
        ensures
            ledger@ == entries_of(text@),
    {
        let mut ledger = Ledger::new();
        ledger.record(text);
        ledger
    }

    /// Adds `name` at the end, as a line of the ledger text. A name that
    /// fills one line is added as it is; see `lemma_entries_of_line`.
    pub fn record(&mut self, name: &str)
        ensures
            final(self)@ == old(self)@ + entries_of(name@),
    {
        let chars = chars_of(name);
        let spans = line_spans(&chars);
        let ghost all = lines(name@);
        let ghost before = texts(self.entries@);
        let mut i: usize = 0;
        while i < spans.len()
            invariant
                chars@ == name@,
                all == lines(name@),
                span_texts(chars@, spans@) == all,
                spans_within(spans@, chars@.len()),
                0 <= i <= spans.len(),
                texts(self.entries@) == before + non_empty(all.take(i as int)),
            decreases spans.len() - i,
        {
            let (from, to) = spans[i];
            proof {
                assert(all.take(i + 1).drop_last() =~= all.take(i as int));
            }
            if from < to {
                let ghost held = texts(self.entries@);
                self.entries.push(piece(name, from, to));
                proof {
                    assert(texts(self.entries@) =~= held.push(all[i as int]));
                }
            }
            i = i + 1;
        }
        assert(all.take(i as int) =~= all);
    }

    /// The names, oldest first.
    pub fn all(&self) -> (names: Vec<String>)
        ensures
            texts(names@) == self@,
    {
        let mut names: Vec<String> = Vec::new();
        let mut i: usize = 0;
        while i < self.entries.len()
            invariant
                0 <= i <= self.entries.len(),
                texts(names@) =~= texts(self.entries@).take(i as int),
            decreases self.entries.len() - i,
        {
            let ghost held = texts(names@);
            names.push(self.entries[i].clone());
            proof {
                assert(texts(names@) =~= held.push(self.entries[i as int]@));
            }
            i = i + 1;
        }
        names
    }

    /// The number of names.
    pub fn len(&self) -> (n: usize)
        ensures
            n == self@.len(),
    {
        self.entries.len()
    }

    /// The place of the first name that equals `name`, or the number of names.
    fn position(&self, name: &str) -> (at: usize)
        ensures
            at <= self@.len(),
            forall|j: int| 0 <= j < at ==> self@[j] != name@,
            at < self@.len() ==> self@[at as int] == name@,
    {
        let mut i: usize = 0;
        while i < self.entries.len()
            invariant
                0 <= i <= self.entries.len(),
                forall|j: int| 0 <= j < i ==> texts(self.entries@)[j] != name@,
            decreases self.entries.len() - i,
        {
            if same_text(self.entries[i].as_str(), name) {
                return i;
            }
            i = i + 1;
        }
        i
    }

    /// Whether the ledger holds `name`.
    pub fn contains(&self, name: &str) -> (r: bool)
        ensures
            r == self@.contains(name@),
    {
        let at = self.position(name);
        at < self.entries.len()
    }

    /// Takes away the first name that equals `name` and keeps the others in
    /// their order. Says whether the ledger held the name; where it did not,
    /// the ledger is left as it was.
    pub fn remove(&mut self, name: &str) -> (held: bool)
        ensures
            held == old(self)@.contains(name@),
            final(self)@ == without_first(old(self)@, name@),
    {
        let at = self.position(name);
        proof {
            lemma_without_first(texts(self.entries@), name@, at as int);
        }
        if at < self.entries.len() {
            self.entries.remove(at);
            true
        } else {
            false
        }
    }

    /// The ledger text: each name on a line of its own.
    pub fn to_text(&self) -> (text: String)
        ensures
            text@ == ledger_text(self@),
    {
        let mut text = String::new();
        let mut i: usize = 0;
        let ghost all = texts(self.entries@);
        while i < self.entries.len()
            invariant
                0 <= i <= self.entries.len(),
                all == texts(self.entries@),
                text@ == unlines(all.take(i as int)),
            decreases self.entries.len() - i,
        {
            proof {
                reveal_strlit("\n");
                assert(all.take(i + 1).drop_last() =~= all.take(i as int));
            }
            text.append(self.entries[i].as_str());
            text.append("\n");
            i = i + 1;
        }
        assert(all.take(i as int) =~= all);
        text
    }
}

} // verus!
