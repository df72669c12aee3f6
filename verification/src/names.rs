//! The names that the helper gives to workspaces, and the text they are kept in.
//!
//! The compositor knows a pinned workspace by a stable id. The name for it is kept in the
//! helper's own map, one `name<TAB>id` per line.

use crate::search;
use crate::text;
use vstd::prelude::*;

verus! {

/// A name and the id of the workspace it stands for.
pub type Entry = (Seq<char>, Seq<char>);

/// The persistent map from names to workspace ids.
pub struct NameMap {
    pub entries: Vec<(String, String)>,
}

impl View for NameMap {
    type V = Seq<Entry>;

    open spec fn view(&self) -> Seq<Entry> {
        self.entries@.map_values(|e: (String, String)| (e.0@, e.1@))
    }
}

/// What one line records: what stands before its first tab, and the rest without the white
/// space round it. A line without a tab records nothing.
pub open spec fn line_entry(line: Seq<char>) -> Option<Entry> {
    let i = text::position(line, '\t');
    if i < line.len() {
        Some((line.take(i), text::trim(line.skip(i + 1))))
    } else {
        None
    }
}

/// What a list of lines records, in the order of the lines.
pub open spec fn lines_entries(lines: Seq<Seq<char>>) -> Seq<Entry>
    decreases lines.len(),
{
    if lines.len() == 0 {
        seq![]
    } else {
        let before = lines_entries(lines.drop_last());
        match line_entry(lines.last()) {
            Some(e) => before.push(e),
            None => before,
        }
    }
}

/// What a text records.
pub open spec fn parsed(text: Seq<char>) -> Seq<Entry> {
    lines_entries(text::split(text, '\n'))
}

/// The line that records an entry.
pub open spec fn entry_line(e: Entry) -> Seq<char> {
    e.0 + seq!['\t'] + e.1 + seq!['\n']
}

/// The text that records a list of entries.
pub open spec fn rendered(entries: Seq<Entry>) -> Seq<char>
    decreases entries.len(),
{
    if entries.len() == 0 {
        seq![]
    } else {
        rendered(entries.drop_last()) + entry_line(entries.last())
    }
}

/// Whether an entry has the name, up to case.
pub open spec fn named(name: Seq<char>) -> spec_fn(Entry) -> bool {
    |e: Entry| text::same_letters(e.0, name)
}

/// Whether an entry has the id.
pub open spec fn identified(id: Seq<char>) -> spec_fn(Entry) -> bool {
    |e: Entry| e.1 == id
}

/// The id that a name stands for.
pub open spec fn id_of(entries: Seq<Entry>, name: Seq<char>) -> Option<Seq<char>> {
    match search::first(entries, named(name)) {
        Some(e) => Some(e.1),
        None => None,
    }
}

/// The name that stands for an id; an empty id has none.
pub open spec fn name_of(entries: Seq<Entry>, id: Seq<char>) -> Option<Seq<char>> {
    match search::first(entries, identified(id)) {
        Some(e) => if id.len() > 0 {
            Some(e.0)
        } else {
            None
        },
        None => None,
    }
}

/// Whether an entry has neither the name, up to case, nor the id.
pub open spec fn apart(name: Seq<char>, id: Seq<char>) -> spec_fn(Entry) -> bool {
    |e: Entry| !text::same_letters(e.0, name) && e.1 != id
}

/// Whether an entry does not have the name, up to case.
pub open spec fn not_named(name: Seq<char>) -> spec_fn(Entry) -> bool {
    |e: Entry| !text::same_letters(e.0, name)
}

/// The entries after `name` has been given to `id`.
pub open spec fn with_entry(entries: Seq<Entry>, name: Seq<char>, id: Seq<char>) -> Seq<Entry> {
    entries.filter(apart(name, id)).push((name, id))
}

/// The entries that do not have the name, up to case.
pub open spec fn without_name(entries: Seq<Entry>, name: Seq<char>) -> Seq<Entry> {
    entries.filter(not_named(name))
}

impl NameMap {
    /// Reads the map out of the text of its file.
    pub fn load(text: &str) -> (r: NameMap)
        ensures
            r@ == parsed(text@),
    {
        let lines = text::split_at_char(text, '\n');
        let ghost all = text::views(lines@);
        let mut entries: Vec<(String, String)> = Vec::new();
        let mut i: usize = 0;
        let mut map = NameMap { entries };
        assert(map@ =~= lines_entries(all.take(0)));
        while i < lines.len()
            invariant
                i <= lines@.len(),
                all == text::views(lines@),
                map@ == lines_entries(all.take(i as int)),
            decreases lines@.len() - i,
        {
            let ghost before = map@;
            let line = text::chars_of(&lines[i]);
            let at = text::find_char(&line, 0, '\t');
            assert(line@.skip(0) =~= line@);
            assert(all.take(i + 1).drop_last() =~= all.take(i as int));
            assert(all.take(i + 1).last() == line@);
            if at < line.len() {
                let name = text::string_of(&line, 0, at);
                let rest = text::string_of(&line, at + 1, line.len());
                let id = text::trimmed(&rest);
                assert(name@ =~= line@.take(at as int));
                assert(rest@ =~= line@.skip(at + 1));
                map.entries.push((name, id));
                assert(map@ =~= before.push((name@, id@)));
            }
            i += 1;
        }
        assert(all.take(i as int) =~= all);
        map
    }

    /// The text that records the map.
    pub fn save(&self) -> (r: String)
        ensures
            r@ == rendered(self@),
    {
        let mut body = String::new();
        let mut i: usize = 0;
        assert(self@.take(0) =~= Seq::<Entry>::empty());
        while i < self.entries.len()
            invariant
                i <= self.entries@.len(),
                body@ == rendered(self@.take(i as int)),
            decreases self.entries@.len() - i,
        {
            assert(self@.take(i + 1).drop_last() =~= self@.take(i as int));
            let ghost before = body@;
            body.append(&self.entries[i].0);
            body.push('\t');
            body.append(&self.entries[i].1);
            body.push('\n');
            assert(body@ =~= before + entry_line(self@[i as int]));
            i += 1;
        }
        assert(self@.take(i as int) =~= self@);
        body
    }

    /// The id that a name stands for.
    pub fn id_for(&self, name: &str) -> (r: Option<String>)
        ensures
            r matches Some(id) ==> id_of(self@, name@) == Some(id@),
            r is None ==> id_of(self@, name@) is None,
    {
        let mut i: usize = 0;
        while i < self.entries.len()
            invariant
                i <= self.entries@.len(),
                forall|j: int| 0 <= j < i ==> !text::same_letters((#[trigger] self@[j]).0, name@),
            decreases self.entries@.len() - i,
        {
            if text::eq_ignore_ascii_case(&self.entries[i].0, name) {
                proof {
                    search::lemma_first_index_is(self@, named(name@), i as int);
                }
                return Some(self.entries[i].1.clone());
            }
            i += 1;
        }
        proof {
            search::lemma_first_index_is(self@, named(name@), i as int);
        }
        None
    }

    /// The name that stands for an id; an empty id has none.
    pub fn name_for(&self, id: &str) -> (r: Option<String>)
        ensures
            r matches Some(name) ==> name_of(self@, id@) == Some(name@),
            r is None ==> name_of(self@, id@) is None,
    {
        if id.is_empty() {
            return None;
        }
        let mut i: usize = 0;
        while i < self.entries.len()
            invariant
                i <= self.entries@.len(),
                id@.len() > 0,
                forall|j: int| 0 <= j < i ==> (#[trigger] self@[j]).1 != id@,
            decreases self.entries@.len() - i,
        {
            if text::same(&self.entries[i].1, id) {
                proof {
                    search::lemma_first_index_is(self@, identified(id@), i as int);
                }
                return Some(self.entries[i].0.clone());
            }
            i += 1;
        }
        proof {
            search::lemma_first_index_is(self@, identified(id@), i as int);
        }
        None
    }

    /// Gives `name` to the workspace `id`: whatever had the name or the id loses it.
    pub fn set(&mut self, name: &str, id: &str)
        ensures
            final(self)@ == with_entry(old(self)@, name@, id@),
    {
        let ghost keep = apart(name@, id@);
        let ghost all = self@;
        let mut kept = NameMap { entries: Vec::new() };
        let mut i: usize = 0;
        proof {
            reveal(Seq::filter);
        }
        assert(all.take(0).filter(keep) =~= kept@);
        while i < self.entries.len()
            invariant
                i <= self.entries@.len(),
                all == self@,
                keep == apart(name@, id@),
                kept@ == all.take(i as int).filter(keep),
            decreases self.entries@.len() - i,
        {
            let ghost before = kept@;
            proof {
                reveal(Seq::filter);
            }
            assert(all.take(i + 1).drop_last() =~= all.take(i as int));
            assert(all.take(i + 1).last() == all[i as int]);
            if !text::eq_ignore_ascii_case(&self.entries[i].0, name) && !text::same(&self.entries[i].1, id) {
                kept.entries.push((self.entries[i].0.clone(), self.entries[i].1.clone()));
                assert(kept@ =~= before.push(all[i as int]));
            }
            i += 1;
        }
        assert(all.take(i as int) =~= all);
        let ghost before = kept@;
        kept.entries.push((name.to_owned(), id.to_owned()));
        assert(kept@ =~= before.push((name@, id@)));
        *self = kept;
    }

    /// Forgets a name.
    pub fn remove(&mut self, name: &str)
        ensures
            final(self)@ == without_name(old(self)@, name@),
    {
        let ghost keep = not_named(name@);
        let ghost all = self@;
        let mut kept = NameMap { entries: Vec::new() };
        let mut i: usize = 0;
        proof {
            reveal(Seq::filter);
        }
        assert(all.take(0).filter(keep) =~= kept@);
        while i < self.entries.len()
            invariant
                i <= self.entries@.len(),
                all == self@,
                keep == not_named(name@),
                kept@ == all.take(i as int).filter(keep),
            decreases self.entries@.len() - i,
        {
            let ghost before = kept@;
            proof {
                reveal(Seq::filter);
            }
            assert(all.take(i + 1).drop_last() =~= all.take(i as int));
            assert(all.take(i + 1).last() == all[i as int]);
            if !text::eq_ignore_ascii_case(&self.entries[i].0, name) {
                kept.entries.push((self.entries[i].0.clone(), self.entries[i].1.clone()));
                assert(kept@ =~= before.push(all[i as int]));
            }
            i += 1;
        }
        assert(all.take(i as int) =~= all);
        *self = kept;
    }
}

/// Whether the text format can hold an entry: its name has no tab and no line break, and its
/// id no line break and no white space at its ends.
pub open spec fn storable(e: Entry) -> bool {
    &&& !e.0.contains('\t')
    &&& !e.0.contains('\n')
    &&& !e.1.contains('\n')
    &&& text::trim(e.1) == e.1
}

/// Whether no two entries share a name, up to case, or an id.
pub open spec fn unique(entries: Seq<Entry>) -> bool {
    forall|i: int, j: int|
        0 <= i < j < entries.len() ==> !text::same_letters((#[trigger] entries[i]).0, (
        #[trigger] entries[j]).0) && entries[i].1 != entries[j].1
}

proof fn lemma_rendered_front(entries: Seq<Entry>)
    requires
        entries.len() > 0,
    ensures
        rendered(entries) == entry_line(entries[0]) + rendered(entries.skip(1)),
    decreases entries.len(),
{
    let rest = entries.skip(1);
    if rest.len() == 0 {
        assert(entries.drop_last() =~= rest);
        assert(rendered(entries) =~= entry_line(entries[0]) + rendered(rest));
    } else {
        lemma_rendered_front(entries.drop_last());
        assert(entries.drop_last().skip(1) =~= rest.drop_last());
        assert(rendered(entries) =~= entry_line(entries[0]) + rendered(rest));
    }
}

proof fn lemma_split_front(line: Seq<char>, rest: Seq<char>)
    requires
        !line.contains('\n'),
    ensures
        text::split(line + seq!['\n'] + rest, '\n') == seq![line] + text::split(rest, '\n'),
{
    let s = line + seq!['\n'] + rest;
    assert forall|j: int| 0 <= j < line.len() implies s[j] != '\n' by {
        assert(line.contains(line[j]));
    }
    text::lemma_position_is(s, '\n', line.len() as int);
    assert(s.take(line.len() as int) =~= line);
    assert(s.skip(line.len() as int + 1) =~= rest);
}

proof fn lemma_lines_front(lines: Seq<Seq<char>>)
    requires
        lines.len() > 0,
    ensures
        lines_entries(lines) == (match line_entry(lines[0]) {
            Some(e) => seq![e],
            None => seq![],
        }) + lines_entries(lines.skip(1)),
    decreases lines.len(),
{
    let rest = lines.skip(1);
    if rest.len() == 0 {
        assert(lines.drop_last() =~= rest);
        assert(lines_entries(rest) =~= seq![]);
    } else {
        lemma_lines_front(lines.drop_last());
        assert(lines.drop_last().skip(1) =~= rest.drop_last());
    }
    assert(lines_entries(lines) =~= (match line_entry(lines[0]) {
        Some(e) => seq![e],
        None => seq![],
    }) + lines_entries(rest));
}

/// Reading what was written gives the entries back, in their order.
pub proof fn law_written_names_are_read_back(entries: Seq<Entry>)
    requires
        forall|i: int| 0 <= i < entries.len() ==> storable(#[trigger] entries[i]),
    ensures
        parsed(rendered(entries)) == entries,
    decreases entries.len(),
{
    if entries.len() == 0 {
        let none = Seq::<char>::empty();
        assert(text::split(none, '\n') =~= seq![none]);
        assert(seq![none].drop_last() =~= seq![]);
        assert(lines_entries(seq![]) =~= seq![]);
        assert(line_entry(none) is None);
        assert(lines_entries(seq![none]) =~= lines_entries(seq![none].drop_last()));
        assert(parsed(none) =~= entries);
    } else {
        let e = entries[0];
        let rest = entries.skip(1);
        let line = e.0 + seq!['\t'] + e.1;
        lemma_rendered_front(entries);
        assert(rendered(entries) =~= line + seq!['\n'] + rendered(rest));
        assert(!line.contains('\n')) by {
            assert forall|j: int| 0 <= j < line.len() implies line[j] != '\n' by {
                if j < e.0.len() {
                    assert(e.0.contains(e.0[j]));
                } else if j > e.0.len() {
                    assert(line[j] == e.1[j - e.0.len() - 1]);
                    assert(e.1.contains(e.1[j - e.0.len() - 1]));
                }
            }
        }
        lemma_split_front(line, rendered(rest));
        let lines = text::split(rendered(entries), '\n');
        assert(lines.skip(1) =~= text::split(rendered(rest), '\n'));
        lemma_lines_front(lines);
        assert forall|j: int| 0 <= j < e.0.len() implies line[j] != '\t' by {
            assert(e.0.contains(e.0[j]));
        }
        text::lemma_position_is(line, '\t', e.0.len() as int);
        assert(line.take(e.0.len() as int) =~= e.0);
        assert(line.skip(e.0.len() as int + 1) =~= e.1);
        assert forall|i: int| 0 <= i < rest.len() implies storable(#[trigger] rest[i]) by {
            assert(rest[i] == entries[i + 1]);
        }
        law_written_names_are_read_back(rest);
        assert(parsed(rendered(entries)) =~= seq![e] + rest);
        assert(seq![e] + rest =~= entries);
    }
}

proof fn lemma_trim_shrinks(s: Seq<char>)
    ensures
        forall|c: char| text::trim(s).contains(c) ==> s.contains(c),
        text::trim(text::trim(s)) == text::trim(s),
{
    text::lemma_trim_start(s);
    text::lemma_trim_end(text::trim_start(s));
    let a = text::trim_start(s);
    let t = text::trim(s);
    if t.len() > 0 {
        assert(t[0] == a[0]);
    }
    assert forall|c: char| t.contains(c) implies s.contains(c) by {
        let i = choose|i: int| 0 <= i < t.len() && t[i] == c;
        assert(a[i] == c);
        assert(s[i + s.len() - a.len()] == c);
    }
}

proof fn lemma_split_pieces(s: Seq<char>, sep: char)
    ensures
        forall|i: int|
            0 <= i < text::split(s, sep).len() ==> !(#[trigger] text::split(s, sep)[i]).contains(
                sep,
            ),
    decreases s.len(),
{
    text::lemma_position(s, sep);
    let p = text::position(s, sep);
    if p < s.len() {
        lemma_split_pieces(s.skip(p + 1), sep);
        let rest = text::split(s.skip(p + 1), sep);
        assert forall|i: int| 0 <= i < text::split(s, sep).len() implies !(#[trigger] text::split(
            s,
            sep,
        )[i]).contains(sep) by {
            if i > 0 {
                assert(text::split(s, sep)[i] == rest[i - 1]);
            }
        }
    }
}

proof fn lemma_lines_storable(lines: Seq<Seq<char>>)
    requires
        forall|i: int| 0 <= i < lines.len() ==> !(#[trigger] lines[i]).contains('\n'),
    ensures
        forall|i: int|
            0 <= i < lines_entries(lines).len() ==> storable(#[trigger] lines_entries(lines)[i]),
    decreases lines.len(),
{
    if lines.len() > 0 {
        lemma_lines_storable(lines.drop_last());
        let line = lines.last();
        let p = text::position(line, '\t');
        text::lemma_position(line, '\t');
        if p < line.len() {
            let rest = line.skip(p + 1);
            lemma_trim_shrinks(rest);
            assert(line_entry(line) == Some((line.take(p), text::trim(rest))));
            assert forall|j: int| 0 <= j < line.len() implies line[j] != '\n' by {
                assert(line.contains(line[j]));
            }
            assert(!rest.contains('\n'));
            assert(storable((line.take(p), text::trim(rest))));
        }
        let before = lines_entries(lines.drop_last());
        assert forall|i: int| 0 <= i < lines_entries(lines).len() implies storable(
            #[trigger] lines_entries(lines)[i],
        ) by {
            if i < before.len() {
                assert(lines_entries(lines)[i] == before[i]);
            }
        }
    }
}

/// Whatever the file holds, the text format can hold what is read out of it.
pub proof fn law_names_read_are_storable(file: Seq<char>)
    ensures
        forall|i: int| 0 <= i < parsed(file).len() ==> storable(#[trigger] parsed(file)[i]),
{
    lemma_split_pieces(file, '\n');
    lemma_lines_storable(text::split(file, '\n'));
}

proof fn lemma_filter_all(entries: Seq<Entry>, keep: spec_fn(Entry) -> bool)
    ensures
        forall|i: int|
            0 <= i < entries.filter(keep).len() ==> keep(#[trigger] entries.filter(keep)[i])
                && entries.contains(entries.filter(keep)[i]),
    decreases entries.len(),
{
    reveal(Seq::filter);
    if entries.len() > 0 {
        lemma_filter_all(entries.drop_last(), keep);
        let kept = entries.drop_last().filter(keep);
        assert forall|i: int| 0 <= i < entries.filter(keep).len() implies keep(
            #[trigger] entries.filter(keep)[i],
        ) && entries.contains(entries.filter(keep)[i]) by {
            if i < kept.len() {
                assert(entries.drop_last().contains(kept[i]));
                let j = choose|j: int|
                    0 <= j < entries.drop_last().len() && entries.drop_last()[j] == kept[i];
                assert(entries[j] == kept[i]);
            } else {
                assert(entries[entries.len() - 1] == entries.last());
            }
        }
    }
}

/// A name that has just been given to an id stands for it, whatever its case, and the id has
/// that name.
pub proof fn law_set_is_found(entries: Seq<Entry>, name: Seq<char>, id: Seq<char>, spelled: Seq<char>)
    requires
        text::same_letters(spelled, name),
    ensures
        id_of(with_entry(entries, name, id), spelled) == Some(id),
        id.len() > 0 ==> name_of(with_entry(entries, name, id), id) == Some(name),
{
    let keep = apart(name, id);
    let after = with_entry(entries, name, id);
    lemma_filter_all(entries, keep);
    assert forall|j: int| 0 <= j < after.len() - 1 implies !text::same_letters(
        (#[trigger] after[j]).0,
        spelled,
    ) && after[j].1 != id by {
        assert(keep(entries.filter(keep)[j]));
    }
    search::lemma_first_index_is(after, named(spelled), after.len() - 1);
    search::lemma_first_index_is(after, identified(id), after.len() - 1);
}

proof fn lemma_kept_lookup(entries: Seq<Entry>, keep: spec_fn(Entry) -> bool, other: Seq<char>)
    requires
        ({
            let i = search::first_index(entries, named(other));
            i < entries.len() ==> keep(entries[i])
        }),
    ensures
        id_of(entries.filter(keep), other) == id_of(entries, other),
    decreases entries.len(),
{
    reveal(Seq::filter);
    search::lemma_first_index(entries, named(other));
    let i = search::first_index(entries, named(other));
    if entries.len() > 0 {
        let front = entries.drop_last();
        let kept = front.filter(keep);
        let all = entries.filter(keep);
        search::lemma_first_index(front, named(other));
        if i < front.len() {
            assert(front[i] == entries[i]);
            search::lemma_first_index_is(front, named(other), i);
            lemma_kept_lookup(front, keep, other);
            search::lemma_first_index(kept, named(other));
            let k = search::first_index(kept, named(other));
            assert(k < kept.len());
            assert(all[k] == kept[k]);
            assert forall|j: int| 0 <= j < k implies !text::same_letters(
                (#[trigger] all[j]).0,
                other,
            ) by {
                assert(all[j] == kept[j]);
            }
            search::lemma_first_index_is(all, named(other), k);
        } else {
            assert forall|j: int| 0 <= j < front.len() implies !text::same_letters(
                (#[trigger] front[j]).0,
                other,
            ) by {
                assert(front[j] == entries[j]);
            }
            search::lemma_first_index_is(front, named(other), front.len() as int);
            lemma_filter_all(front, keep);
            assert forall|j: int| 0 <= j < kept.len() implies !text::same_letters(
                (#[trigger] kept[j]).0,
                other,
            ) by {
                assert(front.contains(kept[j]));
                let m = choose|m: int| 0 <= m < front.len() && front[m] == kept[j];
                assert(!text::same_letters(front[m].0, other));
            }
            assert forall|j: int| 0 <= j < kept.len() implies !text::same_letters(
                (#[trigger] all[j]).0,
                other,
            ) by {
                assert(all[j] == kept[j]);
            }
            if i < entries.len() {
                assert(all.len() == kept.len() + 1 && all[kept.len() as int] == entries[i]);
                search::lemma_first_index_is(all, named(other), kept.len() as int);
            } else {
                assert forall|j: int| 0 <= j < all.len() implies !text::same_letters(
                    (#[trigger] all[j]).0,
                    other,
                ) by {
                    if j == kept.len() {
                        assert(entries[entries.len() - 1] == all[j]);
                    }
                }
                search::lemma_first_index_is(all, named(other), all.len() as int);
            }
        }
    }
}

/// Giving a name to an id leaves every other name as it was, unless that name stood for the
/// same id.
pub proof fn law_set_keeps_other_names(
    entries: Seq<Entry>,
    name: Seq<char>,
    id: Seq<char>,
    other: Seq<char>,
)
    requires
        !text::same_letters(other, name),
        id_of(entries, other) != Some(id),
    ensures
        id_of(with_entry(entries, name, id), other) == id_of(entries, other),
{
    let keep = apart(name, id);
    search::lemma_first_index(entries, named(other));
    lemma_kept_lookup(entries, keep, other);
    let kept = entries.filter(keep);
    let after = with_entry(entries, name, id);
    search::lemma_first_index(kept, named(other));
    let k = search::first_index(kept, named(other));
    assert forall|j: int| 0 <= j < k implies !text::same_letters(
        (#[trigger] after[j]).0,
        other,
    ) by {
        assert(after[j] == kept[j]);
    }
    if k < kept.len() {
        search::lemma_first_index_is(after, named(other), k);
    } else {
        search::lemma_first_index_is(after, named(other), after.len() as int);
    }
}

/// A name that has been forgotten stands for nothing, and every other name is as it was.
pub proof fn law_removed_name_is_gone(entries: Seq<Entry>, name: Seq<char>, other: Seq<char>)
    ensures
        text::same_letters(other, name) ==> id_of(without_name(entries, name), other) is None,
        !text::same_letters(other, name) ==> id_of(without_name(entries, name), other) == id_of(
            entries,
            other,
        ),
{
    let keep = not_named(name);
    let after = without_name(entries, name);
    if text::same_letters(other, name) {
        lemma_filter_all(entries, keep);
        assert forall|j: int| 0 <= j < after.len() implies !text::same_letters(
            (#[trigger] after[j]).0,
            other,
        ) by {
            assert(keep(entries.filter(keep)[j]));
        }
        search::lemma_first_index_is(after, named(other), after.len() as int);
    } else {
        search::lemma_first_index(entries, named(other));
        lemma_kept_lookup(entries, keep, other);
    }
}

proof fn lemma_filter_unique(entries: Seq<Entry>, keep: spec_fn(Entry) -> bool)
    requires
        unique(entries),
    ensures
        unique(entries.filter(keep)),
    decreases entries.len(),
{
    reveal(Seq::filter);
    if entries.len() > 0 {
        let front = entries.drop_last();
        assert(unique(front)) by {
            assert forall|i: int, j: int| 0 <= i < j < front.len() implies !text::same_letters(
                (#[trigger] front[i]).0,
                (#[trigger] front[j]).0,
            ) && front[i].1 != front[j].1 by {
                assert(front[i] == entries[i] && front[j] == entries[j]);
            }
        }
        lemma_filter_unique(front, keep);
        lemma_filter_all(front, keep);
        let kept = front.filter(keep);
        let all = entries.filter(keep);
        assert forall|i: int, j: int| 0 <= i < j < all.len() implies !text::same_letters(
            (#[trigger] all[i]).0,
            (#[trigger] all[j]).0,
        ) && all[i].1 != all[j].1 by {
            assert(all[i] == kept[i]);
            if j < kept.len() {
                assert(all[j] == kept[j]);
            } else {
                assert(front.contains(kept[i]));
                let m = choose|m: int| 0 <= m < front.len() && front[m] == kept[i];
                assert(entries[m] == kept[i]);
                assert(entries[entries.len() - 1] == all[j]);
            }
        }
    }
}

/// Giving and forgetting names keeps it so that no two entries share a name or an id.
pub proof fn law_names_stay_unique(entries: Seq<Entry>, name: Seq<char>, id: Seq<char>)
    requires
        unique(entries),
    ensures
        unique(with_entry(entries, name, id)),
        unique(without_name(entries, name)),
{
    let keep = apart(name, id);
    lemma_filter_unique(entries, keep);
    lemma_filter_all(entries, keep);
    lemma_filter_unique(entries, not_named(name));
    let kept = entries.filter(keep);
    let after = with_entry(entries, name, id);
    assert forall|i: int, j: int| 0 <= i < j < after.len() implies !text::same_letters(
        (#[trigger] after[i]).0,
        (#[trigger] after[j]).0,
    ) && after[i].1 != after[j].1 by {
        assert(after[i] == kept[i]);
        if j < kept.len() {
            assert(after[j] == kept[j]);
        } else {
            assert(keep(kept[i]));
        }
    }
}

/// A name recorded in the file is found there by whoever reads the file next, in whatever
/// case they spell it and whatever the file held before.
pub proof fn law_recorded_name_is_found(
    file: Seq<char>,
    name: Seq<char>,
    id: Seq<char>,
    spelled: Seq<char>,
)
    requires
        storable((name, id)),
        text::same_letters(spelled, name),
    ensures
        id_of(parsed(rendered(with_entry(parsed(file), name, id))), spelled) == Some(id),
{
    let keep = apart(name, id);
    let entries = parsed(file);
    let after = with_entry(entries, name, id);
    law_names_read_are_storable(file);
    lemma_filter_all(entries, keep);
    assert forall|i: int| 0 <= i < after.len() implies storable(#[trigger] after[i]) by {
        if i < after.len() - 1 {
            let e = entries.filter(keep)[i];
            assert(entries.contains(e));
            let m = choose|m: int| 0 <= m < entries.len() && entries[m] == e;
            assert(storable(entries[m]));
        }
    }
    law_written_names_are_read_back(after);
    law_set_is_found(entries, name, id, spelled);
}

/// A name forgotten in the file is not found there by whoever reads the file next, whatever
/// the file held before.
pub proof fn law_forgotten_name_is_not_found(file: Seq<char>, name: Seq<char>)
    ensures
        id_of(parsed(rendered(without_name(parsed(file), name))), name) is None,
{
    let keep = not_named(name);
    let entries = parsed(file);
    let after = without_name(entries, name);
    law_names_read_are_storable(file);
    lemma_filter_all(entries, keep);
    assert forall|i: int| 0 <= i < after.len() implies storable(#[trigger] after[i]) by {
        let e = entries.filter(keep)[i];
        assert(entries.contains(e));
        let m = choose|m: int| 0 <= m < entries.len() && entries[m] == e;
        assert(storable(entries[m]));
    }
    law_written_names_are_read_back(after);
    law_removed_name_is_gone(entries, name, name);
}

proof fn lemma_recorded_reads_back(file: Seq<char>, name: Seq<char>, id: Seq<char>)
    requires
        storable((name, id)),
    ensures
        parsed(rendered(with_entry(parsed(file), name, id))) == with_entry(parsed(file), name, id),
{
    let keep = apart(name, id);
    let entries = parsed(file);
    let after = with_entry(entries, name, id);
    law_names_read_are_storable(file);
    lemma_filter_all(entries, keep);
    assert forall|i: int| 0 <= i < after.len() implies storable(#[trigger] after[i]) by {
        if i < after.len() - 1 {
            let e = entries.filter(keep)[i];
            assert(entries.contains(e));
            let m = choose|m: int| 0 <= m < entries.len() && entries[m] == e;
            assert(storable(entries[m]));
        }
    }
    law_written_names_are_read_back(after);
}

proof fn lemma_forgotten_reads_back(file: Seq<char>, name: Seq<char>)
    ensures
        parsed(rendered(without_name(parsed(file), name))) == without_name(parsed(file), name),
{
    let keep = not_named(name);
    let entries = parsed(file);
    let after = without_name(entries, name);
    law_names_read_are_storable(file);
    lemma_filter_all(entries, keep);
    assert forall|i: int| 0 <= i < after.len() implies storable(#[trigger] after[i]) by {
        let e = entries.filter(keep)[i];
        assert(entries.contains(e));
        let m = choose|m: int| 0 <= m < entries.len() && entries[m] == e;
        assert(storable(entries[m]));
    }
    law_written_names_are_read_back(after);
}

/// Recording a name in the file keeps every other name that it held, unless that name stood for
/// the same id, and forgetting a name keeps every other.
pub proof fn law_other_names_stay_in_the_file(
    file: Seq<char>,
    name: Seq<char>,
    id: Seq<char>,
    other: Seq<char>,
)
    requires
        !text::same_letters(other, name),
    ensures
        storable((name, id)) && id_of(parsed(file), other) != Some(id) ==> id_of(
            parsed(rendered(with_entry(parsed(file), name, id))),
            other,
        ) == id_of(parsed(file), other),
        id_of(parsed(rendered(without_name(parsed(file), name))), other) == id_of(
            parsed(file),
            other,
        ),
{
    if storable((name, id)) && id_of(parsed(file), other) != Some(id) {
        lemma_recorded_reads_back(file, name, id);
        law_set_keeps_other_names(parsed(file), name, id, other);
    }
    lemma_forgotten_reads_back(file, name);
    law_removed_name_is_gone(parsed(file), name, other);
}

/// A name stands for the id of the first entry that has it, up to case, and for nothing if no
/// entry has it; an id has the name of the first entry with it, as that entry spells it, and
/// the empty id has none.
pub proof fn law_first_entry_counts(entries: Seq<Entry>, k: int, name: Seq<char>, id: Seq<char>)
    ensures
        id_of(entries, name) is None <==> forall|j: int|
            0 <= j < entries.len() ==> !text::same_letters((#[trigger] entries[j]).0, name),
        0 <= k < entries.len() && text::same_letters(entries[k].0, name) && (forall|j: int|
            0 <= j < k ==> !text::same_letters((#[trigger] entries[j]).0, name)) ==> id_of(
            entries,
            name,
        ) == Some(entries[k].1),
        name_of(entries, id) is None <==> id.len() == 0 || forall|j: int|
            0 <= j < entries.len() ==> (#[trigger] entries[j]).1 != id,
        0 <= k < entries.len() && id.len() > 0 && entries[k].1 == id && (forall|j: int|
            0 <= j < k ==> (#[trigger] entries[j]).1 != id) ==> name_of(entries, id) == Some(
            entries[k].0,
        ),
{
    search::lemma_first_index(entries, named(name));
    search::lemma_first_index(entries, identified(id));
    let i = search::first_index(entries, named(name));
    let m = search::first_index(entries, identified(id));
    if i == entries.len() {
        assert forall|j: int| 0 <= j < entries.len() implies !text::same_letters(
            (#[trigger] entries[j]).0,
            name,
        ) by {
            assert(!named(name)(entries[j]));
        }
    } else {
        assert(named(name)(entries[i]));
    }
    if m == entries.len() {
        assert forall|j: int| 0 <= j < entries.len() implies (#[trigger] entries[j]).1 != id by {
            assert(!identified(id)(entries[j]));
        }
    } else {
        assert(identified(id)(entries[m]));
    }
    if 0 <= k < entries.len() && text::same_letters(entries[k].0, name) && (forall|j: int|
        0 <= j < k ==> !text::same_letters((#[trigger] entries[j]).0, name)) {
        assert forall|j: int| 0 <= j < k implies !named(name)(#[trigger] entries[j]) by {
        }
        search::lemma_first_index_is(entries, named(name), k);
    }
    if 0 <= k < entries.len() && entries[k].1 == id && (forall|j: int|
        0 <= j < k ==> (#[trigger] entries[j]).1 != id) {
        assert forall|j: int| 0 <= j < k implies !identified(id)(#[trigger] entries[j]) by {
        }
        search::lemma_first_index_is(entries, identified(id), k);
    }
}

/// The entries keep their order when a name is given or forgotten: the new entry comes last,
/// and of the others exactly those are dropped that have the name, up to case, or, when it is
/// given, the id.
pub proof fn law_entries_keep_their_order(
    entries: Seq<Entry>,
    e: Entry,
    name: Seq<char>,
    id: Seq<char>,
)
    ensures
        with_entry(seq![], name, id) == seq![(name, id)],
        with_entry(entries.push(e), name, id) == if text::same_letters(e.0, name) || e.1 == id {
            with_entry(entries, name, id)
        } else {
            with_entry(entries, name, id).drop_last().push(e).push((name, id))
        },
        without_name(seq![], name) == Seq::<Entry>::empty(),
        without_name(entries.push(e), name) == if text::same_letters(e.0, name) {
            without_name(entries, name)
        } else {
            without_name(entries, name).push(e)
        },
{
    reveal(Seq::filter);
    assert(entries.push(e).drop_last() =~= entries);
    assert(with_entry(entries, name, id).drop_last() =~= entries.filter(apart(name, id)));
    assert(with_entry(seq![], name, id) =~= seq![(name, id)]);
    assert(without_name(seq![], name) =~= Seq::<Entry>::empty());
}

proof fn lemma_lines_apart(a: Seq<Seq<char>>, b: Seq<Seq<char>>)
    ensures
        lines_entries(a + b) == lines_entries(a) + lines_entries(b),
    decreases b.len(),
{
    if b.len() == 0 {
        assert(a + b =~= a);
        assert(lines_entries(b) =~= seq![]);
        assert(lines_entries(a) + lines_entries(b) =~= lines_entries(a));
    } else {
        lemma_lines_apart(a, b.drop_last());
        assert((a + b).drop_last() =~= a + b.drop_last());
        assert((a + b).last() == b.last());
        assert(lines_entries(a + b) =~= lines_entries(a) + lines_entries(b));
    }
}

/// The file is read line by line: what stands before a line break and what stands behind it
/// are read apart. A line is an entry exactly if it has a tab; the name is what stands before
/// the first one, as it is, and the id what stands behind it, without the white space around.
pub proof fn law_lines_are_read_apart(
    before: Seq<char>,
    after: Seq<char>,
    name: Seq<char>,
    id: Seq<char>,
)
    ensures
        parsed(before + seq!['\n'] + after) == parsed(before) + parsed(after),
        !name.contains('\t') && !name.contains('\n') ==> parsed(name) == Seq::<Entry>::empty(),
        !name.contains('\t') && !name.contains('\n') && !id.contains('\n') ==> parsed(
            name + seq!['\t'] + id,
        ) == seq![(name, text::trim(id))],
{
    text::law_split_is_taken_apart(before, after, '\n');
    lemma_lines_apart(text::split(before, '\n'), text::split(after, '\n'));
    if !name.contains('\t') && !name.contains('\n') {
        let line = name + seq!['\t'] + id;
        assert forall|i: int| 0 <= i < name.len() implies name[i] != '\t' && name[i] != '\n' by {
            assert(name.contains(name[i]));
        }
        text::lemma_position_is(name, '\n', name.len() as int);
        text::lemma_position_is(name, '\t', name.len() as int);
        assert(text::split(name, '\n') =~= seq![name]);
        assert(seq![name].drop_last() =~= seq![]);
        assert(lines_entries(seq![]) =~= seq![]);
        assert(parsed(name) =~= seq![]);
        if !id.contains('\n') {
            assert forall|i: int| 0 <= i < line.len() implies line[i] != '\n' by {
                if i > name.len() {
                    assert(line[i] == id[i - name.len() - 1]);
                    assert(id.contains(line[i]));
                }
            }
            text::lemma_position_is(line, '\n', line.len() as int);
            text::lemma_position_is(line, '\t', name.len() as int);
            assert(line.take(name.len() as int) =~= name);
            assert(line.skip(name.len() as int + 1) =~= id);
            assert(text::split(line, '\n') =~= seq![line]);
            assert(seq![line].drop_last() =~= seq![]);
            assert(parsed(line) =~= seq![(name, text::trim(id))]);
        }
    }
}

/// Each entry is one line of the file, in the order of the entries: its name, a tab, its id and
/// a line break, with nothing between the lines.
pub proof fn law_names_are_written_line_by_line(entries: Seq<Entry>, e: Entry)
    ensures
        rendered(seq![]).len() == 0,
        rendered(entries.push(e)) == rendered(entries) + e.0 + seq!['\t'] + e.1 + seq!['\n'],
{
    assert(entries.push(e).drop_last() =~= entries);
    assert(rendered(entries.push(e)) =~= rendered(entries) + e.0 + seq!['\t'] + e.1 + seq!['\n']);
}

} // verus!
