//! The entries for Kando in COSMIC's configuration files: the floating-window rule and the
//! keyboard shortcut that opens a menu.

pub use crate::error::{Error, ErrorView};
use crate::error;
use crate::number;
use crate::ron;
use crate::text;
use vstd::prelude::*;

verus! {

/// The rule that keeps Kando's menu window from being tiled.
pub const RULE_ENTRY: &'static str = "    (\n        enabled: true,\n        appid: \"menu.kando.Kando\",\n        title: \"^Kando Menu$\",\n    ),\n";

/// Whether the rule for Kando's menu window is in a file; a file that cannot be read has
/// none.
pub open spec fn has_rule(file: Option<Seq<char>>) -> bool {
    file matches Some(t) && text::occurs("menu.kando.Kando"@, t)
}

/// Whether a shortcut that runs Kando is in a file.
pub open spec fn has_shortcut(file: Option<Seq<char>>) -> bool {
    file matches Some(t) && text::occurs("kando"@, t)
}

/// The view of an optional text.
pub open spec fn text_view(t: Option<String>) -> Option<Seq<char>> {
    match t {
        Some(t) => Some(t@),
        None => None,
    }
}

/// The modifier that a part of a shortcut stands for, in COSMIC's spelling.
pub open spec fn modifier(part: Seq<char>) -> Option<Seq<char>> {
    if part == "ctrl"@ || part == "control"@ {
        Some("Ctrl"@)
    } else if part == "alt"@ {
        Some("Alt"@)
    } else if part == "shift"@ {
        Some("Shift"@)
    } else if part == "super"@ || part == "meta"@ || part == "win"@ || part == "cmd"@ {
        Some("Super"@)
    } else {
        None
    }
}

/// Whether a part of a shortcut is a function key: an `f` and a number of at most 255.
pub open spec fn is_function_key(part: Seq<char>) -> bool {
    part.len() > 0 && part[0] == 'f' && (number::unsigned_value(part.skip(1)) matches Some(n) && n
        <= 255)
}

/// The key that a part of a shortcut stands for, in the spelling of xkb.
pub open spec fn key_name(part: Seq<char>) -> Seq<char> {
    if is_function_key(part) {
        seq!['F'] + part.skip(1)
    } else {
        part
    }
}

/// The modifiers among the parts of a shortcut, in their order.
pub open spec fn modifiers(parts: Seq<Seq<char>>) -> Seq<Seq<char>>
    decreases parts.len(),
{
    if parts.len() == 0 {
        seq![]
    } else {
        let before = modifiers(parts.drop_last());
        match modifier(text::lowercase(parts.last())) {
            Some(m) => before.push(m),
            None => before,
        }
    }
}

/// The last key among the parts of a shortcut; nothing if there is none.
pub open spec fn key_in(parts: Seq<Seq<char>>) -> Seq<char>
    decreases parts.len(),
{
    if parts.len() == 0 {
        seq![]
    } else {
        let part = text::lowercase(parts.last());
        match modifier(part) {
            Some(_) => key_in(parts.drop_last()),
            None => key_name(part),
        }
    }
}

/// The lines for a list of modifiers.
pub open spec fn modifier_lines(mods: Seq<Seq<char>>) -> Seq<char>
    decreases mods.len(),
{
    if mods.len() == 0 {
        seq![]
    } else {
        modifier_lines(mods.drop_last()) + "            "@ + mods.last() + ",\n"@
    }
}

/// The entry for a shortcut that opens a menu.
pub open spec fn shortcut_entry(
    mods: Seq<Seq<char>>,
    key: Seq<char>,
    menu: Seq<char>,
) -> Seq<char> {
    "    (\n        modifiers: [\n"@ + modifier_lines(mods)
        + "        ],\n        key: \""@ + key
        + "\",\n        description: Some(\"Kando: "@ + menu
        + "\"),\n    ): Spawn(\"kando --menu \\\""@ + menu + "\\\"\"),\n"@
}

/// The error for a file that cannot be used.
pub open spec fn file_trouble(path: Seq<char>, why: Seq<char>) -> ErrorView {
    ErrorView::Wayland(path + ": "@ + why)
}

/// A file with an entry added, or the error for one that holds something else than a list or
/// map with these brackets.
pub open spec fn with_entry(
    existing: Seq<char>,
    entry: Seq<char>,
    open: char,
    close: char,
    path: Seq<char>,
) -> Result<Seq<char>, ErrorView> {
    if ron::takes_entries(existing, open, close) {
        Ok(ron::inserted(existing, entry, open, close))
    } else {
        Err(file_trouble(path, "no closing bracket to add an entry before"@))
    }
}

/// The file of shortcuts with one added that opens a menu, or the error for one without a
/// key; `shown` is how the shortcut is written in it.
pub open spec fn with_shortcut(
    combo: Seq<char>,
    shown: Seq<char>,
    menu: Seq<char>,
    existing: Seq<char>,
    path: Seq<char>,
) -> Result<Seq<char>, ErrorView> {
    let parts = text::pieces(combo, '+');
    let key = key_in(parts);
    if key.len() == 0 {
        Err(ErrorView::Wayland("no key in shortcut "@ + shown))
    } else {
        with_entry(existing, shortcut_entry(modifiers(parts), key, menu), '{', '}', path)
    }
}

/// How a text is written between quotes.
pub uninterp spec fn quoted_text(t: Seq<char>) -> Seq<char>;

/// The `Debug` output of a string, which depends on its characters alone.
#[verifier::external_body]
pub(crate) fn quoted(t: &str) -> (r: String)
    ensures
        r@ == quoted_text(t@),
{
    format!("{t:?}")
}

/// Whether the rule for Kando's menu window is in a file.
pub fn rule_present(file: &Option<String>) -> (r: bool)
    ensures
        r == has_rule(text_view(*file)),
{
    match file {
        Some(t) => text::contains(t, "menu.kando.Kando"),
        None => false,
    }
}

/// Whether a shortcut that runs Kando is in a file.
pub fn shortcut_present(file: &Option<String>) -> (r: bool)
    ensures
        r == has_shortcut(text_view(*file)),
{
    match file {
        Some(t) => text::contains(t, "kando"),
        None => false,
    }
}

/// What the outcome of adding to a file says.
pub open spec fn file_view(r: Result<String, Error>) -> Result<Seq<char>, ErrorView> {
    match r {
        Ok(t) => Ok(t@),
        Err(e) => Err(e@),
    }
}

fn add_entry(existing: &str, entry: &str, open: char, close: char, path: &str) -> (r: Result<
    String,
    Error,
>)
    ensures
        file_view(r) == with_entry(existing@, entry@, open, close, path@),
{
    match ron::insert_ron_entry(existing, entry, open, close) {
        Some(t) => Ok(t),
        None => Err(file_error(path, "no closing bracket to add an entry before")),
    }
}

/// The file of tiling exceptions, shown by its path, with the rule for Kando's menu window
/// added. A file that holds something else than a list is an error.
pub fn write_rule(existing: &str, path: &str) -> (r: Result<String, Error>)
    ensures
        file_view(r) == with_entry(existing@, RULE_ENTRY@, '[', ']', path@),
{
    add_entry(existing, RULE_ENTRY, '[', ']', path)
}

fn modifier_name(part: &str) -> (r: Option<&'static str>)
    ensures
        match r {
            Some(m) => modifier(part@) == Some(m@),
            None => modifier(part@) is None,
        },
{
    if text::same(part, "ctrl") || text::same(part, "control") {
        Some("Ctrl")
    } else if text::same(part, "alt") {
        Some("Alt")
    } else if text::same(part, "shift") {
        Some("Shift")
    } else if text::same(part, "super") || text::same(part, "meta") || text::same(part, "win")
        || text::same(part, "cmd") {
        Some("Super")
    } else {
        None
    }
}

fn xkb_name(part: String) -> (r: String)
    ensures
        r@ == key_name(part@),
{
    let v = text::chars_of(&part);
    if v.len() > 0 && v[0] == 'f' {
        let digits = text::string_of(&v, 1, v.len());
        assert(digits@ =~= part@.skip(1));
        if number::parse_unsigned(&digits, 255).is_some() {
            let r = error::joined("F", &digits);
            proof {
                reveal_strlit("F");
                assert(r@ =~= seq!['F'] + digits@);
            }
            return r;
        }
    }
    part
}

fn entry_text(mod_lines: &str, key: &str, menu: &str, Ghost(mods): Ghost<Seq<Seq<char>>>) -> (r:
    String)
    requires
        mod_lines@ == modifier_lines(mods),
    ensures
        r@ == shortcut_entry(mods, key@, menu@),
{
    let mut r = "    (\n        modifiers: [\n".to_owned();
    r.append(mod_lines);
    r.append("        ],\n        key: \"");
    r.append(key);
    r.append("\",\n        description: Some(\"Kando: ");
    r.append(menu);
    r.append("\"),\n    ): Spawn(\"kando --menu \\\"");
    r.append(menu);
    r.append("\\\"\"),\n");
    r
}

/// The file of shortcuts with one added that opens a menu, given how the shortcut is written
/// in an error.
pub fn write_shortcut_shown(
    combo: &str,
    shown: &str,
    menu: &str,
    existing: &str,
    path: &str,
) -> (r: Result<String, Error>)
    ensures
        file_view(r) == with_shortcut(combo@, shown@, menu@, existing@, path@),
{
    let parts = text::trimmed_pieces(combo, '+');
    let ghost all = text::views(parts@);
    let ghost mut mods: Seq<Seq<char>> = seq![];
    let mut mod_lines = String::new();
    let mut key = String::new();
    let mut i: usize = 0;
    assert(all.take(0) =~= seq![]);
    assert(mod_lines@ =~= modifier_lines(mods));
    assert(key@ =~= key_in(all.take(0)));
    while i < parts.len()
        invariant
            i <= parts@.len(),
            all == text::views(parts@),
            mods == modifiers(all.take(i as int)),
            mod_lines@ == modifier_lines(mods),
            key@ == key_in(all.take(i as int)),
        decreases parts@.len() - i,
    {
        proof {
            assert(all.take(i + 1).drop_last() =~= all.take(i as int));
            assert(all.take(i + 1).last() == parts@[i as int]@);
        }
        let part = text::to_ascii_lowercase(&parts[i]);
        match modifier_name(&part) {
            Some(m) => {
                mod_lines.append("            ");
                mod_lines.append(m);
                mod_lines.append(",\n");
                proof {
                    let more = mods.push(m@);
                    assert(more.drop_last() =~= mods);
                    mods = more;
                }
            },
            None => {
                key = xkb_name(part);
            },
        }
        i += 1;
    }
    assert(all.take(i as int) =~= all);
    if key.as_str().is_empty() {
        return Err(Error::Wayland(error::joined("no key in shortcut ", shown)));
    }
    let entry = entry_text(&mod_lines, &key, menu, Ghost(mods));
    add_entry(existing, &entry, '{', '}', path)
}

/// The file of shortcuts, shown by its path, with one added that opens a menu. The shortcut is
/// written like "Ctrl+Space" or "Super+Shift+m"; one without a key is an error, and so is a
/// file that holds something else than a map.
pub fn write_shortcut(combo: &str, menu: &str, existing: &str, path: &str) -> (r: Result<
    String,
    Error,
>)
    ensures
        file_view(r) == with_shortcut(
            combo@,
            quoted_text(combo@),
            menu@,
            existing@,
            path@,
        ),
{
    write_shortcut_shown(combo, &quoted(combo), menu, existing, path)
}

/// The error for a file that cannot be used.
pub fn file_error(path: &str, why: &str) -> (r: Error)
    ensures
        r@ == file_trouble(path@, why@),
{
    let mut message = path.to_owned();
    message.append(": ");
    message.append(why);
    Error::Wayland(message)
}

proof fn lemma_occurs_within(part: Seq<char>, whole: Seq<char>, s: Seq<char>)
    requires
        text::occurs(part, whole),
        text::occurs(whole, s),
    ensures
        text::occurs(part, s),
{
    let i = choose|i: int| text::occurs_at(part, whole, i);
    let j = choose|j: int| text::occurs_at(whole, s, j);
    let there = s.subrange(j + i, j + i + part.len());
    assert forall|k: int| 0 <= k < part.len() implies #[trigger] there[k] == part[k] by {
        assert(s.subrange(j, j + whole.len())[i + k] == s[j + i + k]);
        assert(whole.subrange(i, i + part.len())[k] == part[k]);
    }
    assert(there =~= part);
    assert(text::occurs_at(part, s, j + i));
}

/// After the rule has been written, it is there, whatever the file held before, and what
/// stood before the closing bracket still begins the file.
pub proof fn law_written_rule_is_present(
    existing: Seq<char>,
    path: Seq<char>,
    written: Seq<char>,
)
    requires
        with_entry(existing, RULE_ENTRY@, '[', ']', path) == Ok::<_, ErrorView>(written),
    ensures
        has_rule(Some(written)),
        ron::is_blank(existing) || text::begins_with(written, ron::kept_part(existing, ']')),
{
    let rule = RULE_ENTRY@;
    reveal_strlit(
        "    (\n        enabled: true,\n        appid: \"menu.kando.Kando\",\n        title: \"^Kando Menu$\",\n    ),\n",
    );
    reveal_strlit("menu.kando.Kando");
    assert(rule.subrange(45, 61) =~= "menu.kando.Kando"@);
    assert(text::occurs_at("menu.kando.Kando"@, rule, 45));
    ron::law_inserting_keeps_what_was_there(existing, rule, '[', ']');
    lemma_occurs_within("menu.kando.Kando"@, rule, written);
}

/// After a shortcut has been written, it is there, whatever the file held before, and what
/// stood before the closing bracket still begins the file.
pub proof fn law_written_shortcut_is_present(
    combo: Seq<char>,
    shown: Seq<char>,
    menu: Seq<char>,
    existing: Seq<char>,
    path: Seq<char>,
    written: Seq<char>,
)
    requires
        with_shortcut(combo, shown, menu, existing, path) == Ok::<_, ErrorView>(written),
    ensures
        has_shortcut(Some(written)),
        ron::is_blank(existing) || text::begins_with(written, ron::kept_part(existing, '}')),
{
    let parts = text::pieces(combo, '+');
    let mods = modifiers(parts);
    let key = key_in(parts);
    let entry = shortcut_entry(mods, key, menu);
    let spawn = "\"),\n    ): Spawn(\"kando --menu \\\""@;
    reveal_strlit("\"),\n    ): Spawn(\"kando --menu \\\"");
    reveal_strlit("kando");
    let front = "    (\n        modifiers: [\n"@ + modifier_lines(mods)
        + "        ],\n        key: \""@ + key + "\",\n        description: Some(\"Kando: "@
        + menu;
    let at = front.len() as int;
    assert(entry.subrange(at, at + spawn.len()) =~= spawn);
    assert(text::occurs_at(spawn, entry, at));
    assert(spawn.subrange(18, 23) =~= "kando"@);
    assert(text::occurs_at("kando"@, spawn, 18));
    ron::law_inserting_keeps_what_was_there(existing, entry, '{', '}');
    lemma_occurs_within(spawn, entry, written);
    lemma_occurs_within("kando"@, spawn, written);
}

/// A shortcut for a file that takes entries is refused exactly if none of its parts is a key.
pub proof fn law_shortcut_needs_a_key(
    combo: Seq<char>,
    shown: Seq<char>,
    menu: Seq<char>,
    existing: Seq<char>,
    path: Seq<char>,
)
    requires
        ron::takes_entries(existing, '{', '}'),
    ensures
        with_shortcut(combo, shown, menu, existing, path) is Err <==> forall|i: int|
            0 <= i < text::pieces(combo, '+').len() ==> modifier(
                text::lowercase(#[trigger] text::pieces(combo, '+')[i]),
            ) is Some,
{
    let parts = text::pieces(combo, '+');
    let trims = text::split(combo, '+').map_values(|p: Seq<char>| text::trim(p));
    assert forall|i: int| 0 <= i < parts.len() implies (#[trigger] parts[i]).len() > 0 by {
        trims.lemma_filter_pred(text::is_filled(), i);
    }
    lemma_key_in(parts);
}

proof fn lemma_key_in(parts: Seq<Seq<char>>)
    requires
        forall|i: int| 0 <= i < parts.len() ==> (#[trigger] parts[i]).len() > 0,
    ensures
        key_in(parts).len() == 0 <==> forall|i: int|
            0 <= i < parts.len() ==> modifier(text::lowercase(#[trigger] parts[i])) is Some,
    decreases parts.len(),
{
    if parts.len() > 0 {
        let fewer = parts.drop_last();
        assert forall|i: int| 0 <= i < fewer.len() implies (#[trigger] fewer[i]).len() > 0 by {
            assert(fewer[i] == parts[i]);
        }
        lemma_key_in(fewer);
        let n = parts.len() - 1;
        assert(parts[n] == parts.last());
        assert forall|i: int| 0 <= i < fewer.len() implies parts[i] == #[trigger] fewer[i] by {
        }
        if modifier(text::lowercase(parts.last())) is Some {
            if key_in(fewer).len() == 0 {
                assert forall|i: int| 0 <= i < parts.len() implies modifier(
                    text::lowercase(#[trigger] parts[i]),
                ) is Some by {
                    if i < n {
                        assert(fewer[i] == parts[i]);
                    }
                }
            } else {
                let i = choose|i: int|
                    0 <= i < fewer.len() && modifier(text::lowercase(#[trigger] fewer[i])) is None;
                assert(modifier(text::lowercase(parts[i])) is None);
            }
        } else {
            assert(text::lowercase(parts.last()).len() > 0);
        }
    }
}

/// The words for a modifier: each modifier has its own, and nothing else is one.
pub proof fn law_modifiers_have_their_words(part: Seq<char>)
    ensures
        modifier(part) == Some("Ctrl"@) <==> part == "ctrl"@ || part == "control"@,
        modifier(part) == Some("Alt"@) <==> part == "alt"@,
        modifier(part) == Some("Shift"@) <==> part == "shift"@,
        modifier(part) == Some("Super"@) <==> part == "super"@ || part == "meta"@ || part == "win"@
            || part == "cmd"@,
        modifier(part) matches Some(m) ==> m == "Ctrl"@ || m == "Alt"@ || m == "Shift"@ || m
            == "Super"@,
{
    reveal_strlit("ctrl");
    reveal_strlit("control");
    reveal_strlit("alt");
    reveal_strlit("shift");
    reveal_strlit("super");
    reveal_strlit("meta");
    reveal_strlit("win");
    reveal_strlit("cmd");
    reveal_strlit("Ctrl");
    reveal_strlit("Alt");
    reveal_strlit("Shift");
    reveal_strlit("Super");
    assert("ctrl"@[0] == 'c' && "control"@[0] == 'c' && "alt"@[0] == 'a' && "shift"@[0] == 's'
        && "shift"@[1] == 'h' && "super"@[0] == 's' && "super"@[1] == 'u' && "meta"@[0] == 'm'
        && "win"@[0] == 'w' && "cmd"@[0] == 'c' && "cmd"@[1] == 'm' && "ctrl"@[1] == 't'
        && "control"@[1] == 'o');
    assert("Ctrl"@[0] == 'C' && "Alt"@[0] == 'A' && "Shift"@[1] == 'h' && "Super"@[1] == 'u'
        && "Shift"@[0] == 'S' && "Super"@[0] == 'S');
}

/// The modifiers of a combination are those of its parts, in their order, however they are
/// spelled; the key is the last part that is no modifier, wherever the modifiers stand.
pub proof fn law_combination_is_read_part_by_part(
    parts: Seq<Seq<char>>,
    more: Seq<Seq<char>>,
    part: Seq<char>,
    spelled: Seq<char>,
)
    requires
        text::same_letters(spelled, part),
    ensures
        modifiers(parts + more) == modifiers(parts) + modifiers(more),
        modifiers(seq![part]) == match modifier(text::lowercase(part)) {
            Some(m) => seq![m],
            None => seq![],
        },
        modifiers(parts.push(spelled)) == modifiers(parts.push(part)),
        key_in(parts.push(spelled)) == key_in(parts.push(part)),
        modifier(text::lowercase(part)) is Some ==> key_in(parts.push(part)) == key_in(parts),
        modifier(text::lowercase(part)) is None ==> key_in(parts.push(part)) == key_name(
            text::lowercase(part),
        ),
        key_in(seq![]).len() == 0,
    decreases more.len(),
{
    assert(parts.push(part).drop_last() =~= parts);
    assert(parts.push(spelled).drop_last() =~= parts);
    assert(seq![part].drop_last() =~= Seq::<Seq<char>>::empty());
    assert(modifiers(Seq::<Seq<char>>::empty()) =~= Seq::<Seq<char>>::empty());
    assert(modifiers(seq![part]) =~= (match modifier(text::lowercase(part)) {
        Some(m) => seq![m],
        None => seq![],
    }));
    if more.len() == 0 {
        assert(parts + more =~= parts);
        assert(modifiers(more) =~= seq![]);
        assert(modifiers(parts) + modifiers(more) =~= modifiers(parts));
    } else {
        law_combination_is_read_part_by_part(parts, more.drop_last(), part, spelled);
        assert((parts + more).drop_last() =~= parts + more.drop_last());
        assert((parts + more).last() == more.last());
        assert(modifiers(parts + more) =~= modifiers(parts) + modifiers(more));
    }
}

/// A key is named as it is written, in lower case, except that a function key is named with a
/// capital: an `f` followed by a number that is not too large.
pub proof fn law_function_keys_are_capital(part: Seq<char>, n: nat)
    ensures
        key_name(part).len() == part.len(),
        forall|i: int| 1 <= i < part.len() ==> key_name(part)[i] == part[i],
        part.len() > 0 && key_name(part)[0] != part[0] ==> part[0] == 'f' && key_name(part)[0]
            == 'F' && part.len() > 1,
        n <= 255 ==> key_name(seq!['f'] + number::decimal(n)) == seq!['F'] + number::decimal(n),
        n > 255 ==> key_name(seq!['f'] + number::decimal(n)) == seq!['f'] + number::decimal(n),
        number::unsigned_value(part.skip(1)) is None ==> key_name(part) == part,
        key_name(seq!['f']) == seq!['f'],
{
    number::law_numbers_are_read_back(n, 0);
    let f = seq!['f'] + number::decimal(n);
    assert(f.skip(1) =~= number::decimal(n));
    assert(seq!['f'].skip(1) =~= seq![]);
    assert(number::unsigned_value(seq![]) is None);
    if is_function_key(part) {
        assert(part.skip(1).len() > 0) by {
            if part.skip(1).len() == 0 {
                assert(part.skip(1) =~= seq![]);
            }
        }
        assert(forall|i: int| 1 <= i < part.len() ==> part.skip(1)[i - 1] == part[i]);
    }
}

proof fn lemma_between(before: Seq<char>, part: Seq<char>, after: Seq<char>)
    ensures
        text::occurs(part, before + part + after),
{
    text::law_occurring_is_standing_between(part, before + part + after);
}

proof fn lemma_tail(whole: Seq<char>, part: Seq<char>)
    requires
        part.len() <= whole.len(),
        whole.skip(whole.len() - part.len()) == part,
    ensures
        whole == whole.take(whole.len() - part.len()) + part,
{
    assert(whole =~= whole.take(whole.len() - part.len()) + part);
}

proof fn lemma_front(whole: Seq<char>, part: Seq<char>)
    requires
        part.len() <= whole.len(),
        whole.take(part.len() as int) == part,
    ensures
        whole == part + whole.skip(part.len() as int),
{
    assert(whole =~= part + whole.skip(part.len() as int));
}

proof fn lemma_entry_has_key(mods: Seq<Seq<char>>, key: Seq<char>, menu: Seq<char>)
    ensures
        text::occurs("key: \""@ + key + "\""@, shortcut_entry(mods, key, menu)),
{
    let opening = "    (\n        modifiers: [\n"@;
    let to_key = "        ],\n        key: \""@;
    let to_menu = "\",\n        description: Some(\"Kando: "@;
    let to_spawn = "\"),\n    ): Spawn(\"kando --menu \\\""@;
    let closing = "\\\"\"),\n"@;
    assert(to_key.skip(to_key.len() - 6) =~= "key: \""@ && "key: \""@.len() == 6 && to_key.len()
        >= 6) by {
        reveal_strlit("        ],\n        key: \"");
        reveal_strlit("key: \"");
    }
    assert(to_menu.take(1) =~= "\""@ && "\""@.len() == 1 && to_menu.len() >= 1) by {
        reveal_strlit("\",\n        description: Some(\"Kando: ");
        reveal_strlit("\"");
    }
    lemma_tail(to_key, "key: \""@);
    lemma_front(to_menu, "\""@);
    let part = "key: \""@ + key + "\""@;
    let before = opening + modifier_lines(mods) + to_key.take(to_key.len() - 6);
    let after = to_menu.skip(1) + menu + to_spawn + menu + closing;
    assert(shortcut_entry(mods, key, menu) =~= before + part + after);
    lemma_between(before, part, after);
}

proof fn lemma_entry_tells_menu(mods: Seq<Seq<char>>, key: Seq<char>, menu: Seq<char>)
    ensures
        text::occurs("Kando: "@ + menu + "\""@, shortcut_entry(mods, key, menu)),
{
    let opening = "    (\n        modifiers: [\n"@;
    let to_key = "        ],\n        key: \""@;
    let to_menu = "\",\n        description: Some(\"Kando: "@;
    let to_spawn = "\"),\n    ): Spawn(\"kando --menu \\\""@;
    let closing = "\\\"\"),\n"@;
    assert(to_menu.skip(to_menu.len() - 7) =~= "Kando: "@ && "Kando: "@.len() == 7 && to_menu.len()
        >= 7) by {
        reveal_strlit("\",\n        description: Some(\"Kando: ");
        reveal_strlit("Kando: ");
    }
    assert(to_spawn.take(1) =~= "\""@ && "\""@.len() == 1 && to_spawn.len() >= 1) by {
        reveal_strlit("\"),\n    ): Spawn(\"kando --menu \\\"");
        reveal_strlit("\"");
    }
    lemma_tail(to_menu, "Kando: "@);
    lemma_front(to_spawn, "\""@);
    let part = "Kando: "@ + menu + "\""@;
    let before = opening + modifier_lines(mods) + to_key + key + to_menu.take(to_menu.len() - 7);
    let after = to_spawn.skip(1) + menu + closing;
    assert(shortcut_entry(mods, key, menu) =~= before + part + after);
    lemma_between(before, part, after);
}

proof fn lemma_entry_spawns(mods: Seq<Seq<char>>, key: Seq<char>, menu: Seq<char>)
    ensures
        text::occurs(
            "Spawn(\"kando --menu \\\""@ + menu + "\\\"\")"@,
            shortcut_entry(mods, key, menu),
        ),
{
    let opening = "    (\n        modifiers: [\n"@;
    let to_key = "        ],\n        key: \""@;
    let to_menu = "\",\n        description: Some(\"Kando: "@;
    let to_spawn = "\"),\n    ): Spawn(\"kando --menu \\\""@;
    let closing = "\\\"\"),\n"@;
    let spawn = "Spawn(\"kando --menu \\\""@;
    let end = "\\\"\")"@;
    assert(to_spawn.skip(to_spawn.len() - 22) =~= spawn && spawn.len() == 22 && to_spawn.len()
        >= 22) by {
        reveal_strlit("\"),\n    ): Spawn(\"kando --menu \\\"");
        reveal_strlit("Spawn(\"kando --menu \\\"");
    }
    assert(closing.take(4) =~= end && end.len() == 4 && closing.len() >= 4) by {
        reveal_strlit("\\\"\"),\n");
        reveal_strlit("\\\"\")");
    }
    lemma_tail(to_spawn, spawn);
    lemma_front(closing, end);
    let part = spawn + menu + end;
    let before = opening + modifier_lines(mods) + to_key + key + to_menu + menu + to_spawn.take(
        to_spawn.len() - 22,
    );
    let after = closing.skip(4);
    assert(shortcut_entry(mods, key, menu) =~= before + part + after);
    lemma_between(before, part, after);
}

/// The entry for a shortcut has the key, has each modifier on a line of its own, tells the menu
/// in its description, and opens exactly that menu with Kando; it holds nothing else that
/// depends on them.
pub proof fn law_entry_opens_the_menu(
    mods: Seq<Seq<char>>,
    key: Seq<char>,
    menu: Seq<char>,
    i: int,
)
    ensures
        ({
            let entry = shortcut_entry(mods, key, menu);
            &&& text::occurs("key: \""@ + key + "\""@, entry)
            &&& text::occurs("Kando: "@ + menu + "\""@, entry)
            &&& text::occurs("Spawn(\"kando --menu \\\""@ + menu + "\\\"\")"@, entry)
            &&& 0 <= i < mods.len() ==> text::occurs(" "@ + mods[i] + ",\n"@, entry)
            &&& entry.len() == shortcut_entry(seq![], seq![], seq![]).len() + modifier_lines(
                mods,
            ).len() + key.len() + 2 * menu.len()
        }),
{
    lemma_entry_has_key(mods, key, menu);
    lemma_entry_tells_menu(mods, key, menu);
    lemma_entry_spawns(mods, key, menu);
    if 0 <= i < mods.len() {
        lemma_modifier_line(mods, i);
        let entry = shortcut_entry(mods, key, menu);
        let opening = "    (\n        modifiers: [\n"@;
        let lines = modifier_lines(mods);
        let rest = "        ],\n        key: \""@ + key
            + "\",\n        description: Some(\"Kando: "@ + menu
            + "\"),\n    ): Spawn(\"kando --menu \\\""@ + menu + "\\\"\"),\n"@;
        assert(entry =~= opening + lines + rest);
        lemma_between(opening, lines, rest);
        lemma_occurs_within(" "@ + mods[i] + ",\n"@, lines, entry);
    }
}

proof fn lemma_modifier_line(mods: Seq<Seq<char>>, i: int)
    requires
        0 <= i < mods.len(),
    ensures
        text::occurs(" "@ + mods[i] + ",\n"@, modifier_lines(mods)),
    decreases mods.len(),
{
    let fewer = mods.drop_last();
    let lines = modifier_lines(mods);
    let indent = "            "@;
    reveal_strlit("            ");
    reveal_strlit(" ");
    if i == mods.len() - 1 {
        let before = modifier_lines(fewer) + indent.take(11);
        let part = " "@ + mods[i] + ",\n"@;
        assert(indent.skip(11) =~= " "@);
        assert(lines =~= before + part + seq![]);
        lemma_between(before, part, seq![]);
    } else {
        lemma_modifier_line(fewer, i);
        let last = indent + mods.last() + ",\n"@;
        assert(lines =~= seq![] + modifier_lines(fewer) + last);
        lemma_between(seq![], modifier_lines(fewer), last);
        lemma_occurs_within(" "@ + mods[i] + ",\n"@, modifier_lines(fewer), lines);
    }
}

/// Lines for modifiers follow each other in the order of the modifiers.
pub proof fn law_modifier_lines_follow_each_other(mods: Seq<Seq<char>>, m: Seq<char>)
    ensures
        modifier_lines(seq![]).len() == 0,
        modifier_lines(mods.push(m)) == modifier_lines(mods) + "            "@ + m + ",\n"@,
{
    assert(mods.push(m).drop_last() =~= mods);
}

/// A file takes an entry exactly if it is blank or holds a list: then what is written holds the
/// entry whole, and otherwise the file's path and the trouble are told.
pub proof fn law_entry_is_written_whole(
    existing: Seq<char>,
    entry: Seq<char>,
    open: char,
    close: char,
    path: Seq<char>,
    why: Seq<char>,
)
    ensures
        file_trouble(path, why) == ErrorView::Wayland(path + ": "@ + why),
        with_entry(existing, entry, open, close, path) is Ok <==> ron::takes_entries(
            existing,
            open,
            close,
        ),
        with_entry(existing, entry, open, close, path) matches Ok(written) ==> text::occurs(
            entry,
            written,
        ),
        with_entry(existing, entry, open, close, path) matches Err(e) ==> e == ErrorView::Wayland(
            path + ": "@ + "no closing bracket to add an entry before"@,
        ),
{
    let head = ron::head_of(existing, open, close) + seq!['\n'];
    let tail = seq![close, '\n'];
    assert(ron::inserted(existing, entry, open, close) =~= head + entry + tail);
    lemma_between(head, entry, tail);
}

/// A shortcut is written for the key and the modifiers that its combination names and for the
/// menu that is given. Without a key it is refused, and the combination is told as it is shown.
pub proof fn law_shortcut_is_written_for_its_keys(
    combo: Seq<char>,
    shown: Seq<char>,
    menu: Seq<char>,
    existing: Seq<char>,
    path: Seq<char>,
)
    ensures
        ({
            let parts = text::pieces(combo, '+');
            let key = key_in(parts);
            let mods = modifiers(parts);
            &&& with_shortcut(combo, shown, menu, existing, path) matches Ok(written) ==> key.len()
                > 0 && text::occurs(shortcut_entry(mods, key, menu), written)
            &&& key.len() == 0 ==> with_shortcut(combo, shown, menu, existing, path) == Err::<
                Seq<char>,
                _,
            >(ErrorView::Wayland("no key in shortcut "@ + shown))
            &&& key.len() > 0 ==> (with_shortcut(combo, shown, menu, existing, path) is Ok
                <==> ron::takes_entries(existing, '{', '}'))
        }),
{
    let parts = text::pieces(combo, '+');
    law_entry_is_written_whole(
        existing,
        shortcut_entry(modifiers(parts), key_in(parts), menu),
        '{',
        '}',
        path,
        seq![],
    );
}

/// A file has the rule exactly if it names Kando's window anywhere, and a shortcut exactly if
/// it names Kando anywhere; a file that is not there has neither. So one with the rule has a
/// shortcut's word too.
pub proof fn law_files_are_searched_whole(before: Seq<char>, after: Seq<char>, file: Seq<char>)
    ensures
        !has_rule(None),
        !has_shortcut(None),
        has_rule(Some(before + "menu.kando.Kando"@ + after)),
        has_shortcut(Some(before + "kando"@ + after)),
        has_rule(Some(file)) ==> text::occurs("menu.kando.Kando"@, file),
        has_shortcut(Some(file)) ==> text::occurs("kando"@, file),
        has_rule(Some(file)) ==> has_shortcut(Some(file)),
{
    lemma_between(before, "menu.kando.Kando"@, after);
    lemma_between(before, "kando"@, after);
    if has_rule(Some(file)) {
        let whole = "menu.kando.Kando"@;
        reveal_strlit("menu.kando.Kando");
        reveal_strlit("kando");
        assert(whole.subrange(5, 10) =~= "kando"@);
        assert(text::occurs_at("kando"@, whole, 5));
        lemma_occurs_within("kando"@, whole, file);
    }
}

} // verus!
