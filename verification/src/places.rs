//! Where the configuration files and the programs are. Paths are sequences of bytes, as the
//! system has them.

use crate::search;
use vstd::prelude::*;

verus! {

/// The byte that separates the parts of a path.
pub const SLASH: u8 = 47;

/// The byte that separates the directories of a search path.
pub const COLON: u8 = 58;

/// The bytes of a text.
pub open spec fn bytes(text: Seq<char>) -> Seq<u8> {
    vstd::utf8::encode_utf8(text)
}

/// The path of `name` below a directory; an absolute one stands for itself.
pub open spec fn below(dir: Seq<u8>, name: Seq<u8>) -> Seq<u8> {
    if name.len() > 0 && name[0] == SLASH {
        name
    } else if dir.len() == 0 || dir.last() == SLASH {
        dir + name
    } else {
        dir.push(SLASH) + name
    }
}

/// The directory of configuration files: the one that the environment names, otherwise the
/// one in the home directory.
pub open spec fn config_dir(xdg: Option<Seq<u8>>, home: Option<Seq<u8>>) -> Seq<u8> {
    match xdg {
        Some(dir) => dir,
        None => match home {
            Some(dir) => below(dir, bytes(".config"@)),
            None => seq![],
        },
    }
}

/// The view of an optional path.
pub open spec fn path_view(path: Option<Vec<u8>>) -> Option<Seq<u8>> {
    match path {
        Some(p) => Some(p@),
        None => None,
    }
}

fn join(dir: &Vec<u8>, name: &str) -> (r: Vec<u8>)
    ensures
        r@ == below(dir@, bytes(name@)),
{
    let name = name.as_bytes();
    let mut r: Vec<u8> = Vec::new();
    if !(name.len() > 0 && name[0] == SLASH) {
        let mut i: usize = 0;
        while i < dir.len()
            invariant
                i <= dir@.len(),
                r@ == dir@.take(i as int),
            decreases dir@.len() - i,
        {
            r.push(dir[i]);
            i += 1;
        }
        assert(dir@.take(i as int) =~= dir@);
        if dir.len() > 0 && dir[dir.len() - 1] != SLASH {
            r.push(SLASH);
        }
    }
    let ghost start = r@;
    let mut i: usize = 0;
    assert(start + name@.take(0) =~= start);
    while i < name.len()
        invariant
            i <= name@.len(),
            r@ == start + name@.take(i as int),
        decreases name@.len() - i,
    {
        r.push(name[i]);
        i += 1;
        assert(r@ =~= start + name@.take(i as int));
    }
    assert(name@.take(i as int) =~= name@);
    assert(seq![] + name@ =~= name@);
    r
}

/// The directory of configuration files, given what the environment holds.
pub fn config_home(xdg: Option<Vec<u8>>, home: Option<Vec<u8>>) -> (r: Vec<u8>)
    ensures
        r@ == config_dir(path_view(xdg), path_view(home)),
{
    match xdg {
        Some(dir) => dir,
        None => match home {
            Some(dir) => join(&dir, ".config"),
            None => Vec::new(),
        },
    }
}

/// Where COSMIC keeps its exceptions from tiling.
pub fn rule_path(config: &Vec<u8>) -> (r: Vec<u8>)
    ensures
        r@ == below(
            config@,
            bytes("cosmic/com.system76.CosmicSettings.WindowRules/v1/tiling_exception_custom"@),
        ),
{
    join(config, "cosmic/com.system76.CosmicSettings.WindowRules/v1/tiling_exception_custom")
}

/// Where COSMIC keeps the user's keyboard shortcuts.
pub fn shortcuts_path(config: &Vec<u8>) -> (r: Vec<u8>)
    ensures
        r@ == below(
            config@,
            bytes("cosmic/com.system76.CosmicSettings.Shortcuts/v1/custom"@),
        ),
{
    join(config, "cosmic/com.system76.CosmicSettings.Shortcuts/v1/custom")
}

/// Where the names of the workspaces are kept.
pub fn names_path(config: &Vec<u8>) -> (r: Vec<u8>)
    ensures
        r@ == below(below(config@, bytes("kando-cosmic-helper"@)), bytes("workspaces"@)),
{
    join(&join(config, "kando-cosmic-helper"), "workspaces")
}

/// Whether a byte separates the directories of a search path.
pub open spec fn is_colon() -> spec_fn(u8) -> bool {
    |b: u8| b == COLON
}

/// The directories of a search path.
pub open spec fn directories(path: Seq<u8>) -> Seq<Seq<u8>>
    decreases path.len(),
{
    proof {
        search::lemma_first_index(path, is_colon());
    }
    let i = search::first_index(path, is_colon());
    if i == path.len() {
        seq![path]
    } else {
        seq![path.take(i)] + directories(path.skip(i + 1))
    }
}

/// The contents of a list of paths.
pub open spec fn path_views(paths: Seq<Vec<u8>>) -> Seq<Seq<u8>> {
    paths.map_values(|p: Vec<u8>| p@)
}

/// The places where a program can be, in the order of the search path.
pub fn on_path(path: &Vec<u8>, bin: &str) -> (r: Vec<Vec<u8>>)
    ensures
        path_views(r@) == directories(path@).map_values(
            |dir: Seq<u8>| below(dir, bytes(bin@)),
        ),
{
    let ghost place = |dir: Seq<u8>| below(dir, bytes(bin@));
    let mut r: Vec<Vec<u8>> = Vec::new();
    let mut dir: Vec<u8> = Vec::new();
    let mut from: usize = 0;
    let mut i: usize = 0;
    assert(path@.skip(0) =~= path@);
    assert(path@.subrange(0, 0) =~= dir@);
    assert(path_views(r@) + directories(path@).map_values(place) =~= directories(
        path@,
    ).map_values(place));
    while i < path.len()
        invariant
            from <= i <= path@.len(),
            place == (|dir: Seq<u8>| below(dir, bytes(bin@))),
            dir@ == path@.subrange(from as int, i as int),
            forall|j: int| from <= j < i ==> path@[j] != COLON,
            path_views(r@) + directories(path@.skip(from as int)).map_values(place)
                == directories(path@).map_values(place),
        decreases path@.len() - i,
    {
        if path[i] == COLON {
            let ghost before = path_views(r@);
            let ghost rest = path@.skip(from as int);
            proof {
                assert forall|j: int| 0 <= j < i - from implies !is_colon()(
                    #[trigger] rest[j],
                ) by {
                    assert(rest[j] == path@[from + j]);
                }
                search::lemma_first_index_is(rest, is_colon(), i - from);
                assert(rest.take(i - from) =~= dir@);
                assert(rest.skip(i - from + 1) =~= path@.skip(i + 1));
                let more = directories(path@.skip(i + 1));
                assert(directories(rest) =~= seq![dir@] + more);
                assert(directories(rest).map_values(place) =~= seq![place(dir@)]
                    + more.map_values(place));
            }
            let p = join(&dir, bin);
            r.push(p);
            proof {
                let more = directories(path@.skip(i + 1)).map_values(place);
                assert(path_views(r@) =~= before.push(p@));
                assert(path_views(r@) + more =~= before + (seq![p@] + more));
            }
            dir = Vec::new();
            from = i + 1;
        } else {
            dir.push(path[i]);
        }
        i += 1;
        assert(dir@ =~= path@.subrange(from as int, i as int));
    }
    let ghost before = path_views(r@);
    let ghost rest = path@.skip(from as int);
    proof {
        assert forall|j: int| 0 <= j < rest.len() implies !is_colon()(#[trigger] rest[j]) by {
            assert(rest[j] == path@[from + j]);
        }
        search::lemma_first_index_is(rest, is_colon(), rest.len() as int);
        assert(rest =~= dir@);
        assert(directories(rest).map_values(place) =~= seq![place(dir@)]);
    }
    let p = join(&dir, bin);
    r.push(p);
    assert(path_views(r@) =~= before + seq![p@]);
    r
}

/// A name is put below a directory with one slash between them, whether or not the directory
/// ends with one; an absolute name stands for itself, and so does a name below no directory.
pub proof fn law_names_are_put_below(dir: Seq<u8>, name: Seq<u8>)
    ensures
        name.len() > 0 && name[0] == SLASH ==> below(dir, name) == name,
        dir.len() == 0 ==> below(dir, name) == name,
        !(name.len() > 0 && name[0] == SLASH) && dir.len() > 0 && dir.last() != SLASH ==> below(
            dir,
            name,
        ) == dir + seq![SLASH] + name,
        !(name.len() > 0 && name[0] == SLASH) && dir.len() > 0 ==> below(dir.push(SLASH), name)
            == dir + seq![SLASH] + name,
        below(dir, name).len() >= name.len(),
        below(dir, name).skip(below(dir, name).len() - name.len()) == name,
        SLASH == '/' as u8,
{
    assert(dir.push(SLASH) =~= dir + seq![SLASH]);
    assert(dir.len() == 0 ==> dir + name =~= name);
    assert(below(dir, name).skip(below(dir, name).len() - name.len()) =~= name);
}

/// The configuration lies where it is said to lie, and otherwise in its usual place below the
/// home directory; where neither is known, paths are taken as they are.
pub proof fn law_configuration_lies_where_it_is_said(dir: Seq<u8>, home: Option<Seq<u8>>)
    ensures
        config_dir(Some(dir), home) == dir,
        config_dir(None, Some(dir)) == below(dir, bytes(".config"@)),
        config_dir(None, None).len() == 0,
{
}

/// The directories of a search path stand between its colons, in their order and with the empty
/// ones; a path without a colon is one directory.
pub proof fn law_search_path_is_taken_apart(a: Seq<u8>, b: Seq<u8>)
    ensures
        directories(a + seq![COLON] + b) == directories(a) + directories(b),
        !a.contains(COLON) ==> directories(a) == seq![a],
        COLON == ':' as u8,
    decreases a.len(),
{
    let s = a + seq![COLON] + b;
    search::lemma_first_index(a, is_colon());
    let i = search::first_index(a, is_colon());
    if i == a.len() {
        assert forall|j: int| 0 <= j < i implies !is_colon()(#[trigger] s[j]) by {
            assert(s[j] == a[j]);
        }
        search::lemma_first_index_is(s, is_colon(), i);
        assert(s.take(i) =~= a);
        assert(s.skip(i + 1) =~= b);
    } else {
        assert(a.contains(a[i]));
        assert forall|j: int| 0 <= j < i implies !is_colon()(#[trigger] s[j]) by {
            assert(s[j] == a[j]);
        }
        assert(s[i] == a[i]);
        search::lemma_first_index_is(s, is_colon(), i);
        let rest = a.skip(i + 1);
        law_search_path_is_taken_apart(rest, b);
        assert(s.take(i) =~= a.take(i));
        assert(s.skip(i + 1) =~= rest + seq![COLON] + b);
        assert(directories(s) =~= directories(a) + directories(b));
    }
}

} // verus!
