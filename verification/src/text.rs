//! Strings as sequences of characters: comparing, trimming, splitting and searching.

use vstd::prelude::*;

verus! {

/// `String::push` appends one character to the string and keeps what was there.
pub assume_specification[ String::push ](s: &mut String, c: char)
    ensures
        final(s)@ == old(s)@.push(c),
;

/// The characters with Unicode's `White_Space` property.
pub open spec fn white_space(c: char) -> bool {
    let p = c as u32;
    ||| 0x09 <= p <= 0x0d
    ||| p == 0x20
    ||| p == 0x85
    ||| p == 0xa0
    ||| p == 0x1680
    ||| 0x2000 <= p <= 0x200a
    ||| p == 0x2028
    ||| p == 0x2029
    ||| p == 0x202f
    ||| p == 0x205f
    ||| p == 0x3000
}

/// `char::is_whitespace` tells whether the character has the `White_Space` property, that
/// is, whether it is one of the characters that the property lists.
pub assume_specification[ char::is_whitespace ](c: char) -> (r: bool)
    ensures
        r == white_space(c),
;

/// The lower-case form of an ASCII letter; any other character as it is.
pub open spec fn lower(c: char) -> char {
    if 'A' <= c <= 'Z' {
        (c as u32 + 32) as char
    } else {
        c
    }
}

/// A string with its ASCII letters in lower case.
pub open spec fn lowercase(s: Seq<char>) -> Seq<char> {
    s.map_values(|c: char| lower(c))
}

/// Whether two strings are equal up to the case of their ASCII letters.
pub open spec fn same_letters(a: Seq<char>, b: Seq<char>) -> bool {
    lowercase(a) == lowercase(b)
}

/// A string without its leading white space.
pub open spec fn trim_start(s: Seq<char>) -> Seq<char>
    decreases s.len(),
{
    if s.len() > 0 && white_space(s[0]) {
        trim_start(s.skip(1))
    } else {
        s
    }
}

/// A string without its trailing white space.
pub open spec fn trim_end(s: Seq<char>) -> Seq<char>
    decreases s.len(),
{
    if s.len() > 0 && white_space(s.last()) {
        trim_end(s.drop_last())
    } else {
        s
    }
}

/// A string without the white space at its two ends.
pub open spec fn trim(s: Seq<char>) -> Seq<char> {
    trim_end(trim_start(s))
}

/// The index of the first `c` in `s`, or the length of `s`.
pub open spec fn position(s: Seq<char>, c: char) -> int
    decreases s.len(),
{
    if s.len() == 0 || s[0] == c {
        0
    } else {
        1 + position(s.skip(1), c)
    }
}

/// The pieces of `s` between the occurrences of `sep`.
pub open spec fn split(s: Seq<char>, sep: char) -> Seq<Seq<char>>
    decreases s.len(),
{
    proof {
        lemma_position(s, sep);
    }
    let i = position(s, sep);
    if i == s.len() {
        seq![s]
    } else {
        seq![s.take(i)] + split(s.skip(i + 1), sep)
    }
}

/// Whether `part` occurs in `s`.
pub open spec fn occurs(part: Seq<char>, s: Seq<char>) -> bool {
    exists|i: int| occurs_at(part, s, i)
}

/// Whether `part` stands in `s` at index `i`.
pub open spec fn occurs_at(part: Seq<char>, s: Seq<char>, i: int) -> bool {
    0 <= i && i + part.len() <= s.len() && s.subrange(i, i + part.len()) == part
}

/// The position of a character is an index of the string, or its length.
pub proof fn lemma_position(s: Seq<char>, c: char)
    ensures
        0 <= position(s, c) <= s.len(),
        position(s, c) < s.len() ==> s[position(s, c)] == c,
        forall|j: int| 0 <= j < position(s, c) ==> s[j] != c,
    decreases s.len(),
{
    if s.len() != 0 && s[0] != c {
        lemma_position(s.skip(1), c);
        assert forall|j: int| 0 <= j < position(s, c) implies s[j] != c by {
            if j > 0 {
                assert(s[j] == s.skip(1)[j - 1]);
            }
        }
    }
}

/// The position of a character is the only index with the properties of one.
pub proof fn lemma_position_is(s: Seq<char>, c: char, i: int)
    requires
        0 <= i <= s.len(),
        i < s.len() ==> s[i] == c,
        forall|j: int| 0 <= j < i ==> s[j] != c,
    ensures
        position(s, c) == i,
{
    lemma_position(s, c);
    let p = position(s, c);
    if p < i {
        assert(s[p] != c);
    }
}

/// Trimming the start leaves a suffix that does not begin with white space.
pub proof fn lemma_trim_start(s: Seq<char>)
    ensures
        trim_start(s).len() <= s.len(),
        trim_start(s) == s.skip(s.len() - trim_start(s).len()),
        trim_start(s).len() > 0 ==> !white_space(trim_start(s)[0]),
    decreases s.len(),
{
    if s.len() > 0 && white_space(s[0]) {
        lemma_trim_start(s.skip(1));
    }
    assert(trim_start(s) =~= s.skip(s.len() - trim_start(s).len()));
}

/// Trimming the end leaves a prefix that does not end with white space.
pub proof fn lemma_trim_end(s: Seq<char>)
    ensures
        trim_end(s).len() <= s.len(),
        trim_end(s) == s.take(trim_end(s).len() as int),
        trim_end(s).len() > 0 ==> !white_space(trim_end(s).last()),
    decreases s.len(),
{
    if s.len() > 0 && white_space(s.last()) {
        lemma_trim_end(s.drop_last());
    }
    assert(trim_end(s) =~= s.take(trim_end(s).len() as int));
}

/// The lower-case form of an ASCII letter; any other character as it is.
pub fn to_lower(c: char) -> (r: char)
    ensures
        r == lower(c),
{
    if 'A' <= c && c <= 'Z' {
        (c as u8 + 32) as char
    } else {
        c
    }
}

/// The characters of a string.
pub fn chars_of(s: &str) -> (r: Vec<char>)
    ensures
        r@ == s@,
{
    let mut v: Vec<char> = Vec::new();
    for c in it: s.chars()
        invariant
            v@ == it.seq().take(it.index() as int),
            it.seq() == s@,
    {
        v.push(c);
    }
    v
}

/// The string that the characters from `from` up to `to` make.
pub fn string_of(v: &Vec<char>, from: usize, to: usize) -> (r: String)
    requires
        from <= to <= v@.len(),
    ensures
        r@ == v@.subrange(from as int, to as int),
{
    let mut s = String::new();
    let mut i: usize = from;
    while i < to
        invariant
            from <= i <= to <= v@.len(),
            s@ == v@.subrange(from as int, i as int),
        decreases to - i,
    {
        s.push(v[i]);
        i += 1;
        assert(s@ =~= v@.subrange(from as int, i as int));
    }
    s
}

/// Whether two strings hold the same characters.
pub fn same(a: &str, b: &str) -> (r: bool)
    ensures
        r == (a@ == b@),
{
    a.to_owned() == b.to_owned()
}

/// A string with its ASCII letters in lower case.
pub fn to_ascii_lowercase(s: &str) -> (r: String)
    ensures
        r@ == lowercase(s@),
{
    let v = chars_of(s);
    let mut r = String::new();
    let mut i: usize = 0;
    while i < v.len()
        invariant
            i <= v@.len(),
            v@ == s@,
            r@ == lowercase(s@.take(i as int)),
        decreases v@.len() - i,
    {
        r.push(to_lower(v[i]));
        i += 1;
        assert(r@ =~= lowercase(s@.take(i as int)));
    }
    assert(s@.take(i as int) =~= s@);
    r
}

/// Whether two strings are equal up to the case of their ASCII letters.
pub fn eq_ignore_ascii_case(a: &str, b: &str) -> (r: bool)
    ensures
        r == same_letters(a@, b@),
{
    to_ascii_lowercase(a) == to_ascii_lowercase(b)
}

proof fn lemma_trim_end_step(s: Seq<char>, to: int)
    requires
        0 < to <= s.len(),
        white_space(s[to - 1]),
    ensures
        trim_end(s.take(to)) == trim_end(s.take(to - 1)),
{
    assert(s.take(to).drop_last() =~= s.take(to - 1));
}

/// The index behind the last character of the first `len` that is not white space.
pub fn trimmed_end(v: &Vec<char>, len: usize) -> (to: usize)
    requires
        len <= v@.len(),
    ensures
        to <= len,
        v@.take(to as int) == trim_end(v@.take(len as int)),
{
    let mut to: usize = len;
    while to > 0 && v[to - 1].is_whitespace()
        invariant
            to <= len <= v@.len(),
            trim_end(v@.take(to as int)) == trim_end(v@.take(len as int)),
        decreases to,
    {
        proof {
            lemma_trim_end_step(v@, to as int);
        }
        to -= 1;
    }
    to
}

/// The index of the first character that is not white space.
pub fn trimmed_start(v: &Vec<char>) -> (from: usize)
    ensures
        from <= v@.len(),
        v@.skip(from as int) == trim_start(v@),
{
    let mut from: usize = 0;
    assert(v@.skip(0) =~= v@);
    while from < v.len() && v[from].is_whitespace()
        invariant
            from <= v@.len(),
            trim_start(v@.skip(from as int)) == trim_start(v@),
        decreases v@.len() - from,
    {
        assert(v@.skip(from as int).skip(1) =~= v@.skip(from + 1));
        from += 1;
    }
    from
}

/// A string without the white space at its ends.
pub fn trimmed(s: &str) -> (r: String)
    ensures
        r@ == trim(s@),
{
    let v = chars_of(s);
    let from = trimmed_start(&v);
    let mut to: usize = v.len();
    assert(v@.subrange(from as int, to as int) =~= v@.skip(from as int));
    while to > from && v[to - 1].is_whitespace()
        invariant
            from <= to <= v@.len(),
            trim_end(v@.subrange(from as int, to as int)) == trim_end(v@.skip(from as int)),
        decreases to,
    {
        assert(v@.subrange(from as int, to as int).drop_last() =~= v@.subrange(
            from as int,
            to - 1,
        ));
        to -= 1;
    }
    string_of(&v, from, to)
}

/// The index of the first `c` at or behind `from`, or the length.
pub fn find_char(v: &Vec<char>, from: usize, c: char) -> (r: usize)
    requires
        from <= v@.len(),
    ensures
        from <= r <= v@.len(),
        r == from + position(v@.skip(from as int), c),
{
    let mut i: usize = from;
    while i < v.len() && v[i] != c
        invariant
            from <= i <= v@.len(),
            forall|j: int| from <= j < i ==> v@[j] != c,
        decreases v@.len() - i,
    {
        i += 1;
    }
    proof {
        lemma_position_is(v@.skip(from as int), c, i - from);
    }
    i
}

/// The views of a list of strings.
pub open spec fn views(v: Seq<String>) -> Seq<Seq<char>> {
    v.map_values(|s: String| s@)
}

/// The pieces of a string between the occurrences of `sep`.
pub fn split_at_char(s: &str, sep: char) -> (r: Vec<String>)
    ensures
        views(r@) == split(s@, sep),
{
    let v = chars_of(s);
    let mut r: Vec<String> = Vec::new();
    let mut from: usize = 0;
    assert(v@.skip(0) =~= v@);
    assert(views(r@) + split(v@, sep) =~= split(v@, sep));
    loop
        invariant_except_break
            from <= v@.len(),
            views(r@) + split(v@.skip(from as int), sep) == split(v@, sep),
        ensures
            views(r@) == split(v@, sep),
        decreases v@.len() - from,
    {
        let to = find_char(&v, from, sep);
        let ghost rest = v@.skip(from as int);
        let ghost before = views(r@);
        let piece = string_of(&v, from, to);
        assert(piece@ =~= rest.take(to - from));
        r.push(piece);
        assert(views(r@) =~= before + seq![piece@]);
        if to == v.len() {
            assert(rest.take(to - from) =~= rest);
            assert(split(rest, sep) =~= seq![piece@]);
            break;
        }
        assert(rest.skip(to - from + 1) =~= v@.skip(to + 1));
        assert(split(rest, sep) =~= seq![piece@] + split(v@.skip(to + 1), sep));
        assert(views(r@) + split(v@.skip(to + 1), sep) =~= before + split(rest, sep));
        from = to + 1;
    }
    r
}

/// Whether `part` occurs in `s`.
pub fn contains(s: &str, part: &str) -> (r: bool)
    ensures
        r == occurs(part@, s@),
{
    let v = chars_of(s);
    let p = chars_of(part);
    if p.len() > v.len() {
        return false;
    }
    let last = v.len() - p.len();
    let mut i: usize = 0;
    while i < last
        invariant
            i <= last,
            last + p@.len() == v@.len(),
            v@ == s@,
            p@ == part@,
            forall|k: int| 0 <= k < i ==> !occurs_at(part@, s@, k),
        decreases last - i,
    {
        if stands_at(&v, &p, i) {
            assert(occurs_at(part@, s@, i as int));
            return true;
        }
        i += 1;
    }
    let r = stands_at(&v, &p, last);
    assert(r == occurs_at(part@, s@, last as int));
    r
}

fn stands_at(v: &Vec<char>, p: &Vec<char>, at: usize) -> (r: bool)
    requires
        at + p@.len() <= v@.len(),
    ensures
        r == occurs_at(p@, v@, at as int),
{
    let n = v.len();
    let mut j: usize = 0;
    while j < p.len()
        invariant
            j <= p@.len(),
            at + p@.len() <= v@.len(),
            n == v@.len(),
            forall|k: int| 0 <= k < j ==> v@[at + k] == p@[k],
        decreases p@.len() - j,
    {
        if v[at + j] != p[j] {
            assert(v@.subrange(at as int, at + p@.len())[j as int] != p@[j as int]);
            return false;
        }
        j += 1;
    }
    assert(v@.subrange(at as int, at + p@.len()) =~= p@);
    true
}

/// Whether a string begins with another.
pub open spec fn begins_with(s: Seq<char>, start: Seq<char>) -> bool {
    occurs_at(start, s, 0)
}

/// Whether a string begins with another.
pub fn starts_with(s: &str, start: &str) -> (r: bool)
    ensures
        r == begins_with(s@, start@),
{
    let v = chars_of(s);
    let p = chars_of(start);
    p.len() <= v.len() && stands_at(&v, &p, 0)
}

/// Whether a string is not empty.
pub open spec fn is_filled() -> spec_fn(Seq<char>) -> bool {
    |s: Seq<char>| s.len() > 0
}

/// The pieces of a string between the occurrences of `sep`, without the white space round
/// them; those of which nothing is left are left out.
pub open spec fn pieces(s: Seq<char>, sep: char) -> Seq<Seq<char>> {
    split(s, sep).map_values(|p: Seq<char>| trim(p)).filter(is_filled())
}

/// The pieces of a string between the occurrences of `sep`, without the white space round
/// them and without empty ones.
pub fn trimmed_pieces(s: &str, sep: char) -> (r: Vec<String>)
    ensures
        views(r@) == pieces(s@, sep),
{
    let all = split_at_char(s, sep);
    let ghost trims = split(s@, sep).map_values(|p: Seq<char>| trim(p));
    let mut r: Vec<String> = Vec::new();
    let mut i: usize = 0;
    proof {
        reveal(Seq::filter);
    }
    assert(views(r@) =~= trims.take(0).filter(is_filled()));
    while i < all.len()
        invariant
            i <= all@.len(),
            views(all@) == split(s@, sep),
            trims == split(s@, sep).map_values(|p: Seq<char>| trim(p)),
            views(r@) == trims.take(i as int).filter(is_filled()),
        decreases all@.len() - i,
    {
        let ghost before = views(r@);
        proof {
            reveal(Seq::filter);
            assert(trims.take(i + 1).drop_last() =~= trims.take(i as int));
            assert(views(all@)[i as int] == all@[i as int]@);
        }
        let piece = trimmed(&all[i]);
        if !piece.as_str().is_empty() {
            r.push(piece);
            assert(views(r@) =~= before.push(piece@));
        }
        i += 1;
    }
    assert(trims.take(i as int) =~= trims);
    r
}

/// Letters are told apart up to their case, and nothing else is: two different characters have
/// the same lower-case form exactly if they are the two forms of one ASCII letter. Lower case
/// is its own lower case.
pub proof fn law_only_the_case_of_letters_is_dropped(a: char, b: char)
    ensures
        lower(lower(a)) == lower(a),
        !('A' <= lower(a) <= 'Z'),
        lower(a) == lower(b) <==> a == b || ('A' <= a <= 'Z' && b as u32 == a as u32 + 32) || ('A'
            <= b <= 'Z' && a as u32 == b as u32 + 32),
{
    assert('A' as u32 == 65 && 'Z' as u32 == 90 && 'a' as u32 == 97 && 'z' as u32 == 122);
}

/// Being the same up to case is an equivalence, it keeps the length, and it is decided
/// character by character.
pub proof fn law_case_is_dropped_letter_by_letter(a: Seq<char>, b: Seq<char>, c: Seq<char>)
    ensures
        same_letters(a, a),
        same_letters(a, b) ==> same_letters(b, a),
        same_letters(a, b) && same_letters(b, c) ==> same_letters(a, c),
        same_letters(a, lowercase(a)),
        same_letters(a, b) <==> a.len() == b.len() && forall|i: int|
            0 <= i < a.len() ==> lower(#[trigger] a[i]) == lower(b[i]),
        lowercase(a).len() == a.len(),
        forall|i: int| 0 <= i < a.len() ==> lowercase(a)[i] == lower(#[trigger] a[i]),
{
    assert(lowercase(lowercase(a)) =~= lowercase(a)) by {
        assert forall|i: int| 0 <= i < a.len() implies lower(lower(#[trigger] a[i])) == lower(
            a[i],
        ) by {
            law_only_the_case_of_letters_is_dropped(a[i], a[i]);
        }
    }
    if same_letters(a, b) {
        assert(lowercase(a).len() == lowercase(b).len());
        assert forall|i: int| 0 <= i < a.len() implies lower(#[trigger] a[i]) == lower(b[i]) by {
            assert(lowercase(a)[i] == lowercase(b)[i]);
        }
    }
    if a.len() == b.len() && forall|i: int|
        0 <= i < a.len() ==> lower(#[trigger] a[i]) == lower(b[i]) {
        assert(lowercase(a) =~= lowercase(b));
    }
}

/// What is split at a separator is split before it and behind it, each by itself; without a
/// separator it is one piece.
pub proof fn law_split_is_taken_apart(a: Seq<char>, b: Seq<char>, sep: char)
    ensures
        split(a + seq![sep] + b, sep) == split(a, sep) + split(b, sep),
        !a.contains(sep) ==> split(a, sep) == seq![a],
    decreases a.len(),
{
    let s = a + seq![sep] + b;
    lemma_position(a, sep);
    let i = position(a, sep);
    if i == a.len() {
        assert(forall|j: int| 0 <= j < i ==> s[j] == a[j]);
        lemma_position_is(s, sep, i);
        assert(s.take(i) =~= a);
        assert(s.skip(i + 1) =~= b);
    } else {
        assert(a.contains(a[i]));
        assert(forall|j: int| 0 <= j <= i ==> s[j] == a[j]);
        lemma_position_is(s, sep, i);
        let rest = a.skip(i + 1);
        law_split_is_taken_apart(rest, b, sep);
        assert(s.take(i) =~= a.take(i));
        assert(s.skip(i + 1) =~= rest + seq![sep] + b);
        assert(split(s, sep) =~= split(a, sep) + split(b, sep));
    }
}

/// Splitting loses nothing: no piece holds a separator, and there is one piece more than there
/// are separators.
pub proof fn law_pieces_hold_no_separator(s: Seq<char>, sep: char)
    ensures
        split(s, sep).len() == s.filter(|c: char| c == sep).len() + 1,
        forall|i: int|
            0 <= i < split(s, sep).len() ==> !(#[trigger] split(s, sep)[i]).contains(sep),
    decreases s.len(),
{
    reveal(Seq::filter);
    let p = |c: char| c == sep;
    lemma_position(s, sep);
    let i = position(s, sep);
    if i == s.len() {
        assert forall|j: int| 0 <= j < s.len() implies !p(#[trigger] s[j]) by {
        }
        s.lemma_all_neg_filter_empty(p);
        assert forall|j: int| 0 <= j < split(s, sep).len() implies !(#[trigger] split(
            s,
            sep,
        )[j]).contains(sep) by {
            assert(split(s, sep)[j] == s);
        }
    } else {
        let rest = s.skip(i + 1);
        let head = s.take(i);
        law_pieces_hold_no_separator(rest, sep);
        assert(s =~= head + seq![sep] + rest);
        Seq::filter_distributes_over_add(head + seq![sep], rest, p);
        Seq::filter_distributes_over_add(head, seq![sep], p);
        assert forall|j: int| 0 <= j < head.len() implies !p(#[trigger] head[j]) by {
            assert(head[j] == s[j]);
        }
        head.lemma_all_neg_filter_empty(p);
        assert(seq![sep].filter(p) =~= seq![sep]) by {
            assert(seq![sep].drop_last() =~= seq![]);
            assert(Seq::<char>::empty().filter(p) =~= Seq::<char>::empty());
        }
        assert forall|j: int| 0 <= j < split(s, sep).len() implies !(#[trigger] split(
            s,
            sep,
        )[j]).contains(sep) by {
            if j == 0 {
                assert(split(s, sep)[j] == head);
                assert(forall|m: int| 0 <= m < head.len() ==> head[m] == s[m]);
            } else {
                assert(split(s, sep)[j] == split(rest, sep)[j - 1]);
            }
        }
    }
}

proof fn lemma_trim_start_of(blank: Seq<char>, s: Seq<char>)
    requires
        forall|i: int| 0 <= i < blank.len() ==> white_space(#[trigger] blank[i]),
    ensures
        trim_start(blank + s) == trim_start(s),
    decreases blank.len(),
{
    if blank.len() == 0 {
        assert(blank + s =~= s);
    } else {
        let rest = blank.skip(1);
        assert forall|i: int| 0 <= i < rest.len() implies white_space(#[trigger] rest[i]) by {
            assert(rest[i] == blank[i + 1]);
        }
        lemma_trim_start_of(rest, s);
        assert((blank + s)[0] == blank[0]);
        assert((blank + s).skip(1) =~= rest + s);
    }
}

proof fn lemma_trim_end_of(s: Seq<char>, blank: Seq<char>)
    requires
        forall|i: int| 0 <= i < blank.len() ==> white_space(#[trigger] blank[i]),
    ensures
        trim_end(s + blank) == trim_end(s),
    decreases blank.len(),
{
    if blank.len() == 0 {
        assert(s + blank =~= s);
    } else {
        let rest = blank.drop_last();
        assert forall|i: int| 0 <= i < rest.len() implies white_space(#[trigger] rest[i]) by {
            assert(rest[i] == blank[i]);
        }
        lemma_trim_end_of(s, rest);
        assert((s + blank).last() == blank[blank.len() - 1]);
        assert((s + blank).drop_last() =~= s + rest);
    }
}

/// Trimming takes the white space off both ends and nothing else: what neither begins nor ends
/// with white space is what is left of it with any white space around.
pub proof fn law_white_space_around_is_trimmed(before: Seq<char>, s: Seq<char>, after: Seq<char>)
    requires
        forall|i: int| 0 <= i < before.len() ==> white_space(#[trigger] before[i]),
        forall|i: int| 0 <= i < after.len() ==> white_space(#[trigger] after[i]),
        s.len() > 0 ==> !white_space(s[0]) && !white_space(s.last()),
    ensures
        trim(before + s + after) == s,
        s.len() > 0 ==> trim_start(before + s + after) == s + after,
        trim_end(before + s + after) == trim_end(before + s),
        s.len() > 0 ==> trim_end(before + s + after) == before + s,
{
    assert(before + s + after =~= before + (s + after));
    lemma_trim_start_of(before, s + after);
    lemma_trim_end_of(before + s, after);
    if s.len() > 0 {
        assert((s + after)[0] == s[0]);
        lemma_trim_end_of(s, after);
        assert((before + s).last() == s.last());
    } else {
        assert(s + after =~= after + Seq::<char>::empty());
        lemma_trim_start_of(after, Seq::empty());
        assert(trim(before + s + after) =~= s);
    }
}

/// The pieces between separators are trimmed, and the empty ones are left out: what stands
/// before a separator and what stands behind it give their pieces apart, in this order.
pub proof fn law_pieces_are_trimmed_and_filled(a: Seq<char>, b: Seq<char>, sep: char)
    ensures
        pieces(a + seq![sep] + b, sep) == pieces(a, sep) + pieces(b, sep),
        !a.contains(sep) && trim(a).len() > 0 ==> pieces(a, sep) == seq![trim(a)],
        !a.contains(sep) && trim(a).len() == 0 ==> pieces(a, sep).len() == 0,
{
    reveal(Seq::filter);
    let f = |p: Seq<char>| trim(p);
    law_split_is_taken_apart(a, b, sep);
    assert(split(a + seq![sep] + b, sep).map_values(f) =~= split(a, sep).map_values(f) + split(
        b,
        sep,
    ).map_values(f));
    Seq::filter_distributes_over_add(
        split(a, sep).map_values(f),
        split(b, sep).map_values(f),
        is_filled(),
    );
    if !a.contains(sep) {
        let one = seq![trim(a)];
        assert(split(a, sep).map_values(f) =~= one);
        assert(one.drop_last() =~= seq![]);
        assert(Seq::<Seq<char>>::empty().filter(is_filled()) =~= Seq::<Seq<char>>::empty());
        assert(trim(a).len() > 0 ==> pieces(a, sep) =~= one);
    }
}

/// A text occurs in another exactly if that is the text with something before and behind it,
/// and stands at its beginning exactly if it is the text with something behind it.
pub proof fn law_occurring_is_standing_between(part: Seq<char>, s: Seq<char>)
    ensures
        occurs(part, s) <==> exists|before: Seq<char>, after: Seq<char>|
            s == #[trigger] (before + part + after),
        begins_with(s, part) <==> exists|after: Seq<char>| s == #[trigger] (part + after),
{
    if occurs(part, s) {
        let i = choose|i: int| occurs_at(part, s, i);
        assert(s =~= s.take(i) + part + s.skip(i + part.len()));
    }
    if exists|before: Seq<char>, after: Seq<char>| s == #[trigger] (before + part + after) {
        let (before, after) = choose|before: Seq<char>, after: Seq<char>|
            s == #[trigger] (before + part + after);
        assert(s.subrange(before.len() as int, (before.len() + part.len()) as int) =~= part);
        assert(occurs_at(part, s, before.len() as int));
    }
    if begins_with(s, part) {
        assert(s =~= part + s.skip(part.len() as int));
    }
    if exists|after: Seq<char>| s == #[trigger] (part + after) {
        let after = choose|after: Seq<char>| s == #[trigger] (part + after);
        assert(s.subrange(0, part.len() as int) =~= part);
    }
}

} // verus!
