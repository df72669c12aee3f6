//! Adding entries to the lists and maps of COSMIC's configuration files.

use crate::text;
use vstd::prelude::*;

verus! {

/// The index of the last `c` in `s`, or -1.
pub open spec fn last_position(s: Seq<char>, c: char) -> int
    decreases s.len(),
{
    if s.len() == 0 {
        -1
    } else if s.last() == c {
        s.len() - 1
    } else {
        last_position(s.drop_last(), c)
    }
}

/// The index of the last closing bracket, or -1.
pub open spec fn closing(existing: Seq<char>, close: char) -> int {
    last_position(text::trim_end(existing), close)
}

/// Whether a comment begins that lasts to the end of its line.
pub open spec fn begins_line_comment(s: Seq<char>) -> bool {
    s.len() >= 2 && s[0] == '/' && s[1] == '/'
}

/// Whether a comment begins that lasts to its own end.
pub open spec fn begins_block_comment(s: Seq<char>) -> bool {
    s.len() >= 2 && s[0] == '/' && s[1] == '*'
}

/// Whether such a comment ends.
pub open spec fn ends_block_comment(s: Seq<char>) -> bool {
    s.len() >= 2 && s[0] == '*' && s[1] == '/'
}

/// Whether an attribute begins.
pub open spec fn begins_attribute(s: Seq<char>) -> bool {
    s.len() >= 3 && s[0] == '#' && s[1] == '!' && s[2] == '['
}

/// What stands behind the first `c`; nothing if there is none.
pub open spec fn behind(s: Seq<char>, c: char) -> Seq<char> {
    let i = text::position(s, c);
    if i < s.len() {
        s.skip(i + 1)
    } else {
        seq![]
    }
}

/// What stands behind the end of the block comments that are open, which may be nested;
/// nothing if they do not end.
pub open spec fn behind_blocks(s: Seq<char>, depth: nat) -> Seq<char>
    decreases s.len(),
{
    if depth == 0 || s.len() == 0 {
        s
    } else if ends_block_comment(s) {
        behind_blocks(s.skip(2), (depth - 1) as nat)
    } else if begins_block_comment(s) {
        behind_blocks(s.skip(2), depth + 1)
    } else {
        behind_blocks(s.skip(1), depth)
    }
}

/// The value of a file: what is left without the white space, comments and attributes before
/// it.
pub open spec fn value_of(s: Seq<char>) -> Seq<char>
    decreases s.len(),
{
    proof {
        text::lemma_position(s, '\n');
        text::lemma_position(s, ']');
        if s.len() >= 2 {
            lemma_behind_blocks(s.skip(2), 1);
        }
    }
    if s.len() == 0 {
        s
    } else if text::white_space(s[0]) {
        value_of(s.skip(1))
    } else if begins_line_comment(s) {
        value_of(behind(s, '\n'))
    } else if begins_block_comment(s) {
        value_of(behind_blocks(s.skip(2), 1))
    } else if begins_attribute(s) {
        value_of(behind(s, ']'))
    } else {
        s
    }
}

/// Where the value of a file begins.
pub open spec fn value_at(s: Seq<char>) -> int {
    s.len() - value_of(s).len()
}

/// Whether a text is a list or map: its value begins with the opening bracket, and the last
/// closing one stands behind that.
pub open spec fn is_list(existing: Seq<char>, open: char, close: char) -> bool {
    &&& value_of(existing).len() > 0
    &&& value_of(existing)[0] == open
    &&& value_at(existing) < closing(existing, close)
}

/// What stands behind block comments is the end of the text.
pub proof fn lemma_behind_blocks(s: Seq<char>, depth: nat)
    ensures
        behind_blocks(s, depth).len() <= s.len(),
        behind_blocks(s, depth) == s.skip(s.len() - behind_blocks(s, depth).len()),
    decreases s.len(),
{
    if depth == 0 || s.len() == 0 {
        assert(s.skip(0) =~= s);
    } else if ends_block_comment(s) {
        lemma_behind_blocks(s.skip(2), (depth - 1) as nat);
    } else if begins_block_comment(s) {
        lemma_behind_blocks(s.skip(2), depth + 1);
    } else {
        lemma_behind_blocks(s.skip(1), depth);
    }
    assert(behind_blocks(s, depth) =~= s.skip(s.len() - behind_blocks(s, depth).len()));
}

/// Whether a text holds nothing but white space.
pub open spec fn is_blank(existing: Seq<char>) -> bool {
    text::trim(existing).len() == 0
}

/// What stands before the last closing bracket, without the white space behind it.
pub open spec fn kept_part(existing: Seq<char>, close: char) -> Seq<char> {
    text::trim_end(existing.take(closing(existing, close)))
}

/// A text to which entries can be added: it ends with the opening bracket or with a comma.
pub open spec fn opened(head: Seq<char>, open: char) -> Seq<char> {
    if head.len() > 0 && (head.last() == open || head.last() == ',') {
        head
    } else {
        head.push(',')
    }
}

/// What stands before a new entry: what stood before the closing bracket, or the opening
/// bracket of a new list.
pub open spec fn head_of(existing: Seq<char>, open: char, close: char) -> Seq<char> {
    if is_list(existing, open, close) {
        opened(kept_part(existing, close), open)
    } else {
        seq![open]
    }
}

/// Whether an entry can be added to a text: it is a list or map, or it is blank.
pub open spec fn takes_entries(existing: Seq<char>, open: char, close: char) -> bool {
    is_list(existing, open, close) || is_blank(existing)
}

/// A list or map with an entry added at its end; a new one if the text is blank.
pub open spec fn inserted(
    existing: Seq<char>,
    entry: Seq<char>,
    open: char,
    close: char,
) -> Seq<char> {
    head_of(existing, open, close) + seq!['\n'] + entry + seq![close, '\n']
}

fn block_end(v: &Vec<char>, from: usize) -> (r: usize)
    requires
        from <= v@.len(),
    ensures
        from <= r <= v@.len(),
        v@.skip(r as int) == behind_blocks(v@.skip(from as int), 1),
{
    let n = v.len();
    let mut depth: usize = 1;
    let mut i: usize = from;
    while depth > 0 && i < n
        invariant
            n == v@.len(),
            from <= i <= n,
            depth <= 1 + i - from,
            behind_blocks(v@.skip(i as int), depth as nat) == behind_blocks(
                v@.skip(from as int),
                1,
            ),
        decreases n - i,
    {
        let ghost rest = v@.skip(i as int);
        assert(rest.skip(1) =~= v@.skip(i + 1));
        if i + 1 < n && v[i] == '*' && v[i + 1] == '/' {
            assert(ends_block_comment(rest));
            assert(rest.skip(2) =~= v@.skip(i + 2));
            depth -= 1;
            i += 2;
        } else if i + 1 < n && v[i] == '/' && v[i + 1] == '*' {
            assert(begins_block_comment(rest));
            assert(rest.skip(2) =~= v@.skip(i + 2));
            depth += 1;
            i += 2;
        } else {
            assert(!ends_block_comment(rest) && !begins_block_comment(rest));
            i += 1;
        }
    }
    i
}

fn end_of(v: &Vec<char>, from: usize, c: char) -> (r: usize)
    requires
        from < v@.len(),
    ensures
        from < r <= v@.len(),
        v@.skip(r as int) == behind(v@.skip(from as int), c),
{
    let at = text::find_char(v, from, c);
    let ghost rest = v@.skip(from as int);
    if at < v.len() {
        assert(rest.skip(at - from + 1) =~= v@.skip(at + 1));
        at + 1
    } else {
        assert(v@.skip(at as int) =~= seq![]);
        at
    }
}

fn value_start(v: &Vec<char>) -> (r: usize)
    ensures
        r <= v@.len(),
        v@.skip(r as int) == value_of(v@),
        r == value_at(v@),
{
    let n = v.len();
    let mut i: usize = 0;
    assert(v@.skip(0) =~= v@);
    while i < n
        invariant_except_break
            value_of(v@.skip(i as int)) == value_of(v@),
        invariant
            n == v@.len(),
            i <= n,
        ensures
            v@.skip(i as int) == value_of(v@),
        decreases n - i,
    {
        let ghost rest = v@.skip(i as int);
        if v[i].is_whitespace() {
            assert(rest.skip(1) =~= v@.skip(i + 1));
            i += 1;
        } else if n - i >= 2 && v[i] == '/' && v[i + 1] == '/' {
            assert(begins_line_comment(rest));
            i = end_of(v, i, '\n');
        } else if n - i >= 2 && v[i] == '/' && v[i + 1] == '*' {
            assert(begins_block_comment(rest));
            assert(rest.skip(2) =~= v@.skip(i + 2));
            i = block_end(v, i + 2);
        } else if n - i >= 3 && v[i] == '#' && v[i + 1] == '!' && v[i + 2] == '[' {
            assert(begins_attribute(rest));
            i = end_of(v, i, ']');
        } else {
            assert(value_of(rest) == rest);
            break ;
        }
    }
    i
}

/// Adds an entry before the closing bracket of a list or map; a blank text becomes a new one.
/// To any other text nothing can be added, and it is not replaced.
pub fn insert_ron_entry(existing: &str, entry: &str, open: char, close: char) -> (r: Option<
    String,
>)
    ensures
        match r {
            Some(t) => takes_entries(existing@, open, close) && t@ == inserted(
                existing@,
                entry@,
                open,
                close,
            ),
            None => !takes_entries(existing@, open, close),
        },
{
    let v = text::chars_of(existing);
    let end = text::trimmed_end(&v, v.len());
    assert(v@.take(v@.len() as int) =~= v@);
    let mut last: usize = end;
    while last > 0 && v[last - 1] != close
        invariant
            last <= end <= v@.len(),
            last_position(v@.take(last as int), close) == last_position(
                v@.take(end as int),
                close,
            ),
        decreases last,
    {
        assert(v@.take(last as int).drop_last() =~= v@.take(last - 1));
        last -= 1;
    }
    assert(closing(existing@, close) == last - 1);
    let first = value_start(&v);
    assert(first < v@.len() ==> v@.skip(first as int)[0] == v@[first as int]);
    let mut head = String::new();
    if last > 0 && first < last - 1 && v[first] == open {
        assert(is_list(existing@, open, close));
        let to = text::trimmed_end(&v, last - 1);
        let kept = text::string_of(&v, 0, to);
        assert(kept@ =~= v@.take(to as int));
        head.append(&kept);
        assert(head@ =~= kept@);
        if !(to > 0 && (v[to - 1] == open || v[to - 1] == ',')) {
            head.push(',');
        }
        assert(head@ =~= opened(kept@, open));
    } else {
        assert(!is_list(existing@, open, close));
        if !text::trimmed(existing).as_str().is_empty() {
            return None;
        }
        head.push(open);
        assert(head@ =~= seq![open]);
    }
    let ghost before = head@;
    head.push('\n');
    head.append(entry);
    head.push(close);
    head.push('\n');
    assert(head@ =~= before + seq!['\n'] + entry@ + seq![close, '\n']);
    Some(head)
}

/// A new entry is in the file, and what stood in it before its closing bracket still stands
/// at its beginning.
pub proof fn law_inserting_keeps_what_was_there(
    existing: Seq<char>,
    entry: Seq<char>,
    open: char,
    close: char,
)
    ensures
        text::occurs(entry, inserted(existing, entry, open, close)),
        is_list(existing, open, close) ==> text::begins_with(
            inserted(existing, entry, open, close),
            kept_part(existing, close),
        ),
{
    let head = head_of(existing, open, close);
    let r = inserted(existing, entry, open, close);
    let at = head.len() as int + 1;
    assert(r.subrange(at, at + entry.len()) =~= entry);
    assert(text::occurs_at(entry, r, at));
    if is_list(existing, open, close) {
        let kept = kept_part(existing, close);
        assert(r.subrange(0, kept.len() as int) =~= kept);
    }
}

proof fn lemma_trim_end_keeps(s: Seq<char>)
    requires
        s.len() > 0,
        !text::white_space(s.last()),
    ensures
        text::trim_end(s) == s,
        text::trim_end(s.push('\n')) == s,
{
    assert(s.push('\n').drop_last() =~= s);
}

proof fn lemma_trim_end_not_before(s: Seq<char>, k: int)
    requires
        0 <= k < s.len(),
        !text::white_space(s[k]),
    ensures
        text::trim_end(s).len() > k,
    decreases s.len(),
{
    if text::white_space(s.last()) {
        assert(s.drop_last()[k] == s[k]);
        lemma_trim_end_not_before(s.drop_last(), k);
    }
}

proof fn lemma_last_position(s: Seq<char>, c: char)
    ensures
        -1 <= last_position(s, c) < s.len(),
    decreases s.len(),
{
    if s.len() > 0 && s.last() != c {
        lemma_last_position(s.drop_last(), c);
    }
}

proof fn lemma_value_of(s: Seq<char>)
    ensures
        value_of(s).len() <= s.len(),
        value_of(s) == s.skip(value_at(s)),
        value_of(s).len() > 0 ==> value_of(value_of(s)) == value_of(s),
    decreases s.len(),
{
    text::lemma_position(s, '\n');
    text::lemma_position(s, ']');
    if s.len() == 0 {
    } else if text::white_space(s[0]) {
        lemma_value_of(s.skip(1));
    } else if begins_line_comment(s) {
        lemma_value_of(behind(s, '\n'));
    } else if begins_block_comment(s) {
        lemma_behind_blocks(s.skip(2), 1);
        lemma_value_of(behind_blocks(s.skip(2), 1));
    } else if begins_attribute(s) {
        lemma_value_of(behind(s, ']'));
    }
    assert(value_of(s) =~= s.skip(value_at(s)));
}

/// Whether two texts agree up to an index.
spec fn agree(a: Seq<char>, b: Seq<char>, k: int) -> bool {
    &&& 0 <= k < a.len()
    &&& k < b.len()
    &&& forall|j: int| 0 <= j <= k ==> #[trigger] a[j] == b[j]
}

proof fn lemma_agree_skip(a: Seq<char>, b: Seq<char>, k: int, m: int)
    requires
        agree(a, b, k),
        0 <= m <= k,
    ensures
        agree(a.skip(m), b.skip(m), k - m),
        a.skip(m).skip(k - m) == a.skip(k),
        b.skip(m).skip(k - m) == b.skip(k),
{
    assert forall|j: int| 0 <= j <= k - m implies #[trigger] a.skip(m)[j] == b.skip(m)[j] by {
        assert(a[j + m] == b[j + m]);
    }
    assert(a.skip(m).skip(k - m) =~= a.skip(k));
    assert(b.skip(m).skip(k - m) =~= b.skip(k));
}

proof fn lemma_behind_agrees(a: Seq<char>, b: Seq<char>, k: int, c: char)
    requires
        agree(a, b, k),
        behind(a, c).len() >= a.len() - k,
    ensures
        text::position(a, c) < k,
        text::position(b, c) == text::position(a, c),
{
    text::lemma_position(a, c);
    let i = text::position(a, c);
    assert(a[i] == b[i]);
    assert forall|j: int| 0 <= j < i implies b[j] != c by {
        assert(a[j] == b[j]);
    }
    text::lemma_position_is(b, c, i);
}

proof fn lemma_blocks_agree(a: Seq<char>, b: Seq<char>, k: int, depth: nat) -> (m: int)
    requires
        agree(a, b, k),
        behind_blocks(a, depth).len() >= a.len() - k,
    ensures
        0 <= m <= k,
        behind_blocks(a, depth) == a.skip(m),
        behind_blocks(b, depth) == b.skip(m),
    decreases a.len(),
{
    if depth == 0 {
        assert(a.skip(0) =~= a);
        assert(b.skip(0) =~= b);
        0
    } else {
        assert(a[0] == b[0]);
        let (n, d): (int, nat) = if ends_block_comment(a) {
            (2, (depth - 1) as nat)
        } else if begins_block_comment(a) {
            (2, depth + 1)
        } else {
            (1, depth)
        };
        lemma_behind_blocks(a.skip(n), d);
        assert(n <= k);
        assert(a[1] == b[1]);
        lemma_agree_skip(a, b, k, n);
        let m = lemma_blocks_agree(a.skip(n), b.skip(n), k - n, d);
        assert(a.skip(n).skip(m) =~= a.skip(n + m));
        assert(b.skip(n).skip(m) =~= b.skip(n + m));
        n + m
    }
}

/// Where the value of a text begins depends only on what stands before it.
proof fn lemma_value_agrees(a: Seq<char>, b: Seq<char>, k: int)
    requires
        agree(a, b, k),
        value_at(a) == k,
        value_of(b.skip(k)) == b.skip(k),
    ensures
        value_of(b) == b.skip(k),
    decreases a.len(),
{
    lemma_value_of(a);
    if k == 0 {
        assert(b.skip(0) =~= b);
    } else {
        assert(a[0] == b[0] && a[1] == b[1]);
        if value_of(a) == a {
            assert(false);
        }
        let m: int = if text::white_space(a[0]) {
            lemma_value_of(a.skip(1));
            1
        } else if begins_line_comment(a) {
            text::lemma_position(a, '\n');
            lemma_value_of(behind(a, '\n'));
            lemma_behind_agrees(a, b, k, '\n');
            text::position(a, '\n') + 1
        } else if begins_block_comment(a) {
            lemma_behind_blocks(a.skip(2), 1);
            lemma_value_of(behind_blocks(a.skip(2), 1));
            assert(2 <= k);
            lemma_agree_skip(a, b, k, 2);
            let n = lemma_blocks_agree(a.skip(2), b.skip(2), k - 2, 1);
            assert(a.skip(2).skip(n) =~= a.skip(2 + n));
            assert(b.skip(2).skip(n) =~= b.skip(2 + n));
            2 + n
        } else {
            text::lemma_position(a, ']');
            lemma_value_of(behind(a, ']'));
            lemma_behind_agrees(a, b, k, ']');
            assert(2 < k);
            assert(a[2] == b[2]);
            text::position(a, ']') + 1
        };
        lemma_value_of(a.skip(m));
        lemma_agree_skip(a, b, k, m);
        assert(value_of(a) == value_of(a.skip(m)));
        assert(value_of(b) == value_of(b.skip(m)));
        lemma_value_agrees(a.skip(m), b.skip(m), k - m);
    }
}

/// A file to which an entry has been added still is a list: what stood before its opening
/// bracket stands there still.
proof fn lemma_stays_list(existing: Seq<char>, open: char, close: char, rest: Seq<char>) -> (k: int)
    requires
        !text::white_space(open),
    ensures
        0 <= k < head_of(existing, open, close).len(),
        ({
            let b = head_of(existing, open, close) + seq!['\n'] + rest;
            value_of(b) == b.skip(k) && b[k] == open
        }),
{
    let head = head_of(existing, open, close);
    let b = head + seq!['\n'] + rest;
    if is_list(existing, open, close) {
        let i = closing(existing, close);
        let k = value_at(existing);
        lemma_value_of(existing);
        text::lemma_trim_end(existing);
        lemma_last_position(text::trim_end(existing), close);
        let part = existing.take(i);
        assert(existing.skip(k)[0] == existing[k]);
        assert(part[k] == open);
        lemma_trim_end_not_before(part, k);
        text::lemma_trim_end(part);
        let kept = kept_part(existing, close);
        let n = kept.len() as int;
        assert forall|j: int| 0 <= j < n implies #[trigger] b[j] == existing[j] by {
        }
        assert(b[n] == ',' || b[n] == '\n');
        assert(agree(existing, b, k));
        let a = existing.skip(k);
        let c = b.skip(k);
        assert(value_of(a) == a);
        assert(forall|j: int| 0 <= j < n - k ==> #[trigger] c[j] == a[j]);
        assert(c[n - k] == b[n]);
        assert(!begins_line_comment(a) && !begins_block_comment(a) && !begins_attribute(a)) by {
            lemma_not_skipped(a);
        }
        assert(c[0] == open);
        assert(!begins_line_comment(c) && !begins_block_comment(c) && !begins_attribute(c));
        assert(value_of(c) == c);
        lemma_value_agrees(existing, b, k);
        k
    } else {
        assert(b[0] == open && b[1] == '\n');
        assert(value_of(b) == b);
        assert(b.skip(0) =~= b);
        0
    }
}

proof fn lemma_not_skipped(s: Seq<char>)
    requires
        s.len() > 0,
        value_of(s) == s,
    ensures
        !begins_line_comment(s),
        !begins_block_comment(s),
        !begins_attribute(s),
{
    text::lemma_position(s, '\n');
    text::lemma_position(s, ']');
    if text::white_space(s[0]) {
    } else if begins_line_comment(s) {
        lemma_value_of(behind(s, '\n'));
    } else if begins_block_comment(s) {
        lemma_behind_blocks(s.skip(2), 1);
        lemma_value_of(behind_blocks(s.skip(2), 1));
    } else if begins_attribute(s) {
        lemma_value_of(behind(s, ']'));
    }
}

/// Two entries added one after the other stand in the file as if they had been added
/// together, so an entry is never lost by adding another.
pub proof fn law_entries_follow_each_other(
    existing: Seq<char>,
    start: Seq<char>,
    second: Seq<char>,
    open: char,
    close: char,
)
    requires
        !text::white_space(open),
        !text::white_space(close),
    ensures
        ({
            let first = start + seq![',', '\n'];
            let once = inserted(existing, first, open, close);
            &&& is_list(once, open, close)
            &&& inserted(once, second, open, close) == inserted(
                existing,
                first + second,
                open,
                close,
            )
        }),
{
    let first = start + seq![',', '\n'];
    let head = head_of(existing, open, close);
    let once = inserted(existing, first, open, close);
    let listed = head + seq!['\n'] + first;
    assert(once =~= listed.push(close).push('\n'));
    lemma_trim_end_keeps(listed.push(close));
    assert(closing(once, close) == listed.len());
    assert(once.take(listed.len() as int) =~= listed);
    let part = head + seq!['\n'] + start + seq![','];
    assert(listed =~= part.push('\n'));
    lemma_trim_end_keeps(part);
    assert(kept_part(once, close) == part);
    let k = lemma_stays_list(existing, open, close, first + seq![close, '\n']);
    assert(once =~= head + seq!['\n'] + (first + seq![close, '\n']));
    assert(once.skip(k)[0] == open);
    assert(is_list(once, open, close));
    assert(inserted(once, second, open, close) =~= inserted(
        existing,
        first + second,
        open,
        close,
    ));
}

/// White space, comments and attributes before a value are passed over, each whole: a line
/// comment ends with its line, an attribute with its bracket, and a block comment where it is
/// closed. What begins with anything else is the value.
pub proof fn law_what_stands_before_a_value_is_passed_over(inner: Seq<char>, c: char, s: Seq<char>)
    ensures
        text::white_space(c) ==> value_of(seq![c] + s) == value_of(s),
        !inner.contains('\n') ==> value_of(seq!['/', '/'] + inner + seq!['\n'] + s) == value_of(s),
        !inner.contains('\n') ==> value_of(seq!['/', '/'] + inner).len() == 0,
        !inner.contains('*') && !inner.contains('/') ==> value_of(
            seq!['/', '*'] + inner + seq!['*', '/'] + s,
        ) == value_of(s),
        !inner.contains(']') ==> value_of(seq!['#', '!', '['] + inner + seq![']'] + s) == value_of(
            s,
        ),
        !text::white_space(c) && c != '/' && c != '#' ==> value_of(seq![c] + s) == seq![c] + s,
        value_of(seq![]).len() == 0,
{
    let spaced = seq![c] + s;
    assert(spaced.skip(1) =~= s);
    if !inner.contains('\n') {
        let whole = seq!['/', '/'] + inner + seq!['\n'] + s;
        let alone = seq!['/', '/'] + inner;
        assert forall|j: int| 0 <= j < alone.len() implies whole[j] != '\n' && alone[j] != '\n' by {
            if j >= 2 {
                assert(alone[j] == inner[j - 2]);
                assert(inner.contains(inner[j - 2]));
            }
        }
        text::lemma_position_is(whole, '\n', inner.len() as int + 2);
        text::lemma_position_is(alone, '\n', alone.len() as int);
        assert(behind(alone, '\n') =~= seq![]);
        assert(alone[0] == '/' && alone[1] == '/');
        assert(!text::white_space('/'));
        assert(value_of(alone) == value_of(behind(alone, '\n')));
        assert(value_of(Seq::<char>::empty()).len() == 0);
        assert(whole.skip(inner.len() as int + 3) =~= s);
    }
    if !inner.contains('*') && !inner.contains('/') {
        let whole = seq!['/', '*'] + inner + seq!['*', '/'] + s;
        assert(whole.skip(2) =~= inner + seq!['*', '/'] + s);
        law_block_comments_are_nested(inner, s, 1);
        assert(behind_blocks(s, 0) == s);
        assert(!text::white_space('/'));
    }
    if !inner.contains(']') {
        let whole = seq!['#', '!', '['] + inner + seq![']'] + s;
        assert forall|j: int| 0 <= j < inner.len() + 3 implies whole[j] != ']' by {
            if j >= 3 {
                assert(whole[j] == inner[j - 3]);
                assert(inner.contains(inner[j - 3]));
            }
        }
        text::lemma_position_is(whole, ']', inner.len() as int + 3);
        assert(whole.skip(inner.len() as int + 4) =~= s);
        assert(!text::white_space('#'));
    }
}

/// Block comments stand one within the other: an opening mark goes one deeper, a closing mark
/// one back, and behind the last closing mark the comment is over.
pub proof fn law_block_comments_are_nested(inner: Seq<char>, s: Seq<char>, depth: nat)
    requires
        depth > 0,
        !inner.contains('*'),
        !inner.contains('/'),
    ensures
        behind_blocks(inner + seq!['*', '/'] + s, depth) == behind_blocks(s, (depth - 1) as nat),
        behind_blocks(inner + seq!['/', '*'] + s, depth) == behind_blocks(s, depth + 1),
        behind_blocks(inner, depth).len() == 0,
        behind_blocks(s, 0) == s,
    decreases inner.len(),
{
    let closed = inner + seq!['*', '/'] + s;
    let opened = inner + seq!['/', '*'] + s;
    if inner.len() == 0 {
        assert(closed.skip(2) =~= s);
        assert(opened.skip(2) =~= s);
    } else {
        let rest = inner.skip(1);
        assert(inner.contains(inner[0]));
        assert forall|j: int| 0 <= j < rest.len() implies rest[j] != '*' && rest[j] != '/' by {
            assert(rest[j] == inner[j + 1]);
            assert(inner.contains(inner[j + 1]));
        }
        law_block_comments_are_nested(rest, s, depth);
        assert(closed[0] == inner[0] && opened[0] == inner[0]);
        assert(closed.skip(1) =~= rest + seq!['*', '/'] + s);
        assert(opened.skip(1) =~= rest + seq!['/', '*'] + s);
    }
}

/// An entry goes right before the last closing bracket of a list, on a line of its own, and
/// what the list held stays. White space before the bracket is dropped, and so is what stood
/// behind it; a comma is put behind what was there unless the list was empty or ends with a
/// comma or another opening bracket.
pub proof fn law_entry_goes_before_the_closing_bracket(
    lead: Seq<char>,
    held: Seq<char>,
    gap: Seq<char>,
    trail: Seq<char>,
    entry: Seq<char>,
    open: char,
    close: char,
)
    requires
        !text::white_space(open),
        !text::white_space(close),
        held.len() > 0 ==> !text::white_space(held.last()),
        forall|i: int| 0 <= i < gap.len() ==> text::white_space(#[trigger] gap[i]),
        !trail.contains(close),
        ({
            let rest = seq![open] + held + gap + seq![close] + trail;
            value_of(lead + rest) == rest
        }),
    ensures
        ({
            let file = lead + (seq![open] + held + gap + seq![close] + trail);
            let kept = lead + seq![open] + held;
            let comma = if held.len() == 0 || held.last() == ',' || held.last() == open {
                seq![]
            } else {
                seq![',']
            };
            &&& takes_entries(file, open, close)
            &&& inserted(file, entry, open, close) == kept + comma + seq!['\n'] + entry + seq![
                close,
                '\n',
            ]
        }),
{
    let rest = seq![open] + held + gap + seq![close] + trail;
    let file = lead + rest;
    let kept = lead + seq![open] + held;
    let listed = kept + gap;
    assert(file =~= listed.push(close) + trail);
    lemma_closing_bracket(listed, close, trail);
    assert(rest[0] == open);
    assert(is_list(file, open, close));
    assert(file.take(listed.len() as int) =~= listed);
    lemma_trim_end_over(kept, gap);
    assert(kept.last() == if held.len() > 0 { held.last() } else { open });
    lemma_trim_end_keeps(kept);
    assert(kept_part(file, close) == kept);
    let comma = if held.len() == 0 || held.last() == ',' || held.last() == open {
        seq![]
    } else {
        seq![',']
    };
    assert(opened(kept, open) =~= kept + comma);
}

proof fn lemma_closing_bracket(listed: Seq<char>, close: char, trail: Seq<char>)
    requires
        !text::white_space(close),
        !trail.contains(close),
    ensures
        closing(listed.push(close) + trail, close) == listed.len(),
{
    let file = listed.push(close) + trail;
    let s = text::trim_end(file);
    let i = listed.len() as int;
    assert(file[i] == close);
    lemma_trim_end_not_before(file, i);
    text::lemma_trim_end(file);
    assert forall|j: int| i < j < s.len() implies s[j] != close by {
        assert(s[j] == trail[j - i - 1]);
        assert(trail.contains(trail[j - i - 1]));
    }
    assert(s[i] == file[i]);
    lemma_last_position_is(s, close, i);
}

proof fn lemma_last_position_is(s: Seq<char>, c: char, i: int)
    requires
        0 <= i < s.len(),
        s[i] == c,
        forall|j: int| i < j < s.len() ==> s[j] != c,
    ensures
        last_position(s, c) == i,
    decreases s.len(),
{
    if i < s.len() - 1 {
        lemma_last_position_is(s.drop_last(), c, i);
    }
}

proof fn lemma_trim_end_over(s: Seq<char>, blank: Seq<char>)
    requires
        forall|i: int| 0 <= i < blank.len() ==> text::white_space(#[trigger] blank[i]),
    ensures
        text::trim_end(s + blank) == text::trim_end(s),
    decreases blank.len(),
{
    if blank.len() == 0 {
        assert(s + blank =~= s);
    } else {
        let fewer = blank.drop_last();
        assert forall|i: int| 0 <= i < fewer.len() implies text::white_space(
            #[trigger] fewer[i],
        ) by {
            assert(fewer[i] == blank[i]);
        }
        lemma_trim_end_over(s, fewer);
        assert((s + blank).last() == blank[blank.len() - 1]);
        assert((s + blank).drop_last() =~= s + fewer);
    }
}

/// A blank file becomes a list of the one entry. A file that is neither blank nor begins its
/// value with the opening bracket takes no entry, and neither does one without the closing
/// bracket behind that.
pub proof fn law_only_lists_and_blank_files_take_entries(
    existing: Seq<char>,
    entry: Seq<char>,
    open: char,
    close: char,
)
    ensures
        text::trim(existing).len() == 0 && !text::white_space(open) ==> takes_entries(
            existing,
            open,
            close,
        ) && inserted(existing, entry, open, close) == seq![open, '\n'] + entry + seq![close, '\n'],
        text::trim(existing).len() > 0 && value_of(existing).len() == 0 ==> !takes_entries(
            existing,
            open,
            close,
        ),
        text::trim(existing).len() > 0 && value_of(existing).len() > 0 && value_of(existing)[0]
            != open ==> !takes_entries(existing, open, close),
        text::trim(existing).len() > 0 && !existing.contains(close) ==> !takes_entries(
            existing,
            open,
            close,
        ),
{
    if text::trim(existing).len() == 0 && !text::white_space(open) {
        lemma_blank_has_no_value(existing);
        assert(!is_list(existing, open, close));
        assert(inserted(existing, entry, open, close) =~= seq![open, '\n'] + entry + seq![
            close,
            '\n',
        ]);
    }
    if !existing.contains(close) {
        text::lemma_trim_end(existing);
        let s = text::trim_end(existing);
        assert forall|i: int| 0 <= i < s.len() implies s[i] != close by {
            assert(s[i] == existing[i]);
            assert(existing.contains(existing[i]));
        }
        lemma_no_last_position(s, close);
        lemma_value_of(existing);
    }
}

proof fn lemma_no_last_position(s: Seq<char>, c: char)
    requires
        forall|i: int| 0 <= i < s.len() ==> s[i] != c,
    ensures
        last_position(s, c) == -1,
    decreases s.len(),
{
    if s.len() > 0 {
        lemma_no_last_position(s.drop_last(), c);
    }
}

proof fn lemma_blank_has_no_value(s: Seq<char>)
    requires
        text::trim(s).len() == 0,
    ensures
        value_of(s).len() == 0,
    decreases s.len(),
{
    if s.len() > 0 {
        text::lemma_trim_start(s);
        text::lemma_trim_end(text::trim_start(s));
        if text::trim_start(s).len() > 0 {
            let t = text::trim_start(s);
            lemma_trim_end_not_before(t, 0);
        }
        assert(text::white_space(s[0]));
        assert(text::trim(s.skip(1)) == text::trim(s));
        lemma_blank_has_no_value(s.skip(1));
    }
}

} // verus!
