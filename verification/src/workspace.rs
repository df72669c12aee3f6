//! Listing workspaces and finding the named ones.

use crate::names;
use crate::names::NameMap;
use crate::order;
use crate::search;
pub use crate::session::{State, StateView, Workspace, WorkspaceView};
use crate::session::WsEntryView;
use crate::text;
use crate::wire;
use vstd::prelude::*;

verus! {

/// Whether a workspace can be found under a name: it has the name, up to case, or it has the
/// id that the name was recorded with.
pub open spec fn answers_to(entries: Seq<names::Entry>, name: Seq<char>) -> spec_fn(
    WsEntryView,
) -> bool {
    |w: WsEntryView|
        !w.removed && (text::same_letters(w.info.name, name) || (w.info.id.len() > 0
            && names::id_of(entries, name) == Some(w.info.id)))
}

/// The index of the first workspace that can be found under a name.
pub open spec fn found(
    workspaces: Seq<WsEntryView>,
    entries: Seq<names::Entry>,
    name: Seq<char>,
) -> Option<int> {
    let i = search::first_index(workspaces, answers_to(entries, name));
    if i < workspaces.len() {
        Some(i)
    } else {
        None
    }
}

/// A workspace under the name that was recorded with its id.
pub open spec fn renamed(w: WsEntryView, entries: Seq<names::Entry>) -> WsEntryView {
    match names::name_of(entries, w.info.id) {
        Some(name) => WsEntryView { info: WorkspaceView { name, ..w.info }, ..w },
        None => w,
    }
}

/// Whether a workspace can be given a name: it is there, and it is not pinned.
pub open spec fn is_free(w: WsEntryView) -> bool {
    !w.removed && w.info.cosmic_state & wire::PINNED == 0
}

/// Whether `i` is the index of the trailing free workspace: no free one has coordinates
/// behind its own, and of those with the same coordinates it is the last.
pub open spec fn is_trailing(workspaces: Seq<WsEntryView>, i: int) -> bool {
    &&& 0 <= i < workspaces.len()
    &&& is_free(workspaces[i])
    &&& forall|j: int|
        0 <= j < workspaces.len() && is_free(#[trigger] workspaces[j]) ==> if j <= i {
            !order::before(workspaces[i].info.coordinates, workspaces[j].info.coordinates)
        } else {
            order::before(workspaces[j].info.coordinates, workspaces[i].info.coordinates)
        }
}

/// The index of the trailing free workspace.
pub open spec fn trailing(workspaces: Seq<WsEntryView>) -> Option<int> {
    if exists|i: int| is_trailing(workspaces, i) {
        Some(choose|i: int| is_trailing(workspaces, i))
    } else {
        None
    }
}

/// There is at most one trailing free workspace, and there is one unless none is free.
pub proof fn law_trailing_is_unique(workspaces: Seq<WsEntryView>, i: int)
    ensures
        trailing(workspaces) == Some(i) <==> is_trailing(workspaces, i),
        trailing(workspaces) is None <==> forall|j: int|
            0 <= j < workspaces.len() ==> !is_free(#[trigger] workspaces[j]),
{
    if is_trailing(workspaces, i) {
        let k = choose|k: int| is_trailing(workspaces, k);
        assert(is_trailing(workspaces, k));
        assert(is_free(workspaces[k]));
        if i != k {
            order::lemma_before_total(
                workspaces[i].info.coordinates,
                workspaces[k].info.coordinates,
            );
        }
    }
    if exists|j: int| 0 <= j < workspaces.len() && is_free(#[trigger] workspaces[j]) {
        lemma_trailing_exists(workspaces);
    } else if trailing(workspaces) is Some {
        let k = choose|k: int| is_trailing(workspaces, k);
        assert(is_free(workspaces[k]));
    }
}

/// What the trailing free workspace is after one more workspace.
proof fn lemma_trailing_step(
    workspaces: Seq<WsEntryView>,
    last: Option<int>,
    w: WsEntryView,
)
    requires
        match last {
            Some(k) => is_trailing(workspaces, k),
            None => forall|j: int|
                0 <= j < workspaces.len() ==> !is_free(#[trigger] workspaces[j]),
        },
    ensures
        ({
            let more = workspaces.push(w);
            if !is_free(w) {
                match last {
                    Some(k) => is_trailing(more, k),
                    None => forall|j: int| 0 <= j < more.len() ==> !is_free(#[trigger] more[j]),
                }
            } else if last is Some && order::before(
                w.info.coordinates,
                workspaces[last->0].info.coordinates,
            ) {
                is_trailing(more, last->0)
            } else {
                is_trailing(more, workspaces.len() as int)
            }
        }),
{
    let more = workspaces.push(w);
    if is_free(w) && !(last is Some && order::before(
        w.info.coordinates,
        workspaces[last->0].info.coordinates,
    )) {
        assert forall|j: int|
            0 <= j < more.len() && is_free(#[trigger] more[j]) implies !order::before(
            w.info.coordinates,
            more[j].info.coordinates,
        ) by {
            order::lemma_before_total(w.info.coordinates, w.info.coordinates);
            if j < workspaces.len() {
                assert(is_free(workspaces[j]));
                let k = last->0;
                order::lemma_before_total(
                    workspaces[j].info.coordinates,
                    workspaces[k].info.coordinates,
                );
                order::lemma_not_before_transitive(
                    w.info.coordinates,
                    workspaces[k].info.coordinates,
                    workspaces[j].info.coordinates,
                );
            }
        }
        assert(is_trailing(more, workspaces.len() as int));
    } else {
        assert forall|j: int| 0 <= j < workspaces.len() implies more[j] == #[trigger] workspaces[j] by {
        }
        match last {
            Some(k) => {
                assert(is_free(more[k]));
                assert forall|j: int|
                    0 <= j < more.len() && is_free(#[trigger] more[j]) implies if j <= k {
                    !order::before(more[k].info.coordinates, more[j].info.coordinates)
                } else {
                    order::before(more[j].info.coordinates, more[k].info.coordinates)
                } by {
                    if j < workspaces.len() {
                        assert(is_free(workspaces[j]));
                    }
                }
            },
            None => {
                assert forall|j: int| 0 <= j < more.len() implies !is_free(#[trigger] more[j]) by {
                    if j < workspaces.len() {
                        assert(!is_free(workspaces[j]));
                    }
                }
            },
        }
    }
}

proof fn lemma_trailing_exists(workspaces: Seq<WsEntryView>)
    requires
        exists|j: int| 0 <= j < workspaces.len() && is_free(#[trigger] workspaces[j]),
    ensures
        exists|i: int| is_trailing(workspaces, i),
    decreases workspaces.len(),
{
    let j = choose|j: int| 0 <= j < workspaces.len() && is_free(#[trigger] workspaces[j]);
    let fewer = workspaces.drop_last();
    assert(fewer.push(workspaces.last()) =~= workspaces);
    if exists|j: int| 0 <= j < fewer.len() && is_free(#[trigger] fewer[j]) {
        lemma_trailing_exists(fewer);
        let k = choose|k: int| is_trailing(fewer, k);
        lemma_trailing_step(fewer, Some(k), workspaces.last());
    } else {
        lemma_trailing_step(fewer, None, workspaces.last());
        if j < fewer.len() {
            assert(is_free(fewer[j]));
        }
    }
}

impl State {
    /// The index of the first workspace that can be found under a name.
    pub fn find(&self, map: &NameMap, name: &str) -> (r: Option<usize>)
        ensures
            match r {
                Some(i) => found(self@.workspaces, map@, name@) == Some(i as int) && i
                    < self.workspaces@.len(),
                None => found(self@.workspaces, map@, name@) is None,
            },
    {
        let ghost workspaces = self@.workspaces;
        let ghost wanted = answers_to(map@, name@);
        let mapped = map.id_for(name);
        let mut i: usize = 0;
        while i < self.workspaces.len()
            invariant
                i <= self.workspaces@.len(),
                workspaces == self@.workspaces,
                wanted == answers_to(map@, name@),
                match mapped {
                    Some(id) => names::id_of(map@, name@) == Some(id@),
                    None => names::id_of(map@, name@) is None,
                },
                forall|j: int| 0 <= j < i ==> !wanted(#[trigger] workspaces[j]),
            decreases self.workspaces@.len() - i,
        {
            assert(workspaces[i as int] == self.workspaces@[i as int]@);
            let w = &self.workspaces[i];
            let recorded = match &mapped {
                Some(id) => text::same(id, &w.info.id),
                None => false,
            };
            if !w.removed && (text::eq_ignore_ascii_case(&w.info.name, name) || (
            !w.info.id.as_str().is_empty() && recorded)) {
                proof {
                    search::lemma_first_index_is(workspaces, wanted, i as int);
                }
                return Some(i);
            }
            i += 1;
        }
        proof {
            search::lemma_first_index_is(workspaces, wanted, i as int);
        }
        None
    }

    /// Gives every workspace the name that was recorded with its id.
    pub fn apply_names(&mut self, map: &NameMap)
        ensures
            final(self)@ == (StateView {
                workspaces: old(self)@.workspaces.map_values(
                    |w: WsEntryView| renamed(w, map@),
                ),
                ..old(self)@
            }),
    {
        let ghost workspaces = self@.workspaces;
        let ghost after = workspaces.map_values(|w: WsEntryView| renamed(w, map@));
        let mut i: usize = 0;
        while i < self.workspaces.len()
            invariant
                i <= self.workspaces@.len(),
                workspaces == old(self)@.workspaces,
                after == workspaces.map_values(|w: WsEntryView| renamed(w, map@)),
                self@ == (StateView { workspaces: self@.workspaces, ..old(self)@ }),
                self@.workspaces.len() == workspaces.len(),
                forall|j: int| 0 <= j < i ==> self@.workspaces[j] == #[trigger] after[j],
                forall|j: int|
                    i <= j < workspaces.len() ==> self@.workspaces[j] == #[trigger] workspaces[j],
            decreases self.workspaces@.len() - i,
        {
            assert(workspaces[i as int] == self@.workspaces[i as int]);
            assert(workspaces[i as int] == self.workspaces@[i as int]@);
            if let Some(name) = map.name_for(&self.workspaces[i].info.id) {
                self.workspaces[i].info.name = name;
            }
            assert(self.workspaces@[i as int]@ =~= after[i as int]);
            i += 1;
        }
        assert(self@.workspaces =~= after);
    }

    /// The index of the trailing free workspace.
    pub fn trailing_workspace(&self) -> (r: Option<usize>)
        ensures
            match r {
                Some(i) => trailing(self@.workspaces) == Some(i as int) && i
                    < self.workspaces@.len(),
                None => trailing(self@.workspaces) is None,
            },
    {
        let ghost workspaces = self@.workspaces;
        let mut best: Option<usize> = None;
        let mut i: usize = 0;
        while i < self.workspaces.len()
            invariant
                i <= self.workspaces@.len(),
                workspaces == self@.workspaces,
                match best {
                    Some(k) => k < i && is_trailing(workspaces.take(i as int), k as int),
                    None => forall|j: int|
                        0 <= j < i ==> !is_free(#[trigger] workspaces.take(i as int)[j]),
                },
            decreases self.workspaces@.len() - i,
        {
            proof {
                lemma_trailing_step(
                    workspaces.take(i as int),
                    match best {
                        Some(k) => Some(k as int),
                        None => None,
                    },
                    workspaces[i as int],
                );
                assert(workspaces.take(i as int).push(workspaces[i as int]) =~= workspaces.take(
                    i + 1,
                ));
                assert(workspaces[i as int] == self.workspaces@[i as int]@);
            }
            let w = &self.workspaces[i];
            if !w.removed && w.info.cosmic_state & wire::PINNED == 0 {
                let behind = match best {
                    Some(k) => {
                        assert(workspaces.take(i as int)[k as int]
                            == self.workspaces@[k as int]@);
                        order::comes_before(
                            &w.info.coordinates,
                            &self.workspaces[k].info.coordinates,
                        )
                    },
                    None => false,
                };
                if !behind {
                    best = Some(i);
                }
            }
            i += 1;
        }
        assert(workspaces.take(i as int) =~= workspaces);
        proof {
            law_trailing_is_unique(workspaces, (if best is Some { best->0 as int } else { 0 }));
        }
        best
    }
}

/// Whether a workspace is there.
pub open spec fn is_present() -> spec_fn(WsEntryView) -> bool {
    |w: WsEntryView| !w.removed
}

/// The descriptions of the workspaces that are there, in the order of their announcement.
pub open spec fn present(workspaces: Seq<WsEntryView>) -> Seq<WorkspaceView> {
    workspaces.filter(is_present()).map_values(|w: WsEntryView| w.info)
}

/// Whether a workspace has the coordinates.
pub open spec fn lies_at(coordinates: Seq<u32>) -> spec_fn(WorkspaceView) -> bool {
    |w: WorkspaceView| w.coordinates == coordinates
}

/// Whether no workspace has coordinates that come before those of an earlier one.
pub open spec fn in_order(list: Seq<WorkspaceView>) -> bool {
    forall|i: int, j: int|
        0 <= i <= j < list.len() ==> !order::before(
            (#[trigger] list[j]).coordinates,
            (#[trigger] list[i]).coordinates,
        )
}

/// Whether two lists hold the same workspaces with the coordinates, in the same order.
pub open spec fn agree_at(
    a: Seq<WorkspaceView>,
    b: Seq<WorkspaceView>,
    coordinates: Seq<u32>,
) -> bool {
    a.filter(lies_at(coordinates)) == b.filter(lies_at(coordinates))
}

/// Whether a list is another one in the order of the coordinates, where workspaces with the
/// same coordinates keep their order.
pub open spec fn sorted_from(list: Seq<WorkspaceView>, from: Seq<WorkspaceView>) -> bool {
    &&& in_order(list)
    &&& forall|coordinates: Seq<u32>| #[trigger] agree_at(list, from, coordinates)
}

/// The contents of a list of workspaces.
pub open spec fn contents(list: Seq<Workspace>) -> Seq<WorkspaceView> {
    list.map_values(|w: Workspace| w@)
}

proof fn lemma_inserted_sorted(
    head: Seq<WorkspaceView>,
    tail: Seq<WorkspaceView>,
    from: Seq<WorkspaceView>,
    w: WorkspaceView,
)
    requires
        sorted_from(head + tail, from),
        forall|i: int|
            0 <= i < head.len() ==> !order::before(
                w.coordinates,
                (#[trigger] head[i]).coordinates,
            ),
        forall|i: int|
            0 <= i < tail.len() ==> order::before(
                w.coordinates,
                (#[trigger] tail[i]).coordinates,
            ),
    ensures
        sorted_from(head + seq![w] + tail, from.push(w)),
{
    let old_list = head + tail;
    let list = head + seq![w] + tail;
    let n = head.len() as int;
    assert forall|i: int, j: int| 0 <= i <= j < list.len() implies !order::before(
        (#[trigger] list[j]).coordinates,
        (#[trigger] list[i]).coordinates,
    ) by {
        order::lemma_before_total(list[i].coordinates, list[j].coordinates);
        if i < n {
            assert(list[i] == old_list[i] && list[i] == head[i]);
        } else if i > n {
            assert(list[i] == old_list[i - 1] && list[i] == tail[i - n - 1]);
        }
        if j < n {
            assert(list[j] == old_list[j] && list[j] == head[j]);
        } else if j > n {
            assert(list[j] == old_list[j - 1] && list[j] == tail[j - n - 1]);
        }
    }
    assert forall|c: Seq<u32>| #[trigger] agree_at(list, from.push(w), c) by {
        let at = lies_at(c);
        assert(agree_at(old_list, from, c));
        Seq::filter_distributes_over_add(head, tail, at);
        Seq::filter_distributes_over_add(head + seq![w], tail, at);
        Seq::filter_distributes_over_add(head, seq![w], at);
        Seq::filter_distributes_over_add(from, seq![w], at);
        assert(from + seq![w] =~= from.push(w));
        if c == w.coordinates {
            assert forall|i: int| 0 <= i < tail.len() implies !at(#[trigger] tail[i]) by {
                order::lemma_before_total(w.coordinates, tail[i].coordinates);
            }
            tail.lemma_all_neg_filter_empty(at);
            assert(tail.filter(at) =~= seq![]);
            assert(list.filter(at) =~= from.push(w).filter(at));
        } else {
            let one = seq![w];
            assert forall|i: int| 0 <= i < one.len() implies !at(#[trigger] one[i]) by {
            }
            one.lemma_all_neg_filter_empty(at);
            assert(one.filter(at) =~= seq![]);
            assert(list.filter(at) =~= from.push(w).filter(at));
        }
    }
}

fn insert_in_order(list: &mut Vec<Workspace>, w: Workspace, Ghost(from): Ghost<Seq<WorkspaceView>>)
    requires
        sorted_from(contents(old(list)@), from),
    ensures
        sorted_from(contents(final(list)@), from.push(w@)),
{
    let ghost views = contents(list@);
    let mut at: usize = list.len();
    while at > 0 && order::comes_before(&w.coordinates, &list[at - 1].coordinates)
        invariant
            at <= list@.len(),
            *list == *old(list),
            views == contents(list@),
            forall|i: int|
                at <= i < views.len() ==> order::before(
                    w@.coordinates,
                    (#[trigger] views[i]).coordinates,
                ),
        decreases at,
    {
        assert(views[at - 1] == list@[at - 1]@);
        at -= 1;
    }
    proof {
        let head = views.take(at as int);
        let tail = views.skip(at as int);
        assert(views =~= head + tail);
        assert forall|i: int| 0 <= i < head.len() implies !order::before(
            w@.coordinates,
            (#[trigger] head[i]).coordinates,
        ) by {
            assert(views[at - 1] == list@[at - 1]@);
            assert(head[i] == views[i]);
            order::lemma_not_before_transitive(
                w@.coordinates,
                views[at - 1].coordinates,
                views[i].coordinates,
            );
        }
        lemma_inserted_sorted(head, tail, from, w@);
        assert(contents(list@.insert(at as int, w)) =~= head + seq![w@] + tail);
    }
    list.insert(at, w);
}

/// The workspaces that are there, in the order of their coordinates.
pub fn list_workspaces(state: &State) -> (r: Vec<Workspace>)
    ensures
        sorted_from(contents(r@), present(state@.workspaces)),
{
    let ghost workspaces = state@.workspaces;
    let mut r: Vec<Workspace> = Vec::new();
    let mut i: usize = 0;
    proof {
        reveal(Seq::filter);
        assert(contents(r@) =~= present(workspaces.take(0)));
    }
    while i < state.workspaces.len()
        invariant
            i <= state.workspaces@.len(),
            workspaces == state@.workspaces,
            sorted_from(contents(r@), present(workspaces.take(i as int))),
        decreases state.workspaces@.len() - i,
    {
        let ghost from = present(workspaces.take(i as int));
        proof {
            reveal(Seq::filter);
            assert(workspaces.take(i + 1).drop_last() =~= workspaces.take(i as int));
            assert(workspaces[i as int] == state.workspaces@[i as int]@);
            if !workspaces[i as int].removed {
                assert(present(workspaces.take(i + 1)) =~= from.push(workspaces[i as int].info));
            }
        }
        if !state.workspaces[i].removed {
            let w = state.workspaces[i].info.clone();
            insert_in_order(&mut r, w, Ghost(from));
        }
        i += 1;
    }
    assert(workspaces.take(i as int) =~= workspaces);
    r
}

proof fn lemma_last_of_filter(list: Seq<WorkspaceView>, keep: spec_fn(WorkspaceView) -> bool)
    requires
        list.len() > 0,
        keep(list.last()),
    ensures
        list.filter(keep) == list.drop_last().filter(keep).push(list.last()),
{
    reveal(Seq::filter);
}

/// The order of the coordinates, with the order of announcement among equal ones, determines
/// the listing.
pub proof fn law_listing_is_determined(
    a: Seq<WorkspaceView>,
    b: Seq<WorkspaceView>,
    from: Seq<WorkspaceView>,
)
    requires
        sorted_from(a, from),
        sorted_from(b, from),
    ensures
        a == b,
{
    assert forall|c: Seq<u32>| #[trigger] agree_at(a, b, c) by {
        assert(agree_at(a, from, c));
        assert(agree_at(b, from, c));
    }
    lemma_agreeing_lists(a, b);
}

proof fn lemma_agreeing_member(a: Seq<WorkspaceView>, b: Seq<WorkspaceView>)
    requires
        a.len() > 0,
        forall|c: Seq<u32>| #[trigger] agree_at(a, b, c),
    ensures
        b.contains(a.last()),
{
    let at = lies_at(a.last().coordinates);
    lemma_last_of_filter(a, at);
    assert(agree_at(a, b, a.last().coordinates));
    let k = b.filter(at).len() - 1;
    assert(b.filter(at)[k] == a.last());
    b.lemma_filter_contains_rev(at, a.last());
}

proof fn lemma_agreeing_lists(a: Seq<WorkspaceView>, b: Seq<WorkspaceView>)
    requires
        in_order(a),
        in_order(b),
        forall|c: Seq<u32>| #[trigger] agree_at(a, b, c),
    ensures
        a == b,
    decreases a.len(),
{
    if a.len() == 0 {
        if b.len() > 0 {
            assert forall|c: Seq<u32>| #[trigger] agree_at(b, a, c) by {
                assert(agree_at(a, b, c));
            }
            lemma_agreeing_member(b, a);
        }
        assert(a =~= b);
    } else {
        lemma_agreeing_member(a, b);
        let i = choose|i: int| 0 <= i < b.len() && b[i] == a.last();
        assert forall|c: Seq<u32>| #[trigger] agree_at(b, a, c) by {
            assert(agree_at(a, b, c));
        }
        lemma_agreeing_member(b, a);
        let j = choose|j: int| 0 <= j < a.len() && a[j] == b.last();
        assert(!order::before(b[b.len() - 1].coordinates, b[i].coordinates));
        assert(!order::before(a[a.len() - 1].coordinates, a[j].coordinates));
        let c = a.last().coordinates;
        order::lemma_before_total(c, b.last().coordinates);
        assert(b.last().coordinates == c);
        lemma_last_of_filter(a, lies_at(c));
        lemma_last_of_filter(b, lies_at(c));
        assert(agree_at(a, b, c));
        assert(a.filter(lies_at(c)).last() == b.filter(lies_at(c)).last());
        assert(a.last() == b.last());
        let x = a.drop_last();
        let y = b.drop_last();
        assert(in_order(x)) by {
            assert forall|i: int, j: int| 0 <= i <= j < x.len() implies !order::before(
                (#[trigger] x[j]).coordinates,
                (#[trigger] x[i]).coordinates,
            ) by {
                assert(x[i] == a[i] && x[j] == a[j]);
            }
        }
        assert(in_order(y)) by {
            assert forall|i: int, j: int| 0 <= i <= j < y.len() implies !order::before(
                (#[trigger] y[j]).coordinates,
                (#[trigger] y[i]).coordinates,
            ) by {
                assert(y[i] == b[i] && y[j] == b[j]);
            }
        }
        assert forall|d: Seq<u32>| #[trigger] agree_at(x, y, d) by {
            assert(agree_at(a, b, d));
            if d == c {
                assert(x.filter(lies_at(d)) =~= a.filter(lies_at(d)).drop_last());
                assert(y.filter(lies_at(d)) =~= b.filter(lies_at(d)).drop_last());
            } else {
                reveal(Seq::filter);
            }
        }
        lemma_agreeing_lists(x, y);
        assert(a =~= x.push(a.last()));
        assert(b =~= y.push(b.last()));
    }
}

/// Every workspace that is there is listed, and nothing else is.
pub proof fn law_listing_is_complete(list: Seq<WorkspaceView>, from: Seq<WorkspaceView>)
    requires
        sorted_from(list, from),
    ensures
        forall|w: WorkspaceView| #[trigger] list.contains(w) <==> from.contains(w),
{
    assert forall|w: WorkspaceView| #[trigger] list.contains(w) <==> from.contains(w) by {
        let at = lies_at(w.coordinates);
        assert(agree_at(list, from, w.coordinates));
        if list.contains(w) {
            let k = choose|k: int| 0 <= k < list.len() && list[k] == w;
            list.lemma_filter_contains(at, k);
            from.lemma_filter_contains_rev(at, w);
        }
        if from.contains(w) {
            let k = choose|k: int| 0 <= k < from.len() && from[k] == w;
            from.lemma_filter_contains(at, k);
            list.lemma_filter_contains_rev(at, w);
        }
    }
}

/// A workspace is found under a name exactly if it is there and has the name, up to case, or a
/// recorded id; the empty id is nobody's.
pub proof fn law_workspace_answers_by_name_or_id(
    w: WsEntryView,
    entries: Seq<names::Entry>,
    name: Seq<char>,
)
    ensures
        w.removed ==> !answers_to(entries, name)(w),
        !w.removed && text::same_letters(w.info.name, name) ==> answers_to(entries, name)(w),
        !w.removed && w.info.id.len() > 0 && names::id_of(entries, name) == Some(w.info.id)
            ==> answers_to(entries, name)(w),
        answers_to(entries, name)(w) && !text::same_letters(w.info.name, name) ==> w.info.id.len()
            > 0 && names::id_of(entries, name) == Some(w.info.id),
        !w.removed ==> answers_to(entries, w.info.name)(w),
{
}

/// What is found under a name is the first workspace that answers to it; nothing is found
/// exactly if none does.
pub proof fn law_first_that_answers_is_found(
    workspaces: Seq<WsEntryView>,
    entries: Seq<names::Entry>,
    name: Seq<char>,
    k: int,
)
    ensures
        found(workspaces, entries, name) == Some(k) <==> {
            &&& 0 <= k < workspaces.len()
            &&& answers_to(entries, name)(workspaces[k])
            &&& forall|j: int|
                0 <= j < k ==> !answers_to(entries, name)(#[trigger] workspaces[j])
        },
        found(workspaces, entries, name) is None <==> forall|j: int|
            0 <= j < workspaces.len() ==> !answers_to(entries, name)(#[trigger] workspaces[j]),
{
    let wanted = answers_to(entries, name);
    search::lemma_first_index(workspaces, wanted);
    let i = search::first_index(workspaces, wanted);
    if i < workspaces.len() {
        assert(wanted(workspaces[i]));
    }
    if 0 <= k < workspaces.len() && wanted(workspaces[k]) && (forall|j: int|
        0 <= j < k ==> !wanted(#[trigger] workspaces[j])) {
        search::lemma_first_index_is(workspaces, wanted, k);
    }
}

/// A workspace shows the name that is recorded for its id, and its own if none is; one without
/// an id keeps its own. Nothing else of it changes.
pub proof fn law_recorded_name_is_shown(w: WsEntryView, entries: Seq<names::Entry>)
    ensures
        names::name_of(entries, w.info.id) matches Some(name) ==> renamed(w, entries).info.name
            == name,
        names::name_of(entries, w.info.id) is None ==> renamed(w, entries) == w,
        w.info.id.len() == 0 ==> renamed(w, entries) == w,
        renamed(w, entries).info == (WorkspaceView {
            name: renamed(w, entries).info.name,
            ..w.info
        }),
        renamed(w, entries) == (WsEntryView { info: renamed(w, entries).info, ..w }),
        renamed(renamed(w, entries), entries) == renamed(w, entries),
{
}

/// A workspace is free exactly if it is there and not pinned, whatever else is told of its
/// state.
pub proof fn law_pinned_workspaces_are_not_free(w: WsEntryView)
    ensures
        w.removed ==> !is_free(w),
        w.info.cosmic_state % 2 == 1 ==> !is_free(w),
        !w.removed && w.info.cosmic_state % 2 == 0 ==> is_free(w),
{
    let state = w.info.cosmic_state;
    assert(state & 1 == state % 2) by (bit_vector);
}

/// The trailing workspace is free, none that is free lies behind it, and of those at its own
/// place it is the last that was announced.
pub proof fn law_trailing_workspace_lies_last(workspaces: Seq<WsEntryView>, i: int, j: int)
    requires
        trailing(workspaces) == Some(i),
        0 <= j < workspaces.len(),
        is_free(workspaces[j]),
    ensures
        0 <= i < workspaces.len(),
        is_free(workspaces[i]),
        !order::before(workspaces[i].info.coordinates, workspaces[j].info.coordinates),
        workspaces[j].info.coordinates == workspaces[i].info.coordinates ==> j <= i,
{
    law_trailing_is_unique(workspaces, i);
    order::lemma_before_total(workspaces[i].info.coordinates, workspaces[j].info.coordinates);
}

/// The workspaces that are there are taken in the order in which they were announced: one more
/// comes last if it is there, and changes nothing if it was removed.
pub proof fn law_present_workspaces_keep_their_order(
    workspaces: Seq<WsEntryView>,
    w: WsEntryView,
)
    ensures
        present(seq![]).len() == 0,
        !w.removed ==> present(workspaces.push(w)) == present(workspaces).push(w.info),
        w.removed ==> present(workspaces.push(w)) == present(workspaces),
{
    reveal(Seq::filter);
    assert(workspaces.push(w).drop_last() =~= workspaces);
    assert(present(workspaces.push(w)) =~= if w.removed {
        present(workspaces)
    } else {
        present(workspaces).push(w.info)
    });
}

/// A listing is ordered by the places of the workspaces: of two that lie apart, the one whose
/// place comes before is listed before.
pub proof fn law_listing_goes_by_place(
    list: Seq<WorkspaceView>,
    from: Seq<WorkspaceView>,
    i: int,
    j: int,
)
    requires
        sorted_from(list, from),
        0 <= i < list.len(),
        0 <= j < list.len(),
    ensures
        order::before(list[i].coordinates, list[j].coordinates) ==> i < j,
        i < j ==> order::before(list[i].coordinates, list[j].coordinates) || list[i].coordinates
            == list[j].coordinates,
        list.filter(lies_at(list[i].coordinates)) == from.filter(lies_at(list[i].coordinates)),
        lies_at(list[i].coordinates)(list[j]) <==> list[j].coordinates == list[i].coordinates,
{
    order::lemma_before_total(list[i].coordinates, list[j].coordinates);
    assert(agree_at(list, from, list[i].coordinates));
}

} // verus!
