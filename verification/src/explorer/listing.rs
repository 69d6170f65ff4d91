//! What a listing is: the entries that the children of a directory are
//! listed as, in the order of their names. The listing is the same in
//! whatever order the file system reports the children.

use vstd::prelude::*;

use super::dir::{classify_child, ChildView, Entry};
use super::path::{
    is_component, join, lemma_shown_le_antisymmetric, lemma_shown_le_total, lemma_shown_le_transitive,
    shown_le,
};

verus! {

/// The entries that the children of `dir` are listed as, in the order of the
/// children.
pub open spec fn classified(dir: Seq<char>, children: Seq<ChildView>) -> Seq<Entry>
    decreases children.len(),
{
    if children.len() == 0 {
        Seq::empty()
    } else {
        let earlier = classified(dir, children.drop_last());
        match classify_child(dir, children.last()) {
            Some(entry) => earlier.push(entry),
            None => earlier,
        }
    }
}

/// Whether the names of `entries` ascend, those without a name first.
pub open spec fn sorted_by_name(entries: Seq<Entry>) -> bool {
    forall|i: int, j: int|
        0 <= i <= j < entries.len() ==> shown_le(#[trigger] entries[i].name, #[trigger] entries[j].name)
}

/// Where an entry called `name` goes into `entries`: behind the last entry
/// whose name does not come after `name`.
pub open spec fn insertion_point(entries: Seq<Entry>, name: Option<Seq<char>>) -> int
    decreases entries.len(),
{
    if entries.len() == 0 {
        0
    } else if shown_le(entries.last().name, name) {
        entries.len() as int
    } else {
        insertion_point(entries.drop_last(), name)
    }
}

/// `entries` with what `child` of the directory `dir` is listed as put in
/// its place; unchanged where `child` is not listed.
pub open spec fn with_child(entries: Seq<Entry>, dir: Seq<char>, child: ChildView) -> Seq<Entry> {
    match classify_child(dir, child) {
        Some(entry) => entries.insert(insertion_point(entries, entry.name), entry),
        None => entries,
    }
}

/// The listing of the directory `dir` whose children are `children`: what
/// the children are listed as, each put in its place among those before it.
pub open spec fn listing(dir: Seq<char>, children: Seq<ChildView>) -> Seq<Entry>
    decreases children.len(),
{
    if children.len() == 0 {
        Seq::empty()
    } else {
        with_child(listing(dir, children.drop_last()), dir, children.last())
    }
}

/// Whether `children` are named as the entries of one directory are: each
/// by one component of a path, and no two alike.
pub open spec fn distinct_names(children: Seq<ChildView>) -> bool {
    &&& forall|i: int| 0 <= i < children.len() ==> is_component((#[trigger] children[i]).name)
    &&& forall|i: int, j: int|
        0 <= i < j < children.len() ==> (#[trigger] children[i]).name != (
        #[trigger] children[j]).name
}

/// In an ascending run, the entries before the insertion point of `name` do
/// not come after `name`, and those from it on do.
pub proof fn lemma_insertion_point(entries: Seq<Entry>, name: Option<Seq<char>>)
    requires
        sorted_by_name(entries),
    ensures
        0 <= insertion_point(entries, name) <= entries.len(),
        forall|i: int|
            0 <= i < insertion_point(entries, name) ==> shown_le(#[trigger] entries[i].name, name),
        forall|i: int|
            insertion_point(entries, name) <= i < entries.len() ==> !shown_le(
                #[trigger] entries[i].name,
                name,
            ),
    decreases entries.len(),
{
    if entries.len() > 0 {
        let last = entries.last();
        if shown_le(last.name, name) {
            assert forall|i: int| 0 <= i < entries.len() implies shown_le(
                #[trigger] entries[i].name,
                name,
            ) by {
                lemma_shown_le_transitive(entries[i].name, last.name, name);
            }
        } else {
            let front = entries.drop_last();
            assert(sorted_by_name(front)) by {
                assert forall|i: int, j: int| 0 <= i <= j < front.len() implies shown_le(
                    #[trigger] front[i].name,
                    #[trigger] front[j].name,
                ) by {
                    assert(front[i] == entries[i] && front[j] == entries[j]);
                }
            }
            lemma_insertion_point(front, name);
            let p = insertion_point(front, name);
            assert forall|i: int| 0 <= i < p implies shown_le(#[trigger] entries[i].name, name) by {
                assert(front[i] == entries[i]);
            }
            assert forall|i: int| p <= i < entries.len() implies !shown_le(
                #[trigger] entries[i].name,
                name,
            ) by {
                if i < front.len() {
                    assert(front[i] == entries[i]);
                }
            }
        }
    }
}

/// Putting an entry at its insertion point keeps an ascending run ascending.
pub proof fn lemma_insert_keeps_sorted(entries: Seq<Entry>, entry: Entry)
    requires
        sorted_by_name(entries),
    ensures
        sorted_by_name(entries.insert(insertion_point(entries, entry.name), entry)),
{
    lemma_insertion_point(entries, entry.name);
    let p = insertion_point(entries, entry.name);
    let after = entries.insert(p, entry);
    assert forall|i: int, j: int| 0 <= i <= j < after.len() implies shown_le(
        #[trigger] after[i].name,
        #[trigger] after[j].name,
    ) by {
        if i == p {
            if j > p {
                assert(after[j] == entries[j - 1]);
                lemma_shown_le_total(entries[j - 1].name, entry.name);
            } else {
                lemma_shown_le_total(entry.name, entry.name);
            }
        } else if j == p {
            assert(after[i] == entries[i]);
        } else {
            let oi = if i < p { i } else { i - 1 };
            let oj = if j < p { j } else { j - 1 };
            assert(after[i] == entries[oi] && after[j] == entries[oj]);
        }
    }
}

/// The names of a listing ascend.
pub proof fn lemma_listing_sorted(dir: Seq<char>, children: Seq<ChildView>)
    ensures
        sorted_by_name(listing(dir, children)),
    decreases children.len(),
{
    if children.len() > 0 {
        let earlier = listing(dir, children.drop_last());
        lemma_listing_sorted(dir, children.drop_last());
        match classify_child(dir, children.last()) {
            Some(entry) => {
                lemma_insert_keeps_sorted(earlier, entry);
            },
            None => {},
        }
    }
}

/// A listing holds what the children are listed as, each as often as it
/// occurs among them, and nothing else.
pub proof fn lemma_listing_exact(dir: Seq<char>, children: Seq<ChildView>)
    ensures
        listing(dir, children).to_multiset() == classified(dir, children).to_multiset(),
    decreases children.len(),
{
    broadcast use vstd::seq_lib::group_to_multiset_ensures;

    if children.len() > 0 {
        let earlier = listing(dir, children.drop_last());
        let plain = classified(dir, children.drop_last());
        lemma_listing_exact(dir, children.drop_last());
        lemma_listing_sorted(dir, children.drop_last());
        match classify_child(dir, children.last()) {
            Some(entry) => {
                lemma_insertion_point(earlier, entry.name);
                let p = insertion_point(earlier, entry.name);
                let after = earlier.insert(p, entry);
                assert(after.remove(p) =~= earlier);
                assert(after[p] == entry);
                assert(after.to_multiset().count(entry) > 0) by {
                    assert(after.contains(entry));
                }
                assert(after.to_multiset() =~= earlier.to_multiset().insert(entry));
                assert(plain.push(entry).to_multiset() =~= plain.to_multiset().insert(entry));
            },
            None => {},
        }
    }
}

/// What the children are listed as is what some child is listed as.
pub proof fn lemma_classified_members(dir: Seq<char>, children: Seq<ChildView>, entry: Entry)
    ensures
        classified(dir, children).contains(entry) <==> exists|i: int|
            0 <= i < children.len() && classify_child(dir, #[trigger] children[i]) == Some(entry),
    decreases children.len(),
{
    if children.len() > 0 {
        let front = children.drop_last();
        let earlier = classified(dir, front);
        lemma_classified_members(dir, front, entry);
        if classified(dir, children).contains(entry) {
            if earlier.contains(entry) {
                let i = choose|i: int|
                    0 <= i < front.len() && classify_child(dir, #[trigger] front[i]) == Some(entry);
                assert(children[i] == front[i]);
            } else {
                let at = choose|at: int|
                    0 <= at < classified(dir, children).len() && classified(dir, children)[at]
                        == entry;
                assert(at == earlier.len());
                assert(classify_child(dir, children[children.len() - 1]) == Some(entry));
            }
        }
        if exists|i: int|
            0 <= i < children.len() && classify_child(dir, #[trigger] children[i]) == Some(entry) {
            let i = choose|i: int|
                0 <= i < children.len() && classify_child(dir, #[trigger] children[i]) == Some(
                    entry,
                );
            if i < front.len() {
                assert(front[i] == children[i]);
                let at = choose|at: int| 0 <= at < earlier.len() && earlier[at] == entry;
                assert(classified(dir, children)[at] == entry);
            } else {
                assert(classified(dir, children)[earlier.len() as int] == entry);
            }
        }
    }
}

/// A listing holds exactly the sub-directories of the directory and its
/// regular files whose extensions name a supported format: an entry is
/// listed if and only if some child is listed as it.
pub proof fn lemma_listing_members(dir: Seq<char>, children: Seq<ChildView>, entry: Entry)
    ensures
        listing(dir, children).contains(entry) <==> exists|i: int|
            0 <= i < children.len() && classify_child(dir, #[trigger] children[i]) == Some(entry),
{
    broadcast use vstd::seq_lib::group_to_multiset_ensures;

    lemma_listing_exact(dir, children);
    lemma_classified_members(dir, children, entry);
    assert(listing(dir, children).contains(entry) <==> classified(dir, children).contains(entry)) by {
        assert(listing(dir, children).to_multiset().count(entry) == classified(
            dir,
            children,
        ).to_multiset().count(entry));
    }
}

/// Every entry of a listing is well formed.
pub proof fn lemma_listing_wf(dir: Seq<char>, children: Seq<ChildView>)
    ensures
        forall|i: int|
            0 <= i < listing(dir, children).len() ==> (#[trigger] listing(dir, children)[i]).wf(),
    decreases children.len(),
{
    if children.len() > 0 {
        let earlier = listing(dir, children.drop_last());
        lemma_listing_wf(dir, children.drop_last());
        lemma_listing_sorted(dir, children.drop_last());
        match classify_child(dir, children.last()) {
            Some(entry) => {
                lemma_insertion_point(earlier, entry.name);
                assert(entry.name matches Some(name) ==> entry.path == join(dir, name));
                assert(entry.wf());
            },
            None => {},
        }
    }
}

/// The one place of an ascending run before which no name comes after `name`
/// and from which on every name does is the insertion point of `name`.
pub proof fn lemma_insertion_point_is(entries: Seq<Entry>, name: Option<Seq<char>>, at: int)
    requires
        sorted_by_name(entries),
        0 <= at <= entries.len(),
        forall|i: int| 0 <= i < at ==> shown_le(#[trigger] entries[i].name, name),
        forall|i: int| at <= i < entries.len() ==> !shown_le(#[trigger] entries[i].name, name),
    ensures
        insertion_point(entries, name) == at,
{
    lemma_insertion_point(entries, name);
    let found = insertion_point(entries, name);
    if found < at {
        assert(shown_le(entries[found].name, name));
    } else if at < found {
        assert(shown_le(entries[at].name, name));
    }
}

/// Two entries of different names can be put into an ascending run in
/// either order.
pub proof fn lemma_insertions_commute(entries: Seq<Entry>, first: Entry, second: Entry)
    requires
        sorted_by_name(entries),
        first.name != second.name,
    ensures
        ({
            let one = entries.insert(insertion_point(entries, first.name), first);
            let other = entries.insert(insertion_point(entries, second.name), second);
            one.insert(insertion_point(one, second.name), second) == other.insert(
                insertion_point(other, first.name),
                first,
            )
        }),
{
    lemma_shown_le_total(first.name, second.name);
    if shown_le(first.name, second.name) {
        lemma_ordered_insertions(entries, first, second);
    } else {
        lemma_ordered_insertions(entries, second, first);
    }
}

/// Of two entries with the name of `low` before that of `high`, whichever is
/// put into an ascending run first, `low` ends up at its own insertion point
/// and `high` one behind its own.
proof fn lemma_ordered_insertions(entries: Seq<Entry>, low: Entry, high: Entry)
    requires
        sorted_by_name(entries),
        low.name != high.name,
        shown_le(low.name, high.name),
    ensures
        ({
            let with_low = entries.insert(insertion_point(entries, low.name), low);
            let with_high = entries.insert(insertion_point(entries, high.name), high);
            with_low.insert(insertion_point(with_low, high.name), high) == with_high.insert(
                insertion_point(with_high, low.name),
                low,
            )
        }),
{
    let p = insertion_point(entries, low.name);
    let q = insertion_point(entries, high.name);
    lemma_insertion_point(entries, low.name);
    lemma_insertion_point(entries, high.name);
    assert(!shown_le(high.name, low.name)) by {
        if shown_le(high.name, low.name) {
            lemma_shown_le_antisymmetric(low.name, high.name);
        }
    }
    assert(p <= q) by {
        if q < p {
            lemma_shown_le_transitive(entries[q].name, low.name, high.name);
        }
    }
    let with_low = entries.insert(p, low);
    let with_high = entries.insert(q, high);
    lemma_insert_keeps_sorted(entries, low);
    lemma_insert_keeps_sorted(entries, high);
    assert(insertion_point(with_low, high.name) == q + 1) by {
        assert forall|i: int| 0 <= i < q + 1 implies shown_le(
            #[trigger] with_low[i].name,
            high.name,
        ) by {
            if i < p {
                assert(with_low[i] == entries[i]);
            } else if i > p {
                assert(with_low[i] == entries[i - 1]);
            }
        }
        assert forall|i: int| q + 1 <= i < with_low.len() implies !shown_le(
            #[trigger] with_low[i].name,
            high.name,
        ) by {
            assert(with_low[i] == entries[i - 1]);
        }
        lemma_insertion_point_is(with_low, high.name, q + 1);
    }
    assert(insertion_point(with_high, low.name) == p) by {
        assert forall|i: int| 0 <= i < p implies shown_le(
            #[trigger] with_high[i].name,
            low.name,
        ) by {
            assert(with_high[i] == entries[i]);
        }
        assert forall|i: int| p <= i < with_high.len() implies !shown_le(
            #[trigger] with_high[i].name,
            low.name,
        ) by {
            if i < q {
                assert(with_high[i] == entries[i]);
            } else if i > q {
                assert(with_high[i] == entries[i - 1]);
            }
        }
        lemma_insertion_point_is(with_high, low.name, p);
    }
    assert(with_low.insert(q + 1, high) =~= with_high.insert(p, low));
}

/// Two children under different names, each one component of a path, can
/// be put into an ascending run in either order.
pub proof fn lemma_children_commute(
    entries: Seq<Entry>,
    dir: Seq<char>,
    first: ChildView,
    second: ChildView,
)
    requires
        sorted_by_name(entries),
        is_component(first.name),
        is_component(second.name),
        first.name != second.name,
    ensures
        with_child(with_child(entries, dir, first), dir, second) == with_child(
            with_child(entries, dir, second),
            dir,
            first,
        ),
{
    match (classify_child(dir, first), classify_child(dir, second)) {
        (Some(one), Some(other)) => {
            assert(one.name == Some(first.name));
            assert(other.name == Some(second.name));
            lemma_insertions_commute(entries, one, other);
        },
        _ => {},
    }
}

/// Any child of a directory can be taken to have been reported last: the
/// listing is that of the other children with this one put in.
pub proof fn lemma_listing_any_last(dir: Seq<char>, children: Seq<ChildView>, at: int)
    requires
        distinct_names(children),
        0 <= at < children.len(),
    ensures
        listing(dir, children) == with_child(
            listing(dir, children.remove(at)),
            dir,
            children[at],
        ),
    decreases children.len(),
{
    let front = children.drop_last();
    if at == children.len() - 1 {
        assert(children.remove(at) =~= front);
    } else {
        let rest = front.remove(at);
        assert(distinct_names(front)) by {
            assert forall|i: int, j: int| 0 <= i < j < front.len() implies (
            #[trigger] front[i]).name != (#[trigger] front[j]).name by {
                assert(front[i] == children[i] && front[j] == children[j]);
            }
        }
        lemma_listing_any_last(dir, front, at);
        assert(front[at] == children[at]);
        assert(children.remove(at).drop_last() =~= rest);
        assert(children.remove(at).last() == children.last());
        lemma_listing_sorted(dir, rest);
        assert(children[at].name != children.last().name);
        lemma_children_commute(listing(dir, rest), dir, children[at], children.last());
    }
}

/// The listing of a directory does not depend on the order in which the
/// file system reports its children.
pub proof fn lemma_listing_ignores_order(
    dir: Seq<char>,
    children: Seq<ChildView>,
    reordered: Seq<ChildView>,
)
    requires
        distinct_names(children),
        children.to_multiset() == reordered.to_multiset(),
    ensures
        listing(dir, children) == listing(dir, reordered),
    decreases reordered.len(),
{
    broadcast use vstd::seq_lib::group_to_multiset_ensures;

    assert(children.len() == reordered.len()) by {
        assert(children.len() == children.to_multiset().len());
        assert(reordered.len() == reordered.to_multiset().len());
    }
    if reordered.len() > 0 {
        let last = reordered.last();
        assert(reordered.contains(last));
        assert(children.to_multiset().count(last) > 0);
        assert(children.contains(last));
        let at = choose|at: int| 0 <= at < children.len() && children[at] == last;
        let others = children.remove(at);
        let front = reordered.drop_last();
        assert(front =~= reordered.remove(reordered.len() - 1));
        assert(others.to_multiset() =~= front.to_multiset());
        assert(distinct_names(others)) by {
            assert forall|i: int, j: int| 0 <= i < j < others.len() implies (
            #[trigger] others[i]).name != (#[trigger] others[j]).name by {
                let oi = if i < at { i } else { i + 1 };
                let oj = if j < at { j } else { j + 1 };
                assert(others[i] == children[oi] && others[j] == children[oj]);
            }
        }
        lemma_listing_ignores_order(dir, others, front);
        lemma_listing_any_last(dir, children, at);
    }
}

} // verus!
