//! The order in which directory entries are listed.

use crate::shell::commands::types::{entry_views, DirEntry, EntryView};
use crate::text::to_chars;
use vstd::prelude::*;

verus! {

/// `a` is no greater than `b` in lexicographic order by character.
pub open spec fn lex_le(a: Seq<char>, b: Seq<char>) -> bool
    decreases a.len(),
{
    if a.len() == 0 {
        true
    } else if b.len() == 0 {
        false
    } else if a[0] != b[0] {
        a[0] < b[0]
    } else {
        lex_le(a.drop_first(), b.drop_first())
    }
}

/// `a` may stand before `b`: by name, and with `dirs_first` every
/// directory before every file.
pub open spec fn precedes(a: EntryView, b: EntryView, dirs_first: bool) -> bool {
    if dirs_first && a.is_dir != b.is_dir {
        a.is_dir
    } else {
        lex_le(a.name, b.name)
    }
}

/// `e` put into the ordered list `sorted`, behind every entry that may
/// stand before it.
pub open spec fn insert(sorted: Seq<EntryView>, e: EntryView, dirs_first: bool) -> Seq<EntryView>
    decreases sorted.len(),
{
    if sorted.len() > 0 && !precedes(sorted.last(), e, dirs_first) {
        insert(sorted.drop_last(), e, dirs_first).push(sorted.last())
    } else {
        sorted.push(e)
    }
}

/// `entries` in listing order; entries that compare equal keep their
/// order.
pub open spec fn sorted(entries: Seq<EntryView>, dirs_first: bool) -> Seq<EntryView>
    decreases entries.len(),
{
    if entries.len() == 0 {
        Seq::empty()
    } else {
        insert(sorted(entries.drop_last(), dirs_first), entries.last(), dirs_first)
    }
}

/// Every entry may stand before all that follow it.
pub open spec fn is_ordered(entries: Seq<EntryView>, dirs_first: bool) -> bool {
    forall|i: int, j: int|
        0 <= i < j < entries.len() ==> precedes(
            #[trigger] entries[i],
            #[trigger] entries[j],
            dirs_first,
        )
}

/// Of two names one is no greater than the other.
pub proof fn lemma_lex_total(a: Seq<char>, b: Seq<char>)
    ensures
        lex_le(a, b) || lex_le(b, a),
    decreases a.len(),
{
    if a.len() > 0 && b.len() > 0 && a[0] == b[0] {
        lemma_lex_total(a.drop_first(), b.drop_first());
    }
}

/// The order of names is transitive.
pub proof fn lemma_lex_transitive(a: Seq<char>, b: Seq<char>, c: Seq<char>)
    requires
        lex_le(a, b),
        lex_le(b, c),
    ensures
        lex_le(a, c),
    decreases a.len(),
{
    if a.len() > 0 && b.len() > 0 && c.len() > 0 && a[0] == b[0] && b[0] == c[0] {
        lemma_lex_transitive(a.drop_first(), b.drop_first(), c.drop_first());
    }
}

/// The listing order is total and transitive.
pub proof fn lemma_precedes_order(a: EntryView, b: EntryView, c: EntryView, dirs_first: bool)
    ensures
        precedes(a, b, dirs_first) || precedes(b, a, dirs_first),
        precedes(a, b, dirs_first) && precedes(b, c, dirs_first) ==> precedes(a, c, dirs_first),
{
    lemma_lex_total(a.name, b.name);
    if precedes(a, b, dirs_first) && precedes(b, c, dirs_first) {
        if dirs_first && (a.is_dir != b.is_dir || b.is_dir != c.is_dir) {
        } else {
            lemma_lex_transitive(a.name, b.name, c.name);
        }
    }
}

proof fn lemma_insert_shape(list: Seq<EntryView>, e: EntryView, dirs_first: bool)
    ensures
        insert(list, e, dirs_first).len() == list.len() + 1,
        insert(list, e, dirs_first).to_multiset() == list.to_multiset().insert(e),
        forall|k: int|
            0 <= k < insert(list, e, dirs_first).len() ==> #[trigger] insert(list, e, dirs_first)[k]
                == e || exists|m: int| 0 <= m < list.len() && list[m] == insert(list, e, dirs_first)[k],
    decreases list.len(),
{
    broadcast use vstd::seq_lib::to_multiset_build;

    let out = insert(list, e, dirs_first);
    if list.len() > 0 && !precedes(list.last(), e, dirs_first) {
        let init = list.drop_last();
        lemma_insert_shape(init, e, dirs_first);
        assert(init.push(list.last()) =~= list);
        assert(out.to_multiset() =~= list.to_multiset().insert(e));
        assert forall|k: int| 0 <= k < out.len() implies #[trigger] out[k] == e || exists|m: int|
            0 <= m < list.len() && list[m] == out[k] by {
            if k < out.len() - 1 {
                let inner = insert(init, e, dirs_first);
                assert(out[k] == inner[k]);
                if inner[k] != e {
                    let m = choose|m: int| 0 <= m < init.len() && init[m] == inner[k];
                    assert(list[m] == out[k]);
                }
            } else {
                assert(list[list.len() - 1] == out[k]);
            }
        }
    } else {
        assert forall|k: int| 0 <= k < out.len() implies #[trigger] out[k] == e || exists|m: int|
            0 <= m < list.len() && list[m] == out[k] by {
            if k < list.len() {
                assert(list[k] == out[k]);
            }
        }
    }
}

proof fn lemma_insert_ordered(list: Seq<EntryView>, e: EntryView, dirs_first: bool)
    requires
        is_ordered(list, dirs_first),
    ensures
        is_ordered(insert(list, e, dirs_first), dirs_first),
    decreases list.len(),
{
    let out = insert(list, e, dirs_first);
    if list.len() > 0 && !precedes(list.last(), e, dirs_first) {
        let init = list.drop_last();
        let top = list.last();
        assert(is_ordered(init, dirs_first)) by {
            assert forall|i: int, j: int| 0 <= i < j < init.len() implies precedes(
                #[trigger] init[i],
                #[trigger] init[j],
                dirs_first,
            ) by {
                assert(precedes(list[i], list[j], dirs_first));
            }
        }
        lemma_insert_ordered(init, e, dirs_first);
        lemma_insert_shape(init, e, dirs_first);
        let inner = insert(init, e, dirs_first);
        assert forall|i: int, j: int| 0 <= i < j < out.len() implies precedes(
            #[trigger] out[i],
            #[trigger] out[j],
            dirs_first,
        ) by {
            if j < out.len() - 1 {
                assert(precedes(inner[i], inner[j], dirs_first));
            } else {
                assert(out[j] == top);
                assert(out[i] == inner[i]);
                if inner[i] == e {
                    lemma_precedes_order(e, top, top, dirs_first);
                } else {
                    let m = choose|m: int| 0 <= m < init.len() && init[m] == inner[i];
                    assert(precedes(list[m], list[list.len() - 1], dirs_first));
                }
            }
        }
    } else {
        assert forall|i: int, j: int| 0 <= i < j < out.len() implies precedes(
            #[trigger] out[i],
            #[trigger] out[j],
            dirs_first,
        ) by {
            if j < list.len() {
                assert(precedes(list[i], list[j], dirs_first));
            } else if i < list.len() - 1 {
                assert(precedes(list[i], list[list.len() - 1], dirs_first));
                lemma_precedes_order(list[i], list.last(), e, dirs_first);
            }
        }
    }
}

/// Listing order: the sorted entries are the given entries, each as
/// often as given, and every entry may stand before all that follow it:
/// with `dirs_first`, directories come before files, and within each
/// kind names ascend.
pub proof fn lemma_sorted_is_ordered_permutation(entries: Seq<EntryView>, dirs_first: bool)
    ensures
        sorted(entries, dirs_first).len() == entries.len(),
        sorted(entries, dirs_first).to_multiset() == entries.to_multiset(),
        is_ordered(sorted(entries, dirs_first), dirs_first),
    decreases entries.len(),
{
    broadcast use vstd::seq_lib::to_multiset_build;

    if entries.len() == 0 {
        assert(sorted(entries, dirs_first) =~= entries);
    } else {
        let init = entries.drop_last();
        lemma_sorted_is_ordered_permutation(init, dirs_first);
        lemma_insert_shape(sorted(init, dirs_first), entries.last(), dirs_first);
        lemma_insert_ordered(sorted(init, dirs_first), entries.last(), dirs_first);
        assert(init.push(entries.last()) =~= entries);
    }
}

/// Whether `a` is no greater than `b` in lexicographic order.
fn chars_le(a: &Vec<char>, b: &Vec<char>) -> (r: bool)
    ensures
        r == lex_le(a@, b@),
{
    let mut i: usize = 0;
    proof {
        assert(a@.skip(0) =~= a@);
        assert(b@.skip(0) =~= b@);
    }
    while i < a.len() && i < b.len() && a[i] == b[i]
        invariant
            i <= a.len(),
            i <= b.len(),
            lex_le(a@, b@) == lex_le(a@.skip(i as int), b@.skip(i as int)),
        decreases a.len() - i,
    {
        proof {
            assert(a@.skip(i as int).drop_first() =~= a@.skip(i + 1));
            assert(b@.skip(i as int).drop_first() =~= b@.skip(i + 1));
        }
        i += 1;
    }
    if i >= a.len() {
        true
    } else if i >= b.len() {
        false
    } else {
        a[i] < b[i]
    }
}

/// Whether `a` may stand before `b`.
pub fn entry_precedes(a: &DirEntry, b: &DirEntry, dirs_first: bool) -> (r: bool)
    ensures
        r == precedes(a@, b@, dirs_first),
{
    if dirs_first && a.is_dir != b.is_dir {
        a.is_dir
    } else {
        let x = to_chars(a.name.as_str());
        let y = to_chars(b.name.as_str());
        chars_le(&x, &y)
    }
}

proof fn lemma_insert_at(list: Seq<EntryView>, e: EntryView, dirs_first: bool, at: int)
    requires
        0 <= at <= list.len(),
        forall|k: int| at <= k < list.len() ==> !precedes(#[trigger] list[k], e, dirs_first),
        at > 0 ==> precedes(list[at - 1], e, dirs_first),
    ensures
        insert(list, e, dirs_first) == list.insert(at, e),
    decreases list.len() - at,
{
    if at == list.len() {
        assert(list.insert(at, e) =~= list.push(e));
    } else {
        assert(!precedes(list[list.len() - 1], e, dirs_first));
        let init = list.drop_last();
        assert forall|k: int| at <= k < init.len() implies !precedes(
            #[trigger] init[k],
            e,
            dirs_first,
        ) by {
            assert(init[k] == list[k]);
        }
        lemma_insert_at(init, e, dirs_first, at);
        assert(init.insert(at, e).push(list.last()) =~= list.insert(at, e));
    }
}

/// Sorts `entries` into listing order: by name, and with `dirs_first`
/// directories before files. Entries that compare equal keep their order.
pub fn sort_entries(entries: Vec<DirEntry>, dirs_first: bool) -> (out: Vec<DirEntry>)
    ensures
        entry_views(out@) == sorted(entry_views(entries@), dirs_first),
{
    let mut rest = entries;
    let mut out: Vec<DirEntry> = Vec::new();
    let ghost all = entry_views(entries@);
    let ghost mut done: int = 0;
    proof {
        assert(all.take(0) =~= Seq::<EntryView>::empty());
        assert(entry_views(out@) =~= sorted(all.take(0), dirs_first));
        assert(all.skip(0) =~= all);
    }
    while rest.len() > 0
        invariant
            0 <= done <= all.len(),
            entry_views(rest@) == all.skip(done),
            entry_views(out@) == sorted(all.take(done), dirs_first),
        decreases rest.len(),
    {
        let ghost before_rest = entry_views(rest@);
        let ghost old_rest = rest@;
        proof {
            assert(before_rest.len() == rest@.len());
            assert(done < all.len());
        }
        let e = rest.remove(0);
        proof {
            assert(e@ == before_rest[0]);
            assert forall|k: int| 0 <= k < rest@.len() implies entry_views(rest@)[k] == all.skip(
                done + 1,
            )[k] by {
                assert(rest@[k] == old_rest[k + 1]);
                assert(before_rest[k + 1] == old_rest[k + 1]@);
            }
            assert(entry_views(rest@) =~= all.skip(done + 1));
            assert(all.take(done + 1).drop_last() =~= all.take(done));
        }
        let mut at: usize = out.len();
        while at > 0 && !entry_precedes(&out[at - 1], &e, dirs_first)
            invariant
                at <= out.len(),
                forall|k: int|
                    at <= k < out.len() ==> !precedes(
                        #[trigger] entry_views(out@)[k],
                        e@,
                        dirs_first,
                    ),
            decreases at,
        {
            at -= 1;
        }
        proof {
            lemma_insert_at(entry_views(out@), e@, dirs_first, at as int);
        }
        let ghost before_out = entry_views(out@);
        out.insert(at, e);
        proof {
            assert(entry_views(out@) =~= before_out.insert(at as int, e@));
            done = done + 1;
        }
    }
    proof {
        assert(all.take(all.len() as int) =~= all);
    }
    out
}

} // verus!
