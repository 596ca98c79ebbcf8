//! The registry's contents as a mathematical value: a sequence of records,
//! in the order in which their ids first came in, no id twice.

use vstd::prelude::*;
use crate::calendar::CalendarView;

verus! {

/// No two records of `s` share an id.
pub open spec fn ids_distinct(s: Seq<CalendarView>) -> bool {
    forall|i: int, j: int| 0 <= i < j < s.len() ==> (#[trigger] s[i]).id != (#[trigger] s[j]).id
}

/// Some record of `s` has the id `id`.
pub open spec fn has_id(s: Seq<CalendarView>, id: Seq<char>) -> bool {
    exists|i: int| 0 <= i < s.len() && (#[trigger] s[i]).id == id
}

/// The place of a record with the id `id`. Where the ids are distinct and
/// one of them is `id`, it is the place of that one record.
pub open spec fn index_of_id(s: Seq<CalendarView>, id: Seq<char>) -> int {
    choose|i: int| 0 <= i < s.len() && (#[trigger] s[i]).id == id
}

/// The record with the id `id`, if there is one.
pub open spec fn lookup(s: Seq<CalendarView>, id: Seq<char>) -> Option<CalendarView> {
    if has_id(s, id) {
        Some(s[index_of_id(s, id)])
    } else {
        None
    }
}

/// `c` under the id `id`.
pub open spec fn with_id(c: CalendarView, id: Seq<char>) -> CalendarView {
    CalendarView { id, ..c }
}

/// `c` with its flag turned over.
pub open spec fn flipped(c: CalendarView) -> CalendarView {
    CalendarView { enabled: !c.enabled, ..c }
}

/// `s` after `c` was put in: in the place of the record that had its id,
/// or behind all the others where none had it.
pub open spec fn put(s: Seq<CalendarView>, c: CalendarView) -> Seq<CalendarView> {
    if has_id(s, c.id) {
        s.update(index_of_id(s, c.id), c)
    } else {
        s.push(c)
    }
}

/// The record that an add stores: `c` itself, or `c` under the id `fresh`
/// where it came with a blank one.
pub open spec fn identified(c: CalendarView, fresh: Seq<char>) -> CalendarView {
    if c.id.len() == 0 {
        with_id(c, fresh)
    } else {
        c
    }
}

/// `s` after `c` was added, `fresh` being the id on offer for it.
pub open spec fn added(s: Seq<CalendarView>, c: CalendarView, fresh: Seq<char>) -> Seq<
    CalendarView,
> {
    put(s, identified(c, fresh))
}

/// `s` after the record with the id `id` was replaced by `c`, which takes
/// that id whatever its own was. Without such a record, `s`.
pub open spec fn replaced(s: Seq<CalendarView>, id: Seq<char>, c: CalendarView) -> Seq<
    CalendarView,
> {
    if has_id(s, id) {
        s.update(index_of_id(s, id), with_id(c, id))
    } else {
        s
    }
}

/// `s` without the record that has the id `id`.
pub open spec fn without(s: Seq<CalendarView>, id: Seq<char>) -> Seq<CalendarView> {
    if has_id(s, id) {
        s.remove(index_of_id(s, id))
    } else {
        s
    }
}

/// `s` after the flag of the record with the id `id` was turned over.
/// Without such a record, `s`.
pub open spec fn toggled(s: Seq<CalendarView>, id: Seq<char>) -> Seq<CalendarView> {
    if has_id(s, id) {
        s.update(index_of_id(s, id), flipped(s[index_of_id(s, id)]))
    } else {
        s
    }
}

/// The records of `s` whose flag is set, in the order of `s`.
pub open spec fn enabled_of(s: Seq<CalendarView>) -> Seq<CalendarView> {
    s.filter(|c: CalendarView| c.enabled)
}

/// `s` after each record of `cs` was put in, first to last.
pub open spec fn put_all(s: Seq<CalendarView>, cs: Seq<CalendarView>) -> Seq<CalendarView>
    decreases cs.len(),
{
    if cs.len() == 0 {
        s
    } else {
        put(put_all(s, cs.drop_last()), cs.last())
    }
}

/// Where the ids are distinct, the record at `i` is the one that its id
/// finds.
pub proof fn lemma_index_of_id(s: Seq<CalendarView>, i: int)
    requires
        ids_distinct(s),
        0 <= i < s.len(),
    ensures
        has_id(s, s[i].id),
        index_of_id(s, s[i].id) == i,
{
    let j = index_of_id(s, s[i].id);
    assert(0 <= j < s.len() && s[j].id == s[i].id);
    if j < i {
        assert(s[j].id != s[i].id);
    } else if i < j {
        assert(s[i].id != s[j].id);
    }
}

/// Putting a record in keeps the ids distinct.
pub proof fn lemma_put_distinct(s: Seq<CalendarView>, c: CalendarView)
    requires
        ids_distinct(s),
    ensures
        ids_distinct(put(s, c)),
        has_id(put(s, c), c.id),
        lookup(put(s, c), c.id) == Some(c),
{
    let t = put(s, c);
    if has_id(s, c.id) {
        let k = index_of_id(s, c.id);
        assert forall|i: int, j: int| 0 <= i < j < t.len() implies (#[trigger] t[i]).id != (
        #[trigger] t[j]).id by {
            assert(t[i].id == s[i].id);
            assert(t[j].id == s[j].id);
        }
        assert(t[k] == c);
        lemma_index_of_id(t, k);
    } else {
        assert forall|i: int, j: int| 0 <= i < j < t.len() implies (#[trigger] t[i]).id != (
        #[trigger] t[j]).id by {
            if j == s.len() {
                assert(s[i].id != c.id);
            } else {
                assert(t[i].id == s[i].id);
                assert(t[j].id == s[j].id);
            }
        }
        assert(t[s.len() as int] == c);
        lemma_index_of_id(t, s.len() as int);
    }
}

} // verus!
