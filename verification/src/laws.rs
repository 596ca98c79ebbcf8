//! What holds of the registry whatever is done with it.

use vstd::prelude::*;
use crate::calendar::CalendarView;
use crate::codec::csv_rows;
use crate::records::{
    added, enabled_of, flipped, has_id, identified, ids_distinct, index_of_id,
    lemma_index_of_id, lemma_put_distinct, lookup, put, put_all, replaced, toggled, with_id,
    without,
};
use crate::table::{
    each_record, flag_of, flag_text, header_row, loaded, record_of, records_of,
    rendered, row_of, table_of,
};

verus! {

/// A row that was written for a record is read as that record.
pub proof fn lemma_row_round_trip(c: CalendarView)
    ensures
        record_of(row_of(c)) == Some(c),
{
    reveal_strlit("true");
    reveal_strlit("false");
    assert("true"@.len() == 4 && "false"@.len() == 5);
    assert(flag_of(flag_text(c.enabled)) == Some(c.enabled));
}

/// Records whose ids are new to the registry and differ from each other
/// are put behind the others, in their order.
pub proof fn lemma_put_all_new(s: Seq<CalendarView>, cs: Seq<CalendarView>)
    requires
        ids_distinct(s + cs),
    ensures
        put_all(s, cs) == s + cs,
    decreases cs.len(),
{
    if cs.len() == 0 {
        assert(s + cs =~= s);
    } else {
        let all = s + cs;
        let front = cs.drop_last();
        assert(s + front =~= all.drop_last());
        assert forall|i: int, j: int| 0 <= i < j < (s + front).len() implies (#[trigger] (s
            + front)[i]).id != (#[trigger] (s + front)[j]).id by {
            assert((s + front)[i] == all[i]);
            assert((s + front)[j] == all[j]);
        }
        lemma_put_all_new(s, front);
        assert(!has_id(s + front, cs.last().id)) by {
            if has_id(s + front, cs.last().id) {
                let k = index_of_id(s + front, cs.last().id);
                assert((s + front)[k] == all[k]);
                assert(all[all.len() - 1] == cs.last());
                assert(all[k].id != all[all.len() - 1].id);
            }
        }
        assert((s + front).push(cs.last()) =~= all);
    }
}

/// The table of a registry is read as that registry.
pub proof fn lemma_table_round_trip(s: Seq<CalendarView>)
    requires
        ids_distinct(s),
    ensures
        records_of(table_of(s)) == Some(s),
{
    let rows = table_of(s);
    let tail = rows.skip(1);
    assert(rows[0] == header_row());
    assert forall|i: int| 0 <= i < tail.len() implies record_of(#[trigger] tail[i]) == Some(
        s[i],
    ) by {
        assert(tail[i] == rows[i + 1]);
        lemma_row_round_trip(s[i]);
    }
    assert(each_record(tail) =~= s);
    assert(Seq::<CalendarView>::empty() + s =~= s);
    lemma_put_all_new(Seq::empty(), s);
}

/// Round trip: the durable text that a registry hands out is loaded as
/// that registry, with each record in its place, whenever loading it
/// succeeds at all.
pub proof fn lemma_reload_restores(s: Seq<CalendarView>, text: Seq<u8>)
    requires
        ids_distinct(s),
        rendered(s) == Some(text),
    ensures
        loaded(text) == Some(s),
{
    assert(csv_rows(text) == Some(table_of(s)));
    lemma_table_round_trip(s);
}

/// The state after the records `blanks`, which came without an id, were
/// added one after the other, `fresh[i]` being the id drawn for
/// `blanks[i]`.
pub open spec fn added_each(
    s: Seq<CalendarView>,
    blanks: Seq<CalendarView>,
    fresh: Seq<Seq<char>>,
) -> Seq<CalendarView>
    decreases blanks.len(),
{
    if blanks.len() == 0 {
        s
    } else {
        added(added_each(s, blanks.drop_last(), fresh.drop_last()), blanks.last(), fresh.last())
    }
}

/// Uniqueness: records added without an id all get an id of their own,
/// different from each other's and from every id in the registry before,
/// provided that no id is drawn twice and none that the registry held
/// already. Each such add makes the registry one record longer and leaves
/// the others as they were.
pub proof fn lemma_blank_adds_distinct(
    s: Seq<CalendarView>,
    blanks: Seq<CalendarView>,
    fresh: Seq<Seq<char>>,
)
    requires
        ids_distinct(s),
        blanks.len() == fresh.len(),
        forall|i: int| 0 <= i < blanks.len() ==> (#[trigger] blanks[i]).id.len() == 0,
        forall|i: int, j: int| 0 <= i < j < fresh.len() ==> fresh[i] != fresh[j],
        forall|i: int| 0 <= i < fresh.len() ==> !has_id(s, #[trigger] fresh[i]),
    ensures
        ids_distinct(added_each(s, blanks, fresh)),
        added_each(s, blanks, fresh) == s + Seq::new(
            blanks.len(),
            |i: int| with_id(blanks[i], fresh[i]),
        ),
    decreases blanks.len(),
{
    let named = Seq::new(blanks.len(), |i: int| with_id(blanks[i], fresh[i]));
    if blanks.len() == 0 {
        assert(s + named =~= s);
    } else {
        let n = blanks.len() - 1;
        let front = blanks.drop_last();
        let front_ids = fresh.drop_last();
        let front_named = Seq::new(front.len(), |i: int| with_id(front[i], front_ids[i]));
        assert forall|i: int| 0 <= i < front.len() implies (#[trigger] front[i]).id.len()
            == 0 by {
            assert(front[i] == blanks[i]);
        }
        assert forall|i: int, j: int| 0 <= i < j < front_ids.len() implies front_ids[i]
            != front_ids[j] by {
            assert(front_ids[i] == fresh[i] && front_ids[j] == fresh[j]);
        }
        assert forall|i: int| 0 <= i < front_ids.len() implies !has_id(
            s,
            #[trigger] front_ids[i],
        ) by {
            assert(front_ids[i] == fresh[i]);
        }
        lemma_blank_adds_distinct(s, front, front_ids);
        let before = added_each(s, front, front_ids);
        let last = with_id(blanks[n], fresh[n]);
        assert(before == s + front_named);
        assert(!has_id(before, fresh[n])) by {
            if has_id(before, fresh[n]) {
                let k = index_of_id(before, fresh[n]);
                if k < s.len() {
                    assert(s[k].id == fresh[n]);
                    assert(has_id(s, fresh[n]));
                } else {
                    assert(before[k] == front_named[k - s.len()]);
                    assert(front_ids[k - s.len()] == fresh[k - s.len()]);
                }
            }
        }
        assert(blanks.last() == blanks[n] && fresh.last() == fresh[n]);
        lemma_put_distinct(before, last);
        assert(before.push(last) =~= s + named);
    }
}

/// Filtering: the enabled records are exactly the records of the registry
/// whose flag is set.
pub proof fn lemma_enabled_are_the_flagged(s: Seq<CalendarView>)
    ensures
        forall|c: CalendarView| #[trigger]
            enabled_of(s).contains(c) <==> s.contains(c) && c.enabled,
        enabled_of(s).len() <= s.len(),
{
    let shown = |c: CalendarView| c.enabled;
    s.lemma_filter_len(shown);
    assert forall|c: CalendarView| #[trigger]
        enabled_of(s).contains(c) <==> s.contains(c) && c.enabled by {
        if enabled_of(s).contains(c) {
            s.lemma_filter_contains_rev(shown, c);
        }
        if s.contains(c) && c.enabled {
            let i = choose|i: int| 0 <= i < s.len() && s[i] == c;
            s.lemma_filter_contains(shown, i);
        }
    }
}

/// Not found: an id that the registry does not hold changes nothing,
/// whether a record is to be replaced, taken out or turned over under it.
pub proof fn lemma_absent_id_changes_nothing(
    s: Seq<CalendarView>,
    id: Seq<char>,
    c: CalendarView,
)
    requires
        !has_id(s, id),
    ensures
        lookup(s, id) is None,
        replaced(s, id, c) == s,
        without(s, id) == s,
        toggled(s, id) == s,
{
}

/// An id that was never added is not held: what is held came in by an add
/// under that id.
pub proof fn lemma_held_ids_were_added(s: Seq<CalendarView>, c: CalendarView, id: Seq<char>)
    requires
        ids_distinct(s),
        !has_id(s, id),
        c.id != id,
    ensures
        !has_id(put(s, c), id),
{
    let t = put(s, c);
    if has_id(t, id) {
        let k = index_of_id(t, id);
        if has_id(s, c.id) {
            if k != index_of_id(s, c.id) {
                assert(t[k] == s[k]);
            }
        } else {
            if k < s.len() {
                assert(t[k] == s[k]);
            }
        }
    }
}

/// An id whose record was taken out is no longer held.
pub proof fn lemma_deleted_id_is_absent(s: Seq<CalendarView>, id: Seq<char>)
    requires
        ids_distinct(s),
    ensures
        !has_id(without(s, id), id),
        ids_distinct(without(s, id)),
{
    let t = without(s, id);
    if has_id(s, id) {
        let k = index_of_id(s, id);
        assert forall|i: int| 0 <= i < t.len() implies (#[trigger] t[i]).id != id by {
            let i0 = if i < k {
                i
            } else {
                i + 1
            };
            assert(t[i] == s[i0]);
            if i0 < k {
                assert(s[i0].id != s[k].id);
            } else {
                assert(s[k].id != s[i0].id);
            }
        }
        assert forall|a: int, b: int| 0 <= a < b < t.len() implies (#[trigger] t[a]).id != (
        #[trigger] t[b]).id by {
            let a0 = if a < k {
                a
            } else {
                a + 1
            };
            let b0 = if b < k {
                b
            } else {
                b + 1
            };
            assert(t[a] == s[a0]);
            assert(t[b] == s[b0]);
        }
    }
}

/// Every change keeps the ids distinct.
pub proof fn lemma_changes_keep_ids_distinct(
    s: Seq<CalendarView>,
    id: Seq<char>,
    c: CalendarView,
    fresh: Seq<char>,
)
    requires
        ids_distinct(s),
    ensures
        ids_distinct(added(s, c, fresh)),
        ids_distinct(replaced(s, id, c)),
        ids_distinct(without(s, id)),
        ids_distinct(toggled(s, id)),
{
    lemma_put_distinct(s, identified(c, fresh));
    lemma_deleted_id_is_absent(s, id);
    if has_id(s, id) {
        let k = index_of_id(s, id);
        let r = replaced(s, id, c);
        assert forall|i: int, j: int| 0 <= i < j < r.len() implies (#[trigger] r[i]).id != (
        #[trigger] r[j]).id by {
            assert(r[i].id == s[i].id);
            assert(r[j].id == s[j].id);
        }
        let t = toggled(s, id);
        assert forall|i: int, j: int| 0 <= i < j < t.len() implies (#[trigger] t[i]).id != (
        #[trigger] t[j]).id by {
            assert(t[i].id == s[i].id);
            assert(t[j].id == s[j].id);
        }
    }
}

/// The record at a place is the one that its id finds.
pub proof fn lemma_lookup_at(s: Seq<CalendarView>, i: int)
    requires
        ids_distinct(s),
        0 <= i < s.len(),
    ensures
        lookup(s, s[i].id) == Some(s[i]),
{
    lemma_index_of_id(s, i);
}

/// Two registries of one length that hold the same record wherever either
/// holds the id `id` find the same under it.
proof fn lemma_lookup_agrees(s: Seq<CalendarView>, t: Seq<CalendarView>, id: Seq<char>)
    requires
        ids_distinct(s),
        ids_distinct(t),
        forall|i: int| 0 <= i < s.len() && (#[trigger] s[i]).id == id ==> i < t.len() && t[i] == s[i],
        forall|i: int| 0 <= i < t.len() && (#[trigger] t[i]).id == id ==> i < s.len() && s[i] == t[i],
    ensures
        lookup(t, id) == lookup(s, id),
{
    if has_id(s, id) {
        let i = index_of_id(s, id);
        assert(t[i] == s[i]);
        lemma_index_of_id(t, i);
    } else if has_id(t, id) {
        let i = index_of_id(t, id);
        assert(s[i] == t[i]);
    }
}

/// After a record was put in, its id finds it, and every other id finds
/// what it found before.
pub proof fn lemma_lookup_after_put(s: Seq<CalendarView>, c: CalendarView, id: Seq<char>)
    requires
        ids_distinct(s),
    ensures
        lookup(put(s, c), id) == if id == c.id {
            Some(c)
        } else {
            lookup(s, id)
        },
{
    lemma_put_distinct(s, c);
    if id != c.id {
        lemma_lookup_agrees(s, put(s, c), id);
    }
}

/// After a record was replaced, its id finds the new record under that id,
/// and every other id finds what it found before.
pub proof fn lemma_lookup_after_replace(
    s: Seq<CalendarView>,
    at: Seq<char>,
    c: CalendarView,
    id: Seq<char>,
)
    requires
        ids_distinct(s),
    ensures
        lookup(replaced(s, at, c), id) == if id == at && has_id(s, at) {
            Some(with_id(c, at))
        } else {
            lookup(s, id)
        },
{
    lemma_changes_keep_ids_distinct(s, at, c, Seq::empty());
    if has_id(s, at) {
        let k = index_of_id(s, at);
        let r = replaced(s, at, c);
        if id == at {
            assert(r[k] == with_id(c, at));
            lemma_lookup_at(r, k);
        } else {
            lemma_lookup_agrees(s, r, id);
        }
    }
}

/// After a record was taken out, its id finds nothing, and every other id
/// finds what it found before.
pub proof fn lemma_lookup_after_delete(s: Seq<CalendarView>, at: Seq<char>, id: Seq<char>)
    requires
        ids_distinct(s),
    ensures
        lookup(without(s, at), id) == if id == at {
            None
        } else {
            lookup(s, id)
        },
{
    lemma_deleted_id_is_absent(s, at);
    if has_id(s, at) && id != at {
        let k = index_of_id(s, at);
        let t = without(s, at);
        if has_id(s, id) {
            let i = index_of_id(s, id);
            let j = if i < k {
                i
            } else {
                i - 1
            };
            assert(t[j] == s[i]);
            lemma_index_of_id(t, j);
        } else if has_id(t, id) {
            let j = index_of_id(t, id);
            let i = if j < k {
                j
            } else {
                j + 1
            };
            assert(s[i] == t[j]);
        }
    }
}

/// After a flag was turned over, the id finds the same record with the
/// other flag, and every other id finds what it found before.
pub proof fn lemma_lookup_after_toggle(s: Seq<CalendarView>, at: Seq<char>, id: Seq<char>)
    requires
        ids_distinct(s),
    ensures
        lookup(toggled(s, at), id) == if id == at && has_id(s, at) {
            Some(flipped(lookup(s, at).unwrap()))
        } else {
            lookup(s, id)
        },
{
    lemma_changes_keep_ids_distinct(s, at, s[0], Seq::empty());
    if has_id(s, at) {
        let k = index_of_id(s, at);
        let t = toggled(s, at);
        if id == at {
            assert(t[k] == flipped(s[k]));
            lemma_lookup_at(t, k);
        } else {
            lemma_lookup_agrees(s, t, id);
        }
    }
}

/// Toggle pairs: turning the flag of a record over twice leaves the
/// registry as it was.
pub proof fn lemma_toggle_twice(s: Seq<CalendarView>, id: Seq<char>)
    requires
        ids_distinct(s),
    ensures
        toggled(toggled(s, id), id) == s,
{
    if has_id(s, id) {
        let k = index_of_id(s, id);
        let t = toggled(s, id);
        assert(t[k].id == id);
        assert forall|i: int, j: int| 0 <= i < j < t.len() implies (#[trigger] t[i]).id != (
        #[trigger] t[j]).id by {
            assert(t[i].id == s[i].id);
            assert(t[j].id == s[j].id);
        }
        lemma_index_of_id(t, k);
        assert(flipped(flipped(s[k])) == s[k]);
        assert(toggled(t, id) =~= s);
    }
}

} // verus!
