//! The registry: the records in memory, and their durable text.

use vstd::prelude::*;
use crate::calendar::{Calendar, CalendarView};
use crate::codec::read_records;
use crate::error::StoreError;
use crate::ident::new_id;
use crate::laws::lemma_reload_restores;
use crate::records::{
    added, enabled_of, has_id, ids_distinct, index_of_id, lemma_index_of_id,
    lemma_put_distinct, lookup, put, put_all, replaced, toggled, with_id, without,
};
use crate::table::{
    all_records, calendar_of, confirmed_text, each_record, fields_of, header_fields, header_row,
    loaded, record_of, records_of, rendered, row_of, same_row, table_of,
};

verus! {

/// The records of the registry, in the order in which their ids first came
/// in, and the path of the file that holds their durable text.
///
/// No two records share an id. The crate touches no file: each operation
/// that changes the records hands out the text that the file is to hold
/// from then on. An operation that changes the records holds the registry
/// alone, and the text it hands out is that of the records as it left them.
#[derive(Debug)]
pub struct CalendarStore {
    calendars: Vec<Calendar>,
    csv_path: String,
}

impl View for CalendarStore {
    type V = Seq<CalendarView>;

    closed spec fn view(&self) -> Seq<CalendarView> {
        self.calendars.deep_view()
    }
}

/// The place of the record with the id `id`.
fn find(records: &Vec<Calendar>, id: &String) -> (at: Option<usize>)
    requires
        ids_distinct(records.deep_view()),
    ensures
        match at {
            Some(i) => {
                &&& i < records.len()
                &&& has_id(records.deep_view(), id@)
                &&& index_of_id(records.deep_view(), id@) == i
            },
            None => !has_id(records.deep_view(), id@),
        },
{
    let ghost s = records.deep_view();
    let mut i: usize = 0;
    while i < records.len()
        invariant
            s == records.deep_view(),
            ids_distinct(s),
            i <= records.len(),
            forall|k: int| 0 <= k < i ==> (#[trigger] s[k]).id != id@,
        decreases records.len() - i,
    {
        if records[i].id == *id {
            proof {
                assert(s[i as int].id == id@);
                lemma_index_of_id(s, i as int);
            }
            return Some(i);
        }
        assert(s[i as int].id != id@);
        i += 1;
    }
    None
}

/// Puts `c` in the place of the record at `i`, whose id it has.
fn replace_at(records: &mut Vec<Calendar>, i: usize, c: Calendar)
    requires
        i < old(records).len(),
        ids_distinct(old(records).deep_view()),
        c.id@ == old(records)[i as int].id@,
    ensures
        final(records).deep_view() == old(records).deep_view().update(i as int, c@),
        ids_distinct(final(records).deep_view()),
{
    let ghost s = records.deep_view();
    records[i] = c;
    proof {
        let t = records.deep_view();
        assert(t =~= s.update(i as int, c@));
        assert forall|a: int, b: int| 0 <= a < b < t.len() implies (#[trigger] t[a]).id != (
        #[trigger] t[b]).id by {
            assert(t[a].id == s[a].id);
            assert(t[b].id == s[b].id);
        }
    }
}

/// Takes the record at `i` out.
fn remove_at(records: &mut Vec<Calendar>, i: usize)
    requires
        i < old(records).len(),
        ids_distinct(old(records).deep_view()),
    ensures
        final(records).deep_view() == old(records).deep_view().remove(i as int),
        ids_distinct(final(records).deep_view()),
{
    let ghost s = records.deep_view();
    let _ = records.remove(i);
    proof {
        let t = records.deep_view();
        assert(t =~= s.remove(i as int));
        assert forall|a: int, b: int| 0 <= a < b < t.len() implies (#[trigger] t[a]).id != (
        #[trigger] t[b]).id by {
            let a0 = if a < i { a } else { a + 1 };
            let b0 = if b < i { b } else { b + 1 };
            assert(t[a] == s[a0]);
            assert(t[b] == s[b0]);
        }
    }
}

/// Puts `c` in: in the place of the record that has its id, or behind all
/// the others.
fn put_in(records: &mut Vec<Calendar>, c: Calendar)
    requires
        ids_distinct(old(records).deep_view()),
    ensures
        final(records).deep_view() == put(old(records).deep_view(), c@),
        ids_distinct(final(records).deep_view()),
{
    let ghost s = records.deep_view();
    proof {
        lemma_put_distinct(s, c@);
    }
    match find(records, &c.id) {
        Some(i) => {
            replace_at(records, i, c);
        },
        None => {
            records.push(c);
            assert(records.deep_view() =~= s.push(c@));
        },
    }
}

/// The table of `records` as rows of fields.
fn table_rows(records: &Vec<Calendar>) -> (rows: Vec<Vec<String>>)
    ensures
        rows.deep_view() == table_of(records.deep_view()),
{
    let ghost s = records.deep_view();
    let mut rows: Vec<Vec<String>> = Vec::new();
    rows.push(header_fields());
    let mut i: usize = 0;
    while i < records.len()
        invariant
            s == records.deep_view(),
            i <= records.len(),
            rows.len() == i + 1,
            rows[0].deep_view() == header_row(),
            forall|k: int| 0 <= k < i ==> (#[trigger] rows[k + 1]).deep_view() == row_of(s[k]),
        decreases records.len() - i,
    {
        rows.push(fields_of(&records[i]));
        i += 1;
    }
    assert(rows.deep_view() =~= table_of(s)) by {
        assert forall|k: int| 0 <= k < rows.len() implies rows.deep_view()[k] == table_of(s)[k] by {
            if k > 0 {
                assert(rows[(k - 1) + 1].deep_view() == row_of(s[k - 1]));
            }
        }
    }
    rows
}

/// Reads a table as the records of a registry.
pub fn records_from_rows(rows: &Vec<Vec<String>>) -> (records: Option<Vec<Calendar>>)
    ensures
        match records {
            Some(found) => {
                &&& records_of(rows.deep_view()) == Some(found.deep_view())
                &&& ids_distinct(found.deep_view())
            },
            None => records_of(rows.deep_view()) is None,
        },
{
    let mut records: Vec<Calendar> = Vec::new();
    if rows.len() == 0 {
        assert(records.deep_view() =~= Seq::<CalendarView>::empty());
        return Some(records);
    }
    let ghost all = rows.deep_view();
    let ghost tail = all.skip(1);
    let header = header_fields();
    if !same_row(&rows[0], &header) {
        return None;
    }
    let mut i: usize = 1;
    proof {
        assert(records.deep_view() =~= Seq::<CalendarView>::empty());
        assert(each_record(tail.take(0)) =~= Seq::<CalendarView>::empty());
    }
    while i < rows.len()
        invariant
            all == rows.deep_view(),
            tail == all.skip(1),
            all[0] == header_row(),
            1 <= i <= rows.len(),
            all_records(tail.take(i - 1)),
            records.deep_view() == put_all(Seq::empty(), each_record(tail.take(i - 1))),
            ids_distinct(records.deep_view()),
        decreases rows.len() - i,
    {
        assert(tail[i - 1] == rows[i as int].deep_view());
        match calendar_of(&rows[i]) {
            Some(c) => {
                proof {
                    let before = each_record(tail.take(i - 1));
                    let now = each_record(tail.take(i as int));
                    assert(now.drop_last() =~= before);
                    assert(now.last() == c@);
                    assert forall|k: int| 0 <= k < tail.take(i as int).len() implies record_of(
                        #[trigger] tail.take(i as int)[k],
                    ) is Some by {
                        if k < i - 1 {
                            assert(tail.take(i - 1)[k] == tail.take(i as int)[k]);
                        }
                    }
                }
                put_in(&mut records, c);
            },
            None => {
                assert(!all_records(tail));
                return None;
            },
        }
        i += 1;
    }
    assert(tail.take(rows.len() - 1) =~= tail);
    Some(records)
}

/// What the caller found at the registry's path.
#[derive(Debug)]
pub enum StoreFile {
    /// Nothing is there yet.
    Missing,
    /// Something is there and could not be read.
    Unreadable,
    /// The bytes that are there.
    Content(Vec<u8>),
}

/// Whether `result` is what persisting the registry `s` gives: its durable
/// text, which is loaded as `s` again, or the persistence error where there
/// is no such text.
pub open spec fn persisted(result: Result<Vec<u8>, StoreError>, s: Seq<CalendarView>) -> bool {
    match result {
        Ok(text) => rendered(s) == Some(text@) && loaded(text@) == Some(s),
        Err(e) => e == StoreError::Persistence && rendered(s) is None,
    }
}

impl CalendarStore {
    #[verifier::type_invariant]
    spec fn well_formed(&self) -> bool {
        ids_distinct(self.calendars.deep_view())
    }

    /// The path of the file that holds the durable text.
    pub closed spec fn path(&self) -> Seq<char> {
        self.csv_path@
    }

    /// Hands the records out, to be changed and put back.
    fn take_records(&mut self) -> (records: Vec<Calendar>)
        ensures
            records.deep_view() == old(self)@,
            ids_distinct(records.deep_view()),
            final(self).path() == old(self).path(),
    {
        proof {
            use_type_invariant(&*self);
        }
        let mut records: Vec<Calendar> = Vec::new();
        std::mem::swap(&mut self.calendars, &mut records);
        records
    }

    /// Takes `records` for the registry's own.
    fn set_records(&mut self, records: Vec<Calendar>)
        requires
            ids_distinct(records.deep_view()),
        ensures
            final(self)@ == records.deep_view(),
            final(self).path() == old(self).path(),
    {
        self.calendars = records;
    }

    /// An empty registry whose durable text lives at `csv_path`.
    pub fn new(csv_path: &str) -> (store: Self)
        ensures
            store@ == Seq::<CalendarView>::empty(),
            store.path() == csv_path@,
            ids_distinct(store@),
    {
        let store = CalendarStore { calendars: Vec::new(), csv_path: csv_path.to_owned() };
        assert(store@ =~= Seq::<CalendarView>::empty());
        store
    }

    /// The path of the file that holds the durable text.
    pub fn csv_path(&self) -> (path: &str)
        ensures
            path@ == self.path(),
    {
        self.csv_path.as_str()
    }

    /// The durable text of the registry: a header row and one row for each
    /// record, handed out only after it was read back as the same table.
    pub fn save_to_csv(&self) -> (result: Result<Vec<u8>, StoreError>)
        ensures
            persisted(result, self@),
            ids_distinct(self@),
    {
        proof {
            use_type_invariant(self);
        }
        let rows = table_rows(&self.calendars);
        match confirmed_text(&rows) {
            Some(text) => {
                proof {
                    lemma_reload_restores(self@, text@);
                }
                Ok(text)
            },
            None => Err(StoreError::Persistence),
        }
    }

    /// Takes the records of a table in place of the registry's own.
    /// Where the table stands for no registry, nothing changes.
    pub fn load_rows(&mut self, rows: &Vec<Vec<String>>) -> (result: Result<(), StoreError>)
        ensures
            final(self).path() == old(self).path(),
            ids_distinct(final(self)@),
            match records_of(rows.deep_view()) {
                Some(s) => result is Ok && final(self)@ == s,
                None => result == Err::<(), StoreError>(StoreError::Persistence) && final(self)@
                    == old(self)@,
            },
    {
        match records_from_rows(rows) {
            Some(records) => {
                self.set_records(records);
                Ok(())
            },
            None => {
                proof {
                    use_type_invariant(&*self);
                }
                Err(StoreError::Persistence)
            },
        }
    }

    /// Brings the registry in line with what was found at its path.
    ///
    /// Where nothing was there, the registry becomes empty and the text
    /// that creates the file comes back: the header alone. Where bytes were
    /// there, their records take the place of the registry's own and
    /// nothing comes back; bytes without any row stand for the empty
    /// registry. Where this fails, the registry is as it was.
    pub fn load_from_csv(&mut self, file: StoreFile) -> (result: Result<
        Option<Vec<u8>>,
        StoreError,
    >)
        ensures
            final(self).path() == old(self).path(),
            ids_distinct(final(self)@),
            match file {
                StoreFile::Missing => match rendered(Seq::empty()) {
                    Some(text) => {
                        &&& result matches Ok(Some(created))
                        &&& created@ == text
                        &&& final(self)@ == Seq::<CalendarView>::empty()
                    },
                    None => {
                        &&& result matches Err(StoreError::Persistence)
                        &&& final(self)@ == old(self)@
                    },
                },
                StoreFile::Unreadable => {
                    &&& result matches Err(StoreError::Persistence)
                    &&& final(self)@ == old(self)@
                },
                StoreFile::Content(text) => match loaded(text@) {
                    Some(s) => result matches Ok(None) && final(self)@ == s,
                    None => {
                        &&& result matches Err(StoreError::Persistence)
                        &&& final(self)@ == old(self)@
                    },
                },
            },
    {
        proof {
            use_type_invariant(&*self);
        }
        match file {
            StoreFile::Missing => {
                let empty: Vec<Calendar> = Vec::new();
                assert(empty.deep_view() =~= Seq::<CalendarView>::empty());
                let rows = table_rows(&empty);
                match confirmed_text(&rows) {
                    Some(text) => {
                        self.set_records(empty);
                        Ok(Some(text))
                    },
                    None => Err(StoreError::Persistence),
                }
            },
            StoreFile::Unreadable => Err(StoreError::Persistence),
            StoreFile::Content(text) => match read_records(&text) {
                Ok(rows) => match self.load_rows(&rows) {
                    Ok(()) => Ok(None),
                    Err(e) => Err(e),
                },
                Err(_) => Err(StoreError::Persistence),
            },
        }
    }

    /// Adds `calendar`, under the id `fresh` where its own is blank, and
    /// hands out the durable text of the registry as it then is.
    ///
    /// A record that already had the id is overwritten, in its place. The
    /// record is in the registry also where no text comes back.
    pub fn add_with_id(&mut self, calendar: Calendar, fresh: String) -> (result: Result<
        Vec<u8>,
        StoreError,
    >)
        ensures
            final(self).path() == old(self).path(),
            final(self)@ == added(old(self)@, calendar@, fresh@),
            ids_distinct(final(self)@),
            persisted(result, final(self)@),
    {
        let record = if calendar.id.as_str().is_empty() {
            Calendar { id: fresh, ..calendar }
        } else {
            calendar
        };
        let mut records = self.take_records();
        put_in(&mut records, record);
        self.set_records(records);
        self.save_to_csv()
    }

    /// Adds `calendar`, under a newly drawn id where its own is blank, and
    /// hands out the durable text of the registry as it then is.
    ///
    /// A record that already had the id is overwritten, in its place. The
    /// record is in the registry also where no text comes back.
    pub fn add(&mut self, calendar: Calendar) -> (result: Result<Vec<u8>, StoreError>)
        ensures
            final(self).path() == old(self).path(),
            calendar@.id.len() > 0 ==> final(self)@ == put(old(self)@, calendar@),
            calendar@.id.len() == 0 ==> exists|fresh: Seq<char>|
                fresh.len() == 36 && final(self)@ == #[trigger] put(
                    old(self)@,
                    with_id(calendar@, fresh),
                ),
            ids_distinct(final(self)@),
            persisted(result, final(self)@),
    {
        let fresh = if calendar.id.as_str().is_empty() {
            new_id()
        } else {
            String::new()
        };
        self.add_with_id(calendar, fresh)
    }

    /// Puts `updated_calendar` in the place of the record with the id `id`,
    /// under that id whatever its own is, and hands out the durable text of
    /// the registry as it then is. Without such a record nothing changes.
    pub fn update(&mut self, id: &str, updated_calendar: Calendar) -> (result: Result<
        Vec<u8>,
        StoreError,
    >)
        ensures
            final(self).path() == old(self).path(),
            final(self)@ == replaced(old(self)@, id@, updated_calendar@),
            ids_distinct(final(self)@),
            if has_id(old(self)@, id@) {
                persisted(result, final(self)@)
            } else {
                result matches Err(StoreError::NotFound)
            },
    {
        proof {
            use_type_invariant(&*self);
        }
        let key = id.to_owned();
        match find(&self.calendars, &key) {
            Some(i) => {
                let record = Calendar { id: key, ..updated_calendar };
                let mut records = self.take_records();
                replace_at(&mut records, i, record);
                self.set_records(records);
                self.save_to_csv()
            },
            None => {
                proof {
                    use_type_invariant(&*self);
                }
                Err(StoreError::NotFound)
            },
        }
    }

    /// Takes the record with the id `id` out and hands out the durable text
    /// of the registry as it then is. Without such a record nothing changes.
    pub fn delete(&mut self, id: &str) -> (result: Result<Vec<u8>, StoreError>)
        ensures
            final(self).path() == old(self).path(),
            final(self)@ == without(old(self)@, id@),
            ids_distinct(final(self)@),
            if has_id(old(self)@, id@) {
                persisted(result, final(self)@)
            } else {
                result matches Err(StoreError::NotFound)
            },
    {
        proof {
            use_type_invariant(&*self);
        }
        let key = id.to_owned();
        match find(&self.calendars, &key) {
            Some(i) => {
                let mut records = self.take_records();
                remove_at(&mut records, i);
                self.set_records(records);
                self.save_to_csv()
            },
            None => {
                proof {
                    use_type_invariant(&*self);
                }
                Err(StoreError::NotFound)
            },
        }
    }

    /// Turns the flag of the record with the id `id` over and hands out the
    /// durable text of the registry as it then is. Without such a record
    /// nothing changes.
    pub fn toggle_enabled(&mut self, id: &str) -> (result: Result<Vec<u8>, StoreError>)
        ensures
            final(self).path() == old(self).path(),
            final(self)@ == toggled(old(self)@, id@),
            ids_distinct(final(self)@),
            if has_id(old(self)@, id@) {
                persisted(result, final(self)@)
            } else {
                result matches Err(StoreError::NotFound)
            },
    {
        proof {
            use_type_invariant(&*self);
        }
        let key = id.to_owned();
        match find(&self.calendars, &key) {
            Some(i) => {
                let current = self.calendars[i].clone();
                let record = Calendar { enabled: !current.enabled, ..current };
                let mut records = self.take_records();
                replace_at(&mut records, i, record);
                self.set_records(records);
                self.save_to_csv()
            },
            None => {
                proof {
                    use_type_invariant(&*self);
                }
                Err(StoreError::NotFound)
            },
        }
    }

    /// A copy of every record, in the registry's order.
    pub fn get_all(&self) -> (all: Vec<Calendar>)
        ensures
            all.deep_view() == self@,
            ids_distinct(self@),
    {
        proof {
            use_type_invariant(self);
        }
        let mut all: Vec<Calendar> = Vec::new();
        let mut i: usize = 0;
        while i < self.calendars.len()
            invariant
                i <= self.calendars.len(),
                all.len() == i,
                forall|k: int| 0 <= k < i ==> all[k]@ == self.calendars[k]@,
            decreases self.calendars.len() - i,
        {
            all.push(self.calendars[i].clone());
            i += 1;
        }
        assert(all.deep_view() =~= self@);
        all
    }

    /// A copy of each record whose flag is set, in the registry's order.
    pub fn get_enabled(&self) -> (shown: Vec<Calendar>)
        ensures
            shown.deep_view() == enabled_of(self@),
    {
        let ghost s = self@;
        let mut shown: Vec<Calendar> = Vec::new();
        let mut i: usize = 0;
        assert(s.take(0) =~= Seq::empty());
        while i < self.calendars.len()
            invariant
                s == self@,
                i <= self.calendars.len(),
                shown.deep_view() == enabled_of(s.take(i as int)),
            decreases self.calendars.len() - i,
        {
            let ghost before = shown.deep_view();
            if self.calendars[i].enabled {
                shown.push(self.calendars[i].clone());
                assert(shown.deep_view() =~= before.push(s[i as int]));
            }
            proof {
                assert(s.take(i + 1) =~= s.take(i as int).push(s[i as int]));
                s.take(i as int).lemma_filter_push(s[i as int], |c: CalendarView| c.enabled);
            }
            i += 1;
        }
        assert(s.take(self.calendars.len() as int) =~= s);
        shown
    }

    /// A copy of the record with the id `id`, if there is one.
    pub fn get(&self, id: &str) -> (found: Option<Calendar>)
        ensures
            found.deep_view() == lookup(self@, id@),
    {
        proof {
            use_type_invariant(self);
        }
        let key = id.to_owned();
        match find(&self.calendars, &key) {
            Some(i) => Some(self.calendars[i].clone()),
            None => None,
        }
    }
}

} // verus!
