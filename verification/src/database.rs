//! The per-user data store: for each user the series of measurements taken,
//! one series for each thing that is measured.

use crate::measurements::{DescriptionView, Measurement, MeasurementDescription};
use std::collections::HashMap;
use vstd::prelude::*;
use vstd::string::StringExecFns;

verus! {

broadcast use vstd::std_specs::hash::group_hash_axioms;

/// A series of measurements, as plain values.
pub struct SeriesView {
    pub description: DescriptionView,
    pub measurements: Seq<Measurement>,
}

/// What is measured, with the measurements taken of it, oldest entry first.
pub struct Series {
    pub description: MeasurementDescription,
    pub measurements: Vec<Measurement>,
}

impl View for Series {
    type V = SeriesView;

    open spec fn view(&self) -> SeriesView {
        SeriesView { description: self.description@, measurements: self.measurements@ }
    }
}

/// The data of one user, as plain values: the series by the name of what they
/// measure.
pub type UserDataView = Map<Seq<char>, SeriesView>;

/// The views of some series.
pub open spec fn series_views(entries: Seq<Series>) -> Seq<SeriesView> {
    entries.map_values(|entry: Series| entry@)
}

/// No two of the series measure a thing of the same name.
pub open spec fn distinct_names(series: Seq<SeriesView>) -> bool {
    forall|i: int, j: int|
        0 <= i < j < series.len() ==> (#[trigger] series[i]).description.name != (
        #[trigger] series[j]).description.name
}

/// The series by the name of what they measure.
pub open spec fn table_of(series: Seq<SeriesView>) -> UserDataView
    decreases series.len(),
{
    if series.len() == 0 {
        Map::empty()
    } else {
        table_of(series.drop_last()).insert(series.last().description.name, series.last())
    }
}

/// What a user's data become when a series is put in: a series of a new name
/// is added as it is; for a name that is there, the measurements are replaced
/// and the description that is there stays.
pub open spec fn with_series(
    data: UserDataView,
    description: DescriptionView,
    measurements: Seq<Measurement>,
) -> UserDataView {
    if data.contains_key(description.name) {
        data.insert(
            description.name,
            SeriesView { description: data[description.name].description, measurements },
        )
    } else {
        data.insert(description.name, SeriesView { description, measurements })
    }
}

/// A name is in the table exactly if one of the series carries it.
pub proof fn lemma_table_contains(series: Seq<SeriesView>, name: Seq<char>)
    ensures
        table_of(series).contains_key(name) <==> exists|i: int|
            0 <= i < series.len() && (#[trigger] series[i]).description.name == name,
    decreases series.len(),
{
    if series.len() > 0 {
        let front = series.drop_last();
        lemma_table_contains(front, name);
        let last = series.len() - 1;
        if table_of(series).contains_key(name) {
            if table_of(front).contains_key(name) {
                let i = choose|i: int|
                    0 <= i < front.len() && (#[trigger] front[i]).description.name == name;
                assert(series[i] == front[i]);
            } else {
                assert(series[last].description.name == name);
            }
        }
        if exists|i: int| 0 <= i < series.len() && (#[trigger] series[i]).description.name == name {
            let i = choose|i: int|
                0 <= i < series.len() && (#[trigger] series[i]).description.name == name;
            if i < last {
                assert(front[i] == series[i]);
            }
        }
    }
}

/// Among series of distinct names, the table holds each under its name.
pub proof fn lemma_table_entry(series: Seq<SeriesView>, i: int)
    requires
        distinct_names(series),
        0 <= i < series.len(),
    ensures
        table_of(series).contains_key(series[i].description.name),
        table_of(series)[series[i].description.name] == series[i],
    decreases series.len(),
{
    let last = series.len() - 1;
    if i < last {
        let front = series.drop_last();
        assert(front[i] == series[i]);
        assert forall|a: int, b: int| 0 <= a < b < front.len() implies (
        #[trigger] front[a]).description.name != (#[trigger] front[b]).description.name by {
            assert(front[a] == series[a]);
            assert(front[b] == series[b]);
        }
        lemma_table_entry(front, i);
        assert(series[i].description.name != series[last].description.name);
    }
}

/// Replacing one of several series of distinct names by a series of the same
/// name sets the table's entry of that name.
pub proof fn lemma_table_update(series: Seq<SeriesView>, i: int, entry: SeriesView)
    requires
        distinct_names(series),
        0 <= i < series.len(),
        entry.description.name == series[i].description.name,
    ensures
        distinct_names(series.update(i, entry)),
        table_of(series.update(i, entry)) == table_of(series).insert(entry.description.name, entry),
    decreases series.len(),
{
    let updated = series.update(i, entry);
    assert forall|a: int, b: int| 0 <= a < b < updated.len() implies (
    #[trigger] updated[a]).description.name != (#[trigger] updated[b]).description.name by {
        assert(updated[a].description.name == series[a].description.name);
        assert(updated[b].description.name == series[b].description.name);
    }
    let last = series.len() - 1;
    if i == last {
        assert(updated.drop_last() == series.drop_last());
        assert(table_of(updated) =~= table_of(series).insert(entry.description.name, entry));
    } else {
        let front = series.drop_last();
        assert(front[i] == series[i]);
        assert forall|a: int, b: int| 0 <= a < b < front.len() implies (
        #[trigger] front[a]).description.name != (#[trigger] front[b]).description.name by {
            assert(front[a] == series[a]);
            assert(front[b] == series[b]);
        }
        lemma_table_update(front, i, entry);
        assert(updated.drop_last() == front.update(i, entry));
        assert(updated.last() == series.last());
        assert(series[i].description.name != series[last].description.name);
        assert(table_of(updated) =~= table_of(series).insert(entry.description.name, entry));
    }
}

/// The data of one user: series of measurements, at most one for each name
/// of a thing that is measured.
pub struct PerUserData {
    measurements: Vec<Series>,
}

impl View for PerUserData {
    type V = UserDataView;

    closed spec fn view(&self) -> UserDataView {
        table_of(series_views(self.measurements@))
    }
}

impl PerUserData {
    #[verifier::type_invariant]
    spec fn names_are_distinct(self) -> bool {
        distinct_names(series_views(self.measurements@))
    }

    /// Data without any series.
    pub fn new() -> (data: PerUserData)
        ensures
            data@ == Map::<Seq<char>, SeriesView>::empty(),
    {
        PerUserData { measurements: Vec::new() }
    }

    /// Where the series of this name stands, if there is one.
    fn position(&self, name: &String) -> (at: Option<usize>)
        ensures
            match at {
                Some(i) => i < self.measurements@.len() && self.measurements@[i as int]@.description.name
                    == name@,
                None => forall|i: int|
                    0 <= i < self.measurements@.len() ==> (
                    #[trigger] self.measurements@[i])@.description.name != name@,
            },
    {
        let mut i: usize = 0;
        while i < self.measurements.len()
            invariant
                i <= self.measurements@.len(),
                forall|j: int|
                    0 <= j < i ==> (#[trigger] self.measurements@[j])@.description.name != name@,
            decreases self.measurements@.len() - i,
        {
            if String::from_str(self.measurements[i].description.name()) == *name {
                return Some(i);
            }
            i = i + 1;
        }
        None
    }

    /// The measurements of the thing of this name, if any are held.
    pub fn get(&self, name: &str) -> (found: Option<&Vec<Measurement>>)
        ensures
            match found {
                Some(measurements) => self@.contains_key(name@) && self@[name@].measurements
                    == measurements@,
                None => !self@.contains_key(name@),
            },
    {
        let key = String::from_str(name);
        let ghost views = series_views(self.measurements@);
        proof {
            use_type_invariant(self);
            lemma_table_contains(views, name@);
        }
        match self.position(&key) {
            Some(i) => {
                proof {
                    assert(views[i as int] == self.measurements@[i as int]@);
                    lemma_table_entry(views, i as int);
                }
                Some(&self.measurements[i].measurements)
            },
            None => {
                assert forall|i: int| 0 <= i < views.len() implies (
                #[trigger] views[i]).description.name != name@ by {
                    assert(views[i] == self.measurements@[i]@);
                }
                None
            },
        }
    }

    /// Puts a series in, as [`with_series`] says.
    pub fn insert(&mut self, description: MeasurementDescription, measurements: Vec<Measurement>)
        ensures
            final(self)@ == with_series(old(self)@, description@, measurements@),
    {
        let key = String::from_str(description.name());
        let ghost before = series_views(self.measurements@);
        proof {
            use_type_invariant(&*self);
            lemma_table_contains(before, key@);
        }
        let found = self.position(&key);
        let mut taken = PerUserData::new();
        std::mem::swap(self, &mut taken);
        let mut entries = taken.measurements;
        match found {
            Some(i) => {
                let ghost kept = before[i as int].description;
                proof {
                    assert(before[i as int] == entries@[i as int]@);
                    lemma_table_entry(before, i as int);
                    lemma_table_update(
                        before,
                        i as int,
                        SeriesView { description: kept, measurements: measurements@ },
                    );
                }
                let kept_description = entries[i].description.clone();
                entries.set(i, Series { description: kept_description, measurements });
                assert(series_views(entries@) =~= before.update(
                    i as int,
                    SeriesView { description: kept, measurements: measurements@ },
                ));
            },
            None => {
                let ghost added = SeriesView {
                    description: description@,
                    measurements: measurements@,
                };
                assert forall|i: int| 0 <= i < before.len() implies (
                #[trigger] before[i]).description.name != key@ by {
                    assert(before[i] == entries@[i]@);
                }
                entries.push(Series { description, measurements });
                assert(series_views(entries@) =~= before.push(added));
                assert(before.push(added).drop_last() == before);
            },
        }
        *self = PerUserData { measurements: entries };
    }

    /// The series, each thing that is measured once.
    pub fn entries(&self) -> (entries: &Vec<Series>)
        ensures
            distinct_names(series_views(entries@)),
            table_of(series_views(entries@)) == self@,
    {
        proof {
            use_type_invariant(self);
        }
        &self.measurements
    }
}

/// A copy of some measurements.
fn copy_measurements(measurements: &Vec<Measurement>) -> (copy: Vec<Measurement>)
    ensures
        copy@ == measurements@,
{
    let mut copy: Vec<Measurement> = Vec::new();
    let mut k: usize = 0;
    while k < measurements.len()
        invariant
            k <= measurements@.len(),
            copy@ == measurements@.take(k as int),
        decreases measurements@.len() - k,
    {
        copy.push(measurements[k]);
        assert(copy@ == measurements@.take(k + 1));
        k = k + 1;
    }
    assert(measurements@.take(k as int) == measurements@);
    copy
}

impl Clone for PerUserData {
    /// A copy that shares nothing with `self`.
    fn clone(&self) -> (copy: PerUserData)
        ensures
            copy@ == self@,
    {
        proof {
            use_type_invariant(self);
        }
        let ghost views = series_views(self.measurements@);
        let mut entries: Vec<Series> = Vec::new();
        let mut i: usize = 0;
        while i < self.measurements.len()
            invariant
                i <= self.measurements@.len(),
                views == series_views(self.measurements@),
                series_views(entries@) == views.take(i as int),
            decreases self.measurements@.len() - i,
        {
            let ghost before = entries@;
            let entry = &self.measurements[i];
            let copy = Series {
                description: entry.description.clone(),
                measurements: copy_measurements(&entry.measurements),
            };
            assert(copy@ == views[i as int]);
            entries.push(copy);
            assert(series_views(entries@) =~= series_views(before).push(views[i as int]));
            assert(views.take(i + 1) =~= views.take(i as int).push(views[i as int]));
            i = i + 1;
        }
        assert(views.take(i as int) == views);
        PerUserData { measurements: entries }
    }
}

/// Why the store did not take what it was given.
#[derive(Clone, Copy, Debug, PartialEq, Eq, Structural)]
pub enum StorageError {
    /// Writing is not implemented: the data were not stored.
    NotImplemented,
}

/// What the store holds after it was given data of a user. Writing is not
/// implemented, so it holds what it held.
pub open spec fn after_store(
    held: Map<u32, UserDataView>,
    user: u32,
    data: UserDataView,
) -> Map<u32, UserDataView> {
    held
}

/// What the store hands out for a user: the data it holds of that user, and
/// data without any series for a user it holds nothing of.
pub open spec fn retrieved(held: Map<u32, UserDataView>, user: u32) -> UserDataView {
    if held.contains_key(user) {
        held[user]
    } else {
        Map::empty()
    }
}

/// What a store holds that started empty and was then given these data, in
/// this order.
pub open spec fn after_stores(given: Seq<(u32, UserDataView)>) -> Map<u32, UserDataView>
    decreases given.len(),
{
    if given.len() == 0 {
        Map::empty()
    } else {
        after_store(after_stores(given.drop_last()), given.last().0, given.last().1)
    }
}

/// For a user whose data were never given to the store, the store hands out
/// data without any series.
pub proof fn lemma_never_stored_is_empty(given: Seq<(u32, UserDataView)>, user: u32)
    requires
        forall|i: int| 0 <= i < given.len() ==> (#[trigger] given[i]).0 != user,
    ensures
        retrieved(after_stores(given), user) == Map::<Seq<char>, SeriesView>::empty(),
    decreases given.len(),
{
    if given.len() > 0 {
        let front = given.drop_last();
        assert forall|i: int| 0 <= i < front.len() implies (#[trigger] front[i]).0 != user by {
            assert(front[i] == given[i]);
        }
        lemma_never_stored_is_empty(front, user);
    }
}

/// The data of all users, held in memory.
pub struct InMemoryStorage {
    save_file_name: String,
    data: HashMap<u32, PerUserData>,
}

impl View for InMemoryStorage {
    type V = Map<u32, UserDataView>;

    closed spec fn view(&self) -> Map<u32, UserDataView> {
        self.data@.map_values(|data: PerUserData| data@)
    }
}

impl InMemoryStorage {
    /// The name of the file that the store is to be saved in.
    pub closed spec fn file_name(&self) -> Seq<char> {
        self.save_file_name@
    }

    /// A store that holds nothing, to be saved in the file of this name.
    pub fn try_from(filepath: &str) -> (r: Result<InMemoryStorage, &'static str>)
        ensures
            r matches Ok(store) && store@ == after_stores(Seq::empty()) && store.file_name()
                == filepath@,
    {
        let data: HashMap<u32, PerUserData> = HashMap::new();
        assert(data@.map_values(|data: PerUserData| data@) =~= Map::<u32, UserDataView>::empty());
        Ok(InMemoryStorage { save_file_name: String::from_str(filepath), data })
    }

    /// The name of the file that the store is to be saved in.
    pub fn save_file_name(&self) -> (name: &str)
        ensures
            name@ == self.file_name(),
    {
        self.save_file_name.as_str()
    }

    /// Takes the data of a user. Writing is not implemented: the call fails,
    /// says so, and leaves the store as it was.
    pub fn store_data(&mut self, user: u32, data: PerUserData) -> (r: Result<(), StorageError>)
        ensures
            r == Err::<(), StorageError>(StorageError::NotImplemented),
            final(self)@ == after_store(old(self)@, user, data@),
            final(self).file_name() == old(self).file_name(),
    {
        Err(StorageError::NotImplemented)
    }

    /// A copy of the data held of a user; data without any series for a user
    /// that nothing is held of.
    pub fn retrieve_data(&self, user: u32) -> (data: PerUserData)
        ensures
            data@ == retrieved(self@, user),
    {
        match self.data.get(&user) {
            Some(held) => held.clone(),
            None => PerUserData::new(),
        }
    }
}

} // verus!
