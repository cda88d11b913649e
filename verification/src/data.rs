//! Time series of converted samples, one per measured quantity.

use vstd::prelude::*;
use crate::counter::{bump, plus};
use crate::packet::CompositeRecord;
use crate::units::{accel_micro_mps2, gyro_micro_rad, mag_micro_mgauss};
use crate::units::{scale_mG_to_mps2, scale_mgauss, scale_mrad_to_rad};

verus! {

/// One measurement: when it was taken and what was measured.
#[derive(Clone, Copy, Debug, PartialEq, Eq, Structural)]
pub struct Sample {
    /// Milliseconds since the device booted.
    pub t_ms: u32,
    /// The value, in millionths of the unit of its series.
    pub micro: i64,
}

/// True when some sample of `points` is later than `t_ms`: a sample stamped
/// `t_ms` that arrives after them runs against the device clock.
pub open spec fn runs_backwards(points: Seq<Sample>, t_ms: u32) -> bool {
    exists|i: int| 0 <= i < points.len() && (#[trigger] points[i]).t_ms > t_ms
}

/// How many samples of `points` are stamped earlier than one that arrived
/// before them.
pub open spec fn count_backwards(points: Seq<Sample>) -> nat
    decreases points.len(),
{
    if points.len() == 0 {
        0
    } else {
        let earlier = points.drop_last();
        let late: nat = if runs_backwards(earlier, points.last().t_ms) {
            1
        } else {
            0
        };
        count_backwards(earlier) + late
    }
}

/// The last sample of `points`, if there is one.
pub open spec fn last_of(points: Seq<Sample>) -> Option<Sample> {
    if points.len() == 0 {
        None
    } else {
        Some(points[points.len() - 1])
    }
}

/// `points` after each sample of `added` was appended to it in turn.
pub open spec fn appended(points: Seq<Sample>, added: Seq<Sample>) -> Seq<Sample>
    decreases added.len(),
{
    if added.len() == 0 {
        points
    } else {
        appended(points.push(added[0]), added.subrange(1, added.len() as int))
    }
}

/// The samples of one measured quantity, in the order in which they arrived.
pub struct DataSeries {
    name: String,
    units: String,
    points: Vec<Sample>,
    latest_ms: u32,
    regressions: u64,
}

impl View for DataSeries {
    type V = Seq<Sample>;

    closed spec fn view(&self) -> Seq<Sample> {
        self.points@
    }
}

impl DataSeries {
    /// The cached high-water mark is the latest timestamp among the samples,
    /// and the counter tells how many of them run backwards.
    #[verifier::type_invariant]
    spec fn well_formed(self) -> bool {
        &&& forall|i: int|
            0 <= i < self.points@.len() ==> (#[trigger] self.points@[i]).t_ms <= self.latest_ms
        &&& self.points@.len() > 0 ==> exists|i: int|
            0 <= i < self.points@.len() && (#[trigger] self.points@[i]).t_ms == self.latest_ms
        &&& self.regressions == plus(0, count_backwards(self.points@) as int)
    }

    /// The name of the quantity.
    pub closed spec fn spec_name(&self) -> Seq<char> {
        self.name@
    }

    /// The label of the unit in which the values are shown.
    pub closed spec fn spec_units(&self) -> Seq<char> {
        self.units@
    }

    /// An empty series for the quantity `name`, shown in `units`.
    pub fn new(name: String, units: String) -> (series: DataSeries)
        ensures
            series@ == Seq::<Sample>::empty(),
            series.spec_name() == name@,
            series.spec_units() == units@,
    {
        DataSeries { name, units, points: Vec::new(), latest_ms: 0, regressions: 0 }
    }

    /// Appends the sample `(t_ms, micro)`. Nothing is reordered or dropped: a
    /// sample stamped earlier than one already held is kept where it arrived,
    /// and shows in `regressions`.
    pub fn add_point(&mut self, t_ms: u32, micro: i64)
        ensures
            final(self)@ == old(self)@.push(Sample { t_ms, micro }),
            final(self).spec_name() == old(self).spec_name(),
            final(self).spec_units() == old(self).spec_units(),
    {
        proof {
            use_type_invariant(&*self);
        }
        // The series is taken apart and put together again in one piece, so
        // that it is never seen with the samples ahead of the counters.
        let mut taken = DataSeries::new(String::new(), String::new());
        core::mem::swap(self, &mut taken);
        let DataSeries { name, units, mut points, latest_ms, regressions } = taken;
        let sample = Sample { t_ms, micro };
        let ghost before = points@;
        let late: bool = points.len() > 0 && t_ms < latest_ms;
        points.push(sample);
        proof {
            let after = points@;
            let n = before.len() as int;
            assert(after[n] == sample);
            assert(after.drop_last() == before);
            assert forall|i: int| 0 <= i < n implies (#[trigger] after[i]) == before[i] by {}
            if late {
                let w = choose|i: int| 0 <= i < n && (#[trigger] before[i]).t_ms == latest_ms;
                assert(after[w] == before[w]);
                assert(before[w].t_ms > t_ms);
            } else {
                if runs_backwards(before, t_ms) {
                    let j = choose|i: int| 0 <= i < n && (#[trigger] before[i]).t_ms > t_ms;
                    assert(before[j].t_ms <= latest_ms);
                }
            }
        }
        *self = if late {
            DataSeries { name, units, points, latest_ms, regressions: bump(regressions) }
        } else {
            DataSeries { name, units, points, latest_ms: t_ms, regressions }
        };
    }

    /// The sample that arrived last, or `None` while the series is empty.
    pub fn last_value(&self) -> (last: Option<Sample>)
        ensures
            last == last_of(self@),
    {
        let n: usize = self.points.len();
        if n == 0 {
            None
        } else {
            Some(self.points[n - 1])
        }
    }

    /// Every sample, in arrival order. Reading it changes nothing, so it can be
    /// walked any number of times.
    pub fn full_series(&self) -> (all: &Vec<Sample>)
        ensures
            all@ == self@,
    {
        &self.points
    }

    /// The number of samples held.
    pub fn len(&self) -> (n: usize)
        ensures
            n == self@.len(),
    {
        self.points.len()
    }

    /// The name of the quantity.
    pub fn name(&self) -> (name: &String)
        ensures
            name@ == self.spec_name(),
    {
        &self.name
    }

    /// The label of the unit in which the values are shown.
    pub fn units(&self) -> (units: &String)
        ensures
            units@ == self.spec_units(),
    {
        &self.units
    }

    /// How many samples arrived stamped earlier than one before them.
    pub fn regressions(&self) -> (count: u64)
        ensures
            count == plus(0, count_backwards(self@) as int),
    {
        proof {
            use_type_invariant(self);
        }
        self.regressions
    }
}

/// Appending samples one at a time keeps all of them, in the order of the
/// calls, behind what was there before.
pub proof fn lemma_appended_is_concat(points: Seq<Sample>, added: Seq<Sample>)
    ensures
        appended(points, added) == points + added,
    decreases added.len(),
{
    if added.len() == 0 {
        assert(points + added == points);
    } else {
        let rest = added.subrange(1, added.len() as int);
        lemma_appended_is_concat(points.push(added[0]), rest);
        assert(points.push(added[0]) + rest == points + added);
    }
}

/// After any number of appends to an empty series, the series holds exactly
/// the appended samples in call order, and its last value is the sample of the
/// last call.
pub proof fn lemma_series_keeps_call_order(added: Seq<Sample>)
    ensures
        appended(Seq::<Sample>::empty(), added) == added,
        appended(Seq::<Sample>::empty(), added).len() == added.len(),
        added.len() > 0 ==> last_of(appended(Seq::<Sample>::empty(), added)) == Some(
            added[added.len() - 1],
        ),
{
    lemma_appended_is_concat(Seq::<Sample>::empty(), added);
    assert(Seq::<Sample>::empty() + added == added);
}

/// A sample stamped earlier than one already held lands at the end of the
/// series like any other: what was there stays in place, and the count of
/// samples that run backwards goes up by one.
pub proof fn lemma_late_sample_stays_in_place(points: Seq<Sample>, late: Sample)
    requires
        runs_backwards(points, late.t_ms),
    ensures
        appended(points, seq![late]).len() == points.len() + 1,
        appended(points, seq![late])[points.len() as int] == late,
        forall|i: int| 0 <= i < points.len() ==> appended(points, seq![late])[i] == points[i],
        count_backwards(appended(points, seq![late])) == count_backwards(points) + 1,
{
    lemma_appended_is_concat(points, seq![late]);
    let after = points + seq![late];
    assert(after == points.push(late));
    assert(after.drop_last() == points);
}

/// The nine measured quantities.
#[derive(Clone, Copy, Debug, PartialEq, Eq, Structural)]
pub enum SeriesId {
    XAcc,
    YAcc,
    ZAcc,
    XGyro,
    YGyro,
    ZGyro,
    XMag,
    YMag,
    ZMag,
}

/// The samples of all nine series.
pub struct DataView {
    pub x_acc: Seq<Sample>,
    pub y_acc: Seq<Sample>,
    pub z_acc: Seq<Sample>,
    pub x_gyro: Seq<Sample>,
    pub y_gyro: Seq<Sample>,
    pub z_gyro: Seq<Sample>,
    pub x_mag: Seq<Sample>,
    pub y_mag: Seq<Sample>,
    pub z_mag: Seq<Sample>,
}

impl DataView {
    /// The samples of the series `id`.
    pub open spec fn of(self, id: SeriesId) -> Seq<Sample> {
        match id {
            SeriesId::XAcc => self.x_acc,
            SeriesId::YAcc => self.y_acc,
            SeriesId::ZAcc => self.z_acc,
            SeriesId::XGyro => self.x_gyro,
            SeriesId::YGyro => self.y_gyro,
            SeriesId::ZGyro => self.z_gyro,
            SeriesId::XMag => self.x_mag,
            SeriesId::YMag => self.y_mag,
            SeriesId::ZMag => self.z_mag,
        }
    }
}

/// The reading that a composite record holds for the series `id`, in
/// millionths of the unit of that series.
pub open spec fn reading_of(record: CompositeRecord, id: SeriesId) -> int {
    match id {
        SeriesId::XAcc => accel_micro_mps2(record.xacc as int),
        SeriesId::YAcc => accel_micro_mps2(record.yacc as int),
        SeriesId::ZAcc => accel_micro_mps2(record.zacc as int),
        SeriesId::XGyro => gyro_micro_rad(record.xgyro as int),
        SeriesId::YGyro => gyro_micro_rad(record.ygyro as int),
        SeriesId::ZGyro => gyro_micro_rad(record.zgyro as int),
        SeriesId::XMag => mag_micro_mgauss(record.xmag as int),
        SeriesId::YMag => mag_micro_mgauss(record.ymag as int),
        SeriesId::ZMag => mag_micro_mgauss(record.zmag as int),
    }
}

/// The sample that a composite record adds to the series `id`.
pub open spec fn sample_of(record: CompositeRecord, id: SeriesId) -> Sample {
    Sample { t_ms: record.time_boot_ms, micro: reading_of(record, id) as i64 }
}

/// The series after a composite record was taken in: each of the nine gains
/// one sample, stamped with the time of the record.
pub open spec fn recorded(v: DataView, record: CompositeRecord) -> DataView {
    DataView {
        x_acc: v.x_acc.push(sample_of(record, SeriesId::XAcc)),
        y_acc: v.y_acc.push(sample_of(record, SeriesId::YAcc)),
        z_acc: v.z_acc.push(sample_of(record, SeriesId::ZAcc)),
        x_gyro: v.x_gyro.push(sample_of(record, SeriesId::XGyro)),
        y_gyro: v.y_gyro.push(sample_of(record, SeriesId::YGyro)),
        z_gyro: v.z_gyro.push(sample_of(record, SeriesId::ZGyro)),
        x_mag: v.x_mag.push(sample_of(record, SeriesId::XMag)),
        y_mag: v.y_mag.push(sample_of(record, SeriesId::YMag)),
        z_mag: v.z_mag.push(sample_of(record, SeriesId::ZMag)),
    }
}

/// What the ground station has measured so far.
pub struct Data {
    pub x_acc: DataSeries,
    pub y_acc: DataSeries,
    pub z_acc: DataSeries,
    pub x_gyro: DataSeries,
    pub y_gyro: DataSeries,
    pub z_gyro: DataSeries,
    pub x_mag: DataSeries,
    pub y_mag: DataSeries,
    pub z_mag: DataSeries,
}

impl View for Data {
    type V = DataView;

    open spec fn view(&self) -> DataView {
        DataView {
            x_acc: self.x_acc@,
            y_acc: self.y_acc@,
            z_acc: self.z_acc@,
            x_gyro: self.x_gyro@,
            y_gyro: self.y_gyro@,
            z_gyro: self.z_gyro@,
            x_mag: self.x_mag@,
            y_mag: self.y_mag@,
            z_mag: self.z_mag@,
        }
    }
}

impl Data {
    /// The series `id`.
    pub open spec fn spec_series(&self, id: SeriesId) -> DataSeries {
        match id {
            SeriesId::XAcc => self.x_acc,
            SeriesId::YAcc => self.y_acc,
            SeriesId::ZAcc => self.z_acc,
            SeriesId::XGyro => self.x_gyro,
            SeriesId::YGyro => self.y_gyro,
            SeriesId::ZGyro => self.z_gyro,
            SeriesId::XMag => self.x_mag,
            SeriesId::YMag => self.y_mag,
            SeriesId::ZMag => self.z_mag,
        }
    }

    /// The name and the unit label of every series are those of `other`.
    pub open spec fn labelled_like(&self, other: &Data) -> bool {
        forall|id: SeriesId|
            {
                &&& (#[trigger] self.spec_series(id)).spec_name() == other.spec_series(
                    id,
                ).spec_name()
                &&& self.spec_series(id).spec_units() == other.spec_series(id).spec_units()
            }
    }

    /// Nine empty series, named and labelled.
    pub fn new() -> (data: Data)
        ensures
            forall|id: SeriesId| (#[trigger] data@.of(id)).len() == 0,
            data.x_acc.spec_name() == "Accel X"@,
            data.y_acc.spec_name() == "Accel Y"@,
            data.z_acc.spec_name() == "Accel Z"@,
            data.x_gyro.spec_name() == "Gyro X"@,
            data.y_gyro.spec_name() == "Gyro Y"@,
            data.z_gyro.spec_name() == "Gyro Z"@,
            data.x_mag.spec_name() == "Mag X"@,
            data.y_mag.spec_name() == "Mag Y"@,
            data.z_mag.spec_name() == "Mag Z"@,
            data.x_acc.spec_units() == "m/s^2"@,
            data.y_acc.spec_units() == "m/s^2"@,
            data.z_acc.spec_units() == "m/s^2"@,
            data.x_gyro.spec_units() == "rad/s"@,
            data.y_gyro.spec_units() == "rad/s"@,
            data.z_gyro.spec_units() == "rad/s"@,
            data.x_mag.spec_units() == "mgauss"@,
            data.y_mag.spec_units() == "mgauss"@,
            data.z_mag.spec_units() == "mgauss"@,
    {
        Data {
            x_acc: DataSeries::new("Accel X".to_owned(), "m/s^2".to_owned()),
            y_acc: DataSeries::new("Accel Y".to_owned(), "m/s^2".to_owned()),
            z_acc: DataSeries::new("Accel Z".to_owned(), "m/s^2".to_owned()),
            x_gyro: DataSeries::new("Gyro X".to_owned(), "rad/s".to_owned()),
            y_gyro: DataSeries::new("Gyro Y".to_owned(), "rad/s".to_owned()),
            z_gyro: DataSeries::new("Gyro Z".to_owned(), "rad/s".to_owned()),
            x_mag: DataSeries::new("Mag X".to_owned(), "mgauss".to_owned()),
            y_mag: DataSeries::new("Mag Y".to_owned(), "mgauss".to_owned()),
            z_mag: DataSeries::new("Mag Z".to_owned(), "mgauss".to_owned()),
        }
    }

    /// The series `id`, to read.
    pub fn series(&self, id: SeriesId) -> (series: &DataSeries)
        ensures
            *series == self.spec_series(id),
    {
        match id {
            SeriesId::XAcc => &self.x_acc,
            SeriesId::YAcc => &self.y_acc,
            SeriesId::ZAcc => &self.z_acc,
            SeriesId::XGyro => &self.x_gyro,
            SeriesId::YGyro => &self.y_gyro,
            SeriesId::ZGyro => &self.z_gyro,
            SeriesId::XMag => &self.x_mag,
            SeriesId::YMag => &self.y_mag,
            SeriesId::ZMag => &self.z_mag,
        }
    }

    /// Appends the sample `(t_ms, micro)` to the series `id` and leaves the
    /// other eight as they are.
    pub fn add_point(&mut self, id: SeriesId, t_ms: u32, micro: i64)
        ensures
            final(self)@.of(id) == old(self)@.of(id).push(Sample { t_ms, micro }),
            forall|other: SeriesId|
                other != id ==> #[trigger] final(self).spec_series(other) == old(self).spec_series(
                    other,
                ),
            final(self).labelled_like(old(self)),
    {
        match id {
            SeriesId::XAcc => self.x_acc.add_point(t_ms, micro),
            SeriesId::YAcc => self.y_acc.add_point(t_ms, micro),
            SeriesId::ZAcc => self.z_acc.add_point(t_ms, micro),
            SeriesId::XGyro => self.x_gyro.add_point(t_ms, micro),
            SeriesId::YGyro => self.y_gyro.add_point(t_ms, micro),
            SeriesId::ZGyro => self.z_gyro.add_point(t_ms, micro),
            SeriesId::XMag => self.x_mag.add_point(t_ms, micro),
            SeriesId::YMag => self.y_mag.add_point(t_ms, micro),
            SeriesId::ZMag => self.z_mag.add_point(t_ms, micro),
        }
    }

    /// Takes in one composite record: converts each reading to its physical
    /// unit and appends it to its series, stamped with the time of the record.
    pub fn record(&mut self, record: &CompositeRecord)
        ensures
            final(self)@ == recorded(old(self)@, *record),
            final(self).labelled_like(old(self)),
    {
        let t_ms: u32 = record.time_boot_ms;
        self.x_acc.add_point(t_ms, scale_mG_to_mps2(record.xacc));
        self.y_acc.add_point(t_ms, scale_mG_to_mps2(record.yacc));
        self.z_acc.add_point(t_ms, scale_mG_to_mps2(record.zacc));
        self.x_gyro.add_point(t_ms, scale_mrad_to_rad(record.xgyro));
        self.y_gyro.add_point(t_ms, scale_mrad_to_rad(record.ygyro));
        self.z_gyro.add_point(t_ms, scale_mrad_to_rad(record.zgyro));
        self.x_mag.add_point(t_ms, scale_mgauss(record.xmag));
        self.y_mag.add_point(t_ms, scale_mgauss(record.ymag));
        self.z_mag.add_point(t_ms, scale_mgauss(record.zmag));
    }
}

} // verus!
