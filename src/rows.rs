//! Rows produced from the export document, and what each row is, stated over
//! the element it comes from.
//!
//! Numeric attributes stay as their source text; the sink converts them.

use vstd::prelude::*;
use crate::identity::{compute_hash, field_views, identity_of};
use crate::timestamp::{clean_date, clean_date_opt, naive_date};
use crate::xml::{attr_of, attr_or_empty, attr_value, opt_view, or_empty, text_or_empty, Element};

verus! {

pub open spec fn opt_date(o: Option<Seq<char>>) -> Option<Seq<char>> {
    match o {
        Some(s) => Some(naive_date(s)),
        None => None,
    }
}

pub open spec fn attr_date(a: Seq<crate::xml::Attribute>, key: Seq<char>) -> Seq<char> {
    naive_date(or_empty(attr_of(a, key)))
}

/// One health record.
pub struct RecordRow {
    pub record_hash: String,
    pub record_type: String,
    pub value: Option<String>,
    pub unit: Option<String>,
    pub source_name: String,
    pub source_version: Option<String>,
    pub device: Option<String>,
    pub creation_date: Option<String>,
    pub start_date: String,
    pub end_date: String,
    pub import_id: String,
}

pub struct RecordView {
    pub record_hash: Seq<char>,
    pub record_type: Seq<char>,
    pub value: Option<Seq<char>>,
    pub unit: Option<Seq<char>>,
    pub source_name: Seq<char>,
    pub source_version: Option<Seq<char>>,
    pub device: Option<Seq<char>>,
    pub creation_date: Option<Seq<char>>,
    pub start_date: Seq<char>,
    pub end_date: Seq<char>,
    pub import_id: Seq<char>,
}

impl View for RecordRow {
    type V = RecordView;

    open spec fn view(&self) -> RecordView {
        RecordView {
            record_hash: self.record_hash@,
            record_type: self.record_type@,
            value: opt_view(self.value),
            unit: opt_view(self.unit),
            source_name: self.source_name@,
            source_version: opt_view(self.source_version),
            device: opt_view(self.device),
            creation_date: opt_view(self.creation_date),
            start_date: self.start_date@,
            end_date: self.end_date@,
            import_id: self.import_id@,
        }
    }
}

/// The record that a `Record` element with attributes `a` stands for. Its
/// identity covers type, source, start, end, value and unit.
pub open spec fn record_of(a: Seq<crate::xml::Attribute>, import_id: Seq<char>) -> RecordView {
    let record_type = or_empty(attr_of(a, "type"@));
    let source_name = or_empty(attr_of(a, "sourceName"@));
    let start_date = attr_date(a, "startDate"@);
    let end_date = attr_date(a, "endDate"@);
    let value = attr_of(a, "value"@);
    let unit = attr_of(a, "unit"@);
    RecordView {
        record_hash: identity_of(
            seq![record_type, source_name, start_date, end_date, or_empty(value), or_empty(unit)],
        ),
        record_type,
        value,
        unit,
        source_name,
        source_version: attr_of(a, "sourceVersion"@),
        device: attr_of(a, "device"@),
        creation_date: opt_date(attr_of(a, "creationDate"@)),
        start_date,
        end_date,
        import_id,
    }
}

/// One metadata entry of a record.
pub struct MetadataRow {
    pub record_hash: String,
    pub key: String,
    pub value: String,
}

pub struct MetadataView {
    pub record_hash: Seq<char>,
    pub key: Seq<char>,
    pub value: Seq<char>,
}

impl View for MetadataRow {
    type V = MetadataView;

    open spec fn view(&self) -> MetadataView {
        MetadataView { record_hash: self.record_hash@, key: self.key@, value: self.value@ }
    }
}

pub open spec fn metadata_of(a: Seq<crate::xml::Attribute>, record_hash: Seq<char>) -> MetadataView {
    MetadataView {
        record_hash,
        key: or_empty(attr_of(a, "key"@)),
        value: or_empty(attr_of(a, "value"@)),
    }
}

/// One workout.
pub struct WorkoutRow {
    pub workout_hash: String,
    pub activity_type: String,
    pub duration: Option<String>,
    pub duration_unit: Option<String>,
    pub total_distance: Option<String>,
    pub total_distance_unit: Option<String>,
    pub total_energy_burned: Option<String>,
    pub total_energy_unit: Option<String>,
    pub source_name: String,
    pub source_version: Option<String>,
    pub device: Option<String>,
    pub creation_date: Option<String>,
    pub start_date: String,
    pub end_date: String,
    pub import_id: String,
}

pub struct WorkoutView {
    pub workout_hash: Seq<char>,
    pub activity_type: Seq<char>,
    pub duration: Option<Seq<char>>,
    pub duration_unit: Option<Seq<char>>,
    pub total_distance: Option<Seq<char>>,
    pub total_distance_unit: Option<Seq<char>>,
    pub total_energy_burned: Option<Seq<char>>,
    pub total_energy_unit: Option<Seq<char>>,
    pub source_name: Seq<char>,
    pub source_version: Option<Seq<char>>,
    pub device: Option<Seq<char>>,
    pub creation_date: Option<Seq<char>>,
    pub start_date: Seq<char>,
    pub end_date: Seq<char>,
    pub import_id: Seq<char>,
}

impl View for WorkoutRow {
    type V = WorkoutView;

    open spec fn view(&self) -> WorkoutView {
        WorkoutView {
            workout_hash: self.workout_hash@,
            activity_type: self.activity_type@,
            duration: opt_view(self.duration),
            duration_unit: opt_view(self.duration_unit),
            total_distance: opt_view(self.total_distance),
            total_distance_unit: opt_view(self.total_distance_unit),
            total_energy_burned: opt_view(self.total_energy_burned),
            total_energy_unit: opt_view(self.total_energy_unit),
            source_name: self.source_name@,
            source_version: opt_view(self.source_version),
            device: opt_view(self.device),
            creation_date: opt_view(self.creation_date),
            start_date: self.start_date@,
            end_date: self.end_date@,
            import_id: self.import_id@,
        }
    }
}

/// The identity of a workout: activity type, source, start, end, duration.
pub open spec fn workout_identity(a: Seq<crate::xml::Attribute>) -> Seq<char> {
    identity_of(
        seq![
            or_empty(attr_of(a, "workoutActivityType"@)),
            or_empty(attr_of(a, "sourceName"@)),
            attr_date(a, "startDate"@),
            attr_date(a, "endDate"@),
            or_empty(attr_of(a, "duration"@)),
        ],
    )
}

pub open spec fn workout_of(a: Seq<crate::xml::Attribute>, import_id: Seq<char>) -> WorkoutView {
    WorkoutView {
        workout_hash: workout_identity(a),
        activity_type: or_empty(attr_of(a, "workoutActivityType"@)),
        duration: attr_of(a, "duration"@),
        duration_unit: attr_of(a, "durationUnit"@),
        total_distance: attr_of(a, "totalDistance"@),
        total_distance_unit: attr_of(a, "totalDistanceUnit"@),
        total_energy_burned: attr_of(a, "totalEnergyBurned"@),
        total_energy_unit: attr_of(a, "totalEnergyBurnedUnit"@),
        source_name: or_empty(attr_of(a, "sourceName"@)),
        source_version: attr_of(a, "sourceVersion"@),
        device: attr_of(a, "device"@),
        creation_date: opt_date(attr_of(a, "creationDate"@)),
        start_date: attr_date(a, "startDate"@),
        end_date: attr_date(a, "endDate"@),
        import_id,
    }
}

/// One event (lap, pause, ...) of a workout.
pub struct WorkoutEventRow {
    pub workout_hash: String,
    pub event_type: String,
    pub date: Option<String>,
    pub duration: Option<String>,
    pub duration_unit: Option<String>,
}

pub struct EventView {
    pub workout_hash: Seq<char>,
    pub event_type: Seq<char>,
    pub date: Option<Seq<char>>,
    pub duration: Option<Seq<char>>,
    pub duration_unit: Option<Seq<char>>,
}

impl View for WorkoutEventRow {
    type V = EventView;

    open spec fn view(&self) -> EventView {
        EventView {
            workout_hash: self.workout_hash@,
            event_type: self.event_type@,
            date: opt_view(self.date),
            duration: opt_view(self.duration),
            duration_unit: opt_view(self.duration_unit),
        }
    }
}

pub open spec fn event_of(a: Seq<crate::xml::Attribute>, workout_hash: Seq<char>) -> EventView {
    EventView {
        workout_hash,
        event_type: or_empty(attr_of(a, "type"@)),
        date: opt_date(attr_of(a, "date"@)),
        duration: attr_of(a, "duration"@),
        duration_unit: attr_of(a, "durationUnit"@),
    }
}

/// One per-metric statistic of a workout.
pub struct WorkoutStatRow {
    pub workout_hash: String,
    pub stat_type: String,
    pub start_date: Option<String>,
    pub end_date: Option<String>,
    pub average: Option<String>,
    pub minimum: Option<String>,
    pub maximum: Option<String>,
    pub sum: Option<String>,
    pub unit: Option<String>,
}

pub struct StatView {
    pub workout_hash: Seq<char>,
    pub stat_type: Seq<char>,
    pub start_date: Option<Seq<char>>,
    pub end_date: Option<Seq<char>>,
    pub average: Option<Seq<char>>,
    pub minimum: Option<Seq<char>>,
    pub maximum: Option<Seq<char>>,
    pub sum: Option<Seq<char>>,
    pub unit: Option<Seq<char>>,
}

impl View for WorkoutStatRow {
    type V = StatView;

    open spec fn view(&self) -> StatView {
        StatView {
            workout_hash: self.workout_hash@,
            stat_type: self.stat_type@,
            start_date: opt_view(self.start_date),
            end_date: opt_view(self.end_date),
            average: opt_view(self.average),
            minimum: opt_view(self.minimum),
            maximum: opt_view(self.maximum),
            sum: opt_view(self.sum),
            unit: opt_view(self.unit),
        }
    }
}

pub open spec fn stat_of(a: Seq<crate::xml::Attribute>, workout_hash: Seq<char>) -> StatView {
    StatView {
        workout_hash,
        stat_type: or_empty(attr_of(a, "type"@)),
        start_date: opt_date(attr_of(a, "startDate"@)),
        end_date: opt_date(attr_of(a, "endDate"@)),
        average: attr_of(a, "average"@),
        minimum: attr_of(a, "minimum"@),
        maximum: attr_of(a, "maximum"@),
        sum: attr_of(a, "sum"@),
        unit: attr_of(a, "unit"@),
    }
}

/// One daily activity summary, keyed by its date.
pub struct ActivityRow {
    pub date_components: String,
    pub active_energy_burned: Option<String>,
    pub active_energy_burned_goal: Option<String>,
    pub apple_move_time: Option<String>,
    pub apple_move_time_goal: Option<String>,
    pub apple_exercise_time: Option<String>,
    pub apple_exercise_time_goal: Option<String>,
    pub apple_stand_hours: Option<String>,
    pub apple_stand_hours_goal: Option<String>,
    pub import_id: String,
}

pub struct ActivityView {
    pub date_components: Seq<char>,
    pub active_energy_burned: Option<Seq<char>>,
    pub active_energy_burned_goal: Option<Seq<char>>,
    pub apple_move_time: Option<Seq<char>>,
    pub apple_move_time_goal: Option<Seq<char>>,
    pub apple_exercise_time: Option<Seq<char>>,
    pub apple_exercise_time_goal: Option<Seq<char>>,
    pub apple_stand_hours: Option<Seq<char>>,
    pub apple_stand_hours_goal: Option<Seq<char>>,
    pub import_id: Seq<char>,
}

impl View for ActivityRow {
    type V = ActivityView;

    open spec fn view(&self) -> ActivityView {
        ActivityView {
            date_components: self.date_components@,
            active_energy_burned: opt_view(self.active_energy_burned),
            active_energy_burned_goal: opt_view(self.active_energy_burned_goal),
            apple_move_time: opt_view(self.apple_move_time),
            apple_move_time_goal: opt_view(self.apple_move_time_goal),
            apple_exercise_time: opt_view(self.apple_exercise_time),
            apple_exercise_time_goal: opt_view(self.apple_exercise_time_goal),
            apple_stand_hours: opt_view(self.apple_stand_hours),
            apple_stand_hours_goal: opt_view(self.apple_stand_hours_goal),
            import_id: self.import_id@,
        }
    }
}

pub open spec fn activity_of(a: Seq<crate::xml::Attribute>, import_id: Seq<char>) -> ActivityView {
    ActivityView {
        date_components: or_empty(attr_of(a, "dateComponents"@)),
        active_energy_burned: attr_of(a, "activeEnergyBurned"@),
        active_energy_burned_goal: attr_of(a, "activeEnergyBurnedGoal"@),
        apple_move_time: attr_of(a, "appleMoveTime"@),
        apple_move_time_goal: attr_of(a, "appleMoveTimeGoal"@),
        apple_exercise_time: attr_of(a, "appleExerciseTime"@),
        apple_exercise_time_goal: attr_of(a, "appleExerciseTimeGoal"@),
        apple_stand_hours: attr_of(a, "appleStandHours"@),
        apple_stand_hours_goal: attr_of(a, "appleStandHoursGoal"@),
        import_id,
    }
}

fn date_attr(e: &Element, key: &str) -> (r: String)
    ensures
        r@ == attr_date(e.attributes@, key@),
{
    let raw = attr_or_empty(e, key);
    clean_date(raw.as_str())
}

fn date_attr_opt(e: &Element, key: &str) -> (r: Option<String>)
    ensures
        opt_view(r) == opt_date(attr_of(e.attributes@, key@)),
{
    clean_date_opt(&attr_value(e, key))
}

/// The record row of a `Record` element.
pub fn record_row(e: &Element, import_id: &str) -> (r: RecordRow)
    ensures
        r@ == record_of(e.attributes@, import_id@),
{
    let record_type = attr_or_empty(e, "type");
    let source_name = attr_or_empty(e, "sourceName");
    let start_date = date_attr(e, "startDate");
    let end_date = date_attr(e, "endDate");
    let value = attr_value(e, "value");
    let unit = attr_value(e, "unit");
    let parts = [
        record_type.as_str(),
        source_name.as_str(),
        start_date.as_str(),
        end_date.as_str(),
        text_or_empty(&value),
        text_or_empty(&unit),
    ];
    let record_hash = compute_hash(&parts);
    proof {
        assert(field_views(parts@) =~= seq![
            record_type@,
            source_name@,
            start_date@,
            end_date@,
            or_empty(opt_view(value)),
            or_empty(opt_view(unit)),
        ]);
    }
    RecordRow {
        record_hash,
        record_type,
        value,
        unit,
        source_name,
        source_version: attr_value(e, "sourceVersion"),
        device: attr_value(e, "device"),
        creation_date: date_attr_opt(e, "creationDate"),
        start_date,
        end_date,
        import_id: String::from_str(import_id),
    }
}

/// The metadata row of a `MetadataEntry` element inside the record `record_hash`.
pub fn metadata_row(e: &Element, record_hash: &String) -> (r: MetadataRow)
    ensures
        r@ == metadata_of(e.attributes@, record_hash@),
{
    MetadataRow {
        record_hash: record_hash.clone(),
        key: attr_or_empty(e, "key"),
        value: attr_or_empty(e, "value"),
    }
}

/// The identity of a `Workout` element.
pub fn workout_hash(e: &Element) -> (r: String)
    ensures
        r@ == workout_identity(e.attributes@),
{
    let activity_type = attr_or_empty(e, "workoutActivityType");
    let source_name = attr_or_empty(e, "sourceName");
    let start_date = date_attr(e, "startDate");
    let end_date = date_attr(e, "endDate");
    let duration = attr_value(e, "duration");
    let parts = [
        activity_type.as_str(),
        source_name.as_str(),
        start_date.as_str(),
        end_date.as_str(),
        text_or_empty(&duration),
    ];
    let r = compute_hash(&parts);
    proof {
        assert(field_views(parts@) =~= seq![
            activity_type@,
            source_name@,
            start_date@,
            end_date@,
            or_empty(opt_view(duration)),
        ]);
    }
    r
}

/// The workout row of a `Workout` element.
pub fn workout_row(e: &Element, import_id: &str) -> (r: WorkoutRow)
    ensures
        r@ == workout_of(e.attributes@, import_id@),
{
    WorkoutRow {
        workout_hash: workout_hash(e),
        activity_type: attr_or_empty(e, "workoutActivityType"),
        duration: attr_value(e, "duration"),
        duration_unit: attr_value(e, "durationUnit"),
        total_distance: attr_value(e, "totalDistance"),
        total_distance_unit: attr_value(e, "totalDistanceUnit"),
        total_energy_burned: attr_value(e, "totalEnergyBurned"),
        total_energy_unit: attr_value(e, "totalEnergyBurnedUnit"),
        source_name: attr_or_empty(e, "sourceName"),
        source_version: attr_value(e, "sourceVersion"),
        device: attr_value(e, "device"),
        creation_date: date_attr_opt(e, "creationDate"),
        start_date: date_attr(e, "startDate"),
        end_date: date_attr(e, "endDate"),
        import_id: String::from_str(import_id),
    }
}

/// The event row of a `WorkoutEvent` element inside the workout `workout_hash`.
pub fn event_row(e: &Element, workout_hash: &String) -> (r: WorkoutEventRow)
    ensures
        r@ == event_of(e.attributes@, workout_hash@),
{
    WorkoutEventRow {
        workout_hash: workout_hash.clone(),
        event_type: attr_or_empty(e, "type"),
        date: date_attr_opt(e, "date"),
        duration: attr_value(e, "duration"),
        duration_unit: attr_value(e, "durationUnit"),
    }
}

/// The statistic row of a `WorkoutStatistics` element inside the workout
/// `workout_hash`.
pub fn stat_row(e: &Element, workout_hash: &String) -> (r: WorkoutStatRow)
    ensures
        r@ == stat_of(e.attributes@, workout_hash@),
{
    WorkoutStatRow {
        workout_hash: workout_hash.clone(),
        stat_type: attr_or_empty(e, "type"),
        start_date: date_attr_opt(e, "startDate"),
        end_date: date_attr_opt(e, "endDate"),
        average: attr_value(e, "average"),
        minimum: attr_value(e, "minimum"),
        maximum: attr_value(e, "maximum"),
        sum: attr_value(e, "sum"),
        unit: attr_value(e, "unit"),
    }
}

/// The summary row of an `ActivitySummary` element.
pub fn activity_row(e: &Element, import_id: &str) -> (r: ActivityRow)
    ensures
        r@ == activity_of(e.attributes@, import_id@),
{
    ActivityRow {
        date_components: attr_or_empty(e, "dateComponents"),
        active_energy_burned: attr_value(e, "activeEnergyBurned"),
        active_energy_burned_goal: attr_value(e, "activeEnergyBurnedGoal"),
        apple_move_time: attr_value(e, "appleMoveTime"),
        apple_move_time_goal: attr_value(e, "appleMoveTimeGoal"),
        apple_exercise_time: attr_value(e, "appleExerciseTime"),
        apple_exercise_time_goal: attr_value(e, "appleExerciseTimeGoal"),
        apple_stand_hours: attr_value(e, "appleStandHours"),
        apple_stand_hours_goal: attr_value(e, "appleStandHoursGoal"),
        import_id: String::from_str(import_id),
    }
}

} // verus!
