//! The primary document parser: a single forward pass over the export
//! document's structural events that yields batched rows for six tables.
//!
//! What the pass produces is stated by `export_step`, one event at a time,
//! and by `export_run` for a whole event sequence. Rows of a workout's
//! events and statistics stay pending until the workout closes; records
//! inside a correlation are skipped, because the same records also stand at
//! the top level.

use vstd::prelude::*;
use crate::rows::{
    activity_of, activity_row, event_of, event_row, metadata_of, metadata_row, record_of,
    record_row, stat_of, stat_row, workout_of, workout_row, ActivityRow, ActivityView,
    EventView, MetadataRow, MetadataView, RecordRow, RecordView, StatView, WorkoutEventRow,
    WorkoutRow, WorkoutStatRow, WorkoutView,
};
use crate::text::same_text;
use crate::xml::{Element, XmlEvent};

verus! {

/// Counts of what one pass produced.
#[derive(Debug)]
pub struct ImportStats {
    pub records: u64,
    pub workouts: u64,
    pub activity_summaries: u64,
    pub correlations: u64,
    pub ecg_readings: u64,
    pub route_points: u64,
    pub metadata_entries: u64,
    pub workout_events: u64,
    pub workout_statistics: u64,
}

impl ImportStats {
    pub open spec fn is_zero(&self) -> bool {
        &&& self.records == 0
        &&& self.workouts == 0
        &&& self.activity_summaries == 0
        &&& self.correlations == 0
        &&& self.ecg_readings == 0
        &&& self.route_points == 0
        &&& self.metadata_entries == 0
        &&& self.workout_events == 0
        &&& self.workout_statistics == 0
    }
}

impl Default for ImportStats {
    fn default() -> (r: ImportStats)
        ensures
            r.is_zero(),
    {
        ImportStats {
            records: 0,
            workouts: 0,
            activity_summaries: 0,
            correlations: 0,
            ecg_readings: 0,
            route_points: 0,
            metadata_entries: 0,
            workout_events: 0,
            workout_statistics: 0,
        }
    }
}

/// The rows of the six tables, in document order.
pub struct ExportTables {
    pub records: Seq<RecordView>,
    pub metadata: Seq<MetadataView>,
    pub workouts: Seq<WorkoutView>,
    pub events: Seq<EventView>,
    pub statistics: Seq<StatView>,
    pub activities: Seq<ActivityView>,
}

/// Where the pass stands inside the document.
pub struct ExportContext {
    pub in_workout: bool,
    /// The open workout, whose row is emitted when it closes.
    pub workout: Option<WorkoutView>,
    pub pending_events: Seq<EventView>,
    pub pending_statistics: Seq<StatView>,
    pub in_record: bool,
    /// The identity of the open record, the parent of metadata entries.
    pub record_hash: Option<Seq<char>>,
    pub in_correlation: bool,
    pub correlations: nat,
    /// Malformed pieces the reader skipped, counted for diagnostics.
    pub malformed: nat,
}

pub struct ExportState {
    pub tables: ExportTables,
    pub context: ExportContext,
}

pub open spec fn empty_tables() -> ExportTables {
    ExportTables {
        records: Seq::empty(),
        metadata: Seq::empty(),
        workouts: Seq::empty(),
        events: Seq::empty(),
        statistics: Seq::empty(),
        activities: Seq::empty(),
    }
}

pub open spec fn initial_state() -> ExportState {
    ExportState {
        tables: empty_tables(),
        context: ExportContext {
            in_workout: false,
            workout: None,
            pending_events: Seq::empty(),
            pending_statistics: Seq::empty(),
            in_record: false,
            record_hash: None,
            in_correlation: false,
            correlations: 0,
            malformed: 0,
        },
    }
}

/// What an opening (or self-closing) tag does.
pub open spec fn open_element(st: ExportState, e: Element, import_id: Seq<char>) -> ExportState {
    let t = st.tables;
    let c = st.context;
    let a = e.attributes@;
    let n = e.name@;
    if n == "Record"@ && !c.in_correlation {
        let r = record_of(a, import_id);
        ExportState {
            tables: ExportTables { records: t.records.push(r), ..t },
            context: ExportContext { in_record: true, record_hash: Some(r.record_hash), ..c },
        }
    } else if n == "MetadataEntry"@ {
        if !c.in_workout && c.in_record && c.record_hash is Some {
            ExportState {
                tables: ExportTables {
                    metadata: t.metadata.push(metadata_of(a, c.record_hash->0)),
                    ..t
                },
                context: c,
            }
        } else {
            st
        }
    } else if n == "Workout"@ {
        ExportState {
            tables: t,
            context: ExportContext {
                in_workout: true,
                workout: Some(workout_of(a, import_id)),
                pending_events: Seq::empty(),
                pending_statistics: Seq::empty(),
                ..c
            },
        }
    } else if n == "WorkoutEvent"@ && c.in_workout && c.workout is Some {
        ExportState {
            tables: t,
            context: ExportContext {
                pending_events: c.pending_events.push(event_of(a, c.workout->0.workout_hash)),
                ..c
            },
        }
    } else if n == "WorkoutStatistics"@ && c.in_workout && c.workout is Some {
        ExportState {
            tables: t,
            context: ExportContext {
                pending_statistics: c.pending_statistics.push(
                    stat_of(a, c.workout->0.workout_hash),
                ),
                ..c
            },
        }
    } else if n == "ActivitySummary"@ {
        ExportState {
            tables: ExportTables { activities: t.activities.push(activity_of(a, import_id)), ..t },
            context: c,
        }
    } else if n == "Correlation"@ {
        ExportState {
            tables: t,
            context: ExportContext { in_correlation: true, correlations: c.correlations + 1, ..c },
        }
    } else {
        st
    }
}

/// What a closing tag does. Closing a workout commits it with its pending
/// events and statistics.
pub open spec fn close_element(st: ExportState, name: Seq<char>) -> ExportState {
    let t = st.tables;
    let c = st.context;
    if name == "Record"@ {
        ExportState {
            tables: t,
            context: ExportContext { in_record: false, record_hash: None, ..c },
        }
    } else if name == "Workout"@ {
        match c.workout {
            Some(w) => ExportState {
                tables: ExportTables {
                    workouts: t.workouts.push(w),
                    events: t.events + c.pending_events,
                    statistics: t.statistics + c.pending_statistics,
                    ..t
                },
                context: ExportContext {
                    in_workout: false,
                    workout: None,
                    pending_events: Seq::empty(),
                    pending_statistics: Seq::empty(),
                    ..c
                },
            },
            None => ExportState { tables: t, context: ExportContext { in_workout: false, ..c } },
        }
    } else if name == "Correlation"@ {
        ExportState { tables: t, context: ExportContext { in_correlation: false, ..c } }
    } else {
        st
    }
}

/// The effect of one structural event. A self-closing tag opens and closes
/// its element at once; a malformed piece is counted and skipped.
pub open spec fn export_step(st: ExportState, ev: XmlEvent, import_id: Seq<char>) -> ExportState {
    match ev {
        XmlEvent::Start(e) => open_element(st, e, import_id),
        XmlEvent::Empty(e) => close_element(open_element(st, e, import_id), e.name@),
        XmlEvent::End(name) => close_element(st, name@),
        XmlEvent::Malformed => ExportState {
            tables: st.tables,
            context: ExportContext { malformed: st.context.malformed + 1, ..st.context },
        },
        _ => st,
    }
}

/// The state after the events `evs`, starting from `st`.
pub open spec fn export_run_from(st: ExportState, evs: Seq<XmlEvent>, import_id: Seq<char>) -> ExportState
    decreases evs.len(),
{
    if evs.len() == 0 {
        st
    } else {
        export_step(export_run_from(st, evs.drop_last(), import_id), evs.last(), import_id)
    }
}

/// The state after the events `evs`, from the start of a document.
pub open spec fn export_run(evs: Seq<XmlEvent>, import_id: Seq<char>) -> ExportState {
    export_run_from(initial_state(), evs, import_id)
}

pub open spec fn record_views(s: Seq<RecordRow>) -> Seq<RecordView> {
    Seq::new(s.len(), |i: int| s[i]@)
}

pub open spec fn metadata_views(s: Seq<MetadataRow>) -> Seq<MetadataView> {
    Seq::new(s.len(), |i: int| s[i]@)
}

pub open spec fn workout_views(s: Seq<WorkoutRow>) -> Seq<WorkoutView> {
    Seq::new(s.len(), |i: int| s[i]@)
}

pub open spec fn event_views(s: Seq<WorkoutEventRow>) -> Seq<EventView> {
    Seq::new(s.len(), |i: int| s[i]@)
}

pub open spec fn stat_views(s: Seq<WorkoutStatRow>) -> Seq<StatView> {
    Seq::new(s.len(), |i: int| s[i]@)
}

pub open spec fn activity_views(s: Seq<ActivityRow>) -> Seq<ActivityView> {
    Seq::new(s.len(), |i: int| s[i]@)
}

/// Rows ready to be appended to the sink, one batch per table.
pub struct ExportBatches {
    pub records: Vec<RecordRow>,
    pub metadata: Vec<MetadataRow>,
    pub workouts: Vec<WorkoutRow>,
    pub events: Vec<WorkoutEventRow>,
    pub statistics: Vec<WorkoutStatRow>,
    pub activities: Vec<ActivityRow>,
}

impl View for ExportBatches {
    type V = ExportTables;

    open spec fn view(&self) -> ExportTables {
        ExportTables {
            records: record_views(self.records@),
            metadata: metadata_views(self.metadata@),
            workouts: workout_views(self.workouts@),
            events: event_views(self.events@),
            statistics: stat_views(self.statistics@),
            activities: activity_views(self.activities@),
        }
    }
}

impl ExportBatches {
    pub fn new() -> (r: ExportBatches)
        ensures
            r@ == empty_tables(),
    {
        let r = ExportBatches {
            records: Vec::new(),
            metadata: Vec::new(),
            workouts: Vec::new(),
            events: Vec::new(),
            statistics: Vec::new(),
            activities: Vec::new(),
        };
        assert(r@.records =~= Seq::<RecordView>::empty());
        assert(r@.metadata =~= Seq::<MetadataView>::empty());
        assert(r@.workouts =~= Seq::<WorkoutView>::empty());
        assert(r@.events =~= Seq::<EventView>::empty());
        assert(r@.statistics =~= Seq::<StatView>::empty());
        assert(r@.activities =~= Seq::<ActivityView>::empty());
        r
    }
}

/// The rows of `a` followed by those of `b`, table by table.
pub open spec fn concat_tables(a: ExportTables, b: ExportTables) -> ExportTables {
    ExportTables {
        records: a.records + b.records,
        metadata: a.metadata + b.metadata,
        workouts: a.workouts + b.workouts,
        events: a.events + b.events,
        statistics: a.statistics + b.statistics,
        activities: a.activities + b.activities,
    }
}

/// How many rows a state holds or has pending, and how many correlations it
/// counted; one event adds at most one.
pub open spec fn export_weight(st: ExportState) -> nat {
    st.tables.records.len() + st.tables.metadata.len() + st.tables.workouts.len()
        + st.tables.events.len() + st.context.pending_events.len() + st.tables.statistics.len()
        + st.context.pending_statistics.len() + st.tables.activities.len()
        + st.context.correlations + st.context.malformed
}

/// The streaming parser of the export document.
pub struct ExportParser {
    import_id: String,
    capacity: usize,
    batches: ExportBatches,
    in_workout: bool,
    current_workout: Option<WorkoutRow>,
    pending_events: Vec<WorkoutEventRow>,
    pending_statistics: Vec<WorkoutStatRow>,
    in_record: bool,
    current_record_hash: Option<String>,
    in_correlation: bool,
    stats: ImportStats,
    malformed: u64,
    flushed: Ghost<ExportTables>,
}

impl ExportParser {
    /// The run identifier that tags the rows.
    pub closed spec fn run_id(&self) -> Seq<char> {
        self.import_id@
    }

    /// The batch size at which a table's rows are ready to be flushed.
    pub closed spec fn batch_capacity(&self) -> nat {
        self.capacity as nat
    }

    /// The rows already handed out.
    pub closed spec fn flushed(&self) -> ExportTables {
        self.flushed@
    }

    /// The rows held in batches, not yet handed out.
    pub closed spec fn buffered(&self) -> ExportTables {
        self.batches@
    }

    pub closed spec fn context(&self) -> ExportContext {
        ExportContext {
            in_workout: self.in_workout,
            workout: match self.current_workout {
                Some(w) => Some(w@),
                None => None,
            },
            pending_events: event_views(self.pending_events@),
            pending_statistics: stat_views(self.pending_statistics@),
            in_record: self.in_record,
            record_hash: crate::xml::opt_view(self.current_record_hash),
            in_correlation: self.in_correlation,
            correlations: self.stats.correlations as nat,
            malformed: self.malformed as nat,
        }
    }

    /// Everything the pass has produced so far (handed out or buffered), and
    /// where it stands.
    pub closed spec fn state(&self) -> ExportState {
        ExportState { tables: concat_tables(self.flushed@, self.batches@), context: self.context() }
    }

    pub closed spec fn wf(&self) -> bool {
        let t = self.state().tables;
        &&& self.capacity > 0
        &&& self.stats.records == t.records.len()
        &&& self.stats.metadata_entries == t.metadata.len()
        &&& self.stats.workouts == t.workouts.len()
        &&& self.stats.workout_events == t.events.len()
        &&& self.stats.workout_statistics == t.statistics.len()
        &&& self.stats.activity_summaries == t.activities.len()
        &&& self.stats.ecg_readings == 0
        &&& self.stats.route_points == 0
    }

    /// The state is made of what was handed out followed by what is buffered.
    pub proof fn lemma_state_tables(&self)
        ensures
            self.state().tables == concat_tables(self.flushed(), self.buffered()),
    {
    }

    /// A parser at the start of a document whose rows are tagged `import_id`
    /// and flushed in batches of `capacity` rows.
    pub fn new(import_id: &str, capacity: usize) -> (r: ExportParser)
        requires
            capacity > 0,
        ensures
            r.wf(),
            r.state() == initial_state(),
            r.run_id() == import_id@,
            r.batch_capacity() == capacity,
            r.flushed() == empty_tables(),
    {
        let r = ExportParser {
            import_id: String::from_str(import_id),
            capacity,
            batches: ExportBatches::new(),
            in_workout: false,
            current_workout: None,
            pending_events: Vec::new(),
            pending_statistics: Vec::new(),
            in_record: false,
            current_record_hash: None,
            in_correlation: false,
            stats: ImportStats::default(),
            malformed: 0,
            flushed: Ghost(empty_tables()),
        };
        assert(r.context().pending_events =~= Seq::<EventView>::empty());
        assert(r.context().pending_statistics =~= Seq::<StatView>::empty());
        assert(r.state().tables =~= empty_tables());
        r
    }

    /// Whether one more event can be counted without overflowing a counter.
    pub fn has_room(&self) -> (r: bool)
        requires
            self.wf(),
        ensures
            r == (export_weight(self.state()) + 1 < u64::MAX),
    {
        let w: u128 = self.stats.records as u128 + self.stats.metadata_entries as u128
            + self.stats.workouts as u128 + self.stats.workout_events as u128
            + self.pending_events.len() as u128 + self.stats.workout_statistics as u128
            + self.pending_statistics.len() as u128 + self.stats.activity_summaries as u128
            + self.stats.correlations as u128 + self.malformed as u128;
        w + 1 < u64::MAX as u128
    }

    /// How many malformed pieces of the document were skipped.
    pub fn malformed(&self) -> (r: u64)
        ensures
            r == self.state().context.malformed,
    {
        self.malformed
    }

    /// The counts of what the pass has produced so far.
    pub fn stats(&self) -> (r: ImportStats)
        requires
            self.wf(),
        ensures
            r.records == self.state().tables.records.len(),
            r.metadata_entries == self.state().tables.metadata.len(),
            r.workouts == self.state().tables.workouts.len(),
            r.workout_events == self.state().tables.events.len(),
            r.workout_statistics == self.state().tables.statistics.len(),
            r.activity_summaries == self.state().tables.activities.len(),
            r.correlations == self.state().context.correlations,
            r.ecg_readings == 0,
            r.route_points == 0,
    {
        ImportStats {
            records: self.stats.records,
            workouts: self.stats.workouts,
            activity_summaries: self.stats.activity_summaries,
            correlations: self.stats.correlations,
            ecg_readings: self.stats.ecg_readings,
            route_points: self.stats.route_points,
            metadata_entries: self.stats.metadata_entries,
            workout_events: self.stats.workout_events,
            workout_statistics: self.stats.workout_statistics,
        }
    }

    fn open(&mut self, e: &Element)
        requires
            old(self).wf(),
            export_weight(old(self).state()) < u64::MAX,
        ensures
            final(self).wf(),
            final(self).state() == open_element(old(self).state(), *e, old(self).run_id()),
            final(self).run_id() == old(self).run_id(),
            final(self).batch_capacity() == old(self).batch_capacity(),
            final(self).flushed() == old(self).flushed(),
    {
        let ghost st = self.state();
        let name = e.name.as_str();
        if same_text(name, "Record") && !self.in_correlation {
            let row = record_row(e, self.import_id.as_str());
            let hash = row.record_hash.clone();
            self.batches.records.push(row);
            self.stats.records = self.stats.records + 1;
            self.in_record = true;
            self.current_record_hash = Some(hash);
            assert(self.state().tables.records =~= st.tables.records.push(row@));
        } else if same_text(name, "MetadataEntry") {
            if !self.in_workout && self.in_record {
                match &self.current_record_hash {
                    Some(h) => {
                        let row = metadata_row(e, h);
                        self.batches.metadata.push(row);
                        self.stats.metadata_entries = self.stats.metadata_entries + 1;
                        assert(self.state().tables.metadata =~= st.tables.metadata.push(row@));
                    },
                    None => {},
                }
            }
        } else if same_text(name, "Workout") {
            self.in_workout = true;
            self.current_workout = Some(workout_row(e, self.import_id.as_str()));
            self.pending_events = Vec::new();
            self.pending_statistics = Vec::new();
            assert(self.context().pending_events =~= Seq::<EventView>::empty());
            assert(self.context().pending_statistics =~= Seq::<StatView>::empty());
        } else if same_text(name, "WorkoutEvent") && self.in_workout && self.current_workout.is_some() {
            match &self.current_workout {
                Some(w) => {
                    let row = event_row(e, &w.workout_hash);
                    self.pending_events.push(row);
                    assert(self.context().pending_events =~= st.context.pending_events.push(row@));
                },
                None => {},
            }
        } else if same_text(name, "WorkoutStatistics") && self.in_workout
            && self.current_workout.is_some() {
            match &self.current_workout {
                Some(w) => {
                    let row = stat_row(e, &w.workout_hash);
                    self.pending_statistics.push(row);
                    assert(self.context().pending_statistics =~= st.context.pending_statistics.push(
                        row@,
                    ));
                },
                None => {},
            }
        } else if same_text(name, "ActivitySummary") {
            let row = activity_row(e, self.import_id.as_str());
            self.batches.activities.push(row);
            self.stats.activity_summaries = self.stats.activity_summaries + 1;
            assert(self.state().tables.activities =~= st.tables.activities.push(row@));
        } else if same_text(name, "Correlation") {
            self.in_correlation = true;
            self.stats.correlations = self.stats.correlations + 1;
        }
        assert(self.state().tables =~= open_element(st, *e, self.run_id()).tables);
        assert(self.state().context =~= open_element(st, *e, self.run_id()).context);
    }

    fn close(&mut self, name: &String)
        requires
            old(self).wf(),
            export_weight(old(self).state()) < u64::MAX,
        ensures
            final(self).wf(),
            final(self).state() == close_element(old(self).state(), name@),
            final(self).run_id() == old(self).run_id(),
            final(self).batch_capacity() == old(self).batch_capacity(),
            final(self).flushed() == old(self).flushed(),
    {
        let ghost st = self.state();
        let name = name.as_str();
        if same_text(name, "Record") {
            self.in_record = false;
            self.current_record_hash = None;
        } else if same_text(name, "Workout") {
            match self.current_workout.take() {
                Some(w) => {
                    let ghost wv = w@;
                    let ne = self.pending_events.len();
                    let ns = self.pending_statistics.len();
                    self.batches.workouts.push(w);
                    self.batches.events.append(&mut self.pending_events);
                    self.batches.statistics.append(&mut self.pending_statistics);
                    self.stats.workouts = self.stats.workouts + 1;
                    self.stats.workout_events = self.stats.workout_events + ne as u64;
                    self.stats.workout_statistics = self.stats.workout_statistics + ns as u64;
                    assert(self.state().tables.workouts =~= st.tables.workouts.push(wv));
                    assert(self.state().tables.events =~= st.tables.events
                        + st.context.pending_events);
                    assert(self.state().tables.statistics =~= st.tables.statistics
                        + st.context.pending_statistics);
                    assert(self.context().pending_events =~= Seq::<EventView>::empty());
                    assert(self.context().pending_statistics =~= Seq::<StatView>::empty());
                },
                None => {},
            }
            self.in_workout = false;
        } else if same_text(name, "Correlation") {
            self.in_correlation = false;
        }
        assert(self.state().tables =~= close_element(st, name@).tables);
        assert(self.state().context =~= close_element(st, name@).context);
    }

    /// Takes in one structural event of the document.
    pub fn step(&mut self, ev: &XmlEvent)
        requires
            old(self).wf(),
            export_weight(old(self).state()) + 1 < u64::MAX,
        ensures
            final(self).wf(),
            final(self).state() == export_step(old(self).state(), *ev, old(self).run_id()),
            final(self).run_id() == old(self).run_id(),
            final(self).batch_capacity() == old(self).batch_capacity(),
            final(self).flushed() == old(self).flushed(),
    {
        match ev {
            XmlEvent::Start(e) => self.open(e),
            XmlEvent::Empty(e) => {
                let ghost st = self.state();
                proof {
                    lemma_open_weight(st, *e, self.run_id());
                }
                self.open(e);
                self.close(&e.name);
            },
            XmlEvent::End(name) => self.close(name),
            XmlEvent::Malformed => {
                self.malformed = self.malformed + 1;
            },
            _ => {},
        }
    }

    /// Hands out every batch that has reached the capacity, and keeps the
    /// others.
    pub fn take_full(&mut self) -> (r: ExportBatches)
        requires
            old(self).wf(),
        ensures
            final(self).wf(),
            final(self).state() == old(self).state(),
            final(self).run_id() == old(self).run_id(),
            final(self).batch_capacity() == old(self).batch_capacity(),
            final(self).flushed() == concat_tables(old(self).flushed(), r@),
            full_batches_taken(old(self).buffered(), r@, final(self).buffered(), old(self).batch_capacity()),
    {
        let ghost old_flushed = self.flushed@;
        let ghost old_buffered = self.batches@;
        let ghost st = self.state();
        let mut r = ExportBatches::new();
        if self.batches.records.len() >= self.capacity {
            std::mem::swap(&mut r.records, &mut self.batches.records);
        }
        if self.batches.metadata.len() >= self.capacity {
            std::mem::swap(&mut r.metadata, &mut self.batches.metadata);
        }
        if self.batches.workouts.len() >= self.capacity {
            std::mem::swap(&mut r.workouts, &mut self.batches.workouts);
        }
        if self.batches.events.len() >= self.capacity {
            std::mem::swap(&mut r.events, &mut self.batches.events);
        }
        if self.batches.statistics.len() >= self.capacity {
            std::mem::swap(&mut r.statistics, &mut self.batches.statistics);
        }
        if self.batches.activities.len() >= self.capacity {
            std::mem::swap(&mut r.activities, &mut self.batches.activities);
        }
        self.flushed = Ghost(concat_tables(old_flushed, r@));
        proof {
            lemma_split_tables(old_flushed, r@, self.batches@, old_buffered);
        }
        assert(self.state() =~= st);
        r
    }

    /// Hands out every buffered row: the end of the document.
    pub fn finish(&mut self) -> (r: ExportBatches)
        requires
            old(self).wf(),
        ensures
            final(self).wf(),
            final(self).state() == old(self).state(),
            final(self).run_id() == old(self).run_id(),
            final(self).batch_capacity() == old(self).batch_capacity(),
            final(self).flushed() == old(self).state().tables,
            r@ == old(self).buffered(),
            final(self).buffered() == empty_tables(),
    {
        let ghost st = self.state();
        let mut r = ExportBatches::new();
        std::mem::swap(&mut r, &mut self.batches);
        self.flushed = Ghost(st.tables);
        proof {
            lemma_concat_empty(st.tables);
        }
        assert(self.state() =~= st);
        r
    }
}

/// Each batch of `before` that reached `capacity` went to `taken` whole and
/// left `after` empty; each other batch stayed in `after` and none of it was
/// taken.
pub open spec fn full_batches_taken(
    before: ExportTables,
    taken: ExportTables,
    after: ExportTables,
    capacity: nat,
) -> bool {
    &&& if before.records.len() >= capacity {
        taken.records == before.records && after.records.len() == 0
    } else {
        taken.records.len() == 0 && after.records == before.records
    }
    &&& if before.metadata.len() >= capacity {
        taken.metadata == before.metadata && after.metadata.len() == 0
    } else {
        taken.metadata.len() == 0 && after.metadata == before.metadata
    }
    &&& if before.workouts.len() >= capacity {
        taken.workouts == before.workouts && after.workouts.len() == 0
    } else {
        taken.workouts.len() == 0 && after.workouts == before.workouts
    }
    &&& if before.events.len() >= capacity {
        taken.events == before.events && after.events.len() == 0
    } else {
        taken.events.len() == 0 && after.events == before.events
    }
    &&& if before.statistics.len() >= capacity {
        taken.statistics == before.statistics && after.statistics.len() == 0
    } else {
        taken.statistics.len() == 0 && after.statistics == before.statistics
    }
    &&& if before.activities.len() >= capacity {
        taken.activities == before.activities && after.activities.len() == 0
    } else {
        taken.activities.len() == 0 && after.activities == before.activities
    }
}

proof fn lemma_split_tables(f: ExportTables, taken: ExportTables, after: ExportTables, before: ExportTables)
    requires
        taken.records + after.records == before.records,
        taken.metadata + after.metadata == before.metadata,
        taken.workouts + after.workouts == before.workouts,
        taken.events + after.events == before.events,
        taken.statistics + after.statistics == before.statistics,
        taken.activities + after.activities == before.activities,
    ensures
        concat_tables(concat_tables(f, taken), after) == concat_tables(f, before),
{
    assert(concat_tables(concat_tables(f, taken), after).records =~= concat_tables(f, before).records);
    assert(concat_tables(concat_tables(f, taken), after).metadata =~= concat_tables(f, before).metadata);
    assert(concat_tables(concat_tables(f, taken), after).workouts =~= concat_tables(f, before).workouts);
    assert(concat_tables(concat_tables(f, taken), after).events =~= concat_tables(f, before).events);
    assert(concat_tables(concat_tables(f, taken), after).statistics =~= concat_tables(f, before).statistics);
    assert(concat_tables(concat_tables(f, taken), after).activities =~= concat_tables(f, before).activities);
}

proof fn lemma_concat_empty(t: ExportTables)
    ensures
        concat_tables(t, empty_tables()) == t,
{
    assert(concat_tables(t, empty_tables()).records =~= t.records);
    assert(concat_tables(t, empty_tables()).metadata =~= t.metadata);
    assert(concat_tables(t, empty_tables()).workouts =~= t.workouts);
    assert(concat_tables(t, empty_tables()).events =~= t.events);
    assert(concat_tables(t, empty_tables()).statistics =~= t.statistics);
    assert(concat_tables(t, empty_tables()).activities =~= t.activities);
}

proof fn lemma_open_weight(st: ExportState, e: Element, import_id: Seq<char>)
    ensures
        export_weight(open_element(st, e, import_id)) <= export_weight(st) + 1,
        e.name@ == "Workout"@ ==> export_weight(open_element(st, e, import_id)) <= export_weight(st),
{
    reveal_strlit("Record");
    reveal_strlit("MetadataEntry");
    reveal_strlit("Workout");
    assert("Record"@.len() == 6 && "MetadataEntry"@.len() == 13 && "Workout"@.len() == 7);
}

proof fn lemma_step_weight(st: ExportState, ev: XmlEvent, import_id: Seq<char>)
    ensures
        export_weight(export_step(st, ev, import_id)) <= export_weight(st) + 1,
{
    match ev {
        XmlEvent::Start(e) => lemma_open_weight(st, e, import_id),
        XmlEvent::Empty(e) => {
            lemma_open_weight(st, e, import_id);
        },
        _ => {},
    }
}

/// Parses a whole document given as its sequence of structural events: the
/// rows of the six tables, and their counts.
pub fn parse_export(events: &Vec<XmlEvent>, import_id: &str) -> (r: (ExportBatches, ImportStats))
    requires
        events@.len() + 1 < u64::MAX,
    ensures
        r.0@ == export_run(events@, import_id@).tables,
        r.1.records == r.0.records@.len(),
        r.1.metadata_entries == r.0.metadata@.len(),
        r.1.workouts == r.0.workouts@.len(),
        r.1.workout_events == r.0.events@.len(),
        r.1.workout_statistics == r.0.statistics@.len(),
        r.1.activity_summaries == r.0.activities@.len(),
        r.1.correlations == export_run(events@, import_id@).context.correlations,
        r.1.ecg_readings == 0,
        r.1.route_points == 0,
{
    let mut parser = ExportParser::new(import_id, usize::MAX);
    let mut i: usize = 0;
    while i < events.len()
        invariant
            parser.wf(),
            parser.run_id() == import_id@,
            parser.flushed() == empty_tables(),
            i <= events@.len(),
            events@.len() + 1 < u64::MAX,
            parser.state() == export_run(events@.subrange(0, i as int), import_id@),
            export_weight(parser.state()) <= i,
        decreases events@.len() - i,
    {
        proof {
            lemma_step_weight(parser.state(), events@[i as int], import_id@);
            assert(events@.subrange(0, i + 1).drop_last() =~= events@.subrange(0, i as int));
        }
        parser.step(&events[i]);
        i = i + 1;
    }
    assert(events@.subrange(0, events@.len() as int) =~= events@);
    let stats = parser.stats();
    let ghost st = parser.state();
    let batches = parser.finish();
    proof {
        lemma_concat_empty(st.tables);
        assert(concat_tables(empty_tables(), batches@) =~= batches@);
        assert(concat_tables(empty_tables(), batches@).records =~= batches@.records);
        assert(concat_tables(empty_tables(), batches@).metadata =~= batches@.metadata);
        assert(concat_tables(empty_tables(), batches@).workouts =~= batches@.workouts);
        assert(concat_tables(empty_tables(), batches@).events =~= batches@.events);
        assert(concat_tables(empty_tables(), batches@).statistics =~= batches@.statistics);
        assert(concat_tables(empty_tables(), batches@).activities =~= batches@.activities);
    }
    (batches, stats)
}

/// A correlation wrapper and a record inside it add no row: neither the
/// wrapper nor its child is stored (the child also stands at the top level).
pub proof fn lemma_correlation_adds_no_rows(
    st: ExportState,
    wrapper: Element,
    child: Element,
    import_id: Seq<char>,
)
    requires
        wrapper.name@ == "Correlation"@,
        child.name@ == "Record"@,
    ensures
        export_run_from(
            st,
            seq![XmlEvent::Start(wrapper), XmlEvent::Empty(child), XmlEvent::End(wrapper.name)],
            import_id,
        ).tables == st.tables,
{
    reveal_strlit("Correlation");
    reveal_strlit("Record");
    reveal_strlit("MetadataEntry");
    reveal_strlit("Workout");
    reveal_strlit("WorkoutEvent");
    reveal_strlit("WorkoutStatistics");
    reveal_strlit("ActivitySummary");
    assert("Correlation"@.len() == 11 && "Record"@.len() == 6 && "MetadataEntry"@.len() == 13);
    assert("Workout"@.len() == 7 && "WorkoutEvent"@.len() == 12 && "WorkoutStatistics"@.len() == 17);
    assert("ActivitySummary"@.len() == 15);
    let evs = seq![XmlEvent::Start(wrapper), XmlEvent::Empty(child), XmlEvent::End(wrapper.name)];
    assert(evs.drop_last().drop_last().drop_last() =~= Seq::<XmlEvent>::empty());
    assert(evs.drop_last().drop_last().last() == XmlEvent::Start(wrapper));
    assert(evs.drop_last().last() == XmlEvent::Empty(child));
    let s1 = export_step(st, XmlEvent::Start(wrapper), import_id);
    assert(s1.tables == st.tables && s1.context.in_correlation);
    let s2 = export_step(s1, XmlEvent::Empty(child), import_id);
    assert(open_element(s1, child, import_id) == s1);
    assert(s2.tables == s1.tables);
    assert(export_run_from(st, evs.drop_last().drop_last().drop_last(), import_id) == st);
    assert(export_run_from(st, evs.drop_last().drop_last(), import_id) == s1);
    assert(export_run_from(st, evs.drop_last(), import_id) == s2);
    assert(evs.last() == XmlEvent::End(wrapper.name));
}

/// `ev` opens a correlation (with a start or a self-closing tag).
pub open spec fn opens_correlation(ev: XmlEvent) -> bool {
    match ev {
        XmlEvent::Start(e) => e.name@ == "Correlation"@,
        XmlEvent::Empty(e) => e.name@ == "Correlation"@,
        _ => false,
    }
}

/// The number of correlations that the events `evs` open.
pub open spec fn correlations_in(evs: Seq<XmlEvent>) -> nat
    decreases evs.len(),
{
    if evs.len() == 0 {
        0
    } else {
        correlations_in(evs.drop_last()) + if opens_correlation(evs.last()) {
            1nat
        } else {
            0nat
        }
    }
}

/// A pass counts every correlation that the document opens, whether written
/// with a start tag or as a self-closing tag.
pub proof fn lemma_correlations_counted(evs: Seq<XmlEvent>, import_id: Seq<char>)
    ensures
        export_run(evs, import_id).context.correlations == correlations_in(evs),
    decreases evs.len(),
{
    reveal_strlit("Correlation");
    reveal_strlit("Record");
    reveal_strlit("MetadataEntry");
    reveal_strlit("Workout");
    reveal_strlit("WorkoutEvent");
    reveal_strlit("WorkoutStatistics");
    reveal_strlit("ActivitySummary");
    assert("Correlation"@.len() == 11 && "Record"@.len() == 6 && "MetadataEntry"@.len() == 13);
    assert("Workout"@.len() == 7 && "WorkoutEvent"@.len() == 12 && "WorkoutStatistics"@.len() == 17);
    assert("ActivitySummary"@.len() == 15);
    if evs.len() > 0 {
        lemma_correlations_counted(evs.drop_last(), import_id);
    }
}

/// `ev` neither closes a workout nor is a self-closing workout.
pub open spec fn closes_no_workout(ev: XmlEvent) -> bool {
    match ev {
        XmlEvent::End(name) => name@ != "Workout"@,
        XmlEvent::Empty(e) => e.name@ != "Workout"@,
        _ => true,
    }
}

proof fn lemma_step_commits_no_workout(st: ExportState, ev: XmlEvent, import_id: Seq<char>)
    requires
        closes_no_workout(ev),
    ensures
        export_step(st, ev, import_id).tables.workouts == st.tables.workouts,
        export_step(st, ev, import_id).tables.events == st.tables.events,
        export_step(st, ev, import_id).tables.statistics == st.tables.statistics,
{
    match ev {
        XmlEvent::Empty(e) => {
            let s1 = open_element(st, e, import_id);
            assert(s1.tables.workouts == st.tables.workouts);
            assert(s1.tables.events == st.tables.events);
            assert(s1.tables.statistics == st.tables.statistics);
        },
        _ => {},
    }
}

/// Events that never close a workout commit no workout, event or statistic:
/// whatever a workout left open at the end of the input is discarded, while
/// the rows of workouts that closed before stay.
pub proof fn lemma_unclosed_workout_commits_nothing(
    st: ExportState,
    evs: Seq<XmlEvent>,
    import_id: Seq<char>,
)
    requires
        forall|i: int| 0 <= i < evs.len() ==> #[trigger] closes_no_workout(evs[i]),
    ensures
        export_run_from(st, evs, import_id).tables.workouts == st.tables.workouts,
        export_run_from(st, evs, import_id).tables.events == st.tables.events,
        export_run_from(st, evs, import_id).tables.statistics == st.tables.statistics,
    decreases evs.len(),
{
    if evs.len() > 0 {
        assert forall|i: int| 0 <= i < evs.drop_last().len() implies #[trigger] closes_no_workout(
            evs.drop_last()[i],
        ) by {
            assert(evs.drop_last()[i] == evs[i]);
        }
        lemma_unclosed_workout_commits_nothing(st, evs.drop_last(), import_id);
        assert(evs[evs.len() - 1] == evs.last());
        lemma_step_commits_no_workout(export_run_from(st, evs.drop_last(), import_id), evs.last(), import_id);
    }
}

pub open spec fn unstamped_record(r: RecordView) -> RecordView {
    RecordView { import_id: Seq::empty(), ..r }
}

pub open spec fn unstamped_workout(w: WorkoutView) -> WorkoutView {
    WorkoutView { import_id: Seq::empty(), ..w }
}

pub open spec fn unstamped_activity(a: ActivityView) -> ActivityView {
    ActivityView { import_id: Seq::empty(), ..a }
}

/// A state with the run tag of every row cleared.
pub open spec fn unstamped(st: ExportState) -> ExportState {
    let t = st.tables;
    ExportState {
        tables: ExportTables {
            records: Seq::new(t.records.len(), |i: int| unstamped_record(t.records[i])),
            workouts: Seq::new(t.workouts.len(), |i: int| unstamped_workout(t.workouts[i])),
            activities: Seq::new(t.activities.len(), |i: int| unstamped_activity(t.activities[i])),
            ..t
        },
        context: ExportContext {
            workout: match st.context.workout {
                Some(w) => Some(unstamped_workout(w)),
                None => None,
            },
            ..st.context
        },
    }
}

/// `x` and `y` agree on everything but the run tags of their rows.
pub open spec fn same_but_stamps(x: ExportState, y: ExportState) -> bool {
    let tx = x.tables;
    let ty = y.tables;
    &&& tx.metadata == ty.metadata
    &&& tx.events == ty.events
    &&& tx.statistics == ty.statistics
    &&& tx.records.len() == ty.records.len()
    &&& forall|i: int| 0 <= i < tx.records.len() ==> unstamped_record(#[trigger] tx.records[i]) == unstamped_record(ty.records[i])
    &&& tx.workouts.len() == ty.workouts.len()
    &&& forall|i: int| 0 <= i < tx.workouts.len() ==> unstamped_workout(#[trigger] tx.workouts[i]) == unstamped_workout(ty.workouts[i])
    &&& tx.activities.len() == ty.activities.len()
    &&& forall|i: int| 0 <= i < tx.activities.len() ==> unstamped_activity(#[trigger] tx.activities[i]) == unstamped_activity(ty.activities[i])
    &&& x.context.workout is Some <==> y.context.workout is Some
    &&& x.context.workout is Some ==> unstamped_workout(x.context.workout->0) == unstamped_workout(y.context.workout->0)
    &&& x.context.in_workout == y.context.in_workout
    &&& x.context.pending_events == y.context.pending_events
    &&& x.context.pending_statistics == y.context.pending_statistics
    &&& x.context.in_record == y.context.in_record
    &&& x.context.record_hash == y.context.record_hash
    &&& x.context.in_correlation == y.context.in_correlation
    &&& x.context.correlations == y.context.correlations
    &&& x.context.malformed == y.context.malformed
}

proof fn lemma_same_but_stamps(x: ExportState, y: ExportState)
    ensures
        same_but_stamps(x, y) <==> unstamped(x) == unstamped(y),
{
    let ux = unstamped(x);
    let uy = unstamped(y);
    if same_but_stamps(x, y) {
        assert(ux.tables.records =~= uy.tables.records);
        assert(ux.tables.workouts =~= uy.tables.workouts);
        assert(ux.tables.activities =~= uy.tables.activities);
        assert(ux.tables =~= uy.tables);
        assert(ux.context =~= uy.context);
    }
    if ux == uy {
        assert(ux.tables.records.len() == x.tables.records.len());
        assert(uy.tables.records.len() == y.tables.records.len());
        assert(ux.tables.workouts.len() == x.tables.workouts.len());
        assert(uy.tables.workouts.len() == y.tables.workouts.len());
        assert(ux.tables.activities.len() == x.tables.activities.len());
        assert(uy.tables.activities.len() == y.tables.activities.len());
        assert forall|i: int| 0 <= i < x.tables.records.len() implies unstamped_record(
            #[trigger] x.tables.records[i],
        ) == unstamped_record(y.tables.records[i]) by {
            assert(ux.tables.records[i] == uy.tables.records[i]);
        }
        assert forall|i: int| 0 <= i < x.tables.workouts.len() implies unstamped_workout(
            #[trigger] x.tables.workouts[i],
        ) == unstamped_workout(y.tables.workouts[i]) by {
            assert(ux.tables.workouts[i] == uy.tables.workouts[i]);
        }
        assert forall|i: int| 0 <= i < x.tables.activities.len() implies unstamped_activity(
            #[trigger] x.tables.activities[i],
        ) == unstamped_activity(y.tables.activities[i]) by {
            assert(ux.tables.activities[i] == uy.tables.activities[i]);
        }
        if x.context.workout is Some {
            assert(ux.context.workout == uy.context.workout);
        }
    }
}

proof fn lemma_open_same_but_stamps(s1: ExportState, s2: ExportState, e: Element, a: Seq<char>, b: Seq<char>)
    requires
        same_but_stamps(s1, s2),
    ensures
        same_but_stamps(open_element(s1, e, a), open_element(s2, e, b)),
{
    let n1 = open_element(s1, e, a);
    let n2 = open_element(s2, e, b);
    if s1.context.workout is Some {
        assert(s1.context.workout->0.workout_hash == unstamped_workout(s1.context.workout->0).workout_hash);
        assert(s2.context.workout->0.workout_hash == unstamped_workout(s2.context.workout->0).workout_hash);
    }
    let n = e.name@;
    if n == "Record"@ && !s1.context.in_correlation {
        assert(unstamped_record(record_of(e.attributes@, a)) == unstamped_record(record_of(e.attributes@, b)));
        assert forall|i: int| 0 <= i < n1.tables.records.len() implies unstamped_record(
            #[trigger] n1.tables.records[i],
        ) == unstamped_record(n2.tables.records[i]) by {
            if i < s1.tables.records.len() {
                assert(n1.tables.records[i] == s1.tables.records[i]);
                assert(n2.tables.records[i] == s2.tables.records[i]);
            }
        }
    } else if n == "MetadataEntry"@ {
    } else if n == "Workout"@ {
        assert(unstamped_workout(workout_of(e.attributes@, a)) == unstamped_workout(workout_of(e.attributes@, b)));
    } else if n == "WorkoutEvent"@ && s1.context.in_workout && s1.context.workout is Some {
    } else if n == "WorkoutStatistics"@ && s1.context.in_workout && s1.context.workout is Some {
    } else if n == "ActivitySummary"@ {
        assert(unstamped_activity(activity_of(e.attributes@, a)) == unstamped_activity(activity_of(e.attributes@, b)));
        assert forall|i: int| 0 <= i < n1.tables.activities.len() implies unstamped_activity(
            #[trigger] n1.tables.activities[i],
        ) == unstamped_activity(n2.tables.activities[i]) by {
            if i < s1.tables.activities.len() {
                assert(n1.tables.activities[i] == s1.tables.activities[i]);
                assert(n2.tables.activities[i] == s2.tables.activities[i]);
            }
        }
    }
}

proof fn lemma_close_same_but_stamps(s1: ExportState, s2: ExportState, name: Seq<char>)
    requires
        same_but_stamps(s1, s2),
    ensures
        same_but_stamps(close_element(s1, name), close_element(s2, name)),
{
    let n1 = close_element(s1, name);
    let n2 = close_element(s2, name);
    if name == "Workout"@ && s1.context.workout is Some {
        assert forall|i: int| 0 <= i < n1.tables.workouts.len() implies unstamped_workout(
            #[trigger] n1.tables.workouts[i],
        ) == unstamped_workout(n2.tables.workouts[i]) by {
            if i < s1.tables.workouts.len() {
                assert(n1.tables.workouts[i] == s1.tables.workouts[i]);
                assert(n2.tables.workouts[i] == s2.tables.workouts[i]);
            }
        }
    }
}

proof fn lemma_step_unstamped(s1: ExportState, s2: ExportState, ev: XmlEvent, a: Seq<char>, b: Seq<char>)
    requires
        unstamped(s1) == unstamped(s2),
    ensures
        unstamped(export_step(s1, ev, a)) == unstamped(export_step(s2, ev, b)),
{
    lemma_same_but_stamps(s1, s2);
    match ev {
        XmlEvent::Start(e) => lemma_open_same_but_stamps(s1, s2, e, a, b),
        XmlEvent::Empty(e) => {
            lemma_open_same_but_stamps(s1, s2, e, a, b);
            lemma_close_same_but_stamps(open_element(s1, e, a), open_element(s2, e, b), e.name@);
        },
        XmlEvent::End(name) => lemma_close_same_but_stamps(s1, s2, name@),
        _ => {},
    }
    lemma_same_but_stamps(export_step(s1, ev, a), export_step(s2, ev, b));
}

/// Two passes over the same events under different run identifiers produce
/// the same rows but for the run tag.
pub proof fn lemma_run_unstamped(evs: Seq<XmlEvent>, a: Seq<char>, b: Seq<char>)
    ensures
        unstamped(export_run(evs, a)) == unstamped(export_run(evs, b)),
    decreases evs.len(),
{
    if evs.len() > 0 {
        lemma_run_unstamped(evs.drop_last(), a, b);
        lemma_step_unstamped(
            export_run(evs.drop_last(), a),
            export_run(evs.drop_last(), b),
            evs.last(),
            a,
            b,
        );
    }
}

proof fn lemma_doubled_set<T>(x: Seq<T>)
    ensures
        (x + x).to_set() == x.to_set(),
{
    assert forall|a: T| (x + x).to_set().contains(a) implies x.to_set().contains(a) by {
        let i = choose|i: int| 0 <= i < (x + x).len() && (x + x)[i] == a;
        if i >= x.len() {
            assert(x[i - x.len()] == a);
        } else {
            assert(x[i] == a);
        }
    }
    assert forall|a: T| x.to_set().contains(a) implies (x + x).to_set().contains(a) by {
        let i = choose|i: int| 0 <= i < x.len() && x[i] == a;
        assert((x + x)[i] == a);
    }
    assert((x + x).to_set() =~= x.to_set());
}

/// The identities of a record table: what convergence keeps one row of.
pub open spec fn record_keys(rows: Seq<RecordView>) -> Set<Seq<char>> {
    Set::new(|k: Seq<char>| exists|i: int| 0 <= i < rows.len() && rows[i].record_hash == k)
}

pub open spec fn workout_keys(rows: Seq<WorkoutView>) -> Set<Seq<char>> {
    Set::new(|k: Seq<char>| exists|i: int| 0 <= i < rows.len() && rows[i].workout_hash == k)
}

pub open spec fn metadata_keys(rows: Seq<MetadataView>) -> Set<(Seq<char>, Seq<char>)> {
    Set::new(
        |k: (Seq<char>, Seq<char>)|
            exists|i: int| 0 <= i < rows.len() && (rows[i].record_hash, rows[i].key) == k,
    )
}

/// Activity summaries are keyed by their date alone.
pub open spec fn activity_keys(rows: Seq<ActivityView>) -> Set<Seq<char>> {
    Set::new(|k: Seq<char>| exists|i: int| 0 <= i < rows.len() && rows[i].date_components == k)
}

/// Importing the same document twice before convergence holds exactly twice
/// the rows of one import in every table; collapsing each identified table
/// to one row per identity gives back the identities of a single import.
pub proof fn lemma_reimport_converges(evs: Seq<XmlEvent>, a: Seq<char>, b: Seq<char>)
    ensures
        ({
            let ta = export_run(evs, a).tables;
            let tb = export_run(evs, b).tables;
            let both = concat_tables(ta, tb);
            &&& both.records.len() == 2 * ta.records.len()
            &&& both.metadata.len() == 2 * ta.metadata.len()
            &&& both.workouts.len() == 2 * ta.workouts.len()
            &&& both.events.len() == 2 * ta.events.len()
            &&& both.statistics.len() == 2 * ta.statistics.len()
            &&& both.activities.len() == 2 * ta.activities.len()
            &&& record_keys(both.records) == record_keys(ta.records)
            &&& metadata_keys(both.metadata) == metadata_keys(ta.metadata)
            &&& workout_keys(both.workouts) == workout_keys(ta.workouts)
            &&& activity_keys(both.activities) == activity_keys(ta.activities)
            &&& both.events.to_set() == ta.events.to_set()
            &&& both.statistics.to_set() == ta.statistics.to_set()
        }),
{
    lemma_run_unstamped(evs, a, b);
    let ta = export_run(evs, a).tables;
    let tb = export_run(evs, b).tables;
    let ua = unstamped(export_run(evs, a)).tables;
    let ub = unstamped(export_run(evs, b)).tables;
    let both = concat_tables(ta, tb);
    assert(ua.records.len() == ta.records.len() && ub.records.len() == tb.records.len());
    assert(ua.workouts.len() == ta.workouts.len() && ub.workouts.len() == tb.workouts.len());
    assert(ua.activities.len() == ta.activities.len() && ub.activities.len() == tb.activities.len());
    assert(ta.events == tb.events && ta.statistics == tb.statistics);
    lemma_doubled_set(ta.events);
    lemma_doubled_set(ta.statistics);
    assert(record_keys(both.records) =~= record_keys(ta.records)) by {
        assert forall|k: Seq<char>| record_keys(both.records).contains(k) implies record_keys(
            ta.records,
        ).contains(k) by {
            let i = choose|i: int| 0 <= i < both.records.len() && both.records[i].record_hash == k;
            if i >= ta.records.len() {
                let j = i - ta.records.len();
                assert(ua.records[j] == ub.records[j]);
                assert(ta.records[j].record_hash == k);
            }
        }
        assert forall|k: Seq<char>| record_keys(ta.records).contains(k) implies record_keys(
            both.records,
        ).contains(k) by {
            let i = choose|i: int| 0 <= i < ta.records.len() && ta.records[i].record_hash == k;
            assert(both.records[i] == ta.records[i]);
        }
    }
    assert(workout_keys(both.workouts) =~= workout_keys(ta.workouts)) by {
        assert forall|k: Seq<char>| workout_keys(both.workouts).contains(k) implies workout_keys(
            ta.workouts,
        ).contains(k) by {
            let i = choose|i: int| 0 <= i < both.workouts.len() && both.workouts[i].workout_hash == k;
            if i >= ta.workouts.len() {
                let j = i - ta.workouts.len();
                assert(ua.workouts[j] == ub.workouts[j]);
                assert(ta.workouts[j].workout_hash == k);
            }
        }
        assert forall|k: Seq<char>| workout_keys(ta.workouts).contains(k) implies workout_keys(
            both.workouts,
        ).contains(k) by {
            let i = choose|i: int| 0 <= i < ta.workouts.len() && ta.workouts[i].workout_hash == k;
            assert(both.workouts[i] == ta.workouts[i]);
        }
    }
    assert(metadata_keys(both.metadata) =~= metadata_keys(ta.metadata)) by {
        assert forall|k: (Seq<char>, Seq<char>)| metadata_keys(both.metadata).contains(k) implies metadata_keys(
            ta.metadata,
        ).contains(k) by {
            let i = choose|i: int|
                0 <= i < both.metadata.len() && (both.metadata[i].record_hash, both.metadata[i].key)
                    == k;
            if i >= ta.metadata.len() {
                let j = i - ta.metadata.len();
                assert(ta.metadata[j] == tb.metadata[j]);
                assert((ta.metadata[j].record_hash, ta.metadata[j].key) == k);
            }
        }
        assert forall|k: (Seq<char>, Seq<char>)| metadata_keys(ta.metadata).contains(k) implies metadata_keys(
            both.metadata,
        ).contains(k) by {
            let i = choose|i: int|
                0 <= i < ta.metadata.len() && (ta.metadata[i].record_hash, ta.metadata[i].key) == k;
            assert(both.metadata[i] == ta.metadata[i]);
        }
    }
    assert(activity_keys(both.activities) =~= activity_keys(ta.activities)) by {
        assert forall|k: Seq<char>| activity_keys(both.activities).contains(k) implies activity_keys(
            ta.activities,
        ).contains(k) by {
            let i = choose|i: int|
                0 <= i < both.activities.len() && both.activities[i].date_components == k;
            if i >= ta.activities.len() {
                let j = i - ta.activities.len();
                assert(ua.activities[j] == ub.activities[j]);
                assert(ta.activities[j].date_components == k);
            }
        }
        assert forall|k: Seq<char>| activity_keys(ta.activities).contains(k) implies activity_keys(
            both.activities,
        ).contains(k) by {
            let i = choose|i: int| 0 <= i < ta.activities.len() && ta.activities[i].date_components == k;
            assert(both.activities[i] == ta.activities[i]);
        }
    }
}

} // verus!
