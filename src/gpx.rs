//! The GPS track parser: trackpoints out of a track file's structural events,
//! and the route-point rows made of them.
//!
//! A trackpoint takes latitude and longitude from its attributes and its
//! elevation, time, speed, course and accuracies from child elements. Reading
//! the coordinates as floating-point values is left to the caller, which
//! hands their canonical text back to `route_point_row`.

use vstd::prelude::*;
use crate::identity::{compute_hash, field_views, identity_of};
use crate::text::same_text;
use crate::timestamp::{clean_timestamp, naive_timestamp};
use crate::xml::{attr_of, attr_value, opt_view, or_empty, text_or_empty, Element, XmlEvent};

verus! {

/// A trackpoint with latitude, longitude and time, as written in the file.
pub struct TrackPoint {
    pub lat: String,
    pub lon: String,
    pub time: String,
    pub elevation: Option<String>,
    pub speed: Option<String>,
    pub course: Option<String>,
    pub h_accuracy: Option<String>,
    pub v_accuracy: Option<String>,
}

pub struct PointView {
    pub lat: Seq<char>,
    pub lon: Seq<char>,
    pub time: Seq<char>,
    pub elevation: Option<Seq<char>>,
    pub speed: Option<Seq<char>>,
    pub course: Option<Seq<char>>,
    pub h_accuracy: Option<Seq<char>>,
    pub v_accuracy: Option<Seq<char>>,
}

impl View for TrackPoint {
    type V = PointView;

    open spec fn view(&self) -> PointView {
        PointView {
            lat: self.lat@,
            lon: self.lon@,
            time: self.time@,
            elevation: opt_view(self.elevation),
            speed: opt_view(self.speed),
            course: opt_view(self.course),
            h_accuracy: opt_view(self.h_accuracy),
            v_accuracy: opt_view(self.v_accuracy),
        }
    }
}

pub open spec fn point_views(s: Seq<TrackPoint>) -> Seq<PointView> {
    Seq::new(s.len(), |i: int| s[i]@)
}

/// The child element whose text is being read.
#[derive(Clone, Copy, PartialEq, Eq, Structural)]
pub enum Field {
    Elevation,
    Time,
    Speed,
    Course,
    HAccuracy,
    VAccuracy,
}

/// The scratch record of the open trackpoint, and the points emitted so far.
pub struct TrackScan {
    pub in_point: bool,
    pub lat: Option<Seq<char>>,
    pub lon: Option<Seq<char>>,
    pub elevation: Option<Seq<char>>,
    pub time: Option<Seq<char>>,
    pub speed: Option<Seq<char>>,
    pub course: Option<Seq<char>>,
    pub h_accuracy: Option<Seq<char>>,
    pub v_accuracy: Option<Seq<char>>,
    pub field: Option<Field>,
    pub points: Seq<PointView>,
}

pub open spec fn initial_track() -> TrackScan {
    TrackScan {
        in_point: false,
        lat: None,
        lon: None,
        elevation: None,
        time: None,
        speed: None,
        course: None,
        h_accuracy: None,
        v_accuracy: None,
        field: None,
        points: Seq::empty(),
    }
}

pub open spec fn field_named(n: Seq<char>) -> Option<Field> {
    if n == "ele"@ {
        Some(Field::Elevation)
    } else if n == "time"@ {
        Some(Field::Time)
    } else if n == "speed"@ {
        Some(Field::Speed)
    } else if n == "course"@ {
        Some(Field::Course)
    } else if n == "hAcc"@ {
        Some(Field::HAccuracy)
    } else if n == "vAcc"@ {
        Some(Field::VAccuracy)
    } else {
        None
    }
}

pub open spec fn track_start(st: TrackScan, e: Element) -> TrackScan {
    if e.name@ == "trkpt"@ {
        TrackScan {
            in_point: true,
            lat: attr_of(e.attributes@, "lat"@),
            lon: attr_of(e.attributes@, "lon"@),
            elevation: None,
            time: None,
            speed: None,
            course: None,
            h_accuracy: None,
            v_accuracy: None,
            ..st
        }
    } else if st.in_point && field_named(e.name@) is Some {
        TrackScan { field: field_named(e.name@), ..st }
    } else {
        st
    }
}

pub open spec fn track_text(st: TrackScan, t: Seq<char>) -> TrackScan {
    if !st.in_point {
        st
    } else {
        match st.field {
            Some(Field::Elevation) => TrackScan { elevation: Some(t), ..st },
            Some(Field::Time) => TrackScan { time: Some(t), ..st },
            Some(Field::Speed) => TrackScan { speed: Some(t), ..st },
            Some(Field::Course) => TrackScan { course: Some(t), ..st },
            Some(Field::HAccuracy) => TrackScan { h_accuracy: Some(t), ..st },
            Some(Field::VAccuracy) => TrackScan { v_accuracy: Some(t), ..st },
            None => st,
        }
    }
}

/// Closing a trackpoint emits it when it has latitude, longitude and time.
pub open spec fn track_end(st: TrackScan, name: Seq<char>) -> TrackScan {
    if name == "trkpt"@ && st.in_point {
        let points = if st.lat is Some && st.lon is Some && st.time is Some {
            st.points.push(
                PointView {
                    lat: st.lat->0,
                    lon: st.lon->0,
                    time: st.time->0,
                    elevation: st.elevation,
                    speed: st.speed,
                    course: st.course,
                    h_accuracy: st.h_accuracy,
                    v_accuracy: st.v_accuracy,
                },
            )
        } else {
            st.points
        };
        TrackScan { in_point: false, field: None, points, ..st }
    } else {
        TrackScan { field: None, ..st }
    }
}

pub open spec fn track_step(st: TrackScan, ev: XmlEvent) -> TrackScan {
    match ev {
        XmlEvent::Start(e) => track_start(st, e),
        XmlEvent::Text(t) => track_text(st, t@),
        XmlEvent::End(name) => track_end(st, name@),
        _ => st,
    }
}

pub open spec fn track_run(evs: Seq<XmlEvent>) -> TrackScan
    decreases evs.len(),
{
    if evs.len() == 0 {
        initial_track()
    } else {
        track_step(track_run(evs.drop_last()), evs.last())
    }
}

fn field_of(name: &str) -> (r: Option<Field>)
    ensures
        r == field_named(name@),
{
    if same_text(name, "ele") {
        Some(Field::Elevation)
    } else if same_text(name, "time") {
        Some(Field::Time)
    } else if same_text(name, "speed") {
        Some(Field::Speed)
    } else if same_text(name, "course") {
        Some(Field::Course)
    } else if same_text(name, "hAcc") {
        Some(Field::HAccuracy)
    } else if same_text(name, "vAcc") {
        Some(Field::VAccuracy)
    } else {
        None
    }
}

fn clone_opt(o: &Option<String>) -> (r: Option<String>)
    ensures
        opt_view(r) == opt_view(*o),
{
    match o {
        Some(s) => Some(s.clone()),
        None => None,
    }
}

/// The streaming trackpoint parser of one track file.
pub struct TrackParser {
    in_point: bool,
    lat: Option<String>,
    lon: Option<String>,
    elevation: Option<String>,
    time: Option<String>,
    speed: Option<String>,
    course: Option<String>,
    h_accuracy: Option<String>,
    v_accuracy: Option<String>,
    field: Option<Field>,
    points: Vec<TrackPoint>,
}

impl TrackParser {
    pub closed spec fn scan(&self) -> TrackScan {
        TrackScan {
            in_point: self.in_point,
            lat: opt_view(self.lat),
            lon: opt_view(self.lon),
            elevation: opt_view(self.elevation),
            time: opt_view(self.time),
            speed: opt_view(self.speed),
            course: opt_view(self.course),
            h_accuracy: opt_view(self.h_accuracy),
            v_accuracy: opt_view(self.v_accuracy),
            field: self.field,
            points: point_views(self.points@),
        }
    }

    pub fn new() -> (r: TrackParser)
        ensures
            r.scan() == initial_track(),
    {
        let r = TrackParser {
            in_point: false,
            lat: None,
            lon: None,
            elevation: None,
            time: None,
            speed: None,
            course: None,
            h_accuracy: None,
            v_accuracy: None,
            field: None,
            points: Vec::new(),
        };
        assert(r.scan().points =~= Seq::<PointView>::empty());
        r
    }

    fn emit(&mut self)
        requires
            old(self).in_point,
        ensures
            final(self).scan() == track_end(old(self).scan(), "trkpt"@),
    {
        let ghost st = self.scan();
        match (&self.lat, &self.lon, &self.time) {
            (Some(lat), Some(lon), Some(time)) => {
                let p = TrackPoint {
                    lat: lat.clone(),
                    lon: lon.clone(),
                    time: time.clone(),
                    elevation: clone_opt(&self.elevation),
                    speed: clone_opt(&self.speed),
                    course: clone_opt(&self.course),
                    h_accuracy: clone_opt(&self.h_accuracy),
                    v_accuracy: clone_opt(&self.v_accuracy),
                };
                self.points.push(p);
                assert(point_views(self.points@) =~= st.points.push(p@));
            },
            _ => {},
        }
        self.in_point = false;
        self.field = None;
        assert(self.scan() =~= track_end(st, "trkpt"@));
    }

    /// Takes in one structural event of the track file.
    pub fn step(&mut self, ev: &XmlEvent)
        ensures
            final(self).scan() == track_step(old(self).scan(), *ev),
    {
        let ghost st = self.scan();
        match ev {
            XmlEvent::Start(e) => {
                if same_text(e.name.as_str(), "trkpt") {
                    self.in_point = true;
                    self.lat = attr_value(e, "lat");
                    self.lon = attr_value(e, "lon");
                    self.elevation = None;
                    self.time = None;
                    self.speed = None;
                    self.course = None;
                    self.h_accuracy = None;
                    self.v_accuracy = None;
                } else if self.in_point {
                    let f = field_of(e.name.as_str());
                    if f.is_some() {
                        self.field = f;
                    }
                }
                assert(self.scan() =~= track_start(st, *e));
            },
            XmlEvent::Text(t) => {
                if self.in_point {
                    match self.field {
                        Some(Field::Elevation) => self.elevation = Some(t.clone()),
                        Some(Field::Time) => self.time = Some(t.clone()),
                        Some(Field::Speed) => self.speed = Some(t.clone()),
                        Some(Field::Course) => self.course = Some(t.clone()),
                        Some(Field::HAccuracy) => self.h_accuracy = Some(t.clone()),
                        Some(Field::VAccuracy) => self.v_accuracy = Some(t.clone()),
                        None => {},
                    }
                }
                assert(self.scan() =~= track_text(st, t@));
            },
            XmlEvent::End(name) => {
                if same_text(name.as_str(), "trkpt") && self.in_point {
                    self.emit();
                } else {
                    self.field = None;
                    assert(self.scan() =~= track_end(st, name@));
                }
            },
            _ => {},
        }
    }

    /// The trackpoints emitted so far.
    pub fn into_points(self) -> (r: Vec<TrackPoint>)
        ensures
            point_views(r@) == self.scan().points,
    {
        self.points
    }
}

/// The trackpoints of a whole track file given as its structural events.
pub fn parse_track(events: &Vec<XmlEvent>) -> (r: Vec<TrackPoint>)
    ensures
        point_views(r@) == track_run(events@).points,
{
    let mut parser = TrackParser::new();
    let mut i: usize = 0;
    while i < events.len()
        invariant
            i <= events@.len(),
            parser.scan() == track_run(events@.subrange(0, i as int)),
        decreases events@.len() - i,
    {
        proof {
            assert(events@.subrange(0, i + 1).drop_last() =~= events@.subrange(0, i as int));
        }
        parser.step(&events[i]);
        i = i + 1;
    }
    assert(events@.subrange(0, events@.len() as int) =~= events@);
    parser.into_points()
}

/// One GPS route point.
pub struct RoutePointRow {
    pub point_hash: String,
    /// The owning workout; none when the track file is linked to no workout.
    pub workout_hash: Option<String>,
    pub latitude: String,
    pub longitude: String,
    pub elevation: Option<String>,
    pub timestamp: String,
    pub speed: Option<String>,
    pub course: Option<String>,
    pub h_accuracy: Option<String>,
    pub v_accuracy: Option<String>,
    pub import_id: String,
}

/// The identity of a route point: owning workout (or empty), time as
/// written, latitude, longitude.
pub open spec fn point_identity(workout: Option<Seq<char>>, time: Seq<char>, lat: Seq<char>, lon: Seq<char>) -> Seq<char> {
    identity_of(seq![or_empty(workout), time, lat, lon])
}

/// `row` is the route-point row of trackpoint `p` of a track owned by
/// `workout_hash`, with coordinates read as `lat` and `lon`.
pub open spec fn row_of_point(
    row: RoutePointRow,
    p: TrackPoint,
    workout_hash: Option<String>,
    lat: Seq<char>,
    lon: Seq<char>,
    import_id: Seq<char>,
) -> bool {
    &&& row.point_hash@ == point_identity(opt_view(workout_hash), p.time@, lat, lon)
    &&& opt_view(row.workout_hash) == opt_view(workout_hash)
    &&& row.latitude@ == lat
    &&& row.longitude@ == lon
    &&& row.timestamp@ == naive_timestamp(p.time@)
    &&& opt_view(row.elevation) == opt_view(p.elevation)
    &&& opt_view(row.speed) == opt_view(p.speed)
    &&& opt_view(row.course) == opt_view(p.course)
    &&& opt_view(row.h_accuracy) == opt_view(p.h_accuracy)
    &&& opt_view(row.v_accuracy) == opt_view(p.v_accuracy)
    &&& row.import_id@ == import_id
}

/// The route-point row of trackpoint `p` of a track owned by `workout_hash`.
/// `lat` and `lon` are the canonical text of the point's coordinates read as
/// numbers, or none where they do not read as numbers: then the point is
/// dropped.
pub fn route_point_row(
    p: &TrackPoint,
    workout_hash: &Option<String>,
    lat: &Option<String>,
    lon: &Option<String>,
    import_id: &str,
) -> (r: Option<RoutePointRow>)
    ensures
        r is Some <==> (lat is Some && lon is Some),
        r matches Some(row) ==> row_of_point(row, *p, *workout_hash, lat->0@, lon->0@, import_id@),
{
    match (lat, lon) {
        (Some(la), Some(lo)) => {
            let parts = [text_or_empty(workout_hash), p.time.as_str(), la.as_str(), lo.as_str()];
            let point_hash = compute_hash(&parts);
            proof {
                assert(field_views(parts@) =~= seq![
                    or_empty(opt_view(*workout_hash)),
                    p.time@,
                    la@,
                    lo@,
                ]);
            }
            Some(
                RoutePointRow {
                    point_hash,
                    workout_hash: clone_opt(workout_hash),
                    latitude: la.clone(),
                    longitude: lo.clone(),
                    elevation: clone_opt(&p.elevation),
                    timestamp: clean_timestamp(p.time.as_str()),
                    speed: clone_opt(&p.speed),
                    course: clone_opt(&p.course),
                    h_accuracy: clone_opt(&p.h_accuracy),
                    v_accuracy: clone_opt(&p.v_accuracy),
                    import_id: String::from_str(import_id),
                },
            )
        },
        _ => None,
    }
}

/// The positions of the points whose coordinates both read as numbers.
pub open spec fn kept_points(lats: Seq<Option<String>>, lons: Seq<Option<String>>) -> Seq<int>
    decreases lats.len(),
{
    if lats.len() == 0 {
        Seq::empty()
    } else if lats.last() is Some && lons[lats.len() - 1] is Some {
        kept_points(lats.drop_last(), lons).push(lats.len() - 1)
    } else {
        kept_points(lats.drop_last(), lons)
    }
}

proof fn lemma_kept_points_bounded(lats: Seq<Option<String>>, lons: Seq<Option<String>>)
    ensures
        forall|k: int| 0 <= k < kept_points(lats, lons).len() ==> 0 <= #[trigger] kept_points(lats, lons)[k] < lats.len(),
    decreases lats.len(),
{
    if lats.len() > 0 {
        let prev = kept_points(lats.drop_last(), lons);
        lemma_kept_points_bounded(lats.drop_last(), lons);
        assert forall|k: int| 0 <= k < kept_points(lats, lons).len() implies 0
            <= #[trigger] kept_points(lats, lons)[k] < lats.len() by {
            if k < prev.len() {
                assert(kept_points(lats, lons)[k] == prev[k]);
            }
        }
    }
}

/// The route-point rows of a track file's points, in order: one for each
/// point whose coordinates read as numbers (`lats[i]`, `lons[i]`), none for
/// the others.
pub fn route_point_rows(
    points: &Vec<TrackPoint>,
    workout_hash: &Option<String>,
    lats: &Vec<Option<String>>,
    lons: &Vec<Option<String>>,
    import_id: &str,
) -> (r: Vec<RoutePointRow>)
    requires
        lats@.len() == points@.len(),
        lons@.len() == points@.len(),
    ensures
        r@.len() == kept_points(lats@, lons@).len(),
        forall|k: int|
            0 <= k < r@.len() ==> {
                let i = kept_points(lats@, lons@)[k];
                &&& 0 <= i < points@.len()
                &&& row_of_point(
                    #[trigger] r@[k],
                    points@[i],
                    *workout_hash,
                    lats@[i]->0@,
                    lons@[i]->0@,
                    import_id@,
                )
            },
{
    let mut out: Vec<RoutePointRow> = Vec::new();
    let mut i: usize = 0;
    while i < points.len()
        invariant
            lats@.len() == points@.len(),
            lons@.len() == points@.len(),
            i <= points@.len(),
            out@.len() == kept_points(lats@.subrange(0, i as int), lons@).len(),
            forall|k: int|
                0 <= k < out@.len() ==> {
                    let j = kept_points(lats@.subrange(0, i as int), lons@)[k];
                    &&& 0 <= j < i
                    &&& row_of_point(
                        #[trigger] out@[k],
                        points@[j],
                        *workout_hash,
                        lats@[j]->0@,
                        lons@[j]->0@,
                        import_id@,
                    )
                },
        decreases points@.len() - i,
    {
        let ghost prefix = lats@.subrange(0, i + 1);
        proof {
            assert(prefix.drop_last() =~= lats@.subrange(0, i as int));
            assert(prefix.last() == lats@[i as int]);
            lemma_kept_points_bounded(lats@.subrange(0, i as int), lons@);
        }
        let ghost before = kept_points(lats@.subrange(0, i as int), lons@);
        let ghost old_out = out@;
        match route_point_row(&points[i], workout_hash, &lats[i], &lons[i], import_id) {
            Some(row) => {
                out.push(row);
                proof {
                    assert(kept_points(prefix, lons@) == before.push(i as int));
                    assert forall|k: int| 0 <= k < out@.len() implies {
                        let j = kept_points(prefix, lons@)[k];
                        &&& 0 <= j < i + 1
                        &&& row_of_point(
                            #[trigger] out@[k],
                            points@[j],
                            *workout_hash,
                            lats@[j]->0@,
                            lons@[j]->0@,
                            import_id@,
                        )
                    } by {
                        if k < old_out.len() {
                            assert(out@[k] == old_out[k]);
                        }
                    }
                }
            },
            None => {
                proof {
                    assert(kept_points(prefix, lons@) == before);
                }
            },
        }
        i = i + 1;
    }
    assert(lats@.subrange(0, points@.len() as int) =~= lats@);
    proof {
        assert(kept_points(lats@.subrange(0, points@.len() as int), lons@) == kept_points(lats@, lons@));
        lemma_kept_points_bounded(lats@, lons@);
    }
    out
}

/// A trackpoint that lacks its latitude or its longitude is dropped when it
/// closes: no point is emitted for it.
pub proof fn lemma_point_without_coordinates_dropped(st: TrackScan)
    requires
        st.in_point,
        st.lat is None || st.lon is None,
    ensures
        track_end(st, "trkpt"@).points == st.points,
{
}

} // verus!
