use apple_health_mcp::ecg::{ecg_sample_lines, parse_ecg_header, trimmed_lines, EcgError};
use apple_health_mcp::export::{parse_export, ExportParser};
use apple_health_mcp::gpx::{parse_track, route_point_row, route_point_rows, TrackPoint};
use apple_health_mcp::routes::resolve_routes;
use apple_health_mcp::xml::{Attribute, Element, XmlEvent};
use quick_xml::events::{BytesStart, Event};
use quick_xml::reader::Reader;
use std::collections::HashSet;

const MINIMAL_XML: &str = r#"<?xml version="1.0" encoding="UTF-8"?>
<!DOCTYPE HealthData>
<HealthData locale="en_US">
 <Record type="HKQuantityTypeIdentifierHeartRate" sourceName="Apple Watch" unit="count/min" value="72" startDate="2024-01-01 08:00:00 +0000" endDate="2024-01-01 08:01:00 +0000">
  <MetadataEntry key="HKMetadataKeyHeartRateMotionContext" value="1"/>
 </Record>
 <Record type="HKQuantityTypeIdentifierStepCount" sourceName="iPhone" unit="count" value="1500" startDate="2024-01-01 09:00:00 +0000" endDate="2024-01-01 09:30:00 +0000"/>
 <Workout workoutActivityType="HKWorkoutActivityTypeRunning" duration="1800" durationUnit="sec" totalDistance="5000" totalDistanceUnit="m" totalEnergyBurned="300" totalEnergyBurnedUnit="kcal" sourceName="Apple Watch" startDate="2024-01-01 10:00:00 +0000" endDate="2024-01-01 10:30:00 +0000">
  <WorkoutEvent type="HKWorkoutEventTypeLap" date="2024-01-01 10:15:00 +0000"/>
  <WorkoutStatistics type="HKQuantityTypeIdentifierHeartRate" startDate="2024-01-01 10:00:00 +0000" endDate="2024-01-01 10:30:00 +0000" average="150" minimum="120" maximum="180" unit="count/min"/>
  <WorkoutRoute sourceName="Apple Watch">
   <FileReference path="/workout-routes/route_2024-01-01.gpx"/>
  </WorkoutRoute>
 </Workout>
 <Correlation type="HKCorrelationTypeIdentifierBloodPressure" sourceName="BP Monitor" startDate="2024-01-01 12:00:00 +0000" endDate="2024-01-01 12:00:00 +0000">
  <Record type="HKQuantityTypeIdentifierBloodPressureSystolic" sourceName="BP Monitor" unit="mmHg" value="120" startDate="2024-01-01 12:00:00 +0000" endDate="2024-01-01 12:00:00 +0000"/>
 </Correlation>
 <ActivitySummary dateComponents="2024-01-01" activeEnergyBurned="500" activeEnergyBurnedGoal="600" appleExerciseTime="30" appleExerciseTimeGoal="30" appleStandHours="10" appleStandHoursGoal="12"/>
</HealthData>"#;

const MINIMAL_ECG_CSV: &str = "Name,Test User
Date of Birth,1990-01-01
Recorded Date,2024-06-15 10:30:00 +0000
Classification,Sinus Rhythm
Symptoms,None
Software Version,2.0
Device,\"Apple Watch\"
Sample Rate,512.000 Hz
Lead,Lead I
Unit,ÂµV

100
200
-50
150
75";

const MINIMAL_GPX: &str = r#"<?xml version="1.0" encoding="UTF-8"?>
<gpx xmlns="http://www.topografix.com/GPX/1/1" version="1.1">
  <trk>
    <trkseg>
      <trkpt lat="37.7749" lon="-122.4194">
        <ele>10.5</ele>
        <time>2024-01-01T10:00:00Z</time>
        <speed>3.5</speed>
        <course>180.0</course>
        <hAcc>5.0</hAcc>
        <vAcc>3.0</vAcc>
      </trkpt>
      <trkpt lat="37.7750" lon="-122.4195">
        <ele>11.0</ele>
        <time>2024-01-01T10:00:05Z</time>
        <speed>3.6</speed>
        <course>181.0</course>
        <hAcc>4.5</hAcc>
        <vAcc>2.8</vAcc>
      </trkpt>
    </trkseg>
  </trk>
</gpx>"#;

fn element(e: &BytesStart, local: bool) -> Element {
    let name = if local {
        String::from_utf8_lossy(e.local_name().as_ref()).into_owned()
    } else {
        String::from_utf8_lossy(e.name().as_ref()).into_owned()
    };
    let mut attributes = Vec::new();
    for a in e.attributes().filter_map(|a| a.ok()) {
        if let Ok(value) = String::from_utf8(a.value.to_vec()) {
            let key = String::from_utf8_lossy(a.key.as_ref()).into_owned();
            attributes.push(Attribute { key, value });
        }
    }
    Element { name, attributes }
}

fn events_of(doc: &str, local: bool) -> Vec<XmlEvent> {
    let mut reader = Reader::from_str(doc);
    reader.config_mut().trim_text(true);
    let mut out = Vec::new();
    loop {
        match reader.read_event() {
            Ok(Event::Eof) => break,
            Ok(Event::Start(e)) => out.push(XmlEvent::Start(element(&e, local))),
            Ok(Event::Empty(e)) => out.push(XmlEvent::Empty(element(&e, local))),
            Ok(Event::End(e)) => {
                let name = if local { e.local_name().as_ref().to_vec() } else { e.name().as_ref().to_vec() };
                out.push(XmlEvent::End(String::from_utf8_lossy(&name).into_owned()));
            }
            Ok(Event::Text(t)) => {
                out.push(XmlEvent::Text(t.unescape().map(|c| c.into_owned()).unwrap_or_default()))
            }
            Ok(_) => out.push(XmlEvent::Other),
            Err(_) => {
                out.push(XmlEvent::Malformed);
                break;
            }
        }
    }
    out
}

fn numeric_flags(lines: &[String]) -> Vec<bool> {
    lines.iter().map(|l| l.parse::<f64>().is_ok()).collect()
}

fn canonical_number(s: &str) -> Option<String> {
    s.parse::<f64>().ok().map(|v| v.to_string())
}

#[test]
fn import_xml_minimal() {
    let events = events_of(MINIMAL_XML, false);
    let (batches, stats) = parse_export(&events, "test_import");
    assert_eq!(stats.records, 2);
    assert_eq!(stats.workouts, 1);
    assert_eq!(stats.activity_summaries, 1);
    assert_eq!(stats.correlations, 1);
    assert_eq!(stats.metadata_entries, 1);
    assert_eq!(stats.workout_events, 1);
    assert_eq!(stats.workout_statistics, 1);
    assert_eq!(batches.records.len(), 2);
    assert_eq!(batches.workouts.len(), 1);
    assert_eq!(batches.metadata.len(), 1);
}

#[test]
fn export_rows_carry_canonical_dates_and_identities() {
    let events = events_of(MINIMAL_XML, false);
    let (batches, _) = parse_export(&events, "run1");
    let r = &batches.records[0];
    assert_eq!(r.start_date, "2024-01-01 08:00:00");
    assert_eq!(r.end_date, "2024-01-01 08:01:00");
    assert_eq!(r.value.as_deref(), Some("72"));
    assert_eq!(r.import_id, "run1");
    assert_eq!(
        r.record_hash,
        apple_health_mcp::identity::compute_hash(&[
            "HKQuantityTypeIdentifierHeartRate",
            "Apple Watch",
            "2024-01-01 08:00:00",
            "2024-01-01 08:01:00",
            "72",
            "count/min"
        ])
    );
    assert_eq!(batches.metadata[0].record_hash, r.record_hash);
    assert_eq!(batches.metadata[0].key, "HKMetadataKeyHeartRateMotionContext");
    let w = &batches.workouts[0];
    assert_eq!(batches.events[0].workout_hash, w.workout_hash);
    assert_eq!(batches.statistics[0].workout_hash, w.workout_hash);
    assert_eq!(batches.events[0].date.as_deref(), Some("2024-01-01 10:15:00"));
    assert_eq!(batches.activities[0].date_components, "2024-01-01");
}

#[test]
fn correlation_child_is_not_stored() {
    let events = events_of(MINIMAL_XML, false);
    let (batches, _) = parse_export(&events, "run1");
    assert!(batches
        .records
        .iter()
        .all(|r| r.record_type != "HKQuantityTypeIdentifierBloodPressureSystolic"));
}

#[test]
fn truncated_workout_discards_pending_rows() {
    let doc = r#"<HealthData>
 <Workout workoutActivityType="Walk" sourceName="W" startDate="2024-01-01 07:00:00 +0000" endDate="2024-01-01 07:30:00 +0000" duration="30">
  <WorkoutEvent type="Lap" date="2024-01-01 07:10:00 +0000"/>
 </Workout>
 <Workout workoutActivityType="Run" sourceName="W" startDate="2024-01-01 10:00:00 +0000" endDate="2024-01-01 10:30:00 +0000" duration="30">
  <WorkoutEvent type="Lap" date="2024-01-01 10:15:00 +0000"/>
  <WorkoutEvent type="Lap" date="2024-01-01 10:20:00 +0000"/>
  <WorkoutStatistics type="HR" average="150" unit="count/min"/>"#;
    let events = events_of(doc, false);
    let (batches, stats) = parse_export(&events, "run1");
    assert_eq!(stats.workouts, 1);
    assert_eq!(batches.workouts[0].activity_type, "Walk");
    assert_eq!(stats.workout_events, 1);
    assert_eq!(stats.workout_statistics, 0);
}

#[test]
fn self_closing_elements_open_and_close() {
    let doc = r#"<HealthData>
 <Correlation type="C" sourceName="S"/>
 <Record type="A" sourceName="S" value="1" startDate="2024-01-01 08:00:00 +0000" endDate="2024-01-01 08:00:00 +0000"/>
 <Correlation type="C" sourceName="S">
  <Record type="B" sourceName="S" value="2"><MetadataEntry key="k" value="v"/></Record>
 </Correlation>
 <Workout workoutActivityType="Run" sourceName="W" duration="5"/>
</HealthData>"#;
    let events = events_of(doc, false);
    let (batches, stats) = parse_export(&events, "run1");
    assert_eq!(stats.correlations, 2);
    assert_eq!(batches.records.len(), 1);
    assert_eq!(batches.records[0].record_type, "A");
    assert_eq!(batches.metadata.len(), 0);
    assert_eq!(batches.workouts.len(), 1);
    assert_eq!(batches.workouts[0].activity_type, "Run");
}

#[test]
fn zulu_dates_are_stripped_before_hashing() {
    let doc = r#"<HealthData><Record type="A" sourceName="S" startDate="2024-01-01 08:00:00Z" endDate="2024-01-01 08:01:00 +0000"/></HealthData>"#;
    let (batches, _) = parse_export(&events_of(doc, false), "run1");
    let r = &batches.records[0];
    assert_eq!(r.start_date, "2024-01-01 08:00:00");
    assert_eq!(
        r.record_hash,
        apple_health_mcp::identity::compute_hash(&["A", "S", "2024-01-01 08:00:00", "2024-01-01 08:01:00", "", ""])
    );
}

#[test]
fn malformed_pieces_are_counted() {
    let mut parser = ExportParser::new("run1", 10);
    for ev in events_of(MINIMAL_XML, false) {
        parser.step(&ev);
    }
    parser.step(&XmlEvent::Malformed);
    parser.step(&XmlEvent::Malformed);
    assert_eq!(parser.malformed(), 2);
    assert_eq!(parser.stats().records, 2);
}

#[test]
fn import_idempotent_with_dedup() {
    let events = events_of(MINIMAL_XML, false);
    let (first, _) = parse_export(&events, "imp1");
    let (second, _) = parse_export(&events, "imp2");
    let before = first.records.len() + second.records.len();
    assert_eq!(before, 4);
    let after: HashSet<&String> = first
        .records
        .iter()
        .chain(second.records.iter())
        .map(|r| &r.record_hash)
        .collect();
    assert_eq!(after.len(), 2);
    assert_eq!(first.workouts.len() + second.workouts.len(), 2);
    assert_eq!(first.workouts[0].workout_hash, second.workouts[0].workout_hash);
    assert_eq!(first.metadata.len() + second.metadata.len(), 2);
    assert_eq!(first.activities.len() + second.activities.len(), 2);
}

#[test]
fn streaming_parser_flushes_full_batches() {
    let events = events_of(MINIMAL_XML, false);
    let mut parser = ExportParser::new("run1", 1);
    let mut records = 0;
    let mut workouts = 0;
    for ev in &events {
        assert!(parser.has_room());
        parser.step(ev);
        let ready = parser.take_full();
        assert!(ready.records.len() <= 1);
        records += ready.records.len();
        workouts += ready.workouts.len();
    }
    let rest = parser.finish();
    assert_eq!(records, 2);
    assert_eq!(rest.records.len(), 0);
    assert_eq!(workouts + rest.workouts.len(), 1);
}

#[test]
fn route_map_links_reference_to_workout() {
    let events = events_of(MINIMAL_XML, false);
    let map = resolve_routes(&events);
    let (batches, _) = parse_export(&events, "run1");
    assert_eq!(map.len(), 1);
    assert_eq!(
        map.workout_for_file("route_2024-01-01.gpx"),
        Some(batches.workouts[0].workout_hash.clone())
    );
    assert_eq!(map.workout_for("/workout-routes/other.gpx"), None);
}

#[test]
fn route_map_empty_without_references() {
    let doc = r#"<HealthData><Workout workoutActivityType="Run" sourceName="W"/></HealthData>"#;
    let map = resolve_routes(&events_of(doc, false));
    assert_eq!(map.len(), 0);
}

#[test]
fn route_map_ignores_unclosed_workout() {
    let doc = r#"<HealthData>
 <Workout workoutActivityType="Run" sourceName="W" startDate="2024-01-01 10:00:00 +0000">
  <WorkoutRoute><FileReference path="/workout-routes/a.gpx"/></WorkoutRoute>"#;
    let map = resolve_routes(&events_of(doc, false));
    assert_eq!(map.len(), 0);
    assert_eq!(map.workout_for_file("a.gpx"), None);
}

#[test]
fn import_single_ecg_minimal() {
    let lines = trimmed_lines(MINIMAL_ECG_CSV);
    let reading = parse_ecg_header(&lines, "test_import").unwrap();
    assert_eq!(reading.classification.as_deref(), Some("Sinus Rhythm"));
    assert_eq!(reading.recorded_date, "2024-06-15 10:30:00");
    assert_eq!(reading.device.as_deref(), Some("Apple Watch"));
    assert_eq!(reading.sample_rate.as_deref(), Some("512.000"));
    assert_eq!(reading.symptoms.as_deref(), Some("None"));
    assert_eq!(reading.software_version.as_deref(), Some("2.0"));
    assert_eq!(
        reading.ecg_hash,
        apple_health_mcp::identity::compute_hash(&["2024-06-15 10:30:00", "Apple Watch"])
    );
    let samples = ecg_sample_lines(&lines, &numeric_flags(&lines));
    assert_eq!(samples.len(), 5);
    let voltages: Vec<&str> = samples.iter().map(|&i| lines[i].as_str()).collect();
    assert_eq!(voltages, vec!["100", "200", "-50", "150", "75"]);
}

#[test]
fn import_ecg_missing_date() {
    let csv = "Name,Test\nClassification,Normal\n\n100\n200\n";
    let lines = trimmed_lines(csv);
    let result = parse_ecg_header(&lines, "test");
    assert!(result.is_err());
    let err = match result {
        Err(e) => e,
        Ok(_) => unreachable!(),
    };
    assert_eq!(err, EcgError::MissingRecordedDate);
    assert!(err.message().contains("No recorded date"));
    assert_eq!(err.message(), "No recorded date found in ECG file");
}

#[test]
fn ecg_samples_end_at_first_text_line() {
    let csv = "Recorded Date,2024-06-15 10:30:00 -0700\n\n1.5\n\n2.5\nend\n3.5\n";
    let lines = trimmed_lines(csv);
    let reading = parse_ecg_header(&lines, "t").unwrap();
    assert_eq!(reading.recorded_date, "2024-06-15 10:30:00");
    assert_eq!(reading.device, None);
    let samples = ecg_sample_lines(&lines, &numeric_flags(&lines));
    assert_eq!(samples, vec![2, 4]);
}

#[test]
fn import_single_gpx_minimal() {
    let points = parse_track(&events_of(MINIMAL_GPX, true));
    assert_eq!(points.len(), 2);
    let wh = Some("workout_hash_1".to_string());
    let rows: Vec<_> = points
        .iter()
        .filter_map(|p| route_point_row(p, &wh, &canonical_number(&p.lat), &canonical_number(&p.lon), "test_import"))
        .collect();
    assert_eq!(rows.len(), 2);
    assert_eq!(rows[0].workout_hash.as_deref(), Some("workout_hash_1"));
    assert_eq!(rows[0].timestamp, "2024-01-01 10:00:00");
    assert_eq!(rows[0].elevation.as_deref(), Some("10.5"));
    assert_eq!(
        rows[0].point_hash,
        apple_health_mcp::identity::compute_hash(&["workout_hash_1", "2024-01-01T10:00:00Z", "37.7749", "-122.4194"])
    );
}

#[test]
fn import_gpx_no_workout_hash() {
    let gpx = r#"<?xml version="1.0" encoding="UTF-8"?>
<gpx xmlns="http://www.topografix.com/GPX/1/1" version="1.1">
  <trk><trkseg>
    <trkpt lat="37.0" lon="-122.0">
      <ele>5.0</ele>
      <time>2024-01-01T10:00:00Z</time>
    </trkpt>
  </trkseg></trk>
</gpx>"#;
    let points = parse_track(&events_of(gpx, true));
    assert_eq!(points.len(), 1);
    let p = &points[0];
    let row = route_point_row(p, &None, &canonical_number(&p.lat), &canonical_number(&p.lon), "t").unwrap();
    assert_eq!(row.workout_hash, None);
    assert_eq!(row.latitude, "37");
    assert_eq!(row.point_hash, apple_health_mcp::identity::compute_hash(&["", "2024-01-01T10:00:00Z", "37", "-122"]));
}

#[test]
fn trackpoint_without_coordinates_is_dropped() {
    let gpx = r#"<gpx><trk><trkseg>
    <trkpt lon="-122.0"><time>2024-01-01T10:00:00Z</time></trkpt>
    <trkpt lat="37.0" lon="-122.0"></trkpt>
    <trkpt lat="north" lon="-122.0"><time>2024-01-01T10:00:01Z</time></trkpt>
    <trkpt lat="37.5" lon="-122.5"><time>2024-01-01T10:00:02Z</time></trkpt>
  </trkseg></trk></gpx>"#;
    let points: Vec<TrackPoint> = parse_track(&events_of(gpx, true));
    assert_eq!(points.len(), 2);
    let rows: Vec<_> = points
        .iter()
        .filter_map(|p| route_point_row(p, &None, &canonical_number(&p.lat), &canonical_number(&p.lon), "t"))
        .collect();
    assert_eq!(rows.len(), 1);
    assert_eq!(rows[0].latitude, "37.5");
    assert_eq!(rows[0].workout_hash, None);
}

#[test]
fn route_rows_count_kept_points() {
    let gpx = r#"<gpx><trk><trkseg>
    <trkpt lat="1.5" lon="2.5"><time>2024-01-01T10:00:00Z</time></trkpt>
    <trkpt lat="north" lon="2.5"><time>2024-01-01T10:00:01Z</time></trkpt>
    <trkpt lat="3" lon="4"><time>2024-01-01T10:00:02+01:00</time></trkpt>
  </trkseg></trk></gpx>"#;
    let points = parse_track(&events_of(gpx, true));
    assert_eq!(points.len(), 3);
    let lats: Vec<Option<String>> = points.iter().map(|p| canonical_number(&p.lat)).collect();
    let lons: Vec<Option<String>> = points.iter().map(|p| canonical_number(&p.lon)).collect();
    let rows = route_point_rows(&points, &Some("w".to_string()), &lats, &lons, "run1");
    assert_eq!(rows.len(), 2);
    assert_eq!(rows[0].latitude, "1.5");
    assert_eq!(rows[1].latitude, "3");
    assert_eq!(rows[1].timestamp, "2024-01-01 10:00:02");
}

#[test]
fn end_to_end_scenario() {
    let events = events_of(MINIMAL_XML, false);
    let (batches, _) = parse_export(&events, "run1");
    let map = resolve_routes(&events);
    let lines = trimmed_lines(MINIMAL_ECG_CSV);
    let reading = parse_ecg_header(&lines, "run1");
    let samples = ecg_sample_lines(&lines, &numeric_flags(&lines));
    let owner = map.workout_for_file("route_2024-01-01.gpx");
    let points = parse_track(&events_of(MINIMAL_GPX, true));
    let route: Vec<_> = points
        .iter()
        .filter_map(|p| route_point_row(p, &owner, &canonical_number(&p.lat), &canonical_number(&p.lon), "run1"))
        .collect();
    assert_eq!(batches.records.len(), 2);
    assert_eq!(batches.workouts.len(), 1);
    assert_eq!(batches.events.len(), 1);
    assert_eq!(batches.statistics.len(), 1);
    assert_eq!(batches.activities.len(), 1);
    assert!(reading.is_ok());
    assert_eq!(samples.len(), 5);
    assert_eq!(route.len(), 2);
    for row in &route {
        assert_eq!(row.workout_hash.as_ref(), Some(&batches.workouts[0].workout_hash));
    }
}
