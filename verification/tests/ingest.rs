use fem_monitor::ingest::{ingest_frame, Action, Event, Ingestion, LoopState};
use fem_monitor::mapper::{Cause, Field, MapError};
use fem_monitor::metrics::{Channel, MetricKey, MetricSample, MetricsStore, Rail};
use fem_monitor::payloads::Reading;
use serde_json::Value;

const FRAME: &[u8] = br#"{"board_temp":21.5,"voltages":{"raw_input":5.0,"analog":3.3,"lna_one":3.3,"lna_two":3.3},"currents":{"raw_input":0.5,"analog":0.1,"lna_one":0.2,"lna_two":0.2},"status":{"cal_one":false,"cal_two":false,"attenuation_level":3},"if_power":{"channel_one":-5.0,"channel_two":-5.2}}"#;

const NO_BOARD_TEMP: &[u8] = br#"{"voltages":{"raw_input":6.0,"analog":4.3,"lna_one":4.3,"lna_two":4.3},"currents":{"raw_input":1.5,"analog":1.1,"lna_one":1.2,"lna_two":1.2},"status":{"cal_one":true,"cal_two":true,"attenuation_level":4},"if_power":{"channel_one":-6.0,"channel_two":-6.2}}"#;

const SECOND: &[u8] = br#"{"board_temp":22,"voltages":{"raw_input":5.1,"analog":3.2,"lna_one":3.1,"lna_two":3.0},"currents":{"raw_input":0.6,"analog":0.2,"lna_one":0.3,"lna_two":0.4},"status":{"cal_one":true,"cal_two":false,"attenuation_level":0},"if_power":{"channel_one":-4.0,"channel_two":-4.2}}"#;

fn value_of(store: &MetricsStore, key: MetricKey) -> Option<f64> {
    store.value(key).map(|r| f64::from_bits(r.to_bits()))
}

fn values(store: &MetricsStore) -> Vec<(MetricKey, f64)> {
    store.snapshot().iter().map(|s| (s.key, f64::from_bits(s.value.to_bits()))).collect()
}

#[test]
fn new_loop_is_running() {
    let l = Ingestion::new();
    assert_eq!(l.state(), LoopState::Running);
    assert_eq!(l.accepted(), 0);
    assert_eq!(l.rejected(), 0);
    assert_eq!(l.faults(), 0);
    assert_eq!(l.buffered(), 0);
    assert_eq!(l.last_rejection(), None);
}

#[test]
fn scrape_before_any_telemetry_is_empty() {
    let store = MetricsStore::new();
    assert_eq!(store.snapshot(), Vec::<MetricSample>::new());
    assert!(store.is_empty());
}

#[test]
fn end_to_end() {
    let mut l = Ingestion::new();
    let mut store = MetricsStore::new();
    assert_eq!(l.on_bytes(FRAME, &mut store), Action::ReadMore);
    assert_eq!(l.accepted(), 1);
    assert_eq!(l.rejected(), 0);
    assert_eq!(l.faults(), 0);
    assert_eq!(l.buffered(), 0);
    assert_eq!(value_of(&store, MetricKey::BoardTemp), Some(21.5));
    assert_eq!(value_of(&store, MetricKey::IfPower(Channel::One)), Some(-5.0));
    assert_eq!(value_of(&store, MetricKey::IfPower(Channel::Two)), Some(-5.2));
    assert_eq!(value_of(&store, MetricKey::Voltage(Rail::Input)), Some(5.0));
    assert_eq!(value_of(&store, MetricKey::Voltage(Rail::Analog)), Some(3.3));
    assert_eq!(value_of(&store, MetricKey::Voltage(Rail::LnaOne)), Some(3.3));
    assert_eq!(value_of(&store, MetricKey::Voltage(Rail::LnaTwo)), Some(3.3));
    assert_eq!(value_of(&store, MetricKey::Current(Rail::Input)), Some(0.5));
    assert_eq!(value_of(&store, MetricKey::Current(Rail::Analog)), Some(0.1));
    assert_eq!(value_of(&store, MetricKey::Current(Rail::LnaOne)), Some(0.2));
    assert_eq!(value_of(&store, MetricKey::Current(Rail::LnaTwo)), Some(0.2));
    assert_eq!(store.snapshot().len(), 11);
    assert_eq!(store.writes(), 11);
}

#[test]
fn record_without_board_temp_changes_nothing() {
    let mut l = Ingestion::new();
    let mut store = MetricsStore::new();
    l.on_bytes(FRAME, &mut store);
    let before = store.snapshot();
    assert_eq!(l.on_bytes(NO_BOARD_TEMP, &mut store), Action::ReadMore);
    assert_eq!(store.snapshot(), before);
    assert_eq!(store.writes(), 11);
    assert_eq!(l.accepted(), 1);
    assert_eq!(l.rejected(), 1);
    assert_eq!(l.faults(), 0);
    assert_eq!(
        l.last_rejection(),
        Some(MapError { field: Field::BoardTemp, cause: Cause::Missing })
    );
}

#[test]
fn last_rejection_is_that_of_the_last_frame_turned_away() {
    let mut l = Ingestion::new();
    let mut store = MetricsStore::new();
    l.on_bytes(b"[1] ", &mut store);
    assert_eq!(
        l.last_rejection(),
        Some(MapError { field: Field::Record, cause: Cause::WrongType })
    );
    let mut stream = NO_BOARD_TEMP.to_vec();
    stream.extend_from_slice(br#"{"board_temp":"hot"}"#);
    stream.extend_from_slice(FRAME);
    l.on_bytes(&stream, &mut store);
    assert_eq!(
        l.last_rejection(),
        Some(MapError { field: Field::BoardTemp, cause: Cause::WrongType })
    );
    assert_eq!(l.rejected(), 3);
    assert_eq!(l.accepted(), 1);
    l.on_bytes(SECOND, &mut store);
    assert_eq!(
        l.last_rejection(),
        Some(MapError { field: Field::BoardTemp, cause: Cause::WrongType })
    );
}

#[test]
fn record_without_board_temp_publishes_nothing_to_an_empty_store() {
    let mut l = Ingestion::new();
    let mut store = MetricsStore::new();
    l.on_bytes(NO_BOARD_TEMP, &mut store);
    assert!(store.is_empty());
    assert_eq!(l.rejected(), 1);
}

#[test]
fn later_record_overwrites_earlier() {
    let mut l = Ingestion::new();
    let mut store = MetricsStore::new();
    let mut stream = FRAME.to_vec();
    stream.extend_from_slice(b"\n");
    stream.extend_from_slice(SECOND);
    l.on_bytes(&stream, &mut store);
    assert_eq!(l.accepted(), 2);
    assert_eq!(
        values(&store),
        vec![
            (MetricKey::BoardTemp, 22.0),
            (MetricKey::IfPower(Channel::One), -4.0),
            (MetricKey::IfPower(Channel::Two), -4.2),
            (MetricKey::Voltage(Rail::Input), 5.1),
            (MetricKey::Voltage(Rail::Analog), 3.2),
            (MetricKey::Voltage(Rail::LnaOne), 3.1),
            (MetricKey::Voltage(Rail::LnaTwo), 3.0),
            (MetricKey::Current(Rail::Input), 0.6),
            (MetricKey::Current(Rail::Analog), 0.2),
            (MetricKey::Current(Rail::LnaOne), 0.3),
            (MetricKey::Current(Rail::LnaTwo), 0.4),
        ]
    );
    assert_eq!(store.get(MetricKey::BoardTemp).unwrap().updated_at, 12);
    assert_eq!(store.writes(), 22);
}

#[test]
fn chunking_does_not_show_in_the_store() {
    let mut stream = FRAME.to_vec();
    stream.extend_from_slice(b" garbage ");
    stream.extend_from_slice(NO_BOARD_TEMP);
    stream.extend_from_slice(b"[1,2] 7 ");
    stream.extend_from_slice(SECOND);
    stream.extend_from_slice(br#"{"board_te"#);

    let mut whole = Ingestion::new();
    let mut whole_store = MetricsStore::new();
    whole.on_bytes(&stream, &mut whole_store);
    assert_eq!(whole.accepted(), 2);
    assert_eq!(whole.rejected(), 3);
    assert_eq!(whole.buffered(), 10);

    for size in [1usize, 2, 3, 7, 64, 300] {
        let mut l = Ingestion::new();
        let mut store = MetricsStore::new();
        for chunk in stream.chunks(size) {
            assert_eq!(l.on_bytes(chunk, &mut store), Action::ReadMore);
        }
        assert_eq!(store.snapshot(), whole_store.snapshot());
        assert_eq!(store.writes(), whole_store.writes());
        assert_eq!(l.accepted(), whole.accepted());
        assert_eq!(l.rejected(), whole.rejected());
        assert_eq!(l.faults(), whole.faults());
        assert_eq!(l.buffered(), whole.buffered());
    }
}

#[test]
fn malformed_fragment_between_two_records() {
    let mut stream = FRAME.to_vec();
    stream.extend_from_slice(b"}}#!");
    stream.extend_from_slice(SECOND);
    let mut l = Ingestion::new();
    let mut store = MetricsStore::new();
    l.on_bytes(&stream, &mut store);
    assert_eq!(l.accepted(), 2);
    assert_eq!(l.rejected(), 0);
    assert_eq!(l.faults(), 4);
    assert_eq!(value_of(&store, MetricKey::BoardTemp), Some(22.0));
}

#[test]
fn closed_source_stops_the_loop() {
    let mut l = Ingestion::new();
    let mut store = MetricsStore::new();
    l.on_bytes(FRAME, &mut store);
    assert_eq!(l.on_closed(), Action::Stop);
    assert_eq!(l.state(), LoopState::Stopped);
    let before = store.snapshot();
    assert_eq!(l.on_bytes(SECOND, &mut store), Action::Stop);
    assert_eq!(store.snapshot(), before);
    assert_eq!(l.accepted(), 1);
    assert_eq!(l.buffered(), 0);
    assert_eq!(l.on_closed(), Action::Stop);
    assert_eq!(l.state(), LoopState::Stopped);
}

#[test]
fn step_follows_the_events() {
    let mut l = Ingestion::new();
    let mut store = MetricsStore::new();
    assert_eq!(l.step(Event::Bytes(&FRAME[..40]), &mut store), Action::ReadMore);
    assert!(store.is_empty());
    assert_eq!(l.buffered(), 40);
    assert_eq!(l.step(Event::Bytes(&FRAME[40..]), &mut store), Action::ReadMore);
    assert_eq!(value_of(&store, MetricKey::BoardTemp), Some(21.5));
    assert_eq!(l.step(Event::Closed, &mut store), Action::Stop);
    assert_eq!(l.state(), LoopState::Stopped);
    assert_eq!(l.step(Event::Bytes(SECOND), &mut store), Action::Stop);
    assert_eq!(value_of(&store, MetricKey::BoardTemp), Some(21.5));
}

#[test]
fn ingest_frame_reports_the_cause() {
    let mut store = MetricsStore::new();
    let frame: Value = serde_json::from_slice(NO_BOARD_TEMP).unwrap();
    assert_eq!(
        ingest_frame(&mut store, &frame),
        Err(MapError { field: Field::BoardTemp, cause: Cause::Missing })
    );
    assert!(store.is_empty());
    let frame: Value = serde_json::from_slice(FRAME).unwrap();
    let record = ingest_frame(&mut store, &frame).unwrap();
    assert_eq!(record.board_temp, Reading::from_bits(21.5f64.to_bits()));
    assert_eq!(record.status.attenuation_level, 3);
    assert_eq!(store.snapshot().len(), 11);
}

#[test]
fn rejections_list_every_frame_refused_by_the_latest_bytes() {
    let mut l = Ingestion::new();
    let mut store = MetricsStore::new();
    assert_eq!(l.rejections(), &[]);
    let mut stream = NO_BOARD_TEMP.to_vec();
    stream.extend_from_slice(FRAME);
    stream.extend_from_slice(b"[1] ");
    stream.extend_from_slice(br#"{"board_temp":"hot"}"#);
    l.on_bytes(&stream, &mut store);
    assert_eq!(
        l.rejections(),
        &[
            MapError { field: Field::BoardTemp, cause: Cause::Missing },
            MapError { field: Field::Record, cause: Cause::WrongType },
            MapError { field: Field::BoardTemp, cause: Cause::WrongType },
        ]
    );
    assert_eq!(l.rejected(), 3);
    assert_eq!(l.on_closed(), Action::Stop);
    assert_eq!(l.rejections().len(), 3);
    assert_eq!(l.on_bytes(NO_BOARD_TEMP, &mut store), Action::Stop);
    assert_eq!(l.rejections().len(), 3);
}

#[test]
fn rejections_are_replaced_by_the_next_bytes() {
    let mut l = Ingestion::new();
    let mut store = MetricsStore::new();
    l.on_bytes(NO_BOARD_TEMP, &mut store);
    assert_eq!(l.rejections(), &[MapError { field: Field::BoardTemp, cause: Cause::Missing }]);
    l.on_bytes(&FRAME[..20], &mut store);
    assert_eq!(l.rejections(), &[]);
    l.on_bytes(&FRAME[20..], &mut store);
    assert_eq!(l.rejections(), &[]);
    assert_eq!(
        l.last_rejection(),
        Some(MapError { field: Field::BoardTemp, cause: Cause::Missing })
    );
    assert_eq!(l.accepted(), 1);
    assert_eq!(l.rejected(), 1);
}

#[test]
fn cut_record_in_front_of_a_record_costs_nothing() {
    let mut stream = FRAME.to_vec();
    stream.extend_from_slice(&NO_BOARD_TEMP[..NO_BOARD_TEMP.len() - 1]);
    stream.extend_from_slice(SECOND);
    let mut l = Ingestion::new();
    let mut store = MetricsStore::new();
    l.on_bytes(&stream, &mut store);
    assert_eq!(l.accepted(), 2);
    assert_eq!(l.rejected(), 0);
    assert_eq!(l.faults(), 1);
    assert_eq!(l.buffered(), 0);
    assert_eq!(value_of(&store, MetricKey::BoardTemp), Some(22.0));
    assert_eq!(value_of(&store, MetricKey::Current(Rail::LnaTwo)), Some(0.4));
    assert_eq!(store.writes(), 22);
}
