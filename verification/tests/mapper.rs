use fem_monitor::mapper::{
    map_currents, map_if_power, map_record, map_status, map_voltages, read_flag, read_level,
    read_reading, Cause, Field, MapError,
};
use fem_monitor::payloads::{Currents, IfPower, Monitor, Reading, Status, Voltages};
use serde_json::Value;

const FULL: &str = r#"{"board_temp":21.5,"voltages":{"raw_input":5.0,"analog":3.3,"lna_one":3.3,"lna_two":3.3},"currents":{"raw_input":0.5,"analog":0.1,"lna_one":0.2,"lna_two":0.2},"status":{"cal_one":false,"cal_two":false,"attenuation_level":3},"if_power":{"channel_one":-5.0,"channel_two":-5.2}}"#;

fn parse(text: &str) -> Value {
    serde_json::from_str(text).unwrap()
}

fn reading(x: f64) -> Reading {
    Reading::from_bits(x.to_bits())
}

fn full() -> Value {
    parse(FULL)
}

fn without(group: Option<&str>, key: &str) -> Value {
    let mut v = full();
    match group {
        None => v.as_object_mut().unwrap().remove(key),
        Some(g) => v[g].as_object_mut().unwrap().remove(key),
    };
    v
}

fn with(group: Option<&str>, key: &str, value: Value) -> Value {
    let mut v = full();
    match group {
        None => v[key] = value,
        Some(g) => v[g][key] = value,
    };
    v
}

fn err(field: Field, cause: Cause) -> Result<Monitor, MapError> {
    Err(MapError { field, cause })
}

#[test]
fn full_record_is_mapped() {
    let expected = Monitor {
        board_temp: reading(21.5),
        voltages: Voltages {
            raw_input: reading(5.0),
            analog: reading(3.3),
            lna_one: reading(3.3),
            lna_two: reading(3.3),
        },
        currents: Currents {
            raw_input: reading(0.5),
            analog: reading(0.1),
            lna_one: reading(0.2),
            lna_two: reading(0.2),
        },
        status: Status { cal_one: false, cal_two: false, attenuation_level: 3 },
        if_power: IfPower { channel_one: reading(-5.0), channel_two: reading(-5.2) },
    };
    assert_eq!(map_record(&full()), Ok(expected));
}

#[test]
fn readings_keep_their_exact_value() {
    let record = map_record(&full()).unwrap();
    assert_eq!(f64::from_bits(record.board_temp.to_bits()), 21.5);
    assert_eq!(f64::from_bits(record.voltages.analog.to_bits()), 3.3);
    assert_eq!(f64::from_bits(record.if_power.channel_two.to_bits()), -5.2);
}

#[test]
fn integers_count_as_numbers() {
    let v = with(None, "board_temp", Value::from(21));
    assert_eq!(map_record(&v).unwrap().board_temp, reading(21.0));
    let v = with(Some("if_power"), "channel_one", Value::from(-7));
    assert_eq!(map_record(&v).unwrap().if_power.channel_one, reading(-7.0));
}

#[test]
fn unknown_members_are_passed_over() {
    let mut v = with(None, "firmware", Value::from("1.2.3"));
    v["voltages"]["spare"] = Value::from(1.0);
    v["status"]["fan"] = Value::Bool(true);
    assert_eq!(map_record(&v), map_record(&full()));
}

#[test]
fn missing_board_temp_is_reported() {
    assert_eq!(map_record(&without(None, "board_temp")), err(Field::BoardTemp, Cause::Missing));
}

#[test]
fn missing_groups_are_reported() {
    assert_eq!(map_record(&without(None, "voltages")), err(Field::Voltages, Cause::Missing));
    assert_eq!(map_record(&without(None, "currents")), err(Field::Currents, Cause::Missing));
    assert_eq!(map_record(&without(None, "status")), err(Field::Status, Cause::Missing));
    assert_eq!(map_record(&without(None, "if_power")), err(Field::IfPower, Cause::Missing));
}

#[test]
fn missing_members_are_reported() {
    let cases = [
        ("voltages", "raw_input", Field::VoltagesRawInput),
        ("voltages", "analog", Field::VoltagesAnalog),
        ("voltages", "lna_one", Field::VoltagesLnaOne),
        ("voltages", "lna_two", Field::VoltagesLnaTwo),
        ("currents", "raw_input", Field::CurrentsRawInput),
        ("currents", "analog", Field::CurrentsAnalog),
        ("currents", "lna_one", Field::CurrentsLnaOne),
        ("currents", "lna_two", Field::CurrentsLnaTwo),
        ("status", "cal_one", Field::StatusCalOne),
        ("status", "cal_two", Field::StatusCalTwo),
        ("status", "attenuation_level", Field::StatusAttenuationLevel),
        ("if_power", "channel_one", Field::IfPowerChannelOne),
        ("if_power", "channel_two", Field::IfPowerChannelTwo),
    ];
    for (group, key, field) in cases {
        assert_eq!(map_record(&without(Some(group), key)), err(field, Cause::Missing));
    }
}

#[test]
fn ill_typed_numbers_are_reported() {
    let v = with(None, "board_temp", Value::from("21.5"));
    assert_eq!(map_record(&v), err(Field::BoardTemp, Cause::WrongType));
    let v = with(Some("voltages"), "analog", Value::Null);
    assert_eq!(map_record(&v), err(Field::VoltagesAnalog, Cause::WrongType));
    let v = with(Some("currents"), "lna_two", Value::Bool(true));
    assert_eq!(map_record(&v), err(Field::CurrentsLnaTwo, Cause::WrongType));
    let v = with(Some("if_power"), "channel_two", parse("[1.0]"));
    assert_eq!(map_record(&v), err(Field::IfPowerChannelTwo, Cause::WrongType));
}

#[test]
fn ill_typed_switches_are_reported() {
    let v = with(Some("status"), "cal_one", Value::from(0));
    assert_eq!(map_record(&v), err(Field::StatusCalOne, Cause::WrongType));
    let v = with(Some("status"), "cal_two", Value::from("false"));
    assert_eq!(map_record(&v), err(Field::StatusCalTwo, Cause::WrongType));
}

#[test]
fn level_takes_unsigned_integers_of_eight_bits() {
    let v = with(Some("status"), "attenuation_level", Value::from(0));
    assert_eq!(map_record(&v).unwrap().status.attenuation_level, 0);
    let v = with(Some("status"), "attenuation_level", Value::from(255));
    assert_eq!(map_record(&v).unwrap().status.attenuation_level, 255);
    let v = with(Some("status"), "attenuation_level", Value::from(256));
    assert_eq!(map_record(&v), err(Field::StatusAttenuationLevel, Cause::OutOfRange));
    let v = with(Some("status"), "attenuation_level", Value::from(u64::MAX));
    assert_eq!(map_record(&v), err(Field::StatusAttenuationLevel, Cause::OutOfRange));
    let v = with(Some("status"), "attenuation_level", Value::from(-1));
    assert_eq!(map_record(&v), err(Field::StatusAttenuationLevel, Cause::WrongType));
    let v = with(Some("status"), "attenuation_level", Value::from(3.0));
    assert_eq!(map_record(&v), err(Field::StatusAttenuationLevel, Cause::WrongType));
    let v = with(Some("status"), "attenuation_level", Value::from("3"));
    assert_eq!(map_record(&v), err(Field::StatusAttenuationLevel, Cause::WrongType));
}

#[test]
fn groups_must_be_objects() {
    let v = with(None, "voltages", parse("[5.0,3.3,3.3,3.3]"));
    assert_eq!(map_record(&v), err(Field::Voltages, Cause::WrongType));
    let v = with(None, "status", Value::Null);
    assert_eq!(map_record(&v), err(Field::Status, Cause::WrongType));
}

#[test]
fn record_must_be_an_object() {
    for text in ["null", "true", "3", "\"x\"", "[]", "[21.5]"] {
        assert_eq!(map_record(&parse(text)), err(Field::Record, Cause::WrongType));
    }
    assert_eq!(map_record(&parse("{}")), err(Field::BoardTemp, Cause::Missing));
}

#[test]
fn first_fault_in_field_order_is_reported() {
    let mut v = without(Some("if_power"), "channel_one");
    v["currents"]["analog"] = Value::from("x");
    v["status"].as_object_mut().unwrap().remove("cal_two");
    assert_eq!(map_record(&v), err(Field::CurrentsAnalog, Cause::WrongType));
    v["voltages"] = Value::from(1);
    assert_eq!(map_record(&v), err(Field::Voltages, Cause::WrongType));
    v.as_object_mut().unwrap().remove("board_temp");
    assert_eq!(map_record(&v), err(Field::BoardTemp, Cause::Missing));
}

#[test]
fn groups_are_mapped_on_their_own() {
    let v = full();
    assert_eq!(
        map_voltages(&v),
        Ok(Voltages {
            raw_input: reading(5.0),
            analog: reading(3.3),
            lna_one: reading(3.3),
            lna_two: reading(3.3),
        })
    );
    assert_eq!(
        map_currents(&v),
        Ok(Currents {
            raw_input: reading(0.5),
            analog: reading(0.1),
            lna_one: reading(0.2),
            lna_two: reading(0.2),
        })
    );
    assert_eq!(map_status(&v), Ok(Status { cal_one: false, cal_two: false, attenuation_level: 3 }));
    assert_eq!(
        map_if_power(&v),
        Ok(IfPower { channel_one: reading(-5.0), channel_two: reading(-5.2) })
    );
    assert_eq!(
        map_status(&parse(r#"{"status":{"cal_one":true,"cal_two":false}}"#)),
        Err(MapError { field: Field::StatusAttenuationLevel, cause: Cause::Missing })
    );
}

#[test]
fn field_paths() {
    assert_eq!(Field::Record.path(), "");
    assert_eq!(Field::BoardTemp.path(), "board_temp");
    assert_eq!(Field::Voltages.path(), "voltages");
    assert_eq!(Field::VoltagesRawInput.path(), "voltages.raw_input");
    assert_eq!(Field::VoltagesAnalog.path(), "voltages.analog");
    assert_eq!(Field::VoltagesLnaOne.path(), "voltages.lna_one");
    assert_eq!(Field::VoltagesLnaTwo.path(), "voltages.lna_two");
    assert_eq!(Field::Currents.path(), "currents");
    assert_eq!(Field::CurrentsRawInput.path(), "currents.raw_input");
    assert_eq!(Field::CurrentsAnalog.path(), "currents.analog");
    assert_eq!(Field::CurrentsLnaOne.path(), "currents.lna_one");
    assert_eq!(Field::CurrentsLnaTwo.path(), "currents.lna_two");
    assert_eq!(Field::Status.path(), "status");
    assert_eq!(Field::StatusCalOne.path(), "status.cal_one");
    assert_eq!(Field::StatusCalTwo.path(), "status.cal_two");
    assert_eq!(Field::StatusAttenuationLevel.path(), "status.attenuation_level");
    assert_eq!(Field::IfPower.path(), "if_power");
    assert_eq!(Field::IfPowerChannelOne.path(), "if_power.channel_one");
    assert_eq!(Field::IfPowerChannelTwo.path(), "if_power.channel_two");
}

#[test]
fn reading_is_taken_from_the_bits_of_a_number() {
    let field = Field::VoltagesAnalog;
    assert_eq!(read_reading(Some(3.3f64.to_bits()), field), Ok(reading(3.3)));
    assert_eq!(read_reading(Some(0), field), Ok(reading(0.0)));
    assert_eq!(read_reading(None, field), Err(MapError { field, cause: Cause::WrongType }));
}

#[test]
fn switch_is_taken_from_a_boolean() {
    let field = Field::StatusCalTwo;
    assert_eq!(read_flag(Some(true), field), Ok(true));
    assert_eq!(read_flag(Some(false), field), Ok(false));
    assert_eq!(read_flag(None, field), Err(MapError { field, cause: Cause::WrongType }));
}

#[test]
fn level_is_taken_from_an_unsigned_integer_of_eight_bits() {
    let field = Field::StatusAttenuationLevel;
    assert_eq!(read_level(Some(0), field), Ok(0));
    assert_eq!(read_level(Some(3), field), Ok(3));
    assert_eq!(read_level(Some(255), field), Ok(255));
    assert_eq!(read_level(Some(256), field), Err(MapError { field, cause: Cause::OutOfRange }));
    assert_eq!(
        read_level(Some(u64::MAX), field),
        Err(MapError { field, cause: Cause::OutOfRange })
    );
    assert_eq!(read_level(None, field), Err(MapError { field, cause: Cause::WrongType }));
}
