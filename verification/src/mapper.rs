//! The telemetry mapper: from one decoded JSON value to one telemetry record,
//! or to the reason why the value is none.
//!
//! A record is read from a JSON object. Every field of the record must be
//! there, under its name and with its type; members that the record does not
//! know are passed over. The fields are looked at in a fixed order: the board
//! temperature, then the voltages, the currents, the status and the output
//! powers, each group before its members. The first field that is missing or
//! ill-typed is the one reported, and no record comes out.

use vstd::prelude::*;
use crate::json::{
    json_bool, json_is_object, json_member, json_number, json_unsigned, member, number_bits,
};
use crate::payloads::{Currents, IfPower, Monitor, Reading, Status, Voltages};

verus! {

/// A place in the JSON form of a telemetry record.
#[derive(Clone, Copy, Debug, PartialEq, Eq, Structural)]
pub enum Field {
    /// The value as a whole.
    Record,
    BoardTemp,
    Voltages,
    VoltagesRawInput,
    VoltagesAnalog,
    VoltagesLnaOne,
    VoltagesLnaTwo,
    Currents,
    CurrentsRawInput,
    CurrentsAnalog,
    CurrentsLnaOne,
    CurrentsLnaTwo,
    Status,
    StatusCalOne,
    StatusCalTwo,
    StatusAttenuationLevel,
    IfPower,
    IfPowerChannelOne,
    IfPowerChannelTwo,
}

/// What is wrong at a place.
#[derive(Clone, Copy, Debug, PartialEq, Eq, Structural)]
pub enum Cause {
    /// The object that should hold the field has no member of that name.
    Missing,
    /// The value there is not of the kind that the field takes.
    WrongType,
    /// The value there is an unsigned integer too large for the field.
    OutOfRange,
}

/// Why a JSON value is no telemetry record.
#[derive(Clone, Copy, Debug, PartialEq, Eq, Structural)]
pub struct MapError {
    pub field: Field,
    pub cause: Cause,
}

/// The name of a place, with a dot between a group and its member.
pub open spec fn field_path(f: Field) -> Seq<char> {
    match f {
        Field::Record => ""@,
        Field::BoardTemp => "board_temp"@,
        Field::Voltages => "voltages"@,
        Field::VoltagesRawInput => "voltages.raw_input"@,
        Field::VoltagesAnalog => "voltages.analog"@,
        Field::VoltagesLnaOne => "voltages.lna_one"@,
        Field::VoltagesLnaTwo => "voltages.lna_two"@,
        Field::Currents => "currents"@,
        Field::CurrentsRawInput => "currents.raw_input"@,
        Field::CurrentsAnalog => "currents.analog"@,
        Field::CurrentsLnaOne => "currents.lna_one"@,
        Field::CurrentsLnaTwo => "currents.lna_two"@,
        Field::Status => "status"@,
        Field::StatusCalOne => "status.cal_one"@,
        Field::StatusCalTwo => "status.cal_two"@,
        Field::StatusAttenuationLevel => "status.attenuation_level"@,
        Field::IfPower => "if_power"@,
        Field::IfPowerChannelOne => "if_power.channel_one"@,
        Field::IfPowerChannelTwo => "if_power.channel_two"@,
    }
}

impl Field {
    /// The name of the place, with a dot between a group and its member; the
    /// empty string for the value as a whole.
    pub fn path(&self) -> (s: &'static str)
        ensures
            s@ == field_path(*self),
    {
        match self {
            Field::Record => "",
            Field::BoardTemp => "board_temp",
            Field::Voltages => "voltages",
            Field::VoltagesRawInput => "voltages.raw_input",
            Field::VoltagesAnalog => "voltages.analog",
            Field::VoltagesLnaOne => "voltages.lna_one",
            Field::VoltagesLnaTwo => "voltages.lna_two",
            Field::Currents => "currents",
            Field::CurrentsRawInput => "currents.raw_input",
            Field::CurrentsAnalog => "currents.analog",
            Field::CurrentsLnaOne => "currents.lna_one",
            Field::CurrentsLnaTwo => "currents.lna_two",
            Field::Status => "status",
            Field::StatusCalOne => "status.cal_one",
            Field::StatusCalTwo => "status.cal_two",
            Field::StatusAttenuationLevel => "status.attenuation_level",
            Field::IfPower => "if_power",
            Field::IfPowerChannelOne => "if_power.channel_one",
            Field::IfPowerChannelTwo => "if_power.channel_two",
        }
    }
}

/// The failure to find `field`.
pub open spec fn missing(field: Field) -> MapError {
    MapError { field, cause: Cause::Missing }
}

/// The failure to read `field` from a value of another kind.
pub open spec fn wrong_type(field: Field) -> MapError {
    MapError { field, cause: Cause::WrongType }
}

/// The group of fields under `key` in `parent`: a member that is an object.
pub open spec fn group_at(parent: serde_json::Value, key: Seq<char>, field: Field) -> Result<
    serde_json::Value,
    MapError,
> {
    match json_member(parent, key) {
        None => Err(missing(field)),
        Some(x) => if json_is_object(x) {
            Ok(x)
        } else {
            Err(wrong_type(field))
        },
    }
}

/// The reading that a field takes from what was found in its place: the bits
/// of a number, or nothing where the value there is no number.
pub open spec fn reading_from(found: Option<u64>, field: Field) -> Result<Reading, MapError> {
    match found {
        Some(bits) => Ok(Reading { bits }),
        None => Err(wrong_type(field)),
    }
}

/// The switch that a field takes from what was found in its place: a
/// boolean, or nothing where the value there is none.
pub open spec fn flag_from(found: Option<bool>, field: Field) -> Result<bool, MapError> {
    match found {
        Some(b) => Ok(b),
        None => Err(wrong_type(field)),
    }
}

/// The level that a field takes from what was found in its place: an
/// unsigned integer, which has to fit in eight bits, or nothing where the
/// value there is no unsigned integer.
pub open spec fn level_from(found: Option<u64>, field: Field) -> Result<u8, MapError> {
    match found {
        Some(n) => if n <= u8::MAX {
            Ok(n as u8)
        } else {
            Err(MapError { field, cause: Cause::OutOfRange })
        },
        None => Err(wrong_type(field)),
    }
}

/// The reading under `key` in `parent`: a member that is a number, integer
/// or not.
pub open spec fn number_at(parent: serde_json::Value, key: Seq<char>, field: Field) -> Result<
    Reading,
    MapError,
> {
    match json_member(parent, key) {
        None => Err(missing(field)),
        Some(x) => reading_from(json_number(x), field),
    }
}

/// The switch under `key` in `parent`: a member that is `true` or `false`.
pub open spec fn flag_at(parent: serde_json::Value, key: Seq<char>, field: Field) -> Result<
    bool,
    MapError,
> {
    match json_member(parent, key) {
        None => Err(missing(field)),
        Some(x) => flag_from(json_bool(x), field),
    }
}

/// The level under `key` in `parent`: a member that is an unsigned integer
/// of at most eight bits.
pub open spec fn level_at(parent: serde_json::Value, key: Seq<char>, field: Field) -> Result<
    u8,
    MapError,
> {
    match json_member(parent, key) {
        None => Err(missing(field)),
        Some(x) => level_from(json_unsigned(x), field),
    }
}

/// The voltages that the object `root` holds.
pub open spec fn voltages_of(root: serde_json::Value) -> Result<Voltages, MapError> {
    match group_at(root, "voltages"@, Field::Voltages) {
        Err(e) => Err(e),
        Ok(g) => match number_at(g, "raw_input"@, Field::VoltagesRawInput) {
            Err(e) => Err(e),
            Ok(raw_input) => match number_at(g, "analog"@, Field::VoltagesAnalog) {
                Err(e) => Err(e),
                Ok(analog) => match number_at(g, "lna_one"@, Field::VoltagesLnaOne) {
                    Err(e) => Err(e),
                    Ok(lna_one) => match number_at(g, "lna_two"@, Field::VoltagesLnaTwo) {
                        Err(e) => Err(e),
                        Ok(lna_two) => Ok(Voltages { raw_input, analog, lna_one, lna_two }),
                    },
                },
            },
        },
    }
}

/// The currents that the object `root` holds.
pub open spec fn currents_of(root: serde_json::Value) -> Result<Currents, MapError> {
    match group_at(root, "currents"@, Field::Currents) {
        Err(e) => Err(e),
        Ok(g) => match number_at(g, "raw_input"@, Field::CurrentsRawInput) {
            Err(e) => Err(e),
            Ok(raw_input) => match number_at(g, "analog"@, Field::CurrentsAnalog) {
                Err(e) => Err(e),
                Ok(analog) => match number_at(g, "lna_one"@, Field::CurrentsLnaOne) {
                    Err(e) => Err(e),
                    Ok(lna_one) => match number_at(g, "lna_two"@, Field::CurrentsLnaTwo) {
                        Err(e) => Err(e),
                        Ok(lna_two) => Ok(Currents { raw_input, analog, lna_one, lna_two }),
                    },
                },
            },
        },
    }
}

/// The status that the object `root` holds.
pub open spec fn status_of(root: serde_json::Value) -> Result<Status, MapError> {
    match group_at(root, "status"@, Field::Status) {
        Err(e) => Err(e),
        Ok(g) => match flag_at(g, "cal_one"@, Field::StatusCalOne) {
            Err(e) => Err(e),
            Ok(cal_one) => match flag_at(g, "cal_two"@, Field::StatusCalTwo) {
                Err(e) => Err(e),
                Ok(cal_two) => match level_at(
                    g,
                    "attenuation_level"@,
                    Field::StatusAttenuationLevel,
                ) {
                    Err(e) => Err(e),
                    Ok(attenuation_level) => Ok(Status { cal_one, cal_two, attenuation_level }),
                },
            },
        },
    }
}

/// The output powers that the object `root` holds.
pub open spec fn if_power_of(root: serde_json::Value) -> Result<IfPower, MapError> {
    match group_at(root, "if_power"@, Field::IfPower) {
        Err(e) => Err(e),
        Ok(g) => match number_at(g, "channel_one"@, Field::IfPowerChannelOne) {
            Err(e) => Err(e),
            Ok(channel_one) => match number_at(g, "channel_two"@, Field::IfPowerChannelTwo) {
                Err(e) => Err(e),
                Ok(channel_two) => Ok(IfPower { channel_one, channel_two }),
            },
        },
    }
}

/// The telemetry record that the JSON value `v` stands for, or the first
/// thing that keeps it from being one.
pub open spec fn record_of(v: serde_json::Value) -> Result<Monitor, MapError> {
    if !json_is_object(v) {
        Err(wrong_type(Field::Record))
    } else {
        match number_at(v, "board_temp"@, Field::BoardTemp) {
            Err(e) => Err(e),
            Ok(board_temp) => match voltages_of(v) {
                Err(e) => Err(e),
                Ok(voltages) => match currents_of(v) {
                    Err(e) => Err(e),
                    Ok(currents) => match status_of(v) {
                        Err(e) => Err(e),
                        Ok(status) => match if_power_of(v) {
                            Err(e) => Err(e),
                            Ok(if_power) => Ok(
                                Monitor { board_temp, voltages, currents, status, if_power },
                            ),
                        },
                    },
                },
            },
        }
    }
}

/// Whether `parent` holds a group of fields under `key`.
pub open spec fn holds_group(parent: serde_json::Value, key: Seq<char>) -> bool {
    json_member(parent, key) matches Some(x) && json_is_object(x)
}

/// Whether `parent` holds a number under `key`.
pub open spec fn holds_number(parent: serde_json::Value, key: Seq<char>) -> bool {
    json_member(parent, key) matches Some(x) && json_number(x) is Some
}

/// Whether `parent` holds `true` or `false` under `key`.
pub open spec fn holds_flag(parent: serde_json::Value, key: Seq<char>) -> bool {
    json_member(parent, key) matches Some(x) && json_bool(x) is Some
}

/// Whether `parent` holds an unsigned integer of at most eight bits under
/// `key`.
pub open spec fn holds_level(parent: serde_json::Value, key: Seq<char>) -> bool {
    json_member(parent, key) matches Some(x) && json_unsigned(x) matches Some(n) && n <= u8::MAX
}

/// Whether `v` is an object that holds every field of a telemetry record
/// under its name and with its type.
pub open spec fn complete(v: serde_json::Value) -> bool {
    &&& json_is_object(v)
    &&& holds_number(v, "board_temp"@)
    &&& holds_group(v, "voltages"@)
    &&& holds_number(json_member(v, "voltages"@)->0, "raw_input"@)
    &&& holds_number(json_member(v, "voltages"@)->0, "analog"@)
    &&& holds_number(json_member(v, "voltages"@)->0, "lna_one"@)
    &&& holds_number(json_member(v, "voltages"@)->0, "lna_two"@)
    &&& holds_group(v, "currents"@)
    &&& holds_number(json_member(v, "currents"@)->0, "raw_input"@)
    &&& holds_number(json_member(v, "currents"@)->0, "analog"@)
    &&& holds_number(json_member(v, "currents"@)->0, "lna_one"@)
    &&& holds_number(json_member(v, "currents"@)->0, "lna_two"@)
    &&& holds_group(v, "status"@)
    &&& holds_flag(json_member(v, "status"@)->0, "cal_one"@)
    &&& holds_flag(json_member(v, "status"@)->0, "cal_two"@)
    &&& holds_level(json_member(v, "status"@)->0, "attenuation_level"@)
    &&& holds_group(v, "if_power"@)
    &&& holds_number(json_member(v, "if_power"@)->0, "channel_one"@)
    &&& holds_number(json_member(v, "if_power"@)->0, "channel_two"@)
}

/// A JSON value stands for a telemetry record exactly when it is complete:
/// one field that is missing or ill-typed, and there is no record at all.
pub proof fn lemma_record_iff_complete(v: serde_json::Value)
    ensures
        record_of(v) is Ok <==> complete(v),
{
}

/// Reads the group of fields under `key` in `parent`.
fn group_member<'a>(parent: &'a serde_json::Value, key: &str, field: Field) -> (r: Result<
    &'a serde_json::Value,
    MapError,
>)
    ensures
        match r {
            Ok(g) => group_at(*parent, key@, field) == Ok::<serde_json::Value, MapError>(*g),
            Err(e) => group_at(*parent, key@, field) == Err::<serde_json::Value, MapError>(e),
        },
{
    match member(parent, key) {
        None => Err(MapError { field, cause: Cause::Missing }),
        Some(x) => if x.is_object() {
            Ok(x)
        } else {
            Err(MapError { field, cause: Cause::WrongType })
        },
    }
}

/// Takes a reading from what was found in the place of `field`.
pub fn read_reading(found: Option<u64>, field: Field) -> (r: Result<Reading, MapError>)
    ensures
        r == reading_from(found, field),
{
    match found {
        Some(bits) => Ok(Reading { bits }),
        None => Err(MapError { field, cause: Cause::WrongType }),
    }
}

/// Takes a switch from what was found in the place of `field`.
pub fn read_flag(found: Option<bool>, field: Field) -> (r: Result<bool, MapError>)
    ensures
        r == flag_from(found, field),
{
    match found {
        Some(b) => Ok(b),
        None => Err(MapError { field, cause: Cause::WrongType }),
    }
}

/// Takes a level from what was found in the place of `field`.
pub fn read_level(found: Option<u64>, field: Field) -> (r: Result<u8, MapError>)
    ensures
        r == level_from(found, field),
{
    match found {
        Some(n) => if n <= 255 {
            Ok(n as u8)
        } else {
            Err(MapError { field, cause: Cause::OutOfRange })
        },
        None => Err(MapError { field, cause: Cause::WrongType }),
    }
}

/// Reads the reading under `key` in `parent`.
fn number_member(parent: &serde_json::Value, key: &str, field: Field) -> (r: Result<
    Reading,
    MapError,
>)
    ensures
        r == number_at(*parent, key@, field),
{
    match member(parent, key) {
        None => Err(MapError { field, cause: Cause::Missing }),
        Some(x) => read_reading(number_bits(x), field),
    }
}

/// Reads the switch under `key` in `parent`.
fn flag_member(parent: &serde_json::Value, key: &str, field: Field) -> (r: Result<bool, MapError>)
    ensures
        r == flag_at(*parent, key@, field),
{
    match member(parent, key) {
        None => Err(MapError { field, cause: Cause::Missing }),
        Some(x) => read_flag(x.as_bool(), field),
    }
}

/// Reads the level under `key` in `parent`.
fn level_member(parent: &serde_json::Value, key: &str, field: Field) -> (r: Result<u8, MapError>)
    ensures
        r == level_at(*parent, key@, field),
{
    match member(parent, key) {
        None => Err(MapError { field, cause: Cause::Missing }),
        Some(x) => read_level(x.as_u64(), field),
    }
}

/// Reads the voltages from the object `root`.
pub fn map_voltages(root: &serde_json::Value) -> (r: Result<Voltages, MapError>)
    ensures
        r == voltages_of(*root),
{
    let g = match group_member(root, "voltages", Field::Voltages) {
        Ok(g) => g,
        Err(e) => { return Err(e); },
    };
    let raw_input = match number_member(g, "raw_input", Field::VoltagesRawInput) {
        Ok(x) => x,
        Err(e) => { return Err(e); },
    };
    let analog = match number_member(g, "analog", Field::VoltagesAnalog) {
        Ok(x) => x,
        Err(e) => { return Err(e); },
    };
    let lna_one = match number_member(g, "lna_one", Field::VoltagesLnaOne) {
        Ok(x) => x,
        Err(e) => { return Err(e); },
    };
    let lna_two = match number_member(g, "lna_two", Field::VoltagesLnaTwo) {
        Ok(x) => x,
        Err(e) => { return Err(e); },
    };
    Ok(Voltages { raw_input, analog, lna_one, lna_two })
}

/// Reads the currents from the object `root`.
pub fn map_currents(root: &serde_json::Value) -> (r: Result<Currents, MapError>)
    ensures
        r == currents_of(*root),
{
    let g = match group_member(root, "currents", Field::Currents) {
        Ok(g) => g,
        Err(e) => { return Err(e); },
    };
    let raw_input = match number_member(g, "raw_input", Field::CurrentsRawInput) {
        Ok(x) => x,
        Err(e) => { return Err(e); },
    };
    let analog = match number_member(g, "analog", Field::CurrentsAnalog) {
        Ok(x) => x,
        Err(e) => { return Err(e); },
    };
    let lna_one = match number_member(g, "lna_one", Field::CurrentsLnaOne) {
        Ok(x) => x,
        Err(e) => { return Err(e); },
    };
    let lna_two = match number_member(g, "lna_two", Field::CurrentsLnaTwo) {
        Ok(x) => x,
        Err(e) => { return Err(e); },
    };
    Ok(Currents { raw_input, analog, lna_one, lna_two })
}

/// Reads the status from the object `root`.
pub fn map_status(root: &serde_json::Value) -> (r: Result<Status, MapError>)
    ensures
        r == status_of(*root),
{
    let g = match group_member(root, "status", Field::Status) {
        Ok(g) => g,
        Err(e) => { return Err(e); },
    };
    let cal_one = match flag_member(g, "cal_one", Field::StatusCalOne) {
        Ok(x) => x,
        Err(e) => { return Err(e); },
    };
    let cal_two = match flag_member(g, "cal_two", Field::StatusCalTwo) {
        Ok(x) => x,
        Err(e) => { return Err(e); },
    };
    let attenuation_level = match level_member(
        g,
        "attenuation_level",
        Field::StatusAttenuationLevel,
    ) {
        Ok(x) => x,
        Err(e) => { return Err(e); },
    };
    Ok(Status { cal_one, cal_two, attenuation_level })
}

/// Reads the output powers from the object `root`.
pub fn map_if_power(root: &serde_json::Value) -> (r: Result<IfPower, MapError>)
    ensures
        r == if_power_of(*root),
{
    let g = match group_member(root, "if_power", Field::IfPower) {
        Ok(g) => g,
        Err(e) => { return Err(e); },
    };
    let channel_one = match number_member(g, "channel_one", Field::IfPowerChannelOne) {
        Ok(x) => x,
        Err(e) => { return Err(e); },
    };
    let channel_two = match number_member(g, "channel_two", Field::IfPowerChannelTwo) {
        Ok(x) => x,
        Err(e) => { return Err(e); },
    };
    Ok(IfPower { channel_one, channel_two })
}

/// Reads a telemetry record from the JSON value `v`, or says why `v` is
/// none.
pub fn map_record(v: &serde_json::Value) -> (r: Result<Monitor, MapError>)
    ensures
        r == record_of(*v),
{
    if !v.is_object() {
        return Err(MapError { field: Field::Record, cause: Cause::WrongType });
    }
    let board_temp = match number_member(v, "board_temp", Field::BoardTemp) {
        Ok(x) => x,
        Err(e) => { return Err(e); },
    };
    let voltages = match map_voltages(v) {
        Ok(x) => x,
        Err(e) => { return Err(e); },
    };
    let currents = match map_currents(v) {
        Ok(x) => x,
        Err(e) => { return Err(e); },
    };
    let status = match map_status(v) {
        Ok(x) => x,
        Err(e) => { return Err(e); },
    };
    let if_power = match map_if_power(v) {
        Ok(x) => x,
        Err(e) => { return Err(e); },
    };
    Ok(Monitor { board_temp, voltages, currents, status, if_power })
}

} // verus!
