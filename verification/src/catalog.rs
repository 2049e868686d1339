//! Fixed catalog of the telemetry registers the device exposes, with their
//! query commands and response prefixes, and the protocol's fixed commands
//! and sentinel lines. All protocol text is ASCII and is handled as bytes.

use vstd::prelude::*;

verus! {

/// The ten registers polled once per cycle, in catalog order.
#[derive(PartialEq, Eq, Structural, Clone, Copy, Debug)]
pub enum RegisterId {
    DisplaySeconds,
    DisplayMinutes,
    DisplayHours,
    Distance,
    StrokeCount,
    StrokeTimeAvg,
    StrokePullTimeAvg,
    HeartRateZone,
    SecondsPer500mZone,
    StrokeRateZone,
}

/// Number of registers in the catalog.
pub const NUM_REGISTERS: usize = 10;

/// Width-class letter plus three-character register address, as ASCII bytes.
/// The byte-width class is `S` (one byte), `D` (two bytes) or `T` (three bytes).
pub open spec fn spec_register_suffix(r: RegisterId) -> Seq<u8> {
    match r {
        RegisterId::DisplaySeconds => seq![83u8, 49u8, 69u8, 49u8],      // "S1E1"
        RegisterId::DisplayMinutes => seq![83u8, 49u8, 69u8, 50u8],      // "S1E2"
        RegisterId::DisplayHours => seq![83u8, 49u8, 69u8, 51u8],        // "S1E3"
        RegisterId::Distance => seq![68u8, 48u8, 53u8, 53u8],            // "D055"
        RegisterId::StrokeCount => seq![68u8, 49u8, 52u8, 48u8],         // "D140"
        RegisterId::StrokeTimeAvg => seq![83u8, 49u8, 52u8, 50u8],       // "S142"
        RegisterId::StrokePullTimeAvg => seq![83u8, 49u8, 52u8, 51u8],   // "S143"
        RegisterId::HeartRateZone => seq![83u8, 49u8, 65u8, 48u8],       // "S1A0"
        RegisterId::SecondsPer500mZone => seq![68u8, 49u8, 65u8, 53u8],  // "D1A5"
        RegisterId::StrokeRateZone => seq![83u8, 49u8, 65u8, 57u8],      // "S1A9"
    }
}

/// Query command for a register: `IR` + width class + address (e.g. "IRS1E1").
pub open spec fn spec_query_command(r: RegisterId) -> Seq<u8> {
    seq![73u8, 82u8] + spec_register_suffix(r)
}

/// Response prefix for a register: `ID` + width class + address (e.g. "IDS1E1").
pub open spec fn spec_response_prefix(r: RegisterId) -> Seq<u8> {
    seq![73u8, 68u8] + spec_register_suffix(r)
}

/// The catalog order in which registers are queried each cycle.
pub open spec fn spec_catalog() -> Seq<RegisterId> {
    seq![
        RegisterId::DisplaySeconds,
        RegisterId::DisplayMinutes,
        RegisterId::DisplayHours,
        RegisterId::Distance,
        RegisterId::StrokeCount,
        RegisterId::StrokeTimeAvg,
        RegisterId::StrokePullTimeAvg,
        RegisterId::HeartRateZone,
        RegisterId::SecondsPer500mZone,
        RegisterId::StrokeRateZone,
    ]
}

/// Session start command, "USB".
pub open spec fn spec_cmd_start() -> Seq<u8> {
    seq![85u8, 83u8, 66u8]
}

/// Session stop command, "EXIT".
pub open spec fn spec_cmd_stop() -> Seq<u8> {
    seq![69u8, 88u8, 73u8, 84u8]
}

/// Model/firmware query command, "IV?".
pub open spec fn spec_cmd_model_info() -> Seq<u8> {
    seq![73u8, 86u8, 63u8]
}

/// Hardware-identification sentinel, "_WR_".
pub open spec fn spec_hw_sentinel() -> Seq<u8> {
    seq![95u8, 87u8, 82u8, 95u8]
}

/// Stroke-start sentinel, "SS".
pub open spec fn spec_stroke_start_sentinel() -> Seq<u8> {
    seq![83u8, 83u8]
}

/// Error sentinel, "ERROR".
pub open spec fn spec_error_sentinel() -> Seq<u8> {
    seq![69u8, 82u8, 82u8, 79u8, 82u8]
}

/// Model-information response prefix, "IV".
pub open spec fn spec_model_info_prefix() -> Seq<u8> {
    seq![73u8, 86u8]
}

fn push4(v: &mut Vec<u8>, a: u8, b: u8, c: u8, d: u8)
    ensures
        final(v)@ == old(v)@ + seq![a, b, c, d],
{
    v.push(a);
    v.push(b);
    v.push(c);
    v.push(d);
    assert(v@ =~= old(v)@ + seq![a, b, c, d]);
}

fn register_suffix(r: RegisterId) -> (v: Vec<u8>)
    ensures
        v@ == spec_register_suffix(r),
{
    let mut v: Vec<u8> = Vec::new();
    match r {
        RegisterId::DisplaySeconds => push4(&mut v, 83, 49, 69, 49),
        RegisterId::DisplayMinutes => push4(&mut v, 83, 49, 69, 50),
        RegisterId::DisplayHours => push4(&mut v, 83, 49, 69, 51),
        RegisterId::Distance => push4(&mut v, 68, 48, 53, 53),
        RegisterId::StrokeCount => push4(&mut v, 68, 49, 52, 48),
        RegisterId::StrokeTimeAvg => push4(&mut v, 83, 49, 52, 50),
        RegisterId::StrokePullTimeAvg => push4(&mut v, 83, 49, 52, 51),
        RegisterId::HeartRateZone => push4(&mut v, 83, 49, 65, 48),
        RegisterId::SecondsPer500mZone => push4(&mut v, 68, 49, 65, 53),
        RegisterId::StrokeRateZone => push4(&mut v, 83, 49, 65, 57),
    }
    assert(v@ =~= spec_register_suffix(r));
    v
}

/// The bytes of the query command for one register.
pub fn query_command(r: RegisterId) -> (v: Vec<u8>)
    ensures
        v@ == spec_query_command(r),
{
    let mut v: Vec<u8> = Vec::new();
    v.push(73);
    v.push(82);
    let mut s = register_suffix(r);
    v.append(&mut s);
    assert(v@ =~= spec_query_command(r));
    v
}

/// The bytes of the response prefix for one register.
pub fn response_prefix(r: RegisterId) -> (v: Vec<u8>)
    ensures
        v@ == spec_response_prefix(r),
{
    let mut v: Vec<u8> = Vec::new();
    v.push(73);
    v.push(68);
    let mut s = register_suffix(r);
    v.append(&mut s);
    assert(v@ =~= spec_response_prefix(r));
    v
}

/// The registers in catalog (query) order.
pub fn catalog() -> (v: Vec<RegisterId>)
    ensures
        v@ == spec_catalog(),
{
    let mut v: Vec<RegisterId> = Vec::new();
    v.push(RegisterId::DisplaySeconds);
    v.push(RegisterId::DisplayMinutes);
    v.push(RegisterId::DisplayHours);
    v.push(RegisterId::Distance);
    v.push(RegisterId::StrokeCount);
    v.push(RegisterId::StrokeTimeAvg);
    v.push(RegisterId::StrokePullTimeAvg);
    v.push(RegisterId::HeartRateZone);
    v.push(RegisterId::SecondsPer500mZone);
    v.push(RegisterId::StrokeRateZone);
    assert(v@ =~= spec_catalog());
    v
}

/// Session start command, "USB".
pub fn cmd_start() -> (v: Vec<u8>)
    ensures
        v@ == spec_cmd_start(),
{
    let mut v: Vec<u8> = Vec::new();
    v.push(85);
    v.push(83);
    v.push(66);
    assert(v@ =~= spec_cmd_start());
    v
}

/// Session stop command, "EXIT".
pub fn cmd_stop() -> (v: Vec<u8>)
    ensures
        v@ == spec_cmd_stop(),
{
    let mut v: Vec<u8> = Vec::new();
    v.push(69);
    v.push(88);
    v.push(73);
    v.push(84);
    assert(v@ =~= spec_cmd_stop());
    v
}

/// Model/firmware query command, "IV?".
pub fn cmd_model_info() -> (v: Vec<u8>)
    ensures
        v@ == spec_cmd_model_info(),
{
    let mut v: Vec<u8> = Vec::new();
    v.push(73);
    v.push(86);
    v.push(63);
    assert(v@ =~= spec_cmd_model_info());
    v
}

/// A command framed for the wire: the command bytes with the newline
/// terminator appended.
pub fn frame_command(cmd: &Vec<u8>) -> (v: Vec<u8>)
    ensures
        v@ == cmd@ + seq![10u8],
{
    let mut v: Vec<u8> = Vec::new();
    let mut i: usize = 0;
    while i < cmd.len()
        invariant
            i <= cmd.len(),
            v@ == cmd@.take(i as int),
        decreases cmd.len() - i,
    {
        v.push(cmd[i]);
        assert(v@ =~= cmd@.take(i + 1 as int));
        i = i + 1;
    }
    assert(cmd@.take(cmd.len() as int) =~= cmd@);
    v.push(10);
    v
}

} // verus!
