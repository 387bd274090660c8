//! Savestates: a run written out as bytes, and read back.
//!
//! A savestate begins with the version of its format, four bytes. Then
//! follow the clock, the three parts of the map's name, the name of the
//! edits, the name of the run, its two switches, the number of agents, and
//! the agents in their order. Numbers are little-endian, eight bytes each;
//! a text is its length in bytes and its UTF-8; a switch, a mode and a phase
//! are one byte each.

use crate::network::TravelMode;
use crate::paths::{MapName, MapNameView};
use crate::sim::{lemma_run_adds, run};
use crate::text::{decimal, decimal_text};
use crate::sim::{Agent, Phase, Sim, SimOptions, SimOptionsView, SimView};
use vstd::bytes::*;
use vstd::prelude::*;
use vstd::slice::*;
use vstd::string::*;
use vstd::utf8::*;

verus! {

/// The version of the format that is written and read.
pub const SAVESTATE_VERSION: u32 = 1;

/// Why bytes were not read as a savestate.
#[derive(Clone, Copy, Debug, PartialEq, Eq, Structural)]
pub enum SavestateError {
    /// The bytes are no savestate of this format: they end too early, go on
    /// too long, or hold what the format has no place for.
    Malformed,
    /// The savestate was written in the format of this other version.
    IncompatibleVersion(u32),
}

/// What is told of the fault. An incompatible version is named, beside the
/// one that can be read.
pub open spec fn savestate_error_text(e: SavestateError) -> Seq<char> {
    match e {
        SavestateError::Malformed => "the bytes are no savestate"@,
        SavestateError::IncompatibleVersion(found) => "the savestate has format version "@
            + decimal(found as nat) + ", but only version "@ + decimal(SAVESTATE_VERSION as nat)
            + " can be read"@,
    }
}

impl SavestateError {
    /// Tells the fault in words.
    pub fn message(&self) -> (text: String)
        ensures
            text@ == savestate_error_text(*self),
    {
        match *self {
            SavestateError::Malformed => String::from_str("the bytes are no savestate"),
            SavestateError::IncompatibleVersion(found) => {
                let mut text = String::from_str("the savestate has format version ");
                text.append(decimal_text(found as u64).as_str());
                text.append(", but only version ");
                text.append(decimal_text(SAVESTATE_VERSION as u64).as_str());
                text.append(" can be read");
                text
            },
        }
    }
}

// What is written

pub open spec fn ser_u32(x: u32) -> Seq<u8> {
    spec_u32_to_le_bytes(x)
}

pub open spec fn ser_u64(x: u64) -> Seq<u8> {
    spec_u64_to_le_bytes(x)
}

pub open spec fn ser_bool(b: bool) -> Seq<u8> {
    seq![if b { 1u8 } else { 0u8 }]
}

pub open spec fn ser_text(t: Seq<char>) -> Seq<u8> {
    ser_u64(encode_utf8(t).len() as u64) + encode_utf8(t)
}

pub open spec fn mode_code(mode: TravelMode) -> u8 {
    match mode {
        TravelMode::Drive => 0,
        TravelMode::Bike => 1,
        TravelMode::Walk => 2,
        TravelMode::Transit => 3,
    }
}

pub open spec fn phase_code(phase: Phase) -> u8 {
    match phase {
        Phase::Waiting => 0,
        Phase::Travelling => 1,
        Phase::Finished => 2,
    }
}

pub open spec fn ser_agent(a: Agent) -> Seq<u8> {
    ser_u64(a.origin as u64) + ser_u64(a.destination as u64) + ser_u64(a.depart) + seq![
        mode_code(a.mode),
    ] + ser_u64(a.road as u64) + seq![phase_code(a.phase)]
}

pub open spec fn ser_agents(agents: Seq<Agent>) -> Seq<u8>
    decreases agents.len(),
{
    if agents.len() == 0 {
        Seq::empty()
    } else {
        ser_agent(agents.first()) + ser_agents(agents.drop_first())
    }
}

/// All of a savestate behind its version.
pub open spec fn ser_body(s: SimView) -> Seq<u8> {
    ser_u64(s.time as u64) + ser_text(s.map_name.country) + ser_text(s.map_name.city) + ser_text(
        s.map_name.map,
    ) + ser_text(s.edits_name) + ser_text(s.opts.run_name) + ser_bool(s.opts.log_events)
        + ser_bool(s.opts.record_trips) + ser_u64(s.agents.len() as u64) + ser_agents(s.agents)
}

/// The savestate of the run `s`.
pub open spec fn encoded(s: SimView) -> Seq<u8> {
    ser_u32(SAVESTATE_VERSION) + ser_body(s)
}

/// The text can be written: its length in bytes can.
pub open spec fn text_fits(t: Seq<char>) -> bool {
    encode_utf8(t).len() <= u64::MAX
}

impl SimView {
    /// The run can be written out: its clock, the lengths of its names and
    /// the number of its agents are numbers of eight bytes. Every `Sim` is
    /// such a run.
    pub open spec fn encodable(self) -> bool {
        &&& self.time <= u64::MAX
        &&& text_fits(self.map_name.country)
        &&& text_fits(self.map_name.city)
        &&& text_fits(self.map_name.map)
        &&& text_fits(self.edits_name)
        &&& text_fits(self.opts.run_name)
        &&& self.agents.len() <= u64::MAX
    }
}

// What is read: each step takes what it reads off the front and hands on the
// rest.

pub open spec fn parse_u32(b: Seq<u8>) -> Option<(u32, Seq<u8>)> {
    if b.len() >= 4 {
        Some((spec_u32_from_le_bytes(b.take(4)), b.skip(4)))
    } else {
        None
    }
}

pub open spec fn parse_u64(b: Seq<u8>) -> Option<(u64, Seq<u8>)> {
    if b.len() >= 8 {
        Some((spec_u64_from_le_bytes(b.take(8)), b.skip(8)))
    } else {
        None
    }
}

/// A number that can count places in memory.
pub open spec fn parse_index(b: Seq<u8>) -> Option<(usize, Seq<u8>)> {
    match parse_u64(b) {
        Some((x, rest)) => if x <= usize::MAX {
            Some((x as usize, rest))
        } else {
            None
        },
        None => None,
    }
}

pub open spec fn parse_bool(b: Seq<u8>) -> Option<(bool, Seq<u8>)> {
    if b.len() >= 1 && b[0] <= 1 {
        Some((b[0] == 1, b.skip(1)))
    } else {
        None
    }
}

pub open spec fn parse_text(b: Seq<u8>) -> Option<(Seq<char>, Seq<u8>)> {
    match parse_u64(b) {
        Some((n, rest)) => if n <= rest.len() && valid_utf8(rest.take(n as int)) {
            Some((decode_utf8(rest.take(n as int)), rest.skip(n as int)))
        } else {
            None
        },
        None => None,
    }
}

pub open spec fn parse_mode(b: Seq<u8>) -> Option<(TravelMode, Seq<u8>)> {
    if b.len() >= 1 && b[0] <= 3 {
        Some(
            (
                if b[0] == 0 {
                    TravelMode::Drive
                } else if b[0] == 1 {
                    TravelMode::Bike
                } else if b[0] == 2 {
                    TravelMode::Walk
                } else {
                    TravelMode::Transit
                },
                b.skip(1),
            ),
        )
    } else {
        None
    }
}

pub open spec fn parse_phase(b: Seq<u8>) -> Option<(Phase, Seq<u8>)> {
    if b.len() >= 1 && b[0] <= 2 {
        Some(
            (
                if b[0] == 0 {
                    Phase::Waiting
                } else if b[0] == 1 {
                    Phase::Travelling
                } else {
                    Phase::Finished
                },
                b.skip(1),
            ),
        )
    } else {
        None
    }
}

pub open spec fn parse_agent(b: Seq<u8>) -> Option<(Agent, Seq<u8>)> {
    let origin = parse_index(b);
    let destination = parse_index(origin.unwrap().1);
    let depart = parse_u64(destination.unwrap().1);
    let mode = parse_mode(depart.unwrap().1);
    let road = parse_index(mode.unwrap().1);
    let phase = parse_phase(road.unwrap().1);
    if origin is Some && destination is Some && depart is Some && mode is Some && road is Some
        && phase is Some {
        Some(
            (
                Agent {
                    origin: origin.unwrap().0,
                    destination: destination.unwrap().0,
                    depart: depart.unwrap().0,
                    mode: mode.unwrap().0,
                    road: road.unwrap().0,
                    phase: phase.unwrap().0,
                },
                phase.unwrap().1,
            ),
        )
    } else {
        None
    }
}

pub open spec fn parse_agents(b: Seq<u8>, count: nat) -> Option<(Seq<Agent>, Seq<u8>)>
    decreases count,
{
    if count == 0 {
        Some((Seq::empty(), b))
    } else {
        match parse_agent(b) {
            Some((a, rest)) => match parse_agents(rest, (count - 1) as nat) {
                Some((others, tail)) => Some((seq![a] + others, tail)),
                None => None,
            },
            None => None,
        }
    }
}

pub open spec fn parse_body(b: Seq<u8>) -> Option<(SimView, Seq<u8>)> {
    let time = parse_u64(b);
    let country = parse_text(time.unwrap().1);
    let city = parse_text(country.unwrap().1);
    let map = parse_text(city.unwrap().1);
    let edits = parse_text(map.unwrap().1);
    let run = parse_text(edits.unwrap().1);
    let log = parse_bool(run.unwrap().1);
    let record = parse_bool(log.unwrap().1);
    let count = parse_u64(record.unwrap().1);
    let agents = parse_agents(count.unwrap().1, count.unwrap().0 as nat);
    if time is Some && country is Some && city is Some && map is Some && edits is Some && run
        is Some && log is Some && record is Some && count is Some && agents is Some {
        Some(
            (
                SimView {
                    time: time.unwrap().0 as nat,
                    map_name: MapNameView {
                        country: country.unwrap().0,
                        city: city.unwrap().0,
                        map: map.unwrap().0,
                    },
                    edits_name: edits.unwrap().0,
                    opts: SimOptionsView {
                        run_name: run.unwrap().0,
                        log_events: log.unwrap().0,
                        record_trips: record.unwrap().0,
                    },
                    agents: agents.unwrap().0,
                },
                agents.unwrap().1,
            ),
        )
    } else {
        None
    }
}

/// The run that the bytes are the savestate of. A savestate of another
/// version is refused by that version, whatever follows it; a savestate of
/// this version must be read to its last byte.
pub open spec fn decoded(b: Seq<u8>) -> Result<SimView, SavestateError> {
    match parse_u32(b) {
        None => Err(SavestateError::Malformed),
        Some((version, rest)) => if version != SAVESTATE_VERSION {
            Err(SavestateError::IncompatibleVersion(version))
        } else {
            match parse_body(rest) {
                Some((sim, tail)) => if tail.len() == 0 {
                    Ok(sim)
                } else {
                    Err(SavestateError::Malformed)
                },
                None => Err(SavestateError::Malformed),
            }
        },
    }
}

// Writing

fn put_u64(out: &mut Vec<u8>, x: u64)
    ensures
        final(out)@ == old(out)@ + ser_u64(x),
{
    let mut b = u64_to_le_bytes(x);
    out.append(&mut b);
}

fn put_byte(out: &mut Vec<u8>, x: u8)
    ensures
        final(out)@ == old(out)@ + seq![x],
{
    out.push(x);
    assert(out@ =~= old(out)@ + seq![x]);
}

fn put_bool(out: &mut Vec<u8>, v: bool)
    ensures
        final(out)@ == old(out)@ + ser_bool(v),
{
    put_byte(
        out,
        if v {
            1
        } else {
            0
        },
    );
}

fn put_text(out: &mut Vec<u8>, text: &str)
    ensures
        final(out)@ == old(out)@ + ser_text(text@),
        text_fits(text@),
{
    let b = text.as_bytes();
    put_u64(out, b.len() as u64);
    let ghost mid = out@;
    out.extend_from_slice(b);
    proof {
        assert(out@ =~= mid + b@);
        lemma_regroup(old(out)@, ser_u64(b@.len() as u64), b@);
    }
}

fn put_agent(out: &mut Vec<u8>, a: &Agent)
    ensures
        final(out)@ == old(out)@ + ser_agent(*a),
{
    put_u64(out, a.origin as u64);
    put_u64(out, a.destination as u64);
    put_u64(out, a.depart);
    put_byte(
        out,
        match a.mode {
            TravelMode::Drive => 0,
            TravelMode::Bike => 1,
            TravelMode::Walk => 2,
            TravelMode::Transit => 3,
        },
    );
    put_u64(out, a.road as u64);
    put_byte(
        out,
        match a.phase {
            Phase::Waiting => 0,
            Phase::Travelling => 1,
            Phase::Finished => 2,
        },
    );
    proof {
        let f0 = ser_u64(a.origin as u64);
        let f1 = ser_u64(a.destination as u64);
        let f2 = ser_u64(a.depart);
        let f3 = seq![mode_code(a.mode)];
        let f4 = ser_u64(a.road as u64);
        let f5 = seq![phase_code(a.phase)];
        let o = old(out)@;
        lemma_regroup(o, f0, f1);
        lemma_regroup(o, f0 + f1, f2);
        lemma_regroup(o, f0 + f1 + f2, f3);
        lemma_regroup(o, f0 + f1 + f2 + f3, f4);
        lemma_regroup(o, f0 + f1 + f2 + f3 + f4, f5);
    }
}

/// The bytes of agents one behind the other are the bytes of all but the
/// last, and then the last one's.
proof fn lemma_ser_agents_push(agents: Seq<Agent>, a: Agent)
    ensures
        ser_agents(agents.push(a)) == ser_agents(agents) + ser_agent(a),
    decreases agents.len(),
{
    let all = agents.push(a);
    if agents.len() == 0 {
        assert(all.drop_first() =~= Seq::<Agent>::empty());
        assert(ser_agents(all.drop_first()) == Seq::<u8>::empty());
        assert(ser_agents(agents) == Seq::<u8>::empty());
        assert(ser_agents(all) == ser_agent(a) + ser_agents(all.drop_first()));
        assert(ser_agents(all) =~= ser_agents(agents) + ser_agent(a));
    } else {
        assert(all.drop_first() =~= agents.drop_first().push(a));
        lemma_ser_agents_push(agents.drop_first(), a);
        lemma_regroup(ser_agent(agents.first()), ser_agents(agents.drop_first()), ser_agent(a));
    }
}

fn put_agents(out: &mut Vec<u8>, agents: &Vec<Agent>)
    ensures
        final(out)@ == old(out)@ + ser_agents(agents@),
{
    let mut k: usize = 0;
    assert(out@ =~= old(out)@ + ser_agents(agents@.take(0)));
    while k < agents.len()
        invariant
            k <= agents.len(),
            out@ == old(out)@ + ser_agents(agents@.take(k as int)),
        decreases agents.len() - k,
    {
        proof {
            lemma_ser_agents_push(agents@.take(k as int), agents@[k as int]);
            assert(agents@.take(k + 1) =~= agents@.take(k as int).push(agents@[k as int]));
            lemma_regroup(
                old(out)@,
                ser_agents(agents@.take(k as int)),
                ser_agent(agents@[k as int]),
            );
        }
        put_agent(out, &agents[k]);
        k += 1;
    }
    assert(agents@.take(agents.len() as int) =~= agents@);
}

/// Writes the run out.
pub fn save(sim: &Sim) -> (bytes: Vec<u8>)
    ensures
        bytes@ == encoded(sim@),
        sim@.encodable(),
{
    let mut out = u32_to_le_bytes(SAVESTATE_VERSION);
    let ghost v = out@;
    put_u64(&mut out, sim.time);
    put_text(&mut out, sim.map_name.country.as_str());
    put_text(&mut out, sim.map_name.city.as_str());
    put_text(&mut out, sim.map_name.map.as_str());
    put_text(&mut out, sim.edits_name.as_str());
    put_text(&mut out, sim.opts.run_name.as_str());
    put_bool(&mut out, sim.opts.log_events);
    put_bool(&mut out, sim.opts.record_trips);
    put_u64(&mut out, sim.agents.len() as u64);
    put_agents(&mut out, &sim.agents);
    proof {
        let s = sim@;
        let f0 = ser_u64(s.time as u64);
        let f1 = ser_text(s.map_name.country);
        let f2 = ser_text(s.map_name.city);
        let f3 = ser_text(s.map_name.map);
        let f4 = ser_text(s.edits_name);
        let f5 = ser_text(s.opts.run_name);
        let f6 = ser_bool(s.opts.log_events);
        let f7 = ser_bool(s.opts.record_trips);
        let f8 = ser_u64(s.agents.len() as u64);
        let f9 = ser_agents(s.agents);
        lemma_regroup(v, f0, f1);
        lemma_regroup(v, f0 + f1, f2);
        lemma_regroup(v, f0 + f1 + f2, f3);
        lemma_regroup(v, f0 + f1 + f2 + f3, f4);
        lemma_regroup(v, f0 + f1 + f2 + f3 + f4, f5);
        lemma_regroup(v, f0 + f1 + f2 + f3 + f4 + f5, f6);
        lemma_regroup(v, f0 + f1 + f2 + f3 + f4 + f5 + f6, f7);
        lemma_regroup(v, f0 + f1 + f2 + f3 + f4 + f5 + f6 + f7, f8);
        lemma_regroup(v, f0 + f1 + f2 + f3 + f4 + f5 + f6 + f7 + f8, f9);
    }
    out
}

// Reading

/// Calls `String::from_utf8` of std and drops what its error holds. As std
/// documents it, the call gives the text that the bytes spell in UTF-8, and
/// fails exactly where the bytes are no UTF-8.
#[verifier::external_body]
fn string_from_utf8(bytes: Vec<u8>) -> (text: Option<String>)
    ensures
        text is Some <==> valid_utf8(bytes@),
        text is Some ==> text.unwrap()@ == decode_utf8(bytes@),
{
    String::from_utf8(bytes).ok()
}

fn get_u32(bytes: &[u8], at: usize) -> (found: Option<(u32, usize)>)
    requires
        at <= bytes@.len(),
    ensures
        match found {
            Some((x, next)) => at <= next <= bytes@.len() && parse_u32(bytes@.skip(at as int))
                == Some((x, bytes@.skip(next as int))),
            None => parse_u32(bytes@.skip(at as int)) is None,
        },
{
    if bytes.len() - at < 4 {
        return None;
    }
    let x = u32_from_le_bytes(slice_subrange(bytes, at, at + 4));
    proof {
        assert(bytes@.skip(at as int).take(4) =~= bytes@.subrange(at as int, at + 4));
        assert(bytes@.skip(at as int).skip(4) =~= bytes@.skip(at + 4));
    }
    Some((x, at + 4))
}

fn get_u64(bytes: &[u8], at: usize) -> (found: Option<(u64, usize)>)
    requires
        at <= bytes@.len(),
    ensures
        match found {
            Some((x, next)) => at <= next <= bytes@.len() && parse_u64(bytes@.skip(at as int))
                == Some((x, bytes@.skip(next as int))),
            None => parse_u64(bytes@.skip(at as int)) is None,
        },
{
    if bytes.len() - at < 8 {
        return None;
    }
    let x = u64_from_le_bytes(slice_subrange(bytes, at, at + 8));
    proof {
        assert(bytes@.skip(at as int).take(8) =~= bytes@.subrange(at as int, at + 8));
        assert(bytes@.skip(at as int).skip(8) =~= bytes@.skip(at + 8));
    }
    Some((x, at + 8))
}

fn get_index(bytes: &[u8], at: usize) -> (found: Option<(usize, usize)>)
    requires
        at <= bytes@.len(),
    ensures
        match found {
            Some((x, next)) => at <= next <= bytes@.len() && parse_index(bytes@.skip(at as int))
                == Some((x, bytes@.skip(next as int))),
            None => parse_index(bytes@.skip(at as int)) is None,
        },
{
    match get_u64(bytes, at) {
        Some((x, next)) => {
            if x <= usize::MAX as u64 {
                Some((x as usize, next))
            } else {
                None
            }
        },
        None => None,
    }
}

fn get_byte(bytes: &[u8], at: usize, most: u8) -> (found: Option<(u8, usize)>)
    requires
        at <= bytes@.len(),
    ensures
        match found {
            Some((x, next)) => {
                &&& at < bytes@.len()
                &&& next == at + 1
                &&& x == bytes@.skip(at as int)[0]
                &&& x <= most
                &&& bytes@.skip(at as int).skip(1) == bytes@.skip(next as int)
            },
            None => !(bytes@.skip(at as int).len() >= 1 && bytes@.skip(at as int)[0] <= most),
        },
{
    if at < bytes.len() && bytes[at] <= most {
        proof {
            assert(bytes@.skip(at as int).skip(1) =~= bytes@.skip(at + 1));
        }
        Some((bytes[at], at + 1))
    } else {
        None
    }
}

fn get_bool(bytes: &[u8], at: usize) -> (found: Option<(bool, usize)>)
    requires
        at <= bytes@.len(),
    ensures
        match found {
            Some((x, next)) => at <= next <= bytes@.len() && parse_bool(bytes@.skip(at as int))
                == Some((x, bytes@.skip(next as int))),
            None => parse_bool(bytes@.skip(at as int)) is None,
        },
{
    match get_byte(bytes, at, 1) {
        Some((x, next)) => Some((x == 1, next)),
        None => None,
    }
}

fn get_mode(bytes: &[u8], at: usize) -> (found: Option<(TravelMode, usize)>)
    requires
        at <= bytes@.len(),
    ensures
        match found {
            Some((x, next)) => at <= next <= bytes@.len() && parse_mode(bytes@.skip(at as int))
                == Some((x, bytes@.skip(next as int))),
            None => parse_mode(bytes@.skip(at as int)) is None,
        },
{
    match get_byte(bytes, at, 3) {
        Some((x, next)) => {
            let mode = if x == 0 {
                TravelMode::Drive
            } else if x == 1 {
                TravelMode::Bike
            } else if x == 2 {
                TravelMode::Walk
            } else {
                TravelMode::Transit
            };
            Some((mode, next))
        },
        None => None,
    }
}

fn get_phase(bytes: &[u8], at: usize) -> (found: Option<(Phase, usize)>)
    requires
        at <= bytes@.len(),
    ensures
        match found {
            Some((x, next)) => at <= next <= bytes@.len() && parse_phase(bytes@.skip(at as int))
                == Some((x, bytes@.skip(next as int))),
            None => parse_phase(bytes@.skip(at as int)) is None,
        },
{
    match get_byte(bytes, at, 2) {
        Some((x, next)) => {
            let phase = if x == 0 {
                Phase::Waiting
            } else if x == 1 {
                Phase::Travelling
            } else {
                Phase::Finished
            };
            Some((phase, next))
        },
        None => None,
    }
}

fn get_text(bytes: &[u8], at: usize) -> (found: Option<(String, usize)>)
    requires
        at <= bytes@.len(),
    ensures
        match found {
            Some((x, next)) => at <= next <= bytes@.len() && parse_text(bytes@.skip(at as int))
                == Some((x@, bytes@.skip(next as int))),
            None => parse_text(bytes@.skip(at as int)) is None,
        },
{
    match get_u64(bytes, at) {
        Some((n, start)) => {
            if n > (bytes.len() - start) as u64 {
                return None;
            }
            let end = start + n as usize;
            let window = slice_to_vec(slice_subrange(bytes, start, end));
            proof {
                assert(bytes@.skip(start as int).take(n as int) =~= bytes@.subrange(
                    start as int,
                    end as int,
                ));
                assert(bytes@.skip(start as int).skip(n as int) =~= bytes@.skip(end as int));
            }
            match string_from_utf8(window) {
                Some(text) => Some((text, end)),
                None => None,
            }
        },
        None => None,
    }
}

fn get_agent(bytes: &[u8], at: usize) -> (found: Option<(Agent, usize)>)
    requires
        at <= bytes@.len(),
    ensures
        match found {
            Some((x, next)) => at <= next <= bytes@.len() && parse_agent(bytes@.skip(at as int))
                == Some((x, bytes@.skip(next as int))),
            None => parse_agent(bytes@.skip(at as int)) is None,
        },
{
    let (origin, at) = match get_index(bytes, at) {
        Some(found) => found,
        None => {
            return None;
        },
    };
    let (destination, at) = match get_index(bytes, at) {
        Some(found) => found,
        None => {
            return None;
        },
    };
    let (depart, at) = match get_u64(bytes, at) {
        Some(found) => found,
        None => {
            return None;
        },
    };
    let (mode, at) = match get_mode(bytes, at) {
        Some(found) => found,
        None => {
            return None;
        },
    };
    let (road, at) = match get_index(bytes, at) {
        Some(found) => found,
        None => {
            return None;
        },
    };
    let (phase, at) = match get_phase(bytes, at) {
        Some(found) => found,
        None => {
            return None;
        },
    };
    Some((Agent { origin, destination, depart, mode, road, phase }, at))
}

fn get_agents(bytes: &[u8], at: usize, count: u64) -> (found: Option<(Vec<Agent>, usize)>)
    requires
        at <= bytes@.len(),
    ensures
        match found {
            Some((x, next)) => at <= next <= bytes@.len() && parse_agents(
                bytes@.skip(at as int),
                count as nat,
            ) == Some((x@, bytes@.skip(next as int))),
            None => parse_agents(bytes@.skip(at as int), count as nat) is None,
        },
{
    let ghost whole = parse_agents(bytes@.skip(at as int), count as nat);
    let mut agents: Vec<Agent> = Vec::new();
    let mut cursor = at;
    let mut k: u64 = 0;
    assert(Seq::<Agent>::empty() + parse_agents(bytes@.skip(at as int), count as nat).unwrap().0
        =~= parse_agents(bytes@.skip(at as int), count as nat).unwrap().0);
    while k < count
        invariant
            k <= count,
            at <= cursor <= bytes@.len(),
            whole == parse_agents(bytes@.skip(at as int), count as nat),
            whole == match parse_agents(bytes@.skip(cursor as int), (count - k) as nat) {
                Some((others, tail)) => Some((agents@ + others, tail)),
                None => None,
            },
        decreases count - k,
    {
        let ghost here = bytes@.skip(cursor as int);
        match get_agent(bytes, cursor) {
            Some((a, next)) => {
                proof {
                    let after = parse_agents(bytes@.skip(next as int), (count - k - 1) as nat);
                    if after is Some {
                        assert(agents@ + (seq![a] + after.unwrap().0) =~= agents@.push(a)
                            + after.unwrap().0);
                    }
                }
                agents.push(a);
                cursor = next;
            },
            None => {
                return None;
            },
        }
        k += 1;
    }
    assert(agents@ + Seq::<Agent>::empty() =~= agents@);
    Some((agents, cursor))
}

/// Reads all of a savestate behind its version.
#[verifier::rlimit(40)]
fn get_body(bytes: &[u8], at: usize) -> (found: Option<(Sim, usize)>)
    requires
        at <= bytes@.len(),
    ensures
        match found {
            Some((x, next)) => at <= next <= bytes@.len() && parse_body(bytes@.skip(at as int))
                == Some((x@, bytes@.skip(next as int))),
            None => parse_body(bytes@.skip(at as int)) is None,
        },
{
    let (time, at) = match get_u64(bytes, at) {
        Some(found) => found,
        None => {
            return None;
        },
    };
    let (country, at) = match get_text(bytes, at) {
        Some(found) => found,
        None => {
            return None;
        },
    };
    let (city, at) = match get_text(bytes, at) {
        Some(found) => found,
        None => {
            return None;
        },
    };
    let (map, at) = match get_text(bytes, at) {
        Some(found) => found,
        None => {
            return None;
        },
    };
    let (edits_name, at) = match get_text(bytes, at) {
        Some(found) => found,
        None => {
            return None;
        },
    };
    let (run_name, at) = match get_text(bytes, at) {
        Some(found) => found,
        None => {
            return None;
        },
    };
    let (log_events, at) = match get_bool(bytes, at) {
        Some(found) => found,
        None => {
            return None;
        },
    };
    let (record_trips, at) = match get_bool(bytes, at) {
        Some(found) => found,
        None => {
            return None;
        },
    };
    let (count, at) = match get_u64(bytes, at) {
        Some(found) => found,
        None => {
            return None;
        },
    };
    let (agents, at) = match get_agents(bytes, at, count) {
        Some(found) => found,
        None => {
            return None;
        },
    };
    Some(
        (
            Sim {
                time,
                map_name: MapName { country, city, map },
                edits_name,
                opts: SimOptions { run_name, log_events, record_trips },
                agents,
            },
            at,
        ),
    )
}

/// Reads a savestate. The run is handed out only where the bytes are a
/// savestate of this version from the first byte to the last; a savestate of
/// another version is refused by that version.
pub fn load(bytes: &[u8]) -> (read: Result<Sim, SavestateError>)
    ensures
        match read {
            Ok(sim) => decoded(bytes@) == Ok::<SimView, SavestateError>(sim@),
            Err(e) => decoded(bytes@) == Err::<SimView, SavestateError>(e),
        },
{
    assert(bytes@.skip(0) =~= bytes@);
    let (version, at) = match get_u32(bytes, 0) {
        Some(found) => found,
        None => {
            return Err(SavestateError::Malformed);
        },
    };
    if version != SAVESTATE_VERSION {
        return Err(SavestateError::IncompatibleVersion(version));
    }
    match get_body(bytes, at) {
        Some((sim, end)) => {
            if end == bytes.len() {
                Ok(sim)
            } else {
                Err(SavestateError::Malformed)
            }
        },
        None => Err(SavestateError::Malformed),
    }
}

// Reading what was written

proof fn lemma_regroup(a: Seq<u8>, b: Seq<u8>, c: Seq<u8>)
    ensures
        (a + b) + c == a + (b + c),
{
    assert((a + b) + c =~= a + (b + c));
}

proof fn lemma_parse_u32(x: u32, rest: Seq<u8>)
    ensures
        parse_u32(ser_u32(x) + rest) == Some((x, rest)),
{
    lemma_auto_spec_u32_to_from_le_bytes();
    let b = ser_u32(x) + rest;
    assert(b.take(4) =~= ser_u32(x));
    assert(b.skip(4) =~= rest);
}

proof fn lemma_parse_u64(x: u64, rest: Seq<u8>)
    ensures
        parse_u64(ser_u64(x) + rest) == Some((x, rest)),
{
    lemma_auto_spec_u64_to_from_le_bytes();
    let b = ser_u64(x) + rest;
    assert(b.take(8) =~= ser_u64(x));
    assert(b.skip(8) =~= rest);
}

proof fn lemma_parse_index(x: usize, rest: Seq<u8>)
    ensures
        parse_index(ser_u64(x as u64) + rest) == Some((x, rest)),
{
    lemma_parse_u64(x as u64, rest);
}

proof fn lemma_parse_bool(v: bool, rest: Seq<u8>)
    ensures
        parse_bool(ser_bool(v) + rest) == Some((v, rest)),
{
    assert((ser_bool(v) + rest).skip(1) =~= rest);
}

proof fn lemma_parse_mode(mode: TravelMode, rest: Seq<u8>)
    ensures
        parse_mode(seq![mode_code(mode)] + rest) == Some((mode, rest)),
{
    assert((seq![mode_code(mode)] + rest).skip(1) =~= rest);
}

proof fn lemma_parse_phase(phase: Phase, rest: Seq<u8>)
    ensures
        parse_phase(seq![phase_code(phase)] + rest) == Some((phase, rest)),
{
    assert((seq![phase_code(phase)] + rest).skip(1) =~= rest);
}

proof fn lemma_parse_text(t: Seq<char>, rest: Seq<u8>)
    requires
        text_fits(t),
    ensures
        parse_text(ser_text(t) + rest) == Some((t, rest)),
{
    let e = encode_utf8(t);
    assert(ser_text(t) + rest =~= ser_u64(e.len() as u64) + (e + rest));
    lemma_parse_u64(e.len() as u64, e + rest);
    assert((e + rest).take(e.len() as int) =~= e);
    assert((e + rest).skip(e.len() as int) =~= rest);
    encode_utf8_valid_utf8(t);
    encode_utf8_decode_utf8(t);
}

proof fn lemma_parse_agent(a: Agent, rest: Seq<u8>)
    ensures
        parse_agent(ser_agent(a) + rest) == Some((a, rest)),
{
    let r5 = seq![phase_code(a.phase)] + rest;
    let r4 = ser_u64(a.road as u64) + r5;
    let r3 = seq![mode_code(a.mode)] + r4;
    let r2 = ser_u64(a.depart) + r3;
    let r1 = ser_u64(a.destination as u64) + r2;
    assert(ser_agent(a) + rest =~= ser_u64(a.origin as u64) + r1);
    lemma_parse_index(a.origin, r1);
    lemma_parse_index(a.destination, r2);
    lemma_parse_u64(a.depart, r3);
    lemma_parse_mode(a.mode, r4);
    lemma_parse_index(a.road, r5);
    lemma_parse_phase(a.phase, rest);
}

proof fn lemma_parse_agents(agents: Seq<Agent>, rest: Seq<u8>)
    ensures
        parse_agents(ser_agents(agents) + rest, agents.len()) == Some((agents, rest)),
    decreases agents.len(),
{
    if agents.len() == 0 {
        assert(ser_agents(agents) + rest =~= rest);
    } else {
        let a = agents.first();
        let others = agents.drop_first();
        assert(ser_agents(agents) + rest =~= ser_agent(a) + (ser_agents(others) + rest));
        lemma_parse_agent(a, ser_agents(others) + rest);
        lemma_parse_agents(others, rest);
        assert(seq![a] + others =~= agents);
    }
}

#[verifier::rlimit(40)]
proof fn lemma_parse_body(s: SimView, rest: Seq<u8>)
    requires
        s.encodable(),
    ensures
        parse_body(ser_body(s) + rest) == Some((s, rest)),
{
    let f0 = ser_u64(s.time as u64);
    let f1 = ser_text(s.map_name.country);
    let f2 = ser_text(s.map_name.city);
    let f3 = ser_text(s.map_name.map);
    let f4 = ser_text(s.edits_name);
    let f5 = ser_text(s.opts.run_name);
    let f6 = ser_bool(s.opts.log_events);
    let f7 = ser_bool(s.opts.record_trips);
    let f8 = ser_u64(s.agents.len() as u64);
    let f9 = ser_agents(s.agents);
    let r9 = f9 + rest;
    let r8 = f8 + r9;
    let r7 = f7 + r8;
    let r6 = f6 + r7;
    let r5 = f5 + r6;
    let r4 = f4 + r5;
    let r3 = f3 + r4;
    let r2 = f2 + r3;
    let r1 = f1 + r2;
    lemma_regroup(f0 + f1 + f2 + f3 + f4 + f5 + f6 + f7 + f8, f9, rest);
    lemma_regroup(f0 + f1 + f2 + f3 + f4 + f5 + f6 + f7, f8, r9);
    lemma_regroup(f0 + f1 + f2 + f3 + f4 + f5 + f6, f7, r8);
    lemma_regroup(f0 + f1 + f2 + f3 + f4 + f5, f6, r7);
    lemma_regroup(f0 + f1 + f2 + f3 + f4, f5, r6);
    lemma_regroup(f0 + f1 + f2 + f3, f4, r5);
    lemma_regroup(f0 + f1 + f2, f3, r4);
    lemma_regroup(f0 + f1, f2, r3);
    lemma_regroup(f0, f1, r2);
    assert(ser_body(s) + rest == f0 + r1);
    lemma_parse_u64(s.time as u64, r1);
    lemma_parse_text(s.map_name.country, r2);
    lemma_parse_text(s.map_name.city, r3);
    lemma_parse_text(s.map_name.map, r4);
    lemma_parse_text(s.edits_name, r5);
    lemma_parse_text(s.opts.run_name, r6);
    lemma_parse_bool(s.opts.log_events, r7);
    lemma_parse_bool(s.opts.record_trips, r8);
    lemma_parse_u64(s.agents.len() as u64, r9);
    lemma_parse_agents(s.agents, rest);
}

/// What was written is read back as it was: the savestate of a run is read
/// as that run, to the last agent and in their order.
#[verifier::rlimit(40)]
pub proof fn lemma_round_trip(s: SimView)
    requires
        s.encodable(),
    ensures
        decoded(encoded(s)) == Ok::<SimView, SavestateError>(s),
{
    let body = ser_body(s);
    let none = Seq::<u8>::empty();
    assert(encoded(s) == ser_u32(SAVESTATE_VERSION) + body);
    assert(parse_u32(encoded(s)) == Some((SAVESTATE_VERSION, body))) by {
        lemma_parse_u32(SAVESTATE_VERSION, body);
    }
    assert(parse_body(body) == Some((s, none))) by {
        lemma_parse_body(s, none);
        assert(body + none =~= body);
    }
    assert(none.len() == 0);
}

/// A run that is saved after `before` ticks and read back goes on as the run
/// that was never stopped: after `after` more ticks both stand where a run of
/// `before + after` ticks stands.
pub proof fn lemma_resume_continues(s: SimView, before: nat, after: nat)
    requires
        run(s, before).encodable(),
    ensures
        decoded(encoded(run(s, before))) is Ok,
        run(decoded(encoded(run(s, before)))->Ok_0, after) == run(run(s, before), after),
        run(run(s, before), after) == run(s, before + after),
{
    lemma_round_trip(run(s, before));
    lemma_run_adds(s, before, after);
}

} // verus!
