use vstd::prelude::*;
use crate::calibration::{fallback_scale, resolved_scales, CalibrationTable};
use crate::config::ConfigFile;
use crate::protocol::{
    date_bytes_of, decode_response, handshake_frame, handshake_frame_of, record_of, trigger_frame,
    trigger_frame_spec, DateError, RawRecord, NO_SENSOR,
};
use crate::timestamp::{local_now, Timestamp};

verus! {

/// One calibrated reading. `value` is in millionths of a degree.
#[derive(Clone, Copy, Debug, PartialEq, Eq, Structural)]
pub struct TemperatureReading {
    pub timestamp: Timestamp,
    pub sensor: u16,
    pub value: i64,
}

/// What one poll of the device gives.
#[derive(Clone, Copy, Debug, PartialEq, Eq, Structural)]
pub enum ArexxResult {
    /// A reading of a sensor that the calibration table knows.
    Temperature(TemperatureReading),
    /// A response that carries no reading: the reserved id, or an unknown sensor.
    Other,
    /// No device is attached; nothing was sent.
    NotAvailable,
}

/// How a decoded response is classified against the calibration table.
pub open spec fn classify_spec(table: Map<u16, i32>, rec: RawRecord) -> ArexxResult {
    if rec.sensor == NO_SENSOR || !table.contains_key(rec.sensor) {
        ArexxResult::Other
    } else {
        ArexxResult::Temperature(
            TemperatureReading {
                timestamp: rec.timestamp,
                sensor: rec.sensor,
                value: (rec.value * table[rec.sensor]) as i64,
            },
        )
    }
}

/// Classifies a decoded response: the reserved id and ids that the table does
/// not know give `Other`; a known id gives its reading, the raw value times
/// the sensor's scale, stamped with the record's time.
pub fn classify(table: &CalibrationTable, rec: RawRecord) -> (r: ArexxResult)
    ensures
        r == classify_spec(table@, rec),
{
    if rec.sensor == NO_SENSOR {
        return ArexxResult::Other;
    }
    match table.scale(rec.sensor) {
        None => ArexxResult::Other,
        Some(k) => {
            assert((rec.value as int) * (k as int) <= 65535 * 2147483648) by (nonlinear_arith)
                requires
                    0 <= rec.value <= 65535,
                    -2147483648 <= k <= 2147483647,
            ;
            assert((rec.value as int) * (k as int) >= -65535 * 2147483648) by (nonlinear_arith)
                requires
                    0 <= rec.value <= 65535,
                    -2147483648 <= k <= 2147483647,
            ;
            let value: i64 = rec.value as i64 * k as i64;
            ArexxResult::Temperature(
                TemperatureReading { timestamp: rec.timestamp, sensor: rec.sensor, value },
            )
        },
    }
}

/// A response whose sensor id the table does not know, other than the reserved
/// id, is classified as carrying no reading: never an error, never a reading.
pub proof fn lemma_unknown_sensor_is_other(table: Map<u16, i32>, frame: Seq<u8>)
    requires
        frame.len() == 64,
        record_of(frame).sensor != NO_SENSOR,
        !table.contains_key(record_of(frame).sensor),
    ensures
        classify_spec(table, record_of(frame)) == ArexxResult::Other,
{
}

/// A response from a sensor that the table knows, with scale `k` and raw value
/// `v`, is that sensor's reading with value `v * k`.
pub proof fn lemma_known_sensor_reading(table: Map<u16, i32>, frame: Seq<u8>)
    requires
        frame.len() == 64,
        record_of(frame).sensor != NO_SENSOR,
        table.contains_key(record_of(frame).sensor),
    ensures
        classify_spec(table, record_of(frame)) is Temperature,
        classify_spec(table, record_of(frame))->Temperature_0.sensor == record_of(frame).sensor,
        classify_spec(table, record_of(frame))->Temperature_0.value == record_of(frame).value
            * table[record_of(frame).sensor],
{
    let v = record_of(frame).value as int;
    let k = table[record_of(frame).sensor] as int;
    assert(v * k <= 65535 * 2147483648 && v * k >= -65535 * 2147483648) by (nonlinear_arith)
        requires
            0 <= v <= 65535,
            -2147483648 <= k <= 2147483647,
    ;
}

/// A response that carries the reserved sensor id never gives a reading,
/// whatever its value, its time and the table.
pub proof fn lemma_reserved_sensor_is_other(table: Map<u16, i32>, frame: Seq<u8>)
    requires
        frame.len() == 64,
        record_of(frame).sensor == NO_SENSOR,
    ensures
        classify_spec(table, record_of(frame)) == ArexxResult::Other,
{
}

/// What the polling engine remembers between polls: the last generation it
/// sent a handshake in, and the start time still to be used for the first one.
pub struct PollState {
    pub initialized: u64,
    pub start_time: Option<Timestamp>,
}

/// Whether a poll of the given session snapshot owes a handshake first.
pub open spec fn owes_handshake(s: PollState, generation: u64, attached: bool) -> bool {
    attached && generation != s.initialized
}

/// The time a handshake owed now would carry: the caller's start time while it
/// has not been used, the current time afterwards.
pub open spec fn handshake_time(s: PollState, now: Timestamp) -> Timestamp {
    match s.start_time {
        Some(t) => t,
        None => now,
    }
}

/// The engine's state once a poll has been planned: a start time is used by
/// the first handshake planned, whether or not that handshake goes through.
pub open spec fn after_plan(s: PollState, generation: u64, attached: bool) -> PollState {
    if owes_handshake(s, generation, attached) {
        PollState { initialized: s.initialized, start_time: None }
    } else {
        s
    }
}

/// The engine's state once a handshake in `generation` has gone through.
pub open spec fn after_handshake(s: PollState, generation: u64) -> PollState {
    PollState { initialized: generation, start_time: s.start_time }
}

/// The engine's state after a poll of an attached session in `generation` in
/// which every frame went through.
pub open spec fn after_poll(s: PollState, generation: u64) -> PollState {
    if owes_handshake(s, generation, true) {
        after_handshake(after_plan(s, generation, true), generation)
    } else {
        s
    }
}

/// The engine's state after successful polls in the generations `gens`, in order.
pub open spec fn run_polls(s: PollState, gens: Seq<u64>) -> PollState
    decreases gens.len(),
{
    if gens.len() == 0 {
        s
    } else {
        after_poll(run_polls(s, gens.drop_last()), gens.last())
    }
}

/// How many handshake frames successful polls in the generations `gens` send.
pub open spec fn handshakes_sent(s: PollState, gens: Seq<u64>) -> nat
    decreases gens.len(),
{
    if gens.len() == 0 {
        0
    } else {
        handshakes_sent(s, gens.drop_last()) + if owes_handshake(
            run_polls(s, gens.drop_last()),
            gens.last(),
            true,
        ) {
            1nat
        } else {
            0nat
        }
    }
}

/// `n` polls in one generation `g`.
pub open spec fn polls_in(g: u64, n: nat) -> Seq<u64> {
    Seq::new(n, |i: int| g)
}

proof fn lemma_run_split(s: PollState, a: Seq<u64>, b: Seq<u64>)
    ensures
        run_polls(s, a + b) == run_polls(run_polls(s, a), b),
        handshakes_sent(s, a + b) == handshakes_sent(s, a) + handshakes_sent(run_polls(s, a), b),
    decreases b.len(),
{
    if b.len() == 0 {
        assert(a + b =~= a);
    } else {
        lemma_run_split(s, a, b.drop_last());
        assert((a + b).drop_last() =~= a + b.drop_last());
        assert((a + b).last() == b.last());
    }
}

/// Any number of successful polls in one generation send exactly one
/// handshake, the first, unless one already went through in that generation;
/// afterwards the engine counts the generation as initialized.
pub proof fn lemma_one_handshake_per_generation(s: PollState, g: u64, n: nat)
    requires
        n > 0,
    ensures
        handshakes_sent(s, polls_in(g, n)) == if s.initialized != g {
            1nat
        } else {
            0nat
        },
        run_polls(s, polls_in(g, n)).initialized == g,
    decreases n,
{
    assert(polls_in(g, n).last() == g);
    if n > 1 {
        lemma_one_handshake_per_generation(s, g, (n - 1) as nat);
        assert(polls_in(g, n).drop_last() =~= polls_in(g, (n - 1) as nat));
    } else {
        assert(polls_in(g, n).drop_last() =~= Seq::<u64>::empty());
        assert(run_polls(s, Seq::<u64>::empty()) == s);
        assert(handshakes_sent(s, Seq::<u64>::empty()) == 0);
    }
}

/// Polls in a generation followed by polls in a new generation (the device
/// left and came back) send exactly one handshake more than the first polls
/// alone: the new generation's handshake comes before its first trigger.
pub proof fn lemma_reconnect_one_more_handshake(s: PollState, g1: u64, n1: nat, g2: u64, n2: nat)
    requires
        n1 > 0,
        n2 > 0,
        g1 != g2,
    ensures
        handshakes_sent(s, polls_in(g1, n1) + polls_in(g2, n2)) == handshakes_sent(
            s,
            polls_in(g1, n1),
        ) + 1,
{
    lemma_run_split(s, polls_in(g1, n1), polls_in(g2, n2));
    lemma_one_handshake_per_generation(s, g1, n1);
    lemma_one_handshake_per_generation(run_polls(s, polls_in(g1, n1)), g2, n2);
}

/// The caller's start time lasts until the first handshake: once any
/// handshake has been sent it is gone (every later one carries the current
/// time), and until then it is kept.
pub proof fn lemma_start_time_used_once(s: PollState, gens: Seq<u64>)
    ensures
        handshakes_sent(s, gens) > 0 ==> run_polls(s, gens).start_time is None,
        handshakes_sent(s, gens) == 0 ==> run_polls(s, gens).start_time == s.start_time,
    decreases gens.len(),
{
    if gens.len() > 0 {
        lemma_start_time_used_once(s, gens.drop_last());
    }
}

/// The frames to send for one poll.
#[derive(Clone, Copy, Debug)]
pub enum PollPlan {
    /// No device is attached: the poll ends here and sends nothing.
    Absent,
    /// Send the handshake, if there is one, then the trigger, then read the
    /// response.
    Exchange { handshake: Option<[u8; 64]>, trigger: [u8; 64] },
}

/// The request/response engine of the daemon: decides which frames a poll
/// sends and classifies what comes back.
#[derive(Debug)]
pub struct Arexx {
    start_time: Option<Timestamp>,
    connect_initialized: u64,
    pub sensor_config_lookup: CalibrationTable,
}

impl View for Arexx {
    type V = PollState;

    closed spec fn view(&self) -> PollState {
        PollState { initialized: self.connect_initialized, start_time: self.start_time }
    }
}

impl Arexx {
    /// The engine's calibration table.
    pub closed spec fn calibration(&self) -> Map<u16, i32> {
        self.sensor_config_lookup@
    }

    /// An engine for the sensors of `config`, that has sent no handshake yet
    /// and uses `start_time`, if given, for its first one.
    pub fn new(config: &ConfigFile, start_time: Option<Timestamp>) -> (r: Arexx)
        ensures
            r@ == (PollState { initialized: 0, start_time }),
            r.calibration() == resolved_scales(
                config.sensors@,
                fallback_scale(config.temperature_scaling),
            ),
    {
        let sensor_config_lookup = CalibrationTable::resolve(
            config.temperature_scaling,
            &config.sensors,
        );
        Arexx { start_time, connect_initialized: 0, sensor_config_lookup }
    }

    /// Plans a poll of a session snapshot (`generation`, and whether a device
    /// is attached), with `now` as the current time. A detached session sends
    /// nothing. An attached one sends the trigger, preceded by a handshake when
    /// none has gone through in this generation yet; a handshake whose time
    /// cannot be encoded fails the poll.
    pub fn plan_with_clock(&mut self, generation: u64, attached: bool, now: Timestamp) -> (r: Result<
        PollPlan,
        DateError,
    >)
        ensures
            final(self)@ == after_plan(old(self)@, generation, attached),
            final(self).calibration() == old(self).calibration(),
            match r {
                Ok(PollPlan::Absent) => !attached,
                Ok(PollPlan::Exchange { handshake, trigger }) => {
                    &&& attached
                    &&& trigger@ == trigger_frame_spec()
                    &&& match handshake {
                        None => !owes_handshake(old(self)@, generation, attached),
                        Some(f) => {
                            &&& owes_handshake(old(self)@, generation, attached)
                            &&& date_bytes_of(handshake_time(old(self)@, now)) is Ok
                            &&& f@ == handshake_frame_of(
                                date_bytes_of(handshake_time(old(self)@, now))->Ok_0,
                            )
                        },
                    }
                },
                Err(e) => {
                    &&& owes_handshake(old(self)@, generation, attached)
                    &&& date_bytes_of(handshake_time(old(self)@, now)) == Err::<
                        Seq<u8>,
                        DateError,
                    >(e)
                },
            },
    {
        if !attached {
            return Ok(PollPlan::Absent);
        }
        let handshake = if generation != self.connect_initialized {
            let start = match self.start_time {
                Some(t) => t,
                None => now,
            };
            self.start_time = None;
            match handshake_frame(start) {
                Ok(f) => Some(f),
                Err(e) => return Err(e),
            }
        } else {
            None
        };
        Ok(PollPlan::Exchange { handshake, trigger: trigger_frame() })
    }

    /// Plans a poll as `plan_with_clock` does, reading the current time from
    /// the system clock.
    pub fn plan(&mut self, generation: u64, attached: bool) -> (r: Result<PollPlan, DateError>)
        ensures
            final(self)@ == after_plan(old(self)@, generation, attached),
            final(self).calibration() == old(self).calibration(),
            match r {
                Ok(PollPlan::Absent) => !attached,
                Ok(PollPlan::Exchange { handshake, trigger }) => {
                    &&& attached
                    &&& trigger@ == trigger_frame_spec()
                    &&& (handshake is Some <==> owes_handshake(old(self)@, generation, attached))
                    &&& (handshake is Some && old(self)@.start_time is Some) ==> handshake->Some_0@
                        == handshake_frame_of(date_bytes_of(old(self)@.start_time->Some_0)->Ok_0)
                },
                Err(e) => {
                    &&& owes_handshake(old(self)@, generation, attached)
                    &&& old(self)@.start_time is Some ==> date_bytes_of(
                        old(self)@.start_time->Some_0,
                    ) == Err::<Seq<u8>, DateError>(e)
                },
            },
    {
        let now = local_now();
        self.plan_with_clock(generation, attached, now)
    }

    /// Records that the handshake planned for `generation` has gone through:
    /// later polls in that generation send no handshake.
    pub fn handshake_sent(&mut self, generation: u64)
        ensures
            final(self)@ == after_handshake(old(self)@, generation),
            final(self).calibration() == old(self).calibration(),
    {
        self.connect_initialized = generation;
    }

    /// Decodes and classifies the device's response frame.
    pub fn finish_poll(&self, frame: &[u8; 64]) -> (r: ArexxResult)
        ensures
            r == classify_spec(self.calibration(), record_of(frame@)),
    {
        classify(&self.sensor_config_lookup, decode_response(frame))
    }
}

} // verus!
