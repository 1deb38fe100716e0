use vstd::prelude::*;

use crate::error::GpioError;
use crate::port::{is_output_in, toggle_pin_result, toggled, Port};
use crate::port::lemma_toggle_twice;
use crate::register::{bit_at, lemma_bit_at_is_bit, lemma_write_then_read, with_bit};

verus! {

/// Number of ticks waited before the pins are configured, to let the line
/// settle after power-on.
pub const SETTLE_TICKS: u8 = 4;

/// Which pins carry the clock and the data.
#[derive(Debug, Clone, Copy, PartialEq, Eq, Structural)]
pub struct PinConfig {
    pub clock_pin: u8,
    pub data_pin: u8,
}

/// One observable step of a session, in the order it happened.
#[derive(Debug, Clone, Copy, PartialEq, Eq, Structural)]
pub enum Step {
    /// A snapshot of the port's registers for an observer.
    Report { data: u8, direction: u8 },
    /// One tick of delay.
    Wait,
    /// The start of an acknowledgment window, before a byte's first bit.
    Acknowledge,
    /// The DATA pin was driven to `value`.
    DataWrite { value: u8 },
    /// The CLOCK pin was flipped.
    ClockToggle,
}

/// Whether both pins of `cfg` are valid pin indices.
pub open spec fn pins_valid(cfg: PinConfig) -> bool {
    cfg.clock_pin < 8 && cfg.data_pin < 8
}

/// The steps of the settle phase: a report of the starting state, then the
/// settle ticks.
pub open spec fn settle_steps(data: u8, direction: u8) -> Seq<Step> {
    seq![Step::Report { data, direction }, Step::Wait, Step::Wait, Step::Wait, Step::Wait]
}

/// The direction byte once DATA and then CLOCK are made outputs.
pub open spec fn configured_direction(direction: u8, cfg: PinConfig) -> u8 {
    with_bit(with_bit(direction, cfg.data_pin, 1), cfg.clock_pin, 1)
}

/// The data byte after the acknowledgment toggle that precedes bit `i`,
/// which happens when `i` starts a byte.
pub open spec fn acked(data: u8, cfg: PinConfig, i: int) -> u8 {
    if i % 8 == 0 {
        toggled(data, cfg.clock_pin)
    } else {
        data
    }
}

/// The data byte after bit `i`, of value `bit`, was sent from `data`: the
/// acknowledgment toggle if any, DATA driven to `bit`, then the CLOCK strobe.
pub open spec fn after_bit(data: u8, cfg: PinConfig, i: int, bit: u8) -> u8 {
    toggled(with_bit(acked(data, cfg, i), cfg.data_pin, bit), cfg.clock_pin)
}

/// The data byte after the first `k` bits of `bits` were sent from `data`.
pub open spec fn data_after(data: u8, cfg: PinConfig, bits: Seq<u8>, k: int) -> u8
    decreases k,
{
    if k <= 0 {
        data
    } else {
        after_bit(data_after(data, cfg, bits, k - 1), cfg, k - 1, bits[k - 1])
    }
}

/// The steps of sending bit `i`, of value `bit`, ending with the data byte
/// `after` under the direction byte `direction`.
pub open spec fn bit_steps(i: int, bit: u8, after: u8, direction: u8) -> Seq<Step> {
    let ack = if i % 8 == 0 {
        seq![Step::Acknowledge, Step::ClockToggle, Step::Wait]
    } else {
        Seq::empty()
    };
    ack + seq![
        Step::DataWrite { value: bit },
        Step::ClockToggle,
        Step::Report { data: after, direction },
        Step::Wait,
    ]
}

/// The steps of sending the first `k` bits of `bits` from the data byte
/// `data` under the direction byte `direction`.
pub open spec fn transmit_steps(
    data: u8,
    direction: u8,
    cfg: PinConfig,
    bits: Seq<u8>,
    k: int,
) -> Seq<Step>
    decreases k,
{
    if k <= 0 {
        Seq::empty()
    } else {
        transmit_steps(data, direction, cfg, bits, k - 1) + bit_steps(
            k - 1,
            bits[k - 1],
            data_after(data, cfg, bits, k),
            direction,
        )
    }
}

/// Number of CLOCK toggles while the first `k` bits are sent: one strobe
/// per bit and one acknowledgment per byte started.
pub open spec fn clock_toggles(k: int) -> int {
    k + (k + 7) / 8
}

/// After the first `k` bits of `bits` are sent (CLOCK and DATA on distinct
/// pins): CLOCK has flipped once per toggle, DATA holds the last bit sent,
/// and every other pin keeps its level.
pub proof fn lemma_line_state(data: u8, cfg: PinConfig, bits: Seq<u8>, k: int, q: u8)
    requires
        pins_valid(cfg),
        cfg.clock_pin != cfg.data_pin,
        0 <= k <= bits.len(),
        forall|i: int| 0 <= i < bits.len() ==> #[trigger] bits[i] <= 1,
        q < 8,
    ensures
        bit_at(data_after(data, cfg, bits, k), cfg.clock_pin) == if clock_toggles(k) % 2 == 0 {
            bit_at(data, cfg.clock_pin)
        } else {
            (1 - bit_at(data, cfg.clock_pin)) as u8
        },
        k > 0 ==> bit_at(data_after(data, cfg, bits, k), cfg.data_pin) == bits[k - 1],
        q != cfg.clock_pin && q != cfg.data_pin ==> bit_at(data_after(data, cfg, bits, k), q)
            == bit_at(data, q),
    decreases k,
{
    if k > 0 {
        lemma_line_state(data, cfg, bits, k - 1, q);
        let d = data_after(data, cfg, bits, k - 1);
        let a = acked(d, cfg, k - 1);
        let w = with_bit(a, cfg.data_pin, bits[k - 1]);
        let c = cfg.clock_pin;
        let p = cfg.data_pin;
        lemma_bit_at_is_bit(data, c);
        lemma_bit_at_is_bit(d, c);
        lemma_toggle_twice(d, c);
        lemma_toggle_twice(w, c);
        lemma_write_then_read(d, c, (1 - bit_at(d, c)) as u8, p);
        lemma_write_then_read(d, c, (1 - bit_at(d, c)) as u8, q);
        lemma_write_then_read(a, p, bits[k - 1], c);
        lemma_write_then_read(a, p, bits[k - 1], p);
        lemma_write_then_read(a, p, bits[k - 1], q);
        lemma_bit_at_is_bit(w, c);
        lemma_write_then_read(w, c, (1 - bit_at(w, c)) as u8, p);
        lemma_write_then_read(w, c, (1 - bit_at(w, c)) as u8, q);
        assert(clock_toggles(k) == clock_toggles(k - 1) + 1 + if (k - 1) % 8 == 0 {
            1int
        } else {
            0int
        });
    }
}

/// Once configured, both the DATA and the CLOCK pin are outputs.
pub proof fn lemma_configured_pins_are_outputs(direction: u8, cfg: PinConfig)
    requires
        pins_valid(cfg),
    ensures
        is_output_in(configured_direction(direction, cfg), cfg.data_pin),
        is_output_in(configured_direction(direction, cfg), cfg.clock_pin),
{
    let d1 = with_bit(direction, cfg.data_pin, 1);
    lemma_write_then_read(direction, cfg.data_pin, 1, cfg.data_pin);
    lemma_write_then_read(d1, cfg.clock_pin, 1, cfg.clock_pin);
    lemma_write_then_read(d1, cfg.clock_pin, 1, cfg.data_pin);
}

/// Flips the CLOCK pin.
pub fn toggle_clock(port: &mut Port, cfg: &PinConfig) -> (r: Result<(), GpioError>)
    ensures
        r == toggle_pin_result(old(port).direction@, cfg.clock_pin),
        final(port).direction@ == old(port).direction@,
        r is Ok ==> final(port).data@ == toggled(old(port).data@, cfg.clock_pin),
        r is Err ==> final(port).data@ == old(port).data@,
{
    port.toggle_pin(cfg.clock_pin)
}

/// Reports the starting state, waits the settle ticks, then makes the DATA
/// and the CLOCK pin outputs, in that order. Stops at the first invalid pin.
pub fn initialise(port: &mut Port, cfg: &PinConfig, trace: &mut Vec<Step>) -> (r: Result<
    (),
    GpioError,
>)
    ensures
        r == if pins_valid(*cfg) {
            Ok::<(), GpioError>(())
        } else {
            Err::<(), GpioError>(GpioError::InvalidPin)
        },
        final(trace)@ == old(trace)@ + settle_steps(old(port).data@, old(port).direction@),
        final(port).data@ == old(port).data@,
        r is Ok ==> final(port).direction@ == configured_direction(old(port).direction@, *cfg),
        r is Err ==> final(port).direction@ == if cfg.data_pin < 8 {
            with_bit(old(port).direction@, cfg.data_pin, 1)
        } else {
            old(port).direction@
        },
{
    let ghost t0 = trace@;
    trace.push(Step::Report { data: port.data.value(), direction: port.direction.value() });
    let mut n: u8 = 0;
    while n < SETTLE_TICKS
        invariant
            n <= SETTLE_TICKS,
            trace@ == t0 + settle_steps(old(port).data@, old(port).direction@).take(1 + n),
            port.data@ == old(port).data@,
            port.direction@ == old(port).direction@,
        decreases SETTLE_TICKS - n,
    {
        trace.push(Step::Wait);
        n = n + 1;
        assert(settle_steps(old(port).data@, old(port).direction@).take(1 + n) =~= settle_steps(
            old(port).data@,
            old(port).direction@,
        ).take(1 + n - 1).push(Step::Wait));
    }
    assert(settle_steps(old(port).data@, old(port).direction@).take(5) =~= settle_steps(
        old(port).data@,
        old(port).direction@,
    ));
    match port.configure_direction(cfg.data_pin, true) {
        Ok(()) => {},
        Err(e) => {
            return Err(e);
        },
    }
    port.configure_direction(cfg.clock_pin, true)
}

/// Sends every bit of `buffer` over a port whose DATA and CLOCK pins are
/// already outputs: an acknowledgment toggle before each byte, then per bit
/// DATA driven, CLOCK strobed, a report and a tick.
fn transmit(port: &mut Port, cfg: &PinConfig, buffer: &Vec<u8>, trace: &mut Vec<Step>)
    requires
        pins_valid(*cfg),
        is_output_in(old(port).direction@, cfg.data_pin),
        is_output_in(old(port).direction@, cfg.clock_pin),
        forall|i: int| 0 <= i < buffer@.len() ==> #[trigger] buffer@[i] <= 1,
    ensures
        final(port).direction@ == old(port).direction@,
        final(port).data@ == data_after(old(port).data@, *cfg, buffer@, buffer@.len() as int),
        final(trace)@ == old(trace)@ + transmit_steps(
            old(port).data@,
            old(port).direction@,
            *cfg,
            buffer@,
            buffer@.len() as int,
        ),
{
    let ghost d0 = port.data@;
    let ghost dir = port.direction@;
    let ghost t0 = trace@;
    let mut i: usize = 0;
    while i < buffer.len()
        invariant
            pins_valid(*cfg),
            i <= buffer@.len(),
            forall|j: int| 0 <= j < buffer@.len() ==> #[trigger] buffer@[j] <= 1,
            port.direction@ == dir,
            is_output_in(dir, cfg.data_pin),
            is_output_in(dir, cfg.clock_pin),
            port.data@ == data_after(d0, *cfg, buffer@, i as int),
            trace@ == t0 + transmit_steps(d0, dir, *cfg, buffer@, i as int),
        decreases buffer@.len() - i,
    {
        let ghost before = trace@;
        let bit: u8 = buffer[i];
        if i % 8 == 0 {
            trace.push(Step::Acknowledge);
            match toggle_clock(port, cfg) {
                Ok(()) => {},
                Err(_) => {
                    assert(false);
                },
            }
            trace.push(Step::ClockToggle);
            trace.push(Step::Wait);
        }
        match port.write_pin(cfg.data_pin, bit) {
            Ok(()) => {},
            Err(_) => {
                assert(false);
            },
        }
        trace.push(Step::DataWrite { value: bit });
        match toggle_clock(port, cfg) {
            Ok(()) => {},
            Err(_) => {
                assert(false);
            },
        }
        trace.push(Step::ClockToggle);
        trace.push(Step::Report { data: port.data.value(), direction: port.direction.value() });
        trace.push(Step::Wait);
        assert(trace@ =~= before + bit_steps(i as int, bit, port.data@, dir));
        i = i + 1;
    }
}

/// Runs one transmission session: [`initialise`], then every bit of
/// `buffer` in order. Every step is appended to `trace`. Stops at the first
/// invalid pin of `cfg`, leaving the port as it then stands.
pub fn send_buffer(port: &mut Port, cfg: &PinConfig, buffer: &Vec<u8>, trace: &mut Vec<Step>) -> (r:
    Result<(), GpioError>)
    requires
        forall|i: int| 0 <= i < buffer@.len() ==> #[trigger] buffer@[i] <= 1,
    ensures
        r == if pins_valid(*cfg) {
            Ok::<(), GpioError>(())
        } else {
            Err::<(), GpioError>(GpioError::InvalidPin)
        },
        r is Err ==> final(port).data@ == old(port).data@,
        r is Err ==> final(port).direction@ == if cfg.data_pin < 8 {
            with_bit(old(port).direction@, cfg.data_pin, 1)
        } else {
            old(port).direction@
        },
        r is Err ==> final(trace)@ == old(trace)@ + settle_steps(
            old(port).data@,
            old(port).direction@,
        ),
        r is Ok ==> final(port).direction@ == configured_direction(old(port).direction@, *cfg),
        r is Ok ==> final(port).data@ == data_after(
            old(port).data@,
            *cfg,
            buffer@,
            buffer@.len() as int,
        ),
        r is Ok ==> final(trace)@ == old(trace)@ + settle_steps(
            old(port).data@,
            old(port).direction@,
        ) + transmit_steps(
            old(port).data@,
            configured_direction(old(port).direction@, *cfg),
            *cfg,
            buffer@,
            buffer@.len() as int,
        ),
{
    match initialise(port, cfg, trace) {
        Ok(()) => {},
        Err(e) => {
            return Err(e);
        },
    }
    proof {
        lemma_configured_pins_are_outputs(old(port).direction@, *cfg);
    }
    transmit(port, cfg, buffer, trace);
    Ok(())
}

} // verus!
