use vstd::prelude::*;
use vstd::arithmetic::div_mod::lemma_div_denominator;

verus! {

/// The timer counts CPU cycles divided by this prescaler.
pub const PRESCALE: u32 = 64;

/// Rate of the timer interrupt, in Hz: the CHIP-8 timers run at 60 Hz.
pub const TICK_HZ: u32 = 60;

/// CPU cycles taken by one pass of the busy loop of `sleep_ms`.
pub const CYCLES_PER_INNER_LOOP: u16 = 6;

/// The compare value that makes the timer fire `TICK_HZ` times a second at
/// `cpu_hz`, cut to the 16 bits of the compare register.
pub open spec fn compare_value_spec(cpu_hz: u32) -> int {
    (cpu_hz / PRESCALE / TICK_HZ) as int % 0x10000
}

/// Passes of the busy loop that make up one millisecond at `cpu_hz`; the
/// cycles per millisecond are cut to 16 bits first.
pub open spec fn inner_iterations_spec(cpu_hz: u32) -> int {
    ((cpu_hz / 1000) as int % 0x10000) / CYCLES_PER_INNER_LOOP as int
}

/// The compare value is the number of whole prescaled timer periods that fit
/// in one tick: `r` ticks of `PRESCALE * TICK_HZ` cycles fill at most a second
/// of the clock, `r + 1` more than one; past the 16 bits of the register it is
/// the count of whole periods cut to 16 bits.
pub proof fn law_compare_value_is_one_tick(cpu_hz: u32)
    ensures
        compare_value_spec(cpu_hz) == (cpu_hz as int / (PRESCALE * TICK_HZ) as int) % 0x10000,
        cpu_hz < 0x10000 * (PRESCALE * TICK_HZ) ==> {
            let r = compare_value_spec(cpu_hz);
            r * (PRESCALE * TICK_HZ) <= cpu_hz < (r + 1) * (PRESCALE * TICK_HZ)
        },
{
    lemma_div_denominator(cpu_hz as int, PRESCALE as int, TICK_HZ as int);
    assert((cpu_hz / PRESCALE / TICK_HZ) as int == (cpu_hz as int / PRESCALE as int) / TICK_HZ as int);
}

/// The value for the timer's compare register.
pub fn timer_compare_value(cpu_hz: u32) -> (r: u16)
    ensures
        r == compare_value_spec(cpu_hz),
        r == (cpu_hz as int / (PRESCALE * TICK_HZ) as int) % 0x10000,
        cpu_hz < 0x10000 * (PRESCALE * TICK_HZ) ==> r * (PRESCALE * TICK_HZ) <= cpu_hz < (r + 1) * (
        PRESCALE * TICK_HZ),
{
    proof {
        law_compare_value_is_one_tick(cpu_hz);
    }
    let q: u32 = cpu_hz / PRESCALE / TICK_HZ;
    let r = q as u16;
    assert(r == q % 0x10000) by (bit_vector)
        requires
            r == q as u16,
    ;
    r
}

/// The passes of the busy loop fill one millisecond, as far as whole passes
/// go: with `c` the cycles per millisecond cut to 16 bits, `r` passes take at
/// most `c` cycles and `r + 1` passes more.
pub proof fn law_inner_iterations_fill_a_millisecond(cpu_hz: u32)
    ensures
        ({
            let c = (cpu_hz as int / 1000) % 0x10000;
            let r = inner_iterations_spec(cpu_hz);
            r * CYCLES_PER_INNER_LOOP <= c < (r + 1) * CYCLES_PER_INNER_LOOP
        }),
{
}

/// How many passes of the busy loop `sleep_ms` makes per millisecond.
pub fn sleep_inner_iterations(cpu_hz: u32) -> (r: u16)
    ensures
        r == inner_iterations_spec(cpu_hz),
        r * CYCLES_PER_INNER_LOOP <= (cpu_hz as int / 1000) % 0x10000 < (r + 1) * CYCLES_PER_INNER_LOOP,
{
    proof {
        law_inner_iterations_fill_a_millisecond(cpu_hz);
    }
    let q: u32 = cpu_hz / 1000;
    let cycles_per_ms = q as u16;
    assert(cycles_per_ms == q % 0x10000) by (bit_vector)
        requires
            cycles_per_ms == q as u16,
    ;
    cycles_per_ms / CYCLES_PER_INNER_LOOP
}

/// Reads `avr_config::CPU_FREQUENCY_HZ`, the CPU clock the crate was built for.
/// Nothing is stated of the value: on AVR it comes from the
/// `AVR_CPU_FREQUENCY_HZ` variable of the build environment, elsewhere the
/// crate sets 16 MHz.
#[verifier::external_body]
fn cpu_frequency_hz() -> (hz: u32) {
    avr_config::CPU_FREQUENCY_HZ
}

/// The clock-derived settings of the board.
pub struct ClockSettings {
    /// The CPU clock, in Hz.
    pub cpu_frequency_hz: u32,
    /// The compare value of the 60 Hz timer.
    pub timer_compare: u16,
    /// Passes of the busy loop per millisecond of `sleep_ms`.
    pub sleep_inner_iterations: u16,
}

/// The timer and delay settings for a CPU clock of `cpu_hz`.
pub fn clock_settings_for(cpu_hz: u32) -> (s: ClockSettings)
    ensures
        s.cpu_frequency_hz == cpu_hz,
        s.timer_compare == compare_value_spec(cpu_hz),
        s.timer_compare == (cpu_hz as int / (PRESCALE * TICK_HZ) as int) % 0x10000,
        s.sleep_inner_iterations == inner_iterations_spec(cpu_hz),
        s.sleep_inner_iterations * CYCLES_PER_INNER_LOOP <= (cpu_hz as int / 1000) % 0x10000 < (
        s.sleep_inner_iterations + 1) * CYCLES_PER_INNER_LOOP,
{
    ClockSettings {
        cpu_frequency_hz: cpu_hz,
        timer_compare: timer_compare_value(cpu_hz),
        sleep_inner_iterations: sleep_inner_iterations(cpu_hz),
    }
}

/// The timer and delay settings for the CPU clock the crate was built for.
pub fn clock_settings() -> (s: ClockSettings)
    ensures
        s.timer_compare == compare_value_spec(s.cpu_frequency_hz),
        s.timer_compare == (s.cpu_frequency_hz as int / (PRESCALE * TICK_HZ) as int) % 0x10000,
        s.sleep_inner_iterations == inner_iterations_spec(s.cpu_frequency_hz),
        s.sleep_inner_iterations * CYCLES_PER_INNER_LOOP <= (s.cpu_frequency_hz as int / 1000)
            % 0x10000 < (s.sleep_inner_iterations + 1) * CYCLES_PER_INNER_LOOP,
{
    let hz = cpu_frequency_hz();
    clock_settings_for(hz)
}

} // verus!
