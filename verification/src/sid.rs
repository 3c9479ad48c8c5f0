//! MOS 6581/8580 SID, the C64's 3-voice sound chip at $D400.
//!
//! Each of the three voices is a phase-accumulator oscillator (triangle,
//! sawtooth, pulse, noise) shaped by an ADSR envelope; the three are mixed and
//! scaled by the master volume. Clock it alongside the CPU with [`Sid::clock`],
//! then read the mixed output with [`Sid::output`] at your audio sample rate.
//!
//! This is a recognizable, compact SID, good enough to hear tunes and effects.
//! It is not cycle-exact, and the analog filter ($D415-$D417) is not modeled
//! (voices pass through unfiltered).

use vstd::prelude::*;

verus! {

/// PAL SID master clock (Hz). NTSC is 1_022_727.
pub const CLOCK_PAL: u32 = 985_248;

/// The loudest mix: three voices of 2048 at volume 15. [`Sid::output`] divided
/// by this lies in `-1..1`.
pub const FULL_SCALE: i32 = 92_160;

/// Where an envelope is.
#[derive(Debug, Clone, Copy, PartialEq, Eq, Structural)]
pub enum EnvState {
    Attack,
    Decay,
    Sustain,
    Release,
}

/// The ADSR envelope generator for one voice.
#[derive(Debug, Clone, Copy)]
pub struct Envelope {
    pub state: EnvState,
    /// Current level 0..255.
    pub value: u8,
    /// Counts up to the selected rate's period.
    pub rate: u16,
    /// Sub-counter for the curved decay and release.
    pub exp: u8,
    pub exp_period: u8,
    // 4-bit rate selectors, and the 4-bit sustain level.
    pub attack: u8,
    pub decay: u8,
    pub sustain: u8,
    pub release: u8,
    pub gate: bool,
}

/// One SID voice: oscillator + waveform selector + envelope.
#[derive(Debug, Clone, Copy)]
pub struct Voice {
    pub freq: u16,
    /// 12 bits.
    pub pulse_width: u16,
    /// bit0 gate, bit1 sync, bit2 ring, bit3 test, bits4-7 waveform
    pub control: u8,
    /// 24-bit accumulator.
    pub phase: u32,
    /// 23-bit shift register.
    pub noise: u32,
    pub env: Envelope,
}

/// The SID chip.
#[derive(Clone)]
pub struct Sid {
    pub voices: [Voice; 3],
    /// Master volume, $D418 low nibble (0..15).
    pub volume: u8,
}

// ---- the envelope ----

/// Envelope rate-counter periods by the 4-bit attack/decay/release value: the
/// number of SID clocks between envelope steps.
pub open spec fn rate_period_of(sel: u8) -> u16 {
    match sel {
        0 => 9, 1 => 32, 2 => 63, 3 => 95, 4 => 149, 5 => 220, 6 => 267, 7 => 313,
        8 => 392, 9 => 977, 10 => 1954, 11 => 3126, 12 => 3907, 13 => 11720, 14 => 19532,
        _ => 31251,
    }
}

/// As the level falls through these values, steps get rarer: the SID's curved
/// decay and release.
pub open spec fn exp_period_at(value: u8, current: u8) -> u8 {
    match value {
        255 => 1,
        93 => 2,
        54 => 4,
        26 => 8,
        14 => 16,
        6 => 30,
        0 => 1,
        _ => current,
    }
}

/// What every reachable envelope keeps.
pub open spec fn envelope_sound(e: Envelope) -> bool {
    &&& e.rate < 31251
    &&& e.exp < 30
    &&& 1 <= e.exp_period <= 30
    &&& e.attack < 16 && e.decay < 16 && e.sustain < 16 && e.release < 16
}

/// An idle envelope.
pub open spec fn envelope_idle() -> Envelope {
    Envelope {
        state: EnvState::Release, value: 0, rate: 0, exp: 0, exp_period: 1,
        attack: 0, decay: 0, sustain: 0, release: 0, gate: false,
    }
}

/// The voice is gated on or off: on starts the attack, off the release.
pub open spec fn gated(e: Envelope, on: bool) -> Envelope {
    if on && !e.gate {
        Envelope { state: EnvState::Attack, exp_period: 1, gate: on, ..e }
    } else if !on && e.gate {
        Envelope {
            state: EnvState::Release,
            exp_period: exp_period_at(e.value, e.exp_period),
            gate: on,
            ..e
        }
    } else {
        e
    }
}

/// The rate that counts in the envelope's state.
pub open spec fn selected(e: Envelope) -> u8 {
    match e.state {
        EnvState::Attack => e.attack,
        EnvState::Decay => e.decay,
        EnvState::Release => e.release,
        EnvState::Sustain => e.release,
    }
}

/// One step of the level: up in the attack, down to the sustain level in the
/// decay, down to silence in the release.
pub open spec fn level_stepped(e: Envelope) -> Envelope {
    match e.state {
        EnvState::Attack => {
            let value = if e.value < 255 { (e.value + 1) as u8 } else { 255 };
            if value == 255 {
                Envelope { value, state: EnvState::Decay, exp_period: 1, ..e }
            } else {
                Envelope { value, ..e }
            }
        },
        EnvState::Decay => if e.value > e.sustain * 17 {
            let value = (e.value - 1) as u8;
            Envelope { value, exp_period: exp_period_at(value, e.exp_period), ..e }
        } else {
            Envelope { state: EnvState::Sustain, ..e }
        },
        EnvState::Release => if e.value > 0 {
            let value = (e.value - 1) as u8;
            Envelope { value, exp_period: exp_period_at(value, e.exp_period), ..e }
        } else {
            e
        },
        EnvState::Sustain => e,
    }
}

/// One clock: a step each time the rate counter runs through, and in the decay
/// and release only each `exp_period`-th time.
pub open spec fn envelope_clocked(e: Envelope) -> Envelope {
    if e.state == EnvState::Sustain {
        e
    } else if e.rate + 1 < rate_period_of(selected(e)) {
        Envelope { rate: (e.rate + 1) as u16, ..e }
    } else if e.state == EnvState::Attack {
        level_stepped(Envelope { rate: 0, ..e })
    } else if e.exp + 1 < e.exp_period {
        Envelope { rate: 0, exp: (e.exp + 1) as u8, ..e }
    } else {
        level_stepped(Envelope { rate: 0, exp: 0, ..e })
    }
}

// ---- the oscillator ----

/// What every reachable voice keeps.
pub open spec fn voice_sound(v: Voice) -> bool {
    &&& v.pulse_width < 0x1000
    &&& v.phase < 0x100_0000
    &&& v.noise < 0x80_0000
    &&& envelope_sound(v.env)
}

/// A voice after power-on.
pub open spec fn voice_idle() -> Voice {
    Voice {
        freq: 0, pulse_width: 0, control: 0, phase: 0, noise: 0x7FFFFF, env: envelope_idle(),
    }
}

/// The shift register after one step: bits 22 and 17 feed back into bit 0.
pub open spec fn noise_stepped(n: u32) -> u32 {
    ((n * 2 + (n / 0x40_0000 + n / 0x2_0000) % 2) % 0x80_0000) as u32
}

/// One clock. The test bit holds the oscillator at zero; otherwise the phase
/// advances by the frequency, and the noise steps when bit 19 goes high.
pub open spec fn voice_clocked(v: Voice) -> Voice {
    let env = envelope_clocked(v.env);
    if v.control & 0x08 != 0 {
        Voice { phase: 0, env, ..v }
    } else {
        let phase = ((v.phase + v.freq) % 0x100_0000) as u32;
        let rises = v.phase / 0x8_0000 % 2 == 0 && phase / 0x8_0000 % 2 == 1;
        Voice { phase, noise: if rises { noise_stepped(v.noise) } else { v.noise }, env, ..v }
    }
}

/// The triangle wave: up in the first half of a period, down in the second.
pub open spec fn triangle_wave(phase: u32) -> u16 {
    let t = phase as int / 0x800 % 0x1000;
    (if phase >= 0x80_0000 { 0xFFF - t } else { t }) as u16
}

/// The sawtooth wave: the top of the accumulator.
pub open spec fn sawtooth_wave(phase: u32) -> u16 {
    (phase / 0x1000 % 0x1000) as u16
}

/// The pulse wave: high from the pulse width on.
pub open spec fn pulse_wave(phase: u32, pulse_width: u16) -> u16 {
    if sawtooth_wave(phase) >= pulse_width { 0xFFF } else { 0 }
}

/// The noise wave: eight bits of the shift register.
pub open spec fn noise_wave(n: u32) -> u16 {
    (n as int / 0x40_0000 % 2 * 0x800 + n as int / 0x10_0000 % 2 * 0x400
        + n as int / 0x1_0000 % 2 * 0x200 + n as int / 0x2000 % 2 * 0x100
        + n as int / 0x800 % 2 * 0x80 + n as int / 0x80 % 2 * 0x40
        + n as int / 0x10 % 2 * 0x20 + n as int / 4 % 2 * 0x10) as u16
}

/// A wave that counts only when it is selected; unselected, it is all ones.
pub open spec fn selected_wave(on: bool, wave: u16) -> u16 {
    if on { wave } else { 0xFFF }
}

/// 12-bit oscillator output before the envelope: the selected waves and-ed
/// together, nothing where none is selected.
pub open spec fn wave_of(v: Voice) -> u16 {
    let wf = v.control / 16;
    if wf == 0 {
        0
    } else {
        selected_wave(wf % 2 == 1, triangle_wave(v.phase))
            & selected_wave(wf / 2 % 2 == 1, sawtooth_wave(v.phase))
            & selected_wave(wf / 4 % 2 == 1, pulse_wave(v.phase, v.pulse_width))
            & selected_wave(wf / 8 % 2 == 1, noise_wave(v.noise))
    }
}

/// Division that rounds towards zero.
pub open spec fn div_to_zero(n: int, d: int) -> int {
    if n >= 0 { n / d } else { -((-n) / d) }
}

/// Envelope-shaped, centered sample of a voice.
pub open spec fn voice_level(v: Voice) -> int {
    div_to_zero((wave_of(v) - 0x800) * v.env.value, 256)
}

// ---- the chip ----

pub open spec fn sid_sound(s: Sid) -> bool {
    &&& voice_sound(s.voices[0]) && voice_sound(s.voices[1]) && voice_sound(s.voices[2])
    &&& s.volume < 16
}

pub open spec fn power_on(s: Sid) -> bool {
    &&& s.voices[0] == voice_idle() && s.voices[1] == voice_idle() && s.voices[2] == voice_idle()
    &&& s.volume == 0
}

/// The chip with voice `k` replaced.
pub open spec fn with_voice(s: Sid, k: int, v: Voice) -> Sid {
    Sid { voices: vstd::array::spec_array_update(s.voices, k, v), ..s }
}

/// The chip after one clock.
pub open spec fn clocked_once(s: Sid) -> Sid {
    let s0 = with_voice(s, 0, voice_clocked(s.voices[0]));
    let s1 = with_voice(s0, 1, voice_clocked(s.voices[1]));
    with_voice(s1, 2, voice_clocked(s.voices[2]))
}

/// The chip after `n` clocks.
pub open spec fn clocked(s: Sid, n: nat) -> Sid
    decreases n,
{
    if n == 0 { s } else { clocked_once(clocked(s, (n - 1) as nat)) }
}

/// A voice after its register `r` (0 to 6) was written.
pub open spec fn voice_written(v: Voice, r: int, val: u8) -> Voice {
    if r == 0 { Voice { freq: (v.freq / 256 * 256 + val) as u16, ..v } }
    else if r == 1 { Voice { freq: (v.freq % 256 + 256 * val) as u16, ..v } }
    else if r == 2 { Voice { pulse_width: (v.pulse_width / 256 % 16 * 256 + val) as u16, ..v } }
    else if r == 3 { Voice { pulse_width: (v.pulse_width % 256 + 256 * (val % 16)) as u16, ..v } }
    else if r == 4 { Voice { control: val, env: gated(v.env, val % 2 == 1), ..v } }
    else if r == 5 { Voice { env: Envelope { attack: val / 16, decay: val % 16, ..v.env }, ..v } }
    else { Voice { env: Envelope { sustain: val / 16, release: val % 16, ..v.env }, ..v } }
}

/// The chip after a register was written: seven per voice, then the filter
/// (not modeled) and the master volume.
pub open spec fn after_write(s: Sid, reg: u8, val: u8) -> Sid {
    let r = reg as int % 32;
    if r < 21 {
        with_voice(s, r / 7, voice_written(s.voices[r / 7], r % 7, val))
    } else if r == 0x18 {
        Sid { volume: val % 16, ..s }
    } else {
        s
    }
}

/// The byte a register reads as: voice 3's oscillator and envelope, else open
/// bus.
pub open spec fn register(s: Sid, reg: u8) -> u8 {
    let r = reg as int % 32;
    if r == 0x1B { (wave_of(s.voices[2]) / 16) as u8 }
    else if r == 0x1C { s.voices[2].env.value }
    else { 0 }
}

/// The sum of the three voices.
pub open spec fn mixed(s: Sid) -> int {
    voice_level(s.voices[0]) + voice_level(s.voices[1]) + voice_level(s.voices[2])
}

// ---- the executable chip ----

fn rate_period(sel: u8) -> (p: u16)
    ensures
        p == rate_period_of(sel),
{
    match sel {
        0 => 9, 1 => 32, 2 => 63, 3 => 95, 4 => 149, 5 => 220, 6 => 267, 7 => 313,
        8 => 392, 9 => 977, 10 => 1954, 11 => 3126, 12 => 3907, 13 => 11720, 14 => 19532,
        _ => 31251,
    }
}

impl Envelope {
    fn new() -> (e: Self)
        ensures
            e == envelope_idle(),
    {
        Envelope {
            state: EnvState::Release, value: 0, rate: 0, exp: 0, exp_period: 1,
            attack: 0, decay: 0, sustain: 0, release: 0, gate: false,
        }
    }

    fn set_gate(&mut self, on: bool)
        ensures
            *final(self) == gated(*old(self), on),
    {
        if on && !self.gate {
            self.state = EnvState::Attack;
            self.exp_period = 1; // attack is linear
        } else if !on && self.gate {
            self.state = EnvState::Release;
            self.update_exp_period();
        }
        self.gate = on;
    }

    fn selected_rate(&self) -> (r: u8)
        ensures
            r == selected(*self),
    {
        match self.state {
            EnvState::Attack => self.attack,
            EnvState::Decay => self.decay,
            EnvState::Release => self.release,
            EnvState::Sustain => self.release, // idle
        }
    }

    fn update_exp_period(&mut self)
        ensures
            *final(self) == (Envelope {
                exp_period: exp_period_at(old(self).value, old(self).exp_period), ..*old(self)
            }),
    {
        self.exp_period = match self.value {
            255 => 1,
            93 => 2,
            54 => 4,
            26 => 8,
            14 => 16,
            6 => 30,
            0 => 1,
            _ => self.exp_period,
        };
    }

    fn clock(&mut self)
        requires
            envelope_sound(*old(self)),
        ensures
            *final(self) == envelope_clocked(*old(self)),
            envelope_sound(*final(self)),
    {
        if self.state == EnvState::Sustain {
            return;
        }
        self.rate += 1;
        if self.rate < rate_period(self.selected_rate()) {
            return;
        }
        self.rate = 0;

        // Attack rises linearly; decay/release fall on the exponential schedule.
        if self.state != EnvState::Attack {
            self.exp += 1;
            if self.exp < self.exp_period {
                return;
            }
            self.exp = 0;
        }

        match self.state {
            EnvState::Attack => {
                self.value = self.value.saturating_add(1);
                if self.value == 0xFF {
                    self.state = EnvState::Decay;
                    self.update_exp_period();
                }
            },
            EnvState::Decay => {
                let sustain_level = self.sustain * 17; // 0..255
                if self.value > sustain_level {
                    self.value -= 1;
                    self.update_exp_period();
                } else {
                    self.state = EnvState::Sustain;
                }
            },
            EnvState::Release => {
                if self.value > 0 {
                    self.value -= 1;
                    self.update_exp_period();
                }
            },
            EnvState::Sustain => {},
        }
    }
}

impl Voice {
    fn new() -> (v: Self)
        ensures
            v == voice_idle(),
    {
        Voice {
            freq: 0, pulse_width: 0, control: 0, phase: 0, noise: 0x7FFFFF, env: Envelope::new(),
        }
    }

    fn clock(&mut self)
        requires
            voice_sound(*old(self)),
        ensures
            *final(self) == voice_clocked(*old(self)),
            voice_sound(*final(self)),
    {
        if self.control & 0x08 != 0 {
            // Test bit held: oscillator reset.
            self.phase = 0;
        } else {
            let before = self.phase;
            self.phase = (self.phase + self.freq as u32) % 0x100_0000;
            // Clock the noise LFSR when accumulator bit 19 goes high.
            if before / 0x8_0000 % 2 == 0 && self.phase / 0x8_0000 % 2 == 1 {
                let n = self.noise;
                self.noise = (n * 2 + (n / 0x40_0000 + n / 0x2_0000) % 2) % 0x80_0000;
            }
        }
        self.env.clock();
    }

    /// 12-bit oscillator output before the envelope.
    fn waveform(&self) -> (w: u16)
        ensures
            w == wave_of(*self),
            w <= 0xFFF,
    {
        let wf = self.control / 16;
        if wf == 0 {
            return 0;
        }
        let t = (self.phase / 0x800 % 0x1000) as u16;
        let triangle = if self.phase >= 0x80_0000 { 0xFFF - t } else { t };
        let sawtooth = (self.phase / 0x1000 % 0x1000) as u16;
        let pulse: u16 = if sawtooth >= self.pulse_width { 0xFFF } else { 0 };
        // Noise: 8 bits picked from the LFSR, spread across the 12-bit range.
        let n = self.noise;
        let noise: u16 = (n / 0x40_0000 % 2 * 0x800 + n / 0x10_0000 % 2 * 0x400
            + n / 0x1_0000 % 2 * 0x200 + n / 0x2000 % 2 * 0x100
            + n / 0x800 % 2 * 0x80 + n / 0x80 % 2 * 0x40
            + n / 0x10 % 2 * 0x20 + n / 4 % 2 * 0x10) as u16;
        let w1 = if wf % 2 == 1 { triangle } else { 0xFFF };
        let w2 = if wf / 2 % 2 == 1 { sawtooth } else { 0xFFF };
        let w3 = if wf / 4 % 2 == 1 { pulse } else { 0xFFF };
        let w4 = if wf / 8 % 2 == 1 { noise } else { 0xFFF };
        proof {
            lemma_and_bounded(w1, w2, w3, w4);
        }
        w1 & w2 & w3 & w4
    }

    /// Envelope-shaped, centered sample for this voice (-2048..2047).
    fn output(&self) -> (r: i32)
        ensures
            r == voice_level(*self),
            -2040 <= r <= 2040,
    {
        let centered = self.waveform() as i32 - 0x800;
        let level = self.env.value as i32;
        proof {
            lemma_level_bounded(centered as int, level as int);
        }
        if centered >= 0 {
            centered * level / 256
        } else {
            -((-centered) * level / 256)
        }
    }
}

/// And-ing never raises a value.
proof fn lemma_and_bounded(a: u16, b: u16, c: u16, d: u16)
    by (bit_vector)
    requires
        a <= 0xFFF,
    ensures
        a & b & c & d <= 0xFFF,
{
}

/// An envelope scales a centered sample down.
proof fn lemma_level_bounded(c: int, level: int)
    requires
        -2048 <= c <= 2047,
        0 <= level <= 255,
    ensures
        c >= 0 ==> 0 <= c * level <= 2047 * 255 && c * level / 256 <= 2040,
        c < 0 ==> 0 <= (-c) * level <= 2048 * 255 && (-c) * level / 256 <= 2040,
        (-c) * level == -(c * level),
        c >= 0 || level == 0 <==> c * level >= 0,
        -2040 <= div_to_zero(c * level, 256) <= 2040,
{
    assert((-c) * level == -(c * level)) by (nonlinear_arith);
    if c >= 0 {
        assert(0 <= c * level <= 2047 * 255) by (nonlinear_arith)
            requires 0 <= c <= 2047, 0 <= level <= 255;
    } else {
        assert(0 <= (-c) * level <= 2048 * 255) by (nonlinear_arith)
            requires -2048 <= c < 0, 0 <= level <= 255;
        assert(level > 0 ==> c * level < 0) by (nonlinear_arith)
            requires c < 0;
    }
}

impl Default for Sid {
    fn default() -> (s: Self)
        ensures
            power_on(s),
            sid_sound(s),
    {
        Sid { voices: [Voice::new(), Voice::new(), Voice::new()], volume: 0 }
    }
}

impl Sid {
    pub fn new() -> (s: Self)
        ensures
            power_on(s),
            sid_sound(s),
    {
        Self::default()
    }

    /// Advance every voice by `cycles` SID clocks.
    pub fn clock(&mut self, cycles: u32)
        requires
            sid_sound(*old(self)),
        ensures
            *final(self) == clocked(*old(self), cycles as nat),
            sid_sound(*final(self)),
    {
        let mut k: u32 = 0;
        while k < cycles
            invariant
                k <= cycles,
                sid_sound(*self),
                *self == clocked(*old(self), k as nat),
            decreases cycles - k,
        {
            self.clock_one();
            k += 1;
        }
    }

    fn clock_one(&mut self)
        requires
            sid_sound(*old(self)),
        ensures
            *final(self) == clocked_once(*old(self)),
            sid_sound(*final(self)),
    {
        let mut v = self.voices[0];
        v.clock();
        self.voices[0] = v;
        let mut v = self.voices[1];
        v.clock();
        self.voices[1] = v;
        let mut v = self.voices[2];
        v.clock();
        self.voices[2] = v;
    }

    /// The current mixed output, scaled by the master volume: between
    /// -[`FULL_SCALE`] and [`FULL_SCALE`].
    pub fn output(&self) -> (r: i32)
        requires
            sid_sound(*self),
        ensures
            r == mixed(*self) * self.volume,
            -FULL_SCALE <= r <= FULL_SCALE,
    {
        let mix = self.voices[0].output() + self.voices[1].output() + self.voices[2].output();
        let volume = self.volume as i32;
        assert(-FULL_SCALE <= mix * volume <= FULL_SCALE) by (nonlinear_arith)
            requires -6120 <= mix <= 6120, 0 <= volume <= 15;
        mix * volume
    }

    /// Write a SID register (offset 0x00..0x1C).
    pub fn write(&mut self, reg: u8, val: u8)
        ensures
            *final(self) == after_write(*old(self), reg, val),
            sid_sound(*old(self)) ==> sid_sound(*final(self)),
    {
        let reg = reg % 32;
        let voice = (reg / 7) as usize; // regs 0-6 v1, 7-13 v2, 14-20 v3
        if voice < 3 {
            let mut v = self.voices[voice];
            match reg % 7 {
                0 => v.freq = v.freq / 256 * 256 + val as u16,
                1 => v.freq = v.freq % 256 + 256 * (val as u16),
                2 => v.pulse_width = v.pulse_width / 256 % 16 * 256 + val as u16,
                3 => v.pulse_width = v.pulse_width % 256 + 256 * ((val % 16) as u16),
                4 => {
                    v.control = val;
                    v.env.set_gate(val % 2 == 1);
                },
                5 => {
                    v.env.attack = val / 16;
                    v.env.decay = val % 16;
                },
                _ => {
                    v.env.sustain = val / 16;
                    v.env.release = val % 16;
                },
            }
            self.voices[voice] = v;
            return;
        }
        // Filter / volume registers ($D415-$D418); only master volume is modeled.
        if reg == 0x18 {
            self.volume = val % 16;
        }
    }

    /// Read a SID register. Most are write-only and read as open bus; the two
    /// useful reads are voice-3 oscillator ($D41B) and envelope ($D41C).
    pub fn read(&self, reg: u8) -> (b: u8)
        ensures
            b == register(*self, reg),
    {
        match reg % 32 {
            0x1B => (self.voices[2].waveform() / 16) as u8, // OSC3 (high 8 bits)
            0x1C => self.voices[2].env.value,               // ENV3
            _ => 0,
        }
    }
}

// ---- what holds of the chip ----

/// At master volume zero the chip is silent, whatever it plays.
pub proof fn law_silent_at_zero_volume(s: Sid)
    requires
        s.volume == 0,
    ensures
        mixed(s) * s.volume == 0,
{
}

/// A voice with no waveform selected, or a closed envelope, is at rest.
pub proof fn law_closed_envelope_is_silent(v: Voice)
    requires
        v.env.value == 0,
    ensures
        voice_level(v) == 0,
{
}

/// An envelope after `n` clocks.
pub open spec fn envelope_after(e: Envelope, n: nat) -> Envelope
    decreases n,
{
    if n == 0 { e } else { envelope_clocked(envelope_after(e, (n - 1) as nat)) }
}

proof fn lemma_attack_waits(e: Envelope, n: nat)
    requires
        e.state == EnvState::Attack,
        e.rate == 0,
        n < rate_period_of(e.attack),
    ensures
        envelope_after(e, n) == (Envelope { rate: n as u16, ..e }),
    decreases n,
{
    if n > 0 {
        lemma_attack_waits(e, (n - 1) as nat);
    }
}

/// The attack is linear: one step up each time its rate period has passed, until
/// the peak is reached and the decay begins.
pub proof fn law_attack_rises(e: Envelope)
    requires
        e.state == EnvState::Attack,
        e.rate == 0,
    ensures
        ({
            let r = envelope_after(e, rate_period_of(e.attack) as nat);
            &&& r.value == (if e.value < 255 { e.value + 1 } else { 255 })
            &&& r.state == (if e.value >= 254 { EnvState::Decay } else { EnvState::Attack })
            &&& r.rate == 0
        }),
{
    let p = rate_period_of(e.attack);
    lemma_attack_waits(e, (p - 1) as nat);
    assert(envelope_after(e, p as nat) == envelope_clocked(envelope_after(e, (p - 1) as nat)));
}

/// A released envelope never rises, and stays released.
pub proof fn law_release_never_rises(e: Envelope, n: nat)
    requires
        e.state == EnvState::Release,
    ensures
        envelope_after(e, n).value <= e.value,
        envelope_after(e, n).state == EnvState::Release,
    decreases n,
{
    if n > 0 {
        law_release_never_rises(e, (n - 1) as nat);
    }
}

/// A decaying envelope never falls below its sustain level.
pub proof fn law_decay_stops_at_sustain(e: Envelope, n: nat)
    requires
        e.state == EnvState::Decay || e.state == EnvState::Sustain,
        e.value >= e.sustain * 17,
    ensures
        e.sustain * 17 <= envelope_after(e, n).value <= e.value,
        envelope_after(e, n).sustain == e.sustain,
        envelope_after(e, n).state == EnvState::Decay || envelope_after(e, n).state == EnvState::Sustain,
    decreases n,
{
    if n > 0 {
        law_decay_stops_at_sustain(e, (n - 1) as nat);
    }
}

proof fn lemma_envelope_clocks_add(e: Envelope, m: nat, n: nat)
    ensures
        envelope_after(envelope_after(e, m), n) == envelope_after(e, m + n),
    decreases n,
{
    if n > 0 {
        lemma_envelope_clocks_add(e, m, (n - 1) as nat);
        assert((m + n - 1) as nat == m + (n - 1) as nat);
    }
}

/// A gated voice runs its attack up to the peak: after `k` rate periods the level
/// is `k` steps up, and at the peak the decay begins.
pub proof fn law_attack_reaches_the_peak(e: Envelope, k: nat)
    requires
        e.state == EnvState::Attack,
        e.rate == 0,
        1 <= k <= 255 - e.value,
    ensures
        ({
            let r = envelope_after(e, k * rate_period_of(e.attack) as nat);
            &&& r.value == e.value + k
            &&& r.state == (if e.value + k == 255 { EnvState::Decay } else { EnvState::Attack })
            &&& r.rate == 0
            &&& r.attack == e.attack
        }),
    decreases k,
{
    let p = rate_period_of(e.attack) as nat;
    let before = (k - 1) as nat;
    assert(k * p == before * p + p) by (nonlinear_arith)
        requires
            k == before + 1,
    ;
    let m = envelope_after(e, before * p);
    if before > 0 {
        law_attack_reaches_the_peak(e, before);
    } else {
        assert(before * p == 0) by (nonlinear_arith)
            requires
                before == 0,
        ;
    }
    assert(m.value == e.value + before && m.state == EnvState::Attack && m.rate == 0
        && m.attack == e.attack);
    law_attack_rises(m);
    lemma_attack_waits(m, (p - 1) as nat);
    lemma_envelope_clocks_add(e, before * p, p);
}

/// A released envelope that is not at zero comes down a step, in time.
proof fn lemma_release_falls(e: Envelope) -> (n: nat)
    requires
        e.state == EnvState::Release,
        envelope_sound(e),
        e.value > 0,
    ensures
        envelope_after(e, n).value == e.value - 1,
        envelope_after(e, n).state == EnvState::Release,
        envelope_sound(envelope_after(e, n)),
    decreases 60 - e.exp, 31251 - e.rate,
{
    let c = envelope_clocked(e);
    assert(envelope_after(e, 1) == c) by {
        reveal_with_fuel(envelope_after, 2);
    }
    if e.rate + 1 < rate_period_of(e.release) || e.exp + 1 < e.exp_period {
        let n = lemma_release_falls(c);
        lemma_envelope_clocks_add(e, 1, n);
        1 + n
    } else {
        1
    }
}

/// A released voice dies away: there is a time from which on it is at zero.
pub proof fn law_release_reaches_zero(e: Envelope) -> (n: nat)
    requires
        e.state == EnvState::Release,
        envelope_sound(e),
    ensures
        forall|later: nat| later >= n ==> #[trigger] envelope_after(e, later).value == 0,
    decreases e.value,
{
    if e.value == 0 {
        assert forall|later: nat| later >= 0 implies
            #[trigger] envelope_after(e, later).value == 0 by {
            law_release_never_rises(e, later);
        }
        0
    } else {
        let a = lemma_release_falls(e);
        let b = law_release_reaches_zero(envelope_after(e, a));
        assert forall|later: nat| later >= a + b implies
            #[trigger] envelope_after(e, later).value == 0 by {
            let rest = (later - a) as nat;
            lemma_envelope_clocks_add(e, a, rest);
            assert(envelope_after(envelope_after(e, a), rest).value == 0);
        }
        a + b
    }
}

// ---- what is heard ----

/// The three voices count alike: exchanging two of them leaves the mix as it is.
pub proof fn law_voices_count_alike(s: Sid, t: Sid)
    ensures
        t.voices[0] == s.voices[1] && t.voices[1] == s.voices[0] && t.voices[2] == s.voices[2]
            ==> mixed(t) == mixed(s),
        t.voices[0] == s.voices[2] && t.voices[1] == s.voices[1] && t.voices[2] == s.voices[0]
            ==> mixed(t) == mixed(s),
        t.voices[0] == s.voices[0] && t.voices[1] == s.voices[2] && t.voices[2] == s.voices[1]
            ==> mixed(t) == mixed(s),
{
}

/// Each voice is heard: with the two others closed the mix is its level alone, and
/// a change of one voice's level changes the mix by just as much.
pub proof fn law_each_voice_is_heard(s: Sid, t: Sid, k: int)
    requires
        0 <= k < 3,
    ensures
        (forall|j: int| 0 <= j < 3 && j != k ==> (#[trigger] s.voices[j]).env.value == 0)
            ==> mixed(s) == voice_level(s.voices[k]),
        (forall|j: int| 0 <= j < 3 && j != k ==> #[trigger] s.voices[j] == t.voices[j])
            ==> mixed(t) - mixed(s) == voice_level(t.voices[k]) - voice_level(s.voices[k]),
{
    if forall|j: int| 0 <= j < 3 && j != k ==> (#[trigger] s.voices[j]).env.value == 0 {
        assert(k != 0 ==> s.voices[0].env.value == 0);
        assert(k != 1 ==> s.voices[1].env.value == 0);
        assert(k != 2 ==> s.voices[2].env.value == 0);
    }
    if forall|j: int| 0 <= j < 3 && j != k ==> #[trigger] s.voices[j] == t.voices[j] {
        assert(k != 0 ==> s.voices[0] == t.voices[0]);
        assert(k != 1 ==> s.voices[1] == t.voices[1]);
        assert(k != 2 ==> s.voices[2] == t.voices[2]);
    }
}

/// A voice's level: the wave, centred on 2048, times the envelope, in units of 256
/// and rounded towards zero.
pub proof fn law_voice_level(v: Voice)
    ensures
        ({
            let full = (wave_of(v) - 2048) * v.env.value;
            let level = voice_level(v);
            &&& full >= 0 ==> 256 * level <= full < 256 * (level + 1)
            &&& full < 0 ==> 256 * (level - 1) < full <= 256 * level
        }),
{
}

/// The waves one by one: the triangle rises for half a period and falls for the
/// other half, the sawtooth rises all the time, the pulse is high from its width
/// on, and the noise is eight bits of a shift register.
pub proof fn law_single_waves(v: Voice)
    requires
        voice_sound(v),
    ensures
        v.control / 16 == 0 ==> wave_of(v) == 0,
        v.control / 16 == 1 ==> wave_of(v) == (if v.phase < 0x80_0000 {
            v.phase as int / 2048
        } else {
            4095 - (v.phase - 0x80_0000) / 2048
        }),
        v.control / 16 == 2 ==> wave_of(v) == v.phase as int / 4096,
        v.control / 16 == 4 ==> wave_of(v) == (if v.phase as int / 4096 >= v.pulse_width { 4095int }
            else { 0 }),
        v.control / 16 == 8 ==> {
            let (n, w) = (v.noise as int, wave_of(v) as int);
            &&& w / 2048 % 2 == n / 0x40_0000 % 2 && w / 1024 % 2 == n / 0x10_0000 % 2
            &&& w / 512 % 2 == n / 0x1_0000 % 2 && w / 256 % 2 == n / 0x2000 % 2
            &&& w / 128 % 2 == n / 0x800 % 2 && w / 64 % 2 == n / 0x80 % 2
            &&& w / 32 % 2 == n / 0x10 % 2 && w / 16 % 2 == n / 4 % 2
            &&& w % 16 == 0 && w < 4096
        },
{
    let t = triangle_wave(v.phase);
    let n = noise_wave(v.noise);
    assert(t < 4096 && sawtooth_wave(v.phase) < 4096);
    lemma_noise_digits(
        v.noise as int / 0x40_0000 % 2, v.noise as int / 0x10_0000 % 2,
        v.noise as int / 0x1_0000 % 2, v.noise as int / 0x2000 % 2, v.noise as int / 0x800 % 2,
        v.noise as int / 0x80 % 2, v.noise as int / 0x10 % 2, v.noise as int / 4 % 2);
    lemma_all_selected(t);
    lemma_all_selected(sawtooth_wave(v.phase));
    lemma_all_selected(pulse_wave(v.phase, v.pulse_width));
    lemma_all_selected(n);
}

proof fn lemma_noise_digits(a: int, b: int, c: int, d: int, e: int, f: int, g: int, h: int)
    requires
        0 <= a < 2, 0 <= b < 2, 0 <= c < 2, 0 <= d < 2,
        0 <= e < 2, 0 <= f < 2, 0 <= g < 2, 0 <= h < 2,
    ensures
        ({
            let w = a * 0x800 + b * 0x400 + c * 0x200 + d * 0x100 + e * 0x80 + f * 0x40 + g * 0x20
                + h * 0x10;
            &&& 0 <= w < 4096 && w % 16 == 0
            &&& w / 2048 % 2 == a && w / 1024 % 2 == b && w / 512 % 2 == c && w / 256 % 2 == d
            &&& w / 128 % 2 == e && w / 64 % 2 == f && w / 32 % 2 == g && w / 16 % 2 == h
        }),
{
}

/// And-ing with all ones changes nothing.
proof fn lemma_all_selected(w: u16)
    by (bit_vector)
    requires
        w <= 0xFFF,
    ensures
        w & 0xFFF & 0xFFF & 0xFFF == w,
        0xFFFu16 & w & 0xFFF & 0xFFF == w,
        0xFFFu16 & 0xFFF & w & 0xFFF == w,
        0xFFFu16 & 0xFFF & 0xFFF & w == w,
{
}

/// Several waves at once: a bit is set where it is set in each of them.
pub proof fn law_combined_waves(v: Voice, k: u16)
    requires
        voice_sound(v),
        v.control / 16 != 0,
        k < 12,
    ensures
        ({
            let only = |wave: int| wave_of(Voice { control: (16 * wave) as u8, ..v });
            let set = |w: u16| (w >> k) & 1 == 1;
            let wf = v.control as int / 16;
            set(wave_of(v)) == ((wf % 2 == 1 ==> set(only(1))) && (wf / 2 % 2 == 1 ==> set(only(2)))
                && (wf / 4 % 2 == 1 ==> set(only(4))) && (wf / 8 % 2 == 1 ==> set(only(8))))
        }),
{
    let only = |wave: int| wave_of(Voice { control: (16 * wave) as u8, ..v });
    let wf = v.control as int / 16;
    let (t, s, p, n) = (
        triangle_wave(v.phase), sawtooth_wave(v.phase), pulse_wave(v.phase, v.pulse_width),
        noise_wave(v.noise));
    assert(t < 4096 && s < 4096);
    lemma_noise_digits(
        v.noise as int / 0x40_0000 % 2, v.noise as int / 0x10_0000 % 2,
        v.noise as int / 0x1_0000 % 2, v.noise as int / 0x2000 % 2, v.noise as int / 0x800 % 2,
        v.noise as int / 0x80 % 2, v.noise as int / 0x10 % 2, v.noise as int / 4 % 2);
    lemma_all_selected(t);
    lemma_all_selected(s);
    lemma_all_selected(p);
    lemma_all_selected(n);
    assert(only(1) == t && only(2) == s && only(4) == p && only(8) == n);
    lemma_anded(
        selected_wave(wf % 2 == 1, t), selected_wave(wf / 2 % 2 == 1, s),
        selected_wave(wf / 4 % 2 == 1, p), selected_wave(wf / 8 % 2 == 1, n), k);
}

proof fn lemma_anded(a: u16, b: u16, c: u16, d: u16, k: u16)
    by (bit_vector)
    requires
        k < 12,
    ensures
        (((a & b & c & d) >> k) & 1 == 1) == ((a >> k) & 1 == 1 && (b >> k) & 1 == 1
            && (c >> k) & 1 == 1 && (d >> k) & 1 == 1),
        (0xFFFu16 >> k) & 1 == 1,
{
}

/// A voice after `n` clocks.
pub open spec fn voice_after(v: Voice, n: nat) -> Voice
    decreases n,
{
    if n == 0 { v } else { voice_clocked(voice_after(v, (n - 1) as nat)) }
}

/// The chip clocks all of its voices, and nothing else changes.
pub proof fn law_chip_clocks_its_voices(s: Sid, n: nat, k: int)
    requires
        0 <= k < 3,
    ensures
        clocked(s, n).voices[k] == voice_after(s.voices[k], n),
        clocked(s, n).volume == s.volume,
    decreases n,
{
    if n > 0 {
        law_chip_clocks_its_voices(s, (n - 1) as nat, 0);
        law_chip_clocks_its_voices(s, (n - 1) as nat, 1);
        law_chip_clocks_its_voices(s, (n - 1) as nat, 2);
    }
}

/// The oscillator: the phase moves on by the frequency at each clock and comes
/// round at 2^24, unless the test bit holds it at zero. The envelope runs beside
/// it.
pub proof fn law_oscillator(v: Voice, n: nat)
    requires
        v.phase < 0x100_0000,
    ensures
        ({
            let r = voice_after(v, n);
            &&& v.control / 8 % 2 == 0 ==> r.phase == (v.phase + n * v.freq) % 0x100_0000
            &&& v.control / 8 % 2 == 1 && n > 0 ==> r.phase == 0 && r.noise == v.noise
            &&& r.env == envelope_after(v.env, n)
            &&& r.freq == v.freq && r.control == v.control && r.pulse_width == v.pulse_width
        }),
    decreases n,
{
    lemma_test_bit(v.control);
    if n > 0 {
        let m = (n - 1) as nat;
        law_oscillator(v, m);
        let p = v.phase + m * v.freq;
        assert(v.phase + n * v.freq == p + v.freq) by (nonlinear_arith)
            requires
                n == m + 1,
                p == v.phase + m * v.freq,
        ;
        assert((p % 0x100_0000 + v.freq) % 0x100_0000 == (p + v.freq) % 0x100_0000);
    } else {
        assert(n * v.freq == 0) by (nonlinear_arith)
            requires
                n == 0,
        ;
    }
}

proof fn lemma_test_bit(c: u8)
    by (bit_vector)
    ensures
        (c & 0x08 != 0) == (c / 8 % 2 == 1),
{
}

/// The noise register shifts up by one when bit 19 of the phase rises, and takes
/// in at the bottom whether its bits 22 and 17 differ.
pub proof fn law_noise(v: Voice)
    requires
        voice_sound(v),
        v.control / 8 % 2 == 0,
    ensures
        ({
            let r = voice_clocked(v);
            let rises = v.phase / 0x8_0000 % 2 == 0 && r.phase / 0x8_0000 % 2 == 1;
            let top = v.noise / 0x40_0000 % 2 == 1;
            let tap = v.noise / 0x2_0000 % 2 == 1;
            r.noise == (if rises {
                (2 * v.noise + (if top != tap { 1int } else { 0 })) % 0x80_0000
            } else {
                v.noise as int
            })
        }),
{
    lemma_test_bit(v.control);
}

/// The registers: seven for each voice in turn, of which the first two pairs are
/// frequency and pulse width (12 bits), low byte first; then control, whose bit 0
/// opens and closes the envelope; attack and decay; sustain and release. $18 is the volume.
pub proof fn law_registers(s: Sid, reg: u8, val: u8, k: int)
    requires
        sid_sound(s),
        0 <= k < 3,
    ensures
        ({
            let t = after_write(s, reg, val);
            let r = reg as int % 32;
            let (v, w) = (s.voices[k], t.voices[k]);
            let mine = 7 * k <= r < 7 * k + 7;
            let n = r - 7 * k;
            &&& !mine ==> w == v
            &&& mine ==> {
                &&& w.freq == (if n == 0 { v.freq - v.freq % 256 + val }
                    else if n == 1 { v.freq % 256 + 256 * val } else { v.freq as int })
                &&& w.pulse_width == (if n == 2 { v.pulse_width - v.pulse_width % 256 + val }
                    else if n == 3 { v.pulse_width % 256 + 256 * (val % 16) }
                    else { v.pulse_width as int })
                &&& w.control == (if n == 4 { val } else { v.control })
                &&& w.env.attack == (if n == 5 { val / 16 } else { v.env.attack })
                &&& w.env.decay == (if n == 5 { val % 16 } else { v.env.decay })
                &&& w.env.sustain == (if n == 6 { val / 16 } else { v.env.sustain })
                &&& w.env.release == (if n == 6 { val % 16 } else { v.env.release })
                &&& w.env.gate == (if n == 4 { val % 2 == 1 } else { v.env.gate })
                &&& w.env.state == (if n == 4 && val % 2 == 1 && !v.env.gate { EnvState::Attack }
                    else if n == 4 && val % 2 == 0 && v.env.gate { EnvState::Release }
                    else { v.env.state })
                &&& w.env.value == v.env.value && w.phase == v.phase && w.noise == v.noise
            }
            &&& t.volume == (if r == 0x18 { val % 16 } else { s.volume })
        }),
{
}

/// Only $1B and $1C read as something: the top of voice 3's wave, and its envelope.
pub proof fn law_reads(s: Sid, reg: u8)
    ensures
        reg as int % 32 == 0x1B ==> 16 * register(s, reg) <= wave_of(s.voices[2])
            < 16 * register(s, reg) + 16,
        reg as int % 32 == 0x1C ==> register(s, reg) == s.voices[2].env.value,
        reg as int % 32 != 0x1B && reg as int % 32 != 0x1C ==> register(s, reg) == 0,
{
    let v = s.voices[2];
    let wf = v.control as int / 16;
    lemma_noise_digits(
        v.noise as int / 0x40_0000 % 2, v.noise as int / 0x10_0000 % 2,
        v.noise as int / 0x1_0000 % 2, v.noise as int / 0x2000 % 2, v.noise as int / 0x800 % 2,
        v.noise as int / 0x80 % 2, v.noise as int / 0x10 % 2, v.noise as int / 4 % 2);
    lemma_and_bounded(
        selected_wave(wf % 2 == 1, triangle_wave(v.phase)),
        selected_wave(wf / 2 % 2 == 1, sawtooth_wave(v.phase)),
        selected_wave(wf / 4 % 2 == 1, pulse_wave(v.phase, v.pulse_width)),
        selected_wave(wf / 8 % 2 == 1, noise_wave(v.noise)));
    assert(wave_of(v) <= 0xFFF);
}

/// The envelope's clocks per step, by attack, decay or release setting; each is
/// longer than the one before it.
pub proof fn law_rates(sel: u8)
    requires
        sel < 16,
    ensures
        seq![9u16, 32, 63, 95, 149, 220, 267, 313, 392, 977, 1954, 3126, 3907, 11720, 19532, 31251]
            [sel as int] == rate_period_of(sel),
        sel > 0 ==> rate_period_of((sel - 1) as u8) < rate_period_of(sel),
{
}

/// Falling takes longer the lower the level is: the steps come at every period
/// above 93, at every second from there, every fourth from 54, every eighth from
/// 26, every sixteenth from 14 and every thirtieth from 6. A level comes down from
/// the one above it.
pub open spec fn slowness(value: int) -> int {
    if value > 93 || value == 0 { 1 } else if value > 54 { 2 } else if value > 26 { 4 }
    else if value > 14 { 8 } else if value > 6 { 16 } else { 30 }
}

/// An envelope that falls step by step keeps to [`slowness`].
pub proof fn law_falling_slows_down(e: Envelope, n: nat)
    requires
        e.state == EnvState::Release || e.state == EnvState::Decay,
        e.exp_period == slowness(e.value as int),
    ensures
        envelope_after(e, n).exp_period == slowness(envelope_after(e, n).value as int),
    decreases n,
{
    if n > 0 {
        law_falling_slows_down(e, (n - 1) as nat);
        lemma_falling_state(e, (n - 1) as nat);
    }
}

proof fn lemma_falling_state(e: Envelope, n: nat)
    requires
        e.state == EnvState::Release || e.state == EnvState::Decay,
    ensures
        envelope_after(e, n).state != EnvState::Attack,
    decreases n,
{
    if n > 0 {
        lemma_falling_state(e, (n - 1) as nat);
    }
}

/// One step down takes the rate period of the release (or of the decay) times the
/// slowness of the level, and is one step.
pub proof fn law_step_down(e: Envelope)
    requires
        e.state == EnvState::Release || e.state == EnvState::Decay && e.value > 17 * e.sustain,
        e.rate == 0 && e.exp == 0 && e.exp_period >= 1,
        e.value > 0,
    ensures
        ({
            let p = rate_period_of(if e.state == EnvState::Release { e.release } else { e.decay });
            let r = envelope_after(e, (e.exp_period * p) as nat);
            &&& r.value == e.value - 1
            &&& r.state == e.state && r.rate == 0 && r.exp == 0
        }),
{
    let p = rate_period_of(if e.state == EnvState::Release { e.release } else { e.decay }) as nat;
    let x = (e.exp_period - 1) as nat;
    lemma_periods_wait(e, x);
    let m = envelope_after(e, x * p);
    lemma_period_waits(m, (p - 1) as nat);
    lemma_envelope_clocks_add(e, x * p, (p - 1) as nat);
    assert(x * p + p == e.exp_period * p) by (nonlinear_arith)
        requires
            x == e.exp_period - 1,
    ;
    lemma_envelope_clocks_add(e, x * p, p);
    assert(envelope_after(m, p) == envelope_clocked(envelope_after(m, (p - 1) as nat)));
}

/// Within a period only the rate counter moves.
proof fn lemma_period_waits(e: Envelope, n: nat)
    requires
        e.state == EnvState::Release || e.state == EnvState::Decay,
        e.rate == 0,
        n < rate_period_of(if e.state == EnvState::Release { e.release } else { e.decay }),
    ensures
        envelope_after(e, n) == (Envelope { rate: n as u16, ..e }),
    decreases n,
{
    if n > 0 {
        lemma_period_waits(e, (n - 1) as nat);
    }
}

/// Before the last of its periods a level stays.
proof fn lemma_periods_wait(e: Envelope, k: nat)
    requires
        e.state == EnvState::Release || e.state == EnvState::Decay,
        e.rate == 0 && e.exp == 0,
        k < e.exp_period,
    ensures
        ({
            let p = rate_period_of(if e.state == EnvState::Release { e.release } else { e.decay });
            envelope_after(e, k * p as nat) == (Envelope { exp: k as u8, ..e })
        }),
    decreases k,
{
    let p = rate_period_of(if e.state == EnvState::Release { e.release } else { e.decay }) as nat;
    if k > 0 {
        let j = (k - 1) as nat;
        lemma_periods_wait(e, j);
        let m = envelope_after(e, j * p);
        lemma_period_waits(m, (p - 1) as nat);
        assert(j * p + p == k * p) by (nonlinear_arith)
            requires
                k == j + 1,
        ;
        lemma_envelope_clocks_add(e, j * p, p);
        assert(envelope_after(m, p) == envelope_clocked(envelope_after(m, (p - 1) as nat)));
    } else {
        assert(k * p == 0) by (nonlinear_arith)
            requires
                k == 0,
        ;
    }
}

/// One clock of an envelope at its turning points: the attack rises by one each period
/// and ends at 255, the decay ends at 17 times the sustain setting, and the sustain
/// stays until the voice is let go.
pub proof fn law_turning_points(e: Envelope)
    ensures
        ({
            let n = envelope_clocked(e);
            let up = e.rate + 1 >= rate_period_of(e.attack);
            let down = e.rate + 1 >= rate_period_of(e.decay) && e.exp + 1 >= e.exp_period;
            &&& e.state == EnvState::Attack && !up
                ==> n == (Envelope { rate: (e.rate + 1) as u16, ..e })
            &&& e.state == EnvState::Attack && up && e.value < 254
                ==> n == (Envelope { rate: 0, value: (e.value + 1) as u8, ..e })
            &&& e.state == EnvState::Attack && up && e.value >= 254 ==> n == (Envelope {
                rate: 0, value: 255, state: EnvState::Decay, exp_period: 1, ..e
            })
            &&& e.state == EnvState::Decay && down && e.value <= 17 * e.sustain
                ==> n.state == EnvState::Sustain && n.value == e.value
            &&& e.state == EnvState::Decay && !down ==> n.state == e.state && n.value == e.value
            &&& e.state == EnvState::Sustain ==> n == e
        }),
{
}

/// What starts and ends a sound: bit 0 of the control register going up starts the
/// attack from the level there is, and going down the release, at the pace of the
/// level where that is one at which the pace changes.
pub proof fn law_starts_and_ends(s: Sid, k: int, val: u8)
    requires
        0 <= k < 3,
    ensures
        ({
            let e = s.voices[k].env;
            let n = after_write(s, (7 * k + 4) as u8, val).voices[k].env;
            let turn = e.value == 255 || e.value == 93 || e.value == 54 || e.value == 26
                || e.value == 14 || e.value == 6 || e.value == 0;
            &&& val % 2 == 1 && !e.gate ==> n == (Envelope {
                state: EnvState::Attack, exp_period: 1, gate: true, ..e
            })
            &&& val % 2 == 0 && e.gate ==> {
                &&& n == (Envelope {
                    state: EnvState::Release, exp_period: n.exp_period, gate: false, ..e
                })
                &&& turn ==> n.exp_period == slowness(e.value as int)
                &&& !turn ==> n.exp_period == e.exp_period
            }
            &&& (val % 2 == 1) == e.gate ==> n == e
        }),
{
}

/// A chip at power-on is silent: no voice is open, and no wave is selected.
pub proof fn law_silent_at_first(s: Sid, k: int)
    requires
        power_on(s),
        0 <= k < 3,
    ensures
        mixed(s) == 0,
        s.volume == 0,
        s.voices[k].env.value == 0 && !s.voices[k].env.gate,
        s.voices[k].freq == 0 && s.voices[k].control == 0 && s.voices[k].phase == 0,
        s.voices[k].noise == 0x7FFFFF,
{
}

} // verus!
