//! Time on air of a LoRa frame, from the modulation parameters and the
//! frame length.

use vstd::arithmetic::div_mod::lemma_div_is_ordered;
use vstd::arithmetic::mul::lemma_mul_inequality;
use vstd::arithmetic::power2::{lemma2_to64, lemma_pow2_strictly_increases, pow2};
use vstd::prelude::*;

verus! {

/// The modulation parameters that decide how long a frame is on air.
#[derive(Clone, Copy, Debug, PartialEq, Eq, Structural)]
pub struct LoraConfig {
    /// Spreading factor, 5 to 12.
    pub spreading_factor: u8,
    /// Bandwidth in hertz, not 0.
    pub bandwidth_hz: u32,
    /// Denominator of the coding rate 4/x, 5 to 8.
    pub coding_rate_denominator: u8,
    /// Number of preamble symbols.
    pub preamble_symbols: u16,
    /// Frames carry no explicit PHY header.
    pub implicit_header: bool,
    /// Frames carry a payload CRC.
    pub crc_enabled: bool,
    /// Low-data-rate optimization is on.
    pub low_data_rate_optimize: bool,
}

/// `n / d` rounded up, for `n >= 0` and `d > 0`.
pub open spec fn ceil_div(n: int, d: int) -> int {
    (n + d - 1) / d
}

impl LoraConfig {
    /// The parameters are ones that a LoRa modem accepts.
    pub open spec fn valid(self) -> bool {
        &&& 5 <= self.spreading_factor <= 12
        &&& self.bandwidth_hz >= 1
        &&& 5 <= self.coding_rate_denominator <= 8
    }

    /// Number of payload symbols of a frame of `frame_len` bytes.
    pub open spec fn payload_symbols(self, frame_len: u32) -> int {
        let bits = 8 * frame_len + 28 + (if self.crc_enabled {
            16int
        } else {
            0int
        }) - 4 * self.spreading_factor - (if self.implicit_header {
            20int
        } else {
            0int
        });
        let per_block = 4 * (self.spreading_factor - (if self.low_data_rate_optimize {
            2int
        } else {
            0int
        }));
        let blocks = if bits <= 0 {
            0
        } else {
            ceil_div(bits, per_block)
        };
        8 + blocks * self.coding_rate_denominator
    }

    /// Length of a frame of `frame_len` bytes in quarter symbols: preamble,
    /// four and a quarter symbols of synchronization, and payload.
    pub open spec fn quarter_symbols(self, frame_len: u32) -> int {
        4 * (self.preamble_symbols + self.payload_symbols(frame_len)) + 17
    }

    /// Time on air of a frame of `frame_len` bytes in milliseconds, rounded
    /// up, and at most the largest `u32`. A symbol lasts `2^SF / bandwidth`
    /// seconds.
    pub open spec fn airtime_ms(self, frame_len: u32) -> int {
        let exact = ceil_div(
            self.quarter_symbols(frame_len) * pow2(self.spreading_factor as nat) * 250,
            self.bandwidth_hz as int,
        );
        if exact > u32::MAX {
            u32::MAX as int
        } else {
            exact
        }
    }

    /// The LongFast profile: spreading factor 11, 250 kHz, coding rate 4/5,
    /// 16 preamble symbols, explicit header, CRC on.
    pub fn long_fast() -> (c: LoraConfig)
        ensures
            c.valid(),
            c == (LoraConfig {
                spreading_factor: 11,
                bandwidth_hz: 250_000,
                coding_rate_denominator: 5,
                preamble_symbols: 16,
                implicit_header: false,
                crc_enabled: true,
                low_data_rate_optimize: false,
            }),
    {
        LoraConfig {
            spreading_factor: 11,
            bandwidth_hz: 250_000,
            coding_rate_denominator: 5,
            preamble_symbols: 16,
            implicit_header: false,
            crc_enabled: true,
            low_data_rate_optimize: false,
        }
    }

    /// Whether the parameters are ones that a LoRa modem accepts.
    pub fn is_valid(&self) -> (ok: bool)
        ensures
            ok == self.valid(),
    {
        5 <= self.spreading_factor && self.spreading_factor <= 12 && self.bandwidth_hz >= 1 && 5
            <= self.coding_rate_denominator && self.coding_rate_denominator <= 8
    }

    /// Estimates the time on air of a frame of `frame_len` bytes.
    pub fn time_on_air_ms(&self, frame_len: u32) -> (ms: u32)
        requires
            self.valid(),
        ensures
            ms == self.airtime_ms(frame_len),
    {
        let sf: u64 = self.spreading_factor as u64;
        let crc: u64 = if self.crc_enabled {
            16
        } else {
            0
        };
        let ih: u64 = if self.implicit_header {
            20
        } else {
            0
        };
        let de: u64 = if self.low_data_rate_optimize {
            2
        } else {
            0
        };
        let plus: u64 = 8 * (frame_len as u64) + 28 + crc;
        let minus: u64 = 4 * sf + ih;
        let per_block: u64 = 4 * (sf - de);
        let blocks: u64 = if plus <= minus {
            0
        } else {
            (plus - minus + per_block - 1) / per_block
        };
        assert(blocks <= plus) by {
            if plus > minus {
                assert(plus - minus + per_block - 1 <= plus * per_block) by (nonlinear_arith)
                    requires
                        plus > minus,
                        per_block >= 1,
                        plus >= 1,
                ;
                lemma_div_is_ordered(
                    (plus - minus + per_block - 1) as int,
                    (plus * per_block) as int,
                    per_block as int,
                );
                assert((plus * per_block) as int / (per_block as int) == plus) by (nonlinear_arith)
                    requires
                        per_block >= 1,
                ;
            }
        }
        let cr: u64 = self.coding_rate_denominator as u64;
        assert(blocks * cr <= plus * 8) by (nonlinear_arith)
            requires
                blocks <= plus,
                cr <= 8,
        ;
        let symbols: u64 = 8 + blocks * cr;
        let quarters: u64 = 4 * (self.preamble_symbols as u64 + symbols) + 17;
        let symbol_len: u64 = pow2_u64(self.spreading_factor);
        proof {
            lemma2_to64();
            lemma_pow2_strictly_increases(self.spreading_factor as nat, 13);
        }
        assert(quarters * symbol_len <= 0x200_0000_0000 * 8192) by (nonlinear_arith)
            requires
                quarters <= 0x200_0000_0000,
                symbol_len <= 8192,
        ;
        assert(quarters * symbol_len * 250 == quarters * (symbol_len * 250)) by (nonlinear_arith);
        let scaled: u64 = quarters * symbol_len * 250;
        let bw: u64 = self.bandwidth_hz as u64;
        let exact: u64 = (scaled + bw - 1) / bw;
        if exact > u32::MAX as u64 {
            u32::MAX
        } else {
            exact as u32
        }
    }

    /// A longer frame is never shorter on air.
    pub proof fn lemma_airtime_monotone(self, shorter: u32, longer: u32)
        requires
            self.valid(),
            shorter <= longer,
        ensures
            self.airtime_ms(shorter) <= self.airtime_ms(longer),
    {
        let sf = self.spreading_factor as int;
        let crc = if self.crc_enabled {
            16int
        } else {
            0int
        };
        let ih = if self.implicit_header {
            20int
        } else {
            0int
        };
        let de = if self.low_data_rate_optimize {
            2int
        } else {
            0int
        };
        let per_block = 4 * (sf - de);
        let bits_a = 8 * shorter + 28 + crc - 4 * sf - ih;
        let bits_b = 8 * longer + 28 + crc - 4 * sf - ih;
        let blocks_a = if bits_a <= 0 {
            0
        } else {
            ceil_div(bits_a, per_block)
        };
        let blocks_b = if bits_b <= 0 {
            0
        } else {
            ceil_div(bits_b, per_block)
        };
        assert(blocks_a <= blocks_b) by {
            if bits_a > 0 {
                lemma_div_is_ordered(bits_a + per_block - 1, bits_b + per_block - 1, per_block);
            } else if bits_b > 0 {
                lemma_div_is_ordered(0, bits_b + per_block - 1, per_block);
            }
        }
        let cr = self.coding_rate_denominator as int;
        lemma_mul_inequality(blocks_a, blocks_b, cr);
        let qa = self.quarter_symbols(shorter);
        let qb = self.quarter_symbols(longer);
        assert(qa <= qb);
        let pw = pow2(self.spreading_factor as nat) as int;
        let k: int = pw * 250;
        lemma_mul_inequality(qa, qb, k);
        assert(qa * pw * 250 == qa * k) by (nonlinear_arith)
            requires
                k == pw * 250,
        ;
        assert(qb * pw * 250 == qb * k) by (nonlinear_arith)
            requires
                k == pw * 250,
        ;
        let bw = self.bandwidth_hz as int;
        lemma_div_is_ordered(qa * k + bw - 1, qb * k + bw - 1, bw);
    }
}

/// Two to the power `e`, for `e` up to 12.
fn pow2_u64(e: u8) -> (p: u64)
    requires
        e <= 12,
    ensures
        p == pow2(e as nat),
{
    let mut p: u64 = 1;
    let mut i: u8 = 0;
    proof {
        lemma2_to64();
    }
    while i < e
        invariant
            i <= e <= 12,
            p == pow2(i as nat),
            p <= 4096,
        decreases e - i,
    {
        proof {
            vstd::arithmetic::power2::lemma_pow2_unfold((i + 1) as nat);
            lemma2_to64();
            if i + 1 < 12 {
                lemma_pow2_strictly_increases((i + 1) as nat, 12);
            }
        }
        p = p * 2;
        i = i + 1;
    }
    p
}

} // verus!
