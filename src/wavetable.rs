use vstd::prelude::*;
use crate::waveform::OscillatorType;
use vstd::arithmetic::div_mod::{lemma_mod_add_multiples_vanish, lemma_small_mod};

verus! {

/// Frequency in hertz that the lowest band is built for.
pub const BASE_FREQ: u64 = 20;

/// Table samples per harmonic, beyond the two that Nyquist asks for.
pub const OVERSAMPLE: usize = 2;

/// No table is shorter than this.
pub const MIN_TABLE_SIZE: usize = 64;

/// Harmonics that stay below a third of the sample rate when the lowest band
/// plays at `BASE_FREQ`: the rate divided by three times `BASE_FREQ`.
pub open spec fn max_harmonics_of(sample_rate: nat) -> nat {
    sample_rate / 60
}

pub open spec fn is_power_of_two(n: nat) -> bool
    decreases n,
{
    if n <= 1 {
        n == 1
    } else {
        n % 2 == 0 && is_power_of_two(n / 2)
    }
}

/// `len` is the smallest power of two that is at least `MIN_TABLE_SIZE` and
/// holds `OVERSAMPLE` times the two samples per period that each of
/// `harmonics` harmonics needs.
pub open spec fn is_table_length(len: nat, harmonics: nat) -> bool {
    &&& is_power_of_two(len)
    &&& len >= MIN_TABLE_SIZE
    &&& len >= harmonics * 2 * OVERSAMPLE
    &&& (len == MIN_TABLE_SIZE || len / 2 < harmonics * 2 * OVERSAMPLE)
}

/// Harmonics of each band, one band per octave: `h`, then half of it, down to one.
pub open spec fn harmonic_ladder(h: usize) -> Seq<usize>
    decreases h,
{
    if h == 0 {
        Seq::empty()
    } else {
        seq![h].add(harmonic_ladder(h / 2))
    }
}

pub open spec fn octave(i: nat) -> nat
    decreases i,
{
    if i == 0 {
        1
    } else {
        2 * octave((i - 1) as nat)
    }
}

/// Highest frequency in hertz that band `i` may play: the lowest band covers
/// twice `BASE_FREQ`, and each band doubles it.
pub open spec fn band_bound(i: nat) -> nat {
    40 * octave(i)
}

pub open spec fn strictly_increasing(s: Seq<u64>) -> bool {
    forall|i: int, j: int| 0 <= i < j < s.len() ==> s[i] < s[j]
}

/// Smallest power of two that is at least `MIN_TABLE_SIZE` and at least
/// `harmonics * 2 * OVERSAMPLE`.
pub fn table_length(harmonics: usize) -> (r: usize)
    requires
        harmonics <= 0x800_0000,
    ensures
        is_table_length(r as nat, harmonics as nat),
{
    let needed = harmonics * 2 * OVERSAMPLE;
    let mut len: usize = MIN_TABLE_SIZE;
    assert(is_power_of_two(64)) by {
        reveal_with_fuel(is_power_of_two, 8);
    }
    while len < needed
        invariant
            needed == harmonics * 4,
            harmonics <= 0x800_0000,
            is_power_of_two(len as nat),
            len >= MIN_TABLE_SIZE,
            len == MIN_TABLE_SIZE || len / 2 < needed,
            len <= 2 * needed || len == MIN_TABLE_SIZE,
        decreases 2 * needed - len,
    {
        assert((2 * len) as nat / 2 == len as nat);
        len = len * 2;
    }
    len
}

/// A ladder starting at no less than `2^n` has more than `n` bands.
proof fn lemma_ladder_length(h: usize, n: nat)
    requires
        h >= octave(n),
    ensures
        harmonic_ladder(h).len() >= n + 1,
    decreases n,
{
    if n > 0 {
        lemma_ladder_length(h / 2, (n - 1) as nat);
    }
}

/// The octave bands of the wavetables for one sample rate: how long each
/// table is, how many harmonics each band holds and the highest frequency,
/// in hertz, that each band may play.
pub struct BankLayout {
    sample_rate: u32,
    table_length: usize,
    harmonics: Vec<usize>,
    frequency_bounds: Vec<u64>,
}

impl BankLayout {
    pub closed spec fn rate(&self) -> u32 {
        self.sample_rate
    }

    pub closed spec fn length(&self) -> nat {
        self.table_length as nat
    }

    pub closed spec fn band_harmonics(&self) -> Seq<usize> {
        self.harmonics@
    }

    pub closed spec fn bounds(&self) -> Seq<u64> {
        self.frequency_bounds@
    }

    /// One band per octave, from `max_harmonics_of` the sample rate down to
    /// one harmonic, each covering twice the frequency of the one before.
    pub open spec fn wf(&self) -> bool {
        &&& is_table_length(self.length(), max_harmonics_of(self.rate() as nat))
        &&& self.band_harmonics() == harmonic_ladder(max_harmonics_of(self.rate() as nat) as usize)
        &&& self.bounds().len() == self.band_harmonics().len()
        &&& forall|i: int| 0 <= i < self.bounds().len() ==> #[trigger] self.bounds()[i] == band_bound(i as nat)
        &&& strictly_increasing(self.bounds())
    }

    /// The bands for `sample_rate` hertz.
    pub fn new(sample_rate: u32) -> (r: Self)
        ensures
            r.wf(),
            r.rate() == sample_rate,
    {
        let divisor: usize = 3 * BASE_FREQ as usize;
        assert(divisor == 60);
        let max_harmonics: usize = (sample_rate as usize) / divisor;
        assert(max_harmonics <= 0x800_0000);
        let table_length = table_length(max_harmonics);
        let mut harmonics: usize = max_harmonics;
        let mut bound: u64 = 2 * BASE_FREQ;
        assert(bound == band_bound(0));
        let mut bands: Vec<usize> = Vec::new();
        let mut bounds: Vec<u64> = Vec::new();
        while harmonics >= 1
            invariant
                max_harmonics <= 0x800_0000,
                harmonic_ladder(max_harmonics) == bands@ + harmonic_ladder(harmonics),
                bounds@.len() == bands@.len(),
                forall|i: int| 0 <= i < bounds@.len() ==> #[trigger] bounds@[i] == band_bound(i as nat),
                bound == band_bound(bands@.len()),
                strictly_increasing(bounds@),
                bounds@.len() > 0 ==> bounds@.last() < bound,
                harmonics * bound <= 40 * max_harmonics,
            decreases harmonics,
        {
            assert(harmonic_ladder(harmonics) == seq![harmonics].add(harmonic_ladder(harmonics / 2)));
            assert(bands@.push(harmonics) + harmonic_ladder(harmonics / 2) =~= bands@ + harmonic_ladder(harmonics));
            assert(bound <= harmonics * bound) by (nonlinear_arith)
                requires
                    harmonics >= 1,
            ;
            assert(bound <= 40 * max_harmonics);
            assert(bound <= 0x10_0000_0000);
            let ghost n = bands@.len();
            assert(octave(n + 1) == 2 * octave(n));
            assert(band_bound(n + 1) == 2 * band_bound(n));
            assert((harmonics / 2) * (2 * bound) <= harmonics * bound) by (nonlinear_arith);
            bands.push(harmonics);
            bounds.push(bound);
            harmonics = harmonics / 2;
            bound = bound * 2;
        }
        assert(bands@ + harmonic_ladder(0) =~= bands@);
        BankLayout { sample_rate, table_length, harmonics: bands, frequency_bounds: bounds }
    }

    pub fn sample_rate(&self) -> (r: u32)
        ensures
            r == self.rate(),
    {
        self.sample_rate
    }

    pub fn table_length(&self) -> (r: usize)
        ensures
            r == self.length(),
    {
        self.table_length
    }

    pub fn band_count(&self) -> (r: usize)
        ensures
            r == self.band_harmonics().len(),
    {
        self.harmonics.len()
    }

    pub fn harmonics(&self, band: usize) -> (r: usize)
        requires
            band < self.band_harmonics().len(),
        ensures
            r == self.band_harmonics()[band as int],
    {
        self.harmonics[band]
    }

    pub fn frequency_bound(&self, band: usize) -> (r: u64)
        requires
            self.wf(),
            band < self.band_harmonics().len(),
        ensures
            r == self.bounds()[band as int],
            r == band_bound(band as nat),
    {
        self.frequency_bounds[band]
    }

    /// The band to play `freq` hertz (rounded up to a whole hertz): the first
    /// whose bound covers it, or the last band when none does.
    pub fn find_table_index(&self, freq: u64) -> (r: usize)
        requires
            self.wf(),
            self.band_harmonics().len() > 0,
        ensures
            r < self.bounds().len(),
            forall|j: int| 0 <= j < r ==> #[trigger] self.bounds()[j] < freq,
            r + 1 < self.bounds().len() ==> self.bounds()[r as int] >= freq,
    {
        let mut lo: usize = 0;
        let mut hi: usize = self.frequency_bounds.len() - 1;
        while lo < hi
            invariant
                self.wf(),
                lo <= hi < self.bounds().len(),
                forall|j: int| 0 <= j < lo ==> #[trigger] self.bounds()[j] < freq,
                hi + 1 < self.bounds().len() ==> self.bounds()[hi as int] >= freq,
            decreases hi - lo,
        {
            let mid = lo + (hi - lo) / 2;
            if self.frequency_bounds[mid] >= freq {
                hi = mid;
            } else {
                lo = mid + 1;
            }
        }
        lo
    }
}

/// At sample rates of 1920 Hz and above a bank has at least six bands, and
/// its bounds rise from band to band.
pub proof fn lemma_bank_has_six_bands(layout: BankLayout)
    requires
        layout.wf(),
        layout.rate() >= 1920,
    ensures
        layout.band_harmonics().len() >= 6,
        strictly_increasing(layout.bounds()),
{
    assert(octave(5) == 32) by {
        reveal_with_fuel(octave, 6);
    }
    let rate = layout.rate() as nat;
    assert(rate / 60 >= 32) by (nonlinear_arith)
        requires
            rate >= 1920,
    ;
    assert(rate / 60 <= 0xffff_ffff) by (nonlinear_arith)
        requires
            rate <= 0xffff_ffff,
    ;
    lemma_ladder_length(max_harmonics_of(rate) as usize, 5);
}

/// A nonzero bin pair of a waveform's spectrum: bin `bin` holds
/// `1/denominator` (negated when `negative`), and bin `mirror` the opposite.
#[derive(Clone, Copy, Debug, PartialEq, Eq, Structural)]
pub struct Partial {
    pub bin: usize,
    pub mirror: usize,
    pub negative: bool,
    pub denominator: u64,
}

/// Number of partials of `kind` when harmonics up to `harmonics` may sound.
pub open spec fn partial_count(kind: OscillatorType, harmonics: nat) -> nat {
    match kind {
        OscillatorType::Sine => 1,
        OscillatorType::Sawtooth => harmonics,
        OscillatorType::Square => (harmonics + 1) / 2,
        OscillatorType::Triangle => (harmonics + 1) / 2,
    }
}

/// Harmonic number of the `rank`-th partial: every harmonic for a sawtooth
/// (and the fundamental of a sine), odd harmonics for square and triangle.
pub open spec fn harmonic_at(kind: OscillatorType, rank: nat) -> nat {
    match kind {
        OscillatorType::Sine => rank + 1,
        OscillatorType::Sawtooth => rank + 1,
        _ => 2 * rank + 1,
    }
}

/// The `rank`-th partial of `kind` in a spectrum of `len` bins: amplitude
/// `1/k` (`1/k²` with alternating sign for a triangle) at harmonic `k`.
pub open spec fn partial_of(kind: OscillatorType, rank: nat, len: nat) -> Partial {
    let k = harmonic_at(kind, rank);
    Partial {
        bin: k as usize,
        mirror: (len - k) as usize,
        negative: kind == OscillatorType::Triangle && rank % 2 == 1,
        denominator: (if kind == OscillatorType::Triangle {
            k * k
        } else {
            k
        }) as u64,
    }
}

/// The nonzero bins of one band's spectrum, for a table of `table_length`
/// samples holding harmonics up to `harmonics`.
pub fn spectrum_partials(kind: OscillatorType, harmonics: usize, table_length: usize) -> (r: Vec<
    Partial,
>)
    requires
        table_length >= 2,
        harmonics <= 0x800_0000,
        harmonics * 2 * OVERSAMPLE <= table_length,
    ensures
        r@.len() == partial_count(kind, harmonics as nat),
        forall|i: int|
            0 <= i < r@.len() ==> #[trigger] r@[i] == partial_of(kind, i as nat, table_length as nat),
{
    let count: usize = match kind {
        OscillatorType::Sine => 1,
        OscillatorType::Sawtooth => harmonics,
        _ => (harmonics + 1) / 2,
    };
    let mut out: Vec<Partial> = Vec::new();
    let mut rank: usize = 0;
    while rank < count
        invariant
            table_length >= 2,
            harmonics <= 0x800_0000,
            harmonics * 4 <= table_length,
            count == partial_count(kind, harmonics as nat),
            rank <= count,
            out@.len() == rank,
            forall|i: int|
                0 <= i < rank ==> #[trigger] out@[i] == partial_of(kind, i as nat, table_length as nat),
        decreases count - rank,
    {
        let k: usize = match kind {
            OscillatorType::Sine => rank + 1,
            OscillatorType::Sawtooth => rank + 1,
            _ => 2 * rank + 1,
        };
        assert(k <= harmonics || kind == OscillatorType::Sine);
        assert(k < table_length);
        let denominator: u64 = if kind == OscillatorType::Triangle {
            assert(k * k <= harmonics * harmonics) by (nonlinear_arith)
                requires
                    k <= harmonics,
            ;
            assert(harmonics * harmonics <= 0x800_0000 * 0x800_0000) by (nonlinear_arith)
                requires
                    harmonics <= 0x800_0000,
            ;
            (k as u64) * (k as u64)
        } else {
            k as u64
        };
        let p = Partial {
            bin: k,
            mirror: table_length - k,
            negative: kind == OscillatorType::Triangle && rank % 2 == 1,
            denominator,
        };
        out.push(p);
        rank += 1;
    }
    out
}

/// Index of a table position `position`, wrapped into a table of `length`
/// samples.
pub fn table_index(position: usize, length: usize) -> (r: usize)
    requires
        length > 0,
    ensures
        r == position % length,
{
    position % length
}

/// The four table indices that cubic interpolation reads around `i`: one
/// before, `i` itself and two after, each wrapped into the table.
pub fn cubic_taps(i: usize, length: usize) -> (r: (usize, usize, usize, usize))
    requires
        i < length,
        length <= usize::MAX - 2,
    ensures
        r.0 == (i + length - 1) % length as int,
        r.1 == i,
        r.2 == (i + 1) % length as int,
        r.3 == (i + 2) % length as int,
{
    let before = if i == 0 {
        length - 1
    } else {
        i - 1
    };
    proof {
        if i == 0 {
            lemma_small_mod((length - 1) as nat, length as nat);
        } else {
            lemma_mod_add_multiples_vanish((i - 1) as int, length as int);
            lemma_small_mod((i - 1) as nat, length as nat);
        }
    }
    (before, i, (i + 1) % length, (i + 2) % length)
}

} // verus!
