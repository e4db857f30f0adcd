use vstd::prelude::*;
use vstd::arithmetic::div_mod::lemma_div_is_ordered;
use vstd::arithmetic::mul::lemma_mul_inequality;
use vstd::arithmetic::div_mod::lemma_fundamental_div_mod;

verus! {

/// The tapering window applied to a block of samples before the transform.
#[derive(Clone, Copy, Debug, PartialEq, Eq, Structural)]
pub enum WindowType {
    Hanning,
    Hamming,
    Blackman,
    Nuttall,
}

/// Number of selectable windows.
pub const WINDOW_COUNT: usize = 4;

/// Position of a window in the cycle Hanning, Hamming, Blackman, Nuttall.
pub open spec fn window_position(w: WindowType) -> nat {
    match w {
        WindowType::Hanning => 0,
        WindowType::Hamming => 1,
        WindowType::Blackman => 2,
        WindowType::Nuttall => 3,
    }
}

/// The window at a position of the cycle.
pub open spec fn window_at(i: nat) -> WindowType {
    if i == 0 {
        WindowType::Hanning
    } else if i == 1 {
        WindowType::Hamming
    } else if i == 2 {
        WindowType::Blackman
    } else {
        WindowType::Nuttall
    }
}

/// The window that follows `w` when the user asks for the next one.
pub open spec fn following_window(w: WindowType) -> WindowType {
    window_at((window_position(w) + 1) % 4)
}

impl WindowType {
    /// The position of this window in the cycle (its declaration order).
    pub fn index(&self) -> (i: usize)
        ensures
            i == window_position(*self),
            i < WINDOW_COUNT,
    {
        match self {
            WindowType::Hanning => 0,
            WindowType::Hamming => 1,
            WindowType::Blackman => 2,
            WindowType::Nuttall => 3,
        }
    }

    /// The window at position `i` of the cycle.
    pub fn from_index(i: usize) -> (w: WindowType)
        requires
            i < WINDOW_COUNT,
        ensures
            w == window_at(i as nat),
            window_position(w) == i,
    {
        let windows = [
            WindowType::Hanning,
            WindowType::Hamming,
            WindowType::Blackman,
            WindowType::Nuttall,
        ];
        windows[i]
    }

    /// The next window of the cycle, wrapping from Nuttall back to Hanning.
    pub fn next(&self) -> (w: WindowType)
        ensures
            w == following_window(*self),
    {
        let new_idx = (self.index() + 1) % WINDOW_COUNT;
        WindowType::from_index(new_idx)
    }
}

/// Asking four times for the next window comes back to the window one started from.
pub proof fn lemma_window_cycle_period(w: WindowType)
    ensures
        following_window(following_window(following_window(following_window(w)))) == w,
{
}

/// The four windows reached from any window, one step at a time, are all different:
/// the cycle visits every window.
pub proof fn lemma_window_cycle_visits_all(w: WindowType)
    ensures
        w != following_window(w),
        w != following_window(following_window(w)),
        w != following_window(following_window(following_window(w))),
        following_window(w) != following_window(following_window(w)),
        following_window(w) != following_window(following_window(following_window(w))),
        following_window(following_window(w)) != following_window(
            following_window(following_window(w)),
        ),
{
}

/// The next window is one step further in the declaration order Hanning, Hamming,
/// Blackman, Nuttall, wrapping from the last to the first.
pub proof fn lemma_next_window_steps_forward(w: WindowType)
    ensures
        window_position(following_window(w)) == (window_position(w) + 1) % 4,
        w == WindowType::Nuttall <==> following_window(w) == WindowType::Hanning,
{
}

/// Position and window are inverse to each other.
pub proof fn lemma_window_position_roundtrip(w: WindowType, i: nat)
    ensures
        window_at(window_position(w)) == w,
        i < 4 ==> window_position(window_at(i)) == i,
{
}


/// Number of complex values a real transform of `n_samples` samples produces: the
/// frequencies `0 ..= n_samples / 2`.
pub open spec fn spectrum_length(n_samples: nat) -> nat {
    n_samples / 2 + 1
}

/// Whether the spectrum of `n_samples` samples fits in `bins` smoothing slots, one slot
/// per frequency of the spectrum.
pub fn spectrum_fits(n_samples: usize, bins: usize) -> (r: bool)
    ensures
        r == (spectrum_length(n_samples as nat) <= bins),
{
    n_samples / 2 < bins
}

/// Number of display bands for which bands are 2000 Hz wide instead of 1 Hz wide.
pub const WIDE_BAND_COUNT: usize = 10;

/// Width in Hz of one band when there are `WIDE_BAND_COUNT` of them.
pub const WIDE_BAND_HZ: u128 = 2000;

/// The band that spectrum entry `i` of a transform of `n_samples` samples taken at
/// `sample_rate` Hz falls in, when the display has `bands` bands.
///
/// Entry `i` has frequency `i * sample_rate / n_samples`.  Entries at or above the integer
/// Nyquist limit `sample_rate / 2` fall in no band.  The frequency, rounded to the nearest
/// Hz (halves up), is the band when there are not exactly ten bands; with ten bands each
/// band is 2000 Hz wide.  A band at or past `bands` is dropped.  With no samples the
/// frequency step is unbounded: only entry 0 (or every entry, at sample rate 0) lands in
/// band 0.
pub open spec fn band_of(i: nat, sample_rate: nat, n_samples: nat, bands: nat) -> Option<nat> {
    if n_samples == 0 {
        if (i == 0 || sample_rate == 0) && bands > 0 {
            Some(0)
        } else {
            None
        }
    } else if i * sample_rate >= (sample_rate / 2) * n_samples {
        None
    } else {
        let hz = (2 * (i * sample_rate) + n_samples) / (2 * n_samples);
        let band = if bands == 10 {
            hz / 2000
        } else {
            hz
        };
        if band >= bands {
            None
        } else {
            Some(band)
        }
    }
}

/// The band of spectrum entry `i`; see `band_of`.
pub fn band_index(i: usize, sample_rate: u32, n_samples: usize, bands: usize) -> (r: Option<usize>)
    ensures
        r matches Some(b) ==> band_of(i as nat, sample_rate as nat, n_samples as nat, bands as nat)
            == Some(b as nat),
        r is None ==> band_of(i as nat, sample_rate as nat, n_samples as nat, bands as nat) is None,
{
    if n_samples == 0 {
        if (i == 0 || sample_rate == 0) && bands > 0 {
            return Some(0);
        } else {
            return None;
        }
    }
    let i_wide = i as u128;
    let sr = sample_rate as u128;
    let n = n_samples as u128;
    assert(i_wide * sr <= 0xffff_ffff_ffff_ffffu128 * 0xffff_ffffu128) by (nonlinear_arith)
        requires
            i_wide <= 0xffff_ffff_ffff_ffffu128,
            sr <= 0xffff_ffffu128,
    ;
    assert((sr / 2) * n <= 0xffff_ffffu128 * 0xffff_ffff_ffff_ffffu128) by (nonlinear_arith)
        requires
            sr / 2 <= 0xffff_ffffu128,
            n <= 0xffff_ffff_ffff_ffffu128,
    ;
    let product = i_wide * sr;
    if product >= (sr / 2) * n {
        return None;
    }
    let hz = (2 * product + n) / (2 * n);
    let band = if bands == WIDE_BAND_COUNT {
        hz / WIDE_BAND_HZ
    } else {
        hz
    };
    if band >= bands as u128 {
        None
    } else {
        Some(band as usize)
    }
}

/// Which spectrum entry feeds each of `bands` bands: the first entry (lowest frequency)
/// below `spectrum_len` that falls in the band, or none.
pub fn band_sources(spectrum_len: usize, sample_rate: u32, n_samples: usize, bands: usize) -> (r: Vec<
    Option<usize>,
>)
    ensures
        r@.len() == bands,
        forall|b: int|
            0 <= b < bands ==> match #[trigger] r@[b] {
                Some(i) => {
                    &&& i < spectrum_len
                    &&& band_of(i as nat, sample_rate as nat, n_samples as nat, bands as nat) == Some(
                        b as nat,
                    )
                    &&& forall|k: nat|
                        k < i ==> band_of(k, sample_rate as nat, n_samples as nat, bands as nat)
                            != Some(b as nat)
                },
                None => forall|k: nat|
                    k < spectrum_len ==> band_of(k, sample_rate as nat, n_samples as nat, bands as nat)
                        != Some(b as nat),
            },
{
    let mut r: Vec<Option<usize>> = Vec::new();
    for b in 0..bands
        invariant
            r@.len() == b,
            forall|j: int| 0 <= j < b ==> #[trigger] r@[j] is None,
    {
        r.push(None);
    }
    for i in 0..spectrum_len
        invariant
            r@.len() == bands,
            forall|b: int|
                0 <= b < bands ==> match #[trigger] r@[b] {
                    Some(s) => {
                        &&& s < i
                        &&& band_of(s as nat, sample_rate as nat, n_samples as nat, bands as nat)
                            == Some(b as nat)
                        &&& forall|k: nat|
                            k < s ==> band_of(k, sample_rate as nat, n_samples as nat, bands as nat)
                                != Some(b as nat)
                    },
                    None => forall|k: nat|
                        k < i ==> band_of(k, sample_rate as nat, n_samples as nat, bands as nat)
                            != Some(b as nat),
                },
    {
        match band_index(i, sample_rate, n_samples, bands) {
            Some(b) => {
                if r[b].is_none() {
                    r.set(b, Some(i));
                }
            },
            None => {},
        }
    }
    r
}

/// Higher frequencies never land in lower bands: bands follow the order of the spectrum.
pub proof fn lemma_band_order(i: nat, j: nat, sample_rate: nat, n_samples: nat, bands: nat)
    requires
        i <= j,
        band_of(i, sample_rate, n_samples, bands) is Some,
        band_of(j, sample_rate, n_samples, bands) is Some,
    ensures
        band_of(i, sample_rate, n_samples, bands)->0 <= band_of(j, sample_rate, n_samples, bands)->0,
{
    if n_samples > 0 {
        lemma_mul_inequality(i as int, j as int, sample_rate as int);
        let d = 2 * n_samples;
        lemma_div_is_ordered(
            (2 * (i * sample_rate) + n_samples) as int,
            (2 * (j * sample_rate) + n_samples) as int,
            d as int,
        );
        let hi = (2 * (i * sample_rate) + n_samples) / d;
        let hj = (2 * (j * sample_rate) + n_samples) / d;
        if bands == 10 {
            lemma_div_is_ordered(hi as int, hj as int, 2000);
        }
    }
}

/// Every band a spectrum entry falls in is one of the display's bands, and entries at or
/// above the Nyquist limit fall in none.
pub proof fn lemma_band_in_range(i: nat, sample_rate: nat, n_samples: nat, bands: nat)
    ensures
        band_of(i, sample_rate, n_samples, bands) matches Some(b) ==> b < bands,
        n_samples > 0 && i * sample_rate >= (sample_rate / 2) * n_samples ==> band_of(
            i,
            sample_rate,
            n_samples,
            bands,
        ) is None,
{
}

/// Integer division brackets: `x / d` is the one `q` with `d * q <= x < d * (q + 1)`.
proof fn lemma_quotient_bracket(x: int, d: int, lo: int, hi: int)
    requires
        d > 0,
        x >= 0,
        lo >= 0,
        hi >= lo,
    ensures
        (lo <= x / d < hi) <==> (d * lo <= x < d * hi),
{
    lemma_fundamental_div_mod(x, d);
    let q = x / d;
    let r = x % d;
    assert(0 <= r < d);
    assert((lo <= q < hi) <==> (d * lo <= d * q + r < d * hi)) by (nonlinear_arith)
        requires
            d > 0,
            0 <= r < d,
            q >= 0,
            lo >= 0,
            hi >= lo,
    ;
}

/// Where a spectrum entry below the Nyquist limit goes, in terms of its frequency
/// `f = i * sample_rate / n_samples`.  With ten bands it goes to band `b` exactly when
/// `b < 10` and `2000 * b - 1/2 <= f < 2000 * (b + 1) - 1/2` (its frequency rounded to the
/// nearest Hz lies in the band's 2000 Hz), so an entry at or above 19999.5 Hz goes to no
/// band; with any other number of bands it goes to band `b` exactly when `b < bands` and
/// `b - 1/2 <= f < b + 1/2`.  Both are written multiplied out by `2 * n_samples`.
pub proof fn lemma_band_frequency(i: nat, sample_rate: nat, n_samples: nat, bands: nat, b: nat)
    requires
        n_samples > 0,
        i * sample_rate < (sample_rate / 2) * n_samples,
    ensures
        bands == 10 ==> (band_of(i, sample_rate, n_samples, bands) == Some(b) <==> (b < 10 && 2
            * n_samples * (2000 * b) <= 2 * (i * sample_rate) + n_samples < 2 * n_samples * (2000
            * (b + 1)))),
        bands != 10 ==> (band_of(i, sample_rate, n_samples, bands) == Some(b) <==> (b < bands && 2
            * n_samples * b <= 2 * (i * sample_rate) + n_samples < 2 * n_samples * (b + 1))),
{
    let x = (2 * (i * sample_rate) + n_samples) as int;
    let d = (2 * n_samples) as int;
    let hz = x / d;
    if bands == 10 {
        lemma_quotient_bracket(x, d, (2000 * b) as int, (2000 * (b + 1)) as int);
    } else {
        lemma_quotient_bracket(x, d, b as int, (b + 1) as int);
    }
}

/// The spectrum of `n` samples has one entry per frequency `0 ..= n / 2`: its length is
/// the least count exceeding half the samples.
pub proof fn lemma_spectrum_length(n: nat)
    ensures
        2 * (spectrum_length(n) - 1) <= n < 2 * spectrum_length(n),
{
}

/// The bookkeeping of the spectrum engine: the block of samples to transform next, the
/// sample rate, the number of smoothing slots and the selected window.  The samples are
/// of any copyable type; the numeric work on them is done by the caller.
pub struct FFTEngine<S> {
    curr_data: Vec<S>,
    sample_rate: u32,
    bins: usize,
    window_fn: WindowType,
}

impl<S: Copy> FFTEngine<S> {
    /// The samples waiting to be transformed.
    pub closed spec fn samples(&self) -> Seq<S> {
        self.curr_data@
    }

    /// The sample rate in Hz.
    pub closed spec fn rate(&self) -> u32 {
        self.sample_rate
    }

    /// The number of smoothing slots.
    pub closed spec fn slots(&self) -> usize {
        self.bins
    }

    /// The selected window.
    pub closed spec fn window(&self) -> WindowType {
        self.window_fn
    }

    /// An engine with no samples yet.
    pub fn new(sample_rate: u32, bins: usize, window_fn: WindowType) -> (e: Self)
        ensures
            e.samples() == Seq::<S>::empty(),
            e.rate() == sample_rate,
            e.slots() == bins,
            e.window() == window_fn,
    {
        FFTEngine { curr_data: Vec::new(), sample_rate, bins, window_fn }
    }

    /// Selects the window for the next transforms.
    pub fn set_window(&mut self, window_fn: WindowType)
        ensures
            final(self).window() == window_fn,
            final(self).samples() == old(self).samples(),
            final(self).rate() == old(self).rate(),
            final(self).slots() == old(self).slots(),
    {
        self.window_fn = window_fn;
    }

    /// The selected window.
    pub fn get_window(&self) -> (w: WindowType)
        ensures
            w == self.window(),
    {
        self.window_fn
    }

    /// Takes a new block of samples; an empty block is ignored and the previous block kept.
    pub fn set_src_buf(&mut self, samples: &[S])
        ensures
            samples@.len() == 0 ==> final(self).samples() == old(self).samples(),
            samples@.len() > 0 ==> final(self).samples() == samples@,
            final(self).window() == old(self).window(),
            final(self).rate() == old(self).rate(),
            final(self).slots() == old(self).slots(),
    {
        if samples.is_empty() {
            return;
        }
        self.curr_data = vstd::slice::slice_to_vec(samples);
    }

    /// Takes a new block of samples, like `set_src_buf`.
    pub fn push_samples(&mut self, samples: &[S])
        ensures
            samples@.len() == 0 ==> final(self).samples() == old(self).samples(),
            samples@.len() > 0 ==> final(self).samples() == samples@,
            final(self).window() == old(self).window(),
            final(self).rate() == old(self).rate(),
            final(self).slots() == old(self).slots(),
    {
        self.set_src_buf(samples);
    }

    /// A copy of the samples waiting to be transformed.
    pub fn get_src_buf(&self) -> (v: Vec<S>)
        ensures
            v@ == self.samples(),
    {
        vstd::slice::slice_to_vec(self.curr_data.as_slice())
    }

    /// A copy of the samples waiting to be transformed, like `get_src_buf`.
    pub fn get_curr_data(&self) -> (v: Vec<S>)
        ensures
            v@ == self.samples(),
    {
        self.get_src_buf()
    }

    /// The sample rate in Hz.
    pub fn sample_rate(&self) -> (r: u32)
        ensures
            r == self.rate(),
    {
        self.sample_rate
    }

    /// The number of smoothing slots.
    pub fn bins(&self) -> (n: usize)
        ensures
            n == self.slots(),
    {
        self.bins
    }

    /// Whether the window is applied to the current block: only blocks of at least two
    /// samples are windowed.
    pub fn window_applies(&self) -> (r: bool)
        ensures
            r == (self.samples().len() > 1),
    {
        1 < self.curr_data.len()
    }

    /// Whether the spectrum of the current block has a slot for each of its frequencies.
    pub fn spectrum_fits_slots(&self) -> (r: bool)
        ensures
            r == (spectrum_length(self.samples().len()) <= self.slots()),
    {
        spectrum_fits(self.curr_data.len(), self.bins)
    }

    /// Which entry of a spectrum of `spectrum_len` entries of the current block feeds each
    /// slot, used as a display band; see `band_sources`.
    pub fn band_sources(&self, spectrum_len: usize) -> (r: Vec<Option<usize>>)
        ensures
            r@.len() == self.slots(),
            forall|b: int|
                0 <= b < self.slots() ==> match #[trigger] r@[b] {
                    Some(i) => {
                        &&& i < spectrum_len
                        &&& band_of(
                            i as nat,
                            self.rate() as nat,
                            self.samples().len(),
                            self.slots() as nat,
                        ) == Some(b as nat)
                        &&& forall|k: nat|
                            k < i ==> band_of(
                                k,
                                self.rate() as nat,
                                self.samples().len(),
                                self.slots() as nat,
                            ) != Some(b as nat)
                    },
                    None => forall|k: nat|
                        k < spectrum_len ==> band_of(
                            k,
                            self.rate() as nat,
                            self.samples().len(),
                            self.slots() as nat,
                        ) != Some(b as nat),
                },
    {
        band_sources(spectrum_len, self.sample_rate, self.curr_data.len(), self.bins)
    }
}

} // verus!
