use vstd::prelude::*;
use vstd::arithmetic::div_mod::lemma_fundamental_div_mod;

use crate::fft::{following_window, window_position, WindowType};
use crate::inputs::{is_exit_key, InputEvent, Key};

verus! {

/// The user-controlled part of the application state.
#[derive(Clone, Copy, Debug, PartialEq, Eq, Structural)]
pub struct Controls {
    /// The window applied before each transform.
    pub window: WindowType,
    /// Whether the input-device list is shown.
    pub edit_in_device: bool,
}

/// What the main loop has to do after an event.
#[derive(Clone, Copy, Debug, PartialEq, Eq, Structural)]
pub struct Reaction {
    /// Read the newest samples and recompute the spectrum.
    pub update_audio: bool,
    /// Enumerate the input devices again (the list is about to be shown).
    pub refresh_devices: bool,
    /// Leave the main loop.
    pub exit: bool,
}

/// The key an event stands for: a tick counts as an unknown key.
pub open spec fn event_key(event: InputEvent) -> Key {
    match event {
        InputEvent::Input(k) => k,
        InputEvent::Tick => Key::Unknown,
    }
}

/// The controls after `event`: the right arrow selects the next window, the left arrow
/// shows or hides the device list.
pub open spec fn next_controls(c: Controls, event: InputEvent) -> Controls {
    let key = event_key(event);
    Controls {
        window: if key == Key::Right {
            following_window(c.window)
        } else {
            c.window
        },
        edit_in_device: if key == Key::Left {
            !c.edit_in_device
        } else {
            c.edit_in_device
        },
    }
}

/// What the main loop does after `event`.
pub open spec fn reaction_to(c: Controls, event: InputEvent) -> Reaction {
    let key = event_key(event);
    Reaction {
        update_audio: key == Key::Unknown,
        refresh_devices: key == Key::Left && !c.edit_in_device,
        exit: is_exit_key(key),
    }
}

impl Controls {
    /// Applies one event to the controls and says what the main loop must do.
    pub fn react(&mut self, event: InputEvent) -> (r: Reaction)
        ensures
            *final(self) == next_controls(*old(self), event),
            r == reaction_to(*old(self), event),
    {
        let key = match event {
            InputEvent::Input(k) => k,
            InputEvent::Tick => Key::Unknown,
        };
        let update_audio = key.is_unknown();
        if key.is_right_arrow() {
            self.window = self.window.next();
        }
        let mut refresh_devices = false;
        if key.is_left_arrow() {
            if !self.edit_in_device {
                refresh_devices = true;
            }
            self.edit_in_device = !self.edit_in_device;
        }
        let exit = key.is_exit();
        Reaction { update_audio, refresh_devices, exit }
    }
}

/// Pressing the left arrow twice shows and hides the device list (or the other way round),
/// leaving the controls as they were; the device list is read again exactly when it is
/// about to be shown.
pub proof fn lemma_device_list_toggle(c: Controls)
    ensures
        next_controls(next_controls(c, InputEvent::Input(Key::Left)), InputEvent::Input(Key::Left))
            == c,
        reaction_to(c, InputEvent::Input(Key::Left)).refresh_devices == !c.edit_in_device,
        next_controls(c, InputEvent::Input(Key::Left)).edit_in_device == !c.edit_in_device,
{
}

/// A tick leaves the controls unchanged, asks for a spectrum update, and never ends the
/// program.
pub proof fn lemma_tick_only_updates(c: Controls)
    ensures
        next_controls(c, InputEvent::Tick) == c,
        reaction_to(c, InputEvent::Tick) == (Reaction {
            update_audio: true,
            refresh_devices: false,
            exit: false,
        }),
{
}

/// The window changes only on the right arrow, and the device list only on the left arrow.
pub proof fn lemma_controls_change_only_on_arrows(c: Controls, event: InputEvent)
    ensures
        event_key(event) != Key::Right ==> next_controls(c, event).window == c.window,
        event_key(event) != Key::Left ==> next_controls(c, event).edit_in_device
            == c.edit_in_device,
        event_key(event) != Key::Left ==> !reaction_to(c, event).refresh_devices,
{
}

/// The right arrow moves to the next window of the cycle Hanning, Hamming, Blackman,
/// Nuttall, whatever the current one: the window's position advances by one modulo four,
/// four presses return to the starting controls, and no press keeps the same window.
pub proof fn lemma_right_arrow_advances_window(c: Controls)
    ensures
        window_position(next_controls(c, InputEvent::Input(Key::Right)).window) == (
        window_position(c.window) + 1) % 4,
        next_controls(c, InputEvent::Input(Key::Right)).window != c.window,
        next_controls(
            next_controls(
                next_controls(next_controls(c, InputEvent::Input(Key::Right)), InputEvent::Input(Key::Right)),
                InputEvent::Input(Key::Right),
            ),
            InputEvent::Input(Key::Right),
        ) == c,
        next_controls(c, InputEvent::Input(Key::Right)).edit_in_device == c.edit_in_device,
{
}

/// What each kind of key asks of the main loop, whatever the state: only Esc, `q` and
/// Ctrl-C end the program, only an unrecognised key (or a tick) updates the spectrum, and
/// only the left arrow refreshes the device list, when the list is hidden.
pub proof fn lemma_reaction_by_key(c: Controls, k: Key)
    ensures
        reaction_to(c, InputEvent::Input(k)).exit <==> (k == Key::Esc || k == Key::Char('q')
            || k == Key::Ctrl('c')),
        reaction_to(c, InputEvent::Input(k)).update_audio <==> k == Key::Unknown,
        reaction_to(c, InputEvent::Input(k)).refresh_devices <==> (k == Key::Left
            && !c.edit_in_device),
        !reaction_to(c, InputEvent::Tick).exit,
        reaction_to(c, InputEvent::Tick).update_audio,
{
}

/// The sum of a sequence of tick durations.
pub open spec fn seq_sum(s: Seq<i64>) -> int
    decreases s.len(),
{
    if s.len() == 0 {
        0
    } else {
        seq_sum(s.drop_last()) + s.last()
    }
}

/// Replacing one entry changes the sum by the difference of the entries.
pub proof fn lemma_seq_sum_update(s: Seq<i64>, i: int, v: i64)
    requires
        0 <= i < s.len(),
    ensures
        seq_sum(s.update(i, v)) == seq_sum(s) - s[i] + v,
    decreases s.len(),
{
    if i < s.len() - 1 {
        lemma_seq_sum_update(s.drop_last(), i, v);
        assert(s.update(i, v).drop_last() =~= s.drop_last().update(i, v));
    } else {
        assert(s.update(i, v).drop_last() =~= s.drop_last());
    }
}

/// The mean of a sum over `len` entries, rounded toward zero.
pub open spec fn truncated_mean(sum: int, len: nat) -> int {
    if sum >= 0 {
        sum / (len as int)
    } else {
        -((-sum) / (len as int))
    }
}

/// The mean rounded toward zero is the whole number of `len`s in the sum: for a sum `s`
/// that is not negative, `mean * len <= s < (mean + 1) * len`; for a negative sum,
/// `(mean - 1) * len < s <= mean * len`.
pub proof fn lemma_mean_bracket(sum: int, len: nat)
    requires
        len > 0,
    ensures
        sum >= 0 ==> truncated_mean(sum, len) * len <= sum < (truncated_mean(sum, len) + 1)
            * len,
        sum < 0 ==> (truncated_mean(sum, len) - 1) * len < sum <= truncated_mean(sum, len)
            * len,
{
    let l = len as int;
    if sum >= 0 {
        lemma_fundamental_div_mod(sum, l);
        let q = sum / l;
        let r = sum % l;
        assert(0 <= r < l);
        assert(q * l <= sum < (q + 1) * l) by (nonlinear_arith)
            requires
                sum == l * q + r,
                0 <= r < l,
        ;
    } else {
        lemma_fundamental_div_mod(-sum, l);
        let q = (-sum) / l;
        let r = (-sum) % l;
        assert(0 <= r < l);
        assert((-q - 1) * l < sum <= (-q) * l) by (nonlinear_arith)
            requires
                -sum == l * q + r,
                0 <= r < l,
        ;
    }
}

/// The frame rate shown is the whole number of average frames that fit in a second,
/// capped at 255: for a positive average `a` below the cap, `fps * a <= 1_000_000 <
/// (fps + 1) * a`; a positive average too short for the cap shows 255, a zero average
/// shows 255 and a negative one 0.
pub proof fn lemma_fps_counts_frames_per_second(avg_tick_micros: i64)
    ensures
        avg_tick_micros > 0 && frames_per_second(avg_tick_micros) < 255 ==> frames_per_second(
            avg_tick_micros,
        ) * avg_tick_micros <= 1_000_000 < (frames_per_second(avg_tick_micros) + 1)
            * avg_tick_micros,
        avg_tick_micros > 0 && 255 * avg_tick_micros <= 1_000_000 ==> frames_per_second(
            avg_tick_micros,
        ) == 255,
        avg_tick_micros == 0 ==> frames_per_second(avg_tick_micros) == 255,
        avg_tick_micros < 0 ==> frames_per_second(avg_tick_micros) == 0,
{
    if avg_tick_micros > 0 {
        let a = avg_tick_micros as int;
        lemma_fundamental_div_mod(1_000_000, a);
        let q = 1_000_000int / a;
        let r = 1_000_000int % a;
        assert(0 <= r < a);
        assert(q * a <= 1_000_000 < (q + 1) * a) by (nonlinear_arith)
            requires
                1_000_000 == a * q + r,
                0 <= r < a,
        ;
        assert(255 * a <= 1_000_000 ==> q >= 255) by (nonlinear_arith)
            requires
                q * a <= 1_000_000 < (q + 1) * a,
                a > 0,
        ;
    }
}

/// Number of frame durations averaged to estimate the frame rate.
pub const TICK_HISTORY: usize = 100;

/// Records the newest frame duration `newtick` (in microseconds) in the ring `ticklist`
/// at `tickindex`, keeps `ticksum` as the running sum, advances the index modulo
/// `TICK_HISTORY`, and returns the average entry of the ring (rounded toward zero).
/// Only the range of `i64` limits the sums handled.
pub fn calc_avg_tick(
    tickindex: &mut usize,
    ticksum: &mut i64,
    ticklist: &mut Vec<i64>,
    newtick: i64,
) -> (avg: i64)
    requires
        *old(tickindex) < old(ticklist)@.len(),
        i64::MIN <= *old(ticksum) - old(ticklist)@[*old(tickindex) as int] <= i64::MAX,
        i64::MIN <= *old(ticksum) - old(ticklist)@[*old(tickindex) as int] + newtick <= i64::MAX,
    ensures
        final(ticklist)@ == old(ticklist)@.update(*old(tickindex) as int, newtick),
        *final(ticksum) == *old(ticksum) - old(ticklist)@[*old(tickindex) as int] + newtick,
        *final(tickindex) == (*old(tickindex) + 1) % (TICK_HISTORY as int),
        avg == truncated_mean(*final(ticksum) as int, final(ticklist)@.len()),
        *final(ticksum) >= 0 ==> avg * final(ticklist)@.len() <= *final(ticksum) < (avg + 1)
            * final(ticklist)@.len(),
        *final(ticksum) < 0 ==> (avg - 1) * final(ticklist)@.len() < *final(ticksum) <= avg
            * final(ticklist)@.len(),
        *old(ticksum) == seq_sum(old(ticklist)@) ==> *final(ticksum) == seq_sum(final(ticklist)@),
{
    let i = *tickindex;
    proof {
        lemma_seq_sum_update(ticklist@, i as int, newtick);
    }
    *ticksum = *ticksum - ticklist[i];
    *ticksum = *ticksum + newtick;
    ticklist.set(i, newtick);
    *tickindex = (i % TICK_HISTORY + 1) % TICK_HISTORY;
    proof {
        lemma_mean_bracket(*ticksum as int, ticklist@.len());
    }
    let len = ticklist.len() as u64;
    let s = *ticksum;
    if s >= 0 {
        ((s as u64) / len) as i64
    } else {
        let magnitude: u64 = ((0i128 - (s as i128)) as u64) / len;
        (0i128 - (magnitude as i128)) as i64
    }
}

/// While the running sum equals the sum of the recorded durations, recording a new
/// duration keeps it so: the returned value is always the mean of the ring.
pub proof fn lemma_tick_sum_invariant(ticklist: Seq<i64>, ticksum: int, i: int, newtick: i64)
    requires
        0 <= i < ticklist.len(),
        ticksum == seq_sum(ticklist),
    ensures
        ticksum - ticklist[i] + newtick == seq_sum(ticklist.update(i, newtick)),
{
    lemma_seq_sum_update(ticklist, i, newtick);
}

/// The frame rate shown for an average frame duration of `avg_tick_micros` microseconds:
/// whole frames per second, saturating at 255 (255 for a zero duration, an unbounded rate)
/// and at 0 (for a negative duration).
pub open spec fn frames_per_second(avg_tick_micros: i64) -> u8 {
    if avg_tick_micros < 0 {
        0
    } else if avg_tick_micros == 0 || 1_000_000int / (avg_tick_micros as int) >= 255 {
        255
    } else {
        (1_000_000int / (avg_tick_micros as int)) as u8
    }
}

/// Frame rate for an average frame duration in microseconds.
pub fn fps_from_avg_tick(avg_tick_micros: i64) -> (fps: u8)
    ensures
        fps == frames_per_second(avg_tick_micros),
{
    if avg_tick_micros < 0 {
        return 0;
    }
    if avg_tick_micros == 0 {
        return 255;
    }
    let per_second: u64 = 1_000_000 / (avg_tick_micros as u64);
    if per_second >= 255 {
        255
    } else {
        per_second as u8
    }
}

/// The ring after recording `ticks` one by one, starting at position `index`.
pub open spec fn ring_after(ticklist: Seq<i64>, index: nat, ticks: Seq<i64>) -> Seq<i64>
    decreases ticks.len(),
{
    if ticks.len() == 0 {
        ticklist
    } else {
        ring_after(ticklist, index, ticks.drop_last()).update(
            (index + ticks.len() - 1) % (TICK_HISTORY as int),
            ticks.last(),
        )
    }
}

/// Recording goes round the ring: after any number of ticks, the ring holds the most
/// recent `TICK_HISTORY` of them (all of them, if fewer), the newest at the position just
/// before the current index, so the average is taken over the latest frames.
pub proof fn lemma_ring_holds_latest_ticks(ticklist: Seq<i64>, index: nat, ticks: Seq<i64>, j: int)
    requires
        ticklist.len() == TICK_HISTORY,
        index < TICK_HISTORY,
        0 <= j < ticks.len(),
        j < TICK_HISTORY,
    ensures
        ring_after(ticklist, index, ticks).len() == TICK_HISTORY,
        ring_after(ticklist, index, ticks)[(index + ticks.len() - 1 - j) % (TICK_HISTORY as int)]
            == ticks[ticks.len() - 1 - j],
    decreases ticks.len(),
{
    let m = ticks.len();
    let prev = ticks.drop_last();
    lemma_ring_length(ticklist, index, prev);
    if j > 0 {
        lemma_ring_holds_latest_ticks(ticklist, index, prev, j - 1);
        let a = index + m - 1;
        assert(a % 100 != (a - j) % 100) by (nonlinear_arith)
            requires
                0 < j < 100,
                a >= j,
        ;
    }
}

/// Recording never changes the size of the ring.
pub proof fn lemma_ring_length(ticklist: Seq<i64>, index: nat, ticks: Seq<i64>)
    requires
        ticklist.len() == TICK_HISTORY,
    ensures
        ring_after(ticklist, index, ticks).len() == ticklist.len(),
    decreases ticks.len(),
{
    if ticks.len() > 0 {
        lemma_ring_length(ticklist, index, ticks.drop_last());
    }
}

/// One call of `calc_avg_tick` extends the ring by one tick: starting at `index`, after the
/// ticks in `ticks` the next one lands at position `(index + ticks.len()) % TICK_HISTORY`,
/// which is where the index stands then.
pub proof fn lemma_ring_step(ticklist: Seq<i64>, index: nat, ticks: Seq<i64>, t: i64)
    ensures
        ring_after(ticklist, index, ticks.push(t)) == ring_after(ticklist, index, ticks).update(
            (index as int + ticks.len() as int) % 100,
            t,
        ),
        ((index as int + ticks.len() as int) % 100 + 1) % 100 == (index as int + ticks.len() as int
            + 1) % 100,
{
    assert(ticks.push(t).drop_last() =~= ticks);
}

} // verus!
