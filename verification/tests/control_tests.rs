use audiolyzer::control::{calc_avg_tick, fps_from_avg_tick, Controls, Reaction, TICK_HISTORY};
use audiolyzer::fft::WindowType;
use audiolyzer::inputs::{InputEvent, Key};

#[test]
fn key_predicates() {
    assert!(Key::Esc.is_exit());
    assert!(Key::Char('q').is_exit());
    assert!(Key::Ctrl('c').is_exit());
    assert!(!Key::Char('c').is_exit());
    assert!(Key::Right.is_right_arrow());
    assert!(Key::Left.is_left_arrow());
    assert!(Key::Down.is_down_arrow());
    assert!(Key::Unknown.is_unknown());
    assert!(!Key::Up.is_unknown());
}

#[test]
fn tick_asks_for_update_only() {
    let mut c = Controls { window: WindowType::Blackman, edit_in_device: false };
    let r = c.react(InputEvent::Tick);
    assert_eq!(r, Reaction { update_audio: true, refresh_devices: false, exit: false });
    assert_eq!(c, Controls { window: WindowType::Blackman, edit_in_device: false });
}

#[test]
fn unknown_key_also_updates() {
    let mut c = Controls { window: WindowType::Hanning, edit_in_device: true };
    let r = c.react(InputEvent::Input(Key::Unknown));
    assert!(r.update_audio);
}

#[test]
fn right_arrow_selects_next_window() {
    let mut c = Controls { window: WindowType::Nuttall, edit_in_device: false };
    let r = c.react(InputEvent::Input(Key::Right));
    assert_eq!(c.window, WindowType::Hanning);
    assert_eq!(r, Reaction { update_audio: false, refresh_devices: false, exit: false });
}

#[test]
fn left_arrow_toggles_device_list() {
    let mut c = Controls { window: WindowType::Hamming, edit_in_device: false };
    let r1 = c.react(InputEvent::Input(Key::Left));
    assert!(r1.refresh_devices);
    assert!(c.edit_in_device);
    let r2 = c.react(InputEvent::Input(Key::Left));
    assert!(!r2.refresh_devices);
    assert_eq!(c, Controls { window: WindowType::Hamming, edit_in_device: false });
}

#[test]
fn exit_keys_end_the_loop() {
    let mut c = Controls { window: WindowType::Hamming, edit_in_device: false };
    assert!(c.react(InputEvent::Input(Key::Char('q'))).exit);
    assert!(c.react(InputEvent::Input(Key::Esc)).exit);
    assert!(!c.react(InputEvent::Input(Key::Down)).exit);
}

#[test]
fn avg_tick_keeps_running_sum() {
    let mut index = 0usize;
    let mut sum = 0i64;
    let mut list = vec![0i64; TICK_HISTORY];
    let avg = calc_avg_tick(&mut index, &mut sum, &mut list, 1000);
    assert_eq!(avg, 10);
    assert_eq!(index, 1);
    assert_eq!(sum, 1000);
    assert_eq!(list[0], 1000);
    for _ in 0..TICK_HISTORY {
        calc_avg_tick(&mut index, &mut sum, &mut list, 16_000);
    }
    assert_eq!(index, 1);
    assert_eq!(sum, 16_000 * 100);
    assert_eq!(sum, list.iter().sum::<i64>());
}

#[test]
fn avg_tick_index_wraps() {
    let mut index = 99usize;
    let mut sum = 500i64;
    let mut list = vec![5i64; TICK_HISTORY];
    let avg = calc_avg_tick(&mut index, &mut sum, &mut list, 105);
    assert_eq!(index, 0);
    assert_eq!(sum, 600);
    assert_eq!(avg, 6);
}

#[test]
fn fps_from_average_tick() {
    assert_eq!(fps_from_avg_tick(16_667), 59);
    assert_eq!(fps_from_avg_tick(1_000_000), 1);
    assert_eq!(fps_from_avg_tick(2_000_000), 0);
    assert_eq!(fps_from_avg_tick(1000), 255);
    assert_eq!(fps_from_avg_tick(0), 255);
    assert_eq!(fps_from_avg_tick(3922), 254);
}

#[test]
fn avg_tick_accepts_sum_below_entry() {
    let mut index = 0usize;
    let mut sum = 3i64;
    let mut list = vec![0i64; TICK_HISTORY];
    list[0] = 250;
    let avg = calc_avg_tick(&mut index, &mut sum, &mut list, 0);
    assert_eq!(sum, -247);
    assert_eq!(avg, -2);
    assert_eq!(index, 1);
}

#[test]
fn fps_of_negative_average_is_zero() {
    assert_eq!(fps_from_avg_tick(-5), 0);
}
