use audiolyzer::audio_thread::{
    app_stream_settings, capture_stream_settings, find_input_device, get_device,
    position_of_name, BufferSize, StreamSettings,
};
use audiolyzer::ui::{centered_rect, Area, UI};

fn names(v: &[&str]) -> Vec<String> {
    v.iter().map(|s| s.to_string()).collect()
}

#[test]
fn position_of_name_finds_first() {
    let n = names(&["mic", "default", "default"]);
    assert_eq!(position_of_name(&n, "default"), Some(1));
    assert_eq!(position_of_name(&n, "mic"), Some(0));
    assert_eq!(position_of_name(&n, "other"), None);
    assert_eq!(position_of_name(&vec![], "mic"), None);
}

#[test]
fn get_device_looks_for_default() {
    let n = names(&["mic", "default"]);
    assert_eq!(get_device(&n, "mic"), Some(1));
    assert_eq!(get_device(&names(&["mic"]), "mic"), None);
}

#[test]
fn input_device_is_blackhole() {
    let n = names(&["MacBook Pro Microphone", "BlackHole 2ch"]);
    assert_eq!(find_input_device(&n), Some(1));
    assert_eq!(find_input_device(&names(&["BlackHole 16ch"])), None);
}

#[test]
fn stream_settings() {
    assert_eq!(
        capture_stream_settings(),
        StreamSettings { channels: 1, sample_rate: 44100, buffer_size: BufferSize::Default }
    );
    assert_eq!(
        app_stream_settings(48000, 2048),
        StreamSettings { channels: 1, sample_rate: 48000, buffer_size: BufferSize::Fixed(2048) }
    );
}

#[test]
fn centered_rect_on_square_screen() {
    let r = Area { x: 0, y: 0, width: 100, height: 100 };
    let c = centered_rect(60, 25, r);
    assert_eq!(c, Area { x: 20, y: 37, width: 60, height: 25 });
}

#[test]
fn centered_rect_full_share_is_whole_area() {
    let r = Area { x: 3, y: 4, width: 50, height: 20 };
    assert_eq!(centered_rect(100, 100, r), r);
}

#[test]
fn plan_without_device_list() {
    let size = Area { x: 0, y: 0, width: 80, height: 24 };
    let p = UI::plan(size, false, 3);
    assert_eq!(p.canvas, size);
    assert_eq!(p.popup, None);
    assert!(p.device_rows.is_empty());
}

#[test]
fn plan_with_device_list() {
    let size = Area { x: 0, y: 0, width: 100, height: 100 };
    let p = UI::plan(size, true, 3);
    assert_eq!(p.canvas, size);
    let popup = Area { x: 20, y: 37, width: 60, height: 25 };
    assert_eq!(p.popup, Some(popup));
    assert_eq!(p.device_rows.len(), 3);
    for (k, row) in p.device_rows.iter().enumerate() {
        assert_eq!(row.x, 20);
        assert_eq!(row.width, 60);
        assert_eq!(row.height, 1);
        assert_eq!(row.y, 37 + k as u16);
    }
}

fn inside(inner: Area, outer: Area) -> bool {
    outer.x <= inner.x
        && inner.x as u32 + inner.width as u32 <= outer.x as u32 + outer.width as u32
        && outer.y <= inner.y
        && inner.y as u32 + inner.height as u32 <= outer.y as u32 + outer.height as u32
}

#[test]
fn centered_rect_lies_inside() {
    for (w, h) in [(80u16, 24u16), (7, 3), (1, 1), (0, 0), (200, 61)] {
        let r = Area { x: 5, y: 2, width: w, height: h };
        for (px, py) in [(60u16, 25u16), (0, 0), (100, 100), (33, 77)] {
            assert!(inside(centered_rect(px, py, r), r));
        }
    }
}

#[test]
fn plan_rows_lie_inside_popup() {
    let size = Area { x: 0, y: 0, width: 80, height: 24 };
    let p = UI::plan(size, true, 10);
    let popup = p.popup.unwrap();
    assert!(inside(popup, size));
    assert_eq!(p.device_rows.len(), 10);
    for row in &p.device_rows {
        assert!(inside(*row, popup));
        assert_eq!(row.x, popup.x);
        assert_eq!(row.width, popup.width);
    }
}
