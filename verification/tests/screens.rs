use libdae::compositor_interface::compositor_client::{ConfigureOutcome, LayerTracker, LayersState};
use libdae::compositor_interface::shell_layers::{
    buffer_geometry, paint_canvas, screen_info_from_output, shell_color,
};
use libdae::compositor_interface::{
    CursorFetchErrCtx, Point, Range, ScreenInfo, ScreenSpace, Size,
};
use libdae::display_monitor;
use libdae::layout::{origin_order, span};
use libdae::wayland_int;
use libdae::wayland_int::comp_client_interface::{cursor_fetch_failure, CursorFetchErr};
use libdae::wayland_int::display_output;

fn screen(x: i32, y: i32, w: u32, h: u32) -> ScreenInfo {
    ScreenInfo { size: Size { width: w, height: h }, origin: Point { x, y } }
}

#[test]
fn screen_space_sorts_monitors_and_spans_them() {
    let monitors = [screen(1920, 0, 1920, 1080), screen(0, 0, 1920, 1080), screen(0, 1080, 1920, 1024)];
    let space = ScreenSpace::from_monitors(&monitors);
    assert_eq!(
        space.range(),
        Range { top_left: Point { x: 0, y: 0 }, bottom_right: Point { x: 3839, y: 2103 } }
    );
    assert_eq!(space.monitors(), &[monitors[1], monitors[0], monitors[2]]);
}

#[test]
fn screen_space_with_negative_origins() {
    let monitors = [screen(-1280, -200, 1280, 1024), screen(0, 0, 1920, 1080)];
    let space = ScreenSpace::from_monitors(&monitors);
    assert_eq!(
        space.range(),
        Range { top_left: Point { x: -1280, y: -200 }, bottom_right: Point { x: 1919, y: 1079 } }
    );
    assert_eq!(space.monitors(), &monitors);
}

#[test]
fn screen_space_of_no_monitor() {
    let space = ScreenSpace::from_monitors(&[]);
    assert_eq!(
        space.range(),
        Range { top_left: Point { x: 0, y: 0 }, bottom_right: Point { x: -1, y: -1 } }
    );
    assert!(space.monitors().is_empty());
}

#[test]
fn wayland_screen_space_matches_the_compositor_one() {
    let monitors = [
        wayland_int::ScreenInfo {
            size: wayland_int::Size { width: 800, height: 600 },
            origin: wayland_int::Point { x: 800, y: 0 },
        },
        wayland_int::ScreenInfo {
            size: wayland_int::Size { width: 800, height: 600 },
            origin: wayland_int::Point { x: 0, y: 0 },
        },
    ];
    let space = wayland_int::ScreenSpace::from_monitors(&monitors);
    assert_eq!(
        space.range(),
        wayland_int::Range {
            top_left: wayland_int::Point { x: 0, y: 0 },
            bottom_right: wayland_int::Point { x: 1599, y: 599 },
        }
    );
    assert_eq!(space.monitors(), &[monitors[1], monitors[0]]);
}

#[test]
fn monitor_space_range_is_the_raw_span() {
    let monitors = [
        display_monitor::MonitorInfo::new(1920, 1080, [1920, 0]),
        display_monitor::MonitorInfo::new(1920, 1080, [0, 0]),
    ];
    let space = display_monitor::ScreenSpace::new(&monitors);
    assert_eq!(space.range(), ([0, 0], [3840, 1080]));
    let sorted: Vec<[i32; 2]> = space.monitors().iter().map(|m| m.origin()).collect();
    assert_eq!(sorted, vec![[0, 0], [1920, 0]]);
    assert_eq!(space.monitors()[0].width(), 1920);
    assert_eq!(space.monitors()[0].height(), 1080);
}

#[test]
fn display_output_space_range_ends_on_the_last_pixel() {
    let monitors = [
        display_output::ScreenInfo::new(1024, 768, [0, 768]),
        display_output::ScreenInfo::new(1024, 768, [0, 0]),
    ];
    let space = display_output::ScreenSpace::from_monitors(&monitors);
    assert_eq!(space.range(), ([0, 0], [1023, 1535]));
    let sorted: Vec<[i32; 2]> = space.monitors().iter().map(|m| m.origin()).collect();
    assert_eq!(sorted, vec![[0, 0], [0, 768]]);
    assert_eq!(display_output::screens_order(&monitors), vec![1, 0]);
}

#[test]
fn origin_order_is_stable() {
    let origins = vec![(10, 5), (0, 5), (3, 0), (0, 5), (-4, 9)];
    assert_eq!(origin_order(&origins), vec![2, 1, 3, 0, 4]);
    assert!(origin_order(&Vec::new()).is_empty());
}

#[test]
fn span_counts_the_origin() {
    assert_eq!(span(&vec![(10, 20, 5, 5)]), (0, 0, 15, 25));
    assert_eq!(span(&vec![(-10, 4, 5, 5), (2, -3, 1, 1)]), (-10, -3, 3, 9));
    assert_eq!(span(&Vec::new()), (0, 0, 0, 0));
}

#[test]
fn overlay_colour_is_premultiplied_purple() {
    assert_eq!(shell_color(), 0x5520_0055);
}

#[test]
fn canvas_is_painted_pixel_by_pixel() {
    let mut canvas = vec![7u8; 10];
    paint_canvas(&mut canvas);
    assert_eq!(canvas, vec![0x55, 0x00, 0x20, 0x55, 0x55, 0x00, 0x20, 0x55, 7, 7]);
    let mut empty: Vec<u8> = Vec::new();
    paint_canvas(&mut empty);
    assert!(empty.is_empty());
}

#[test]
fn output_becomes_a_screen() {
    assert_eq!(screen_info_from_output((1920, -40), (2560, 1440)), screen(1920, -40, 2560, 1440));
    assert_eq!(buffer_geometry(Size { width: 256, height: 100 }), (256, 100, 1024));
}

#[test]
fn cursor_failures_by_readiness() {
    assert_eq!(cursor_fetch_failure(true), CursorFetchErr::CursorCaptureFailed);
    assert_eq!(cursor_fetch_failure(false), CursorFetchErr::LayerNotReady);
}

#[test]
fn layers_are_sorted_and_configured() {
    let mut tracker = LayerTracker::new();
    assert_eq!(tracker.layers_state(), LayersState::Empty);
    tracker.begin_layers();
    tracker.push_layer(screen(1920, 0, 1920, 1080));
    tracker.push_layer(screen(0, 0, 1920, 1080));
    let order = tracker.finish_layers();
    assert_eq!(order, vec![1, 0]);
    assert_eq!(tracker.layers_state(), LayersState::AwaitingConf);
    assert_eq!(tracker.screen_info(), vec![screen(0, 0, 1920, 1080), screen(1920, 0, 1920, 1080)]);

    // The first configure always draws; the last one asks for the sync.
    assert_eq!(tracker.configure(0, (0, 0)), ConfigureOutcome { draw: true, request_sync: false });
    assert_eq!(tracker.screen_info()[0], screen(0, 0, 256, 256));
    assert_eq!(tracker.layers_state(), LayersState::AwaitingConf);
    assert_eq!(
        tracker.configure(1, (1920, 1080)),
        ConfigureOutcome { draw: true, request_sync: true }
    );
    assert_eq!(tracker.layers_state(), LayersState::AwaitingSync);
    tracker.layers_configured_sync_done();
    assert_eq!(tracker.layers_state(), LayersState::Ready);

    // Later configures draw only on a change of size.
    assert_eq!(
        tracker.configure(1, (1920, 1080)),
        ConfigureOutcome { draw: false, request_sync: false }
    );
    assert_eq!(tracker.configure(0, (640, 480)), ConfigureOutcome { draw: true, request_sync: false });
    assert_eq!(tracker.screen_info()[0], screen(0, 0, 640, 480));
}

#[test]
fn cursor_position_is_relative_to_the_entered_screen() {
    let mut tracker = LayerTracker::new();
    tracker.push_layer(screen(0, 0, 1920, 1080));
    tracker.push_layer(screen(1920, 0, 1920, 1080));
    tracker.finish_layers();
    tracker.layers_configured_sync_done();
    tracker.pointer_enter(1, (100, 200));
    let (res, deactivate) = tracker.abs_cursor_sync_done();
    assert_eq!(res.unwrap(), Point { x: 2020, y: 200 });
    assert!(!deactivate);

    // The answer is consumed: a second sync has none.
    let (res, deactivate) = tracker.abs_cursor_sync_done();
    assert!(deactivate);
    assert!(res.unwrap_err().context_entries().is_empty());
}

#[test]
fn cursor_fetch_before_the_layers_are_ready_says_so() {
    let mut tracker = LayerTracker::new();
    tracker.push_layer(screen(0, 0, 10, 10));
    tracker.finish_layers();
    let (res, deactivate) = tracker.abs_cursor_sync_done();
    assert!(deactivate);
    assert_eq!(res.unwrap_err().context_entries(), &vec![CursorFetchErrCtx::LayerNotReady]);
}

#[test]
fn laying_out_a_layout_again_keeps_it() {
    let monitors = [screen(1920, 0, 1920, 1080), screen(0, 0, 1920, 1080), screen(0, 1080, 1920, 1024)];
    let first = ScreenSpace::from_monitors(&monitors);
    let again = ScreenSpace::from_monitors(first.monitors());
    assert_eq!(again.monitors(), first.monitors());
    assert_eq!(again.range(), first.range());
    let permuted = [monitors[2], monitors[0], monitors[1]];
    assert_eq!(ScreenSpace::from_monitors(&permuted).range(), first.range());
}

#[test]
fn cursor_fetch_error_text() {
    assert_eq!(
        libdae::compositor_interface::CursorFetchErr::new(Vec::new()).to_string(),
        "Cursor fetch error. No extra context available, user probably held down the cursor during fetch."
    );
    assert_eq!(
        libdae::compositor_interface::CursorFetchErr::new(vec![CursorFetchErrCtx::LayerNotReady]).to_string(),
        "Cursor fetch error with context: CursorFetchErr([LayerNotReady])"
    );
    assert_eq!(
        libdae::compositor_interface::CursorFetchErr::new(vec![CursorFetchErrCtx::LayerNotReady, CursorFetchErrCtx::LayerNotReady])
            .to_string(),
        "Cursor fetch error with context: CursorFetchErr([LayerNotReady, LayerNotReady])"
    );
}
