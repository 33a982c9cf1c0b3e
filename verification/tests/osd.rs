//! The mode indicator's window and what it draws.

use crown::crown_mode::CrownModeIndicator;
use crown::osd::{
    glyph_for, glyph_for_lowercase, glyph_run, is_paintable, is_placeable, label_run, paint,
    position, rgb, spawn, Cell, Face, Message, Osd, OsdView, PaintMetrics, PaintOp, Rect,
    Surroundings, WindowCall, CELL_ACTIVE, CELL_INACTIVE, CLASS_NAME, HIDE_MS, HIDE_TIMER, INK,
    INK_DIM, SEPARATOR,
};
use crown::text::{wide, wide_char};

fn indicator(names: &[&str], selected: usize) -> CrownModeIndicator {
    CrownModeIndicator { names: names.iter().map(|n| n.to_string()).collect(), selected }
}

fn around() -> Surroundings {
    Surroundings {
        bar_w: 276,
        bar_h: 92,
        work: Some(Rect { left: 0, top: 0, right: 1920, bottom: 1040 }),
        margin: 64,
    }
}

fn metrics() -> PaintMetrics {
    PaintMetrics {
        cell_w: 138,
        cell_h: 92,
        hairline: 0,
        hairline_inset: 14,
        icon_top: 16,
        icon_bottom: 56,
        label_inset: 6,
        label_top: 30,
        label_bottom: 8,
    }
}

#[test]
fn a_hidden_view_has_no_window_size() {
    assert_eq!(OsdView::Hidden.cell_count(), None);
}

#[test]
fn an_empty_bar_has_no_window_size() {
    assert_eq!(OsdView::Bar { cells: Vec::new(), selected: 0 }.cell_count(), None);
}

#[test]
fn a_bar_counts_one_cell_per_mode() {
    let cells = vec![
        Cell { glyph: 'a', label: "Volume".into() },
        Cell { glyph: 'b', label: "Scroll".into() },
    ];
    assert_eq!(OsdView::Bar { cells, selected: 0 }.cell_count(), Some(2));
    let many = (0..65536)
        .map(|_| Cell { glyph: 'a', label: String::new() })
        .collect();
    assert_eq!(OsdView::Bar { cells: many, selected: 0 }.cell_count(), None);
}

#[test]
fn known_mode_names_get_their_own_glyph() {
    assert_ne!(glyph_for("Volume"), glyph_for("Scroll"));
    assert_eq!(glyph_for("volume"), glyph_for("Volume"), "case-insensitive");
}

/// An unnamed-in-the-table mode still gets a cell rather than a blank.
#[test]
fn an_unknown_mode_name_falls_back_to_a_badge() {
    assert_eq!(glyph_for("Whatever The User Typed"), '\u{E946}');
}

#[test]
fn each_known_name_has_its_glyph() {
    for (names, glyph) in [
        (&["SCROLL"][..], '\u{E8CB}'),
        (&["Tabs", "windows"], '\u{E71D}'),
        (&["Zoom"], '\u{E8A3}'),
        (&["Volume", "Sound"], '\u{E767}'),
        (&["Media", "Playback"], '\u{E768}'),
        (&["Keys", "Shortcuts"], '\u{E765}'),
        (&["Brightness"], '\u{E706}'),
        (&["Undo", "History"], '\u{E7A7}'),
    ] {
        for name in names {
            assert_eq!(glyph_for(name), glyph, "{name}");
        }
    }
    assert_eq!(glyph_for_lowercase("zoom"), '\u{E8A3}');
    assert_eq!(glyph_for_lowercase("Zoom"), '\u{E946}', "matched in lower case alone");
}

#[test]
fn the_palette_is_what_it_says() {
    assert_eq!(CELL_INACTIVE, rgb(206, 207, 210));
    assert_eq!(CELL_ACTIVE, rgb(247, 247, 248));
    assert_eq!(SEPARATOR, rgb(188, 189, 193));
    assert_eq!(INK, rgb(45, 45, 50));
    assert_eq!(INK_DIM, rgb(96, 98, 104));
    assert_eq!(rgb(1, 2, 3), 0x0003_0201);
    assert_eq!(CLASS_NAME, "OpenLogiCrownOsd");
}

#[test]
fn an_indicator_without_a_window_stays_silent() {
    let mut osd = spawn(true);
    assert_eq!(osd.show(&indicator(&["Volume"], 0)), None);
    osd.ready(42);
    assert_eq!(osd.show(&indicator(&["Volume"], 0)), Some(42));

    let mut none = Osd::spawn();
    none.ready(42);
    assert_eq!(none.show(&indicator(&["Volume"], 0)), None);
    assert_eq!(none.current_view().cell_count(), None);
}

#[test]
fn a_shown_bar_goes_up_and_comes_down() {
    let mut osd = spawn(true);
    osd.ready(1);
    osd.show(&indicator(&["Volume", "Whatever"], 1));
    match osd.current_view() {
        OsdView::Bar { cells, selected } => {
            assert_eq!(cells[0].glyph, '\u{E767}');
            assert_eq!(cells[1].glyph, '\u{E946}');
            assert_eq!(cells[1].label, "Whatever");
            assert_eq!(*selected, 1);
        }
        OsdView::Hidden => panic!("a bar is up"),
    }
    assert_eq!(
        osd.wndproc(Message::Refresh, around()),
        vec![
            WindowCall::KillTimer(HIDE_TIMER),
            WindowCall::Place { x: 822, y: 884, w: 276, h: 92 },
            WindowCall::ShowNoActivate,
            WindowCall::Invalidate,
            WindowCall::SetTimer { id: HIDE_TIMER, ms: HIDE_MS },
        ]
    );
    assert_eq!(HIDE_MS, 1600);
    assert_eq!(osd.wndproc(Message::Timer(7), around()), vec![WindowCall::Default]);
    assert_eq!(osd.wndproc(Message::Paint, around()), vec![WindowCall::PaintView]);
    assert_eq!(osd.wndproc(Message::Other, around()), vec![WindowCall::Default]);
    assert_eq!(osd.current_view().cell_count(), Some(2));
    assert_eq!(
        osd.wndproc(Message::Timer(HIDE_TIMER), around()),
        vec![WindowCall::KillTimer(HIDE_TIMER), WindowCall::Hide]
    );
    assert_eq!(osd.current_view().cell_count(), None);
    assert_eq!(
        osd.wndproc(Message::Refresh, around()),
        vec![WindowCall::KillTimer(HIDE_TIMER), WindowCall::Hide]
    );
}

#[test]
fn the_bar_sits_bottom_centre_of_the_work_area() {
    let work = Some(Rect { left: 100, top: 0, right: 300, bottom: 500 });
    assert_eq!(position(work, 101, 50, 10), (149, 440));
    // Wider than the work area: the halved shortfall rounds toward zero.
    assert_eq!(position(work, 301, 50, 10), (50, 440));
    assert_eq!(position(None, 276, 92, 64), (0, 0));
    assert!(is_placeable(work, 301, 50, 10));
    assert!(is_placeable(None, i32::MAX, i32::MIN, 0));
    assert!(!is_placeable(
        Some(Rect { left: i32::MIN, top: 0, right: 1, bottom: 0 }),
        0,
        0,
        0
    ));
}

#[test]
fn a_bar_is_painted_cell_by_cell() {
    let view = OsdView::Bar {
        cells: vec![
            Cell { glyph: 'a', label: "Volume".into() },
            Cell { glyph: 'b', label: "Scroll".into() },
        ],
        selected: 1,
    };
    let rc = Rect { left: 10, top: 20, right: 286, bottom: 112 };
    assert!(is_paintable(&view, rc, &metrics()));
    let fill = |left, top, right, bottom, color| PaintOp::Fill {
        rect: Rect { left, top, right, bottom },
        color,
    };
    let text = |cell, face, left, top, right, bottom, color| PaintOp::Text {
        cell,
        face,
        rect: Rect { left, top, right, bottom },
        color,
    };
    assert_eq!(
        paint(&view, rc, &metrics()),
        vec![
            fill(10, 20, 286, 112, CELL_INACTIVE),
            fill(10, 20, 148, 112, CELL_INACTIVE),
            fill(147, 34, 148, 98, SEPARATOR),
            text(0, Face::Icon, 10, 36, 148, 76, INK),
            text(0, Face::Label, 16, 82, 142, 104, INK_DIM),
            fill(148, 20, 286, 112, CELL_ACTIVE),
            text(1, Face::Icon, 148, 36, 286, 76, INK),
            text(1, Face::Label, 154, 82, 280, 104, INK),
        ]
    );
    assert_eq!(
        paint(&OsdView::Hidden, rc, &metrics()),
        vec![fill(10, 20, 286, 112, CELL_INACTIVE)]
    );
    let far = Rect { left: i32::MAX - 200, top: 0, right: i32::MAX, bottom: 0 };
    assert!(!is_paintable(&view, far, &metrics()));
    assert!(is_paintable(&OsdView::Hidden, far, &metrics()));
}

#[test]
fn a_text_run_counts_code_units_without_the_terminator() {
    let run = label_run("Größe 𝄞").expect("short enough");
    let mut units: Vec<u16> = "Größe 𝄞".encode_utf16().collect();
    assert_eq!(run.len, 8);
    units.push(0);
    assert_eq!(run.units, units);
    assert_eq!(label_run("").map(|r| (r.units, r.len)), Some((vec![0], 0)));
    let glyph = glyph_run('\u{E946}');
    assert_eq!((glyph.units, glyph.len), (vec![0xE946, 0], 1));
    assert_eq!(glyph_run('𝄞').len, 2);
    assert_eq!(wide_char('𝄞'), vec![0xD834, 0xDD1E, 0]);
    assert_eq!(wide("ab"), vec![0x61, 0x62, 0]);
}
