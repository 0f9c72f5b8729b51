use solar_telemetry::dashboard::{
    direction_panel, fault_header, fault_row, fault_section_label, link_info_row, link_row,
    link_stat_row, mppt_panel, mppt_status_row, switches_panel, App, RowKind, SideRow, Tint, Tone,
};
use solar_telemetry::decode::{MotorDirection, MotorFeedback, MpptData, MpptStatus, Telemetry};
use solar_telemetry::radio::{LinkShared, RxStats};

fn row(kind: RowKind, dot: &str, label: &str, value: &str, tone: Tone, tint: Tint) -> SideRow {
    SideRow {
        kind,
        dot: dot.to_string(),
        label: label.to_string(),
        value: value.to_string(),
        tone,
        tint,
    }
}

#[test]
fn link_rows() {
    assert_eq!(
        link_row(true),
        row(RowKind::Link, "●", "RF LINK OK", "", Tone::Green, Tint::Clear)
    );
    assert_eq!(
        link_row(false),
        row(RowKind::Link, "●", "RF LINK DOWN", "", Tone::Red, Tint::Clear)
    );
    assert_eq!(
        link_info_row("receiving"),
        row(RowKind::Info, "", "receiving", "", Tone::Dim, Tint::Clear)
    );
    assert_eq!(
        link_stat_row("batches", 1234),
        row(RowKind::Stat, "", "batches", "1234", Tone::Dim, Tint::Clear)
    );
    assert_eq!(
        link_stat_row("rekeys", 0),
        row(RowKind::Stat, "", "rekeys", "0", Tone::Dim, Tint::Clear)
    );
}

#[test]
fn fault_rows() {
    assert_eq!(
        fault_header(true),
        row(RowKind::Header, "", "⚡ FAULTS", "", Tone::Red, Tint::Clear)
    );
    assert_eq!(
        fault_header(false),
        row(RowKind::Header, "", "FAULTS", "", Tone::Dim, Tint::Clear)
    );
    assert_eq!(
        fault_section_label("KELLY"),
        row(RowKind::Section, "", "KELLY", "", Tone::Dim, Tint::Clear)
    );
    assert_eq!(
        fault_row("Stall", true),
        row(RowKind::Fault, "●", "Stall", "", Tone::Red, Tint::Red)
    );
    assert_eq!(
        fault_row("Stall", false),
        row(RowKind::Fault, "○", "Stall", "", Tone::Dim, Tint::Clear)
    );
}

#[test]
fn mppt_rows() {
    assert_eq!(
        mppt_status_row(1, MpptStatus::Fault, true),
        row(RowKind::Mppt, "●", "MPPT 1", "FAULT+12V", Tone::Red, Tint::Red)
    );
    assert_eq!(
        mppt_status_row(2, MpptStatus::Fault, false),
        row(RowKind::Mppt, "●", "MPPT 2", "FAULT", Tone::Red, Tint::Red)
    );
    assert_eq!(
        mppt_status_row(3, MpptStatus::Limiting, false),
        row(RowKind::Mppt, "●", "MPPT 3", "LIMIT", Tone::Amber, Tint::Amber)
    );
    assert_eq!(
        mppt_status_row(3, MpptStatus::Nominal, false),
        row(RowKind::Mppt, "○", "MPPT 3", "OK", Tone::Dim, Tint::Clear)
    );
}

#[test]
fn fresh_dashboard() {
    let app = App::new();
    assert_eq!(app.status, "starting...");
    assert!(!app.link_ok);
    assert_eq!(app.data, Telemetry::default());
    let column = app.side_column();
    assert_eq!(column.len(), 23);
    assert_eq!(column[0], link_row(false));
    assert_eq!(column[1], link_info_row("starting..."));
    assert_eq!(column[6], fault_header(false));
    assert_eq!(column[7], fault_section_label("KELLY"));
    assert_eq!(column[8], fault_row("Over Voltage", false));
    assert_eq!(column[18], fault_row("ID Error", false));
    assert_eq!(column[19], fault_section_label("MPPT"));
    assert_eq!(column[22], mppt_status_row(3, MpptStatus::Nominal, false));
    assert!(column[1..].iter().all(|r| r.tone == Tone::Dim));
}

#[test]
fn tick_takes_over_the_link() {
    let mut shared = LinkShared::default();
    shared.set_status("receiving".to_string());
    shared.batches = 7;
    shared.unknown_frames = 2;
    shared.last_batch = Some(100);
    shared.stats = RxStats { auth_fail: 3, rehandshakes: 4, ..RxStats::default() };
    shared.telemetry.brake = true;
    shared.telemetry.kelly_faults.stall = true;
    let mut app = App::new();
    app.update(&shared, 200);
    assert!(app.link_ok);
    assert!(app.data.brake);
    let column = app.side_column();
    assert_eq!(column[0], link_row(true));
    assert_eq!(column[1], link_info_row("receiving"));
    assert_eq!(column[2], link_stat_row("batches", 7));
    assert_eq!(column[3], link_stat_row("auth fail", 3));
    assert_eq!(column[4], link_stat_row("rekeys", 4));
    assert_eq!(column[5], link_stat_row("unknown", 2));
    assert_eq!(column[6], fault_header(true));
    assert_eq!(column[10], fault_row("Stall", true));
    app.update(&shared, 3_000_000_100);
    assert!(!app.link_ok);
}

#[test]
fn header_is_lit_by_any_fault() {
    for unit in 0..3 {
        let mut app = App::new();
        app.data.mppt[unit].limiting = true;
        assert_eq!(app.side_column()[6], fault_header(false));
        app.data.mppt[unit].aux_fault = true;
        let column = app.side_column();
        assert_eq!(column[6], fault_header(true));
        assert_eq!(column[20 + unit], mppt_status_row(unit as u64 + 1, MpptStatus::Fault, true));
    }
}

#[test]
fn mppt_panels() {
    let mut data = MpptData::default();
    let panel = mppt_panel(2, &data);
    assert_eq!(panel.title, "MPPT 2");
    assert_eq!((panel.word, panel.tone, panel.aux_flag), ("OK", Tone::Green, ""));
    data.limiting = true;
    let panel = mppt_panel(2, &data);
    assert_eq!((panel.word, panel.tone, panel.aux_flag), ("LIMIT", Tone::Amber, ""));
    data.fault = true;
    let panel = mppt_panel(2, &data);
    assert_eq!((panel.word, panel.tone, panel.aux_flag), ("FAULT", Tone::Red, ""));
    data.fault = false;
    data.aux_fault = true;
    let panel = mppt_panel(2, &data);
    assert_eq!((panel.word, panel.tone, panel.aux_flag), ("FAULT", Tone::Red, "12V!"));
}

#[test]
fn direction_panels() {
    for (direction, label, tone) in [
        (MotorDirection::Forward, "▶ FWD", Tone::Cyan),
        (MotorDirection::Neutral, "■ NEUT", Tone::Amber),
        (MotorDirection::Reverse, "◀ REV", Tone::Red),
        (MotorDirection::Unknown, "? ----", Tone::Dim),
    ] {
        for (feedback, words) in [
            (MotorFeedback::Stationary, "fb: STILL"),
            (MotorFeedback::Forward, "fb: FWD"),
            (MotorFeedback::Backward, "fb: REV"),
            (MotorFeedback::Unknown, "fb: ?"),
        ] {
            let panel = direction_panel(direction, feedback);
            assert_eq!((panel.label, panel.tone, panel.feedback), (label, tone, words));
        }
    }
}

#[test]
fn switch_pills() {
    let on = switches_panel(true, true, true);
    assert_eq!(on.map(|p| (p.label, p.on, p.tone)), [
        ("BRK", true, Tone::Red),
        ("FOOT", true, Tone::Cyan),
        ("BST", true, Tone::Amber),
    ]);
    let off = switches_panel(false, true, false);
    assert_eq!(off.map(|p| (p.label, p.on, p.tone)), [
        ("BRK", false, Tone::Dim),
        ("FOOT", true, Tone::Cyan),
        ("BST", false, Tone::Dim),
    ]);
}
