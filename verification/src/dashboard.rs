//! What the chase dashboard shows: the words and colours of its panels and of
//! its side column, and the snapshot they are drawn from.

use vstd::prelude::*;

use crate::decode::{
    law_each_fault_has_its_label, silent_car, MotorDirection, MotorFeedback, MpptData, MpptStatus,
    Telemetry, TelemetryView,
};
use crate::radio::{LinkShared, RxStats};
use crate::text::{decimal, push_decimal};

verus! {

/// A foreground colour.
#[derive(Debug, Clone, Copy, PartialEq, Eq, Structural)]
pub enum Tone {
    Cyan,
    Green,
    Amber,
    Red,
    Dim,
}

/// The background of a row.
#[derive(Debug, Clone, Copy, PartialEq, Eq, Structural)]
pub enum Tint {
    Clear,
    Amber,
    Red,
}

/// What a row of the side column is for; this decides its size and padding.
#[derive(Debug, Clone, Copy, PartialEq, Eq, Structural)]
pub enum RowKind {
    Link,
    Info,
    Stat,
    Header,
    Section,
    Fault,
    Mppt,
}

/// One row of the side column. A part that the row does not have is empty.
#[derive(Debug, PartialEq, Eq)]
pub struct SideRow {
    pub kind: RowKind,
    pub dot: String,
    pub label: String,
    pub value: String,
    pub tone: Tone,
    pub tint: Tint,
}

/// A row as a value.
#[verifier::ext_equal]
pub struct SideRowView {
    pub kind: RowKind,
    pub dot: Seq<char>,
    pub label: Seq<char>,
    pub value: Seq<char>,
    pub tone: Tone,
    pub tint: Tint,
}

impl View for SideRow {
    type V = SideRowView;

    open spec fn view(&self) -> SideRowView {
        SideRowView {
            kind: self.kind,
            dot: self.dot@,
            label: self.label@,
            value: self.value@,
            tone: self.tone,
            tint: self.tint,
        }
    }
}

impl SideRowView {
    /// A row without dot, value or background.
    pub open spec fn plain(kind: RowKind, label: Seq<char>, tone: Tone) -> SideRowView {
        SideRowView {
            kind,
            dot: Seq::empty(),
            label,
            value: Seq::empty(),
            tone,
            tint: Tint::Clear,
        }
    }

    /// The row that says whether the link is up.
    pub open spec fn link(ok: bool) -> SideRowView {
        SideRowView {
            dot: "●"@,
            ..SideRowView::plain(
                RowKind::Link,
                if ok {
                    "RF LINK OK"@
                } else {
                    "RF LINK DOWN"@
                },
                if ok {
                    Tone::Green
                } else {
                    Tone::Red
                },
            )
        }
    }

    /// The row that gives the state of the link in words.
    pub open spec fn info(status: Seq<char>) -> SideRowView {
        SideRowView::plain(RowKind::Info, status, Tone::Dim)
    }

    /// A row with a counter.
    pub open spec fn stat(label: Seq<char>, value: u64) -> SideRowView {
        SideRowView {
            value: decimal(value as nat),
            ..SideRowView::plain(RowKind::Stat, label, Tone::Dim)
        }
    }

    /// The heading of the fault list.
    pub open spec fn header(any: bool) -> SideRowView {
        SideRowView::plain(
            RowKind::Header,
            if any {
                "⚡ FAULTS"@
            } else {
                "FAULTS"@
            },
            if any {
                Tone::Red
            } else {
                Tone::Dim
            },
        )
    }

    /// The heading of a part of the fault list.
    pub open spec fn section(label: Seq<char>) -> SideRowView {
        SideRowView::plain(RowKind::Section, label, Tone::Dim)
    }

    /// The row of one fault of the motor controller.
    pub open spec fn fault(label: Seq<char>, active: bool) -> SideRowView {
        SideRowView {
            kind: RowKind::Fault,
            dot: if active {
                "●"@
            } else {
                "○"@
            },
            label,
            value: Seq::empty(),
            tone: if active {
                Tone::Red
            } else {
                Tone::Dim
            },
            tint: if active {
                Tint::Red
            } else {
                Tint::Clear
            },
        }
    }

    /// The row of one charge controller.
    pub open spec fn mppt(index: u64, status: MpptStatus, aux: bool) -> SideRowView {
        SideRowView {
            kind: RowKind::Mppt,
            dot: if status == MpptStatus::Nominal {
                "○"@
            } else {
                "●"@
            },
            label: "MPPT "@ + decimal(index as nat),
            value: match status {
                MpptStatus::Fault => if aux {
                    "FAULT+12V"@
                } else {
                    "FAULT"@
                },
                MpptStatus::Limiting => "LIMIT"@,
                MpptStatus::Nominal => "OK"@,
            },
            tone: match status {
                MpptStatus::Fault => Tone::Red,
                MpptStatus::Limiting => Tone::Amber,
                MpptStatus::Nominal => Tone::Dim,
            },
            tint: match status {
                MpptStatus::Fault => Tint::Red,
                MpptStatus::Limiting => Tint::Amber,
                MpptStatus::Nominal => Tint::Clear,
            },
        }
    }
}

/// A row without dot, value or background.
fn plain_row(kind: RowKind, label: &str, tone: Tone) -> (r: SideRow)
    ensures
        r@ == SideRowView::plain(kind, label@, tone),
        r.kind == kind,
        r.label@ == label@,
        r.tone == tone,
        r.tint == Tint::Clear,
        r.dot@ == Seq::<char>::empty(),
        r.value@ == Seq::<char>::empty(),
{
    SideRow {
        kind,
        dot: String::new(),
        label: label.to_owned(),
        value: String::new(),
        tone,
        tint: Tint::Clear,
    }
}

/// The row that says whether the link is up.
pub fn link_row(ok: bool) -> (r: SideRow)
    ensures
        r@ == SideRowView::link(ok),
        r.kind == RowKind::Link,
        r.dot@ == "●"@,
        r.value@ == Seq::<char>::empty(),
        r.tint == Tint::Clear,
        ok ==> r.label@ == "RF LINK OK"@ && r.tone == Tone::Green,
        !ok ==> r.label@ == "RF LINK DOWN"@ && r.tone == Tone::Red,
{
    let mut row = if ok {
        plain_row(RowKind::Link, "RF LINK OK", Tone::Green)
    } else {
        plain_row(RowKind::Link, "RF LINK DOWN", Tone::Red)
    };
    row.dot = "●".to_owned();
    row
}

/// The row that gives the state of the link in words.
pub fn link_info_row(status: &str) -> (r: SideRow)
    ensures
        r@ == SideRowView::info(status@),
        r.kind == RowKind::Info,
        r.label@ == status@,
        r.dot@ == Seq::<char>::empty(),
        r.value@ == Seq::<char>::empty(),
        r.tone == Tone::Dim,
        r.tint == Tint::Clear,
{
    plain_row(RowKind::Info, status, Tone::Dim)
}

/// A row with a counter.
pub fn link_stat_row(label: &str, value: u64) -> (r: SideRow)
    ensures
        r@ == SideRowView::stat(label@, value),
        r.kind == RowKind::Stat,
        r.label@ == label@,
        r.value@ == decimal(value as nat),
        r.dot@ == Seq::<char>::empty(),
        r.tone == Tone::Dim,
        r.tint == Tint::Clear,
{
    let mut row = plain_row(RowKind::Stat, label, Tone::Dim);
    let mut digits: String = String::new();
    push_decimal(&mut digits, value);
    row.value = digits;
    row
}

/// The heading of the fault list.
pub fn fault_header(any: bool) -> (r: SideRow)
    ensures
        r@ == SideRowView::header(any),
        r.kind == RowKind::Header,
        r.dot@ == Seq::<char>::empty(),
        r.value@ == Seq::<char>::empty(),
        r.tint == Tint::Clear,
        any ==> r.label@ == "⚡ FAULTS"@ && r.tone == Tone::Red,
        !any ==> r.label@ == "FAULTS"@ && r.tone == Tone::Dim,
{
    if any {
        plain_row(RowKind::Header, "⚡ FAULTS", Tone::Red)
    } else {
        plain_row(RowKind::Header, "FAULTS", Tone::Dim)
    }
}

/// The heading of a part of the fault list.
pub fn fault_section_label(label: &str) -> (r: SideRow)
    ensures
        r@ == SideRowView::section(label@),
        r.kind == RowKind::Section,
        r.label@ == label@,
        r.dot@ == Seq::<char>::empty(),
        r.value@ == Seq::<char>::empty(),
        r.tone == Tone::Dim,
        r.tint == Tint::Clear,
{
    plain_row(RowKind::Section, label, Tone::Dim)
}

/// The row of one fault of the motor controller.
pub fn fault_row(label: &str, active: bool) -> (r: SideRow)
    ensures
        r@ == SideRowView::fault(label@, active),
        r.kind == RowKind::Fault,
        r.label@ == label@,
        r.value@ == Seq::<char>::empty(),
        active ==> r.dot@ == "●"@ && r.tone == Tone::Red && r.tint == Tint::Red,
        !active ==> r.dot@ == "○"@ && r.tone == Tone::Dim && r.tint == Tint::Clear,
{
    if active {
        SideRow {
            kind: RowKind::Fault,
            dot: "●".to_owned(),
            label: label.to_owned(),
            value: String::new(),
            tone: Tone::Red,
            tint: Tint::Red,
        }
    } else {
        SideRow {
            kind: RowKind::Fault,
            dot: "○".to_owned(),
            label: label.to_owned(),
            value: String::new(),
            tone: Tone::Dim,
            tint: Tint::Clear,
        }
    }
}

/// `MPPT` and the number of a charge controller.
fn mppt_title(index: u64) -> (r: String)
    ensures
        r@ == "MPPT "@ + decimal(index as nat),
{
    let mut out: String = "MPPT ".to_owned();
    push_decimal(&mut out, index);
    out
}

/// The row of one charge controller.
pub fn mppt_status_row(index: u64, status: MpptStatus, aux: bool) -> (r: SideRow)
    ensures
        r@ == SideRowView::mppt(index, status, aux),
        r.kind == RowKind::Mppt,
        r.label@ == "MPPT "@ + decimal(index as nat),
        status == MpptStatus::Fault ==> r.dot@ == "●"@ && r.tone == Tone::Red && r.tint
            == Tint::Red,
        status == MpptStatus::Fault && aux ==> r.value@ == "FAULT+12V"@,
        status == MpptStatus::Fault && !aux ==> r.value@ == "FAULT"@,
        status == MpptStatus::Limiting ==> r.dot@ == "●"@ && r.tone == Tone::Amber && r.tint
            == Tint::Amber && r.value@ == "LIMIT"@,
        status == MpptStatus::Nominal ==> r.dot@ == "○"@ && r.tone == Tone::Dim && r.tint
            == Tint::Clear && r.value@ == "OK"@,
{
    let label = mppt_title(index);
    match status {
        MpptStatus::Fault => SideRow {
            kind: RowKind::Mppt,
            dot: "●".to_owned(),
            label,
            value: if aux {
                "FAULT+12V".to_owned()
            } else {
                "FAULT".to_owned()
            },
            tone: Tone::Red,
            tint: Tint::Red,
        },
        MpptStatus::Limiting => SideRow {
            kind: RowKind::Mppt,
            dot: "●".to_owned(),
            label,
            value: "LIMIT".to_owned(),
            tone: Tone::Amber,
            tint: Tint::Amber,
        },
        MpptStatus::Nominal => SideRow {
            kind: RowKind::Mppt,
            dot: "○".to_owned(),
            label,
            value: "OK".to_owned(),
            tone: Tone::Dim,
            tint: Tint::Clear,
        },
    }
}

/// What the dashboard was last told.
#[derive(Debug)]
pub struct App {
    pub data: Telemetry,
    pub link_ok: bool,
    pub status: String,
    pub batches: u64,
    pub unknown_frames: u64,
    pub stats: RxStats,
}

/// What the dashboard was last told, as a value.
#[verifier::ext_equal]
pub struct AppView {
    pub data: TelemetryView,
    pub link_ok: bool,
    pub status: Seq<char>,
    pub batches: u64,
    pub unknown_frames: u64,
    pub stats: RxStats,
}

impl View for App {
    type V = AppView;

    open spec fn view(&self) -> AppView {
        AppView {
            data: self.data@,
            link_ok: self.link_ok,
            status: self.status@,
            batches: self.batches,
            unknown_frames: self.unknown_frames,
            stats: self.stats,
        }
    }
}

impl AppView {
    /// The side column: the link, its counters, the faults of the motor
    /// controller and the charge controllers.
    pub open spec fn side_rows(self) -> Seq<SideRowView> {
        let link = seq![
            SideRowView::link(self.link_ok),
            SideRowView::info(self.status),
            SideRowView::stat("batches"@, self.batches),
            SideRowView::stat("auth fail"@, self.stats.auth_fail),
            SideRowView::stat("rekeys"@, self.stats.rehandshakes),
            SideRowView::stat("unknown"@, self.unknown_frames),
            SideRowView::header(self.data.any_fault_spec()),
        ];
        let labelled = self.data.kelly_faults.labelled();
        let kelly = Seq::new(
            labelled.len(),
            |i: int| SideRowView::fault(labelled[i].0, labelled[i].1),
        );
        let mppt = Seq::new(
            self.data.mppt.len(),
            |i: int|
                SideRowView::mppt(
                    (i + 1) as u64,
                    self.data.mppt[i].status_spec(),
                    self.data.mppt[i].aux_fault,
                ),
        );
        link.push(SideRowView::section("KELLY"@)) + kelly.push(SideRowView::section("MPPT"@)) + mppt
    }
}

impl App {
    /// A dashboard that was told nothing yet.
    pub fn new() -> (r: Self)
        ensures
            r@.data == silent_car(),
            !r@.link_ok,
            r@.status == "starting..."@,
            r@.batches == 0,
            r@.unknown_frames == 0,
            r@.stats == (RxStats {
                ok: 0,
                auth_fail: 0,
                dup_or_old_drop: 0,
                skipped_packets: 0,
                decode_fail: 0,
                rehandshakes: 0,
            }),
    {
        App {
            data: Telemetry::default(),
            link_ok: false,
            status: "starting...".to_owned(),
            batches: 0,
            unknown_frames: 0,
            stats: RxStats::default(),
        }
    }

    /// Takes over what is known of the car and of the link at `now`.
    pub fn update(&mut self, shared: &LinkShared, now: u64)
        ensures
            final(self)@ == (AppView {
                data: shared@.telemetry,
                link_ok: shared@.link_up(now),
                status: shared@.status,
                batches: shared.batches,
                unknown_frames: shared.unknown_frames,
                stats: shared@.stats,
            }),
            final(self).data@ == shared.telemetry@,
            final(self).link_ok <==> (shared.last_batch matches Some(arrived) && now < arrived
                + 3_000_000_000),
            final(self).status@ == shared.status@,
            final(self).batches == shared.batches,
            final(self).unknown_frames == shared.unknown_frames,
            final(self).stats == shared.stats,
    {
        self.data = shared.telemetry;
        self.link_ok = shared.link_ok(now);
        self.status = shared.status.clone();
        self.batches = shared.batches;
        self.unknown_frames = shared.unknown_frames;
        self.stats = shared.stats;
    }

    /// The side column: the link, its counters, the faults of the motor
    /// controller and the charge controllers.
    pub fn side_column(&self) -> (r: Vec<SideRow>)
        ensures
            r@.len() == self@.side_rows().len(),
            forall|i: int| 0 <= i < r@.len() ==> (#[trigger] r@[i])@ == self@.side_rows()[i],
    {
        let mut column: Vec<SideRow> = Vec::new();
        column.push(link_row(self.link_ok));
        column.push(link_info_row(self.status.as_str()));
        column.push(link_stat_row("batches", self.batches));
        column.push(link_stat_row("auth fail", self.stats.auth_fail));
        column.push(link_stat_row("rekeys", self.stats.rehandshakes));
        column.push(link_stat_row("unknown", self.unknown_frames));
        column.push(fault_header(self.data.any_fault()));
        column.push(fault_section_label("KELLY"));
        let faults = self.data.kelly_faults.rows();
        let mut i: usize = 0;
        while i < 11
            invariant
                i <= 11,
                column@.len() == 8 + i,
                self@.data.kelly_faults.labelled().len() == 11,
                self@.data.mppt.len() == 3,
                forall|j: int|
                    0 <= j < 11 ==> (#[trigger] faults@[j]).0@
                        == self@.data.kelly_faults.labelled()[j].0 && faults@[j].1
                        == self@.data.kelly_faults.labelled()[j].1,
                forall|j: int|
                    0 <= j < column@.len() ==> (#[trigger] column@[j])@ == self@.side_rows()[j],
            decreases 11 - i,
        {
            assert(faults@[i as int].0@ == self@.data.kelly_faults.labelled()[i as int].0);
            column.push(fault_row(faults[i].0, faults[i].1));
            i += 1;
        }
        column.push(fault_section_label("MPPT"));
        let mut unit: usize = 0;
        while unit < 3
            invariant
                unit <= 3,
                column@.len() == 20 + unit,
                self@.data.kelly_faults.labelled().len() == 11,
                self@.data.mppt.len() == 3,
                forall|j: int|
                    0 <= j < column@.len() ==> (#[trigger] column@[j])@ == self@.side_rows()[j],
            decreases 3 - unit,
        {
            let data = self.data.mppt[unit];
            column.push(mppt_status_row(unit as u64 + 1, data.status(), data.aux_fault));
            unit += 1;
        }
        column
    }
}

/// The heading of the fault list is lit exactly when a row of that list is.
pub proof fn law_fault_header_sums_up_the_list(app: AppView)
    requires
        app.data.mppt.len() == 3,
    ensures
        app.side_rows().len() == 23,
        app.side_rows()[6].kind == RowKind::Header,
        app.side_rows()[6].tone == Tone::Red <==> exists|i: int|
            7 <= i < 23 && (#[trigger] app.side_rows()[i]).tone == Tone::Red,
        app.data.any_fault_spec() <==> app.side_rows()[6].tone == Tone::Red,
{
    let rows = app.side_rows();
    let labelled = app.data.kelly_faults.labelled();
    assert(labelled.len() == 11);
    assert(rows.len() == 23);
    if app.data.any_fault_spec() {
        if app.data.kelly_faults.any_active() {
            let i = choose|i: int| 0 <= i < labelled.len() && (#[trigger] labelled[i]).1;
            assert(rows[8 + i] == SideRowView::fault(labelled[i].0, labelled[i].1));
            assert(rows[8 + i].tone == Tone::Red);
        } else {
            let i = choose|i: int|
                0 <= i < app.data.mppt.len() && (#[trigger] app.data.mppt[i]).status_spec()
                    == MpptStatus::Fault;
            assert(rows[20 + i].tone == Tone::Red);
        }
    }
    assert forall|i: int| 7 <= i < 23 && (#[trigger] rows[i]).tone == Tone::Red implies
        app.data.any_fault_spec() by {
        if 8 <= i < 19 {
            assert(rows[i] == SideRowView::fault(labelled[i - 8].0, labelled[i - 8].1));
            assert(labelled[i - 8].1);
            assert(app.data.kelly_faults.any_active());
        } else if i >= 20 {
            assert(app.data.mppt[i - 20].status_spec() == MpptStatus::Fault);
        }
    }
}

/// The words on the panel of one charge controller.
#[derive(Debug, PartialEq, Eq)]
pub struct MpptPanel {
    pub title: String,
    /// What the unit is doing.
    pub word: &'static str,
    pub tone: Tone,
    /// The 12 V warning, empty while that supply is in order.
    pub aux_flag: &'static str,
}

/// The words on the panel of one charge controller.
pub fn mppt_panel(index: u64, data: &MpptData) -> (r: MpptPanel)
    ensures
        r.title@ == "MPPT "@ + decimal(index as nat),
        data.status_spec() == MpptStatus::Fault ==> r.word@ == "FAULT"@ && r.tone == Tone::Red,
        data.status_spec() == MpptStatus::Limiting ==> r.word@ == "LIMIT"@ && r.tone == Tone::Amber,
        data.status_spec() == MpptStatus::Nominal ==> r.word@ == "OK"@ && r.tone == Tone::Green,
        data.fault || data.aux_fault ==> r.word@ == "FAULT"@ && r.tone == Tone::Red,
        data.limiting && !data.fault && !data.aux_fault ==> r.word@ == "LIMIT"@ && r.tone
            == Tone::Amber,
        !data.limiting && !data.fault && !data.aux_fault ==> r.word@ == "OK"@ && r.tone
            == Tone::Green,
        r.aux_flag@ == if data.aux_fault {
            "12V!"@
        } else {
            ""@
        },
{
    let (word, tone) = match data.status() {
        MpptStatus::Fault => ("FAULT", Tone::Red),
        MpptStatus::Limiting => ("LIMIT", Tone::Amber),
        MpptStatus::Nominal => ("OK", Tone::Green),
    };
    let aux_flag = if data.aux_fault {
        "12V!"
    } else {
        ""
    };
    MpptPanel { title: mppt_title(index), word, tone, aux_flag }
}

/// The words on the direction panel.
#[derive(Debug, Clone, Copy, PartialEq, Eq)]
pub struct DirectionPanel {
    /// Which way the motor was told to turn.
    pub label: &'static str,
    pub tone: Tone,
    /// Which way it turns.
    pub feedback: &'static str,
}

/// The words on the direction panel.
pub fn direction_panel(direction: MotorDirection, feedback: MotorFeedback) -> (r: DirectionPanel)
    ensures
        direction == MotorDirection::Forward ==> r.label@ == "▶ FWD"@ && r.tone == Tone::Cyan,
        direction == MotorDirection::Neutral ==> r.label@ == "■ NEUT"@ && r.tone == Tone::Amber,
        direction == MotorDirection::Reverse ==> r.label@ == "◀ REV"@ && r.tone == Tone::Red,
        direction == MotorDirection::Unknown ==> r.label@ == "? ----"@ && r.tone == Tone::Dim,
        feedback == MotorFeedback::Stationary ==> r.feedback@ == "fb: STILL"@,
        feedback == MotorFeedback::Forward ==> r.feedback@ == "fb: FWD"@,
        feedback == MotorFeedback::Backward ==> r.feedback@ == "fb: REV"@,
        feedback == MotorFeedback::Unknown ==> r.feedback@ == "fb: ?"@,
{
    let (label, tone) = match direction {
        MotorDirection::Forward => ("▶ FWD", Tone::Cyan),
        MotorDirection::Neutral => ("■ NEUT", Tone::Amber),
        MotorDirection::Reverse => ("◀ REV", Tone::Red),
        MotorDirection::Unknown => ("? ----", Tone::Dim),
    };
    let feedback = match feedback {
        MotorFeedback::Stationary => "fb: STILL",
        MotorFeedback::Forward => "fb: FWD",
        MotorFeedback::Backward => "fb: REV",
        MotorFeedback::Unknown => "fb: ?",
    };
    DirectionPanel { label, tone, feedback }
}

/// One switch on the switches panel.
#[derive(Debug, Clone, Copy, PartialEq, Eq)]
pub struct SwitchPill {
    pub label: &'static str,
    pub on: bool,
    pub tone: Tone,
}

/// One switch, lit in its colour while it is on.
fn switch_pill(label: &'static str, on: bool, lit: Tone) -> (r: SwitchPill)
    ensures
        r == (SwitchPill {
            label,
            on,
            tone: if on {
                lit
            } else {
                Tone::Dim
            },
        }),
{
    SwitchPill {
        label,
        on,
        tone: if on {
            lit
        } else {
            Tone::Dim
        },
    }
}

/// The switches, from left to right.
pub fn switches_panel(brake: bool, foot: bool, boost: bool) -> (r: [SwitchPill; 3])
    ensures
        r@[0].label@ == "BRK"@,
        r@[0].on == brake,
        r@[0].tone == if brake {
            Tone::Red
        } else {
            Tone::Dim
        },
        r@[1].label@ == "FOOT"@,
        r@[1].on == foot,
        r@[1].tone == if foot {
            Tone::Cyan
        } else {
            Tone::Dim
        },
        r@[2].label@ == "BST"@,
        r@[2].on == boost,
        r@[2].tone == if boost {
            Tone::Amber
        } else {
            Tone::Dim
        },
{
    [
        switch_pill("BRK", brake, Tone::Red),
        switch_pill("FOOT", foot, Tone::Cyan),
        switch_pill("BST", boost, Tone::Amber),
    ]
}

/// A row is known by all of its fields.
pub proof fn law_row_view_is_complete(row: SideRow)
    ensures
        row@.kind == row.kind,
        row@.dot == row.dot@,
        row@.label == row.label@,
        row@.value == row.value@,
        row@.tone == row.tone,
        row@.tint == row.tint,
{
}

/// The dashboard is known by all of its fields.
pub proof fn law_app_view_is_complete(app: App)
    ensures
        app@.data == app.data@,
        app@.link_ok == app.link_ok,
        app@.status == app.status@,
        app@.batches == app.batches,
        app@.unknown_frames == app.unknown_frames,
        app@.stats == app.stats,
{
}

/// The side column starts with the link: green and named up, or red and named
/// down, its state in words, and each counter in decimal under its own name.
pub proof fn law_side_column_shows_the_link(app: AppView)
    requires
        app.data.mppt.len() == 3,
    ensures
        ({
            let rows = app.side_rows();
            &&& rows.len() == 23
            &&& rows[0].kind == RowKind::Link
            &&& rows[0].dot == "●"@
            &&& rows[0].value == Seq::<char>::empty()
            &&& rows[0].tint == Tint::Clear
            &&& app.link_ok ==> rows[0].label == "RF LINK OK"@ && rows[0].tone == Tone::Green
            &&& !app.link_ok ==> rows[0].label == "RF LINK DOWN"@ && rows[0].tone == Tone::Red
            &&& rows[1].kind == RowKind::Info
            &&& rows[1].label == app.status
            &&& rows[2].label == "batches"@
            &&& rows[2].value == decimal(app.batches as nat)
            &&& rows[3].label == "auth fail"@
            &&& rows[3].value == decimal(app.stats.auth_fail as nat)
            &&& rows[4].label == "rekeys"@
            &&& rows[4].value == decimal(app.stats.rehandshakes as nat)
            &&& rows[5].label == "unknown"@
            &&& rows[5].value == decimal(app.unknown_frames as nat)
            &&& forall|i: int| 2 <= i < 6 ==> (#[trigger] rows[i]).kind == RowKind::Stat
            &&& rows[1].value == Seq::<char>::empty()
            &&& forall|i: int|
                1 <= i < 6 ==> (#[trigger] rows[i]).tone == Tone::Dim && rows[i].tint
                    == Tint::Clear && rows[i].dot == Seq::<char>::empty()
        }),
{
}

/// Whether a row of the side column shows a fault of the motor controller
/// under its label: with a filled dot and in red if it is active, with an
/// empty dot and dim if not.
pub open spec fn shows_fault(row: SideRowView, label: Seq<char>, active: bool) -> bool {
    &&& row.kind == RowKind::Fault
    &&& row.label == label
    &&& row.value == Seq::<char>::empty()
    &&& active ==> row.dot == "●"@ && row.tone == Tone::Red && row.tint == Tint::Red
    &&& !active ==> row.dot == "○"@ && row.tone == Tone::Dim && row.tint == Tint::Clear
}

/// The side column lists every fault of the motor controller in its place, lit
/// exactly when it is active, between the headings.
pub proof fn law_side_column_lists_every_fault(app: AppView)
    requires
        app.data.mppt.len() == 3,
    ensures
        app.side_rows()[6].kind == RowKind::Header,
        app.side_rows()[6].dot == Seq::<char>::empty(),
        app.side_rows()[6].value == Seq::<char>::empty(),
        app.side_rows()[6].tint == Tint::Clear,
        app.data.any_fault_spec() ==> app.side_rows()[6].label == "⚡ FAULTS"@
            && app.side_rows()[6].tone == Tone::Red,
        !app.data.any_fault_spec() ==> app.side_rows()[6].label == "FAULTS"@
            && app.side_rows()[6].tone == Tone::Dim,
        app.side_rows()[7] == (SideRowView {
            kind: RowKind::Section,
            dot: Seq::empty(),
            label: "KELLY"@,
            value: Seq::empty(),
            tone: Tone::Dim,
            tint: Tint::Clear,
        }),
        shows_fault(
            app.side_rows()[8],
            "Over Voltage"@,
            app.data.kelly_faults.over_voltage,
        ),
        shows_fault(
            app.side_rows()[9],
            "Low Voltage"@,
            app.data.kelly_faults.low_voltage,
        ),
        shows_fault(
            app.side_rows()[10],
            "Stall"@,
            app.data.kelly_faults.stall,
        ),
        shows_fault(
            app.side_rows()[11],
            "Internal Volts"@,
            app.data.kelly_faults.internal_volts,
        ),
        shows_fault(
            app.side_rows()[12],
            "Ctrl Over Temp"@,
            app.data.kelly_faults.controller_over_temp,
        ),
        shows_fault(
            app.side_rows()[13],
            "Motor Over Temp"@,
            app.data.kelly_faults.motor_over_temp,
        ),
        shows_fault(
            app.side_rows()[14],
            "Throttle Error"@,
            app.data.kelly_faults.throttle_error,
        ),
        shows_fault(
            app.side_rows()[15],
            "Hall Throttle"@,
            app.data.kelly_faults.hall_throttle_open,
        ),
        shows_fault(
            app.side_rows()[16],
            "Angle Sensor"@,
            app.data.kelly_faults.angle_sensor,
        ),
        shows_fault(
            app.side_rows()[17],
            "Hall Galvo"@,
            app.data.kelly_faults.hall_galvanometer,
        ),
        shows_fault(
            app.side_rows()[18],
            "ID Error"@,
            app.data.kelly_faults.id_error,
        ),
        app.side_rows()[19] == (SideRowView {
            kind: RowKind::Section,
            dot: Seq::empty(),
            label: "MPPT"@,
            value: Seq::empty(),
            tone: Tone::Dim,
            tint: Tint::Clear,
        }),
{
    law_each_fault_has_its_label(app.data.kelly_faults);
}

/// Each charge controller has its row at the end of the side column, numbered
/// from one. It says a fault in red exactly when a fault or an undervoltage
/// of the 12 V supply is reported, and names the latter; it says limiting in
/// amber exactly when that is reported and neither of those is; and it says
/// that all is well, dim, otherwise.
pub proof fn law_side_column_shows_each_unit(app: AppView, unit: int)
    requires
        app.data.mppt.len() == 3,
        0 <= unit < 3,
    ensures
        ({
            let row = app.side_rows()[20 + unit];
            let data = app.data.mppt[unit];
            let faulty = data.fault || data.aux_fault;
            &&& row.kind == RowKind::Mppt
            &&& row.label == "MPPT "@ + decimal((unit + 1) as nat)
            &&& faulty ==> row.tone == Tone::Red && row.tint == Tint::Red && row.dot == "●"@
            &&& faulty && data.aux_fault ==> row.value == "FAULT+12V"@
            &&& faulty && !data.aux_fault ==> row.value == "FAULT"@
            &&& data.limiting && !faulty ==> row.tone == Tone::Amber && row.tint == Tint::Amber
                && row.dot == "●"@ && row.value == "LIMIT"@
            &&& !data.limiting && !faulty ==> row.tone == Tone::Dim && row.tint == Tint::Clear
                && row.dot == "○"@ && row.value == "OK"@
        }),
{
}

} // verus!
