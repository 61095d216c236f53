//! The panel's command set, the operations the driver hands to the hardware,
//! and the fixed operation sequences of each panel procedure.

use vstd::prelude::*;
use crate::raster::RasterView;
use crate::encoder::{packed_plane, uniform_row, WHITE_BYTE, INK_BYTE};

verus! {

/// Panel width in pixels.
pub const DISPLAY_WIDTH: u32 = 400;

/// Panel height in pixels.
pub const DISPLAY_HEIGHT: u32 = 300;

/// Bytes in one packed line of a plane.
pub const LINE_BYTES: usize = 50;

/// Settle interval of the reset pulse and poll interval of the busy line, in milliseconds.
pub const WAIT_MS: u64 = 200;

pub const CMD_PANEL_SETTING: u8 = 0x00;
pub const CMD_POWER_OFF: u8 = 0x02;
pub const CMD_POWER_ON: u8 = 0x04;
pub const CMD_BOOSTER_SOFT_START: u8 = 0x06;
pub const CMD_DEEP_SLEEP: u8 = 0x07;
pub const CMD_BLACK_DATA: u8 = 0x10;
pub const CMD_DISPLAY_REFRESH: u8 = 0x12;
pub const CMD_RED_DATA: u8 = 0x13;

/// Parameter byte of each of the three booster soft-start phases.
pub const BOOSTER_PARAM: u8 = 0x17;

/// Parameter byte of the panel-setting command.
pub const PANEL_SETTING_PARAM: u8 = 0x0f;

/// Confirmation byte that must follow the deep-sleep command.
pub const DEEP_SLEEP_CHECK: u8 = 0xa5;

/// Failures of panel operations.
#[derive(Debug, Clone, Copy, PartialEq, Eq, Structural)]
pub enum PanelError {
    /// A GPIO line or the SPI channel could not be acquired or configured.
    ResourceUnavailable,
    /// The busy line read a value other than 0 or 1.
    UnexpectedSignal,
    /// A raster does not have the panel's resolution.
    SizeMismatch,
}

/// One step of work for the hardware.
#[derive(Debug, PartialEq, Eq)]
pub enum PanelOp {
    /// Data/command line low, then this byte over SPI.
    Command(u8),
    /// Data/command line high, then this byte over SPI.
    DataByte(u8),
    /// Data/command line high, then these bytes in one SPI transaction.
    Data(Vec<u8>),
    /// Poll the busy line until the panel reports ready.
    WaitBusy,
    /// Drive the reset line to this level.
    SetReset(u8),
    /// Hold the lines as they are for this many milliseconds.
    Pause(u64),
}

/// The content of a `PanelOp`.
pub enum OpView {
    Command(u8),
    DataByte(u8),
    Data(Seq<u8>),
    WaitBusy,
    SetReset(u8),
    Pause(u64),
}

impl View for PanelOp {
    type V = OpView;

    open spec fn view(&self) -> OpView {
        match self {
            PanelOp::Command(c) => OpView::Command(*c),
            PanelOp::DataByte(b) => OpView::DataByte(*b),
            PanelOp::Data(v) => OpView::Data(v@),
            PanelOp::WaitBusy => OpView::WaitBusy,
            PanelOp::SetReset(l) => OpView::SetReset(*l),
            PanelOp::Pause(ms) => OpView::Pause(*ms),
        }
    }
}

/// A line of the plane that is all paper.
pub open spec fn white_line() -> Seq<u8> {
    uniform_row(WHITE_BYTE, LINE_BYTES as nat)
}

/// A line of the plane that is all ink.
pub open spec fn ink_line() -> Seq<u8> {
    uniform_row(INK_BYTE, LINE_BYTES as nat)
}

/// A full-height plane whose first `white_rows` lines are paper and the rest ink.
pub open spec fn banded_plane(white_rows: nat) -> Seq<Seq<u8>> {
    Seq::new(DISPLAY_HEIGHT as nat, |y: int| if y < white_rows { white_line() } else { ink_line() })
}

/// One data write per line of the plane, in order.
pub open spec fn plane_ops(rows: Seq<Seq<u8>>) -> Seq<OpView> {
    Seq::new(rows.len(), |y: int| OpView::Data(rows[y]))
}

/// Black plane, red plane, then refresh and wait for the panel.
pub open spec fn frame_ops(black: Seq<Seq<u8>>, red: Seq<Seq<u8>>) -> Seq<OpView> {
    seq![OpView::Command(CMD_BLACK_DATA)] + plane_ops(black) + seq![OpView::Command(CMD_RED_DATA)]
        + plane_ops(red) + seq![OpView::Command(CMD_DISPLAY_REFRESH), OpView::WaitBusy]
}

/// Reset pulse: high, low, high, each level held for the settle interval.
pub open spec fn reset_ops() -> Seq<OpView> {
    seq![
        OpView::SetReset(1), OpView::Pause(WAIT_MS),
        OpView::SetReset(0), OpView::Pause(WAIT_MS),
        OpView::SetReset(1), OpView::Pause(WAIT_MS),
    ]
}

/// Booster soft start, power on, wait, panel setting.
pub open spec fn first_sequence_ops() -> Seq<OpView> {
    seq![
        OpView::Command(CMD_BOOSTER_SOFT_START),
        OpView::DataByte(BOOSTER_PARAM),
        OpView::DataByte(BOOSTER_PARAM),
        OpView::DataByte(BOOSTER_PARAM),
        OpView::Command(CMD_POWER_ON),
        OpView::WaitBusy,
        OpView::Command(CMD_PANEL_SETTING),
        OpView::DataByte(PANEL_SETTING_PARAM),
    ]
}

/// Both planes all paper.
pub open spec fn clear_display_ops() -> Seq<OpView> {
    frame_ops(banded_plane(DISPLAY_HEIGHT as nat), banded_plane(DISPLAY_HEIGHT as nat))
}

/// Black plane: the first third of the lines paper, the rest ink. Red plane:
/// the first two thirds paper, the rest colored.
pub open spec fn tricolor_ops() -> Seq<OpView> {
    frame_ops(
        banded_plane((DISPLAY_HEIGHT / 3) as nat),
        banded_plane((DISPLAY_HEIGHT / 3 * 2) as nat),
    )
}

/// The red plane of an image frame: the packed red raster, or all paper.
pub open spec fn red_plane(red: Option<RasterView>) -> Seq<Seq<u8>> {
    match red {
        Some(r) => packed_plane(r),
        None => banded_plane(DISPLAY_HEIGHT as nat),
    }
}

/// The packed black raster, then the red plane.
pub open spec fn image_ops(img: RasterView, red: Option<RasterView>) -> Seq<OpView> {
    frame_ops(packed_plane(img), red_plane(red))
}

/// Power off, wait, then deep sleep with its confirmation byte.
pub open spec fn close_ops() -> Seq<OpView> {
    seq![
        OpView::Command(CMD_POWER_OFF),
        OpView::WaitBusy,
        OpView::Command(CMD_DEEP_SLEEP),
        OpView::DataByte(DEEP_SLEEP_CHECK),
    ]
}

/// Whether a raster has exactly the panel's resolution.
pub open spec fn panel_sized(r: RasterView) -> bool {
    r.width == DISPLAY_WIDTH && r.height == DISPLAY_HEIGHT
}

/// Where each operation of a frame stands: the black-plane command at 0,
/// its lines from 1, the red-plane command after them, the red lines, then
/// the refresh and the wait.
proof fn lemma_frame_layout(black: Seq<Seq<u8>>, red: Seq<Seq<u8>>)
    requires
        black.len() == DISPLAY_HEIGHT,
        red.len() == DISPLAY_HEIGHT,
    ensures
        frame_ops(black, red).len() == 2 * DISPLAY_HEIGHT + 4,
        frame_ops(black, red)[0] == OpView::Command(CMD_BLACK_DATA),
        forall|y: int| 0 <= y < DISPLAY_HEIGHT ==> #[trigger] frame_ops(black, red)[1 + y] == OpView::Data(black[y]),
        frame_ops(black, red)[DISPLAY_HEIGHT + 1] == OpView::Command(CMD_RED_DATA),
        forall|y: int| 0 <= y < DISPLAY_HEIGHT ==> #[trigger] frame_ops(black, red)[DISPLAY_HEIGHT + 2 + y] == OpView::Data(red[y]),
        frame_ops(black, red)[2 * DISPLAY_HEIGHT + 2] == OpView::Command(CMD_DISPLAY_REFRESH),
        frame_ops(black, red)[2 * DISPLAY_HEIGHT + 3] == OpView::WaitBusy,
{
    let h = DISPLAY_HEIGHT as int;
    let f = frame_ops(black, red);
    let a = seq![OpView::Command(CMD_BLACK_DATA)] + plane_ops(black);
    let b = a + seq![OpView::Command(CMD_RED_DATA)];
    let c = b + plane_ops(red);
    assert(f == c + seq![OpView::Command(CMD_DISPLAY_REFRESH), OpView::WaitBusy]);
    assert forall|y: int| 0 <= y < h implies #[trigger] f[1 + y] == OpView::Data(black[y]) by {
        assert(a[1 + y] == plane_ops(black)[y]);
        assert(b[1 + y] == a[1 + y]);
        assert(c[1 + y] == b[1 + y]);
    }
    assert forall|y: int| 0 <= y < h implies #[trigger] f[h + 2 + y] == OpView::Data(red[y]) by {
        assert(c[h + 2 + y] == plane_ops(red)[y]);
    }
    assert(c[h + 1] == b[h + 1]);
}

/// Clearing sends every line of both planes as paper: one command for the
/// black plane and one data write per line, each `DISPLAY_WIDTH / 8` bytes of
/// 0xFF; the same for the red plane; then the refresh and the wait.
pub proof fn lemma_clear_display_writes()
    ensures
        clear_display_ops().len() == 2 * DISPLAY_HEIGHT + 4,
        clear_display_ops()[0] == OpView::Command(CMD_BLACK_DATA),
        forall|y: int| 0 <= y < DISPLAY_HEIGHT ==> #[trigger] clear_display_ops()[1 + y] == OpView::Data(white_line()),
        clear_display_ops()[DISPLAY_HEIGHT + 1] == OpView::Command(CMD_RED_DATA),
        forall|y: int| 0 <= y < DISPLAY_HEIGHT ==> #[trigger] clear_display_ops()[DISPLAY_HEIGHT + 2 + y] == OpView::Data(white_line()),
        clear_display_ops()[2 * DISPLAY_HEIGHT + 2] == OpView::Command(CMD_DISPLAY_REFRESH),
        clear_display_ops()[2 * DISPLAY_HEIGHT + 3] == OpView::WaitBusy,
        white_line().len() == DISPLAY_WIDTH / 8,
        forall|i: int| 0 <= i < white_line().len() ==> #[trigger] white_line()[i] == 0xffu8,
{
    lemma_frame_layout(banded_plane(DISPLAY_HEIGHT as nat), banded_plane(DISPLAY_HEIGHT as nat));
}

/// The stripe pattern on the 300-line panel: black plane lines 0 to 99 all
/// 0xFF and lines 100 to 299 all 0x00; red plane lines 0 to 199 all 0xFF and
/// lines 200 to 299 all 0x00.
pub proof fn lemma_tricolor_bands()
    ensures
        tricolor_ops().len() == 2 * DISPLAY_HEIGHT + 4,
        tricolor_ops()[0] == OpView::Command(CMD_BLACK_DATA),
        forall|y: int| 0 <= y < 100 ==> #[trigger] tricolor_ops()[1 + y] == OpView::Data(white_line()),
        forall|y: int| 100 <= y < 300 ==> #[trigger] tricolor_ops()[1 + y] == OpView::Data(ink_line()),
        tricolor_ops()[DISPLAY_HEIGHT + 1] == OpView::Command(CMD_RED_DATA),
        forall|y: int| 0 <= y < 200 ==> #[trigger] tricolor_ops()[DISPLAY_HEIGHT + 2 + y] == OpView::Data(white_line()),
        forall|y: int| 200 <= y < 300 ==> #[trigger] tricolor_ops()[DISPLAY_HEIGHT + 2 + y] == OpView::Data(ink_line()),
        tricolor_ops()[2 * DISPLAY_HEIGHT + 2] == OpView::Command(CMD_DISPLAY_REFRESH),
        tricolor_ops()[2 * DISPLAY_HEIGHT + 3] == OpView::WaitBusy,
        forall|i: int| 0 <= i < white_line().len() ==> #[trigger] white_line()[i] == 0xffu8,
        forall|i: int| 0 <= i < ink_line().len() ==> #[trigger] ink_line()[i] == 0x00u8,
{
    lemma_frame_layout(banded_plane((DISPLAY_HEIGHT / 3) as nat), banded_plane((DISPLAY_HEIGHT / 3 * 2) as nat));
}

} // verus!
