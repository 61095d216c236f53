//! The panel driver: each panel procedure appends its operations, built from
//! the command and data primitives, to a queue that the hardware side drains
//! and performs in order.

use vstd::prelude::*;
use crate::raster::GrayRaster;
use crate::encoder::{encode_row, filled_row, packed_plane, WHITE_BYTE, INK_BYTE};
use crate::busy::busy_of;
use crate::protocol::{
    PanelError, PanelOp, OpView, banded_plane, clear_display_ops, close_ops, first_sequence_ops,
    frame_ops, image_ops, panel_sized, plane_ops, red_plane, reset_ops, tricolor_ops,
    BOOSTER_PARAM, CMD_BLACK_DATA, CMD_BOOSTER_SOFT_START, CMD_DEEP_SLEEP, CMD_DISPLAY_REFRESH,
    CMD_PANEL_SETTING, CMD_POWER_OFF, CMD_POWER_ON, CMD_RED_DATA, DEEP_SLEEP_CHECK, DISPLAY_HEIGHT,
    DISPLAY_WIDTH, LINE_BYTES, PANEL_SETTING_PARAM, WAIT_MS,
};
use crate::raster::RasterView;

verus! {

/// SPI channel settings the panel requires.
#[derive(Debug, Clone, Copy, PartialEq, Eq, Structural)]
pub struct SpiSettings {
    pub bits_per_word: u8,
    pub max_speed_hz: u32,
    /// Clock polarity and phase: 0 is clock idle low, data valid on the leading edge.
    pub mode: u8,
    pub lsb_first: bool,
}

/// Driver of one panel: the lines and channel it is wired to, and the
/// operations queued for the hardware.
pub struct EPaper42Driver {
    busy_port: u64,
    rst_port: u64,
    dc_port: u64,
    spi_devname: String,
    pending: Vec<PanelOp>,
}

impl EPaper42Driver {
    /// The operations queued and not yet taken, oldest first.
    pub closed spec fn queued(&self) -> Seq<OpView> {
        self.pending@.map_values(|op: PanelOp| op@)
    }

    pub closed spec fn busy_line(&self) -> u64 {
        self.busy_port
    }

    pub closed spec fn reset_line(&self) -> u64 {
        self.rst_port
    }

    pub closed spec fn dc_line(&self) -> u64 {
        self.dc_port
    }

    pub closed spec fn spi_device(&self) -> Seq<char> {
        self.spi_devname@
    }

    /// Wired to the same lines and SPI device as `other`.
    pub open spec fn same_wiring(&self, other: &Self) -> bool {
        &&& self.busy_line() == other.busy_line()
        &&& self.reset_line() == other.reset_line()
        &&& self.dc_line() == other.dc_line()
        &&& self.spi_device() == other.spi_device()
    }

    /// A driver for the given lines and SPI device, with nothing queued.
    pub fn new(busy_port: u64, rst_port: u64, dc_port: u64, spi_devname: &str) -> (r: EPaper42Driver)
        ensures
            r.busy_line() == busy_port,
            r.reset_line() == rst_port,
            r.dc_line() == dc_port,
            r.spi_device() == spi_devname@,
            r.queued() == Seq::<OpView>::empty(),
    {
        let r = EPaper42Driver {
            busy_port,
            rst_port,
            dc_port,
            spi_devname: spi_devname.to_owned(),
            pending: Vec::new(),
        };
        assert(r.queued() =~= Seq::<OpView>::empty());
        r
    }

    fn push_op(&mut self, op: PanelOp)
        ensures
            final(self).queued() == old(self).queued().push(op@),
            final(self).same_wiring(old(self)),
    {
        let ghost before = self.pending@;
        self.pending.push(op);
        assert(self.pending@.map_values(|op: PanelOp| op@) =~= before.map_values(
            |op: PanelOp| op@,
        ).push(op@));
    }

    /// Hands over the queued operations, oldest first, and empties the queue.
    pub fn take_pending(&mut self) -> (r: Vec<PanelOp>)
        ensures
            r@.map_values(|op: PanelOp| op@) == old(self).queued(),
            final(self).queued() == Seq::<OpView>::empty(),
            final(self).same_wiring(old(self)),
    {
        let mut r: Vec<PanelOp> = Vec::new();
        std::mem::swap(&mut r, &mut self.pending);
        assert(self.queued() =~= Seq::<OpView>::empty());
        r
    }

    pub fn busy_port(&self) -> (r: u64)
        ensures
            r == self.busy_line(),
    {
        self.busy_port
    }

    pub fn rst_port(&self) -> (r: u64)
        ensures
            r == self.reset_line(),
    {
        self.rst_port
    }

    pub fn dc_port(&self) -> (r: u64)
        ensures
            r == self.dc_line(),
    {
        self.dc_port
    }

    pub fn spi_devname(&self) -> (r: &str)
        ensures
            r@ == self.spi_device(),
    {
        self.spi_devname.as_str()
    }

    /// The SPI settings applied at initialisation: 8-bit words, 4 MHz,
    /// mode 0, most significant bit first.
    pub fn spi_settings() -> (r: SpiSettings)
        ensures
            r == (SpiSettings { bits_per_word: 8, max_speed_hz: 4_000_000, mode: 0, lsb_first: false }),
    {
        SpiSettings { bits_per_word: 8, max_speed_hz: 4_000_000, mode: 0, lsb_first: false }
    }

    /// Interprets one sample of the busy line: 0 is busy, 1 is ready.
    pub fn is_busy(sample: u8) -> (r: Result<bool, PanelError>)
        ensures
            r == busy_of(sample),
    {
        if sample == 0 {
            Ok(true)
        } else if sample == 1 {
            Ok(false)
        } else {
            Err(PanelError::UnexpectedSignal)
        }
    }
}

impl EPaper42Driver {
    /// Queues a command byte: data/command line low, then the byte.
    pub fn send_command_byte(&mut self, byte: u8)
        ensures
            final(self).queued() == old(self).queued().push(OpView::Command(byte)),
            final(self).same_wiring(old(self)),
    {
        self.push_op(PanelOp::Command(byte));
    }

    /// Queues a single parameter byte: data/command line high, then the byte.
    pub fn send_data_byte(&mut self, byte: u8)
        ensures
            final(self).queued() == old(self).queued().push(OpView::DataByte(byte)),
            final(self).same_wiring(old(self)),
    {
        self.push_op(PanelOp::DataByte(byte));
    }

    /// Queues a run of parameter bytes, sent in one SPI transaction.
    pub fn send_data(&mut self, bytes: &[u8])
        ensures
            final(self).queued() == old(self).queued().push(OpView::Data(bytes@)),
            final(self).same_wiring(old(self)),
    {
        let mut payload: Vec<u8> = Vec::new();
        let mut i: usize = 0;
        while i < bytes.len()
            invariant
                i <= bytes@.len(),
                payload@ =~= bytes@.take(i as int),
            decreases bytes@.len() - i,
        {
            payload.push(bytes[i]);
            i = i + 1;
        }
        assert(payload@ =~= bytes@);
        self.push_op(PanelOp::Data(payload));
    }

    /// Queues a wait until the busy line reports the panel ready.
    pub fn wait_busy(&mut self)
        ensures
            final(self).queued() == old(self).queued().push(OpView::WaitBusy),
            final(self).same_wiring(old(self)),
    {
        self.push_op(PanelOp::WaitBusy);
    }

    /// Queues the hardware reset pulse: reset line high, low, then high
    /// again, each level held for the settle interval.
    pub fn reset(&mut self)
        ensures
            final(self).queued() == old(self).queued() + reset_ops(),
            final(self).same_wiring(old(self)),
    {
        self.push_op(PanelOp::SetReset(1));
        self.push_op(PanelOp::Pause(WAIT_MS));
        self.push_op(PanelOp::SetReset(0));
        self.push_op(PanelOp::Pause(WAIT_MS));
        self.push_op(PanelOp::SetReset(1));
        self.push_op(PanelOp::Pause(WAIT_MS));
        assert(self.queued() =~= old(self).queued() + reset_ops());
    }

    /// Queues the power-on sequence: booster soft start with its three
    /// parameters, power on, a wait for the panel, then the panel setting.
    pub fn first_sequence(&mut self)
        ensures
            final(self).queued() == old(self).queued() + first_sequence_ops(),
            final(self).same_wiring(old(self)),
    {
        self.send_command_byte(CMD_BOOSTER_SOFT_START);
        self.send_data_byte(BOOSTER_PARAM);
        self.send_data_byte(BOOSTER_PARAM);
        self.send_data_byte(BOOSTER_PARAM);
        self.send_command_byte(CMD_POWER_ON);
        self.wait_busy();
        self.send_command_byte(CMD_PANEL_SETTING);
        self.send_data_byte(PANEL_SETTING_PARAM);
        assert(self.queued() =~= old(self).queued() + first_sequence_ops());
    }

    /// Queues the power-down sequence: power off, a wait for the panel, then
    /// deep sleep with its confirmation byte. Nothing may be sent afterwards.
    pub fn close(&mut self)
        ensures
            final(self).queued() == old(self).queued() + close_ops(),
            final(self).same_wiring(old(self)),
    {
        self.send_command_byte(CMD_POWER_OFF);
        self.wait_busy();
        self.send_command_byte(CMD_DEEP_SLEEP);
        self.send_data_byte(DEEP_SLEEP_CHECK);
        assert(self.queued() =~= old(self).queued() + close_ops());
    }
}

/// The content of an optional raster.
pub open spec fn opt_view(img: Option<&GrayRaster>) -> Option<RasterView> {
    match img {
        Some(g) => Some(g@),
        None => None,
    }
}

/// The lines of one plane: the packed raster where there is one, else
/// `white_rows` paper lines over ink lines.
spec fn plane_source(white_rows: nat, img: Option<RasterView>) -> Seq<Seq<u8>> {
    match img {
        Some(r) => packed_plane(r),
        None => banded_plane(white_rows),
    }
}

impl EPaper42Driver {
    /// Queues one plane: its data command, then one data write per line.
    fn send_plane(&mut self, command: u8, white_rows: u32, img: Option<&GrayRaster>)
        requires
            img matches Some(g) ==> g.wf() && panel_sized(g@),
        ensures
            final(self).queued() == old(self).queued() + seq![OpView::Command(command)]
                + plane_ops(plane_source(white_rows as nat, opt_view(img))),
            final(self).same_wiring(old(self)),
    {
        let ghost rows = plane_source(white_rows as nat, opt_view(img));
        self.send_command_byte(command);
        let ghost start = self.queued();
        let mut y: u32 = 0;
        while y < DISPLAY_HEIGHT
            invariant
                img matches Some(g) ==> g.wf() && panel_sized(g@),
                rows == plane_source(white_rows as nat, opt_view(img)),
                rows.len() == DISPLAY_HEIGHT,
                y <= DISPLAY_HEIGHT,
                self.queued() == start + plane_ops(rows).take(y as int),
                self.same_wiring(old(self)),
            decreases DISPLAY_HEIGHT - y,
        {
            let row: Vec<u8> = match img {
                Some(g) => encode_row(g, y),
                None => {
                    if y < white_rows {
                        filled_row(WHITE_BYTE, LINE_BYTES)
                    } else {
                        filled_row(INK_BYTE, LINE_BYTES)
                    }
                },
            };
            assert(row@ == rows[y as int]);
            self.send_data(row.as_slice());
            assert(plane_ops(rows).take(y as int).push(OpView::Data(rows[y as int])) =~= plane_ops(
                rows,
            ).take(y + 1));
            y = y + 1;
        }
        assert(plane_ops(rows).take(DISPLAY_HEIGHT as int) =~= plane_ops(rows));
        assert(self.queued() =~= old(self).queued() + seq![OpView::Command(command)] + plane_ops(rows));
    }

    /// Queues both planes of a frame, then the refresh and a wait for the panel.
    fn send_frame(&mut self, black_white_rows: u32, img: Option<&GrayRaster>, red_white_rows: u32, red_img: Option<&GrayRaster>)
        requires
            img matches Some(g) ==> g.wf() && panel_sized(g@),
            red_img matches Some(g) ==> g.wf() && panel_sized(g@),
        ensures
            final(self).queued() == old(self).queued() + frame_ops(
                plane_source(black_white_rows as nat, opt_view(img)),
                plane_source(red_white_rows as nat, opt_view(red_img)),
            ),
            final(self).same_wiring(old(self)),
    {
        self.send_plane(CMD_BLACK_DATA, black_white_rows, img);
        self.send_plane(CMD_RED_DATA, red_white_rows, red_img);
        self.send_command_byte(CMD_DISPLAY_REFRESH);
        self.wait_busy();
        assert(self.queued() =~= old(self).queued() + frame_ops(
            plane_source(black_white_rows as nat, opt_view(img)),
            plane_source(red_white_rows as nat, opt_view(red_img)),
        ));
    }

    /// Queues a frame with both planes all paper, then the refresh.
    pub fn clear_display(&mut self)
        ensures
            final(self).queued() == old(self).queued() + clear_display_ops(),
            final(self).same_wiring(old(self)),
    {
        self.send_frame(DISPLAY_HEIGHT, None, DISPLAY_HEIGHT, None);
    }

    /// Queues the stripe pattern: the black plane paper for its first third
    /// and ink below, the red plane paper for its first two thirds and colored
    /// below, then the refresh.
    pub fn print_tricolor(&mut self)
        ensures
            final(self).queued() == old(self).queued() + tricolor_ops(),
            final(self).same_wiring(old(self)),
    {
        self.send_frame(DISPLAY_HEIGHT / 3, None, DISPLAY_HEIGHT / 3 * 2, None);
    }

    /// Queues a frame showing `img` on the black plane and `red_img`, or
    /// nothing, on the red plane, then the refresh. Fails with `SizeMismatch`,
    /// queueing nothing, when either raster is not of the panel's resolution.
    pub fn print_image(&mut self, img: &GrayRaster, red_img: Option<&GrayRaster>) -> (r: Result<(), PanelError>)
        requires
            img.wf(),
            red_img matches Some(g) ==> g.wf(),
        ensures
            r is Ok <==> panel_sized(img@) && (red_img matches Some(g) ==> panel_sized(g@)),
            r is Ok ==> final(self).queued() == old(self).queued() + image_ops(img@, opt_view(red_img)),
            r is Err ==> r == Err::<(), PanelError>(PanelError::SizeMismatch) && final(self).queued() == old(self).queued(),
            final(self).same_wiring(old(self)),
    {
        if img.width() != DISPLAY_WIDTH || img.height() != DISPLAY_HEIGHT {
            return Err(PanelError::SizeMismatch);
        }
        if let Some(rimg) = red_img {
            if rimg.width() != DISPLAY_WIDTH || rimg.height() != DISPLAY_HEIGHT {
                return Err(PanelError::SizeMismatch);
            }
        }
        self.send_frame(DISPLAY_HEIGHT, Some(img), DISPLAY_HEIGHT, red_img);
        assert(plane_source(DISPLAY_HEIGHT as nat, opt_view(red_img)) == red_plane(opt_view(red_img)));
        Ok(())
    }
}

} // verus!
