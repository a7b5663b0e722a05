//! Driver logic for a Raspberry Pi display board: an ST7789 panel on SPI,
//! four buttons and an RGB status LED. The library plans the bus traffic
//! (command/data framing, chunked transfers, the start-up sequence, window
//! addressing and 5-6-5 pixel packing) and decides the GPIO drive; the
//! hardware handles carry the plans out.
use vstd::prelude::*;

pub mod error;
pub mod peripherals;
pub mod pixels;
pub mod st7789;

use crate::error::DisplayError;
use crate::pixels::{rgb565_bytes, rgb_to_rgb565};
use crate::st7789::{
    buffer_signals, init_display, init_table, program, send_buffer, set_window, window_signals,
    BusScript, SignalModel,
};

verus! {

/// Panel width in pixels.
pub const WIDTH: u32 = 320;

/// Panel height in pixels.
pub const HEIGHT: u32 = 240;

/// Pixels on the panel, `WIDTH * HEIGHT`.
pub const PIXEL_COUNT: usize = 76800;

/// The panel's bring-up: the controller's start-up sequence with inversion
/// on, then the window over the whole panel.
pub open spec fn setup_signals() -> Seq<SignalModel> {
    program(init_table(true)) + window_signals(WIDTH, HEIGHT)
}

/// The bus traffic that brings the panel up.
pub fn setup_script() -> (r: BusScript)
    ensures
        r@ == setup_signals(),
{
    let mut script = BusScript::new();
    init_display(&mut script, true);
    set_window(&mut script, WIDTH, HEIGHT);
    assert(script@ =~= setup_signals());
    script
}

/// The bus traffic of one frame given as interleaved RGB, three bytes a
/// pixel: its 5-6-5 form sent as one data buffer. A buffer that does not hold
/// exactly the panel's pixels is refused.
pub fn frame_script(rgb: &[u8]) -> (r: Result<BusScript, DisplayError>)
    ensures
        rgb@.len() == 3 * PIXEL_COUNT <==> r is Ok,
        r matches Ok(s) ==> s@ == buffer_signals(rgb565_bytes(rgb@)),
        r matches Err(e) ==> e == DisplayError::SizeMismatch,
{
    let converted = rgb_to_rgb565(rgb, PIXEL_COUNT);
    match converted {
        Ok(out) => {
            let mut script = BusScript::new();
            send_buffer(&mut script, out.as_slice());
            assert(script@ =~= buffer_signals(rgb565_bytes(rgb@)));
            Ok(script)
        },
        Err(e) => Err(e),
    }
}

} // verus!
