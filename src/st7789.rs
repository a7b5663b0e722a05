use vstd::prelude::*;
use vstd::slice::{slice_subrange, slice_to_vec};

verus! {

/// The controller's command bytes.
#[derive(Clone, Copy, PartialEq, Eq, Debug)]
pub enum Commands {
    SWRESET,
    MADCTL,
    FRMCTR2,
    COLMOD,
    GCTRL,
    VCOMS,
    LCMCTRL,
    VDVVRHEN,
    VRHS,
    VDVS,
    FRCTRL2,
    GMCTRP1,
    GMCTRN1,
    INVON,
    INVOFF,
    SLPOUT,
    DISPON,
    CASET,
    RASET,
    RAMWR,
    TEON,
    PWCTRL1,
}

impl Commands {
    /// The byte that the controller knows this command by.
    pub open spec fn code(self) -> u8 {
        match self {
            Commands::SWRESET => 0x01,
            Commands::MADCTL => 0x36,
            Commands::FRMCTR2 => 0xB2,
            Commands::COLMOD => 0x3A,
            Commands::GCTRL => 0xB7,
            Commands::VCOMS => 0xBB,
            Commands::LCMCTRL => 0xC0,
            Commands::VDVVRHEN => 0xC2,
            Commands::VRHS => 0xC3,
            Commands::VDVS => 0xC4,
            Commands::FRCTRL2 => 0xC6,
            Commands::GMCTRP1 => 0xE0,
            Commands::GMCTRN1 => 0xE1,
            Commands::INVON => 0x21,
            Commands::INVOFF => 0x20,
            Commands::SLPOUT => 0x11,
            Commands::DISPON => 0x29,
            Commands::CASET => 0x2A,
            Commands::RASET => 0x2B,
            Commands::RAMWR => 0x2C,
            Commands::TEON => 0x35,
            Commands::PWCTRL1 => 0xD0,
        }
    }

    pub fn u8(self) -> (r: u8)
        ensures
            r == self.code(),
    {
        match self {
            Commands::SWRESET => 0x01,
            Commands::MADCTL => 0x36,
            Commands::FRMCTR2 => 0xB2,
            Commands::COLMOD => 0x3A,
            Commands::GCTRL => 0xB7,
            Commands::VCOMS => 0xBB,
            Commands::LCMCTRL => 0xC0,
            Commands::VDVVRHEN => 0xC2,
            Commands::VRHS => 0xC3,
            Commands::VDVS => 0xC4,
            Commands::FRCTRL2 => 0xC6,
            Commands::GMCTRP1 => 0xE0,
            Commands::GMCTRN1 => 0xE1,
            Commands::INVON => 0x21,
            Commands::INVOFF => 0x20,
            Commands::SLPOUT => 0x11,
            Commands::DISPON => 0x29,
            Commands::CASET => 0x2A,
            Commands::RASET => 0x2B,
            Commands::RAMWR => 0x2C,
            Commands::TEON => 0x35,
            Commands::PWCTRL1 => 0xD0,
        }
    }
}

/// Largest number of bytes handed to the bus in one transfer.
pub const CHUNK: usize = 4096;

/// One step of bus activity: a level of the command/data line, a transfer,
/// or a pause (in milliseconds) that the controller needs to settle.
#[derive(Debug, PartialEq, Eq)]
pub enum Signal {
    CommandLine,
    DataLine,
    Write(Vec<u8>),
    Settle(u32),
}

/// What a `Signal` means, with the transfer's bytes as a sequence.
pub enum SignalModel {
    CommandLine,
    DataLine,
    Write(Seq<u8>),
    Settle(u32),
}

impl View for Signal {
    type V = SignalModel;

    open spec fn view(&self) -> SignalModel {
        match self {
            Signal::CommandLine => SignalModel::CommandLine,
            Signal::DataLine => SignalModel::DataLine,
            Signal::Write(bytes) => SignalModel::Write(bytes@),
            Signal::Settle(ms) => SignalModel::Settle(*ms),
        }
    }
}

/// The ordered bus activity that a sequence of framing operations produces,
/// to be carried out on the hardware in this order.
pub struct BusScript {
    pub signals: Vec<Signal>,
}

impl View for BusScript {
    type V = Seq<SignalModel>;

    open spec fn view(&self) -> Seq<SignalModel> {
        self.signals@.map_values(|s: Signal| s@)
    }
}

impl BusScript {
    pub fn new() -> (r: BusScript)
        ensures
            r@ == Seq::<SignalModel>::empty(),
    {
        let r = BusScript { signals: Vec::new() };
        assert(r@ =~= Seq::<SignalModel>::empty());
        r
    }

    fn push(&mut self, s: Signal)
        ensures
            final(self)@ == old(self)@.push(s@),
    {
        self.signals.push(s);
        assert(final(self)@ =~= old(self)@.push(s@));
    }
}

/// A command byte: the line goes to command level, then the byte is written.
pub open spec fn command_signals(command: u8) -> Seq<SignalModel> {
    seq![SignalModel::CommandLine, SignalModel::Write(seq![command])]
}

/// A data byte: the line goes to data level, then the byte is written.
pub open spec fn data_signals(data: u8) -> Seq<SignalModel> {
    seq![SignalModel::DataLine, SignalModel::Write(seq![data])]
}

pub fn send_command(script: &mut BusScript, command: u8)
    ensures
        final(script)@ == old(script)@ + command_signals(command),
{
    script.push(Signal::CommandLine);
    let mut v: Vec<u8> = Vec::new();
    v.push(command);
    assert(v@ =~= seq![command]);
    script.push(Signal::Write(v));
    assert(final(script)@ =~= old(script)@ + command_signals(command));
}

pub fn send_data(script: &mut BusScript, data: u8)
    ensures
        final(script)@ == old(script)@ + data_signals(data),
{
    script.push(Signal::DataLine);
    let mut v: Vec<u8> = Vec::new();
    v.push(data);
    assert(v@ =~= seq![data]);
    script.push(Signal::Write(v));
    assert(final(script)@ =~= old(script)@ + data_signals(data));
}

/// The transfers that carry `b`: consecutive pieces of `CHUNK` bytes, the
/// last one shorter where the length is not a multiple of `CHUNK`.
pub open spec fn chunked(b: Seq<u8>) -> Seq<SignalModel>
    decreases b.len(),
{
    if b.len() == 0 {
        Seq::empty()
    } else if b.len() <= CHUNK {
        seq![SignalModel::Write(b)]
    } else {
        seq![SignalModel::Write(b.take(CHUNK as int))] + chunked(b.skip(CHUNK as int))
    }
}

/// A buffer of data: the line goes to data level once, then the chunks follow.
pub open spec fn buffer_signals(b: Seq<u8>) -> Seq<SignalModel> {
    seq![SignalModel::DataLine] + chunked(b)
}

/// The bytes that the transfers of `s` carry, in order.
pub open spec fn payload(s: Seq<SignalModel>) -> Seq<u8>
    decreases s.len(),
{
    if s.len() == 0 {
        Seq::empty()
    } else {
        let head = match s[0] {
            SignalModel::Write(b) => b,
            _ => Seq::empty(),
        };
        head + payload(s.skip(1))
    }
}

pub fn send_buffer(script: &mut BusScript, buffer: &[u8])
    ensures
        final(script)@ == old(script)@ + buffer_signals(buffer@),
{
    script.push(Signal::DataLine);
    let size = buffer.len();
    let mut start: usize = 0;
    assert(buffer@.skip(0) =~= buffer@);
    assert(old(script)@ + buffer_signals(buffer@) =~= script@ + chunked(buffer@));
    while start < size
        invariant
            start <= size,
            size == buffer@.len(),
            old(script)@ + buffer_signals(buffer@) == script@ + chunked(buffer@.skip(start as int)),
        decreases size - start,
    {
        let end: usize = if size - start <= CHUNK {
            size
        } else {
            start + CHUNK
        };
        let piece = slice_to_vec(slice_subrange(buffer, start, end));
        let ghost rest = buffer@.skip(start as int);
        let ghost before = script@;
        proof {
            if rest.len() <= CHUNK {
                assert(piece@ =~= rest);
                assert(buffer@.skip(end as int) =~= Seq::<u8>::empty());
                assert(chunked(buffer@.skip(end as int)) =~= Seq::<SignalModel>::empty());
                assert(chunked(rest) == seq![SignalModel::Write(piece@)]);
            } else {
                assert(piece@ =~= rest.take(CHUNK as int));
                assert(rest.skip(CHUNK as int) =~= buffer@.skip(end as int));
            }
            assert(chunked(rest) =~= seq![SignalModel::Write(piece@)] + chunked(
                buffer@.skip(end as int),
            ));
        }
        script.push(Signal::Write(piece));
        assert(before + chunked(rest) =~= script@ + chunked(buffer@.skip(end as int)));
        start = end;
    }
    assert(buffer@.skip(size as int) =~= Seq::<u8>::empty());
    assert(script@ + chunked(buffer@.skip(size as int)) =~= script@);
}

/// Chunked transfer keeps the buffer whole: the transfers carry exactly its
/// bytes, in order, with no gap and no overlap; each holds between 1 and
/// `CHUNK` bytes, each but the last exactly `CHUNK`, and there are as many as
/// `CHUNK`-sized pieces are needed to cover the buffer.
pub proof fn lemma_chunks_cover(b: Seq<u8>)
    ensures
        payload(chunked(b)) == b,
        chunked(b).len() == (b.len() + CHUNK - 1) / (CHUNK as int),
        forall|i: int|
            0 <= i < chunked(b).len() ==> (#[trigger] chunked(b)[i] matches SignalModel::Write(c)
                && 0 < c.len() <= CHUNK && (i + 1 < chunked(b).len() ==> c.len() == CHUNK)),
    decreases b.len(),
{
    if b.len() == 0 {
        assert(payload(chunked(b)) =~= b);
    } else if b.len() <= CHUNK {
        let s = chunked(b);
        assert(s.skip(1) =~= Seq::<SignalModel>::empty());
        assert(payload(s.skip(1)) == Seq::<u8>::empty());
        assert(payload(s) =~= b);
    } else {
        let rest = b.skip(CHUNK as int);
        lemma_chunks_cover(rest);
        let s = chunked(b);
        assert(s.skip(1) =~= chunked(rest));
        assert(payload(s) =~= b.take(CHUNK as int) + payload(chunked(rest)));
        assert(b =~= b.take(CHUNK as int) + rest);
        assert forall|i: int|
            0 <= i < s.len() implies (#[trigger] s[i] matches SignalModel::Write(c) && 0 < c.len()
                <= CHUNK && (i + 1 < s.len() ==> c.len() == CHUNK)) by {
            if i > 0 {
                assert(s[i] == chunked(rest)[i - 1]);
            }
        }
    }
}

/// Bytes of a window's address range `[0, extent - 1]`: the start, then the
/// end, each as a big-endian 16-bit number.
pub open spec fn range_bytes(extent: u32) -> Seq<u8> {
    seq![0u8, 0u8, (((extent - 1) as u32) >> 8u32) as u8, (((extent - 1) as u32) & 0xFFu32) as u8]
}

/// A command followed by its parameter bytes, each framed as data.
pub open spec fn command_with_params(command: u8, params: Seq<u8>) -> Seq<SignalModel>
    decreases params.len(),
{
    if params.len() == 0 {
        command_signals(command)
    } else {
        command_with_params(command, params.drop_last()) + data_signals(params.last())
    }
}

/// Command/data framing: the line goes to command level right before the
/// command byte is written, and to data level right before each parameter
/// byte, with no other bus activity in between.
pub proof fn lemma_command_framing(command: u8, params: Seq<u8>)
    ensures
        command_with_params(command, params).len() == 2 * params.len() + 2,
        command_with_params(command, params)[0] == SignalModel::CommandLine,
        command_with_params(command, params)[1] == SignalModel::Write(seq![command]),
        forall|k: int|
            0 <= k < params.len() ==> #[trigger] command_with_params(command, params)[2 * k + 2]
                == SignalModel::DataLine && command_with_params(command, params)[2 * k + 3]
                == SignalModel::Write(seq![params[k]]),
    decreases params.len(),
{
    if params.len() > 0 {
        let prefix = params.drop_last();
        lemma_command_framing(command, prefix);
        let s = command_with_params(command, params);
        let n = params.len() - 1;
        assert forall|k: int| 0 <= k < params.len() implies #[trigger] s[2 * k + 2]
            == SignalModel::DataLine && s[2 * k + 3] == SignalModel::Write(seq![params[k]]) by {
            if k < n {
                assert(prefix[k] == params[k]);
                assert(s[2 * k + 2] == command_with_params(command, prefix)[2 * k + 2]);
            }
        }
    }
}

/// Selecting the whole panel, `[0, width - 1] x [0, height - 1]`, then arming
/// the memory write that the pixel data follows.
pub open spec fn window_signals(width: u32, height: u32) -> Seq<SignalModel> {
    command_with_params(Commands::CASET.code(), range_bytes(width)) + command_with_params(
        Commands::RASET.code(),
        range_bytes(height),
    ) + command_signals(Commands::RAMWR.code())
}

/// Sends `command` with `params` as its data bytes.
pub fn send_command_with_params(script: &mut BusScript, command: u8, params: &[u8])
    ensures
        final(script)@ == old(script)@ + command_with_params(command, params@),
{
    send_command(script, command);
    let mut i: usize = 0;
    assert(params@.take(0) =~= Seq::<u8>::empty());
    while i < params.len()
        invariant
            i <= params@.len(),
            script@ == old(script)@ + command_with_params(command, params@.take(i as int)),
        decreases params@.len() - i,
    {
        let ghost before = script@;
        send_data(script, params[i]);
        assert(params@.take(i + 1).drop_last() =~= params@.take(i as int));
        assert(script@ =~= old(script)@ + command_with_params(command, params@.take(i + 1)));
        i = i + 1;
    }
    assert(params@.take(i as int) =~= params@);
}

fn range_param(extent: u32) -> (r: [u8; 4])
    requires
        1 <= extent <= 0x10000,
    ensures
        r@ == range_bytes(extent),
{
    let last = extent - 1;
    let r = [0u8, 0u8, (last >> 8) as u8, (last & 0xFF) as u8];
    assert(r@ =~= range_bytes(extent));
    r
}

pub fn set_window(script: &mut BusScript, width: u32, height: u32)
    requires
        1 <= width <= 0x10000,
        1 <= height <= 0x10000,
    ensures
        final(script)@ == old(script)@ + window_signals(width, height),
{
    let columns = range_param(width);
    send_command_with_params(script, Commands::CASET.u8(), &columns);
    let rows = range_param(height);
    send_command_with_params(script, Commands::RASET.u8(), &rows);
    send_command(script, Commands::RAMWR.u8());
    assert(final(script)@ =~= old(script)@ + window_signals(width, height));
}

/// One step of the start-up sequence: a command, its parameter bytes, and how
/// long (in milliseconds) the controller needs afterwards; 0 for no pause.
pub type Step = (Commands, Seq<u8>, u32);

/// Step `k` of the controller's start-up sequence: reset, memory access
/// order, porch timing, 16-bit pixel format, gate, VCOM and power tuning,
/// 60 Hz frame rate, the two gamma curves, inversion on or off, sleep out,
/// tear line on, display on.
pub open spec fn init_step(invert: bool, k: int) -> Step {
    let inversion = if invert {
        Commands::INVON
    } else {
        Commands::INVOFF
    };
    if k == 0 {
        (Commands::SWRESET, Seq::empty(), 150u32)
    } else if k == 1 {
        (Commands::MADCTL, [0xB0u8]@, 0u32)
    } else if k == 2 {
        (Commands::FRMCTR2, [0x0Cu8, 0x0C, 0x00, 0x33, 0x33]@, 0u32)
    } else if k == 3 {
        (Commands::COLMOD, [0x05u8]@, 0u32)
    } else if k == 4 {
        (Commands::GCTRL, [0x14u8]@, 0u32)
    } else if k == 5 {
        (Commands::VCOMS, [0x37u8]@, 0u32)
    } else if k == 6 {
        (Commands::LCMCTRL, [0x2Cu8]@, 0u32)
    } else if k == 7 {
        (Commands::VDVVRHEN, [0x01u8]@, 0u32)
    } else if k == 8 {
        (Commands::VRHS, [0x12u8]@, 0u32)
    } else if k == 9 {
        (Commands::VDVS, [0x20u8]@, 0u32)
    } else if k == 10 {
        (Commands::PWCTRL1, [0xA4u8, 0xA1]@, 0u32)
    } else if k == 11 {
        (Commands::FRCTRL2, [0x0Fu8]@, 0u32)  // 60 Hz
    } else if k == 12 {
        (Commands::GMCTRP1, [0xD0u8, 0x04, 0x0D, 0x11, 0x13, 0x2B, 0x3F, 0x54, 0x4C, 0x18, 0x0D, 0x0B, 0x1F, 0x23]@, 0u32)
    } else if k == 13 {
        (Commands::GMCTRN1, [0xD0u8, 0x04, 0x0C, 0x11, 0x13, 0x2C, 0x3F, 0x44, 0x51, 0x2F, 0x1F, 0x1F, 0x20, 0x23]@, 0u32)
    } else if k == 14 {
        (inversion, Seq::empty(), 0u32)
    } else if k == 15 {
        (Commands::SLPOUT, Seq::empty(), 0u32)
    } else if k == 16 {
        (Commands::TEON, Seq::empty(), 0u32)
    } else {
        (Commands::DISPON, Seq::empty(), 100u32)
    }
}

/// Number of steps in the start-up sequence.
pub const INIT_STEPS: usize = 18;

/// The start-up sequence as a whole.
pub open spec fn init_table(invert: bool) -> Seq<Step> {
    Seq::new(INIT_STEPS as nat, |k: int| init_step(invert, k))
}

/// What one step puts on the bus.
pub open spec fn step_signals(step: Step) -> Seq<SignalModel> {
    command_with_params(step.0.code(), step.1) + if step.2 > 0 {
        seq![SignalModel::Settle(step.2)]
    } else {
        Seq::empty()
    }
}

/// What a sequence of steps puts on the bus, step after step.
pub open spec fn program(steps: Seq<Step>) -> Seq<SignalModel>
    decreases steps.len(),
{
    if steps.len() == 0 {
        Seq::empty()
    } else {
        program(steps.drop_last()) + step_signals(steps.last())
    }
}

proof fn lemma_program_step(t: Seq<Step>, k: int)
    requires
        0 <= k < t.len(),
    ensures
        program(t.take(k + 1)) == program(t.take(k)) + step_signals(t[k]),
{
    assert(t.take(k + 1).drop_last() =~= t.take(k));
}

fn issue_step(script: &mut BusScript, command: Commands, params: &[u8], settle_ms: u32)
    ensures
        final(script)@ == old(script)@ + step_signals((command, params@, settle_ms)),
{
    send_command_with_params(script, command.u8(), params);
    if settle_ms > 0 {
        script.push(Signal::Settle(settle_ms));
    }
    assert(final(script)@ =~= old(script)@ + step_signals((command, params@, settle_ms)));
}

fn issue_init_step(script: &mut BusScript, invert_display: bool, k: usize)
    requires
        k < INIT_STEPS,
    ensures
        final(script)@ == old(script)@ + step_signals(init_step(invert_display, k as int)),
{
    let inversion = if invert_display {
        Commands::INVON
    } else {
        Commands::INVOFF
    };
    if k == 0 {
        issue_step(script, Commands::SWRESET, &[0u8; 0], 150);
    } else if k == 1 {
        issue_step(script, Commands::MADCTL, &[0xB0u8], 0);
    } else if k == 2 {
        issue_step(script, Commands::FRMCTR2, &[0x0Cu8, 0x0C, 0x00, 0x33, 0x33], 0);
    } else if k == 3 {
        issue_step(script, Commands::COLMOD, &[0x05u8], 0);
    } else if k == 4 {
        issue_step(script, Commands::GCTRL, &[0x14u8], 0);
    } else if k == 5 {
        issue_step(script, Commands::VCOMS, &[0x37u8], 0);
    } else if k == 6 {
        issue_step(script, Commands::LCMCTRL, &[0x2Cu8], 0);
    } else if k == 7 {
        issue_step(script, Commands::VDVVRHEN, &[0x01u8], 0);
    } else if k == 8 {
        issue_step(script, Commands::VRHS, &[0x12u8], 0);
    } else if k == 9 {
        issue_step(script, Commands::VDVS, &[0x20u8], 0);
    } else if k == 10 {
        issue_step(script, Commands::PWCTRL1, &[0xA4u8, 0xA1], 0);
    } else if k == 11 {
        issue_step(script, Commands::FRCTRL2, &[0x0Fu8], 0);
    } else if k == 12 {
        issue_step(script, Commands::GMCTRP1, &[0xD0u8, 0x04, 0x0D, 0x11, 0x13, 0x2B, 0x3F, 0x54, 0x4C, 0x18, 0x0D, 0x0B, 0x1F, 0x23], 0);
    } else if k == 13 {
        issue_step(script, Commands::GMCTRN1, &[0xD0u8, 0x04, 0x0C, 0x11, 0x13, 0x2C, 0x3F, 0x44, 0x51, 0x2F, 0x1F, 0x1F, 0x20, 0x23], 0);
    } else if k == 14 {
        issue_step(script, inversion, &[0u8; 0], 0);
    } else if k == 15 {
        issue_step(script, Commands::SLPOUT, &[0u8; 0], 0);
    } else if k == 16 {
        issue_step(script, Commands::TEON, &[0u8; 0], 0);
    } else {
        issue_step(script, Commands::DISPON, &[0u8; 0], 100);
    }
}

pub fn init_display(script: &mut BusScript, invert_display: bool)
    ensures
        final(script)@ == old(script)@ + program(init_table(invert_display)),
{
    let ghost t = init_table(invert_display);
    assert(t.take(0) =~= Seq::<Step>::empty());
    assert(script@ =~= old(script)@ + program(t.take(0)));
    let mut k: usize = 0;
    while k < INIT_STEPS
        invariant
            k <= INIT_STEPS,
            t == init_table(invert_display),
            script@ == old(script)@ + program(t.take(k as int)),
        decreases INIT_STEPS - k,
    {
        issue_init_step(script, invert_display, k);
        proof {
            lemma_program_step(t, k as int);
        }
        k = k + 1;
    }
    assert(t.take(INIT_STEPS as int) =~= t);
}

} // verus!
