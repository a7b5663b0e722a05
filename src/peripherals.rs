use vstd::prelude::*;

verus! {

/// The board's GPIO lines.
#[derive(Clone, Copy, PartialEq, Eq, Debug)]
pub enum Pins {
    SpiDc,
    BackLight,
    TearEfect,
    ButtonA,
    ButtonB,
    ButtonX,
    ButtonY,
    LEDRed,
    LEDGreen,
    LEDBlue,
}

impl Pins {
    /// The BCM number of the line.
    pub open spec fn number(self) -> u8 {
        match self {
            Pins::SpiDc => 9,
            Pins::BackLight => 13,
            Pins::TearEfect => 25,
            Pins::ButtonA => 5,
            Pins::ButtonB => 6,
            Pins::ButtonX => 16,
            Pins::ButtonY => 24,
            Pins::LEDRed => 17,
            Pins::LEDGreen => 27,
            Pins::LEDBlue => 22,
        }
    }

    pub fn u8(self) -> (r: u8)
        ensures
            r == self.number(),
    {
        match self {
            Pins::SpiDc => 9,
            Pins::BackLight => 13,
            Pins::TearEfect => 25,
            Pins::ButtonA => 5,
            Pins::ButtonB => 6,
            Pins::ButtonX => 16,
            Pins::ButtonY => 24,
            Pins::LEDRed => 17,
            Pins::LEDGreen => 27,
            Pins::LEDBlue => 22,
        }
    }
}

/// 1 for a button whose line reads low (pressed), 0 for one that reads high.
pub open spec fn pressed(line_high: bool) -> nat {
    if line_high {
        0
    } else {
        1
    }
}

/// Packs the four button lines into one value: bit 0 is A, bit 1 B, bit 2 X,
/// bit 3 Y, and a set bit means pressed. The buttons pull up, so a line that
/// reads low is a pressed button.
pub fn buttons_from_levels(a_high: bool, b_high: bool, x_high: bool, y_high: bool) -> (r: u8)
    ensures
        r as nat == pressed(a_high) + 2 * pressed(b_high) + 4 * pressed(x_high) + 8 * pressed(
            y_high,
        ),
{
    let bit = |high: bool| -> (b: u8)
        ensures
            b as nat == pressed(high),
        {
            if high {
                0u8
            } else {
                1u8
            }
        };
    bit(a_high) + 2 * bit(b_high) + 4 * bit(x_high) + 8 * bit(y_high)
}

/// Carrier frequency of a dimmed LED.
pub const PWM_FREQUENCY_HZ: u32 = 2000;

/// How one LED line is driven. The LEDs light when their line is low.
#[derive(Clone, Copy, PartialEq, Eq, Structural, Debug)]
pub enum LedDrive {
    /// No PWM; the line is held high and the LED is dark.
    Off,
    /// No PWM; the line is held low and the LED is fully lit.
    On,
    /// PWM at `frequency_hz`, with the line high for `duty_num / 255` of each
    /// period.
    Pwm { frequency_hz: u32, duty_num: u8 },
}

/// The drive for a brightness from 0 (dark) to 255 (fully lit).
pub open spec fn led_drive_for(brightness: u8) -> LedDrive {
    if brightness == 0 {
        LedDrive::Off
    } else if brightness == 255 {
        LedDrive::On
    } else {
        LedDrive::Pwm { frequency_hz: PWM_FREQUENCY_HZ, duty_num: (255 - brightness) as u8 }
    }
}

pub fn led_drive(brightness: u8) -> (r: LedDrive)
    ensures
        r == led_drive_for(brightness),
{
    if brightness >= 255 {
        LedDrive::On
    } else if brightness > 0 {
        LedDrive::Pwm { frequency_hz: PWM_FREQUENCY_HZ, duty_num: 255 - brightness }
    } else {
        LedDrive::Off
    }
}

/// Where a frame's wait for the tear-effect line stands.
#[derive(Clone, Copy, PartialEq, Eq, Structural, Debug)]
pub enum TearWait {
    /// Still polling; at most `polls_left` more reads of the line.
    Waiting { polls_left: u64 },
    /// The line was seen high (or vsync is off): the frame may be written.
    Ready,
    /// The line stayed low for every allowed poll.
    TimedOut,
}

pub open spec fn start_state(use_vsync: bool, max_polls: u64) -> TearWait {
    if !use_vsync {
        TearWait::Ready
    } else if max_polls == 0 {
        TearWait::TimedOut
    } else {
        TearWait::Waiting { polls_left: max_polls }
    }
}

pub open spec fn next_state(state: TearWait, tear_high: bool) -> TearWait {
    match state {
        TearWait::Waiting { polls_left } => if tear_high {
            TearWait::Ready
        } else if polls_left <= 1 {
            TearWait::TimedOut
        } else {
            TearWait::Waiting { polls_left: (polls_left - 1) as u64 }
        },
        _ => state,
    }
}

/// The state after the line was read as `reads`, in order.
pub open spec fn state_after(state: TearWait, reads: Seq<bool>) -> TearWait
    decreases reads.len(),
{
    if reads.len() == 0 {
        state
    } else {
        next_state(state_after(state, reads.drop_last()), reads.last())
    }
}

/// Begins the wait that precedes a frame: none without vsync, else polling
/// for at most `max_polls` reads of the tear-effect line.
pub fn start_wait(use_vsync: bool, max_polls: u64) -> (r: TearWait)
    ensures
        r == start_state(use_vsync, max_polls),
{
    if !use_vsync {
        TearWait::Ready
    } else if max_polls == 0 {
        TearWait::TimedOut
    } else {
        TearWait::Waiting { polls_left: max_polls }
    }
}

/// Takes one read of the tear-effect line into account.
pub fn observe(state: TearWait, tear_high: bool) -> (r: TearWait)
    ensures
        r == next_state(state, tear_high),
{
    match state {
        TearWait::Waiting { polls_left } => if tear_high {
            TearWait::Ready
        } else if polls_left <= 1 {
            TearWait::TimedOut
        } else {
            TearWait::Waiting { polls_left: polls_left - 1 }
        },
        _ => state,
    }
}

/// Whether the frame may go on the bus now.
pub fn may_write(state: TearWait) -> (r: bool)
    ensures
        r == (state == TearWait::Ready),
{
    match state {
        TearWait::Ready => true,
        _ => false,
    }
}

/// With vsync on, no frame is written before the tear-effect line has read
/// high: however many reads came back low, the wait is not `Ready`.
pub proof fn lemma_no_write_before_tear(max_polls: u64, reads: Seq<bool>)
    requires
        forall|i: int| 0 <= i < reads.len() ==> !#[trigger] reads[i],
    ensures
        state_after(start_state(true, max_polls), reads) != TearWait::Ready,
    decreases reads.len(),
{
    if reads.len() > 0 {
        let prefix = reads.drop_last();
        assert forall|i: int| 0 <= i < prefix.len() implies !#[trigger] prefix[i] by {
            assert(prefix[i] == reads[i]);
        }
        lemma_no_write_before_tear(max_polls, prefix);
        assert(!reads[reads.len() - 1]);
    }
}

} // verus!
