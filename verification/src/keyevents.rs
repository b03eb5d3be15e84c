use vstd::prelude::*;

verus! {

/// Outcome of a bounded wait on the input stream.
#[derive(Clone, Copy, Debug, PartialEq, Eq, Structural)]
pub enum Poll {
    /// Input is ready to be read.
    Start,
    /// The wait timed out with no input.
    Wait,
}

/// The keys the game reacts to.
#[derive(Clone, Copy, Debug, PartialEq, Eq, Structural)]
pub enum Key {
    Up,
    Down,
    Right,
    Left,
    Quit,
    Other,
}

/// Classifies the return value of a bounded wait on the input stream: a
/// positive descriptor count means input is ready, zero means the wait timed
/// out, and a negative value is a polling failure.
pub fn classify_poll(val: i32) -> (r: Option<Poll>)
    ensures
        val > 0 ==> r == Some(Poll::Start),
        val == 0 ==> r == Some(Poll::Wait),
        val < 0 ==> r is None,
{
    if val > 0 {
        Some(Poll::Start)
    } else if val == 0 {
        Some(Poll::Wait)
    } else {
        None
    }
}

/// The key that a raw input byte sequence stands for.
pub open spec fn decode_spec(code: u32) -> Key {
    if code == 3 || code == 27 {
        Key::Quit
    } else if code == 4283163 {
        Key::Up
    } else if code == 4348699 {
        Key::Down
    } else if code == 4414235 {
        Key::Right
    } else if code == 4479771 {
        Key::Left
    } else {
        Key::Other
    }
}

/// Maps the raw bytes of one keypress, packed little-endian into a word, to
/// the key they encode: Ctrl-C and Esc quit; the escape sequences of the four
/// arrow keys move; anything else is ignored.
pub fn decode_key(code: u32) -> (k: Key)
    ensures
        k == decode_spec(code),
{
    match code {
        3 | 27 => Key::Quit,
        4283163 => Key::Up,
        4348699 => Key::Down,
        4414235 => Key::Right,
        4479771 => Key::Left,
        _ => Key::Other,
    }
}

} // verus!
