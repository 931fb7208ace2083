use vstd::prelude::*;

use crate::util::{time_int_to_string, time_text};

pub mod chapters_view;
pub mod player;
pub mod player_view;

verus! {

/// The position after seeking 30 seconds back: never before 0.
pub open spec fn left_spec(position: i64) -> i64 {
    if position - 30 < 0 {
        0
    } else {
        (position - 30) as i64
    }
}

/// The position after seeking 30 seconds ahead: never past the end of the audio.
pub open spec fn right_spec(position: i64, duration: i64) -> i64 {
    if position + 30 > duration {
        duration
    } else {
        (position + 30) as i64
    }
}

/// The position to seek to when going 30 seconds back from `position`.
pub fn seek_left(position: i64) -> (res: i64)
    requires
        position >= i64::MIN + 30,
    ensures
        res == left_spec(position),
        0 <= res,
{
    let mut position = position - 30;
    if position < 0 {
        position = 0;
    }
    position
}

/// The position to seek to when going 30 seconds ahead from `position` in audio that
/// lasts `duration` seconds.
pub fn seek_right(position: i64, duration: i64) -> (res: i64)
    requires
        position <= i64::MAX - 30,
    ensures
        res == right_spec(position, duration),
        res <= duration,
{
    let mut position = position + 30;
    if position > duration {
        position = duration;
    }
    position
}

/// The progress text: the position, a `/` and the length, each as hours, minutes and
/// seconds.
pub fn progress_text(position: u64, duration: u64) -> (text: String)
    ensures
        text@ == time_text(position) + seq!['/'] + time_text(duration),
{
    proof {
        reveal_strlit("/");
    }
    let mut text = time_int_to_string(position);
    text.append("/");
    text.append(time_int_to_string(duration).as_str());
    text
}

/// Seeking back moves exactly 30 seconds where that does not pass 0, else stops at 0;
/// seeking ahead moves exactly 30 seconds where that does not pass the end, else stops at
/// the end.
pub proof fn lemma_seek_steps(position: i64, duration: i64)
    ensures
        position >= 30 ==> left_spec(position) == position - 30,
        position < 30 ==> left_spec(position) == 0,
        position + 30 <= duration ==> right_spec(position, duration) == position + 30,
        position + 30 > duration ==> right_spec(position, duration) == duration,
{
}

} // verus!
