//! The text of the page's heading: which frame is being shown, or that
//! the animation is over.

use vstd::prelude::*;

verus! {

/// How many frames the animation lasts: frames 0 to `TOTAL_FRAMES`, both
/// included, are drawn.
pub const TOTAL_FRAMES: u32 = 780;

/// The character that stands for a digit below ten.
pub open spec fn digit(d: nat) -> char {
    if d == 0 {
        '0'
    } else if d == 1 {
        '1'
    } else if d == 2 {
        '2'
    } else if d == 3 {
        '3'
    } else if d == 4 {
        '4'
    } else if d == 5 {
        '5'
    } else if d == 6 {
        '6'
    } else if d == 7 {
        '7'
    } else if d == 8 {
        '8'
    } else {
        '9'
    }
}

/// A number written in decimal, without sign or leading zeros.
pub open spec fn decimal_text(n: nat) -> Seq<char>
    decreases n,
{
    if n < 10 {
        seq![digit(n)]
    } else {
        decimal_text(n / 10).push(digit(n % 10))
    }
}

/// The heading while frame `frame_count` is shown.
pub open spec fn running_heading_text(frame_count: nat) -> Seq<char> {
    "Frame: "@ + decimal_text(frame_count) + " / "@ + decimal_text(TOTAL_FRAMES as nat)
}

/// The heading once the animation is over.
pub open spec fn finished_heading_text() -> Seq<char> {
    decimal_text(TOTAL_FRAMES as nat) + " frames rendered."@
}

/// The heading that a tick with this frame counter leaves on the page.
pub open spec fn heading_text(frame_count: nat) -> Seq<char> {
    if frame_count > TOTAL_FRAMES {
        finished_heading_text()
    } else {
        running_heading_text(frame_count)
    }
}

fn digit_str(d: u32) -> (s: &'static str)
    requires
        d < 10,
    ensures
        s@ == seq![digit(d as nat)],
{
    proof {
        reveal_strlit("0");
        reveal_strlit("1");
        reveal_strlit("2");
        reveal_strlit("3");
        reveal_strlit("4");
        reveal_strlit("5");
        reveal_strlit("6");
        reveal_strlit("7");
        reveal_strlit("8");
        reveal_strlit("9");
    }
    let s: &'static str = if d == 0 {
        "0"
    } else if d == 1 {
        "1"
    } else if d == 2 {
        "2"
    } else if d == 3 {
        "3"
    } else if d == 4 {
        "4"
    } else if d == 5 {
        "5"
    } else if d == 6 {
        "6"
    } else if d == 7 {
        "7"
    } else if d == 8 {
        "8"
    } else {
        "9"
    };
    assert(s@ =~= seq![digit(d as nat)]);
    s
}

/// Writes a number in decimal.
pub fn decimal_string(n: u32) -> (s: String)
    ensures
        s@ == decimal_text(n as nat),
    decreases n,
{
    if n < 10 {
        String::from_str(digit_str(n))
    } else {
        let s: String = decimal_string(n / 10).concat(digit_str(n % 10));
        assert(s@ =~= decimal_text(n as nat));
        s
    }
}

/// The heading that a tick with this frame counter leaves on the page:
/// the frame's number out of the total while the animation runs, and a
/// closing line once the counter has passed the total.
pub fn heading(frame_count: u32) -> (s: String)
    ensures
        s@ == heading_text(frame_count as nat),
{
    if frame_count > TOTAL_FRAMES {
        let s: String = decimal_string(TOTAL_FRAMES).concat(" frames rendered.");
        s
    } else {
        let s: String = String::from_str("Frame: ").concat(
            decimal_string(frame_count).as_str(),
        ).concat(" / ").concat(decimal_string(TOTAL_FRAMES).as_str());
        s
    }
}

} // verus!
