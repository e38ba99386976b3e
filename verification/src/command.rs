//! Device commands and the shape of a well-bracketed command stream.

use vstd::prelude::*;

verus! {

/// One device instruction.
#[derive(Debug, PartialEq)]
pub enum CommandKind {
    /// Position both axes, coordinates in fixed-point units.
    Move { x: i64, y: i64 },
    /// Hold for the given number of microseconds during playback.
    Wait { usec: u64 },
    /// Open the measurement window.
    MeasureStart,
    /// Close the measurement window.
    MeasureEnd,
    /// Emit a numbered marker.
    Marker { id: i64 },
    /// Wait for the external trigger.
    Trigger,
}

/// A command together with the label of the shape block it was emitted in,
/// if any.  The ordered command sequence is the engine's sole output; the
/// engine never reorders or deduplicates it.
#[derive(Debug, PartialEq)]
pub struct Command {
    pub kind: CommandKind,
    pub label: Option<String>,
}

/// Walk a command stream through the measurement-window state machine:
/// `Some(false)` means every window so far is closed, `Some(true)` means one
/// window is open, and `None` means the stream brackets its windows
/// illegally (a start inside a window, or an end outside one).
pub open spec fn measure_scan(s: Seq<Command>) -> Option<bool>
    decreases s.len(),
{
    if s.len() == 0 {
        Some(false)
    } else {
        match measure_scan(s.drop_last()) {
            Option::None => Option::None,
            Option::Some(open_w) => match s.last().kind {
                CommandKind::MeasureStart => if open_w {
                    Option::None
                } else {
                    Option::Some(true)
                },
                CommandKind::MeasureEnd => if open_w {
                    Option::Some(false)
                } else {
                    Option::None
                },
                _ => Option::Some(open_w),
            },
        }
    }
}

/// A stream is well bracketed when every measurement window that opens is
/// closed by exactly one later end, windows never nest, and none is left
/// open at the end.
pub open spec fn measure_balanced(s: Seq<Command>) -> bool {
    measure_scan(s) == Some(false)
}

/// Appending one command steps the scan by exactly one transition of the
/// state machine.
pub proof fn lemma_measure_scan_push(s: Seq<Command>, c: Command)
    ensures
        measure_scan(s.push(c)) == (match measure_scan(s) {
            Option::None => Option::<bool>::None,
            Option::Some(open_w) => match c.kind {
                CommandKind::MeasureStart => if open_w {
                    Option::<bool>::None
                } else {
                    Option::<bool>::Some(true)
                },
                CommandKind::MeasureEnd => if open_w {
                    Option::<bool>::Some(false)
                } else {
                    Option::<bool>::None
                },
                _ => Option::<bool>::Some(open_w),
            },
        }),
{
    assert(s.push(c).drop_last() =~= s);
    assert(s.push(c).last() == c);
}

/// How many measurement windows a stream opens.
pub open spec fn count_starts(s: Seq<Command>) -> int
    decreases s.len(),
{
    if s.len() == 0 {
        0
    } else {
        count_starts(s.drop_last()) + (if s.last().kind is MeasureStart {
            1int
        } else {
            0int
        })
    }
}

/// How many measurement windows a stream closes.
pub open spec fn count_ends(s: Seq<Command>) -> int
    decreases s.len(),
{
    if s.len() == 0 {
        0
    } else {
        count_ends(s.drop_last()) + (if s.last().kind is MeasureEnd {
            1int
        } else {
            0int
        })
    }
}

/// In any legally bracketed stream every opened window is closed: a stream
/// the scan leaves closed has exactly as many ends as starts, and one it
/// leaves open has exactly one start not yet answered.
pub proof fn lemma_measure_pairing(s: Seq<Command>)
    ensures
        measure_scan(s) == Some(false) ==> count_starts(s) == count_ends(s),
        measure_scan(s) == Some(true) ==> count_starts(s) == count_ends(s) + 1,
    decreases s.len(),
{
    if s.len() > 0 {
        lemma_measure_pairing(s.drop_last());
    }
}

/// `post` carries everything `pre` already held, unchanged and in place:
/// evaluation only ever appends commands.
pub open spec fn stream_extends(post: Seq<Command>, pre: Seq<Command>) -> bool {
    &&& post.len() >= pre.len()
    &&& forall|i: int| 0 <= i < pre.len() ==> post[i] == pre[i]
}

/// Clone an optional label exactly.
pub fn clone_label(l: &Option<String>) -> (r: Option<String>)
    ensures
        r == *l,
{
    match l {
        Option::Some(s) => Option::Some(s.clone()),
        Option::None => Option::None,
    }
}

} // verus!
