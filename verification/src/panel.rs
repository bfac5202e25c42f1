//! The operator's panel: jogging, the emergency stop and clearing the display.
use crate::effect;
use crate::effect::Progress;
use crate::single;
use crate::single::Single;
use crate::status::{CommandView, JobCommand, JobStatus, StatusView};
use vstd::prelude::*;

verus! {

/// Whether a jog goes far enough to be made.
pub open spec fn far_enough(distance: Single) -> bool {
    !distance.is_nan() && distance.magnitude() > (Single {
        bits: single::ONE_THOUSANDTH,
    }).magnitude()
}

/// The line that moves the machine by the distances `x` and `z`.
pub open spec fn jog_line(x: Seq<char>, z: Seq<char>) -> Seq<char> {
    "$J=G91 X"@ + x + " Z"@ + z + " F1800"@
}

/// The command for a jog by `dx` and `dz`, which are written `x` and `z`, if
/// one of them is far enough.
pub fn jog(dx: Single, dz: Single, x: &str, z: &str) -> (r: Option<JobCommand>)
    ensures
        match r {
            Some(command) => {
                &&& far_enough(dx) || far_enough(dz)
                &&& command@ == CommandView::SendImmediate(jog_line(x@, z@))
            },
            None => !far_enough(dx) && !far_enough(dz),
        },
{
    let limit = Single { bits: single::ONE_THOUSANDTH };
    if single::is_larger(dx, limit) || single::is_larger(dz, limit) {
        let line = "$J=G91 X".to_owned().concat(x).concat(" Z").concat(z).concat(" F1800");
        Some(JobCommand::SendImmediate(line))
    } else {
        None
    }
}

/// The commands of an emergency stop: the machine is reset and unlocked.
pub fn emergency_stop() -> (r: (JobCommand, JobCommand))
    ensures
        r.0@ == CommandView::SendImmediate("\x18"@),
        r.1@ == CommandView::SendImmediate("$X"@),
{
    (JobCommand::SendImmediate("\x18".to_owned()), JobCommand::SendImmediate("$X".to_owned()))
}

/// What a cleared display shows.
#[derive(Debug)]
pub struct ClearedDisplay {
    /// The state of the machine.
    pub state: String,
    /// Its position.
    pub position: (Single, Single),
    /// The current line.
    pub current: i32,
    /// The progress of the job.
    pub progress: Progress,
    /// The status of the job.
    pub job_status: String,
}

/// What a cleared display shows: a machine that is not connected, at rest, and
/// no job.
pub fn clear_all() -> (r: ClearedDisplay)
    ensures
        r.state@ == "Disconnected"@,
        r.position == (Single { bits: single::ZERO }, Single { bits: single::ZERO }),
        r.current == effect::NO_LINE,
        r.progress == Progress::Nothing,
        r.job_status@ == crate::status::status_text(StatusView::Idle),
{
    ClearedDisplay {
        state: "Disconnected".to_owned(),
        position: (Single { bits: single::ZERO }, Single { bits: single::ZERO }),
        current: effect::NO_LINE,
        progress: Progress::Nothing,
        job_status: JobStatus::Idle.to_slint_string(),
    }
}

/// A jog is made where one of the distances is above a thousandth and a number,
/// whatever its sign; what is not a number is never far enough.
pub proof fn law_how_far_a_jog_has_to_go(distance: Single)
    ensures
        far_enough(distance) <==> 0x3a83_126f < distance.bits as int % 0x8000_0000 <= 0x7f80_0000,
{
    single::lemma_scaled_order(single::ONE_THOUSANDTH as int, distance.bits as int % 0x8000_0000);
}

/// A jog is one relative move by both distances, at a feed rate of 1800.
pub proof fn law_a_jog_is_one_relative_move(x: Seq<char>, z: Seq<char>)
    ensures
        jog_line(x, z) == ("$J=G91 X"@ + x) + (" Z"@ + z) + " F1800"@,
{
    assert(jog_line(x, z) =~= ("$J=G91 X"@ + x) + (" Z"@ + z) + " F1800"@);
}

/// A jog is made exactly where one of its distances is above a thousandth, and is
/// sent at once as one relative move.
pub proof fn law_when_a_jog_is_made(
    dx: Single,
    dz: Single,
    x: &str,
    z: &str,
    command: Option<JobCommand>,
)
    requires
        call_ensures(jog, (dx, dz, x, z), command),
    ensures
        command is Some <==> {
            ||| 0x3a83_126f < dx.bits as int % 0x8000_0000 <= 0x7f80_0000
            ||| 0x3a83_126f < dz.bits as int % 0x8000_0000 <= 0x7f80_0000
        },
        command matches Some(command) ==> command@ == CommandView::SendImmediate(
            ("$J=G91 X"@ + x@) + (" Z"@ + z@) + " F1800"@,
        ),
{
    law_how_far_a_jog_has_to_go(dx);
    law_how_far_a_jog_has_to_go(dz);
    law_a_jog_is_one_relative_move(x@, z@);
}

/// An emergency stop resets the machine at once, and then unlocks it.
pub proof fn law_what_an_emergency_stop_sends(commands: (JobCommand, JobCommand))
    requires
        call_ensures(emergency_stop, (), commands),
    ensures
        commands.0@ == CommandView::SendImmediate("\x18"@),
        commands.1@ == CommandView::SendImmediate("$X"@),
{
}

/// A cleared display shows an idle job at no line, and a machine at zero that is
/// not connected.
pub proof fn law_what_a_cleared_display_shows(shown: ClearedDisplay)
    requires
        call_ensures(clear_all, (), shown),
    ensures
        shown.state@ == "Disconnected"@,
        shown.position.0.bits == 0,
        shown.position.1.bits == 0,
        shown.current == -1,
        shown.progress is Nothing,
        shown.job_status@ == "IDLE"@,
{
}

} // verus!
