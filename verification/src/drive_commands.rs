use vstd::prelude::*;

verus! {

/// What the remote control sends to the wheels on one frame: a timed step,
/// or a speed to hold.
#[derive(Debug)]
pub enum DriveCommand<S, V> {
    Step(S),
    Speed(V),
}

/// The drive commands the remote control has pending while it does not
/// follow a target: a step (`S`, a pair of speeds with a duration) that is
/// sent once, and a speed (`V`) that is sent on every frame until it is
/// cleared or replaced.
pub struct DriveCommands<S, V> {
    pub step: Option<S>,
    pub speed: Option<V>,
}

/// What one frame sends with `step` and `speed` pending, and what is
/// pending afterwards: a pending step goes first and is sent once, which
/// clears both the step and the speed; otherwise the held speed is sent
/// and kept; with neither, nothing is sent.
pub open spec fn next_frame<S, V>(step: Option<S>, speed: Option<V>) -> (
    Option<DriveCommand<S, V>>,
    Option<S>,
    Option<V>,
) {
    match step {
        Some(s) => (Some(DriveCommand::Step(s)), None, None),
        None => match speed {
            Some(v) => (Some(DriveCommand::Speed(v)), None, Some(v)),
            None => (None, None, None),
        },
    }
}

impl<S, V: Copy> DriveCommands<S, V> {
    /// Starts with `initial_step` pending and no speed.
    pub fn new(initial_step: S) -> (r: Self)
        ensures
            r.step == Some(initial_step),
            r.speed is None,
    {
        DriveCommands { step: Some(initial_step), speed: None }
    }

    /// A new target clears the speed; a pending step stays.
    pub fn set_target(&mut self)
        ensures
            final(self).step == old(self).step,
            final(self).speed is None,
    {
        self.speed = None;
    }

    /// Holds `speed` from now on.
    pub fn set_speed(&mut self, speed: V)
        ensures
            final(self).step == old(self).step,
            final(self).speed == Some(speed),
    {
        self.speed = Some(speed);
    }

    /// Queues `step`, replacing a step not yet sent.
    pub fn set_step(&mut self, step: S)
        ensures
            final(self).step == Some(step),
            final(self).speed == old(self).speed,
    {
        self.step = Some(step);
    }

    /// The command to send on this frame (see `next_frame`).
    pub fn next_command(&mut self) -> (r: Option<DriveCommand<S, V>>)
        ensures
            (r, final(self).step, final(self).speed) == next_frame(old(self).step, old(self).speed),
    {
        match self.step.take() {
            Some(s) => {
                self.speed = None;
                Some(DriveCommand::Step(s))
            },
            None => match self.speed {
                Some(v) => Some(DriveCommand::Speed(v)),
                None => None,
            },
        }
    }
}

/// A step is sent exactly once: the frame after the one that sent it sends
/// nothing, whatever speed was held, until a new step or speed is set.
pub proof fn law_step_sent_once<S, V>(step: S, speed: Option<V>)
    ensures
        next_frame(Some(step), speed).0 == Some(DriveCommand::<S, V>::Step(step)),
        next_frame(next_frame(Some(step), speed).1, next_frame(Some(step), speed).2).0 is None,
{
}

/// A held speed is sent on every frame: sending it leaves it held.
pub proof fn law_speed_held<S, V>(speed: V)
    ensures
        next_frame(None::<S>, Some(speed)) == (Some(DriveCommand::<S, V>::Speed(speed)), None::<S>, Some(speed)),
{
}

} // verus!
