use vstd::prelude::*;

verus! {

/// What to do with the tone generator.
#[derive(Clone, Copy, Debug, PartialEq, Eq, Structural)]
pub enum BeepCommand {
    Play,
    Stop,
    Keep,
}

/// The sound timer, which drives a tone that plays while it is above zero.
pub struct Audio {
    pub sound_timer: u8,
}

/// What the tone generator must do, given whether it plays and the sound timer.
pub open spec fn beep_command(playing: bool, sound_timer: u8) -> BeepCommand {
    if playing && sound_timer == 0 {
        BeepCommand::Stop
    } else if !playing && sound_timer > 0 {
        BeepCommand::Play
    } else {
        BeepCommand::Keep
    }
}

impl Audio {
    pub fn new(sound_timer: u8) -> (r: Self)
        ensures
            r.sound_timer == sound_timer,
    {
        Audio { sound_timer }
    }

    /// One 60 Hz tick: tells whether the tone must start or stop, then counts the timer down
    /// by one, never below zero.
    pub fn update(&mut self, playing: bool) -> (r: BeepCommand)
        ensures
            r == beep_command(playing, old(self).sound_timer),
            final(self).sound_timer == if old(self).sound_timer > 0 {
                (old(self).sound_timer - 1) as u8
            } else {
                0u8
            },
    {
        let command = if playing && self.sound_timer == 0 {
            BeepCommand::Stop
        } else if !playing && self.sound_timer > 0 {
            BeepCommand::Play
        } else {
            BeepCommand::Keep
        };
        if self.sound_timer > 0 {
            self.sound_timer -= 1;
        }
        command
    }
}

} // verus!
