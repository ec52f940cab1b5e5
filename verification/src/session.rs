//! The control state of an interactive session: which simulation is
//! selected, whether it is playing, and the animation speed. The rendering
//! surface itself is a thin collaborator; every decision it takes is made
//! here.

use vstd::prelude::*;

verus! {

/// The simulation being driven.
#[derive(Clone, Copy, Debug, PartialEq, Eq, Structural)]
pub enum Simulation {
    Lorenz,
    Dp,
    Lmap,
}

impl Simulation {
    /// The display label of the simulation.
    pub fn to_string(&self) -> (r: String)
        ensures
            *self == Simulation::Lorenz ==> r@ == "lorenz"@,
            *self == Simulation::Dp ==> r@ == "double pendulum"@,
            *self == Simulation::Lmap ==> r@ == "logistic map"@,
    {
        broadcast use vstd::string::to_string_from_display_ensures_for_str;

        match self {
            Simulation::Lorenz => "lorenz".to_string(),
            Simulation::Dp => "double pendulum".to_string(),
            Simulation::Lmap => "logistic map".to_string(),
        }
    }
}

impl Default for Simulation {
    fn default() -> (r: Simulation)
        ensures
            r == Simulation::Lorenz,
    {
        Simulation::Lorenz
    }
}

/// The session's control state.
#[derive(Clone, Copy, Debug)]
pub struct Session {
    pub simulation: Simulation,
    pub is_playing: bool,
    pub speed: u64,
}

impl Default for Session {
    /// A fresh session: the Lorenz simulation, paused, at speed 50.
    fn default() -> (r: Session)
        ensures
            r.simulation == Simulation::Lorenz,
            r.is_playing == false,
            r.speed == 50,
    {
        Session { simulation: Simulation::Lorenz, is_playing: false, speed: 50 }
    }
}

impl Session {
    /// The play/pause button toggles playback and changes nothing else.
    pub fn on_play_clicked(&mut self)
        ensures
            final (self).is_playing == !old(self).is_playing,
            final (self).simulation == old(self).simulation,
            final (self).speed == old(self).speed,
    {
        self.is_playing = !self.is_playing;
    }

    /// The reset button pauses playback (the collaborator also clears its
    /// plotted trajectories and restores its initial states) and changes
    /// nothing else.
    pub fn on_reset_clicked(&mut self)
        ensures
            final (self).is_playing == false,
            final (self).simulation == old(self).simulation,
            final (self).speed == old(self).speed,
    {
        self.is_playing = false;
    }

    /// Selecting a simulation switches to it; when the selection actually
    /// changes, playback stops and the collaborator must clear its plotted
    /// trajectories and restore its initial states, which the returned flag
    /// tells it to do.
    pub fn select_simulation(&mut self, s: Simulation) -> (changed: bool)
        ensures
            final (self).simulation == s,
            changed == (old(self).simulation != s),
            changed ==> final (self).is_playing == false,
            !changed ==> final (self).is_playing == old(self).is_playing,
            final (self).speed == old(self).speed,
    {
        let changed = self.simulation != s;
        self.simulation = s;
        if changed {
            self.is_playing = false;
        }
        changed
    }

    /// How long to wait before the next repaint: the absolute difference
    /// between 100 and the speed, in milliseconds, so that a larger speed
    /// means a shorter wait.
    pub fn repaint_delay_millis(&self) -> (r: u64)
        ensures
            self.speed <= 100 ==> r == 100 - self.speed,
            self.speed > 100 ==> r == self.speed - 100,
    {
        if self.speed <= 100 {
            100 - self.speed
        } else {
            self.speed - 100
        }
    }
}

} // verus!
