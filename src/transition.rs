//! A value that moves from one end to another over a number of frames, with
//! an optional pause before or after the motion.
use vstd::prelude::*;

verus! {

/// Where a transition pauses, and for how many frames.
#[derive(Clone, Copy, Debug, PartialEq, Eq, Structural)]
pub enum Delay {
    /// Pause after the motion.
    Post(u32),
    /// Pause before the motion.
    Pre(u32),
    /// No pause.
    NoDelay,
}

impl Delay {
    /// Frames of the pause.
    pub open spec fn frames(self) -> nat {
        match self {
            Delay::Post(f) => f as nat,
            Delay::Pre(f) => f as nat,
            Delay::NoDelay => 0,
        }
    }

    /// Frames of the pause.
    pub fn num_frames(&self) -> (r: u32)
        ensures
            r == self.frames(),
    {
        match *self {
            Delay::Post(frames) => frames,
            Delay::Pre(frames) => frames,
            Delay::NoDelay => 0,
        }
    }
}

/// A value moving from `from` to `to`. Its frames are counted once it has
/// been started; it is over once more frames have passed than the motion and
/// its pause take together.
pub struct Transition<T> {
    from: T,
    to: T,
    total_frames: u32,
    elapsed_frames: u32,
    running: bool,
    delay: Delay,
}

impl<T> Transition<T> {
    /// The value at the start of the motion.
    pub closed spec fn spec_from(&self) -> T {
        self.from
    }

    /// The value at the end of the motion.
    pub closed spec fn spec_to(&self) -> T {
        self.to
    }

    /// Frames of the motion and the pause together.
    pub closed spec fn spec_total_frames(&self) -> nat {
        self.total_frames as nat
    }

    /// Frames counted since the transition was started.
    pub closed spec fn spec_elapsed_frames(&self) -> nat {
        self.elapsed_frames as nat
    }

    /// Whether frames are being counted.
    pub closed spec fn spec_running(&self) -> bool {
        self.running
    }

    /// The pause before or after the motion.
    pub closed spec fn spec_delay(&self) -> Delay {
        self.delay
    }

    /// A transition from `from` to `to` whose motion lasts
    /// `duration_in_frames` frames, with the pause `delay`; not yet started.
    pub fn new(from: T, to: T, duration_in_frames: u32, delay: Delay) -> (r: Transition<T>)
        requires
            duration_in_frames + delay.frames() <= u32::MAX,
        ensures
            r.spec_from() == from,
            r.spec_to() == to,
            r.spec_total_frames() == duration_in_frames + delay.frames(),
            r.spec_elapsed_frames() == 0,
            !r.spec_running(),
            r.spec_delay() == delay,
    {
        let total_frames = duration_in_frames + delay.num_frames();
        Transition { from, to, total_frames, elapsed_frames: 0, running: false, delay }
    }

    /// Starts counting frames.
    pub fn start(&mut self)
        ensures
            final(self).spec_running(),
            final(self).spec_from() == old(self).spec_from(),
            final(self).spec_to() == old(self).spec_to(),
            final(self).spec_total_frames() == old(self).spec_total_frames(),
            final(self).spec_elapsed_frames() == old(self).spec_elapsed_frames(),
            final(self).spec_delay() == old(self).spec_delay(),
    {
        self.running = true;
    }

    /// Counts one frame if the transition has been started, and tells
    /// whether it is over.
    pub fn update(&mut self) -> (r: bool)
        requires
            old(self).spec_running() ==> old(self).spec_elapsed_frames() < u32::MAX,
        ensures
            final(self).spec_elapsed_frames() == old(self).spec_elapsed_frames() + if old(
                self,
            ).spec_running() {
                1nat
            } else {
                0nat
            },
            r == (final(self).spec_elapsed_frames() > final(self).spec_total_frames()),
            final(self).spec_running() == old(self).spec_running(),
            final(self).spec_from() == old(self).spec_from(),
            final(self).spec_to() == old(self).spec_to(),
            final(self).spec_total_frames() == old(self).spec_total_frames(),
            final(self).spec_delay() == old(self).spec_delay(),
    {
        if self.running {
            self.elapsed_frames = self.elapsed_frames + 1;
        }
        self.elapsed_frames > self.total_frames
    }

    /// The value at the start of the motion.
    pub fn from(&self) -> (r: &T)
        ensures
            *r == self.spec_from(),
    {
        &self.from
    }

    /// The value at the end of the motion.
    pub fn to(&self) -> (r: &T)
        ensures
            *r == self.spec_to(),
    {
        &self.to
    }

    /// Frames of the motion and the pause together.
    pub fn total_frames(&self) -> (r: u32)
        ensures
            r == self.spec_total_frames(),
    {
        self.total_frames
    }

    /// Frames counted since the transition was started.
    pub fn elapsed_frames(&self) -> (r: u32)
        ensures
            r == self.spec_elapsed_frames(),
    {
        self.elapsed_frames
    }

    /// Whether frames are being counted.
    pub fn is_running(&self) -> (r: bool)
        ensures
            r == self.spec_running(),
    {
        self.running
    }

    /// The pause before or after the motion.
    pub fn delay(&self) -> (r: Delay)
        ensures
            r == self.spec_delay(),
    {
        self.delay
    }
}

} // verus!
