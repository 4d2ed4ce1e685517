//! The registry of running features: one task at most per feature, and the
//! decision that a button press leads to.

use vstd::prelude::*;

verus! {

/// A feature that runs as a background task.
#[derive(Clone, Copy, Debug, PartialEq, Eq, Structural)]
pub enum Feature {
    CasinoFingerprint,
    CayoFingerprint,
    CasinoCapture,
    CayoCapture,
    NoAfk,
}

/// Number of features.
pub const FEATURE_COUNT: usize = 5;

/// The slot of a feature in the registry.
pub open spec fn feature_slot(f: Feature) -> int {
    match f {
        Feature::CasinoFingerprint => 0,
        Feature::CayoFingerprint => 1,
        Feature::CasinoCapture => 2,
        Feature::CayoCapture => 3,
        Feature::NoAfk => 4,
    }
}

fn slot(f: Feature) -> (r: usize)
    ensures
        r == feature_slot(f),
        r < FEATURE_COUNT,
{
    match f {
        Feature::CasinoFingerprint => 0,
        Feature::CayoFingerprint => 1,
        Feature::CasinoCapture => 2,
        Feature::CayoCapture => 3,
        Feature::NoAfk => 4,
    }
}

/// How a button runs its feature: toggled on and off, or for a fixed time.
#[derive(Clone, Copy, Debug, PartialEq, Eq, Structural)]
pub enum ButtonType {
    Toggle,
    Timer(u32),
}

/// What the caller must do after a button press.
#[derive(Clone, Copy, Debug, PartialEq, Eq, Structural)]
pub enum TaskCommand {
    /// Spawn the feature's task with a fresh flag set to running.
    Start,
    /// Spawn the feature's timed task for the given number of seconds.
    StartTimer(u32),
    /// Clear the feature's flag so that its task stops.
    Stop,
    /// Nothing to do.
    Nothing,
}

/// Which features have a running task.
pub struct TaskRegistry {
    running: Vec<bool>,
}

impl View for TaskRegistry {
    type V = Set<Feature>;

    closed spec fn view(&self) -> Set<Feature> {
        Set::new(|f: Feature| self.running@[feature_slot(f)])
    }
}

impl TaskRegistry {
    /// Holds one slot per feature.
    pub closed spec fn wf(&self) -> bool {
        self.running@.len() == FEATURE_COUNT
    }

    /// A registry where nothing runs.
    pub fn new() -> (r: TaskRegistry)
        ensures
            r.wf(),
            r@ == Set::<Feature>::empty(),
    {
        let r = TaskRegistry { running: vec![false, false, false, false, false] };
        assert(r@ =~= Set::<Feature>::empty());
        r
    }

    /// Whether `f` has a running task.
    pub fn is_running(&self, f: Feature) -> (r: bool)
        requires
            self.wf(),
        ensures
            r == self@.contains(f),
    {
        self.running[slot(f)]
    }

    /// Registers a task for `f`. Starting a feature that already runs is a
    /// no-op: nothing changes and the result is `false`.
    pub fn start(&mut self, f: Feature) -> (r: bool)
        requires
            old(self).wf(),
        ensures
            final(self).wf(),
            r == !old(self)@.contains(f),
            final(self)@ == old(self)@.insert(f),
            old(self)@.contains(f) ==> final(self)@ == old(self)@,
    {
        let i = slot(f);
        if self.running[i] {
            assert(self@.insert(f) =~= self@);
            return false;
        }
        self.running.set(i, true);
        assert(self@ =~= old(self)@.insert(f));
        true
    }

    /// Unregisters the task of `f`; the result tells whether it was running.
    pub fn stop(&mut self, f: Feature) -> (r: bool)
        requires
            old(self).wf(),
        ensures
            final(self).wf(),
            r == old(self)@.contains(f),
            final(self)@ == old(self)@.remove(f),
    {
        let i = slot(f);
        let was = self.running[i];
        self.running.set(i, false);
        assert(self@ =~= old(self)@.remove(f));
        was
    }

    /// Handles a press on the button of `f`: `action` asks to start the feature
    /// (`true`) or to stop it (`false`). Every started feature, toggled or timed,
    /// is registered while it runs, so that a second start is a no-op; a timed
    /// feature stops by itself when its time is up.
    pub fn handle_button(&mut self, f: Feature, kind: ButtonType, action: bool) -> (r: TaskCommand)
        requires
            old(self).wf(),
        ensures
            final(self).wf(),
            r == button_command(kind, action, old(self)@.contains(f)),
            final(self)@ == match r {
                TaskCommand::Start => old(self)@.insert(f),
                TaskCommand::StartTimer(_) => old(self)@.insert(f),
                TaskCommand::Stop => old(self)@.remove(f),
                _ => old(self)@,
            },
    {
        let running = self.is_running(f);
        let command = match kind {
            ButtonType::Toggle => {
                if action {
                    if running {
                        TaskCommand::Nothing
                    } else {
                        TaskCommand::Start
                    }
                } else if running {
                    TaskCommand::Stop
                } else {
                    TaskCommand::Nothing
                }
            },
            ButtonType::Timer(seconds) => {
                if action && !running {
                    TaskCommand::StartTimer(seconds)
                } else {
                    TaskCommand::Nothing
                }
            },
        };
        match command {
            TaskCommand::Start => {
                self.start(f);
            },
            TaskCommand::StartTimer(_) => {
                self.start(f);
            },
            TaskCommand::Stop => {
                self.stop(f);
            },
            _ => {},
        }
        command
    }
}

/// The command that a button press leads to.
pub open spec fn button_command(kind: ButtonType, action: bool, running: bool) -> TaskCommand {
    match kind {
        ButtonType::Toggle => if action && !running {
            TaskCommand::Start
        } else if !action && running {
            TaskCommand::Stop
        } else {
            TaskCommand::Nothing
        },
        ButtonType::Timer(seconds) => if action && !running {
            TaskCommand::StartTimer(seconds)
        } else {
            TaskCommand::Nothing
        },
    }
}

/// Asking to start a feature that already runs changes nothing and starts no
/// second task.
pub proof fn lemma_start_running_is_noop(kind: ButtonType, running: bool)
    requires
        running,
    ensures
        button_command(kind, true, running) == TaskCommand::Nothing,
{
}

} // verus!
