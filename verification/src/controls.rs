//! What the render loop decides once per displayed frame: which overlays are
//! on, which view is drawn, and whether to stop.

use vstd::prelude::*;

verus! {

/// The commands given since the previous displayed frame.
#[derive(Clone, Copy, Debug, PartialEq, Eq, Structural)]
pub struct KeyPresses {
    /// Show or hide the help overlay.
    pub tutorial: bool,
    /// Show or hide the highlighted-bin overlay.
    pub target: bool,
    /// Switch between the scrolling and the instantaneous view.
    pub view: bool,
    /// Pause or resume the display.
    pub pause: bool,
    /// Leave the render loop.
    pub quit: bool,
}

/// The view drawn behind the overlays.
#[derive(Clone, Copy, Debug, PartialEq, Eq, Structural)]
pub enum Scene {
    /// The scrolling history.
    Spectrogram,
    /// The latest frame alone.
    Instantaneous,
}

/// What to do for the frame at hand.
#[derive(Clone, Copy, Debug, PartialEq, Eq, Structural)]
pub enum FrameAction {
    /// Leave the render loop without drawing.
    Quit,
    /// Draw `scene`, then the overlays that are switched on.
    Draw { scene: Scene, target_overlay: bool, tutorial_overlay: bool },
}

/// The outcome of handling one frame's commands.
#[derive(Clone, Copy, Debug, PartialEq, Eq, Structural)]
pub struct FramePlan {
    /// Whether the display's pause flag is to be flipped.
    pub toggle_pause: bool,
    /// What to do next.
    pub action: FrameAction,
}

/// The switches of the render loop.
#[derive(Clone, Copy, Debug, PartialEq, Eq, Structural)]
pub struct ViewState {
    /// Whether the help overlay is on.
    pub show_tutorial: bool,
    /// Whether the highlighted-bin overlay is on.
    pub show_target: bool,
    /// Whether the instantaneous view is drawn in place of the history.
    pub show_instantaneous: bool,
}

impl ViewState {
    /// The switches after `keys` have been handled: each command flips its
    /// own switch and no other.
    pub open spec fn after(self, keys: KeyPresses) -> ViewState {
        ViewState {
            show_tutorial: self.show_tutorial != keys.tutorial,
            show_target: self.show_target != keys.target,
            show_instantaneous: self.show_instantaneous != keys.view,
        }
    }

    /// The view these switches select.
    pub open spec fn scene(self) -> Scene {
        if self.show_instantaneous {
            Scene::Instantaneous
        } else {
            Scene::Spectrogram
        }
    }

    /// The plan for a frame in which `keys` were given. The switches are
    /// flipped first; a quit command then wins over drawing.
    pub open spec fn plan(self, keys: KeyPresses) -> FramePlan {
        FramePlan {
            toggle_pause: keys.pause,
            action: if keys.quit {
                FrameAction::Quit
            } else {
                FrameAction::Draw {
                    scene: self.after(keys).scene(),
                    target_overlay: self.after(keys).show_target,
                    tutorial_overlay: self.after(keys).show_tutorial,
                }
            },
        }
    }

    /// The switches at start-up: both overlays on, the scrolling view drawn.
    pub fn new() -> (state: Self)
        ensures
            state == (ViewState {
                show_tutorial: true,
                show_target: true,
                show_instantaneous: false,
            }),
    {
        ViewState { show_tutorial: true, show_target: true, show_instantaneous: false }
    }

    /// Handles the commands of one frame and says what to do next.
    pub fn handle_keys(&mut self, keys: KeyPresses) -> (plan: FramePlan)
        ensures
            *final(self) == old(self).after(keys),
            plan == old(self).plan(keys),
    {
        if keys.tutorial {
            self.show_tutorial = !self.show_tutorial;
        }
        if keys.target {
            self.show_target = !self.show_target;
        }
        if keys.view {
            self.show_instantaneous = !self.show_instantaneous;
        }
        let action = if keys.quit {
            FrameAction::Quit
        } else {
            FrameAction::Draw {
                scene: if self.show_instantaneous {
                    Scene::Instantaneous
                } else {
                    Scene::Spectrogram
                },
                target_overlay: self.show_target,
                tutorial_overlay: self.show_tutorial,
            }
        };
        FramePlan { toggle_pause: keys.pause, action }
    }
}

/// Giving the same command twice in a row undoes it.
pub proof fn lemma_toggle_twice(state: ViewState, keys: KeyPresses)
    ensures
        state.after(keys).after(keys) == state,
{
}

} // verus!
