//! BufferController: the state machine that maps portal, hotkey and backend
//! events into the commands sent to the capture backend.
//!
//! Every method appends the commands it issues to `cmd_tx`, in order; the
//! caller forwards them to the backend.
use vstd::prelude::*;

use crate::clips::{BackendEvent, CaptureConfig, ClipCommand};

verus! {

#[derive(Debug, Clone, Copy, PartialEq, Eq, Structural)]
pub enum BufferState {
    /// No portal pick yet: waiting for the user to set up the capture source.
    Uninitialized,
    /// Portal pick exists but capture is not active.
    Idle,
    /// Sent StartReplay; awaiting Armed.
    Arming,
    /// Backend reported Armed.
    Armed,
    /// Sent a save command; awaiting Saved.
    Saving,
    /// Backend reported an error or died; the user must retry.
    ErrorState,
    /// User-initiated stop; the rolling buffer is discarded.
    Paused,
}

/// The abstract state of a controller.
pub struct BufferModel {
    pub state: BufferState,
    pub config: CaptureConfig,
    pub has_portal_pick: bool,
    pub onboarding_complete: bool,
    pub pending_reconfigure: bool,
    pub user_paused: bool,
}

pub struct BufferController {
    state: BufferState,
    /// Cached capture config, updated as the user changes settings.
    config: CaptureConfig,
    /// Has the portal been picked?
    pub has_portal_pick: bool,
    /// Has the user finished the onboarding wizard? Gates auto-arm.
    onboarding_complete: bool,
    /// A config change arrived while saving; flushed on Saving -> Armed.
    pending_reconfigure: bool,
    /// User pressed Pause; suppresses arming until Resume.
    user_paused: bool,
}

impl View for BufferController {
    type V = BufferModel;

    closed spec fn view(&self) -> BufferModel {
        BufferModel {
            state: self.state,
            config: self.config,
            has_portal_pick: self.has_portal_pick,
            onboarding_complete: self.onboarding_complete,
            pending_reconfigure: self.pending_reconfigure,
            user_paused: self.user_paused,
        }
    }
}

// ---------------------------------------------------------------------------
// The transitions, over the abstract state
// ---------------------------------------------------------------------------

/// The buffer should be armed: portal picked, wizard done, not paused.
pub open spec fn should_arm_spec(m: BufferModel) -> bool {
    m.has_portal_pick && m.onboarding_complete && !m.user_paused
}

/// Idle -> Arming (sending StartReplay with the cached config) when the
/// buffer should be armed; otherwise nothing.
pub open spec fn arm_if_ready(m: BufferModel) -> (BufferModel, Seq<ClipCommand>) {
    if m.state == BufferState::Idle && should_arm_spec(m) {
        (
            BufferModel { state: BufferState::Arming, ..m },
            seq![ClipCommand::StartReplay { config: m.config }],
        )
    } else {
        (m, seq![])
    }
}

pub open spec fn set_onboarding_spec(m: BufferModel, v: bool) -> (BufferModel, Seq<ClipCommand>) {
    let m1 = BufferModel { onboarding_complete: v, ..m };
    if !m.onboarding_complete && v {
        arm_if_ready(m1)
    } else {
        (m1, seq![])
    }
}

pub open spec fn portal_pick_spec(m: BufferModel, token: String) -> (BufferModel, Seq<ClipCommand>) {
    let m1 = BufferModel {
        config: CaptureConfig { portal_restore_token: Some(token), ..m.config },
        has_portal_pick: true,
        ..m
    };
    if m.state == BufferState::Uninitialized {
        arm_if_ready(BufferModel { state: BufferState::Idle, ..m1 })
    } else {
        (m1, seq![])
    }
}

/// Armed -> Saving, sending `cmd`; nothing in any other state.
pub open spec fn save_spec(m: BufferModel, cmd: ClipCommand) -> (BufferModel, Seq<ClipCommand>) {
    if m.state == BufferState::Armed {
        (BufferModel { state: BufferState::Saving, ..m }, seq![cmd])
    } else {
        (m, seq![])
    }
}

pub open spec fn backend_event_spec(m: BufferModel, evt: BackendEvent) -> (BufferModel, Seq<ClipCommand>) {
    match evt {
        BackendEvent::Armed => {
            if m.state == BufferState::Arming {
                (BufferModel { state: BufferState::Armed, ..m }, seq![])
            } else {
                (m, seq![])
            }
        },
        BackendEvent::Disarmed => {
            if m.state == BufferState::Armed {
                (BufferModel { state: BufferState::Idle, ..m }, seq![])
            } else {
                (m, seq![])
            }
        },
        BackendEvent::Saved { .. } => {
            if m.state != BufferState::Saving {
                (m, seq![])
            } else if should_arm_spec(m) {
                if m.pending_reconfigure {
                    (
                        BufferModel {
                            state: BufferState::Armed,
                            pending_reconfigure: false,
                            ..m
                        },
                        seq![ClipCommand::Reconfigure { config: m.config }],
                    )
                } else {
                    (BufferModel { state: BufferState::Armed, ..m }, seq![])
                }
            } else {
                (
                    BufferModel {
                        state: if m.user_paused {
                            BufferState::Paused
                        } else {
                            BufferState::Idle
                        },
                        pending_reconfigure: false,
                        ..m
                    },
                    seq![ClipCommand::StopReplay],
                )
            }
        },
        BackendEvent::BackendDied { .. } | BackendEvent::Error { .. } => {
            (BufferModel { state: BufferState::ErrorState, ..m }, seq![])
        },
    }
}

/// The new config, keeping the cached restore token when the new one has
/// none.
pub open spec fn merged_config(old: CaptureConfig, new: CaptureConfig) -> CaptureConfig {
    CaptureConfig {
        portal_restore_token: match new.portal_restore_token {
            Some(t) => Some(t),
            None => old.portal_restore_token,
        },
        ..new
    }
}

pub open spec fn config_change_spec(m: BufferModel, new: CaptureConfig) -> (BufferModel, Seq<ClipCommand>) {
    let c = merged_config(m.config, new);
    let m1 = BufferModel { config: c, ..m };
    if m.state == BufferState::Armed || m.state == BufferState::Arming {
        (m1, seq![ClipCommand::Reconfigure { config: c }])
    } else if m.state == BufferState::Saving {
        (BufferModel { pending_reconfigure: true, ..m1 }, seq![])
    } else {
        (m1, seq![])
    }
}

pub open spec fn retry_spec(m: BufferModel) -> (BufferModel, Seq<ClipCommand>) {
    if m.state == BufferState::ErrorState {
        arm_if_ready(BufferModel { state: BufferState::Idle, ..m })
    } else {
        (m, seq![])
    }
}

pub open spec fn portal_reset_spec(m: BufferModel) -> (BufferModel, Seq<ClipCommand>) {
    let m1 = BufferModel {
        state: BufferState::Uninitialized,
        has_portal_pick: false,
        config: CaptureConfig { portal_restore_token: None, ..m.config },
        ..m
    };
    if m.state == BufferState::Armed || m.state == BufferState::Arming || m.state
        == BufferState::Saving {
        (m1, seq![ClipCommand::StopReplay])
    } else {
        (m1, seq![])
    }
}

pub open spec fn pause_spec(m: BufferModel) -> BufferModel {
    if m.state == BufferState::Uninitialized || m.state == BufferState::ErrorState {
        m
    } else {
        BufferModel {
            user_paused: true,
            pending_reconfigure: false,
            state: BufferState::Paused,
            ..m
        }
    }
}

pub open spec fn resume_spec(m: BufferModel) -> (BufferModel, Seq<ClipCommand>) {
    arm_if_ready(BufferModel { user_paused: false, state: BufferState::Idle, ..m })
}

/// The Pause/Resume toggle: after an error it retries; otherwise it pauses
/// (telling the backend to stop) or resumes (telling the backend to clear its
/// restart budget, after any StartReplay that resuming queues).
pub open spec fn toggle_pause_spec(m: BufferModel) -> (BufferModel, Seq<ClipCommand>) {
    if m.state == BufferState::ErrorState {
        retry_spec(m)
    } else if !m.user_paused {
        (pause_spec(m), seq![ClipCommand::PauseRecording])
    } else {
        let (m1, cmds) = resume_spec(m);
        (m1, cmds.push(ClipCommand::ResumeRecording))
    }
}

// ---------------------------------------------------------------------------
// The controller
// ---------------------------------------------------------------------------

impl BufferController {
    pub fn new(config: CaptureConfig) -> (r: Self)
        ensures
            r@ == (BufferModel {
                state: BufferState::Uninitialized,
                config: config,
                has_portal_pick: false,
                onboarding_complete: false,
                pending_reconfigure: false,
                user_paused: false,
            }),
    {
        BufferController {
            state: BufferState::Uninitialized,
            config,
            has_portal_pick: false,
            onboarding_complete: false,
            pending_reconfigure: false,
            user_paused: false,
        }
    }

    pub fn state(&self) -> (s: BufferState)
        ensures
            s == self@.state,
    {
        self.state
    }

    /// Updates the onboarding gate; flipping it to true re-evaluates arming.
    pub fn set_onboarding_complete(&mut self, v: bool, cmd_tx: &mut Vec<ClipCommand>)
        ensures
            final(self)@ == set_onboarding_spec(old(self)@, v).0,
            final(cmd_tx)@ == old(cmd_tx)@ + set_onboarding_spec(old(self)@, v).1,
    {
        let was = self.onboarding_complete;
        self.onboarding_complete = v;
        if !was && v {
            self.maybe_arm(cmd_tx);
        } else {
            assert(cmd_tx@ =~= old(cmd_tx)@ + Seq::<ClipCommand>::empty());
        }
    }

    pub fn onboarding_complete(&self) -> (b: bool)
        ensures
            b == self@.onboarding_complete,
    {
        self.onboarding_complete
    }

    /// The user completed the portal pick: Uninitialized -> Idle, and Arming
    /// when the other gates allow.
    pub fn on_portal_pick_complete(&mut self, restore_token: String, cmd_tx: &mut Vec<ClipCommand>)
        ensures
            final(self)@ == portal_pick_spec(old(self)@, restore_token).0,
            final(cmd_tx)@ == old(cmd_tx)@ + portal_pick_spec(old(self)@, restore_token).1,
    {
        self.config.portal_restore_token = Some(restore_token);
        self.has_portal_pick = true;
        if self.state == BufferState::Uninitialized {
            self.state = BufferState::Idle;
            self.maybe_arm(cmd_tx);
        } else {
            assert(cmd_tx@ =~= old(cmd_tx)@ + Seq::<ClipCommand>::empty());
        }
    }

    /// The user pressed the save hotkey.
    pub fn on_save_hotkey(&mut self, cmd_tx: &mut Vec<ClipCommand>)
        ensures
            final(self)@ == save_spec(old(self)@, ClipCommand::SaveClip).0,
            final(cmd_tx)@ == old(cmd_tx)@ + save_spec(old(self)@, ClipCommand::SaveClip).1,
    {
        if self.state == BufferState::Armed {
            cmd_tx.push(ClipCommand::SaveClip);
            self.state = BufferState::Saving;
            assert(cmd_tx@ =~= old(cmd_tx)@ + seq![ClipCommand::SaveClip]);
        } else {
            assert(cmd_tx@ =~= old(cmd_tx)@ + Seq::<ClipCommand>::empty());
        }
    }

    /// The user pressed a fixed-duration save hotkey; `duration_cmd` is
    /// forwarded as given (one of SaveClipShort / Medium / Long).
    pub fn on_save_hotkey_duration(&mut self, duration_cmd: ClipCommand, cmd_tx: &mut Vec<ClipCommand>)
        ensures
            final(self)@ == save_spec(old(self)@, duration_cmd).0,
            final(cmd_tx)@ == old(cmd_tx)@ + save_spec(old(self)@, duration_cmd).1,
    {
        if self.state == BufferState::Armed {
            let ghost c = duration_cmd;
            cmd_tx.push(duration_cmd);
            self.state = BufferState::Saving;
            assert(cmd_tx@ =~= old(cmd_tx)@ + seq![c]);
        } else {
            assert(cmd_tx@ =~= old(cmd_tx)@ + Seq::<ClipCommand>::empty());
        }
    }

    /// An event from the backend.
    pub fn on_backend_event(&mut self, evt: &BackendEvent, cmd_tx: &mut Vec<ClipCommand>)
        ensures
            final(self)@ == backend_event_spec(old(self)@, *evt).0,
            final(cmd_tx)@ == old(cmd_tx)@ + backend_event_spec(old(self)@, *evt).1,
    {
        match evt {
            BackendEvent::Armed => {
                if self.state == BufferState::Arming {
                    self.state = BufferState::Armed;
                }
                assert(cmd_tx@ =~= old(cmd_tx)@ + Seq::<ClipCommand>::empty());
            },
            BackendEvent::Disarmed => {
                if self.state == BufferState::Armed {
                    self.state = BufferState::Idle;
                }
                assert(cmd_tx@ =~= old(cmd_tx)@ + Seq::<ClipCommand>::empty());
            },
            BackendEvent::Saved { .. } => {
                if self.state == BufferState::Saving {
                    if self.should_arm() {
                        self.state = BufferState::Armed;
                        if self.pending_reconfigure {
                            let c = self.config.duplicate();
                            let ghost cc = c;
                            cmd_tx.push(ClipCommand::Reconfigure { config: c });
                            self.pending_reconfigure = false;
                            assert(cmd_tx@ =~= old(cmd_tx)@ + seq![
                                ClipCommand::Reconfigure { config: cc },
                            ]);
                        } else {
                            assert(cmd_tx@ =~= old(cmd_tx)@ + Seq::<ClipCommand>::empty());
                        }
                    } else {
                        cmd_tx.push(ClipCommand::StopReplay);
                        self.state = if self.user_paused {
                            BufferState::Paused
                        } else {
                            BufferState::Idle
                        };
                        self.pending_reconfigure = false;
                        assert(cmd_tx@ =~= old(cmd_tx)@ + seq![ClipCommand::StopReplay]);
                    }
                } else {
                    assert(cmd_tx@ =~= old(cmd_tx)@ + Seq::<ClipCommand>::empty());
                }
            },
            BackendEvent::BackendDied { .. } | BackendEvent::Error { .. } => {
                self.state = BufferState::ErrorState;
                assert(cmd_tx@ =~= old(cmd_tx)@ + Seq::<ClipCommand>::empty());
            },
        }
    }

    /// Settings change: rebuild the config (keeping the cached restore token
    /// when the new one has none) and reconfigure the backend when armed or
    /// arming; while saving, defer the reconfigure until Saved.
    pub fn on_config_change(&mut self, new_config: CaptureConfig, cmd_tx: &mut Vec<ClipCommand>)
        ensures
            final(self)@ == config_change_spec(old(self)@, new_config).0,
            final(cmd_tx)@ == old(cmd_tx)@ + config_change_spec(old(self)@, new_config).1,
    {
        let mut c = new_config;
        if c.portal_restore_token.is_none() {
            c.portal_restore_token = crate::clips::copy_token(&self.config.portal_restore_token);
        }
        self.config = c;
        if self.state == BufferState::Armed || self.state == BufferState::Arming {
            let d = self.config.duplicate();
            let ghost dd = d;
            cmd_tx.push(ClipCommand::Reconfigure { config: d });
            assert(cmd_tx@ =~= old(cmd_tx)@ + seq![ClipCommand::Reconfigure { config: dd }]);
        } else if self.state == BufferState::Saving {
            self.pending_reconfigure = true;
            assert(cmd_tx@ =~= old(cmd_tx)@ + Seq::<ClipCommand>::empty());
        } else {
            assert(cmd_tx@ =~= old(cmd_tx)@ + Seq::<ClipCommand>::empty());
        }
    }

    /// User-initiated retry after an error.
    pub fn retry(&mut self, cmd_tx: &mut Vec<ClipCommand>)
        ensures
            final(self)@ == retry_spec(old(self)@).0,
            final(cmd_tx)@ == old(cmd_tx)@ + retry_spec(old(self)@).1,
    {
        if self.state == BufferState::ErrorState {
            self.state = BufferState::Idle;
            self.maybe_arm(cmd_tx);
        } else {
            assert(cmd_tx@ =~= old(cmd_tx)@ + Seq::<ClipCommand>::empty());
        }
    }

    /// The portal pick was reset: stop capturing if armed, arming or saving,
    /// and return to Uninitialized with no pick and no token.
    pub fn on_portal_reset(&mut self, cmd_tx: &mut Vec<ClipCommand>)
        ensures
            final(self)@ == portal_reset_spec(old(self)@).0,
            final(cmd_tx)@ == old(cmd_tx)@ + portal_reset_spec(old(self)@).1,
    {
        if self.state == BufferState::Armed || self.state == BufferState::Arming || self.state
            == BufferState::Saving {
            cmd_tx.push(ClipCommand::StopReplay);
            assert(cmd_tx@ =~= old(cmd_tx)@ + seq![ClipCommand::StopReplay]);
        } else {
            assert(cmd_tx@ =~= old(cmd_tx)@ + Seq::<ClipCommand>::empty());
        }
        self.has_portal_pick = false;
        self.config.portal_restore_token = None;
        self.state = BufferState::Uninitialized;
    }

    fn maybe_arm(&mut self, cmd_tx: &mut Vec<ClipCommand>)
        ensures
            final(self)@ == arm_if_ready(old(self)@).0,
            final(cmd_tx)@ == old(cmd_tx)@ + arm_if_ready(old(self)@).1,
    {
        if self.state != BufferState::Idle || !self.should_arm() {
            assert(cmd_tx@ =~= old(cmd_tx)@ + Seq::<ClipCommand>::empty());
            return;
        }
        let c = self.config.duplicate();
        let ghost cc = c;
        cmd_tx.push(ClipCommand::StartReplay { config: c });
        self.state = BufferState::Arming;
        assert(cmd_tx@ =~= old(cmd_tx)@ + seq![ClipCommand::StartReplay { config: cc }]);
    }

    /// True when the portal is picked, the wizard is complete and the user
    /// has not paused.
    pub fn should_arm(&self) -> (b: bool)
        ensures
            b == should_arm_spec(self@),
    {
        self.has_portal_pick && self.onboarding_complete && !self.user_paused
    }

    /// The user pressed Pause: from any state but Uninitialized and
    /// ErrorState, go to Paused, remember the intent and drop any pending
    /// reconfigure.
    pub fn pause(&mut self)
        ensures
            final(self)@ == pause_spec(old(self)@),
    {
        if self.state == BufferState::Uninitialized || self.state == BufferState::ErrorState {
            return;
        }
        self.user_paused = true;
        self.pending_reconfigure = false;
        self.state = BufferState::Paused;
    }

    /// The user pressed Resume: clear the pause, go to Idle and arm when the
    /// gates allow.
    pub fn resume(&mut self, cmd_tx: &mut Vec<ClipCommand>)
        ensures
            final(self)@ == resume_spec(old(self)@).0,
            final(cmd_tx)@ == old(cmd_tx)@ + resume_spec(old(self)@).1,
    {
        self.user_paused = false;
        self.state = BufferState::Idle;
        self.maybe_arm(cmd_tx);
    }

    /// The Pause/Resume toggle (see `toggle_pause_spec`).
    pub fn toggle_pause(&mut self, cmd_tx: &mut Vec<ClipCommand>)
        ensures
            final(self)@ == toggle_pause_spec(old(self)@).0,
            final(cmd_tx)@ == old(cmd_tx)@ + toggle_pause_spec(old(self)@).1,
    {
        if self.state == BufferState::ErrorState {
            self.retry(cmd_tx);
        } else if !self.user_paused {
            self.pause();
            cmd_tx.push(ClipCommand::PauseRecording);
            assert(cmd_tx@ =~= old(cmd_tx)@ + seq![ClipCommand::PauseRecording]);
        } else {
            self.resume(cmd_tx);
            cmd_tx.push(ClipCommand::ResumeRecording);
            assert(cmd_tx@ =~= old(cmd_tx)@ + resume_spec(old(self)@).1.push(ClipCommand::ResumeRecording));
        }
    }

    pub fn user_paused(&self) -> (b: bool)
        ensures
            b == self@.user_paused,
    {
        self.user_paused
    }

    /// Whether the portal has been picked.
    pub fn has_portal_pick(&self) -> (b: bool)
        ensures
            b == self@.has_portal_pick,
    {
        self.has_portal_pick
    }

    /// Sets the portal-picked flag alone, without a state transition.
    pub fn set_has_portal_pick(&mut self, v: bool)
        ensures
            final(self)@ == (BufferModel { has_portal_pick: v, ..old(self)@ }),
    {
        self.has_portal_pick = v;
    }

    /// Sets the user-paused flag alone, without a state transition.
    pub fn user_paused_set(&mut self, v: bool)
        ensures
            final(self)@ == (BufferModel { user_paused: v, ..old(self)@ }),
    {
        self.user_paused = v;
    }

    pub fn pending_reconfigure(&self) -> (b: bool)
        ensures
            b == self@.pending_reconfigure,
    {
        self.pending_reconfigure
    }

    /// Testing seam: sets the deferred-reconfigure flag alone.
    pub fn set_pending_reconfigure_for_test(&mut self, v: bool)
        ensures
            final(self)@ == (BufferModel { pending_reconfigure: v, ..old(self)@ }),
    {
        self.pending_reconfigure = v;
    }

    /// Testing seam: forces a state without driving the event sequence.
    pub fn set_state_for_test(&mut self, s: BufferState)
        ensures
            final(self)@ == (BufferModel { state: s, ..old(self)@ }),
    {
        self.state = s;
    }
}

// ---------------------------------------------------------------------------
// Laws of the controller
// ---------------------------------------------------------------------------

/// One input to the controller: an event or a user action.
pub enum BufferInput {
    SetOnboardingComplete(bool),
    PortalPickComplete(String),
    SaveHotkey,
    SaveHotkeyDuration(ClipCommand),
    Backend(BackendEvent),
    ConfigChange(CaptureConfig),
    Retry,
    PortalReset,
    Pause,
    Resume,
    TogglePause,
    SetUserPaused(bool),
    SetPortalPick(bool),
    SetPendingReconfigure(bool),
}

/// The state and the commands that one input leads to.
pub open spec fn step(m: BufferModel, input: BufferInput) -> (BufferModel, Seq<ClipCommand>) {
    match input {
        BufferInput::SetOnboardingComplete(v) => set_onboarding_spec(m, v),
        BufferInput::PortalPickComplete(t) => portal_pick_spec(m, t),
        BufferInput::SaveHotkey => save_spec(m, ClipCommand::SaveClip),
        BufferInput::SaveHotkeyDuration(c) => save_spec(m, c),
        BufferInput::Backend(e) => backend_event_spec(m, e),
        BufferInput::ConfigChange(c) => config_change_spec(m, c),
        BufferInput::Retry => retry_spec(m),
        BufferInput::PortalReset => portal_reset_spec(m),
        BufferInput::Pause => (pause_spec(m), seq![]),
        BufferInput::Resume => resume_spec(m),
        BufferInput::TogglePause => toggle_pause_spec(m),
        BufferInput::SetUserPaused(v) => (BufferModel { user_paused: v, ..m }, seq![]),
        BufferInput::SetPortalPick(v) => (BufferModel { has_portal_pick: v, ..m }, seq![]),
        BufferInput::SetPendingReconfigure(v) => (BufferModel { pending_reconfigure: v, ..m }, seq![]),
    }
}

/// The state after a sequence of inputs.
pub open spec fn run_inputs(m: BufferModel, inputs: Seq<BufferInput>) -> BufferModel
    decreases inputs.len(),
{
    if inputs.len() == 0 {
        m
    } else {
        step(run_inputs(m, inputs.drop_last()), inputs.last()).0
    }
}

/// The state of a new controller.
pub open spec fn new_model(config: CaptureConfig) -> BufferModel {
    BufferModel {
        state: BufferState::Uninitialized,
        config: config,
        has_portal_pick: false,
        onboarding_complete: false,
        pending_reconfigure: false,
        user_paused: false,
    }
}

/// The pause flag and the state agree: Paused only when the user paused,
/// and while paused the buffer is neither arming, armed nor saving.
pub open spec fn pause_consistent(m: BufferModel) -> bool {
    &&& m.state == BufferState::Paused ==> m.user_paused
    &&& m.user_paused ==> (m.state == BufferState::Paused || m.state == BufferState::Idle || m.state
        == BufferState::Uninitialized || m.state == BufferState::ErrorState)
}

/// Every input but setting the pause flag by hand keeps the pause flag and
/// the state in agreement.
pub proof fn law_pause_consistency_is_kept(m: BufferModel, input: BufferInput)
    requires
        pause_consistent(m),
        !(input is SetUserPaused),
    ensures
        pause_consistent(step(m, input).0),
{
}

/// A new controller, driven by any inputs but setting the pause flag by
/// hand, keeps the pause flag and the state in agreement after every input.
pub proof fn law_pause_consistent_over_any_run(config: CaptureConfig, inputs: Seq<BufferInput>)
    requires
        forall|i: int| 0 <= i < inputs.len() ==> !(#[trigger] inputs[i] is SetUserPaused),
    ensures
        pause_consistent(run_inputs(new_model(config), inputs)),
    decreases inputs.len(),
{
    if inputs.len() > 0 {
        let pre = inputs.drop_last();
        assert forall|i: int| 0 <= i < pre.len() implies !(#[trigger] pre[i] is SetUserPaused) by {
            assert(pre[i] == inputs[i]);
        }
        law_pause_consistent_over_any_run(config, pre);
        assert(inputs.last() == inputs[inputs.len() - 1]);
        law_pause_consistency_is_kept(run_inputs(new_model(config), pre), inputs.last());
    }
}

/// While the user has paused, no input but Resume, the toggle (which then
/// resumes) or clearing the flag by hand sends any command: in particular
/// nothing starts, reconfigures or saves a recording.
pub proof fn law_paused_sends_nothing(m: BufferModel, input: BufferInput)
    requires
        pause_consistent(m),
        m.user_paused,
        !(input is Resume),
        !(input is TogglePause),
        !(input matches BufferInput::SetUserPaused(v) && !v),
    ensures
        step(m, input).1 == Seq::<ClipCommand>::empty(),
{
}

pub open spec fn is_start_replay(c: ClipCommand) -> bool {
    c is StartReplay
}

/// One of the fixed-duration save commands.
pub open spec fn is_duration_save(c: ClipCommand) -> bool {
    c is SaveClipShort || c is SaveClipMedium || c is SaveClipLong
}

/// While the user has paused, no input but Resume, the toggle (which then
/// resumes), or clearing the flag, starts a replay.
pub proof fn law_paused_never_arms(m: BufferModel, input: BufferInput, i: int)
    requires
        m.user_paused,
        !(input is Resume),
        !(input is TogglePause),
        !(input matches BufferInput::SetUserPaused(v) && !v),
        input matches BufferInput::SaveHotkeyDuration(c) ==> is_duration_save(c),
        0 <= i < step(m, input).1.len(),
    ensures
        !is_start_replay(step(m, input).1[i]),
{
}

/// Pausing and then resuming re-arms at once when the portal is picked and
/// the wizard is done (sending StartReplay with the cached config), and
/// otherwise leaves the buffer Idle with nothing sent.
pub proof fn law_pause_then_resume(m: BufferModel)
    requires
        m.state != BufferState::Uninitialized,
        m.state != BufferState::ErrorState,
    ensures
        ({
            let r = resume_spec(pause_spec(m));
            if m.has_portal_pick && m.onboarding_complete {
                &&& r.0.state == BufferState::Arming
                &&& r.1 == seq![ClipCommand::StartReplay { config: m.config }]
            } else {
                &&& r.0.state == BufferState::Idle
                &&& r.1.len() == 0
            }
        }),
        !resume_spec(pause_spec(m)).0.user_paused,
        !resume_spec(pause_spec(m)).0.pending_reconfigure,
{
}

/// A portal reset always ends Uninitialized, with no pick and no restore
/// token, whatever the state it came from.
pub proof fn law_portal_reset_forgets_pick(m: BufferModel)
    ensures
        portal_reset_spec(m).0.state == BufferState::Uninitialized,
        !portal_reset_spec(m).0.has_portal_pick,
        portal_reset_spec(m).0.config.portal_restore_token is None,
        !should_arm_spec(portal_reset_spec(m).0),
{
}

/// Saves are only issued from Armed, and each one moves the buffer to
/// Saving.
pub proof fn law_save_only_when_armed(m: BufferModel, cmd: ClipCommand)
    ensures
        save_spec(m, cmd).1.len() > 0 <==> m.state == BufferState::Armed,
        m.state == BufferState::Armed ==> save_spec(m, cmd).0.state == BufferState::Saving,
{
}

/// A replay is only ever started from Idle, towards Arming, with every arm
/// gate satisfied (portal picked, wizard done, not paused), and it carries
/// the controller's cached config; it is the one command sent, but for the
/// toggle, which follows it with ResumeRecording.
pub proof fn law_start_replay_only_when_armable(m: BufferModel, input: BufferInput, i: int)
    requires
        0 <= i < step(m, input).1.len(),
        is_start_replay(step(m, input).1[i]),
        !(input is TogglePause),
        input matches BufferInput::SaveHotkeyDuration(c) ==> is_duration_save(c),
    ensures
        step(m, input).1.len() == 1,
        step(m, input).0.state == BufferState::Arming,
        should_arm_spec(step(m, input).0),
        step(m, input).1[i] == (ClipCommand::StartReplay { config: step(m, input).0.config }),
{
}

/// A config change while a save is being written is held back: nothing is
/// sent, and the save's completion then reconfigures the recorder with the
/// new config (its restore token kept when the new one has none).
pub proof fn law_config_change_while_saving_is_deferred(m: BufferModel, new: CaptureConfig, path: String, ms: u64)
    requires
        m.state == BufferState::Saving,
        should_arm_spec(m),
    ensures
        ({
            let (m1, out1) = config_change_spec(m, new);
            let (m2, out2) = backend_event_spec(m1, BackendEvent::Saved { path, duration_ms: ms });
            &&& out1 == Seq::<ClipCommand>::empty()
            &&& out2 == seq![ClipCommand::Reconfigure { config: merged_config(m.config, new) }]
            &&& m2.state == BufferState::Armed
            &&& !m2.pending_reconfigure
        }),
{
}

/// A config change reaches a recorder that is running or starting at once:
/// from Armed or Arming, exactly one Reconfigure is sent, carrying the new
/// config with the cached restore token kept when the new one has none;
/// the controller caches that same config and stays in its state.
pub proof fn law_config_change_reconfigures_a_live_recorder(m: BufferModel, new: CaptureConfig)
    requires
        m.state == BufferState::Armed || m.state == BufferState::Arming,
    ensures
        ({
            let (m1, out) = step(m, BufferInput::ConfigChange(new));
            let token = match new.portal_restore_token {
                Some(t) => Some(t),
                None => m.config.portal_restore_token,
            };
            &&& out.len() == 1
            &&& out[0] == (ClipCommand::Reconfigure { config: m1.config })
            &&& m1.config == (CaptureConfig { portal_restore_token: token, ..new })
            &&& m1.state == m.state
        }),
{
}

/// From any other state nothing is sent for a config change; the new
/// config is cached (and, while saving, applied when the save completes).
pub proof fn law_config_change_elsewhere_sends_nothing(m: BufferModel, new: CaptureConfig)
    requires
        m.state != BufferState::Armed,
        m.state != BufferState::Arming,
    ensures
        step(m, BufferInput::ConfigChange(new)).1 == Seq::<ClipCommand>::empty(),
        step(m, BufferInput::ConfigChange(new)).0.config == (CaptureConfig {
            portal_restore_token: match new.portal_restore_token {
                Some(t) => Some(t),
                None => m.config.portal_restore_token,
            },
            ..new
        }),
{
}

} // verus!
