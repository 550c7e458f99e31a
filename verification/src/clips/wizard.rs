//! The clips page: which view it shows and how the onboarding wizard
//! advances.
use vstd::prelude::*;

verus! {

/// The view the clips page shows.
#[derive(Debug, Clone, Copy, PartialEq, Eq, Structural)]
pub enum PageState {
    Onboarding,
    Empty,
    Loaded,
    /// The remix panel, entered from a clip card and left back to `Loaded`.
    Remix,
}

/// The steps of the onboarding wizard.
#[derive(Debug, Clone, Copy, PartialEq, Eq, Structural)]
pub enum WizardStep {
    InstallGsr,
    PickScreen,
    Settings,
}

/// The view for the user's onboarding status: the wizard until onboarding
/// is complete, then the empty page or the clip grid.
pub open spec fn page_for_spec(onboarding_complete: bool, clip_count: u64) -> PageState {
    if !onboarding_complete {
        PageState::Onboarding
    } else if clip_count == 0 {
        PageState::Empty
    } else {
        PageState::Loaded
    }
}

pub fn page_for(onboarding_complete: bool, clip_count: u64) -> (r: PageState)
    ensures
        r == page_for_spec(onboarding_complete, clip_count),
{
    if !onboarding_complete {
        PageState::Onboarding
    } else if clip_count == 0 {
        PageState::Empty
    } else {
        PageState::Loaded
    }
}

pub open spec fn page_name_spec(s: PageState) -> Seq<char> {
    match s {
        PageState::Onboarding => "onboarding"@,
        PageState::Empty => "empty"@,
        PageState::Loaded => "loaded"@,
        PageState::Remix => "remix"@,
    }
}

/// The name of the page's view in its stack.
pub fn page_name(s: PageState) -> (r: &'static str)
    ensures
        r@ == page_name_spec(s),
{
    match s {
        PageState::Onboarding => "onboarding",
        PageState::Empty => "empty",
        PageState::Loaded => "loaded",
        PageState::Remix => "remix",
    }
}

pub open spec fn step_name_spec(s: WizardStep) -> Seq<char> {
    match s {
        WizardStep::InstallGsr => "wizard-1-install"@,
        WizardStep::PickScreen => "wizard-2-screen"@,
        WizardStep::Settings => "wizard-3-settings"@,
    }
}

/// The name of a wizard step's view in the wizard's stack.
pub fn step_name(s: WizardStep) -> (r: &'static str)
    ensures
        r@ == step_name_spec(s),
{
    match s {
        WizardStep::InstallGsr => "wizard-1-install",
        WizardStep::PickScreen => "wizard-2-screen",
        WizardStep::Settings => "wizard-3-settings",
    }
}

/// What the wizard's Next button does.
#[derive(Debug, Clone, Copy, PartialEq, Eq, Structural)]
pub enum WizardNext {
    /// Show this step.
    Step(WizardStep),
    /// The screen is picked: mark onboarding complete (and tell the buffer),
    /// then show the settings step.
    CompleteOnboarding,
    /// The last step: leave the wizard for the clips view.
    Finish,
}

pub open spec fn wizard_next_spec(s: WizardStep) -> WizardNext {
    match s {
        WizardStep::InstallGsr => WizardNext::Step(WizardStep::PickScreen),
        WizardStep::PickScreen => WizardNext::CompleteOnboarding,
        WizardStep::Settings => WizardNext::Finish,
    }
}

pub fn wizard_next(s: WizardStep) -> (r: WizardNext)
    ensures
        r == wizard_next_spec(s),
{
    match s {
        WizardStep::InstallGsr => WizardNext::Step(WizardStep::PickScreen),
        WizardStep::PickScreen => WizardNext::CompleteOnboarding,
        WizardStep::Settings => WizardNext::Finish,
    }
}

/// The user-visible label of a wizard step: `Step n of 3`.
pub fn step_indicator(s: WizardStep) -> (r: &'static str)
    ensures
        r@ == (match s {
            WizardStep::InstallGsr => "Step 1 of 3"@,
            WizardStep::PickScreen => "Step 2 of 3"@,
            WizardStep::Settings => "Step 3 of 3"@,
        }),
{
    match s {
        WizardStep::InstallGsr => "Step 1 of 3",
        WizardStep::PickScreen => "Step 2 of 3",
        WizardStep::Settings => "Step 3 of 3",
    }
}

} // verus!
