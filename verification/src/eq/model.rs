//! Filter types and EQ targets.
use vstd::prelude::*;

use crate::text::{chars_eq_str, chars_of};

verus! {

/// The biquad shape of one EQ band.
#[derive(Debug, Clone, Copy, PartialEq, Eq, Structural, Hash)]
pub enum FilterType {
    Peaking,
    LowShelf,
    HighShelf,
    LowPass,
    HighPass,
    Notch,
}

pub open spec fn filter_label(f: FilterType) -> Seq<char> {
    match f {
        FilterType::Peaking => "Peaking"@,
        FilterType::LowShelf => "Low Shelf"@,
        FilterType::HighShelf => "High Shelf"@,
        FilterType::LowPass => "Low Pass"@,
        FilterType::HighPass => "High Pass"@,
        FilterType::Notch => "Notch"@,
    }
}

/// The name a filter type is stored under.
pub open spec fn filter_key(f: FilterType) -> Seq<char> {
    match f {
        FilterType::Peaking => "peaking"@,
        FilterType::LowShelf => "low_shelf"@,
        FilterType::HighShelf => "high_shelf"@,
        FilterType::LowPass => "low_pass"@,
        FilterType::HighPass => "high_pass"@,
        FilterType::Notch => "notch"@,
    }
}

/// The filter type stored under `s`, if any.
pub open spec fn filter_from_key(s: Seq<char>) -> Option<FilterType> {
    if s == "peaking"@ {
        Some(FilterType::Peaking)
    } else if s == "low_shelf"@ {
        Some(FilterType::LowShelf)
    } else if s == "high_shelf"@ {
        Some(FilterType::HighShelf)
    } else if s == "low_pass"@ {
        Some(FilterType::LowPass)
    } else if s == "high_pass"@ {
        Some(FilterType::HighPass)
    } else if s == "notch"@ {
        Some(FilterType::Notch)
    } else {
        None
    }
}

pub open spec fn all_filter_types() -> Seq<FilterType> {
    seq![
        FilterType::Peaking,
        FilterType::LowShelf,
        FilterType::HighShelf,
        FilterType::LowPass,
        FilterType::HighPass,
        FilterType::Notch
    ]
}

impl FilterType {
    /// Every filter type, in menu order.
    pub fn all() -> (r: Vec<FilterType>)
        ensures
            r@ == all_filter_types(),
    {
        let r = vec![
            FilterType::Peaking,
            FilterType::LowShelf,
            FilterType::HighShelf,
            FilterType::LowPass,
            FilterType::HighPass,
            FilterType::Notch,
        ];
        assert(r@ =~= all_filter_types());
        r
    }

    /// The name shown in the UI.
    pub fn label(self) -> (r: &'static str)
        ensures
            r@ == filter_label(self),
    {
        match self {
            FilterType::Peaking => "Peaking",
            FilterType::LowShelf => "Low Shelf",
            FilterType::HighShelf => "High Shelf",
            FilterType::LowPass => "Low Pass",
            FilterType::HighPass => "High Pass",
            FilterType::Notch => "Notch",
        }
    }

    /// The filter type stored under `s`.
    pub fn from_str(s: &str) -> (r: Option<FilterType>)
        ensures
            r == filter_from_key(s@),
    {
        let v = chars_of(s);
        if chars_eq_str(&v, "peaking") {
            Some(FilterType::Peaking)
        } else if chars_eq_str(&v, "low_shelf") {
            Some(FilterType::LowShelf)
        } else if chars_eq_str(&v, "high_shelf") {
            Some(FilterType::HighShelf)
        } else if chars_eq_str(&v, "low_pass") {
            Some(FilterType::LowPass)
        } else if chars_eq_str(&v, "high_pass") {
            Some(FilterType::HighPass)
        } else if chars_eq_str(&v, "notch") {
            Some(FilterType::Notch)
        } else {
            None
        }
    }

    /// The name this filter type is stored under.
    pub fn to_str(self) -> (r: &'static str)
        ensures
            r@ == filter_key(self),
    {
        match self {
            FilterType::Peaking => "peaking",
            FilterType::LowShelf => "low_shelf",
            FilterType::HighShelf => "high_shelf",
            FilterType::LowPass => "low_pass",
            FilterType::HighPass => "high_pass",
            FilterType::Notch => "notch",
        }
    }

    /// Whether the gain parameter shapes this filter: low-pass, high-pass and
    /// notch filters do not depend on it.
    pub fn uses_gain(self) -> (r: bool)
        ensures
            r == (self is Peaking || self is LowShelf || self is HighShelf),
    {
        match self {
            FilterType::Peaking | FilterType::LowShelf | FilterType::HighShelf => true,
            _ => false,
        }
    }
}

/// Reading back the stored name of a filter type gives that type.
pub proof fn law_filter_key_round_trip(f: FilterType)
    ensures
        filter_from_key(filter_key(f)) == Some(f),
{
    reveal_strlit("peaking");
    reveal_strlit("low_shelf");
    reveal_strlit("high_shelf");
    reveal_strlit("low_pass");
    reveal_strlit("high_pass");
    reveal_strlit("notch");
    assert("peaking"@.len() == 7 && "low_shelf"@.len() == 9 && "high_shelf"@.len() == 10);
    assert("low_pass"@.len() == 8 && "high_pass"@.len() == 9 && "notch"@.len() == 5);
    assert("low_shelf"@[0] == 'l' && "high_pass"@[0] == 'h');
    assert("peaking"@ != "low_shelf"@ && "peaking"@ != "high_shelf"@ && "peaking"@ != "low_pass"@);
    assert("peaking"@ != "high_pass"@ && "peaking"@ != "notch"@);
    assert("low_shelf"@ != "high_shelf"@ && "low_shelf"@ != "low_pass"@ && "low_shelf"@ != "high_pass"@);
    assert("low_shelf"@ != "notch"@ && "high_shelf"@ != "low_pass"@ && "high_shelf"@ != "high_pass"@);
    assert("high_shelf"@ != "notch"@ && "low_pass"@ != "high_pass"@ && "low_pass"@ != "notch"@);
    assert("high_pass"@ != "notch"@);
}

/// Which virtual node an EQ applies to.
#[derive(Debug, Clone, Copy, PartialEq, Eq, Structural, Hash)]
pub enum EqTarget {
    Game,
    Chat,
    Music,
    Aux,
    Mic,
}

pub open spec fn target_label(t: EqTarget) -> Seq<char> {
    match t {
        EqTarget::Game => "Game"@,
        EqTarget::Chat => "Chat"@,
        EqTarget::Music => "Music"@,
        EqTarget::Aux => "Aux"@,
        EqTarget::Mic => "Mic"@,
    }
}

pub open spec fn target_sink(t: EqTarget) -> Seq<char> {
    match t {
        EqTarget::Game => "SteelSeries_Game"@,
        EqTarget::Chat => "SteelSeries_Chat"@,
        EqTarget::Music => "SteelSeries_Music"@,
        EqTarget::Aux => "SteelSeries_Aux"@,
        EqTarget::Mic => "SteelSeries_Mic"@,
    }
}

pub open spec fn all_targets() -> Seq<EqTarget> {
    seq![EqTarget::Game, EqTarget::Chat, EqTarget::Music, EqTarget::Aux, EqTarget::Mic]
}

/// The target whose node is called `name`, if any.
pub open spec fn target_for_sink(name: Seq<char>) -> Option<EqTarget> {
    if name == "SteelSeries_Game"@ {
        Some(EqTarget::Game)
    } else if name == "SteelSeries_Chat"@ {
        Some(EqTarget::Chat)
    } else if name == "SteelSeries_Music"@ {
        Some(EqTarget::Music)
    } else if name == "SteelSeries_Aux"@ {
        Some(EqTarget::Aux)
    } else if name == "SteelSeries_Mic"@ {
        Some(EqTarget::Mic)
    } else {
        None
    }
}

impl EqTarget {
    /// Every target, in UI order.
    pub fn all() -> (r: Vec<EqTarget>)
        ensures
            r@ == all_targets(),
    {
        let r = vec![EqTarget::Game, EqTarget::Chat, EqTarget::Music, EqTarget::Aux, EqTarget::Mic];
        assert(r@ =~= all_targets());
        r
    }

    pub fn label(self) -> (r: &'static str)
        ensures
            r@ == target_label(self),
    {
        match self {
            EqTarget::Game => "Game",
            EqTarget::Chat => "Chat",
            EqTarget::Music => "Music",
            EqTarget::Aux => "Aux",
            EqTarget::Mic => "Mic",
        }
    }

    /// The node the EQ is inserted in front of.
    pub fn sink_name(self) -> (r: &'static str)
        ensures
            r@ == target_sink(self),
    {
        match self {
            EqTarget::Game => "SteelSeries_Game",
            EqTarget::Chat => "SteelSeries_Chat",
            EqTarget::Music => "SteelSeries_Music",
            EqTarget::Aux => "SteelSeries_Aux",
            EqTarget::Mic => "SteelSeries_Mic",
        }
    }

    /// Spatial audio applies to the output sinks, not to the microphone.
    pub fn supports_spatial(self) -> (r: bool)
        ensures
            r == !(self is Mic),
    {
        match self {
            EqTarget::Mic => false,
            _ => true,
        }
    }

    /// The target whose node is called `name`.
    pub fn for_sink(name: &str) -> (r: Option<EqTarget>)
        ensures
            r == target_for_sink(name@),
    {
        let v = chars_of(name);
        if chars_eq_str(&v, "SteelSeries_Game") {
            Some(EqTarget::Game)
        } else if chars_eq_str(&v, "SteelSeries_Chat") {
            Some(EqTarget::Chat)
        } else if chars_eq_str(&v, "SteelSeries_Music") {
            Some(EqTarget::Music)
        } else if chars_eq_str(&v, "SteelSeries_Aux") {
            Some(EqTarget::Aux)
        } else if chars_eq_str(&v, "SteelSeries_Mic") {
            Some(EqTarget::Mic)
        } else {
            None
        }
    }
}

/// Looking a target up by its node name gives that target.
pub proof fn law_target_sink_round_trip(t: EqTarget)
    ensures
        target_for_sink(target_sink(t)) == Some(t),
{
    reveal_strlit("SteelSeries_Game");
    reveal_strlit("SteelSeries_Chat");
    reveal_strlit("SteelSeries_Music");
    reveal_strlit("SteelSeries_Aux");
    reveal_strlit("SteelSeries_Mic");
    assert("SteelSeries_Game"@[12] == 'G' && "SteelSeries_Chat"@[12] == 'C');
    assert("SteelSeries_Music"@[12] == 'M' && "SteelSeries_Aux"@[12] == 'A' && "SteelSeries_Mic"@[12] == 'M');
    assert("SteelSeries_Music"@.len() == 17 && "SteelSeries_Mic"@.len() == 15);
    assert("SteelSeries_Game"@ != "SteelSeries_Chat"@ && "SteelSeries_Game"@ != "SteelSeries_Music"@);
    assert("SteelSeries_Game"@ != "SteelSeries_Aux"@ && "SteelSeries_Game"@ != "SteelSeries_Mic"@);
    assert("SteelSeries_Chat"@ != "SteelSeries_Music"@ && "SteelSeries_Chat"@ != "SteelSeries_Aux"@);
    assert("SteelSeries_Chat"@ != "SteelSeries_Mic"@ && "SteelSeries_Music"@ != "SteelSeries_Aux"@);
    assert("SteelSeries_Music"@ != "SteelSeries_Mic"@ && "SteelSeries_Aux"@ != "SteelSeries_Mic"@);
}

} // verus!
