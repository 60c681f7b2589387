//! What the surroundings of the program ask of it.

use crate::text::same_text;
use vstd::prelude::*;

verus! {

/// Whether messages are written in colour.
#[derive(Clone, Copy, Debug, PartialEq, Eq, Structural)]
pub enum Colorization {
    Enabled,
    Disabled,
}

/// Where the program runs.
#[derive(Clone, Copy, Debug, PartialEq, Eq, Structural)]
pub enum Environment {
    Regular,
    Testing,
}

impl Colorization {
    /// Colour is on unless the setting says `disabled`.
    pub open spec fn of(setting: Option<Seq<char>>) -> Colorization {
        if setting == Some("disabled"@) {
            Colorization::Disabled
        } else {
            Colorization::Enabled
        }
    }

    /// What the setting asks for; `None` where there is no setting.
    pub fn from_setting(setting: Option<&str>) -> (colorization: Colorization)
        ensures
            colorization == Colorization::of(
                match setting {
                    Some(value) => Some(value@),
                    None => None,
                },
            ),
    {
        match setting {
            Some(value) => {
                if same_text(value, "disabled") {
                    Colorization::Disabled
                } else {
                    Colorization::Enabled
                }
            },
            None => Colorization::Enabled,
        }
    }
}

impl Environment {
    /// The program is under test where the setting says `yes`.
    pub open spec fn of(setting: Option<Seq<char>>) -> Environment {
        if setting == Some("yes"@) {
            Environment::Testing
        } else {
            Environment::Regular
        }
    }

    /// What the setting says; `None` where there is no setting.
    pub fn from_setting(setting: Option<&str>) -> (environment: Environment)
        ensures
            environment == Environment::of(
                match setting {
                    Some(value) => Some(value@),
                    None => None,
                },
            ),
    {
        match setting {
            Some(value) => {
                if same_text(value, "yes") {
                    Environment::Testing
                } else {
                    Environment::Regular
                }
            },
            None => Environment::Regular,
        }
    }
}

} // verus!
