//! What a tweak shows in the menu, and why setting one up can fail.

use vstd::prelude::*;

verus! {

/// The code to hook was not found in the game's binary.
#[derive(Clone, Copy, PartialEq, Eq, Structural, Debug)]
pub enum TweakError {
    EditorUpdateNotFound,
    PropertyWriteNotFound,
}

impl TweakError {
    /// The message of the error.
    pub open spec fn message_spec(self) -> Seq<char> {
        match self {
            TweakError::EditorUpdateNotFound =>
                "Error finding microcontroller editor update function"@,
            TweakError::PropertyWriteNotFound => "Error finding property-write instruction"@,
        }
    }

    /// The message of the error.
    pub fn message(&self) -> (text: &'static str)
        ensures
            text@ == self.message_spec(),
    {
        match self {
            TweakError::EditorUpdateNotFound =>
                "Error finding microcontroller editor update function",
            TweakError::PropertyWriteNotFound => "Error finding property-write instruction",
        }
    }
}

/// A toggle in the menu.
#[derive(Clone, Copy, Debug)]
pub struct Toggle {
    pub label: &'static str,
    pub tooltip: &'static str,
    pub config_key: &'static str,
    /// The value where the configuration holds none.
    pub default: bool,
    /// The value with which the game behaves as it does without the tweak.
    pub vanilla: bool,
}

/// A slider in the menu, over whole numbers.
#[derive(Clone, Copy, Debug)]
pub struct Slider {
    pub label: &'static str,
    pub tooltip: &'static str,
    pub config_key: &'static str,
    /// The value where the configuration holds none.
    pub default: i32,
    /// The value with which the game behaves as it does without the tweak.
    pub vanilla: i32,
    pub min: i32,
    pub max: i32,
}

} // verus!
