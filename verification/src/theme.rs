//! The colour scheme of the conversation: which colours a bubble takes in
//! the light and in the dark look.

use vstd::prelude::*;

verus! {

/// The look of the interface.
#[derive(Clone, Copy, Debug, PartialEq, Eq, Hash, Structural)]
pub enum UiMode {
    Light,
    Dark,
}

impl Default for UiMode {
    fn default() -> (mode: UiMode)
        ensures
            mode == UiMode::Light,
    {
        UiMode::Light
    }
}

/// What a bubble shows: a prompt of the user, or a reply to one.
#[derive(Clone, Copy, Debug, PartialEq, Eq, Structural)]
pub enum BubbleContent {
    Prompt,
    Reply,
}

/// An opaque colour by its red, green and blue parts.
#[derive(Clone, Copy, Debug, PartialEq, Eq, Structural)]
pub struct Rgb {
    pub r: u8,
    pub g: u8,
    pub b: u8,
}

impl Rgb {
    /// The gray of the given lightness.
    pub open spec fn spec_gray(lightness: u8) -> Rgb {
        Rgb { r: lightness, g: lightness, b: lightness }
    }

    /// The gray of the given lightness.
    #[verifier::when_used_as_spec(spec_gray)]
    pub fn gray(lightness: u8) -> (color: Rgb)
        ensures
            color == Rgb::spec_gray(lightness),
    {
        Rgb { r: lightness, g: lightness, b: lightness }
    }
}

impl UiMode {
    /// The name of the look.
    pub open spec fn name(self) -> Seq<char> {
        match self {
            UiMode::Light => "Light"@,
            UiMode::Dark => "Dark"@,
        }
    }

    /// The background of what is not a prompt: the prompt field and the
    /// replies.
    pub open spec fn fill(self) -> Rgb {
        match self {
            UiMode::Light => Rgb::spec_gray(230),
            UiMode::Dark => Rgb::spec_gray(50),
        }
    }

    /// The name of the look as shown to the user.
    pub fn description(&self) -> (text: &'static str)
        ensures
            text@ == self.name(),
    {
        match self {
            UiMode::Light => "Light",
            UiMode::Dark => "Dark",
        }
    }

    /// The background of the prompt field and of the replies.
    pub fn fill_color(&self) -> (color: Rgb)
        ensures
            color == self.fill(),
    {
        match self {
            UiMode::Light => Rgb::gray(230),
            UiMode::Dark => Rgb::gray(50),
        }
    }
}

impl BubbleContent {
    /// The background of a bubble: prompts are blue in either look, replies
    /// take the look's fill.
    pub open spec fn fill(self, ui_mode: UiMode) -> Rgb {
        match self {
            BubbleContent::Prompt => Rgb { r: 15, g: 85, b: 235 },
            BubbleContent::Reply => ui_mode.fill(),
        }
    }

    /// The colour of a bubble's text: light on the blue of a prompt, and
    /// for a reply dark in the light look and light in the dark look.
    pub open spec fn text(self, ui_mode: UiMode) -> Rgb {
        match self {
            BubbleContent::Prompt => Rgb { r: 210, g: 225, b: 250 },
            BubbleContent::Reply => match ui_mode {
                UiMode::Light => Rgb::spec_gray(60),
                UiMode::Dark => Rgb::spec_gray(180),
            },
        }
    }

    /// The background of a bubble with this content.
    pub fn fill_color(&self, ui_mode: UiMode) -> (color: Rgb)
        ensures
            color == self.fill(ui_mode),
    {
        match self {
            BubbleContent::Prompt => Rgb { r: 15, g: 85, b: 235 },
            BubbleContent::Reply => ui_mode.fill_color(),
        }
    }

    /// The colour of the text of a bubble with this content.
    pub fn text_color(&self, ui_mode: UiMode) -> (color: Rgb)
        ensures
            color == self.text(ui_mode),
    {
        match self {
            BubbleContent::Prompt => Rgb { r: 210, g: 225, b: 250 },
            BubbleContent::Reply => match ui_mode {
                UiMode::Light => Rgb::gray(60),
                UiMode::Dark => Rgb::gray(180),
            },
        }
    }
}

} // verus!
