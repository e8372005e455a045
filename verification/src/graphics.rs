//! Error values of the rendering layer. The drawing itself — windows,
//! canvases, fonts, textures — lives outside the library; only the failure
//! to load the font travels through it as a plain value.

use vstd::prelude::*;

verus! {

/// A failure to load the UI font, carrying the loader's message.
#[derive(Debug)]
pub struct FontLoadError(pub String);

impl FontLoadError {
    pub fn new(inner: String) -> (r: Self)
        ensures
            r == (FontLoadError(inner)),
    {
        Self(inner)
    }

    /// The loader's message.
    pub fn message(&self) -> (r: &String)
        ensures
            r == self.0,
    {
        &self.0
    }
}

impl core::convert::From<String> for FontLoadError {
    fn from(value: String) -> (r: Self) {
        Self::new(value)
    }
}

impl vstd::std_specs::convert::FromSpecImpl<String> for FontLoadError {
    open spec fn obeys_from_spec() -> bool {
        true
    }

    open spec fn from_spec(value: String) -> Self {
        FontLoadError(value)
    }
}

} // verus!
