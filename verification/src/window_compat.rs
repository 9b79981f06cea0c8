//! The stand-in for a `Window` root element.
//!
//! The engine's core does not know windows, and XAML with a window at its root
//! does not parse without one. The stand-in is a plain content host that has
//! the properties which such XAML sets.

use vstd::prelude::*;

verus! {

/// Name that the stand-in is registered under.
pub const WINDOW_CLASS: &'static str = "Window";

/// The properties of a window that XAML sets as attributes.
pub open spec fn window_property_names() -> Seq<Seq<char>> {
    seq![
        "Title"@,
        "WindowStyle"@,
        "WindowState"@,
        "WindowStartupLocation"@,
        "ResizeMode"@,
        "SizeToContent"@,
    ]
}

/// The properties of the stand-in, each one a string.
pub fn window_properties() -> (r: Vec<&'static str>)
    ensures
        r@.len() == window_property_names().len(),
        forall|i: int| 0 <= i < r@.len() ==> (#[trigger] r@[i])@ == window_property_names()[i],
{
    let mut r: Vec<&'static str> = Vec::new();
    r.push("Title");
    r.push("WindowStyle");
    r.push("WindowState");
    r.push("WindowStartupLocation");
    r.push("ResizeMode");
    r.push("SizeToContent");
    r
}

} // verus!
