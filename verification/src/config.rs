//! Presentation configuration: the icons used by the tree renderer and
//! the color switch.
//!
//! The configuration is an explicit value threaded to the rendering call
//! sites; environment-driven overrides are applied by the caller, never
//! read here, so the core stays deterministic.

use vstd::prelude::*;
use crate::strutil::str_to_string;

verus! {

/// Rendering options: icon texts for each record kind and whether color
/// output is suppressed.
pub struct Config {
    pub no_color: bool,
    pub module_icon: String,
    pub function_icon: String,
    pub class_icon: String,
    pub constant_icon: String,
    pub exports_icon: String,
    pub signature_icon: String,
}

impl Config {
    /// The default configuration: color on, pictographic icons.
    pub fn new() -> (r: Self)
        ensures
            !r.no_color,
            r.module_icon@ == "\u{1F4E6}"@,
            r.function_icon@ == "\u{26A1}"@,
            r.class_icon@ == "\u{1F537}"@,
            r.constant_icon@ == "\u{1F4CC}"@,
            r.exports_icon@ == "\u{1F4DC}"@,
            r.signature_icon@ == "\u{1F4CE}"@,
    {
        Config {
            no_color: false,
            module_icon: str_to_string("\u{1F4E6}"),
            function_icon: str_to_string("\u{26A1}"),
            class_icon: str_to_string("\u{1F537}"),
            constant_icon: str_to_string("\u{1F4CC}"),
            exports_icon: str_to_string("\u{1F4DC}"),
            signature_icon: str_to_string("\u{1F4CE}"),
        }
    }
}

impl Default for Config {
    /// Same as [`Config::new`].
    fn default() -> (r: Self)
        ensures
            !r.no_color,
            r.module_icon@ == "\u{1F4E6}"@,
            r.function_icon@ == "\u{26A1}"@,
            r.class_icon@ == "\u{1F537}"@,
            r.constant_icon@ == "\u{1F4CC}"@,
            r.exports_icon@ == "\u{1F4DC}"@,
            r.signature_icon@ == "\u{1F4CE}"@,
    {
        Config::new()
    }
}

} // verus!
