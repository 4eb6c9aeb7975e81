//! Which settings apply to a capture.
//!
//! A value given on the command line goes before the one from the
//! configuration file, and that one before the built-in value.

use vstd::prelude::*;

verus! {

/// The width of the browser window, in pixels, where none is chosen.
pub const DEFAULT_WIDTH: u32 = 1920;

/// The height of the browser window, in pixels, where none is chosen.
pub const DEFAULT_HEIGHT: u32 = 1080;

/// The element that is waited for where none is chosen.
pub const DEFAULT_WAIT_SELECTOR: &'static str = "body";

/// What one source, the command line or the configuration file, says of the
/// settings. `S` is the type of the scale factor.
#[derive(Debug)]
pub struct Choices<S> {
    pub width: Option<u32>,
    pub height: Option<u32>,
    pub scale: Option<S>,
}

/// The settings that a capture runs with.
#[derive(Debug)]
pub struct Settings<S> {
    pub width: u32,
    pub height: u32,
    pub scale: S,
}

/// The value that applies: `flag` if there is one, else `configured` if
/// there is one, else `fallback`.
pub open spec fn effective_value<T>(flag: Option<T>, configured: Option<T>, fallback: T) -> T {
    match flag {
        Some(value) => value,
        None => match configured {
            Some(value) => value,
            None => fallback,
        },
    }
}

/// The value that applies to one setting.
pub fn effective<T>(flag: Option<T>, configured: Option<T>, fallback: T) -> (value: T)
    ensures
        value == effective_value(flag, configured, fallback),
{
    match flag {
        Some(value) => value,
        None => match configured {
            Some(value) => value,
            None => fallback,
        },
    }
}

/// The settings that apply when the command line says `flags` and the
/// configuration file says `configured`. The library knows no scale factor
/// of its own: `default_scale` is the caller's.
pub fn resolve_settings<S>(
    flags: Choices<S>,
    configured: Choices<S>,
    default_scale: S,
) -> (settings: Settings<S>)
    ensures
        settings.width == effective_value(flags.width, configured.width, DEFAULT_WIDTH),
        settings.height == effective_value(flags.height, configured.height, DEFAULT_HEIGHT),
        settings.scale == effective_value(flags.scale, configured.scale, default_scale),
{
    Settings {
        width: effective(flags.width, configured.width, DEFAULT_WIDTH),
        height: effective(flags.height, configured.height, DEFAULT_HEIGHT),
        scale: effective(flags.scale, configured.scale, default_scale),
    }
}

/// A flag goes before what is configured, whatever that is, and what is
/// configured before the built-in value.
pub proof fn lemma_flag_then_configuration<T>(
    flag: T,
    configured: T,
    fallback: T,
    other: Option<T>,
)
    ensures
        effective_value(Some(flag), other, fallback) == flag,
        effective_value(None, Some(configured), fallback) == configured,
        effective_value(None::<T>, None, fallback) == fallback,
{
}

} // verus!
