//! The tiling-mode state machine: three modes in a fixed cycle, advanced by
//! the cycle signal and overridden by an explicit valid request.
use vstd::prelude::*;

use crate::tree::str_eq;

verus! {

/// Tiling mode: alternate the split orientation by window aspect ratio.
pub const MODE_ALT: u8 = 0;

/// Tiling mode: always split vertically.
pub const MODE_VERT: u8 = 1;

/// Tiling mode: always split horizontally.
pub const MODE_HORIZ: u8 = 2;

/// The mode a token names: `a`/`alternating`, `v`/`vertical`,
/// `h`/`horizontal`; anything else names none.
pub open spec fn spec_parse_mode(s: Seq<char>) -> Option<u8> {
    if s == "a"@ || s == "alternating"@ {
        Some(MODE_ALT)
    } else if s == "v"@ || s == "vertical"@ {
        Some(MODE_VERT)
    } else if s == "h"@ || s == "horizontal"@ {
        Some(MODE_HORIZ)
    } else {
        None
    }
}

/// Parse a mode token.
pub fn parse_mode(s: &str) -> (r: Option<u8>)
    ensures
        r == spec_parse_mode(s@),
        r matches Some(m) ==> m < 3,
{
    if str_eq(s, "a") || str_eq(s, "alternating") {
        Some(MODE_ALT)
    } else if str_eq(s, "v") || str_eq(s, "vertical") {
        Some(MODE_VERT)
    } else if str_eq(s, "h") || str_eq(s, "horizontal") {
        Some(MODE_HORIZ)
    } else {
        None
    }
}

/// The human-readable label of a mode, as persisted to the mode file.
pub open spec fn spec_mode_label(m: u8) -> Seq<char> {
    if m == MODE_ALT {
        "alternating"@
    } else if m == MODE_VERT {
        "vertical"@
    } else if m == MODE_HORIZ {
        "horizontal"@
    } else {
        "unknown"@
    }
}

/// The label of a mode: what the mode file holds.
pub fn mode_label(m: u8) -> (r: &'static str)
    ensures
        r@ == spec_mode_label(m),
{
    match m {
        0 => "alternating",
        1 => "vertical",
        2 => "horizontal",
        _ => "unknown",
    }
}

/// The display icon of a mode, as shown by the transient notification.
pub open spec fn spec_mode_icon(m: u8) -> Seq<char> {
    if m == MODE_ALT {
        "⇔ Alternating"@
    } else if m == MODE_VERT {
        "↕ Vertical"@
    } else if m == MODE_HORIZ {
        "↔ Horizontal"@
    } else {
        "? Unknown"@
    }
}

/// The display icon of a mode.
pub fn mode_icon(m: u8) -> (r: &'static str)
    ensures
        r@ == spec_mode_icon(m),
{
    match m {
        0 => "⇔ Alternating",
        1 => "↕ Vertical",
        2 => "↔ Horizontal",
        _ => "? Unknown",
    }
}

/// One step of the state machine on the cycle signal: an explicit valid
/// request yields exactly the requested mode; otherwise, and on an invalid
/// request, the mode advances one step in the fixed cycle
/// alternating -> vertical -> horizontal -> alternating.
pub open spec fn spec_next_mode(current: u8, request: Option<Seq<char>>) -> u8 {
    match request {
        Some(s) => match spec_parse_mode(s) {
            Some(m) => m,
            None => ((current + 1) % 3) as u8,
        },
        None => ((current + 1) % 3) as u8,
    }
}

/// Apply one cycle signal, with the pending request text if a request file
/// was present.
pub fn next_mode(current: u8, request: Option<&str>) -> (r: u8)
    requires
        current < 3,
    ensures
        r == spec_next_mode(
            current,
            match request {
                Some(s) => Some(s@),
                None => None,
            },
        ),
        r < 3,
{
    match request {
        Some(s) => match parse_mode(s) {
            Some(m) => m,
            None => (current + 1) % 3,
        },
        None => (current + 1) % 3,
    }
}

/// Cycling is closed over the three modes: three cycle steps return to the
/// start, and an explicit valid request always yields exactly the requested
/// mode, bypassing the cycle.
pub proof fn lemma_mode_cycle_closed(m: u8)
    requires
        m < 3,
    ensures
        spec_next_mode(spec_next_mode(spec_next_mode(m, None), None), None) == m,
        forall|s: Seq<char>, r: u8|
            spec_parse_mode(s) == Some(r) ==> spec_next_mode(m, Some(s)) == r,
{
}

} // verus!
