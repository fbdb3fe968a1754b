//! Transformation modes and selectable backends.

use vstd::prelude::*;

verus! {

/// The transformation a submission asks for.
#[derive(Clone, Copy, Debug, PartialEq, Eq, Structural)]
pub enum Mode {
    Translation,
    Polishing,
    Completion,
}

/// The LLM provider an outbound request is sent to.
#[derive(Clone, Copy, Debug, PartialEq, Eq, Structural)]
pub enum Backend {
    ChatGpt,
    Grok,
}

/// Numeric tag for a mode, used as part of a cache key.
#[verifier::allow_in_spec]
pub fn mode_code(m: Mode) -> (c: u8)
    returns
        (match m {
            Mode::Translation => 0u8,
            Mode::Polishing => 1u8,
            Mode::Completion => 2u8,
        }),
{
    match m {
        Mode::Translation => 0u8,
        Mode::Polishing => 1u8,
        Mode::Completion => 2u8,
    }
}

/// Distinct modes carry distinct tags, so a text cached under one mode can
/// never answer for the same text under another mode.
pub proof fn lemma_mode_code_injective(m1: Mode, m2: Mode)
    ensures
        mode_code(m1) == mode_code(m2) ==> m1 == m2,
{
}

} // verus!
