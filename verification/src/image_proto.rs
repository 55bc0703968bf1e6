//! Terminal image protocol detection.
//!
//! The terminal is first asked directly. Where it does not answer, the protocol is guessed from
//! the environment variables `KITTY_WINDOW_ID`, `TERM_PROGRAM` and `TERM`.
use vstd::prelude::*;

use crate::config::{ImageProtocol, ImagesConfig};
use crate::text::{
    contains_str, contains_text, lemma_first_at, lowercased, occurs_at, starts_with, str_is,
    to_lowercase,
};

verus! {

/// The image protocol detected or configured at startup.
#[derive(Debug, Clone, Copy, PartialEq, Eq, Structural)]
pub enum DetectedImageProtocol {
    /// Kitty graphics protocol: Kitty, WezTerm, Ghostty.
    Kitty,
    /// iTerm2 inline images: iTerm2 and WezTerm.
    Iterm2,
    /// SIXEL bitmaps: foot, mlterm and some xterm builds.
    Sixel,
    /// Unicode half blocks: works everywhere, with lower quality.
    HalfBlock,
    /// Image rendering is disabled.
    Disabled,
}

/// The label of a protocol.
pub open spec fn protocol_label(p: DetectedImageProtocol) -> Seq<char> {
    match p {
        DetectedImageProtocol::Kitty => "Kitty"@,
        DetectedImageProtocol::Iterm2 => "iTerm2"@,
        DetectedImageProtocol::Sixel => "SIXEL"@,
        DetectedImageProtocol::HalfBlock => "HalfBlock (fallback)"@,
        DetectedImageProtocol::Disabled => "disabled"@,
    }
}

/// A real graphics protocol.
pub open spec fn graphics_capable(p: DetectedImageProtocol) -> bool {
    p is Kitty || p is Iterm2 || p is Sixel
}

impl DetectedImageProtocol {
    /// A real graphics protocol is available.
    pub fn is_graphics_capable(&self) -> (r: bool)
        ensures
            r == graphics_capable(*self),
    {
        match self {
            DetectedImageProtocol::Kitty
            | DetectedImageProtocol::Iterm2
            | DetectedImageProtocol::Sixel => true,
            _ => false,
        }
    }

    /// A short label for notifications and diagnostics.
    pub fn label(&self) -> (r: &'static str)
        ensures
            r@ == protocol_label(*self),
    {
        match self {
            DetectedImageProtocol::Kitty => "Kitty",
            DetectedImageProtocol::Iterm2 => "iTerm2",
            DetectedImageProtocol::Sixel => "SIXEL",
            DetectedImageProtocol::HalfBlock => "HalfBlock (fallback)",
            DetectedImageProtocol::Disabled => "disabled",
        }
    }
}

/// What `TERM_PROGRAM` says of the protocol, if anything.
pub open spec fn protocol_of_program(program: Seq<char>) -> Option<DetectedImageProtocol> {
    let name = lowercased(program);
    if name == "iterm.app"@ {
        Some(DetectedImageProtocol::Iterm2)
    } else if name == "wezterm"@ || name == "ghostty"@ {
        Some(DetectedImageProtocol::Kitty)
    } else {
        None
    }
}

/// What `TERM` says of the protocol, if anything.
pub open spec fn protocol_of_term(term: Seq<char>) -> Option<DetectedImageProtocol> {
    if contains_text(term, "kitty"@) {
        Some(DetectedImageProtocol::Kitty)
    } else if term == "mlterm"@ || occurs_at(term, "xterm-"@, 0) {
        Some(DetectedImageProtocol::Sixel)
    } else {
        None
    }
}

/// The protocol for what the environment says: from the most specific variable to the least,
/// `KITTY_WINDOW_ID` (is it set?), `TERM_PROGRAM`, `TERM`. Half blocks are the last resort.
pub open spec fn environment_protocol(
    kitty_window_id_set: bool,
    term_program: Option<String>,
    term: Option<String>,
) -> DetectedImageProtocol {
    if kitty_window_id_set {
        DetectedImageProtocol::Kitty
    } else if term_program is Some && protocol_of_program(term_program->0@) is Some {
        protocol_of_program(term_program->0@)->0
    } else if term is Some && protocol_of_term(term->0@) is Some {
        protocol_of_term(term->0@)->0
    } else {
        DetectedImageProtocol::HalfBlock
    }
}

/// Guesses the protocol from the environment.
pub fn detect_from_env(
    kitty_window_id_set: bool,
    term_program: Option<String>,
    term: Option<String>,
) -> (r: DetectedImageProtocol)
    ensures
        r == environment_protocol(kitty_window_id_set, term_program, term),
{
    if kitty_window_id_set {
        return DetectedImageProtocol::Kitty;
    }
    if let Some(program) = term_program {
        let name = to_lowercase(program.as_str());
        if str_is(name.as_str(), "iterm.app") {
            return DetectedImageProtocol::Iterm2;
        }
        if str_is(name.as_str(), "wezterm") || str_is(name.as_str(), "ghostty") {
            return DetectedImageProtocol::Kitty;
        }
    }
    if let Some(term) = term {
        if contains_str(term.as_str(), "kitty") {
            return DetectedImageProtocol::Kitty;
        }
        if str_is(term.as_str(), "mlterm") || starts_with(term.as_str(), "xterm-") {
            return DetectedImageProtocol::Sixel;
        }
    }
    DetectedImageProtocol::HalfBlock
}

/// What a direct query of the terminal found.
#[derive(Debug, Clone, Copy, PartialEq, Eq, Structural)]
pub enum QueriedProtocol {
    Kitty,
    Halfblocks,
    /// A protocol that is not used from a query.
    Other,
}

/// The protocol for the answer of the terminal: everything but Kitty is drawn with half blocks.
#[verifier::allow_in_spec]
pub fn map_picker_protocol(queried: QueriedProtocol) -> DetectedImageProtocol
    returns
        (match queried {
            QueriedProtocol::Kitty => DetectedImageProtocol::Kitty,
            QueriedProtocol::Halfblocks => DetectedImageProtocol::HalfBlock,
            QueriedProtocol::Other => DetectedImageProtocol::HalfBlock,
        }),
{
    match queried {
        QueriedProtocol::Kitty => DetectedImageProtocol::Kitty,
        QueriedProtocol::Halfblocks => DetectedImageProtocol::HalfBlock,
        QueriedProtocol::Other => DetectedImageProtocol::HalfBlock,
    }
}

/// The protocol that the configuration fixes; `None` when it is left to detection.
#[verifier::allow_in_spec]
pub fn configured_protocol(images: &ImagesConfig) -> Option<DetectedImageProtocol>
    returns
        (if !images.enabled {
            Some(DetectedImageProtocol::Disabled)
        } else {
            match images.protocol {
                ImageProtocol::Auto => None,
                ImageProtocol::Kitty => Some(DetectedImageProtocol::Kitty),
                ImageProtocol::Iterm2 => Some(DetectedImageProtocol::Iterm2),
                ImageProtocol::Sixel => Some(DetectedImageProtocol::Sixel),
                ImageProtocol::Off => Some(DetectedImageProtocol::Disabled),
            }
        }),
{
    if !images.enabled {
        return Some(DetectedImageProtocol::Disabled);
    }
    match images.protocol {
        ImageProtocol::Auto => None,
        ImageProtocol::Kitty => Some(DetectedImageProtocol::Kitty),
        ImageProtocol::Iterm2 => Some(DetectedImageProtocol::Iterm2),
        ImageProtocol::Sixel => Some(DetectedImageProtocol::Sixel),
        ImageProtocol::Off => Some(DetectedImageProtocol::Disabled),
    }
}

/// The protocol to use: what the configuration fixes, or else what the terminal answered, or
/// else, where it did not answer in time, a guess from the environment.
pub fn choose_protocol(
    images: &ImagesConfig,
    answer: Option<QueriedProtocol>,
    kitty_window_id_set: bool,
    term_program: Option<String>,
    term: Option<String>,
) -> (r: DetectedImageProtocol)
    ensures
        r == match (configured_protocol(images), answer) {
            (Some(protocol), _) => protocol,
            (None, Some(queried)) => map_picker_protocol(queried),
            (None, None) => environment_protocol(kitty_window_id_set, term_program, term),
        },
{
    match configured_protocol(images) {
        Some(protocol) => protocol,
        None => match answer {
            Some(queried) => map_picker_protocol(queried),
            None => detect_from_env(kitty_window_id_set, term_program, term),
        },
    }
}

// ---------------------------------------------------------------------------
// Laws
// ---------------------------------------------------------------------------

/// The most specific variable decides: the window of Kitty before the name of the program, and that
/// before the name of the terminal. A variable that says nothing leaves it to the next one, and
/// half blocks are what is left.
pub proof fn law_the_most_specific_variable_decides(program: Option<String>, term: Option<String>)
    ensures
        environment_protocol(true, program, term) is Kitty,
        program matches Some(p) ==> (protocol_of_program(p@) matches Some(found) ==> environment_protocol(
            false,
            program,
            term,
        ) == found),
        (program matches Some(p) ==> protocol_of_program(p@) is None) ==> (term matches Some(t) ==> (
        protocol_of_term(t@) matches Some(found) ==> environment_protocol(false, program, term)
            == found)),
        (program matches Some(p) ==> protocol_of_program(p@) is None) && (term matches Some(t)
            ==> protocol_of_term(t@) is None) ==> environment_protocol(false, program, term)
            is HalfBlock,
{
}

/// WezTerm and Ghostty draw like Kitty, iTerm draws in its own way, and no other program is known;
/// case does not matter.
pub proof fn law_programs_are_known_by_name(program: Seq<char>)
    ensures
        lowercased(program) == "wezterm"@ || lowercased(program) == "ghostty"@
            ==> protocol_of_program(program) == Some(DetectedImageProtocol::Kitty),
        lowercased(program) == "iterm.app"@ ==> protocol_of_program(program) == Some(
            DetectedImageProtocol::Iterm2,
        ),
        lowercased(program) != "wezterm"@ && lowercased(program) != "ghostty"@ && lowercased(
            program,
        ) != "iterm.app"@ ==> protocol_of_program(program) is None,
{
    reveal_strlit("iterm.app");
    reveal_strlit("wezterm");
    reveal_strlit("ghostty");
    assert("iterm.app"@.len() == 9);
    assert("wezterm"@.len() == 7);
    assert("ghostty"@.len() == 7);
}

/// A terminal whose name holds that of Kitty draws like it, wherever in the name it stands. One of
/// the xterm family draws in SIXEL.
pub proof fn law_terminals_are_known_by_name(before: Seq<char>, behind: Seq<char>)
    ensures
        protocol_of_term(before + "kitty"@ + behind) == Some(DetectedImageProtocol::Kitty),
        !contains_text("xterm-"@ + behind, "kitty"@) ==> protocol_of_term("xterm-"@ + behind)
            == Some(DetectedImageProtocol::Sixel),
{
    let term = before + "kitty"@ + behind;
    lemma_first_at(term, "kitty"@, 0);
    assert(term.subrange(before.len() as int, (before.len() + "kitty"@.len()) as int) =~= "kitty"@);
    assert(occurs_at(term, "kitty"@, before.len() as int));
    let x = "xterm-"@ + behind;
    assert(x.subrange(0, "xterm-"@.len() as int) =~= "xterm-"@);
}

/// The configuration decides before anything is asked: images that are switched off stay off, and a
/// protocol that is named is used. Only on its own choice the terminal is asked.
pub proof fn law_the_configuration_decides(images: ImagesConfig)
    ensures
        !images.enabled ==> configured_protocol(&images) == Some(DetectedImageProtocol::Disabled),
        images.protocol is Off ==> configured_protocol(&images) == Some(
            DetectedImageProtocol::Disabled,
        ),
        images.enabled && images.protocol is Kitty ==> configured_protocol(&images) == Some(
            DetectedImageProtocol::Kitty,
        ),
        images.enabled && images.protocol is Iterm2 ==> configured_protocol(&images) == Some(
            DetectedImageProtocol::Iterm2,
        ),
        images.enabled && images.protocol is Sixel ==> configured_protocol(&images) == Some(
            DetectedImageProtocol::Sixel,
        ),
        images.enabled && images.protocol is Auto <==> configured_protocol(&images) is None,
{
}

/// A terminal that answers is believed only where it names Kitty; whatever else it says is drawn
/// with half blocks, and its answer never switches images off.
pub proof fn law_answers_are_believed_for_kitty_alone(queried: QueriedProtocol)
    ensures
        map_picker_protocol(queried) is Kitty <==> queried is Kitty,
        !(queried is Kitty) ==> map_picker_protocol(queried) is HalfBlock,
{
}

/// Pictures are drawn by the three graphics protocols; half blocks are characters.
pub proof fn law_half_blocks_are_no_graphics(p: DetectedImageProtocol)
    ensures
        graphics_capable(p) <==> !(p is HalfBlock) && !(p is Disabled),
{
}

} // verus!
