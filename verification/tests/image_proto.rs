use alloy::config::{ImageProtocol, ImagesConfig};
use alloy::image_proto::{
    DetectedImageProtocol, QueriedProtocol, choose_protocol, configured_protocol, detect_from_env,
    map_picker_protocol,
};

#[test]
fn is_graphics_capable_true_for_real_protocols() {
    assert!(DetectedImageProtocol::Kitty.is_graphics_capable());
    assert!(DetectedImageProtocol::Iterm2.is_graphics_capable());
    assert!(DetectedImageProtocol::Sixel.is_graphics_capable());
}

#[test]
fn is_graphics_capable_false_for_fallback_and_none() {
    assert!(!DetectedImageProtocol::HalfBlock.is_graphics_capable());
    assert!(!DetectedImageProtocol::Disabled.is_graphics_capable());
}

fn env(kitty: bool, program: &str, term: &str) -> DetectedImageProtocol {
    let var = |s: &str| if s.is_empty() { None } else { Some(s.to_string()) };
    detect_from_env(kitty, var(program), var(term))
}

#[test]
fn the_environment_is_read_from_the_most_specific_variable_on() {
    assert_eq!(env(true, "iTerm.app", "mlterm"), DetectedImageProtocol::Kitty);
    assert_eq!(env(false, "iTerm.app", "xterm-kitty"), DetectedImageProtocol::Iterm2);
    assert_eq!(env(false, "WezTerm", ""), DetectedImageProtocol::Kitty);
    assert_eq!(env(false, "ghostty", ""), DetectedImageProtocol::Kitty);
    assert_eq!(env(false, "other", "xterm-kitty"), DetectedImageProtocol::Kitty);
    assert_eq!(env(false, "", "mlterm"), DetectedImageProtocol::Sixel);
    assert_eq!(env(false, "", "xterm-256color"), DetectedImageProtocol::Sixel);
    assert_eq!(env(false, "", "vt100"), DetectedImageProtocol::HalfBlock);
    assert_eq!(env(false, "", ""), DetectedImageProtocol::HalfBlock);
}

#[test]
fn the_configuration_decides_first() {
    let config = |enabled, protocol| ImagesConfig { enabled, protocol, fetch_remote: false };
    assert_eq!(
        configured_protocol(&config(false, ImageProtocol::Kitty)),
        Some(DetectedImageProtocol::Disabled)
    );
    assert_eq!(
        configured_protocol(&config(true, ImageProtocol::Off)),
        Some(DetectedImageProtocol::Disabled)
    );
    assert_eq!(configured_protocol(&config(true, ImageProtocol::Auto)), None);
    let choose = |protocol, answer| {
        choose_protocol(&config(true, protocol), answer, false, None, Some("mlterm".to_string()))
    };
    assert_eq!(
        choose(ImageProtocol::Sixel, Some(QueriedProtocol::Kitty)),
        DetectedImageProtocol::Sixel
    );
    assert_eq!(
        choose(ImageProtocol::Iterm2, None),
        DetectedImageProtocol::Iterm2
    );
    assert_eq!(
        choose(ImageProtocol::Auto, Some(QueriedProtocol::Kitty)),
        DetectedImageProtocol::Kitty
    );
    assert_eq!(
        choose(ImageProtocol::Auto, Some(QueriedProtocol::Other)),
        DetectedImageProtocol::HalfBlock
    );
    assert_eq!(choose(ImageProtocol::Auto, None), DetectedImageProtocol::Sixel);
    assert_eq!(
        map_picker_protocol(QueriedProtocol::Halfblocks),
        DetectedImageProtocol::HalfBlock
    );
}

#[test]
fn labels() {
    assert_eq!(DetectedImageProtocol::Kitty.label(), "Kitty");
    assert_eq!(DetectedImageProtocol::Iterm2.label(), "iTerm2");
    assert_eq!(DetectedImageProtocol::Sixel.label(), "SIXEL");
    assert_eq!(DetectedImageProtocol::HalfBlock.label(), "HalfBlock (fallback)");
    assert_eq!(DetectedImageProtocol::Disabled.label(), "disabled");
}
