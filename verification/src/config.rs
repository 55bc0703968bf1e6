//! Application configuration.
//!
//! The config is stored as TOML and lives at the platform-appropriate path:
//!
//! | Platform | Path |
//! |----------|------|
//! | Linux    | `$XDG_CONFIG_HOME/alloy/config.toml` (falls back to `~/.config`) |
//! | macOS    | `~/Library/Application Support/alloy/config.toml` |
//! | Windows  | `%APPDATA%\alloy\config.toml` |
//!
//! On first run the default config is written to disk, so that the user has a template to edit.
use vstd::prelude::*;

use crate::errors::{CoreError, CoreErrorView};
use crate::paths::{is_separator, join_path, joined_path, read_path};
use crate::text::str_is;

verus! {

/// The config schema version written by this build.
pub const CURRENT_CONFIG_VERSION: u32 = 1;

/// Root configuration.
///
/// If the version found on disk differs from [`CURRENT_CONFIG_VERSION`], the defaults are used
/// and the file is left alone.
#[derive(Debug, Clone, PartialEq)]
pub struct Config {
    /// Bump this when the schema changes in a breaking way.
    pub config_version: u32,
    pub theme: ThemeConfig,
    pub keymap: KeymapConfig,
    pub editor: EditorConfig,
    pub markdown: MarkdownConfig,
    pub ui: UiConfig,
    pub terminal: TerminalConfig,
    pub images: ImagesConfig,
    pub highlighting: HighlightingConfig,
}

impl Config {
    /// Every setting has its default value.
    pub open spec fn is_default(self) -> bool {
        &&& self.config_version == CURRENT_CONFIG_VERSION
        &&& self.theme.is_default()
        &&& self.keymap.is_default()
        &&& self.editor.is_default()
        &&& self.markdown.is_default()
        &&& self.ui.is_default()
        &&& self.terminal.is_default()
        &&& self.images.is_default()
        &&& self.highlighting.is_default()
    }
}

/// The theme for code blocks: that of the highlighting settings where it is not the default one,
/// and otherwise that of the appearance settings.
pub open spec fn code_theme(config: Config) -> Seq<char> {
    if config.highlighting.theme@ != "base16-ocean.dark"@ {
        config.highlighting.theme@
    } else {
        config.theme.code_theme@
    }
}

impl Config {
    /// The theme for code blocks.
    pub fn code_theme(&self) -> (r: String)
        ensures
            r@ == code_theme(*self),
    {
        if str_is(self.highlighting.theme.as_str(), "base16-ocean.dark") {
            self.theme.code_theme.clone()
        } else {
            self.highlighting.theme.clone()
        }
    }
}

impl Default for Config {
    fn default() -> (r: Config)
        ensures
            r.is_default(),
    {
        Config {
            config_version: CURRENT_CONFIG_VERSION,
            theme: ThemeConfig::default(),
            keymap: KeymapConfig::default(),
            editor: EditorConfig::default(),
            markdown: MarkdownConfig::default(),
            ui: UiConfig::default(),
            terminal: TerminalConfig::default(),
            images: ImagesConfig::default(),
            highlighting: HighlightingConfig::default(),
        }
    }
}

/// Visual appearance settings.
#[derive(Debug, Clone, PartialEq)]
pub struct ThemeConfig {
    /// Name of the built-in color theme: "default", "nord" or "gruvbox-dark".
    pub name: String,
    /// Name of the theme used to highlight fenced code blocks.
    pub code_theme: String,
}

impl ThemeConfig {
    pub open spec fn is_default(self) -> bool {
        self.name@ == "default"@ && self.code_theme@ == "base16-ocean.dark"@
    }
}

impl Default for ThemeConfig {
    fn default() -> (r: ThemeConfig)
        ensures
            r.is_default(),
    {
        ThemeConfig {
            name: "default".to_owned(),
            code_theme: "base16-ocean.dark".to_owned(),
        }
    }
}

/// Keybinding overrides.
///
/// Each value is a space-separated sequence of key tokens: `"g g"` means `g` twice in quick
/// succession. `None` means the built-in binding, and so does a value that describes no sequence.
#[derive(Debug, Clone, PartialEq)]
pub struct KeymapConfig {
    pub enter_insert: Option<String>,
    pub exit_insert: Option<String>,
    pub save: Option<String>,
    pub quit: Option<String>,
    pub toggle_preview: Option<String>,
    pub link_select: Option<String>,
    pub search_literal: Option<String>,
    pub search_regex: Option<String>,
}

impl KeymapConfig {
    pub open spec fn is_default(self) -> bool {
        &&& self.enter_insert is None
        &&& self.exit_insert is None
        &&& self.save is None
        &&& self.quit is None
        &&& self.toggle_preview is None
        &&& self.link_select is None
        &&& self.search_literal is None
        &&& self.search_regex is None
    }
}

impl Default for KeymapConfig {
    fn default() -> (r: KeymapConfig)
        ensures
            r.is_default(),
    {
        KeymapConfig {
            enter_insert: None,
            exit_insert: None,
            save: None,
            quit: None,
            toggle_preview: None,
            link_select: None,
            search_literal: None,
            search_regex: None,
        }
    }
}

/// Editing-behavior settings.
#[derive(Debug, Clone, Copy, PartialEq)]
pub struct EditorConfig {
    /// Milliseconds to wait after the last keystroke before the preview is rendered again.
    pub preview_debounce_ms: u64,
    /// Milliseconds to wait for the next key of a multi-key Normal-mode sequence.
    pub sequence_timeout_ms: u64,
    /// Show line numbers in the editor pane.
    pub line_numbers: bool,
    /// Insert this many spaces for a tab; `0` inserts real tabs.
    pub tab_width: u8,
    /// Search is case-insensitive.
    pub search_case_insensitive: bool,
}

impl EditorConfig {
    pub open spec fn is_default(self) -> bool {
        &&& self.preview_debounce_ms == 150
        &&& self.sequence_timeout_ms == 500
        &&& self.line_numbers
        &&& self.tab_width == 4
        &&& self.search_case_insensitive
    }
}

impl Default for EditorConfig {
    fn default() -> (r: EditorConfig)
        ensures
            r.is_default(),
    {
        EditorConfig {
            preview_debounce_ms: 150,
            sequence_timeout_ms: 500,
            line_numbers: true,
            tab_width: 4,
            search_case_insensitive: true,
        }
    }
}

/// Markdown parsing and rendering settings.
#[derive(Debug, Clone, Copy, PartialEq)]
pub struct MarkdownConfig {
    /// The parser backend used for the terminal preview.
    pub engine: MarkdownEngine,
    /// Dialect extension toggles.
    pub extensions: ExtensionConfig,
}

impl MarkdownConfig {
    pub open spec fn is_default(self) -> bool {
        self.engine is PulldownCmark && self.extensions.is_default()
    }
}

impl Default for MarkdownConfig {
    fn default() -> (r: MarkdownConfig)
        ensures
            r.is_default(),
    {
        MarkdownConfig {
            engine: MarkdownEngine::PulldownCmark,
            extensions: ExtensionConfig::default(),
        }
    }
}

/// Available Markdown parser backends.
///
/// `PulldownCmark` is the default for the terminal preview. `Comrak` is used for HTML output
/// whatever this setting says.
#[derive(Debug, Clone, Copy, PartialEq, Eq, Structural, Default)]
pub enum MarkdownEngine {
    #[default]
    PulldownCmark,
    Comrak,
    MarkdownRs,
}

/// Feature flags for Markdown dialect extensions.
#[derive(Debug, Clone, Copy, PartialEq)]
pub struct ExtensionConfig {
    /// GitHub Flavored Markdown (tables, task lists, strikethrough, autolinks).
    pub gfm: bool,
    /// `[[wiki]]` and `[[wiki|title]]` style links.
    pub wiki_links: bool,
    /// YAML/TOML frontmatter blocks.
    pub frontmatter: bool,
    /// LaTeX math blocks (`$...$`, `$$...$$`).
    pub math: bool,
}

impl ExtensionConfig {
    pub open spec fn is_default(self) -> bool {
        self.gfm && !self.wiki_links && !self.frontmatter && !self.math
    }
}

impl Default for ExtensionConfig {
    fn default() -> (r: ExtensionConfig)
        ensures
            r.is_default(),
    {
        ExtensionConfig { gfm: true, wiki_links: false, frontmatter: false, math: false }
    }
}

/// Layout and visual-behavior settings.
#[derive(Debug, Clone, Copy, PartialEq)]
pub struct UiConfig {
    /// Percentage of the terminal width given to the editor pane when the preview is visible.
    /// Valid range: 10-98
    pub split_ratio: u8,
    /// Initial preview mode on startup.
    pub initial_preview_mode: PreviewModeConfig,
}

impl UiConfig {
    pub open spec fn is_default(self) -> bool {
        self.split_ratio == 50 && self.initial_preview_mode is Rendered
    }
}

impl Default for UiConfig {
    fn default() -> (r: UiConfig)
        ensures
            r.is_default(),
    {
        UiConfig { split_ratio: 50, initial_preview_mode: PreviewModeConfig::Rendered }
    }
}

/// The initial preview mode as it is stored.
#[derive(Debug, Clone, Copy, PartialEq, Eq, Structural, Default)]
pub enum PreviewModeConfig {
    #[default]
    Rendered,
    Html,
    Hidden,
}

/// Terminal-capability settings.
#[derive(Debug, Clone, Copy, PartialEq)]
pub struct TerminalConfig {
    /// OSC-8 terminal hyperlink emission in the preview pane.
    pub hyperlinks: HyperlinksMode,
}

impl TerminalConfig {
    pub open spec fn is_default(self) -> bool {
        self.hyperlinks is Off
    }
}

impl Default for TerminalConfig {
    fn default() -> (r: TerminalConfig)
        ensures
            r.is_default(),
    {
        TerminalConfig { hyperlinks: HyperlinksMode::Off }
    }
}

/// Image settings.
#[derive(Debug, Clone, Copy, PartialEq, Eq)]
pub struct ImagesConfig {
    /// Enable image rendering in the preview pane.
    pub enabled: bool,
    /// Which graphics protocol to use.
    pub protocol: ImageProtocol,
    /// Allow fetching remote images over HTTP/HTTPS.
    pub fetch_remote: bool,
}

impl ImagesConfig {
    pub open spec fn is_default(self) -> bool {
        self.enabled && self.protocol is Auto && !self.fetch_remote
    }
}

impl Default for ImagesConfig {
    fn default() -> (r: ImagesConfig)
        ensures
            r.is_default(),
    {
        ImagesConfig { enabled: true, protocol: ImageProtocol::Auto, fetch_remote: false }
    }
}

/// The graphics protocol that the user asks for.
#[derive(Debug, Clone, Copy, PartialEq, Eq, Structural, Default)]
pub enum ImageProtocol {
    #[default]
    Auto,
    Kitty,
    Iterm2,
    Sixel,
    Off,
}

/// Whether OSC-8 terminal hyperlinks are emitted in the preview pane.
#[derive(Debug, Clone, Copy, PartialEq, Eq, Structural, Default)]
pub enum HyperlinksMode {
    /// Never emit OSC-8 sequences.
    #[default]
    Off,
    /// Emit when support was detected at startup.
    Auto,
    /// Always emit.
    On,
}

/// Syntax highlighting settings for fenced code blocks in the preview pane.
#[derive(Debug, PartialEq, Eq)]
pub struct HighlightingConfig {
    /// Enable syntax highlighting; when `false`, code blocks use plain monospace styling.
    pub enabled: bool,
    /// Theme name. An unknown name falls back to "base16-ocean.dark".
    pub theme: String,
    /// Style applied to code blocks with an unknown or empty language tag.
    pub fallback_style: FallbackStyle,
}

impl HighlightingConfig {
    pub open spec fn is_default(self) -> bool {
        &&& self.enabled
        &&& self.theme@ == "base16-ocean.dark"@
        &&& self.fallback_style is Dimmed
    }
}

impl Clone for HighlightingConfig {
    fn clone(&self) -> (r: HighlightingConfig)
        ensures
            r == *self,
    {
        HighlightingConfig {
            enabled: self.enabled,
            theme: self.theme.clone(),
            fallback_style: self.fallback_style,
        }
    }
}

impl Default for HighlightingConfig {
    fn default() -> (r: HighlightingConfig)
        ensures
            r.is_default(),
    {
        HighlightingConfig {
            enabled: true,
            theme: "base16-ocean.dark".to_owned(),
            fallback_style: FallbackStyle::Dimmed,
        }
    }
}

/// The appearance of code blocks whose language tag is unknown or missing.
#[derive(Debug, Clone, Copy, PartialEq, Eq, Structural, Default)]
pub enum FallbackStyle {
    /// Apply the DIM modifier.
    #[default]
    Dimmed,
    /// No additional styling.
    Plain,
}

// ---------------------------------------------------------------------------
// Loading
// ---------------------------------------------------------------------------

/// The path of the config file below the platform's config directory.
pub open spec fn config_path_in(dir: Seq<char>, separator: char) -> Seq<char> {
    joined_path(joined_path(dir, "alloy"@, separator), "config.toml"@, separator)
}

/// The path of the config file below a config directory, where the platform writes `separator`
/// between components.
pub fn config_file_in(dir: &str, separator: char) -> (r: String)
    ensures
        r@ == config_path_in(dir@, separator),
{
    let base = join_path(dir, "alloy", separator);
    join_path(base.as_str(), "config.toml", separator)
}

/// The path of the config file, given the platform's config directory. Nothing is created.
pub fn config_file_path(config_dir: Option<String>) -> (r: Result<String, CoreError>)
    ensures
        match config_dir {
            Some(dir) => r matches Ok(p) && exists|separator: char|
                is_separator(separator) && p@ == #[trigger] config_path_in(dir@, separator),
            None => r matches Err(e) && e@ == CoreErrorView::ConfigDirUnresolvable,
        },
{
    match config_dir {
        Some(dir) => {
            let separator: char = read_path(dir.as_str()).separator;
            let path = config_file_in(dir.as_str(), separator);
            assert(is_separator(separator) && path@ == config_path_in(dir@, separator));
            Ok(path)
        },
        None => Err(CoreError::ConfigDirUnresolvable),
    }
}

/// What was found at the path of the config file.
pub enum StoredConfig {
    /// There is no file.
    Missing,
    /// The file could not be read.
    Unreadable(String),
    /// The file is not a valid config.
    Malformed(String),
    Parsed(Config),
}

/// The config to use.
pub struct LoadedConfig {
    pub config: Config,
    /// The config is to be written to disk first, as a template for the user.
    pub write: bool,
}

/// What the config is, given what was found at `path`.
pub open spec fn loads(
    path: Seq<char>,
    stored: StoredConfig,
    r: Result<LoadedConfig, CoreError>,
) -> bool {
    match stored {
        StoredConfig::Missing => r matches Ok(l) && l.config.is_default() && l.write,
        StoredConfig::Unreadable(e) => r matches Err(err) && err@ == (CoreErrorView::ConfigIo {
            path,
            source: e@,
        }),
        StoredConfig::Malformed(e) => r matches Err(err) && err@ == (CoreErrorView::ConfigParse {
            path,
            source: e@,
        }),
        StoredConfig::Parsed(c) => if c.config_version == CURRENT_CONFIG_VERSION {
            r matches Ok(l) && l.config == c && !l.write
        } else {
            r matches Ok(l) && l.config.is_default() && !l.write
        },
    }
}

impl Config {
    /// Decides on the config, given what was found at `path`.
    ///
    /// Without a file the defaults are used and written. A config of another version is left
    /// alone and the defaults are used. An unreadable or malformed file is an error.
    pub fn load_from(path: &str, stored: StoredConfig) -> (r: Result<LoadedConfig, CoreError>)
        ensures
            match stored {
                StoredConfig::Missing => r matches Ok(l) && l.config.is_default() && l.write,
                StoredConfig::Unreadable(e) => r matches Err(err) && err@ == (
                CoreErrorView::ConfigIo { path: path@, source: e@ }),
                StoredConfig::Malformed(e) => r matches Err(err) && err@ == (
                CoreErrorView::ConfigParse { path: path@, source: e@ }),
                StoredConfig::Parsed(c) => if c.config_version == CURRENT_CONFIG_VERSION {
                    r matches Ok(l) && l.config == c && !l.write
                } else {
                    r matches Ok(l) && l.config.is_default() && !l.write
                },
            },
            loads(path@, stored, r),
    {
        match stored {
            StoredConfig::Missing => Ok(
                LoadedConfig { config: Config::default(), write: true },
            ),
            StoredConfig::Unreadable(source) => Err(
                CoreError::ConfigIo { path: path.to_owned(), source },
            ),
            StoredConfig::Malformed(source) => Err(
                CoreError::ConfigParse { path: path.to_owned(), source },
            ),
            StoredConfig::Parsed(config) => {
                if config.config_version != CURRENT_CONFIG_VERSION {
                    return Ok(LoadedConfig { config: Config::default(), write: false });
                }
                Ok(LoadedConfig { config, write: false })
            },
        }
    }
}

// ---------------------------------------------------------------------------
// Laws
// ---------------------------------------------------------------------------

/// Without a configuration tabs are four spaces, line numbers are shown, case does not matter in a
/// search, the screen is split in halves with the rendered text on the right, images are shown but
/// not fetched, and hyperlinks are not emitted.
pub proof fn law_defaults(config: Config)
    requires
        config.is_default(),
    ensures
        config.config_version == 1,
        config.editor.tab_width == 4,
        config.editor.line_numbers,
        config.editor.search_case_insensitive,
        config.editor.sequence_timeout_ms == 500,
        config.editor.preview_debounce_ms == 150,
        config.ui.split_ratio == 50,
        config.ui.initial_preview_mode is Rendered,
        config.images.enabled,
        config.images.protocol is Auto,
        !config.images.fetch_remote,
        config.terminal.hyperlinks is Off,
        config.highlighting.enabled,
        config.highlighting.fallback_style is Dimmed,
        config.markdown.engine is PulldownCmark,
        config.markdown.extensions.gfm,
        !config.markdown.extensions.wiki_links,
        !config.markdown.extensions.frontmatter,
        !config.markdown.extensions.math,
        code_theme(config) == "base16-ocean.dark"@,
        config.keymap.enter_insert is None,
        config.keymap.exit_insert is None,
        config.keymap.save is None,
        config.keymap.quit is None,
        config.keymap.toggle_preview is None,
        config.keymap.link_select is None,
        config.keymap.search_literal is None,
        config.keymap.search_regex is None,
{
}

/// The theme of the highlighting settings counts where it was chosen, and the theme for code of the
/// appearance settings otherwise.
pub proof fn law_the_chosen_theme_counts(config: Config)
    ensures
        config.highlighting.theme@ != "base16-ocean.dark"@ ==> code_theme(config)
            == config.highlighting.theme@,
        config.highlighting.theme@ == "base16-ocean.dark"@ ==> code_theme(config)
            == config.theme.code_theme@,
{
}

/// The config file lies in a directory of its own below the config directory, whether or not that
/// is written with a separator at its end.
pub proof fn law_the_config_file_has_a_directory_of_its_own(dir: Seq<char>, separator: char)
    requires
        is_separator(separator),
        dir.len() > 0,
        dir.last() != '/',
        dir.last() != separator,
    ensures
        config_path_in(dir, separator) == dir + seq![separator] + "alloy"@ + seq![separator]
            + "config.toml"@,
        config_path_in(dir.push(separator), separator) == config_path_in(dir, separator),
{
    reveal_strlit("alloy");
    reveal_strlit("config.toml");
    let base = dir + seq![separator] + "alloy"@;
    assert(base.last() == 'y');
    assert(dir.push(separator) + "alloy"@ =~= base);
    assert(dir.push(separator).last() == separator);
}

/// A config of the current version is used as it was stored. One of another version is neither used
/// nor overwritten, and where there is none the defaults are written. A file that cannot be read or
/// understood is never taken for the defaults.
pub proof fn law_stored_configs_are_used(
    path: Seq<char>,
    stored: StoredConfig,
    r: Result<LoadedConfig, CoreError>,
)
    requires
        loads(path, stored, r),
    ensures
        stored matches StoredConfig::Parsed(c) ==> r is Ok && !r->Ok_0.write && (c.config_version
            == 1 ==> r->Ok_0.config == c) && (c.config_version != 1
            ==> r->Ok_0.config.is_default()),
        stored is Missing <==> (r matches Ok(l) && l.write),
        stored is Missing ==> r->Ok_0.config.is_default(),
        r is Err <==> stored is Unreadable || stored is Malformed,
{
}

} // verus!
