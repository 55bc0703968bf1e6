//! The errors of configuration and document handling.
use vstd::prelude::*;

verus! {

/// Everything that can go wrong with the configuration or with a document.
///
/// Errors of the operating system and of the TOML reader are carried as their message.
#[derive(Debug)]
pub enum CoreError {
    /// A config file existed but could not be parsed as valid TOML.
    ConfigParse { path: String, source: String },
    /// The config could not be written as TOML.
    ConfigSerialize(String),
    /// The config file could not be read or written.
    ConfigIo { path: String, source: String },
    /// The platform has no config directory (for example because `$HOME` is not set).
    ConfigDirUnresolvable,
    /// A document could not be opened or saved.
    DocumentIo { path: String, source: String },
    /// A document is not valid UTF-8.
    DocumentEncoding { path: String },
    /// A document without a path was to be saved.
    DocumentNoPath,
}

#[verifier::ext_equal]
pub enum CoreErrorView {
    ConfigParse { path: Seq<char>, source: Seq<char> },
    ConfigSerialize(Seq<char>),
    ConfigIo { path: Seq<char>, source: Seq<char> },
    ConfigDirUnresolvable,
    DocumentIo { path: Seq<char>, source: Seq<char> },
    DocumentEncoding { path: Seq<char> },
    DocumentNoPath,
}

impl View for CoreError {
    type V = CoreErrorView;

    open spec fn view(&self) -> CoreErrorView {
        match self {
            CoreError::ConfigParse { path, source } => CoreErrorView::ConfigParse {
                path: path@,
                source: source@,
            },
            CoreError::ConfigSerialize(source) => CoreErrorView::ConfigSerialize(source@),
            CoreError::ConfigIo { path, source } => CoreErrorView::ConfigIo {
                path: path@,
                source: source@,
            },
            CoreError::ConfigDirUnresolvable => CoreErrorView::ConfigDirUnresolvable,
            CoreError::DocumentIo { path, source } => CoreErrorView::DocumentIo {
                path: path@,
                source: source@,
            },
            CoreError::DocumentEncoding { path } => CoreErrorView::DocumentEncoding { path: path@ },
            CoreError::DocumentNoPath => CoreErrorView::DocumentNoPath,
        }
    }
}

/// The message of an error.
pub open spec fn error_message(e: CoreErrorView) -> Seq<char> {
    match e {
        CoreErrorView::ConfigParse { path, source } => "Config error: Failed to parse config at "@
            + path + ": "@ + source,
        CoreErrorView::ConfigSerialize(source) =>
            "Config error: Failed to serialize default config: "@ + source,
        CoreErrorView::ConfigIo { path, source } => "Config error: Config I/O error at "@ + path
            + ": "@ + source,
        CoreErrorView::ConfigDirUnresolvable =>
            "Config error: Cannot determine platform config directory"@,
        CoreErrorView::DocumentIo { path, source } => "Document error: Document I/O error at "@
            + path + ": "@ + source,
        CoreErrorView::DocumentEncoding { path } => "Document error: File is not valid UTF-8: "@
            + path,
        CoreErrorView::DocumentNoPath =>
            "Document error: No file path set - use save_as() instead"@,
    }
}

impl CoreError {
    /// The message shown to the user.
    pub fn message(&self) -> (r: String)
        ensures
            r@ == error_message(self@),
    {
        match self {
            CoreError::ConfigParse { path, source } => {
                let mut r = "Config error: Failed to parse config at ".to_owned();
                r.append(path.as_str());
                r.append(": ");
                r.append(source.as_str());
                r
            },
            CoreError::ConfigSerialize(source) => {
                let mut r = "Config error: Failed to serialize default config: ".to_owned();
                r.append(source.as_str());
                r
            },
            CoreError::ConfigIo { path, source } => {
                let mut r = "Config error: Config I/O error at ".to_owned();
                r.append(path.as_str());
                r.append(": ");
                r.append(source.as_str());
                r
            },
            CoreError::ConfigDirUnresolvable => {
                "Config error: Cannot determine platform config directory".to_owned()
            },
            CoreError::DocumentIo { path, source } => {
                let mut r = "Document error: Document I/O error at ".to_owned();
                r.append(path.as_str());
                r.append(": ");
                r.append(source.as_str());
                r
            },
            CoreError::DocumentEncoding { path } => {
                let mut r = "Document error: File is not valid UTF-8: ".to_owned();
                r.append(path.as_str());
                r
            },
            CoreError::DocumentNoPath => {
                "Document error: No file path set - use save_as() instead".to_owned()
            },
        }
    }
}

/// An error of a file names the file, and what went wrong with it at the end.
pub proof fn law_errors_name_the_file_and_the_cause(path: Seq<char>, source: Seq<char>)
    ensures
        names_both(
            error_message(CoreErrorView::DocumentIo { path, source }),
            path,
            source,
        ),
        names_both(error_message(CoreErrorView::ConfigIo { path, source }), path, source),
        names_both(error_message(CoreErrorView::ConfigParse { path, source }), path, source),
        ends_in(error_message(CoreErrorView::DocumentEncoding { path }), path),
        ends_in(error_message(CoreErrorView::ConfigSerialize(source)), source),
{
    reveal_strlit(": ");
    assert(": "@ =~= seq![':', ' ']);
    let io = "Document error: Document I/O error at "@;
    let config_io = "Config error: Config I/O error at "@;
    let parse = "Config error: Failed to parse config at "@;
    assert(error_message(CoreErrorView::DocumentIo { path, source }) == io + path + seq![':', ' ']
        + source);
    assert(error_message(CoreErrorView::ConfigIo { path, source }) == config_io + path + seq![
        ':',
        ' ',
    ] + source);
    assert(error_message(CoreErrorView::ConfigParse { path, source }) == parse + path + seq![
        ':',
        ' ',
    ] + source);
    assert(error_message(CoreErrorView::DocumentEncoding { path })
        == "Document error: File is not valid UTF-8: "@ + path);
    assert(error_message(CoreErrorView::ConfigSerialize(source))
        == "Config error: Failed to serialize default config: "@ + source);
}

/// A message that names a file, and behind a colon the cause.
pub open spec fn names_both(message: Seq<char>, path: Seq<char>, source: Seq<char>) -> bool {
    exists|head: Seq<char>| message == #[trigger] (head + path) + seq![':', ' '] + source
}

/// A message that ends in a text.
pub open spec fn ends_in(message: Seq<char>, end: Seq<char>) -> bool {
    exists|head: Seq<char>| message == #[trigger] (head + end)
}

} // verus!
