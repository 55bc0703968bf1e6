//! Loading, decoding and caching of the images in the preview.
//!
//! An image is looked up in the cache first. On a miss it is loaded in steps: each step says
//! what has to be fetched or read, and the next one takes what came of it. Remote images are
//! fetched only when the configuration allows it. Local images must lie in the directory of the
//! document or below it.
//!
//! The cache holds a limited number of images. When it is full the image that was used least
//! recently makes room.
use vstd::prelude::*;

use image::{DynamicImage, ImageReader};
use ratatui_image::picker::{Picker, ProtocolType};
use ratatui_image::protocol::{StatefulProtocol, StatefulProtocolType};

use crate::image_proto::DetectedImageProtocol;
use crate::paths::{
    Component, ComponentView, NativePath, NativePathView, component_views, has_directory,
    has_parent, is_absolute_path, is_plain_name, is_portable, is_separator, join_path, joined_path,
    law_join_adds_one_component, names_are_plain, path_components, read_path, reads_as, slashed,
};
use crate::text::{
    all_ascii, ascii_lowercased, debug_quoted, decimal, lowercased, occurs_at, quote_debug,
    starts_with, to_decimal, to_lowercase, trim, trimmed, views,
};

verus! {

#[verifier::external_type_specification]
#[verifier::external_body]
pub struct ExDynamicImage(image::DynamicImage);

#[verifier::external_type_specification]
#[verifier::external_body]
pub struct ExPicker(ratatui_image::picker::Picker);

#[verifier::external_type_specification]
#[verifier::external_body]
pub struct ExStatefulProtocol(ratatui_image::protocol::StatefulProtocol);

/// The most bytes that are taken of a remote image: 20 MB.
pub const MAX_REMOTE_IMAGE_BYTES: usize = 20971520;

/// The most pixels that an image may have in either direction.
pub const MAX_IMAGE_DIMENSION_PX: u32 = 8000;

/// The most bytes that an image may take when it is decoded: 64 MB.
pub const MAX_IMAGE_DECODED_BYTES: u64 = 67108864;

// ---------------------------------------------------------------------------
// Errors
// ---------------------------------------------------------------------------

/// Why an image could not be shown.
#[derive(Debug, Clone)]
pub enum ImageLoadError {
    /// The file does not exist, may not be read or lies outside the document's directory.
    Io(String),
    /// The data could not be decoded.
    Decode(String),
    /// A remote image could not be fetched.
    Fetch(String),
    /// Remote fetching is disabled.
    RemoteFetchDisabled,
}

#[verifier::ext_equal]
pub enum ImageLoadErrorView {
    Io(Seq<char>),
    Decode(Seq<char>),
    Fetch(Seq<char>),
    RemoteFetchDisabled,
}

impl View for ImageLoadError {
    type V = ImageLoadErrorView;

    open spec fn view(&self) -> ImageLoadErrorView {
        match self {
            ImageLoadError::Io(e) => ImageLoadErrorView::Io(e@),
            ImageLoadError::Decode(e) => ImageLoadErrorView::Decode(e@),
            ImageLoadError::Fetch(e) => ImageLoadErrorView::Fetch(e@),
            ImageLoadError::RemoteFetchDisabled => ImageLoadErrorView::RemoteFetchDisabled,
        }
    }
}

/// The message of an error.
pub open spec fn image_error_message(e: ImageLoadErrorView) -> Seq<char> {
    match e {
        ImageLoadErrorView::Io(e) => "I/O error: "@ + e,
        ImageLoadErrorView::Decode(e) => "decode error: "@ + e,
        ImageLoadErrorView::Fetch(e) => "fetch error: "@ + e,
        ImageLoadErrorView::RemoteFetchDisabled =>
            "remote image fetching is disabled (set images.fetch_remote = true"@,
    }
}

impl ImageLoadError {
    /// The message shown in place of the image.
    pub fn message(&self) -> (r: String)
        ensures
            r@ == image_error_message(self@),
    {
        match self {
            ImageLoadError::Io(e) => {
                let mut r = "I/O error: ".to_owned();
                r.append(e.as_str());
                r
            },
            ImageLoadError::Decode(e) => {
                let mut r = "decode error: ".to_owned();
                r.append(e.as_str());
                r
            },
            ImageLoadError::Fetch(e) => {
                let mut r = "fetch error: ".to_owned();
                r.append(e.as_str());
                r
            },
            ImageLoadError::RemoteFetchDisabled => {
                "remote image fetching is disabled (set images.fetch_remote = true".to_owned()
            },
        }
    }
}

// ---------------------------------------------------------------------------
// Decoding
// ---------------------------------------------------------------------------

/// The width and height that the header of an image gives, if it can be read; an error where not
/// even the format could be looked at.
pub uninterp spec fn image_size(bytes: Seq<u8>) -> Result<Option<(u32, u32)>, Seq<char>>;

/// What the image library decodes bytes to, or the message of its error.
pub uninterp spec fn image_decoded(bytes: Seq<u8>) -> Result<DynamicImage, Seq<char>>;

/// `ImageReader::with_guessed_format` and `ImageReader::into_dimensions` on bytes in memory. The
/// result depends on the bytes alone; no format hooks are registered.
#[verifier::external_body]
fn read_dimensions(bytes: &[u8]) -> (r: Result<Option<(u32, u32)>, String>)
    ensures
        match r {
            Ok(size) => image_size(bytes@) == Ok::<_, Seq<char>>(size),
            Err(e) => image_size(bytes@) == Err::<Option<(u32, u32)>, _>(e@),
        },
{
    let reader = ImageReader::new(std::io::Cursor::new(bytes)).with_guessed_format();
    reader.map(|r| r.into_dimensions().ok()).map_err(|e| e.to_string())
}

/// `image::load_from_memory`. The result depends on the bytes alone; no format hooks are
/// registered.
#[verifier::external_body]
fn decode_image(bytes: &[u8]) -> (r: Result<DynamicImage, String>)
    ensures
        match r {
            Ok(image) => image_decoded(bytes@) == Ok::<_, Seq<char>>(image),
            Err(e) => image_decoded(bytes@) == Err::<DynamicImage, _>(e@),
        },
{
    image::load_from_memory(bytes).map_err(|e| e.to_string())
}

/// Why an image of this size is not decoded, if it is not.
pub open spec fn size_error(w: u32, h: u32) -> Option<Seq<char>> {
    let estimate = (w * h * 4) as nat;
    if w > MAX_IMAGE_DIMENSION_PX || h > MAX_IMAGE_DIMENSION_PX {
        Some(
            "image "@ + decimal(w as nat) + "x"@ + decimal(h as nat) + " exceeds maximum "@
                + decimal(MAX_IMAGE_DIMENSION_PX as nat) + "x"@ + decimal(
                MAX_IMAGE_DIMENSION_PX as nat,
            ) + " px"@,
        )
    } else if estimate > MAX_IMAGE_DECODED_BYTES {
        Some(
            "image would require ~"@ + decimal(estimate) + " decoded bytes, exceeding "@ + decimal(
                MAX_IMAGE_DECODED_BYTES as nat,
            ) + "-byte limit"@,
        )
    } else {
        None
    }
}

/// The result of decoding bytes. Nothing is decoded whose header announces too large an image.
pub open spec fn decoded(
    size: Result<Option<(u32, u32)>, Seq<char>>,
    content: Result<DynamicImage, Seq<char>>,
) -> Result<DynamicImage, ImageLoadErrorView> {
    match size {
        Err(e) => Err(ImageLoadErrorView::Decode(e)),
        Ok(size) => match size {
            Some((w, h)) if size_error(w, h) is Some => Err(
                ImageLoadErrorView::Decode(size_error(w, h)->0),
            ),
            _ => match content {
                Ok(image) => Ok(image),
                Err(e) => Err(ImageLoadErrorView::Decode(e)),
            },
        },
    }
}

/// A result with the view of its error.
pub open spec fn result_view<T>(r: Result<T, ImageLoadError>) -> Result<T, ImageLoadErrorView> {
    match r {
        Ok(v) => Ok(v),
        Err(e) => Err(e@),
    }
}

/// Checks the size that the header of an image announces.
pub fn check_size(w: u32, h: u32) -> (r: Result<(), ImageLoadError>)
    ensures
        match size_error(w, h) {
            Some(e) => r matches Err(err) && err@ == ImageLoadErrorView::Decode(e),
            None => r is Ok,
        },
{
    if w > MAX_IMAGE_DIMENSION_PX || h > MAX_IMAGE_DIMENSION_PX {
        let max = to_decimal(MAX_IMAGE_DIMENSION_PX as u128);
        let mut m = "image ".to_owned();
        m.append(to_decimal(w as u128).as_str());
        m.append("x");
        m.append(to_decimal(h as u128).as_str());
        m.append(" exceeds maximum ");
        m.append(max.as_str());
        m.append("x");
        m.append(max.as_str());
        m.append(" px");
        return Err(ImageLoadError::Decode(m));
    }
    assert(w as u64 * h as u64 <= 64000000) by (nonlinear_arith)
        requires
            w <= 8000,
            h <= 8000,
    ;
    let estimate: u64 = w as u64 * h as u64 * 4;
    if estimate > MAX_IMAGE_DECODED_BYTES {
        let mut m = "image would require ~".to_owned();
        m.append(to_decimal(estimate as u128).as_str());
        m.append(" decoded bytes, exceeding ");
        m.append(to_decimal(MAX_IMAGE_DECODED_BYTES as u128).as_str());
        m.append("-byte limit");
        return Err(ImageLoadError::Decode(m));
    }
    Ok(())
}

/// Decodes an image.
///
/// The size that the header announces is checked before any pixel memory is allocated. Where the
/// header cannot be read, decoding fails by itself.
pub fn decode_bytes(bytes: &[u8]) -> (r: Result<DynamicImage, ImageLoadError>)
    ensures
        result_view(r) == decoded(image_size(bytes@), image_decoded(bytes@)),
{
    let size = match read_dimensions(bytes) {
        Ok(size) => size,
        Err(e) => {
            return Err(ImageLoadError::Decode(e));
        },
    };
    if let Some((w, h)) = size {
        if let Err(e) = check_size(w, h) {
            return Err(e);
        }
    }
    match decode_image(bytes) {
        Ok(image) => Ok(image),
        Err(e) => Err(ImageLoadError::Decode(e)),
    }
}

// ---------------------------------------------------------------------------
// Local paths
// ---------------------------------------------------------------------------

/// Why a path does not lead down into the directory that it starts from.
pub enum PathFault {
    /// It climbs above its start.
    Escapes,
    /// It starts somewhere else.
    Absolute,
}

/// The names that a relative path leads down to, step by step, or its first fault.
pub open spec fn descent(parts: Seq<ComponentView>) -> Result<Seq<Seq<char>>, PathFault>
    decreases parts.len(),
{
    if parts.len() == 0 {
        Ok(Seq::empty())
    } else {
        match descent(parts.drop_last()) {
            Err(fault) => Err(fault),
            Ok(names) => match parts.last() {
                ComponentView::Normal(name) => Ok(names.push(name)),
                ComponentView::CurDir => Ok(names),
                ComponentView::ParentDir => if names.len() > 0 {
                    Ok(names.drop_last())
                } else {
                    Err(PathFault::Escapes)
                },
                ComponentView::RootDir | ComponentView::Prefix(_) => Err(PathFault::Absolute),
            },
        }
    }
}

/// `base` with these names behind it.
pub open spec fn joined_names(
    base: Seq<char>,
    names: Seq<Seq<char>>,
    separator: char,
) -> Seq<char>
    decreases names.len(),
{
    if names.len() == 0 {
        base
    } else {
        joined_path(joined_names(base, names.drop_last(), separator), names.last(), separator)
    }
}

/// Where an image path leads, seen from the base directory, given how the platform reads the path
/// and what components it finds in the base.
pub open spec fn resolved(
    path: Seq<char>,
    native: NativePathView,
    base: Result<Seq<char>, Seq<char>>,
    base_parts: Seq<ComponentView>,
) -> Result<Seq<char>, ImageLoadErrorView> {
    if native.absolute {
        Err(
            ImageLoadErrorView::Io(
                "absolute image paths are not permitted: "@ + debug_quoted(path),
            ),
        )
    } else {
        match base {
            Err(e) => Err(ImageLoadErrorView::Io(e)),
            Ok(b) => match descent(native.parts) {
                Ok(names) => Ok(joined_names(b, names, native.separator)),
                Err(PathFault::Absolute) => Err(
                    ImageLoadErrorView::Io(
                        "absolute component in image path: "@ + debug_quoted(path),
                    ),
                ),
                Err(PathFault::Escapes) => if has_parent(base_parts) {
                    Err(
                        ImageLoadErrorView::Io(
                            "image path escapes document directory: "@ + debug_quoted(path),
                        ),
                    )
                } else {
                    Err(
                        ImageLoadErrorView::Io(
                            "image path traversal detected (reached root): "@ + debug_quoted(path),
                        ),
                    )
                },
            },
        }
    }
}

/// A result that resolving an image path can have: it depends on how the platform reads the path
/// and the base directory.
pub open spec fn resolves_to(
    path: Seq<char>,
    base: Result<Seq<char>, Seq<char>>,
    r: Result<Seq<char>, ImageLoadErrorView>,
) -> bool {
    exists|native: NativePathView, dir: NativePathView|
        reads_as(path, native) && (base is Ok ==> reads_as(base->Ok_0, dir)) && r
            == #[trigger] resolved(path, native, base, dir.parts)
}

/// The view of a resolved path.
pub open spec fn path_view(r: Result<String, ImageLoadError>) -> Result<
    Seq<char>,
    ImageLoadErrorView,
> {
    match r {
        Ok(p) => Ok(p@),
        Err(e) => Err(e@),
    }
}

/// The view of a base directory: its path, or why there is none.
pub open spec fn base_view(base: Result<String, String>) -> Result<Seq<char>, Seq<char>> {
    match base {
        Ok(b) => Ok(b@),
        Err(e) => Err(e@),
    }
}

fn io_error(message: &str, path: &str) -> (r: ImageLoadError)
    ensures
        r@ == ImageLoadErrorView::Io(message@ + debug_quoted(path@)),
{
    let mut m = message.to_owned();
    m.append(quote_debug(path).as_str());
    ImageLoadError::Io(m)
}

/// Resolves a local image path against the base directory, without looking at the file system.
///
/// Absolute paths, drives and network shares are rejected, and so are paths that climb out of the
/// base directory at any point.
pub fn resolve_safe_image_path(path_str: &str, base: &Result<String, String>) -> (r: Result<
    String,
    ImageLoadError,
>)
    ensures
        resolves_to(path_str@, base_view(*base), path_view(r)),
{
    let native = read_path(path_str);
    let dir = match base {
        Ok(b) => read_path(b.as_str()),
        Err(_) => NativePath { absolute: false, separator: '/', parts: Vec::new() },
    };
    let r = resolve_read_path(path_str, &native, base, &dir.parts);
    assert(path_view(r) == resolved(path_str@, native@, base_view(*base), dir@.parts));
    r
}

/// Resolves a local image path that the platform has read, against a base directory with these
/// components.
pub fn resolve_read_path(
    path_str: &str,
    native: &NativePath,
    base: &Result<String, String>,
    base_parts: &Vec<Component>,
) -> (r: Result<String, ImageLoadError>)
    ensures
        path_view(r) == resolved(
            path_str@,
            native@,
            base_view(*base),
            component_views(base_parts@),
        ),
{
    if native.absolute {
        return Err(io_error("absolute image paths are not permitted: ", path_str));
    }
    let dir = match base {
        Ok(b) => b,
        Err(e) => {
            return Err(ImageLoadError::Io(e.clone()));
        },
    };
    let ghost all = native@.parts;
    let mut names: Vec<String> = Vec::new();
    let mut i: usize = 0;
    assert(all.take(0) =~= Seq::<ComponentView>::empty());
    assert(views(names@) =~= Seq::<Seq<char>>::empty());
    while i < native.parts.len()
        invariant
            i <= native.parts@.len(),
            all == native@.parts,
            all == component_views(native.parts@),
            !native.absolute,
            base_view(*base) == Ok::<Seq<char>, Seq<char>>(dir@),
            descent(all.take(i as int)) == Ok::<Seq<Seq<char>>, PathFault>(views(names@)),
        decreases native.parts@.len() - i,
    {
        let ghost before = views(names@);
        proof {
            assert(all.take(i + 1).drop_last() =~= all.take(i as int));
            assert(all.take(i + 1).last() == native.parts@[i as int]@);
        }
        match &native.parts[i] {
            Component::Normal(name) => {
                names.push(name.clone());
                assert(views(names@) =~= before.push(name@));
            },
            Component::CurDir => {},
            Component::ParentDir => {
                if names.len() == 0 {
                    proof {
                        lemma_faults_stay(all, i + 1);
                    }
                    return Err(
                        if has_directory(base_parts) {
                            io_error("image path escapes document directory: ", path_str)
                        } else {
                            io_error("image path traversal detected (reached root): ", path_str)
                        },
                    );
                }
                names.pop();
                assert(views(names@) =~= before.drop_last());
            },
            Component::RootDir | Component::Prefix(_) => {
                proof {
                    lemma_faults_stay(all, i + 1);
                }
                return Err(io_error("absolute component in image path: ", path_str));
            },
        }
        i = i + 1;
    }
    assert(all.take(native.parts@.len() as int) =~= all);
    let mut path = dir.clone();
    let mut j: usize = 0;
    let ghost steps = views(names@);
    assert(steps.take(0) =~= Seq::<Seq<char>>::empty());
    while j < names.len()
        invariant
            j <= names@.len(),
            steps == views(names@),
            path@ == joined_names(dir@, steps.take(j as int), native.separator),
        decreases names@.len() - j,
    {
        path = join_path(path.as_str(), names[j].as_str(), native.separator);
        j = j + 1;
        assert(steps.take(j as int).drop_last() =~= steps.take(j - 1));
    }
    assert(steps.take(names@.len() as int) =~= steps);
    Ok(path)
}

/// A path that has a fault keeps it, whatever follows.
proof fn lemma_faults_stay(parts: Seq<ComponentView>, i: int)
    requires
        0 <= i <= parts.len(),
        descent(parts.take(i)) is Err,
    ensures
        descent(parts) == descent(parts.take(i)),
    decreases parts.len() - i,
{
    if i < parts.len() {
        assert(parts.take(i + 1).drop_last() =~= parts.take(i));
        lemma_faults_stay(parts, i + 1);
    } else {
        assert(parts.take(i) =~= parts);
    }
}

/// The names as path components.
pub open spec fn as_components(names: Seq<Seq<char>>) -> Seq<ComponentView> {
    names.map_values(|n: Seq<char>| ComponentView::Normal(n))
}

proof fn lemma_descent_has_no_prefix(parts: Seq<ComponentView>, k: int)
    requires
        descent(parts) is Ok,
        0 <= k < parts.len(),
    ensures
        !(parts[k] is Prefix),
    decreases parts.len(),
{
    if k < parts.len() - 1 {
        lemma_descent_has_no_prefix(parts.drop_last(), k);
    }
}

proof fn lemma_descent_names_plain(parts: Seq<ComponentView>, separator: char, k: int)
    requires
        names_are_plain(parts, separator),
        descent(parts) is Ok,
        0 <= k < descent(parts)->Ok_0.len(),
    ensures
        is_plain_name(descent(parts)->Ok_0[k]),
        !descent(parts)->Ok_0[k].contains(separator),
    decreases parts.len(),
{
    if parts.len() > 0 {
        let front = parts.drop_last();
        assert forall|i: int| 0 <= i < front.len() implies (#[trigger] front[i] matches
            ComponentView::Normal(n) ==> is_plain_name(n) && !n.contains(separator)) by {
            assert(front[i] == parts[i]);
        }
        let last = parts[parts.len() - 1];
        if k < descent(front)->Ok_0.len() {
            lemma_descent_names_plain(front, separator, k);
        }
    }
}

/// Each of the names can stand as one component.
pub open spec fn are_plain(names: Seq<Seq<char>>, separator: char) -> bool {
    forall|k: int|
        0 <= k < names.len() ==> is_plain_name(#[trigger] names[k]) && !names[k].contains(separator)
}

/// `to` lies below `base`: it is the base followed by the names, and its components are those of
/// the base followed by the names.
pub open spec fn lies_below(
    to: Seq<char>,
    base: Seq<char>,
    names: Seq<Seq<char>>,
    separator: char,
) -> bool {
    &&& to == joined_names(base, names, separator)
    &&& path_components(slashed(to, separator)) == path_components(slashed(base, separator))
        + as_components(names)
}

proof fn lemma_joined_names_components(base: Seq<char>, names: Seq<Seq<char>>, separator: char)
    requires
        are_plain(names, separator),
    ensures
        lies_below(joined_names(base, names, separator), base, names, separator),
    decreases names.len(),
{
    let start = path_components(slashed(base, separator));
    if names.len() == 0 {
        assert(as_components(names) =~= Seq::<ComponentView>::empty());
        assert(start + as_components(names) =~= start);
    } else {
        let front = names.drop_last();
        assert(are_plain(front, separator));
        lemma_joined_names_components(base, front, separator);
        law_join_adds_one_component(
            joined_names(base, front, separator),
            names.last(),
            separator,
        );
        assert(as_components(names) =~= as_components(front).push(
            ComponentView::Normal(names.last()),
        ));
        assert(start + as_components(names) =~= (start + as_components(front)).push(
            ComponentView::Normal(names.last()),
        ));
    }
}

/// An accepted image path never leaves the base directory, however the platform reads it: it is the
/// base followed by plain names, without any `..`, and its components are those of the base
/// followed by these names.
pub proof fn law_resolved_path_stays_in_base(path: Seq<char>, base: Seq<char>, to: Seq<char>)
    requires
        resolves_to(path, Ok(base), Ok(to)),
    ensures
        exists|names: Seq<Seq<char>>, separator: char|
            is_separator(separator) && are_plain(names, separator) && #[trigger] lies_below(
                to,
                base,
                names,
                separator,
            ),
{
    let (native, dir) = choose|native: NativePathView, dir: NativePathView|
        reads_as(path, native) && reads_as(base, dir) && Ok::<Seq<char>, ImageLoadErrorView>(to)
            == #[trigger] resolved(path, native, Ok(base), dir.parts);
    let parts = native.parts;
    let names = descent(parts)->Ok_0;
    assert forall|k: int| 0 <= k < parts.len() implies !((#[trigger] parts[k]) is Prefix) by {
        lemma_descent_has_no_prefix(parts, k);
    }
    let separator = native.separator;
    assert forall|k: int| 0 <= k < names.len() implies is_plain_name(#[trigger] names[k])
        && !names[k].contains(separator) by {
        lemma_descent_names_plain(parts, separator, k);
    }
    lemma_joined_names_components(base, names, separator);
    assert(lies_below(to, base, names, separator));
}

/// A relative portable path has the same fate on every platform: it leads to the names that are
/// left of it when each `..` has taken back the name before it, and is rejected where a `..` finds
/// no name to take back. An absolute one is always rejected.
pub proof fn law_portable_paths_resolve_alike(
    path: Seq<char>,
    base: Seq<char>,
    r: Result<Seq<char>, ImageLoadErrorView>,
)
    requires
        is_portable(path),
        resolves_to(path, Ok(base), r),
    ensures
        is_absolute_path(path) ==> r is Err,
        !is_absolute_path(path) ==> match descent(path_components(path)) {
            Ok(names) => r matches Ok(to) && exists|separator: char|
                is_separator(separator) && to == #[trigger] joined_names(base, names, separator),
            Err(_) => r is Err,
        },
{
    if is_absolute_path(path) {
        let parts = path_components(path);
        assert(parts[0] is RootDir);
        assert(parts.take(1).drop_last() =~= Seq::<ComponentView>::empty());
        assert(parts.take(1).last() == parts[0]);
        assert(descent(parts.take(1).drop_last()) == Ok::<Seq<Seq<char>>, PathFault>(Seq::empty()));
        lemma_faults_stay(parts, 1);
    }
}

// ---------------------------------------------------------------------------
// Loading
// ---------------------------------------------------------------------------

/// How long to wait for a connection, in seconds.
pub const CONNECT_TIMEOUT_SECS: u64 = 5;

/// How long to wait for the body of a response, in seconds.
pub const BODY_TIMEOUT_SECS: u64 = 30;

/// What has to be done next to load an image.
pub enum LoadStep {
    /// Send a request to this address and wait for the headers of the response.
    Fetch { url: String },
    /// Read the body of the response, one byte more than the limit at most.
    ReadBody { url: String },
    /// Read this file.
    ReadFile { path: String },
    /// Nothing: this is the result.
    Done(Result<DynamicImage, ImageLoadError>),
}

#[verifier::ext_equal]
pub enum LoadStepView {
    Fetch { url: Seq<char> },
    ReadBody { url: Seq<char> },
    ReadFile { path: Seq<char> },
    Done(Result<DynamicImage, ImageLoadErrorView>),
}

impl View for LoadStep {
    type V = LoadStepView;

    open spec fn view(&self) -> LoadStepView {
        match self {
            LoadStep::Fetch { url } => LoadStepView::Fetch { url: url@ },
            LoadStep::ReadBody { url } => LoadStepView::ReadBody { url: url@ },
            LoadStep::ReadFile { path } => LoadStepView::ReadFile { path: path@ },
            LoadStep::Done(r) => LoadStepView::Done(result_view(*r)),
        }
    }
}

/// An address on the web.
pub open spec fn is_remote(key: Seq<char>) -> bool {
    occurs_at(key, "http://"@, 0) || occurs_at(key, "https://"@, 0)
}

/// The first step for a remote image.
pub open spec fn remote_step(url: Seq<char>, fetch_remote: bool) -> LoadStepView {
    if fetch_remote {
        LoadStepView::Fetch { url }
    } else {
        LoadStepView::Done(Err(ImageLoadErrorView::RemoteFetchDisabled))
    }
}

/// The first step for a local image whose path was resolved.
pub open spec fn local_step(path: Result<Seq<char>, ImageLoadErrorView>) -> LoadStepView {
    match path {
        Ok(p) => LoadStepView::ReadFile { path: p },
        Err(e) => LoadStepView::Done(Err(e)),
    }
}

/// A first step that a local image can have.
pub open spec fn is_local_step(
    path: Seq<char>,
    base: Result<Seq<char>, Seq<char>>,
    step: LoadStepView,
) -> bool {
    exists|to: Result<Seq<char>, ImageLoadErrorView>| #[trigger]
        resolves_to(path, base, to) && step == local_step(to)
}

/// The step after the headers of a response: its content type, or why there was none.
pub open spec fn headers_step(url: Seq<char>, reply: Result<Seq<char>, Seq<char>>) -> LoadStepView {
    match reply {
        Err(e) => LoadStepView::Done(Err(ImageLoadErrorView::Fetch(e))),
        Ok(content_type) => if occurs_at(content_type, "image/"@, 0) {
            LoadStepView::ReadBody { url }
        } else {
            LoadStepView::Done(
                Err(
                    ImageLoadErrorView::Fetch(
                        "server returned unexpected Content-Type: "@ + debug_quoted(content_type)
                            + " (expected image/*)"@,
                    ),
                ),
            )
        },
    }
}

/// The first step to load an image: web addresses are fetched, everything else is a file in the
/// base directory.
pub fn load_image(key: &str, fetch_remote: bool, base: &Result<String, String>) -> (r: LoadStep)
    ensures
        is_remote(trimmed(key@)) ==> r@ == remote_step(trimmed(key@), fetch_remote),
        !is_remote(trimmed(key@)) ==> is_local_step(trimmed(key@), base_view(*base), r@),
{
    let name = trim(key);
    if is_remote_key(name) {
        load_remote(name, fetch_remote)
    } else {
        load_local(name, base)
    }
}

fn is_remote_key(key: &str) -> (r: bool)
    ensures
        r == is_remote(key@),
{
    starts_with(key, "http://") || starts_with(key, "https://")
}

/// The first step to load a remote image. Nothing is fetched unless that is allowed.
pub fn load_remote(url: &str, fetch_remote: bool) -> (r: LoadStep)
    ensures
        r@ == remote_step(url@, fetch_remote),
{
    if !fetch_remote {
        return LoadStep::Done(Err(ImageLoadError::RemoteFetchDisabled));
    }
    LoadStep::Fetch { url: url.to_owned() }
}

/// The step after the headers of a response. Only images are read on.
pub fn after_headers(url: &str, content_type: Result<String, String>) -> (r: LoadStep)
    ensures
        r@ == headers_step(
            url@,
            match content_type {
                Ok(ct) => Ok(ct@),
                Err(e) => Err(e@),
            },
        ),
{
    match content_type {
        Err(e) => LoadStep::Done(Err(ImageLoadError::Fetch(e))),
        Ok(ct) => {
            if starts_with(ct.as_str(), "image/") {
                return LoadStep::ReadBody { url: url.to_owned() };
            }
            let mut m = "server returned unexpected Content-Type: ".to_owned();
            m.append(quote_debug(ct.as_str()).as_str());
            m.append(" (expected image/*)");
            LoadStep::Done(Err(ImageLoadError::Fetch(m)))
        },
    }
}

/// The result for the body of a response. A body over the limit is not decoded.
pub open spec fn body_result(body: Result<Seq<u8>, Seq<char>>) -> Result<
    DynamicImage,
    ImageLoadErrorView,
> {
    match body {
        Err(e) => Err(ImageLoadErrorView::Fetch(e)),
        Ok(bytes) => if bytes.len() > MAX_REMOTE_IMAGE_BYTES {
            Err(
                ImageLoadErrorView::Fetch(
                    "remote image body exceeds "@ + decimal(MAX_REMOTE_IMAGE_BYTES as nat)
                        + "-byte limit"@,
                ),
            )
        } else {
            decoded(image_size(bytes), image_decoded(bytes))
        },
    }
}

/// The result for the body of a response.
pub fn after_body(body: Result<Vec<u8>, String>) -> (r: Result<DynamicImage, ImageLoadError>)
    ensures
        result_view(r) == match body {
            Err(e) => Err(ImageLoadErrorView::Fetch(e@)),
            Ok(bytes) => if bytes@.len() > MAX_REMOTE_IMAGE_BYTES {
                Err(
                    ImageLoadErrorView::Fetch(
                        "remote image body exceeds "@ + decimal(MAX_REMOTE_IMAGE_BYTES as nat)
                            + "-byte limit"@,
                    ),
                )
            } else {
                decoded(image_size(bytes@), image_decoded(bytes@))
            },
        },
        result_view(r) == body_result(
            match body {
                Ok(bytes) => Ok(bytes@),
                Err(e) => Err(e@),
            },
        ),
{
    match body {
        Err(e) => Err(ImageLoadError::Fetch(e)),
        Ok(bytes) => {
            if bytes.len() > MAX_REMOTE_IMAGE_BYTES {
                let mut m = "remote image body exceeds ".to_owned();
                m.append(to_decimal(MAX_REMOTE_IMAGE_BYTES as u128).as_str());
                m.append("-byte limit");
                return Err(ImageLoadError::Fetch(m));
            }
            decode_bytes(bytes.as_slice())
        },
    }
}

/// The first step to load a local image.
pub fn load_local(path_str: &str, base: &Result<String, String>) -> (r: LoadStep)
    ensures
        is_local_step(path_str@, base_view(*base), r@),
{
    let to = resolve_safe_image_path(path_str, base);
    assert(resolves_to(path_str@, base_view(*base), path_view(to)));
    match to {
        Ok(path) => LoadStep::ReadFile { path },
        Err(e) => LoadStep::Done(Err(e)),
    }
}

/// The result for the content of a local file.
pub fn after_file(content: Result<Vec<u8>, String>) -> (r: Result<DynamicImage, ImageLoadError>)
    ensures
        result_view(r) == match content {
            Err(e) => Err(ImageLoadErrorView::Io(e@)),
            Ok(bytes) => decoded(image_size(bytes@), image_decoded(bytes@)),
        },
{
    match content {
        Err(e) => Err(ImageLoadError::Io(e)),
        Ok(bytes) => decode_bytes(bytes.as_slice()),
    }
}

/// Without permission nothing is ever fetched: a remote image ends in an error at once, and no
/// local image is ever fetched.
pub proof fn law_no_fetch_without_permission(
    url: Seq<char>,
    path: Seq<char>,
    base: Result<Seq<char>, Seq<char>>,
    step: LoadStepView,
)
    requires
        is_local_step(path, base, step),
    ensures
        remote_step(url, false) == LoadStepView::Done(
            Err(ImageLoadErrorView::RemoteFetchDisabled),
        ),
        !(step is Fetch),
{
}

// ---------------------------------------------------------------------------
// Cache
// ---------------------------------------------------------------------------

/// How a terminal shows images.
#[derive(Debug, Clone, Copy, PartialEq, Eq, Structural)]
pub enum ProtocolKind {
    Halfblocks,
    Sixel,
    Kitty,
    Iterm2,
}

/// What `Picker::protocol_type` returns: the protocol that a picker makes images ready for.
pub uninterp spec fn picker_kind(picker: Picker) -> ProtocolKind;

/// What `StatefulProtocol::protocol_type` tells: the protocol that an image was made ready for.
pub uninterp spec fn encoded_kind(protocol: StatefulProtocol) -> ProtocolKind;

/// The protocol was made from this image and draws it.
pub uninterp spec fn holds_image(protocol: StatefulProtocol, image: DynamicImage) -> bool;

/// `Picker::protocol_type`: the protocol that the picker makes images ready for.
#[verifier::external_body]
fn read_picker_kind(picker: &Picker) -> (r: ProtocolKind)
    ensures
        r == picker_kind(*picker),
{
    match picker.protocol_type() {
        ProtocolType::Halfblocks => ProtocolKind::Halfblocks,
        ProtocolType::Sixel => ProtocolKind::Sixel,
        ProtocolType::Kitty => ProtocolKind::Kitty,
        ProtocolType::Iterm2 => ProtocolKind::Iterm2,
    }
}

/// `StatefulProtocol::protocol_type`: the protocol that the image was made ready for.
#[verifier::external_body]
fn read_encoded_kind(protocol: &StatefulProtocol) -> (r: ProtocolKind)
    ensures
        r == encoded_kind(*protocol),
{
    match protocol.protocol_type() {
        StatefulProtocolType::Halfblocks(_) => ProtocolKind::Halfblocks,
        StatefulProtocolType::Sixel(_) => ProtocolKind::Sixel,
        StatefulProtocolType::Kitty(_) => ProtocolKind::Kitty,
        StatefulProtocolType::ITerm2(_) => ProtocolKind::Iterm2,
    }
}

/// `Picker::new_resize_protocol`: an image made ready for the protocol of the picker. The result
/// keeps the image that was given, over the background colour of the picker where it has one. It
/// may also carry a random identifier, so that two results for one image need not be equal.
#[verifier::external_body]
pub(crate) fn encode_image(picker: &Picker, image: DynamicImage) -> (r: StatefulProtocol)
    ensures
        encoded_kind(r) == picker_kind(*picker),
        holds_image(r, image),
{
    picker.new_resize_protocol(image)
}

/// `Picker::halfblocks`: a picker for half blocks. It looks at the environment, so that nothing
/// more is said of it.
#[verifier::external_body]
fn halfblocks_picker() -> (r: Picker)
    ensures
        picker_kind(r) is Halfblocks,
{
    Picker::halfblocks()
}

/// `Picker::set_protocol_type`: the picker makes images ready for this protocol from now on.
#[verifier::external_body]
fn set_picker_kind(picker: &mut Picker, kind: ProtocolKind)
    ensures
        picker_kind(*final(picker)) == kind,
{
    picker.set_protocol_type(match kind {
        ProtocolKind::Halfblocks => ProtocolType::Halfblocks,
        ProtocolKind::Sixel => ProtocolType::Sixel,
        ProtocolKind::Kitty => ProtocolType::Kitty,
        ProtocolKind::Iterm2 => ProtocolType::Iterm2,
    })
}

/// The protocol that images are made ready for; `None` where they are disabled.
#[verifier::allow_in_spec]
pub fn kind_of_protocol(protocol: DetectedImageProtocol) -> Option<ProtocolKind>
    returns
        (match protocol {
            DetectedImageProtocol::Kitty => Some(ProtocolKind::Kitty),
            DetectedImageProtocol::Iterm2 => Some(ProtocolKind::Iterm2),
            DetectedImageProtocol::Sixel => Some(ProtocolKind::Sixel),
            DetectedImageProtocol::HalfBlock => Some(ProtocolKind::Halfblocks),
            DetectedImageProtocol::Disabled => None,
        }),
{
    match protocol {
        DetectedImageProtocol::Kitty => Some(ProtocolKind::Kitty),
        DetectedImageProtocol::Iterm2 => Some(ProtocolKind::Iterm2),
        DetectedImageProtocol::Sixel => Some(ProtocolKind::Sixel),
        DetectedImageProtocol::HalfBlock => Some(ProtocolKind::Halfblocks),
        DetectedImageProtocol::Disabled => None,
    }
}

/// A picker for the detected protocol.
pub fn picker_for(protocol: DetectedImageProtocol) -> (r: Option<Picker>)
    ensures
        match kind_of_protocol(protocol) {
            Some(kind) => r matches Some(p) && picker_kind(p) == kind,
            None => r is None,
        },
{
    match kind_of_protocol(protocol) {
        Some(kind) => {
            let mut picker = halfblocks_picker();
            set_picker_kind(&mut picker, kind);
            Some(picker)
        },
        None => None,
    }
}

/// The protocol that a picker makes images ready for.
pub fn kind_of_picker(picker: &Picker) -> (r: ProtocolKind)
    ensures
        r == picker_kind(*picker),
{
    read_picker_kind(picker)
}

impl CachedImage {
    /// The protocol that the image was made ready for.
    pub fn kind(&self) -> (r: ProtocolKind)
        ensures
            r == encoded_kind(self.protocol),
    {
        read_encoded_kind(&self.protocol)
    }
}

/// An image that is ready to be drawn.
pub struct CachedImage {
    pub protocol: StatefulProtocol,
    /// When the image was last used, in milliseconds.
    pub last_used: u64,
}

/// An image of the cache with its key.
pub struct CacheEntry {
    pub key: String,
    pub image: CachedImage,
}

#[verifier::ext_equal]
pub struct CacheEntryView {
    pub key: Seq<char>,
    pub image: CachedImage,
}

impl View for CacheEntry {
    type V = CacheEntryView;

    open spec fn view(&self) -> CacheEntryView {
        CacheEntryView { key: self.key@, image: self.image }
    }
}

pub open spec fn entry_views(v: Seq<CacheEntry>) -> Seq<CacheEntryView> {
    v.map_values(|e: CacheEntry| e@)
}

/// The key of an image in the cache. Local paths are taken in lower case, so that one file is
/// not kept twice on a file system that ignores case. Web addresses are taken as they are, with the
/// white space around them.
pub open spec fn cache_key(source: Seq<char>) -> Seq<char> {
    if is_remote(trimmed(source)) {
        source
    } else {
        lowercased(source)
    }
}

/// The key of a local path in ASCII is the path with its letters in lower case.
pub open spec fn lowers_ascii(source: Seq<char>) -> bool {
    !is_remote(trimmed(source)) && all_ascii(source) ==> cache_key(source) == ascii_lowercased(
        source,
    )
}

/// The position of a key.
pub open spec fn key_position(entries: Seq<CacheEntryView>, key: Seq<char>) -> Option<int>
    decreases entries.len(),
{
    if entries.len() == 0 {
        None
    } else if entries.last().key == key {
        Some(entries.len() - 1)
    } else {
        key_position(entries.drop_last(), key)
    }
}

/// The position of the entry that was used least recently; the first one where there are several.
pub open spec fn oldest(entries: Seq<CacheEntryView>) -> int
    decreases entries.len(),
{
    if entries.len() <= 1 {
        0
    } else {
        let k = oldest(entries.drop_last());
        if entries.last().image.last_used < entries[k].image.last_used {
            entries.len() - 1
        } else {
            k
        }
    }
}

/// The entries after room was made for one more.
pub open spec fn with_room(entries: Seq<CacheEntryView>, max_entries: nat) -> Seq<CacheEntryView> {
    if entries.len() >= max_entries && entries.len() > 0 {
        entries.remove(oldest(entries))
    } else {
        entries
    }
}

/// The cache of decoded images.
pub struct ImageCache {
    pub entries: Vec<CacheEntry>,
    /// How many images are kept at most.
    pub max_entries: usize,
}

impl View for ImageCache {
    type V = Seq<CacheEntryView>;

    open spec fn view(&self) -> Seq<CacheEntryView> {
        entry_views(self.entries@)
    }
}

/// No key occurs twice.
pub open spec fn distinct_keys(entries: Seq<CacheEntryView>) -> bool {
    forall|i: int, j: int|
        0 <= i < j < entries.len() ==> (#[trigger] entries[i]).key != (#[trigger] entries[j]).key
}

fn key_of(source: &str) -> (r: String)
    ensures
        r@ == cache_key(source@),
        lowers_ascii(source@),
{
    if is_remote_key(trim(source)) {
        source.to_owned()
    } else {
        to_lowercase(source)
    }
}

proof fn lemma_key_position(entries: Seq<CacheEntryView>, key: Seq<char>)
    ensures
        match key_position(entries, key) {
            Some(i) => 0 <= i < entries.len() && entries[i].key == key,
            None => forall|i: int| 0 <= i < entries.len() ==> (#[trigger] entries[i]).key != key,
        },
    decreases entries.len(),
{
    if entries.len() > 0 && entries.last().key != key {
        lemma_key_position(entries.drop_last(), key);
        assert forall|i: int|
            0 <= i < entries.len() && key_position(entries.drop_last(), key) is None implies (
        #[trigger] entries[i]).key != key by {
            if i < entries.len() - 1 {
                assert(entries.drop_last()[i] == entries[i]);
            }
        }
    }
}

proof fn lemma_oldest(entries: Seq<CacheEntryView>)
    requires
        entries.len() > 0,
    ensures
        0 <= oldest(entries) < entries.len(),
        forall|i: int|
            0 <= i < entries.len() ==> entries[oldest(entries)].image.last_used <= (
            #[trigger] entries[i]).image.last_used,
    decreases entries.len(),
{
    if entries.len() > 1 {
        let front = entries.drop_last();
        lemma_oldest(front);
        assert forall|i: int| 0 <= i < entries.len() implies entries[oldest(
            entries,
        )].image.last_used <= (#[trigger] entries[i]).image.last_used by {
            if i < front.len() {
                assert(front[i] == entries[i]);
            }
        }
    }
}

impl ImageCache {
    /// No image is kept twice.
    pub open spec fn wf(self) -> bool {
        distinct_keys(self@)
    }

    /// An empty cache with the given limit.
    pub fn new(max_entries: usize) -> (r: ImageCache)
        ensures
            r@ == Seq::<CacheEntryView>::empty(),
            r.max_entries == max_entries,
            r.wf(),
    {
        let r = ImageCache { entries: Vec::new(), max_entries };
        assert(r@ =~= Seq::<CacheEntryView>::empty());
        r
    }

    fn find(&self, key: &String) -> (r: Option<usize>)
        ensures
            match r {
                Some(i) => key_position(self@, key@) == Some(i as int) && i < self@.len(),
                None => key_position(self@, key@) is None,
            },
    {
        let mut n: usize = self.entries.len();
        assert(self@.take(n as int) =~= self@);
        while n > 0
            invariant
                n <= self.entries@.len(),
                key_position(self@, key@) == key_position(self@.take(n as int), key@),
            decreases n,
        {
            assert(self@.take(n as int).last() == self.entries@[n - 1]@);
            assert(self@.take(n as int).drop_last() =~= self@.take(n - 1));
            if self.entries[n - 1].key == *key {
                return Some(n - 1);
            }
            n = n - 1;
        }
        None
    }

    /// The image of a source, for changing it.
    pub fn get_mut(&mut self, source: &str) -> (r: Option<&mut CachedImage>)
        ensures
            match r {
                Some(image) => {
                    let at = key_position(old(self)@, cache_key(source@));
                    &&& at is Some
                    &&& 0 <= at->0 < old(self)@.len()
                    &&& *image == old(self)@[at->0].image
                    &&& final(self)@ == old(self)@.update(
                        at->0,
                        CacheEntryView { image: *final(image), ..old(self)@[at->0] },
                    )
                },
                None => key_position(old(self)@, cache_key(source@)) is None && final(self)@
                    == old(self)@,
            },
            final(self).max_entries == old(self).max_entries,
            old(self).wf() ==> final(self).wf(),
            lowers_ascii(source@),
    {
        let key = key_of(source);
        match self.find(&key) {
            Some(i) => {
                let entry = &mut self.entries[i];
                Some(&mut entry.image)
            },
            None => None,
        }
    }

    /// The image of a source, for drawing it: the time of use is noted.
    pub fn use_image(&mut self, source: &str, now: u64) -> (r: Option<&mut CachedImage>)
        ensures
            match key_position(old(self)@, cache_key(source@)) {
                Some(at) => {
                    &&& r matches Some(image)
                    &&& *image == (CachedImage { last_used: now, ..old(self)@[at].image })
                    &&& final(self)@ == old(self)@.update(
                        at,
                        CacheEntryView { image: *final(image), ..old(self)@[at] },
                    )
                },
                None => r is None && final(self)@ == old(self)@,
            },
            final(self).max_entries == old(self).max_entries,
            old(self).wf() ==> final(self).wf(),
            lowers_ascii(source@),
    {
        match self.get_mut(source) {
            Some(image) => {
                image.last_used = now;
                Some(image)
            },
            None => None,
        }
    }

    /// Removes every image. Called when the terminal is resized, so that the images are made
    /// ready for the new cell size.
    pub fn invalidate_all(&mut self)
        ensures
            final(self)@ == Seq::<CacheEntryView>::empty(),
            final(self).max_entries == old(self).max_entries,
            final(self).wf(),
    {
        self.entries = Vec::new();
        assert(self@ =~= Seq::<CacheEntryView>::empty());
    }

    /// Removes the image that was used least recently.
    fn evict_lru(&mut self)
        ensures
            final(self)@ == if old(self)@.len() > 0 {
                old(self)@.remove(oldest(old(self)@))
            } else {
                old(self)@
            },
            final(self).max_entries == old(self).max_entries,
    {
        if self.entries.len() == 0 {
            return;
        }
        let mut k: usize = 0;
        let mut i: usize = 1;
        assert(self@.take(1).len() == 1);
        while i < self.entries.len()
            invariant
                self == old(self),
                1 <= i <= self.entries@.len(),
                k < i,
                k == oldest(self@.take(i as int)),
            decreases self.entries@.len() - i,
        {
            assert(self@.take(i + 1).drop_last() =~= self@.take(i as int));
            assert(self@.take(i + 1).last() == self.entries@[i as int]@);
            assert(self@.take(i + 1)[k as int] == self.entries@[k as int]@);
            if self.entries[i].image.last_used < self.entries[k].image.last_used {
                k = i;
            }
            i = i + 1;
        }
        assert(self@.take(self.entries@.len() as int) =~= self@);
        let _gone = self.entries.remove(k);
        assert(self@ =~= old(self)@.remove(k as int));
    }

    /// Puts an image that was made ready on another thread into the cache. One that is there
    /// already is replaced.
    pub fn store(&mut self, source: &str, protocol: StatefulProtocol, now: u64)
        ensures
            final(self).max_entries == old(self).max_entries,
            ({
                let image = CachedImage { protocol, last_used: now };
                final(self)@ == match key_position(old(self)@, cache_key(source@)) {
                    Some(i) => old(self)@.update(
                        i,
                        CacheEntryView { image, ..old(self)@[i] },
                    ),
                    None => inserted(
                        old(self)@,
                        old(self).max_entries as nat,
                        cache_key(source@),
                        image,
                    ),
                }
            }),
            old(self).wf() ==> final(self).wf(),
            lowers_ascii(source@),
    {
        let key = key_of(source);
        let image = CachedImage { protocol, last_used: now };
        if let Some(i) = self.find(&key) {
            let entry = &mut self.entries[i];
            entry.image = image;
            assert(self@ =~= old(self)@.update(
                i as int,
                CacheEntryView { image, ..old(self)@[i as int] },
            ));
            return;
        }
        self.insert(key, image);
    }

    /// Puts an image in under a key that is not there. Where the cache is full, the image that was
    /// used least recently makes room.
    fn insert(&mut self, key: String, image: CachedImage)
        ensures
            final(self).max_entries == old(self).max_entries,
            final(self)@ == inserted(old(self)@, old(self).max_entries as nat, key@, image),
            old(self).wf() && key_position(old(self)@, key@) is None ==> final(self).wf(),
    {
        proof {
            if old(self).wf() && key_position(old(self)@, key@) is None {
                law_keys_stay_distinct(old(self)@, self.max_entries as nat, key@, image);
            }
        }
        if self.entries.len() >= self.max_entries {
            self.evict_lru();
        }
        let ghost room = self@;
        self.entries.push(CacheEntry { key, image });
        assert(self@ =~= room.push(CacheEntryView { key: key@, image }));
    }

    /// Looks a source up and loads it where it is not in the cache.
    ///
    /// A hit notes the time of use. A miss calls `load`; its error is handed on and changes
    /// nothing. A loaded image is made ready for the terminal and put into the cache, where the
    /// image that was used least recently makes room if need be.
    pub fn get_or_load<F: FnOnce() -> Result<DynamicImage, ImageLoadError>>(
        &mut self,
        source: &str,
        picker: &Picker,
        load: F,
        now: u64,
    ) -> (r: Result<&CachedImage, ImageLoadError>)
        requires
            load.requires(()),
        ensures
            final(self).max_entries == old(self).max_entries,
            old(self).wf() ==> final(self).wf(),
            lowers_ascii(source@),
            match key_position(old(self)@, cache_key(source@)) {
                Some(i) => {
                    &&& final(self)@ == touched(old(self)@, i, now)
                    &&& r matches Ok(image) && *image == final(self)@[i].image
                },
                None => exists|loaded: Result<DynamicImage, ImageLoadError>|
                    #[trigger] load.ensures((), loaded) && match loaded {
                        Err(e) => final(self)@ == old(self)@ && r == Err::<&CachedImage, _>(e),
                        Ok(content) => exists|image: CachedImage|
                            image.last_used == now && holds_image(image.protocol, content)
                                && encoded_kind(image.protocol) == picker_kind(*picker)
                                && final(self)@ == inserted(
                                old(self)@,
                                old(self).max_entries as nat,
                                cache_key(source@),
                                image,
                            ) && #[trigger] is_ok_with(r, image),
                    },
            },
    {
        let key = key_of(source);
        if let Some(i) = self.find(&key) {
            let entry = &mut self.entries[i];
            entry.image.last_used = now;
            assert(self@ =~= touched(old(self)@, i as int, now));
            return Ok(&self.entries[i].image);
        }
        let image = match load() {
            Ok(image) => image,
            Err(e) => {
                return Err(e);
            },
        };
        let protocol = encode_image(picker, image);
        let cached = CachedImage { protocol, last_used: now };
        self.insert(key, cached);
        let n: usize = self.entries.len();
        assert(self@.len() == self.entries@.len());
        assert(self.entries@[n - 1]@ == self@.last());
        assert(is_ok_with(Ok::<&CachedImage, ImageLoadError>(&self.entries@[n - 1].image), cached));
        Ok(&self.entries[n - 1].image)
    }
}

/// The result is this image.
pub open spec fn is_ok_with(r: Result<&CachedImage, ImageLoadError>, image: CachedImage) -> bool {
    r matches Ok(i) && *i == image
}

/// The entries after entry `i` was used.
pub open spec fn touched(entries: Seq<CacheEntryView>, i: int, now: u64) -> Seq<CacheEntryView> {
    entries.update(
        i,
        CacheEntryView {
            image: CachedImage { last_used: now, ..entries[i].image },
            ..entries[i]
        },
    )
}

/// The entries after an image was put in.
pub open spec fn inserted(
    entries: Seq<CacheEntryView>,
    max_entries: nat,
    key: Seq<char>,
    image: CachedImage,
) -> Seq<CacheEntryView> {
    with_room(entries, max_entries).push(CacheEntryView { key, image })
}

/// The cache never outgrows its limit.
pub proof fn law_cache_stays_within_limit(
    entries: Seq<CacheEntryView>,
    max_entries: nat,
    key: Seq<char>,
    image: CachedImage,
)
    requires
        0 < max_entries,
        entries.len() <= max_entries,
    ensures
        inserted(entries, max_entries, key, image).len() <= max_entries,
{
    if entries.len() > 0 {
        lemma_oldest(entries);
    }
}

/// The image that makes room is one that was used least recently; all others stay.
pub proof fn law_least_recently_used_makes_room(entries: Seq<CacheEntryView>, max_entries: nat)
    requires
        0 < entries.len(),
        max_entries <= entries.len(),
    ensures
        exists|k: int|
            0 <= k < entries.len() && with_room(entries, max_entries) == #[trigger] entries.remove(
                k,
            ) && forall|i: int|
                0 <= i < entries.len() ==> entries[k].image.last_used <= (
                #[trigger] entries[i]).image.last_used,
{
    lemma_oldest(entries);
    assert(with_room(entries, max_entries) == entries.remove(oldest(entries)));
}

/// Two local sources that differ only in case share one entry: once the one is in the cache, the
/// other is a hit on it and adds nothing.
pub proof fn law_case_variants_share_an_entry(
    entries: Seq<CacheEntryView>,
    max_entries: nat,
    a: Seq<char>,
    b: Seq<char>,
    image: CachedImage,
    now: u64,
)
    requires
        !is_remote(trimmed(a)),
        !is_remote(trimmed(b)),
        lowercased(a) == lowercased(b),
    ensures
        ({
            let stored = inserted(entries, max_entries, cache_key(a), image);
            let last = stored.len() - 1;
            &&& key_position(stored, cache_key(b)) == Some(last)
            &&& stored[last] == (CacheEntryView { key: cache_key(a), image })
            &&& touched(stored, last, now).len() == stored.len()
            &&& key_position(entries, cache_key(a)) == key_position(entries, cache_key(b))
        }),
{
    let stored = inserted(entries, max_entries, cache_key(a), image);
    assert(stored.last() == (CacheEntryView { key: cache_key(a), image }));
}

/// No source is kept twice: putting in a source that was not there keeps the keys distinct.
pub proof fn law_keys_stay_distinct(
    entries: Seq<CacheEntryView>,
    max_entries: nat,
    key: Seq<char>,
    image: CachedImage,
)
    requires
        distinct_keys(entries),
        key_position(entries, key) is None,
    ensures
        distinct_keys(inserted(entries, max_entries, key, image)),
{
    lemma_key_position(entries, key);
    if entries.len() > 0 {
        lemma_oldest(entries);
    }
    let room = with_room(entries, max_entries);
    let after = inserted(entries, max_entries, key, image);
    assert forall|i: int, j: int| 0 <= i < j < after.len() implies (#[trigger] after[i]).key != (
    #[trigger] after[j]).key by {
        let shift = |i: int|
            if room.len() < entries.len() && i >= oldest(entries) {
                i + 1
            } else {
                i
            };
        assert(after[i] == room[i]);
        assert(room[i] == entries[shift(i)]);
        if j < room.len() {
            assert(after[j] == room[j]);
            assert(room[j] == entries[shift(j)]);
        }
    }
}

/// An image that was put in is found under its key, whatever was there before.
pub proof fn law_images_are_found_again(
    entries: Seq<CacheEntryView>,
    max_entries: nat,
    key: Seq<char>,
    image: CachedImage,
)
    ensures
        ({
            let after = inserted(entries, max_entries, key, image);
            &&& key_position(after, key) matches Some(i) && 0 <= i < after.len() && after[i].image
                == image && after[i].key == key
        }),
{
    let after = inserted(entries, max_entries, key, image);
    assert(after.last() == (CacheEntryView { key, image }));
}

/// A key is found exactly where an entry has it, and what is found has that key.
pub proof fn law_lookups_tell_what_is_there(entries: Seq<CacheEntryView>, key: Seq<char>)
    ensures
        key_position(entries, key) is Some <==> exists|i: int|
            0 <= i < entries.len() && (#[trigger] entries[i]).key == key,
        key_position(entries, key) matches Some(i) ==> 0 <= i < entries.len() && entries[i].key
            == key,
{
    lemma_key_position(entries, key);
}

/// While there is room every other image stays in the cache.
pub proof fn law_images_stay_while_there_is_room(
    entries: Seq<CacheEntryView>,
    max_entries: nat,
    key: Seq<char>,
    image: CachedImage,
)
    requires
        entries.len() < max_entries,
    ensures
        inserted(entries, max_entries, key, image).len() == entries.len() + 1,
        inserted(entries, max_entries, key, image).drop_last() == entries,
{
    assert(inserted(entries, max_entries, key, image).drop_last() =~= entries);
}

/// Using an image notes the time and changes nothing else, so that it is the last to make room.
pub proof fn law_using_an_image_notes_the_time(
    entries: Seq<CacheEntryView>,
    i: int,
    now: u64,
    max_entries: nat,
)
    requires
        0 <= i < entries.len(),
    ensures
        ({
            let after = touched(entries, i, now);
            &&& after.len() == entries.len()
            &&& after[i].key == entries[i].key
            &&& after[i].image == (CachedImage { last_used: now, ..entries[i].image })
            &&& forall|k: int| 0 <= k < entries.len() && k != i ==> #[trigger] after[k] == entries[k]
            &&& entries.len() >= max_entries && (forall|k: int|
                0 <= k < entries.len() ==> (#[trigger] entries[k]).image.last_used < now)
                && entries.len() > 1 ==> with_room(after, max_entries).contains(after[i])
        }),
{
    let after = touched(entries, i, now);
    if entries.len() >= max_entries && (forall|k: int|
        0 <= k < entries.len() ==> (#[trigger] entries[k]).image.last_used < now) && entries.len()
        > 1 {
        lemma_oldest(after);
        let o = oldest(after);
        let j = if i == 0 {
            1int
        } else {
            0
        };
        assert(after[j] == entries[j]);
        assert(after[o].image.last_used <= after[j].image.last_used);
        assert(o != i);
        let rest = after.remove(o);
        if i < o {
            assert(rest[i] == after[i]);
        } else {
            assert(rest[i - 1] == after[i]);
        }
    }
}

/// An image is decoded only where neither side has more than eight thousand pixels and the whole
/// takes at most sixty-four megabytes at four bytes per pixel. There is no other reason to refuse
/// one for its size.
pub proof fn law_only_moderate_images_are_decoded(w: u32, h: u32)
    ensures
        size_error(w, h) is None <==> w <= 8000 && h <= 8000 && w * h * 4 <= 67108864,
{
    assert(0 <= w * h * 4) by (nonlinear_arith)
        requires
            w >= 0,
            h >= 0,
    ;
}

/// What is too large is refused before it is decoded, and what is not is what the decoder makes of
/// it.
pub proof fn law_large_images_are_refused_first(
    w: u32,
    h: u32,
    content: Result<DynamicImage, Seq<char>>,
)
    ensures
        size_error(w, h) is Some ==> decoded(Ok(Some((w, h))), content) is Err,
        size_error(w, h) is None ==> (content matches Ok(image) ==> decoded(
            Ok(Some((w, h))),
            content,
        ) == Ok::<_, ImageLoadErrorView>(image)),
        content matches Err(why) ==> decoded(Ok(None), content) == Err::<DynamicImage, _>(
            ImageLoadErrorView::Decode(why),
        ),
        content matches Ok(image) ==> decoded(Ok(None), content) == Ok::<_, ImageLoadErrorView>(
            image,
        ),
{
}

/// A path leads down by each name in it; a step up takes the last name back, and a step to the same
/// place changes nothing. A step up from the start, or a step to somewhere else, is a fault, and no
/// step after a fault mends it.
pub proof fn law_steps_of_a_path(parts: Seq<ComponentView>, name: Seq<char>, next: ComponentView)
    ensures
        descent(parts) matches Ok(names) ==> {
            &&& descent(parts.push(ComponentView::Normal(name))) == Ok::<_, PathFault>(
                names.push(name),
            )
            &&& descent(parts.push(ComponentView::CurDir)) == Ok::<_, PathFault>(names)
            &&& descent(
                parts.push(ComponentView::Normal(name)).push(ComponentView::ParentDir),
            ) == Ok::<_, PathFault>(names)
            &&& names.len() == 0 ==> descent(parts.push(ComponentView::ParentDir)) == Err::<
                Seq<Seq<char>>,
                _,
            >(PathFault::Escapes)
            &&& descent(parts.push(ComponentView::RootDir)) == Err::<Seq<Seq<char>>, _>(
                PathFault::Absolute,
            )
        },
        descent(parts) is Err ==> descent(parts.push(next)) == descent(parts),
        descent(Seq::empty()) == Ok::<_, PathFault>(Seq::<Seq<char>>::empty()),
{
    let down = parts.push(ComponentView::Normal(name));
    assert(down.drop_last() =~= parts);
    assert(parts.push(ComponentView::CurDir).drop_last() =~= parts);
    assert(parts.push(ComponentView::ParentDir).drop_last() =~= parts);
    assert(parts.push(ComponentView::RootDir).drop_last() =~= parts);
    assert(parts.push(next).drop_last() =~= parts);
    assert(down.push(ComponentView::ParentDir).drop_last() =~= down);
    if let Ok(names) = descent(parts) {
        assert(names.push(name).drop_last() =~= names);
    }
}

/// Web addresses are fetched where that is allowed, from exactly that address, and read on only
/// where the answer is an image.
pub proof fn law_remote_images_are_fetched(url: Seq<char>, rest: Seq<char>, why: Seq<char>)
    ensures
        is_remote("http://"@ + rest),
        is_remote("https://"@ + rest),
        remote_step(url, true) == (LoadStepView::Fetch { url }),
        headers_step(url, Ok("image/"@ + rest)) == (LoadStepView::ReadBody { url }),
        headers_step(url, Err(why)) == LoadStepView::Done(Err(ImageLoadErrorView::Fetch(why))),
        !occurs_at(rest, "image/"@, 0) ==> headers_step(url, Ok(rest)) is Done,
{
    assert(("http://"@ + rest).subrange(0, "http://"@.len() as int) =~= "http://"@);
    assert(("https://"@ + rest).subrange(0, "https://"@.len() as int) =~= "https://"@);
    assert(("image/"@ + rest).subrange(0, "image/"@.len() as int) =~= "image/"@);
}

/// A web address is its own key, so that addresses that differ in case are different images.
pub proof fn law_web_addresses_are_their_own_key(source: Seq<char>)
    requires
        is_remote(trimmed(source)),
    ensures
        cache_key(source) == source,
{
}

/// Images are made ready for the protocol that was detected, one kind for each, and for none where
/// they are switched off.
pub proof fn law_each_protocol_has_its_kind(a: DetectedImageProtocol, b: DetectedImageProtocol)
    ensures
        kind_of_protocol(a) is None <==> a is Disabled,
        kind_of_protocol(a) == kind_of_protocol(b) ==> a == b,
        a is Kitty ==> kind_of_protocol(a) == Some(ProtocolKind::Kitty),
        a is Iterm2 ==> kind_of_protocol(a) == Some(ProtocolKind::Iterm2),
        a is Sixel ==> kind_of_protocol(a) == Some(ProtocolKind::Sixel),
        a is HalfBlock ==> kind_of_protocol(a) == Some(ProtocolKind::Halfblocks),
{
}

/// A path that starts somewhere else is refused, whatever the base directory. Without a base
/// directory nothing is found. A path that leads down is found below the base directory.
pub proof fn law_paths_are_resolved_below_the_base(
    path: Seq<char>,
    native: NativePathView,
    base: Result<Seq<char>, Seq<char>>,
    base_parts: Seq<ComponentView>,
)
    ensures
        native.absolute ==> resolved(path, native, base, base_parts) is Err,
        !native.absolute ==> (base matches Err(why) ==> resolved(path, native, base, base_parts)
            == Err::<Seq<char>, _>(ImageLoadErrorView::Io(why))),
        !native.absolute && descent(native.parts) is Err ==> resolved(
            path,
            native,
            base,
            base_parts,
        ) is Err,
        !native.absolute ==> (base matches Ok(b) ==> (descent(native.parts) matches Ok(names)
            ==> resolved(path, native, base, base_parts) == Ok::<_, ImageLoadErrorView>(
            joined_names(b, names, native.separator),
        ))),
{
}

/// The names of a path follow the base directory in order, each one a step further down.
pub proof fn law_names_follow_the_base(
    base: Seq<char>,
    names: Seq<Seq<char>>,
    name: Seq<char>,
    separator: char,
)
    ensures
        joined_names(base, Seq::empty(), separator) == base,
        joined_names(base, names.push(name), separator) == joined_path(
            joined_names(base, names, separator),
            name,
            separator,
        ),
{
    assert(names.push(name).drop_last() =~= names);
}

/// A body of more than twenty megabytes is refused, any other one is decoded, and one that could
/// not be read is reported with the cause.
pub proof fn law_large_bodies_are_refused(bytes: Seq<u8>, why: Seq<char>)
    ensures
        bytes.len() > 20971520 ==> body_result(Ok(bytes)) is Err,
        bytes.len() <= 20971520 ==> body_result(Ok(bytes)) == decoded(
            image_size(bytes),
            image_decoded(bytes),
        ),
        body_result(Err(why)) == Err::<DynamicImage, _>(ImageLoadErrorView::Fetch(why)),
{
}

} // verus!
