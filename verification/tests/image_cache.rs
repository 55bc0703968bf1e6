use alloy::image_cache::{
    ImageCache, ImageLoadError, LoadStep, MAX_REMOTE_IMAGE_BYTES, ProtocolKind, after_body,
    after_file, after_headers, check_size, decode_bytes, kind_of_picker, load_image, load_local,
    load_remote, resolve_read_path, resolve_safe_image_path,
};
use alloy::image_encoder::{EncodeQueue, EncodeRequest, encode};
use alloy::paths::{Component, NativePath, read_path};
use image::{DynamicImage, ImageFormat};
use ratatui::layout::Size;
use ratatui_image::Resize;
use ratatui_image::picker::{Picker, ProtocolType};

fn png(width: u32, height: u32) -> Vec<u8> {
    let mut bytes = std::io::Cursor::new(Vec::new());
    DynamicImage::new_rgb8(width, height).write_to(&mut bytes, ImageFormat::Png).unwrap();
    bytes.into_inner()
}

fn image(width: u32) -> Result<DynamicImage, ImageLoadError> {
    Ok(DynamicImage::new_rgb8(width, 1))
}

#[test]
fn cache_starts_empty() {
    let cache = ImageCache::new(10);

    assert_eq!(cache.entries.len(), 0);
    assert!(cache.entries.is_empty());
}

#[test]
fn load_nonexistent_path_returns_io_error_not_panic() {
    // Refused before anything is read: the path is absolute.
    let result = match load_local("/nonexistent/path/image.png", &base()) {
        LoadStep::Done(result) => result,
        LoadStep::ReadFile { .. } => after_file(Err("no such file".to_string())),
        _ => panic!("a local image is never fetched"),
    };
    assert!(
        matches!(result, Err(ImageLoadError::Io(_))),
        "expected Io error for missing file, got: {result:?}"
    );

    let result = after_file(Err("no such file".to_string()));
    assert!(matches!(result, Err(ImageLoadError::Io(_))));
}

#[test]
fn remote_fetch_disabled_returns_error() {
    let result = match load_remote("https://example.com/image.png", false) {
        LoadStep::Done(result) => result,
        _ => panic!("nothing may be fetched"),
    };

    assert!(
        matches!(result, Err(ImageLoadError::RemoteFetchDisabled)),
        "expected RemoteFetchDisabled, got: {result:?}"
    );
}

#[test]
fn load_local_png_decodes_correctly() {
    match load_local("tests/fixtures/test_image.png", &base()) {
        LoadStep::ReadFile { path } => {
            assert_eq!(path, "/home/user/notes/tests/fixtures/test_image.png");
        }
        _ => panic!("expected a file to be read"),
    }
    let result = after_file(Ok(png(3, 2)));

    assert!(result.is_ok(), "expected Ok, got: {result:?}");
    let img = result.unwrap();
    assert_eq!((img.width(), img.height()), (3, 2));
}

#[test]
fn decode_corrupt_bytes_returns_decode_error() {
    let garbage = b"this is not an image";
    let result = decode_bytes(garbage);

    assert!(
        matches!(result, Err(ImageLoadError::Decode(_))),
        "expected Decode error for corrupt bytes"
    );
}

#[test]
fn invalidate_all_clears_entries() {
    let mut cache = ImageCache::new(10);
    cache.get_or_load("a.png", &Picker::halfblocks(), || image(1), 1).unwrap();
    assert_eq!(cache.entries.len(), 1);
    cache.invalidate_all();

    assert!(cache.entries.is_empty());
    assert_eq!(cache.max_entries, 10);
}

fn base() -> Result<String, String> {
    Ok("/home/user/notes".to_string())
}

#[test]
fn allows_sibling_image() {
    assert!(resolve_safe_image_path("img.png", &base()).is_ok());
}

#[test]
fn allows_subdir_image() {
    assert!(resolve_safe_image_path("assets/fig.png", &base()).is_ok());
}

#[test]
fn allows_nested_subdir() {
    assert!(resolve_safe_image_path("a/b/c/photo.jpg", &base()).is_ok());
}

#[test]
fn allows_same_dir_dot() {
    assert!(resolve_safe_image_path("./img.png", &base()).is_ok());
}

#[test]
fn blocks_single_parent_escape() {
    assert!(resolve_safe_image_path("../secret.png", &base()).is_err());
}

#[test]
fn blocks_deep_escape() {
    assert!(resolve_safe_image_path("a/../../etc/passwd", &base()).is_err());
}

#[test]
fn blocks_absolute_path() {
    assert!(resolve_safe_image_path("/etc/passwd", &base()).is_err());
}

#[test]
fn blocks_root_only() {
    assert!(resolve_safe_image_path("/", &base()).is_err());
}

// Paths

#[test]
fn resolved_paths_lie_in_the_directory() {
    assert_eq!(
        resolve_safe_image_path("./a/../b/./img.png", &base()).unwrap(),
        "/home/user/notes/b/img.png"
    );
    assert!(resolve_safe_image_path("img.png", &Err("no directory".to_string())).is_err());
}

#[test]
fn drives_and_shares_are_rejected() {
    let native = NativePath {
        absolute: false,
        separator: '/',
        parts: vec![Component::Prefix("C:".to_string()), Component::Normal("x.png".to_string())],
    };
    let base_parts = read_path("/home/user/notes").parts;
    let e = resolve_read_path("C:x.png", &native, &base(), &base_parts).unwrap_err();
    assert_eq!(e.message(), "I/O error: absolute component in image path: \"C:x.png\"");

    let climbing = NativePath {
        absolute: false,
        separator: '/',
        parts: vec![Component::ParentDir, Component::Normal("x.png".to_string())],
    };
    let e = resolve_read_path("..\\x.png", &climbing, &base(), &base_parts).unwrap_err();
    assert!(e.message().contains("escapes document directory"), "{}", e.message());
    let root = Ok("/".to_string());
    let e = resolve_read_path("../x.png", &climbing, &root, &read_path("/").parts).unwrap_err();
    assert!(e.message().contains("reached root"), "{}", e.message());

    let absolute = NativePath { absolute: true, separator: '/', parts: vec![Component::RootDir] };
    let e = resolve_read_path("/", &absolute, &base(), &base_parts).unwrap_err();
    assert!(e.message().contains("absolute image paths"), "{}", e.message());
}

#[test]
fn names_are_joined_as_the_platform_does() {
    let native = NativePath {
        absolute: false,
        separator: '\\',
        parts: vec![
            Component::Normal("a".to_string()),
            Component::ParentDir,
            Component::Normal("b".to_string()),
            Component::Normal("c.png".to_string()),
        ],
    };
    let dir = Ok("C:\\notes".to_string());
    assert_eq!(
        resolve_read_path("a/../b/c.png", &native, &dir, &Vec::new()).unwrap(),
        "C:\\notes\\b\\c.png"
    );
    assert_eq!(read_path("a").separator, std::path::MAIN_SEPARATOR);
}

#[test]
fn paths_are_read_in_components() {
    let path = read_path("./a//b/../c.png");
    assert!(!path.absolute);
    assert!(matches!(
        path.parts.as_slice(),
        [
            Component::CurDir,
            Component::Normal(a),
            Component::Normal(b),
            Component::ParentDir,
            Component::Normal(c)
        ] if a == "a" && b == "b" && c == "c.png"
    ));
    assert!(matches!(read_path("/").parts.as_slice(), [Component::RootDir]));
}

// Loading

#[test]
fn remote_images_are_fetched_in_steps() {
    let url = "https://example.com/a.png";
    assert!(matches!(load_image("  https://example.com/a.png ", true, &base()),
        LoadStep::Fetch { url: u } if u == url));
    assert!(matches!(load_image("a.png", true, &base()), LoadStep::ReadFile { .. }));

    assert!(matches!(after_headers(url, Ok("image/png".to_string())),
        LoadStep::ReadBody { url: u } if u == url));
    assert!(matches!(
        after_headers(url, Ok("text/html".to_string())),
        LoadStep::Done(Err(ImageLoadError::Fetch(_)))
    ));
    assert!(matches!(
        after_headers(url, Err("timeout".to_string())),
        LoadStep::Done(Err(ImageLoadError::Fetch(_)))
    ));

    assert!(after_body(Ok(png(2, 2))).is_ok());
    assert!(matches!(after_body(Err("cut off".to_string())), Err(ImageLoadError::Fetch(_))));
    assert!(matches!(
        after_body(Ok(vec![0; MAX_REMOTE_IMAGE_BYTES + 1])),
        Err(ImageLoadError::Fetch(_))
    ));
}

#[test]
fn large_images_are_refused_before_they_are_decoded() {
    assert!(check_size(1, 1).is_ok());
    let e = check_size(100_000, 1).unwrap_err();
    assert!(matches!(&e, ImageLoadError::Decode(_)));
    assert!(e.message().contains("100000"), "{}", e.message());
    assert!(check_size(4_096, 4_096).is_ok());
    assert!(check_size(4_097, 4_096).is_err());
    assert!(matches!(decode_bytes(&png(20_000, 1)), Err(ImageLoadError::Decode(_))));
}

#[test]
fn image_error_messages() {
    assert_eq!(ImageLoadError::Io("x".to_string()).message(), "I/O error: x");
    for e in [
        ImageLoadError::Decode("x".to_string()),
        ImageLoadError::Fetch("x".to_string()),
    ] {
        assert!(e.message().ends_with("x"), "{}", e.message());
    }
    assert!(!ImageLoadError::RemoteFetchDisabled.message().is_empty());
}

// The cache

#[test]
fn the_least_recently_used_image_makes_room() {
    let picker = Picker::halfblocks();
    let mut cache = ImageCache::new(2);
    cache.get_or_load("a.png", &picker, || image(1), 1).unwrap();
    cache.get_or_load("b.png", &picker, || image(2), 2).unwrap();
    cache.get_or_load("a.png", &picker, || panic!("already loaded"), 3).unwrap();
    cache.get_or_load("c.png", &picker, || image(3), 4).unwrap();
    assert_eq!(cache.entries.len(), 2);
    assert!(cache.get_mut("b.png").is_none());
    assert_eq!(cache.get_mut("a.png").unwrap().last_used, 3);
    assert_eq!(cache.get_mut("c.png").unwrap().last_used, 4);
}

#[test]
fn images_from_the_encoder_are_stored() {
    let picker = Picker::halfblocks();
    let mut cache = ImageCache::new(2);
    for (key, now) in [("a.png", 1), ("b.png", 2), ("A.png", 3), ("c.png", 4)] {
        let request = EncodeRequest { key: key.to_string(), image: image(1).unwrap() };
        let result = encode(&picker, request);
        cache.store(&result.key, result.protocol, now);
    }
    assert_eq!(cache.entries.len(), 2);
    assert!(cache.get_mut("b.png").is_none());
    assert_eq!(cache.get_mut("a.png").unwrap().last_used, 3);
    assert_eq!(cache.get_mut("c.png").unwrap().last_used, 4);
}

#[test]
fn failed_loads_are_not_kept() {
    let picker = Picker::halfblocks();
    let mut cache = ImageCache::new(2);
    let r = cache.get_or_load(
        "a.png",
        &picker,
        || Err(ImageLoadError::Decode("broken".to_string())),
        1,
    );
    assert!(matches!(r, Err(ImageLoadError::Decode(_))));
    assert!(cache.entries.is_empty());
}

#[test]
fn local_paths_are_looked_up_without_case() {
    let picker = Picker::halfblocks();
    let mut cache = ImageCache::new(4);
    cache.get_or_load("Pics/A.PNG", &picker, || image(1), 1).unwrap();
    assert!(cache.get_mut("pics/a.png").is_some());
    cache.get_or_load("https://x.y/A.png", &picker, || image(1), 2).unwrap();
    assert!(cache.get_mut("https://x.y/a.png").is_none());
    assert!(cache.get_mut("https://x.y/A.png").is_some());
}

#[test]
fn encoded_images_carry_the_key_of_their_request() {
    let request = EncodeRequest { key: "k.png".to_string(), image: image(1).unwrap() };
    assert_eq!(encode(&Picker::halfblocks(), request).key, "k.png");
}

#[test]
fn images_are_encoded_for_the_protocol_of_the_picker() {
    let kinds = [
        (ProtocolType::Halfblocks, ProtocolKind::Halfblocks),
        (ProtocolType::Sixel, ProtocolKind::Sixel),
        (ProtocolType::Kitty, ProtocolKind::Kitty),
        (ProtocolType::Iterm2, ProtocolKind::Iterm2),
    ];
    for (protocol, kind) in kinds {
        let mut picker = Picker::halfblocks();
        picker.set_protocol_type(protocol);
        assert!(kind_of_picker(&picker) == kind);

        let mut cache = ImageCache::new(2);
        let loaded = cache.get_or_load("a.png", &picker, || image(1), 1).unwrap();
        assert!(loaded.kind() == kind);

        let request = EncodeRequest { key: "b.png".to_string(), image: image(1).unwrap() };
        cache.store("b.png", encode(&picker, request).protocol, 2);
        assert!(cache.get_mut("b.png").unwrap().kind() == kind);
    }
}

#[test]
fn drawing_an_image_counts_as_use() {
    let picker = Picker::halfblocks();
    let mut cache = ImageCache::new(2);
    cache.get_or_load("a.png", &picker, || image(1), 1).unwrap();
    cache.get_or_load("b.png", &picker, || image(1), 2).unwrap();
    assert_eq!(cache.use_image("A.PNG", 3).unwrap().last_used, 3);
    assert!(cache.use_image("c.png", 4).is_none());
    cache.get_or_load("c.png", &picker, || image(1), 5).unwrap();
    assert!(cache.get_mut("a.png").is_some());
    assert!(cache.get_mut("b.png").is_none());
}

#[test]
fn images_are_kept_once() {
    let picker = Picker::halfblocks();
    let mut cache = ImageCache::new(3);
    for (source, now) in [("a.png", 1), ("A.png", 2), ("b.png", 3), ("a.PNG", 4)] {
        cache.get_or_load(source, &picker, || image(1), now).unwrap();
    }
    let keys: Vec<&str> = cache.entries.iter().map(|e| e.key.as_str()).collect();
    assert_eq!(keys, vec!["a.png", "b.png"]);
    assert_eq!(cache.get_mut("a.png").unwrap().last_used, 4);
}

#[test]
fn an_image_is_asked_for_once() {
    let mut queue = EncodeQueue::new();
    assert!(!queue.is_waiting("a.png"));
    queue.sent("a.png");
    queue.sent("b.png");
    assert!(queue.is_waiting("a.png"));
    assert!(!queue.is_waiting("c.png"));
    queue.received("a.png");
    assert!(!queue.is_waiting("a.png"));
    assert!(queue.is_waiting("b.png"));
    queue.received("c.png");
    assert_eq!(queue.waiting, vec!["b.png"]);
}

#[test]
fn image_errors_can_be_copied() {
    let error = ImageLoadError::Decode("broken".to_string());
    assert_eq!(error.clone().message(), error.message());
}

#[test]
fn the_loaded_image_is_the_one_that_is_drawn() {
    let picker = Picker::halfblocks();
    let mut cache = ImageCache::new(4);
    let room = Size::new(50, 50);
    for (key, width, height) in [("a.png", 100, 100), ("b.png", 200, 40)] {
        let content = DynamicImage::new_rgb8(width, height);
        let loaded = cache.get_or_load(key, &picker, || Ok(content.clone()), 1).unwrap();
        let expected = Size::new((width / 10) as u16, (height / 20) as u16);
        assert_eq!(loaded.protocol.size_for(Resize::Fit(None), room), expected);

        let request = EncodeRequest { key: key.to_string(), image: content };
        let encoded = encode(&picker, request);
        assert_eq!(encoded.protocol.size_for(Resize::Fit(None), room), expected);
    }
}

#[test]
fn web_addresses_keep_their_case_with_space_around_them() {
    let picker = Picker::halfblocks();
    let mut cache = ImageCache::new(4);
    cache.get_or_load(" https://x.y/A.png", &picker, || image(1), 1).unwrap();
    assert_eq!(cache.entries[0].key, " https://x.y/A.png");
    assert!(cache.get_mut(" https://x.y/a.png").is_none());
    cache.get_or_load(" Pic.PNG", &picker, || image(1), 2).unwrap();
    assert_eq!(cache.entries[1].key, " pic.png");
}
