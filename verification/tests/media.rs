use std::io::Cursor;

use open_public::media::{
    asset_headers, asset_path, check_upload_size, is_valid_sha, may_view, process, AssetError,
    MAX_IMAGE_BYTES,
};
use open_public::auth::AuthSession;

// A 2x3 red PNG, built in-memory, exercises the real decode + re-encode path.
fn tiny_png() -> Vec<u8> {
    let img = image::RgbImage::from_pixel(2, 3, image::Rgb([200, 10, 10]));
    let mut buf = Vec::new();
    image::DynamicImage::ImageRgb8(img)
        .write_to(&mut Cursor::new(&mut buf), image::ImageFormat::Png)
        .unwrap();
    buf
}

fn tiny_transparent_png() -> Vec<u8> {
    let img = image::RgbaImage::from_pixel(3, 1, image::Rgba([0, 0, 255, 100]));
    let mut buf = Vec::new();
    image::DynamicImage::ImageRgba8(img)
        .write_to(&mut Cursor::new(&mut buf), image::ImageFormat::Png)
        .unwrap();
    buf
}

#[test]
fn processes_a_valid_png_into_a_normalized_image() {
    let p = process(&tiny_png()).ok().unwrap();
    assert_eq!(p.width, 2);
    assert_eq!(p.height, 3);
    // No alpha, so it becomes JPEG; the hash is over the re-encoded bytes.
    assert_eq!(p.mime, "image/jpeg");
    assert_eq!(p.sha.len(), 64);
    assert!(p.sha.bytes().all(|b| b.is_ascii_hexdigit()));
}

#[test]
fn rejects_non_images_and_svg() {
    assert!(matches!(
        process(b"not an image"),
        Err(AssetError::Rejected(_))
    ));
    let svg = br#"<svg xmlns="http://www.w3.org/2000/svg"><script>alert(1)</script></svg>"#;
    assert!(matches!(process(svg), Err(AssetError::Rejected(_))));
}

#[test]
fn identical_bytes_hash_identically() {
    let a = process(&tiny_png()).ok().unwrap();
    let b = process(&tiny_png()).ok().unwrap();
    assert_eq!(a.sha, b.sha);
}

#[test]
fn asset_path_sharded_by_prefix() {
    let p = asset_path("/data", "abcdef0000");
    assert_eq!(p, "/data/ab/abcdef0000");
    assert_eq!(asset_path("/data/", "abcdef0000"), "/data/ab/abcdef0000");
}

#[test]
fn transparency_is_kept_as_png() {
    let p = process(&tiny_transparent_png()).ok().unwrap();
    assert_eq!(p.mime, "image/png");
    assert_eq!((p.width, p.height), (3, 1));
    assert!(is_valid_sha(&p.sha));
}

#[test]
fn a_gif_is_refused_by_name() {
    match process(b"GIF89a\x01\x00\x01\x00") {
        Err(AssetError::Rejected(m)) => {
            assert_eq!(m, "only PNG, JPEG, or WebP images are accepted")
        }
        _ => panic!("a GIF must be refused"),
    }
    match process(b"plain text") {
        Err(AssetError::Rejected(m)) => assert_eq!(m, "the file is not a recognized image"),
        _ => panic!("text must be refused"),
    }
}

#[test]
fn upload_sizes_are_checked_before_decoding() {
    match check_upload_size(0) {
        Err(AssetError::Rejected(m)) => assert_eq!(m, "the image was empty"),
        _ => panic!("an empty upload must be refused"),
    }
    match check_upload_size(MAX_IMAGE_BYTES + 1) {
        Err(AssetError::Rejected(m)) => assert_eq!(m, "the image is too large (5 MB maximum)"),
        _ => panic!("an oversized upload must be refused"),
    }
    assert!(check_upload_size(MAX_IMAGE_BYTES).is_ok());
}

#[test]
fn only_hex_names_of_the_right_length_are_served() {
    assert!(is_valid_sha(&"a".repeat(64)));
    assert!(is_valid_sha(&"AbC0".repeat(16)));
    assert!(!is_valid_sha(&"a".repeat(63)));
    assert!(!is_valid_sha(&format!("../{}", "a".repeat(61))));
}

#[test]
fn unpublished_assets_are_private_to_uploader_and_admins() {
    let uploader = AuthSession { user_id: 7, is_admin: false, session_id: 1 };
    let other = AuthSession { user_id: 8, is_admin: false, session_id: 2 };
    let admin = AuthSession { user_id: 9, is_admin: true, session_id: 3 };
    assert!(may_view(true, 7, None));
    assert!(!may_view(false, 7, None));
    assert!(may_view(false, 7, Some(&uploader)));
    assert!(!may_view(false, 7, Some(&other)));
    assert!(may_view(false, 7, Some(&admin)));
    let h = asset_headers(true, "image/png", "abc");
    assert_eq!(h.cache_control, "public, max-age=31536000, immutable");
    assert_eq!(h.disposition, "inline; filename=\"abc.png\"");
    let h = asset_headers(false, "image/jpeg", "abc");
    assert_eq!(h.cache_control, "private, no-store");
    assert_eq!(h.disposition, "inline; filename=\"abc.jpg\"");
}

#[test]
fn a_large_image_is_shrunk_to_fit_and_keeps_its_shape() {
    let img = image::RgbImage::from_pixel(2000, 10, image::Rgb([10, 200, 10]));
    let mut buf = Vec::new();
    image::DynamicImage::ImageRgb8(img)
        .write_to(&mut Cursor::new(&mut buf), image::ImageFormat::Png)
        .unwrap();
    let p = process(&buf).ok().unwrap();
    assert_eq!((p.width, p.height), (1600, 8));
    assert_eq!(p.mime, "image/jpeg");
}

#[test]
fn a_transparent_image_stays_png_at_its_size() {
    let p = process(&tiny_transparent_png()).ok().unwrap();
    assert_eq!((p.width, p.height), (3, 1));
    assert_eq!(p.mime, "image/png");
    // The stored bytes are a PNG: they start with its signature.
    assert_eq!(&p.bytes[..8], &[0x89, b'P', b'N', b'G', 0x0d, 0x0a, 0x1a, 0x0a]);
}
