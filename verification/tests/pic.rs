use std::io::Cursor;

use jotabot::commands::pic::{avatar_source, overlay_images, register, run, PicError, Picture};

fn png(width: u32, height: u32, pixels: Vec<u8>) -> Vec<u8> {
    let img = image::RgbaImage::from_raw(width, height, pixels).unwrap();
    let mut out = Cursor::new(Vec::new());
    img.write_to(&mut out, image::ImageOutputFormat::Png).unwrap();
    out.into_inner()
}

fn pixels_of(png_bytes: &[u8]) -> (u32, u32, Vec<u8>) {
    assert_eq!(&png_bytes[..8], b"\x89PNG\r\n\x1a\n");
    let img = image::load_from_memory(png_bytes).unwrap().to_rgba8();
    (img.width(), img.height(), img.into_raw())
}

#[test]
fn avatar_with_transparent_overlay_is_unchanged() {
    let avatar = vec![255, 0, 0, 255, 0, 255, 0, 255];
    let r = run(&png(2, 1, avatar.clone()), &png(1, 1, vec![0, 0, 0, 0])).ok().unwrap();
    assert_eq!(pixels_of(&r), (2, 1, avatar));
}

#[test]
fn opaque_overlay_covers_the_corner() {
    let avatar = vec![255, 0, 0, 255, 0, 255, 0, 255];
    let r = run(&png(2, 1, avatar), &png(1, 1, vec![0, 0, 255, 255])).ok().unwrap();
    assert_eq!(pixels_of(&r), (2, 1, vec![0, 0, 255, 255, 0, 255, 0, 255]));
}

#[test]
fn undecodable_images_are_errors() {
    let ok = png(1, 1, vec![1, 2, 3, 255]);
    match run(b"not an image", &ok) {
        Err(PicError::Image(m)) => assert!(!m.is_empty()),
        _ => panic!("expected an image error"),
    }
    assert!(matches!(run(&ok, b"junk"), Err(PicError::Image(_))));
    assert_eq!(PicError::NoAvatar.message(), "No avatar");
    let gif = b"GIF89a\x01\x00\x01\x00\x00\x00\x00;".to_vec();
    assert!(matches!(run(&gif, &ok), Err(PicError::Image(_))));
    assert!(matches!(run(&ok[..ok.len() - 20], &ok), Err(PicError::Image(_))));
}

#[test]
fn avatar_address() {
    assert!(matches!(avatar_source(42, None), Err(PicError::NoAvatar)));
    assert_eq!(
        avatar_source(123456789012345678, Some("a_0123abcd".to_string())).ok(),
        Some("https://cdn.discordapp.com/avatars/123456789012345678/a_0123abcd.png?size=1024".to_string())
    );
}

#[test]
fn overlay_on_blank_canvas() {
    let pfp = Picture { width: 1, height: 2, pixels: vec![10, 20, 30, 255, 40, 50, 60, 255] };
    let sign = Picture { width: 3, height: 3, pixels: vec![0; 36] };
    let r = overlay_images(&pfp, &sign);
    assert_eq!((r.width, r.height), (1, 2));
    assert_eq!(r.pixels, pfp.pixels);
    let blank = Picture::blank(2, 2);
    assert_eq!(blank.pixels, vec![0; 16]);
}

#[test]
fn pic_registration() {
    let c = register();
    assert_eq!(c.name, "foto");
    assert_eq!(c.description, "Change the profile picture of the bot");
    assert!(c.options.is_empty());
}

#[test]
fn large_avatar_round_trips() {
    let (w, h) = (1024u32, 1024u32);
    let avatar: Vec<u8> = (0..w * h * 4).map(|i| if i % 4 == 3 { 255 } else { (i % 251) as u8 }).collect();
    let r = run(&png(w, h, avatar.clone()), &png(1, 1, vec![0, 0, 0, 0])).ok().unwrap();
    assert_eq!(pixels_of(&r), (w, h, avatar));
}
