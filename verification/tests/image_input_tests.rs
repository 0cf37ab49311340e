use sync_image::image_input::{copied_file_count, CopiedFiles};
use sync_image::hotkey_runtime::{hotkey_loop_step, HotkeyLoopStep, HOTKEY_ID};
use sync_image::hotkey::Hotkey;
use sync_image::hotkey_runtime::registration;
use std::path::Path;

use sync_image::image_input::{
    check_copied_file_extension, clipboard_image_to_png, copied_file_to_png, CopiedFormat,
    ImageInputError, ImageSource,
};

#[test]
fn labels_sources() {
    assert_eq!(ImageSource::ClipboardImage.label(), "clipboard image");
    assert_eq!(ImageSource::CopiedFile.label(), "copied file");
}

#[test]
fn accepts_png_and_jpeg_extensions_only() {
    for ok in ["png", "PNG", "jpg", "JpEg"] {
        assert!(check_copied_file_extension(ok).is_ok(), "{ok}");
    }
    let err = check_copied_file_extension("webp").expect_err("unsupported");
    assert!(err.fixed_message().unwrap().contains("PNG and JPEG"));
    assert!(check_copied_file_extension("").is_err());
}

#[test]
fn encodes_clipboard_pixels_as_png() {
    let captured = clipboard_image_to_png(1, 1, vec![255, 0, 0, 255]).expect("png");
    assert_eq!(captured.source, ImageSource::ClipboardImage);
    assert_eq!(&captured.png_bytes[..8], &[0x89, b'P', b'N', b'G', 0x0d, 0x0a, 0x1a, 0x0a]);
}

#[test]
fn refuses_short_pixel_buffers() {
    let err = clipboard_image_to_png(2, 2, vec![0; 15]).expect_err("too short");
    assert!(matches!(err, ImageInputError::BufferSizeMismatch));
    assert_eq!(
        err.fixed_message().as_deref(),
        Some("clipboard image buffer has an unexpected size")
    );
}

#[test]
fn registers_modifier_flags_and_key_code() {
    let r = registration(&Hotkey::parse("Ctrl+Alt+U").unwrap());
    assert_eq!(r.modifiers, 3);
    assert_eq!(r.key_code, 'U' as u32);
    let r = registration(&Hotkey::parse("Shift+Ctrl+9").unwrap());
    assert_eq!(r.modifiers, 6);
    assert_eq!(r.key_code, 0x39);
}

#[test]
fn rejects_unsupported_file_extension_before_decode() {
    let extension = Path::new("example.webp").extension().unwrap().to_str().unwrap();
    let err = check_copied_file_extension(extension).expect_err("unsupported");
    assert!(err.fixed_message().unwrap().contains("PNG and JPEG"));
}

#[test]
fn names_the_format_of_an_extension() {
    assert_eq!(check_copied_file_extension("Png").unwrap(), CopiedFormat::Png);
    assert_eq!(check_copied_file_extension("jpg").unwrap(), CopiedFormat::Jpeg);
    assert_eq!(check_copied_file_extension("JPEG").unwrap(), CopiedFormat::Jpeg);
}

#[test]
fn normalizes_a_copied_png_file() {
    let png = clipboard_image_to_png(2, 1, vec![1, 2, 3, 255, 4, 5, 6, 255]).unwrap().png_bytes;
    let captured = copied_file_to_png(CopiedFormat::Png, &png).expect("png");
    assert_eq!(captured.source, ImageSource::CopiedFile);
    assert_eq!(&captured.png_bytes[..8], &[0x89, b'P', b'N', b'G', 0x0d, 0x0a, 0x1a, 0x0a]);
    assert_ne!(captured.png_bytes, b"not an image".to_vec());
}

#[test]
fn refuses_contents_that_do_not_decode() {
    let err = copied_file_to_png(CopiedFormat::Png, b"not an image").expect_err("garbage");
    assert!(matches!(err, ImageInputError::Decode(_)));
    assert!(err.fixed_message().is_none());
    let png = clipboard_image_to_png(1, 1, vec![0, 0, 0, 255]).unwrap().png_bytes;
    let err = copied_file_to_png(CopiedFormat::Jpeg, &png).expect_err("not a jpeg");
    assert!(matches!(err, ImageInputError::Decode(_)));
}

#[test]
fn refuses_long_pixel_buffers() {
    let err = clipboard_image_to_png(1, 1, vec![0; 5]).expect_err("too long");
    assert!(matches!(err, ImageInputError::BufferSizeMismatch));
}

#[test]
fn decides_on_the_number_of_copied_files() {
    assert!(matches!(copied_file_count(0), Ok(CopiedFiles::NoFile)));
    assert!(matches!(copied_file_count(1), Ok(CopiedFiles::OneFile)));
    let err = copied_file_count(2).expect_err("two files");
    assert_eq!(err.fixed_message().as_deref(), Some("multiple copied files are not supported"));
}

#[test]
fn hotkey_thread_steps() {
    assert_eq!(hotkey_loop_step(-1, 786, HOTKEY_ID as usize), HotkeyLoopStep::Fail);
    assert_eq!(hotkey_loop_step(0, 786, HOTKEY_ID as usize), HotkeyLoopStep::Stop);
    assert_eq!(hotkey_loop_step(1, 786, 0x4349), HotkeyLoopStep::Trigger);
    assert_eq!(hotkey_loop_step(1, 786, 7), HotkeyLoopStep::Ignore);
    assert_eq!(hotkey_loop_step(1, 0x0200, 0x4349), HotkeyLoopStep::Ignore);
}

#[test]
fn a_png_reencodes_to_the_same_picture_size() {
    let png = clipboard_image_to_png(3, 2, vec![9; 24]).unwrap().png_bytes;
    let again = copied_file_to_png(CopiedFormat::Png, &png).unwrap().png_bytes;
    assert_eq!(&again[16..24], &png[16..24]);
}
