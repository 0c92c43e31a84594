use img_rename::convert::ConvertError;
use img_rename::driver::{EntryEvent, FileOutcome, Run, Severity};
use image::{DynamicImage, ImageFormat, RgbImage};

fn encoded(w: u32, h: u32, format: ImageFormat) -> Vec<u8> {
    let img = DynamicImage::ImageRgb8(RgbImage::new(w, h));
    let mut out = std::io::Cursor::new(Vec::new());
    img.write_to(&mut out, format).unwrap();
    out.into_inner()
}

#[test]
fn index_moves_only_on_written() {
    let mut run = Run::new(10);
    assert_eq!(run.record(EntryEvent::WalkFailed), Severity::Error);
    assert_eq!(run.record(EntryEvent::Directory), Severity::Warn);
    assert_eq!(run.record(EntryEvent::NotImage), Severity::Warn);
    assert_eq!(run.record(EntryEvent::ConversionFailed(ConvertError::Encode)), Severity::Error);
    assert_eq!(run.index, 10);
    assert_eq!(run.record(EntryEvent::Written), Severity::Info);
    assert_eq!(run.index, 11);
}

#[test]
fn non_image_leaves_index() {
    let run = Run::new(1);
    assert!(matches!(run.process_file(b"plain text", "png"), FileOutcome::NotImage));
    assert!(matches!(run.process_file(&[], "png"), FileOutcome::NotImage));
    assert_eq!(run.index, 1);
}

#[test]
fn image_with_unknown_format_fails() {
    let run = Run::new(1);
    let png = encoded(2, 2, ImageFormat::Png);
    assert!(matches!(run.process_file(&png, "bogus"), FileOutcome::Failed(ConvertError::UnsupportedFormat)));
}

#[test]
fn image_is_converted_under_index() {
    let run = Run::new(42);
    let png = encoded(5, 7, ImageFormat::Png);
    match run.process_file(&png, "webp") {
        FileOutcome::Converted { name, data } => {
            assert!(name.ends_with("00042.webp"));
            assert_eq!(name.len(), 32);
            assert_eq!(image::guess_format(&data).unwrap(), ImageFormat::WebP);
        }
        other => panic!("unexpected outcome {:?}", other),
    }
}

#[test]
fn tree_of_mixed_entries() {
    // root directory, two PNGs, one JPEG, notes.txt, a subdirectory and a PNG in it
    let png_a = encoded(3, 3, ImageFormat::Png);
    let png_b = encoded(4, 2, ImageFormat::Png);
    let jpeg = encoded(6, 6, ImageFormat::Jpeg);
    let notes = b"remember the milk".to_vec();
    let png_c = encoded(1, 1, ImageFormat::Png);
    let entries: Vec<Option<Vec<u8>>> = vec![None, Some(png_a), Some(png_b), Some(jpeg), Some(notes), None, Some(png_c)];

    let mut run = Run::new(1);
    let mut outputs: Vec<String> = Vec::new();
    let mut not_image_warnings = 0;
    let mut directory_skips = 0;
    for entry in &entries {
        let ev = match entry {
            None => {
                directory_skips += 1;
                EntryEvent::Directory
            }
            Some(contents) => match run.process_file(contents, "webp") {
                FileOutcome::NotImage => {
                    not_image_warnings += 1;
                    EntryEvent::NotImage
                }
                FileOutcome::Failed(e) => EntryEvent::ConversionFailed(e),
                FileOutcome::Converted { name, data } => {
                    assert!(image::load_from_memory(&data).is_ok());
                    outputs.push(name);
                    EntryEvent::Written
                }
            },
        };
        run.record(ev);
    }
    assert_eq!(outputs.len(), 4);
    assert!(outputs.iter().all(|n| n.ends_with(".webp")));
    assert!(outputs[0].ends_with("00001.webp"));
    assert!(outputs[3].ends_with("00004.webp"));
    assert_eq!(run.index, 5);
    assert_eq!(not_image_warnings, 1);
    assert_eq!(directory_skips, 2);
}
