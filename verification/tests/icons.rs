use image::ImageEncoder;
use rustcast::icons::{IconLoader, RgbaImage};

fn png(width: u32, height: u32, pixels: &[u8]) -> Vec<u8> {
    let mut data = Vec::new();
    image::codecs::png::PngEncoder::new(&mut data)
        .write_image(pixels, width, height, image::ExtendedColorType::Rgba8)
        .unwrap();
    data
}

fn icon(shade: u8) -> Option<RgbaImage> {
    Some(RgbaImage { width: 1, height: 1, pixels: vec![shade, 0, 0, 255] })
}

fn load(icons: Vec<Option<RgbaImage>>, max_icons: usize, size: usize) -> Vec<Vec<(usize, u8)>> {
    let mut loader = IconLoader::new(icons.len(), max_icons, size);
    let mut icons = icons.into_iter();
    let mut batches = Vec::new();
    while let Some(_) = loader.next_index(false) {
        if let Some(batch) = loader.accept_icon(icons.next().unwrap()) {
            batches.push(batch.iter().map(|(place, icon)| (*place, icon.pixels[0])).collect());
        }
    }
    batches
}

#[test]
fn icons_are_sent_in_batches() {
    let batches = load(vec![icon(1), None, icon(2), icon(3), icon(4), None], 100, 2);
    assert_eq!(batches, vec![vec![(0, 1), (2, 2)], vec![(3, 3), (4, 4)]]);
    let batches = load(vec![icon(1), icon(2), icon(3)], 100, 2);
    assert_eq!(batches, vec![vec![(0, 1), (1, 2)], vec![(2, 3)]]);
}

#[test]
fn no_more_icons_than_the_limit_are_loaded() {
    let batches = load(vec![icon(1), icon(2), icon(3)], 2, 10);
    assert_eq!(batches, vec![vec![(0, 1), (1, 2)]]);
    assert!(load(vec![icon(1)], 0, 10).is_empty());
    assert!(load(vec![None, None], 10, 10).is_empty());
}

#[test]
fn a_new_query_stops_the_loading() {
    let mut loader = IconLoader::new(3, 10, 2);
    assert_eq!(loader.next_index(false), Some(0));
    assert!(loader.accept_icon(icon(1)).is_none());
    assert_eq!(loader.next_index(true), None);
    assert_eq!(loader.next_index(false), Some(1));
}

#[test]
fn icons_are_decoded() {
    let pixels: Vec<u8> = (0u8..24).collect();
    let mut loader = IconLoader::new(4, 10, 1);
    let batch = loader.accept_png(Some(png(3, 2, &pixels))).unwrap();
    assert_eq!(batch.len(), 1);
    assert_eq!(batch[0].0, 0);
    assert_eq!((batch[0].1.width, batch[0].1.height), (3, 2));
    assert_eq!(batch[0].1.pixels, pixels);
    assert!(loader.accept_png(Some(vec![1, 2, 3])).is_none());
    assert!(loader.accept_png(None).is_none());
    let batch = loader.accept_png(Some(png(1, 1, &[9, 8, 7, 6]))).unwrap();
    assert_eq!(batch[0].0, 3);
    assert_eq!(batch[0].1.pixels, [9, 8, 7, 6]);
}
