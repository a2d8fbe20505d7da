use std::io::Cursor;

use petto::animation::{AnimationClip, AnimationConfig};
use petto::assets::{
    dotted, frame_label, is_image, pick_frames, plan_clips, read_picture, split_id, FrameFile,
};

fn file(folder: &str, file: &str) -> FrameFile {
    FrameFile { folder: folder.to_string(), file: file.to_string() }
}

#[test]
fn only_png_files_are_images() {
    assert!(is_image(Some("png")));
    assert!(!is_image(Some("PNG")));
    assert!(!is_image(Some("json")));
    assert!(!is_image(None));
}

#[test]
fn pictures_are_decoded() {
    let pixels: Vec<u8> = vec![1, 2, 3, 255, 40, 50, 60, 128];
    let image = image::RgbaImage::from_raw(2, 1, pixels.clone()).unwrap();
    let mut file = Cursor::new(Vec::new());
    image.write_to(&mut file, image::ImageFormat::Png).unwrap();
    let picture = read_picture(file.get_ref()).unwrap();
    assert_eq!((picture.width, picture.height), (2, 1));
    assert_eq!(picture.pixels, pixels);
}

#[test]
fn pictures_without_opacity_are_opaque() {
    let image = image::RgbImage::from_raw(1, 2, vec![1, 2, 3, 4, 5, 6]).unwrap();
    let mut file = Cursor::new(Vec::new());
    image.write_to(&mut file, image::ImageFormat::Png).unwrap();
    let picture = read_picture(file.get_ref()).unwrap();
    assert_eq!((picture.width, picture.height), (1, 2));
    assert_eq!(picture.pixels, vec![1, 2, 3, 255, 4, 5, 6, 255]);
}

#[test]
fn other_bytes_are_no_picture() {
    let words = image::load_from_memory(b"not a picture").unwrap_err().to_string();
    assert_eq!(read_picture(b"not a picture").unwrap_err().message, words);
    assert!(read_picture(b"").is_err());
}

#[test]
fn separators_become_dots() {
    assert_eq!(dotted("idle_normal/normal_a"), "idle_normal.normal_a");
    assert_eq!(dotted("a\\b/c"), "a.b.c");
    assert_eq!(dotted(""), "");
}

#[test]
fn ids_are_split_at_the_first_dot() {
    let pair = |c: &str, n: &str| (c.to_string(), n.to_string());
    assert_eq!(split_id("idle"), pair("idle", "idle"));
    assert_eq!(split_id("idle_normal.normal_a"), pair("idle_normal", "normal_a"));
    assert_eq!(split_id("a.b.c"), pair("a", "b.c"));
    assert_eq!(split_id(""), pair("", ""));
    assert_eq!(split_id(".x"), pair("", "x"));
}

#[test]
fn frames_are_labelled() {
    assert_eq!(frame_label("idle.a", 12), "idle.a_12");
}

#[test]
fn frames_are_shown_by_file_name() {
    let files = vec![
        file("a", "10.png"),
        file("b", "0.png"),
        file("a", "2.png"),
        file("a", "1.png"),
        file("a", "1.png.png"),
        file("a", "1 #12.png"),
    ];
    assert_eq!(pick_frames(&files, "a"), vec![5, 3, 4, 0, 2]);
    assert_eq!(pick_frames(&files, "b"), vec![1]);
    assert_eq!(pick_frames(&files, "c"), Vec::<usize>::new());
}

#[test]
fn each_folder_gets_a_clip() {
    let files = vec![
        file("idle_normal/normal_a", "1.png"),
        file("sleep", "0.png"),
        file("idle_normal/normal_a", "0.png"),
    ];
    let plans = plan_clips(&files);
    assert_eq!(plans.len(), 2);
    let a = &plans[0];
    assert_eq!(a.folder, "idle_normal/normal_a");
    assert_eq!(a.id, "idle_normal.normal_a");
    assert_eq!((a.category.as_str(), a.name.as_str()), ("idle_normal", "normal_a"));
    assert_eq!(a.frames, vec![2, 0]);
    let b = &plans[1];
    assert_eq!((b.category.as_str(), b.name.as_str()), ("sleep", "sleep"));
    assert_eq!(b.frames, vec![1]);
    assert!(plan_clips(&Vec::new()).is_empty());
}

#[test]
fn clip_is_found_under_the_id_it_was_split_from() {
    let id_of = |id: &str| {
        let (category, name) = split_id(id);
        let config = AnimationConfig::default();
        AnimationClip::<u8> { category, name, config, frames: Vec::new() }.id()
    };
    for id in ["idle", "idle_normal.normal_a", "a.b.c", ".x", "x."] {
        assert_eq!(id_of(id), id);
    }
    assert_eq!(id_of("x.x"), "x");
}
