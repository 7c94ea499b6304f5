use dino_cli::images::{collect_images, is_image_file, path_extension, ImagesError, WalkEntry};

fn entry(path: &str, is_file: bool) -> WalkEntry {
    WalkEntry { path: path.to_string(), is_file }
}

#[test]
fn supported_extensions() {
    for p in ["a.jpg", "a.JPEG", "dir/b.Png", "c.webp", "d.bmp", "e.tif", "f.TIFF", "x.y.png"] {
        assert!(is_image_file(p), "{p}");
    }
    for p in ["a.gif", ".png", "png", "dir.png/file", "a.png.txt", "a.", "..", "a.jpgx"] {
        assert!(!is_image_file(p), "{p}");
    }
}

#[test]
fn extensions_like_std() {
    for p in ["a.b", "a.", ".a", "a", "a.b.c", "d/.e", "d.e/f", "..", "x/..", "d/e.f"] {
        let ours = path_extension(p).map(|v| v.into_iter().collect::<String>());
        let theirs = std::path::Path::new(p)
            .extension()
            .map(|s| s.to_str().unwrap().to_string());
        assert_eq!(ours, theirs, "{p}");
    }
}

#[test]
fn images_sorted_in_path_order() {
    let entries = vec![
        entry("photos/b.png", true),
        entry("photos/a.b/x.jpg", true),
        entry("photos/a/x.jpg", true),
        entry("photos/notes.txt", true),
        entry("photos/dir.png", false),
        entry("photos/A.PNG", true),
    ];
    let got = collect_images(&entries).unwrap();
    assert_eq!(got, vec!["photos/A.PNG", "photos/a/x.jpg", "photos/a.b/x.jpg", "photos/b.png"]);
    let mut by_std: Vec<std::path::PathBuf> = got.iter().map(std::path::PathBuf::from).collect();
    by_std.sort();
    let std_order: Vec<String> = by_std.iter().map(|p| p.to_str().unwrap().to_string()).collect();
    assert_eq!(got, std_order);
}

#[test]
fn listing_does_not_depend_on_walk_order() {
    let a = vec![entry("d/2.png", true), entry("d/10.png", true), entry("d/1.png", true)];
    let b = vec![entry("d/1.png", true), entry("d/2.png", true), entry("d/10.png", true)];
    assert_eq!(collect_images(&a).unwrap(), collect_images(&b).unwrap());
    assert_eq!(collect_images(&a).unwrap(), vec!["d/1.png", "d/10.png", "d/2.png"]);
}

#[test]
fn no_images_is_an_error() {
    assert_eq!(collect_images(&vec![]), Err(ImagesError::NoImages));
    assert_eq!(
        collect_images(&vec![entry("x.txt", true), entry("y.png", false)]),
        Err(ImagesError::NoImages)
    );
}
