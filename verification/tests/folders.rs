use std::path::PathBuf;

use obmc::folders::folder_types::{ImageType, MediaType, MediaTypeError, VideoType};
use obmc::folders::{build_folder, crawl_dir, DirListing, Folder, Folders, ListedFile, ValidFileTypes};

fn file(path: &str, ext: Option<&str>) -> ListedFile {
    ListedFile { path: PathBuf::from(path), extension: ext.map(|e| e.to_string()) }
}

fn count_files(folder: &Folder) -> usize {
    let mut n = folder.children_files.len();
    for child in &folder.children {
        n += count_files(child);
    }
    n
}

fn seed_listing() -> DirListing {
    DirListing {
        path: PathBuf::from("root"),
        files: vec![file("root/file1.mp4", Some("mp4")), file("root/file2.mp4", Some("mp4"))],
        dirs: vec![DirListing {
            path: PathBuf::from("root/sub_dir"),
            files: vec![file("root/sub_dir/sub_file.mp4", Some("mp4"))],
            dirs: vec![],
        }],
    }
}

#[test]
fn test_crawl_dir_recursive() {
    let folder = build_folder(seed_listing());
    assert_eq!(folder.path, PathBuf::from("root"));
    assert_eq!(folder.children.len(), 1);
    assert_eq!(folder.children_files.len(), 2);
    let sub_folder = &folder.children[0];
    assert_eq!(sub_folder.path, PathBuf::from("root/sub_dir"));
    assert_eq!(sub_folder.children.len(), 0);
    assert_eq!(sub_folder.children_files.len(), 1);
}

#[test]
fn test_crawl_dir_recursive_par() {
    let folders = crawl_dir(seed_listing());
    let folder = &folders.children[0];
    assert_eq!(folder.path, PathBuf::from("root"));
    assert_eq!(folder.children.len(), 1);
    assert_eq!(folder.children_files.len(), 2);
    let sub_folder = &folder.children[0];
    assert_eq!(sub_folder.path, PathBuf::from("root/sub_dir"));
    assert_eq!(sub_folder.children.len(), 0);
    assert_eq!(sub_folder.children_files.len(), 1);
}

#[test]
fn build_folder_skips_other_files_and_empty_dirs() {
    let listing = DirListing {
        path: PathBuf::from("r"),
        files: vec![
            file("r/a.MP4", Some("MP4")),
            file("r/ignore.txt", Some("txt")),
            file("r/noext", None),
            file("r/b.JpEg", Some("JpEg")),
        ],
        dirs: vec![
            DirListing {
                path: PathBuf::from("r/empty"),
                files: vec![file("r/empty/x.txt", Some("txt"))],
                dirs: vec![DirListing { path: PathBuf::from("r/empty/deeper"), files: vec![], dirs: vec![] }],
            },
            DirListing {
                path: PathBuf::from("r/deep"),
                files: vec![],
                dirs: vec![DirListing {
                    path: PathBuf::from("r/deep/inner"),
                    files: vec![file("r/deep/inner/c.heic", Some("heic"))],
                    dirs: vec![],
                }],
            },
        ],
    };
    let folder = build_folder(listing);
    assert_eq!(folder.children_files.len(), 2);
    assert_eq!(folder.children_files[0].type_data, MediaType::Video(VideoType::Mp4));
    assert_eq!(folder.children_files[1].type_data, MediaType::Image(ImageType::Jpeg));
    assert_eq!(folder.children.len(), 1);
    assert_eq!(folder.children[0].path, PathBuf::from("r/deep"));
    assert_eq!(folder.children[0].children.len(), 1);
    assert_eq!(count_files(&folder), 3);
}

#[test]
fn crawl_dir_wraps_the_root() {
    let folders = crawl_dir(seed_listing());
    assert_eq!(folders.children.len(), 1);
    assert_eq!(count_files(&folders.children[0]), 3);
}

#[test]
fn media_type_recognition() {
    assert_eq!("jpg".parse::<MediaType>().unwrap(), MediaType::Image(ImageType::Jpeg));
    assert_eq!("PNG".parse::<MediaType>().unwrap(), MediaType::Image(ImageType::Png));
    assert_eq!("Heic".parse::<MediaType>().unwrap(), MediaType::Image(ImageType::Heic));
    assert_eq!("mov".parse::<MediaType>().unwrap(), MediaType::Video(VideoType::Mov));
    assert_eq!("gif".parse::<MediaType>().unwrap_err(), MediaTypeError::InvalidMediaType);
    assert_eq!("AVIF".parse::<MediaType>().unwrap(), MediaType::Image(ImageType::Avif));
    assert_eq!("tif".parse::<MediaType>().unwrap(), MediaType::Image(ImageType::Tiff));
    assert_eq!("tiff".parse::<MediaType>().unwrap(), MediaType::Image(ImageType::Tiff));
    assert_eq!("CR3".parse::<MediaType>().unwrap(), MediaType::Image(ImageType::Cr3));
    assert_eq!("raf".parse::<MediaType>().unwrap(), MediaType::Image(ImageType::Raf));
    assert_eq!("iiq".parse::<MediaType>().unwrap(), MediaType::Image(ImageType::Iiq));
    assert_eq!("mkv".parse::<MediaType>().unwrap(), MediaType::Video(VideoType::Mkv));
    assert_eq!("AVI".parse::<MediaType>().unwrap(), MediaType::Video(VideoType::Avi));
    assert_eq!("WebM".parse::<MediaType>().unwrap(), MediaType::Video(VideoType::Webm));
    assert_eq!("3gp".parse::<MediaType>().unwrap(), MediaType::Video(VideoType::ThreeGp));
    assert_eq!("tiffx".parse::<MediaType>().unwrap_err(), MediaTypeError::InvalidMediaType);
    assert_eq!(ImageType::from_extension("mp4").unwrap_err(), MediaTypeError::InvalidImageType);
    assert_eq!(VideoType::from_extension("png").unwrap_err(), MediaTypeError::InvalidVideoType);
}

#[test]
fn folder_builders() {
    let mut folders = Folders::new();
    assert!(folders.children.is_empty());
    let mut folder = Folder::new(PathBuf::from("p"));
    folder.add_file(ValidFileTypes::new(PathBuf::from("p/a.png"), MediaType::Image(ImageType::Png)));
    folder.add_folder(Folder::new(PathBuf::from("p/q")));
    assert_eq!(folder.children_files.len(), 1);
    assert_eq!(folder.children.len(), 1);
    folders.add_folder(folder);
    assert_eq!(folders.children.len(), 1);
    assert_eq!(Folders::default().children.len(), 0);
}

#[test]
fn listing_crawl_counts_media_files() {
    let listing = DirListing {
        path: PathBuf::from("t"),
        files: vec![file("t/a.mp4", Some("mp4")), file("t/ignore.txt", Some("txt"))],
        dirs: vec![DirListing {
            path: PathBuf::from("t/sub"),
            files: vec![file("t/sub/b.mp4", Some("mp4"))],
            dirs: vec![],
        }],
    };
    let folders = crawl_dir(listing);
    assert_eq!(folders.children.len(), 1);
    assert_eq!(count_files(&folders.children[0]), 2);
}
