use ormos::archive::{
    accepted_archives, archive_candidates, catalog_entry, create_container_image_archives, has_archive_extension,
    ContentHasher, ImageArchiveEntry,
};
use ormos::capability::CapabilityResult;

const ABC_SHA256: &str = "ba7816bf8f01cfea414140de5dae2223b00361a396177a9cb410ff61f20015ad";
const EMPTY_SHA256: &str = "e3b0c44298fc1c149afbf4c8996fb92427ae41e4649b934ca495991b7852b855";

fn ran(success: bool, stdout: &str, stderr: &str) -> CapabilityResult {
    CapabilityResult::Ran { success, stdout: stdout.to_string(), stderr: stderr.to_string() }
}

fn hash_of(chunks: &[&[u8]]) -> String {
    let mut h = ContentHasher::new();
    for c in chunks {
        h.update(c);
    }
    h.finish()
}

#[test]
fn content_hash_matches_known_digest() {
    assert_eq!(hash_of(&[b"abc"]), ABC_SHA256);
    assert_eq!(hash_of(&[]), EMPTY_SHA256);
}

#[test]
fn content_hash_ignores_chunking() {
    assert_eq!(hash_of(&[b"a", b"", b"bc"]), ABC_SHA256);
}

#[test]
fn content_hash_is_repeatable() {
    let data = vec![7u8; 10_000];
    assert_eq!(hash_of(&[&data]), hash_of(&[&data[..4096], &data[4096..]]));
    assert_eq!(hash_of(&[&data]).len(), 64);
}

#[test]
fn archive_extension() {
    assert!(has_archive_extension("/mnt/usb/a.tar"));
    assert!(has_archive_extension("a.tar"));
    assert!(has_archive_extension("x.y.tar"));
    assert!(!has_archive_extension("/mnt/usb/.tar"));
    assert!(!has_archive_extension(".tar"));
    assert!(!has_archive_extension("/mnt/usb/a.tar.gz"));
    assert!(!has_archive_extension("/mnt/usb/a.TAR"));
    assert!(!has_archive_extension("/mnt/usb/atar"));
}

#[test]
fn one_valid_archive_gives_one_entry() {
    let listing = vec!["/d/a.tar".to_string(), "/d/b.tar".to_string(), "/d/notes.txt".to_string()];
    let candidates = archive_candidates(&listing);
    assert_eq!(candidates, vec!["/d/a.tar".to_string(), "/d/b.tar".to_string()]);
    let validated = vec![
        (candidates[0].clone(), ran(true, "{}", "")),
        (candidates[1].clone(), ran(false, "", "not an archive")),
    ];
    let accepted = accepted_archives(&validated);
    assert_eq!(accepted, vec!["/d/a.tar".to_string()]);

    let mut h = ContentHasher::new();
    h.update(b"abc");
    let entry = catalog_entry(accepted[0].clone(), 3, h);
    let catalog = create_container_image_archives(vec![Ok(entry)]).unwrap();
    assert_eq!(catalog.len(), 1);
    assert_eq!(catalog[0].file_path, "/d/a.tar");
    assert_eq!(catalog[0].file_size_bytes, 3);
    assert_eq!(catalog[0].content_hash, ABC_SHA256);
}

#[test]
fn unreachable_checker_excludes_silently() {
    let validated = vec![
        ("/d/a.tar".to_string(), CapabilityResult::NotRun { message: "skopeo: not found".to_string() }),
        ("/d/c.txt".to_string(), ran(true, "", "")),
    ];
    assert!(accepted_archives(&validated).is_empty());
}

fn entry(path: &str) -> ImageArchiveEntry {
    ImageArchiveEntry { file_path: path.to_string(), file_size_bytes: 1, content_hash: EMPTY_SHA256.to_string() }
}

#[test]
fn catalog_is_all_or_nothing() {
    let ok = create_container_image_archives(vec![Ok(entry("/a.tar")), Ok(entry("/b.tar"))]).unwrap();
    assert_eq!(ok.len(), 2);
    assert_eq!(ok[1].file_path, "/b.tar");
    let err = create_container_image_archives(vec![
        Ok(entry("/a.tar")),
        Err("permission denied".to_string()),
        Err("missing".to_string()),
    ]);
    assert_eq!(err.err(), Some("permission denied".to_string()));
    assert!(create_container_image_archives(Vec::new()).unwrap().is_empty());
}
