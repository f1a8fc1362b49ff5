use auto_video::movies_library::movie_file_id;
use sha1::{Digest, Sha1};

#[test]
fn movie_file_id_hashes_the_scan_fields() {
    let expected: String = Sha1::digest("7\0fold:1\0Movies/a.mkv\0dev:9\0100:1:2:3:4\0100".as_bytes())
        .iter()
        .map(|byte| format!("{byte:02x}"))
        .collect();
    assert_eq!(movie_file_id(7, "fold:1", "Movies/a.mkv", "dev:9", "100:1:2:3:4", 100), expected);
    assert_ne!(movie_file_id(8, "fold:1", "Movies/a.mkv", "dev:9", "100:1:2:3:4", 100), expected);
}
