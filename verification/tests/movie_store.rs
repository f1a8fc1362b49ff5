use auto_video::movie_store::{
    encoded_movie_metadata_associations, parse_movie_metadata_associations,
    read_movie_metadata_associations, valid_movie_metadata_date,
    valid_movie_metadata_relative_path, validate_movie_metadata_association,
    MovieMetadataAssociation, MovieMetadataFile, MovieMetadataReadError,
    MOVIE_METADATA_PERSISTENCE_FAILED,
};
use sha1::{Digest, Sha1};

fn association(relative_path: &str, generation: u64) -> MovieMetadataAssociation {
    MovieMetadataAssociation {
        folder: "/movies".to_owned(),
        folder_identity: "folder-identity".to_owned(),
        relative_path: relative_path.to_owned(),
        file_identity: "file-identity".to_owned(),
        fingerprint: "fingerprint".to_owned(),
        size: 4096,
        tmdb_movie_id: 603,
        imdb_id: "tt0133093".to_owned(),
        title: "The Matrix".to_owned(),
        original_title: None,
        release_date: Some("1999-03-31".to_owned()),
        poster_path: Some("/poster.jpg".to_owned()),
        overview: Some("Wake up.".to_owned()),
        generation,
    }
}

fn hex(text: &str) -> String {
    text.bytes().map(|byte| format!("{byte:02x}")).collect()
}

#[test]
fn encodes_the_exact_checksummed_format() {
    let a = association("Matrix.mkv", 7);
    let bytes = encoded_movie_metadata_associations(&[a]).unwrap();
    let fields = [
        hex("/movies"),
        hex("folder-identity"),
        hex("Matrix.mkv"),
        hex("file-identity"),
        hex("fingerprint"),
        "4096".to_owned(),
        "603".to_owned(),
        hex("tt0133093"),
        hex("The Matrix"),
        String::new(),
        hex("1999-03-31"),
        hex("/poster.jpg"),
        hex("Wake up."),
        "7".to_owned(),
    ];
    let payload = format!("1\n{}\n", fields.join("\t"));
    let checksum: String =
        Sha1::digest(payload.as_bytes()).iter().map(|byte| format!("{byte:02x}")).collect();
    let expected = format!("AUTO_VIDEO_MOVIE_METADATA_V1\n{checksum}\n{payload}");
    assert_eq!(String::from_utf8(bytes).unwrap(), expected);
}

#[test]
fn what_is_written_reads_back() {
    let associations = vec![association("A.mkv", 1), association("Folder/B.mp4", 2)];
    let bytes = encoded_movie_metadata_associations(&associations).unwrap();
    assert_eq!(parse_movie_metadata_associations(&bytes), Ok(associations.clone()));
    assert_eq!(
        read_movie_metadata_associations(MovieMetadataFile::Contents(bytes)),
        Ok(associations)
    );
    let empty = encoded_movie_metadata_associations(&[]).unwrap();
    assert_eq!(parse_movie_metadata_associations(&empty), Ok(Vec::new()));
}

#[test]
fn duplicate_paths_or_generations_do_not_read_back() {
    let same_generation = vec![association("A.mkv", 1), association("B.mkv", 1)];
    let bytes = encoded_movie_metadata_associations(&same_generation).unwrap();
    assert_eq!(parse_movie_metadata_associations(&bytes), Err(MovieMetadataReadError::Invalid));
    let same_path = vec![association("A.mkv", 1), association("A.mkv", 2)];
    let bytes = encoded_movie_metadata_associations(&same_path).unwrap();
    assert_eq!(parse_movie_metadata_associations(&bytes), Err(MovieMetadataReadError::Invalid));
}

#[test]
fn tampered_or_foreign_stores_are_invalid() {
    let bytes = encoded_movie_metadata_associations(&[association("A.mkv", 1)]).unwrap();
    let mut tampered = bytes.clone();
    let last = tampered.len() - 2;
    tampered[last] = b'8';
    assert_eq!(parse_movie_metadata_associations(&tampered), Err(MovieMetadataReadError::Invalid));
    let mut foreign = bytes.clone();
    foreign[11] = b'X';
    assert_eq!(parse_movie_metadata_associations(&foreign), Err(MovieMetadataReadError::Invalid));
    let truncated = &bytes[..bytes.len() - 1];
    assert_eq!(parse_movie_metadata_associations(truncated), Err(MovieMetadataReadError::Invalid));
    assert_eq!(parse_movie_metadata_associations(b""), Err(MovieMetadataReadError::Invalid));
}

#[test]
fn reading_maps_what_was_found() {
    assert_eq!(read_movie_metadata_associations(MovieMetadataFile::Missing), Ok(Vec::new()));
    assert_eq!(
        read_movie_metadata_associations(MovieMetadataFile::Unavailable),
        Err(MovieMetadataReadError::Unavailable)
    );
    assert_eq!(
        read_movie_metadata_associations(MovieMetadataFile::NotRegularFile),
        Err(MovieMetadataReadError::Invalid)
    );
    assert_eq!(
        read_movie_metadata_associations(MovieMetadataFile::Oversized),
        Err(MovieMetadataReadError::Invalid)
    );
}

#[test]
fn validation_refuses_each_malformed_field() {
    assert_eq!(validate_movie_metadata_association(&association("A.mkv", 1)), Ok(()));
    let cases: Vec<Box<dyn Fn(&mut MovieMetadataAssociation)>> = vec![
        Box::new(|a| a.folder = "movies".to_owned()),
        Box::new(|a| a.folder_identity = String::new()),
        Box::new(|a| a.relative_path = "../A.mkv".to_owned()),
        Box::new(|a| a.relative_path = "/A.mkv".to_owned()),
        Box::new(|a| a.file_identity = "x".repeat(257)),
        Box::new(|a| a.fingerprint = String::new()),
        Box::new(|a| a.tmdb_movie_id = 0),
        Box::new(|a| a.imdb_id = "tt123".to_owned()),
        Box::new(|a| a.title = "  ".to_owned()),
        Box::new(|a| a.original_title = Some(" ".to_owned())),
        Box::new(|a| a.release_date = Some("1999-3-31".to_owned())),
        Box::new(|a| a.poster_path = Some("poster.jpg".to_owned())),
        Box::new(|a| a.poster_path = Some("/poster\n.jpg".to_owned())),
        Box::new(|a| a.overview = Some("\t".to_owned())),
        Box::new(|a| a.generation = 0),
    ];
    for change in cases {
        let mut a = association("A.mkv", 1);
        change(&mut a);
        assert_eq!(validate_movie_metadata_association(&a), Err(MOVIE_METADATA_PERSISTENCE_FAILED));
        assert_eq!(
            encoded_movie_metadata_associations(&[a]),
            Err(MOVIE_METADATA_PERSISTENCE_FAILED)
        );
    }
}

#[test]
fn dates_and_relative_paths_follow_their_shapes() {
    assert!(valid_movie_metadata_date("2024-02-29"));
    assert!(!valid_movie_metadata_date("2024-02-2"));
    assert!(!valid_movie_metadata_date("2024/02/29"));
    assert!(valid_movie_metadata_relative_path("a/b/c.mkv"));
    assert!(valid_movie_metadata_relative_path("a//b/./c.mkv"));
    assert!(!valid_movie_metadata_relative_path("./a.mkv"));
    assert!(!valid_movie_metadata_relative_path("a/../b.mkv"));
    assert!(!valid_movie_metadata_relative_path(""));
}
