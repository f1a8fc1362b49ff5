use auto_video::tmdb_cover::{TmdbCoverCategory, TmdbCoverRequest, TmdbCoverSurface};
use auto_video::tmdb_cover_cache::{
    cache_evictions, eviction_order, read_tmdb_cover_cache, tmdb_cover_cache_file, CacheFileInfo,
    TMDB_COVER_CACHE_MAX_FILES, TMDB_COVER_CACHE_MAX_TOTAL_BYTES, TMDB_COVER_CACHE_TTL_SECONDS,
};

const SOURCE: &str = "https://image.tmdb.org/t/p/w500/exact-poster.jpg";

fn library_request() -> TmdbCoverRequest {
    TmdbCoverRequest {
        category: TmdbCoverCategory::Tv,
        surface: TmdbCoverSurface::Library,
        tmdb_id: 701,
        poster_path: Some("/exact-poster.jpg".to_owned()),
        context_generation: 4,
        request_generation: 9,
        library_item_id: Some("a".repeat(40)),
        association_generation: Some(3),
        scan_generation: Some(4),
    }
}

fn jpeg() -> Vec<u8> {
    let mut bytes = vec![0xff, 0xd8, 0xff, 0xc0, 0, 17, 8];
    bytes.extend(750_u16.to_be_bytes());
    bytes.extend(500_u16.to_be_bytes());
    bytes.resize(6_000, 0);
    bytes
}

#[test]
fn a_written_cache_file_reads_back_while_fresh() {
    let request = library_request();
    let file = tmdb_cover_cache_file(&request, SOURCE, "0.6666666666666666", 1_000, &jpeg());
    let header_end = file.windows(6).position(|w| w == b"\nDATA\n").unwrap();
    let header = std::str::from_utf8(&file[..header_end]).unwrap();
    let lines: Vec<&str> = header.lines().collect();
    assert_eq!(lines.len(), 11);
    assert_eq!(lines[0], "AUTO_VIDEO_TMDB_CARD_COVER_V1");
    assert_eq!(lines[4], "3");
    assert_eq!(lines[5], "701");
    assert_eq!(lines[8], "1000");
    assert_eq!(lines[10], "6000");
    let cover = read_tmdb_cover_cache(&file, &request, 1_000 + TMDB_COVER_CACHE_TTL_SECONDS - 1).unwrap();
    assert_eq!(cover.bytes, jpeg());
    assert_eq!(cover.ratio, "0.6666666666666666");
    assert_eq!((cover.width, cover.height), (500, 750));
    assert!(read_tmdb_cover_cache(&file, &request, 1_000 + TMDB_COVER_CACHE_TTL_SECONDS).is_none());
    assert!(read_tmdb_cover_cache(&file, &request, 999).is_none());
}

#[test]
fn a_cache_file_for_another_request_or_damaged_is_refused() {
    let request = library_request();
    let file = tmdb_cover_cache_file(&request, SOURCE, "0.6666666666666666", 1_000, &jpeg());
    let other = TmdbCoverRequest { association_generation: Some(4), ..library_request() };
    assert!(read_tmdb_cover_cache(&file, &other, 1_001).is_none());
    let wrong_source = tmdb_cover_cache_file(&request, "https://example.com/x.jpg", "0.66", 1_000, &jpeg());
    assert!(read_tmdb_cover_cache(&wrong_source, &request, 1_001).is_none());
    let mut truncated = file.clone();
    truncated.pop();
    assert!(read_tmdb_cover_cache(&truncated, &request, 1_001).is_none());
    assert!(read_tmdb_cover_cache(b"no marker here", &request, 1_001).is_none());
}

fn file(name: &str, length: u64, modified: i128, temporary: bool, protected: bool) -> CacheFileInfo {
    CacheFileInfo { path: format!("/cache/{name}"), length, modified, temporary, protected }
}

#[test]
fn temporary_then_oldest_files_go_first() {
    let sorted = eviction_order(vec![
        file("b.bin", 1, 5, false, false),
        file("a.bin", 1, 5, false, false),
        file("old.bin", 1, 1, false, false),
        file(".t.tmp", 1, 9, true, false),
    ]);
    let names: Vec<&str> = sorted.iter().map(|f| f.path.as_str()).collect();
    assert_eq!(names, ["/cache/.t.tmp", "/cache/old.bin", "/cache/a.bin", "/cache/b.bin"]);
}

#[test]
fn evictions_make_room_and_spare_protected_files() {
    let full: Vec<CacheFileInfo> = (0..TMDB_COVER_CACHE_MAX_FILES as i128)
        .map(|i| file(&format!("{i:03}.bin"), 10, i, false, i == 0))
        .collect();
    let gone = cache_evictions(eviction_order(full), 10).unwrap();
    assert_eq!(gone.len(), 1);
    assert_eq!(gone[0].path, "/cache/001.bin");
    let small = vec![file("a.bin", 10, 1, false, false)];
    assert_eq!(cache_evictions(small.clone(), 10), Some(Vec::new()));
    let gone = cache_evictions(small, TMDB_COVER_CACHE_MAX_TOTAL_BYTES - 5).unwrap();
    assert_eq!(gone.len(), 1);
    let kept = vec![file("a.bin", 10, 1, false, true)];
    assert_eq!(cache_evictions(kept, TMDB_COVER_CACHE_MAX_TOTAL_BYTES), None);
}
