use auto_video::episode::{parse_tv_relative_identity, TvLibraryIdentity};

#[test]
fn conservative_identity_parser_accepts_exact_single_episode_paths() {
    for (path, show_title, season, episode) in [
        (
            "Exact  Show — 特別版/Season 02/Exact  Show — 特別版 - S02E03 - Episode 4.MP4",
            "Exact  Show — 特別版",
            2,
            3,
        ),
        (
            "Exact Show/Season 02/Exact Show - S02E03 - Part 2.mkv",
            "Exact Show",
            2,
            3,
        ),
        (
            "Exact Big Show/Season 123/Exact Big Show - S123E456 - Exact Episode.MKV",
            "Exact Big Show",
            123,
            456,
        ),
        ("Show.S123E456+720p.mp4", "Show", 123, 456),
        ("Show.123x456.x265.mkv", "Show", 123, 456),
    ] {
        assert_eq!(
            parse_tv_relative_identity(path),
            Some(TvLibraryIdentity {
                show_title: show_title.to_owned(),
                season,
                episode,
            }),
            "single episode path {path:?} did not retain its exact identity"
        );
    }
}

#[test]
fn conservative_identity_parser_rejects_non_round_trippable_exact_names_and_markers() {
    for path in [
        "Exact Show/Season 02/Exact Show - S02E03 - 2.mp4",
        "Exact Show/Season 02/Exact Show - S02E03 - 04.mp4",
        "Exact Show/Season 02/Exact Show - S02E03 - E04.mp4",
        "Exact Show/Season 02/Exact Show - S02E03 - x04.mp4",
        "Exact Show/Season 02/Exact Show - S02E03 - #4.mp4",
        "Exact S01E02 Show/Season 02/Exact S01E02 Show - S02E03 - Episode.mp4",
        "Exact Show/Season 02/Exact Show - S02E03 - Flashback 1x02.mp4",
        "S123/S123E456.mkv",
        "Wrong Parent/Season 124/S123E456.mp4",
        "Show.S01E02.S01E03.mp4",
        "Show.S123E456-x457.mp4",
        "Show.123x456/x457.mp4",
    ] {
        assert_eq!(
            parse_tv_relative_identity(path),
            None,
            "ambiguous TV path {path:?} was associated"
        );
    }
}
