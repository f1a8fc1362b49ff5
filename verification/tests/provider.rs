use auto_video::provider::{
    adult_provider_error_code, parse_macos_volume_storage, parse_movie_provider_response,
    parse_provider_response, parse_windows_volume_storage, provider_error_code,
    query_volume_storage_with, tmdb_movie_provider_error_code,
    tmdb_tv_metadata_provider_error_code, yts_movie_provider_error_code,
    MovieProviderRequestError, MoviesVolumeStorageQueryError, ProviderRequestError,
};

#[test]
fn maps_movie_provider_http_failures_without_exposing_response_text() {
    for (status, error) in [
        (401, MovieProviderRequestError::Unauthorized),
        (429, MovieProviderRequestError::RateLimited),
        (404, MovieProviderRequestError::SourceUnavailable),
        (500, MovieProviderRequestError::Provider),
        (0, MovieProviderRequestError::Network),
    ] {
        assert_eq!(
            parse_movie_provider_response(
                format!("secret response\nAUTO_VIDEO_HTTP_STATUS:{status}").as_bytes(),
            ),
            Err(error)
        );
    }
}

#[test]
fn distinguishes_provider_response_statuses_at_the_native_boundary() {
    assert_eq!(
        parse_provider_response(b"document\nAUTO_VIDEO_HTTP_STATUS:200"),
        Ok("document".to_owned())
    );
    assert_eq!(
        parse_provider_response(b"missing\nAUTO_VIDEO_HTTP_STATUS:404"),
        Err(ProviderRequestError::SourceUnavailable)
    );
    assert_eq!(
        parse_provider_response(b"failure\nAUTO_VIDEO_HTTP_STATUS:500"),
        Err(ProviderRequestError::Provider)
    );
    assert_eq!(
        parse_provider_response(b"invalid"),
        Err(ProviderRequestError::Provider)
    );
}

#[test]
fn parses_deterministic_macos_volume_storage_output() {
    let output = b"Filesystem 1024-blocks Used Available Capacity Mounted on\n/dev/disk3s5 4294967296 3145728 1073741824 75% /System/Volumes/Data\n";

    assert_eq!(
        parse_macos_volume_storage(output),
        Ok([4_398_046_511_104, 1_099_511_627_776])
    );
    assert_eq!(
        parse_macos_volume_storage(b"invalid output"),
        Err(MoviesVolumeStorageQueryError::Failed)
    );
}

#[test]
fn parses_deterministic_windows_volume_storage_output() {
    assert_eq!(
        parse_windows_volume_storage(b"4398046511104 1099511627776\r\n"),
        Ok([4_398_046_511_104, 1_099_511_627_776])
    );
    assert_eq!(
        parse_windows_volume_storage(b"4398046511104 1099511627776 extra"),
        Err(MoviesVolumeStorageQueryError::Failed)
    );
}

#[test]
fn provider_reply_uses_the_last_status_marker_and_trims_the_status() {
    assert_eq!(
        parse_provider_response(
            b"a\nAUTO_VIDEO_HTTP_STATUS:500 inside\nAUTO_VIDEO_HTTP_STATUS: 204 \r\n"
        ),
        Ok("a\nAUTO_VIDEO_HTTP_STATUS:500 inside".to_owned())
    );
    assert_eq!(
        parse_provider_response(b"gone\nAUTO_VIDEO_HTTP_STATUS:410"),
        Err(ProviderRequestError::SourceUnavailable)
    );
    assert_eq!(
        parse_provider_response(b"legal\nAUTO_VIDEO_HTTP_STATUS:451"),
        Err(ProviderRequestError::SourceUnavailable)
    );
    assert_eq!(
        parse_provider_response(b"big\nAUTO_VIDEO_HTTP_STATUS:70000"),
        Err(ProviderRequestError::Provider)
    );
    assert_eq!(
        parse_provider_response(b"\xff\nAUTO_VIDEO_HTTP_STATUS:200"),
        Err(ProviderRequestError::Provider)
    );
    assert_eq!(
        parse_movie_provider_response(b"forbidden\nAUTO_VIDEO_HTTP_STATUS:403"),
        Err(MovieProviderRequestError::Unauthorized)
    );
    assert_eq!(
        parse_movie_provider_response(b"{}\nAUTO_VIDEO_HTTP_STATUS:299"),
        Ok("{}".to_owned())
    );
}

#[test]
fn provider_documents_larger_than_the_limit_are_refused() {
    let mut output = vec![b'x'; 4 * 1024 * 1024 + 1];
    output.extend_from_slice(b"\nAUTO_VIDEO_HTTP_STATUS:200");
    assert_eq!(parse_provider_response(&output), Err(ProviderRequestError::Provider));
    assert_eq!(
        parse_movie_provider_response(&output),
        Err(MovieProviderRequestError::Provider)
    );
    let mut exact = vec![b'x'; 4 * 1024 * 1024];
    exact.extend_from_slice(b"\nAUTO_VIDEO_HTTP_STATUS:200");
    assert_eq!(
        parse_provider_response(&exact).map(|document| document.len()),
        Ok(4 * 1024 * 1024)
    );
}

#[test]
fn provider_errors_map_to_their_codes() {
    assert_eq!(
        provider_error_code(ProviderRequestError::SourceUnavailable),
        "vr_source_unavailable"
    );
    assert_eq!(
        adult_provider_error_code(ProviderRequestError::Network),
        "adult_network_error"
    );
    assert_eq!(
        tmdb_movie_provider_error_code(MovieProviderRequestError::SourceUnavailable),
        "movie_tmdb_provider_error"
    );
    assert_eq!(
        tmdb_tv_metadata_provider_error_code(MovieProviderRequestError::RateLimited),
        "tv_metadata_tmdb_rate_limited"
    );
    assert_eq!(
        yts_movie_provider_error_code(MovieProviderRequestError::Unauthorized),
        "movie_yts_provider_error"
    );
}

#[test]
fn macos_volume_storage_reads_the_last_filled_line_and_rejects_overflow() {
    let output = b"header\n/dev/a 10 1 5 1% /\n\n   \n";
    assert_eq!(parse_macos_volume_storage(output), Ok([10 * 1024, 5 * 1024]));
    let overflow = b"x 18014398509481984 0 1 0% /\n";
    assert_eq!(
        parse_macos_volume_storage(overflow),
        Err(MoviesVolumeStorageQueryError::Failed)
    );
    assert_eq!(
        parse_macos_volume_storage(b"a b c\n"),
        Err(MoviesVolumeStorageQueryError::Failed)
    );
}

#[test]
fn volume_storage_is_checked_after_the_query() {
    let unavailable = "storage_unavailable";
    let failed = "storage_failed";
    assert_eq!(
        query_volume_storage_with(None, |_| true, unavailable, failed, |_| Ok([1, 1])),
        Err(unavailable)
    );
    assert_eq!(
        query_volume_storage_with(Some("/movies"), |_| false, unavailable, failed, |_| {
            Ok([1, 1])
        }),
        Err(unavailable)
    );
    assert_eq!(
        query_volume_storage_with(Some("/movies"), |_| true, unavailable, failed, |folder| {
            assert_eq!(folder, "/movies");
            Ok([1024, 512])
        }),
        Ok([1024, 512])
    );
    for invalid in [[0, 0], [1024, 1025]] {
        assert_eq!(
            query_volume_storage_with(Some("/movies"), |_| true, unavailable, failed, |_| {
                Ok(invalid)
            }),
            Err(failed)
        );
    }
    assert_eq!(
        query_volume_storage_with(Some("/movies"), |_| true, unavailable, failed, |_| {
            Err(MoviesVolumeStorageQueryError::Unavailable)
        }),
        Err(unavailable)
    );
    assert_eq!(
        query_volume_storage_with(Some("/movies"), |_| true, unavailable, failed, |_| {
            Err(MoviesVolumeStorageQueryError::Failed)
        }),
        Err(failed)
    );
}

#[test]
fn movie_provider_errors_do_not_depend_on_the_document() {
    for status in ["0", "401", "403", "404", "410", "429", "451", "500", "302"] {
        let first = format!("secret body\nAUTO_VIDEO_HTTP_STATUS:{status}");
        let second = format!("other\nAUTO_VIDEO_HTTP_STATUS:1\n text\nAUTO_VIDEO_HTTP_STATUS:{status}");
        let a = parse_movie_provider_response(first.as_bytes());
        assert!(a.is_err());
        assert_eq!(a, parse_movie_provider_response(second.as_bytes()));
    }
}
