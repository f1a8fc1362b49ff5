use auto_video::query::{
    is_valid_tmdb_token, percent_encode_movie_metadata_query, percent_encode_tv_metadata_query,
};

#[test]
fn percent_encoding_keeps_unreserved_bytes_and_escapes_the_rest() {
    assert_eq!(percent_encode_tv_metadata_query("Star Trek: TNG"), "Star%20Trek%3A%20TNG");
    assert_eq!(percent_encode_tv_metadata_query("a-b.c_d~e"), "a-b.c_d~e");
    assert_eq!(percent_encode_movie_metadata_query("Amélie"), "Am%C3%A9lie");
    assert_eq!(percent_encode_movie_metadata_query("50/50 & more?"), "50%2F50%20%26%20more%3F");
    assert_eq!(percent_encode_movie_metadata_query(""), "");
    assert_eq!(percent_encode_tv_metadata_query("東京"), "%E6%9D%B1%E4%BA%AC");
}

#[test]
fn token_shape_refuses_blank_edges_and_control_characters() {
    for token in ["", " leading", "trailing ", "line\nbreak"] {
        assert!(!is_valid_tmdb_token(token));
    }
    assert!(is_valid_tmdb_token("eyJhbGciOiJIUzI1NiJ9.payload.signature"));
    assert!(!is_valid_tmdb_token(""));
    assert!(!is_valid_tmdb_token(" token"));
    assert!(!is_valid_tmdb_token("token\n"));
    assert!(!is_valid_tmdb_token("tok\u{7}en"));
    assert!(is_valid_tmdb_token("tok en"));
    assert!(is_valid_tmdb_token(&"a".repeat(4096)));
    assert!(!is_valid_tmdb_token(&"a".repeat(4097)));
}
