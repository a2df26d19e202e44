use cafe_core::binary_store::http::{content_range_header, should_finalize, TokenError};
use cafe_core::binary_store::storage::{is_marker_name, Storage};
use cafe_core::binary_store::jwt;

#[test]
fn content_range_header_full_read_is_none() {
    assert_eq!(content_range_header(0, 10, 10), None);
}

#[test]
fn content_range_header_empty_read_no_underflow() {
    assert_eq!(content_range_header(0, 0, 0), None);
}

#[test]
fn content_range_header_partial_read_correct() {
    assert_eq!(content_range_header(5, 3, 100), Some("bytes 5-7/100".into()));
    assert_eq!(content_range_header(10, 0, 100), Some("bytes 10-10/100".into()));
}

#[test]
fn should_finalize_single_shot_default_finalizes() {
    assert!(should_finalize(0, false, None));
}

#[test]
fn should_finalize_multipart_first_part_stays_open() {
    assert!(!should_finalize(0, false, Some(false)));
}

#[test]
fn should_finalize_multipart_final_part_finalizes() {
    let off = 6u64;
    assert!(should_finalize(off, false, Some(true)));
}

#[test]
fn should_finalize_empty_body_is_terminator() {
    assert!(should_finalize(0, true, None));
    assert!(should_finalize(10, true, Some(false)));
}

#[test]
fn chunk_path_includes_shard() {
    let storage = Storage::new("/data".to_string());
    let s = storage.chunk_path("abcdef12-3456-7890-abcd-ef1234567890");
    assert!(s.contains("/data/binary/ab/"));
    assert!(s.contains("abcdef12-3456-7890-abcd-ef1234567890"));
}

fn jwt_test_key() -> Vec<u8> {
    b"this-is-a-32-byte-test-key-for-jwt!!".to_vec()
}

fn jwt_now() -> u64 {
    std::time::SystemTime::now().duration_since(std::time::UNIX_EPOCH).unwrap().as_secs()
}

#[test]
fn sign_and_verify_write_token() {
    let key = jwt_test_key();
    let token = jwt::sign_write("chunk-abc", 3600, jwt_now(), &key).unwrap();
    let claims = jwt::verify(&token, &key, jwt_now()).unwrap();
    assert_eq!(claims.chunk_id, "chunk-abc");
    assert_eq!(claims.purpose, "write");
    assert!(claims.exp.is_some());
}

#[test]
fn sign_and_verify_read_token() {
    let key = jwt_test_key();
    let token = jwt::sign_read("chunk-abc", jwt_now(), &key).unwrap();
    let claims = jwt::verify(&token, &key, jwt_now()).unwrap();
    assert_eq!(claims.chunk_id, "chunk-abc");
    assert_eq!(claims.purpose, "read");
    assert!(claims.exp.is_none());
}

#[test]
fn expired_token_fails() {
    let key = jwt_test_key();
    let now = jwt_now();
    let token = jwt::sign_write("chunk-abc", 0, now, &key).unwrap();
    let result = jwt::verify(&token, &key, now);
    assert!(result.is_err());
    assert_eq!(result.unwrap_err(), TokenError::Expired);
}

#[test]
fn wrong_key_fails() {
    let key = jwt_test_key();
    let wrong = b"a-different-32-byte-key-for-testing!!".to_vec();
    let token = jwt::sign_write("chunk-abc", 3600, jwt_now(), &key).unwrap();
    let result = jwt::verify(&token, &wrong, jwt_now());
    assert!(result.is_err());
    assert_eq!(result.unwrap_err(), TokenError::Invalid);
}

#[test]
fn different_chunk_id_rejected() {
    let key = jwt_test_key();
    let token = jwt::sign_write("chunk-abc", 3600, jwt_now(), &key).unwrap();
    let claims = jwt::verify(&token, &key, jwt_now()).unwrap();
    assert_ne!(claims.chunk_id, "chunk-xyz");
}

#[test]
fn write_ttl_matches_exp() {
    let key = jwt_test_key();
    let now = jwt_now();
    let ttl = 3600u64;
    let token = jwt::sign_write("chunk-abc", ttl, now, &key).unwrap();
    let claims = jwt::verify(&token, &key, now).unwrap();
    let exp = claims.exp.unwrap();
    assert!(exp > now);
    assert!(exp <= now + ttl + 1);
}

#[test]
fn token_claims_keep_escaped_chunk_ids() {
    let key = jwt_test_key();
    let id = "odd \"id\"\\with\ncontrol\u{1}";
    let token = jwt::sign_read(id, 7, &key).unwrap();
    let claims = jwt::verify(&token, &key, 8).unwrap();
    assert_eq!(claims.chunk_id, id);
    assert_eq!(claims.iat, 7);
    assert_eq!(claims.exp, None);
}

#[test]
fn token_expires_exactly_at_exp() {
    let key = jwt_test_key();
    let token = jwt::sign_write("c", 10, 100, &key).unwrap();
    assert_eq!(jwt::verify(&token, &key, 109).unwrap().exp, Some(110));
    assert_eq!(jwt::verify(&token, &key, 110).unwrap_err(), TokenError::Expired);
}

#[test]
fn garbage_token_is_invalid() {
    let key = jwt_test_key();
    assert_eq!(jwt::verify("not-a-token", &key, 0).unwrap_err(), TokenError::Invalid);
}

#[test]
fn writing_path_of_nested_id() {
    let storage = Storage::new("/data".to_string());
    assert!(is_marker_name("ab/cd"));
    assert_eq!(storage.writing_path("ab/cd"), "/data/binary/ab/ab/cd.writing");
    assert_eq!(storage.writing_path("abcdef"), "/data/binary/ab/abcdef.writing");
}

#[test]
fn marker_names_refused_where_the_file_name_differs() {
    assert!(!is_marker_name(""));
    assert!(!is_marker_name("ab/"));
    assert!(!is_marker_name("a//b"));
    assert!(!is_marker_name("a/./b"));
    assert!(!is_marker_name("./b"));
    assert!(!is_marker_name("."));
    assert!(!is_marker_name("a/."));
    assert!(!is_marker_name(".."));
    assert!(!is_marker_name("a/.."));
    assert!(is_marker_name("a/../b"));
    assert!(is_marker_name("/abs"));
}

#[test]
fn marker_path_follows_path_rules_for_any_id() {
    let storage = Storage::new("/data".to_string());
    assert_eq!(storage.marker_path("abcdef"), Some("/data/binary/ab/abcdef.writing".to_string()));
    assert_eq!(storage.marker_path("ab/"), Some("/data/binary/ab/ab.writing".to_string()));
    assert_eq!(storage.marker_path("a//b"), Some("/data/binary/a/a/b.writing".to_string()));
    assert_eq!(storage.marker_path(".."), None);
}
