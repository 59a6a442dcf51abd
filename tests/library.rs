use dekinai::allocator::{compose_filename, draw_candidate, next_allocation_step, AllocationStep, MAX_ATTEMPTS};
use dekinai::config::{validate_dir, validate_password, AppConfig, ServerConfig};
use dekinai::handlers::{check_api_key, decide_delete, get_base_url, is_blacklisted, upload_extension, upload_urls, DeleteDecision};
use dekinai::ledger::reservation_result;
use dekinai::names::{get_file_extension, get_file_stem_with_extension};
use dekinai::secret::{check_password, get_random_text, hash_password};
use dekinai::text::same_text;
use dekinai::Error;
use std::collections::HashMap;

fn alnum(s: &str) -> bool {
    s.chars().all(|c| c.is_ascii_alphanumeric())
}

#[test]
fn error_constructors_ignore_cause() {
    assert_eq!(Error::BadRequest("x"), Error::BAD_REQUEST);
    assert_eq!(Error::InternalServerError(5u8), Error::INTERNAL_SERVER_ERROR);
    assert_eq!(Error::Unauthorized(()), Error::UNAUTHORIZED);
}

#[test]
fn error_status_codes() {
    assert_eq!(Error::BAD_REQUEST.status_code(), 400);
    assert_eq!(Error::INTERNAL_SERVER_ERROR.status_code(), 500);
    assert_eq!(Error::NOT_FOUND.status_code(), 404);
    assert_eq!(Error::UNAUTHORIZED.status_code(), 401);
}

#[test]
fn extension_is_lowercased() {
    assert_eq!(get_file_extension("report.PDF"), "pdf");
    assert_eq!(get_file_extension("archive.tar.GZ"), "gz");
    assert_eq!(get_file_extension("dir/photo.JpG"), "jpg");
}

#[test]
fn extension_absent() {
    assert_eq!(get_file_extension("README"), "");
    assert_eq!(get_file_extension(".bashrc"), "");
    assert_eq!(get_file_extension(".."), "");
    assert_eq!(get_file_extension(""), "");
    assert_eq!(get_file_extension("a.b/c"), "");
}

#[test]
fn stem_and_extension() {
    assert_eq!(get_file_stem_with_extension("abcdEFGH.TXT"), ("abcdEFGH", "txt".to_string()));
    assert_eq!(get_file_stem_with_extension("abcdEFGH"), ("abcdEFGH", String::new()));
    assert_eq!(get_file_stem_with_extension("archive.tar.gz"), ("archive.tar", "gz".to_string()));
    assert_eq!(get_file_stem_with_extension(".bashrc"), (".bashrc", String::new()));
    assert_eq!(get_file_stem_with_extension("x/y.Z"), ("y", "z".to_string()));
    assert_eq!(get_file_stem_with_extension(".."), ("", String::new()));
    assert_eq!(get_file_stem_with_extension("a."), ("a", String::new()));
}

#[test]
fn stem_follows_path_components() {
    assert_eq!(get_file_stem_with_extension("dir/"), ("dir", String::new()));
    assert_eq!(get_file_stem_with_extension("a/."), ("a", String::new()));
    assert_eq!(get_file_stem_with_extension("a/./b.TXT//"), ("b", "txt".to_string()));
    assert_eq!(get_file_stem_with_extension("a/.."), ("", String::new()));
    assert_eq!(get_file_stem_with_extension("/"), ("", String::new()));
    assert_eq!(get_file_stem_with_extension("."), ("", String::new()));
    assert_eq!(get_file_stem_with_extension("./"), ("", String::new()));
    assert_eq!(get_file_extension("photo.PNG/"), "png");
}

#[test]
fn same_text_compares_characters() {
    assert!(same_text("abc", "abc"));
    assert!(!same_text("abc", "abd"));
    assert!(!same_text("abc", "ab"));
    assert!(same_text("", ""));
}

#[test]
fn random_text_has_requested_length() {
    let mut rng = rand::thread_rng();
    let s = get_random_text(&mut rng, 8);
    assert_eq!(s.chars().count(), 8);
    assert!(alnum(&s));
    let s = get_random_text(&mut rng, 24);
    assert_eq!(s.chars().count(), 24);
    assert!(alnum(&s));
    assert_eq!(get_random_text(&mut rng, 0), "");
}

#[test]
fn hash_then_verify() {
    let mut rng = rand::thread_rng();
    let d = hash_password(&mut rng, "hunter2");
    assert_ne!(d, "hunter2");
    assert!(d.starts_with("$pbkdf2-sha256$i=10,l=32$"));
    assert_eq!(check_password(&d, "hunter2"), Ok(()));
    assert_eq!(check_password(&d, "hunter3"), Err(Error::UNAUTHORIZED));
    assert_eq!(check_password(&d, ""), Err(Error::UNAUTHORIZED));
}

#[test]
fn hashing_twice_gives_distinct_digests() {
    let mut rng = rand::thread_rng();
    let a = hash_password(&mut rng, "same secret");
    let b = hash_password(&mut rng, "same secret");
    assert_ne!(a, b);
    assert_eq!(check_password(&a, "same secret"), Ok(()));
    assert_eq!(check_password(&b, "same secret"), Ok(()));
}

#[test]
fn corrupt_digest_is_internal_error() {
    assert_eq!(check_password("not a digest", "x"), Err(Error::INTERNAL_SERVER_ERROR));
}

#[test]
fn reservation_results() {
    assert_eq!(reservation_result(Ok(())), Ok(true));
    assert_eq!(reservation_result(Err(Some("1555".to_string()))), Ok(false));
    assert_eq!(reservation_result(Err(Some("5".to_string()))), Err(Error::INTERNAL_SERVER_ERROR));
    assert_eq!(reservation_result(Err(None)), Err(Error::INTERNAL_SERVER_ERROR));
}

#[test]
fn filenames() {
    assert_eq!(compose_filename("abcdEFGH", "png"), "abcdEFGH.png");
    assert_eq!(compose_filename("abcdEFGH", ""), "abcdEFGH");
}

#[test]
fn candidates_are_well_formed() {
    let mut rng = rand::thread_rng();
    let c = draw_candidate(&mut rng, "txt");
    assert_eq!(c.stem.len(), 8);
    assert_eq!(c.secret.len(), 24);
    assert!(alnum(&c.stem) && alnum(&c.secret));
    assert_eq!(c.extension, "txt");
    assert_eq!(c.filename, format!("{}.txt", c.stem));
    assert_eq!(check_password(&c.secret_hash, &c.secret), Ok(()));
    assert_ne!(c.secret_hash, c.secret);
}

#[test]
fn allocation_steps() {
    assert_eq!(next_allocation_step(1, true, false), AllocationStep::Accept);
    assert_eq!(next_allocation_step(1, false, false), AllocationStep::Retry);
    assert_eq!(next_allocation_step(1, false, true), AllocationStep::Retry);
    assert_eq!(next_allocation_step(1, true, true), AllocationStep::ReleaseAndRetry);
    assert_eq!(next_allocation_step(MAX_ATTEMPTS, false, false), AllocationStep::GiveUp);
    assert_eq!(next_allocation_step(MAX_ATTEMPTS, true, true), AllocationStep::ReleaseAndGiveUp);
    assert_eq!(next_allocation_step(MAX_ATTEMPTS, true, false), AllocationStep::Accept);
    assert_eq!(AllocationStep::GiveUp.outcome(), Some(Err(Error::INTERNAL_SERVER_ERROR)));
    assert_eq!(AllocationStep::Accept.outcome(), Some(Ok(())));
    assert_eq!(AllocationStep::Retry.outcome(), None);
    assert!(AllocationStep::ReleaseAndRetry.releases());
    assert!(!AllocationStep::Retry.releases());
}

/// A store that enforces key uniqueness the way the database does.
fn insert(store: &mut HashMap<(String, String), String>, stem: &str, ext: &str, digest: &str) -> Result<(), Option<String>> {
    let key = (stem.to_string(), ext.to_string());
    if store.contains_key(&key) {
        Err(Some("1555".to_string()))
    } else {
        store.insert(key, digest.to_string());
        Ok(())
    }
}

/// Runs allocation against `store`, drawing stems from `stems` in turn.
fn allocate(store: &mut HashMap<(String, String), String>, stems: &[&str], ext: &str) -> Result<String, Error> {
    let mut attempt: u32 = 1;
    for stem in stems {
        let reserved = reservation_result(insert(store, stem, ext, "digest"))?;
        match next_allocation_step(attempt, reserved, false) {
            AllocationStep::Accept => return Ok(stem.to_string()),
            AllocationStep::Retry => {}
            AllocationStep::GiveUp => return Err(Error::INTERNAL_SERVER_ERROR),
            other => panic!("unexpected step {:?}", other),
        }
        attempt += 1;
    }
    Err(Error::INTERNAL_SERVER_ERROR)
}

#[test]
fn identical_stems_have_one_winner() {
    let mut store = HashMap::new();
    let first = allocate(&mut store, &["AAAAAAAA"], "txt");
    let second = allocate(&mut store, &["AAAAAAAA", "BBBBBBBB"], "txt");
    assert_eq!(first, Ok("AAAAAAAA".to_string()));
    assert_eq!(second, Ok("BBBBBBBB".to_string()));
    assert_eq!(store.len(), 2);
}

#[test]
fn preseeded_stem_is_never_returned() {
    let mut store = HashMap::new();
    store.insert(("SEEDED00".to_string(), "png".to_string()), "d".to_string());
    assert_eq!(allocate(&mut store, &["SEEDED00", "SEEDED00", "FRESH000"], "png"), Ok("FRESH000".to_string()));
    store.remove(&("SEEDED00".to_string(), "png".to_string()));
    assert_eq!(allocate(&mut store, &["SEEDED00"], "png"), Ok("SEEDED00".to_string()));
}

#[test]
fn same_stem_other_extension_coexists() {
    let mut store = HashMap::new();
    assert_eq!(allocate(&mut store, &["AAAAAAAA"], "txt"), Ok("AAAAAAAA".to_string()));
    assert_eq!(allocate(&mut store, &["AAAAAAAA"], "png"), Ok("AAAAAAAA".to_string()));
}

#[test]
fn n_allocations_give_n_distinct_stems() {
    let mut rng = rand::thread_rng();
    let mut store = HashMap::new();
    let mut stems = Vec::new();
    for _ in 0..50 {
        let c = draw_candidate(&mut rng, "bin");
        let reserved = reservation_result(insert(&mut store, &c.stem, "bin", &c.secret_hash)).unwrap();
        if next_allocation_step(1, reserved, false) == AllocationStep::Accept {
            stems.push(c.stem);
        }
    }
    let mut unique = stems.clone();
    unique.sort();
    unique.dedup();
    assert_eq!(unique.len(), stems.len());
}

#[test]
fn allocation_gives_up_after_ceiling() {
    let mut store = HashMap::new();
    store.insert(("TAKEN000".to_string(), String::new()), "d".to_string());
    let stems = vec!["TAKEN000"; MAX_ATTEMPTS as usize];
    assert_eq!(allocate(&mut store, &stems, ""), Err(Error::INTERNAL_SERVER_ERROR));
}

#[test]
fn api_key_checks() {
    let mut rng = rand::thread_rng();
    let d = hash_password(&mut rng, "key");
    assert_eq!(check_api_key(None, None), Ok(()));
    assert_eq!(check_api_key(None, Some("anything")), Ok(()));
    assert_eq!(check_api_key(Some(&d), None), Err(Error::UNAUTHORIZED));
    assert_eq!(check_api_key(Some(&d), Some("key")), Ok(()));
    assert_eq!(check_api_key(Some(&d), Some("wrong")), Err(Error::UNAUTHORIZED));
}

#[test]
fn blacklisted_extension_rejected_before_allocation() {
    let blacklist = vec!["pdf".to_string()];
    assert_eq!(upload_extension(Some("report.PDF"), Some(&blacklist)), Err(Error::BAD_REQUEST));
    assert_eq!(upload_extension(Some("report.txt"), Some(&blacklist)), Ok("txt".to_string()));
    assert!(is_blacklisted(&blacklist, "pdf"));
    assert!(!is_blacklisted(&blacklist, "PDF"));
}

#[test]
fn upload_without_filename_is_client_error() {
    assert_eq!(upload_extension(None, None), Err(Error::BAD_REQUEST));
}

#[test]
fn upload_without_blacklist() {
    assert_eq!(upload_extension(Some("hello.TXT"), None), Ok("txt".to_string()));
    assert_eq!(upload_extension(Some("hello"), None), Ok(String::new()));
}

#[test]
fn base_urls() {
    assert_eq!(get_base_url(None, None, None, None), "http://localhost/");
    assert_eq!(get_base_url(None, None, Some(54298), None), "http://localhost:54298/");
    assert_eq!(get_base_url(Some("https"), Some("example.com"), Some(80), Some("/files")), "https://example.com/files/");
    assert_eq!(get_base_url(None, Some("localhost"), Some(8), Some("/up/")), "http://localhost:8/up/");
}

#[test]
fn urls_of_upload() {
    let (public, deletion) = upload_urls("http://localhost/", "abcdEFGH.txt", "S3cret");
    assert_eq!(public, "http://localhost/abcdEFGH.txt");
    assert_eq!(deletion, "http://localhost/abcdEFGH.txt/S3cret");
}

#[test]
fn delete_with_secret_then_again() {
    let mut rng = rand::thread_rng();
    let d = hash_password(&mut rng, "X");
    let first = decide_delete(true, Some(&d), "X");
    assert_eq!(first, DeleteDecision::ReleaseThenRemoveFile);
    assert_eq!(first.response(), Ok(()));
    let second = decide_delete(false, None, "X");
    assert_eq!(second, DeleteDecision::ReleaseThenNotFound);
    assert_eq!(second.response(), Err(Error::NOT_FOUND));
}

#[test]
fn delete_with_wrong_secret() {
    let mut rng = rand::thread_rng();
    let d = hash_password(&mut rng, "X");
    let r = decide_delete(true, Some(&d), "Y");
    assert_eq!(r, DeleteDecision::Refuse(Error::UNAUTHORIZED));
    assert_eq!(r.response(), Err(Error::UNAUTHORIZED));
}

#[test]
fn delete_without_record() {
    assert_eq!(decide_delete(true, None, "X"), DeleteDecision::Refuse(Error::UNAUTHORIZED));
    assert_eq!(decide_delete(true, Some("garbage"), "X"), DeleteDecision::Refuse(Error::INTERNAL_SERVER_ERROR));
}

#[test]
fn app_config_from_options() {
    let mut rng = rand::thread_rng();
    let c = AppConfig::from_options(
        &mut rng,
        Some(vec!["PHP".to_string(), "Html".to_string()]),
        "/srv/out".to_string(),
        Some("pw"),
        Some(54298),
        false,
    );
    assert_eq!(c.blacklist, Some(vec!["php".to_string(), "html".to_string()]));
    assert_eq!(c.output, "/srv/out");
    assert_eq!(c.port, Some(54298));
    assert_eq!(check_password(c.password_hash.as_ref().unwrap(), "pw"), Ok(()));
    let c = AppConfig::from_options(&mut rng, None, "o".to_string(), None, Some(1), true);
    assert_eq!(c.port, None);
    assert_eq!(c.password_hash, None);
    assert_eq!(c.blacklist, None);
}

#[test]
fn server_config_uri() {
    assert_eq!(ServerConfig::new(None, "./").database_uri(), "sqlite://./dekinai.sqlite");
    assert_eq!(ServerConfig::new(None, "/var/db").database_uri(), "sqlite:///var/db/dekinai.sqlite");
    let s = ServerConfig::new(Some("/tmp/s.sock".to_string()), "");
    assert_eq!(s.database_uri(), "sqlite://dekinai.sqlite");
    assert_eq!(s.unix, Some("/tmp/s.sock".to_string()));
}

#[test]
fn password_validation() {
    assert_eq!(validate_password("abc"), Ok("abc".to_string()));
    assert_eq!(validate_password("pässword"), Err("Password needs to contain only ASCII characters".to_string()));
}

#[test]
fn dir_validation() {
    assert_eq!(validate_dir("out", true), Ok("out".to_string()));
    assert_eq!(validate_dir("nope", false), Err("Cannot access directory \"nope\"".to_string()));
}
