use comfybox::auth::{
    hf_token, huggingface_cache_paths, normalize_token, resolve_hf_token, save_hf_token, token_path,
    EnvValue, HfTokenSource, TokenFile, TokenPlaces,
};

fn places() -> TokenPlaces {
    TokenPlaces {
        session: None,
        environment: EnvValue::Absent,
        explicit: None,
        saved: ("/c/hf_token".to_owned(), TokenFile::Absent),
        cache: Vec::new(),
    }
}

fn found(p: &TokenPlaces) -> (String, HfTokenSource) {
    match resolve_hf_token(p) {
        Ok(Some(c)) => (c.token().to_owned(), c.source()),
        Ok(None) => ("none".to_owned(), HfTokenSource::Session),
        Err(e) => (e, HfTokenSource::Session),
    }
}

#[test]
fn token_is_trimmed_without_being_logged() {
    assert_eq!(
        normalize_token("  hf_example\n").unwrap().as_deref(),
        Some("hf_example")
    );
}

#[test]
fn blank_or_whitespace_tokens_are_rejected() {
    assert!(normalize_token("   ").unwrap().is_none());
    assert!(normalize_token("hf_bad token").is_err());
}

#[test]
fn long_tokens_are_rejected() {
    assert!(normalize_token(&"x".repeat(4096)).unwrap().is_some());
    assert_eq!(
        normalize_token(&"x".repeat(4097)).unwrap_err(),
        "HF token contains whitespace or is unexpectedly long"
    );
}

#[test]
fn tokens_are_resolved_in_order() {
    let mut p = places();
    assert!(resolve_hf_token(&p).unwrap().is_none());
    p.cache.push(("/h/token".to_owned(), TokenFile::Absent));
    p.cache.push(("/h/.cache/huggingface/token".to_owned(), TokenFile::Text("cached\n".to_owned())));
    assert_eq!(found(&p), ("cached".to_owned(), HfTokenSource::HuggingFaceCache));
    p.saved.1 = TokenFile::Text("saved".to_owned());
    assert_eq!(found(&p), ("saved".to_owned(), HfTokenSource::ComfyBoxCredential));
    p.explicit = Some(("/e".to_owned(), TokenFile::Text("explicit".to_owned())));
    assert_eq!(found(&p), ("explicit".to_owned(), HfTokenSource::ExplicitTokenPath));
    p.environment = EnvValue::Text("env".to_owned());
    assert_eq!(found(&p), ("env".to_owned(), HfTokenSource::Environment));
    p.environment = EnvValue::Text("  ".to_owned());
    assert_eq!(found(&p), ("explicit".to_owned(), HfTokenSource::ExplicitTokenPath));
    p.session = Some("session".to_owned());
    assert_eq!(found(&p), ("session".to_owned(), HfTokenSource::Session));
    assert_eq!(hf_token(&p).unwrap().as_deref(), Some("session"));
}

#[test]
fn token_errors_say_where_they_come_from() {
    let mut p = places();
    p.environment = EnvValue::NotUnicode;
    assert_eq!(found(&p).0, "HF_TOKEN is not valid Unicode");
    p.environment = EnvValue::Text("a b".to_owned());
    assert_eq!(
        found(&p).0,
        "invalid HF_TOKEN: HF token contains whitespace or is unexpectedly long"
    );
    p.environment = EnvValue::Absent;
    p.saved.1 = TokenFile::Text("\n".to_owned());
    assert_eq!(found(&p).0, "token file is empty: /c/hf_token");
    p.saved.1 = TokenFile::Unreadable("denied".to_owned());
    assert_eq!(found(&p).0, "read token from /c/hf_token: denied");
    assert!(hf_token(&p).is_err());
}

#[test]
fn a_token_is_saved_beside_its_file_first() {
    let save = save_hf_token(" hf_x \n", "/c", false).ok().unwrap();
    assert_eq!(save.token, "hf_x");
    assert_eq!(save.contents, "hf_x\n");
    assert_eq!(save.path, "/c/hf_token");
    assert_eq!(save.parent, "/c");
    assert!(save.temporary.starts_with("/c/hf_token.tmp."));
    assert_eq!(save.temporary.len(), "/c/hf_token.tmp.".len() + 36);
    let again = save_hf_token("hf_x", "/c", false).ok().unwrap();
    assert_ne!(save.temporary, again.temporary);
    assert_eq!(save_hf_token("  ", "/c", false).err().unwrap(), "HF token cannot be empty");
    assert!(save_hf_token("a b", "/c", false).is_err());
    assert_eq!(token_path("/c", false), "/c/hf_token");
}

#[test]
fn cache_locations_come_in_order() {
    assert_eq!(
        huggingface_cache_paths(Some("/hf"), Some("/home/u"), false),
        vec![
            "/hf/token".to_owned(),
            "/home/u/.cache/huggingface/token".to_owned(),
            "/home/u/.huggingface/token".to_owned(),
        ]
    );
    assert!(huggingface_cache_paths(None, None, false).is_empty());
    assert_eq!(HfTokenSource::HuggingFaceCache.label(), "Hugging Face cache");
    assert_eq!(HfTokenSource::Session.label(), "current session");
}
