use music_manager::spotify::{
    basic_auth_header, generate_code_challenge, generate_code_verifier, generate_random_string,
    generate_state, initiate_oauth, oauth_start, pkce_string_from, SPOTIFY_AUTH_URL,
};

#[test]
fn test_generate_code_verifier() {
    let verifier = generate_code_verifier();
    assert_eq!(verifier.len(), 128);
    assert!(verifier
        .chars()
        .all(|c| c.is_ascii_alphanumeric() || c == '-' || c == '.' || c == '_' || c == '~'));
}

#[test]
fn test_generate_code_challenge() {
    let verifier = "test_verifier_with_sufficient_length_for_pkce_requirements_to_be_met_and_valid";
    let challenge = generate_code_challenge(verifier);
    assert_eq!(challenge.len(), 43);
    assert!(challenge.chars().all(|c| c.is_ascii_alphanumeric() || c == '-' || c == '_'));
}

#[test]
fn code_challenge_known_value() {
    // RFC 7636, appendix B.
    assert_eq!(
        generate_code_challenge("dBjftJeZ4CVP-mB92K27uhbUJU1p1r_wW1gFWFOEjXk"),
        "E9Melhoa2OwvFrEMTJguCHaoeK1t8URWbuGJSstw-cM"
    );
}

#[test]
fn test_generate_state() {
    let state = generate_state();
    assert_eq!(state.len(), 16);
}

#[test]
fn random_string_length() {
    assert_eq!(generate_random_string(0), "");
    assert_eq!(generate_random_string(7).chars().count(), 7);
}

#[test]
fn test_initiate_oauth() {
    let client_id = "test_client_id";
    let redirect_uri = "http://localhost:3000/callback";
    let (response, session) = initiate_oauth(client_id, redirect_uri);
    assert!(response.auth_url.starts_with(SPOTIFY_AUTH_URL));
    assert!(response.auth_url.contains(client_id));
    assert!(response.auth_url.contains("code_challenge_method=S256"));
    assert_eq!(response.state, session.state);
    assert_eq!(session.code_verifier.len(), 128);
}

#[test]
fn oauth_start_builds_encoded_url() {
    let (response, session) = oauth_start(
        "my id",
        "http://localhost:3000/callback",
        "dBjftJeZ4CVP-mB92K27uhbUJU1p1r_wW1gFWFOEjXk".to_string(),
        "abc".to_string(),
        1700000000,
    );
    assert_eq!(
        response.auth_url,
        "https://accounts.spotify.com/authorize?client_id=my%20id&response_type=code&redirect_uri=http%3A%2F%2Flocalhost%3A3000%2Fcallback&state=abc&scope=playlist-read-private%20playlist-read-collaborative%20user-library-read&code_challenge=E9Melhoa2OwvFrEMTJguCHaoeK1t8URWbuGJSstw-cM&code_challenge_method=S256"
    );
    assert_eq!(response.state, "abc");
    assert_eq!(session.created_at, 1700000000);
}

#[test]
fn basic_auth_header_value() {
    // "id:secret" in URL-safe base64 without padding.
    assert_eq!(basic_auth_header("id", "secret"), "Basic aWQ6c2VjcmV0");
    // One and two bytes left over give two and three digits.
    assert_eq!(basic_auth_header("ab", "c"), "Basic YWI6Yw");
    assert_eq!(basic_auth_header("ab", "cd"), "Basic YWI6Y2Q");
    // The URL-safe digits for 62 and 63.
    assert_eq!(basic_auth_header("a", "~~"), "Basic YTp-fg");
    assert_eq!(basic_auth_header("a", "??>"), "Basic YTo_Pz4");
}

#[test]
fn pkce_string_maps_positions_to_charset() {
    assert_eq!(pkce_string_from(&vec![0, 25, 26, 51, 52, 61, 62, 63, 64, 65]), "AZaz09-._~");
    assert_eq!(pkce_string_from(&vec![]), "");
    assert_eq!(pkce_string_from(&vec![7, 7, 30]), "HHe");
}

#[test]
fn random_strings_are_not_constant() {
    let a = generate_code_verifier();
    let b = generate_code_verifier();
    assert_ne!(a, b);
    assert!(a.chars().collect::<std::collections::HashSet<_>>().len() > 1);
}
