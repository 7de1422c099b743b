use janitor::auth::authenticator::{urlencode, Authenticator, SignInStep};
use janitor::auth::browser::{
    build_browser_command, choose_strategy, select, Browser, CommandBrowser, Strategy,
    NATIVE_SENTINEL,
};
use janitor::auth::error::SignInError;
use janitor::auth::loopback::{self, bind_first_free, first_request_target, query_param, BindStep};
use janitor::auth::pkce::{self, base64url_no_pad, s256_challenge};
use janitor::auth::state;
use janitor::auth::types::{Credential, SsoToken, Timestamp};
use janitor::auth::wire::ClientRegistration;
use janitor::aws::loopback as registered;

const URL: &str = "https://oidc.example/authorize?client_id=abc&state=xyz";

#[test]
fn urlencode_escapes_reserved_and_keeps_unreserved() {
    assert_eq!(urlencode("a-b_c.d~e"), "a-b_c.d~e");
    assert_eq!(urlencode("a/b c"), "a%2Fb%20c");
    assert_eq!(urlencode("x:y"), "x%3Ay");
}

#[test]
fn urlencode_escapes_each_utf8_byte() {
    assert_eq!(urlencode("é"), "%C3%A9");
    assert_eq!(urlencode(""), "");
}

#[test]
fn decoding_undoes_encoding_of_ascii() {
    let text = "a b+c&d=e/f?g%h~";
    assert_eq!(loopback::percent_decode(&urlencode(text)), text);
}

#[test]
fn none_chooses_the_default_browser() {
    assert_eq!(choose_strategy(None, false), Strategy::Default);
    assert_eq!(choose_strategy(None, true), Strategy::Default);
}

#[test]
fn blank_or_whitespace_command_falls_back_to_default() {
    assert_eq!(choose_strategy(Some(""), false), Strategy::Default);
    assert_eq!(choose_strategy(Some("   "), false), Strategy::Default);
}

#[test]
fn a_real_command_chooses_the_command_browser() {
    assert_eq!(
        choose_strategy(Some("firefox -private-window {url}"), false),
        Strategy::Command("firefox -private-window {url}".to_string())
    );
}

#[test]
fn native_sentinel_selects_native_on_macos_else_default() {
    assert_eq!(choose_strategy(Some(NATIVE_SENTINEL), true), Strategy::WebAuthSession);
    assert_eq!(choose_strategy(Some(NATIVE_SENTINEL), false), Strategy::Default);
}

#[test]
fn native_sentinel_tolerates_surrounding_whitespace() {
    assert_eq!(choose_strategy(Some("  @native  "), true), Strategy::WebAuthSession);
    assert_eq!(choose_strategy(Some("  @native  "), false), Strategy::Default);
}

#[test]
fn select_builds_the_browser_of_the_strategy() {
    assert_eq!(
        select(Some(" chrome "), false),
        Browser::Command(CommandBrowser::new("chrome".to_string()))
    );
    assert!(matches!(select(None, true), Browser::Default(_)));
    assert!(matches!(select(Some("@native"), true), Browser::WebAuthSession(_)));
}

#[test]
fn substitutes_url_placeholder_as_one_standalone_arg() {
    let (program, args) = build_browser_command("firefox -private-window {url}", URL).unwrap();
    assert_eq!(program, "firefox");
    assert_eq!(args, vec!["-private-window".to_string(), URL.to_string()]);
}

#[test]
fn appends_url_when_no_placeholder() {
    let (program, args) = build_browser_command("chrome --incognito", URL).unwrap();
    assert_eq!(program, "chrome");
    assert_eq!(args, vec!["--incognito".to_string(), URL.to_string()]);
}

#[test]
fn placeholder_present_is_not_also_appended() {
    let (program, args) = build_browser_command("open -a Safari {url}", URL).unwrap();
    assert_eq!(program, "open");
    assert_eq!(args, vec!["-a".to_string(), "Safari".to_string(), URL.to_string()]);
}

#[test]
fn blank_command_is_none() {
    assert!(build_browser_command("   ", URL).is_none());
    assert!(build_browser_command("", URL).is_none());
    assert_eq!(
        CommandBrowser::new("  ".to_string()).launch(URL),
        Err(SignInError::BrowserLaunch)
    );
}

#[test]
fn a_placeholder_inside_a_word_is_substituted() {
    let (program, args) = build_browser_command("app\u{a0}--at={url}&{url}", "U").unwrap();
    assert_eq!(program, "app");
    assert_eq!(args, vec!["--at=U&U".to_string()]);
}

#[test]
fn loopback_extracts_target_from_request_line() {
    let req = "GET /callback?code=abc&state=xyz HTTP/1.1\r\nHost: 127.0.0.1\r\n\r\n";
    assert_eq!(first_request_target(req), Some("/callback?code=abc&state=xyz"));
}

#[test]
fn extracts_target_from_request_line() {
    let req = "GET /callback?code=abc&state=xyz HTTP/1.1\r\nHost: 127.0.0.1\r\n\r\n";
    assert_eq!(registered::first_request_target(req), Some("/callback?code=abc&state=xyz"));
}

#[test]
fn a_request_without_a_target_is_a_network_error() {
    assert_eq!(first_request_target(""), None);
    assert_eq!(first_request_target("GET\r\n/late HTTP/1.1"), None);
    assert_eq!(loopback::redirect_query("GET"), Err(SignInError::Network));
    assert_eq!(loopback::redirect_query("GET /callback HTTP/1.1"), Ok("".to_string()));
    assert_eq!(
        loopback::redirect_query("GET /callback?a=1?b HTTP/1.1\r\n"),
        Ok("a=1?b".to_string())
    );
}

#[test]
fn a_redirect_is_read_from_its_bytes() {
    assert_eq!(
        loopback::redirect_query_of("GET /cb?code=é HTTP/1.1".as_bytes()),
        Ok("code=é".to_string())
    );
    assert_eq!(
        loopback::redirect_query_of(b"GET /cb?code=\xff1&state=2 HTTP/1.1\r\n\xfe"),
        Ok("code=\u{fffd}1&state=2".to_string())
    );
    assert_eq!(loopback::redirect_query_of(b""), Err(SignInError::Network));
}

#[test]
fn loopback_parses_query_params_with_decoding() {
    let q = "code=ab%2Fcd&state=xy+z";
    assert_eq!(query_param(q, "code").as_deref(), Some("ab/cd"));
    assert_eq!(query_param(q, "state").as_deref(), Some("xy z"));
    assert_eq!(query_param(q, "missing"), None);
}

#[test]
fn parses_query_params_with_decoding() {
    let q = "code=ab%2Fcd&state=xy+z";
    assert_eq!(registered::query_param(q, "code").as_deref(), Some("ab/cd"));
    assert_eq!(registered::query_param(q, "state").as_deref(), Some("xy z"));
    assert_eq!(registered::query_param(q, "missing"), None);
}

#[test]
fn a_query_takes_the_first_pair_with_the_key() {
    assert_eq!(query_param("a=1&a=2", "a").as_deref(), Some("1"));
    assert_eq!(query_param("a&b=1=2&", "b").as_deref(), Some("1=2"));
    assert_eq!(query_param("a", "a"), None);
    assert_eq!(query_param("", ""), None);
    assert_eq!(query_param("=x", "").as_deref(), Some("x"));
}

#[test]
fn an_escape_that_denotes_no_byte_stays() {
    assert_eq!(loopback::percent_decode("%"), "%");
    assert_eq!(loopback::percent_decode("%4"), "\u{4}");
    assert_eq!(loopback::percent_decode("%zz%4"), "%zz\u{4}");
    assert_eq!(loopback::percent_decode("%+4"), "% 4");
    assert_eq!(loopback::percent_decode("%e9"), "\u{e9}");
}

#[test]
fn registered_redirect_uri_uses_loopback_and_oauth_callback_path() {
    assert_eq!(
        loopback::redirect_uris(),
        vec!["http://127.0.0.1/oauth/callback".to_string()]
    );
}

#[test]
fn redirect_uris_use_literal_loopback_ip() {
    for uri in registered::redirect_uris() {
        assert!(uri.starts_with("http://127.0.0.1:"), "must be literal 127.0.0.1");
        assert!(uri.ends_with("/callback"));
    }
    assert_eq!(registered::redirect_uris().len(), 4);
    assert_eq!(registered::redirect_uris()[1], "http://127.0.0.1:53691/callback");
}

#[test]
fn bound_redirect_uri_uses_oauth_callback_path() {
    let BindStep::Try(turn) = bind_first_free() else {
        panic!("a port is tried first");
    };
    assert_eq!(turn.port(), 53690);
    let BindStep::Bound(uri) = turn.resume(true) else {
        panic!("bound");
    };
    assert!(uri.starts_with("http://127.0.0.1:"), "literal loopback host");
    assert!(uri.ends_with("/oauth/callback"), "path must be /oauth/callback, got {uri}");
    assert_eq!(uri, "http://127.0.0.1:53690/oauth/callback");
}

#[test]
fn binding_tries_each_port_in_order_and_then_fails() {
    let mut step = bind_first_free();
    let mut tried = Vec::new();
    loop {
        match step {
            BindStep::Try(turn) => {
                tried.push(turn.port());
                step = turn.resume(false);
            }
            BindStep::Bound(_) => panic!("no port is free"),
            BindStep::Failed(e) => {
                assert_eq!(e, SignInError::NoLoopbackPort);
                break;
            }
        }
    }
    assert_eq!(tried, vec![53690, 53691, 53692, 53693]);
}

#[test]
fn the_response_names_the_length_of_its_page() {
    let response = loopback::redirect_response();
    let (head, body) = response.split_once("\r\n\r\n").unwrap();
    assert!(head.starts_with("HTTP/1.1 200 OK\r\nContent-Type: text/html\r\nContent-Length: "));
    assert!(head.contains(&format!("Content-Length: {}\r\n", body.len())));
    assert!(head.ends_with("Connection: close"));
    assert_eq!(body, "<html><body>Sign-in complete. You can close this tab.</body></html>");
}

#[test]
fn s256_matches_rfc7636_appendix_b() {
    let verifier = "dBjftJeZ4CVP-mB92K27uhbUJU1p1r_wW1gFWFOEjXk";
    let expected = "E9Melhoa2OwvFrEMTJguCHaoeK1t8URWbuGJSstw-cM";
    assert_eq!(s256_challenge(verifier), expected);
}

#[test]
fn base64url_is_unpadded_and_urlsafe() {
    let out = base64url_no_pad(&[0xfb, 0xff, 0xfe]);
    assert!(!out.contains('='), "must be unpadded");
    assert!(!out.contains('+') && !out.contains('/'), "must be url-safe");
    assert_eq!(out, "-__-");
    assert_eq!(base64url_no_pad(&[0x66]), "Zg");
    assert_eq!(base64url_no_pad(b"foobar"), "Zm9vYmFy");
}

#[test]
fn generated_verifier_is_in_rfc_length_range() {
    let p = pkce::generate();
    assert!(
        (43..=128).contains(&p.verifier.len()),
        "verifier length {} out of RFC 7636 range",
        p.verifier.len()
    );
    assert_eq!(s256_challenge(&p.verifier), p.challenge);
}

#[test]
fn two_generates_differ() {
    assert_ne!(pkce::generate().verifier, pkce::generate().verifier, "must be random");
}

#[test]
fn generated_state_is_nonempty_and_random() {
    let a = state::generate();
    let b = state::generate();
    assert!(!a.is_empty());
    assert_ne!(a, b, "state must be unpredictable");
}

#[test]
fn matching_state_accepted() {
    let s = state::generate();
    assert!(state::matches(&s, &s));
}

#[test]
fn mismatched_state_rejected() {
    let s = state::generate();
    assert!(!state::matches(&s, "attacker-supplied-value"));
    assert!(!state::matches(&s, &format!("{s}x")), "length differs → reject");
    assert!(!state::matches("abc", "abd"));
}

#[test]
fn token_and_credential_debug_redact_secrets() {
    let epoch = Timestamp { nanos: 0 };
    let t = SsoToken::new("super-secret-token".into(), epoch);
    assert!(!format!("{t:?}").contains("super-secret-token"));
    assert_eq!(format!("{t:?}"), "SsoToken { expires_at: Timestamp { nanos: 0 } }");
    assert_eq!(t.expose(), "super-secret-token");

    let c = Credential::new("AKIA".into(), "wJalr-secret".into(), "sess".into(), epoch);
    let shown = format!("{c:?}");
    assert_eq!(shown, "Credential { expiration: Timestamp { nanos: 0 } }");
    assert!(!shown.contains("wJalr-secret"));
    assert!(!shown.contains("AKIA"));
    assert_eq!(c.access_key_id(), "AKIA");
    assert_eq!(c.secret_access_key(), "wJalr-secret");
    assert_eq!(c.session_token(), "sess");
}

#[test]
fn is_stale_respects_skew() {
    let at = |secs: i128| Timestamp { nanos: secs * 1_000_000_000 };
    let c = Credential::new("a".into(), "b".into(), "c".into(), at(3600));
    let skew: u128 = 60_000_000_000;

    assert!(!c.is_stale(at(3000), skew));
    assert!(c.is_stale(at(3540), skew));
    assert!(c.is_stale(at(4000), skew));
    let dawn = Credential::new("a".into(), "b".into(), "c".into(), Timestamp { nanos: i128::MIN });
    assert!(dawn.is_stale(Timestamp { nanos: i128::MIN }, 1));
}

fn registration() -> ClientRegistration {
    ClientRegistration {
        client_id: "client 1".into(),
        client_secret: "cs".into(),
        authorization_endpoint: "https://oidc.us-east-1.amazonaws.com/authorize".into(),
    }
}

/// Drive a Sign-in up to the token exchange, with a browser that answers `code` and,
/// unless it is forced, the nonce it was sent with.
fn sign_in_to_exchange(code: Option<&str>, force_state: Option<&str>) -> SignInStep {
    let SignInStep::Register(turn) = Authenticator::new("https://identitycenter.amazonaws.com/ssoins-test".into()).sign_in_once()
    else {
        panic!("registers first");
    };
    assert_eq!(turn.issuer_url(), "https://identitycenter.amazonaws.com/ssoins-test");
    assert_eq!(turn.redirect_uris(), vec!["http://127.0.0.1/oauth/callback".to_string()]);
    let SignInStep::Listen(turn) = turn.resume(Ok(registration())) else {
        panic!("binds next");
    };
    let SignInStep::Open(turn) = turn.resume(Ok("http://127.0.0.1:53690/oauth/callback".into()))
    else {
        panic!("opens next");
    };
    let (endpoint, query) = turn.url().split_once('?').expect("a query");
    assert_eq!(endpoint, "https://oidc.us-east-1.amazonaws.com/authorize");
    assert_eq!(query_param(query, "response_type").as_deref(), Some("code"));
    assert_eq!(query_param(query, "client_id").as_deref(), Some("client 1"));
    assert_eq!(
        query_param(query, "redirect_uri").as_deref(),
        Some("http://127.0.0.1:53690/oauth/callback")
    );
    assert_eq!(query_param(query, "code_challenge_method").as_deref(), Some("S256"));
    assert_eq!(query_param(query, "scopes").as_deref(), Some("sso:account:access"));
    let nonce = force_state
        .map(str::to_string)
        .or_else(|| query_param(query, "state"))
        .expect("authorize URL carries state");
    let q = match code {
        Some(c) => format!("code={c}&state={nonce}"),
        None => format!("state={nonce}"),
    };
    let request = format!("GET /oauth/callback?{q} HTTP/1.1\r\nHost: x\r\n\r\n");
    let SignInStep::Redirect(turn) = turn.resume(Ok(())) else {
        panic!("waits for the redirect");
    };
    turn.resume(loopback::redirect_query(&request))
}

#[test]
fn sign_in_once_returns_token_on_happy_path() {
    let SignInStep::Exchange(turn) = sign_in_to_exchange(Some("auth-code-123"), None) else {
        panic!("the code is exchanged");
    };
    let exchange = turn.exchange();
    assert_eq!(exchange.code, "auth-code-123");
    assert_eq!(exchange.redirect_uri, "http://127.0.0.1:53690/oauth/callback");
    assert_eq!(exchange.registration.client_id, "client 1");
    assert_eq!(exchange.code_verifier.len(), 43);
    let token = SsoToken::new("fake-access-token".into(), Timestamp { nanos: 0 });
    let SignInStep::Done(Ok(token)) = turn.resume(Ok(token)) else {
        panic!("signed in");
    };
    assert_eq!(token.expose(), "fake-access-token");
}

#[test]
fn sign_in_once_rejects_state_mismatch_before_token_exchange() {
    let step = sign_in_to_exchange(Some("c"), Some("WRONG-STATE"));
    assert!(matches!(step, SignInStep::Done(Err(SignInError::StateMismatch))));
}

#[test]
fn sign_in_once_errors_when_redirect_carries_no_code() {
    let step = sign_in_to_exchange(None, None);
    assert!(matches!(step, SignInStep::Done(Err(SignInError::TokenEndpoint))));
}

#[test]
fn sign_in_once_propagates_register_client_failure() {
    let SignInStep::Register(turn) = Authenticator::new("u".into()).sign_in_once() else {
        panic!("registers first");
    };
    let step = turn.resume(Err(SignInError::Sdk { context: "RegisterClient".into() }));
    assert!(matches!(step, SignInStep::Done(Err(SignInError::Sdk { .. }))));
}

#[test]
fn sign_in_once_propagates_create_token_failure() {
    let SignInStep::Exchange(turn) = sign_in_to_exchange(Some("c"), None) else {
        panic!("the code is exchanged");
    };
    let step = turn.resume(Err(SignInError::TokenEndpoint));
    assert!(matches!(step, SignInStep::Done(Err(SignInError::TokenEndpoint))));
}

#[test]
fn the_challenge_in_the_url_is_that_of_the_verifier() {
    let SignInStep::Register(turn) = Authenticator::new("u".into()).sign_in_once() else {
        panic!("registers first");
    };
    let SignInStep::Listen(turn) = turn.resume(Ok(registration())) else {
        panic!("binds next");
    };
    let pair = pkce::from_random(&[7u8; 32]);
    let challenge = pair.challenge.clone();
    let SignInStep::Open(turn) = turn.resume_with(Ok("http://r".into()), pair, "nonce".into())
    else {
        panic!("opens next");
    };
    assert_eq!(
        turn.url(),
        format!(
            "https://oidc.us-east-1.amazonaws.com/authorize?response_type=code&client_id=client%201&redirect_uri=http%3A%2F%2Fr&code_challenge={challenge}&code_challenge_method=S256&state=nonce&scopes=sso:account:access"
        )
    );
    let step = turn.resume(Err(SignInError::BrowserLaunch));
    assert!(matches!(step, SignInStep::Done(Err(SignInError::BrowserLaunch))));
}

#[test]
fn a_port_that_cannot_be_bound_and_a_redirect_that_never_comes_end_the_sign_in() {
    let SignInStep::Register(turn) = Authenticator::new("u".into()).sign_in_once() else {
        panic!("registers first");
    };
    let SignInStep::Listen(turn) = turn.resume(Ok(registration())) else {
        panic!("binds next");
    };
    let step = turn.resume(Err(SignInError::NoLoopbackPort));
    assert!(matches!(step, SignInStep::Done(Err(SignInError::NoLoopbackPort))));
}

#[test]
fn the_first_free_port_is_bound() {
    let free = [53692, 53693];
    let mut step = bind_first_free();
    let uri = loop {
        step = match step {
            BindStep::Try(turn) => {
                let bound = free.contains(&turn.port());
                turn.resume(bound)
            }
            BindStep::Bound(uri) => break uri,
            BindStep::Failed(e) => panic!("two ports are free: {e:?}"),
        };
    };
    assert_eq!(uri, "http://127.0.0.1:53692/oauth/callback");
}

#[test]
fn the_verifier_exchanged_is_the_one_that_was_challenged() {
    let pair = pkce::from_random(&[7u8; 32]);
    let verifier = pair.verifier.clone();
    let redirected = |query: &str| {
        let SignInStep::Register(turn) = Authenticator::new("u".into()).sign_in_once() else {
            panic!("registers first");
        };
        let SignInStep::Listen(turn) = turn.resume(Ok(registration())) else {
            panic!("binds next");
        };
        let pair = pkce::from_random(&[7u8; 32]);
        let SignInStep::Open(turn) = turn.resume_with(Ok("http://r".into()), pair, "nonce".into())
        else {
            panic!("opens next");
        };
        assert!(turn.url().contains(&pkce::s256_challenge(&verifier)));
        let SignInStep::Redirect(turn) = turn.resume(Ok(())) else {
            panic!("waits for the redirect");
        };
        turn.resume(Ok(query.to_string()))
    };
    let SignInStep::Exchange(turn) = redirected("code=c&state=nonce") else {
        panic!("the code is exchanged");
    };
    assert_eq!(turn.exchange().code_verifier, verifier);
    assert!(
        matches!(redirected("code=c"), SignInStep::Done(Err(SignInError::StateMismatch))),
        "a redirect without a state is refused"
    );
}
