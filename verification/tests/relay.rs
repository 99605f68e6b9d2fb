use peek::message::{Incoming, Message};
use peek::proto::{
    decode_frame, deserialize_request, encode_frame, serialize_response, RegistrationRequest,
};
use peek::relay::config::{build_registry, server_config, AppConfig};
use peek::relay::access::{
    answer_form, carries_cookie, generate_auth_cookie, has_valid_cookie, let_in, decide_access,
    password_page, submitted_password, Admission, Passage,
};
use peek::relay::handler::{
    client_ip_texts, extract_client_ip, extract_subdomain, forward, public_handler, relay_answer,
    settle, tunnel_of, ws_handler, Outcome,
};
use peek::relay::http::{
    not_found_page, Reply, RequestHead, BAD_GATEWAY_PAGE, GATEWAY_TIMEOUT_PAGE, NOT_FOUND_PAGE,
    PAYLOAD_TOO_LARGE_PAGE, SERVICE_UNAVAILABLE_PAGE, TOO_MANY_REQUESTS_PAGE,
};
use peek::relay::rate_limit::{ClientIp, RateLimiter};
use peek::relay::registry::{
    name_from_draws, Registry, TunnelConnection, MAX_PENDING_PER_TUNNEL,
};
use peek::relay::session::{
    open_tunnel, registration_text, decide_registration, Session, SessionAction, SessionEvent, Stage,
};

const SECOND: u128 = 1_000_000_000;

fn v4(a: u8, b: u8, c: u8, d: u8) -> ClientIp {
    ClientIp::V4(u32::from_be_bytes([a, b, c, d]))
}

/// Reads a dotted address.
fn parse_v4(text: &str) -> Option<ClientIp> {
    let parts: Vec<u8> = text.split('.').filter_map(|part| part.parse().ok()).collect();
    match parts[..] {
        [a, b, c, d] => Some(v4(a, b, c, d)),
        _ => None,
    }
}

fn ip_from_headers(headers: &[(String, Vec<u8>)]) -> Option<ClientIp> {
    let texts = client_ip_texts(headers);
    extract_client_ip(
        texts.cf_connecting_ip.and_then(|text| parse_v4(&text)),
        texts.x_forwarded_for.and_then(|text| parse_v4(&text)),
        texts.x_real_ip.and_then(|text| parse_v4(&text)),
    )
}

fn header(name: &str, value: &str) -> (String, Vec<u8>) {
    (name.to_string(), value.as_bytes().to_vec())
}

fn head(method: &str, path: &str, headers: Vec<(String, Vec<u8>)>) -> RequestHead {
    RequestHead {
        method: method.to_string(),
        path: path.to_string(),
        uri: path.to_string(),
        headers,
    }
}

fn config(domain: &str) -> AppConfig {
    AppConfig {
        domain: domain.to_string(),
        auth_token: None,
        max_tunnels: 100,
        max_body_size: 10 * 1024 * 1024,
        rate_limit_rpm: 10_000,
        trust_proxy_headers: false,
    }
}

fn registry(domain: &str) -> Registry<u32> {
    build_registry(config(domain))
}

fn request(
    subdomain: Option<&str>,
    token: Option<&str>,
    password: Option<&str>,
) -> RegistrationRequest {
    RegistrationRequest {
        subdomain: subdomain.map(str::to_string),
        token: token.map(str::to_string),
        password: password.map(str::to_string),
    }
}

fn connection() -> TunnelConnection<(), u32> {
    TunnelConnection::new((), None)
}

/// What becomes of a visitor to the tunnel `myapp`, or another, with a password
/// or without.
fn knock(password: Option<&str>, subdomain: &str, mut head: RequestHead) -> Passage {
    let mut registry = registry("test.local");
    registry.register(subdomain.to_string(), 1);
    head.headers
        .push(header("host", &format!("{subdomain}.test.local")));
    let visit = public_handler(&mut registry, None, 0, head).unwrap();
    assert_eq!(visit.subdomain(), subdomain);
    let conn: TunnelConnection<(), u32> =
        TunnelConnection::new((), password.map(str::to_string));
    decide_access(visit, &conn)
}

fn admitted(head: RequestHead) -> Admission {
    match knock(None, "a", head) {
        Passage::Granted(admission) => admission,
        _ => panic!("expected an admission"),
    }
}

fn is_page(reply: &Reply, status: u16, page: &str) -> bool {
    reply.status == status
        && reply.body == page.as_bytes()
        && reply.headers
            == vec![(
                "content-type".to_string(),
                "text/html; charset=utf-8".to_string(),
            )]
}

#[test]
fn test_extract_subdomain() {
    assert_eq!(
        extract_subdomain("a8f3k2.example.com", "example.com"),
        Some("a8f3k2".into())
    );
    assert_eq!(
        extract_subdomain("a8f3k2.example.com:8080", "example.com"),
        Some("a8f3k2".into())
    );
    assert_eq!(extract_subdomain("example.com", "example.com"), None);
    assert_eq!(extract_subdomain("example.com:8080", "example.com"), None);
    assert_eq!(extract_subdomain("other.com", "example.com"), None);
    assert_eq!(
        extract_subdomain("sub.nested.example.com", "example.com"),
        None
    );
}

#[test]
fn empty_subdomain_is_none() {
    assert_eq!(extract_subdomain(".example.com", "example.com"), None);
    assert_eq!(extract_subdomain("", "example.com"), None);
    assert_eq!(extract_subdomain("xexample.com", "example.com"), None);
}

#[test]
fn test_extract_client_ip() {
    let headers = vec![];
    assert_eq!(ip_from_headers(&headers), None);

    // CF-Connecting-IP takes priority
    let headers = vec![
        header("cf-connecting-ip", "1.2.3.4"),
        header("x-forwarded-for", "5.6.7.8, 9.10.11.12"),
    ];
    assert_eq!(ip_from_headers(&headers), Some(v4(1, 2, 3, 4)));

    // Falls back to X-Forwarded-For (first IP)
    let headers = vec![header("x-forwarded-for", "5.6.7.8, 9.10.11.12")];
    assert_eq!(ip_from_headers(&headers), Some(v4(5, 6, 7, 8)));

    // Falls back to X-Real-IP
    let headers = vec![header("x-real-ip", "10.0.0.1")];
    assert_eq!(ip_from_headers(&headers), Some(v4(10, 0, 0, 1)));
}

#[test]
fn client_ip_texts_are_text_or_nothing() {
    let headers = vec![
        ("CF-Connecting-IP".to_string(), vec![0xff]),
        header("x-forwarded-for", " 5.6.7.8 ,x"),
        header("x-real-ip", " 9 "),
        header("x-real-ip", "1"),
    ];
    let texts = client_ip_texts(&headers);
    assert_eq!(texts.cf_connecting_ip, None);
    assert_eq!(texts.x_forwarded_for.as_deref(), Some("5.6.7.8"));
    assert_eq!(texts.x_real_ip.as_deref(), Some(" 9 "));
}

#[test]
fn allows_requests_within_limit() {
    let mut limiter = RateLimiter::new(5, 60 * SECOND);
    let ip = v4(1, 2, 3, 4);

    for _ in 0..5 {
        assert!(limiter.check(ip, 0));
    }
    assert!(!limiter.check(ip, 0));
}

#[test]
fn separate_limits_per_ip() {
    let mut limiter = RateLimiter::new(2, 60 * SECOND);
    let ip1 = v4(1, 2, 3, 4);
    let ip2 = v4(5, 6, 7, 8);

    assert!(limiter.check(ip1, 0));
    assert!(limiter.check(ip1, 0));
    assert!(!limiter.check(ip1, 0));

    // ip2 has its own quota
    assert!(limiter.check(ip2, 0));
    assert!(limiter.check(ip2, 0));
    assert!(!limiter.check(ip2, 0));
}

#[test]
fn cleanup_removes_expired_entries() {
    let mut limiter = RateLimiter::new(100, SECOND / 1000);
    let ip = v4(1, 2, 3, 4);

    limiter.check(ip, 0);
    limiter.cleanup(5 * SECOND / 1000);

    assert!(limiter.is_empty());
}

#[test]
fn cleanup_keeps_running_windows() {
    let mut limiter = RateLimiter::new(1, 60 * SECOND);
    let ip = ClientIp::V6(1);
    assert!(limiter.check(ip, 0));
    limiter.cleanup(59 * SECOND);
    assert!(!limiter.is_empty());
    assert!(!limiter.check(ip, 59 * SECOND));
}

#[test]
fn window_opens_again_when_it_has_run_out() {
    let mut limiter = RateLimiter::new(1, 60 * SECOND);
    let ip = v4(1, 2, 3, 4);
    assert!(limiter.check(ip, 0));
    assert!(!limiter.check(ip, 60 * SECOND - 1));
    assert!(limiter.check(ip, 60 * SECOND));
    assert!(!limiter.check(ip, 61 * SECOND));
}

#[test]
fn limit_of_zero_allows_only_reopened_windows() {
    let mut limiter = RateLimiter::new(0, 60 * SECOND);
    let ip = v4(1, 2, 3, 4);
    assert!(!limiter.check(ip, 0));
    assert!(limiter.check(ip, 60 * SECOND));
    limiter.cleanup(120 * SECOND);
    assert!(!limiter.check(ip, 120 * SECOND));
}

#[test]
fn tokens_are_compared() {
    let open = registry("test.local");
    assert!(open.validate_token(None));
    assert!(open.validate_token(Some("anything")));
    let closed: Registry<u32> = build_registry(AppConfig {
        auth_token: Some("secret".to_string()),
        ..config("test.local")
    });
    assert!(closed.validate_token(Some("secret")));
    assert!(!closed.validate_token(Some("secreT")));
    assert!(!closed.validate_token(Some("")));
    assert!(!closed.validate_token(None));
}

#[test]
fn tunnels_are_registered_found_and_removed() {
    let mut registry = registry("test.local");
    assert_eq!(registry.domain(), "test.local");
    assert_eq!(registry.max_body_size(), 10 * 1024 * 1024);
    assert!(!registry.is_taken("a"));
    assert!(registry.register("a".to_string(), 1));
    assert!(!registry.register("a".to_string(), 2));
    assert!(registry.register("b".to_string(), 3));
    assert_eq!(registry.get("a"), Some(&1));
    assert_eq!(registry.get("b"), Some(&3));
    assert_eq!(registry.get("c"), None);
    assert_eq!(registry.tunnel_count(), 2);
    registry.remove("a");
    registry.remove("c");
    assert!(!registry.is_taken("a"));
    assert_eq!(registry.get("b"), Some(&3));
    assert!(registry.register("a".to_string(), 4));
}

#[test]
fn registry_holds_no_more_than_the_most_tunnels() {
    let mut registry: Registry<u32> = build_registry(AppConfig {
        max_tunnels: 1,
        ..config("test.local")
    });
    assert!(registry.register("a".to_string(), 1));
    assert!(!registry.register("b".to_string(), 2));
    registry.remove("a");
    assert!(registry.register("b".to_string(), 2));
}

#[test]
fn made_up_subdomains_are_eight_digits_and_letters() {
    let registry = registry("test.local");
    let mut seen: Vec<String> = Vec::new();
    for _ in 0..20 {
        let name = registry.generate_subdomain();
        assert_eq!(name.len(), 8);
        assert!(name
            .chars()
            .all(|c| c.is_ascii_digit() || c.is_ascii_lowercase()));
        assert!(!seen.contains(&name));
        seen.push(name);
    }
}

#[test]
fn draws_make_a_name() {
    assert_eq!(name_from_draws(&[0, 9, 10, 35, 11, 1, 2, 34]), "09azb12y");
}

#[test]
fn request_ids_start_at_one_and_count_up() {
    let mut conn = connection();
    assert_eq!(conn.next_id(), 1);
    assert_eq!(conn.next_id(), 2);
    assert_eq!(conn.add_waiter(7), Some(3));
    assert_eq!(conn.next_id(), 4);
}

#[test]
fn waiters_are_taken_once() {
    let mut conn = connection();
    let first = conn.add_waiter(10).unwrap();
    let second = conn.add_waiter(20).unwrap();
    assert_eq!(conn.take_waiter(first), Some(10));
    assert_eq!(conn.take_waiter(first), None);
    assert_eq!(conn.take_waiter(second), Some(20));
    conn.add_waiter(30);
    conn.abandon_all();
    assert!(conn.pending.is_empty());
}

#[test]
fn no_more_than_the_most_requests_wait() {
    let mut conn = connection();
    for i in 0..MAX_PENDING_PER_TUNNEL {
        assert!(conn.add_waiter(i as u32).is_some());
    }
    assert_eq!(conn.add_waiter(0), None);
    let reply = forward(&mut conn, &admitted(head("GET", "/", vec![])), None, 10, 0).unwrap_err();
    assert!(is_page(&reply, 503, SERVICE_UNAVAILABLE_PAGE));
    conn.take_waiter(5);
    assert!(conn.add_waiter(0).is_some());
}

#[test]
fn registration_needs_a_text_message() {
    let text = registration_text(Incoming::Message(Message::Text("{}".to_string())));
    assert_eq!(text.as_deref(), Some("{}"));
    assert_eq!(
        registration_text(Incoming::Message(Message::Binary(vec![]))),
        None
    );
    assert_eq!(registration_text(Incoming::Failed), None);
    assert_eq!(registration_text(Incoming::Ended), None);
}

#[test]
fn registration_with_a_wrong_token_is_refused() {
    let registry: Registry<u32> = build_registry(AppConfig {
        auth_token: Some("secret".to_string()),
        ..config("test.local")
    });
    let refusal = decide_registration(&registry, &request(None, Some("wrong"), Some("pw"))).unwrap_err();
    assert!(!refusal.response.ok);
    assert_eq!(refusal.response.url, "");
    assert_eq!(refusal.response.subdomain, "");
    assert_eq!(
        refusal.response.error.as_deref(),
        Some("authentication failed")
    );
    assert_eq!(refusal.close.code, 4002);
    assert_eq!(refusal.close.reason, "authentication failed");
}

#[test]
fn registration_without_a_password_is_refused() {
    let registry = registry("test.local");
    for password in [None, Some("")] {
        let refusal = decide_registration(&registry, &request(Some("a"), None, password)).unwrap_err();
        assert_eq!(
            refusal.response.error.as_deref(),
            Some("tunnel password is required")
        );
        assert_eq!(refusal.close.code, 4002);
        assert_eq!(refusal.close.reason, "tunnel password is required");
    }
}

#[test]
fn requested_subdomain_is_given_if_it_is_free() {
    let mut registry = registry("test.local");
    let grant = decide_registration(&registry, &request(Some("mine"), None, Some("pw"))).unwrap();
    assert_eq!(grant.subdomain, "mine");
    assert_eq!(grant.password, "pw");
    let answer = open_tunnel(&mut registry, &grant.subdomain, 1).unwrap();
    assert!(answer.ok);
    assert_eq!(answer.url, "https://mine.test.local");
    assert_eq!(answer.subdomain, "mine");
    assert_eq!(answer.error, None);
    let other = decide_registration(&registry, &request(Some("mine"), None, Some("pw"))).unwrap();
    assert_eq!(other.subdomain.len(), 8);
    let any = decide_registration(&registry, &request(None, None, Some("pw"))).unwrap();
    assert_eq!(any.subdomain.len(), 8);
}

#[test]
fn full_relay_refuses_a_tunnel() {
    let mut registry: Registry<u32> = build_registry(AppConfig {
        max_tunnels: 0,
        ..config("test.local")
    });
    let refusal = open_tunnel(&mut registry, "a", 1).unwrap_err();
    assert_eq!(refusal.response.error.as_deref(), Some("relay at capacity"));
    assert_eq!(refusal.close.code, 4003);
    assert_eq!(refusal.close.reason, "relay at capacity");
    assert_eq!(registry.tunnel_count(), 0);
}

#[test]
fn session_delivers_answers_to_their_waiters() {
    let mut conn = connection();
    let mut session = Session::new();
    assert!(matches!(
        session.step(&mut conn, SessionEvent::Answered),
        SessionAction::Nothing
    ));
    let first = conn.add_waiter(10).unwrap();
    let second = conn.add_waiter(20).unwrap();
    let binary = |data: Vec<u8>| SessionEvent::Received(Incoming::Message(Message::Binary(data)));
    match session.step(&mut conn, binary(encode_frame(second, b"two"))) {
        SessionAction::Deliver(waiter, data) => {
            assert_eq!(waiter, 20);
            assert_eq!(data, b"two");
        }
        _ => panic!("expected a delivery"),
    }
    assert!(matches!(
        session.step(&mut conn, binary(encode_frame(second, b"again"))),
        SessionAction::Nothing
    ));
    assert!(matches!(
        session.step(&mut conn, binary(vec![1, 2, 3])),
        SessionAction::NoteBadFrame(3)
    ));
    match session.step(&mut conn, binary(encode_frame(first, b"one"))) {
        SessionAction::Deliver(waiter, _) => assert_eq!(waiter, 10),
        _ => panic!("expected a delivery"),
    }
}

#[test]
fn session_answers_pings_and_ends() {
    let mut conn = connection();
    let mut session = Session::new();
    session.step(&mut conn, SessionEvent::Answered);
    match session.step(
        &mut conn,
        SessionEvent::Received(Incoming::Message(Message::Ping(vec![1, 2]))),
    ) {
        SessionAction::Pong(data) => assert_eq!(data, vec![1, 2]),
        _ => panic!("expected a pong"),
    }
    assert!(matches!(
        session.step(
            &mut conn,
            SessionEvent::Received(Incoming::Message(Message::Text("x".to_string())))
        ),
        SessionAction::Nothing
    ));
    assert!(matches!(
        session.step(
            &mut conn,
            SessionEvent::Received(Incoming::Message(Message::Close(None)))
        ),
        SessionAction::Disconnect
    ));
    assert_eq!(session.stage, Stage::Over);
    assert!(matches!(
        session.step(
            &mut conn,
            SessionEvent::Received(Incoming::Message(Message::Ping(vec![])))
        ),
        SessionAction::Nothing
    ));
}

#[test]
fn session_ends_when_the_client_is_gone() {
    for incoming in [Incoming::Failed, Incoming::Ended] {
        let mut conn = connection();
        let mut session = Session::new();
        session.step(&mut conn, SessionEvent::Answered);
        assert!(matches!(
            session.step(&mut conn, SessionEvent::Received(incoming)),
            SessionAction::Disconnect
        ));
    }
}

#[test]
fn session_withdraws_when_the_answer_is_lost() {
    let mut conn = connection();
    let mut session = Session::new();
    assert!(matches!(
        session.step(&mut conn, SessionEvent::AnswerLost),
        SessionAction::Withdraw
    ));
    assert_eq!(session.stage, Stage::Over);
}

#[test]
fn auth_cookie_is_an_hmac_in_hex() {
    assert_eq!(
        generate_auth_cookie("secret", "myapp"),
        "0ed821cf1a5f6d3c3dde185381c9eeaf51c4e2901a130123e973b12a5b1c4948"
    );
    assert_eq!(
        generate_auth_cookie("", ""),
        "b613679a0814d9ec772f95d778c35fc5ff1697c493715653c6c712144292c5ad"
    );
}

#[test]
fn form_password_is_found_and_decoded() {
    assert_eq!(submitted_password(b"password=a%20b%2"), "a b%2");
    assert_eq!(submitted_password(b"x=1&password=p%C3%A4&password=q"), "pä");
    assert_eq!(submitted_password(b"password=a+b=c"), "a+b=c");
    assert_eq!(submitted_password(b"password=%ff"), "");
    assert_eq!(submitted_password(b"passwords=x&password"), "");
    assert_eq!(submitted_password(b""), "");
}

#[test]
fn percent_encoded_passwords_are_understood() {
    for password in ["", "a&b=c%20+ d", "pä€\u{1f512}\n"] {
        let coded: String = password.bytes().map(|b| format!("%{b:02x}")).collect();
        let form = format!("password={coded}");
        assert_eq!(submitted_password(form.as_bytes()), password);
    }
    assert_eq!(submitted_password("password=ä+=€".as_bytes()), "ä+=€");
}

#[test]
fn mixed_requests_count_by_address() {
    let mut mixed = RateLimiter::new(2, 60 * SECOND);
    let mut alone = RateLimiter::new(2, 60 * SECOND);
    let ip = v4(1, 2, 3, 4);
    for second in 0..10 {
        mixed.check(v4(9, 9, 9, 9), second * SECOND);
        mixed.check(ClientIp::V6(u128::from(u32::from_be_bytes([1, 2, 3, 4]))), 0);
        let now = second * SECOND;
        assert_eq!(mixed.check(ip, now), alone.check(ip, now));
    }
}

#[test]
fn right_password_sets_the_cookie() {
    let reply = answer_form("secret", "myapp", Some(b"password=secret"), 100);
    assert_eq!(reply.status, 303);
    assert!(reply.body.is_empty());
    assert_eq!(reply.headers[0], ("location".to_string(), "/".to_string()));
    assert_eq!(
        reply.headers[1],
        (
            "set-cookie".to_string(),
            format!(
                "peek_auth_myapp={}; Path=/; HttpOnly; SameSite=Lax; Secure; Max-Age=86400",
                generate_auth_cookie("secret", "myapp")
            )
        )
    );
    assert_eq!(reply.headers.len(), 2);
}

#[test]
fn cookie_from_the_right_password_grants_access() {
    let reply = answer_form("secret", "myapp", Some(b"password=secret"), 100);
    let kept = reply.headers[1].1.split(';').next().unwrap().to_string();
    let visit = || head("GET", "/", vec![header("cookie", &format!("a=b; {kept}"))]);
    match knock(Some("secret"), "myapp", visit()) {
        Passage::Granted(admission) => assert_eq!(admission.head().method, "GET"),
        _ => panic!("expected an admission"),
    }
    assert!(matches!(
        knock(Some("other"), "myapp", visit()),
        Passage::Denied(_)
    ));
    assert!(matches!(
        knock(Some("secret"), "other", visit()),
        Passage::Denied(_)
    ));
    assert!(has_valid_cookie(&visit().headers, "secret", "myapp"));
}

#[test]
fn wrong_password_is_asked_for_again() {
    let reply = answer_form("secret", "myapp", Some(b"password=wrong"), 100);
    let page = String::from_utf8(reply.body).unwrap();
    assert_eq!(reply.status, 200);
    assert!(page.contains("Incorrect password"));
    assert_eq!(reply.headers.len(), 1);
    let reply = answer_form("secret", "myapp", None, 0);
    let page = String::from_utf8(reply.body).unwrap();
    assert_eq!(reply.status, 200);
    assert!(page.contains("Invalid request"));
}

#[test]
fn form_that_is_too_large_is_refused() {
    let form = b"password=secret";
    assert_eq!(answer_form("secret", "myapp", Some(form), 15).status, 303);
    let reply = answer_form("secret", "myapp", Some(form), 14);
    assert!(is_page(&reply, 413, PAYLOAD_TOO_LARGE_PAGE));
    match knock(Some("secret"), "myapp", head("POST", "/__peek_auth", vec![])) {
        Passage::FormGiven(submission) => {
            let reply = submission.answer(Some(form), 14);
            assert!(is_page(&reply, 413, PAYLOAD_TOO_LARGE_PAGE));
            let reply = submission.answer(Some(&[b'x'; 15]), 14);
            assert!(is_page(&reply, 413, PAYLOAD_TOO_LARGE_PAGE));
            assert_eq!(submission.answer(Some(form), 15).status, 303);
        }
        _ => panic!("expected a form"),
    }
}

#[test]
fn admission_is_for_one_tunnel() {
    let admission = admitted(head("GET", "/", vec![]));
    assert!(admission.is_for(&connection()));
    assert!(admission.is_for(&connection().under("a".to_string())));
    assert!(!admission.is_for(&connection().under("b".to_string())));
    let protected: TunnelConnection<(), u32> =
        TunnelConnection::new((), Some("secret".to_string()));
    assert!(!admission.is_for(&protected));
}

#[test]
fn granted_tunnel_has_its_password_and_subdomain() {
    let registry = registry("test.local");
    let grant = decide_registration(&registry, &request(Some("mine"), None, Some("pw"))).unwrap();
    let conn: TunnelConnection<u8, u32> = grant.connection(5);
    assert_eq!(conn.write_tx, 5);
    assert_eq!(conn.visitor_password(), Some("pw"));
    assert_eq!(conn.subdomain(), Some("mine"));
}

#[test]
fn every_window_has_the_same_quota() {
    let mut limiter = RateLimiter::new(3, 60 * SECOND);
    let ip = v4(1, 2, 3, 4);
    for window in 0..4 {
        let start = window * 100 * SECOND;
        for second in 0..3 {
            assert!(limiter.check(ip, start + second * SECOND));
        }
        assert!(!limiter.check(ip, start + 4 * SECOND));
        assert!(!limiter.check(ip, start + 59 * SECOND));
    }
}

#[test]
fn cookie_that_fits_no_header_is_a_bad_gateway() {
    let reply = let_in("a\nb", "00");
    assert!(is_page(&reply, 502, BAD_GATEWAY_PAGE));
}

#[test]
fn cookies_are_looked_for_in_every_cookie_header() {
    let headers = vec![
        header("Cookie", "a=1; b = 2 ;c"),
        ("cookie".to_string(), vec![0xff]),
        header("cookie", "d=4"),
    ];
    assert!(carries_cookie(&headers, "a", "1"));
    assert!(carries_cookie(&headers, "b", "2"));
    assert!(carries_cookie(&headers, "d", "4"));
    assert!(!carries_cookie(&headers, "c", ""));
    assert!(!carries_cookie(&headers, "a", "2"));
    assert!(!carries_cookie(&[header("x", "a=1")], "a", "1"));
}

#[test]
fn protected_tunnel_asks_for_a_password() {
    match knock(Some("secret"), "myapp", head("GET", "/", vec![])) {
        Passage::Denied(reply) => {
            let page = String::from_utf8(reply.body).unwrap();
            assert_eq!(reply.status, 200);
            assert!(page.contains("<title>Password Required \u{2014} myapp</title>"));
            assert!(page.contains("\u{1f512} Password Required"));
            assert!(page.contains("action=\"/__peek_auth\""));
            assert!(!page.contains("#e53e3e"));
        }
        _ => panic!("expected the password page"),
    }
    match knock(Some("secret"), "myapp", head("POST", "/__peek_auth", vec![])) {
        Passage::FormGiven(submission) => {
            assert_eq!(submission.answer(Some(b"password=secret"), 15).status, 303);
            assert_eq!(submission.answer(Some(b"password=secreT"), 15).status, 200);
        }
        _ => panic!("expected a form"),
    }
    assert!(matches!(
        knock(Some("secret"), "myapp", head("GET", "/__peek_auth", vec![])),
        Passage::Denied(_)
    ));
    assert!(matches!(
        knock(None, "myapp", head("POST", "/__peek_auth", vec![])),
        Passage::Granted(_)
    ));
}

#[test]
fn password_page_tells_what_was_wrong() {
    let reply = password_page("myapp", Some("No"));
    let page = String::from_utf8(reply.body).unwrap();
    assert!(page.contains("<p style=\"color:#e53e3e;margin-bottom:16px\">No</p>"));
}

#[test]
fn visits_find_their_connection() {
    let mut registry = registry("test.local");
    registry.register("mine".to_string(), 7);
    let visit = head("GET", "/", vec![header("host", "mine.test.local")]);
    let visit = public_handler(&mut registry, None, 0, visit).unwrap();
    assert_eq!(tunnel_of(&registry, &visit), Some(&7));
    registry.remove("mine");
    assert_eq!(tunnel_of(&registry, &visit), None);
}

#[test]
fn requests_find_their_tunnel() {
    let mut registry = registry("test.local");
    registry.register("tunnel1".to_string(), 1);
    registry.register("tunnel2".to_string(), 2);
    let visit = |host: &str| head("GET", "/", vec![header("host", host)]);
    assert_eq!(
        public_handler(&mut registry, None, 0, visit("tunnel2.test.local:8080"))
            .unwrap()
            .subdomain(),
        "tunnel2"
    );
    let reply =
        public_handler(&mut registry, None, 0, visit("nonexistent.test.local")).unwrap_err();
    assert!(is_page(&reply, 404, NOT_FOUND_PAGE));
    let reply = public_handler(&mut registry, None, 0, visit("test.local")).unwrap_err();
    assert!(is_page(&reply, 404, NOT_FOUND_PAGE));
    let reply =
        public_handler(&mut registry, None, 0, head("GET", "/", vec![])).unwrap_err();
    assert!(is_page(&reply, 404, NOT_FOUND_PAGE));
    registry.remove("tunnel2");
    assert!(public_handler(&mut registry, None, 0, visit("tunnel2.test.local")).is_err());
}

#[test]
fn address_given_out_leads_to_its_tunnel() {
    let mut registry = registry("test.local");
    for asked in [Some("mine"), None] {
        let grant = decide_registration(&registry, &request(asked, None, Some("pw"))).unwrap();
        let answer = open_tunnel(&mut registry, &grant.subdomain, 7).unwrap();
        let host = answer.url.strip_prefix("https://").unwrap().to_string();
        for port in ["", ":443"] {
            let visit = head("GET", "/", vec![header("host", &format!("{host}{port}"))]);
            let visit = public_handler(&mut registry, None, 0, visit).unwrap();
            assert_eq!(visit.subdomain(), answer.subdomain);
            assert_eq!(registry.get(visit.subdomain()), Some(&7));
        }
    }
}

#[test]
fn cleanup_changes_no_later_answer() {
    let mut cleaned = RateLimiter::new(2, 60 * SECOND);
    let mut untouched = RateLimiter::new(2, 60 * SECOND);
    for second in [0, 1, 30, 59, 61, 62, 63, 200, 201, 202, 203] {
        let now = second * SECOND;
        for ip in [v4(1, 2, 3, 4), ClientIp::V6(9)] {
            assert_eq!(cleaned.check(ip, now), untouched.check(ip, now));
        }
        cleaned.cleanup(now);
    }
}

#[test]
fn addresses_that_ask_too_often_are_turned_away() {
    let mut registry: Registry<u32> = build_registry(AppConfig {
        rate_limit_rpm: 1,
        ..config("test.local")
    });
    let ip = Some(v4(1, 2, 3, 4));
    assert_eq!(ws_handler(&mut registry, ip, 0).unwrap(), 10 * 1024 * 1024);
    let reply = ws_handler(&mut registry, ip, 1).unwrap_err();
    assert!(is_page(&reply, 429, TOO_MANY_REQUESTS_PAGE));
    let reply = public_handler(&mut registry, ip, 2, head("GET", "/", vec![])).unwrap_err();
    assert!(is_page(&reply, 429, TOO_MANY_REQUESTS_PAGE));
    assert!(ws_handler(&mut registry, None, 3).is_ok());
    assert!(ws_handler(&mut registry, ip, 60 * SECOND).is_ok());
    registry.forget_addresses(200 * SECOND);
    assert!(registry.rate_limiter.is_empty());
}

#[test]
fn forwarded_request_is_framed() {
    let mut conn = connection();
    let visit = head(
        "POST",
        "/echo",
        vec![header("x-a", "b"), ("x-raw".to_string(), vec![0x80])],
    );
    let admission = admitted(visit);
    let (id, frame) = forward(&mut conn, &admission, Some(b"data".to_vec()), 4, 9).unwrap();
    assert_eq!(id, 1);
    let (frame_id, payload) = decode_frame(&frame).unwrap();
    assert_eq!(frame_id, 1);
    let request = deserialize_request(payload).unwrap_or_else(|_| panic!("no request"));
    assert_eq!(request.method, "POST");
    assert_eq!(request.uri, "/echo");
    assert_eq!(
        request.headers,
        vec![
            ("x-a".to_string(), "b".to_string()),
            ("x-raw".to_string(), String::new()),
            ("host".to_string(), "a.test.local".to_string()),
        ]
    );
    assert_eq!(request.body, b"data");
    assert_eq!(conn.take_waiter(1), Some(9));
}

#[test]
fn body_that_is_too_large_is_refused() {
    let mut conn = connection();
    let visit = admitted(head("POST", "/", vec![]));
    let reply = forward(&mut conn, &visit, Some(vec![0; 5]), 4, 9).unwrap_err();
    assert!(is_page(&reply, 413, PAYLOAD_TOO_LARGE_PAGE));
    assert!(conn.pending.is_empty());
    assert_eq!(conn.next_id(), 1);
}

#[test]
fn body_that_cannot_be_read_is_empty() {
    let mut conn = connection();
    let admission = admitted(head("GET", "/", vec![]));
    let (_, frame) = forward(&mut conn, &admission, None, 0, 9).unwrap();
    assert_eq!(
        frame,
        b"\0\0\0\x01GET /\r\nhost: a.test.local\r\n\r\n"
    );
}

#[test]
fn waiting_ends_in_an_answer_or_an_error_page() {
    let mut conn = connection();
    let id = conn.add_waiter(1).unwrap();
    let reply = settle(&mut conn, id, Outcome::Unsent);
    assert!(is_page(&reply, 502, BAD_GATEWAY_PAGE));
    assert!(conn.pending.is_empty());
    let id = conn.add_waiter(1).unwrap();
    let reply = settle(&mut conn, id, Outcome::Dropped);
    assert!(is_page(&reply, 502, BAD_GATEWAY_PAGE));
    assert!(conn.pending.is_empty());
    let id = conn.add_waiter(1).unwrap();
    let reply = settle(&mut conn, id, Outcome::TimedOut);
    assert!(is_page(&reply, 504, GATEWAY_TIMEOUT_PAGE));
    assert!(conn.pending.is_empty());
    let headers = vec![("x".to_string(), "y".to_string())];
    let data = serialize_response(404, &headers, b"body");
    let reply = settle(&mut conn, id, Outcome::Answered(data));
    assert_eq!(reply.status, 404);
    assert_eq!(reply.headers, headers);
    assert_eq!(reply.body, b"body");
}

#[test]
fn answers_that_are_no_responses_are_bad_gateways() {
    assert!(is_page(&relay_answer(b"x"), 502, BAD_GATEWAY_PAGE));
    assert!(is_page(&relay_answer(b"\xff\r\n\r\n"), 502, BAD_GATEWAY_PAGE));
    let data = serialize_response(99, &[], b"");
    assert!(is_page(&relay_answer(&data), 502, BAD_GATEWAY_PAGE));
    let data = serialize_response(1000, &[], b"");
    assert!(is_page(&relay_answer(&data), 502, BAD_GATEWAY_PAGE));
    let data = serialize_response(999, &[], b"");
    assert_eq!(relay_answer(&data).status, 999);
    let data = serialize_response(200, &[("a b".to_string(), "c".to_string())], b"");
    assert!(is_page(&relay_answer(&data), 502, BAD_GATEWAY_PAGE));
    let data = serialize_response(200, &[("a".to_string(), "\u{1}".to_string())], b"");
    assert!(is_page(&relay_answer(&data), 502, BAD_GATEWAY_PAGE));
}

#[test]
fn pages_say_what_they_are() {
    let reply = not_found_page();
    assert!(is_page(&reply, 404, NOT_FOUND_PAGE));
    let page = String::from_utf8(reply.body).unwrap();
    assert!(page.contains("This tunnel doesn't exist or has been disconnected."));
    assert!(TOO_MANY_REQUESTS_PAGE.contains("429 Too Many Requests"));
    assert!(PAYLOAD_TOO_LARGE_PAGE.contains("413 Payload Too Large"));
    assert!(SERVICE_UNAVAILABLE_PAGE.contains("503 Service Unavailable"));
    assert!(BAD_GATEWAY_PAGE.contains("The tunnel client is unreachable."));
    assert!(GATEWAY_TIMEOUT_PAGE.contains("The local server didn't respond in time."));
}

fn vars(pairs: &[(&str, &str)]) -> Vec<(String, String)> {
    pairs
        .iter()
        .map(|(name, value)| (name.to_string(), value.to_string()))
        .collect()
}

#[test]
fn relay_defaults() {
    let config = server_config(&vars(&[("PEEK_AUTH_TOKEN", "t")])).unwrap();
    assert_eq!(config.port, "8080");
    assert_eq!(config.drain_timeout_secs, 30);
    assert_eq!(config.app.domain, "localhost");
    assert_eq!(config.app.auth_token.as_deref(), Some("t"));
    assert_eq!(config.app.max_tunnels, 10_000);
    assert_eq!(config.app.max_body_size, 10 * 1024 * 1024);
    assert_eq!(config.app.rate_limit_rpm, 1000);
    assert!(!config.app.trust_proxy_headers);
}

#[test]
fn relay_settings_have_fallback_names() {
    let config = server_config(&vars(&[
        ("RELAY_AUTH_TOKEN", "old"),
        ("RELAY_DOMAIN", "old.com"),
        ("PEEK_DOMAIN", "new.com"),
        ("MAX_TUNNELS", "5"),
        ("MAX_BODY_SIZE_MB", "2"),
        ("PEEK_RATE_LIMIT_RPM", "x"),
        ("RATE_LIMIT_RPM", "7"),
        ("DRAIN_TIMEOUT_SECS", "1"),
        ("PEEK_TRUST_PROXY_HEADERS", "Yes"),
        ("PORT", "99"),
    ]))
    .unwrap();
    assert_eq!(config.port, "99");
    assert_eq!(config.app.auth_token.as_deref(), Some("old"));
    assert_eq!(config.app.domain, "new.com");
    assert_eq!(config.app.max_tunnels, 5);
    assert_eq!(config.app.max_body_size, 2 * 1024 * 1024);
    assert_eq!(config.app.rate_limit_rpm, 1000);
    assert_eq!(config.drain_timeout_secs, 1);
    assert!(config.app.trust_proxy_headers);
}

#[test]
fn relay_needs_a_token() {
    assert_eq!(
        server_config(&[]).unwrap_err(),
        "PEEK_AUTH_TOKEN is required"
    );
    let empty = vars(&[("PEEK_AUTH_TOKEN", ""), ("RELAY_AUTH_TOKEN", "t")]);
    assert_eq!(
        server_config(&empty).unwrap_err(),
        "PEEK_AUTH_TOKEN is required"
    );
}

#[test]
fn body_limit_saturates() {
    let config = server_config(&vars(&[
        ("PEEK_AUTH_TOKEN", "t"),
        ("PEEK_MAX_BODY_SIZE_MB", &usize::MAX.to_string()),
    ]))
    .unwrap();
    assert_eq!(config.app.max_body_size, usize::MAX);
}
