use peek::client::args::{
    announce, local_url, next_option_value, parse_args, parse_local_port, port_of_address,
    tunnel_summary, understand, visitor_password, Command, USAGE,
};
use peek::client::forward::{
    answer_request, end_to_end_headers, handle_request, is_hop_by_hop_header, send_error_response,
    LocalOutcome, Plan,
};
use peek::client::pages::{bad_gateway, error_page, gateway_timeout, status};
use peek::client::tunnel::{
    answer_text, prepare, public_address, receive, ClientAction, FirstMessage, TunnelClient,
    TunnelError, TunnelHandle,
};
use peek::environment::{env_bool, env_var, lookup};
use peek::html::escape_html;
use peek::message::{Incoming, Message};
use peek::proto::{
    decode_frame, deserialize_response, encode_frame, serialize_request, DeserializedResponse,
    RegistrationResponse,
};
use peek::relay::config::{build_registry, AppConfig};
use peek::relay::access::{decide_access, Admission, Passage};
use peek::relay::handler::{forward, public_handler, settle, Outcome};
use peek::relay::http::RequestHead;
use peek::relay::registry::{Registry, TunnelConnection};
use peek::relay::session::{
    decide_registration, open_tunnel, Session, SessionAction, SessionEvent,
};

/// Draws for the password `0az`.
const DRAWS: [u8; 3] = [0, 10, 35];

fn strings(args: &[&str]) -> Vec<String> {
    args.iter().map(|arg| arg.to_string()).collect()
}

fn pairs(vars: &[(&str, &str)]) -> Vec<(String, String)> {
    vars.iter()
        .map(|(name, value)| (name.to_string(), value.to_string()))
        .collect()
}

fn response_in(frame: &[u8]) -> (u32, DeserializedResponse) {
    let (id, payload) = decode_frame(frame).unwrap();
    match deserialize_response(payload) {
        Ok(response) => (id, response),
        Err(_) => panic!("no response"),
    }
}

#[test]
fn local_url_adds_http_to_host_port() {
    assert_eq!(local_url("localhost:3000", 3000), "http://localhost:3000");
}

#[test]
fn local_url_uses_localhost_for_port_only() {
    assert_eq!(local_url("3000", 3000), "http://localhost:3000");
}

#[test]
fn local_url_keeps_existing_scheme() {
    assert_eq!(
        local_url("https://localhost:3000", 3000),
        "https://localhost:3000"
    );
}

#[test]
fn escapes_html_control_characters() {
    assert_eq!(
        escape_html(r#"<script x="1">'&</script>"#),
        "&lt;script x=&quot;1&quot;&gt;&#39;&amp;&lt;/script&gt;"
    );
}

#[test]
fn bad_gateway_escapes_error_detail() {
    let html = bad_gateway(3000, "<network>");
    assert!(html.contains("&lt;network&gt;"));
    assert!(!html.contains("<network>"));
}

#[test]
fn pages_from_templates_tell_what_happened() {
    let page = gateway_timeout(3000);
    assert!(page.contains("<h1>504 Gateway Timeout</h1>"));
    assert!(page.contains("<p>localhost:3000 did not respond within 30 seconds</p>"));
    assert!(!page.contains("{{"));
    let page = bad_gateway(80, "refused");
    assert!(page.contains("<p>Could not connect to localhost:80</p>"));
    assert!(page.contains("<p class=\"detail\">refused</p>"));
    assert!(status("a<b").contains("<h1>a&lt;b</h1>"));
    assert!(!error_page("a", "b", None).contains("<p class=\"detail\">"));
}

#[test]
fn local_ports_are_found() {
    assert_eq!(parse_local_port("3000"), Ok(3000));
    assert_eq!(parse_local_port("localhost:3000"), Ok(3000));
    assert_eq!(parse_local_port("a:b:65535"), Ok(65535));
    assert_eq!(parse_local_port("http://localhost:8080/x"), Ok(8080));
    assert_eq!(parse_local_port("http://localhost"), Ok(80));
    assert_eq!(parse_local_port("https://localhost"), Ok(443));
}

#[test]
fn local_ports_that_are_wrong_are_told() {
    let look = Err("local address must look like localhost:3000".to_string());
    assert_eq!(parse_local_port("localhost"), look);
    assert_eq!(parse_local_port("http://"), look);
    assert_eq!(
        parse_local_port("localhost:x"),
        Err("local port must be a number".to_string())
    );
    assert_eq!(
        parse_local_port("localhost:65536"),
        Err("local port must be a number".to_string())
    );
    assert_eq!(
        parse_local_port("foo://localhost"),
        Err("local address needs a port".to_string())
    );
}

#[test]
fn ports_follow_from_what_the_url_is() {
    assert_eq!(port_of_address("x://y", Some(Some(5))), Ok(5));
    assert!(port_of_address("x://y", Some(None)).is_err());
    assert!(port_of_address("x://y", None).is_err());
    assert_eq!(port_of_address("7", None), Ok(7));
}

#[test]
fn arguments_are_understood() {
    let args = strings(&[
        "localhost:3000",
        "--domain",
        "example.com",
        "--token",
        "change-me",
        "--password",
        "pw",
        "--subdomain",
        "name",
    ]);
    match parse_args(&args, &[]) {
        Ok(Command::Open(invoked)) => {
            assert_eq!(invoked.local_url, "http://localhost:3000");
            assert_eq!(invoked.port, 3000);
            assert_eq!(invoked.server_url, "wss://example.com/tunnel");
            assert_eq!(invoked.token.as_deref(), Some("change-me"));
            assert_eq!(invoked.password, "pw");
            assert_eq!(invoked.subdomain.as_deref(), Some("name"));
        }
        _ => panic!("expected a tunnel"),
    }
}

#[test]
fn environment_is_understood() {
    let vars = pairs(&[
        ("PEEK_DOMAIN", "example.com"),
        ("PEEK_AUTH_TOKEN", "fallback"),
        ("PEEK_PASSWORD", "pw"),
    ]);
    let invoked = understand(&strings(&["3000"]), &vars, None, &DRAWS).unwrap();
    assert_eq!(invoked.local_url, "http://localhost:3000");
    assert_eq!(invoked.server_url, "wss://example.com/tunnel");
    assert_eq!(invoked.token.as_deref(), Some("fallback"));
    assert_eq!(invoked.password, "pw");
    assert_eq!(invoked.subdomain, None);
    let vars = pairs(&[("PEEK_SERVER", "ws://a/tunnel"), ("PEEK_TOKEN", "t")]);
    let args = strings(&["3000", "--domain", "b", "--token", "first", "--token", "last"]);
    let invoked = understand(&args, &vars, None, &DRAWS).unwrap();
    assert_eq!(invoked.server_url, "ws://a/tunnel");
    assert_eq!(invoked.token.as_deref(), Some("last"));
    assert_eq!(invoked.password, "0az");
}

#[test]
fn password_is_made_up_if_none_is_given() {
    let given = Some("given".to_string());
    assert_eq!(visitor_password(given, &DRAWS), "given");
    assert_eq!(visitor_password(None, &DRAWS), "0az");
    let vars = pairs(&[
        ("PEEK_DOMAIN", "example.com"),
        ("PEEK_AUTH_TOKEN", "change-me"),
    ]);
    let mut seen: Vec<String> = Vec::new();
    for _ in 0..5 {
        let invoked = match parse_args(&strings(&["localhost:3000"]), &vars) {
            Ok(Command::Open(invoked)) => invoked,
            _ => panic!("expected a tunnel"),
        };
        assert_eq!(invoked.password.len(), 16);
        assert!(invoked
            .password
            .chars()
            .all(|c| c.is_ascii_digit() || c.is_ascii_lowercase()));
        assert!(!seen.contains(&invoked.password));
        seen.push(invoked.password);
    }
}

#[test]
fn domain_and_token_are_enough() {
    let vars = pairs(&[
        ("PEEK_DOMAIN", "example.com"),
        ("PEEK_AUTH_TOKEN", "change-me"),
    ]);
    let invoked = match parse_args(&strings(&["localhost:3000"]), &vars) {
        Ok(Command::Open(invoked)) => invoked,
        _ => panic!("expected a tunnel"),
    };
    let dial = match prepare(&invoked) {
        Ok((_, dial)) => dial,
        Err(_) => panic!("no dial"),
    };
    assert_eq!(dial.port, 3000);
    assert_eq!(dial.server_url, "wss://example.com/tunnel");
    assert_eq!(dial.registration.token.as_deref(), Some("change-me"));
    assert_eq!(dial.registration.subdomain, None);
    assert_eq!(
        dial.registration.password.as_deref(),
        Some(invoked.password.as_str())
    );
    let mut registry: Registry<u32> = build_registry(AppConfig {
        domain: "example.com".to_string(),
        auth_token: Some("change-me".to_string()),
        max_tunnels: 100,
        max_body_size: 1 << 20,
        rate_limit_rpm: 10_000,
        trust_proxy_headers: false,
    });
    let grant = decide_registration(&registry, &dial.registration).unwrap();
    let answer = open_tunnel(&mut registry, &grant.subdomain, 1).unwrap();
    let text = announce(&invoked, &answer.url);
    assert!(text.contains(&answer.url));
    assert!(text.contains(&invoked.password));
    assert!(text.contains("http://localhost:3000"));
}

#[test]
fn preparing_needs_a_url() {
    let vars = pairs(&[("PEEK_SERVER", "no url")]);
    let invoked = understand(&strings(&["3000"]), &vars, None, &DRAWS).unwrap();
    assert!(matches!(prepare(&invoked), Err(TunnelError::Url(_))));
}

#[test]
fn wrong_arguments_are_told() {
    let told = |args: &[&str]| understand(&strings(args), &[], None, &DRAWS).unwrap_err();
    assert_eq!(told(&[]), "missing local address");
    assert_eq!(
        told(&["localhost"]),
        "local address must look like localhost:3000"
    );
    assert_eq!(told(&["3000", "--port", "1"]), "unknown option: --port");
    assert_eq!(told(&["3000", "--server"]), "--server needs a value");
    assert_eq!(
        told(&["3000", "--token", "--password", "x"]),
        "--token needs a value"
    );
    assert_eq!(
        told(&["3000"]),
        "missing --server, --domain, PEEK_SERVER, or PEEK_DOMAIN"
    );
}

#[test]
fn help_comes_first() {
    assert!(matches!(
        parse_args(&strings(&["--nonsense", "-h"]), &[]),
        Ok(Command::Help)
    ));
    assert!(matches!(
        parse_args(&strings(&["--help"]), &[]),
        Ok(Command::Help)
    ));
    assert!(parse_args(&[], &[]).is_err());
    assert!(USAGE.starts_with("usage: peek <local-address> [options]\n"));
}

#[test]
fn option_values_are_no_options() {
    let args = strings(&["-x", "--y"]);
    assert_eq!(
        next_option_value(&args, 0, "--token"),
        Ok("-x".to_string())
    );
    assert_eq!(
        next_option_value(&args, 1, "--token"),
        Err("--token needs a value".to_string())
    );
    assert_eq!(
        next_option_value(&args, 2, "--token"),
        Err("--token needs a value".to_string())
    );
}

#[test]
fn variables_are_looked_up() {
    let vars = pairs(&[("A", "1"), ("B", "oFF"), ("C", "maybe")]);
    assert_eq!(lookup(&vars, "A").as_deref(), Some("1"));
    assert_eq!(lookup(&vars, "a"), None);
    assert_eq!(env_var(&vars, "X", "B").as_deref(), Some("oFF"));
    assert_eq!(env_bool(&vars, "A"), Some(true));
    assert_eq!(env_bool(&vars, "B"), Some(false));
    assert_eq!(env_bool(&vars, "C"), None);
    assert_eq!(env_bool(&vars, "X"), None);
}

#[test]
fn summary_is_a_table() {
    assert_eq!(
        tunnel_summary("http://localhost:3000", "https://a.example.com", None),
        "\nTunnel ready\n\n\
         +------------+-----------------------+\n\
         | Local URL  | http://localhost:3000 |\n\
         | Public URL | https://a.example.com |\n\
         +------------+-----------------------+\n\n"
    );
}

#[test]
fn summary_tells_the_visitor_password() {
    assert_eq!(
        tunnel_summary("http://a", "https://bc", Some("pw")),
        "\nTunnel ready\n\n\
         +------------+------------+\n\
         | Local URL  | http://a   |\n\
         | Public URL | https://bc |\n\
         | Password   | pw         |\n\
         +------------+------------+\n\n"
    );
}

#[test]
fn summary_is_as_wide_as_the_bytes() {
    assert_eq!(
        tunnel_summary("ä", "b", None),
        "\nTunnel ready\n\n\
         +------------+----+\n\
         | Local URL  | ä  |\n\
         | Public URL | b  |\n\
         +------------+----+\n\n"
    );
}

#[test]
fn hop_by_hop_headers_are_known() {
    for name in [
        "connection",
        "Host",
        "KEEP-ALIVE",
        "proxy-authenticate",
        "proxy-authorization",
        "TE",
        "trailer",
        "Transfer-Encoding",
        "upgrade",
    ] {
        assert!(is_hop_by_hop_header(name));
    }
    assert!(!is_hop_by_hop_header("content-type"));
    assert!(!is_hop_by_hop_header("hosts"));
    assert_eq!(
        end_to_end_headers(pairs(&[("a", "1"), ("Host", "x"), ("b", "2")])),
        pairs(&[("a", "1"), ("b", "2")])
    );
}

#[test]
fn requests_are_planned() {
    let headers = pairs(&[("host", "x"), ("accept", "*/*"), ("connection", "close")]);
    let request = serialize_request("POST", "/echo?x=1", &headers, b"data");
    match handle_request(&encode_frame(9, &request), 3000) {
        Plan::Ask(request) => {
            assert_eq!(request.request_id, 9);
            assert_eq!(request.method, "POST");
            assert_eq!(request.url, "http://127.0.0.1:3000/echo?x=1");
            assert_eq!(request.headers, pairs(&[("accept", "*/*")]));
            assert_eq!(request.body.as_deref(), Some(&b"data"[..]));
        }
        _ => panic!("expected a request"),
    }
    let request = serialize_request("GET", "/", &[], b"");
    match handle_request(&encode_frame(9, &request), 3000) {
        Plan::Ask(request) => assert_eq!(request.body, None),
        _ => panic!("expected a request"),
    }
}

#[test]
fn bad_requests_are_answered() {
    assert!(matches!(handle_request(&[1, 2, 3], 80), Plan::Ignore));
    match handle_request(&encode_frame(7, b"GET"), 80) {
        Plan::Answer(frame) => {
            let (id, response) = response_in(&frame);
            assert_eq!(id, 7);
            assert_eq!(response.status, 400);
            assert_eq!(response.headers, pairs(&[("content-type", "text/html")]));
            assert_eq!(response.body, b"Bad Request");
        }
        _ => panic!("expected an answer"),
    }
    let request = serialize_request("G(T", "/", &[], b"");
    match handle_request(&encode_frame(8, &request), 80) {
        Plan::Answer(frame) => {
            let (id, response) = response_in(&frame);
            assert_eq!(id, 8);
            assert_eq!(response.status, 400);
            assert_eq!(response.body, b"Invalid method");
        }
        _ => panic!("expected an answer"),
    }
}

#[test]
fn error_frame_bytes() {
    assert_eq!(
        send_error_response(1, 400, "no"),
        b"\0\0\0\x01400\r\ncontent-type: text/html\r\n\r\nno"
    );
}

#[test]
fn local_outcomes_are_framed() {
    let (id, response) = response_in(&answer_request(3, 3000, LocalOutcome::TimedOut));
    assert_eq!(id, 3);
    assert_eq!(response.status, 504);
    assert_eq!(
        String::from_utf8(response.body).unwrap(),
        "<html><body style=\"font-family:system-ui;text-align:center;padding:40px\">\
         <h1>504 Gateway Timeout</h1>\
         <p>localhost:3000 did not respond within 30 seconds</p></body></html>"
    );
    let failed = LocalOutcome::Failed("refused".to_string());
    let (_, response) = response_in(&answer_request(3, 19999, failed));
    assert_eq!(response.status, 502);
    assert_eq!(
        String::from_utf8(response.body).unwrap(),
        "<html><body style=\"font-family:system-ui;text-align:center;padding:40px\">\
         <h1>502 Bad Gateway</h1>\
         <p>Could not connect to localhost:19999</p>\
         <p style=\"color:#999\">refused</p></body></html>"
    );
    let responded = LocalOutcome::Responded {
        status: 201,
        headers: vec![
            ("connection".to_string(), b"close".to_vec()),
            ("a".to_string(), b"b".to_vec()),
            ("raw".to_string(), vec![0xff]),
        ],
        body: None,
    };
    let (_, response) = response_in(&answer_request(3, 80, responded));
    assert_eq!(response.status, 201);
    assert_eq!(response.headers, pairs(&[("a", "b"), ("raw", "")]));
    assert!(response.body.is_empty());
}

#[test]
fn tunnel_client_dials() {
    let client = match TunnelClient::new("wss://example.com/tunnel") {
        Ok(client) => client,
        Err(_) => panic!("no client"),
    };
    let client = client
        .with_token("t".to_string())
        .with_password("pw".to_string());
    let dial = match client.connect_with_subdomain(3000, Some("name".to_string())) {
        Ok(dial) => dial,
        Err(_) => panic!("no dial"),
    };
    assert_eq!(dial.port, 3000);
    assert_eq!(dial.server_url, "wss://example.com/tunnel");
    assert_eq!(dial.registration.subdomain.as_deref(), Some("name"));
    assert_eq!(dial.registration.token.as_deref(), Some("t"));
    assert_eq!(dial.registration.password.as_deref(), Some("pw"));
    match client.connect(1) {
        Ok(dial) => assert_eq!(dial.registration.subdomain, None),
        Err(_) => panic!("no dial"),
    }
}

#[test]
fn tunnel_client_needs_a_url() {
    let client = match TunnelClient::new("no url") {
        Ok(client) => client,
        Err(_) => panic!("no client"),
    };
    assert!(matches!(client.connect(1), Err(TunnelError::Url(_))));
    assert_eq!(client.dial(1, None).server_url, "no url");
}

#[test]
fn first_message_is_the_answer() {
    let text = FirstMessage::Message(Message::Text("{}".to_string()));
    assert!(matches!(answer_text(text), Ok(text) if text == "{}"));
    let binary = FirstMessage::Message(Message::Binary(vec![]));
    assert!(matches!(
        answer_text(binary),
        Err(TunnelError::Registration(message)) if message == "expected text message"
    ));
    assert!(matches!(
        answer_text(FirstMessage::Closed),
        Err(TunnelError::ConnectionClosed)
    ));
    let failed = FirstMessage::Failed(tokio_tungstenite::tungstenite::Error::ConnectionClosed);
    assert!(matches!(
        answer_text(failed),
        Err(TunnelError::WebSocket(_))
    ));
}

#[test]
fn public_address_is_in_the_answer() {
    let answer = |ok: bool, error: Option<&str>| RegistrationResponse {
        ok,
        url: "https://myapp.example.com".to_string(),
        subdomain: "myapp".to_string(),
        error: error.map(str::to_string),
    };
    assert!(matches!(
        public_address(Ok(answer(true, None))),
        Ok(url) if url == "https://myapp.example.com"
    ));
    assert!(matches!(
        public_address(Ok(answer(false, Some("authentication failed")))),
        Err(TunnelError::Registration(message)) if message == "authentication failed"
    ));
    assert!(matches!(
        public_address(Ok(answer(false, None))),
        Err(TunnelError::Registration(message)) if message == "unknown error"
    ));
    assert!(matches!(
        public_address(Err("bad JSON".to_string())),
        Err(TunnelError::Registration(message)) if message == "bad JSON"
    ));
}

#[test]
fn incoming_messages_are_sorted() {
    assert!(matches!(
        receive(Incoming::Message(Message::Binary(vec![1]))),
        ClientAction::Handle(data) if data == vec![1]
    ));
    assert!(matches!(
        receive(Incoming::Message(Message::Ping(vec![2]))),
        ClientAction::Pong(data) if data == vec![2]
    ));
    assert!(matches!(
        receive(Incoming::Message(Message::Pong(vec![]))),
        ClientAction::Nothing
    ));
    assert!(matches!(
        receive(Incoming::Message(Message::Close(None))),
        ClientAction::Stop
    ));
    assert!(matches!(receive(Incoming::Failed), ClientAction::Stop));
    assert!(matches!(receive(Incoming::Ended), ClientAction::Stop));
}

#[test]
fn tunnel_is_closed_once() {
    let mut handle = TunnelHandle::new("https://a.b".to_string(), 5);
    assert_eq!(handle.url(), "https://a.b");
    assert_eq!(handle.close(), Some(5));
    assert_eq!(handle.close(), None);
    assert_eq!(handle.url, "https://a.b");
}

/// Sends a request through the relay and the client, and the outcome back.
fn through_tunnel(
    conn: &mut TunnelConnection<(), u32>,
    session: &mut Session,
    admission: &Admission,
    body: Vec<u8>,
    outcome: LocalOutcome,
) -> (u16, Vec<(String, String)>, Vec<u8>) {
    let (id, frame) = forward(conn, admission, Some(body.clone()), 1 << 20, 77).unwrap();
    let request = match handle_request(&frame, 3000) {
        Plan::Ask(request) => request,
        _ => panic!("expected a request"),
    };
    assert_eq!(request.request_id, id);
    assert_eq!(request.method, admission.head().method);
    assert_eq!(request.body.unwrap_or_default(), body);
    let answer = answer_request(request.request_id, 3000, outcome);
    let received = SessionEvent::Received(Incoming::Message(Message::Binary(answer)));
    match session.step(conn, received) {
        SessionAction::Deliver(waiter, data) => {
            assert_eq!(waiter, 77);
            let reply = settle(conn, id, Outcome::Answered(data));
            (reply.status, reply.headers, reply.body)
        }
        _ => panic!("expected a delivery"),
    }
}

#[test]
fn request_and_response_cross_the_tunnel() {
    let mut conn: TunnelConnection<(), u32> = TunnelConnection::new((), None);
    let mut session = Session::new();
    session.step(&mut conn, SessionEvent::Answered);
    let mut registry: Registry<u32> = build_registry(AppConfig {
        domain: "test.local".to_string(),
        auth_token: None,
        max_tunnels: 100,
        max_body_size: 1 << 20,
        rate_limit_rpm: 10_000,
        trust_proxy_headers: false,
    });
    registry.register("testsubdomain".to_string(), 1);
    let head = RequestHead {
        method: "POST".to_string(),
        path: "/echo".to_string(),
        uri: "/echo".to_string(),
        headers: vec![(
            "host".to_string(),
            b"testsubdomain.test.local".to_vec(),
        )],
    };
    let visit = public_handler(&mut registry, None, 0, head).unwrap();
    let admission = match decide_access(visit, &conn) {
        Passage::Granted(admission) => admission,
        _ => panic!("expected an admission"),
    };
    let responded = LocalOutcome::Responded {
        status: 200,
        headers: vec![("x".to_string(), b"y".to_vec())],
        body: Some(vec![b'X'; 1024]),
    };
    let (status, headers, body) = through_tunnel(
        &mut conn,
        &mut session,
        &admission,
        vec![b'X'; 1024],
        responded,
    );
    assert_eq!(status, 200);
    assert_eq!(headers, pairs(&[("x", "y")]));
    assert_eq!(body, vec![b'X'; 1024]);
    let failed = LocalOutcome::Failed("refused".to_string());
    let (status, _, body) = through_tunnel(&mut conn, &mut session, &admission, vec![], failed);
    assert_eq!(status, 502);
    assert!(String::from_utf8(body).unwrap().contains("refused"));
    let late = LocalOutcome::TimedOut;
    let (status, _, _) = through_tunnel(&mut conn, &mut session, &admission, vec![], late);
    assert_eq!(status, 504);
}
