use gitom::db::models::Webhook;
use gitom::error::AppError;
use gitom::routes::webhooks::{
    check_webhook_target, fire_push_webhooks, hmac_hex, is_private_ip, parse_events, parse_secret,
    push_body, push_message, validate_webhook_url, webhooks_location, IpAddress, UrlHost, UrlParts,
};
use gitom::webhook::deliver::{
    answer_to_delivery, backoff_ms, no_answer, request_headers, Delivery, DeliveryStep, HttpHeader,
    WebhookTask,
};
use gitom::webhook::metrics::Metrics;

#[test]
fn private_addresses_are_known() {
    for o in [
        [127, 0, 0, 1],
        [10, 1, 2, 3],
        [172, 16, 0, 1],
        [172, 31, 255, 255],
        [192, 168, 0, 1],
        [169, 254, 1, 1],
        [0, 0, 0, 0],
        [100, 64, 0, 1],
        [100, 127, 0, 1],
    ] {
        assert!(is_private_ip(&IpAddress::V4(o)), "{o:?}");
    }
    for o in [[8, 8, 8, 8], [172, 15, 0, 1], [172, 32, 0, 1], [192, 167, 0, 1], [100, 63, 0, 1], [100, 128, 0, 1]] {
        assert!(!is_private_ip(&IpAddress::V4(o)), "{o:?}");
    }
    for s in [[0, 0, 0, 0, 0, 0, 0, 1], [0xfc00, 0, 0, 0, 0, 0, 0, 0], [0xfdff, 1, 0, 0, 0, 0, 0, 0], [0xfe80, 0, 0, 0, 0, 0, 0, 1], [0xfebf, 0, 0, 0, 0, 0, 0, 1]] {
        assert!(is_private_ip(&IpAddress::V6(s)), "{s:?}");
    }
    for s in [[0, 0, 0, 0, 0, 0, 0, 0], [0x2001, 0xdb8, 0, 0, 0, 0, 0, 1], [0xfe00, 0, 0, 0, 0, 0, 0, 1], [0xfec0, 0, 0, 0, 0, 0, 0, 1]] {
        assert!(!is_private_ip(&IpAddress::V6(s)), "{s:?}");
    }
}

fn refused(raw: &str) -> String {
    match validate_webhook_url(raw) {
        Err(AppError::BadRequest(text)) => text,
        other => panic!("{raw}: {other:?}"),
    }
}

#[test]
fn webhook_addresses_are_checked() {
    for raw in ["https://example.org/hook", "http://8.8.8.8/", "HTTP://Example.org:8080/x?y", "http://[2001:db8::1]/", "http://[::1]/", "https://[fc00::1]:8443/", "http://[fe80::1]/"] {
        assert!(validate_webhook_url(raw).is_ok(), "{raw}");
    }
    assert_eq!(refused("not an address"), "invalid webhook URL");
    assert_eq!(refused("http://"), "invalid webhook URL");
    assert_eq!(refused("ftp://example.org/"), "webhook URL must use http or https");
    assert_eq!(refused("mailto:ada@example.org"), "webhook URL must use http or https");
    for raw in [
        "http://127.0.0.1/",
        "http://10.0.0.1:8080/",
        "https://192.168.1.1/",
        "http://2130706433/",
    ] {
        assert_eq!(refused(raw), "webhook URL must not target a private or loopback address", "{raw}");
    }
    assert_eq!(refused("http://LOCALHOST/"), "webhook URL must not target localhost");
}

#[test]
fn parts_of_an_address_decide() {
    let parts = |scheme: &str, host: UrlHost| Some(UrlParts { scheme: scheme.to_string(), host });
    assert!(check_webhook_target(parts("https", UrlHost::Domain("example.org".to_string()))).is_ok());
    assert!(check_webhook_target(parts("http", UrlHost::V6([0x2001, 0xdb8, 0, 0, 0, 0, 0, 1]))).is_ok());
    assert!(check_webhook_target(parts("http", UrlHost::V6([0xfc00, 0, 0, 0, 0, 0, 0, 1]))).is_ok());
    assert!(check_webhook_target(parts("file", UrlHost::Absent)).is_err());
    match check_webhook_target(parts("http", UrlHost::Absent)) {
        Err(AppError::BadRequest(text)) => assert_eq!(text, "webhook URL missing host"),
        other => panic!("{other:?}"),
    }
    assert!(check_webhook_target(None).is_err());
}

#[test]
fn forms_name_events_and_secrets() {
    assert_eq!(parse_events(Some(" push, ,tag ,,*")), vec!["push", "tag", "*"]);
    assert_eq!(parse_events(Some("")), Vec::<String>::new());
    assert_eq!(parse_events(None), Vec::<String>::new());
    assert_eq!(parse_secret(Some("s".to_string())), Some("s".to_string()));
    assert_eq!(parse_secret(Some(String::new())), None);
    assert_eq!(parse_secret(None), None);
    assert_eq!(webhooks_location("ada", "notes"), "/ada/notes/settings/webhooks");
}

#[test]
fn codes_are_those_of_hmac_with_sha256() {
    // The second example of RFC 4231.
    assert_eq!(
        hmac_hex(b"Jefe", b"what do ya want for nothing?"),
        "5bdcc146bf60754e6a042426089575c75a003f089d2739839dec58b964ec3843"
    );
}

#[test]
fn pushes_are_told_to_every_webhook() {
    let hook = |id: i64, secret: Option<&str>| Webhook {
        id,
        repo_id: 1,
        url: format!("https://example.org/{id}"),
        secret: secret.map(|s| s.to_string()),
        events: vec!["push".to_string()],
        is_active: true,
    };
    let payload = "{\"event\":\"push\",\"repository\":{\"owner\":\"ada\",\"name\":\"a\\\"b\"}}";
    assert_eq!(push_message("ada", "a\"b"), payload);
    assert_eq!(push_body("\"ada\"", "\"a\\\"b\""), payload);
    assert_eq!(
        push_message("\u{8}\t\n\u{c}\r\\/", "\u{1}\u{1f}\u{7f}\u{e9}"),
        "{\"event\":\"push\",\"repository\":{\"owner\":\"\\b\\t\\n\\f\\r\\\\/\",\"name\":\"\\u0001\\u001f\u{7f}\u{e9}\"}}"
    );
    let tasks = fire_push_webhooks("ada", "a\"b", vec![hook(3, None), hook(4, Some("key"))]);
    assert_eq!(tasks.len(), 2);
    assert_eq!(tasks[0].url, "https://example.org/3");
    assert_eq!(tasks[0].hook_id, 3);
    assert_eq!(tasks[0].payload, payload);
    assert_eq!(tasks[0].headers.len(), 1);
    assert_eq!(tasks[0].headers[0].key, "X-Gitom-Event");
    assert_eq!(tasks[0].headers[0].value, "push");
    assert_eq!(tasks[1].headers[1].key, "X-Gitom-Signature");
    assert_eq!(
        tasks[1].headers[1].value,
        format!("sha256={}", hmac_hex(b"key", payload.as_bytes()))
    );
    assert_eq!(fire_push_webhooks("ada", "n", Vec::new()).len(), 0);
}

#[test]
fn messages_are_sent_as_json() {
    let task = WebhookTask {
        url: String::new(),
        payload: String::new(),
        headers: vec![HttpHeader { key: "X-Gitom-Event".to_string(), value: "push".to_string() }],
        hook_id: 1,
    };
    let all: Vec<(String, String)> =
        request_headers(&task).into_iter().map(|h| (h.key, h.value)).collect();
    assert_eq!(
        all,
        vec![
            ("Content-Type".to_string(), "application/json".to_string()),
            ("X-Gitom-Event".to_string(), "push".to_string()),
        ]
    );
}

#[test]
fn answers_mean_taken_or_not() {
    assert_eq!(answer_to_delivery(200), Ok(200));
    assert_eq!(answer_to_delivery(399), Ok(399));
    assert_eq!(answer_to_delivery(199), Err("HTTP 199".to_string()));
    assert_eq!(answer_to_delivery(404), Err("HTTP 404".to_string()));
    assert_eq!(no_answer("timed out"), "network error: timed out");
}

#[test]
fn pauses_double_up_to_a_minute() {
    let pauses: Vec<u64> = (0..9).map(|i| backoff_ms(500, i)).collect();
    assert_eq!(pauses, vec![500, 1000, 2000, 4000, 8000, 16000, 32000, 60000, 60000]);
    assert_eq!(backoff_ms(0, 31), 0);
    assert_eq!(backoff_ms(1, 31), 60000);
}

#[test]
fn delivery_is_given_up_after_the_last_retry() {
    let mut d = Delivery::new(2, 500);
    assert_eq!(d.attempt_number(), 0);
    assert_eq!(d.on_attempt(false), DeliveryStep::RetryAfterMs(500));
    assert_eq!(d.attempt_number(), 1);
    assert_eq!(d.on_attempt(false), DeliveryStep::RetryAfterMs(1000));
    assert_eq!(d.on_attempt(false), DeliveryStep::GiveUp);
    let mut d = Delivery::new(2, 500);
    d.on_attempt(false);
    assert_eq!(d.on_attempt(true), DeliveryStep::Done);
}

#[test]
fn counters_balance() {
    let mut m = Metrics::new();
    m.begin();
    m.begin();
    m.begin();
    m.settle(&DeliveryStep::RetryAfterMs(5));
    m.settle(&DeliveryStep::Done);
    m.settle(&DeliveryStep::GiveUp);
    assert_eq!(m, Metrics { enqueued: 3, delivered: 1, failed: 1, in_flight: 1 });
    assert_eq!(Metrics::default(), Metrics::new());
    let mut full = Metrics { enqueued: u64::MAX, delivered: 0, failed: 0, in_flight: u64::MAX };
    full.begin();
    assert_eq!(full.enqueued, 0);
    assert_eq!(full.in_flight, 0);
}

#[test]
fn delivery_is_counted_once() {
    for (outcomes, delivered, failed) in [
        (vec![true], 1, 0),
        (vec![false, false, true], 1, 0),
        (vec![false, false, false], 0, 1),
    ] {
        let mut m = Metrics { enqueued: 5, delivered: 0, failed: 0, in_flight: 2 };
        let mut d = Delivery::new(2, 100);
        m.begin();
        assert_eq!(m.in_flight, 3);
        let mut attempts = 0;
        loop {
            let step = d.on_attempt(outcomes[attempts]);
            attempts += 1;
            m.settle(&step);
            if !matches!(step, DeliveryStep::RetryAfterMs(_)) {
                break;
            }
        }
        assert_eq!(attempts, outcomes.len());
        assert_eq!(m, Metrics { enqueued: 6, delivered, failed, in_flight: 2 });
    }
}
