//! The webhooks of a repository: who may be told, and what they are told.
use vstd::prelude::*;
use vstd::string::*;

use crate::db::models::Webhook;
use crate::error::AppError;
use crate::json::string_to_json;
use crate::numerals::hex_text;
use crate::text::{joined, same_ignoring_case, same_text, split_text, trim_text};
use crate::webhook::deliver::{HttpHeader, WebhookTask};

verus! {

/// An IP address.
#[derive(Debug, Clone, Copy)]
pub enum IpAddress {
    V4([u8; 4]),
    V6([u16; 8]),
}

/// Whether an IPv4 address is a loopback, private, link-local, shared or unspecified one.
pub open spec fn is_private_v4(o: Seq<u8>) -> bool {
    ||| o[0] == 127
    ||| o[0] == 10
    ||| o[0] == 172 && 16 <= o[1] <= 31
    ||| o[0] == 192 && o[1] == 168
    ||| o[0] == 169 && o[1] == 254
    ||| o[0] == 0
    ||| o[0] == 100 && 64 <= o[1] <= 127
}

/// Whether an IPv6 address is the loopback, a unique local or a link-local one.
pub open spec fn is_private_v6(s: Seq<u16>) -> bool {
    ||| s[0] == 0 && s[1] == 0 && s[2] == 0 && s[3] == 0 && s[4] == 0 && s[5] == 0 && s[6] == 0
        && s[7] == 1
    ||| 0xfc00 <= s[0] <= 0xfdff
    ||| 0xfe80 <= s[0] <= 0xfebf
}

/// Whether an address belongs to this machine or a private network.
pub open spec fn is_private(ip: IpAddress) -> bool {
    match ip {
        IpAddress::V4(o) => is_private_v4(o@),
        IpAddress::V6(s) => is_private_v6(s@),
    }
}

/// Whether an address belongs to this machine or a private network.
pub fn is_private_ip(ip: &IpAddress) -> (r: bool)
    ensures
        r == is_private(*ip),
{
    match ip {
        IpAddress::V4(o) => {
            o[0] == 127 || o[0] == 10 || (o[0] == 172 && 16 <= o[1] && o[1] <= 31) || (o[0] == 192
                && o[1] == 168) || (o[0] == 169 && o[1] == 254) || o[0] == 0 || (o[0] == 100 && 64
                <= o[1] && o[1] <= 127)
        },
        IpAddress::V6(s) => {
            let first: u16 = s[0];
            assert((first & 0xfe00 == 0xfc00) == (0xfc00 <= first && first <= 0xfdff))
                by (bit_vector);
            assert((first & 0xffc0 == 0xfe80) == (0xfe80 <= first && first <= 0xfebf))
                by (bit_vector);
            (s[0] == 0 && s[1] == 0 && s[2] == 0 && s[3] == 0 && s[4] == 0 && s[5] == 0 && s[6] == 0
                && s[7] == 1) || (first & 0xfe00) == 0xfc00 || (first & 0xffc0) == 0xfe80
        },
    }
}

/// The host in an address.
#[derive(Debug, Clone)]
pub enum UrlHost {
    Absent,
    Domain(String),
    V4([u8; 4]),
    V6([u16; 8]),
}

/// What is looked at in an address.
#[derive(Debug, Clone)]
pub struct UrlParts {
    pub scheme: String,
    pub host: UrlHost,
}

/// A [`UrlHost`] over sequences.
pub enum HostView {
    Absent,
    Domain(Seq<char>),
    V4(Seq<u8>),
    V6(Seq<u16>),
}

/// A [`UrlParts`] over sequences.
pub struct UrlView {
    pub scheme: Seq<char>,
    pub host: HostView,
}

impl View for UrlParts {
    type V = UrlView;

    open spec fn view(&self) -> UrlView {
        UrlView {
            scheme: self.scheme@,
            host: match self.host {
                UrlHost::Absent => HostView::Absent,
                UrlHost::Domain(d) => HostView::Domain(d@),
                UrlHost::V4(o) => HostView::V4(o@),
                UrlHost::V6(s) => HostView::V6(s@),
            },
        }
    }
}

/// The view of optional parts of an address.
pub open spec fn opt_url_view(parts: Option<UrlParts>) -> Option<UrlView> {
    match parts {
        Some(p) => Some(p@),
        None => None,
    }
}

/// The parts of an address; `None` where a text is not an address.
pub uninterp spec fn url_parts(raw: Seq<char>) -> Option<UrlView>;

/// `url::Url::parse`, and `scheme` and `host` of what it gives. The parts depend on the text
/// alone.
#[verifier::external_body]
fn parse_url(raw: &str) -> (r: Option<UrlParts>)
    ensures
        opt_url_view(r) == url_parts(raw@),
{
    url::Url::parse(raw).ok().map(|u| UrlParts {
        scheme: u.scheme().to_string(),
        host: match u.host() {
            None => UrlHost::Absent,
            Some(url::Host::Domain(d)) => UrlHost::Domain(d.to_string()),
            Some(url::Host::Ipv4(a)) => UrlHost::V4(a.octets()),
            Some(url::Host::Ipv6(a)) => UrlHost::V6(a.segments()),
        },
    })
}

/// Why an address is not accepted for a webhook, if it is not. The text of an IPv6 host has
/// brackets around it; such a host is not looked at further.
pub open spec fn target_fault(parts: Option<UrlView>) -> Option<Seq<char>> {
    match parts {
        None => Some("invalid webhook URL"@),
        Some(p) => if p.scheme != "http"@ && p.scheme != "https"@ {
            Some("webhook URL must use http or https"@)
        } else {
            match p.host {
                HostView::Absent => Some("webhook URL missing host"@),
                HostView::V4(o) => if is_private_v4(o) {
                    Some("webhook URL must not target a private or loopback address"@)
                } else {
                    None
                },
                HostView::V6(_) => None,
                HostView::Domain(d) => if crate::text::same_but_case(d, "localhost"@) {
                    Some("webhook URL must not target localhost"@)
                } else {
                    None
                },
            }
        },
    }
}

/// Checks that an address with these parts may be told of events.
pub fn check_webhook_target(parts: Option<UrlParts>) -> (r: Result<(), AppError>)
    ensures
        match target_fault(opt_url_view(parts)) {
            None => r is Ok,
            Some(text) => r matches Err(e) && e@ == crate::error::Fault::BadRequest(text),
        },
{
    match parts {
        None => Err(AppError::BadRequest("invalid webhook URL".to_owned())),
        Some(p) => {
            if !same_text(p.scheme.as_str(), "http") && !same_text(p.scheme.as_str(), "https") {
                return Err(
                    AppError::BadRequest("webhook URL must use http or https".to_owned()),
                );
            }
            match p.host {
                UrlHost::Absent => Err(AppError::BadRequest("webhook URL missing host".to_owned())),
                UrlHost::V4(o) => {
                    if is_private_ip(&IpAddress::V4(o)) {
                        Err(
                            AppError::BadRequest(
                                "webhook URL must not target a private or loopback address".to_owned(),
                            ),
                        )
                    } else {
                        Ok(())
                    }
                },
                UrlHost::V6(_) => Ok(()),
                UrlHost::Domain(d) => {
                    if same_ignoring_case(d.as_str(), "localhost") {
                        Err(
                            AppError::BadRequest(
                                "webhook URL must not target localhost".to_owned(),
                            ),
                        )
                    } else {
                        Ok(())
                    }
                },
            }
        },
    }
}

/// Checks that an address may be told of events.
pub fn validate_webhook_url(raw: &str) -> (r: Result<(), AppError>)
    ensures
        match target_fault(url_parts(raw@)) {
            None => r is Ok,
            Some(text) => r matches Err(e) && e@ == crate::error::Fault::BadRequest(text),
        },
{
    check_webhook_target(parse_url(raw))
}

/// An address that is accepted uses HTTP and names a host, and that is neither a private IPv4
/// address nor `localhost`.
pub proof fn accepted_target_is_public(parts: Option<UrlView>)
    requires
        target_fault(parts) is None,
    ensures
        parts is Some,
        parts->0.scheme == "http"@ || parts->0.scheme == "https"@,
        !(parts->0.host is Absent),
        parts->0.host matches HostView::V4(o) ==> !is_private_v4(o),
        parts->0.host matches HostView::Domain(d) ==> !crate::text::same_but_case(
            d,
            "localhost"@,
        ),
{
}

/// The texts of the list that are not empty once the white space at their ends is gone, without
/// that white space.
pub open spec fn wanted_events(list: Seq<Seq<char>>) -> Seq<Seq<char>> {
    list.map_values(|s: Seq<char>| crate::text::trimmed(s)).filter(|s: Seq<char>| s.len() > 0)
}

/// The events that are named in a form, with commas between them.
pub fn parse_events(form: Option<&str>) -> (r: Vec<String>)
    ensures
        crate::text::views(r@) == (match form {
            Some(text) => wanted_events(crate::text::split_on(text@, ',')),
            None => Seq::empty(),
        }),
{
    let mut out: Vec<String> = Vec::new();
    assert(crate::text::views(out@) == Seq::<Seq<char>>::empty());
    if let Some(text) = form {
        let pieces = split_text(text, ',');
        let ghost parts = crate::text::split_on(text@, ',');
        let ghost clean = parts.map_values(|s: Seq<char>| crate::text::trimmed(s));
        let ghost keep = |s: Seq<char>| s.len() > 0;
        assert(clean.take(0).filter(keep) == Seq::<Seq<char>>::empty()) by {
            reveal(Seq::filter);
        }
        for i in 0..pieces.len()
            invariant
                crate::text::views(pieces@) == parts,
                clean == parts.map_values(|s: Seq<char>| crate::text::trimmed(s)),
                keep == (|s: Seq<char>| s.len() > 0),
                crate::text::views(out@) == clean.take(i as int).filter(keep),
        {
            let ghost before = out@;
            let piece = trim_text(pieces[i].as_str());
            proof {
                assert(parts[i as int] == pieces@[i as int]@);
                reveal(Seq::filter);
                assert(clean.take(i + 1).drop_last() == clean.take(i as int));
                assert(clean.take(i + 1).last() == piece@);
            }
            if !piece.as_str().is_empty() {
                out.push(piece);
                assert(crate::text::views(out@) == crate::text::views(before).push(piece@));
            }
        }
        assert(clean.take(clean.len() as int) == clean);
    }
    out
}

/// No event that a form names is empty, or has white space at its ends.
pub proof fn named_events_are_clean(list: Seq<Seq<char>>, i: int)
    requires
        0 <= i < wanted_events(list).len(),
    ensures
        wanted_events(list)[i].len() > 0,
        !crate::text::is_white_space(wanted_events(list)[i][0]),
        !crate::text::is_white_space(wanted_events(list)[i].last()),
{
    let clean = list.map_values(|s: Seq<char>| crate::text::trimmed(s));
    let keep = |s: Seq<char>| s.len() > 0;
    let event = wanted_events(list)[i];
    assert(clean.filter(keep).contains(event));
    clean.lemma_filter_contains_rev(keep, event);
    let k = clean.index_of(event);
    assert(clean[k] == crate::text::trimmed(list[k]));
    crate::text::trimmed_has_bare_ends(list[k]);
    clean.lemma_filter_pred(keep, i);
}

/// The secret that is given in a form; an empty one is none.
pub fn parse_secret(form: Option<String>) -> (r: Option<String>)
    ensures
        r == (match form {
            Some(s) => if s@.len() > 0 {
                Some(s)
            } else {
                None
            },
            None => None,
        }),
{
    match form {
        Some(s) => if s.as_str().is_empty() {
            None
        } else {
            Some(s)
        },
        None => None,
    }
}

/// The page with the webhooks of a repository.
pub fn webhooks_location(user: &str, repo: &str) -> (r: String)
    ensures
        r@ == "/"@ + user@ + "/"@ + repo@ + "/settings/webhooks"@,
{
    let mut out = "/".to_owned();
    out.append(user);
    out.append("/");
    out.append(repo);
    out.append("/settings/webhooks");
    out
}

/// The code that HMAC with SHA-256 gives for the data under the key.
pub uninterp spec fn hmac_sha256(key: Seq<u8>, data: Seq<u8>) -> Seq<u8>;

/// `hmac::Hmac` over `sha2::Sha256`: `new_from_slice`, which takes a key of any length, then
/// `update` and `finalize`. The code has 32 bytes and depends on the key and the data alone.
#[verifier::external_body]
fn hmac_code(key: &[u8], data: &[u8]) -> (r: Vec<u8>)
    ensures
        r@ == hmac_sha256(key@, data@),
        r@.len() == 32,
{
    let mut mac = <hmac::Hmac<sha2::Sha256> as hmac::Mac>::new_from_slice(key).expect(
        "HMAC accepts any key length",
    );
    hmac::Mac::update(&mut mac, data);
    hmac::Mac::finalize(mac).into_bytes().to_vec()
}

/// The code for the data under the key, in hexadecimal.
pub fn hmac_hex(key: &[u8], data: &[u8]) -> (r: String)
    ensures
        r@ == crate::numerals::hex_of(hmac_sha256(key@, data@)),
{
    let code = hmac_code(key, data);
    hex_text(code.as_slice())
}

/// The message that tells of a push.
pub open spec fn push_payload(owner: Seq<char>, repo_name: Seq<char>) -> Seq<char> {
    "{\"event\":\"push\",\"repository\":{\"owner\":"@ + crate::json::json_string(owner)
        + ",\"name\":"@ + crate::json::json_string(repo_name) + "}}"@
}

/// The message that tells of a push, where the JSON texts of the two names are these.
pub fn push_body(owner_json: &str, name_json: &str) -> (r: String)
    ensures
        r@ == "{\"event\":\"push\",\"repository\":{\"owner\":"@ + owner_json@ + ",\"name\":"@
            + name_json@ + "}}"@,
{
    let mut out = "{\"event\":\"push\",\"repository\":{\"owner\":".to_owned();
    out.append(owner_json);
    out.append(",\"name\":");
    out.append(name_json);
    out.append("}}");
    out
}

/// The message that tells of a push.
pub fn push_message(owner: &str, repo_name: &str) -> (r: String)
    ensures
        r@ == push_payload(owner@, repo_name@),
{
    match (string_to_json(owner), string_to_json(repo_name)) {
        (Some(o), Some(n)) => push_body(o.as_str(), n.as_str()),
        _ => String::new(),
    }
}

/// The headers of a message: what kind of event it is about and, where the webhook has a secret,
/// the code for the message under that secret.
pub open spec fn push_headers(secret: Option<Seq<char>>, payload: Seq<char>) -> Seq<
    (Seq<char>, Seq<char>),
> {
    let event = seq![("X-Gitom-Event"@, "push"@)];
    match secret {
        Some(s) => event.push(
            (
                "X-Gitom-Signature"@,
                "sha256="@ + crate::numerals::hex_of(
                    hmac_sha256(
                        vstd::utf8::encode_utf8(s),
                        vstd::utf8::encode_utf8(payload),
                    ),
                ),
            ),
        ),
        None => event,
    }
}

/// Whether a message is the one for a webhook.
pub open spec fn is_task_for(task: WebhookTask, hook: Webhook, payload: Seq<char>) -> bool {
    &&& task.url == hook.url
    &&& task.payload@ == payload
    &&& task.hook_id == hook.id
    &&& crate::webhook::deliver::header_views(task.headers@) == push_headers(
        crate::text::opt_view(hook.secret),
        payload,
    )
}

/// The message for a webhook.
fn push_task(hook: Webhook, payload: &str) -> (r: WebhookTask)
    ensures
        is_task_for(r, hook, payload@),
{
    let mut headers: Vec<HttpHeader> = Vec::new();
    headers.push(HttpHeader { key: "X-Gitom-Event".to_owned(), value: "push".to_owned() });
    let ghost event = seq![("X-Gitom-Event"@, "push"@)];
    assert(crate::webhook::deliver::header_views(headers@) == event);
    if let Some(secret) = &hook.secret {
        let code = hmac_hex(secret.as_str().as_bytes(), payload.as_bytes());
        let signature = HttpHeader {
            key: "X-Gitom-Signature".to_owned(),
            value: joined("sha256=", code.as_str()),
        };
        headers.push(signature);
        assert(crate::webhook::deliver::header_views(headers@) == event.push(
            crate::webhook::deliver::header_view(signature),
        ));
    }
    WebhookTask { url: hook.url, payload: payload.to_owned(), headers, hook_id: hook.id }
}

/// The messages that tell of a push, one for each webhook.
pub fn fire_push_webhooks(owner: &str, repo_name: &str, hooks: Vec<Webhook>) -> (r: Vec<
    WebhookTask,
>)
    ensures
        r@.len() == hooks@.len(),
        forall|i: int|
            0 <= i < hooks@.len() ==> is_task_for(
                #[trigger] r@[i],
                hooks@[i],
                push_payload(owner@, repo_name@),
            ),
{
    let payload = push_message(owner, repo_name);
    let mut out: Vec<WebhookTask> = Vec::new();
    for hook in it: hooks
        invariant
            it.seq() == hooks@,
            out@.len() == it.index(),
            payload@ == push_payload(owner@, repo_name@),
            forall|i: int|
                0 <= i < it.index() ==> is_task_for(
                    #[trigger] out@[i],
                    hooks@[i],
                    push_payload(owner@, repo_name@),
                ),
    {
        out.push(push_task(hook, payload.as_str()));
    }
    out
}

/// An IPv4 address as a number.
pub open spec fn v4_number(o: Seq<u8>) -> int {
    o[0] * 0x100_0000 + o[1] * 0x1_0000 + o[2] * 0x100 + o[3]
}

/// The IPv4 addresses that are private are those in 0.0.0.0/8, 10.0.0.0/8, 100.64.0.0/10,
/// 127.0.0.0/8, 169.254.0.0/16, 172.16.0.0/12 and 192.168.0.0/16.
pub proof fn private_v4_networks(o: Seq<u8>)
    requires
        o.len() == 4,
    ensures
        is_private_v4(o) <==> {
            let n = v4_number(o);
            ||| 0 <= n < 0x100_0000
            ||| 0x0a00_0000 <= n < 0x0b00_0000
            ||| 0x6440_0000 <= n < 0x6480_0000
            ||| 0x7f00_0000 <= n < 0x8000_0000
            ||| 0xa9fe_0000 <= n < 0xa9ff_0000
            ||| 0xac10_0000 <= n < 0xac20_0000
            ||| 0xc0a8_0000 <= n < 0xc0a9_0000
        },
{
}

/// The IPv6 addresses that are private are the loopback, and those in fc00::/7 and fe80::/10.
pub proof fn private_v6_networks(s: Seq<u16>)
    requires
        s.len() == 8,
    ensures
        is_private_v6(s) <==> {
            ||| s == seq![0u16, 0u16, 0u16, 0u16, 0u16, 0u16, 0u16, 1u16]
            ||| s[0] / 0x200 == 0x7e
            ||| s[0] / 0x40 == 0x3fa
        },
{
    let loopback = seq![0u16, 0u16, 0u16, 0u16, 0u16, 0u16, 0u16, 1u16];
    if s[0] == 0 && s[1] == 0 && s[2] == 0 && s[3] == 0 && s[4] == 0 && s[5] == 0 && s[6] == 0
        && s[7] == 1 {
        assert(s == loopback);
    }
}

/// An address is judged by the rules for its kind.
pub proof fn addresses_are_judged_by_kind(o: [u8; 4], s: [u16; 8])
    ensures
        is_private(IpAddress::V4(o)) <==> is_private_v4(o@),
        is_private(IpAddress::V6(s)) <==> is_private_v6(s@),
{
}

/// An address is accepted for a webhook exactly where it uses HTTP, with or without encryption, and
/// its host is an IPv4 address that is not private, any IPv6 address, or a name other than
/// `localhost` in any case. What is wrong is told: that it is no address, then its scheme, then its
/// host.
pub proof fn webhooks_go_to_public_hosts(scheme: Seq<char>, host: HostView)
    ensures
        target_fault(None) == Some("invalid webhook URL"@),
        scheme != "http"@ && scheme != "https"@ ==> target_fault(Some(UrlView { scheme, host }))
            == Some("webhook URL must use http or https"@),
        scheme == "http"@ || scheme == "https"@ ==> target_fault(Some(UrlView { scheme, host }))
            == (match host {
            HostView::Absent => Some("webhook URL missing host"@),
            HostView::V4(o) => if is_private_v4(o) {
                Some("webhook URL must not target a private or loopback address"@)
            } else {
                None
            },
            HostView::V6(_) => None,
            HostView::Domain(d) => if crate::text::same_but_case(d, "localhost"@) {
                Some("webhook URL must not target localhost"@)
            } else {
                None
            },
        }),
{
}

/// The parts of an address are seen as they are.
pub proof fn parts_are_seen_as_they_are(parts: UrlParts)
    ensures
        opt_url_view(Some(parts)) == Some(parts@),
        opt_url_view(None) is None,
        parts@.scheme == parts.scheme@,
        parts.host is Absent <==> parts@.host is Absent,
        parts.host matches UrlHost::Domain(d) ==> parts@.host == HostView::Domain(d@),
        parts.host matches UrlHost::V4(o) ==> parts@.host == HostView::V4(o@),
        parts.host matches UrlHost::V6(s) ==> parts@.host == HostView::V6(s@),
{
}

/// Events are wanted one by one, in the order in which they are named: those in front, then those
/// behind. A text names one event, the text without the white space at its ends, and none where
/// that leaves nothing.
pub proof fn events_are_wanted_in_order(
    front: Seq<Seq<char>>,
    back: Seq<Seq<char>>,
    text: Seq<char>,
)
    ensures
        wanted_events(front + back) == wanted_events(front) + wanted_events(back),
        crate::text::trimmed(text).len() > 0 ==> wanted_events(seq![text])
            == seq![crate::text::trimmed(text)],
        crate::text::trimmed(text).len() == 0 ==> wanted_events(seq![text]).len() == 0,
        wanted_events(Seq::<Seq<char>>::empty()).len() == 0,
{
    let clean = |s: Seq<char>| crate::text::trimmed(s);
    let keep = |s: Seq<char>| s.len() > 0;
    assert((front + back).map_values(clean) == front.map_values(clean) + back.map_values(clean));
    Seq::filter_distributes_over_add(front.map_values(clean), back.map_values(clean), keep);
    reveal(Seq::filter);
    let one = seq![crate::text::trimmed(text)];
    assert(seq![text].map_values(clean) == one);
    assert(one.drop_last() == Seq::<Seq<char>>::empty());
    assert(one.last() == crate::text::trimmed(text));
    assert(Seq::<Seq<char>>::empty().filter(keep) == Seq::<Seq<char>>::empty());
    assert(Seq::<Seq<char>>::empty().map_values(clean) == Seq::<Seq<char>>::empty());
    assert(one.filter(keep) == (if keep(one.last()) {
        Seq::<Seq<char>>::empty().push(one.last())
    } else {
        Seq::<Seq<char>>::empty()
    }));
}

/// The message that tells of a push is a JSON object that names the event and, as JSON texts, the
/// owner and the repository.
pub proof fn message_names_owner_and_repository(owner: Seq<char>, repo_name: Seq<char>)
    ensures
        push_payload(owner, repo_name) == "{\"event\":\"push\",\"repository\":{\"owner\":"@
            + crate::json::json_string(owner) + ",\"name\":"@ + crate::json::json_string(repo_name)
            + "}}"@,
{
}

/// The message for a webhook goes to its address, says that it tells of a push and, exactly where
/// the webhook has a secret, is signed: with the code of the message, in UTF-8, under the secret,
/// in hexadecimal.
pub proof fn message_is_signed_with_the_secret(
    task: WebhookTask,
    hook: Webhook,
    payload: Seq<char>,
)
    requires
        is_task_for(task, hook, payload),
    ensures
        task.url@ == hook.url@,
        task.payload@ == payload,
        task.hook_id == hook.id,
        task.headers@.len() == (if hook.secret is Some {
            2int
        } else {
            1int
        }),
        task.headers@[0].key@ == "X-Gitom-Event"@,
        task.headers@[0].value@ == "push"@,
        hook.secret matches Some(secret) ==> task.headers@[1].key@ == "X-Gitom-Signature"@
            && task.headers@[1].value@ == "sha256="@ + crate::numerals::hex_of(
            hmac_sha256(
                vstd::utf8::encode_utf8(secret@),
                vstd::utf8::encode_utf8(task.payload@),
            ),
        ),
{
    let views = crate::webhook::deliver::header_views(task.headers@);
    assert(views.len() == task.headers@.len());
    assert(views[0] == crate::webhook::deliver::header_view(task.headers@[0]));
    if hook.secret is Some {
        assert(views[1] == crate::webhook::deliver::header_view(task.headers@[1]));
    }
}

} // verus!
