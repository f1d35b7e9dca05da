use vstd::prelude::*;
use crate::text::{
    signed_decimal_chars, signed_decimal_text,
    all_digits, decimal_chars, is_digit, lemma_decimal_chars_value,
    last_index_of, occurs_at, parse_unsigned, parsed_unsigned, rfind_char, starts_with, strip_leading,
    trim_start_matches,
};

verus! {

/// Settings of the MQTT upload channel.
#[derive(Debug, Clone)]
pub struct MqttUploadConfig {
    pub broker: String,
    pub client_id: String,
    pub username: String,
    pub password: String,
    pub topic_prefix: String,
}

/// Settings of the HTTP fallback channel; `ws_url` is the endpoint, given
/// with a `ws://` or `wss://` scheme.
#[derive(Debug, Clone)]
pub struct FallbackConfig {
    pub ws_url: String,
    pub enabled: bool,
}

/// Host and port of a broker URL of the form `tcp://host:port` or
/// `mqtt://host:port`: every leading `tcp://`, then every leading `mqtt://`,
/// is removed, and the text is split at its last `:`.
pub open spec fn broker_address(url: Seq<char>) -> Option<(Seq<char>, u16)> {
    let t = strip_leading(strip_leading(url, "tcp://"@), "mqtt://"@);
    match last_index_of(t, ':') {
        Some(k) => match parsed_unsigned(t.subrange(k + 1, t.len() as int), 65535) {
            Some(v) => Some((t.subrange(0, k), v as u16)),
            None => None,
        },
        None => None,
    }
}

/// Parses `tcp://host:port` or `mqtt://host:port` into host and port.
pub fn parse_broker_url(url: &str) -> (r: Option<(String, u16)>)
    ensures
        r matches Some((h, p)) ==> broker_address(url@) == Some((h@, p)),
        r is None ==> broker_address(url@) is None,
{
    let once = trim_start_matches(url, "tcp://");
    let stripped = trim_start_matches(once, "mqtt://");
    let n = stripped.unicode_len();
    match rfind_char(stripped, ':') {
        Some(k) => {
            proof {
                lemma_last_index_in_bounds(stripped@, ':');
            }
            let port_text = stripped.substring_char(k + 1, n);
            match parse_unsigned(port_text, 65535) {
                Some(v) => {
                    let host = String::from_str(stripped.substring_char(0, k));
                    Some((host, v as u16))
                },
                None => None,
            }
        },
        None => None,
    }
}

proof fn lemma_last_index_in_bounds(s: Seq<char>, c: char)
    ensures
        last_index_of(s, c) matches Some(k) ==> 0 <= k < s.len(),
    decreases s.len(),
{
    if s.len() > 0 {
        lemma_last_index_in_bounds(s.drop_last(), c);
    }
}

/// `h` holds no scheme separator `://`.
pub open spec fn no_scheme_separator(h: Seq<char>) -> bool {
    forall|i: int| !occurs_at(h, i, "://"@)
}

proof fn lemma_no_prefix_with_separator(h: Seq<char>, d: Seq<char>, q: Seq<char>, m: int)
    requires
        no_scheme_separator(h),
        all_digits(d),
        m >= 0,
        q.len() == m + 3,
        q.subrange(m, m + 3) == "://"@,
    ensures
        !occurs_at(h + seq![':'] + d, 0, q),
{
    reveal_strlit("://");
    let t = h + seq![':'] + d;
    if occurs_at(t, 0, q) {
        assert(t[m] == q[m] && t[m + 1] == q[m + 1] && t[m + 2] == q[m + 2]) by {
            assert(t.subrange(0, m + 3)[m] == t[m]);
            assert(t.subrange(0, m + 3)[m + 1] == t[m + 1]);
            assert(t.subrange(0, m + 3)[m + 2] == t[m + 2]);
        }
        assert(q[m] == "://"@[0] && q[m + 1] == "://"@[1] && q[m + 2] == "://"@[2]) by {
            assert(q.subrange(m, m + 3)[0] == q[m]);
            assert(q.subrange(m, m + 3)[1] == q[m + 1]);
            assert(q.subrange(m, m + 3)[2] == q[m + 2]);
        }
        if h.len() >= m + 3 {
            assert(h.subrange(m, m + 3) =~= "://"@);
            assert(occurs_at(h, m, "://"@));
        } else if h.len() <= m + 1 {
            if h.len() == m + 1 {
                assert(t[m + 1] == ':');
            } else {
                assert(t[m + 1] == d[m + 1 - h.len() - 1]);
                assert(is_digit(d[m + 1 - h.len() - 1]));
            }
        } else {
            assert(t[m + 2] == ':');
        }
    }
}

proof fn lemma_last_colon(a: Seq<char>, b: Seq<char>)
    requires
        forall|i: int| 0 <= i < b.len() ==> b[i] != ':',
    ensures
        last_index_of(a + seq![':'] + b, ':') == Some(a.len() as int),
    decreases b.len(),
{
    let s = a + seq![':'] + b;
    if b.len() == 0 {
        assert(s.drop_last() =~= a);
        assert(s.last() == ':');
    } else {
        assert(s.drop_last() =~= a + seq![':'] + b.drop_last());
        assert(s.last() == b.last());
        lemma_last_colon(a, b.drop_last());
    }
}

/// A broker URL made of an optional `tcp://` or `mqtt://`, a host without a
/// scheme separator, a colon and a port in decimal gives back that host and
/// port.
pub proof fn law_broker_url_roundtrip(scheme: Seq<char>, host: Seq<char>, port: u16)
    requires
        scheme == "tcp://"@ || scheme == "mqtt://"@ || scheme == Seq::<char>::empty(),
        no_scheme_separator(host),
    ensures
        broker_address(scheme + host + seq![':'] + decimal_chars(port as nat)) == Some((host, port)),
{
    reveal_strlit("tcp://");
    reveal_strlit("mqtt://");
    reveal_strlit("://");
    let d = decimal_chars(port as nat);
    lemma_decimal_chars_value(port as nat);
    let t = host + seq![':'] + d;
    let url = scheme + t;
    assert(url =~= scheme + host + seq![':'] + d);
    assert("tcp://"@.subrange(3, 6) =~= "://"@);
    assert("mqtt://"@.subrange(4, 7) =~= "://"@);
    lemma_no_prefix_with_separator(host, d, "tcp://"@, 3);
    lemma_no_prefix_with_separator(host, d, "mqtt://"@, 4);
    assert(strip_leading(t, "tcp://"@) == t);
    assert(strip_leading(t, "mqtt://"@) == t);
    if scheme == "tcp://"@ {
        assert(occurs_at(url, 0, "tcp://"@)) by {
            assert(url.subrange(0, 6) =~= scheme);
        }
        assert(url.subrange(6, url.len() as int) =~= t);
        assert(strip_leading(url, "tcp://"@) == t);
    } else if scheme == "mqtt://"@ {
        assert(!occurs_at(url, 0, "tcp://"@)) by {
            assert(url[0] == 'm');
            if occurs_at(url, 0, "tcp://"@) {
                assert(url.subrange(0, 6)[0] == url[0]);
            }
        }
        assert(strip_leading(url, "tcp://"@) == url);
        assert(occurs_at(url, 0, "mqtt://"@)) by {
            assert(url.subrange(0, 7) =~= scheme);
        }
        assert(url.subrange(7, url.len() as int) =~= t);
        assert(strip_leading(url, "mqtt://"@) == t);
    } else {
        assert(url =~= t);
    }
    assert forall|i: int| 0 <= i < d.len() implies d[i] != ':' by {
        assert(is_digit(d[i]));
    }
    lemma_last_colon(host, d);
    assert(t.subrange(host.len() as int + 1, t.len() as int) =~= d);
    assert(t.subrange(0, host.len() as int) =~= host);
    assert(d[0] != '+') by {
        assert(is_digit(d[0]));
    }
    assert(parsed_unsigned(d, 65535) == Some(port as int));
}

/// A broker URL gives no address when, once its leading `tcp://` and
/// `mqtt://` are removed, it has no colon, or the text after its last colon
/// is not a port number (decimal, at most 65535).
pub proof fn law_broker_url_needs_port(url: Seq<char>)
    ensures
        ({
            let t = strip_leading(strip_leading(url, "tcp://"@), "mqtt://"@);
            &&& last_index_of(t, ':') is None ==> broker_address(url) is None
            &&& (last_index_of(t, ':') matches Some(k)
                && parsed_unsigned(t.subrange(k + 1, t.len() as int), 65535) is None)
                ==> broker_address(url) is None
        }),
{
}

/// Host and port to connect to: those of the broker URL where it parses,
/// else the URL without its leading `tcp://` and port 1883.
pub open spec fn broker_endpoint_of(url: Seq<char>) -> (Seq<char>, u16) {
    match broker_address(url) {
        Some(hp) => hp,
        None => (strip_leading(url, "tcp://"@), 1883),
    }
}

/// Host and port to connect to for a broker URL.
pub fn broker_endpoint(url: &str) -> (r: (String, u16))
    ensures
        (r.0@, r.1) == broker_endpoint_of(url@),
{
    match parse_broker_url(url) {
        Some(hp) => hp,
        None => (String::from_str(trim_start_matches(url, "tcp://")), 1883),
    }
}

/// The channel readings currently go out on.
#[derive(Debug, Clone, Copy, PartialEq, Eq, Structural)]
pub enum Channel {
    Mqtt,
    HttpFallback,
    Disconnected,
}

/// Consecutive MQTT event-loop failures after which uploads switch to the
/// HTTP fallback.
pub const MAX_MQTT_RETRIES: u32 = 3;

/// What happened on the MQTT link.
#[derive(Debug, Clone, Copy, PartialEq, Eq, Structural)]
pub enum LinkEvent {
    /// A new client was created and a connection attempt started; the
    /// channel and the failure count stay until the broker acknowledges.
    Connecting,
    /// The broker acknowledged the connection.
    ConnAck,
    /// Any other event from the broker.
    Other,
    /// Polling the event loop failed.
    PollError,
    /// A probe asked whether MQTT should be tried again.
    Probe,
    /// The event loop was cancelled.
    Cancelled,
}

/// What the event-loop task does next.
#[derive(Debug, Clone, Copy, PartialEq, Eq, Structural)]
pub enum LinkAction {
    /// Keep polling.
    Continue,
    /// Keep polling, after publishing the collector's `online` status.
    PublishOnline,
    /// Drop the connection and connect anew after `delay_secs`; first probe
    /// the HTTP fallback endpoint where `probe_http` holds.
    Reconnect { delay_secs: u64, probe_http: bool },
    /// Leave the event loop.
    Stop,
}

/// Upload channel state kept by the MQTT event-loop task.
#[derive(Debug, Clone, Copy, PartialEq, Eq, Structural)]
pub struct LinkState {
    pub channel: Channel,
    pub fail_count: u32,
    pub has_client: bool,
}

/// The state and action after `event` in state `s`.
pub open spec fn link_step(s: LinkState, event: LinkEvent, fallback_enabled: bool) -> (LinkState, LinkAction) {
    match event {
        LinkEvent::Connecting => (
            LinkState { channel: s.channel, fail_count: s.fail_count, has_client: true },
            LinkAction::Continue,
        ),
        LinkEvent::ConnAck => (
            LinkState { channel: Channel::Mqtt, fail_count: 0, has_client: s.has_client },
            if s.has_client { LinkAction::PublishOnline } else { LinkAction::Continue },
        ),
        LinkEvent::Other => (s, LinkAction::Continue),
        LinkEvent::PollError => {
            let n = (s.fail_count + 1) as u32;
            if n >= MAX_MQTT_RETRIES {
                (
                    LinkState { channel: Channel::HttpFallback, fail_count: n, has_client: false },
                    LinkAction::Reconnect { delay_secs: 30, probe_http: fallback_enabled },
                )
            } else {
                (
                    LinkState { fail_count: n, ..s },
                    LinkAction::Reconnect { delay_secs: 2, probe_http: false },
                )
            }
        },
        LinkEvent::Probe => (
            s,
            if s.channel == Channel::HttpFallback {
                LinkAction::Reconnect { delay_secs: 0, probe_http: false }
            } else {
                LinkAction::Continue
            },
        ),
        LinkEvent::Cancelled => (
            LinkState { channel: Channel::Disconnected, fail_count: s.fail_count, has_client: false },
            LinkAction::Stop,
        ),
    }
}

impl LinkState {
    /// No channel and no client, before the event loop starts.
    pub fn new() -> (r: Self)
        ensures
            r == (LinkState { channel: Channel::Disconnected, fail_count: 0, has_client: false }),
    {
        LinkState { channel: Channel::Disconnected, fail_count: 0, has_client: false }
    }

    /// Applies one link event and says what the event-loop task does next.
    pub fn step(&mut self, event: LinkEvent, fallback_enabled: bool) -> (a: LinkAction)
        requires
            event == LinkEvent::PollError ==> old(self).fail_count < u32::MAX,
        ensures
            (*final(self), a) == link_step(*old(self), event, fallback_enabled),
    {
        match event {
            LinkEvent::Connecting => {
                self.has_client = true;
                LinkAction::Continue
            },
            LinkEvent::ConnAck => {
                self.channel = Channel::Mqtt;
                self.fail_count = 0;
                if self.has_client {
                    LinkAction::PublishOnline
                } else {
                    LinkAction::Continue
                }
            },
            LinkEvent::Other => LinkAction::Continue,
            LinkEvent::PollError => {
                self.fail_count = self.fail_count + 1;
                if self.fail_count >= MAX_MQTT_RETRIES {
                    self.channel = Channel::HttpFallback;
                    self.has_client = false;
                    LinkAction::Reconnect { delay_secs: 30, probe_http: fallback_enabled }
                } else {
                    LinkAction::Reconnect { delay_secs: 2, probe_http: false }
                }
            },
            LinkEvent::Probe => {
                if self.channel == Channel::HttpFallback {
                    LinkAction::Reconnect { delay_secs: 0, probe_http: false }
                } else {
                    LinkAction::Continue
                }
            },
            LinkEvent::Cancelled => {
                self.channel = Channel::Disconnected;
                self.has_client = false;
                LinkAction::Stop
            },
        }
    }
}

/// Where `publish` sends a reading.
#[derive(Debug, Clone, Copy, PartialEq, Eq, Structural)]
pub enum PublishRoute {
    /// Publish on MQTT with the current client.
    Mqtt,
    /// No MQTT client: drop the reading and ask for a reconnect probe.
    MqttUnavailable,
    /// Post over HTTP to the fallback endpoint.
    Http,
    /// No channel: drop the reading.
    Drop,
}

/// The route of a reading in state `s`.
pub open spec fn route_of(s: LinkState) -> PublishRoute {
    match s.channel {
        Channel::Mqtt => if s.has_client { PublishRoute::Mqtt } else { PublishRoute::MqttUnavailable },
        Channel::HttpFallback => PublishRoute::Http,
        Channel::Disconnected => PublishRoute::Drop,
    }
}

/// Chooses the channel for one reading.
pub fn publish_route(s: &LinkState) -> (r: PublishRoute)
    ensures
        r == route_of(*s),
{
    match s.channel {
        Channel::Mqtt => if s.has_client {
            PublishRoute::Mqtt
        } else {
            PublishRoute::MqttUnavailable
        },
        Channel::HttpFallback => PublishRoute::Http,
        Channel::Disconnected => PublishRoute::Drop,
    }
}

/// Raw payloads (telemetry, status, alarms) go out only on a live MQTT
/// channel.
pub fn raw_publish_allowed(s: &LinkState) -> (r: bool)
    ensures
        r == (s.channel == Channel::Mqtt && s.has_client),
{
    s.channel == Channel::Mqtt && s.has_client
}

/// The name of a channel as the collector reports it.
pub open spec fn channel_name(c: Channel) -> Seq<char> {
    match c {
        Channel::Mqtt => "MQTT"@,
        Channel::HttpFallback => "HTTP-fallback"@,
        Channel::Disconnected => "Disconnected"@,
    }
}

/// The name of the active channel.
pub fn active_channel(c: Channel) -> (r: &'static str)
    ensures
        r@ == channel_name(c),
{
    match c {
        Channel::Mqtt => "MQTT",
        Channel::HttpFallback => "HTTP-fallback",
        Channel::Disconnected => "Disconnected",
    }
}

/// The HTTP URL for a fallback endpoint: `ws://` becomes `http://`, `wss://`
/// becomes `https://`, any other URL is used as it is.
pub open spec fn fallback_http_url_of(u: Seq<char>) -> Seq<char> {
    if occurs_at(u, 0, "ws://"@) {
        "http://"@ + u.subrange(5, u.len() as int)
    } else if occurs_at(u, 0, "wss://"@) {
        "https://"@ + u.subrange(6, u.len() as int)
    } else {
        u
    }
}

/// A `ws://` endpoint posts over `http://` and a `wss://` endpoint over
/// `https://`, to the same place; any other URL is used as it is.
pub proof fn law_fallback_scheme(rest: Seq<char>, other: Seq<char>)
    ensures
        fallback_http_url_of("ws://"@ + rest) == "http://"@ + rest,
        fallback_http_url_of("wss://"@ + rest) == "https://"@ + rest,
        !occurs_at(other, 0, "ws://"@) && !occurs_at(other, 0, "wss://"@) ==> fallback_http_url_of(other) == other,
{
    reveal_strlit("ws://");
    reveal_strlit("wss://");
    let a = "ws://"@ + rest;
    let b = "wss://"@ + rest;
    assert(a.subrange(0, 5) =~= "ws://"@);
    assert(a.subrange(5, a.len() as int) =~= rest);
    assert(b.subrange(6, b.len() as int) =~= rest);
    assert(b.subrange(0, 6) =~= "wss://"@);
    assert(!occurs_at(b, 0, "ws://"@)) by {
        if occurs_at(b, 0, "ws://"@) {
            assert(b.subrange(0, 5)[2] == b[2]);
        }
    }
}

/// The HTTP URL to post fallback readings to.
pub fn fallback_http_url(ws_url: &str) -> (r: String)
    ensures
        r@ == fallback_http_url_of(ws_url@),
{
    proof {
        reveal_strlit("ws://");
        reveal_strlit("wss://");
    }
    let n = ws_url.unicode_len();
    if starts_with(ws_url, "ws://") {
        String::from_str("http://").concat(ws_url.substring_char(5, n))
    } else if starts_with(ws_url, "wss://") {
        String::from_str("https://").concat(ws_url.substring_char(6, n))
    } else {
        String::from_str(ws_url)
    }
}

/// The topic of the collector's own status: `{prefix}/{client_id}/status`.
pub fn status_topic(prefix: &str, client_id: &str) -> (r: String)
    ensures
        r@ == prefix@ + "/"@ + client_id@ + "/status"@,
{
    String::from_str(prefix).concat("/").concat(client_id).concat("/status")
}


/// The state after each event of `events` in turn, starting from `s`.
pub open spec fn link_run(s: LinkState, events: Seq<LinkEvent>, fallback_enabled: bool) -> LinkState
    decreases events.len(),
{
    if events.len() == 0 {
        s
    } else {
        link_run(link_step(s, events[0], fallback_enabled).0, events.drop_first(), fallback_enabled)
    }
}

/// Three failed polls without a ConnAck between them move the uploads from
/// MQTT to the HTTP fallback, with the reconnect attempt that the event loop
/// makes after each failure: the first two failures wait 2 s and leave the
/// channel as it was; the third switches the channel to the fallback, drops
/// the client and waits 30 s before reconnecting (probing the fallback
/// endpoint where it is enabled); the reconnect after it keeps the fallback.
pub proof fn law_three_poll_errors_fall_back(s: LinkState, fallback_enabled: bool)
    requires
        s.fail_count == 0,
    ensures
        ({
            let (s1, a1) = link_step(s, LinkEvent::PollError, fallback_enabled);
            let (c1, _) = link_step(s1, LinkEvent::Connecting, fallback_enabled);
            let (s2, a2) = link_step(c1, LinkEvent::PollError, fallback_enabled);
            let (c2, _) = link_step(s2, LinkEvent::Connecting, fallback_enabled);
            let (s3, a3) = link_step(c2, LinkEvent::PollError, fallback_enabled);
            let (c3, _) = link_step(s3, LinkEvent::Connecting, fallback_enabled);
            &&& s1.channel == s.channel && c1.channel == s.channel
            &&& s2.channel == s.channel && c2.channel == s.channel
            &&& a1 == LinkAction::Reconnect { delay_secs: 2, probe_http: false }
            &&& a2 == LinkAction::Reconnect { delay_secs: 2, probe_http: false }
            &&& s3.channel == Channel::HttpFallback
            &&& !s3.has_client
            &&& a3 == LinkAction::Reconnect { delay_secs: 30, probe_http: fallback_enabled }
            &&& c3.channel == Channel::HttpFallback
            &&& link_run(s, seq![
                LinkEvent::PollError, LinkEvent::Connecting,
                LinkEvent::PollError, LinkEvent::Connecting,
                LinkEvent::PollError, LinkEvent::Connecting,
            ], fallback_enabled) == c3
        }),
{
    let e = seq![
        LinkEvent::PollError, LinkEvent::Connecting,
        LinkEvent::PollError, LinkEvent::Connecting,
        LinkEvent::PollError, LinkEvent::Connecting,
    ];
    assert(e.drop_first() =~= seq![LinkEvent::Connecting, LinkEvent::PollError, LinkEvent::Connecting, LinkEvent::PollError, LinkEvent::Connecting]);
    assert(e.drop_first().drop_first() =~= seq![LinkEvent::PollError, LinkEvent::Connecting, LinkEvent::PollError, LinkEvent::Connecting]);
    assert(e.drop_first().drop_first().drop_first() =~= seq![LinkEvent::Connecting, LinkEvent::PollError, LinkEvent::Connecting]);
    assert(e.drop_first().drop_first().drop_first().drop_first() =~= seq![LinkEvent::PollError, LinkEvent::Connecting]);
    assert(e.drop_first().drop_first().drop_first().drop_first().drop_first() =~= seq![LinkEvent::Connecting]);
    assert(e.drop_first().drop_first().drop_first().drop_first().drop_first().drop_first() =~= Seq::<LinkEvent>::empty());
    reveal_with_fuel(link_run, 7);
}

/// However many failed polls and reconnect attempts come, the fallback, once
/// entered, is left only on a ConnAck (or when the loop is cancelled): a
/// reconnect attempt, a failed poll, another broker event or a probe keep it.
pub proof fn law_fallback_until_connack(s: LinkState, event: LinkEvent, fallback_enabled: bool)
    requires
        s.channel == Channel::HttpFallback,
        event == LinkEvent::PollError ==> s.fail_count < u32::MAX,
        event != LinkEvent::ConnAck,
        event != LinkEvent::Cancelled,
    ensures
        link_step(s, event, fallback_enabled).0.channel == Channel::HttpFallback,
{
}

/// The channel becomes the HTTP fallback only through a failed poll that
/// brings the failure count to the limit.
pub proof fn law_fallback_only_at_limit(s: LinkState, event: LinkEvent, fallback_enabled: bool)
    requires
        event == LinkEvent::PollError ==> s.fail_count < u32::MAX,
        s.channel != Channel::HttpFallback,
        link_step(s, event, fallback_enabled).0.channel == Channel::HttpFallback,
    ensures
        event == LinkEvent::PollError,
        s.fail_count + 1 >= MAX_MQTT_RETRIES,
{
}

/// Uploads go (back) to MQTT only on the broker's acknowledgement, which also
/// clears the failure count and, where a client exists, publishes the
/// collector's `online` status; a reconnect attempt only creates a client and
/// keeps the channel and the count; cancelling leaves no channel and stops
/// the event loop.
pub proof fn law_connack_and_cancel(s: LinkState, event: LinkEvent, fallback_enabled: bool)
    requires
        event == LinkEvent::PollError ==> s.fail_count < u32::MAX,
    ensures
        s.channel != Channel::Mqtt && link_step(s, event, fallback_enabled).0.channel == Channel::Mqtt
            ==> event == LinkEvent::ConnAck,
        link_step(s, LinkEvent::Connecting, fallback_enabled).0
            == (LinkState { has_client: true, ..s }),
        link_step(s, LinkEvent::ConnAck, fallback_enabled).0.channel == Channel::Mqtt,
        link_step(s, LinkEvent::ConnAck, fallback_enabled).0.fail_count == 0,
        link_step(s, LinkEvent::ConnAck, fallback_enabled).1
            == (if s.has_client { LinkAction::PublishOnline } else { LinkAction::Continue }),
        link_step(s, LinkEvent::Cancelled, fallback_enabled).0.channel == Channel::Disconnected,
        link_step(s, LinkEvent::Cancelled, fallback_enabled).1 == LinkAction::Stop,
{
}

/// Readings go over HTTP exactly when the channel is the fallback, and over
/// MQTT only with a live client; raw payloads go out only where readings go
/// over MQTT.
pub proof fn law_route_follows_channel(s: LinkState)
    ensures
        (route_of(s) == PublishRoute::Http) == (s.channel == Channel::HttpFallback),
        (route_of(s) == PublishRoute::Mqtt) == (s.channel == Channel::Mqtt && s.has_client),
        (route_of(s) == PublishRoute::Drop) == (s.channel == Channel::Disconnected),
{
}


/// An HTTP status in the success class (200 to 299).
pub open spec fn success_status(code: u16) -> bool {
    200 <= code && code <= 299
}

/// A probe of the fallback endpoint finds it reachable on a success status
/// or 405 (the endpoint exists but refuses HEAD).
pub fn probe_reachable(status: u16) -> (r: bool)
    ensures
        r == (success_status(status) || status == 405),
{
    (200 <= status && status <= 299) || status == 405
}

/// A reading posted to the fallback endpoint was accepted: the endpoint
/// stays marked connected only on a success status.
pub fn post_accepted(status: u16) -> (r: bool)
    ensures
        r == success_status(status),
{
    200 <= status && status <= 299
}

/// The MQTT topic of a device's live readings: `{prefix}/{device_id}/reading`.
pub fn reading_topic(prefix: &str, device_id: i64) -> (r: String)
    ensures
        r@ == prefix@ + "/"@ + signed_decimal_chars(device_id as int) + "/reading"@,
{
    String::from_str(prefix).concat("/").concat(signed_decimal_text(device_id).as_str()).concat("/reading")
}

/// What a collector publishes under its own id.
#[derive(Debug, Clone, Copy, PartialEq, Eq, Structural)]
pub enum CollectorTopic {
    /// Device online/offline changes.
    Status,
    /// Aggregated windows.
    Reading,
    /// Alarm events.
    Alarm,
    /// Heartbeats.
    Heartbeat,
}

/// The last segment of a collector topic.
pub open spec fn topic_suffix(kind: CollectorTopic) -> Seq<char> {
    match kind {
        CollectorTopic::Status => "status"@,
        CollectorTopic::Reading => "reading"@,
        CollectorTopic::Alarm => "alarm"@,
        CollectorTopic::Heartbeat => "heartbeat"@,
    }
}

/// The topic `neuron/{client_id}/{kind}` the collector publishes on.
pub fn collector_topic(client_id: &str, kind: CollectorTopic) -> (r: String)
    ensures
        r@ == "neuron/"@ + client_id@ + "/"@ + topic_suffix(kind),
{
    let suffix = match kind {
        CollectorTopic::Status => "status",
        CollectorTopic::Reading => "reading",
        CollectorTopic::Alarm => "alarm",
        CollectorTopic::Heartbeat => "heartbeat",
    };
    String::from_str("neuron/").concat(client_id).concat("/").concat(suffix)
}


/// The topic configuration changes for a collector arrive on:
/// `{prefix}/{client_id}/config/delta`.
pub fn config_delta_topic(prefix: &str, client_id: &str) -> (r: String)
    ensures
        r@ == prefix@ + "/"@ + client_id@ + "/config/delta"@,
{
    String::from_str(prefix).concat("/").concat(client_id).concat("/config/delta")
}

/// The client id of the configuration listener: `{client_id}-config-sync`.
pub fn config_sync_client_id(client_id: &str) -> (r: String)
    ensures
        r@ == client_id@ + "-config-sync"@,
{
    String::from_str(client_id).concat("-config-sync")
}

} // verus!
