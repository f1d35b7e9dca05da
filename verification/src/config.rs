use vstd::prelude::*;
use crate::text::{decimal_chars, decimal_text};
use crate::uploader::{FallbackConfig, MqttUploadConfig};

verus! {

/// The collector's settings: the MQTT upload channel and the HTTP fallback.
#[derive(Debug, Clone)]
pub struct CollectorConfig {
    pub mqtt: MqttUploadConfig,
    pub fallback: FallbackConfig,
}

/// The settings of a collector as plain text and flags.
pub struct ConfigView {
    pub broker: Seq<char>,
    pub client_id: Seq<char>,
    pub username: Seq<char>,
    pub password: Seq<char>,
    pub topic_prefix: Seq<char>,
    pub ws_url: Seq<char>,
    pub enabled: bool,
}

impl View for CollectorConfig {
    type V = ConfigView;

    open spec fn view(&self) -> ConfigView {
        ConfigView {
            broker: self.mqtt.broker@,
            client_id: self.mqtt.client_id@,
            username: self.mqtt.username@,
            password: self.mqtt.password@,
            topic_prefix: self.mqtt.topic_prefix@,
            ws_url: self.fallback.ws_url@,
            enabled: self.fallback.enabled,
        }
    }
}

/// The settings used when no configuration file is read.
pub open spec fn default_config() -> ConfigView {
    ConfigView {
        broker: "tcp://127.0.0.1:1883"@,
        client_id: "aziot-collector-01"@,
        username: Seq::empty(),
        password: Seq::empty(),
        topic_prefix: "neuron"@,
        ws_url: "ws://127.0.0.1:8080/ws/collector"@,
        enabled: true,
    }
}

impl Default for CollectorConfig {
    fn default() -> (r: Self)
        ensures
            r@ == default_config(),
    {
        CollectorConfig {
            mqtt: MqttUploadConfig {
                broker: String::from_str("tcp://127.0.0.1:1883"),
                client_id: String::from_str("aziot-collector-01"),
                username: String::new(),
                password: String::new(),
                topic_prefix: String::from_str("neuron"),
            },
            fallback: FallbackConfig {
                ws_url: String::from_str("ws://127.0.0.1:8080/ws/collector"),
                enabled: true,
            },
        }
    }
}

/// What `url::Url::parse` makes of a text, read through `Url::host_str` and
/// `Url::port`: `None` where the text does not parse as a URL, else the host
/// text, if the URL has one, and the explicit port, if it has one that is not
/// the scheme's default.
pub uninterp spec fn url_host_port(text: Seq<char>) -> Option<(Option<Seq<char>>, Option<u16>)>;

/// Parses `text` with `url::Url::parse` and hands back `host_str` and `port`
/// of the result. The contract names the result; the URL grammar itself is
/// not stated.
#[verifier::external_body]
fn parse_host_port(text: &str) -> (r: Option<(Option<String>, Option<u16>)>)
    ensures
        r.deep_view() == url_host_port(text@),
{
    match url::Url::parse(text) {
        Ok(u) => Some((u.host_str().map(|h| h.to_string()), u.port())),
        Err(_) => None,
    }
}

/// The HTTP server URL for a parsed fallback endpoint: `http://host:port`,
/// host `127.0.0.1` and port 8080 where the URL gives none, and the empty
/// text where the endpoint did not parse.
pub open spec fn server_url_from(parsed: Option<(Option<Seq<char>>, Option<u16>)>) -> Seq<char> {
    match parsed {
        None => Seq::empty(),
        Some((host, port)) => {
            let h = match host {
                Some(x) => x,
                None => "127.0.0.1"@,
            };
            let p: u16 = match port {
                Some(v) => v,
                None => 8080,
            };
            "http://"@ + h + ":"@ + decimal_chars(p as nat)
        },
    }
}

/// The HTTP server URL of a collector whose fallback endpoint is `ws_url`:
/// empty where `ws_url` is.
pub open spec fn server_url_of(ws_url: Seq<char>) -> Seq<char> {
    if ws_url.len() == 0 {
        Seq::empty()
    } else {
        server_url_from(url_host_port(ws_url))
    }
}

/// Builds the HTTP server URL from the host and port that the fallback
/// endpoint parsed to.
pub fn http_server_url(parsed: Option<(Option<String>, Option<u16>)>) -> (r: String)
    ensures
        r@ == server_url_from(parsed.deep_view()),
{
    match parsed {
        None => String::new(),
        Some((host, port)) => {
            let h = match host {
                Some(x) => x,
                None => String::from_str("127.0.0.1"),
            };
            let p: u16 = match port {
                Some(v) => v,
                None => 8080,
            };
            let r = String::from_str("http://").concat(h.as_str()).concat(":").concat(
                decimal_text(p as u64).as_str(),
            );
            r
        },
    }
}

impl CollectorConfig {
    /// The HTTP server URL derived from the fallback endpoint.
    pub fn server_url(&self) -> (r: String)
        ensures
            r@ == server_url_of(self.fallback.ws_url@),
    {
        if self.fallback.ws_url.unicode_len() == 0 {
            return String::new();
        }
        let parsed = parse_host_port(self.fallback.ws_url.as_str());
        http_server_url(parsed)
    }
}


/// What a TOML document gives for `table.key` read as text, by
/// `toml::Value`'s `FromStr`, then `Value::get` twice and `Value::as_str`:
/// `None` where the document does not parse, `Some(None)` where the table or
/// the key is missing, `Some(Some(None))` where the value is not a string.
pub uninterp spec fn toml_text_at(doc: Seq<char>, table: Seq<char>, key: Seq<char>) -> Option<Option<Option<Seq<char>>>>;

/// As `toml_text_at`, with the value read by `Value::as_bool`.
pub uninterp spec fn toml_flag_at(doc: Seq<char>, table: Seq<char>, key: Seq<char>) -> Option<Option<Option<bool>>>;

/// Parses `doc` as a `toml::Value` and reads `table.key` as a string. The
/// contract names the result; the TOML grammar itself is not stated.
#[verifier::external_body]
fn toml_text_field(doc: &str, table: &str, key: &str) -> (r: Option<Option<Option<String>>>)
    ensures
        r.deep_view() == toml_text_at(doc@, table@, key@),
{
    let v: toml::Value = match doc.parse() {
        Ok(v) => v,
        Err(_) => return None,
    };
    let field = match v.get(table) {
        Some(t) => t.get(key),
        None => None,
    };
    match field {
        Some(x) => Some(Some(x.as_str().map(String::from))),
        None => Some(None),
    }
}

/// Parses `doc` as a `toml::Value` and reads `table.key` as a boolean. The
/// contract names the result; the TOML grammar itself is not stated.
#[verifier::external_body]
fn toml_flag_field(doc: &str, table: &str, key: &str) -> (r: Option<Option<Option<bool>>>)
    ensures
        r.deep_view() == toml_flag_at(doc@, table@, key@),
{
    let v: toml::Value = match doc.parse() {
        Ok(v) => v,
        Err(_) => return None,
    };
    let field = match v.get(table) {
        Some(t) => t.get(key),
        None => None,
    };
    match field {
        Some(x) => Some(Some(x.as_bool())),
        None => Some(None),
    }
}

/// A text setting that must be present, with `default` where it is not a string.
pub open spec fn text_setting(found: Option<Option<Option<Seq<char>>>>, default: Seq<char>) -> Option<Seq<char>> {
    match found {
        Some(Some(Some(s))) => Some(s),
        Some(Some(None)) => Some(default),
        _ => None,
    }
}

/// The settings a `config.toml` document gives: every one of `mqtt.broker`,
/// `mqtt.client_id`, `mqtt.username`, `mqtt.password`, `mqtt.topic_prefix`,
/// `fallback.ws_url` and `fallback.enabled` must be present and the broker a
/// string; a present value of another type takes the default.
pub open spec fn config_of_toml(doc: Seq<char>) -> Option<ConfigView> {
    let broker = toml_text_at(doc, "mqtt"@, "broker"@);
    let client_id = text_setting(toml_text_at(doc, "mqtt"@, "client_id"@), "aziot-collector-01"@);
    let username = text_setting(toml_text_at(doc, "mqtt"@, "username"@), Seq::empty());
    let password = text_setting(toml_text_at(doc, "mqtt"@, "password"@), Seq::empty());
    let topic_prefix = text_setting(toml_text_at(doc, "mqtt"@, "topic_prefix"@), "neuron"@);
    let ws_url = text_setting(toml_text_at(doc, "fallback"@, "ws_url"@), "ws://127.0.0.1:8080/ws/collector"@);
    let enabled = toml_flag_at(doc, "fallback"@, "enabled"@);
    if broker matches Some(Some(Some(b))) && client_id is Some && username is Some && password is Some
        && topic_prefix is Some && ws_url is Some && enabled matches Some(Some(e)) {
        Some(ConfigView {
            broker: broker->0->0->0,
            client_id: client_id->0,
            username: username->0,
            password: password->0,
            topic_prefix: topic_prefix->0,
            ws_url: ws_url->0,
            enabled: match enabled->0->0 {
                Some(x) => x,
                None => true,
            },
        })
    } else {
        None
    }
}

/// Reads a text setting of `doc` that must be present.
fn read_text_setting(doc: &str, table: &str, key: &str, default: &str) -> (r: Option<String>)
    ensures
        r.deep_view() == text_setting(toml_text_at(doc@, table@, key@), default@),
{
    match toml_text_field(doc, table, key) {
        Some(Some(Some(s))) => Some(s),
        Some(Some(None)) => Some(String::from_str(default)),
        _ => None,
    }
}

impl CollectorConfig {
    /// The settings of a `config.toml` document, `None` where it does not
    /// parse or lacks a setting.
    pub fn from_toml(doc: &str) -> (r: Option<CollectorConfig>)
        ensures
            match r {
                Some(c) => config_of_toml(doc@) == Some(c@),
                None => config_of_toml(doc@) is None,
            },
    {
        proof {
            reveal_strlit("");
        }
        let broker = match toml_text_field(doc, "mqtt", "broker") {
            Some(Some(Some(b))) => b,
            _ => return None,
        };
        let client_id = match read_text_setting(doc, "mqtt", "client_id", "aziot-collector-01") {
            Some(s) => s,
            None => return None,
        };
        let username = match read_text_setting(doc, "mqtt", "username", "") {
            Some(s) => s,
            None => return None,
        };
        let password = match read_text_setting(doc, "mqtt", "password", "") {
            Some(s) => s,
            None => return None,
        };
        let topic_prefix = match read_text_setting(doc, "mqtt", "topic_prefix", "neuron") {
            Some(s) => s,
            None => return None,
        };
        let ws_url = match read_text_setting(doc, "fallback", "ws_url", "ws://127.0.0.1:8080/ws/collector") {
            Some(s) => s,
            None => return None,
        };
        let enabled = match toml_flag_field(doc, "fallback", "enabled") {
            Some(Some(b)) => match b {
                Some(x) => x,
                None => true,
            },
            _ => return None,
        };
        let c = CollectorConfig {
            mqtt: MqttUploadConfig { broker, client_id, username, password, topic_prefix },
            fallback: FallbackConfig { ws_url, enabled },
        };
        assert(config_of_toml(doc@)->0.broker == c@.broker);
        assert(config_of_toml(doc@)->0.client_id == c@.client_id);
        assert(config_of_toml(doc@)->0.username == c@.username);
        assert(config_of_toml(doc@)->0.password == c@.password);
        assert(config_of_toml(doc@)->0.topic_prefix == c@.topic_prefix);
        assert(config_of_toml(doc@)->0.ws_url == c@.ws_url);
        assert(config_of_toml(doc@)->0.enabled == c@.enabled);
        Some(c)
    }
}


/// `s` without its trailing copies of `c` (`str::trim_end_matches` with a
/// character).
pub open spec fn trim_trailing(s: Seq<char>, c: char) -> Seq<char>
    decreases s.len(),
{
    if s.len() > 0 && s.last() == c {
        trim_trailing(s.drop_last(), c)
    } else {
        s
    }
}

/// The endpoint the collector announces itself to: `None` where no server
/// URL is configured, else the URL without trailing `/` followed by
/// `/api/v1/collectors/register`.
pub open spec fn register_endpoint_of(server_url: Seq<char>) -> Option<Seq<char>> {
    if server_url.len() == 0 {
        None
    } else {
        Some(trim_trailing(server_url, '/') + "/api/v1/collectors/register"@)
    }
}

/// The registration endpoint does not depend on trailing slashes: a server
/// URL not ending in `/` gets `/api/v1/collectors/register` appended, and
/// one more `/` at its end changes nothing.
pub proof fn law_register_endpoint_slashes(url: Seq<char>)
    requires
        url.len() > 0,
    ensures
        url.last() != '/' ==> register_endpoint_of(url) == Some(url + "/api/v1/collectors/register"@),
        register_endpoint_of(url.push('/')) == register_endpoint_of(url),
{
    assert(url.push('/').drop_last() =~= url);
}

/// The registration endpoint under a server URL.
pub fn register_endpoint(server_url: &str) -> (r: Option<String>)
    ensures
        r.deep_view() == register_endpoint_of(server_url@),
{
    let n = server_url.unicode_len();
    if n == 0 {
        return None;
    }
    let mut end: usize = n;
    assert(server_url@.subrange(0, n as int) =~= server_url@);
    while end > 0 && server_url.get_char(end - 1) == '/'
        invariant
            n == server_url@.len(),
            end <= n,
            trim_trailing(server_url@, '/') == trim_trailing(server_url@.subrange(0, end as int), '/'),
        decreases end,
    {
        assert(server_url@.subrange(0, end as int).drop_last() =~= server_url@.subrange(0, end - 1));
        end = end - 1;
    }
    Some(String::from_str(server_url.substring_char(0, end)).concat("/api/v1/collectors/register"))
}

} // verus!
