//! Connection configuration: reading a VPN connection from NetworkManager's
//! settings, and the OpenVPN command line that drives it.
use vstd::prelude::*;

use crate::keyed::StrMap;
use crate::text::{
    decimal, decimal_string, eq_ignore_ascii_case, eq_ignore_ascii_case_str, owned, parse_u16,
    parse_u16_str, split, split_once, split_once_str, split_str, str_eq, trim, trim_quotes,
    trim_quotes_str, trim_str,
};

verus! {

broadcast use vstd::string::group_string_axioms;

// ---------------------------------------------------------------------------
// Settings as NetworkManager hands them over
// ---------------------------------------------------------------------------

/// One value of a NetworkManager setting, as the logic reads it.
#[derive(Clone, Debug)]
pub struct NmValue {
    /// The value's display text (`Value::to_string`): a string shows
    /// quoted, a dictionary in its own notation.
    pub text: String,
    /// For a dictionary, its entries in order, with each key and value
    /// given where it is a string; empty for any other value.
    pub dict_entries: Vec<(Option<String>, Option<String>)>,
}

/// A value as seen by the contracts.
pub struct NmValueView {
    pub text: Seq<char>,
    pub dict_entries: Seq<(Option<Seq<char>>, Option<Seq<char>>)>,
}

impl DeepView for NmValue {
    type V = NmValueView;

    open spec fn deep_view(&self) -> NmValueView {
        NmValueView { text: self.text@, dict_entries: self.dict_entries.deep_view() }
    }
}

impl NmValue {
    /// A string value; `text` is its display text.
    pub fn from_text(text: String) -> (r: Self)
        ensures
            r.deep_view().text == text@,
            r.deep_view().dict_entries.len() == 0,
    {
        NmValue { text, dict_entries: Vec::new() }
    }
}

/// One settings section (`a{sv}`): keys to values.
pub type NmSection = StrMap<NmValue>;

/// All settings of a connection (`a{sa{sv}}`): section names to sections.
pub type NmSettings = StrMap<StrMap<NmValue>>;

/// Why a connection's settings were refused.
#[derive(Clone, Debug)]
pub enum ConfigError {
    /// The settings have no `connection` section.
    MissingConnectionSection,
    /// A required key is absent.
    MissingKey(String),
    /// A required key holds no text.
    EmptyValue(String),
    /// The settings have no `vpn` section.
    MissingVpnSection,
    /// Neither an OpenVPN config file nor a CA certificate is given.
    MissingOpenVpnConfig,
}

/// An error as seen by the contracts.
pub enum ConfigErrorView {
    MissingConnectionSection,
    MissingKey(Seq<char>),
    EmptyValue(Seq<char>),
    MissingVpnSection,
    MissingOpenVpnConfig,
}

impl View for ConfigError {
    type V = ConfigErrorView;

    open spec fn view(&self) -> ConfigErrorView {
        match self {
            ConfigError::MissingConnectionSection => ConfigErrorView::MissingConnectionSection,
            ConfigError::MissingKey(k) => ConfigErrorView::MissingKey(k@),
            ConfigError::EmptyValue(k) => ConfigErrorView::EmptyValue(k@),
            ConfigError::MissingVpnSection => ConfigErrorView::MissingVpnSection,
            ConfigError::MissingOpenVpnConfig => ConfigErrorView::MissingOpenVpnConfig,
        }
    }
}

/// The message that describes an error.
pub open spec fn error_message(e: ConfigErrorView) -> Seq<char> {
    match e {
        ConfigErrorView::MissingConnectionSection => "Missing 'connection' settings section"@,
        ConfigErrorView::MissingKey(k) => "Missing key: "@ + k,
        ConfigErrorView::EmptyValue(k) => "Key "@ + k + " is not a string or is empty"@,
        ConfigErrorView::MissingVpnSection => "Missing 'vpn' settings section"@,
        ConfigErrorView::MissingOpenVpnConfig => "Missing OpenVPN config: need either vpn.data.config path or vpn.data.ca certificate"@,
    }
}

impl ConfigError {
    /// The message that describes the error.
    pub fn message(&self) -> (r: String)
        ensures
            r@ == error_message(self@),
    {
        match self {
            ConfigError::MissingConnectionSection => owned("Missing 'connection' settings section"),
            ConfigError::MissingKey(k) => {
                let mut m = owned("Missing key: ");
                m.append(k.as_str());
                m
            },
            ConfigError::EmptyValue(k) => {
                let mut m = owned("Key ");
                m.append(k.as_str());
                m.append(" is not a string or is empty");
                m
            },
            ConfigError::MissingVpnSection => owned("Missing 'vpn' settings section"),
            ConfigError::MissingOpenVpnConfig => owned(
                "Missing OpenVPN config: need either vpn.data.config path or vpn.data.ca certificate",
            ),
        }
    }
}

// ---------------------------------------------------------------------------
// Reading single settings
// ---------------------------------------------------------------------------

/// The text held under `key`: the value's display text without its
/// surrounding quotes, refused when absent or empty.
pub open spec fn string_value(section: Map<Seq<char>, NmValueView>, key: Seq<char>) -> Result<
    Seq<char>,
    ConfigErrorView,
> {
    if !section.contains_key(key) {
        Err(ConfigErrorView::MissingKey(key))
    } else if trim_quotes(section[key].text).len() > 0 {
        Ok(trim_quotes(section[key].text))
    } else {
        Err(ConfigErrorView::EmptyValue(key))
    }
}

/// The string-to-string entries of a dictionary, a later entry overriding
/// an earlier one with the same key.
pub open spec fn entries_map(e: Seq<(Option<Seq<char>>, Option<Seq<char>>)>) -> Map<
    Seq<char>,
    Seq<char>,
>
    decreases e.len(),
{
    if e.len() == 0 {
        Map::empty()
    } else {
        let m = entries_map(e.drop_last());
        match e.last() {
            (Some(k), Some(v)) => m.insert(k, v),
            _ => m,
        }
    }
}

/// The pairs that a `key = value` piece adds: both sides trimmed of white
/// space and then of quotes, and kept only when neither is empty.
pub open spec fn pieces_map(pieces: Seq<Seq<char>>) -> Map<Seq<char>, Seq<char>>
    decreases pieces.len(),
{
    if pieces.len() == 0 {
        Map::empty()
    } else {
        let m = pieces_map(pieces.drop_last());
        match split_once(pieces.last(), " = "@) {
            Some((k, v)) => {
                let k2 = trim_quotes(trim(k));
                let v2 = trim_quotes(trim(v));
                if k2.len() > 0 && v2.len() > 0 {
                    m.insert(k2, v2)
                } else {
                    m
                }
            },
            None => m,
        }
    }
}

/// A dictionary read from its display text `key = value, key2 = value2`.
pub open spec fn text_map(text: Seq<char>) -> Map<Seq<char>, Seq<char>> {
    pieces_map(split(text, ", "@))
}

/// The string dictionary a value holds: its string entries, else what its
/// display text spells; none when both are empty.
pub open spec fn value_dict(v: NmValueView) -> Option<Map<Seq<char>, Seq<char>>> {
    let m = entries_map(v.dict_entries);
    let m2 = if m == Map::<Seq<char>, Seq<char>>::empty() {
        text_map(v.text)
    } else {
        m
    };
    if m2 == Map::<Seq<char>, Seq<char>>::empty() {
        None
    } else {
        Some(m2)
    }
}

/// The string dictionary held under `key`.
pub open spec fn string_dict(section: Map<Seq<char>, NmValueView>, key: Seq<char>) -> Option<
    Map<Seq<char>, Seq<char>>,
> {
    if section.contains_key(key) {
        value_dict(section[key])
    } else {
        None
    }
}

/// Reads a required text setting.
pub fn get_string(dict: &NmSection, key: &str) -> (r: Result<String, ConfigError>)
    ensures
        match r {
            Ok(s) => string_value(dict@, key@) == Ok::<Seq<char>, ConfigErrorView>(s@),
            Err(e) => string_value(dict@, key@) == Err::<Seq<char>, ConfigErrorView>(e@),
        },
{
    match dict.get(key) {
        None => Err(ConfigError::MissingKey(owned(key))),
        Some(v) => {
            let trimmed = trim_quotes_str(v.text.as_str());
            if trimmed.as_str().is_empty() {
                Err(ConfigError::EmptyValue(owned(key)))
            } else {
                Ok(trimmed)
            }
        },
    }
}

/// The string entries of a dictionary value, in a map.
fn dict_entries_map(entries: &Vec<(Option<String>, Option<String>)>) -> (r: StrMap<String>)
    ensures
        r@ == entries_map(entries.deep_view()),
{
    let ghost all = entries.deep_view();
    let mut m: StrMap<String> = StrMap::new();
    let mut i: usize = 0;
    while i < entries.len()
        invariant
            i <= entries@.len(),
            all == entries.deep_view(),
            m@ == entries_map(all.take(i as int)),
        decreases entries@.len() - i,
    {
        assert(all.take(i + 1).drop_last() =~= all.take(i as int));
        assert(all.take(i + 1).last() == all[i as int]);
        match &entries[i] {
            (Some(k), Some(v)) => {
                m.insert(k.clone(), v.clone());
            },
            _ => {},
        }
        i = i + 1;
    }
    assert(all.take(i as int) =~= all);
    m
}

/// Adds to `m` the pairs that the `key = value` pieces of `text` spell.
fn text_pairs_map(text: &str, m: &mut StrMap<String>)
    requires
        old(m)@ == Map::<Seq<char>, Seq<char>>::empty(),
    ensures
        final(m)@ == text_map(text@),
{
    proof {
        reveal_strlit(", ");
    }
    let pieces = split_str(text, ", ");
    let ghost all = pieces.deep_view();
    let mut i: usize = 0;
    while i < pieces.len()
        invariant
            i <= pieces@.len(),
            all == pieces.deep_view(),
            all == split(text@, ", "@),
            m@ == pieces_map(all.take(i as int)),
        decreases pieces@.len() - i,
    {
        assert(all.take(i + 1).drop_last() =~= all.take(i as int));
        assert(all.take(i + 1).last() == all[i as int]);
        if let Some((k, v)) = split_once_str(pieces[i].as_str(), " = ") {
            let k1 = trim_str(k.as_str());
            let k2 = trim_quotes_str(k1.as_str());
            let v1 = trim_str(v.as_str());
            let v2 = trim_quotes_str(v1.as_str());
            if !k2.as_str().is_empty() && !v2.as_str().is_empty() {
                m.insert(k2, v2);
            }
        }
        i = i + 1;
    }
    assert(all.take(i as int) =~= all);
}

/// Reads a dictionary setting of strings.
pub fn get_string_dict(dict: &NmSection, key: &str) -> (r: Option<StrMap<String>>)
    ensures
        match r {
            Some(m) => string_dict(dict@, key@) == Some(m@),
            None => string_dict(dict@, key@) is None,
        },
{
    match dict.get(key) {
        None => None,
        Some(v) => {
            let mut result = dict_entries_map(&v.dict_entries);
            if result.is_empty() {
                text_pairs_map(v.text.as_str(), &mut result);
            }
            if result.is_empty() {
                None
            } else {
                Some(result)
            }
        },
    }
}

// ---------------------------------------------------------------------------
// The connection configuration
// ---------------------------------------------------------------------------

/// VPN connection settings extracted from NetworkManager.
#[derive(Clone, Debug)]
pub struct ConnectionConfig {
    /// Unique connection identifier (used for keyring storage)
    pub uuid: String,
    /// Human-readable connection name
    pub id: String,
    /// Path to the .ovpn configuration file (None for NM-imported connections)
    pub config_path: Option<String>,
    /// Optional server override
    pub remote: Option<String>,
    /// Optional port override
    pub port: Option<u16>,
    /// Optional protocol override (udp/tcp)
    pub protocol: Option<String>,
    /// Username for initial auth (placeholder for SSO)
    pub username: Option<String>,
    /// Password for initial auth (placeholder for SSO)
    pub password: Option<String>,
    /// Additional OpenVPN arguments
    pub extra_args: Vec<String>,
    /// CA certificate path (from vpn.data "ca")
    pub ca: Option<String>,
    /// Client certificate path (from vpn.data "cert")
    pub cert: Option<String>,
    /// Client key path (from vpn.data "key")
    pub key: Option<String>,
    /// TLS auth key path (from vpn.data "ta")
    pub ta: Option<String>,
    /// TLS auth key direction (from vpn.data "ta-dir")
    pub ta_dir: Option<String>,
    /// Cipher algorithm (from vpn.data "cipher")
    pub cipher: Option<String>,
    /// Auth/digest algorithm (from vpn.data "auth")
    pub auth: Option<String>,
    /// Tunnel device type (from vpn.data "dev")
    pub dev: Option<String>,
    /// Remote cert TLS check (from vpn.data "remote-cert-tls")
    pub remote_cert_tls: Option<String>,
    /// Connection type: tls, password, etc. (from vpn.data "connection-type")
    pub connection_type: Option<String>,
    /// Whether this server requires a real username/password login before
    /// the SSO/OAuth challenge (from vpn.data "requires-password", default false)
    pub requires_password: bool,
}

/// A configuration as seen by the contracts.
pub struct ConfigView {
    pub uuid: Seq<char>,
    pub id: Seq<char>,
    pub config_path: Option<Seq<char>>,
    pub remote: Option<Seq<char>>,
    pub port: Option<u16>,
    pub protocol: Option<Seq<char>>,
    pub username: Option<Seq<char>>,
    pub password: Option<Seq<char>>,
    pub extra_args: Seq<Seq<char>>,
    pub ca: Option<Seq<char>>,
    pub cert: Option<Seq<char>>,
    pub key: Option<Seq<char>>,
    pub ta: Option<Seq<char>>,
    pub ta_dir: Option<Seq<char>>,
    pub cipher: Option<Seq<char>>,
    pub auth: Option<Seq<char>>,
    pub dev: Option<Seq<char>>,
    pub remote_cert_tls: Option<Seq<char>>,
    pub connection_type: Option<Seq<char>>,
    pub requires_password: bool,
}

impl View for ConnectionConfig {
    type V = ConfigView;

    open spec fn view(&self) -> ConfigView {
        ConfigView {
            uuid: self.uuid@,
            id: self.id@,
            config_path: self.config_path.deep_view(),
            remote: self.remote.deep_view(),
            port: self.port,
            protocol: self.protocol.deep_view(),
            username: self.username.deep_view(),
            password: self.password.deep_view(),
            extra_args: self.extra_args.deep_view(),
            ca: self.ca.deep_view(),
            cert: self.cert.deep_view(),
            key: self.key.deep_view(),
            ta: self.ta.deep_view(),
            ta_dir: self.ta_dir.deep_view(),
            cipher: self.cipher.deep_view(),
            auth: self.auth.deep_view(),
            dev: self.dev.deep_view(),
            remote_cert_tls: self.remote_cert_tls.deep_view(),
            connection_type: self.connection_type.deep_view(),
            requires_password: self.requires_password,
        }
    }
}

/// The value under `k`, if any.
pub open spec fn lookup(m: Map<Seq<char>, Seq<char>>, k: Seq<char>) -> Option<Seq<char>> {
    if m.contains_key(k) {
        Some(m[k])
    } else {
        None
    }
}

/// A dictionary, or the empty one.
pub open spec fn dict_or_empty(d: Option<Map<Seq<char>, Seq<char>>>) -> Map<Seq<char>, Seq<char>> {
    match d {
        Some(m) => m,
        None => Map::empty(),
    }
}

/// Whether `requires-password` reads as true: `true` in any ASCII case,
/// or `1`.
pub open spec fn truthy(v: Seq<char>) -> bool {
    eq_ignore_ascii_case(v, "true"@) || v == "1"@
}

/// The user name: the top-level `vpn.user-name` property, else the
/// `user-name` secret, else the `username` secret, else the `username`
/// data item.
pub open spec fn username_of(
    vpn: Map<Seq<char>, NmValueView>,
    data: Map<Seq<char>, Seq<char>>,
    secrets: Map<Seq<char>, Seq<char>>,
) -> Option<Seq<char>> {
    match string_value(vpn, "user-name"@) {
        Ok(u) => Some(u),
        Err(_) => if secrets.contains_key("user-name"@) {
            Some(secrets["user-name"@])
        } else if secrets.contains_key("username"@) {
            Some(secrets["username"@])
        } else {
            lookup(data, "username"@)
        },
    }
}

/// The configuration that NetworkManager's settings describe, or why they
/// are refused.
pub open spec fn config_from_settings(s: Map<Seq<char>, Map<Seq<char>, NmValueView>>) -> Result<
    ConfigView,
    ConfigErrorView,
> {
    if !s.contains_key("connection"@) {
        Err(ConfigErrorView::MissingConnectionSection)
    } else {
        let conn = s["connection"@];
        match string_value(conn, "uuid"@) {
            Err(e) => Err(e),
            Ok(uuid) => {
                let id = match string_value(conn, "id"@) {
                    Ok(v) => v,
                    Err(_) => "OpenVPN SSO"@,
                };
                if !s.contains_key("vpn"@) {
                    Err(ConfigErrorView::MissingVpnSection)
                } else {
                    let vpn = s["vpn"@];
                    let data = dict_or_empty(string_dict(vpn, "data"@));
                    let config_path = lookup(data, "config"@);
                    let ca = lookup(data, "ca"@);
                    if config_path is None && ca is None {
                        Err(ConfigErrorView::MissingOpenVpnConfig)
                    } else {
                        let secrets = dict_or_empty(string_dict(vpn, "secrets"@));
                        Ok(
                            ConfigView {
                                uuid,
                                id,
                                config_path,
                                remote: lookup(data, "remote"@),
                                port: match lookup(data, "port"@) {
                                    Some(p) => parse_u16(p),
                                    None => None,
                                },
                                protocol: lookup(data, "proto"@),
                                username: username_of(vpn, data, secrets),
                                password: lookup(secrets, "password"@),
                                extra_args: Seq::empty(),
                                ca,
                                cert: lookup(data, "cert"@),
                                key: lookup(data, "key"@),
                                ta: lookup(data, "ta"@),
                                ta_dir: lookup(data, "ta-dir"@),
                                cipher: lookup(data, "cipher"@),
                                auth: lookup(data, "auth"@),
                                dev: lookup(data, "dev"@),
                                remote_cert_tls: lookup(data, "remote-cert-tls"@),
                                connection_type: lookup(data, "connection-type"@),
                                requires_password: match lookup(data, "requires-password"@) {
                                    Some(v) => truthy(v),
                                    None => false,
                                },
                            },
                        )
                    }
                }
            },
        }
    }
}

/// The value under `key`, cloned.
fn lookup_exec(m: &StrMap<String>, key: &str) -> (r: Option<String>)
    ensures
        r.deep_view() == lookup(m@, key@),
{
    match m.get(key) {
        Some(v) => Some(v.clone()),
        None => None,
    }
}

/// The user name, by the priority `username_of` states.
fn find_username(vpn: &NmSection, data: &StrMap<String>, secrets: &StrMap<String>) -> (r: Option<
    String,
>)
    ensures
        r.deep_view() == username_of(vpn@, data@, secrets@),
{
    match get_string(vpn, "user-name") {
        Ok(u) => Some(u),
        Err(_) => match lookup_exec(secrets, "user-name") {
            Some(u) => Some(u),
            None => match lookup_exec(secrets, "username") {
                Some(u) => Some(u),
                None => lookup_exec(data, "username"),
            },
        },
    }
}

impl ConnectionConfig {
    /// Parse connection settings from NetworkManager D-Bus format
    /// The format is a{sa{sv}} - dict of setting-name -> dict of key -> variant
    pub fn from_nm_settings(settings: &NmSettings) -> (r: Result<Self, ConfigError>)
        ensures
            match r {
                Ok(c) => config_from_settings(settings@) == Ok::<ConfigView, ConfigErrorView>(
                    c@,
                ),
                Err(e) => config_from_settings(settings@) == Err::<ConfigView, ConfigErrorView>(
                    e@,
                ),
            },
    {
        let connection = match settings.get("connection") {
            Some(c) => c,
            None => {
                return Err(ConfigError::MissingConnectionSection);
            },
        };
        let uuid = match get_string(connection, "uuid") {
            Ok(u) => u,
            Err(e) => {
                return Err(e);
            },
        };
        let id = match get_string(connection, "id") {
            Ok(v) => v,
            Err(_) => owned("OpenVPN SSO"),
        };
        let vpn = match settings.get("vpn") {
            Some(v) => v,
            None => {
                return Err(ConfigError::MissingVpnSection);
            },
        };
        let vpn_data = match get_string_dict(vpn, "data") {
            Some(d) => d,
            None => StrMap::new(),
        };
        let config_path = lookup_exec(&vpn_data, "config");
        let ca = lookup_exec(&vpn_data, "ca");
        let cert = lookup_exec(&vpn_data, "cert");
        let key = lookup_exec(&vpn_data, "key");
        let ta = lookup_exec(&vpn_data, "ta");
        let ta_dir = lookup_exec(&vpn_data, "ta-dir");
        let cipher = lookup_exec(&vpn_data, "cipher");
        let auth = lookup_exec(&vpn_data, "auth");
        let dev = lookup_exec(&vpn_data, "dev");
        let remote_cert_tls = lookup_exec(&vpn_data, "remote-cert-tls");
        let connection_type = lookup_exec(&vpn_data, "connection-type");
        let requires_password = match vpn_data.get("requires-password") {
            Some(v) => eq_ignore_ascii_case_str(v.as_str(), "true") || str_eq(v.as_str(), "1"),
            None => false,
        };
        if config_path.is_none() && ca.is_none() {
            return Err(ConfigError::MissingOpenVpnConfig);
        }
        let remote = lookup_exec(&vpn_data, "remote");
        let port = match vpn_data.get("port") {
            Some(p) => parse_u16_str(p.as_str()),
            None => None,
        };
        let protocol = lookup_exec(&vpn_data, "proto");
        let vpn_secrets = match get_string_dict(vpn, "secrets") {
            Some(d) => d,
            None => StrMap::new(),
        };
        let password = lookup_exec(&vpn_secrets, "password");
        let username = find_username(vpn, &vpn_data, &vpn_secrets);
        let c = ConnectionConfig {
            uuid,
            id,
            config_path,
            remote,
            port,
            protocol,
            username,
            password,
            extra_args: Vec::new(),
            ca,
            cert,
            key,
            ta,
            ta_dir,
            cipher,
            auth,
            dev,
            remote_cert_tls,
            connection_type,
            requires_password,
        };
        assert(c@.extra_args =~= Seq::<Seq<char>>::empty());
        Ok(c)
    }
}

// ---------------------------------------------------------------------------
// Secrets and the OpenVPN command line
// ---------------------------------------------------------------------------

/// Whether NetworkManager still has to ask for a password: the server
/// wants one and none, or an empty one, is at hand.
pub open spec fn needs_password(c: ConfigView) -> bool {
    c.requires_password && match c.password {
        Some(p) => p.len() == 0,
        None => true,
    }
}

/// `flag value` when the value is given, nothing otherwise.
pub open spec fn opt_pair(flag: Seq<char>, v: Option<Seq<char>>) -> Seq<Seq<char>> {
    match v {
        Some(x) => seq![flag, x],
        None => seq![],
    }
}

/// `--tls-auth key [direction]` when a TLS auth key is given.
pub open spec fn tls_auth_args(ta: Option<Seq<char>>, ta_dir: Option<Seq<char>>) -> Seq<
    Seq<char>,
> {
    match ta {
        Some(t) => seq!["--tls-auth"@, t] + match ta_dir {
            Some(d) => seq![d],
            None => seq![],
        },
        None => seq![],
    }
}

/// The fixed options of an NM-imported connection, one without a config
/// file: no `--persist-tun`, and always `--auth-user-pass`.
pub open spec fn imported_fixed_args(dev: Option<Seq<char>>) -> Seq<Seq<char>> {
    seq![
        "--client"@,
        "--nobind"@,
        "--dev"@,
        match dev {
            Some(d) => d,
            None => "tun"@,
        },
        "--persist-key"@,
        "--resolv-retry"@,
        "infinite"@,
        "--auth-user-pass"@,
    ]
}

/// The options of an NM-imported connection that its individual settings
/// give.
pub open spec fn imported_setting_args(c: ConfigView) -> Seq<Seq<char>> {
    opt_pair("--ca"@, c.ca) + opt_pair("--cert"@, c.cert) + opt_pair("--key"@, c.key)
        + tls_auth_args(c.ta, c.ta_dir) + opt_pair("--cipher"@, c.cipher) + opt_pair(
        "--auth"@,
        c.auth,
    ) + opt_pair("--remote-cert-tls"@, c.remote_cert_tls)
}

/// The options that an NM-imported connection is built from.
pub open spec fn imported_args(c: ConfigView) -> Seq<Seq<char>> {
    imported_fixed_args(c.dev) + imported_setting_args(c)
}

/// Where OpenVPN takes its configuration from: the config file, or the
/// individual settings.
pub open spec fn source_args(c: ConfigView) -> Seq<Seq<char>> {
    match c.config_path {
        Some(p) => seq!["--config"@, p],
        None => imported_args(c),
    }
}

/// The management interface, and the single-sign-on capability announced
/// to the server.
pub open spec fn management_args(socket: Seq<char>) -> Seq<Seq<char>> {
    seq![
        "--management"@,
        socket,
        "unix"@,
        "--management-query-passwords"@,
        "--management-hold"@,
        "--script-security"@,
        "2"@,
        "--setenv"@,
        "IV_SSO"@,
        "webauth"@,
        "--push-peer-info"@,
    ]
}

/// `--remote host [port [proto]]` for the `:`-separated parts of one
/// remote entry; nothing for more than three parts.
pub open spec fn remote_entry_args(parts: Seq<Seq<char>>) -> Seq<Seq<char>> {
    if parts.len() == 3 {
        seq!["--remote"@, parts[0], parts[1], parts[2]]
    } else if parts.len() == 2 {
        seq!["--remote"@, parts[0], parts[1]]
    } else if parts.len() == 1 {
        seq!["--remote"@, parts[0]]
    } else {
        seq![]
    }
}

/// The `--remote` options for comma-separated remote entries, each trimmed
/// and split at `:`.
pub open spec fn remote_entries_args(entries: Seq<Seq<char>>) -> Seq<Seq<char>>
    decreases entries.len(),
{
    if entries.len() == 0 {
        seq![]
    } else {
        remote_entries_args(entries.drop_last()) + remote_entry_args(
            split(trim(entries.last()), ":"@),
        )
    }
}

/// The `--remote` options of a remote override.
pub open spec fn remote_args(remote: Option<Seq<char>>) -> Seq<Seq<char>> {
    match remote {
        Some(r) => remote_entries_args(split(r, ","@)),
        None => seq![],
    }
}

/// The `--port` option of a port override.
pub open spec fn port_args(port: Option<u16>) -> Seq<Seq<char>> {
    match port {
        Some(p) => seq!["--port"@, decimal(p as nat)],
        None => seq![],
    }
}

/// The OpenVPN command line for a connection.
pub open spec fn openvpn_args(c: ConfigView, socket: Seq<char>) -> Seq<Seq<char>> {
    source_args(c) + management_args(socket) + remote_args(c.remote) + port_args(c.port)
        + opt_pair("--proto"@, c.protocol) + c.extra_args
}

/// Appends `s` to `args`.
fn push_str(args: &mut Vec<String>, s: &str)
    ensures
        final(args).deep_view() == old(args).deep_view().push(s@),
{
    args.push(owned(s));
    assert(args.deep_view() =~= old(args).deep_view().push(s@));
}

/// Appends `flag value` when the value is given.
fn push_opt_pair(args: &mut Vec<String>, flag: &str, v: &Option<String>)
    ensures
        final(args).deep_view() == old(args).deep_view() + opt_pair(flag@, v.deep_view()),
{
    match v {
        Some(x) => {
            push_str(args, flag);
            push_str(args, x.as_str());
            assert(args.deep_view() =~= old(args).deep_view() + opt_pair(flag@, v.deep_view()));
        },
        None => {
            assert(args.deep_view() =~= old(args).deep_view() + opt_pair(flag@, v.deep_view()));
        },
    }
}

/// Appends the `--remote` options of one remote entry.
fn push_remote_entry(args: &mut Vec<String>, entry: &str)
    ensures
        final(args).deep_view() == old(args).deep_view() + remote_entry_args(
            split(trim(entry@), ":"@),
        ),
{
    proof {
        reveal_strlit(":");
    }
    let trimmed = trim_str(entry);
    let parts = split_str(trimmed.as_str(), ":");
    let ghost p = parts.deep_view();
    if parts.len() == 3 {
        push_str(args, "--remote");
        push_str(args, parts[0].as_str());
        push_str(args, parts[1].as_str());
        push_str(args, parts[2].as_str());
    } else if parts.len() == 2 {
        push_str(args, "--remote");
        push_str(args, parts[0].as_str());
        push_str(args, parts[1].as_str());
    } else if parts.len() == 1 {
        push_str(args, "--remote");
        push_str(args, parts[0].as_str());
    }
    assert(args.deep_view() =~= old(args).deep_view() + remote_entry_args(p));
}

/// Appends the `--remote` options of a remote override.
fn push_remote_args(args: &mut Vec<String>, remote: &str)
    ensures
        final(args).deep_view() == old(args).deep_view() + remote_args(Some(remote@)),
{
    proof {
        reveal_strlit(",");
    }
    let entries = split_str(remote, ",");
    let ghost all = entries.deep_view();
    let ghost start = args.deep_view();
    let mut i: usize = 0;
    while i < entries.len()
        invariant
            i <= entries@.len(),
            all == entries.deep_view(),
            all == split(remote@, ","@),
            args.deep_view() == start + remote_entries_args(all.take(i as int)),
        decreases entries@.len() - i,
    {
        assert(all.take(i + 1).drop_last() =~= all.take(i as int));
        assert(all.take(i + 1).last() == all[i as int]);
        push_remote_entry(args, entries[i].as_str());
        assert(args.deep_view() =~= start + remote_entries_args(all.take(i + 1)));
        i = i + 1;
    }
    assert(all.take(i as int) =~= all);
}

impl ConnectionConfig {
    /// Whether NetworkManager still needs to fetch a real password (and username)
    /// from the user/secret-agent before Connect can proceed. Always false when
    /// `requires_password` is false — a strict superset of the pure-SSO behavior.
    pub fn needs_password_secrets(&self) -> (r: bool)
        ensures
            r == needs_password(self@),
            r == (self.requires_password && (self.password is None || self.password->Some_0@.len()
                == 0)),
            !self.requires_password ==> !r,
    {
        self.requires_password && match &self.password {
            Some(p) => p.as_str().is_empty(),
            None => true,
        }
    }

    /// Build OpenVPN command line arguments
    pub fn build_openvpn_args(&self, management_socket: &str) -> (r: Vec<String>)
        ensures
            r.deep_view() == openvpn_args(self@, management_socket@),
    {
        let mut args: Vec<String> = Vec::new();
        push_source_args(&mut args, self);
        // Common: management interface
        push_management_args(&mut args, management_socket);
        // Common: apply overrides
        match &self.remote {
            Some(remote) => push_remote_args(&mut args, remote.as_str()),
            None => {},
        }
        push_port_args(&mut args, self.port);
        push_opt_pair(&mut args, "--proto", &self.protocol);
        push_all(&mut args, &self.extra_args);
        assert(args.deep_view() =~= openvpn_args(self@, management_socket@));
        args
    }
}

/// Appends where OpenVPN takes its configuration from.
fn push_source_args(args: &mut Vec<String>, c: &ConnectionConfig)
    ensures
        final(args).deep_view() == old(args).deep_view() + source_args(c@),
{
    match &c.config_path {
        Some(config_path) => {
            // .ovpn file mode: use --config
            push_str(args, "--config");
            push_str(args, config_path.as_str());
            assert(args.deep_view() =~= old(args).deep_view() + source_args(c@));
        },
        None => {
            // NM-imported mode: build from individual settings
            push_imported_fixed_args(args, &c.dev);
            push_imported_setting_args(args, c);
            assert(args.deep_view() =~= old(args).deep_view() + source_args(c@));
        },
    }
}

/// Appends the fixed options of an NM-imported connection.
fn push_imported_fixed_args(args: &mut Vec<String>, dev: &Option<String>)
    ensures
        final(args).deep_view() == old(args).deep_view() + imported_fixed_args(dev.deep_view()),
{
    push_str(args, "--client");
    push_str(args, "--nobind");
    push_str(args, "--dev");
    match dev {
        Some(d) => push_str(args, d.as_str()),
        None => push_str(args, "tun"),
    }
    push_str(args, "--persist-key");
    // Deliberately NOT --persist-tun: it keeps the tun device alive across
    // openvpn's own restarts, and nothing here would remove the device once
    // openvpn exits, leaving a dangling interface behind.
    push_str(args, "--resolv-retry");
    push_str(args, "infinite");
    // Every connection expects a username/password prompt over the
    // management interface; without this, and with no client certificate,
    // OpenVPN refuses to start.
    push_str(args, "--auth-user-pass");
    assert(args.deep_view() =~= old(args).deep_view() + imported_fixed_args(dev.deep_view()));
}

/// Appends `--tls-auth key [direction]` when a TLS auth key is given.
fn push_tls_auth_args(args: &mut Vec<String>, ta: &Option<String>, ta_dir: &Option<String>)
    ensures
        final(args).deep_view() == old(args).deep_view() + tls_auth_args(
            ta.deep_view(),
            ta_dir.deep_view(),
        ),
{
    match ta {
        Some(t) => {
            push_str(args, "--tls-auth");
            push_str(args, t.as_str());
            match ta_dir {
                Some(dir) => push_str(args, dir.as_str()),
                None => {},
            }
        },
        None => {},
    }
    assert(args.deep_view() =~= old(args).deep_view() + tls_auth_args(
        ta.deep_view(),
        ta_dir.deep_view(),
    ));
}

/// Appends the options that the individual settings of an NM-imported
/// connection give.
fn push_imported_setting_args(args: &mut Vec<String>, c: &ConnectionConfig)
    ensures
        final(args).deep_view() == old(args).deep_view() + imported_setting_args(c@),
{
    let ghost s0 = args.deep_view();
    push_opt_pair(args, "--ca", &c.ca);
    push_opt_pair(args, "--cert", &c.cert);
    push_opt_pair(args, "--key", &c.key);
    let ghost s1 = args.deep_view();
    push_tls_auth_args(args, &c.ta, &c.ta_dir);
    let ghost s2 = args.deep_view();
    push_opt_pair(args, "--cipher", &c.cipher);
    push_opt_pair(args, "--auth", &c.auth);
    push_opt_pair(args, "--remote-cert-tls", &c.remote_cert_tls);
    let ghost s3 = args.deep_view();
    let ghost a = opt_pair("--ca"@, c.ca.deep_view());
    let ghost b = opt_pair("--cert"@, c.cert.deep_view());
    let ghost k = opt_pair("--key"@, c.key.deep_view());
    let ghost t = tls_auth_args(c.ta.deep_view(), c.ta_dir.deep_view());
    let ghost ci = opt_pair("--cipher"@, c.cipher.deep_view());
    let ghost au = opt_pair("--auth"@, c.auth.deep_view());
    let ghost rc = opt_pair("--remote-cert-tls"@, c.remote_cert_tls.deep_view());
    assert(s1 =~= s0 + (a + b + k));
    assert(s3 =~= s2 + (ci + au + rc));
    assert(imported_setting_args(c@) == a + b + k + t + ci + au + rc);
    assert(s3 =~= s0 + (a + b + k + t + ci + au + rc));
}

/// Appends the management interface options.
fn push_management_args(args: &mut Vec<String>, management_socket: &str)
    ensures
        final(args).deep_view() == old(args).deep_view() + management_args(management_socket@),
{
    push_str(args, "--management");
    push_str(args, management_socket);
    push_str(args, "unix");
    push_str(args, "--management-query-passwords");
    push_str(args, "--management-hold");
    push_str(args, "--script-security");
    push_str(args, "2");
    // Required for server-side SSO plugins: --push-peer-info alone does not
    // advertise SSO capability; IV_SSO must be set explicitly.
    push_str(args, "--setenv");
    push_str(args, "IV_SSO");
    push_str(args, "webauth");
    push_str(args, "--push-peer-info");
    assert(args.deep_view() =~= old(args).deep_view() + management_args(management_socket@));
}

/// Appends the `--port` option of a port override.
fn push_port_args(args: &mut Vec<String>, port: Option<u16>)
    ensures
        final(args).deep_view() == old(args).deep_view() + port_args(port),
{
    match port {
        Some(p) => {
            push_str(args, "--port");
            let text = decimal_string(p);
            push_str(args, text.as_str());
        },
        None => {},
    }
    assert(args.deep_view() =~= old(args).deep_view() + port_args(port));
}

/// Appends every string of `extra`.
fn push_all(args: &mut Vec<String>, extra: &Vec<String>)
    ensures
        final(args).deep_view() == old(args).deep_view() + extra.deep_view(),
{
    let ghost start = args.deep_view();
    let ghost all = extra.deep_view();
    let mut i: usize = 0;
    while i < extra.len()
        invariant
            i <= extra@.len(),
            all == extra.deep_view(),
            args.deep_view() == start + all.take(i as int),
        decreases extra@.len() - i,
    {
        push_str(args, extra[i].as_str());
        assert(all.take(i + 1) =~= all.take(i as int).push(all[i as int]));
        assert(args.deep_view() =~= start + all.take(i + 1));
        i = i + 1;
    }
    assert(all.take(i as int) =~= all);
}

// ---------------------------------------------------------------------------
// Laws of the OpenVPN command line
// ---------------------------------------------------------------------------

/// Settings are accepted only with a config file or a CA certificate.
pub proof fn lemma_accepted_settings_have_a_source(s: Map<Seq<char>, Map<Seq<char>, NmValueView>>)
    requires
        config_from_settings(s) is Ok,
    ensures
        config_from_settings(s)->Ok_0.config_path is Some || config_from_settings(s)->Ok_0.ca is Some,
{
}

/// The command line begins with the options that say where OpenVPN takes
/// its configuration from.
pub proof fn lemma_args_begin_with_source(c: ConfigView, socket: Seq<char>, i: int)
    requires
        0 <= i < source_args(c).len(),
    ensures
        openvpn_args(c, socket)[i] == source_args(c)[i],
{
    let x1 = source_args(c) + management_args(socket);
    let x2 = x1 + remote_args(c.remote);
    let x3 = x2 + port_args(c.port);
    let x4 = x3 + opt_pair("--proto"@, c.protocol);
    assert(x1[i] == source_args(c)[i]);
    assert(x2[i] == x1[i]);
    assert(x3[i] == x2[i]);
    assert(x4[i] == x3[i]);
    assert((x4 + c.extra_args)[i] == x4[i]);
}

/// With a CA certificate, the settings of an imported connection begin
/// with `--ca` and the certificate.
proof fn lemma_imported_settings_begin_with_ca(c: ConfigView)
    requires
        c.ca is Some,
    ensures
        imported_setting_args(c)[0] == "--ca"@,
        imported_setting_args(c)[1] == c.ca->Some_0,
{
    let y1 = opt_pair("--ca"@, c.ca) + opt_pair("--cert"@, c.cert);
    let y2 = y1 + opt_pair("--key"@, c.key);
    let y3 = y2 + tls_auth_args(c.ta, c.ta_dir);
    let y4 = y3 + opt_pair("--cipher"@, c.cipher);
    let y5 = y4 + opt_pair("--auth"@, c.auth);
    let y6 = y5 + opt_pair("--remote-cert-tls"@, c.remote_cert_tls);
    assert(y6 == imported_setting_args(c));
    assert forall|i: int| 0 <= i < 2 implies #[trigger] y6[i] == opt_pair("--ca"@, c.ca)[i] by {
        assert(y1[i] == opt_pair("--ca"@, c.ca)[i]);
        assert(y2[i] == y1[i]);
        assert(y3[i] == y2[i]);
        assert(y4[i] == y3[i]);
        assert(y5[i] == y4[i]);
        assert(y6[i] == y5[i]);
    }
}

/// A command line names where OpenVPN takes its configuration from:
/// `--config` and the file when a config file is given, else `--ca` and
/// the CA certificate, when one is given.
pub proof fn lemma_command_line_names_the_source(c: ConfigView, socket: Seq<char>)
    ensures
        ({
            let a = openvpn_args(c, socket);
            match c.config_path {
                Some(p) => a[0] == "--config"@ && a[1] == p,
                None => c.ca is Some ==> a[8] == "--ca"@ && a[9] == c.ca->Some_0,
            }
        }),
{
    if c.config_path is Some {
        lemma_args_begin_with_source(c, socket, 0);
        lemma_args_begin_with_source(c, socket, 1);
    } else if c.ca is Some {
        lemma_imported_settings_begin_with_ca(c);
        let f = imported_fixed_args(c.dev);
        let g = imported_setting_args(c);
        assert(source_args(c) == f + g);
        assert((f + g)[8] == g[0]);
        assert((f + g)[9] == g[1]);
        lemma_args_begin_with_source(c, socket, 8);
        lemma_args_begin_with_source(c, socket, 9);
    }
}

/// A connection that the settings describe always names where OpenVPN
/// takes its configuration from: `--config` and the file, or `--ca` and
/// the CA certificate.
pub proof fn lemma_accepted_settings_name_a_source(
    s: Map<Seq<char>, Map<Seq<char>, NmValueView>>,
    socket: Seq<char>,
)
    requires
        config_from_settings(s) is Ok,
    ensures
        ({
            let c = config_from_settings(s)->Ok_0;
            let a = openvpn_args(c, socket);
            ||| c.config_path is Some && a[0] == "--config"@ && a[1] == c.config_path->Some_0
            ||| c.ca is Some && a[8] == "--ca"@ && a[9] == c.ca->Some_0
        }),
{
    lemma_accepted_settings_have_a_source(s);
    lemma_command_line_names_the_source(config_from_settings(s)->Ok_0, socket);
}

/// A connection without a config file always asks for a username and
/// password (`--auth-user-pass`), whatever its settings.
pub proof fn lemma_imported_mode_asks_for_credentials(c: ConfigView, socket: Seq<char>)
    requires
        c.config_path is None,
    ensures
        openvpn_args(c, socket)[7] == "--auth-user-pass"@,
        openvpn_args(c, socket).contains("--auth-user-pass"@),
{
    let a = openvpn_args(c, socket);
    let f = imported_fixed_args(c.dev);
    assert(source_args(c) == f + imported_setting_args(c));
    assert((f + imported_setting_args(c))[7] == f[7]);
    lemma_args_begin_with_source(c, socket, 7);
    assert(a[7] == "--auth-user-pass"@);
}

/// Every command line announces single sign-on: `--setenv IV_SSO webauth`
/// followed by `--push-peer-info`.
pub proof fn lemma_always_announces_sso(c: ConfigView, socket: Seq<char>)
    ensures
        ({
            let a = openvpn_args(c, socket);
            let i: int = source_args(c).len() as int + 7;
            &&& a[i] == "--setenv"@
            &&& a[i + 1] == "IV_SSO"@
            &&& a[i + 2] == "webauth"@
            &&& a[i + 3] == "--push-peer-info"@
            &&& a.contains("--push-peer-info"@)
        }),
{
    let a = openvpn_args(c, socket);
    let rest = remote_args(c.remote) + port_args(c.port) + opt_pair("--proto"@, c.protocol)
        + c.extra_args;
    assert(a =~= source_args(c) + management_args(socket) + rest);
    let i: int = source_args(c).len() as int + 7;
    assert(a[i + 3] == "--push-peer-info"@);
}

/// `x` is a `:`-separated part of one of the comma-separated entries of
/// the remote override.
pub open spec fn remote_part(remote: Option<Seq<char>>, x: Seq<char>) -> bool {
    match remote {
        Some(r) => exists|e: Seq<char>|
            #![trigger split(trim(e), ":"@).contains(x)]
            split(r, ","@).contains(e) && split(trim(e), ":"@).contains(x),
        None => false,
    }
}

/// `x` is a value that the connection or the caller supplies, as opposed
/// to an option that the library adds on its own.
pub open spec fn supplied_value(c: ConfigView, socket: Seq<char>, x: Seq<char>) -> bool {
    ||| x == socket
    ||| c.config_path == Some(x)
    ||| c.dev == Some(x)
    ||| c.ca == Some(x)
    ||| c.cert == Some(x)
    ||| c.key == Some(x)
    ||| c.ta == Some(x)
    ||| c.ta_dir == Some(x)
    ||| c.cipher == Some(x)
    ||| c.auth == Some(x)
    ||| c.remote_cert_tls == Some(x)
    ||| c.protocol == Some(x)
    ||| c.extra_args.contains(x)
    ||| remote_part(c.remote, x)
    ||| (c.port matches Some(p) && x == decimal(p as nat))
}

/// None of the options that the library adds is `--persist-tun`.
proof fn lemma_own_options_are_not_persist_tun()
    ensures
        "--config"@ != "--persist-tun"@,
        "--client"@ != "--persist-tun"@,
        "--nobind"@ != "--persist-tun"@,
        "--dev"@ != "--persist-tun"@,
        "tun"@ != "--persist-tun"@,
        "--persist-key"@ != "--persist-tun"@,
        "--resolv-retry"@ != "--persist-tun"@,
        "infinite"@ != "--persist-tun"@,
        "--auth-user-pass"@ != "--persist-tun"@,
        "--ca"@ != "--persist-tun"@,
        "--cert"@ != "--persist-tun"@,
        "--key"@ != "--persist-tun"@,
        "--tls-auth"@ != "--persist-tun"@,
        "--cipher"@ != "--persist-tun"@,
        "--auth"@ != "--persist-tun"@,
        "--remote-cert-tls"@ != "--persist-tun"@,
        "--management"@ != "--persist-tun"@,
        "unix"@ != "--persist-tun"@,
        "--management-query-passwords"@ != "--persist-tun"@,
        "--management-hold"@ != "--persist-tun"@,
        "--script-security"@ != "--persist-tun"@,
        "2"@ != "--persist-tun"@,
        "--setenv"@ != "--persist-tun"@,
        "IV_SSO"@ != "--persist-tun"@,
        "webauth"@ != "--persist-tun"@,
        "--push-peer-info"@ != "--persist-tun"@,
        "--remote"@ != "--persist-tun"@,
        "--port"@ != "--persist-tun"@,
        "--proto"@ != "--persist-tun"@,
{
    reveal_strlit("--persist-tun");
    reveal_strlit("--config");
    reveal_strlit("--client");
    reveal_strlit("--nobind");
    reveal_strlit("--dev");
    reveal_strlit("tun");
    reveal_strlit("--persist-key");
    reveal_strlit("--resolv-retry");
    reveal_strlit("infinite");
    reveal_strlit("--auth-user-pass");
    reveal_strlit("--ca");
    reveal_strlit("--cert");
    reveal_strlit("--key");
    reveal_strlit("--tls-auth");
    reveal_strlit("--cipher");
    reveal_strlit("--auth");
    reveal_strlit("--remote-cert-tls");
    reveal_strlit("--management");
    reveal_strlit("unix");
    reveal_strlit("--management-query-passwords");
    reveal_strlit("--management-hold");
    reveal_strlit("--script-security");
    reveal_strlit("2");
    reveal_strlit("--setenv");
    reveal_strlit("IV_SSO");
    reveal_strlit("webauth");
    reveal_strlit("--push-peer-info");
    reveal_strlit("--remote");
    reveal_strlit("--port");
    reveal_strlit("--proto");
    assert("--config"@.len() != "--persist-tun"@.len());
    assert("--client"@.len() != "--persist-tun"@.len());
    assert("--nobind"@.len() != "--persist-tun"@.len());
    assert("--dev"@.len() != "--persist-tun"@.len());
    assert("tun"@.len() != "--persist-tun"@.len());
    assert("--resolv-retry"@.len() != "--persist-tun"@.len());
    assert("infinite"@.len() != "--persist-tun"@.len());
    assert("--auth-user-pass"@.len() != "--persist-tun"@.len());
    assert("--ca"@.len() != "--persist-tun"@.len());
    assert("--cert"@.len() != "--persist-tun"@.len());
    assert("--key"@.len() != "--persist-tun"@.len());
    assert("--tls-auth"@.len() != "--persist-tun"@.len());
    assert("--cipher"@.len() != "--persist-tun"@.len());
    assert("--auth"@.len() != "--persist-tun"@.len());
    assert("--remote-cert-tls"@.len() != "--persist-tun"@.len());
    assert("--management"@.len() != "--persist-tun"@.len());
    assert("unix"@.len() != "--persist-tun"@.len());
    assert("--management-query-passwords"@.len() != "--persist-tun"@.len());
    assert("--management-hold"@.len() != "--persist-tun"@.len());
    assert("--script-security"@.len() != "--persist-tun"@.len());
    assert("2"@.len() != "--persist-tun"@.len());
    assert("--setenv"@.len() != "--persist-tun"@.len());
    assert("IV_SSO"@.len() != "--persist-tun"@.len());
    assert("webauth"@.len() != "--persist-tun"@.len());
    assert("--push-peer-info"@.len() != "--persist-tun"@.len());
    assert("--remote"@.len() != "--persist-tun"@.len());
    assert("--port"@.len() != "--persist-tun"@.len());
    assert("--proto"@.len() != "--persist-tun"@.len());
    assert("--persist-key"@[10] != "--persist-tun"@[10]);
}

/// Every element of the `--remote` options is the flag or a part of an
/// entry.
proof fn lemma_remote_entries_elements(entries: Seq<Seq<char>>, x: Seq<char>)
    requires
        remote_entries_args(entries).contains(x),
    ensures
        x == "--remote"@ || exists|e: Seq<char>|
            #![trigger split(trim(e), ":"@).contains(x)]
            entries.contains(e) && split(trim(e), ":"@).contains(x),
    decreases entries.len(),
{
    broadcast use vstd::seq_lib::group_seq_properties;

    if entries.len() > 0 {
        let last = entries.last();
        let parts = split(trim(last), ":"@);
        assert(remote_entries_args(entries) == remote_entries_args(entries.drop_last())
            + remote_entry_args(parts));
        if remote_entries_args(entries.drop_last()).contains(x) {
            lemma_remote_entries_elements(entries.drop_last(), x);
            if x != "--remote"@ {
                let e = choose|e: Seq<char>|
                    #![trigger split(trim(e), ":"@).contains(x)]
                    entries.drop_last().contains(e) && split(trim(e), ":"@).contains(x);
                let k = choose|k: int| 0 <= k < entries.drop_last().len() && entries.drop_last()[k] == e;
                assert(entries[k] == e);
            }
        } else {
            assert(remote_entry_args(parts).contains(x));
            let k = choose|k: int| 0 <= k < remote_entry_args(parts).len() && remote_entry_args(parts)[k] == x;
            if x != "--remote"@ {
                assert(parts[k - 1] == x);
                assert(parts.contains(x));
                assert(entries[entries.len() - 1] == last);
            }
        }
    }
}

/// The library never adds `--persist-tun` (it would keep the tun device
/// alive after OpenVPN exits): the option appears on the command line only
/// where a supplied value is that very text.
#[verifier::rlimit(40)]
pub proof fn lemma_never_adds_persist_tun(c: ConfigView, socket: Seq<char>)
    ensures
        openvpn_args(c, socket).contains("--persist-tun"@) ==> supplied_value(
            c,
            socket,
            "--persist-tun"@,
        ),
{
    broadcast use vstd::seq_lib::group_seq_properties;

    lemma_own_options_are_not_persist_tun();
    let x = "--persist-tun"@;
    if openvpn_args(c, socket).contains(x) {
        if source_args(c).contains(x) {
            if c.config_path is None {
                assert(source_args(c) == imported_fixed_args(c.dev) + imported_setting_args(c));
                if imported_fixed_args(c.dev).contains(x) {
                    let k = choose|k: int| 0 <= k < 8 && imported_fixed_args(c.dev)[k] == x;
                    assert(k == 3);
                } else {
                    assert(imported_setting_args(c).contains(x));
                    if tls_auth_args(c.ta, c.ta_dir).contains(x) {
                        let k = choose|k: int|
                            0 <= k < tls_auth_args(c.ta, c.ta_dir).len() && tls_auth_args(
                                c.ta,
                                c.ta_dir,
                            )[k] == x;
                    }
                }
            }
        } else if management_args(socket).contains(x) {
            let k = choose|k: int| 0 <= k < 11 && management_args(socket)[k] == x;
        } else if remote_args(c.remote).contains(x) {
            lemma_remote_entries_elements(split(c.remote->Some_0, ","@), x);
        } else if port_args(c.port).contains(x) {
            let k = choose|k: int| 0 <= k < port_args(c.port).len() && port_args(c.port)[k] == x;
        } else if opt_pair("--proto"@, c.protocol).contains(x) {
            let k = choose|k: int|
                0 <= k < opt_pair("--proto"@, c.protocol).len() && opt_pair(
                    "--proto"@,
                    c.protocol,
                )[k] == x;
        }
    }
}

} // verus!
