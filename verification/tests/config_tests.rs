use nm_openvpn_sso::config::{get_string, get_string_dict, ConfigError, ConnectionConfig, NmValue};
use nm_openvpn_sso::keyed::StrMap;

/// A string value, shown the way D-Bus values display a string.
fn str_value(s: &str) -> NmValue {
    NmValue::from_text(format!("{:?}", s))
}

/// A dictionary of strings, as D-Bus hands it over.
fn dict_value(pairs: &[(String, String)]) -> NmValue {
    let shown: Vec<String> = pairs
        .iter()
        .map(|(k, v)| format!("{:?}: {:?}", k, v))
        .collect();
    NmValue {
        text: format!("{{{}}}", shown.join(", ")),
        dict_entries: pairs
            .iter()
            .map(|(k, v)| (Some(k.clone()), Some(v.clone())))
            .collect(),
    }
}

fn settings_with_extra(
    vpn_data: &[(&str, &str)],
    vpn_secrets: &[(&str, &str)],
    vpn_extra: &[(&str, NmValue)],
) -> StrMap<StrMap<NmValue>> {
    let mut connection = StrMap::new();
    connection.insert("uuid".to_string(), str_value("test-uuid"));
    connection.insert("id".to_string(), str_value("Test VPN"));

    let mut data: Vec<(String, String)> = vpn_data
        .iter()
        .map(|(k, v)| (k.to_string(), v.to_string()))
        .collect();
    // Every fixture needs either a config path or a CA cert to pass validation.
    if !data.iter().any(|(k, _)| k == "ca") {
        data.push(("ca".to_string(), "/etc/test-ca.pem".to_string()));
    }

    let secrets: Vec<(String, String)> = vpn_secrets
        .iter()
        .map(|(k, v)| (k.to_string(), v.to_string()))
        .collect();

    let mut vpn = StrMap::new();
    vpn.insert("data".to_string(), dict_value(&data));
    if !secrets.is_empty() {
        vpn.insert("secrets".to_string(), dict_value(&secrets));
    }
    for (k, v) in vpn_extra {
        vpn.insert(k.to_string(), v.clone());
    }

    let mut settings = StrMap::new();
    settings.insert("connection".to_string(), connection);
    settings.insert("vpn".to_string(), vpn);
    settings
}

fn settings_with(vpn_data: &[(&str, &str)], vpn_secrets: &[(&str, &str)]) -> StrMap<StrMap<NmValue>> {
    settings_with_extra(vpn_data, vpn_secrets, &[])
}

#[test]
fn requires_password_defaults_to_false_when_absent() {
    let settings = settings_with(&[], &[]);
    let config = ConnectionConfig::from_nm_settings(&settings).unwrap();
    assert!(!config.requires_password);
}

#[test]
fn requires_password_parses_truthy_and_falsy_values() {
    for (raw, expected) in [
        ("true", true),
        ("TRUE", true),
        ("1", true),
        ("false", false),
        ("0", false),
        ("garbage", false),
    ] {
        let settings = settings_with(&[("requires-password", raw)], &[]);
        let config = ConnectionConfig::from_nm_settings(&settings).unwrap();
        assert_eq!(config.requires_password, expected, "input {:?}", raw);
    }
}

#[test]
fn username_falls_back_to_vpn_data_when_no_secret_present() {
    let settings = settings_with(&[("username", "static-user")], &[]);
    let config = ConnectionConfig::from_nm_settings(&settings).unwrap();
    assert_eq!(config.username, Some("static-user".to_string()));
}

#[test]
fn username_secret_overrides_vpn_data_username() {
    let settings = settings_with(
        &[("username", "static-user")],
        &[("username", "live-user"), ("password", "s3cret")],
    );
    let config = ConnectionConfig::from_nm_settings(&settings).unwrap();
    assert_eq!(config.username, Some("live-user".to_string()));
    assert_eq!(config.password, Some("s3cret".to_string()));
}

#[test]
fn top_level_vpn_user_name_takes_priority_over_secrets_and_data() {
    let settings = settings_with_extra(
        &[("username", "static-user")],
        &[("username", "secrets-user"), ("password", "s3cret")],
        &[("user-name", str_value("mark"))],
    );
    let config = ConnectionConfig::from_nm_settings(&settings).unwrap();
    assert_eq!(config.username, Some("mark".to_string()));
    assert_eq!(config.password, Some("s3cret".to_string()));
}

#[test]
fn falls_back_when_top_level_vpn_user_name_absent() {
    let settings = settings_with(&[("username", "static-user")], &[]);
    let config = ConnectionConfig::from_nm_settings(&settings).unwrap();
    assert_eq!(config.username, Some("static-user".to_string()));
}

#[test]
fn falls_back_to_hyphenated_user_name_secret_before_username_secret() {
    let settings = settings_with(
        &[("username", "static-user")],
        &[("user-name", "hyphen-user"), ("username", "no-hyphen-user")],
    );
    let config = ConnectionConfig::from_nm_settings(&settings).unwrap();
    assert_eq!(config.username, Some("hyphen-user".to_string()));
}

#[test]
fn username_is_none_when_neither_source_has_it() {
    let settings = settings_with(&[], &[]);
    let config = ConnectionConfig::from_nm_settings(&settings).unwrap();
    assert_eq!(config.username, None);
}

#[test]
fn needs_password_secrets_is_false_superset_when_not_required() {
    let settings = settings_with(&[], &[]);
    let mut config = ConnectionConfig::from_nm_settings(&settings).unwrap();
    assert!(!config.needs_password_secrets());

    config.password = Some("anything".to_string());
    assert!(!config.needs_password_secrets());
}

#[test]
fn needs_password_secrets_truth_table() {
    let settings = settings_with(&[("requires-password", "true")], &[]);
    let mut config = ConnectionConfig::from_nm_settings(&settings).unwrap();
    assert!(config.password.is_none());
    assert!(config.needs_password_secrets());

    config.password = Some(String::new());
    assert!(config.needs_password_secrets());

    config.password = Some("real-password".to_string());
    assert!(!config.needs_password_secrets());
}

fn base_config() -> ConnectionConfig {
    ConnectionConfig {
        uuid: "test-uuid".to_string(),
        id: "Test VPN".to_string(),
        config_path: Some("/etc/openvpn/test.ovpn".to_string()),
        remote: None,
        port: None,
        protocol: None,
        username: None,
        password: None,
        extra_args: Vec::new(),
        ca: None,
        cert: None,
        key: None,
        ta: None,
        ta_dir: None,
        cipher: None,
        auth: None,
        dev: None,
        remote_cert_tls: None,
        connection_type: None,
        requires_password: false,
    }
}

#[test]
fn build_openvpn_args_nm_imported_mode_includes_auth_user_pass() {
    let mut config = base_config();
    config.config_path = None;
    config.ca = Some("/etc/openvpn/ca.pem".to_string());
    let args = config.build_openvpn_args("/tmp/sock");
    assert!(
        args.iter().any(|a| a == "--auth-user-pass"),
        "NM-imported connections need --auth-user-pass or OpenVPN refuses to start \
         with no --cert/--key/--pkcs12 configured either"
    );
}

#[test]
fn build_openvpn_args_nm_imported_mode_omits_persist_tun() {
    let mut config = base_config();
    config.config_path = None;
    config.ca = Some("/etc/openvpn/ca.pem".to_string());
    let args = config.build_openvpn_args("/tmp/sock");
    assert!(
        !args.iter().any(|a| a == "--persist-tun"),
        "--persist-tun keeps the tun device alive after the openvpn process exits, \
         but this plugin has no way to clean it up afterward, leaving a dangling \
         interface on disconnect or a lost connection"
    );
}

#[test]
fn build_openvpn_args_includes_push_peer_info() {
    let args = base_config().build_openvpn_args("/tmp/sock");
    assert!(args.iter().any(|a| a == "--push-peer-info"));
}

#[test]
fn build_openvpn_args_advertises_iv_sso_webauth() {
    let args = base_config().build_openvpn_args("/tmp/sock");
    let idx = args
        .iter()
        .position(|a| a == "--setenv")
        .expect("--setenv IV_SSO webauth must be present");
    assert_eq!(&args[idx + 1..idx + 3], &["IV_SSO", "webauth"]);
}

#[test]
fn build_openvpn_args_splits_multi_remote_host_port_proto() {
    let mut config = base_config();
    config.remote = Some("vpn.example.com:1194:udp, vpn2.example.com:443:tcp".to_string());
    let args = config.build_openvpn_args("/tmp/sock");

    let remote_positions: Vec<usize> = args
        .iter()
        .enumerate()
        .filter(|(_, a)| *a == "--remote")
        .map(|(i, _)| i)
        .collect();
    assert_eq!(remote_positions.len(), 2);
    assert_eq!(
        &args[remote_positions[0] + 1..remote_positions[0] + 4],
        &["vpn.example.com", "1194", "udp"]
    );
    assert_eq!(
        &args[remote_positions[1] + 1..remote_positions[1] + 4],
        &["vpn2.example.com", "443", "tcp"]
    );
}

#[test]
fn build_openvpn_args_handles_host_port_only() {
    let mut config = base_config();
    config.remote = Some("vpn.example.com:1194".to_string());
    let args = config.build_openvpn_args("/tmp/sock");

    let idx = args.iter().position(|a| a == "--remote").unwrap();
    assert_eq!(&args[idx + 1..idx + 3], &["vpn.example.com", "1194"]);
}

#[test]
fn build_openvpn_args_handles_host_only() {
    let mut config = base_config();
    config.remote = Some("vpn.example.com".to_string());
    let args = config.build_openvpn_args("/tmp/sock");

    let idx = args.iter().position(|a| a == "--remote").unwrap();
    assert_eq!(&args[idx + 1], "vpn.example.com");
}

fn connection_only(uuid: Option<&str>) -> StrMap<NmValue> {
    let mut connection = StrMap::new();
    if let Some(u) = uuid {
        connection.insert("uuid".to_string(), str_value(u));
    }
    connection
}

#[test]
fn missing_connection_section_is_refused() {
    let settings: StrMap<StrMap<NmValue>> = StrMap::new();
    let err = ConnectionConfig::from_nm_settings(&settings).unwrap_err();
    assert!(matches!(err, ConfigError::MissingConnectionSection));
    assert_eq!(err.message(), "Missing 'connection' settings section");
}

#[test]
fn missing_uuid_is_refused_before_the_vpn_section_is_read() {
    let mut settings = StrMap::new();
    settings.insert("connection".to_string(), connection_only(None));
    let err = ConnectionConfig::from_nm_settings(&settings).unwrap_err();
    assert_eq!(err.message(), "Missing key: uuid");
}

#[test]
fn empty_uuid_is_refused() {
    let mut settings = StrMap::new();
    settings.insert("connection".to_string(), connection_only(Some("")));
    let err = ConnectionConfig::from_nm_settings(&settings).unwrap_err();
    assert!(matches!(err, ConfigError::EmptyValue(ref k) if k == "uuid"));
    assert_eq!(err.message(), "Key uuid is not a string or is empty");
}

#[test]
fn missing_vpn_section_is_refused() {
    let mut settings = StrMap::new();
    settings.insert("connection".to_string(), connection_only(Some("u-1")));
    let err = ConnectionConfig::from_nm_settings(&settings).unwrap_err();
    assert!(matches!(err, ConfigError::MissingVpnSection));
    assert_eq!(err.message(), "Missing 'vpn' settings section");
}

#[test]
fn neither_config_file_nor_ca_is_refused() {
    let mut settings = StrMap::new();
    settings.insert("connection".to_string(), connection_only(Some("u-1")));
    let mut vpn = StrMap::new();
    vpn.insert(
        "data".to_string(),
        dict_value(&[("cipher".to_string(), "AES-256-GCM".to_string())]),
    );
    settings.insert("vpn".to_string(), vpn);
    let err = ConnectionConfig::from_nm_settings(&settings).unwrap_err();
    assert!(matches!(err, ConfigError::MissingOpenVpnConfig));
    assert_eq!(
        err.message(),
        "Missing OpenVPN config: need either vpn.data.config path or vpn.data.ca certificate"
    );
}

#[test]
fn id_defaults_when_absent_and_fields_are_read() {
    let mut settings = StrMap::new();
    settings.insert("connection".to_string(), connection_only(Some("u-1")));
    let mut vpn = StrMap::new();
    vpn.insert(
        "data".to_string(),
        dict_value(&[
            ("config".to_string(), "/etc/openvpn/work.ovpn".to_string()),
            ("remote".to_string(), "vpn.example.com:1194".to_string()),
            ("port".to_string(), "443".to_string()),
            ("proto".to_string(), "tcp".to_string()),
            ("connection-type".to_string(), "password".to_string()),
        ]),
    );
    settings.insert("vpn".to_string(), vpn);
    let config = ConnectionConfig::from_nm_settings(&settings).unwrap();
    assert_eq!(config.uuid, "u-1");
    assert_eq!(config.id, "OpenVPN SSO");
    assert_eq!(config.config_path, Some("/etc/openvpn/work.ovpn".to_string()));
    assert_eq!(config.ca, None);
    assert_eq!(config.remote, Some("vpn.example.com:1194".to_string()));
    assert_eq!(config.port, Some(443));
    assert_eq!(config.protocol, Some("tcp".to_string()));
    assert_eq!(config.connection_type, Some("password".to_string()));
    assert!(config.extra_args.is_empty());
}

#[test]
fn unparsable_port_is_dropped() {
    let settings = settings_with(&[("port", "http")], &[]);
    let config = ConnectionConfig::from_nm_settings(&settings).unwrap();
    assert_eq!(config.port, None);
}

#[test]
fn data_dictionary_is_read_from_its_text_when_it_has_no_string_entries() {
    let mut settings = StrMap::new();
    settings.insert("connection".to_string(), connection_only(Some("u-1")));
    let mut vpn = StrMap::new();
    vpn.insert(
        "data".to_string(),
        NmValue {
            text: "\"ca\" = \"/etc/ca.pem\", dev = tap ,  = x, cipher = ".to_string(),
            dict_entries: vec![(Some("n".to_string()), None)],
        },
    );
    settings.insert("vpn".to_string(), vpn);
    let config = ConnectionConfig::from_nm_settings(&settings).unwrap();
    assert_eq!(config.ca, Some("/etc/ca.pem".to_string()));
    assert_eq!(config.dev, Some("tap".to_string()));
    assert_eq!(config.cipher, None);
}

#[test]
fn get_string_strips_quotes_and_reports_the_key() {
    let mut dict = StrMap::new();
    dict.insert("id".to_string(), str_value("My VPN"));
    dict.insert("blank".to_string(), str_value(""));
    assert_eq!(get_string(&dict, "id").unwrap(), "My VPN");
    assert!(matches!(get_string(&dict, "blank"), Err(ConfigError::EmptyValue(ref k)) if k == "blank"));
    assert!(matches!(get_string(&dict, "nope"), Err(ConfigError::MissingKey(ref k)) if k == "nope"));
}

#[test]
fn get_string_dict_prefers_string_entries_and_later_wins() {
    let mut dict = StrMap::new();
    dict.insert(
        "data".to_string(),
        NmValue {
            text: "ignored = yes".to_string(),
            dict_entries: vec![
                (Some("a".to_string()), Some("1".to_string())),
                (Some("b".to_string()), None),
                (Some("a".to_string()), Some("2".to_string())),
            ],
        },
    );
    dict.insert("empty".to_string(), NmValue::from_text("{}".to_string()));
    let m = get_string_dict(&dict, "data").unwrap();
    assert_eq!(m.get("a"), Some(&"2".to_string()));
    assert_eq!(m.get("b"), None);
    assert_eq!(m.get("ignored"), None);
    assert!(get_string_dict(&dict, "empty").is_none());
    assert!(get_string_dict(&dict, "missing").is_none());
}

#[test]
fn build_openvpn_args_imported_mode_exact_command_line() {
    let mut config = base_config();
    config.config_path = None;
    config.ca = Some("ca.pem".to_string());
    config.cert = Some("cert.pem".to_string());
    config.key = Some("key.pem".to_string());
    config.ta = Some("ta.key".to_string());
    config.ta_dir = Some("1".to_string());
    config.cipher = Some("AES-256-GCM".to_string());
    config.auth = Some("SHA256".to_string());
    config.dev = Some("tun0".to_string());
    config.remote_cert_tls = Some("server".to_string());
    config.port = Some(1194);
    config.protocol = Some("udp".to_string());
    config.extra_args = vec!["--verb".to_string(), "3".to_string()];
    let args = config.build_openvpn_args("/run/sock");
    let expected = vec![
        "--client", "--nobind", "--dev", "tun0", "--persist-key", "--resolv-retry", "infinite",
        "--auth-user-pass", "--ca", "ca.pem", "--cert", "cert.pem", "--key", "key.pem",
        "--tls-auth", "ta.key", "1", "--cipher", "AES-256-GCM", "--auth", "SHA256",
        "--remote-cert-tls", "server", "--management", "/run/sock", "unix",
        "--management-query-passwords", "--management-hold", "--script-security", "2",
        "--setenv", "IV_SSO", "webauth", "--push-peer-info", "--port", "1194", "--proto", "udp",
        "--verb", "3",
    ];
    assert_eq!(args, expected);
}

#[test]
fn build_openvpn_args_config_mode_starts_with_config_and_defaults_dev() {
    let args = base_config().build_openvpn_args("s");
    assert_eq!(&args[..2], &["--config", "/etc/openvpn/test.ovpn"]);
    let mut config = base_config();
    config.config_path = None;
    config.ca = Some("ca.pem".to_string());
    let args = config.build_openvpn_args("s");
    assert_eq!(&args[2..4], &["--dev", "tun"]);
    assert_eq!(&args[8..10], &["--ca", "ca.pem"]);
    assert_eq!(args[7], "--auth-user-pass");
}

#[test]
fn build_openvpn_args_ignores_remote_entries_with_too_many_parts() {
    let mut config = base_config();
    config.remote = Some("a:1:udp:x,b, ".to_string());
    let args = config.build_openvpn_args("s");
    let remotes: Vec<&String> = args.iter().skip_while(|a| *a != "--remote").collect();
    assert_eq!(remotes, vec!["--remote", "b", "--remote", ""]);
}

#[test]
fn persist_tun_appears_only_when_supplied() {
    let mut config = base_config();
    config.extra_args = vec!["--persist-tun".to_string()];
    let args = config.build_openvpn_args("s");
    assert_eq!(args.iter().filter(|a| *a == "--persist-tun").count(), 1);
    assert_eq!(args.last().unwrap(), "--persist-tun");
}

#[test]
fn accepted_settings_always_name_a_source() {
    let settings = settings_with(&[], &[]);
    let config = ConnectionConfig::from_nm_settings(&settings).unwrap();
    let args = config.build_openvpn_args("s");
    assert_eq!(&args[8..10], &["--ca", "/etc/test-ca.pem"]);
}
