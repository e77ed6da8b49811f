use xy_sign_relay::config::{port_setting, Config};
use xy_sign_relay::error::ConfigError;
use xy_sign_relay::text::{encode_lower_hex, parse_u16, trimmed};

#[test]
fn parse_port_numbers() {
    assert_eq!(parse_u16("8080"), Some(8080));
    assert_eq!(parse_u16("+80"), Some(80));
    assert_eq!(parse_u16("0"), Some(0));
    assert_eq!(parse_u16("007"), Some(7));
    assert_eq!(parse_u16("65535"), Some(65535));
    assert_eq!(parse_u16("65536"), None);
    assert_eq!(parse_u16("999999999999"), None);
    assert_eq!(parse_u16(""), None);
    assert_eq!(parse_u16("+"), None);
    assert_eq!(parse_u16("-1"), None);
    assert_eq!(parse_u16(" 80"), None);
    assert_eq!(parse_u16("80a"), None);
}

#[test]
fn parse_agrees_with_std() {
    for s in ["1", "+1", "65535", "65536", "", "+", "++1", "1 ", "٣", "00065535", "-0"] {
        assert_eq!(parse_u16(s), s.parse::<u16>().ok(), "{}", s);
    }
}

#[test]
fn port_setting_defaults() {
    assert_eq!(port_setting(None), 8080);
    assert_eq!(port_setting(Some("abc".to_string())), 8080);
    assert_eq!(port_setting(Some("9000".to_string())), 9000);
}

#[test]
fn lower_hex_encoding() {
    assert_eq!(encode_lower_hex(&[0x00, 0xab, 0xff, 0x10]), "00abff10");
    assert_eq!(encode_lower_hex(&[]), "");
}

#[test]
fn trimming() {
    assert_eq!(trimmed("  a b \n\t"), "a b");
    assert_eq!(trimmed("\u{3000}key\u{a0}"), "key");
    assert_eq!(trimmed("   "), "");
    for s in ["  x ", "\u{85}y\u{2028}", "", "z"] {
        assert_eq!(trimmed(s), s.trim());
    }
}

#[test]
fn configuration_requires_key_then_password() {
    let r = Config::from_settings(None, None, None, None);
    assert!(matches!(r, Err(ConfigError::RsaPublicKeyMissing)));
    let r = Config::from_settings(Some("k".to_string()), None, None, None);
    assert!(matches!(r, Err(ConfigError::MonitorPasswordMissing)));
}

#[test]
fn configuration_defaults() {
    let c = Config::from_settings(Some("k".to_string()), Some("pw".to_string()), None, None).unwrap();
    assert_eq!(c.rsa_public_key, "k");
    assert_eq!(c.monitor_password, "pw");
    assert_eq!(c.server_host, "0.0.0.0");
    assert_eq!(c.server_port, 8080);
    assert_eq!(c.listen_address(), "0.0.0.0:8080");
}

#[test]
fn listen_address_formats_host_and_port() {
    let c = Config::from_settings(
        Some("k".to_string()),
        Some("pw".to_string()),
        Some("127.0.0.1".to_string()),
        Some("65535".to_string()),
    )
    .unwrap();
    assert_eq!(c.listen_address(), "127.0.0.1:65535");
    let c = Config::from_settings(Some("k".to_string()), Some("p".to_string()), Some("h".to_string()), Some("0".to_string())).unwrap();
    assert_eq!(c.listen_address(), "h:0");
}

#[test]
fn port_round_trip() {
    for p in [0u16, 7, 80, 8080, 65535] {
        let c = Config::from_settings(Some("k".into()), Some("p".into()), None, Some(p.to_string())).unwrap();
        let addr = c.listen_address();
        let port_text = addr.rsplit(':').next().unwrap().to_string();
        assert_eq!(port_setting(Some(port_text)), p);
    }
}

#[test]
fn config_error_messages() {
    assert_eq!(
        ConfigError::RsaPublicKeyMissing.message(),
        "RSA公钥未配置，请在.env文件中设置RSA_PUBLIC_KEY"
    );
    assert_eq!(
        ConfigError::MonitorPasswordMissing.message(),
        "监控密码未配置，请在.env文件中设置MONITOR_PASSWORD"
    );
}
