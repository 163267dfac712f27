use pyros::config::{parse_u16, parse_u8, Config, ConfigError, PyrosCliArgs};
use pyros::mqtt_client::{Handler, MQTTClient, Message};

struct SilentHandler;

impl Handler for SilentHandler {
    fn handle(&self, _msg: &Message, _client: &MQTTClient<SilentHandler>) {}
}

fn no_args() -> PyrosCliArgs {
    PyrosCliArgs {
        home_dir: None,
        command: None,
        mqtt_host: None,
        mqtt_port: None,
        verbose: 0,
    }
}

#[test]
fn defaults_without_file() {
    let (cfg, logs) = Config::new("/home/pyros", no_args(), &None).unwrap();
    assert_eq!(cfg.home_dir, "/home/pyros");
    assert_eq!(cfg.config_file, "/home/pyros/pyros.config");
    assert_eq!(cfg.verbosity, 0);
    assert_eq!(cfg.mqtt_host, "localhost");
    assert_eq!(cfg.mqtt_port, 1883);
    assert_eq!(cfg.mqtt_timeout, 60);
    assert_eq!(cfg.mqtt_max_reconnect_retries, 20);
    assert_eq!(cfg.thread_kill_timeout, 1);
    assert_eq!(cfg.agents_check_timeout, 1);
    assert_eq!(cfg.agents_kill_timeout, 180);
    assert!(logs.is_empty());
}

#[test]
fn file_sets_host_and_debug_level() {
    let bytes = b"mqtt.host=broker.example\ndebug_level=3\n".to_vec();
    let (cfg, logs) = Config::new(".", no_args(), &Some(bytes)).unwrap();
    assert_eq!(cfg.mqtt_host, "broker.example");
    assert_eq!(cfg.verbosity, 3);
    assert!(logs.is_empty());
}

#[test]
fn file_host_reaches_connection_manager() {
    let bytes = b"mqtt.host=broker.example\n".to_vec();
    let (cfg, _logs) = Config::new(".", no_args(), &Some(bytes)).unwrap();
    let client: MQTTClient<SilentHandler> = MQTTClient::new(cfg.mqtt_host.as_str());
    assert_eq!(client.host, "broker.example");
}

#[test]
fn cli_host_overrides_file() {
    let bytes = b"mqtt.host=broker.example\n".to_vec();
    let mut args = no_args();
    args.mqtt_host = Some("cli.example".to_string());
    let (cfg, _logs) = Config::new(".", args, &Some(bytes)).unwrap();
    assert_eq!(cfg.mqtt_host, "cli.example");
    let client: MQTTClient<SilentHandler> = MQTTClient::new(cfg.mqtt_host.as_str());
    assert_eq!(client.host, "cli.example");
}

#[test]
fn cli_port_and_verbose_override_file() {
    let bytes = b"mqtt.port=2000\ndebug_level=1\n".to_vec();
    let mut args = no_args();
    args.mqtt_port = Some("2883".to_string());
    args.verbose = 2;
    let (cfg, _logs) = Config::new(".", args, &Some(bytes)).unwrap();
    assert_eq!(cfg.mqtt_port, 2883);
    assert_eq!(cfg.verbosity, 2);
}

#[test]
fn file_port_applies_without_cli_flag() {
    let bytes = b"mqtt.port=2000\n".to_vec();
    let (cfg, _logs) = Config::new(".", no_args(), &Some(bytes)).unwrap();
    assert_eq!(cfg.mqtt_port, 2000);
}

#[test]
fn unknown_keys_are_logged_and_ignored() {
    let bytes = b"colour=blue\nmqtt.host=h\nshape=round\n".to_vec();
    let (cfg, logs) = Config::new(".", no_args(), &Some(bytes)).unwrap();
    assert_eq!(
        logs,
        vec![
            "Unknown property found colour".to_string(),
            "Unknown property found shape".to_string(),
        ]
    );
    assert_eq!(cfg.mqtt_host, "h");
}

#[test]
fn bad_port_in_file_is_error() {
    let bytes = b"mqtt.port=70000\n".to_vec();
    match Config::new(".", no_args(), &Some(bytes)) {
        Err(ConfigError::BadPort(v)) => assert_eq!(v, "70000"),
        _ => panic!("expected a port error"),
    }
}

#[test]
fn bad_debug_level_in_file_is_error() {
    let bytes = b"debug_level=high\n".to_vec();
    match Config::new(".", no_args(), &Some(bytes)) {
        Err(ConfigError::BadDebugLevel(v)) => assert_eq!(v, "high"),
        _ => panic!("expected a debug-level error"),
    }
}

#[test]
fn bad_cli_port_is_error() {
    let mut args = no_args();
    args.mqtt_port = Some("abc".to_string());
    match Config::new(".", args, &None) {
        Err(ConfigError::BadPort(v)) => assert_eq!(v, "abc"),
        _ => panic!("expected a port error"),
    }
}

#[test]
fn malformed_properties_file_is_error() {
    let bytes = b"key=\\uZZZZ\n".to_vec();
    match Config::new(".", no_args(), &Some(bytes)) {
        Err(ConfigError::BadPropertiesFile(_)) => {}
        _ => panic!("expected a properties-file error"),
    }
}

#[test]
fn load_from_config_file_applies_over_current_values() {
    let mut args = no_args();
    args.mqtt_host = Some("cli.example".to_string());
    let (mut cfg, _logs) = Config::new(".", args, &None).unwrap();
    assert_eq!(cfg.mqtt_host, "cli.example");
    let logs = cfg
        .load_from_config_file(&Some(b"mqtt.host=file.example\n".to_vec()))
        .unwrap();
    assert_eq!(cfg.mqtt_host, "file.example");
    assert!(logs.is_empty());
}

#[test]
fn parse_u16_exact_values() {
    assert_eq!(parse_u16("1883"), Some(1883));
    assert_eq!(parse_u16("+42"), Some(42));
    assert_eq!(parse_u16("0"), Some(0));
    assert_eq!(parse_u16("007"), Some(7));
    assert_eq!(parse_u16("65535"), Some(65535));
    assert_eq!(parse_u16("65536"), None);
    assert_eq!(parse_u16("99999999999999999999"), None);
    assert_eq!(parse_u16(""), None);
    assert_eq!(parse_u16("+"), None);
    assert_eq!(parse_u16("-1"), None);
    assert_eq!(parse_u16("1 2"), None);
    assert_eq!(parse_u16("12a"), None);
}

#[test]
fn parse_u8_exact_values() {
    assert_eq!(parse_u8("255"), Some(255));
    assert_eq!(parse_u8("256"), None);
    assert_eq!(parse_u8("+0"), Some(0));
    assert_eq!(parse_u8("x"), None);
}
