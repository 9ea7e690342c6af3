use stream_playback::config::{check_pkt_len, Cli, Config, ConfigSource, FileConfig};

fn with_host(host: &str) -> Cli {
    Cli { host: Some(host.to_string()), ..Cli::default() }
}

/// The file of the manual.
fn sample_file() -> FileConfig {
    let mut file = FileConfig::empty();
    file.receiver.host = Some("192.168.1.10".to_string());
    file.receiver.port = Some(7998);
    file.receiver.n_channel = Some(1);
    file.receiver.listen_port = Some(7999);
    file.gui.enabled = Some(true);
    file.gui.bind_addr = Some("0.0.0.0".to_string());
    file.gui.port = Some(8081);
    file.gui.password = Some("test".to_string());
    file
}

#[test]
fn defaults() {
    let c = Config::resolve(with_host("192.168.1.10"), ConfigSource::Absent).unwrap();
    assert_eq!(c.host, "192.168.1.10");
    assert_eq!(c.port, 7998);
    assert_eq!(c.sample_rate, 16000);
    assert_eq!(c.sample_per_packet, 32);
    assert_eq!(c.pkt_len, 12 + 32 * 2);
    assert_eq!(c.listen_port, None);
    assert!(c.gui_enabled);
    assert_eq!(c.gui_bind_addr, "0.0.0.0");
    assert_eq!(c.gui_port, 8081);
    assert_eq!(c.gui_password, "test");
}

#[test]
fn file_goes_before_defaults() {
    let mut file = sample_file();
    file.receiver.port = Some(1);
    file.receiver.sample_rate = Some(48000);
    file.receiver.n_channel = Some(4);
    file.receiver.sample_per_packet = Some(10);
    file.gui.enabled = Some(false);
    file.gui.bind_addr = Some("127.0.0.1".to_string());
    file.gui.port = Some(2);
    file.gui.password = Some(String::new());
    let c = Config::resolve(Cli::default(), ConfigSource::Parsed(file)).unwrap();
    assert_eq!(c.host, "192.168.1.10");
    assert_eq!(c.port, 1);
    assert_eq!(c.sample_rate, 48000);
    assert_eq!(c.sample_per_packet, 10);
    assert_eq!(c.pkt_len, 12 + 4 * 10 * 2);
    assert_eq!(c.listen_port, Some(7999));
    assert!(!c.gui_enabled);
    assert_eq!(c.gui_bind_addr, "127.0.0.1");
    assert_eq!(c.gui_port, 2);
    assert_eq!(c.gui_password, "");
}

#[test]
fn command_line_overrides_file() {
    let cli = Cli {
        host: Some("other".to_string()),
        port: Some(5),
        sample_rate: Some(8000),
        n_channel: Some(2),
        sample_per_packet: Some(16),
        pkt_len: Some(1000),
        listen_port: Some(6),
    };
    let mut file = sample_file();
    file.receiver.sample_rate = Some(48000);
    file.receiver.sample_per_packet = Some(10);
    file.receiver.pkt_len = Some(20);
    let c = Config::resolve(cli, ConfigSource::Parsed(file)).unwrap();
    assert_eq!(c.host, "other");
    assert_eq!(c.port, 5);
    assert_eq!(c.sample_rate, 8000);
    assert_eq!(c.sample_per_packet, 16);
    assert_eq!(c.pkt_len, 1000);
    assert_eq!(c.listen_port, Some(6));
}

#[test]
fn fixed_port_of_the_manual() {
    let cli = Cli { listen_port: Some(7999), n_channel: Some(1), ..with_host("192.168.1.10") };
    let c = Config::resolve(cli, ConfigSource::Absent).unwrap();
    assert_eq!(c.listen_port, Some(7999));
    assert_eq!(c.pkt_len, 76);
}

#[test]
fn computed_packet_has_all_channels() {
    let cli = Cli { n_channel: Some(3), ..with_host("h") };
    let c = Config::resolve(cli, ConfigSource::Absent).unwrap();
    assert_eq!(c.pkt_len, 12 + 3 * 32 * 2);
    let cli = Cli { n_channel: Some(0), ..with_host("h") };
    assert_eq!(Config::resolve(cli, ConfigSource::Absent).unwrap().pkt_len, 12);
}

#[test]
fn host_is_required() {
    let message = "--host is required (or set in config)";
    assert_eq!(Config::resolve(Cli::default(), ConfigSource::Absent).unwrap_err(), message);
    let empty = ConfigSource::Parsed(FileConfig::empty());
    assert_eq!(Config::resolve(Cli::default(), empty).unwrap_err(), message);
}

#[test]
fn file_that_cannot_be_used_is_an_error() {
    let source = ConfigSource::Unreadable {
        path: "/no/such".to_string(),
        error: "not there".to_string(),
    };
    assert_eq!(
        Config::resolve(with_host("h"), source).unwrap_err(),
        "failed to read config /no/such: not there"
    );
    let source = ConfigSource::Unparsable { error: "line 1".to_string() };
    assert_eq!(
        Config::resolve(Cli::default(), source).unwrap_err(),
        "failed to parse config: line 1"
    );
}

#[test]
fn packet_length_that_memory_cannot_count() {
    let huge = Cli { sample_per_packet: Some(usize::MAX / 2), ..with_host("h") };
    assert!(!check_pkt_len(&huge, &ConfigSource::Absent));
    let given = Cli { pkt_len: Some(100), ..huge };
    assert!(check_pkt_len(&given, &ConfigSource::Absent));
    assert_eq!(Config::resolve(given, ConfigSource::Absent).unwrap().pkt_len, 100);
    assert!(check_pkt_len(&with_host("h"), &ConfigSource::Absent));
    let nameless = Cli { sample_per_packet: Some(usize::MAX), ..Cli::default() };
    assert!(check_pkt_len(&nameless, &ConfigSource::Absent));
}
