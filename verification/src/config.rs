//! Settings: what the command line and the configuration file say, and what follows from it.

use crate::receiver::HEADER_LEN;
use vstd::prelude::*;
use vstd::string::StringExecFns;

verus! {

/// What was given on the command line.
#[derive(Debug, Default)]
pub struct Cli {
    /// Server host (IP or hostname).
    pub host: Option<String>,
    /// Server port.
    pub port: Option<u16>,
    /// Sample rate (Hz).
    pub sample_rate: Option<u32>,
    /// The sender's total number of channels.
    pub n_channel: Option<u16>,
    /// Samples per channel per packet.
    pub sample_per_packet: Option<usize>,
    /// Packet size in bytes, in place of the computed one.
    pub pkt_len: Option<usize>,
    /// A fixed local UDP port. With it no `register` is sent.
    pub listen_port: Option<u16>,
}

/// The configuration file.
#[derive(Debug)]
pub struct FileConfig {
    pub receiver: ReceiverSection,
    pub gui: GuiSection,
}

/// Section `[receiver]` of the configuration file.
#[derive(Debug)]
pub struct ReceiverSection {
    pub host: Option<String>,
    pub port: Option<u16>,
    pub sample_rate: Option<u32>,
    pub n_channel: Option<u16>,
    pub sample_per_packet: Option<usize>,
    pub pkt_len: Option<usize>,
    pub listen_port: Option<u16>,
}

/// Section `[gui]` of the configuration file.
#[derive(Debug)]
pub struct GuiSection {
    pub enabled: Option<bool>,
    pub bind_addr: Option<String>,
    pub port: Option<u16>,
    pub password: Option<String>,
}

/// What came of the configuration file.
#[derive(Debug)]
pub enum ConfigSource {
    /// None was named.
    Absent,
    /// It could not be read.
    Unreadable { path: String, error: String },
    /// It is not a configuration.
    Unparsable { error: String },
    /// This is what it says.
    Parsed(FileConfig),
}

/// The settings that hold.
#[derive(Debug)]
pub struct Config {
    pub host: String,
    pub port: u16,
    pub sample_rate: u32,
    pub sample_per_packet: usize,
    pub pkt_len: usize,
    pub listen_port: Option<u16>,
    pub gui_enabled: bool,
    pub gui_bind_addr: String,
    pub gui_port: u16,
    pub gui_password: String,
}

/// The first that is given.
pub open spec fn first_given<T>(first: Option<T>, second: Option<T>) -> Option<T> {
    match first {
        Some(_) => first,
        None => second,
    }
}

/// What is given, or else the default.
pub open spec fn given_or<T>(given: Option<T>, default: T) -> T {
    match given {
        Some(value) => value,
        None => default,
    }
}

/// The text that is given, or else the default.
pub open spec fn text_or(given: Option<String>, default: Seq<char>) -> Seq<char> {
    match given {
        Some(text) => text@,
        None => default,
    }
}

/// The number of channels that the sender sends.
pub open spec fn channels_sent(cli: Cli, file: FileConfig) -> u16 {
    given_or(first_given(cli.n_channel, file.receiver.n_channel), 1)
}

/// The samples of one channel in a packet.
pub open spec fn samples_sent(cli: Cli, file: FileConfig) -> usize {
    given_or(first_given(cli.sample_per_packet, file.receiver.sample_per_packet), 32)
}

/// The size of a packet with all the channels that the sender sends.
pub open spec fn computed_pkt_len(cli: Cli, file: FileConfig) -> int {
    HEADER_LEN + channels_sent(cli, file) * samples_sent(cli, file) * 2
}

/// A configuration file that says nothing.
pub open spec fn empty_file() -> FileConfig {
    FileConfig {
        receiver: ReceiverSection {
            host: None,
            port: None,
            sample_rate: None,
            n_channel: None,
            sample_per_packet: None,
            pkt_len: None,
            listen_port: None,
        },
        gui: GuiSection { enabled: None, bind_addr: None, port: None, password: None },
    }
}

impl FileConfig {
    /// A configuration file that says nothing.
    pub fn empty() -> (file: FileConfig)
        ensures
            file == empty_file(),
    {
        FileConfig {
            receiver: ReceiverSection {
                host: None,
                port: None,
                sample_rate: None,
                n_channel: None,
                sample_per_packet: None,
                pkt_len: None,
                listen_port: None,
            },
            gui: GuiSection { enabled: None, bind_addr: None, port: None, password: None },
        }
    }
}

impl ConfigSource {
    /// What the configuration file says, where there is no error. Where none was named, nothing.
    pub open spec fn contents(self) -> Result<FileConfig, Seq<char>> {
        match self {
            ConfigSource::Absent => Ok(empty_file()),
            ConfigSource::Unreadable { path, error } => Err(
                "failed to read config "@ + path@ + ": "@ + error@,
            ),
            ConfigSource::Unparsable { error } => Err("failed to parse config: "@ + error@),
            ConfigSource::Parsed(file) => Ok(file),
        }
    }

    /// What the configuration file says, or the message about it.
    pub fn into_contents(self) -> (contents: Result<FileConfig, String>)
        ensures
            match self.contents() {
                Ok(file) => contents == Ok::<FileConfig, String>(file),
                Err(message) => contents matches Err(e) && e@ == message,
            },
    {
        match self {
            ConfigSource::Absent => Ok(FileConfig::empty()),
            ConfigSource::Unreadable { path, error } => {
                Err(
                    "failed to read config ".to_string().concat(path.as_str()).concat(": ").concat(
                        error.as_str(),
                    ),
                )
            },
            ConfigSource::Unparsable { error } => {
                Err("failed to parse config: ".to_string().concat(error.as_str()))
            },
            ConfigSource::Parsed(file) => Ok(file),
        }
    }
}

/// The first that is given.
fn or<T>(first: Option<T>, second: Option<T>) -> (given: Option<T>)
    ensures
        given == first_given(first, second),
{
    match first {
        Some(value) => Some(value),
        None => second,
    }
}

/// The size of a packet, where it comes to computing it, is a number that memory can count to.
pub open spec fn pkt_len_fits(cli: Cli, source: ConfigSource) -> bool {
    source.contents() matches Ok(file) ==> first_given(cli.host, file.receiver.host) is None
        || first_given(cli.pkt_len, file.receiver.pkt_len) is Some || computed_pkt_len(cli, file)
        <= usize::MAX
}

/// Whether the size of a packet, where it comes to computing it, is a number that memory can count
/// to.
pub fn check_pkt_len(cli: &Cli, source: &ConfigSource) -> (fits: bool)
    ensures
        fits == pkt_len_fits(*cli, *source),
{
    match source {
        ConfigSource::Absent => check_computed_pkt_len(cli, &FileConfig::empty()),
        ConfigSource::Parsed(file) => check_computed_pkt_len(cli, file),
        _ => true,
    }
}

fn check_computed_pkt_len(cli: &Cli, file: &FileConfig) -> (fits: bool)
    ensures
        fits == pkt_len_fits(*cli, ConfigSource::Parsed(*file)),
{
    if cli.host.is_none() && file.receiver.host.is_none() {
        return true;
    }
    if cli.pkt_len.is_some() || file.receiver.pkt_len.is_some() {
        return true;
    }
    let n_channel: u16 = match cli.n_channel {
        Some(n) => n,
        None => match file.receiver.n_channel {
            Some(n) => n,
            None => 1,
        },
    };
    let sample_per_packet: usize = match cli.sample_per_packet {
        Some(n) => n,
        None => match file.receiver.sample_per_packet {
            Some(n) => n,
            None => 32,
        },
    };
    proof {
        assert(0 <= n_channel as int * sample_per_packet as int <= 0xffff * usize::MAX)
            by (nonlinear_arith)
            requires
                0 <= n_channel <= 0xffff,
                0 <= sample_per_packet <= usize::MAX,
        ;
    }
    let samples: u128 = n_channel as u128 * sample_per_packet as u128;
    HEADER_LEN as u128 + samples * 2 <= usize::MAX as u128
}

impl Config {
    /// These are the settings for that command line and that file: the command line goes before
    /// the file, and the file before the defaults.
    pub open spec fn follows(self, cli: Cli, file: FileConfig) -> bool {
        &&& first_given(cli.host, file.receiver.host) == Some(self.host)
        &&& self.port == given_or(first_given(cli.port, file.receiver.port), 7998)
        &&& self.sample_rate == given_or(
            first_given(cli.sample_rate, file.receiver.sample_rate),
            16000,
        )
        &&& self.sample_per_packet == samples_sent(cli, file)
        &&& match first_given(cli.pkt_len, file.receiver.pkt_len) {
            Some(pkt_len) => self.pkt_len == pkt_len,
            None => self.pkt_len == computed_pkt_len(cli, file),
        }
        &&& self.listen_port == first_given(cli.listen_port, file.receiver.listen_port)
        &&& self.gui_enabled == given_or(file.gui.enabled, true)
        &&& self.gui_bind_addr@ == text_or(file.gui.bind_addr, "0.0.0.0"@)
        &&& self.gui_port == given_or(file.gui.port, 8081)
        &&& self.gui_password@ == text_or(file.gui.password, "test"@)
    }

    /// The settings for a command line and a configuration file, or what is wrong with them. Only
    /// the host has no default.
    pub fn resolve(cli: Cli, source: ConfigSource) -> (config: Result<Config, String>)
        requires
            pkt_len_fits(cli, source),
        ensures
            match source.contents() {
                Err(message) => config matches Err(e) && e@ == message,
                Ok(file) => if first_given(cli.host, file.receiver.host) is None {
                    config matches Err(e) && e@ == "--host is required (or set in config)"@
                } else {
                    config matches Ok(c) && c.follows(cli, file)
                },
            },
    {
        let file = match source.into_contents() {
            Ok(file) => file,
            Err(e) => return Err(e),
        };
        let host = match or(cli.host, file.receiver.host) {
            Some(host) => host,
            None => return Err("--host is required (or set in config)".to_string()),
        };
        let port: u16 = or(cli.port, file.receiver.port).unwrap_or(7998);
        let sample_rate: u32 = or(cli.sample_rate, file.receiver.sample_rate).unwrap_or(16000);
        let n_channel: u16 = or(cli.n_channel, file.receiver.n_channel).unwrap_or(1);
        let sample_per_packet: usize = or(
            cli.sample_per_packet,
            file.receiver.sample_per_packet,
        ).unwrap_or(32);
        let pkt_len: usize = match or(cli.pkt_len, file.receiver.pkt_len) {
            Some(pkt_len) => pkt_len,
            None => {
                proof {
                    let channels = n_channel as int * sample_per_packet as int;
                    assert(0 <= channels) by (nonlinear_arith)
                        requires
                            channels == n_channel as int * sample_per_packet as int,
                    ;
                }
                HEADER_LEN + n_channel as usize * sample_per_packet * 2
            },
        };
        let listen_port = or(cli.listen_port, file.receiver.listen_port);

        let gui_enabled: bool = file.gui.enabled.unwrap_or(true);
        let gui_bind_addr = match file.gui.bind_addr {
            Some(bind_addr) => bind_addr,
            None => "0.0.0.0".to_string(),
        };
        let gui_port: u16 = file.gui.port.unwrap_or(8081);
        let gui_password = match file.gui.password {
            Some(password) => password,
            None => "test".to_string(),
        };

        Ok(
            Config {
                host,
                port,
                sample_rate,
                sample_per_packet,
                pkt_len,
                listen_port,
                gui_enabled,
                gui_bind_addr,
                gui_port,
                gui_password,
            },
        )
    }
}

/// The command line overrides the file: what it gives holds, whatever the file says.
pub proof fn law_command_line_overrides_file(config: Config, cli: Cli, file: FileConfig)
    requires
        config.follows(cli, file),
    ensures
        cli.host matches Some(host) ==> config.host == host,
        cli.port matches Some(port) ==> config.port == port,
        cli.sample_rate matches Some(rate) ==> config.sample_rate == rate,
        cli.n_channel matches Some(channels) ==> channels_sent(cli, file) == channels,
        cli.sample_per_packet matches Some(samples) ==> config.sample_per_packet == samples,
        cli.pkt_len matches Some(pkt_len) ==> config.pkt_len == pkt_len,
        cli.listen_port matches Some(port) ==> config.listen_port == Some(port),
{
}

/// A computed packet has a whole header, and room for the first channel, so that every packet that
/// is accepted delivers samples, unless the sender is said to send no channel at all.
pub proof fn law_computed_packet_holds_first_channel(config: Config, cli: Cli, file: FileConfig)
    requires
        config.follows(cli, file),
        first_given(cli.pkt_len, file.receiver.pkt_len) is None,
    ensures
        config.pkt_len >= HEADER_LEN,
        channels_sent(cli, file) >= 1 ==> config.pkt_len >= HEADER_LEN + 2
            * config.sample_per_packet,
{
    let n = channels_sent(cli, file) as int;
    let s = samples_sent(cli, file) as int;
    assert(n * s >= 0 && (n >= 1 ==> n * s >= s)) by (nonlinear_arith)
        requires
            n >= 0,
            s >= 0,
    ;
}

/// What the settings are, where there is a configuration file: the command line goes before the
/// file, and the file before the defaults, for each setting by itself.
pub proof fn law_settings_with_a_file(cli: Cli, file: FileConfig, config: Config)
    requires
        call_ensures(
            Config::resolve,
            (cli, ConfigSource::Parsed(file)),
            Ok::<Config, String>(config),
        ),
    ensures
        cli.host matches Some(host) ==> config.host == host,
        cli.host is None ==> file.receiver.host == Some(config.host),
        cli.port matches Some(port) ==> config.port == port,
        cli.port is None ==> (file.receiver.port matches Some(port) ==> config.port == port),
        cli.port is None && file.receiver.port is None ==> config.port == 7998,
        cli.sample_rate matches Some(rate) ==> config.sample_rate == rate,
        cli.sample_rate is None ==> (file.receiver.sample_rate matches Some(rate)
            ==> config.sample_rate == rate),
        cli.sample_rate is None && file.receiver.sample_rate is None ==> config.sample_rate
            == 16000,
        cli.sample_per_packet matches Some(samples) ==> config.sample_per_packet == samples,
        cli.sample_per_packet is None ==> (file.receiver.sample_per_packet matches Some(samples)
            ==> config.sample_per_packet == samples),
        cli.sample_per_packet is None && file.receiver.sample_per_packet is None
            ==> config.sample_per_packet == 32,
        cli.listen_port matches Some(port) ==> config.listen_port == Some(port),
        cli.listen_port is None ==> config.listen_port == file.receiver.listen_port,
        file.gui.enabled matches Some(enabled) ==> config.gui_enabled == enabled,
        file.gui.enabled is None ==> config.gui_enabled,
        file.gui.bind_addr matches Some(address) ==> config.gui_bind_addr@ == address@,
        file.gui.bind_addr is None ==> config.gui_bind_addr@ == "0.0.0.0"@,
        file.gui.port matches Some(port) ==> config.gui_port == port,
        file.gui.port is None ==> config.gui_port == 8081,
        file.gui.password matches Some(password) ==> config.gui_password@ == password@,
        file.gui.password is None ==> config.gui_password@ == "test"@,
{
}

/// The size of a packet, where there is a configuration file: the one that is given, first on the
/// command line and then in the file; or else a header of twelve bytes and two bytes for each
/// sample of each channel, where the command line goes before the file for the number of channels
/// too, and there is one channel if neither names it.
pub proof fn law_packet_size_with_a_file(cli: Cli, file: FileConfig, config: Config)
    requires
        call_ensures(
            Config::resolve,
            (cli, ConfigSource::Parsed(file)),
            Ok::<Config, String>(config),
        ),
    ensures
        cli.pkt_len matches Some(pkt_len) ==> config.pkt_len == pkt_len,
        cli.pkt_len is None ==> (file.receiver.pkt_len matches Some(pkt_len) ==> config.pkt_len
            == pkt_len),
        cli.pkt_len is None && file.receiver.pkt_len is None ==> {
            &&& cli.n_channel matches Some(n) ==> config.pkt_len == 12 + 2 * (n
                * config.sample_per_packet)
            &&& cli.n_channel is None ==> (file.receiver.n_channel matches Some(n)
                ==> config.pkt_len == 12 + 2 * (n * config.sample_per_packet))
            &&& cli.n_channel is None && file.receiver.n_channel is None ==> config.pkt_len == 12
                + 2 * config.sample_per_packet
        },
{
    assert(1 * config.sample_per_packet == config.sample_per_packet) by (nonlinear_arith);
}

/// Without a configuration file the settings are those of the command line, and else the defaults.
pub proof fn law_settings_without_a_file(cli: Cli, config: Config)
    requires
        call_ensures(Config::resolve, (cli, ConfigSource::Absent), Ok::<Config, String>(config)),
    ensures
        cli.host == Some(config.host),
        cli.port matches Some(port) ==> config.port == port,
        cli.port is None ==> config.port == 7998,
        cli.sample_rate matches Some(rate) ==> config.sample_rate == rate,
        cli.sample_rate is None ==> config.sample_rate == 16000,
        cli.sample_per_packet matches Some(samples) ==> config.sample_per_packet == samples,
        cli.sample_per_packet is None ==> config.sample_per_packet == 32,
        cli.pkt_len matches Some(pkt_len) ==> config.pkt_len == pkt_len,
        cli.pkt_len is None ==> (cli.n_channel matches Some(n) ==> config.pkt_len == 12 + 2 * (n
            * config.sample_per_packet)),
        cli.pkt_len is None && cli.n_channel is None ==> config.pkt_len == 12 + 2
            * config.sample_per_packet,
        config.listen_port == cli.listen_port,
        config.gui_enabled,
        config.gui_bind_addr@ == "0.0.0.0"@,
        config.gui_port == 8081,
        config.gui_password@ == "test"@,
{
    assert(1 * config.sample_per_packet == config.sample_per_packet) by (nonlinear_arith);
}

/// There are settings exactly where the file, if one is named, can be read and understood, and the
/// host is given; and each failure is told by its own message.
pub proof fn law_only_a_host_is_needed(
    cli: Cli,
    source: ConfigSource,
    settings: Result<Config, String>,
)
    requires
        call_ensures(Config::resolve, (cli, source), settings),
    ensures
        match source {
            ConfigSource::Unreadable { path, error } => settings matches Err(e) && e@
                == "failed to read config "@ + path@ + ": "@ + error@,
            ConfigSource::Unparsable { error } => settings matches Err(e) && e@
                == "failed to parse config: "@ + error@,
            ConfigSource::Parsed(file) => if cli.host is None && file.receiver.host is None {
                settings matches Err(e) && e@ == "--host is required (or set in config)"@
            } else {
                settings is Ok
            },
            ConfigSource::Absent => if cli.host is None {
                settings matches Err(e) && e@ == "--host is required (or set in config)"@
            } else {
                settings is Ok
            },
        },
{
}

/// The settings can always be resolved, but where the size of a packet must be computed and comes
/// out larger than memory can count to; and that is what the check finds out.
pub proof fn law_only_the_packet_size_can_be_too_large(
    cli: Cli,
    file: FileConfig,
    channels: u16,
    samples: usize,
    fits: bool,
)
    requires
        cli.n_channel matches Some(n) ==> channels == n,
        cli.n_channel is None ==> (file.receiver.n_channel matches Some(n) ==> channels == n),
        cli.n_channel is None && file.receiver.n_channel is None ==> channels == 1,
        cli.sample_per_packet matches Some(n) ==> samples == n,
        cli.sample_per_packet is None ==> (file.receiver.sample_per_packet matches Some(n)
            ==> samples == n),
        cli.sample_per_packet is None && file.receiver.sample_per_packet is None ==> samples == 32,
        call_ensures(check_pkt_len, (&cli, &ConfigSource::Parsed(file)), fits),
    ensures
        fits <==> {
            ||| cli.host is None && file.receiver.host is None
            ||| cli.pkt_len is Some
            ||| file.receiver.pkt_len is Some
            ||| 12 + 2 * (channels * samples) <= usize::MAX
        },
        fits ==> call_requires(Config::resolve, (cli, ConfigSource::Parsed(file))),
{
}

/// The same holds where no file is named.
pub proof fn law_only_the_packet_size_can_be_too_large_without_a_file(
    cli: Cli,
    channels: u16,
    samples: usize,
    fits: bool,
)
    requires
        cli.n_channel matches Some(n) ==> channels == n,
        cli.n_channel is None ==> channels == 1,
        cli.sample_per_packet matches Some(n) ==> samples == n,
        cli.sample_per_packet is None ==> samples == 32,
        call_ensures(check_pkt_len, (&cli, &ConfigSource::Absent), fits),
    ensures
        fits <==> cli.host is None || cli.pkt_len is Some || 12 + 2 * (channels * samples)
            <= usize::MAX,
        fits ==> call_requires(Config::resolve, (cli, ConfigSource::Absent)),
{
}

/// What the file says is taken as it is; where none is named, nothing is said; and where it cannot
/// be read or understood, there is a message about it.
pub proof fn law_contents_of_the_file(
    source: ConfigSource,
    contents: Result<FileConfig, String>,
)
    requires
        call_ensures(ConfigSource::into_contents, (source,), contents),
    ensures
        match source {
            ConfigSource::Absent => contents matches Ok(file) && {
                &&& file.receiver.host is None
                &&& file.receiver.port is None
                &&& file.receiver.sample_rate is None
                &&& file.receiver.n_channel is None
                &&& file.receiver.sample_per_packet is None
                &&& file.receiver.pkt_len is None
                &&& file.receiver.listen_port is None
                &&& file.gui.enabled is None
                &&& file.gui.bind_addr is None
                &&& file.gui.port is None
                &&& file.gui.password is None
            },
            ConfigSource::Unreadable { path, error } => contents matches Err(e) && e@
                == "failed to read config "@ + path@ + ": "@ + error@,
            ConfigSource::Unparsable { error } => contents matches Err(e) && e@
                == "failed to parse config: "@ + error@,
            ConfigSource::Parsed(file) => contents matches Ok(f) && f == file,
        },
{
}

/// A file that cannot be read or understood stands in no one's way to its message.
pub proof fn law_a_bad_file_always_resolves(
    cli: Cli,
    path: String,
    error: String,
    fits_unread: bool,
    fits_unparsed: bool,
)
    requires
        call_ensures(
            check_pkt_len,
            (&cli, &(ConfigSource::Unreadable { path, error })),
            fits_unread,
        ),
        call_ensures(check_pkt_len, (&cli, &(ConfigSource::Unparsable { error })), fits_unparsed),
    ensures
        fits_unread && fits_unparsed,
        call_requires(Config::resolve, (cli, ConfigSource::Unreadable { path, error })),
        call_requires(Config::resolve, (cli, ConfigSource::Unparsable { error })),
{
}

/// On the command line the number of channels goes before the file, so that what the file says of
/// it has no influence on the size of a packet.
pub proof fn law_channels_of_the_command_line_hold(
    cli: Cli,
    file: FileConfig,
    other: FileConfig,
    config: Config,
    other_config: Config,
)
    requires
        cli.n_channel is Some,
        other == (FileConfig {
            receiver: ReceiverSection {
                n_channel: other.receiver.n_channel,
                ..file.receiver
            },
            ..file
        }),
        call_ensures(
            Config::resolve,
            (cli, ConfigSource::Parsed(file)),
            Ok::<Config, String>(config),
        ),
        call_ensures(
            Config::resolve,
            (cli, ConfigSource::Parsed(other)),
            Ok::<Config, String>(other_config),
        ),
    ensures
        config.pkt_len == other_config.pkt_len,
{
    law_packet_size_with_a_file(cli, file, config);
    law_packet_size_with_a_file(cli, other, other_config);
    law_settings_with_a_file(cli, file, config);
    law_settings_with_a_file(cli, other, other_config);
}

} // verus!
