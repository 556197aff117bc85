use vstd::prelude::*;

verus! {

/// USB vendor id of the concentrator when no configuration file is given.
pub const DEFAULT_VID: u16 = 0x0451;

/// USB product id of the concentrator when no configuration file is given.
pub const DEFAULT_PID: u16 = 0x3211;

/// The daemon's configuration, as read once at startup.
///
/// Calibration scales are fixed-point: millionths of a degree per raw count.
#[derive(Clone, Debug)]
pub struct ConfigFile {
    pub vid: u16,
    pub pid: u16,
    pub temperature_scaling: Option<i32>,
    pub log: Option<LogConfig>,
    pub sink: Vec<SinkTypeConfig>,
    pub sensors: Vec<SensorConfig>,
}

/// Where and how the daemon logs.
#[derive(Clone, Debug)]
pub struct LogConfig {
    pub enabled: bool,
    pub directory: Option<String>,
    pub prefix: Option<String>,
    pub level: Option<String>,
}

/// An append-only file that receives one line per reading.
#[derive(Clone, Debug)]
pub struct DataFileConfig {
    pub enabled: bool,
    pub file: String,
}

/// A time-series database that receives the readings.
#[derive(Clone, Debug)]
pub struct InfluxDbConfig {
    pub enabled: bool,
    pub url: String,
    pub bucket: String,
    pub token: String,
    pub detect_start_time: Option<bool>,
    pub measurement_base: String,
}

/// A message bus that receives the readings.
#[derive(Clone, Debug)]
pub struct MqttConfig {
    pub enabled: bool,
    pub host: String,
    pub port: u16,
    pub topic_base: String,
}

/// One configured sink.
#[derive(Clone, Debug)]
pub enum SinkTypeConfig {
    DataFile(DataFileConfig),
    InfluxDb(InfluxDbConfig),
    Mqtt(MqttConfig),
}

/// One sensor of the concentrator, with its own calibration scale if it has one.
#[derive(Clone, Debug)]
pub struct SensorConfig {
    pub id: u16,
    pub name: String,
    pub temperature_scaling: Option<i32>,
}

impl SinkTypeConfig {
    /// Whether this sink is switched on.
    pub fn enabled(&self) -> (r: bool)
        ensures
            r == match self {
                SinkTypeConfig::DataFile(c) => c.enabled,
                SinkTypeConfig::InfluxDb(c) => c.enabled,
                SinkTypeConfig::Mqtt(c) => c.enabled,
            },
    {
        match self {
            SinkTypeConfig::DataFile(c) => c.enabled,
            SinkTypeConfig::InfluxDb(c) => c.enabled,
            SinkTypeConfig::Mqtt(c) => c.enabled,
        }
    }
}

/// The configuration used when none is given: the default vendor and product
/// ids, no global scale, no logging, no sinks and no sensors.
impl Default for ConfigFile {
    fn default() -> (r: ConfigFile)
        ensures
            r.vid == DEFAULT_VID,
            r.pid == DEFAULT_PID,
            r.temperature_scaling is None,
            r.log is None,
            r.sink@.len() == 0,
            r.sensors@.len() == 0,
    {
        ConfigFile {
            vid: DEFAULT_VID,
            pid: DEFAULT_PID,
            temperature_scaling: None,
            log: None,
            sink: Vec::new(),
            sensors: Vec::new(),
        }
    }
}

} // verus!
