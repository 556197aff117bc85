use arexx_tap::calibration::{CalibrationTable, INTERNAL_TEMPERATURE_SCALE};
use arexx_tap::config::{ConfigFile, DataFileConfig, MqttConfig, SensorConfig, SinkTypeConfig};

fn sensor(id: u16, scale: Option<i32>) -> SensorConfig {
    SensorConfig { id, name: String::from("s"), temperature_scaling: scale }
}

#[test]
fn unset_scales_take_the_built_in_default() {
    let t = CalibrationTable::resolve(None, &vec![sensor(1, None), sensor(2, Some(5))]);
    assert_eq!(t.scale(1), Some(INTERNAL_TEMPERATURE_SCALE));
    assert_eq!(t.scale(1), Some(7800));
    assert_eq!(t.scale(2), Some(5));
    assert_eq!(t.scale(3), None);
}

#[test]
fn unset_scales_take_the_global_scale() {
    let t = CalibrationTable::resolve(Some(10_000), &vec![sensor(1, None), sensor(2, Some(5))]);
    assert_eq!(t.scale(1), Some(10_000));
    assert_eq!(t.scale(2), Some(5));
}

#[test]
fn later_duplicate_wins() {
    let t = CalibrationTable::resolve(None, &vec![sensor(4, Some(1)), sensor(4, Some(2))]);
    assert_eq!(t.scale(4), Some(2));
}

#[test]
fn empty_sensor_list_gives_empty_table() {
    let t = CalibrationTable::resolve(Some(3), &vec![]);
    assert_eq!(t.scale(0), None);
    assert_eq!(t.scale(0xFFFF), None);
}

#[test]
fn default_config() {
    let c = ConfigFile::default();
    assert_eq!(c.vid, 0x0451);
    assert_eq!(c.pid, 0x3211);
    assert!(c.temperature_scaling.is_none());
    assert!(c.log.is_none());
    assert!(c.sink.is_empty());
    assert!(c.sensors.is_empty());
}

#[test]
fn sink_enabled_flags() {
    let on = SinkTypeConfig::DataFile(DataFileConfig { enabled: true, file: String::from("out.json") });
    let off = SinkTypeConfig::Mqtt(MqttConfig {
        enabled: false,
        host: String::from("localhost"),
        port: 1883,
        topic_base: String::from("arexx"),
    });
    assert!(on.enabled());
    assert!(!off.enabled());
}
