use arexx_tap::config::InfluxDbConfig;
use arexx_tap::sink::{format_topic, InfluxDbSink};

fn influx(enabled: bool) -> InfluxDbConfig {
    InfluxDbConfig {
        enabled,
        url: String::from("http://localhost:8086"),
        bucket: String::from("arexx"),
        token: String::from("SECRET-REDACTED"),
        detect_start_time: None,
        measurement_base: String::from("temp"),
    }
}

#[test]
fn disabled_influx_sink_is_none() {
    assert!(InfluxDbSink::new(&influx(false)).is_none());
}

#[test]
fn measurement_names() {
    let sink = InfluxDbSink::new(&influx(true)).unwrap();
    assert_eq!(sink.url(), "http://localhost:8086");
    assert_eq!(sink.format_measurement_name(5), "temp.5");
    assert_eq!(sink.format_measurement_name(0), "temp.0");
    assert_eq!(sink.format_measurement_name(65535), "temp.65535");
}

#[test]
fn mqtt_topics() {
    assert_eq!(format_topic(&String::from("home/arexx"), 42), "home/arexx/42");
    assert_eq!(format_topic(&String::new(), 7), "/7");
}
