use vstd::prelude::*;
use crate::config::InfluxDbConfig;

verus! {

#[verifier::external_type_specification]
#[verifier::external_body]
pub struct ExInfluxClient(influxdb::Client);

/// The decimal digit `d`.
pub open spec fn digit_char(d: nat) -> char {
    seq!['0', '1', '2', '3', '4', '5', '6', '7', '8', '9'][d as int]
}

/// The decimal numeral of `n`, without sign or leading zeros.
pub open spec fn decimal(n: nat) -> Seq<char>
    decreases n,
{
    if n < 10 {
        seq![digit_char(n)]
    } else {
        decimal(n / 10).push(digit_char(n % 10))
    }
}

/// Relies on `u16::to_string` (std's `Display` for integers): the decimal
/// numeral of `n`.
#[verifier::external_body]
fn u16_to_decimal(n: u16) -> (r: String)
    ensures
        r@ == decimal(n as nat),
{
    n.to_string()
}

/// Relies on `influxdb::Client::new`: a client for the database `bucket` at
/// `url`. It builds an HTTP client, which panics where no TLS backend can be
/// set up.
#[verifier::external_body]
fn influx_client_new(url: &String, bucket: &String) -> (r: influxdb::Client) {
    influxdb::Client::new(url.as_str(), bucket.as_str())
}

/// Relies on `influxdb::Client::with_token`: the same client, authenticating
/// with `token`.
#[verifier::external_body]
fn influx_client_with_token(client: influxdb::Client, token: &String) -> (r: influxdb::Client) {
    client.with_token(token.as_str())
}

/// `base`, a separator, then the sensor id in decimal.
fn join_sensor(base: &String, separator: &str, sensor: u16) -> (r: String)
    ensures
        r@ == base@ + separator@ + decimal(sensor as nat),
{
    let digits = u16_to_decimal(sensor);
    let joined = base.clone().concat(separator);
    joined.concat(digits.as_str())
}

/// The time-series database sink: one measurement per sensor, named after
/// the configured base and the sensor id.
pub struct InfluxDbSink {
    url: String,
    client: influxdb::Client,
    measurement_base: String,
}

impl InfluxDbSink {
    /// A sink for `config`, or none when it is switched off.
    pub fn new(config: &InfluxDbConfig) -> (r: Option<InfluxDbSink>)
        ensures
            r is Some <==> config.enabled,
            r is Some ==> r->Some_0.url_spec() == config.url@ && r->Some_0.base_spec()
                == config.measurement_base@,
    {
        if config.enabled {
            let client = influx_client_with_token(
                influx_client_new(&config.url, &config.bucket),
                &config.token,
            );
            Some(
                InfluxDbSink {
                    client,
                    measurement_base: config.measurement_base.clone(),
                    url: config.url.clone(),
                },
            )
        } else {
            None
        }
    }

    /// The database's url.
    pub closed spec fn url_spec(&self) -> Seq<char> {
        self.url@
    }

    /// The base that measurement names start with.
    pub closed spec fn base_spec(&self) -> Seq<char> {
        self.measurement_base@
    }

    /// The database's url.
    pub fn url(&self) -> (r: &String)
        ensures
            r@ == self.url_spec(),
    {
        &self.url
    }

    /// The base that measurement names start with.
    pub fn measurement_base(&self) -> (r: &String)
        ensures
            r@ == self.base_spec(),
    {
        &self.measurement_base
    }

    /// The client that writes to the database.
    pub fn client(&self) -> &influxdb::Client {
        &self.client
    }

    /// The measurement of `sensor`: the base, a dot, then the sensor id.
    pub fn format_measurement_name(&self, sensor: u16) -> (r: String)
        ensures
            r@ == self.base_spec() + "."@ + decimal(sensor as nat),
    {
        join_sensor(&self.measurement_base, ".", sensor)
    }
}

/// The message-bus topic of `sensor`: the base, a slash, then the sensor id.
pub fn format_topic(topic_base: &String, sensor: u16) -> (r: String)
    ensures
        r@ == topic_base@ + "/"@ + decimal(sensor as nat),
{
    join_sensor(topic_base, "/", sensor)
}

} // verus!
