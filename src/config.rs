use vstd::prelude::*;
use vstd::string::StringExecFns;

verus! {

/// Values of the recognised environment keys, where set.
#[derive(Debug, Clone, Default)]
pub struct EnvValues {
    pub rust_env: Option<String>,
    pub kafka_brokers: Option<String>,
    pub kafka_topic: Option<String>,
    pub consumer_group_id: Option<String>,
    pub consumer_session_timeout_ms: Option<String>,
    pub consumer_auto_offset_reset: Option<String>,
    pub producer_message_timeout_ms: Option<String>,
    pub producer_retry_backoff_ms: Option<String>,
    pub producer_max_retries: Option<String>,
}

/// The resolved client settings: each environment value, or its default.
#[derive(Debug, Clone)]
pub struct Settings {
    pub environment: String,
    pub brokers: String,
    pub topic: String,
    pub group_id: String,
    pub session_timeout_ms: String,
    pub auto_offset_reset: String,
    pub message_timeout_ms: String,
    pub retry_backoff_ms: String,
    pub max_retries: String,
}

pub open spec fn or_default(value: Option<String>, default: Seq<char>) -> Seq<char> {
    match value {
        Some(v) => v@,
        None => default,
    }
}

/// The value of a setting, or its default where it is not set.
pub fn setting_or(value: Option<String>, default: &str) -> (r: String)
    ensures
        r@ == or_default(value, default@),
{
    match value {
        Some(v) => v,
        None => String::from_str(default),
    }
}

/// The topic name: the configured one, or `test-topic`.
pub fn get_topic_name(value: Option<String>) -> (r: String)
    ensures
        r@ == or_default(value, "test-topic"@),
{
    setting_or(value, "test-topic")
}

pub open spec fn settings_of(env: EnvValues, s: Settings) -> bool {
    &&& s.environment@ == or_default(env.rust_env, "development"@)
    &&& s.brokers@ == or_default(env.kafka_brokers, "localhost:9092"@)
    &&& s.topic@ == or_default(env.kafka_topic, "test-topic"@)
    &&& s.group_id@ == or_default(env.consumer_group_id, "rust-kafka-consumer-group"@)
    &&& s.session_timeout_ms@ == or_default(env.consumer_session_timeout_ms, "6000"@)
    &&& s.auto_offset_reset@ == or_default(env.consumer_auto_offset_reset, "earliest"@)
    &&& s.message_timeout_ms@ == or_default(env.producer_message_timeout_ms, "5000"@)
    &&& s.retry_backoff_ms@ == or_default(env.producer_retry_backoff_ms, "100"@)
    &&& s.max_retries@ == or_default(env.producer_max_retries, "3"@)
}

impl Settings {
    /// Resolves every setting from the environment values and the defaults.
    pub fn resolve(env: EnvValues) -> (r: Self)
        ensures
            settings_of(env, r),
    {
        Settings {
            environment: setting_or(env.rust_env, "development"),
            brokers: setting_or(env.kafka_brokers, "localhost:9092"),
            topic: get_topic_name(env.kafka_topic),
            group_id: setting_or(env.consumer_group_id, "rust-kafka-consumer-group"),
            session_timeout_ms: setting_or(env.consumer_session_timeout_ms, "6000"),
            auto_offset_reset: setting_or(env.consumer_auto_offset_reset, "earliest"),
            message_timeout_ms: setting_or(env.producer_message_timeout_ms, "5000"),
            retry_backoff_ms: setting_or(env.producer_retry_backoff_ms, "100"),
            max_retries: setting_or(env.producer_max_retries, "3"),
        }
    }
}

/// The configuration files to try, in order of priority.
pub fn env_file_candidates(environment: &String) -> (r: Vec<String>)
    ensures
        r@.len() == 2,
        r@[0]@ == ".env."@ + environment@,
        r@[1]@ == ".env"@,
{
    let specific = String::from_str(".env.").concat(environment.as_str());
    let mut r: Vec<String> = Vec::new();
    r.push(specific);
    r.push(String::from_str(".env"));
    r
}

/// The position of the configuration file that is used: the first one that
/// exists and loads, given in `loaded` for the files tried so far, in order.
pub fn first_loaded(loaded: &Vec<bool>) -> (r: Option<usize>)
    ensures
        r is None <==> forall|i: int| 0 <= i < loaded@.len() ==> !(#[trigger] loaded@[i]),
        r is Some ==> r->Some_0 < loaded@.len() && loaded@[r->Some_0 as int]
            && forall|i: int| 0 <= i < r->Some_0 ==> !(#[trigger] loaded@[i]),
{
    let mut i: usize = 0;
    while i < loaded.len()
        invariant
            0 <= i <= loaded@.len(),
            forall|j: int| 0 <= j < i ==> !(#[trigger] loaded@[j]),
        decreases loaded.len() - i,
    {
        if loaded[i] {
            return Some(i);
        }
        i = i + 1;
    }
    None
}

pub open spec fn entries_view(entries: Seq<(String, String)>) -> Seq<(Seq<char>, Seq<char>)> {
    entries.map_values(|e: (String, String)| (e.0@, e.1@))
}

fn entry(key: &str, value: &str) -> (r: (String, String))
    ensures
        r.0@ == key@,
        r.1@ == value@,
{
    (String::from_str(key), String::from_str(value))
}

pub open spec fn consumer_entries_spec(s: &Settings) -> Seq<(Seq<char>, Seq<char>)> {
    seq![
        ("group.id"@, s.group_id@),
        ("bootstrap.servers"@, s.brokers@),
        ("enable.partition.eof"@, "false"@),
        ("session.timeout.ms"@, s.session_timeout_ms@),
        ("enable.auto.commit"@, "true"@),
        ("auto.offset.reset"@, s.auto_offset_reset@),
    ]
}

/// The client configuration entries of a consumer, in the order they are set.
pub fn consumer_entries(s: &Settings) -> (r: Vec<(String, String)>)
    ensures
        entries_view(r@) == consumer_entries_spec(s),
{
    let mut r: Vec<(String, String)> = Vec::new();
    r.push(entry("group.id", s.group_id.as_str()));
    r.push(entry("bootstrap.servers", s.brokers.as_str()));
    r.push(entry("enable.partition.eof", "false"));
    r.push(entry("session.timeout.ms", s.session_timeout_ms.as_str()));
    r.push(entry("enable.auto.commit", "true"));
    r.push(entry("auto.offset.reset", s.auto_offset_reset.as_str()));
    assert(entries_view(r@) =~= seq![
        ("group.id"@, s.group_id@),
        ("bootstrap.servers"@, s.brokers@),
        ("enable.partition.eof"@, "false"@),
        ("session.timeout.ms"@, s.session_timeout_ms@),
        ("enable.auto.commit"@, "true"@),
        ("auto.offset.reset"@, s.auto_offset_reset@),
    ]);
    r
}

pub open spec fn producer_entries_spec(s: &Settings) -> Seq<(Seq<char>, Seq<char>)> {
    seq![
        ("bootstrap.servers"@, s.brokers@),
        ("message.timeout.ms"@, s.message_timeout_ms@),
        ("retry.backoff.ms"@, s.retry_backoff_ms@),
        ("message.send.max.retries"@, s.max_retries@),
    ]
}

/// The client configuration entries of a producer, in the order they are set.
pub fn producer_entries(s: &Settings) -> (r: Vec<(String, String)>)
    ensures
        entries_view(r@) == producer_entries_spec(s),
{
    let mut r: Vec<(String, String)> = Vec::new();
    r.push(entry("bootstrap.servers", s.brokers.as_str()));
    r.push(entry("message.timeout.ms", s.message_timeout_ms.as_str()));
    r.push(entry("retry.backoff.ms", s.retry_backoff_ms.as_str()));
    r.push(entry("message.send.max.retries", s.max_retries.as_str()));
    assert(entries_view(r@) =~= seq![
        ("bootstrap.servers"@, s.brokers@),
        ("message.timeout.ms"@, s.message_timeout_ms@),
        ("retry.backoff.ms"@, s.retry_backoff_ms@),
        ("message.send.max.retries"@, s.max_retries@),
    ]);
    r
}

pub open spec fn admin_entries_spec(s: &Settings) -> Seq<(Seq<char>, Seq<char>)> {
    seq![
        ("bootstrap.servers"@, s.brokers@),
        ("request.timeout.ms"@, "10000"@),
        ("socket.timeout.ms"@, "10000"@),
    ]
}

/// The client configuration entries of an administration client, in the order
/// they are set.
pub fn admin_entries(s: &Settings) -> (r: Vec<(String, String)>)
    ensures
        entries_view(r@) == admin_entries_spec(s),
{
    let mut r: Vec<(String, String)> = Vec::new();
    r.push(entry("bootstrap.servers", s.brokers.as_str()));
    r.push(entry("request.timeout.ms", "10000"));
    r.push(entry("socket.timeout.ms", "10000"));
    assert(entries_view(r@) =~= seq![
        ("bootstrap.servers"@, s.brokers@),
        ("request.timeout.ms"@, "10000"@),
        ("socket.timeout.ms"@, "10000"@),
    ]);
    r
}

#[verifier::external_type_specification]
#[verifier::external_body]
pub struct ExClientConfig(rdkafka::ClientConfig);

/// The entries that a client configuration holds, by key.
pub uninterp spec fn config_entries(c: rdkafka::ClientConfig) -> Map<Seq<char>, Seq<char>>;

/// Relies on rdkafka's `ClientConfig::new`: it starts with no entries.
#[verifier::external_body]
fn empty_client_config() -> (r: rdkafka::ClientConfig)
    ensures
        config_entries(r) == entries_map(seq![]),
{
    rdkafka::ClientConfig::new()
}

/// Relies on rdkafka's `ClientConfig::set`: it inserts the entry into the map,
/// replacing an earlier value of the same key.
#[verifier::external_body]
fn with_entry(c: rdkafka::ClientConfig, key: &String, value: &String) -> (r: rdkafka::ClientConfig)
    ensures
        config_entries(r) == config_entries(c).insert(key@, value@),
{
    let mut c = c;
    c.set(key.as_str(), value.as_str());
    c
}

/// The map that setting `entries` in order leaves: a later entry of a key wins.
pub open spec fn entries_map(entries: Seq<(Seq<char>, Seq<char>)>) -> Map<Seq<char>, Seq<char>>
    decreases entries.len(),
{
    if entries.len() == 0 {
        Map::empty()
    } else {
        entries_map(entries.drop_last()).insert(entries.last().0, entries.last().1)
    }
}

/// A client configuration holding `entries`, set in order.
pub fn client_config(entries: &Vec<(String, String)>) -> (r: rdkafka::ClientConfig)
    ensures
        config_entries(r) == entries_map(entries_view(entries@)),
{
    let mut c = empty_client_config();
    let mut i: usize = 0;
    assert(entries_view(entries@.subrange(0, 0)) =~= Seq::empty());
    while i < entries.len()
        invariant
            0 <= i <= entries@.len(),
            config_entries(c) == entries_map(entries_view(entries@.subrange(0, i as int))),
        decreases entries.len() - i,
    {
        c = with_entry(c, &entries[i].0, &entries[i].1);
        assert(entries_view(entries@.subrange(0, i + 1)).drop_last()
            =~= entries_view(entries@.subrange(0, i as int)));
        i = i + 1;
    }
    assert(entries@.subrange(0, entries@.len() as int) =~= entries@);
    c
}

/// The client configuration of a consumer.
pub fn create_consumer_config(s: &Settings) -> (r: rdkafka::ClientConfig)
    ensures
        config_entries(r) == entries_map(consumer_entries_spec(s)),
{
    client_config(&consumer_entries(s))
}

/// The client configuration of a producer.
pub fn create_producer_config(s: &Settings) -> (r: rdkafka::ClientConfig)
    ensures
        config_entries(r) == entries_map(producer_entries_spec(s)),
{
    client_config(&producer_entries(s))
}

/// The client configuration of an administration client.
pub fn create_admin_config(s: &Settings) -> (r: rdkafka::ClientConfig)
    ensures
        config_entries(r) == entries_map(admin_entries_spec(s)),
{
    client_config(&admin_entries(s))
}

} // verus!
