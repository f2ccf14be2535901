//! Request headers and route records exchanged with brokers and name servers.
use std::collections::HashMap;
use vstd::prelude::*;

use crate::ext_fields::ExtFields;

verus! {

/// The decimal digits of `n`, most significant first.
pub open spec fn digits_of(n: nat) -> Seq<char>
    decreases n,
{
    if n < 10 {
        seq![digit_char(n)]
    } else {
        digits_of(n / 10).push(digit_char(n % 10))
    }
}

/// The character of the decimal digit `d`.
pub open spec fn digit_char(d: nat) -> char {
    seq!['0', '1', '2', '3', '4', '5', '6', '7', '8', '9'][d as int]
}

/// The decimal text of `v`, with a leading `-` when it is negative.
pub open spec fn decimal(v: int) -> Seq<char> {
    if v < 0 {
        seq!['-'] + digits_of((-v) as nat)
    } else {
        digits_of(v as nat)
    }
}

/// The text of a boolean.
pub open spec fn bool_text(b: bool) -> Seq<char> {
    if b {
        "true"@
    } else {
        "false"@
    }
}

/// Relies on `<i64 as ToString>::to_string` (std's `Display` for integers):
/// the decimal digits, with a leading `-` for a negative value.
#[verifier::external_body]
fn decimal_string(v: i64) -> (r: String)
    ensures
        r@ == decimal(v as int),
{
    v.to_string()
}

fn bool_string(b: bool) -> (r: String)
    ensures
        r@ == bool_text(b),
{
    if b {
        "true".to_owned()
    } else {
        "false".to_owned()
    }
}

/// The header of a request for the route of a topic.
pub struct GetRouteInfoRequestHeader {
    topic: String,
}

impl GetRouteInfoRequestHeader {
    /// The topic whose route is requested.
    pub closed spec fn topic_view(&self) -> Seq<char> {
        self.topic@
    }

    pub fn new(topic: &str) -> (r: GetRouteInfoRequestHeader)
        ensures
            r.topic_view() == topic@,
    {
        Self { topic: topic.to_owned() }
    }

    /// The extension fields that carry this header: `{"topic": <name>}`.
    pub fn into_ext_fields(self) -> (r: ExtFields)
        ensures
            r.wf(),
            r@ == Map::<Seq<char>, Seq<char>>::empty().insert("topic"@, self.topic_view()),
    {
        let mut map = ExtFields::new();
        map.insert("topic".to_owned(), self.topic);
        map
    }
}

impl From<GetRouteInfoRequestHeader> for ExtFields {
    fn from(header: GetRouteInfoRequestHeader) -> ExtFields {
        header.into_ext_fields()
    }
}

impl vstd::std_specs::convert::FromSpecImpl<GetRouteInfoRequestHeader> for ExtFields {
    open spec fn obeys_from_spec() -> bool {
        false
    }

    open spec fn from_spec(v: GetRouteInfoRequestHeader) -> ExtFields {
        vstd::pervasive::arbitrary()
    }
}

/// Copies extension fields into a standard hash map.
fn ext_fields_to_map(fields: &ExtFields) -> HashMap<String, String>
    requires
        fields.wf(),
{
    let pairs = fields.pairs();
    let mut map: HashMap<String, String> = HashMap::new();
    let mut i: usize = 0;
    while i < pairs.len()
        invariant
            i <= pairs@.len(),
        decreases pairs@.len() - i,
    {
        map.insert(pairs[i].0.clone(), pairs[i].1.clone());
        i = i + 1;
    }
    map
}

impl From<GetRouteInfoRequestHeader> for HashMap<String, String> {
    fn from(header: GetRouteInfoRequestHeader) -> HashMap<String, String> {
        ext_fields_to_map(&header.into_ext_fields())
    }
}

impl vstd::std_specs::convert::FromSpecImpl<GetRouteInfoRequestHeader> for HashMap<String, String> {
    open spec fn obeys_from_spec() -> bool {
        false
    }

    open spec fn from_spec(v: GetRouteInfoRequestHeader) -> HashMap<String, String> {
        vstd::pervasive::arbitrary()
    }
}

/// The queues that one broker serves for a topic.
#[derive(Debug)]
pub struct QueueData {
    pub broker_name: String,
    pub read_queue_nums: i32,
    pub write_queue_nums: i32,
    pub perm: i32,
    pub topic_syn_flag: i32,
}

/// One broker group: its cluster, name and the address of each instance.
#[derive(Debug)]
pub struct BrokerData {
    pub cluster: String,
    pub broker_name: String,
    pub broker_addrs: HashMap<i64, String>,
}

/// The route of one topic: its queues and the brokers that serve them.
#[derive(Debug)]
pub struct TopicRouteData {
    pub order_topic_conf: Option<String>,
    pub queue_datas: Vec<QueueData>,
    pub broker_datas: Vec<BrokerData>,
    /// Deprecated.
    pub filter_server_table: HashMap<String, Vec<String>>,
}

/// The header of a request that sends a message.
#[derive(Debug)]
pub struct SendMessageRequestHeader {
    pub producer_group: String,
    pub topic: String,
    pub default_topic: String,
    pub default_topic_queue_nums: i32,
    pub queue_id: i32,
    pub sys_flag: i32,
    pub born_timestamp: i64,
    pub flag: i32,
    pub properties: Option<String>,
    pub reconsume_times: Option<i32>,
    pub unit_mode: Option<bool>,
    pub batch: Option<bool>,
    pub max_reconsume_times: Option<i32>,
}

/// `m` with `key` set to `value` when `value` is present.
pub open spec fn insert_opt(
    m: Map<Seq<char>, Seq<char>>,
    key: Seq<char>,
    value: Option<Seq<char>>,
) -> Map<Seq<char>, Seq<char>> {
    match value {
        Some(v) => m.insert(key, v),
        None => m,
    }
}

/// The view of an optional string.
pub open spec fn opt_text(o: Option<String>) -> Option<Seq<char>> {
    match o {
        Some(s) => Some(s@),
        None => None,
    }
}

/// The decimal text of an optional integer.
pub open spec fn opt_decimal(o: Option<i32>) -> Option<Seq<char>> {
    match o {
        Some(v) => Some(decimal(v as int)),
        None => None,
    }
}

/// The text of an optional boolean.
pub open spec fn opt_bool(o: Option<bool>) -> Option<Seq<char>> {
    match o {
        Some(b) => Some(bool_text(b)),
        None => None,
    }
}

/// The extension fields that carry a send-message header: every mandatory
/// field, and each optional one only when it is set.
pub open spec fn send_message_fields(h: SendMessageRequestHeader) -> Map<Seq<char>, Seq<char>> {
    let m = Map::<Seq<char>, Seq<char>>::empty().insert("producerGroup"@, h.producer_group@).insert(
        "topic"@,
        h.topic@,
    ).insert("defaultTopic"@, h.default_topic@).insert(
        "defaultTopicQueueNums"@,
        decimal(h.default_topic_queue_nums as int),
    ).insert("queueId"@, decimal(h.queue_id as int)).insert(
        "sysFlag"@,
        decimal(h.sys_flag as int),
    ).insert("bornTimestamp"@, decimal(h.born_timestamp as int)).insert(
        "flag"@,
        decimal(h.flag as int),
    );
    let m = insert_opt(m, "properties"@, opt_text(h.properties));
    let m = insert_opt(m, "reconsumeTimes"@, opt_decimal(h.reconsume_times));
    let m = insert_opt(m, "unitMode"@, opt_bool(h.unit_mode));
    let m = insert_opt(m, "batch"@, opt_bool(h.batch));
    insert_opt(m, "maxReconsumeTimes"@, opt_decimal(h.max_reconsume_times))
}

impl SendMessageRequestHeader {
    /// The extension fields that carry this header.
    pub fn into_ext_fields(self) -> (r: ExtFields)
        ensures
            r.wf(),
            r@ == send_message_fields(self),
    {
        let mut map = ExtFields::new();
        map.insert("producerGroup".to_owned(), self.producer_group);
        map.insert("topic".to_owned(), self.topic);
        map.insert("defaultTopic".to_owned(), self.default_topic);
        map.insert(
            "defaultTopicQueueNums".to_owned(),
            decimal_string(self.default_topic_queue_nums as i64),
        );
        map.insert("queueId".to_owned(), decimal_string(self.queue_id as i64));
        map.insert("sysFlag".to_owned(), decimal_string(self.sys_flag as i64));
        map.insert("bornTimestamp".to_owned(), decimal_string(self.born_timestamp));
        map.insert("flag".to_owned(), decimal_string(self.flag as i64));
        if let Some(properties) = self.properties {
            map.insert("properties".to_owned(), properties);
        }
        if let Some(reconsume_times) = self.reconsume_times {
            map.insert("reconsumeTimes".to_owned(), decimal_string(reconsume_times as i64));
        }
        if let Some(unit_mode) = self.unit_mode {
            map.insert("unitMode".to_owned(), bool_string(unit_mode));
        }
        if let Some(batch) = self.batch {
            map.insert("batch".to_owned(), bool_string(batch));
        }
        if let Some(max_reconsume_times) = self.max_reconsume_times {
            map.insert("maxReconsumeTimes".to_owned(), decimal_string(max_reconsume_times as i64));
        }
        map
    }
}

impl From<SendMessageRequestHeader> for ExtFields {
    fn from(header: SendMessageRequestHeader) -> ExtFields {
        header.into_ext_fields()
    }
}

impl vstd::std_specs::convert::FromSpecImpl<SendMessageRequestHeader> for ExtFields {
    open spec fn obeys_from_spec() -> bool {
        false
    }

    open spec fn from_spec(v: SendMessageRequestHeader) -> ExtFields {
        vstd::pervasive::arbitrary()
    }
}

} // verus!
