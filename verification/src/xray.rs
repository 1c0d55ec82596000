//! The segment document model: the strictly-schemed, recursively nested
//! node tree a span is reported as, and its deterministic JSON rendering
//! with per-field omission rules and custom encodings.
use vstd::prelude::*;

verus! {

broadcast use vstd::std_specs::vec::axiom_vec_index_decreases;

use crate::codec::{dec_i, dec_u, hex_be, hex_char, hex_char_of, hex_min, push_dec_i64,
    push_dec_u64, push_hex_min, push_str, string_of};

/// Where the traced application runs, as the backend's closed enumeration.
#[derive(Clone, Copy, Debug, PartialEq, Eq, Structural)]
pub enum Origin {
    EC2Instance,
    ECSContainer,
    ElasticBeanstalk,
}

/// The backend tag an origin is reported as.
pub open spec fn origin_tag(o: Origin) -> Seq<char> {
    match o {
        Origin::EC2Instance => "AWS::EC2::Instance"@,
        Origin::ECSContainer => "AWS::ECS::Container"@,
        Origin::ElasticBeanstalk => "AWS::ElasticBeanstalk::Environment"@,
    }
}

impl Origin {
    /// The fixed backend-recognized tag for this origin.
    pub fn to_str(&self) -> (r: &str)
        ensures
            r@ == origin_tag(*self),
    {
        match self {
            Origin::EC2Instance => "AWS::EC2::Instance",
            Origin::ECSContainer => "AWS::ECS::Container",
            Origin::ElasticBeanstalk => "AWS::ElasticBeanstalk::Environment",
        }
    }
}

/// An annotation or metadata value: bare text or a bare signed number.
#[derive(Debug)]
pub enum Value {
    String(String),
    Number(i64),
}

/// How a single character appears inside a JSON string literal.
pub open spec fn esc_char(c: char) -> Seq<char> {
    if c == '"' {
        seq!['\\', '"']
    } else if c == '\\' {
        seq!['\\', '\\']
    } else if c == '\u{8}' {
        seq!['\\', 'b']
    } else if c == '\u{9}' {
        seq!['\\', 't']
    } else if c == '\u{a}' {
        seq!['\\', 'n']
    } else if c == '\u{c}' {
        seq!['\\', 'f']
    } else if c == '\u{d}' {
        seq!['\\', 'r']
    } else if (c as u32) < 0x20 {
        seq!['\\', 'u', '0', '0', hex_char_of(c as int / 16), hex_char_of(c as int % 16)]
    } else {
        seq![c]
    }
}

/// The body of a JSON string literal for the given text.
pub open spec fn json_escape(s: Seq<char>) -> Seq<char>
    decreases s.len(),
{
    if s.len() == 0 {
        Seq::empty()
    } else {
        json_escape(s.drop_last()) + esc_char(s.last())
    }
}

/// A JSON string literal: quotes around the escaped text.
pub open spec fn json_string(s: Seq<char>) -> Seq<char> {
    seq!['"'] + json_escape(s) + seq!['"']
}

/// A JSON boolean literal.
pub open spec fn json_bool(b: bool) -> Seq<char> {
    if b {
        "true"@
    } else {
        "false"@
    }
}

/// A 64-bit id as a quoted, zero-padded, 16-digit lowercase hex string.
pub open spec fn json_hex16(v: u64) -> Seq<char> {
    seq!['"'] + hex_be(v as int, 16) + seq!['"']
}

/// A trace id in the document's packed form: the value shifted right by 12
/// bits as an 8-digit group, and its low 11 bits as a 12-digit group.
pub open spec fn json_trace_id(v: u128) -> Seq<char> {
    seq!['"', '1', '-'] + hex_min(v as int / 4096, 8) + seq!['-'] + hex_min(v as int % 2048, 12)
        + seq!['"']
}

/// The given object-member or array-element fragments joined with commas.
pub open spec fn joined(frags: Seq<Seq<char>>) -> Seq<char>
    decreases frags.len(),
{
    if frags.len() == 0 {
        Seq::empty()
    } else if frags.len() == 1 {
        frags[0]
    } else {
        joined(frags.drop_last()) + seq![','] + frags.last()
    }
}

/// Appending one more fragment appends a comma first unless the list was
/// empty.
pub proof fn lemma_joined_push(frags: Seq<Seq<char>>, f: Seq<char>)
    ensures
        joined(frags.push(f)) == if frags.len() == 0 {
            f
        } else {
            joined(frags) + seq![','] + f
        },
{
    let p = frags.push(f);
    if frags.len() == 0 {
        assert(p.len() == 1);
        assert(p[0] == f);
    } else {
        assert(p.drop_last() =~= frags);
        assert(p.last() == f);
    }
}

/// One emission step of an object member list: when the member is present,
/// a comma joins it to a non-empty list written so far; the written text
/// stays in step with `joined` over the member list.
pub proof fn lemma_member_step(
    base: Seq<char>,
    prev: Seq<char>,
    cur: Seq<char>,
    fprev: Seq<Seq<char>>,
    fnow: Seq<Seq<char>>,
    field: Seq<Seq<char>>,
)
    requires
        fnow == fprev + field,
        field.len() == 0 || field.len() == 1,
        prev == base + joined(fprev),
        cur == (if field.len() == 1 {
            (if fprev.len() == 0 {
                prev
            } else {
                prev.push(',')
            }) + field[0]
        } else {
            prev
        }),
    ensures
        cur == base + joined(fnow),
        (fnow.len() == 0) == (fprev.len() == 0 && field.len() == 0),
{
    if field.len() == 1 {
        assert(fnow =~= fprev.push(field[0]));
        lemma_joined_push(fprev, field[0]);
        if fprev.len() == 0 {
            assert(cur =~= base + joined(fnow));
        } else {
            assert(cur =~= base + joined(fnow));
        }
    } else {
        assert(fnow =~= fprev);
    }
}

/// One annotation or metadata entry: quoted key, colon, bare value.
pub open spec fn kv_frag(kv: (String, Value)) -> Seq<char> {
    json_string(kv.0@) + seq![':'] + value_json(kv.1)
}

/// A bare scalar per the value's tag: a string literal or a decimal number.
pub open spec fn value_json(v: Value) -> Seq<char> {
    match v {
        Value::String(s) => json_string(s@),
        Value::Number(n) => dec_i(n as int),
    }
}

/// A string-keyed object holding the entries in their stored order.
pub open spec fn kvs_json(l: Seq<(String, Value)>) -> Seq<char> {
    seq!['{'] + joined(l.map_values(|kv: (String, Value)| kv_frag(kv))) + seq!['}']
}

/// An array of 64-bit ids, each in the quoted 16-digit hex form.
pub open spec fn hexes_json(l: Seq<u64>) -> Seq<char> {
    seq!['['] + joined(l.map_values(|v: u64| json_hex16(v))) + seq![']']
}

/// Appends one character in its JSON string-literal form.
fn push_esc_char(out: &mut Vec<char>, c: char)
    ensures
        final(out)@ == old(out)@ + esc_char(c),
{
    let u: u32 = c as u32;
    if c == '"' {
        out.push('\\');
        out.push('"');
    } else if c == '\\' {
        out.push('\\');
        out.push('\\');
    } else if u == 0x8 {
        out.push('\\');
        out.push('b');
    } else if u == 0x9 {
        out.push('\\');
        out.push('t');
    } else if u == 0xa {
        out.push('\\');
        out.push('n');
    } else if u == 0xc {
        out.push('\\');
        out.push('f');
    } else if u == 0xd {
        out.push('\\');
        out.push('r');
    } else if u < 0x20 {
        out.push('\\');
        out.push('u');
        out.push('0');
        out.push('0');
        let hi = hex_char((u / 16) as u128);
        out.push(hi);
        let lo = hex_char((u % 16) as u128);
        out.push(lo);
    } else {
        out.push(c);
    }
    proof {
        assert(final(out)@ =~= old(out)@ + esc_char(c));
    }
}

/// Appends a JSON string literal for the given text.
fn push_json_str(out: &mut Vec<char>, s: &str)
    ensures
        final(out)@ == old(out)@ + json_string(s@),
{
    let ghost base = out@;
    out.push('"');
    let n: usize = s.unicode_len();
    let mut i: usize = 0;
    while i < n
        invariant
            i <= n,
            n == s@.len(),
            out@ == base + seq!['"'] + json_escape(s@.take(i as int)),
        decreases n - i,
    {
        let c = s.get_char(i);
        push_esc_char(out, c);
        proof {
            assert(s@.take(i as int + 1).drop_last() =~= s@.take(i as int));
            assert(s@.take(i as int + 1).last() == s@[i as int]);
        }
        i = i + 1;
    }
    out.push('"');
    proof {
        assert(s@.take(n as int) =~= s@);
        assert(final(out)@ =~= base + json_string(s@));
    }
}

/// Appends a JSON string literal for an owned string.
fn push_json_string(out: &mut Vec<char>, s: &String)
    ensures
        final(out)@ == old(out)@ + json_string(s@),
{
    push_json_str(out, s.as_str());
}

/// Appends a JSON boolean literal.
fn push_bool(out: &mut Vec<char>, b: bool)
    ensures
        final(out)@ == old(out)@ + json_bool(b),
{
    if b {
        push_str(out, "true");
    } else {
        push_str(out, "false");
    }
}

/// Relies on `hex::encode` over the big-endian bytes of the value: sixteen
/// lowercase hexadecimal digits, two per byte, highest byte first.
#[verifier::external_body]
fn hex_u64(v: u64) -> (r: String)
    ensures
        r@ == hex_be(v as int, 16),
{
    hex::encode(v.to_be_bytes())
}

/// Appends a 64-bit id as a quoted 16-digit lowercase hex string.
fn push_hex16(out: &mut Vec<char>, v: u64)
    ensures
        final(out)@ == old(out)@ + json_hex16(v),
{
    out.push('"');
    let s = hex_u64(v);
    push_str(out, s.as_str());
    out.push('"');
    proof {
        assert(final(out)@ =~= old(out)@ + json_hex16(v));
    }
}

/// Appends a trace id in the document's packed quoted form.
fn push_trace_id(out: &mut Vec<char>, v: u128)
    ensures
        final(out)@ == old(out)@ + json_trace_id(v),
{
    out.push('"');
    out.push('1');
    out.push('-');
    push_hex_min(out, v / 4096, 8);
    out.push('-');
    push_hex_min(out, v % 2048, 12);
    out.push('"');
    proof {
        assert(final(out)@ =~= old(out)@ + json_trace_id(v));
    }
}

/// Appends a bare scalar for an annotation or metadata value.
fn push_value(out: &mut Vec<char>, v: &Value)
    ensures
        final(out)@ == old(out)@ + value_json(*v),
{
    match v {
        Value::String(s) => push_json_string(out, s),
        Value::Number(n) => push_dec_i64(out, *n),
    }
}

/// Appends a string-keyed object holding the entries in order.
fn push_kvs(out: &mut Vec<char>, l: &Vec<(String, Value)>)
    ensures
        final(out)@ == old(out)@ + kvs_json(l@),
{
    let ghost base = out@;
    let ghost frags = l@.map_values(|kv: (String, Value)| kv_frag(kv));
    out.push('{');
    let mut i: usize = 0;
    while i < l.len()
        invariant
            i <= l.len(),
            frags == l@.map_values(|kv: (String, Value)| kv_frag(kv)),
            frags.len() == l@.len(),
            forall|j: int| 0 <= j < l@.len() ==> frags[j] == kv_frag(l@[j]),
            out@ == base + seq!['{'] + joined(frags.take(i as int)),
        decreases l.len() - i,
    {
        if i > 0 {
            out.push(',');
        }
        push_json_string(out, &l[i].0);
        out.push(':');
        push_value(out, &l[i].1);
        proof {
            assert(frags.take(i as int + 1) =~= frags.take(i as int).push(kv_frag(l@[i as int])));
            lemma_joined_push(frags.take(i as int), kv_frag(l@[i as int]));
            assert(out@ =~= base + seq!['{'] + joined(frags.take(i as int + 1)));
        }
        i = i + 1;
    }
    out.push('}');
    proof {
        assert(frags.take(l@.len() as int) =~= frags);
        assert(final(out)@ =~= old(out)@ + kvs_json(l@));
    }
}

/// Appends an array of 64-bit ids in the quoted hex form.
fn push_hexes(out: &mut Vec<char>, l: &Vec<u64>)
    ensures
        final(out)@ == old(out)@ + hexes_json(l@),
{
    let ghost base = out@;
    let ghost frags = l@.map_values(|v: u64| json_hex16(v));
    out.push('[');
    let mut i: usize = 0;
    while i < l.len()
        invariant
            i <= l.len(),
            frags == l@.map_values(|v: u64| json_hex16(v)),
            frags.len() == l@.len(),
            forall|j: int| 0 <= j < l@.len() ==> frags[j] == json_hex16(l@[j]),
            out@ == base + seq!['['] + joined(frags.take(i as int)),
        decreases l.len() - i,
    {
        if i > 0 {
            out.push(',');
        }
        push_hex16(out, l[i]);
        proof {
            assert(frags.take(i as int + 1) =~= frags.take(i as int).push(json_hex16(l@[i as int])));
            lemma_joined_push(frags.take(i as int), json_hex16(l@[i as int]));
            assert(out@ =~= base + seq!['['] + joined(frags.take(i as int + 1)));
        }
        i = i + 1;
    }
    out.push(']');
    proof {
        assert(frags.take(l@.len() as int) =~= frags);
        assert(final(out)@ =~= old(out)@ + hexes_json(l@));
    }
}

/// Whether no two entries of an annotation or metadata list share a key,
/// so that the object they serialize to has no repeated member.
pub open spec fn distinct_keys(entries: Seq<(String, Value)>) -> bool {
    forall|i: int, j: int| 0 <= i < j < entries.len() ==> entries[i].0@ != entries[j].0@
}

/// The JSON object for a free-standing list of annotation or metadata
/// entries, exactly as it appears inside a segment document. Callers hand
/// in one entry per key; a repeated key would repeat the member.
pub fn value_map_json(entries: &Vec<(String, Value)>) -> (r: String)
    requires
        distinct_keys(entries@),
    ensures
        r@ == kvs_json(entries@),
{
    let mut out: Vec<char> = Vec::new();
    push_kvs(&mut out, entries);
    string_of(out)
}

/// A singleton member list when the member is present, else no member.
pub open spec fn opt_frag(present: bool, frag: Seq<char>) -> Seq<Seq<char>> {
    if present {
        seq![frag]
    } else {
        seq![]
    }
}

/// Information about an Amazon ECS container.
#[derive(Debug)]
pub struct AWSECS {
    /// The container ID of the container running the application.
    pub container: Option<String>,
}

/// The rendering of an ECS object: its one member only when present.
pub open spec fn awsecs_json(x: AWSECS) -> Seq<char> {
    seq!['{'] + (if x.container is Some {
        "\"container\":"@ + json_string(x.container->0@)
    } else {
        Seq::empty()
    }) + seq!['}']
}

impl AWSECS {
    fn write_json(&self, out: &mut Vec<char>)
        ensures
            final(out)@ == old(out)@ + awsecs_json(*self),
    {
        out.push('{');
        if let Some(v) = &self.container {
            push_str(out, "\"container\":");
            push_json_string(out, v);
        }
        out.push('}');
        proof {
            assert(final(out)@ =~= old(out)@ + awsecs_json(*self));
        }
    }
}

/// Information about an EC2 instance.
#[derive(Debug)]
pub struct AWSEC2 {
    /// The Availability Zone in which the instance is running.
    pub availability_zone: Option<String>,
    /// The instance ID of the EC2 instance.
    pub instance_id: Option<String>,
}

/// The members of an EC2 object, in declared order, present ones only.
pub open spec fn awsec2_field(x: AWSEC2, i: int) -> Seq<Seq<char>> {
    if i == 0 {
        opt_frag(
            x.availability_zone is Some,
            "\"availability_zone\":"@ + json_string(x.availability_zone->0@),
        )
    } else {
        opt_frag(x.instance_id is Some, "\"instance_id\":"@ + json_string(x.instance_id->0@))
    }
}

/// The first `k` members of an EC2 object.
pub open spec fn awsec2_frags(x: AWSEC2, k: int) -> Seq<Seq<char>>
    decreases k,
{
    if k <= 0 {
        seq![]
    } else {
        awsec2_frags(x, k - 1) + awsec2_field(x, k - 1)
    }
}

/// The rendering of an EC2 object.
pub open spec fn awsec2_json(x: AWSEC2) -> Seq<char> {
    seq!['{'] + joined(awsec2_frags(x, 2)) + seq!['}']
}

impl AWSEC2 {
    fn write_json(&self, out: &mut Vec<char>)
        ensures
            final(out)@ == old(out)@ + awsec2_json(*self),
    {
        let ghost base = out@;
        out.push('{');
        let mut first: bool = true;
        if let Some(v) = &self.availability_zone {
            if !first {
                out.push(',');
            }
            push_str(out, "\"availability_zone\":");
            push_json_string(out, v);
            first = false;
        }
        proof {
            if self.availability_zone is Some {
                let f = "\"availability_zone\":"@ + json_string(self.availability_zone->0@);
                assert(awsec2_frags(*self, 1) =~= awsec2_frags(*self, 0).push(f));
                lemma_joined_push(awsec2_frags(*self, 0), f);
            } else {
                assert(awsec2_frags(*self, 1) =~= awsec2_frags(*self, 0));
            }
            assert(out@ =~= base + seq!['{'] + joined(awsec2_frags(*self, 1)));
            assert(first == (awsec2_frags(*self, 1).len() == 0));
        }
        if let Some(v) = &self.instance_id {
            if !first {
                out.push(',');
            }
            push_str(out, "\"instance_id\":");
            push_json_string(out, v);
            first = false;
        }
        proof {
            if self.instance_id is Some {
                let f = "\"instance_id\":"@ + json_string(self.instance_id->0@);
                assert(awsec2_frags(*self, 2) =~= awsec2_frags(*self, 1).push(f));
                lemma_joined_push(awsec2_frags(*self, 1), f);
            } else {
                assert(awsec2_frags(*self, 2) =~= awsec2_frags(*self, 1));
            }
            assert(out@ =~= base + seq!['{'] + joined(awsec2_frags(*self, 2)));
        }
        out.push('}');
        proof {
            assert(final(out)@ =~= old(out)@ + awsec2_json(*self));
        }
    }
}

/// Information about an Elastic Beanstalk environment.
#[derive(Debug)]
pub struct AWSElasticBeanstalk {
    /// Number of the last successful deployment to the instance that served
    /// the request.
    pub deployment_id: Option<u64>,
    /// The name of the environment.
    pub environment_name: Option<String>,
    /// The name of the application version currently deployed to the
    /// instance that served the request.
    pub version_label: Option<String>,
}

/// The members of an Elastic Beanstalk object, in declared order.
pub open spec fn awseb_field(x: AWSElasticBeanstalk, i: int) -> Seq<Seq<char>> {
    if i == 0 {
        opt_frag(x.deployment_id is Some, "\"deployment_id\":"@ + dec_u(x.deployment_id->0 as int))
    } else if i == 1 {
        opt_frag(
            x.environment_name is Some,
            "\"environment_name\":"@ + json_string(x.environment_name->0@),
        )
    } else {
        opt_frag(x.version_label is Some, "\"version_label\":"@ + json_string(x.version_label->0@))
    }
}

/// The first `k` members of an Elastic Beanstalk object.
pub open spec fn awseb_frags(x: AWSElasticBeanstalk, k: int) -> Seq<Seq<char>>
    decreases k,
{
    if k <= 0 {
        seq![]
    } else {
        awseb_frags(x, k - 1) + awseb_field(x, k - 1)
    }
}

/// The rendering of an Elastic Beanstalk object.
pub open spec fn awseb_json(x: AWSElasticBeanstalk) -> Seq<char> {
    seq!['{'] + joined(awseb_frags(x, 3)) + seq!['}']
}

impl AWSElasticBeanstalk {
    fn write_json(&self, out: &mut Vec<char>)
        ensures
            final(out)@ == old(out)@ + awseb_json(*self),
    {
        let ghost base = out@;
        out.push('{');
        let mut first: bool = true;
        if let Some(v) = &self.deployment_id {
            if !first {
                out.push(',');
            }
            push_str(out, "\"deployment_id\":");
            push_dec_u64(out, *v);
            first = false;
        }
        proof {
            if self.deployment_id is Some {
                let f = "\"deployment_id\":"@ + dec_u(self.deployment_id->0 as int);
                assert(awseb_frags(*self, 1) =~= awseb_frags(*self, 0).push(f));
                lemma_joined_push(awseb_frags(*self, 0), f);
            } else {
                assert(awseb_frags(*self, 1) =~= awseb_frags(*self, 0));
            }
            assert(out@ =~= base + seq!['{'] + joined(awseb_frags(*self, 1)));
            assert(first == (awseb_frags(*self, 1).len() == 0));
        }
        if let Some(v) = &self.environment_name {
            if !first {
                out.push(',');
            }
            push_str(out, "\"environment_name\":");
            push_json_string(out, v);
            first = false;
        }
        proof {
            if self.environment_name is Some {
                let f = "\"environment_name\":"@ + json_string(self.environment_name->0@);
                assert(awseb_frags(*self, 2) =~= awseb_frags(*self, 1).push(f));
                lemma_joined_push(awseb_frags(*self, 1), f);
            } else {
                assert(awseb_frags(*self, 2) =~= awseb_frags(*self, 1));
            }
            assert(out@ =~= base + seq!['{'] + joined(awseb_frags(*self, 2)));
            assert(first == (awseb_frags(*self, 2).len() == 0));
        }
        if let Some(v) = &self.version_label {
            if !first {
                out.push(',');
            }
            push_str(out, "\"version_label\":");
            push_json_string(out, v);
            first = false;
        }
        proof {
            if self.version_label is Some {
                let f = "\"version_label\":"@ + json_string(self.version_label->0@);
                assert(awseb_frags(*self, 3) =~= awseb_frags(*self, 2).push(f));
                lemma_joined_push(awseb_frags(*self, 2), f);
            } else {
                assert(awseb_frags(*self, 3) =~= awseb_frags(*self, 2));
            }
            assert(out@ =~= base + seq!['{'] + joined(awseb_frags(*self, 3)));
        }
        out.push('}');
        proof {
            assert(final(out)@ =~= old(out)@ + awseb_json(*self));
        }
    }
}

/// Information about the publisher of the segment documents.
#[derive(Debug)]
pub struct AWSXRay {
    /// Identifies this library as the publisher.
    pub sdk: String,
}

/// The rendering of the publisher object: its one member, always present.
pub open spec fn awsxray_json(x: AWSXRay) -> Seq<char> {
    seq!['{'] + "\"sdk\":"@ + json_string(x.sdk@) + seq!['}']
}

impl AWSXRay {
    fn write_json(&self, out: &mut Vec<char>)
        ensures
            final(out)@ == old(out)@ + awsxray_json(*self),
    {
        out.push('{');
        push_str(out, "\"sdk\":");
        push_json_string(out, &self.sdk);
        out.push('}');
        proof {
            assert(final(out)@ =~= old(out)@ + awsxray_json(*self));
        }
    }
}

/// Information about the resource the application runs on and, for
/// subsegments, the downstream resource it called.
#[derive(Debug)]
pub struct AWS {
    /// The ID of the account that owns the accessed resource, when it
    /// differs from the reporting one.
    pub account_id: Option<String>,
    /// Information about an Amazon ECS container.
    pub ecs: Option<AWSECS>,
    /// Information about an EC2 instance.
    pub ec2: Option<AWSEC2>,
    /// Information about an Elastic Beanstalk environment.
    pub elastic_beanstalk: Option<AWSElasticBeanstalk>,
    /// The publisher of the document.
    pub xray: AWSXRay,
    /// The name of the API action invoked against an AWS service.
    pub operation: Option<String>,
    /// The region of the resource, when it differs from the application's.
    pub region: Option<String>,
    /// Unique identifier for the request.
    pub request_id: Option<String>,
    /// For operations on an Amazon SQS queue, the queue's URL.
    pub queue_url: Option<String>,
    /// For operations on a DynamoDB table, the name of the table.
    pub table_name: Option<String>,
}

/// The members of the resource object, in declared order; the publisher
/// member is always present.
pub open spec fn aws_field(x: AWS, i: int) -> Seq<Seq<char>> {
    if i == 0 {
        opt_frag(x.account_id is Some, "\"account_id\":"@ + json_string(x.account_id->0@))
    } else if i == 1 {
        opt_frag(x.ecs is Some, "\"ecs\":"@ + awsecs_json(x.ecs->0))
    } else if i == 2 {
        opt_frag(x.ec2 is Some, "\"ec2\":"@ + awsec2_json(x.ec2->0))
    } else if i == 3 {
        opt_frag(
            x.elastic_beanstalk is Some,
            "\"elastic_beanstalk\":"@ + awseb_json(x.elastic_beanstalk->0),
        )
    } else if i == 4 {
        seq!["\"xray\":"@ + awsxray_json(x.xray)]
    } else if i == 5 {
        opt_frag(x.operation is Some, "\"operation\":"@ + json_string(x.operation->0@))
    } else if i == 6 {
        opt_frag(x.region is Some, "\"region\":"@ + json_string(x.region->0@))
    } else if i == 7 {
        opt_frag(x.request_id is Some, "\"request_id\":"@ + json_string(x.request_id->0@))
    } else if i == 8 {
        opt_frag(x.queue_url is Some, "\"queue_url\":"@ + json_string(x.queue_url->0@))
    } else {
        opt_frag(x.table_name is Some, "\"table_name\":"@ + json_string(x.table_name->0@))
    }
}

/// The first `k` members of the resource object.
pub open spec fn aws_frags(x: AWS, k: int) -> Seq<Seq<char>>
    decreases k,
{
    if k <= 0 {
        seq![]
    } else {
        aws_frags(x, k - 1) + aws_field(x, k - 1)
    }
}

/// The rendering of the resource object.
pub open spec fn aws_json(x: AWS) -> Seq<char> {
    seq!['{'] + joined(aws_frags(x, 10)) + seq!['}']
}

impl AWS {
    #[verifier::rlimit(100)]
    fn write_json(&self, out: &mut Vec<char>)
        ensures
            final(out)@ == old(out)@ + aws_json(*self),
    {
        let ghost base = out@;
        out.push('{');
        let ghost b2 = base + seq!['{'];
        proof {
            assert(out@ =~= b2 + joined(aws_frags(*self, 0)));
        }
        let mut first: bool = true;
        let ghost p1 = out@;
        if let Some(v) = &self.account_id {
            if !first {
                out.push(',');
            }
            push_str(out, "\"account_id\":");
            push_json_string(out, v);
            first = false;
        }
        proof {
            if self.account_id is Some {
                assert(out@ =~= (if aws_frags(*self, 0).len() == 0 {
                    p1
                } else {
                    p1.push(',')
                }) + ("\"account_id\":"@ + json_string(self.account_id->0@)));
            }
            lemma_member_step(
                b2,
                p1,
                out@,
                aws_frags(*self, 0),
                aws_frags(*self, 1),
                aws_field(*self, 0),
            );
            assert(first == (aws_frags(*self, 1).len() == 0));
        }
        let ghost p2 = out@;
        if let Some(v) = &self.ecs {
            if !first {
                out.push(',');
            }
            push_str(out, "\"ecs\":");
            v.write_json(out);
            first = false;
        }
        proof {
            if self.ecs is Some {
                assert(out@ =~= (if aws_frags(*self, 1).len() == 0 {
                    p2
                } else {
                    p2.push(',')
                }) + ("\"ecs\":"@ + awsecs_json(self.ecs->0)));
            }
            lemma_member_step(
                b2,
                p2,
                out@,
                aws_frags(*self, 1),
                aws_frags(*self, 2),
                aws_field(*self, 1),
            );
            assert(first == (aws_frags(*self, 2).len() == 0));
        }
        let ghost p3 = out@;
        if let Some(v) = &self.ec2 {
            if !first {
                out.push(',');
            }
            push_str(out, "\"ec2\":");
            v.write_json(out);
            first = false;
        }
        proof {
            if self.ec2 is Some {
                assert(out@ =~= (if aws_frags(*self, 2).len() == 0 {
                    p3
                } else {
                    p3.push(',')
                }) + ("\"ec2\":"@ + awsec2_json(self.ec2->0)));
            }
            lemma_member_step(
                b2,
                p3,
                out@,
                aws_frags(*self, 2),
                aws_frags(*self, 3),
                aws_field(*self, 2),
            );
            assert(first == (aws_frags(*self, 3).len() == 0));
        }
        let ghost p4 = out@;
        if let Some(v) = &self.elastic_beanstalk {
            if !first {
                out.push(',');
            }
            push_str(out, "\"elastic_beanstalk\":");
            v.write_json(out);
            first = false;
        }
        proof {
            if self.elastic_beanstalk is Some {
                assert(out@ =~= (if aws_frags(*self, 3).len() == 0 {
                    p4
                } else {
                    p4.push(',')
                }) + ("\"elastic_beanstalk\":"@ + awseb_json(self.elastic_beanstalk->0)));
            }
            lemma_member_step(
                b2,
                p4,
                out@,
                aws_frags(*self, 3),
                aws_frags(*self, 4),
                aws_field(*self, 3),
            );
            assert(first == (aws_frags(*self, 4).len() == 0));
        }
        let ghost p5 = out@;
        if !first {
            out.push(',');
        }
        push_str(out, "\"xray\":");
        self.xray.write_json(out);
        first = false;
        proof {
            assert(out@ =~= (if aws_frags(*self, 4).len() == 0 {
                p5
            } else {
                p5.push(',')
            }) + ("\"xray\":"@ + awsxray_json(self.xray)));
            lemma_member_step(
                b2,
                p5,
                out@,
                aws_frags(*self, 4),
                aws_frags(*self, 5),
                aws_field(*self, 4),
            );
            assert(first == (aws_frags(*self, 5).len() == 0));
        }
        self.write_json_rest(out, first, Ghost(b2));
        out.push('}');
        proof {
            assert(final(out)@ =~= base + aws_json(*self));
        }
    }

    /// Continues the member emission from the `operation` member on.
    #[verifier::rlimit(100)]
    fn write_json_rest(&self, out: &mut Vec<char>, first0: bool, Ghost(b2): Ghost<Seq<char>>)
        requires
            old(out)@ == b2 + joined(aws_frags(*self, 5)),
            first0 == (aws_frags(*self, 5).len() == 0),
        ensures
            final(out)@ == b2 + joined(aws_frags(*self, 10)),
    {
        let mut first: bool = first0;
        let ghost p6 = out@;
        if let Some(v) = &self.operation {
            if !first {
                out.push(',');
            }
            push_str(out, "\"operation\":");
            push_json_string(out, v);
            first = false;
        }
        proof {
            if self.operation is Some {
                assert(out@ =~= (if aws_frags(*self, 5).len() == 0 {
                    p6
                } else {
                    p6.push(',')
                }) + ("\"operation\":"@ + json_string(self.operation->0@)));
            }
            lemma_member_step(
                b2,
                p6,
                out@,
                aws_frags(*self, 5),
                aws_frags(*self, 6),
                aws_field(*self, 5),
            );
            assert(first == (aws_frags(*self, 6).len() == 0));
        }
        let ghost p7 = out@;
        if let Some(v) = &self.region {
            if !first {
                out.push(',');
            }
            push_str(out, "\"region\":");
            push_json_string(out, v);
            first = false;
        }
        proof {
            if self.region is Some {
                assert(out@ =~= (if aws_frags(*self, 6).len() == 0 {
                    p7
                } else {
                    p7.push(',')
                }) + ("\"region\":"@ + json_string(self.region->0@)));
            }
            lemma_member_step(
                b2,
                p7,
                out@,
                aws_frags(*self, 6),
                aws_frags(*self, 7),
                aws_field(*self, 6),
            );
            assert(first == (aws_frags(*self, 7).len() == 0));
        }
        let ghost p8 = out@;
        if let Some(v) = &self.request_id {
            if !first {
                out.push(',');
            }
            push_str(out, "\"request_id\":");
            push_json_string(out, v);
            first = false;
        }
        proof {
            if self.request_id is Some {
                assert(out@ =~= (if aws_frags(*self, 7).len() == 0 {
                    p8
                } else {
                    p8.push(',')
                }) + ("\"request_id\":"@ + json_string(self.request_id->0@)));
            }
            lemma_member_step(
                b2,
                p8,
                out@,
                aws_frags(*self, 7),
                aws_frags(*self, 8),
                aws_field(*self, 7),
            );
            assert(first == (aws_frags(*self, 8).len() == 0));
        }
        let ghost p9 = out@;
        if let Some(v) = &self.queue_url {
            if !first {
                out.push(',');
            }
            push_str(out, "\"queue_url\":");
            push_json_string(out, v);
            first = false;
        }
        proof {
            if self.queue_url is Some {
                assert(out@ =~= (if aws_frags(*self, 8).len() == 0 {
                    p9
                } else {
                    p9.push(',')
                }) + ("\"queue_url\":"@ + json_string(self.queue_url->0@)));
            }
            lemma_member_step(
                b2,
                p9,
                out@,
                aws_frags(*self, 8),
                aws_frags(*self, 9),
                aws_field(*self, 8),
            );
            assert(first == (aws_frags(*self, 9).len() == 0));
        }
        let ghost p10 = out@;
        if let Some(v) = &self.table_name {
            if !first {
                out.push(',');
            }
            push_str(out, "\"table_name\":");
            push_json_string(out, v);
            first = false;
        }
        proof {
            if self.table_name is Some {
                assert(out@ =~= (if aws_frags(*self, 9).len() == 0 {
                    p10
                } else {
                    p10.push(',')
                }) + ("\"table_name\":"@ + json_string(self.table_name->0@)));
            }
            lemma_member_step(
                b2,
                p10,
                out@,
                aws_frags(*self, 9),
                aws_frags(*self, 10),
                aws_field(*self, 9),
            );
            assert(first == (aws_frags(*self, 10).len() == 0));
        }
    }
}

/// Information about the incoming HTTP request being traced.
#[derive(Debug)]
pub struct HttpRequest {
    pub client_ip: Option<String>,
    pub method: Option<String>,
    pub traced: Option<bool>,
    pub url: Option<String>,
    pub user_agent: Option<String>,
    pub x_forwarded_for: Option<bool>,
}

/// The members of a request object, in declared order, present ones only.
pub open spec fn httpreq_field(x: HttpRequest, i: int) -> Seq<Seq<char>> {
    if i == 0 {
        opt_frag(x.client_ip is Some, "\"client_ip\":"@ + json_string(x.client_ip->0@))
    } else if i == 1 {
        opt_frag(x.method is Some, "\"method\":"@ + json_string(x.method->0@))
    } else if i == 2 {
        opt_frag(x.traced is Some, "\"traced\":"@ + json_bool(x.traced->0))
    } else if i == 3 {
        opt_frag(x.url is Some, "\"url\":"@ + json_string(x.url->0@))
    } else if i == 4 {
        opt_frag(x.user_agent is Some, "\"user_agent\":"@ + json_string(x.user_agent->0@))
    } else {
        opt_frag(x.x_forwarded_for is Some, "\"x_forwarded_for\":"@ + json_bool(x.x_forwarded_for->0))
    }
}

/// The first `k` members of a request object.
pub open spec fn httpreq_frags(x: HttpRequest, k: int) -> Seq<Seq<char>>
    decreases k,
{
    if k <= 0 {
        seq![]
    } else {
        httpreq_frags(x, k - 1) + httpreq_field(x, k - 1)
    }
}

/// The rendering of a request object.
pub open spec fn httpreq_json(x: HttpRequest) -> Seq<char> {
    seq!['{'] + joined(httpreq_frags(x, 6)) + seq!['}']
}

impl HttpRequest {
    fn write_json(&self, out: &mut Vec<char>)
        ensures
            final(out)@ == old(out)@ + httpreq_json(*self),
    {
        let ghost base = out@;
        out.push('{');
        let ghost b2 = base + seq!['{'];
        proof {
            assert(out@ =~= b2 + joined(httpreq_frags(*self, 0)));
        }
        let mut first: bool = true;
        let ghost p1 = out@;
        if let Some(v) = &self.client_ip {
            if !first {
                out.push(',');
            }
            push_str(out, "\"client_ip\":");
            push_json_string(out, v);
            first = false;
        }
        proof {
            if self.client_ip is Some {
                assert(out@ =~= (if httpreq_frags(*self, 0).len() == 0 {
                    p1
                } else {
                    p1.push(',')
                }) + ("\"client_ip\":"@ + json_string(self.client_ip->0@)));
            }
            lemma_member_step(
                b2,
                p1,
                out@,
                httpreq_frags(*self, 0),
                httpreq_frags(*self, 1),
                httpreq_field(*self, 0),
            );
            assert(first == (httpreq_frags(*self, 1).len() == 0));
        }
        let ghost p2 = out@;
        if let Some(v) = &self.method {
            if !first {
                out.push(',');
            }
            push_str(out, "\"method\":");
            push_json_string(out, v);
            first = false;
        }
        proof {
            if self.method is Some {
                assert(out@ =~= (if httpreq_frags(*self, 1).len() == 0 {
                    p2
                } else {
                    p2.push(',')
                }) + ("\"method\":"@ + json_string(self.method->0@)));
            }
            lemma_member_step(
                b2,
                p2,
                out@,
                httpreq_frags(*self, 1),
                httpreq_frags(*self, 2),
                httpreq_field(*self, 1),
            );
            assert(first == (httpreq_frags(*self, 2).len() == 0));
        }
        let ghost p3 = out@;
        if let Some(v) = &self.traced {
            if !first {
                out.push(',');
            }
            push_str(out, "\"traced\":");
            push_bool(out, *v);
            first = false;
        }
        proof {
            if self.traced is Some {
                assert(out@ =~= (if httpreq_frags(*self, 2).len() == 0 {
                    p3
                } else {
                    p3.push(',')
                }) + ("\"traced\":"@ + json_bool(self.traced->0)));
            }
            lemma_member_step(
                b2,
                p3,
                out@,
                httpreq_frags(*self, 2),
                httpreq_frags(*self, 3),
                httpreq_field(*self, 2),
            );
            assert(first == (httpreq_frags(*self, 3).len() == 0));
        }
        self.write_json_rest(out, first, Ghost(b2));
        out.push('}');
        proof {
            assert(final(out)@ =~= base + httpreq_json(*self));
        }
    }

    /// Continues the member emission from the `url` member on.
    fn write_json_rest(&self, out: &mut Vec<char>, first0: bool, Ghost(b2): Ghost<Seq<char>>)
        requires
            old(out)@ == b2 + joined(httpreq_frags(*self, 3)),
            first0 == (httpreq_frags(*self, 3).len() == 0),
        ensures
            final(out)@ == b2 + joined(httpreq_frags(*self, 6)),
    {
        let mut first: bool = first0;
        let ghost p4 = out@;
        if let Some(v) = &self.url {
            if !first {
                out.push(',');
            }
            push_str(out, "\"url\":");
            push_json_string(out, v);
            first = false;
        }
        proof {
            if self.url is Some {
                assert(out@ =~= (if httpreq_frags(*self, 3).len() == 0 {
                    p4
                } else {
                    p4.push(',')
                }) + ("\"url\":"@ + json_string(self.url->0@)));
            }
            lemma_member_step(
                b2,
                p4,
                out@,
                httpreq_frags(*self, 3),
                httpreq_frags(*self, 4),
                httpreq_field(*self, 3),
            );
            assert(first == (httpreq_frags(*self, 4).len() == 0));
        }
        let ghost p5 = out@;
        if let Some(v) = &self.user_agent {
            if !first {
                out.push(',');
            }
            push_str(out, "\"user_agent\":");
            push_json_string(out, v);
            first = false;
        }
        proof {
            if self.user_agent is Some {
                assert(out@ =~= (if httpreq_frags(*self, 4).len() == 0 {
                    p5
                } else {
                    p5.push(',')
                }) + ("\"user_agent\":"@ + json_string(self.user_agent->0@)));
            }
            lemma_member_step(
                b2,
                p5,
                out@,
                httpreq_frags(*self, 4),
                httpreq_frags(*self, 5),
                httpreq_field(*self, 4),
            );
            assert(first == (httpreq_frags(*self, 5).len() == 0));
        }
        let ghost p6 = out@;
        if let Some(v) = &self.x_forwarded_for {
            if !first {
                out.push(',');
            }
            push_str(out, "\"x_forwarded_for\":");
            push_bool(out, *v);
            first = false;
        }
        proof {
            if self.x_forwarded_for is Some {
                assert(out@ =~= (if httpreq_frags(*self, 5).len() == 0 {
                    p6
                } else {
                    p6.push(',')
                }) + ("\"x_forwarded_for\":"@ + json_bool(self.x_forwarded_for->0)));
            }
            lemma_member_step(
                b2,
                p6,
                out@,
                httpreq_frags(*self, 5),
                httpreq_frags(*self, 6),
                httpreq_field(*self, 5),
            );
            assert(first == (httpreq_frags(*self, 6).len() == 0));
        }
    }
}

/// Information about the response to the traced request.
#[derive(Debug)]
pub struct HttpResponse {
    pub content_length: Option<i32>,
    pub status: Option<i8>,
}

/// The members of a response object, in declared order, present ones only.
pub open spec fn httpresp_field(x: HttpResponse, i: int) -> Seq<Seq<char>> {
    if i == 0 {
        opt_frag(
            x.content_length is Some,
            "\"content_length\":"@ + dec_i(x.content_length->0 as int),
        )
    } else {
        opt_frag(x.status is Some, "\"status\":"@ + dec_i(x.status->0 as int))
    }
}

/// The first `k` members of a response object.
pub open spec fn httpresp_frags(x: HttpResponse, k: int) -> Seq<Seq<char>>
    decreases k,
{
    if k <= 0 {
        seq![]
    } else {
        httpresp_frags(x, k - 1) + httpresp_field(x, k - 1)
    }
}

/// The rendering of a response object.
pub open spec fn httpresp_json(x: HttpResponse) -> Seq<char> {
    seq!['{'] + joined(httpresp_frags(x, 2)) + seq!['}']
}

impl HttpResponse {
    fn write_json(&self, out: &mut Vec<char>)
        ensures
            final(out)@ == old(out)@ + httpresp_json(*self),
    {
        let ghost base = out@;
        out.push('{');
        let mut first: bool = true;
        if let Some(v) = &self.content_length {
            if !first {
                out.push(',');
            }
            push_str(out, "\"content_length\":");
            push_dec_i64(out, *v as i64);
            first = false;
        }
        proof {
            if self.content_length is Some {
                let f = "\"content_length\":"@ + dec_i(self.content_length->0 as int);
                assert(httpresp_frags(*self, 1) =~= httpresp_frags(*self, 0).push(f));
                lemma_joined_push(httpresp_frags(*self, 0), f);
            } else {
                assert(httpresp_frags(*self, 1) =~= httpresp_frags(*self, 0));
            }
            assert(out@ =~= base + seq!['{'] + joined(httpresp_frags(*self, 1)));
            assert(first == (httpresp_frags(*self, 1).len() == 0));
        }
        if let Some(v) = &self.status {
            if !first {
                out.push(',');
            }
            push_str(out, "\"status\":");
            push_dec_i64(out, *v as i64);
            first = false;
        }
        proof {
            if self.status is Some {
                let f = "\"status\":"@ + dec_i(self.status->0 as int);
                assert(httpresp_frags(*self, 2) =~= httpresp_frags(*self, 1).push(f));
                lemma_joined_push(httpresp_frags(*self, 1), f);
            } else {
                assert(httpresp_frags(*self, 2) =~= httpresp_frags(*self, 1));
            }
            assert(out@ =~= base + seq!['{'] + joined(httpresp_frags(*self, 2)));
        }
        out.push('}');
        proof {
            assert(final(out)@ =~= old(out)@ + httpresp_json(*self));
        }
    }
}

/// Information about an HTTP call: the request seen and the response given.
#[derive(Debug)]
pub struct Http {
    pub request: Option<HttpRequest>,
    pub response: Option<HttpResponse>,
}

/// The members of an HTTP object, in declared order, present ones only.
pub open spec fn http_field(x: Http, i: int) -> Seq<Seq<char>> {
    if i == 0 {
        opt_frag(x.request is Some, "\"request\":"@ + httpreq_json(x.request->0))
    } else {
        opt_frag(x.response is Some, "\"response\":"@ + httpresp_json(x.response->0))
    }
}

/// The first `k` members of an HTTP object.
pub open spec fn http_frags(x: Http, k: int) -> Seq<Seq<char>>
    decreases k,
{
    if k <= 0 {
        seq![]
    } else {
        http_frags(x, k - 1) + http_field(x, k - 1)
    }
}

/// The rendering of an HTTP object.
pub open spec fn http_json(x: Http) -> Seq<char> {
    seq!['{'] + joined(http_frags(x, 2)) + seq!['}']
}

impl Http {
    fn write_json(&self, out: &mut Vec<char>)
        ensures
            final(out)@ == old(out)@ + http_json(*self),
    {
        let ghost base = out@;
        out.push('{');
        let mut first: bool = true;
        if let Some(v) = &self.request {
            if !first {
                out.push(',');
            }
            push_str(out, "\"request\":");
            v.write_json(out);
            first = false;
        }
        proof {
            if self.request is Some {
                let f = "\"request\":"@ + httpreq_json(self.request->0);
                assert(http_frags(*self, 1) =~= http_frags(*self, 0).push(f));
                lemma_joined_push(http_frags(*self, 0), f);
            } else {
                assert(http_frags(*self, 1) =~= http_frags(*self, 0));
            }
            assert(out@ =~= base + seq!['{'] + joined(http_frags(*self, 1)));
            assert(first == (http_frags(*self, 1).len() == 0));
        }
        if let Some(v) = &self.response {
            if !first {
                out.push(',');
            }
            push_str(out, "\"response\":");
            v.write_json(out);
            first = false;
        }
        proof {
            if self.response is Some {
                let f = "\"response\":"@ + httpresp_json(self.response->0);
                assert(http_frags(*self, 2) =~= http_frags(*self, 1).push(f));
                lemma_joined_push(http_frags(*self, 1), f);
            } else {
                assert(http_frags(*self, 2) =~= http_frags(*self, 1));
            }
            assert(out@ =~= base + seq!['{'] + joined(http_frags(*self, 2)));
        }
        out.push('}');
        proof {
            assert(final(out)@ =~= old(out)@ + http_json(*self));
        }
    }
}

/// A node of the document tree: one traced operation, its descriptive and
/// timing attributes, and the subsegments it encloses. It owns its children
/// exclusively; a tree is built once, serialized once, and discarded.
#[derive(Debug)]
pub struct Segment {
    /// Key-value pairs the backend indexes for search.
    pub annotations: Option<Vec<(String, Value)>>,
    /// Information about the downstream AWS resource the application called.
    pub aws: Option<AWS>,
    /// When the traced operation ended, in whole epoch seconds.
    pub end_time: u64,
    /// Information about an outgoing HTTP call.
    pub http: Option<Http>,
    /// The 64-bit identifier of this node.
    pub id: u64,
    /// Whether the operation was still in progress when reported.
    pub is_progress: bool,
    /// Any additional data to store with the segment.
    pub metadata: Option<Vec<(String, Value)>>,
    /// The logical name of the service that handled the operation.
    pub name: String,
    /// The kind of resource the application runs on.
    pub origin: Option<Origin>,
    /// Subsegments with the same parent that completed before this one.
    pub precursor_ids: Option<Vec<u64>>,
    pub service: Option<String>,
    pub user: Option<String>,
    /// The id of the parent node; rendered as a JSON null when absent.
    pub parent_id: Option<u64>,
    /// When the traced operation began, in whole epoch seconds.
    pub start_time: u64,
    /// The enclosed subsegments; the member is omitted when there are none.
    pub subsegments: Vec<Segment>,
    /// The trace this node belongs to, in the packed document form.
    pub trace_id: Option<u128>,
}

/// The member of a segment object at each schema position, in declared
/// order; absent optional members contribute nothing, while `parent_id`
/// always appears, as a JSON null when unset.
pub open spec fn seg_field(s: Segment, i: int) -> Seq<Seq<char>>
    decreases s, 1int, 0int,
{
    if i == 0 {
        opt_frag(s.annotations is Some, "\"annotations\":"@ + kvs_json(s.annotations->0@))
    } else if i == 1 {
        opt_frag(s.aws is Some, "\"aws\":"@ + aws_json(s.aws->0))
    } else if i == 2 {
        seq!["\"end_time\":"@ + dec_u(s.end_time as int)]
    } else if i == 3 {
        opt_frag(s.http is Some, "\"http\":"@ + http_json(s.http->0))
    } else if i == 4 {
        seq!["\"id\":"@ + json_hex16(s.id)]
    } else if i == 5 {
        seq!["\"is_progress\":"@ + json_bool(s.is_progress)]
    } else if i == 6 {
        opt_frag(s.metadata is Some, "\"metadata\":"@ + kvs_json(s.metadata->0@))
    } else if i == 7 {
        seq!["\"name\":"@ + json_string(s.name@)]
    } else if i == 8 {
        opt_frag(s.origin is Some, "\"origin\":"@ + json_string(origin_tag(s.origin->0)))
    } else if i == 9 {
        opt_frag(s.precursor_ids is Some, "\"precursor_ids\":"@ + hexes_json(s.precursor_ids->0@))
    } else if i == 10 {
        opt_frag(s.service is Some, "\"service\":"@ + json_string(s.service->0@))
    } else if i == 11 {
        opt_frag(s.user is Some, "\"user\":"@ + json_string(s.user->0@))
    } else if i == 12 {
        seq![
            "\"parent_id\":"@ + (if s.parent_id is Some {
                json_hex16(s.parent_id->0)
            } else {
                "null"@
            }),
        ]
    } else if i == 13 {
        seq!["\"start_time\":"@ + dec_u(s.start_time as int)]
    } else if i == 14 {
        opt_frag(
            s.subsegments@.len() > 0,
            "\"subsegments\":"@ + seq!['['] + segs_prefix(
                s.subsegments,
                s.subsegments@.len() as int,
            ) + seq![']'],
        )
    } else {
        opt_frag(s.trace_id is Some, "\"trace_id\":"@ + json_trace_id(s.trace_id->0))
    }
}

/// The first `k` members of a segment object.
pub open spec fn seg_frags(s: Segment, k: int) -> Seq<Seq<char>>
    decreases s, 2int, k,
{
    if k <= 0 {
        seq![]
    } else {
        seg_frags(s, k - 1) + seg_field(s, k - 1)
    }
}

/// The rendering of a whole segment object.
pub open spec fn seg_json(s: Segment) -> Seq<char>
    decreases s, 3int, 0int,
{
    seq!['{'] + joined(seg_frags(s, 16)) + seq!['}']
}

/// The first `i` elements of a subsegment array, joined with commas.
pub open spec fn segs_prefix(v: Vec<Segment>, i: int) -> Seq<char>
    decreases v, 3int, i,
{
    if i <= 0 || i > v@.len() {
        Seq::empty()
    } else if i == 1 {
        seg_json(v[0])
    } else {
        segs_prefix(v, i - 1) + seq![','] + seg_json(v[i - 1])
    }
}

impl Segment {
    /// Whether every annotation and metadata list in the tree holds one
    /// entry per key, so that the serialized document repeats no object
    /// member.
    pub open spec fn well_formed(self) -> bool
        decreases self,
    {
        &&& (self.annotations matches Some(l) ==> distinct_keys(l@))
        &&& (self.metadata matches Some(l) ==> distinct_keys(l@))
        &&& (forall|i: int|
            0 <= i < self.subsegments@.len() ==> (#[trigger] self.subsegments[i]).well_formed())
    }

    /// Serializes the whole tree to its exact JSON document text. The tree
    /// must be well formed: building one with a repeated annotation or
    /// metadata key is a caller error, caught here.
    pub fn to_json(&self) -> (r: String)
        requires
            self.well_formed(),
        ensures
            r@ == seg_json(*self),
    {
        let mut out: Vec<char> = Vec::new();
        self.write_json(&mut out);
        string_of(out)
    }

    #[verifier::rlimit(100)]
    fn write_json(&self, out: &mut Vec<char>)
        ensures
            final(out)@ == old(out)@ + seg_json(*self),
        decreases *self, 4int,
    {
        let ghost base = out@;
        out.push('{');
        let ghost b2 = base + seq!['{'];
        proof {
            assert(out@ =~= b2 + joined(seg_frags(*self, 0)));
        }
        let mut first: bool = true;
        let ghost p1 = out@;
        if let Some(v) = &self.annotations {
            if !first {
                out.push(',');
            }
            push_str(out, "\"annotations\":");
            push_kvs(out, v);
            first = false;
        }
        proof {
            if self.annotations is Some {
                assert(out@ =~= (if seg_frags(*self, 0).len() == 0 {
                    p1
                } else {
                    p1.push(',')
                }) + ("\"annotations\":"@ + kvs_json(self.annotations->0@)));
            }
            lemma_member_step(
                b2,
                p1,
                out@,
                seg_frags(*self, 0),
                seg_frags(*self, 1),
                seg_field(*self, 0),
            );
            assert(first == (seg_frags(*self, 1).len() == 0));
        }
        let ghost p2 = out@;
        if let Some(v) = &self.aws {
            if !first {
                out.push(',');
            }
            push_str(out, "\"aws\":");
            v.write_json(out);
            first = false;
        }
        proof {
            if self.aws is Some {
                assert(out@ =~= (if seg_frags(*self, 1).len() == 0 {
                    p2
                } else {
                    p2.push(',')
                }) + ("\"aws\":"@ + aws_json(self.aws->0)));
            }
            lemma_member_step(
                b2,
                p2,
                out@,
                seg_frags(*self, 1),
                seg_frags(*self, 2),
                seg_field(*self, 1),
            );
            assert(first == (seg_frags(*self, 2).len() == 0));
        }
        let ghost p3 = out@;
        if !first {
            out.push(',');
        }
        push_str(out, "\"end_time\":");
        push_dec_u64(out, self.end_time);
        first = false;
        proof {
            assert(out@ =~= (if seg_frags(*self, 2).len() == 0 {
                p3
            } else {
                p3.push(',')
            }) + ("\"end_time\":"@ + dec_u(self.end_time as int)));
            lemma_member_step(
                b2,
                p3,
                out@,
                seg_frags(*self, 2),
                seg_frags(*self, 3),
                seg_field(*self, 2),
            );
            assert(first == (seg_frags(*self, 3).len() == 0));
        }
        let ghost p4 = out@;
        if let Some(v) = &self.http {
            if !first {
                out.push(',');
            }
            push_str(out, "\"http\":");
            v.write_json(out);
            first = false;
        }
        proof {
            if self.http is Some {
                assert(out@ =~= (if seg_frags(*self, 3).len() == 0 {
                    p4
                } else {
                    p4.push(',')
                }) + ("\"http\":"@ + http_json(self.http->0)));
            }
            lemma_member_step(
                b2,
                p4,
                out@,
                seg_frags(*self, 3),
                seg_frags(*self, 4),
                seg_field(*self, 3),
            );
            assert(first == (seg_frags(*self, 4).len() == 0));
        }
        let first = self.write_json_b(out, first, Ghost(b2));
        self.write_json_d(out, first, Ghost(b2));
        out.push('}');
        proof {
            assert(final(out)@ =~= base + seg_json(*self));
        }
    }

    /// Continues the member emission from the `id` member on.
    #[verifier::rlimit(100)]
    fn write_json_b(&self, out: &mut Vec<char>, first0: bool, Ghost(b2): Ghost<Seq<char>>) -> (r: bool)
        requires
            old(out)@ == b2 + joined(seg_frags(*self, 4)),
            first0 == (seg_frags(*self, 4).len() == 0),
        ensures
            final(out)@ == b2 + joined(seg_frags(*self, 12)),
            r == (seg_frags(*self, 12).len() == 0),
        decreases *self, 3int,
    {
        let mut first: bool = first0;
        let ghost p5 = out@;
        if !first {
            out.push(',');
        }
        push_str(out, "\"id\":");
        push_hex16(out, self.id);
        first = false;
        proof {
            assert(out@ =~= (if seg_frags(*self, 4).len() == 0 {
                p5
            } else {
                p5.push(',')
            }) + ("\"id\":"@ + json_hex16(self.id)));
            lemma_member_step(
                b2,
                p5,
                out@,
                seg_frags(*self, 4),
                seg_frags(*self, 5),
                seg_field(*self, 4),
            );
            assert(first == (seg_frags(*self, 5).len() == 0));
        }
        let ghost p6 = out@;
        if !first {
            out.push(',');
        }
        push_str(out, "\"is_progress\":");
        push_bool(out, self.is_progress);
        first = false;
        proof {
            assert(out@ =~= (if seg_frags(*self, 5).len() == 0 {
                p6
            } else {
                p6.push(',')
            }) + ("\"is_progress\":"@ + json_bool(self.is_progress)));
            lemma_member_step(
                b2,
                p6,
                out@,
                seg_frags(*self, 5),
                seg_frags(*self, 6),
                seg_field(*self, 5),
            );
            assert(first == (seg_frags(*self, 6).len() == 0));
        }
        let ghost p7 = out@;
        if let Some(v) = &self.metadata {
            if !first {
                out.push(',');
            }
            push_str(out, "\"metadata\":");
            push_kvs(out, v);
            first = false;
        }
        proof {
            if self.metadata is Some {
                assert(out@ =~= (if seg_frags(*self, 6).len() == 0 {
                    p7
                } else {
                    p7.push(',')
                }) + ("\"metadata\":"@ + kvs_json(self.metadata->0@)));
            }
            lemma_member_step(
                b2,
                p7,
                out@,
                seg_frags(*self, 6),
                seg_frags(*self, 7),
                seg_field(*self, 6),
            );
            assert(first == (seg_frags(*self, 7).len() == 0));
        }
        let ghost p8 = out@;
        if !first {
            out.push(',');
        }
        push_str(out, "\"name\":");
        push_json_string(out, &self.name);
        first = false;
        proof {
            assert(out@ =~= (if seg_frags(*self, 7).len() == 0 {
                p8
            } else {
                p8.push(',')
            }) + ("\"name\":"@ + json_string(self.name@)));
            lemma_member_step(
                b2,
                p8,
                out@,
                seg_frags(*self, 7),
                seg_frags(*self, 8),
                seg_field(*self, 7),
            );
            assert(first == (seg_frags(*self, 8).len() == 0));
        }
        self.write_json_c(out, first, Ghost(b2))
    }

    /// Continues the member emission from the `origin` member on.
    #[verifier::rlimit(100)]
    fn write_json_c(&self, out: &mut Vec<char>, first0: bool, Ghost(b2): Ghost<Seq<char>>) -> (r: bool)
        requires
            old(out)@ == b2 + joined(seg_frags(*self, 8)),
            first0 == (seg_frags(*self, 8).len() == 0),
        ensures
            final(out)@ == b2 + joined(seg_frags(*self, 12)),
            r == (seg_frags(*self, 12).len() == 0),
        decreases *self, 2int,
    {
        let mut first: bool = first0;
        let ghost p9 = out@;
        if let Some(v) = &self.origin {
            if !first {
                out.push(',');
            }
            push_str(out, "\"origin\":");
            let t = v.to_str();
            push_json_str(out, t);
            first = false;
        }
        proof {
            if self.origin is Some {
                assert(out@ =~= (if seg_frags(*self, 8).len() == 0 {
                    p9
                } else {
                    p9.push(',')
                }) + ("\"origin\":"@ + json_string(origin_tag(self.origin->0))));
            }
            lemma_member_step(
                b2,
                p9,
                out@,
                seg_frags(*self, 8),
                seg_frags(*self, 9),
                seg_field(*self, 8),
            );
            assert(first == (seg_frags(*self, 9).len() == 0));
        }
        let ghost p10 = out@;
        if let Some(v) = &self.precursor_ids {
            if !first {
                out.push(',');
            }
            push_str(out, "\"precursor_ids\":");
            push_hexes(out, v);
            first = false;
        }
        proof {
            if self.precursor_ids is Some {
                assert(out@ =~= (if seg_frags(*self, 9).len() == 0 {
                    p10
                } else {
                    p10.push(',')
                }) + ("\"precursor_ids\":"@ + hexes_json(self.precursor_ids->0@)));
            }
            lemma_member_step(
                b2,
                p10,
                out@,
                seg_frags(*self, 9),
                seg_frags(*self, 10),
                seg_field(*self, 9),
            );
            assert(first == (seg_frags(*self, 10).len() == 0));
        }
        let ghost p11 = out@;
        if let Some(v) = &self.service {
            if !first {
                out.push(',');
            }
            push_str(out, "\"service\":");
            push_json_string(out, v);
            first = false;
        }
        proof {
            if self.service is Some {
                assert(out@ =~= (if seg_frags(*self, 10).len() == 0 {
                    p11
                } else {
                    p11.push(',')
                }) + ("\"service\":"@ + json_string(self.service->0@)));
            }
            lemma_member_step(
                b2,
                p11,
                out@,
                seg_frags(*self, 10),
                seg_frags(*self, 11),
                seg_field(*self, 10),
            );
            assert(first == (seg_frags(*self, 11).len() == 0));
        }
        let ghost p12 = out@;
        if let Some(v) = &self.user {
            if !first {
                out.push(',');
            }
            push_str(out, "\"user\":");
            push_json_string(out, v);
            first = false;
        }
        proof {
            if self.user is Some {
                assert(out@ =~= (if seg_frags(*self, 11).len() == 0 {
                    p12
                } else {
                    p12.push(',')
                }) + ("\"user\":"@ + json_string(self.user->0@)));
            }
            lemma_member_step(
                b2,
                p12,
                out@,
                seg_frags(*self, 11),
                seg_frags(*self, 12),
                seg_field(*self, 11),
            );
            assert(first == (seg_frags(*self, 12).len() == 0));
        }
        first
    }

    /// Finishes the member emission from the `parent_id` member on.
    #[verifier::rlimit(100)]
    fn write_json_d(&self, out: &mut Vec<char>, first0: bool, Ghost(b2): Ghost<Seq<char>>)
        requires
            old(out)@ == b2 + joined(seg_frags(*self, 12)),
            first0 == (seg_frags(*self, 12).len() == 0),
        ensures
            final(out)@ == b2 + joined(seg_frags(*self, 16)),
        decreases *self, 1int,
    {
        let mut first: bool = first0;
        let ghost p13 = out@;
        if !first {
            out.push(',');
        }
        push_str(out, "\"parent_id\":");
        match &self.parent_id {
            Some(v) => push_hex16(out, *v),
            None => push_str(out, "null"),
        }
        first = false;
        proof {
            assert(out@ =~= (if seg_frags(*self, 12).len() == 0 {
                p13
            } else {
                p13.push(',')
            }) + ("\"parent_id\":"@ + (if self.parent_id is Some {
                json_hex16(self.parent_id->0)
            } else {
                "null"@
            })));
            lemma_member_step(
                b2,
                p13,
                out@,
                seg_frags(*self, 12),
                seg_frags(*self, 13),
                seg_field(*self, 12),
            );
            assert(first == (seg_frags(*self, 13).len() == 0));
        }
        let ghost p14 = out@;
        if !first {
            out.push(',');
        }
        push_str(out, "\"start_time\":");
        push_dec_u64(out, self.start_time);
        first = false;
        proof {
            assert(out@ =~= (if seg_frags(*self, 13).len() == 0 {
                p14
            } else {
                p14.push(',')
            }) + ("\"start_time\":"@ + dec_u(self.start_time as int)));
            lemma_member_step(
                b2,
                p14,
                out@,
                seg_frags(*self, 13),
                seg_frags(*self, 14),
                seg_field(*self, 13),
            );
            assert(first == (seg_frags(*self, 14).len() == 0));
        }
        let ghost p15 = out@;
        if self.subsegments.len() > 0 {
            if !first {
                out.push(',');
            }
            push_str(out, "\"subsegments\":");
            out.push('[');
            let ghost abase = out@;
            let mut i: usize = 0;
            while i < self.subsegments.len()
                invariant
                    i <= self.subsegments@.len(),
                    out@ == abase + segs_prefix(self.subsegments, i as int),
                decreases self.subsegments@.len() - i,
            {
                if i > 0 {
                    out.push(',');
                }
                let sub = &self.subsegments[i];
                sub.write_json(out);
                proof {
                    assert(out@ =~= abase + segs_prefix(self.subsegments, i as int + 1));
                }
                i = i + 1;
            }
            out.push(']');
            first = false;
        }
        proof {
            if self.subsegments@.len() > 0 {
                assert(out@ =~= (if seg_frags(*self, 14).len() == 0 {
                    p15
                } else {
                    p15.push(',')
                }) + ("\"subsegments\":"@ + seq!['['] + segs_prefix(
                    self.subsegments,
                    self.subsegments@.len() as int,
                ) + seq![']']));
            }
            lemma_member_step(
                b2,
                p15,
                out@,
                seg_frags(*self, 14),
                seg_frags(*self, 15),
                seg_field(*self, 14),
            );
            assert(first == (seg_frags(*self, 15).len() == 0));
        }
        let ghost p16 = out@;
        if let Some(v) = &self.trace_id {
            if !first {
                out.push(',');
            }
            push_str(out, "\"trace_id\":");
            push_trace_id(out, *v);
            first = false;
        }
        proof {
            if self.trace_id is Some {
                assert(out@ =~= (if seg_frags(*self, 15).len() == 0 {
                    p16
                } else {
                    p16.push(',')
                }) + ("\"trace_id\":"@ + json_trace_id(self.trace_id->0)));
            }
            lemma_member_step(
                b2,
                p16,
                out@,
                seg_frags(*self, 15),
                seg_frags(*self, 16),
                seg_field(*self, 15),
            );
            assert(first == (seg_frags(*self, 16).len() == 0));
        }
    }
}

/// Builds a `AWSECS` field by field, starting from the documented
/// defaults.
#[derive(Debug)]
pub struct AWSECSBuilder {
    pub value: AWSECS,
}

impl AWSECS {
    /// A builder holding this type's default field values.
    pub fn builder() -> (b: AWSECSBuilder)
        ensures
            b.value.container is None,
    {
        AWSECSBuilder {
            value: AWSECS {
                container: None
            },
        }
    }
}

impl AWSECSBuilder {
    /// The finished value, exactly as configured.
    pub fn build(self) -> (r: AWSECS)
        ensures
            r == self.value,
    {
        self.value
    }

    /// Sets the `container` field.
    pub fn container(self, v: String) -> (r: Self)
        ensures
            r.value == (AWSECS { container: Some(v), ..self.value }),
    {
        let mut b = self;
        b.value.container = Some(v);
        b
    }
}

/// Builds a `AWSEC2` field by field, starting from the documented
/// defaults.
#[derive(Debug)]
pub struct AWSEC2Builder {
    pub value: AWSEC2,
}

impl AWSEC2 {
    /// A builder holding this type's default field values.
    pub fn builder() -> (b: AWSEC2Builder)
        ensures
            b.value.availability_zone is None,
            b.value.instance_id is None,
    {
        AWSEC2Builder {
            value: AWSEC2 {
                availability_zone: None,
                instance_id: None
            },
        }
    }
}

impl AWSEC2Builder {
    /// The finished value, exactly as configured.
    pub fn build(self) -> (r: AWSEC2)
        ensures
            r == self.value,
    {
        self.value
    }

    /// Sets the `availability_zone` field.
    pub fn availability_zone(self, v: String) -> (r: Self)
        ensures
            r.value == (AWSEC2 { availability_zone: Some(v), ..self.value }),
    {
        let mut b = self;
        b.value.availability_zone = Some(v);
        b
    }

    /// Sets the `instance_id` field.
    pub fn instance_id(self, v: String) -> (r: Self)
        ensures
            r.value == (AWSEC2 { instance_id: Some(v), ..self.value }),
    {
        let mut b = self;
        b.value.instance_id = Some(v);
        b
    }
}

/// Builds a `AWSElasticBeanstalk` field by field, starting from the documented
/// defaults.
#[derive(Debug)]
pub struct AWSElasticBeanstalkBuilder {
    pub value: AWSElasticBeanstalk,
}

impl AWSElasticBeanstalk {
    /// A builder holding this type's default field values.
    pub fn builder() -> (b: AWSElasticBeanstalkBuilder)
        ensures
            b.value.deployment_id is None,
            b.value.environment_name is None,
            b.value.version_label is None,
    {
        AWSElasticBeanstalkBuilder {
            value: AWSElasticBeanstalk {
                deployment_id: None,
                environment_name: None,
                version_label: None
            },
        }
    }
}

impl AWSElasticBeanstalkBuilder {
    /// The finished value, exactly as configured.
    pub fn build(self) -> (r: AWSElasticBeanstalk)
        ensures
            r == self.value,
    {
        self.value
    }

    /// Sets the `deployment_id` field.
    pub fn deployment_id(self, v: u64) -> (r: Self)
        ensures
            r.value == (AWSElasticBeanstalk { deployment_id: Some(v), ..self.value }),
    {
        let mut b = self;
        b.value.deployment_id = Some(v);
        b
    }

    /// Sets the `environment_name` field.
    pub fn environment_name(self, v: String) -> (r: Self)
        ensures
            r.value == (AWSElasticBeanstalk { environment_name: Some(v), ..self.value }),
    {
        let mut b = self;
        b.value.environment_name = Some(v);
        b
    }

    /// Sets the `version_label` field.
    pub fn version_label(self, v: String) -> (r: Self)
        ensures
            r.value == (AWSElasticBeanstalk { version_label: Some(v), ..self.value }),
    {
        let mut b = self;
        b.value.version_label = Some(v);
        b
    }
}

/// Builds a `AWSXRay` field by field, starting from the documented
/// defaults.
#[derive(Debug)]
pub struct AWSXRayBuilder {
    pub value: AWSXRay,
}

impl AWSXRay {
    /// A builder holding this type's default field values.
    pub fn builder() -> (b: AWSXRayBuilder)
        ensures
            b.value.sdk@ == "opentelemetry_aws 1.2.3"@,
    {
        AWSXRayBuilder {
            value: AWSXRay {
                sdk: String::from_str("opentelemetry_aws 1.2.3")
            },
        }
    }
}

impl AWSXRayBuilder {
    /// The finished value, exactly as configured.
    pub fn build(self) -> (r: AWSXRay)
        ensures
            r == self.value,
    {
        self.value
    }

    /// Sets the `sdk` field.
    pub fn sdk(self, v: String) -> (r: Self)
        ensures
            r.value == (AWSXRay { sdk: v, ..self.value }),
    {
        let mut b = self;
        b.value.sdk = v;
        b
    }
}

/// Builds a `AWS` field by field, starting from the documented
/// defaults.
#[derive(Debug)]
pub struct AWSBuilder {
    pub value: AWS,
}

impl AWS {
    /// A builder holding this type's default field values.
    pub fn builder() -> (b: AWSBuilder)
        ensures
            b.value.account_id is None,
            b.value.ecs is None,
            b.value.ec2 is None,
            b.value.elastic_beanstalk is None,
            b.value.xray.sdk@ == "opentelemetry_aws 1.2.3"@,
            b.value.operation is None,
            b.value.region is None,
            b.value.request_id is None,
            b.value.queue_url is None,
            b.value.table_name is None,
    {
        AWSBuilder {
            value: AWS {
                account_id: None,
                ecs: None,
                ec2: None,
                elastic_beanstalk: None,
                xray: AWSXRay { sdk: String::from_str("opentelemetry_aws 1.2.3") },
                operation: None,
                region: None,
                request_id: None,
                queue_url: None,
                table_name: None
            },
        }
    }
}

impl AWSBuilder {
    /// The finished value, exactly as configured.
    pub fn build(self) -> (r: AWS)
        ensures
            r == self.value,
    {
        self.value
    }

    /// Sets the `account_id` field.
    pub fn account_id(self, v: String) -> (r: Self)
        ensures
            r.value == (AWS { account_id: Some(v), ..self.value }),
    {
        let mut b = self;
        b.value.account_id = Some(v);
        b
    }

    /// Sets the `ecs` field.
    pub fn ecs(self, v: AWSECS) -> (r: Self)
        ensures
            r.value == (AWS { ecs: Some(v), ..self.value }),
    {
        let mut b = self;
        b.value.ecs = Some(v);
        b
    }

    /// Sets the `ec2` field.
    pub fn ec2(self, v: AWSEC2) -> (r: Self)
        ensures
            r.value == (AWS { ec2: Some(v), ..self.value }),
    {
        let mut b = self;
        b.value.ec2 = Some(v);
        b
    }

    /// Sets the `elastic_beanstalk` field.
    pub fn elastic_beanstalk(self, v: AWSElasticBeanstalk) -> (r: Self)
        ensures
            r.value == (AWS { elastic_beanstalk: Some(v), ..self.value }),
    {
        let mut b = self;
        b.value.elastic_beanstalk = Some(v);
        b
    }

    /// Sets the `xray` field.
    pub fn xray(self, v: AWSXRay) -> (r: Self)
        ensures
            r.value == (AWS { xray: v, ..self.value }),
    {
        let mut b = self;
        b.value.xray = v;
        b
    }

    /// Sets the `operation` field.
    pub fn operation(self, v: String) -> (r: Self)
        ensures
            r.value == (AWS { operation: Some(v), ..self.value }),
    {
        let mut b = self;
        b.value.operation = Some(v);
        b
    }

    /// Sets the `region` field.
    pub fn region(self, v: String) -> (r: Self)
        ensures
            r.value == (AWS { region: Some(v), ..self.value }),
    {
        let mut b = self;
        b.value.region = Some(v);
        b
    }

    /// Sets the `request_id` field.
    pub fn request_id(self, v: String) -> (r: Self)
        ensures
            r.value == (AWS { request_id: Some(v), ..self.value }),
    {
        let mut b = self;
        b.value.request_id = Some(v);
        b
    }

    /// Sets the `queue_url` field.
    pub fn queue_url(self, v: String) -> (r: Self)
        ensures
            r.value == (AWS { queue_url: Some(v), ..self.value }),
    {
        let mut b = self;
        b.value.queue_url = Some(v);
        b
    }

    /// Sets the `table_name` field.
    pub fn table_name(self, v: String) -> (r: Self)
        ensures
            r.value == (AWS { table_name: Some(v), ..self.value }),
    {
        let mut b = self;
        b.value.table_name = Some(v);
        b
    }
}

/// Builds a `HttpRequest` field by field, starting from the documented
/// defaults.
#[derive(Debug)]
pub struct HttpRequestBuilder {
    pub value: HttpRequest,
}

impl HttpRequest {
    /// A builder holding this type's default field values.
    pub fn builder() -> (b: HttpRequestBuilder)
        ensures
            b.value.client_ip is None,
            b.value.method is None,
            b.value.traced is None,
            b.value.url is None,
            b.value.user_agent is None,
            b.value.x_forwarded_for is None,
    {
        HttpRequestBuilder {
            value: HttpRequest {
                client_ip: None,
                method: None,
                traced: None,
                url: None,
                user_agent: None,
                x_forwarded_for: None
            },
        }
    }
}

impl HttpRequestBuilder {
    /// The finished value, exactly as configured.
    pub fn build(self) -> (r: HttpRequest)
        ensures
            r == self.value,
    {
        self.value
    }

    /// Sets the `client_ip` field.
    pub fn client_ip(self, v: String) -> (r: Self)
        ensures
            r.value == (HttpRequest { client_ip: Some(v), ..self.value }),
    {
        let mut b = self;
        b.value.client_ip = Some(v);
        b
    }

    /// Sets the `method` field.
    pub fn method(self, v: String) -> (r: Self)
        ensures
            r.value == (HttpRequest { method: Some(v), ..self.value }),
    {
        let mut b = self;
        b.value.method = Some(v);
        b
    }

    /// Sets the `traced` field.
    pub fn traced(self, v: bool) -> (r: Self)
        ensures
            r.value == (HttpRequest { traced: Some(v), ..self.value }),
    {
        let mut b = self;
        b.value.traced = Some(v);
        b
    }

    /// Sets the `url` field.
    pub fn url(self, v: String) -> (r: Self)
        ensures
            r.value == (HttpRequest { url: Some(v), ..self.value }),
    {
        let mut b = self;
        b.value.url = Some(v);
        b
    }

    /// Sets the `user_agent` field.
    pub fn user_agent(self, v: String) -> (r: Self)
        ensures
            r.value == (HttpRequest { user_agent: Some(v), ..self.value }),
    {
        let mut b = self;
        b.value.user_agent = Some(v);
        b
    }

    /// Sets the `x_forwarded_for` field.
    pub fn x_forwarded_for(self, v: bool) -> (r: Self)
        ensures
            r.value == (HttpRequest { x_forwarded_for: Some(v), ..self.value }),
    {
        let mut b = self;
        b.value.x_forwarded_for = Some(v);
        b
    }
}

/// Builds a `HttpResponse` field by field, starting from the documented
/// defaults.
#[derive(Debug)]
pub struct HttpResponseBuilder {
    pub value: HttpResponse,
}

impl HttpResponse {
    /// A builder holding this type's default field values.
    pub fn builder() -> (b: HttpResponseBuilder)
        ensures
            b.value.content_length is None,
            b.value.status is None,
    {
        HttpResponseBuilder {
            value: HttpResponse {
                content_length: None,
                status: None
            },
        }
    }
}

impl HttpResponseBuilder {
    /// The finished value, exactly as configured.
    pub fn build(self) -> (r: HttpResponse)
        ensures
            r == self.value,
    {
        self.value
    }

    /// Sets the `content_length` field.
    pub fn content_length(self, v: i32) -> (r: Self)
        ensures
            r.value == (HttpResponse { content_length: Some(v), ..self.value }),
    {
        let mut b = self;
        b.value.content_length = Some(v);
        b
    }

    /// Sets the `status` field.
    pub fn status(self, v: i8) -> (r: Self)
        ensures
            r.value == (HttpResponse { status: Some(v), ..self.value }),
    {
        let mut b = self;
        b.value.status = Some(v);
        b
    }
}

/// Builds a `Http` field by field, starting from the documented
/// defaults.
#[derive(Debug)]
pub struct HttpBuilder {
    pub value: Http,
}

impl Http {
    /// A builder holding this type's default field values.
    pub fn builder() -> (b: HttpBuilder)
        ensures
            b.value.request is None,
            b.value.response is None,
    {
        HttpBuilder {
            value: Http {
                request: None,
                response: None
            },
        }
    }
}

impl HttpBuilder {
    /// The finished value, exactly as configured.
    pub fn build(self) -> (r: Http)
        ensures
            r == self.value,
    {
        self.value
    }

    /// Sets the `request` field.
    pub fn request(self, v: HttpRequest) -> (r: Self)
        ensures
            r.value == (Http { request: Some(v), ..self.value }),
    {
        let mut b = self;
        b.value.request = Some(v);
        b
    }

    /// Sets the `response` field.
    pub fn response(self, v: HttpResponse) -> (r: Self)
        ensures
            r.value == (Http { response: Some(v), ..self.value }),
    {
        let mut b = self;
        b.value.response = Some(v);
        b
    }
}

/// Builds a `Segment` field by field, starting from the documented
/// defaults.
#[derive(Debug)]
pub struct SegmentBuilder {
    pub value: Segment,
}

impl Segment {
    /// A builder holding this type's default field values.
    pub fn builder() -> (b: SegmentBuilder)
        ensures
            b.value.annotations is None,
            b.value.aws is None,
            b.value.http is None,
            b.value.id == 0,
            b.value.is_progress == false,
            b.value.metadata is None,
            b.value.name@ == Seq::<char>::empty(),
            b.value.origin is None,
            b.value.precursor_ids is None,
            b.value.service is None,
            b.value.user is None,
            b.value.parent_id is None,
            b.value.subsegments@ == Seq::<Segment>::empty(),
            b.value.trace_id is None,
    {
        let now: u64 = crate::id::now_unix_seconds();
        SegmentBuilder {
            value: Segment {
                annotations: None,
                aws: None,
                end_time: now,
                http: None,
                id: 0,
                is_progress: false,
                metadata: None,
                name: String::new(),
                origin: None,
                precursor_ids: None,
                service: None,
                user: None,
                parent_id: None,
                start_time: now,
                subsegments: Vec::new(),
                trace_id: None
            },
        }
    }
}

impl SegmentBuilder {
    /// The finished value, exactly as configured.
    pub fn build(self) -> (r: Segment)
        ensures
            r == self.value,
    {
        self.value
    }

    /// Sets the `annotations` field.
    pub fn annotations(self, v: Vec<(String, Value)>) -> (r: Self)
        ensures
            r.value == (Segment { annotations: Some(v), ..self.value }),
    {
        let mut b = self;
        b.value.annotations = Some(v);
        b
    }

    /// Sets the `aws` field.
    pub fn aws(self, v: AWS) -> (r: Self)
        ensures
            r.value == (Segment { aws: Some(v), ..self.value }),
    {
        let mut b = self;
        b.value.aws = Some(v);
        b
    }

    /// Sets the `end_time` field.
    pub fn end_time(self, v: u64) -> (r: Self)
        ensures
            r.value == (Segment { end_time: v, ..self.value }),
    {
        let mut b = self;
        b.value.end_time = v;
        b
    }

    /// Sets the `http` field.
    pub fn http(self, v: Http) -> (r: Self)
        ensures
            r.value == (Segment { http: Some(v), ..self.value }),
    {
        let mut b = self;
        b.value.http = Some(v);
        b
    }

    /// Sets the `id` field.
    pub fn id(self, v: u64) -> (r: Self)
        ensures
            r.value == (Segment { id: v, ..self.value }),
    {
        let mut b = self;
        b.value.id = v;
        b
    }

    /// Sets the `is_progress` field.
    pub fn is_progress(self, v: bool) -> (r: Self)
        ensures
            r.value == (Segment { is_progress: v, ..self.value }),
    {
        let mut b = self;
        b.value.is_progress = v;
        b
    }

    /// Sets the `metadata` field.
    pub fn metadata(self, v: Vec<(String, Value)>) -> (r: Self)
        ensures
            r.value == (Segment { metadata: Some(v), ..self.value }),
    {
        let mut b = self;
        b.value.metadata = Some(v);
        b
    }

    /// Sets the `name` field.
    pub fn name(self, v: String) -> (r: Self)
        ensures
            r.value == (Segment { name: v, ..self.value }),
    {
        let mut b = self;
        b.value.name = v;
        b
    }

    /// Sets the `origin` field.
    pub fn origin(self, v: Origin) -> (r: Self)
        ensures
            r.value == (Segment { origin: Some(v), ..self.value }),
    {
        let mut b = self;
        b.value.origin = Some(v);
        b
    }

    /// Sets the `precursor_ids` field.
    pub fn precursor_ids(self, v: Vec<u64>) -> (r: Self)
        ensures
            r.value == (Segment { precursor_ids: Some(v), ..self.value }),
    {
        let mut b = self;
        b.value.precursor_ids = Some(v);
        b
    }

    /// Sets the `service` field.
    pub fn service(self, v: String) -> (r: Self)
        ensures
            r.value == (Segment { service: Some(v), ..self.value }),
    {
        let mut b = self;
        b.value.service = Some(v);
        b
    }

    /// Sets the `user` field.
    pub fn user(self, v: String) -> (r: Self)
        ensures
            r.value == (Segment { user: Some(v), ..self.value }),
    {
        let mut b = self;
        b.value.user = Some(v);
        b
    }

    /// Sets the `parent_id` field.
    pub fn parent_id(self, v: u64) -> (r: Self)
        ensures
            r.value == (Segment { parent_id: Some(v), ..self.value }),
    {
        let mut b = self;
        b.value.parent_id = Some(v);
        b
    }

    /// Sets the `start_time` field.
    pub fn start_time(self, v: u64) -> (r: Self)
        ensures
            r.value == (Segment { start_time: v, ..self.value }),
    {
        let mut b = self;
        b.value.start_time = v;
        b
    }

    /// Sets the `subsegments` field.
    pub fn subsegments(self, v: Vec<Segment>) -> (r: Self)
        ensures
            r.value == (Segment { subsegments: v, ..self.value }),
    {
        let mut b = self;
        b.value.subsegments = v;
        b
    }

    /// Sets the `trace_id` field.
    pub fn trace_id(self, v: u128) -> (r: Self)
        ensures
            r.value == (Segment { trace_id: Some(v), ..self.value }),
    {
        let mut b = self;
        b.value.trace_id = Some(v);
        b
    }
}

} // verus!
