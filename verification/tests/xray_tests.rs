use opentelemetry_aws::xray::Origin::{EC2Instance, ECSContainer, ElasticBeanstalk};
use opentelemetry_aws::xray::Value::Number;
use opentelemetry_aws::xray::{
    value_map_json, Http, HttpRequest, HttpResponse, Origin, Segment, Value, AWS, AWSEC2, AWSECS,
    AWSElasticBeanstalk,
};

fn test_json_serialization(content: Segment, desired: &str) {
    let result = content.to_json();
    assert_eq!(result, desired.to_owned());
}

#[test]
fn test_empty() {
    let segment = Segment::builder()
        .aws(AWS::builder().build())
        .name(String::from("the name"))
        .id(123)
        .trace_id(456 << 12)
        .service(String::from("eek"))
        .origin(ECSContainer)
        .parent_id(789)
        .start_time(1)
        .end_time(2)
        .subsegments(vec![
            Segment::builder()
                .name(String::from("child name"))
                .start_time(3)
                .end_time(4)
                .build(),
        ])
        .build();
    test_json_serialization(segment, r#"{"aws":{"xray":{"sdk":"opentelemetry_aws 1.2.3"}},"end_time":2,"id":"000000000000007b","is_progress":false,"name":"the name","origin":"AWS::ECS::Container","service":"eek","parent_id":"0000000000000315","start_time":1,"subsegments":[{"end_time":4,"id":"0000000000000000","is_progress":false,"name":"child name","parent_id":null,"start_time":3}],"trace_id":"1-000001c8-000000000000"}"#);
}

#[test]
fn test_origin_ec2() {
    let segment = Segment::builder()
        .origin(EC2Instance)
        .start_time(1)
        .end_time(2)
        .build();
    test_json_serialization(segment, r#"{"end_time":2,"id":"0000000000000000","is_progress":false,"name":"","origin":"AWS::EC2::Instance","parent_id":null,"start_time":1}"#)
}

#[test]
fn test_origin_elastic_beanstalk() {
    let segment = Segment::builder()
        .origin(ElasticBeanstalk)
        .start_time(1)
        .end_time(2)
        .build();
    test_json_serialization(segment, r#"{"end_time":2,"id":"0000000000000000","is_progress":false,"name":"","origin":"AWS::ElasticBeanstalk::Environment","parent_id":null,"start_time":1}"#)
}

#[test]
fn test_value_string() {
    let mut m: Vec<(String, Value)> = Vec::new();
    m.push((String::from("str"), Value::String(String::from("s"))));
    let got = value_map_json(&m);
    assert_eq!(got, r#"{"str":"s"}"#);
}

#[test]
fn test_value_number() {
    let mut m: Vec<(String, Value)> = Vec::new();
    m.push((String::from("num"), Number(123)));
    let got = value_map_json(&m);
    assert_eq!(got, r#"{"num":123}"#);
}

#[test]
fn test_origin_tags() {
    assert_eq!(Origin::EC2Instance.to_str(), "AWS::EC2::Instance");
    assert_eq!(Origin::ECSContainer.to_str(), "AWS::ECS::Container");
    assert_eq!(Origin::ElasticBeanstalk.to_str(), "AWS::ElasticBeanstalk::Environment");
}

#[test]
fn test_string_escaping() {
    let segment = Segment::builder()
        .name(String::from("a\"b\\c\nd\te\u{8}f\u{c}g\rh\u{1b}i"))
        .start_time(1)
        .end_time(2)
        .build();
    test_json_serialization(segment, "{\"end_time\":2,\"id\":\"0000000000000000\",\"is_progress\":false,\"name\":\"a\\\"b\\\\c\\nd\\te\\bf\\fg\\rh\\u001bi\",\"parent_id\":null,\"start_time\":1}");
}

#[test]
fn test_annotations_and_metadata_in_order() {
    let segment = Segment::builder()
        .annotations(vec![
            (String::from("b"), Value::Number(-7)),
            (String::from("a"), Value::String(String::from("x"))),
        ])
        .metadata(vec![(String::from("k"), Value::Number(0))])
        .start_time(1)
        .end_time(2)
        .build();
    test_json_serialization(segment, r#"{"annotations":{"b":-7,"a":"x"},"end_time":2,"id":"0000000000000000","is_progress":false,"metadata":{"k":0},"name":"","parent_id":null,"start_time":1}"#);
}

#[test]
fn test_number_extremes() {
    let mut m: Vec<(String, Value)> = Vec::new();
    m.push((String::from("min"), Number(i64::MIN)));
    m.push((String::from("max"), Number(i64::MAX)));
    let got = value_map_json(&m);
    assert_eq!(got, r#"{"min":-9223372036854775808,"max":9223372036854775807}"#);
}

#[test]
fn test_id_hex_extremes() {
    let segment = Segment::builder()
        .id(u64::MAX)
        .parent_id(1)
        .start_time(1)
        .end_time(2)
        .build();
    test_json_serialization(segment, r#"{"end_time":2,"id":"ffffffffffffffff","is_progress":false,"name":"","parent_id":"0000000000000001","start_time":1}"#);
}

#[test]
fn test_trace_id_wide_first_group() {
    // A value whose shifted first group needs more than eight digits is not
    // truncated.
    let segment = Segment::builder()
        .trace_id(0x123456789abu128 << 12)
        .start_time(1)
        .end_time(2)
        .build();
    test_json_serialization(segment, r#"{"end_time":2,"id":"0000000000000000","is_progress":false,"name":"","parent_id":null,"start_time":1,"trace_id":"1-123456789ab-000000000000"}"#);
}

#[test]
fn test_trace_id_low_bits_group() {
    // The second group renders the low eleven bits of the value.
    let segment = Segment::builder()
        .trace_id((456u128 << 12) | 0x7ff)
        .start_time(1)
        .end_time(2)
        .build();
    test_json_serialization(segment, r#"{"end_time":2,"id":"0000000000000000","is_progress":false,"name":"","parent_id":null,"start_time":1,"trace_id":"1-000001c8-0000000007ff"}"#);
}

#[test]
fn test_precursor_ids() {
    let segment = Segment::builder()
        .precursor_ids(vec![1, u64::MAX])
        .start_time(1)
        .end_time(2)
        .build();
    test_json_serialization(segment, r#"{"end_time":2,"id":"0000000000000000","is_progress":false,"name":"","precursor_ids":["0000000000000001","ffffffffffffffff"],"parent_id":null,"start_time":1}"#);
}

#[test]
fn test_http_objects() {
    let segment = Segment::builder()
        .http(
            Http::builder()
                .request(
                    HttpRequest::builder()
                        .method(String::from("GET"))
                        .traced(true)
                        .build(),
                )
                .response(HttpResponse::builder().content_length(-1).status(2).build())
                .build(),
        )
        .start_time(1)
        .end_time(2)
        .build();
    test_json_serialization(segment, r#"{"end_time":2,"http":{"request":{"method":"GET","traced":true},"response":{"content_length":-1,"status":2}},"id":"0000000000000000","is_progress":false,"name":"","parent_id":null,"start_time":1}"#);
}

#[test]
fn test_aws_nested_objects() {
    let segment = Segment::builder()
        .aws(
            AWS::builder()
                .account_id(String::from("42"))
                .ecs(AWSECS::builder().container(String::from("c1")).build())
                .ec2(AWSEC2::builder().instance_id(String::from("i-1")).build())
                .elastic_beanstalk(
                    AWSElasticBeanstalk::builder().deployment_id(9).build(),
                )
                .region(String::from("us-west-2"))
                .build(),
        )
        .start_time(1)
        .end_time(2)
        .build();
    test_json_serialization(segment, r#"{"aws":{"account_id":"42","ecs":{"container":"c1"},"ec2":{"instance_id":"i-1"},"elastic_beanstalk":{"deployment_id":9},"xray":{"sdk":"opentelemetry_aws 1.2.3"},"region":"us-west-2"},"end_time":2,"id":"0000000000000000","is_progress":false,"name":"","parent_id":null,"start_time":1}"#);
}

#[test]
fn test_nested_subsegments() {
    let grandchild = Segment::builder()
        .name(String::from("gc"))
        .start_time(5)
        .end_time(6)
        .build();
    let child_a = Segment::builder()
        .name(String::from("a"))
        .start_time(3)
        .end_time(4)
        .subsegments(vec![grandchild])
        .build();
    let child_b = Segment::builder()
        .name(String::from("b"))
        .start_time(3)
        .end_time(4)
        .build();
    let segment = Segment::builder()
        .name(String::from("root"))
        .start_time(1)
        .end_time(2)
        .subsegments(vec![child_a, child_b])
        .build();
    test_json_serialization(segment, r#"{"end_time":2,"id":"0000000000000000","is_progress":false,"name":"root","parent_id":null,"start_time":1,"subsegments":[{"end_time":4,"id":"0000000000000000","is_progress":false,"name":"a","parent_id":null,"start_time":3,"subsegments":[{"end_time":6,"id":"0000000000000000","is_progress":false,"name":"gc","parent_id":null,"start_time":5}]},{"end_time":4,"id":"0000000000000000","is_progress":false,"name":"b","parent_id":null,"start_time":3}]}"#);
}
