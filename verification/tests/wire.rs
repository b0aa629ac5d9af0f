use surrealdb_wasm::err::Error;
use surrealdb_wasm::err::ErrorKind;
use surrealdb_wasm::err::INVALID_REQUEST;
use surrealdb_wasm::err::PARSE_ERROR;
use surrealdb_wasm::rpc::cbor::Cbor;
use surrealdb_wasm::rpc::codec::from_cbor;
use surrealdb_wasm::rpc::codec::to_cbor;
use surrealdb_wasm::rpc::envelope::decode_request;
use surrealdb_wasm::rpc::envelope::encode_response;
use surrealdb_wasm::rpc::envelope::reply;
use surrealdb_wasm::rpc::envelope::response_tree;
use surrealdb_wasm::rpc::envelope::Action;
use surrealdb_wasm::rpc::envelope::Notification;
use surrealdb_wasm::rpc::envelope::Request;
use surrealdb_wasm::convert::HostValue;
use surrealdb_wasm::value::Bound;
use surrealdb_wasm::value::Number;
use surrealdb_wasm::value::Structured;

fn strand(s: &str) -> Structured {
    Structured::Strand(s.to_string())
}

fn whole(i: i64) -> Structured {
    Structured::Number(Number::Int(i))
}

fn wire_text(s: &str) -> ciborium::Value {
    ciborium::Value::Text(s.to_string())
}

fn bytes_of_raw(v: &ciborium::Value) -> Vec<u8> {
    let mut out = Vec::new();
    ciborium::into_writer(v, &mut out).unwrap();
    out
}

fn request_bytes(entries: Vec<(&str, ciborium::Value)>) -> Vec<u8> {
    let map = entries.into_iter().map(|(k, v)| (wire_text(k), v)).collect();
    bytes_of_raw(&ciborium::Value::Map(map))
}

fn sample_values() -> Vec<Structured> {
    vec![
        Structured::Absent,
        Structured::Null,
        Structured::Bool(true),
        whole(0),
        whole(i64::MAX),
        whole(i64::MIN),
        Structured::Number(Number::Float(1.5f64.to_bits())),
        Structured::Number(Number::Float(1.0f64.to_bits())),
        strand("text"),
        Structured::Datetime(-62_135_596_800_000),
        Structured::Uuid([0xab; 16]),
        Structured::Table("person".to_string()),
        Structured::Thing { tb: "person".to_string(), id: "tobie".to_string() },
        Structured::Range {
            tb: "person".to_string(),
            beg: Bound::Excluded("a".to_string()),
            end: Bound::Included("b".to_string()),
        },
        Structured::Range {
            tb: "person".to_string(),
            beg: Bound::Unbounded,
            end: Bound::Unbounded,
        },
        Structured::Array(vec![whole(1), Structured::Array(vec![strand("x")])]),
        Structured::Object(vec![
            ("a".to_string(), whole(1)),
            ("b".to_string(), Structured::Object(vec![("c".to_string(), Structured::Null)])),
        ]),
    ]
}

#[test]
fn trees_of_values() {
    assert_eq!(to_cbor(&Structured::Null), Cbor::Null);
    assert_eq!(to_cbor(&Structured::Absent), Cbor::Tag(6, Box::new(Cbor::Null)));
    assert_eq!(to_cbor(&whole(-3)), Cbor::Integer(-3));
    assert_eq!(
        to_cbor(&Structured::Number(Number::Float(2.0f64.to_bits()))),
        Cbor::Float(2.0f64.to_bits())
    );
    assert_eq!(to_cbor(&Structured::Datetime(7)), Cbor::Tag(12, Box::new(Cbor::Integer(7))));
    assert_eq!(
        to_cbor(&Structured::Uuid([1; 16])),
        Cbor::Tag(37, Box::new(Cbor::Bytes(vec![1; 16])))
    );
    assert_eq!(
        to_cbor(&Structured::Thing { tb: "t".to_string(), id: "i".to_string() }),
        Cbor::Tag(
            8,
            Box::new(Cbor::Array(vec![Cbor::Text("t".to_string()), Cbor::Text("i".to_string())]))
        )
    );
    assert_eq!(
        to_cbor(&Structured::Object(vec![("k".to_string(), Structured::Bool(false))])),
        Cbor::Entries(vec![(Cbor::Text("k".to_string()), Cbor::Bool(false))])
    );
}

#[test]
fn values_read_back_from_their_trees() {
    for v in sample_values() {
        assert_eq!(from_cbor(&to_cbor(&v)), Some(v));
    }
}

#[test]
fn trees_that_stand_for_no_value() {
    assert_eq!(from_cbor(&Cbor::Bytes(vec![1, 2])), None);
    assert_eq!(from_cbor(&Cbor::Integer(i64::MAX as i128 + 1)), None);
    assert_eq!(from_cbor(&Cbor::Integer(i64::MIN as i128 - 1)), None);
    assert_eq!(from_cbor(&Cbor::Tag(999, Box::new(Cbor::Null))), None);
    assert_eq!(from_cbor(&Cbor::Tag(6, Box::new(Cbor::Bool(true)))), None);
    assert_eq!(from_cbor(&Cbor::Tag(37, Box::new(Cbor::Bytes(vec![0; 15])))), None);
    assert_eq!(from_cbor(&Cbor::Entries(vec![(Cbor::Integer(1), Cbor::Null)])), None);
    assert_eq!(from_cbor(&Cbor::Array(vec![Cbor::Null, Cbor::Bytes(vec![])])), None);
    assert_eq!(
        from_cbor(&Cbor::Tag(8, Box::new(Cbor::Array(vec![Cbor::Text("t".to_string())])))),
        None
    );
}

#[test]
fn a_map_with_a_repeated_key_keeps_the_later_entry() {
    let tree = Cbor::Entries(vec![
        (Cbor::Text("b".to_string()), Cbor::Integer(1)),
        (Cbor::Text("a".to_string()), Cbor::Integer(2)),
        (Cbor::Text("b".to_string()), Cbor::Integer(3)),
    ]);
    assert_eq!(
        from_cbor(&tree),
        Some(Structured::Object(vec![("a".to_string(), whole(2)), ("b".to_string(), whole(3))]))
    );
}

#[test]
fn a_successful_response_byte_for_byte() {
    let bytes = encode_response(&Ok(whole(1)));
    assert_eq!(bytes, vec![0xa1, 0x66, b'r', b'e', b's', b'u', b'l', b't', 0x01]);
}

#[test]
fn a_failed_response_byte_for_byte() {
    let bytes = encode_response(&Err(Error::protocol(INVALID_REQUEST)));
    let mut expected = vec![0xa1, 0x65];
    expected.extend_from_slice(b"error");
    expected.extend_from_slice(&[0xa2, 0x64]);
    expected.extend_from_slice(b"code");
    expected.extend_from_slice(&[0x39, 0x7f, 0x57]);
    expected.push(0x67);
    expected.extend_from_slice(b"message");
    expected.push(0x6f);
    expected.extend_from_slice(b"Invalid request");
    assert_eq!(bytes, expected);
}

#[test]
fn equal_outcomes_give_equal_bytes() {
    let a = Ok(Structured::Object(vec![
        ("a".to_string(), whole(1)),
        ("b".to_string(), strand("x")),
    ]));
    let b = Ok(Structured::Object(vec![
        ("a".to_string(), whole(1)),
        ("b".to_string(), strand("x")),
    ]));
    assert_eq!(encode_response(&a), encode_response(&b));
}

#[test]
fn responses_as_values_and_trees() {
    assert_eq!(
        reply(&Ok(Structured::Null)),
        Structured::Object(vec![("result".to_string(), Structured::Null)])
    );
    assert_eq!(
        reply(&Err(Error::DBError("boom".to_string()))),
        Structured::Object(vec![(
            "error".to_string(),
            Structured::Object(vec![
                ("code".to_string(), whole(-32000)),
                ("message".to_string(), strand("boom")),
            ])
        )])
    );
    assert_eq!(
        response_tree(&Ok(Structured::Bool(true))),
        Cbor::Entries(vec![(Cbor::Text("result".to_string()), Cbor::Bool(true))])
    );
}

#[test]
fn integers_and_doubles_stay_apart_on_the_wire() {
    let integer = encode_response(&Ok(whole(1)));
    let double = encode_response(&Ok(Structured::Number(Number::Float(1.0f64.to_bits()))));
    assert_ne!(integer, double);
    let back: ciborium::Value = ciborium::from_reader(&double[..]).unwrap();
    assert_eq!(
        back,
        ciborium::Value::Map(vec![(wire_text("result"), ciborium::Value::Float(1.0))])
    );
}

#[test]
fn doubles_cross_the_wire_unchanged() {
    for x in [0.1f64, -2.5, 1e300, f64::INFINITY, 5e-324] {
        let sent = Structured::Array(vec![Structured::Number(Number::Float(x.to_bits()))]);
        let bytes = request_bytes(vec![
            ("method", wire_text("query")),
            ("params", ciborium::Value::Array(vec![ciborium::Value::Float(x)])),
        ]);
        let request = decode_request(&bytes).unwrap();
        assert_eq!(Structured::Array(request.params), sent);
        let out = encode_response(&Ok(sent));
        let back: ciborium::Value = ciborium::from_reader(&out[..]).unwrap();
        assert_eq!(
            back,
            ciborium::Value::Map(vec![(
                wire_text("result"),
                ciborium::Value::Array(vec![ciborium::Value::Float(x)])
            )])
        );
    }
}

#[test]
fn a_request_is_decoded() {
    let bytes = request_bytes(vec![
        ("id", ciborium::Value::Integer(7.into())),
        ("method", wire_text("select")),
        ("params", ciborium::Value::Array(vec![wire_text("person:tobie")])),
    ]);
    assert_eq!(
        decode_request(&bytes).unwrap(),
        Request {
            id: Some(whole(7)),
            method: "select".to_string(),
            params: vec![strand("person:tobie")],
        }
    );
}

#[test]
fn a_request_without_a_mark_is_decoded() {
    let bytes = request_bytes(vec![
        ("method", wire_text("version")),
        ("params", ciborium::Value::Array(vec![])),
    ]);
    assert_eq!(
        decode_request(&bytes).unwrap(),
        Request { id: None, method: "version".to_string(), params: vec![] }
    );
}

fn protocol_code(r: Result<Request, Error>) -> i64 {
    let e = r.unwrap_err();
    assert_eq!(e.get_kind(), ErrorKind::Protocol);
    e.get_code()
}

#[test]
fn a_request_without_method_is_a_protocol_error() {
    let bytes = request_bytes(vec![("params", ciborium::Value::Array(vec![]))]);
    assert_eq!(protocol_code(decode_request(&bytes)), INVALID_REQUEST);
    let bytes = request_bytes(vec![]);
    assert_eq!(protocol_code(decode_request(&bytes)), INVALID_REQUEST);
}

#[test]
fn a_request_of_the_wrong_shape_is_a_protocol_error() {
    let no_params = request_bytes(vec![("method", wire_text("select"))]);
    assert_eq!(protocol_code(decode_request(&no_params)), INVALID_REQUEST);
    let method_no_text = request_bytes(vec![
        ("method", ciborium::Value::Integer(1.into())),
        ("params", ciborium::Value::Array(vec![])),
    ]);
    assert_eq!(protocol_code(decode_request(&method_no_text)), INVALID_REQUEST);
    let params_no_array = request_bytes(vec![
        ("method", wire_text("select")),
        ("params", wire_text("person")),
    ]);
    assert_eq!(protocol_code(decode_request(&params_no_array)), INVALID_REQUEST);
    let no_map = bytes_of_raw(&ciborium::Value::Array(vec![]));
    assert_eq!(protocol_code(decode_request(&no_map)), INVALID_REQUEST);
    let odd_param = request_bytes(vec![
        ("method", wire_text("select")),
        ("params", ciborium::Value::Array(vec![ciborium::Value::Bytes(vec![1])])),
    ]);
    assert_eq!(protocol_code(decode_request(&odd_param)), INVALID_REQUEST);
}

#[test]
fn bytes_that_are_no_item_are_a_parse_error() {
    assert_eq!(protocol_code(decode_request(&[])), PARSE_ERROR);
    assert_eq!(protocol_code(decode_request(&[0xa1, 0x66, b'm'])), PARSE_ERROR);
    assert_eq!(protocol_code(decode_request(&[0xff])), PARSE_ERROR);
}

#[test]
fn a_request_read_from_a_value_and_a_tree() {
    let v = Structured::Object(vec![
        ("method".to_string(), strand("ping")),
        ("params".to_string(), Structured::Array(vec![Structured::Null])),
    ]);
    let expected =
        Request { id: None, method: "ping".to_string(), params: vec![Structured::Null] };
    assert_eq!(Request::from_value(&v), Some(expected));
    assert_eq!(Request::from_value(&Structured::Null), None);
    let tree = to_cbor(&v);
    assert_eq!(
        Request::from_tree(&tree).unwrap(),
        Request { id: None, method: "ping".to_string(), params: vec![Structured::Null] }
    );
    assert_eq!(protocol_code(Request::from_tree(&Cbor::Null)), INVALID_REQUEST);
}

#[test]
fn labels_of_actions() {
    assert_eq!(Action::Create.as_str(), "CREATE");
    assert_eq!(Action::Update.as_str(), "UPDATE");
    assert_eq!(Action::Delete.as_str(), "DELETE");
    assert_eq!(Action::Unknown.as_str(), "UNKNOWN");
}

#[test]
fn a_notification_as_a_message() {
    let n = Notification { id: [9; 16], action: Action::Update, result: whole(5) };
    assert_eq!(
        n.message(),
        Structured::Object(vec![
            ("action".to_string(), strand("UPDATE")),
            ("id".to_string(), Structured::Uuid([9; 16])),
            ("result".to_string(), whole(5)),
        ])
    );
    assert_eq!(
        n.to_host(),
        HostValue::Object(vec![
            ("action".to_string(), HostValue::Text("UPDATE".to_string())),
            (
                "id".to_string(),
                HostValue::Text("09090909-0909-0909-0909-090909090909".to_string())
            ),
            ("result".to_string(), HostValue::Integer(5)),
        ])
    );
}

#[test]
fn a_notification_on_the_wire() {
    let n = Notification { id: [9; 16], action: Action::Create, result: strand("r") };
    let back: ciborium::Value = ciborium::from_reader(&n.encode()[..]).unwrap();
    assert_eq!(
        back,
        ciborium::Value::Map(vec![
            (wire_text("action"), wire_text("CREATE")),
            (
                wire_text("id"),
                ciborium::Value::Tag(37, Box::new(ciborium::Value::Bytes(vec![9; 16])))
            ),
            (wire_text("result"), wire_text("r")),
        ])
    );
    assert_eq!(from_cbor(&n.tree()), Some(n.message()));
}

#[test]
fn notifications_keep_their_order() {
    let events: Vec<Notification> = (0..5u8)
        .map(|i| Notification { id: [i; 16], action: Action::Create, result: whole(i as i64) })
        .collect();
    let results: Vec<Structured> = events
        .iter()
        .map(|n| match n.message() {
            Structured::Object(mut entries) => entries.pop().unwrap().1,
            _ => panic!("no object"),
        })
        .collect();
    assert_eq!(results, vec![whole(0), whole(1), whole(2), whole(3), whole(4)]);
}
