use muta_service::json::Json;
use muta_service::schema::{DataMeta, FieldMeta, Registry};
use muta_service::text::{bytes_equal, bytes_less, str_less, str_same};
use muta_service::types::{Address, ServiceContext, ServiceResponse, TypesError};

fn meta(name: &str, fields: &[(&str, &str)]) -> DataMeta {
    DataMeta {
        name: name.to_string(),
        fields: fields
            .iter()
            .map(|(name, field_type)| FieldMeta { name: name.to_string(), field_type: field_type.to_string() })
            .collect(),
    }
}

fn names(registry: &Registry) -> Vec<String> {
    registry.entries().iter().map(|meta| meta.name.clone()).collect()
}

#[test]
fn registry_keeps_names_in_order_whatever_the_order_of_registration() {
    let mut forward = Registry::new();
    let mut backward = Registry::new();
    let all = ["Balance", "Account", "Transfer", "Zeta", "Alpha"];
    for name in all {
        forward.register_type(meta(name, &[("x", "u64")]));
    }
    for name in all.iter().rev() {
        backward.register_type(meta(name, &[("x", "u64")]));
    }
    let sorted = vec!["Account", "Alpha", "Balance", "Transfer", "Zeta"];
    assert_eq!(names(&forward), sorted);
    assert_eq!(names(&backward), sorted);
    assert_eq!(format!("{:?}", forward), format!("{:?}", backward));
}

#[test]
fn registering_a_type_twice_changes_nothing() {
    let mut registry = Registry::new();
    registry.register_type(meta("Balance", &[("amount", "u64")]));
    registry.register_type(meta("Account", &[("owner", "Address")]));
    let once = format!("{:?}", registry);
    registry.register_type(meta("Balance", &[("amount", "u64")]));
    assert_eq!(format!("{:?}", registry), once);
    assert_eq!(registry.len(), 2);
}

#[test]
fn registering_under_a_known_name_replaces_the_schema() {
    let mut registry = Registry::new();
    registry.register_type(meta("Balance", &[("amount", "u64")]));
    registry.register_type(meta("Balance", &[("amount", "u128"), ("asset", "Hash")]));
    assert_eq!(registry.len(), 1);
    assert_eq!(registry.entries()[0].fields.len(), 2);
    assert_eq!(registry.entries()[0].fields[0].field_type, "u128");
}

#[test]
fn a_schema_is_found_by_its_name() {
    let mut registry = Registry::new();
    registry.register_type(meta("Balance", &[("amount", "u64")]));
    registry.register_type(meta("Account", &[("owner", "Address")]));
    assert_eq!(registry.get("Balance").unwrap().fields[0].name, "amount");
    assert_eq!(registry.get("Account").unwrap().fields[0].field_type, "Address");
    assert!(registry.get("balance").is_none());
    assert!(Registry::new().get("Balance").is_none());
}

#[test]
fn register_all_registers_each_of_a_list() {
    let mut registry = Registry::new();
    registry.register_all(&vec![meta("B", &[]), meta("A", &[]), meta("B", &[("x", "u8")])]);
    assert_eq!(names(&registry), vec!["A", "B"]);
    assert_eq!(registry.entries()[1].fields.len(), 1);
}

#[test]
fn strings_are_ordered_by_their_bytes() {
    assert!(str_less("", "a"));
    assert!(!str_less("a", ""));
    assert!(!str_less("a", "a"));
    assert!(str_less("a", "ab"));
    assert!(str_less("ab", "b"));
    assert!(str_less("Z", "a"));
    assert!(str_less("z", "é"));
    assert!(str_same("é", "é"));
    assert!(!str_same("e", "é"));
    assert!(bytes_less(&[1, 2], &[1, 3]));
    assert!(!bytes_less(&[1, 3], &[1, 2, 9]));
    assert!(bytes_equal(&[], &[]));
    assert!(!bytes_equal(&[1], &[1, 0]));
}

#[test]
fn hashes_have_32_bytes_and_addresses_20() {
    assert!(matches!(
        muta_service::types::Hash::from_bytes(bytes::Bytes::from(vec![0u8; 31])),
        Err(TypesError::HashLenInvalid)
    ));
    assert!(matches!(muta_service::types::Hash::from_vec(vec![0u8; 33]), Err(TypesError::HashLenInvalid)));
    let hash = muta_service::types::Hash::from_bytes(bytes::Bytes::from((0u8..32).collect::<Vec<u8>>())).unwrap();
    assert_eq!(hash.as_bytes().to_vec(), (0u8..32).collect::<Vec<u8>>());
    assert_eq!(hash.as_slice(), &(0u8..32).collect::<Vec<u8>>()[..]);
    assert!(hash.same(&hash.clone()));

    assert!(matches!(Address::from_bytes(bytes::Bytes::from(vec![0u8; 21])), Err(TypesError::AddressLenInvalid)));
    assert!(matches!(Address::from_vec(Vec::new()), Err(TypesError::AddressLenInvalid)));
    let address = Address::from_bytes(bytes::Bytes::from(vec![7u8; 20])).unwrap();
    assert_eq!(address.as_bytes().to_vec(), vec![7u8; 20]);
    assert!(!address.same(&Address::from_vec(vec![8u8; 20]).unwrap()));
}

#[test]
fn the_address_of_a_hash_is_its_first_20_bytes() {
    let hash = muta_service::types::Hash::from_vec((0u8..32).collect()).unwrap();
    let address = Address::from_hash(hash).unwrap();
    assert_eq!(address.as_slice(), &(0u8..20).collect::<Vec<u8>>()[..]);
}

#[test]
fn addresses_are_written_and_read_as_hexadecimal_text() {
    let address = Address::from_vec((0u8..20).map(|i| i * 13).collect()).unwrap();
    let text = address.as_hex();
    assert_eq!(text, "0x000d1a2734414e5b6875828f9ca9b6c3d0ddeaf7");
    assert!(Address::from_hex(&text).unwrap().same(&address));
    assert!(Address::from_hex("000D1A2734414E5B6875828F9CA9B6C3D0DDEAF7").unwrap().same(&address));
    assert!(matches!(Address::from_hex("0x00"), Err(TypesError::AddressLenInvalid)));
    assert!(matches!(Address::from_hex(""), Err(TypesError::AddressLenInvalid)));
    assert!(matches!(Address::from_hex("0x0"), Err(TypesError::ParseHexError(_))));
    assert!(matches!(
        Address::from_hex("0xzz0d1a2734414e5b6875828f9ca9b6c3d0ddeaf7"),
        Err(TypesError::ParseHexError(_))
    ));
    assert!(matches!(
        Address::from_hex("0X000d1a2734414e5b6875828f9ca9b6c3d0ddeaf7"),
        Err(TypesError::ParseHexError(_))
    ));
}

#[test]
fn type_errors_have_their_texts() {
    assert_eq!(TypesError::AddressLenInvalid.message(), "address len invalid");
    assert_eq!(TypesError::HashLenInvalid.message(), "hash len invalid");
    assert_eq!(TypesError::ParseHexError("odd".to_string()).message(), "parse hex error: odd");
    assert_eq!(TypesError::Serialization("eof".to_string()).message(), "serialization error: eof");
}

#[test]
fn a_context_gives_back_what_it_was_made_with() {
    let ctx = ServiceContext::new(
        "bank".to_string(),
        "transfer".to_string(),
        "{}".to_string(),
        None,
        Address::from_vec(vec![1u8; 20]).unwrap(),
        42,
    );
    assert_eq!(ctx.get_service_name(), "bank");
    assert_eq!(ctx.get_service_method(), "transfer");
    assert_eq!(ctx.get_payload(), "{}");
    assert!(ctx.get_tx_hash().is_none());
    assert_eq!(ctx.get_caller().as_slice(), &[1u8; 20][..]);
    assert_eq!(ctx.get_cycles_limit(), 42);
}

#[test]
fn a_response_is_a_success_or_an_error() {
    let ok: ServiceResponse<u8> = ServiceResponse::from_succeed(3);
    assert!(!ok.is_error());
    assert_eq!(ok.code(), 0);
    let err: ServiceResponse<u8> = ServiceResponse::from_error(110, "no".to_string());
    assert!(err.is_error());
    assert_eq!(err.code(), 110);
}

#[test]
fn json_text_is_read_into_documents() {
    let doc = Json::parse("{\"threshold\": 7, \"name\": \"x\", \"list\": [1, -2, 1.5, null, true], \"threshold\": 8}")
        .unwrap();
    assert_eq!(doc.get("threshold").unwrap().as_u64(), Some(8));
    assert_eq!(doc.get("name").unwrap().as_text().map(|s| s.as_str()), Some("x"));
    assert!(doc.get("weight").is_none());
    let list = doc.get("list").unwrap().as_array().unwrap();
    assert_eq!(list.len(), 5);
    assert_eq!(list[0].as_u64(), Some(1));
    assert_eq!(list[1].as_u64(), None);
    assert!(matches!(list[1], Json::Number(None)));
    assert!(matches!(list[2], Json::Number(None)));
    assert!(matches!(list[3], Json::Null));
    assert!(matches!(list[4], Json::Bool(true)));
    assert!(doc.as_array().is_none());
    assert!(doc.as_text().is_none());
    assert!(list[0].get("x").is_none());

    assert!(Json::parse("").is_none());
    assert!(Json::parse("{").is_none());
    assert!(Json::parse("nul").is_none());
    assert!(matches!(Json::parse("null"), Some(Json::Null)));
    assert!(matches!(Json::parse(" 18446744073709551615 "), Some(Json::Number(Some(u64::MAX)))));
}

#[test]
fn a_document_is_plain_when_all_numbers_that_count_are_unsigned() {
    assert!(Json::Null.is_plain());
    assert!(Json::Number(Some(3)).is_plain());
    assert!(!Json::Number(None).is_plain());
    assert!(!Json::Array(vec![Json::Number(Some(1)), Json::Number(None)]).is_plain());
    let shadowed = Json::Object(vec![
        ("a".to_string(), Json::Number(None)),
        ("b".to_string(), Json::Array(Vec::new())),
        ("a".to_string(), Json::Number(Some(1))),
    ]);
    assert!(shadowed.is_plain());
    assert_eq!(shadowed.render(), "{\"a\":1,\"b\":[]}");
    let counted = Json::Object(vec![
        ("a".to_string(), Json::Number(Some(1))),
        ("a".to_string(), Json::Number(None)),
    ]);
    assert!(!counted.is_plain());
    assert!(!Json::parse("[1, {\"x\": -1}]").unwrap().is_plain());
    assert!(Json::parse("[1, {\"x\": 1}]").unwrap().is_plain());
}

#[test]
fn documents_are_written_as_compact_text() {
    assert_eq!(Json::Null.render(), "null");
    assert_eq!(Json::Bool(false).render(), "false");
    assert_eq!(Json::Number(Some(0)).render(), "0");
    assert_eq!(Json::Text("a\"b".to_string()).render(), "\"a\\\"b\"");
    assert_eq!(Json::Array(vec![Json::Number(Some(1)), Json::Null]).render(), "[1,null]");
    let object = Json::Object(vec![
        ("b".to_string(), Json::Number(Some(1))),
        ("a".to_string(), Json::Array(Vec::new())),
        ("b".to_string(), Json::Number(Some(2))),
    ]);
    assert_eq!(object.render(), "{\"a\":[],\"b\":2}");
    assert_eq!(object.get("b").unwrap().as_u64(), Some(2));
    let read_back = Json::parse(&object.render()).unwrap();
    assert_eq!(read_back.render(), object.render());
}
