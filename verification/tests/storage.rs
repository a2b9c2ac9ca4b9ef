use muta_service::binding::{Path, PathArguments, PathSegment};
use muta_service::fixed_codec::{
    decode_field, decode_parse_quotes, impl_decode, impl_fixed_codec, CodecError, Data, DataStruct, DecodeKind,
    DeriveInput, Field, FieldId, FieldType, ParseQuotes,
};
use muta_service::storage::{
    check_batch, column_names, column_outcome, contains_outcome, get_batch_outcome, get_outcome, map_data_category,
    map_db_err, write_outcome, DataCategory, DatabaseError,
};

#[test]
fn each_category_has_its_column() {
    assert_eq!(map_data_category(DataCategory::Block), "c1");
    assert_eq!(map_data_category(DataCategory::Transaction), "c2");
    assert_eq!(map_data_category(DataCategory::Receipt), "c3");
    assert_eq!(map_data_category(DataCategory::State), "c4");
    assert_eq!(map_data_category(DataCategory::TransactionPool), "c5");
    assert_eq!(map_data_category(DataCategory::TransactionPosition), "c6");
    assert_eq!(column_names(), vec!["c1", "c2", "c3", "c4", "c5", "c6"]);
}

#[test]
fn a_missing_column_is_not_found() {
    assert!(matches!(column_outcome::<u8>(None), Err(DatabaseError::NotFound)));
    assert!(matches!(column_outcome(Some(4u8)), Ok(4)));
}

#[test]
fn get_gives_the_value_or_not_found() {
    assert_eq!(get_outcome(Ok(Some(b"test".to_vec()))).unwrap(), b"test".to_vec());
    assert!(matches!(get_outcome(Ok(None)), Err(DatabaseError::NotFound)));
    match get_outcome(Err("io".to_string())) {
        Err(DatabaseError::Internal(report)) => assert_eq!(report, "io"),
        other => panic!("unexpected outcome {:?}", other),
    }
}

#[test]
fn get_batch_gives_nothing_for_a_key_that_failed() {
    assert_eq!(get_batch_outcome(Ok(Some(b"test1".to_vec()))), Some(b"test1".to_vec()));
    assert_eq!(get_batch_outcome(Ok(None)), None);
    assert_eq!(get_batch_outcome(Err("io".to_string())), None);
}

#[test]
fn contains_tells_whether_a_value_was_found() {
    assert!(contains_outcome(Ok(Some(b"test".to_vec()))).unwrap());
    assert!(!contains_outcome(Ok(None)).unwrap());
    assert!(matches!(contains_outcome(Err("io".to_string())), Err(DatabaseError::Internal(_))));
}

#[test]
fn a_write_is_done_or_fails_with_the_report_of_the_store() {
    assert!(write_outcome(Ok(())).is_ok());
    match write_outcome(Err("disk full".to_string())) {
        Err(DatabaseError::Internal(report)) => assert_eq!(report, "disk full"),
        other => panic!("unexpected outcome {:?}", other),
    }
    assert!(matches!(map_db_err("x".to_string()), DatabaseError::Internal(report) if report == "x"));
}

#[test]
fn a_batch_needs_as_many_values_as_keys() {
    let keys = vec![b"test1".to_vec(), b"test2".to_vec()];
    assert!(check_batch(&keys, &keys).is_ok());
    assert!(matches!(check_batch(&keys, &keys[..1]), Err(DatabaseError::InvalidData)));
    assert!(check_batch(&[], &[]).is_ok());
}

fn path(name: &str) -> FieldType {
    FieldType::Path(Path {
        leading_colon: false,
        segments: vec![PathSegment { ident: name.to_string(), arguments: PathArguments::Absent }],
    })
}

fn named(name: &str, ty: FieldType) -> Field {
    Field { ident: Some(name.to_string()), ty }
}

#[test]
fn the_list_decoder_reads_by_position() {
    let quotes = decode_parse_quotes();
    assert_eq!(quotes.single, "rlp.val_at");
    assert_eq!(quotes.list, "rlp.list_at");
    assert!(quotes.takes_index);
}

#[test]
fn fields_are_decoded_by_their_types() {
    let array = decode_field(0, &Field { ident: None, ty: FieldType::Array }, decode_parse_quotes()).unwrap();
    assert!(matches!(array.id, FieldId::Position(0)));
    assert_eq!(array.kind, DecodeKind::Array);
    assert_eq!(array.reader, "rlp.val_at");
    assert_eq!(array.position, Some(0));

    let list = decode_field(3, &named("items", path("Vec")), decode_parse_quotes()).unwrap();
    assert!(matches!(&list.id, FieldId::Named(name) if name == "items"));
    assert_eq!(list.kind, DecodeKind::List);
    assert_eq!(list.reader, "rlp.list_at");
    assert_eq!(list.position, Some(3));

    let bytes = decode_field(2, &named("pubkey", path("Bytes")), decode_parse_quotes()).unwrap();
    assert_eq!(bytes.kind, DecodeKind::Bytes);
    assert_eq!(bytes.reader, "rlp.val_at");

    let single = decode_field(1, &named("tx_hash", path("Hash")), decode_parse_quotes()).unwrap();
    assert_eq!(single.kind, DecodeKind::Single);
    assert_eq!(single.reader, "rlp.val_at");
    assert_eq!(single.position, Some(1));
}

#[test]
fn readers_without_a_position_are_called_without_one() {
    let quotes = || ParseQuotes { single: "rlp.as_val".to_string(), list: "rlp.as_list".to_string(), takes_index: false };
    let single = decode_field(0, &named("raw", path("String")), quotes()).unwrap();
    assert_eq!(single.reader, "rlp.as_val");
    assert_eq!(single.position, None);
    let list = decode_field(0, &named("raw", path("Vec")), quotes()).unwrap();
    assert_eq!(list.reader, "rlp.as_list");
    assert_eq!(list.position, None);
    let array = decode_field(5, &named("raw", FieldType::Array), quotes()).unwrap();
    assert_eq!(array.position, Some(5));
}

#[test]
fn other_field_types_are_not_supported() {
    assert_eq!(
        decode_field(0, &named("x", FieldType::Other), decode_parse_quotes()).unwrap_err(),
        CodecError::NotSupported
    );
    let empty = FieldType::Path(Path { leading_colon: false, segments: Vec::new() });
    assert_eq!(decode_field(0, &named("x", empty), decode_parse_quotes()).unwrap_err(), CodecError::NoSegment);
    assert_eq!(CodecError::NotSupported.message(), "fixed_codec_derive not supported");
    assert_eq!(CodecError::NoSegment.message(), "there must be at least 1 segment");
}

#[test]
fn a_codec_is_derived_for_a_struct() {
    let signed_transaction = DeriveInput {
        ident: "SignedTransaction".to_string(),
        data: Data::Struct(DataStruct {
            fields: vec![
                named("raw", path("JsonString")),
                named("tx_hash", path("Hash")),
                named("pubkey", path("Bytes")),
                named("signature", path("Bytes")),
            ],
        }),
    };
    let codec = impl_fixed_codec(&signed_transaction).unwrap();
    assert_eq!(codec.name, "SignedTransaction");
    assert_eq!(codec.encoded_items, 4);
    assert_eq!(codec.decoder.name, "SignedTransaction");
    let kinds: Vec<DecodeKind> = codec.decoder.fields.iter().map(|field| field.kind).collect();
    assert_eq!(kinds, vec![DecodeKind::Single, DecodeKind::Single, DecodeKind::Bytes, DecodeKind::Bytes]);
    let positions: Vec<Option<usize>> = codec.decoder.fields.iter().map(|field| field.position).collect();
    assert_eq!(positions, vec![Some(0), Some(1), Some(2), Some(3)]);

    let hash = DeriveInput {
        ident: "Hash".to_string(),
        data: Data::Struct(DataStruct { fields: vec![Field { ident: None, ty: FieldType::Array }] }),
    };
    let codec = impl_fixed_codec(&hash).unwrap();
    assert_eq!(codec.encoded_items, 1);
    assert!(matches!(codec.decoder.fields[0].id, FieldId::Position(0)));
}

#[test]
fn a_codec_is_derived_for_structs_only() {
    let input = DeriveInput { ident: "Kind".to_string(), data: Data::Other };
    assert_eq!(impl_fixed_codec(&input).unwrap_err(), CodecError::NotStruct);
    assert_eq!(CodecError::NotStruct.message(), "#[derive(FixedCodec)] is only defined for structs.");
}

#[test]
fn the_first_unsupported_field_stops_the_decoder() {
    let body = DataStruct {
        fields: vec![
            named("a", path("u8")),
            named("b", FieldType::Path(Path { leading_colon: false, segments: Vec::new() })),
            named("c", FieldType::Other),
        ],
    };
    assert_eq!(impl_decode("S", &body).unwrap_err(), CodecError::NoSegment);
}
