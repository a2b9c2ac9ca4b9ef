use muta_service::binding::{
    extract_hooks, extract_method_meta, extract_res_ident, find_genesis, find_list_for_item_method,
    find_service_method, gen_service_code, get_genesis_body, get_service_ident, Attribute, ConfigError, EventIdent,
    FnArg, GenericArgument, Genesis, ImplItem, ImplItemMethod, ItemImpl, Path, PathArguments, PathSegment,
    ReturnType, ServiceMethod, Signature, Type,
};
use muta_service::table::{
    gen_meta_code, split_list_for_metadata, split_list_for_metadata_nonepayload, MethodTable, Route,
};

fn name_path(name: &str) -> Path {
    Path {
        leading_colon: false,
        segments: vec![PathSegment { ident: name.to_string(), arguments: PathArguments::Absent }],
    }
}

fn attr(name: &str) -> Attribute {
    Attribute { path: name_path(name) }
}

fn response_of(data: Type) -> ReturnType {
    ReturnType::Type(Type::Path(Path {
        leading_colon: false,
        segments: vec![PathSegment {
            ident: "ServiceResponse".to_string(),
            arguments: PathArguments::AngleBracketed(vec![GenericArgument::Type(data)]),
        }],
    }))
}

fn typed(name: &str) -> FnArg {
    FnArg::Typed(Type::Path(name_path(name)))
}

fn method(marks: &[&str], name: &str, payload: Option<&str>, data: Option<&str>) -> ImplItemMethod {
    let mut inputs = vec![FnArg::Receiver, typed("ServiceContext")];
    if let Some(payload) = payload {
        inputs.push(typed(payload));
    }
    let output = match data {
        Some(data) => response_of(Type::Path(name_path(data))),
        None => response_of(Type::Tuple),
    };
    ImplItemMethod {
        attrs: marks.iter().map(|mark| attr(mark)).collect(),
        sig: Signature { ident: name.to_string(), inputs, output },
    }
}

fn hook(mark: &str, name: &str) -> ImplItemMethod {
    ImplItemMethod {
        attrs: vec![attr(mark)],
        sig: Signature { ident: name.to_string(), inputs: vec![FnArg::Receiver], output: ReturnType::Default },
    }
}

fn block(methods: Vec<ImplItemMethod>) -> ItemImpl {
    ItemImpl {
        self_ty: Type::Path(name_path("BankService")),
        items: methods.into_iter().map(ImplItem::Method).collect(),
    }
}

fn no_event() -> EventIdent {
    EventIdent { event: None }
}

fn error_of(item: &ItemImpl) -> ConfigError {
    gen_service_code(no_event(), item).unwrap_err()
}

#[test]
fn a_declaration_becomes_a_service() {
    let item = ItemImpl {
        self_ty: Type::Path(name_path("BankService")),
        items: vec![
            ImplItem::Other,
            ImplItem::Method(hook("genesis", "init")),
            ImplItem::Method(method(&["cycles", "read"], "balance", Some("BalancePayload"), Some("Balance"))),
            ImplItem::Method(method(&["read"], "total", None, Some("Balance"))),
            ImplItem::Method(method(&["write"], "transfer", Some("TransferPayload"), None)),
            ImplItem::Method(method(&["write"], "burn", None, None)),
            ImplItem::Method(method(&[], "helper", None, None)),
            ImplItem::Method(hook("hook_before", "open_block")),
            ImplItem::Method(hook("hook_after", "close_block")),
            ImplItem::Method(hook("tx_hook_before", "open_tx")),
            ImplItem::Method(hook("tx_hook_after", "close_tx")),
        ],
    };
    let code = gen_service_code(EventIdent { event: Some("BankEvent".to_string()) }, &item).unwrap();

    assert_eq!(code.service(), "BankService");
    assert_eq!(code.event().as_deref(), Some("BankEvent"));
    assert!(matches!(code.genesis(), Genesis::Plain { method } if method == "init"));
    assert_eq!(code.hooks().before.as_deref(), Some("open_block"));
    assert_eq!(code.hooks().after.as_deref(), Some("close_block"));
    assert_eq!(code.hooks().tx_before.as_deref(), Some("open_tx"));
    assert_eq!(code.hooks().tx_after.as_deref(), Some("close_tx"));

    let names: Vec<&str> = code.methods().iter().map(|meta| meta.method_name.as_str()).collect();
    assert_eq!(names, vec!["balance", "total", "transfer", "burn"]);
    assert_eq!(code.methods()[0].payload_type.as_deref(), Some("BalancePayload"));
    assert_eq!(code.methods()[0].res_type.as_deref(), Some("Balance"));
    assert!(code.methods()[0].readonly);
    assert_eq!(code.methods()[2].res_type, None);
    assert!(!code.methods()[2].readonly);
    assert_eq!(code.register(), &vec!["BalancePayload", "Balance", "Balance", "TransferPayload"]);

    assert!(matches!(code.route(true, "balance"), Route::WithPayload { payload_type } if payload_type == "BalancePayload"));
    assert!(matches!(code.route(true, "total"), Route::Plain));
    assert!(matches!(code.route(true, "transfer"), Route::NotFound));
    assert!(matches!(code.route(false, "transfer"), Route::WithPayload { payload_type } if payload_type == "TransferPayload"));
    assert!(matches!(code.route(false, "burn"), Route::Plain));
    assert!(matches!(code.route(false, "balance"), Route::NotFound));
    assert!(matches!(code.route(true, "helper"), Route::NotFound));
    assert!(matches!(code.route(true, "Balance"), Route::NotFound));
}

#[test]
fn a_block_without_genesis_or_hooks_has_none() {
    let code = gen_service_code(no_event(), &block(vec![method(&["read"], "total", None, None)])).unwrap();
    assert!(matches!(code.genesis(), Genesis::Absent));
    assert_eq!(code.hooks().before, None);
    assert_eq!(code.hooks().after, None);
    assert_eq!(code.hooks().tx_before, None);
    assert_eq!(code.hooks().tx_after, None);
    assert_eq!(code.event(), &None);
}

#[test]
fn the_service_must_be_written_for_a_path() {
    let item = ItemImpl { self_ty: Type::Tuple, items: Vec::new() };
    assert_eq!(get_service_ident(&item).unwrap_err(), ConfigError::ServiceIdentNotFound);
    assert_eq!(error_of(&item), ConfigError::ServiceIdentNotFound);
    assert_eq!(ConfigError::ServiceIdentNotFound.message(), "The identity of the service was not found.");
    let nested = ItemImpl {
        self_ty: Type::Path(Path {
            leading_colon: false,
            segments: vec![
                PathSegment { ident: "bank".to_string(), arguments: PathArguments::Absent },
                PathSegment { ident: "BankService".to_string(), arguments: PathArguments::Absent },
            ],
        }),
        items: Vec::new(),
    };
    assert_eq!(get_service_ident(&nested).unwrap(), "bank");
}

#[test]
fn two_genesis_methods_are_refused() {
    let item = block(vec![hook("genesis", "init"), hook("genesis", "init_again")]);
    assert_eq!(find_genesis(&item.items).unwrap_err(), ConfigError::DuplicateGenesis);
    assert_eq!(error_of(&item), ConfigError::DuplicateGenesis);
    assert_eq!(ConfigError::DuplicateGenesis.message(), "The genesis method can only have one");

    let twice_on_one = ImplItemMethod {
        attrs: vec![attr("genesis"), attr("genesis")],
        sig: Signature { ident: "init".to_string(), inputs: vec![FnArg::Receiver], output: ReturnType::Default },
    };
    assert_eq!(error_of(&block(vec![twice_on_one])), ConfigError::DuplicateGenesis);
}

#[test]
fn the_genesis_method_is_found_and_described() {
    let item = block(vec![method(&["read"], "total", None, None), hook("genesis", "init")]);
    let found = find_genesis(&item.items).unwrap().unwrap();
    assert_eq!(found.sig.ident, "init");
    assert!(find_genesis(&block(vec![method(&["read"], "total", None, None)]).items).unwrap().is_none());

    let with_payload = ImplItemMethod {
        attrs: vec![attr("genesis")],
        sig: Signature {
            ident: "init".to_string(),
            inputs: vec![FnArg::Receiver, typed("InitPayload")],
            output: ReturnType::Default,
        },
    };
    match get_genesis_body(&with_payload).unwrap() {
        Genesis::WithPayload { method, payload_type } => {
            assert_eq!(method, "init");
            assert_eq!(payload_type, "InitPayload");
        }
        other => panic!("unexpected genesis {:?}", other),
    }
}

#[test]
fn a_genesis_method_with_other_parameters_is_refused() {
    let none = ImplItemMethod {
        attrs: vec![attr("genesis")],
        sig: Signature { ident: "init".to_string(), inputs: Vec::new(), output: ReturnType::Default },
    };
    assert_eq!(get_genesis_body(&none).unwrap_err(), ConfigError::GenesisParams);
    let three = ImplItemMethod {
        attrs: vec![attr("genesis")],
        sig: Signature {
            ident: "init".to_string(),
            inputs: vec![FnArg::Receiver, typed("A"), typed("B")],
            output: ReturnType::Default,
        },
    };
    assert_eq!(error_of(&block(vec![three])), ConfigError::GenesisParams);
    let receiver_twice = ImplItemMethod {
        attrs: vec![attr("genesis")],
        sig: Signature {
            ident: "init".to_string(),
            inputs: vec![FnArg::Receiver, FnArg::Receiver],
            output: ReturnType::Default,
        },
    };
    assert_eq!(get_genesis_body(&receiver_twice).unwrap_err(), ConfigError::GenesisParams);
    let untyped = ImplItemMethod {
        attrs: vec![attr("genesis")],
        sig: Signature {
            ident: "init".to_string(),
            inputs: vec![FnArg::Receiver, FnArg::Typed(Type::Tuple)],
            output: ReturnType::Default,
        },
    };
    assert_eq!(get_genesis_body(&untyped).unwrap_err(), ConfigError::NoPayloadType);
    assert_eq!(ConfigError::NoPayloadType.message(), "No payload type found.");
    assert_eq!(
        ConfigError::GenesisParams.message(),
        "genesis method input params should be `(&mut self)` or `(&mut self, payload: PayloadType)`"
    );
}

#[test]
fn each_hook_may_be_registered_once() {
    let cases = [
        ("hook_before", ConfigError::DuplicateHookBefore, "The before hook can only have one"),
        ("hook_after", ConfigError::DuplicateHookAfter, "The after hook can only have one"),
        ("tx_hook_before", ConfigError::DuplicateTxHookBefore, "The tx before hook can only have one"),
        ("tx_hook_after", ConfigError::DuplicateTxHookAfter, "The tx after hook can only have one"),
    ];
    for (mark, error, message) in cases {
        let item = block(vec![hook(mark, "first"), hook("genesis", "init"), hook(mark, "second")]);
        assert_eq!(extract_hooks(&item.items).unwrap_err(), error);
        assert_eq!(error_of(&item), error);
        assert_eq!(error.message(), message);
    }
}

#[test]
fn the_first_repeated_hook_is_the_one_reported() {
    let item = block(vec![
        hook("tx_hook_after", "a"),
        hook("hook_before", "b"),
        hook("hook_before", "c"),
        hook("tx_hook_after", "d"),
    ]);
    assert_eq!(extract_hooks(&item.items).unwrap_err(), ConfigError::DuplicateHookBefore);
}

#[test]
fn hooks_are_known_by_the_names_of_their_methods() {
    let item = block(vec![hook("hook_after", "close_block"), hook("tx_hook_before", "open_tx")]);
    let hooks = extract_hooks(&item.items).unwrap();
    assert_eq!(hooks.before, None);
    assert_eq!(hooks.after.as_deref(), Some("close_block"));
    assert_eq!(hooks.tx_before.as_deref(), Some("open_tx"));
    assert_eq!(hooks.tx_after, None);
}

#[test]
fn the_first_mark_decides_between_read_and_write() {
    let both = method(&["write", "read"], "odd", None, None);
    assert!(matches!(find_service_method(&both), Some(ServiceMethod::Write(_))));
    let read = method(&["cycles", "read"], "total", None, None);
    assert!(matches!(find_service_method(&read), Some(ServiceMethod::Read(_))));
    let plain = method(&["cycles"], "helper", None, None);
    assert!(find_service_method(&plain).is_none());
    let in_path = ImplItemMethod {
        attrs: vec![Attribute {
            path: Path {
                leading_colon: false,
                segments: vec![
                    PathSegment { ident: "binding".to_string(), arguments: PathArguments::Absent },
                    PathSegment { ident: "write".to_string(), arguments: PathArguments::Absent },
                ],
            },
        }],
        sig: Signature { ident: "x".to_string(), inputs: Vec::new(), output: ReturnType::Default },
    };
    assert!(matches!(find_service_method(&in_path), Some(ServiceMethod::Write(_))));
}

#[test]
fn only_methods_are_listed() {
    let item = ItemImpl {
        self_ty: Type::Path(name_path("S")),
        items: vec![
            ImplItem::Other,
            ImplItem::Method(hook("genesis", "a")),
            ImplItem::Other,
            ImplItem::Method(hook("read", "b")),
        ],
    };
    let list = find_list_for_item_method(&item.items);
    let names: Vec<&str> = list.iter().map(|m| m.sig.ident.as_str()).collect();
    assert_eq!(names, vec!["a", "b"]);
}

#[test]
fn a_marked_method_needs_two_or_three_parameters() {
    let one = ImplItemMethod {
        attrs: vec![attr("read")],
        sig: Signature { ident: "m".to_string(), inputs: vec![FnArg::Receiver], output: response_of(Type::Tuple) },
    };
    assert_eq!(extract_method_meta(ServiceMethod::Read(&one)).unwrap_err(), ConfigError::MethodParams);
    assert_eq!(error_of(&block(vec![one])), ConfigError::MethodParams);
    let four = ImplItemMethod {
        attrs: vec![attr("write")],
        sig: Signature {
            ident: "m".to_string(),
            inputs: vec![FnArg::Receiver, typed("ServiceContext"), typed("A"), typed("B")],
            output: response_of(Type::Tuple),
        },
    };
    assert_eq!(error_of(&block(vec![four])), ConfigError::MethodParams);
    assert_eq!(
        ConfigError::MethodParams.message(),
        "Method input params should be `(&self/&mut self, ctx: ServiceContext)` or `(&self/&mut self, ctx: ServiceContext, payload: PayloadType)`"
    );
}

#[test]
fn a_payload_type_must_be_a_plain_name() {
    let generic = ImplItemMethod {
        attrs: vec![attr("read")],
        sig: Signature {
            ident: "m".to_string(),
            inputs: vec![
                FnArg::Receiver,
                typed("ServiceContext"),
                FnArg::Typed(Type::Path(Path {
                    leading_colon: false,
                    segments: vec![PathSegment {
                        ident: "Vec".to_string(),
                        arguments: PathArguments::AngleBracketed(vec![GenericArgument::Type(Type::Path(
                            name_path("u8"),
                        ))]),
                    }],
                })),
            ],
            output: response_of(Type::Tuple),
        },
    };
    assert_eq!(error_of(&block(vec![generic])), ConfigError::NoPayloadType);
    let rooted = ImplItemMethod {
        attrs: vec![attr("read")],
        sig: Signature {
            ident: "m".to_string(),
            inputs: vec![
                FnArg::Receiver,
                typed("ServiceContext"),
                FnArg::Typed(Type::Path(Path { leading_colon: true, ..name_path("Payload") })),
            ],
            output: response_of(Type::Tuple),
        },
    };
    assert_eq!(error_of(&block(vec![rooted])), ConfigError::NoPayloadType);
    let other = ImplItemMethod {
        attrs: vec![attr("read")],
        sig: Signature {
            ident: "m".to_string(),
            inputs: vec![FnArg::Receiver, typed("ServiceContext"), FnArg::Typed(Type::Other)],
            output: response_of(Type::Tuple),
        },
    };
    assert_eq!(error_of(&block(vec![other])), ConfigError::NoPayloadType);
}

#[test]
fn the_return_type_must_be_a_response() {
    assert_eq!(extract_res_ident(&ReturnType::Default).unwrap_err(), ConfigError::ReturnTypeInvalid);
    assert_eq!(extract_res_ident(&ReturnType::Type(Type::Tuple)).unwrap_err(), ConfigError::ReturnTypeInvalid);
    assert_eq!(
        extract_res_ident(&ReturnType::Type(Type::Path(name_path("bool")))).unwrap_err(),
        ConfigError::ReturnTypeInvalid
    );
    let lifetime_only = ReturnType::Type(Type::Path(Path {
        leading_colon: false,
        segments: vec![PathSegment {
            ident: "ServiceResponse".to_string(),
            arguments: PathArguments::AngleBracketed(vec![GenericArgument::Other]),
        }],
    }));
    assert_eq!(extract_res_ident(&lifetime_only).unwrap_err(), ConfigError::ReturnTypeInvalid);
    let parenthesized = ReturnType::Type(Type::Path(Path {
        leading_colon: false,
        segments: vec![PathSegment { ident: "Fn".to_string(), arguments: PathArguments::Parenthesized }],
    }));
    assert_eq!(extract_res_ident(&parenthesized).unwrap_err(), ConfigError::ReturnTypeInvalid);
    assert_eq!(
        ConfigError::ReturnTypeInvalid.message(),
        "return type of read/write method should be ServiceResponse<T>"
    );
}

#[test]
fn the_response_must_name_its_data() {
    let empty_brackets = ReturnType::Type(Type::Path(Path {
        leading_colon: false,
        segments: vec![PathSegment {
            ident: "ServiceResponse".to_string(),
            arguments: PathArguments::AngleBracketed(Vec::new()),
        }],
    }));
    assert_eq!(extract_res_ident(&empty_brackets).unwrap_err(), ConfigError::ResponseTypeMissing);
    let no_segments = ReturnType::Type(Type::Path(Path { leading_colon: false, segments: Vec::new() }));
    assert_eq!(extract_res_ident(&no_segments).unwrap_err(), ConfigError::ResponseTypeMissing);
    assert_eq!(ConfigError::ResponseTypeMissing.message(), "ServiceResponse<T> should contain T");

    assert_eq!(extract_res_ident(&response_of(Type::Other)).unwrap_err(), ConfigError::ResponseTypeUnsupported);
    let empty_data = response_of(Type::Path(Path { leading_colon: false, segments: Vec::new() }));
    assert_eq!(extract_res_ident(&empty_data).unwrap_err(), ConfigError::ResponseTypeUnsupported);
    assert_eq!(
        ConfigError::ResponseTypeUnsupported.message(),
        "ServiceResponse<T>: T should be a generic type or ()"
    );

    assert_eq!(extract_res_ident(&response_of(Type::Tuple)).unwrap(), None);
    assert_eq!(extract_res_ident(&response_of(Type::Path(name_path("Balance")))).unwrap().as_deref(), Some("Balance"));
}

#[test]
fn a_method_name_may_be_used_once() {
    let item = block(vec![
        method(&["read"], "balance", None, None),
        method(&["write"], "balance", Some("P"), None),
    ]);
    assert_eq!(error_of(&item), ConfigError::DuplicateMethod);
    assert_eq!(ConfigError::DuplicateMethod.message(), "The name of a method can only be used once");

    let mut table = MethodTable::new();
    assert!(table.register_method("a".to_string(), true, None, None).is_ok());
    assert_eq!(
        table.register_method("a".to_string(), false, Some("P".to_string()), None).unwrap_err(),
        ConfigError::DuplicateMethod
    );
    assert!(table.register_method("b".to_string(), false, Some("P".to_string()), None).is_ok());
    assert_eq!(table.methods().len(), 2);
    assert!(table.methods()[0].readonly);
}

#[test]
fn errors_come_in_the_order_of_the_checks() {
    // The genesis method is looked at before the hooks, the hooks before the methods.
    let item = block(vec![
        method(&["read"], "broken", Some("P"), None),
        hook("hook_before", "a"),
        hook("hook_before", "b"),
        hook("genesis", "g1"),
        hook("genesis", "g2"),
    ]);
    assert_eq!(error_of(&item), ConfigError::DuplicateGenesis);
    let item = block(vec![
        ImplItemMethod {
            attrs: vec![attr("read")],
            sig: Signature { ident: "m".to_string(), inputs: Vec::new(), output: ReturnType::Default },
        },
        hook("hook_before", "a"),
        hook("hook_before", "b"),
    ]);
    assert_eq!(error_of(&item), ConfigError::DuplicateHookBefore);
}

#[test]
fn methods_fall_into_four_buckets() {
    let item = block(vec![
        method(&["read"], "r_payload", Some("A"), Some("X")),
        method(&["write"], "w_plain", None, None),
        method(&["read"], "r_plain", None, Some("Y")),
        method(&["write"], "w_payload", Some("B"), Some("X")),
        method(&["read"], "r_payload_2", Some("B"), None),
    ]);
    let code = gen_service_code(no_event(), &item).unwrap();
    let (names, payloads) = split_list_for_metadata(code.methods(), true);
    assert_eq!(names, vec!["r_payload", "r_payload_2"]);
    assert_eq!(payloads, vec!["A", "B"]);
    let (names, payloads) = split_list_for_metadata(code.methods(), false);
    assert_eq!(names, vec!["w_payload"]);
    assert_eq!(payloads, vec!["B"]);
    assert_eq!(split_list_for_metadata_nonepayload(code.methods(), true), vec!["r_plain"]);
    assert_eq!(split_list_for_metadata_nonepayload(code.methods(), false), vec!["w_plain"]);

    let meta = gen_meta_code(code.methods());
    assert_eq!(meta.register, vec!["A", "X", "Y", "B", "X", "B"]);
    assert_eq!(meta.method_metas.len(), 5);
    assert_eq!(meta.method_metas[4].method_name, "r_payload_2");
}
