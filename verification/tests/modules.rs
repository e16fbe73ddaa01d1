use subxt_gen::decl::StorageShape;
use subxt_gen::schema::DecodeArrayOrElse;
use subxt_gen::schema::DecodeOrElse;
use subxt_gen::decode_metadata;
use subxt_gen::add_module;
use subxt_gen::error::Error;
use subxt_gen::module::aggregate_module;
use subxt_gen::module::builtin_exclusions;
use subxt_gen::schema::ArgSchema;
use subxt_gen::schema::CallSchema;
use subxt_gen::schema::EntrySchema;
use subxt_gen::schema::EntryType;
use subxt_gen::schema::EventSchema;
use subxt_gen::schema::Metadata;
use subxt_gen::schema::ModuleSchema;
use subxt_gen::schema::Raw;
use subxt_gen::schema::StorageSchema;

fn res<T>(v: T) -> Raw<T> {
    Raw::Resolved(v)
}

fn balances_module() -> ModuleSchema {
    ModuleSchema {
        name: res("Balances".to_string()),
        calls: Some(res(vec![CallSchema {
            name: res("transfer".to_string()),
            arguments: res(vec![
                ArgSchema {
                    name: res("dest".to_string()),
                    ty: res("T::AccountId".to_string()),
                },
                ArgSchema {
                    name: res("value".to_string()),
                    ty: res("u128".to_string()),
                },
            ]),
        }])),
        event: Some(res(vec![EventSchema {
            name: res("Transfer".to_string()),
            arguments: res(vec![
                "T::AccountId".to_string(),
                "T::AccountId".to_string(),
                "u128".to_string(),
            ]),
        }])),
        storage: Some(res(StorageSchema {
            prefix: res("Balances".to_string()),
            entries: res(vec![EntrySchema {
                name: res("Account".to_string()),
                ty: EntryType::SingleMap {
                    key: res("AccountId".to_string()),
                    value: res("AccountData".to_string()),
                },
            }]),
        })),
    }
}

#[test]
fn balances_end_to_end() {
    let excl = builtin_exclusions();
    let d = add_module(&balances_module(), &excl)
        .expect("decodes")
        .expect("not the system module");

    assert_eq!(d.name, "Balances");
    assert_eq!(d.name_snake, "balances");

    assert_eq!(d.calls.len(), 1);
    assert_eq!(d.calls[0].name, "transfer");
    assert_eq!(d.calls[0].args.len(), 2);
    assert_eq!(d.calls[0].args[0].name, "dest");
    assert_eq!(d.calls[0].args[0].ty.render(), "T::AccountId");
    assert_eq!(d.calls[0].args[1].name, "value");
    assert_eq!(d.calls[0].args[1].ty.render(), "u128");

    assert_eq!(d.events.len(), 1);
    assert_eq!(d.events[0].name, "Transfer");
    assert_eq!(d.events[0].arguments.len(), 3);
    assert_eq!(d.events[0].arguments[2].render(), "u128");

    assert_eq!(d.storage.len(), 1);
    assert_eq!(d.storage[0].name, "Account");
    assert!(matches!(d.storage[0].shape, StorageShape::SingleMap));
    assert_eq!(d.storage[0].keys.len(), 1);
    assert_eq!(d.storage[0].keys[0].render(), "T::AccountId");
    assert_eq!(d.storage[0].value.render(), "T::AccountData");

    // Every referenced named type is one of the built-in exclusions, so the
    // residual dependency set is empty.
    assert!(d.dependency_types.is_empty());
}

#[test]
fn camel_and_snake_forms_are_computed() {
    let excl = builtin_exclusions();
    let m = ModuleSchema {
        name: res("balances_pallet".to_string()),
        calls: None,
        event: None,
        storage: None,
    };
    let d = add_module(&m, &excl).expect("decodes").expect("not the system module");
    assert_eq!(d.name, "BalancesPallet");
    assert_eq!(d.name_snake, "balances_pallet");
}

#[test]
fn system_module_yields_nothing_regardless_of_content() {
    let excl = builtin_exclusions();
    // Even placeholder sub-schemas are never inspected for the system module.
    let m = ModuleSchema {
        name: res("System".to_string()),
        calls: Some(Raw::Placeholder),
        event: Some(Raw::Placeholder),
        storage: Some(Raw::Placeholder),
    };
    let d = add_module(&m, &excl).expect("never fails for the system module");
    assert!(d.is_none());
}

#[test]
fn unsupported_version_is_reported() {
    let excl = builtin_exclusions();
    let r = decode_metadata(Metadata::Other(14), &excl);
    assert!(matches!(r, Err(Error::UnsupportedVersion(14))));
}

#[test]
fn decode_guards_unwrap_or_fail() {
    let v: Raw<String> = Raw::Resolved("abc".to_string());
    assert_eq!(v.decode_or_else().unwrap(), "abc");
    let p: Raw<String> = Raw::Placeholder;
    assert!(matches!(p.decode_or_else(), Err(Error::UnresolvedField(_))));

    let a: Raw<Vec<u32>> = Raw::Resolved(vec![1, 2, 3]);
    assert_eq!(a.decode_array_or_else().unwrap(), vec![1, 2, 3]);
    let pa: Raw<Vec<u32>> = Raw::Placeholder;
    assert!(matches!(pa.decode_array_or_else(), Err(Error::UnresolvedField(_))));
}

#[test]
fn placeholder_name_fails_the_module() {
    let excl = builtin_exclusions();
    let m = ModuleSchema { name: Raw::Placeholder, calls: None, event: None, storage: None };
    let r = add_module(&m, &excl);
    assert!(matches!(r, Err(Error::UnresolvedField(_))));
}

#[test]
fn placeholder_argument_aborts_the_document() {
    let excl = builtin_exclusions();
    let bad = ModuleSchema {
        name: res("Broken".to_string()),
        calls: Some(res(vec![CallSchema {
            name: res("oops".to_string()),
            arguments: Raw::Placeholder,
        }])),
        event: None,
        storage: None,
    };
    let r = decode_metadata(Metadata::V12(res(vec![balances_module(), bad])), &excl);
    assert!(matches!(r, Err(Error::UnresolvedField(_))));
}

#[test]
fn document_skips_system_and_keeps_module_order() {
    let excl = builtin_exclusions();
    let system = ModuleSchema {
        name: res("System".to_string()),
        calls: None,
        event: None,
        storage: None,
    };
    let timestamp = ModuleSchema {
        name: res("Timestamp".to_string()),
        calls: Some(res(vec![CallSchema {
            name: res("set".to_string()),
            arguments: res(vec![ArgSchema {
                name: res("now".to_string()),
                ty: res("T::Moment".to_string()),
            }]),
        }])),
        event: None,
        storage: None,
    };
    let ds = decode_metadata(
        Metadata::V12(res(vec![system, balances_module(), timestamp])),
        &excl,
    )
    .expect("decodes");
    assert_eq!(ds.len(), 2);
    assert_eq!(ds[0].name, "Balances");
    assert_eq!(ds[1].name, "Timestamp");
    assert_eq!(ds[1].dependency_types, vec!["Moment".to_string()]);
}

#[test]
fn placeholder_module_list_fails_the_document() {
    let excl = builtin_exclusions();
    let r = decode_metadata(Metadata::V12(Raw::Placeholder), &excl);
    assert!(matches!(r, Err(Error::UnresolvedField(_))));
}

#[test]
fn dependency_set_is_distinct_and_stable_under_reaggregation() {
    // The same named type referenced from a call, an event and a storage
    // entry appears once; aggregating the same module twice yields the same
    // set.
    let excl = builtin_exclusions();
    let m = ModuleSchema {
        name: res("Staking".to_string()),
        calls: Some(res(vec![CallSchema {
            name: res("bond".to_string()),
            arguments: res(vec![ArgSchema {
                name: res("amount".to_string()),
                ty: res("BalanceOf<T>".to_string()),
            }]),
        }])),
        event: Some(res(vec![EventSchema {
            name: res("Bonded".to_string()),
            arguments: res(vec!["BalanceOf".to_string(), "T::Moment".to_string()]),
        }])),
        storage: Some(res(StorageSchema {
            prefix: res("Staking".to_string()),
            entries: res(vec![EntrySchema {
                name: res("Ledger".to_string()),
                ty: EntryType::Plain(res("Vec<(BalanceOf,T::Moment)>".to_string())),
            }]),
        })),
    };
    let first = add_module(&m, &excl).expect("decodes").expect("not system");
    let second = add_module(&m, &excl).expect("decodes").expect("not system");

    let mut deps1 = first.dependency_types.clone();
    deps1.sort();
    assert_eq!(deps1, vec!["BalanceOf".to_string(), "Moment".to_string()]);

    let mut deps2 = second.dependency_types.clone();
    deps2.sort();
    assert_eq!(deps1, deps2);
}

#[test]
fn exclusions_are_a_configuration_value() {
    // With an empty exclusion list the built-in names stay in the set.
    let m = balances_module();
    let none: Vec<String> = Vec::new();
    let d = aggregate_module(
        "Balances".to_string(),
        "balances".to_string(),
        &m,
        &none,
    )
    .expect("decodes")
    .expect("not system");
    let mut deps = d.dependency_types.clone();
    deps.sort();
    assert_eq!(deps, vec!["AccountData".to_string(), "AccountId".to_string()]);
}

#[test]
fn aggregate_skips_exactly_the_system_name() {
    let excl = builtin_exclusions();
    let m = ModuleSchema { name: res("ignored".to_string()), calls: None, event: None, storage: None };
    let skipped = aggregate_module("System".to_string(), "system".to_string(), &m, &excl)
        .expect("never fails for the system module");
    assert!(skipped.is_none());
    let kept = aggregate_module("Sudo".to_string(), "sudo".to_string(), &m, &excl)
        .expect("decodes")
        .expect("not system");
    assert_eq!(kept.name, "Sudo");
}

#[test]
fn storage_shapes_carry_matching_key_counts() {
    let excl = builtin_exclusions();
    let m = ModuleSchema {
        name: res("Shapes".to_string()),
        calls: None,
        event: None,
        storage: Some(res(StorageSchema {
            prefix: res("Shapes".to_string()),
            entries: res(vec![
                EntrySchema {
                    name: res("Total".to_string()),
                    ty: EntryType::Plain(res("u128".to_string())),
                },
                EntrySchema {
                    name: res("Nonce".to_string()),
                    ty: EntryType::SingleMap {
                        key: res("T::AccountId".to_string()),
                        value: res("u64".to_string()),
                    },
                },
                EntrySchema {
                    name: res("Approvals".to_string()),
                    ty: EntryType::DoubleMap {
                        key1: res("T::AccountId".to_string()),
                        key2: res("u32".to_string()),
                        value: res("Option<u128>".to_string()),
                    },
                },
            ]),
        })),
    };
    let d = add_module(&m, &excl).expect("decodes").expect("not system");
    assert_eq!(d.storage.len(), 3);
    assert!(matches!(d.storage[0].shape, StorageShape::Plain));
    assert_eq!(d.storage[0].keys.len(), 0);
    assert!(matches!(d.storage[1].shape, StorageShape::SingleMap));
    assert_eq!(d.storage[1].keys.len(), 1);
    assert!(matches!(d.storage[2].shape, StorageShape::DoubleMap));
    assert_eq!(d.storage[2].keys.len(), 2);
    assert_eq!(d.storage[2].value.render(), "Option<u128>");
}
