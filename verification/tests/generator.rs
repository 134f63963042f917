use ink_wrapper::classify::group_messages;
use ink_wrapper::classify::label_method_name;
use ink_wrapper::classify::label_trait_name;
use ink_wrapper::classify::MessageSpecExtensions;
use ink_wrapper::codegen::gather_args;
use ink_wrapper::codegen::generate;
use ink_wrapper::codegen::new_name;
use ink_wrapper::codegen::quote_docs;
use ink_wrapper::errors::GenError;
use ink_wrapper::hexdata::hex_to_bytes;
use ink_wrapper::metadata::AggregateFields;
use ink_wrapper::metadata::Arg;
use ink_wrapper::metadata::Constructor;
use ink_wrapper::metadata::ContractMetadata;
use ink_wrapper::metadata::EventDef;
use ink_wrapper::metadata::EventField;
use ink_wrapper::metadata::Field;
use ink_wrapper::metadata::Fields;
use ink_wrapper::metadata::Message;
use ink_wrapper::metadata::Primitive;
use ink_wrapper::metadata::Type;
use ink_wrapper::metadata::TypeDef;
use ink_wrapper::metadata::TypeDefComposite;
use ink_wrapper::metadata::TypeExtensions;
use ink_wrapper::metadata::TypeRegistry;
use ink_wrapper::metadata::Variant;
use ink_wrapper::typeref::type_ref;
use ink_wrapper::typeref::type_ref_prefix;

fn prim(p: Primitive) -> Type {
    Type {
        path: vec![],
        params: vec![],
        def: TypeDef::Primitive(p),
    }
}

fn named_field(name: &str, ty: u32) -> Field {
    Field {
        name: Some(name.to_string()),
        ty,
    }
}

fn unnamed_field(ty: u32) -> Field {
    Field { name: None, ty }
}

/// A registry exercising every reference form:
/// 0: u32, 1: bool, 2: (u32, bool), 3: [u32; 3], 4: Vec<u32>,
/// 5: Compact<u32>, 6: custom MyStruct<u32>, 7: String.
fn sample_registry() -> TypeRegistry {
    TypeRegistry {
        types: vec![
            prim(Primitive::U32),
            prim(Primitive::Bool),
            Type {
                path: vec![],
                params: vec![],
                def: TypeDef::Tuple(vec![0, 1]),
            },
            Type {
                path: vec![],
                params: vec![],
                def: TypeDef::Array(0, 3),
            },
            Type {
                path: vec![],
                params: vec![],
                def: TypeDef::Sequence(0),
            },
            Type {
                path: vec![],
                params: vec![],
                def: TypeDef::Compact(0),
            },
            Type {
                path: vec!["my_contract".to_string(), "MyStruct".to_string()],
                params: vec![0],
                def: TypeDef::Composite(TypeDefComposite {
                    fields: vec![named_field("a", 0)],
                }),
            },
            prim(Primitive::Str),
        ],
    }
}

#[test]
fn renders_primitive_and_container_references() {
    let reg = sample_registry();
    assert_eq!(type_ref(&reg, 0).unwrap(), "u32");
    assert_eq!(type_ref(&reg, 1).unwrap(), "bool");
    assert_eq!(type_ref(&reg, 2).unwrap(), "(u32, bool)");
    assert_eq!(type_ref(&reg, 3).unwrap(), "[u32; 3]");
    assert_eq!(type_ref(&reg, 4).unwrap(), "Vec<u32>");
    assert_eq!(type_ref(&reg, 5).unwrap(), "scale::Compact<u32>");
    assert_eq!(type_ref(&reg, 7).unwrap(), "String");
}

#[test]
fn renders_custom_references_with_generics_and_prefix() {
    let reg = sample_registry();
    assert_eq!(type_ref(&reg, 6).unwrap(), "MyStruct<u32>");
    assert_eq!(type_ref_prefix(&reg, 6, "super").unwrap(), "super::MyStruct<u32>");
    // A primitive never takes the prefix.
    assert_eq!(type_ref_prefix(&reg, 0, "super").unwrap(), "u32");
}

#[test]
fn rewrites_reserved_and_framework_types() {
    let lang_error = Type {
        path: vec!["ink_primitives".to_string(), "LangError".to_string()],
        params: vec![],
        def: TypeDef::Variant(vec![Variant {
            name: "CouldNotReadInput".to_string(),
            fields: vec![],
        }]),
    };
    assert!(lang_error.is_ink());
    assert!(lang_error.is_lang_error());
    assert!(!lang_error.is_custom());
    assert_eq!(lang_error.qualified_name(), "ink_wrapper_types::InkLangError");

    let ink_types = Type {
        path: vec![
            "ink_primitives".to_string(),
            "types".to_string(),
            "AccountId".to_string(),
        ],
        params: vec![],
        def: TypeDef::Composite(TypeDefComposite { fields: vec![] }),
    };
    assert_eq!(ink_types.qualified_name(), "ink_primitives::AccountId");

    let plain_ink = Type {
        path: vec!["ink_primitives".to_string(), "Hash".to_string()],
        params: vec![],
        def: TypeDef::Composite(TypeDefComposite { fields: vec![] }),
    };
    assert_eq!(plain_ink.qualified_name(), "ink_primitives::Hash");
}

#[test]
fn unresolved_type_id_is_fatal() {
    let reg = sample_registry();
    assert_eq!(type_ref(&reg, 99), Err(GenError::UnresolvedTypeId(99)));
}

#[test]
fn mixed_fields_are_rejected() {
    let mixed = TypeDefComposite {
        fields: vec![named_field("a", 0), unnamed_field(1)],
    };
    assert!(matches!(mixed.aggregate_fields(), Err(GenError::MixedFields)));

    let named = TypeDefComposite {
        fields: vec![named_field("a", 0), named_field("b", 1)],
    };
    match named.aggregate_fields().unwrap() {
        Fields::Named(fs) => {
            assert_eq!(fs.len(), 2);
            assert_eq!(fs[0].0, "a");
            assert_eq!(fs[1].1, 1);
        }
        Fields::Unnamed(_) => panic!("expected named fields"),
    }

    let unnamed = TypeDefComposite {
        fields: vec![unnamed_field(0), unnamed_field(1)],
    };
    match unnamed.aggregate_fields().unwrap() {
        Fields::Unnamed(tys) => assert_eq!(tys, vec![0, 1]),
        Fields::Named(_) => panic!("expected unnamed fields"),
    }
}

#[test]
fn label_splitting_classifies_namespaces() {
    assert_eq!(label_trait_name("transfer").unwrap(), None);
    assert_eq!(
        label_trait_name("PSP22::transfer").unwrap(),
        Some("PSP22".to_string())
    );
    assert_eq!(
        label_trait_name("A::B::transfer"),
        Err(GenError::NestedNamespace)
    );
    assert_eq!(label_method_name("PSP22::transfer"), "transfer");
    assert_eq!(label_method_name("transfer"), "transfer");
}

fn message(label: &str, selector: &str, mutates: bool) -> Message {
    Message {
        label: label.to_string(),
        selector: selector.to_string(),
        args: vec![],
        return_type: 0,
        mutates,
        payable: false,
        docs: vec![],
    }
}

#[test]
fn grouping_partitions_messages() {
    let messages = vec![
        message("foo", "0x00000000", false),
        message("PSP22::transfer", "0x00000001", true),
        message("Other::x", "0x00000002", false),
        message("PSP22::balance_of", "0x00000003", false),
    ];
    let (inherent, groups) = group_messages(&messages).unwrap();
    assert_eq!(inherent.len(), 1);
    assert_eq!(inherent[0].label, "foo");
    assert_eq!(groups.len(), 2);
    assert_eq!(groups[0].name, "PSP22");
    assert_eq!(groups[0].messages.len(), 2);
    assert_eq!(groups[0].messages[0].label, "PSP22::transfer");
    assert_eq!(groups[0].messages[1].label, "PSP22::balance_of");
    assert_eq!(groups[1].name, "Other");
    assert_eq!(groups[1].messages.len(), 1);

    let nested = vec![message("A::B::c", "0x00000000", false)];
    assert!(matches!(group_messages(&nested), Err(GenError::NestedNamespace)));

    let trait_name = messages[1].trait_name().unwrap();
    assert_eq!(trait_name, Some("PSP22".to_string()));
    assert_eq!(messages[1].method_name(), "transfer");
}

#[test]
fn accumulator_name_avoids_argument_names() {
    let args = vec![
        Arg {
            label: "data".to_string(),
            ty: 0,
        },
        Arg {
            label: "data_".to_string(),
            ty: 0,
        },
    ];
    assert_eq!(new_name("data", &args), "data__");
    let no_clash = vec![Arg {
        label: "x".to_string(),
        ty: 0,
    }];
    assert_eq!(new_name("data", &no_clash), "data");
}

#[test]
fn gather_args_packs_selector_and_arguments() {
    let sel = vec![1u8, 2, 3, 4];
    assert_eq!(gather_args(&sel, &vec![], "data"), "vec![1, 2, 3, 4]");
    let args = vec![Arg {
        label: "an_u32".to_string(),
        ty: 0,
    }];
    assert_eq!(
        gather_args(&sel, &args, "data"),
        "{ let mut data = vec![1, 2, 3, 4]; an_u32.encode_to(&mut data); data }"
    );
}

#[test]
fn hex_decoding_accepts_prefix_and_rejects_junk() {
    assert_eq!(hex_to_bytes("0x9bae9d5e").unwrap(), vec![155, 174, 157, 94]);
    assert_eq!(hex_to_bytes("9bae9d5e").unwrap(), vec![155, 174, 157, 94]);
    assert_eq!(hex_to_bytes("0xABCDef01").unwrap(), vec![171, 205, 239, 1]);
    assert_eq!(hex_to_bytes("0xg1"), Err(GenError::InvalidHex));
    assert_eq!(hex_to_bytes("0x123"), Err(GenError::InvalidHex));
}

#[test]
fn docs_are_trimmed_joined_and_escaped() {
    let lines = vec![" Example docs ".to_string(), "for a \"message\".".to_string()];
    assert_eq!(
        quote_docs(&lines),
        "#[doc = \"Example docsfor a \\\"message\\\".\"]\n"
    );
    assert_eq!(quote_docs(&vec![]), "");
}

fn sample_metadata() -> ContractMetadata {
    ContractMetadata {
        registry: sample_registry(),
        constructors: vec![Constructor {
            label: "new".to_string(),
            selector: "0x9bae9d5e".to_string(),
            args: vec![
                Arg {
                    label: "an_u32".to_string(),
                    ty: 0,
                },
                Arg {
                    label: "a_bool".to_string(),
                    ty: 1,
                },
            ],
            payable: false,
            docs: vec![],
        }],
        messages: vec![
            Message {
                label: "set_u32".to_string(),
                selector: "0xf607b8f6".to_string(),
                args: vec![Arg {
                    label: "an_u32".to_string(),
                    ty: 0,
                }],
                return_type: 0,
                mutates: true,
                payable: false,
                docs: vec![],
            },
            Message {
                label: "get_u32".to_string(),
                selector: "0xd92d0bcc".to_string(),
                args: vec![],
                return_type: 0,
                mutates: false,
                payable: false,
                docs: vec![],
            },
            Message {
                label: "PSP22::transfer".to_string(),
                selector: "0x00000004".to_string(),
                args: vec![],
                return_type: 1,
                mutates: true,
                payable: false,
                docs: vec![],
            },
        ],
        events: vec![EventDef {
            label: "Event1".to_string(),
            args: vec![EventField {
                label: "a".to_string(),
                ty: 6,
                docs: vec![],
            }],
            docs: vec![],
        }],
        code_hash: "0xafbe0227f665635d7a53b6b93ac8ce00a52350a5ec684701d17651b50b763cd7"
            .to_string(),
    }
}

#[test]
fn generates_the_example_contract_module() {
    let m = sample_metadata();
    let out = generate(&m, &None).unwrap();

    // The decoded code identifier constant.
    assert!(out.contains("pub const CODE_HASH: [u8; 32] = [175, 190, 2, 39, 246, 101"));

    // The custom type declaration, with structural equality and the codec
    // round trip derived.
    assert!(out.contains(
        "#[derive(Debug, Clone, PartialEq, Eq, scale::Encode, scale::Decode)]\n\
         pub struct MyStruct {\n    pub a: u32,\n}"
    ));

    // The constructor packs the selector and both argument encodings.
    assert!(out.contains(
        "pub fn new(an_u32: u32, a_bool: bool) -> ink_wrapper_types::InstantiateCall<Self> {\n    \
         let data = { let mut data = vec![155, 174, 157, 94]; an_u32.encode_to(&mut data); \
         a_bool.encode_to(&mut data); data };\n    \
         ink_wrapper_types::InstantiateCall::new(CODE_HASH, data)\n}"
    ));

    // The mutator wraps an exec request on the stored account identifier.
    assert!(out.contains(
        "pub fn set_u32(&self, an_u32: u32) -> ink_wrapper_types::ExecCall {\n    \
         let data = { let mut data = vec![246, 7, 184, 246]; an_u32.encode_to(&mut data); data };\n    \
         ink_wrapper_types::ExecCall::new(self.account_id, data)\n}"
    ));

    // The zero-argument reader's header is the selector bytes alone.
    assert!(out.contains(
        "pub fn get_u32(&self, ) -> ink_wrapper_types::ReadCall<u32> {\n    \
         let data = vec![217, 45, 11, 204];\n    \
         ink_wrapper_types::ReadCall::new(self.account_id, data)\n}"
    ));

    // The namespaced message becomes a trait plus an implementation.
    assert!(out.contains("pub trait PSP22 {\n    fn transfer(&self, ) -> ink_wrapper_types::ExecCall;\n}"));
    assert!(out.contains("impl PSP22 for Instance {"));

    // The event enum lives in a submodule and qualifies custom types.
    assert!(out.contains("pub mod event {"));
    assert!(out.contains("Event1 {\n    a: super::MyStruct<u32>,\n}"));

    // The instance handle and its conversions.
    assert!(out.contains("pub struct Instance {\n    account_id: ink_primitives::AccountId,\n}"));
    assert!(out.contains("impl ink_wrapper_types::EventSource for Instance {"));

    // No upload helper without a binary path.
    assert!(!out.contains("WASM_PATH"));
}

#[test]
fn generates_the_upload_helper_when_asked() {
    let m = sample_metadata();
    let out = generate(&m, &Some("contract.wasm".to_string())).unwrap();
    assert!(out.contains("pub const WASM_PATH: &str = \"contract.wasm\";"));
    assert!(out.contains("pub fn upload(wasm: Vec<u8>) -> ink_wrapper_types::UploadCall {"));
}

#[test]
fn clashing_argument_name_shifts_the_accumulator() {
    let mut m = sample_metadata();
    m.messages[0].args = vec![
        Arg {
            label: "data".to_string(),
            ty: 0,
        },
        Arg {
            label: "extra".to_string(),
            ty: 1,
        },
    ];
    let out = generate(&m, &None).unwrap();
    // The accumulator moves out of the way; the declared argument keeps its
    // name and is still encoded, in order.
    assert!(out.contains(
        "pub fn set_u32(&self, data: u32, extra: bool) -> ink_wrapper_types::ExecCall {\n    \
         let data_ = { let mut data_ = vec![246, 7, 184, 246]; data.encode_to(&mut data_); \
         extra.encode_to(&mut data_); data_ };\n    \
         ink_wrapper_types::ExecCall::new(self.account_id, data_)\n}"
    ));
}

#[test]
fn payable_entry_points_need_a_value_first() {
    let mut m = sample_metadata();
    m.constructors[0].payable = true;
    m.messages[0].payable = true;
    let out = generate(&m, &None).unwrap();
    assert!(out.contains(
        "pub fn new(an_u32: u32, a_bool: bool) -> ink_wrapper_types::InstantiateCallNeedsValue<Self>"
    ));
    assert!(out.contains("ink_wrapper_types::InstantiateCallNeedsValue::new(CODE_HASH, data)"));
    assert!(out.contains(
        "pub fn set_u32(&self, an_u32: u32) -> ink_wrapper_types::ExecCallNeedsValue"
    ));
    assert!(out.contains("ink_wrapper_types::ExecCallNeedsValue::new(self.account_id, data)"));
}

#[test]
fn generate_rejects_malformed_documents() {
    let mut bad_hash = sample_metadata();
    bad_hash.code_hash = "0x1234".to_string();
    assert_eq!(generate(&bad_hash, &None), Err(GenError::InvalidHex));

    let mut bad_label = sample_metadata();
    bad_label.messages[0].label = "A::B::c".to_string();
    assert_eq!(generate(&bad_label, &None), Err(GenError::NestedNamespace));

    let mut bad_arg = sample_metadata();
    bad_arg.constructors[0].args[0].ty = 99;
    assert_eq!(generate(&bad_arg, &None), Err(GenError::UnresolvedTypeId(99)));

    let mut mixed = sample_metadata();
    mixed.registry.types[6] = Type {
        path: vec!["my_contract".to_string(), "MyStruct".to_string()],
        params: vec![],
        def: TypeDef::Composite(TypeDefComposite {
            fields: vec![named_field("a", 0), unnamed_field(1)],
        }),
    };
    assert_eq!(generate(&mixed, &None), Err(GenError::MixedFields));

    let mut bad_selector = sample_metadata();
    bad_selector.messages[1].selector = "0xzz".to_string();
    assert_eq!(generate(&bad_selector, &None), Err(GenError::InvalidHex));
}
