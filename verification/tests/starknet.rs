use cairo_lang_core::starknet::{
    AuxData, EventData, EventFieldKind, StarknetContractAuxData, StarknetEventAuxData,
};

fn contract(name: &str) -> StarknetContractAuxData {
    StarknetContractAuxData { contract_name: name.to_string() }
}

fn event(names: &[&str], kind: EventFieldKind) -> StarknetEventAuxData {
    StarknetEventAuxData {
        event_data: EventData::Struct {
            members: names.iter().map(|name| (name.to_string(), kind)).collect(),
        },
    }
}

#[test]
fn contracts_are_equal_where_their_names_are() {
    assert_eq!(contract("a"), contract("a"));
    assert_ne!(contract("a"), contract("b"));
    assert!(contract("a").eq_aux(AuxData::Contract(&contract("a"))));
    assert!(!contract("a").eq_aux(AuxData::Contract(&contract("b"))));
    let event = event(&["a"], EventFieldKind::Nested);
    assert!(!contract("a").eq_aux(AuxData::Event(&event)));
    assert!(!contract("a").eq_aux(AuxData::Other));
}

#[test]
fn events_are_equal_where_their_fields_are() {
    let a = event(&["a", "b"], EventFieldKind::KeySerde);
    assert!(a.eq_aux(AuxData::Event(&event(&["a", "b"], EventFieldKind::KeySerde))));
    assert!(!a.eq_aux(AuxData::Event(&event(&["a", "b"], EventFieldKind::DataSerde))));
    assert!(!a.eq_aux(AuxData::Event(&event(&["a"], EventFieldKind::KeySerde))));
    assert!(!a.eq_aux(AuxData::Event(&event(&["a", "c"], EventFieldKind::KeySerde))));
    let choice = StarknetEventAuxData {
        event_data: EventData::Enum {
            variants: vec![
                ("a".to_string(), EventFieldKind::KeySerde),
                ("b".to_string(), EventFieldKind::KeySerde),
            ],
        },
    };
    assert_ne!(a, choice);
    assert!(!a.eq_aux(AuxData::Event(&choice)));
    assert!(!a.eq_aux(AuxData::Contract(&contract("a"))));
}
