use rudderc::technique::{
    classify_item, BlockReporting, Condition, Id, IdError, ItemError, ItemTag, LeafReporting,
    Parameter,
};

#[test]
fn id_accepts_letters_digits_dash_underscore() {
    for s in ["abc", "A-b_9", "", "technique_1-2"] {
        let id = Id::from_str(s).unwrap();
        assert_eq!(id.as_ref(), s);
        assert_eq!(id.to_string(), s);
        assert_eq!(id.clone().into_string(), s);
    }
}

#[test]
fn id_refuses_other_characters() {
    for s in ["a b", "a.b", "héllo", "x/y", "${x}"] {
        assert_eq!(
            Id::from_str(s),
            Err(IdError::InvalidIdentifier(s.to_string()))
        );
    }
}

#[test]
fn reporting_labels() {
    assert_eq!(BlockReporting::Disabled.to_string(), "disabled");
    assert_eq!(BlockReporting::Weighted.to_string(), "weighted");
    assert_eq!(
        BlockReporting::WorstCaseWeightedOne.to_string(),
        "worst-case-weighted-one"
    );
    assert_eq!(
        BlockReporting::WorstCaseWeightedSum.to_string(),
        "worst-case-weighted-sum"
    );
    assert_eq!(
        BlockReporting::Focus("m1".to_string()).to_string(),
        "focus(m1)"
    );
    assert_eq!(LeafReporting::Enabled.to_string(), "enabled");
    assert_eq!(LeafReporting::Disabled.to_string(), "disabled");
}

#[test]
fn reporting_defaults() {
    assert_eq!(BlockReporting::default(), BlockReporting::Weighted);
    assert_eq!(LeafReporting::default(), LeafReporting::Enabled);
    assert!(!Parameter::may_be_empty_default());
}

#[test]
fn condition_text() {
    assert_eq!(Condition::Defined.to_text(), "true");
    assert_eq!(Condition::NotDefined.to_text(), "false");
    assert_eq!(Condition::Expression("linux".to_string()).to_text(), "linux");
}

fn keys(k: &[&str]) -> Vec<String> {
    k.iter().map(|s| s.to_string()).collect()
}

#[test]
fn items_are_classified_by_key() {
    assert_eq!(classify_item(&keys(&["name", "items", "id"])), Ok(ItemTag::Block));
    assert_eq!(classify_item(&keys(&["method", "id"])), Ok(ItemTag::Method));
    assert_eq!(classify_item(&keys(&["id", "module"])), Ok(ItemTag::Module));
    assert_eq!(classify_item(&keys(&["id", "name"])), Err(ItemError::Missing));
    assert_eq!(classify_item(&keys(&[])), Err(ItemError::Missing));
    assert_eq!(
        classify_item(&keys(&["method", "id", "items"])),
        Err(ItemError::Ambiguous(keys(&["method", "items"])))
    );
}
