use ecdsa_mpc::trace::{
    create_context, inclusion_of, is_listed, AttrApplication, Filter, Inclusion,
};

#[test]
fn attribute_arguments_are_demoted_on_their_way_down() {
    let direct = AttrApplication::Directly(7u32);
    assert!(direct.is_direct());
    assert_eq!(*direct.deref(), 7);
    let demoted = direct.demote();
    assert!(!demoted.is_direct());
    assert!(matches!(demoted, AttrApplication::Indirectly(7)));
    assert!(matches!(demoted.demote(), AttrApplication::Indirectly(7)));
}

#[test]
fn context_is_what_came_from_above_and_the_own_arguments() {
    let given = vec![AttrApplication::Directly(1u32), AttrApplication::Indirectly(2)];
    let context = create_context(given, Some(3));
    assert!(matches!(
        context.as_slice(),
        [
            AttrApplication::Indirectly(1),
            AttrApplication::Indirectly(2),
            AttrApplication::Directly(3)
        ]
    ));
    let context = create_context(vec![AttrApplication::Directly(1u32)], None);
    assert!(matches!(context.as_slice(), [AttrApplication::Indirectly(1)]));
    assert!(create_context::<u32>(vec![], None).is_empty());
    assert!(matches!(Inclusion::Value(1u8), Inclusion::Value(1)));
    assert!(matches!(Inclusion::Skip(1u8), Inclusion::Skip(1)));
}

fn names(list: &[&str]) -> Vec<String> {
    list.iter().map(|s| s.to_string()).collect()
}

#[test]
fn filters_let_through_by_their_list() {
    let listed = names(&["a", "bc"]);
    assert!(is_listed(&listed, &"bc".to_string()));
    assert!(!is_listed(&listed, &"b".to_string()));
    assert!(!is_listed(&vec![], &"a".to_string()));
    let enable = Filter::Enable(names(&["a", "bc"]));
    assert!(enable.lets_through(&"a".to_string()));
    assert!(!enable.lets_through(&"x".to_string()));
    let disable = Filter::Disable(names(&["a", "bc"]));
    assert!(!disable.lets_through(&"a".to_string()));
    assert!(disable.lets_through(&"x".to_string()));
    assert!(!Filter::Enable(vec![]).lets_through(&"a".to_string()));
    assert!(Filter::Disable(vec![]).lets_through(&"a".to_string()));
}

#[test]
fn arguments_are_skipped_where_a_direct_attribute_stops_them() {
    let attrs = vec![
        AttrApplication::Indirectly(Filter::Enable(names(&["x"]))),
        AttrApplication::Directly(Filter::Disable(names(&["secret"]))),
    ];
    assert!(matches!(
        inclusion_of(&attrs, "secret".to_string()),
        Inclusion::Skip(name) if name == "secret"
    ));
    // The attribute that enables `x` alone does not apply directly.
    assert!(matches!(
        inclusion_of(&attrs, "y".to_string()),
        Inclusion::Value(name) if name == "y"
    ));
    assert!(matches!(inclusion_of(&[], "y".to_string()), Inclusion::Value(_)));
    let strict = vec![AttrApplication::Directly(Filter::Enable(names(&["x"])))];
    assert!(matches!(inclusion_of(&strict, "x".to_string()), Inclusion::Value(_)));
    assert!(matches!(inclusion_of(&strict, "y".to_string()), Inclusion::Skip(_)));
}
