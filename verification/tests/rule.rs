use lwm::rule::Rule;

#[test]
fn fff() {
    let mut rule = Rule::new();
    rule.set_class("new".to_owned());
}

#[test]
fn rule_setters_keep_other_fields() {
    let mut rule = Rule::new();
    rule.set_class("term".to_owned());
    rule.set_instance("scratch".to_owned());
    rule.set_name("notes".to_owned());
    rule.set_floating(true);
    rule.set_size((800, 600));
    rule.set_pos((20, 30));
    assert_eq!(rule.class.as_deref(), Some("term"));
    assert_eq!(rule.instance.as_deref(), Some("scratch"));
    assert_eq!(rule.name.as_deref(), Some("notes"));
    assert_eq!(rule.floating, Some(true));
    assert_eq!(rule.size, Some((800, 600)));
    assert_eq!(rule.pos, Some((20, 30)));
    assert!(!rule.one_shot);
    assert!(!rule.temp);
}
