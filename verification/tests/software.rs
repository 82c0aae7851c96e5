use supervisor::software::{Error, Software};

fn config(body: &str) -> Vec<u8> {
    body.as_bytes().to_vec()
}

#[test]
fn add_replaces_or_appends() {
    let mut software = Software::new();
    software.add("a.lua".to_string(), vec![1]);
    software.add("b.lua".to_string(), vec![2]);
    software.add("a.lua".to_string(), vec![3]);
    assert_eq!(software.0, vec![("a.lua".to_string(), vec![3]), ("b.lua".to_string(), vec![2])]);
    assert!(software.has_file(&"b.lua".to_string()));
    assert!(!software.has_file(&"c.lua".to_string()));
}

#[test]
fn adding_twice_is_adding_once() {
    let mut once = Software::new();
    once.add("x.argos".to_string(), vec![9]);
    let mut twice = Software::new();
    twice.add("x.argos".to_string(), vec![9]);
    twice.add("x.argos".to_string(), vec![9]);
    assert_eq!(once.0, twice.0);
}

#[test]
fn clear_removes_everything() {
    let mut software = Software::new();
    software.add("x.argos".to_string(), vec![1]);
    software.clear();
    assert!(software.0.is_empty());
    assert!(matches!(software.check_config(), Err(Error::MissingConfigurationFile)));
}

#[test]
fn argos_config_needs_exactly_one() {
    let mut software = Software::new();
    assert!(matches!(software.argos_config(), Err(Error::MissingConfigurationFile)));
    software.add("exp.argos".to_string(), vec![1]);
    assert_eq!(software.argos_config().unwrap().0, "exp.argos");
    software.add("other.argos".to_string(), vec![2]);
    assert!(matches!(software.argos_config(), Err(Error::MultipleConfigurationFiles)));
}

#[test]
fn check_config_finds_referenced_scripts() {
    let xml = r#"<argos-configuration><controllers><lua_controller id="c"><params script="control.lua"/></lua_controller></controllers></argos-configuration>"#;
    let mut software = Software::new();
    software.add("exp.argos".to_string(), config(xml));
    match software.check_config() {
        Err(Error::MissingReferencedFile(name)) => assert_eq!(name, "control.lua"),
        other => panic!("unexpected {:?}", other),
    }
    software.add("control.lua".to_string(), vec![]);
    assert!(software.check_config().is_ok());
}

#[test]
fn check_config_reports_decode_and_parse_errors() {
    let mut software = Software::new();
    software.add("exp.argos".to_string(), vec![0xff, 0xfe]);
    assert!(matches!(software.check_config(), Err(Error::DecodeError(_))));
    let mut software = Software::new();
    software.add("exp.argos".to_string(), config("<unclosed>"));
    assert!(matches!(software.check_config(), Err(Error::ParseError(_))));
}
