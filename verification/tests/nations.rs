use eurocore::error::{ConfigError, Error};
use eurocore::nations::{parse_nation, parse_nations, Action, Nation, NationList, Response};

fn sorted(mut names: Vec<String>) -> Vec<String> {
    names.sort();
    names
}

#[test]
fn nation_new_has_no_pin() {
    let nation = Nation::new("testlandia", "pw");
    assert_eq!(nation.name, "testlandia");
    assert_eq!(nation.password, "pw");
    assert_eq!(nation.pin, None);
}

#[test]
fn parse_nation_cuts_at_the_first_colon() {
    let (name, nation) = parse_nation("testlandia:pw").unwrap();
    assert_eq!(name, "testlandia");
    assert_eq!(nation.name, "testlandia");
    assert_eq!(nation.password, "pw");
    assert_eq!(nation.pin, None);

    let (name, nation) = parse_nation("  upc \t:pa:ss word ").unwrap();
    assert_eq!(name, "upc");
    assert_eq!(nation.password, "pa:ss word ");

    let (name, nation) = parse_nation(":").unwrap();
    assert_eq!(name, "");
    assert_eq!(nation.password, "");

    let (name, _) = parse_nation("a b:pw").unwrap();
    assert_eq!(name, "a b");

    let (name, _) = parse_nation("\u{3000}caf\u{e9}\u{a0}:pw").unwrap();
    assert_eq!(name, "caf\u{e9}");
}

#[test]
fn parse_nation_needs_a_colon() {
    assert!(matches!(parse_nation("testlandia"), Err(ConfigError::Nations(text)) if text == "testlandia"));
    assert!(matches!(parse_nation(""), Err(ConfigError::Nations(text)) if text.is_empty()));
}

#[test]
fn parse_nations_reads_every_entry() {
    let list = parse_nations("testlandia:pw,upc:secret").unwrap();
    assert_eq!(sorted(list.list_nations()), vec!["testlandia".to_string(), "upc".to_string()]);
    assert_eq!(list.get_password("testlandia"), Ok("pw".to_string()));
    assert_eq!(list.get_password("upc"), Ok("secret".to_string()));
    assert!(list.contains_nation("upc"));
    assert!(!list.contains_nation("other"));
}

#[test]
fn parse_nations_lets_the_last_entry_win() {
    let list = parse_nations("a:one,b:two,a:three").unwrap();
    assert_eq!(list.list_nations(), vec!["a".to_string(), "b".to_string()]);
    assert_eq!(list.get_password("a"), Ok("three".to_string()));
}

#[test]
fn parse_nations_fails_on_the_first_bad_entry() {
    assert!(matches!(parse_nations("a:one,bad,worse"), Err(ConfigError::Nations(text)) if text == "bad"));
    assert!(matches!(parse_nations(""), Err(ConfigError::Nations(text)) if text.is_empty()));
    assert!(matches!(parse_nations("a:one,"), Err(ConfigError::Nations(text)) if text.is_empty()));
}

#[test]
fn unknown_nation_is_invalid() {
    let mut list = parse_nations("testlandia:pw").unwrap();
    assert_eq!(list.get_password("nobody"), Err(Error::InvalidNation));
    assert_eq!(list.get_pin("nobody"), Err(Error::InvalidNation));
    assert_eq!(list.set_pin("nobody", "1"), Err(Error::InvalidNation));
    assert_eq!(list.list_nations(), vec!["testlandia".to_string()]);
}

#[test]
fn pin_is_empty_until_set() {
    let mut list = parse_nations("testlandia:pw").unwrap();
    assert_eq!(list.get_pin("testlandia"), Ok(String::new()));
    assert_eq!(list.set_pin("testlandia", "abc123"), Ok(()));
    assert_eq!(list.get_pin("testlandia"), Ok("abc123".to_string()));
    assert_eq!(list.get_password("testlandia"), Ok("pw".to_string()));
    assert_eq!(list.set_pin("testlandia", "next"), Ok(()));
    assert_eq!(list.get_pin("testlandia"), Ok("next".to_string()));
}

#[test]
fn carried_pin_is_used_until_overridden() {
    let mut list = parse_nations("testlandia:pw,other:pw2").unwrap();
    assert_eq!(list.refresh_pin("testlandia", Some("abc123")), Ok(()));
    assert_eq!(list.get_pin("testlandia"), Ok("abc123".to_string()));
    // a response without the header leaves the PIN
    assert_eq!(list.refresh_pin("testlandia", None), Ok(()));
    assert_eq!(list.get_pin("testlandia"), Ok("abc123".to_string()));
    assert_eq!(list.get_pin("other"), Ok(String::new()));
    assert_eq!(list.refresh_pin("testlandia", Some("xyz")), Ok(()));
    assert_eq!(list.get_pin("testlandia"), Ok("xyz".to_string()));
    assert_eq!(list.refresh_pin("nobody", Some("1")), Err(Error::InvalidNation));
    assert_eq!(list.refresh_pin("nobody", None), Ok(()));
}

#[test]
fn insert_replaces_what_was_known() {
    let mut list = NationList::new();
    assert!(list.list_nations().is_empty());
    list.insert("a".to_string(), Nation::new("a", "one"));
    list.set_pin("a", "pin").unwrap();
    list.insert("a".to_string(), Nation::new("a", "two"));
    assert_eq!(list.get_password("a"), Ok("two".to_string()));
    assert_eq!(list.get_pin("a"), Ok(String::new()));
    assert_eq!(list.list_nations(), vec!["a".to_string()]);
}

#[test]
fn process_answers_each_request() {
    let mut list = parse_nations("testlandia:pw").unwrap();
    assert_eq!(
        list.process(Action::ListNations),
        Response::List { nations: vec!["testlandia".to_string()] }
    );
    assert_eq!(
        list.process(Action::GetPassword { nation: "testlandia".to_string() }),
        Response::Password { password: Some("pw".to_string()) }
    );
    assert_eq!(
        list.process(Action::GetPassword { nation: "nobody".to_string() }),
        Response::Password { password: None }
    );
    assert_eq!(
        list.process(Action::GetPin { nation: "testlandia".to_string() }),
        Response::Pin { pin: None }
    );
    assert_eq!(
        list.process(Action::SetPin { nation: "testlandia".to_string(), pin: "p".to_string() }),
        Response::Done
    );
    assert_eq!(
        list.process(Action::GetPin { nation: "testlandia".to_string() }),
        Response::Pin { pin: Some("p".to_string()) }
    );
    assert_eq!(
        list.process(Action::SetPin { nation: "nobody".to_string(), pin: "p".to_string() }),
        Response::Done
    );
    assert_eq!(
        list.process(Action::GetPin { nation: "nobody".to_string() }),
        Response::Pin { pin: None }
    );
}

#[test]
fn create_nations_map_takes_entries_as_written() {
    let list = eurocore::nations::create_nations_map("testlandia:pw, upc :secret:extra,a:");
    assert_eq!(list.list_nations(), vec!["testlandia".to_string(), " upc ".to_string(), "a".to_string()]);
    assert_eq!(list.get_password("testlandia"), Ok("pw".to_string()));
    assert_eq!(list.get_password(" upc "), Ok("secret".to_string()));
    assert_eq!(list.get_password("a"), Ok(String::new()));
    assert_eq!(list.get_pin("a"), Ok(String::new()));
    let list = eurocore::nations::create_nations_map("a:one,a:two");
    assert_eq!(list.get_password("a"), Ok("two".to_string()));
}
