use axleharp::run::run;
use axleharp::{Action, Entry, Error, HarpConnection, Register, Section, Selectors, Slot, Value};

fn s(x: &str) -> String {
    x.to_string()
}

fn none() -> Selectors {
    Selectors { path: false, line: false, column: false, extra: false }
}

fn register_of(harp: &HarpConnection, section: &str, register: &str) -> Option<Register> {
    for sec in harp.sections().iter() {
        if sec.name == section {
            for slot in sec.slots.iter() {
                if slot.name == register {
                    return Some(slot.register.clone());
                }
            }
        }
    }
    None
}

fn section_exists(harp: &HarpConnection, section: &str) -> bool {
    harp.sections().iter().any(|sec| sec.name == section)
}

#[test]
fn update_merges_into_existing_entry() {
    let mut harp = HarpConnection::new();
    let first = Entry { path: Some(s("a")), line: Some(1), column: None, extra: None };
    assert_eq!(harp.update(s("sec"), s("reg"), first), Ok(()));
    let second = Entry { path: None, line: None, column: Some(5), extra: None };
    assert_eq!(harp.update(s("sec"), s("reg"), second), Ok(()));
    let expected = Entry { path: Some(s("a")), line: Some(1), column: Some(5), extra: None };
    assert_eq!(register_of(&harp, "sec", "reg"), Some(Register::Fields(expected)));
}

#[test]
fn update_overrides_only_given_fields() {
    let mut harp = HarpConnection::new();
    let first = Entry { path: Some(s("a")), line: Some(1), column: Some(2), extra: Some(s("x")) };
    harp.update(s("sec"), s("reg"), first).unwrap();
    let second = Entry { path: Some(s("b")), line: None, column: None, extra: None };
    harp.update(s("sec"), s("reg"), second).unwrap();
    let expected = Entry { path: Some(s("b")), line: Some(1), column: Some(2), extra: Some(s("x")) };
    assert_eq!(register_of(&harp, "sec", "reg"), Some(Register::Fields(expected)));
}

#[test]
fn update_without_fields_is_refused() {
    let mut harp = HarpConnection::new();
    assert_eq!(harp.update(s("sec"), s("reg"), Entry::new()), Err(Error::NoFieldsSpecified));
    assert!(harp.sections().is_empty());
    let action = Action::Update {
        section: s("sec"),
        register: s("reg"),
        path: None,
        line: None,
        column: None,
        extra: None,
    };
    assert!(matches!(run(&mut harp, action), Err(Error::NoFieldsSpecified)));
    assert!(harp.sections().is_empty());
}

#[test]
fn update_on_list_register_starts_from_empty_entry() {
    let mut harp = HarpConnection::new();
    harp.replace(s("sec"), s("reg"), vec![s("x")]);
    let fields = Entry { path: None, line: Some(3), column: None, extra: None };
    harp.update(s("sec"), s("reg"), fields).unwrap();
    let expected = Entry { path: None, line: Some(3), column: None, extra: None };
    assert_eq!(register_of(&harp, "sec", "reg"), Some(Register::Fields(expected)));
}

#[test]
fn clear_twice_writes_once() {
    let mut harp = HarpConnection::new();
    harp.replace(s("sec"), s("reg"), vec![s("x")]);
    harp.replace(s("sec"), s("other"), vec![s("y")]);
    assert!(harp.clear(&s("sec"), Some(&s("reg"))));
    assert!(register_of(&harp, "sec", "reg").is_none());
    assert!(!harp.clear(&s("sec"), Some(&s("reg"))));
    assert!(register_of(&harp, "sec", "reg").is_none());
    assert_eq!(register_of(&harp, "sec", "other"), Some(Register::Values(vec![s("y")])));
}

#[test]
fn clear_section_twice_writes_once() {
    let mut harp = HarpConnection::new();
    harp.replace(s("sec"), s("reg"), vec![s("x")]);
    let first = run(&mut harp, Action::Clear { section: s("sec"), register: None }).unwrap();
    assert!(first.write);
    assert!(!section_exists(&harp, "sec"));
    let second = run(&mut harp, Action::Clear { section: s("sec"), register: None }).unwrap();
    assert!(!second.write);
    assert!(!section_exists(&harp, "sec"));
}

#[test]
fn clear_last_register_keeps_section() {
    let mut harp = HarpConnection::new();
    harp.replace(s("sec"), s("reg"), vec![]);
    assert!(harp.clear(&s("sec"), Some(&s("reg"))));
    assert!(section_exists(&harp, "sec"));
    assert_eq!(harp.get(&s("sec"), &s("reg"), none()), Err(Error::RegisterNotFound));
}

#[test]
fn clear_absent_section_is_noop() {
    let mut harp = HarpConnection::new();
    harp.replace(s("sec"), s("reg"), vec![s("x")]);
    assert!(!harp.clear(&s("missing"), None));
    assert!(!harp.clear(&s("missing"), Some(&s("reg"))));
    let out = run(&mut harp, Action::Clear { section: s("missing"), register: Some(s("reg")) });
    assert!(!out.unwrap().write);
    assert!(!section_exists(&harp, "missing"));
    assert_eq!(harp.sections().len(), 1);
}

#[test]
fn get_returns_fields_in_canonical_order() {
    let mut harp = HarpConnection::new();
    let e = Entry { path: Some(s("/p")), line: Some(7), column: Some(-3), extra: Some(s("note")) };
    harp.update(s("sec"), s("reg"), e).unwrap();
    let all = Selectors { path: true, line: true, column: true, extra: true };
    let expected = vec![
        Value::Text(s("/p")),
        Value::Number(7),
        Value::Number(-3),
        Value::Text(s("note")),
    ];
    assert_eq!(harp.get(&s("sec"), &s("reg"), all), Ok(expected.clone()));
    assert_eq!(harp.get(&s("sec"), &s("reg"), none()), Ok(expected));
    let some = Selectors { path: false, line: false, column: true, extra: true };
    assert_eq!(
        harp.get(&s("sec"), &s("reg"), some),
        Ok(vec![Value::Number(-3), Value::Text(s("note"))])
    );
}

#[test]
fn get_misses_are_told_apart() {
    let mut harp = HarpConnection::new();
    assert_eq!(harp.get(&s("sec"), &s("reg"), none()), Err(Error::SectionNotFound));
    harp.replace(s("sec"), s("other"), vec![]);
    assert_eq!(harp.get(&s("sec"), &s("reg"), none()), Err(Error::RegisterNotFound));
    let action = Action::Get {
        section: s("nope"),
        register: s("reg"),
        null: false,
        path: true,
        line: false,
        column: false,
        extra: false,
    };
    assert!(matches!(run(&mut harp, action), Err(Error::SectionNotFound)));
}

#[test]
fn replace_then_empty_keeps_register() {
    let mut harp = HarpConnection::new();
    harp.replace(s("sec"), s("reg"), vec![s("x"), s("y")]);
    assert_eq!(
        harp.get(&s("sec"), &s("reg"), none()),
        Ok(vec![Value::Text(s("x")), Value::Text(s("y"))])
    );
    harp.replace(s("sec"), s("reg"), vec![]);
    assert_eq!(register_of(&harp, "sec", "reg"), Some(Register::Values(vec![])));
    assert_eq!(harp.get(&s("sec"), &s("reg"), none()), Ok(vec![]));
}

#[test]
fn update_then_get_path_and_line() {
    let mut harp = HarpConnection::new();
    let update = Action::Update {
        section: s("proj"),
        register: s("home"),
        path: Some(s("/src/main")),
        line: Some(42),
        column: None,
        extra: None,
    };
    assert!(run(&mut harp, update).unwrap().write);
    let get = Action::Get {
        section: s("proj"),
        register: s("home"),
        null: false,
        path: true,
        line: true,
        column: false,
        extra: false,
    };
    let out = run(&mut harp, get).unwrap();
    assert!(!out.write);
    assert_eq!(out.values, vec![Value::Text(s("/src/main")), Value::Number(42)]);
    let lines: Vec<String> = out
        .values
        .iter()
        .map(|v| match v {
            Value::Text(t) => t.clone(),
            Value::Number(n) => n.to_string(),
        })
        .collect();
    assert_eq!(lines, vec![s("/src/main"), s("42")]);
}

#[test]
fn build_blank_text_is_empty_store() {
    for text in ["", "   ", " \n\t\r\n"] {
        let harp = HarpConnection::build(text, None).unwrap();
        assert!(harp.sections().is_empty());
    }
    let mut other = HarpConnection::new();
    other.replace(s("sec"), s("reg"), vec![s("x")]);
    let harp = HarpConnection::build("  ", Some(other)).unwrap();
    assert!(harp.sections().is_empty());
}

#[test]
fn build_invalid_text_fails() {
    assert!(matches!(HarpConnection::build("{not json", None), Err(Error::DeserializeData)));
}

#[test]
fn build_keeps_decoded_store() {
    let mut decoded = HarpConnection::new();
    decoded.replace(s("sec"), s("reg"), vec![s("x")]);
    let harp = HarpConnection::build("{\"sec\":{\"reg\":[\"x\"]}}", Some(decoded)).unwrap();
    assert_eq!(register_of(&harp, "sec", "reg"), Some(Register::Values(vec![s("x")])));
}

#[test]
fn entry_mut_creates_and_edits_list() {
    let mut harp = HarpConnection::new();
    {
        let values = harp.entry_mut(s("sec"), s("reg"));
        assert!(values.is_empty());
        values.push(s("a"));
        values.push(s("b"));
    }
    assert_eq!(register_of(&harp, "sec", "reg"), Some(Register::Values(vec![s("a"), s("b")])));
    {
        let values = harp.entry_mut(s("sec"), s("reg"));
        assert_eq!(values, &vec![s("a"), s("b")]);
        values.clear();
    }
    assert_eq!(register_of(&harp, "sec", "reg"), Some(Register::Values(vec![])));
}

#[test]
fn entry_mut_turns_entry_into_empty_list() {
    let mut harp = HarpConnection::new();
    let e = Entry { path: Some(s("p")), line: None, column: None, extra: None };
    harp.update(s("sec"), s("reg"), e).unwrap();
    assert!(harp.entry_mut(s("sec"), s("reg")).is_empty());
    assert_eq!(register_of(&harp, "sec", "reg"), Some(Register::Values(vec![])));
}

#[test]
fn ensure_section_creates_empty_section_once() {
    let mut harp = HarpConnection::new();
    harp.ensure_section(s("sec"));
    harp.ensure_section(s("sec"));
    assert_eq!(harp.sections().len(), 1);
    assert!(harp.sections()[0].slots.is_empty());
    assert_eq!(harp.get(&s("sec"), &s("reg"), none()), Err(Error::RegisterNotFound));
}

#[test]
fn put_overwrites_existing_register() {
    let mut harp = HarpConnection::new();
    harp.put(s("sec"), s("reg"), Register::Values(vec![s("x")]));
    harp.put(s("sec"), s("reg"), Register::Fields(Entry::new()));
    assert_eq!(harp.sections()[0].slots.len(), 1);
    assert_eq!(register_of(&harp, "sec", "reg"), Some(Register::Fields(Entry::new())));
    assert_eq!(harp.get(&s("sec"), &s("reg"), none()), Ok(vec![]));
}

#[test]
fn entry_helpers() {
    assert!(Entry::new().is_empty());
    let base = Entry { path: Some(s("a")), line: Some(1), column: None, extra: None };
    assert!(!base.is_empty());
    let fields = Entry { path: None, line: Some(2), column: Some(3), extra: None };
    let merged = base.merged(&fields);
    assert_eq!(merged, Entry { path: Some(s("a")), line: Some(2), column: Some(3), extra: None });
}

#[test]
fn blank_detection() {
    assert!(axleharp::store::blank(""));
    assert!(axleharp::store::blank(" \t\r\n"));
    assert!(!axleharp::store::blank(" {} "));
}

#[test]
fn rebuilding_from_listing_gives_same_store() {
    let mut harp = HarpConnection::new();
    let e = Entry { path: Some(s("/a")), line: Some(1), column: None, extra: Some(s("x")) };
    harp.update(s("one"), s("r1"), e.clone()).unwrap();
    harp.replace(s("one"), s("r2"), vec![s("p"), s("q")]);
    harp.ensure_section(s("empty"));
    let copy = HarpConnection::from_sections(harp.sections());
    assert_eq!(copy.sections().len(), 2);
    assert_eq!(register_of(&copy, "one", "r1"), Some(Register::Fields(e)));
    assert_eq!(register_of(&copy, "one", "r2"), Some(Register::Values(vec![s("p"), s("q")])));
    assert!(section_exists(&copy, "empty"));
    assert_eq!(copy.get(&s("empty"), &s("r1"), none()), Err(Error::RegisterNotFound));
}

#[test]
fn rebuilding_merges_repeated_section_names() {
    let listing = vec![
        Section {
            name: s("sec"),
            slots: vec![
                Slot { name: s("a"), register: Register::Values(vec![s("1")]) },
                Slot { name: s("b"), register: Register::Values(vec![s("2")]) },
            ],
        },
        Section {
            name: s("sec"),
            slots: vec![Slot { name: s("a"), register: Register::Values(vec![s("3")]) }],
        },
    ];
    let harp = HarpConnection::from_sections(&listing);
    assert_eq!(harp.sections().len(), 1);
    assert_eq!(register_of(&harp, "sec", "a"), Some(Register::Values(vec![s("3")])));
    assert_eq!(register_of(&harp, "sec", "b"), Some(Register::Values(vec![s("2")])));
}

#[test]
fn duplicate_copies_register() {
    let r = Register::Values(vec![s("a"), s("b")]);
    assert_eq!(r.duplicate(), r);
    let e = Register::Fields(Entry { path: Some(s("p")), line: Some(-1), column: Some(2), extra: None });
    assert_eq!(e.duplicate(), e);
}
