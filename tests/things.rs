use things_to_check::things::{load_things, Error, Thing, Things};

#[test]
fn yaml_list_loads_in_order() {
    let things = load_things("- \"Is it *plugged* in?\"\n- Have you restarted it?\n- Check the `fuse`.\n").unwrap();
    assert_eq!(things.len(), 3);
    assert_eq!(things.thing(0).markdown, "Is it *plugged* in?");
    assert_eq!(things.thing(1).markdown, "Have you restarted it?");
    assert_eq!(things.thing(2).html, "<p>Check the <code>fuse</code>.</p>\n");
    for (i, (k, _)) in things.entries.iter().enumerate() {
        assert_eq!(i, *k);
    }
}

#[test]
fn empty_yaml_list_loads() {
    let things = load_things("[]").unwrap();
    assert_eq!(things.len(), 0);
}

#[test]
fn malformed_yaml_is_an_error() {
    assert!(matches!(load_things("key: value"), Err(Error::DeserializeError(_))));
    assert!(matches!(load_things("- [unclosed"), Err(Error::DeserializeError(_))));
    assert!(matches!(load_things("- a\n- [b, c]\n"), Err(Error::DeserializeError(_))));
}

#[test]
fn markdown_is_rendered() {
    let thing = Thing::new("Is it *plugged* in?".to_string());
    assert_eq!(thing.markdown, "Is it *plugged* in?");
    assert_eq!(thing.html, "<p>Is it <em>plugged</em> in?</p>\n");
}

#[test]
fn positions_are_kept() {
    let things = Things::new(vec!["a".to_string(), "b".to_string()]);
    assert_eq!(things.select(Some(1)), Some(1));
    assert_eq!(things.select(Some(2)), None);
    let drawn = things.select(None).unwrap();
    assert!(drawn < 2);
}
