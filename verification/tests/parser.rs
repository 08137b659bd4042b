use portal_shortcuts::parse::parse_shortcuts;

#[test]
fn parse_two_entries() {
    let parsed = parse_shortcuts("a:desc1,b:desc2:<Primary>t").expect("well-formed input");
    assert_eq!(parsed.len(), 2);
    assert_eq!(parsed[0].id, "a");
    assert_eq!(parsed[0].description, "desc1");
    assert_eq!(parsed[0].preferred_trigger, None);
    assert_eq!(parsed[1].id, "b");
    assert_eq!(parsed[1].description, "desc2");
    assert_eq!(parsed[1].preferred_trigger, Some("<Primary>t".to_string()));
}

#[test]
fn parse_trigger_absent_exactly_when_no_third_field() {
    let parsed = parse_shortcuts("one:first,two:second:T,three:third").expect("well-formed input");
    assert_eq!(parsed.len(), 3);
    assert!(parsed[0].preferred_trigger.is_none());
    assert!(parsed[1].preferred_trigger.is_some());
    assert!(parsed[2].preferred_trigger.is_none());
}

#[test]
fn parse_rejects_entry_without_colon() {
    assert!(parse_shortcuts("a").is_none());
}

#[test]
fn parse_rejects_whole_batch_never_partial() {
    // One malformed entry poisons the batch, wherever it stands.
    assert!(parse_shortcuts("a:b,c").is_none());
    assert!(parse_shortcuts("c,a:b").is_none());
    assert!(parse_shortcuts("a:b,c,d:e").is_none());
}

#[test]
fn parse_rejects_empty_text() {
    // The empty text is a single entry with no colon.
    assert!(parse_shortcuts("").is_none());
}

#[test]
fn parse_rejects_trailing_comma() {
    // A trailing comma leaves an empty, colonless final entry.
    assert!(parse_shortcuts("a:b,").is_none());
}

#[test]
fn parse_trigger_keeps_later_colons() {
    // The entry splits into at most three fields; the trigger is the
    // whole remainder.
    let parsed = parse_shortcuts("x:y:z:w").expect("well-formed input");
    assert_eq!(parsed.len(), 1);
    assert_eq!(parsed[0].id, "x");
    assert_eq!(parsed[0].description, "y");
    assert_eq!(parsed[0].preferred_trigger, Some("z:w".to_string()));
}

#[test]
fn parse_allows_empty_description() {
    let parsed = parse_shortcuts("a:").expect("well-formed input");
    assert_eq!(parsed.len(), 1);
    assert_eq!(parsed[0].id, "a");
    assert_eq!(parsed[0].description, "");
    assert_eq!(parsed[0].preferred_trigger, None);
}
