//! Tests for reading a codepoint range off a repertoire item.
use ucinfo::repertoire::finish_repertoire;
use ucinfo::repertoire::process_event;
use ucinfo::repertoire::ProcessError;
use ucinfo::repertoire::RangeError;
use ucinfo::repertoire::RepertoireItem;
use ucinfo::repertoire::RepertoireState;
use ucinfo::repertoire::UcdEvent;

fn item(attrs: &[(&str, &str)]) -> RepertoireItem {
    RepertoireItem {
        tag: "char".to_string(),
        attrs: attrs
            .iter()
            .map(|(k, v)| (k.to_string(), v.to_string()))
            .collect(),
        name_aliases: Vec::new(),
    }
}

#[test]
fn test_codepoint_range_from_cp() {
    assert_eq!(
        item(&[("cp", "0061")]).get_codepoint_range(),
        Ok((0x61, 0x61))
    );
    assert_eq!(
        item(&[("na", "SOMETHING"), ("cp", "5186")]).get_codepoint_range(),
        Ok((0x5186, 0x5186))
    );
    assert_eq!(item(&[("cp", "+61")]).get_codepoint_range(), Ok((0x61, 0x61)));
}

#[test]
fn test_codepoint_range_from_first_cp() {
    assert_eq!(
        item(&[("first-cp", "3400")]).get_codepoint_range(),
        Ok((0x3400, 0x3400))
    );
    // `cp` wins over `first-cp`.
    assert_eq!(
        item(&[("first-cp", "3400"), ("cp", "20")]).get_codepoint_range(),
        Ok((0x20, 0x20))
    );
    assert_eq!(
        item(&[("first-cp", "3400"), ("last_cp", "4DBF")]).get_codepoint_range(),
        Ok((0x3400, 0x4DBF))
    );
}

#[test]
fn test_codepoint_range_later_attribute_overrides() {
    // Merged attribute lists let the element override its group.
    assert_eq!(
        item(&[("cp", "0020"), ("cp", "0061")]).get_codepoint_range(),
        Ok((0x61, 0x61))
    );
}

#[test]
fn test_codepoint_range_errors() {
    assert_eq!(
        item(&[("na", "NAME ONLY")]).get_codepoint_range(),
        Err(RangeError::MissingCodepoint)
    );
    assert_eq!(
        item(&[]).get_codepoint_range(),
        Err(RangeError::MissingCodepoint)
    );
    assert_eq!(
        item(&[("cp", "xyz")]).get_codepoint_range(),
        Err(RangeError::BadNumber)
    );
    assert_eq!(
        item(&[("cp", "")]).get_codepoint_range(),
        Err(RangeError::BadNumber)
    );
    assert_eq!(
        item(&[("cp", "+")]).get_codepoint_range(),
        Err(RangeError::BadNumber)
    );
    assert_eq!(
        item(&[("cp", "100000000")]).get_codepoint_range(),
        Err(RangeError::BadNumber)
    );
    assert_eq!(
        item(&[("cp", "FFFFFFFF")]).get_codepoint_range(),
        Ok((0xFFFFFFFF, 0xFFFFFFFF))
    );
    assert_eq!(
        item(&[("cp", "61"), ("last_cp", "q")]).get_codepoint_range(),
        Err(RangeError::BadNumber)
    );
}

fn start(tag: &str, attrs: &[(&str, &str)]) -> UcdEvent {
    UcdEvent::Start(
        tag.to_string(),
        attrs
            .iter()
            .map(|(k, v)| (k.to_string(), v.to_string()))
            .collect(),
    )
}

fn end(tag: &str) -> UcdEvent {
    UcdEvent::End(tag.to_string())
}

#[test]
fn test_process_repertoire_events() {
    let mut state = RepertoireState::new();
    let script = vec![
        start("group", &[("blk", "ASCII"), ("gc", "Ll")]),
        start("char", &[("cp", "0061"), ("na", "LATIN SMALL LETTER A")]),
        start("name-alias", &[("alias", "LSA"), ("type", "abbreviation")]),
        UcdEvent::Other,
        start("char", &[("cp", "0062")]),
        end("group"),
        start("char", &[("cp", "0063")]),
        end("repertoire"),
    ];
    let mut finished = false;
    for event in script {
        let (next, done) = process_event(state, event).unwrap();
        state = next;
        if done {
            finished = true;
            break;
        }
    }
    assert!(finished);
    let items = finish_repertoire(state);
    assert_eq!(items.len(), 3);
    // The group's attributes carry over into its elements.
    assert_eq!(items[0].get_codepoint_range(), Ok((0x61, 0x61)));
    assert_eq!(items[0].tag, "char");
    assert!(items[0].attrs.contains(&("blk".to_string(), "ASCII".to_string())));
    assert_eq!(items[0].name_aliases.len(), 1);
    assert_eq!(items[0].name_aliases[0].alias, "LSA");
    assert_eq!(items[0].name_aliases[0].type_, "abbreviation");
    assert_eq!(items[1].get_codepoint_range(), Ok((0x62, 0x62)));
    // The group ended before the third element: no group attributes.
    assert_eq!(items[2].attrs.len(), 1);
    assert_eq!(items[2].get_codepoint_range(), Ok((0x63, 0x63)));
}

#[test]
fn test_process_repertoire_event_errors() {
    let state = RepertoireState::new();
    assert_eq!(
        process_event(state, start("name-alias", &[("alias", "X")])).unwrap_err(),
        ProcessError::AliasOutsideItem
    );
    let state = RepertoireState::new();
    let (state, _) = process_event(state, start("char", &[("cp", "0061")])).unwrap();
    assert_eq!(
        process_event(state, start("name-alias", &[("alias", "X"), ("bogus", "1")]))
            .unwrap_err(),
        ProcessError::UnexpectedAttribute("bogus".to_string())
    );
}
