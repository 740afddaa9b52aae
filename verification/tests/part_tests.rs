use bili::json_model::Json;
use bili::part::Part;
use bili::part::PartList;

#[test]
fn test_part_parse_from_str() {
    assert_eq!(Part::new(0, 0), Part::parse_from_str(" - "));
    assert_eq!(None, Part::parse_from_str("34-2"));
    assert_eq!(Part::new(0, 30), Part::parse_from_str(" -30"));
    assert_eq!(Part::new(12, 23), Part::parse_from_str(" 12 - 23 "));
    assert_eq!(Part::new(13, 0), Part::parse_from_str("13-"));
    assert_eq!(Part::new(33, 33), Part::parse_from_str("33"));
}

#[test]
fn test_part_parse_rejects_garbage() {
    assert_eq!(None, Part::parse_from_str(""));
    assert_eq!(None, Part::parse_from_str("   "));
    assert_eq!(None, Part::parse_from_str("a-3"));
    assert_eq!(None, Part::parse_from_str("3-4-5"));
}

#[test]
fn test_part_list_parse_from_str() {
    assert_eq!(
        Some(PartList::from(vec![
            Part::new(1, 3).unwrap(),
            Part::new(5, 11).unwrap()
        ])),
        PartList::parse_from_str(" 1 - 3, 5-11")
    );
    assert_eq!(None, PartList::parse_from_str("3,,4"));
    assert_eq!(
        Some(PartList::from(vec![
            Part::new(1, 34).unwrap(),
            Part::new(37, 37).unwrap()
        ])),
        PartList::parse_from_str("1-34, 37")
    );
}

#[test]
fn test_part_list_parse_from_json() {
    assert_eq!(
        Some(PartList::from(vec![
            Part::new(1, 33).unwrap(),
            Part::new(38, 38).unwrap()
        ])),
        PartList::parse_from_json(&Json::Str(String::from("1-33, 38")))
    );
    assert_eq!(
        Some(PartList::from(vec![Part::new(4, 4).unwrap()])),
        PartList::parse_from_json(&Json::Int(4))
    );
    assert_eq!(
        Some(PartList::from(vec![
            Part::new(3, 3).unwrap(),
            Part::new(5, 0).unwrap()
        ])),
        PartList::parse_from_json(&Json::Arr(vec![
            Json::Int(3),
            Json::Str(String::from("5-"))
        ]))
    )
}

#[test]
fn test_part_list_parse_from_json_rejects() {
    // an empty aggregate fails
    assert_eq!(None, PartList::parse_from_json(&Json::Arr(Vec::new())));
    // an element that is neither a number nor a string fails
    assert_eq!(
        None,
        PartList::parse_from_json(&Json::Arr(vec![Json::Int(3), Json::Bool(true)]))
    );
    // a negative part number fails
    assert_eq!(None, PartList::parse_from_json(&Json::Int(-2)));
}
