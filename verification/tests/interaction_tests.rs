use bili::interaction::handle_response;
use bili::interaction::ApiError;
use bili::interaction::EdgeInfo;
use bili::interaction::InteractionError;
use bili::interaction::InteractionVideoParser;
use bili::json_model::Json;
use bili::normal_video::UrlInfo;
use bili::part_info::PartInfo;
use bili::part_info::PartInfoList;

fn obj(entries: Vec<(&str, Json)>) -> Json {
    Json::Obj(
        entries
            .into_iter()
            .map(|(k, v)| (String::from(k), v))
            .collect(),
    )
}

fn s(t: &str) -> Json {
    Json::Str(String::from(t))
}

#[test]
fn test_edge_info_try_from_json() {
    let mut e = EdgeInfo::default();
    e.cid = 174955203;
    e.id = 7501739;
    e.is_default = true;
    e.option = String::from("A 去上学");
    assert_eq!(
        Ok(e),
        EdgeInfo::try_from(&obj(vec![
            ("id", Json::Int(7501739)),
            ("platform_action", s("JUMP 7501739 174955203")),
            ("native_action", s("")),
            ("condition", s("")),
            ("cid", Json::Int(174955203)),
            ("option", s("A 去上学")),
            ("is_default", Json::Int(1)),
        ]))
    );
}

#[test]
fn test_edge_info_missing_fields_fail() {
    assert!(EdgeInfo::try_from(&obj(vec![("id", Json::Int(1))])).is_err());
    assert!(EdgeInfo::try_from(&obj(vec![("cid", Json::Int(1))])).is_err());
}

#[test]
fn test_handle_response() {
    let ok = obj(vec![("code", Json::Int(0)), ("data", s("payload"))]);
    assert_eq!(Ok(s("payload")), handle_response(ok));
    let err = obj(vec![("code", Json::Int(-404)), ("message", s("not found"))]);
    assert_eq!(
        Err(ApiError::Remote {
            code: -404,
            message: String::from("not found")
        }),
        handle_response(err)
    );
    assert_eq!(Err(ApiError::NoCode), handle_response(obj(vec![])));
}

fn seed_parser(part_count: Option<usize>) -> InteractionVideoParser {
    let url = UrlInfo::from_av(170001, None).unwrap();
    let seed = PartInfoList::from(vec![PartInfo::new(10, 1, "root")]);
    InteractionVideoParser::new(1, None, seed, url, part_count, None, None)
}

fn story_entry(cid: i64, title: &str, edge: i64) -> Json {
    obj(vec![
        ("cid", Json::Int(cid)),
        ("title", s(title)),
        ("edge_id", Json::Int(edge)),
    ])
}

fn choices_node(title: &str, edge_id: i64, story: Vec<Json>, choices: Vec<Json>) -> Json {
    obj(vec![
        ("title", s(title)),
        ("edge_id", Json::Int(edge_id)),
        ("story_list", Json::Arr(story)),
        (
            "edges",
            obj(vec![(
                "questions",
                Json::Arr(vec![obj(vec![("choices", Json::Arr(choices))])]),
            )]),
        ),
    ])
}

fn choice(cid: i64, id: i64) -> Json {
    obj(vec![("cid", Json::Int(cid)), ("id", Json::Int(id))])
}

#[test]
fn test_traversal_fast_path() {
    // the inline story list already has the expected number of parts, with
    // a duplicate content id that is skipped
    let mut p = seed_parser(Some(2));
    let root = choices_node(
        "root",
        1,
        vec![
            story_entry(10, "one", 1),
            story_entry(11, "two", 2),
            story_entry(10, "one again", 3),
        ],
        vec![choice(11, 2)],
    );
    assert_eq!(Ok(true), p.on_root(&root));
    // no further fetches are needed
    assert_eq!(None, p.next_edge());
    assert_eq!(2, p.part_list.list.len());
    assert_eq!(10, p.part_list.list[0].cid);
    assert_eq!(String::from("one"), p.part_list.list[0].part);
    assert_eq!(1, p.part_list.list[0].page);
    assert_eq!(11, p.part_list.list[1].cid);
    assert_eq!(2, p.part_list.list[1].page);
    assert_eq!(Ok(()), p.finish());
}

#[test]
fn test_traversal_fallback_path() {
    // the story list is shorter than the expected count, so the graph is
    // walked; a repeated edge id is never handed out twice
    let mut p = seed_parser(Some(3));
    let root = choices_node(
        "root",
        1,
        vec![story_entry(10, "root", 1)],
        vec![choice(11, 100), choice(11, 100)],
    );
    assert_eq!(Ok(false), p.on_root(&root));
    let e = p.next_edge().unwrap();
    assert_eq!(100, e.id);
    let node1 = choices_node(
        "mid",
        100,
        vec![story_entry(11, "mid", 100)],
        vec![choice(11, 100), choice(12, 101)],
    );
    assert_eq!(Ok(()), p.on_node(&node1));
    // the duplicate edge 100 (queued twice, and again by the new node) is
    // skipped; the next fetch is edge 101
    let e2 = p.next_edge().unwrap();
    assert_eq!(101, e2.id);
    let node2 = choices_node("end", 101, vec![story_entry(12, "end", 101)], vec![]);
    assert_eq!(Ok(()), p.on_node(&node2));
    assert_eq!(None, p.next_edge());
    assert_eq!(3, p.part_list.list.len());
    assert_eq!(vec![10, 11, 12], p.part_list.list.iter().map(|x| x.cid).collect::<Vec<_>>());
    assert_eq!(vec![1, 2, 3], p.part_list.list.iter().map(|x| x.page).collect::<Vec<_>>());
    assert_eq!(Ok(()), p.finish());
}

#[test]
fn test_traversal_mismatch_fails() {
    // after the full walk the count does not match: failure, not a
    // truncated or padded success
    let mut p = seed_parser(Some(5));
    let root = choices_node(
        "root",
        1,
        vec![story_entry(10, "root", 1)],
        vec![choice(11, 100)],
    );
    assert_eq!(Ok(false), p.on_root(&root));
    let e = p.next_edge().unwrap();
    assert_eq!(100, e.id);
    let node1 = choices_node("mid", 100, vec![story_entry(11, "mid", 100)], vec![]);
    assert_eq!(Ok(()), p.on_node(&node1));
    assert_eq!(None, p.next_edge());
    assert_eq!(
        Err(InteractionError::Mismatch {
            expected: 5,
            got: 2
        }),
        p.finish()
    );
}

#[test]
fn test_edge_info_request_params() {
    let p = seed_parser(None);
    let req = p.edge_info_request(None);
    match req.get("bvid") {
        Some(Json::Str(bv)) => assert_eq!("BV17x411w7KC", bv.as_str()),
        _ => panic!("bvid missing"),
    }
    match req.get("graph_version") {
        Some(Json::Int(v)) => assert_eq!(1, *v),
        _ => panic!("graph_version missing"),
    }
    let mut e = EdgeInfo::default();
    e.id = 7;
    e.native_action = String::from("act");
    let req2 = p.edge_info_request(Some(&e));
    match req2.get("edge_id") {
        Some(Json::Int(v)) => assert_eq!(7, *v),
        _ => panic!("edge_id missing"),
    }
    match req2.get("choice") {
        Some(Json::Str(v)) => assert_eq!("act", v.as_str()),
        _ => panic!("choice missing"),
    }
}
