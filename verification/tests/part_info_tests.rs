use bili::json_model::Json;
use bili::part_info::PartInfo;
use bili::part_info::PartInfoList;
use bili::part_info::PartInfoListError;

fn obj(entries: Vec<(&str, Json)>) -> Json {
    Json::Obj(
        entries
            .into_iter()
            .map(|(k, v)| (String::from(k), v))
            .collect(),
    )
}

#[test]
fn test_part_info_list_try_from_json() {
    let arr = Json::Arr(vec![obj(vec![
        ("cid", Json::Int(174798944)),
        ("page", Json::Int(1)),
        ("duration", Json::Int(16)),
        ("part", Json::Str(String::from("开头"))),
    ])]);
    let mut pi = PartInfo::new(174798944, 1, "开头");
    pi.duration = Some(16);
    let pl = PartInfoList::from(vec![pi]);
    assert_eq!(Ok(pl), PartInfoList::try_from(&arr));
}

#[test]
fn test_part_info_list_missing_cid_fails() {
    let arr = Json::Arr(vec![obj(vec![("part", Json::Str(String::from("t")))])]);
    assert_eq!(
        Err(PartInfoListError::CidMissing),
        PartInfoList::try_from(&arr)
    );
}

#[test]
fn test_part_info_list_empty_fails() {
    assert_eq!(
        Err(PartInfoListError::Empty),
        PartInfoList::try_from(&Json::Arr(Vec::new()))
    );
    assert_eq!(
        Err(PartInfoListError::NotArray),
        PartInfoList::try_from(&Json::Int(3))
    );
}

#[test]
fn test_part_info_list_string_cid_and_default_page() {
    let arr = Json::Arr(vec![
        obj(vec![
            ("cid", Json::Str(String::from("12"))),
            ("part", Json::Str(String::from("a"))),
        ]),
        obj(vec![
            ("cid", Json::Int(13)),
            ("part", Json::Str(String::from("b"))),
            ("duration", Json::Str(String::from("90"))),
        ]),
    ]);
    let pl = PartInfoList::try_from(&arr).unwrap();
    assert_eq!(2, pl.list.len());
    assert_eq!(12, pl.list[0].cid);
    assert_eq!(1, pl.list[0].page);
    assert_eq!(13, pl.list[1].cid);
    assert_eq!(2, pl.list[1].page);
    assert_eq!(Some(90), pl.list[1].duration);
    assert_eq!(Some(12), pl.first_cid());
}
