use bili::json_model::Json;
use bili::normal_video::BiliNormalVideoProvider;
use bili::normal_video::UrlInfo;
use bili::part_info::PartInfo;
use bili::part_info::PartInfoList;

#[test]
fn test_parse_url() {
    assert_eq!(
        Some(UrlInfo {
            av: 170001,
            bv: String::from("BV17x411w7KC"),
            part: None
        }),
        BiliNormalVideoProvider::parse_url("av170001")
    );
    assert_eq!(
        Some(UrlInfo {
            av: 9,
            bv: String::from("BV1xx411c7mC"),
            part: None
        }),
        BiliNormalVideoProvider::parse_url("BV1xx411c7mC")
    );
    assert_eq!(None, BiliNormalVideoProvider::parse_url("BV2331"));
    assert_eq!(
        Some(UrlInfo {
            av: 207281893,
            bv: String::from("BV1nh411B7G5"),
            part: None
        }),
        BiliNormalVideoProvider::parse_url("https://www.bilibili.com/video/BV1nh411B7G5")
    );
    assert_eq!(
        Some(UrlInfo {
            av: 170001,
            bv: String::from("BV17x411w7KC"),
            part: Some(2)
        }),
        BiliNormalVideoProvider::parse_url("https://www.bilibili.com/video/av170001?test3&p=2&d")
    );
    assert_eq!(
        Some(UrlInfo {
            av: 170001,
            bv: String::from("BV17x411w7KC"),
            part: None
        }),
        BiliNormalVideoProvider::parse_url("https://www.bilibili.com/video/av170001?test3&p=3f&d")
    );
    assert_eq!(
        Some(UrlInfo {
            av: 170001,
            bv: String::from("BV17x411w7KC"),
            part: Some(2)
        }),
        BiliNormalVideoProvider::parse_url("https://b23.tv/av170001?test3&p=2&d")
    );
}

#[test]
fn test_parse_url_more_shapes() {
    // a short-link URL without a scheme, and the `/s` page form
    assert!(BiliNormalVideoProvider::parse_url("b23.tv/av9").is_some());
    assert!(
        BiliNormalVideoProvider::parse_url("https://www.bilibili.com/s/video/av170001").is_some()
    );
    // a query without an explicit part fails the site patterns
    assert_eq!(
        None,
        BiliNormalVideoProvider::parse_url("https://www.bilibili.com/video/av170001?x=1")
    );
    // an unknown host fails
    assert_eq!(
        None,
        BiliNormalVideoProvider::parse_url("https://example.com/video/av170001")
    );
}

#[test]
fn test_match_url() {
    assert!(BiliNormalVideoProvider::match_url("av170001"));
    assert!(!BiliNormalVideoProvider::match_url("not a url"));
    assert!(bili::providers::match_provider("av170001").is_some());
    assert!(bili::providers::match_provider("nothing").is_none());
}

#[test]
fn test_url_info_from_av_and_bv() {
    let u = UrlInfo::from_av(170001, Some(2)).unwrap();
    assert_eq!("BV17x411w7KC", u.bv);
    assert_eq!(Some(2), u.part);
    let v = UrlInfo::from_bv(String::from("BV17x411w7KC"), None).unwrap();
    assert_eq!(170001, v.av);
    assert!(UrlInfo::from_bv(String::from("BV2331"), None).is_none());
}

#[test]
fn test_gen_video_metadata() {
    let mut p = BiliNormalVideoProvider::new();
    let vd = Json::Obj(vec![
        (String::from("title"), Json::Str(String::from("a title"))),
        (String::from("desc"), Json::Str(String::from("words"))),
        (
            String::from("owner"),
            Json::Obj(vec![(String::from("name"), Json::Str(String::from("who")))]),
        ),
        (String::from("bvid"), Json::Str(String::from("BV17x411w7KC"))),
        (String::from("videos"), Json::Int(2)),
        (String::from("pubdate"), Json::Int(1)),
        (String::from("aid"), Json::Int(170001)),
    ]);
    let vi = Json::Obj(vec![
        (String::from("videoData"), vd),
        (
            String::from("tags"),
            Json::Arr(vec![Json::Obj(vec![(
                String::from("tag_name"),
                Json::Str(String::from("music")),
            )])]),
        ),
    ]);
    p.videoinfo = Some(vi);
    p.partinfo = Some(PartInfoList::from(vec![
        PartInfo::new(1, 1, "one"),
        PartInfo::new(2, 2, "two"),
    ]));
    assert_eq!(Some(2), p.part_count());
    let md = p.gen_video_metadata(Some(2)).unwrap();
    // a multi-part video carries the part name in the title
    assert_eq!(Some(String::from("a title - two")), md.title);
    assert_eq!(Some(String::from("a title")), md.album);
    assert_eq!(Some(String::from("words")), md.description);
    assert_eq!(Some(String::from("who")), md.author);
    assert_eq!(Some(String::from("BV17x411w7KC")), md.video_id);
    assert_eq!(Some(1), md.date);
    assert_eq!(vec![String::from("music")], md.tags);
    let tr = md.track.unwrap();
    assert_eq!(2, tr.no());
    assert_eq!(2, tr.total());
    assert_eq!(
        (String::from("part"), String::from("two")),
        md.extra[0].clone()
    );
    assert!(md
        .extra
        .iter()
        .any(|e| e.0 == "aid" && e.1 == "AV170001"));
    assert!(md
        .extra
        .iter()
        .any(|e| e.0 == "pubdate" && e.1 == "1970-01-01T00:00:01Z"));
}
