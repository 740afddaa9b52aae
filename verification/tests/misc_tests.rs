use bili::ffmetafile::FFMetaFile;
use bili::json_model::dump_json;
use bili::json_model::parse_json;
use bili::json_model::jv_multikey_value;
use bili::json_model::Json;
use bili::memory_file::MemoryFile;
use bili::pathutil::filter_file_name;
use bili::size::parse_size;

#[test]
fn test_memory_file() {
    let mut f = MemoryFile::new();
    f.write("23".as_bytes()).unwrap();
    let mut f2 = MemoryFile::new();
    f2.write("23".as_bytes()).unwrap();
    assert_eq!(f, f2);
    assert_eq!(f, "23");
    assert_eq!(f, "23".as_bytes());
}

#[test]
fn test_save() {
    let mut f = MemoryFile::new();
    let mut f2 = FFMetaFile::new();
    f2.basic
        .push((String::from("title"), String::from("张小龙没🐎")));
    f2.basic
        .push((String::from("a\\2"), String::from("a=d2\\#\ntest")));
    f2.extra.push((
        String::from("test"),
        vec![(String::from("tes=t"), String::from("a\nf"))],
    ));
    f2.save(&mut f).unwrap();
    assert_eq!(
        f,
        ";FFMETADATA1\ntitle=张小龙没🐎\na\\\\2=a\\=d2\\\\\\#\\\ntest\n[test]\ntes\\=t=a\\\nf\n"
            .as_bytes()
    );
}

#[test]
fn test_jv_multikey_value() {
    let j = Json::Obj(vec![
        (String::from("a"), Json::Str(String::from("b"))),
        (String::from("d"), Json::Null),
    ]);
    let v = jv_multikey_value(&j, vec!["d", "a"]);
    assert_eq!(v.unwrap().as_str().unwrap(), "b");
}

#[test]
fn test_filter_file_name() {
    assert_eq!(
        Some(String::from("T_NM_WTF_A_❤测试")),
        filter_file_name(&"T\tNM\rWTF?A<❤测试")
    );
}

#[test]
fn test_parse_size() {
    assert_eq!(Some(123), parse_size("123"));
    assert_eq!(Some(345), parse_size("345B"));
    assert_eq!(Some(1000), parse_size("1K"));
    assert_eq!(Some(2048), parse_size("2KiB"));
}

#[test]
fn test_parse_size_rejects() {
    assert_eq!(None, parse_size(""));
    assert_eq!(None, parse_size("KB"));
    assert_eq!(None, parse_size("3Q"));
    // a value that cannot fit is rejected, not wrapped
    assert_eq!(None, parse_size("999999999999999999999YB"));
}

#[test]
fn test_json_number_edges() {
    // the lowest and highest i64 survive the parse
    match parse_json("-9223372036854775808") {
        Some(Json::Int(i)) => assert_eq!(i64::MIN, i),
        other => panic!("unexpected {:?}", other),
    }
    match parse_json("9223372036854775807") {
        Some(Json::Int(i)) => assert_eq!(i64::MAX, i),
        other => panic!("unexpected {:?}", other),
    }
    // a value just outside i64, and a scaled number, become null
    assert!(matches!(parse_json("9223372036854775808"), Some(Json::Null)));
    assert!(matches!(parse_json("1e2"), Some(Json::Null)));
    // the lowest i64 serializes and round-trips
    let s = dump_json(&Json::Int(i64::MIN));
    assert_eq!("-9223372036854775808", s);
    match parse_json(s.as_str()) {
        Some(Json::Int(i)) => assert_eq!(i64::MIN, i),
        other => panic!("unexpected {:?}", other),
    }
}
