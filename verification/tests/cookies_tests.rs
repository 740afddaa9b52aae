use bili::cookies_json::Cookie;
use bili::cookies_json::CookiesJar;
use bili::cookies_json::CookiesJson;
use bili::json_model::Json;

#[test]
fn test_from_and_to_json() {
    let mut c = Cookie::new("n", "v");
    c.set_domain(Some(".t.com"));
    c.set_path(Some("/www"));
    let mut jar = CookiesJar::new();
    jar.add(c);
    let obj = jar.to_json().unwrap();
    let jar2 = CookiesJar::from_json(&obj).unwrap();
    assert_eq!(jar, jar2);
    jar.extras
        .push((String::from("test"), Json::Str(String::from("str"))));
    let obj = jar.to_json().unwrap();
    let jar2 = CookiesJar::from_json(&obj).unwrap();
    assert_eq!(jar, jar2);
}

#[test]
fn test_from_set_cookie() {
    assert_eq!(
        Some(Cookie::new("test", "value")),
        Cookie::from_set_cookie("test=value")
    );
    let mut c = Cookie::new("n", "v");
    c.set_domain(Some(".test.com"));
    c.set_path(Some("/www"));
    assert_eq!(
        Some(c),
        Cookie::from_set_cookie("n=v; Domain=.test.com; Path=/www")
    );
}

#[test]
fn test_from_set_cookie_percent_decodes() {
    let c = Cookie::from_set_cookie("k=va%20lue").unwrap();
    assert_eq!("va lue", c.value());
}

#[test]
fn test_from_netscape_cookie() {
    let c = Cookie::from_netscape_cookie(&"a.com\tTRUE\t/\tTRUE\t0\tid\tvalue");
    let mut c2 = Cookie::new("id", "value");
    c2.set_domain(Some("a.com"));
    c2.set_path(Some("/"));
    assert_eq!(c, Some(c2));
}

#[test]
fn test_cookies_json_to_str() {
    let mut jar = CookiesJar::new();
    jar.add(Cookie::new("id", "v"));
    let mut cj = CookiesJson::new();
    cj.add("bili", jar);
    let s = cj.to_str().unwrap();
    assert_eq!("{\"bili\":[{\"name\":\"id\",\"value\":\"v\"}]}", s);
}
