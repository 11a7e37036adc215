use image_search::extract::{cut_payload, read_entries, read_entry, read_images, unpack};
use image_search::json::Json;
use image_search::{candidates, search, urls, Arguments, Error};

fn entry(url: &str, height: i64, width: i64, thumbnail: &str, source: &str) -> String {
    let mut fields = vec!["null".to_string(); 23];
    fields[2] = format!("[\"{}\",90,120]", thumbnail);
    fields[3] = format!("[\"{}\",{},{}]", url, height, width);
    fields[22] = format!("{{\"2003\":[null,\"id\",\"{}\"]}}", source);
    format!("[[{{\"444383007\":[1,[{}]]}}]]", fields.join(","))
}

fn data(entries: &[String]) -> String {
    let mut top = vec!["null".to_string(); 57];
    top[56] = format!("[null,[[\"x\",[null,[[{}]]]]]]", entries.join(","));
    format!("[{}]", top.join(","))
}

fn page_around(json: &str) -> String {
    format!(
        "<html><script>var a = [1, 2];</script><script>AF_initDataCallback({{key: 'ds:1', data:{}, sideChannel: {{}}}});</script></html>",
        json
    )
}

fn page(entries: &[String]) -> String {
    page_around(&data(entries))
}

fn three_cats() -> Vec<String> {
    vec![
        entry("https://a.example/cat.jpg", 1080, 1920, "https://t.example/1", "https://a.example/cats"),
        entry("https://b.example/cat.png", 600, 800, "https://t.example/2", "https://b.example/page"),
        entry("https://c.example/cat.gif", 10, 20, "https://t.example/3", "https://c.example/"),
    ]
}

#[test]
fn page_without_anchor_is_a_parse_failure() {
    let text = page(&three_cats()).replace("AF_initDataCallback", "AF_initData");
    assert!(unpack(&text).is_none());
    assert!(matches!(search(&Arguments::new("cats", 0), &text), Err(Error::Parse)));
    assert!(matches!(urls(&Arguments::new("cats", 0), &text), Err(Error::Parse)));
    assert!(matches!(candidates(&Arguments::new("cats", 0), &text), Err(Error::Parse)));
    assert!(matches!(search(&Arguments::new("cats", 0), ""), Err(Error::Parse)));
}

#[test]
fn well_formed_page_gives_every_record() {
    let images = unpack(&page(&three_cats())).unwrap();
    assert_eq!(images.len(), 3);
    assert_eq!(images[0].url, "https://a.example/cat.jpg");
    assert_eq!(images[0].width, 1920);
    assert_eq!(images[0].height, 1080);
    assert_eq!(images[0].thumbnail, "https://t.example/1");
    assert_eq!(images[0].source, "https://a.example/cats");
    assert_eq!(images[1].url, "https://b.example/cat.png");
    assert_eq!(images[1].width, 800);
    assert_eq!(images[1].height, 600);
    assert_eq!(images[2].source, "https://c.example/");
}

#[test]
fn malformed_entries_are_passed_over() {
    let mut entries = three_cats();
    entries.insert(1, "[[{\"444383007\":[1,\"not an array\"]}]]".to_string());
    entries.insert(0, "7".to_string());
    entries.push("[[{\"other key\":[1,[]]}]]".to_string());
    entries.push("[]".to_string());
    entries.push("[[{\"444383007\":[1,[1,2,3]]}]]".to_string());
    assert_eq!(entries.len(), 8);
    let images = unpack(&page(&entries)).unwrap();
    assert_eq!(images.len(), 3);
    assert!(images.len() < entries.len());
    assert_eq!(images[0].url, "https://a.example/cat.jpg");
    assert_eq!(images[0].width, 1920);
    assert_eq!(images[0].height, 1080);
    assert_eq!(images[0].thumbnail, "https://t.example/1");
    assert_eq!(images[0].source, "https://a.example/cats");
    assert_eq!(images[1].url, "https://b.example/cat.png");
    assert_eq!(images[2].url, "https://c.example/cat.gif");
    assert_eq!(images[2].thumbnail, "https://t.example/3");
}

#[test]
fn entry_with_a_mistyped_field_is_passed_over() {
    let good = entry("https://a.example/cat.jpg", 1, 2, "https://t.example/1", "https://a.example/");
    let text_height = good.replace("\"https://a.example/cat.jpg\",1,2", "\"https://a.example/cat.jpg\",\"1\",2");
    let real_width = good.replace("\"https://a.example/cat.jpg\",1,2", "\"https://a.example/cat.jpg\",1,2.5");
    let number_url = good.replace("\"https://a.example/cat.jpg\",1,2", "5,1,2");
    let no_thumbnail = good.replace("[\"https://t.example/1\",90,120]", "[]");
    let number_source = good.replace("\"id\",\"https://a.example/\"", "\"id\",3");
    let no_source_key = good.replace("2003", "2004");
    for bad in [text_height, real_width, number_url, no_thumbnail, number_source, no_source_key] {
        assert_ne!(bad, good);
        let images = unpack(&page(&[bad, good.clone()])).unwrap();
        assert_eq!(images.len(), 1);
        assert_eq!(images[0].url, "https://a.example/cat.jpg");
    }
}

#[test]
fn page_with_no_entries_gives_no_records() {
    let images = unpack(&page(&[])).unwrap();
    assert!(images.is_empty());
    assert!(search(&Arguments::new("cats", 5), &page(&[])).unwrap().is_empty());
}

#[test]
fn page_whose_list_of_entries_is_missing_is_a_parse_failure() {
    assert!(unpack(&page_around("[1, 2, 3]")).is_none());
    assert!(unpack(&page_around("[]")).is_none());
    let mut top = vec!["null".to_string(); 57];
    assert!(unpack(&page_around(&format!("[{}]", top.join(",")))).is_none());
    top[56] = "[null,[[\"x\",[null,[7]]]]]".to_string();
    assert!(unpack(&page_around(&format!("[{}]", top.join(",")))).is_none());
    top[56] = "[null,[[]]]".to_string();
    assert!(unpack(&page_around(&format!("[{}]", top.join(",")))).is_none());
    top[56] = "{\"1\": 2}".to_string();
    assert!(matches!(
        search(&Arguments::new("cats", 0), &page_around(&format!("[{}]", top.join(",")))),
        Err(Error::Parse)
    ));
}

#[test]
fn page_whose_data_is_not_json_is_a_parse_failure() {
    assert!(unpack(&page_around("[1, 2")).is_none());
    assert!(unpack(&page_around("[1, oops]")).is_none());
    assert!(unpack("AF_initDataCallback no array here </script>").is_none());
    assert!(unpack("AF_initDataCallback [1, 2], and no end of the block").is_none());
    assert!(unpack("AF_initDataCallback [1]</script>").is_none());
}

#[test]
fn the_last_anchor_counts() {
    let text = format!(
        "<script>AF_initDataCallback({{data:[1,2], x: 1}});</script>{}",
        page(&three_cats())
    );
    assert_eq!(unpack(&text).unwrap().len(), 3);
    let other = format!(
        "{}<script>AF_initDataCallback({{data:[1,2], x: 1}});</script>",
        page(&three_cats())
    );
    assert!(unpack(&other).is_none());
}

#[test]
fn cut_payload_takes_from_the_bracket_to_the_last_separator() {
    let text = "junk [0] AF_initDataCallback(x, data:[1,[2,3]], side: 1);</script> [9], </script>";
    assert_eq!(cut_payload(text.as_bytes()), Some(&b"[1,[2,3]]"[..]));
    assert_eq!(cut_payload(b"AF_initDataCallback[,</script>"), Some(&b"["[..]));
    assert_eq!(cut_payload(b"AF_initDataCallback,[</script>"), None);
    assert_eq!(cut_payload(b"[1,2]</script>"), None);
}

#[test]
fn search_cuts_the_records_to_the_limit() {
    let text = page(&three_cats());
    assert_eq!(search(&Arguments::new("cats", 0), &text).unwrap().len(), 3);
    assert_eq!(search(&Arguments::new("cats", 5), &text).unwrap().len(), 3);
    assert_eq!(search(&Arguments::new("cats", 3), &text).unwrap().len(), 3);
    let two = search(&Arguments::new("cats", 2), &text).unwrap();
    assert_eq!(two.len(), 2);
    assert_eq!(two[0].url, "https://a.example/cat.jpg");
    assert_eq!(two[1].url, "https://b.example/cat.png");
    let one = search(&Arguments::new("cats", 1), &text).unwrap();
    assert_eq!(one.len(), 1);
    assert_eq!(one[0].url, "https://a.example/cat.jpg");
}

#[test]
fn urls_are_those_of_the_images_or_of_the_thumbnails() {
    let text = page(&three_cats());
    assert_eq!(
        urls(&Arguments::new("cats", 2), &text).unwrap(),
        vec!["https://a.example/cat.jpg", "https://b.example/cat.png"]
    );
    assert_eq!(
        urls(&Arguments::new("cats", 0).thumbnails(true), &text).unwrap(),
        vec!["https://t.example/1", "https://t.example/2", "https://t.example/3"]
    );
}

#[test]
fn candidates_are_all_addresses_whatever_the_limit() {
    let text = page(&three_cats());
    assert_eq!(
        candidates(&Arguments::new("cats", 1), &text).unwrap(),
        vec!["https://a.example/cat.jpg", "https://b.example/cat.png", "https://c.example/cat.gif"]
    );
    assert_eq!(
        candidates(&Arguments::new("cats", 1).thumbnails(true), &text).unwrap(),
        vec!["https://t.example/1", "https://t.example/2", "https://t.example/3"]
    );
}

#[test]
fn read_entry_reads_a_tree_built_by_hand() {
    let text = |s: &str| Json::Text(s.to_string());
    let mut fields = Vec::new();
    for _ in 0..23 {
        fields.push(Json::Null);
    }
    fields[2] = Json::Array(vec![text("thumb")]);
    fields[3] = Json::Array(vec![text("full"), Json::Number(Some(30)), Json::Number(Some(40))]);
    fields[22] = Json::Object(vec![(
        "2003".to_string(),
        Json::Array(vec![Json::Null, Json::Null, text("page")]),
    )]);
    let entry = Json::Array(vec![Json::Array(vec![Json::Object(vec![(
        "444383007".to_string(),
        Json::Array(vec![Json::Null, Json::Array(fields)]),
    )])])]);
    let image = read_entry(&entry).unwrap();
    assert_eq!(image.url, "full");
    assert_eq!(image.height, 30);
    assert_eq!(image.width, 40);
    assert_eq!(image.thumbnail, "thumb");
    assert_eq!(image.source, "page");
    assert!(read_entry(&Json::Null).is_none());
    assert!(read_entry(&Json::Array(vec![])).is_none());
    let list = vec![Json::Null, entry, Json::Bool(true)];
    let images = read_entries(&list);
    assert_eq!(images.len(), 1);
    assert_eq!(images[0].url, "full");
}

fn null_array(length: usize) -> Vec<Json> {
    let mut items = Vec::new();
    for _ in 0..length {
        items.push(Json::Null);
    }
    items
}

fn entry_tree(url: &str) -> Json {
    let text = |s: &str| Json::Text(s.to_string());
    let mut fields = null_array(23);
    fields[2] = Json::Array(vec![text("thumb")]);
    fields[3] = Json::Array(vec![text(url), Json::Number(Some(30)), Json::Number(Some(40))]);
    fields[22] = Json::Object(vec![(
        "2003".to_string(),
        Json::Array(vec![Json::Null, Json::Null, text("page")]),
    )]);
    Json::Array(vec![Json::Array(vec![Json::Object(vec![(
        "444383007".to_string(),
        Json::Array(vec![Json::Null, Json::Array(fields)]),
    )])])])
}

fn data_tree(entries: Vec<Json>) -> Json {
    let list = Json::Array(vec![Json::Null, Json::Array(vec![Json::Array(entries)])]);
    let block = Json::Array(vec![Json::Null, Json::Array(vec![Json::Array(vec![
        Json::Text("x".to_string()),
        Json::Bool(true),
        list,
    ])])]);
    let mut top = null_array(57);
    top[56] = block;
    Json::Array(top)
}

#[test]
fn read_images_walks_the_data() {
    let tree = data_tree(vec![entry_tree("one"), Json::Null, entry_tree("two")]);
    let images = read_images(&tree).unwrap();
    assert_eq!(images.len(), 2);
    assert_eq!(images[0].url, "one");
    assert_eq!(images[1].url, "two");
    assert_eq!(images[1].source, "page");
    assert_eq!(read_images(&data_tree(vec![])).unwrap().len(), 0);
    assert!(read_images(&Json::Null).is_none());
    assert!(read_images(&Json::Array(vec![])).is_none());
    assert!(read_images(&Json::Array(null_array(56))).is_none());
    assert!(read_images(&Json::Array(null_array(57))).is_none());
    assert!(read_images(&Json::Object(vec![("56".to_string(), Json::Null)])).is_none());
}

#[test]
fn numbers_count_only_as_integers_that_fit() {
    let good = entry("u", 1, 1, "t", "s");
    for odd in ["1.0", "1e0", "9223372036854775808", "18446744073709551615", "true", "null", "[1]"] {
        let bad = good.replace("[\"u\",1,1]", &format!("[\"u\",{},1]", odd));
        assert_ne!(bad, good);
        let images = unpack(&page(&[bad, good.clone()])).unwrap();
        assert_eq!(images.len(), 1);
    }
    let large = good.replace("[\"u\",1,1]", "[\"u\",9223372036854775807,1]");
    assert_eq!(unpack(&page(&[large])).unwrap()[0].height, i64::MAX);
}

#[test]
fn strings_are_read_with_their_escapes() {
    let one = entry("https://a.example/?q=1\\u0026r=caf\\u00e9", 1, 1, "t\\n", "s\\\"");
    let images = unpack(&page(&[one])).unwrap();
    assert_eq!(images[0].url, "https://a.example/?q=1&r=caf\u{e9}");
    assert_eq!(images[0].thumbnail, "t\n");
    assert_eq!(images[0].source, "s\"");
}

#[test]
fn repeated_key_counts_with_its_last_value() {
    let good = entry("u", 1, 1, "t", "s");
    let twice = good.replace(
        "{\"2003\":[null,\"id\",\"s\"]}",
        "{\"2003\":[null,\"id\",\"first\"],\"1\":2,\"2003\":[null,\"id\",\"last\"]}",
    );
    assert_ne!(twice, good);
    let images = unpack(&page(&[twice])).unwrap();
    assert_eq!(images[0].source, "last");
}

#[test]
fn page_that_is_deeper_than_the_parser_goes_is_a_parse_failure() {
    let deep = format!("{}1{}", "[".repeat(200), "]".repeat(200));
    assert!(unpack(&page_around(&deep)).is_none());
}

#[test]
fn entry_with_an_empty_address_or_no_size_is_passed_over() {
    let good = entry("u", 1, 1, "t", "s");
    let odd = vec![
        entry("", 1, 1, "t", "s"),
        entry("u", 0, 1, "t", "s"),
        entry("u", 1, 0, "t", "s"),
        entry("u", -1, 1, "t", "s"),
        entry("u", 1, -7, "t", "s"),
        entry("u", 1, 1, "", "s"),
        entry("u", 1, 1, "t", ""),
    ];
    for bad in odd {
        let images = unpack(&page(&[bad, good.clone()])).unwrap();
        assert_eq!(images.len(), 1);
        assert_eq!(images[0].url, "u");
        assert_eq!(images[0].width, 1);
        assert_eq!(images[0].height, 1);
        assert_eq!(images[0].thumbnail, "t");
        assert_eq!(images[0].source, "s");
    }
    let large = entry("u", i64::MAX, 1, "t", "s");
    let images = unpack(&page(&[large])).unwrap();
    assert_eq!(images[0].height, i64::MAX);
}
