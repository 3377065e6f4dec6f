use comment_pipeline::comments::ExtractComment;
use comment_pipeline::json::{comment_to_json, video_to_json};
use comment_pipeline::video_info::{ExtractOwner, ExtractVieoInfo};

fn record() -> ExtractComment {
    ExtractComment {
        root: 7,
        ctime: -5,
        htime: "2021-01-01T08:00:00+08:00".to_string(),
        like: 18446744073709551615,
        uname: "a\"b\\c".to_string(),
        avatar: "https://example.invalid/x.png".to_string(),
        level: 6,
        message: "first, second".to_string(),
    }
}

#[test]
fn comment_json_exact_text() {
    let c = ExtractComment {
        root: 10,
        ctime: 0,
        htime: "t".to_string(),
        like: 0,
        uname: "u".to_string(),
        avatar: "a".to_string(),
        level: 3,
        message: "m".to_string(),
    };
    let text: String = comment_to_json(&c).into_iter().collect();
    assert_eq!(
        text,
        "{\"root\":10,\"ctime\":0,\"htime\":\"t\",\"like\":0,\"uname\":\"u\",\"avatar\":\"a\",\"level\":3,\"message\":\"m\"}"
    );
}

#[test]
fn comment_json_round_trips_through_an_independent_parser() {
    let c = record();
    let text: String = comment_to_json(&c).into_iter().collect();
    let v: serde_json::Value = serde_json::from_str(&text).unwrap();
    assert_eq!(v.pointer("/root").and_then(serde_json::Value::as_u64), Some(7));
    assert_eq!(v.pointer("/ctime").and_then(serde_json::Value::as_i64), Some(-5));
    assert_eq!(
        v.pointer("/htime").and_then(serde_json::Value::as_str),
        Some("2021-01-01T08:00:00+08:00")
    );
    assert_eq!(
        v.pointer("/like").and_then(serde_json::Value::as_u64),
        Some(18446744073709551615)
    );
    assert_eq!(v.pointer("/uname").and_then(serde_json::Value::as_str), Some("a\"b\\c"));
    assert_eq!(
        v.pointer("/avatar").and_then(serde_json::Value::as_str),
        Some("https://example.invalid/x.png")
    );
    assert_eq!(v.pointer("/level").and_then(serde_json::Value::as_u64), Some(6));
    assert_eq!(
        v.pointer("/message").and_then(serde_json::Value::as_str),
        Some("first, second")
    );
}

#[test]
fn video_json_exact_text() {
    let v = ExtractVieoInfo {
        bvid: "BV1".to_string(),
        pic: "p".to_string(),
        title: "t".to_string(),
        ctime: 12,
        htime: "h".to_string(),
        owner: ExtractOwner { face: "f".to_string(), mid: 9, name: "n".to_string() },
        view: 1,
        coin: 2,
        like: 3,
        share: 4,
    };
    let text: String = video_to_json(&v).into_iter().collect();
    assert_eq!(
        text,
        "{\"bvid\":\"BV1\",\"pic\":\"p\",\"title\":\"t\",\"ctime\":12,\"htime\":\"h\",\"owner\":{\"face\":\"f\",\"mid\":9,\"name\":\"n\"},\"view\":1,\"coin\":2,\"like\":3,\"share\":4}"
    );
}

#[test]
fn video_json_round_trips_through_an_independent_parser() {
    let v = ExtractVieoInfo {
        bvid: "BV19a41187Ww".to_string(),
        pic: "https://example.invalid/\"cover\".jpg".to_string(),
        title: "a \\ title".to_string(),
        ctime: -7,
        htime: "1969-12-31T15:59:53+08:00".to_string(),
        owner: ExtractOwner { face: "face".to_string(), mid: 42, name: "owner".to_string() },
        view: 18446744073709551615,
        coin: 0,
        like: 100,
        share: 7,
    };
    let text: String = video_to_json(&v).into_iter().collect();
    let d: serde_json::Value = serde_json::from_str(&text).unwrap();
    assert_eq!(d.pointer("/bvid").and_then(serde_json::Value::as_str), Some("BV19a41187Ww"));
    assert_eq!(
        d.pointer("/pic").and_then(serde_json::Value::as_str),
        Some("https://example.invalid/\"cover\".jpg")
    );
    assert_eq!(d.pointer("/title").and_then(serde_json::Value::as_str), Some("a \\ title"));
    assert_eq!(d.pointer("/ctime").and_then(serde_json::Value::as_i64), Some(-7));
    assert_eq!(
        d.pointer("/htime").and_then(serde_json::Value::as_str),
        Some("1969-12-31T15:59:53+08:00")
    );
    assert_eq!(d.pointer("/owner/face").and_then(serde_json::Value::as_str), Some("face"));
    assert_eq!(d.pointer("/owner/mid").and_then(serde_json::Value::as_u64), Some(42));
    assert_eq!(d.pointer("/owner/name").and_then(serde_json::Value::as_str), Some("owner"));
    assert_eq!(
        d.pointer("/view").and_then(serde_json::Value::as_u64),
        Some(18446744073709551615)
    );
    assert_eq!(d.pointer("/coin").and_then(serde_json::Value::as_u64), Some(0));
    assert_eq!(d.pointer("/like").and_then(serde_json::Value::as_u64), Some(100));
    assert_eq!(d.pointer("/share").and_then(serde_json::Value::as_u64), Some(7));
}
