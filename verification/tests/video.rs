use comment_pipeline::video_info::{extract_video_info, RawVideoInfo, VideoError};

// 2021-01-01T08:00:00+08:00
const CTIME: i64 = 1609459200;

fn raw() -> RawVideoInfo {
    RawVideoInfo {
        bvid: Some("BV1xx411c7md".to_string()),
        pic: Some("https://example.invalid/cover.jpg".to_string()),
        title: Some("a title".to_string()),
        ctime: Some(CTIME),
        face: Some("https://example.invalid/face.png".to_string()),
        mid: Some(42),
        name: Some("owner".to_string()),
        view: Some(1000),
        coin: Some(10),
        like: Some(100),
        share: Some(7),
    }
}

#[test]
fn video_extraction_carries_every_field() {
    let v = extract_video_info(raw()).unwrap();
    assert_eq!(v.bvid, "BV1xx411c7md");
    assert_eq!(v.pic, "https://example.invalid/cover.jpg");
    assert_eq!(v.title, "a title");
    assert_eq!(v.ctime, CTIME);
    assert_eq!(v.htime, "2021-01-01T08:00:00+08:00");
    assert_eq!(v.owner.face, "https://example.invalid/face.png");
    assert_eq!(v.owner.mid, 42);
    assert_eq!(v.owner.name, "owner");
    assert_eq!(v.view, 1000);
    assert_eq!(v.coin, 10);
    assert_eq!(v.like, 100);
    assert_eq!(v.share, 7);
}

#[test]
fn video_extraction_reports_first_missing_field() {
    let cases: Vec<(fn(&mut RawVideoInfo), VideoError)> = vec![
        (|r| r.bvid = None, VideoError::MissingBvid),
        (|r| r.pic = None, VideoError::MissingPic),
        (|r| r.title = None, VideoError::MissingTitle),
        (|r| r.ctime = None, VideoError::MissingCtime),
        (|r| r.ctime = Some(i64::MIN), VideoError::CtimeOutOfRange),
        (|r| r.face = None, VideoError::MissingFace),
        (|r| r.mid = None, VideoError::MissingMid),
        (|r| r.name = None, VideoError::MissingName),
        (|r| r.view = None, VideoError::MissingView),
        (|r| r.coin = None, VideoError::MissingCoin),
        (|r| r.like = None, VideoError::MissingLike),
        (|r| r.share = None, VideoError::MissingShare),
    ];
    for (knock_out, expected) in cases {
        let mut input = raw();
        knock_out(&mut input);
        match extract_video_info(input) {
            Err(e) => assert_eq!(e, expected),
            Ok(_) => panic!("extraction succeeded on a faulty response"),
        }
    }
}

#[test]
fn video_extraction_takes_the_earlier_fault_of_two() {
    let mut input = raw();
    input.title = None;
    input.share = None;
    match extract_video_info(input) {
        Err(e) => assert_eq!(e, VideoError::MissingTitle),
        Ok(_) => panic!("extraction succeeded on a faulty response"),
    }
}

#[test]
fn video_extraction_accepts_pre_epoch_timestamps() {
    let mut input = raw();
    input.ctime = Some(-1);
    let v = extract_video_info(input).unwrap();
    assert_eq!(v.ctime, -1);
    assert_eq!(v.htime, "1970-01-01T07:59:59+08:00");
}
