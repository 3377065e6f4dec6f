use comment_pipeline::comments::{
    max_like_comments, sort_group_comments, take_comments, ExtractComment, ExtractError,
    FetchError, FetchProgress, GroupComment, GroupError, RawPage, RawReply, SelectError,
};

fn reply(root: u64, ctime: i64, like: u64, uname: &str, message: &str) -> RawReply {
    RawReply {
        root: Some(root),
        ctime: Some(ctime),
        like: Some(like),
        uname: Some(uname.to_string()),
        avatar: Some(format!("https://example.invalid/{}.png", uname)),
        level: Some(5),
        message: Some(message.to_string()),
    }
}

fn comment(ctime: i64, like: u64, message: &str) -> ExtractComment {
    ExtractComment {
        root: 1,
        ctime,
        htime: String::new(),
        like,
        uname: "user".to_string(),
        avatar: "avatar".to_string(),
        level: 5,
        message: message.to_string(),
    }
}

// 2021-01-01T08:00:00+08:00
const JAN_A: i64 = 1609459200;
// 2021-01-07T14:13:20+08:00
const JAN_B: i64 = 1610000000;
// 2021-02-01T08:00:00+08:00
const FEB: i64 = 1612137600;

#[test]
fn extraction_flattens_pages_in_order() {
    let pages = vec![
        RawPage { replies: Some(vec![reply(1, JAN_A, 5, "ann", "first"), reply(2, JAN_B, 9, "bob", "second")]) },
        RawPage { replies: Some(vec![reply(3, FEB, 3, "cyd", "third")]) },
    ];
    let records = take_comments(pages).unwrap();
    assert_eq!(records.len(), 3);
    assert_eq!(records[0].root, 1);
    assert_eq!(records[0].ctime, JAN_A);
    assert_eq!(records[0].like, 5);
    assert_eq!(records[0].uname, "ann");
    assert_eq!(records[0].avatar, "https://example.invalid/ann.png");
    assert_eq!(records[0].level, 5);
    assert_eq!(records[0].message, "first");
    assert_eq!(records[1].uname, "bob");
    assert_eq!(records[2].message, "third");
}

#[test]
fn extraction_renders_human_time_in_utc8() {
    let pages = vec![RawPage { replies: Some(vec![reply(1, JAN_A, 5, "ann", "hi")]) }];
    let records = take_comments(pages).unwrap();
    assert_eq!(records[0].htime, "2021-01-01T08:00:00+08:00");
}

#[test]
fn extraction_stops_at_first_absent_reply_list() {
    // The documented quirk: a missing reply list on the first page drops the
    // later pages too, even when they hold data.
    let pages = vec![
        RawPage { replies: None },
        RawPage { replies: Some(vec![reply(1, JAN_A, 5, "ann", "late")]) },
    ];
    let records = take_comments(pages).unwrap();
    assert_eq!(records.len(), 0);
}

#[test]
fn extraction_stops_midway_and_keeps_earlier_pages() {
    let pages = vec![
        RawPage { replies: Some(vec![reply(1, JAN_A, 5, "ann", "kept")]) },
        RawPage { replies: None },
        RawPage { replies: Some(vec![reply(2, JAN_B, 9, "bob", "dropped")]) },
    ];
    let records = take_comments(pages).unwrap();
    assert_eq!(records.len(), 1);
    assert_eq!(records[0].message, "kept");
}

#[test]
fn extraction_reports_first_missing_field() {
    let mut bad = reply(1, JAN_A, 5, "ann", "hi");
    bad.root = None;
    let pages = vec![RawPage { replies: Some(vec![bad]) }];
    assert_eq!(take_comments(pages), Err(ExtractError::MissingRoot));

    let mut bad = reply(1, JAN_A, 5, "ann", "hi");
    bad.ctime = None;
    let pages = vec![RawPage { replies: Some(vec![bad]) }];
    assert_eq!(take_comments(pages), Err(ExtractError::MissingCtime));

    let bad = reply(1, i64::MIN, 5, "ann", "hi");
    let pages = vec![RawPage { replies: Some(vec![bad]) }];
    assert_eq!(take_comments(pages), Err(ExtractError::CtimeOutOfRange));

    let mut bad = reply(1, JAN_A, 5, "ann", "hi");
    bad.like = None;
    let pages = vec![RawPage { replies: Some(vec![bad]) }];
    assert_eq!(take_comments(pages), Err(ExtractError::MissingLike));

    let mut bad = reply(1, JAN_A, 5, "ann", "hi");
    bad.uname = None;
    let pages = vec![RawPage { replies: Some(vec![bad]) }];
    assert_eq!(take_comments(pages), Err(ExtractError::MissingUname));

    let mut bad = reply(1, JAN_A, 5, "ann", "hi");
    bad.avatar = None;
    let pages = vec![RawPage { replies: Some(vec![bad]) }];
    assert_eq!(take_comments(pages), Err(ExtractError::MissingAvatar));

    let mut bad = reply(1, JAN_A, 5, "ann", "hi");
    bad.level = None;
    let pages = vec![RawPage { replies: Some(vec![bad]) }];
    assert_eq!(take_comments(pages), Err(ExtractError::MissingLevel));

    let mut bad = reply(1, JAN_A, 5, "ann", "hi");
    bad.message = None;
    let pages = vec![RawPage { replies: Some(vec![bad]) }];
    assert_eq!(take_comments(pages), Err(ExtractError::MissingMessage));
}

#[test]
fn extraction_faults_on_missing_field_even_after_good_replies() {
    let mut bad = reply(2, JAN_B, 9, "bob", "hi");
    bad.message = None;
    let pages = vec![RawPage { replies: Some(vec![reply(1, JAN_A, 5, "ann", "ok"), bad]) }];
    assert_eq!(take_comments(pages), Err(ExtractError::MissingMessage));
}

#[test]
fn grouper_scenario_two_months() {
    // Three comments with months [Jan, Jan, Feb] and likes [5, 9, 3].
    let input = vec![comment(JAN_A, 5, "jan-five"), comment(JAN_B, 9, "jan-nine"), comment(FEB, 3, "feb-three")];
    let groups = sort_group_comments(input).unwrap();
    assert_eq!(groups.len(), 2);
    assert_eq!(groups[0].year, 2021);
    assert_eq!(groups[0].month, 1);
    assert_eq!(groups[0].comments.len(), 2);
    assert_eq!(groups[1].year, 2021);
    assert_eq!(groups[1].month, 2);
    assert_eq!(groups[1].comments.len(), 1);

    let top = max_like_comments(groups).unwrap();
    assert_eq!(top.len(), 2);
    assert_eq!(top[0].like, 9);
    assert_eq!(top[0].message, "jan-nine");
    assert_eq!(top[1].like, 3);
    assert_eq!(top[1].message, "feb-three");
}

#[test]
fn grouper_sorts_before_grouping() {
    // Feb first, then the two January comments out of order.
    let input = vec![comment(FEB, 3, "c"), comment(JAN_B, 9, "b"), comment(JAN_A, 5, "a")];
    let groups = sort_group_comments(input).unwrap();
    assert_eq!(groups.len(), 2);
    assert_eq!(groups[0].month, 1);
    assert_eq!(groups[0].comments[0].ctime, JAN_A);
    assert_eq!(groups[0].comments[1].ctime, JAN_B);
    assert_eq!(groups[1].month, 2);
    assert_eq!(groups[1].comments[0].ctime, FEB);
}

#[test]
fn grouper_rejects_empty_input() {
    assert_eq!(sort_group_comments(Vec::new()), Err(GroupError::EmptyInput));
}

#[test]
fn grouper_rejects_out_of_range_timestamp() {
    let input = vec![comment(JAN_A, 5, "ok"), comment(i64::MIN, 1, "bad")];
    assert_eq!(sort_group_comments(input), Err(GroupError::CtimeOutOfRange));
}

#[test]
fn selector_keeps_the_later_record_on_ties() {
    let group = GroupComment {
        year: 2021,
        month: 1,
        comments: vec![comment(JAN_A, 7, "early"), comment(JAN_B, 7, "late")],
    };
    let top = max_like_comments(vec![group]).unwrap();
    assert_eq!(top.len(), 1);
    assert_eq!(top[0].message, "late");
}

#[test]
fn selector_rejects_an_empty_group() {
    let group = GroupComment { year: 2021, month: 1, comments: Vec::new() };
    assert_eq!(max_like_comments(vec![group]), Err(SelectError::EmptyGroup));
}

#[test]
fn fetch_scenario_three_pages_for_45_of_20() {
    // A total count of 45 at page size 20 takes exactly 3 requests.
    let mut progress = FetchProgress::new();
    assert_eq!(progress.page, 1);
    let mut requests: u64 = 1;
    assert_eq!(progress.record_page(Some(20), Some(45)), Ok(true));
    requests += 1;
    assert_eq!(progress.record_page(Some(20), Some(45)), Ok(true));
    requests += 1;
    assert_eq!(progress.record_page(Some(5), Some(45)), Ok(false));
    assert_eq!(requests, 3);
    assert_eq!(progress.fetched, 45);
    assert_eq!(progress.page, 4);
}

#[test]
fn fetch_rejects_missing_counters() {
    let mut progress = FetchProgress::new();
    assert_eq!(progress.record_page(None, Some(45)), Err(FetchError::MissingPageSize));
    assert_eq!(progress.record_page(Some(20), None), Err(FetchError::MissingTotalCount));
    assert_eq!(progress.fetched, 0);
    assert_eq!(progress.page, 1);
}

#[test]
fn fetch_rejects_count_overflow() {
    let mut progress = FetchProgress::new();
    assert_eq!(progress.record_page(Some(u64::MAX), Some(u64::MAX)), Ok(false));
    assert_eq!(progress.record_page(Some(1), Some(u64::MAX)), Err(FetchError::CountOverflow));
}

// 2020-12-31T08:00:00+08:00
const DEC_2020: i64 = 1609372800;
// 2020-01-15T04:40:00+08:00
const JAN_2020: i64 = 1579034400;

#[test]
fn grouper_splits_at_a_year_boundary() {
    let input = vec![comment(DEC_2020, 1, "dec"), comment(JAN_A, 2, "jan")];
    let groups = sort_group_comments(input).unwrap();
    assert_eq!(groups.len(), 2);
    assert_eq!((groups[0].year, groups[0].month), (2020, 12));
    assert_eq!((groups[1].year, groups[1].month), (2021, 1));
}

#[test]
fn grouper_splits_same_month_of_different_years() {
    // January of two different years shares the month number but not the
    // calendar key, so the records land in two groups.
    let input = vec![comment(JAN_2020, 1, "old"), comment(JAN_A, 2, "new")];
    let groups = sort_group_comments(input).unwrap();
    assert_eq!(groups.len(), 2);
    assert_eq!((groups[0].year, groups[0].month), (2020, 1));
    assert_eq!((groups[1].year, groups[1].month), (2021, 1));
}

#[test]
fn grouper_handles_a_single_record() {
    let groups = sort_group_comments(vec![comment(JAN_A, 4, "only")]).unwrap();
    assert_eq!(groups.len(), 1);
    assert_eq!((groups[0].year, groups[0].month), (2021, 1));
    assert_eq!(groups[0].comments.len(), 1);
    let top = max_like_comments(groups).unwrap();
    assert_eq!(top[0].message, "only");
}

// 1969-12-02T08:00:00+08:00
const DEC_1969: i64 = -2592000;

#[test]
fn extraction_accepts_pre_epoch_timestamps() {
    let pages = vec![RawPage { replies: Some(vec![reply(1, -1, 5, "ann", "old")]) }];
    let records = take_comments(pages).unwrap();
    assert_eq!(records.len(), 1);
    assert_eq!(records[0].ctime, -1);
    assert_eq!(records[0].htime, "1970-01-01T07:59:59+08:00");
}

#[test]
fn grouper_accepts_pre_epoch_timestamps() {
    let input = vec![comment(JAN_A, 2, "new"), comment(DEC_1969, 1, "old")];
    let groups = sort_group_comments(input).unwrap();
    assert_eq!(groups.len(), 2);
    assert_eq!((groups[0].year, groups[0].month), (1969, 12));
    assert_eq!(groups[0].comments[0].message, "old");
    assert_eq!((groups[1].year, groups[1].month), (2021, 1));
}

#[test]
fn grouper_keeps_relative_order_of_equal_timestamps() {
    let input = vec![
        comment(JAN_B, 1, "tie-first"),
        comment(JAN_A, 2, "early"),
        comment(JAN_B, 3, "tie-second"),
    ];
    let groups = sort_group_comments(input).unwrap();
    assert_eq!(groups.len(), 1);
    let msgs: Vec<&str> = groups[0].comments.iter().map(|c| c.message.as_str()).collect();
    assert_eq!(msgs, vec!["early", "tie-first", "tie-second"]);
}
