//! Video metadata: extraction of one flat record from the raw response of
//! the single video-metadata request.

use crate::time::{rfc3339_utc8, utc8_rfc3339};
use crate::ts_in_range;
use vstd::prelude::*;

verus! {

/// The owner sub-record of a video.
#[derive(Debug, PartialEq, Eq)]
pub struct ExtractOwner {
    pub face: String,
    pub mid: u64,
    pub name: String,
}

/// A flat video-metadata record.
#[derive(Debug, PartialEq, Eq)]
pub struct ExtractVieoInfo {
    pub bvid: String,
    pub pic: String,
    pub title: String,
    pub ctime: i64,
    pub htime: String,
    pub owner: ExtractOwner,
    pub view: u64,
    pub coin: u64,
    pub like: u64,
    pub share: u64,
}

/// The raw response of the video-metadata request, with each field as the
/// response may or may not carry it.
pub struct RawVideoInfo {
    pub bvid: Option<String>,
    pub pic: Option<String>,
    pub title: Option<String>,
    pub ctime: Option<i64>,
    pub face: Option<String>,
    pub mid: Option<u64>,
    pub name: Option<String>,
    pub view: Option<u64>,
    pub coin: Option<u64>,
    pub like: Option<u64>,
    pub share: Option<u64>,
}

/// Why the raw response could not be turned into a record.
#[derive(Debug, PartialEq, Eq, Structural, Clone, Copy)]
pub enum VideoError {
    MissingBvid,
    MissingPic,
    MissingTitle,
    MissingCtime,
    CtimeOutOfRange,
    MissingFace,
    MissingMid,
    MissingName,
    MissingView,
    MissingCoin,
    MissingLike,
    MissingShare,
}

/// The first fault of the raw response, in the order the fields are read,
/// or `None` for a response that yields a record.
pub open spec fn video_check(raw: RawVideoInfo) -> Option<VideoError> {
    if raw.bvid is None {
        Some(VideoError::MissingBvid)
    } else if raw.pic is None {
        Some(VideoError::MissingPic)
    } else if raw.title is None {
        Some(VideoError::MissingTitle)
    } else if raw.ctime is None {
        Some(VideoError::MissingCtime)
    } else if !ts_in_range(raw.ctime->0 as int) {
        Some(VideoError::CtimeOutOfRange)
    } else if raw.face is None {
        Some(VideoError::MissingFace)
    } else if raw.mid is None {
        Some(VideoError::MissingMid)
    } else if raw.name is None {
        Some(VideoError::MissingName)
    } else if raw.view is None {
        Some(VideoError::MissingView)
    } else if raw.coin is None {
        Some(VideoError::MissingCoin)
    } else if raw.like is None {
        Some(VideoError::MissingLike)
    } else if raw.share is None {
        Some(VideoError::MissingShare)
    } else {
        None
    }
}

/// The record that the raw response flattens to: every field carried over,
/// and the human-readable time rendered from the timestamp in UTC+8.
pub open spec fn video_matches_raw(v: ExtractVieoInfo, raw: RawVideoInfo) -> bool {
    &&& v.bvid == raw.bvid->0
    &&& v.pic == raw.pic->0
    &&& v.title == raw.title->0
    &&& v.ctime == raw.ctime->0
    &&& v.htime@ == rfc3339_utc8(raw.ctime->0 as int)
    &&& v.owner.face == raw.face->0
    &&& v.owner.mid == raw.mid->0
    &&& v.owner.name == raw.name->0
    &&& v.view == raw.view->0
    &&& v.coin == raw.coin->0
    &&& v.like == raw.like->0
    &&& v.share == raw.share->0
}

/// Flattens the raw response into one video-metadata record: every field
/// carried over, the owner sub-record assembled, and the creation timestamp
/// also rendered in UTC+8. Fails on the first missing field, in the order
/// the fields are read, or on an out-of-range timestamp.
pub fn extract_video_info(video_info: RawVideoInfo) -> (r: Result<ExtractVieoInfo, VideoError>)
    ensures
        r is Ok <==> video_check(video_info) is None,
        (r matches Ok(v) ==> video_matches_raw(v, video_info)),
        (r matches Err(e) ==> Some(e) == video_check(video_info)),
{
    if video_info.bvid.is_none() {
        return Err(VideoError::MissingBvid);
    }
    if video_info.pic.is_none() {
        return Err(VideoError::MissingPic);
    }
    if video_info.title.is_none() {
        return Err(VideoError::MissingTitle);
    }
    if video_info.ctime.is_none() {
        return Err(VideoError::MissingCtime);
    }
    let ctime = video_info.ctime.unwrap();
    if ctime < -62167248000i64 || ctime > 253402271999i64 {
        return Err(VideoError::CtimeOutOfRange);
    }
    if video_info.face.is_none() {
        return Err(VideoError::MissingFace);
    }
    if video_info.mid.is_none() {
        return Err(VideoError::MissingMid);
    }
    if video_info.name.is_none() {
        return Err(VideoError::MissingName);
    }
    if video_info.view.is_none() {
        return Err(VideoError::MissingView);
    }
    if video_info.coin.is_none() {
        return Err(VideoError::MissingCoin);
    }
    if video_info.like.is_none() {
        return Err(VideoError::MissingLike);
    }
    if video_info.share.is_none() {
        return Err(VideoError::MissingShare);
    }
    let htime = utc8_rfc3339(ctime);
    let owner = ExtractOwner {
        face: video_info.face.unwrap(),
        mid: video_info.mid.unwrap(),
        name: video_info.name.unwrap(),
    };
    Ok(
        ExtractVieoInfo {
            bvid: video_info.bvid.unwrap(),
            pic: video_info.pic.unwrap(),
            title: video_info.title.unwrap(),
            ctime,
            htime,
            owner,
            view: video_info.view.unwrap(),
            coin: video_info.coin.unwrap(),
            like: video_info.like.unwrap(),
            share: video_info.share.unwrap(),
        },
    )
}

} // verus!
