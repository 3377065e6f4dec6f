//! Comment pipeline: pagination progress for the paged comment listing,
//! extraction of flat comment records from raw pages, chronological grouping
//! by calendar month, and selection of the most-liked comment per group.

use crate::time::{month_of_utc8, rfc3339_utc8, utc8_month, utc8_rfc3339, utc8_year, ym_le, year_of_utc8};
use crate::ts_in_range;
use vstd::multiset::Multiset;
use vstd::prelude::*;

verus! {

/// A flat comment record, one per reply of the raw listing.
#[derive(Debug, PartialEq, Eq)]
pub struct ExtractComment {
    pub root: u64,
    pub ctime: i64,
    pub htime: String,
    pub like: u64,
    pub uname: String,
    pub avatar: String,
    pub level: u64,
    pub message: String,
}

/// A contiguous bucket of comments sharing one calendar year and month
/// (in UTC+8).
#[derive(Debug, PartialEq, Eq)]
pub struct GroupComment {
    pub year: i32,
    pub month: u32,
    pub comments: Vec<ExtractComment>,
}

/// One reply of a raw page, with each field as the listing may or may not
/// carry it.
pub struct RawReply {
    pub root: Option<u64>,
    pub ctime: Option<i64>,
    pub like: Option<u64>,
    pub uname: Option<String>,
    pub avatar: Option<String>,
    pub level: Option<u64>,
    pub message: Option<String>,
}

/// One raw page of the paginated comment listing: its reply list, which the
/// listing sometimes omits.
pub struct RawPage {
    pub replies: Option<Vec<RawReply>>,
}

/// Why a reply could not be turned into a comment record.
#[derive(Debug, PartialEq, Eq, Structural, Clone, Copy)]
pub enum ExtractError {
    MissingRoot,
    MissingCtime,
    CtimeOutOfRange,
    MissingLike,
    MissingUname,
    MissingAvatar,
    MissingLevel,
    MissingMessage,
}

/// Why the paginated fetch could not record a page.
#[derive(Debug, PartialEq, Eq, Structural, Clone, Copy)]
pub enum FetchError {
    MissingPageSize,
    MissingTotalCount,
    CountOverflow,
}

/// The first fault of a reply, in the order the fields are read, or `None`
/// for a reply that yields a record.
pub open spec fn reply_check(r: RawReply) -> Option<ExtractError> {
    if r.root is None {
        Some(ExtractError::MissingRoot)
    } else if r.ctime is None {
        Some(ExtractError::MissingCtime)
    } else if !ts_in_range(r.ctime->0 as int) {
        Some(ExtractError::CtimeOutOfRange)
    } else if r.like is None {
        Some(ExtractError::MissingLike)
    } else if r.uname is None {
        Some(ExtractError::MissingUname)
    } else if r.avatar is None {
        Some(ExtractError::MissingAvatar)
    } else if r.level is None {
        Some(ExtractError::MissingLevel)
    } else if r.message is None {
        Some(ExtractError::MissingMessage)
    } else {
        None
    }
}

pub open spec fn reply_ok(r: RawReply) -> bool {
    reply_check(r) is None
}

/// The record that a reply flattens to: every field carried over, and the
/// human-readable time rendered from the timestamp in UTC+8.
pub open spec fn comment_matches_reply(c: ExtractComment, r: RawReply) -> bool {
    &&& c.root == r.root->0
    &&& c.ctime == r.ctime->0
    &&& c.htime@ == rfc3339_utc8(r.ctime->0 as int)
    &&& c.like == r.like->0
    &&& c.uname == r.uname->0
    &&& c.avatar == r.avatar->0
    &&& c.level == r.level->0
    &&& c.message == r.message->0
}

/// `n` is the point where extraction stops: every page before it has a reply
/// list, and it is the end of the input or the first page without one.
pub open spec fn scan_stop(pages: Seq<RawPage>, n: int) -> bool {
    &&& 0 <= n <= pages.len()
    &&& forall|m: int| 0 <= m < n ==> (#[trigger] pages[m].replies) is Some
    &&& n == pages.len() || pages[n].replies is None
}

/// Every reply on the first `n` pages yields a record.
pub open spec fn all_replies_ok(pages: Seq<RawPage>, n: int) -> bool {
    forall|i: int, j: int|
        0 <= i < n && pages[i].replies is Some && 0 <= j < pages[i].replies->0@.len()
            ==> reply_ok(#[trigger] pages[i].replies->0@[j])
}

/// The replies of the first `n` pages, in page order then reply order.
pub open spec fn pages_replies(pages: Seq<RawPage>, n: int) -> Seq<RawReply>
    decreases n,
{
    if n <= 0 {
        Seq::empty()
    } else {
        pages_replies(pages, n - 1) + pages[n - 1].replies->0@
    }
}

/// Each record of `cs` flattens the reply of `rs` at the same position.
pub open spec fn extraction_matches(cs: Seq<ExtractComment>, rs: Seq<RawReply>) -> bool {
    &&& cs.len() == rs.len()
    &&& forall|k: int| 0 <= k < rs.len() ==> comment_matches_reply(#[trigger] cs[k], rs[k])
}

/// The reply at page `i`, position `j` is the first one, in scan order, that
/// yields no record, and every page up to `i` has a reply list.
pub open spec fn first_bad_at(pages: Seq<RawPage>, i: int, j: int) -> bool {
    &&& 0 <= i < pages.len()
    &&& forall|m: int| 0 <= m <= i ==> (#[trigger] pages[m].replies) is Some
    &&& 0 <= j < pages[i].replies->0@.len()
    &&& !reply_ok(pages[i].replies->0@[j])
    &&& forall|j2: int| 0 <= j2 < j ==> reply_ok(#[trigger] pages[i].replies->0@[j2])
    &&& forall|m: int, j2: int|
        0 <= m < i && 0 <= j2 < pages[m].replies->0@.len()
            ==> reply_ok(#[trigger] pages[m].replies->0@[j2])
}

/// Running position of the paginated comment fetch: how many replies the
/// pages seen so far reported, and the number of the next page to request.
pub struct FetchProgress {
    pub fetched: u64,
    pub page: u64,
}

impl FetchProgress {
    /// Fresh progress: nothing fetched, the first page is requested next.
    pub fn new() -> (r: FetchProgress)
        ensures
            r.fetched == 0,
            r.page == 1,
    {
        FetchProgress { fetched: 0, page: 1 }
    }

    /// Record one page's response header: add its reported size to the
    /// running count, advance the page number, and say whether the running
    /// count is still below the reported total, i.e. whether another page
    /// must be requested.
    pub fn record_page(&mut self, size: Option<u64>, total: Option<u64>) -> (r: Result<
        bool,
        FetchError,
    >)
        ensures
            r is Err ==> *final(self) == *old(self),
            size is None <==> r == Err::<bool, FetchError>(FetchError::MissingPageSize),
            size is Some && total is None <==> r == Err::<bool, FetchError>(
                FetchError::MissingTotalCount,
            ),
            size is Some && total is Some && (old(self).fetched + size->0 > u64::MAX || old(
                self,
            ).page == u64::MAX) <==> r == Err::<bool, FetchError>(FetchError::CountOverflow),
            r is Ok ==> {
                &&& final(self).fetched == old(self).fetched + size->0
                &&& final(self).page == old(self).page + 1
                &&& r->Ok_0 == (final(self).fetched < total->0)
            },
    {
        let s = match size {
            Some(s) => s,
            None => {
                return Err(FetchError::MissingPageSize);
            },
        };
        let t = match total {
            Some(t) => t,
            None => {
                return Err(FetchError::MissingTotalCount);
            },
        };
        if s > u64::MAX - self.fetched || self.page == u64::MAX {
            return Err(FetchError::CountOverflow);
        }
        self.fetched = self.fetched + s;
        self.page = self.page + 1;
        Ok(self.fetched < t)
    }
}

/// Records in non-decreasing timestamp order.
pub open spec fn sorted_by_ctime(s: Seq<ExtractComment>) -> bool {
    forall|i: int, j: int| 0 <= i < j < s.len() ==> s[i].ctime <= s[j].ctime
}

/// The records of `s` whose timestamp is exactly `t`, in their order.
pub open spec fn with_ctime(s: Seq<ExtractComment>, t: i64) -> Seq<ExtractComment> {
    s.filter(|c: ExtractComment| c.ctime == t)
}

/// A run without the timestamp `t` contributes nothing to `with_ctime`.
proof fn lemma_with_ctime_none(s: Seq<ExtractComment>, t: i64)
    requires
        forall|b: int| 0 <= b < s.len() ==> (#[trigger] s[b]).ctime != t,
    ensures
        with_ctime(s, t) == Seq::<ExtractComment>::empty(),
    decreases s.len(),
{
    reveal(Seq::filter);
    if s.len() == 0 {
        assert(with_ctime(s, t) =~= Seq::<ExtractComment>::empty());
    } else {
        assert(s[s.len() - 1].ctime != t);
        lemma_with_ctime_none(s.drop_last(), t);
    }
}

/// `with_ctime` of a single record keeps or drops it by its timestamp.
proof fn lemma_with_ctime_one(x: ExtractComment, t: i64)
    ensures
        x.ctime == t ==> with_ctime(seq![x], t) == seq![x],
        x.ctime != t ==> with_ctime(seq![x], t) == Seq::<ExtractComment>::empty(),
{
    reveal_with_fuel(Seq::filter, 2);
    assert(seq![x].drop_last() =~= Seq::<ExtractComment>::empty());
    if x.ctime == t {
        assert(with_ctime(seq![x], t) =~= seq![x]);
    } else {
        assert(with_ctime(seq![x], t) =~= Seq::<ExtractComment>::empty());
    }
}

/// Sorts records by timestamp, ascending, and stably: the result holds
/// exactly the input records, and records of equal timestamp keep their
/// relative order.
#[verifier::rlimit(100)]
fn sort_by_ctime(v: Vec<ExtractComment>) -> (r: Vec<ExtractComment>)
    ensures
        sorted_by_ctime(r@),
        r@.to_multiset() == v@.to_multiset(),
        r@.len() == v@.len(),
        forall|t: i64| #[trigger] with_ctime(r@, t) == with_ctime(v@, t),
{
    broadcast use vstd::seq_lib::group_to_multiset_ensures;

    let mut rest = v;
    let mut out: Vec<ExtractComment> = Vec::new();
    let ghost input = rest@;
    proof {
        assert forall|t: i64| #[trigger] with_ctime(out@, t) + with_ctime(rest@, t) == with_ctime(
            input,
            t,
        ) by {
            reveal(Seq::filter);
            assert(with_ctime(out@, t) =~= Seq::<ExtractComment>::empty());
            assert(with_ctime(out@, t) + with_ctime(rest@, t) =~= with_ctime(rest@, t));
        }
    }
    while rest.len() > 0
        invariant
            out@.len() + rest@.len() == input.len(),
            sorted_by_ctime(out@),
            out@.to_multiset().add(rest@.to_multiset()) =~= input.to_multiset(),
            forall|t: i64| #[trigger] with_ctime(out@, t) + with_ctime(rest@, t) == with_ctime(
                input,
                t,
            ),
            forall|a: int, b: int|
                0 <= a < out@.len() && 0 <= b < rest@.len() ==> out@[a].ctime <= rest@[b].ctime,
        decreases rest@.len(),
    {
        let mut m: usize = 0;
        let mut k: usize = 1;
        while k < rest.len()
            invariant
                0 <= m < k <= rest@.len(),
                forall|b: int| 0 <= b < k ==> rest@[m as int].ctime <= rest@[b].ctime,
                forall|b: int| 0 <= b < m ==> (#[trigger] rest@[b]).ctime > rest@[m as int].ctime,
            decreases rest@.len() - k,
        {
            if rest[k].ctime < rest[m].ctime {
                m = k;
            }
            k = k + 1;
        }
        let ghost out0 = out@;
        let ghost rest0 = rest@;
        let x = rest.remove(m);
        out.push(x);
        proof {
            broadcast use vstd::seq_lib::group_to_multiset_ensures;
            broadcast use vstd::multiset::group_multiset_axioms;
            broadcast use vstd::seq_lib::group_seq_lib_default;

            assert(rest@.to_multiset() =~= rest0.to_multiset().remove(x));
            assert(out@.to_multiset() =~= out0.to_multiset().insert(x));
            assert(rest0.contains(x));
            assert(rest0.to_multiset().count(x) > 0);
            assert(out@.to_multiset().add(rest@.to_multiset()) =~= out0.to_multiset().add(
                rest0.to_multiset(),
            ));
            let pre = rest0.subrange(0, m as int);
            let suf = rest0.subrange(m as int + 1, rest0.len() as int);
            assert(rest0 =~= (pre + seq![x]) + suf);
            assert(rest@ =~= pre + suf);
            assert(out@ =~= out0 + seq![x]);
            assert forall|t: i64| #[trigger] with_ctime(out@, t) + with_ctime(rest@, t)
                == with_ctime(input, t) by {
                assert(with_ctime(rest0, t) == with_ctime((pre + seq![x]) + suf, t));
                assert(with_ctime((pre + seq![x]) + suf, t) == with_ctime(pre + seq![x], t)
                    + with_ctime(suf, t));
                assert(with_ctime(pre + seq![x], t) == with_ctime(pre, t) + with_ctime(
                    seq![x],
                    t,
                ));
                assert(with_ctime(rest@, t) == with_ctime(pre, t) + with_ctime(suf, t));
                assert(with_ctime(out@, t) == with_ctime(out0, t) + with_ctime(seq![x], t));
                lemma_with_ctime_one(x, t);
                if t == x.ctime {
                    assert forall|b: int| 0 <= b < pre.len() implies (#[trigger] pre[b]).ctime
                        != t by {
                        assert(pre[b] == rest0[b]);
                    }
                    lemma_with_ctime_none(pre, t);
                    assert(with_ctime(rest0, t) =~= seq![x] + with_ctime(suf, t));
                    assert(with_ctime(out@, t) + with_ctime(rest@, t) =~= (with_ctime(out0, t)
                        + seq![x]) + with_ctime(suf, t));
                    assert((with_ctime(out0, t) + seq![x]) + with_ctime(suf, t) =~= with_ctime(
                        out0,
                        t,
                    ) + (seq![x] + with_ctime(suf, t)));
                    assert(with_ctime(out0, t) + with_ctime(rest0, t) =~= with_ctime(out0, t) + (
                    seq![x] + with_ctime(suf, t)));
                } else {
                    assert(with_ctime(out@, t) =~= with_ctime(out0, t));
                    assert(with_ctime(rest@, t) =~= with_ctime(rest0, t));
                }
            }
        }
    }
    proof {
        assert(rest@.to_multiset() =~= Multiset::<ExtractComment>::empty());
        assert(out@.to_multiset() =~= input.to_multiset());
        assert forall|t: i64| #[trigger] with_ctime(out@, t) == with_ctime(input, t) by {
            reveal(Seq::filter);
            assert(with_ctime(rest@, t) =~= Seq::<ExtractComment>::empty());
            assert(with_ctime(out@, t) + with_ctime(rest@, t) =~= with_ctime(out@, t));
        }
    }
    out
}

/// A reply that yields no record refutes every stopping point: no prefix of
/// the pages has all of its replies in order.
proof fn lemma_first_bad_refutes(pages: Seq<RawPage>, i: int, j: int)
    requires
        first_bad_at(pages, i, j),
    ensures
        forall|n: int| scan_stop(pages, n) ==> !all_replies_ok(pages, n),
{
    assert forall|n: int| scan_stop(pages, n) implies !all_replies_ok(pages, n) by {
        if n <= i {
            assert(pages[n].replies is Some);
            assert(pages[n].replies is None);
        } else {
            assert(!reply_ok(pages[i].replies->0@[j]));
        }
    }
}

/// Flattens raw pages into comment records: walks the pages in order, stops
/// at the first page without a reply list, and turns every reply of the
/// pages before that point into one record each, order preserved. Fails on
/// the first reply, in scan order, with a missing field or an out-of-range
/// timestamp.
#[verifier::loop_isolation(false)]
pub fn take_comments(pages: Vec<RawPage>) -> (r: Result<Vec<ExtractComment>, ExtractError>)
    ensures
        r is Ok <==> (exists|n: int| scan_stop(pages@, n) && all_replies_ok(pages@, n)),
        r matches Ok(v) ==> exists|n: int|
            scan_stop(pages@, n) && all_replies_ok(pages@, n) && extraction_matches(
                v@,
                pages_replies(pages@, n),
            ),
        r matches Err(e) ==> exists|i: int, j: int|
            first_bad_at(pages@, i, j) && Some(e) == reply_check(pages@[i].replies->0@[j]),
{
    let ghost pages0 = pages@;
    let mut rest = pages;
    let mut out: Vec<ExtractComment> = Vec::new();
    let mut stop = false;
    let ghost mut i: int = 0;
    while !stop && rest.len() > 0
        invariant
            0 <= i <= pages0.len(),
            !stop ==> rest@ == pages0.subrange(i, pages0.len() as int),
            stop ==> i < pages0.len() && pages0[i].replies is None,
            forall|m: int| 0 <= m < i ==> (#[trigger] pages0[m].replies) is Some,
            all_replies_ok(pages0, i),
            extraction_matches(out@, pages_replies(pages0, i)),
        decreases rest@.len(),
    {
        proof {
            assert(rest@[0] == pages0[i]);
        }
        let page = rest.remove(0);
        proof {
            assert(rest@ =~= pages0.subrange(i + 1, pages0.len() as int));
        }
        if page.replies.is_none() {
            stop = true;
            continue;
        }
        let mut replies = page.replies.unwrap();
        let ghost replies0 = replies@;
        proof {
            assert(pages0[i].replies->0@ == replies0);
        }
        let ghost mut j: int = 0;
        while replies.len() > 0
            invariant
                0 <= i < pages0.len(),
                pages0[i].replies is Some,
                pages0[i].replies->0@ == replies0,
                0 <= j <= replies0.len(),
                replies@ == replies0.subrange(j, replies0.len() as int),
                forall|m: int| 0 <= m <= i ==> (#[trigger] pages0[m].replies) is Some,
                all_replies_ok(pages0, i),
                forall|j2: int| 0 <= j2 < j ==> reply_ok(#[trigger] replies0[j2]),
                extraction_matches(out@, pages_replies(pages0, i) + replies0.subrange(0, j)),
            decreases replies@.len(),
        {
            proof {
                assert(replies@[0] == replies0[j]);
            }
            let rep = replies.remove(0);
            proof {
                assert(replies@ =~= replies0.subrange(j + 1, replies0.len() as int));
            }
            if rep.root.is_none() {
                proof {
                    assert(first_bad_at(pages0, i, j));
                    lemma_first_bad_refutes(pages0, i, j);
                }
                return Err(ExtractError::MissingRoot);
            }
            if rep.ctime.is_none() {
                proof {
                    assert(first_bad_at(pages0, i, j));
                    lemma_first_bad_refutes(pages0, i, j);
                }
                return Err(ExtractError::MissingCtime);
            }
            let ctime = rep.ctime.unwrap();
            if ctime < -62167248000i64 || ctime > 253402271999i64 {
                proof {
                    assert(first_bad_at(pages0, i, j));
                    lemma_first_bad_refutes(pages0, i, j);
                }
                return Err(ExtractError::CtimeOutOfRange);
            }
            if rep.like.is_none() {
                proof {
                    assert(first_bad_at(pages0, i, j));
                    lemma_first_bad_refutes(pages0, i, j);
                }
                return Err(ExtractError::MissingLike);
            }
            if rep.uname.is_none() {
                proof {
                    assert(first_bad_at(pages0, i, j));
                    lemma_first_bad_refutes(pages0, i, j);
                }
                return Err(ExtractError::MissingUname);
            }
            if rep.avatar.is_none() {
                proof {
                    assert(first_bad_at(pages0, i, j));
                    lemma_first_bad_refutes(pages0, i, j);
                }
                return Err(ExtractError::MissingAvatar);
            }
            if rep.level.is_none() {
                proof {
                    assert(first_bad_at(pages0, i, j));
                    lemma_first_bad_refutes(pages0, i, j);
                }
                return Err(ExtractError::MissingLevel);
            }
            if rep.message.is_none() {
                proof {
                    assert(first_bad_at(pages0, i, j));
                    lemma_first_bad_refutes(pages0, i, j);
                }
                return Err(ExtractError::MissingMessage);
            }
            let htime = crate::time::utc8_rfc3339(ctime);
            let c = ExtractComment {
                root: rep.root.unwrap(),
                ctime,
                htime,
                like: rep.like.unwrap(),
                uname: rep.uname.unwrap(),
                avatar: rep.avatar.unwrap(),
                level: rep.level.unwrap(),
                message: rep.message.unwrap(),
            };
            out.push(c);
            proof {
                assert(comment_matches_reply(out@.last(), replies0[j]));
                assert(replies0.subrange(0, j + 1) =~= replies0.subrange(0, j).push(replies0[j]));
                assert(pages_replies(pages0, i) + replies0.subrange(0, j + 1) =~= (pages_replies(
                    pages0,
                    i,
                ) + replies0.subrange(0, j)).push(replies0[j]));
                j = j + 1;
            }
        }
        proof {
            assert(j == replies0.len());
            assert(replies0.subrange(0, replies0.len() as int) =~= replies0);
            assert(pages_replies(pages0, i + 1) == pages_replies(pages0, i) + pages0[
                i
            ].replies->0@);
            assert forall|i2: int, j2: int|
                0 <= i2 < i + 1 && pages0[i2].replies is Some && 0 <= j2 < pages0[
                    i2
                ].replies->0@.len() implies reply_ok(#[trigger] pages0[i2].replies->0@[j2]) by {
                if i2 == i {
                    assert(reply_ok(replies0[j2]));
                }
            }
            i = i + 1;
        }
    }
    proof {
        if !stop {
            assert(rest@.len() == 0);
            assert(i == pages0.len());
        }
        assert(scan_stop(pages0, i));
    }
    Ok(out)
}


/// Why grouping could not proceed.
#[derive(Debug, PartialEq, Eq, Structural, Clone, Copy)]
pub enum GroupError {
    EmptyInput,
    CtimeOutOfRange,
}

/// Why selection could not proceed.
#[derive(Debug, PartialEq, Eq, Structural, Clone, Copy)]
pub enum SelectError {
    EmptyGroup,
}

/// Every timestamp of the records lies in the accepted range.
pub open spec fn all_ts_in_range(s: Seq<ExtractComment>) -> bool {
    forall|k: int| 0 <= k < s.len() ==> ts_in_range((#[trigger] s[k]).ctime as int)
}

/// Every comment of the group carries the group's calendar year and month
/// (in UTC+8).
pub open spec fn group_key_ok(g: GroupComment) -> bool {
    forall|j: int| #![trigger g.comments@[j]]
        0 <= j < g.comments@.len() ==> year_of_utc8(g.comments@[j].ctime as int) == g.year as int
            && month_of_utc8(g.comments@[j].ctime as int) == g.month as int
}

/// The records of the groups, in group order then record order.
pub open spec fn flatten_groups(gs: Seq<GroupComment>) -> Seq<ExtractComment>
    decreases gs.len(),
{
    if gs.len() == 0 {
        Seq::empty()
    } else {
        flatten_groups(gs.drop_last()) + gs.last().comments@
    }
}

/// Strict chronological order on calendar keys: an earlier year, or the same
/// year and a strictly earlier month.
pub open spec fn ym_lt(y1: int, m1: int, y2: int, m2: int) -> bool {
    y1 < y2 || (y1 == y2 && m1 < m2)
}

/// What grouping guarantees: at least one group, no empty group, each group
/// homogeneous in its calendar key and internally sorted, consecutive groups
/// chronologically ordered with distinct keys, and the groups together
/// holding exactly the input records, in sorted order.
pub open spec fn valid_grouping(gs: Seq<GroupComment>, input: Seq<ExtractComment>) -> bool {
    &&& gs.len() > 0
    &&& forall|i: int| 0 <= i < gs.len() ==> (#[trigger] gs[i]).comments@.len() > 0
    &&& forall|i: int| 0 <= i < gs.len() ==> group_key_ok(#[trigger] gs[i])
    &&& forall|i: int| 0 <= i < gs.len() ==> sorted_by_ctime((#[trigger] gs[i]).comments@)
    &&& forall|i: int| 0 <= i < gs.len() ==> all_ts_in_range((#[trigger] gs[i]).comments@)
    &&& forall|i: int|
        0 <= i < gs.len() - 1 ==> (#[trigger] gs[i]).comments@.last().ctime <= gs[i
            + 1].comments@[0].ctime
    &&& forall|i: int|
        0 <= i < gs.len() - 1 ==> ym_lt(
            (#[trigger] gs[i]).year as int,
            gs[i].month as int,
            gs[i + 1].year as int,
            gs[i + 1].month as int,
        )
    &&& flatten_groups(gs).to_multiset() == input.to_multiset()
    &&& forall|t: i64| #[trigger] with_ctime(flatten_groups(gs), t) == with_ctime(input, t)
    &&& sorted_by_ctime(flatten_groups(gs))
}

/// Sorts the records by timestamp, ascending, and partitions the sorted run
/// into contiguous buckets, one per calendar year and month in UTC+8; a new
/// bucket starts exactly where the key of consecutive sorted records
/// changes. Fails on an empty input, and on a record whose timestamp lies
/// outside the accepted range.
#[verifier::loop_isolation(false)]
#[verifier::rlimit(100)]
pub fn sort_group_comments(extract_comments: Vec<ExtractComment>) -> (r: Result<
    Vec<GroupComment>,
    GroupError,
>)
    ensures
        r is Ok <==> (extract_comments@.len() > 0 && all_ts_in_range(extract_comments@)),
        extract_comments@.len() == 0 <==> (r matches Err(e) && e == GroupError::EmptyInput),
        (extract_comments@.len() > 0 && !all_ts_in_range(extract_comments@)) <==> (r matches Err(e)
            && e == GroupError::CtimeOutOfRange),
        (r matches Ok(gs) ==> valid_grouping(gs@, extract_comments@)),
{
    broadcast use vstd::seq_lib::group_to_multiset_ensures;

    if extract_comments.len() == 0 {
        return Err(GroupError::EmptyInput);
    }
    let mut k: usize = 0;
    while k < extract_comments.len()
        invariant
            0 <= k <= extract_comments@.len(),
            forall|m: int| 0 <= m < k ==> ts_in_range((#[trigger] extract_comments@[m]).ctime as int),
        decreases extract_comments@.len() - k,
    {
        let t = extract_comments[k].ctime;
        if t < -62167248000i64 || t > 253402271999i64 {
            proof {
                assert(!ts_in_range(extract_comments@[k as int].ctime as int));
            }
            return Err(GroupError::CtimeOutOfRange);
        }
        k = k + 1;
    }
    assert(all_ts_in_range(extract_comments@));
    let sorted = sort_by_ctime(extract_comments);
    proof {
        assert forall|m: int| 0 <= m < sorted@.len() implies ts_in_range(
            (#[trigger] sorted@[m]).ctime as int,
        ) by {
            assert(sorted@.contains(sorted@[m]));
            assert(sorted@.to_multiset().count(sorted@[m]) > 0);
            assert(extract_comments@.to_multiset().count(sorted@[m]) > 0);
            assert(extract_comments@.contains(sorted@[m]));
            let w = choose|w: int|
                0 <= w < extract_comments@.len() && extract_comments@[w] == sorted@[m];
            assert(ts_in_range(extract_comments@[w].ctime as int));
        }
    }
    let ghost sorted0 = sorted@;
    let mut rest = sorted;
    let first_ctime = rest[0].ctime;
    proof {
        assert(first_ctime == sorted0[0].ctime);
        assert(ts_in_range(sorted0[0].ctime as int));
    }
    let y0 = utc8_year(first_ctime);
    let m0 = utc8_month(first_ctime);
    let mut cur_year = y0;
    let mut cur_month = m0;
    let mut groups: Vec<GroupComment> = Vec::new();
    groups.push(GroupComment { year: y0, month: m0, comments: Vec::new() });
    proof {
        assert(groups@.drop_last() =~= Seq::<GroupComment>::empty());
        assert(flatten_groups(groups@.drop_last()) =~= Seq::<ExtractComment>::empty());
        assert(groups@.last().comments@ =~= Seq::<ExtractComment>::empty());
        assert(flatten_groups(groups@) =~= Seq::<ExtractComment>::empty());
        assert(flatten_groups(groups@) =~= sorted0.subrange(0, 0));
    }
    let ghost mut k2: int = 0;
    while rest.len() > 0
        invariant
            0 <= k2 <= sorted0.len(),
            rest@ == sorted0.subrange(k2, sorted0.len() as int),
            groups@.len() > 0,
            flatten_groups(groups@) == sorted0.subrange(0, k2),
            groups@.last().year == cur_year,
            groups@.last().month == cur_month,
            k2 == 0 ==> groups@.len() == 1 && groups@[0].comments@.len() == 0 && cur_year as int
                == year_of_utc8(sorted0[0].ctime as int) && cur_month as int == month_of_utc8(
                sorted0[0].ctime as int,
            ),
            k2 > 0 ==> forall|i: int| 0 <= i < groups@.len() ==> (#[trigger] groups@[i]).comments@.len() > 0,
            forall|i: int| 0 <= i < groups@.len() ==> group_key_ok(#[trigger] groups@[i]),
            forall|i: int| 0 <= i < groups@.len() ==> sorted_by_ctime((#[trigger] groups@[i]).comments@),
            forall|i: int| 0 <= i < groups@.len() ==> all_ts_in_range((#[trigger] groups@[i]).comments@),
            forall|i: int|
                0 <= i < groups@.len() - 1 ==> (#[trigger] groups@[i]).comments@.last().ctime
                    <= groups@[i + 1].comments@[0].ctime,
            forall|i: int|
                0 <= i < groups@.len() - 1 ==> ym_lt(
                    (#[trigger] groups@[i]).year as int,
                    groups@[i].month as int,
                    groups@[i + 1].year as int,
                    groups@[i + 1].month as int,
                ),
        decreases rest@.len(),
    {
        proof {
            assert(rest@[0] == sorted0[k2]);
        }
        let c = rest.remove(0);
        proof {
            assert(rest@ =~= sorted0.subrange(k2 + 1, sorted0.len() as int));
            assert(ts_in_range(c.ctime as int));
        }
        let y = utc8_year(c.ctime);
        let m = utc8_month(c.ctime);
        let ghost groups_old = groups@;
        if y == cur_year && m == cur_month {
            let g_opt = groups.pop();
            let mut g = g_opt.unwrap();
            let ghost g_old = g;
            g.comments.push(c);
            groups.push(g);
            proof {
                assert(groups@.drop_last() =~= groups_old.drop_last());
                assert(groups@.last().comments@ == g_old.comments@.push(c));
                assert(flatten_groups(groups_old) == flatten_groups(groups_old.drop_last())
                    + g_old.comments@);
                assert(flatten_groups(groups@) == flatten_groups(groups@.drop_last())
                    + groups@.last().comments@);
                assert(flatten_groups(groups@) =~= flatten_groups(groups_old).push(c));
                assert(sorted0.subrange(0, k2 + 1) =~= sorted0.subrange(0, k2).push(sorted0[k2]));
                if g_old.comments@.len() > 0 {
                    assert(g_old.comments@.last() == flatten_groups(groups_old).last());
                    assert(flatten_groups(groups_old).last() == sorted0[k2 - 1]);
                    assert(sorted0[k2 - 1].ctime <= sorted0[k2].ctime);
                }
                k2 = k2 + 1;
            }
        } else {
            proof {
                if k2 == 0 {
                    assert(c == sorted0[0]);
                    assert(y as int == year_of_utc8(sorted0[0].ctime as int));
                    assert(y == cur_year);
                    assert(m == cur_month);
                    assert(false);
                }
                assert(groups_old.last().comments@.len() > 0);
                assert(groups_old.last().comments@.last() == flatten_groups(groups_old).last());
                assert(flatten_groups(groups_old).last() == sorted0[k2 - 1]);
                assert(sorted0[k2 - 1].ctime <= sorted0[k2].ctime);
                let lastg = groups_old[groups_old.len() - 1];
                assert(group_key_ok(lastg));
                assert(lastg.comments@[lastg.comments@.len() - 1] == sorted0[k2 - 1]);
                assert(year_of_utc8(sorted0[k2 - 1].ctime as int) == cur_year as int);
                assert(month_of_utc8(sorted0[k2 - 1].ctime as int) == cur_month as int);
                assert(ts_in_range(sorted0[k2 - 1].ctime as int));
                assert(ym_le(
                    year_of_utc8(sorted0[k2 - 1].ctime as int),
                    month_of_utc8(sorted0[k2 - 1].ctime as int),
                    year_of_utc8(c.ctime as int),
                    m as int,
                ));
                assert(ym_lt(cur_year as int, cur_month as int, y as int, m as int));
            }
            let mut cs: Vec<ExtractComment> = Vec::new();
            cs.push(c);
            groups.push(GroupComment { year: y, month: m, comments: cs });
            cur_year = y;
            cur_month = m;
            proof {
                assert(groups@.drop_last() =~= groups_old);
                assert(flatten_groups(groups@) == flatten_groups(groups_old)
                    + groups@.last().comments@);
                assert(flatten_groups(groups@) =~= flatten_groups(groups_old).push(c));
                assert(sorted0.subrange(0, k2 + 1) =~= sorted0.subrange(0, k2).push(sorted0[k2]));
                k2 = k2 + 1;
            }
        }
    }
    proof {
        assert(k2 == sorted0.len());
        assert(sorted0.subrange(0, sorted0.len() as int) =~= sorted0);
        assert(flatten_groups(groups@) == sorted0);
        assert forall|t: i64| #[trigger] with_ctime(flatten_groups(groups@), t) == with_ctime(
            extract_comments@,
            t,
        ) by {
            assert(with_ctime(sorted@, t) == with_ctime(extract_comments@, t));
        }
        assert(valid_grouping(groups@, extract_comments@));
    }
    Ok(groups)
}


/// `c` is what last-max selection picks from `s`: it sits at a position
/// whose like count no record exceeds and every later record undercuts.
pub open spec fn is_last_max(c: ExtractComment, s: Seq<ExtractComment>) -> bool {
    exists|j: int|
        #![trigger s[j]]
        {
            &&& 0 <= j < s.len()
            &&& c == s[j]
            &&& forall|m: int| 0 <= m < s.len() ==> (#[trigger] s[m]).like <= s[j].like
            &&& forall|m: int| j < m < s.len() ==> (#[trigger] s[m]).like < s[j].like
        }
}

/// Reduces each group to its most-liked comment, ties resolved toward the
/// later record; one record per group, in group order. Fails if some group
/// holds no comments.
#[verifier::loop_isolation(false)]
pub fn max_like_comments(groups: Vec<GroupComment>) -> (r: Result<
    Vec<ExtractComment>,
    SelectError,
>)
    ensures
        r is Ok <==> (forall|i: int|
            0 <= i < groups@.len() ==> (#[trigger] groups@[i]).comments@.len() > 0),
        (r matches Ok(sel) ==> sel@.len() == groups@.len() && (forall|i: int|
            0 <= i < groups@.len() ==> is_last_max(#[trigger] sel@[i], groups@[i].comments@))),
        (r matches Err(e) ==> e == SelectError::EmptyGroup),
{
    let ghost groups0 = groups@;
    let mut rest = groups;
    let mut out: Vec<ExtractComment> = Vec::new();
    let ghost mut i: int = 0;
    while rest.len() > 0
        invariant
            0 <= i <= groups0.len(),
            rest@ == groups0.subrange(i, groups0.len() as int),
            out@.len() == i,
            forall|m: int| 0 <= m < i ==> is_last_max(#[trigger] out@[m], groups0[m].comments@),
            forall|m: int| 0 <= m < i ==> (#[trigger] groups0[m]).comments@.len() > 0,
        decreases rest@.len(),
    {
        proof {
            assert(rest@[0] == groups0[i]);
        }
        let mut g = rest.remove(0);
        proof {
            assert(rest@ =~= groups0.subrange(i + 1, groups0.len() as int));
        }
        let ghost cs0 = g.comments@;
        if g.comments.len() == 0 {
            proof {
                assert(groups0[i].comments@.len() == 0);
            }
            return Err(SelectError::EmptyGroup);
        }
        let mut best: usize = 0;
        let mut k: usize = 1;
        while k < g.comments.len()
            invariant
                0 <= best < k <= cs0.len(),
                g.comments@ == cs0,
                forall|m: int| 0 <= m < k ==> (#[trigger] cs0[m]).like <= cs0[best as int].like,
                forall|m: int| best < m < k ==> (#[trigger] cs0[m]).like < cs0[best as int].like,
            decreases cs0.len() - k,
        {
            if g.comments[k].like >= g.comments[best].like {
                best = k;
            }
            k = k + 1;
        }
        let c = g.comments.remove(best);
        proof {
            assert(c == cs0[best as int]);
            assert(is_last_max(c, groups0[i].comments@));
        }
        out.push(c);
        proof {
            i = i + 1;
        }
    }
    Ok(out)
}

} // verus!
