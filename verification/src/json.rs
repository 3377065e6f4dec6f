//! JSON text for the comment record: a writer with an exact specification,
//! a parser for the same shape, and the proof that parsing undoes writing.

use crate::comments::ExtractComment;
use crate::video_info::ExtractVieoInfo;
use vstd::prelude::*;
use vstd::std_specs::iter::IteratorSpec;

verus! {

/// One character of a string field, escaped for the JSON text: a quote or a
/// backslash gets a leading backslash; every other character stands as it is.
pub open spec fn esc_char(c: char) -> Seq<char> {
    if c == '"' || c == '\\' {
        seq!['\\', c]
    } else {
        seq![c]
    }
}

/// A string field, escaped character by character.
pub open spec fn esc(s: Seq<char>) -> Seq<char>
    decreases s.len(),
{
    if s.len() == 0 {
        Seq::<char>::empty()
    } else {
        esc_char(s[0]) + esc(s.drop_first())
    }
}

/// A string field as the JSON text carries it: escaped, between quotes.
pub open spec fn jstr(s: Seq<char>) -> Seq<char> {
    seq!['"'] + esc(s) + seq!['"']
}

/// The digit characters.
pub open spec fn digit_char(d: int) -> char {
    if d == 0 {
        '0'
    } else if d == 1 {
        '1'
    } else if d == 2 {
        '2'
    } else if d == 3 {
        '3'
    } else if d == 4 {
        '4'
    } else if d == 5 {
        '5'
    } else if d == 6 {
        '6'
    } else if d == 7 {
        '7'
    } else if d == 8 {
        '8'
    } else {
        '9'
    }
}

/// The decimal digits of a non-negative number, most significant first.
pub open spec fn dec(n: int) -> Seq<char>
    decreases n,
{
    if n < 10 {
        seq![digit_char(n)]
    } else {
        dec(n / 10) + seq![digit_char(n % 10)]
    }
}

/// The decimal rendering of a signed number.
pub open spec fn dec_i64(n: int) -> Seq<char> {
    if n >= 0 {
        dec(n)
    } else {
        seq!['-'] + dec(-n)
    }
}

/// The JSON text of one comment record.
pub open spec fn json_of_comment(c: ExtractComment) -> Seq<char> {
    seq!['{', '"', 'r', 'o', 'o', 't', '"', ':'] + dec(c.root as int) + seq![
        ',',
        '"',
        'c',
        't',
        'i',
        'm',
        'e',
        '"',
        ':',
    ] + dec_i64(c.ctime as int) + seq![',', '"', 'h', 't', 'i', 'm', 'e', '"', ':'] + jstr(c.htime@)
        + seq![',', '"', 'l', 'i', 'k', 'e', '"', ':'] + dec(c.like as int) + seq![
        ',',
        '"',
        'u',
        'n',
        'a',
        'm',
        'e',
        '"',
        ':',
    ] + jstr(c.uname@) + seq![',', '"', 'a', 'v', 'a', 't', 'a', 'r', '"', ':'] + jstr(c.avatar@)
        + seq![',', '"', 'l', 'e', 'v', 'e', 'l', '"', ':'] + dec(c.level as int) + seq![
        ',',
        '"',
        'm',
        'e',
        's',
        's',
        'a',
        'g',
        'e',
        '"',
        ':',
    ] + jstr(c.message@) + seq!['}']
}

/// One digit as a character.
fn digit_exec(d: u64) -> (c: char)
    requires
        d < 10,
    ensures
        c == digit_char(d as int),
{
    if d == 0 {
        '0'
    } else if d == 1 {
        '1'
    } else if d == 2 {
        '2'
    } else if d == 3 {
        '3'
    } else if d == 4 {
        '4'
    } else if d == 5 {
        '5'
    } else if d == 6 {
        '6'
    } else if d == 7 {
        '7'
    } else if d == 8 {
        '8'
    } else {
        '9'
    }
}

/// The decimal digits of a number, as characters.
fn u64_chars(x: u64) -> (r: Vec<char>)
    ensures
        r@ == dec(x as int),
{
    let mut acc: Vec<char> = Vec::new();
    let mut n = x;
    proof {
        assert(dec(x as int) =~= dec(n as int) + acc@);
    }
    while n >= 10
        invariant
            dec(x as int) == dec(n as int) + acc@,
        decreases n,
    {
        let d = digit_exec(n % 10);
        let ghost acc0 = acc@;
        acc.insert(0, d);
        proof {
            assert(acc@ =~= seq![digit_char((n % 10) as int)] + acc0);
            assert(dec(n as int) == dec(n as int / 10) + seq![digit_char((n % 10) as int)]);
            assert(dec(n as int / 10) + (seq![digit_char((n % 10) as int)] + acc0) =~= (dec(
                n as int / 10,
            ) + seq![digit_char((n % 10) as int)]) + acc0);
        }
        n = n / 10;
    }
    let d = digit_exec(n);
    let ghost acc0 = acc@;
    acc.insert(0, d);
    proof {
        assert(acc@ =~= seq![digit_char(n as int)] + acc0);
        assert(dec(n as int) == seq![digit_char(n as int)]);
    }
    acc
}

/// The decimal rendering of a signed number, as characters.
fn i64_chars(x: i64) -> (r: Vec<char>)
    ensures
        r@ == dec_i64(x as int),
{
    if x >= 0 {
        let r = u64_chars(x as u64);
        r
    } else {
        let mag: u64 = if x == i64::MIN {
            9223372036854775808u64
        } else {
            (-x) as u64
        };
        let mut r = u64_chars(mag);
        let ghost r0 = r@;
        r.insert(0, '-');
        proof {
            assert(r@ =~= seq!['-'] + r0);
        }
        r
    }
}

/// Escaping distributes over extending the string by one character.
proof fn lemma_esc_push(s: Seq<char>, c: char)
    ensures
        esc(s.push(c)) == esc(s) + esc_char(c),
    decreases s.len(),
{
    if s.len() == 0 {
        assert(s.push(c)[0] == c);
        assert(s.push(c).drop_first() =~= Seq::<char>::empty());
        assert(esc(Seq::<char>::empty()) =~= Seq::<char>::empty());
        assert(esc(s.push(c)) == esc_char(c) + esc(Seq::<char>::empty()));
        assert(esc_char(c) + Seq::<char>::empty() =~= esc_char(c));
        assert(esc(s) + esc_char(c) =~= esc_char(c));
    } else {
        assert(s.push(c)[0] == s[0]);
        assert(s.push(c).drop_first() =~= s.drop_first().push(c));
        lemma_esc_push(s.drop_first(), c);
        assert(esc(s.push(c)) == esc_char(s[0]) + (esc(s.drop_first()) + esc_char(c)));
        assert(esc_char(s[0]) + (esc(s.drop_first()) + esc_char(c)) =~= (esc_char(s[0]) + esc(
            s.drop_first(),
        )) + esc_char(c));
    }
}

/// A string field as JSON text: escaped, between quotes.
fn jstr_chars(s: &str) -> (r: Vec<char>)
    ensures
        r@ == jstr(s@),
{
    let mut out: Vec<char> = Vec::new();
    out.push('"');
    let mut it = s.chars();
    let ghost total = s@;
    let ghost mut done: int = 0;
    proof {
        broadcast use vstd::string::axiom_spec_iter;

        assert(it.remaining() == total);
        assert(total.subrange(0, 0) =~= Seq::<char>::empty());
        assert(esc(total.subrange(0, 0)) =~= Seq::<char>::empty());
        assert(out@ =~= seq!['"'] + esc(total.subrange(0, done)));
    }
    loop
        invariant_except_break
            0 <= done <= total.len(),
            it.obeys_prophetic_iter_laws(),
            it.remaining() == total.subrange(done, total.len() as int),
            out@ == seq!['"'] + esc(total.subrange(0, done)),
        ensures
            out@ == seq!['"'] + esc(total),
        decreases total.len() - done,
    {
        broadcast use vstd::string::next_postcondition;

        let next = it.next();
        match next {
            Some(c) => {
                proof {
                    assert(c == total[done]);
                }
                if c == '"' || c == '\\' {
                    out.push('\\');
                }
                out.push(c);
                proof {
                    assert(total.subrange(0, done + 1) =~= total.subrange(0, done).push(
                        total[done],
                    ));
                    lemma_esc_push(total.subrange(0, done), total[done]);
                    assert(out@ =~= seq!['"'] + esc(total.subrange(0, done + 1)));
                    done = done + 1;
                }
            },
            None => {
                proof {
                    assert(done == total.len());
                    assert(total.subrange(0, total.len() as int) =~= total);
                }
                break ;
            },
        }
    }
    out.push('"');
    proof {
        assert(out@ =~= (seq!['"'] + esc(s@)) + seq!['"']);
    }
    out
}

/// The JSON text of one comment record, as characters; its content is
/// exactly `json_of_comment`.
pub fn comment_to_json(c: &ExtractComment) -> (out: Vec<char>)
    ensures
        out@ == json_of_comment(*c),
{
    let mut out: Vec<char> = Vec::new();
    let mut seg = vec!['{', '"', 'r', 'o', 'o', 't', '"', ':'];
    proof {
        assert(seg@ =~= seq!['{', '"', 'r', 'o', 'o', 't', '"', ':']);
    }
    out.append(&mut seg);
    proof {
        assert(out@ =~= seq!['{', '"', 'r', 'o', 'o', 't', '"', ':']);
    }
    let mut num = u64_chars(c.root);
    out.append(&mut num);
    let mut seg = vec![',', '"', 'c', 't', 'i', 'm', 'e', '"', ':'];
    proof {
        assert(seg@ =~= seq![',', '"', 'c', 't', 'i', 'm', 'e', '"', ':']);
    }
    out.append(&mut seg);
    let mut num = i64_chars(c.ctime);
    out.append(&mut num);
    let mut seg = vec![',', '"', 'h', 't', 'i', 'm', 'e', '"', ':'];
    proof {
        assert(seg@ =~= seq![',', '"', 'h', 't', 'i', 'm', 'e', '"', ':']);
    }
    out.append(&mut seg);
    let mut fld = jstr_chars(str_of(&c.htime));
    out.append(&mut fld);
    let mut seg = vec![',', '"', 'l', 'i', 'k', 'e', '"', ':'];
    proof {
        assert(seg@ =~= seq![',', '"', 'l', 'i', 'k', 'e', '"', ':']);
    }
    out.append(&mut seg);
    let mut num = u64_chars(c.like);
    out.append(&mut num);
    let mut seg = vec![',', '"', 'u', 'n', 'a', 'm', 'e', '"', ':'];
    proof {
        assert(seg@ =~= seq![',', '"', 'u', 'n', 'a', 'm', 'e', '"', ':']);
    }
    out.append(&mut seg);
    let mut fld = jstr_chars(str_of(&c.uname));
    out.append(&mut fld);
    let mut seg = vec![',', '"', 'a', 'v', 'a', 't', 'a', 'r', '"', ':'];
    proof {
        assert(seg@ =~= seq![',', '"', 'a', 'v', 'a', 't', 'a', 'r', '"', ':']);
    }
    out.append(&mut seg);
    let mut fld = jstr_chars(str_of(&c.avatar));
    out.append(&mut fld);
    let mut seg = vec![',', '"', 'l', 'e', 'v', 'e', 'l', '"', ':'];
    proof {
        assert(seg@ =~= seq![',', '"', 'l', 'e', 'v', 'e', 'l', '"', ':']);
    }
    out.append(&mut seg);
    let mut num = u64_chars(c.level);
    out.append(&mut num);
    let mut seg = vec![',', '"', 'm', 'e', 's', 's', 'a', 'g', 'e', '"', ':'];
    proof {
        assert(seg@ =~= seq![',', '"', 'm', 'e', 's', 's', 'a', 'g', 'e', '"', ':']);
    }
    out.append(&mut seg);
    let mut fld = jstr_chars(str_of(&c.message));
    out.append(&mut fld);
    let mut seg = vec!['}'];
    proof {
        assert(seg@ =~= seq!['}']);
    }
    out.append(&mut seg);
    out
}

/// The string's text, borrowed.
fn str_of(s: &String) -> (r: &str)
    ensures
        r@ == s@,
{
    s.as_str()
}


/// The value of a digit character, or 10 for any other character.
pub open spec fn digit_val(c: char) -> int {
    if c == '0' {
        0
    } else if c == '1' {
        1
    } else if c == '2' {
        2
    } else if c == '3' {
        3
    } else if c == '4' {
        4
    } else if c == '5' {
        5
    } else if c == '6' {
        6
    } else if c == '7' {
        7
    } else if c == '8' {
        8
    } else if c == '9' {
        9
    } else {
        10
    }
}

pub open spec fn is_digit(c: char) -> bool {
    digit_val(c) < 10
}

/// What remains of `t` after its first `n` characters.
pub open spec fn skip(t: Seq<char>, n: int) -> Seq<char> {
    t.subrange(n, t.len() as int)
}

pub open spec fn starts_with(t: Seq<char>, p: Seq<char>) -> bool {
    p.len() <= t.len() && t.subrange(0, p.len() as int) == p
}

/// Consumes the exact prefix `p`, or fails.
pub open spec fn expect(t: Seq<char>, p: Seq<char>) -> Option<Seq<char>> {
    if starts_with(t, p) {
        Some(skip(t, p.len() as int))
    } else {
        None
    }
}

/// Consumes digits into an accumulator; fails past the largest 64-bit value.
pub open spec fn parse_digits(t: Seq<char>, acc: int) -> Option<(int, Seq<char>)>
    decreases t.len(),
{
    if t.len() > 0 && is_digit(t[0]) {
        if acc * 10 + digit_val(t[0]) > u64::MAX as int {
            None
        } else {
            parse_digits(t.drop_first(), acc * 10 + digit_val(t[0]))
        }
    } else {
        Some((acc, t))
    }
}

/// Consumes a non-empty run of digits as one number.
pub open spec fn parse_u64(t: Seq<char>) -> Option<(int, Seq<char>)> {
    if t.len() > 0 && is_digit(t[0]) {
        parse_digits(t, 0)
    } else {
        None
    }
}

/// Consumes an optionally signed number within the 64-bit signed range.
pub open spec fn parse_i64(t: Seq<char>) -> Option<(int, Seq<char>)> {
    if t.len() > 0 && t[0] == '-' {
        match parse_u64(skip(t, 1)) {
            Some((v, rest)) => if v <= 9223372036854775808 {
                Some((0 - v, rest))
            } else {
                None
            },
            None => None,
        }
    } else {
        match parse_u64(t) {
            Some((v, rest)) => if v <= i64::MAX as int {
                Some((v, rest))
            } else {
                None
            },
            None => None,
        }
    }
}

/// Consumes the body of a quoted string up to its closing quote, undoing the
/// escaping.
pub open spec fn parse_string_body(t: Seq<char>) -> Option<(Seq<char>, Seq<char>)>
    decreases t.len(),
{
    if t.len() == 0 {
        None
    } else if t[0] == '"' {
        Some((Seq::<char>::empty(), t.drop_first()))
    } else if t[0] == '\\' {
        if t.len() >= 2 && (t[1] == '"' || t[1] == '\\') {
            match parse_string_body(skip(t, 2)) {
                Some((s, rest)) => Some((seq![t[1]] + s, rest)),
                None => None,
            }
        } else {
            None
        }
    } else {
        match parse_string_body(t.drop_first()) {
            Some((s, rest)) => Some((seq![t[0]] + s, rest)),
            None => None,
        }
    }
}

/// Consumes a quoted string.
pub open spec fn parse_jstr(t: Seq<char>) -> Option<(Seq<char>, Seq<char>)> {
    if t.len() > 0 && t[0] == '"' {
        parse_string_body(t.drop_first())
    } else {
        None
    }
}

/// The fields of a comment record, as a parse yields them.
pub struct CommentFields {
    pub root: int,
    pub ctime: int,
    pub htime: Seq<char>,
    pub like: int,
    pub uname: Seq<char>,
    pub avatar: Seq<char>,
    pub level: int,
    pub message: Seq<char>,
}

/// The fields that a comment record carries.
pub open spec fn comment_fields_of(c: ExtractComment) -> CommentFields {
    CommentFields {
        root: c.root as int,
        ctime: c.ctime as int,
        htime: c.htime@,
        like: c.like as int,
        uname: c.uname@,
        avatar: c.avatar@,
        level: c.level as int,
        message: c.message@,
    }
}

/// Parses the JSON text of one comment record, in the exact shape the writer
/// produces.
pub open spec fn parse_comment(t: Seq<char>) -> Option<CommentFields> {
    match expect(t, seq!['{', '"', 'r', 'o', 'o', 't', '"', ':']) {
        None => None,
        Some(t) => match parse_u64(t) {
            None => None,
            Some((root, t)) => match expect(t, seq![',', '"', 'c', 't', 'i', 'm', 'e', '"', ':']) {
                None => None,
                Some(t) => match parse_i64(t) {
                    None => None,
                    Some((ctime, t)) => match expect(
                        t,
                        seq![',', '"', 'h', 't', 'i', 'm', 'e', '"', ':'],
                    ) {
                        None => None,
                        Some(t) => match parse_jstr(t) {
                            None => None,
                            Some((htime, t)) => match expect(
                                t,
                                seq![',', '"', 'l', 'i', 'k', 'e', '"', ':'],
                            ) {
                                None => None,
                                Some(t) => match parse_u64(t) {
                                    None => None,
                                    Some((like, t)) => match expect(
                                        t,
                                        seq![',', '"', 'u', 'n', 'a', 'm', 'e', '"', ':'],
                                    ) {
                                        None => None,
                                        Some(t) => match parse_jstr(t) {
                                            None => None,
                                            Some((uname, t)) => match expect(
                                                t,
                                                seq![',', '"', 'a', 'v', 'a', 't', 'a', 'r', '"', ':'],
                                            ) {
                                                None => None,
                                                Some(t) => match parse_jstr(t) {
                                                    None => None,
                                                    Some((avatar, t)) => match expect(
                                                        t,
                                                        seq![',', '"', 'l', 'e', 'v', 'e', 'l', '"', ':'],
                                                    ) {
                                                        None => None,
                                                        Some(t) => match parse_u64(t) {
                                                            None => None,
                                                            Some((level, t)) => match expect(
                                                                t,
                                                                seq![',', '"', 'm', 'e', 's', 's', 'a', 'g', 'e', '"', ':'],
                                                            ) {
                                                                None => None,
                                                                Some(t) => match parse_jstr(t) {
                                                                    None => None,
                                                                    Some((message, t)) => match expect(t, seq!['}']) {
                                                                        None => None,
                                                                        Some(t) => if t.len() == 0 {
                                                                            Some(CommentFields {
                                                                                root,
                                                                                ctime,
                                                                                htime,
                                                                                like,
                                                                                uname,
                                                                                avatar,
                                                                                level,
                                                                                message,
                                                                            })
                                                                        } else {
                                                                            None
                                                                        },
                                                                    },
                                                                },
                                                            },
                                                        },
                                                    },
                                                },
                                            },
                                        },
                                    },
                                },
                            },
                        },
                    },
                },
            },
        },
    }
}


/// Consuming an exact prefix of a concatenation leaves the remainder.
proof fn lemma_chop(p: Seq<char>, r: Seq<char>)
    ensures
        expect(p + r, p) == Some(r),
{
    assert((p + r).subrange(0, p.len() as int) =~= p);
    assert(skip(p + r, p.len() as int) =~= r);
}

/// The decimal rendering is non-empty and starts with a digit.
proof fn lemma_dec_first(n: int)
    ensures
        dec(n).len() >= 1,
        is_digit(dec(n)[0]),
    decreases n,
{
    if n < 10 {
    } else {
        lemma_dec_first(n / 10);
        assert(dec(n)[0] == dec(n / 10)[0]);
    }
}

/// Ten to the number of digits of `n`.
pub open spec fn pow_len(n: int) -> int
    decreases n,
{
    if n < 10 {
        10
    } else {
        10 * pow_len(n / 10)
    }
}

proof fn lemma_pow_len_pos(n: int)
    ensures
        pow_len(n) >= 10,
    decreases n,
{
    if n < 10 {
    } else {
        lemma_pow_len_pos(n / 10);
    }
}

/// Parsing the digits of `n` in front of anything else accumulates exactly
/// `n` under the running value.
proof fn lemma_parse_digits_dec(n: int, a: int, rest: Seq<char>)
    requires
        0 <= n,
        0 <= a,
        a * pow_len(n) + n <= u64::MAX as int,
    ensures
        parse_digits(dec(n) + rest, a) == parse_digits(rest, a * pow_len(n) + n),
    decreases n,
{
    lemma_pow_len_pos(n);
    if n < 10 {
        let t = dec(n) + rest;
        assert(t[0] == digit_char(n));
        assert(digit_val(digit_char(n)) == n);
        assert(is_digit(t[0]));
        assert(a * 10 + n <= u64::MAX as int);
        assert(t.drop_first() =~= rest);
    } else {
        let d = n % 10;
        let q = n / 10;
        let t = dec(n) + rest;
        let p1 = pow_len(q);
        lemma_pow_len_pos(q);
        assert(dec(n) == dec(q) + seq![digit_char(d)]);
        assert((dec(q) + seq![digit_char(d)]) + rest =~= dec(q) + (seq![digit_char(d)] + rest));
        assert(pow_len(n) == 10 * p1);
        let a2 = a * p1 + q;
        assert(a2 * 10 + d == a * (10 * p1) + n) by (nonlinear_arith)
            requires
                a2 == a * p1 + q,
                q == n / 10,
                d == n % 10,
                n >= 10,
        ;
        assert(0 <= a2 && a2 * 10 + d <= u64::MAX as int);
        assert(a2 <= a2 * 10) by (nonlinear_arith)
            requires
                0 <= a2,
        ;
        lemma_parse_digits_dec(q, a, seq![digit_char(d)] + rest);
        let t2 = seq![digit_char(d)] + rest;
        assert(t2[0] == digit_char(d));
        assert(digit_val(digit_char(d)) == d);
        assert(is_digit(t2[0]));
        assert(t2.drop_first() =~= rest);
    }
}

/// Parsing a rendered number followed by a non-digit yields the number back.
proof fn lemma_parse_u64_dec(n: int, rest: Seq<char>)
    requires
        0 <= n <= u64::MAX as int,
        rest.len() == 0 || !is_digit(rest[0]),
    ensures
        parse_u64(dec(n) + rest) == Some((n, rest)),
{
    lemma_dec_first(n);
    assert((dec(n) + rest)[0] == dec(n)[0]);
    lemma_pow_len_pos(n);
    assert(0 * pow_len(n) == 0) by (nonlinear_arith);
    lemma_parse_digits_dec(n, 0, rest);
}

/// Parsing an escaped string body up to its closing quote yields the string
/// back, whatever follows.
proof fn lemma_parse_body_esc(s: Seq<char>, rest: Seq<char>)
    ensures
        parse_string_body(esc(s) + (seq!['"'] + rest)) == Some((s, rest)),
    decreases s.len(),
{
    let t = esc(s) + (seq!['"'] + rest);
    if s.len() == 0 {
        assert(esc(s) =~= Seq::<char>::empty());
        assert(t =~= seq!['"'] + rest);
        assert(t[0] == '"');
        assert(t.drop_first() =~= rest);
    } else {
        let c = s[0];
        let s1 = s.drop_first();
        assert(esc(s) == esc_char(c) + esc(s1));
        lemma_parse_body_esc(s1, rest);
        let t1 = esc(s1) + (seq!['"'] + rest);
        if c == '"' || c == '\\' {
            assert(t =~= seq!['\\', c] + t1);
            assert(t[0] == '\\');
            assert(t[1] == c);
            assert(t.len() >= 2);
            assert(skip(t, 2) =~= t1);
            assert(seq![c] + s1 =~= s);
        } else {
            assert(t =~= seq![c] + t1);
            assert(t[0] == c);
            assert(t.drop_first() =~= t1);
            assert(seq![c] + s1 =~= s);
        }
    }
}


/// Concatenation of character runs associates.
proof fn lemma_assoc(a: Seq<char>, b: Seq<char>, c: Seq<char>)
    ensures
        (a + b) + c == a + (b + c),
{
    assert((a + b) + c =~= a + (b + c));
}

/// The written JSON text of a comment record, regrouped from the front: each
/// piece stands before everything that follows it.
#[verifier::rlimit(100)]
proof fn lemma_json_right_assoc(c: ExtractComment)
    ensures
        json_of_comment(c) == seq!['{', '"', 'r', 'o', 'o', 't', '"', ':'] + (dec(c.root as int) + (seq![',', '"', 'c', 't', 'i', 'm', 'e', '"', ':'] + (dec_i64(c.ctime as int) + (seq![',', '"', 'h', 't', 'i', 'm', 'e', '"', ':'] + (jstr(c.htime@) + (seq![',', '"', 'l', 'i', 'k', 'e', '"', ':'] + (dec(c.like as int) + (seq![',', '"', 'u', 'n', 'a', 'm', 'e', '"', ':'] + (jstr(c.uname@) + (seq![',', '"', 'a', 'v', 'a', 't', 'a', 'r', '"', ':'] + (jstr(c.avatar@) + (seq![',', '"', 'l', 'e', 'v', 'e', 'l', '"', ':'] + (dec(c.level as int) + (seq![',', '"', 'm', 'e', 's', 's', 'a', 'g', 'e', '"', ':'] + (jstr(c.message@) + (seq!['}'])))))))))))))))),
{
    let l1 = seq!['{', '"', 'r', 'o', 'o', 't', '"', ':'];
    let l2 = seq![',', '"', 'c', 't', 'i', 'm', 'e', '"', ':'];
    let l3 = seq![',', '"', 'h', 't', 'i', 'm', 'e', '"', ':'];
    let l4 = seq![',', '"', 'l', 'i', 'k', 'e', '"', ':'];
    let l5 = seq![',', '"', 'u', 'n', 'a', 'm', 'e', '"', ':'];
    let l6 = seq![',', '"', 'a', 'v', 'a', 't', 'a', 'r', '"', ':'];
    let l7 = seq![',', '"', 'l', 'e', 'v', 'e', 'l', '"', ':'];
    let l8 = seq![',', '"', 'm', 'e', 's', 's', 'a', 'g', 'e', '"', ':'];
    let l9 = seq!['}'];
    let p1 = l1;
    let p2 = p1 + dec(c.root as int);
    let p3 = p2 + l2;
    let p4 = p3 + dec_i64(c.ctime as int);
    let p5 = p4 + l3;
    let p6 = p5 + jstr(c.htime@);
    let p7 = p6 + l4;
    let p8 = p7 + dec(c.like as int);
    let p9 = p8 + l5;
    let p10 = p9 + jstr(c.uname@);
    let p11 = p10 + l6;
    let p12 = p11 + jstr(c.avatar@);
    let p13 = p12 + l7;
    let p14 = p13 + dec(c.level as int);
    let p15 = p14 + l8;
    let p16 = p15 + jstr(c.message@);
    let p17 = p16 + l9;
    let r17 = l9;
    let r16 = jstr(c.message@) + r17;
    let r15 = l8 + r16;
    let r14 = dec(c.level as int) + r15;
    let r13 = l7 + r14;
    let r12 = jstr(c.avatar@) + r13;
    let r11 = l6 + r12;
    let r10 = jstr(c.uname@) + r11;
    let r9 = l5 + r10;
    let r8 = dec(c.like as int) + r9;
    let r7 = l4 + r8;
    let r6 = jstr(c.htime@) + r7;
    let r5 = l3 + r6;
    let r4 = dec_i64(c.ctime as int) + r5;
    let r3 = l2 + r4;
    let r2 = dec(c.root as int) + r3;
    let r1 = l1 + r2;
    assert(json_of_comment(c) == p17);
    assert(json_of_comment(c) == p16 + r17);
    lemma_assoc(p15, jstr(c.message@), r17);
    assert(json_of_comment(c) == p15 + r16);
    lemma_assoc(p14, l8, r16);
    assert(json_of_comment(c) == p14 + r15);
    lemma_assoc(p13, dec(c.level as int), r15);
    assert(json_of_comment(c) == p13 + r14);
    lemma_assoc(p12, l7, r14);
    assert(json_of_comment(c) == p12 + r13);
    lemma_assoc(p11, jstr(c.avatar@), r13);
    assert(json_of_comment(c) == p11 + r12);
    lemma_assoc(p10, l6, r12);
    assert(json_of_comment(c) == p10 + r11);
    lemma_assoc(p9, jstr(c.uname@), r11);
    assert(json_of_comment(c) == p9 + r10);
    lemma_assoc(p8, l5, r10);
    assert(json_of_comment(c) == p8 + r9);
    lemma_assoc(p7, dec(c.like as int), r9);
    assert(json_of_comment(c) == p7 + r8);
    lemma_assoc(p6, l4, r8);
    assert(json_of_comment(c) == p6 + r7);
    lemma_assoc(p5, jstr(c.htime@), r7);
    assert(json_of_comment(c) == p5 + r6);
    lemma_assoc(p4, l3, r6);
    assert(json_of_comment(c) == p4 + r5);
    lemma_assoc(p3, dec_i64(c.ctime as int), r5);
    assert(json_of_comment(c) == p3 + r4);
    lemma_assoc(p2, l2, r4);
    assert(json_of_comment(c) == p2 + r3);
    lemma_assoc(p1, dec(c.root as int), r3);
    assert(json_of_comment(c) == p1 + r2);
    assert(json_of_comment(c) == r1);
}

/// Law: parsing the written JSON text of any comment record yields the
/// record's fields back, field for field.
#[verifier::rlimit(100)]
pub proof fn lemma_comment_json_round_trip(c: ExtractComment)
    ensures
        parse_comment(json_of_comment(c)) == Some(comment_fields_of(c)),
{
    let l1 = seq!['{', '"', 'r', 'o', 'o', 't', '"', ':'];
    let l2 = seq![',', '"', 'c', 't', 'i', 'm', 'e', '"', ':'];
    let l3 = seq![',', '"', 'h', 't', 'i', 'm', 'e', '"', ':'];
    let l4 = seq![',', '"', 'l', 'i', 'k', 'e', '"', ':'];
    let l5 = seq![',', '"', 'u', 'n', 'a', 'm', 'e', '"', ':'];
    let l6 = seq![',', '"', 'a', 'v', 'a', 't', 'a', 'r', '"', ':'];
    let l7 = seq![',', '"', 'l', 'e', 'v', 'e', 'l', '"', ':'];
    let l8 = seq![',', '"', 'm', 'e', 's', 's', 'a', 'g', 'e', '"', ':'];
    let l9 = seq!['}'];
    let quote = seq!['"'];
    let rest0 = l9;
    let rest_msg = jstr(c.message@) + rest0;
    let rest_l8 = l8 + rest_msg;
    let rest_lv = dec(c.level as int) + rest_l8;
    let rest_l7 = l7 + rest_lv;
    let rest_av = jstr(c.avatar@) + rest_l7;
    let rest_l6 = l6 + rest_av;
    let rest_un = jstr(c.uname@) + rest_l6;
    let rest_l5 = l5 + rest_un;
    let rest_lk = dec(c.like as int) + rest_l5;
    let rest_l4 = l4 + rest_lk;
    let rest_ht = jstr(c.htime@) + rest_l4;
    let rest_l3 = l3 + rest_ht;
    let rest_ct = dec_i64(c.ctime as int) + rest_l3;
    let rest_l2 = l2 + rest_ct;
    let rest_rt = dec(c.root as int) + rest_l2;
    let full = l1 + rest_rt;
    lemma_json_right_assoc(c);
    assert(json_of_comment(c) == full);
    lemma_chop(l1, rest_rt);
    assert(rest_l2[0] == ',');
    lemma_parse_u64_dec(c.root as int, rest_l2);
    lemma_chop(l2, rest_ct);
    assert(rest_l3[0] == ',');
    if c.ctime >= 0 {
        lemma_dec_first(c.ctime as int);
        assert(rest_ct[0] == dec(c.ctime as int)[0]);
        assert(rest_ct[0] != '-');
        lemma_parse_u64_dec(c.ctime as int, rest_l3);
        assert(parse_i64(rest_ct) == Some((c.ctime as int, rest_l3)));
    } else {
        assert(rest_ct =~= seq!['-'] + (dec(0 - c.ctime as int) + rest_l3));
        assert(rest_ct[0] == '-');
        assert(skip(rest_ct, 1) =~= dec(0 - c.ctime as int) + rest_l3);
        lemma_parse_u64_dec(0 - c.ctime as int, rest_l3);
        assert(parse_i64(rest_ct) == Some((c.ctime as int, rest_l3)));
    }
    lemma_chop(l3, rest_ht);
    lemma_assoc(quote + esc(c.htime@), quote, rest_l4);
    lemma_assoc(quote, esc(c.htime@), quote + rest_l4);
    assert(rest_ht == quote + (esc(c.htime@) + (quote + rest_l4)));
    assert(rest_ht[0] == '"');
    assert(rest_ht.drop_first() =~= esc(c.htime@) + (seq!['"'] + rest_l4));
    lemma_parse_body_esc(c.htime@, rest_l4);
    lemma_chop(l4, rest_lk);
    assert(rest_l5[0] == ',');
    lemma_parse_u64_dec(c.like as int, rest_l5);
    lemma_chop(l5, rest_un);
    lemma_assoc(quote + esc(c.uname@), quote, rest_l6);
    lemma_assoc(quote, esc(c.uname@), quote + rest_l6);
    assert(rest_un == quote + (esc(c.uname@) + (quote + rest_l6)));
    assert(rest_un[0] == '"');
    assert(rest_un.drop_first() =~= esc(c.uname@) + (seq!['"'] + rest_l6));
    lemma_parse_body_esc(c.uname@, rest_l6);
    lemma_chop(l6, rest_av);
    lemma_assoc(quote + esc(c.avatar@), quote, rest_l7);
    lemma_assoc(quote, esc(c.avatar@), quote + rest_l7);
    assert(rest_av == quote + (esc(c.avatar@) + (quote + rest_l7)));
    assert(rest_av[0] == '"');
    assert(rest_av.drop_first() =~= esc(c.avatar@) + (seq!['"'] + rest_l7));
    lemma_parse_body_esc(c.avatar@, rest_l7);
    lemma_chop(l7, rest_lv);
    assert(rest_l8[0] == ',');
    lemma_parse_u64_dec(c.level as int, rest_l8);
    lemma_chop(l8, rest_msg);
    lemma_assoc(quote + esc(c.message@), quote, rest0);
    lemma_assoc(quote, esc(c.message@), quote + rest0);
    assert(rest_msg == quote + (esc(c.message@) + (quote + rest0)));
    assert(rest_msg[0] == '"');
    assert(rest_msg.drop_first() =~= esc(c.message@) + (seq!['"'] + rest0));
    lemma_parse_body_esc(c.message@, rest0);
    assert(rest0.subrange(0, 1) =~= l9);
    assert(starts_with(rest0, l9));
    assert(skip(rest0, 1) =~= Seq::<char>::empty());
    assert(skip(rest0, 1).len() == 0);
}


/// The JSON text of one video-metadata record.
pub open spec fn json_of_video(v: ExtractVieoInfo) -> Seq<char> {
    seq!['{', '"', 'b', 'v', 'i', 'd', '"', ':'] + jstr(v.bvid@) + seq![',', '"', 'p', 'i', 'c', '"', ':'] + jstr(v.pic@) + seq![',', '"', 't', 'i', 't', 'l', 'e', '"', ':'] + jstr(v.title@) + seq![',', '"', 'c', 't', 'i', 'm', 'e', '"', ':'] + dec_i64(v.ctime as int) + seq![',', '"', 'h', 't', 'i', 'm', 'e', '"', ':'] + jstr(v.htime@) + seq![',', '"', 'o', 'w', 'n', 'e', 'r', '"', ':', '{', '"', 'f', 'a', 'c', 'e', '"', ':'] + jstr(v.owner.face@) + seq![',', '"', 'm', 'i', 'd', '"', ':'] + dec(v.owner.mid as int) + seq![',', '"', 'n', 'a', 'm', 'e', '"', ':'] + jstr(v.owner.name@) + seq!['}', ',', '"', 'v', 'i', 'e', 'w', '"', ':'] + dec(v.view as int) + seq![',', '"', 'c', 'o', 'i', 'n', '"', ':'] + dec(v.coin as int) + seq![',', '"', 'l', 'i', 'k', 'e', '"', ':'] + dec(v.like as int) + seq![',', '"', 's', 'h', 'a', 'r', 'e', '"', ':'] + dec(v.share as int) + seq!['}']
}

/// The JSON text of one video-metadata record, as characters; its content is
/// exactly `json_of_video`.
pub fn video_to_json(v: &ExtractVieoInfo) -> (out: Vec<char>)
    ensures
        out@ == json_of_video(*v),
{
    let mut out: Vec<char> = Vec::new();
    let mut seg = vec!['{', '"', 'b', 'v', 'i', 'd', '"', ':'];
    proof {
        assert(seg@ =~= seq!['{', '"', 'b', 'v', 'i', 'd', '"', ':']);
    }
    out.append(&mut seg);
    proof {
        assert(out@ =~= seq!['{', '"', 'b', 'v', 'i', 'd', '"', ':']);
    }
    let mut fld = jstr_chars(str_of(&v.bvid));
    out.append(&mut fld);
    let mut seg = vec![',', '"', 'p', 'i', 'c', '"', ':'];
    proof {
        assert(seg@ =~= seq![',', '"', 'p', 'i', 'c', '"', ':']);
    }
    out.append(&mut seg);
    let mut fld = jstr_chars(str_of(&v.pic));
    out.append(&mut fld);
    let mut seg = vec![',', '"', 't', 'i', 't', 'l', 'e', '"', ':'];
    proof {
        assert(seg@ =~= seq![',', '"', 't', 'i', 't', 'l', 'e', '"', ':']);
    }
    out.append(&mut seg);
    let mut fld = jstr_chars(str_of(&v.title));
    out.append(&mut fld);
    let mut seg = vec![',', '"', 'c', 't', 'i', 'm', 'e', '"', ':'];
    proof {
        assert(seg@ =~= seq![',', '"', 'c', 't', 'i', 'm', 'e', '"', ':']);
    }
    out.append(&mut seg);
    let mut num = i64_chars(v.ctime);
    out.append(&mut num);
    let mut seg = vec![',', '"', 'h', 't', 'i', 'm', 'e', '"', ':'];
    proof {
        assert(seg@ =~= seq![',', '"', 'h', 't', 'i', 'm', 'e', '"', ':']);
    }
    out.append(&mut seg);
    let mut fld = jstr_chars(str_of(&v.htime));
    out.append(&mut fld);
    let mut seg = vec![',', '"', 'o', 'w', 'n', 'e', 'r', '"', ':', '{', '"', 'f', 'a', 'c', 'e', '"', ':'];
    proof {
        assert(seg@ =~= seq![',', '"', 'o', 'w', 'n', 'e', 'r', '"', ':', '{', '"', 'f', 'a', 'c', 'e', '"', ':']);
    }
    out.append(&mut seg);
    let mut fld = jstr_chars(str_of(&v.owner.face));
    out.append(&mut fld);
    let mut seg = vec![',', '"', 'm', 'i', 'd', '"', ':'];
    proof {
        assert(seg@ =~= seq![',', '"', 'm', 'i', 'd', '"', ':']);
    }
    out.append(&mut seg);
    let mut num = u64_chars(v.owner.mid);
    out.append(&mut num);
    let mut seg = vec![',', '"', 'n', 'a', 'm', 'e', '"', ':'];
    proof {
        assert(seg@ =~= seq![',', '"', 'n', 'a', 'm', 'e', '"', ':']);
    }
    out.append(&mut seg);
    let mut fld = jstr_chars(str_of(&v.owner.name));
    out.append(&mut fld);
    let mut seg = vec!['}', ',', '"', 'v', 'i', 'e', 'w', '"', ':'];
    proof {
        assert(seg@ =~= seq!['}', ',', '"', 'v', 'i', 'e', 'w', '"', ':']);
    }
    out.append(&mut seg);
    let mut num = u64_chars(v.view);
    out.append(&mut num);
    let mut seg = vec![',', '"', 'c', 'o', 'i', 'n', '"', ':'];
    proof {
        assert(seg@ =~= seq![',', '"', 'c', 'o', 'i', 'n', '"', ':']);
    }
    out.append(&mut seg);
    let mut num = u64_chars(v.coin);
    out.append(&mut num);
    let mut seg = vec![',', '"', 'l', 'i', 'k', 'e', '"', ':'];
    proof {
        assert(seg@ =~= seq![',', '"', 'l', 'i', 'k', 'e', '"', ':']);
    }
    out.append(&mut seg);
    let mut num = u64_chars(v.like);
    out.append(&mut num);
    let mut seg = vec![',', '"', 's', 'h', 'a', 'r', 'e', '"', ':'];
    proof {
        assert(seg@ =~= seq![',', '"', 's', 'h', 'a', 'r', 'e', '"', ':']);
    }
    out.append(&mut seg);
    let mut num = u64_chars(v.share);
    out.append(&mut num);
    let mut seg = vec!['}'];
    proof {
        assert(seg@ =~= seq!['}']);
    }
    out.append(&mut seg);
    out
}

/// The fields of a video-metadata record, as a parse yields them.
pub struct VideoFields {
    pub bvid: Seq<char>,
    pub pic: Seq<char>,
    pub title: Seq<char>,
    pub ctime: int,
    pub htime: Seq<char>,
    pub face: Seq<char>,
    pub mid: int,
    pub name: Seq<char>,
    pub view: int,
    pub coin: int,
    pub like: int,
    pub share: int,
}

/// The fields that a video-metadata record carries.
pub open spec fn video_fields_of(v: ExtractVieoInfo) -> VideoFields {
    VideoFields {
        bvid: v.bvid@,
        pic: v.pic@,
        title: v.title@,
        ctime: v.ctime as int,
        htime: v.htime@,
        face: v.owner.face@,
        mid: v.owner.mid as int,
        name: v.owner.name@,
        view: v.view as int,
        coin: v.coin as int,
        like: v.like as int,
        share: v.share as int,
    }
}

/// Parses the JSON text of one video-metadata record, in the exact shape the
/// writer produces.
pub open spec fn parse_video(t: Seq<char>) -> Option<VideoFields> {
    match expect(t, seq!['{', '"', 'b', 'v', 'i', 'd', '"', ':']) {
        None => None,
        Some(t) => {
            match parse_jstr(t) {
                None => None,
                Some((bvid, t)) => {
                    match expect(t, seq![',', '"', 'p', 'i', 'c', '"', ':']) {
                        None => None,
                        Some(t) => {
                            match parse_jstr(t) {
                                None => None,
                                Some((pic, t)) => {
                                    match expect(t, seq![',', '"', 't', 'i', 't', 'l', 'e', '"', ':']) {
                                        None => None,
                                        Some(t) => {
                                            match parse_jstr(t) {
                                                None => None,
                                                Some((title, t)) => {
                                                    match expect(t, seq![',', '"', 'c', 't', 'i', 'm', 'e', '"', ':']) {
                                                        None => None,
                                                        Some(t) => {
                                                            match parse_i64(t) {
                                                                None => None,
                                                                Some((ctime, t)) => {
                                                                    match expect(t, seq![',', '"', 'h', 't', 'i', 'm', 'e', '"', ':']) {
                                                                        None => None,
                                                                        Some(t) => {
                                                                            match parse_jstr(t) {
                                                                                None => None,
                                                                                Some((htime, t)) => {
                                                                                    match expect(t, seq![',', '"', 'o', 'w', 'n', 'e', 'r', '"', ':', '{', '"', 'f', 'a', 'c', 'e', '"', ':']) {
                                                                                        None => None,
                                                                                        Some(t) => {
                                                                                            match parse_jstr(t) {
                                                                                                None => None,
                                                                                                Some((face, t)) => {
                                                                                                    match expect(t, seq![',', '"', 'm', 'i', 'd', '"', ':']) {
                                                                                                        None => None,
                                                                                                        Some(t) => {
                                                                                                            match parse_u64(t) {
                                                                                                                None => None,
                                                                                                                Some((mid, t)) => {
                                                                                                                    match expect(t, seq![',', '"', 'n', 'a', 'm', 'e', '"', ':']) {
                                                                                                                        None => None,
                                                                                                                        Some(t) => {
                                                                                                                            match parse_jstr(t) {
                                                                                                                                None => None,
                                                                                                                                Some((name, t)) => {
                                                                                                                                    match expect(t, seq!['}', ',', '"', 'v', 'i', 'e', 'w', '"', ':']) {
                                                                                                                                        None => None,
                                                                                                                                        Some(t) => {
                                                                                                                                            match parse_u64(t) {
                                                                                                                                                None => None,
                                                                                                                                                Some((view, t)) => {
                                                                                                                                                    match expect(t, seq![',', '"', 'c', 'o', 'i', 'n', '"', ':']) {
                                                                                                                                                        None => None,
                                                                                                                                                        Some(t) => {
                                                                                                                                                            match parse_u64(t) {
                                                                                                                                                                None => None,
                                                                                                                                                                Some((coin, t)) => {
                                                                                                                                                                    match expect(t, seq![',', '"', 'l', 'i', 'k', 'e', '"', ':']) {
                                                                                                                                                                        None => None,
                                                                                                                                                                        Some(t) => {
                                                                                                                                                                            match parse_u64(t) {
                                                                                                                                                                                None => None,
                                                                                                                                                                                Some((like, t)) => {
                                                                                                                                                                                    match expect(t, seq![',', '"', 's', 'h', 'a', 'r', 'e', '"', ':']) {
                                                                                                                                                                                        None => None,
                                                                                                                                                                                        Some(t) => {
                                                                                                                                                                                            match parse_u64(t) {
                                                                                                                                                                                                None => None,
                                                                                                                                                                                                Some((share, t)) => {
                                                                                                                                                                                                    match expect(t, seq!['}']) {
                                                                                                                                                                                                        None => None,
                                                                                                                                                                                                        Some(t) => {
                                                                                                                                                                                                            if t.len() == 0 {
                                                                                                                                                                                                                Some(VideoFields { bvid, pic, title, ctime, htime, face, mid, name, view, coin, like, share })
                                                                                                                                                                                                            } else {
                                                                                                                                                                                                                None
                                                                                                                                                                                                            }
                                                                                                                                                                                                        },
                                                                                                                                                                                                    }
                                                                                                                                                                                                },
                                                                                                                                                                                            }
                                                                                                                                                                                        },
                                                                                                                                                                                    }
                                                                                                                                                                                },
                                                                                                                                                                            }
                                                                                                                                                                        },
                                                                                                                                                                    }
                                                                                                                                                                },
                                                                                                                                                            }
                                                                                                                                                        },
                                                                                                                                                    }
                                                                                                                                                },
                                                                                                                                            }
                                                                                                                                        },
                                                                                                                                    }
                                                                                                                                },
                                                                                                                            }
                                                                                                                        },
                                                                                                                    }
                                                                                                                },
                                                                                                            }
                                                                                                        },
                                                                                                    }
                                                                                                },
                                                                                            }
                                                                                        },
                                                                                    }
                                                                                },
                                                                            }
                                                                        },
                                                                    }
                                                                },
                                                            }
                                                        },
                                                    }
                                                },
                                            }
                                        },
                                    }
                                },
                            }
                        },
                    }
                },
            }
        },
    }
}

/// The written JSON text of a video-metadata record, regrouped from the
/// front: each piece stands before everything that follows it.
#[verifier::rlimit(100)]
proof fn lemma_video_json_right_assoc(v: ExtractVieoInfo)
    ensures
        json_of_video(v) == seq!['{', '"', 'b', 'v', 'i', 'd', '"', ':'] + (jstr(v.bvid@) + (seq![',', '"', 'p', 'i', 'c', '"', ':'] + (jstr(v.pic@) + (seq![',', '"', 't', 'i', 't', 'l', 'e', '"', ':'] + (jstr(v.title@) + (seq![',', '"', 'c', 't', 'i', 'm', 'e', '"', ':'] + (dec_i64(v.ctime as int) + (seq![',', '"', 'h', 't', 'i', 'm', 'e', '"', ':'] + (jstr(v.htime@) + (seq![',', '"', 'o', 'w', 'n', 'e', 'r', '"', ':', '{', '"', 'f', 'a', 'c', 'e', '"', ':'] + (jstr(v.owner.face@) + (seq![',', '"', 'm', 'i', 'd', '"', ':'] + (dec(v.owner.mid as int) + (seq![',', '"', 'n', 'a', 'm', 'e', '"', ':'] + (jstr(v.owner.name@) + (seq!['}', ',', '"', 'v', 'i', 'e', 'w', '"', ':'] + (dec(v.view as int) + (seq![',', '"', 'c', 'o', 'i', 'n', '"', ':'] + (dec(v.coin as int) + (seq![',', '"', 'l', 'i', 'k', 'e', '"', ':'] + (dec(v.like as int) + (seq![',', '"', 's', 'h', 'a', 'r', 'e', '"', ':'] + (dec(v.share as int) + (seq!['}'])))))))))))))))))))))))),
{
    let v1 = seq!['{', '"', 'b', 'v', 'i', 'd', '"', ':'];
    let v2 = seq![',', '"', 'p', 'i', 'c', '"', ':'];
    let v3 = seq![',', '"', 't', 'i', 't', 'l', 'e', '"', ':'];
    let v4 = seq![',', '"', 'c', 't', 'i', 'm', 'e', '"', ':'];
    let v5 = seq![',', '"', 'h', 't', 'i', 'm', 'e', '"', ':'];
    let v6 = seq![',', '"', 'o', 'w', 'n', 'e', 'r', '"', ':', '{', '"', 'f', 'a', 'c', 'e', '"', ':'];
    let v7 = seq![',', '"', 'm', 'i', 'd', '"', ':'];
    let v8 = seq![',', '"', 'n', 'a', 'm', 'e', '"', ':'];
    let v9 = seq!['}', ',', '"', 'v', 'i', 'e', 'w', '"', ':'];
    let v10 = seq![',', '"', 'c', 'o', 'i', 'n', '"', ':'];
    let v11 = seq![',', '"', 'l', 'i', 'k', 'e', '"', ':'];
    let v12 = seq![',', '"', 's', 'h', 'a', 'r', 'e', '"', ':'];
    let vend = seq!['}'];
    let p1 = v1;
    let p2 = p1 + jstr(v.bvid@);
    let p3 = p2 + v2;
    let p4 = p3 + jstr(v.pic@);
    let p5 = p4 + v3;
    let p6 = p5 + jstr(v.title@);
    let p7 = p6 + v4;
    let p8 = p7 + dec_i64(v.ctime as int);
    let p9 = p8 + v5;
    let p10 = p9 + jstr(v.htime@);
    let p11 = p10 + v6;
    let p12 = p11 + jstr(v.owner.face@);
    let p13 = p12 + v7;
    let p14 = p13 + dec(v.owner.mid as int);
    let p15 = p14 + v8;
    let p16 = p15 + jstr(v.owner.name@);
    let p17 = p16 + v9;
    let p18 = p17 + dec(v.view as int);
    let p19 = p18 + v10;
    let p20 = p19 + dec(v.coin as int);
    let p21 = p20 + v11;
    let p22 = p21 + dec(v.like as int);
    let p23 = p22 + v12;
    let p24 = p23 + dec(v.share as int);
    let p25 = p24 + vend;
    let r25 = vend;
    let r24 = dec(v.share as int) + r25;
    let r23 = v12 + r24;
    let r22 = dec(v.like as int) + r23;
    let r21 = v11 + r22;
    let r20 = dec(v.coin as int) + r21;
    let r19 = v10 + r20;
    let r18 = dec(v.view as int) + r19;
    let r17 = v9 + r18;
    let r16 = jstr(v.owner.name@) + r17;
    let r15 = v8 + r16;
    let r14 = dec(v.owner.mid as int) + r15;
    let r13 = v7 + r14;
    let r12 = jstr(v.owner.face@) + r13;
    let r11 = v6 + r12;
    let r10 = jstr(v.htime@) + r11;
    let r9 = v5 + r10;
    let r8 = dec_i64(v.ctime as int) + r9;
    let r7 = v4 + r8;
    let r6 = jstr(v.title@) + r7;
    let r5 = v3 + r6;
    let r4 = jstr(v.pic@) + r5;
    let r3 = v2 + r4;
    let r2 = jstr(v.bvid@) + r3;
    let r1 = v1 + r2;
    assert(json_of_video(v) == p25);
    assert(json_of_video(v) == p24 + r25);
    lemma_assoc(p23, dec(v.share as int), r25);
    assert(json_of_video(v) == p23 + r24);
    lemma_assoc(p22, v12, r24);
    assert(json_of_video(v) == p22 + r23);
    lemma_assoc(p21, dec(v.like as int), r23);
    assert(json_of_video(v) == p21 + r22);
    lemma_assoc(p20, v11, r22);
    assert(json_of_video(v) == p20 + r21);
    lemma_assoc(p19, dec(v.coin as int), r21);
    assert(json_of_video(v) == p19 + r20);
    lemma_assoc(p18, v10, r20);
    assert(json_of_video(v) == p18 + r19);
    lemma_assoc(p17, dec(v.view as int), r19);
    assert(json_of_video(v) == p17 + r18);
    lemma_assoc(p16, v9, r18);
    assert(json_of_video(v) == p16 + r17);
    lemma_assoc(p15, jstr(v.owner.name@), r17);
    assert(json_of_video(v) == p15 + r16);
    lemma_assoc(p14, v8, r16);
    assert(json_of_video(v) == p14 + r15);
    lemma_assoc(p13, dec(v.owner.mid as int), r15);
    assert(json_of_video(v) == p13 + r14);
    lemma_assoc(p12, v7, r14);
    assert(json_of_video(v) == p12 + r13);
    lemma_assoc(p11, jstr(v.owner.face@), r13);
    assert(json_of_video(v) == p11 + r12);
    lemma_assoc(p10, v6, r12);
    assert(json_of_video(v) == p10 + r11);
    lemma_assoc(p9, jstr(v.htime@), r11);
    assert(json_of_video(v) == p9 + r10);
    lemma_assoc(p8, v5, r10);
    assert(json_of_video(v) == p8 + r9);
    lemma_assoc(p7, dec_i64(v.ctime as int), r9);
    assert(json_of_video(v) == p7 + r8);
    lemma_assoc(p6, v4, r8);
    assert(json_of_video(v) == p6 + r7);
    lemma_assoc(p5, jstr(v.title@), r7);
    assert(json_of_video(v) == p5 + r6);
    lemma_assoc(p4, v3, r6);
    assert(json_of_video(v) == p4 + r5);
    lemma_assoc(p3, jstr(v.pic@), r5);
    assert(json_of_video(v) == p3 + r4);
    lemma_assoc(p2, v2, r4);
    assert(json_of_video(v) == p2 + r3);
    lemma_assoc(p1, jstr(v.bvid@), r3);
    assert(json_of_video(v) == p1 + r2);
    assert(json_of_video(v) == r1);
}

/// Law: parsing the written JSON text of any video-metadata record yields
/// the record's fields back, field for field.
#[verifier::rlimit(100)]
pub proof fn lemma_video_json_round_trip(v: ExtractVieoInfo)
    ensures
        parse_video(json_of_video(v)) == Some(video_fields_of(v)),
{
    let v1 = seq!['{', '"', 'b', 'v', 'i', 'd', '"', ':'];
    let v2 = seq![',', '"', 'p', 'i', 'c', '"', ':'];
    let v3 = seq![',', '"', 't', 'i', 't', 'l', 'e', '"', ':'];
    let v4 = seq![',', '"', 'c', 't', 'i', 'm', 'e', '"', ':'];
    let v5 = seq![',', '"', 'h', 't', 'i', 'm', 'e', '"', ':'];
    let v6 = seq![',', '"', 'o', 'w', 'n', 'e', 'r', '"', ':', '{', '"', 'f', 'a', 'c', 'e', '"', ':'];
    let v7 = seq![',', '"', 'm', 'i', 'd', '"', ':'];
    let v8 = seq![',', '"', 'n', 'a', 'm', 'e', '"', ':'];
    let v9 = seq!['}', ',', '"', 'v', 'i', 'e', 'w', '"', ':'];
    let v10 = seq![',', '"', 'c', 'o', 'i', 'n', '"', ':'];
    let v11 = seq![',', '"', 'l', 'i', 'k', 'e', '"', ':'];
    let v12 = seq![',', '"', 's', 'h', 'a', 'r', 'e', '"', ':'];
    let vend = seq!['}'];
    let quote = seq!['"'];
    let t25 = vend;
    let t24 = dec(v.share as int) + t25;
    let t23 = v12 + t24;
    let t22 = dec(v.like as int) + t23;
    let t21 = v11 + t22;
    let t20 = dec(v.coin as int) + t21;
    let t19 = v10 + t20;
    let t18 = dec(v.view as int) + t19;
    let t17 = v9 + t18;
    let t16 = jstr(v.owner.name@) + t17;
    let t15 = v8 + t16;
    let t14 = dec(v.owner.mid as int) + t15;
    let t13 = v7 + t14;
    let t12 = jstr(v.owner.face@) + t13;
    let t11 = v6 + t12;
    let t10 = jstr(v.htime@) + t11;
    let t9 = v5 + t10;
    let t8 = dec_i64(v.ctime as int) + t9;
    let t7 = v4 + t8;
    let t6 = jstr(v.title@) + t7;
    let t5 = v3 + t6;
    let t4 = jstr(v.pic@) + t5;
    let t3 = v2 + t4;
    let t2 = jstr(v.bvid@) + t3;
    let t1 = v1 + t2;
    lemma_video_json_right_assoc(v);
    assert(json_of_video(v) == t1);
    lemma_chop(v1, t2);
    lemma_assoc(quote + esc(v.bvid@), quote, t3);
    lemma_assoc(quote, esc(v.bvid@), quote + t3);
    assert(t2 == quote + (esc(v.bvid@) + (quote + t3)));
    assert(t2[0] == '"');
    assert(t2.drop_first() =~= esc(v.bvid@) + (seq!['"'] + t3));
    lemma_parse_body_esc(v.bvid@, t3);
    lemma_chop(v2, t4);
    lemma_assoc(quote + esc(v.pic@), quote, t5);
    lemma_assoc(quote, esc(v.pic@), quote + t5);
    assert(t4 == quote + (esc(v.pic@) + (quote + t5)));
    assert(t4[0] == '"');
    assert(t4.drop_first() =~= esc(v.pic@) + (seq!['"'] + t5));
    lemma_parse_body_esc(v.pic@, t5);
    lemma_chop(v3, t6);
    lemma_assoc(quote + esc(v.title@), quote, t7);
    lemma_assoc(quote, esc(v.title@), quote + t7);
    assert(t6 == quote + (esc(v.title@) + (quote + t7)));
    assert(t6[0] == '"');
    assert(t6.drop_first() =~= esc(v.title@) + (seq!['"'] + t7));
    lemma_parse_body_esc(v.title@, t7);
    lemma_chop(v4, t8);
    assert(!is_digit(t9[0]));
    if v.ctime >= 0 {
        lemma_dec_first(v.ctime as int);
        assert(t8[0] == dec(v.ctime as int)[0]);
        assert(t8[0] != '-');
        lemma_parse_u64_dec(v.ctime as int, t9);
        assert(parse_i64(t8) == Some((v.ctime as int, t9)));
    } else {
        assert(t8 =~= seq!['-'] + (dec(0 - v.ctime as int) + t9));
        assert(t8[0] == '-');
        assert(skip(t8, 1) =~= dec(0 - v.ctime as int) + t9);
        lemma_parse_u64_dec(0 - v.ctime as int, t9);
        assert(parse_i64(t8) == Some((v.ctime as int, t9)));
    }
    lemma_chop(v5, t10);
    lemma_assoc(quote + esc(v.htime@), quote, t11);
    lemma_assoc(quote, esc(v.htime@), quote + t11);
    assert(t10 == quote + (esc(v.htime@) + (quote + t11)));
    assert(t10[0] == '"');
    assert(t10.drop_first() =~= esc(v.htime@) + (seq!['"'] + t11));
    lemma_parse_body_esc(v.htime@, t11);
    lemma_chop(v6, t12);
    lemma_assoc(quote + esc(v.owner.face@), quote, t13);
    lemma_assoc(quote, esc(v.owner.face@), quote + t13);
    assert(t12 == quote + (esc(v.owner.face@) + (quote + t13)));
    assert(t12[0] == '"');
    assert(t12.drop_first() =~= esc(v.owner.face@) + (seq!['"'] + t13));
    lemma_parse_body_esc(v.owner.face@, t13);
    lemma_chop(v7, t14);
    assert(!is_digit(t15[0]));
    lemma_parse_u64_dec(v.owner.mid as int, t15);
    lemma_chop(v8, t16);
    lemma_assoc(quote + esc(v.owner.name@), quote, t17);
    lemma_assoc(quote, esc(v.owner.name@), quote + t17);
    assert(t16 == quote + (esc(v.owner.name@) + (quote + t17)));
    assert(t16[0] == '"');
    assert(t16.drop_first() =~= esc(v.owner.name@) + (seq!['"'] + t17));
    lemma_parse_body_esc(v.owner.name@, t17);
    lemma_chop(v9, t18);
    assert(!is_digit(t19[0]));
    lemma_parse_u64_dec(v.view as int, t19);
    lemma_chop(v10, t20);
    assert(!is_digit(t21[0]));
    lemma_parse_u64_dec(v.coin as int, t21);
    lemma_chop(v11, t22);
    assert(!is_digit(t23[0]));
    lemma_parse_u64_dec(v.like as int, t23);
    lemma_chop(v12, t24);
    assert(!is_digit(t25[0]));
    lemma_parse_u64_dec(v.share as int, t25);
    assert(t25.subrange(0, 1) =~= vend);
    assert(starts_with(t25, vend));
    assert(skip(t25, 1) =~= Seq::<char>::empty());
    assert(skip(t25, 1).len() == 0);
}

} // verus!
