//! Decoding of one reply line: a field, the success marker, or a server error.

use vstd::prelude::*;
use crate::error::{ParseError, ParseErrorView, ServerError, ServerErrorView};
use crate::text::{chars_of, find_char, find_from, parse_u32, u32_of};

verus! {

/// One decoded reply line.
#[derive(Debug, Clone, PartialEq, Eq)]
pub enum Reply {
    /// A field: its name and its value, verbatim.
    Pair(String, String),
    /// The success marker that ends a response.
    Success,
    /// The error marker that ends a response.
    Ack(ServerError),
}

/// The mathematical value of a [`Reply`].
pub enum ReplyView {
    Pair(Seq<char>, Seq<char>),
    Success,
    Ack(ServerErrorView),
}

impl View for Reply {
    type V = ReplyView;

    open spec fn view(&self) -> ReplyView {
        match self {
            Reply::Pair(k, v) => ReplyView::Pair(k@, v@),
            Reply::Success => ReplyView::Success,
            Reply::Ack(e) => ReplyView::Ack(e@),
        }
    }
}

/// Whether `s` holds the separator `": "` at index `i`.
pub open spec fn is_sep_at(s: Seq<char>, i: int) -> bool {
    0 <= i && i + 1 < s.len() && s[i] == ':' && s[i + 1] == ' '
}

/// The first index at or after `from` where the separator `": "` starts.
pub open spec fn sep_from(s: Seq<char>, from: int) -> Option<int>
    decreases s.len() - from,
{
    if from < 0 || from + 1 >= s.len() {
        None
    } else if is_sep_at(s, from) {
        Some(from)
    } else {
        sep_from(s, from + 1)
    }
}

/// Whether `s` begins with `p`.
pub open spec fn starts_with(s: Seq<char>, p: Seq<char>) -> bool {
    p.len() <= s.len() && s.take(p.len() as int) == p
}

/// The success marker.
pub open spec fn ok_line() -> Seq<char> {
    seq!['O', 'K']
}

/// What every error marker begins with.
pub open spec fn ack_word() -> Seq<char> {
    seq!['A', 'C', 'K']
}

/// What a well-formed error marker begins with.
pub open spec fn ack_head() -> Seq<char> {
    seq!['A', 'C', 'K', ' ', '[']
}

/// `s` without one leading space.
pub open spec fn drop_space(s: Seq<char>) -> Seq<char> {
    if s.len() > 0 && s[0] == ' ' {
        s.drop_first()
    } else {
        s
    }
}

/// The command name and message that follow the `]` of an error marker:
/// an optional ` {name}`, then the message after one optional space.
pub open spec fn ack_tail(t: Seq<char>) -> Option<(Seq<char>, Seq<char>)> {
    if t.len() >= 2 && t[0] == ' ' && t[1] == '{' {
        match find_from(t, '}', 2) {
            Some(c) => Some((t.subrange(2, c), drop_space(t.skip(c + 1)))),
            None => None,
        }
    } else {
        Some((Seq::empty(), drop_space(t)))
    }
}

/// The error that a line beginning with `ACK` stands for:
/// `ACK [<code>@<index>] {<command>} <message>`.
pub open spec fn ack_of(line: Seq<char>) -> Result<ServerErrorView, ParseErrorView> {
    if !starts_with(line, ack_head()) {
        Err(ParseErrorView::NoCodePos)
    } else {
        let r = line.skip(5);
        match (find_from(r, '@', 0), find_from(r, ']', 0)) {
            (Some(a), Some(b)) => if a < b {
                match (u32_of(r.take(a)), u32_of(r.subrange(a + 1, b))) {
                    (Some(code), Some(pos)) => match ack_tail(r.skip(b + 1)) {
                        Some((command, detail)) => Ok(
                            ServerErrorView { code, pos, command, detail },
                        ),
                        None => Err(ParseErrorView::NoCommand),
                    },
                    (None, _) => Err(ParseErrorView::BadCode),
                    (_, None) => Err(ParseErrorView::BadPos),
                }
            } else {
                Err(ParseErrorView::NoCodePos)
            },
            _ => Err(ParseErrorView::NoCodePos),
        }
    }
}

/// What one reply line decodes to.
pub open spec fn reply_of(line: Seq<char>) -> Result<ReplyView, ParseErrorView> {
    if line == ok_line() {
        Ok(ReplyView::Success)
    } else if starts_with(line, ack_word()) {
        match ack_of(line) {
            Ok(e) => Ok(ReplyView::Ack(e)),
            Err(e) => Err(e),
        }
    } else {
        match sep_from(line, 0) {
            Some(i) => Ok(ReplyView::Pair(line.take(i), line.skip(i + 2))),
            None => Err(ParseErrorView::BadPair),
        }
    }
}

/// The mathematical value of a decoding result.
pub open spec fn reply_result_view(r: Result<Reply, ParseError>) -> Result<ReplyView, ParseErrorView> {
    match r {
        Ok(x) => Ok(x@),
        Err(e) => Err(e@),
    }
}

fn find_sep(s: &Vec<char>) -> (r: Option<usize>)
    ensures
        match r {
            Some(i) => sep_from(s@, 0) == Some(i as int) && i + 1 < s.len(),
            None => sep_from(s@, 0) is None,
        },
{
    if s.len() == 0 {
        return None;
    }
    let mut i: usize = 0;
    while i < s.len() - 1
        invariant
            s.len() > 0,
            sep_from(s@, 0) == sep_from(s@, i as int),
        decreases s.len() - i,
    {
        if s[i] == ':' && s[i + 1] == ' ' {
            return Some(i);
        }
        i = i + 1;
    }
    None
}

fn has_prefix(s: &Vec<char>, p: &Vec<char>) -> (r: bool)
    ensures
        r == starts_with(s@, p@),
{
    if p.len() > s.len() {
        return false;
    }
    let mut i: usize = 0;
    while i < p.len()
        invariant
            p.len() <= s.len(),
            i <= p.len(),
            forall|k: int| 0 <= k < i ==> s@[k] == p@[k],
        decreases p.len() - i,
    {
        if s[i] != p[i] {
            assert(s@.take(p.len() as int)[i as int] != p@[i as int]);
            return false;
        }
        i = i + 1;
    }
    assert(s@.take(p.len() as int) == p@);
    true
}

/// `line[from..to]` as a new string.
fn piece(line: &str, from: usize, to: usize) -> (r: String)
    requires
        from <= to <= line@.len(),
    ensures
        r@ == line@.subrange(from as int, to as int),
{
    line.substring_char(from, to).to_owned()
}

fn piece_drop_space(line: &str, cs: &Vec<char>, from: usize) -> (r: String)
    requires
        cs@ == line@,
        from <= cs.len(),
    ensures
        r@ == drop_space(line@.skip(from as int)),
{
    let n = cs.len();
    if from < n && cs[from] == ' ' {
        assert(line@.skip(from as int).drop_first() == line@.subrange(from + 1, n as int));
        piece(line, from + 1, n)
    } else {
        assert(line@.skip(from as int) == line@.subrange(from as int, n as int));
        piece(line, from, n)
    }
}

fn decode_ack(line: &str, cs: &Vec<char>) -> (r: Result<ServerError, ParseError>)
    requires
        cs@ == line@,
    ensures
        match r {
            Ok(e) => ack_of(line@) == Ok::<ServerErrorView, ParseErrorView>(e@),
            Err(e) => ack_of(line@) == Err::<ServerErrorView, ParseErrorView>(e@),
        },
{
    let head = chars_of("ACK [");
    proof {
        reveal_strlit("ACK [");
    }
    assert(head@ == ack_head());
    if !has_prefix(cs, &head) {
        return Err(ParseError::NoCodePos);
    }
    let n = cs.len();
    let rest_s = piece(line, 5, n);
    let rest = chars_of(rest_s.as_str());
    assert(rest@ == line@.skip(5));
    let (a, b) = match (find_char(&rest, 0, '@'), find_char(&rest, 0, ']')) {
        (Some(a), Some(b)) => {
            if a < b {
                (a, b)
            } else {
                return Err(ParseError::NoCodePos);
            }
        },
        _ => {
            return Err(ParseError::NoCodePos);
        },
    };
    assert(rest@.subrange(0, a as int) == rest@.take(a as int));
    let code = match parse_u32(&rest, 0, a) {
        Some(v) => v,
        None => {
            return Err(ParseError::BadCode);
        },
    };
    let pos = match parse_u32(&rest, a + 1, b) {
        Some(v) => v,
        None => {
            return Err(ParseError::BadPos);
        },
    };
    let tail_s = piece(rest_s.as_str(), b + 1, rest.len());
    let tail = chars_of(tail_s.as_str());
    assert(tail@ == rest@.skip(b + 1));
    if tail.len() >= 2 && tail[0] == ' ' && tail[1] == '{' {
        match find_char(&tail, 2, '}') {
            Some(c) => {
                let command = piece(tail_s.as_str(), 2, c);
                let detail = piece_drop_space(tail_s.as_str(), &tail, c + 1);
                Ok(ServerError { code, pos, command, detail })
            },
            None => Err(ParseError::NoCommand),
        }
    } else {
        let detail = piece_drop_space(tail_s.as_str(), &tail, 0);
        assert(tail@.skip(0) == tail@);
        Ok(ServerError { code, pos, command: String::new(), detail })
    }
}

/// Decodes one reply line, given without its line break.
///
/// `OK` is the success marker; a line that begins with `ACK` is an error
/// marker, and a malformed one is a decoding error; any other line is a
/// field, split at its first `": "`, with name and value kept verbatim.
pub fn decode_line(line: &str) -> (r: Result<Reply, ParseError>)
    ensures
        reply_result_view(r) == reply_of(line@),
{
    let cs = chars_of(line);
    let ok = chars_of("OK");
    let ack = chars_of("ACK");
    proof {
        reveal_strlit("OK");
        reveal_strlit("ACK");
    }
    assert(ok@ == ok_line());
    assert(ack@ == ack_word());
    if cs.len() == 2 && has_prefix(&cs, &ok) {
        assert(line@ == ok_line()) by {
            assert(line@.take(2) == line@);
        }
        return Ok(Reply::Success);
    }
    assert(line@ != ok_line()) by {
        if line@ == ok_line() {
            assert(line@.take(2) == line@);
        }
    }
    if has_prefix(&cs, &ack) {
        return match decode_ack(line, &cs) {
            Ok(e) => Ok(Reply::Ack(e)),
            Err(e) => Err(e),
        };
    }
    match find_sep(&cs) {
        Some(i) => {
            let key = piece(line, 0, i);
            let value = piece(line, i + 2, cs.len());
            assert(line@.subrange(0, i as int) == line@.take(i as int));
            assert(line@.subrange(i + 2, line@.len() as int) == line@.skip(i + 2));
            Ok(Reply::Pair(key, value))
        },
        None => Err(ParseError::BadPair),
    }
}


/// Whether `s` holds the separator `": "` anywhere.
pub open spec fn has_sep(s: Seq<char>) -> bool {
    exists|i: int| is_sep_at(s, i)
}

proof fn lemma_sep_from_none(s: Seq<char>, from: int)
    requires
        0 <= from,
        forall|i: int| from <= i ==> !is_sep_at(s, i),
    ensures
        sep_from(s, from) is None,
    decreases s.len() - from,
{
    if from + 1 < s.len() {
        lemma_sep_from_none(s, from + 1);
    }
}

proof fn lemma_sep_from_first(s: Seq<char>, from: int, j: int)
    requires
        0 <= from <= j,
        is_sep_at(s, j),
        forall|i: int| from <= i < j ==> !is_sep_at(s, i),
    ensures
        sep_from(s, from) == Some(j),
    decreases j - from,
{
    if from < j {
        lemma_sep_from_first(s, from + 1, j);
    }
}

/// A field line `k: v` decodes to the pair `(k, v)`, both reproduced
/// exactly, for every name `k` that holds no `": "` and does not begin with
/// `ACK`, and every value `v`.
pub proof fn lemma_field_line_decodes(k: Seq<char>, v: Seq<char>)
    requires
        !has_sep(k),
        !starts_with(k, ack_word()),
    ensures
        reply_of(k + seq![':', ' '] + v) == Ok::<ReplyView, ParseErrorView>(ReplyView::Pair(k, v)),
{
    let line = k + seq![':', ' '] + v;
    let n = k.len() as int;
    assert(line[n] == ':');
    assert(line[n + 1] == ' ');
    assert forall|i: int| 0 <= i < n implies !is_sep_at(line, i) by {
        if i + 1 < n {
            assert(line[i] == k[i] && line[i + 1] == k[i + 1]);
            assert(!is_sep_at(k, i));
        } else {
            assert(line[i + 1] == ':');
        }
    }
    lemma_sep_from_first(line, 0, n);
    assert(line != ok_line()) by {
        if line == ok_line() {
            assert(line[n] == ':');
        }
    }
    assert(!starts_with(line, ack_word())) by {
        if starts_with(line, ack_word()) {
            if n >= 3 {
                assert(k.take(3) == line.take(3));
            } else {
                assert(line.take(3)[n] == line[n]);
            }
        }
    }
    assert(line.take(n) == k);
    assert(line.skip(n + 2) == v);
}

/// A line without `": "` fails to decode with the malformed-pair error,
/// unless it is the success marker or begins with `ACK`.
pub proof fn lemma_line_without_sep_is_bad_pair(line: Seq<char>)
    requires
        !has_sep(line),
        line != ok_line(),
        !starts_with(line, ack_word()),
    ensures
        reply_of(line) == Err::<ReplyView, ParseErrorView>(ParseErrorView::BadPair),
{
    lemma_sep_from_none(line, 0);
}

} // verus!
