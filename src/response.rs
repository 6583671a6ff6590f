//! Reading whole responses and single reply lines: fields, lists of
//! values, and the markers that end a response.

use vstd::prelude::*;
use crate::error::{Error, ErrorView, ProtoError, ProtoErrorView};
use crate::pairs::{FlowView, PairView, Pairs};
use crate::reply::{ack_word, decode_line, ok_line, reply_of, starts_with, Reply, ReplyView};
use crate::text::{chars_of, same_text};

verus! {

/// Whether `line` ends a response: the success marker or an error marker.
pub open spec fn is_terminal(line: Seq<char>) -> bool {
    line == ok_line() || starts_with(line, ack_word())
}

/// Whether `line` ends a response; the lines of a response are read up to
/// and including the first such line.
pub fn ends_response(line: &str) -> (r: bool)
    ensures
        r == is_terminal(line@),
{
    proof {
        reveal_strlit("OK");
    }
    assert("OK"@ == ok_line());
    if same_text(line, "OK") {
        return true;
    }
    let cs = chars_of(line);
    if cs.len() >= 3 && cs[0] == 'A' && cs[1] == 'C' && cs[2] == 'K' {
        assert(line@.take(3) =~= ack_word());
        return true;
    }
    assert(!starts_with(line@, ack_word())) by {
        if starts_with(line@, ack_word()) {
            assert(line@.take(3)[0] == line@[0]);
            assert(line@.take(3)[1] == line@[1]);
            assert(line@.take(3)[2] == line@[2]);
        }
    }
    false
}

/// What a line that must be the success marker stands for: nothing, or
/// the error that stands in its place.
pub open spec fn expect_ok_of(line: Seq<char>) -> Result<(), ErrorView> {
    match reply_of(line) {
        Ok(ReplyView::Success) => Ok(()),
        Ok(ReplyView::Ack(e)) => Err(ErrorView::Server(e)),
        Ok(ReplyView::Pair(_, _)) => Err(ErrorView::Proto(ProtoErrorView::NotOk)),
        Err(e) => Err(ErrorView::Parse(e)),
    }
}

/// Checks that `line` is the success marker.
pub fn expect_ok(line: &str) -> (r: Result<(), Error>)
    ensures
        match r {
            Ok(_) => expect_ok_of(line@) == Ok::<(), ErrorView>(()),
            Err(e) => expect_ok_of(line@) == Err::<(), ErrorView>(e@),
        },
{
    match decode_line(line) {
        Ok(Reply::Success) => Ok(()),
        Ok(Reply::Ack(e)) => Err(Error::Server(e)),
        Ok(Reply::Pair(_, _)) => Err(Error::Proto(ProtoError::NotOk)),
        Err(e) => Err(Error::Parse(e)),
    }
}

/// What a line that must be a field stands for: its pair, or the error
/// that stands in its place.
pub open spec fn pair_of(line: Seq<char>) -> Result<PairView, ErrorView> {
    match reply_of(line) {
        Ok(ReplyView::Pair(k, v)) => Ok((k, v)),
        Ok(ReplyView::Success) => Err(ErrorView::Proto(ProtoErrorView::NotPair)),
        Ok(ReplyView::Ack(e)) => Err(ErrorView::Server(e)),
        Err(e) => Err(ErrorView::Parse(e)),
    }
}

/// Reads the field on `line`.
pub fn read_pair(line: &str) -> (r: Result<(String, String), Error>)
    ensures
        match r {
            Ok(p) => pair_of(line@) == Ok::<PairView, ErrorView>((p.0@, p.1@)),
            Err(e) => pair_of(line@) == Err::<PairView, ErrorView>(e@),
        },
{
    match decode_line(line) {
        Ok(Reply::Pair(k, v)) => Ok((k, v)),
        Ok(Reply::Success) => Err(Error::Proto(ProtoError::NotPair)),
        Ok(Reply::Ack(e)) => Err(Error::Server(e)),
        Err(e) => Err(Error::Parse(e)),
    }
}

/// The value of a one-field response: `pair_line` must be the field named
/// `field` and `end_line` the success marker.
pub open spec fn field_of(pair_line: Seq<char>, end_line: Seq<char>, field: Seq<char>) -> Result<
    Seq<char>,
    ErrorView,
> {
    match pair_of(pair_line) {
        Err(e) => Err(e),
        Ok(p) => match expect_ok_of(end_line) {
            Err(e) => Err(e),
            Ok(_) => if p.0 == field {
                Ok(p.1)
            } else {
                Err(ErrorView::Proto(ProtoErrorView::NoField(field)))
            },
        },
    }
}

/// Reads the value of a one-field response made of `pair_line` and
/// `end_line`, whose field must be named `field`.
pub fn read_field(pair_line: &str, end_line: &str, field: &str) -> (r: Result<String, Error>)
    ensures
        match r {
            Ok(v) => field_of(pair_line@, end_line@, field@) == Ok::<Seq<char>, ErrorView>(v@),
            Err(e) => field_of(pair_line@, end_line@, field@) == Err::<Seq<char>, ErrorView>(e@),
        },
{
    let (a, b) = match read_pair(pair_line) {
        Ok(p) => p,
        Err(e) => {
            return Err(e);
        },
    };
    match expect_ok(end_line) {
        Ok(_) => {},
        Err(e) => {
            return Err(e);
        },
    }
    if same_text(a.as_str(), field) {
        Ok(b)
    } else {
        Err(Error::Proto(ProtoError::NoField(field.to_owned())))
    }
}

/// The values of the pairs of `ps` whose key is `key`, in order.
pub open spec fn values_of_key(ps: Seq<PairView>, key: Seq<char>) -> Seq<Seq<char>>
    decreases ps.len(),
{
    if ps.len() == 0 {
        Seq::empty()
    } else if ps[0].0 == key {
        seq![ps[0].1] + values_of_key(ps.drop_first(), key)
    } else {
        values_of_key(ps.drop_first(), key)
    }
}

/// The list that the stream `f` holds under `key`: the values of its pairs
/// with that key, or the failure of the stream.
pub open spec fn list_of(f: FlowView, key: Seq<char>) -> Result<Seq<Seq<char>>, ErrorView> {
    match f.failure {
        Some(e) => Err(e),
        None => Ok(values_of_key(f.pairs, key)),
    }
}

/// Reads the values of the pairs of `pairs` whose key is `key`; pairs with
/// other keys are skipped, and a failure of the stream is returned instead.
pub fn read_list(pairs: Pairs, key: &str) -> (r: Result<Vec<String>, Error>)
    ensures
        match r {
            Ok(v) => list_of(pairs@, key@) == Ok::<Seq<Seq<char>>, ErrorView>(v.deep_view()),
            Err(e) => list_of(pairs@, key@) == Err::<Seq<Seq<char>>, ErrorView>(e@),
        },
{
    let ghost all = pairs@;
    let mut stream = pairs;
    let mut values: Vec<String> = Vec::new();
    assert(values.deep_view() + values_of_key(all.pairs, key@) == values_of_key(all.pairs, key@));
    loop
        invariant
            all == pairs@,
            values_of_key(all.pairs, key@) == values.deep_view() + values_of_key(
                stream@.pairs,
                key@,
            ),
            stream@.failure == all.failure,
        ensures
            all == pairs@,
            values_of_key(all.pairs, key@) == values.deep_view(),
            all.failure is None,
        decreases stream@.pairs.len(),
    {
        match stream.next() {
            Some(Ok((k, v))) => {
                let ghost before = values.deep_view();
                if same_text(k.as_str(), key) {
                    values.push(v);
                    assert(values.deep_view() == before + seq![v@]);
                }
            },
            Some(Err(e)) => {
                return Err(e);
            },
            None => {
                assert(values.deep_view() + Seq::<Seq<char>>::empty() == values.deep_view());
                break;
            },
        }
    }
    Ok(values)
}

/// The values of a command list's responses, each a field named `field`:
/// the first field with another name, or the failure of the stream, is the
/// result instead.
pub open spec fn fields_of(ps: Seq<PairView>, fail: Option<ErrorView>, field: Seq<char>) -> Result<
    Seq<Seq<char>>,
    ErrorView,
>
    decreases ps.len(),
{
    if ps.len() == 0 {
        match fail {
            Some(e) => Err(e),
            None => Ok(Seq::empty()),
        }
    } else if ps[0].0 != field {
        Err(ErrorView::Proto(ProtoErrorView::NoField(field)))
    } else {
        match fields_of(ps.drop_first(), fail, field) {
            Ok(vs) => Ok(seq![ps[0].1] + vs),
            Err(e) => Err(e),
        }
    }
}

/// Reads the values of a command list whose every response is one field
/// named `field`, up to the single success marker that ends the list.
pub fn read_fields(pairs: Pairs, field: &str) -> (r: Result<Vec<String>, Error>)
    ensures
        match r {
            Ok(v) => fields_of(pairs@.pairs, pairs@.failure, field@) == Ok::<
                Seq<Seq<char>>,
                ErrorView,
            >(v.deep_view()),
            Err(e) => fields_of(pairs@.pairs, pairs@.failure, field@) == Err::<
                Seq<Seq<char>>,
                ErrorView,
            >(e@),
        },
{
    let ghost all = pairs@;
    let mut stream = pairs;
    let mut values: Vec<String> = Vec::new();
    assert(forall|vs: Seq<Seq<char>>| values.deep_view() + vs == vs);
    loop
        invariant
            all == pairs@,
            fields_of(all.pairs, all.failure, field@) == (match fields_of(
                stream@.pairs,
                stream@.failure,
                field@,
            ) {
                Ok(vs) => Ok(values.deep_view() + vs),
                Err(e) => Err(e),
            }),
        decreases stream@.pairs.len(),
    {
        match stream.next() {
            Some(Ok((k, v))) => {
                if !same_text(k.as_str(), field) {
                    return Err(Error::Proto(ProtoError::NoField(field.to_owned())));
                }
                let ghost before = values.deep_view();
                values.push(v);
                assert forall|vs: Seq<Seq<char>>| before + (seq![v@] + vs) == values.deep_view() + vs by {
                    assert(before + (seq![v@] + vs) =~= values.deep_view() + vs);
                }
            },
            Some(Err(e)) => {
                return Err(e);
            },
            None => {
                assert(values.deep_view() + Seq::<Seq<char>>::empty() == values.deep_view());
                return Ok(values);
            },
        }
    }
}

} // verus!
