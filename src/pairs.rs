//! The pair stream: the lines of one response, decoded one at a time into
//! key/value pairs, ending at the success marker or at the first failure.

use vstd::prelude::*;
use crate::error::{Error, ErrorView};
use crate::reply::{decode_line, reply_of, Reply, ReplyView};

verus! {

/// A key/value pair as mathematical text.
pub type PairView = (Seq<char>, Seq<char>);

/// What a sequence of response lines yields as a pair stream: the pairs
/// before the first terminal line, and the failure that ended it, if any.
pub struct FlowView {
    pub pairs: Seq<PairView>,
    pub failure: Option<ErrorView>,
}

/// The pair stream of `lines`: each field line gives its pair; the success
/// marker, or the end of the lines, ends the stream cleanly; an error marker
/// ends it with the server's error; an undecodable line ends it with the
/// decoding error.
pub open spec fn flow(lines: Seq<Seq<char>>) -> FlowView
    decreases lines.len(),
{
    if lines.len() == 0 {
        FlowView { pairs: Seq::empty(), failure: None }
    } else {
        match reply_of(lines[0]) {
            Ok(ReplyView::Pair(k, v)) => {
                let rest = flow(lines.drop_first());
                FlowView { pairs: seq![(k, v)] + rest.pairs, failure: rest.failure }
            },
            Ok(ReplyView::Success) => FlowView { pairs: Seq::empty(), failure: None },
            Ok(ReplyView::Ack(e)) => FlowView {
                pairs: Seq::empty(),
                failure: Some(ErrorView::Server(e)),
            },
            Err(e) => FlowView { pairs: Seq::empty(), failure: Some(ErrorView::Parse(e)) },
        }
    }
}

/// The item that a stream in state `f` yields next.
pub open spec fn flow_head(f: FlowView) -> Option<Result<PairView, ErrorView>> {
    if f.pairs.len() > 0 {
        Some(Ok(f.pairs[0]))
    } else {
        match f.failure {
            Some(e) => Some(Err(e)),
            None => None,
        }
    }
}

/// What remains of a stream in state `f` once it has yielded its next item.
pub open spec fn flow_tail(f: FlowView) -> FlowView {
    if f.pairs.len() > 0 {
        FlowView { pairs: f.pairs.drop_first(), failure: f.failure }
    } else {
        FlowView { pairs: Seq::empty(), failure: None }
    }
}

/// The mathematical value of an owned pair.
pub open spec fn pair_view(p: (String, String)) -> PairView {
    (p.0@, p.1@)
}

/// The mathematical value of a sequence of owned pairs.
pub open spec fn pairs_view(v: Seq<(String, String)>) -> Seq<PairView> {
    v.map_values(|p: (String, String)| pair_view(p))
}

/// The value of the last pair of `ps` whose key is `key`, if any.
pub open spec fn last_value(ps: Seq<PairView>, key: Seq<char>) -> Option<Seq<char>>
    decreases ps.len(),
{
    if ps.len() == 0 {
        None
    } else if ps.last().0 == key {
        Some(ps.last().1)
    } else {
        last_value(ps.drop_last(), key)
    }
}

/// The value of the last pair of `pairs` whose key is `key`, if any.
pub fn find_last(pairs: &Vec<(String, String)>, key: &str) -> (r: Option<String>)
    ensures
        match r {
            Some(v) => last_value(pairs_view(pairs@), key@) == Some(v@),
            None => last_value(pairs_view(pairs@), key@) is None,
        },
{
    let mut found: Option<String> = None;
    let mut i: usize = 0;
    let ghost ps = pairs_view(pairs@);
    while i < pairs.len()
        invariant
            i <= pairs.len(),
            ps == pairs_view(pairs@),
            match found {
                Some(v) => last_value(ps.take(i as int), key@) == Some(v@),
                None => last_value(ps.take(i as int), key@) is None,
            },
        decreases pairs.len() - i,
    {
        assert(ps.take(i + 1).drop_last() == ps.take(i as int));
        assert(ps.take(i + 1).last() == pair_view(pairs[i as int]));
        if crate::text::same_text(pairs[i].0.as_str(), key) {
            found = Some(pairs[i].1.clone());
        }
        i = i + 1;
    }
    assert(ps.take(i as int) == ps);
    found
}

/// The mathematical value of an item of a pair stream.
pub open spec fn pair_item_view(r: Option<Result<(String, String), Error>>) -> Option<
    Result<PairView, ErrorView>,
> {
    match r {
        Some(Ok(p)) => Some(Ok(pair_view(p))),
        Some(Err(e)) => Some(Err(e@)),
        None => None,
    }
}

/// A stream of key/value pairs over the lines of one response.
pub struct Pairs {
    lines: Vec<String>,
    pos: usize,
    done: bool,
}

impl Pairs {
    #[verifier::type_invariant]
    spec fn inv(&self) -> bool {
        self.pos <= self.lines.len()
    }

    /// The lines not yet read; empty once the stream has ended.
    pub closed spec fn pending(&self) -> Seq<Seq<char>> {
        if self.done {
            Seq::empty()
        } else {
            self.lines.deep_view().skip(self.pos as int)
        }
    }

    /// What the stream still yields.
    pub open spec fn view(&self) -> FlowView {
        flow(self.pending())
    }

    /// A stream over `lines`, the lines of one response in order.
    pub fn new(lines: Vec<String>) -> (r: Pairs)
        ensures
            r.pending() == lines.deep_view(),
    {
        let r = Pairs { lines, pos: 0, done: false };
        assert(r.lines.deep_view().skip(0) == r.lines.deep_view());
        r
    }

    /// Reads and decodes the next line.
    ///
    /// A field gives `Some(Ok(pair))`; the success marker or the end of the
    /// lines gives `None`; an error marker gives `Some(Err(Error::Server))`,
    /// an undecodable line `Some(Err(Error::Parse))`. After the first `None`
    /// or error every further call gives `None`.
    pub fn next(&mut self) -> (r: Option<Result<(String, String), Error>>)
        ensures
            pair_item_view(r) == flow_head(old(self)@),
            final(self)@ == flow_tail(old(self)@),
    {
        proof {
            use_type_invariant(&*self);
        }
        if self.done || self.pos >= self.lines.len() {
            self.done = true;
            return None;
        }
        let ghost lines = self.lines.deep_view().skip(self.pos as int);
        assert(lines[0] == self.lines[self.pos as int]@);
        assert(lines.drop_first() == self.lines.deep_view().skip(self.pos + 1));
        let decoded = decode_line(self.lines[self.pos].as_str());
        match decoded {
            Ok(Reply::Pair(k, v)) => {
                let ghost rest = flow(lines.drop_first());
                assert((seq![(k@, v@)] + rest.pairs).drop_first() == rest.pairs);
                self.pos = self.pos + 1;
                Some(Ok((k, v)))
            },
            Ok(Reply::Success) => {
                self.done = true;
                None
            },
            Ok(Reply::Ack(e)) => {
                self.done = true;
                Some(Err(Error::Server(e)))
            },
            Err(e) => {
                self.done = true;
                Some(Err(Error::Parse(e)))
            },
        }
    }
}

} // verus!
