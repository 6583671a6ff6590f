//! Values of a tag listing, grouped by the value of another tag.

use vstd::prelude::*;
use crate::error::{Error, ErrorView};
use crate::pairs::{pair_view, pairs_view, PairView, Pairs};
use crate::text::same_text;

verus! {

/// A group of a tag listing: the grouping value and the values under it.
pub type ValueGroupView = (Seq<char>, Seq<Seq<char>>);

/// The groups of the listing `ps` once the open group `cur` (if any) is
/// taken into account: a pair whose key is `sep` opens a new group with its
/// value; any other pair adds its value to the open group, and is dropped
/// while no group is open.
pub open spec fn value_groups(
    ps: Seq<PairView>,
    sep: Seq<char>,
    cur: Option<ValueGroupView>,
) -> Seq<ValueGroupView>
    decreases ps.len(),
{
    if ps.len() == 0 {
        match cur {
            Some(g) => seq![g],
            None => Seq::empty(),
        }
    } else if ps[0].0 == sep {
        (match cur {
            Some(g) => seq![g],
            None => Seq::empty(),
        }) + value_groups(ps.drop_first(), sep, Some((ps[0].1, Seq::empty())))
    } else {
        match cur {
            Some(g) => value_groups(ps.drop_first(), sep, Some((g.0, g.1.push(ps[0].1)))),
            None => value_groups(ps.drop_first(), sep, None),
        }
    }
}

/// The name for what `str::to_lowercase` makes of a text.
pub uninterp spec fn lower_of(s: Seq<char>) -> Seq<char>;

/// Relies on `str::to_lowercase`: the lowercase form of the text, which
/// depends on the text alone.
#[verifier::external_body]
fn lowercase(s: &str) -> (r: String)
    ensures
        r@ == lower_of(s@),
{
    s.to_lowercase()
}

/// `ps` with every key in lowercase.
pub open spec fn lower_keys(ps: Seq<PairView>) -> Seq<PairView> {
    ps.map_values(|p: PairView| (lower_of(p.0), p.1))
}

/// Values as returned by the `list` command, grouped.
pub struct GroupedValues {
    /// Each group's key (the grouping value) and its values, in order.
    pub groups: Vec<(String, Vec<String>)>,
}

/// The mathematical value of the groups of a listing.
pub open spec fn value_groups_view(g: Seq<(String, Vec<String>)>) -> Seq<ValueGroupView> {
    g.map_values(|x: (String, Vec<String>)| (x.0@, x.1.deep_view()))
}

impl GroupedValues {
    /// Groups the pairs `pairs`, whose keys are compared exactly with `sep`.
    pub fn from_lowered(pairs: &Vec<(String, String)>, sep: &str) -> (r: GroupedValues)
        ensures
            value_groups_view(r.groups@) == value_groups(pairs_view(pairs@), sep@, None),
    {
        let ghost all = pairs_view(pairs@);
        let mut groups: Vec<(String, Vec<String>)> = Vec::new();
        let mut cur: Option<(String, Vec<String>)> = None;
        let mut i: usize = 0;
        assert(all.skip(0) == all);
        assert(value_groups_view(groups@) == Seq::<ValueGroupView>::empty());
        assert(Seq::<ValueGroupView>::empty() + value_groups(all, sep@, None) == value_groups(all, sep@, None));
        while i < pairs.len()
            invariant
                i <= pairs.len(),
                all == pairs_view(pairs@),
                value_groups_view(groups@) + value_groups(
                    all.skip(i as int),
                    sep@,
                    match cur {
                        Some(g) => Some((g.0@, g.1.deep_view())),
                        None => None,
                    },
                ) == value_groups(all, sep@, None),
            decreases pairs.len() - i,
        {
            let ghost rest = all.skip(i as int);
            assert(rest[0] == pair_view(pairs[i as int]));
            assert(rest.drop_first() == all.skip(i + 1));
            let ghost before = value_groups_view(groups@);
            if same_text(pairs[i].0.as_str(), sep) {
                match cur.take() {
                    Some(g) => {
                        let ghost gv = (g.0@, g.1.deep_view());
                        groups.push(g);
                        assert(value_groups_view(groups@) == before + seq![gv]);
                    },
                    None => {
                        assert(before + Seq::<ValueGroupView>::empty() == before);
                    },
                }
                let fresh: Vec<String> = Vec::new();
                assert(fresh.deep_view() == Seq::<Seq<char>>::empty());
                cur = Some((pairs[i].1.clone(), fresh));
            } else {
                match cur.take() {
                    Some(g) => {
                        let (k, mut vs) = g;
                        let ghost old_vs = vs.deep_view();
                        vs.push(pairs[i].1.clone());
                        assert(vs.deep_view() == old_vs.push(pairs[i as int].1@));
                        cur = Some((k, vs));
                    },
                    None => {},
                }
            }
            i = i + 1;
        }
        assert(all.skip(i as int) == Seq::<PairView>::empty());
        match cur {
            Some(g) => {
                let ghost gv = (g.0@, g.1.deep_view());
                let ghost before = value_groups_view(groups@);
                groups.push(g);
                assert(value_groups_view(groups@) == before + seq![gv]);
            },
            None => {
                assert(value_groups_view(groups@) + Seq::<ValueGroupView>::empty()
                    == value_groups_view(groups@));
            },
        }
        GroupedValues { groups }
    }

    /// Reads a grouped listing from `pairs`: keys are lowercased before
    /// they are compared with `sep`, which is given in lowercase. A failure
    /// of the stream is returned in place of the groups.
    pub fn from_pairs_with_sep(pairs: Pairs, sep: &str) -> (r: Result<GroupedValues, Error>)
        ensures
            match r {
                Ok(g) => pairs@.failure is None && value_groups_view(g.groups@) == value_groups(
                    lower_keys(pairs@.pairs),
                    sep@,
                    None,
                ),
                Err(e) => pairs@.failure == Some(e@),
            },
    {
        let ghost all = pairs@;
        let mut stream = pairs;
        let mut lowered: Vec<(String, String)> = Vec::new();
        loop
            invariant
                all == pairs@,
                lower_keys(all.pairs) == pairs_view(lowered@) + lower_keys(stream@.pairs),
                stream@.failure == all.failure,
            ensures
                all == pairs@,
                lower_keys(all.pairs) == pairs_view(lowered@),
                all.failure is None,
            decreases stream@.pairs.len(),
        {
            let ghost ps = stream@.pairs;
            match stream.next() {
                Some(Ok((a, b))) => {
                    let ghost before = pairs_view(lowered@);
                    let k = lowercase(a.as_str());
                    lowered.push((k, b));
                    assert(pairs_view(lowered@) == before.push((lower_of(a@), b@)));
                    assert(lower_keys(ps) == seq![(lower_of(a@), b@)] + lower_keys(ps.drop_first()));
                },
                Some(Err(e)) => {
                    return Err(e);
                },
                None => {
                    assert(lower_keys(stream@.pairs) == Seq::<PairView>::empty());
                    break;
                },
            }
        }
        Ok(GroupedValues::from_lowered(&lowered, sep))
    }
}

} // verus!
