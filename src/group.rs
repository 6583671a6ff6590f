//! Grouping of a pair stream into records, each opened by a sentinel key.

use vstd::prelude::*;
use crate::error::{Error, ErrorView};
use crate::pairs::{flow, pair_view, FlowView, PairView, Pairs};

verus! {

/// A group as mathematical text: its key (the sentinel's value) and its
/// members in the order received.
pub type GroupView = (Seq<char>, Seq<PairView>);

/// The items that a single-sentinel grouping yields while a group with key
/// `key` and members `acc` is open, and the stream still yields `ps` and
/// then `fail`.
pub open spec fn open_items(
    sep: Seq<char>,
    key: Seq<char>,
    acc: Seq<PairView>,
    ps: Seq<PairView>,
    fail: Option<ErrorView>,
) -> Seq<Result<GroupView, ErrorView>>
    decreases ps.len(),
{
    if ps.len() == 0 {
        match fail {
            Some(e) => seq![Err(e)],
            None => seq![Ok((key, acc))],
        }
    } else if ps[0].0 == sep {
        seq![Ok((key, acc))] + open_items(sep, ps[0].1, Seq::empty(), ps.drop_first(), fail)
    } else {
        open_items(sep, key, acc.push(ps[0]), ps.drop_first(), fail)
    }
}

/// The items that a single-sentinel grouping yields before its first
/// sentinel: pairs ahead of it belong to no group.
pub open spec fn start_items(sep: Seq<char>, ps: Seq<PairView>, fail: Option<ErrorView>) -> Seq<
    Result<GroupView, ErrorView>,
>
    decreases ps.len(),
{
    if ps.len() == 0 {
        match fail {
            Some(e) => seq![Err(e)],
            None => Seq::empty(),
        }
    } else if ps[0].0 == sep {
        open_items(sep, ps[0].1, Seq::empty(), ps.drop_first(), fail)
    } else {
        start_items(sep, ps.drop_first(), fail)
    }
}

/// All the items of a single-sentinel grouping of the stream `f`.
pub open spec fn groups_of(sep: Seq<char>, f: FlowView) -> Seq<Result<GroupView, ErrorView>> {
    start_items(sep, f.pairs, f.failure)
}

/// The mathematical value of an owned group.
pub open spec fn group_view(g: (String, Vec<(String, String)>)) -> GroupView {
    (g.0@, g.1@.map_values(|p: (String, String)| pair_view(p)))
}

/// The mathematical value of an item of a single-sentinel grouping.
pub open spec fn group_item_view(r: Option<Result<(String, Vec<(String, String)>), Error>>) -> Option<
    Result<GroupView, ErrorView>,
> {
    match r {
        Some(Ok(g)) => Some(Ok(group_view(g))),
        Some(Err(e)) => Some(Err(e@)),
        None => None,
    }
}

/// The first item of `s`, if any.
pub open spec fn seq_head<T>(s: Seq<T>) -> Option<T> {
    if s.len() > 0 {
        Some(s[0])
    } else {
        None
    }
}

/// Groups of a pair stream, each opened by a pair whose key is the sentinel.
pub struct Maps {
    pairs: Pairs,
    sep: String,
    value: Option<String>,
    done: bool,
}

impl Maps {
    /// The sentinel key.
    pub closed spec fn sep(&self) -> Seq<char> {
        self.sep@
    }

    /// The items still to come.
    pub closed spec fn items(&self) -> Seq<Result<GroupView, ErrorView>> {
        if self.done {
            Seq::empty()
        } else {
            match self.value {
                Some(v) => open_items(self.sep@, v@, Seq::empty(), self.pairs@.pairs, self.pairs@.failure),
                None => start_items(self.sep@, self.pairs@.pairs, self.pairs@.failure),
            }
        }
    }

    /// The next group: its key, the value of the sentinel pair that opened
    /// it, and its members up to the next sentinel or the end of the stream.
    /// A failure of the stream is yielded in place of the group it
    /// interrupts, and ends the grouping.
    pub fn next(&mut self) -> (r: Option<Result<(String, Vec<(String, String)>), Error>>)
        ensures
            group_item_view(r) == seq_head(old(self).items()),
            final(self).items() == old(self).items().drop_first() || (old(self).items().len() == 0
                && final(self).items().len() == 0),
            final(self).sep() == old(self).sep(),
    {
        if self.done {
            return None;
        }
        if self.value.is_none() {
            loop
                invariant_except_break
                    self.value is None,
                    start_items(self.sep@, self.pairs@.pairs, self.pairs@.failure) == old(
                        self,
                    ).items(),
                invariant
                    !self.done,
                    self.sep@ == old(self).sep@,
                ensures
                    !self.done,
                    self.value is Some,
                    open_items(
                        self.sep@,
                        self.value->0@,
                        Seq::empty(),
                        self.pairs@.pairs,
                        self.pairs@.failure,
                    ) == old(self).items(),
                    self.sep@ == old(self).sep@,
                decreases self.pairs@.pairs.len(),
            {
                match self.pairs.next() {
                    Some(Ok((a, b))) => {
                        if a == self.sep {
                            self.value = Some(b);
                            break;
                        }
                    },
                    Some(Err(e)) => {
                        self.done = true;
                        return Some(Err(e));
                    },
                    None => {
                        self.done = true;
                        return None;
                    },
                }
            }
        }
        let key = match self.value.take() {
            Some(v) => v,
            None => {
                return None;
            },
        };
        assert(Seq::<(String, String)>::empty().map_values(|p: (String, String)| pair_view(p))
            == Seq::<PairView>::empty());
        let mut members: Vec<(String, String)> = Vec::new();
        loop
            invariant
                !self.done,
                self.value is None,
                open_items(
                    self.sep@,
                    key@,
                    members@.map_values(|p: (String, String)| pair_view(p)),
                    self.pairs@.pairs,
                    self.pairs@.failure,
                ) == old(self).items(),
                self.sep@ == old(self).sep@,
            decreases self.pairs@.pairs.len(),
        {
            match self.pairs.next() {
                Some(Ok((a, b))) => {
                    if a == self.sep {
                        self.value = Some(b);
                        return Some(Ok((key, members)));
                    }
                    let ghost before = members@.map_values(|p: (String, String)| pair_view(p));
                    members.push((a, b));
                    assert(members@.map_values(|p: (String, String)| pair_view(p)) == before.push(
                        (a@, b@),
                    ));
                },
                Some(Err(e)) => {
                    self.done = true;
                    return Some(Err(e));
                },
                None => {
                    self.done = true;
                    return Some(Ok((key, members)));
                },
            }
        }
    }
}

impl Pairs {
    /// Groups this stream by the sentinel key `sep`, compared exactly.
    pub fn split(self, sep: &str) -> (r: Maps)
        ensures
            r.items() == groups_of(sep@, self@),
            r.sep() == sep@,
    {
        Maps { pairs: self, sep: sep.to_owned(), value: None, done: false }
    }
}


/// A multi-sentinel group as mathematical text: the sentinel key that
/// opened it, its value, and the members in the order received.
pub type KindGroupView = (Seq<char>, Seq<char>, Seq<PairView>);

/// The items that a multi-sentinel grouping yields while a group opened by
/// `kind` with value `key` and members `acc` is open.
pub open spec fn open_kind_items(
    seps: Set<Seq<char>>,
    kind: Seq<char>,
    key: Seq<char>,
    acc: Seq<PairView>,
    ps: Seq<PairView>,
    fail: Option<ErrorView>,
) -> Seq<Result<KindGroupView, ErrorView>>
    decreases ps.len(),
{
    if ps.len() == 0 {
        match fail {
            Some(e) => seq![Err(e)],
            None => seq![Ok((kind, key, acc))],
        }
    } else if seps.contains(ps[0].0) {
        seq![Ok((kind, key, acc))] + open_kind_items(
            seps,
            ps[0].0,
            ps[0].1,
            Seq::empty(),
            ps.drop_first(),
            fail,
        )
    } else {
        open_kind_items(seps, kind, key, acc.push(ps[0]), ps.drop_first(), fail)
    }
}

/// The items that a multi-sentinel grouping yields before its first
/// sentinel: pairs ahead of it belong to no group.
pub open spec fn start_kind_items(
    seps: Set<Seq<char>>,
    ps: Seq<PairView>,
    fail: Option<ErrorView>,
) -> Seq<Result<KindGroupView, ErrorView>>
    decreases ps.len(),
{
    if ps.len() == 0 {
        match fail {
            Some(e) => seq![Err(e)],
            None => Seq::empty(),
        }
    } else if seps.contains(ps[0].0) {
        open_kind_items(seps, ps[0].0, ps[0].1, Seq::empty(), ps.drop_first(), fail)
    } else {
        start_kind_items(seps, ps.drop_first(), fail)
    }
}

/// All the items of a multi-sentinel grouping of the stream `f`.
pub open spec fn kind_groups_of(seps: Set<Seq<char>>, f: FlowView) -> Seq<
    Result<KindGroupView, ErrorView>,
> {
    start_kind_items(seps, f.pairs, f.failure)
}

/// The mathematical value of an owned multi-sentinel group.
pub open spec fn kind_group_view(g: (String, String, Vec<(String, String)>)) -> KindGroupView {
    (g.0@, g.1@, g.2@.map_values(|p: (String, String)| pair_view(p)))
}

/// The mathematical value of an item of a multi-sentinel grouping.
pub open spec fn kind_group_item_view(
    r: Option<Result<(String, String, Vec<(String, String)>), Error>>,
) -> Option<Result<KindGroupView, ErrorView>> {
    match r {
        Some(Ok(g)) => Some(Ok(kind_group_view(g))),
        Some(Err(e)) => Some(Err(e@)),
        None => None,
    }
}

/// The sentinel keys of a multi-sentinel grouping, held in an
/// `fxhash::FxHashSet`.
#[verifier::external_body]
pub struct SepSet {
    keys: fxhash::FxHashSet<String>,
}

/// The keys that a [`SepSet`] holds.
pub uninterp spec fn sep_keys(s: SepSet) -> Set<Seq<char>>;

/// Relies on `FxHashSet::default`: a new set is empty.
#[verifier::external_body]
fn sep_set_new() -> (r: SepSet)
    ensures
        sep_keys(r) == Set::<Seq<char>>::empty(),
{
    SepSet { keys: fxhash::FxHashSet::default() }
}

/// Relies on `FxHashSet::insert`: the key is in the set afterwards, and
/// nothing else changes.
#[verifier::external_body]
fn sep_set_insert(s: &mut SepSet, k: &str)
    ensures
        sep_keys(*final(s)) == sep_keys(*old(s)).insert(k@),
{
    s.keys.insert(k.to_owned());
}

/// Relies on `FxHashSet::contains`: whether the set holds a key equal to `k`.
#[verifier::external_body]
fn sep_set_contains(s: &SepSet, k: &String) -> (r: bool)
    ensures
        r == sep_keys(*s).contains(k@),
{
    s.keys.contains(k)
}

/// Groups of a pair stream, each opened by a pair whose key is one of a set
/// of sentinels; each group remembers which sentinel opened it.
pub struct MultiSepMaps {
    pairs: Pairs,
    seps: SepSet,
    last: Option<(String, String)>,
    done: bool,
}

impl MultiSepMaps {
    /// The sentinel keys.
    pub closed spec fn seps(&self) -> Set<Seq<char>> {
        sep_keys(self.seps)
    }

    /// The items still to come.
    pub closed spec fn items(&self) -> Seq<Result<KindGroupView, ErrorView>> {
        if self.done {
            Seq::empty()
        } else {
            match self.last {
                Some(kv) => open_kind_items(
                    sep_keys(self.seps),
                    kv.0@,
                    kv.1@,
                    Seq::empty(),
                    self.pairs@.pairs,
                    self.pairs@.failure,
                ),
                None => start_kind_items(sep_keys(self.seps), self.pairs@.pairs, self.pairs@.failure),
            }
        }
    }

    /// The next group: the sentinel key that opened it, that pair's value,
    /// and its members up to the next sentinel or the end of the stream.
    /// A failure of the stream is yielded in place of the group it
    /// interrupts, and ends the grouping.
    pub fn next(&mut self) -> (r: Option<Result<(String, String, Vec<(String, String)>), Error>>)
        ensures
            kind_group_item_view(r) == seq_head(old(self).items()),
            final(self).items() == old(self).items().drop_first() || (old(self).items().len() == 0
                && final(self).items().len() == 0),
            final(self).seps() == old(self).seps(),
    {
        if self.done {
            return None;
        }
        if self.last.is_none() {
            loop
                invariant_except_break
                    self.last is None,
                    start_kind_items(sep_keys(self.seps), self.pairs@.pairs, self.pairs@.failure)
                        == old(self).items(),
                invariant
                    !self.done,
                    self.seps == old(self).seps,
                ensures
                    !self.done,
                    self.last is Some,
                    open_kind_items(
                        sep_keys(self.seps),
                        self.last.unwrap().0@,
                        self.last.unwrap().1@,
                        Seq::empty(),
                        self.pairs@.pairs,
                        self.pairs@.failure,
                    ) == old(self).items(),
                    self.seps == old(self).seps,
                decreases self.pairs@.pairs.len(),
            {
                match self.pairs.next() {
                    Some(Ok((a, b))) => {
                        if sep_set_contains(&self.seps, &a) {
                            self.last = Some((a, b));
                            break;
                        }
                    },
                    Some(Err(e)) => {
                        self.done = true;
                        return Some(Err(e));
                    },
                    None => {
                        self.done = true;
                        return None;
                    },
                }
            }
        }
        let (kind, key) = match self.last.take() {
            Some(kv) => kv,
            None => {
                return None;
            },
        };
        assert(Seq::<(String, String)>::empty().map_values(|p: (String, String)| pair_view(p))
            == Seq::<PairView>::empty());
        let mut members: Vec<(String, String)> = Vec::new();
        loop
            invariant
                !self.done,
                self.last is None,
                open_kind_items(
                    sep_keys(self.seps),
                    kind@,
                    key@,
                    members@.map_values(|p: (String, String)| pair_view(p)),
                    self.pairs@.pairs,
                    self.pairs@.failure,
                ) == old(self).items(),
                self.seps == old(self).seps,
            decreases self.pairs@.pairs.len(),
        {
            match self.pairs.next() {
                Some(Ok((a, b))) => {
                    if sep_set_contains(&self.seps, &a) {
                        self.last = Some((a, b));
                        return Some(Ok((kind, key, members)));
                    }
                    let ghost before = members@.map_values(|p: (String, String)| pair_view(p));
                    members.push((a, b));
                    assert(members@.map_values(|p: (String, String)| pair_view(p)) == before.push(
                        (a@, b@),
                    ));
                },
                Some(Err(e)) => {
                    self.done = true;
                    return Some(Err(e));
                },
                None => {
                    self.done = true;
                    return Some(Ok((kind, key, members)));
                },
            }
        }
    }
}

/// The set of the texts of `keys`.
pub open spec fn key_set(keys: Seq<&str>) -> Set<Seq<char>> {
    Set::new(|k: Seq<char>| exists|i: int| 0 <= i < keys.len() && (#[trigger] keys[i])@ == k)
}

impl Pairs {
    /// Groups this stream by any of the sentinel keys `seps`, compared
    /// exactly.
    pub fn split_multisep(self, seps: &[&str]) -> (r: MultiSepMaps)
        ensures
            r.items() == kind_groups_of(key_set(seps@), self@),
            r.seps() == key_set(seps@),
    {
        let mut set = sep_set_new();
        let mut i: usize = 0;
        while i < seps.len()
            invariant
                i <= seps@.len(),
                sep_keys(set) == key_set(seps@.take(i as int)),
            decreases seps.len() - i,
        {
            sep_set_insert(&mut set, seps[i]);
            assert(key_set(seps@.take(i + 1)) == key_set(seps@.take(i as int)).insert(seps@[i as int]@)) by {
                assert forall|k: Seq<char>| key_set(seps@.take(i + 1)).contains(k) <==> key_set(seps@.take(i as int)).insert(seps@[i as int]@).contains(k) by {
                    if key_set(seps@.take(i + 1)).contains(k) {
                        let j = choose|j: int| 0 <= j < i + 1 && (#[trigger] seps@.take(i + 1)[j])@ == k;
                        if j < i {
                            assert(seps@.take(i as int)[j] == seps@.take(i + 1)[j]);
                        }
                    }
                    if key_set(seps@.take(i as int)).contains(k) {
                        let j = choose|j: int| 0 <= j < i && (#[trigger] seps@.take(i as int)[j])@ == k;
                        assert(seps@.take(i as int)[j] == seps@.take(i + 1)[j]);
                    }
                    if k == seps@[i as int]@ {
                        assert(seps@.take(i + 1)[i as int] == seps@[i as int]);
                    }
                }
            }
            i = i + 1;
        }
        assert(seps@.take(i as int) == seps@);
        MultiSepMaps { pairs: self, seps: set, last: None, done: false }
    }
}


/// Whether `items` ends as a grouping must: every item but the last is a
/// group, and the last is the stream's failure exactly when it failed.
pub open spec fn well_ended<T>(items: Seq<Result<T, ErrorView>>, fail: Option<ErrorView>) -> bool {
    &&& forall|i: int| 0 <= i < items.len() - 1 ==> (#[trigger] items[i]) is Ok
    &&& match fail {
        Some(e) => items.len() > 0 && items.last() == Err::<T, ErrorView>(e),
        None => items.len() == 0 || items.last() is Ok,
    }
}

proof fn lemma_well_ended_cons<T>(g: T, rest: Seq<Result<T, ErrorView>>, fail: Option<ErrorView>)
    requires
        well_ended(rest, fail),
    ensures
        well_ended(seq![Ok(g)] + rest, fail),
{
    let s = seq![Ok(g)] + rest;
    assert forall|i: int| 0 <= i < s.len() - 1 implies (#[trigger] s[i]) is Ok by {
        if i > 0 {
            assert(s[i] == rest[i - 1]);
        }
    }
    if rest.len() > 0 {
        assert(s.last() == rest.last());
    }
}

proof fn lemma_open_well_ended(
    sep: Seq<char>,
    key: Seq<char>,
    acc: Seq<PairView>,
    ps: Seq<PairView>,
    fail: Option<ErrorView>,
)
    ensures
        well_ended(open_items(sep, key, acc, ps, fail), fail),
    decreases ps.len(),
{
    if ps.len() > 0 {
        if ps[0].0 == sep {
            lemma_open_well_ended(sep, ps[0].1, Seq::empty(), ps.drop_first(), fail);
            lemma_well_ended_cons(
                (key, acc),
                open_items(sep, ps[0].1, Seq::empty(), ps.drop_first(), fail),
                fail,
            );
        } else {
            lemma_open_well_ended(sep, key, acc.push(ps[0]), ps.drop_first(), fail);
        }
    }
}

proof fn lemma_start_well_ended(sep: Seq<char>, ps: Seq<PairView>, fail: Option<ErrorView>)
    ensures
        well_ended(start_items(sep, ps, fail), fail),
    decreases ps.len(),
{
    if ps.len() > 0 {
        if ps[0].0 == sep {
            lemma_open_well_ended(sep, ps[0].1, Seq::empty(), ps.drop_first(), fail);
        } else {
            lemma_start_well_ended(sep, ps.drop_first(), fail);
        }
    }
}

/// A failure of the pair stream ends a single-sentinel grouping: every
/// item before it is a group, the failure itself is the last item, and no
/// group follows it; a stream that does not fail yields only groups.
pub proof fn lemma_failure_ends_groups(sep: Seq<char>, f: FlowView)
    ensures
        well_ended(groups_of(sep, f), f.failure),
{
    lemma_start_well_ended(sep, f.pairs, f.failure);
}

proof fn lemma_open_kind_well_ended(
    seps: Set<Seq<char>>,
    kind: Seq<char>,
    key: Seq<char>,
    acc: Seq<PairView>,
    ps: Seq<PairView>,
    fail: Option<ErrorView>,
)
    ensures
        well_ended(open_kind_items(seps, kind, key, acc, ps, fail), fail),
    decreases ps.len(),
{
    if ps.len() > 0 {
        if seps.contains(ps[0].0) {
            lemma_open_kind_well_ended(seps, ps[0].0, ps[0].1, Seq::empty(), ps.drop_first(), fail);
            lemma_well_ended_cons(
                (kind, key, acc),
                open_kind_items(seps, ps[0].0, ps[0].1, Seq::empty(), ps.drop_first(), fail),
                fail,
            );
        } else {
            lemma_open_kind_well_ended(seps, kind, key, acc.push(ps[0]), ps.drop_first(), fail);
        }
    }
}

proof fn lemma_start_kind_well_ended(
    seps: Set<Seq<char>>,
    ps: Seq<PairView>,
    fail: Option<ErrorView>,
)
    ensures
        well_ended(start_kind_items(seps, ps, fail), fail),
    decreases ps.len(),
{
    if ps.len() > 0 {
        if seps.contains(ps[0].0) {
            lemma_open_kind_well_ended(seps, ps[0].0, ps[0].1, Seq::empty(), ps.drop_first(), fail);
        } else {
            lemma_start_kind_well_ended(seps, ps.drop_first(), fail);
        }
    }
}

/// A failure of the pair stream ends a multi-sentinel grouping: every item
/// before it is a group, the failure itself is the last item, and no group
/// follows it; a stream that does not fail yields only groups.
pub proof fn lemma_failure_ends_kind_groups(seps: Set<Seq<char>>, f: FlowView)
    ensures
        well_ended(kind_groups_of(seps, f), f.failure),
{
    lemma_start_kind_well_ended(seps, f.pairs, f.failure);
}


/// The pairs that the groups `gs` stand for: each group's sentinel pair
/// `(sep, key)` followed by its members, in order.
pub open spec fn flatten_groups(sep: Seq<char>, gs: Seq<Result<GroupView, ErrorView>>) -> Seq<PairView>
    decreases gs.len(),
{
    if gs.len() == 0 {
        Seq::empty()
    } else {
        (match gs[0] {
            Ok(g) => seq![(sep, g.0)] + g.1,
            Err(_) => Seq::empty(),
        }) + flatten_groups(sep, gs.drop_first())
    }
}

/// `ps` from its first pair whose key is `sep` on; empty if there is none.
pub open spec fn from_first_sentinel(ps: Seq<PairView>, sep: Seq<char>) -> Seq<PairView>
    decreases ps.len(),
{
    if ps.len() == 0 {
        Seq::empty()
    } else if ps[0].0 == sep {
        ps
    } else {
        from_first_sentinel(ps.drop_first(), sep)
    }
}

proof fn lemma_flatten_cons(sep: Seq<char>, g: GroupView, rest: Seq<Result<GroupView, ErrorView>>)
    ensures
        flatten_groups(sep, seq![Ok(g)] + rest) == seq![(sep, g.0)] + g.1 + flatten_groups(sep, rest),
{
    let s = seq![Ok::<GroupView, ErrorView>(g)] + rest;
    assert(s[0] == Ok::<GroupView, ErrorView>(g));
    assert(s.drop_first() == rest);
}

proof fn lemma_open_keeps_pairs(
    sep: Seq<char>,
    key: Seq<char>,
    acc: Seq<PairView>,
    ps: Seq<PairView>,
)
    ensures
        flatten_groups(sep, open_items(sep, key, acc, ps, None)) == seq![(sep, key)] + acc + ps,
    decreases ps.len(),
{
    if ps.len() == 0 {
        lemma_flatten_cons(sep, (key, acc), Seq::empty());
        assert(seq![(sep, key)] + acc + Seq::<PairView>::empty() == seq![(sep, key)] + acc);
    } else if ps[0].0 == sep {
        let rest = open_items(sep, ps[0].1, Seq::empty(), ps.drop_first(), None);
        lemma_open_keeps_pairs(sep, ps[0].1, Seq::empty(), ps.drop_first());
        lemma_flatten_cons(sep, (key, acc), rest);
        assert(seq![(sep, ps[0].1)] + Seq::<PairView>::empty() + ps.drop_first() == ps);
        assert(seq![(sep, key)] + acc + (seq![(sep, ps[0].1)] + Seq::<PairView>::empty()
            + ps.drop_first()) == seq![(sep, key)] + acc + ps);
    } else {
        lemma_open_keeps_pairs(sep, key, acc.push(ps[0]), ps.drop_first());
        assert(seq![(sep, key)] + acc.push(ps[0]) + ps.drop_first() == seq![(sep, key)] + acc + ps);
    }
}

proof fn lemma_start_keeps_pairs(sep: Seq<char>, ps: Seq<PairView>)
    ensures
        flatten_groups(sep, start_items(sep, ps, None)) == from_first_sentinel(ps, sep),
    decreases ps.len(),
{
    if ps.len() > 0 {
        if ps[0].0 == sep {
            lemma_open_keeps_pairs(sep, ps[0].1, Seq::empty(), ps.drop_first());
            assert(seq![(sep, ps[0].1)] + Seq::<PairView>::empty() + ps.drop_first() == ps);
        } else {
            lemma_start_keeps_pairs(sep, ps.drop_first());
        }
    }
}

/// A single-sentinel grouping of a stream that does not fail loses no pair
/// and merges none: writing each group back as its sentinel pair followed
/// by its members gives the stream's pairs from the first sentinel on.
pub proof fn lemma_groups_keep_every_pair(sep: Seq<char>, f: FlowView)
    requires
        f.failure is None,
    ensures
        flatten_groups(sep, groups_of(sep, f)) == from_first_sentinel(f.pairs, sep),
{
    lemma_start_keeps_pairs(sep, f.pairs);
}


/// The pairs that the multi-sentinel groups `gs` stand for: each group's
/// sentinel pair followed by its members, in order.
pub open spec fn flatten_kind_groups(gs: Seq<Result<KindGroupView, ErrorView>>) -> Seq<PairView>
    decreases gs.len(),
{
    if gs.len() == 0 {
        Seq::empty()
    } else {
        (match gs[0] {
            Ok(g) => seq![(g.0, g.1)] + g.2,
            Err(_) => Seq::empty(),
        }) + flatten_kind_groups(gs.drop_first())
    }
}

/// `ps` from its first pair whose key is in `seps` on; empty if there is none.
pub open spec fn from_first_kind_sentinel(ps: Seq<PairView>, seps: Set<Seq<char>>) -> Seq<PairView>
    decreases ps.len(),
{
    if ps.len() == 0 {
        Seq::empty()
    } else if seps.contains(ps[0].0) {
        ps
    } else {
        from_first_kind_sentinel(ps.drop_first(), seps)
    }
}

proof fn lemma_flatten_kind_cons(g: KindGroupView, rest: Seq<Result<KindGroupView, ErrorView>>)
    ensures
        flatten_kind_groups(seq![Ok(g)] + rest) == seq![(g.0, g.1)] + g.2 + flatten_kind_groups(rest),
{
    let s = seq![Ok::<KindGroupView, ErrorView>(g)] + rest;
    assert(s[0] == Ok::<KindGroupView, ErrorView>(g));
    assert(s.drop_first() == rest);
}

proof fn lemma_open_kind_keeps_pairs(
    seps: Set<Seq<char>>,
    kind: Seq<char>,
    key: Seq<char>,
    acc: Seq<PairView>,
    ps: Seq<PairView>,
)
    ensures
        flatten_kind_groups(open_kind_items(seps, kind, key, acc, ps, None)) == seq![(kind, key)]
            + acc + ps,
    decreases ps.len(),
{
    if ps.len() == 0 {
        lemma_flatten_kind_cons((kind, key, acc), Seq::empty());
        assert(seq![(kind, key)] + acc + Seq::<PairView>::empty() == seq![(kind, key)] + acc);
    } else if seps.contains(ps[0].0) {
        let rest = open_kind_items(seps, ps[0].0, ps[0].1, Seq::empty(), ps.drop_first(), None);
        lemma_open_kind_keeps_pairs(seps, ps[0].0, ps[0].1, Seq::empty(), ps.drop_first());
        lemma_flatten_kind_cons((kind, key, acc), rest);
        assert(seq![(ps[0].0, ps[0].1)] + Seq::<PairView>::empty() + ps.drop_first() == ps);
        assert(seq![(kind, key)] + acc + (seq![(ps[0].0, ps[0].1)] + Seq::<PairView>::empty()
            + ps.drop_first()) == seq![(kind, key)] + acc + ps);
    } else {
        lemma_open_kind_keeps_pairs(seps, kind, key, acc.push(ps[0]), ps.drop_first());
        assert(seq![(kind, key)] + acc.push(ps[0]) + ps.drop_first() == seq![(kind, key)] + acc
            + ps);
    }
}

proof fn lemma_start_kind_keeps_pairs(seps: Set<Seq<char>>, ps: Seq<PairView>)
    ensures
        flatten_kind_groups(start_kind_items(seps, ps, None)) == from_first_kind_sentinel(ps, seps),
    decreases ps.len(),
{
    if ps.len() > 0 {
        if seps.contains(ps[0].0) {
            lemma_open_kind_keeps_pairs(seps, ps[0].0, ps[0].1, Seq::empty(), ps.drop_first());
            assert(seq![(ps[0].0, ps[0].1)] + Seq::<PairView>::empty() + ps.drop_first() == ps);
        } else {
            lemma_start_kind_keeps_pairs(seps, ps.drop_first());
        }
    }
}

/// A multi-sentinel grouping of a stream that does not fail loses no pair
/// and merges none: writing each group back as its sentinel pair followed
/// by its members gives the stream's pairs from the first sentinel on.
pub proof fn lemma_kind_groups_keep_every_pair(seps: Set<Seq<char>>, f: FlowView)
    requires
        f.failure is None,
    ensures
        flatten_kind_groups(kind_groups_of(seps, f)) == from_first_kind_sentinel(f.pairs, seps),
{
    lemma_start_kind_keeps_pairs(seps, f.pairs);
}

} // verus!
