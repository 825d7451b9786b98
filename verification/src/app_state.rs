use vstd::prelude::*;

use crate::matcher::Matcher;
use crate::matcher_map::MatcherMap;
use crate::types::UserId;
use crate::laws::{
    law_insert_appends_to_line, law_oldest_connection_comes_from_line,
    law_removal_keeps_others_in_order, law_search_covers_whole_line,
};
use vstd::pervasive::cloned;

verus! {

/// A peer connection that waits for its opponent, with the user id of the
/// peer that opened it.
pub struct PeerConnectionEntry<W> {
    pub user_id: UserId,
    pub wrapper: W,
}

/// Whether an entry belongs to a peer other than `user_id`.
pub open spec fn of_other_user<W>(user_id: UserId) -> spec_fn(PeerConnectionEntry<W>) -> bool {
    |e: PeerConnectionEntry<W>| e.user_id != user_id
}

/// Whether `j` is the first position in `s` of an entry of `user_id`.
pub open spec fn is_first_of_user<W>(s: Seq<PeerConnectionEntry<W>>, user_id: UserId, j: int) -> bool {
    &&& 0 <= j < s.len()
    &&& s[j].user_id == user_id
    &&& forall|i: int| 0 <= i < j ==> s[i].user_id != user_id
}

/// Where an entry of `user_id` occurs, there is a first one.
pub proof fn lemma_first_of_user_exists<W>(s: Seq<PeerConnectionEntry<W>>, user_id: UserId, i: int)
    requires
        0 <= i < s.len(),
        s[i].user_id == user_id,
    ensures
        exists|j: int| is_first_of_user(s, user_id, j),
    decreases i,
{
    if forall|g: int| 0 <= g < i ==> s[g].user_id != user_id {
        assert(is_first_of_user(s, user_id, i));
    } else {
        let g = choose|g: int| 0 <= g < i && s[g].user_id == user_id;
        lemma_first_of_user_exists(s, user_id, g);
    }
}

/// The abstract state of the matching service.
pub ghost struct AppStateModel<R, W, S> {
    /// The connection factory, carried unchanged.
    pub web_rtc_wrapper: R,
    /// For each matcher, the peer connections waiting there, oldest first.
    pub wrappers: Map<Matcher, Seq<PeerConnectionEntry<W>>>,
    /// For each matcher, the user waiting there and the channel that reaches it.
    pub waiting: Map<Matcher, (UserId, S)>,
}

impl<R, W, S> AppStateModel<R, W, S> {
    /// The peer connections waiting under `m` (none when `m` has no entry).
    pub open spec fn wrappers_of(self, m: Matcher) -> Seq<PeerConnectionEntry<W>> {
        if self.wrappers.contains_key(m) {
            self.wrappers[m]
        } else {
            Seq::empty()
        }
    }

    pub open spec fn has_waiting_peer_connection_wrapper(self, m: Matcher) -> bool {
        self.wrappers.contains_key(m) && self.wrappers[m].len() > 0
    }

    pub open spec fn has_waiting_user(self, m: Matcher) -> bool {
        self.waiting.contains_key(m)
    }

    /// The user id of the oldest peer connection waiting under `m`.
    pub open spec fn waiting_user_id_from_wrappers(self, m: Matcher) -> Option<UserId> {
        if self.has_waiting_peer_connection_wrapper(m) {
            Some(self.wrappers[m][0].user_id)
        } else {
            None
        }
    }

    /// What waits under `m`, if anything.
    pub open spec fn waiting_user(self, m: Matcher) -> Option<(UserId, S)> {
        if self.waiting.contains_key(m) {
            Some(self.waiting[m])
        } else {
            None
        }
    }

    /// What taking the waiting user of `m` by `user_id` gives back: the entry
    /// of `m` when it belongs to `user_id`, else nothing.
    pub open spec fn waiting_user_by_id(self, m: Matcher, user_id: UserId) -> Option<(UserId, S)> {
        if self.waiting.contains_key(m) && self.waiting[m].0 == user_id {
            Some(self.waiting[m])
        } else {
            None
        }
    }

    /// Whether a peer connection of `user_id` waits under `m`.
    pub open spec fn has_wrapper_of_user(self, m: Matcher, user_id: UserId) -> bool {
        exists|j: int| is_first_of_user(self.wrappers_of(m), user_id, j)
    }

    /// The position of the oldest peer connection of `user_id` under `m`.
    pub open spec fn first_wrapper_index(self, m: Matcher, user_id: UserId) -> int {
        choose|j: int| is_first_of_user(self.wrappers_of(m), user_id, j)
    }

    pub open spec fn with_wrappers_cleared(self) -> Self {
        AppStateModel { wrappers: Map::empty(), ..self }
    }

    pub open spec fn with_waiting_cleared(self) -> Self {
        AppStateModel { waiting: Map::empty(), ..self }
    }

    /// The state after the waiting entry of `m` is taken out.
    pub open spec fn with_waiting_removed(self, m: Matcher) -> Self {
        AppStateModel { waiting: self.waiting.remove(m), ..self }
    }

    /// The state after `user_id` waits under `m`, reachable through `sender`.
    pub open spec fn with_waiting_user(self, m: Matcher, user_id: UserId, sender: S) -> Self {
        AppStateModel { waiting: self.waiting.insert(m, (user_id, sender)), ..self }
    }

    /// The state after a peer connection of `user_id` joins the end of the
    /// line under `m`.
    pub open spec fn with_wrapper_inserted(self, m: Matcher, user_id: UserId, wrapper: W) -> Self {
        AppStateModel {
            wrappers: self.wrappers.insert(
                m,
                self.wrappers_of(m).push(PeerConnectionEntry { user_id, wrapper }),
            ),
            ..self
        }
    }

    /// The state after the peer connection at position `j` under `m` became
    /// `wrapper`.
    pub open spec fn with_wrapper_replaced(self, m: Matcher, j: int, wrapper: W) -> Self {
        AppStateModel {
            wrappers: self.wrappers.insert(
                m,
                self.wrappers[m].update(
                    j,
                    PeerConnectionEntry { user_id: self.wrappers[m][j].user_id, wrapper },
                ),
            ),
            ..self
        }
    }

    /// The state after every peer connection of `user_id` under `m` left.
    pub open spec fn with_user_wrappers_removed(self, m: Matcher, user_id: UserId) -> Self {
        AppStateModel {
            wrappers: self.wrappers.insert(m, self.wrappers[m].filter(of_other_user(user_id))),
            ..self
        }
    }
}

/// The line of peer connections under each matcher, as sequences.
pub open spec fn wrappers_view<W>(m: Map<Matcher, Vec<PeerConnectionEntry<W>>>) -> Map<
    Matcher,
    Seq<PeerConnectionEntry<W>>,
> {
    Map::new(|k: Matcher| m.contains_key(k), |k: Matcher| m[k]@)
}

/// Setting the line under one matcher sets it in the view too.
pub proof fn lemma_wrappers_view_insert<W>(m: Map<Matcher, Vec<PeerConnectionEntry<W>>>)
    ensures
        forall|k: Matcher, v: Vec<PeerConnectionEntry<W>>| #[trigger]
            wrappers_view(m.insert(k, v)) == wrappers_view(m).insert(k, v@),
        forall|k: Matcher| #[trigger]
            m.contains_key(k) ==> wrappers_view(m).insert(k, m[k]@) == wrappers_view(m),
{
    assert forall|k: Matcher| #[trigger] m.contains_key(k) implies wrappers_view(m).insert(k, m[k]@)
        == wrappers_view(m) by {
        assert(wrappers_view(m).insert(k, m[k]@) =~= wrappers_view(m));
    }
    assert forall|k: Matcher, v: Vec<PeerConnectionEntry<W>>| #[trigger]
        wrappers_view(m.insert(k, v)) == wrappers_view(m).insert(k, v@) by {
        assert(wrappers_view(m.insert(k, v)) =~= wrappers_view(m).insert(k, v@));
    }
}

/// Who waits where: the users waiting to be matched and the peer connections
/// waiting for their opponent's answer, each under its matcher.
pub struct AppState<R, W, S> {
    web_rtc_wrapper: R,
    matcher_to_wrappers: MatcherMap<Vec<PeerConnectionEntry<W>>>,
    matcher_to_user_id: MatcherMap<(UserId, S)>,
}

impl<R, W, S> View for AppState<R, W, S> {
    type V = AppStateModel<R, W, S>;

    closed spec fn view(&self) -> AppStateModel<R, W, S> {
        AppStateModel {
            web_rtc_wrapper: self.web_rtc_wrapper,
            wrappers: wrappers_view(self.matcher_to_wrappers@),
            waiting: self.matcher_to_user_id@,
        }
    }
}

/// The position of the first entry of `user_id` in `list`.
fn first_index_of_user<W>(list: &Vec<PeerConnectionEntry<W>>, user_id: UserId) -> (r: Option<usize>)
    ensures
        match r {
            Some(j) => is_first_of_user(list@, user_id, j as int),
            None => forall|i: int| 0 <= i < list@.len() ==> list@[i].user_id != user_id,
        },
{
    let mut j: usize = 0;
    while j < list.len()
        invariant
            j <= list@.len(),
            forall|i: int| 0 <= i < j ==> list@[i].user_id != user_id,
        decreases list@.len() - j,
    {
        if list[j].user_id == user_id {
            return Some(j);
        }
        j = j + 1;
    }
    None
}

/// Drops from `list` every entry of `user_id`, keeping the others in order.
fn retain_other_users<W>(list: &mut Vec<PeerConnectionEntry<W>>, user_id: UserId)
    ensures
        final(list)@ == old(list)@.filter(of_other_user(user_id)),
{
    let ghost orig = list@;
    let ghost p = of_other_user::<W>(user_id);
    let ghost mut k: int = 0;
    let mut i: usize = 0;
    proof {
        reveal(Seq::filter);
        assert(orig.take(0) =~= Seq::<PeerConnectionEntry<W>>::empty());
        assert(orig.skip(0) =~= orig);
        assert(list@ =~= orig.take(0).filter(p) + orig.skip(0));
    }
    while i < list.len()
        invariant
            0 <= k <= orig.len(),
            p == of_other_user::<W>(user_id),
            list@ == orig.take(k).filter(p) + orig.skip(k),
            i == orig.take(k).filter(p).len(),
        decreases list@.len() - i,
    {
        proof {
            assert(k < orig.len());
            assert(list@[i as int] == orig[k]);
            reveal(Seq::filter);
            assert(orig.take(k + 1).drop_last() =~= orig.take(k));
            assert(orig.take(k + 1).last() == orig[k]);
        }
        if list[i].user_id == user_id {
            list.remove(i);
            proof {
                assert(list@ =~= orig.take(k + 1).filter(p) + orig.skip(k + 1));
            }
        } else {
            i = i + 1;
            proof {
                assert(list@ =~= orig.take(k + 1).filter(p) + orig.skip(k + 1));
            }
        }
        proof {
            k = k + 1;
        }
    }
    proof {
        assert(orig.take(k).filter(p).len() + orig.skip(k).len() == list@.len());
        assert(k == orig.len());
        assert(orig.take(k) =~= orig);
        assert(list@ =~= orig.filter(p));
    }
}

impl<R, W, S> AppState<R, W, S> {
    /// Well-formedness: each matcher has at most one entry in each map.
    pub closed spec fn wf(&self) -> bool {
        self.matcher_to_wrappers.wf() && self.matcher_to_user_id.wf()
    }

    /// A state in which nobody waits.
    pub fn new(web_rtc_wrapper: R) -> (s: Self)
        ensures
            s.wf(),
            s@.web_rtc_wrapper == web_rtc_wrapper,
            s@.wrappers == Map::<Matcher, Seq<PeerConnectionEntry<W>>>::empty(),
            s@.waiting == Map::<Matcher, (UserId, S)>::empty(),
    {
        let s = AppState {
            web_rtc_wrapper,
            matcher_to_wrappers: MatcherMap::new(),
            matcher_to_user_id: MatcherMap::new(),
        };
        assert(s@.wrappers =~= Map::<Matcher, Seq<PeerConnectionEntry<W>>>::empty());
        s
    }

    /// The connection factory.
    pub fn get_web_rtc_wrapper(&self) -> (r: &R)
        ensures
            *r == self@.web_rtc_wrapper,
    {
        &self.web_rtc_wrapper
    }

    /// Whether a peer connection waits under `matcher`.
    pub fn has_waiting_peer_connection_wrapper(&self, matcher: &Matcher) -> (r: bool)
        requires
            self.wf(),
        ensures
            r == self@.has_waiting_peer_connection_wrapper(*matcher),
            r == (self@.wrappers.contains_key(*matcher) && self@.wrappers[*matcher].len() > 0),
    {
        match self.matcher_to_wrappers.get(matcher) {
            Some(list) => !list.is_empty(),
            None => false,
        }
    }

    /// Whether a user waits under `matcher`.
    pub fn has_waiting_user(&self, matcher: &Matcher) -> (r: bool)
        requires
            self.wf(),
        ensures
            r == self@.has_waiting_user(*matcher),
            r == self@.waiting.contains_key(*matcher),
    {
        self.matcher_to_user_id.contains_key(matcher)
    }

    /// The id of the user waiting under `matcher`; the entry stays.
    pub fn waiting_user_id(&self, matcher: &Matcher) -> (r: Option<UserId>)
        requires
            self.wf(),
        ensures
            match self@.waiting_user(*matcher) {
                None => r is None,
                Some(p) => r == Some(p.0),
            },
            !self@.waiting.contains_key(*matcher) ==> r is None,
            self@.waiting.contains_key(*matcher) ==> r == Some(self@.waiting[*matcher].0),
    {
        match self.matcher_to_user_id.get(matcher) {
            Some(entry) => Some(entry.0),
            None => None,
        }
    }

    /// Forgets every waiting peer connection.
    pub fn clear_matcher_to_wrappers(&mut self)
        requires
            old(self).wf(),
        ensures
            final(self).wf(),
            final(self)@ == old(self)@.with_wrappers_cleared(),
            final(self)@.wrappers == Map::<Matcher, Seq<PeerConnectionEntry<W>>>::empty(),
            final(self)@.waiting == old(self)@.waiting,
    {
        self.matcher_to_wrappers.clear();
        assert(self@.wrappers =~= Map::<Matcher, Seq<PeerConnectionEntry<W>>>::empty());
    }

    /// Forgets every waiting user.
    pub fn clear_matcher_to_user_id(&mut self)
        requires
            old(self).wf(),
        ensures
            final(self).wf(),
            final(self)@ == old(self)@.with_waiting_cleared(),
            final(self)@.waiting == Map::<Matcher, (UserId, S)>::empty(),
            final(self)@.wrappers == old(self)@.wrappers,
    {
        self.matcher_to_user_id.clear();
    }

    /// The user id of the oldest peer connection waiting under `matcher`.
    pub fn get_waiting_user_id_from_wrappers(&self, matcher: &Matcher) -> (r: Option<UserId>)
        requires
            self.wf(),
        ensures
            r == self@.waiting_user_id_from_wrappers(*matcher),
            !(self@.wrappers.contains_key(*matcher) && self@.wrappers[*matcher].len() > 0) ==> r
                is None,
            self@.wrappers.contains_key(*matcher) && self@.wrappers[*matcher].len() > 0 ==> r
                == Some(self@.wrappers[*matcher][0].user_id),
    {
        proof {
            law_oldest_connection_comes_from_line(self@, *matcher, self@.waiting);
        }
        if !self.has_waiting_peer_connection_wrapper(matcher) {
            return None;
        }
        match self.matcher_to_wrappers.get(matcher) {
            Some(list) => Some(list[0].user_id),
            None => None,
        }
    }

    /// Takes out what waits under `matcher`. It is handed back only when it
    /// belongs to `user_id`; otherwise it is dropped all the same.
    pub fn find_waiting_user_by_id(&mut self, matcher: &Matcher, user_id: &UserId) -> (r: Option<
        (UserId, S),
    >)
        requires
            old(self).wf(),
        ensures
            final(self).wf(),
            r == old(self)@.waiting_user_by_id(*matcher, *user_id),
            final(self)@ == old(self)@.with_waiting_removed(*matcher),
            r is Some <==> (old(self)@.waiting.contains_key(*matcher) && old(self)@.waiting[*matcher].0
                == *user_id),
            r matches Some(p) ==> p == old(self)@.waiting[*matcher],
            final(self)@.waiting == old(self)@.waiting.remove(*matcher),
            final(self)@.wrappers == old(self)@.wrappers,
    {
        let removed = self.matcher_to_user_id.remove(matcher);
        match removed {
            Some(entry) => {
                if entry.0 != *user_id {
                    None
                } else {
                    Some(entry)
                }
            },
            None => None,
        }
    }

    /// Puts a peer connection of `user_id` at the end of the line under
    /// `matcher`.
    pub fn insert_wrapper(&mut self, matcher: &Matcher, user_id: UserId, wrapper: W)
        requires
            old(self).wf(),
        ensures
            final(self).wf(),
            final(self)@ == old(self)@.with_wrapper_inserted(*matcher, user_id, wrapper),
            ({
                let n = if old(self)@.wrappers.contains_key(*matcher) {
                    old(self)@.wrappers[*matcher].len()
                } else {
                    0
                };
                &&& final(self)@.wrappers.contains_key(*matcher)
                &&& final(self)@.wrappers[*matcher].len() == n + 1
                &&& forall|i: int| 0 <= i < n ==> #[trigger] final(self)@.wrappers[*matcher][i]
                    == old(self)@.wrappers[*matcher][i]
                &&& final(self)@.wrappers[*matcher][n as int] == (PeerConnectionEntry {
                    user_id,
                    wrapper,
                })
                &&& final(self)@.wrappers.remove(*matcher) == old(self)@.wrappers.remove(*matcher)
                &&& final(self)@.waiting == old(self)@.waiting
            }),
    {
        proof {
            law_insert_appends_to_line(self@, *matcher, user_id, wrapper);
        }
        let entry = PeerConnectionEntry { user_id, wrapper };
        let ghost e = entry;
        let ghost before = self.matcher_to_wrappers@;
        if self.matcher_to_wrappers.contains_key(matcher) {
            match self.matcher_to_wrappers.get_mut(matcher) {
                Some(list) => {
                    list.push(entry);
                },
                None => {},
            }
            proof {
                lemma_wrappers_view_insert(before);
                assert(self.matcher_to_wrappers@ == before.insert(
                    *matcher,
                    self.matcher_to_wrappers@[*matcher],
                ));
                assert(self.matcher_to_wrappers@[*matcher]@ =~= before[*matcher]@.push(e));
            }
        } else {
            let v = vec![entry];
            proof {
                lemma_wrappers_view_insert(before);
                assert(v@ =~= Seq::<PeerConnectionEntry<W>>::empty().push(e));
            }
            self.matcher_to_wrappers.insert(*matcher, v);
        }
        assert(self@.wrappers == old(self)@.with_wrapper_inserted(*matcher, user_id, wrapper).wrappers);
    }

    /// The oldest peer connection of `user_id` under `matcher`, to be used in
    /// place.
    pub fn find_wrapper_by_user_id(&mut self, matcher: &Matcher, user_id: &UserId) -> (r: Option<
        &mut W,
    >)
        requires
            old(self).wf(),
        ensures
            final(self).wf(),
            r is Some <==> old(self)@.has_wrapper_of_user(*matcher, *user_id),
            r is Some <==> (old(self)@.wrappers.contains_key(*matcher) && exists|j: int|
                0 <= j < old(self)@.wrappers[*matcher].len()
                    && #[trigger] old(self)@.wrappers[*matcher][j].user_id == *user_id),
            r is None ==> final(self)@ == old(self)@,
            r matches Some(w) ==> *w == old(self)@.wrappers[*matcher][old(
                self,
            )@.first_wrapper_index(*matcher, *user_id)].wrapper,
            r matches Some(w) ==> final(self)@ == old(self)@.with_wrapper_replaced(
                *matcher,
                old(self)@.first_wrapper_index(*matcher, *user_id),
                *final(w),
            ),
    {
        let ghost before = self.matcher_to_wrappers@;
        proof {
            lemma_wrappers_view_insert(before);
            law_search_covers_whole_line(self@, *matcher, *user_id);
        }
        match self.matcher_to_wrappers.get_mut(matcher) {
            None => None,
            Some(list) => {
                match first_index_of_user(list, *user_id) {
                    Some(j) => {
                        proof {
                            let ws = before[*matcher]@;
                            assert(is_first_of_user(ws, *user_id, j as int));
                            let c = choose|c: int| is_first_of_user(ws, *user_id, c);
                            assert(c == j);
                            assert(old(self)@.wrappers_of(*matcher) == ws);
                            assert(old(self)@.has_wrapper_of_user(*matcher, *user_id));
                        }
                        let entry = &mut list[j];
                        Some(&mut entry.wrapper)
                    },
                    None => {
                        proof {
                            assert(wrappers_view(before).insert(*matcher, before[*matcher]@)
                                == wrappers_view(before));
                            assert(old(self)@.wrappers_of(*matcher) == before[*matcher]@);
                            assert(!old(self)@.has_wrapper_of_user(*matcher, *user_id));
                        }
                        None
                    },
                }
            },
        }
    }

    /// Drops every peer connection of `user_id` under `matcher`, keeping the
    /// others in order. Fails when the matcher has no entry, or an empty one.
    pub fn remove_wrapper_by_user_id(&mut self, matcher: &Matcher, user_id: &UserId) -> (r: Result<
        (),
        String,
    >)
        requires
            old(self).wf(),
        ensures
            final(self).wf(),
            !old(self)@.wrappers.contains_key(*matcher) ==> (r matches Err(e) && e@
                == "matcher does not set"@ && final(self)@ == old(self)@),
            old(self)@.wrappers.contains_key(*matcher) && old(self)@.wrappers[*matcher].len() == 0
                ==> (r matches Err(e) && e@ == "matcher has no wrappers"@ && final(self)@ == old(
                self,
            )@),
            old(self)@.has_waiting_peer_connection_wrapper(*matcher) ==> (r is Ok && final(self)@
                == old(self)@.with_user_wrappers_removed(*matcher, *user_id)),
            r is Ok ==> old(self)@.wrappers.contains_key(*matcher) && old(self)@.wrappers[*matcher].len()
                > 0 && final(self)@.wrappers[*matcher] == old(self)@.wrappers[*matcher].filter(
                (|e: PeerConnectionEntry<W>| e.user_id != *user_id),
            ) && final(self)@.wrappers.remove(*matcher) == old(self)@.wrappers.remove(*matcher)
                && final(self)@.waiting == old(self)@.waiting,
    {
        proof {
            lemma_wrappers_view_insert(self.matcher_to_wrappers@);
            if self@.wrappers.contains_key(*matcher) {
                law_removal_keeps_others_in_order(self@, *matcher, *user_id);
            }
        }
        match self.matcher_to_wrappers.get_mut(matcher) {
            None => Err("matcher does not set".to_owned()),
            Some(list) => {
                if list.is_empty() {
                    return Err("matcher has no wrappers".to_owned());
                }
                retain_other_users(list, *user_id);
                Ok(())
            },
        }
    }

    /// Lets `user_id` wait under `matcher`, reachable through `sender`; an
    /// earlier waiting user of `matcher` is replaced.
    pub fn insert_waiting_user(&mut self, matcher: &Matcher, user_id: &UserId, sender: S)
        requires
            old(self).wf(),
        ensures
            final(self).wf(),
            final(self)@ == old(self)@.with_waiting_user(*matcher, *user_id, sender),
            final(self)@.waiting == old(self)@.waiting.insert(*matcher, (*user_id, sender)),
            final(self)@.wrappers == old(self)@.wrappers,
    {
        self.matcher_to_user_id.insert(*matcher, (*user_id, sender));
    }
}

impl<R, W, S: Clone> AppState<R, W, S> {
    /// The user waiting under `matcher`, with a copy of the channel that
    /// reaches it; the entry stays.
    pub fn get_waiting_user_id(&self, matcher: &Matcher) -> (r: Option<(UserId, S)>)
        requires
            self.wf(),
        ensures
            match r {
                Some(p) => {
                    &&& self@.has_waiting_user(*matcher)
                    &&& self@.waiting.contains_key(*matcher)
                    &&& p.0 == self@.waiting[*matcher].0
                    &&& cloned(self@.waiting[*matcher].1, p.1)
                },
                None => !self@.has_waiting_user(*matcher),
            },
            r is None <==> !self@.waiting.contains_key(*matcher),
    {
        match self.matcher_to_user_id.get(matcher) {
            Some(entry) => Some((entry.0, entry.1.clone())),
            None => None,
        }
    }
}

} // verus!
