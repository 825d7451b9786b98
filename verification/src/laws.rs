use vstd::prelude::*;

use crate::app_state::{
    is_first_of_user, lemma_first_of_user_exists, of_other_user, AppStateModel, PeerConnectionEntry,
};
use crate::matcher::Matcher;
use crate::types::UserId;

verus! {

/// A user who was just let wait under a matcher is found waiting there, with
/// the channel it was given; the other matchers and the peer connections are
/// as they were.
pub proof fn law_waiting_user_read_after_insert<R, W, S>(
    s: AppStateModel<R, W, S>,
    m: Matcher,
    user_id: UserId,
    sender: S,
    other: Matcher,
)
    requires
        other != m,
    ensures
        s.with_waiting_user(m, user_id, sender).has_waiting_user(m),
        s.with_waiting_user(m, user_id, sender).waiting_user(m) == Some((user_id, sender)),
        s.with_waiting_user(m, user_id, sender).waiting_user(other) == s.waiting_user(other),
        s.with_waiting_user(m, user_id, sender).wrappers == s.wrappers,
{
}

/// Taking the waiting user of a matcher by the id it was let wait with hands
/// back what was put there, and leaves the state as if it had never waited
/// there.
pub proof fn law_waiting_user_taken_by_its_id<R, W, S>(
    s: AppStateModel<R, W, S>,
    m: Matcher,
    user_id: UserId,
    sender: S,
)
    ensures
        s.with_waiting_user(m, user_id, sender).waiting_user_by_id(m, user_id) == Some(
            (user_id, sender),
        ),
        s.with_waiting_user(m, user_id, sender).with_waiting_removed(m) == s.with_waiting_removed(
            m,
        ),
{
    assert(s.with_waiting_user(m, user_id, sender).waiting.remove(m) =~= s.waiting.remove(m));
}

/// Whatever id it is asked for, taking the waiting user of a matcher leaves
/// nobody waiting there; it hands back nothing for an id other than the
/// waiting one.
pub proof fn law_taking_waiting_user_empties_matcher<R, W, S>(
    s: AppStateModel<R, W, S>,
    m: Matcher,
    user_id: UserId,
)
    ensures
        !s.with_waiting_removed(m).has_waiting_user(m),
        s.has_waiting_user(m) && s.waiting[m].0 != user_id ==> s.waiting_user_by_id(m, user_id)
            is None,
        !s.has_waiting_user(m) ==> s.waiting_user_by_id(m, user_id) is None,
{
}

/// A peer connection that joins the line under a matcher goes to its end:
/// the line is then not empty, its oldest connection is the one that was
/// oldest before (or the new one, if the line was empty), and the new one can
/// be found by its user id. Waiting users are untouched.
pub proof fn law_wrapper_line_is_first_in_first_out<R, W, S>(
    s: AppStateModel<R, W, S>,
    m: Matcher,
    user_id: UserId,
    wrapper: W,
)
    ensures
        s.with_wrapper_inserted(m, user_id, wrapper).has_waiting_peer_connection_wrapper(m),
        s.has_waiting_peer_connection_wrapper(m) ==> s.with_wrapper_inserted(
            m,
            user_id,
            wrapper,
        ).waiting_user_id_from_wrappers(m) == s.waiting_user_id_from_wrappers(m),
        !s.has_waiting_peer_connection_wrapper(m) ==> s.with_wrapper_inserted(
            m,
            user_id,
            wrapper,
        ).waiting_user_id_from_wrappers(m) == Some(user_id),
        s.with_wrapper_inserted(m, user_id, wrapper).has_wrapper_of_user(m, user_id),
        s.with_wrapper_inserted(m, user_id, wrapper).waiting == s.waiting,
{
    let t = s.with_wrapper_inserted(m, user_id, wrapper);
    let old_line = s.wrappers_of(m);
    let line = t.wrappers_of(m);
    assert(line == old_line.push(PeerConnectionEntry { user_id, wrapper }));
    if exists|j: int| is_first_of_user(old_line, user_id, j) {
        let j = choose|j: int| is_first_of_user(old_line, user_id, j);
        assert(is_first_of_user(line, user_id, j));
    } else {
        let n = old_line.len() as int;
        assert forall|i: int| 0 <= i < n implies line[i].user_id != user_id by {
            if old_line[i].user_id == user_id {
                lemma_first_of_user_exists(old_line, user_id, i);
            }
        }
        assert(is_first_of_user(line, user_id, n));
    }
}

/// A peer connection joining the line under one matcher leaves the line
/// under every other matcher as it was.
pub proof fn law_wrapper_insert_keeps_other_matchers<R, W, S>(
    s: AppStateModel<R, W, S>,
    m: Matcher,
    user_id: UserId,
    wrapper: W,
    other: Matcher,
)
    requires
        other != m,
    ensures
        s.with_wrapper_inserted(m, user_id, wrapper).wrappers_of(other) == s.wrappers_of(other),
        s.with_wrapper_inserted(m, user_id, wrapper).has_waiting_peer_connection_wrapper(other)
            == s.has_waiting_peer_connection_wrapper(other),
{
}

/// After the peer connections of a user leave the line under a matcher, none
/// of that user is found there; every connection of another user stays, and
/// nothing else is left. Other matchers and the waiting users are untouched.
pub proof fn law_removed_user_leaves_line<R, W, S>(
    s: AppStateModel<R, W, S>,
    m: Matcher,
    user_id: UserId,
    other: Matcher,
)
    requires
        s.has_waiting_peer_connection_wrapper(m),
        other != m,
    ensures
        !s.with_user_wrappers_removed(m, user_id).has_wrapper_of_user(m, user_id),
        forall|e: PeerConnectionEntry<W>|
            #![trigger s.wrappers[m].contains(e)]
            s.wrappers[m].contains(e) && e.user_id != user_id ==> s.with_user_wrappers_removed(
                m,
                user_id,
            ).wrappers[m].contains(e),
        forall|e: PeerConnectionEntry<W>|
            #![trigger s.with_user_wrappers_removed(m, user_id).wrappers[m].contains(e)]
            s.with_user_wrappers_removed(m, user_id).wrappers[m].contains(e) ==> s.wrappers[m].contains(
                e,
            ) && e.user_id != user_id,
        s.with_user_wrappers_removed(m, user_id).wrappers_of(other) == s.wrappers_of(other),
        s.with_user_wrappers_removed(m, user_id).waiting == s.waiting,
{
    broadcast use vstd::seq_lib::group_filter_ensures;

    let line = s.wrappers[m];
    let p = of_other_user::<W>(user_id);
    let kept = line.filter(p);
    let t = s.with_user_wrappers_removed(m, user_id);
    assert(t.wrappers_of(m) == kept);
    assert forall|j: int| !is_first_of_user(kept, user_id, j) by {
        if 0 <= j < kept.len() {
            assert(p(kept[j]));
        }
    }
    assert forall|e: PeerConnectionEntry<W>| #[trigger] line.contains(e) && e.user_id != user_id
        implies kept.contains(e) by {
        let i = choose|i: int| 0 <= i < line.len() && line[i] == e;
        assert(p(line[i]));
    }
    assert forall|e: PeerConnectionEntry<W>| #[trigger] kept.contains(e) implies line.contains(e)
        && e.user_id != user_id by {
        line.lemma_filter_contains_rev(p, e);
        let i = choose|i: int| 0 <= i < kept.len() && kept[i] == e;
        assert(p(kept[i]));
    }
}

/// Using the found peer connection of a user in place keeps it where it
/// was: it is still the user's oldest connection under the matcher, and it
/// holds what was written through the reference.
pub proof fn law_found_wrapper_stays_in_place<R, W, S>(
    s: AppStateModel<R, W, S>,
    m: Matcher,
    user_id: UserId,
    written: W,
)
    requires
        s.has_wrapper_of_user(m, user_id),
    ensures
        ({
            let j = s.first_wrapper_index(m, user_id);
            let t = s.with_wrapper_replaced(m, j, written);
            &&& t.has_wrapper_of_user(m, user_id)
            &&& t.first_wrapper_index(m, user_id) == j
            &&& t.wrappers[m][j].wrapper == written
            &&& t.wrappers[m].len() == s.wrappers[m].len()
            &&& t.waiting == s.waiting
        }),
{
    let j = s.first_wrapper_index(m, user_id);
    let t = s.with_wrapper_replaced(m, j, written);
    assert(s.wrappers.contains_key(m));
    assert(is_first_of_user(t.wrappers_of(m), user_id, j));
    let c = choose|c: int| is_first_of_user(t.wrappers_of(m), user_id, c);
    assert(c == j);
}

/// Clearing the peer connections leaves no line under any matcher and the
/// waiting users as they were; clearing the waiting users leaves nobody
/// waiting and the peer connections as they were.
pub proof fn law_clearing_one_side_keeps_the_other<R, W, S>(s: AppStateModel<R, W, S>, m: Matcher)
    ensures
        !s.with_wrappers_cleared().has_waiting_peer_connection_wrapper(m),
        s.with_wrappers_cleared().waiting == s.waiting,
        !s.with_waiting_cleared().has_waiting_user(m),
        s.with_waiting_cleared().wrappers == s.wrappers,
{
}

/// A line in which every entry passes `p` is kept whole by filtering on `p`.
pub proof fn lemma_filter_keeps_all<A>(s: Seq<A>, p: spec_fn(A) -> bool)
    requires
        forall|i: int| 0 <= i < s.len() ==> p(s[i]),
    ensures
        s.filter(p) == s,
    decreases s.len(),
{
    reveal(Seq::filter);
    if s.len() > 0 {
        lemma_filter_keeps_all(s.drop_last(), p);
        assert(s.drop_last().push(s.last()) =~= s);
    }
}

/// A line in which no entry passes `p` is emptied by filtering on `p`.
pub proof fn lemma_filter_drops_all<A>(s: Seq<A>, p: spec_fn(A) -> bool)
    requires
        forall|i: int| 0 <= i < s.len() ==> !p(s[i]),
    ensures
        s.filter(p).len() == 0,
    decreases s.len(),
{
    reveal(Seq::filter);
    if s.len() > 0 {
        lemma_filter_drops_all(s.drop_last(), p);
    }
}

/// Filtering on `p` starts with the first entry that passes `p`.
pub proof fn lemma_filter_starts_with_first_kept<A>(s: Seq<A>, p: spec_fn(A) -> bool, j: int)
    requires
        0 <= j < s.len(),
        p(s[j]),
        forall|i: int| 0 <= i < j ==> !p(s[i]),
    ensures
        s.filter(p).len() > 0,
        s.filter(p)[0] == s[j],
    decreases s.len(),
{
    reveal(Seq::filter);
    let d = s.drop_last();
    if j == s.len() - 1 {
        lemma_filter_drops_all(d, p);
    } else {
        lemma_filter_starts_with_first_kept(d, p, j);
    }
}

/// Who waits under a matcher, and whether anybody does, is read from the
/// waiting list alone: the entry stored for the matcher, or nothing when the
/// list has no entry for it, whatever peer connections wait there.
pub proof fn law_waiting_user_comes_from_waiting_list<R, W, S>(
    s: AppStateModel<R, W, S>,
    m: Matcher,
    lines: Map<Matcher, Seq<PeerConnectionEntry<W>>>,
)
    ensures
        s.has_waiting_user(m) <==> s.waiting.contains_key(m),
        !s.waiting.contains_key(m) ==> s.waiting_user(m) is None,
        s.waiting.contains_key(m) ==> s.waiting_user(m) == Some(s.waiting[m]),
        (AppStateModel { wrappers: lines, ..s }).waiting_user(m) == s.waiting_user(m),
        (AppStateModel { wrappers: lines, ..s }).has_waiting_user(m) == s.has_waiting_user(m),
{
}

/// Taking the waiting user by id hands back the stored entry exactly when it
/// belongs to that id; the matcher's entry is removed from the waiting list,
/// and nothing else changes.
pub proof fn law_taking_waiting_user_by_id<R, W, S>(s: AppStateModel<R, W, S>, m: Matcher, user_id: UserId)
    ensures
        s.waiting_user_by_id(m, user_id) is Some <==> (s.waiting.contains_key(m)
            && s.waiting[m].0 == user_id),
        s.waiting_user_by_id(m, user_id) matches Some(p) ==> p == s.waiting[m],
        s.with_waiting_removed(m).waiting == s.waiting.remove(m),
        s.with_waiting_removed(m).wrappers == s.wrappers,
        s.with_waiting_removed(m).web_rtc_wrapper == s.web_rtc_wrapper,
{
}

/// Letting a user wait stores it under the matcher and touches nothing else;
/// clearing a side empties it and touches nothing else.
pub proof fn law_waiting_list_updates<R, W, S>(
    s: AppStateModel<R, W, S>,
    m: Matcher,
    user_id: UserId,
    sender: S,
)
    ensures
        s.with_waiting_user(m, user_id, sender).waiting == s.waiting.insert(m, (user_id, sender)),
        s.with_waiting_user(m, user_id, sender).wrappers == s.wrappers,
        s.with_waiting_user(m, user_id, sender).web_rtc_wrapper == s.web_rtc_wrapper,
        s.with_waiting_cleared().waiting == Map::<Matcher, (UserId, S)>::empty(),
        s.with_waiting_cleared().wrappers == s.wrappers,
        s.with_wrappers_cleared().wrappers == Map::<Matcher, Seq<PeerConnectionEntry<W>>>::empty(),
        s.with_wrappers_cleared().waiting == s.waiting,
{
}

/// A peer connection waits under a matcher exactly when the line stored for
/// it is not empty, and the oldest waiting user is the user of the line's
/// first entry; with no entry, or an empty one, nobody is reported, whoever
/// is in the waiting list.
pub proof fn law_oldest_connection_comes_from_line<R, W, S>(
    s: AppStateModel<R, W, S>,
    m: Matcher,
    waiting: Map<Matcher, (UserId, S)>,
)
    ensures
        s.has_waiting_peer_connection_wrapper(m) <==> (s.wrappers.contains_key(m)
            && s.wrappers[m].len() > 0),
        !(s.wrappers.contains_key(m) && s.wrappers[m].len() > 0)
            ==> s.waiting_user_id_from_wrappers(m) is None,
        s.wrappers.contains_key(m) && s.wrappers[m].len() > 0 ==> s.waiting_user_id_from_wrappers(m)
            == Some(s.wrappers[m][0].user_id),
        s.wrappers.contains_key(m) ==> s.wrappers_of(m) == s.wrappers[m],
        !s.wrappers.contains_key(m) ==> s.wrappers_of(m).len() == 0,
        (AppStateModel { waiting, ..s }).waiting_user_id_from_wrappers(m)
            == s.waiting_user_id_from_wrappers(m),
{
}

/// A connection that joins the line under a matcher is appended: the line
/// grows by one, every entry that was there stays at its place, and the new
/// one is last. Other matchers and the waiting list are untouched.
pub proof fn law_insert_appends_to_line<R, W, S>(
    s: AppStateModel<R, W, S>,
    m: Matcher,
    user_id: UserId,
    wrapper: W,
)
    ensures
        ({
            let t = s.with_wrapper_inserted(m, user_id, wrapper);
            let n = if s.wrappers.contains_key(m) {
                s.wrappers[m].len()
            } else {
                0
            };
            &&& t.wrappers.contains_key(m)
            &&& t.wrappers[m].len() == n + 1
            &&& forall|i: int| 0 <= i < n ==> #[trigger] t.wrappers[m][i] == s.wrappers[m][i]
            &&& t.wrappers[m][n as int] == (PeerConnectionEntry { user_id, wrapper })
            &&& t.wrappers.remove(m) == s.wrappers.remove(m)
            &&& t.waiting == s.waiting
        }),
{
    let t = s.with_wrapper_inserted(m, user_id, wrapper);
    assert(t.wrappers.remove(m) =~= s.wrappers.remove(m));
}

/// A user has a waiting connection under a matcher exactly when some entry of
/// the line stored for it has the user's id; the connection that is found is
/// the first such entry.
pub proof fn law_search_covers_whole_line<R, W, S>(s: AppStateModel<R, W, S>, m: Matcher, user_id: UserId)
    ensures
        s.has_wrapper_of_user(m, user_id) <==> (s.wrappers.contains_key(m) && exists|j: int|
            0 <= j < s.wrappers[m].len() && #[trigger] s.wrappers[m][j].user_id == user_id),
        s.has_wrapper_of_user(m, user_id) ==> ({
            let j = s.first_wrapper_index(m, user_id);
            &&& 0 <= j < s.wrappers[m].len()
            &&& s.wrappers[m][j].user_id == user_id
            &&& forall|i: int| 0 <= i < j ==> #[trigger] s.wrappers[m][i].user_id != user_id
        }),
{
    if s.wrappers.contains_key(m) && exists|j: int|
        0 <= j < s.wrappers[m].len() && #[trigger] s.wrappers[m][j].user_id == user_id {
        let j = choose|j: int| 0 <= j < s.wrappers[m].len() && #[trigger] s.wrappers[m][j].user_id == user_id;
        lemma_first_of_user_exists(s.wrappers[m], user_id, j);
        assert(s.wrappers_of(m) == s.wrappers[m]);
        assert(s.has_wrapper_of_user(m, user_id));
    }
    if s.has_wrapper_of_user(m, user_id) {
        let j = s.first_wrapper_index(m, user_id);
        assert(is_first_of_user(s.wrappers_of(m), user_id, j));
        assert(s.wrappers.contains_key(m));
        assert(s.wrappers[m][j].user_id == user_id);
    }
}

/// Writing through a found connection changes only that connection's
/// wrapper: the line keeps its length and every other entry, the entry keeps
/// its user, and nothing else changes.
pub proof fn law_replacing_changes_one_wrapper<R, W, S>(
    s: AppStateModel<R, W, S>,
    m: Matcher,
    j: int,
    wrapper: W,
)
    requires
        s.wrappers.contains_key(m),
        0 <= j < s.wrappers[m].len(),
    ensures
        ({
            let t = s.with_wrapper_replaced(m, j, wrapper);
            &&& t.wrappers.contains_key(m)
            &&& t.wrappers[m].len() == s.wrappers[m].len()
            &&& t.wrappers[m][j] == (PeerConnectionEntry { user_id: s.wrappers[m][j].user_id, wrapper })
            &&& forall|i: int| 0 <= i < s.wrappers[m].len() && i != j ==> #[trigger] t.wrappers[m][i]
                == s.wrappers[m][i]
            &&& t.wrappers.remove(m) == s.wrappers.remove(m)
            &&& t.waiting == s.waiting
        }),
{
    let t = s.with_wrapper_replaced(m, j, wrapper);
    assert(t.wrappers.remove(m) =~= s.wrappers.remove(m));
}

/// Removing a user's connections from a line keeps the connections of the
/// other users, in their old order, and only those: the line becomes the old
/// line filtered on "another user". So the line is unchanged when the user had
/// no connection there, its oldest entry becomes the first entry of another
/// user in the old line, and nobody is reported waiting once every entry
/// belonged to the removed user. Other matchers and the waiting list are
/// untouched.
pub proof fn law_removal_keeps_others_in_order<R, W, S>(
    s: AppStateModel<R, W, S>,
    m: Matcher,
    user_id: UserId,
)
    requires
        s.wrappers.contains_key(m),
    ensures
        ({
            let t = s.with_user_wrappers_removed(m, user_id);
            let line = s.wrappers[m];
            &&& t.wrappers.contains_key(m)
            &&& t.wrappers[m] == line.filter((|e: PeerConnectionEntry<W>| e.user_id != user_id))
            &&& (forall|i: int| 0 <= i < line.len() ==> #[trigger] line[i].user_id != user_id)
                ==> t.wrappers[m] == line
            &&& forall|j: int|
                0 <= j < line.len() && #[trigger] line[j].user_id != user_id && (forall|i: int|
                    0 <= i < j ==> line[i].user_id == user_id) ==> t.wrappers[m].len() > 0
                    && t.wrappers[m][0] == line[j]
            &&& (forall|i: int| 0 <= i < line.len() ==> #[trigger] line[i].user_id == user_id)
                ==> t.waiting_user_id_from_wrappers(m) is None
            &&& t.wrappers.remove(m) == s.wrappers.remove(m)
            &&& t.waiting == s.waiting
        }),
{
    let t = s.with_user_wrappers_removed(m, user_id);
    let line = s.wrappers[m];
    let q = |e: PeerConnectionEntry<W>| e.user_id != user_id;
    assert(of_other_user::<W>(user_id) =~= q);
    assert(t.wrappers[m] == line.filter(q));
    if forall|i: int| 0 <= i < line.len() ==> #[trigger] line[i].user_id != user_id {
        lemma_filter_keeps_all(line, q);
    }
    assert forall|j: int|
        0 <= j < line.len() && #[trigger] line[j].user_id != user_id && (forall|i: int|
            0 <= i < j ==> line[i].user_id == user_id) implies t.wrappers[m].len() > 0
        && t.wrappers[m][0] == line[j] by {
        lemma_filter_starts_with_first_kept(line, q, j);
    }
    if forall|i: int| 0 <= i < line.len() ==> #[trigger] line[i].user_id == user_id {
        lemma_filter_drops_all(line, q);
    }
    assert(t.wrappers.remove(m) =~= s.wrappers.remove(m));
}

} // verus!
