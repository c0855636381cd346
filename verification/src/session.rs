//! The session store: the server-side rows that keep issued tokens
//! revocable.
//!
//! A row is the composite key (user id, session id); rows are appended and
//! deleted, never updated. The store's abstract state is the set of those
//! pairs; creation fails with `Conflict` on a duplicate pair, deletion is
//! idempotent, and bulk deletion removes every row of one user.

use vstd::prelude::*;
use vstd::seq_lib::*;
use vstd::set_lib::*;

use crate::errors::StoreError;

verus! {

broadcast use vstd::set::group_set_axioms;

/// A session reference: user id plus session id, as handed around by
/// callers (for instance when logging out).
#[derive(Debug, Clone)]
pub struct SessionDTO {
    pub user_id: String,
    pub uuid: u128,
}

impl SessionDTO {
    pub fn new(user_id: String, uuid: u128) -> (r: SessionDTO)
        ensures
            r.user_id == user_id,
            r.uuid == uuid,
    {
        SessionDTO { user_id, uuid }
    }
}

/// A persisted session row.
#[derive(Debug, Clone)]
pub struct Session {
    pub user_id: String,
    pub uuid: u128,
}

/// The pair a row stands for in the store's abstract state.
pub open spec fn pair_of_row(s: Session) -> (Seq<char>, u128) {
    (s.user_id@, s.uuid)
}

/// The session store. Its abstract state (the view) is the set of
/// (user id, session id) pairs currently present.
pub struct SessionRepository {
    rows: Vec<Session>,
}

impl View for SessionRepository {
    type V = Set<(Seq<char>, u128)>;

    closed spec fn view(&self) -> Set<(Seq<char>, u128)> {
        self.pairs().to_set()
    }
}

impl SessionRepository {
    /// The rows' key pairs in storage order.
    pub closed spec fn pairs(self) -> Seq<(Seq<char>, u128)> {
        self.rows@.map_values(|s: Session| pair_of_row(s))
    }

    /// Well-formed: the composite key is unique, as a primary key is.
    pub closed spec fn wf(self) -> bool {
        self.pairs().no_duplicates()
    }

    pub fn new() -> (r: SessionRepository)
        ensures
            r.wf(),
            r@ == Set::<(Seq<char>, u128)>::empty(),
    {
        let r = SessionRepository { rows: Vec::new() };
        proof {
            assert(r.pairs() =~= Seq::<(Seq<char>, u128)>::empty());
            assert(r@ =~= Set::<(Seq<char>, u128)>::empty());
        }
        r
    }

    /// Whether the row (user id, session id) is present; the read-only
    /// revocation check.
    fn lookup(&self, user_id: &String, uuid: u128) -> (r: Option<usize>)
        ensures
            r matches Some(i) ==> i < self.pairs().len() && self.pairs()[i as int] == (
                user_id@,
                uuid,
            ),
            r is None ==> !self@.contains((user_id@, uuid)),
    {
        let mut i: usize = 0;
        let n = self.rows.len();
        while i < n
            invariant
                i <= n,
                n == self.rows.len(),
                forall|j: int| 0 <= j < i ==> #[trigger] self.pairs()[j] != (user_id@, uuid),
            decreases n - i,
        {
            if self.rows[i].user_id == *user_id && self.rows[i].uuid == uuid {
                assert(self.pairs()[i as int] == (user_id@, uuid));
                return Some(i);
            }
            assert(self.pairs()[i as int] != (user_id@, uuid));
            i += 1;
        }
        proof {
            assert forall|p: (Seq<char>, u128)| self.pairs().contains(p) implies p != (
                user_id@,
                uuid,
            ) by {}
        }
        None
    }

    /// Persists a row; fails with `Conflict` if the pair already exists,
    /// leaving the store unchanged.
    pub fn save(&mut self, session: SessionDTO) -> (r: Result<Session, StoreError>)
        requires
            old(self).wf(),
        ensures
            final(self).wf(),
            old(self)@.contains((session.user_id@, session.uuid)) ==> r == Err::<
                Session,
                StoreError,
            >(StoreError::Conflict) && final(self)@ == old(self)@,
            !old(self)@.contains((session.user_id@, session.uuid)) ==> (r matches Ok(row)
                && row.user_id@ == session.user_id@ && row.uuid == session.uuid && final(self)@
                == old(self)@.insert((session.user_id@, session.uuid))),
    {
        if self.lookup(&session.user_id, session.uuid).is_some() {
            return Err(StoreError::Conflict);
        }
        let row = Session { user_id: session.user_id, uuid: session.uuid };
        let ghost pre = self.pairs();
        let copy = Session { user_id: row.user_id.clone(), uuid: row.uuid };
        self.rows.push(row);
        proof {
            assert(self.pairs() =~= pre.push((copy.user_id@, copy.uuid)));
            assert(self.pairs().drop_last() =~= pre);
            assert(self@ =~= old(self)@.insert((copy.user_id@, copy.uuid))) by {
                assert forall|p: (Seq<char>, u128)| self.pairs().contains(p) implies pre.contains(
                    p,
                ) || p == (copy.user_id@, copy.uuid) by {
                    let i = choose|i: int|
                        0 <= i < self.pairs().len() && self.pairs()[i] == p;
                    if i < pre.len() {
                        assert(pre[i] == p);
                    }
                }
                assert forall|p: (Seq<char>, u128)| pre.contains(p) implies self.pairs().contains(
                    p,
                ) by {
                    let i = choose|i: int| 0 <= i < pre.len() && pre[i] == p;
                    assert(self.pairs()[i] == p);
                }
                assert(self.pairs()[pre.len() as int] == (copy.user_id@, copy.uuid));
                assert(self.pairs().contains((copy.user_id@, copy.uuid)));
            }
        }
        Ok(copy)
    }

    /// Whether the row is present. The read path of the revocation check;
    /// the in-memory store itself cannot fail.
    pub fn exists_session(&self, session: &SessionDTO) -> (r: Result<bool, StoreError>)
        ensures
            r == Ok::<bool, StoreError>(self@.contains((session.user_id@, session.uuid))),
    {
        Ok(self.lookup(&session.user_id, session.uuid).is_some())
    }

    /// Removes at most one row and is idempotent: absence is not an error,
    /// and the result reports how many rows (1 or 0) were removed.
    pub fn delete(&mut self, session: SessionDTO) -> (r: Result<usize, StoreError>)
        requires
            old(self).wf(),
        ensures
            final(self).wf(),
            final(self)@ == old(self)@.remove((session.user_id@, session.uuid)),
            r == Ok::<usize, StoreError>(
                if old(self)@.contains((session.user_id@, session.uuid)) {
                    1usize
                } else {
                    0usize
                },
            ),
    {
        match self.lookup(&session.user_id, session.uuid) {
            None => {
                proof {
                    assert(self@ =~= old(self)@.remove((session.user_id@, session.uuid)));
                }
                Ok(0)
            },
            Some(i) => {
                let ghost pre = self.pairs();
                let ghost target = (session.user_id@, session.uuid);
                self.rows.remove(i);
                proof {
                    assert(self.pairs() =~= pre.remove(i as int));
                    lemma_no_dup_remove_to_set(pre, i as int);
                    assert(self@ =~= old(self)@.remove(target));
                    lemma_remove_preserves_no_dup(pre, i as int);
                }
                Ok(1)
            },
        }
    }

    /// Bulk revocation: removes every row of `id` and reports the count.
    pub fn delete_by_user_id(&mut self, id: String) -> (r: Result<usize, StoreError>)
        requires
            old(self).wf(),
        ensures
            final(self).wf(),
            final(self)@ == old(self)@.filter(|p: (Seq<char>, u128)| p.0 != id@),
            r matches Ok(n) && n as nat == old(self)@.filter(
                |p: (Seq<char>, u128)| p.0 == id@,
            ).len(),
    {
        let ghost pre = self.pairs();
        let mut kept: Vec<Session> = Vec::new();
        let mut removed: usize = 0;
        let n = self.rows.len();
        let mut i: usize = 0;
        proof {
            assert(pre.take(0) =~= Seq::<(Seq<char>, u128)>::empty());
            reveal(Seq::filter);
        }
        while i < n
            invariant
                i <= n,
                n == self.rows.len(),
                self.pairs() == pre,
                removed <= i,
                kept@.map_values(|s: Session| pair_of_row(s)) =~= pre.take(i as int).filter(
                    (|p: (Seq<char>, u128)| p.0 != id@),
                ),
                removed as nat == pre.take(i as int).filter(
                    (|p: (Seq<char>, u128)| p.0 == id@),
                ).len(),
            decreases n - i,
        {
            let ghost kp = (|p: (Seq<char>, u128)| p.0 != id@);
            let ghost rp = (|p: (Seq<char>, u128)| p.0 == id@);
            proof {
                assert(pre.take(i + 1) =~= pre.take(i as int) + seq![pre[i as int]]);
                Seq::filter_distributes_over_add(pre.take(i as int), seq![pre[i as int]], kp);
                Seq::filter_distributes_over_add(pre.take(i as int), seq![pre[i as int]], rp);
                lemma_filter_singleton(pre[i as int], kp);
                lemma_filter_singleton(pre[i as int], rp);
            }
            let row = &self.rows[i];
            if row.user_id == id {
                removed = removed + 1;
                proof {
                    assert(pre.take(i + 1).filter(kp) =~= pre.take(i as int).filter(kp));
                }
            } else {
                let copy = Session { user_id: row.user_id.clone(), uuid: row.uuid };
                kept.push(copy);
                proof {
                    assert(kept@.map_values(|s: Session| pair_of_row(s)) =~= pre.take(
                        i as int,
                    ).filter(kp).push(pre[i as int]));
                    assert(pre.take(i + 1).filter(rp) =~= pre.take(i as int).filter(rp));
                }
            }
            i += 1;
        }
        proof {
            assert(pre.take(n as int) =~= pre);
        }
        self.rows = kept;
        proof {
            let kp = (|p: (Seq<char>, u128)| p.0 != id@);
            let rp = (|p: (Seq<char>, u128)| p.0 == id@);
            lemma_filter_preserves_no_dup(pre, kp);
            lemma_filter_to_set(pre, kp);
            assert(self@ == old(self)@.filter(kp));
            lemma_filter_preserves_no_dup(pre, rp);
            lemma_filter_to_set(pre, rp);
            pre.filter(rp).unique_seq_to_set();
            assert(removed as nat == old(self)@.filter(rp).len());
        }
        Ok(removed)
    }
}

/// Deletion is idempotent: after a first `delete` of a pair (which removes
/// the row if present), a repeated `delete` finds nothing, removes 0 rows,
/// and raises no error — the state is unchanged.
pub proof fn lemma_delete_idempotent(
    s0: Set<(Seq<char>, u128)>,
    s1: Set<(Seq<char>, u128)>,
    s2: Set<(Seq<char>, u128)>,
    p: (Seq<char>, u128),
)
    requires
        s1 == s0.remove(p),
        s2 == s1.remove(p),
    ensures
        !s1.contains(p),
        s2 == s1,
{
    broadcast use vstd::set::group_set_axioms;

    assert(s2 =~= s1);
}

/// Bulk revocation removes every session of the given user and no other:
/// afterwards no pair of that user remains, while every pair of any other
/// user is untouched.
pub proof fn lemma_bulk_revoke(
    pre: Set<(Seq<char>, u128)>,
    post: Set<(Seq<char>, u128)>,
    uid: Seq<char>,
)
    requires
        post == pre.filter(|p: (Seq<char>, u128)| p.0 != uid),
    ensures
        forall|sid: u128| !post.contains((uid, sid)),
        forall|p: (Seq<char>, u128)| pre.contains(p) && p.0 != uid ==> post.contains(p),
        forall|p: (Seq<char>, u128)| post.contains(p) ==> pre.contains(p),
{
    broadcast use vstd::set::group_set_axioms;

}

/// Two logins for one user with distinct session ids stand side by side:
/// both rows exist, and revoking either leaves the other in place.
pub proof fn lemma_sessions_independent(
    s0: Set<(Seq<char>, u128)>,
    s1: Set<(Seq<char>, u128)>,
    s2: Set<(Seq<char>, u128)>,
    uid: Seq<char>,
    sid1: u128,
    sid2: u128,
)
    requires
        sid1 != sid2,
        s1 == s0.insert((uid, sid1)),
        s2 == s1.insert((uid, sid2)),
    ensures
        s2.contains((uid, sid1)),
        s2.contains((uid, sid2)),
        s2.remove((uid, sid1)).contains((uid, sid2)),
        s2.remove((uid, sid2)).contains((uid, sid1)),
{
    broadcast use vstd::set::group_set_axioms;

}

/// Filtering a one-element sequence keeps or drops that element.
proof fn lemma_filter_singleton<A>(x: A, pred: spec_fn(A) -> bool)
    ensures
        pred(x) ==> seq![x].filter(pred) =~= seq![x],
        !pred(x) ==> seq![x].filter(pred) =~= Seq::<A>::empty(),
{
    reveal_with_fuel(Seq::filter, 2);
    assert(seq![x].drop_last() =~= Seq::<A>::empty());
    assert(seq![x].last() == x);
}

/// Every element of a filtered sequence comes from the original.
proof fn lemma_filter_subset<A>(s: Seq<A>, pred: spec_fn(A) -> bool)
    ensures
        forall|x: A| #[trigger] s.filter(pred).contains(x) ==> s.contains(x),
    decreases s.len(),
{
    reveal(Seq::filter);
    if s.len() > 0 {
        lemma_filter_subset(s.drop_last(), pred);
        assert forall|x: A| #[trigger] s.filter(pred).contains(x) implies s.contains(x) by {
            if s.drop_last().filter(pred).contains(x) {
                let i = choose|i: int|
                    0 <= i < s.drop_last().len() && s.drop_last()[i] == x;
                assert(s[i] == x);
            } else {
                assert(x == s.last());
                assert(s[s.len() - 1] == x);
            }
        }
    }
}

/// Filtering preserves uniqueness of the elements.
proof fn lemma_filter_preserves_no_dup<A>(s: Seq<A>, pred: spec_fn(A) -> bool)
    requires
        s.no_duplicates(),
    ensures
        s.filter(pred).no_duplicates(),
    decreases s.len(),
{
    reveal(Seq::filter);
    if s.len() > 0 {
        let t = s.drop_last();
        assert(t.no_duplicates());
        lemma_filter_preserves_no_dup(t, pred);
        if pred(s.last()) {
            lemma_filter_subset(t, pred);
            assert(!t.filter(pred).contains(s.last())) by {
                if t.filter(pred).contains(s.last()) {
                    let i = choose|i: int| 0 <= i < t.len() && t[i] == s.last();
                    assert(s[i] == s[s.len() - 1]);
                }
            }
            assert(s.filter(pred) =~= t.filter(pred).push(s.last()));
            unique_push(t.filter(pred), s.last());
        }
    }
}

/// Membership in a filtered sequence's set matches the set-level filter.
proof fn lemma_filter_to_set<A>(s: Seq<A>, pred: spec_fn(A) -> bool)
    ensures
        s.filter(pred).to_set() == s.to_set().filter(pred),
{
    lemma_filter_subset(s, pred);
    assert(s.filter(pred).to_set() =~= s.to_set().filter(pred)) by {
        assert forall|x: A| s.to_set().filter(pred).contains(x) implies s.filter(
            pred,
        ).to_set().contains(x) by {
            let i = choose|i: int| 0 <= i < s.len() && s[i] == x;
            Seq::lemma_filter_contains(s, pred, i);
        }
        assert forall|x: A| s.filter(pred).to_set().contains(x) implies s.to_set().filter(
            pred,
        ).contains(x) by {
            let i = choose|i: int| 0 <= i < s.filter(pred).len() && s.filter(pred)[i] == x;
            Seq::lemma_filter_pred(s, pred, i);
        }
    }
}

/// Removing the only index holding a pair removes exactly that pair from
/// the set of pairs.
proof fn lemma_no_dup_remove_to_set<A>(s: Seq<A>, i: int)
    requires
        s.no_duplicates(),
        0 <= i < s.len(),
    ensures
        s.remove(i).to_set() == s.to_set().remove(s[i]),
{
    let t = s.remove(i);
    assert(t.to_set() =~= s.to_set().remove(s[i])) by {
        assert forall|x: A| t.to_set().contains(x) implies s.to_set().contains(x) && x != s[i] by {
            let j = choose|j: int| 0 <= j < t.len() && t[j] == x;
            if j < i {
                assert(s[j] == x);
                assert(j != i);
            } else {
                assert(s[j + 1] == x);
                assert(j + 1 != i);
            }
        }
        assert forall|x: A| s.to_set().contains(x) && x != s[i] implies t.to_set().contains(x) by {
            let j = choose|j: int| 0 <= j < s.len() && s[j] == x;
            if j < i {
                assert(t[j] == x);
            } else {
                assert(j != i);
                assert(t[j - 1] == x);
            }
        }
    }
}

/// Removing an index keeps the remaining elements unique.
proof fn lemma_remove_preserves_no_dup<A>(s: Seq<A>, i: int)
    requires
        s.no_duplicates(),
        0 <= i < s.len(),
    ensures
        s.remove(i).no_duplicates(),
{
    let t = s.remove(i);
    assert forall|a: int, b: int| 0 <= a < b < t.len() implies t[a] != t[b] by {
        let sa: int = if a < i {
            a
        } else {
            a + 1
        };
        let sb: int = if b < i {
            b
        } else {
            b + 1
        };
        assert(t[a] == s[sa]);
        assert(t[b] == s[sb]);
    }
}

/// Helper: pushing a fresh element keeps a sequence duplicate-free.
proof fn unique_push<A>(s: Seq<A>, x: A)
    requires
        s.no_duplicates(),
        !s.contains(x),
    ensures
        s.push(x).no_duplicates(),
{
    let t = s.push(x);
    assert forall|a: int, b: int| 0 <= a < b < t.len() implies t[a] != t[b] by {
        if b < t.len() - 1 {
            assert(t[a] == s[a] && t[b] == s[b]);
        } else {
            assert(t[b] == x);
            assert(t[a] == s[a]);
            assert(s.contains(s[a]));
        }
    }
}

} // verus!
