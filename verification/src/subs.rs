//! The per-connection subscription set: each subscribed target mapped to its
//! last-observed content. The dispatcher mutates it on subscribe/unsubscribe;
//! the polling engine snapshots it, re-captures each target, and records what
//! changed, emitting one push notification per observed change.

use vstd::prelude::*;
use vstd::string::*;
use crate::protocol::Notification;

verus! {

/// The map that an association list denotes, later entries shadowing earlier
/// ones (the set keeps its keys unique, so nothing is ever shadowed).
pub open spec fn map_of(s: Seq<(String, String)>) -> Map<Seq<char>, Seq<char>>
    decreases s.len(),
{
    if s.len() == 0 {
        Map::empty()
    } else {
        map_of(s.drop_last()).insert(s.last().0@, s.last().1@)
    }
}

/// No two entries share a key.
pub open spec fn unique_keys(s: Seq<(String, String)>) -> bool {
    forall|i: int, j: int| 0 <= i < j < s.len() ==> s[i].0@ != s[j].0@
}

proof fn lemma_map_of_dom(s: Seq<(String, String)>, k: Seq<char>)
    ensures
        map_of(s).contains_key(k) <==> exists|i: int| 0 <= i < s.len() && s[i].0@ == k,
    decreases s.len(),
{
    if s.len() > 0 {
        lemma_map_of_dom(s.drop_last(), k);
        if s.last().0@ == k {
            assert(s[s.len() - 1].0@ == k);
        } else if map_of(s).contains_key(k) {
            let i = choose|i: int| 0 <= i < s.drop_last().len() && s.drop_last()[i].0@ == k;
            assert(s[i].0@ == k);
        } else {
            assert forall|i: int| 0 <= i < s.len() implies s[i].0@ != k by {
                if i < s.len() - 1 {
                    assert(s.drop_last()[i].0@ == s[i].0@);
                }
            }
        }
    }
}

proof fn lemma_map_of_at(s: Seq<(String, String)>, i: int)
    requires
        unique_keys(s),
        0 <= i < s.len(),
    ensures
        map_of(s).contains_key(s[i].0@),
        map_of(s)[s[i].0@] == s[i].1@,
    decreases s.len(),
{
    if i == s.len() - 1 {
    } else {
        lemma_map_of_at(s.drop_last(), i);
        assert(s.drop_last()[i] == s[i]);
        assert(s.last().0@ != s[i].0@);
    }
}

proof fn lemma_map_of_update(s: Seq<(String, String)>, i: int, v: String)
    requires
        unique_keys(s),
        0 <= i < s.len(),
    ensures
        map_of(s.update(i, (s[i].0, v))) == map_of(s).insert(s[i].0@, v@),
    decreases s.len(),
{
    let t = s.update(i, (s[i].0, v));
    if i == s.len() - 1 {
        assert(t.drop_last() =~= s.drop_last());
        assert(t.last() == (s[i].0, v));
        assert(map_of(t) == map_of(s.drop_last()).insert(s[i].0@, v@));
        assert(map_of(s.drop_last()).insert(s[i].0@, v@) =~= map_of(s).insert(s[i].0@, v@));
    } else {
        lemma_map_of_update(s.drop_last(), i, v);
        assert(t.drop_last() =~= s.drop_last().update(i, (s[i].0, v)));
        assert(s.drop_last()[i] == s[i]);
        assert(t.last() == s.last());
        assert(map_of(t) == map_of(s.drop_last()).insert(s[i].0@, v@).insert(
            s.last().0@,
            s.last().1@,
        ));
        assert(s.last().0@ != s[i].0@);
        assert(map_of(s.drop_last()).insert(s[i].0@, v@).insert(s.last().0@, s.last().1@)
            =~= map_of(s).insert(s[i].0@, v@));
    }
}

proof fn lemma_map_of_remove(s: Seq<(String, String)>, i: int)
    requires
        unique_keys(s),
        0 <= i < s.len(),
    ensures
        map_of(s.remove(i)) == map_of(s).remove(s[i].0@),
    decreases s.len(),
{
    let t = s.remove(i);
    if i == s.len() - 1 {
        assert(t =~= s.drop_last());
        lemma_map_of_dom(s.drop_last(), s[i].0@);
        assert forall|j: int| 0 <= j < s.drop_last().len() implies s.drop_last()[j].0@
            != s[i].0@ by {
            assert(s.drop_last()[j] == s[j]);
        }
        assert(!map_of(s.drop_last()).contains_key(s[i].0@));
        assert(map_of(t) =~= map_of(s).remove(s[i].0@));
    } else {
        lemma_map_of_remove(s.drop_last(), i);
        assert(t.drop_last() =~= s.drop_last().remove(i));
        assert(t.last() == s.last());
        assert(s.drop_last()[i] == s[i]);
        assert(map_of(t) == map_of(s.drop_last()).remove(s[i].0@).insert(
            s.last().0@,
            s.last().1@,
        ));
        assert(s.last().0@ != s[i].0@);
        assert(map_of(s.drop_last()).remove(s[i].0@).insert(s.last().0@, s.last().1@) =~= map_of(
            s,
        ).remove(s[i].0@));
    }
}

/// What one poll observation does to the stored map: a changed content of a
/// still-subscribed target replaces the stored value; anything else leaves
/// the map unchanged.
pub open spec fn record_map(m: Map<Seq<char>, Seq<char>>, t: Seq<char>, c: Seq<char>) -> Map<
    Seq<char>,
    Seq<char>,
> {
    if m.contains_key(t) && m[t] != c {
        m.insert(t, c)
    } else {
        m
    }
}

/// Whether one poll observation emits a push notification: exactly when the
/// target is still subscribed and its content differs from the stored value.
pub open spec fn record_emits(m: Map<Seq<char>, Seq<char>>, t: Seq<char>, c: Seq<char>) -> bool {
    m.contains_key(t) && m[t] != c
}

/// A changed content yields exactly one notification: recording it once
/// emits, and recording the same content again does not.
pub proof fn lemma_changed_content_notifies_once(
    m: Map<Seq<char>, Seq<char>>,
    t: Seq<char>,
    c: Seq<char>,
)
    requires
        m.contains_key(t),
        m[t] != c,
    ensures
        record_emits(m, t, c),
        !record_emits(record_map(m, t, c), t, c),
{
}

/// An unchanged target yields no notification.
pub proof fn lemma_unchanged_content_is_silent(
    m: Map<Seq<char>, Seq<char>>,
    t: Seq<char>,
    c: Seq<char>,
)
    requires
        !m.contains_key(t) || m[t] == c,
    ensures
        !record_emits(m, t, c),
        record_map(m, t, c) == m,
{
}

/// After an unsubscribe, no poll observation of that target emits a
/// notification, even one that was already in flight when the unsubscribe
/// was applied.
pub proof fn lemma_no_push_after_unsubscribe(
    m: Map<Seq<char>, Seq<char>>,
    t: Seq<char>,
    c: Seq<char>,
)
    ensures
        !record_emits(m.remove(t), t, c),
        record_map(m.remove(t), t, c) == m.remove(t),
{
}

/// The subscription set of one connection: target names mapped to the
/// last-observed content of each.
pub struct SubscriptionSet {
    entries: Vec<(String, String)>,
}

impl SubscriptionSet {
    /// The map this set denotes.
    pub closed spec fn view(&self) -> Map<Seq<char>, Seq<char>> {
        map_of(self.entries@)
    }

    /// The set keeps one entry per target.
    pub closed spec fn wf(&self) -> bool {
        unique_keys(self.entries@)
    }

    /// An empty set.
    pub fn new() -> (r: SubscriptionSet)
        ensures
            r.wf(),
            r@ == Map::<Seq<char>, Seq<char>>::empty(),
    {
        SubscriptionSet { entries: Vec::new() }
    }

    /// The index holding `target`, if any.
    fn find(&self, target: &str) -> (r: Option<usize>)
        ensures
            match r {
                Some(i) => i < self.entries@.len() && self.entries@[i as int].0@ == target@,
                None => forall|i: int| 0 <= i < self.entries@.len() ==> self.entries@[i].0@ != target@,
            },
    {
        let n = self.entries.len();
        let mut i: usize = 0;
        while i < n
            invariant
                n == self.entries@.len(),
                i <= n,
                forall|j: int| 0 <= j < i ==> self.entries@[j].0@ != target@,
            decreases n - i,
        {
            if crate::text::str_eq(self.entries[i].0.as_str(), target) {
                return Some(i);
            }
            i += 1;
        }
        None
    }

    /// Starts observing `target`: the stored content becomes empty, so any
    /// captured content is treated as a change on the first poll.
    pub fn subscribe(&mut self, target: &str)
        requires
            old(self).wf(),
        ensures
            final(self).wf(),
            final(self)@ == old(self)@.insert(target@, Seq::<char>::empty()),
    {
        let found = self.find(target);
        match found {
            Some(i) => {
                let key = self.entries[i].0.clone();
                let val = String::new();
                proof {
                    lemma_map_of_update(self.entries@, i as int, val);
                }
                self.entries.set(i, (key, val));
                proof {
                    let s = old(self).entries@;
                    assert forall|p: int, q: int|
                        0 <= p < q < self.entries@.len() implies self.entries@[p].0@
                        != self.entries@[q].0@ by {
                        assert(self.entries@[p].0@ == s[p].0@);
                        assert(self.entries@[q].0@ == s[q].0@);
                    }
                }
            },
            None => {
                proof {
                    lemma_map_of_dom(self.entries@, target@);
                }
                let key = target.to_owned();
                let val = String::new();
                self.entries.push((key, val));
                proof {
                    let s = old(self).entries@;
                    assert(self.entries@.drop_last() =~= s);
                    assert(self.entries@.last().0@ == target@);
                    assert forall|p: int, q: int|
                        0 <= p < q < self.entries@.len() implies self.entries@[p].0@
                        != self.entries@[q].0@ by {
                        if q < self.entries@.len() - 1 {
                            assert(self.entries@[p] == s[p]);
                            assert(self.entries@[q] == s[q]);
                        } else {
                            assert(self.entries@[p] == s[p]);
                        }
                    }
                }
            },
        }
    }

    /// Stops observing `target`.
    pub fn unsubscribe(&mut self, target: &str)
        requires
            old(self).wf(),
        ensures
            final(self).wf(),
            final(self)@ == old(self)@.remove(target@),
    {
        let found = self.find(target);
        match found {
            Some(i) => {
                proof {
                    lemma_map_of_remove(self.entries@, i as int);
                }
                self.entries.remove(i);
                proof {
                    let s = old(self).entries@;
                    assert(self.entries@ == s.remove(i as int));
                    assert forall|p: int, q: int|
                        0 <= p < q < self.entries@.len() implies self.entries@[p].0@
                        != self.entries@[q].0@ by {
                        let p0: int = if p < i as int { p } else { p + 1 };
                        let q0: int = if q < i as int { q } else { q + 1 };
                        assert(self.entries@[p] == s[p0]);
                        assert(self.entries@[q] == s[q0]);
                    }
                }
            },
            None => {
                proof {
                    lemma_map_of_dom(self.entries@, target@);
                    assert(!old(self)@.contains_key(target@));
                    assert(old(self)@.remove(target@) =~= old(self)@);
                }
            },
        }
    }

    /// Copies the current entries out, so that the slow captures happen
    /// without holding the set.
    pub fn snapshot(&self) -> (r: Vec<(String, String)>)
        requires
            self.wf(),
        ensures
            forall|i: int|
                0 <= i < r@.len() ==> #[trigger] self@.contains_key(r@[i].0@) && self@[r@[i].0@]
                    == r@[i].1@,
            forall|k: Seq<char>|
                self@.contains_key(k) ==> exists|i: int| 0 <= i < r@.len() && #[trigger] r@[i].0@
                    == k,
    {
        let n = self.entries.len();
        let mut r: Vec<(String, String)> = Vec::new();
        let mut i: usize = 0;
        while i < n
            invariant
                self.wf(),
                n == self.entries@.len(),
                i <= n,
                r@.len() == i,
                forall|j: int|
                    0 <= j < i ==> r@[j].0@ == self.entries@[j].0@ && r@[j].1@
                        == self.entries@[j].1@,
            decreases n - i,
        {
            let k = self.entries[i].0.clone();
            let v = self.entries[i].1.clone();
            r.push((k, v));
            i += 1;
        }
        proof {
            assert forall|i2: int| 0 <= i2 < r@.len() implies #[trigger] self@.contains_key(
                r@[i2].0@,
            ) && self@[r@[i2].0@] == r@[i2].1@ by {
                lemma_map_of_at(self.entries@, i2);
            }
            assert forall|k: Seq<char>| self@.contains_key(k) implies exists|i2: int|
                0 <= i2 < r@.len() && #[trigger] r@[i2].0@ == k by {
                lemma_map_of_dom(self.entries@, k);
                let w = choose|w: int| 0 <= w < self.entries@.len() && self.entries@[w].0@ == k;
                assert(r@[w].0@ == k);
            }
        }
        r
    }

    /// Records one poll observation. Exactly when `target` is still
    /// subscribed and `content` differs byte-for-byte from the stored value,
    /// the stored value is replaced and the push notification carrying the
    /// target and the new content is returned.
    pub fn record(&mut self, target: &str, content: &str) -> (r: Option<Notification>)
        requires
            old(self).wf(),
        ensures
            final(self).wf(),
            final(self)@ == record_map(old(self)@, target@, content@),
            match r {
                Some(n) => record_emits(old(self)@, target@, content@) && n.target@ == target@
                    && n.content@ == content@,
                None => !record_emits(old(self)@, target@, content@),
            },
    {
        let found = self.find(target);
        match found {
            Some(i) => {
                proof {
                    lemma_map_of_at(self.entries@, i as int);
                }
                if crate::text::str_eq(self.entries[i].1.as_str(), content) {
                    None
                } else {
                    let key = self.entries[i].0.clone();
                    let val = content.to_owned();
                    proof {
                        lemma_map_of_update(self.entries@, i as int, val);
                    }
                    self.entries.set(i, (key, val));
                    proof {
                        let s = old(self).entries@;
                        assert forall|p: int, q: int|
                            0 <= p < q < self.entries@.len() implies self.entries@[p].0@
                            != self.entries@[q].0@ by {
                            assert(self.entries@[p].0@ == s[p].0@);
                            assert(self.entries@[q].0@ == s[q].0@);
                        }
                    }
                    Some(Notification { target: target.to_owned(), content: content.to_owned() })
                }
            },
            None => {
                proof {
                    lemma_map_of_dom(self.entries@, target@);
                }
                None
            },
        }
    }
}

/// One target's share of a polling tick, fed with what the capture returned:
/// a failed capture is silently skipped, the target stays subscribed and is
/// retried next tick; a successful capture is recorded, yielding the push
/// notification exactly when the content changed and the target is still
/// subscribed.
pub fn poll_step(subs: &mut SubscriptionSet, target: &str, captured: Result<String, String>) -> (r:
    Option<Notification>)
    requires
        old(subs).wf(),
    ensures
        final(subs).wf(),
        match captured {
            Ok(c) => {
                &&& final(subs)@ == record_map(old(subs)@, target@, c@)
                &&& match r {
                    Some(n) => record_emits(old(subs)@, target@, c@) && n.target@ == target@
                        && n.content@ == c@,
                    None => !record_emits(old(subs)@, target@, c@),
                }
            },
            Err(_) => final(subs)@ == old(subs)@ && r is None,
        },
{
    match captured {
        Ok(c) => subs.record(target, c.as_str()),
        Err(_) => None,
    }
}

} // verus!
