//! Idle connections that are kept for reuse.

use vstd::prelude::*;

verus! {

/// The number of idle connections kept per upstream.
pub const MAX_IDLE_PER_HOST: usize = 8;

/// How long an idle connection is kept: 30 seconds, in nanoseconds.
pub const IDLE_TIMEOUT: u64 = 30_000_000_000;

/// An idle connection, and when it became idle.
pub struct Pooled<T> {
    pub stream: T,
    pub added_at: u64,
}

/// The idle connections to one upstream.
struct Host<T> {
    upstream: String,
    idle: Vec<Pooled<T>>,
}

/// Idle connections by upstream: reconnecting to one within a short time costs neither a connect
/// nor a handshake.
pub struct ConnectionPool<T> {
    hosts: Vec<Host<T>>,
}

/// Whether an idle connection may be reused.
pub open spec fn is_fresh<T>(pooled: Pooled<T>, now: u64) -> bool {
    now < pooled.added_at + IDLE_TIMEOUT
}

/// The index of the last connection that may be reused, or -1.
pub open spec fn last_fresh<T>(idle: Seq<Pooled<T>>, now: u64) -> int
    decreases idle.len(),
{
    if idle.len() == 0 {
        -1
    } else if is_fresh(idle.last(), now) {
        idle.len() - 1
    } else {
        last_fresh(idle.drop_last(), now)
    }
}

/// The index of an upstream in a list of them, or the length of the list.
spec fn position<T>(hosts: Seq<Host<T>>, upstream: Seq<char>) -> int
    decreases hosts.len(),
{
    if hosts.len() == 0 || hosts[0].upstream@ == upstream {
        0
    } else {
        1 + position(hosts.skip(1), upstream)
    }
}

proof fn lemma_position<T>(hosts: Seq<Host<T>>, upstream: Seq<char>, at: int)
    requires
        0 <= at <= hosts.len(),
        at < hosts.len() ==> hosts[at].upstream@ == upstream,
        forall|i: int| 0 <= i < at ==> (#[trigger] hosts[i]).upstream@ != upstream,
    ensures
        position(hosts, upstream) == at,
    decreases hosts.len(),
{
    if at > 0 {
        let rest = hosts.skip(1);
        assert(hosts[0].upstream@ != upstream);
        assert forall|i: int| 0 <= i < at - 1 implies (#[trigger] rest[i]).upstream@ != upstream by {
            assert(rest[i] == hosts[i + 1]);
        }
        lemma_position(rest, upstream, at - 1);
    }
}

impl<T> ConnectionPool<T> {
    /// No upstream is listed twice.
    pub closed spec fn well_formed(&self) -> bool {
        forall|i: int, j: int|
            0 <= i < j < self.hosts@.len() ==> (#[trigger] self.hosts@[i]).upstream@ != (
            #[trigger] self.hosts@[j]).upstream@
    }

    /// The idle connections to an upstream, the one that became idle last behind the others.
    pub closed spec fn idle(&self, upstream: Seq<char>) -> Seq<Pooled<T>> {
        let at = position(self.hosts@, upstream);
        if 0 <= at < self.hosts@.len() {
            self.hosts@[at].idle@
        } else {
            Seq::empty()
        }
    }
}

impl<T> ConnectionPool<T> {
    proof fn lemma_listed(&self, i: int)
        requires
            self.well_formed(),
            0 <= i < self.hosts@.len(),
        ensures
            self.idle(self.hosts@[i].upstream@) == self.hosts@[i].idle@,
    {
        assert forall|j: int| 0 <= j < i implies (#[trigger] self.hosts@[j]).upstream@
            != self.hosts@[i].upstream@ by {}
        lemma_position(self.hosts@, self.hosts@[i].upstream@, i);
    }

    proof fn lemma_unlisted(&self, upstream: Seq<char>)
        requires
            forall|i: int|
                0 <= i < self.hosts@.len() ==> (#[trigger] self.hosts@[i]).upstream@ != upstream,
        ensures
            self.idle(upstream).len() == 0,
    {
        lemma_position(self.hosts@, upstream, self.hosts@.len() as int);
    }

    /// Two pools that list the same connections to an upstream, or none, hold the same for it.
    proof fn lemma_same(&self, other: &Self, upstream: Seq<char>)
        requires
            self.well_formed(),
            other.well_formed(),
            forall|i: int|
                0 <= i < self.hosts@.len() && (#[trigger] self.hosts@[i]).upstream@ == upstream
                    ==> exists|j: int|
                    0 <= j < other.hosts@.len() && (#[trigger] other.hosts@[j]).upstream@
                        == upstream && other.hosts@[j].idle@ == self.hosts@[i].idle@,
            forall|j: int|
                0 <= j < other.hosts@.len() && (#[trigger] other.hosts@[j]).upstream@ == upstream
                    ==> exists|i: int|
                    0 <= i < self.hosts@.len() && (#[trigger] self.hosts@[i]).upstream@
                        == upstream,
        ensures
            self.idle(upstream) == other.idle(upstream),
    {
        if exists|i: int|
            0 <= i < self.hosts@.len() && (#[trigger] self.hosts@[i]).upstream@ == upstream {
            let i = choose|i: int|
                0 <= i < self.hosts@.len() && (#[trigger] self.hosts@[i]).upstream@ == upstream;
            let j = choose|j: int|
                0 <= j < other.hosts@.len() && (#[trigger] other.hosts@[j]).upstream@ == upstream
                    && other.hosts@[j].idle@ == self.hosts@[i].idle@;
            self.lemma_listed(i);
            other.lemma_listed(j);
        } else {
            self.lemma_unlisted(upstream);
            other.lemma_unlisted(upstream);
            assert(self.idle(upstream) =~= other.idle(upstream));
        }
    }

    /// A pool without connections.
    pub fn new() -> (pool: Self)
        ensures
            pool.well_formed(),
            forall|upstream: Seq<char>| (#[trigger] pool.idle(upstream)).len() == 0,
    {
        ConnectionPool { hosts: Vec::new() }
    }

    fn find(&self, upstream: &str) -> (at: usize)
        ensures
            at <= self.hosts@.len(),
            at == position(self.hosts@, upstream@),
            at < self.hosts@.len() ==> self.hosts@[at as int].upstream@ == upstream@,
            at == self.hosts@.len() ==> forall|i: int|
                0 <= i < self.hosts@.len() ==> (#[trigger] self.hosts@[i]).upstream@ != upstream@,
    {
        let wanted: String = upstream.to_owned();
        let mut at: usize = 0;
        while at < self.hosts.len() && self.hosts[at].upstream != wanted
            invariant
                at <= self.hosts@.len(),
                wanted@ == upstream@,
                forall|i: int|
                    0 <= i < at ==> (#[trigger] self.hosts@[i]).upstream@ != upstream@,
            decreases self.hosts@.len() - at,
        {
            at = at + 1;
        }
        proof {
            lemma_position(self.hosts@, upstream@, at as int);
        }
        at
    }

    /// Takes the connection to an upstream that became idle last, if it may be reused. Those that
    /// have been idle for too long are dropped on the way.
    pub fn checkout(&mut self, upstream: &str, now: u64) -> (stream: Option<T>)
        requires
            old(self).well_formed(),
        ensures
            final(self).well_formed(),
            ({
                let idle = old(self).idle(upstream@);
                let last = last_fresh(idle, now);
                if 0 <= last < idle.len() {
                    &&& stream == Some(idle[last].stream)
                    &&& final(self).idle(upstream@) == idle.take(last)
                } else {
                    &&& stream is None
                    &&& final(self).idle(upstream@).len() == 0
                }
            }),
            forall|other: Seq<char>|
                other != upstream@ ==> #[trigger] final(self).idle(other) == old(self).idle(other),
    {
        let at: usize = self.find(upstream);
        if at == self.hosts.len() {
            assert(last_fresh(self.idle(upstream@), now) == -1);
            return None;
        }
        let ghost before = self.hosts@;
        let ghost all = self.hosts@[at as int].idle@;
        let mut idle: Vec<Pooled<T>> = Vec::new();
        std::mem::swap(&mut idle, &mut self.hosts[at].idle);
        let mut stream: Option<T> = None;
        assert(all.take(all.len() as int) =~= all);
        while idle.len() > 0 && stream.is_none()
            invariant
                idle@.len() <= all.len(),
                idle@ == all.take(idle@.len() as int),
                stream is None ==> last_fresh(all, now) == last_fresh(
                    all.take(idle@.len() as int),
                    now,
                ),
                stream matches Some(s) ==> {
                    &&& last_fresh(all, now) == idle@.len()
                    &&& idle@.len() < all.len()
                    &&& s == all[idle@.len() as int].stream
                },
            decreases idle@.len(),
        {
            let ghost n = idle@.len() as int;
            proof {
                assert(all.take(n).last() == all[n - 1]);
                assert(all.take(n).drop_last() =~= all.take(n - 1));
            }
            match idle.pop() {
                Some(pooled) => {
                    assert(pooled == all[n - 1]);
                    assert(idle@ =~= all.take(n - 1));
                    let idle_for: u64 = if now >= pooled.added_at {
                        now - pooled.added_at
                    } else {
                        0
                    };
                    if idle_for < IDLE_TIMEOUT {
                        stream = Some(pooled.stream);
                    }
                },
                None => {},
            }
        }
        if stream.is_some() {
            let ghost left = idle@;
            self.hosts[at].idle = idle;
            proof {
                assert forall|i: int| 0 <= i < before.len() implies (
                #[trigger] self.hosts@[i]).upstream@ == before[i].upstream@ by {}
                assert(self.well_formed()) by {
                    assert forall|i: int, j: int| 0 <= i < j < self.hosts@.len() implies (
                    #[trigger] self.hosts@[i]).upstream@ != (#[trigger] self.hosts@[j]).upstream@ by {
                        assert(before[i].upstream@ != before[j].upstream@);
                    }
                }
                self.lemma_listed(at as int);
                old(self).lemma_listed(at as int);
                assert(self.idle(upstream@) == left);
                assert forall|other: Seq<char>| other != upstream@ implies #[trigger] self.idle(
                    other,
                ) == old(self).idle(other) by {
                    assert forall|i: int|
                        0 <= i < self.hosts@.len() && (#[trigger] self.hosts@[i]).upstream@
                            == other implies exists|j: int|
                        0 <= j < old(self).hosts@.len() && (
                        #[trigger] old(self).hosts@[j]).upstream@ == other && old(
                            self,
                        ).hosts@[j].idle@ == self.hosts@[i].idle@ by {
                        assert(old(self).hosts@[i].upstream@ == other);
                    }
                    assert forall|j: int|
                        0 <= j < old(self).hosts@.len() && (
                        #[trigger] old(self).hosts@[j]).upstream@ == other implies exists|i: int|
                        0 <= i < self.hosts@.len() && (#[trigger] self.hosts@[i]).upstream@
                            == other by {
                        assert(self.hosts@[j].upstream@ == other);
                    }
                    self.lemma_same(old(self), other);
                }
            }
            return stream;
        }
        assert(last_fresh(all.take(0), now) == -1);
        self.hosts.remove(at);
        proof {
            old(self).lemma_listed(at as int);
            assert forall|i: int| 0 <= i < self.hosts@.len() implies (
            #[trigger] self.hosts@[i]).upstream@ == before[if i < at {
                i
            } else {
                i + 1
            }].upstream@ by {}
            assert(self.well_formed()) by {
                assert forall|i: int, j: int| 0 <= i < j < self.hosts@.len() implies (
                #[trigger] self.hosts@[i]).upstream@ != (#[trigger] self.hosts@[j]).upstream@ by {
                    let a = if i < at {
                        i
                    } else {
                        i + 1
                    };
                    let b = if j < at {
                        j
                    } else {
                        j + 1
                    };
                    assert(before[a].upstream@ != before[b].upstream@);
                }
            }
            assert forall|i: int| 0 <= i < self.hosts@.len() implies (
            #[trigger] self.hosts@[i]).upstream@ != upstream@ by {
                let a = if i < at {
                    i
                } else {
                    i + 1
                };
                assert(before[a].upstream@ != before[at as int].upstream@);
            }
            self.lemma_unlisted(upstream@);
            assert forall|other: Seq<char>| other != upstream@ implies #[trigger] self.idle(other)
                == old(self).idle(other) by {
                assert forall|i: int|
                    0 <= i < self.hosts@.len() && (#[trigger] self.hosts@[i]).upstream@
                        == other implies exists|j: int|
                    0 <= j < old(self).hosts@.len() && (#[trigger] old(self).hosts@[j]).upstream@
                        == other && old(self).hosts@[j].idle@ == self.hosts@[i].idle@ by {
                    let a = if i < at {
                        i
                    } else {
                        i + 1
                    };
                    assert(old(self).hosts@[a].upstream@ == other);
                }
                assert forall|j: int|
                    0 <= j < old(self).hosts@.len() && (#[trigger] old(self).hosts@[j]).upstream@
                        == other implies exists|i: int|
                    0 <= i < self.hosts@.len() && (#[trigger] self.hosts@[i]).upstream@ == other by {
                    let a = if j < at {
                        j
                    } else {
                        j - 1
                    };
                    assert(self.hosts@[a].upstream@ == other);
                }
                self.lemma_same(old(self), other);
            }
        }
        None
    }

    /// Gives a connection back for reuse. It is dropped where enough are kept.
    pub fn checkin(&mut self, upstream: &str, stream: T, now: u64)
        requires
            old(self).well_formed(),
        ensures
            final(self).well_formed(),
            final(self).idle(upstream@) == if old(self).idle(upstream@).len() < MAX_IDLE_PER_HOST {
                old(self).idle(upstream@).push(Pooled { stream, added_at: now })
            } else {
                old(self).idle(upstream@)
            },
            forall|other: Seq<char>|
                other != upstream@ ==> #[trigger] final(self).idle(other) == old(self).idle(other),
    {
        let at: usize = self.find(upstream);
        let ghost before = self.hosts@;
        if at == self.hosts.len() {
            self.hosts.push(Host { upstream: upstream.to_owned(), idle: Vec::new() });
        }
        let ghost listed = self.hosts@;
        if self.hosts[at].idle.len() < MAX_IDLE_PER_HOST {
            self.hosts[at].idle.push(Pooled { stream, added_at: now });
        }
        proof {
            assert forall|i: int| 0 <= i < self.hosts@.len() implies (
            #[trigger] self.hosts@[i]).upstream@ == listed[i].upstream@ by {}
            assert(self.well_formed()) by {
                assert forall|i: int, j: int| 0 <= i < j < self.hosts@.len() implies (
                #[trigger] self.hosts@[i]).upstream@ != (#[trigger] self.hosts@[j]).upstream@ by {
                    assert(listed[i] == before[i]);
                    if j < before.len() {
                        assert(before[i].upstream@ != before[j].upstream@);
                    }
                }
            }
            self.lemma_listed(at as int);
            if at < before.len() {
                old(self).lemma_listed(at as int);
            } else {
                old(self).lemma_unlisted(upstream@);
                assert(old(self).idle(upstream@) =~= Seq::<Pooled<T>>::empty());
            }
            assert forall|other: Seq<char>| other != upstream@ implies #[trigger] self.idle(other)
                == old(self).idle(other) by {
                assert forall|i: int|
                    0 <= i < self.hosts@.len() && (#[trigger] self.hosts@[i]).upstream@
                        == other implies exists|j: int|
                    0 <= j < old(self).hosts@.len() && (#[trigger] old(self).hosts@[j]).upstream@
                        == other && old(self).hosts@[j].idle@ == self.hosts@[i].idle@ by {
                    assert(i != at);
                    assert(old(self).hosts@[i].upstream@ == other);
                }
                assert forall|j: int|
                    0 <= j < old(self).hosts@.len() && (#[trigger] old(self).hosts@[j]).upstream@
                        == other implies exists|i: int|
                    0 <= i < self.hosts@.len() && (#[trigger] self.hosts@[i]).upstream@ == other by {
                    assert(self.hosts@[j].upstream@ == other);
                }
                self.lemma_same(old(self), other);
            }
        }
    }
}

} // verus!
