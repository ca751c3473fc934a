//! An in-memory repository and a context that provides it: the stub
//! wiring used to exercise the use cases without a real store.

use vstd::prelude::*;

use crate::repository::{found_users_match, ProvideUserRepository, RepositoryError, UserRepository};
use crate::user::{lemma_user_id_determined, vec_contains_id, User, UserId};

verus! {

/// The contents a stored sequence denotes: identifier value to name,
/// a later entry overriding an earlier one with the same identifier.
pub open spec fn map_of(s: Seq<User>) -> Map<u128, Seq<char>>
    decreases s.len(),
{
    if s.len() == 0 {
        Map::empty()
    } else {
        map_of(s.drop_last()).insert(s.last().id@, s.last().name@)
    }
}

/// No two entries share an identifier.
pub open spec fn ids_distinct(s: Seq<User>) -> bool {
    forall|i: int, j: int| 0 <= i < j < s.len() ==> s[i].id@ != s[j].id@
}

/// A key is stored exactly when some entry carries it.
proof fn lemma_map_of_contains(s: Seq<User>, k: u128)
    ensures
        map_of(s).contains_key(k) <==> (exists|i: int|
            0 <= i < s.len() && (#[trigger] s[i]).id@ == k),
    decreases s.len(),
{
    if s.len() > 0 {
        lemma_map_of_contains(s.drop_last(), k);
        if s.last().id@ == k {
            assert(s[s.len() - 1].id@ == k);
        } else {
            if map_of(s).contains_key(k) {
                let i = choose|i: int|
                    0 <= i < s.drop_last().len() && (#[trigger] s.drop_last()[i]).id@ == k;
                assert(s[i].id@ == k);
            }
            if exists|i: int| 0 <= i < s.len() && (#[trigger] s[i]).id@ == k {
                let i = choose|i: int| 0 <= i < s.len() && (#[trigger] s[i]).id@ == k;
                assert(s.drop_last()[i].id@ == k);
            }
        }
    }
}

/// With distinct identifiers, each entry is stored under its own name.
proof fn lemma_map_of_value(s: Seq<User>, i: int)
    requires
        ids_distinct(s),
        0 <= i < s.len(),
    ensures
        map_of(s).contains_key(s[i].id@),
        map_of(s)[s[i].id@] == s[i].name@,
    decreases s.len(),
{
    if i < s.len() - 1 {
        assert forall|a: int, b: int|
            0 <= a < b < s.drop_last().len() implies (#[trigger] s.drop_last()[a]).id@ != (
        #[trigger] s.drop_last()[b]).id@ by {
            assert(s[a].id@ != s[b].id@);
        }
        lemma_map_of_value(s.drop_last(), i);
        assert(s.last().id@ != s[i].id@);
    }
}

/// Overwriting the entry that holds an identifier acts on the contents
/// as a map insertion.
proof fn lemma_map_of_update(s: Seq<User>, m: int, x: User)
    requires
        ids_distinct(s),
        0 <= m < s.len(),
        s[m].id@ == x.id@,
    ensures
        ids_distinct(s.update(m, x)),
        map_of(s.update(m, x)) == map_of(s).insert(x.id@, x.name@),
{
    let s2 = s.update(m, x);
    assert forall|i: int| 0 <= i < s2.len() implies (#[trigger] s2[i]).id@ == s[i].id@ by {}
    assert(ids_distinct(s2));
    assert forall|k: u128|
        map_of(s2).contains_key(k) == #[trigger] map_of(s).insert(
            x.id@,
            x.name@,
        ).contains_key(k) by {
        lemma_map_of_contains(s, k);
        lemma_map_of_contains(s2, k);
        if exists|i: int| 0 <= i < s.len() && (#[trigger] s[i]).id@ == k {
            let i = choose|i: int| 0 <= i < s.len() && (#[trigger] s[i]).id@ == k;
            assert(s2[i].id@ == k);
        }
        if exists|i: int| 0 <= i < s2.len() && (#[trigger] s2[i]).id@ == k {
            let i = choose|i: int| 0 <= i < s2.len() && (#[trigger] s2[i]).id@ == k;
            assert(s[i].id@ == k);
        }
    }
    assert forall|k: u128|
        map_of(s2).contains_key(k) implies #[trigger] map_of(s2)[k] == map_of(s).insert(
            x.id@,
            x.name@,
        )[k] by {
        if k == x.id@ {
            lemma_map_of_value(s2, m);
        } else {
            lemma_map_of_contains(s2, k);
            let i = choose|i: int| 0 <= i < s2.len() && (#[trigger] s2[i]).id@ == k;
            lemma_map_of_value(s2, i);
            lemma_map_of_value(s, i);
        }
    }
    assert(map_of(s2) =~= map_of(s).insert(x.id@, x.name@));
}

/// An in-memory stub store: a hand-rolled test double for the
/// repository contract. It also counts how many saves were attempted
/// and can be told to refuse them.
pub struct MockUserRepository {
    stored: Vec<User>,
    save_calls: u64,
    fail_saves: bool,
    fail_gets: bool,
}

impl MockUserRepository {
    #[verifier::type_invariant]
    closed spec fn wf(self) -> bool {
        ids_distinct(self.stored@)
    }

    /// How many saves were attempted, as the contracts see it.
    pub closed spec fn save_count(&self) -> u64 {
        self.save_calls
    }

    /// An empty store that accepts every request.
    pub fn new() -> (r: Self)
        ensures
            r.users() == Map::<u128, Seq<char>>::empty(),
            r.save_count() == 0,
            !r.saves_refused(),
            !r.gets_refused(),
    {
        MockUserRepository { stored: Vec::new(), save_calls: 0, fail_saves: false, fail_gets: false }
    }

    /// Make every later save fail, as a broken store would.
    pub fn refuse_saves(&mut self)
        ensures
            final(self).users() == old(self).users(),
            final(self).save_count() == old(self).save_count(),
            final(self).saves_refused(),
            final(self).gets_refused() == old(self).gets_refused(),
    {
        proof {
            use_type_invariant(&*self);
        }
        self.fail_saves = true;
    }

    /// Make every later fetch fail, as a broken store would.
    pub fn refuse_gets(&mut self)
        ensures
            final(self).users() == old(self).users(),
            final(self).save_count() == old(self).save_count(),
            final(self).gets_refused(),
            final(self).saves_refused() == old(self).saves_refused(),
    {
        proof {
            use_type_invariant(&*self);
        }
        self.fail_gets = true;
    }

    /// How many saves were attempted.
    pub fn save_calls(&self) -> (r: u64)
        ensures
            r == self.save_count(),
    {
        self.save_calls
    }
}

impl UserRepository for MockUserRepository {
    closed spec fn users(&self) -> Map<u128, Seq<char>> {
        map_of(self.stored@)
    }

    closed spec fn saves_refused(&self) -> bool {
        self.fail_saves
    }

    closed spec fn gets_refused(&self) -> bool {
        self.fail_gets
    }

    #[verifier::rlimit(50)]
    #[verifier::loop_isolation(false)]
    fn save(&mut self, user: &User) -> (r: Result<(), RepositoryError>)
        ensures
            old(self).save_count() < u64::MAX ==> final(self).save_count() == old(
                self,
            ).save_count() + 1,
    {
        let ghost s0 = self.stored@;
        let ghost fs0 = self.fail_saves;
        let ghost gs0 = self.fail_gets;
        proof {
            use_type_invariant(&*self);
        }
        if self.save_calls != u64::MAX {
            self.save_calls = self.save_calls + 1;
        }
        let ghost sc1 = self.save_calls;
        if self.fail_saves {
            return Err(RepositoryError { message: String::from_str("save refused") });
        }
        let n = self.stored.len();
        let mut m: usize = 0;
        while m < n
            invariant
                m <= n,
                n == self.stored@.len(),
                self.stored@ == s0,
                self.fail_saves == fs0,
                self.fail_gets == gs0,
                self.save_calls == sc1,
                ids_distinct(s0),
                forall|t: int| 0 <= t < m ==> (#[trigger] s0[t]).id != user.id,
            decreases n - m,
        {
            if self.stored[m].id == user.id {
                let mut edited: Vec<User> = Vec::new();
                core::mem::swap(&mut self.stored, &mut edited);
                edited[m] = user.clone();
                proof {
                    lemma_map_of_update(s0, m as int, edited@[m as int]);
                    assert(map_of(edited@) == map_of(s0).insert(user.id@, user.name@));
                }
                core::mem::swap(&mut self.stored, &mut edited);
                return Ok(());
            }
            m += 1;
        }
        let mut stored: Vec<User> = Vec::new();
        core::mem::swap(&mut self.stored, &mut stored);
        stored.push(user.clone());
        proof {
            assert forall|a: int, b: int|
                0 <= a < b < stored@.len() implies (#[trigger] stored@[a]).id@ != (
            #[trigger] stored@[b]).id@ by {
                if b == stored@.len() - 1 {
                    lemma_user_id_determined(s0[a].id, user.id);
                }
            }
            assert(stored@.drop_last() =~= s0);
        }
        core::mem::swap(&mut self.stored, &mut stored);
        Ok(())
    }

    #[verifier::rlimit(50)]
    fn get_by_ids(&self, ids: &Vec<UserId>) -> (r: Result<Vec<User>, RepositoryError>) {
        proof {
            use_type_invariant(&*self);
        }
        if self.fail_gets {
            return Err(RepositoryError { message: String::from_str("fetch refused") });
        }
        let ghost st = self.stored@;
        let mut found: Vec<User> = Vec::new();
        let n = self.stored.len();
        let mut m: usize = 0;
        while m < n
            invariant
                m <= n,
                n == st.len(),
                self.stored@ == st,
                ids_distinct(st),
                forall|i: int| 0 <= i < found@.len() ==> ids@.contains((#[trigger] found@[i]).id),
                forall|i: int|
                    0 <= i < found@.len() ==> map_of(st).contains_key((#[trigger] found@[i]).id@)
                        && found@[i].name@ == map_of(st)[found@[i].id@],
                forall|t: int|
                    0 <= t < m && ids@.contains((#[trigger] st[t]).id) ==> exists|i: int|
                        0 <= i < found@.len() && (#[trigger] found@[i]).id == st[t].id,
                forall|i: int|
                    0 <= i < found@.len() ==> exists|t: int|
                        0 <= t < m && (#[trigger] found@[i]).id == st[t].id,
                forall|i: int, j: int|
                    0 <= i < j < found@.len() ==> (#[trigger] found@[i]).id != (
                    #[trigger] found@[j]).id,
            decreases n - m,
        {
            let ghost found_before = found@;
            if vec_contains_id(ids, self.stored[m].id) {
                let u = self.stored[m].clone();
                proof {
                    lemma_map_of_value(st, m as int);
                }
                found.push(u);
                proof {
                    assert(found@[found@.len() - 1].id == st[m as int].id);
                    assert forall|i: int|
                        0 <= i < found@.len() - 1 implies (#[trigger] found@[i]).id != st[
                        m as int].id by {
                        let t = choose|t: int|
                            0 <= t < m && (#[trigger] found_before[i]).id == st[t].id;
                        assert(st[t].id@ != st[m as int].id@);
                    }
                }
            }
            proof {
                assert forall|t: int|
                    0 <= t < m + 1 && ids@.contains((#[trigger] st[t]).id) implies exists|i: int|
                    0 <= i < found@.len() && (#[trigger] found@[i]).id == st[t].id by {
                    if t < m {
                        let i = choose|i: int|
                            0 <= i < found_before.len() && (#[trigger] found_before[i]).id
                                == st[t].id;
                        assert(found@[i].id == st[t].id);
                    } else {
                        assert(found@[found@.len() - 1].id == st[t].id);
                    }
                }
            }
            m += 1;
        }
        proof {
            assert forall|j: int|
                0 <= j < ids@.len() && map_of(st).contains_key(
                    #[trigger] ids@[j]@,
                ) implies exists|i: int|
                0 <= i < found@.len() && (#[trigger] found@[i]).id == ids@[j] by {
                lemma_map_of_contains(st, ids@[j]@);
                let mm = choose|mm: int| 0 <= mm < st.len() && (#[trigger] st[mm]).id@ == ids@[j]@;
                lemma_user_id_determined(st[mm].id, ids@[j]);
                assert(ids@.contains(st[mm].id));
            }
            assert(found_users_match(map_of(st), ids@, found@));
        }
        Ok(found)
    }
}

/// A context that owns the stub repository and provides it on demand.
pub struct MockContext {
    pub user_repository: MockUserRepository,
}

impl ProvideUserRepository for MockContext {
    type Repository = MockUserRepository;

    open spec fn repository(&self) -> MockUserRepository {
        self.user_repository
    }

    fn provide(&self) -> (r: &MockUserRepository) {
        &self.user_repository
    }

    fn provide_mut(&mut self) -> (r: &mut MockUserRepository) {
        &mut self.user_repository
    }
}

} // verus!
