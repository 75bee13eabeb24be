//! The set of players who have passed during the current trick.

use vstd::prelude::*;

verus! {

/// How many entries of the sequence are set.
pub open spec fn count_true(s: Seq<bool>) -> int
    decreases s.len(),
{
    if s.len() == 0 {
        0
    } else {
        (if s[0] {
            1int
        } else {
            0int
        }) + count_true(s.drop_first())
    }
}

/// The count never exceeds the length.
pub proof fn lemma_count_le_len(s: Seq<bool>)
    ensures
        0 <= count_true(s) <= s.len(),
    decreases s.len(),
{
    if s.len() > 0 {
        lemma_count_le_len(s.drop_first());
    }
}

/// Fewer set entries than the length leaves some entry unset.
pub proof fn lemma_exists_false(s: Seq<bool>)
    requires
        count_true(s) < s.len(),
    ensures
        exists|i: int| 0 <= i < s.len() && !s[i],
    decreases s.len(),
{
    if s.len() > 0 {
        if s[0] {
            lemma_exists_false(s.drop_first());
            let i = choose|i: int| 0 <= i < s.drop_first().len() && !s.drop_first()[i];
            assert(!s[i + 1]);
        } else {
            assert(!s[0]);
        }
    }
}

/// Setting an entry raises the count by one if it was unset, and
/// leaves it unchanged if it was already set.
pub proof fn lemma_count_update_true(s: Seq<bool>, i: int)
    requires
        0 <= i < s.len(),
    ensures
        !s[i] ==> count_true(s.update(i, true)) == count_true(s) + 1,
        s[i] ==> count_true(s.update(i, true)) == count_true(s),
    decreases s.len(),
{
    let u = s.update(i, true);
    if i == 0 {
        assert(u.drop_first() =~= s.drop_first());
    } else {
        assert(u.drop_first() =~= s.drop_first().update(i - 1, true));
        lemma_count_update_true(s.drop_first(), i - 1);
        assert(u[0] == s[0]);
    }
}

/// An unset entry keeps the count below the length.
pub proof fn lemma_count_lt_of_false(s: Seq<bool>, i: int)
    requires
        0 <= i < s.len(),
        !s[i],
    ensures
        count_true(s) <= s.len() - 1,
{
    lemma_count_update_true(s, i);
    lemma_count_le_len(s.update(i, true));
}

/// Two distinct unset entries keep the count at least two below the
/// length.
pub proof fn lemma_count_two_false(s: Seq<bool>, i: int, j: int)
    requires
        0 <= i < s.len(),
        0 <= j < s.len(),
        i != j,
        !s[i],
        !s[j],
    ensures
        count_true(s) <= s.len() - 2,
{
    let u = s.update(i, true);
    lemma_count_update_true(s, i);
    lemma_count_lt_of_false(u, j);
}

/// Which players have passed this trick, over a fixed table size.
#[derive(Debug)]
pub struct PassedPlayers {
    flags: Vec<bool>,
}

impl PassedPlayers {
    /// The table size the set was made for.
    pub closed spec fn spec_len(self) -> int {
        self.flags@.len() as int
    }

    /// Whether player `i` has passed.
    pub closed spec fn spec_contains(self, i: int) -> bool {
        0 <= i < self.flags@.len() && self.flags@[i]
    }

    /// How many players have passed.
    pub closed spec fn spec_count(self) -> int {
        count_true(self.flags@)
    }

    /// The count stays between zero and the table size, and a player
    /// who has not passed keeps it below the table size.
    pub proof fn lemma_count_bounds(self)
        ensures
            0 <= self.spec_count() <= self.spec_len(),
            forall|i: int|
                0 <= i < self.spec_len() && !self.spec_contains(i) ==> self.spec_count()
                    <= self.spec_len() - 1,
    {
        lemma_count_le_len(self.flags@);
        assert forall|i: int|
            0 <= i < self.spec_len() && !self.spec_contains(i) implies self.spec_count()
            <= self.spec_len() - 1 by {
            lemma_count_lt_of_false(self.flags@, i);
        }
    }

    /// A count under the table size leaves someone who has not passed.
    pub proof fn lemma_someone_left(self)
        requires
            self.spec_count() < self.spec_len(),
        ensures
            exists|i: int| 0 <= i < self.spec_len() && !self.spec_contains(i),
    {
        lemma_exists_false(self.flags@);
        let i = choose|i: int| 0 <= i < self.flags@.len() && !self.flags@[i];
        assert(0 <= i < self.spec_len() && !self.spec_contains(i));
    }

    /// With all but one player passed, every seat other than an
    /// unpassed one has passed: that seat is the unique one left.
    pub proof fn lemma_all_but_one(self, w: int)
        requires
            self.spec_count() == self.spec_len() - 1,
            0 <= w < self.spec_len(),
            !self.spec_contains(w),
        ensures
            forall|j: int| 0 <= j < self.spec_len() && j != w ==> self.spec_contains(j),
    {
        assert forall|j: int| 0 <= j < self.spec_len() && j != w implies self.spec_contains(
            j,
        ) by {
            if !self.spec_contains(j) {
                lemma_count_two_false(self.flags@, w, j);
            }
        }
    }

    /// A count at least two under the table size leaves someone other
    /// than `c` who has not passed.
    pub proof fn lemma_two_left(self, c: int)
        requires
            self.spec_count() <= self.spec_len() - 2,
            0 <= c < self.spec_len(),
        ensures
            exists|i: int| 0 <= i < self.spec_len() && i != c && !self.spec_contains(i),
    {
        let u = self.flags@.update(c, true);
        lemma_count_update_true(self.flags@, c);
        lemma_exists_false(u);
        let i = choose|i: int| 0 <= i < u.len() && !u[i];
        assert(i != c);
        assert(0 <= i < self.spec_len() && i != c && !self.spec_contains(i));
    }

    /// An empty set for a table of `n` players.
    pub fn new(n: usize) -> (s: PassedPlayers)
        ensures
            s.spec_len() == n,
            forall|i: int| !s.spec_contains(i),
            s.spec_count() == 0,
    {
        let mut flags: Vec<bool> = Vec::new();
        let mut i: usize = 0;
        while i < n
            invariant
                0 <= i <= n,
                flags@.len() == i,
                forall|k: int| 0 <= k < i ==> !flags@[k],
                count_true(flags@) == 0,
            decreases n - i,
        {
            let ghost before = flags@;
            flags.push(false);
            proof {
                lemma_count_push(before, false);
            }
            i = i + 1;
        }
        PassedPlayers { flags }
    }

    /// How many players have passed.
    pub fn len(&self) -> (n: usize)
        ensures
            n == self.spec_count(),
    {
        let mut n: usize = 0;
        let mut i: usize = 0;
        proof {
            assert(self.flags@.take(0) =~= Seq::<bool>::empty());
        }
        while i < self.flags.len()
            invariant
                0 <= i <= self.flags@.len(),
                n == count_true(self.flags@.take(i as int)),
                n <= i,
            decreases self.flags@.len() - i,
        {
            proof {
                lemma_count_push(self.flags@.take(i as int), self.flags@[i as int]);
                assert(self.flags@.take(i + 1) =~= self.flags@.take(i as int).push(
                    self.flags@[i as int],
                ));
            }
            if self.flags[i] {
                n = n + 1;
            }
            i = i + 1;
        }
        proof {
            assert(self.flags@.take(self.flags@.len() as int) =~= self.flags@);
        }
        n
    }

    /// Whether player `id` has passed.
    pub fn contains(&self, id: usize) -> (b: bool)
        ensures
            b == self.spec_contains(id as int),
    {
        id < self.flags.len() && self.flags[id]
    }

    /// Records that player `id` has passed.
    pub fn insert(&mut self, id: usize)
        requires
            (id as int) < old(self).spec_len(),
        ensures
            final(self).spec_len() == old(self).spec_len(),
            forall|j: int|
                final(self).spec_contains(j) <==> (old(self).spec_contains(j) || j == id as int),
            old(self).spec_contains(id as int) ==> final(self).spec_count() == old(
                self,
            ).spec_count(),
            !old(self).spec_contains(id as int) ==> final(self).spec_count() == old(
                self,
            ).spec_count() + 1,
    {
        proof {
            lemma_count_update_true(self.flags@, id as int);
        }
        self.flags.set(id, true);
    }
}

/// Appending an entry adds one to the count when it is set.
proof fn lemma_count_push(s: Seq<bool>, b: bool)
    ensures
        count_true(s.push(b)) == count_true(s) + (if b {
            1int
        } else {
            0int
        }),
    decreases s.len(),
{
    let p = s.push(b);
    if s.len() == 0 {
        assert(p.drop_first() =~= Seq::<bool>::empty());
        assert(count_true(Seq::<bool>::empty()) == 0);
    } else {
        assert(p.drop_first() =~= s.drop_first().push(b));
        lemma_count_push(s.drop_first(), b);
        assert(p[0] == s[0]);
    }
}

} // verus!
