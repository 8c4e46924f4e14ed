//! Team secret bookkeeping for the sum-modulo challenge.
//!
//! Each player may report a secret value; the team answers a
//! challenge with the sum of all known secrets reduced modulo the
//! challenge's value. Timestamps are plain monotonic tick values
//! supplied by the caller, so the bookkeeping itself stays pure.

use vstd::prelude::*;

verus! {

/// The map a sequence of per-player entries denotes, later entries
/// overriding earlier ones. Each value is a secret paired with the
/// tick at which it was reported.
pub open spec fn secret_entries_map(s: Seq<(u32, (u128, u64))>) -> Map<u32, (u128, u64)>
    decreases s.len(),
{
    if s.len() == 0 {
        Map::empty()
    } else {
        secret_entries_map(s.drop_last()).insert(s.last().0, s.last().1)
    }
}

/// The sum of the secret values of a sequence of entries.
pub open spec fn secret_entries_sum(s: Seq<(u32, (u128, u64))>) -> int
    decreases s.len(),
{
    if s.len() == 0 {
        0
    } else {
        secret_entries_sum(s.drop_last()) + s.last().1.0
    }
}

/// The latest tick among the entries, if there are any.
pub open spec fn latest_tick(s: Seq<(u32, (u128, u64))>) -> Option<u64>
    decreases s.len(),
{
    if s.len() == 0 {
        None
    } else {
        match latest_tick(s.drop_last()) {
            None => Some(s.last().1.1),
            Some(t) => if s.last().1.1 > t {
                Some(s.last().1.1)
            } else {
                Some(t)
            },
        }
    }
}

proof fn lemma_secret_entries_absent(s: Seq<(u32, (u128, u64))>, key: u32)
    requires
        forall|i: int| 0 <= i < s.len() ==> (#[trigger] s[i]).0 != key,
    ensures
        !secret_entries_map(s).contains_key(key),
    decreases s.len(),
{
    if s.len() > 0 {
        assert(s[s.len() - 1].0 != key);
        lemma_secret_entries_absent(s.drop_last(), key);
    }
}

proof fn lemma_secret_entries_found(s: Seq<(u32, (u128, u64))>, i: int)
    requires
        forall|p: int, q: int| 0 <= p < q < s.len() ==> (#[trigger] s[p]).0 != (#[trigger] s[q]).0,
        0 <= i < s.len(),
    ensures
        secret_entries_map(s).contains_key(s[i].0),
        secret_entries_map(s)[s[i].0] == s[i].1,
    decreases s.len(),
{
    if i < s.len() - 1 {
        lemma_secret_entries_found(s.drop_last(), i);
        assert(s[s.len() - 1].0 != s[i].0);
    }
}

/// Replacing the entry at `i` changes the denoted map at that key
/// alone, and shifts the sum by the difference of the secret values.
proof fn lemma_secret_entries_update(s: Seq<(u32, (u128, u64))>, i: int, value: (u128, u64))
    requires
        forall|p: int, q: int| 0 <= p < q < s.len() ==> (#[trigger] s[p]).0 != (#[trigger] s[q]).0,
        0 <= i < s.len(),
    ensures
        secret_entries_map(s.update(i, (s[i].0, value))) =~= secret_entries_map(s).insert(
            s[i].0,
            value,
        ),
        secret_entries_sum(s.update(i, (s[i].0, value))) == secret_entries_sum(s) - s[i].1.0
            + value.0,
    decreases s.len(),
{
    let key = s[i].0;
    let t = s.update(i, (key, value));
    if i == s.len() - 1 {
        assert(t.drop_last() =~= s.drop_last());
        assert(t.last() == (key, value));
    } else {
        lemma_secret_entries_update(s.drop_last(), i, value);
        assert(t.drop_last() =~= s.drop_last().update(i, (key, value)));
        assert(t.last() == s.last());
        assert(s[s.len() - 1].0 != key);
        assert(secret_entries_map(t) =~= secret_entries_map(s).insert(key, value));
    }
}

/// Finds the entry of a player, if there is one.
fn find_player(entries: &Vec<(u32, (u128, u64))>, player_id: u32) -> (r: Option<usize>)
    ensures
        r matches Some(i) ==> i < entries@.len() && entries@[i as int].0 == player_id,
        r is None ==> forall|k: int|
            0 <= k < entries@.len() ==> (#[trigger] entries@[k]).0 != player_id,
{
    let n = entries.len();
    let mut i: usize = 0;
    while i < n
        invariant
            i <= n,
            n == entries@.len(),
            forall|k: int| 0 <= k < i ==> (#[trigger] entries@[k]).0 != player_id,
        decreases n - i,
    {
        if entries[i].0 == player_id {
            return Some(i);
        }
        i = i + 1;
    }
    None
}

/// The secrets the team has collected, one per player.
pub struct TeamSecrets {
    entries: Vec<(u32, (u128, u64))>,
}

impl TeamSecrets {
    #[verifier::type_invariant]
    spec fn distinct_players(&self) -> bool {
        forall|p: int, q: int|
            0 <= p < q < self.entries@.len() ==> (#[trigger] self.entries@[p]).0 != (
            #[trigger] self.entries@[q]).0
    }

    /// The secrets on record: player to (secret, tick reported).
    pub closed spec fn secrets(&self) -> Map<u32, (u128, u64)> {
        secret_entries_map(self.entries@)
    }

    /// The sum of all secrets on record, as an unbounded integer.
    pub closed spec fn total(&self) -> int {
        secret_entries_sum(self.entries@)
    }

    /// The tick of the most recent report, if any.
    pub closed spec fn spec_latest_tick(&self) -> Option<u64> {
        latest_tick(self.entries@)
    }

    /// An empty collection of secrets.
    pub fn new() -> (r: TeamSecrets)
        ensures
            r.secrets() == Map::<u32, (u128, u64)>::empty(),
            r.total() == 0,
            r.spec_latest_tick() is None,
    {
        TeamSecrets { entries: Vec::new() }
    }

    /// True when no player has reported a secret yet.
    pub fn is_empty(&self) -> (r: bool)
        ensures
            r == (self.secrets() =~= Map::<u32, (u128, u64)>::empty()),
    {
        proof {
            use_type_invariant(&*self);
            if self.entries@.len() > 0 {
                lemma_secret_entries_found(self.entries@, 0);
            } else {
                assert(self.secrets() =~= Map::<u32, (u128, u64)>::empty());
            }
        }
        self.entries.len() == 0
    }

    /// Looks up the secret a player reported, if any.
    pub fn get(&self, player_id: u32) -> (r: Option<(u128, u64)>)
        ensures
            r == if self.secrets().contains_key(player_id) {
                Some(self.secrets()[player_id])
            } else {
                None::<(u128, u64)>
            },
    {
        proof {
            use_type_invariant(&*self);
        }
        let n = self.entries.len();
        let mut i: usize = 0;
        while i < n
            invariant
                i <= n,
                n == self.entries@.len(),
                self.distinct_players(),
                forall|k: int| 0 <= k < i ==> (#[trigger] self.entries@[k]).0 != player_id,
            decreases n - i,
        {
            let (key, value) = self.entries[i];
            if key == player_id {
                proof {
                    lemma_secret_entries_found(self.entries@, i as int);
                }
                return Some(value);
            }
            i = i + 1;
        }
        proof {
            lemma_secret_entries_absent(self.entries@, player_id);
        }
        None
    }

    /// Records or replaces a player's secret, stamped with the tick
    /// `now`.
    pub fn update_secret(&mut self, player_id: u32, secret: u128, now: u64)
        ensures
            final(self).secrets() == old(self).secrets().insert(player_id, (secret, now)),
            final(self).total() == old(self).total() - (if old(self).secrets().contains_key(
                player_id,
            ) {
                old(self).secrets()[player_id].0 as int
            } else {
                0
            }) + secret,
    {
        proof {
            use_type_invariant(&*self);
        }
        let mut entries: Vec<(u32, (u128, u64))> = Vec::new();
        core::mem::swap(&mut entries, &mut self.entries);
        match find_player(&entries, player_id) {
            Some(j) => {
                proof {
                    lemma_secret_entries_found(entries@, j as int);
                    lemma_secret_entries_update(entries@, j as int, (secret, now));
                }
                entries.set(j, (player_id, (secret, now)));
            },
            None => {
                proof {
                    lemma_secret_entries_absent(entries@, player_id);
                    let pushed = entries@.push((player_id, (secret, now)));
                    assert(pushed.drop_last() =~= entries@);
                }
                entries.push((player_id, (secret, now)));
            },
        }
        core::mem::swap(&mut entries, &mut self.entries);
    }

    /// Answers the sum-modulo challenge: the sum of all known secrets
    /// reduced modulo `modulo`, along with the tick of the latest
    /// report (or `now` when nothing is on record, mirroring a fresh
    /// reading of the clock).
    pub fn calculate_sum_modulo(&self, modulo: u128, now: u64) -> (r: (u128, u64))
        requires
            modulo > 0,
            self.total() <= u128::MAX,
        ensures
            r.0 == self.total() % (modulo as int),
            r.1 == match self.spec_latest_tick() {
                Some(t) => t,
                None => now,
            },
    {
        proof {
            use_type_invariant(&*self);
        }
        let n = self.entries.len();
        let mut sum: u128 = 0;
        let mut latest: Option<u64> = None;
        let mut i: usize = 0;
        while i < n
            invariant
                i <= n,
                n == self.entries@.len(),
                self.distinct_players(),
                self.total() == secret_entries_sum(self.entries@),
                self.total() <= u128::MAX,
                sum == secret_entries_sum(self.entries@.subrange(0, i as int)),
                latest == latest_tick(self.entries@.subrange(0, i as int)),
            decreases n - i,
        {
            let (_, (secret, tick)) = self.entries[i];
            proof {
                let prefix = self.entries@.subrange(0, i as int);
                let extended = self.entries@.subrange(0, i + 1 as int);
                assert(extended.drop_last() =~= prefix);
                assert(extended.last() == self.entries@[i as int]);
                lemma_secret_sum_prefix_bound(self.entries@, i + 1 as int);
            }
            sum = sum + secret;
            latest = match latest {
                None => Some(tick),
                Some(t) => if tick > t {
                    Some(tick)
                } else {
                    Some(t)
                },
            };
            i = i + 1;
        }
        proof {
            assert(self.entries@.subrange(0, n as int) =~= self.entries@);
        }
        let final_tick = match latest {
            Some(t) => t,
            None => now,
        };
        (sum % modulo, final_tick)
    }

    /// True when the sum of all recorded secrets still fits the
    /// counter, so the sum-modulo answer can be computed exactly.
    pub fn total_fits(&self) -> (r: bool)
        ensures
            r == (self.total() <= u128::MAX),
    {
        proof {
            use_type_invariant(&*self);
        }
        let n = self.entries.len();
        let mut sum: u128 = 0;
        let mut i: usize = 0;
        while i < n
            invariant
                i <= n,
                n == self.entries@.len(),
                self.total() == secret_entries_sum(self.entries@),
                sum == secret_entries_sum(self.entries@.subrange(0, i as int)),
            decreases n - i,
        {
            let (_, (secret, _)) = self.entries[i];
            proof {
                let prefix = self.entries@.subrange(0, i as int);
                let extended = self.entries@.subrange(0, i + 1 as int);
                assert(extended.drop_last() =~= prefix);
                assert(extended.last() == self.entries@[i as int]);
            }
            if secret > u128::MAX - sum {
                proof {
                    lemma_secret_sum_prefix_bound(self.entries@, i + 1 as int);
                }
                return false;
            }
            sum = sum + secret;
            i = i + 1;
        }
        proof {
            assert(self.entries@.subrange(0, n as int) =~= self.entries@);
        }
        true
    }

    /// True when some secret was reported after the given tick.
    pub fn has_secret_updated_after(&self, tick: u64) -> (r: bool)
        ensures
            r == exists|player_id: u32|
                #![auto]
                self.secrets().contains_key(player_id) && self.secrets()[player_id].1 > tick,
    {
        proof {
            use_type_invariant(&*self);
        }
        let n = self.entries.len();
        let mut i: usize = 0;
        while i < n
            invariant
                i <= n,
                n == self.entries@.len(),
                self.distinct_players(),
                forall|k: int| 0 <= k < i ==> (#[trigger] self.entries@[k]).1.1 <= tick,
            decreases n - i,
        {
            let (_, (_, t)) = self.entries[i];
            if t > tick {
                proof {
                    lemma_secret_entries_found(self.entries@, i as int);
                    let witness = self.entries@[i as int].0;
                    assert(self.secrets().contains_key(witness) && self.secrets()[witness].1
                        > tick);
                }
                return true;
            }
            i = i + 1;
        }
        proof {
            assert forall|player_id: u32| self.secrets().contains_key(player_id) implies
                self.secrets()[player_id].1 <= tick by {
                if forall|k: int|
                    0 <= k < self.entries@.len() ==> (#[trigger] self.entries@[k]).0
                        != player_id {
                    lemma_secret_entries_absent(self.entries@, player_id);
                } else {
                    let k = choose|k: int|
                        0 <= k < self.entries@.len() && (#[trigger] self.entries@[k]).0
                            == player_id;
                    lemma_secret_entries_found(self.entries@, k);
                }
            }
        }
        false
    }
}

/// Every prefix sum of the entries is bounded by the whole sum, since
/// all secrets are nonnegative.
proof fn lemma_secret_sum_prefix_bound(s: Seq<(u32, (u128, u64))>, i: int)
    requires
        0 <= i <= s.len(),
    ensures
        secret_entries_sum(s.subrange(0, i)) <= secret_entries_sum(s),
    decreases s.len() - i,
{
    if i == s.len() {
        assert(s.subrange(0, i) =~= s);
    } else {
        lemma_secret_sum_prefix_bound(s, i + 1);
        let shorter = s.subrange(0, i);
        let longer = s.subrange(0, i + 1);
        assert(longer.drop_last() =~= shorter);
        assert(longer.last().1.0 >= 0);
    }
}

} // verus!
