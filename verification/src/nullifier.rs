//! The wallet's partial view of the authenticated nullifier set.
//!
//! The full set lives with the authority as a sparse accumulator; the wallet
//! keeps only the proof paths it has fetched or produced, each keyed by the
//! root it was verified under. A cached answer is live only while the current
//! root equals the root it was obtained under; a root change makes it stale
//! at the next access (lazy invalidation), never silently trusted.
//!
//! Abstractly a state is a pair of the current root and a map from nullifier
//! to the remembered `(root, spent, path)` answer; every operation's contract
//! is stated over that pair.

use vstd::prelude::*;
use crate::errors::LedgerError;
use crate::util::copy_u64s;

verus! {

/// The remembered answers: nullifier to (root verified under, spent, path).
pub type CacheView = Map<u64, (u64, bool, Seq<u64>)>;

/// A membership or non-membership path for one nullifier against one root,
/// as returned by the authority; its cryptographic verification is the
/// external capability's job and happens before the path is remembered.
#[derive(Clone, PartialEq, Eq, Debug)]
pub struct SetMerkleProof {
    pub root: u64,
    pub nullifier: u64,
    pub spent: bool,
    pub path: Vec<u64>,
}

struct CacheEntry {
    nullifier: u64,
    root: u64,
    spent: bool,
    path: Vec<u64>,
}

/// The local partial view: current root plus remembered proof paths.
pub struct NullifierSet {
    root: u64,
    cache: Vec<CacheEntry>,
}

/// The map a run of remembered entries denotes; a later entry for the same
/// nullifier supersedes an earlier one.
spec fn map_of(s: Seq<CacheEntry>) -> CacheView
    decreases s.len(),
{
    if s.len() == 0 {
        Map::empty()
    } else {
        map_of(s.drop_last()).insert(
            s.last().nullifier,
            (s.last().root, s.last().spent, s.last().path@),
        )
    }
}

proof fn lemma_map_of_found(s: Seq<CacheEntry>, n: u64, i: int)
    requires
        0 <= i < s.len(),
        s[i].nullifier == n,
        forall|j: int| i < j < s.len() ==> (#[trigger] s[j]).nullifier != n,
    ensures
        map_of(s).dom().contains(n),
        map_of(s)[n] == (s[i].root, s[i].spent, s[i].path@),
    decreases s.len(),
{
    if i == s.len() - 1 {
    } else {
        assert(s.drop_last()[i] == s[i]);
        lemma_map_of_found(s.drop_last(), n, i);
        assert(s.last().nullifier != n);
    }
}

proof fn lemma_map_of_absent(s: Seq<CacheEntry>, n: u64)
    requires
        forall|j: int| 0 <= j < s.len() ==> (#[trigger] s[j]).nullifier != n,
    ensures
        !map_of(s).dom().contains(n),
    decreases s.len(),
{
    if s.len() > 0 {
        lemma_map_of_absent(s.drop_last(), n);
    }
}

/// What a locally answerable check returns in abstract state `st`: the
/// remembered answer for `n`, but only while its root is the current one.
pub open spec fn answer_of(st: (u64, CacheView), n: u64) -> Option<(bool, Seq<u64>)> {
    if st.1.dom().contains(n) && st.1[n].0 == st.0 {
        Some((st.1[n].1, st.1[n].2))
    } else {
        None
    }
}

/// One committed block's abstract effect: the root becomes the block's
/// post-root and every nullifier it spent is cached as spent under it.
pub open spec fn mark_spent(m: CacheView, root: u64, s: Seq<u64>) -> CacheView
    decreases s.len(),
{
    if s.len() == 0 {
        m
    } else {
        mark_spent(m, root, s.drop_last()).insert(s.last(), (root, true, Seq::<u64>::empty()))
    }
}

pub open spec fn apply_tr(st: (u64, CacheView), e: (u64, Seq<u64>)) -> (u64, CacheView) {
    (e.0, mark_spent(st.1, e.0, e.1))
}

pub open spec fn apply_all(st: (u64, CacheView), es: Seq<(u64, Seq<u64>)>) -> (u64, CacheView)
    decreases es.len(),
{
    if es.len() == 0 {
        st
    } else {
        apply_tr(apply_all(st, es.drop_last()), es.last())
    }
}

/// Protocol freshness: a block that spends anything commits to a nullifier
/// root not seen earlier in the run (the set only grows, and the root is a
/// binding commitment to it).
pub open spec fn event_fresh_at(r0: u64, es: Seq<(u64, Seq<u64>)>, i: int) -> bool {
    es[i].1.len() > 0 ==> es[i].0 != r0 && (forall|j: int| 0 <= j < i ==> (#[trigger] es[j]).0
        != es[i].0)
}

pub open spec fn events_fresh(r0: u64, es: Seq<(u64, Seq<u64>)>) -> bool {
    forall|i: int| 0 <= i < es.len() ==> #[trigger] event_fresh_at(r0, es, i)
}

proof fn lemma_contains_split(s: Seq<u64>, k: u64)
    requires
        s.len() > 0,
    ensures
        s.contains(k) <==> (s.drop_last().contains(k) || s.last() == k),
{
    if s.contains(k) {
        let i = choose|i: int| 0 <= i < s.len() && s[i] == k;
        if i < s.len() - 1 {
            assert(s.drop_last()[i] == k);
            assert(s.drop_last().contains(k));
        }
    }
    if s.drop_last().contains(k) {
        let i = choose|i: int| 0 <= i < s.drop_last().len() && s.drop_last()[i] == k;
        assert(s[i] == k);
    }
}

proof fn lemma_mark_spent_at(m: CacheView, root: u64, s: Seq<u64>, k: u64)
    ensures
        mark_spent(m, root, s).dom().contains(k) <==> (m.dom().contains(k) || s.contains(k)),
        s.contains(k) ==> mark_spent(m, root, s)[k] == (root, true, Seq::<u64>::empty()),
        !s.contains(k) && m.dom().contains(k) ==> mark_spent(m, root, s)[k] == m[k],
    decreases s.len(),
{
    if s.len() > 0 {
        lemma_mark_spent_at(m, root, s.drop_last(), k);
        lemma_contains_split(s, k);
    } else {
        if s.contains(k) {
            let i = choose|i: int| 0 <= i < s.len() && s[i] == k;
        }
    }
}

proof fn lemma_no_spent_mark(st: (u64, CacheView), es: Seq<(u64, Seq<u64>)>, n: u64, r: u64)
    requires
        forall|i: int| 0 <= i < es.len() && (#[trigger] es[i]).1.len() > 0 ==> es[i].0 != r,
        st.1.dom().contains(n) ==> !(st.1[n].0 == r && st.1[n].1 == true),
    ensures
        ({
            let fin = apply_all(st, es);
            fin.1.dom().contains(n) ==> !(fin.1[n].0 == r && fin.1[n].1 == true)
        }),
    decreases es.len(),
{
    if es.len() > 0 {
        assert forall|i: int|
            0 <= i < es.drop_last().len() && (#[trigger] es.drop_last()[i]).1.len()
                > 0 implies es.drop_last()[i].0 != r by {
            assert(es.drop_last()[i] == es[i]);
        }
        lemma_no_spent_mark(st, es.drop_last(), n, r);
        let mid = apply_all(st, es.drop_last());
        let e = es.last();
        lemma_mark_spent_at(mid.1, e.0, e.1, n);
        if e.1.contains(n) {
            assert(es[es.len() - 1] == e);
            assert(e.1.len() > 0);
        }
    }
}

/// Law (non-membership soundness): if the local view answers `spent = false`
/// for `n` under root R, then no run of committed-block events whose fresh
/// roots respect the protocol can make it answer `spent = true` while the
/// current root is still R — the root must change first.
pub proof fn lemma_nonmembership_sound(st: (u64, CacheView), es: Seq<(u64, Seq<u64>)>, n: u64)
    requires
        answer_of(st, n) matches Some(ans) && ans.0 == false,
        events_fresh(st.0, es),
    ensures
        apply_all(st, es).0 == st.0 ==> !(answer_of(apply_all(st, es), n) matches Some(fin)
            && fin.0 == true),
{
    assert forall|i: int|
        0 <= i < es.len() && (#[trigger] es[i]).1.len() > 0 implies es[i].0 != st.0 by {
        assert(event_fresh_at(st.0, es, i));
    }
    lemma_no_spent_mark(st, es, n, st.0);
}

/// Law (idempotent remember): merging the same verified proof for the same
/// nullifier twice leaves the root and the whole map of cached answers
/// exactly as merging it once does.
pub proof fn lemma_remember_idempotent(st: (u64, CacheView), n: u64, spent: bool, path: Seq<u64>)
    ensures
        ({
            let once = (st.0, st.1.insert(n, (st.0, spent, path)));
            (once.0, once.1.insert(n, (st.0, spent, path))) == once
        }),
{
    assert(st.1.insert(n, (st.0, spent, path)).insert(n, (st.0, spent, path)) =~= st.1.insert(
        n,
        (st.0, spent, path),
    ));
}

/// Law (no regression): merging a proof for one nullifier leaves every other
/// nullifier's answer untouched. For the merged nullifier itself, `remember`
/// refuses a proof that contradicts a live answer, so an answer live under
/// the current root can only be filled in, never flipped.
pub proof fn lemma_remember_preserves_others(
    st: (u64, CacheView),
    n: u64,
    entry: (u64, bool, Seq<u64>),
    m: u64,
)
    requires
        m != n,
    ensures
        answer_of((st.0, st.1.insert(n, entry)), m) == answer_of(st, m),
{
}

impl NullifierSet {
    /// The current root of the full set, as last reported by the authority.
    pub closed spec fn root_spec(self) -> u64 {
        self.root
    }

    /// The remembered answers.
    pub closed spec fn cached(self) -> CacheView {
        map_of(self.cache@)
    }

    /// The abstract state every contract below speaks of.
    pub open spec fn state_spec(self) -> (u64, CacheView) {
        (self.root_spec(), self.cached())
    }

    /// The locally answerable check for `n` in the current state.
    pub open spec fn answer(self, n: u64) -> Option<(bool, Seq<u64>)> {
        answer_of(self.state_spec(), n)
    }

    /// An empty local view under a published root.
    pub fn new(root: u64) -> (s: Self)
        ensures
            s.root_spec() == root,
            s.cached() == Map::<u64, (u64, bool, Seq<u64>)>::empty(),
    {
        NullifierSet { root, cache: Vec::new() }
    }

    /// The current root.
    pub fn hash(&self) -> (r: u64)
        ensures
            r == self.root_spec(),
    {
        self.root
    }

    /// The position of the governing (latest) cache entry for `n`, if any.
    fn find_last(&self, n: u64) -> (r: Option<usize>)
        ensures
            match r {
                Some(i) => i < self.cache@.len() && self.cache@[i as int].nullifier == n
                    && (forall|j: int| i < j < self.cache@.len() ==> (#[trigger] self.cache@[j]).nullifier != n),
                None => forall|j: int| 0 <= j < self.cache@.len() ==> (#[trigger] self.cache@[j]).nullifier != n,
            },
    {
        let mut i: usize = self.cache.len();
        while i > 0
            invariant
                0 <= i <= self.cache@.len(),
                forall|j: int| i <= j < self.cache@.len() ==> (#[trigger] self.cache@[j]).nullifier != n,
            decreases i,
        {
            i -= 1;
            if self.cache[i].nullifier == n {
                return Some(i);
            }
        }
        None
    }

    /// Answer from the local cache alone, with a locally reconstructed proof;
    /// `None` where no path is remembered or the remembered one is stale
    /// under the current root (the caller must fetch with proof).
    pub fn contains(&self, nullifier: u64) -> (r: Option<(bool, SetMerkleProof)>)
        ensures
            match r {
                Some((sp, pf)) => self.answer(nullifier) == Some((sp, pf.path@)) && pf.root
                    == self.root_spec() && pf.nullifier == nullifier && pf.spent == sp,
                None => self.answer(nullifier) is None,
            },
    {
        match self.find_last(nullifier) {
            Some(i) => {
                proof {
                    lemma_map_of_found(self.cache@, nullifier, i as int);
                }
                let e = &self.cache[i];
                if e.root == self.root {
                    Some(
                        (
                            e.spent,
                            SetMerkleProof {
                                root: e.root,
                                nullifier,
                                spent: e.spent,
                                path: copy_u64s(&e.path),
                            },
                        ),
                    )
                } else {
                    None
                }
            },
            None => {
                proof {
                    lemma_map_of_absent(self.cache@, nullifier);
                }
                None
            },
        }
    }

    /// Merge a verified proof path into the local view. Succeeds exactly for
    /// a proof carried under the current root, for the named nullifier, that
    /// does not contradict a live cached answer; merging an already-present
    /// answer changes nothing the view can tell apart (idempotence).
    pub fn remember(&mut self, nullifier: u64, pf: SetMerkleProof) -> (r: Result<
        (),
        LedgerError,
    >)
        ensures
            match r {
                Ok(()) => final(self).root_spec() == old(self).root_spec() && final(self).cached()
                    == old(self).cached().insert(nullifier, (pf.root, pf.spent, pf.path@))
                    && pf.root == old(self).root_spec() && pf.nullifier == nullifier,
                Err(e) => e == LedgerError::InvalidNullifierProof && *final(self) == *old(self),
            },
            r is Ok <==> (pf.root == old(self).root_spec() && pf.nullifier == nullifier && (old(self).answer(nullifier) matches Some(ans) ==> ans.0 == pf.spent)),
    {
        if pf.nullifier != nullifier || pf.root != self.root {
            return Err(LedgerError::InvalidNullifierProof);
        }
        let found = self.find_last(nullifier);
        if let Some(i) = found {
            proof {
                lemma_map_of_found(self.cache@, nullifier, i as int);
            }
            let e = &self.cache[i];
            if e.root == self.root && e.spent != pf.spent {
                return Err(LedgerError::InvalidNullifierProof);
            }
        } else {
            proof {
                lemma_map_of_absent(self.cache@, nullifier);
            }
        }
        let ghost pre = self.cache@;
        self.cache.push(
            CacheEntry { nullifier, root: pf.root, spent: pf.spent, path: pf.path },
        );
        proof {
            assert(self.cache@.drop_last() =~= pre);
        }
        Ok(())
    }

    /// Apply one committed block's spends: adopt its post-root and cache each
    /// spent nullifier as spent under it. A block that spends something yet
    /// reuses the current root breaks the protocol and is rejected whole.
    pub fn apply_spent(&mut self, new_root: u64, spent: &Vec<u64>) -> (r: Result<
        (),
        LedgerError,
    >)
        ensures
            match r {
                Ok(()) => final(self).state_spec() == apply_tr(
                    old(self).state_spec(),
                    (new_root, spent@),
                ),
                Err(e) => e == LedgerError::ProtocolViolation && *final(self) == *old(self),
            },
            r is Ok <==> (spent@.len() == 0 || new_root != old(self).root_spec()),
    {
        if spent.len() > 0 && new_root == self.root {
            return Err(LedgerError::ProtocolViolation);
        }
        let ghost pre = self.cached();
        let mut k: usize = 0;
        while k < spent.len()
            invariant
                0 <= k <= spent@.len(),
                self.cached() == mark_spent(pre, new_root, spent@.subrange(0, k as int)),
                self.root == old(self).root_spec(),
            decreases spent@.len() - k,
        {
            let ghost before = self.cache@;
            self.cache.push(
                CacheEntry { nullifier: spent[k], root: new_root, spent: true, path: Vec::new() },
            );
            proof {
                assert(self.cache@.drop_last() =~= before);
                assert(spent@.subrange(0, k + 1).drop_last() =~= spent@.subrange(0, k as int));
                assert(spent@.subrange(0, k + 1).last() == spent@[k as int]);
            }
            k += 1;
        }
        self.root = new_root;
        proof {
            assert(spent@.subrange(0, k as int) =~= spent@);
        }
        Ok(())
    }

    /// The fetch-then-remember step of a nullifier check: absorb the proof
    /// the authority returned for `nullifier` under the current root, and
    /// answer from it. A proof for another root or nullifier, or one that
    /// contradicts a live cached answer, fails verification and aborts the
    /// check instead of being trusted.
    pub fn absorb_proof(&mut self, nullifier: u64, pf: SetMerkleProof) -> (r: Result<
        (bool, SetMerkleProof),
        LedgerError,
    >)
        ensures
            match r {
                Ok((sp, out)) => sp == pf.spent && out.root == pf.root && out.nullifier
                    == pf.nullifier && out.spent == pf.spent && out.path@ == pf.path@ && final(self).root_spec() == old(self).root_spec() && final(self).cached() == old(self).cached().insert(nullifier, (pf.root, pf.spent, pf.path@)),
                Err(e) => e == LedgerError::InvalidNullifierProof && *final(self) == *old(self),
            },
            r is Ok <==> (pf.root == old(self).root_spec() && pf.nullifier == nullifier && (old(self).answer(nullifier) matches Some(ans) ==> ans.0 == pf.spent)),
    {
        let spent = pf.spent;
        let out = SetMerkleProof {
            root: pf.root,
            nullifier: pf.nullifier,
            spent: pf.spent,
            path: copy_u64s(&pf.path),
        };
        match self.remember(nullifier, pf) {
            Ok(()) => Ok((spent, out)),
            Err(e) => Err(e),
        }
    }
}

} // verus!
