//! Assembly of a law's revision chain: a table of laws keyed by law id,
//! date-ascending ordering of each chain, and selection of the
//! authoritative (latest) version.

use crate::date::Date;
use crate::law::{LawData, LawPatchInfo};
use crate::strutil::{lemma_str_le_antisymmetric, lemma_str_le_connected, lemma_str_le_transitive, str_le, str_le_exec};
use vstd::prelude::*;

verus! {

/// Sort key of an optional month or day: a missing component sorts before
/// every present one.
pub open spec fn opt_key(o: Option<u64>) -> int {
    match o {
        Some(v) => v as int,
        None => -1,
    }
}

/// The date half of the chain order: Gregorian year, then month, then day,
/// with missing components first. Unlike the partial comparison of dates,
/// this is total.
pub open spec fn date_key_lt(a: Date, b: Date) -> bool {
    ||| a.ad_year < b.ad_year
    ||| (a.ad_year == b.ad_year && opt_key(a.month) < opt_key(b.month))
    ||| (a.ad_year == b.ad_year && opt_key(a.month) == opt_key(b.month) && opt_key(a.day) < opt_key(
        b.day,
    ))
}

/// Both dates have the same chain key.
pub open spec fn date_key_eq(a: Date, b: Date) -> bool {
    a.ad_year == b.ad_year && opt_key(a.month) == opt_key(b.month) && opt_key(a.day) == opt_key(
        b.day,
    )
}

/// The total order of a revision chain: ascending by date key; versions
/// sharing a date key are tied apart lexicographically by patch id.
pub open spec fn patch_le(a: LawPatchInfo, b: LawPatchInfo) -> bool {
    ||| date_key_lt(a.patch_date, b.patch_date)
    ||| (date_key_eq(a.patch_date, b.patch_date) && str_le(a.patch_id@, b.patch_id@))
}

/// A chain ordered ascending by the chain order.
pub open spec fn chain_sorted(s: Seq<LawPatchInfo>) -> bool {
    forall|i: int, j: int| 0 <= i < j < s.len() ==> patch_le(#[trigger] s[i], #[trigger] s[j])
}

/// Any two versions are related one way or the other by the chain order.
pub proof fn lemma_patch_le_connected(a: LawPatchInfo, b: LawPatchInfo)
    ensures
        patch_le(a, b) || patch_le(b, a),
{
    lemma_str_le_connected(a.patch_id@, b.patch_id@);
}

/// The chain order is transitive.
pub proof fn lemma_patch_le_transitive(a: LawPatchInfo, b: LawPatchInfo, c: LawPatchInfo)
    requires
        patch_le(a, b),
        patch_le(b, c),
    ensures
        patch_le(a, c),
{
    if date_key_eq(a.patch_date, b.patch_date) && date_key_eq(b.patch_date, c.patch_date) {
        lemma_str_le_transitive(a.patch_id@, b.patch_id@, c.patch_id@);
    }
}

/// Decides the chain order on two versions.
pub fn patch_le_exec(a: &LawPatchInfo, b: &LawPatchInfo) -> (r: bool)
    ensures
        r == patch_le(*a, *b),
{
    let da = &a.patch_date;
    let db = &b.patch_date;
    if da.ad_year < db.ad_year {
        return true;
    }
    if da.ad_year > db.ad_year {
        return false;
    }
    if opt_key_lt_exec(da.month, db.month) {
        return true;
    }
    if !opt_key_eq_exec(da.month, db.month) {
        return false;
    }
    if opt_key_lt_exec(da.day, db.day) {
        return true;
    }
    if !opt_key_eq_exec(da.day, db.day) {
        return false;
    }
    str_le_exec(a.patch_id.as_str(), b.patch_id.as_str())
}

/// Decides `opt_key(a) == opt_key(b)`.
fn opt_key_eq_exec(a: Option<u64>, b: Option<u64>) -> (r: bool)
    ensures
        r == (opt_key(a) == opt_key(b)),
{
    match (a, b) {
        (None, None) => true,
        (Some(x), Some(y)) => x == y,
        _ => false,
    }
}

/// Decides `opt_key(a) < opt_key(b)`.
fn opt_key_lt_exec(a: Option<u64>, b: Option<u64>) -> (r: bool)
    ensures
        r == (opt_key(a) < opt_key(b)),
{
    match (a, b) {
        (None, Some(_)) => true,
        (Some(x), Some(y)) => x < y,
        _ => false,
    }
}

/// Sorts a revision chain ascending by the chain order, keeping exactly the
/// same versions. The result is the same whatever order the versions were
/// discovered in: the order is total up to versions that share date key and
/// patch id.
#[verifier::loop_isolation(false)]
pub fn sort_patches(v: &mut Vec<LawPatchInfo>)
    ensures
        chain_sorted(final(v)@),
        final(v)@.to_multiset() == old(v)@.to_multiset(),
        final(v)@.len() == old(v)@.len(),
{
    broadcast use vstd::seq_lib::group_to_multiset_ensures;
    broadcast use vstd::seq_lib::to_multiset_insert;

    let ghost orig = v@;
    if v.len() <= 1 {
        return ;
    }
    let mut i: usize = 1;
    while i < v.len()
        invariant
            1 <= i <= v@.len(),
            v@.len() == orig.len(),
            chain_sorted(v@.subrange(0, i as int)),
            v@.to_multiset() == orig.to_multiset(),
        decreases v@.len() - i,
    {
        let mut j: usize = i;
        while j > 0 && !patch_le_exec(&v[j - 1], &v[i])
            invariant
                0 <= j <= i,
                forall|k: int| j <= k < i ==> !patch_le(#[trigger] v@[k], v@[i as int]),
            decreases j,
        {
            j -= 1;
        }
        if j < i {
            let ghost before = v@;
            let x = v.remove(i);
            v.insert(j, x);
            proof {
                let after = v@;
                assert(after =~= before.remove(i as int).insert(j as int, x));
                assert(after.to_multiset() == orig.to_multiset()) by {
                    assert(before.remove(i as int).to_multiset() =~= before.to_multiset().remove(
                        x,
                    ));
                    assert(after.to_multiset() =~= before.to_multiset().remove(x).insert(x));
                    assert(before.to_multiset().contains(x));
                    assert(before.to_multiset().remove(x).insert(x) =~= before.to_multiset());
                }
                let pre = before.subrange(0, i as int);
                assert(chain_sorted(pre));
                assert forall|k1: int, k2: int| 0 <= k1 < k2 < i + 1 implies patch_le(
                    #[trigger] after[k1],
                    #[trigger] after[k2],
                ) by {
                    if k1 < j {
                        assert(after[k1] == pre[k1]);
                    } else if k1 == j {
                        assert(after[k1] == x);
                    } else {
                        assert(after[k1] == pre[k1 - 1]);
                    }
                    if k2 < j {
                        assert(after[k2] == pre[k2]);
                    } else if k2 == j {
                        assert(after[k2] == x);
                    } else {
                        assert(after[k2] == pre[k2 - 1]);
                    }
                    if k2 < j {
                        assert(patch_le(pre[k1], pre[k2]));
                    } else if k1 < j && k2 == j {
                        assert(patch_le(pre[j - 1], x));
                        if k1 < j - 1 {
                            assert(patch_le(pre[k1], pre[j - 1]));
                            lemma_patch_le_transitive(pre[k1], pre[j - 1], x);
                        }
                    } else if k1 < j && k2 > j {
                        assert(patch_le(pre[k1], pre[k2 - 1]));
                    } else if k1 == j && k2 > j {
                        assert(!patch_le(pre[k2 - 1], x));
                        lemma_patch_le_connected(x, pre[k2 - 1]);
                    } else {
                        assert(patch_le(pre[k1 - 1], pre[k2 - 1]));
                    }
                }
                assert(chain_sorted(after.subrange(0, i as int + 1)));
            }
        } else {
            proof {
                let pre = v@.subrange(0, i as int);
                assert(chain_sorted(pre));
                assert forall|k: int| 0 <= k < i implies patch_le(
                    #[trigger] v@[k],
                    v@[i as int],
                ) by {
                    if k < i - 1 {
                        assert(patch_le(pre[k], pre[i - 1]));
                        lemma_patch_le_transitive(pre[k], pre[i - 1], v@[i as int]);
                    }
                }
                assert(chain_sorted(v@.subrange(0, i as int + 1)));
            }
        }
        i += 1;
    }
    proof {
        assert(v@.subrange(0, v@.len() as int) =~= v@);
    }
}

/// Both versions carry the same sort key: the same date key and the same
/// patch id.
pub open spec fn patch_key_eq(a: LawPatchInfo, b: LawPatchInfo) -> bool {
    date_key_eq(a.patch_date, b.patch_date) && a.patch_id@ == b.patch_id@
}

/// No two positions of the chain carry the same sort key.
pub open spec fn distinct_keys(s: Seq<LawPatchInfo>) -> bool {
    forall|i: int, j: int|
        0 <= i < j < s.len() ==> !patch_key_eq(#[trigger] s[i], #[trigger] s[j])
}

/// The chain order relates two versions both ways only when they share
/// their sort key.
pub proof fn lemma_patch_le_antisymmetric_key(a: LawPatchInfo, b: LawPatchInfo)
    requires
        patch_le(a, b),
        patch_le(b, a),
    ensures
        patch_key_eq(a, b),
{
    lemma_str_le_antisymmetric(a.patch_id@, b.patch_id@);
}

/// A law's ordered chain is deterministic: two date-ascending arrangements
/// of the same versions are the same sequence, as long as no two versions
/// share both date key and patch id. The order a corpus walk discovers the
/// files in therefore cannot change the chain.
pub proof fn lemma_sorted_chain_unique(s1: Seq<LawPatchInfo>, s2: Seq<LawPatchInfo>)
    requires
        chain_sorted(s1),
        chain_sorted(s2),
        s1.to_multiset() == s2.to_multiset(),
        distinct_keys(s1),
    ensures
        s1 == s2,
    decreases s1.len(),
{
    broadcast use vstd::seq_lib::group_to_multiset_ensures;

    if s1.len() == 0 {
        assert(s1.len() == s1.to_multiset().len());
        assert(s2.len() == s2.to_multiset().len());
        assert(s1 =~= s2);
    } else {
        assert(s1.contains(s1[0]));
        assert(s2.to_multiset().count(s1[0]) > 0);
        assert(s2.contains(s1[0]));
        let j = choose|j: int| 0 <= j < s2.len() && s2[j] == s1[0];
        assert(s2.contains(s2[0]));
        assert(s1.to_multiset().count(s2[0]) > 0);
        assert(s1.contains(s2[0]));
        let k = choose|k: int| 0 <= k < s1.len() && s1[k] == s2[0];
        if j > 0 {
            assert(patch_le(s2[0], s2[j]));
        } else {
            lemma_patch_le_connected(s2[0], s2[0]);
        }
        if k > 0 {
            assert(patch_le(s1[0], s1[k]));
        } else {
            lemma_patch_le_connected(s1[0], s1[0]);
        }
        lemma_patch_le_antisymmetric_key(s1[0], s2[0]);
        if k > 0 {
            assert(patch_key_eq(s1[0], s1[k]));
            assert(false);
        }
        assert(s1[0] == s2[0]);
        let t1 = s1.remove(0);
        let t2 = s2.remove(0);
        assert(t1.to_multiset() =~= s1.to_multiset().remove(s1[0]));
        assert(t2.to_multiset() =~= s2.to_multiset().remove(s2[0]));
        assert(chain_sorted(t1)) by {
            assert(forall|a: int, b: int|
                0 <= a < b < t1.len() ==> t1[a] == s1[a + 1] && t1[b] == s1[b + 1] && patch_le(
                    s1[a + 1],
                    s1[b + 1],
                ));
        }
        assert(chain_sorted(t2)) by {
            assert(forall|a: int, b: int|
                0 <= a < b < t2.len() ==> t2[a] == s2[a + 1] && t2[b] == s2[b + 1] && patch_le(
                    s2[a + 1],
                    s2[b + 1],
                ));
        }
        assert(distinct_keys(t1)) by {
            assert(forall|a: int, b: int|
                0 <= a < b < t1.len() ==> t1[a] == s1[a + 1] && t1[b] == s1[b + 1]
                    && !patch_key_eq(s1[a + 1], s1[b + 1]));
        }
        lemma_sorted_chain_unique(t1, t2);
        assert(s1 =~= s2) by {
            assert(s1.len() == s2.len());
            assert(forall|i: int| 1 <= i < s1.len() ==> s1[i] == t1[i - 1] && s2[i] == t2[i - 1]);
        }
    }
}

/// Some law of the table carries this id.
pub open spec fn has_law(s: Seq<LawData>, id: Seq<char>) -> bool {
    exists|k: int| 0 <= k < s.len() && (#[trigger] s[k]).id@ == id
}

/// The per-law accumulation of a corpus scan: one record per law id, each
/// owning the version entries seen so far for that id. Ids are unique.
pub struct LawTable {
    /// The records, one per law id.
    pub laws: Vec<LawData>,
}

impl LawTable {
    /// Ids are pairwise distinct.
    pub open spec fn wf(self) -> bool {
        forall|i: int, j: int|
            0 <= i < j < self.laws@.len() ==> (#[trigger] self.laws@[i]).id@ != (
            #[trigger] self.laws@[j]).id@
    }

    /// An empty table.
    pub fn new() -> (t: LawTable)
        ensures
            t.laws@.len() == 0,
            t.wf(),
    {
        LawTable { laws: Vec::new() }
    }

    /// Looks a law id up: the index of the record with that id, or `None`
    /// when no record carries it.
    pub fn find(&self, id: &str) -> (r: Option<usize>)
        ensures
            match r {
                Some(k) => k < self.laws@.len() && self.laws@[k as int].id@ == id@,
                None => !has_law(self.laws@, id@),
            },
    {
        let mut i: usize = 0;
        while i < self.laws.len()
            invariant
                0 <= i <= self.laws@.len(),
                forall|k: int| 0 <= k < i ==> (#[trigger] self.laws@[k]).id@ != id@,
            decreases self.laws@.len() - i,
        {
            if crate::strutil::str_eq(self.laws[i].id.as_str(), id) {
                return Some(i);
            }
            i += 1;
        }
        None
    }

    /// Adds the record of a law id the table does not hold yet.
    pub fn insert_new(&mut self, data: LawData)
        requires
            old(self).wf(),
            !has_law(old(self).laws@, data.id@),
        ensures
            final(self).laws@ == old(self).laws@.push(data),
            final(self).wf(),
    {
        self.laws.push(data);
    }

    /// Appends one more version entry to the record at index `k`; every
    /// other record and every other field of that record stays as it was.
    pub fn add_patch(&mut self, k: usize, patch: LawPatchInfo)
        requires
            old(self).wf(),
            k < old(self).laws@.len(),
        ensures
            final(self).laws@.len() == old(self).laws@.len(),
            forall|j: int|
                0 <= j < old(self).laws@.len() && j != k ==> final(self).laws@[j] == old(
                    self,
                ).laws@[j],
            final(self).laws@[k as int].date == old(self).laws@[k as int].date,
            final(self).laws@[k as int].file == old(self).laws@[k as int].file,
            final(self).laws@[k as int].name == old(self).laws@[k as int].name,
            final(self).laws@[k as int].num == old(self).laws@[k as int].num,
            final(self).laws@[k as int].id == old(self).laws@[k as int].id,
            final(self).laws@[k as int].patch@ == old(self).laws@[k as int].patch@.push(patch),
            final(self).wf(),
    {
        let mut law = self.laws.remove(k);
        law.patch.push(patch);
        self.laws.insert(k, law);
        proof {
            assert(final(self).laws@ =~= old(self).laws@.update(
                k as int,
                final(self).laws@[k as int],
            ));
        }
    }

    /// Sorts every record's version list ascending by the chain order,
    /// touching nothing else.
    #[verifier::loop_isolation(false)]
    pub fn sort_all(&mut self)
        requires
            old(self).wf(),
        ensures
            final(self).laws@.len() == old(self).laws@.len(),
            forall|j: int|
                0 <= j < old(self).laws@.len() ==> {
                    let n = #[trigger] final(self).laws@[j];
                    let o = old(self).laws@[j];
                    &&& n.date == o.date
                    &&& n.file == o.file
                    &&& n.name == o.name
                    &&& n.num == o.num
                    &&& n.id == o.id
                    &&& chain_sorted(n.patch@)
                    &&& n.patch@.to_multiset() == o.patch@.to_multiset()
                },
            final(self).wf(),
    {
        let ghost orig = self.laws@;
        let mut i: usize = 0;
        while i < self.laws.len()
            invariant
                0 <= i <= self.laws@.len(),
                self.laws@.len() == orig.len(),
                forall|j: int| i <= j < orig.len() ==> self.laws@[j] == orig[j],
                forall|j: int|
                    0 <= j < i ==> {
                        let n = #[trigger] self.laws@[j];
                        let o = orig[j];
                        &&& n.date == o.date
                        &&& n.file == o.file
                        &&& n.name == o.name
                        &&& n.num == o.num
                        &&& n.id == o.id
                        &&& chain_sorted(n.patch@)
                        &&& n.patch@.to_multiset() == o.patch@.to_multiset()
                    },
            decreases self.laws@.len() - i,
        {
            let mut law = self.laws.remove(i);
            sort_patches(&mut law.patch);
            self.laws.insert(i, law);
            i += 1;
        }
    }

    /// The versions of a law, ascending by the chain order: the same
    /// entries the table holds for the id, sorted.
    pub fn ordered_chain(&self, id: &str) -> (r: Option<Vec<LawPatchInfo>>)
        ensures
            match r {
                Some(chain) => exists|k: int|
                    0 <= k < self.laws@.len() && (#[trigger] self.laws@[k]).id@ == id@
                        && chain_sorted(chain@) && chain@.to_multiset()
                        == self.laws@[k].patch@.to_multiset(),
                None => !has_law(self.laws@, id@),
            },
    {
        match self.find(id) {
            None => None,
            Some(k) => {
                let mut chain = self.laws[k].clone().patch;
                sort_patches(&mut chain);
                Some(chain)
            },
        }
    }

    /// The authoritative version of a law: the entry that every entry of
    /// the chain precedes or equals, so the one with the latest date key;
    /// among entries sharing the latest date key, the lexicographically
    /// last patch id wins. `None` when the id is unknown or has no
    /// versions.
    pub fn authoritative_version(&self, id: &str) -> (r: Option<LawPatchInfo>)
        ensures
            match r {
                Some(p) => exists|k: int|
                    {
                        &&& 0 <= k < self.laws@.len()
                        &&& (#[trigger] self.laws@[k]).id@ == id@
                        &&& exists|m: int|
                            0 <= m < self.laws@[k].patch@.len() && p == self.laws@[k].patch@[m]
                        &&& forall|n: int|
                            0 <= n < self.laws@[k].patch@.len() ==> patch_le(
                                #[trigger] self.laws@[k].patch@[n],
                                p,
                            )
                    },
                None => !has_law(self.laws@, id@) || exists|k: int|
                    0 <= k < self.laws@.len() && (#[trigger] self.laws@[k]).id@ == id@
                        && self.laws@[k].patch@.len() == 0,
            },
    {
        match self.find(id) {
            None => None,
            Some(k) => chain_max(&self.laws[k].patch),
        }
    }
}

/// The maximal element of a version list under the chain order: every entry
/// precedes or equals it. Among ties the last one of the list wins.
#[verifier::loop_isolation(false)]
pub fn chain_max(patches: &Vec<LawPatchInfo>) -> (r: Option<LawPatchInfo>)
    ensures
        match r {
            Some(p) => {
                &&& patches@.len() > 0
                &&& exists|m: int| 0 <= m < patches@.len() && p == patches@[m]
                &&& forall|n: int| 0 <= n < patches@.len() ==> patch_le(#[trigger] patches@[n], p)
            },
            None => patches@.len() == 0,
        },
{
    if patches.len() == 0 {
        return None;
    }
    let mut best = patches[0].clone();
    proof {
        lemma_patch_le_connected(best, best);
    }
    let mut i: usize = 1;
    while i < patches.len()
        invariant
            1 <= i <= patches@.len(),
            exists|m: int| 0 <= m < i && best == patches@[m],
            forall|n: int| 0 <= n < i ==> patch_le(#[trigger] patches@[n], best),
        decreases patches@.len() - i,
    {
        if patch_le_exec(&best, &patches[i]) {
            let ghost prev = best;
            best = patches[i].clone();
            proof {
                assert forall|n: int| 0 <= n < i + 1 implies patch_le(
                    #[trigger] patches@[n],
                    best,
                ) by {
                    if n < i {
                        lemma_patch_le_transitive(patches@[n], prev, best);
                    } else {
                        lemma_patch_le_connected(best, best);
                    }
                }
            }
        } else {
            proof {
                lemma_patch_le_connected(best, patches@[i as int]);
            }
        }
        i += 1;
    }
    Some(best)
}

} // verus!
