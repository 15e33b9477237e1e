//! The manifest of a skill directory and the changes between two manifests.
use crate::providers::verification::{compare_text, text_order, VersionOrder};
use crate::reports::{InventoryChange, InventoryChangeKind};
use crate::sorting::{lemma_text_order_equal, lemma_text_order_flip, lemma_text_order_trans};
use crate::text::{chars_of, str_eq};
use vstd::prelude::*;

verus! {

/// Whether path `a` sorts strictly before path `b`.
pub open spec fn path_before(a: Seq<char>, b: Seq<char>) -> bool {
    text_order(a, b) == VersionOrder::Less
}

/// Each path sorts strictly before every later one.
pub open spec fn ascending(s: Seq<(Seq<char>, Seq<char>)>) -> bool {
    forall|i: int, j: int| 0 <= i < j < s.len() ==> path_before(#[trigger] s[i].0, #[trigger] s[j].0)
}

/// Whether a path is listed.
pub open spec fn lists(s: Seq<(Seq<char>, Seq<char>)>, p: Seq<char>) -> bool {
    exists|i: int| 0 <= i < s.len() && #[trigger] s[i].0 == p
}

/// A position at which a listed path stands.
pub open spec fn key_index(s: Seq<(Seq<char>, Seq<char>)>, p: Seq<char>) -> int {
    choose|i: int| 0 <= i < s.len() && #[trigger] s[i].0 == p
}

/// The digest recorded for a path, where the path is listed.
pub open spec fn keyed(s: Seq<(Seq<char>, Seq<char>)>, p: Seq<char>) -> Option<Seq<char>> {
    if lists(s, p) {
        Some(s[key_index(s, p)].1)
    } else {
        None
    }
}

/// The digest the last pair naming a path gives it, where a pair names it.
pub open spec fn assigned(s: Seq<(Seq<char>, Seq<char>)>, p: Seq<char>) -> Option<Seq<char>>
    decreases s.len(),
{
    if s.len() == 0 {
        None
    } else if s.last().0 == p {
        Some(s.last().1)
    } else {
        assigned(s.drop_last(), p)
    }
}

/// A list of string pairs as plain values.
pub open spec fn pair_views(e: Seq<(String, String)>) -> Seq<(Seq<char>, Seq<char>)> {
    e.map_values(|x: (String, String)| (x.0@, x.1@))
}

proof fn lemma_before_distinct(a: Seq<char>, b: Seq<char>)
    requires
        path_before(a, b),
    ensures
        a != b,
{
    lemma_text_order_equal(a, b);
}

proof fn lemma_keyed_at(s: Seq<(Seq<char>, Seq<char>)>, i: int)
    requires
        ascending(s),
        0 <= i < s.len(),
    ensures
        keyed(s, s[i].0) == Some(s[i].1),
{
    let p = s[i].0;
    assert(lists(s, p)) by {
        assert(s[i].0 == p);
    }
    let j = key_index(s, p);
    assert(s[j].0 == p);
    if j < i {
        assert(path_before(s[j].0, s[i].0));
        lemma_before_distinct(s[j].0, s[i].0);
    } else if i < j {
        assert(path_before(s[i].0, s[j].0));
        lemma_before_distinct(s[i].0, s[j].0);
    }
    assert(j == i);
}

/// The files of a directory: each relative path once, in ascending order, with the digest of
/// its contents.
#[derive(Debug)]
pub struct Manifest {
    entries: Vec<(String, String)>,
}

impl Manifest {
    /// The (path, digest) pairs, in order.
    pub closed spec fn files(&self) -> Seq<(Seq<char>, Seq<char>)> {
        pair_views(self.entries@)
    }

    /// The paths are in strictly ascending order.
    pub open spec fn wf(&self) -> bool {
        ascending(self.files())
    }

    /// The manifest of an empty directory.
    pub fn new() -> (r: Manifest)
        ensures
            r.wf(),
            r.files() == Seq::<(Seq<char>, Seq<char>)>::empty(),
    {
        let r = Manifest { entries: Vec::new() };
        assert(r.files() =~= Seq::<(Seq<char>, Seq<char>)>::empty());
        r
    }

    /// The (path, digest) pairs, in order.
    pub fn entries(&self) -> (r: &Vec<(String, String)>)
        ensures
            pair_views(r@) == self.files(),
    {
        &self.entries
    }

    /// The number of the first entry whose path does not sort before `path`.
    fn position(&self, path: &str) -> (r: usize)
        ensures
            r <= self.files().len(),
            forall|k: int| 0 <= k < r ==> path_before(#[trigger] self.files()[k].0, path@),
            r < self.files().len() ==> !path_before(self.files()[r as int].0, path@),
    {
        let mut i: usize = 0;
        while i < self.entries.len()
            invariant
                i <= self.entries@.len(),
                self.files().len() == self.entries@.len(),
                forall|k: int| 0 <= k < i ==> path_before(#[trigger] self.files()[k].0, path@),
            decreases self.entries.len() - i,
        {
            let o = compare_text(self.entries[i].0.as_str(), path);
            if o != VersionOrder::Less {
                return i;
            }
            i = i + 1;
        }
        i
    }

    /// Records `digest` for `path`, replacing the digest it had.
    pub fn insert(&mut self, path: String, digest: String)
        requires
            old(self).wf(),
        ensures
            final(self).wf(),
            forall|p: Seq<char>|
                #[trigger] keyed(final(self).files(), p) == if p == path@ {
                    Some(digest@)
                } else {
                    keyed(old(self).files(), p)
                },
    {
        let ghost before = self.files();
        let i = self.position(path.as_str());
        let equal = i < self.entries.len() && str_eq(self.entries[i].0.as_str(), path.as_str());
        let ghost key = path@;
        let ghost value = digest@;
        if equal {
            self.entries.set(i, (path, digest));
            proof {
                let after = self.files();
                assert(after =~= before.update(i as int, (key, value)));
                assert forall|a: int, b: int| 0 <= a < b < after.len() implies path_before(
                    #[trigger] after[a].0,
                    #[trigger] after[b].0,
                ) by {
                    assert(after[a].0 == before[a].0);
                    assert(after[b].0 == before[b].0);
                }
                assert forall|p: Seq<char>| #[trigger]
                    keyed(after, p) == if p == key {
                        Some(value)
                    } else {
                        keyed(before, p)
                    } by {
                    if p == key {
                        lemma_keyed_at(after, i as int);
                    } else {
                        if lists(before, p) {
                            let k = key_index(before, p);
                            lemma_keyed_at(before, k);
                            lemma_keyed_at(after, k);
                        } else {
                            assert forall|k: int| 0 <= k < after.len() implies after[k].0 != p by {
                                if k != i {
                                    assert(after[k].0 == before[k].0);
                                }
                            }
                        }
                    }
                }
            }
        } else {
            self.entries.insert(i, (path, digest));
            proof {
                let after = self.files();
                assert(after =~= before.insert(i as int, (key, value)));
                if i < before.len() {
                    lemma_text_order_equal(before[i as int].0, key);
                    lemma_text_order_flip(before[i as int].0, key);
                }
                assert forall|a: int, b: int| 0 <= a < b < after.len() implies path_before(
                    #[trigger] after[a].0,
                    #[trigger] after[b].0,
                ) by {
                    if b < i {
                        assert(path_before(before[a].0, before[b].0));
                    } else if b == i {
                        assert(path_before(before[a].0, key));
                    } else if a == i {
                        if b - 1 > i {
                            assert(path_before(before[i as int].0, before[b - 1].0));
                            lemma_text_order_trans(key, before[i as int].0, before[b - 1].0);
                        }
                    } else if a < i {
                        assert(path_before(before[a].0, key));
                        if b - 1 == i {
                            lemma_text_order_trans(before[a].0, key, before[i as int].0);
                        } else {
                            assert(path_before(before[a].0, before[b - 1].0));
                        }
                    } else {
                        assert(path_before(before[a - 1].0, before[b - 1].0));
                    }
                }
                assert forall|p: Seq<char>| #[trigger]
                    keyed(after, p) == if p == key {
                        Some(value)
                    } else {
                        keyed(before, p)
                    } by {
                    if p == key {
                        lemma_keyed_at(after, i as int);
                    } else {
                        if lists(before, p) {
                            let k = key_index(before, p);
                            lemma_keyed_at(before, k);
                            if k < i {
                                lemma_keyed_at(after, k);
                            } else {
                                assert(after[k + 1] == before[k]);
                                lemma_keyed_at(after, k + 1);
                            }
                        } else {
                            assert forall|k: int| 0 <= k < after.len() implies after[k].0 != p by {
                                if k < i {
                                    assert(after[k].0 == before[k].0);
                                } else if k > i {
                                    assert(after[k].0 == before[k - 1].0);
                                }
                            }
                        }
                    }
                }
            }
        }
    }

    /// The manifest of the given (path, digest) pairs; where a path occurs twice, the later
    /// digest is kept.
    pub fn from_pairs(pairs: Vec<(String, String)>) -> (r: Manifest)
        ensures
            r.wf(),
            forall|p: Seq<char>| #[trigger] keyed(r.files(), p) == assigned(pair_views(pairs@), p),
    {
        let ghost all = pair_views(pairs@);
        let mut r = Manifest::new();
        let mut i: usize = 0;
        while i < pairs.len()
            invariant
                i <= pairs@.len(),
                all == pair_views(pairs@),
                r.wf(),
                forall|p: Seq<char>| #[trigger]
                    keyed(r.files(), p) == assigned(all.subrange(0, i as int), p),
            decreases pairs.len() - i,
        {
            let path = pairs[i].0.clone();
            let digest = pairs[i].1.clone();
            proof {
                assert(all.subrange(0, i + 1).drop_last() =~= all.subrange(0, i as int));
                assert(all.subrange(0, i + 1).last() == (path@, digest@));
            }
            r.insert(path, digest);
            i = i + 1;
        }
        proof {
            assert(all.subrange(0, i as int) =~= all);
        }
        r
    }
}

/// How a path differs between two manifests, if it does.
pub open spec fn change_kind(
    before: Seq<(Seq<char>, Seq<char>)>,
    after: Seq<(Seq<char>, Seq<char>)>,
    p: Seq<char>,
) -> Option<InventoryChangeKind> {
    match (keyed(before, p), keyed(after, p)) {
        (None, Some(_)) => Some(InventoryChangeKind::Added),
        (Some(_), None) => Some(InventoryChangeKind::Removed),
        (Some(l), Some(r)) => if l != r {
            Some(InventoryChangeKind::Modified)
        } else {
            None
        },
        (None, None) => None,
    }
}

/// The changed paths in ascending order, each with how it changed, and every changed path.
pub open spec fn lists_changes(
    r: Seq<InventoryChange>,
    before: Seq<(Seq<char>, Seq<char>)>,
    after: Seq<(Seq<char>, Seq<char>)>,
) -> bool {
    &&& forall|i: int, j: int|
        0 <= i < j < r.len() ==> path_before(#[trigger] r[i].path@, #[trigger] r[j].path@)
    &&& forall|k: int|
        0 <= k < r.len() ==> change_kind(before, after, #[trigger] r[k].path@) == Some(r[k].kind)
    &&& forall|p: Seq<char>|
        #[trigger] change_kind(before, after, p) is Some ==> exists|k: int|
            0 <= k < r.len() && r[k].path@ == p
}

proof fn lemma_absent_from(s: Seq<(Seq<char>, Seq<char>)>, p: Seq<char>)
    requires
        forall|k: int| 0 <= k < s.len() ==> s[k].0 != p,
    ensures
        keyed(s, p) is None,
{
}

/// The files that a change between two manifests adds, removes or modifies, in path order;
/// only paths are reported, never contents.
pub fn compare_manifests(before: &Manifest, after: &Manifest) -> (r: Vec<InventoryChange>)
    requires
        before.wf(),
        after.wf(),
    ensures
        lists_changes(r@, before.files(), after.files()),
{
    let b = before.entries();
    let a = after.entries();
    let ghost bs = before.files();
    let ghost as_ = after.files();
    let mut out: Vec<InventoryChange> = Vec::new();
    let mut i: usize = 0;
    let mut j: usize = 0;
    while i < b.len() || j < a.len()
        invariant
            pair_views(b@) == bs,
            pair_views(a@) == as_,
            ascending(bs),
            ascending(as_),
            i <= bs.len(),
            j <= as_.len(),
            forall|y: int, x: int|
                0 <= y < j && 0 <= x < bs.len() && i <= x ==> path_before(
                    #[trigger] as_[y].0,
                    #[trigger] bs[x].0,
                ),
            forall|x: int, y: int|
                0 <= x < i && 0 <= y < as_.len() && j <= y ==> path_before(
                    #[trigger] bs[x].0,
                    #[trigger] as_[y].0,
                ),
            forall|u: int, v: int|
                0 <= u < v < out@.len() ==> path_before(
                    #[trigger] out@[u].path@,
                    #[trigger] out@[v].path@,
                ),
            forall|k: int|
                0 <= k < out@.len() ==> change_kind(bs, as_, #[trigger] out@[k].path@) == Some(
                    out@[k].kind,
                ),
            forall|k: int, x: int|
                0 <= k < out@.len() && i <= x < bs.len() ==> path_before(
                    #[trigger] out@[k].path@,
                    #[trigger] bs[x].0,
                ),
            forall|k: int, y: int|
                0 <= k < out@.len() && j <= y < as_.len() ==> path_before(
                    #[trigger] out@[k].path@,
                    #[trigger] as_[y].0,
                ),
            forall|x: int|
                0 <= x < i && #[trigger] change_kind(bs, as_, bs[x].0) is Some ==> exists|k: int|
                    0 <= k < out@.len() && out@[k].path@ == bs[x].0,
            forall|y: int|
                0 <= y < j && #[trigger] change_kind(bs, as_, as_[y].0) is Some ==> exists|k: int|
                    0 <= k < out@.len() && out@[k].path@ == as_[y].0,
        decreases bs.len() + as_.len() - i - j,
    {
        let ghost old_out = out@;
        let take_before = if j == a.len() {
            true
        } else if i == b.len() {
            false
        } else {
            compare_text(b[i].0.as_str(), a[j].0.as_str()) == VersionOrder::Less
        };
        let take_after = if take_before {
            false
        } else if i == b.len() {
            true
        } else {
            compare_text(a[j].0.as_str(), b[i].0.as_str()) == VersionOrder::Less
        };
        if take_before {
            let ghost p = bs[i as int].0;
            proof {
                lemma_keyed_at(bs, i as int);
                assert forall|y: int| 0 <= y < as_.len() implies as_[y].0 != p by {
                    if y < j {
                        assert(path_before(as_[y].0, bs[i as int].0));
                        lemma_before_distinct(as_[y].0, p);
                    } else {
                        if y > j {
                            assert(path_before(as_[j as int].0, as_[y].0));
                            lemma_text_order_trans(p, as_[j as int].0, as_[y].0);
                        }
                        lemma_before_distinct(p, as_[y].0);
                    }
                }
                lemma_absent_from(as_, p);
                assert forall|x: int| 0 <= x < bs.len() && i + 1 <= x implies path_before(
                    p,
                    #[trigger] bs[x].0,
                ) by {}
                assert forall|y: int, x: int|
                    0 <= y < j && 0 <= x < bs.len() && i + 1 <= x implies path_before(
                    #[trigger] as_[y].0,
                    #[trigger] bs[x].0,
                ) by {
                    lemma_text_order_trans(as_[y].0, p, bs[x].0);
                }
                assert forall|y: int| 0 <= y < as_.len() && j <= y implies path_before(
                    p,
                    #[trigger] as_[y].0,
                ) by {
                    if y > j {
                        assert(path_before(as_[j as int].0, as_[y].0));
                        lemma_text_order_trans(p, as_[j as int].0, as_[y].0);
                    }
                }
                assert forall|k: int, x: int|
                    0 <= k < out@.len() && i + 1 <= x < bs.len() implies path_before(
                    #[trigger] out@[k].path@,
                    #[trigger] bs[x].0,
                ) by {
                    assert(path_before(out@[k].path@, bs[i as int].0));
                    lemma_text_order_trans(out@[k].path@, p, bs[x].0);
                }
            }
            out.push(InventoryChange { path: b[i].0.clone(), kind: InventoryChangeKind::Removed });
            proof {
                let last = out@.len() - 1;
                assert(out@[last].path@ == p);
                assert forall|x: int|
                    0 <= x < i + 1 && #[trigger] change_kind(bs, as_, bs[x].0) is Some implies exists|
                    k: int,
                | 0 <= k < out@.len() && out@[k].path@ == bs[x].0 by {
                    if x < i {
                        let k = choose|k: int|
                            0 <= k < old_out.len() && old_out[k].path@ == bs[x].0;
                        assert(out@[k] == old_out[k]);
                    } else {
                        assert(out@[last].path@ == bs[x].0);
                    }
                }
                assert forall|y: int|
                    0 <= y < j && #[trigger] change_kind(bs, as_, as_[y].0) is Some implies exists|
                    k: int,
                | 0 <= k < out@.len() && out@[k].path@ == as_[y].0 by {
                    let k = choose|k: int| 0 <= k < old_out.len() && old_out[k].path@ == as_[y].0;
                    assert(out@[k] == old_out[k]);
                }
            }
            i = i + 1;
        } else if take_after {
            let ghost p = as_[j as int].0;
            proof {
                lemma_keyed_at(as_, j as int);
                if i < bs.len() {
                    lemma_text_order_flip(as_[j as int].0, bs[i as int].0);
                }
                assert forall|x: int| 0 <= x < bs.len() implies bs[x].0 != p by {
                    if x < i {
                        assert(path_before(bs[x].0, as_[j as int].0));
                        lemma_before_distinct(bs[x].0, p);
                    } else {
                        if x > i {
                            assert(path_before(bs[i as int].0, bs[x].0));
                            lemma_text_order_trans(p, bs[i as int].0, bs[x].0);
                        }
                        lemma_before_distinct(p, bs[x].0);
                    }
                }
                lemma_absent_from(bs, p);
                assert forall|x: int, y: int|
                    0 <= x < i && 0 <= y < as_.len() && j + 1 <= y implies path_before(
                    #[trigger] bs[x].0,
                    #[trigger] as_[y].0,
                ) by {
                    lemma_text_order_trans(bs[x].0, p, as_[y].0);
                }
                assert forall|x: int| 0 <= x < bs.len() && i <= x implies path_before(
                    p,
                    #[trigger] bs[x].0,
                ) by {
                    if x > i {
                        assert(path_before(bs[i as int].0, bs[x].0));
                        lemma_text_order_trans(p, bs[i as int].0, bs[x].0);
                    }
                }
                assert forall|k: int, y: int|
                    0 <= k < out@.len() && j + 1 <= y < as_.len() implies path_before(
                    #[trigger] out@[k].path@,
                    #[trigger] as_[y].0,
                ) by {
                    assert(path_before(out@[k].path@, as_[j as int].0));
                    lemma_text_order_trans(out@[k].path@, p, as_[y].0);
                }
            }
            out.push(InventoryChange { path: a[j].0.clone(), kind: InventoryChangeKind::Added });
            proof {
                let last = out@.len() - 1;
                assert(out@[last].path@ == p);
                assert forall|x: int|
                    0 <= x < i && #[trigger] change_kind(bs, as_, bs[x].0) is Some implies exists|
                    k: int,
                | 0 <= k < out@.len() && out@[k].path@ == bs[x].0 by {
                    let k = choose|k: int| 0 <= k < old_out.len() && old_out[k].path@ == bs[x].0;
                    assert(out@[k] == old_out[k]);
                }
                assert forall|y: int|
                    0 <= y < j + 1 && #[trigger] change_kind(bs, as_, as_[y].0) is Some implies exists|
                    k: int,
                | 0 <= k < out@.len() && out@[k].path@ == as_[y].0 by {
                    if y < j {
                        let k = choose|k: int|
                            0 <= k < old_out.len() && old_out[k].path@ == as_[y].0;
                        assert(out@[k] == old_out[k]);
                    } else {
                        assert(out@[last].path@ == as_[y].0);
                    }
                }
            }
            j = j + 1;
        } else {
            let ghost p = bs[i as int].0;
            proof {
                lemma_text_order_flip(bs[i as int].0, as_[j as int].0);
                lemma_text_order_equal(bs[i as int].0, as_[j as int].0);
                lemma_keyed_at(bs, i as int);
                lemma_keyed_at(as_, j as int);
                assert forall|y: int, x: int|
                    0 <= y < j + 1 && 0 <= x < bs.len() && i + 1 <= x implies path_before(
                    #[trigger] as_[y].0,
                    #[trigger] bs[x].0,
                ) by {
                    if y < j {
                        lemma_text_order_trans(as_[y].0, p, bs[x].0);
                    }
                }
                assert forall|x: int, y: int|
                    0 <= x < i + 1 && 0 <= y < as_.len() && j + 1 <= y implies path_before(
                    #[trigger] bs[x].0,
                    #[trigger] as_[y].0,
                ) by {
                    if x < i {
                        lemma_text_order_trans(bs[x].0, p, as_[y].0);
                    }
                }
            }
            let changed = !str_eq(b[i].1.as_str(), a[j].1.as_str());
            if changed {
                proof {
                    assert forall|k: int, x: int|
                        0 <= k < out@.len() && i + 1 <= x < bs.len() implies path_before(
                        #[trigger] out@[k].path@,
                        #[trigger] bs[x].0,
                    ) by {
                        assert(path_before(out@[k].path@, bs[i as int].0));
                        lemma_text_order_trans(out@[k].path@, p, bs[x].0);
                    }
                    assert forall|k: int, y: int|
                        0 <= k < out@.len() && j + 1 <= y < as_.len() implies path_before(
                        #[trigger] out@[k].path@,
                        #[trigger] as_[y].0,
                    ) by {
                        assert(path_before(out@[k].path@, as_[j as int].0));
                        lemma_text_order_trans(out@[k].path@, p, as_[y].0);
                    }
                }
                out.push(
                    InventoryChange { path: b[i].0.clone(), kind: InventoryChangeKind::Modified },
                );
            }
            proof {
                assert forall|x: int|
                    0 <= x < i + 1 && #[trigger] change_kind(bs, as_, bs[x].0) is Some implies exists|
                    k: int,
                | 0 <= k < out@.len() && out@[k].path@ == bs[x].0 by {
                    if x < i {
                        let k = choose|k: int|
                            0 <= k < old_out.len() && old_out[k].path@ == bs[x].0;
                        assert(out@[k] == old_out[k]);
                    } else {
                        assert(out@[out@.len() - 1].path@ == bs[x].0);
                    }
                }
                assert forall|y: int|
                    0 <= y < j + 1 && #[trigger] change_kind(bs, as_, as_[y].0) is Some implies exists|
                    k: int,
                | 0 <= k < out@.len() && out@[k].path@ == as_[y].0 by {
                    if y < j {
                        let k = choose|k: int|
                            0 <= k < old_out.len() && old_out[k].path@ == as_[y].0;
                        assert(out@[k] == old_out[k]);
                    } else {
                        assert(out@[out@.len() - 1].path@ == as_[y].0);
                    }
                }
            }
            i = i + 1;
            j = j + 1;
        }
    }
    proof {
        assert forall|p: Seq<char>| #[trigger] change_kind(bs, as_, p) is Some implies exists|k: int|
            0 <= k < out@.len() && out@[k].path@ == p by {
            if keyed(bs, p) is Some {
                let x = key_index(bs, p);
                assert(change_kind(bs, as_, bs[x].0) is Some);
            } else {
                let y = key_index(as_, p);
                assert(change_kind(bs, as_, as_[y].0) is Some);
            }
        }
    }
    out
}

/// Comparing a manifest with itself reports no change.
pub proof fn law_unchanged_manifest_reports_nothing(m: Manifest, r: Seq<InventoryChange>)
    requires
        m.wf(),
        lists_changes(r, m.files(), m.files()),
    ensures
        r.len() == 0,
{
    if r.len() > 0 {
        assert(change_kind(m.files(), m.files(), r[0].path@) == Some(r[0].kind));
    }
}

/// Swapping the two manifests swaps added and removed files and keeps modified ones.
pub proof fn law_reversed_comparison(
    before: Seq<(Seq<char>, Seq<char>)>,
    after: Seq<(Seq<char>, Seq<char>)>,
    p: Seq<char>,
)
    ensures
        change_kind(before, after, p) == Some(InventoryChangeKind::Added) <==> change_kind(
            after,
            before,
            p,
        ) == Some(InventoryChangeKind::Removed),
        change_kind(before, after, p) == Some(InventoryChangeKind::Modified) <==> change_kind(
            after,
            before,
            p,
        ) == Some(InventoryChangeKind::Modified),
        change_kind(before, after, p) is None <==> change_kind(after, before, p) is None,
{
}

/// The lower-case hexadecimal SHA-256 digest of the bytes.
pub uninterp spec fn sha256_hex(bytes: Seq<u8>) -> Seq<char>;

/// `sha2::Sha256::digest`, written in lower-case hexadecimal. It claims that the text is a
/// function of the bytes.
#[verifier::external_body]
fn sha256_hex_of(bytes: &[u8]) -> (r: String)
    ensures
        r@ == sha256_hex(bytes@),
{
    format!("{:x}", <sha2::Sha256 as sha2::Digest>::digest(bytes))
}

/// Whether a relative path has a `..` component.
pub open spec fn has_parent_component(p: Seq<char>) -> bool {
    exists|a: int|
        0 <= a && a + 2 <= p.len() && #[trigger] p.subrange(a, a + 2) == ".."@ && (a == 0 || p[a
            - 1] == '/') && (a + 2 == p.len() || p[a + 2] == '/')
}

/// The key of a relative path in a manifest: the path with `\` written as `/`.
pub open spec fn path_key_text(p: Seq<char>) -> Seq<char> {
    p.map_values(|c: char| if c == '\\' { '/' } else { c })
}

/// The manifest key of a file's relative path; a path that climbs out with `..` is refused.
pub fn path_key(relative: &str) -> (r: Result<String, String>)
    ensures
        has_parent_component(relative@) ==> (r matches Err(m) && m@
            == "unsafe relative path in Skill directory"@),
        !has_parent_component(relative@) ==> (r matches Ok(k) && k@ == path_key_text(relative@)),
{
    let cs = chars_of(relative);
    proof {
        reveal_strlit("..");
    }
    let mut a: usize = 0;
    while a < cs.len()
        invariant
            cs@ == relative@,
            a <= cs@.len(),
            forall|b: int|
                0 <= b < a && b + 2 <= cs@.len() ==> !(#[trigger] cs@.subrange(b, b + 2) == ".."@
                    && (b == 0 || cs@[b - 1] == '/') && (b + 2 == cs@.len() || cs@[b + 2] == '/')),
        decreases cs.len() - a,
    {
        proof {
            reveal_strlit("..");
        }
        if cs.len() - a >= 2 && cs[a] == '.' && cs[a + 1] == '.' && (a == 0 || cs[a - 1] == '/')
            && (cs.len() - a == 2 || cs[a + 2] == '/') {
            proof {
                assert(cs@.subrange(a as int, a + 2) =~= ".."@);
            }
            return Err(crate::command::owned("unsafe relative path in Skill directory"));
        }
        proof {
            if a + 2 <= cs@.len() && cs@.subrange(a as int, a + 2) == ".."@ {
                assert(cs@.subrange(a as int, a + 2)[0] == cs@[a as int]);
                assert(cs@.subrange(a as int, a + 2)[1] == cs@[a + 1]);
            }
        }
        a = a + 1;
    }
    let mut out: Vec<char> = Vec::new();
    let mut i: usize = 0;
    while i < cs.len()
        invariant
            cs@ == relative@,
            i <= cs@.len(),
            out@ == path_key_text(cs@.subrange(0, i as int)),
        decreases cs.len() - i,
    {
        let c = cs[i];
        out.push(if c == '\\' { '/' } else { c });
        proof {
            assert(path_key_text(cs@.subrange(0, i + 1)) =~= path_key_text(
                cs@.subrange(0, i as int),
            ).push(if c == '\\' { '/' } else { c }));
        }
        i = i + 1;
    }
    proof {
        assert(cs@.subrange(0, i as int) =~= cs@);
    }
    Ok(crate::text::string_from_chars(&out))
}

/// The (key, digest) pair of each file, given its relative path and contents.
pub open spec fn file_pairs(files: Seq<(String, Vec<u8>)>) -> Seq<(Seq<char>, Seq<char>)> {
    files.map_values(|f: (String, Vec<u8>)| (path_key_text(f.0@), sha256_hex(f.1@)))
}

/// The manifest of a directory's files, given each file's relative path and contents: each
/// key maps to the SHA-256 digest of its contents. A path that climbs out with `..` is
/// refused.
pub fn directory_manifest(files: &Vec<(String, Vec<u8>)>) -> (r: Result<Manifest, String>)
    ensures
        (exists|k: int| 0 <= k < files@.len() && has_parent_component(#[trigger] files@[k].0@))
            ==> (r matches Err(m) && m@ == "unsafe relative path in Skill directory"@),
        (forall|k: int| 0 <= k < files@.len() ==> !has_parent_component(#[trigger] files@[k].0@))
            ==> (r matches Ok(m) && m.wf() && forall|p: Seq<char>| #[trigger] keyed(m.files(), p)
            == assigned(file_pairs(files@), p)),
{
    let ghost all = file_pairs(files@);
    let mut m = Manifest::new();
    let mut i: usize = 0;
    while i < files.len()
        invariant
            i <= files@.len(),
            all == file_pairs(files@),
            m.wf(),
            forall|k: int| 0 <= k < i ==> !has_parent_component(#[trigger] files@[k].0@),
            forall|p: Seq<char>| #[trigger]
                keyed(m.files(), p) == assigned(all.subrange(0, i as int), p),
        decreases files.len() - i,
    {
        let key = match path_key(files[i].0.as_str()) {
            Ok(k) => k,
            Err(e) => {
                return Err(e);
            },
        };
        let digest = sha256_hex_of(files[i].1.as_slice());
        proof {
            assert(all.subrange(0, i + 1).drop_last() =~= all.subrange(0, i as int));
            assert(all.subrange(0, i + 1).last() == (key@, digest@));
        }
        m.insert(key, digest);
        i = i + 1;
    }
    proof {
        assert(all.subrange(0, i as int) =~= all);
    }
    Ok(m)
}

/// The bytes a content revision hashes: each key's UTF-8 bytes followed by the file's
/// contents, in order.
pub open spec fn revision_bytes(files: Seq<(String, Vec<u8>)>) -> Seq<u8>
    decreases files.len(),
{
    if files.len() == 0 {
        Seq::empty()
    } else {
        revision_bytes(files.drop_last()) + vstd::utf8::encode_utf8(files.last().0@) + files.last().1@
    }
}

/// The content revision of a directory, given its files in key order, each with its key and
/// contents.
pub fn directory_revision(files: &Vec<(String, Vec<u8>)>) -> (r: String)
    ensures
        r@ == "sha256:"@ + sha256_hex(revision_bytes(files@)),
{
    let mut bytes: Vec<u8> = Vec::new();
    let mut i: usize = 0;
    while i < files.len()
        invariant
            i <= files@.len(),
            bytes@ == revision_bytes(files@.subrange(0, i as int)),
        decreases files.len() - i,
    {
        let key = files[i].0.as_str().as_bytes();
        let mut k: usize = 0;
        let ghost start = bytes@;
        while k < key.len()
            invariant
                k <= key@.len(),
                bytes@ == start + key@.subrange(0, k as int),
            decreases key.len() - k,
        {
            bytes.push(key[k]);
            k = k + 1;
            proof {
                assert(key@.subrange(0, k as int) =~= key@.subrange(0, k - 1).push(key@[k - 1]));
            }
        }
        let contents = &files[i].1;
        let ghost middle = bytes@;
        let mut k: usize = 0;
        while k < contents.len()
            invariant
                k <= contents@.len(),
                bytes@ == middle + contents@.subrange(0, k as int),
            decreases contents.len() - k,
        {
            bytes.push(contents[k]);
            k = k + 1;
            proof {
                assert(contents@.subrange(0, k as int) =~= contents@.subrange(0, k - 1).push(
                    contents@[k - 1],
                ));
            }
        }
        proof {
            assert(files@.subrange(0, i + 1).drop_last() =~= files@.subrange(0, i as int));
            assert(key@.subrange(0, key@.len() as int) =~= key@);
            assert(contents@.subrange(0, contents@.len() as int) =~= contents@);
            assert(bytes@ =~= revision_bytes(files@.subrange(0, i as int)) + vstd::utf8::encode_utf8(files@[i as int].0@)
                + files@[i as int].1@);
        }
        i = i + 1;
    }
    proof {
        assert(files@.subrange(0, i as int) =~= files@);
    }
    let digest = sha256_hex_of(bytes.as_slice());
    crate::text::concat_str("sha256:", digest.as_str())
}

/// The fingerprint of a receipt entry, given its serialized bytes.
pub fn value_fingerprint(bytes: &Vec<u8>) -> (r: String)
    ensures
        r@ == "sha256:"@ + sha256_hex(bytes@),
{
    let digest = sha256_hex_of(bytes.as_slice());
    crate::text::concat_str("sha256:", digest.as_str())
}

} // verus!
