//! The broadcast engine's decisions: which presentations run to which PCs, what each is called,
//! and, frame by frame, what the capture loop does.
//!
//! Several presentations can run at once to disjoint sets of PCs, because a PC shows one at a
//! time: starting a broadcast ends exactly those already showing on one of its PCs. The capture
//! thread skips a frame identical to the last one sent and re-sends an unchanged one only when the
//! keep-alive is due, so a still screen costs nothing and a PC that reconnects catches up. The
//! threads, the sockets and the screen grabs themselves live with the program.

use crate::text::{chars_of, decimal, push_decimal, trim_bounds, trim_spec, word};
use vstd::prelude::*;
use vstd::string::StringExecFns;

verus! {

/// One running broadcast, for the "you are presenting" banners.
#[derive(Debug, Clone, PartialEq, Eq)]
pub struct BroadcastStatus {
    pub id: u64,
    pub targets: usize,
    pub label: String,
}

/// What a teacher chose to present, from the picker.
#[derive(Debug, Clone)]
pub struct StartParams {
    pub source_kind: String,
    pub source_id: u64,
    pub source_title: String,
    pub width: u16,
    pub locked: bool,
    /// `"desktop"` or `"stop"`: what to do if the shared window closes or stays uncapturable.
    pub on_close: String,
    pub targets: Vec<String>,
}

/// A running broadcast as the registry knows it: its id, who is receiving it, and its label.
#[derive(Debug)]
pub struct BroadcastEntry {
    pub id: u64,
    pub targets: Vec<String>,
    pub label: String,
}

/// The targets of an entry, as character sequences.
pub open spec fn target_views(targets: Seq<String>) -> Seq<Seq<char>> {
    Seq::new(targets.len(), |i: int| targets[i]@)
}

/// Whether a broadcast to `mine` shares a PC with `wanted`.
pub open spec fn shares_a_pc(mine: Seq<String>, wanted: Seq<String>) -> bool {
    exists|i: int, j: int| 0 <= i < mine.len() && 0 <= j < wanted.len() && #[trigger] mine[i]@
        == #[trigger] wanted[j]@
}

/// Whether a broadcast keeps running when one starts to `targets`: it shares no PC with them.
pub open spec fn keeps_running(targets: Seq<String>) -> spec_fn(BroadcastEntry) -> bool {
    |e: BroadcastEntry| !shares_a_pc(e.targets@, targets)
}

/// Whether a broadcast ends when one starts to `targets`: it shares a PC with them.
pub open spec fn ends_with(targets: Seq<String>) -> spec_fn(BroadcastEntry) -> bool {
    |e: BroadcastEntry| shares_a_pc(e.targets@, targets)
}

/// Every broadcast currently running, and the id the next one gets.
pub struct Broadcasts {
    list: Vec<BroadcastEntry>,
    next_id: u64,
}

impl Broadcasts {
    /// No two running broadcasts share a PC.
    #[verifier::type_invariant]
    spec fn pcs_stay_apart(self) -> bool {
        pcs_apart(self.list@)
    }
}

/// Whether no two of `entries` share a PC.
pub open spec fn pcs_apart(entries: Seq<BroadcastEntry>) -> bool {
    forall|i: int, j: int|
        0 <= i < j < entries.len() ==> !shares_a_pc(
            #[trigger] entries[i].targets@,
            #[trigger] entries[j].targets@,
        )
}

/// Keeping some broadcasts keeps them on separate PCs.
proof fn lemma_filter_keeps_pcs_apart(s: Seq<BroadcastEntry>, pred: spec_fn(BroadcastEntry) -> bool)
    requires
        pcs_apart(s),
    ensures
        pcs_apart(s.filter(pred)),
    decreases s.len(),
{
    reveal(Seq::filter);
    if s.len() > 0 {
        let d = s.drop_last();
        assert(pcs_apart(d)) by {
            assert forall|i: int, j: int| 0 <= i < j < d.len() implies !shares_a_pc(
                #[trigger] d[i].targets@,
                #[trigger] d[j].targets@,
            ) by {
                assert(d[i] == s[i] && d[j] == s[j]);
            }
        }
        lemma_filter_keeps_pcs_apart(d, pred);
        let f = d.filter(pred);
        if pred(s.last()) {
            let g = f.push(s.last());
            assert forall|i: int, j: int| 0 <= i < j < g.len() implies !shares_a_pc(
                #[trigger] g[i].targets@,
                #[trigger] g[j].targets@,
            ) by {
                if j == f.len() {
                    assert(f.contains(g[i]));
                    d.lemma_filter_contains_rev(pred, g[i]);
                    let k = choose|k: int| 0 <= k < d.len() && d[k] == g[i];
                    assert(s[k] == d[k]);
                    assert(g[j] == s[s.len() - 1]);
                } else {
                    assert(g[i] == f[i] && g[j] == f[j]);
                }
            }
        }
    }
}

/// The ids of a list of entries, in order.
pub open spec fn ids_of(list: Seq<BroadcastEntry>) -> Seq<u64> {
    Seq::new(list.len(), |i: int| list[i].id)
}

impl Broadcasts {
    /// The running broadcasts, in the order they started.
    pub closed spec fn entries(&self) -> Seq<BroadcastEntry> {
        self.list@
    }

    /// The id the next broadcast gets.
    pub closed spec fn next(&self) -> u64 {
        self.next_id
    }

    /// No broadcast runs, and the first gets the id 1.
    pub fn new() -> (b: Self)
        ensures
            b.entries().len() == 0,
            pcs_apart(b.entries()),
            b.next() == 1,
    {
        Broadcasts { list: Vec::new(), next_id: 1 }
    }

    /// Every presentation currently running, one banner each: its id, how many PCs receive it,
    /// and its label.
    pub fn status(&self) -> (s: Vec<BroadcastStatus>)
        ensures
            pcs_apart(self.entries()),
            s@.len() == self.entries().len(),
            forall|i: int|
                0 <= i < s@.len() ==> #[trigger] s@[i].id == self.entries()[i].id && s@[i].targets
                    == self.entries()[i].targets@.len() && s@[i].label@ == self.entries()[i].label@,
    {
        proof {
            use_type_invariant(self);
        }
        let mut s: Vec<BroadcastStatus> = Vec::new();
        let mut i: usize = 0;
        while i < self.list.len()
            invariant
                i <= self.list@.len(),
                s@.len() == i,
                forall|k: int|
                    0 <= k < i ==> #[trigger] s@[k].id == self.list@[k].id && s@[k].targets
                        == self.list@[k].targets@.len() && s@[k].label@ == self.list@[k].label@,
            decreases self.list@.len() - i,
        {
            let e = &self.list[i];
            s.push(BroadcastStatus { id: e.id, targets: e.targets.len(), label: e.label.clone() });
            i = i + 1;
        }
        s
    }

    /// Records a new broadcast to `targets` under `label` and returns its id; the next one gets
    /// the following id, wrapping as an atomic counter does.
    pub fn begin(&mut self, targets: Vec<String>, label: String) -> (id: u64)
        requires
            forall|i: int|
                0 <= i < old(self).entries().len() ==> !shares_a_pc(
                    #[trigger] old(self).entries()[i].targets@,
                    targets@,
                ),
        ensures
            pcs_apart(final(self).entries()),
            id == old(self).next(),
            final(self).next() == (if id == u64::MAX {
                0
            } else {
                (id + 1) as u64
            }),
            final(self).entries().len() == old(self).entries().len() + 1,
            forall|i: int|
                0 <= i < old(self).entries().len() ==> #[trigger] final(self).entries()[i] == old(
                    self,
                ).entries()[i],
            final(self).entries().last().id == id,
            final(self).entries().last().targets@ == targets@,
            final(self).entries().last().label@ == label@,
    {
        proof {
            use_type_invariant(&*self);
        }
        let id = self.next_id;
        self.next_id = self.next_id.wrapping_add(1);
        let mut list: Vec<BroadcastEntry> = Vec::new();
        std::mem::swap(&mut list, &mut self.list);
        let ghost before = list@;
        list.push(BroadcastEntry { id, targets, label });
        proof {
            assert(forall|i: int| 0 <= i < before.len() ==> #[trigger] list@[i] == before[i]);
            assert(before == old(self).entries());
            assert forall|i: int, j: int| 0 <= i < j < list@.len() implies !shares_a_pc(
                #[trigger] list@[i].targets@,
                #[trigger] list@[j].targets@,
            ) by {
                if j == before.len() {
                    assert(list@[i] == old(self).entries()[i]);
                } else {
                    assert(list@[i] == before[i] && list@[j] == before[j]);
                }
            }
        }
        self.list = list;
        id
    }

    /// Removes the broadcasts sharing a PC with `targets` and returns them, leaving the rest
    /// running in their order.
    pub fn take_overlapping(&mut self, targets: &[String]) -> (taken: Vec<BroadcastEntry>)
        ensures
            pcs_apart(final(self).entries()),
            final(self).next() == old(self).next(),
            final(self).entries() == old(self).entries().filter(
                keeps_running(targets@),
            ),
            taken@ == old(self).entries().filter(
                ends_with(targets@),
            ),
    {
        proof {
            use_type_invariant(&*self);
        }
        let mut rest: Vec<BroadcastEntry> = Vec::new();
        std::mem::swap(&mut rest, &mut self.list);
        let ghost all = rest@;
        let n: usize = rest.len();
        let mut taken: Vec<BroadcastEntry> = Vec::new();
        let mut kept: Vec<BroadcastEntry> = Vec::new();
        let mut i: usize = 0;
        while rest.len() > 0
            invariant
                all == old(self).entries(),
                all.len() == n,
                self.next_id == old(self).next(),
                i + rest@.len() == all.len(),
                rest@ == all.skip(i as int),
                kept@ == all.take(i as int).filter(
                    keeps_running(targets@),
                ),
                taken@ == all.take(i as int).filter(
                    ends_with(targets@),
                ),
            decreases rest@.len(),
        {
            let e = rest.remove(0);
            let hit = overlaps(&e.targets, targets);
            proof {
                let t = all.take(i as int + 1);
                assert(t.drop_last() =~= all.take(i as int));
                assert(t.last() == e);
                assert(rest@ =~= all.skip(i as int + 1));
                reveal(Seq::filter);
            }
            if hit {
                taken.push(e);
            } else {
                kept.push(e);
            }
            i = i + 1;
        }
        proof {
            assert(all.take(all.len() as int) =~= all);
            lemma_filter_keeps_pcs_apart(all, keeps_running(targets@));
        }
        self.list = kept;
        taken
    }

    /// Removes the broadcast with `id` (or all of them where `id` is `None`) and returns what was
    /// removed, leaving the rest running in their order.
    pub fn take_by_id(&mut self, id: Option<u64>) -> (taken: Vec<BroadcastEntry>)
        ensures
            pcs_apart(final(self).entries()),
            final(self).next() == old(self).next(),
            final(self).entries() == old(self).entries().filter(
                |e: BroadcastEntry| !(id is None || id == Some(e.id)),
            ),
            taken@ == old(self).entries().filter(
                |e: BroadcastEntry| id is None || id == Some(e.id),
            ),
    {
        proof {
            use_type_invariant(&*self);
        }
        let mut rest: Vec<BroadcastEntry> = Vec::new();
        std::mem::swap(&mut rest, &mut self.list);
        let ghost all = rest@;
        let n: usize = rest.len();
        let mut taken: Vec<BroadcastEntry> = Vec::new();
        let mut kept: Vec<BroadcastEntry> = Vec::new();
        let mut i: usize = 0;
        while rest.len() > 0
            invariant
                all == old(self).entries(),
                all.len() == n,
                self.next_id == old(self).next(),
                i + rest@.len() == all.len(),
                rest@ == all.skip(i as int),
                kept@ == all.take(i as int).filter(
                    |e: BroadcastEntry| !(id is None || id == Some(e.id)),
                ),
                taken@ == all.take(i as int).filter(
                    |e: BroadcastEntry| id is None || id == Some(e.id),
                ),
            decreases rest@.len(),
        {
            let e = rest.remove(0);
            let hit = match id {
                None => true,
                Some(want) => e.id == want,
            };
            proof {
                let t = all.take(i as int + 1);
                assert(t.drop_last() =~= all.take(i as int));
                assert(t.last() == e);
                assert(rest@ =~= all.skip(i as int + 1));
                reveal(Seq::filter);
            }
            if hit {
                taken.push(e);
            } else {
                kept.push(e);
            }
            i = i + 1;
        }
        proof {
            assert(all.take(all.len() as int) =~= all);
            lemma_filter_keeps_pcs_apart(all, |e: BroadcastEntry| !(id is None || id == Some(e.id)));
        }
        self.list = kept;
        taken
    }
}

/// A PC shows one broadcast at a time: once the broadcasts sharing a PC with `targets` are taken
/// off, none that is left shares a PC with `targets`, so a new broadcast to `targets` overlaps no
/// other; and every broadcast that shares no PC with `targets` keeps running.
pub proof fn lemma_new_broadcast_overlaps_none(entries: Seq<BroadcastEntry>, targets: Seq<String>)
    ensures
        forall|i: int|
            0 <= i < entries.filter(keeps_running(targets)).len()
                ==> !shares_a_pc(
                #[trigger] entries.filter(keeps_running(targets))[i].targets@,
                targets,
            ),
        forall|i: int|
            0 <= i < entries.len() && !shares_a_pc(entries[i].targets@, targets) ==> entries.filter(
                keeps_running(targets),
            ).contains(#[trigger] entries[i]),
{
    let pred = keeps_running(targets);
    assert forall|i: int| 0 <= i < entries.filter(pred).len() implies !shares_a_pc(
        #[trigger] entries.filter(pred)[i].targets@,
        targets,
    ) by {
        entries.lemma_filter_pred(pred, i);
    }
    assert forall|i: int| 0 <= i < entries.len() && !shares_a_pc(entries[i].targets@, targets) implies entries.filter(
        pred,
    ).contains(#[trigger] entries[i]) by {
        entries.lemma_filter_contains(pred, i);
    }
}

/// The invariant of the running broadcasts: ids increase in the order they started and stay below
/// the next id to be given, and no two broadcasts share a PC.
pub open spec fn registry_ok(entries: Seq<BroadcastEntry>, next: u64) -> bool {
    &&& forall|i: int, j: int| 0 <= i < j < entries.len() ==> #[trigger] entries[i].id < #[trigger] entries[j].id
    &&& forall|i: int| 0 <= i < entries.len() ==> #[trigger] entries[i].id < next
    &&& forall|i: int, j: int|
        0 <= i < j < entries.len() ==> !shares_a_pc(#[trigger] entries[i].targets@, #[trigger] entries[j].targets@)
}

/// Two broadcasts apart: the earlier has the smaller id and they share no PC.
pub open spec fn apart(a: BroadcastEntry, b: BroadcastEntry) -> bool {
    a.id < b.id && !shares_a_pc(a.targets@, b.targets@)
}

/// Whether every earlier entry of `s` is apart from every later one.
pub open spec fn all_apart(s: Seq<BroadcastEntry>) -> bool {
    forall|i: int, j: int| 0 <= i < j < s.len() ==> apart(#[trigger] s[i], #[trigger] s[j])
}

/// Keeping some of the entries keeps them apart.
proof fn lemma_filter_keeps_apart(s: Seq<BroadcastEntry>, pred: spec_fn(BroadcastEntry) -> bool)
    requires
        all_apart(s),
    ensures
        all_apart(s.filter(pred)),
    decreases s.len(),
{
    reveal(Seq::filter);
    if s.len() > 0 {
        let d = s.drop_last();
        assert(all_apart(d)) by {
            assert forall|i: int, j: int| 0 <= i < j < d.len() implies apart(#[trigger] d[i], #[trigger] d[j]) by {
                assert(d[i] == s[i] && d[j] == s[j]);
            }
        }
        lemma_filter_keeps_apart(d, pred);
        let f = d.filter(pred);
        if pred(s.last()) {
            let g = f.push(s.last());
            assert forall|i: int, j: int| 0 <= i < j < g.len() implies apart(#[trigger] g[i], #[trigger] g[j]) by {
                if j == f.len() {
                    assert(f.contains(g[i]));
                    d.lemma_filter_contains_rev(pred, g[i]);
                    let k = choose|k: int| 0 <= k < d.len() && d[k] == g[i];
                    assert(s[k] == d[k]);
                    assert(apart(s[k], s[s.len() - 1]));
                } else {
                    assert(g[i] == f[i] && g[j] == f[j]);
                }
            }
        }
    }
}

/// Starting a broadcast keeps the running ones apart. When `fresh`, with the next id, starts after
/// the broadcasts sharing a PC with its targets are taken off, its id is above every id given
/// before, the ids still increase and stay below the next one, and no two broadcasts share a PC.
pub proof fn lemma_start_keeps_broadcasts_apart(entries: Seq<BroadcastEntry>, next: u64, fresh: BroadcastEntry)
    requires
        registry_ok(entries, next),
        next < u64::MAX,
        fresh.id == next,
    ensures
        forall|i: int| 0 <= i < entries.len() ==> #[trigger] entries[i].id < fresh.id,
        registry_ok(entries.filter(keeps_running(fresh.targets@)).push(fresh), (next + 1) as u64),
{
    let pred = keeps_running(fresh.targets@);
    assert(all_apart(entries)) by {
        assert forall|i: int, j: int| 0 <= i < j < entries.len() implies apart(#[trigger] entries[i], #[trigger] entries[j]) by {
        }
    }
    lemma_filter_keeps_apart(entries, pred);
    let kept = entries.filter(pred);
    let after = kept.push(fresh);
    assert forall|i: int| 0 <= i < kept.len() implies #[trigger] kept[i].id < next && !shares_a_pc(kept[i].targets@, fresh.targets@) by {
        entries.lemma_filter_pred(pred, i);
        assert(kept.contains(kept[i]));
        entries.lemma_filter_contains_rev(pred, kept[i]);
        let k = choose|k: int| 0 <= k < entries.len() && entries[k] == kept[i];
        assert(entries[k].id < next);
    }
    assert forall|i: int, j: int| 0 <= i < j < after.len() implies #[trigger] after[i].id < #[trigger] after[j].id by {
        if j == kept.len() {
            assert(after[i] == kept[i]);
        } else {
            assert(after[i] == kept[i] && after[j] == kept[j]);
            assert(apart(kept[i], kept[j]));
        }
    }
    assert forall|i: int, j: int| 0 <= i < j < after.len() implies !shares_a_pc(#[trigger] after[i].targets@, #[trigger] after[j].targets@) by {
        if j == kept.len() {
            assert(after[i] == kept[i]);
        } else {
            assert(after[i] == kept[i] && after[j] == kept[j]);
            assert(apart(kept[i], kept[j]));
        }
    }
}

/// A broadcast that started: its id, the broadcasts it ended because they shared a PC with it,
/// the width it is captured at, and its banner label.
pub struct Started {
    pub id: u64,
    pub ended: Vec<BroadcastEntry>,
    pub width: u16,
    pub label: String,
}

impl Broadcasts {
    /// Starts a broadcast of what `params` chose to its PCs: none chosen is refused; otherwise the
    /// broadcasts showing on one of them end (the others keep running, so disjoint groups can be
    /// presented to at once) and the new one is recorded under the next id. Where the running
    /// broadcasts were apart before, they still are: every PC shows at most one.
    pub fn start(&mut self, params: StartParams) -> (r: Result<Started, String>)
        requires
            params.targets@.len() > 0 && label_adds_one(params.source_kind@, params.source_title@)
                ==> params.source_id < u64::MAX,
        ensures
            pcs_apart(final(self).entries()),
            params.targets@.len() == 0 ==> (r matches Err(m) && m@
                == "choose at least one PC to broadcast to"@ && final(self).entries() == old(
                self,
            ).entries() && final(self).next() == old(self).next()),
            params.targets@.len() > 0 ==> (r matches Ok(s) && {
                &&& s.id == old(self).next()
                &&& s.ended@ == old(self).entries().filter(ends_with(params.targets@))
                &&& s.width == (if params.width < 320 {
                    320
                } else if params.width > 3840 {
                    3840
                } else {
                    params.width
                })
                &&& s.label@ == label_spec(params.source_kind@, params.source_id, params.source_title@)
                &&& final(self).entries().drop_last() == old(self).entries().filter(
                    keeps_running(params.targets@),
                )
                &&& final(self).entries().len() > 0
                &&& final(self).entries().last().id == s.id
                &&& final(self).entries().last().targets@ == params.targets@
                &&& final(self).entries().last().label@ == s.label@
                &&& final(self).next() == (if s.id == u64::MAX {
                    0
                } else {
                    (s.id + 1) as u64
                })
            }),
            registry_ok(old(self).entries(), old(self).next()) && old(self).next() < u64::MAX
                ==> registry_ok(final(self).entries(), final(self).next()),
    {
        proof {
            use_type_invariant(&*self);
        }
        if let Err(m) = check_targets(params.targets.as_slice()) {
            return Err(m);
        }
        let ended = self.take_overlapping(params.targets.as_slice());
        let ghost kept = self.entries();
        let width = broadcast_width(params.width);
        let label = broadcast_label(
            params.source_kind.as_str(),
            params.source_id,
            params.source_title.as_str(),
        );
        let id = self.begin(params.targets, label.clone());
        proof {
            let after = self.entries();
            assert(after.drop_last() =~= kept);
            if registry_ok(old(self).entries(), old(self).next()) && old(self).next() < u64::MAX {
                let fresh = after.last();
                lemma_start_keeps_broadcasts_apart(old(self).entries(), old(self).next(), fresh);
                assert(after =~= old(self).entries().filter(keeps_running(fresh.targets@)).push(
                    fresh,
                ));
            }
        }
        Ok(Started { id, ended, width, label })
    }
}

/// Whether the PCs of `mine` and `wanted` have one in common.
pub fn overlaps(mine: &Vec<String>, wanted: &[String]) -> (b: bool)
    ensures
        b == shares_a_pc(mine@, wanted@),
{
    let mut i: usize = 0;
    while i < mine.len()
        invariant
            i <= mine@.len(),
            forall|a: int, j: int|
                0 <= a < i && 0 <= j < wanted@.len() ==> #[trigger] mine@[a]@ != #[trigger] wanted@[j]@,
        decreases mine@.len() - i,
    {
        let mut j: usize = 0;
        while j < wanted.len()
            invariant
                i < mine@.len(),
                j <= wanted@.len(),
                forall|a: int, k: int|
                    0 <= a < i && 0 <= k < wanted@.len() ==> #[trigger] mine@[a]@ != #[trigger] wanted@[k]@,
                forall|k: int| 0 <= k < j ==> mine@[i as int]@ != #[trigger] wanted@[k]@,
            decreases wanted@.len() - j,
        {
            if mine[i] == wanted[j] {
                return true;
            }
            j = j + 1;
        }
        i = i + 1;
    }
    false
}

/// Starting a broadcast needs at least one PC.
pub fn check_targets(targets: &[String]) -> (r: Result<(), String>)
    ensures
        targets@.len() == 0 <==> r is Err,
        r matches Err(m) ==> m@ == "choose at least one PC to broadcast to"@,
{
    if targets.len() == 0 {
        Err(String::from_str("choose at least one PC to broadcast to"))
    } else {
        Ok(())
    }
}

/// The width a broadcast is captured at: the asked width held to `320..=3840`.
pub fn broadcast_width(width: u16) -> (w: u16)
    ensures
        w == (if width < 320 {
            320
        } else if width > 3840 {
            3840
        } else {
            width
        }),
{
    if width < 320 {
        320
    } else if width > 3840 {
        3840
    } else {
        width
    }
}

/// The banner label of a broadcast: the source's title where it is not blank; else `Display n`
/// for monitor `n - 1`, or `window`.
pub open spec fn label_spec(kind: Seq<char>, source_id: u64, title: Seq<char>) -> Seq<char> {
    if trim_spec(title, 0, title.len() as int).len() == 0 {
        if kind == "monitor"@ {
            "Display "@ + decimal((source_id + 1) as nat)
        } else {
            "window"@
        }
    } else {
        title
    }
}

/// Whether the label is made from the monitor's number: the title is blank and the source is a
/// monitor. Only then is one added to the source id.
pub open spec fn label_adds_one(kind: Seq<char>, title: Seq<char>) -> bool {
    trim_spec(title, 0, title.len() as int).len() == 0 && kind == "monitor"@
}

/// The banner label of a broadcast.
pub fn broadcast_label(source_kind: &str, source_id: u64, source_title: &str) -> (label: String)
    requires
        label_adds_one(source_kind@, source_title@) ==> source_id < u64::MAX,
    ensures
        label@ == label_spec(source_kind@, source_id, source_title@),
{
    let t = chars_of(source_title);
    let (a, b) = trim_bounds(t.as_slice(), 0, t.len());
    if a < b {
        return String::from_str(source_title);
    }
    let k = chars_of(source_kind);
    let m = word("monitor");
    proof {
        assert(k@.subrange(0, k@.len() as int) =~= k@);
    }
    if crate::text::chars_eq(k.as_slice(), 0, k.len(), m.as_slice()) {
        let mut s = String::from_str("Display ");
        push_decimal(&mut s, source_id + 1);
        s
    } else {
        String::from_str("window")
    }
}

/// What the capture loop does with one turn's result.
#[derive(Debug, Clone, Copy, PartialEq, Eq, Structural)]
pub enum CaptureStep {
    /// Send the new frame and remember it as the last one sent.
    Send,
    /// Send the last frame again, to keep a reconnected PC current.
    Resend,
    /// Nothing to send this turn.
    Wait,
    /// The shared window is gone: switch to the primary monitor and go on.
    SwitchToDesktop,
    /// The shared window is gone: end the broadcast and say the source was lost.
    GiveUp,
}

/// The capture loop's decision for one turn: a frame is sent where it differs from the last one
/// sent or the keep-alive is due. With no frame from a window, a live window gets the last frame
/// again when the keep-alive is due, and a closed one is replaced by the desktop or ends the
/// broadcast, as the teacher chose. With no frame from a monitor, nothing happens.
pub open spec fn capture_step_spec(
    from_window: bool,
    frame: Option<Seq<u8>>,
    last: Option<Seq<u8>>,
    keepalive_due: bool,
    window_alive: bool,
    on_close_desktop: bool,
) -> CaptureStep {
    match frame {
        Some(f) => if last != Some(f) || keepalive_due {
            CaptureStep::Send
        } else {
            CaptureStep::Wait
        },
        None => if !from_window {
            CaptureStep::Wait
        } else if window_alive {
            if last is Some && keepalive_due {
                CaptureStep::Resend
            } else {
                CaptureStep::Wait
            }
        } else if on_close_desktop {
            CaptureStep::SwitchToDesktop
        } else {
            CaptureStep::GiveUp
        },
    }
}

/// The view of an optional byte slice.
pub open spec fn opt_view(o: Option<&[u8]>) -> Option<Seq<u8>> {
    match o {
        Some(b) => Some(b@),
        None => None,
    }
}

/// Whether two byte slices hold the same bytes.
pub fn same_bytes(a: &[u8], b: &[u8]) -> (r: bool)
    ensures
        r == (a@ == b@),
{
    if a.len() != b.len() {
        return false;
    }
    let mut i: usize = 0;
    while i < a.len()
        invariant
            a@.len() == b@.len(),
            i <= a@.len(),
            forall|k: int| 0 <= k < i ==> a@[k] == b@[k],
        decreases a@.len() - i,
    {
        if a[i] != b[i] {
            return false;
        }
        i = i + 1;
    }
    assert(a@ =~= b@);
    true
}

/// The capture loop's decision for one turn.
pub fn capture_step(
    from_window: bool,
    frame: Option<&[u8]>,
    last: Option<&[u8]>,
    keepalive_due: bool,
    window_alive: bool,
    on_close_desktop: bool,
) -> (step: CaptureStep)
    ensures
        step == capture_step_spec(
            from_window,
            opt_view(frame),
            opt_view(last),
            keepalive_due,
            window_alive,
            on_close_desktop,
        ),
{
    match frame {
        Some(f) => {
            let unchanged = match last {
                Some(l) => same_bytes(f, l),
                None => false,
            };
            if !unchanged || keepalive_due {
                CaptureStep::Send
            } else {
                CaptureStep::Wait
            }
        },
        None => {
            if !from_window {
                CaptureStep::Wait
            } else if window_alive {
                if last.is_some() && keepalive_due {
                    CaptureStep::Resend
                } else {
                    CaptureStep::Wait
                }
            } else if on_close_desktop {
                CaptureStep::SwitchToDesktop
            } else {
                CaptureStep::GiveUp
            }
        },
    }
}

/// A still screen costs nothing: an unchanged frame is sent again only when the keep-alive is
/// due, and a changed one always goes out.
pub proof fn lemma_unchanged_frames_wait(frame: Seq<u8>, window: bool, alive: bool, desktop: bool)
    ensures
        capture_step_spec(window, Some(frame), Some(frame), false, alive, desktop)
            == CaptureStep::Wait,
        forall|last: Seq<u8>|
            last != frame ==> capture_step_spec(window, Some(frame), Some(last), false, alive, desktop)
                == CaptureStep::Send,
{
}

/// Which target PCs are showing a broadcast, for telling the interface when one drops it.
pub struct Showing {
    shown: Vec<(String, bool)>,
}

impl Showing {
    /// The targets and whether each is showing, in order.
    pub closed spec fn flags(&self) -> Seq<(Seq<char>, bool)> {
        Seq::new(self.shown@.len(), |i: int| (self.shown@[i].0@, self.shown@[i].1))
    }

    /// Every target, none showing yet.
    pub fn new(targets: &[String]) -> (s: Self)
        ensures
            s.flags() == Seq::new(targets@.len(), |i: int| (targets@[i]@, false)),
    {
        let mut shown: Vec<(String, bool)> = Vec::new();
        let mut i: usize = 0;
        while i < targets.len()
            invariant
                i <= targets@.len(),
                shown@.len() == i,
                forall|k: int|
                    0 <= k < i ==> #[trigger] shown@[k].0@ == targets@[k]@ && !shown@[k].1,
            decreases targets@.len() - i,
        {
            shown.push((targets[i].clone(), false));
            i = i + 1;
        }
        let s = Showing { shown };
        assert(s.flags() =~= Seq::new(targets@.len(), |i: int| (targets@[i]@, false)));
        s
    }

    /// Records whether `target` shows the broadcast now, and says whether it just dropped it: it
    /// was showing and is not any more. The first entry for `target` is updated.
    pub fn record(&mut self, target: &String, now: bool) -> (dropped: bool)
        ensures
            final(self).flags().len() == old(self).flags().len(),
            match first_index(old(self).flags(), target@) {
                Some(i) => {
                    &&& dropped == (old(self).flags()[i].1 && !now)
                    &&& final(self).flags() == old(self).flags().update(i, (target@, now))
                },
                None => !dropped && final(self).flags() == old(self).flags(),
            },
    {
        let mut i: usize = 0;
        while i < self.shown.len()
            invariant
                i <= self.shown@.len(),
                self.shown@ == old(self).shown@,
                forall|k: int| 0 <= k < i ==> #[trigger] self.shown@[k].0@ != target@,
            decreases self.shown@.len() - i,
        {
            if self.shown[i].0 == *target {
                let was = self.shown[i].1;
                proof {
                    lemma_first_index(old(self).flags(), target@, i as int);
                }
                self.shown.set(i, (target.clone(), now));
                proof {
                    assert(self.flags() =~= old(self).flags().update(i as int, (target@, now)));
                }
                return was && !now;
            }
            i = i + 1;
        }
        proof {
            lemma_no_index(old(self).flags(), target@);
        }
        false
    }
}

/// The index of the first entry for `key`.
pub open spec fn first_index(s: Seq<(Seq<char>, bool)>, key: Seq<char>) -> Option<int>
    decreases s.len(),
{
    if s.len() == 0 {
        None
    } else {
        match first_index(s.drop_last(), key) {
            Some(i) => Some(i),
            None => if s.last().0 == key {
                Some(s.len() - 1)
            } else {
                None
            },
        }
    }
}

proof fn lemma_first_index(s: Seq<(Seq<char>, bool)>, key: Seq<char>, i: int)
    requires
        0 <= i < s.len(),
        s[i].0 == key,
        forall|k: int| 0 <= k < i ==> #[trigger] s[k].0 != key,
    ensures
        first_index(s, key) == Some(i),
    decreases s.len(),
{
    if i < s.len() - 1 {
        lemma_first_index(s.drop_last(), key, i);
    } else {
        lemma_no_index(s.drop_last(), key);
    }
}

proof fn lemma_no_index(s: Seq<(Seq<char>, bool)>, key: Seq<char>)
    requires
        forall|k: int| 0 <= k < s.len() ==> #[trigger] s[k].0 != key,
    ensures
        first_index(s, key) is None,
    decreases s.len(),
{
    if s.len() > 0 {
        lemma_no_index(s.drop_last(), key);
    }
}

} // verus!
