//! The heap dumps that are open, or about to be.

use crate::analyzer::manager::ManagerError;
use crate::infra::pathname;
use crate::infra::pathname::{is_under, same, Platform};
use crate::text;
use vstd::prelude::*;

verus! {

/// How many dumps are kept open.
pub const MAX_OPEN_DUMPS: usize = 3;

/// How far a dump is.
#[derive(Debug)]
pub enum EntryPhase {
    Warming,
    Ready { summary: String },
    Failed { error: ManagerError },
}

impl Clone for EntryPhase {
    fn clone(&self) -> (r: Self)
        ensures
            r == *self,
    {
        match self {
            EntryPhase::Warming => EntryPhase::Warming,
            EntryPhase::Ready { summary } => EntryPhase::Ready { summary: summary.clone() },
            EntryPhase::Failed { error } => EntryPhase::Failed { error: error.clone() },
        }
    }
}

#[derive(Debug)]
pub struct DumpEntry {
    pub path: String,
    pub analyzer_session_id: String,
    pub phase: EntryPhase,
    pub last_touched: u64,
}

/// What is known of a dump: where it is, under which id the analyzer has it, how far it is
/// and when it was used last.
#[verifier::ext_equal]
pub struct DumpModel {
    pub path: Seq<char>,
    pub id: Seq<char>,
    pub phase: EntryPhase,
    pub last_touched: u64,
}

impl View for DumpEntry {
    type V = DumpModel;

    open spec fn view(&self) -> DumpModel {
        DumpModel {
            path: self.path@,
            id: self.analyzer_session_id@,
            phase: self.phase,
            last_touched: self.last_touched,
        }
    }
}

pub open spec fn dumps(s: Seq<DumpEntry>) -> Seq<DumpModel> {
    s.map_values(|e: DumpEntry| e@)
}

/// A path and an id.
pub open spec fn pair(v: (String, String)) -> (Seq<char>, Seq<char>) {
    (v.0@, v.1@)
}

pub open spec fn pairs(v: Seq<(String, String)>) -> Seq<(Seq<char>, Seq<char>)> {
    v.map_values(|x: (String, String)| pair(x))
}

/// The first dump, from `i` on, at this path.
pub open spec fn entry_of(s: Seq<DumpModel>, path: Seq<char>, p: Platform, i: int) -> Option<int>
    decreases s.len() - i,
{
    if i < 0 || i >= s.len() {
        None
    } else if same(s[i].path, path, p) {
        Some(i)
    } else {
        entry_of(s, path, p, i + 1)
    }
}

/// Among the first `n` dumps, the one that is ready and was used least recently.
pub open spec fn oldest_ready(s: Seq<DumpModel>, n: int) -> Option<int>
    decreases n,
{
    if n <= 0 {
        None
    } else {
        let before = oldest_ready(s, n - 1);
        if !(s[n - 1].phase is Ready) {
            before
        } else {
            match before {
                Some(i) => if s[n - 1].last_touched < s[i].last_touched {
                    Some(n - 1)
                } else {
                    before
                },
                None => Some(n - 1),
            }
        }
    }
}

pub open spec fn victim(s: Seq<DumpModel>) -> Option<int> {
    oldest_ready(s, s.len() as int)
}

/// The dumps that stay: while there are too many, the one that is ready and was used least
/// recently goes. Where none is ready, all stay.
pub open spec fn capped(s: Seq<DumpModel>) -> Seq<DumpModel>
    decreases s.len(),
{
    if s.len() <= MAX_OPEN_DUMPS {
        s
    } else {
        match victim(s) {
            Some(i) => if 0 <= i < s.len() {
                capped(s.remove(i))
            } else {
                s
            },
            None => s,
        }
    }
}

/// The dumps that go, in order.
pub open spec fn evicted(s: Seq<DumpModel>) -> Seq<(Seq<char>, Seq<char>)>
    decreases s.len(),
{
    if s.len() <= MAX_OPEN_DUMPS {
        Seq::empty()
    } else {
        match victim(s) {
            Some(i) => if 0 <= i < s.len() {
                seq![(s[i].path, s[i].id)] + evicted(s.remove(i))
            } else {
                Seq::empty()
            },
            None => Seq::empty(),
        }
    }
}

/// The dumps once one is being opened: it takes the place of what was known of it.
pub open spec fn entered(
    s: Seq<DumpModel>,
    path: Seq<char>,
    id: Seq<char>,
    now: u64,
    p: Platform,
) -> Seq<DumpModel> {
    match entry_of(s, path, p, 0) {
        Some(i) => s.update(
            i,
            DumpModel { path: s[i].path, id, phase: EntryPhase::Warming, last_touched: now },
        ),
        None => s.push(
            DumpModel { path, id, phase: EntryPhase::Warming, last_touched: now },
        ),
    }
}

/// The dumps that do not lie in a directory.
pub open spec fn kept_outside(s: Seq<DumpModel>, dir: Seq<char>, p: Platform) -> Seq<DumpModel>
    decreases s.len(),
{
    if s.len() == 0 {
        s
    } else if is_under(s.last().path, dir, p) {
        kept_outside(s.drop_last(), dir, p)
    } else {
        kept_outside(s.drop_last(), dir, p).push(s.last())
    }
}

/// The dumps that lie in a directory.
pub open spec fn gone_inside(s: Seq<DumpModel>, dir: Seq<char>, p: Platform) -> Seq<
    (Seq<char>, Seq<char>),
>
    decreases s.len(),
{
    if s.len() == 0 {
        Seq::empty()
    } else if is_under(s.last().path, dir, p) {
        gone_inside(s.drop_last(), dir, p).push((s.last().path, s.last().id))
    } else {
        gone_inside(s.drop_last(), dir, p)
    }
}

/// No two entries are for the same path.
pub open spec fn apart(s: Seq<DumpModel>, p: Platform) -> bool {
    forall|i: int, j: int|
        0 <= i < j < s.len() ==> !same((#[trigger] s[i]).path, (#[trigger] s[j]).path, p)
}

/// The dumps that are open, or about to be.
#[derive(Debug)]
pub struct DumpSessions {
    pub entries: Vec<DumpEntry>,
    pub platform: Platform,
}

impl DumpSessions {
    pub open spec fn all(&self) -> Seq<DumpModel> {
        dumps(self.entries@)
    }

    pub open spec fn wf(&self) -> bool {
        apart(self.all(), self.platform)
    }

    pub fn new(platform: Platform) -> (r: Self)
        ensures
            r.wf(),
            r.platform == platform,
            r.all() == Seq::<DumpModel>::empty(),
    {
        let r = DumpSessions { entries: Vec::new(), platform };
        assert(r.all() =~= Seq::<DumpModel>::empty());
        r
    }

    pub fn len(&self) -> (r: usize)
        ensures
            r == self.all().len(),
    {
        self.entries.len()
    }

    pub fn is_empty(&self) -> (r: bool)
        ensures
            r == (self.all().len() == 0),
    {
        self.entries.len() == 0
    }

    fn find(&self, path: &str) -> (r: Option<usize>)
        ensures
            match r {
                Some(i) => i < self.entries@.len() && entry_of(
                    self.all(),
                    path@,
                    self.platform,
                    0,
                ) == Some(i as int),
                None => entry_of(self.all(), path@, self.platform, 0) is None && forall|k: int|
                    0 <= k < self.all().len() ==> !same(
                        (#[trigger] self.all()[k]).path,
                        path@,
                        self.platform,
                    ),
            },
    {
        let ghost s = self.all();
        let p = self.platform;
        let mut i: usize = 0;
        while i < self.entries.len()
            invariant
                i <= self.entries@.len(),
                s == self.all(),
                p == self.platform,
                entry_of(s, path@, p, 0) == entry_of(s, path@, p, i as int),
                forall|k: int| 0 <= k < i ==> !same((#[trigger] s[k]).path, path@, p),
            decreases self.entries@.len() - i,
        {
            assert(s[i as int] == self.entries@[i as int]@);
            if pathname::same_path(self.entries[i].path.as_str(), path, p) {
                return Some(i);
            }
            i = i + 1;
        }
        None
    }

    /// Enters a dump that is being opened, in place of what was known of it. Where that
    /// makes too many, those that were used least recently go: their paths and ids.
    pub fn begin(&mut self, path: &str, analyzer_session_id: &str, now: u64) -> (r: Vec<
        (String, String),
    >)
        requires
            old(self).wf(),
        ensures
            final(self).wf(),
            final(self).platform == old(self).platform,
            ({
                let with = entered(
                    old(self).all(),
                    path@,
                    analyzer_session_id@,
                    now,
                    old(self).platform,
                );
                final(self).all() == capped(with) && pairs(r@) == evicted(with)
            }),
    {
        let ghost before = self.all();
        match self.find(path) {
            Some(i) => {
                let entry = DumpEntry {
                    path: self.entries[i].path.clone(),
                    analyzer_session_id: text::owned(analyzer_session_id),
                    phase: EntryPhase::Warming,
                    last_touched: now,
                };
                let ghost m = entry@;
                assert(before[i as int] == self.entries@[i as int]@);
                self.entries.set(i, entry);
                assert(self.all() =~= before.update(i as int, m));
            },
            None => {
                let entry = DumpEntry {
                    path: text::owned(path),
                    analyzer_session_id: text::owned(analyzer_session_id),
                    phase: EntryPhase::Warming,
                    last_touched: now,
                };
                let ghost m = entry@;
                self.entries.push(entry);
                assert(self.all() =~= before.push(m));
            },
        }
        let ghost with = self.all();
        assert(with =~= entered(before, path@, analyzer_session_id@, now, self.platform));
        let mut victims: Vec<(String, String)> = Vec::new();
        assert(pairs(victims@) + evicted(with) =~= evicted(with));
        while self.entries.len() > MAX_OPEN_DUMPS
            invariant
                self.wf(),
                self.platform == old(self).platform,
                capped(self.all()) == capped(with),
                pairs(victims@) + evicted(self.all()) == evicted(with),
                self.all().len() == self.entries@.len(),
            ensures
                self.all() == capped(self.all()),
                evicted(self.all()) == Seq::<(Seq<char>, Seq<char>)>::empty(),
            decreases self.entries@.len(),
        {
            let ghost s = self.all();
            let ghost gone = pairs(victims@);
            match self.evict_lru() {
                Some(v) => {
                    let ghost m = pair(v);
                    victims.push(v);
                    proof {
                        assert(pairs(victims@) =~= gone.push(m));
                        assert(pairs(victims@) + evicted(self.all()) =~= gone + evicted(s));
                    }
                },
                None => {
                    break;
                },
            }
        }
        assert(pairs(victims@) =~= evicted(with));
        victims
    }

    pub fn phase(&self, path: &str) -> (r: Option<EntryPhase>)
        ensures
            r == (match entry_of(self.all(), path@, self.platform, 0) {
                Some(i) => Some(self.all()[i].phase),
                None => None,
            }),
    {
        match self.find(path) {
            Some(i) => Some(self.entries[i].phase.clone()),
            None => None,
        }
    }

    pub fn analyzer_id(&self, path: &str) -> (r: Option<String>)
        ensures
            r.deep_view() == (match entry_of(self.all(), path@, self.platform, 0) {
                Some(i) => Some(self.all()[i].id),
                None => None,
            }),
    {
        match self.find(path) {
            Some(i) => Some(self.entries[i].analyzer_session_id.clone()),
            None => None,
        }
    }

    /// Settles how far a dump is. Where it is gone, or is being opened under another id by
    /// now, nothing happens.
    pub fn set_phase(
        &mut self,
        path: &str,
        analyzer_session_id: &str,
        phase: EntryPhase,
        now: u64,
    ) -> (r: bool)
        requires
            old(self).wf(),
        ensures
            final(self).wf(),
            final(self).platform == old(self).platform,
            match entry_of(old(self).all(), path@, old(self).platform, 0) {
                Some(i) if old(self).all()[i].id == analyzer_session_id@ => r && final(self).all()
                    == old(self).all().update(
                    i,
                    DumpModel { phase, last_touched: now, ..old(self).all()[i] },
                ),
                _ => !r && final(self).all() == old(self).all(),
            },
    {
        let ghost before = self.all();
        match self.find(path) {
            Some(i) => {
                assert(before[i as int] == self.entries@[i as int]@);
                if text::same(self.entries[i].analyzer_session_id.as_str(), analyzer_session_id) {
                    self.entries[i].phase = phase;
                    self.entries[i].last_touched = now;
                    assert(self.all() =~= before.update(
                        i as int,
                        DumpModel { phase, last_touched: now, ..before[i as int] },
                    ));
                    true
                } else {
                    false
                }
            },
            None => false,
        }
    }

    /// Marks a dump as used.
    pub fn touch(&mut self, path: &str, now: u64)
        requires
            old(self).wf(),
        ensures
            final(self).wf(),
            final(self).platform == old(self).platform,
            final(self).all() == touched(old(self).all(), path@, now, old(self).platform),
    {
        let ghost before = self.all();
        match self.find(path) {
            Some(i) => {
                assert(before[i as int] == self.entries@[i as int]@);
                self.entries[i].last_touched = now;
                assert(self.all() =~= touched(before, path@, now, self.platform));
            },
            None => {},
        }
    }

    /// Takes a dump out: the id under which the analyzer has it.
    pub fn remove(&mut self, path: &str) -> (r: Option<String>)
        requires
            old(self).wf(),
        ensures
            final(self).wf(),
            final(self).platform == old(self).platform,
            match entry_of(old(self).all(), path@, old(self).platform, 0) {
                Some(i) => r is Some && r->0@ == old(self).all()[i].id && final(self).all() == old(
                    self,
                ).all().remove(i),
                None => r is None && final(self).all() == old(self).all(),
            },
    {
        let ghost before = self.all();
        match self.find(path) {
            Some(i) => {
                let e = self.entries.remove(i);
                assert(self.all() =~= before.remove(i as int));
                Some(e.analyzer_session_id)
            },
            None => None,
        }
    }

    /// Takes out the dump that is ready and was used least recently.
    pub fn evict_lru(&mut self) -> (r: Option<(String, String)>)
        requires
            old(self).wf(),
        ensures
            final(self).wf(),
            final(self).platform == old(self).platform,
            match victim(old(self).all()) {
                Some(i) => 0 <= i < old(self).all().len() && r is Some && pair(r->0) == (
                    old(self).all()[i].path,
                    old(self).all()[i].id,
                ) && final(self).all() == old(self).all().remove(i),
                None => r is None && final(self).all() == old(self).all(),
            },
    {
        let ghost s = self.all();
        let mut best: Option<usize> = None;
        let mut i: usize = 0;
        while i < self.entries.len()
            invariant
                i <= self.entries@.len(),
                s == self.all(),
                s.len() == self.entries@.len(),
                self.entries == old(self).entries,
                self.platform == old(self).platform,
                match best {
                    Some(b) => b < i && oldest_ready(s, i as int) == Some(b as int),
                    None => oldest_ready(s, i as int) is None,
                },
            decreases self.entries@.len() - i,
        {
            assert(s[i as int] == self.entries@[i as int]@);
            let ready = match self.entries[i].phase {
                EntryPhase::Ready { .. } => true,
                _ => false,
            };
            if ready {
                match best {
                    Some(b) => {
                        assert(s[b as int] == self.entries@[b as int]@);
                        if self.entries[i].last_touched < self.entries[b].last_touched {
                            best = Some(i);
                        }
                    },
                    None => {
                        best = Some(i);
                    },
                }
            }
            i = i + 1;
        }
        match best {
            Some(b) => {
                assert(s[b as int] == self.entries@[b as int]@);
                let e = self.entries.remove(b);
                assert(self.all() =~= s.remove(b as int));
                Some((e.path, e.analyzer_session_id))
            },
            None => None,
        }
    }

    /// Takes out all dumps in a directory: their paths and ids.
    pub fn remove_under_dir(&mut self, base: &str) -> (r: Vec<(String, String)>)
        requires
            old(self).wf(),
        ensures
            final(self).wf(),
            final(self).platform == old(self).platform,
            final(self).all() == kept_outside(old(self).all(), base@, old(self).platform),
            pairs(r@) == gone_inside(old(self).all(), base@, old(self).platform),
    {
        let ghost all = self.all();
        let p = self.platform;
        let mut gone: Vec<(String, String)> = Vec::new();
        let mut i: usize = 0;
        let ghost mut seen: int = 0;
        proof {
            assert(all.take(0) =~= Seq::<DumpModel>::empty());
            assert(self.all() =~= kept_outside(all.take(0), base@, p) + all.skip(0));
            assert(pairs(gone@) =~= gone_inside(all.take(0), base@, p));
        }
        while i < self.entries.len()
            invariant
                self.wf(),
                self.platform == p,
                p == old(self).platform,
                0 <= seen <= all.len(),
                i == kept_outside(all.take(seen), base@, p).len(),
                self.all() == kept_outside(all.take(seen), base@, p) + all.skip(seen),
                pairs(gone@) == gone_inside(all.take(seen), base@, p),
                self.all().len() == self.entries@.len(),
            decreases self.entries@.len() - i,
        {
            let ghost s = self.all();
            let ghost told = pairs(gone@);
            proof {
                assert(s[i as int] == all[seen]);
                assert(s[i as int] == self.entries@[i as int]@);
                assert(all.take(seen + 1).drop_last() =~= all.take(seen));
                assert(all.take(seen + 1).last() == all[seen]);
            }
            if pathname::lies_under(self.entries[i].path.as_str(), base, p) {
                let e = self.entries.remove(i);
                assert(self.all() =~= s.remove(i as int));
                let v = (e.path, e.analyzer_session_id);
                let ghost m = pair(v);
                gone.push(v);
                assert(pairs(gone@) =~= told.push(m));
            } else {
                i = i + 1;
            }
            proof {
                assert(self.all() =~= kept_outside(all.take(seen + 1), base@, p) + all.skip(
                    seen + 1,
                ));
                seen = seen + 1;
            }
        }
        proof {
            assert(seen == all.len());
            assert(all.take(seen) =~= all);
            assert(self.all() =~= kept_outside(all, base@, p));
        }
        gone
    }
}

pub open spec fn touched(s: Seq<DumpModel>, path: Seq<char>, now: u64, p: Platform) -> Seq<
    DumpModel,
> {
    match entry_of(s, path, p, 0) {
        Some(i) => s.update(i, DumpModel { last_touched: now, ..s[i] }),
        None => s,
    }
}

/// The dump that goes first is ready, and none that is ready was used less recently. None
/// goes only where none is ready.
pub proof fn law_least_recent_dump_goes_first(s: Seq<DumpModel>, n: int)
    requires
        0 <= n <= s.len(),
    ensures
        match oldest_ready(s, n) {
            Some(i) => 0 <= i < n && s[i].phase is Ready && forall|k: int|
                0 <= k < n && (#[trigger] s[k]).phase is Ready ==> s[i].last_touched
                    <= s[k].last_touched,
            None => forall|k: int| 0 <= k < n ==> !((#[trigger] s[k]).phase is Ready),
        },
    decreases n,
{
    if n > 0 {
        law_least_recent_dump_goes_first(s, n - 1);
    }
}

/// There are never more dumps open than allowed once one was entered, unless none of them
/// is ready. Those that are not ready stay.
pub proof fn law_dumps_are_capped(s: Seq<DumpModel>)
    ensures
        capped(s).len() <= MAX_OPEN_DUMPS || forall|k: int|
            0 <= k < capped(s).len() ==> !((#[trigger] capped(s)[k]).phase is Ready),
        forall|k: int|
            0 <= k < s.len() && !((#[trigger] s[k]).phase is Ready) ==> capped(s).contains(s[k]),
    decreases s.len(),
{
    if s.len() > MAX_OPEN_DUMPS {
        law_least_recent_dump_goes_first(s, s.len() as int);
        match victim(s) {
            Some(i) => {
                let rest = s.remove(i);
                law_dumps_are_capped(rest);
                assert forall|k: int|
                    0 <= k < s.len() && !((#[trigger] s[k]).phase is Ready) implies capped(
                    s,
                ).contains(s[k]) by {
                    let j = if k < i { k } else { k - 1 };
                    assert(rest[j] == s[k]);
                }
            },
            None => {
                assert forall|k: int|
                    0 <= k < s.len() && !((#[trigger] s[k]).phase is Ready) implies capped(
                    s,
                ).contains(s[k]) by {
                    assert(capped(s)[k] == s[k]);
                }
            },
        }
    } else {
        assert forall|k: int|
            0 <= k < s.len() && !((#[trigger] s[k]).phase is Ready) implies capped(s).contains(
            s[k],
        ) by {
            assert(capped(s)[k] == s[k]);
        }
    }
}

/// The dumps of a directory are taken out and no others: what stays lies outside of it,
/// and what lay outside of it stays.
pub proof fn law_directory_takes_only_its_own(s: Seq<DumpModel>, dir: Seq<char>, p: Platform)
    ensures
        forall|k: int|
            0 <= k < kept_outside(s, dir, p).len() ==> !is_under(
                (#[trigger] kept_outside(s, dir, p)[k]).path,
                dir,
                p,
            ),
        forall|k: int|
            0 <= k < s.len() && !is_under((#[trigger] s[k]).path, dir, p) ==> kept_outside(
                s,
                dir,
                p,
            ).contains(s[k]),
        kept_outside(s, dir, p).len() + gone_inside(s, dir, p).len() == s.len(),
    decreases s.len(),
{
    if s.len() > 0 {
        law_directory_takes_only_its_own(s.drop_last(), dir, p);
        let front = kept_outside(s.drop_last(), dir, p);
        let kept = kept_outside(s, dir, p);
        assert forall|k: int| 0 <= k < kept.len() implies !is_under(
            (#[trigger] kept[k]).path,
            dir,
            p,
        ) by {
            if k < front.len() {
                assert(kept[k] == front[k]);
            }
        }
        assert forall|k: int|
            0 <= k < s.len() && !is_under((#[trigger] s[k]).path, dir, p) implies kept.contains(
            s[k],
        ) by {
            if k < s.len() - 1 {
                assert(s.drop_last()[k] == s[k]);
                assert(front.contains(s[k]));
                let j = choose|j: int| 0 <= j < front.len() && front[j] == s[k];
                assert(kept[j] == s[k]);
            } else {
                assert(kept[front.len() as int] == s[k]);
            }
        }
    }
}

pub proof fn lemma_found(s: Seq<DumpModel>, path: Seq<char>, p: Platform, i: int)
    requires
        0 <= i,
    ensures
        match entry_of(s, path, p, i) {
            Some(k) => i <= k < s.len() && same(s[k].path, path, p),
            None => forall|k: int| i <= k < s.len() ==> !same((#[trigger] s[k]).path, path, p),
        },
    decreases s.len() - i,
{
    if i < s.len() {
        lemma_found(s, path, p, i + 1);
    }
}

proof fn lemma_capped_apart(s: Seq<DumpModel>, p: Platform)
    requires
        apart(s, p),
    ensures
        apart(capped(s), p),
    decreases s.len(),
{
    if s.len() > MAX_OPEN_DUMPS {
        match victim(s) {
            Some(i) => {
                if 0 <= i < s.len() {
                    lemma_capped_apart(s.remove(i), p);
                }
            },
            None => {},
        }
    }
}

/// A dump that is being opened is known as such from then on: whoever opens it again, under
/// whatever way to write its path, finds it being opened under that id.
pub proof fn law_dump_is_opened_once(
    s: Seq<DumpModel>,
    path: Seq<char>,
    again: Seq<char>,
    id: Seq<char>,
    now: u64,
    p: Platform,
)
    requires
        apart(s, p),
        same(path, again, p),
    ensures
        ({
            let after = capped(entered(s, path, id, now, p));
            entry_of(after, again, p, 0) matches Some(i) && 0 <= i < after.len()
                && after[i].phase is Warming && after[i].id == id
        }),
{
    let with = entered(s, path, id, now, p);
    let after = capped(with);
    lemma_found(s, path, p, 0);
    let k = match entry_of(s, path, p, 0) {
        Some(i) => i,
        None => s.len() as int,
    };
    assert(apart(with, p)) by {
        assert forall|i: int, j: int| 0 <= i < j < with.len() implies !same(
            (#[trigger] with[i]).path,
            (#[trigger] with[j]).path,
            p,
        ) by {
            if entry_of(s, path, p, 0) is Some {
                assert(with[i].path == s[i].path && with[j].path == s[j].path);
                assert(!same(s[i].path, s[j].path, p));
            } else {
                if j < s.len() {
                    assert(!same(s[i].path, s[j].path, p));
                } else {
                    assert(!same(s[i].path, path, p));
                }
            }
        }
    }
    lemma_capped_apart(with, p);
    law_dumps_are_capped(with);
    let e = with[k];
    assert(e.phase is Warming);
    assert(same(e.path, again, p));
    assert(after.contains(e));
    let j = choose|j: int| 0 <= j < after.len() && after[j] == e;
    lemma_found(after, again, p, 0);
    match entry_of(after, again, p, 0) {
        Some(i) => {
            assert(same(after[i].path, after[j].path, p));
            if i < j {
                assert(!same(after[i].path, after[j].path, p));
            } else if j < i {
                assert(!same(after[j].path, after[i].path, p));
            }
        },
        None => {
            assert(!same(after[j].path, again, p));
        },
    }
}

/// A dump that is closed is gone: closing it again finds none.
pub proof fn law_closing_a_dump_is_final(s: Seq<DumpModel>, path: Seq<char>, p: Platform, i: int)
    requires
        apart(s, p),
        entry_of(s, path, p, 0) == Some(i),
    ensures
        0 <= i < s.len(),
        entry_of(s.remove(i), path, p, 0) is None,
{
    lemma_found(s, path, p, 0);
    let rest = s.remove(i);
    lemma_found(rest, path, p, 0);
    match entry_of(rest, path, p, 0) {
        Some(k) => {
            let at = if k < i { k } else { k + 1 };
            assert(rest[k] == s[at]);
            if at < i {
                assert(!same(s[at].path, s[i].path, p));
            } else {
                assert(!same(s[i].path, s[at].path, p));
            }
        },
        None => {},
    }
}

} // verus!
