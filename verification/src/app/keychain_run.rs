//! Changing the secrets of an environment, and taking the changes back.

use crate::app::env_credentials::{rows, CredentialModel, EnvCredentialRow};
use crate::app::env_save::{
    has_row, rollback_saved_state, rollback_steps, KeychainOp, KeychainOpModel, RollbackStep,
    SaveError,
};
use crate::text;
use vstd::prelude::*;

verus! {

/// The credential whose secret a change is about.
pub open spec fn subject(op: KeychainOpModel) -> Seq<char> {
    match op {
        KeychainOpModel::Write { cred_id, .. } => cred_id,
        KeychainOpModel::Delete { cred_id } => cred_id,
    }
}

pub open spec fn op_models(ops: Seq<KeychainOp>) -> Seq<KeychainOpModel> {
    ops.map_values(|o: KeychainOp| o@)
}

/// The writes among the changes, in their order.
pub open spec fn writes_of(ops: Seq<KeychainOpModel>) -> Seq<KeychainOpModel>
    decreases ops.len(),
{
    if ops.len() == 0 {
        Seq::empty()
    } else if ops.last() is Write {
        writes_of(ops.drop_last()).push(ops.last())
    } else {
        writes_of(ops.drop_last())
    }
}

/// The deletions among the changes, in their order.
pub open spec fn deletions_of(ops: Seq<KeychainOpModel>) -> Seq<KeychainOpModel>
    decreases ops.len(),
{
    if ops.len() == 0 {
        Seq::empty()
    } else if ops.last() is Delete {
        deletions_of(ops.drop_last()).push(ops.last())
    } else {
        deletions_of(ops.drop_last())
    }
}

/// The changes in the order in which they are made: all writes before any deletion.
pub open spec fn writes_first(ops: Seq<KeychainOpModel>) -> Seq<KeychainOpModel> {
    writes_of(ops) + deletions_of(ops)
}

/// The changes to the key chain, how far they have come, and what was there before.
#[derive(Debug)]
pub struct KeychainRun {
    /// All writes, then all deletions.
    pub ops: Vec<KeychainOp>,
    /// How many of them were made.
    pub done: usize,
    /// For each change that was made, and for the next one once it is known: the secret
    /// that was there before.
    pub former: Vec<Option<String>>,
    /// The environment is new.
    pub is_new: bool,
    /// The credentials that the environment had before.
    pub existing: Vec<EnvCredentialRow>,
}

#[verifier::ext_equal]
pub struct RunModel {
    pub ops: Seq<KeychainOpModel>,
    pub done: int,
    pub former: Seq<Option<Seq<char>>>,
    pub is_new: bool,
    pub existing: Seq<CredentialModel>,
}

impl View for KeychainRun {
    type V = RunModel;

    open spec fn view(&self) -> RunModel {
        RunModel {
            ops: op_models(self.ops@),
            done: self.done as int,
            former: self.former.deep_view(),
            is_new: self.is_new,
            existing: rows(self.existing@),
        }
    }
}

pub open spec fn proper(m: RunModel) -> bool {
    &&& 0 <= m.done <= m.ops.len()
    &&& m.former.len() <= m.ops.len()
    &&& m.former.len() == m.done || m.former.len() == m.done + 1
}

/// Where the next change is about a credential that was not there before, nothing was
/// there for it either.
pub open spec fn prepared(m: RunModel) -> RunModel {
    if m.done < m.ops.len() && m.former.len() == m.done && !has_row(
        m.existing,
        subject(m.ops[m.done]),
    ) {
        RunModel { former: m.former.push(None), ..m }
    } else {
        m
    }
}

/// What happened to the key chain.
#[derive(Debug)]
pub enum KeychainEvent {
    /// Nothing yet.
    Started,
    /// The secret that was asked for; `None` where there is none.
    Former(Option<String>),
    /// The change was made.
    Changed,
    /// What was asked for failed, and changed nothing.
    Failed(String),
}

pub open spec fn after_event(m: RunModel, e: KeychainEvent) -> RunModel {
    match e {
        KeychainEvent::Former(s) => if m.done < m.ops.len() && m.former.len() == m.done {
            RunModel { former: m.former.push(s.deep_view()), ..m }
        } else {
            m
        },
        KeychainEvent::Changed => if m.former.len() == m.done + 1 {
            prepared(RunModel { done: m.done + 1, ..m })
        } else {
            m
        },
        _ => m,
    }
}

/// A secret as it was before: to be stored again, or to be deleted where there was none.
#[derive(Debug)]
pub struct SecretUndo {
    pub cred_id: String,
    pub secret: Option<String>,
}

#[verifier::ext_equal]
pub struct UndoModel {
    pub cred_id: Seq<char>,
    pub secret: Option<Seq<char>>,
}

impl View for SecretUndo {
    type V = UndoModel;

    open spec fn view(&self) -> UndoModel {
        UndoModel { cred_id: self.cred_id@, secret: self.secret.deep_view() }
    }
}

/// How the first `n` changes are taken back, the last one first.
pub open spec fn undo_of(m: RunModel, n: int) -> Seq<UndoModel>
    decreases n,
{
    if n <= 0 {
        Seq::empty()
    } else {
        seq![UndoModel { cred_id: subject(m.ops[n - 1]), secret: m.former[n - 1] }] + undo_of(
            m,
            n - 1,
        )
    }
}

/// What to do about the key chain next.
#[derive(Debug)]
pub enum KeychainStep {
    /// Read the secret that is about to be changed.
    Read { cred_id: String },
    /// Make this change.
    Run(KeychainOp),
    /// All changes are made.
    Finished,
    /// Bring the secrets back in this order, take the save back, report the error.
    RollBack { undo: Vec<SecretUndo>, steps: Vec<RollbackStep>, error: SaveError },
}

/// The step that follows where nothing failed.
pub open spec fn is_next(m: RunModel, r: KeychainStep) -> bool {
    if m.done >= m.ops.len() {
        r is Finished
    } else if m.former.len() == m.done {
        r matches KeychainStep::Read { cred_id } && cred_id@ == subject(m.ops[m.done])
    } else {
        r matches KeychainStep::Run(op) && op@ == m.ops[m.done]
    }
}

/// The step that takes all changes back.
pub open spec fn is_rollback(m: RunModel, why: Seq<char>, r: KeychainStep) -> bool {
    &&& r matches KeychainStep::RollBack { undo, steps, error }
    &&& undo@.map_values(|u: SecretUndo| u@) == undo_of(m, m.done)
    &&& steps@.map_values(|s: RollbackStep| s@) == rollback_steps(m.is_new, m.existing)
    &&& error matches SaveError::Keychain(e) && e@ == why
}

fn copy_op(op: &KeychainOp) -> (r: KeychainOp)
    ensures
        r@ == op@,
{
    match op {
        KeychainOp::Write { cred_id, secret } => KeychainOp::Write {
            cred_id: cred_id.clone(),
            secret: secret.clone(),
        },
        KeychainOp::Delete { cred_id } => KeychainOp::Delete { cred_id: cred_id.clone() },
    }
}

fn subject_of<'a>(op: &'a KeychainOp) -> (r: &'a str)
    ensures
        r@ == subject(op@),
{
    match op {
        KeychainOp::Write { cred_id, .. } => cred_id.as_str(),
        KeychainOp::Delete { cred_id } => cred_id.as_str(),
    }
}

fn order_ops(ops: &Vec<KeychainOp>) -> (r: Vec<KeychainOp>)
    ensures
        op_models(r@) == writes_first(op_models(ops@)),
{
    let ghost all = op_models(ops@);
    let mut out: Vec<KeychainOp> = Vec::new();
    let mut i: usize = 0;
    assert(op_models(out@) =~= writes_of(all.take(0)));
    while i < ops.len()
        invariant
            i <= ops@.len(),
            all == op_models(ops@),
            op_models(out@) == writes_of(all.take(i as int)),
        decreases ops@.len() - i,
    {
        let ghost before = op_models(out@);
        proof {
            assert(all.take(i + 1).drop_last() =~= all.take(i as int));
            assert(all.take(i + 1).last() == ops@[i as int]@);
        }
        match &ops[i] {
            KeychainOp::Write { .. } => {
                out.push(copy_op(&ops[i]));
                assert(op_models(out@) =~= before.push(ops@[i as int]@));
            },
            KeychainOp::Delete { .. } => {},
        }
        i = i + 1;
    }
    let ghost front = op_models(out@);
    let mut k: usize = 0;
    proof {
        assert(all.take(i as int) =~= all);
        assert(op_models(out@) =~= front + deletions_of(all.take(0)));
    }
    while k < ops.len()
        invariant
            k <= ops@.len(),
            all == op_models(ops@),
            op_models(out@) == front + deletions_of(all.take(k as int)),
        decreases ops@.len() - k,
    {
        let ghost before = op_models(out@);
        let ghost tail = deletions_of(all.take(k as int));
        proof {
            assert(all.take(k + 1).drop_last() =~= all.take(k as int));
            assert(all.take(k + 1).last() == ops@[k as int]@);
        }
        match &ops[k] {
            KeychainOp::Delete { .. } => {
                out.push(copy_op(&ops[k]));
                assert(op_models(out@) =~= before.push(ops@[k as int]@));
                assert(op_models(out@) =~= front + tail.push(ops@[k as int]@));
            },
            KeychainOp::Write { .. } => {},
        }
        k = k + 1;
    }
    assert(all.take(k as int) =~= all);
    out
}

impl KeychainRun {
    pub open spec fn wf(&self) -> bool {
        proper(self@)
    }

    /// Begins with the changes of a save. `existing` are the credentials that the
    /// environment had before it.
    pub fn new(ops: &Vec<KeychainOp>, is_new: bool, existing: &Vec<EnvCredentialRow>) -> (r: Self)
        ensures
            r.wf(),
            r@ == prepared(
                RunModel {
                    ops: writes_first(op_models(ops@)),
                    done: 0,
                    former: Seq::empty(),
                    is_new,
                    existing: rows(existing@),
                },
            ),
    {
        let mut had: Vec<EnvCredentialRow> = Vec::new();
        let mut i: usize = 0;
        while i < existing.len()
            invariant
                i <= existing@.len(),
                had@.len() == i,
                forall|k: int| 0 <= k < i ==> had@[k] == existing@[k],
            decreases existing@.len() - i,
        {
            had.push(existing[i].clone());
            i = i + 1;
        }
        assert(had@ =~= existing@);
        let mut run = KeychainRun {
            ops: order_ops(ops),
            done: 0,
            former: Vec::new(),
            is_new,
            existing: had,
        };
        assert(run.former.deep_view() =~= Seq::empty());
        run.prepare();
        run
    }

    fn was_there(&self, cred_id: &str) -> (r: bool)
        ensures
            r == has_row(self@.existing, cred_id@),
    {
        let ghost t = rows(self.existing@);
        let mut i: usize = 0;
        while i < self.existing.len()
            invariant
                i <= self.existing@.len(),
                t == rows(self.existing@),
                forall|k: int| 0 <= k < i ==> (#[trigger] t[k]).id != cred_id@,
            decreases self.existing@.len() - i,
        {
            assert(t[i as int] == self.existing@[i as int]@);
            if text::same(self.existing[i].id.as_str(), cred_id) {
                return true;
            }
            i = i + 1;
        }
        false
    }

    fn prepare(&mut self)
        requires
            proper(old(self)@),
        ensures
            final(self)@ == prepared(old(self)@),
            proper(final(self)@),
    {
        let ghost m = self@;
        if self.done < self.ops.len() && self.former.len() == self.done {
            assert(m.ops[m.done] == self.ops@[self.done as int]@);
            if !self.was_there(subject_of(&self.ops[self.done])) {
                self.former.push(None);
                assert(self.former.deep_view() =~= m.former.push(None));
            }
        }
        assert(self@ =~= prepared(m));
    }

    fn undo(&self) -> (r: Vec<SecretUndo>)
        requires
            self.wf(),
        ensures
            r@.map_values(|u: SecretUndo| u@) == undo_of(self@, self@.done),
    {
        let ghost v = |u: SecretUndo| u@;
        let ghost m = self@;
        let mut out: Vec<SecretUndo> = Vec::new();
        let mut n: usize = self.done;
        assert(out@.map_values(v) + undo_of(m, n as int) =~= undo_of(m, m.done));
        while n > 0
            invariant
                n <= self.done,
                self.wf(),
                m == self@,
                v == |u: SecretUndo| u@,
                out@.map_values(v) + undo_of(m, n as int) == undo_of(m, m.done),
            decreases n,
        {
            let ghost before = out@.map_values(v);
            let k = n - 1;
            assert(m.ops[k as int] == self.ops@[k as int]@);
            assert(m.former[k as int] == self.former@[k as int].deep_view());
            let u = SecretUndo {
                cred_id: text::owned(subject_of(&self.ops[k])),
                secret: text::clone_opt(&self.former[k]),
            };
            let ghost um = u@;
            out.push(u);
            assert(out@.map_values(v) =~= before.push(um));
            assert(before.push(um) + undo_of(m, k as int) =~= before + (seq![um] + undo_of(
                m,
                k as int,
            )));
            n = k;
        }
        assert(out@.map_values(v) + undo_of(m, 0) =~= out@.map_values(v));
        out
    }
}

/// Takes in what happened and tells what to do next. Before a secret is changed that may
/// have been there, it is read; where something fails, all that was changed is brought
/// back to what it was.
pub fn execute_keychain_ops(run: &mut KeychainRun, event: KeychainEvent) -> (r: KeychainStep)
    requires
        old(run).wf(),
    ensures
        final(run).wf(),
        final(run)@ == after_event(old(run)@, event),
        match event {
            KeychainEvent::Failed(why) => is_rollback(final(run)@, why@, r),
            _ => is_next(final(run)@, r),
        },
{
    let ghost m = run@;
    match event {
        KeychainEvent::Failed(why) => {
            let steps = rollback_saved_state(run.is_new, &run.existing);
            return KeychainStep::RollBack {
                undo: run.undo(),
                steps,
                error: SaveError::Keychain(why),
            };
        },
        KeychainEvent::Started => {},
        KeychainEvent::Former(secret) => {
            if run.done < run.ops.len() && run.former.len() == run.done {
                let ghost s = secret.deep_view();
                run.former.push(secret);
                assert(run.former.deep_view() =~= m.former.push(s));
            }
        },
        KeychainEvent::Changed => {
            if run.former.len() > run.done {
                run.done = run.done + 1;
                run.prepare();
            }
        },
    }
    assert(run@ =~= after_event(m, event));
    if run.done >= run.ops.len() {
        KeychainStep::Finished
    } else {
        assert(run@.ops[run.done as int] == run.ops@[run.done as int]@);
        if run.former.len() == run.done {
            KeychainStep::Read { cred_id: text::owned(subject_of(&run.ops[run.done])) }
        } else {
            KeychainStep::Run(copy_op(&run.ops[run.done]))
        }
    }
}

/// The secrets of an environment, by the ids of its credentials.
pub type Chain = Map<Seq<char>, Seq<char>>;

pub open spec fn secret_in(chain: Chain, id: Seq<char>) -> Option<Seq<char>> {
    if chain.contains_key(id) {
        Some(chain[id])
    } else {
        None
    }
}

/// The key chain with one secret stored, or deleted.
pub open spec fn with_secret(chain: Chain, id: Seq<char>, secret: Option<Seq<char>>) -> Chain {
    match secret {
        Some(s) => chain.insert(id, s),
        None => chain.remove(id),
    }
}

/// The key chain after a change. An empty secret is none.
pub open spec fn applied(chain: Chain, op: KeychainOpModel) -> Chain {
    match op {
        KeychainOpModel::Write { cred_id, secret } => with_secret(
            chain,
            cred_id,
            if secret.len() > 0 {
                Some(secret)
            } else {
                None
            },
        ),
        KeychainOpModel::Delete { cred_id } => with_secret(chain, cred_id, None),
    }
}

/// The key chain after the changes were taken back, one after the other.
pub open spec fn undone(chain: Chain, undo: Seq<UndoModel>) -> Chain
    decreases undo.len(),
{
    if undo.len() == 0 {
        chain
    } else {
        undone(with_secret(chain, undo[0].cred_id, undo[0].secret), undo.drop_first())
    }
}

/// The key chains through which a run has come: each change was made to the one before,
/// and what was read before it is what was there.
pub open spec fn is_history(m: RunModel, chains: Seq<Chain>) -> bool {
    &&& chains.len() == m.done + 1
    &&& forall|i: int|
        0 <= i < m.done ==> #[trigger] chains[i + 1] == applied(chains[i], m.ops[i]) && m.former[i]
            == (if has_row(m.existing, subject(m.ops[i])) {
            secret_in(chains[i], subject(m.ops[i]))
        } else {
            None
        })
}

/// Only credentials that the environment had before have secrets among those to be
/// changed: the others are new.
pub open spec fn new_ones_are_bare(m: RunModel, chain: Chain) -> bool {
    forall|i: int|
        0 <= i < m.ops.len() && !has_row(m.existing, subject(#[trigger] m.ops[i]))
            ==> !chain.contains_key(subject(m.ops[i]))
}

proof fn lemma_undone(m: RunModel, chains: Seq<Chain>, now: Chain, n: int)
    requires
        proper(m),
        is_history(m, chains),
        0 <= n <= m.done,
        forall|id: Seq<char>| #[trigger]
            secret_in(now, id) == secret_in(chains[n], id) || (secret_in(now, id) is None
                && !has_row(m.existing, id)),
    ensures
        forall|id: Seq<char>| #[trigger]
            secret_in(undone(now, undo_of(m, n)), id) == secret_in(chains[0], id) || (secret_in(
                undone(now, undo_of(m, n)),
                id,
            ) is None && !has_row(m.existing, id)),
    decreases n,
{
    if n > 0 {
        let k = n - 1;
        let undo = undo_of(m, n);
        let id = subject(m.ops[k]);
        let before = with_secret(now, id, m.former[k]);
        assert(undo.drop_first() =~= undo_of(m, k));
        assert(undo[0] == (UndoModel { cred_id: id, secret: m.former[k] }));
        assert(chains[k + 1] == applied(chains[k], m.ops[k]));
        assert forall|x: Seq<char>| #[trigger]
            secret_in(before, x) == secret_in(chains[k], x) || (secret_in(before, x) is None
                && !has_row(m.existing, x)) by {
            if x != id {
                assert(secret_in(before, x) == secret_in(now, x));
                assert(secret_in(chains[n], x) == secret_in(chains[k], x));
            }
        }
        lemma_undone(m, chains, before, k);
    }
}

/// Taking a run back leaves every secret of a credential that the environment had before
/// as it was before the first change. Where the credentials that are new had no secrets,
/// it leaves the whole key chain so.
pub proof fn law_rollback_restores_the_secrets(m: RunModel, chains: Seq<Chain>)
    requires
        proper(m),
        is_history(m, chains),
    ensures
        forall|id: Seq<char>| #[trigger]
            has_row(m.existing, id) ==> secret_in(undone(chains.last(), undo_of(m, m.done)), id)
                == secret_in(chains[0], id),
        new_ones_are_bare(m, chains[0]) ==> undone(chains.last(), undo_of(m, m.done)) == chains[0],
{
    let end = undone(chains.last(), undo_of(m, m.done));
    lemma_undone(m, chains, chains.last(), m.done);
    assert forall|id: Seq<char>| #[trigger] has_row(m.existing, id) implies secret_in(end, id)
        == secret_in(chains[0], id) by {
        assert(secret_in(end, id) == secret_in(chains[0], id));
    }
    if new_ones_are_bare(m, chains[0]) {
        assert forall|id: Seq<char>| secret_in(end, id) == secret_in(chains[0], id) by {
            if !has_row(m.existing, id) {
                if exists|i: int| 0 <= i < m.ops.len() && subject(#[trigger] m.ops[i]) == id {
                    assert(secret_in(chains[0], id) is None);
                } else {
                    lemma_untouched(m, chains, id, m.done);
                    lemma_undo_leaves(m, chains.last(), id, m.done);
                }
            }
        }
        assert forall|id: Seq<char>| #[trigger]
            end.dom().contains(id) == chains[0].dom().contains(id) && (end.dom().contains(id)
                ==> end[id] == chains[0][id]) by {
            assert(secret_in(end, id) == secret_in(chains[0], id));
        }
        assert(end.dom() =~= chains[0].dom());
        assert(end =~= chains[0]);
    }
}

proof fn lemma_untouched(m: RunModel, chains: Seq<Chain>, id: Seq<char>, n: int)
    requires
        is_history(m, chains),
        0 <= n <= m.done <= m.ops.len(),
        forall|i: int| 0 <= i < m.ops.len() ==> subject(#[trigger] m.ops[i]) != id,
    ensures
        secret_in(chains[n], id) == secret_in(chains[0], id),
    decreases n,
{
    if n > 0 {
        lemma_untouched(m, chains, id, n - 1);
        assert(chains[(n - 1) + 1] == applied(chains[n - 1], m.ops[n - 1]));
    }
}

proof fn lemma_undo_leaves(m: RunModel, now: Chain, id: Seq<char>, n: int)
    requires
        0 <= n <= m.ops.len(),
        forall|i: int| 0 <= i < m.ops.len() ==> subject(#[trigger] m.ops[i]) != id,
    ensures
        secret_in(undone(now, undo_of(m, n)), id) == secret_in(now, id),
    decreases n,
{
    if n > 0 {
        let undo = undo_of(m, n);
        assert(undo.drop_first() =~= undo_of(m, n - 1));
        assert(undo[0].cred_id == subject(m.ops[n - 1]));
        lemma_undo_leaves(m, with_secret(now, undo[0].cred_id, undo[0].secret), id, n - 1);
    }
}

/// A change that is made, once what was there before is known, adds to the history.
pub proof fn law_steps_keep_the_history(m: RunModel, chains: Seq<Chain>)
    requires
        proper(m),
        is_history(m, chains),
        m.former.len() == m.done + 1,
        m.former[m.done] == (if has_row(m.existing, subject(m.ops[m.done])) {
            secret_in(chains.last(), subject(m.ops[m.done]))
        } else {
            None
        }),
    ensures
        is_history(
            after_event(m, KeychainEvent::Changed),
            chains.push(applied(chains.last(), m.ops[m.done])),
        ),
{
    let n = after_event(m, KeychainEvent::Changed);
    let next = chains.push(applied(chains.last(), m.ops[m.done]));
    assert forall|i: int| 0 <= i < n.done implies #[trigger] next[i + 1] == applied(
        next[i],
        n.ops[i],
    ) && n.former[i] == (if has_row(n.existing, subject(n.ops[i])) {
        secret_in(next[i], subject(n.ops[i]))
    } else {
        None
    }) by {
        if i < m.done {
            assert(chains[i + 1] == applied(chains[i], m.ops[i]));
        }
    }
}

/// Every secret is written before any is deleted. So where a write fails nothing has been
/// deleted yet.
pub proof fn law_secrets_are_written_first(ops: Seq<KeychainOpModel>)
    ensures
        forall|i: int, j: int|
            0 <= i < j < writes_first(ops).len() && (#[trigger] writes_first(ops)[j]) is Write ==> (
            #[trigger] writes_first(ops)[i]) is Write,
{
    lemma_kinds(ops);
}

proof fn lemma_kinds(ops: Seq<KeychainOpModel>)
    ensures
        forall|i: int| 0 <= i < writes_of(ops).len() ==> (#[trigger] writes_of(ops)[i]) is Write,
        forall|i: int|
            0 <= i < deletions_of(ops).len() ==> (#[trigger] deletions_of(ops)[i]) is Delete,
    decreases ops.len(),
{
    if ops.len() > 0 {
        lemma_kinds(ops.drop_last());
    }
}

} // verus!
