//! Which repository the code of a service is in.

use crate::order;
use crate::order::{OrderKey, OrderKeyModel};
use crate::text;
use vstd::prelude::*;

verus! {

#[derive(Debug)]
pub enum ServiceRepoError {
    Db(String),
}

/// The error in words.
pub open spec fn service_repo_error_text(e: ServiceRepoError) -> Seq<char> {
    match e {
        ServiceRepoError::Db(m) => "database error: "@ + m@,
    }
}

impl ServiceRepoError {
    pub fn message(&self) -> (r: String)
        ensures
            r@ == service_repo_error_text(*self),
    {
        let (front, m) = match self {
            ServiceRepoError::Db(m) => ("database error: ", m),
        };
        let mut s = text::owned(front);
        s.append(m.as_str());
        s
    }
}

/// One row of the table of repositories.
#[derive(Debug)]
pub struct ServiceRepoRow {
    pub service: String,
    pub repo_url: String,
    pub last_ref: Option<String>,
    pub updated_at: String,
    pub last_used_at: String,
}

#[verifier::ext_equal]
pub struct ServiceRepoModel {
    pub service: Seq<char>,
    pub repo_url: Seq<char>,
    pub last_ref: Option<Seq<char>>,
    pub updated_at: Seq<char>,
    pub last_used_at: Seq<char>,
}

impl View for ServiceRepoRow {
    type V = ServiceRepoModel;

    open spec fn view(&self) -> ServiceRepoModel {
        ServiceRepoModel {
            service: self.service@,
            repo_url: self.repo_url@,
            last_ref: self.last_ref.deep_view(),
            updated_at: self.updated_at@,
            last_used_at: self.last_used_at@,
        }
    }
}

pub open spec fn repo_models(rows: Seq<ServiceRepoRow>) -> Seq<ServiceRepoModel> {
    rows.map_values(|r: ServiceRepoRow| r@)
}

/// The first row, from `i` on, of this service.
pub open spec fn row_of(rows: Seq<ServiceRepoModel>, service: Seq<char>, i: int) -> Option<int>
    decreases rows.len() - i,
{
    if i < 0 || i >= rows.len() {
        None
    } else if rows[i].service == service {
        Some(i)
    } else {
        row_of(rows, service, i + 1)
    }
}

pub open spec fn fresh_row(
    service: Seq<char>,
    repo_url: Seq<char>,
    last_ref: Option<Seq<char>>,
    now: Seq<char>,
) -> ServiceRepoModel {
    ServiceRepoModel { service, repo_url, last_ref, updated_at: now, last_used_at: now }
}

/// The table after a repository was recorded: it takes the place of the former one.
pub open spec fn upserted(
    rows: Seq<ServiceRepoModel>,
    service: Seq<char>,
    repo_url: Seq<char>,
    last_ref: Option<Seq<char>>,
    now: Seq<char>,
) -> Seq<ServiceRepoModel> {
    match row_of(rows, service, 0) {
        Some(i) => rows.update(i, fresh_row(service, repo_url, last_ref, now)),
        None => rows.push(fresh_row(service, repo_url, last_ref, now)),
    }
}

fn find_service(rows: &Vec<ServiceRepoRow>, service: &str) -> (r: Option<usize>)
    ensures
        match r {
            Some(i) => i < rows@.len() && row_of(repo_models(rows@), service@, 0) == Some(i as int),
            None => row_of(repo_models(rows@), service@, 0) is None,
        },
{
    let ghost ms = repo_models(rows@);
    let mut i: usize = 0;
    while i < rows.len()
        invariant
            i <= rows@.len(),
            ms == repo_models(rows@),
            row_of(ms, service@, 0) == row_of(ms, service@, i as int),
        decreases rows@.len() - i,
    {
        assert(ms[i as int] == rows@[i as int]@);
        if text::same(rows[i].service.as_str(), service) {
            return Some(i);
        }
        i = i + 1;
    }
    None
}

/// Records the repository of a service and the ref that was used last.
pub fn upsert_service_repo(
    rows: &mut Vec<ServiceRepoRow>,
    service: &str,
    repo_url: &str,
    last_ref: Option<&str>,
    now: &str,
)
    ensures
        repo_models(final(rows)@) == upserted(
            repo_models(old(rows)@),
            service@,
            repo_url@,
            last_ref.deep_view(),
            now@,
        ),
{
    let ghost ms = repo_models(rows@);
    let row = ServiceRepoRow {
        service: text::owned(service),
        repo_url: text::owned(repo_url),
        last_ref: text::to_owned_opt(last_ref),
        updated_at: text::owned(now),
        last_used_at: text::owned(now),
    };
    let ghost m = row@;
    assert(m =~= fresh_row(service@, repo_url@, last_ref.deep_view(), now@));
    match find_service(rows, service) {
        Some(i) => {
            rows.set(i, row);
            assert(repo_models(rows@) =~= ms.update(i as int, m));
        },
        None => {
            rows.push(row);
            assert(repo_models(rows@) =~= ms.push(m));
        },
    }
}

/// Looks the repository of a service up. The row that is found notes that it was used;
/// what is handed out is the row as it was before.
pub fn get_service_repo(rows: &mut Vec<ServiceRepoRow>, service: &str, now: &str) -> (r: Option<
    ServiceRepoRow,
>)
    ensures
        ({
            let was = repo_models(old(rows)@);
            match row_of(was, service@, 0) {
                Some(i) => r is Some && r->0@ == was[i] && repo_models(final(rows)@) == was.update(
                    i,
                    ServiceRepoModel { last_used_at: now@, ..was[i] },
                ),
                None => r is None && repo_models(final(rows)@) == was,
            }
        }),
{
    let ghost ms = repo_models(rows@);
    match find_service(rows, service) {
        Some(i) => {
            let found = &rows[i];
            assert(ms[i as int] == found@);
            let copy = ServiceRepoRow {
                service: found.service.clone(),
                repo_url: found.repo_url.clone(),
                last_ref: text::clone_opt(&found.last_ref),
                updated_at: found.updated_at.clone(),
                last_used_at: found.last_used_at.clone(),
            };
            let used = ServiceRepoRow {
                service: found.service.clone(),
                repo_url: found.repo_url.clone(),
                last_ref: text::clone_opt(&found.last_ref),
                updated_at: found.updated_at.clone(),
                last_used_at: text::owned(now),
            };
            let ghost m = used@;
            assert(m =~= ServiceRepoModel { last_used_at: now@, ..ms[i as int] });
            assert(copy@ =~= ms[i as int]);
            rows.set(i, used);
            assert(repo_models(rows@) =~= ms.update(i as int, m));
            Some(copy)
        },
        None => None,
    }
}

/// Forgets the repository of a service.
pub fn delete_service_repo(rows: &mut Vec<ServiceRepoRow>, service: &str)
    ensures
        ({
            let was = repo_models(old(rows)@);
            repo_models(final(rows)@) == match row_of(was, service@, 0) {
                Some(i) => was.remove(i),
                None => was,
            }
        }),
{
    let ghost ms = repo_models(rows@);
    match find_service(rows, service) {
        Some(i) => {
            let _gone = rows.remove(i);
            assert(repo_models(rows@) =~= ms.remove(i as int));
        },
        None => {},
    }
}

pub open spec fn repo_key(r: ServiceRepoModel) -> OrderKeyModel {
    OrderKeyModel { rank: 0, text: r.last_used_at }
}

/// The rows, by their numbers, the one used last first.
pub fn list_service_repos(rows: &Vec<ServiceRepoRow>) -> (r: Vec<usize>)
    ensures
        order::is_order(
            repo_models(rows@).map_values(|m: ServiceRepoModel| repo_key(m)),
            true,
            r@,
        ),
{
    let ghost ms = repo_models(rows@);
    let ghost f = |m: ServiceRepoModel| repo_key(m);
    let mut keys: Vec<OrderKey> = Vec::new();
    let mut i: usize = 0;
    while i < rows.len()
        invariant
            i <= rows@.len(),
            ms == repo_models(rows@),
            keys@.len() == i,
            forall|k: int| 0 <= k < i ==> (#[trigger] keys@[k])@ == repo_key(ms[k]),
        decreases rows@.len() - i,
    {
        assert(ms[i as int] == rows@[i as int]@);
        let key = OrderKey { rank: 0, text: rows[i].last_used_at.clone() };
        assert(key@ =~= repo_key(ms[i as int]));
        keys.push(key);
        i = i + 1;
    }
    assert(order::key_models(keys@) =~= ms.map_values(f));
    order::order(&keys, true)
}

proof fn lemma_row_of(rows: Seq<ServiceRepoModel>, service: Seq<char>, i: int)
    requires
        0 <= i,
        row_of(rows, service, i) is Some,
    ensures
        i <= row_of(rows, service, i)->0 < rows.len(),
        rows[row_of(rows, service, i)->0].service == service,
        forall|k: int|
            i <= k < row_of(rows, service, i)->0 ==> (#[trigger] rows[k]).service != service,
    decreases rows.len() - i,
{
    if rows[i].service != service {
        lemma_row_of(rows, service, i + 1);
    }
}

proof fn lemma_row_of_is(rows: Seq<ServiceRepoModel>, service: Seq<char>, i: int, p: int)
    requires
        0 <= i <= p < rows.len(),
        rows[p].service == service,
        forall|k: int| i <= k < p ==> (#[trigger] rows[k]).service != service,
    ensures
        row_of(rows, service, i) == Some(p),
    decreases p - i,
{
    if i < p {
        lemma_row_of_is(rows, service, i + 1, p);
    }
}

proof fn lemma_no_row(rows: Seq<ServiceRepoModel>, service: Seq<char>, i: int)
    requires
        0 <= i,
        row_of(rows, service, i) is None,
    ensures
        forall|k: int| i <= k < rows.len() ==> (#[trigger] rows[k]).service != service,
    decreases rows.len() - i,
{
    if i < rows.len() {
        lemma_no_row(rows, service, i + 1);
    }
}

/// What was recorded for a service last is what a lookup finds.
pub proof fn law_lookup_finds_what_was_recorded(
    rows: Seq<ServiceRepoModel>,
    service: Seq<char>,
    repo_url: Seq<char>,
    last_ref: Option<Seq<char>>,
    now: Seq<char>,
)
    ensures
        ({
            let t = upserted(rows, service, repo_url, last_ref, now);
            row_of(t, service, 0) is Some && t[row_of(t, service, 0)->0] == fresh_row(
                service,
                repo_url,
                last_ref,
                now,
            )
        }),
{
    let t = upserted(rows, service, repo_url, last_ref, now);
    match row_of(rows, service, 0) {
        Some(p) => {
            lemma_row_of(rows, service, 0);
            lemma_row_of_is(t, service, 0, p);
        },
        None => {
            lemma_no_row(rows, service, 0);
            lemma_row_of_is(t, service, 0, rows.len() as int);
        },
    }
}

} // verus!
