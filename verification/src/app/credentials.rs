//! The names under which secrets are kept in the key chain.

use crate::text;
use vstd::prelude::*;

verus! {

/// The service that all secrets belong to.
pub const SERVICE: &'static str = "friday";

pub open spec fn env_account(env_id: Seq<char>) -> Seq<char> {
    "env/"@ + env_id + "/secret"@
}

pub open spec fn cred_account(env_id: Seq<char>, cred_id: Seq<char>) -> Seq<char> {
    "env/"@ + env_id + "/cred/"@ + cred_id
}

/// The name of the secret of an environment.
pub fn entry(env_id: &str) -> (r: String)
    ensures
        r@ == env_account(env_id@),
{
    let mut out = text::owned("env/");
    out.append(env_id);
    out.append("/secret");
    out
}

/// The name of the secret of one credential of an environment.
pub fn cred_entry(env_id: &str, cred_id: &str) -> (r: String)
    ensures
        r@ == cred_account(env_id@, cred_id@),
{
    let mut out = text::owned("env/");
    out.append(env_id);
    out.append("/cred/");
    out.append(cred_id);
    out
}

/// What to do with the secret of a credential.
#[derive(Debug)]
pub enum SecretChange {
    Keep(String),
    Remove,
}

/// An empty secret is not kept: the one that is there is removed.
pub fn store_cred_secret(value: &str) -> (r: SecretChange)
    ensures
        if value@.len() == 0 {
            r is Remove
        } else {
            r matches SecretChange::Keep(s) && s@ == value@
        },
{
    if value.is_empty() {
        SecretChange::Remove
    } else {
        SecretChange::Keep(text::owned(value))
    }
}

/// Two credentials of one environment have their secrets under different names.
pub proof fn law_secrets_are_apart(env_id: Seq<char>, a: Seq<char>, b: Seq<char>)
    requires
        a != b,
    ensures
        cred_account(env_id, a) != cred_account(env_id, b),
{
    let front = "env/"@ + env_id + "/cred/"@;
    let x = cred_account(env_id, a);
    let y = cred_account(env_id, b);
    if x == y {
        assert(x.subrange(front.len() as int, x.len() as int) =~= a);
        assert(y.subrange(front.len() as int, y.len() as int) =~= b);
    }
}

} // verus!
