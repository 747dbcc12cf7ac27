//! Where the assistant keeps its files.

use crate::infra::pathname;
use crate::infra::pathname::{joined, Platform};
use vstd::prelude::*;

verus! {

/// The directory of the assistant and what lies in it.
#[derive(Debug)]
pub struct Paths {
    pub root: String,
    pub platform: Platform,
}

impl Paths {
    pub fn new(root: String, platform: Platform) -> (r: Self)
        ensures
            r.root == root,
            r.platform == platform,
    {
        Paths { root, platform }
    }

    /// What a name stands for inside the directory.
    pub open spec fn inside(&self, name: Seq<char>) -> Seq<char> {
        joined(self.root@, name, self.platform)
    }

    pub fn db_path(&self) -> (r: String)
        ensures
            r@ == self.inside("friday.db"@),
    {
        pathname::join(self.root.as_str(), "friday.db", self.platform)
    }

    pub fn log_dir(&self) -> (r: String)
        ensures
            r@ == self.inside("logs"@),
    {
        pathname::join(self.root.as_str(), "logs", self.platform)
    }

    pub fn playbooks_dir(&self) -> (r: String)
        ensures
            r@ == self.inside("playbooks"@),
    {
        pathname::join(self.root.as_str(), "playbooks", self.platform)
    }

    pub fn skills_dir(&self) -> (r: String)
        ensures
            r@ == self.inside("skills"@),
    {
        pathname::join(self.root.as_str(), "skills", self.platform)
    }

    pub fn prompts_dir(&self) -> (r: String)
        ensures
            r@ == self.inside("prompts"@),
    {
        pathname::join(self.root.as_str(), "prompts", self.platform)
    }

    pub fn artifacts_dir(&self) -> (r: String)
        ensures
            r@ == self.inside("artifacts"@),
    {
        pathname::join(self.root.as_str(), "artifacts", self.platform)
    }

    pub fn session_artifacts_dir(&self, session_id: &str) -> (r: String)
        ensures
            r@ == joined(self.inside("artifacts"@), session_id@, self.platform),
    {
        let dir = self.artifacts_dir();
        pathname::join(dir.as_str(), session_id, self.platform)
    }

    /// The directories that have to be there; neither the database nor the directory of
    /// a session is among them.
    pub fn ensure_dirs(&self) -> (r: Vec<String>)
        ensures
            r.deep_view() == seq![
                self.inside("logs"@),
                self.inside("playbooks"@),
                self.inside("skills"@),
                self.inside("prompts"@),
                self.inside("artifacts"@),
            ],
    {
        let mut out: Vec<String> = Vec::new();
        out.push(self.log_dir());
        out.push(self.playbooks_dir());
        out.push(self.skills_dir());
        out.push(self.prompts_dir());
        out.push(self.artifacts_dir());
        assert(out.deep_view() =~= seq![
            self.inside("logs"@),
            self.inside("playbooks"@),
            self.inside("skills"@),
            self.inside("prompts"@),
            self.inside("artifacts"@),
        ]);
        out
    }
}

} // verus!
