//! What earlier diagnoses have taught.

use vstd::prelude::*;

verus! {

/// How a diagnosis turned out.
#[derive(Clone, Copy, Debug, PartialEq, Eq, Structural)]
pub enum Outcome {
    Positive,
    Negative,
    Uncertain,
}

/// What one diagnosis has taught.
#[derive(Clone, Debug)]
pub struct Experience {
    pub id: String,
    pub symptom: String,
    pub service: String,
    pub language: String,
    pub root_cause: Option<String>,
    pub investigation_path: String,
    pub experience_lesson: String,
    pub outcome: Outcome,
    pub occurrence_count: i64,
    pub last_seen_at: String,
    pub created_at: String,
    pub query_text: String,
}

/// What an experience tells an agent.
#[verifier::ext_equal]
pub struct ExperienceModel {
    pub symptom: Seq<char>,
    pub service: Seq<char>,
    pub root_cause: Option<Seq<char>>,
    pub investigation_path: Seq<char>,
    pub experience_lesson: Seq<char>,
    pub outcome: Outcome,
}

impl View for Experience {
    type V = ExperienceModel;

    open spec fn view(&self) -> ExperienceModel {
        ExperienceModel {
            symptom: self.symptom@,
            service: self.service@,
            root_cause: self.root_cause.deep_view(),
            investigation_path: self.investigation_path@,
            experience_lesson: self.experience_lesson@,
            outcome: self.outcome,
        }
    }
}

} // verus!
