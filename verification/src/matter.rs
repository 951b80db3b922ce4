//! Client matters: the statement that saving a matter performs.
use vstd::prelude::*;
use crate::classifier::keyword_views;
use crate::summary::MatterInput;

verus! {

/// The JSON text that `serde_json::to_string` produces for a list of strings.
pub uninterp spec fn json_string_array(items: Seq<Seq<char>>) -> Seq<char>;

/// Calls `serde_json::to_string` on the keyword list; the text is the one
/// named `json_string_array`. serde_json documents that serialization fails
/// only when a `Serialize` implementation decides to fail or a map has
/// non-string keys; a list of strings has neither, so the call succeeds
/// (its error branch, converted to the error's `to_string`, is not taken).
#[verifier::external_body]
fn keywords_to_json(keywords: &Vec<String>) -> (r: Result<String, String>)
    ensures
        r is Ok,
        r matches Ok(t) ==> t@ == json_string_array(keyword_views(keywords@)),
{
    match serde_json::to_string(keywords) {
        Ok(t) => Ok(t),
        Err(e) => Err(e.to_string()),
    }
}

/// The statement that saves a matter: an update of the row `id`, or an
/// insert of a new row; the keywords are stored as JSON text.
#[derive(Debug)]
pub enum MatterWrite {
    Update { id: i64, code: String, client_name: String, keywords_json: String, rate_cents: i64 },
    Insert { code: String, client_name: String, keywords_json: String, rate_cents: i64 },
}

/// The write for `matter` with its keywords already encoded as
/// `keywords_json`: an update when it has an id, an insert otherwise.
pub open spec fn write_for(matter: MatterInput, keywords_json: String) -> MatterWrite {
    match matter.id {
        Some(id) => MatterWrite::Update {
            id,
            code: matter.code,
            client_name: matter.client_name,
            keywords_json,
            rate_cents: matter.rate_cents,
        },
        None => MatterWrite::Insert {
            code: matter.code,
            client_name: matter.client_name,
            keywords_json,
            rate_cents: matter.rate_cents,
        },
    }
}

/// Saving a matter carries its fields unchanged: a matter with an id is an
/// update of that id, one without is an insert, and both hold the matter's
/// code, client name and rate and the given keyword JSON.
pub proof fn lemma_write_keeps_fields(matter: MatterInput, keywords_json: String)
    ensures
        match write_for(matter, keywords_json) {
            MatterWrite::Update { id, code, client_name, keywords_json: j, rate_cents } => {
                &&& matter.id == Some(id)
                &&& code == matter.code
                &&& client_name == matter.client_name
                &&& j == keywords_json
                &&& rate_cents == matter.rate_cents
            },
            MatterWrite::Insert { code, client_name, keywords_json: j, rate_cents } => {
                &&& matter.id is None
                &&& code == matter.code
                &&& client_name == matter.client_name
                &&& j == keywords_json
                &&& rate_cents == matter.rate_cents
            },
        },
{
}

impl MatterWrite {
    /// The write for `matter` given the JSON text of its keywords.
    pub fn with_keywords_json(matter: MatterInput, keywords_json: String) -> (r: Self)
        ensures
            r == write_for(matter, keywords_json),
    {
        match matter.id {
            Some(id) => MatterWrite::Update {
                id,
                code: matter.code,
                client_name: matter.client_name,
                keywords_json,
                rate_cents: matter.rate_cents,
            },
            None => MatterWrite::Insert {
                code: matter.code,
                client_name: matter.client_name,
                keywords_json,
                rate_cents: matter.rate_cents,
            },
        }
    }

    /// The write for `matter`, encoding its keywords as JSON; encoding a list
    /// of strings always succeeds.
    pub fn for_matter(matter: MatterInput) -> (r: Result<Self, String>)
        ensures
            r is Ok,
            r matches Ok(w) ==> exists|j: String|
                j@ == json_string_array(keyword_views(matter.keywords@)) && w == write_for(matter, j),
    {
        match keywords_to_json(&matter.keywords) {
            Ok(j) => Ok(Self::with_keywords_json(matter, j)),
            Err(e) => Err(e),
        }
    }

    /// The id that saving reports: the updated row's id, or the id of the
    /// row just inserted (`last_insert_rowid`).
    pub fn saved_id(&self, last_insert_rowid: i64) -> (r: i64)
        ensures
            r == (match *self {
                MatterWrite::Update { id, .. } => id,
                MatterWrite::Insert { .. } => last_insert_rowid,
            }),
    {
        match self {
            MatterWrite::Update { id, .. } => *id,
            MatterWrite::Insert { .. } => last_insert_rowid,
        }
    }
}

} // verus!
