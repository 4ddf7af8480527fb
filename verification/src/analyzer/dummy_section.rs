//! A sample analysis section with fixed texts.

use vstd::prelude::*;

verus! {

/// An analysis section: its name, the template of its query and the
/// prompts for a short and a longer summary.
#[derive(Debug)]
pub struct SectionData {
    pub name: String,
    pub query_template: String,
    pub prompt_small: String,
    pub prompt_medium: String,
}

/// The sample section.
pub fn create_dummy_section() -> (section: SectionData)
    ensures
        section.name@ == "Dummy Analysis"@,
        section.query_template@ == "SELECT 'Hello Intern!' AS message;"@,
        section.prompt_small@ == "Summarize result in one line."@,
        section.prompt_medium@ == "Summarize result in three sentences."@,
{
    SectionData {
        name: "Dummy Analysis".to_string(),
        query_template: "SELECT 'Hello Intern!' AS message;".to_string(),
        prompt_small: "Summarize result in one line.".to_string(),
        prompt_medium: "Summarize result in three sentences.".to_string(),
    }
}

} // verus!
