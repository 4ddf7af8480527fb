//! The analysis sections of a company profile and the list of their names.

use vstd::prelude::*;

verus! {

/// An analysis section: its name and the template of its query.
#[derive(Debug)]
pub struct SectionData {
    pub name: String,
    pub query_template: String,
}

/// The analysis sections of a company profile, in the order in which they
/// are offered.
#[derive(Debug)]
pub struct CompanyProfileAnalysis {
    pub sections: Vec<SectionData>,
}

/// The names of a list of sections, in the order of the list.
pub open spec fn names_of(sections: Seq<SectionData>) -> Seq<Seq<char>> {
    sections.map_values(|s: SectionData| s.name@)
}

/// The query templates of a list of sections, in the order of the list.
pub open spec fn templates_of(sections: Seq<SectionData>) -> Seq<Seq<char>> {
    sections.map_values(|s: SectionData| s.query_template@)
}

/// A list of strings, each by its characters.
pub open spec fn texts_of(names: Seq<String>) -> Seq<Seq<char>> {
    names.map_values(|s: String| s@)
}

impl CompanyProfileAnalysis {
    /// The analysis with its three sections: issuer overview, financial
    /// metrics and fundraising events.
    pub fn new() -> (analysis: Self)
        ensures
            names_of(analysis.sections@) == seq![
                "Issuer Overview"@,
                "Financial Metrics"@,
                "Fundraising Events"@,
            ],
            templates_of(analysis.sections@) == seq![
                "SELECT * FROM issuers WHERE id = {id}"@,
                "SELECT revenue, expenses FROM financials WHERE company_id = {id}"@,
                "SELECT * FROM offerings WHERE issuer_id = {id}"@,
            ],
    {
        let mut sections: Vec<SectionData> = Vec::new();
        sections.push(
            SectionData {
                name: "Issuer Overview".to_string(),
                query_template: "SELECT * FROM issuers WHERE id = {id}".to_string(),
            },
        );
        sections.push(
            SectionData {
                name: "Financial Metrics".to_string(),
                query_template: "SELECT revenue, expenses FROM financials WHERE company_id = {id}".to_string(),
            },
        );
        sections.push(
            SectionData {
                name: "Fundraising Events".to_string(),
                query_template: "SELECT * FROM offerings WHERE issuer_id = {id}".to_string(),
            },
        );
        assert(names_of(sections@) =~= seq![
            "Issuer Overview"@,
            "Financial Metrics"@,
            "Fundraising Events"@,
        ]);
        assert(templates_of(sections@) =~= seq![
            "SELECT * FROM issuers WHERE id = {id}"@,
            "SELECT revenue, expenses FROM financials WHERE company_id = {id}"@,
            "SELECT * FROM offerings WHERE issuer_id = {id}"@,
        ]);
        CompanyProfileAnalysis { sections }
    }

    /// The names of the sections, in their order.
    pub fn get_section_names(&self) -> (names: Vec<String>)
        ensures
            texts_of(names@) == names_of(self.sections@),
    {
        let mut names: Vec<String> = Vec::new();
        let mut i: usize = 0;
        while i < self.sections.len()
            invariant
                i <= self.sections.len(),
                names.len() == i,
                forall|k: int| 0 <= k < i ==> names@[k]@ == self.sections@[k].name@,
            decreases self.sections.len() - i,
        {
            names.push(self.sections[i].name.clone());
            i += 1;
        }
        assert(texts_of(names@) =~= names_of(self.sections@));
        names
    }
}

} // verus!
