//! A builder that collects the parts of an analysis section and checks
//! that none is missing.

use vstd::hash_map::StringHashMap;
use vstd::prelude::*;

verus! {

/// An analysis section: its name, the template of its query and its
/// prompt templates, each under the name of a size.
pub struct SectionData {
    pub name: String,
    pub query_template: String,
    pub prompt_templates: StringHashMap<String>,
}

/// A text that may be absent, by its characters.
pub open spec fn text_of(s: Option<String>) -> Option<Seq<char>> {
    match s {
        Some(t) => Some(t@),
        None => None,
    }
}

/// Prompt templates by the name of their size, each by its characters.
pub open spec fn prompts_of(prompts: StringHashMap<String>) -> Map<Seq<char>, Seq<char>> {
    prompts@.map_values(|t: String| t@)
}

/// What a builder holds, by its characters.
pub struct BuilderView {
    pub name: Option<Seq<char>>,
    pub query_template: Option<Seq<char>>,
    pub prompt_templates: Map<Seq<char>, Seq<char>>,
}

/// What building gives for what a builder holds: the section's name,
/// query template and prompt templates, or the message that says what is
/// missing. A missing query template is reported first.
pub open spec fn built(b: BuilderView) -> Result<
    (Seq<char>, Seq<char>, Map<Seq<char>, Seq<char>>),
    Seq<char>,
> {
    if b.query_template is None {
        Err("Missing SQL query template"@)
    } else if b.prompt_templates.is_empty() {
        Err("At least one prompt template is required"@)
    } else {
        Ok(
            (
                match b.name {
                    Some(n) => n,
                    None => "Unnamed"@,
                },
                b.query_template->0,
                b.prompt_templates,
            ),
        )
    }
}

/// Collects the parts of a section step by step.
pub struct DummySectionBuilder {
    name: Option<String>,
    query_template: Option<String>,
    prompt_templates: StringHashMap<String>,
}

impl View for DummySectionBuilder {
    type V = BuilderView;

    closed spec fn view(&self) -> BuilderView {
        BuilderView {
            name: text_of(self.name),
            query_template: text_of(self.query_template),
            prompt_templates: prompts_of(self.prompt_templates),
        }
    }
}

impl DummySectionBuilder {
    /// A builder for a section named "Dummy", with no query template and
    /// no prompt template yet.
    pub fn new() -> (builder: Self)
        ensures
            builder@ == (BuilderView {
                name: Some("Dummy"@),
                query_template: None,
                prompt_templates: Map::empty(),
            }),
    {
        let builder = DummySectionBuilder {
            name: Some("Dummy".to_string()),
            query_template: None,
            prompt_templates: StringHashMap::new(),
        };
        assert(builder@.prompt_templates =~= Map::empty());
        builder
    }

    /// Sets the query template, in place of one set before.
    pub fn query(self, sql: &str) -> (builder: Self)
        ensures
            builder@ == (BuilderView { query_template: Some(sql@), ..self@ }),
    {
        let mut builder = self;
        builder.query_template = Some(sql.to_string());
        builder
    }

    /// Sets the prompt template for a size, in place of one set for that
    /// size before.
    pub fn prompt(self, size: &str, template: &str) -> (builder: Self)
        ensures
            builder@ == (BuilderView {
                prompt_templates: self@.prompt_templates.insert(size@, template@),
                ..self@
            }),
    {
        let mut builder = self;
        builder.prompt_templates.insert(size.to_string(), template.to_string());
        assert(builder@.prompt_templates =~= self@.prompt_templates.insert(size@, template@));
        builder
    }

    /// The section, or the message that says what is missing: the query
    /// template, or else a prompt template.
    pub fn build(self) -> (r: Result<SectionData, String>)
        ensures
            match r {
                Ok(section) => built(self@) == Ok::<
                    (Seq<char>, Seq<char>, Map<Seq<char>, Seq<char>>),
                    Seq<char>,
                >(
                    (
                        section.name@,
                        section.query_template@,
                        prompts_of(section.prompt_templates),
                    ),
                ),
                Err(message) => built(self@) == Err::<
                    (Seq<char>, Seq<char>, Map<Seq<char>, Seq<char>>),
                    Seq<char>,
                >(message@),
            },
    {
        let name = match self.name {
            Some(n) => n,
            None => "Unnamed".to_string(),
        };
        let query_template = match self.query_template {
            Some(q) => q,
            None => {
                return Err("Missing SQL query template".to_string());
            },
        };
        proof {
            let raw = self.prompt_templates@;
            let shown = prompts_of(self.prompt_templates);
            assert(shown.dom() =~= raw.dom());
        }
        if self.prompt_templates.is_empty() {
            return Err("At least one prompt template is required".to_string());
        }
        Ok(SectionData { name, query_template, prompt_templates: self.prompt_templates })
    }
}

} // verus!
