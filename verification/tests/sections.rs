use backend::analyzer::dummy_section::create_dummy_section;
use backend::analyzer::dummy_section_builder::DummySectionBuilder;
use backend::analyzer::section_discovery::CompanyProfileAnalysis;

#[test]
fn dummy_section_has_sample_texts() {
    let section = create_dummy_section();
    assert_eq!(section.name, "Dummy Analysis");
    assert_eq!(section.query_template, "SELECT 'Hello Intern!' AS message;");
    assert_eq!(section.prompt_small, "Summarize result in one line.");
    assert_eq!(section.prompt_medium, "Summarize result in three sentences.");
}

#[test]
fn builder_builds_section() {
    let result = DummySectionBuilder::new()
        .query("SELECT 'Hello Intern!' as message;")
        .prompt("Small", "Give a short explanation of the output.")
        .prompt("Medium", "Give a more detailed interpretation of the result.")
        .build();
    let section = match result {
        Ok(s) => s,
        Err(e) => panic!("unexpected error: {}", e),
    };
    assert_eq!(section.name, "Dummy");
    assert_eq!(section.query_template, "SELECT 'Hello Intern!' as message;");
    assert_eq!(section.prompt_templates.len(), 2);
    assert_eq!(
        section.prompt_templates.get("Small"),
        Some(&"Give a short explanation of the output.".to_string())
    );
    assert_eq!(
        section.prompt_templates.get("Medium"),
        Some(&"Give a more detailed interpretation of the result.".to_string())
    );
    assert_eq!(section.prompt_templates.get("Large"), None);
}

#[test]
fn builder_without_query_fails() {
    let result = DummySectionBuilder::new().prompt("Small", "p").build();
    match result {
        Ok(_) => panic!("a section without a query template was built"),
        Err(e) => assert_eq!(e, "Missing SQL query template"),
    }
}

#[test]
fn builder_without_prompt_fails() {
    let result = DummySectionBuilder::new().query("SELECT 1").build();
    match result {
        Ok(_) => panic!("a section without a prompt template was built"),
        Err(e) => assert_eq!(e, "At least one prompt template is required"),
    }
}

#[test]
fn builder_with_nothing_reports_query_first() {
    match DummySectionBuilder::new().build() {
        Ok(_) => panic!("an empty section was built"),
        Err(e) => assert_eq!(e, "Missing SQL query template"),
    }
}

#[test]
fn builder_keeps_last_query_and_last_prompt_of_a_size() {
    let result = DummySectionBuilder::new()
        .query("SELECT 1")
        .query("SELECT 2")
        .prompt("Small", "first")
        .prompt("Small", "second")
        .build();
    let section = match result {
        Ok(s) => s,
        Err(e) => panic!("unexpected error: {}", e),
    };
    assert_eq!(section.query_template, "SELECT 2");
    assert_eq!(section.prompt_templates.len(), 1);
    assert_eq!(section.prompt_templates.get("Small"), Some(&"second".to_string()));
}

#[test]
fn analysis_lists_three_sections() {
    let analysis = CompanyProfileAnalysis::new();
    assert_eq!(
        analysis.get_section_names(),
        vec![
            "Issuer Overview".to_string(),
            "Financial Metrics".to_string(),
            "Fundraising Events".to_string()
        ]
    );
    assert_eq!(analysis.sections[0].query_template, "SELECT * FROM issuers WHERE id = {id}");
    assert_eq!(
        analysis.sections[1].query_template,
        "SELECT revenue, expenses FROM financials WHERE company_id = {id}"
    );
    assert_eq!(
        analysis.sections[2].query_template,
        "SELECT * FROM offerings WHERE issuer_id = {id}"
    );
}

#[test]
fn section_names_follow_the_sections() {
    let mut analysis = CompanyProfileAnalysis::new();
    analysis.sections.pop();
    assert_eq!(
        analysis.get_section_names(),
        vec!["Issuer Overview".to_string(), "Financial Metrics".to_string()]
    );
    analysis.sections.clear();
    assert!(analysis.get_section_names().is_empty());
}
