use lichking::bundle::package_attribution;
use lichking::check::{check_packages, Verdict};
use lichking::discovery::{find_generic_license_text, find_license_text, Entry};
use lichking::license::License;
use lichking::list::group_by_license;
use lichking::options::By;
use lichking::package::{license_from_metadata, sort_packages, PackageInfo};
use lichking::scoring::Confidence;
use lichking::selection::{select, Diagnostic, Severity};
use lichking::templates::{TEMPLATE_APACHE_2_0, TEMPLATE_MIT};

fn entry(name: &str, content: Option<&str>) -> Entry {
    Entry {
        name: name.to_owned(),
        path: format!("/pkg/{}", name),
        content: content.map(|c| c.to_owned()),
    }
}

fn text(path: &str, confidence: Confidence) -> lichking::discovery::LicenseText {
    lichking::discovery::LicenseText {
        path: path.to_owned(),
        text: "body".to_owned(),
        confidence,
    }
}

#[test]
fn exact_mit_template_scores_confident() {
    assert_eq!(License::MIT.score(TEMPLATE_MIT), Confidence::Confident);
}

#[test]
fn every_known_template_scores_confident_against_itself() {
    for license in [
        License::Unlicense,
        License::MIT,
        License::Apache_2_0,
        License::BSD_3_Clause,
    ] {
        let template = license.template().expect("template known");
        assert_eq!(license.score(template), Confidence::Confident);
    }
}

#[test]
fn empty_text_scores_unsure() {
    assert_eq!(License::MIT.score(""), Confidence::Unsure);
}

#[test]
fn license_without_template_scores_unsure() {
    assert_eq!(License::GPL_3_0.score(TEMPLATE_MIT), Confidence::Unsure);
    assert_eq!(
        License::Custom("x".to_owned()).score(TEMPLATE_MIT),
        Confidence::Unsure
    );
}

#[test]
fn compound_scores_against_its_templated_members_only() {
    let pair = License::Multiple(vec![License::MIT, License::GPL_3_0]);
    assert_eq!(pair.score(TEMPLATE_MIT), Confidence::Confident);
}

#[test]
fn compound_with_no_templated_member_scores_unsure() {
    let pair = License::Multiple(vec![License::GPL_3_0, License::Custom("x".to_owned())]);
    assert_eq!(pair.score(TEMPLATE_MIT), Confidence::Unsure);
}

#[test]
fn compound_merges_every_templated_member() {
    let pair = License::Multiple(vec![License::MIT, License::Apache_2_0]);
    assert_eq!(pair.score(TEMPLATE_MIT), Confidence::Unsure);
}

#[test]
fn compound_skips_nested_compound_members() {
    let pair = License::Multiple(vec![
        License::Multiple(vec![License::GPL_3_0]),
        License::MIT,
    ]);
    assert_eq!(pair.score(TEMPLATE_MIT), Confidence::Confident);
}

#[test]
fn wrong_template_text_scores_unsure() {
    assert_eq!(License::MIT.score(TEMPLATE_APACHE_2_0), Confidence::Unsure);
}

#[test]
fn scoring_is_case_insensitive() {
    let lowered = TEMPLATE_MIT.to_lowercase();
    assert_eq!(License::MIT.score(&lowered), Confidence::Confident);
}

#[test]
fn scoring_counts_words_not_punctuation_or_layout() {
    let reshaped = TEMPLATE_MIT.replace(',', " ;\n").replace('\n', "  \n");
    assert_eq!(License::MIT.score(&reshaped), Confidence::Confident);
}

#[test]
fn generic_scan_takes_first_conventional_name() {
    let entries = vec![
        entry("README.md", Some("hello")),
        entry("license.md", Some(TEMPLATE_MIT)),
        entry("LICENSE", Some("other")),
    ];
    let found = find_generic_license_text(&entries, &License::MIT).unwrap();
    assert_eq!(found.path, "/pkg/license.md");
    assert_eq!(found.confidence, Confidence::Confident);
}

#[test]
fn generic_scan_skips_unreadable_entries() {
    let entries = vec![
        entry("LICENSE", None),
        entry("LICENCE", Some(TEMPLATE_MIT)),
    ];
    let found = find_generic_license_text(&entries, &License::MIT).unwrap();
    assert_eq!(found.path, "/pkg/LICENCE");
}

#[test]
fn generic_scan_finds_nothing_without_conventional_names() {
    let entries = vec![entry("COPYING", Some("text")), entry("src", None)];
    assert!(find_generic_license_text(&entries, &License::MIT).is_none());
}

#[test]
fn specific_scan_collects_all_matches_for_mit() {
    let entries = vec![
        entry("LICENSE-MIT", Some(TEMPLATE_MIT)),
        entry("mit", Some("stub")),
        entry("LICENSE-APACHE", Some(TEMPLATE_APACHE_2_0)),
    ];
    let found = find_license_text(&entries, &License::MIT);
    assert_eq!(found.len(), 2);
    assert_eq!(found[0].path, "/pkg/LICENSE-MIT");
    assert_eq!(found[0].confidence, Confidence::Confident);
    assert_eq!(found[1].path, "/pkg/mit");
    assert_eq!(found[1].confidence, Confidence::Unsure);
}

#[test]
fn specific_scan_for_apache_uses_customary_file_name() {
    let entries = vec![
        entry("LICENSE-APACHE", Some(TEMPLATE_APACHE_2_0)),
        entry("APACHE-2.0", Some(TEMPLATE_APACHE_2_0)),
    ];
    let found = find_license_text(&entries, &License::Apache_2_0);
    assert_eq!(found.len(), 1);
    assert_eq!(found[0].path, "/pkg/LICENSE-APACHE");
    assert_eq!(found[0].confidence, Confidence::Confident);
}

#[test]
fn specific_scan_matches_custom_license_names() {
    let entries = vec![
        entry("zlib", Some("permission text")),
        entry("LICENSE-ZLIB", Some("permission text")),
        entry("LICENSE-MIT", Some(TEMPLATE_MIT)),
    ];
    let found = find_license_text(&entries, &License::Custom("Zlib".to_owned()));
    assert_eq!(found.len(), 2);
    assert_eq!(found[0].path, "/pkg/zlib");
    assert_eq!(found[1].path, "/pkg/LICENSE-ZLIB");
    assert_eq!(found[0].confidence, Confidence::Unsure);
}

#[test]
fn discovery_is_idempotent_over_unchanged_entries() {
    let make = || {
        vec![
            entry("LICENSE", Some(TEMPLATE_MIT)),
            entry("LICENSE-MIT", Some(TEMPLATE_MIT)),
            entry("mit", Some("stub")),
        ]
    };
    let first_generic = find_generic_license_text(&make(), &License::MIT);
    let second_generic = find_generic_license_text(&make(), &License::MIT);
    match (&first_generic, &second_generic) {
        (Some(a), Some(b)) => {
            assert_eq!(a.path, b.path);
            assert_eq!(a.text, b.text);
            assert_eq!(a.confidence, b.confidence);
        }
        _ => panic!("generic scan changed between identical runs"),
    }
    let first = find_license_text(&make(), &License::MIT);
    let second = find_license_text(&make(), &License::MIT);
    assert_eq!(first.len(), second.len());
    for (a, b) in first.iter().zip(second.iter()) {
        assert_eq!(a.path, b.path);
        assert_eq!(a.text, b.text);
        assert_eq!(a.confidence, b.confidence);
    }
}

#[test]
fn selector_prefers_the_confident_candidate() {
    let sel = select(vec![
        text("/a/semi1", Confidence::SemiConfident),
        text("/a/conf", Confidence::Confident),
        text("/a/semi2", Confidence::SemiConfident),
    ]);
    assert_eq!(sel.selected.unwrap().path, "/a/conf");
    assert!(!sel.low_quality_license);
    assert!(!sel.missing_license);
    assert!(sel.diagnostics.is_empty());
}

#[test]
fn selector_reports_ambiguous_confident_candidates_without_flag() {
    let sel = select(vec![
        text("/a/c1", Confidence::Confident),
        text("/a/c2", Confidence::Confident),
    ]);
    assert_eq!(sel.selected.unwrap().path, "/a/c1");
    assert!(!sel.low_quality_license);
    assert!(!sel.missing_license);
    assert_eq!(sel.diagnostics.len(), 1);
    match &sel.diagnostics[0] {
        Diagnostic::MultipleCandidates(paths) => {
            assert_eq!(paths, &vec!["/a/c1".to_owned(), "/a/c2".to_owned()]);
        }
        other => panic!("unexpected diagnostic {:?}", other),
    }
    assert_eq!(sel.diagnostics[0].severity(), Severity::Error);
}

#[test]
fn selector_warns_on_single_semi_confident() {
    let sel = select(vec![text("/a/semi", Confidence::SemiConfident)]);
    assert_eq!(sel.selected.unwrap().path, "/a/semi");
    assert!(!sel.low_quality_license);
    assert!(matches!(
        sel.diagnostics[0],
        Diagnostic::LowConfidenceCandidate(_)
    ));
    assert_eq!(sel.diagnostics[0].severity(), Severity::Warning);
}

#[test]
fn selector_flags_ambiguous_semi_confident() {
    let sel = select(vec![
        text("/a/s1", Confidence::SemiConfident),
        text("/a/s2", Confidence::SemiConfident),
    ]);
    assert_eq!(sel.selected.unwrap().path, "/a/s1");
    assert!(sel.low_quality_license);
    assert!(!sel.missing_license);
    match &sel.diagnostics[0] {
        Diagnostic::MultipleLowConfidence(paths) => {
            assert_eq!(paths, &vec!["/a/s1".to_owned(), "/a/s2".to_owned()]);
        }
        other => panic!("unexpected diagnostic {:?}", other),
    }
}

#[test]
fn selector_flags_single_unsure() {
    let sel = select(vec![text("/a/u", Confidence::Unsure)]);
    assert_eq!(sel.selected.unwrap().path, "/a/u");
    assert!(sel.low_quality_license);
    assert!(!sel.missing_license);
}

#[test]
fn selector_takes_first_of_two_unsure_and_flags() {
    let sel = select(vec![
        text("/a/u1", Confidence::Unsure),
        text("/a/u2", Confidence::Unsure),
    ]);
    assert_eq!(sel.selected.unwrap().path, "/a/u1");
    assert!(sel.low_quality_license);
    assert!(!sel.missing_license);
    assert!(matches!(
        sel.diagnostics[0],
        Diagnostic::MultipleVeryLowConfidence(_)
    ));
}

#[test]
fn selector_with_no_candidates_sets_missing() {
    let sel = select(vec![]);
    assert!(sel.selected.is_none());
    assert!(sel.missing_license);
    assert!(!sel.low_quality_license);
    assert!(matches!(sel.diagnostics[0], Diagnostic::NoCandidates));
    assert_eq!(sel.diagnostics[0].severity(), Severity::Error);
}

#[test]
fn check_reports_each_verdict_and_counts_failures() {
    let deps = vec![
        PackageInfo { name: "a".to_owned(), license: License::GPL_3_0 },
        PackageInfo { name: "b".to_owned(), license: License::MIT },
        PackageInfo { name: "c".to_owned(), license: License::Custom("x".to_owned()) },
        PackageInfo { name: "d".to_owned(), license: License::Unspecified },
    ];
    let (verdicts, fails) = check_packages(&License::MIT, &deps);
    assert_eq!(
        verdicts,
        vec![
            Verdict::Incompatible,
            Verdict::Compatible,
            Verdict::Unknown,
            Verdict::Incompatible,
        ]
    );
    assert_eq!(fails, 2);
}

#[test]
fn check_passes_when_everything_is_compatible() {
    let deps = vec![
        PackageInfo { name: "a".to_owned(), license: License::MIT },
        PackageInfo { name: "b".to_owned(), license: License::Unlicense },
    ];
    let (verdicts, fails) = check_packages(&License::GPL_3_0, &deps);
    assert_eq!(verdicts, vec![Verdict::Compatible, Verdict::Compatible]);
    assert_eq!(fails, 0);
}

#[test]
fn license_from_metadata_prefers_the_expression() {
    assert_eq!(
        license_from_metadata(Some("MIT".to_owned()), Some("/p/COPYING".to_owned())),
        License::MIT
    );
    assert_eq!(
        license_from_metadata(None, Some("/p/COPYING".to_owned())),
        License::File("/p/COPYING".to_owned())
    );
    assert_eq!(license_from_metadata(None, None), License::Unspecified);
}

#[test]
fn packages_sort_by_name() {
    let packages = vec![
        PackageInfo { name: "beta".to_owned(), license: License::MIT },
        PackageInfo { name: "alpha".to_owned(), license: License::X11 },
        PackageInfo { name: "gamma".to_owned(), license: License::Unlicense },
    ];
    let sorted = sort_packages(packages);
    let names: Vec<&str> = sorted.iter().map(|p| p.name.as_str()).collect();
    assert_eq!(names, vec!["alpha", "beta", "gamma"]);
}

#[test]
fn attribution_uses_the_generic_file_when_present() {
    let entries = vec![entry("LICENSE", Some(TEMPLATE_MIT))];
    let attr = package_attribution(&entries, License::MIT);
    assert_eq!(attr.generic.as_ref().unwrap().path, "/pkg/LICENSE");
    assert!(attr.sections.is_empty());
    assert!(attr.diagnostics.is_empty());
    assert!(!attr.missing_license);
    assert!(!attr.low_quality_license);
}

#[test]
fn attribution_reports_a_poor_generic_match_as_an_error() {
    let entries = vec![entry("LICENSE", Some("not a license at all"))];
    let attr = package_attribution(&entries, License::MIT);
    assert_eq!(attr.generic.as_ref().unwrap().confidence, Confidence::Unsure);
    assert!(matches!(attr.diagnostics[0], Diagnostic::PoorGenericCandidate(_)));
    assert_eq!(attr.diagnostics[0].severity(), Severity::Error);
    assert!(!attr.low_quality_license);
}

#[test]
fn attribution_reports_an_unspecified_license() {
    let entries = vec![entry("src", None)];
    let attr = package_attribution(&entries, License::Unspecified);
    assert!(attr.generic.is_none());
    assert!(attr.sections.is_empty());
    assert!(matches!(attr.diagnostics[0], Diagnostic::NoLicenseSpecified));
    assert!(!attr.missing_license);
}

#[test]
fn attribution_sets_missing_when_no_candidate_exists() {
    let entries = vec![entry("README.md", Some("hi"))];
    let attr = package_attribution(&entries, License::MIT);
    assert!(attr.generic.is_none());
    assert_eq!(attr.sections.len(), 1);
    assert_eq!(attr.sections[0].license, License::MIT);
    assert!(attr.sections[0].text.is_none());
    assert!(attr.missing_license);
    assert!(matches!(attr.diagnostics[0], Diagnostic::NoCandidates));
}

#[test]
fn attribution_collects_a_section_per_member_license() {
    let entries = vec![
        entry("LICENSE-MIT", Some(TEMPLATE_MIT)),
        entry("LICENSE-APACHE", Some(TEMPLATE_APACHE_2_0)),
    ];
    let attr = package_attribution(
        &entries,
        License::Multiple(vec![License::MIT, License::Apache_2_0]),
    );
    assert!(attr.generic.is_none());
    assert_eq!(attr.sections.len(), 2);
    assert_eq!(attr.sections[0].license, License::MIT);
    assert_eq!(
        attr.sections[0].text.as_ref().unwrap().path,
        "/pkg/LICENSE-MIT"
    );
    assert_eq!(attr.sections[1].license, License::Apache_2_0);
    assert_eq!(
        attr.sections[1].text.as_ref().unwrap().path,
        "/pkg/LICENSE-APACHE"
    );
    assert!(attr.diagnostics.is_empty());
    assert!(!attr.missing_license);
    assert!(!attr.low_quality_license);
}

#[test]
fn grouping_collects_equal_licenses_into_one_group() {
    let packages = vec![
        PackageInfo { name: "a".to_owned(), license: License::MIT },
        PackageInfo { name: "b".to_owned(), license: License::Custom("Zlib".to_owned()) },
        PackageInfo { name: "c".to_owned(), license: License::MIT },
        PackageInfo {
            name: "d".to_owned(),
            license: License::Multiple(vec![License::MIT, License::Apache_2_0]),
        },
        PackageInfo {
            name: "e".to_owned(),
            license: License::Multiple(vec![License::MIT, License::Apache_2_0]),
        },
    ];
    let groups = group_by_license(packages);
    assert_eq!(groups.len(), 3);
    assert_eq!(groups[0].license, License::MIT);
    assert_eq!(groups[0].packages, vec!["a".to_owned(), "c".to_owned()]);
    assert_eq!(groups[1].license, License::Custom("Zlib".to_owned()));
    assert_eq!(groups[1].packages, vec!["b".to_owned()]);
    assert_eq!(
        groups[2].license,
        License::Multiple(vec![License::MIT, License::Apache_2_0])
    );
    assert_eq!(groups[2].packages, vec!["d".to_owned(), "e".to_owned()]);
}

#[test]
fn by_parses_its_two_names() {
    assert_eq!(By::from_name("license"), Some(By::License));
    assert_eq!(By::from_name("crate"), Some(By::Crate));
    assert_eq!(By::from_name("package"), None);
    assert_eq!(By::from_name(""), None);
}
