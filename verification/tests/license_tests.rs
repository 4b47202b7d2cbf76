use lichking::license::License;

#[test]
fn parse_recognizes_all_canonical_tokens() {
    assert_eq!(License::parse("Unlicense"), License::Unlicense);
    assert_eq!(License::parse("MIT"), License::MIT);
    assert_eq!(License::parse("X11"), License::X11);
    assert_eq!(License::parse("BSD-2-Clause"), License::BSD_2_Clause);
    assert_eq!(License::parse("BSD-3-Clause"), License::BSD_3_Clause);
    assert_eq!(License::parse("Apache-2.0"), License::Apache_2_0);
    assert_eq!(License::parse("LGPL-2.0-only"), License::LGPL_2_0);
    assert_eq!(License::parse("LGPL-2.1-only"), License::LGPL_2_1);
    assert_eq!(License::parse("LGPL-2.1-or-later"), License::LGPL_2_1Plus);
    assert_eq!(License::parse("LGPL-3.0-only"), License::LGPL_3_0);
    assert_eq!(License::parse("LGPL-3.0-or-later"), License::LGPL_3_0Plus);
    assert_eq!(License::parse("MPL-1.1"), License::MPL_1_1);
    assert_eq!(License::parse("MPL-2.0"), License::MPL_2_0);
    assert_eq!(License::parse("GPL-2.0-only"), License::GPL_2_0);
    assert_eq!(License::parse("GPL-2.0-or-later"), License::GPL_2_0Plus);
    assert_eq!(License::parse("GPL-3.0-only"), License::GPL_3_0);
    assert_eq!(License::parse("GPL-3.0-or-later"), License::GPL_3_0Plus);
    assert_eq!(License::parse("AGPL-3.0-only"), License::AGPL_3_0);
    assert_eq!(License::parse("AGPL-3.0-or-later"), License::AGPL_3_0Plus);
}

#[test]
fn parse_recognizes_alias_spellings() {
    assert_eq!(License::parse("LGPL-2.0"), License::LGPL_2_0);
    assert_eq!(License::parse("LGPL-2.1"), License::LGPL_2_1);
    assert_eq!(License::parse("LGPL-2.1+"), License::LGPL_2_1Plus);
    assert_eq!(License::parse("LGPL-3.0"), License::LGPL_3_0);
    assert_eq!(License::parse("LGPL-3.0+"), License::LGPL_3_0Plus);
    assert_eq!(License::parse("GPL-2.0"), License::GPL_2_0);
    assert_eq!(License::parse("GPL-2.0+"), License::GPL_2_0Plus);
    assert_eq!(License::parse("GPL-3.0"), License::GPL_3_0);
    assert_eq!(License::parse("GPL-3.0+"), License::GPL_3_0Plus);
    assert_eq!(License::parse("AGPL-3.0"), License::AGPL_3_0);
    assert_eq!(License::parse("AGPL-3.0+"), License::AGPL_3_0Plus);
}

#[test]
fn parse_trims_whitespace() {
    assert_eq!(License::parse("  MIT  "), License::MIT);
    assert_eq!(License::parse("\tApache-2.0\n"), License::Apache_2_0);
}

#[test]
fn parse_falls_back_to_custom() {
    assert_eq!(License::parse("QPL-1.0"), License::Custom("QPL-1.0".to_owned()));
    assert_eq!(License::parse(""), License::Custom("".to_owned()));
    assert_eq!(License::parse("mit"), License::Custom("mit".to_owned()));
}

#[test]
fn parse_splits_on_slash() {
    assert_eq!(
        License::parse("MIT/Apache-2.0"),
        License::Multiple(vec![License::MIT, License::Apache_2_0])
    );
}

#[test]
fn parse_splits_on_or() {
    assert_eq!(
        License::parse("MIT OR Apache-2.0"),
        License::Multiple(vec![License::MIT, License::Apache_2_0])
    );
}

#[test]
fn parse_sorts_members_canonically() {
    assert_eq!(
        License::parse("Apache-2.0/MIT"),
        License::Multiple(vec![License::MIT, License::Apache_2_0])
    );
    assert_eq!(License::parse("Apache-2.0/MIT"), License::parse("MIT OR Apache-2.0"));
}

#[test]
fn parse_keeps_duplicate_members() {
    assert_eq!(
        License::parse("MIT/MIT"),
        License::Multiple(vec![License::MIT, License::MIT])
    );
}

#[test]
fn parse_takes_or_separators_leftmost_without_overlap() {
    assert_eq!(
        License::parse("X OR OR Y"),
        License::Multiple(vec![
            License::Custom("OR Y".to_owned()),
            License::Custom("X".to_owned()),
        ])
    );
}

#[test]
fn parse_bare_separator_yields_empty_custom_terms() {
    assert_eq!(
        License::parse("/"),
        License::Multiple(vec![
            License::Custom("".to_owned()),
            License::Custom("".to_owned()),
        ])
    );
}

#[test]
fn parse_whitespace_only_is_an_empty_custom() {
    assert_eq!(License::parse("   "), License::Custom("".to_owned()));
}

#[test]
fn parse_mixed_separators_and_customs() {
    assert_eq!(
        License::parse("Zlib/MIT OR Apache-2.0"),
        License::Multiple(vec![
            License::MIT,
            License::Apache_2_0,
            License::Custom("Zlib".to_owned()),
        ])
    );
}

#[test]
fn display_renders_canonical_strings() {
    assert_eq!(License::MIT.display_string(), "MIT");
    assert_eq!(License::LGPL_2_0.display_string(), "LGPL-2.0-only");
    assert_eq!(License::GPL_3_0Plus.display_string(), "GPL-3.0-or-later");
    assert_eq!(License::Custom("QPL-1.0".to_owned()).display_string(), "QPL-1.0");
    assert_eq!(
        License::File("/tmp/x".to_owned()).display_string(),
        "License specified in file (/tmp/x)"
    );
    assert_eq!(License::Unspecified.display_string(), "No license specified");
    assert_eq!(
        License::Multiple(vec![License::MIT, License::Apache_2_0]).display_string(),
        "MIT / Apache-2.0"
    );
}

#[test]
fn round_trip_canonical_and_alias_spellings() {
    let tokens = [
        "Unlicense", "MIT", "X11", "BSD-2-Clause", "BSD-3-Clause", "Apache-2.0",
        "LGPL-2.0-only", "LGPL-2.0", "LGPL-2.1-only", "LGPL-2.1", "LGPL-2.1-or-later",
        "LGPL-2.1+", "LGPL-3.0-only", "LGPL-3.0", "LGPL-3.0-or-later", "LGPL-3.0+", "MPL-1.1",
        "MPL-2.0", "GPL-2.0-only", "GPL-2.0", "GPL-2.0-or-later", "GPL-2.0+", "GPL-3.0-only",
        "GPL-3.0", "GPL-3.0-or-later", "GPL-3.0+", "AGPL-3.0-only", "AGPL-3.0",
        "AGPL-3.0-or-later", "AGPL-3.0+",
    ];
    for token in tokens {
        let parsed = License::parse(token);
        let rendered = parsed.display_string();
        assert_eq!(License::parse(&rendered), parsed);
    }
    assert_eq!(
        License::parse("GPL-2.0").display_string(),
        License::parse("GPL-2.0-only").display_string()
    );
}

#[test]
fn nothing_can_include_an_unspecified_dependency() {
    let named = [
        License::Unlicense,
        License::MIT,
        License::X11,
        License::BSD_2_Clause,
        License::BSD_3_Clause,
        License::Apache_2_0,
        License::LGPL_2_0,
        License::LGPL_2_1,
        License::LGPL_2_1Plus,
        License::LGPL_3_0,
        License::LGPL_3_0Plus,
        License::MPL_1_1,
        License::MPL_2_0,
        License::GPL_2_0,
        License::GPL_2_0Plus,
        License::GPL_3_0,
        License::GPL_3_0Plus,
        License::AGPL_3_0,
        License::AGPL_3_0Plus,
    ];
    for l in named {
        assert_eq!(l.can_include(&License::Unspecified), Some(false));
    }
    let custom = License::Custom("x".to_owned());
    assert_eq!(custom.can_include(&License::Unspecified), Some(false));
}

#[test]
fn custom_licenses_are_undecidable() {
    let custom = License::Custom("x".to_owned());
    assert_eq!(custom.can_include(&License::MIT), None);
    assert_eq!(License::MIT.can_include(&custom), None);
    assert_eq!(License::GPL_3_0.can_include(&custom), None);
    assert_eq!(custom.can_include(&License::Custom("y".to_owned())), None);
}

#[test]
fn file_licenses_are_undecidable() {
    let file = License::File("/tmp/l".to_owned());
    assert_eq!(file.can_include(&License::MIT), None);
    assert_eq!(License::MIT.can_include(&file), None);
}

#[test]
fn compound_includer_requires_every_member_to_accept() {
    // GPL-3.0 alone may include an Apache-2.0 dependency, but MIT
    // may not, so the pair as a whole may not.
    assert_eq!(License::GPL_3_0.can_include(&License::Apache_2_0), Some(true));
    assert_eq!(License::MIT.can_include(&License::Apache_2_0), Some(false));
    let pair = License::Multiple(vec![License::MIT, License::GPL_3_0]);
    assert_eq!(pair.can_include(&License::Apache_2_0), Some(false));
}

#[test]
fn compound_includer_with_undecidable_member_is_undecidable() {
    let pair = License::Multiple(vec![License::Custom("x".to_owned())]);
    assert_eq!(pair.can_include(&License::MIT), None);
}

#[test]
fn compound_dependency_usable_under_any_member() {
    assert_eq!(License::MIT.can_include(&License::GPL_3_0), Some(false));
    assert_eq!(
        License::MIT.can_include(&License::Multiple(vec![License::GPL_3_0, License::MIT])),
        Some(true)
    );
}

#[test]
fn compound_dependency_none_acceptable() {
    assert_eq!(
        License::MIT.can_include(&License::Multiple(vec![
            License::GPL_3_0,
            License::AGPL_3_0,
        ])),
        Some(false)
    );
    assert_eq!(
        License::MIT.can_include(&License::Multiple(vec![
            License::GPL_3_0,
            License::Custom("x".to_owned()),
        ])),
        None
    );
}

#[test]
fn lgpl_2_0_is_unmodeled() {
    assert_eq!(License::LGPL_2_0.can_include(&License::MIT), None);
    assert_eq!(License::GPL_3_0.can_include(&License::LGPL_2_0), None);
}

#[test]
fn permissive_licenses_are_includable_by_everything() {
    let permissive = [
        License::Unlicense,
        License::MIT,
        License::X11,
        License::BSD_2_Clause,
        License::BSD_3_Clause,
    ];
    for root in &permissive {
        for dep in &permissive {
            assert_eq!(root.can_include(dep), Some(true));
        }
    }
}

#[test]
fn table_spot_checks() {
    assert_eq!(License::GPL_2_0.can_include(&License::MIT), Some(true));
    assert_eq!(License::GPL_2_0.can_include(&License::Apache_2_0), Some(false));
    assert_eq!(License::GPL_3_0.can_include(&License::GPL_3_0Plus), Some(true));
    assert_eq!(License::GPL_3_0Plus.can_include(&License::GPL_3_0), Some(false));
    assert_eq!(License::Unspecified.can_include(&License::MIT), Some(true));
    assert_eq!(License::Unspecified.can_include(&License::GPL_3_0), Some(false));
    assert_eq!(License::MIT.can_include(&License::MIT), Some(true));
    assert_eq!(License::Apache_2_0.can_include(&License::BSD_3_Clause), Some(true));
    assert_eq!(License::BSD_3_Clause.can_include(&License::Apache_2_0), Some(false));
    assert_eq!(License::AGPL_3_0.can_include(&License::GPL_3_0), Some(true));
    assert_eq!(License::GPL_3_0.can_include(&License::AGPL_3_0), Some(false));
}

#[test]
fn default_is_unspecified() {
    assert_eq!(License::default(), License::Unspecified);
}

#[test]
fn templates_exist_for_exactly_four_licenses() {
    assert!(License::Unlicense.template().is_some());
    assert!(License::MIT.template().is_some());
    assert!(License::Apache_2_0.template().is_some());
    assert!(License::BSD_3_Clause.template().is_some());
    assert!(License::GPL_3_0.template().is_none());
    assert!(License::BSD_2_Clause.template().is_none());
    assert!(License::X11.template().is_none());
    assert!(License::Custom("x".to_owned()).template().is_none());
    assert!(License::Unspecified.template().is_none());
}
