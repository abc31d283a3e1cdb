use sleppa::{ReleaseAction, Tag, VersionerError, VersionerPlugin};

// Tests the conversion of a string tag into a [Tag] structure
#[test]
fn test_can_try_into() {
    let good_tag = "v3.2.1";
    let bad_tag = "v3.1";

    let tag_as_tagstruct: Tag = Tag::try_from(good_tag).unwrap();

    assert_eq!(
        tag_as_tagstruct,
        Tag {
            major: 3,
            minor: 2,
            patch: 1
        }
    );

    assert!(Tag::try_from(bad_tag).is_err());
}

// Tests the conversion from Tag to String
#[test]
fn test_can_into_string() {
    let tag = Tag {
        major: 3,
        minor: 2,
        patch: 1,
    };

    let tag_string: String = tag.into();

    assert_eq!(tag_string, "v3.2.1");
}

// Tests a Tag's incrementation from a release action type
#[test]
fn test_can_increment() {
    let tag = Tag {
        major: 3,
        minor: 2,
        patch: 1,
    };

    let new_tag_major = tag.increment(&ReleaseAction::Major);
    let new_tag_minor = tag.increment(&ReleaseAction::Minor);
    let new_tag_patch = tag.increment(&ReleaseAction::Patch);

    assert_eq!(
        new_tag_major,
        Tag {
            major: 4,
            minor: 0,
            patch: 0,
        }
    );

    assert_eq!(
        new_tag_minor,
        Tag {
            major: 3,
            minor: 3,
            patch: 0,
        }
    );

    assert_eq!(
        new_tag_patch,
        Tag {
            major: 3,
            minor: 2,
            patch: 2,
        }
    );
}

#[test]
fn minor_release_of_previous_tag() {
    let previous = Tag::parse("v3.2.1").unwrap();
    let plugin = VersionerPlugin { release_action: ReleaseAction::Minor };
    assert_eq!(plugin.run(previous).render(), "v3.3.0");
}

#[test]
fn major_release_of_previous_tag() {
    let previous = Tag::parse("v3.2.1").unwrap();
    let plugin = VersionerPlugin { release_action: ReleaseAction::Major };
    assert_eq!(plugin.run(previous).render(), "v4.0.0");
}

#[test]
fn patch_release_of_previous_tag() {
    let previous = Tag::parse("v3.2.1").unwrap();
    let plugin = VersionerPlugin { release_action: ReleaseAction::Patch };
    assert_eq!(plugin.run(previous).render(), "v3.2.2");
}

#[test]
fn parse_rejects_missing_patch_and_accepts_full_tag() {
    assert!(matches!(Tag::parse("v3.1"), Err(VersionerError::ErrorNoMatch(_))));
    assert_eq!(Tag::parse("v3.2.1").unwrap(), Tag { major: 3, minor: 2, patch: 1 });
}

#[test]
fn parse_rejects_other_shapes() {
    for text in [
        "", "v", "3.2.1", "v3.2.1 ", " v3.2.1", "v3.2.1.0", "v3..1", "v.2.1", "v3.2.", "v3-2-1",
        "V3.2.1", "v3.2.1-rc1", "v3.2.a",
    ] {
        assert!(
            matches!(Tag::parse(text), Err(VersionerError::ErrorNoMatch(_))),
            "{text}"
        );
    }
}

#[test]
fn parse_reports_numbers_beyond_u64() {
    assert!(matches!(
        Tag::parse("v18446744073709551616.0.0"),
        Err(VersionerError::ParsingError(_))
    ));
    assert!(matches!(
        Tag::parse("v0.0.99999999999999999999"),
        Err(VersionerError::ParsingError(_))
    ));
    assert_eq!(
        Tag::parse("v18446744073709551615.0.7").unwrap(),
        Tag { major: u64::MAX, minor: 0, patch: 7 }
    );
}

#[test]
fn shape_is_checked_before_numbers() {
    assert!(matches!(
        Tag::parse("v99999999999999999999.1"),
        Err(VersionerError::ErrorNoMatch(_))
    ));
}

#[test]
fn leading_zeros_are_read_but_not_written() {
    let tag = Tag::parse("v03.002.1").unwrap();
    assert_eq!(tag, Tag { major: 3, minor: 2, patch: 1 });
    assert_eq!(tag.render(), "v3.2.1");
}

#[test]
fn render_of_parse_is_identity_on_canonical_tags() {
    for text in ["v0.0.0", "v3.2.1", "v10.20.30", "v1.0.109", "v18446744073709551615.18446744073709551615.0"] {
        assert_eq!(Tag::parse(text).unwrap().render(), text);
    }
}

#[test]
fn increments_increase_the_tag() {
    let tags = [
        Tag { major: 0, minor: 0, patch: 0 },
        Tag { major: 3, minor: 2, patch: 1 },
        Tag { major: 1, minor: 7, patch: 9 },
    ];
    for tag in tags {
        let before = (tag.major, tag.minor, tag.patch);
        for level in [ReleaseAction::Major, ReleaseAction::Minor, ReleaseAction::Patch] {
            let next = tag.increment(&level);
            assert!((next.major, next.minor, next.patch) > before);
        }
        let major = tag.increment(&ReleaseAction::Major);
        assert_eq!((major.minor, major.patch), (0, 0));
        let minor = tag.increment(&ReleaseAction::Minor);
        assert_eq!(minor.patch, 0);
    }
}

#[test]
fn increments_can_be_repeated() {
    let mut tag = Tag::parse("v0.0.0").unwrap();
    for level in [ReleaseAction::Patch, ReleaseAction::Patch, ReleaseAction::Minor, ReleaseAction::Patch, ReleaseAction::Major, ReleaseAction::Minor] {
        tag = tag.increment(&level);
    }
    assert_eq!(String::from(tag), "v1.1.0");
}
