use sleppa::{GithubRepository, RepositoryError};

// Tests to retrieve a pull request number's from it's name.
#[test]
fn test_can_get_pull_request_number_from_its_name() {
    let correct_pr_name = "Issue to solve (#2)";

    // An incorrect space
    let incorrect_space = "Issue to solve (# 3)";
    // No parenthesis
    let incorrect_no_parenthesis = "Issue to solve #3";
    // No hashtag
    let incorrect_no_hashtag = "Issue to solve (5)";

    assert_eq!(
        GithubRepository::get_pull_request_number_from_its_name(correct_pr_name).unwrap(),
        2u64
    );
    assert!(GithubRepository::get_pull_request_number_from_its_name(incorrect_space).is_err());
    assert!(GithubRepository::get_pull_request_number_from_its_name(incorrect_no_parenthesis).is_err());
    assert!(GithubRepository::get_pull_request_number_from_its_name(incorrect_no_hashtag).is_err());
}

#[test]
fn pull_request_reference_forms() {
    let number = GithubRepository::get_pull_request_number_from_its_name;
    assert_eq!(number("Issue-to-solve-2 (#2)").unwrap(), 2);
    assert_eq!(number("(#0)").unwrap(), 0);
    assert_eq!(number("Fix (gh#1234)").unwrap(), 1234);
    assert_eq!(number("Two refs (#1) (#17)").unwrap(), 17);
    assert_eq!(number("x(#18446744073709551615)").unwrap(), u64::MAX);
    for name in ["", ")", "(#)", "#1)", "(GH#1)", "(#1) trailing", "(#1a)", "(a #1)"] {
        assert!(
            matches!(number(name), Err(RepositoryError::InvalidMessage(_))),
            "{name}"
        );
    }
    assert!(matches!(
        number("Big (#18446744073709551616)"),
        Err(RepositoryError::ParsingError(_))
    ));
}

#[test]
fn repository_url() {
    let repo = GithubRepository { owner: "SofairOfficial".to_string(), repo: "sleppa".to_string() };
    assert_eq!(repo.get_url(), "https://github.com/SofairOfficial/sleppa");
}
