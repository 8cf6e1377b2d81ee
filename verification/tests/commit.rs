use frust::commit::commit_arguments;
use frust::commit::commit_message;
use frust::commit::push_arguments;

#[test]
fn commit_message_names_the_version() {
    assert_eq!(commit_message("2.0.0"), "feat: bumped to version 2.0.0");
    assert_eq!(commit_message(""), "feat: bumped to version ");
}

#[test]
fn commit_arguments_in_order() {
    assert_eq!(
        commit_arguments("/srv/api", "2.0.0"),
        vec![
            "-C".to_string(),
            "/srv/api".to_string(),
            "commit".to_string(),
            "-am".to_string(),
            "feat: bumped to version 2.0.0".to_string(),
        ]
    );
}

#[test]
fn push_arguments_in_order() {
    assert_eq!(
        push_arguments("/srv/api"),
        vec!["-C".to_string(), "/srv/api".to_string(), "push".to_string()]
    );
}
