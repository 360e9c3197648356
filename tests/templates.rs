use simple_wkd::management::Action;
use simple_wkd::templates::{confirmation_body, confirmation_subject, render_outcome, render_page};
use simple_wkd::utils::webpage_path;

#[test]
fn status_page_success_and_failure() {
    let t = "<h1>((%s))</h1><p>((%m))</p>";
    assert_eq!(render_outcome(t, true, "Done"), "<h1>Success!</h1><p>Done</p>");
    assert_eq!(render_outcome(t, false, "Nope"), "<h1>Failure!</h1><p>Nope</p>");
}

#[test]
fn every_marker_is_replaced() {
    assert_eq!(render_page("((%u))/a ((%u))/b", "https://k.example"), "https://k.example/a https://k.example/b");
    assert_eq!(render_page("no markers", "x"), "no markers");
}

#[test]
fn replacement_goes_left_to_right_without_overlap() {
    assert_eq!(render_page("((%u))%u))", "X"), "X%u))");
    assert_eq!(render_outcome("((%m))", true, "((%s))"), "((%s))");
}

#[test]
fn mail_subject_and_body() {
    assert_eq!(confirmation_subject("Please confirm to %a your key", Action::Delete), "Please confirm to delete your key");
    assert_eq!(
        confirmation_body("<a href=\"{{%u}}\">{{%a}}</a>", "https://k.example/api/confirm?token=t", Action::Add),
        "<a href=\"https://k.example/api/confirm?token=t\">add</a>"
    );
}

#[test]
fn action_names() {
    assert_eq!(Action::Add.name(), "add");
    assert_eq!(Action::Delete.name(), "delete");
}

#[test]
fn page_folder() {
    assert_eq!(webpage_path(), "assets/webpage");
}
