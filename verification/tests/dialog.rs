use webapps::dialog::{dialog_title, dialog_url};

#[test]
fn dialog_pages_encode_their_parameters() {
    assert_eq!(dialog_url("add-app", None, &vec![]), "index.html?dialog=add-app");
    assert_eq!(
        dialog_url(
            "edit-app",
            Some("work"),
            &vec![("name".to_string(), "A b&c/é".to_string())]
        ),
        "index.html?dialog=edit-app&spaceId=work&name=A%20b%26c%2F%C3%A9"
    );
}

#[test]
fn dialog_titles() {
    assert_eq!(dialog_title("add-app"), "Add App");
    assert_eq!(dialog_title("edit-app"), "Edit App");
    assert_eq!(dialog_title("create-space"), "New Space");
    assert_eq!(dialog_title("other"), "Dialog");
}
