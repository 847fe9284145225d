use teo::error::Error;
use teo::error::RuntimeError;
use teo::model::Model;

fn empty_model(name: &str) -> Model {
    Model {
        name: String::from(name),
        table_name: String::from(name),
        is_virtual: false,
        migration: None,
        fields: vec![],
    }
}

#[test]
fn fatal_errors_carry_their_message() {
    assert_eq!(Error::fatal("boom").message(), "boom");
    assert_eq!(Error::fatal_message(String::from("built")).message(), "built");
}

#[test]
fn runtime_error_message_is_fixed() {
    assert_eq!(RuntimeError::ObjectIsNotSaved.message(),
        "Object is not saved thus can't be deleted.");
    assert_eq!(Error::object_is_not_saved_thus_cant_be_deleted().message(),
        "Object is not saved thus can't be deleted.");
}

#[test]
fn server_error_messages_are_fixed() {
    assert_eq!(Error::unknown_database_write_error().message(),
        "An unknown database write error occurred.");
    assert_eq!(Error::unknown_database_delete_error().message(),
        "An unknown database delete error occurred.");
    assert_eq!(Error::unknown_database_find_error().message(),
        "An unknown database find error occurred.");
    assert_eq!(Error::unknown_database_find_unique_error().message(),
        "An unknown database find unique error occurred.");
    assert_eq!(Error::internal_server_error(String::from("why")).message(), "why");
}

#[test]
fn user_error_messages_are_fixed() {
    assert_eq!(Error::destination_not_found().message(),
        "The request destination is not found.");
    assert_eq!(Error::object_not_found().message(), "The request object is not found.");
    assert_eq!(Error::invalid_auth_token().message(), "This auth token is invalid.");
    assert_eq!(Error::wrong_identity_model().message(),
        "This identity is valid but is not of this model.");
    assert_eq!(Error::incorrect_json_format().message(),
        "The request JSON body format is incorrect.");
    assert_eq!(Error::cannot_disconnect_previous_relation().message(),
        "Required relation cannot disconnect previous connected value.");
    assert_eq!(Error::unique_value_duplicated("email").message(), "Value is not unique.");
}

#[test]
fn built_user_error_messages_name_their_subject() {
    assert_eq!(Error::unexpected_input_root_type("an object").message(),
        "Unexpected root input type. Expect an object.");
    assert_eq!(Error::invalid_key("nickname", &empty_model("User")).message(),
        "Invalid key 'nickname' accessed on model `User'");
    assert_eq!(Error::deletion_denied("posts").message(), "Deletion denied by `posts'.");
    assert_eq!(Error::invalid_operation("cannot do that").message(), "cannot do that");
}

#[test]
fn custom_error_kinds_are_recognized() {
    let server = Error::custom_internal_server_error(String::from("s"));
    assert!(server.is_custom_internal_server_error());
    assert!(!server.is_custom_validation_error());
    assert_eq!(server.message(), "s");
    let validation = Error::custom_validation_error(String::from("v"));
    assert!(validation.is_custom_validation_error());
    assert!(!validation.is_custom_internal_server_error());
    assert_eq!(validation.message(), "v");
    assert!(!Error::fatal("x").is_custom_internal_server_error());
    assert!(!Error::fatal("x").is_custom_validation_error());
}
