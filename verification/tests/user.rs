use portobello::user::{check_icon, check_username, UserResponse};
use portobello::validation::InvalidField;

#[test]
fn validate_good_no_icon() {
    assert_eq!(
        UserResponse {
            id: 1,
            username: "admin".to_owned(),
            icon: None,
        }
        .validate(),
        Ok(())
    );
}

#[test]
fn validate_good_username_special_characters() {
    assert_eq!(
        UserResponse {
            id: 1,
            username: ".-_admin.-_".to_owned(),
            icon: None,
        }
        .validate(),
        Ok(())
    );
}

#[test]
fn validate_good_with_icon() {
    assert_eq!(
        UserResponse {
            id: 1,
            username: "admin".to_owned(),
            icon: Some("data:image/jpeg;base64, asdf".to_owned()),
        }
        .validate(),
        Ok(())
    );
}

#[test]
fn validate_bad_id_0() {
    assert_ne!(
        UserResponse {
            id: 0,
            username: "admin".to_owned(),
            icon: None
        }
        .validate(),
        Ok(())
    );
}

#[test]
fn validate_bad_id_negative() {
    assert_ne!(
        UserResponse {
            id: -1,
            username: "admin".to_owned(),
            icon: None
        }
        .validate(),
        Ok(())
    );
}

#[test]
fn validate_bad_username_empty() {
    assert_ne!(
        UserResponse {
            id: 1,
            username: "".to_owned(),
            icon: None
        }
        .validate(),
        Ok(())
    );
}

#[test]
fn validate_bad_username_invalid_character() {
    assert_ne!(
        UserResponse {
            id: 1,
            username: "admin?".to_owned(),
            icon: None
        }
        .validate(),
        Ok(())
    );
}

#[test]
fn validate_bad_username_all_special_characters() {
    assert_ne!(
        UserResponse {
            id: 1,
            username: "-._".to_owned(),
            icon: None
        }
        .validate(),
        Ok(())
    );
}

#[test]
fn validate_bad_icon_empty() {
    assert_ne!(
        UserResponse {
            id: 1,
            username: "admin".to_owned(),
            icon: Some("".to_owned())
        }
        .validate(),
        Ok(())
    );
}

#[test]
fn validate_bad_icon_not_base64_0() {
    assert_ne!(
        UserResponse {
            id: 1,
            username: "admin".to_owned(),
            icon: Some("data:image/jpeg;base64, ".to_owned())
        }
        .validate(),
        Ok(())
    );
}

#[test]
fn validate_bad_icon_not_base64_1() {
    assert_ne!(
        UserResponse {
            id: 1,
            username: "admin".to_owned(),
            icon: Some("ata:image/jpeg;base64, asdf".to_owned())
        }
        .validate(),
        Ok(())
    );
}

#[test]
fn user_is_checked_field_by_field() {
    let user = |id: i32, username: &str, icon: Option<&str>| UserResponse {
        id,
        username: username.to_owned(),
        icon: icon.map(|icon| icon.to_owned()),
    };

    assert_eq!(user(0, "", Some("")).validate(), Err(InvalidField::Id));
    assert_eq!(user(1, "", Some("")).validate(), Err(InvalidField::Username));
    assert_eq!(user(1, "admin", Some("")).validate(), Err(InvalidField::Icon));
    assert_eq!(
        user(1, "admin", Some("data:image/png;base64, AAA/")).validate(),
        Ok(())
    );
}

#[test]
fn username_needs_a_letter_or_a_digit() {
    assert!(check_username("a"));
    assert!(check_username("7"));
    assert!(check_username("Z"));
    assert!(check_username("-a-"));
    assert!(check_username("first.last_2"));

    assert!(!check_username(""));
    assert!(!check_username("."));
    assert!(!check_username("_-_."));
    assert!(!check_username("ad min"));
    assert!(!check_username("admin\n"));
    assert!(!check_username("adm\u{ed}n"));
    assert!(!check_username("a@b"));
}

#[test]
fn icon_is_a_kind_and_data() {
    assert!(check_icon("data:image/jpeg;base64, asdf"));
    assert!(check_icon("data:image/p;base64, a"));
    assert!(check_icon("data:image/png2;base64, AZaz09/"));
    assert!(check_icon("data:image/0;base64, /"));
}

#[test]
fn icon_is_nothing_else() {
    for text in [
        "",
        "data:image/",
        "data:image/jpeg",
        "data:image/jpeg;base64, ",
        "data:image/;base64, asdf",
        "data:image/JPEG;base64, asdf",
        "data:image/jpeg;base64,asdf",
        "data:image/jpeg;base64,  asdf",
        "data:image/jpeg;base64, as df",
        "data:image/jpeg;base64, asdf=",
        "data:image/jpeg;base64, asdf+",
        "data:image/jpeg;base64, asdf\n",
        "data:image/svg+xml;base64, asdf",
        "data:image/jp;eg;base64, asdf",
        "Data:image/jpeg;base64, asdf",
        " data:image/jpeg;base64, asdf",
        "ata:image/jpeg;base64, asdf",
        "data:image/jpeg;base64",
        "data:image/jpeg;base6",
    ] {
        assert!(!check_icon(text), "{:?}", text);
    }
}
