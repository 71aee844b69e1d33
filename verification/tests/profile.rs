use azure_keyvault_tui::azure_profile::{
    displayable, AzureCredential, AzureProfile, AzureSubscription, PROFILE_LOCATION,
};

fn subscription(id: &str, is_default: bool) -> AzureSubscription {
    AzureSubscription {
        id: String::from(id),
        name: String::from("name"),
        state: String::from("Enabled"),
        user: AzureCredential::User { name: String::from("someone@example.com") },
        is_default,
        tenant_id: String::from("tenant"),
        environment_name: String::from("AzureCloud"),
    }
}

#[test]
fn displayable_bytes_are_the_visible_ascii() {
    for byte in 0..=255u8 {
        let expected = byte.is_ascii_alphanumeric() || byte.is_ascii_punctuation();
        assert_eq!(displayable(byte), expected, "byte {}", byte);
    }
    assert!(!displayable(0x20));
    assert!(displayable(0x21));
    assert!(displayable(0x7e));
    assert!(!displayable(0x7f));
}

#[test]
fn plain_text_is_kept_as_it_is() {
    assert_eq!(AzureProfile::displayable_json(b"ab"), "ab");
    assert_eq!(AzureProfile::displayable_json(b"{\"a\":[1,2]}"), "{\"a\":[1,2]}");
}

#[test]
fn nothing_is_left_of_no_bytes() {
    assert_eq!(AzureProfile::displayable_json(b""), "");
    assert_eq!(AzureProfile::displayable_json(b" \t\r\n"), "");
}

#[test]
fn the_byte_order_mark_and_white_space_are_dropped() {
    let bytes = b"\xef\xbb\xbf{\r\n  \"installationId\": \"abc-1\",\n\t\"subscriptions\": []\n}\n";
    assert_eq!(
        AzureProfile::displayable_json(bytes),
        "{\"installationId\":\"abc-1\",\"subscriptions\":[]}"
    );
}

#[test]
fn spaces_inside_values_are_dropped_too() {
    assert_eq!(
        AzureProfile::displayable_json(b"{\"name\": \"Pay As You Go\"}"),
        "{\"name\":\"PayAsYouGo\"}"
    );
}

#[test]
fn bytes_beyond_ascii_are_dropped() {
    assert_eq!(AzureProfile::displayable_json(&[b'a', 0xc3, 0xa9, b'b', 0x00, 0x7f, b'~']), "ab~");
}

#[test]
fn the_first_default_subscription_is_found() {
    let profile = AzureProfile {
        installation_id: String::from("install"),
        subscriptions: vec![
            subscription("a", false),
            subscription("b", true),
            subscription("c", true),
        ],
    };
    assert_eq!(profile.default_subscription(), Some(subscription("b", true)));
}

#[test]
fn a_profile_without_a_default_gives_none() {
    let profile = AzureProfile {
        installation_id: String::from("install"),
        subscriptions: vec![subscription("a", false), subscription("b", false)],
    };
    assert_eq!(profile.default_subscription(), None);
    let empty = AzureProfile { installation_id: String::from("install"), subscriptions: vec![] };
    assert_eq!(empty.default_subscription(), None);
}

#[test]
fn copies_are_equal_to_their_originals() {
    let profile = AzureProfile {
        installation_id: String::from("install"),
        subscriptions: vec![subscription("a", false), subscription("b", true)],
    };
    assert_eq!(profile.clone(), profile);
    assert_eq!(subscription("z", true).clone(), subscription("z", true));
    let user = AzureCredential::User { name: String::from("n") };
    assert_eq!(user.clone(), user);
}

#[test]
fn the_profile_is_kept_below_the_home_directory() {
    assert_eq!(PROFILE_LOCATION, ".azure/azureProfile.json");
}
