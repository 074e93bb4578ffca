//! Tests of the response shapes.

use mojang_api::ClientLoginResponse;
use mojang_api::ProfileProperty;
use mojang_api::ServerAuthResponse;
use mojang_api::User;
use mojang_api::Uuid;

#[test]
fn profile_property_fields() {
    let prop = ProfileProperty {
        name: "test_prop".to_string(),
        value: "test_val".to_string(),
        signature: "jioiodqwqiowoiqf".to_string(),
    };
    assert_eq!(prop.name, "test_prop");
    assert_eq!(prop.value, "test_val");
    assert_eq!(prop.signature, "jioiodqwqiowoiqf");
    assert_eq!(prop.clone(), prop);
}

#[test]
fn server_auth_response_fields() {
    let id = Uuid { value: 0x1234 };
    let response = ServerAuthResponse {
        id,
        name: "test_".to_string(),
        properties: vec![ProfileProperty {
            name: "textures".to_string(),
            value: "dGV4dHVyZQ==".to_string(),
            signature: "c2ln".to_string(),
        }],
    };
    assert_eq!(response.id, id);
    assert_eq!(response.name, "test_");
    assert_eq!(response.properties.len(), 1);
    assert_eq!(response.properties[0].name, "textures");
}

#[test]
fn client_login_response_fields() {
    let response = ClientLoginResponse {
        access_token: "test_29408".to_string(),
        user: User {
            id: Uuid { value: 1 },
            email: "test@example.com".to_string(),
            username: "test".to_string(),
            register_ip: "127.0.0.*".to_string(),
            migrated_from: None,
            migrated_at: None,
            registered_at: 0o354,
            password_changed_at: Some(249),
            date_of_birth: 124,
            suspended: false,
            blocked: false,
            secured: false,
            migrated: false,
            email_verified: false,
            legacy_user: false,
            verified_by_parent: false,
        },
    };
    assert_eq!(response.access_token, "test_29408");
    assert_eq!(response.user.email, "test@example.com");
    assert_eq!(response.clone(), response);
}
