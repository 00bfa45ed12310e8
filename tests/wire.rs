use sanctum::error::Error;
use sanctum::model::{EncryptedRecord, EncryptedVault};
use sanctum::stamp::nanos_to_micros;
use sanctum::wire::{
    decode_server_field, login_finish_request, login_server_message, login_start_request,
    registration_finish_request, registration_server_message, registration_start_request,
    LoginStartResponse, Record, RegistrationStartResponse, Vault,
};

#[test]
fn handshake_messages_are_base64_in_envelopes() {
    let r = registration_start_request("a@example.com", b"hi");
    assert_eq!(r.email, "a@example.com");
    assert_eq!(r.client_start, "aGk=");
    let f = registration_finish_request("a@example.com", &[0u8; 3], b"hi!");
    assert_eq!(f.salt, "AAAA");
    assert_eq!(f.client_finish, "aGkh");
    assert_eq!(login_start_request("e", b"hi").client_start, "aGk=");
    assert_eq!(login_finish_request("e", b"hi").client_finish, "aGk=");
}

#[test]
fn server_messages_decode_or_fail_as_auth_errors() {
    let ok = RegistrationStartResponse { server_start: "aGk=".to_string() };
    assert_eq!(registration_server_message(&ok).unwrap(), b"hi".to_vec());
    let bad = LoginStartResponse { message: "@@".to_string() };
    assert_eq!(login_server_message(&bad), Err(Error::AuthError));
    assert_eq!(decode_server_field("AAAA").unwrap(), vec![0u8; 3]);
}

#[test]
fn server_rows_convert_to_stored_forms() {
    let v = Vault {
        id: 1,
        user_id: 2,
        encrypted_vault_key: "k".to_string(),
        encrypted_name: "n".to_string(),
        created_at: 3,
        updated_at: 4,
    };
    let e = EncryptedVault::from(v);
    assert_eq!((e.id, e.created_at, e.updated_at), (1, 3, 4));
    assert_eq!(e.encrypted_name, "n");
    let r = Record {
        id: 5,
        vault_id: 1,
        encrypted_record_key: "rk".to_string(),
        encrypted_data_blob: "b".to_string(),
        created_at: 6,
        updated_at: 7,
    };
    let e = EncryptedRecord::from(r);
    assert_eq!((e.id, e.vault_id, e.updated_at), (5, 1, 7));
}

#[test]
fn instants_are_whole_microseconds() {
    assert_eq!(nanos_to_micros(1_999), 1);
    assert_eq!(nanos_to_micros(-5), 0);
    assert_eq!(nanos_to_micros(i128::MAX), i64::MAX);
}
