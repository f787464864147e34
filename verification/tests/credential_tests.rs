use hmac::{Hmac, Mac};
use md5::Md5;
use ntlm::credential::Credential;

// https://learn.microsoft.com/en-us/openspecs/windows_protocols/ms-nlmp/7795bd0e-fd5e-43ec-bd9c-994704d8ee26
#[test]
fn test_ntowf() {
    let username = String::from("User");
    let domainname: String = String::from("Domain");
    let password: String = String::from("Password");

    let expected_ntowf: [u8; 16] = [
        0x0c, 0x86, 0x8a, 0x40, 0x3b, 0xfd, 0x7a, 0x93, 0xa3, 0x00, 0x1e, 0xf2, 0x2e, 0xf0, 0x2e,
        0x3f,
    ];
    let actual_ntowf = Credential::ntowf(&username, &domainname, &password).unwrap();

    assert_eq!(actual_ntowf.len(), 16);

    // count how many bytes are the same between the expected and actual NTOWF buffers.
    let num_of_same_bytes = expected_ntowf
        .iter()
        .zip(actual_ntowf.iter())
        .filter(|&(x, y)| x == y)
        .count();
    assert_eq!(num_of_same_bytes, expected_ntowf.len());
}

#[test]
fn ntowf_uppercases_only_the_user() {
    // The user name is folded to upper case before hashing, the domain is
    // not; so these all agree ...
    let a = Credential::ntowf("user", "Domain", "pw").unwrap();
    let b = Credential::ntowf("USER", "Domain", "pw").unwrap();
    let c = Credential::ntowf("User", "Domain", "pw").unwrap();
    assert_eq!(a, b);
    assert_eq!(b, c);
    // ... while a case change in the domain gives a different key.
    let d = Credential::ntowf("user", "domain", "pw").unwrap();
    assert_ne!(a, d);
}

#[test]
fn ntowf_empty_strings() {
    let key = Credential::ntowf("", "", "").unwrap();
    assert_eq!(key.len(), 16);
}

#[test]
fn acquire_rejects_long_names() {
    let long_name: String = std::iter::repeat('a').take(256).collect();
    let ok_name: String = std::iter::repeat('a').take(255).collect();

    assert!(Credential::acquire_credentials(&long_name, "d", "c", "pw").is_none());
    assert!(Credential::acquire_credentials("u", &long_name, "c", "pw").is_none());
    assert!(Credential::acquire_credentials("u", "d", &long_name, "pw").is_none());
    assert!(Credential::acquire_credentials(&ok_name, &ok_name, &ok_name, "pw").is_some());
    // The password is not length-limited.
    assert!(Credential::acquire_credentials("u", "d", "c", &long_name).is_some());
}

#[test]
fn accessors_return_identity_fields() {
    let cred = Credential::acquire_credentials("u1", "d1", "c1", "pw").unwrap();
    assert_eq!(cred.user(), "u1");
    assert_eq!(cred.domain(), "d1");
    assert_eq!(cred.computer(), "c1");
}

#[test]
fn session_key_matches_hmac_md5() {
    let cred = Credential::acquire_credentials("User", "Domain", "Host", "Password").unwrap();
    let proof_bytes: Vec<u8> = vec![
        0x68, 0xcd, 0x0a, 0xb8, 0x51, 0xe5, 0x1c, 0x96, 0xaa, 0xbc, 0x92, 0x7b, 0xeb, 0xef, 0x6a,
        0x1c,
    ];

    // SessionBaseKey = HMAC_MD5(ResponseKeyNT, NTProofStr), computed here
    // directly from the primitive for comparison.
    let response_key_nt = Credential::ntowf("User", "Domain", "Password").unwrap();
    let mut mac = Hmac::<Md5>::new_from_slice(&response_key_nt).unwrap();
    mac.update(&proof_bytes);
    let expected = mac.finalize().into_bytes().to_vec();

    let actual = cred.create_session_key(&proof_bytes).unwrap();
    assert_eq!(actual.len(), 16);
    assert_eq!(actual, expected);
}
