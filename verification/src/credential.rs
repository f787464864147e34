//! Identity fields and the password-derived key. The cleartext password is
//! consumed once during derivation and never retained: only the 16-byte
//! NTOWF output is stored.

use vstd::prelude::*;

verus! {

use crate::crypto::{hmac_md5, hmac_md5_of, md4_digest, md4_of};
use crate::text::{
    encode_utf16_units, to_uppercase, units_to_le_bytes, upper_of, utf16_le_bytes, utf16_units,
};
use vstd::string::StringSliceAdditionalSpecFns;
use vstd::utf8::encode_utf8;

/// The NTOWFv2-style derived key:
/// HMAC_MD5( MD4(UTF16LE(password)), UTF16LE(Uppercase(user) ++ domain) ).
pub open spec fn spec_ntowf(user: Seq<char>, domain: Seq<char>, password: Seq<char>) -> Seq<u8> {
    hmac_md5_of(
        md4_of(utf16_le_bytes(utf16_units(password))),
        utf16_le_bytes(utf16_units(upper_of(user)) + utf16_units(domain)),
    )
}

/// An authentication identity: user, domain and computer names plus the
/// password-derived key.
pub struct Credential {
    user_name: String,
    domain_name: String,
    computer_name: String,
    password: Vec<u8>,
}

impl Credential {
    pub closed spec fn spec_user(self) -> Seq<char> {
        self.user_name@
    }

    pub closed spec fn spec_domain(self) -> Seq<char> {
        self.domain_name@
    }

    pub closed spec fn spec_computer(self) -> Seq<char> {
        self.computer_name@
    }

    /// The stored derived key.
    pub closed spec fn spec_key(self) -> Seq<u8> {
        self.password@
    }

    /// Identity names within the DNS-derived 255-byte ceiling.
    pub open spec fn wf(self) -> bool {
        &&& encode_utf8(self.spec_user()).len() <= 255
        &&& encode_utf8(self.spec_domain()).len() <= 255
        &&& encode_utf8(self.spec_computer()).len() <= 255
    }

    pub fn new() -> (r: Self)
        ensures
            r.spec_user() == Seq::<char>::empty(),
            r.spec_domain() == Seq::<char>::empty(),
            r.spec_computer() == Seq::<char>::empty(),
            r.spec_key() == Seq::<u8>::empty(),
            r.wf(),
    {
        Self {
            user_name: String::new(),
            domain_name: String::new(),
            computer_name: String::new(),
            password: Vec::new(),
        }
    }

    /// Builds a credential from identity strings and a cleartext password.
    /// Fails exactly when one of the identity names exceeds 255 bytes (a DNS
    /// name length ceiling); the password itself is not length-limited and
    /// is not retained past this call.
    pub fn acquire_credentials(user: &str, domain: &str, computer: &str, password: &str) -> (r:
        Option<Self>)
        ensures
            r is Some <==> {
                &&& encode_utf8(user@).len() <= 255
                &&& encode_utf8(domain@).len() <= 255
                &&& encode_utf8(computer@).len() <= 255
            },
            r matches Some(c) ==> {
                &&& c.spec_user() == user@
                &&& c.spec_domain() == domain@
                &&& c.spec_computer() == computer@
                &&& c.spec_key() == spec_ntowf(user@, domain@, password@)
                &&& c.spec_key().len() == 16
                &&& c.wf()
            },
    {
        let max_char_count: usize = 255;
        if user.as_bytes().len() > max_char_count || domain.as_bytes().len() > max_char_count
            || computer.as_bytes().len() > max_char_count {
            return None;
        }
        let derived = match Self::ntowf(user, domain, password) {
            Some(v) => v,
            None => {
                assert(false);
                return None;
            },
        };
        Some(Credential {
            user_name: user.to_owned(),
            domain_name: domain.to_owned(),
            computer_name: computer.to_owned(),
            password: derived,
        })
    }

    /// The NTOWF hash of a cleartext password:
    /// HMAC_MD5( MD4(UNICODE(password)), UNICODE(Uppercase(user) ++ domain) ),
    /// where UNICODE is UTF-16LE. Always succeeds: HMAC-MD5 accepts the
    /// 16-byte MD4 digest as a key.
    pub fn ntowf(username: &str, domainname: &str, password: &str) -> (r: Option<Vec<u8>>)
        ensures
            r is Some,
            r matches Some(v) ==> {
                &&& v@ == spec_ntowf(username@, domainname@, password@)
                &&& v@.len() == 16
            },
    {
        let pwd_units = encode_utf16_units(password);
        let pwd_bytes = units_to_le_bytes(&pwd_units);
        let pwd_hash = md4_digest(pwd_bytes.as_slice());

        let upper = to_uppercase(username);
        let mut combined = encode_utf16_units(upper.as_str());
        let mut dom_units = encode_utf16_units(domainname);
        combined.append(&mut dom_units);
        let combined_bytes = units_to_le_bytes(&combined);

        Some(hmac_md5(pwd_hash.as_slice(), combined_bytes.as_slice()))
    }

    /// SessionBaseKey = HMAC_MD5(derived key, NT proof string). The proof
    /// string is produced elsewhere and passed through. Always succeeds: the
    /// stored key is a valid HMAC-MD5 key whatever its length.
    pub fn create_session_key(&self, proof_str: &Vec<u8>) -> (r: Option<Vec<u8>>)
        ensures
            r is Some,
            r matches Some(v) ==> {
                &&& v@ == hmac_md5_of(self.spec_key(), proof_str@)
                &&& v@.len() == 16
            },
    {
        Some(hmac_md5(self.password.as_slice(), proof_str.as_slice()))
    }

    pub fn user(&self) -> (r: &String)
        ensures
            r@ == self.spec_user(),
    {
        &self.user_name
    }

    pub fn domain(&self) -> (r: &String)
        ensures
            r@ == self.spec_domain(),
    {
        &self.domain_name
    }

    pub fn computer(&self) -> (r: &String)
        ensures
            r@ == self.spec_computer(),
    {
        &self.computer_name
    }
}

} // verus!
