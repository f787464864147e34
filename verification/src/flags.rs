//! The closed set of named bit positions for the 32-bit negotiation flags
//! field of NTLM messages, and the default flag combination used when no
//! explicit flags are supplied. Flags are combined by bitwise OR and tested
//! by bitwise AND; nothing in this crate removes a flag.

use vstd::prelude::*;

verus! {

pub const NTLMSSP_NEGOTIATE_56: u32 = 1u32 << 0;
pub const NTLMSSP_NEGOTIATE_KEY_EXCH: u32 = 1u32 << 1;
pub const NTLMSSP_NEGOTIATE_128: u32 = 1u32 << 2;
pub const R1: u32 = 1u32 << 3;
pub const R2: u32 = 1u32 << 4;
pub const R3: u32 = 1u32 << 5;
pub const NTLMSSP_NEGOTIATE_VERSION: u32 = 1u32 << 6;
pub const R4: u32 = 1u32 << 7;
pub const NTLMSSP_NEGOTIATE_TARGET_INFO: u32 = 1u32 << 8;
pub const NTLMSSP_REQUEST_NON_NT_SESSION_KEY: u32 = 1u32 << 9;
pub const R5: u32 = 1u32 << 10;
pub const NTLMSSP_NEGOTIATE_IDENTIFY: u32 = 1u32 << 11;
pub const NTLMSSP_NEGOTIATE_EXTENDED_SESSIONSECURITY: u32 = 1u32 << 12;
pub const R6: u32 = 1u32 << 13;
pub const NTLMSSP_TARGET_TYPE_SERVER: u32 = 1u32 << 14;
pub const NTLMSSP_TARGET_TYPE_DOMAIN: u32 = 1u32 << 15;
pub const NTLMSSP_NEGOTIATE_ALWAYS_SIGN: u32 = 1u32 << 16;
pub const R7: u32 = 1u32 << 17;
pub const NTLMSSP_NEGOTIATE_OEM_WORKSTATION_SUPPLIED: u32 = 1u32 << 18;
pub const NTLMSSP_NEGOTIATE_OEM_DOMAIN_SUPPLIED: u32 = 1u32 << 19;
pub const NTLMSSP_NEGOTIATE_ANONYMOUS: u32 = 1u32 << 20;
pub const R8: u32 = 1u32 << 21;
pub const NTLMSSP_NEGOTIATE_NTLM: u32 = 1u32 << 22;
pub const R9: u32 = 1u32 << 23;
pub const NTLMSSP_NEGOTIATE_LM_KEY: u32 = 1u32 << 24;
pub const NTLMSSP_NEGOTIATE_DATAGRAM: u32 = 1u32 << 25;
pub const NTLMSSP_NEGOTIATE_SEAL: u32 = 1u32 << 26;
pub const NTLMSSP_NEGOTIATE_SIGN: u32 = 1u32 << 27;
pub const R10: u32 = 1u32 << 28;
pub const NTLMSSP_REQUEST_TARGET: u32 = 1u32 << 29;
pub const NTLM_NEGOTIATE_OEM: u32 = 1u32 << 30;
pub const NTLMSSP_NEGOTIATE_UNICODE: u32 = 1u32 << 31;

/// The flag combination used when no explicit flags are supplied:
/// 128-bit encryption, key exchange, always-sign, seal, sign, and
/// Unicode string encoding.
pub const DEFAULT_NEGOTIATE_FLAGS: u32 = NTLMSSP_NEGOTIATE_128 | NTLMSSP_NEGOTIATE_KEY_EXCH
    | NTLMSSP_NEGOTIATE_ALWAYS_SIGN | NTLMSSP_NEGOTIATE_SEAL | NTLMSSP_NEGOTIATE_SIGN
    | NTLMSSP_NEGOTIATE_UNICODE;

} // verus!
