//! NTLM (MS-NLMP) message construction, binary serialization and parsing:
//! the NEGOTIATE and CHALLENGE messages, the AV-pair attribute list carried
//! in CHALLENGE's TargetInfo field, and the NTOWF credential derivation.

pub mod av_pair;
pub mod challenge;
pub mod credential;
pub mod crypto;
pub mod flags;
pub mod negotiate;
pub mod text;
pub mod wire;
