//! RDP connection-negotiation codec and NTLM security provider.
//!
//! The crate covers the byte-exact framing of the RDP handshake (TPKT
//! envelopes, X.224 class-0 TPDUs, negotiation PDUs) and an SSPI-style
//! NTLMv2 authenticator with a sealed-message service.

pub mod buffer;
pub mod capture;
pub mod encryption;
pub mod identities;
pub mod nego;
pub mod ntlm;
pub mod sspi;
pub mod tpdu;

