//! SSH key handling for login: the key records the client works with,
//! the classification of public-key material, and the choice between
//! agent keys and key files. Talking to the agent and reading key
//! files is I/O and stays with the host.

use vstd::prelude::*;
use vstd::string::StringSliceAdditionalSpecFns;
use crate::strutil::str_starts_with;

verus! {

/// Where a key came from.
#[derive(Debug, Clone)]
pub enum KeySource {
    /// Loaded from the ssh-agent.
    Agent,
    /// Loaded from a file (the path of the private key).
    File(String),
}

/// A loaded SSH key.
#[derive(Debug, Clone)]
pub struct SshKey {
    /// Display name (a file stem, or the agent comment).
    pub name: String,
    /// Full OpenSSH-format public key.
    pub public_key: String,
    /// Key type: "ed25519" or "rsa".
    pub key_type: String,
    pub source: KeySource,
}

/// Why signing a challenge failed.
#[derive(Debug)]
pub enum SignError {
    FileRead(String),
    Parse(String),
    NeedsPassphrase,
    Decrypt(String),
    Sign(String),
}

impl SignError {
    /// The message shown to the user.
    pub fn message(&self) -> (r: String)
        ensures
            (match self {
                SignError::FileRead(e) => r@ == "Failed to read key file: "@ + e@,
                SignError::Parse(e) => r@ == "Failed to parse key: "@ + e@,
                SignError::NeedsPassphrase => r@ == "Key is encrypted, passphrase required"@,
                SignError::Decrypt(e) => r@ == "Failed to decrypt key: "@ + e@,
                SignError::Sign(e) => r@ == "Failed to sign: "@ + e@,
            }),
    {
        match self {
            SignError::FileRead(e) => vstd::string::StringExecFns::concat(
                "Failed to read key file: ".to_owned(),
                e.as_str(),
            ),
            SignError::Parse(e) => vstd::string::StringExecFns::concat(
                "Failed to parse key: ".to_owned(),
                e.as_str(),
            ),
            SignError::NeedsPassphrase => "Key is encrypted, passphrase required".to_owned(),
            SignError::Decrypt(e) => vstd::string::StringExecFns::concat(
                "Failed to decrypt key: ".to_owned(),
                e.as_str(),
            ),
            SignError::Sign(e) => vstd::string::StringExecFns::concat(
                "Failed to sign: ".to_owned(),
                e.as_str(),
            ),
        }
    }
}

/// Whether this string's UTF-8 bytes start with the prefix's.
pub open spec fn bytes_start_with(s: Seq<u8>, p: Seq<u8>) -> bool {
    p.len() <= s.len() && s.take(p.len() as int) == p
}

/// Classify the text of a public-key file by its key-type marker:
/// `"ed25519"` or `"rsa"`, or `None` for anything the client does not
/// support.
pub fn classify_public_key(content: &str) -> (r: Option<&'static str>)
    ensures
        bytes_start_with(content.spec_bytes(), "ssh-ed25519".spec_bytes()) ==> (r matches Some(t)
            && t@ == "ed25519"@),
        (!bytes_start_with(content.spec_bytes(), "ssh-ed25519".spec_bytes()) && bytes_start_with(
            content.spec_bytes(),
            "ssh-rsa".spec_bytes(),
        )) ==> (r matches Some(t) && t@ == "rsa"@),
        (!bytes_start_with(content.spec_bytes(), "ssh-ed25519".spec_bytes())
            && !bytes_start_with(content.spec_bytes(), "ssh-rsa".spec_bytes())) ==> r is None,
{
    if str_starts_with(content, "ssh-ed25519") {
        Some("ed25519")
    } else if str_starts_with(content, "ssh-rsa") {
        Some("rsa")
    } else {
        None
    }
}

/// Choose the keys to offer: the agent's keys when the agent answered
/// with at least one, else the keys scanned from files. The flag says
/// whether the agent is used.
pub fn get_available_keys(agent_keys: Result<Vec<SshKey>, String>, file_keys: Vec<SshKey>) -> (r: (
    Vec<SshKey>,
    bool,
))
    ensures
        (agent_keys matches Ok(keys) ==> ((keys@.len() > 0 ==> r.0@ == keys@ && r.1) && (
        keys@.len() == 0 ==> r.0@ == file_keys@ && !r.1))),
        agent_keys is Err ==> (r.0@ == file_keys@ && !r.1),
{
    match agent_keys {
        Ok(keys) => {
            if keys.len() > 0 {
                (keys, true)
            } else {
                (file_keys, false)
            }
        },
        Err(_) => (file_keys, false),
    }
}

} // verus!
