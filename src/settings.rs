//! The configuration of the service.

use vstd::prelude::*;

verus! {

/// The folder under which the directory and the pending store live.
pub const ROOT_FOLDER: &'static str = "data";

/// The two layouts of a Web Key Directory.
#[derive(Debug, Clone, Copy, PartialEq, Eq, Structural)]
pub enum Variant {
    /// Keys stand under a folder of their domain.
    Advanced,
    /// Keys of all domains share one folder.
    Direct,
}

/// How the connection to the mail relay is secured.
#[derive(Debug, Clone, Copy, PartialEq, Eq, Structural)]
pub enum SMTPEncryption {
    Tls,
    Starttls,
}

/// Limits on the certificates that are accepted beyond the standard policy.
#[derive(Debug, Clone, Copy, PartialEq, Eq, Structural)]
pub struct Policy {
    /// The longest validity period, in seconds, that a key may have; zero
    /// or none means no limit.
    pub key_max_validity: Option<u64>,
}

/// How confirmation mails are sent.
pub struct MailSettings {
    pub smtp_host: String,
    pub smtp_username: String,
    pub smtp_password: String,
    pub smtp_port: u16,
    pub smtp_tls: SMTPEncryption,
    pub mail_from: String,
    pub mail_subject: String,
}

/// The configuration of the service, read once at start and never changed.
pub struct Settings {
    pub variant: Variant,
    /// Seconds after which a pending request is stale.
    pub max_age: i64,
    /// Seconds between two sweeps of the pending store.
    pub cleanup_interval: u64,
    pub allowed_domains: Vec<String>,
    pub port: u16,
    pub bind_host: String,
    pub external_url: String,
    pub mail_settings: MailSettings,
    pub policy: Option<Policy>,
}

} // verus!
