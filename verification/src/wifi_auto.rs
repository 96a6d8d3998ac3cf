//! Wi-Fi auto-provisioning: connection-flow events, the start mode, stored
//! credentials, and when to fall back to the captive portal.

use vstd::prelude::*;
use vstd::string::StringSliceAdditionalSpecFns;

verus! {

/// Events of the Wi-Fi auto-connect flow.
#[derive(Clone, Copy, Debug, Eq, PartialEq)]
pub enum WifiAutoEvent {
    /// The captive portal is up, waiting for credentials.
    CaptivePortalReady,
    /// A connection attempt is starting.
    Connecting { try_index: u8, try_count: u8 },
    /// Every connection attempt failed.
    ConnectionFailed,
}

/// How the device starts Wi-Fi on boot.
#[derive(Clone, Copy, Debug, Eq, PartialEq)]
pub enum WifiStartMode {
    /// Join the stored network.
    Client,
    /// Serve the captive portal.
    CaptivePortal,
}

impl Default for WifiStartMode {
    fn default() -> (mode: Self)
        ensures
            mode == WifiStartMode::Client,
    {
        WifiStartMode::Client
    }
}

/// The device must serve the captive portal: when forced to, when the custom
/// fields are not all filled in, when no credentials are stored, or when the
/// stored start mode asks for it.
pub open spec fn enters_captive_portal(
    wifi_start_mode: WifiStartMode,
    force_captive_portal: bool,
    has_persisted_credentials: bool,
    custom_fields_satisfied: bool,
) -> bool {
    force_captive_portal || !custom_fields_satisfied || !has_persisted_credentials
        || wifi_start_mode == WifiStartMode::CaptivePortal
}

/// Whether to serve the captive portal (see [`enters_captive_portal`]).
#[must_use]
pub fn should_enter_captive_portal(
    wifi_start_mode: WifiStartMode,
    force_captive_portal: bool,
    has_persisted_credentials: bool,
    custom_fields_satisfied: bool,
) -> (enter: bool)
    ensures
        enter == enters_captive_portal(
            wifi_start_mode,
            force_captive_portal,
            has_persisted_credentials,
            custom_fields_satisfied,
        ),
{
    force_captive_portal || !custom_fields_satisfied || !has_persisted_credentials || match wifi_start_mode {
        WifiStartMode::CaptivePortal => true,
        WifiStartMode::Client => false,
    }
}

/// Longest SSID, in bytes.
pub const MAX_SSID_BYTES: usize = 32;

/// Longest password, in bytes.
pub const MAX_PASSWORD_BYTES: usize = 64;

/// A network name of at most `MAX_SSID_BYTES` bytes, held in a
/// `heapless::String<32>`.
#[verifier::external_body]
#[derive(Debug, PartialEq, Eq)]
pub struct SsidText {
    text: heapless::String<MAX_SSID_BYTES>,
}

/// What a network name holds: its text.
pub uninterp spec fn ssid_text(ssid: SsidText) -> Seq<char>;

impl Clone for SsidText {
    /// `heapless::String::clone`: a copy holding the same text.
    #[verifier::external_body]
    fn clone(&self) -> (copy: Self)
        ensures
            ssid_text(copy) == ssid_text(*self),
    {
        SsidText { text: self.text.clone() }
    }
}

impl SsidText {
    /// `heapless::String::new` then `push_str` of text that fits: the
    /// string holds exactly the text.
    #[verifier::external_body]
    fn from_fitting(text: &str) -> (ssid: Self)
        requires
            text.spec_bytes().len() <= MAX_SSID_BYTES,
        ensures
            ssid_text(ssid) == text@,
    {
        let mut string = heapless::String::new();
        string.push_str(text).unwrap();
        SsidText { text: string }
    }

    /// `heapless::String::as_str`: the text held.
    #[verifier::external_body]
    fn text(&self) -> (text: &str)
        ensures
            text@ == ssid_text(*self),
    {
        self.text.as_str()
    }

    /// The network name as text.
    pub fn as_str(&self) -> (text: &str)
        ensures
            text@ == ssid_text(*self),
    {
        self.text()
    }
}

/// A password of at most `MAX_PASSWORD_BYTES` bytes, held in a
/// `heapless::String<64>`.
#[verifier::external_body]
#[derive(Debug, PartialEq, Eq)]
pub struct PasswordText {
    text: heapless::String<MAX_PASSWORD_BYTES>,
}

/// What a password holds: its text.
pub uninterp spec fn password_text(password: PasswordText) -> Seq<char>;

impl Clone for PasswordText {
    /// `heapless::String::clone`: a copy holding the same text.
    #[verifier::external_body]
    fn clone(&self) -> (copy: Self)
        ensures
            password_text(copy) == password_text(*self),
    {
        PasswordText { text: self.text.clone() }
    }
}

impl PasswordText {
    /// `heapless::String::new` then `push_str` of text that fits: the
    /// string holds exactly the text.
    #[verifier::external_body]
    fn from_fitting(text: &str) -> (password: Self)
        requires
            text.spec_bytes().len() <= MAX_PASSWORD_BYTES,
        ensures
            password_text(password) == text@,
    {
        let mut string = heapless::String::new();
        string.push_str(text).unwrap();
        PasswordText { text: string }
    }

    /// `heapless::String::as_str`: the text held.
    #[verifier::external_body]
    fn text(&self) -> (text: &str)
        ensures
            text@ == password_text(*self),
    {
        self.text.as_str()
    }

    /// The password as text.
    pub fn as_str(&self) -> (text: &str)
        ensures
            text@ == password_text(*self),
    {
        self.text()
    }
}

/// Wi-Fi credentials collected from the captive portal.
#[derive(Clone, Debug, PartialEq, Eq)]
pub struct WifiCredentials {
    /// Network name (SSID).
    pub ssid: SsidText,
    /// Network password.
    pub password: PasswordText,
}

impl WifiCredentials {
    /// Credentials for a network; the SSID must be non-empty and at most 32
    /// bytes, the password at most 64 bytes.
    #[must_use]
    pub fn new(ssid: &str, password: &str) -> (credentials: Self)
        requires
            ssid@.len() > 0,
            ssid.spec_bytes().len() <= MAX_SSID_BYTES,
            password.spec_bytes().len() <= MAX_PASSWORD_BYTES,
        ensures
            ssid_text(credentials.ssid) == ssid@,
            password_text(credentials.password) == password@,
    {
        Self { ssid: SsidText::from_fitting(ssid), password: PasswordText::from_fitting(password) }
    }
}

/// What the Wi-Fi flow keeps across restarts.
#[derive(Clone, Debug, Eq, PartialEq)]
pub struct WifiAutoPersistedState {
    pub wifi_credentials: Option<WifiCredentials>,
    pub wifi_start_mode: WifiStartMode,
}

impl Default for WifiAutoPersistedState {
    fn default() -> (state: Self)
        ensures
            state.wifi_credentials is None,
            state.wifi_start_mode == WifiStartMode::Client,
    {
        Self { wifi_credentials: None, wifi_start_mode: WifiStartMode::Client }
    }
}

} // verus!
