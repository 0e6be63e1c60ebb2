use vstd::prelude::*;
use vstd::string::StringExecFns;

verus! {

/// The `[floodgate]` section of the server configuration: either switched off or on.
pub enum FloodgateConfig {
    Disabled(DisabledFloodgateConfig),
    Enabled(EnabledFloodgateConfig),
}

/// Floodgate settings with `enabled = true`.
pub struct EnabledFloodgateConfig {
    pub enabled: bool,
    pub key_file: String,
    pub username_prefix: String,
    pub replace_spaces: bool,
    pub education: bool,
    pub education_username_prefix: String,
    pub education_uuid_legacy: bool,
}

/// Floodgate settings with `enabled = false`; the other keys are accepted and unused.
pub struct DisabledFloodgateConfig {
    pub enabled: bool,
    pub key_file: String,
    pub username_prefix: String,
    pub replace_spaces: bool,
    pub education: bool,
    pub education_username_prefix: String,
    pub education_uuid_legacy: bool,
}

/// The key file read when none is configured.
pub fn default_key_file() -> (s: String)
    ensures
        s@ == "key.pem"@,
{
    String::from_str("key.pem")
}

/// The prefix given to Bedrock usernames when none is configured.
pub fn default_username_prefix() -> (s: String)
    ensures
        s@ == "."@,
{
    String::from_str(".")
}

/// Spaces in usernames are replaced unless configured otherwise.
pub fn default_replace_spaces() -> (b: bool)
    ensures
        b,
{
    true
}

/// The prefix given to education usernames when none is configured.
pub fn default_education_username_prefix() -> (s: String)
    ensures
        s@ == "+"@,
{
    String::from_str("+")
}

/// Whether `c` is the configuration that applies when the section is absent: switched
/// off, with every key at its default.
pub open spec fn is_default_floodgate_config(c: FloodgateConfig) -> bool {
    &&& c matches FloodgateConfig::Disabled(d)
    &&& !d.enabled
    &&& d.key_file@ == "key.pem"@
    &&& d.username_prefix@ == "."@
    &&& d.replace_spaces
    &&& !d.education
    &&& d.education_username_prefix@ == "+"@
    &&& !d.education_uuid_legacy
}

impl Default for FloodgateConfig {
    /// Floodgate support is off by default.
    fn default() -> (c: Self)
        ensures
            is_default_floodgate_config(c),
    {
        FloodgateConfig::Disabled(
            DisabledFloodgateConfig {
                enabled: false,
                key_file: default_key_file(),
                username_prefix: default_username_prefix(),
                replace_spaces: default_replace_spaces(),
                education: false,
                education_username_prefix: default_education_username_prefix(),
                education_uuid_legacy: false,
            },
        )
    }
}

} // verus!
