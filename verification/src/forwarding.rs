use vstd::prelude::*;

verus! {

/// Velocity ("modern") forwarding in the structured form of the configuration.
pub struct ModernForwardingConfig {
    pub enabled: bool,
    pub secret: String,
}

/// BungeeCord forwarding in the structured form of the configuration.
pub struct BungeeCordForwardingConfig {
    pub enabled: bool,
    pub bungee_guard: bool,
    pub tokens: Vec<String>,
}

/// The structured form of the forwarding configuration: one table per proxy kind.
pub struct StructuredForwarding {
    pub velocity: ModernForwardingConfig,
    pub bungee_cord: BungeeCordForwardingConfig,
}

/// The tagged form of the forwarding configuration: one `method` with its data.
pub enum TaggedForwarding {
    Disabled,
    Legacy,
    BungeeGuard { tokens: Vec<String> },
    Modern { secret: String },
}

/// The forwarding configuration in either of its two forms.
pub enum ForwardingConfig {
    Structured(StructuredForwarding),
    Tagged(TaggedForwarding),
}

impl Default for ModernForwardingConfig {
    fn default() -> (c: Self)
        ensures
            !c.enabled,
            c.secret@ == Seq::<char>::empty(),
    {
        ModernForwardingConfig { enabled: false, secret: String::new() }
    }
}

impl Default for BungeeCordForwardingConfig {
    fn default() -> (c: Self)
        ensures
            !c.enabled,
            !c.bungee_guard,
            c.tokens@ == Seq::<String>::empty(),
    {
        BungeeCordForwardingConfig { enabled: false, bungee_guard: false, tokens: Vec::new() }
    }
}

impl Default for StructuredForwarding {
    fn default() -> (c: Self)
        ensures
            !c.velocity.enabled,
            c.velocity.secret@ == Seq::<char>::empty(),
            !c.bungee_cord.enabled,
            !c.bungee_cord.bungee_guard,
            c.bungee_cord.tokens@ == Seq::<String>::empty(),
    {
        StructuredForwarding {
            velocity: ModernForwardingConfig::default(),
            bungee_cord: BungeeCordForwardingConfig::default(),
        }
    }
}

impl Default for TaggedForwarding {
    /// No forwarding.
    fn default() -> (t: Self)
        ensures
            t is Disabled,
    {
        TaggedForwarding::Disabled
    }
}

impl Default for ForwardingConfig {
    /// No forwarding, in the tagged form.
    fn default() -> (c: Self)
        ensures
            c matches ForwardingConfig::Tagged(TaggedForwarding::Disabled),
    {
        ForwardingConfig::Tagged(TaggedForwarding::default())
    }
}

/// The forwarding method that a configuration selects. The tagged form names it; in the
/// structured form Velocity wins over BungeeCord, and BungeeCord means BungeeGuard when
/// its guard is on; nothing enabled means no forwarding.
pub open spec fn forwarding_method(c: ForwardingConfig) -> TaggedForwarding {
    match c {
        ForwardingConfig::Tagged(t) => t,
        ForwardingConfig::Structured(s) => if s.velocity.enabled {
            TaggedForwarding::Modern { secret: s.velocity.secret }
        } else if s.bungee_cord.enabled {
            if s.bungee_cord.bungee_guard {
                TaggedForwarding::BungeeGuard { tokens: s.bungee_cord.tokens }
            } else {
                TaggedForwarding::Legacy
            }
        } else {
            TaggedForwarding::Disabled
        },
    }
}

impl vstd::std_specs::convert::FromSpecImpl<ForwardingConfig> for TaggedForwarding {
    open spec fn obeys_from_spec() -> bool {
        true
    }

    open spec fn from_spec(c: ForwardingConfig) -> TaggedForwarding {
        forwarding_method(c)
    }
}

impl From<ForwardingConfig> for TaggedForwarding {
    fn from(cfg: ForwardingConfig) -> (t: Self)
        ensures
            t == forwarding_method(cfg),
    {
        match cfg {
            ForwardingConfig::Tagged(forwarding) => forwarding,
            ForwardingConfig::Structured(forwarding) => {
                if forwarding.velocity.enabled {
                    TaggedForwarding::Modern { secret: forwarding.velocity.secret }
                } else if forwarding.bungee_cord.enabled {
                    if forwarding.bungee_cord.bungee_guard {
                        TaggedForwarding::BungeeGuard { tokens: forwarding.bungee_cord.tokens }
                    } else {
                        TaggedForwarding::Legacy
                    }
                } else {
                    TaggedForwarding::Disabled
                }
            },
        }
    }
}

} // verus!
