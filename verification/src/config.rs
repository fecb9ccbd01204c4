//! The user-space stack's settings, read from four environment variables
//! with documented defaults.
use vstd::prelude::*;
use vstd::string::StringSliceAdditionalSpecFns;
use crate::decimal::{
    decimal_i32, decimal_text, lemma_signed_text_reads_back, parse_i32, signed_decimal_text,
};
use crate::ipv4::{ipv4_from_text, lemma_text_reads_back, parse_ipv4, Ipv4Address};

verus! {

/// The environment variables that configure the user-space stack.
#[derive(Clone, Copy, Debug, PartialEq, Eq, Structural)]
pub enum ConfigKey {
    Unit,
    HostIp,
    StackIp,
    Netmask,
}

impl ConfigKey {
    /// The variable's name in the environment.
    pub fn env_name(&self) -> (r: &'static str)
        ensures
            r@ == match *self {
                ConfigKey::Unit => "ASYNC_NET_NETSTACK_UNIT"@,
                ConfigKey::HostIp => "ASYNC_NET_NETSTACK_HOST_IP"@,
                ConfigKey::StackIp => "ASYNC_NET_NETSTACK_STACK_IP"@,
                ConfigKey::Netmask => "ASYNC_NET_NETSTACK_NETMASK"@,
            },
    {
        match self {
            ConfigKey::Unit => "ASYNC_NET_NETSTACK_UNIT",
            ConfigKey::HostIp => "ASYNC_NET_NETSTACK_HOST_IP",
            ConfigKey::StackIp => "ASYNC_NET_NETSTACK_STACK_IP",
            ConfigKey::Netmask => "ASYNC_NET_NETSTACK_NETMASK",
        }
    }
}

/// What a setting's text failed to be.
#[derive(Clone, Copy, Debug, PartialEq, Eq, Structural)]
pub enum ConfigErrorKind {
    InvalidIpv4,
    InvalidInteger,
}

/// A setting whose text could not be read.
#[derive(Clone, Copy, Debug, PartialEq, Eq, Structural)]
pub struct ConfigError {
    pub key: ConfigKey,
    pub kind: ConfigErrorKind,
}

/// The user-space stack's settings: the interface unit, the host's and the
/// stack's own address, and the netmask.
#[derive(Clone, Copy, Debug, PartialEq, Eq, Structural)]
pub struct NetstackConfig {
    pub unit: i32,
    pub host_ip: Ipv4Address,
    pub stack_ip: Ipv4Address,
    pub netmask: Ipv4Address,
}

/// The text a setting is read from: the variable's value when it is set,
/// else the default.
pub open spec fn setting_text(value: Option<&str>, default: &str) -> Seq<u8> {
    match value {
        Some(v) => v.spec_bytes(),
        None => default.spec_bytes(),
    }
}

/// The address a setting holds, or the error that names it.
pub open spec fn setting_ipv4(key: ConfigKey, value: Option<&str>, default: &str) -> Result<
    Ipv4Address,
    ConfigError,
> {
    match ipv4_from_text(setting_text(value, default)) {
        Some(q) => Ok(q),
        None => Err(ConfigError { key, kind: ConfigErrorKind::InvalidIpv4 }),
    }
}

/// The integer a setting holds: the default when the variable is not set.
pub open spec fn setting_i32(key: ConfigKey, value: Option<&str>, default: i32) -> Result<
    i32,
    ConfigError,
> {
    match value {
        None => Ok(default),
        Some(v) => match decimal_i32(v.spec_bytes()) {
            Some(x) => Ok(x),
            None => Err(ConfigError { key, kind: ConfigErrorKind::InvalidInteger }),
        },
    }
}

/// Reads an address setting: the variable's value when it is set, else the
/// default text, as dotted-quad text.
pub fn parse_env_ipv4(key: ConfigKey, value: Option<&str>, default: &str) -> (r: Result<
    Ipv4Address,
    ConfigError,
>)
    ensures
        r == setting_ipv4(key, value, default),
        forall|q: Ipv4Address|
            value matches Some(v) && v.spec_bytes() == #[trigger] q.text() ==> r == Ok::<
                Ipv4Address,
                ConfigError,
            >(q),
        forall|q: Ipv4Address|
            value is None && default.spec_bytes() == #[trigger] q.text() ==> r == Ok::<
                Ipv4Address,
                ConfigError,
            >(q),
        r matches Err(e) ==> e == (ConfigError { key, kind: ConfigErrorKind::InvalidIpv4 }),
{
    proof {
        assert forall|q: Ipv4Address| setting_text(value, default) == #[trigger] q.text() implies
            setting_ipv4(key, value, default) == Ok::<Ipv4Address, ConfigError>(q) by {
            lemma_ipv4_setting(key, value, default, q);
        }
    }
    let text = match value {
        Some(v) => v,
        None => default,
    };
    match parse_ipv4(text) {
        Some(q) => Ok(q),
        None => Err(ConfigError { key, kind: ConfigErrorKind::InvalidIpv4 }),
    }
}

/// Reads an integer setting. When the variable is not set the default is
/// taken; its decimal text would read back as itself
/// (`lemma_signed_text_reads_back`).
pub fn parse_env_i32(key: ConfigKey, value: Option<&str>, default: i32) -> (r: Result<
    i32,
    ConfigError,
>)
    ensures
        r == setting_i32(key, value, default),
        forall|x: i32|
            value matches Some(v) && v.spec_bytes() == #[trigger] signed_decimal_text(x) ==> r
                == Ok::<i32, ConfigError>(x),
        value is None ==> r == Ok::<i32, ConfigError>(default),
        r matches Err(e) ==> e == (ConfigError { key, kind: ConfigErrorKind::InvalidInteger }),
{
    proof {
        assert forall|x: i32|
            value matches Some(v) && v.spec_bytes() == #[trigger] signed_decimal_text(x) implies
            setting_i32(key, value, default) == Ok::<i32, ConfigError>(x) by {
            lemma_i32_setting(key, value, default, x);
        }
    }
    match value {
        None => Ok(default),
        Some(v) => match parse_i32(v) {
            Some(x) => Ok(x),
            None => Err(ConfigError { key, kind: ConfigErrorKind::InvalidInteger }),
        },
    }
}

/// An address setting reads the canonical text of an address as that
/// address, whichever variable it is and whatever its default: the set
/// value's text when the variable is set, else the default's; any other
/// text is an invalid-IPv4 error that names the variable.
pub proof fn lemma_ipv4_setting(key: ConfigKey, value: Option<&str>, default: &str, q: Ipv4Address)
    ensures
        (value matches Some(v) && v.spec_bytes() == q.text()) ==> setting_ipv4(key, value, default)
            == Ok::<Ipv4Address, ConfigError>(q),
        (value is None && default.spec_bytes() == q.text()) ==> setting_ipv4(key, value, default)
            == Ok::<Ipv4Address, ConfigError>(q),
        setting_ipv4(key, value, default) matches Err(e) ==> e == (ConfigError {
            key,
            kind: ConfigErrorKind::InvalidIpv4,
        }),
{
    lemma_text_reads_back(setting_text(value, default), q);
}

/// An integer setting reads the decimal text of any `i32` as that integer,
/// whichever variable it is and whatever its default; an unset variable
/// gives the default; any other text is an invalid-integer error that names
/// the variable.
pub proof fn lemma_i32_setting(key: ConfigKey, value: Option<&str>, default: i32, x: i32)
    ensures
        (value matches Some(v) && v.spec_bytes() == signed_decimal_text(x)) ==> setting_i32(
            key,
            value,
            default,
        ) == Ok::<i32, ConfigError>(x),
        value is None ==> setting_i32(key, value, default) == Ok::<i32, ConfigError>(default),
        setting_i32(key, value, default) matches Err(e) ==> e == (ConfigError {
            key,
            kind: ConfigErrorKind::InvalidInteger,
        }),
{
    lemma_signed_text_reads_back(x);
}

/// The settings that four variables give, read in the order unit, host
/// address, stack address, netmask; the first that cannot be read is the
/// error.
pub open spec fn netstack_settings(
    unit: Option<&str>,
    host_ip: Option<&str>,
    stack_ip: Option<&str>,
    netmask: Option<&str>,
) -> Result<NetstackConfig, ConfigError> {
    match setting_i32(ConfigKey::Unit, unit, 10) {
        Err(e) => Err(e),
        Ok(u) => match setting_ipv4(ConfigKey::HostIp, host_ip, "10.200.0.1") {
            Err(e) => Err(e),
            Ok(h) => match setting_ipv4(ConfigKey::StackIp, stack_ip, "10.200.0.2") {
                Err(e) => Err(e),
                Ok(s) => match setting_ipv4(ConfigKey::Netmask, netmask, "255.255.255.0") {
                    Err(e) => Err(e),
                    Ok(m) => Ok(NetstackConfig { unit: u, host_ip: h, stack_ip: s, netmask: m }),
                },
            },
        },
    }
}

/// Reads the user-space stack's settings from the variables' values (`None`
/// for a variable that is not set).
pub fn netstack_config(
    unit: Option<&str>,
    host_ip: Option<&str>,
    stack_ip: Option<&str>,
    netmask: Option<&str>,
) -> (r: Result<NetstackConfig, ConfigError>)
    ensures
        r == netstack_settings(unit, host_ip, stack_ip, netmask),
        r matches Ok(c) ==> (unit is None ==> c.unit == 10) && (host_ip is None ==> c.host_ip
            == Ipv4Address(10, 200, 0, 1)) && (stack_ip is None ==> c.stack_ip == Ipv4Address(
            10,
            200,
            0,
            2,
        )) && (netmask is None ==> c.netmask == Ipv4Address(255, 255, 255, 0)),
        forall|x: i32|
            r is Ok && (unit matches Some(v) && v.spec_bytes() == #[trigger] signed_decimal_text(x))
                ==> r->Ok_0.unit == x,
        forall|q: Ipv4Address|
            r is Ok && (host_ip matches Some(v) && v.spec_bytes() == #[trigger] q.text()) ==> r->Ok_0.host_ip
                == q,
        forall|q: Ipv4Address|
            r is Ok && (stack_ip matches Some(v) && v.spec_bytes() == #[trigger] q.text()) ==> r->Ok_0.stack_ip
                == q,
        forall|q: Ipv4Address|
            r is Ok && (netmask matches Some(v) && v.spec_bytes() == #[trigger] q.text()) ==> r->Ok_0.netmask
                == q,
{
    proof {
        lemma_default_host();
        lemma_default_stack();
        lemma_default_netmask();
    }
    let u = match parse_env_i32(ConfigKey::Unit, unit, 10) {
        Ok(u) => u,
        Err(e) => return Err(e),
    };
    let h = match parse_env_ipv4(ConfigKey::HostIp, host_ip, "10.200.0.1") {
        Ok(h) => h,
        Err(e) => return Err(e),
    };
    let s = match parse_env_ipv4(ConfigKey::StackIp, stack_ip, "10.200.0.2") {
        Ok(s) => s,
        Err(e) => return Err(e),
    };
    let m = match parse_env_ipv4(ConfigKey::Netmask, netmask, "255.255.255.0") {
        Ok(m) => m,
        Err(e) => return Err(e),
    };
    Ok(NetstackConfig { unit: u, host_ip: h, stack_ip: s, netmask: m })
}

/// The bytes of an ASCII literal are its characters, one for one.
proof fn lemma_ascii_bytes(s: &str)
    requires
        vstd::string::is_ascii(s),
    ensures
        s.spec_bytes() =~= Seq::new(s@.len(), |i: int| s@[i] as u8),
{
    vstd::string::is_ascii_spec_bytes(s);
}

proof fn lemma_small_texts()
    ensures
        decimal_text(0) == seq![48u8],
        decimal_text(1) == seq![49u8],
        decimal_text(2) == seq![50u8],
        decimal_text(10) == seq![49u8, 48u8],
        decimal_text(200) == seq![50u8, 48u8, 48u8],
        decimal_text(255) == seq![50u8, 53u8, 53u8],
{
    assert(decimal_text(0) =~= seq![48u8]);
    assert(decimal_text(1) =~= seq![49u8]);
    assert(decimal_text(2) =~= seq![50u8]);
    assert(decimal_text(10) =~= seq![49u8, 48u8]);
    assert(decimal_text(20) =~= seq![50u8, 48u8]);
    assert(decimal_text(200) =~= seq![50u8, 48u8, 48u8]);
    assert(decimal_text(25) =~= seq![50u8, 53u8]);
    assert(decimal_text(255) =~= seq![50u8, 53u8, 53u8]);
}

proof fn lemma_default_host()
    ensures
        ipv4_from_text("10.200.0.1".spec_bytes()) == Some(Ipv4Address(10, 200, 0, 1)),
{
    reveal_strlit("10.200.0.1");
    lemma_ascii_bytes("10.200.0.1");
    lemma_small_texts();
    let q = Ipv4Address(10, 200, 0, 1);
    assert(q.text() =~= "10.200.0.1".spec_bytes());
    lemma_text_reads_back("10.200.0.1".spec_bytes(), q);
}

proof fn lemma_default_stack()
    ensures
        ipv4_from_text("10.200.0.2".spec_bytes()) == Some(Ipv4Address(10, 200, 0, 2)),
{
    reveal_strlit("10.200.0.2");
    lemma_ascii_bytes("10.200.0.2");
    lemma_small_texts();
    let q = Ipv4Address(10, 200, 0, 2);
    assert(q.text() =~= "10.200.0.2".spec_bytes());
    lemma_text_reads_back("10.200.0.2".spec_bytes(), q);
}

proof fn lemma_default_netmask()
    ensures
        ipv4_from_text("255.255.255.0".spec_bytes()) == Some(Ipv4Address(255, 255, 255, 0)),
{
    reveal_strlit("255.255.255.0");
    lemma_ascii_bytes("255.255.255.0");
    lemma_small_texts();
    let q = Ipv4Address(255, 255, 255, 0);
    assert(q.text() =~= "255.255.255.0".spec_bytes());
    lemma_text_reads_back("255.255.255.0".spec_bytes(), q);
}

/// Each setting comes from its own variable: when every set variable holds
/// the text of a value (the unit the decimal text of `x`, each address
/// variable the canonical text of its address), the settings are those
/// values, and each unset variable gives its default (unit 10, host
/// 10.200.0.1, stack 10.200.0.2, netmask 255.255.255.0).
pub proof fn lemma_settings_from_variables(
    unit: Option<&str>,
    host_ip: Option<&str>,
    stack_ip: Option<&str>,
    netmask: Option<&str>,
    x: i32,
    qh: Ipv4Address,
    qs: Ipv4Address,
    qm: Ipv4Address,
)
    requires
        unit matches Some(v) ==> v.spec_bytes() == signed_decimal_text(x),
        host_ip matches Some(v) ==> v.spec_bytes() == qh.text(),
        stack_ip matches Some(v) ==> v.spec_bytes() == qs.text(),
        netmask matches Some(v) ==> v.spec_bytes() == qm.text(),
    ensures
        netstack_settings(unit, host_ip, stack_ip, netmask) == Ok::<NetstackConfig, ConfigError>(
            NetstackConfig {
                unit: if unit is Some {
                    x
                } else {
                    10
                },
                host_ip: if host_ip is Some {
                    qh
                } else {
                    Ipv4Address(10, 200, 0, 1)
                },
                stack_ip: if stack_ip is Some {
                    qs
                } else {
                    Ipv4Address(10, 200, 0, 2)
                },
                netmask: if netmask is Some {
                    qm
                } else {
                    Ipv4Address(255, 255, 255, 0)
                },
            },
        ),
{
    lemma_default_host();
    lemma_default_stack();
    lemma_default_netmask();
    lemma_i32_setting(ConfigKey::Unit, unit, 10, x);
    lemma_ipv4_setting(ConfigKey::HostIp, host_ip, "10.200.0.1", qh);
    lemma_ipv4_setting(ConfigKey::StackIp, stack_ip, "10.200.0.2", qs);
    lemma_ipv4_setting(ConfigKey::Netmask, netmask, "255.255.255.0", qm);
}

/// With no variable set, the stack runs on unit 10, with the host at
/// 10.200.0.1, the stack at 10.200.0.2 and the netmask 255.255.255.0.
pub proof fn lemma_default_settings()
    ensures
        netstack_settings(None, None, None, None) == Ok::<NetstackConfig, ConfigError>(
            NetstackConfig {
                unit: 10,
                host_ip: Ipv4Address(10, 200, 0, 1),
                stack_ip: Ipv4Address(10, 200, 0, 2),
                netmask: Ipv4Address(255, 255, 255, 0),
            },
        ),
{
    lemma_default_host();
    lemma_default_stack();
    lemma_default_netmask();
}

} // verus!
