//! The error type shared by the policies and the channel.

use vstd::prelude::*;
use vstd::string::StringExecFns;

verus! {

/// Why an update or a configuration was rejected.
///
/// Every variant is a recoverable condition: a policy that returns one of
/// these stays usable and keeps the state it had before the call.
#[derive(Debug)]
pub enum LbError {
    /// The update is a name-resolution failure that the policy cannot act on.
    Unhandled,
    /// The update carries no endpoint.
    NoEndpoints,
    /// The endpoint chosen from the update carries no address.
    NoAddresses,
    /// The update has a shape that cannot be split among children.
    BadUpdate,
    /// The update carries a service config, which is not supported yet.
    ServiceConfigUnsupported,
    /// The text of a policy configuration could not be parsed; the payload
    /// describes what was wrong with it.
    ConfigParse(String),
    /// Name resolution failed; the payload is the resolver's description.
    Resolution(String),
    /// No policy is registered under the name in the payload.
    UnknownPolicy(String),
    /// A picker chose a subchannel that the pool does not hold.
    UnknownSubchannel,
    /// The target of a channel is not a URL; the payload says why.
    InvalidTarget(String),
}

impl LbError {
    /// The text of this error as a sequence of characters.
    pub open spec fn message_spec(&self) -> Seq<char> {
        match self {
            LbError::Unhandled => "unhandled"@,
            LbError::NoEndpoints => "no endpoints"@,
            LbError::NoAddresses => "no addresses"@,
            LbError::BadUpdate => "bad update"@,
            LbError::ServiceConfigUnsupported => "can't do service configs yet"@,
            LbError::ConfigParse(detail) => "service config parsing failed: "@ + detail@,
            LbError::Resolution(detail) => detail@,
            LbError::UnknownPolicy(name) => "no such LB policy: "@ + name@,
            LbError::UnknownSubchannel => "illegal subchannel in pick"@,
            LbError::InvalidTarget(detail) => "invalid target: "@ + detail@,
        }
    }

    /// Renders the error as text.
    pub fn message(&self) -> (text: String)
        ensures
            text@ == self.message_spec(),
    {
        match self {
            LbError::Unhandled => String::from_str("unhandled"),
            LbError::NoEndpoints => String::from_str("no endpoints"),
            LbError::NoAddresses => String::from_str("no addresses"),
            LbError::BadUpdate => String::from_str("bad update"),
            LbError::ServiceConfigUnsupported => String::from_str("can't do service configs yet"),
            LbError::ConfigParse(detail) => {
                String::from_str("service config parsing failed: ").concat(detail.as_str())
            },
            LbError::Resolution(detail) => detail.clone(),
            LbError::UnknownPolicy(name) => String::from_str("no such LB policy: ").concat(
                name.as_str(),
            ),
            LbError::UnknownSubchannel => String::from_str("illegal subchannel in pick"),
            LbError::InvalidTarget(detail) => String::from_str("invalid target: ").concat(
                detail.as_str(),
            ),
        }
    }
}

impl Clone for LbError {
    /// A copy of this error.
    fn clone(&self) -> (copy: LbError)
        ensures
            copy == *self,
    {
        match self {
            LbError::Unhandled => LbError::Unhandled,
            LbError::NoEndpoints => LbError::NoEndpoints,
            LbError::NoAddresses => LbError::NoAddresses,
            LbError::BadUpdate => LbError::BadUpdate,
            LbError::ServiceConfigUnsupported => LbError::ServiceConfigUnsupported,
            LbError::ConfigParse(detail) => LbError::ConfigParse(detail.clone()),
            LbError::Resolution(detail) => LbError::Resolution(detail.clone()),
            LbError::UnknownPolicy(name) => LbError::UnknownPolicy(name.clone()),
            LbError::UnknownSubchannel => LbError::UnknownSubchannel,
            LbError::InvalidTarget(detail) => LbError::InvalidTarget(detail.clone()),
        }
    }
}

} // verus!
