//! What name resolution hands to the channel: addresses, endpoints and
//! resolver updates.
//!
//! An address is identified by its type and its text, an endpoint by the
//! identities of its addresses in order. Attributes are carried along and
//! never compared.

use crate::attributes::Attributes;
use crate::error::LbError;
use std::sync::Arc;
use tokio::sync::Notify;
use vstd::prelude::*;
use vstd::std_specs::cmp::PartialEqSpecImpl;
use vstd::string::{StrSliceExecFns, StringExecFns};

pub mod registry;

pub use registry::{ResolverRegistry, SharedResolverBuilder};

verus! {

/// The address type of plain TCP/IP addresses.
pub const TCP_IP_ADDRESS_TYPE: &'static str = "tcp";

/// The scheme and the path of the URL that `text` denotes, or `None` if
/// `text` is not an absolute URL.
pub uninterp spec fn url_parts(text: Seq<char>) -> Option<(Seq<char>, Seq<char>)>;

/// Parses `text` as an absolute URL and hands out its scheme and its path:
/// calls of `url::Url::parse`, `scheme` and `path`. On failure the text of
/// the error is handed out.
#[verifier::external_body]
fn parse_url(text: &str) -> (parts: Result<(String, String), String>)
    ensures
        match parts {
            Ok(found) => url_parts(text@) == Some((found.0@, found.1@)),
            Err(_) => url_parts(text@) is None,
        },
{
    match url::Url::parse(text) {
        Ok(url) => Ok((url.scheme().to_string(), url.path().to_string())),
        Err(error) => Err(error.to_string()),
    }
}

/// The destination of a channel: what the channel reads of its target URL.
#[derive(Debug)]
pub struct Target {
    /// The scheme of the URL, which selects the name resolver.
    pub scheme: String,
    /// The path of the URL, which the name resolver interprets.
    pub path: String,
}

impl Target {
    /// Reads a target from the text of a URL. A text that is not an
    /// absolute URL is rejected as `InvalidTarget`.
    pub fn parse(text: &str) -> (target: Result<Target, LbError>)
        ensures
            match target {
                Ok(found) => url_parts(text@) == Some((found.scheme@, found.path@)),
                Err(error) => url_parts(text@) is None && error is InvalidTarget,
            },
    {
        match parse_url(text) {
            Ok((scheme, path)) => Ok(Target { scheme, path }),
            Err(detail) => Err(LbError::InvalidTarget(detail)),
        }
    }
}

impl Clone for Target {
    fn clone(&self) -> (copy: Target)
        ensures
            copy == *self,
    {
        Target { scheme: self.scheme.clone(), path: self.path.clone() }
    }
}

/// `path` without its leading slash, if it has one.
pub open spec fn without_leading_slash(path: Seq<char>) -> Seq<char> {
    if path.len() > 0 && path[0] == '/' {
        path.subrange(1, path.len() as int)
    } else {
        path
    }
}

/// Drops the leading slash of `path`, if it has one.
pub fn strip_leading_slash(path: &str) -> (rest: String)
    ensures
        rest@ == without_leading_slash(path@),
{
    let len = path.unicode_len();
    if len > 0 && path.get_char(0) == '/' {
        String::from_str(path.substring_char(1, len))
    } else {
        String::from_str(path)
    }
}

/// Builds name resolvers for one URL scheme.
pub trait ResolverBuilder: Send + Sync {
    /// The kind of resolver that this builder builds.
    type Resolver;

    /// Builds a name resolver for `target`. The resolver resolves again
    /// whenever `resolve_now` is signalled.
    fn build(
        &self,
        target: Target,
        resolve_now: Arc<Notify>,
        options: ResolverOptions,
    ) -> Self::Resolver;

    /// Reports the URL scheme handled by this name resolver.
    fn scheme(&self) -> &'static str;

    /// The default authority for a channel using this name resolver and
    /// target: the path of the target without its leading slash.
    fn default_authority(&self, target: &Target) -> (authority: String)
        default_ensures
            authority@ == without_leading_slash(target.path@),
    {
        strip_leading_slash(target.path.as_str())
    }
}

/// A service config after parsing. Policies do not read it yet; its presence
/// in an update is what they react to.
#[derive(Debug)]
pub struct ParsedServiceConfig {}

/// What identifies an address: its type and its text.
pub type AddressKey = (Seq<char>, Seq<char>);

/// One network location and the transport that can reach it.
#[derive(Debug)]
pub struct Address {
    /// Names the transport that handles this address.
    pub address_type: String,
    /// The location, in a form that the transport understands.
    pub address: String,
    /// Optional data for the subchannel or the transport.
    pub attributes: Attributes,
}

impl Address {
    /// The identity of this address.
    pub open spec fn key(&self) -> AddressKey {
        (self.address_type@, self.address@)
    }

    /// An address of the given type and text, without attributes.
    pub fn new(address_type: String, address: String) -> (result: Address)
        ensures
            result.address_type == address_type,
            result.address == address,
            result.attributes.entries@.len() == 0,
    {
        Address { address_type, address, attributes: Attributes::new() }
    }

    /// The address as text: its type, a colon, and its location.
    pub fn to_text(&self) -> (text: String)
        ensures
            text@ == self.address_type@ + ":"@ + self.address@,
    {
        self.address_type.clone().concat(":").concat(self.address.as_str())
    }
}

impl Clone for Address {
    /// A copy with the same identity and the same attributes.
    fn clone(&self) -> (copy: Address)
        ensures
            copy.address_type == self.address_type,
            copy.address == self.address,
            copy.key() == self.key(),
            copy.attributes.entries@ == self.attributes.entries@,
    {
        Address {
            address_type: self.address_type.clone(),
            address: self.address.clone(),
            attributes: self.attributes.clone(),
        }
    }
}

impl PartialEq for Address {
    /// Two addresses are equal when their types and their texts are.
    fn eq(&self, other: &Address) -> (equal: bool) {
        self.address_type == other.address_type && self.address == other.address
    }
}

impl PartialEqSpecImpl for Address {
    open spec fn obeys_eq_spec() -> bool {
        true
    }

    open spec fn eq_spec(&self, other: &Address) -> bool {
        self.key() == other.key()
    }
}

impl Eq for Address {}

/// The identities of the given addresses, in order.
pub open spec fn address_keys(addresses: Seq<Address>) -> Seq<AddressKey> {
    Seq::new(addresses.len(), |i: int| addresses[i].key())
}

/// Interchangeable addresses of one logical destination.
#[derive(Debug)]
pub struct Endpoint {
    /// The addresses, in the order in which they should be tried.
    pub addresses: Vec<Address>,
    /// Optional data for the policy.
    pub attributes: Attributes,
}

impl Endpoint {
    /// The identity of this endpoint: the identities of its addresses, in
    /// order.
    pub open spec fn key(&self) -> Seq<AddressKey> {
        address_keys(self.addresses@)
    }

    /// An endpoint over the given addresses, without attributes.
    pub fn new(addresses: Vec<Address>) -> (result: Endpoint)
        ensures
            result.addresses == addresses,
            result.attributes.entries@.len() == 0,
    {
        Endpoint { addresses, attributes: Attributes::new() }
    }
}

impl Clone for Endpoint {
    /// A copy with the same addresses, in the same order, and the same
    /// attributes.
    fn clone(&self) -> (copy: Endpoint)
        ensures
            copy.key() == self.key(),
            copy.attributes.entries@ == self.attributes.entries@,
            copy.addresses@.len() == self.addresses@.len(),
            forall|i: int|
                0 <= i < self.addresses@.len() ==> {
                    &&& (#[trigger] copy.addresses@[i]).address_type
                        == self.addresses@[i].address_type
                    &&& copy.addresses@[i].address == self.addresses@[i].address
                    &&& copy.addresses@[i].attributes.entries@
                        == self.addresses@[i].attributes.entries@
                },
    {
        let mut addresses: Vec<Address> = Vec::new();
        let n: usize = self.addresses.len();
        for i in 0..n
            invariant
                n == self.addresses@.len(),
                addresses@.len() == i,
                forall|j: int|
                    0 <= j < i ==> {
                        &&& (#[trigger] addresses@[j]).address_type
                            == self.addresses@[j].address_type
                        &&& addresses@[j].address == self.addresses@[j].address
                        &&& addresses@[j].attributes.entries@
                            == self.addresses@[j].attributes.entries@
                    },
        {
            addresses.push(self.addresses[i].clone());
        }
        let copy = Endpoint { addresses, attributes: self.attributes.clone() };
        proof {
            assert(copy.key() =~= self.key());
        }
        copy
    }
}

impl PartialEq for Endpoint {
    /// Two endpoints are equal when they list equal addresses in the same
    /// order.
    fn eq(&self, other: &Endpoint) -> (equal: bool) {
        let n: usize = self.addresses.len();
        if n != other.addresses.len() {
            proof {
                assert(self.key().len() != other.key().len());
            }
            return false;
        }
        for i in 0..n
            invariant
                n == self.addresses@.len(),
                n == other.addresses@.len(),
                forall|j: int| 0 <= j < i ==> self.key()[j] == other.key()[j],
        {
            if !(self.addresses[i] == other.addresses[i]) {
                proof {
                    assert(self.key()[i as int] != other.key()[i as int]);
                }
                return false;
            }
        }
        proof {
            assert(self.key() =~= other.key());
        }
        true
    }
}

impl PartialEqSpecImpl for Endpoint {
    open spec fn obeys_eq_spec() -> bool {
        true
    }

    open spec fn eq_spec(&self, other: &Endpoint) -> bool {
        self.key() == other.key()
    }
}

impl Eq for Endpoint {}

/// What the name resolver found.
#[derive(Debug)]
pub struct ResolverData {
    /// The endpoints of the target, in the resolver's order.
    pub endpoints: Vec<Endpoint>,
    /// The service config that came with them, if any.
    pub service_config: Option<ParsedServiceConfig>,
    /// Optional data for the policy or the channel.
    pub attributes: Attributes,
}

impl ResolverData {
    /// Resolver data over the given endpoints, without a service config and
    /// without attributes.
    pub fn new(endpoints: Vec<Endpoint>) -> (data: ResolverData)
        ensures
            data.endpoints == endpoints,
            data.service_config is None,
            data.attributes.entries@.len() == 0,
    {
        ResolverData { endpoints, service_config: None, attributes: Attributes::new() }
    }
}

impl Default for ResolverData {
    /// Resolver data without endpoints.
    fn default() -> (data: ResolverData)
        ensures
            data.endpoints@.len() == 0,
            data.service_config is None,
            data.attributes.entries@.len() == 0,
    {
        ResolverData { endpoints: Vec::new(), service_config: None, attributes: Attributes::new() }
    }
}

/// One message of the name resolver to the channel.
#[derive(Debug)]
pub enum ResolverUpdate {
    /// The name resolver encountered an error.
    Failure(LbError),
    /// The name resolver produced a result.
    Data(ResolverData),
}

/// Settings for building a name resolver.
#[derive(Debug)]
pub struct ResolverOptions {
    authority: String,
}

impl ResolverOptions {
    /// The authority that the resolver should assume.
    pub closed spec fn authority_spec(&self) -> Seq<char> {
        self.authority@
    }

    /// Options with the given authority.
    pub fn new(authority: String) -> (options: ResolverOptions)
        ensures
            options.authority_spec() == authority@,
    {
        ResolverOptions { authority }
    }

    /// The authority that the resolver should assume.
    pub fn authority(&self) -> (authority: &String)
        ensures
            authority@ == self.authority_spec(),
    {
        &self.authority
    }
}

impl Default for ResolverOptions {
    /// Options with an empty authority.
    fn default() -> (options: ResolverOptions)
        ensures
            options.authority_spec().len() == 0,
    {
        ResolverOptions { authority: String::new() }
    }
}

} // verus!
