//! The pick-first policy: connect to the addresses of the first endpoint one
//! after another and route every call to the first subchannel that becomes
//! ready.

use crate::client::connectivity::ConnectivityState;
use crate::client::load_balancing::child_manager::{has_heard, Child, ChildState};
use crate::client::load_balancing::registry::LbPolicyRegistry;
use crate::client::load_balancing::{
    is_publication, one_more, removals, remove_subchannels, subchannel_ids, ChannelController,
    ChannelOperations, LbConfig, LbPolicy, LbPolicyBuilder, LbPolicyOptions, LbState, Pick,
    PickResult, Picker, QueuingOr, Subchannel, SubchannelState, WorkScheduler,
};
use crate::client::name_resolution::{Address, ResolverUpdate};
use crate::error::LbError;
use crate::sequence::{first_index, lemma_first_index_unique};
use crate::service::Request;
use rand::seq::SliceRandom;
use serde_json::Value;
use vstd::prelude::*;
use vstd::string::StringExecFns;

verus! {

/// The name under which the policy is registered.
pub const POLICY_NAME: &'static str = "pick_first";

/// The key of the one setting that the policy's configuration knows.
pub const SHUFFLE_ADDRESS_LIST_KEY: &'static str = "shuffleAddressList";

/// How long after a resolver update the policy wants `work` to be called, in
/// milliseconds.
pub const NEXT_ADDRESS_DELAY_MILLIS: u64 = 200;

/// A parsed JSON document. The library asks it questions through the
/// wrappers below and never looks inside.
#[verifier::external_type_specification]
#[verifier::external_body]
pub struct ExJsonValue(Value);

/// Why a text is not a JSON document.
#[verifier::external_type_specification]
#[verifier::external_body]
pub struct ExJsonError(serde_json::Error);

/// What a JSON value is, as far as a configuration is concerned.
pub enum JsonModel {
    /// The literal `null`.
    Null,
    /// `true` or `false`.
    Bool(bool),
    /// An object, with the value of each member by name.
    Object(Map<Seq<char>, JsonModel>),
    /// A number, a string or an array.
    Other,
}

/// The JSON document that a text denotes, or `None` if the text is not one
/// JSON document.
pub uninterp spec fn json_parse(text: Seq<char>) -> Option<JsonModel>;

/// What the parsed document `value` holds.
pub uninterp spec fn json_model(value: Value) -> JsonModel;

/// Parses `text` as one JSON document: a call of `serde_json::from_str`. It
/// succeeds exactly on the texts that denote a document, and the value then
/// holds that document.
#[verifier::external_body]
fn parse_json(text: &str) -> (parsed: Result<Value, serde_json::Error>)
    ensures
        match parsed {
            Ok(value) => json_parse(text@) == Some(json_model(value)),
            Err(_) => json_parse(text@) is None,
        },
{
    serde_json::from_str::<Value>(text)
}

/// Whether `value` is an object: a call of `serde_json::Value::is_object`.
#[verifier::external_body]
fn json_is_object(value: &Value) -> (object: bool)
    ensures
        object == (json_model(*value) is Object),
{
    value.is_object()
}

/// The member `key` of `value`: a call of `serde_json::Value::get` with a
/// string index, which finds a member only in an object that has one of that
/// name.
#[verifier::external_body]
fn json_member<'a>(value: &'a Value, key: &str) -> (member: Option<&'a Value>)
    ensures
        match member {
            Some(found) => json_model(*value) is Object
                && json_model(*value)->Object_0.contains_key(
                key@,
            ) && json_model(*found) == json_model(*value)->Object_0[key@],
            None => !(json_model(*value) is Object && json_model(*value)->Object_0.contains_key(
                key@,
            )),
        },
{
    value.get(key)
}

/// Whether `value` is `null`: a call of `serde_json::Value::is_null`.
#[verifier::external_body]
fn json_is_null(value: &Value) -> (null: bool)
    ensures
        null == (json_model(*value) is Null),
{
    value.is_null()
}

/// The boolean that `value` is, if it is one: a call of
/// `serde_json::Value::as_bool`.
#[verifier::external_body]
fn json_as_bool(value: &Value) -> (boolean: Option<bool>)
    ensures
        boolean == (match json_model(*value) {
            JsonModel::Bool(b) => Some(b),
            _ => None,
        }),
{
    value.as_bool()
}

/// Reorders `addresses` at random: a call of
/// `rand::seq::SliceRandom::shuffle` with the thread's generator. Whatever
/// the order, no address is gained or lost.
#[verifier::external_body]
fn shuffle_addresses(addresses: &mut Vec<Address>)
    ensures
        final(addresses)@.to_multiset() == old(addresses)@.to_multiset(),
{
    let mut rng = rand::thread_rng();
    addresses.shuffle(&mut rng);
}

/// The configuration of the policy: `{"shuffleAddressList": bool}`, the one
/// member being optional.
#[derive(Debug)]
pub struct LbPolicyConfig {
    /// Whether to try the addresses in random order. Absent means no.
    pub shuffle_address_list: Option<bool>,
}

impl LbConfig for LbPolicyConfig {

}

/// The configuration that a JSON document stands for, or `None` if the
/// document is not a configuration of this policy: it must be an object,
/// and its member `shuffleAddressList`, if present and not `null`, a
/// boolean. Other members are ignored.
pub open spec fn config_of(document: JsonModel) -> Option<LbPolicyConfig> {
    match document {
        JsonModel::Object(members) => {
            if !members.contains_key(SHUFFLE_ADDRESS_LIST_KEY@) {
                Some(LbPolicyConfig { shuffle_address_list: None })
            } else {
                match members[SHUFFLE_ADDRESS_LIST_KEY@] {
                    JsonModel::Null => Some(LbPolicyConfig { shuffle_address_list: None }),
                    JsonModel::Bool(b) => Some(LbPolicyConfig { shuffle_address_list: Some(b) }),
                    _ => None,
                }
            }
        },
        _ => None,
    }
}

/// Reads the policy's configuration out of a parsed JSON document.
pub fn config_from_json(document: &Value) -> (config: Result<LbPolicyConfig, LbError>)
    ensures
        match config {
            Ok(parsed) => config_of(json_model(*document)) == Some(parsed),
            Err(error) => config_of(json_model(*document)) is None && error is ConfigParse,
        },
{
    if !json_is_object(document) {
        return Err(LbError::ConfigParse(String::from_str("expected a JSON object")));
    }
    match json_member(document, SHUFFLE_ADDRESS_LIST_KEY) {
        None => Ok(LbPolicyConfig { shuffle_address_list: None }),
        Some(member) => {
            if json_is_null(member) {
                Ok(LbPolicyConfig { shuffle_address_list: None })
            } else {
                match json_as_bool(member) {
                    Some(shuffle) => Ok(LbPolicyConfig { shuffle_address_list: Some(shuffle) }),
                    None => Err(
                        LbError::ConfigParse(
                            String::from_str("shuffleAddressList: expected a boolean"),
                        ),
                    ),
                }
            }
        },
    }
}

/// Whether a policy with this configuration shuffles the addresses.
pub open spec fn shuffles(config: Option<&LbPolicyConfig>) -> bool {
    match config {
        Some(c) => c.shuffle_address_list == Some(true),
        None => false,
    }
}

/// Routes every call to one subchannel.
#[derive(Debug)]
pub struct OneSubchannelPicker {
    /// The subchannel that every call goes to.
    pub sc: Subchannel,
}

impl Picker for OneSubchannelPicker {
    open spec fn picks(&self, request: &Request, result: &PickResult) -> bool {
        result matches PickResult::Subchannel(pick) && pick.subchannel == self.sc
            && pick.on_complete is None && pick.metadata is None
    }

    fn pick(&self, request: &Request) -> (result: PickResult) {
        PickResult::Subchannel(Pick { subchannel: self.sc.clone(), on_complete: None,
            metadata: None })
    }
}

/// What the pick-first policy publishes: one subchannel, or the queuing
/// picker while it has none to offer.
pub type PickFirstPicker = QueuingOr<OneSubchannelPicker>;

/// The position of the first of `subchannels` with the given id, or the
/// length of `subchannels` if none has it.
pub open spec fn first_with_id(subchannels: Seq<Subchannel>, id: u32) -> int {
    first_index(subchannel_ids(subchannels), id)
}

/// The pick-first policy.
pub struct PickFirstPolicy {
    options: LbPolicyOptions,
    subchannels: Vec<Subchannel>,
    next_addresses: Vec<Address>,
    offered: Option<u32>,
}

impl PickFirstPolicy {
    /// What the policy was built with: the scheduler through which it
    /// asks for calls of `work`.
    pub closed spec fn options(&self) -> LbPolicyOptions {
        self.options
    }

    /// The subchannels that the policy has created for the current update,
    /// oldest first.
    pub closed spec fn subchannels(&self) -> Seq<Subchannel> {
        self.subchannels@
    }

    /// The addresses that the policy has not tried yet. The last one is
    /// tried next.
    pub closed spec fn next_addresses(&self) -> Seq<Address> {
        self.next_addresses@
    }

    /// The id of the subchannel that the published picker routes to, if the
    /// policy is offering one.
    pub closed spec fn offered(&self) -> Option<u32> {
        self.offered
    }

    /// Whether the policy publishes anything when it hears of the new state
    /// of `subchannel`: it does when the subchannel is one of its own and
    /// has become `Ready`, or is the one that it is offering.
    pub open spec fn reacts_to(&self, subchannel: &Subchannel, state: &SubchannelState) -> bool {
        let known = first_with_id(self.subchannels(), subchannel.id()) < self.subchannels().len();
        let ready = state.connectivity_state == ConnectivityState::Ready;
        known && (ready || self.offered() == Some(subchannel.id()))
    }

    /// The number of subchannels that the policy holds.
    pub fn subchannel_count(&self) -> (count: usize)
        ensures
            count == self.subchannels().len(),
    {
        self.subchannels.len()
    }

    /// The number of addresses that the policy has not tried yet.
    pub fn pending_address_count(&self) -> (count: usize)
        ensures
            count == self.next_addresses().len(),
    {
        self.next_addresses.len()
    }

    /// The position of the first subchannel of the policy that equals
    /// `subchannel`, or the number of subchannels if none does.
    fn position_of(&self, subchannel: &Subchannel) -> (index: usize)
        ensures
            index == first_with_id(self.subchannels(), subchannel.id()),
            index <= self.subchannels().len(),
    {
        let n: usize = self.subchannels.len();
        let mut i: usize = 0;
        let ghost ids = subchannel_ids(self.subchannels@);
        while i < n
            invariant
                n == self.subchannels@.len(),
                i <= n,
                ids == subchannel_ids(self.subchannels@),
                forall|j: int| 0 <= j < i ==> ids[j] != subchannel.id(),
            decreases n - i,
        {
            if self.subchannels[i] == *subchannel {
                proof {
                    assert(ids[i as int] == subchannel.id());
                    lemma_first_index_unique(ids, subchannel.id(), i as int);
                }
                return i;
            }
            assert(ids[i as int] != subchannel.id());
            i += 1;
        }
        proof {
            lemma_first_index_unique(ids, subchannel.id(), n as int);
        }
        i
    }

    /// Starts over with the given addresses, which are tried from the last
    /// to the first. If the policy is offering a subchannel, it stops: it
    /// publishes `Connecting` with the queuing picker. It lets go of the
    /// subchannels that it holds, creates a subchannel for the last address,
    /// asks it to connect, keeps the other addresses for later calls of
    /// `work`, and asks for such a call. With no address at all nothing
    /// changes.
    pub fn connect_first<C: ChannelController<Picker = PickFirstPicker>>(
        &mut self,
        addresses: Vec<Address>,
        channel_controller: &mut C,
    ) -> (result: Result<(), LbError>)
        ensures
            addresses@.len() == 0 ==> {
                &&& result == Err::<(), LbError>(LbError::NoAddresses)
                &&& *final(self) == *old(self)
                &&& *final(channel_controller) == *old(channel_controller)
            },
            final(self).options() == old(self).options(),
            addresses@.len() > 0 ==> {
                &&& result is Ok
                &&& final(self).subchannels().len() == 1
                &&& final(self).next_addresses() == addresses@.drop_last()
                &&& final(self).offered() is None
                &&& C::keeps_record() ==> is_restart(
                    old(channel_controller).log(),
                    final(channel_controller).log(),
                    old(self).offered() is Some,
                    old(self).subchannels(),
                    addresses@.last(),
                    final(self).subchannels()[0],
                )
            },
    {
        let mut addresses = addresses;
        let address = match addresses.pop() {
            Some(address) => address,
            None => {
                return Err(LbError::NoAddresses);
            },
        };
        let ghost before = channel_controller.log();
        let ghost mut withdrawal: Seq<ChannelOperations<PickFirstPicker>> = Seq::empty();
        if self.offered.is_some() {
            let state = LbState::new(ConnectivityState::Connecting, QueuingOr::Queuing);
            proof {
                withdrawal = seq![ChannelOperations::UpdatePicker(state)];
            }
            channel_controller.update_picker(state);
            self.offered = None;
        }
        proof {
            if C::keeps_record() {
                assert(channel_controller.log() =~= before + withdrawal);
            }
        }
        remove_subchannels(&self.subchannels, channel_controller);
        let sc = channel_controller.new_subchannel(&address);
        proof {
            assert(is_withdrawal(withdrawal, old(self).offered() is Some));
            if C::keeps_record() {
                assert(channel_controller.log() =~= before + withdrawal + removals::<
                    PickFirstPicker,
                >(old(self).subchannels()) + seq![
                    ChannelOperations::CreateSubchannel(address, sc),
                ]);
                assert(is_restart(
                    before,
                    channel_controller.log(),
                    old(self).offered() is Some,
                    old(self).subchannels(),
                    address,
                    sc,
                ));
            }
        }
        self.subchannels = vec![sc.clone()];
        sc.connect();
        self.next_addresses = addresses;
        self.options.work_scheduler.schedule_work_after(NEXT_ADDRESS_DELAY_MILLIS);
        Ok(())
    }
}

/// Whether the requests from `before` to `after` are those of a policy that
/// starts over: if it was offering a subchannel, it first publishes
/// `Connecting` with the queuing picker; then it lets go of the subchannels
/// that it held, in order; then it creates `subchannel` for `address`.
pub open spec fn is_restart(
    before: Seq<ChannelOperations<PickFirstPicker>>,
    after: Seq<ChannelOperations<PickFirstPicker>>,
    was_offering: bool,
    held: Seq<Subchannel>,
    address: Address,
    subchannel: Subchannel,
) -> bool {
    exists|withdrawal: Seq<ChannelOperations<PickFirstPicker>>|
        {
            &&& #[trigger] is_withdrawal(withdrawal, was_offering)
            &&& after == before + withdrawal + removals::<PickFirstPicker>(held) + seq![
                ChannelOperations::CreateSubchannel(address, subchannel),
            ]
        }
}

/// Whether `withdrawal` is what a policy publishes to stop offering a
/// subchannel: `Connecting` with the queuing picker if it was offering one,
/// and nothing if it was not.
pub open spec fn is_withdrawal(
    withdrawal: Seq<ChannelOperations<PickFirstPicker>>,
    was_offering: bool,
) -> bool {
    if was_offering {
        withdrawal.len() == 1 && is_publication(
            withdrawal[0],
            ConnectivityState::Connecting,
            QueuingOr::<OneSubchannelPicker>::Queuing,
        )
    } else {
        withdrawal.len() == 0
    }
}

/// Whether `order` is an order in which a policy may try the addresses
/// `given`: the same addresses, and unless it shuffles, in the given order.
pub open spec fn is_attempt_order(order: Seq<Address>, given: Seq<Address>, shuffle: bool) -> bool {
    order.to_multiset() == given.to_multiset() && (!shuffle ==> order == given)
}

impl LbPolicy for PickFirstPolicy {
    type Picker = PickFirstPicker;

    type Config = LbPolicyConfig;

    /// The update is rejected, and nothing changes, if it is a resolution
    /// failure (`Unhandled`), has no endpoint (`NoEndpoints`), or its first
    /// endpoint has no address (`NoAddresses`). Otherwise the policy starts
    /// over with the addresses of the first endpoint, in an order that the
    /// configuration allows.
    open spec fn on_resolver_update(
        &self,
        update: ResolverUpdate,
        config: Option<&LbPolicyConfig>,
        requests: Option<Seq<ChannelOperations<PickFirstPicker>>>,
        after: &PickFirstPolicy,
        requests_after: Option<Seq<ChannelOperations<PickFirstPicker>>>,
        result: Result<(), LbError>,
    ) -> bool {
        &&& after.options() == self.options()
        &&& requests_after is Some == requests is Some
        &&& update is Failure ==> result == Err::<(), LbError>(LbError::Unhandled)
        &&& update matches ResolverUpdate::Data(data) ==> (data.endpoints@.len() == 0 ==> result
            == Err::<(), LbError>(LbError::NoEndpoints))
        &&& update matches ResolverUpdate::Data(data) ==> (data.endpoints@.len() > 0
            && data.endpoints@[0].addresses@.len() == 0 ==> result == Err::<(), LbError>(
            LbError::NoAddresses,
        ))
        &&& result is Err ==> *after == *self && requests_after == requests
        &&& update matches ResolverUpdate::Data(data) ==> (data.endpoints@.len() > 0
            && data.endpoints@[0].addresses@.len() > 0 ==> {
            &&& result is Ok
            &&& after.subchannels().len() == 1
            &&& after.offered() is None
            &&& exists|order: Seq<Address>|
                {
                    &&& #[trigger] is_attempt_order(
                        order,
                        data.endpoints@[0].addresses@,
                        shuffles(config),
                    )
                    &&& after.next_addresses() == order.drop_last()
                    &&& requests matches Some(log) ==> is_restart(
                        log,
                        requests_after->0,
                        self.offered() is Some,
                        self.subchannels(),
                        order.last(),
                        after.subchannels()[0],
                    )
                }
        })
    }

    /// When the subchannel is one of the policy's and becomes `Ready`, the
    /// policy publishes `Ready` with a picker that routes every call to it.
    /// When the subchannel that is being offered leaves `Ready`, the policy
    /// publishes the new state with the queuing picker, and so stops
    /// offering it. Anything else, and any report on a subchannel that is
    /// not the policy's, is ignored.
    open spec fn on_subchannel_update(
        &self,
        subchannel: &Subchannel,
        state: &SubchannelState,
        requests: Option<Seq<ChannelOperations<PickFirstPicker>>>,
        after: &PickFirstPolicy,
        requests_after: Option<Seq<ChannelOperations<PickFirstPicker>>>,
    ) -> bool {
        let hit = first_with_id(self.subchannels(), subchannel.id());
        let known = hit < self.subchannels().len();
        &&& after.options() == self.options()
        &&& after.subchannels() == self.subchannels()
        &&& after.next_addresses() == self.next_addresses()
        &&& requests_after is Some == requests is Some
        &&& if known && state.connectivity_state == ConnectivityState::Ready {
            &&& after.offered() == Some(subchannel.id())
            &&& requests matches Some(log) ==> {
                &&& one_more(log, requests_after->0)
                &&& is_publication(
                    requests_after->0.last(),
                    ConnectivityState::Ready,
                    QueuingOr::Other(OneSubchannelPicker { sc: self.subchannels()[hit] }),
                )
            }
        } else if known && self.offered() == Some(subchannel.id()) {
            &&& after.offered() is None
            &&& requests matches Some(log) ==> {
                &&& one_more(log, requests_after->0)
                &&& is_publication(
                    requests_after->0.last(),
                    state.connectivity_state,
                    QueuingOr::<OneSubchannelPicker>::Queuing,
                )
            }
        } else {
            &&& after.offered() == self.offered()
            &&& requests_after == requests
        }
    }

    /// With no address left nothing changes. Otherwise the policy creates a
    /// subchannel for the next address, which is the last of those left,
    /// and keeps it with the others.
    open spec fn on_work(
        &self,
        requests: Option<Seq<ChannelOperations<PickFirstPicker>>>,
        after: &PickFirstPolicy,
        requests_after: Option<Seq<ChannelOperations<PickFirstPicker>>>,
    ) -> bool {
        &&& after.options() == self.options()
        &&& after.offered() == self.offered()
        &&& requests_after is Some == requests is Some
        &&& self.next_addresses().len() == 0 ==> {
            &&& *after == *self
            &&& requests_after == requests
        }
        &&& self.next_addresses().len() > 0 ==> {
            &&& after.next_addresses() == self.next_addresses().drop_last()
            &&& after.subchannels().len() == self.subchannels().len() + 1
            &&& after.subchannels().drop_last() == self.subchannels()
            &&& requests matches Some(log) ==> requests_after->0 == log.push(
                ChannelOperations::CreateSubchannel(
                    self.next_addresses().last(),
                    after.subchannels().last(),
                ),
            )
        }
    }

    /// Takes the addresses of the first endpoint, shuffled if the
    /// configuration says so, and starts over with them as `connect_first`
    /// does, as `on_resolver_update` states. A rejected update leaves the
    /// controller as it was.
    fn resolver_update<C: ChannelController<Picker = PickFirstPicker>>(
        &mut self,
        update: ResolverUpdate,
        config: Option<&LbPolicyConfig>,
        channel_controller: &mut C,
    ) -> (result: Result<(), LbError>)
        ensures
            result is Err ==> *final(channel_controller) == *old(channel_controller),
    {
        let data = match update {
            ResolverUpdate::Data(data) => data,
            ResolverUpdate::Failure(_) => {
                return Err(LbError::Unhandled);
            },
        };
        let shuffle = match config {
            Some(config) => match config.shuffle_address_list {
                Some(shuffle) => shuffle,
                None => false,
            },
            None => false,
        };
        let mut endpoints = data.endpoints;
        if endpoints.len() == 0 {
            return Err(LbError::NoEndpoints);
        }
        let first = endpoints.remove(0);
        let mut addresses = first.addresses;
        let ghost given = addresses@;
        if shuffle {
            shuffle_addresses(&mut addresses);
        }
        let ghost order = addresses@;
        proof {
            assert(is_attempt_order(order, given, shuffles(config)));
            order.to_multiset_ensures();
            given.to_multiset_ensures();
        }
        self.connect_first(addresses, channel_controller)
    }

    /// Reacts to a state change of one of the policy's subchannels, as
    /// `on_subchannel_update` states. Where the policy publishes nothing it
    /// leaves the controller as it was.
    fn subchannel_update<C: ChannelController<Picker = PickFirstPicker>>(
        &mut self,
        subchannel: &Subchannel,
        state: &SubchannelState,
        channel_controller: &mut C,
    )
        ensures
            !old(self).reacts_to(subchannel, state) ==> *final(channel_controller)
                == *old(channel_controller),
    {
        let i = self.position_of(subchannel);
        if i == self.subchannels.len() {
            return ;
        }
        if state.connectivity_state == ConnectivityState::Ready {
            let picker = QueuingOr::Other(OneSubchannelPicker { sc: self.subchannels[i].clone() });
            self.offered = Some(subchannel.id());
            channel_controller.update_picker(LbState::new(ConnectivityState::Ready, picker));
            proof {
                if C::keeps_record() {
                    assert(channel_controller.log().drop_last() == old(channel_controller).log());
                }
            }
        } else {
            let offering = match self.offered {
                Some(id) => id == subchannel.id(),
                None => false,
            };
            if offering {
                self.offered = None;
                channel_controller.update_picker(
                    LbState::new(state.connectivity_state, QueuingOr::Queuing),
                );
                proof {
                    if C::keeps_record() {
                        assert(channel_controller.log().drop_last()
                            == old(channel_controller).log());
                    }
                }
            }
        }
    }

    /// Moves on to the next address, if one is left: creates a subchannel
    /// for it, asks it to connect, and keeps it with the others, as
    /// `on_work` states. With no address left it leaves the controller as
    /// it was.
    fn work<C: ChannelController<Picker = PickFirstPicker>>(&mut self, channel_controller: &mut C)
        ensures
            old(self).next_addresses().len() == 0 ==> *final(channel_controller)
                == *old(channel_controller),
    {
        if self.next_addresses.len() == 0 {
            return ;
        }
        match self.next_addresses.pop() {
            Some(address) => {
                let sc = channel_controller.new_subchannel(&address);
                sc.connect();
                self.subchannels.push(sc);
                proof {
                    assert(self.subchannels@.drop_last() == old(self).subchannels@);
                }
            },
            None => {},
        }
    }
}

/// Builds pick-first policies.
#[derive(Debug)]
pub struct Builder {}

impl LbPolicyBuilder for Builder {
    type Policy = PickFirstPolicy;

    open spec fn builds(&self, policy: &PickFirstPolicy) -> bool {
        &&& policy.subchannels().len() == 0
        &&& policy.next_addresses().len() == 0
        &&& policy.offered() is None
    }

    /// A policy that has seen no event yet and asks for work through the
    /// scheduler in `options`.
    fn build(&self, options: LbPolicyOptions) -> (policy: PickFirstPolicy)
        ensures
            policy.options() == options,
    {
        PickFirstPolicy {
            options,
            subchannels: Vec::new(),
            next_addresses: Vec::new(),
            offered: None,
        }
    }

    fn name(&self) -> (name: &'static str)
        ensures
            name@ == POLICY_NAME@,
    {
        POLICY_NAME
    }

    /// Parses a configuration of the form `{"shuffleAddressList": bool}`.
    /// A text that is not JSON, or not a configuration of this policy, is an
    /// error and never a panic.
    fn parse_config(&self, config: &str) -> (parsed: Result<Option<LbPolicyConfig>, LbError>)
        ensures
            match parsed {
                Ok(found) => json_parse(config@) matches Some(document) && found == config_of(
                    document,
                ) && found is Some,
                Err(error) => error is ConfigParse && !(json_parse(config@) matches Some(document)
                    && config_of(document) is Some),
            },
    {
        match parse_json(config) {
            Ok(document) => match config_from_json(&document) {
                Ok(parsed) => Ok(Some(parsed)),
                Err(error) => Err(error),
            },
            Err(error) => Err(LbError::ConfigParse(error.to_string())),
        }
    }
}

/// Registers the pick-first policy under its name.
pub fn reg(registry: &mut LbPolicyRegistry<Builder>)
    ensures
        final(registry)@ == old(registry)@.insert(POLICY_NAME@, std::sync::Arc::new(Builder {  })),
{
    registry.add_builder(Builder {  });
}

/// A pick-first child of a composite that hears that one of its
/// subchannels is `Ready` has `Ready` in its slot afterwards, with a picker
/// that routes every call to that subchannel, and offers the subchannel
/// from then on.
pub proof fn lemma_child_becomes_ready<T>(
    children: Seq<Child<T, PickFirstPolicy>>,
    ownership: Map<u32, usize>,
    child_idx: usize,
    subchannel: Subchannel,
    state: SubchannelState,
    children_after: Seq<Child<T, PickFirstPolicy>>,
    ownership_after: Map<u32, usize>,
)
    requires
        child_idx < children.len(),
        has_heard(
            children,
            ownership,
            child_idx,
            subchannel,
            state,
            children_after,
            ownership_after,
        ),
        state.connectivity_state == ConnectivityState::Ready,
        first_with_id(children[child_idx as int].policy.subchannels(), subchannel.id())
            < children[child_idx as int].policy.subchannels().len(),
    ensures
        children_after[child_idx as int].policy.offered() == Some(subchannel.id()),
        children_after[child_idx as int].state matches ChildState::Published(published) && {
            let own = children[child_idx as int].policy.subchannels();
            &&& published.connectivity_state == ConnectivityState::Ready
            &&& *published.picker == QueuingOr::Other(
                OneSubchannelPicker { sc: own[first_with_id(own, subchannel.id())] },
            )
        },
{
}

/// A pick-first child of a composite that hears that the subchannel that
/// it is offering has left `Ready` has the new state in its slot
/// afterwards, with the queuing picker, and offers nothing.
pub proof fn lemma_child_is_demoted<T>(
    children: Seq<Child<T, PickFirstPolicy>>,
    ownership: Map<u32, usize>,
    child_idx: usize,
    subchannel: Subchannel,
    state: SubchannelState,
    children_after: Seq<Child<T, PickFirstPolicy>>,
    ownership_after: Map<u32, usize>,
)
    requires
        child_idx < children.len(),
        has_heard(
            children,
            ownership,
            child_idx,
            subchannel,
            state,
            children_after,
            ownership_after,
        ),
        state.connectivity_state != ConnectivityState::Ready,
        first_with_id(children[child_idx as int].policy.subchannels(), subchannel.id())
            < children[child_idx as int].policy.subchannels().len(),
        children[child_idx as int].policy.offered() == Some(subchannel.id()),
    ensures
        children_after[child_idx as int].policy.offered() is None,
        children_after[child_idx as int].state matches ChildState::Published(published) && {
            &&& published.connectivity_state == state.connectivity_state
            &&& *published.picker == QueuingOr::<OneSubchannelPicker>::Queuing
        },
{
}

/// A pick-first child of a composite that hears of a subchannel that is
/// not its own, or of a state that it does not react to, stays as it is:
/// its slot and its subchannels are what they were.
pub proof fn lemma_child_ignores<T>(
    children: Seq<Child<T, PickFirstPolicy>>,
    ownership: Map<u32, usize>,
    child_idx: usize,
    subchannel: Subchannel,
    state: SubchannelState,
    children_after: Seq<Child<T, PickFirstPolicy>>,
    ownership_after: Map<u32, usize>,
)
    requires
        child_idx < children.len(),
        has_heard(
            children,
            ownership,
            child_idx,
            subchannel,
            state,
            children_after,
            ownership_after,
        ),
        !children[child_idx as int].policy.reacts_to(&subchannel, &state),
    ensures
        children_after[child_idx as int].state == children[child_idx as int].state,
        children_after[child_idx as int].policy.offered()
            == children[child_idx as int].policy.offered(),
{
}

} // verus!
