//! What is asked of the RPC endpoint, and what its answers amount to.
use vstd::prelude::*;
use vstd::string::*;

use crate::text::{opt_text, pairs, same_text};

verus! {

/// The method by which the websocket is asked to announce slots.
pub const SUBSCRIBE_METHOD: &'static str = "slotsUpdatesSubscribe";

/// A request to the RPC endpoint.
pub enum RpcRequest {
    /// The leaders of `limit` slots from `start_slot` on.
    SlotLeaders { start_slot: u64, limit: usize },
    /// The current slot.
    Slot,
    /// The current epoch.
    EpochInfo,
    /// The slots of the epoch of `slot` in which `identity` leads.
    LeaderSchedule { slot: u64, identity: String },
    /// The validators.
    ClusterNodes,
}

impl RpcRequest {
    /// The name of the request's method.
    pub open spec fn name(&self) -> Seq<char> {
        match self {
            RpcRequest::SlotLeaders { .. } => "getSlotLeaders"@,
            RpcRequest::Slot => "getSlot"@,
            RpcRequest::EpochInfo => "getEpochInfo"@,
            RpcRequest::LeaderSchedule { .. } => "getLeaderSchedule"@,
            RpcRequest::ClusterNodes => "getClusterNodes"@,
        }
    }

    /// The arguments of the request.
    pub open spec fn arguments(&self) -> Seq<RpcParamView> {
        let processed = ("commitment"@, "processed"@);
        match self {
            RpcRequest::SlotLeaders { start_slot, limit } => seq![
                RpcParamView::Number(*start_slot),
                RpcParamView::Number(*limit as u64),
            ],
            RpcRequest::Slot => seq![RpcParamView::Settings(seq![processed])],
            RpcRequest::EpochInfo => seq![RpcParamView::Settings(seq![processed])],
            RpcRequest::LeaderSchedule { slot, identity } => seq![
                RpcParamView::Number(*slot),
                RpcParamView::Settings(seq![processed, ("identity"@, identity@)]),
            ],
            RpcRequest::ClusterNodes => seq![],
        }
    }

    /// The arguments of the request.
    pub fn params(&self) -> (params: Vec<RpcParam>)
        ensures
            params_view(params@) == self.arguments(),
    {
        let mut params: Vec<RpcParam> = Vec::new();
        match self {
            RpcRequest::SlotLeaders { start_slot, limit } => {
                params.push(RpcParam::Number(*start_slot));
                params.push(RpcParam::Number(*limit as u64));
            },
            RpcRequest::Slot => {
                params.push(processed(None));
            },
            RpcRequest::EpochInfo => {
                params.push(processed(None));
            },
            RpcRequest::LeaderSchedule { slot, identity } => {
                params.push(RpcParam::Number(*slot));
                params.push(processed(Some(identity.as_str())));
            },
            RpcRequest::ClusterNodes => {},
        }
        assert(params_view(params@) =~= self.arguments());
        params
    }

    /// The name of the request's method.
    pub fn method(&self) -> (method: &'static str)
        ensures
            method@ == self.name(),
    {
        match self {
            RpcRequest::SlotLeaders { .. } => "getSlotLeaders",
            RpcRequest::Slot => "getSlot",
            RpcRequest::EpochInfo => "getEpochInfo",
            RpcRequest::LeaderSchedule { .. } => "getLeaderSchedule",
            RpcRequest::ClusterNodes => "getClusterNodes",
        }
    }
}

/// An argument of a request.
pub enum RpcParam {
    Number(u64),
    /// Names and values.
    Settings(Vec<(String, String)>),
}

/// The model of [`RpcParam`].
pub enum RpcParamView {
    Number(u64),
    Settings(Seq<(Seq<char>, Seq<char>)>),
}

impl View for RpcParam {
    type V = RpcParamView;

    open spec fn view(&self) -> RpcParamView {
        match self {
            RpcParam::Number(value) => RpcParamView::Number(*value),
            RpcParam::Settings(settings) => RpcParamView::Settings(pairs(settings@)),
        }
    }
}

/// The models of the arguments.
pub open spec fn params_view(params: Seq<RpcParam>) -> Seq<RpcParamView> {
    Seq::new(params.len(), |i: int| params[i]@)
}

fn processed(identity: Option<&str>) -> (param: RpcParam)
    ensures
        param@ == RpcParamView::Settings(
            match identity {
                Some(identity) => seq![
                    ("commitment"@, "processed"@),
                    ("identity"@, identity@),
                ],
                None => seq![("commitment"@, "processed"@)],
            },
        ),
{
    let mut settings: Vec<(String, String)> = Vec::new();
    settings.push(("commitment".to_owned(), "processed".to_owned()));
    if let Some(identity) = identity {
        settings.push(("identity".to_owned(), identity.to_owned()));
        assert(pairs(settings@) =~= seq![
            ("commitment"@, "processed"@),
            ("identity"@, identity@),
        ]);
    } else {
        assert(pairs(settings@) =~= seq![("commitment"@, "processed"@)]);
    }
    RpcParam::Settings(settings)
}

/// An error that the endpoint reports.
pub struct RpcError {
    pub message: String,
}

/// What came back for a request.
pub enum RpcReply<T> {
    /// Nothing: the request could not be sent, or no answer came.
    NotSent,
    /// An answer with a status that is no success.
    Refused { status: String },
    /// An answer that does not have the shape of one.
    Malformed,
    /// An answer.
    Answer { result: Option<T>, error: Option<RpcError> },
}

/// The text of the failure that a reply amounts to, if it is one.
pub open spec fn failure_of<T>(method: Seq<char>, reply: RpcReply<T>) -> Option<Seq<char>> {
    match reply {
        RpcReply::NotSent => Some("RPC request failed"@),
        RpcReply::Refused { status } => Some(
            "RPC "@ + method + " failed ("@ + status@ + ")"@,
        ),
        RpcReply::Malformed => Some("Invalid RPC response"@),
        RpcReply::Answer { result, error } => match error {
            Some(error) => Some(error.message@),
            None => if result is Some {
                None
            } else {
                Some("RPC "@ + method + " missing result"@)
            },
        },
    }
}

/// What a reply to a request by this method amounts to: its result, or what went
/// wrong. An error counts where there is a result too.
pub fn request_outcome<T>(method: &str, reply: RpcReply<T>) -> (outcome: Result<T, String>)
    ensures
        match outcome {
            Ok(value) => failure_of(method@, reply) is None && reply->result == Some(value),
            Err(message) => failure_of(method@, reply) == Some(message@),
        },
{
    match reply {
        RpcReply::NotSent => Err("RPC request failed".to_owned()),
        RpcReply::Refused { status } => {
            let mut message: String = "RPC ".to_owned();
            message.append(method);
            message.append(" failed (");
            message.append(status.as_str());
            message.append(")");
            Err(message)
        },
        RpcReply::Malformed => Err("Invalid RPC response".to_owned()),
        RpcReply::Answer { result, error } => match error {
            Some(error) => Err(error.message),
            None => match result {
                Some(value) => Ok(value),
                None => {
                    let mut message: String = "RPC ".to_owned();
                    message.append(method);
                    message.append(" missing result");
                    Err(message)
                },
            },
        },
    }
}

/// The current epoch.
#[allow(non_snake_case)]
#[derive(Clone, Copy, Debug, PartialEq, Eq, Structural)]
pub struct EpochInfo {
    pub absoluteSlot: u64,
    pub slotIndex: u64,
    pub slotsInEpoch: u64,
}

/// A validator, as the endpoint lists it.
pub struct ClusterNode {
    pub pubkey: String,
    pub tpu: Option<String>,
}

/// The slots that a schedule gives to a validator: those of its first entry.
pub open spec fn slots_of(
    schedule: Seq<(String, Vec<u64>)>,
    identity: Seq<char>,
) -> Option<Seq<u64>>
    decreases schedule.len(),
{
    if schedule.len() == 0 {
        None
    } else if schedule.first().0@ == identity {
        Some(schedule.first().1@)
    } else {
        slots_of(schedule.drop_first(), identity)
    }
}

fn find_slots(entries: &Vec<(String, Vec<u64>)>, identity: &str) -> (slots: Option<Vec<u64>>)
    ensures
        match slots {
            Some(list) => slots_of(entries@, identity@) == Some(list@),
            None => slots_of(entries@, identity@) is None,
        },
{
    let mut index: usize = 0;
    assert(entries@.skip(0) =~= entries@);
    while index < entries.len()
        invariant
            index <= entries.len(),
            slots_of(entries@, identity@) == slots_of(entries@.skip(index as int), identity@),
        decreases entries.len() - index,
    {
        let entry: &(String, Vec<u64>) = &entries[index];
        assert(entries@.skip(index as int).first() == entries@[index as int]);
        assert(entries@.skip(index as int).drop_first() =~= entries@.skip(index + 1));
        if same_text(entry.0.as_str(), identity) {
            let list: Vec<u64> = entry.1.clone();
            assert(list@ =~= entry.1@);
            return Some(list);
        }
        index = index + 1;
    }
    None
}

/// The slots that a schedule gives to a validator, where there is a schedule and
/// it lists the validator.
pub fn get_leader_schedule(
    schedule: Option<Vec<(String, Vec<u64>)>>,
    identity: &str,
) -> (slots: Option<Vec<u64>>)
    ensures
        match schedule {
            Some(entries) => match slots {
                Some(list) => slots_of(entries@, identity@) == Some(list@),
                None => slots_of(entries@, identity@) is None,
            },
            None => slots is None,
        },
{
    match schedule {
        Some(entries) => find_slots(&entries, identity),
        None => None,
    }
}

/// A message of the websocket.
pub struct JsonRpcEnvelope {
    pub error: Option<RpcError>,
    pub id: Option<u64>,
    pub method: Option<String>,
    pub params: Option<SlotsUpdateParams>,
    pub has_result: bool,
}

/// What a notification carries.
pub struct SlotsUpdateParams {
    pub result: SlotsUpdate,
    pub subscription: u64,
}

/// What happened to a slot.
pub struct SlotsUpdate {
    pub slot: u64,
    pub timestamp: Option<u64>,
    pub update_type: String,
}

/// Whether the update says that the first piece of a slot came in.
pub open spec fn is_first_shred(update_type: Seq<char>) -> bool {
    update_type == "firstShredReceived"@ || update_type == "firstShred"@
}

/// Whether the update says that the first piece of a slot came in.
pub fn is_first_shred_update(update_type: &str) -> (first: bool)
    ensures
        first == is_first_shred(update_type@),
{
    same_text(update_type, "firstShredReceived") || same_text(update_type, "firstShred")
}

/// What the websocket, or the clock beside it, brings up.
pub enum SocketEvent {
    /// It is time for a ping.
    PingDue,
    /// A ping could not be sent.
    PingFailed(String),
    /// The stream has ended.
    Ended,
    /// The stream has failed.
    Broken,
    /// A text, as a message where it can be read as one.
    Text(Option<JsonRpcEnvelope>),
    /// A ping.
    Ping(Vec<u8>),
    /// A ping could not be answered.
    PongFailed(String),
    /// The other side closes.
    Closed(String),
    /// Anything else.
    Other,
}

/// What is to be done about an event of the websocket.
pub enum InformerAction {
    /// Send a ping.
    SendPing,
    /// Send the bytes of a ping back.
    SendPong(Vec<u8>),
    /// Take note that the subscription stands.
    Confirmed,
    /// Take note that a text could not be read.
    Unreadable,
    /// Nothing.
    Ignore,
    /// Take the slot in.
    Update { slot: u64, timestamp: u64 },
    /// Give up, with this error.
    Stop(String),
}

/// The action that a message asks for, where it reports no error.
pub open spec fn message_action(message: JsonRpcEnvelope, now: u64) -> InformerAction {
    if opt_text(message.method) != Some("slotsUpdatesNotification"@) {
        if message.id is Some && message.has_result {
            InformerAction::Confirmed
        } else {
            InformerAction::Ignore
        }
    } else {
        match message.params {
            Some(params) => if is_first_shred(params.result.update_type@) {
                InformerAction::Update {
                    slot: params.result.slot,
                    timestamp: match params.result.timestamp {
                        Some(timestamp) => timestamp,
                        None => now,
                    },
                }
            } else {
                InformerAction::Ignore
            },
            None => InformerAction::Ignore,
        }
    }
}

fn message_step(message: JsonRpcEnvelope, now: u64) -> (action: InformerAction)
    ensures
        match message.error {
            Some(error) => action matches InformerAction::Stop(text) && text@
                == "websocket error: "@ + error.message@,
            None => action == message_action(message, now),
        },
{
    if let Some(error) = &message.error {
        let mut text: String = "websocket error: ".to_owned();
        text.append(error.message.as_str());
        return InformerAction::Stop(text);
    }
    let notification: bool = match &message.method {
        Some(method) => same_text(method.as_str(), "slotsUpdatesNotification"),
        None => false,
    };
    if !notification {
        if message.id.is_some() && message.has_result {
            InformerAction::Confirmed
        } else {
            InformerAction::Ignore
        }
    } else {
        match &message.params {
            Some(params) => if is_first_shred_update(params.result.update_type.as_str()) {
                let timestamp: u64 = match params.result.timestamp {
                    Some(timestamp) => timestamp,
                    None => now,
                };
                InformerAction::Update { slot: params.result.slot, timestamp }
            } else {
                InformerAction::Ignore
            },
            None => InformerAction::Ignore,
        }
    }
}

fn with_detail(text: &str, detail: &str) -> (message: String)
    ensures
        message@ == text@ + detail@,
{
    let mut message: String = text.to_owned();
    message.append(detail);
    message
}

/// What is to be done about an event of the websocket at the time `now`.
pub fn informer_step(event: SocketEvent, now: u64) -> (action: InformerAction)
    ensures
        match event {
            SocketEvent::PingDue => action == InformerAction::SendPing,
            SocketEvent::PingFailed(err) => action matches InformerAction::Stop(text) && text@
                == "failed to send ping: "@ + err@,
            SocketEvent::Ended => action matches InformerAction::Stop(text) && text@
                == "websocket stream ended"@,
            SocketEvent::Broken => action matches InformerAction::Stop(text) && text@
                == "websocket stream error"@,
            SocketEvent::Text(None) => action == InformerAction::Unreadable,
            SocketEvent::Text(Some(message)) => match message.error {
                Some(error) => action matches InformerAction::Stop(text) && text@
                    == "websocket error: "@ + error.message@,
                None => action == message_action(message, now),
            },
            SocketEvent::Ping(bytes) => action == InformerAction::SendPong(bytes),
            SocketEvent::PongFailed(err) => action matches InformerAction::Stop(text) && text@
                == "failed to respond to ping: "@ + err@,
            SocketEvent::Closed(frame) => action matches InformerAction::Stop(text) && text@
                == "websocket closed: "@ + frame@,
            SocketEvent::Other => action == InformerAction::Ignore,
        },
{
    match event {
        SocketEvent::PingDue => InformerAction::SendPing,
        SocketEvent::PingFailed(err) => InformerAction::Stop(
            with_detail("failed to send ping: ", err.as_str()),
        ),
        SocketEvent::Ended => InformerAction::Stop("websocket stream ended".to_owned()),
        SocketEvent::Broken => InformerAction::Stop("websocket stream error".to_owned()),
        SocketEvent::Text(message) => match message {
            Some(message) => message_step(message, now),
            None => InformerAction::Unreadable,
        },
        SocketEvent::Ping(bytes) => InformerAction::SendPong(bytes),
        SocketEvent::PongFailed(err) => InformerAction::Stop(
            with_detail("failed to respond to ping: ", err.as_str()),
        ),
        SocketEvent::Closed(frame) => InformerAction::Stop(
            with_detail("websocket closed: ", frame.as_str()),
        ),
        SocketEvent::Other => InformerAction::Ignore,
    }
}

} // verus!
