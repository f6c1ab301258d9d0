//! The decisions of one client session: which client the session speaks
//! for, what to do with each converted request, and what its end means.

use crate::ids::ClientId;
use crate::messages::ClientMessage;
use crate::transform::ClientMessageError;
use vstd::prelude::*;

verus! {

/// What a session does with a converted request.
#[derive(Debug)]
pub enum SessionAction {
    /// Hand the message to the state, then read the next request.
    Handle(ClientMessage),
    /// The request was refused: close the session.
    Stop(ClientMessageError),
}

/// The client a session speaks for after handing on `m`: the registered
/// id after a registration, else the one it had.
pub open spec fn session_client_after(client: Option<ClientId>, m: ClientMessage) -> Option<
    ClientId,
> {
    match m {
        ClientMessage::RegisterClient(reg) => Some(reg.client_id),
        _ => client,
    }
}

/// One step of a session that speaks for `client`, on the conversion of its
/// next request: a refusal keeps the client and stops the session; a
/// message is handed on, and a registration makes the session speak for the
/// registered id, whether or not the registration is accepted.
pub fn session_step(
    client: Option<ClientId>,
    conv: Result<ClientMessage, ClientMessageError>,
) -> (r: (Option<ClientId>, SessionAction))
    ensures
        match conv {
            Err(e) => r.0 == client && r.1 == SessionAction::Stop(e),
            Ok(m) => r.0 == session_client_after(client, m) && r.1 == SessionAction::Handle(m),
        },
{
    match conv {
        Err(e) => (client, SessionAction::Stop(e)),
        Ok(m) => {
            let next = match &m {
                ClientMessage::RegisterClient(reg) => Some(reg.client_id.clone()),
                _ => client,
            };
            (next, SessionAction::Handle(m))
        },
    }
}

/// The message that the end of a session speaks for `client` leads to: the
/// client is disconnected when the session had registered one, else there
/// is nothing to do.
pub fn session_end(client: Option<ClientId>) -> (r: Option<ClientMessage>)
    ensures
        match client {
            Some(c) => r == Some(ClientMessage::DisconnectClient { client_id: c }),
            None => r is None,
        },
{
    match client {
        Some(c) => Some(ClientMessage::DisconnectClient { client_id: c }),
        None => None,
    }
}

/// What the end of a session that speaks for `client` hands to the state:
/// the disconnection of its client, if it has one.
pub open spec fn end_messages(client: Option<ClientId>) -> Seq<ClientMessage> {
    match client {
        Some(c) => seq![ClientMessage::DisconnectClient { client_id: c }],
        None => Seq::empty(),
    }
}

/// The messages that a session speaking for `client` hands to the state,
/// in order, when its requests convert to `convs`: each converted message
/// is handed on until the first refusal or the end of the requests, then
/// the session's end is handed on.
pub open spec fn session_run(
    client: Option<ClientId>,
    convs: Seq<Result<ClientMessage, ClientMessageError>>,
) -> Seq<ClientMessage>
    decreases convs.len(),
{
    if convs.len() == 0 {
        end_messages(client)
    } else {
        match convs[0] {
            Err(_) => end_messages(client),
            Ok(m) => seq![m] + session_run(session_client_after(client, m), convs.drop_first()),
        }
    }
}

/// The converted messages before the first refusal.
pub open spec fn accepted_prefix(convs: Seq<Result<ClientMessage, ClientMessageError>>) -> Seq<
    ClientMessage,
>
    decreases convs.len(),
{
    if convs.len() == 0 {
        Seq::empty()
    } else {
        match convs[0] {
            Err(_) => Seq::empty(),
            Ok(m) => seq![m] + accepted_prefix(convs.drop_first()),
        }
    }
}

/// The client a session speaks for after handing on `ms`, starting from
/// `client`: the last registered id, or `client` when `ms` registers none.
pub open spec fn client_after_all(client: Option<ClientId>, ms: Seq<ClientMessage>) -> Option<
    ClientId,
>
    decreases ms.len(),
{
    if ms.len() == 0 {
        client
    } else {
        client_after_all(session_client_after(client, ms[0]), ms.drop_first())
    }
}

} // verus!
