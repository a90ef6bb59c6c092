//! One logged-in user: what is known of their rooms, and how their traffic is
//! rewritten.

pub mod commands;
pub mod devices;
pub mod events;
pub mod keys;
pub mod media;
pub mod requests;
pub mod sync;
pub mod verification;

use dashmap::DashMap;
use vstd::prelude::*;
use crate::client::keys::KeyWish;
use crate::config::ServerConfig;
use crate::ids::is_user_id;
use crate::maps::{get_flag, new_flags, new_texts, put_flag, remove_flag};

verus! {

/// Why a client could not be made.
#[derive(Debug, Clone, Copy, PartialEq, Eq, Structural)]
pub enum ClientError {
    /// The user identifier is not one of Matrix.
    InvalidUserId,
}

/// The session of a user.
#[derive(Debug)]
pub struct PanClient {
    pub user_id: String,
    pub device_id: String,
    pub access_token: String,
    server_conf: ServerConfig,
    /// The rooms that are known to be encrypted.
    encrypted_rooms: DashMap<String, bool>,
    /// The running verifications: the flow under the user and device.
    active_sas: DashMap<String, String>,
    /// The verifications that were asked for: the user under the flow.
    pending_requests: DashMap<String, String>,
    /// The requests for room keys that wait for a decision.
    key_wishes: Vec<KeyWish>,
    /// The flows for which an invitation was shown.
    notified_invite: DashMap<String, bool>,
    /// The users and devices for which emoji were shown.
    notified_show: DashMap<String, bool>,
}

/// What a session means.
#[verifier::ext_equal]
pub struct ClientView {
    pub user_id: Seq<char>,
    pub device_id: Seq<char>,
    pub access_token: Seq<char>,
    pub server: crate::config::ServerView,
    pub encrypted_rooms: Set<Seq<char>>,
    pub active_sas: Map<Seq<char>, Seq<char>>,
    pub pending_requests: Map<Seq<char>, Seq<char>>,
    pub key_wishes: Seq<crate::client::keys::WishView>,
    pub notified_invite: Set<Seq<char>>,
    pub notified_show: Set<Seq<char>>,
}

/// The keys under which a map holds a raised flag.
pub open spec fn raised(m: Map<Seq<char>, bool>) -> Set<Seq<char>> {
    Set::new(|k: Seq<char>| m.contains_key(k) && m[k])
}

impl View for PanClient {
    type V = ClientView;

    closed spec fn view(&self) -> ClientView {
        ClientView {
            user_id: self.user_id@,
            device_id: self.device_id@,
            access_token: self.access_token@,
            server: self.server_conf@,
            encrypted_rooms: raised(crate::maps::flags(self.encrypted_rooms)),
            active_sas: crate::maps::texts(self.active_sas),
            pending_requests: crate::maps::texts(self.pending_requests),
            key_wishes: crate::client::keys::wish_views(self.key_wishes@),
            notified_invite: raised(crate::maps::flags(self.notified_invite)),
            notified_show: raised(crate::maps::flags(self.notified_show)),
        }
    }
}

/// A session of which nothing is known yet.
pub open spec fn fresh_client(
    user_id: Seq<char>,
    device_id: Seq<char>,
    access_token: Seq<char>,
    server: crate::config::ServerView,
) -> ClientView {
    ClientView {
        user_id,
        device_id,
        access_token,
        server,
        encrypted_rooms: Set::empty(),
        active_sas: Map::empty(),
        pending_requests: Map::empty(),
        key_wishes: Seq::empty(),
        notified_invite: Set::empty(),
        notified_show: Set::empty(),
    }
}

/// Raises the flag of a key.
fn raise(m: &mut DashMap<String, bool>, key: &str)
    ensures
        raised(crate::maps::flags(*final(m))) == raised(crate::maps::flags(*old(m))).insert(key@),
{
    let ghost before = raised(crate::maps::flags(*m));
    put_flag(m, key.to_owned(), true);
    assert(raised(crate::maps::flags(*m)) =~= before.insert(key@));
}

/// Lowers the flag of a key.
fn lower(m: &mut DashMap<String, bool>, key: &str)
    ensures
        raised(crate::maps::flags(*final(m))) == raised(crate::maps::flags(*old(m))).remove(key@),
{
    let ghost before = raised(crate::maps::flags(*m));
    remove_flag(m, key);
    assert(raised(crate::maps::flags(*m)) =~= before.remove(key@));
}

/// Whether the flag of a key is raised.
fn is_raised(m: &DashMap<String, bool>, key: &str) -> (r: bool)
    ensures
        r == raised(crate::maps::flags(*m)).contains(key@),
{
    match get_flag(m, key) {
        Some(b) => b,
        None => false,
    }
}

impl PanClient {
    /// A new session. The user identifier must be one of Matrix.
    pub fn new(
        user_id: String,
        device_id: String,
        access_token: String,
        server_conf: ServerConfig,
    ) -> (r: Result<PanClient, ClientError>)
        ensures
            r is Ok <==> crate::ids::user_id_valid(user_id@),
            crate::ids::plain_user_id(user_id@) ==> r is Ok,
            r matches Ok(c) ==> c@ == fresh_client(
                user_id@,
                device_id@,
                access_token@,
                server_conf@,
            ),
    {
        if !is_user_id(user_id.as_str()) {
            return Err(ClientError::InvalidUserId);
        }
        let c = PanClient {
            user_id,
            device_id,
            access_token,
            server_conf,
            encrypted_rooms: new_flags(),
            active_sas: new_texts(),
            pending_requests: new_texts(),
            key_wishes: Vec::new(),
            notified_invite: new_flags(),
            notified_show: new_flags(),
        };
        assert(c@ =~= fresh_client(user_id@, device_id@, access_token@, server_conf@));
        Ok(c)
    }

    /// The user of the session.
    pub fn user(&self) -> (r: &str)
        ensures
            r@ == self@.user_id,
    {
        self.user_id.as_str()
    }

    /// The access token of the session.
    pub fn token(&self) -> (r: &str)
        ensures
            r@ == self@.access_token,
    {
        self.access_token.as_str()
    }

    /// The name of the server that the session is on.
    pub fn server_name(&self) -> (r: &str)
        ensures
            r@ == self@.server.name,
    {
        self.server_conf.name.as_str()
    }

    /// The URL of the homeserver.
    pub fn homeserver(&self) -> (r: &str)
        ensures
            r@ == self@.server.homeserver,
    {
        self.server_conf.homeserver.as_str()
    }

    /// Whether messages leave although devices are unverified.
    pub fn ignores_verification(&self) -> (r: bool)
        ensures
            r == self@.server.ignore_verification,
    {
        self.server_conf.ignore_verification
    }

    /// Whether an invitation was shown.
    fn was_invited(&self, transaction_id: &str) -> (r: bool)
        ensures
            r == self@.notified_invite.contains(transaction_id@),
    {
        is_raised(&self.notified_invite, transaction_id)
    }

    /// Notes that an invitation was shown.
    fn mark_invited(&mut self, transaction_id: &str)
        ensures
            final(self)@ == (ClientView {
                notified_invite: old(self)@.notified_invite.insert(transaction_id@),
                ..old(self)@
            }),
    {
        raise(&mut self.notified_invite, transaction_id);
    }

    /// Notes that a room is encrypted.
    pub fn mark_room_encrypted(&mut self, room_id: &str)
        ensures
            final(self)@ == (ClientView {
                encrypted_rooms: old(self)@.encrypted_rooms.insert(room_id@),
                ..old(self)@
            }),
    {
        raise(&mut self.encrypted_rooms, room_id);
    }

    /// Whether a room is known to be encrypted.
    pub fn is_room_encrypted(&self, room_id: &str) -> (r: bool)
        ensures
            r == self@.encrypted_rooms.contains(room_id@),
    {
        is_raised(&self.encrypted_rooms, room_id)
    }
}

} // verus!
