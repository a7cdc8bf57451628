use vstd::prelude::*;
use vstd::string::StringSliceAdditionalSpecFns;

verus! {

/// The identity provider a player signed in with.
#[derive(Clone, Copy, Debug, PartialEq, Eq, Structural)]
pub enum Provider {
    Google,
    GitLab,
}

/// A registered player.
pub struct Player {
    pub id: u128,
    pub nickname: String,
}

/// What an OpenID Connect provider tells about a player signing in.
pub struct OidcPlayer {
    pub provider: Provider,
    pub subject: String,
    pub email: Option<String>,
    pub email_verified: Option<bool>,
    pub name: Option<String>,
    pub nickname: Option<String>,
    pub preferred_username: Option<String>,
}

impl OidcPlayer {
    /// The nickname a new player gets: the preferred user name, else the nickname,
    /// else the name, else the subject.
    pub open spec fn spec_nickname(&self) -> Seq<char> {
        match self.preferred_username {
            Some(s) => s@,
            None => match self.nickname {
                Some(s) => s@,
                None => match self.name {
                    Some(s) => s@,
                    None => self.subject@,
                },
            },
        }
    }

    /// The player may be matched to an existing player by email: the provider gave an
    /// email and said it is verified.
    pub open spec fn spec_email_usable(&self) -> bool {
        self.email is Some && self.email_verified == Some(true)
    }

    /// The nickname a new player gets: the preferred user name, else the nickname,
    /// else the name, else the subject.
    pub fn nickname(&self) -> (r: &str)
        ensures
            r@ == self.spec_nickname(),
    {
        match &self.preferred_username {
            Some(s) => s.as_str(),
            None => match &self.nickname {
                Some(s) => s.as_str(),
                None => match &self.name {
                    Some(s) => s.as_str(),
                    None => self.subject.as_str(),
                },
            },
        }
    }

    fn email_usable(&self) -> (b: bool)
        ensures
            b == self.spec_email_usable(),
    {
        self.email.is_some() && match self.email_verified {
            Some(v) => v,
            None => false,
        }
    }
}

/// Where the sign-in of a player stands. The sign-in runs in one database
/// transaction: it first updates the stored OIDC record of the subject; where there
/// is none, it looks for a player with the same verified email, or else creates a
/// player; then it links a new OIDC record to that player; it ends by committing.
#[derive(Clone, Copy, Debug, PartialEq, Eq, Structural)]
pub enum SignInState {
    /// The OIDC record of the subject is being updated.
    UpdatingRecord,
    /// A player with the same email is being looked for.
    FindingByEmail,
    /// A new player is being created.
    CreatingPlayer,
    /// A new OIDC record is being linked to this player.
    LinkingRecord { player_id: u128 },
    /// The transaction is being committed; this player is the answer.
    Committing { player_id: u128 },
    /// The sign-in is over; this player is the answer.
    Done { player_id: u128 },
}

/// What the database answered to the last action.
#[derive(Clone, Copy, Debug, PartialEq, Eq, Structural)]
pub enum SignInEvent {
    /// A query for at most one player id answered.
    Found(Option<u128>),
    /// The new player was created with this id.
    Created(u128),
    /// A statement without answer (the link, the commit) completed.
    Completed,
}

/// What the database is asked next.
#[derive(Clone, Copy, Debug, PartialEq, Eq, Structural)]
pub enum SignInAction {
    /// Update the stored OIDC record of the subject and return its player id.
    UpdateRecord,
    /// Look for a player whose OIDC record has the same email.
    FindByEmail,
    /// Create a player with the nickname of the OIDC player and return its id.
    CreatePlayer,
    /// Store a new OIDC record for this player.
    LinkRecord { player_id: u128 },
    /// Commit the transaction.
    Commit,
    /// Answer this player id.
    Finish { player_id: u128 },
}

/// The event is an answer to the action that led to `state`.
pub open spec fn sign_in_expects(state: SignInState, event: SignInEvent) -> bool {
    match state {
        SignInState::UpdatingRecord => event is Found,
        SignInState::FindingByEmail => event is Found,
        SignInState::CreatingPlayer => event is Created,
        SignInState::LinkingRecord { .. } => event is Completed,
        SignInState::Committing { .. } => event is Completed,
        SignInState::Done { .. } => false,
    }
}

/// Tells whether the event is an answer to the action that led to `state`.
pub fn sign_in_expects_exec(state: SignInState, event: SignInEvent) -> (b: bool)
    ensures
        b == sign_in_expects(state, event),
{
    match (state, event) {
        (SignInState::UpdatingRecord, SignInEvent::Found(_)) => true,
        (SignInState::FindingByEmail, SignInEvent::Found(_)) => true,
        (SignInState::CreatingPlayer, SignInEvent::Created(_)) => true,
        (SignInState::LinkingRecord { .. }, SignInEvent::Completed) => true,
        (SignInState::Committing { .. }, SignInEvent::Completed) => true,
        _ => false,
    }
}

/// The next state and action of a sign-in, given the database's answer.
pub open spec fn spec_sign_in_step(player: OidcPlayer, state: SignInState, event: SignInEvent) -> (
    SignInState,
    SignInAction,
) {
    match (state, event) {
        (SignInState::UpdatingRecord, SignInEvent::Found(Some(id))) => (
            SignInState::Committing { player_id: id },
            SignInAction::Commit,
        ),
        (SignInState::UpdatingRecord, SignInEvent::Found(None)) => if player.spec_email_usable() {
            (SignInState::FindingByEmail, SignInAction::FindByEmail)
        } else {
            (SignInState::CreatingPlayer, SignInAction::CreatePlayer)
        },
        (SignInState::FindingByEmail, SignInEvent::Found(Some(id))) => (
            SignInState::LinkingRecord { player_id: id },
            SignInAction::LinkRecord { player_id: id },
        ),
        (SignInState::FindingByEmail, SignInEvent::Found(None)) => (
            SignInState::CreatingPlayer,
            SignInAction::CreatePlayer,
        ),
        (SignInState::CreatingPlayer, SignInEvent::Created(id)) => (
            SignInState::LinkingRecord { player_id: id },
            SignInAction::LinkRecord { player_id: id },
        ),
        (SignInState::LinkingRecord { player_id }, _) => (
            SignInState::Committing { player_id },
            SignInAction::Commit,
        ),
        (SignInState::Committing { player_id }, _) => (
            SignInState::Done { player_id },
            SignInAction::Finish { player_id },
        ),
        _ => (state, SignInAction::Commit),
    }
}

/// The first state and action of a sign-in, once the transaction has begun.
pub fn sign_in_start() -> (r: (SignInState, SignInAction))
    ensures
        r == (SignInState::UpdatingRecord, SignInAction::UpdateRecord),
{
    (SignInState::UpdatingRecord, SignInAction::UpdateRecord)
}

/// The next state and action of a sign-in, given the database's answer to the last
/// action.
pub fn sign_in_step(player: &OidcPlayer, state: SignInState, event: SignInEvent) -> (r: (
    SignInState,
    SignInAction,
))
    requires
        sign_in_expects(state, event),
    ensures
        r == spec_sign_in_step(*player, state, event),
{
    match (state, event) {
        (SignInState::UpdatingRecord, SignInEvent::Found(Some(id))) => (
            SignInState::Committing { player_id: id },
            SignInAction::Commit,
        ),
        (SignInState::UpdatingRecord, SignInEvent::Found(None)) => if player.email_usable() {
            (SignInState::FindingByEmail, SignInAction::FindByEmail)
        } else {
            (SignInState::CreatingPlayer, SignInAction::CreatePlayer)
        },
        (SignInState::FindingByEmail, SignInEvent::Found(Some(id))) => (
            SignInState::LinkingRecord { player_id: id },
            SignInAction::LinkRecord { player_id: id },
        ),
        (SignInState::FindingByEmail, SignInEvent::Found(None)) => (
            SignInState::CreatingPlayer,
            SignInAction::CreatePlayer,
        ),
        (SignInState::CreatingPlayer, SignInEvent::Created(id)) => (
            SignInState::LinkingRecord { player_id: id },
            SignInAction::LinkRecord { player_id: id },
        ),
        (SignInState::LinkingRecord { player_id }, _) => (
            SignInState::Committing { player_id },
            SignInAction::Commit,
        ),
        (SignInState::Committing { player_id }, _) => (
            SignInState::Done { player_id },
            SignInAction::Finish { player_id },
        ),
        _ => (state, SignInAction::Commit),
    }
}

/// The answers, in order, that a sign-in gets from a database in which updating the
/// subject's record yields `updated`, looking up the email yields `by_email`, and
/// creating a player yields `created`.
pub open spec fn sign_in_answers(
    player: OidcPlayer,
    updated: Option<u128>,
    by_email: Option<u128>,
    created: u128,
) -> Seq<SignInEvent> {
    match updated {
        Some(id) => seq![SignInEvent::Found(Some(id)), SignInEvent::Completed],
        None => if player.spec_email_usable() {
            match by_email {
                Some(id) => seq![
                    SignInEvent::Found(None),
                    SignInEvent::Found(Some(id)),
                    SignInEvent::Completed,
                    SignInEvent::Completed,
                ],
                None => seq![
                    SignInEvent::Found(None),
                    SignInEvent::Found(None),
                    SignInEvent::Created(created),
                    SignInEvent::Completed,
                    SignInEvent::Completed,
                ],
            }
        } else {
            seq![
                SignInEvent::Found(None),
                SignInEvent::Created(created),
                SignInEvent::Completed,
                SignInEvent::Completed,
            ]
        },
    }
}

/// The player a sign-in answers: the owner of the subject's record; else, with a
/// verified email, a player with that email; else the newly created player.
pub open spec fn sign_in_answer(
    player: OidcPlayer,
    updated: Option<u128>,
    by_email: Option<u128>,
    created: u128,
) -> u128 {
    match updated {
        Some(id) => id,
        None => if player.spec_email_usable() && by_email is Some {
            by_email.unwrap()
        } else {
            created
        },
    }
}

/// Every event is one that the state it meets expects.
pub open spec fn sign_in_accepts(player: OidcPlayer, state: SignInState, events: Seq<SignInEvent>) -> bool
    decreases events.len(),
{
    events.len() == 0 || (sign_in_expects(state, events[0]) && sign_in_accepts(
        player,
        spec_sign_in_step(player, state, events[0]).0,
        events.drop_first(),
    ))
}

/// The state reached and the actions taken when a sign-in in `state` meets `events`.
pub open spec fn sign_in_run(player: OidcPlayer, state: SignInState, events: Seq<SignInEvent>) -> (
    SignInState,
    Seq<SignInAction>,
)
    decreases events.len(),
{
    if events.len() == 0 {
        (state, Seq::empty())
    } else {
        let (next, action) = spec_sign_in_step(player, state, events[0]);
        let (last, actions) = sign_in_run(player, next, events.drop_first());
        (last, seq![action] + actions)
    }
}

/// Whatever the database holds, a sign-in expects each answer it gets, ends done
/// with the answer of [`sign_in_answer`] after a commit, links a new OIDC record to
/// that player exactly when the subject had no record, and creates a player exactly
/// when neither the record nor a verified email found one.
pub proof fn law_sign_in_outcome(player: OidcPlayer, updated: Option<u128>, by_email: Option<u128>, created: u128)
    ensures
        ({
            let events = sign_in_answers(player, updated, by_email, created);
            let answer = sign_in_answer(player, updated, by_email, created);
            let (last, actions) = sign_in_run(player, SignInState::UpdatingRecord, events);
            &&& sign_in_accepts(player, SignInState::UpdatingRecord, events)
            &&& last == SignInState::Done { player_id: answer }
            &&& actions.len() >= 2
            &&& actions[actions.len() - 1] == SignInAction::Finish { player_id: answer }
            &&& actions[actions.len() - 2] == SignInAction::Commit
            &&& actions.contains(SignInAction::LinkRecord { player_id: answer }) <==> updated is None
            &&& actions.contains(SignInAction::CreatePlayer) <==> (updated is None && !(
            player.spec_email_usable() && by_email is Some))
        }),
{
    let events = sign_in_answers(player, updated, by_email, created);
    let answer = sign_in_answer(player, updated, by_email, created);
    reveal_with_fuel(sign_in_run, 6);
    reveal_with_fuel(sign_in_accepts, 6);
    let (last, actions) = sign_in_run(player, SignInState::UpdatingRecord, events);
    match updated {
        Some(id) => {
            assert(actions =~= seq![SignInAction::Commit, SignInAction::Finish { player_id: id }]);
        },
        None => {
            if player.spec_email_usable() {
                match by_email {
                    Some(id) => {
                        assert(actions =~= seq![
                            SignInAction::FindByEmail,
                            SignInAction::LinkRecord { player_id: id },
                            SignInAction::Commit,
                            SignInAction::Finish { player_id: id },
                        ]);
                        assert(actions[1] == SignInAction::LinkRecord { player_id: answer });
                    },
                    None => {
                        assert(actions =~= seq![
                            SignInAction::FindByEmail,
                            SignInAction::CreatePlayer,
                            SignInAction::LinkRecord { player_id: created },
                            SignInAction::Commit,
                            SignInAction::Finish { player_id: created },
                        ]);
                        assert(actions[2] == SignInAction::LinkRecord { player_id: answer });
                        assert(actions[1] == SignInAction::CreatePlayer);
                    },
                }
            } else {
                assert(actions =~= seq![
                    SignInAction::CreatePlayer,
                    SignInAction::LinkRecord { player_id: created },
                    SignInAction::Commit,
                    SignInAction::Finish { player_id: created },
                ]);
                assert(actions[1] == SignInAction::LinkRecord { player_id: answer });
                assert(actions[0] == SignInAction::CreatePlayer);
            }
        },
    }
}

/// When the subject has no stored record, the sign-in looks the email up exactly
/// when the provider gave an email and marked it verified, whichever provider it is;
/// otherwise it goes on to create a player.
pub proof fn law_no_record_looks_up_verified_email(player: OidcPlayer)
    ensures
        spec_sign_in_step(player, SignInState::UpdatingRecord, SignInEvent::Found(None)) == if player.email
            is Some && player.email_verified == Some(true) {
            (SignInState::FindingByEmail, SignInAction::FindByEmail)
        } else {
            (SignInState::CreatingPlayer, SignInAction::CreatePlayer)
        },
{
}

/// The name-based (SHA-1, version 5) UUID of `name` in the nil namespace, as a
/// 128-bit number in big-endian order.
pub uninterp spec fn uuid_v5_in_nil_namespace(name: Seq<u8>) -> u128;

/// Calls `uuid::Uuid::new_v5` with the nil namespace (`Uuid::default()`) and `name`,
/// and reads the result with `Uuid::as_u128`. The result is named, not computed
/// here; as the crate's `Builder::from_sha1_bytes` shows, its version nibble is 5
/// and its variant bits are those of RFC 4122.
#[verifier::external_body]
fn uuid_v5_nil(name: &[u8]) -> (id: u128)
    ensures
        id == uuid_v5_in_nil_namespace(name@),
        (id >> 76u128) & 0xfu128 == 5,
        (id >> 62u128) & 0x3u128 == 2,
{
    uuid::Uuid::new_v5(&uuid::Uuid::default(), name).as_u128()
}

/// The id of the test player called `name`: the version 5 UUID of the name in the
/// nil namespace, the same for the same name every time.
pub fn test_player_id(name: &str) -> (id: u128)
    ensures
        id == uuid_v5_in_nil_namespace(name.spec_bytes()),
        (id >> 76u128) & 0xfu128 == 5,
        (id >> 62u128) & 0x3u128 == 2,
{
    uuid_v5_nil(name.as_bytes())
}

} // verus!
