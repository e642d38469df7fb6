//! Session lifecycle: game states, room settings, and the decisions taken
//! while waiting for peers and while running a rollback session.
use vstd::prelude::*;

verus! {

/// Frames the rollback engine may simulate ahead of the last confirmed
/// input before it stalls.
pub const MAX_PREDICTION_WINDOW: usize = 8;
/// Frames by which local input is deliberately delayed.
pub const INPUT_DELAY: usize = 1;
/// Simulation ticks per second.
pub const FPS: u32 = 60;

/// Failures at the session boundary.
#[derive(Clone, Copy, PartialEq, Eq, Debug, Structural)]
pub enum SessionError {
    /// Invalid frame rate or player count: the session cannot be built.
    ConfigurationError,
    /// A peer could not be added: this attempt is abandoned.
    TransportError,
    /// The prediction window is exhausted: wait for confirmations.
    PredictionStall,
}

/// The game's top-level state.
#[derive(Clone, Copy, PartialEq, Eq, Debug, Hash, Structural)]
pub enum GameState {
    AssetLoading,
    Menu,
    WaitingForPlayers,
    BetweenRound,
    InRound,
    PostMatch,
}

/// What moves the game between states.
#[derive(Clone, Copy, PartialEq, Eq, Debug, Structural)]
pub enum LifecycleEvent {
    AssetsLoaded,
    FindMatch,
    QuitMatchmaking,
    SessionStarted,
    SessionFailed,
    RoundStarted,
    RoundEnded,
    MatchEnded,
    ReturnToMenu,
    Disconnected,
}

/// The lifecycle: assets load once; from the menu a match is sought; once
/// the peers are in, rounds are set up and played until the match ends. A
/// disconnect during a match drops everything and goes back to waiting for
/// players, as does a failed session build. Any other event leaves the
/// state as it is.
pub open spec fn transition_spec(s: GameState, e: LifecycleEvent) -> GameState {
    match (s, e) {
        (GameState::AssetLoading, LifecycleEvent::AssetsLoaded) => GameState::Menu,
        (GameState::Menu, LifecycleEvent::FindMatch) => GameState::WaitingForPlayers,
        (GameState::WaitingForPlayers, LifecycleEvent::QuitMatchmaking) => GameState::Menu,
        (GameState::WaitingForPlayers, LifecycleEvent::SessionStarted) => GameState::BetweenRound,
        (GameState::WaitingForPlayers, LifecycleEvent::SessionFailed) => GameState::WaitingForPlayers,
        (GameState::BetweenRound, LifecycleEvent::RoundStarted) => GameState::InRound,
        (GameState::InRound, LifecycleEvent::RoundEnded) => GameState::BetweenRound,
        (GameState::InRound, LifecycleEvent::MatchEnded) => GameState::PostMatch,
        (GameState::BetweenRound, LifecycleEvent::Disconnected) => GameState::WaitingForPlayers,
        (GameState::InRound, LifecycleEvent::Disconnected) => GameState::WaitingForPlayers,
        (GameState::PostMatch, LifecycleEvent::ReturnToMenu) => GameState::Menu,
        _ => s,
    }
}

/// Applies one lifecycle event.
pub fn next_game_state(s: GameState, e: LifecycleEvent) -> (r: GameState)
    ensures
        r == transition_spec(s, e),
{
    match (s, e) {
        (GameState::AssetLoading, LifecycleEvent::AssetsLoaded) => GameState::Menu,
        (GameState::Menu, LifecycleEvent::FindMatch) => GameState::WaitingForPlayers,
        (GameState::WaitingForPlayers, LifecycleEvent::QuitMatchmaking) => GameState::Menu,
        (GameState::WaitingForPlayers, LifecycleEvent::SessionStarted) => GameState::BetweenRound,
        (GameState::WaitingForPlayers, LifecycleEvent::SessionFailed) => GameState::WaitingForPlayers,
        (GameState::BetweenRound, LifecycleEvent::RoundStarted) => GameState::InRound,
        (GameState::InRound, LifecycleEvent::RoundEnded) => GameState::BetweenRound,
        (GameState::InRound, LifecycleEvent::MatchEnded) => GameState::PostMatch,
        (GameState::BetweenRound, LifecycleEvent::Disconnected) => GameState::WaitingForPlayers,
        (GameState::InRound, LifecycleEvent::Disconnected) => GameState::WaitingForPlayers,
        (GameState::PostMatch, LifecycleEvent::ReturnToMenu) => GameState::Menu,
        _ => s,
    }
}

/// How peers are matched.
#[derive(Clone, Debug)]
pub enum MatchmakeType {
    Matchmake,
    PrivateRoom(String),
}

/// Where and how to find the other players.
#[derive(Clone, Debug)]
pub struct RoomNetworkSettings {
    pub network_type: MatchmakeType,
    pub ip: String,
    pub port: String,
    pub player_count: u32,
}

/// The public matchmaking server.
pub open spec fn public_server() -> Seq<char> {
    "match.gschup.dev"@
}

impl RoomNetworkSettings {
    /// A two-player room on the public matchmaking server.
    pub fn default_matchmake_room() -> (r: RoomNetworkSettings)
        ensures
            r.network_type is Matchmake,
            r.ip@ == public_server(),
            r.port@ == Seq::<char>::empty(),
            r.player_count == 2,
    {
        RoomNetworkSettings {
            network_type: MatchmakeType::Matchmake,
            ip: String::from_str("match.gschup.dev"),
            port: String::new(),
            player_count: 2,
        }
    }

    /// A matchmaking room on a server of one's own.
    pub fn custom_matchmake_room(ip: String, port: String, player_count: u32) -> (r: RoomNetworkSettings)
        ensures
            r.network_type is Matchmake,
            r.ip@ == ip@,
            r.port@ == port@,
            r.player_count == player_count,
    {
        RoomNetworkSettings { network_type: MatchmakeType::Matchmake, ip, port, player_count }
    }

    /// A private room, joined by key, on the public matchmaking server.
    pub fn private_room(room_key: String, player_count: u32) -> (r: RoomNetworkSettings)
        ensures
            r.network_type matches MatchmakeType::PrivateRoom(k) && k@ == room_key@,
            r.ip@ == public_server(),
            r.port@ == Seq::<char>::empty(),
            r.player_count == player_count,
    {
        RoomNetworkSettings {
            network_type: MatchmakeType::PrivateRoom(room_key),
            ip: String::from_str("match.gschup.dev"),
            port: String::new(),
            player_count,
        }
    }

    /// A two-player room on a fixed test server.
    pub fn testing_ip() -> (r: RoomNetworkSettings)
        ensures
            r.network_type is Matchmake,
            r.ip@ == "172.124.208.194"@,
            r.port@ == "6500"@,
            r.player_count == 2,
    {
        RoomNetworkSettings {
            network_type: MatchmakeType::Matchmake,
            ip: String::from_str("172.124.208.194"),
            port: String::from_str("6500"),
            player_count: 2,
        }
    }

    /// A two-player room on a server on this machine.
    pub fn testing_local() -> (r: RoomNetworkSettings)
        ensures
            r.network_type is Matchmake,
            r.ip@ == "127.0.0.1"@,
            r.port@ == "6500"@,
            r.player_count == 2,
    {
        RoomNetworkSettings {
            network_type: MatchmakeType::Matchmake,
            ip: String::from_str("127.0.0.1"),
            port: String::from_str("6500"),
            player_count: 2,
        }
    }

    /// The address of the room on the signalling server:
    /// `ws://{ip}:{port}/{room}?next={player_count}`, where the room is
    /// `mg23` when matchmaking and the key of a private room.
    pub fn room_url(&self) -> (r: String)
        ensures
            r@ == room_url_spec(self.ip@, self.port@, room_name(self.network_type), self.player_count as nat),
    {
        let mut url = String::from_str("ws://");
        url.append(self.ip.as_str());
        url.append(":");
        url.append(self.port.as_str());
        url.append("/");
        match &self.network_type {
            MatchmakeType::Matchmake => url.append("mg23"),
            MatchmakeType::PrivateRoom(key) => url.append(key.as_str()),
        }
        url.append("?next=");
        push_decimal(&mut url, self.player_count);
        url
    }
}

/// A local room with two players.
impl Default for RoomNetworkSettings {
    fn default() -> (r: RoomNetworkSettings)
        ensures
            r.network_type is Matchmake,
            r.ip@ == "127.0.0.1"@,
            r.port@ == "3536"@,
            r.player_count == 2,
    {
        RoomNetworkSettings {
            network_type: MatchmakeType::Matchmake,
            ip: String::from_str("127.0.0.1"),
            port: String::from_str("3536"),
            player_count: 2,
        }
    }
}

pub open spec fn room_name(t: MatchmakeType) -> Seq<char> {
    match t {
        MatchmakeType::Matchmake => "mg23"@,
        MatchmakeType::PrivateRoom(key) => key@,
    }
}

pub open spec fn digit_char(d: nat) -> char {
    ('0' as u32 + d) as char
}

/// The decimal digits of `n`, most significant first.
pub open spec fn decimal(n: nat) -> Seq<char>
    decreases n,
{
    if n < 10 {
        seq![digit_char(n)]
    } else {
        decimal(n / 10) + seq![digit_char(n % 10)]
    }
}

pub open spec fn room_url_spec(ip: Seq<char>, port: Seq<char>, room: Seq<char>, players: nat) -> Seq<char> {
    "ws://"@ + ip + ":"@ + port + "/"@ + room + "?next="@ + decimal(players)
}

fn digit_str(d: u32) -> (r: &'static str)
    requires
        d < 10,
    ensures
        r@ == seq![digit_char(d as nat)],
{
    proof {
        reveal_strlit("0");
        reveal_strlit("1");
        reveal_strlit("2");
        reveal_strlit("3");
        reveal_strlit("4");
        reveal_strlit("5");
        reveal_strlit("6");
        reveal_strlit("7");
        reveal_strlit("8");
        reveal_strlit("9");
    }
    let r = match d {
        0 => "0",
        1 => "1",
        2 => "2",
        3 => "3",
        4 => "4",
        5 => "5",
        6 => "6",
        7 => "7",
        8 => "8",
        _ => "9",
    };
    assert(r@ =~= seq![digit_char(d as nat)]);
    r
}

/// Appends the decimal digits of `n`.
fn push_decimal(s: &mut String, n: u32)
    ensures
        final(s)@ == old(s)@ + decimal(n as nat),
    decreases n,
{
    if n >= 10 {
        push_decimal(s, n / 10);
    }
    s.append(digit_str(n % 10));
    assert(final(s)@ =~= old(s)@ + decimal(n as nat));
}

/// Parameters of a rollback session.
#[derive(Clone, Copy, PartialEq, Eq, Debug, Structural)]
pub struct SessionConfig {
    pub num_players: usize,
    pub max_prediction_window: usize,
    pub input_delay: usize,
    pub fps: u32,
}

/// Whether to keep waiting or to start the session.
#[derive(Clone, Copy, PartialEq, Eq, Debug, Structural)]
pub enum WaitOutcome {
    Waiting,
    Start(SessionConfig),
}

/// The decision taken each time the transport is polled for peers: a room
/// for no players or a zero frame rate cannot make a session; otherwise
/// keep waiting until the configured number of players is connected, then
/// start a session for them with the fixed prediction window and input
/// delay.
pub fn wait_for_players(connected: usize, settings: &RoomNetworkSettings, fps: u32) -> (r: Result<
    WaitOutcome,
    SessionError,
>)
    ensures
        (settings.player_count == 0 || fps == 0) ==> r == Err::<WaitOutcome, SessionError>(
            SessionError::ConfigurationError,
        ),
        (settings.player_count > 0 && fps > 0 && connected < settings.player_count) ==> r == Ok::<
            WaitOutcome,
            SessionError,
        >(WaitOutcome::Waiting),
        (settings.player_count > 0 && fps > 0 && connected >= settings.player_count) ==> r == Ok::<
            WaitOutcome,
            SessionError,
        >(
            WaitOutcome::Start(
                SessionConfig {
                    num_players: settings.player_count as usize,
                    max_prediction_window: MAX_PREDICTION_WINDOW,
                    input_delay: INPUT_DELAY,
                    fps,
                },
            ),
        ),
{
    if settings.player_count == 0 || fps == 0 {
        return Err(SessionError::ConfigurationError);
    }
    if (connected as u64) < (settings.player_count as u64) {
        return Ok(WaitOutcome::Waiting);
    }
    Ok(
        WaitOutcome::Start(
            SessionConfig {
                num_players: settings.player_count as usize,
                max_prediction_window: MAX_PREDICTION_WINDOW,
                input_delay: INPUT_DELAY,
                fps,
            },
        ),
    )
}

/// Whether a new local frame may be simulated: it may while fewer than
/// `window` frames run ahead of the last confirmed one; otherwise the
/// session stalls until confirmations catch up.
pub fn prediction_gate(current_frame: u64, confirmed_frame: u64, window: u64) -> (r: Result<(), SessionError>)
    ensures
        r is Err <==> current_frame >= confirmed_frame + window,
        r is Err ==> r == Err::<(), SessionError>(SessionError::PredictionStall),
{
    if current_frame >= confirmed_frame && current_frame - confirmed_frame >= window {
        Err(SessionError::PredictionStall)
    } else {
        Ok(())
    }
}

/// Where an error at the session boundary leaves the game: an invalid
/// configuration or a transport failure aborts the session being built or
/// run, and the game waits for players again; a prediction stall changes
/// nothing (the frame is simply not advanced yet).
pub open spec fn error_transition_spec(s: GameState, e: SessionError) -> GameState {
    match e {
        SessionError::ConfigurationError => GameState::WaitingForPlayers,
        SessionError::TransportError => GameState::WaitingForPlayers,
        SessionError::PredictionStall => s,
    }
}

/// Turns a session error into the state the game continues in.
pub fn state_after_error(s: GameState, e: SessionError) -> (r: GameState)
    ensures
        r == error_transition_spec(s, e),
{
    match e {
        SessionError::ConfigurationError => GameState::WaitingForPlayers,
        SessionError::TransportError => GameState::WaitingForPlayers,
        SessionError::PredictionStall => s,
    }
}

} // verus!
