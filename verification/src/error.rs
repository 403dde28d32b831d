//! The error taxonomy of the library: precondition failures, not-found
//! conditions, corrupt-state decode failures and the booking service's
//! own validation answers are told apart so that a caller can decide
//! whether to correct its input or give up.

use vstd::prelude::*;

use crate::serveme::{serveme_message_seq, ServemeError};

verus! {

/// Everything that can go wrong inside the scheduling core.
///
/// Transport failures of external collaborators (the league API, the chat
/// platform, the database) are mapped by the surrounding plumbing onto
/// `External`; the booking service's per-field validation errors arrive
/// verbatim as `Serveme`; all other variants are raised by the library
/// itself and say exactly which rule was violated.
#[derive(Clone, Debug, PartialEq, Eq)]
pub enum BotError {
    /// A stored row's nullable columns match neither or both detail shapes,
    /// or both server-assignment shapes: corrupt state, never coerced.
    InvalidGameDetails,
    /// A connect string did not parse as `connect <addr>; password <pw>`.
    InvalidConnectInfo,
    /// A reservation id string did not parse as a number.
    InvalidReservationId,
    /// A game-server option was neither a reservation id nor connect info.
    InvalidGameServer,
    /// The booking service offered no server in a preferred region.
    NoServemeServers,
    /// A game already exists at that exact timestamp for the team.
    TimeSlotTaken,
    /// No game exists at the requested timestamp for the team.
    GameNotFound,
    /// The game's venue is not a booked reservation.
    GameNotHosted,
    /// The configured team takes part in neither side of the league match.
    TeamNotInMatch,
    /// No league profile could be resolved for the user.
    RglProfileNotFound,
    /// The team has no booking-service API key configured.
    NoServemeApiKey,
    /// Neither the command nor the team configuration names a game format.
    NoGameFormat,
    /// The team has no schedule channel configured.
    NoScheduleChannel,
    /// The team has no league team configured.
    NoRglTeam,
    /// The booking service refused the request, with its per-field
    /// messages.
    Serveme(ServemeError),
    /// An external collaborator failed; the operation was aborted.
    External,
}

impl BotError {
    /// The user-facing description of the error; a booking-service answer
    /// is rendered verbatim, field by field.
    pub fn message(&self) -> (r: String)
        ensures
            self is InvalidGameDetails ==> r@ == "Invalid game details."@,
            self is InvalidConnectInfo ==> r@ == "Invalid connect info."@,
            self is InvalidReservationId ==> r@ == "Invalid reservation ID."@,
            self is InvalidGameServer ==> r@ == "Invalid game server (reservation ID/connect info)."@,
            self is NoServemeServers ==> r@ == "No na.serveme.tf servers found."@,
            self is TimeSlotTaken ==> r@ == "Time slot already taken."@,
            self is GameNotFound ==> r@ == "Game not found."@,
            self is GameNotHosted ==> r@ == "Game not hosted."@,
            self is TeamNotInMatch ==> r@ == "Team not in match."@,
            self is RglProfileNotFound ==> r@ == "RGL.gg profile not found."@,
            self is NoServemeApiKey ==> r@
                == "na.serveme.tf API key not set. Set one with `/config set serveme`."@,
            self is NoGameFormat ==> r@
                == "No game format provided. Either set a default game format with `/config set game-format` or provide one in the command."@,
            self is NoScheduleChannel ==> r@
                == "No schedule channel set. Set one with `/config set schedule-channel`."@,
            self is NoRglTeam ==> r@ == "No RGL team set. Set one with `/config set rgl-team`."@,
            self matches BotError::Serveme(e) ==> r@ == serveme_message_seq(e.fields@),
            self is External ==> r@ == "External service error."@,
    {
        match self {
            BotError::InvalidGameDetails => "Invalid game details.".to_owned(),
            BotError::InvalidConnectInfo => "Invalid connect info.".to_owned(),
            BotError::InvalidReservationId => "Invalid reservation ID.".to_owned(),
            BotError::InvalidGameServer => "Invalid game server (reservation ID/connect info).".to_owned(),
            BotError::NoServemeServers => "No na.serveme.tf servers found.".to_owned(),
            BotError::TimeSlotTaken => "Time slot already taken.".to_owned(),
            BotError::GameNotFound => "Game not found.".to_owned(),
            BotError::GameNotHosted => "Game not hosted.".to_owned(),
            BotError::TeamNotInMatch => "Team not in match.".to_owned(),
            BotError::RglProfileNotFound => "RGL.gg profile not found.".to_owned(),
            BotError::NoServemeApiKey => "na.serveme.tf API key not set. Set one with `/config set serveme`.".to_owned(),
            BotError::NoGameFormat => "No game format provided. Either set a default game format with `/config set game-format` or provide one in the command.".to_owned(),
            BotError::NoScheduleChannel => "No schedule channel set. Set one with `/config set schedule-channel`.".to_owned(),
            BotError::NoRglTeam => "No RGL team set. Set one with `/config set rgl-team`.".to_owned(),
            BotError::Serveme(e) => e.message(),
            BotError::External => "External service error.".to_owned(),
        }
    }
}

} // verus!
