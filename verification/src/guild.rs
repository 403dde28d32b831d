//! Per-team configuration and the schedule-publishing state machine: the
//! rendered schedule is edited in place when a published message still
//! exists, re-sent exactly once when it has gone missing, and the new
//! message id is recorded.

use vstd::prelude::*;

use crate::error::BotError;
use crate::game::GameFormat;
use crate::ids::{RglTeamId, ScheduleChannelId, ScheduleMessageId, ServemeApiKey, TeamGuildId};

verus! {

/// A team's (guild's) settings; created lazily on first interaction and
/// mutated by configuration operations.
#[derive(Clone, Debug)]
pub struct TeamGuild {
    pub id: TeamGuildId,
    pub rgl_team_id: Option<RglTeamId>,
    pub game_format: Option<GameFormat>,
    pub schedule_channel_id: Option<ScheduleChannelId>,
    pub schedule_message_id: Option<ScheduleMessageId>,
    pub serveme_api_key: Option<ServemeApiKey>,
}

impl TeamGuild {
    /// A fresh configuration for a team seen for the first time.
    pub fn new(id: TeamGuildId) -> (r: TeamGuild)
        ensures
            r.id == id,
            r.rgl_team_id is None,
            r.game_format is None,
            r.schedule_channel_id is None,
            r.schedule_message_id is None,
            r.serveme_api_key is None,
    {
        TeamGuild {
            id,
            rgl_team_id: None,
            game_format: None,
            schedule_channel_id: None,
            schedule_message_id: None,
            serveme_api_key: None,
        }
    }

    /// The booking-service key, demanded: operations that book a server
    /// need one configured.
    pub fn serveme_api_key(&self) -> (r: Result<&ServemeApiKey, BotError>)
        ensures
            r is Ok <==> self.serveme_api_key is Some,
            r matches Ok(k) ==> self.serveme_api_key matches Some(k2) && k.0@ == k2.0@,
            r is Err ==> r->Err_0 == BotError::NoServemeApiKey,
    {
        match &self.serveme_api_key {
            Some(k) => Ok(k),
            None => Err(BotError::NoServemeApiKey),
        }
    }

    /// The league team, demanded: match operations need one configured.
    pub fn rgl_team_id(&self) -> (r: Result<RglTeamId, BotError>)
        ensures
            r is Ok <==> self.rgl_team_id is Some,
            r matches Ok(t) ==> self.rgl_team_id == Some(t),
            r is Err ==> r->Err_0 == BotError::NoRglTeam,
    {
        match self.rgl_team_id {
            Some(t) => Ok(t),
            None => Err(BotError::NoRglTeam),
        }
    }

    /// The game format for a new scrim: the explicitly given one, else the
    /// team's default, else an error asking for configuration.
    pub fn game_format_or(&self, explicit: Option<GameFormat>) -> (r: Result<GameFormat, BotError>)
        ensures
            explicit matches Some(f) ==> r == Ok::<GameFormat, BotError>(f),
            explicit is None ==> (self.game_format matches Some(f) ==> r == Ok::<
                GameFormat,
                BotError,
            >(f)),
            explicit is None && self.game_format is None ==> r == Err::<GameFormat, BotError>(
                BotError::NoGameFormat,
            ),
    {
        match explicit {
            Some(f) => Ok(f),
            None => match self.game_format {
                Some(f) => Ok(f),
                None => Err(BotError::NoGameFormat),
            },
        }
    }
}

/// One step of publishing the rendered schedule: edit the previously
/// published message, or send a fresh one.
#[derive(Clone, Copy, Debug, PartialEq, Eq, Structural)]
pub enum PublishStep {
    EditExisting(ScheduleChannelId, ScheduleMessageId),
    SendNew(ScheduleChannelId),
}

/// What the chat platform reported back for a publish step.
#[derive(Clone, Copy, Debug, PartialEq, Eq, Structural)]
pub enum PublishEvent {
    /// The edit went through.
    EditOk,
    /// The message to edit no longer exists.
    MessageMissing,
    /// The fresh message was sent, with its id.
    SendOk(ScheduleMessageId),
    /// Any other platform failure.
    Failed,
}

/// Decides the first publish step for a team: without a schedule channel
/// there is nothing to publish; with one, an already-published message is
/// edited, otherwise a fresh message is sent.
pub fn publish_start(guild: &TeamGuild) -> (r: Result<PublishStep, BotError>)
    ensures
        guild.schedule_channel_id is None ==> r == Err::<PublishStep, BotError>(
            BotError::NoScheduleChannel,
        ),
        guild.schedule_channel_id matches Some(c) ==> (guild.schedule_message_id matches Some(m)
            ==> r == Ok::<PublishStep, BotError>(PublishStep::EditExisting(c, m))),
        guild.schedule_channel_id matches Some(c) ==> (guild.schedule_message_id is None ==> r
            == Ok::<PublishStep, BotError>(PublishStep::SendNew(c))),
{
    match guild.schedule_channel_id {
        None => Err(BotError::NoScheduleChannel),
        Some(c) => match guild.schedule_message_id {
            Some(m) => Ok(PublishStep::EditExisting(c, m)),
            None => Ok(PublishStep::SendNew(c)),
        },
    }
}

/// Applies the platform's answer to a publish step. An edit that went
/// through finishes the publish; a missing message is the one swallowed
/// error — the schedule is re-sent, exactly once; a successful send
/// records the fresh message id; anything else aborts the operation.
pub fn publish_next(
    guild: &mut TeamGuild,
    step: PublishStep,
    event: PublishEvent,
) -> (r: Result<Option<PublishStep>, BotError>)
    ensures
        ({
            match (step, event) {
                (PublishStep::EditExisting(_, _), PublishEvent::EditOk) => r == Ok::<
                    Option<PublishStep>,
                    BotError,
                >(None) && *final(guild) == *old(guild),
                (PublishStep::EditExisting(c, _), PublishEvent::MessageMissing) => r == Ok::<
                    Option<PublishStep>,
                    BotError,
                >(Some(PublishStep::SendNew(c))) && *final(guild) == *old(guild),
                (PublishStep::SendNew(_), PublishEvent::SendOk(m)) => {
                    &&& r == Ok::<Option<PublishStep>, BotError>(None)
                    &&& final(guild).schedule_message_id == Some(m)
                    &&& final(guild).id == old(guild).id
                    &&& final(guild).schedule_channel_id == old(guild).schedule_channel_id
                    &&& final(guild).rgl_team_id == old(guild).rgl_team_id
                    &&& final(guild).game_format == old(guild).game_format
                },
                _ => {
                    &&& r == Err::<Option<PublishStep>, BotError>(BotError::External)
                    &&& *final(guild) == *old(guild)
                },
            }
        }),
{
    match (step, event) {
        (PublishStep::EditExisting(_, _), PublishEvent::EditOk) => Ok(None),
        (PublishStep::EditExisting(c, _), PublishEvent::MessageMissing) => Ok(
            Some(PublishStep::SendNew(c)),
        ),
        (PublishStep::SendNew(_), PublishEvent::SendOk(m)) => {
            guild.schedule_message_id = Some(m);
            Ok(None)
        },
        _ => Err(BotError::External),
    }
}

} // verus!
