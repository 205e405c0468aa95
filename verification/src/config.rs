//! The listener's configuration and the commands that change it.

use vstd::prelude::*;
use crate::filters::timeouts::{timed_out, TimeoutRegistry};

verus! {

/// The token of one user of the listening service.
#[derive(Debug)]
pub struct UserToken {
    /// Name of the user.
    pub username: String,
    /// Token that authorises requests in the user's name.
    pub token: String,
}

/// The token that `tokens` hold for the user `username`, if any; the first
/// entry of the user counts.
pub open spec fn token_of(tokens: Seq<UserToken>, username: Seq<char>) -> Option<Seq<char>>
    decreases tokens.len(),
{
    if tokens.len() == 0 {
        None
    } else if tokens[0].username@ == username {
        Some(tokens[0].token@)
    } else {
        token_of(tokens.drop_first(), username)
    }
}

/// What the listener has configured: tokens by user, and recordings on hold.
#[derive(Debug)]
pub struct Config {
    tokens: Vec<UserToken>,
    timeouts: TimeoutRegistry,
}

impl Config {
    /// The tokens, in the order in which their users first got one.
    pub closed spec fn tokens(&self) -> Seq<UserToken> {
        self.tokens@
    }

    /// The recordings on hold.
    pub closed spec fn timeouts(&self) -> TimeoutRegistry {
        self.timeouts
    }

    /// A configuration with the given tokens and recordings on hold.
    pub fn new(tokens: Vec<UserToken>, timeouts: TimeoutRegistry) -> (config: Self)
        ensures
            config.tokens() == tokens@,
            config.timeouts() == timeouts,
    {
        Config { tokens, timeouts }
    }

    /// The tokens, in the order in which their users first got one.
    pub fn user_tokens(&self) -> (tokens: &Vec<UserToken>)
        ensures
            tokens@ == self.tokens(),
    {
        &self.tokens
    }

    /// The recordings on hold.
    pub fn recording_timeouts(&self) -> (timeouts: &TimeoutRegistry)
        ensures
            *timeouts == self.timeouts(),
    {
        &self.timeouts
    }

    /// The token of the user `username`, if one is configured.
    pub fn get_token(&self, username: &String) -> (token: Option<&String>)
        ensures
            token is Some <==> token_of(self.tokens(), username@) is Some,
            token matches Some(found) ==> Some(found@) == token_of(self.tokens(), username@),
    {
        let mut i: usize = 0;
        assert(self.tokens@.subrange(0, self.tokens@.len() as int) =~= self.tokens@);
        while i < self.tokens.len()
            invariant
                i <= self.tokens.len(),
                token_of(self.tokens@, username@) == token_of(
                    self.tokens@.subrange(i as int, self.tokens@.len() as int),
                    username@,
                ),
            decreases self.tokens.len() - i,
        {
            let ghost rest = self.tokens@.subrange(i as int, self.tokens@.len() as int);
            assert(rest[0] == self.tokens@[i as int]);
            if self.tokens[i].username == *username {
                return Some(&self.tokens[i].token);
            }
            assert(rest.drop_first() =~= self.tokens@.subrange(i + 1, self.tokens@.len() as int));
            i += 1;
        }
        None
    }

    /// Sets the token of the user `username`, in place of the one the user
    /// had. The tokens of other users stay.
    pub fn set_token(&mut self, username: String, token: String)
        ensures
            final(self).timeouts() == old(self).timeouts(),
            token_of(final(self).tokens(), username@) == Some(token@),
            forall|other: Seq<char>|
                other != username@ ==> #[trigger] token_of(final(self).tokens(), other) == token_of(
                    old(self).tokens(),
                    other,
                ),
    {
        let ghost before = self.tokens@;
        let mut i: usize = 0;
        while i < self.tokens.len()
            invariant
                i <= self.tokens.len(),
                self.tokens@ == before,
                before == old(self).tokens@,
                self.timeouts == old(self).timeouts,
                forall|k: int| 0 <= k < i ==> (#[trigger] before[k]).username@ != username@,
            decreases self.tokens.len() - i,
        {
            if self.tokens[i].username == username {
                let ghost name = before[i as int].username;
                self.tokens.remove(i);
                self.tokens.insert(i, UserToken { username, token });
                proof {
                    let after = self.tokens@;
                    assert(after =~= before.update(i as int, UserToken { username, token }));
                    lemma_token_after_update(before, i as int, UserToken { username, token });
                }
                return ;
            }
            i += 1;
        }
        self.tokens.push(UserToken { username, token });
        proof {
            lemma_token_after_push(before, UserToken { username, token });
        }
    }

    /// Puts the recording `mbid` on hold until the moment `until`.
    pub fn set_timeout(&mut self, mbid: String, until: i64)
        ensures
            final(self).tokens() == old(self).tokens(),
            forall|other: Seq<char>, now: i64|
                #[trigger] timed_out(final(self).timeouts()@, other, now) <==> (timed_out(
                    old(self).timeouts()@,
                    other,
                    now,
                ) || (other == mbid@ && now < until)),
    {
        self.timeouts.set_timeout(mbid, until);
    }
}

/// Replacing the first entry of a user by another of the same user changes
/// that user's token and no other.
pub proof fn lemma_token_after_update(tokens: Seq<UserToken>, at: int, entry: UserToken)
    requires
        0 <= at < tokens.len(),
        tokens[at].username@ == entry.username@,
        forall|k: int| 0 <= k < at ==> (#[trigger] tokens[k]).username@ != entry.username@,
    ensures
        token_of(tokens.update(at, entry), entry.username@) == Some(entry.token@),
        forall|other: Seq<char>|
            other != entry.username@ ==> #[trigger] token_of(tokens.update(at, entry), other)
                == token_of(tokens, other),
    decreases tokens.len(),
{
    let after = tokens.update(at, entry);
    if at > 0 {
        assert(tokens[0].username@ != entry.username@);
        assert(after.drop_first() =~= tokens.drop_first().update(at - 1, entry));
        assert forall|k: int| 0 <= k < at - 1 implies (#[trigger] tokens.drop_first()[k]).username@
            != entry.username@ by {
            assert(tokens[k + 1].username@ != entry.username@);
        }
        lemma_token_after_update(tokens.drop_first(), at - 1, entry);
        assert forall|other: Seq<char>| other != entry.username@ implies #[trigger] token_of(
            after,
            other,
        ) == token_of(tokens, other) by {
            if tokens[0].username@ != other {
                assert(token_of(after.drop_first(), other) == token_of(tokens.drop_first(), other));
            }
        }
    } else {
        assert(after.drop_first() =~= tokens.drop_first());
    }
}

/// Adding an entry for a user without one gives that user the token and
/// changes no other.
pub proof fn lemma_token_after_push(tokens: Seq<UserToken>, entry: UserToken)
    requires
        forall|k: int| 0 <= k < tokens.len() ==> (#[trigger] tokens[k]).username@ != entry.username@,
    ensures
        token_of(tokens.push(entry), entry.username@) == Some(entry.token@),
        forall|other: Seq<char>|
            other != entry.username@ ==> #[trigger] token_of(tokens.push(entry), other) == token_of(
                tokens,
                other,
            ),
    decreases tokens.len(),
{
    let after = tokens.push(entry);
    if tokens.len() > 0 {
        assert(tokens[0].username@ != entry.username@);
        assert(after.drop_first() =~= tokens.drop_first().push(entry));
        assert forall|k: int| 0 <= k < tokens.drop_first().len() implies (
        #[trigger] tokens.drop_first()[k]).username@ != entry.username@ by {
            assert(tokens[k + 1].username@ != entry.username@);
        }
        lemma_token_after_push(tokens.drop_first(), entry);
        assert forall|other: Seq<char>| other != entry.username@ implies #[trigger] token_of(
            after,
            other,
        ) == token_of(tokens, other) by {
            if tokens[0].username@ != other {
                assert(token_of(after.drop_first(), other) == token_of(tokens.drop_first(), other));
            }
        }
    } else {
        assert(after.drop_first() =~= Seq::<UserToken>::empty());
        assert forall|other: Seq<char>| other != entry.username@ implies #[trigger] token_of(
            after,
            other,
        ) == token_of(tokens, other) by {
            assert(token_of(after.drop_first(), other) is None);
        }
    }
}

/// A command that changes the configuration, as the listener typed it.
#[derive(Debug)]
pub enum ConfigCommands {
    /// Associate a user token to a user name, so that commands need not be
    /// given the token each time.
    SetToken {
        /// Name of the user to add the token to.
        username: String,
        /// User token.
        token: String,
    },
    /// Keep a recording out of the radios for a while.
    Timeout {
        /// A text that holds the identifier of a recording.
        recording: String,
        /// A text that holds a duration.
        duration: String,
    },
}

/// The configuration commands of the command line.
#[derive(Debug)]
pub struct ConfigCli {
    /// The command to run.
    pub command: ConfigCommands,
}

/// What the texts of a [`ConfigCommands::Timeout`] stand for.
#[derive(Debug)]
pub struct ParsedTimeout {
    /// Identifier of the recording.
    pub mbid: String,
    /// Duration of the hold, in seconds.
    pub seconds: u64,
}

/// Why a command could not be run.
#[derive(Clone, Copy, Debug, PartialEq, Eq)]
pub enum ConfigError {
    /// The texts of a timeout name no recording or no duration.
    UnreadableTimeout,
}

/// The moment at which a hold of `seconds` that begins at `now` ends, held at
/// the last moment that a timestamp can express.
pub open spec fn hold_end(now: i64, seconds: u64) -> i64 {
    if now + seconds > i64::MAX {
        i64::MAX
    } else {
        (now + seconds) as i64
    }
}

impl ConfigCommands {
    /// Runs the command on `config` at the moment `now`.
    ///
    /// A token is set for its user. A timeout puts its recording on hold from
    /// `now` on; `parsed` is what the caller read out of its texts, and where
    /// they could not be read the command fails and changes nothing.
    pub fn run(&self, config: &mut Config, parsed: Option<ParsedTimeout>, now: i64) -> (outcome: Result<
        (),
        ConfigError,
    >)
        ensures
            match *self {
                ConfigCommands::SetToken { username, token } => {
                    &&& outcome is Ok
                    &&& final(config).timeouts() == old(config).timeouts()
                    &&& token_of(final(config).tokens(), username@) == Some(token@)
                    &&& forall|other: Seq<char>|
                        other != username@ ==> #[trigger] token_of(final(config).tokens(), other)
                            == token_of(old(config).tokens(), other)
                },
                ConfigCommands::Timeout { .. } => match parsed {
                    Some(timeout) => {
                        &&& outcome is Ok
                        &&& final(config).tokens() == old(config).tokens()
                        &&& forall|other: Seq<char>, at: i64|
                            #[trigger] timed_out(final(config).timeouts()@, other, at) <==> (
                            timed_out(old(config).timeouts()@, other, at) || (other == timeout.mbid@
                                && at < hold_end(now, timeout.seconds)))
                    },
                    None => {
                        &&& outcome == Err::<(), ConfigError>(ConfigError::UnreadableTimeout)
                        &&& *final(config) == *old(config)
                    },
                },
            },
    {
        match self {
            ConfigCommands::SetToken { username, token } => {
                config.set_token(username.clone(), token.clone());
                Ok(())
            },
            ConfigCommands::Timeout { .. } => {
                match parsed {
                    Some(timeout) => {
                        let end: i128 = now as i128 + timeout.seconds as i128;
                        let until: i64 = if end > i64::MAX as i128 {
                            i64::MAX
                        } else {
                            end as i64
                        };
                        config.set_timeout(timeout.mbid, until);
                        Ok(())
                    },
                    None => Err(ConfigError::UnreadableTimeout),
                }
            },
        }
    }
}

impl ConfigCli {
    /// Runs the command of the command line; see [`ConfigCommands::run`].
    pub fn run(&self, config: &mut Config, parsed: Option<ParsedTimeout>, now: i64) -> (outcome: Result<
        (),
        ConfigError,
    >)
        ensures
            self.command is Timeout && parsed is None <==> outcome is Err,
            outcome is Err ==> *final(config) == *old(config),
    {
        self.command.run(config, parsed, now)
    }
}

} // verus!
