//! The bot's decisions: which messages ask for a picture, what a reaction
//! scores, which picture a reaction rates, and what to do next at each
//! step of handling a reaction. The program around the library talks to
//! Discord and to the database and hands the answers back here.

use vstd::prelude::*;
use std::collections::HashMap;
use serenity::framework::standard::{Args, Delimiter};
use crate::data::database::{Picture, discord_id_to_db};
use crate::error::Error;

verus! {

broadcast use vstd::std_specs::hash::group_hash_axioms;

/// The keycap emoji for a score of one.
pub const ONE: &'static str = "1\u{20e3}";
/// The keycap emoji for a score of two.
pub const TWO: &'static str = "2\u{20e3}";
/// The keycap emoji for a score of three.
pub const THREE: &'static str = "3\u{20e3}";
/// The keycap emoji for a score of four.
pub const FOUR: &'static str = "4\u{20e3}";
/// The keycap emoji for a score of five.
pub const FIVE: &'static str = "5\u{20e3}";
/// The bot's own Discord id: its own messages and reactions are ignored.
pub const BOT_ID: u64 = 629418348601540609;

/// A keycap emoji: a digit followed by the combining enclosing keycap.
pub open spec fn keycap(digit: char) -> Seq<char> {
    seq![digit, '\u{20e3}']
}

/// The score a reaction emoji stands for: the keycaps one to five.
pub open spec fn keycap_score(emoji: Seq<char>) -> Option<i16> {
    if emoji == keycap('1') {
        Some(1)
    } else if emoji == keycap('2') {
        Some(2)
    } else if emoji == keycap('3') {
        Some(3)
    } else if emoji == keycap('4') {
        Some(4)
    } else if emoji == keycap('5') {
        Some(5)
    } else {
        None
    }
}

/// The score that a Unicode reaction emoji gives, if it is one of the
/// keycaps one to five.
pub fn score_for_emoji(emoji: &str) -> (score: Option<i16>)
    ensures
        score == keycap_score(emoji@),
{
    proof {
        reveal_strlit("1\u{20e3}");
        assert(ONE@ =~= keycap('1'));
        reveal_strlit("2\u{20e3}");
        assert(TWO@ =~= keycap('2'));
        reveal_strlit("3\u{20e3}");
        assert(THREE@ =~= keycap('3'));
        reveal_strlit("4\u{20e3}");
        assert(FOUR@ =~= keycap('4'));
        reveal_strlit("5\u{20e3}");
        assert(FIVE@ =~= keycap('5'));
    }
    let e = emoji.to_owned();
    if e == ONE.to_owned() {
        Some(1)
    } else if e == TWO.to_owned() {
        Some(2)
    } else if e == THREE.to_owned() {
        Some(3)
    } else if e == FOUR.to_owned() {
        Some(4)
    } else if e == FIVE.to_owned() {
        Some(5)
    } else {
        None
    }
}

/// The characters of `s` before its first space, or all of them.
pub open spec fn before_first_space(s: Seq<char>) -> Seq<char>
    decreases s.len(),
{
    if s.len() == 0 {
        s
    } else if s[0] == ' ' {
        seq![]
    } else {
        seq![s[0]] + before_first_space(s.drop_first())
    }
}

/// The characters of `t` up to and including its first double quote, or
/// all of them when it holds none.
pub open spec fn through_closing_quote(t: Seq<char>) -> Seq<char>
    decreases t.len(),
{
    if t.len() == 0 {
        t
    } else if t[0] == '\u{22}' {
        seq![t[0]]
    } else {
        seq![t[0]] + through_closing_quote(t.drop_first())
    }
}

/// The first argument that the command framework reads from a message
/// split at single spaces: none for an empty message; for a message that
/// begins with a double quote and holds a space, the quoted part, quotes
/// included (or the whole message when the quote is not closed);
/// otherwise everything before the first space.
pub open spec fn first_argument(message: Seq<char>) -> Option<Seq<char>> {
    if message.len() == 0 {
        None
    } else if message[0] == '\u{22}' && message.contains(' ') {
        Some(seq![message[0]] + through_closing_quote(message.drop_first()))
    } else {
        Some(before_first_space(message))
    }
}

/// The first argument of a message, as the command framework's `Args`,
/// splitting at single spaces, parses it into a `String`: the framework's
/// source (its lexer, and `current` with no trimming or unquoting asked
/// for) gives the argument that `first_argument` describes.
#[verifier::external_body]
fn first_argument_of(message: &str) -> (arg: Option<String>)
    ensures
        arg.is_some() == first_argument(message@).is_some(),
        arg.is_some() ==> first_argument(message@) == Some(arg->Some_0@),
{
    Args::new(message, &[Delimiter::Single(' ')]).parse::<String>().ok()
}

/// The command that asks for a picture to rate.
pub open spec fn vote_command() -> Seq<char> {
    seq!['!', 'v', 'o', 't', 'e']
}

/// What to do with a message.
#[derive(Debug, PartialEq, Eq)]
pub enum MessageAction {
    /// Nothing: the bot wrote it, or it is not a vote.
    Ignore,
    /// Nothing, but note that the message had no argument to read.
    MissingCommand,
    /// Send the author a picture to rate.
    Vote,
}

/// What a message from `author` with text `content` asks for.
pub open spec fn message_action_of(author: u64, content: Seq<char>) -> MessageAction {
    if author == BOT_ID {
        MessageAction::Ignore
    } else {
        match first_argument(content) {
            None => MessageAction::MissingCommand,
            Some(a) => if a == vote_command() {
                MessageAction::Vote
            } else {
                MessageAction::Ignore
            },
        }
    }
}

/// Decides what a message asks for: the bot's own messages are ignored,
/// and a message whose first argument is `!vote` asks for a picture.
pub fn message_action(author: u64, content: &str) -> (action: MessageAction)
    ensures
        action == message_action_of(author, content@),
{
    if author == BOT_ID {
        return MessageAction::Ignore;
    }
    proof {
        reveal_strlit("!vote");
        assert("!vote"@ =~= vote_command());
    }
    match first_argument_of(content) {
        None => MessageAction::MissingCommand,
        Some(first) => {
            if first == "!vote".to_owned() {
                MessageAction::Vote
            } else {
                MessageAction::Ignore
            }
        },
    }
}

/// The caption of a picture message: the character, `" from "`, the show.
pub open spec fn caption_of(character: Seq<char>, anime: Seq<char>) -> Seq<char> {
    character + seq![' ', 'f', 'r', 'o', 'm', ' '] + anime
}

/// The caption sent with a picture.
pub fn picture_caption(picture: &Picture) -> (caption: String)
    ensures
        caption@ == caption_of(picture@.character_name, picture@.anime_name),
{
    proof { reveal_strlit(" from "); }
    let mut caption = picture.character().clone();
    caption.append(" from ");
    caption.append(picture.anime().as_str());
    caption
}

/// The pictures the bot has sent and waits for ratings of, by the id of
/// the message that carries each.
pub struct PendingPictures {
    by_message: HashMap<u64, i32>,
}

impl View for PendingPictures {
    type V = Map<u64, i32>;

    closed spec fn view(&self) -> Map<u64, i32> {
        self.by_message@
    }
}

/// The file id recorded for a message, if any.
pub open spec fn pending_file(pending: Map<u64, i32>, message: u64) -> Option<i32> {
    if pending.contains_key(message) {
        Some(pending[message])
    } else {
        None
    }
}

impl PendingPictures {
    /// No pictures sent yet.
    pub fn new() -> (p: PendingPictures)
        ensures
            p@ == Map::<u64, i32>::empty(),
    {
        PendingPictures { by_message: HashMap::new() }
    }

    /// Records that `message` carries the picture with file id `file_id`,
    /// in place of what was recorded for that message before.
    pub fn record(&mut self, message: u64, file_id: i32)
        ensures
            final(self)@ == old(self)@.insert(message, file_id),
    {
        self.by_message.insert(message, file_id);
    }

    /// Records the picture of a message once it has been sent: `sent` is
    /// the id of the message, or `None` when sending failed.
    pub fn record_sent(&mut self, sent: Option<u64>, picture: &Picture)
        ensures
            final(self)@ == match sent {
                Some(m) => old(self)@.insert(m, picture@.file_id),
                None => old(self)@,
            },
    {
        match sent {
            Some(message) => self.record(message, *picture.file_id()),
            None => {},
        }
    }

    /// The file id of the picture that `message` carries, if the bot sent it.
    pub fn file_for(&self, message: u64) -> (file: Option<i32>)
        ensures
            file == pending_file(self@, message),
    {
        match self.by_message.get(&message) {
            Some(id) => Some(*id),
            None => None,
        }
    }
}

/// A reaction added to a message.
pub struct Reaction {
    /// Who reacted.
    pub reactor: u64,
    /// The message reacted to.
    pub message: u64,
    /// The channel of that message.
    pub channel: u64,
    /// The emoji, or `None` for a custom emoji.
    pub emoji: Option<String>,
}

/// The score a reaction gives: none for the bot's own reactions, custom
/// emoji and emoji other than the keycaps one to five.
pub open spec fn reaction_score(r: Reaction) -> Option<i16> {
    if r.reactor == BOT_ID {
        None
    } else {
        match r.emoji {
            Some(e) => keycap_score(e@),
            None => None,
        }
    }
}

/// Where the handling of a reaction stands.
#[derive(Debug, PartialEq, Eq)]
pub enum ReactionState {
    /// The reaction has arrived.
    Received,
    /// Waiting to learn whether the reactor has a user row.
    CheckingUser { score: i16 },
    /// Waiting for the reactor's name.
    FetchingName { need_user: bool, score: i16 },
    /// Waiting for the reactor's user row to be created.
    CreatingUser { score: i16 },
    /// Waiting for the rating to be stored.
    StoringRating,
    /// Nothing more to do.
    Finished,
}

/// What happened since the last step.
pub enum ReactionEvent {
    /// Handling begins.
    Start,
    /// Whether the reactor needs a user row, or why that is unknown.
    UserChecked(Result<bool, Error>),
    /// The reactor's name, or why it could not be fetched.
    NameFetched(Result<String, String>),
    /// The user row was written (its outcome is not looked at).
    UserCreated,
    /// The rating was written (its outcome is not looked at).
    RatingStored,
}

/// Why handling a reaction stopped early.
pub enum ReactionProblem {
    /// The database could not say whether the reactor has a user row.
    UserCheckFailed(Error),
    /// The reactor's name could not be fetched.
    NameFetchFailed(String),
    /// The message reacted to carries no picture the bot sent.
    UnknownMessage,
}

/// What to do next.
pub enum ReactionAction {
    /// Nothing.
    Nothing,
    /// Ask the database whether the user has a row.
    CheckUser { discord_id: i64 },
    /// Fetch the name of the Discord user.
    FetchName { user: u64 },
    /// Create the user's row.
    CreateUser { username: String, discord_id: i64 },
    /// Store the user's score for the picture's file.
    StoreRating { discord_id: i64, file_id: i32, score: i16 },
    /// Send the user the next picture to rate.
    SendPicture { channel: u64, user: u64 },
    /// Stop, and report why.
    Report(ReactionProblem),
}

/// The step that rates the reacted-to picture, once the reactor has a
/// user row.
pub open spec fn rate_step(r: Reaction, score: i16, pending: Map<u64, i32>) -> (ReactionState, ReactionAction) {
    match pending_file(pending, r.message) {
        Some(file_id) => (
            ReactionState::StoringRating,
            ReactionAction::StoreRating { discord_id: r.reactor as i64, file_id, score },
        ),
        None => (ReactionState::Finished, ReactionAction::Report(ReactionProblem::UnknownMessage)),
    }
}

/// How handling a reaction goes: score it; make sure the reactor has a
/// user row (fetching their name, and creating the row if it is missing);
/// store the score for the picture the message carries; send the next
/// picture. Any other event ends the handling.
pub open spec fn reaction_next(
    r: Reaction,
    state: ReactionState,
    event: ReactionEvent,
    pending: Map<u64, i32>,
) -> (ReactionState, ReactionAction) {
    match (state, event) {
        (ReactionState::Received, ReactionEvent::Start) => match reaction_score(r) {
            Some(score) => (
                ReactionState::CheckingUser { score },
                ReactionAction::CheckUser { discord_id: r.reactor as i64 },
            ),
            None => (ReactionState::Finished, ReactionAction::Nothing),
        },
        (ReactionState::CheckingUser { score }, ReactionEvent::UserChecked(checked)) => match checked {
            Ok(need_user) => (
                ReactionState::FetchingName { need_user, score },
                ReactionAction::FetchName { user: r.reactor },
            ),
            Err(e) => (ReactionState::Finished, ReactionAction::Report(ReactionProblem::UserCheckFailed(e))),
        },
        (ReactionState::FetchingName { need_user, score }, ReactionEvent::NameFetched(fetched)) => match fetched {
            Ok(username) => if need_user {
                (
                    ReactionState::CreatingUser { score },
                    ReactionAction::CreateUser { username, discord_id: r.reactor as i64 },
                )
            } else {
                rate_step(r, score, pending)
            },
            Err(why) => (ReactionState::Finished, ReactionAction::Report(ReactionProblem::NameFetchFailed(why))),
        },
        (ReactionState::CreatingUser { score }, ReactionEvent::UserCreated) => rate_step(r, score, pending),
        (ReactionState::StoringRating, ReactionEvent::RatingStored) => (
            ReactionState::Finished,
            ReactionAction::SendPicture { channel: r.channel, user: r.reactor },
        ),
        _ => (ReactionState::Finished, ReactionAction::Nothing),
    }
}

/// The score of a reaction.
fn score_reaction(reaction: &Reaction) -> (score: Option<i16>)
    ensures
        score == reaction_score(*reaction),
{
    if reaction.reactor == BOT_ID {
        return None;
    }
    match &reaction.emoji {
        Some(e) => score_for_emoji(e.as_str()),
        None => None,
    }
}

fn rate(reaction: &Reaction, score: i16, pending: &PendingPictures) -> (next: (ReactionState, ReactionAction))
    ensures
        next == rate_step(*reaction, score, pending@),
{
    match pending.file_for(reaction.message) {
        Some(file_id) => (
            ReactionState::StoringRating,
            ReactionAction::StoreRating { discord_id: discord_id_to_db(reaction.reactor), file_id, score },
        ),
        None => (ReactionState::Finished, ReactionAction::Report(ReactionProblem::UnknownMessage)),
    }
}

/// One step of handling a reaction: from where handling stands and what
/// just happened, where it stands next and what to do.
pub fn reaction_step(
    reaction: &Reaction,
    state: ReactionState,
    event: ReactionEvent,
    pending: &PendingPictures,
) -> (next: (ReactionState, ReactionAction))
    ensures
        next == reaction_next(*reaction, state, event, pending@),
{
    match (state, event) {
        (ReactionState::Received, ReactionEvent::Start) => match score_reaction(reaction) {
            Some(score) => (
                ReactionState::CheckingUser { score },
                ReactionAction::CheckUser { discord_id: discord_id_to_db(reaction.reactor) },
            ),
            None => (ReactionState::Finished, ReactionAction::Nothing),
        },
        (ReactionState::CheckingUser { score }, ReactionEvent::UserChecked(checked)) => match checked {
            Ok(need_user) => (
                ReactionState::FetchingName { need_user, score },
                ReactionAction::FetchName { user: reaction.reactor },
            ),
            Err(e) => (ReactionState::Finished, ReactionAction::Report(ReactionProblem::UserCheckFailed(e))),
        },
        (ReactionState::FetchingName { need_user, score }, ReactionEvent::NameFetched(fetched)) => match fetched {
            Ok(username) => if need_user {
                (
                    ReactionState::CreatingUser { score },
                    ReactionAction::CreateUser { username, discord_id: discord_id_to_db(reaction.reactor) },
                )
            } else {
                rate(reaction, score, pending)
            },
            Err(why) => (ReactionState::Finished, ReactionAction::Report(ReactionProblem::NameFetchFailed(why))),
        },
        (ReactionState::CreatingUser { score }, ReactionEvent::UserCreated) => rate(reaction, score, pending),
        (ReactionState::StoringRating, ReactionEvent::RatingStored) => (
            ReactionState::Finished,
            ReactionAction::SendPicture { channel: reaction.channel, user: reaction.reactor },
        ),
        _ => (ReactionState::Finished, ReactionAction::Nothing),
    }
}

/// A picture recorded for a message is the one found for it afterwards,
/// and recording it changes what is found for no other message.
pub proof fn law_recorded_picture_is_found(pending: Map<u64, i32>, message: u64, file_id: i32, other: u64)
    ensures
        pending_file(pending.insert(message, file_id), message) == Some(file_id),
        other != message ==> pending_file(pending.insert(message, file_id), other) == pending_file(pending, other),
{
}

/// Each keycap from one to five scores its own digit, and every score an
/// emoji gives lies between one and five.
pub proof fn law_keycaps_score_their_digit(emoji: Seq<char>)
    ensures
        keycap_score(keycap('1')) == Some(1i16),
        keycap_score(keycap('2')) == Some(2i16),
        keycap_score(keycap('3')) == Some(3i16),
        keycap_score(keycap('4')) == Some(4i16),
        keycap_score(keycap('5')) == Some(5i16),
        keycap_score(emoji) matches Some(score) ==> 1 <= score <= 5,
{
    assert(keycap('1') != keycap('2'));
    assert(keycap('1') != keycap('3'));
    assert(keycap('1') != keycap('4'));
    assert(keycap('1') != keycap('5'));
    assert(keycap('2') != keycap('3'));
    assert(keycap('2') != keycap('4'));
    assert(keycap('2') != keycap('5'));
    assert(keycap('3') != keycap('4'));
    assert(keycap('3') != keycap('5'));
    assert(keycap('4') != keycap('5'));
}

/// The bot acts on none of its own messages and reactions.
pub proof fn law_bot_ignores_itself(r: Reaction, content: Seq<char>, pending: Map<u64, i32>)
    requires
        r.reactor == BOT_ID,
    ensures
        message_action_of(BOT_ID, content) == MessageAction::Ignore,
        reaction_next(r, ReactionState::Received, ReactionEvent::Start, pending)
            == (ReactionState::Finished, ReactionAction::Nothing),
{
}

/// A reaction that scores a picture the bot sent is stored as that score
/// for that picture's file, whether or not the reactor had a user row,
/// and then the reactor is sent the next picture.
pub proof fn law_scored_reaction_rates_its_picture(
    r: Reaction,
    pending: Map<u64, i32>,
    need_user: bool,
    username: String,
)
    requires
        reaction_score(r) is Some,
        pending.contains_key(r.message),
    ensures
        ({
            let score = reaction_score(r)->Some_0;
            let id = r.reactor as i64;
            let (s1, a1) = reaction_next(r, ReactionState::Received, ReactionEvent::Start, pending);
            let (s2, a2) = reaction_next(r, s1, ReactionEvent::UserChecked(Ok(need_user)), pending);
            let (s3, a3) = reaction_next(r, s2, ReactionEvent::NameFetched(Ok(username)), pending);
            let (s4, a4) = if need_user {
                reaction_next(r, s3, ReactionEvent::UserCreated, pending)
            } else {
                (s3, a3)
            };
            let (s5, a5) = reaction_next(r, s4, ReactionEvent::RatingStored, pending);
            &&& a1 == ReactionAction::CheckUser { discord_id: id }
            &&& a2 == ReactionAction::FetchName { user: r.reactor }
            &&& need_user ==> a3 == ReactionAction::CreateUser { username, discord_id: id }
            &&& a4 == ReactionAction::StoreRating { discord_id: id, file_id: pending[r.message], score }
            &&& s5 == ReactionState::Finished
            &&& a5 == ReactionAction::SendPicture { channel: r.channel, user: r.reactor }
        }),
{
}

/// A reaction to a message that carries no picture the bot sent stores no
/// rating: once the reactor's row is settled, handling stops with a report.
pub proof fn law_unknown_message_is_not_rated(r: Reaction, pending: Map<u64, i32>, score: i16)
    requires
        !pending.contains_key(r.message),
    ensures
        rate_step(r, score, pending) == (ReactionState::Finished, ReactionAction::Report(ReactionProblem::UnknownMessage)),
{
}

/// Each keycap from one to five, put on a picture the bot sent by anyone
/// but the bot, starts handling with that digit as the score, and the
/// rating stored in the end is that digit for the message's picture,
/// followed by the next picture.
pub proof fn law_keycap_reaction_stores_its_digit(
    r: Reaction,
    e: String,
    d: i16,
    pending: Map<u64, i32>,
    need_user: bool,
    username: String,
)
    requires
        r.reactor != BOT_ID,
        r.emoji == Some(e),
        pending.contains_key(r.message),
        (d == 1 && e@ == seq!['1', '\u{20e3}']) || (d == 2 && e@ == seq!['2', '\u{20e3}'])
            || (d == 3 && e@ == seq!['3', '\u{20e3}']) || (d == 4 && e@ == seq!['4', '\u{20e3}'])
            || (d == 5 && e@ == seq!['5', '\u{20e3}']),
    ensures
        ({
            let id = r.reactor as i64;
            let (s1, a1) = reaction_next(r, ReactionState::Received, ReactionEvent::Start, pending);
            let (s2, a2) = reaction_next(r, s1, ReactionEvent::UserChecked(Ok(need_user)), pending);
            let (s3, a3) = reaction_next(r, s2, ReactionEvent::NameFetched(Ok(username)), pending);
            let (s4, a4) = if need_user {
                reaction_next(r, s3, ReactionEvent::UserCreated, pending)
            } else {
                (s3, a3)
            };
            let (s5, a5) = reaction_next(r, s4, ReactionEvent::RatingStored, pending);
            &&& s1 == ReactionState::CheckingUser { score: d }
            &&& a1 == ReactionAction::CheckUser { discord_id: id }
            &&& a4 == ReactionAction::StoreRating { discord_id: id, file_id: pending[r.message], score: d }
            &&& s5 == ReactionState::Finished
            &&& a5 == ReactionAction::SendPicture { channel: r.channel, user: r.reactor }
        }),
{
    assert(keycap('1') =~= seq!['1', '\u{20e3}']);
    assert(keycap('2') =~= seq!['2', '\u{20e3}']);
    assert(keycap('3') =~= seq!['3', '\u{20e3}']);
    assert(keycap('4') =~= seq!['4', '\u{20e3}']);
    assert(keycap('5') =~= seq!['5', '\u{20e3}']);
    law_keycaps_score_their_digit(e@);
}

/// Every user but the bot who writes a message whose first argument is
/// `!vote` gets a picture, and only such a message asks for one.
pub proof fn law_vote_is_answered_for_every_user(author: u64, content: Seq<char>)
    requires
        author != BOT_ID,
    ensures
        (message_action_of(author, content) == MessageAction::Vote)
            <==> first_argument(content) == Some(seq!['!', 'v', 'o', 't', 'e']),
        message_action_of(author, seq!['!', 'v', 'o', 't', 'e']) == MessageAction::Vote,
{
    let v = seq!['!', 'v', 'o', 't', 'e'];
    assert(vote_command() =~= v);
    assert(!v.contains(' ')) by {
        if v.contains(' ') {
            let i = choose|i: int| 0 <= i < v.len() && v[i] == ' ';
        }
    }
    assert(before_first_space(v) =~= v) by {
        reveal_with_fuel(before_first_space, 6);
        assert(v.drop_first() =~= seq!['v', 'o', 't', 'e']);
        assert(v.drop_first().drop_first() =~= seq!['o', 't', 'e']);
        assert(v.drop_first().drop_first().drop_first() =~= seq!['t', 'e']);
        assert(v.drop_first().drop_first().drop_first().drop_first() =~= seq!['e']);
        assert(v.drop_first().drop_first().drop_first().drop_first().drop_first() =~= Seq::<char>::empty());
    }
}

/// A caption holds the whole character name, then `" from "`, then the
/// whole show name, and nothing else.
pub proof fn law_caption_holds_both_names(character: Seq<char>, anime: Seq<char>)
    ensures
        caption_of(character, anime).len() == character.len() + 6 + anime.len(),
        caption_of(character, anime).take(character.len() as int) == character,
        caption_of(character, anime).subrange(character.len() as int, (character.len() + 6) as int)
            == seq![' ', 'f', 'r', 'o', 'm', ' '],
        caption_of(character, anime).skip((character.len() + 6) as int) == anime,
{
    let c = caption_of(character, anime);
    assert(c.take(character.len() as int) =~= character);
    assert(c.subrange(character.len() as int, (character.len() + 6) as int) =~= seq![' ', 'f', 'r', 'o', 'm', ' ']);
    assert(c.skip((character.len() + 6) as int) =~= anime);
}

/// The first argument of a message that does not start with a double
/// quote is a prefix of it that holds no space, and it stops only at a
/// space or at the end of the message.
pub proof fn law_first_argument_is_first_word(message: Seq<char>)
    requires
        message.len() > 0,
        message[0] != '\u{22}',
    ensures
        first_argument(message) matches Some(a) && {
            &&& a.len() <= message.len()
            &&& a == message.take(a.len() as int)
            &&& !a.contains(' ')
            &&& (a.len() == message.len() || message[a.len() as int] == ' ')
        },
{
    lemma_before_first_space(message);
}

proof fn lemma_before_first_space(s: Seq<char>)
    ensures
        before_first_space(s).len() <= s.len(),
        before_first_space(s) == s.take(before_first_space(s).len() as int),
        !before_first_space(s).contains(' '),
        before_first_space(s).len() == s.len() || s[before_first_space(s).len() as int] == ' ',
    decreases s.len(),
{
    let b = before_first_space(s);
    if s.len() == 0 {
        assert(s.take(0) =~= s);
    } else if s[0] == ' ' {
        assert(s.take(0) =~= b);
    } else {
        let t = s.drop_first();
        lemma_before_first_space(t);
        let bt = before_first_space(t);
        assert(b == seq![s[0]] + bt);
        assert(s.take(b.len() as int) =~= seq![s[0]] + t.take(bt.len() as int));
        assert(!b.contains(' ')) by {
            if b.contains(' ') {
                let i = choose|i: int| 0 <= i < b.len() && b[i] == ' ';
                if i > 0 {
                    assert(bt[i - 1] == ' ');
                }
            }
        }
        if bt.len() < t.len() {
            assert(s[b.len() as int] == t[bt.len() as int]);
        }
    }
}

/// A database failure while checking the reactor, or a failure to fetch
/// their name, ends handling with a report of that failure: no user row
/// is created and no rating is stored.
pub proof fn law_reaction_failures_are_reported(r: Reaction, pending: Map<u64, i32>, score: i16, need_user: bool, e: Error, why: String)
    ensures
        reaction_next(r, ReactionState::CheckingUser { score }, ReactionEvent::UserChecked(Err(e)), pending)
            == (ReactionState::Finished, ReactionAction::Report(ReactionProblem::UserCheckFailed(e))),
        reaction_next(r, ReactionState::FetchingName { need_user, score }, ReactionEvent::NameFetched(Err(why)), pending)
            == (ReactionState::Finished, ReactionAction::Report(ReactionProblem::NameFetchFailed(why))),
{
}

/// Only a keycap from one to five scores: an emoji of any other length,
/// or a two-character emoji whose second character is not the enclosing
/// keycap, gives no score.
pub proof fn law_only_keycaps_score(emoji: Seq<char>)
    ensures
        emoji.len() != 2 ==> keycap_score(emoji) is None,
        emoji.len() == 2 && emoji[1] != '\u{20e3}' ==> keycap_score(emoji) is None,
        emoji.len() == 2 && !('1' <= emoji[0] <= '5') ==> keycap_score(emoji) is None,
{
}

} // verus!
