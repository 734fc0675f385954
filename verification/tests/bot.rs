use anime_bot::data::database::{row_matcher, PictureRow};
use anime_bot::discord::bot::{
    message_action, picture_caption, reaction_step, score_for_emoji, MessageAction, PendingPictures,
    Reaction, ReactionAction, ReactionEvent, ReactionProblem, ReactionState, BOT_ID, FIVE, FOUR,
    ONE, THREE, TWO,
};
use anime_bot::error::Error;

fn picture(file_id: i32) -> anime_bot::data::database::Picture {
    row_matcher(
        PictureRow {
            anime_name: Some(Ok("Lucky Star".to_string())),
            character_name: Some(Ok("Konata".to_string())),
            file_name: Some(Ok("5.png".to_string())),
            file_id: Some(Ok(file_id)),
        },
        "pics".to_string(),
    )
    .ok()
    .unwrap()
}

fn reaction(emoji: Option<&str>) -> Reaction {
    Reaction { reactor: 42, message: 1000, channel: 7, emoji: emoji.map(|e| e.to_string()) }
}

#[test]
fn keycaps_give_their_scores() {
    assert_eq!(score_for_emoji(ONE), Some(1));
    assert_eq!(score_for_emoji(TWO), Some(2));
    assert_eq!(score_for_emoji(THREE), Some(3));
    assert_eq!(score_for_emoji(FOUR), Some(4));
    assert_eq!(score_for_emoji(FIVE), Some(5));
    assert_eq!(score_for_emoji("1\u{20e3}"), Some(1));
}

#[test]
fn other_emoji_give_no_score() {
    assert_eq!(score_for_emoji("1"), None);
    assert_eq!(score_for_emoji("6\u{20e3}"), None);
    assert_eq!(score_for_emoji("\u{1f44d}"), None);
    assert_eq!(score_for_emoji(""), None);
}

#[test]
fn vote_messages_ask_for_a_picture() {
    assert_eq!(message_action(1, "!vote"), MessageAction::Vote);
    assert_eq!(message_action(1, "!vote please"), MessageAction::Vote);
    assert_eq!(message_action(1, "hello there"), MessageAction::Ignore);
    assert_eq!(message_action(1, "!votes"), MessageAction::Ignore);
    assert_eq!(message_action(1, ""), MessageAction::MissingCommand);
}

#[test]
fn quoted_first_arguments_keep_their_quotes() {
    assert_eq!(message_action(1, "\"!vote\" now"), MessageAction::Ignore);
    assert_eq!(message_action(1, "\"!vote now"), MessageAction::Ignore);
    assert_eq!(message_action(1, "\"!vote"), MessageAction::Ignore);
    assert_eq!(message_action(1, " !vote"), MessageAction::Ignore);
    assert_eq!(message_action(1, "!VOTE"), MessageAction::Ignore);
}

#[test]
fn bot_messages_are_ignored() {
    assert_eq!(message_action(BOT_ID, "!vote"), MessageAction::Ignore);
}

#[test]
fn caption_names_character_and_show() {
    assert_eq!(picture_caption(&picture(3)), "Konata from Lucky Star");
}

#[test]
fn pending_pictures_remember_the_last_record() {
    let mut pending = PendingPictures::new();
    assert_eq!(pending.file_for(1000), None);
    pending.record(1000, 3);
    pending.record(1001, 4);
    assert_eq!(pending.file_for(1000), Some(3));
    pending.record(1000, 5);
    assert_eq!(pending.file_for(1000), Some(5));
    assert_eq!(pending.file_for(1001), Some(4));
    pending.record_sent(Some(2000), &picture(9));
    pending.record_sent(None, &picture(10));
    assert_eq!(pending.file_for(2000), Some(9));
}

#[test]
fn reaction_by_known_user_is_rated_then_next_picture_sent() {
    let mut pending = PendingPictures::new();
    pending.record(1000, 3);
    let r = reaction(Some(FOUR));
    let (s, a) = reaction_step(&r, ReactionState::Received, ReactionEvent::Start, &pending);
    assert!(matches!(a, ReactionAction::CheckUser { discord_id: 42 }));
    let (s, a) = reaction_step(&r, s, ReactionEvent::UserChecked(Ok(false)), &pending);
    assert!(matches!(a, ReactionAction::FetchName { user: 42 }));
    let (s, a) = reaction_step(&r, s, ReactionEvent::NameFetched(Ok("kon".to_string())), &pending);
    assert!(matches!(a, ReactionAction::StoreRating { discord_id: 42, file_id: 3, score: 4 }));
    let (s, a) = reaction_step(&r, s, ReactionEvent::RatingStored, &pending);
    assert!(matches!(a, ReactionAction::SendPicture { channel: 7, user: 42 }));
    assert_eq!(s, ReactionState::Finished);
}

#[test]
fn reaction_by_new_user_creates_the_user_first() {
    let mut pending = PendingPictures::new();
    pending.record(1000, 3);
    let r = reaction(Some(ONE));
    let (s, _) = reaction_step(&r, ReactionState::Received, ReactionEvent::Start, &pending);
    let (s, _) = reaction_step(&r, s, ReactionEvent::UserChecked(Ok(true)), &pending);
    let (s, a) = reaction_step(&r, s, ReactionEvent::NameFetched(Ok("kon".to_string())), &pending);
    match a {
        ReactionAction::CreateUser { username, discord_id } => {
            assert_eq!(username, "kon");
            assert_eq!(discord_id, 42);
        }
        _ => panic!("expected the user to be created"),
    }
    let (_, a) = reaction_step(&r, s, ReactionEvent::UserCreated, &pending);
    assert!(matches!(a, ReactionAction::StoreRating { discord_id: 42, file_id: 3, score: 1 }));
}

#[test]
fn reactions_without_a_score_do_nothing() {
    let pending = PendingPictures::new();
    for r in [
        reaction(None),
        reaction(Some("\u{1f44d}")),
        Reaction { reactor: BOT_ID, message: 1000, channel: 7, emoji: Some(ONE.to_string()) },
    ] {
        let (s, a) = reaction_step(&r, ReactionState::Received, ReactionEvent::Start, &pending);
        assert_eq!(s, ReactionState::Finished);
        assert!(matches!(a, ReactionAction::Nothing));
    }
}

#[test]
fn reaction_failures_are_reported() {
    let pending = PendingPictures::new();
    let r = reaction(Some(TWO));
    let (s, _) = reaction_step(&r, ReactionState::Received, ReactionEvent::Start, &pending);
    let (_, a) = reaction_step(&r, s, ReactionEvent::UserChecked(Err(Error::Postgres("down".to_string()))), &pending);
    assert!(matches!(a, ReactionAction::Report(ReactionProblem::UserCheckFailed(Error::Postgres(_)))));

    let (s, _) = reaction_step(&r, ReactionState::CheckingUser { score: 2 }, ReactionEvent::UserChecked(Ok(false)), &pending);
    let (_, a) = reaction_step(&r, s, ReactionEvent::NameFetched(Err("no user".to_string())), &pending);
    assert!(matches!(a, ReactionAction::Report(ReactionProblem::NameFetchFailed(_))));

    let (s, _) = reaction_step(&r, ReactionState::CheckingUser { score: 2 }, ReactionEvent::UserChecked(Ok(false)), &pending);
    let (s, a) = reaction_step(&r, s, ReactionEvent::NameFetched(Ok("x".to_string())), &pending);
    assert!(matches!(a, ReactionAction::Report(ReactionProblem::UnknownMessage)));
    assert_eq!(s, ReactionState::Finished);
}

#[test]
fn unexpected_events_end_handling() {
    let pending = PendingPictures::new();
    let r = reaction(Some(TWO));
    let (s, a) = reaction_step(&r, ReactionState::Received, ReactionEvent::RatingStored, &pending);
    assert_eq!(s, ReactionState::Finished);
    assert!(matches!(a, ReactionAction::Nothing));
}
