use skekbot_rs::commands::dad::{dad_command_reply, dad_joke_url};
use skekbot_rs::commands::fun::{eight_ball_answer, eight_ball_reply, eight_ball_shaking};
use skekbot_rs::commands::info::authors_field;
use skekbot_rs::commands::luau::{
    list_failed_reply, list_loaded_scripts_reply, list_reply_splits_char, loaded_scripts_listing,
    reload_reply,
};
use skekbot_rs::commands::quote::create_username;
use skekbot_rs::commands::rock_paper_scissors::{
    announce, challenge_text, hand_from_custom_id, timeout_targets, RockPaperScissorsOption, RpsAction,
    RpsGame, RpsPlayer,
};
use skekbot_rs::commands::traitor_only::{ban_reply, is_ingame_moderator, moderator_precheck, TraitorConfig};

use RockPaperScissorsOption::{Paper, Rock, Scissors};

fn player(id: u64, name: &str) -> RpsPlayer {
    RpsPlayer { id, mention: format!("<@{id}>"), display_name: name.to_string() }
}

#[test]
fn rps_button_ids_name_their_hand() {
    assert_eq!(Rock.custom_id(12345), "12345.Rock");
    assert_eq!(Scissors.custom_id(0), "0.Scissors");
    for hand in [Rock, Paper, Scissors] {
        assert_eq!(hand_from_custom_id(&hand.custom_id(987654321)), Some(hand));
    }
    assert_eq!(hand_from_custom_id("9.Lizard"), None);
    assert_eq!(hand_from_custom_id(""), None);
}

#[test]
fn rps_hands_and_rules() {
    assert_eq!(Rock.as_str(), "Rock");
    assert_eq!(Paper.as_emoji(), "📄");
    assert_eq!(Rock.as_emoji(), "🪨");
    assert_eq!(Scissors.as_emoji(), "✂️");
    assert!(Rock.beats(Scissors) && Scissors.beats(Paper) && Paper.beats(Rock));
    assert!(!Rock.beats(Rock) && !Scissors.beats(Rock));
    let r = RockPaperScissorsOption::get_random_option();
    assert!(matches!(r, Rock | Paper | Scissors));
}

#[test]
fn rps_game_between_two_people() {
    let mut g = RpsGame::new(1, 2, false);
    assert!(!g.opponent_is_auto);
    assert_eq!(g.click_with_pick(3, "9.Rock", Paper), RpsAction::RejectOutsider);
    assert_eq!(g.click_with_pick(1, "9.Lizard", Paper), RpsAction::Ignore);
    assert_eq!(g.click_with_pick(1, "9.Rock", Paper), RpsAction::Acknowledge);
    assert_eq!(g.click_with_pick(1, "9.Paper", Paper), RpsAction::Acknowledge);
    assert_eq!(g.click_with_pick(2, "9.Scissors", Rock), RpsAction::Finish(Paper, Scissors));
    assert!(g.finished);
    assert_eq!(g.click_with_pick(2, "9.Rock", Rock), RpsAction::Ignore);
}

#[test]
fn rps_game_against_a_bot_or_oneself() {
    let mut g = RpsGame::new(1, 99, true);
    assert_eq!(g.click_with_pick(1, "9.Paper", Rock), RpsAction::Finish(Paper, Rock));
    let mut g = RpsGame::new(5, 5, false);
    assert!(g.opponent_is_auto);
    assert_eq!(g.click_with_pick(5, "1.Rock", Rock), RpsAction::Finish(Rock, Rock));
    let mut g = RpsGame::new(1, 99, true);
    assert!(matches!(g.click(1, "9.Rock"), RpsAction::Finish(Rock, _)));
}

#[test]
fn rps_announcements() {
    let (a, b) = (player(1, "Ann"), player(2, "Bo"));
    let o = announce(&a, &b, Rock, Scissors);
    assert_eq!(o.losers, vec![2]);
    assert_eq!(o.text, "<@1> chose Rock.\n<@2> chose Scissors.\n\nAnn wins!");
    let o = announce(&a, &b, Paper, Scissors);
    assert_eq!(o.losers, vec![1]);
    assert_eq!(o.text, "<@1> chose Paper.\n<@2> chose Scissors.\n\nBo wins!");
    let o = announce(&a, &b, Rock, Rock);
    assert_eq!(o.losers, vec![1, 2]);
    assert!(o.text.ends_with("\n\nIt's a tie!"));
    let o = announce(&a, &a, Rock, Rock);
    assert_eq!(o.losers, vec![1]);
    assert!(o.text.ends_with("You played yourself and tied!"));
    let o = announce(&a, &a, Rock, Scissors);
    assert!(o.losers.is_empty());
    assert!(o.text.ends_with("You played yourself and won!"));
    let o = announce(&a, &a, Scissors, Rock);
    assert!(o.losers.is_empty());
    assert!(o.text.ends_with("You played yourself and lost!"));
}

#[test]
fn rps_timeouts_spare_the_bot_and_direct_messages() {
    assert_eq!(timeout_targets(&vec![1, 42, 2], 42, true), vec![1, 2]);
    assert_eq!(timeout_targets(&vec![1, 2], 42, false), Vec::<u64>::new());
    assert_eq!(
        challenge_text("<@1>", "<@2>"),
        "<@1> has challenged <@2> to Rock Paper Scissors!"
    );
}

#[test]
fn reload_replies() {
    assert_eq!(reload_reply(Ok(())), "scripts reloaded successfully!");
    assert_eq!(reload_reply(Err("boom")), "reload failed: boom");
    assert_eq!(list_failed_reply("poisoned"), "failed to get loaded scripts: poisoned");
}

#[test]
fn loaded_scripts_listing_sections() {
    let scripts = vec!["a.luau".to_string(), "b.luau".to_string()];
    let none: Vec<String> = Vec::new();
    assert_eq!(
        list_loaded_scripts_reply(&scripts, &none),
        "**executed scripts:**\n```\na.luau\nb.luau\n\n```\n"
    );
    assert_eq!(
        list_loaded_scripts_reply(&none, &vec!["m".to_string()]),
        "**cached modules (`require`):**\n```\nm\n\n```"
    );
    assert_eq!(
        loaded_scripts_listing(&vec!["s".to_string()], &vec!["m".to_string()]),
        "**executed scripts:**\n```\ns\n\n```\n**cached modules (`require`):**\n```\nm\n\n```"
    );
    assert_eq!(list_loaded_scripts_reply(&none, &none), "no scripts are currently loaded");
}

#[test]
fn loaded_scripts_reply_is_cut_to_the_limit() {
    let scripts = vec!["x".repeat(3000)];
    let none: Vec<String> = Vec::new();
    assert!(!list_reply_splits_char(&scripts, &none));
    let r = list_loaded_scripts_reply(&scripts, &none);
    assert_eq!(r.len(), 2000);
    assert!(r.ends_with("x...`"));
    assert!(r.starts_with("**executed scripts:**\n```\nxxx"));
}

#[test]
fn loaded_scripts_cut_inside_a_character_is_detected() {
    let name = format!("{}é{}", "a".repeat(1969), "b".repeat(100));
    let none: Vec<String> = Vec::new();
    assert!(list_reply_splits_char(&vec![name], &none));
    let fine = format!("{}é{}", "a".repeat(1968), "b".repeat(100));
    let r = list_loaded_scripts_reply(&vec![fine.clone()], &none);
    assert!(!list_reply_splits_char(&vec![fine], &none));
    assert_eq!(r.len(), 2000);
}

#[test]
fn magic_8ball() {
    let a = eight_ball_answer();
    assert!(["test", "i forgot what the answers were", "test 2", "ill fix this later"].contains(&a));
    assert_eq!(eight_ball_shaking(), "🎱 Shaking the magic 8 ball...");
    assert_eq!(
        eight_ball_reply(Some("Nick"), "user", "will it rain?", "test"),
        "**Nick asks:** will it rain?\ntest"
    );
    assert_eq!(eight_ball_reply(None, "user", "q", "test 2"), "**user asks:** q\ntest 2");
}

#[test]
fn dad_command() {
    assert_eq!(dad_joke_url(), "https://api.gurkz.me/api/dad-joke");
    assert_eq!(dad_command_reply(Some("a pun")), "here's one: a pun");
    assert_eq!(
        dad_command_reply(None),
        "the dad joke was so bad that i'm not even going to say it..."
    );
}

#[test]
fn info_lists_authors_with_commas() {
    assert_eq!(authors_field("a <a@x>:b <b@y>"), "a <a@x>, b <b@y>");
    assert_eq!(authors_field("solo"), "solo");
}

#[test]
fn quoted_author_handles() {
    assert_eq!(create_username("bot", Some(42)), "bot#0042");
    assert_eq!(create_username("bot", Some(7)), "bot#0007");
    assert_eq!(create_username("bot", Some(1234)), "bot#1234");
    assert_eq!(create_username("bot", Some(12345)), "bot#12345");
    assert_eq!(create_username("someone", None), "@someone");
}

#[test]
fn traitor_moderator_check() {
    let t = TraitorConfig { discord_server_id: 10, moderator_role_ids: vec![5, 6] };
    assert_eq!(is_ingame_moderator(None, Some(10), Some(&vec![5])), Err("no config existed".to_string()));
    assert_eq!(
        is_ingame_moderator(Some(&t), None, Some(&vec![5])),
        Err("this command must be run in a server, not in DMs".to_string())
    );
    assert_eq!(
        is_ingame_moderator(Some(&t), Some(11), Some(&vec![5])),
        Err("this command can only be used in the Traitor server".to_string())
    );
    assert_eq!(
        is_ingame_moderator(Some(&t), Some(10), None),
        Err("couldn't fetch server member profile".to_string())
    );
    assert_eq!(is_ingame_moderator(Some(&t), Some(10), Some(&vec![1, 6])), Ok(true));
    assert_eq!(
        is_ingame_moderator(Some(&t), Some(10), Some(&vec![1, 2])),
        Err("you don't have permission to do that".to_string())
    );
    assert_eq!(moderator_precheck(Some(&t), Some(10)), Ok(()));
    assert_eq!(ban_reply(), "yeah this does nothing yet");
}
