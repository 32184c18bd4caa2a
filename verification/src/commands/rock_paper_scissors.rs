//! Rock paper scissors between two users, with a timeout for the loser.
use vstd::prelude::*;

use crate::random::choose_one;
use crate::text::{chars_of, decimal, decimal_string, ends_with, has_suffix_chars};
use vstd::string::StringExecFns;

verus! {

/// A hand in rock paper scissors.
#[derive(Debug, Clone, Copy, PartialEq, Eq, Structural)]
pub enum RockPaperScissorsOption {
    Rock,
    Paper,
    Scissors,
}

impl RockPaperScissorsOption {
    /// The name of the hand.
    pub open spec fn name(self) -> Seq<char> {
        match self {
            RockPaperScissorsOption::Rock => "Rock"@,
            RockPaperScissorsOption::Paper => "Paper"@,
            RockPaperScissorsOption::Scissors => "Scissors"@,
        }
    }

    /// Rock beats scissors, scissors beat paper, paper beats rock.
    pub open spec fn wins_against(self, other: Self) -> bool {
        ||| (self == RockPaperScissorsOption::Rock && other == RockPaperScissorsOption::Scissors)
        ||| (self == RockPaperScissorsOption::Scissors && other == RockPaperScissorsOption::Paper)
        ||| (self == RockPaperScissorsOption::Paper && other == RockPaperScissorsOption::Rock)
    }

    /// The emoji shown on the hand's button.
    pub open spec fn emoji(self) -> Seq<char> {
        match self {
            RockPaperScissorsOption::Paper => "📄"@,
            RockPaperScissorsOption::Rock => "🪨"@,
            RockPaperScissorsOption::Scissors => "✂️"@,
        }
    }

    /// The name of the hand.
    pub fn as_str(self) -> (r: &'static str)
        ensures
            r@ == self.name(),
    {
        match self {
            RockPaperScissorsOption::Rock => "Rock",
            RockPaperScissorsOption::Paper => "Paper",
            RockPaperScissorsOption::Scissors => "Scissors",
        }
    }

    /// The emoji shown on the hand's button.
    pub fn as_emoji(self) -> (r: &'static str)
        ensures
            r@ == self.emoji(),
    {
        match self {
            RockPaperScissorsOption::Paper => "📄",
            RockPaperScissorsOption::Rock => "🪨",
            RockPaperScissorsOption::Scissors => "✂️",
        }
    }

    /// Whether this hand beats `other`.
    pub fn beats(self, other: Self) -> (r: bool)
        ensures
            r == self.wins_against(other),
    {
        match (self, other) {
            (RockPaperScissorsOption::Rock, RockPaperScissorsOption::Scissors)
            | (RockPaperScissorsOption::Scissors, RockPaperScissorsOption::Paper)
            | (RockPaperScissorsOption::Paper, RockPaperScissorsOption::Rock) => true,
            _ => false,
        }
    }

    /// A hand picked at random.
    pub fn get_random_option() -> (r: Self) {
        let options = [
            RockPaperScissorsOption::Rock,
            RockPaperScissorsOption::Paper,
            RockPaperScissorsOption::Scissors,
        ];
        match choose_one(&options) {
            Some(o) => o,
            None => RockPaperScissorsOption::Rock,
        }
    }
}

/// The suffix of a button id that names `o`.
pub open spec fn id_suffix(o: RockPaperScissorsOption) -> Seq<char> {
    seq!['.'] + o.name()
}

/// The hand that a button id names: the first of rock, paper, scissors whose `.Name` ends it.
pub open spec fn hand_of_id(id: Seq<char>) -> Option<RockPaperScissorsOption> {
    if ends_with(id, id_suffix(RockPaperScissorsOption::Rock)) {
        Some(RockPaperScissorsOption::Rock)
    } else if ends_with(id, id_suffix(RockPaperScissorsOption::Paper)) {
        Some(RockPaperScissorsOption::Paper)
    } else if ends_with(id, id_suffix(RockPaperScissorsOption::Scissors)) {
        Some(RockPaperScissorsOption::Scissors)
    } else {
        None
    }
}

fn suffix_chars(o: RockPaperScissorsOption) -> (r: Vec<char>)
    ensures
        r@ == id_suffix(o),
{
    let mut v: Vec<char> = Vec::new();
    v.push('.');
    let name = chars_of(o.as_str());
    let mut i: usize = 0;
    while i < name.len()
        invariant
            i <= name.len(),
            name@ == o.name(),
            v@ == seq!['.'] + name@.take(i as int),
        decreases name.len() - i,
    {
        v.push(name[i]);
        assert(v@ =~= seq!['.'] + name@.take(i as int + 1));
        i = i + 1;
    }
    assert(name@.take(name.len() as int) =~= name@);
    v
}

/// The hand that a button id names.
pub fn hand_from_custom_id(id: &str) -> (r: Option<RockPaperScissorsOption>)
    ensures
        r == hand_of_id(id@),
{
    let s = chars_of(id);
    if has_suffix_chars(&s, &suffix_chars(RockPaperScissorsOption::Rock)) {
        Some(RockPaperScissorsOption::Rock)
    } else if has_suffix_chars(&s, &suffix_chars(RockPaperScissorsOption::Paper)) {
        Some(RockPaperScissorsOption::Paper)
    } else if has_suffix_chars(&s, &suffix_chars(RockPaperScissorsOption::Scissors)) {
        Some(RockPaperScissorsOption::Scissors)
    } else {
        None
    }
}

/// What the game does with a button click.
#[derive(Debug, Clone, Copy, PartialEq, Eq)]
pub enum RpsAction {
    /// The button id names no hand: nothing is answered.
    Ignore,
    /// Someone outside the game clicked: they are told so, privately.
    RejectOutsider,
    /// The click is recorded and acknowledged; the game goes on.
    Acknowledge,
    /// Both hands are known: the result is announced and the game ends.
    Finish(RockPaperScissorsOption, RockPaperScissorsOption),
}

/// A running game: who plays, and the hands chosen so far.
#[derive(Debug, Clone, Copy)]
pub struct RpsGame {
    /// The user who started the game.
    pub challenger: u64,
    /// The user challenged.
    pub opponent: u64,
    /// The opponent's hand is drawn at random (a bot, or the challenger playing alone).
    pub opponent_is_auto: bool,
    pub challenger_choice: Option<RockPaperScissorsOption>,
    pub opponent_choice: Option<RockPaperScissorsOption>,
    /// The result was announced.
    pub finished: bool,
}

/// The game after a click by `clicker` on the button `id`, and what is done about it, where
/// `pick` is the random hand that an automatic opponent would play.
pub open spec fn rps_step(
    g: RpsGame,
    clicker: u64,
    id: Seq<char>,
    pick: RockPaperScissorsOption,
) -> (RpsGame, RpsAction) {
    if g.finished {
        (g, RpsAction::Ignore)
    } else {
        match hand_of_id(id) {
            None => (g, RpsAction::Ignore),
            Some(hand) => if clicker != g.challenger && clicker != g.opponent {
                (g, RpsAction::RejectOutsider)
            } else {
                let g1 = if clicker == g.challenger {
                    RpsGame { challenger_choice: Some(hand), ..g }
                } else {
                    RpsGame { opponent_choice: Some(hand), ..g }
                };
                let g2 = if g.opponent_is_auto {
                    RpsGame { opponent_choice: Some(pick), ..g1 }
                } else {
                    g1
                };
                match (g2.challenger_choice, g2.opponent_choice) {
                    (Some(c1), Some(c2)) => (
                        RpsGame { finished: true, ..g2 },
                        RpsAction::Finish(c1, c2),
                    ),
                    _ => (g2, RpsAction::Acknowledge),
                }
            },
        }
    }
}

impl RpsGame {
    /// A game between `challenger` and `opponent`; the opponent plays at random when it is a
    /// bot or the challenger themself.
    pub fn new(challenger: u64, opponent: u64, opponent_is_bot: bool) -> (r: RpsGame)
        ensures
            r.challenger == challenger,
            r.opponent == opponent,
            r.opponent_is_auto == (opponent_is_bot || opponent == challenger),
            r.challenger_choice is None,
            r.opponent_choice is None,
            !r.finished,
    {
        RpsGame {
            challenger,
            opponent,
            opponent_is_auto: opponent_is_bot || opponent == challenger,
            challenger_choice: None,
            opponent_choice: None,
            finished: false,
        }
    }

    /// Handles a click, with `pick` as the automatic opponent's hand.
    pub fn click_with_pick(&mut self, clicker: u64, id: &str, pick: RockPaperScissorsOption) -> (r: RpsAction)
        ensures
            (*final(self), r) == rps_step(*old(self), clicker, id@, pick),
    {
        if self.finished {
            return RpsAction::Ignore;
        }
        let hand = match hand_from_custom_id(id) {
            None => return RpsAction::Ignore,
            Some(h) => h,
        };
        if clicker == self.challenger {
            self.challenger_choice = Some(hand);
        } else if clicker == self.opponent {
            self.opponent_choice = Some(hand);
        } else {
            return RpsAction::RejectOutsider;
        }
        if self.opponent_is_auto {
            self.opponent_choice = Some(pick);
        }
        match (self.challenger_choice, self.opponent_choice) {
            (Some(c1), Some(c2)) => {
                self.finished = true;
                RpsAction::Finish(c1, c2)
            },
            _ => RpsAction::Acknowledge,
        }
    }

    /// Handles a click; an automatic opponent's hand is drawn at random.
    pub fn click(&mut self, clicker: u64, id: &str) -> (r: RpsAction)
        ensures
            exists|pick: RockPaperScissorsOption|
                (*final(self), r) == rps_step(*old(self), clicker, id@, pick),
    {
        let pick = RockPaperScissorsOption::get_random_option();
        self.click_with_pick(clicker, id, pick)
    }
}

/// A player as the announcement shows them.
#[derive(Debug, Clone)]
pub struct RpsPlayer {
    pub id: u64,
    /// How the player is mentioned (`<@id>`).
    pub mention: String,
    /// The player's display name.
    pub display_name: String,
}

/// The result of a game: who loses (and is timed out) and the line that says so.
#[derive(Debug, Clone)]
pub struct RpsOutcome {
    pub losers: Vec<u64>,
    pub text: String,
}

/// The losers of a game between `u1` (playing `c1`) and `u2` (playing `c2`): both on a tie,
/// the one beaten otherwise, and nobody else; a player alone against themself is named once.
pub open spec fn rps_losers(u1: u64, u2: u64, c1: RockPaperScissorsOption, c2: RockPaperScissorsOption) -> Seq<u64> {
    if c1 == c2 {
        if u1 != u2 {
            seq![u1, u2]
        } else {
            seq![u1]
        }
    } else if c1.wins_against(c2) {
        if u1 != u2 {
            seq![u2]
        } else {
            seq![]
        }
    } else {
        if u1 != u2 {
            seq![u1]
        } else {
            seq![]
        }
    }
}

/// The line that tells the result.
pub open spec fn rps_result_line(
    u1: u64,
    u2: u64,
    name1: Seq<char>,
    name2: Seq<char>,
    c1: RockPaperScissorsOption,
    c2: RockPaperScissorsOption,
) -> Seq<char> {
    if c1 == c2 {
        if u1 == u2 {
            "You played yourself and tied!"@
        } else {
            "It's a tie!"@
        }
    } else if c1.wins_against(c2) {
        if u1 == u2 {
            "You played yourself and won!"@
        } else {
            name1 + " wins!"@
        }
    } else {
        if u1 == u2 {
            "You played yourself and lost!"@
        } else {
            name2 + " wins!"@
        }
    }
}

/// The announcement: both hands, then the result.
pub open spec fn rps_announcement(p1: RpsPlayer, p2: RpsPlayer, c1: RockPaperScissorsOption, c2: RockPaperScissorsOption) -> Seq<char> {
    p1.mention@ + " chose "@ + c1.name() + ".\n"@ + p2.mention@ + " chose "@ + c2.name()
        + ".\n\n"@ + rps_result_line(p1.id, p2.id, p1.display_name@, p2.display_name@, c1, c2)
}

/// The losers and the announcement of a finished game.
pub fn announce(p1: &RpsPlayer, p2: &RpsPlayer, c1: RockPaperScissorsOption, c2: RockPaperScissorsOption) -> (r: RpsOutcome)
    ensures
        r.losers@ == rps_losers(p1.id, p2.id, c1, c2),
        r.text@ == rps_announcement(*p1, *p2, c1, c2),
{
    let mut losers: Vec<u64> = Vec::new();
    let same = p1.id == p2.id;
    let line: String = if c1 == c2 {
        losers.push(p1.id);
        if !same {
            losers.push(p2.id);
        }
        if same {
            String::from_str("You played yourself and tied!")
        } else {
            String::from_str("It's a tie!")
        }
    } else if c1.beats(c2) {
        if !same {
            losers.push(p2.id);
        }
        if same {
            String::from_str("You played yourself and won!")
        } else {
            p1.display_name.clone().concat(" wins!")
        }
    } else {
        if !same {
            losers.push(p1.id);
        }
        if same {
            String::from_str("You played yourself and lost!")
        } else {
            p2.display_name.clone().concat(" wins!")
        }
    };
    assert(losers@ =~= rps_losers(p1.id, p2.id, c1, c2));
    let text = p1.mention.clone().concat(" chose ").concat(c1.as_str()).concat(".\n").concat(
        p2.mention.as_str(),
    ).concat(" chose ").concat(c2.as_str()).concat(".\n\n").concat(line.as_str());
    RpsOutcome { losers, text }
}

/// `s` without the occurrences of `x`.
pub open spec fn without(s: Seq<u64>, x: u64) -> Seq<u64>
    decreases s.len(),
{
    if s.len() == 0 {
        s
    } else if s.last() == x {
        without(s.drop_last(), x)
    } else {
        without(s.drop_last(), x).push(s.last())
    }
}

/// The losers that are timed out: in a server, every loser but the bot itself; in direct
/// messages, nobody.
pub open spec fn timeout_targets_spec(losers: Seq<u64>, bot_id: u64, in_guild: bool) -> Seq<u64> {
    if in_guild {
        without(losers, bot_id)
    } else {
        Seq::empty()
    }
}

/// The losers that are timed out.
pub fn timeout_targets(losers: &Vec<u64>, bot_id: u64, in_guild: bool) -> (r: Vec<u64>)
    ensures
        r@ == timeout_targets_spec(losers@, bot_id, in_guild),
{
    let mut out: Vec<u64> = Vec::new();
    if !in_guild {
        return out;
    }
    let mut i: usize = 0;
    while i < losers.len()
        invariant
            i <= losers.len(),
            out@ == without(losers@.take(i as int), bot_id),
        decreases losers.len() - i,
    {
        proof {
            assert(losers@.take(i as int + 1).drop_last() =~= losers@.take(i as int));
        }
        if losers[i] != bot_id {
            out.push(losers[i]);
        }
        i = i + 1;
    }
    assert(losers@.take(losers.len() as int) =~= losers@);
    out
}

/// The id of the button for hand `o` in the game started by message `message_id`.
pub open spec fn button_id(o: RockPaperScissorsOption, message_id: u64) -> Seq<char> {
    decimal(message_id as nat) + id_suffix(o)
}

impl RockPaperScissorsOption {
    /// The id of this hand's button: the message id, a dot and the hand's name, unique to
    /// this game.
    pub fn custom_id(self, message_id: u64) -> (r: String)
        ensures
            r@ == button_id(self, message_id),
    {
        proof {
            reveal_strlit(".");
        }
        let r = decimal_string(message_id).concat(".").concat(self.as_str());
        assert(r@ =~= button_id(self, message_id));
        r
    }
}

/// The message that opens the game.
pub fn challenge_text(challenger_mention: &str, opponent_mention: &str) -> (r: String)
    ensures
        r@ == challenger_mention@ + " has challenged "@ + opponent_mention@
            + " to Rock Paper Scissors!"@,
{
    String::from_str(challenger_mention).concat(" has challenged ").concat(opponent_mention).concat(
        " to Rock Paper Scissors!",
    )
}

/// Reading a button id gives back the hand it was made for.
pub proof fn lemma_button_id_round_trip(o: RockPaperScissorsOption, message_id: u64)
    ensures
        hand_of_id(button_id(o, message_id)) == Some(o),
{
    reveal_strlit("Rock");
    reveal_strlit("Paper");
    reveal_strlit("Scissors");
    let id = button_id(o, message_id);
    let d = decimal(message_id as nat);
    assert(id.skip(id.len() - id_suffix(o).len()) =~= id_suffix(o));
    let r = id_suffix(RockPaperScissorsOption::Rock);
    let p = id_suffix(RockPaperScissorsOption::Paper);
    if o != RockPaperScissorsOption::Rock {
        assert(id.last() != r.last());
        assert(!ends_with(id, r)) by {
            if ends_with(id, r) {
                assert(id.skip(id.len() - r.len()).last() == id.last());
            }
        }
    }
    if o == RockPaperScissorsOption::Scissors {
        assert(id.last() != p.last());
        assert(!ends_with(id, p)) by {
            if ends_with(id, p) {
                assert(id.skip(id.len() - p.len()).last() == id.last());
            }
        }
    }
}

/// No hand beats itself, and of two different hands exactly one beats the other.
pub proof fn lemma_beats_is_a_tournament(a: RockPaperScissorsOption, b: RockPaperScissorsOption)
    ensures
        !a.wins_against(a),
        a != b ==> (a.wins_against(b) != b.wins_against(a)),
{
}

/// Once the result is announced, clicks change nothing.
pub proof fn lemma_finished_game_is_final(g: RpsGame, clicker: u64, id: Seq<char>, pick: RockPaperScissorsOption)
    requires
        g.finished,
    ensures
        rps_step(g, clicker, id, pick) == (g, RpsAction::Ignore),
{
}

/// A click by someone outside the game leaves the game as it was.
pub proof fn lemma_outsider_changes_nothing(g: RpsGame, clicker: u64, id: Seq<char>, pick: RockPaperScissorsOption)
    requires
        clicker != g.challenger,
        clicker != g.opponent,
    ensures
        rps_step(g, clicker, id, pick).0 == g,
{
}

/// Against a bot, or alone, the challenger's first hand ends the game against the random pick.
pub proof fn lemma_auto_opponent_finishes_at_once(g: RpsGame, id: Seq<char>, pick: RockPaperScissorsOption)
    requires
        !g.finished,
        g.opponent_is_auto,
        hand_of_id(id) is Some,
    ensures
        rps_step(g, g.challenger, id, pick).1 == RpsAction::Finish(hand_of_id(id)->0, pick),
{
}

/// A finished game reports the hands that it recorded, and stays finished.
pub proof fn lemma_finish_reports_recorded_hands(g: RpsGame, clicker: u64, id: Seq<char>, pick: RockPaperScissorsOption)
    ensures
        ({
            let (g2, a) = rps_step(g, clicker, id, pick);
            a matches RpsAction::Finish(c1, c2) ==> g2.finished && g2.challenger_choice == Some(c1)
                && g2.opponent_choice == Some(c2)
        }),
{
}

/// A player's click on a hand button in a running game records that hand (an automatic
/// opponent's hand is the random pick) and keeps the other player's; as soon as both hands are
/// known the game ends with both of them announced, whichever player clicked last, and until
/// then the click is only acknowledged.
pub proof fn lemma_click_finishes_once_both_hands_known(
    g: RpsGame,
    clicker: u64,
    id: Seq<char>,
    pick: RockPaperScissorsOption,
)
    requires
        !g.finished,
        clicker == g.challenger || clicker == g.opponent,
        hand_of_id(id) is Some,
    ensures
        ({
            let (g2, a) = rps_step(g, clicker, id, pick);
            let h = hand_of_id(id)->0;
            &&& g2.challenger_choice == if clicker == g.challenger {
                Some(h)
            } else {
                g.challenger_choice
            }
            &&& g2.opponent_choice == if g.opponent_is_auto {
                Some(pick)
            } else if clicker == g.challenger {
                g.opponent_choice
            } else {
                Some(h)
            }
            &&& (g2.challenger_choice is Some && g2.opponent_choice is Some) ==> {
                &&& a == RpsAction::Finish(g2.challenger_choice->0, g2.opponent_choice->0)
                &&& g2.finished
            }
            &&& (g2.challenger_choice is None || g2.opponent_choice is None) ==> {
                &&& a == RpsAction::Acknowledge
                &&& !g2.finished
            }
            &&& g2.challenger == g.challenger && g2.opponent == g.opponent
            &&& g2.opponent_is_auto == g.opponent_is_auto
        }),
{
}

/// The winner is never among the losers; on a tie, both players lose.
pub proof fn lemma_winner_never_loses(u1: u64, u2: u64, c1: RockPaperScissorsOption, c2: RockPaperScissorsOption)
    requires
        u1 != u2,
    ensures
        c1.wins_against(c2) ==> !rps_losers(u1, u2, c1, c2).contains(u1),
        c2.wins_against(c1) ==> !rps_losers(u1, u2, c1, c2).contains(u2),
        c1 == c2 ==> rps_losers(u1, u2, c1, c2).contains(u1) && rps_losers(u1, u2, c1, c2).contains(u2),
{
    if c1 == c2 {
        assert(rps_losers(u1, u2, c1, c2)[0] == u1);
        assert(rps_losers(u1, u2, c1, c2)[1] == u2);
    }
}

/// The bot never times itself out, and only losers are timed out.
pub proof fn lemma_timeouts_spare_the_bot(losers: Seq<u64>, bot_id: u64, in_guild: bool)
    ensures
        !timeout_targets_spec(losers, bot_id, in_guild).contains(bot_id),
        forall|u: u64| #[trigger] timeout_targets_spec(losers, bot_id, in_guild).contains(u) ==> losers.contains(u),
    decreases losers.len(),
{
    if in_guild && losers.len() > 0 {
        lemma_timeouts_spare_the_bot(losers.drop_last(), bot_id, in_guild);
        let prev = without(losers.drop_last(), bot_id);
        assert forall|u: u64| #[trigger] without(losers, bot_id).contains(u) implies losers.contains(u) && u != bot_id by {
            if prev.contains(u) {
                let j = choose|j: int| 0 <= j < prev.len() && prev[j] == u;
                assert(losers.drop_last().contains(u));
                let k = choose|k: int| 0 <= k < losers.drop_last().len() && losers.drop_last()[k] == u;
                assert(losers[k] == u);
            } else {
                let j = choose|j: int| 0 <= j < without(losers, bot_id).len() && without(losers, bot_id)[j] == u;
                assert(without(losers, bot_id) == prev.push(losers.last()));
                assert(j == prev.len());
                assert(losers[losers.len() - 1] == u);
            }
        }
    }
}

} // verus!
