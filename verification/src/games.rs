//! The bookkeeping of games: their start, with bots filling the seats that
//! the game server left to them, their end, with the rewards of the
//! players, and the periodic removal of stale games.
//!
//! Dates are nanoseconds from the UNIX epoch, durations nanoseconds.
use crate::error::Error;
use crate::sorting::stable_order;
use crate::sql::{statement_with_tuples, tuple_list, max_tuples, TupleShape};
use vstd::prelude::*;

verus! {

/// The identifier that a game server writes in place of a player to ask
/// for a bot.
pub const BOT_PLACEHOLDER: i64 = 0;

/// The answer to a game server that announces the start of a game.
pub struct StartedResult {
    pub game_id: i64,
    /// The players of the request, where each bot placeholder is replaced
    /// by the identifier of a bot.
    pub players: Vec<i64>,
}

/// The number of bot placeholders in `players`.
pub open spec fn placeholders_in(players: Seq<i64>) -> nat
    decreases players.len(),
{
    if players.len() == 0 {
        0
    } else {
        placeholders_in(players.drop_last()) + if players.last() == BOT_PLACEHOLDER {
            1nat
        } else {
            0nat
        }
    }
}

/// The players of a starting game once the `k`-th bot placeholder is
/// replaced by the `k`-th bot.
pub open spec fn with_bots(players: Seq<i64>, bots: Seq<i64>) -> Seq<i64> {
    Seq::new(
        players.len(),
        |i: int|
            if players[i] == BOT_PLACEHOLDER {
                bots[placeholders_in(players.take(i)) as int]
            } else {
                players[i]
            },
    )
}

/// The number of bot placeholders in `players`: the number of bots to
/// find for the game.
pub fn count_bot_placeholders(players: &[i64]) -> (r: usize)
    ensures
        r == placeholders_in(players@),
{
    let mut count: usize = 0;
    let mut i: usize = 0;
    proof {
        assert(players@.take(0) =~= Seq::<i64>::empty());
    }
    while i < players.len()
        invariant
            i <= players@.len(),
            count == placeholders_in(players@.take(i as int)),
            count <= i,
        decreases players.len() - i,
    {
        proof {
            assert(players@.take(i + 1).drop_last() =~= players@.take(i as int));
        }
        if players[i] == BOT_PLACEHOLDER {
            count = count + 1;
        }
        i = i + 1;
    }
    proof {
        assert(players@.take(i as int) =~= players@);
    }
    count
}

/// The players of a starting game, where the bot placeholders are
/// replaced, in order, by `bots`.
pub fn replace_bot_placeholders(players: &[i64], bots: &[i64]) -> (r: Vec<i64>)
    requires
        bots@.len() >= placeholders_in(players@),
    ensures
        r@ == with_bots(players@, bots@),
{
    let mut result: Vec<i64> = Vec::new();
    let mut b: usize = 0;
    let mut i: usize = 0;
    proof {
        assert(players@.take(0) =~= Seq::<i64>::empty());
    }
    while i < players.len()
        invariant
            i <= players@.len(),
            b == placeholders_in(players@.take(i as int)),
            bots@.len() >= placeholders_in(players@),
            result@.len() == i,
            forall|k: int| 0 <= k < i ==> result@[k] == with_bots(players@, bots@)[k],
        decreases players.len() - i,
    {
        proof {
            assert(players@.take(i + 1).drop_last() =~= players@.take(i as int));
            lemma_placeholders_prefix(players@, i + 1);
        }
        if players[i] == BOT_PLACEHOLDER {
            result.push(bots[b]);
            b = b + 1;
        } else {
            result.push(players[i]);
        }
        i = i + 1;
    }
    proof {
        assert(result@ =~= with_bots(players@, bots@));
    }
    result
}

/// A prefix holds no more placeholders than the whole.
pub proof fn lemma_placeholders_prefix(players: Seq<i64>, n: int)
    requires
        0 <= n <= players.len(),
    ensures
        placeholders_in(players.take(n)) <= placeholders_in(players),
    decreases players.len() - n,
{
    if n < players.len() {
        lemma_placeholders_prefix(players, n + 1);
        assert(players.take(n + 1).drop_last() =~= players.take(n));
    } else {
        assert(players.take(n) =~= players);
    }
}

/// Once the placeholders are replaced by bots none of which is a
/// placeholder, no placeholder is left, the players who were not
/// placeholders keep their seats, and the `k`-th placeholder seat goes to
/// the `k`-th bot.
pub proof fn lemma_bots_fill_placeholders(players: Seq<i64>, bots: Seq<i64>)
    requires
        bots.len() >= placeholders_in(players),
        forall|k: int| 0 <= k < bots.len() ==> bots[k] != BOT_PLACEHOLDER,
    ensures
        with_bots(players, bots).len() == players.len(),
        forall|i: int|
            0 <= i < players.len() ==> #[trigger] with_bots(players, bots)[i] != BOT_PLACEHOLDER,
        forall|i: int|
            0 <= i < players.len() && players[i] != BOT_PLACEHOLDER ==> #[trigger] with_bots(
                players,
                bots,
            )[i] == players[i],
        placeholders_in(with_bots(players, bots)) == 0,
{
    let r = with_bots(players, bots);
    assert forall|i: int| 0 <= i < players.len() implies #[trigger] r[i] != BOT_PLACEHOLDER by {
        if players[i] == BOT_PLACEHOLDER {
            lemma_placeholders_prefix(players, i + 1);
            assert(players.take(i + 1).drop_last() =~= players.take(i));
        }
    }
    lemma_no_placeholder(r);
}

/// A sequence holding no placeholder counts none.
pub proof fn lemma_no_placeholder(s: Seq<i64>)
    requires
        forall|i: int| 0 <= i < s.len() ==> s[i] != BOT_PLACEHOLDER,
    ensures
        placeholders_in(s) == 0,
    decreases s.len(),
{
    if s.len() > 0 {
        lemma_no_placeholder(s.drop_last());
    }
}

/// The next step of the search for the bots of a game.
#[derive(Debug, Clone, Copy, PartialEq, Eq, Structural)]
pub enum BotStep {
    /// Too few idle bots were found: create one more.
    Create,
    /// Enough bots were found.
    Done,
}

/// The step of the search for `count` bots once `found` are at hand: a new
/// bot is created while there are fewer than `count`.
pub fn bot_step(found: usize, count: usize) -> (r: BotStep)
    ensures
        found < count ==> r == BotStep::Create,
        found >= count ==> r == BotStep::Done,
{
    if found < count {
        BotStep::Create
    } else {
        BotStep::Done
    }
}

/// The mark that ends the nickname of a bot.
pub open spec fn bot_mark() -> Seq<char> {
    seq!['\u{1F529}']
}

/// The nickname of a new bot, picked among `names` by its identifier and
/// followed by the bot mark; `None` when there is no name to pick.
pub fn bot_nickname(names: &[&str], user_id: i64) -> (r: Option<String>)
    ensures
        names@.len() == 0 ==> r is None,
        names@.len() > 0 ==> (r matches Some(n) && n@ == names@[(user_id as usize) as int
            % names@.len() as int]@ + bot_mark()),
{
    if names.len() == 0 {
        return None;
    }
    let index: usize = (user_id as usize) % names.len();
    let mut nickname: String = crate::text::string_of(names[index]);
    proof {
        reveal_strlit("\u{1F529}");
    }
    nickname.append("\u{1F529}");
    Some(nickname)
}

/// The statement recording the players of a starting game: the game
/// identifier and a player per pair of parameters.
pub fn active_players_statement(player_count: usize) -> (r: String)
    requires
        player_count <= max_tuples(),
    ensures
        r@ == "insert into active_game_player values"@ + tuple_list(
            TupleShape::Pair,
            player_count as nat,
        ) + ""@,
{
    statement_with_tuples("insert into active_game_player values", TupleShape::Pair, player_count, "")
}

/// The statement recording the players who played a game that is over:
/// the game identifier as first parameter, then a player per parameter.
pub fn done_players_statement(player_count: usize) -> (r: String)
    requires
        player_count <= max_tuples(),
    ensures
        r@ == "insert into done_game_player values"@ + tuple_list(
            TupleShape::SharedFirst,
            player_count as nat,
        ) + ""@,
{
    statement_with_tuples("insert into done_game_player values", TupleShape::SharedFirst, player_count, "")
}

/// Whether the periodic removal of stale games is due at `now`, the last
/// one having run at `last_clean_up`: it is, unless the interval since
/// then is not over.
pub fn clean_up_due(last_clean_up: i128, interval: u128, now: i128) -> (r: bool)
    requires
        interval <= i128::MAX,
        last_clean_up + interval <= i128::MAX,
    ensures
        r == !(last_clean_up + interval > now),
{
    let end: i128 = last_clean_up + interval as i128;
    !(end > now)
}

/// The dates before which stale data is removed at `now`: the rewards of
/// games that ended before the first, and the games that started before
/// the second.
pub fn clean_up_cutoffs(now: i128, reward_lifespan: u128, auto_removal: u128) -> (r: (i128, i128))
    requires
        reward_lifespan <= i128::MAX,
        auto_removal <= i128::MAX,
        now - reward_lifespan >= i128::MIN,
        now - auto_removal >= i128::MIN,
    ensures
        r.0 == now - reward_lifespan,
        r.1 == now - auto_removal,
{
    (now - reward_lifespan as i128, now - auto_removal as i128)
}

/// Checks the ranking of a game that is over: `Err(Error::Unprocessable)`
/// unless there is one rank per player.
pub fn check_ranking(players: &[i64], player_ranks: &[i8]) -> (r: Result<(), Error>)
    ensures
        r == (if players@.len() == player_ranks@.len() {
            Ok::<(), Error>(())
        } else {
            Err(Error::Unprocessable)
        }),
{
    if players.len() != player_ranks.len() {
        return Err(Error::Unprocessable);
    }
    Ok(())
}

/// Checks that a game that is over was played on the game server that
/// reports it: `Err(Error::Unprocessable)` otherwise.
pub fn check_played_on_server(played_here: bool) -> (r: Result<(), Error>)
    ensures
        r == (if played_here {
            Ok::<(), Error>(())
        } else {
            Err(Error::Unprocessable)
        }),
{
    if !played_here {
        return Err(Error::Unprocessable);
    }
    Ok(())
}

/// Whether a player of a game that is over receives their reward: bots
/// receive nothing, neither coins nor a pending reward.
pub fn rewards_player(is_bot: bool) -> (r: bool)
    ensures
        r == !is_bot,
{
    !is_bot
}

/// Checks that every player of a game that is over was in the game when it
/// was active: `Err(Error::Unprocessable)` otherwise.
pub fn check_players_in_game(players: &[i64], initial_players: &[i64]) -> (r: Result<(), Error>)
    ensures
        r == (if forall|i: int|
            0 <= i < players@.len() ==> #[trigger] initial_players@.contains(players@[i]) {
            Ok::<(), Error>(())
        } else {
            Err(Error::Unprocessable)
        }),
{
    let mut i: usize = 0;
    while i < players.len()
        invariant
            i <= players@.len(),
            forall|k: int| 0 <= k < i ==> #[trigger] initial_players@.contains(players@[k]),
        decreases players.len() - i,
    {
        let p: i64 = players[i];
        let mut found: bool = false;
        let mut j: usize = 0;
        while j < initial_players.len()
            invariant
                j <= initial_players@.len(),
                found ==> initial_players@.contains(p),
                !found ==> forall|l: int| 0 <= l < j ==> initial_players@[l] != p,
            decreases initial_players.len() - j,
        {
            if initial_players[j] == p {
                found = true;
                assert(initial_players@[j as int] == p);
            }
            j = j + 1;
        }
        if !found {
            assert(!initial_players@.contains(players@[i as int]));
            return Err(Error::Unprocessable);
        }
        i = i + 1;
    }
    Ok(())
}

/// Whether a game that started at `start` and ends at `now` is short: it
/// lasted less than `max_short_seconds` whole seconds, or it ends before
/// its start.
pub open spec fn spec_is_short_game(start: i128, now: i128, max_short_seconds: u64) -> bool {
    if now >= start {
        (now - start) / 1_000_000_000 < max_short_seconds
    } else {
        true
    }
}

/// A game that lasted a while is short exactly when it lasted less than
/// `max_short_seconds` seconds; so a game is short at most as long as a
/// shorter one is, and one that ends before its start is short.
pub proof fn lemma_short_game_by_duration(start: i128, now: i128, max_short_seconds: u64)
    ensures
        now >= start ==> (spec_is_short_game(start, now, max_short_seconds) <==> now - start
            < max_short_seconds * 1_000_000_000),
        now < start ==> spec_is_short_game(start, now, max_short_seconds),
{
    if now >= start {
        let d: int = now - start;
        let m: int = max_short_seconds as int;
        assert((d / 1_000_000_000 < m) <==> (d < m * 1_000_000_000)) by (nonlinear_arith)
            requires
                d >= 0,
                m >= 0,
        ;
    }
}

/// Whether a game that started at `start` and ends at `now` is short: it
/// lasted less than `max_short_seconds` whole seconds, or it ends before
/// its start.
pub fn is_short_game(start: i128, now: i128, max_short_seconds: u64) -> (r: bool)
    requires
        now - start <= i128::MAX,
    ensures
        r == spec_is_short_game(start, now, max_short_seconds),
        now >= start ==> (r <==> now - start < max_short_seconds * 1_000_000_000),
        now < start ==> r,
{
    proof {
        lemma_short_game_by_duration(start, now, max_short_seconds);
    }
    if now >= start {
        let seconds: i128 = (now - start) / 1_000_000_000;
        seconds < max_short_seconds as i128
    } else {
        true
    }
}

/// The name and the default value of the configuration entry holding the
/// coins won by a victory, or `None` when the game has no winner, in which
/// case a victory is worth nothing.
pub fn victory_reward_key(has_a_winner: bool, short_game: bool) -> (r: Option<(&'static str, i64)>)
    ensures
        !has_a_winner ==> r is None,
        has_a_winner && short_game ==> (r matches Some(k) && k.0@
            == "games.coins_per_short_game_victory"@ && k.1 == 0),
        has_a_winner && !short_game ==> (r matches Some(k) && k.0@ == "games.coins_per_victory"@
            && k.1 == 10),
{
    if !has_a_winner {
        None
    } else if short_game {
        Some(("games.coins_per_short_game_victory", 0))
    } else {
        Some(("games.coins_per_victory", 10))
    }
}

/// The name and the default value of the configuration entry holding the
/// coins given for a defeat.
pub fn defeat_reward_key(short_game: bool) -> (r: (&'static str, i64))
    ensures
        short_game ==> r.0@ == "games.coins_per_short_game_defeat"@ && r.1 == 0,
        !short_game ==> r.0@ == "games.coins_per_defeat"@ && r.1 == 10,
{
    if short_game {
        ("games.coins_per_short_game_defeat", 0)
    } else {
        ("games.coins_per_defeat", 10)
    }
}

/// The name and the default value of the configuration entry holding the
/// coins given for a draw.
pub fn draw_reward_key(short_game: bool) -> (r: (&'static str, i64))
    ensures
        short_game ==> r.0@ == "games.coins_per_short_game_draw"@ && r.1 == 0,
        !short_game ==> r.0@ == "games.coins_per_draw"@ && r.1 == 10,
{
    if short_game {
        ("games.coins_per_short_game_draw", 0)
    } else {
        ("games.coins_per_draw", 10)
    }
}

/// Whether the player at position `a` comes before the player at position
/// `b`: a lower rank first, and the order of the request among equals.
pub open spec fn ranked_before(ranks: Seq<i8>, a: int, b: int) -> bool {
    ranks[a] < ranks[b] || (ranks[a] == ranks[b] && a < b)
}

/// `order` lists the positions of all players, from the best rank to the
/// worst, keeping the order of the request among equal ranks.
pub open spec fn is_ranking_order(order: Seq<usize>, ranks: Seq<i8>) -> bool {
    &&& ranks.len() <= usize::MAX
    &&& order.len() == ranks.len()
    &&& forall|k: int| 0 <= k < order.len() ==> #[trigger] order[k] < ranks.len()
    &&& forall|k: int, l: int|
        0 <= k < l < order.len() ==> ranked_before(ranks, #[trigger] order[k] as int, #[trigger] order[l] as int)
    &&& forall|p: int| 0 <= p < ranks.len() ==> #[trigger] order.contains(p as usize)
}

/// The positions of the players from the best rank to the worst, keeping
/// the order of the request among equal ranks.
pub fn ranking_order(player_ranks: &[i8]) -> (r: Vec<usize>)
    ensures
        is_ranking_order(r@, player_ranks@),
{
    let mut keys: Vec<i64> = Vec::new();
    let mut i: usize = 0;
    while i < player_ranks.len()
        invariant
            i <= player_ranks@.len(),
            keys@.len() == i,
            forall|k: int| 0 <= k < i ==> #[trigger] keys@[k] == player_ranks@[k] as i64,
        decreases player_ranks.len() - i,
    {
        keys.push(player_ranks[i] as i64);
        i = i + 1;
    }
    let order: Vec<usize> = stable_order(keys.as_slice());
    proof {
        assert forall|k: int, l: int| 0 <= k < l < order@.len() implies ranked_before(
            player_ranks@,
            #[trigger] order@[k] as int,
            #[trigger] order@[l] as int,
        ) by {
            let a = order@[k] as int;
            let b = order@[l] as int;
            assert(keys@[a] == player_ranks@[a] as i64);
            assert(keys@[b] == player_ranks@[b] as i64);
        }
    }
    order
}

/// Why coins are given to a player at the end of a game.
#[derive(Debug, Clone, Copy, PartialEq, Eq, Structural)]
pub enum RewardReason {
    Victory,
    Defeat,
    Draw,
}

impl RewardReason {
    /// The reason as written in the history of the wallet.
    pub fn text(&self) -> (r: &'static str)
        ensures
            *self == RewardReason::Victory ==> r@ == "game-victory"@,
            *self == RewardReason::Defeat ==> r@ == "game-defeat"@,
            *self == RewardReason::Draw ==> r@ == "game-draw"@,
    {
        match self {
            RewardReason::Victory => "game-victory",
            RewardReason::Defeat => "game-defeat",
            RewardReason::Draw => "game-draw",
        }
    }
}

/// The reward of one player at the end of a game.
#[derive(Debug, Clone, Copy, PartialEq, Eq, Structural)]
pub struct RewardDecision {
    /// The position of the player in the request.
    pub player_index: usize,
    pub coins: i64,
    pub reason: RewardReason,
    /// Whether the reward is kept for the player to claim; a reward of no
    /// coins removes the pending one instead.
    pub record_reward: bool,
}

/// Whether the best rank of the game is shared: the two first players of
/// the ranking order have the same rank.
pub open spec fn is_draw_game(ranks: Seq<i8>, order: Seq<usize>) -> bool {
    ranks.len() > 1 && ranks[order[0] as int] == ranks[order[1] as int]
}

/// The coins and the reason of the reward of the player at position `p`,
/// in a game where `order` is the ranking order.
pub open spec fn reward_of(
    ranks: Seq<i8>,
    order: Seq<usize>,
    p: int,
    victory: i64,
    defeat: i64,
    draw: i64,
) -> (i64, RewardReason) {
    if ranks[p] == ranks[order[0] as int] {
        if is_draw_game(ranks, order) {
            (draw, RewardReason::Draw)
        } else {
            (victory, RewardReason::Victory)
        }
    } else {
        (defeat, RewardReason::Defeat)
    }
}

/// The positions of the players in a list of rewards.
pub open spec fn rewarded_players(rewards: Seq<RewardDecision>) -> Seq<usize> {
    rewards.map_values(|d: RewardDecision| d.player_index)
}

/// The rewards of the players of a game that is over, in ranking order:
/// the players of the best rank get `victory` coins, or `draw` coins when
/// they are more than one, and the others get `defeat` coins.
pub fn distribute_rewards(player_ranks: &[i8], victory: i64, defeat: i64, draw: i64) -> (r: Vec<
    RewardDecision,
>)
    ensures
        is_ranking_order(rewarded_players(r@), player_ranks@),
        forall|k: int|
            0 <= k < r@.len() ==> {
                let d = #[trigger] r@[k];
                let w = reward_of(
                    player_ranks@,
                    rewarded_players(r@),
                    d.player_index as int,
                    victory,
                    defeat,
                    draw,
                );
                &&& d.coins == w.0
                &&& d.reason == w.1
                &&& d.record_reward == (w.0 != 0)
            },
        forall|k: int|
            0 <= k < r@.len() ==> {
                let d = #[trigger] r@[k];
                let p = d.player_index as int;
                &&& has_better_rank(player_ranks@, p) ==> d.coins == defeat && d.reason
                    == RewardReason::Defeat
                &&& !has_better_rank(player_ranks@, p) && shares_rank(player_ranks@, p) ==> d.coins
                    == draw && d.reason == RewardReason::Draw
                &&& !has_better_rank(player_ranks@, p) && !shares_rank(player_ranks@, p) ==> d.coins
                    == victory && d.reason == RewardReason::Victory
                &&& d.record_reward == (d.coins != 0)
            },
{
    let order: Vec<usize> = ranking_order(player_ranks);
    let n: usize = order.len();
    let draw_game: bool = n > 1 && player_ranks[order[0]] == player_ranks[order[1]];
    let mut result: Vec<RewardDecision> = Vec::new();
    let mut k: usize = 0;
    while k < n
        invariant
            n == order@.len(),
            is_ranking_order(order@, player_ranks@),
            draw_game == is_draw_game(player_ranks@, order@),
            k <= n,
            result@.len() == k,
            forall|j: int| 0 <= j < k ==> (#[trigger] result@[j]).player_index == order@[j],
            forall|j: int|
                0 <= j < k ==> {
                    let d = #[trigger] result@[j];
                    let w = reward_of(
                        player_ranks@,
                        order@,
                        d.player_index as int,
                        victory,
                        defeat,
                        draw,
                    );
                    &&& d.coins == w.0
                    &&& d.reason == w.1
                    &&& d.record_reward == (w.0 != 0)
                },
        decreases n - k,
    {
        let p: usize = order[k];
        let (coins, reason) = if player_ranks[p] == player_ranks[order[0]] {
            if draw_game {
                (draw, RewardReason::Draw)
            } else {
                (victory, RewardReason::Victory)
            }
        } else {
            (defeat, RewardReason::Defeat)
        };
        result.push(RewardDecision { player_index: p, coins, reason, record_reward: coins != 0 });
        k = k + 1;
    }
    proof {
        assert(rewarded_players(result@) =~= order@);
        assert forall|k: int| 0 <= k < result@.len() implies {
            let d = #[trigger] result@[k];
            let p = d.player_index as int;
            &&& has_better_rank(player_ranks@, p) ==> d.coins == defeat && d.reason
                == RewardReason::Defeat
            &&& !has_better_rank(player_ranks@, p) && shares_rank(player_ranks@, p) ==> d.coins
                == draw && d.reason == RewardReason::Draw
            &&& !has_better_rank(player_ranks@, p) && !shares_rank(player_ranks@, p) ==> d.coins
                == victory && d.reason == RewardReason::Victory
            &&& d.record_reward == (d.coins != 0)
        } by {
            let p = result@[k].player_index as int;
            assert(p == order@[k]);
            lemma_reward_by_rank(player_ranks@, order@, victory, defeat, draw, p);
        }
    }
    result
}

/// The answer to a claim, from the coins of the pending reward it removed,
/// if any.
pub open spec fn spec_claimed_reward(pending: Option<i64>) -> Result<i64, Error> {
    match pending {
        Some(c) => Ok(c),
        None => Err(Error::BadParameter),
    }
}

/// The coins of the reward claimed by a player, read from the pending
/// rewards: `Err(Error::BadParameter)` when there is none for this game.
pub fn claimed_reward(pending: Option<i64>) -> (r: Result<i64, Error>)
    ensures
        r == spec_claimed_reward(pending),
{
    match pending {
        Some(c) => Ok(c),
        None => Err(Error::BadParameter),
    }
}

/// The coins of the pending reward of `user_id` for the game `game_id`,
/// among the pending rewards `rewards`, which hold for each user the game
/// and the coins of their last reward.
pub open spec fn pending_reward(rewards: Map<i64, (i64, i64)>, game_id: i64, user_id: i64) -> Option<i64> {
    if rewards.dom().contains(user_id) && rewards[user_id].0 == game_id {
        Some(rewards[user_id].1)
    } else {
        None
    }
}

/// The pending rewards after `user_id` claims the reward of `game_id`: the
/// claimed reward is removed; a claim that finds none removes nothing.
pub open spec fn rewards_after_claim(rewards: Map<i64, (i64, i64)>, game_id: i64, user_id: i64) -> Map<
    i64,
    (i64, i64),
> {
    if pending_reward(rewards, game_id, user_id) is Some {
        rewards.remove(user_id)
    } else {
        rewards
    }
}

/// A reward is claimed once: a claim answers the pending coins, or
/// `Err(Error::BadParameter)` when there is no reward of that game for the
/// user, and a second claim of the same reward is refused. The rewards of
/// the other users are left as they are.
pub proof fn lemma_reward_claimed_once(rewards: Map<i64, (i64, i64)>, game_id: i64, user_id: i64)
    ensures
        spec_claimed_reward(pending_reward(rewards, game_id, user_id)) == (if rewards.dom().contains(
            user_id,
        ) && rewards[user_id].0 == game_id {
            Ok::<i64, Error>(rewards[user_id].1)
        } else {
            Err(Error::BadParameter)
        }),
        spec_claimed_reward(
            pending_reward(rewards_after_claim(rewards, game_id, user_id), game_id, user_id),
        ) == Err::<i64, Error>(Error::BadParameter),
        pending_reward(rewards, game_id, user_id) is None ==> rewards_after_claim(
            rewards,
            game_id,
            user_id,
        ) == rewards,
        forall|k: i64|
            k != user_id ==> (#[trigger] rewards_after_claim(rewards, game_id, user_id).dom().contains(k)
                == rewards.dom().contains(k)),
        forall|k: i64|
            k != user_id && #[trigger] rewards.dom().contains(k) ==> rewards_after_claim(
                rewards,
                game_id,
                user_id,
            )[k] == rewards[k],
{
}

} // verus!

verus! {

/// The player listed first by a ranking order has the best rank, and every
/// player is listed exactly once.
pub proof fn lemma_ranking_order_lists_each_once(order: Seq<usize>, ranks: Seq<i8>)
    requires
        is_ranking_order(order, ranks),
        ranks.len() > 0,
    ensures
        forall|p: int| 0 <= p < ranks.len() ==> ranks[order[0] as int] <= #[trigger] ranks[p],
        forall|k: int, l: int| 0 <= k < l < order.len() ==> #[trigger] order[k] != #[trigger] order[l],
{
    assert forall|p: int| 0 <= p < ranks.len() implies ranks[order[0] as int] <= #[trigger] ranks[p] by {
        assert(order.contains(p as usize));
        let k = choose|k: int| 0 <= k < order.len() && order[k] == p as usize;
        if k > 0 {
            assert(ranked_before(ranks, order[0] as int, order[k] as int));
        }
    }
    assert forall|k: int, l: int| 0 <= k < l < order.len() implies #[trigger] order[k] != #[trigger] order[l] by {
        assert(ranked_before(ranks, order[k] as int, order[l] as int));
    }
}

/// A game is a draw exactly when at least two players share the best rank;
/// otherwise the first player of the ranking order is the only one with the
/// best rank, and so the only winner.
pub proof fn lemma_draw_when_best_rank_shared(order: Seq<usize>, ranks: Seq<i8>)
    requires
        is_ranking_order(order, ranks),
        ranks.len() > 0,
    ensures
        is_draw_game(ranks, order) <==> exists|p: int, q: int|
            0 <= p < ranks.len() && 0 <= q < ranks.len() && p != q && ranks[p] == ranks[q]
                && #[trigger] ranks[p] == ranks[order[0] as int] && #[trigger] ranks[q] == ranks[order[0] as int],
        !is_draw_game(ranks, order) ==> forall|p: int|
            0 <= p < ranks.len() && #[trigger] ranks[p] == ranks[order[0] as int] ==> p == order[0] as int,
{
    lemma_ranking_order_lists_each_once(order, ranks);
    if is_draw_game(ranks, order) {
        let p = order[0] as int;
        let q = order[1] as int;
        assert(order[0] != order[1]);
        assert(ranks[p] == ranks[order[0] as int] && ranks[q] == ranks[order[0] as int]);
    } else {
        assert forall|p: int|
            0 <= p < ranks.len() && #[trigger] ranks[p] == ranks[order[0] as int] implies p == order[0] as int by {
            assert(order.contains(p as usize));
            let k = choose|k: int| 0 <= k < order.len() && order[k] == p as usize;
            if k > 0 {
                assert(ranked_before(ranks, order[0] as int, order[k] as int));
                if k > 1 {
                    assert(ranked_before(ranks, order[1] as int, order[k] as int));
                    assert(ranked_before(ranks, order[0] as int, order[1] as int));
                }
                assert(ranks.len() > 1);
            }
        }
        if exists|p: int, q: int|
            0 <= p < ranks.len() && 0 <= q < ranks.len() && p != q && ranks[p] == ranks[q]
                && #[trigger] ranks[p] == ranks[order[0] as int] && #[trigger] ranks[q] == ranks[order[0] as int] {
            let (p, q) = choose|p: int, q: int|
                0 <= p < ranks.len() && 0 <= q < ranks.len() && p != q && ranks[p] == ranks[q]
                    && #[trigger] ranks[p] == ranks[order[0] as int] && #[trigger] ranks[q] == ranks[order[0] as int];
            assert(p == order[0] as int);
            assert(q == order[0] as int);
        }
    }
}

/// The rewards of a game: every player of the best rank wins or draws,
/// every other player is defeated, and a game with a single best player has
/// exactly one victory.
pub proof fn lemma_rewards_follow_ranks(
    ranks: Seq<i8>,
    order: Seq<usize>,
    victory: i64,
    defeat: i64,
    draw: i64,
)
    requires
        is_ranking_order(order, ranks),
        ranks.len() > 0,
    ensures
        forall|p: int|
            0 <= p < ranks.len() ==> (#[trigger] reward_of(ranks, order, p, victory, defeat, draw).1
                == RewardReason::Defeat <==> exists|q: int| 0 <= q < ranks.len() && ranks[q] < ranks[p]),
        !is_draw_game(ranks, order) ==> forall|p: int|
            0 <= p < ranks.len() && #[trigger] reward_of(ranks, order, p, victory, defeat, draw).1
                == RewardReason::Victory ==> p == order[0] as int,
        is_draw_game(ranks, order) ==> forall|p: int|
            0 <= p < ranks.len() ==> #[trigger] reward_of(ranks, order, p, victory, defeat, draw).1
                != RewardReason::Victory,
{
    lemma_ranking_order_lists_each_once(order, ranks);
    lemma_draw_when_best_rank_shared(order, ranks);
    assert forall|p: int|
        0 <= p < ranks.len() implies (#[trigger] reward_of(ranks, order, p, victory, defeat, draw).1
        == RewardReason::Defeat <==> exists|q: int| 0 <= q < ranks.len() && ranks[q] < ranks[p]) by {
        let best = order[0] as int;
        if ranks[p] != ranks[best] {
            assert(ranks[best] < ranks[p]);
        }
        if exists|q: int| 0 <= q < ranks.len() && ranks[q] < ranks[p] {
            let q = choose|q: int| 0 <= q < ranks.len() && ranks[q] < ranks[p];
            assert(ranks[best] <= ranks[q]);
        }
    }
}

/// Whether some player of the game has a better (lower) rank than the
/// player at position `p`.
pub open spec fn has_better_rank(ranks: Seq<i8>, p: int) -> bool {
    exists|q: int| 0 <= q < ranks.len() && #[trigger] ranks[q] < ranks[p]
}

/// Whether another player of the game has the same rank as the player at
/// position `p`.
pub open spec fn shares_rank(ranks: Seq<i8>, p: int) -> bool {
    exists|q: int| 0 <= q < ranks.len() && q != p && #[trigger] ranks[q] == ranks[p]
}

/// The reward of each player follows from the ranks alone: a player that
/// another player beat gets exactly `defeat` coins, the sole player of the
/// best rank gets `victory` coins, and the players sharing the best rank
/// get `draw` coins each; the coins always match the reason.
pub proof fn lemma_reward_by_rank(
    ranks: Seq<i8>,
    order: Seq<usize>,
    victory: i64,
    defeat: i64,
    draw: i64,
    p: int,
)
    requires
        is_ranking_order(order, ranks),
        0 <= p < ranks.len(),
    ensures
        has_better_rank(ranks, p) ==> reward_of(ranks, order, p, victory, defeat, draw) == (
            defeat,
            RewardReason::Defeat,
        ),
        !has_better_rank(ranks, p) && shares_rank(ranks, p) ==> reward_of(
            ranks,
            order,
            p,
            victory,
            defeat,
            draw,
        ) == (draw, RewardReason::Draw),
        !has_better_rank(ranks, p) && !shares_rank(ranks, p) ==> reward_of(
            ranks,
            order,
            p,
            victory,
            defeat,
            draw,
        ) == (victory, RewardReason::Victory),
{
    lemma_ranking_order_lists_each_once(order, ranks);
    lemma_draw_when_best_rank_shared(order, ranks);
    let best = order[0] as int;
    assert(0 <= best < ranks.len());
    if has_better_rank(ranks, p) {
        let q = choose|q: int| 0 <= q < ranks.len() && #[trigger] ranks[q] < ranks[p];
        assert(ranks[best] <= ranks[q]);
    } else {
        assert(ranks[best] <= ranks[p]);
        if ranks[best] < ranks[p] {
            assert(has_better_rank(ranks, p));
        }
        assert(ranks[p] == ranks[best]);
        if shares_rank(ranks, p) {
            let q = choose|q: int| 0 <= q < ranks.len() && q != p && #[trigger] ranks[q] == ranks[p];
            assert(ranks[p] == ranks[best as int] && ranks[q] == ranks[best as int]);
        } else {
            if is_draw_game(ranks, order) {
                let a = order[0] as int;
                let b = order[1] as int;
                assert(order[0] != order[1]);
                assert(ranks[a] == ranks[b]);
                if a != p {
                    assert(ranks[a] == ranks[p]);
                } else {
                    assert(b != p && ranks[b] == ranks[p]);
                }
            }
        }
    }
}

} // verus!
