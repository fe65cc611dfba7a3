use vstd::prelude::*;
use std::collections::HashMap;
use crate::events::{Events, fires, lemma_fires_nothing, lemma_fires_then};
use crate::rng::{is_alphanumeric, sample_alphanumeric, thread_rng};
use crate::text::push_char;

verus! {

broadcast use vstd::std_specs::hash::group_hash_axioms;

/// Number of characters in a token made by `Token::new`.
pub const TOKEN_LEN: usize = 16;

/// Life of the princess, in seconds, when the game starts and when she is reborn.
pub const INITIAL_LIFE: i64 = 60;

/// Seconds of life that one feeding gives.
pub const FEED_GAIN: i64 = 10;

/// Number of ticks per second.
pub const TICKS_PER_SECOND: u64 = 1;

/// Seconds of life lost per tick: one tick lasts `1 / TICKS_PER_SECOND` seconds.
pub const LIFE_LOSS_PER_TICK: i64 = 1;

/// A dead princess is reborn on the tick that takes her life below this.
pub const REBIRTH_BELOW: i64 = -5;

/// The secret with which a player connects.
#[derive(Debug, Clone, PartialEq, Eq, Hash)]
pub struct Token(pub String);

impl View for Token {
    type V = Seq<char>;

    open spec fn view(&self) -> Seq<char> {
        self.0@
    }
}

impl Token {
    /// The token whose text is `chars`.
    pub fn from_chars(chars: &Vec<char>) -> (token: Token)
        ensures
            token@ == chars@,
    {
        let mut text = String::new();
        let mut n: usize = 0;
        while n < chars.len()
            invariant
                n <= chars@.len(),
                text@ == chars@.take(n as int),
            decreases chars@.len() - n,
        {
            push_char(&mut text, chars[n]);
            assert(chars@.take(n + 1) =~= chars@.take(n as int).push(chars@[n as int]));
            n = n + 1;
        }
        assert(chars@.take(n as int) =~= chars@);
        Token(text)
    }

    /// A fresh random token: `TOKEN_LEN` letters and digits, drawn one
    /// after the other.
    pub fn new() -> (token: Token)
        ensures
            token@.len() == TOKEN_LEN,
            forall|i: int| 0 <= i < TOKEN_LEN ==> is_alphanumeric(#[trigger] token@[i]),
    {
        let mut rng = thread_rng();
        let mut drawn: Vec<char> = Vec::new();
        let mut n: usize = 0;
        while n < TOKEN_LEN
            invariant
                n <= TOKEN_LEN,
                drawn@.len() == n,
                forall|i: int| 0 <= i < n ==> is_alphanumeric(#[trigger] drawn@[i]),
            decreases TOKEN_LEN - n,
        {
            let c = sample_alphanumeric(&mut rng);
            drawn.push(c);
            n = n + 1;
        }
        Token::from_chars(&drawn)
    }
}

/// The identity of a connected player.
#[derive(Debug, Clone, Copy, PartialEq, Eq, Hash, Structural)]
pub struct Id(pub usize);

/// The value a counter of ids holds after handing out `n`: one more, or
/// zero after the largest `usize`.
pub open spec fn counter_step(n: usize) -> usize {
    if n == usize::MAX {
        0
    } else {
        (n + 1) as usize
    }
}

/// Hands out player ids one after another, starting at 1.
pub struct IdCounter {
    next: usize,
    wrapped: Ghost<bool>,
}

impl IdCounter {
    /// Until it wraps, the counter never holds zero.
    #[verifier::type_invariant]
    spec fn positive_until_wrapped(self) -> bool {
        !self.wrapped@ ==> 1 <= self.next
    }

    /// The id that the next call of `Id::new` hands out.
    pub closed spec fn next_value(&self) -> usize {
        self.next
    }

    /// Whether the counter has gone past the largest `usize` and started
    /// again from zero.
    pub closed spec fn wrapped(&self) -> bool {
        self.wrapped@
    }

    /// A counter whose first id is 1.
    pub fn new() -> (counter: IdCounter)
        ensures
            counter.next_value() == 1,
            !counter.wrapped(),
    {
        IdCounter { next: 1, wrapped: Ghost(false) }
    }
}

impl Id {
    /// The next id of `counter`, which moves on by one (wrapping around).
    /// Until the counter wraps, ids are at least 1 and each one is below
    /// the counter's next value.
    pub fn new(counter: &mut IdCounter) -> (id: Id)
        ensures
            id.0 == old(counter).next_value(),
            final(counter).next_value() == counter_step(old(counter).next_value()),
            final(counter).wrapped() == (old(counter).wrapped() || old(counter).next_value() == usize::MAX),
            !old(counter).wrapped() ==> 1 <= id.0,
            !final(counter).wrapped() ==> id.0 < final(counter).next_value(),
    {
        proof {
            use_type_invariant(&*counter);
        }
        let id = counter.next;
        if counter.next == usize::MAX {
            counter.wrapped = Ghost(true);
            counter.next = 0;
        } else {
            counter.next = counter.next + 1;
        }
        Id(id)
    }
}

/// A connected player: the token it connected with and the id it was given.
#[derive(Debug, Clone)]
pub struct Player {
    pub token: Token,
    pub id: Id,
}

impl Player {
    /// A player with `token` and the next id of `counter`.
    pub fn new(token: Token, counter: &mut IdCounter) -> (player: Player)
        ensures
            player.token == token,
            player.id.0 == old(counter).next_value(),
            final(counter).next_value() == counter_step(old(counter).next_value()),
            final(counter).wrapped() == (old(counter).wrapped() || old(counter).next_value() == usize::MAX),
    {
        Player { token, id: Id::new(counter) }
    }
}

impl PartialEq for Player {
    /// Two players are the same player when their ids are equal.
    fn eq(&self, other: &Player) -> (same: bool) {
        self.id.0 == other.id.0
    }
}

impl vstd::std_specs::cmp::PartialEqSpecImpl for Player {
    open spec fn obeys_eq_spec() -> bool {
        true
    }

    open spec fn eq_spec(&self, other: &Player) -> bool {
        self.id.0 == other.id.0
    }
}

impl Eq for Player {}

/// What the server tells the clients.
#[derive(Debug, Clone)]
pub enum ServerMessage {
    Token(Token),
    Feed(Id),
    PrincessDied,
    PrincessLife(i64),
}

/// What a client asks of the server.
#[derive(Debug, Clone)]
pub enum ClientMessage {
    GetToken,
    Connect(Token),
    Feed,
}

/// The life after one tick: a living princess loses `LIFE_LOSS_PER_TICK`;
/// so does a dead one, unless that takes her below `REBIRTH_BELOW`, in which
/// case she is reborn with `INITIAL_LIFE`.
pub open spec fn life_after_tick(life: int) -> int {
    if life > 0 {
        life - LIFE_LOSS_PER_TICK
    } else if life - LIFE_LOSS_PER_TICK < REBIRTH_BELOW {
        INITIAL_LIFE as int
    } else {
        life - LIFE_LOSS_PER_TICK
    }
}

/// What one tick announces: `PrincessDied` when a living princess's life
/// reaches zero or less, then her new life if she is alive after the tick.
pub open spec fn tick_announcements(life: int) -> Seq<ServerMessage> {
    let next = life_after_tick(life);
    let death = if life > 0 && next <= 0 {
        seq![ServerMessage::PrincessDied]
    } else {
        Seq::<ServerMessage>::empty()
    };
    let alive = if next > 0 {
        seq![ServerMessage::PrincessLife(next as i64)]
    } else {
        Seq::<ServerMessage>::empty()
    };
    death + alive
}

/// The life after a feeding: only a living princess gains `FEED_GAIN`,
/// and no life grows past the largest `i64`.
pub open spec fn life_after_feed(life: int) -> int {
    if life > 0 {
        if life + FEED_GAIN > i64::MAX { i64::MAX as int } else { life + FEED_GAIN }
    } else {
        life
    }
}

/// What a feeding by `player` announces: who fed and the new life, or
/// nothing when the princess is dead.
pub open spec fn feed_announcements(life: int, player: Id) -> Seq<ServerMessage> {
    if life > 0 {
        seq![ServerMessage::Feed(player), ServerMessage::PrincessLife(life_after_feed(life) as i64)]
    } else {
        Seq::<ServerMessage>::empty()
    }
}

/// The state of the game on the server.
pub struct Model {
    eaten: Vec<Id>,
    players: HashMap<usize, Player>,
    princess_life: i64,
    ids: IdCounter,
}

impl Model {
    /// The princess's life, in seconds; zero or less means she is dead.
    pub closed spec fn life(&self) -> int {
        self.princess_life as int
    }

    /// The connected players: each id with the text of its token.
    pub closed spec fn players(&self) -> Map<usize, Seq<char>> {
        self.players@.map_values(|p: Player| p.token@)
    }

    /// The id that the next connecting player gets.
    pub closed spec fn next_id(&self) -> usize {
        self.ids.next
    }

    /// The ids recorded as having eaten.
    pub closed spec fn eaten(&self) -> Seq<Id> {
        self.eaten@
    }

    /// Whether the id counter has wrapped around.
    pub closed spec fn ids_wrapped(&self) -> bool {
        self.ids.wrapped@
    }

    /// The life is never below `REBIRTH_BELOW`, each player is filed under
    /// its own id, and until the id counter wraps, every id in use lies
    /// below the next one to be handed out.
    pub closed spec fn wf(&self) -> bool {
        &&& REBIRTH_BELOW <= self.princess_life
        &&& forall|k: usize| #[trigger] self.players@.contains_key(k) ==> self.players@[k].id.0 == k
        &&& !self.ids.wrapped@ ==> {
            &&& 1 <= self.ids.next
            &&& forall|k: usize| #[trigger] self.players@.contains_key(k) ==> k < self.ids.next
        }
    }

    /// Until the id counter wraps, the next id is not in use.
    pub proof fn lemma_next_id_fresh(&self)
        requires
            self.wf(),
            !self.ids_wrapped(),
        ensures
            !self.players().contains_key(self.next_id()),
    {
    }

    /// Registers a player with a clone of `player_token` and the next id,
    /// and returns that id. A player already filed under that id (possible
    /// only once the counter has wrapped) is kept as it is.
    pub fn connect(&mut self, player_token: &Token) -> (id: Id)
        requires
            old(self).wf(),
        ensures
            final(self).wf(),
            id.0 == old(self).next_id(),
            final(self).next_id() == counter_step(old(self).next_id()),
            final(self).ids_wrapped() == (old(self).ids_wrapped() || old(self).next_id() == usize::MAX),
            !old(self).ids_wrapped() ==> !old(self).players().contains_key(id.0),
            final(self).players() == (if old(self).players().contains_key(id.0) {
                old(self).players()
            } else {
                old(self).players().insert(id.0, player_token@)
            }),
            final(self).life() == old(self).life(),
            final(self).eaten() == old(self).eaten(),
    {
        let player = Player::new(Token(player_token.0.clone()), &mut self.ids);
        let id = player.id;
        if !self.players.contains_key(&id.0) {
            self.players.insert(id.0, player);
            proof {
                assert(self.players().dom() =~= old(self).players().insert(id.0, player_token@).dom());
                assert(self.players() =~= old(self).players().insert(id.0, player_token@));
            }
        }
        id
    }

    /// Forgets the player with `player_id`, if there is one.
    pub fn disconnect(&mut self, player_id: Id)
        requires
            old(self).wf(),
        ensures
            final(self).wf(),
            final(self).players() == old(self).players().remove(player_id.0),
            final(self).next_id() == old(self).next_id(),
            final(self).ids_wrapped() == old(self).ids_wrapped(),
            final(self).life() == old(self).life(),
            final(self).eaten() == old(self).eaten(),
    {
        let _ = self.players.remove(&player_id.0);
        proof {
            assert(self.players() =~= old(self).players().remove(player_id.0));
        }
    }
    /// The princess's life.
    pub fn princess_life(&self) -> (life: i64)
        ensures
            life == self.life(),
    {
        self.princess_life
    }

    /// Whether a player with `player_id` is connected.
    pub fn has_player(&self, player_id: Id) -> (connected: bool)
        ensures
            connected == self.players().contains_key(player_id.0),
    {
        self.players.contains_key(&player_id.0)
    }

    /// Takes the princess one tick further: see `life_after_tick`; what
    /// the tick announces (`tick_announcements`) is fired on `events`.
    pub fn tick<F: Fn(ServerMessage) -> bool>(&mut self, events: &mut Events<ServerMessage, F>)
        requires
            old(self).wf(),
        ensures
            final(self).wf(),
            final(self).life() == life_after_tick(old(self).life()),
            fires(*old(events), *final(events), tick_announcements(old(self).life())),
            tick_announcements(old(self).life()).len() == 0 ==> *final(events) == *old(events),
            final(self).players() == old(self).players(),
            final(self).next_id() == old(self).next_id(),
            final(self).ids_wrapped() == old(self).ids_wrapped(),
            final(self).eaten() == old(self).eaten(),
    {
        let ghost start = *events;
        proof {
            lemma_fires_nothing(start);
        }
        let ghost mut announced: Seq<ServerMessage> = Seq::empty();
        let delta_time = LIFE_LOSS_PER_TICK;
        if self.princess_life > 0 {
            self.princess_life = self.princess_life - delta_time;
            if self.princess_life <= 0 {
                let ghost mid = *events;
                events.fire(ServerMessage::PrincessDied);
                proof {
                    lemma_fires_then(start, mid, *events, announced, seq![ServerMessage::PrincessDied]);
                    announced = announced + seq![ServerMessage::PrincessDied];
                }
            }
        } else {
            self.princess_life = self.princess_life - delta_time;
            if self.princess_life < REBIRTH_BELOW {
                self.princess_life = INITIAL_LIFE;
            }
        }
        if self.princess_life > 0 {
            let ghost mid = *events;
            events.fire(ServerMessage::PrincessLife(self.princess_life));
            proof {
                lemma_fires_then(start, mid, *events, announced, seq![ServerMessage::PrincessLife(self.princess_life)]);
                announced = announced + seq![ServerMessage::PrincessLife(self.princess_life)];
            }
        }
        assert(announced =~= tick_announcements(old(self).life()));
    }

    /// Acts on a message of the player with `player_id`: a `Feed` feeds the
    /// princess (see `life_after_feed`) and fires `feed_announcements` on
    /// `events`; any other message changes nothing.
    pub fn handle<F: Fn(ServerMessage) -> bool>(
        &mut self,
        player_id: Id,
        message: ClientMessage,
        events: &mut Events<ServerMessage, F>,
    )
        requires
            old(self).wf(),
            message is Feed && old(self).life() > 0 ==> old(self).players().contains_key(player_id.0),
        ensures
            final(self).wf(),
            final(self).life() == (if message is Feed {
                life_after_feed(old(self).life())
            } else {
                old(self).life()
            }),
            fires(*old(events), *final(events), if message is Feed {
                feed_announcements(old(self).life(), player_id)
            } else {
                Seq::<ServerMessage>::empty()
            }),
            !(message is Feed && old(self).life() > 0) ==> *final(events) == *old(events),
            final(self).players() == old(self).players(),
            final(self).next_id() == old(self).next_id(),
            final(self).ids_wrapped() == old(self).ids_wrapped(),
            final(self).eaten() == old(self).eaten(),
    {
        let ghost start = *events;
        proof {
            lemma_fires_nothing(start);
        }
        match message {
            ClientMessage::Feed => {
                if self.princess_life > 0 {
                    self.princess_life = if self.princess_life > i64::MAX - FEED_GAIN {
                        i64::MAX
                    } else {
                        self.princess_life + FEED_GAIN
                    };
                    let fed = self.players.get(&player_id.0).unwrap().id;
                    let ghost mid0 = *events;
                    events.fire(ServerMessage::Feed(fed));
                    let ghost mid = *events;
                    events.fire(ServerMessage::PrincessLife(self.princess_life));
                    proof {
                        let first = seq![ServerMessage::Feed(player_id)];
                        let second = seq![ServerMessage::PrincessLife(self.princess_life)];
                        lemma_fires_then(start, mid0, mid, Seq::<ServerMessage>::empty(), first);
                        assert(Seq::<ServerMessage>::empty() + first =~= first);
                        lemma_fires_then(start, mid, *events, first, second);
                        assert(first + second =~= feed_announcements(old(self).life(), player_id));
                    }
                }
            },
            _ => {},
        }
    }
}

impl Default for Model {
    /// No player, nothing eaten, the princess alive with `INITIAL_LIFE`, and
    /// ids counted from 1.
    fn default() -> (model: Model)
        ensures
            model.wf(),
            model.life() == INITIAL_LIFE,
            model.players() == Map::<usize, Seq<char>>::empty(),
            model.next_id() == 1,
            !model.ids_wrapped(),
            model.eaten() == Seq::<Id>::empty(),
    {
        let model = Model {
            eaten: Vec::new(),
            players: HashMap::new(),
            princess_life: INITIAL_LIFE,
            ids: IdCounter::new(),
        };
        assert(model.players() =~= Map::<usize, Seq<char>>::empty());
        model
    }
}

} // verus!
verus! {

/// The life after `n` ticks.
pub open spec fn life_after_ticks(life: int, n: nat) -> int
    decreases n,
{
    if n == 0 {
        life
    } else {
        life_after_ticks(life_after_tick(life), (n - 1) as nat)
    }
}

/// The counter value after `n` ids were handed out from `start`.
pub open spec fn counter_after(start: usize, n: nat) -> usize
    decreases n,
{
    if n == 0 {
        start
    } else {
        counter_after(counter_step(start), (n - 1) as nat)
    }
}

/// Whatever happens, the princess's life never falls below `REBIRTH_BELOW`:
/// every operation on a model keeps `wf`, and `wf` says so.
pub proof fn lemma_life_never_below_rebirth(model: Model)
    requires
        model.wf(),
    ensures
        model.life() >= REBIRTH_BELOW,
{
}

/// A dead princess with life `life` stays dead for `life - REBIRTH_BELOW`
/// ticks and is reborn with `INITIAL_LIFE` on the tick after.
pub proof fn lemma_rebirth(life: int)
    requires
        REBIRTH_BELOW <= life <= 0,
    ensures
        forall|k: nat| k <= life - REBIRTH_BELOW ==> #[trigger] life_after_ticks(life, k) <= 0,
        life_after_ticks(life, (life - REBIRTH_BELOW + 1) as nat) == INITIAL_LIFE,
    decreases life - REBIRTH_BELOW,
{
    if life == REBIRTH_BELOW {
        assert forall|k: nat| k <= life - REBIRTH_BELOW implies #[trigger] life_after_ticks(life, k) <= 0 by {
            assert(k == 0);
        }
        assert(life_after_ticks(INITIAL_LIFE as int, 0) == INITIAL_LIFE);
    } else {
        let next = life - LIFE_LOSS_PER_TICK;
        assert(life_after_tick(life) == next);
        lemma_rebirth(next);
        assert forall|k: nat| k <= life - REBIRTH_BELOW implies #[trigger] life_after_ticks(life, k) <= 0 by {
            if k > 0 {
                assert(life_after_ticks(life, k) == life_after_ticks(next, (k - 1) as nat));
            }
        }
        assert(life_after_ticks(life, (life - REBIRTH_BELOW + 1) as nat)
            == life_after_ticks(next, (next - REBIRTH_BELOW + 1) as nat));
    }
}

/// Death is announced on exactly the tick that ends a living princess's life.
pub proof fn lemma_death_announced_once(life: int)
    ensures
        tick_announcements(life).contains(ServerMessage::PrincessDied)
            <==> (life > 0 && life_after_tick(life) <= 0),
{
    let t = tick_announcements(life);
    if life > 0 && life_after_tick(life) <= 0 {
        assert(t[0] == ServerMessage::PrincessDied);
    } else {
        assert forall|i: int| 0 <= i < t.len() implies t[i] != ServerMessage::PrincessDied by {
            assert(t[i] is PrincessLife);
        }
    }
}

/// Feeding a dead princess changes nothing and announces nothing; feeding
/// a living one adds `FEED_GAIN` (up to the largest `i64`) and announces
/// the feeder and the new life.
pub proof fn lemma_feed(life: int, player: Id)
    ensures
        life <= 0 ==> life_after_feed(life) == life && feed_announcements(life, player).len() == 0,
        life > 0 && life + FEED_GAIN <= i64::MAX ==> life_after_feed(life) == life + FEED_GAIN,
        life > 0 ==> life_after_feed(life) > life || life_after_feed(life) == i64::MAX,
        life > 0 ==> life_after_feed(life) <= i64::MAX
            && feed_announcements(life, player)
            == seq![ServerMessage::Feed(player), ServerMessage::PrincessLife(life_after_feed(life) as i64)],
{
}

/// From a new counter (which starts at 1), until it wraps, the id handed
/// out by the `k`-th call (counting from 0) is `k + 1`: ids start at 1 and
/// each is one more than the one before.
pub proof fn lemma_id_sequence(k: nat)
    requires
        k < usize::MAX,
    ensures
        counter_after(1, k) == k + 1,
        k >= 1 ==> counter_after(1, (k - 1) as nat) < counter_after(1, k),
{
    lemma_ids_distinct(1, k);
    if k >= 1 {
        lemma_ids_distinct(1, (k - 1) as nat);
    }
}

/// Two ids handed out one after the other always differ, and as long as
/// the counter does not wrap, the `n`-th id after `start` is `start + n`:
/// all of them differ.
pub proof fn lemma_ids_distinct(start: usize, n: nat)
    ensures
        counter_step(start) != start,
        start + n <= usize::MAX ==> counter_after(start, n) == start + n,
    decreases n,
{
    if n > 0 && start + n <= usize::MAX {
        lemma_ids_distinct(counter_step(start), (n - 1) as nat);
    }
}

/// A player that connects with an id not in use and then disconnects
/// leaves the set of players as it was.
pub proof fn lemma_connect_then_disconnect(players: Map<usize, Seq<char>>, id: Id, token: Token)
    requires
        !players.contains_key(id.0),
    ensures
        players.insert(id.0, token@).remove(id.0) == players,
        players.insert(id.0, token@).contains_key(id.0),
        players.insert(id.0, token@)[id.0] == token@,
{
    assert(players.insert(id.0, token@).remove(id.0) =~= players);
}

} // verus!
verus! {

/// While each step only takes one second off (it never passes below
/// `REBIRTH_BELOW`), `n` ticks take `n` seconds off.
pub proof fn lemma_ticks_count_down(life: int, n: nat)
    requires
        life - n >= REBIRTH_BELOW,
    ensures
        life_after_ticks(life, n) == life - n,
    decreases n,
{
    if n > 0 {
        assert(life_after_tick(life) == life - 1);
        lemma_ticks_count_down(life - 1, (n - 1) as nat);
    }
}

/// `a` ticks and then `b` more are `a + b` ticks.
pub proof fn lemma_ticks_add(life: int, a: nat, b: nat)
    ensures
        life_after_ticks(life, a + b) == life_after_ticks(life_after_ticks(life, a), b),
    decreases a,
{
    if a > 0 {
        lemma_ticks_add(life_after_tick(life), (a - 1) as nat, b);
        assert((a + b - 1) as nat == ((a - 1) as nat + b) as nat);
    }
}

/// A game left alone from its start: ticks 1 to 59 announce the life left
/// (60 - k), tick 60 announces the death, ticks 61 to 65 announce
/// nothing, and tick 66 announces the reborn princess with 60 again.
pub proof fn lemma_first_game_cycle()
    ensures
        forall|k: int| 1 <= k <= 59 ==> #[trigger] tick_announcements(life_after_ticks(INITIAL_LIFE as int, (k - 1) as nat))
            == seq![ServerMessage::PrincessLife((60 - k) as i64)],
        tick_announcements(life_after_ticks(INITIAL_LIFE as int, 59)) == seq![ServerMessage::PrincessDied],
        forall|k: int| 61 <= k <= 65 ==> #[trigger] tick_announcements(life_after_ticks(INITIAL_LIFE as int, (k - 1) as nat)).len() == 0,
        tick_announcements(life_after_ticks(INITIAL_LIFE as int, 65)) == seq![ServerMessage::PrincessLife(60)],
        life_after_ticks(INITIAL_LIFE as int, 66) == INITIAL_LIFE,
{
    assert forall|k: int| 1 <= k <= 59 implies #[trigger] tick_announcements(life_after_ticks(INITIAL_LIFE as int, (k - 1) as nat))
        == seq![ServerMessage::PrincessLife((60 - k) as i64)] by {
        lemma_ticks_count_down(INITIAL_LIFE as int, (k - 1) as nat);
        assert(tick_announcements(61 - k) =~= seq![ServerMessage::PrincessLife((60 - k) as i64)]);
    }
    lemma_ticks_count_down(INITIAL_LIFE as int, 59);
    assert(tick_announcements(1) =~= seq![ServerMessage::PrincessDied]);
    assert forall|k: int| 61 <= k <= 65 implies #[trigger] tick_announcements(life_after_ticks(INITIAL_LIFE as int, (k - 1) as nat)).len() == 0 by {
        lemma_ticks_count_down(INITIAL_LIFE as int, (k - 1) as nat);
    }
    lemma_ticks_count_down(INITIAL_LIFE as int, 65);
    assert(tick_announcements(-5) =~= seq![ServerMessage::PrincessLife(60)]);
    lemma_ticks_add(INITIAL_LIFE as int, 65, 1);
    assert(life_after_ticks(-5, 1) == life_after_ticks(INITIAL_LIFE as int, 0));
}

} // verus!

verus! {

/// What one tick does, for every life: a living princess loses one second
/// and, while she still lives, exactly her new life is announced; on the
/// tick that takes her last second, exactly her death is announced; a dead
/// princess loses one second more in silence, until the tick that would take
/// her below `REBIRTH_BELOW` gives her `INITIAL_LIFE` again and announces
/// it. No tick announces more than one message.
pub proof fn lemma_tick_by_case(life: int)
    ensures
        life > 1 ==> life_after_tick(life) == life - 1
            && tick_announcements(life) == seq![ServerMessage::PrincessLife((life - 1) as i64)],
        life == 1 ==> life_after_tick(life) == 0
            && tick_announcements(life) == seq![ServerMessage::PrincessDied],
        REBIRTH_BELOW < life <= 0 ==> life_after_tick(life) == life - 1
            && tick_announcements(life).len() == 0,
        life <= REBIRTH_BELOW ==> life_after_tick(life) == INITIAL_LIFE
            && tick_announcements(life) == seq![ServerMessage::PrincessLife(INITIAL_LIFE)],
        tick_announcements(life).len() <= 1,
{
    let t = tick_announcements(life);
    if life > 1 {
        assert(t =~= seq![ServerMessage::PrincessLife((life - 1) as i64)]);
    } else if life == 1 {
        assert(t =~= seq![ServerMessage::PrincessDied]);
    } else if life > REBIRTH_BELOW {
        assert(t =~= Seq::<ServerMessage>::empty());
    } else {
        assert(t =~= seq![ServerMessage::PrincessLife(INITIAL_LIFE)]);
    }
}

} // verus!
