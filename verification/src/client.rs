use vstd::prelude::*;
use crate::model::{
    ClientMessage, ServerMessage, life_after_feed, feed_announcements, life_after_tick, tick_announcements, Id,
};

verus! {

/// What a client knows of the princess.
pub struct State {
    pub princess_life: i64,
    pub princess_alive: bool,
}

/// The state after one message from the server: `PrincessDied` marks the
/// princess dead, `PrincessLife` marks her alive with that life, and any
/// other message leaves the state as it is.
pub open spec fn state_after(state: State, message: ServerMessage) -> State {
    match message {
        ServerMessage::PrincessDied => State { princess_life: state.princess_life, princess_alive: false },
        ServerMessage::PrincessLife(life) => State { princess_life: life, princess_alive: true },
        _ => state,
    }
}

/// The state after the messages `messages`, in order.
pub open spec fn state_after_all(state: State, messages: Seq<ServerMessage>) -> State
    decreases messages.len(),
{
    if messages.len() == 0 {
        state
    } else {
        state_after(state_after_all(state, messages.drop_last()), messages.last())
    }
}

impl Default for State {
    /// Before hearing anything, the client takes the princess for dead,
    /// with no life.
    fn default() -> (state: State)
        ensures
            state.princess_life == 0,
            !state.princess_alive,
    {
        State { princess_life: 0, princess_alive: false }
    }
}

impl State {
    /// Takes one message from the server into account.
    pub fn apply(&mut self, message: &ServerMessage)
        ensures
            *final(self) == state_after(*old(self), *message),
    {
        match message {
            ServerMessage::PrincessDied => {
                self.princess_alive = false;
            },
            ServerMessage::PrincessLife(life) => {
                self.princess_alive = true;
                self.princess_life = *life;
            },
            _ => {},
        }
    }

    /// Takes the new messages from the server into account, in order.
    pub fn update(&mut self, messages: &Vec<ServerMessage>)
        ensures
            *final(self) == state_after_all(*old(self), messages@),
    {
        let mut i: usize = 0;
        while i < messages.len()
            invariant
                i <= messages@.len(),
                *self == state_after_all(*old(self), messages@.take(i as int)),
            decreases messages@.len() - i,
        {
            self.apply(&messages[i]);
            proof {
                assert(messages@.take(i + 1).drop_last() =~= messages@.take(i as int));
            }
            i = i + 1;
        }
        assert(messages@.take(i as int) =~= messages@);
    }

    /// The life to show: never less than zero.
    pub fn displayed_life(&self) -> (shown: i64)
        ensures
            shown == (if self.princess_life > 0 { self.princess_life } else { 0 }),
    {
        if self.princess_life > 0 {
            self.princess_life
        } else {
            0
        }
    }
}

/// A client that takes in what one tick of the server announces knows
/// afterwards whether the princess lives and, if she does, her life.
pub proof fn lemma_client_follows_tick(state: State, life: int)
    requires
        life_after_tick(life) <= i64::MAX,
    ensures
        life_after_tick(life) > 0 ==> {
            let after = state_after_all(state, tick_announcements(life));
            after.princess_alive && after.princess_life == life_after_tick(life)
        },
        life > 0 && life_after_tick(life) <= 0 ==> !state_after_all(state, tick_announcements(life)).princess_alive,
{
    let t = tick_announcements(life);
    reveal_with_fuel(state_after_all, 3);
    if life_after_tick(life) > 0 {
        if life > 0 && life_after_tick(life) <= 0 {
        } else {
            assert(t == seq![ServerMessage::PrincessLife(life_after_tick(life) as i64)]);
            assert(t.drop_last() =~= Seq::<ServerMessage>::empty());
        }
    } else if life > 0 {
        assert(t == seq![ServerMessage::PrincessDied]);
        assert(t.drop_last() =~= Seq::<ServerMessage>::empty());
    }
}

/// A client that takes in what a feeding announces knows the princess's
/// new life; a feeding of a dead princess announces nothing, so the client
/// is unchanged.
pub proof fn lemma_client_follows_feed(state: State, life: int, player: Id)
    ensures
        life > 0 ==> {
            let after = state_after_all(state, feed_announcements(life, player));
            after.princess_alive && after.princess_life == life_after_feed(life)
        },
        life <= 0 ==> state_after_all(state, feed_announcements(life, player)) == state,
{
    let f = feed_announcements(life, player);
    reveal_with_fuel(state_after_all, 3);
    if life > 0 {
        assert(f.drop_last() =~= seq![ServerMessage::Feed(player)]);
        assert(f.drop_last().drop_last() =~= Seq::<ServerMessage>::empty());
    }
}

} // verus!
verus! {

/// What a client sends once the server has answered its first request for
/// a token: a `Token` answer is followed by `Connect` with that token; any
/// other answer, or none, is an error, answered here with `None`.
pub fn connect_request(first_reply: Option<ServerMessage>) -> (request: Option<ClientMessage>)
    ensures
        match first_reply {
            Some(ServerMessage::Token(token)) => request == Some(ClientMessage::Connect(token)),
            _ => request is None,
        },
{
    match first_reply {
        Some(ServerMessage::Token(token)) => Some(ClientMessage::Connect(token)),
        _ => None,
    }
}

} // verus!

verus! {

/// `PrincessDied` marks the princess dead and keeps the life last heard;
/// `PrincessLife(life)` marks her alive with `life`; `Token` and `Feed`
/// change nothing.
pub proof fn lemma_state_after_message(state: State, life: i64, token: crate::model::Token, player: Id)
    ensures
        !state_after(state, ServerMessage::PrincessDied).princess_alive,
        state_after(state, ServerMessage::PrincessDied).princess_life == state.princess_life,
        state_after(state, ServerMessage::PrincessLife(life)).princess_alive,
        state_after(state, ServerMessage::PrincessLife(life)).princess_life == life,
        state_after(state, ServerMessage::Token(token)) == state,
        state_after(state, ServerMessage::Feed(player)) == state,
{
}

/// Messages are taken in the order they came: taking in one more message
/// after a batch is taking in the batch and then that message.
pub proof fn lemma_update_in_order(state: State, messages: Seq<ServerMessage>, message: ServerMessage)
    ensures
        state_after_all(state, messages.push(message)) == state_after(state_after_all(state, messages), message),
{
    assert(messages.push(message).drop_last() =~= messages);
}

/// Taking in two batches one after the other is taking in the two joined.
pub proof fn lemma_update_concat(state: State, first: Seq<ServerMessage>, second: Seq<ServerMessage>)
    ensures
        state_after_all(state, first + second) == state_after_all(state_after_all(state, first), second),
    decreases second.len(),
{
    if second.len() == 0 {
        assert(first + second =~= first);
    } else {
        let rest = second.drop_last();
        lemma_update_concat(state, first, rest);
        assert((first + second).drop_last() =~= first + rest);
        assert((first + second).last() == second.last());
    }
}

/// The last message of a batch that speaks of the princess's life decides
/// what the client knows afterwards: a batch ending in `PrincessDied` leaves
/// her dead, one ending in `PrincessLife(life)` leaves her alive with `life`.
pub proof fn lemma_last_message_decides(state: State, messages: Seq<ServerMessage>, life: i64)
    requires
        messages.len() > 0,
    ensures
        messages.last() == ServerMessage::PrincessDied ==> !state_after_all(state, messages).princess_alive,
        messages.last() == ServerMessage::PrincessLife(life) ==> {
            &&& state_after_all(state, messages).princess_alive
            &&& state_after_all(state, messages).princess_life == life
        },
{
    lemma_update_in_order(state, messages.drop_last(), messages.last());
    assert(messages.drop_last().push(messages.last()) =~= messages);
}

} // verus!
