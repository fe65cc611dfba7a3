use vstd::prelude::*;
use crate::events::{Events, accepts_all, fires};
use crate::model::{
    ClientMessage, Id, Model, ServerMessage, Token, TOKEN_LEN, counter_step,
    feed_announcements, life_after_feed, life_after_tick, tick_announcements,
};
use crate::rng::is_alphanumeric;

verus! {

/// The model of the game together with the registry through which it
/// tells the connected clients what happens.
#[verifier::reject_recursive_types(F)]
pub struct ModelWrapper<F: Fn(ServerMessage) -> bool> {
    pub model: Model,
    pub events: Events<ServerMessage, F>,
}

impl<F: Fn(ServerMessage) -> bool> Default for ModelWrapper<F> {
    /// A fresh game with no subscriber.
    fn default() -> (wrapper: Self)
        ensures
            wrapper.model.wf(),
            wrapper.model.life() == crate::model::INITIAL_LIFE,
            wrapper.model.players() == Map::<usize, Seq<char>>::empty(),
            wrapper.model.next_id() == 1,
            !wrapper.model.ids_wrapped(),
            wrapper.model.eaten() == Seq::<Id>::empty(),
            wrapper.events.subscribers().len() == 0,
            wrapper.events.firings().len() == 0,
    {
        ModelWrapper { model: Model::default(), events: Events::new() }
    }
}

impl<F: Fn(ServerMessage) -> bool> ModelWrapper<F> {
    /// `Model::handle` on this model and registry.
    pub fn handle(&mut self, player_id: Id, message: ClientMessage)
        requires
            old(self).model.wf(),
            message is Feed && old(self).model.life() > 0 ==> old(self).model.players().contains_key(player_id.0),
        ensures
            final(self).model.wf(),
            final(self).model.life() == (if message is Feed {
                life_after_feed(old(self).model.life())
            } else {
                old(self).model.life()
            }),
            fires(old(self).events, final(self).events, if message is Feed {
                feed_announcements(old(self).model.life(), player_id)
            } else {
                Seq::<ServerMessage>::empty()
            }),
            !(message is Feed && old(self).model.life() > 0) ==> final(self).events == old(self).events,
            final(self).model.players() == old(self).model.players(),
            final(self).model.next_id() == old(self).model.next_id(),
            final(self).model.ids_wrapped() == old(self).model.ids_wrapped(),
            final(self).model.eaten() == old(self).model.eaten(),
    {
        self.model.handle(player_id, message, &mut self.events);
    }

    /// `Model::tick` on this model and registry.
    pub fn tick(&mut self)
        requires
            old(self).model.wf(),
        ensures
            final(self).model.wf(),
            final(self).model.life() == life_after_tick(old(self).model.life()),
            fires(old(self).events, final(self).events, tick_announcements(old(self).model.life())),
            tick_announcements(old(self).model.life()).len() == 0 ==> final(self).events == old(self).events,
            final(self).model.players() == old(self).model.players(),
            final(self).model.next_id() == old(self).model.next_id(),
            final(self).model.ids_wrapped() == old(self).model.ids_wrapped(),
            final(self).model.eaten() == old(self).model.eaten(),
    {
        self.model.tick(&mut self.events);
    }
}

/// One connection to the server: the id of its player once it has
/// connected.
pub struct Client {
    pub player_id: Option<Id>,
}

impl Client {
    /// A connection that has not connected a player yet.
    pub fn new() -> (client: Client)
        ensures
            client.player_id is None,
    {
        Client { player_id: None }
    }

    /// Acts on a message of this connection and returns what to send back
    /// to it alone.
    ///
    /// - `GetToken` is answered with a fresh token and changes nothing else.
    /// - `Connect(token)` registers a player with that token, remembers its
    ///   id, subscribes `subscriber` to the server's events, and is answered
    ///   with nothing.
    /// - Any other message goes to `Model::handle` with the remembered id,
    ///   if there is one, and is answered with nothing.
    pub fn handle<F: Fn(ServerMessage) -> bool>(
        &mut self,
        server: &mut ModelWrapper<F>,
        message: ClientMessage,
        subscriber: F,
    ) -> (reply: Option<ServerMessage>)
        requires
            old(server).model.wf(),
            message is Connect ==> accepts_all::<ServerMessage, F>(subscriber),
            message is Feed && old(self).player_id is Some && old(server).model.life() > 0
                ==> old(server).model.players().contains_key((old(self).player_id->0).0),
        ensures
            final(server).model.wf(),
            match message {
                ClientMessage::GetToken => {
                    &&& reply matches Some(ServerMessage::Token(token)) && token@.len() == TOKEN_LEN
                        && forall|i: int| 0 <= i < TOKEN_LEN ==> is_alphanumeric(#[trigger] token@[i])
                    &&& *final(self) == *old(self)
                    &&& *final(server) == *old(server)
                },
                ClientMessage::Connect(token) => {
                    let id = old(server).model.next_id();
                    &&& reply is None
                    &&& final(self).player_id == Some(Id(id))
                    &&& final(server).model.next_id() == counter_step(id)
                    &&& final(server).model.ids_wrapped() == (old(server).model.ids_wrapped() || id == usize::MAX)
                    &&& final(server).model.players() == (if old(server).model.players().contains_key(id) {
                        old(server).model.players()
                    } else {
                        old(server).model.players().insert(id, token@)
                    })
                    &&& final(server).model.life() == old(server).model.life()
                    &&& final(server).events.firings() == old(server).events.firings()
                    &&& final(server).events.subscribers() == old(server).events.subscribers().push(subscriber)
                },
                ClientMessage::Feed => {
                    &&& reply is None
                    &&& *final(self) == *old(self)
                    &&& match old(self).player_id {
                        Some(player_id) => {
                            &&& final(server).model.life() == life_after_feed(old(server).model.life())
                            &&& fires(old(server).events, final(server).events,
                                feed_announcements(old(server).model.life(), player_id))
                            &&& final(server).model.players() == old(server).model.players()
                            &&& final(server).model.next_id() == old(server).model.next_id()
                            &&& final(server).model.ids_wrapped() == old(server).model.ids_wrapped()
                        },
                        None => *final(server) == *old(server),
                    }
                },
            },
    {
        match message {
            ClientMessage::GetToken => {
                return Some(ServerMessage::Token(Token::new()));
            },
            ClientMessage::Connect(token) => {
                let id = server.model.connect(&token);
                self.player_id = Some(id);
                server.events.subscribe(subscriber);
                return None;
            },
            _ => {},
        }
        if let Some(player_id) = self.player_id {
            server.handle(player_id, message);
        }
        None
    }

    /// Closes the connection: its player, if it connected one, leaves the
    /// game.
    pub fn close<F: Fn(ServerMessage) -> bool>(self, server: &mut ModelWrapper<F>)
        requires
            old(server).model.wf(),
        ensures
            final(server).model.wf(),
            final(server).model.players() == (match self.player_id {
                Some(player_id) => old(server).model.players().remove(player_id.0),
                None => old(server).model.players(),
            }),
            final(server).model.life() == old(server).model.life(),
            final(server).model.next_id() == old(server).model.next_id(),
            final(server).model.ids_wrapped() == old(server).model.ids_wrapped(),
            final(server).events == old(server).events,
    {
        if let Some(player_id) = self.player_id {
            server.model.disconnect(player_id);
        }
    }
}

} // verus!
