//! The bot: its configuration, its lifecycle, and the decisions of the
//! connect, start, receive and send steps. The embedding program opens the
//! connections, reads and writes the frames and runs the handlers; what is
//! decided about them is decided here.

use crate::crypto::public_key_bytes;
use crate::dispatch::{dispatch, no_match, routes, triggers, Command, Dispatch, FunctorType};
use crate::event::{
    comma_list, tag_view, validate, Event, EventNonSigned, EventNonSignedView, RawEvent,
    ValidationError, METADATA, TEXT_NOTE,
};
use crate::text::{push_char, push_quoted, quoted};
use vstd::prelude::*;
use vstd::string::*;

verus! {

/// How relays are reached.
#[derive(Debug, Clone, Copy, PartialEq, Eq)]
pub enum Network {
    /// Direct connections.
    Clearnet,
    /// Connections through the anonymizing overlay.
    Tor,
}

/// What the bot publishes about itself when it starts.
#[derive(Debug, Clone, PartialEq, Eq)]
pub struct Profile {
    pub name: Option<String>,
    pub about: Option<String>,
    pub picture_url: Option<String>,
    pub intro_message: Option<String>,
}

/// Where the bot stands in its life.
#[derive(Debug, Clone, Copy, PartialEq, Eq)]
pub enum Phase {
    Unconnected,
    Connected,
    Running,
    Stopped,
}

/// The conditions that end a run.
#[derive(Debug, Clone, Copy, PartialEq, Eq)]
pub enum RuntimeError {
    /// No relay could be reached, or the bot is not in the phase to start.
    NoRelaysAvailable,
    /// There is no connection to send on.
    NoSinks,
    /// The signature made for an outbound event does not verify.
    SendError,
}

/// One inbound frame, as far as the decoder got.
#[derive(Debug, Clone, PartialEq, Eq)]
pub enum Frame {
    /// An event, not yet validated.
    Event(RawEvent),
    /// A message of the protocol that carries no event.
    Control,
    /// Text that does not decode.
    Malformed,
}

/// What to do about one inbound frame.
#[derive(Debug, Clone, PartialEq, Eq)]
pub enum Action {
    /// Log one diagnostic that the frame did not decode.
    Malformed,
    /// Discard the event, which broke the given rule.
    Rejected(ValidationError),
    /// Nothing: the frame is not addressed to the bot.
    Ignored,
    /// Run a handler on the event, as `dispatch` says.
    Invoke { event: Event, dispatch: Dispatch },
}

/// A bot with handlers of types `B` and `X`.
pub struct Bot<B, X> {
    pub keypair: secp256k1::KeyPair,
    /// The public key that the key pair gave out when the bot was made: the
    /// author of what the bot publishes.
    pub pubkey: Vec<u8>,
    pub relays: Vec<String>,
    pub network_type: Network,
    pub commands: Vec<Command<B, X>>,
    pub profile: Profile,
    pub phase: Phase,
    pub sender: Sender,
}

/// The sender: the sinks that outbound events are written to, each named by
/// the position of its relay among the configured ones.
#[derive(Debug, Clone, PartialEq, Eq)]
pub struct Sender {
    pub sinks: Vec<usize>,
}

/// A sender without sinks.
pub fn new_sender() -> (r: Sender)
    ensures
        r.sinks@.len() == 0,
{
    Sender { sinks: Vec::new() }
}

impl Sender {
    /// Signs an outbound event of the author `pubkey` for the sinks. Fails
    /// with `NoSinks` exactly where there is none. Else the event is signed
    /// with `keypair`; where the signature verifies against `pubkey`, the
    /// valid signed event of that author comes back, to be written to each
    /// of the sinks, with the fields that were given; where it does not,
    /// `SendError`.
    pub fn send_as(&self, event: EventNonSigned, keypair: &secp256k1::KeyPair, pubkey: Vec<u8>)
        -> (r: Result<Event, RuntimeError>)
        ensures
            match r {
                Ok(e) => {
                    &&& self.sinks@.len() > 0
                    &&& e@.valid()
                    &&& e@ == event@.sealed(pubkey@, e@.sig)
                },
                Err(x) => if self.sinks@.len() == 0 {
                    x == RuntimeError::NoSinks
                } else {
                    x == RuntimeError::SendError
                },
            },
    {
        if self.sinks.len() == 0 {
            return Err(RuntimeError::NoSinks);
        }
        match event.sign_as(keypair, pubkey) {
            Some(e) => Ok(e),
            None => Err(RuntimeError::SendError),
        }
    }

    /// Signs an outbound event for the sinks, for the author that the pair
    /// gives out as its public key; in all else as `send_as`.
    pub fn send(&self, event: EventNonSigned, keypair: &secp256k1::KeyPair) -> (r: Result<
        Event,
        RuntimeError,
    >)
        ensures
            match r {
                Ok(e) => {
                    &&& self.sinks@.len() > 0
                    &&& e@.valid()
                    &&& e@ == event@.sealed(e@.pubkey, e@.sig)
                },
                Err(x) => if self.sinks@.len() == 0 {
                    x == RuntimeError::NoSinks
                } else {
                    x == RuntimeError::SendError
                },
            },
    {
        self.send_as(event, keypair, public_key_bytes(keypair))
    }
}

/// `live` lists, in increasing order, exactly the positions below `n` at
/// which `reachable` holds.
pub open spec fn is_live_set(live: Seq<usize>, reachable: Seq<bool>, n: int) -> bool {
    &&& forall|k: int|
        0 <= k < live.len() ==> (#[trigger] live[k]) < n && live[k] < reachable.len()
            && reachable[live[k] as int]
    &&& forall|k: int, l: int| 0 <= k < l < live.len() ==> live[k] < live[l]
    &&& forall|i: int|
        0 <= i < n && i < reachable.len() && #[trigger] reachable[i] ==> live.contains(i as usize)
}

/// The endpoints that are connected after an attempt on each of `n`
/// endpoints, where `reachable` holds the outcome of each attempt: the
/// failed ones are dropped, the others kept in order.
pub fn live_endpoints(n: usize, reachable: &Vec<bool>) -> (live: Vec<usize>)
    ensures
        is_live_set(live@, reachable@, n as int),
{
    let mut out: Vec<usize> = Vec::new();
    let mut i: usize = 0;
    while i < n && i < reachable.len()
        invariant
            i <= n,
            i <= reachable@.len(),
            is_live_set(out@, reachable@, i as int),
        decreases n - i,
    {
        if reachable[i] {
            let ghost before = out@;
            out.push(i);
            proof {
                assert forall|j: int| 0 <= j < i + 1 && #[trigger] reachable@[j] implies out@.contains(
                    j as usize,
                ) by {
                    if j < i {
                        let k = choose|k: int| 0 <= k < before.len() && before[k] == j as usize;
                        assert(out@[k] == j as usize);
                    } else {
                        assert(out@[before.len() as int] == j as usize);
                    }
                }
            }
        }
        i += 1;
    }
    out
}

/// One entry of the profile: the quoted key, a colon and the quoted value
/// where the value is set, nothing where it is not.
pub open spec fn profile_field(key: Seq<char>, value: Option<String>) -> Seq<Seq<char>> {
    match value {
        Some(v) => seq![quoted(key) + seq![':'] + quoted(v@)],
        None => Seq::empty(),
    }
}

impl Profile {
    /// A profile with nothing set.
    pub fn new() -> (r: Self)
        ensures
            r.name is None,
            r.about is None,
            r.picture_url is None,
            r.intro_message is None,
    {
        Profile { name: None, about: None, picture_url: None, intro_message: None }
    }

    /// Name, description or picture is set.
    pub open spec fn has_metadata(self) -> bool {
        self.name is Some || self.about is Some || self.picture_url is Some
    }

    /// The content of the profile event: an object of the entries `name`,
    /// `about` and `picture` that are set.
    pub open spec fn metadata(self) -> Seq<char> {
        seq!['{'] + comma_list(
            profile_field("name"@, self.name) + profile_field("about"@, self.about)
                + profile_field("picture"@, self.picture_url),
        ) + seq!['}']
    }

    /// The events that a bot with this profile publishes when it starts at
    /// time `now`: the profile event where there is anything to say, then
    /// the introduction as a text note where one is set.
    pub open spec fn startup(self, now: u64) -> Seq<EventNonSignedView> {
        (if self.has_metadata() {
            seq![
                EventNonSignedView {
                    created_at: now,
                    kind: METADATA,
                    tags: Seq::empty(),
                    content: self.metadata(),
                },
            ]
        } else {
            Seq::empty()
        }) + (match self.intro_message {
            Some(m) => seq![
                EventNonSignedView {
                    created_at: now,
                    kind: TEXT_NOTE,
                    tags: Seq::empty(),
                    content: m@,
                },
            ],
            None => Seq::empty(),
        })
    }

    /// Writes the content of the profile event.
    pub fn metadata_text(&self) -> (r: String)
        ensures
            r@ == self.metadata(),
    {
        let mut fields: Vec<String> = Vec::new();
        assert(tag_view(fields) =~= Seq::empty());
        push_field(&mut fields, "name", &self.name);
        push_field(&mut fields, "about", &self.about);
        push_field(&mut fields, "picture", &self.picture_url);
        let mut out = String::new();
        push_char(&mut out, '{');
        out.append(join_commas(&fields).as_str());
        push_char(&mut out, '}');
        assert(out@ =~= self.metadata());
        out
    }

    /// Builds the events to publish at the start.
    pub fn startup_events(&self, now: u64) -> (r: Vec<EventNonSigned>)
        ensures
            events_view(r) == self.startup(now),
    {
        let mut out: Vec<EventNonSigned> = Vec::new();
        if self.name.is_some() || self.about.is_some() || self.picture_url.is_some() {
            let tags: Vec<Vec<String>> = Vec::new();
            let e = EventNonSigned {
                created_at: now,
                kind: METADATA,
                tags,
                content: self.metadata_text(),
            };
            assert(e@.tags =~= Seq::empty());
            out.push(e);
        }
        match &self.intro_message {
            Some(m) => {
                let tags: Vec<Vec<String>> = Vec::new();
                let e = EventNonSigned {
                    created_at: now,
                    kind: TEXT_NOTE,
                    tags,
                    content: m.clone(),
                };
                assert(e@.tags =~= Seq::empty());
                out.push(e);
            },
            None => {},
        }
        assert(events_view(out) =~= self.startup(now));
        out
    }
}

/// A list of unsigned events as their views.
pub open spec fn events_view(events: Vec<EventNonSigned>) -> Seq<EventNonSignedView> {
    Seq::new(events@.len(), |i: int| events@[i]@)
}

fn push_field(fields: &mut Vec<String>, key: &str, value: &Option<String>)
    ensures
        tag_view(*final(fields)) == tag_view(*old(fields)) + profile_field(key@, *value),
{
    match value {
        Some(v) => {
            let mut s = String::new();
            push_quoted(&mut s, key);
            push_char(&mut s, ':');
            push_quoted(&mut s, v.as_str());
            fields.push(s);
            assert(s@ =~= quoted(key@) + seq![':'] + quoted(v@));
            assert(tag_view(*fields) =~= tag_view(*old(fields)) + profile_field(key@, *value));
        },
        None => {
            assert(tag_view(*fields) =~= tag_view(*old(fields)) + profile_field(key@, *value));
        },
    }
}

fn join_commas(items: &Vec<String>) -> (r: String)
    ensures
        r@ == comma_list(tag_view(*items)),
{
    let ghost tv = tag_view(*items);
    let mut out = String::new();
    let mut i: usize = 0;
    while i < items.len()
        invariant
            i <= items@.len(),
            tv == tag_view(*items),
            out@ == comma_list(tv.subrange(0, i as int)),
        decreases items@.len() - i,
    {
        if i > 0 {
            push_char(&mut out, ',');
        }
        out.append(items[i].as_str());
        proof {
            let now = tv.subrange(0, i + 1);
            assert(now.drop_last() =~= tv.subrange(0, i as int));
            assert(out@ =~= comma_list(now));
        }
        i += 1;
    }
    assert(tv.subrange(0, i as int) =~= tv);
    out
}

impl<B, X> Bot<B, X> {
    /// A bot that is not connected, with no command and an empty profile.
    pub fn new(keypair: secp256k1::KeyPair, relays: Vec<String>, network_type: Network) -> (r:
        Self)
        ensures
            r.keypair == keypair,
            r.pubkey@.len() == 32,
            r.relays == relays,
            r.network_type == network_type,
            r.commands@.len() == 0,
            r.profile.name is None,
            r.profile.about is None,
            r.profile.picture_url is None,
            r.profile.intro_message is None,
            r.phase == Phase::Unconnected,
            r.sender.sinks@.len() == 0,
    {
        let pubkey = public_key_bytes(&keypair);
        Bot {
            keypair,
            pubkey,
            relays,
            network_type,
            commands: Vec::new(),
            profile: Profile::new(),
            phase: Phase::Unconnected,
            sender: new_sender(),
        }
    }

    /// Replaces the sender of the bot.
    pub fn sender(self, sender: Sender) -> (r: Self)
        ensures
            r.sender == sender,
            r == (Bot { sender: r.sender, ..self }),
    {
        let mut bot = self;
        bot.sender = sender;
        bot
    }

    /// Registers a command behind those already registered.
    pub fn command(self, command: Command<B, X>) -> (r: Self)
        ensures
            r.commands@ == self.commands@.push(command),
            r == (Bot { commands: r.commands, ..self }),
    {
        let mut bot = self;
        bot.commands.push(command);
        bot
    }

    /// Sets the name of the profile.
    pub fn set_name(self, name: &str) -> (r: Self)
        ensures
            r.profile.name is Some,
            r.profile.name->0@ == name@,
            r.profile == (Profile { name: r.profile.name, ..self.profile }),
            r == (Bot { profile: r.profile, ..self }),
    {
        let mut bot = self;
        bot.profile.name = Some(String::from_str(name));
        bot
    }

    /// Sets the description of the profile.
    pub fn set_about(self, about: &str) -> (r: Self)
        ensures
            r.profile.about is Some,
            r.profile.about->0@ == about@,
            r.profile == (Profile { about: r.profile.about, ..self.profile }),
            r == (Bot { profile: r.profile, ..self }),
    {
        let mut bot = self;
        bot.profile.about = Some(String::from_str(about));
        bot
    }

    /// Sets the picture of the profile.
    pub fn set_picture(self, picture_url: &str) -> (r: Self)
        ensures
            r.profile.picture_url is Some,
            r.profile.picture_url->0@ == picture_url@,
            r.profile == (Profile { picture_url: r.profile.picture_url, ..self.profile }),
            r == (Bot { profile: r.profile, ..self }),
    {
        let mut bot = self;
        bot.profile.picture_url = Some(String::from_str(picture_url));
        bot
    }

    /// Sets the message that introduces the bot when it starts.
    pub fn set_intro_message(self, message: &str) -> (r: Self)
        ensures
            r.profile.intro_message is Some,
            r.profile.intro_message->0@ == message@,
            r.profile == (Profile { intro_message: r.profile.intro_message, ..self.profile }),
            r == (Bot { profile: r.profile, ..self }),
    {
        let mut bot = self;
        bot.profile.intro_message = Some(String::from_str(message));
        bot
    }

    /// Registers the command `!help` behind those already registered: an
    /// extra command with the given handler and the description
    /// `Show this help.`. The handler is the one that answers with the list
    /// of commands.
    pub fn help(self, handler: X) -> (r: Self)
        ensures
            r.commands@.len() == self.commands@.len() + 1,
            r.commands@.drop_last() == self.commands@,
            r.commands@.last().trigger@ == "!help"@,
            r.commands@.last().functor == FunctorType::<B, X>::Extra(handler),
            r.commands@.last().description is Some,
            r.commands@.last().description->0@ == "Show this help."@,
            r == (Bot { commands: r.commands, ..self }),
    {
        let mut bot = self;
        let ghost before = bot.commands@;
        let command = Command::new("!help", FunctorType::Extra(handler));
        bot.commands.push(command.desc("Show this help."));
        assert(bot.commands@.drop_last() =~= before);
        bot
    }

    /// Records the outcome of the connection attempts, one for each relay in
    /// order. The relays that were reached become the sender's sinks; those
    /// that failed are dropped. Where none was reached the bot is left as it was
    /// and `NoRelaysAvailable` comes back. A bot that was unconnected is
    /// connected afterwards.
    pub fn connect(&mut self, reachable: &Vec<bool>) -> (r: Result<(), RuntimeError>)
        ensures
            match r {
                Ok(_) => {
                    &&& is_live_set(
                        final(self).sender.sinks@,
                        reachable@,
                        old(self).relays@.len() as int,
                    )
                    &&& final(self).sender.sinks@.len() > 0
                    &&& final(self).phase == (if old(self).phase == Phase::Unconnected {
                        Phase::Connected
                    } else {
                        old(self).phase
                    })
                    &&& *final(self) == (Bot {
                        sender: final(self).sender,
                        phase: final(self).phase,
                        ..*old(self)
                    })
                },
                Err(e) => {
                    &&& e == RuntimeError::NoRelaysAvailable
                    &&& *final(self) == *old(self)
                    &&& forall|i: int|
                        0 <= i < old(self).relays@.len() && i < reachable@.len() ==> !reachable@[i]
                },
            },
    {
        let live = live_endpoints(self.relays.len(), reachable);
        if live.len() == 0 {
            assert forall|i: int|
                0 <= i < self.relays@.len() && i < reachable@.len() implies !reachable@[i] by {
                if reachable@[i] {
                    assert(live@.contains(i as usize));
                }
            }
            return Err(RuntimeError::NoRelaysAvailable);
        }
        self.sender = Sender { sinks: live };
        match self.phase {
            Phase::Unconnected => {
                self.phase = Phase::Connected;
            },
            _ => {},
        }
        Ok(())
    }

    /// Starts a connected bot at time `now`: it is running afterwards, and
    /// the events to publish first come back. A bot in any other phase is
    /// left as it was and refused with `NoRelaysAvailable`.
    pub fn run(&mut self, now: u64) -> (r: Result<Vec<EventNonSigned>, RuntimeError>)
        ensures
            match r {
                Ok(events) => {
                    &&& old(self).phase == Phase::Connected
                    &&& events_view(events) == old(self).profile.startup(now)
                    &&& *final(self) == (Bot { phase: Phase::Running, ..*old(self) })
                },
                Err(e) => {
                    &&& e == RuntimeError::NoRelaysAvailable
                    &&& old(self).phase != Phase::Connected
                    &&& *final(self) == *old(self)
                },
            },
    {
        match self.phase {
            Phase::Connected => {
                let events = self.profile.startup_events(now);
                self.phase = Phase::Running;
                Ok(events)
            },
            _ => Err(RuntimeError::NoRelaysAvailable),
        }
    }

    /// Stops the bot.
    pub fn stop(&mut self)
        ensures
            *final(self) == (Bot { phase: Phase::Stopped, ..*old(self) }),
    {
        self.phase = Phase::Stopped;
    }

    /// Decides what to do about one inbound frame. A frame that does not
    /// decode asks for a diagnostic; an event that fails validation is
    /// rejected with the rule it broke; a control message, and a valid event
    /// whose content begins with no trigger, are ignored; any other valid
    /// event comes back with the handler to run on it.
    pub fn receive(&self, frame: Frame) -> (a: Action)
        ensures
            match a {
                Action::Malformed => frame is Malformed,
                Action::Rejected(x) => frame is Event && frame->Event_0@.verdict() == Err::<
                    crate::event::EventView,
                    ValidationError,
                >(x),
                Action::Ignored => frame is Control || (frame is Event
                    && frame->Event_0@.verdict() is Ok && no_match(
                    triggers(self.commands@),
                    frame->Event_0@.content,
                )),
                Action::Invoke { event, dispatch } => {
                    &&& frame is Event
                    &&& frame->Event_0@.verdict() == Ok::<
                        crate::event::EventView,
                        ValidationError,
                    >(event@)
                    &&& !(dispatch is Ignore)
                    &&& routes(self.commands@, event@.content, dispatch)
                },
            },
    {
        match frame {
            Frame::Malformed => Action::Malformed,
            Frame::Control => Action::Ignored,
            Frame::Event(raw) => match validate(raw) {
                Err(x) => Action::Rejected(x),
                Ok(event) => {
                    let d = dispatch(&self.commands, event.content.as_str());
                    match d {
                        Dispatch::Ignore => Action::Ignored,
                        _ => Action::Invoke { event, dispatch: d },
                    }
                },
            },
        }
    }

    /// Signs an outbound event as the bot, for its sinks. Fails with
    /// `NoSinks` exactly where the bot has none. Else what comes back is a
    /// valid event whose author is the bot's public key and whose other
    /// fields are those given, to be written to each sink, or `SendError`
    /// where the signature that the key pair made does not verify.
    pub fn send(&self, event: EventNonSigned) -> (r: Result<Event, RuntimeError>)
        ensures
            match r {
                Ok(e) => {
                    &&& self.sender.sinks@.len() > 0
                    &&& e@.valid()
                    &&& e@.pubkey == self.pubkey@
                    &&& e@ == event@.sealed(self.pubkey@, e@.sig)
                },
                Err(x) => if self.sender.sinks@.len() == 0 {
                    x == RuntimeError::NoSinks
                } else {
                    x == RuntimeError::SendError
                },
            },
    {
        self.sender.send_as(event, &self.keypair, copy_bytes(&self.pubkey))
    }
}

fn copy_bytes(bytes: &Vec<u8>) -> (r: Vec<u8>)
    ensures
        r@ == bytes@,
{
    let mut out: Vec<u8> = Vec::new();
    let mut i: usize = 0;
    while i < bytes.len()
        invariant
            i <= bytes@.len(),
            out@ == bytes@.subrange(0, i as int),
        decreases bytes@.len() - i,
    {
        out.push(bytes[i]);
        assert(out@ =~= bytes@.subrange(0, i + 1));
        i += 1;
    }
    assert(bytes@.subrange(0, i as int) =~= bytes@);
    out
}

} // verus!
