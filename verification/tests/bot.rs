use nostr_bot::bot::{
    live_endpoints, new_sender, Action, Bot, Frame, Network, Phase, Profile, RuntimeError, Sender,
};
use nostr_bot::dispatch::{Command, Dispatch, FunctorType};
use nostr_bot::event::{reply_at, validate, EventNonSigned, RawEvent, ValidationError};
use nostr_bot::text::hex_encode;

struct Votes {
    yes: u64,
    no: u64,
}

type Handler = fn(&mut Votes);

type Poll = Bot<Handler, Handler>;

fn add_yes(votes: &mut Votes) {
    votes.yes += 1;
}

fn add_no(votes: &mut Votes) {
    votes.no += 1;
}

fn tally(votes: &Votes) -> String {
    let yes = votes.yes as f64;
    let no = votes.no as f64;
    let (yes_perc, no_perc) = if votes.yes == 0 && votes.no == 0 {
        (0.0, 0.0)
    } else {
        (yes / (yes + no) * 100.0, no / (yes + no) * 100.0)
    };
    format!("yes: {:.2} % ({})\nno: {:.2} % ({})", yes_perc, votes.yes, no_perc, votes.no)
}

fn keypair() -> secp256k1::KeyPair {
    let secret = "0000000000000000000000000000000000000000000000000000000000000003";
    secp256k1::KeyPair::from_seckey_str(&secp256k1::Secp256k1::new(), secret).unwrap()
}

fn poll() -> Poll {
    Bot::new(
        keypair(),
        vec!["wss://one.example".to_string(), "wss://two.example".to_string()],
        Network::Clearnet,
    )
    .command(Command::new("yes", FunctorType::Basic(add_yes as Handler)))
    .command(Command::new("no", FunctorType::Basic(add_no as Handler)))
}

fn inbound(content: &str) -> RawEvent {
    EventNonSigned { created_at: 10, kind: 1, tags: vec![], content: content.to_string() }
        .sign(&keypair())
        .unwrap()
        .serialize()
}

fn deliver(bot: &Poll, votes: &mut Votes, frame: Frame) -> Option<EventNonSigned> {
    match bot.receive(frame) {
        Action::Invoke { event, dispatch: Dispatch::Basic { index } } => {
            if let FunctorType::Basic(handler) = &bot.commands[index].functor {
                handler(votes);
            }
            Some(reply_at(&event, tally(votes), 11))
        }
        _ => None,
    }
}

#[test]
fn new_bot_is_unconnected_and_empty() {
    let bot: Poll = Bot::new(keypair(), vec!["wss://one.example".to_string()], Network::Tor);
    assert_eq!(bot.phase, Phase::Unconnected);
    assert_eq!(bot.network_type, Network::Tor);
    assert_eq!(bot.relays, vec!["wss://one.example".to_string()]);
    assert!(bot.commands.is_empty());
    assert!(bot.sender.sinks.is_empty());
    assert_eq!(bot.sender, new_sender());
    assert_eq!(bot.profile, Profile::new());
    assert_eq!(bot.profile.name, None);
}

#[test]
fn builders_set_the_profile() {
    let bot = poll()
        .set_name("poll_bot")
        .set_about("Just a bot.")
        .set_picture("https://example.org/p.jpg")
        .set_intro_message("Do you agree?");
    assert_eq!(bot.profile.name, Some("poll_bot".to_string()));
    assert_eq!(bot.profile.about, Some("Just a bot.".to_string()));
    assert_eq!(bot.profile.picture_url, Some("https://example.org/p.jpg".to_string()));
    assert_eq!(bot.profile.intro_message, Some("Do you agree?".to_string()));
    assert_eq!(bot.commands.len(), 2);
    assert_eq!(bot.phase, Phase::Unconnected);
}

#[test]
fn commands_keep_registration_order() {
    let bot = poll().help(add_no as Handler);
    assert_eq!(bot.commands.len(), 3);
    assert_eq!(bot.commands[0].trigger, "yes");
    assert_eq!(bot.commands[1].trigger, "no");
    assert_eq!(bot.commands[2].trigger, "!help");
    assert_eq!(bot.commands[2].description, Some("Show this help.".to_string()));
    assert!(matches!(bot.commands[2].functor, FunctorType::Extra(f) if f == add_no as Handler));
}

#[test]
fn live_endpoints_are_the_reached_ones() {
    assert_eq!(live_endpoints(4, &vec![true, false, true, true]), vec![0, 2, 3]);
    assert_eq!(live_endpoints(2, &vec![false, false]), Vec::<usize>::new());
    assert_eq!(live_endpoints(2, &vec![true, true, true]), vec![0, 1]);
    assert_eq!(live_endpoints(3, &vec![false, true]), vec![1]);
    assert_eq!(live_endpoints(0, &vec![]), Vec::<usize>::new());
}

#[test]
fn one_unreachable_relay_is_tolerated() {
    let mut bot = poll();
    assert_eq!(bot.connect(&vec![false, true]), Ok(()));
    assert_eq!(bot.phase, Phase::Connected);
    assert_eq!(bot.sender.sinks, vec![1]);
    let reply = EventNonSigned { created_at: 1, kind: 1, tags: vec![], content: "hi".to_string() };
    let sent = bot.sender.send(reply.clone(), &bot.keypair).unwrap();
    assert_eq!(sent.content, "hi");
    assert_eq!(sent.created_at, 1);
    assert_eq!(validate(sent.serialize()), Ok(sent));
    assert_eq!(bot.sender.sinks.len(), 1);
}

#[test]
fn no_reachable_relay_is_fatal() {
    let mut bot = poll();
    assert_eq!(bot.connect(&vec![false, false]), Err(RuntimeError::NoRelaysAvailable));
    assert_eq!(bot.phase, Phase::Unconnected);
    assert!(bot.sender.sinks.is_empty());
    assert_eq!(bot.connect(&vec![]), Err(RuntimeError::NoRelaysAvailable));
}

#[test]
fn sending_without_sinks_fails() {
    let bot = poll();
    let reply = EventNonSigned { created_at: 1, kind: 1, tags: vec![], content: "hi".to_string() };
    assert_eq!(bot.sender.send(reply, &bot.keypair), Err(RuntimeError::NoSinks));
}

#[test]
fn run_needs_a_connection() {
    let mut bot = poll();
    assert_eq!(bot.run(5), Err(RuntimeError::NoRelaysAvailable));
    assert_eq!(bot.phase, Phase::Unconnected);
}

#[test]
fn run_publishes_profile_and_introduction() {
    let mut bot = poll().set_name("poll \"bot\"").set_picture("p").set_intro_message("Hello");
    assert_eq!(bot.connect(&vec![true, true]), Ok(()));
    let events = bot.run(99).unwrap();
    assert_eq!(bot.phase, Phase::Running);
    assert_eq!(
        events,
        vec![
            EventNonSigned {
                created_at: 99,
                kind: 0,
                tags: vec![],
                content: "{\"name\":\"poll \\\"bot\\\"\",\"picture\":\"p\"}".to_string(),
            },
            EventNonSigned { created_at: 99, kind: 1, tags: vec![], content: "Hello".to_string() },
        ]
    );
    assert_eq!(bot.run(100), Err(RuntimeError::NoRelaysAvailable));
    assert_eq!(bot.phase, Phase::Running);
}

#[test]
fn run_without_profile_publishes_nothing() {
    let mut bot = poll();
    assert_eq!(bot.connect(&vec![true, false]), Ok(()));
    assert_eq!(bot.run(1), Ok(vec![]));
    bot.stop();
    assert_eq!(bot.phase, Phase::Stopped);
    assert_eq!(bot.sender.sinks, vec![0]);
}

#[test]
fn metadata_text_is_exact() {
    let mut profile = Profile::new();
    assert_eq!(profile.metadata_text(), "{}");
    profile.about = Some("Just a bot.".to_string());
    assert_eq!(profile.metadata_text(), "{\"about\":\"Just a bot.\"}");
    profile.name = Some("n".to_string());
    profile.picture_url = Some("u".to_string());
    assert_eq!(
        profile.metadata_text(),
        "{\"name\":\"n\",\"about\":\"Just a bot.\",\"picture\":\"u\"}"
    );
    assert_eq!(profile.startup_events(3).len(), 1);
}

#[test]
fn reconnecting_replaces_the_live_set() {
    let mut bot = poll();
    assert_eq!(bot.connect(&vec![true, false]), Ok(()));
    assert_eq!(bot.run(1), Ok(vec![]));
    assert_eq!(bot.connect(&vec![false, true]), Ok(()));
    assert_eq!(bot.phase, Phase::Running);
    assert_eq!(bot.sender.sinks, vec![1]);
}

#[test]
fn yes_with_trailing_text_counts_once() {
    let bot = poll();
    let mut votes = Votes { yes: 0, no: 0 };
    let raw = inbound("yes extra text");
    let id = raw.id.clone();
    let reply = deliver(&bot, &mut votes, Frame::Event(raw)).unwrap();
    assert_eq!(votes.yes, 1);
    assert_eq!(votes.no, 0);
    assert_eq!(reply.content, "yes: 100.00 % (1)\nno: 0.00 % (0)");
    assert_eq!(reply.tags[0], vec!["e".to_string(), id]);
}

#[test]
fn malformed_frame_changes_nothing() {
    let bot = poll();
    let mut votes = Votes { yes: 0, no: 0 };
    assert_eq!(bot.receive(Frame::Malformed), Action::Malformed);
    assert!(deliver(&bot, &mut votes, Frame::Malformed).is_none());
    assert_eq!(votes.yes, 0);
    assert_eq!(votes.no, 0);
}

#[test]
fn control_frames_and_strangers_are_ignored() {
    let bot = poll();
    assert_eq!(bot.receive(Frame::Control), Action::Ignored);
    assert_eq!(bot.receive(Frame::Event(inbound("good morning"))), Action::Ignored);
}

#[test]
fn forged_events_never_reach_a_handler() {
    let bot = poll();
    let mut votes = Votes { yes: 0, no: 0 };
    let mut raw = inbound("no");
    raw.content = "yes".to_string();
    assert_eq!(
        bot.receive(Frame::Event(raw.clone())),
        Action::Rejected(ValidationError::BadIdentifier)
    );
    assert!(deliver(&bot, &mut votes, Frame::Event(raw)).is_none());
    assert_eq!(votes.yes, 0);
    let mut raw = inbound("yes");
    raw.sig = hex_encode(&[0u8; 64]);
    assert_eq!(bot.receive(Frame::Event(raw)), Action::Rejected(ValidationError::BadSignature));
    let mut raw = inbound("yes");
    raw.id = "not hex".to_string();
    assert_eq!(bot.receive(Frame::Event(raw)), Action::Rejected(ValidationError::ParseError));
}

#[test]
fn events_in_sequence_lose_no_update() {
    let bot = poll();
    let mut votes = Votes { yes: 0, no: 0 };
    let contents = ["yes", "no", "yes please", "maybe", "yes", "no thanks"];
    let mut last = String::new();
    for content in contents {
        if let Some(reply) = deliver(&bot, &mut votes, Frame::Event(inbound(content))) {
            last = reply.content;
        }
    }
    assert_eq!(votes.yes, 3);
    assert_eq!(votes.no, 2);
    assert_eq!(last, "yes: 60.00 % (3)\nno: 40.00 % (2)");
}

#[test]
fn valid_event_is_handed_over_with_its_dispatch() {
    let bot = poll();
    let raw = inbound("no way");
    match bot.receive(Frame::Event(raw.clone())) {
        Action::Invoke { event, dispatch } => {
            assert_eq!(dispatch, Dispatch::Basic { index: 1 });
            assert_eq!(event.serialize(), raw);
        }
        other => panic!("{:?}", other),
    }
}

#[test]
fn sender_can_be_replaced() {
    let bot = poll().sender(Sender { sinks: vec![1] });
    assert_eq!(bot.sender.sinks, vec![1]);
    assert_eq!(bot.commands.len(), 2);
    let note = EventNonSigned { created_at: 2, kind: 1, tags: vec![], content: "x".to_string() };
    assert!(bot.sender.send(note, &bot.keypair).is_ok());
}

#[test]
fn help_on_a_fresh_bot() {
    let bot: Poll = Bot::new(keypair(), vec![], Network::Clearnet).help(add_yes as Handler);
    assert_eq!(bot.commands.len(), 1);
    assert_eq!(bot.commands[0].trigger, "!help");
    assert_eq!(bot.commands[0].description, Some("Show this help.".to_string()));
    assert!(matches!(bot.commands[0].functor, FunctorType::Extra(_)));
    assert_eq!(bot.phase, Phase::Unconnected);
    let raw = inbound("!help  please ");
    assert_eq!(
        bot.receive(Frame::Event(raw.clone())),
        Action::Invoke {
            event: validate(raw).unwrap(),
            dispatch: Dispatch::Extra { index: 0, text: "please".to_string() },
        }
    );
}

#[test]
fn bot_publishes_under_its_own_key() {
    let mut bot = poll();
    assert_eq!(
        hex_encode(&bot.pubkey),
        "f9308a019258c31049344f85f89d5229b531c845836f99b08601f113bce036f9"
    );
    let note = EventNonSigned { created_at: 2, kind: 1, tags: vec![], content: "x".to_string() };
    assert_eq!(bot.send(note.clone()), Err(RuntimeError::NoSinks));
    assert_eq!(bot.connect(&vec![true, true]), Ok(()));
    let sent = bot.send(note.clone()).unwrap();
    assert_eq!(sent.pubkey, bot.pubkey);
    assert_eq!(sent.content, "x");
    assert_eq!(sent.id, note.digest(&bot.pubkey));
    assert_eq!(validate(sent.serialize()), Ok(sent));
}

#[test]
fn signature_that_does_not_verify_is_a_send_error() {
    let sender = Sender { sinks: vec![0] };
    let note = EventNonSigned { created_at: 2, kind: 1, tags: vec![], content: "x".to_string() };
    let stranger = vec![0xdf; 32];
    assert_eq!(sender.send_as(note.clone(), &keypair(), stranger), Err(RuntimeError::SendError));
    assert_eq!(sender.send_as(note, &keypair(), vec![]), Err(RuntimeError::SendError));
}
