//! The event model: signed events, their wire-shaped form, the canonical
//! text that an identifier is the digest of, and the validity rules.

use crate::crypto::{
    public_key_bytes, schnorr_verifies, sha256, sha256_digest, sign_schnorr, unix_timestamp,
    verify_schnorr,
};
use crate::text::{
    decimal, escaped, escaped_is_injective, hex_bytes, hex_decode, hex_encode, hex_round_trip,
    hex_text, is_hex, middle_is_decided, push_char, push_decimal, push_quoted, quoted,
};
use vstd::prelude::*;

verus! {

/// Why an inbound event was rejected.
#[derive(Debug, Clone, Copy, PartialEq, Eq)]
pub enum ValidationError {
    /// A field that must be hexadecimal of a fixed length is not.
    ParseError,
    /// The identifier is not the digest of the other fields.
    BadIdentifier,
    /// The signature does not verify against the author's key.
    BadSignature,
}

/// A signed event: identifier, author key and signature as bytes.
#[derive(Debug, Clone, PartialEq, Eq)]
pub struct Event {
    pub id: Vec<u8>,
    pub pubkey: Vec<u8>,
    pub created_at: u64,
    pub kind: u64,
    pub tags: Vec<Vec<String>>,
    pub content: String,
    pub sig: Vec<u8>,
}

/// An event as it travels: identifier, author key and signature as
/// hexadecimal text, nothing of it validated yet.
#[derive(Debug, Clone, PartialEq, Eq)]
pub struct RawEvent {
    pub id: String,
    pub pubkey: String,
    pub created_at: u64,
    pub kind: u64,
    pub tags: Vec<Vec<String>>,
    pub content: String,
    pub sig: String,
}

/// An event before it is signed.
#[derive(Debug, Clone, PartialEq, Eq)]
pub struct EventNonSigned {
    pub created_at: u64,
    pub kind: u64,
    pub tags: Vec<Vec<String>>,
    pub content: String,
}

pub struct EventView {
    pub id: Seq<u8>,
    pub pubkey: Seq<u8>,
    pub created_at: u64,
    pub kind: u64,
    pub tags: Seq<Seq<Seq<char>>>,
    pub content: Seq<char>,
    pub sig: Seq<u8>,
}

pub struct RawEventView {
    pub id: Seq<char>,
    pub pubkey: Seq<char>,
    pub created_at: u64,
    pub kind: u64,
    pub tags: Seq<Seq<Seq<char>>>,
    pub content: Seq<char>,
    pub sig: Seq<char>,
}

pub struct EventNonSignedView {
    pub created_at: u64,
    pub kind: u64,
    pub tags: Seq<Seq<Seq<char>>>,
    pub content: Seq<char>,
}

/// One tag as a sequence of texts.
pub open spec fn tag_view(tag: Vec<String>) -> Seq<Seq<char>> {
    Seq::new(tag@.len(), |j: int| tag@[j]@)
}

/// A list of tags as sequences of texts.
pub open spec fn tags_view(tags: Vec<Vec<String>>) -> Seq<Seq<Seq<char>>> {
    Seq::new(tags@.len(), |i: int| tag_view(tags@[i]))
}

impl View for Event {
    type V = EventView;

    open spec fn view(&self) -> EventView {
        EventView {
            id: self.id@,
            pubkey: self.pubkey@,
            created_at: self.created_at,
            kind: self.kind,
            tags: tags_view(self.tags),
            content: self.content@,
            sig: self.sig@,
        }
    }
}

impl View for RawEvent {
    type V = RawEventView;

    open spec fn view(&self) -> RawEventView {
        RawEventView {
            id: self.id@,
            pubkey: self.pubkey@,
            created_at: self.created_at,
            kind: self.kind,
            tags: tags_view(self.tags),
            content: self.content@,
            sig: self.sig@,
        }
    }
}

impl View for EventNonSigned {
    type V = EventNonSignedView;

    open spec fn view(&self) -> EventNonSignedView {
        EventNonSignedView {
            created_at: self.created_at,
            kind: self.kind,
            tags: tags_view(self.tags),
            content: self.content@,
        }
    }
}

/// The items of a list, separated by commas.
pub open spec fn comma_list(items: Seq<Seq<char>>) -> Seq<char>
    decreases items.len(),
{
    if items.len() == 0 {
        Seq::empty()
    } else if items.len() == 1 {
        items[0]
    } else {
        comma_list(items.drop_last()) + seq![','] + items.last()
    }
}

/// One tag as a bracketed list of quoted strings.
pub open spec fn tag_text(tag: Seq<Seq<char>>) -> Seq<char> {
    seq!['['] + comma_list(tag.map_values(|s: Seq<char>| quoted(s))) + seq![']']
}

/// All tags as a bracketed list of tags.
pub open spec fn tags_text(tags: Seq<Seq<Seq<char>>>) -> Seq<char> {
    seq!['['] + comma_list(tags.map_values(|t: Seq<Seq<char>>| tag_text(t))) + seq![']']
}

/// The canonical text of an event, whose digest is the event's identifier:
/// the list of zero, the author's key in hexadecimal, the creation time, the
/// kind, the tags and the content.
pub open spec fn canonical(
    pubkey: Seq<char>,
    created_at: u64,
    kind: u64,
    tags: Seq<Seq<Seq<char>>>,
    content: Seq<char>,
) -> Seq<char> {
    seq!['[', '0', ','] + quoted(pubkey) + seq![','] + decimal(created_at as nat) + seq![',']
        + decimal(kind as nat) + seq![','] + tags_text(tags) + seq![','] + quoted(content)
        + seq![']']
}

fn push_tag(out: &mut String, tag: &Vec<String>)
    ensures
        final(out)@ == old(out)@ + tag_text(tag_view(*tag)),
{
    let ghost tv = tag_view(*tag);
    let ghost q = |s: Seq<char>| quoted(s);
    push_char(out, '[');
    let mut j: usize = 0;
    while j < tag.len()
        invariant
            j <= tag@.len(),
            tv == tag_view(*tag),
            q == |s: Seq<char>| quoted(s),
            out@ == old(out)@ + seq!['['] + comma_list(tv.subrange(0, j as int).map_values(q)),
        decreases tag@.len() - j,
    {
        if j > 0 {
            push_char(out, ',');
        }
        push_quoted(out, tag[j].as_str());
        proof {
            let now = tv.subrange(0, j + 1).map_values(q);
            assert(now.drop_last() =~= tv.subrange(0, j as int).map_values(q));
            assert(now.last() == quoted(tag@[j as int]@));
            assert(out@ =~= old(out)@ + seq!['['] + comma_list(now));
        }
        j += 1;
    }
    assert(tv.subrange(0, j as int) =~= tv);
    push_char(out, ']');
    assert(out@ =~= old(out)@ + tag_text(tv));
}

fn push_tags(out: &mut String, tags: &Vec<Vec<String>>)
    ensures
        final(out)@ == old(out)@ + tags_text(tags_view(*tags)),
{
    let ghost tv = tags_view(*tags);
    let ghost q = |t: Seq<Seq<char>>| tag_text(t);
    push_char(out, '[');
    let mut i: usize = 0;
    while i < tags.len()
        invariant
            i <= tags@.len(),
            tv == tags_view(*tags),
            q == |t: Seq<Seq<char>>| tag_text(t),
            out@ == old(out)@ + seq!['['] + comma_list(tv.subrange(0, i as int).map_values(q)),
        decreases tags@.len() - i,
    {
        if i > 0 {
            push_char(out, ',');
        }
        push_tag(out, &tags[i]);
        proof {
            let now = tv.subrange(0, i + 1).map_values(q);
            assert(now.drop_last() =~= tv.subrange(0, i as int).map_values(q));
            assert(now.last() == tag_text(tag_view(tags@[i as int])));
            assert(out@ =~= old(out)@ + seq!['['] + comma_list(now));
        }
        i += 1;
    }
    assert(tv.subrange(0, i as int) =~= tv);
    push_char(out, ']');
    assert(out@ =~= old(out)@ + tags_text(tv));
}

/// Writes the canonical text of an event's fields.
pub fn canonical_text(
    pubkey: &str,
    created_at: u64,
    kind: u64,
    tags: &Vec<Vec<String>>,
    content: &str,
) -> (r: String)
    ensures
        r@ == canonical(pubkey@, created_at, kind, tags_view(*tags), content@),
{
    let mut out = String::new();
    push_char(&mut out, '[');
    push_char(&mut out, '0');
    push_char(&mut out, ',');
    assert(out@ =~= seq!['[', '0', ',']);
    push_quoted(&mut out, pubkey);
    push_char(&mut out, ',');
    push_decimal(&mut out, created_at);
    push_char(&mut out, ',');
    push_decimal(&mut out, kind);
    push_char(&mut out, ',');
    push_tags(&mut out, tags);
    push_char(&mut out, ',');
    push_quoted(&mut out, content);
    push_char(&mut out, ']');
    assert(out@ =~= canonical(pubkey@, created_at, kind, tags_view(*tags), content@));
    out
}

/// The identifier that an event with these fields must carry: the digest of
/// its canonical text.
pub open spec fn event_digest(
    pubkey: Seq<u8>,
    created_at: u64,
    kind: u64,
    tags: Seq<Seq<Seq<char>>>,
    content: Seq<char>,
) -> Seq<u8> {
    sha256(canonical(hex_text(pubkey), created_at, kind, tags, content))
}

impl EventView {
    /// The event is what it claims to be: the fields have their sizes, the
    /// identifier is the digest of the other fields, and the signature over
    /// the identifier verifies against the author's key.
    pub open spec fn valid(self) -> bool {
        &&& self.id.len() == 32
        &&& self.pubkey.len() == 32
        &&& self.sig.len() == 64
        &&& self.id == event_digest(
            self.pubkey,
            self.created_at,
            self.kind,
            self.tags,
            self.content,
        )
        &&& schnorr_verifies(self.sig, self.id, self.pubkey)
    }

    /// The wire-shaped form of the event.
    pub open spec fn raw(self) -> RawEventView {
        RawEventView {
            id: hex_text(self.id),
            pubkey: hex_text(self.pubkey),
            created_at: self.created_at,
            kind: self.kind,
            tags: self.tags,
            content: self.content,
            sig: hex_text(self.sig),
        }
    }
}

impl RawEventView {
    /// Identifier, key and signature are hexadecimal of 32, 32 and 64 bytes.
    pub open spec fn well_formed(self) -> bool {
        &&& is_hex(self.id) && self.id.len() == 64
        &&& is_hex(self.pubkey) && self.pubkey.len() == 64
        &&& is_hex(self.sig) && self.sig.len() == 128
    }

    /// The event that the fields decode to.
    pub open spec fn decoded(self) -> EventView {
        EventView {
            id: hex_bytes(self.id),
            pubkey: hex_bytes(self.pubkey),
            created_at: self.created_at,
            kind: self.kind,
            tags: self.tags,
            content: self.content,
            sig: hex_bytes(self.sig),
        }
    }

    /// The verdict on a wire-shaped event: the decoded event, or the first
    /// rule that it breaks, in the order form, identifier, signature.
    pub open spec fn verdict(self) -> Result<EventView, ValidationError> {
        if !self.well_formed() {
            Err(ValidationError::ParseError)
        } else if hex_bytes(self.id) != sha256(
            canonical(self.pubkey, self.created_at, self.kind, self.tags, self.content),
        ) {
            Err(ValidationError::BadIdentifier)
        } else if !schnorr_verifies(
            hex_bytes(self.sig),
            hex_bytes(self.id),
            hex_bytes(self.pubkey),
        ) {
            Err(ValidationError::BadSignature)
        } else {
            Ok(self.decoded())
        }
    }
}

/// Tells whether two byte strings are equal.
pub fn same_bytes(a: &Vec<u8>, b: &Vec<u8>) -> (r: bool)
    ensures
        r == (a@ == b@),
{
    if a.len() != b.len() {
        return false;
    }
    let mut i: usize = 0;
    while i < a.len()
        invariant
            a@.len() == b@.len(),
            i <= a@.len(),
            forall|k: int| 0 <= k < i ==> a@[k] == b@[k],
        decreases a@.len() - i,
    {
        if a[i] != b[i] {
            return false;
        }
        i += 1;
    }
    assert(a@ =~= b@);
    true
}

/// Validates a wire-shaped event and turns it into an event. Fails with
/// `ParseError` where identifier, key or signature is not hexadecimal of its
/// size, with `BadIdentifier` where the identifier is not the digest of the
/// canonical text, with `BadSignature` where the signature does not verify.
pub fn validate(raw: RawEvent) -> (r: Result<Event, ValidationError>)
    ensures
        match r {
            Ok(e) => raw@.verdict() == Ok::<EventView, ValidationError>(e@),
            Err(x) => raw@.verdict() == Err::<EventView, ValidationError>(x),
        },
{
    let id = match hex_decode(raw.id.as_str()) {
        Some(v) => v,
        None => {
            return Err(ValidationError::ParseError);
        },
    };
    let pubkey = match hex_decode(raw.pubkey.as_str()) {
        Some(v) => v,
        None => {
            return Err(ValidationError::ParseError);
        },
    };
    let sig = match hex_decode(raw.sig.as_str()) {
        Some(v) => v,
        None => {
            return Err(ValidationError::ParseError);
        },
    };
    if id.len() != 32 || pubkey.len() != 32 || sig.len() != 64 {
        return Err(ValidationError::ParseError);
    }
    let text = canonical_text(
        raw.pubkey.as_str(),
        raw.created_at,
        raw.kind,
        &raw.tags,
        raw.content.as_str(),
    );
    let digest = sha256_digest(text.as_str());
    if !same_bytes(&id, &digest) {
        return Err(ValidationError::BadIdentifier);
    }
    if !verify_schnorr(sig.as_slice(), id.as_slice(), pubkey.as_slice()) {
        return Err(ValidationError::BadSignature);
    }
    Ok(
        Event {
            id,
            pubkey,
            created_at: raw.created_at,
            kind: raw.kind,
            tags: raw.tags,
            content: raw.content,
            sig,
        },
    )
}

fn copy_tag(tag: &Vec<String>) -> (r: Vec<String>)
    ensures
        tag_view(r) == tag_view(*tag),
{
    let mut out: Vec<String> = Vec::new();
    let mut j: usize = 0;
    while j < tag.len()
        invariant
            j <= tag@.len(),
            out@.len() == j,
            forall|k: int| 0 <= k < j ==> out@[k]@ == tag@[k]@,
        decreases tag@.len() - j,
    {
        out.push(tag[j].clone());
        j += 1;
    }
    assert(tag_view(out) =~= tag_view(*tag));
    out
}

/// Copies a list of tags.
pub fn copy_tags(tags: &Vec<Vec<String>>) -> (r: Vec<Vec<String>>)
    ensures
        tags_view(r) == tags_view(*tags),
{
    let mut out: Vec<Vec<String>> = Vec::new();
    let mut i: usize = 0;
    while i < tags.len()
        invariant
            i <= tags@.len(),
            out@.len() == i,
            forall|k: int| 0 <= k < i ==> tag_view(out@[k]) == tag_view(tags@[k]),
        decreases tags@.len() - i,
    {
        out.push(copy_tag(&tags[i]));
        i += 1;
    }
    assert(tags_view(out) =~= tags_view(*tags));
    out
}

impl Event {
    /// The wire-shaped form of the event: identifier, key and signature in
    /// hexadecimal, the other fields as they are.
    pub fn serialize(&self) -> (r: RawEvent)
        ensures
            r@ == self@.raw(),
    {
        RawEvent {
            id: hex_encode(self.id.as_slice()),
            pubkey: hex_encode(self.pubkey.as_slice()),
            created_at: self.created_at,
            kind: self.kind,
            tags: copy_tags(&self.tags),
            content: self.content.clone(),
            sig: hex_encode(self.sig.as_slice()),
        }
    }
}

/// The kind of a text note.
pub const TEXT_NOTE: u64 = 1;

/// The kind of a profile event.
pub const METADATA: u64 = 0;

/// The reply to `event` with the given content and creation time: a text
/// note with two tags, `e` with the identifier of `event` and `p` with its
/// author's key, both in hexadecimal.
pub open spec fn reply_view(event: EventView, content: Seq<char>, created_at: u64)
    -> EventNonSignedView {
    EventNonSignedView {
        created_at,
        kind: TEXT_NOTE,
        tags: seq![
            seq![seq!['e'], hex_text(event.id)],
            seq![seq!['p'], hex_text(event.pubkey)],
        ],
        content,
    }
}

fn marked(mark: char, value: String) -> (r: Vec<String>)
    ensures
        tag_view(r) == seq![seq![mark], value@],
{
    let mut name = String::new();
    push_char(&mut name, mark);
    let mut tag: Vec<String> = Vec::new();
    tag.push(name);
    tag.push(value);
    assert(tag_view(tag) =~= seq![seq![mark], value@]);
    tag
}

/// Builds the reply to `reply_to` with the given content and creation time.
pub fn reply_at(reply_to: &Event, content: String, created_at: u64) -> (r: EventNonSigned)
    ensures
        r@ == reply_view(reply_to@, content@, created_at),
{
    let mut tags: Vec<Vec<String>> = Vec::new();
    tags.push(marked('e', hex_encode(reply_to.id.as_slice())));
    tags.push(marked('p', hex_encode(reply_to.pubkey.as_slice())));
    assert(tags_view(tags) =~= reply_view(reply_to@, content@, created_at).tags);
    EventNonSigned { created_at, kind: TEXT_NOTE, tags, content }
}

/// Builds the reply to `reply_to` with the given content, created now. Its
/// tags carry the identifier of `reply_to` and its author's key.
pub fn format_reply(reply_to: Event, content: String) -> (r: EventNonSigned)
    ensures
        r@ == reply_view(reply_to@, content@, r.created_at),
{
    reply_at(&reply_to, content, unix_timestamp())
}

impl EventNonSignedView {
    /// The signed event that these fields make with an author's key and a
    /// signature: its identifier is the digest of the fields with that key.
    pub open spec fn sealed(self, pubkey: Seq<u8>, sig: Seq<u8>) -> EventView {
        EventView {
            id: event_digest(pubkey, self.created_at, self.kind, self.tags, self.content),
            pubkey,
            created_at: self.created_at,
            kind: self.kind,
            tags: self.tags,
            content: self.content,
            sig,
        }
    }
}

impl EventNonSigned {
    /// The identifier of the event under an author's key.
    pub fn digest(&self, pubkey: &Vec<u8>) -> (r: Vec<u8>)
        ensures
            r@ == event_digest(pubkey@, self.created_at, self.kind, self@.tags, self@.content),
            r@.len() == 32,
    {
        let hex = hex_encode(pubkey.as_slice());
        let text = canonical_text(
            hex.as_str(),
            self.created_at,
            self.kind,
            &self.tags,
            self.content.as_str(),
        );
        sha256_digest(text.as_str())
    }

    fn bind(self, id: Vec<u8>, pubkey: Vec<u8>, sig: Vec<u8>) -> (r: Option<Event>)
        requires
            id@ == event_digest(pubkey@, self.created_at, self.kind, self@.tags, self@.content),
            id@.len() == 32,
        ensures
            match r {
                Some(e) => e@ == self@.sealed(pubkey@, sig@) && e@.valid(),
                None => !self@.sealed(pubkey@, sig@).valid(),
            },
    {
        if pubkey.len() != 32 || sig.len() != 64 {
            return None;
        }
        if !verify_schnorr(sig.as_slice(), id.as_slice(), pubkey.as_slice()) {
            return None;
        }
        Some(
            Event {
                id,
                pubkey,
                created_at: self.created_at,
                kind: self.kind,
                tags: self.tags,
                content: self.content,
                sig,
            },
        )
    }

    /// Makes the signed event of these fields, an author's key and a
    /// signature, where that is a valid event: key and signature have their
    /// sizes and the signature over the identifier verifies against the key.
    pub fn seal(self, pubkey: Vec<u8>, sig: Vec<u8>) -> (r: Option<Event>)
        ensures
            match r {
                Some(e) => e@ == self@.sealed(pubkey@, sig@) && e@.valid(),
                None => !self@.sealed(pubkey@, sig@).valid(),
            },
    {
        let id = self.digest(&pubkey);
        self.bind(id, pubkey, sig)
    }

    /// Signs the event with `keypair` for the author `pubkey`. The
    /// identifier is the digest of the fields with that key. The signature
    /// that the pair makes over the identifier is verified against `pubkey`
    /// before it is used: what comes back is a valid event of that author
    /// with the fields that were given, or nothing where the signature does
    /// not verify, as with a key that is not the pair's.
    pub fn sign_as(self, keypair: &secp256k1::KeyPair, pubkey: Vec<u8>) -> (r: Option<Event>)
        ensures
            match r {
                Some(e) => e@.valid() && e@ == self@.sealed(pubkey@, e@.sig),
                None => true,
            },
    {
        let id = self.digest(&pubkey);
        match sign_schnorr(keypair, id.as_slice()) {
            Some(sig) => self.bind(id, pubkey, sig),
            None => None,
        }
    }

    /// Signs the event with `keypair` for the author that the pair gives
    /// out as its public key: a valid event with the fields that were given,
    /// or nothing where the signature does not verify.
    pub fn sign(self, keypair: &secp256k1::KeyPair) -> (r: Option<Event>)
        ensures
            match r {
                Some(e) => e@.valid() && e@ == self@.sealed(e@.pubkey, e@.sig),
                None => true,
            },
    {
        self.sign_as(keypair, public_key_bytes(keypair))
    }
}

impl EventView {
    /// The event with another content and all else as it was.
    pub open spec fn with_content(self, content: Seq<char>) -> EventView {
        EventView { content, ..self }
    }
}

proof fn wire_form_decodes(e: EventView)
    requires
        e.id.len() == 32,
        e.pubkey.len() == 32,
        e.sig.len() == 64,
    ensures
        e.raw().well_formed(),
        e.raw().decoded() == e,
{
    hex_round_trip(e.id);
    hex_round_trip(e.pubkey);
    hex_round_trip(e.sig);
}

/// A valid event, put in its wire-shaped form and validated, comes back as
/// it was.
pub proof fn validate_round_trip(e: EventView)
    requires
        e.valid(),
    ensures
        e.raw().verdict() == Ok::<EventView, ValidationError>(e),
{
    wire_form_decodes(e);
}

/// Events that differ in their content alone differ in their canonical
/// text: only a collision of digests can hide a changed content.
pub proof fn content_shows_in_canonical_text(
    pubkey: Seq<char>,
    created_at: u64,
    kind: u64,
    tags: Seq<Seq<Seq<char>>>,
    a: Seq<char>,
    b: Seq<char>,
)
    requires
        canonical(pubkey, created_at, kind, tags, a) == canonical(
            pubkey,
            created_at,
            kind,
            tags,
            b,
        ),
    ensures
        a == b,
{
    let p = seq!['[', '0', ','] + quoted(pubkey) + seq![','] + decimal(created_at as nat)
        + seq![','] + decimal(kind as nat) + seq![','] + tags_text(tags) + seq![','] + seq!['"'];
    let q = seq!['"', ']'];
    assert(canonical(pubkey, created_at, kind, tags, a) =~= p + escaped(a) + q);
    assert(canonical(pubkey, created_at, kind, tags, b) =~= p + escaped(b) + q);
    middle_is_decided(p, escaped(a), escaped(b), q);
    escaped_is_injective(a, b);
}

/// A valid event whose content was replaced, so that the digest of its
/// fields is no longer its identifier, is rejected for its identifier.
pub proof fn tampered_content_is_rejected(e: EventView, content: Seq<char>)
    requires
        e.valid(),
        event_digest(e.pubkey, e.created_at, e.kind, e.tags, content) != e.id,
    ensures
        e.with_content(content).raw().verdict() == Err::<EventView, ValidationError>(
            ValidationError::BadIdentifier,
        ),
{
    wire_form_decodes(e.with_content(content));
}

/// Whatever replaces the content of a valid event, validation never takes
/// the result for malformed, and accepts it only where the digest of the
/// changed fields is still the old identifier.
pub proof fn tampered_content_never_passes_unnoticed(e: EventView, content: Seq<char>)
    requires
        e.valid(),
    ensures
        e.with_content(content).raw().verdict() != Err::<EventView, ValidationError>(
            ValidationError::ParseError,
        ),
        e.with_content(content).raw().verdict() is Ok ==> event_digest(
            e.pubkey,
            e.created_at,
            e.kind,
            e.tags,
            content,
        ) == e.id,
{
    wire_form_decodes(e.with_content(content));
}

/// One member of an object: the quoted key, a colon, and the value's text.
pub open spec fn member(key: Seq<char>, value: Seq<char>) -> Seq<char> {
    quoted(key) + seq![':'] + value
}

impl RawEventView {
    /// The members that identify the event: identifier, author, creation
    /// time and kind.
    pub open spec fn head(self) -> Seq<char> {
        member("id"@, quoted(self.id)) + seq![','] + member("pubkey"@, quoted(self.pubkey))
            + seq![','] + member("created_at"@, decimal(self.created_at as nat)) + seq![',']
            + member("kind"@, decimal(self.kind as nat))
    }

    /// The members that carry the event: tags, content and signature.
    pub open spec fn body(self) -> Seq<char> {
        member("tags"@, tags_text(self.tags)) + seq![','] + member(
            "content"@,
            quoted(self.content),
        ) + seq![','] + member("sig"@, quoted(self.sig))
    }

    /// The event as an object in text.
    pub open spec fn object(self) -> Seq<char> {
        seq!['{'] + self.head() + seq![','] + self.body() + seq!['}']
    }

    /// The outbound frame that publishes the event: the list of the word
    /// `EVENT` and the event's object.
    pub open spec fn frame(self) -> Seq<char> {
        seq!['['] + quoted("EVENT"@) + seq![','] + self.object() + seq![']']
    }
}

fn push_key(out: &mut String, key: &str)
    ensures
        final(out)@ == old(out)@ + quoted(key@) + seq![':'],
{
    push_quoted(out, key);
    push_char(out, ':');
}

impl RawEvent {
    fn push_head(&self, out: &mut String)
        ensures
            final(out)@ == old(out)@ + self@.head(),
    {
        push_key(out, "id");
        push_quoted(out, self.id.as_str());
        push_char(out, ',');
        push_key(out, "pubkey");
        push_quoted(out, self.pubkey.as_str());
        push_char(out, ',');
        push_key(out, "created_at");
        push_decimal(out, self.created_at);
        push_char(out, ',');
        push_key(out, "kind");
        push_decimal(out, self.kind);
        assert(final(out)@ =~= old(out)@ + self@.head());
    }

    fn push_body(&self, out: &mut String)
        ensures
            final(out)@ == old(out)@ + self@.body(),
    {
        push_key(out, "tags");
        push_tags(out, &self.tags);
        push_char(out, ',');
        push_key(out, "content");
        push_quoted(out, self.content.as_str());
        push_char(out, ',');
        push_key(out, "sig");
        push_quoted(out, self.sig.as_str());
        assert(final(out)@ =~= old(out)@ + self@.body());
    }

    /// Writes the outbound frame that publishes the event.
    pub fn frame_text(&self) -> (r: String)
        ensures
            r@ == self@.frame(),
    {
        let mut out = String::new();
        push_char(&mut out, '[');
        push_quoted(&mut out, "EVENT");
        push_char(&mut out, ',');
        push_char(&mut out, '{');
        self.push_head(&mut out);
        push_char(&mut out, ',');
        self.push_body(&mut out);
        push_char(&mut out, '}');
        push_char(&mut out, ']');
        assert(out@ =~= self@.frame());
        out
    }
}

} // verus!
