//! The client side of the relay: its identifier, and what it does with the
//! bytes that the hub sends.
//!
//! Inbound bytes are cut into frames, each frame is decoded to a key event,
//! and each event whose key the incoming map knows is replayed as a press
//! followed by a release of the mapped key. The caller reads the bytes and
//! performs the presses and releases.

use crate::config::KeyCodeMap;
use crate::frame::{
    byte_views, delivered, frame_of, lemma_chunking_is_irrelevant, lemma_frame_then_tail,
    lemma_split_anywhere, payloads, remainder, FrameReader,
};
use crate::protocol::{
    bitcode_serialized, event_of_payload, event_views, frame_serialized, framed, KeyEvent,
    KeyEventView, ProtocolError,
};
use rand::Rng;
use vstd::prelude::*;
use vstd::std_specs::iter::IteratorSpec;
use vstd::string::StringExecFns;

verus! {

broadcast use vstd::std_specs::hash::group_hash_axioms;

/// The random number at the end of a client identifier is below this bound.
pub const CLIENT_NUMBER_BOUND: u32 = 10_000;

/// What the replay device is asked to do.
#[derive(Clone, Copy, Debug, PartialEq, Eq, Structural)]
pub enum ReplayAction {
    /// Press the key with this code.
    Press(u16),
    /// Release the key with this code.
    Release(u16),
}

/// What a chunk of inbound bytes led to.
#[derive(Clone, Debug, PartialEq, Eq)]
pub struct Received {
    /// The presses and releases to perform, in order.
    pub actions: Vec<ReplayAction>,
    /// How many complete frames held no key event and were dropped.
    pub malformed: usize,
}

/// What a batch of outbound events led to.
#[derive(Clone, Debug, PartialEq, Eq)]
pub struct Sent {
    /// The bytes to write to the hub: one frame for each event that could
    /// be framed, in the order of the batch.
    pub bytes: Vec<u8>,
    /// How many events could not be serialized or framed and were dropped.
    pub dropped: usize,
}

/// Asks `rand::rng()` for a number in `low..high` with
/// `Rng::random_range`. The number is at least `low` and below `high`;
/// nothing else is known of it. An empty range is not allowed.
#[verifier::external_body]
fn random_in_range(low: u32, high: u32) -> (n: u32)
    requires
        low < high,
    ensures
        low <= n < high,
{
    rand::rng().random_range(low..high)
}

/// Asks `hostname::get` for the name of this machine. Returns `None`
/// where the call fails or the name is not valid Unicode. Nothing is known
/// of the name.
#[verifier::external_body]
fn system_host_name() -> (name: Option<String>)
{
    match hostname::get() {
        Ok(name) => name.into_string().ok(),
        Err(_) => None,
    }
}

/// The character of a decimal digit.
pub open spec fn digit(d: nat) -> char {
    if d == 0 {
        '0'
    } else if d == 1 {
        '1'
    } else if d == 2 {
        '2'
    } else if d == 3 {
        '3'
    } else if d == 4 {
        '4'
    } else if d == 5 {
        '5'
    } else if d == 6 {
        '6'
    } else if d == 7 {
        '7'
    } else if d == 8 {
        '8'
    } else {
        '9'
    }
}

/// A number in decimal notation, without leading zeros.
pub open spec fn decimal(n: nat) -> Seq<char>
    decreases n,
{
    if n < 10 {
        seq![digit(n)]
    } else {
        decimal(n / 10).push(digit(n % 10))
    }
}

/// The user name that the environment gives: the first of the values that
/// is set and is not "root".
pub open spec fn first_user(values: Seq<Option<Seq<char>>>) -> Option<Seq<char>>
    decreases values.len(),
{
    if values.len() == 0 {
        None
    } else if values[0] is Some && values[0] != Some("root"@) {
        values[0]
    } else {
        first_user(values.drop_first())
    }
}

/// The name under which a client goes: the user name from the environment,
/// else the name of the machine, else "unknown".
pub open spec fn user_id(values: Seq<Option<Seq<char>>>, host: Option<Seq<char>>) -> Seq<char> {
    match first_user(values) {
        Some(user) => user,
        None => match host {
            Some(host) => host,
            None => "unknown"@,
        },
    }
}

/// A client identifier: the name, a hyphen and the number.
pub open spec fn client_id(name: Seq<char>, number: nat) -> Seq<char> {
    name + "-"@ + decimal(number)
}

/// The view of an optional string.
pub open spec fn option_view(value: Option<String>) -> Option<Seq<char>> {
    match value {
        Some(s) => Some(s@),
        None => None,
    }
}

/// The views of a list of optional strings.
pub open spec fn value_views(values: Seq<Option<String>>) -> Seq<Option<Seq<char>>> {
    values.map_values(|v: Option<String>| option_view(v))
}

/// The presses and releases that replay a key.
pub open spec fn press_and_release(key: u16) -> Seq<ReplayAction> {
    seq![ReplayAction::Press(key), ReplayAction::Release(key)]
}

/// What a received event leads to: a press and a release of the key that
/// the incoming map gives for the event's key, or nothing where the map has
/// no entry for it.
pub open spec fn replay_of(incoming: Map<u16, u16>, key: u16) -> Seq<ReplayAction> {
    if incoming.contains_key(key) {
        press_and_release(incoming[key])
    } else {
        Seq::empty()
    }
}

/// What a payload leads to: the replay of the event it holds, or nothing
/// where it holds none.
pub open spec fn replay_of_payload(incoming: Map<u16, u16>, payload: Seq<u8>) -> Seq<ReplayAction> {
    match event_of_payload(payload) {
        Some(event) => replay_of(incoming, event.key),
        None => Seq::empty(),
    }
}

/// What a list of payloads leads to, in order.
pub open spec fn replay_of_payloads(incoming: Map<u16, u16>, items: Seq<Seq<u8>>) -> Seq<
    ReplayAction,
>
    decreases items.len(),
{
    if items.len() == 0 {
        Seq::empty()
    } else {
        replay_of_payloads(incoming, items.drop_last()) + replay_of_payload(incoming, items.last())
    }
}

/// What a receiver that holds `pending` performs, in order, when it is fed
/// `chunks` one after the other.
pub open spec fn replayed(incoming: Map<u16, u16>, pending: Seq<u8>, chunks: Seq<Seq<u8>>) -> Seq<
    ReplayAction,
>
    decreases chunks.len(),
{
    if chunks.len() == 0 {
        Seq::empty()
    } else {
        replay_of_payloads(incoming, payloads(pending + chunks[0])) + replayed(
            incoming,
            remainder(pending + chunks[0]),
            chunks.drop_first(),
        )
    }
}

/// How many of the payloads hold no key event.
pub open spec fn malformed_among(items: Seq<Seq<u8>>) -> nat
    decreases items.len(),
{
    if items.len() == 0 {
        0
    } else {
        malformed_among(items.drop_last()) + if event_of_payload(items.last()) is None {
            1nat
        } else {
            0nat
        }
    }
}

/// Whether an event can be sent: it can be serialized, and its payload
/// fits in a frame.
pub open spec fn sendable(event: KeyEventView) -> bool {
    framed(bitcode_serialized(event.key, event.client_id)) is Ok
}

/// The payload of an event that can be sent.
pub open spec fn payload_of(event: KeyEventView) -> Seq<u8> {
    bitcode_serialized(event.key, event.client_id)->Some_0
}

/// The bytes that go out for a batch of events: the frame of each event
/// that can be sent, in order.
pub open spec fn frames_of(events: Seq<KeyEventView>) -> Seq<u8>
    decreases events.len(),
{
    if events.len() == 0 {
        Seq::empty()
    } else {
        frames_of(events.drop_last()) + if sendable(events.last()) {
            frame_of(payload_of(events.last()))
        } else {
            Seq::empty()
        }
    }
}

/// How many events of a batch cannot be sent.
pub open spec fn unsendable_among(events: Seq<KeyEventView>) -> nat
    decreases events.len(),
{
    if events.len() == 0 {
        0
    } else {
        unsendable_among(events.drop_last()) + if sendable(events.last()) {
            0nat
        } else {
            1nat
        }
    }
}

/// The names of the environment variables that may hold the user name, in
/// the order in which they are consulted.
pub fn user_variables() -> (names: Vec<&'static str>)
    ensures
        names@.len() == 4,
        names@[0]@ == "SUDO_USER"@,
        names@[1]@ == "USER"@,
        names@[2]@ == "LOGNAME"@,
        names@[3]@ == "USERNAME"@,
{
    let mut names: Vec<&'static str> = Vec::new();
    names.push("SUDO_USER");
    names.push("USER");
    names.push("LOGNAME");
    names.push("USERNAME");
    names
}

/// The text of one decimal digit.
fn digit_text(d: u32) -> (text: &'static str)
    requires
        d < 10,
    ensures
        text@ == seq![digit(d as nat)],
{
    proof {
        reveal_strlit("0");
        reveal_strlit("1");
        reveal_strlit("2");
        reveal_strlit("3");
        reveal_strlit("4");
        reveal_strlit("5");
        reveal_strlit("6");
        reveal_strlit("7");
        reveal_strlit("8");
        reveal_strlit("9");
    }
    let text = if d == 0 {
        "0"
    } else if d == 1 {
        "1"
    } else if d == 2 {
        "2"
    } else if d == 3 {
        "3"
    } else if d == 4 {
        "4"
    } else if d == 5 {
        "5"
    } else if d == 6 {
        "6"
    } else if d == 7 {
        "7"
    } else if d == 8 {
        "8"
    } else {
        "9"
    };
    text
}

/// Writes a number in decimal notation.
pub fn decimal_string(n: u32) -> (text: String)
    ensures
        text@ == decimal(n as nat),
    decreases n,
{
    if n < 10 {
        digit_text(n).to_owned()
    } else {
        let mut text = decimal_string(n / 10);
        text.append(digit_text(n % 10));
        text
    }
}

/// Picks the user name from the values of the environment variables of
/// [`user_variables`], given in that order: the first that is set and is
/// not "root".
pub fn user_from_env(values: &Vec<Option<String>>) -> (user: Option<String>)
    ensures
        match user {
            Some(name) => first_user(value_views(values@)) == Some(name@),
            None => first_user(value_views(values@)) is None,
        },
{
    let root = "root".to_owned();
    let ghost views = value_views(values@);
    let mut i: usize = 0;
    proof {
        assert(views.skip(0) =~= views);
    }
    while i < values.len()
        invariant
            i <= values.len(),
            views == value_views(values@),
            root@ == "root"@,
            first_user(views) == first_user(views.skip(i as int)),
        decreases values.len() - i,
    {
        proof {
            assert(views.skip(i as int).drop_first() =~= views.skip(i as int + 1));
        }
        match &values[i] {
            Some(value) => {
                if *value != root {
                    return Some(value.clone());
                }
            },
            None => {},
        }
        i += 1;
    }
    None
}

/// The name under which a client goes, from the values of the environment
/// variables and the name of the machine.
pub fn user_id_from(values: &Vec<Option<String>>, host: Option<String>) -> (name: String)
    ensures
        name@ == user_id(value_views(values@), option_view(host)),
{
    match user_from_env(values) {
        Some(user) => user,
        None => match host {
            Some(host) => host,
            None => "unknown".to_owned(),
        },
    }
}

/// Puts a client identifier together: the name, a hyphen and the number in
/// decimal notation.
pub fn client_id_for(name: &str, number: u32) -> (id: String)
    ensures
        id@ == client_id(name@, number as nat),
{
    let mut id = name.to_owned();
    id.append("-");
    let digits = decimal_string(number);
    id.append(digits.as_str());
    id
}

/// Makes the identifier of this client from the values of the environment
/// variables of [`user_variables`]: the user name, or else the name of the
/// machine, or else "unknown", followed by a hyphen and a random number
/// below [`CLIENT_NUMBER_BOUND`].
pub fn make_client_id(values: &Vec<Option<String>>) -> (id: String)
    ensures
        exists|host: Option<Seq<char>>, number: nat|
            number < CLIENT_NUMBER_BOUND && id@ == #[trigger] client_id(
                user_id(value_views(values@), host),
                number,
            ),
{
    let host = match user_from_env(values) {
        Some(_) => None,
        None => system_host_name(),
    };
    let name = user_id_from(values, host);
    let number = random_in_range(0, CLIENT_NUMBER_BOUND);
    client_id_for(name.as_str(), number)
}

/// The keys that the replay device has to offer: the values of the
/// incoming map. Their order is that in which the map hands them out, of
/// which nothing is known.
pub fn replay_keys(incoming_map: &KeyCodeMap) -> (keys: Vec<u16>)
    ensures
        keys@.to_set() == incoming_map@.values(),
        keys@.len() == incoming_map@.dom().len(),
{
    let mut keys: Vec<u16> = Vec::new();
    let values = incoming_map.values();
    let ghost all = values.remaining();
    for value in it: values
        invariant
            all == it.seq(),
            keys@ == all.take(it.index() as int).unref(),
    {
        keys.push(*value);
    }
    proof {
        assert(all.take(all.len() as int) =~= all);
    }
    keys
}

/// The presses and releases that replay a key: a press, then a release.
pub fn press_key(key: u16) -> (actions: Vec<ReplayAction>)
    ensures
        actions@ == press_and_release(key),
{
    let mut actions: Vec<ReplayAction> = Vec::new();
    actions.push(ReplayAction::Press(key));
    actions.push(ReplayAction::Release(key));
    actions
}

/// Decides what a received event leads to: a press and a release of the
/// key that the incoming map gives for the event's key, or nothing where
/// the map has no entry for it.
pub fn handle_incoming_key(event: &KeyEvent, incoming_map: &KeyCodeMap) -> (actions: Vec<
    ReplayAction,
>)
    ensures
        actions@ == replay_of(incoming_map@, event.key),
        !incoming_map@.contains_key(event.key) ==> actions@.len() == 0,
{
    match incoming_map.get(&event.key) {
        Some(mapped) => press_key(*mapped),
        None => Vec::new(),
    }
}

/// Decides what a decoded payload leads to: the replay of the event, or
/// nothing where decoding failed.
pub fn handle_decoded(decoded: Result<KeyEvent, ProtocolError>, incoming_map: &KeyCodeMap) -> (actions:
    Vec<ReplayAction>)
    ensures
        actions@ == match decoded {
            Ok(event) => replay_of(incoming_map@, event.key),
            Err(_) => Seq::empty(),
        },
{
    match decoded {
        Ok(event) => handle_incoming_key(&event, incoming_map),
        Err(_) => Vec::new(),
    }
}

/// Turns a batch of events into the bytes to write to the hub: the frame of
/// each event, in the order of the batch. An event that cannot be
/// serialized, or whose payload is too long for a frame, is counted and
/// dropped; the others are not affected. The payload of every event that is
/// sent decodes to that event again.
pub fn send_key_events(events: &Vec<KeyEvent>) -> (sent: Sent)
    ensures
        sent.bytes@ == frames_of(event_views(events@)),
        sent.dropped == unsendable_among(event_views(events@)),
        forall|i: int|
            0 <= i < events@.len() && sendable(#[trigger] events@[i]@) ==> event_of_payload(
                payload_of(events@[i]@),
            ) == Some(events@[i]@),
{
    let ghost views = event_views(events@);
    let mut bytes: Vec<u8> = Vec::new();
    let mut dropped: usize = 0;
    let mut i: usize = 0;
    while i < events.len()
        invariant
            i <= events.len(),
            views == event_views(events@),
            bytes@ == frames_of(views.take(i as int)),
            dropped == unsendable_among(views.take(i as int)),
            dropped <= i,
            forall|j: int|
                0 <= j < i && sendable(#[trigger] events@[j]@) ==> event_of_payload(
                    payload_of(events@[j]@),
                ) == Some(events@[j]@),
        decreases events.len() - i,
    {
        proof {
            let upto = views.take(i as int + 1);
            assert(upto.drop_last() =~= views.take(i as int));
        }
        match events[i].to_payload() {
            Ok(payload) => match frame_serialized(Some(payload)) {
                Ok(mut frame) => {
                    bytes.append(&mut frame);
                },
                Err(_) => {
                    dropped += 1;
                },
            },
            Err(_) => {
                dropped += 1;
            },
        }
        i += 1;
    }
    proof {
        assert(views.take(i as int) =~= views);
    }
    Sent { bytes, dropped }
}

/// What goes out for a batch of events parses back, on the other side, into
/// the payloads of the events that could be sent, with nothing left over.
pub proof fn lemma_sent_bytes_hold_whole_frames(events: Seq<KeyEventView>)
    ensures
        remainder(frames_of(events)) == Seq::<u8>::empty(),
        payloads(frames_of(events)).len() + unsendable_among(events) == events.len(),
    decreases events.len(),
{
    if events.len() > 0 {
        let before = events.drop_last();
        lemma_sent_bytes_hold_whole_frames(before);
        if sendable(events.last()) {
            let payload = payload_of(events.last());
            lemma_split_anywhere(frames_of(before), frame_of(payload));
            lemma_frame_then_tail(payload, Seq::empty());
            assert(frame_of(payload) + Seq::<u8>::empty() =~= frame_of(payload));
            assert(Seq::<u8>::empty() + frame_of(payload) =~= frame_of(payload));
        } else {
            assert(frames_of(before) + Seq::<u8>::empty() =~= frames_of(before));
        }
    }
}

/// For every batch of N events that can all be sent, what goes out is
/// exactly N frames, and they carry the payloads of the events in the
/// order of the batch.
pub proof fn lemma_one_frame_per_event_in_order(events: Seq<KeyEventView>)
    requires
        forall|i: int| 0 <= i < events.len() ==> sendable(#[trigger] events[i]),
    ensures
        payloads(frames_of(events)) == events.map_values(|e: KeyEventView| payload_of(e)),
        payloads(frames_of(events)).len() == events.len(),
        remainder(frames_of(events)) == Seq::<u8>::empty(),
    decreases events.len(),
{
    let wanted = events.map_values(|e: KeyEventView| payload_of(e));
    if events.len() == 0 {
        assert(payloads(frames_of(events)) =~= wanted);
    } else {
        let before = events.drop_last();
        assert forall|i: int| 0 <= i < before.len() implies sendable(#[trigger] before[i]) by {
            assert(before[i] == events[i]);
        }
        lemma_one_frame_per_event_in_order(before);
        assert(sendable(events[events.len() - 1]));
        let payload = payload_of(events.last());
        lemma_split_anywhere(frames_of(before), frame_of(payload));
        lemma_frame_then_tail(payload, Seq::empty());
        assert(frame_of(payload) + Seq::<u8>::empty() =~= frame_of(payload));
        assert(Seq::<u8>::empty() + frame_of(payload) =~= frame_of(payload));
        assert(payloads(frames_of(events)) =~= wanted);
    }
}

/// What two lists of payloads lead to, one after the other, is what the
/// two lists joined lead to.
pub proof fn lemma_replay_of_joined(incoming: Map<u16, u16>, a: Seq<Seq<u8>>, b: Seq<Seq<u8>>)
    ensures
        replay_of_payloads(incoming, a + b) == replay_of_payloads(incoming, a) + replay_of_payloads(
            incoming,
            b,
        ),
    decreases b.len(),
{
    if b.len() == 0 {
        assert(a + b =~= a);
        assert(replay_of_payloads(incoming, a) + Seq::<ReplayAction>::empty()
            =~= replay_of_payloads(incoming, a));
    } else {
        lemma_replay_of_joined(incoming, a, b.drop_last());
        assert((a + b).drop_last() =~= a + b.drop_last());
        assert((a + b).last() == b.last());
        assert(replay_of_payloads(incoming, a) + (replay_of_payloads(incoming, b.drop_last())
            + replay_of_payload(incoming, b.last())) =~= (replay_of_payloads(incoming, a)
            + replay_of_payloads(incoming, b.drop_last())) + replay_of_payload(
            incoming,
            b.last(),
        ));
    }
}

/// What a receiver performs chunk by chunk is what the payloads that its
/// reader hands out lead to.
pub proof fn lemma_replayed_follows_delivered(
    incoming: Map<u16, u16>,
    pending: Seq<u8>,
    chunks: Seq<Seq<u8>>,
)
    ensures
        replayed(incoming, pending, chunks) == replay_of_payloads(
            incoming,
            delivered(pending, chunks),
        ),
    decreases chunks.len(),
{
    if chunks.len() > 0 {
        lemma_replayed_follows_delivered(
            incoming,
            remainder(pending + chunks[0]),
            chunks.drop_first(),
        );
        lemma_replay_of_joined(
            incoming,
            payloads(pending + chunks[0]),
            delivered(remainder(pending + chunks[0]), chunks.drop_first()),
        );
    }
}

/// What a receiver performs does not depend on how the stream from the hub
/// is cut into chunks: byte by byte, frame by frame or several frames at
/// once, the same stream leads to the same presses and releases.
pub proof fn lemma_replay_ignores_chunking(
    incoming: Map<u16, u16>,
    first: Seq<Seq<u8>>,
    second: Seq<Seq<u8>>,
)
    requires
        first.flatten() == second.flatten(),
    ensures
        replayed(incoming, Seq::empty(), first) == replayed(incoming, Seq::empty(), second),
{
    lemma_replayed_follows_delivered(incoming, Seq::empty(), first);
    lemma_replayed_follows_delivered(incoming, Seq::empty(), second);
    lemma_chunking_is_irrelevant(first, second);
}

/// The inbound side of a client: collects the bytes that arrive from the
/// hub and turns them into presses and releases.
pub struct Receiver {
    reader: FrameReader,
    incoming_map: KeyCodeMap,
}

impl Receiver {
    /// The bytes received so far that belong to no complete frame.
    pub closed spec fn pending(&self) -> Seq<u8> {
        self.reader@
    }

    /// The incoming key map.
    pub closed spec fn incoming(&self) -> Map<u16, u16> {
        self.incoming_map@
    }

    /// A receiver that has received nothing.
    pub fn new(incoming_map: KeyCodeMap) -> (receiver: Receiver)
        ensures
            receiver.pending() == Seq::<u8>::empty(),
            receiver.incoming() == incoming_map@,
    {
        Receiver { reader: FrameReader::new(), incoming_map }
    }

    /// Takes the next chunk of bytes from the hub. Every frame that the
    /// chunk completes is decoded; an event whose key the incoming map
    /// knows is replayed, an event with another key is ignored, and a
    /// frame that holds no event is counted and dropped. The bytes that
    /// follow the last complete frame are kept for the next chunk.
    pub fn receive_server_messages(&mut self, chunk: &[u8]) -> (received: Received)
        ensures
            received.actions@ == replay_of_payloads(
                old(self).incoming(),
                payloads(old(self).pending() + chunk@),
            ),
            received.malformed == malformed_among(payloads(old(self).pending() + chunk@)),
            final(self).pending() == remainder(old(self).pending() + chunk@),
            final(self).incoming() == old(self).incoming(),
    {
        let complete = self.reader.push(chunk);
        let ghost items = byte_views(complete@);
        let mut actions: Vec<ReplayAction> = Vec::new();
        let mut malformed: usize = 0;
        let mut i: usize = 0;
        while i < complete.len()
            invariant
                i <= complete.len(),
                items == byte_views(complete@),
                self.incoming() == old(self).incoming(),
                self.pending() == remainder(old(self).pending() + chunk@),
                actions@ == replay_of_payloads(self.incoming(), items.take(i as int)),
                malformed == malformed_among(items.take(i as int)),
                malformed <= i,
            decreases complete.len() - i,
        {
            proof {
                let upto = items.take(i as int + 1);
                assert(upto.drop_last() =~= items.take(i as int));
            }
            let decoded = KeyEvent::from_slice(complete[i].as_slice());
            if decoded.is_err() {
                malformed += 1;
            }
            let mut more = handle_decoded(decoded, &self.incoming_map);
            actions.append(&mut more);
            i += 1;
        }
        proof {
            assert(items.take(i as int) =~= items);
        }
        Received { actions, malformed }
    }
}

} // verus!
