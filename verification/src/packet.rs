//! Identifiers of packet types, and the table of packet handlers.

use vstd::prelude::*;
use std::collections::HashMap;
use std::hash::Hasher;
use std::collections::hash_map::DefaultHasher;
use vstd::std_specs::hash::DefaultHasherAdditionalSpecFns;
use crate::model::{
    BlockApartenance, BlockPosition, BlockType, CombatEvent, ConqueteEvent, DeplacementEvent,
    DestroyEvent, EventBuild, PacketIdentification, Race, RecoltEvent, ReponceCombatEvent, Tour,
    TrainEvent, Troup, TroupApartenance, TroupPosition,
};

verus! {

broadcast use vstd::std_specs::hash::group_hash_axioms;

/// The sequence of writes that hashing the string `name` makes into a
/// hasher whose writes so far are `before`.
pub uninterp spec fn str_hashed(before: Seq<Seq<u8>>, name: Seq<char>) -> Seq<Seq<u8>>;

/// Calls `<str as Hash>::hash(name, hasher)`, the standard hashing of a
/// string into a `DefaultHasher`. What it writes is a function of the
/// string and of the writes before it, and is left unnamed beyond that.
#[verifier::external_body]
fn hash_str(name: &str, hasher: &mut DefaultHasher)
    ensures
        final(hasher)@ == str_hashed(old(hasher)@, name@),
{
    std::hash::Hash::hash(name, hasher)
}

/// The identifier of the packet type whose name is `name`: the standard
/// `DefaultHasher`'s hash of the name.
pub open spec fn packet_id_of(name: Seq<char>) -> u64 {
    DefaultHasher::spec_finish(str_hashed(Seq::empty(), name))
}

/// The identifier of the packet type whose name is `name`.
pub fn packet_id_of_name(name: &str) -> (r: u64)
    ensures
        r == packet_id_of(name@),
{
    let mut hasher = DefaultHasher::new();
    hash_str(name, &mut hasher);
    hasher.finish()
}

/// A message that can travel between client and server.
pub trait Packet: Sized {
    /// The full path of this type, which names its packets.
    spec fn wire_name() -> Seq<char>;

    /// The full path of this type, which names its packets.
    fn packet_name() -> (r: &'static str)
        ensures
            r@ == Self::wire_name(),
    ;

    /// The identifier of this type of packet: the hash of the type's path.
    fn packet_id() -> (r: u64)
        ensures
            r == packet_id_of(Self::wire_name()),
    {
        packet_id_of_name(Self::packet_name())
    }
}

impl Packet for EventBuild {
    open spec fn wire_name() -> Seq<char> {
        "border_wars::model::EventBuild"@
    }

    fn packet_name() -> (r: &'static str) {
        "border_wars::model::EventBuild"
    }
}

impl Packet for ConqueteEvent {
    open spec fn wire_name() -> Seq<char> {
        "border_wars::model::ConqueteEvent"@
    }

    fn packet_name() -> (r: &'static str) {
        "border_wars::model::ConqueteEvent"
    }
}

impl Packet for RecoltEvent {
    open spec fn wire_name() -> Seq<char> {
        "border_wars::model::RecoltEvent"@
    }

    fn packet_name() -> (r: &'static str) {
        "border_wars::model::RecoltEvent"
    }
}

impl Packet for DeplacementEvent {
    open spec fn wire_name() -> Seq<char> {
        "border_wars::model::DeplacementEvent"@
    }

    fn packet_name() -> (r: &'static str) {
        "border_wars::model::DeplacementEvent"
    }
}

impl Packet for DestroyEvent {
    open spec fn wire_name() -> Seq<char> {
        "border_wars::model::DestroyEvent"@
    }

    fn packet_name() -> (r: &'static str) {
        "border_wars::model::DestroyEvent"
    }
}

impl Packet for CombatEvent {
    open spec fn wire_name() -> Seq<char> {
        "border_wars::model::CombatEvent"@
    }

    fn packet_name() -> (r: &'static str) {
        "border_wars::model::CombatEvent"
    }
}

impl Packet for ReponceCombatEvent {
    open spec fn wire_name() -> Seq<char> {
        "border_wars::model::ReponceCombatEvent"@
    }

    fn packet_name() -> (r: &'static str) {
        "border_wars::model::ReponceCombatEvent"
    }
}

impl Packet for TrainEvent {
    open spec fn wire_name() -> Seq<char> {
        "border_wars::model::TrainEvent"@
    }

    fn packet_name() -> (r: &'static str) {
        "border_wars::model::TrainEvent"
    }
}

impl Packet for PacketIdentification {
    open spec fn wire_name() -> Seq<char> {
        "border_wars::model::PacketIdentification"@
    }

    fn packet_name() -> (r: &'static str) {
        "border_wars::model::PacketIdentification"
    }
}

impl Packet for Race {
    open spec fn wire_name() -> Seq<char> {
        "border_wars::model::Race"@
    }

    fn packet_name() -> (r: &'static str) {
        "border_wars::model::Race"
    }
}

impl Packet for Tour {
    open spec fn wire_name() -> Seq<char> {
        "border_wars::model::Tour"@
    }

    fn packet_name() -> (r: &'static str) {
        "border_wars::model::Tour"
    }
}

impl Packet for BlockType {
    open spec fn wire_name() -> Seq<char> {
        "border_wars::model::BlockType"@
    }

    fn packet_name() -> (r: &'static str) {
        "border_wars::model::BlockType"
    }
}

impl Packet for BlockApartenance {
    open spec fn wire_name() -> Seq<char> {
        "border_wars::model::BlockApartenance"@
    }

    fn packet_name() -> (r: &'static str) {
        "border_wars::model::BlockApartenance"
    }
}

impl Packet for BlockPosition {
    open spec fn wire_name() -> Seq<char> {
        "border_wars::model::BlockPosition"@
    }

    fn packet_name() -> (r: &'static str) {
        "border_wars::model::BlockPosition"
    }
}

impl Packet for Troup {
    open spec fn wire_name() -> Seq<char> {
        "border_wars::model::Troup"@
    }

    fn packet_name() -> (r: &'static str) {
        "border_wars::model::Troup"
    }
}

impl Packet for TroupApartenance {
    open spec fn wire_name() -> Seq<char> {
        "border_wars::model::TroupApartenance"@
    }

    fn packet_name() -> (r: &'static str) {
        "border_wars::model::TroupApartenance"
    }
}

impl Packet for TroupPosition {
    open spec fn wire_name() -> Seq<char> {
        "border_wars::model::TroupPosition"@
    }

    fn packet_name() -> (r: &'static str) {
        "border_wars::model::TroupPosition"
    }
}

/// The handlers of received packets, by packet identifier.
pub struct HandlerManager<H> {
    handlers: HashMap<u64, H>,
}

impl<H> View for HandlerManager<H> {
    type V = Map<u64, H>;

    closed spec fn view(&self) -> Map<u64, H> {
        self.handlers@
    }
}

impl<H> HandlerManager<H> {
    /// A table without any handler.
    pub fn new() -> (r: Self)
        ensures
            r@ == Map::<u64, H>::empty(),
    {
        HandlerManager { handlers: HashMap::new() }
    }

    /// Registers `handler` for the packets of identifier `id`, in place of
    /// the handler registered for it before, if any.
    pub fn insert(&mut self, id: u64, handler: H)
        ensures
            final(self)@ == old(self)@.insert(id, handler),
    {
        self.handlers.insert(id, handler);
    }

    /// The handler of the packets of identifier `id`.
    pub fn get(&self, id: u64) -> (r: Option<&H>)
        ensures
            match r {
                Some(h) => self@.contains_key(id) && *h == self@[id],
                None => !self@.contains_key(id),
            },
    {
        self.handlers.get(&id)
    }
}

/// A handler that is registered is the one found for its identifier, and
/// registering it leaves the other identifiers' handlers as they were.
pub proof fn lemma_registered_handler_found<H>(m: Map<u64, H>, id: u64, h: H, other: u64)
    ensures
        m.insert(id, h).contains_key(id),
        m.insert(id, h)[id] == h,
        other != id ==> (m.insert(id, h).contains_key(other) == m.contains_key(other)),
        other != id && m.contains_key(other) ==> m.insert(id, h)[other] == m[other],
{
}

} // verus!
