//! A glue message with the message sets behind its arms: the rule that
//! resolves a payload to one message, and the call that a message leads to.

use crate::message::enum_message::{ContractEnumMessage, EnumMessage};
use crate::message::field::names_of;
use crate::message::glue::GlueMessage;
use crate::message::variant::{leg_kind, MsgVariant, Owner};
use crate::message::variants::{
    dispatch_variant, find_variant, lists, messages_of, place_of, wires,
};
use crate::names::ascending;
use crate::resolve::{
    all_ascending, claimant, collides, decode, known, lemma_unambiguous_or_collides, unambiguous,
};
use crate::seqs::{first_where, lemma_first_where, lemma_first_where_alike};
use crate::text::{decimal, occurs_in};
use crate::wire::{
    lemma_key_count_named, lemma_supported_named, DecodeError, GlueMsg, Invocation, Payload, Shape,
};
use vstd::prelude::*;

verus! {

/// The variants behind each arm: those of the interfaces' sets in order,
/// then those of the contract's own.
pub open spec fn sets_of<'a>(
    interfaces: Seq<&EnumMessage<'a>>,
    own: &ContractEnumMessage<'a>,
) -> Seq<Seq<MsgVariant<'a>>> {
    Seq::new(
        (interfaces.len() + 1) as nat,
        |k: int|
            if k < interfaces.len() {
                interfaces[k].variants@
            } else {
                own.variants@
            },
    )
}

/// The message sets that a glue message combines, each with the wire names
/// of its variants.
pub open spec fn tables(sets: Seq<Seq<MsgVariant>>) -> Seq<Seq<Seq<char>>> {
    sets.map_values(|set: Seq<MsgVariant>| wires(set))
}

/// Whether `msgs` lists the wire names of `sets`, set by set.
pub open spec fn tabulates(msgs: Seq<Seq<Seq<char>>>, sets: Seq<Seq<MsgVariant>>) -> bool {
    &&& msgs.len() == sets.len()
    &&& forall|k: int| 0 <= k < msgs.len() ==> lists(#[trigger] msgs[k], wires(sets[k]))
}

/// The first set that has a variant of the given wire name.
pub open spec fn holder(sets: Seq<Seq<MsgVariant>>, name: Seq<char>) -> Option<int> {
    first_where(sets, |set: Seq<MsgVariant>| wires(set).contains(name))
}

/// The message that a wire name is resolved to: the sets are tried in order,
/// and the first that has a variant of the name gives the message.
pub open spec fn routed(sets: Seq<Seq<MsgVariant>>, name: Seq<char>) -> Option<GlueMsg> {
    match holder(sets, name) {
        Some(arm) => match place_of(sets[arm], name) {
            Some(variant) => Some(GlueMsg { arm: arm as usize, variant: variant as usize }),
            None => None,
        },
        None => None,
    }
}

/// Whether `list` lists the wire names of all the sets: ascending, each once.
pub open spec fn lists_all(list: Seq<Seq<char>>, sets: Seq<Seq<MsgVariant>>) -> bool {
    &&& ascending(list)
    &&& forall|name: Seq<char>| list.contains(name) <==> known(tables(sets), name)
}

/// A set has a variant of a wire name exactly when the name is among the wire
/// names of its variants.
pub proof fn lemma_place_of(set: Seq<MsgVariant>, name: Seq<char>)
    ensures
        match place_of(set, name) {
            Some(at) => 0 <= at < set.len() && set[at].wire() == name && wires(set).contains(name)
                && forall|k: int| 0 <= k < at ==> (#[trigger] set[k]).wire() != name,
            None => !wires(set).contains(name),
        },
{
    lemma_first_where(set, |v: MsgVariant| v.wire() == name);
    match place_of(set, name) {
        Some(at) => {
            assert(wires(set)[at] == name);
        },
        None => {
            if wires(set).contains(name) {
                let k = choose|k: int| 0 <= k < wires(set).len() && wires(set)[k] == name;
                assert(set[k].wire() == name);
            }
        },
    }
}

/// Tables that list the wire names of the sets have the claimant of a name
/// where the sets have its holder, and overlap where the sets do.
pub proof fn lemma_tabulates(msgs: Seq<Seq<Seq<char>>>, sets: Seq<Seq<MsgVariant>>, name: Seq<char>)
    requires
        tabulates(msgs, sets),
    ensures
        claimant(msgs, name) == holder(sets, name),
        known(msgs, name) <==> known(tables(sets), name),
        collides(msgs, name) <==> collides(tables(sets), name),
{
    lemma_first_where_alike(
        msgs,
        |table: Seq<Seq<char>>| table.contains(name),
        sets,
        |set: Seq<MsgVariant>| wires(set).contains(name),
    );
    let t = tables(sets);
    if known(msgs, name) {
        let a = choose|a: int| 0 <= a < msgs.len() && (#[trigger] msgs[a]).contains(name);
        assert(t[a].contains(name));
    }
    if known(t, name) {
        let a = choose|a: int| 0 <= a < t.len() && (#[trigger] t[a]).contains(name);
        assert(msgs[a].contains(name));
    }
    if collides(msgs, name) {
        let (a, b) = choose|a: int, b: int|
            0 <= a < b < msgs.len() && (#[trigger] msgs[a]).contains(name) && (
            #[trigger] msgs[b]).contains(name);
        assert(t[a].contains(name) && t[b].contains(name));
    }
    if collides(t, name) {
        let (a, b) = choose|a: int, b: int|
            0 <= a < b < t.len() && (#[trigger] t[a]).contains(name) && (#[trigger] t[b]).contains(
                name,
            );
        assert(msgs[a].contains(name) && msgs[b].contains(name));
    }
}

/// Tables that list the wire names of the sets share a name exactly when the
/// sets do.
pub proof fn lemma_tabulates_unambiguous(msgs: Seq<Seq<Seq<char>>>, sets: Seq<Seq<MsgVariant>>)
    requires
        tabulates(msgs, sets),
    ensures
        unambiguous(msgs) <==> unambiguous(tables(sets)),
{
    let t = tables(sets);
    lemma_unambiguous_or_collides(msgs);
    lemma_unambiguous_or_collides(t);
    if exists|name: Seq<char>| collides(msgs, name) {
        let name = choose|name: Seq<char>| collides(msgs, name);
        lemma_tabulates(msgs, sets, name);
    }
    if exists|name: Seq<char>| collides(t, name) {
        let name = choose|name: Seq<char>| collides(t, name);
        lemma_tabulates(msgs, sets, name);
    }
}

/// Sets that share no wire name, each with different wire names for its
/// variants, resolve the wire name of every variant to that variant of that
/// set: a message that is encoded under its wire name and decoded again is
/// the same message, and is dispatched to the operation it was made of.
pub proof fn lemma_round_trip(sets: Seq<Seq<MsgVariant>>, arm: int, variant: int)
    requires
        unambiguous(tables(sets)),
        forall|k: int| 0 <= k < sets.len() ==> wires(#[trigger] sets[k]).no_duplicates(),
        0 <= arm < sets.len(),
        0 <= variant < sets[arm].len(),
        arm <= usize::MAX,
        variant <= usize::MAX,
    ensures
        routed(sets, sets[arm][variant].wire()) == Some(
            GlueMsg { arm: arm as usize, variant: variant as usize },
        ),
{
    let name = sets[arm][variant].wire();
    let t = tables(sets);
    let has = |set: Seq<MsgVariant>| wires(set).contains(name);
    assert(wires(sets[arm])[variant] == name);
    assert(t[arm].contains(name));
    lemma_first_where(sets, has);
    let first = holder(sets, name)->0;
    if first < arm {
        assert(t[first].contains(name));
        let i = choose|i: int| 0 <= i < t[first].len() && t[first][i] == name;
        assert(t[first][i] != t[arm][variant]);
    }
    lemma_place_of(sets[arm], name);
    let at = place_of(sets[arm], name)->0;
    if at != variant {
        assert(wires(sets[arm])[at] == wires(sets[arm])[variant]);
    }
}

/// Where two sets have a variant of one wire name, the name is resolved to
/// the set that comes first: to no set after one that has it.
pub proof fn lemma_first_set_wins(sets: Seq<Seq<MsgVariant>>, name: Seq<char>, arm: int)
    requires
        0 <= arm < sets.len(),
        wires(sets[arm]).contains(name),
        arm <= usize::MAX,
    ensures
        routed(sets, name) matches Some(msg) && msg.arm <= arm && wires(sets[msg.arm as int]).contains(
            name,
        ) && forall|k: int| 0 <= k < msg.arm ==> !wires(#[trigger] sets[k]).contains(name),
{
    let has = |set: Seq<MsgVariant>| wires(set).contains(name);
    lemma_first_where(sets, has);
    let first = holder(sets, name)->0;
    lemma_place_of(sets[first], name);
}

/// A glue message together with the message sets behind its arms: that of
/// each attached interface, in the order of the interfaces, and the
/// contract's own.
#[derive(Debug)]
pub struct Composite<'a> {
    pub message: &'a GlueMessage<'a>,
    pub interfaces: Vec<&'a EnumMessage<'a>>,
    pub own: &'a ContractEnumMessage<'a>,
}

impl<'a> Composite<'a> {
    /// The variants behind each arm: those of the interfaces in order, then
    /// the contract's own.
    pub open spec fn sets(&self) -> Seq<Seq<MsgVariant<'a>>> {
        sets_of(self.interfaces@, self.own)
    }

    /// Whether the interface at place `k` is called with a narrowed context.
    pub open spec fn narrows(&self, k: int) -> bool {
        k < self.interfaces@.len() && self.message.narrows(k)
    }

    /// Whether the response of the interface at place `k` is converted.
    pub open spec fn converts(&self, k: int) -> bool {
        k < self.interfaces@.len() && self.message.converts(k)
    }

    /// The variants of the arm at place `k`.
    fn arm(&self, k: usize) -> (variants: &Vec<MsgVariant<'a>>)
        requires
            k < self.sets().len(),
        ensures
            variants@ == self.sets()[k as int],
    {
        if k < self.interfaces.len() {
            &self.interfaces[k].variants
        } else {
            &self.own.variants
        }
    }

    /// The wire names of each arm, ascending: those of the interfaces in
    /// order, then those of the contract.
    pub fn messages(&self) -> (msgs: Vec<Vec<String>>)
        ensures
            tabulates(msgs.deep_view(), self.sets()),
            all_ascending(msgs.deep_view()),
    {
        let n: usize = self.interfaces.len();
        let mut msgs: Vec<Vec<String>> = Vec::new();
        let mut k: usize = 0;
        while k < n
            invariant
                k <= n,
                n == self.interfaces@.len(),
                msgs@.len() == k,
                forall|a: int| 0 <= a < k ==> lists(#[trigger] msgs.deep_view()[a], wires(self.sets()[a])),
            decreases n - k,
        {
            let ghost before = msgs.deep_view();
            let names = messages_of(self.arm(k));
            msgs.push(names);
            proof {
                assert forall|a: int| 0 <= a < k + 1 implies lists(
                    #[trigger] msgs.deep_view()[a],
                    wires(self.sets()[a]),
                ) by {
                    if a < k {
                        assert(msgs.deep_view()[a] == before[a]);
                    } else {
                        assert(msgs.deep_view()[a] == names.deep_view());
                    }
                }
            }
            k += 1;
        }
        let ghost before = msgs.deep_view();
        let names = self.own.messages();
        msgs.push(names);
        proof {
            assert forall|a: int| 0 <= a < n + 1 implies lists(
                #[trigger] msgs.deep_view()[a],
                wires(self.sets()[a]),
            ) by {
                if a < n {
                    assert(msgs.deep_view()[a] == before[a]);
                } else {
                    assert(msgs.deep_view()[a] == names.deep_view());
                }
            }
        }
        msgs
    }

    /// Whether `outcome` is what decoding makes of `payload`. A payload that
    /// is no map is of the wrong format. A map must have exactly one key,
    /// else the error gives the number of keys. The key is the wire name: it
    /// is resolved to the first arm that has a variant of that name, and to
    /// that variant. A key that is no text, or a name that no arm has, is
    /// unsupported: the error gives the payload and lists every wire name.
    pub open spec fn decodes(&self, payload: &Payload, outcome: Result<GlueMsg, DecodeError>) -> bool {
        match payload.shape {
            Shape::Other => outcome == Err::<GlueMsg, DecodeError>(DecodeError::WrongFormat),
            Shape::Object(keys) => if keys@.len() != 1 {
                outcome == Err::<GlueMsg, DecodeError>(DecodeError::KeyCount { found: keys.len() })
            } else {
                let found = match payload.name() {
                    Some(name) => routed(self.sets(), name@),
                    None => None,
                };
                match found {
                    Some(msg) => outcome == Ok::<GlueMsg, DecodeError>(msg),
                    None => {
                        &&& outcome matches Err(DecodeError::Unsupported { received, supported })
                        &&& received@ == payload.text@
                        &&& lists_all(supported.deep_view(), self.sets())
                    },
                }
            },
        }
    }

    /// Decodes a payload to a message of the contract.
    pub fn deserialize(&self, payload: &Payload) -> (outcome: Result<GlueMsg, DecodeError>)
        ensures
            self.decodes(payload, outcome),
    {
        let msgs = self.messages();
        let arm = match decode(&msgs, payload) {
            Ok(arm) => arm,
            Err(e) => {
                proof {
                    if payload.name() is Some {
                        lemma_tabulates(msgs.deep_view(), self.sets(), payload.name()->0@);
                    }
                    if e is Unsupported {
                        let supported = e->supported;
                        assert forall|name: Seq<char>|
                            supported.deep_view().contains(name) <==> known(
                                tables(self.sets()),
                                name,
                            ) by {
                            lemma_tabulates(msgs.deep_view(), self.sets(), name);
                        }
                    }
                }
                return Err(e);
            },
        };
        let found = match payload.name() {
            Some(recv_msg_name) => {
                proof {
                    lemma_tabulates(msgs.deep_view(), self.sets(), recv_msg_name@);
                    lemma_first_where(
                        self.sets(),
                        |set: Seq<MsgVariant>| wires(set).contains(recv_msg_name@),
                    );
                    lemma_place_of(self.sets()[arm as int], recv_msg_name@);
                }
                find_variant(self.arm(arm), recv_msg_name)
            },
            None => None,
        };
        match found {
            Some(variant) => Ok(GlueMsg { arm, variant }),
            // an arm that claims a name has a variant of that name
            None => vstd::pervasive::unreached(),
        }
    }

    /// Whether the arms share no wire name and no arm has two variants of
    /// one wire name: what the composition checks, and the compilation of
    /// each set.
    pub open spec fn unambiguous(&self) -> bool {
        &&& unambiguous(tables(self.sets()))
        &&& forall|k: int| 0 <= k < self.sets().len() ==> wires(#[trigger] self.sets()[k]).no_duplicates()
    }

    /// A message that is encoded under the wire name of its variant, as the
    /// one key of a map, is
    /// decoded to the same message, and so dispatched to the operation that
    /// its variant was made of.
    pub proof fn lemma_decodes_encoded(&self, msg: GlueMsg, payload: Payload)
        requires
            self.unambiguous(),
            msg.arm < self.sets().len(),
            msg.variant < self.sets()[msg.arm as int].len(),
            payload.name() matches Some(name) && name@
                == self.sets()[msg.arm as int][msg.variant as int].wire(),
        ensures
            self.decodes(&payload, Ok(msg)),
    {
        lemma_round_trip(self.sets(), msg.arm as int, msg.variant as int);
    }

    /// A payload with no key, or with more than one, is refused with an
    /// error whose text gives the number of its keys.
    pub proof fn lemma_key_count_reported(
        &self,
        payload: Payload,
        outcome: Result<GlueMsg, DecodeError>,
    )
        requires
            self.decodes(&payload, outcome),
            payload.shape matches Shape::Object(keys) && keys@.len() != 1,
        ensures
            outcome matches Err(e) && occurs_in(
                decimal(payload.shape->Object_0@.len()),
                e.text_of(),
            ),
    {
        let keys = payload.shape->Object_0;
        assert(keys.len() == keys@.len());
        lemma_key_count_named(keys.len());
    }

    /// A payload whose name no arm has is refused with an error whose text
    /// gives the wire name of every variant of every arm.
    pub proof fn lemma_unsupported_names_all(
        &self,
        payload: Payload,
        outcome: Result<GlueMsg, DecodeError>,
        arm: int,
        variant: int,
    )
        requires
            self.decodes(&payload, outcome),
            outcome matches Err(DecodeError::Unsupported { .. }),
            0 <= arm < self.sets().len(),
            0 <= variant < self.sets()[arm].len(),
        ensures
            outcome matches Err(e) && occurs_in(self.sets()[arm][variant].wire(), e.text_of()),
    {
        let name = self.sets()[arm][variant].wire();
        let e = outcome->Err_0;
        let received = e->received;
        let supported = e->supported;
        assert(lists_all(supported.deep_view(), self.sets())) by {
            match payload.shape {
                Shape::Other => {},
                Shape::Object(keys) => {},
            }
        }
        assert(wires(self.sets()[arm])[variant] == name);
        assert(tables(self.sets())[arm].contains(name));
        assert(known(tables(self.sets()), name));
        assert(supported.deep_view().contains(name));
        let k = choose|k: int| 0 <= k < supported.deep_view().len() && supported.deep_view()[k] == name;
        assert(supported@[k]@ == name);
        lemma_supported_named(received, supported, k);
    }

    /// Who declares the operations of the arm at place `k`: an interface,
    /// or for the last arm the contract.
    pub open spec fn owner(&self, k: int) -> Owner {
        if k < self.interfaces@.len() {
            Owner::Interface
        } else {
            Owner::Contract
        }
    }

    /// Whether `call` is the call that the message `msg` leads to: the
    /// handler is the method that the message's variant was made of, and it
    /// gets the variant's fields in order.
    pub open spec fn calls(&self, msg: &GlueMsg, call: Invocation) -> bool {
        let variant = self.sets()[msg.arm as int][msg.variant as int];
        &&& call.function_name == variant.function_name
        &&& call.fields@ == names_of(variant.fields@)
        &&& call.narrow_ctx == self.narrows(msg.arm as int)
        &&& call.into_response == self.converts(msg.arm as int)
        &&& Some(call.kind) == leg_kind(self.owner(msg.arm as int), self.message.msg_ty)
    }

    /// Whether `msg` is a message of this contract that can be dispatched.
    pub open spec fn accepts(&self, msg: &GlueMsg) -> bool {
        &&& msg.arm < self.sets().len()
        &&& msg.variant < self.sets()[msg.arm as int].len()
        &&& leg_kind(self.owner(msg.arm as int), self.message.msg_ty) is Some
    }

    /// The call that a message leads to: the dispatch of the glue message
    /// hands the message to the dispatch of its arm, and that to the leg of
    /// its variant. For the arm of an interface the context is narrowed and
    /// the response converted where the interface says so. Nothing for what
    /// is no message of this contract.
    pub fn dispatch<'b>(&'b self, msg: &GlueMsg) -> (call: Option<Invocation<'b>>)
        ensures
            match call {
                Some(call) => self.accepts(msg) && self.calls(msg, call),
                None => !self.accepts(msg),
            },
    {
        let n: usize = self.interfaces.len();
        if msg.arm > n {
            return None;
        }
        let owner = if msg.arm < n {
            Owner::Interface
        } else {
            Owner::Contract
        };
        let mut call = match dispatch_variant(
            self.arm(msg.arm),
            owner,
            self.message.msg_ty,
            msg.variant,
        ) {
            Some(call) => call,
            None => {
                return None;
            },
        };
        if msg.arm < n && msg.arm < self.message.interfaces.interfaces.len() {
            let customs = self.message.interfaces.interfaces[msg.arm].customs;
            call.narrow_ctx = customs.narrows(self.message.msg_ty);
            call.into_response = customs.converts(self.message.msg_ty);
        }
        Some(call)
    }

    /// The key under which a message is encoded: the wire name of its
    /// variant. Nothing for what is no message of this contract.
    pub fn key_of(&self, msg: &GlueMsg) -> (key: Option<String>)
        ensures
            match key {
                Some(key) => msg.arm < self.sets().len() && msg.variant < self.sets()[msg.arm as int].len()
                    && key@ == self.sets()[msg.arm as int][msg.variant as int].wire(),
                None => !(msg.arm < self.sets().len() && msg.variant < self.sets()[msg.arm as int].len()),
            },
    {
        if msg.arm > self.interfaces.len() {
            return None;
        }
        let variants = self.arm(msg.arm);
        if msg.variant >= variants.len() {
            return None;
        }
        Some(variants[msg.variant].wire_name())
    }
}

} // verus!
