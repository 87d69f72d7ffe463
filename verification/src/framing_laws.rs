use crate::command_recognizer::{saturating_increment, FramerModel, BUFFER_NUM, BUFFER_SIZE};
use vstd::prelude::*;

verus! {

/// `chars` holds no opening delimiter.
pub open spec fn opens_nothing(chars: Seq<char>) -> bool {
    forall|i: int| 0 <= i < chars.len() ==> chars[i] != '{'
}

/// `body` can stand between the delimiters of one message: it holds
/// neither delimiter, and together with the opening delimiter it fits in a
/// slot.
pub open spec fn well_formed_body(body: Seq<char>) -> bool {
    &&& body.len() < BUFFER_SIZE
    &&& forall|i: int| 0 <= i < body.len() ==> body[i] != '{' && body[i] != '\r'
}

/// The characters on the line for the message with this body.
pub open spec fn frame(body: Seq<char>) -> Seq<char> {
    seq!['{'] + body + seq!['\r']
}

/// What the ring keeps of the message with this body: everything but the
/// terminator.
pub open spec fn stored(body: Seq<char>) -> Seq<char> {
    seq!['{'] + body
}

/// `slot` holds the message with this body: it begins with what the ring
/// keeps of the message.
pub open spec fn holds_message(slot: Seq<char>, body: Seq<char>) -> bool {
    stored(body).is_prefix_of(slot)
}

/// The characters on the line for the messages with these bodies, sent one
/// after the other.
pub open spec fn frames(bodies: Seq<Seq<char>>) -> Seq<char>
    decreases bodies.len(),
{
    if bodies.len() == 0 {
        Seq::empty()
    } else {
        frames(bodies.drop_last()) + frame(bodies.last())
    }
}

/// `slot` with the characters from offset `at` on replaced by `chars`.
pub open spec fn overwrite(slot: Seq<char>, at: int, chars: Seq<char>) -> Seq<char> {
    slot.subrange(0, at) + chars + slot.subrange(at + chars.len(), slot.len() as int)
}

/// `n + k`, held at the largest value a 32-bit counter can show.
pub open spec fn saturating_sum(n: int, k: int) -> int {
    if n + k <= u32::MAX {
        n + k
    } else {
        u32::MAX as int
    }
}

/// The smaller of two numbers.
pub open spec fn smaller(a: int, b: int) -> int {
    if a <= b {
        a
    } else {
        b
    }
}

/// Every step leads from a state of the framer to a state of the framer.
pub proof fn lemma_step_wf(s: FramerModel, c: char)
    requires
        s.wf(),
    ensures
        s.step(c).wf(),
{
}

/// Running over one character is one step.
pub proof fn lemma_run_one(s: FramerModel, c: char)
    ensures
        s.run(seq![c]) == s.step(c),
{
    assert(seq![c].drop_last() =~= Seq::<char>::empty());
    assert(s.run(seq![c].drop_last()) == s) by {
        reveal_with_fuel(FramerModel::run, 1);
    }
    assert(seq![c].last() == c);
}

/// Running over two inputs, one after the other, is running over both
/// joined.
pub proof fn lemma_run_concat(s: FramerModel, first: Seq<char>, second: Seq<char>)
    ensures
        s.run(first + second) == s.run(first).run(second),
    decreases second.len(),
{
    if second.len() == 0 {
        assert(first + second =~= first);
    } else {
        assert((first + second).drop_last() =~= first + second.drop_last());
        lemma_run_concat(s, first, second.drop_last());
    }
}

/// Every input leads from a state of the framer to a state of the framer.
pub proof fn lemma_run_wf(s: FramerModel, input: Seq<char>)
    requires
        s.wf(),
    ensures
        s.run(input).wf(),
    decreases input.len(),
{
    if input.len() > 0 {
        lemma_run_wf(s, input.drop_last());
        lemma_step_wf(s.run(input.drop_last()), input.last());
    }
}

/// An opening delimiter that arrives while a message is open changes
/// nothing, however often it arrives.
pub proof fn lemma_nested_opening_is_ignored(s: FramerModel)
    requires
        s.receiving,
    ensures
        s.step('{') == s,
        s.step('{').step('{') == s,
{
}

/// While no message is open, characters other than the opening delimiter
/// touch nothing but the slot under the write head: no message is opened,
/// none is completed, none is dropped, and every other slot keeps its
/// contents.
pub proof fn lemma_idle_input(s: FramerModel, input: Seq<char>)
    requires
        s.wf(),
        !s.receiving,
        opens_nothing(input),
    ensures
        s.run(input).wf(),
        !s.run(input).receiving,
        s.run(input).cur == s.cur,
        s.run(input).end == s.end,
        s.run(input).dropped_messages == s.dropped_messages,
        forall|j: int| 0 <= j < BUFFER_NUM && j != s.cur ==> s.run(input).slots[j] == s.slots[j],
    decreases input.len(),
{
    if input.len() > 0 {
        lemma_idle_input(s, input.drop_last());
    }
}

/// While a message is open, characters that are no delimiters are stored
/// one after the other at the write offset as long as the slot has room;
/// those that come after that are counted and not stored.
pub proof fn lemma_body_is_stored(s: FramerModel, body: Seq<char>)
    requires
        s.wf(),
        s.receiving,
        forall|i: int| 0 <= i < body.len() ==> body[i] != '{' && body[i] != '\r',
    ensures
        s.run(body) == (FramerModel {
            slots: s.slots.update(
                s.cur,
                overwrite(
                    s.slots[s.cur],
                    s.command_pos,
                    body.take(smaller(body.len() as int, BUFFER_SIZE - s.command_pos)),
                ),
            ),
            command_pos: s.command_pos + smaller(body.len() as int, BUFFER_SIZE - s.command_pos),
            truncated_characters: saturating_sum(
                s.truncated_characters,
                body.len() - smaller(body.len() as int, BUFFER_SIZE - s.command_pos),
            ),
            ..s
        }),
    decreases body.len(),
{
    let slot = s.slots[s.cur];
    let room = BUFFER_SIZE - s.command_pos;
    let fitting = smaller(body.len() as int, room);
    if body.len() == 0 {
        assert(overwrite(slot, s.command_pos, body.take(fitting)) =~= slot);
        assert(s.slots.update(s.cur, slot) =~= s.slots);
    } else {
        let init = body.drop_last();
        lemma_body_is_stored(s, init);
        let before = s.run(init);
        if before.command_pos < BUFFER_SIZE {
            let at = s.command_pos + init.len();
            assert(init.take(init.len() as int) =~= init);
            assert(body.take(fitting) =~= body);
            assert(before.slots[s.cur].update(at, body.last()) =~= overwrite(
                slot,
                s.command_pos,
                body,
            ));
            assert(before.slots.update(s.cur, before.slots[s.cur].update(at, body.last()))
                =~= s.slots.update(s.cur, overwrite(slot, s.command_pos, body)));
        } else {
            assert(body.take(fitting) =~= init.take(room));
        }
    }
}

/// A well-formed message that arrives while the ring has room is queued
/// behind the messages that wait: the slot under the write head holds it
/// from offset 0 on, without the terminator, and the write head moves on.
/// The messages that waited keep their places and their contents.
pub proof fn lemma_message_is_queued(s: FramerModel, body: Seq<char>)
    requires
        s.wf(),
        !s.receiving,
        !s.is_full(),
        well_formed_body(body),
    ensures
        s.run(frame(body)).wf(),
        !s.run(frame(body)).receiving,
        s.run(frame(body)).end == s.end,
        s.run(frame(body)).cur == (s.cur + 1) % (BUFFER_NUM as int),
        s.run(frame(body)).pending() == s.pending() + 1,
        s.run(frame(body)).dropped_messages == s.dropped_messages,
        holds_message(s.run(frame(body)).queued(s.pending()), body),
        forall|k: int| 0 <= k < s.pending() ==> s.run(frame(body)).queued(k) == s.queued(k),
{
    let opened = s.step('{');
    let slot = opened.slots[s.cur];
    lemma_run_one(s, '{');
    lemma_run_concat(s, seq!['{'], body);
    lemma_body_is_stored(opened, body);
    let filled = opened.run(body);
    assert(s.run(seq!['{'] + body) == filled);
    lemma_run_concat(s, seq!['{'] + body, seq!['\r']);
    lemma_run_one(filled, '\r');
    let closed = filled.step('\r');
    assert(s.run(frame(body)) == closed);
    assert(s.queued_slot(s.pending()) == s.cur);
    assert(closed.slots[s.cur] == filled.slots[s.cur]);
    assert(body.take(body.len() as int) =~= body);
    assert(filled.slots[s.cur] == overwrite(slot, 1, body));
    assert(stored(body).is_prefix_of(overwrite(slot, 1, body)));
    assert forall|k: int| 0 <= k < s.pending() implies closed.queued(k) == s.queued(k) by {
        let j = s.queued_slot(k);
        assert(j != s.cur);
        assert(j != closed.cur);
    }
}

/// A message that is too long for a slot is cut to the slot's size: it is
/// queued like any other, its slot holds the characters that fit, and the
/// characters that do not fit are counted. The messages that waited keep
/// their places and their contents.
pub proof fn lemma_long_message_is_truncated(s: FramerModel, body: Seq<char>)
    requires
        s.wf(),
        !s.receiving,
        !s.is_full(),
        body.len() >= BUFFER_SIZE,
        forall|i: int| 0 <= i < body.len() ==> body[i] != '{' && body[i] != '\r',
    ensures
        s.run(frame(body)).wf(),
        !s.run(frame(body)).receiving,
        s.run(frame(body)).end == s.end,
        s.run(frame(body)).pending() == s.pending() + 1,
        s.run(frame(body)).queued(s.pending()) == stored(body).take(BUFFER_SIZE as int),
        s.run(frame(body)).truncated_characters == saturating_sum(
            s.truncated_characters,
            stored(body).len() - BUFFER_SIZE,
        ),
        forall|k: int| 0 <= k < s.pending() ==> s.run(frame(body)).queued(k) == s.queued(k),
{
    let opened = s.step('{');
    let slot = opened.slots[s.cur];
    lemma_run_one(s, '{');
    lemma_run_concat(s, seq!['{'], body);
    lemma_body_is_stored(opened, body);
    let filled = opened.run(body);
    lemma_run_concat(s, seq!['{'] + body, seq!['\r']);
    lemma_run_one(filled, '\r');
    let closed = filled.step('\r');
    assert(s.run(frame(body)) == closed);
    assert(s.queued_slot(s.pending()) == s.cur);
    assert(overwrite(slot, 1, body.take(BUFFER_SIZE - 1)) =~= stored(body).take(
        BUFFER_SIZE as int,
    ));
    assert forall|k: int| 0 <= k < s.pending() implies closed.queued(k) == s.queued(k) by {
        let j = s.queued_slot(k);
        assert(j != s.cur);
    }
}

/// A message that arrives while the ring is full is dropped and counted:
/// no message is opened or completed, and the messages that wait keep
/// their places and their contents.
pub proof fn lemma_message_is_dropped(s: FramerModel, body: Seq<char>)
    requires
        s.wf(),
        !s.receiving,
        s.is_full(),
        opens_nothing(body),
    ensures
        s.run(frame(body)).wf(),
        !s.run(frame(body)).receiving,
        s.run(frame(body)).end == s.end,
        s.run(frame(body)).cur == s.cur,
        s.run(frame(body)).pending() == BUFFER_NUM - 1,
        s.run(frame(body)).dropped_messages == saturating_increment(s.dropped_messages),
        forall|k: int|
            0 <= k < BUFFER_NUM - 1 ==> s.run(frame(body)).queued(k) == s.queued(k),
{
    let refused = s.step('{');
    let rest = body + seq!['\r'];
    lemma_run_one(s, '{');
    assert(frame(body) =~= seq!['{'] + rest);
    lemma_run_concat(s, seq!['{'], rest);
    lemma_idle_input(refused, rest);
    let after = refused.run(rest);
    assert forall|k: int| 0 <= k < BUFFER_NUM - 1 implies after.queued(k) == s.queued(k) by {
        assert(s.queued_slot(k) != s.cur);
    }
}

/// Messages sent back to back are queued in the order of their arrival
/// until the ring is full; the rest are dropped and counted. The messages
/// that waited before keep their places and their contents.
pub proof fn lemma_messages_back_to_back(s: FramerModel, bodies: Seq<Seq<char>>)
    requires
        s.wf(),
        !s.receiving,
        forall|i: int| 0 <= i < bodies.len() ==> well_formed_body(#[trigger] bodies[i]),
    ensures
        s.run(frames(bodies)).wf(),
        !s.run(frames(bodies)).receiving,
        s.run(frames(bodies)).end == s.end,
        s.run(frames(bodies)).pending() == smaller(s.pending() + bodies.len(), BUFFER_NUM - 1),
        s.run(frames(bodies)).dropped_messages == saturating_sum(
            s.dropped_messages,
            s.pending() + bodies.len() - s.run(frames(bodies)).pending(),
        ),
        forall|k: int| 0 <= k < s.pending() ==> s.run(frames(bodies)).queued(k) == s.queued(k),
        forall|i: int|
            0 <= i < bodies.len() && s.pending() + i < BUFFER_NUM - 1 ==> holds_message(
                #[trigger] s.run(frames(bodies)).queued(s.pending() + i),
                bodies[i],
            ),
    decreases bodies.len(),
{
    if bodies.len() == 0 {
    } else {
        let earlier = bodies.drop_last();
        let body = bodies.last();
        lemma_messages_back_to_back(s, earlier);
        let before = s.run(frames(earlier));
        lemma_run_concat(s, frames(earlier), frame(body));
        let after = before.run(frame(body));
        assert(s.run(frames(bodies)) == after);
        if before.is_full() {
            lemma_message_is_dropped(before, body);
            assert forall|i: int|
                0 <= i < bodies.len() && s.pending() + i < BUFFER_NUM - 1 implies holds_message(
                #[trigger] after.queued(s.pending() + i),
                bodies[i],
            ) by {
                assert(i < earlier.len());
                assert(bodies[i] == earlier[i]);
                assert(after.queued(s.pending() + i) == before.queued(s.pending() + i));
            }
        } else {
            lemma_message_is_queued(before, body);
            assert(before.pending() == s.pending() + earlier.len());
            assert forall|i: int|
                0 <= i < bodies.len() && s.pending() + i < BUFFER_NUM - 1 implies holds_message(
                #[trigger] after.queued(s.pending() + i),
                bodies[i],
            ) by {
                if i < earlier.len() {
                    assert(bodies[i] == earlier[i]);
                    assert(after.queued(s.pending() + i) == before.queued(s.pending() + i));
                }
            }
        }
    }
}

/// One well-formed message, with whatever stands before and after it on
/// the line short of another opening delimiter, leaves an empty framer with
/// exactly one pending message, and the slot that `take_command` hands out
/// holds the message from its opening delimiter up to, and without, its
/// terminator.
pub proof fn lemma_single_message(before: Seq<char>, body: Seq<char>, after: Seq<char>)
    requires
        opens_nothing(before),
        well_formed_body(body),
        opens_nothing(after),
    ensures
        FramerModel::initial().run(before + frame(body) + after).wf(),
        FramerModel::initial().run(before + frame(body) + after).pending() == 1,
        holds_message(FramerModel::initial().run(before + frame(body) + after).queued(0), body),
{
    let empty = FramerModel::initial();
    lemma_idle_input(empty, before);
    let idle = empty.run(before);
    lemma_message_is_queued(idle, body);
    let queued = idle.run(frame(body));
    lemma_idle_input(queued, after);
    lemma_run_concat(empty, before, frame(body));
    lemma_run_concat(empty, before + frame(body), after);
}

/// Taking a message leaves one pending message fewer, moves the read
/// position one slot on round the ring, and moves every message that still
/// waits one place forward.
pub proof fn lemma_take_advances(s: FramerModel)
    requires
        s.wf(),
        s.pending() > 0,
    ensures
        s.take().wf(),
        s.take().pending() == s.pending() - 1,
        s.take().end == (s.end + 1) % (BUFFER_NUM as int),
        s.take().cur == s.cur,
        s.take().slots == s.slots,
        forall|k: int| 0 <= k < s.pending() - 1 ==> s.take().queued(k) == s.queued(k + 1),
{
}

/// The ring never holds more pending messages than it has slots to spare.
pub proof fn lemma_pending_is_bounded(s: FramerModel)
    requires
        s.wf(),
    ensures
        0 <= s.pending() <= BUFFER_NUM - 1,
        s.pending() == BUFFER_NUM - 1 <==> s.is_full(),
{
}

} // verus!
