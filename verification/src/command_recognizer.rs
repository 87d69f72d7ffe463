use vstd::prelude::*;

verus! {

/// Number of message slots in the ring, one of which always stays unused.
pub const BUFFER_NUM: usize = 11;

/// Capacity of one message slot, in characters.
pub const BUFFER_SIZE: usize = 100;

/// Mathematical model of the framer: what a `CommandData` holds.
pub struct FramerModel {
    /// Contents of the ring, slot by slot.
    pub slots: Seq<Seq<char>>,
    /// Slot that incoming characters are written to.
    pub cur: int,
    /// Slot just before the oldest message that has not been taken.
    pub end: int,
    /// A message has been opened and not yet terminated.
    pub receiving: bool,
    /// At least one complete message waits to be taken.
    pub message_ready: bool,
    /// Offset of the next write within the slot `cur`.
    pub command_pos: int,
    /// Messages refused because the ring was full when they started.
    pub dropped_messages: int,
    /// Characters not stored because the write offset stood at the end of the slot.
    pub truncated_characters: int,
}

impl FramerModel {
    /// The empty framer: nothing received, nothing pending.
    pub open spec fn initial() -> FramerModel {
        FramerModel {
            slots: Seq::new(BUFFER_NUM as nat, |i: int| Seq::new(BUFFER_SIZE as nat, |j: int| '\0')),
            cur: 0,
            end: BUFFER_NUM - 1,
            receiving: false,
            message_ready: false,
            command_pos: 0,
            dropped_messages: 0,
            truncated_characters: 0,
        }
    }

    /// Number of complete messages that have not been taken: the distance
    /// from the slot after `end` to `cur`, going round the ring.
    pub open spec fn pending(self) -> int {
        (self.cur + BUFFER_NUM - 1 - self.end) % (BUFFER_NUM as int)
    }

    /// The ring is full: a message that starts now is refused.
    pub open spec fn is_full(self) -> bool {
        self.cur == self.end
    }

    /// Index of the slot that holds the `k`-th pending message, oldest first.
    pub open spec fn queued_slot(self, k: int) -> int {
        (self.end + 1 + k) % (BUFFER_NUM as int)
    }

    /// Contents of the slot that holds the `k`-th pending message, oldest first.
    pub open spec fn queued(self, k: int) -> Seq<char> {
        self.slots[self.queued_slot(k)]
    }

    /// The states that the framer can be in.
    pub open spec fn wf(self) -> bool {
        &&& self.slots.len() == BUFFER_NUM
        &&& forall|i: int| 0 <= i < BUFFER_NUM ==> (#[trigger] self.slots[i]).len() == BUFFER_SIZE
        &&& 0 <= self.cur < BUFFER_NUM
        &&& 0 <= self.end < BUFFER_NUM
        &&& 0 <= self.command_pos <= BUFFER_SIZE
        &&& self.receiving ==> !self.is_full()
        &&& self.message_ready <==> self.pending() > 0
        &&& 0 <= self.dropped_messages <= u32::MAX
        &&& 0 <= self.truncated_characters <= u32::MAX
    }

    /// Stores `c` at the write offset of the slot `cur` and moves the offset
    /// on. Where the offset stands at the end of the slot the character is
    /// not stored, and is counted as truncated.
    pub open spec fn write(self, c: char) -> FramerModel {
        if self.command_pos < BUFFER_SIZE {
            FramerModel {
                slots: self.slots.update(self.cur, self.slots[self.cur].update(self.command_pos, c)),
                command_pos: self.command_pos + 1,
                ..self
            }
        } else {
            FramerModel {
                truncated_characters: saturating_increment(self.truncated_characters),
                ..self
            }
        }
    }

    /// Closes the message in the slot `cur`: the write head moves to the
    /// next slot of the ring.
    pub open spec fn finish(self) -> FramerModel {
        FramerModel {
            receiving: false,
            cur: (self.cur + 1) % (BUFFER_NUM as int),
            message_ready: true,
            ..self
        }
    }

    /// The framer after one more character.
    ///
    /// - `{` while a message is open is noise: nothing changes.
    /// - `{` otherwise opens a message at offset 0 of the slot `cur` and is
    ///   stored there, unless the ring is full: then it is dropped and
    ///   counted, and no message is open.
    /// - `\r` while a message is open closes it and is not stored.
    /// - Every other character is written at the write offset, whether a
    ///   message is open or not.
    pub open spec fn step(self, c: char) -> FramerModel {
        if c == '{' {
            if self.receiving {
                self
            } else if self.is_full() {
                FramerModel { dropped_messages: saturating_increment(self.dropped_messages), ..self }
            } else {
                FramerModel { receiving: true, command_pos: 0, ..self }.write(c)
            }
        } else if c == '\r' && self.receiving {
            self.finish()
        } else {
            self.write(c)
        }
    }

    /// The framer after the characters of `input`, in order.
    pub open spec fn run(self, input: Seq<char>) -> FramerModel
        decreases input.len(),
    {
        if input.len() == 0 {
            self
        } else {
            self.run(input.drop_last()).step(input.last())
        }
    }

    /// The framer after the oldest pending message has been taken.
    pub open spec fn take(self) -> FramerModel {
        let end = (self.end + 1) % (BUFFER_NUM as int);
        let taken = FramerModel { end, ..self };
        FramerModel { message_ready: taken.pending() > 0, ..taken }
    }
}

/// `n + 1`, held at the largest value a 32-bit counter can show.
pub open spec fn saturating_increment(n: int) -> int {
    if n < u32::MAX {
        n + 1
    } else {
        n
    }
}

/// State of the framer for one serial channel: a ring of message slots with
/// its write head, its read position and the flags of the message in
/// progress.
pub struct CommandData {
    receiving: bool,
    message_ready: bool,
    buffer: [[char; BUFFER_SIZE]; BUFFER_NUM],
    cur: usize,
    end: usize,
    command_pos: usize,
    dropped_messages: u32,
    truncated_characters: u32,
}

impl View for CommandData {
    type V = FramerModel;

    closed spec fn view(&self) -> FramerModel {
        FramerModel {
            slots: Seq::new(BUFFER_NUM as nat, |i: int| self.buffer[i]@),
            cur: self.cur as int,
            end: self.end as int,
            receiving: self.receiving,
            message_ready: self.message_ready,
            command_pos: self.command_pos as int,
            dropped_messages: self.dropped_messages as int,
            truncated_characters: self.truncated_characters as int,
        }
    }
}

impl CommandData {
    /// An empty framer.
    pub fn default() -> (data: Self)
        ensures
            data@ == FramerModel::initial(),
            data@.wf(),
    {
        let data = Self {
            receiving: false,
            cur: 0,
            end: BUFFER_NUM - 1,
            message_ready: false,
            command_pos: 0,
            buffer: [['\0'; BUFFER_SIZE]; BUFFER_NUM],
            dropped_messages: 0,
            truncated_characters: 0,
        };
        proof {
            assert forall|i: int| 0 <= i < BUFFER_NUM implies #[trigger] data@.slots[i]
                == FramerModel::initial().slots[i] by {
                assert(data@.slots[i] =~= FramerModel::initial().slots[i]);
            }
            assert(data@.slots =~= FramerModel::initial().slots);
        }
        data
    }

    /// Whether a message has been opened and not yet terminated.
    pub fn receiving(&self) -> (open: bool)
        ensures
            open == self@.receiving,
    {
        self.receiving
    }

    /// Whether at least one complete message waits to be taken.
    pub fn message_ready(&self) -> (ready: bool)
        ensures
            ready == self@.message_ready,
    {
        self.message_ready
    }

    /// Contents of the slot `index` of the ring, or `None` where the ring
    /// has no such slot.
    pub fn slot(&self, index: usize) -> (contents: Option<[char; BUFFER_SIZE]>)
        ensures
            index < BUFFER_NUM ==> contents.is_some() && contents.unwrap()@ == self@.slots[
                index as int],
            index >= BUFFER_NUM ==> contents.is_none(),
    {
        if index < BUFFER_NUM {
            Some(self.buffer[index])
        } else {
            None
        }
    }

    /// Number of messages refused so far because the ring was full when
    /// they started. The count stops at `u32::MAX`.
    pub fn dropped_message_count(&self) -> (count: u32)
        ensures
            count == self@.dropped_messages,
    {
        self.dropped_messages
    }

    /// Number of characters not stored so far because the write offset
    /// stood at the end of the slot. The count stops at `u32::MAX`.
    pub fn truncated_character_count(&self) -> (count: u32)
        ensures
            count == self@.truncated_characters,
    {
        self.truncated_characters
    }

    /// Writes `c` at the write offset of the current slot, or counts it as
    /// truncated where the slot is full.
    fn write(&mut self, c: char)
        requires
            old(self)@.wf(),
        ensures
            final(self)@ == old(self)@.write(c),
    {
        if self.command_pos < BUFFER_SIZE {
            let cur: usize = self.cur;
            let pos: usize = self.command_pos;
            self.buffer[cur][pos] = c;
            self.command_pos = pos + 1;
            proof {
                let after = self@;
                let model = old(self)@.write(c);
                assert forall|i: int| 0 <= i < BUFFER_NUM implies #[trigger] after.slots[i]
                    == model.slots[i] by {
                    assert(after.slots[i] =~= model.slots[i]);
                }
                assert(after.slots =~= model.slots);
            }
        } else if self.truncated_characters < u32::MAX {
            self.truncated_characters = self.truncated_characters + 1;
        }
    }
}

/// The framer's operations, kept apart from the state they work on.
pub struct CommandRecognizer {}

impl CommandRecognizer {
    /// Feeds one character of the stream to the framer.
    pub fn process_character(command_data: &mut CommandData, character: char)
        requires
            old(command_data)@.wf(),
        ensures
            final(command_data)@ == old(command_data)@.step(character),
            final(command_data)@.wf(),
            old(command_data)@.receiving && character == '{' ==> final(command_data)@ == old(
                command_data,
            )@,
    {
        let receiving = command_data.receiving;
        let starting = character == '{';

        if receiving && starting {
            return;
        }
        if receiving && character == '\r' {
            command_data.receiving = false;
            command_data.cur = (command_data.cur + 1) % BUFFER_NUM;
            command_data.message_ready = true;
            return;
        }
        if starting {
            if command_data.cur == command_data.end {
                if command_data.dropped_messages < u32::MAX {
                    command_data.dropped_messages = command_data.dropped_messages + 1;
                }
                return;
            }
            command_data.receiving = true;
            command_data.command_pos = 0;
        }
        command_data.write(character);
    }

    /// Number of complete messages that wait to be taken.
    pub fn pending_message_count(command_data: &CommandData) -> (count: usize)
        requires
            command_data@.wf(),
        ensures
            count == command_data@.pending(),
            count <= BUFFER_NUM - 1,
            count > 0 <==> command_data@.message_ready,
    {
        (command_data.cur + BUFFER_NUM - 1 - command_data.end) % BUFFER_NUM
    }

    /// Removes the oldest pending message from the ring and returns the
    /// whole slot that held it: the message from offset 0 on, then whatever
    /// the slot held before.
    pub fn take_command(command_data: &mut CommandData) -> (command: [char; BUFFER_SIZE])
        requires
            old(command_data)@.wf(),
            old(command_data)@.pending() > 0,
        ensures
            command@ == old(command_data)@.queued(0),
            final(command_data)@ == old(command_data)@.take(),
            final(command_data)@.wf(),
            final(command_data)@.pending() == old(command_data)@.pending() - 1,
            final(command_data)@.end == (old(command_data)@.end + 1) % (BUFFER_NUM as int),
    {
        let oldest: usize = (command_data.end + 1) % BUFFER_NUM;
        let command = command_data.buffer[oldest];
        command_data.end = oldest;
        command_data.message_ready = command_data.cur != (oldest + 1) % BUFFER_NUM;
        command
    }
}

} // verus!
