use vstd::prelude::*;

verus! {

/// Consumer of the characters that arrive on the board's serial line.
pub trait RXProcessor: Send + Sync {
    /// Takes the next character of the stream.
    fn process_character(&'static self, character: u8);
}

/// What the logger asks of the board that it runs on.
pub trait RRIVBoard: Send + Sync {
    /// Brings the board's peripherals up.
    fn setup(&mut self);

    /// Installs the consumer that every received character is handed to.
    fn set_rx_processor(&mut self, processor: Box<&'static dyn RXProcessor>);
}

} // verus!
