//! The raw-input decoder: turns a stream of terminal bytes into key
//! events, recognizing the multi-byte arrow/navigation escape sequences.
//!
//! A lone `ESC`, or `ESC [`, may be the prefix of a recognized 3-byte
//! sequence, so those bytes are held pending until the next byte
//! resolves them.  Any bytes that cannot begin a recognized sequence are
//! flushed immediately, one literal-character key event per byte.

use vstd::prelude::*;

verus! {

/// One decoded unit of keyboard input: either a literal character or
/// one of a fixed set of named special keys.
#[derive(Clone, Copy, PartialEq, Eq, Debug)]
pub enum Key {
    Chr(char),
    Del,
    End,
    Up,
    Down,
    Right,
    Left,
    Home,
}

/// The special key named by the final byte of a complete `ESC [ <byte>`
/// sequence, if that final byte is recognized.
pub open spec fn special_key(b: u8) -> Option<Key> {
    if b == 0x33 {  // '3'
        Some(Key::Del)
    } else if b == 0x34 {  // '4'
        Some(Key::End)
    } else if b == 0x41 {  // 'A'
        Some(Key::Up)
    } else if b == 0x42 {  // 'B'
        Some(Key::Down)
    } else if b == 0x43 {  // 'C'
        Some(Key::Right)
    } else if b == 0x44 {  // 'D'
        Some(Key::Left)
    } else if b == 0x48 {  // 'H'
        Some(Key::Home)
    } else {
        None
    }
}

/// Each byte read as one literal-character key event.
pub open spec fn chr_keys(bytes: Seq<u8>) -> Seq<Key> {
    bytes.map(|_i: int, b: u8| Key::Chr(b as char))
}

/// The escape-sequence decoder: holds the bytes of a possible
/// escape-sequence prefix that are still awaiting resolution.
pub struct Decoder {
    pending: Vec<u8>,
}

impl View for Decoder {
    type V = Seq<u8>;

    closed spec fn view(&self) -> Seq<u8> {
        self.pending@
    }
}

impl Decoder {
    /// The pending buffer is always a strict prefix of the recognized
    /// escape-sequence shape: empty, `ESC`, or `ESC [`.
    pub open spec fn wf(self) -> bool {
        ||| self@.len() == 0
        ||| (self@.len() == 1 && self@[0] == 0x1b)
        ||| (self@.len() == 2 && self@[0] == 0x1b && self@[1] == 0x5b)
    }

    /// A fresh decoder with nothing pending.
    pub fn new() -> (d: Decoder)
        ensures
            d.wf(),
            d@.len() == 0,
    {
        Decoder { pending: Vec::new() }
    }

    /// Feed one input byte and collect the key events it resolves.
    ///
    /// - A byte extending a possible escape-sequence prefix (`ESC`, then
    ///   `[`) is held pending and yields no event.
    /// - The final byte of a complete `ESC [ <byte>` sequence yields the
    ///   one special key the table maps it to, or `Err` with that byte
    ///   when it is unrecognized; either way the pending bytes are
    ///   discarded.
    /// - Any other byte flushes the pending bytes and itself, one
    ///   literal-character event per byte, in input order.
    pub fn feed(&mut self, b: u8) -> (r: Result<Vec<Key>, u8>)
        requires
            old(self).wf(),
        ensures
            final(self).wf(),
            ((old(self)@.len() == 0 && b == 0x1b) || (old(self)@.len() == 1 && b == 0x5b)) ==> (r
                matches Ok(keys) && keys@.len() == 0 && final(self)@ == old(self)@.push(b)),
            (old(self)@.len() == 2 && special_key(b) is Some) ==> (r matches Ok(keys) && keys@
                =~= seq![special_key(b)->0] && final(self)@.len() == 0),
            (old(self)@.len() == 2 && special_key(b) is None) ==> (r matches Err(e) && e == b
                && final(self)@.len() == 0),
            (!((old(self)@.len() == 0 && b == 0x1b) || (old(self)@.len() == 1 && b == 0x5b))
                && old(self)@.len() < 2) ==> (r matches Ok(keys) && keys@ =~= chr_keys(
                old(self)@.push(b),
            ) && final(self)@.len() == 0),
    {
        self.pending.push(b);
        let len = self.pending.len();
        if len == 3 {
            let fin = self.pending[2];
            self.pending.clear();
            match special(fin) {
                Some(k) => {
                    let mut keys: Vec<Key> = Vec::new();
                    keys.push(k);
                    Ok(keys)
                },
                None => Err(fin),
            }
        } else if (len == 1 && b == 0x1b) || (len == 2 && self.pending[0] == 0x1b && b == 0x5b) {
            Ok(Vec::new())
        } else {
            let mut keys: Vec<Key> = Vec::new();
            let m = self.pending.len();
            for i in 0..m
                invariant
                    m == self@.len(),
                    keys@ =~= chr_keys(self@.take(i as int)),
            {
                keys.push(Key::Chr(self.pending[i] as char));
                proof {
                    assert(keys@ =~= chr_keys(self@.take(i + 1)));
                }
            }
            proof {
                assert(self@.take(m as int) =~= self@);
            }
            self.pending.clear();
            Ok(keys)
        }
    }
}

/// The executable form of the [`special_key`] lookup table.
fn special(b: u8) -> (k: Option<Key>)
    ensures
        k == special_key(b),
{
    if b == 0x33 {
        Some(Key::Del)
    } else if b == 0x34 {
        Some(Key::End)
    } else if b == 0x41 {
        Some(Key::Up)
    } else if b == 0x42 {
        Some(Key::Down)
    } else if b == 0x43 {
        Some(Key::Right)
    } else if b == 0x44 {
        Some(Key::Left)
    } else if b == 0x48 {
        Some(Key::Home)
    } else {
        None
    }
}

} // verus!
