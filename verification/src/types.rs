//! Types of the RC522 reader with a reset pin, shared with its callers.

use vstd::prelude::*;

verus! {

/// The kind of card that answered a request, by its ATQA.
#[derive(Debug, Clone, Copy, PartialEq, Eq)]
pub enum CardType {
    Unknown,
    Mifare1K,
    Mifare4K,
    MifareUltralight,
}

/// Which MIFARE key an authentication uses.
#[derive(Debug, Clone, Copy, PartialEq, Eq)]
pub enum KeyType {
    KeyA,
    KeyB,
}

/// Why an operation of the reader with a reset pin failed; `Spi` carries the
/// error that the bus or the reset pin reported.
#[derive(Debug, PartialEq, Eq)]
pub enum Error<E> {
    Spi(E),
    Timeout,
    ParityError,
    CRCError,
    Collision,
    NoCard,
}

} // verus!
