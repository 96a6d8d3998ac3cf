//! RFID reader events.

use vstd::prelude::*;

verus! {

/// An RFID reader event.
#[derive(Debug, Clone, Copy, Eq, PartialEq)]
pub enum RfidEvent {
    /// A card came into range; its UID, zero-padded to ten bytes.
    CardDetected { uid: [u8; 10] },
}

/// Pads a card UID of up to ten bytes with zeros to the event's fixed size.
pub fn card_detected(uid: &[u8]) -> (event: RfidEvent)
    requires
        uid@.len() <= 10,
    ensures
        event matches RfidEvent::CardDetected { uid: padded } && padded@ == uid@ + Seq::new(
            (10 - uid@.len()) as nat,
            |i: int| 0u8,
        ),
{
    let mut padded = [0u8; 10];
    let mut index = 0usize;
    while index < uid.len()
        invariant
            uid@.len() <= 10,
            index <= uid@.len(),
            forall|i: int| 0 <= i < index ==> #[trigger] padded@[i] == uid@[i],
            forall|i: int| index <= i < 10 ==> #[trigger] padded@[i] == 0u8,
        decreases uid@.len() - index,
    {
        padded[index] = uid[index];
        index += 1;
    }
    assert(padded@ =~= uid@ + Seq::new((10 - uid@.len()) as nat, |i: int| 0u8));
    RfidEvent::CardDetected { uid: padded }
}

} // verus!
