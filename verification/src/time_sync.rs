//! Network time synchronisation: the SNTP request, and reading the time out
//! of a reply.

use vstd::prelude::*;

use crate::clock::{NTP_TO_UNIX_SECONDS, UnixSeconds};

verus! {

/// Result of a time sync attempt.
#[derive(Debug)]
pub enum TimeSyncEvent {
    /// Time synchronization succeeded with the given Unix seconds.
    Synced(UnixSeconds),
    /// Time synchronization failed with the given error message.
    Failed(&'static str),
}

/// Bytes in an SNTP message.
pub const NTP_PACKET_LEN: usize = 48;

/// The SNTP client request: leap indicator 0, version 3, mode 3 (client),
/// everything else zero.
pub fn ntp_request() -> (request: [u8; NTP_PACKET_LEN])
    ensures
        request@[0] == 0x1b,
        forall|i: int| 1 <= i < NTP_PACKET_LEN ==> #[trigger] request@[i] == 0,
{
    let mut request = [0u8; NTP_PACKET_LEN];
    request[0] = 0x1B;
    request
}

/// The transmit timestamp's seconds of an SNTP reply (bytes 40..44,
/// big-endian).
pub open spec fn ntp_transmit_seconds(response: Seq<u8>) -> int {
    0x100_0000 * response[40] + 0x1_0000 * response[41] + 0x100 * response[42] + response[43]
}

/// The event reporting the outcome of one sync attempt.
pub fn time_sync_event(outcome: Result<UnixSeconds, &'static str>) -> (event: TimeSyncEvent)
    ensures
        outcome matches Ok(time) ==> event == TimeSyncEvent::Synced(time),
        outcome matches Err(message) ==> event == TimeSyncEvent::Failed(message),
{
    match outcome {
        Ok(time) => TimeSyncEvent::Synced(time),
        Err(message) => TimeSyncEvent::Failed(message),
    }
}

/// Reads the Unix time out of an SNTP reply of `response_len` bytes: an
/// error when the reply is short or its time lies before the Unix epoch.
pub fn parse_ntp_response(response: &[u8; NTP_PACKET_LEN], response_len: usize) -> (time: Result<
    UnixSeconds,
    &'static str,
>)
    ensures
        response_len < NTP_PACKET_LEN ==> time is Err,
        response_len >= NTP_PACKET_LEN && ntp_transmit_seconds(response@) >= NTP_TO_UNIX_SECONDS
            ==> time == Ok::<UnixSeconds, &'static str>(
            UnixSeconds((ntp_transmit_seconds(response@) - NTP_TO_UNIX_SECONDS) as i64),
        ),
        response_len >= NTP_PACKET_LEN && ntp_transmit_seconds(response@) < NTP_TO_UNIX_SECONDS
            ==> time is Err,
{
    if response_len < NTP_PACKET_LEN {
        return Err("NTP response too short");
    }
    let b0 = response[40];
    let b1 = response[41];
    let b2 = response[42];
    let b3 = response[43];
    let ntp_seconds = (b3 as u32) | ((b2 as u32) << 8) | ((b1 as u32) << 16) | ((b0 as u32) << 24);
    proof {
        crate::bits::lemma_u32_from_le_bytes(b3, b2, b1, b0);
    }
    match UnixSeconds::from_ntp_seconds(ntp_seconds) {
        Some(unix_seconds) => Ok(unix_seconds),
        None => Err("Invalid NTP timestamp"),
    }
}

} // verus!
