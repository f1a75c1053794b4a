//! Identifiers and periodic payloads of the advertised uptime service.

use crate::link::{ConnParams, ScanSettings};
use vstd::prelude::*;
use vstd::string::StringSliceAdditionalSpecFns;

verus! {

/// Name from which the identifier of the advertised service is derived.
pub const UUID_BLE_SERVICE_STR: &'static str = "io.test.ble";

/// Name from which the identifier of the uptime characteristic is derived.
pub const UUID_BLE_UPTIME_CHARA_STR: &'static str = "uptime";

/// The 128-bit identifier spelled by `bytes`: the first sixteen bytes, padded
/// with zeros on the right when there are fewer.
pub open spec fn uuid_bytes(bytes: Seq<u8>) -> Seq<u8> {
    Seq::new(16, |i: int| if i < bytes.len() { bytes[i] } else { 0u8 })
}

/// Whether a name is too long to be held by an identifier in full.
pub open spec fn uuid_name_truncated(bytes: Seq<u8>) -> bool {
    bytes.len() > 16
}

/// Whether a name is too long for an identifier, so that `str_to_uuid`
/// leaves part of it out.
pub fn is_uuid_name_truncated(s: &str) -> (truncated: bool)
    ensures
        truncated == uuid_name_truncated(s.spec_bytes()),
{
    s.as_bytes().len() > 16
}

/// Derives a 128-bit identifier from a short name: the bytes of the name
/// fill the identifier from the front, the rest stays zero, and whatever
/// does not fit is ignored.
pub fn str_to_uuid(s: &str) -> (arr: [u8; 16])
    ensures
        arr@ == uuid_bytes(s.spec_bytes()),
{
    let bytes = s.as_bytes();
    let mut arr = [0u8; 16];
    let mut idx: usize = 0;
    while idx < bytes.len() && idx < 16
        invariant
            idx <= 16,
            idx <= bytes@.len(),
            bytes@ == s.spec_bytes(),
            arr@.len() == 16,
            forall|i: int| 0 <= i < idx ==> arr@[i] == bytes@[i],
            forall|i: int| idx <= i < 16 ==> arr@[i] == 0u8,
        decreases 16 - idx,
    {
        arr[idx] = bytes[idx];
        idx = idx + 1;
    }
    assert(arr@ =~= uuid_bytes(s.spec_bytes()));
    arr
}

/// The decimal digits of `n` in ASCII, most significant first, without
/// leading zeros.
pub open spec fn decimal_digits(n: nat) -> Seq<u8>
    decreases n,
{
    if n < 10 {
        seq![(48 + n) as u8]
    } else {
        decimal_digits(n / 10).push((48 + n % 10) as u8)
    }
}

/// The bytes of the text `uptime: `.
pub open spec fn uptime_prefix() -> Seq<u8> {
    seq![0x75u8, 0x70u8, 0x74u8, 0x69u8, 0x6du8, 0x65u8, 0x3au8, 0x20u8]
}

/// The value of the uptime characteristic after `counter` seconds.
pub open spec fn uptime_bytes(counter: nat) -> Seq<u8> {
    uptime_prefix() + decimal_digits(counter)
}

/// The value the uptime characteristic is set to after `counter` seconds:
/// the text `uptime: ` followed by the count in decimal.
pub fn uptime_message(counter: u128) -> (message: Vec<u8>)
    ensures
        message@ == uptime_bytes(counter as nat),
{
    let mut reversed: Vec<u8> = Vec::new();
    let mut n: u128 = counter;
    while n >= 10
        invariant
            decimal_digits(counter as nat) == decimal_digits(n as nat) + reversed@.reverse(),
        decreases n,
    {
        let digit: u8 = 48 + (n % 10) as u8;
        proof {
            let grown = reversed@.push(digit);
            assert(grown.reverse() =~= seq![digit] + reversed@.reverse());
            assert(decimal_digits(n as nat) == decimal_digits((n / 10) as nat).push(digit));
            assert(decimal_digits((n / 10) as nat).push(digit) + reversed@.reverse()
                =~= decimal_digits((n / 10) as nat) + grown.reverse());
        }
        reversed.push(digit);
        n = n / 10;
    }
    let last: u8 = 48 + n as u8;
    proof {
        let grown = reversed@.push(last);
        assert(grown.reverse() =~= seq![last] + reversed@.reverse());
        assert(decimal_digits(n as nat) =~= seq![last]);
    }
    reversed.push(last);
    let mut message: Vec<u8> = Vec::new();
    message.push(0x75);
    message.push(0x70);
    message.push(0x74);
    message.push(0x69);
    message.push(0x6d);
    message.push(0x65);
    message.push(0x3a);
    message.push(0x20);
    assert(message@ =~= uptime_prefix());
    let mut i: usize = reversed.len();
    while i > 0
        invariant
            i <= reversed@.len(),
            message@ == uptime_prefix() + reversed@.reverse().subrange(
                0,
                reversed@.len() - i,
            ),
        decreases i,
    {
        i = i - 1;
        message.push(reversed[i]);
        assert(message@ =~= uptime_prefix() + reversed@.reverse().subrange(
            0,
            reversed@.len() - i,
        ));
    }
    assert(reversed@.reverse().subrange(0, reversed@.len() as int) =~= reversed@.reverse());
    message
}

/// The timing a central is asked for when it connects to the advertised
/// service: an interval between 24 and 48 units, no latency and a
/// supervision timeout of 60 units.
pub fn advertiser_conn_params() -> (params: ConnParams)
    ensures
        params == (ConnParams { min_interval: 24, max_interval: 48, latency: 0, timeout: 60 }),
{
    ConnParams { min_interval: 24, max_interval: 48, latency: 0, timeout: 60 }
}

/// Seconds to wait for a survey of the neighbourhood to report that it is
/// done.
pub const SURVEY_WAIT_SECS: u64 = 15;

/// How the neighbourhood is surveyed: actively, nearly without pause, every
/// advertiser once, for ten seconds.
pub fn survey_scan_settings() -> (settings: ScanSettings)
    ensures
        settings == (ScanSettings {
            active: true,
            filter_duplicates: true,
            limited: false,
            interval: 100,
            window: 99,
            duration_ms: 10000,
        }),
{
    ScanSettings {
        active: true,
        filter_duplicates: true,
        limited: false,
        interval: 100,
        window: 99,
        duration_ms: 10000,
    }
}

/// Why a survey of the neighbourhood gave no result.
#[derive(Clone, Copy, Debug, PartialEq, Eq, Structural)]
pub enum ScanError {
    /// The scan could not be started.
    StartFailed,
    /// The scan did not report that it was done in time.
    TimedOut,
}

/// The result of a survey: the devices found if the scan started and
/// reported in time that it was done, an error otherwise. A scan that did
/// not start counts as that, whatever else is reported of it.
pub fn survey_result<T>(started: bool, completed: bool, found: Vec<T>) -> (result: Result<
    Vec<T>,
    ScanError,
>)
    ensures
        !started ==> result == Err::<Vec<T>, ScanError>(ScanError::StartFailed),
        started && !completed ==> result == Err::<Vec<T>, ScanError>(ScanError::TimedOut),
        started && completed ==> result == Ok::<Vec<T>, ScanError>(found),
{
    if !started {
        Err(ScanError::StartFailed)
    } else if !completed {
        Err(ScanError::TimedOut)
    } else {
        Ok(found)
    }
}

} // verus!
