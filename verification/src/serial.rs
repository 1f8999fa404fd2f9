//! The check of a serial adapter whose TX line is wired to its own RX: a
//! fixed text goes out and must come back unchanged.

use vstd::prelude::*;
use crate::protocol::{hex, hex_text};
use crate::text::push_str;

verus! {

/// `LOOPBACK_TEST_12345`, the text that the check sends.
pub open spec fn loopback_text() -> Seq<u8> {
    seq![76u8, 79, 79, 80, 66, 65, 67, 75, 95, 84, 69, 83, 84, 95, 49, 50, 51, 52, 53]
}

/// The bytes that the check sends.
pub fn loopback_payload() -> (r: Vec<u8>)
    ensures
        r@ == loopback_text(),
{
    let r = vec![76u8, 79, 79, 80, 66, 65, 67, 75, 95, 84, 69, 83, 84, 95, 49, 50, 51, 52, 53];
    assert(r@ =~= loopback_text());
    r
}

/// Why the check failed: both sides in hexadecimal, `nothing` for an empty
/// reply.
pub open spec fn loopback_failure(received: Seq<u8>) -> Seq<char> {
    "loopback failed: sent "@ + hex_text(loopback_text()) + ", received "@ + if received.len() == 0 {
        "nothing"@
    } else {
        hex_text(received)
    }
}

/// The check's verdict on what came back: the number of bytes sent and
/// received when the reply is the text sent, else the failure.
pub fn loopback_verdict(received: &[u8]) -> (r: Result<usize, String>)
    ensures
        r is Ok <==> received@ == loopback_text(),
        r matches Ok(n) ==> n == loopback_text().len(),
        r matches Err(e) ==> e@ == loopback_failure(received@),
{
    let payload = loopback_payload();
    let mut same = received.len() == payload.len();
    let mut i: usize = 0;
    while same && i < payload.len()
        invariant
            payload@ == loopback_text(),
            same ==> received@.len() == payload@.len(),
            i <= payload@.len(),
            same ==> forall|k: int| 0 <= k < i ==> received@[k] == payload@[k],
            !same ==> received@ != payload@,
        decreases payload@.len() - i + if same {
            1int
        } else {
            0int
        },
    {
        if received[i] != payload[i] {
            same = false;
        } else {
            i += 1;
        }
    }
    if same {
        assert(received@ =~= payload@);
        return Ok(payload.len());
    }
    let mut e = String::from_str("loopback failed: sent ");
    let sent = hex(payload.as_slice());
    push_str(&mut e, sent.as_str());
    push_str(&mut e, ", received ");
    if received.len() == 0 {
        push_str(&mut e, "nothing");
    } else {
        let got = hex(received);
        push_str(&mut e, got.as_str());
    }
    proof {
        reveal_strlit("loopback failed: sent ");
        reveal_strlit(", received ");
        reveal_strlit("nothing");
    }
    Err(e)
}

} // verus!
