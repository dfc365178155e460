//! The binary frame format of the transport: a 16-byte session id
//! followed by the raw PTY payload, in both directions.

use vstd::prelude::*;

verus! {

/// A session identifier: the 16 bytes of a version-4 UUID.
pub type SessionId = [u8; 16];

/// Length of the session-id prefix of every binary frame.
pub const FRAME_ID_LEN: usize = 16;

/// Build the binary frame for `payload` on session `id`: the id's bytes
/// followed by the payload, nothing else.
pub fn build_frame(id: &SessionId, payload: &[u8]) -> (r: Vec<u8>)
    requires
        payload@.len() <= usize::MAX - 16,
    ensures
        r@ == id@ + payload@,
{
    let mut frame: Vec<u8> = Vec::new();
    let mut i: usize = 0;
    while i < 16
        invariant
            i <= 16,
            frame@ == id@.take(i as int),
        decreases 16 - i,
    {
        frame.push(id[i]);
        proof {
            assert(frame@ =~= id@.take(i + 1));
        }
        i += 1;
    }
    proof {
        assert(id@.take(16) =~= id@);
    }
    let mut j: usize = 0;
    while j < payload.len()
        invariant
            j <= payload@.len(),
            frame@ == id@ + payload@.take(j as int),
        decreases payload@.len() - j,
    {
        frame.push(payload[j]);
        proof {
            assert(frame@ =~= id@ + payload@.take(j + 1));
        }
        j += 1;
    }
    proof {
        assert(payload@.take(payload@.len() as int) =~= payload@);
    }
    frame
}

/// Split an inbound binary frame into its session id and payload. Frames
/// of 16 bytes or fewer carry no payload and are dropped.
pub fn parse_frame(data: &[u8]) -> (r: Option<(SessionId, Vec<u8>)>)
    ensures
        data@.len() > 16 ==> (r matches Some((id, payload)) && id@ == data@.take(16) && payload@
            == data@.skip(16)),
        data@.len() <= 16 ==> r is None,
{
    if data.len() <= 16 {
        return None;
    }
    let mut id: SessionId = [0; 16];
    let mut i: usize = 0;
    while i < 16
        invariant
            i <= 16,
            data@.len() > 16,
            forall|k: int| 0 <= k < i ==> id@[k] == data@[k],
        decreases 16 - i,
    {
        id[i] = data[i];
        i += 1;
    }
    let mut payload: Vec<u8> = Vec::new();
    let mut j: usize = 16;
    while j < data.len()
        invariant
            16 <= j <= data@.len(),
            payload@ == data@.subrange(16, j as int),
        decreases data@.len() - j,
    {
        payload.push(data[j]);
        proof {
            assert(payload@ =~= data@.subrange(16, j + 1));
        }
        j += 1;
    }
    proof {
        assert(id@ =~= data@.take(16));
        assert(payload@ =~= data@.skip(16));
    }
    Some((id, payload))
}

/// Framing round-trip: the frame built on a 16-byte id and any payload
/// splits back into exactly that id and payload.
pub proof fn lemma_frame_round_trip(id: Seq<u8>, payload: Seq<u8>)
    requires
        id.len() == 16,
    ensures
        (id + payload).len() == 16 + payload.len(),
        (id + payload).take(16) == id,
        (id + payload).skip(16) == payload,
{
    assert((id + payload).take(16) =~= id);
    assert((id + payload).skip(16) =~= payload);
}

} // verus!
