use vstd::prelude::*;
use crate::gpu_types::{NeoUVec3, FEEDBACK_BUFFER_SIZE};
use crate::world::CellsRequest;

verus! {

/// The cells of `s` in the order they first occur, each once.
pub open spec fn dedup(s: Seq<NeoUVec3>) -> Seq<NeoUVec3>
    decreases s.len(),
{
    if s.len() == 0 {
        Seq::empty()
    } else {
        let d = dedup(s.drop_last());
        if d.contains(s.last()) {
            d
        } else {
            d.push(s.last())
        }
    }
}

/// How many entries of the feedback buffer the shader has filled, given
/// its write cursor: the cursor, capped at the buffer's length.
pub open spec fn feedback_count(feedback_idx: u32) -> int {
    if feedback_idx < FEEDBACK_BUFFER_SIZE {
        feedback_idx as int
    } else {
        FEEDBACK_BUFFER_SIZE as int
    }
}

/// Whether `v` occurs in `packet`.
fn packet_contains(packet: &Vec<NeoUVec3>, v: &NeoUVec3) -> (r: bool)
    ensures
        r == packet@.contains(*v),
{
    let mut i: usize = 0;
    while i < packet.len()
        invariant
            i <= packet.len(),
            forall|j: int| 0 <= j < i ==> packet@[j] != *v,
        decreases packet.len() - i,
    {
        let p = &packet[i];
        if p.x == v.x && p.y == v.y && p.z == v.z {
            assert(packet@[i as int] == *v);
            return true;
        }
        i = i + 1;
    }
    false
}

/// Turns the cells the shader reported this frame into a request: the
/// filled part of the feedback buffer without repeated cells, in the order
/// they first occur; no request when nothing was reported. The cursor is
/// reset so that the shader fills the buffer from its start again.
pub fn feedback_sender_system(feed_buff: &Vec<NeoUVec3>, feedback_idx: &mut u32) -> (r: Option<
    CellsRequest,
>)
    requires
        *old(feedback_idx) != 0 ==> feed_buff@.len() >= feedback_count(*old(feedback_idx)),
    ensures
        *final(feedback_idx) == 0,
        match r {
            None => *old(feedback_idx) == 0,
            Some(req) => *old(feedback_idx) != 0 && req.0@ == dedup(
                feed_buff@.take(feedback_count(*old(feedback_idx))),
            ),
        },
        r is Some <==> *old(feedback_idx) != 0,
        r matches Some(req) ==> reports_filled_cells(feed_buff@, *old(feedback_idx), req.0@),
{
    proof {
        if *old(feedback_idx) != 0 {
            law_feedback_request(feed_buff@, *old(feedback_idx));
        }
    }
    let mut result: Option<CellsRequest> = None;
    if *feedback_idx != 0 {
        let n: usize = if (*feedback_idx as usize) < FEEDBACK_BUFFER_SIZE {
            *feedback_idx as usize
        } else {
            FEEDBACK_BUFFER_SIZE
        };
        let ghost s = feed_buff@;
        let mut feedback_packet: Vec<NeoUVec3> = Vec::new();
        feedback_packet.push(feed_buff[0]);
        proof {
            let e = Seq::<NeoUVec3>::empty();
            assert(s.take(1).drop_last() =~= e);
            assert(dedup(e) == e);
            assert(!e.contains(s[0]));
            assert(s.take(1).last() == s[0]);
            assert(feedback_packet@ =~= dedup(s.take(1)));
        }
        let mut i: usize = 1;
        while i < n
            invariant
                1 <= i <= n,
                n <= s.len(),
                s == feed_buff@,
                feedback_packet@ == dedup(s.take(i as int)),
            decreases n - i,
        {
            proof {
                assert(s.take(i + 1).drop_last() =~= s.take(i as int));
            }
            if !packet_contains(&feedback_packet, &feed_buff[i]) {
                feedback_packet.push(feed_buff[i]);
            }
            i = i + 1;
        }
        result = Some(CellsRequest(feedback_packet));
    }
    *feedback_idx = 0;
    result
}

/// `req` reports the filled part of the feedback buffer `feed`, whose
/// cursor is `n`: with `m` the cursor capped at the buffer's 256 entries,
/// every cell among the first `m` entries is in `req`, every cell of `req`
/// is one of them, and no cell is in `req` twice.
pub open spec fn reports_filled_cells(feed: Seq<NeoUVec3>, n: u32, req: Seq<NeoUVec3>) -> bool {
    let m: int = if n < 256 { n as int } else { 256 };
    &&& forall|i: int| 0 <= i < m ==> req.contains(#[trigger] feed[i])
    &&& forall|j: int| 0 <= j < req.len() ==> exists|i: int| 0 <= i < m && feed[i] == #[trigger] req[j]
    &&& req.no_duplicates()
    &&& req.len() > 0
    &&& req[0] == feed[0]
}

/// The request made from a feedback buffer with a non-zero cursor holds
/// exactly the cells of the buffer's filled part, capped at 256 entries,
/// each once, starting with the buffer's first entry.
pub proof fn law_feedback_request(feed: Seq<NeoUVec3>, n: u32)
    requires
        n != 0,
        feed.len() >= (if n < 256 { n as int } else { 256 }),
    ensures
        reports_filled_cells(feed, n, dedup(feed.take(feedback_count(n)))),
{
    let m: int = if n < 256 { n as int } else { 256 };
    assert(feedback_count(n) == m);
    let s = feed.take(m);
    let d = dedup(s);
    law_dedup(s);
    assert forall|i: int| 0 <= i < m implies d.contains(#[trigger] feed[i]) by {
        assert(s[i] == feed[i]);
        assert(s.contains(feed[i]));
    }
    assert forall|j: int| 0 <= j < d.len() implies exists|i: int| 0 <= i < m && feed[i] == #[trigger] d[j] by {
        assert(d.contains(d[j]));
        assert(s.contains(d[j]));
        let i = choose|i: int| 0 <= i < s.len() && s[i] == d[j];
        assert(feed[i] == d[j]);
    }
    assert(s[0] == feed[0]);
}

/// De-duplicating keeps exactly the cells that occur, lists each once, and
/// keeps the first cell first.
pub proof fn law_dedup(s: Seq<NeoUVec3>)
    ensures
        dedup(s).no_duplicates(),
        forall|v: NeoUVec3| dedup(s).contains(v) <==> s.contains(v),
        s.len() > 0 ==> dedup(s).len() > 0 && dedup(s)[0] == s[0],
        dedup(s).len() <= s.len(),
    decreases s.len(),
{
    if s.len() > 0 {
        let pre = s.drop_last();
        law_dedup(pre);
        let d = dedup(pre);
        assert forall|v: NeoUVec3| dedup(s).contains(v) <==> s.contains(v) by {
            if s.contains(v) {
                let i = choose|i: int| 0 <= i < s.len() && s[i] == v;
                if i < s.len() - 1 {
                    assert(pre[i] == v);
                    assert(pre.contains(v));
                    assert(d.contains(v));
                    if !d.contains(s.last()) {
                        let j = choose|j: int| 0 <= j < d.len() && d[j] == v;
                        assert(dedup(s)[j] == v);
                    }
                } else {
                    if !d.contains(s.last()) {
                        assert(dedup(s)[d.len() as int] == v);
                    }
                }
            }
            if dedup(s).contains(v) {
                let j = choose|j: int| 0 <= j < dedup(s).len() && dedup(s)[j] == v;
                if j < d.len() {
                    assert(d[j] == v);
                    assert(pre.contains(v));
                    let i = choose|i: int| 0 <= i < pre.len() && pre[i] == v;
                    assert(s[i] == v);
                } else {
                    assert(s[s.len() - 1] == v);
                }
            }
        }
        if pre.len() == 0 {
            assert(d =~= Seq::<NeoUVec3>::empty());
            assert(!d.contains(s.last()));
        } else {
            assert(pre[0] == s[0]);
        }
    }
}

} // verus!
