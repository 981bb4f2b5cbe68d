use vstd::prelude::*;
use vstd::utf8::{decode_utf8, encode_utf8, is_ascii_chars, valid_utf8};
use crate::codec::{
    decodes_to, joined, lemma_frames_determined, no_newline, splits_into, trim_cr, NEWLINE,
};
use crate::session::wire_line;
use crate::correlator::{
    ascending, delivery_of, expired_ids, ids_of, live, remaining_after, Delivery, PendingRequest,
};

verus! {

/// The deliveries of `frames` handed one at a time to the queue `q`, each
/// against the queue the previous one left.
pub open spec fn deliver_each(q: Seq<PendingRequest>, frames: Seq<String>) -> Seq<Delivery>
    decreases frames.len(),
{
    if frames.len() == 0 {
        Seq::empty()
    } else {
        seq![delivery_of(q, frames[0], 0)] + deliver_each(remaining_after(q, 1), frames.drop_first())
    }
}

proof fn lemma_deliver_each_closed(q: Seq<PendingRequest>, frames: Seq<String>)
    ensures
        deliver_each(q, frames).len() == frames.len(),
        forall|j: int|
            0 <= j < frames.len() ==> #[trigger] deliver_each(q, frames)[j] == delivery_of(
                q,
                frames[j],
                j,
            ),
    decreases frames.len(),
{
    if frames.len() > 0 {
        let rest = remaining_after(q, 1);
        lemma_deliver_each_closed(rest, frames.drop_first());
        assert forall|j: int| 0 <= j < frames.len() implies #[trigger] deliver_each(q, frames)[j]
            == delivery_of(q, frames[j], j) by {
            if j > 0 {
                assert(frames.drop_first()[j - 1] == frames[j]);
                if j < q.len() {
                    assert(rest[j - 1] == q[j]);
                }
            }
        }
    }
}

/// Requests are answered in submission order: when as many frames arrive, one
/// at a time, as there are pending requests, the `j`-th frame resolves the
/// `j`-th request and no other, and no request is resolved twice. With a device
/// that echoes each line, every caller gets back its own command.
pub proof fn lemma_fifo_delivery(q: Seq<PendingRequest>, frames: Seq<String>)
    requires
        ascending(q),
        frames.len() == q.len(),
    ensures
        deliver_each(q, frames).len() == q.len(),
        forall|j: int|
            0 <= j < q.len() ==> #[trigger] deliver_each(q, frames)[j] == (Delivery::Resolved {
                id: q[j].id,
                response: frames[j],
            }),
        forall|i: int, j: int| 0 <= i < j < q.len() ==> (#[trigger] q[i]).id != (#[trigger] q[j]).id,
        (forall|j: int| 0 <= j < q.len() ==> (#[trigger] frames[j])@ == q[j].command@) ==> forall|
            j: int,
        |
            0 <= j < q.len() ==> (#[trigger] deliver_each(q, frames)[j] matches Delivery::Resolved {
                id,
                response,
            } && id == q[j].id && response@ == q[j].command@),
{
    lemma_deliver_each_closed(q, frames);
}

proof fn lemma_live_front(a: PendingRequest, rest: Seq<PendingRequest>, now: u64)
    ensures
        live(seq![a] + rest, now) == if a.deadline > now {
            seq![a] + live(rest, now)
        } else {
            live(rest, now)
        },
        expired_ids(seq![a] + rest, now) == if a.deadline > now {
            expired_ids(rest, now)
        } else {
            seq![a.id] + expired_ids(rest, now)
        },
    decreases rest.len(),
{
    let s = seq![a] + rest;
    if rest.len() == 0 {
        assert(s.drop_last() =~= Seq::<PendingRequest>::empty());
        assert(s.last() == a);
        assert(live(Seq::<PendingRequest>::empty(), now) == Seq::<PendingRequest>::empty());
        assert(expired_ids(Seq::<PendingRequest>::empty(), now) == Seq::<u64>::empty());
        assert(live(s, now) == if a.deadline > now {
            Seq::<PendingRequest>::empty().push(a)
        } else {
            Seq::<PendingRequest>::empty()
        });
        assert(expired_ids(s, now) == if a.deadline > now {
            Seq::<u64>::empty()
        } else {
            Seq::<u64>::empty().push(a.id)
        });
        assert(seq![a] + live(rest, now) =~= Seq::<PendingRequest>::empty().push(a));
        assert(seq![a.id] + expired_ids(rest, now) =~= Seq::<u64>::empty().push(a.id));
    } else {
        let init = rest.drop_last();
        let b = rest.last();
        lemma_live_front(a, init, now);
        assert(s.drop_last() =~= seq![a] + init);
        assert(s.last() == b);
        assert(live(rest, now) == if b.deadline > now {
            live(init, now).push(b)
        } else {
            live(init, now)
        });
        assert(expired_ids(rest, now) == if b.deadline > now {
            expired_ids(init, now)
        } else {
            expired_ids(init, now).push(b.id)
        });
        assert(live(s, now) == if b.deadline > now {
            live(seq![a] + init, now).push(b)
        } else {
            live(seq![a] + init, now)
        });
        assert(expired_ids(s, now) == if b.deadline > now {
            expired_ids(seq![a] + init, now)
        } else {
            expired_ids(seq![a] + init, now).push(b.id)
        });
        assert((seq![a] + live(init, now)).push(b) =~= seq![a] + live(init, now).push(b));
        assert((seq![a.id] + expired_ids(init, now)).push(b.id) =~= seq![a.id] + expired_ids(
            init,
            now,
        ).push(b.id));
    }
}

/// A request times out once its deadline has passed and not before, and the
/// request queued behind a timed-out head becomes active at once: after
/// expiry at `now`, a head whose deadline has passed is the first id reported
/// as timed out, the next request still within its deadline heads the queue,
/// and a head within its deadline stays where it is.
pub proof fn lemma_timeout_promotes_next(q: Seq<PendingRequest>, now: u64)
    requires
        q.len() > 0,
    ensures
        q[0].deadline <= now ==> expired_ids(q, now).len() > 0 && expired_ids(q, now)[0] == q[0].id,
        q[0].deadline <= now && q.len() > 1 && q[1].deadline > now ==> live(q, now).len() > 0 && live(
            q,
            now,
        )[0] == q[1],
        q[0].deadline > now ==> live(q, now).len() > 0 && live(q, now)[0] == q[0],
{
    let rest = q.drop_first();
    assert(q =~= seq![q[0]] + rest);
    lemma_live_front(q[0], rest, now);
    if q.len() > 1 {
        let rest2 = rest.drop_first();
        assert(rest =~= seq![rest[0]] + rest2);
        lemma_live_front(rest[0], rest2, now);
    }
}

/// Tearing the session down resolves every pending request as cancelled and
/// leaves none to time out: the cancelled ids are exactly the pending ones, in
/// order, and expiry on the emptied queue reports nothing at any time.
pub proof fn lemma_cancel_excludes_timeout(q: Seq<PendingRequest>, now: u64)
    ensures
        ids_of(q).len() == q.len(),
        forall|j: int| 0 <= j < q.len() ==> #[trigger] ids_of(q)[j] == q[j].id,
        expired_ids(Seq::<PendingRequest>::empty(), now) == Seq::<u64>::empty(),
        live(Seq::<PendingRequest>::empty(), now) == Seq::<PendingRequest>::empty(),
{
}

/// The bytes of `lines` written one after the other as UTF-8.
pub open spec fn written(lines: Seq<Seq<char>>) -> Seq<u8>
    decreases lines.len(),
{
    if lines.len() == 0 {
        Seq::empty()
    } else {
        written(lines.drop_last()) + encode_utf8(lines.last())
    }
}

/// The bytes a device sends back when it echoes, verbatim and in order, the
/// line written for each request of `q`.
pub open spec fn echo_of(q: Seq<PendingRequest>) -> Seq<u8> {
    written(q.map_values(|p: PendingRequest| wire_line(p.command@)))
}

/// A command that travels as one line of text: ASCII, without a delimiter, and
/// not ending in a carriage return.
pub open spec fn plain_command(c: Seq<char>) -> bool {
    &&& is_ascii_chars(c)
    &&& forall|i: int| 0 <= i < c.len() ==> c[i] != '\n'
    &&& !(c.len() > 0 && c.last() == '\r')
}

proof fn lemma_plain_line(c: Seq<char>)
    requires
        plain_command(c),
    ensures
        encode_utf8(wire_line(c)) == encode_utf8(c).push(NEWLINE),
        no_newline(encode_utf8(c)),
        trim_cr(encode_utf8(c)) == encode_utf8(c),
        valid_utf8(encode_utf8(c)),
        decode_utf8(encode_utf8(c)) == c,
{
    let w = wire_line(c);
    assert(is_ascii_chars(w)) by {
        assert forall|i: int| 0 <= i < w.len() implies '\0' <= #[trigger] w[i] <= '\u{7f}' by {
            if i < c.len() {
                assert(w[i] == c[i]);
            }
        }
    }
    vstd::utf8::is_ascii_chars_encode_utf8(c);
    vstd::utf8::is_ascii_chars_encode_utf8(w);
    vstd::utf8::is_ascii_chars_nat_bound(c);
    let e = encode_utf8(c);
    assert(encode_utf8(w) =~= e.push(NEWLINE)) by {
        assert forall|i: int| 0 <= i < w.len() implies encode_utf8(w)[i] == e.push(NEWLINE)[i] by {
            if i < c.len() {
                assert(w[i] == c[i]);
            } else {
                assert(w[i] == '\n');
            }
        }
    }
    assert forall|i: int| 0 <= i < e.len() implies e[i] != NEWLINE by {
        assert(c[i] as u8 == e[i]);
        assert(c[i] != '\n');
        assert((c[i] as nat) < 128);
    }
    if e.len() > 0 {
        let k = e.len() - 1;
        assert(c[k] as u8 == e[k]);
        assert((c[k] as nat) < 128);
        assert(c.last() == c[k]);
    }
    vstd::utf8::encode_utf8_valid_utf8(c);
    vstd::utf8::encode_utf8_decode_utf8(c);
}

proof fn lemma_echo_lines(q: Seq<PendingRequest>)
    requires
        forall|j: int| 0 <= j < q.len() ==> plain_command(#[trigger] q[j].command@),
    ensures
        splits_into(
            echo_of(q),
            q.map_values(|p: PendingRequest| encode_utf8(p.command@)),
            Seq::empty(),
        ),
    decreases q.len(),
{
    let lines = q.map_values(|p: PendingRequest| encode_utf8(p.command@));
    let wires = q.map_values(|p: PendingRequest| wire_line(p.command@));
    if q.len() > 0 {
        let init = q.drop_last();
        assert forall|j: int| 0 <= j < init.len() implies plain_command(
            #[trigger] init[j].command@,
        ) by {
            assert(init[j] == q[j]);
        }
        lemma_echo_lines(init);
        let last = q.last();
        assert(plain_command(q[q.len() - 1].command@));
        lemma_plain_line(last.command@);
        assert(wires.drop_last() =~= init.map_values(|p: PendingRequest| wire_line(p.command@)));
        assert(lines.drop_last() =~= init.map_values(
            |p: PendingRequest| encode_utf8(p.command@),
        ));
        assert(echo_of(q) == echo_of(init) + encode_utf8(wires.last()));
        assert(joined(lines) == joined(lines.drop_last()) + lines.last().push(NEWLINE));
        assert(echo_of(q) =~= joined(lines) + Seq::<u8>::empty());
        assert forall|k: int| 0 <= k < lines.len() implies no_newline(#[trigger] lines[k]) by {
            assert(plain_command(q[k].command@));
            lemma_plain_line(q[k].command@);
        }
    } else {
        assert(echo_of(q) =~= joined(lines) + Seq::<u8>::empty());
    }
}

/// Concurrent requests to a device that echoes every line are each answered
/// with their own command: reading back the lines written for the queued
/// requests yields one frame per request, in order, each the request's
/// command, and each resolves the request that sent it; nothing is left over.
pub proof fn lemma_echo_answers_each_caller(
    q: Seq<PendingRequest>,
    frames: Seq<String>,
    rest: Seq<u8>,
)
    requires
        ascending(q),
        forall|j: int| 0 <= j < q.len() ==> plain_command(#[trigger] q[j].command@),
        decodes_to(echo_of(q), frames, rest),
    ensures
        rest == Seq::<u8>::empty(),
        frames.len() == q.len(),
        forall|j: int| 0 <= j < q.len() ==> (#[trigger] frames[j])@ == q[j].command@,
        forall|j: int|
            0 <= j < q.len() ==> #[trigger] delivery_of(q, frames[j], j) == (Delivery::Resolved {
                id: q[j].id,
                response: frames[j],
            }),
{
    let lines = q.map_values(|p: PendingRequest| encode_utf8(p.command@));
    lemma_echo_lines(q);
    let found = choose|found: Seq<Seq<u8>>|
        {
            &&& splits_into(echo_of(q), found, rest)
            &&& frames.len() == found.len()
            &&& forall|k: int|
                0 <= k < found.len() ==> (#[trigger] frames[k])@ == crate::codec::lossy_text(
                    trim_cr(found[k]),
                )
            &&& forall|k: int|
                0 <= k < found.len() && valid_utf8(trim_cr(found[k])) ==> (#[trigger] frames[k])@
                    == decode_utf8(trim_cr(found[k]))
        };
    lemma_frames_determined(echo_of(q), found, rest, lines, Seq::empty());
    assert forall|j: int| 0 <= j < q.len() implies (#[trigger] frames[j])@ == q[j].command@ by {
        assert(plain_command(q[j].command@));
        lemma_plain_line(q[j].command@);
        assert(found[j] == encode_utf8(q[j].command@));
    }
}

} // verus!
