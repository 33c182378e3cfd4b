//! What the decoder makes of a batch of frames written by the encoder.
use vstd::prelude::*;
use vstd::utf8::{encode_scalar, encode_utf8, is_ascii_chars, is_ascii_chars_encode_utf8};

use crate::encoder::{batch_text, data_frame, event_frame};
use crate::events::{event_members, fits_wire, lemma_event_round_trip, timestamps_readable, BaseEvent};
use crate::fields::Read;
use crate::framing::{
    feed_chunks, lemma_chunk_split_invariance, lemma_scan_concat, scan, stream_lines, Scan, LINE_FEED,
};
use crate::json::{json_read, json_text, single_line};
use crate::stream::{data_prefix, decode_bytes, line_outcome, outcomes};

verus! {

pub proof fn lemma_encode_concat(a: Seq<char>, b: Seq<char>)
    ensures
        encode_utf8(a + b) == encode_utf8(a) + encode_utf8(b),
    decreases a.len(),
{
    if a.len() == 0 {
        assert(a + b =~= b);
        assert(Seq::<u8>::empty() + encode_utf8(b) =~= encode_utf8(b));
    } else {
        assert((a + b)[0] == a[0]);
        assert((a + b).drop_first() =~= a.drop_first() + b);
        lemma_encode_concat(a.drop_first(), b);
        assert(encode_scalar(a[0] as u32) + (encode_utf8(a.drop_first()) + encode_utf8(b))
            =~= (encode_scalar(a[0] as u32) + encode_utf8(a.drop_first())) + encode_utf8(b));
    }
}

/// Whether a byte sequence holds no line feed.
pub open spec fn no_line_feed_byte(b: Seq<u8>) -> bool {
    forall|i: int| 0 <= i < b.len() ==> b[i] != LINE_FEED
}

/// UTF-8 writes a line feed byte only for a line feed character: every byte of a longer
/// encoding has its high bit set.
pub proof fn lemma_encode_keeps_line_feeds_out(s: Seq<char>)
    requires
        single_line(s),
    ensures
        no_line_feed_byte(encode_utf8(s)),
    decreases s.len(),
{
    if s.len() > 0 {
        let c = s[0] as u32;
        assert(s[0] != '\n');
        vstd::utf8::char_u32_cast(s[0], c);
        vstd::utf8::char_u32_cast('\n', 10);
        assert(c != 10);
        let e = encode_scalar(c);
        assert(c <= 0x7f ==> (c & 0x7f) as u8 != 10u8) by (bit_vector)
            requires
                c != 10u32,
        ;
        assert(0xC0u8 | ((c >> 6u32) & 0x1Fu32) as u8 != 10u8) by (bit_vector);
        assert(0xE0u8 | ((c >> 12u32) & 0x0Fu32) as u8 != 10u8) by (bit_vector);
        assert(0xF0u8 | ((c >> 18u32) & 0x7u32) as u8 != 10u8) by (bit_vector);
        assert(0x80u8 | (c & 0x3Fu32) as u8 != 10u8) by (bit_vector);
        assert(0x80u8 | ((c >> 6u32) & 0x3Fu32) as u8 != 10u8) by (bit_vector);
        assert(0x80u8 | ((c >> 12u32) & 0x3Fu32) as u8 != 10u8) by (bit_vector);
        assert(no_line_feed_byte(e));
        assert forall|i: int| 0 <= i < s.drop_first().len() implies s.drop_first()[i] != '\n' by {
            assert(s.drop_first()[i] == s[i + 1]);
        }
        lemma_encode_keeps_line_feeds_out(s.drop_first());
        let rest = encode_utf8(s.drop_first());
        assert forall|i: int| 0 <= i < (e + rest).len() implies (e + rest)[i] != LINE_FEED by {
            if i >= e.len() {
                assert((e + rest)[i] == rest[i - e.len()]);
            }
        }
    }
}

/// Bytes without a line feed only extend the pending line.
pub proof fn lemma_scan_without_line_feed(s: Scan, b: Seq<u8>)
    requires
        no_line_feed_byte(b),
    ensures
        scan(s, b) == (s.0, s.1 + b),
    decreases b.len(),
{
    if b.len() == 0 {
        assert(s.1 + b =~= s.1);
    } else {
        lemma_scan_without_line_feed(s, b.drop_last());
        assert((s.1 + b.drop_last()).push(b.last()) =~= s.1 + b);
    }
}

/// The bytes of a data line holding the given text.
pub open spec fn data_line(t: Seq<char>) -> Seq<u8> {
    encode_utf8("data: "@ + t)
}

proof fn lemma_prefix_bytes()
    ensures
        encode_utf8("data: "@) == data_prefix(),
        encode_utf8("\n\n"@) == seq![LINE_FEED, LINE_FEED],
        single_line("data: "@),
{
    reveal_strlit("data: ");
    reveal_strlit("\n\n");
    assert(is_ascii_chars("data: "@));
    assert(is_ascii_chars("\n\n"@));
    is_ascii_chars_encode_utf8("data: "@);
    is_ascii_chars_encode_utf8("\n\n"@);
    assert(encode_utf8("data: "@) =~= data_prefix());
    assert(encode_utf8("\n\n"@) =~= seq![LINE_FEED, LINE_FEED]);
}

/// A frame ends its data line and then an empty line.
proof fn lemma_scan_frame(lines: Seq<Seq<u8>>, t: Seq<char>)
    requires
        single_line(t),
    ensures
        scan((lines, Seq::empty()), encode_utf8(data_frame(t))) == (
            lines.push(data_line(t)).push(Seq::empty()),
            Seq::<u8>::empty(),
        ),
{
    lemma_prefix_bytes();
    lemma_encode_concat("data: "@ + t, "\n\n"@);
    assert(data_frame(t) == ("data: "@ + t) + "\n\n"@);
    crate::json::lemma_single_line_concat("data: "@, t);
    lemma_encode_keeps_line_feeds_out("data: "@ + t);
    let x = data_line(t);
    lemma_scan_concat((lines, Seq::empty()), x, seq![LINE_FEED, LINE_FEED]);
    lemma_scan_without_line_feed((lines, Seq::empty()), x);
    assert(Seq::<u8>::empty() + x =~= x);
    assert(seq![LINE_FEED, LINE_FEED].drop_last() =~= seq![LINE_FEED]);
    assert(seq![LINE_FEED].drop_last() =~= Seq::<u8>::empty());
    reveal_with_fuel(scan, 3);
}

/// The outcome of a data line is the outcome of its text.
proof fn lemma_data_line_outcome(t: Seq<char>)
    ensures
        line_outcome(data_line(t)) == Some(decode_bytes(encode_utf8(t))),
        line_outcome(Seq::<u8>::empty()) is None,
{
    lemma_prefix_bytes();
    lemma_encode_concat("data: "@, t);
    let x = data_line(t);
    assert(x.subrange(0, 6) =~= data_prefix());
    assert(x.subrange(6, x.len() as int) =~= encode_utf8(t));
}

/// Fed the bytes of a batch, the reassembler ends every line and holds nothing back, and
/// the decoder reports one outcome per event, in order: the outcome of the event's JSON
/// text. The encoder writes no line feed in that text.
pub proof fn lemma_batch_outcomes(es: Seq<BaseEvent>)
    requires
        forall|i: int| 0 <= i < es.len() ==> single_line(json_text(#[trigger] es[i]@)),
    ensures
        scan((Seq::empty(), Seq::empty()), encode_utf8(batch_text(es))).1 == Seq::<u8>::empty(),
        outcomes(scan((Seq::empty(), Seq::empty()), encode_utf8(batch_text(es))).0) == Seq::new(
            es.len(),
            |i: int| decode_bytes(encode_utf8(json_text(es[i]@))),
        ),
    decreases es.len(),
{
    let start: Scan = (Seq::empty(), Seq::empty());
    if es.len() == 0 {
        assert(encode_utf8(batch_text(es)) =~= Seq::<u8>::empty());
        assert(outcomes(Seq::<Seq<u8>>::empty()) =~= Seq::new(
            es.len(),
            |i: int| decode_bytes(encode_utf8(json_text(es[i]@))),
        ));
    } else {
        let init = es.drop_last();
        assert forall|i: int| 0 <= i < init.len() implies single_line(json_text(#[trigger] init[i]@)) by {
            assert(init[i] == es[i]);
        }
        lemma_batch_outcomes(init);
        let t = json_text(es.last()@);
        assert(single_line(json_text(es[es.len() - 1]@)));
        lemma_encode_concat(batch_text(init), event_frame(es.last()));
        lemma_scan_concat(start, encode_utf8(batch_text(init)), encode_utf8(event_frame(es.last())));
        let before = scan(start, encode_utf8(batch_text(init)));
        lemma_scan_frame(before.0, t);
        assert(before == (before.0, Seq::<u8>::empty()));
        let lines = before.0.push(data_line(t)).push(Seq::empty());
        lemma_data_line_outcome(t);
        assert(lines.drop_last() =~= before.0.push(data_line(t)));
        assert(before.0.push(data_line(t)).drop_last() =~= before.0);
        assert(lines.last() == Seq::<u8>::empty());
        assert(outcomes(lines) == outcomes(before.0.push(data_line(t))));
        assert(before.0.push(data_line(t)).last() == data_line(t));
        assert(outcomes(before.0.push(data_line(t))) == outcomes(before.0).push(
            decode_bytes(encode_utf8(t)),
        ));
        assert(outcomes(lines) == outcomes(before.0).push(decode_bytes(encode_utf8(t))));
        assert(outcomes(lines) =~= Seq::new(
            es.len(),
            |i: int| decode_bytes(encode_utf8(json_text(es[i]@))),
        ));
    }
}

/// A batch decodes back, in order, to the events it was written from, wherever serde_json
/// reads each event's compact text back as the JSON it was written from.
///
/// serde_json reads an encodable event's text back as written when every number in it is
/// written the way serde_json writes numbers: an integer without `+`, leading zeros, fraction
/// or exponent (`5`, `-3`), or a float in serde_json's shortest form (`1.5`, `100000.0`). A
/// text such as `1e5` or `1.50` reads back as `100000.0` or `1.5`, and the event read back
/// then differs from the one written in that number. Repeated keys, which serde_json would
/// collapse, are refused by the encoder.
pub proof fn lemma_batch_round_trip(es: Seq<BaseEvent>)
    requires
        forall|i: int| 0 <= i < es.len() ==> single_line(json_text(#[trigger] es[i]@)),
        forall|i: int| 0 <= i < es.len() ==> fits_wire(#[trigger] es[i]) && timestamps_readable(es[i]),
        forall|i: int|
            0 <= i < es.len() ==> json_read(encode_utf8(json_text(#[trigger] es[i]@))) == Some(
                es[i]@,
            ),
    ensures
        outcomes(scan((Seq::empty(), Seq::empty()), encode_utf8(batch_text(es))).0) == Seq::new(
            es.len(),
            |i: int| Read::Ok(event_members(es[i])),
        ),
{
    lemma_batch_outcomes(es);
    assert forall|i: int| 0 <= i < es.len() implies decode_bytes(encode_utf8(json_text(es[i]@)))
        == Read::Ok(event_members(#[trigger] es[i])) by {
        lemma_event_round_trip(es[i]);
    }
    assert(Seq::new(es.len(), |i: int| decode_bytes(encode_utf8(json_text(es[i]@)))) =~= Seq::new(
        es.len(),
        |i: int| Read::Ok(event_members(es[i])),
    ));
}

/// Decoding the payload of an event's frame gives back that event, wherever serde_json
/// reads the compact text back as the JSON it was written from.
///
/// serde_json reads an encodable event's text back as written when every number in it is
/// written the way serde_json writes numbers: an integer without `+`, leading zeros, fraction
/// or exponent (`5`, `-3`), or a float in serde_json's shortest form (`1.5`, `100000.0`). A
/// text such as `1e5` or `1.50` reads back as `100000.0` or `1.5`, and the event read back
/// then differs from the one written in that number. Repeated keys, which serde_json would
/// collapse, are refused by the encoder.
pub proof fn lemma_payload_round_trip(e: BaseEvent)
    requires
        fits_wire(e),
        timestamps_readable(e),
        json_read(encode_utf8(json_text(e@))) == Some(e@),
    ensures
        decode_bytes(encode_utf8(json_text(e@))) == Read::Ok(event_members(e)),
{
    lemma_event_round_trip(e);
}

pub proof fn lemma_outcomes_concat(a: Seq<Seq<u8>>, b: Seq<Seq<u8>>)
    ensures
        outcomes(a + b) == outcomes(a) + outcomes(b),
    decreases b.len(),
{
    if b.len() == 0 {
        assert(a + b =~= a);
        assert(outcomes(a) + Seq::<crate::stream::Outcome>::empty() =~= outcomes(a));
    } else {
        assert((a + b).drop_last() =~= a + b.drop_last());
        assert((a + b).last() == b.last());
        lemma_outcomes_concat(a, b.drop_last());
        if let Some(o) = line_outcome(b.last()) {
            assert((outcomes(a) + outcomes(b.drop_last())).push(o) =~= outcomes(a) + outcomes(
                b.drop_last(),
            ).push(o));
        }
    }
}

/// However a byte stream is cut into chunks, the decoder reports the same outcomes, in
/// the same order, as when the whole stream arrives in one chunk.
pub proof fn lemma_decoding_ignores_chunking(chunks: Seq<Seq<u8>>)
    ensures
        outcomes(stream_lines(chunks)) == outcomes(stream_lines(seq![chunks.flatten()])),
{
    lemma_chunk_split_invariance(chunks);
}

/// Fed chunk after chunk, the decoder reports the outcomes of the lines each chunk
/// completes, one chunk after another: together, the outcomes of all the lines fed so far.
pub proof fn lemma_outcomes_per_chunk(pending: Seq<u8>, chunks: Seq<Seq<u8>>)
    requires
        chunks.len() > 0,
    ensures
        outcomes(feed_chunks(pending, chunks).0) == outcomes(feed_chunks(pending, chunks.drop_last()).0)
            + outcomes(scan((Seq::empty(), feed_chunks(pending, chunks.drop_last()).1), chunks.last()).0),
{
    let before = feed_chunks(pending, chunks.drop_last());
    lemma_outcomes_concat(before.0, scan((Seq::empty(), before.1), chunks.last()).0);
}

} // verus!
