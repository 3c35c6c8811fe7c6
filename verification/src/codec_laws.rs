//! What holds of the codec as a whole: a frame that was built decodes to
//! the fields it was built from, and bytes that are cut short decode to an
//! error.

use crate::packets::{
    body_fields, create_spec, decode_spec, encode_spec, extent_spec, field_bytes, join_fields,
    kind_of_tag, lemma_decode_skips_zeros, packet_of_fields, payload_of, split_fields, tag_of,
    FrameDecodeError, PacketKind, PacketView, MAX_LENGTH, SEPARATOR,
};
use vstd::prelude::*;
use vstd::utf8::*;

verus! {

/// Whether no field holds the separator character.
pub open spec fn free_of_separator(fields: Seq<Seq<char>>) -> bool {
    forall|i: int, j: int|
        0 <= i < fields.len() && 0 <= j < fields[i].len() ==> #[trigger] fields[i][j] != '\u{1}'
}

/// Whether no raw field holds the separator byte.
pub open spec fn raw_free_of_separator(fields: Seq<Seq<u8>>) -> bool {
    forall|i: int, j: int|
        0 <= i < fields.len() && 0 <= j < fields[i].len() ==> #[trigger] fields[i][j]
            != SEPARATOR
}

/// Splitting after appending a separator and a field without separators
/// gives the fields before, then that field.
proof fn lemma_split_append(head: Seq<u8>, field: Seq<u8>)
    requires
        forall|j: int| 0 <= j < field.len() ==> field[j] != SEPARATOR,
    ensures
        split_fields(head + seq![SEPARATOR] + field) == split_fields(head).push(field),
    decreases field.len(),
{
    let whole = head + seq![SEPARATOR] + field;
    if field.len() == 0 {
        assert(whole.drop_last() =~= head);
        assert(field =~= Seq::<u8>::empty());
    } else {
        let shorter = field.drop_last();
        lemma_split_append(head, shorter);
        assert(whole.drop_last() =~= head + seq![SEPARATOR] + shorter);
        assert(whole.last() == field.last());
        let before = split_fields(head).push(shorter);
        assert(before.drop_last() =~= split_fields(head));
        assert(before.last().push(field.last()) =~= field);
    }
}

/// Splitting one field without separators gives that field alone.
proof fn lemma_split_single(field: Seq<u8>)
    requires
        forall|j: int| 0 <= j < field.len() ==> field[j] != SEPARATOR,
    ensures
        split_fields(field) == seq![field],
    decreases field.len(),
{
    if field.len() == 0 {
        assert(field =~= Seq::<u8>::empty());
    } else {
        lemma_split_single(field.drop_last());
        let before = seq![field.drop_last()];
        assert(before.last().push(field.last()) =~= field);
        assert(before.drop_last().push(field) =~= seq![field]);
    }
}

/// Joining raw fields and splitting the result gives the fields back, where
/// there is at least one field and none holds the separator byte.
pub proof fn lemma_split_join(fields: Seq<Seq<u8>>)
    requires
        fields.len() >= 1,
        raw_free_of_separator(fields),
    ensures
        split_fields(join_fields(fields)) == fields,
    decreases fields.len(),
{
    if fields.len() == 1 {
        assert forall|j: int| 0 <= j < fields[0].len() implies fields[0][j] != SEPARATOR by {
            assert(fields[0][j] != SEPARATOR);
        }
        lemma_split_single(fields[0]);
        assert(seq![fields[0]] =~= fields);
    } else {
        let head = fields.drop_last();
        assert forall|i: int, j: int| 0 <= i < head.len() && 0 <= j < head[i].len() implies (
        #[trigger] head[i][j]) != SEPARATOR by {
            assert(fields[i][j] != SEPARATOR);
        }
        lemma_split_join(head);
        assert forall|j: int| 0 <= j < fields.last().len() implies fields.last()[j]
            != SEPARATOR by {
            assert(fields[fields.len() - 1][j] != SEPARATOR);
        }
        lemma_split_append(join_fields(head), fields.last());
        assert(head.push(fields.last()) =~= fields);
    }
}

/// Only the character U+0001 has the byte `0x01` in its UTF-8 encoding.
proof fn lemma_scalar_has_no_separator(c: char)
    requires
        c != '\u{1}',
    ensures
        ({
            let bytes = encode_scalar(c as u32);
            forall|j: int| 0 <= j < bytes.len() ==> #[trigger] bytes[j] != SEPARATOR
        }),
{
    let v = c as u32;
    assert(v != 1);
    assert(v != 1 && v <= 0x7F ==> (v & 0x7F) as u8 != 1u8) by (bit_vector);
    assert((0xC0u8 | ((v >> 6) & 0x1F) as u8) != 1u8) by (bit_vector);
    assert((0xE0u8 | ((v >> 12) & 0x0F) as u8) != 1u8) by (bit_vector);
    assert((0xF0u8 | ((v >> 18) & 0x7) as u8) != 1u8) by (bit_vector);
    assert((0x80u8 | (v & 0x3F) as u8) != 1u8) by (bit_vector);
    assert((0x80u8 | ((v >> 6) & 0x3F) as u8) != 1u8) by (bit_vector);
    assert((0x80u8 | ((v >> 12) & 0x3F) as u8) != 1u8) by (bit_vector);
}

/// The UTF-8 bytes of text without the separator character hold no
/// separator byte.
pub proof fn lemma_utf8_has_no_separator(text: Seq<char>)
    requires
        forall|j: int| 0 <= j < text.len() ==> text[j] != '\u{1}',
    ensures
        ({
            let bytes = encode_utf8(text);
            forall|j: int| 0 <= j < bytes.len() ==> #[trigger] bytes[j] != SEPARATOR
        }),
    decreases text.len(),
{
    if text.len() > 0 {
        lemma_scalar_has_no_separator(text[0]);
        lemma_utf8_has_no_separator(text.drop_first());
        let first = encode_scalar(text[0] as u32);
        let rest = encode_utf8(text.drop_first());
        let bytes = encode_utf8(text);
        assert forall|j: int| 0 <= j < bytes.len() implies #[trigger] bytes[j] != SEPARATOR by {
            if j < first.len() {
                assert(bytes[j] == first[j]);
            } else {
                assert(bytes[j] == rest[j - first.len()]);
            }
        }
    }
}

/// A frame gives its fields back: the body of the frame that was built from
/// `fields` under any tag splits into exactly these fields, where there is
/// at least one of them, none holds the separator character, and the frame
/// could be built.
pub proof fn lemma_fields_round_trip(tag: u8, fields: Seq<Seq<char>>)
    requires
        fields.len() >= 1,
        free_of_separator(fields),
        encode_spec(tag, fields) is Ok,
    ensures
        ({
            let frame = encode_spec(tag, fields)->Ok_0;
            &&& frame.len() == frame[0] + 1
            &&& frame[0] >= 2
            &&& frame[1] == tag
            &&& body_fields(frame.skip(1), frame[0] as int) == Ok::<
                Seq<Seq<char>>,
                FrameDecodeError,
            >(fields)
        }),
{
    let payload = payload_of(fields);
    let frame = encode_spec(tag, fields)->Ok_0;
    let buffer = frame.skip(1);
    let len = payload.len() + 2;
    assert(frame[0] == len);
    assert(buffer.subrange(1, len - 1) =~= payload);
    let raw = field_bytes(fields);
    assert forall|i: int, j: int| 0 <= i < raw.len() && 0 <= j < raw[i].len() implies (
    #[trigger] raw[i][j]) != SEPARATOR by {
        assert forall|k: int| 0 <= k < fields[i].len() implies fields[i][k] != '\u{1}' by {
            assert(fields[i][k] != '\u{1}');
        }
        lemma_utf8_has_no_separator(fields[i]);
    }
    lemma_split_join(raw);
    assert forall|i: int| 0 <= i < raw.len() implies valid_utf8(#[trigger] raw[i]) by {
        encode_utf8_valid_utf8(fields[i]);
    }
    assert(raw.map_values(|f: Seq<u8>| decode_utf8(f)) =~= fields) by {
        assert forall|i: int| 0 <= i < raw.len() implies decode_utf8(raw[i]) == fields[i] by {
            encode_utf8_decode_utf8(fields[i]);
        }
    }
}

/// Whether a client builds and a server sends packets of this kind, so that
/// a frame of the kind can go both ways through the codec.
pub open spec fn goes_both_ways(kind: PacketKind) -> bool {
    kind == PacketKind::Login || kind == PacketKind::Protocol || kind == PacketKind::Open
}

/// Decoding undoes encoding. For a kind that goes both ways, and fields
/// that are those of the kind and hold no separator character: where the
/// frame can be built with a length under 255, it decodes to the packet of
/// these fields, also behind any number of zero bytes.
pub proof fn lemma_round_trip(kind: PacketKind, fields: Seq<Seq<char>>, padding: nat)
    requires
        goes_both_ways(kind),
        packet_of_fields(kind, fields) is Some,
        free_of_separator(fields),
        payload_of(fields).len() + 2 < MAX_LENGTH,
    ensures
        create_spec(kind, fields) is Ok,
        decode_spec(Seq::new(padding, |i: int| 0u8) + create_spec(kind, fields)->Ok_0) == Ok::<
            PacketView,
            FrameDecodeError,
        >(packet_of_fields(kind, fields)->0),
{
    let frame = create_spec(kind, fields)->Ok_0;
    let zeros = Seq::new(padding, |i: int| 0u8);
    lemma_fields_round_trip(tag_of(kind), fields);
    lemma_decode_skips_zeros(zeros + frame, padding as int);
    assert((zeros + frame).skip(padding as int) =~= frame);
    assert(kind_of_tag(tag_of(kind)) == Some(kind));
    assert(frame.skip(1)[0] == tag_of(kind));
}

/// Bytes that stop before the frame is complete decode to an error and
/// never to a packet: `Malformed` where a length byte under 255 is followed
/// by fewer bytes than it announces, `NoData` where all bytes are zero.
pub proof fn lemma_short_input(bytes: Seq<u8>, zeros: int)
    requires
        0 <= zeros <= bytes.len(),
        forall|j: int| 0 <= j < zeros ==> bytes[j] == 0,
        zeros < bytes.len() ==> bytes[zeros] != 0 && bytes[zeros] != MAX_LENGTH && bytes.len()
            - zeros - 1 < bytes[zeros],
    ensures
        decode_spec(bytes) == if zeros == bytes.len() {
            Err::<PacketView, FrameDecodeError>(FrameDecodeError::NoData)
        } else {
            Err::<PacketView, FrameDecodeError>(FrameDecodeError::Malformed)
        },
{
    lemma_decode_skips_zeros(bytes, zeros);
}

/// Decoding looks at no byte behind the first frame: where the frame is
/// complete, the bytes up to its end decode as all the bytes do.
pub proof fn lemma_decode_within_extent(bytes: Seq<u8>)
    requires
        extent_spec(bytes) is Some,
        extent_spec(bytes)->0 <= bytes.len(),
    ensures
        extent_spec(bytes)->0 >= 2,
        decode_spec(bytes.take(extent_spec(bytes)->0)) == decode_spec(bytes),
    decreases bytes.len(),
{
    let n = extent_spec(bytes)->0;
    if bytes[0] == 0 {
        lemma_decode_within_extent(bytes.drop_first());
        assert(bytes.take(n).drop_first() =~= bytes.drop_first().take(n - 1));
    } else {
        let len = bytes[0] as int;
        let cut = bytes.take(n);
        if len != MAX_LENGTH {
            assert(cut.skip(1).len() == len);
            assert(cut.skip(1)[0] == bytes.skip(1)[0]);
            if len >= 2 {
                assert(cut.skip(1)[len - 1] == bytes.skip(1)[len - 1]);
                assert(cut.skip(1).subrange(1, len - 1) =~= bytes.skip(1).subrange(1, len - 1));
            }
        }
    }
}

} // verus!
