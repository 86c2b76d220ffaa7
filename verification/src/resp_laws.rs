//! What holds between the encoding and the decoding of RESP values.
use vstd::prelude::*;
use vstd::utf8::*;
use crate::resp::{
    content_len, crlf, decode_items, decode_value, encode_items, encode_view, newline_from,
    command_value, Decoding, RespValueView,
};
use crate::text::{
    all_ascii, all_digits, decimal, lemma_ascii_utf8, lemma_decimal_digits,
    law_parse_reads_back_display, parse_i64, signed_decimal,
};

verus! {

/// Values whose encoding reads back as themselves: their simple strings and
/// errors hold no line feed (which would end their line early), and their
/// lengths fit the `i64` in which a reader takes them.
pub open spec fn encodable(v: RespValueView) -> bool
    decreases v,
{
    match v {
        RespValueView::SimpleString(t) => !t.contains('\n'),
        RespValueView::Error(t) => !t.contains('\n'),
        RespValueView::Integer(_) => true,
        RespValueView::BulkString(Some(d)) => d.len() <= i64::MAX,
        RespValueView::BulkString(None) => true,
        RespValueView::Array(Some(items)) => items.len() <= i64::MAX && encodable_items(items),
        RespValueView::Array(None) => true,
    }
}

pub open spec fn encodable_items(items: Seq<RespValueView>) -> bool
    decreases items,
{
    items.len() > 0 ==> encodable(items[0]) && encodable_items(items.drop_first())
}

pub open spec fn no_line_feed(bytes: Seq<u8>) -> bool {
    forall|i: int| 0 <= i < bytes.len() ==> #[trigger] bytes[i] != 10u8
}

proof fn lemma_high_bytes(x: u8)
    ensures
        (0x80u8 | x) >= 0x80u8,
        (0xC0u8 | x) >= 0x80u8,
        (0xE0u8 | x) >= 0x80u8,
        (0xF0u8 | x) >= 0x80u8,
{
    assert((0x80u8 | x) >= 0x80u8) by (bit_vector);
    assert((0xC0u8 | x) >= 0x80u8) by (bit_vector);
    assert((0xE0u8 | x) >= 0x80u8) by (bit_vector);
    assert((0xF0u8 | x) >= 0x80u8) by (bit_vector);
}

proof fn lemma_scalar_no_line_feed(c: char)
    requires
        c != '\n',
    ensures
        no_line_feed(encode_scalar(c as u32)),
{
    let v = c as u32;
    vstd::utf8::char_is_scalar(c);
    if has_width_1_encoding(v) {
        assert((v & 0x7F) as u8 == v) by (bit_vector)
            requires
                v <= 0x7F,
        ;
        assert(v != 10) by {
            vstd::utf8::char_u32_cast(c, v);
        }
    } else {
        lemma_high_bytes(((v >> 6) & 0x1F) as u8);
        lemma_high_bytes(((v >> 12) & 0x0F) as u8);
        lemma_high_bytes(((v >> 18) & 0x7) as u8);
        lemma_high_bytes((v & 0x3F) as u8);
        lemma_high_bytes(((v >> 6) & 0x3F) as u8);
        lemma_high_bytes(((v >> 12) & 0x3F) as u8);
    }
}

/// Text without a line feed encodes to bytes without one.
pub proof fn lemma_utf8_no_line_feed(t: Seq<char>)
    requires
        !t.contains('\n'),
    ensures
        no_line_feed(encode_utf8(t)),
    decreases t.len(),
{
    if t.len() > 0 {
        assert(t[0] != '\n') by {
            if t[0] == '\n' {
                assert(t.contains('\n'));
            }
        }
        assert(!t.drop_first().contains('\n')) by {
            if t.drop_first().contains('\n') {
                let i = choose|i: int| 0 <= i < t.drop_first().len() && t.drop_first()[i] == '\n';
                assert(t[i + 1] == '\n');
            }
        }
        lemma_scalar_no_line_feed(t[0]);
        lemma_utf8_no_line_feed(t.drop_first());
        let a = encode_scalar(t[0] as u32);
        let b = encode_utf8(t.drop_first());
        assert(encode_utf8(t) == a + b);
        assert forall|i: int| 0 <= i < (a + b).len() implies #[trigger] (a + b)[i] != 10u8 by {
            if i < a.len() {
                assert((a + b)[i] == a[i]);
            } else {
                assert((a + b)[i] == b[i - a.len()]);
            }
        }
    }
}

proof fn lemma_newline_at(s: Seq<u8>, from: int, k: int)
    requires
        0 <= from <= k < s.len(),
        s[k] == 10u8,
        forall|j: int| from <= j < k ==> s[j] != 10u8,
    ensures
        newline_from(s, from) == Some(k),
    decreases k - from,
{
    if from < k {
        lemma_newline_at(s, from + 1, k);
    }
}

/// A line made of an ASCII prefix byte, a body without line feed, and `\r\n`,
/// followed by anything, reads as that line.
proof fn lemma_line(p: u8, body: Seq<u8>, rest: Seq<u8>)
    requires
        p < 128,
        p != 10,
        no_line_feed(body),
        valid_utf8(body),
    ensures
        ({
            let line = seq![p] + body + crlf();
            let s = line + rest;
            &&& newline_from(s, 0) == Some(body.len() as int + 2)
            &&& s.take(body.len() as int + 3) == line
            &&& valid_utf8(line)
            &&& content_len(line) == body.len() as int + 1
            &&& s.subrange(1, body.len() as int + 1) == body
            &&& s[0] == p
            &&& s.skip(body.len() as int + 3) == rest
        }),
{
    let line = seq![p] + body + crlf();
    let s = line + rest;
    let k: int = body.len() as int + 2;
    assert(s[k] == 10u8);
    assert forall|j: int| 0 <= j < k implies s[j] != 10u8 by {
        if j == 0 {
        } else if j < body.len() as int + 1 {
            assert(s[j] == body[j - 1]);
        } else {
            assert(s[j] == 13u8);
        }
    }
    lemma_newline_at(s, 0, k);
    assert(s.take(body.len() as int + 3) =~= line);
    lemma_ascii_utf8(seq![p]);
    lemma_ascii_utf8(crlf());
    vstd::utf8::valid_utf8_concat(seq![p], body);
    vstd::utf8::valid_utf8_concat(seq![p] + body, crlf());
    assert(s.subrange(1, body.len() as int + 1) =~= body);
    assert(s.skip(body.len() as int + 3) =~= rest);
}

proof fn lemma_digits_line(n: nat)
    ensures
        no_line_feed(decimal(n)),
        valid_utf8(decimal(n)),
        decode_utf8(decimal(n)).len() == decimal(n).len(),
{
    lemma_decimal_digits(n);
    lemma_ascii_utf8(decimal(n));
    assert forall|i: int| 0 <= i < decimal(n).len() implies #[trigger] decimal(n)[i] != 10u8 by {
        assert(crate::text::is_ascii_digit(decimal(n)[i]));
    }
}

proof fn lemma_parse_length(n: nat)
    requires
        n <= i64::MAX,
    ensures
        parse_i64(decimal(n)) == Some(n as i64),
{
    law_parse_reads_back_display(n as int);
}

proof fn lemma_minus_one()
    ensures
        parse_i64(seq![45u8, 49u8]) == Some(-1i64),
        no_line_feed(seq![45u8, 49u8]),
        valid_utf8(seq![45u8, 49u8]),
{
    law_parse_reads_back_display(-1);
    assert(decimal(1) =~= seq![49u8]);
    assert(signed_decimal(-1) =~= seq![45u8, 49u8]);
    lemma_ascii_utf8(seq![45u8, 49u8]);
}

/// Reading back the encoding of a value gives the value, and takes exactly the
/// bytes of its encoding, whatever follows them and whether or not the
/// connection has ended there.
#[verifier::spinoff_prover]
pub proof fn law_decode_reads_back_encode(v: RespValueView, rest: Seq<u8>, at_eof: bool)
    requires
        encodable(v),
    ensures
        decode_value(encode_view(v) + rest, at_eof) == Decoding::Complete(
            v,
            encode_view(v).len(),
        ),
    decreases v,
{
    match v {
        RespValueView::SimpleString(t) => lemma_decode_text(43u8, t, rest, at_eof),
        RespValueView::Error(t) => lemma_decode_text(45u8, t, rest, at_eof),
        RespValueView::Integer(n) => lemma_decode_integer(n, rest, at_eof),
        RespValueView::BulkString(None) => lemma_decode_null(36u8, rest, at_eof),
        RespValueView::BulkString(Some(d)) => lemma_decode_bulk(d, rest, at_eof),
        RespValueView::Array(None) => lemma_decode_null(42u8, rest, at_eof),
        RespValueView::Array(Some(items)) => {
            let s = encode_view(v) + rest;
            let body = decimal(items.len());
            lemma_digits_line(items.len());
            lemma_parse_length(items.len());
            let after = encode_items(items) + rest;
            lemma_line(42u8, body, after);
            assert(s =~= seq![42u8] + body + crlf() + after);
            law_decode_reads_back_items(items, rest, at_eof);
        },
    }
}

#[verifier::spinoff_prover]
proof fn lemma_decode_text(p: u8, t: Seq<char>, rest: Seq<u8>, at_eof: bool)
    requires
        p == 43u8 || p == 45u8,
        !t.contains('\n'),
    ensures
        ({
            let v = if p == 43u8 {
                RespValueView::SimpleString(t)
            } else {
                RespValueView::Error(t)
            };
            decode_value(encode_view(v) + rest, at_eof) == Decoding::Complete(
                v,
                encode_view(v).len(),
            )
        }),
{
    let v = if p == 43u8 {
        RespValueView::SimpleString(t)
    } else {
        RespValueView::Error(t)
    };
    let s = encode_view(v) + rest;
    lemma_utf8_no_line_feed(t);
    vstd::utf8::encode_utf8_valid_utf8(t);
    vstd::utf8::encode_utf8_decode_utf8(t);
    lemma_line(p, encode_utf8(t), rest);
    assert(s =~= seq![p] + encode_utf8(t) + crlf() + rest);
}

#[verifier::rlimit(50)]
#[verifier::spinoff_prover]
proof fn lemma_decode_integer(n: i64, rest: Seq<u8>, at_eof: bool)
    ensures
        decode_value(encode_view(RespValueView::Integer(n)) + rest, at_eof) == Decoding::Complete(
            RespValueView::Integer(n),
            encode_view(RespValueView::Integer(n)).len(),
        ),
{
    let s = encode_view(RespValueView::Integer(n)) + rest;
    let body = signed_decimal(n as int);
    law_parse_reads_back_display(n as int);
    if n < 0 {
        lemma_decimal_digits((-n) as nat);
        lemma_minus_digits((-n) as nat);
    } else {
        lemma_digits_line(n as nat);
    }
    lemma_line(58u8, body, rest);
    assert(s =~= seq![58u8] + body + crlf() + rest);
}

#[verifier::spinoff_prover]
proof fn lemma_decode_null(p: u8, rest: Seq<u8>, at_eof: bool)
    requires
        p == 36u8 || p == 42u8,
    ensures
        ({
            let v = if p == 36u8 {
                RespValueView::BulkString(None)
            } else {
                RespValueView::Array(None)
            };
            decode_value(encode_view(v) + rest, at_eof) == Decoding::Complete(
                v,
                encode_view(v).len(),
            )
        }),
{
    let v = if p == 36u8 {
        RespValueView::BulkString(None)
    } else {
        RespValueView::Array(None)
    };
    let s = encode_view(v) + rest;
    lemma_minus_one();
    lemma_line(p, seq![45u8, 49u8], rest);
    assert(s =~= seq![p] + seq![45u8, 49u8] + crlf() + rest);
}

#[verifier::spinoff_prover]
proof fn lemma_decode_bulk(d: Seq<u8>, rest: Seq<u8>, at_eof: bool)
    requires
        d.len() <= i64::MAX,
    ensures
        decode_value(encode_view(RespValueView::BulkString(Some(d))) + rest, at_eof)
            == Decoding::Complete(
            RespValueView::BulkString(Some(d)),
            encode_view(RespValueView::BulkString(Some(d))).len(),
        ),
{
    let s = encode_view(RespValueView::BulkString(Some(d))) + rest;
    let body = decimal(d.len());
    lemma_digits_line(d.len());
    lemma_parse_length(d.len());
    let after = d + crlf() + rest;
    lemma_line(36u8, body, after);
    assert(s =~= seq![36u8] + body + crlf() + after);
    let ll: int = body.len() as int + 3;
    assert(s.subrange(ll, ll + d.len() as int) =~= d);
}

proof fn lemma_minus_digits(n: nat)
    requires
        all_digits(decimal(n)),
        all_ascii(decimal(n)),
    ensures
        no_line_feed(seq![45u8] + decimal(n)),
        valid_utf8(seq![45u8] + decimal(n)),
{
    let b = seq![45u8] + decimal(n);
    assert forall|i: int| 0 <= i < b.len() implies #[trigger] b[i] != 10u8 by {
        if i > 0 {
            assert(b[i] == decimal(n)[i - 1]);
            assert(crate::text::is_ascii_digit(decimal(n)[i - 1]));
        }
    }
    assert(all_ascii(b)) by {
        assert forall|i: int| 0 <= i < b.len() implies #[trigger] b[i] < 128 by {
            if i > 0 {
                assert(b[i] == decimal(n)[i - 1]);
            }
        }
    }
    lemma_ascii_utf8(b);
}

/// Reading back the encodings of items, one after the other, gives the items.
pub proof fn law_decode_reads_back_items(items: Seq<RespValueView>, rest: Seq<u8>, at_eof: bool)
    requires
        encodable_items(items),
    ensures
        decode_items(encode_items(items) + rest, items.len(), at_eof) == Decoding::Complete(
            RespValueView::Array(Some(items)),
            encode_items(items).len(),
        ),
    decreases items,
{
    let s = encode_items(items) + rest;
    if items.len() == 0 {
        assert(items =~= Seq::<RespValueView>::empty());
    } else {
        let head = items[0];
        let tail = items.drop_first();
        let after = encode_items(tail) + rest;
        assert(s =~= encode_view(head) + after);
        law_decode_reads_back_encode(head, after, at_eof);
        let n = encode_view(head).len();
        assert(s.skip(n as int) =~= after);
        law_decode_reads_back_items(tail, rest, at_eof);
        assert(seq![head] + tail =~= items);
    }
}

/// A command written by `build_command` reads back as the array of its
/// arguments, each as a bulk string.
pub proof fn law_command_reads_back(args: Seq<Seq<u8>>, rest: Seq<u8>, at_eof: bool)
    requires
        args.len() <= i64::MAX,
        forall|i: int| 0 <= i < args.len() ==> (#[trigger] args[i]).len() <= i64::MAX,
    ensures
        decode_value(encode_view(command_value(args)) + rest, at_eof) == Decoding::Complete(
            command_value(args),
            encode_view(command_value(args)).len(),
        ),
{
    let items = args.map_values(|a: Seq<u8>| RespValueView::BulkString(Some(a)));
    lemma_bulk_items_encodable(items);
    law_decode_reads_back_encode(command_value(args), rest, at_eof);
}

proof fn lemma_bulk_items_encodable(items: Seq<RespValueView>)
    requires
        forall|i: int|
            0 <= i < items.len() ==> (#[trigger] items[i] matches RespValueView::BulkString(
                Some(d),
            ) && d.len() <= i64::MAX),
    ensures
        encodable_items(items),
    decreases items.len(),
{
    if items.len() > 0 {
        assert(items[0] matches RespValueView::BulkString(Some(d)) && d.len() <= i64::MAX);
        let d = items[0]->BulkString_0->Some_0;
        assert(items[0] == RespValueView::BulkString(Some(d)));
        assert(encodable(items[0]));
        assert forall|i: int| 0 <= i < items.drop_first().len() implies (
        #[trigger] items.drop_first()[i] matches RespValueView::BulkString(Some(d)) && d.len()
            <= i64::MAX) by {
            assert(items.drop_first()[i] == items[i + 1]);
        }
        lemma_bulk_items_encodable(items.drop_first());
    }
}


proof fn lemma_newline_prefix(s: Seq<u8>, rest: Seq<u8>, from: int)
    requires
        0 <= from,
        newline_from(s, from) is Some,
    ensures
        newline_from(s + rest, from) == newline_from(s, from),
    decreases s.len() - from,
{
    if from < s.len() && s[from] != 10u8 {
        lemma_newline_prefix(s, rest, from + 1);
    }
}

/// Once the bytes received so far decide a value (or an error), more bytes
/// change nothing: reading from a longer input, ended or not, gives the
/// same. So a reader may read again after each arrival of bytes, until the
/// answer is no longer `NeedMore`.
#[verifier::spinoff_prover]
pub proof fn law_decided_prefix_stays(s: Seq<u8>, rest: Seq<u8>, at_eof: bool)
    requires
        !(decode_value(s, false) is NeedMore),
    ensures
        decode_value(s + rest, at_eof) == decode_value(s, false),
    decreases s.len(), 0nat,
{
    let t = s + rest;
    crate::resp::lemma_newline_from(s, 0);
    lemma_newline_prefix(s, rest, 0);
    let i = newline_from(s, 0)->Some_0;
    let ll = i + 1;
    assert(t.take(ll) =~= s.take(ll));
    let line = s.take(ll);
    if valid_utf8(line) && content_len(line) > 0 && s[0] < 128 {
        let cl = content_len(line);
        assert(t.subrange(1, cl) =~= s.subrange(1, cl));
        assert(t[0] == s[0]);
        let payload = s.subrange(1, cl);
        if s[0] == 36u8 {
            match parse_i64(payload) {
                Some(n) => {
                    if n >= 0 && ll + n + 2 <= s.len() {
                        assert(t.subrange(ll, ll + n) =~= s.subrange(ll, ll + n));
                    }
                },
                None => {},
            }
        } else if s[0] == 42u8 {
            match parse_i64(payload) {
                Some(n) => {
                    if n >= 0 {
                        assert(t.skip(ll) =~= s.skip(ll) + rest);
                        law_decided_items_stay(s.skip(ll), rest, n as nat, at_eof);
                    }
                },
                None => {},
            }
        }
    }
}

/// The same for a run of values.
pub proof fn law_decided_items_stay(s: Seq<u8>, rest: Seq<u8>, count: nat, at_eof: bool)
    requires
        !(decode_items(s, count, false) is NeedMore),
    ensures
        decode_items(s + rest, count, at_eof) == decode_items(s, count, false),
    decreases s.len(), count + 1,
{
    if count > 0 {
        law_decided_prefix_stays(s, rest, at_eof);
        match decode_value(s, false) {
            Decoding::Complete(v, n) => {
                if n <= s.len() {
                    assert((s + rest).skip(n as int) =~= s.skip(n as int) + rest);
                    law_decided_items_stay(s.skip(n as int), rest, (count - 1) as nat, at_eof);
                }
            },
            _ => {},
        }
    }
}

} // verus!
