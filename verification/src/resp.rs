//! The RESP wire format of Redis: values, their encoding, and the decoding of
//! replies from the bytes that a connection delivers.
use vstd::prelude::*;
use vstd::string::*;
use vstd::utf8::*;
use vstd::slice::*;
use crate::text::{
    ascii_chars, ascii_string, decimal, parse_i64, parse_i64_bytes, push_decimal,
    push_signed_decimal, signed_decimal, utf8_error_text, utf8_text,
};

verus! {

// ── Errors ─────────────────────────────────────────────────────────────

/// An error of the Redis client. Each variant carries the text that explains it.
#[derive(Debug, Clone)]
pub enum RespError {
    Io(String),
    Protocol(String),
    Redis(String),
    Config(String),
}

pub enum RespErrorView {
    Io(Seq<char>),
    Protocol(Seq<char>),
    Redis(Seq<char>),
    Config(Seq<char>),
}

impl View for RespError {
    type V = RespErrorView;

    open spec fn view(&self) -> RespErrorView {
        match self {
            RespError::Io(m) => RespErrorView::Io(m@),
            RespError::Protocol(m) => RespErrorView::Protocol(m@),
            RespError::Redis(m) => RespErrorView::Redis(m@),
            RespError::Config(m) => RespErrorView::Config(m@),
        }
    }
}

/// The text that describes an error to a person.
pub open spec fn error_text(e: RespErrorView) -> Seq<char> {
    match e {
        RespErrorView::Io(m) => "IO error: "@ + m,
        RespErrorView::Protocol(m) => "Protocol error: "@ + m,
        RespErrorView::Redis(m) => "Redis error: "@ + m,
        RespErrorView::Config(m) => "Config error: "@ + m,
    }
}

impl RespError {
    /// The text that describes the error to a person.
    pub fn to_string(&self) -> (res: String)
        ensures
            res@ == error_text(self@),
    {
        let (head, m) = match self {
            RespError::Io(m) => ("IO error: ", m),
            RespError::Protocol(m) => ("Protocol error: ", m),
            RespError::Redis(m) => ("Redis error: ", m),
            RespError::Config(m) => ("Config error: ", m),
        };
        let mut text = head.to_owned();
        text.append(m.as_str());
        text
    }

    /// Whether the error came from the connection itself.
    pub fn is_io(&self) -> (res: bool)
        ensures
            res == (self@ is Io),
    {
        match self {
            RespError::Io(_) => true,
            _ => false,
        }
    }
}

/// Whether a command whose first sending ended in `first` is sent once
/// more, on a new connection: only after an error of the connection itself.
/// The answer to the second sending is final.
pub fn resend_after(first: &Result<RespValue, RespError>) -> (res: bool)
    ensures
        res == (first matches Err(e) && e@ is Io),
{
    match first {
        Err(e) => e.is_io(),
        Ok(_) => false,
    }
}

// ── Values ─────────────────────────────────────────────────────────────

/// A value of the RESP protocol.
#[derive(Debug)]
pub enum RespValue {
    SimpleString(String),
    Error(String),
    Integer(i64),
    BulkString(Option<Vec<u8>>),
    Array(Option<Vec<RespValue>>),
}

/// A RESP value as mathematics sees it.
pub enum RespValueView {
    SimpleString(Seq<char>),
    Error(Seq<char>),
    Integer(i64),
    BulkString(Option<Seq<u8>>),
    Array(Option<Seq<RespValueView>>),
}

pub open spec fn value_view(v: RespValue) -> RespValueView
    decreases v,
{
    match v {
        RespValue::SimpleString(s) => RespValueView::SimpleString(s@),
        RespValue::Error(s) => RespValueView::Error(s@),
        RespValue::Integer(n) => RespValueView::Integer(n),
        RespValue::BulkString(None) => RespValueView::BulkString(None),
        RespValue::BulkString(Some(d)) => RespValueView::BulkString(Some(d@)),
        RespValue::Array(None) => RespValueView::Array(None),
        RespValue::Array(Some(items)) => RespValueView::Array(Some(items_view(items@))),
    }
}

pub open spec fn items_view(items: Seq<RespValue>) -> Seq<RespValueView>
    decreases items,
{
    if items.len() == 0 {
        Seq::empty()
    } else {
        items_view(items.drop_last()).push(value_view(items.last()))
    }
}

impl View for RespValue {
    type V = RespValueView;

    open spec fn view(&self) -> RespValueView {
        value_view(*self)
    }
}

pub proof fn lemma_items_view(items: Seq<RespValue>)
    ensures
        items_view(items).len() == items.len(),
        forall|i: int| 0 <= i < items.len() ==> #[trigger] items_view(items)[i] == value_view(items[i]),
    decreases items.len(),
{
    if items.len() > 0 {
        lemma_items_view(items.drop_last());
    }
}

pub open spec fn crlf() -> Seq<u8> {
    seq![13u8, 10u8]
}

/// The bytes that stand for `v` on the wire.
pub open spec fn encode_view(v: RespValueView) -> Seq<u8>
    decreases v,
{
    match v {
        RespValueView::SimpleString(s) => seq![43u8] + encode_utf8(s) + crlf(),
        RespValueView::Error(s) => seq![45u8] + encode_utf8(s) + crlf(),
        RespValueView::Integer(n) => seq![58u8] + signed_decimal(n as int) + crlf(),
        RespValueView::BulkString(None) => seq![36u8, 45u8, 49u8] + crlf(),
        RespValueView::BulkString(Some(d)) => seq![36u8] + decimal(d.len()) + crlf() + d + crlf(),
        RespValueView::Array(None) => seq![42u8, 45u8, 49u8] + crlf(),
        RespValueView::Array(Some(items)) => seq![42u8] + decimal(items.len()) + crlf()
            + encode_items(items),
    }
}

/// The encodings of `items`, one after the other.
pub open spec fn encode_items(items: Seq<RespValueView>) -> Seq<u8>
    decreases items,
{
    if items.len() == 0 {
        Seq::empty()
    } else {
        encode_view(items[0]) + encode_items(items.drop_first())
    }
}

pub proof fn lemma_encode_items_push(items: Seq<RespValueView>, v: RespValueView)
    ensures
        encode_items(items.push(v)) == encode_items(items) + encode_view(v),
    decreases items.len(),
{
    if items.len() == 0 {
        assert(items.push(v).drop_first() =~= Seq::<RespValueView>::empty());
        assert(items.push(v)[0] == v);
        assert(encode_items(Seq::<RespValueView>::empty()) == Seq::<u8>::empty());
        assert(encode_items(items.push(v)) == encode_view(v) + encode_items(
            items.push(v).drop_first(),
        ));
        assert(encode_items(items.push(v)) =~= encode_items(items) + encode_view(v));
    } else {
        lemma_encode_items_push(items.drop_first(), v);
        assert(items.push(v).drop_first() =~= items.drop_first().push(v));
        assert(items.push(v)[0] == items[0]);
        assert(encode_items(items.push(v)) == encode_view(items[0]) + encode_items(
            items.drop_first().push(v),
        ));
        assert(encode_items(items) == encode_view(items[0]) + encode_items(items.drop_first()));
        assert(encode_items(items.push(v)) =~= encode_items(items) + encode_view(v));
    }
}

fn push_crlf(buf: &mut Vec<u8>)
    ensures
        final(buf)@ == old(buf)@ + crlf(),
{
    buf.push(13u8);
    buf.push(10u8);
    assert(final(buf)@ =~= old(buf)@ + crlf());
}

fn push_bytes(buf: &mut Vec<u8>, bytes: &[u8])
    ensures
        final(buf)@ == old(buf)@ + bytes@,
{
    let mut i: usize = 0;
    while i < bytes.len()
        invariant
            i <= bytes@.len(),
            buf@ == old(buf)@ + bytes@.take(i as int),
        decreases bytes@.len() - i,
    {
        buf.push(bytes[i]);
        assert(bytes@.take(i + 1) =~= bytes@.take(i as int).push(bytes@[i as int]));
        i = i + 1;
    }
    assert(bytes@.take(i as int) =~= bytes@);
}

impl RespValue {
    /// The text of a simple string, or of a bulk string whose bytes are UTF-8.
    pub fn as_string(&self) -> (res: Option<String>)
        ensures
            match res {
                Some(s) => string_of(self@) == Some(s@),
                None => string_of(self@) is None,
            },
    {
        match self {
            RespValue::SimpleString(s) => Some(s.clone()),
            RespValue::BulkString(Some(data)) => match utf8_text(data.as_slice()) {
                Ok(s) => Some(s),
                Err(_) => None,
            },
            _ => None,
        }
    }

    pub fn as_integer(&self) -> (res: Option<i64>)
        ensures
            res == (match self@ {
                RespValueView::Integer(n) => Some(n),
                _ => None,
            }),
    {
        match self {
            RespValue::Integer(n) => Some(*n),
            _ => None,
        }
    }

    pub fn as_array(&self) -> (res: Option<&Vec<RespValue>>)
        ensures
            res == (match self {
                RespValue::Array(Some(items)) => Some(items),
                _ => None,
            }),
    {
        match self {
            RespValue::Array(Some(arr)) => Some(arr),
            _ => None,
        }
    }

    pub fn is_null(&self) -> (res: bool)
        ensures
            res == (self@ == RespValueView::BulkString(None) || self@ == RespValueView::Array(
                None,
            )),
    {
        match self {
            RespValue::BulkString(None) => true,
            RespValue::Array(None) => true,
            _ => false,
        }
    }

    /// The bytes that stand for the value on the wire.
    pub fn encode(&self) -> (res: Vec<u8>)
        ensures
            res@ == encode_view(self@),
    {
        let mut buf = Vec::new();
        self.encode_into(&mut buf);
        assert(buf@ =~= encode_view(self@));
        buf
    }

    /// Appends the bytes that stand for the value to `buf`.
    pub fn encode_into(&self, buf: &mut Vec<u8>)
        ensures
            final(buf)@ == old(buf)@ + encode_view(self@),
        decreases self,
    {
        match self {
            RespValue::SimpleString(s) => {
                buf.push(43u8);
                push_bytes(buf, s.as_str().as_bytes());
                push_crlf(buf);
            },
            RespValue::Error(s) => {
                buf.push(45u8);
                push_bytes(buf, s.as_str().as_bytes());
                push_crlf(buf);
            },
            RespValue::Integer(n) => {
                buf.push(58u8);
                push_signed_decimal(buf, *n);
                push_crlf(buf);
            },
            RespValue::BulkString(None) => {
                buf.push(36u8);
                buf.push(45u8);
                buf.push(49u8);
                push_crlf(buf);
            },
            RespValue::BulkString(Some(data)) => {
                buf.push(36u8);
                push_decimal(buf, data.len() as u64);
                push_crlf(buf);
                push_bytes(buf, data.as_slice());
                push_crlf(buf);
            },
            RespValue::Array(None) => {
                buf.push(42u8);
                buf.push(45u8);
                buf.push(49u8);
                push_crlf(buf);
            },
            RespValue::Array(Some(items)) => {
                buf.push(42u8);
                push_decimal(buf, items.len() as u64);
                push_crlf(buf);
                let ghost start = buf@;
                proof {
                    lemma_items_view(items@);
                }
                let mut i: usize = 0;
                #[verifier::loop_isolation(false)]
                while i < items.len()
                    invariant
                        i <= items@.len(),
                        items_view(items@).len() == items@.len(),
                        forall|j: int|
                            0 <= j < items@.len() ==> #[trigger] items_view(items@)[j]
                                == value_view(items@[j]),
                        buf@ == start + encode_items(items_view(items@).take(i as int)),
                    decreases items@.len() - i,
                {
                    proof {
                        vstd::std_specs::vec::axiom_vec_index_decreases(*items, i as int);
                        let ghost inner = self->Array_0;
                        assert(decreases_to!(*self => inner));
                        assert(decreases_to!(inner => inner->Some_0));
                        assert(inner->Some_0 == *items);
                        assert(decreases_to!(*self => items[i as int]));
                        lemma_encode_items_push(
                            items_view(items@).take(i as int),
                            items_view(items@)[i as int],
                        );
                        assert(items_view(items@).take(i + 1) =~= items_view(items@).take(
                            i as int,
                        ).push(items_view(items@)[i as int]));
                    }
                    items[i].encode_into(buf);
                    i = i + 1;
                }
                assert(items_view(items@).take(i as int) =~= items_view(items@));
            },
        }
        assert(final(buf)@ =~= old(buf)@ + encode_view(self@));
    }
}

impl Clone for RespValue {
    fn clone(&self) -> (res: Self)
        ensures
            res@ == self@,
        decreases self,
    {
        match self {
            RespValue::SimpleString(s) => RespValue::SimpleString(s.clone()),
            RespValue::Error(s) => RespValue::Error(s.clone()),
            RespValue::Integer(n) => RespValue::Integer(*n),
            RespValue::BulkString(None) => RespValue::BulkString(None),
            RespValue::BulkString(Some(d)) => RespValue::BulkString(Some(slice_to_vec(d.as_slice()))),
            RespValue::Array(None) => RespValue::Array(None),
            RespValue::Array(Some(items)) => {
                proof {
                    lemma_items_view(items@);
                }
                let mut out: Vec<RespValue> = Vec::new();
                let mut i: usize = 0;
                #[verifier::loop_isolation(false)]
                while i < items.len()
                    invariant
                        i <= items@.len(),
                        out@.len() == i,
                        forall|j: int| 0 <= j < i ==> value_view(#[trigger] out@[j]) == value_view(
                            items@[j],
                        ),
                    decreases items@.len() - i,
                {
                    proof {
                        vstd::std_specs::vec::axiom_vec_index_decreases(*items, i as int);
                        let ghost inner = self->Array_0;
                        assert(decreases_to!(*self => inner));
                        assert(decreases_to!(inner => inner->Some_0));
                    }
                    let c = items[i].clone();
                    out.push(c);
                    i = i + 1;
                }
                proof {
                    lemma_items_view(out@);
                    assert(items_view(out@) =~= items_view(items@));
                }
                RespValue::Array(Some(out))
            },
        }
    }
}

/// What `as_string` reads from a value.
pub open spec fn string_of(v: RespValueView) -> Option<Seq<char>> {
    match v {
        RespValueView::SimpleString(s) => Some(s),
        RespValueView::BulkString(Some(d)) => if valid_utf8(d) {
            Some(decode_utf8(d))
        } else {
            None
        },
        _ => None,
    }
}

/// The command `args` as the wire carries it: an array of bulk strings.
pub open spec fn command_value(args: Seq<Seq<u8>>) -> RespValueView {
    RespValueView::Array(Some(args.map_values(|a: Seq<u8>| RespValueView::BulkString(Some(a)))))
}

pub open spec fn args_bytes(args: Seq<&str>) -> Seq<Seq<u8>> {
    args.map_values(|a: &str| a.spec_bytes())
}

/// The bytes of a command, written as an array of bulk strings.
pub fn build_command(args: &[&str]) -> (res: Vec<u8>)
    ensures
        res@ == encode_view(command_value(args_bytes(args@))),
{
    let ghost items = command_value(args_bytes(args@))->Array_0->Some_0;
    let mut buf = Vec::new();
    buf.push(42u8);
    push_decimal(&mut buf, args.len() as u64);
    push_crlf(&mut buf);
    let ghost start = buf@;
    let mut i: usize = 0;
    while i < args.len()
        invariant
            i <= args@.len(),
            items == command_value(args_bytes(args@))->Array_0->Some_0,
            items.len() == args@.len(),
            buf@ == start + encode_items(items.take(i as int)),
        decreases args@.len() - i,
    {
        let arg: &str = args[i];
        let bytes = arg.as_bytes();
        let ghost before = buf@;
        buf.push(36u8);
        push_decimal(&mut buf, bytes.len() as u64);
        push_crlf(&mut buf);
        push_bytes(&mut buf, bytes);
        push_crlf(&mut buf);
        proof {
            assert(items[i as int] == RespValueView::BulkString(Some(bytes@)));
            lemma_encode_items_push(items.take(i as int), items[i as int]);
            assert(items.take(i + 1) =~= items.take(i as int).push(items[i as int]));
            assert(buf@ =~= before + encode_view(items[i as int]));
        }
        i = i + 1;
    }
    assert(items.take(i as int) =~= items);
    assert(buf@ =~= encode_view(command_value(args_bytes(args@))));
    buf
}


// ── Decoding ───────────────────────────────────────────────────────────

/// What reading one value from the front of the bytes of a connection gives.
pub enum Decoded {
    /// The value, and how many bytes it took.
    Complete(RespValue, usize),
    Failed(RespError),
    /// The bytes end before the value does, and more may still come.
    NeedMore,
    /// The first line starts with a character of more than one byte, where
    /// reading the prefix byte of the line cannot split it off.
    PrefixNotAscii,
}

pub enum Decoding {
    Complete(RespValueView, nat),
    Failed(RespErrorView),
    NeedMore,
    PrefixNotAscii,
}

impl View for Decoded {
    type V = Decoding;

    open spec fn view(&self) -> Decoding {
        match self {
            Decoded::Complete(v, n) => Decoding::Complete(v@, *n as nat),
            Decoded::Failed(e) => Decoding::Failed(e@),
            Decoded::NeedMore => Decoding::NeedMore,
            Decoded::PrefixNotAscii => Decoding::PrefixNotAscii,
        }
    }
}

/// The index of the first line feed at or after `from`, if any.
pub open spec fn newline_from(s: Seq<u8>, from: int) -> Option<int>
    decreases s.len() - from,
{
    if from < 0 || from >= s.len() {
        None
    } else if s[from] == 10u8 {
        Some(from)
    } else {
        newline_from(s, from + 1)
    }
}

pub proof fn lemma_newline_from(s: Seq<u8>, from: int)
    requires
        0 <= from,
    ensures
        newline_from(s, from) matches Some(i) ==> from <= i < s.len() && s[i] == 10u8 && forall|
            j: int,
        | from <= j < i ==> s[j] != 10u8,
        newline_from(s, from) is None ==> forall|j: int| from <= j < s.len() ==> s[j] != 10u8,
    decreases s.len() - from,
{
    if from < s.len() && s[from] != 10u8 {
        lemma_newline_from(s, from + 1);
    }
}

/// The length of a line once its `\r\n` or `\n` ending is taken off.
pub open spec fn content_len(line: Seq<u8>) -> int {
    let n = line.len() as int;
    if n >= 2 && line[n - 2] == 13u8 && line[n - 1] == 10u8 {
        n - 2
    } else if n >= 1 && line[n - 1] == 10u8 {
        n - 1
    } else {
        n
    }
}

pub open spec fn hex_digit(d: int) -> char {
    if d < 10 {
        (48 + d) as char
    } else {
        (55 + d) as char
    }
}

/// Two upper-case hexadecimal digits of a byte.
pub open spec fn hex_byte(b: u8) -> Seq<char> {
    seq![hex_digit(b as int / 16), hex_digit(b as int % 16)]
}

/// Reading one value from the front of `s`. When `at_eof` holds, `s` is all
/// that the connection will ever deliver; otherwise more bytes may follow,
/// and where the value would reach past `s` the answer is `NeedMore`.
pub open spec fn decode_value(s: Seq<u8>, at_eof: bool) -> Decoding
    decreases s.len(), 0nat,
{
    let nl = newline_from(s, 0);
    if nl is None && !at_eof {
        Decoding::NeedMore
    } else {
        let ll: int = match nl {
            Some(i) => i + 1,
            None => s.len() as int,
        };
        let line = s.take(ll);
        if ll == 0 {
            Decoding::Failed(RespErrorView::Protocol("Connection closed"@))
        } else if !valid_utf8(line) {
            Decoding::Failed(RespErrorView::Io(utf8_error_text(line)))
        } else if content_len(line) == 0 {
            Decoding::Failed(RespErrorView::Protocol("Empty response line"@))
        } else if s[0] >= 128 {
            Decoding::PrefixNotAscii
        } else {
            let payload = s.subrange(1, content_len(line));
            let text = decode_utf8(payload);
            if s[0] == 43u8 {
                Decoding::Complete(RespValueView::SimpleString(text), ll as nat)
            } else if s[0] == 45u8 {
                Decoding::Complete(RespValueView::Error(text), ll as nat)
            } else if s[0] == 58u8 {
                match parse_i64(payload) {
                    Some(n) => Decoding::Complete(RespValueView::Integer(n), ll as nat),
                    None => Decoding::Failed(RespErrorView::Protocol("Invalid integer: "@ + text)),
                }
            } else if s[0] == 36u8 {
                match parse_i64(payload) {
                    None => Decoding::Failed(
                        RespErrorView::Protocol("Invalid bulk length: "@ + text),
                    ),
                    Some(n) => if n < 0 {
                        Decoding::Complete(RespValueView::BulkString(None), ll as nat)
                    } else if ll + n + 2 <= s.len() {
                        Decoding::Complete(
                            RespValueView::BulkString(Some(s.subrange(ll, ll + n))),
                            (ll + n + 2) as nat,
                        )
                    } else if at_eof {
                        Decoding::Failed(RespErrorView::Io("early eof"@))
                    } else {
                        Decoding::NeedMore
                    },
                }
            } else if s[0] == 42u8 {
                match parse_i64(payload) {
                    None => Decoding::Failed(
                        RespErrorView::Protocol("Invalid array count: "@ + text),
                    ),
                    Some(n) => if n < 0 {
                        Decoding::Complete(RespValueView::Array(None), ll as nat)
                    } else {
                        proof {
                            lemma_newline_from(s, 0);
                        }
                        after_line(ll as nat, decode_items(s.skip(ll), n as nat, at_eof))
                    },
                }
            } else {
                Decoding::Failed(
                    RespErrorView::Protocol("Unknown RESP prefix byte: 0x"@ + hex_byte(s[0])),
                )
            }
        }
    }
}

/// A result read after `used` bytes, counted from before them.
pub open spec fn after_line(used: nat, rest: Decoding) -> Decoding {
    match rest {
        Decoding::Complete(v, m) => Decoding::Complete(v, used + m),
        other => other,
    }
}

/// Items read after `used` bytes, put behind `done`.
pub open spec fn after_items(done: Seq<RespValueView>, used: nat, rest: Decoding) -> Decoding {
    match rest {
        Decoding::Complete(RespValueView::Array(Some(vs)), m) => Decoding::Complete(
            RespValueView::Array(Some(done + vs)),
            used + m,
        ),
        other => other,
    }
}

/// Reading `count` values one after the other from the front of `s`; when
/// all of them are read, the result is the array of them.
pub open spec fn decode_items(s: Seq<u8>, count: nat, at_eof: bool) -> Decoding
    decreases s.len(), count + 1,
{
    if count == 0 {
        Decoding::Complete(RespValueView::Array(Some(Seq::empty())), 0)
    } else {
        match decode_value(s, at_eof) {
            Decoding::Complete(v, n) => if n <= s.len() {
                after_items(seq![v], n, decode_items(s.skip(n as int), (count - 1) as nat, at_eof))
            } else {
                // a complete value never claims more bytes than it was given
                Decoding::NeedMore
            },
            other => other,
        }
    }
}

fn hex_digit_byte(d: u8) -> (res: u8)
    requires
        d < 16,
    ensures
        res < 128,
        res as char == hex_digit(d as int),
{
    if d < 10 {
        48u8 + d
    } else {
        55u8 + d
    }
}

fn message(head: &str, tail: &str) -> (res: String)
    ensures
        res@ == head@ + tail@,
{
    let mut text = head.to_owned();
    text.append(tail);
    text
}

impl RespValue {
    /// Reads one value from the front of `input`, the bytes a connection has
    /// delivered so far; `at_eof` says that the connection has ended.
    #[verifier::rlimit(60)]
    #[verifier::spinoff_prover]
    pub fn decode(input: &[u8], at_eof: bool) -> (res: Decoded)
        ensures
            res@ == decode_value(input@, at_eof),
        decreases input@.len(), 0nat,
    {
        let ghost s = input@;
        let len = input.len();
        let mut i: usize = 0;
        while i < len && input[i] != 10u8
            invariant
                i <= len,
                len == s.len(),
                s == input@,
                newline_from(s, 0) == newline_from(s, i as int),
            decreases len - i,
        {
            i = i + 1;
        }
        let ll: usize = if i < len {
            i + 1
        } else {
            if !at_eof {
                return Decoded::NeedMore;
            }
            len
        };
        let ghost line = s.take(ll as int);
        if ll == 0 {
            return Decoded::Failed(RespError::Protocol("Connection closed".to_owned()));
        }
        let line_bytes = slice_subrange(input, 0, ll);
        assert(line_bytes@ =~= line);
        if let Err(e) = utf8_text(line_bytes) {
            return Decoded::Failed(RespError::Io(e));
        }
        let cl: usize = if ll >= 2 && input[ll - 2] == 13u8 && input[ll - 1] == 10u8 {
            ll - 2
        } else if input[ll - 1] == 10u8 {
            ll - 1
        } else {
            ll
        };
        assert(cl as int == content_len(line));
        if cl == 0 {
            return Decoded::Failed(RespError::Protocol("Empty response line".to_owned()));
        }
        let prefix = input[0];
        if prefix >= 128 {
            return Decoded::PrefixNotAscii;
        }
        let payload = slice_subrange(input, 1, cl);
        proof {
            lemma_payload_utf8(line);
            assert(payload@ =~= line.subrange(1, content_len(line)));
        }
        let text = match utf8_text(payload) {
            Ok(t) => t,
            Err(_) => {
                return Decoded::NeedMore;
            },
        };
        if prefix == 43u8 {
            Decoded::Complete(RespValue::SimpleString(text), ll)
        } else if prefix == 45u8 {
            Decoded::Complete(RespValue::Error(text), ll)
        } else if prefix == 58u8 {
            match parse_i64_bytes(payload) {
                Some(n) => Decoded::Complete(RespValue::Integer(n), ll),
                None => Decoded::Failed(
                    RespError::Protocol(message("Invalid integer: ", text.as_str())),
                ),
            }
        } else if prefix == 36u8 {
            match parse_i64_bytes(payload) {
                None => Decoded::Failed(
                    RespError::Protocol(message("Invalid bulk length: ", text.as_str())),
                ),
                Some(n) => {
                    if n < 0 {
                        Decoded::Complete(RespValue::BulkString(None), ll)
                    } else if (n as u64) <= ((len - ll) as u64) && (len - ll) - (n as usize) >= 2 {
                        let data_end: usize = ll + n as usize;
                        let data = slice_to_vec(slice_subrange(input, ll, data_end));
                        Decoded::Complete(RespValue::BulkString(Some(data)), data_end + 2)
                    } else if at_eof {
                        Decoded::Failed(RespError::Io("early eof".to_owned()))
                    } else {
                        Decoded::NeedMore
                    }
                },
            }
        } else if prefix == 42u8 {
            match parse_i64_bytes(payload) {
                None => Decoded::Failed(
                    RespError::Protocol(message("Invalid array count: ", text.as_str())),
                ),
                Some(n) => {
                    if n < 0 {
                        Decoded::Complete(RespValue::Array(None), ll)
                    } else {
                        let rest = slice_subrange(input, ll, len);
                        assert(rest@ =~= s.skip(ll as int));
                        match RespValue::decode_items(rest, n as u64, at_eof) {
                            Decoded::Complete(v, m) => Decoded::Complete(v, ll + m),
                            other => other,
                        }
                    }
                },
            }
        } else {
            let digits = [hex_digit_byte(prefix / 16), hex_digit_byte(prefix % 16)];
            let hex = ascii_string(&digits);
            assert(ascii_chars(digits@) =~= hex_byte(prefix));
            Decoded::Failed(
                RespError::Protocol(message("Unknown RESP prefix byte: 0x", hex.as_str())),
            )
        }
    }

    /// Reads `count` values one after the other from the front of `input`.
    fn decode_items(input: &[u8], count: u64, at_eof: bool) -> (res: Decoded)
        ensures
            res@ == decode_items(input@, count as nat, at_eof),
            res matches Decoded::Complete(v, m) ==> m <= input@.len(),
        decreases input@.len(), count + 1,
    {
        let ghost s = input@;
        let len = input.len();
        let mut items: Vec<RespValue> = Vec::new();
        let mut pos: usize = 0;
        let mut k: u64 = 0;
        proof {
            match decode_items(s, count as nat, at_eof) {
                Decoding::Complete(RespValueView::Array(Some(vs)), m) => {
                    assert(Seq::<RespValueView>::empty() + vs =~= vs);
                },
                _ => {},
            }
            assert(s.skip(0) =~= s);
        }
        while k < count
            invariant
                k <= count,
                pos <= len,
                len == s.len(),
                s == input@,
                decode_items(s, count as nat, at_eof) == after_items(
                    items_view(items@),
                    pos as nat,
                    decode_items(s.skip(pos as int), (count - k) as nat, at_eof),
                ),
            decreases count - k,
        {
            let rest = slice_subrange(input, pos, len);
            assert(rest@ =~= s.skip(pos as int));
            let r = RespValue::decode(rest, at_eof);
            match r {
                Decoded::Complete(v, n) => {
                    if n > len - pos {
                        return Decoded::NeedMore;
                    }
                    proof {
                        assert(s.skip(pos as int).skip(n as int) =~= s.skip(pos + n));
                        let x = decode_items(s.skip(pos + n), (count - k - 1) as nat, at_eof);
                        assert(items_view(items@.push(v)) == items_view(items@).push(v@)) by {
                            assert(items@.push(v).drop_last() =~= items@);
                        }
                        match x {
                            Decoding::Complete(RespValueView::Array(Some(vs)), m) => {
                                assert(items_view(items@) + (seq![v@] + vs) =~= items_view(
                                    items@,
                                ).push(v@) + vs);
                            },
                            _ => {},
                        }
                    }
                    items.push(v);
                    pos = pos + n;
                    k = k + 1;
                },
                other => {
                    return other;
                },
            }
        }
        proof {
            assert(items_view(items@) + Seq::<RespValueView>::empty() =~= items_view(items@));
        }
        Decoded::Complete(RespValue::Array(Some(items)), pos)
    }
}

proof fn lemma_payload_utf8(line: Seq<u8>)
    requires
        valid_utf8(line),
        line.len() > 0,
        line[0] < 128,
        content_len(line) > 0,
    ensures
        valid_utf8(line.subrange(1, content_len(line))),
{
    let n = line.len() as int;
    let cl = content_len(line);
    reveal_with_fuel(is_char_boundary, 2);
    assert(length_of_first_scalar(line) == 1);
    assert(is_char_boundary(line, 1));
    vstd::utf8::valid_utf8_split(line, 1);
    let t = line.subrange(1, n);
    if cl < n {
        assert(t[cl - 1] == line[cl]);
        vstd::utf8::is_char_boundary_iff_not_is_continuation_byte(t, cl - 1);
    } else {
        vstd::utf8::is_char_boundary_start_end_of_seq(t);
    }
    assert(is_char_boundary(t, cl - 1));
    vstd::utf8::valid_utf8_split(t, cl - 1);
    assert(t.subrange(0, cl - 1) =~= line.subrange(1, cl));
}

} // verus!
