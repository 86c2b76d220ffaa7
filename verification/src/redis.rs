//! The Redis client above the wire format: its configuration, the commands it
//! sends, and what it makes of the replies.
use vstd::prelude::*;
use vstd::string::*;
use vstd::utf8::*;
use crate::resp::{
    build_command, command_value, encode_view, string_of, RespError, RespErrorView, RespValue,
    RespValueView, args_bytes, value_view,
};
use crate::text::{
    ascii_chars, ascii_string, decimal, lemma_decimal_digits, push_decimal, push_signed_decimal,
    signed_decimal,
};

verus! {

// ── Text helpers ───────────────────────────────────────────────────────

/// The digits of `n`, as `Display` writes them.
pub fn u64_text(n: u64) -> (res: String)
    ensures
        res@ == ascii_chars(decimal(n as nat)),
{
    let mut bytes = Vec::new();
    push_decimal(&mut bytes, n);
    proof {
        lemma_decimal_digits(n as nat);
        assert(bytes@ =~= decimal(n as nat));
    }
    ascii_string(bytes.as_slice())
}

/// The text of `n`, as `Display` writes it.
pub fn i64_text(n: i64) -> (res: String)
    ensures
        res@ == ascii_chars(signed_decimal(n as int)),
{
    let mut bytes = Vec::new();
    push_signed_decimal(&mut bytes, n);
    proof {
        let m: nat = if n < 0 {
            (-n) as nat
        } else {
            n as nat
        };
        lemma_decimal_digits(m);
        assert(bytes@ =~= signed_decimal(n as int));
        assert forall|i: int| 0 <= i < bytes@.len() implies #[trigger] bytes@[i] < 128 by {
            if n < 0 && i > 0 {
                assert(bytes@[i] == decimal(m)[i - 1]);
            }
        }
    }
    ascii_string(bytes.as_slice())
}

/// Whether two texts are the same.
pub fn same_text(a: &str, b: &str) -> (res: bool)
    ensures
        res == (a@ == b@),
{
    let x = a.as_bytes();
    let y = b.as_bytes();
    proof {
        vstd::utf8::encode_utf8_decode_utf8(a@);
        vstd::utf8::encode_utf8_decode_utf8(b@);
    }
    assert(x@ == encode_utf8(a@) && y@ == encode_utf8(b@));
    if x.len() != y.len() {
        return false;
    }
    let mut i: usize = 0;
    while i < x.len()
        invariant
            x@ == encode_utf8(a@),
            y@ == encode_utf8(b@),
            decode_utf8(encode_utf8(a@)) == a@,
            decode_utf8(encode_utf8(b@)) == b@,
            i <= x@.len(),
            x@.len() == y@.len(),
            forall|j: int| 0 <= j < i ==> x@[j] == y@[j],
        decreases x@.len() - i,
    {
        if x[i] != y[i] {
            return false;
        }
        i = i + 1;
    }
    assert(x@ =~= y@);
    true
}

// ── Configuration ──────────────────────────────────────────────────────

/// Where the Redis server is and how to log in to it.
#[derive(Debug, Clone)]
pub struct RedisConfig {
    pub host: String,
    pub port: u16,
    pub password: Option<String>,
    pub db: u8,
}

pub fn default_host() -> (res: String)
    ensures
        res@ == "127.0.0.1"@,
{
    "127.0.0.1".to_owned()
}

pub fn default_port() -> (res: u16)
    ensures
        res == 6379,
{
    6379
}

impl Default for RedisConfig {
    fn default() -> (res: Self)
        ensures
            res.host@ == "127.0.0.1"@,
            res.port == 6379,
            res.password is None,
            res.db == 0,
    {
        RedisConfig { host: default_host(), port: default_port(), password: None, db: 0 }
    }
}

/// What became of reading the configuration file `redis.json`.
pub enum ConfigFile {
    /// The file was read and parsed into a configuration.
    Parsed(RedisConfig),
    /// The file was read, and the parser refused it with this message.
    Unparsable(String),
    /// There is no such file.
    Missing,
    /// The file could not be read, for the reason in this message.
    Unreadable(String),
}

impl RedisConfig {
    /// The configuration that the file gives: its content when it parses, the
    /// default one when there is no file, an error otherwise.
    pub fn load(file: ConfigFile) -> (res: Result<RedisConfig, RespError>)
        ensures
            match file {
                ConfigFile::Parsed(c) => res == Ok::<RedisConfig, RespError>(c),
                ConfigFile::Missing => res matches Ok(c) && c.host@ == "127.0.0.1"@ && c.port
                    == 6379 && c.password is None && c.db == 0,
                ConfigFile::Unparsable(m) => res matches Err(e) && e@ == RespErrorView::Config(
                    "Failed to parse redis.json: "@ + m@,
                ),
                ConfigFile::Unreadable(m) => res matches Err(e) && e@ == RespErrorView::Config(
                    "Failed to read redis.json: "@ + m@,
                ),
            },
    {
        match file {
            ConfigFile::Parsed(c) => Ok(c),
            ConfigFile::Missing => Ok(RedisConfig::default()),
            ConfigFile::Unparsable(m) => {
                let mut text = "Failed to parse redis.json: ".to_owned();
                text.append(m.as_str());
                Err(RespError::Config(text))
            },
            ConfigFile::Unreadable(m) => {
                let mut text = "Failed to read redis.json: ".to_owned();
                text.append(m.as_str());
                Err(RespError::Config(text))
            },
        }
    }

    /// The commands that open a session: a login when there is a password,
    /// then the choice of database when it is not the first one.
    pub fn handshake(&self) -> (res: Vec<Command>)
        ensures
            res@ == handshake_spec(*self),
    {
        let mut steps = Vec::new();
        match &self.password {
            Some(p) => steps.push(Command::Auth(p.clone())),
            None => {},
        }
        if self.db != 0 {
            steps.push(Command::Select(self.db));
        }
        assert(steps@ =~= handshake_spec(*self));
        steps
    }
}

pub open spec fn handshake_spec(c: RedisConfig) -> Seq<Command> {
    let auth = match c.password {
        Some(p) => seq![Command::Auth(p)],
        None => Seq::empty(),
    };
    if c.db != 0 {
        auth.push(Command::Select(c.db))
    } else {
        auth
    }
}

/// A session logs in exactly when a password is configured, with that
/// password, before anything else; it chooses the database exactly when it
/// is not the first one, whether or not there is a password, and last.
pub proof fn law_handshake_steps(c: RedisConfig)
    ensures
        handshake_spec(c).len() == (if c.password is Some { 1int } else { 0int }) + (if c.db
            != 0 {
            1int
        } else {
            0int
        }),
        forall|p: String| c.password == Some(p) ==> handshake_spec(c)[0] == Command::Auth(p),
        c.db != 0 ==> handshake_spec(c).last() == Command::Select(c.db),
        forall|i: int|
            0 <= i < handshake_spec(c).len() ==> (#[trigger] handshake_spec(c)[i] is Auth
                ==> c.password is Some) && (handshake_spec(c)[i] is Select ==> c.db != 0),
{
}

// ── Commands ───────────────────────────────────────────────────────────

/// A command that the client sends.
#[derive(Debug, Clone)]
pub enum Command {
    Ping,
    Auth(String),
    Select(u8),
    SetString(String, String),
    Get(String),
    Del(String),
    SetEx(String, u64, String),
    Expire(String, u64),
    Incr(String),
    IncrBy(String, i64),
    LPush(String, String),
    LRange(String, i64, i64),
}

pub open spec fn nat_text(n: nat) -> Seq<char> {
    ascii_chars(decimal(n))
}

pub open spec fn int_text(n: int) -> Seq<char> {
    ascii_chars(signed_decimal(n))
}

/// The words of a command: its name, then its arguments.
pub open spec fn command_args(c: Command) -> Seq<Seq<char>> {
    match c {
        Command::Ping => seq!["PING"@],
        Command::Auth(p) => seq!["AUTH"@, p@],
        Command::Select(db) => seq!["SELECT"@, nat_text(db as nat)],
        Command::SetString(k, v) => seq!["SET"@, k@, v@],
        Command::Get(k) => seq!["GET"@, k@],
        Command::Del(k) => seq!["DEL"@, k@],
        Command::SetEx(k, secs, v) => seq!["SETEX"@, k@, nat_text(secs as nat), v@],
        Command::Expire(k, secs) => seq!["EXPIRE"@, k@, nat_text(secs as nat)],
        Command::Incr(k) => seq!["INCR"@, k@],
        Command::IncrBy(k, inc) => seq!["INCRBY"@, k@, int_text(inc as int)],
        Command::LPush(k, v) => seq!["LPUSH"@, k@, v@],
        Command::LRange(k, start, stop) => seq![
            "LRANGE"@,
            k@,
            int_text(start as int),
            int_text(stop as int),
        ],
    }
}

pub open spec fn words_view(words: Seq<String>) -> Seq<Seq<char>> {
    words.map_values(|w: String| w@)
}

pub open spec fn words_bytes(words: Seq<Seq<char>>) -> Seq<Seq<u8>> {
    words.map_values(|w: Seq<char>| encode_utf8(w))
}

fn words(list: Vec<&str>, extra: Vec<String>) -> (res: Vec<String>)
    ensures
        words_view(res@) == list@.map_values(|w: &str| w@) + words_view(extra@),
{
    let mut out: Vec<String> = Vec::new();
    let mut i: usize = 0;
    while i < list.len()
        invariant
            i <= list@.len(),
            words_view(out@) == list@.take(i as int).map_values(|w: &str| w@),
        decreases list@.len() - i,
    {
        let ghost before = out@;
        let w: String = list[i].to_owned();
        assert(w@ == list@[i as int]@);
        out.push(w);
        assert(list@.take(i + 1) =~= list@.take(i as int).push(list@[i as int]));
        assert(words_view(out@) =~= words_view(before).push(w@));
        assert(words_view(out@) =~= list@.take(i + 1).map_values(|w: &str| w@));
        i = i + 1;
    }
    assert(list@.take(i as int) =~= list@);
    let ghost head = out@;
    let mut j: usize = 0;
    while j < extra.len()
        invariant
            j <= extra@.len(),
            words_view(head) == list@.map_values(|w: &str| w@),
            words_view(out@) == words_view(head) + words_view(extra@.take(j as int)),
        decreases extra@.len() - j,
    {
        let ghost before = out@;
        let w: String = extra[j].clone();
        out.push(w);
        assert(extra@.take(j + 1) =~= extra@.take(j as int).push(extra@[j as int]));
        assert(words_view(out@) =~= words_view(before).push(w@));
        assert(words_view(extra@.take(j + 1)) =~= words_view(extra@.take(j as int)).push(w@));
        assert(words_view(out@) =~= words_view(head) + words_view(extra@.take(j + 1)));
        j = j + 1;
    }
    assert(extra@.take(j as int) =~= extra@);
    out
}

impl Command {
    /// The words of the command: its name, then its arguments.
    pub fn args(&self) -> (res: Vec<String>)
        ensures
            words_view(res@) == command_args(*self),
    {
        let (names, extra): (Vec<&str>, Vec<String>) = match self {
            Command::Ping => (vec!["PING"], Vec::new()),
            Command::Auth(p) => (vec!["AUTH"], vec![p.clone()]),
            Command::Select(db) => (vec!["SELECT"], vec![u64_text(*db as u64)]),
            Command::SetString(k, v) => (vec!["SET"], vec![k.clone(), v.clone()]),
            Command::Get(k) => (vec!["GET"], vec![k.clone()]),
            Command::Del(k) => (vec!["DEL"], vec![k.clone()]),
            Command::SetEx(k, secs, v) => (
                vec!["SETEX"],
                vec![k.clone(), u64_text(*secs), v.clone()],
            ),
            Command::Expire(k, secs) => (vec!["EXPIRE"], vec![k.clone(), u64_text(*secs)]),
            Command::Incr(k) => (vec!["INCR"], vec![k.clone()]),
            Command::IncrBy(k, inc) => (vec!["INCRBY"], vec![k.clone(), i64_text(*inc)]),
            Command::LPush(k, v) => (vec!["LPUSH"], vec![k.clone(), v.clone()]),
            Command::LRange(k, start, stop) => (
                vec!["LRANGE"],
                vec![k.clone(), i64_text(*start), i64_text(*stop)],
            ),
        };
        let res = words(names, extra);
        assert(words_view(res@) =~= command_args(*self));
        res
    }

    /// The bytes that send the command: the array of its words, each as a
    /// bulk string.
    pub fn to_bytes(&self) -> (res: Vec<u8>)
        ensures
            res@ == encode_view(command_value(words_bytes(command_args(*self)))),
    {
        let words = self.args();
        let mut refs: Vec<&str> = Vec::new();
        let mut i: usize = 0;
        while i < words.len()
            invariant
                i <= words@.len(),
                refs@.len() == i,
                forall|j: int| 0 <= j < i ==> (#[trigger] refs@[j])@ == words@[j]@,
            decreases words@.len() - i,
        {
            refs.push(words[i].as_str());
            i = i + 1;
        }
        let res = build_command(refs.as_slice());
        assert(args_bytes(refs@) =~= words_bytes(command_args(*self))) by {
            assert(words_view(words@) == command_args(*self));
            assert forall|j: int| 0 <= j < refs@.len() implies #[trigger] args_bytes(refs@)[j]
                == words_bytes(command_args(*self))[j] by {
                assert(words_view(words@)[j] == words@[j]@);
            }
        }
        res
    }
}

// ── Replies ────────────────────────────────────────────────────────────

/// The texts of the items of an array that `as_string` can read, in order.
pub open spec fn strings_of(items: Seq<RespValueView>) -> Seq<Seq<char>>
    decreases items.len(),
{
    if items.len() == 0 {
        Seq::empty()
    } else {
        let head = strings_of(items.drop_last());
        match string_of(items.last()) {
            Some(s) => head.push(s),
            None => head,
        }
    }
}

impl RespValue {
    /// A reply as a result: an error reply becomes a Redis error.
    pub fn into_reply(self) -> (res: Result<RespValue, RespError>)
        ensures
            match self@ {
                RespValueView::Error(m) => res matches Err(e) && e@ == RespErrorView::Redis(m),
                _ => res matches Ok(v) && v@ == self@,
            },
    {
        match self {
            RespValue::Error(e) => Err(RespError::Redis(e)),
            other => Ok(other),
        }
    }

    /// Whether the reply is the `PONG` that answers a `PING`.
    pub fn is_pong(&self) -> (res: bool)
        ensures
            res == (self@ == RespValueView::SimpleString("PONG"@)),
    {
        match self {
            RespValue::SimpleString(s) => same_text(s.as_str(), "PONG"),
            _ => false,
        }
    }

    /// The integer of an integer reply, and 0 for any other reply.
    pub fn integer_or_zero(&self) -> (res: i64)
        ensures
            res == (match self@ {
                RespValueView::Integer(n) => n,
                _ => 0,
            }),
    {
        match self.as_integer() {
            Some(n) => n,
            None => 0,
        }
    }

    /// The texts of the items of an array reply that are strings, in order;
    /// nothing for any other reply.
    pub fn string_items(&self) -> (res: Vec<String>)
        ensures
            words_view(res@) == (match self@ {
                RespValueView::Array(Some(items)) => strings_of(items),
                _ => Seq::empty(),
            }),
    {
        match self.as_array() {
            Some(items) => {
                proof {
                    crate::resp::lemma_items_view(items@);
                }
                let mut out: Vec<String> = Vec::new();
                let mut i: usize = 0;
                while i < items.len()
                    invariant
                        i <= items@.len(),
                        crate::resp::items_view(items@).len() == items@.len(),
                        forall|j: int|
                            0 <= j < items@.len() ==> #[trigger] crate::resp::items_view(
                                items@,
                            )[j] == value_view(items@[j]),
                        words_view(out@) == strings_of(
                            crate::resp::items_view(items@).take(i as int),
                        ),
                    decreases items@.len() - i,
                {
                    let ghost before = crate::resp::items_view(items@).take(i as int);
                    let ghost after = crate::resp::items_view(items@).take(i + 1);
                    assert(after.drop_last() =~= before);
                    assert(after.last() == value_view(items@[i as int]));
                    match items[i].as_string() {
                        Some(s) => {
                            out.push(s);
                            assert(words_view(out@) =~= strings_of(after));
                        },
                        None => {},
                    }
                    i = i + 1;
                }
                assert(crate::resp::items_view(items@).take(i as int) =~= crate::resp::items_view(
                    items@,
                ));
                out
            },
            None => {
                let out: Vec<String> = Vec::new();
                assert(words_view(out@) =~= Seq::<Seq<char>>::empty());
                out
            },
        }
    }
}

/// What a reply to a step of the handshake means: an error reply is a
/// failed login or choice of database.
pub fn check_handshake_reply(step: &Command, reply: &RespValue, reconnecting: bool) -> (res: Result<
    (),
    RespError,
>)
    ensures
        match reply@ {
            RespValueView::Error(m) => res matches Err(e) && e@ == RespErrorView::Redis(
                handshake_failure(*step, reconnecting) + m,
            ),
            _ => res is Ok,
        },
{
    match reply {
        RespValue::Error(m) => {
            let mut text = match step {
                Command::Auth(_) => if reconnecting {
                    "AUTH failed on reconnect: ".to_owned()
                } else {
                    "AUTH failed: ".to_owned()
                },
                _ => if reconnecting {
                    "SELECT failed on reconnect: ".to_owned()
                } else {
                    "SELECT failed: ".to_owned()
                },
            };
            text.append(m.as_str());
            Err(RespError::Redis(text))
        },
        _ => Ok(()),
    }
}

pub open spec fn handshake_failure(step: Command, reconnecting: bool) -> Seq<char> {
    match step {
        Command::Auth(_) => if reconnecting {
            "AUTH failed on reconnect: "@
        } else {
            "AUTH failed: "@
        },
        _ => if reconnecting {
            "SELECT failed on reconnect: "@
        } else {
            "SELECT failed: "@
        },
    }
}

} // verus!
