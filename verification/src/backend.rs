//! The decisions of the server functions: logins and registrations, the
//! search pattern for users, and the Redis keys and commands that keep the
//! pomodoro timers, their history and their counts.
use vstd::prelude::*;
use vstd::string::*;
use vstd::utf8::*;
use crate::pomodoro::{PomodoroPhase, PomodoroRecord, PomodoroStats};
use crate::redis::{int_text, Command};
use crate::resp::{string_of, RespValueView};
use crate::text::{
    decimal, law_parse_reads_back_display, lemma_ascii_utf8, lemma_decimal_digits, parse_u32,
    parse_u32_bytes, signed_decimal,
};

verus! {

/// An error of a server function, as the page receives it.
#[derive(Debug, Clone)]
pub enum ServerError {
    /// An answer meant for the user.
    Response(String),
    /// A failure of the server itself.
    Server(String),
}

pub enum ServerErrorView {
    Response(Seq<char>),
    Server(Seq<char>),
}

impl View for ServerError {
    type V = ServerErrorView;

    open spec fn view(&self) -> ServerErrorView {
        match self {
            ServerError::Response(m) => ServerErrorView::Response(m@),
            ServerError::Server(m) => ServerErrorView::Server(m@),
        }
    }
}

// ── Messages ───────────────────────────────────────────────────────────

pub const UNKNOWN_ACCOUNT: &'static str = "账号或密码错误！";

pub const WRONG_PASSWORD: &'static str = "邮箱或密码不正确";

pub const EMAIL_TAKEN: &'static str = "该邮箱已被注册";

pub const REGISTERED: &'static str = "注册成功，请登录";

pub const TASK_SAVED: &'static str = "任务保存成功！";

pub const TASK_UPDATED: &'static str = "任务更新成功！";

pub const TASK_DELETED: &'static str = "任务已删除";

pub const STATUS_UPDATED: &'static str = "状态已更新";

/// The name shown for a task whose assignee is not a known user.
pub const UNKNOWN_ASSIGNEE: &'static str = "未知";

// ── Passwords ──────────────────────────────────────────────────────────

/// What `bcrypt::verify` answers for a password (as bytes) and a stored hash:
/// whether they match, or the text of the error that it reports (a hash it
/// cannot read). It is a function of the two alone.
pub uninterp spec fn bcrypt_verify_outcome(password: Seq<u8>, hash: Seq<char>) -> Result<
    bool,
    Seq<char>,
>;

/// Wraps `bcrypt::verify(password, hash)`; an error becomes its text.
#[verifier::external_body]
fn bcrypt_verify(password: &str, hash: &str) -> (res: Result<bool, String>)
    ensures
        match res {
            Ok(b) => bcrypt_verify_outcome(encode_utf8(password@), hash@) == Ok::<bool, Seq<char>>(b),
            Err(m) => bcrypt_verify_outcome(encode_utf8(password@), hash@) == Err::<bool, Seq<char>>(
                m@,
            ),
        },
{
    match bcrypt::verify(password, hash) {
        Ok(b) => Ok(b),
        Err(e) => Err(e.to_string()),
    }
}

/// Wraps `bcrypt::hash(password, DEFAULT_COST)`, which salts the hash with
/// random bytes, so that two calls give different hashes; an error becomes
/// its text. What holds of every hash it gives is that `bcrypt::verify`
/// accepts the same password for it: the crate's `verify` reads the cost and
/// salt back from the hash and hashes the password again in the same way.
/// At the default cost the only failure is that of the random source, whose
/// text starts with `Rand error: `; the rest of that text is not stated.
#[verifier::external_body]
fn bcrypt_hash(password: &str) -> (res: Result<String, String>)
    ensures
        res is Ok ==> verifies(encode_utf8(password@), res->Ok_0@),
        res is Err ==> "Rand error: "@.is_prefix_of(res->Err_0@),
{
    match bcrypt::hash(password, bcrypt::DEFAULT_COST) {
        Ok(h) => Ok(h),
        Err(e) => Err(e.to_string()),
    }
}

/// Whether `bcrypt::verify` accepts the password for the hash.
pub open spec fn verifies(password: Seq<u8>, hash: Seq<char>) -> bool {
    bcrypt_verify_outcome(password, hash) == Ok::<bool, Seq<char>>(true)
}

/// What a login attempt answers, given the stored hash of the account.
pub open spec fn login_outcome(username: Seq<char>, stored_hash: Option<Seq<char>>, password: Seq<
    char,
>) -> Result<Seq<char>, ServerErrorView> {
    match stored_hash {
        None => Err(ServerErrorView::Response(UNKNOWN_ACCOUNT@)),
        Some(h) => match bcrypt_verify_outcome(encode_utf8(password), h) {
            Err(m) => Err(ServerErrorView::Server(m)),
            Ok(true) => Ok(username),
            Ok(false) => Err(ServerErrorView::Response(WRONG_PASSWORD@)),
        },
    }
}

/// A login attempt: the account's stored hash (`None` when no account has
/// this email) decides whether the password is right; the answer is the
/// user name.
pub fn check_login(username: String, stored_hash: Option<String>, password: &str) -> (res: Result<
    String,
    ServerError,
>)
    ensures
        match res {
            Ok(u) => login_outcome(
                username@,
                match stored_hash {
                    Some(h) => Some(h@),
                    None => None,
                },
                password@,
            ) == Ok::<Seq<char>, ServerErrorView>(u@),
            Err(e) => login_outcome(
                username@,
                match stored_hash {
                    Some(h) => Some(h@),
                    None => None,
                },
                password@,
            ) == Err::<Seq<char>, ServerErrorView>(e@),
        },
{
    match stored_hash {
        None => Err(ServerError::Response(UNKNOWN_ACCOUNT.to_owned())),
        Some(hash) => match bcrypt_verify(password, hash.as_str()) {
            Err(m) => Err(ServerError::Server(m)),
            Ok(true) => Ok(username),
            Ok(false) => Err(ServerError::Response(WRONG_PASSWORD.to_owned())),
        },
    }
}

/// A registration: refused when `existing` accounts already use the email,
/// otherwise the password's hash to store.
pub fn register_account(existing: i64, password: &str) -> (res: Result<String, ServerError>)
    ensures
        existing > 0 ==> (res matches Err(e) && e@ == ServerErrorView::Response(EMAIL_TAKEN@)),
        existing <= 0 ==> match res {
            Ok(h) => bcrypt_verify_outcome(encode_utf8(password@), h@) == Ok::<bool, Seq<char>>(
                true,
            ),
            Err(e) => e@ matches ServerErrorView::Response(m) && "Rand error: "@.is_prefix_of(m),
        },
        existing <= 0 ==> !(res matches Err(e) && e@ == ServerErrorView::Response(EMAIL_TAKEN@)),
{
    if existing > 0 {
        return Err(ServerError::Response(EMAIL_TAKEN.to_owned()));
    }
    match bcrypt_hash(password) {
        Ok(h) => Ok(h),
        Err(m) => {
            proof {
                reveal_strlit("Rand error: ");
                reveal_strlit("该邮箱已被注册");
                assert("Rand error: "@[0] != EMAIL_TAKEN@[0]);
            }
            Err(ServerError::Response(m))
        },
    }
}

/// A password that was registered logs in: given the hash that a
/// registration stored, a login with the same password succeeds.
pub proof fn law_registered_password_logs_in(username: Seq<char>, password: Seq<char>, hash: Seq<
    char,
>)
    requires
        bcrypt_verify_outcome(encode_utf8(password), hash) == Ok::<bool, Seq<char>>(true),
    ensures
        login_outcome(username, Some(hash), password) == Ok::<Seq<char>, ServerErrorView>(username),
{
}

/// A login without an account, or with a wrong password, is refused with
/// an answer meant for the user.
pub proof fn law_refused_login(username: Seq<char>, password: Seq<char>, hash: Seq<char>)
    ensures
        login_outcome(username, None, password) == Err::<Seq<char>, ServerErrorView>(
            ServerErrorView::Response(UNKNOWN_ACCOUNT@),
        ),
        bcrypt_verify_outcome(encode_utf8(password), hash) == Ok::<bool, Seq<char>>(false)
            ==> login_outcome(username, Some(hash), password) == Err::<Seq<char>, ServerErrorView>(
            ServerErrorView::Response(WRONG_PASSWORD@),
        ),
{
}

// ── Users ──────────────────────────────────────────────────────────────

/// The pattern that finds the users whose email holds `keyword`.
pub fn like_pattern(keyword: &str) -> (res: String)
    ensures
        res@ == "%"@ + keyword@ + "%"@,
{
    let mut p = "%".to_owned();
    p.append(keyword);
    p.append("%");
    p
}

// ── Pomodoro keys ──────────────────────────────────────────────────────

fn joined(parts: &[&str]) -> (res: String)
    ensures
        res@ == concat_all(parts@),
{
    let mut out = String::new();
    let mut i: usize = 0;
    while i < parts.len()
        invariant
            i <= parts@.len(),
            out@ == concat_all(parts@.take(i as int)),
        decreases parts@.len() - i,
    {
        out.append(parts[i]);
        assert(parts@.take(i + 1).drop_last() =~= parts@.take(i as int));
        i = i + 1;
    }
    assert(parts@.take(i as int) =~= parts@);
    out
}

pub open spec fn concat_all(parts: Seq<&str>) -> Seq<char>
    decreases parts.len(),
{
    if parts.len() == 0 {
        Seq::empty()
    } else {
        concat_all(parts.drop_last()) + parts.last()@
    }
}

/// The key of the saved timer of a user.
pub open spec fn state_key_spec(email: Seq<char>) -> Seq<char> {
    "pomodoro:state:"@ + email
}

/// The key of the history of a user.
pub open spec fn history_key_spec(email: Seq<char>) -> Seq<char> {
    "pomodoro:history:"@ + email
}

pub open spec fn total_key_spec(email: Seq<char>) -> Seq<char> {
    "pomodoro:stats:"@ + email + ":total"@
}

pub open spec fn today_key_spec(email: Seq<char>, day: Seq<char>) -> Seq<char> {
    "pomodoro:stats:"@ + email + ":today:"@ + day
}

pub open spec fn minutes_key_spec(email: Seq<char>, day: Seq<char>) -> Seq<char> {
    "pomodoro:stats:"@ + email + ":minutes:"@ + day
}

pub fn state_key(email: &str) -> (res: String)
    ensures
        res@ == state_key_spec(email@),
{
    let parts = ["pomodoro:state:", email];
    let res = joined(&parts);
    proof {
        reveal_with_fuel(concat_all, 3);
        assert(parts@.drop_last().drop_last() =~= Seq::<&str>::empty());
    }
    res
}

pub fn history_key(email: &str) -> (res: String)
    ensures
        res@ == history_key_spec(email@),
{
    let parts = ["pomodoro:history:", email];
    let res = joined(&parts);
    proof {
        reveal_with_fuel(concat_all, 3);
        assert(parts@.drop_last().drop_last() =~= Seq::<&str>::empty());
    }
    res
}

pub fn total_key(email: &str) -> (res: String)
    ensures
        res@ == total_key_spec(email@),
{
    let parts = ["pomodoro:stats:", email, ":total"];
    let res = joined(&parts);
    proof {
        reveal_with_fuel(concat_all, 4);
        assert(parts@.drop_last().drop_last().drop_last() =~= Seq::<&str>::empty());
    }
    res
}

pub fn today_key(email: &str, day: &str) -> (res: String)
    ensures
        res@ == today_key_spec(email@, day@),
{
    let parts = ["pomodoro:stats:", email, ":today:", day];
    let res = joined(&parts);
    proof {
        reveal_with_fuel(concat_all, 5);
        assert(parts@.drop_last().drop_last().drop_last().drop_last() =~= Seq::<&str>::empty());
    }
    res
}

pub fn minutes_key(email: &str, day: &str) -> (res: String)
    ensures
        res@ == minutes_key_spec(email@, day@),
{
    let parts = ["pomodoro:stats:", email, ":minutes:", day];
    let res = joined(&parts);
    proof {
        reveal_with_fuel(concat_all, 5);
        assert(parts@.drop_last().drop_last().drop_last().drop_last() =~= Seq::<&str>::empty());
    }
    res
}

/// Different users have different timers and histories: the key names the
/// user.
pub proof fn law_keys_name_the_user(a: Seq<char>, b: Seq<char>)
    ensures
        state_key_spec(a) == state_key_spec(b) ==> a == b,
        history_key_spec(a) == history_key_spec(b) ==> a == b,
{
    let p = "pomodoro:state:"@;
    let q = "pomodoro:history:"@;
    if state_key_spec(a) == state_key_spec(b) {
        assert(a =~= (p + a).skip(p.len() as int));
        assert(b =~= (p + b).skip(p.len() as int));
    }
    if history_key_spec(a) == history_key_spec(b) {
        assert(a =~= (q + a).skip(q.len() as int));
        assert(b =~= (q + b).skip(q.len() as int));
    }
}

/// Wraps `chrono::Utc::now().format("%Y-%m-%d")`: the current day, read from
/// the system clock; nothing is promised of it.
#[verifier::external_body]
fn today_utc() -> String {
    chrono::Utc::now().format("%Y-%m-%d").to_string()
}

// ── Pomodoro commands ──────────────────────────────────────────────────

/// Seconds that a saved timer is kept.
pub const STATE_TTL_SECONDS: u64 = 86400;

/// Seconds that the counts of a day are kept.
pub const DAY_STATS_TTL_SECONDS: u64 = 172800;

/// The most recent records that the history shows.
pub const HISTORY_LENGTH: i64 = 20;

/// Whether `cmd` saves the timer `json` of the user `email` for a day.
pub open spec fn saves_state(email: Seq<char>, json: Seq<char>, cmd: Command) -> bool {
    cmd matches Command::SetEx(k, secs, v) && k@ == state_key_spec(email) && secs
        == STATE_TTL_SECONDS && v@ == json
}

/// Whether `cmd` reads the saved timer of the user `email`.
pub open spec fn loads_state(email: Seq<char>, cmd: Command) -> bool {
    cmd matches Command::Get(k) && k@ == state_key_spec(email)
}

/// The command that saves a timer, as `json`, for a day.
pub fn save_state_command(email: &str, json: String) -> (res: Command)
    ensures
        saves_state(email@, json@, res),
        res matches Command::SetEx(_, _, v) && v == json,
{
    Command::SetEx(state_key(email), STATE_TTL_SECONDS, json)
}

/// The command that reads the saved timer.
pub fn load_state_command(email: &str) -> (res: Command)
    ensures
        loads_state(email@, res),
{
    Command::Get(state_key(email))
}

/// The commands that keep a finished phase: its record, as `json`, goes to
/// the front of the history; a finished focus session also counts, in all
/// and for `day`, with its minutes; the counts of a day are kept two days.
pub open spec fn record_plan(
    email: Seq<char>,
    record: PomodoroRecord,
    json: String,
    day: Seq<char>,
    cmds: Seq<Command>,
) -> bool {
    &&& cmds.len() == (if record.phase == PomodoroPhase::Working {
        6int
    } else {
        1int
    })
    &&& cmds[0] matches Command::LPush(k, v) && k@ == history_key_spec(email) && v == json
    &&& record.phase == PomodoroPhase::Working ==> {
        &&& cmds[1] matches Command::Incr(k) && k@ == total_key_spec(email)
        &&& cmds[2] matches Command::Incr(k) && k@ == today_key_spec(email, day)
        &&& cmds[3] matches Command::Expire(k, secs) && k@ == today_key_spec(email, day) && secs
            == DAY_STATS_TTL_SECONDS
        &&& cmds[4] matches Command::IncrBy(k, n) && k@ == minutes_key_spec(email, day) && n
            == record.duration_minutes as i64
        &&& cmds[5] matches Command::Expire(k, secs) && k@ == minutes_key_spec(email, day) && secs
            == DAY_STATS_TTL_SECONDS
    }
}

/// The commands that keep a finished phase on `day`.
pub fn record_commands(email: &str, record: &PomodoroRecord, json: String, day: &str) -> (res: Vec<
    Command,
>)
    ensures
        record_plan(email@, *record, json, day@, res@),
{
    let mut cmds = Vec::new();
    cmds.push(Command::LPush(history_key(email), json));
    if record.phase == PomodoroPhase::Working {
        cmds.push(Command::Incr(total_key(email)));
        cmds.push(Command::Incr(today_key(email, day)));
        cmds.push(Command::Expire(today_key(email, day), DAY_STATS_TTL_SECONDS));
        cmds.push(Command::IncrBy(minutes_key(email, day), record.duration_minutes as i64));
        cmds.push(Command::Expire(minutes_key(email, day), DAY_STATS_TTL_SECONDS));
    }
    cmds
}

/// The commands that keep a finished phase today, the day read from the
/// clock when a focus session has to be counted.
pub fn record_commands_today(email: &str, record: &PomodoroRecord, json: String) -> (res: Vec<
    Command,
>)
    ensures
        exists|day: Seq<char>| #[trigger] record_plan(email@, *record, json, day, res@),
{
    let day = if record.phase == PomodoroPhase::Working {
        today_utc()
    } else {
        String::new()
    };
    let res = record_commands(email, record, json, day.as_str());
    assert(record_plan(email@, *record, json, day@, res@));
    res
}

/// The command that reads the most recent records of the history.
pub fn history_command(email: &str) -> (res: Command)
    ensures
        res matches Command::LRange(k, start, stop) && k@ == history_key_spec(email@) && start == 0
            && stop == HISTORY_LENGTH - 1,
{
    Command::LRange(history_key(email), 0, HISTORY_LENGTH - 1)
}

/// The commands that read the counts: in all, of `day`, and the minutes of
/// `day`, in this order.
pub open spec fn stats_plan(email: Seq<char>, day: Seq<char>, cmds: Seq<Command>) -> bool {
    &&& cmds.len() == 3
    &&& cmds[0] matches Command::Get(k) && k@ == total_key_spec(email)
    &&& cmds[1] matches Command::Get(k) && k@ == today_key_spec(email, day)
    &&& cmds[2] matches Command::Get(k) && k@ == minutes_key_spec(email, day)
}

/// The commands that read the counts, for `day`.
pub fn stats_commands(email: &str, day: &str) -> (res: Vec<Command>)
    ensures
        stats_plan(email@, day@, res@),
{
    let mut cmds = Vec::new();
    cmds.push(Command::Get(total_key(email)));
    cmds.push(Command::Get(today_key(email, day)));
    cmds.push(Command::Get(minutes_key(email, day)));
    cmds
}

/// The commands that read the counts of today, the day read from the clock.
pub fn stats_commands_today(email: &str) -> (res: Vec<Command>)
    ensures
        exists|day: Seq<char>| #[trigger] stats_plan(email@, day, res@),
{
    let day = today_utc();
    let res = stats_commands(email, day.as_str());
    assert(stats_plan(email@, day@, res@));
    res
}

/// A stored count: the number that the text reads as, and 0 when there is
/// no text or it is not a `u32`.
pub open spec fn count_of(text: Option<Seq<char>>) -> u32 {
    match text {
        Some(t) => match parse_u32(encode_utf8(t)) {
            Some(n) => n,
            None => 0,
        },
        None => 0,
    }
}

pub open spec fn text_of(text: Option<String>) -> Option<Seq<char>> {
    match text {
        Some(t) => Some(t@),
        None => None,
    }
}

/// The count that a stored text gives.
pub fn read_count(text: &Option<String>) -> (res: u32)
    ensures
        res == count_of(text_of(*text)),
{
    match text {
        Some(t) => match parse_u32_bytes(t.as_str().as_bytes()) {
            Some(n) => n,
            None => 0,
        },
        None => 0,
    }
}

impl PomodoroStats {
    /// The counts that the replies to `stats_commands` give, in their order.
    pub fn from_replies(total: Option<String>, today: Option<String>, minutes: Option<String>) -> (res:
        PomodoroStats)
        ensures
            res.total_count == count_of(text_of(total)),
            res.today_count == count_of(text_of(today)),
            res.today_focus_minutes == count_of(text_of(minutes)),
    {
        PomodoroStats {
            today_count: read_count(&today),
            total_count: read_count(&total),
            today_focus_minutes: read_count(&minutes),
        }
    }
}


// ── Counts across a save ───────────────────────────────────────────────

/// A model of the counters that Redis keeps: the integer at each key, where
/// an absent key counts as 0, as Redis's `INCR` and `INCRBY` take it.
pub open spec fn counter(store: Map<Seq<char>, int>, key: Seq<char>) -> int {
    if store.dom().contains(key) {
        store[key]
    } else {
        0
    }
}

/// The counters after `cmds`, with `INCR` adding one and `INCRBY` adding its
/// increment, as Redis documents them; the other commands change no counter.
pub open spec fn apply_counters(store: Map<Seq<char>, int>, cmds: Seq<Command>) -> Map<
    Seq<char>,
    int,
>
    decreases cmds.len(),
{
    if cmds.len() == 0 {
        store
    } else {
        let next = match cmds[0] {
            Command::Incr(k) => store.insert(k@, counter(store, k@) + 1),
            Command::IncrBy(k, n) => store.insert(k@, counter(store, k@) + n),
            _ => store,
        };
        apply_counters(next, cmds.drop_first())
    }
}

/// The count that `GET` and `read_count` read from a counter: Redis replies
/// with the decimal text of the integer, or with nothing for an absent key.
pub open spec fn read_counter(store: Map<Seq<char>, int>, key: Seq<char>) -> u32 {
    if store.dom().contains(key) {
        count_of(Some(int_text(store[key])))
    } else {
        count_of(None)
    }
}

proof fn lemma_read_counter(store: Map<Seq<char>, int>, key: Seq<char>)
    requires
        0 <= counter(store, key) <= u32::MAX,
    ensures
        read_counter(store, key) == counter(store, key),
{
    if store.dom().contains(key) {
        let n = store[key];
        lemma_decimal_digits(n as nat);
        lemma_ascii_utf8(decimal(n as nat));
        law_parse_reads_back_display(n);
        assert(signed_decimal(n) == decimal(n as nat));
    }
}

proof fn lemma_stats_keys_differ(email: Seq<char>, day: Seq<char>)
    ensures
        total_key_spec(email) != today_key_spec(email, day),
        total_key_spec(email) != minutes_key_spec(email, day),
        today_key_spec(email, day) != minutes_key_spec(email, day),
{
    reveal_strlit("pomodoro:stats:");
    reveal_strlit(":total");
    reveal_strlit(":today:");
    reveal_strlit(":minutes:");
    let base = "pomodoro:stats:"@ + email;
    let i = base.len() as int;
    assert(total_key_spec(email)[i + 1] == 't');
    assert(today_key_spec(email, day)[i + 1] == 't');
    assert(minutes_key_spec(email, day)[i + 1] == 'm');
    assert(total_key_spec(email)[i + 3] == 't');
    assert(today_key_spec(email, day)[i + 3] == 'd');
}

/// Saving a finished focus session adds one to the count of all sessions and
/// of the day, and its minutes to those of the day; saving a break changes
/// no count. This holds of counters that behave as Redis documents `INCR`
/// and `INCRBY`, read back on the same day, when the counts fit a `u32`.
pub proof fn law_saved_session_counts(
    email: Seq<char>,
    day: Seq<char>,
    record: PomodoroRecord,
    json: String,
    cmds: Seq<Command>,
    store: Map<Seq<char>, int>,
)
    requires
        record_plan(email, record, json, day, cmds),
        0 <= counter(store, total_key_spec(email)) < u32::MAX,
        0 <= counter(store, today_key_spec(email, day)) < u32::MAX,
        0 <= counter(store, minutes_key_spec(email, day)),
        counter(store, minutes_key_spec(email, day)) + record.duration_minutes <= u32::MAX,
    ensures
        ({
            let after = apply_counters(store, cmds);
            let total = total_key_spec(email);
            let today = today_key_spec(email, day);
            let minutes = minutes_key_spec(email, day);
            if record.phase == PomodoroPhase::Working {
                &&& read_counter(after, total) == read_counter(store, total) + 1
                &&& read_counter(after, today) == read_counter(store, today) + 1
                &&& read_counter(after, minutes) == read_counter(store, minutes)
                    + record.duration_minutes
            } else {
                &&& read_counter(after, total) == read_counter(store, total)
                &&& read_counter(after, today) == read_counter(store, today)
                &&& read_counter(after, minutes) == read_counter(store, minutes)
            }
        }),
{
    let total = total_key_spec(email);
    let today = today_key_spec(email, day);
    let minutes = minutes_key_spec(email, day);
    lemma_stats_keys_differ(email, day);
    lemma_read_counter(store, total);
    lemma_read_counter(store, today);
    lemma_read_counter(store, minutes);
    reveal_with_fuel(apply_counters, 7);
    if record.phase == PomodoroPhase::Working {
        let s1 = store.insert(total, counter(store, total) + 1);
        let s2 = s1.insert(today, counter(s1, today) + 1);
        let s3 = s2.insert(minutes, counter(s2, minutes) + record.duration_minutes);
        assert(cmds.drop_first().drop_first().drop_first().drop_first().drop_first().drop_first().len() == 0);
        assert(apply_counters(store, cmds) == s3);
        lemma_read_counter(s3, total);
        lemma_read_counter(s3, today);
        lemma_read_counter(s3, minutes);
    } else {
        assert(apply_counters(store, cmds) == store);
    }
}

// ── Timers across a save ───────────────────────────────────────────────

/// Whether `cmd` names `key`: as the key it writes, reads or counts.
pub open spec fn names_key(cmd: Command, key: Seq<char>) -> bool {
    match cmd {
        Command::SetString(k, _) => k@ == key,
        Command::Get(k) => k@ == key,
        Command::Del(k) => k@ == key,
        Command::SetEx(k, _, _) => k@ == key,
        Command::Expire(k, _) => k@ == key,
        Command::Incr(k) => k@ == key,
        Command::IncrBy(k, _) => k@ == key,
        Command::LPush(k, _) => k@ == key,
        Command::LRange(k, _, _) => k@ == key,
        _ => false,
    }
}

/// A model of the strings that Redis keeps: at each key, the bytes of its
/// value and the second at which it expires, if it does. The strings after
/// `cmd`, sent at second `now`, as Redis documents the commands: `SET` keeps
/// its value with no expiry, `SETEX` keeps it until `now` plus its seconds,
/// `DEL` removes the key and `EXPIRE` gives a key that is there a new
/// expiry. A value is kept as the UTF-8 bytes that `build_command` sends.
/// Counters are followed by `apply_counters`, and lists by no model: here
/// the commands that count, push or read change nothing.
pub open spec fn apply_write(
    store: Map<Seq<char>, (Seq<u8>, Option<int>)>,
    cmd: Command,
    now: int,
) -> Map<Seq<char>, (Seq<u8>, Option<int>)> {
    match cmd {
        Command::SetString(k, v) => store.insert(k@, (encode_utf8(v@), None)),
        Command::SetEx(k, secs, v) => store.insert(k@, (encode_utf8(v@), Some(now + secs))),
        Command::Del(k) => store.remove(k@),
        Command::Expire(k, secs) => if store.dom().contains(k@) {
            store.insert(k@, (store[k@].0, Some(now + secs)))
        } else {
            store
        },
        _ => store,
    }
}

/// The strings after each command of `writes`, each sent at its second.
pub open spec fn apply_writes(
    store: Map<Seq<char>, (Seq<u8>, Option<int>)>,
    writes: Seq<(Command, int)>,
) -> Map<Seq<char>, (Seq<u8>, Option<int>)>
    decreases writes.len(),
{
    if writes.len() == 0 {
        store
    } else {
        apply_writes(apply_write(store, writes[0].0, writes[0].1), writes.drop_first())
    }
}

/// The reply to `GET key` at second `now`: the bytes of a value that has
/// not expired, or the nil bulk string.
pub open spec fn get_reply(
    store: Map<Seq<char>, (Seq<u8>, Option<int>)>,
    key: Seq<char>,
    now: int,
) -> RespValueView {
    if store.dom().contains(key) && (match store[key].1 {
        Some(t) => now < t,
        None => true,
    }) {
        RespValueView::BulkString(Some(store[key].0))
    } else {
        RespValueView::BulkString(None)
    }
}

/// The reply to the read command `cmd` at second `now`; `None` for a
/// command that is no `GET`.
pub open spec fn read_reply(
    store: Map<Seq<char>, (Seq<u8>, Option<int>)>,
    cmd: Command,
    now: int,
) -> Option<RespValueView> {
    match cmd {
        Command::Get(k) => Some(get_reply(store, k@, now)),
        _ => None,
    }
}

/// Commands that do not name `key` leave what `GET key` is answered.
proof fn lemma_other_writes_keep(
    store: Map<Seq<char>, (Seq<u8>, Option<int>)>,
    writes: Seq<(Command, int)>,
    key: Seq<char>,
)
    requires
        forall|i: int| 0 <= i < writes.len() ==> !names_key(#[trigger] writes[i].0, key),
    ensures
        apply_writes(store, writes).dom().contains(key) == store.dom().contains(key),
        store.dom().contains(key) ==> apply_writes(store, writes)[key] == store[key],
    decreases writes.len(),
{
    if writes.len() > 0 {
        let next = apply_write(store, writes[0].0, writes[0].1);
        assert(!names_key(writes[0].0, key));
        assert(next.dom().contains(key) == store.dom().contains(key));
        assert(store.dom().contains(key) ==> next[key] == store[key]);
        assert forall|i: int| 0 <= i < writes.drop_first().len() implies !names_key(
            #[trigger] writes.drop_first()[i].0,
            key,
        ) by {
            assert(writes.drop_first()[i] == writes[i + 1]);
        }
        lemma_other_writes_keep(next, writes.drop_first(), key);
    }
}

/// A saved timer is read back. After the command that saves `json` for the
/// user `email` at second `saved_at`, and then any commands that do not name
/// that user's timer (saves for other users among them, see
/// `law_other_saves_keep_the_timer`), the command that loads the timer is
/// answered with the bytes of `json` before the save expires, a day later,
/// and `as_string` reads them back as `json`; from then on it is answered
/// with the nil bulk string.
pub proof fn law_saved_state_loads_back(
    email: Seq<char>,
    json: Seq<char>,
    save: Command,
    later: Seq<(Command, int)>,
    load: Command,
    store: Map<Seq<char>, (Seq<u8>, Option<int>)>,
    saved_at: int,
    read_at: int,
)
    requires
        saves_state(email, json, save),
        loads_state(email, load),
        forall|i: int|
            0 <= i < later.len() ==> !names_key(#[trigger] later[i].0, state_key_spec(email)),
    ensures
        ({
            let reply = read_reply(apply_writes(apply_write(store, save, saved_at), later), load, read_at);
            if read_at < saved_at + STATE_TTL_SECONDS {
                &&& reply == Some(RespValueView::BulkString(Some(encode_utf8(json))))
                &&& string_of(reply->0) == Some(json)
            } else {
                &&& reply == Some(RespValueView::BulkString(None))
                &&& string_of(reply->0) is None
            }
        }),
{
    broadcast use encode_utf8_valid_utf8, encode_utf8_decode_utf8;

    let key = state_key_spec(email);
    let saved = apply_write(store, save, saved_at);
    assert(saved.dom().contains(key));
    assert(saved[key] == (encode_utf8(json), Some(saved_at + STATE_TTL_SECONDS)));
    lemma_other_writes_keep(saved, later, key);
}

/// A user whose timer is not kept, because it was never saved or was
/// removed, loads no timer while no command names it.
pub proof fn law_unsaved_state_loads_nothing(
    email: Seq<char>,
    later: Seq<(Command, int)>,
    load: Command,
    store: Map<Seq<char>, (Seq<u8>, Option<int>)>,
    read_at: int,
)
    requires
        !store.dom().contains(state_key_spec(email)),
        loads_state(email, load),
        forall|i: int|
            0 <= i < later.len() ==> !names_key(#[trigger] later[i].0, state_key_spec(email)),
    ensures
        read_reply(apply_writes(store, later), load, read_at) == Some(
            RespValueView::BulkString(None),
        ),
{
    lemma_other_writes_keep(store, later, state_key_spec(email));
}

/// Saving the timer of one user leaves the timer of every other user: the
/// save does not name the other user's key, and what loading it is answered
/// stays as it was.
pub proof fn law_other_saves_keep_the_timer(
    email: Seq<char>,
    other: Seq<char>,
    json: Seq<char>,
    save: Command,
    load: Command,
    store: Map<Seq<char>, (Seq<u8>, Option<int>)>,
    saved_at: int,
    read_at: int,
)
    requires
        saves_state(other, json, save),
        loads_state(email, load),
        other != email,
    ensures
        !names_key(save, state_key_spec(email)),
        read_reply(apply_write(store, save, saved_at), load, read_at) == read_reply(
            store,
            load,
            read_at,
        ),
{
    law_keys_name_the_user(other, email);
    let key = state_key_spec(email);
    let after = apply_write(store, save, saved_at);
    assert(after.dom().contains(key) == store.dom().contains(key));
}

} // verus!
