//! Permission mediation.
//!
//! A capability check raised on an execution thread becomes a
//! `PermissionPrompt`. A prompt whose message exceeds the byte ceiling is
//! denied at once, with a warning notice for the operator, and never
//! reaches a channel. Any other prompt is emitted to the operator and the
//! raising thread blocks on its own channel until the operator's response
//! arrives; a closed or missing channel denies — the check fails closed,
//! never open.

use vstd::prelude::*;
use std::collections::HashMap;
use crate::strutil::{str_starts_with, str_ends_with, str_strip_prefix, str_prefix_to};
use crate::types::{PermissionPrompt, PermissionsResponse, PromptDecision};

verus! {

/// The largest permission-prompt message, in bytes, that is ever shown
/// to the operator; larger prompts are denied as hostile or malformed.
pub const MAX_PROMPT_BYTES: usize = 10240;

/// The encoded byte length of a prompt message.
pub open spec fn prompt_bytes_len(message: Seq<char>) -> nat {
    vstd::utf8::encode_utf8(message).len()
}

/// The warning notice raised when an oversize prompt is denied without
/// reaching the operator.
#[derive(Debug, Clone, PartialEq, Eq, Structural)]
pub struct PromptRejectedNotice {
    /// How large the denied prompt's message was, in bytes.
    pub prompt_bytes: usize,
    /// The configured ceiling it exceeded.
    pub limit_bytes: usize,
}

/// What becomes of a raised capability check before any channel is
/// involved.
#[derive(Debug, Clone)]
pub enum PromptEvaluation {
    /// The message exceeded the byte ceiling: denied at once, with a
    /// warning notice for the operator, and no prompt is registered.
    OversizeDenied(PromptRejectedNotice),
    /// The prompt is to be emitted to the operator and answered.
    Emit(PermissionPrompt),
}

/// Builds the prompt for a capability check, or denies it outright when
/// its message exceeds the byte ceiling. This path never blocks.
pub fn evaluate_prompt(
    message: &str,
    name: &str,
    api_name: Option<String>,
    is_unary: bool,
    stack: Vec<String>,
) -> (r: PromptEvaluation)
    ensures
        prompt_bytes_len(message@) > MAX_PROMPT_BYTES ==> (r matches
        PromptEvaluation::OversizeDenied(n) && n.prompt_bytes == prompt_bytes_len(message@)
            && n.limit_bytes == MAX_PROMPT_BYTES),
        prompt_bytes_len(message@) <= MAX_PROMPT_BYTES ==> (r matches PromptEvaluation::Emit(p)
            && p@ == (crate::types::PromptModel {
            message: message@,
            name: name@,
            api_name: match api_name {
                Some(a) => Some(a@),
                None => None,
            },
            is_unary: is_unary,
            response: None,
            stack: crate::strutil::views_of(stack@),
        })),
{
    let len = message.as_bytes().len();
    if len > MAX_PROMPT_BYTES {
        PromptEvaluation::OversizeDenied(
            PromptRejectedNotice { prompt_bytes: len, limit_bytes: MAX_PROMPT_BYTES },
        )
    } else {
        PromptEvaluation::Emit(
            PermissionPrompt {
                message: message.to_owned(),
                name: name.to_owned(),
                api_name: api_name,
                is_unary: is_unary,
                response: None,
                stack: stack,
            },
        )
    }
}

/// A receiving half of a permission channel.
#[verifier::external_type_specification]
#[verifier::external_body]
#[verifier::reject_recursive_types(T)]
pub struct ExReceiver<T>(crossbeam_channel::Receiver<T>);

/// One permission channel, opaque by construction: the only constructor
/// is `PermissionChannel::new`, so the two halves always come from a
/// single `crossbeam_channel::unbounded` call and every value of this
/// type is a matched pair — the ground for `send`'s promise.
#[verifier::external_body]
struct PermissionChannel {
    tx: crossbeam_channel::Sender<PermissionsResponse>,
    rx: crossbeam_channel::Receiver<PermissionsResponse>,
}

impl PermissionChannel {
    /// Relies on crossbeam_channel::unbounded: a fresh connected
    /// sender/receiver pair, kept together.
    #[verifier::external_body]
    fn new() -> PermissionChannel {
        let (tx, rx) = crossbeam_channel::unbounded();
        PermissionChannel { tx, rx }
    }

    /// Relies on crossbeam_channel::Sender::send: on an unbounded
    /// channel it fails only when every receiver of that channel is
    /// gone, and this channel's own receiver is alive right here, so
    /// the message is always queued.
    #[verifier::external_body]
    fn send(&self, response: PermissionsResponse) -> (r: bool)
        ensures
            r,
    {
        self.tx.send(response).is_ok()
    }

    /// Relies on crossbeam_channel::Receiver::clone: another receiving
    /// handle on the same channel.
    #[verifier::external_body]
    fn receiver(&self) -> crossbeam_channel::Receiver<PermissionsResponse> {
        self.rx.clone()
    }

    /// Relies on crossbeam_channel::Receiver::recv: blocks until a
    /// message arrives (`Some`) or every sender is gone (`None`).
    #[verifier::external_body]
    fn recv(&self) -> Option<PermissionsResponse> {
        self.rx.recv().ok()
    }
}

/// Relies on crossbeam_channel::Receiver::recv: blocks until a message
/// arrives (`Some`) or every sender is gone (`None`).
#[verifier::external_body]
fn recv_response(rx: &crossbeam_channel::Receiver<PermissionsResponse>) -> Option<
    PermissionsResponse,
> {
    rx.recv().ok()
}

/// Relies on uuid::Uuid::new_v4 and its hyphenated rendering: a fresh
/// random correlation id, 36 characters long.
#[verifier::external_body]
fn fresh_uuid_string() -> (r: String)
    ensures
        r@.len() == 36,
{
    uuid::Uuid::new_v4().to_string()
}

/// A fresh correlation id for one emitted prompt.
pub fn fresh_correlation_id() -> (r: String)
    ensures
        r@.len() == 36,
{
    fresh_uuid_string()
}

/// The decision a capability check receives for what came off its
/// channel: the operator's response, or denial when the channel closed.
pub fn decision_of_reply(reply: Option<PermissionsResponse>) -> (r: PromptDecision)
    ensures
        match reply {
            Some(resp) => r == resp.decision(),
            None => r is Deny,
        },
{
    match reply {
        Some(resp) => resp.to_prompt_response(),
        None => PromptDecision::Deny,
    }
}

/// Mediates capability checks between execution threads and the
/// operator: one channel pair per registered thread key, over which the
/// operator's responses travel. Registration and removal are strictly
/// paired by construction: both halves live in one table. The view is
/// the set of registered keys.
pub struct CustomPrompter {
    channels: HashMap<u64, PermissionChannel>,
}

impl View for CustomPrompter {
    type V = Set<u64>;

    closed spec fn view(&self) -> Set<u64> {
        self.channels@.dom()
    }
}

impl CustomPrompter {
    /// A router with no channels.
    pub fn new() -> (r: Self)
        ensures
            r@ == Set::<u64>::empty(),
    {
        let r = CustomPrompter { channels: HashMap::new() };
        proof {
            assert(r@ =~= Set::<u64>::empty());
        }
        r
    }

    /// Registers a fresh channel pair for `key`, replacing any earlier
    /// pair; calling it twice leaves one live pairing.
    pub fn setup_permission_channel(&mut self, key: u64)
        ensures
            final(self)@ == old(self)@.insert(key),
    {
        let channel = PermissionChannel::new();
        self.channels.insert(key, channel);
        proof {
            assert(self@ =~= old(self)@.insert(key));
        }
    }

    /// Removes the channel pair for `key`; removing an unregistered key
    /// is a no-op.
    pub fn cleanup_permission_channel(&mut self, key: u64)
        ensures
            final(self)@ == old(self)@.remove(key),
    {
        self.channels.remove(&key);
        proof {
            assert(self@ =~= old(self)@.remove(key));
        }
    }

    /// Whether `key` has a registered channel pair.
    pub fn is_registered(&self, key: u64) -> (r: bool)
        ensures
            r == self@.contains(key),
    {
        self.channels.contains_key(&key)
    }

    /// Delivers the operator's response to the thread registered under
    /// `key`. Delivering to an unregistered key is a no-op, not an
    /// error: the operator may answer a prompt whose task already
    /// finished. The response is queued exactly when the key is
    /// registered: the channel's receiving half lives in the same table
    /// entry, so a registered channel is never disconnected.
    pub fn respond(&self, key: u64, response: PermissionsResponse) -> (delivered: bool)
        ensures
            delivered == self@.contains(key),
    {
        match self.channels.get(&key) {
            Some(channel) => channel.send(response),
            None => false,
        }
    }

    /// A receiving handle for the channel registered under `key`, for
    /// the raising thread to block on after every lock is released.
    pub fn obtain_receiver(&self, key: u64) -> (r: Option<crossbeam_channel::Receiver<
        PermissionsResponse,
    >>)
        ensures
            r is Some <==> self@.contains(key),
    {
        match self.channels.get(&key) {
            Some(channel) => Some(channel.receiver()),
            None => None,
        }
    }

    /// Blocks until the operator's response for `key` arrives and
    /// returns the decision; a missing or closed channel denies.
    pub fn await_decision(&self, key: u64) -> (r: PromptDecision)
        ensures
            !self@.contains(key) ==> r is Deny,
    {
        match self.channels.get(&key) {
            Some(channel) => decision_of_reply(channel.recv()),
            None => PromptDecision::Deny,
        }
    }
}

/// Blocks on a receiving handle until the operator's response arrives
/// and returns the decision; without a handle, or once the channel
/// closes, the check is denied — it fails closed, never open.
pub fn await_decision_from(rx: Option<&crossbeam_channel::Receiver<PermissionsResponse>>) -> (r:
    PromptDecision)
    ensures
        rx is None ==> r is Deny,
{
    match rx {
        Some(rx) => decision_of_reply(recv_response(rx)),
        None => PromptDecision::Deny,
    }
}

/// Whether `c` is a hexadecimal digit.
pub open spec fn is_hex_digit(c: char) -> bool {
    ('0' <= c <= '9') || ('a' <= c <= 'f') || ('A' <= c <= 'F')
}

/// Whether `c` is a decimal digit.
pub open spec fn is_dec_digit(c: char) -> bool {
    '0' <= c <= '9'
}

/// The value of one hexadecimal digit; zero for anything else.
pub open spec fn hex_digit_val(c: char) -> int {
    if '0' <= c <= '9' {
        c as int - '0' as int
    } else if 'a' <= c <= 'f' {
        c as int - 'a' as int + 10
    } else if 'A' <= c <= 'F' {
        c as int - 'A' as int + 10
    } else {
        0
    }
}

/// Whether every character of `s` is a digit of the base, and `s` is
/// nonempty.
pub open spec fn digits_valid(s: Seq<char>, hex: bool) -> bool {
    s.len() > 0 && (forall|i: int|
        0 <= i < s.len() ==> if hex {
            is_hex_digit(#[trigger] s[i])
        } else {
            is_dec_digit(s[i])
        })
}

/// The number the digit string denotes.
pub open spec fn digits_value(s: Seq<char>, hex: bool) -> int
    decreases s.len(),
{
    if s.len() == 0 {
        0
    } else {
        digits_value(s.drop_last(), hex) * (if hex {
            16int
        } else {
            10int
        }) + hex_digit_val(s.last())
    }
}

/// Extending a digit string never shrinks its value.
proof fn lemma_digits_value_nonneg(s: Seq<char>, hex: bool)
    ensures
        digits_value(s, hex) >= 0,
    decreases s.len(),
{
    if s.len() > 0 {
        lemma_digits_value_nonneg(s.drop_last(), hex);
    }
}

/// Parses an unsigned 64-bit number written in the given base.
/// Succeeds exactly on a nonempty all-digit string whose value fits.
pub fn parse_u64_digits(s: &str, hex: bool) -> (r: Option<u64>)
    ensures
        match r {
            Some(v) => digits_valid(s@, hex) && digits_value(s@, hex) == v,
            None => !digits_valid(s@, hex) || digits_value(s@, hex) > u64::MAX,
        },
{
    let n = s.unicode_len();
    if n == 0 {
        return None;
    }
    let base: u64 = if hex {
        16
    } else {
        10
    };
    let mut acc: u64 = 0;
    let mut i: usize = 0;
    while i < n
        invariant
            i <= n,
            n == s@.len(),
            n > 0,
            base == (if hex {
                16int
            } else {
                10int
            }),
            acc == digits_value(s@.take(i as int), hex),
            forall|j: int|
                0 <= j < i ==> if hex {
                    is_hex_digit(#[trigger] s@[j])
                } else {
                    is_dec_digit(s@[j])
                },
        decreases n - i,
    {
        let c = s.get_char(i);
        let d: u64 = if '0' <= c && c <= '9' {
            (c as u32 as u64) - ('0' as u32 as u64)
        } else if hex && 'a' <= c && c <= 'f' {
            (c as u32 as u64) - ('a' as u32 as u64) + 10
        } else if hex && 'A' <= c && c <= 'F' {
            (c as u32 as u64) - ('A' as u32 as u64) + 10
        } else {
            return None;
        };
        proof {
            assert(s@.take(i + 1).drop_last() =~= s@.take(i as int));
            assert(s@.take(i + 1).last() == s@[i as int]);
            assert(d == hex_digit_val(s@[i as int]));
        }
        let stepped: Option<u64> = match acc.checked_mul(base) {
            Some(m) => m.checked_add(d),
            None => None,
        };
        match stepped {
            Some(v) => {
                acc = v;
            },
            None => {
                proof {
                    lemma_digits_overflow(s@, i as int, hex);
                }
                return None;
            },
        }
        i += 1;
    }
    proof {
        assert(s@.take(n as int) =~= s@);
    }
    Some(acc)
}

/// Once a digit prefix overflows, the whole string's value overflows.
proof fn lemma_digits_overflow(s: Seq<char>, i: int, hex: bool)
    requires
        0 <= i < s.len(),
        digits_value(s.take(i + 1), hex) > u64::MAX,
    ensures
        digits_value(s, hex) > u64::MAX,
    decreases s.len() - i,
{
    if i + 1 == s.len() {
        assert(s.take(i + 1) =~= s);
    } else {
        assert(s.take(i + 2).drop_last() =~= s.take(i + 1));
        let last = s.take(i + 2).last();
        assert(digits_value(s.take(i + 2), hex) == digits_value(s.take(i + 1), hex) * (if hex {
            16int
        } else {
            10int
        }) + hex_digit_val(last));
        lemma_digits_value_nonneg(s.take(i + 1), hex);
        assert(digits_value(s.take(i + 1), hex) * 16 >= digits_value(s.take(i + 1), hex))
            by (nonlinear_arith)
            requires
                digits_value(s.take(i + 1), hex) >= 0,
        ;
        assert(digits_value(s.take(i + 1), hex) * 10 >= digits_value(s.take(i + 1), hex))
            by (nonlinear_arith)
            requires
                digits_value(s.take(i + 1), hex) >= 0,
        ;
        lemma_digits_overflow(s, i + 1, hex);
    }
}

/// What `parse_thread_id` accepts: `ThreadId(` then digits then `)`.
pub open spec fn thread_id_inner(s: Seq<char>) -> Seq<char> {
    s.skip("ThreadId("@.len() as int).take(
        s.len() - "ThreadId("@.len() - ")"@.len(),
    )
}

/// Whether `s` has the `ThreadId(…)` frame.
pub open spec fn thread_id_framed(s: Seq<char>) -> bool {
    "ThreadId("@.is_prefix_of(s) && ")"@.is_suffix_of(s) && s.len() >= "ThreadId("@.len()
        + ")"@.len()
}

/// The thread key `s` denotes, if any: the framed digits read as
/// decimal — the base the emitted rendering uses, so a response routes
/// back to the key that registered the channel — falling back to
/// hexadecimal for digits that are not a decimal number.
pub open spec fn thread_id_value(s: Seq<char>) -> Option<u64> {
    if !thread_id_framed(s) {
        None
    } else {
        let inner = thread_id_inner(s);
        if digits_valid(inner, false) && digits_value(inner, false) <= u64::MAX {
            Some(digits_value(inner, false) as u64)
        } else if digits_valid(inner, true) && digits_value(inner, true) <= u64::MAX {
            Some(digits_value(inner, true) as u64)
        } else {
            None
        }
    }
}

/// Reads a thread key back from its rendered `ThreadId(…)` form: the
/// digits are read as decimal, falling back to hexadecimal. The input
/// must be the exact emitted rendering, with no surrounding whitespace.
pub fn parse_thread_id(s: &str) -> (r: Option<u64>)
    ensures
        r == thread_id_value(s@),
{
    proof {
        reveal_strlit("ThreadId(");
        reveal_strlit(")");
        assert("ThreadId("@.len() == 9 && ")"@.len() == 1);
    }
    if !str_starts_with(s, "ThreadId(") || !str_ends_with(s, ")") {
        return None;
    }
    let n = s.unicode_len();
    if n < 10 {
        return None;
    }
    let inner_full = str_strip_prefix(s, "ThreadId(");
    let inner = str_prefix_to(inner_full, n - 10);
    proof {
        assert(inner@ =~= thread_id_inner(s@));
    }
    match parse_u64_digits(inner, false) {
        Some(v) => Some(v),
        None => parse_u64_digits(inner, true),
    }
}

/// Delivers the operator's answer to the prompt raised by the thread
/// whose rendered identity is `thread_id`. An identity that does not
/// parse, or one with no registered channel, is a no-op: the operator
/// may answer a prompt whose task already finished. For a parsed,
/// registered identity the response is queued.
pub fn respond_to_permission_prompt(
    prompter: &CustomPrompter,
    thread_id: &str,
    response: PermissionsResponse,
) -> (delivered: bool)
    ensures
        thread_id_value(thread_id@) is None ==> !delivered,
        thread_id_value(thread_id@) matches Some(k) ==> delivered == prompter@.contains(k),
{
    match parse_thread_id(thread_id) {
        Some(key) => prompter.respond(key, response),
        None => false,
    }
}

/// The character of one decimal digit.
pub open spec fn dec_digit_char(d: int) -> char {
    if d == 0 {
        '0'
    } else if d == 1 {
        '1'
    } else if d == 2 {
        '2'
    } else if d == 3 {
        '3'
    } else if d == 4 {
        '4'
    } else if d == 5 {
        '5'
    } else if d == 6 {
        '6'
    } else if d == 7 {
        '7'
    } else if d == 8 {
        '8'
    } else {
        '9'
    }
}

/// The decimal digits of a nonnegative number, most significant first.
pub open spec fn dec_digits(n: int) -> Seq<char>
    decreases n,
{
    if n < 10 {
        seq![dec_digit_char(n)]
    } else {
        dec_digits(n / 10).push(dec_digit_char(n % 10))
    }
}

/// The decimal digits of a number are a valid decimal digit string whose
/// value is that number.
pub proof fn lemma_dec_digits_value(n: int)
    requires
        n >= 0,
    ensures
        digits_valid(dec_digits(n), false),
        digits_value(dec_digits(n), false) == n,
    decreases n,
{
    vstd::arithmetic::div_mod::lemma_fundamental_div_mod(n, 10);
    if n < 10 {
        let s = dec_digits(n);
        assert(s.drop_last() =~= Seq::<char>::empty());
        assert(digits_value(Seq::<char>::empty(), false) == 0);
        assert(s.last() == s[0]);
        assert(is_dec_digit(s[0]));
        assert(hex_digit_val(s[0]) == n);
    } else {
        lemma_dec_digits_value(n / 10);
        let prefix = dec_digits(n / 10);
        let s = dec_digits(n);
        assert(s.drop_last() =~= prefix);
        assert(0 <= n % 10 < 10);
        assert(s.last() == dec_digit_char(n % 10));
        assert(is_dec_digit(s.last()) && hex_digit_val(s.last()) == n % 10);
        assert(forall|i: int| 0 <= i < s.len() - 1 ==> s[i] == prefix[i]);
        assert(digits_valid(s, false));
        assert(digits_value(s, false) == digits_value(prefix, false) * 10 + n % 10);
    }
}

/// The identity string emitted alongside a permission prompt for the
/// thread registered under `key`.
pub open spec fn rendered_thread_id(key: u64) -> Seq<char> {
    "ThreadId("@ + dec_digits(key as int) + ")"@
}

/// The string form of one decimal digit.
fn dec_digit_str(d: u64) -> (r: &'static str)
    requires
        d < 10,
    ensures
        r@ =~= seq![dec_digit_char(d as int)],
{
    proof {
        reveal_strlit("0");
        reveal_strlit("1");
        reveal_strlit("2");
        reveal_strlit("3");
        reveal_strlit("4");
        reveal_strlit("5");
        reveal_strlit("6");
        reveal_strlit("7");
        reveal_strlit("8");
        reveal_strlit("9");
    }
    if d == 0 {
        "0"
    } else if d == 1 {
        "1"
    } else if d == 2 {
        "2"
    } else if d == 3 {
        "3"
    } else if d == 4 {
        "4"
    } else if d == 5 {
        "5"
    } else if d == 6 {
        "6"
    } else if d == 7 {
        "7"
    } else if d == 8 {
        "8"
    } else {
        "9"
    }
}

/// The decimal rendering of a number.
fn dec_string(n: u64) -> (r: String)
    ensures
        r@ == dec_digits(n as int),
    decreases n,
{
    if n < 10 {
        dec_digit_str(n).to_owned()
    } else {
        let mut s = dec_string(n / 10);
        s.append(dec_digit_str(n % 10));
        proof {
            assert((n as int) / 10 == (n / 10) as int && (n as int) % 10 == (n % 10) as int);
            assert(dec_digits((n / 10) as int) + seq![dec_digit_char((n % 10) as int)]
                =~= dec_digits((n / 10) as int).push(dec_digit_char((n % 10) as int)));
        }
        s
    }
}

/// Renders the identity string emitted alongside a permission prompt
/// for the thread registered under `key`.
pub fn render_thread_id(key: u64) -> (r: String)
    ensures
        r@ == rendered_thread_id(key),
{
    let digits = dec_string(key);
    let mut out = crate::strutil::str_concat("ThreadId(", digits.as_str());
    out.append(")");
    proof {
        assert(out@ =~= rendered_thread_id(key));
    }
    out
}

/// Law: the rendered thread identity parses back to the key it was
/// rendered from, so a response the operator echoes for an emitted
/// prompt routes to the very channel that the raising thread registered.
pub proof fn lemma_thread_id_round_trip(key: u64)
    ensures
        thread_id_value(rendered_thread_id(key)) == Some(key),
{
    reveal_strlit("ThreadId(");
    reveal_strlit(")");
    assert("ThreadId("@.len() == 9 && ")"@.len() == 1);
    lemma_dec_digits_value(key as int);
    let digits = dec_digits(key as int);
    let s = rendered_thread_id(key);
    assert(digits.len() >= 1);
    assert(thread_id_framed(s)) by {
        assert(s.take(9) =~= "ThreadId("@);
        assert(s.skip(s.len() - 1) =~= ")"@);
    }
    assert(thread_id_inner(s) =~= digits);
    assert(digits_value(digits, false) == key as int);
}

} // verus!
