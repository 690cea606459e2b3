//! Clipboard relay: the content hash, the echo-suppression state that keeps
//! a received value from being announced again, and access to the system
//! clipboard.
use vstd::prelude::*;
use std::hash::BuildHasher;
use crate::text::same_text;

verus! {

/// TCP port of the clipboard relay.
pub const CLIPBOARD_PORT: u16 = 7880;

/// Milliseconds between two reads of the local clipboard.
pub const POLL_INTERVAL_MS: u64 = 500;

/// The 64-bit value that std's default hasher, created by
/// `DefaultHasher::new`, gives for the text `s`.
pub uninterp spec fn text_hash(s: Seq<char>) -> u64;

/// Relies on std's `BuildHasher::hash_one` over `BuildHasherDefault` of
/// `DefaultHasher`: every hasher built that way starts from the same fixed
/// keys, so the value depends on the text alone.
#[verifier::external_body]
fn default_hash(content: &str) -> (r: u64)
    ensures
        r == text_hash(content@),
{
    std::hash::BuildHasherDefault::<std::collections::hash_map::DefaultHasher>::default().hash_one(
        content,
    )
}

/// Lower-case hexadecimal digit of `d`.
pub open spec fn hex_digit(d: nat) -> char {
    if d == 0 { '0' } else if d == 1 { '1' } else if d == 2 { '2' } else if d == 3 { '3' }
    else if d == 4 { '4' } else if d == 5 { '5' } else if d == 6 { '6' } else if d == 7 { '7' }
    else if d == 8 { '8' } else if d == 9 { '9' } else if d == 10 { 'a' } else if d == 11 { 'b' }
    else if d == 12 { 'c' } else if d == 13 { 'd' } else if d == 14 { 'e' } else { 'f' }
}

/// `n` in lower-case hexadecimal, without leading zeros.
pub open spec fn hex_text(n: nat) -> Seq<char>
    decreases n,
{
    if n < 16 {
        seq![hex_digit(n)]
    } else {
        hex_text(n / 16).push(hex_digit(n % 16))
    }
}

/// The hash carried by a clipboard message for the content `s`.
pub open spec fn content_hash(s: Seq<char>) -> Seq<char> {
    hex_text(text_hash(s) as nat)
}

fn hex_digit_text(d: u64) -> (r: &'static str)
    requires
        d < 16,
    ensures
        r@ == seq![hex_digit(d as nat)],
{
    proof {
        reveal_strlit("0"); reveal_strlit("1"); reveal_strlit("2"); reveal_strlit("3");
        reveal_strlit("4"); reveal_strlit("5"); reveal_strlit("6"); reveal_strlit("7");
        reveal_strlit("8"); reveal_strlit("9"); reveal_strlit("a"); reveal_strlit("b");
        reveal_strlit("c"); reveal_strlit("d"); reveal_strlit("e"); reveal_strlit("f");
    }
    let r = if d == 0 { "0" } else if d == 1 { "1" } else if d == 2 { "2" } else if d == 3 { "3" }
    else if d == 4 { "4" } else if d == 5 { "5" } else if d == 6 { "6" } else if d == 7 { "7" }
    else if d == 8 { "8" } else if d == 9 { "9" } else if d == 10 { "a" } else if d == 11 { "b" }
    else if d == 12 { "c" } else if d == 13 { "d" } else if d == 14 { "e" } else { "f" };
    assert(r@ =~= seq![hex_digit(d as nat)]);
    r
}

fn append_hex(out: &mut String, n: u64)
    ensures
        final(out)@ == old(out)@ + hex_text(n as nat),
    decreases n,
{
    if n >= 16 {
        append_hex(out, n / 16);
    }
    out.append(hex_digit_text(n % 16));
    proof {
        if n >= 16 {
            assert(hex_text(n as nat) == hex_text((n / 16) as nat).push(hex_digit((n % 16) as nat)));
        }
    }
    assert(final(out)@ =~= old(out)@ + hex_text(n as nat));
}

/// Hash of clipboard content, used only to tell contents apart: the
/// default hasher's value in lower-case hexadecimal.
pub fn compute_hash(content: &str) -> (r: String)
    ensures
        r@ == content_hash(content@),
{
    hex_of(default_hash(content))
}

/// `n` in lower-case hexadecimal, without leading zeros.
pub fn hex_of(n: u64) -> (r: String)
    ensures
        r@ == hex_text(n as nat),
{
    let mut out = String::new();
    append_hex(&mut out, n);
    assert(out@ =~= hex_text(n as nat));
    out
}

#[verifier::external_type_specification]
#[verifier::external_body]
pub struct ExClipboard(arboard::Clipboard);

#[verifier::external_type_specification]
#[verifier::external_body]
pub struct ExClipboardError(arboard::Error);

/// Relies on arboard's `Clipboard::new`, which connects to the system
/// clipboard or reports why it cannot.
#[verifier::external_body]
fn open_clipboard() -> (r: Result<arboard::Clipboard, arboard::Error>) {
    arboard::Clipboard::new()
}

/// Relies on arboard's `Clipboard::get_text`, which returns the text held
/// by the clipboard, or an error where it holds none.
#[verifier::external_body]
fn read_clipboard_text(clipboard: &mut arboard::Clipboard) -> (r: Result<String, arboard::Error>) {
    clipboard.get_text()
}

/// Relies on arboard's `Clipboard::set_text`, which places the text on the
/// clipboard or reports why it could not.
#[verifier::external_body]
fn write_clipboard_text(clipboard: &mut arboard::Clipboard, text: &str) -> (r: Result<
    (),
    arboard::Error,
>) {
    clipboard.set_text(text)
}

/// Relies on `ToString::to_string` over arboard's `Error`, which describes
/// the error.
#[verifier::external_body]
fn clipboard_error_text(e: &arboard::Error) -> (r: String) {
    e.to_string()
}

/// `prefix` followed by the description of `e`.
fn describe(prefix: &str, e: &arboard::Error) -> (r: String)
    ensures
        r@.len() >= prefix@.len(),
        r@.subrange(0, prefix@.len() as int) == prefix@,
{
    let mut out = String::from_str(prefix);
    let detail = clipboard_error_text(e);
    out.append(detail.as_str());
    assert(out@.subrange(0, prefix@.len() as int) =~= prefix@);
    out
}

/// Whether `m` begins with `p`.
pub open spec fn begins_with(m: Seq<char>, p: Seq<char>) -> bool {
    m.len() >= p.len() && m.subrange(0, p.len() as int) == p
}

/// Reads the text on the system clipboard. A failure is described as
/// failing to reach the clipboard or to read its text.
pub fn get_clipboard_content() -> (r: Result<String, String>)
    ensures
        r matches Err(m) ==> begins_with(m@, "Failed to access clipboard: "@) || begins_with(
            m@,
            "Failed to get clipboard text: "@,
        ),
{
    let mut clipboard = match open_clipboard() {
        Ok(c) => c,
        Err(e) => return Err(describe("Failed to access clipboard: ", &e)),
    };
    match read_clipboard_text(&mut clipboard) {
        Ok(t) => Ok(t),
        Err(e) => Err(describe("Failed to get clipboard text: ", &e)),
    }
}

/// Places `content` on the system clipboard. A failure is described as
/// failing to reach the clipboard or to write its text.
pub fn set_clipboard_content(content: &str) -> (r: Result<(), String>)
    ensures
        r matches Err(m) ==> begins_with(m@, "Failed to access clipboard: "@) || begins_with(
            m@,
            "Failed to set clipboard text: "@,
        ),
{
    let mut clipboard = match open_clipboard() {
        Ok(c) => c,
        Err(e) => return Err(describe("Failed to access clipboard: ", &e)),
    };
    match write_clipboard_text(&mut clipboard, content) {
        Ok(()) => Ok(()),
        Err(e) => Err(describe("Failed to set clipboard text: ", &e)),
    }
}

/// A clipboard value sent to peers.
pub struct ClipboardMessage {
    pub content: String,
    pub from_ip: String,
    /// Milliseconds since the Unix epoch when it was sent.
    pub timestamp: i64,
    pub hash: String,
}

/// How this instance names itself in the messages it sends: its address,
/// or `unknown` where that could not be found.
pub open spec fn sender_label(local_ip: Option<Seq<char>>) -> Seq<char> {
    match local_ip {
        Some(ip) => ip,
        None => "unknown"@,
    }
}

/// See `sender_label`.
pub fn sender_label_of(local_ip: Option<String>) -> (r: String)
    ensures
        r@ == sender_label(match local_ip {
            Some(s) => Some(s@),
            None => None,
        }),
{
    match local_ip {
        Some(ip) => ip,
        None => String::from_str("unknown"),
    }
}

impl ClipboardMessage {
    /// The message that announces `content`, whose hash is `hash`.
    pub fn outgoing(content: String, local_ip: Option<String>, timestamp: i64, hash: String) -> (r:
        ClipboardMessage)
        ensures
            r.content == content,
            r.from_ip@ == sender_label(match local_ip {
                Some(s) => Some(s@),
                None => None,
            }),
            r.timestamp == timestamp,
            r.hash == hash,
    {
        ClipboardMessage { content, from_ip: sender_label_of(local_ip), timestamp, hash }
    }
}

/// Why the clipboard could not be shared.
pub enum ClipboardError {
    /// The clipboard holds no text.
    Empty,
}

impl ClipboardError {
    /// Text reported to the user.
    pub fn message(&self) -> (r: String)
        ensures
            r@ == "Clipboard is empty"@,
    {
        String::from_str("Clipboard is empty")
    }
}

/// The echo-suppression state of this instance.
pub struct ClipboardSync {
    /// Hash of the content this instance last consumed, from any source.
    pub last_seen_hash: String,
    /// Hash of the content the previous non-empty poll tick read.
    pub last_polled_hash: String,
}

/// The state as (last seen hash, hash read by the previous poll tick).
pub type SyncView = (Seq<char>, Seq<char>);

/// A poll tick that read content with hash `h` (`empty` where the content
/// was empty): the next state, and whether the content is announced. Empty
/// content changes nothing. Otherwise `h` becomes the previous tick's hash,
/// and the content is announced, and recorded as last seen, unless `h` is
/// the last seen hash or the one the previous tick read.
pub open spec fn poll_step(s: SyncView, empty: bool, h: Seq<char>) -> (SyncView, bool) {
    if empty {
        (s, false)
    } else if h == s.0 || h == s.1 {
        ((s.0, h), false)
    } else {
        ((h, h), true)
    }
}

/// The state after a remote message with hash `h` was received.
pub open spec fn remote_step(s: SyncView, h: Seq<char>) -> SyncView {
    (h, s.1)
}

impl ClipboardSync {
    pub open spec fn view(&self) -> SyncView {
        (self.last_seen_hash@, self.last_polled_hash@)
    }

    pub fn new() -> (r: ClipboardSync)
        ensures
            r.view() == (Seq::<char>::empty(), Seq::<char>::empty()),
    {
        ClipboardSync { last_seen_hash: String::new(), last_polled_hash: String::new() }
    }

    /// A clipboard message with hash `hash` arrived from a peer: it is
    /// recorded before the content is written to the local clipboard, so
    /// that the next poll does not announce it back.
    pub fn on_remote(&mut self, hash: &str)
        ensures
            final(self).view() == remote_step(old(self).view(), hash@),
    {
        self.last_seen_hash = String::from_str(hash);
    }

    /// This instance itself writes `content` to the local clipboard.
    pub fn on_local_write(&mut self, content: &str)
        ensures
            final(self).view() == remote_step(old(self).view(), content_hash(content@)),
    {
        self.last_seen_hash = compute_hash(content);
    }

    /// A poll tick read `content`, whose hash is `hash`. Returns whether it
    /// is a genuine change to announce: not empty, and neither the content
    /// last consumed nor the one the previous tick read. Every non-empty
    /// read is remembered as the previous tick's.
    pub fn observe_hashed(&mut self, content: &str, hash: String) -> (r: bool)
        ensures
            (final(self).view(), r) == poll_step(old(self).view(), content@.len() == 0, hash@),
    {
        if content.unicode_len() == 0 {
            return false;
        }
        let repeated = same_text(hash.as_str(), self.last_seen_hash.as_str()) || same_text(
            hash.as_str(),
            self.last_polled_hash.as_str(),
        );
        self.last_polled_hash = hash.clone();
        if repeated {
            return false;
        }
        self.last_seen_hash = hash;
        true
    }

    /// A poll tick read `content`. Returns the hash to announce it with,
    /// where it is a genuine change (see `observe_hashed`).
    pub fn poll(&mut self, content: &str) -> (r: Option<String>)
        ensures
            (final(self).view(), r is Some) == poll_step(
                old(self).view(),
                content@.len() == 0,
                content_hash(content@),
            ),
            r matches Some(h) ==> h@ == content_hash(content@),
    {
        if content.unicode_len() == 0 {
            return None;
        }
        let hash = compute_hash(content);
        let announced = self.observe_hashed(content, hash.clone());
        if announced {
            Some(hash)
        } else {
            None
        }
    }

    /// Shares `content` at once, whatever was announced before. Empty
    /// content is an error; otherwise the returned hash is recorded as the
    /// last consumed.
    pub fn share_now(&mut self, content: &str) -> (r: Result<String, ClipboardError>)
        ensures
            content@.len() == 0 ==> r is Err && final(self).view() == old(self).view(),
            content@.len() > 0 ==> (r matches Ok(h) && h@ == content_hash(content@))
                && final(self).view() == remote_step(old(self).view(), content_hash(content@)),
    {
        if content.unicode_len() == 0 {
            return Err(ClipboardError::Empty);
        }
        let hash = compute_hash(content);
        self.last_seen_hash = hash.clone();
        Ok(hash)
    }
}

/// The state after a run of poll ticks, each with whether the content was
/// empty and its hash.
pub open spec fn poll_all(s: SyncView, ticks: Seq<(bool, Seq<char>)>) -> SyncView
    decreases ticks.len(),
{
    if ticks.len() == 0 {
        s
    } else {
        poll_step(poll_all(s, ticks.drop_last()), ticks.last().0, ticks.last().1).0
    }
}

/// After a remote message with hash `h` is applied, poll ticks that find
/// content with hash `h` announce nothing, however many there are, and
/// `h` stays the last seen hash.
pub proof fn lemma_received_content_not_echoed(s: SyncView, h: Seq<char>, ticks: Seq<(bool, Seq<char>)>)
    requires
        forall|i: int| 0 <= i < ticks.len() ==> (#[trigger] ticks[i]).1 == h,
    ensures
        poll_all(remote_step(s, h), ticks).0 == h,
        forall|i: int|
            0 <= i < ticks.len() ==> !poll_step(
                poll_all(remote_step(s, h), ticks.subrange(0, i)),
                (#[trigger] ticks[i]).0,
                ticks[i].1,
            ).1,
    decreases ticks.len(),
{
    if ticks.len() > 0 {
        let init = ticks.drop_last();
        assert forall|i: int| 0 <= i < init.len() implies (#[trigger] init[i]).1 == h by {
            assert(init[i] == ticks[i]);
        }
        lemma_received_content_not_echoed(s, h, init);
        assert(ticks.last() == ticks[ticks.len() - 1]);
        assert forall|i: int| 0 <= i < ticks.len() implies !poll_step(
            poll_all(remote_step(s, h), ticks.subrange(0, i)),
            (#[trigger] ticks[i]).0,
            ticks[i].1,
        ).1 by {
            if i < init.len() {
                assert(init[i] == ticks[i]);
                assert(init.subrange(0, i) == ticks.subrange(0, i));
            } else {
                assert(ticks.subrange(0, i) == init);
            }
        }
    }
}

/// A non-empty tick whose content differs from the last seen one and from
/// what the previous tick read is announced; one that reads what the
/// previous tick read is not.
pub proof fn lemma_poll_against_previous_tick(s: SyncView, a: Seq<char>, h: Seq<char>)
    ensures
        h != s.0 && h != s.1 ==> poll_step(s, false, h).1,
        !poll_step(poll_step(s, false, h).0, false, h).1,
        poll_step(s, false, a).0.1 == a,
{
}

} // verus!
