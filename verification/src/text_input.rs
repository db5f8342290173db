//! Text output: the channel chosen by the configuration (clipboard paste
//! or Unicode key events, never one as fallback of the other), the UTF-16
//! batches sent as Unicode key events, and how a delivery ends.
use vstd::prelude::*;

use crate::clipboard::ClipboardError;
use crate::config::Config;
use crate::text::{decimal, decimal_chars, push_chars, push_str, string_of};

verus! {

/// Why text output failed.
#[derive(Debug)]
pub enum TextInputError {
    Clipboard(ClipboardError),
    Canceled { sent: usize },
    ModifiersHeld,
    Send { sent: usize, total: usize, code: u32 },
    UnsupportedPlatform,
}

impl TextInputError {
    /// Whether nothing reached the target window before cancellation.
    pub fn canceled_before_output(&self) -> (r: bool)
        ensures
            r == match self {
                TextInputError::Clipboard(ClipboardError::Canceled) => true,
                TextInputError::Canceled { sent } => *sent == 0,
                _ => false,
            },
    {
        match self {
            TextInputError::Clipboard(ClipboardError::Canceled) => true,
            TextInputError::Canceled { sent } => *sent == 0,
            _ => false,
        }
    }

    pub open spec fn status_text(&self) -> Seq<char> {
        match self {
            TextInputError::Clipboard(e) => if e.paste_was_sent_before_restore_failure_spec() {
                "Paste sent; clipboard restore failed"@
            } else {
                "Paste failed"@
            },
            TextInputError::Canceled { .. } => "Input canceled; text may already be present"@,
            TextInputError::Send { sent, .. } => if *sent > 0 {
                "Input incomplete; text may already be present"@
            } else {
                "Text input failed"@
            },
            _ => "Text input failed"@,
        }
    }

    /// The status line shown for the failure.
    pub fn status(&self) -> (r: &'static str)
        ensures
            r@ == self.status_text(),
    {
        proof {
            reveal_strlit("Paste sent; clipboard restore failed");
            reveal_strlit("Paste failed");
            reveal_strlit("Input canceled; text may already be present");
            reveal_strlit("Input incomplete; text may already be present");
            reveal_strlit("Text input failed");
        }
        match self {
            TextInputError::Clipboard(error) => {
                if error.paste_was_sent_before_restore_failure() {
                    "Paste sent; clipboard restore failed"
                } else {
                    "Paste failed"
                }
            },
            TextInputError::Canceled { .. } => "Input canceled; text may already be present",
            TextInputError::Send { sent, .. } => {
                if *sent > 0 {
                    "Input incomplete; text may already be present"
                } else {
                    "Text input failed"
                }
            },
            _ => "Text input failed",
        }
    }

    pub open spec fn text(&self) -> Seq<char> {
        match self {
            TextInputError::Clipboard(e) => e.text(),
            TextInputError::Canceled { sent } => "input canceled after "@ + decimal(*sent as nat)
                + " events; injected text cannot be recalled"@,
            TextInputError::ModifiersHeld => "modifier keys remained pressed for 2 seconds"@,
            TextInputError::Send { sent, total, code } => "SendInput inserted "@ + decimal(
                *sent as nat,
            ) + " of "@ + decimal(*total as nat) + " events; system error: "@ + decimal(
                *code as nat,
            ),
            TextInputError::UnsupportedPlatform => "Unicode input is only available on Windows"@,
        }
    }

    /// The error's message.
    pub fn message(&self) -> (r: String)
        ensures
            r@ == self.text(),
    {
        let mut out: Vec<char> = Vec::new();
        match self {
            TextInputError::Clipboard(e) => {
                return e.message();
            },
            TextInputError::Canceled { sent } => {
                push_str(&mut out, "input canceled after ");
                push_chars(&mut out, decimal_chars(*sent as u64).as_slice());
                push_str(&mut out, " events; injected text cannot be recalled");
            },
            TextInputError::ModifiersHeld => {
                push_str(&mut out, "modifier keys remained pressed for 2 seconds");
            },
            TextInputError::Send { sent, total, code } => {
                push_str(&mut out, "SendInput inserted ");
                push_chars(&mut out, decimal_chars(*sent as u64).as_slice());
                push_str(&mut out, " of ");
                push_chars(&mut out, decimal_chars(*total as u64).as_slice());
                push_str(&mut out, " events; system error: ");
                push_chars(&mut out, decimal_chars(*code as u64).as_slice());
            },
            TextInputError::UnsupportedPlatform => {
                push_str(&mut out, "Unicode input is only available on Windows");
            },
        }
        string_of(out.as_slice())
    }
}

impl ClipboardError {
    pub open spec fn paste_was_sent_before_restore_failure_spec(&self) -> bool {
        match self {
            ClipboardError::Restore { paste_sent, .. } => *paste_sent,
            ClipboardError::OperationAndRestore { paste_sent, .. } => *paste_sent,
            _ => false,
        }
    }
}

/// How text reaches the focused window.
#[derive(Debug, Clone, Copy, PartialEq, Eq, Structural)]
pub enum OutputChannel {
    /// Clipboard write, Ctrl+V, clipboard restore.
    Clipboard,
    /// `SendInput` with `KEYEVENTF_UNICODE`.
    UnicodeInput,
}

/// The channel the configuration selects; the other is never tried.
pub fn output_channel(config: &Config) -> (r: OutputChannel)
    ensures
        r == if config.use_sendinput {
            OutputChannel::UnicodeInput
        } else {
            OutputChannel::Clipboard
        },
{
    if config.use_sendinput {
        OutputChannel::UnicodeInput
    } else {
        OutputChannel::Clipboard
    }
}

// ---------------------------------------------------------------------------
// Unicode batches
/// Line endings normalized to CR: `\r\n` and `\n` both become `\r`.
pub open spec fn normalized(s: Seq<char>) -> Seq<char>
    decreases s.len(),
{
    if s.len() == 0 {
        Seq::empty()
    } else if s.len() >= 2 && s[0] == '\r' && s[1] == '\n' {
        seq!['\r'] + normalized(s.skip(2))
    } else if s[0] == '\n' {
        seq!['\r'] + normalized(s.skip(1))
    } else {
        seq![s[0]] + normalized(s.skip(1))
    }
}

/// The UTF-16 code units of a character (`char::encode_utf16`).
pub open spec fn utf16_of(c: char) -> Seq<u16> {
    let v = c as u32;
    if v < 0x10000 {
        seq![v as u16]
    } else {
        seq![(0xD800 + (v - 0x10000) / 0x400) as u16, (0xDC00 + (v - 0x10000) % 0x400) as u16]
    }
}

/// The UTF-16 code units of a character sequence.
pub open spec fn utf16_all(cs: Seq<char>) -> Seq<u16>
    decreases cs.len(),
{
    if cs.len() == 0 {
        Seq::empty()
    } else {
        utf16_of(cs[0]) + utf16_all(cs.skip(1))
    }
}

/// The batches concatenated.
pub open spec fn flatten(bs: Seq<Seq<u16>>) -> Seq<u16>
    decreases bs.len(),
{
    if bs.len() == 0 {
        Seq::empty()
    } else {
        flatten(bs.drop_last()) + bs.last()
    }
}

/// Greedy batching: each character's units join the current batch unless
/// that would exceed 128 units, in which case the batch is closed first.
pub open spec fn batches_from(cs: Seq<char>, current: Seq<u16>, done: Seq<Seq<u16>>) -> Seq<
    Seq<u16>,
>
    decreases cs.len(),
{
    if cs.len() == 0 {
        if current.len() == 0 {
            done
        } else {
            done.push(current)
        }
    } else {
        let units = utf16_of(cs[0]);
        if current.len() + units.len() > 128 {
            batches_from(cs.skip(1), units, done.push(current))
        } else {
            batches_from(cs.skip(1), current + units, done)
        }
    }
}

/// The batches of UTF-16 units that carry `text` as Unicode key events.
pub open spec fn unicode_batches_of(text: Seq<char>) -> Seq<Seq<u16>> {
    batches_from(normalized(text), Seq::empty(), Seq::empty())
}

pub open spec fn batch_views(bs: Seq<Vec<u16>>) -> Seq<Seq<u16>> {
    bs.map_values(|b: Vec<u16>| b@)
}

pub open spec fn sizes_ok(bs: Seq<Seq<u16>>) -> bool {
    forall|i: int| 0 <= i < bs.len() ==> 1 <= #[trigger] bs[i].len() <= 128
}

proof fn lemma_flatten_push(bs: Seq<Seq<u16>>, b: Seq<u16>)
    ensures
        flatten(bs.push(b)) == flatten(bs) + b,
{
    assert(bs.push(b).drop_last() =~= bs);
}

/// What greedy batching produces: the units in order, in batches of 1 to
/// 128 units.
proof fn lemma_batches_from(cs: Seq<char>, current: Seq<u16>, done: Seq<Seq<u16>>)
    requires
        sizes_ok(done),
        current.len() <= 128,
    ensures
        flatten(batches_from(cs, current, done)) == flatten(done) + current + utf16_all(cs),
        sizes_ok(batches_from(cs, current, done)),
    decreases cs.len(),
{
    if cs.len() == 0 {
        if current.len() == 0 {
            assert(flatten(done) + current + utf16_all(cs) =~= flatten(done));
        } else {
            lemma_flatten_push(done, current);
            assert(flatten(done) + current + utf16_all(cs) =~= flatten(done) + current);
        }
    } else {
        let units = utf16_of(cs[0]);
        assert(1 <= units.len() <= 2);
        if current.len() + units.len() > 128 {
            lemma_flatten_push(done, current);
            lemma_batches_from(cs.skip(1), units, done.push(current));
            assert(flatten(done.push(current)) + units + utf16_all(cs.skip(1)) =~= flatten(done)
                + current + utf16_all(cs));
        } else {
            lemma_batches_from(cs.skip(1), current + units, done);
            assert(flatten(done) + (current + units) + utf16_all(cs.skip(1)) =~= flatten(done)
                + current + utf16_all(cs));
        }
    }
}

proof fn lemma_normalized_len(s: Seq<char>)
    ensures
        normalized(s).len() <= s.len(),
    decreases s.len(),
{
    if s.len() >= 2 && s[0] == '\r' && s[1] == '\n' {
        lemma_normalized_len(s.skip(2));
    } else if s.len() > 0 {
        lemma_normalized_len(s.skip(1));
    }
}

proof fn lemma_utf16_len(cs: Seq<char>)
    ensures
        utf16_all(cs).len() <= 2 * cs.len(),
    decreases cs.len(),
{
    if cs.len() > 0 {
        lemma_utf16_len(cs.skip(1));
    }
}

proof fn lemma_flatten_prefix_len(bs: Seq<Seq<u16>>, n: int)
    requires
        0 <= n <= bs.len(),
    ensures
        flatten(bs.take(n)).len() <= flatten(bs).len(),
        n > 0 ==> flatten(bs.take(n)).len() == flatten(bs.take(n - 1)).len() + bs[n - 1].len(),
    decreases bs.len() - n,
{
    if n > 0 {
        assert(bs.take(n).drop_last() =~= bs.take(n - 1));
    }
    if n == bs.len() {
        assert(bs.take(n) =~= bs);
    } else {
        lemma_flatten_prefix_len(bs, n + 1);
        assert(bs.take(n + 1).drop_last() =~= bs.take(n));
    }
}

/// The text with line endings normalized (see [`normalized`]).
pub fn normalize_line_endings(text: &[char]) -> (r: Vec<char>)
    ensures
        r@ == normalized(text@),
{
    let mut out: Vec<char> = Vec::new();
    let mut i: usize = 0;
    proof {
        assert(text@.skip(0) =~= text@);
        assert(out@ + normalized(text@) =~= normalized(text@));
    }
    while i < text.len()
        invariant
            0 <= i <= text@.len(),
            normalized(text@) == out@ + normalized(text@.skip(i as int)),
        decreases text@.len() - i,
    {
        let rest = Ghost(text@.skip(i as int));
        if text[i] == '\r' && i + 1 < text.len() && text[i + 1] == '\n' {
            proof {
                assert(rest@.skip(2) =~= text@.skip(i as int + 2));
                assert(rest@[0] == '\r' && rest@[1] == '\n');
            }
            out.push('\r');
            proof {
                assert(out@ + normalized(text@.skip(i as int + 2)) =~= out@.drop_last() + (seq!['\r']
                    + normalized(rest@.skip(2))));
            }
            i = i + 2;
        } else {
            let c = if text[i] == '\n' {
                '\r'
            } else {
                text[i]
            };
            proof {
                assert(rest@.skip(1) =~= text@.skip(i as int + 1));
                assert(rest@[0] == text@[i as int]);
            }
            out.push(c);
            proof {
                assert(out@ + normalized(text@.skip(i as int + 1)) =~= out@.drop_last() + (seq![c]
                    + normalized(rest@.skip(1))));
            }
            i = i + 1;
        }
    }
    proof {
        assert(text@.skip(text@.len() as int) =~= Seq::<char>::empty());
        assert(out@ + normalized(Seq::<char>::empty()) =~= out@);
    }
    out
}

fn utf16_units(c: char) -> (r: Vec<u16>)
    ensures
        r@ == utf16_of(c),
{
    let v = c as u32;
    let mut r: Vec<u16> = Vec::new();
    if v < 0x10000 {
        r.push(v as u16);
    } else {
        proof {
            vstd::utf8::char_is_scalar(c);
        }
        r.push((0xD800 + (v - 0x10000) / 0x400) as u16);
        r.push((0xDC00 + (v - 0x10000) % 0x400) as u16);
    }
    assert(r@ =~= utf16_of(c));
    r
}

/// The UTF-16 batches of `text` as Unicode key events: line endings
/// normalized to CR, no character split across batches, at most 128 units
/// per batch.
pub fn unicode_batches(text: &str) -> (r: Vec<Vec<u16>>)
    ensures
        batch_views(r@) == unicode_batches_of(text@),
        flatten(batch_views(r@)) == utf16_all(normalized(text@)),
        sizes_ok(batch_views(r@)),
{
    let chars = crate::text::chars_of(text);
    let cs = normalize_line_endings(chars.as_slice());
    let mut batches: Vec<Vec<u16>> = Vec::new();
    let mut batch: Vec<u16> = Vec::new();
    let mut i: usize = 0;
    proof {
        assert(cs@.skip(0) =~= cs@);
        assert(batch_views(batches@) =~= Seq::<Seq<u16>>::empty());
        lemma_batches_from(cs@, Seq::empty(), Seq::empty());
    }
    while i < cs.len()
        invariant
            0 <= i <= cs@.len(),
            cs@ == normalized(text@),
            batch@.len() <= 128,
            sizes_ok(batch_views(batches@)),
            unicode_batches_of(text@) == batches_from(
                cs@.skip(i as int),
                batch@,
                batch_views(batches@),
            ),
        decreases cs@.len() - i,
    {
        let units = utf16_units(cs[i]);
        let ghost done = batch_views(batches@);
        let ghost current = batch@;
        proof {
            assert(cs@.skip(i as int).skip(1) =~= cs@.skip(i as int + 1));
            assert(cs@.skip(i as int)[0] == cs@[i as int]);
            assert(batches_from(cs@.skip(i as int), current, done) == if current.len()
                + units@.len() > 128 {
                batches_from(cs@.skip(i as int + 1), units@, done.push(current))
            } else {
                batches_from(cs@.skip(i as int + 1), current + units@, done)
            });
        }
        if batch.len() + units.len() > 128 {
            let mut full = units;
            std::mem::swap(&mut full, &mut batch);
            batches.push(full);
            proof {
                assert(batch_views(batches@) =~= done.push(current));
                assert(sizes_ok(batch_views(batches@))) by {
                    assert forall|j: int| 0 <= j < batch_views(batches@).len() implies 1
                        <= #[trigger] batch_views(batches@)[j].len() <= 128 by {
                        if j < done.len() {
                            assert(batch_views(batches@)[j] == done[j]);
                        }
                    }
                }
            }
        } else {
            let mut k: usize = 0;
            let ghost start = batch@;
            while k < units.len()
                invariant
                    0 <= k <= units@.len(),
                    units@.len() <= 2,
                    batch@ == start + units@.take(k as int),
                decreases units@.len() - k,
            {
                batch.push(units[k]);
                proof {
                    assert(start + units@.take(k as int + 1) =~= (start + units@.take(k as int)).push(
                        units@[k as int],
                    ));
                }
                k = k + 1;
            }
            proof {
                assert(units@.take(units@.len() as int) =~= units@);
                assert(batch@ == current + units@);
            }
        }
        i = i + 1;
    }
    if batch.len() > 0 {
        batches.push(batch);
        proof {
            assert(batch_views(batches@) =~= batch_views(batches@.drop_last()).push(batches@.last()@));
        }
    }
    proof {
        assert(cs@.skip(cs@.len() as int) =~= Seq::<char>::empty());
        lemma_batches_from(normalized(text@), Seq::empty(), Seq::empty());
        assert(flatten(Seq::<Seq<u16>>::empty()) + Seq::<u16>::empty() + utf16_all(normalized(text@))
            =~= utf16_all(normalized(text@)));
    }
    batches
}

/// A Unicode delivery in progress: the batches, how many were sent and
/// how many key events went out.
pub struct UnicodeDelivery {
    batches: Vec<Vec<u16>>,
    next: usize,
    sent: usize,
    total: usize,
}

impl UnicodeDelivery {
    pub closed spec fn batch_seq(&self) -> Seq<Seq<u16>> {
        batch_views(self.batches@)
    }

    pub closed spec fn next_index(&self) -> int {
        self.next as int
    }

    /// Key events inserted so far.
    pub closed spec fn sent_events(&self) -> int {
        self.sent as int
    }

    /// Key events of the whole text: a key-down and a key-up per unit.
    pub closed spec fn total_events(&self) -> int {
        self.total as int
    }

    pub closed spec fn wf(&self) -> bool {
        &&& self.next <= self.batches@.len()
        &&& self.total == 2 * flatten(batch_views(self.batches@)).len()
        &&& self.sent <= 2 * flatten(batch_views(self.batches@).take(self.next as int)).len()
        &&& sizes_ok(batch_views(self.batches@))
    }

    /// Prepares the delivery of `text`. Its length is bounded so that the
    /// event count fits a `usize`.
    pub fn new(text: &str) -> (r: UnicodeDelivery)
        requires
            text@.len() <= usize::MAX / 4,
        ensures
            r.wf(),
            r.batch_seq() == unicode_batches_of(text@),
            r.next_index() == 0,
            r.sent_events() == 0,
            r.total_events() == 2 * utf16_all(normalized(text@)).len(),
    {
        let batches = unicode_batches(text);
        proof {
            lemma_normalized_len(text@);
            lemma_utf16_len(normalized(text@));
        }
        let mut total: usize = 0;
        let mut i: usize = 0;
        while i < batches.len()
            invariant
                0 <= i <= batches@.len(),
                flatten(batch_views(batches@)).len() <= usize::MAX / 2,
                total == 2 * flatten(batch_views(batches@).take(i as int)).len(),
            decreases batches@.len() - i,
        {
            proof {
                let bv = batch_views(batches@);
                assert(bv.take(i as int + 1).drop_last() =~= bv.take(i as int));
                lemma_flatten_prefix_len(bv, i as int + 1);
            }
            total = total + 2 * batches[i].len();
            i = i + 1;
        }
        proof {
            assert(batch_views(batches@).take(batches@.len() as int) =~= batch_views(batches@));
        }
        proof {
            assert(batch_views(batches@).take(0) =~= Seq::<Seq<u16>>::empty());
        }
        UnicodeDelivery { batches, next: 0, sent: 0, total }
    }

    /// The batch to send next, if any is left.
    pub fn current(&self) -> (r: Option<&Vec<u16>>)
        requires
            self.wf(),
        ensures
            match r {
                Some(b) => self.next_index() < self.batch_seq().len() && b@ == self.batch_seq()[self.next_index()],
                None => self.next_index() >= self.batch_seq().len(),
            },
    {
        if self.next < self.batches.len() {
            Some(&self.batches[self.next])
        } else {
            None
        }
    }

    /// Records that the current batch was sent and `inserted` of its key
    /// events went in (`SendInput` inserts at most the events it is given).
    /// A short insertion ends the delivery.
    pub fn record_sent(&mut self, inserted: usize, code: u32) -> (r: Result<(), TextInputError>)
        requires
            old(self).wf(),
            old(self).next_index() < old(self).batch_seq().len(),
            inserted <= 2 * old(self).batch_seq()[old(self).next_index()].len(),
        ensures
            final(self).wf(),
            final(self).batch_seq() == old(self).batch_seq(),
            final(self).total_events() == old(self).total_events(),
            final(self).sent_events() == old(self).sent_events() + inserted,
            final(self).next_index() == old(self).next_index() + 1,
            inserted == 2 * old(self).batch_seq()[old(self).next_index()].len() ==> r is Ok,
            inserted != 2 * old(self).batch_seq()[old(self).next_index()].len() ==> (r
                matches Err(TextInputError::Send { sent, total, code: c }) && sent
                == final(self).sent_events() && total == final(self).total_events() && c == code),
    {
        proof {
            lemma_flatten_prefix_len(batch_views(self.batches@), self.next as int + 1);
            assert(batch_views(self.batches@)[self.next as int] == self.batches@[self.next as int]@);
        }
        let count = self.batches.len();
        assert(batch_views(self.batches@).len() == count);
        let expected = 2 * self.batches[self.next].len();
        self.sent = self.sent + inserted;
        self.next = self.next + 1;
        if inserted != expected {
            return Err(TextInputError::Send { sent: self.sent, total: self.total, code });
        }
        Ok(())
    }

    /// The error when the delivery is canceled now.
    pub fn canceled(&self) -> (r: TextInputError)
        ensures
            r matches TextInputError::Canceled { sent } && sent == self.sent_events(),
    {
        TextInputError::Canceled { sent: self.sent }
    }

    /// The error when modifier keys stayed pressed for too long: nothing
    /// was typed yet, or the delivery is left incomplete.
    pub fn modifiers_timed_out(&self) -> (r: TextInputError)
        ensures
            self.sent_events() == 0 ==> r matches TextInputError::ModifiersHeld,
            self.sent_events() != 0 ==> (r matches TextInputError::Send { sent, total, code }
                && sent == self.sent_events() && total == self.total_events() && code == 0),
    {
        if self.sent == 0 {
            TextInputError::ModifiersHeld
        } else {
            TextInputError::Send { sent: self.sent, total: self.total, code: 0 }
        }
    }
}

} // verus!
