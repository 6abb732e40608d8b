//! Text-entry state machine. The buffer is kept as a sequence of code
//! points with the cursor between them, so an insert or delete can
//! never split a multi-byte code point; the byte-index view of the
//! cursor is proved to always land on a code-point boundary.

use vstd::prelude::*;
use vstd::utf8::encode_utf8;
use vstd::utf8::encode_scalar;
use vstd::utf8::is_char_boundary;
use vstd::utf8::encode_utf8_first_scalar;
use vstd::utf8::length_of_first_scalar;
use vstd::utf8::pop_first_scalar;

verus! {

/// Byte cap for raw text entry.
pub const MAX_INPUT_LEN: usize = 512;

/// Byte cap for hexadecimal entry: three characters per byte of the
/// largest attribute value.
pub const MAX_HEX_INPUT_LEN: usize = 1536;

#[derive(Clone, Copy, PartialEq, Eq, Structural, Debug)]
pub enum InputMode {
    Normal,
    Editing,
}

#[derive(Clone, Copy, PartialEq, Eq, Structural, Debug)]
pub enum DataFormat {
    Hex,
    Text,
}

impl DataFormat {
    pub fn label(&self) -> (r: &'static str)
        ensures
            r@ == match self {
                DataFormat::Hex => "Hex"@,
                DataFormat::Text => "Text"@,
            },
    {
        match self {
            DataFormat::Hex => "Hex",
            DataFormat::Text => "Text",
        }
    }

    /// The byte cap that applies to entry in this format.
    pub fn max_input_bytes(&self) -> (r: usize)
        ensures
            r == match self {
                DataFormat::Hex => MAX_HEX_INPUT_LEN as int,
                DataFormat::Text => MAX_INPUT_LEN as int,
            },
    {
        match self {
            DataFormat::Hex => MAX_HEX_INPUT_LEN,
            DataFormat::Text => MAX_INPUT_LEN,
        }
    }
}

/// Length in bytes of the UTF-8 encoding of `s`.
pub open spec fn utf8_len(s: Seq<char>) -> nat {
    encode_utf8(s).len()
}

proof fn lemma_encode_concat(a: Seq<char>, b: Seq<char>)
    ensures
        encode_utf8(a + b) == encode_utf8(a) + encode_utf8(b),
    decreases a.len(),
{
    if a.len() == 0 {
        assert(a + b =~= b);
        assert(encode_utf8(a) + encode_utf8(b) =~= encode_utf8(b));
    } else {
        assert((a + b).drop_first() =~= a.drop_first() + b);
        lemma_encode_concat(a.drop_first(), b);
        assert((a + b).len() != 0);
        assert((a + b)[0] == a[0]);
        assert(encode_utf8(a + b) =~= encode_utf8(a) + encode_utf8(b));
    }
}

proof fn lemma_utf8_len_ge(s: Seq<char>)
    ensures
        utf8_len(s) >= s.len(),
    decreases s.len(),
{
    if s.len() > 0 {
        lemma_utf8_len_ge(s.drop_first());
    }
}

/// The byte index of a character position is a code-point boundary of
/// the encoded buffer.
pub proof fn lemma_char_pos_is_boundary(s: Seq<char>, k: int)
    requires
        0 <= k <= s.len(),
    ensures
        is_char_boundary(encode_utf8(s), utf8_len(s.take(k)) as int),
    decreases k,
{
    broadcast use vstd::utf8::encode_utf8_valid_utf8;

    if k == 0 {
        assert(s.take(0) =~= Seq::<char>::empty());
        assert(utf8_len(s.take(0)) == 0);
    } else {
        let bytes = encode_utf8(s);
        encode_utf8_first_scalar(s);
        let w = encode_scalar(s[0] as u32).len();
        assert(length_of_first_scalar(bytes) == w);
        assert(pop_first_scalar(bytes) =~= encode_utf8(s.drop_first()));
        lemma_char_pos_is_boundary(s.drop_first(), k - 1);
        assert(s.take(k) =~= seq![s[0]] + s.drop_first().take(k - 1));
        lemma_encode_concat(seq![s[0]], s.drop_first().take(k - 1));
        assert(encode_utf8(seq![s[0]]) =~= encode_scalar(s[0] as u32)) by {
            assert(seq![s[0]].drop_first() =~= Seq::<char>::empty());
            assert(encode_utf8(seq![s[0]]) =~= encode_scalar(s[0] as u32) + encode_utf8(
                Seq::<char>::empty(),
            ));
        }
        assert(utf8_len(s.take(k)) == w + utf8_len(s.drop_first().take(k - 1)));
        assert(is_char_boundary(bytes, utf8_len(s.take(k)) as int));
    }
}

/// Bytes the UTF-8 encoding of one code point takes.
pub fn char_utf8_len(c: char) -> (r: usize)
    ensures
        r == encode_scalar(c as u32).len(),
        1 <= r <= 4,
{
    proof {
        vstd::utf8::char_is_scalar(c);
    }
    let v = c as u32;
    if v < 0x80 {
        1
    } else if v < 0x800 {
        2
    } else if v < 0x10000 {
        3
    } else {
        4
    }
}

/// Relies on std's `FromIterator` for `String`: collecting code
/// points yields the string of exactly those code points.
#[verifier::external_body]
fn chars_to_string(v: &Vec<char>) -> (r: String)
    ensures
        r@ == v@,
{
    v.iter().collect()
}

/// The text-entry buffer and cursor.
pub struct InputState {
    chars: Vec<char>,
    cursor: usize,
    bytes: usize,
    mode: InputMode,
}

impl View for InputState {
    type V = Seq<char>;

    closed spec fn view(&self) -> Seq<char> {
        self.chars@
    }
}

impl InputState {
    /// The cursor as a character position.
    pub closed spec fn cursor_pos(&self) -> int {
        self.cursor as int
    }

    /// Whether the state is in normal or editing mode.
    pub closed spec fn mode_spec(&self) -> InputMode {
        self.mode
    }

    pub fn mode(&self) -> (r: InputMode)
        ensures
            r == self.mode_spec(),
    {
        self.mode
    }

    /// The cursor as a byte index into the encoded buffer.
    pub open spec fn byte_cursor(&self) -> int {
        utf8_len(self@.take(self.cursor_pos())) as int
    }

    pub open spec fn well_formed(&self) -> bool {
        0 <= self.cursor_pos() <= self@.len() && utf8_len(self@) <= MAX_HEX_INPUT_LEN
            && self.byte_count() == utf8_len(self@)
    }

    /// Cached byte length of the buffer.
    pub closed spec fn byte_count(&self) -> nat {
        self.bytes as nat
    }

    /// The cursor always lands on a code-point boundary.
    pub proof fn lemma_cursor_on_boundary(&self)
        requires
            self.well_formed(),
        ensures
            is_char_boundary(encode_utf8(self@), self.byte_cursor()),
    {
        lemma_char_pos_is_boundary(self@, self.cursor_pos());
    }

    pub fn new() -> (r: InputState)
        ensures
            r@ == Seq::<char>::empty(),
            r.cursor_pos() == 0,
            r.mode_spec() == InputMode::Normal,
            r.well_formed(),
    {
        proof {
            assert(encode_utf8(Seq::<char>::empty()).len() == 0);
        }
        InputState { chars: Vec::new(), cursor: 0, bytes: 0, mode: InputMode::Normal }
    }

    pub fn byte_len(&self) -> (r: usize)
        requires
            self.well_formed(),
        ensures
            r == utf8_len(self@),
    {
        self.bytes
    }

    pub fn cursor(&self) -> (r: usize)
        ensures
            r == self.cursor_pos(),
    {
        self.cursor
    }

    /// The buffer's text.
    pub fn text(&self) -> (r: String)
        ensures
            r@ == self@,
    {
        chars_to_string(&self.chars)
    }

    /// Inserts one code point at the cursor, unless that would push the
    /// buffer past `max_bytes`; a rejected insert changes nothing.
    pub fn insert_char(&mut self, c: char, max_bytes: usize) -> (accepted: bool)
        requires
            old(self).well_formed(),
            max_bytes <= MAX_HEX_INPUT_LEN,
        ensures
            final(self).well_formed(),
            final(self).mode_spec() == old(self).mode_spec(),
            accepted == (utf8_len(old(self)@) + encode_scalar(c as u32).len() <= max_bytes),
            accepted ==> final(self)@ == old(self)@.insert(old(self).cursor_pos(), c)
                && final(self).cursor_pos() == old(self).cursor_pos() + 1,
            !accepted ==> final(self)@ == old(self)@ && final(self).cursor_pos() == old(
                self,
            ).cursor_pos(),
    {
        let w = char_utf8_len(c);
        if self.bytes > max_bytes || w > max_bytes - self.bytes {
            return false;
        }
        proof {
            lemma_utf8_len_ge(self@);
        }
        self.chars.insert(self.cursor, c);
        self.cursor = self.cursor + 1;
        self.bytes = self.bytes + w;
        proof {
            assert(self@ =~= old(self)@.take(old(self).cursor_pos()) + seq![c] + old(
                self,
            )@.skip(old(self).cursor_pos()));
            assert(old(self)@ =~= old(self)@.take(old(self).cursor_pos()) + old(self)@.skip(
                old(self).cursor_pos(),
            ));
            lemma_encode_concat(
                old(self)@.take(old(self).cursor_pos()),
                old(self)@.skip(old(self).cursor_pos()),
            );
            lemma_encode_concat(
                old(self)@.take(old(self).cursor_pos()) + seq![c],
                old(self)@.skip(old(self).cursor_pos()),
            );
            lemma_encode_concat(old(self)@.take(old(self).cursor_pos()), seq![c]);
            assert(encode_utf8(seq![c]) =~= encode_scalar(c as u32)) by {
                assert(seq![c].drop_first() =~= Seq::<char>::empty());
                assert(encode_utf8(seq![c]) =~= encode_scalar(c as u32) + encode_utf8(
                    Seq::<char>::empty(),
                ));
            }
            assert((old(self)@.take(old(self).cursor_pos()) + seq![c]) + old(self)@.skip(
                old(self).cursor_pos(),
            ) =~= old(self)@.take(old(self).cursor_pos()) + seq![c] + old(self)@.skip(
                old(self).cursor_pos(),
            ));
            assert(utf8_len(self@) == utf8_len(old(self)@) + encode_scalar(c as u32).len());
        }
        true
    }

    /// Deletes the code point before the cursor, if any.
    pub fn backspace(&mut self)
        requires
            old(self).well_formed(),
        ensures
            final(self).well_formed(),
            final(self).mode_spec() == old(self).mode_spec(),
            old(self).cursor_pos() == 0 ==> final(self)@ == old(self)@ && final(self).cursor_pos()
                == 0,
            old(self).cursor_pos() > 0 ==> final(self)@ == old(self)@.remove(
                old(self).cursor_pos() - 1,
            ) && final(self).cursor_pos() == old(self).cursor_pos() - 1,
    {
        if self.cursor == 0 {
            return ;
        }
        let removed = self.chars.remove(self.cursor - 1);
        self.cursor = self.cursor - 1;
        let w = char_utf8_len(removed);
        proof {
            let i = old(self).cursor_pos() - 1;
            assert(old(self)@ =~= old(self)@.take(i) + seq![old(self)@[i]] + old(self)@.skip(
                i + 1,
            ));
            assert(self@ =~= old(self)@.take(i) + old(self)@.skip(i + 1));
            lemma_encode_concat(old(self)@.take(i) + seq![old(self)@[i]], old(self)@.skip(i + 1));
            lemma_encode_concat(old(self)@.take(i), seq![old(self)@[i]]);
            lemma_encode_concat(old(self)@.take(i), old(self)@.skip(i + 1));
            assert(encode_utf8(seq![old(self)@[i]]) =~= encode_scalar(old(self)@[i] as u32)) by {
                assert(seq![old(self)@[i]].drop_first() =~= Seq::<char>::empty());
                assert(encode_utf8(seq![old(self)@[i]]) =~= encode_scalar(old(self)@[i] as u32)
                    + encode_utf8(Seq::<char>::empty()));
            }
            assert(utf8_len(old(self)@) == utf8_len(self@) + encode_scalar(
                old(self)@[i] as u32,
            ).len());
        }
        self.bytes = self.bytes - w;
    }

    /// Moves the cursor one code point to the left, if possible.
    pub fn move_left(&mut self)
        requires
            old(self).well_formed(),
        ensures
            final(self).well_formed(),
            final(self)@ == old(self)@,
            final(self).mode_spec() == old(self).mode_spec(),
            final(self).cursor_pos() == if old(self).cursor_pos() > 0 {
                old(self).cursor_pos() - 1
            } else {
                0
            },
    {
        if self.cursor > 0 {
            self.cursor = self.cursor - 1;
        }
    }

    /// Moves the cursor one code point to the right, if possible.
    pub fn move_right(&mut self)
        requires
            old(self).well_formed(),
        ensures
            final(self).well_formed(),
            final(self)@ == old(self)@,
            final(self).mode_spec() == old(self).mode_spec(),
            final(self).cursor_pos() == if old(self).cursor_pos() < old(self)@.len() {
                old(self).cursor_pos() + 1
            } else {
                old(self)@.len() as int
            },
    {
        if self.cursor < self.chars.len() {
            self.cursor = self.cursor + 1;
        }
    }

    /// Enters editing mode with an empty buffer.
    pub fn begin_edit(&mut self)
        ensures
            final(self)@ == Seq::<char>::empty(),
            final(self).cursor_pos() == 0,
            final(self).mode_spec() == InputMode::Editing,
            final(self).well_formed(),
    {
        proof {
            assert(encode_utf8(Seq::<char>::empty()).len() == 0);
        }
        self.chars = Vec::new();
        self.cursor = 0;
        self.bytes = 0;
        self.mode = InputMode::Editing;
    }

    /// Discards the buffer and returns to normal mode.
    pub fn cancel_edit(&mut self)
        ensures
            final(self)@ == Seq::<char>::empty(),
            final(self).cursor_pos() == 0,
            final(self).mode_spec() == InputMode::Normal,
            final(self).well_formed(),
    {
        proof {
            assert(encode_utf8(Seq::<char>::empty()).len() == 0);
        }
        self.chars = Vec::new();
        self.cursor = 0;
        self.bytes = 0;
        self.mode = InputMode::Normal;
    }

    /// Takes the committed text, clears the buffer and returns to
    /// normal mode.
    pub fn commit_edit(&mut self) -> (r: String)
        ensures
            r@ == old(self)@,
            final(self)@ == Seq::<char>::empty(),
            final(self).cursor_pos() == 0,
            final(self).mode_spec() == InputMode::Normal,
            final(self).well_formed(),
    {
        let text = chars_to_string(&self.chars);
        proof {
            assert(encode_utf8(Seq::<char>::empty()).len() == 0);
        }
        self.chars = Vec::new();
        self.cursor = 0;
        self.bytes = 0;
        self.mode = InputMode::Normal;
        text
    }
}

} // verus!
