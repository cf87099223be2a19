use vstd::prelude::*;

use bytes::{Buf, BytesMut};

verus! {

#[verifier::external_type_specification]
#[verifier::external_body]
pub struct ExBytesMut(BytesMut);

/// The bytes that a buffer holds, front first.
pub uninterp spec fn buffered(b: BytesMut) -> Seq<u8>;

/// Relies on `<BytesMut as Buf>::chunk`: for `BytesMut` it is the whole
/// initialised contents, front first.
#[verifier::external_body]
fn buffer_contents(b: &BytesMut) -> (r: &[u8])
    ensures
        r@ == buffered(*b),
{
    b.chunk()
}

/// Relies on `<BytesMut as Buf>::advance`: drops the first `n` bytes, and
/// panics when fewer are buffered.
#[verifier::external_body]
fn buffer_advance(b: &mut BytesMut, n: usize)
    requires
        n <= buffered(*old(b)).len(),
    ensures
        buffered(*final(b)) == buffered(*old(b)).skip(n as int),
{
    b.advance(n)
}

/// The escape marker that introduces a control or negotiation sequence.
pub const IAC: u8 = 0xff;

/// Accumulates the current text line of a TELNET byte stream.
pub struct TelnetCodec {
    current_line: Vec<u8>,
}

impl View for TelnetCodec {
    type V = Seq<u8>;

    closed spec fn view(&self) -> Seq<u8> {
        self.current_line@
    }
}

impl TelnetCodec {
    pub fn new() -> (r: Self)
        ensures
            r@ == Seq::<u8>::empty(),
    {
        TelnetCodec { current_line: Vec::with_capacity(1024) }
    }
}

/// One unit of the decoded stream.
#[derive(Debug, PartialEq, Eq)]
pub enum Item {
    Line(Vec<u8>),
    SE,
    DataMark,
    Break,
    InterruptProcess,
    AbortOutput,
    AreYouThere,
    GoAhead,
    SB,
    Will(u8),
    Wont(u8),
    Do(u8),
    Dont(u8),
}

/// The mathematical value of an [`Item`].
pub ghost enum ItemView {
    Line(Seq<u8>),
    SE,
    DataMark,
    Break,
    InterruptProcess,
    AbortOutput,
    AreYouThere,
    GoAhead,
    SB,
    Will(u8),
    Wont(u8),
    Do(u8),
    Dont(u8),
}

impl View for Item {
    type V = ItemView;

    open spec fn view(&self) -> ItemView {
        match self {
            Item::Line(l) => ItemView::Line(l@),
            Item::SE => ItemView::SE,
            Item::DataMark => ItemView::DataMark,
            Item::Break => ItemView::Break,
            Item::InterruptProcess => ItemView::InterruptProcess,
            Item::AbortOutput => ItemView::AbortOutput,
            Item::AreYouThere => ItemView::AreYouThere,
            Item::GoAhead => ItemView::GoAhead,
            Item::SB => ItemView::SB,
            Item::Will(o) => ItemView::Will(*o),
            Item::Wont(o) => ItemView::Wont(*o),
            Item::Do(o) => ItemView::Do(*o),
            Item::Dont(o) => ItemView::Dont(*o),
        }
    }
}

/// Why a byte stream could not be decoded.
#[derive(Debug, Clone, Copy, PartialEq, Eq, Structural)]
pub enum DecodeError {
    /// An escape marker followed by a byte that names no command.
    UnknownCommand(u8),
}

/// What an escape sequence at the front of a buffer means.
pub ghost enum IacStep {
    NeedMore,
    Invalid(u8),
    Emit(ItemView, nat),
    Nop,
    EraseCharacter,
    EraseLine,
    Escaped,
}

/// Commands that carry an option byte after them.
pub open spec fn is_three_byte_command(c: u8) -> bool {
    251 <= c <= 254
}

/// The meaning of the escape sequence that starts `s` (whose first byte is
/// the marker): the two-byte sequences, the three-byte negotiation commands,
/// or a shortage of bytes.
pub open spec fn iac_step(s: Seq<u8>) -> IacStep {
    if s.len() < 2 || (is_three_byte_command(s[1]) && s.len() < 3) {
        IacStep::NeedMore
    } else {
        let c = s[1];
        if c == 240 {
            IacStep::Emit(ItemView::SE, 2)
        } else if c == 241 {
            IacStep::Nop
        } else if c == 242 {
            IacStep::Emit(ItemView::DataMark, 2)
        } else if c == 243 {
            IacStep::Emit(ItemView::Break, 2)
        } else if c == 244 {
            IacStep::Emit(ItemView::InterruptProcess, 2)
        } else if c == 245 {
            IacStep::Emit(ItemView::AbortOutput, 2)
        } else if c == 246 {
            IacStep::Emit(ItemView::AreYouThere, 2)
        } else if c == 247 {
            IacStep::EraseCharacter
        } else if c == 248 {
            IacStep::EraseLine
        } else if c == 249 {
            IacStep::Emit(ItemView::GoAhead, 2)
        } else if c == 250 {
            IacStep::Emit(ItemView::SB, 2)
        } else if c == 251 {
            IacStep::Emit(ItemView::Will(s[2]), 3)
        } else if c == 252 {
            IacStep::Emit(ItemView::Wont(s[2]), 3)
        } else if c == 253 {
            IacStep::Emit(ItemView::Do(s[2]), 3)
        } else if c == 254 {
            IacStep::Emit(ItemView::Dont(s[2]), 3)
        } else if c == 255 {
            IacStep::Escaped
        } else {
            IacStep::Invalid(c)
        }
    }
}

/// How one call of the decoder ends.
pub ghost enum Outcome {
    NeedMore,
    Emit(ItemView),
    Invalid(u8),
}

/// A line with its last byte erased, if it has one.
pub open spec fn erase_last(line: Seq<u8>) -> Seq<u8> {
    if line.len() > 0 {
        line.drop_last()
    } else {
        line
    }
}

/// One call of the decoder with buffered line `line` on input `s`: how it
/// ends, the buffered line after it, and how many bytes it consumes.
pub open spec fn decode_spec(line: Seq<u8>, s: Seq<u8>) -> (Outcome, Seq<u8>, nat)
    decreases s.len(),
{
    if s.len() == 0 {
        (Outcome::NeedMore, line, 0)
    } else if s[0] == IAC {
        match iac_step(s) {
            IacStep::NeedMore => (Outcome::NeedMore, line, 0),
            IacStep::Invalid(c) => (Outcome::Invalid(c), line, 0),
            IacStep::Emit(item, n) => (Outcome::Emit(item), line, n),
            IacStep::Nop => decode_after(line, s, 2),
            IacStep::EraseCharacter => decode_after(erase_last(line), s, 2),
            IacStep::EraseLine => decode_after(Seq::empty(), s, 2),
            IacStep::Escaped => decode_after(line.push(IAC), s, 2),
        }
    } else if s[0] == 10 {
        (Outcome::Emit(ItemView::Line(line)), Seq::empty(), 1)
    } else if s[0] < 32 {
        decode_after(line, s, 1)
    } else {
        decode_after(line.push(s[0]), s, 1)
    }
}

/// The decoder going on after `k` bytes of `s` changed the line to `line`.
pub open spec fn decode_after(line: Seq<u8>, s: Seq<u8>, k: nat) -> (Outcome, Seq<u8>, nat)
    decreases s.len(), 0nat,
{
    if 1 <= k <= s.len() {
        let (o, l, n) = decode_spec(line, s.skip(k as int));
        (o, l, n + k)
    } else {
        (Outcome::NeedMore, line, 0)
    }
}


/// The line after the escape sequence at the front of `s`, for the sequences
/// that change the line and emit nothing.
pub open spec fn line_after_iac(line: Seq<u8>, s: Seq<u8>) -> Seq<u8> {
    match iac_step(s) {
        IacStep::EraseCharacter => erase_last(line),
        IacStep::EraseLine => Seq::empty(),
        IacStep::Escaped => line.push(IAC),
        _ => line,
    }
}

/// A marker followed by a byte below 240 names no command: the call fails on
/// it, consuming nothing and leaving the line as it was.
pub proof fn lemma_unknown_command_fails(line: Seq<u8>, s: Seq<u8>)
    requires
        s.len() >= 2,
        s[0] == IAC,
        s[1] < 240,
    ensures
        decode_spec(line, s) == (Outcome::Invalid(s[1]), line, 0nat),
{
}

/// Appending bytes never changes a call that has already ended: when a call
/// on `s` emits an item or fails, a call on `s` followed by `t` ends the same
/// way, with the same line and the same count of consumed bytes. With
/// [`lemma_need_more_resumes`] this makes the decoded items independent of
/// how the stream is cut into pieces.
pub proof fn lemma_decided_call_ignores_more(line: Seq<u8>, s: Seq<u8>, t: Seq<u8>)
    requires
        !(decode_spec(line, s).0 is NeedMore),
    ensures
        decode_spec(line, s + t) == decode_spec(line, s),
    decreases s.len(),
{
    let u = s + t;
    assert(s.len() > 0);
    assert(u[0] == s[0]);
    if s[0] == IAC {
        assert(!(iac_step(s) is NeedMore));
        assert(u[1] == s[1]);
        if is_three_byte_command(s[1]) {
            assert(u[2] == s[2]);
        }
        assert(iac_step(u) == iac_step(s));
        if s[1] == 241 || s[1] == 247 || s[1] == 248 || s[1] == 255 {
            assert(u.skip(2) =~= s.skip(2) + t);
            lemma_decided_call_ignores_more(line_after_iac(line, s), s.skip(2), t);
        }
    } else if s[0] != 10 {
        let line2 = if s[0] < 32 {
            line
        } else {
            line.push(s[0])
        };
        assert(u.skip(1) =~= s.skip(1) + t);
        lemma_decided_call_ignores_more(line2, s.skip(1), t);
    }
}

/// A call never consumes more bytes than it is given.
pub proof fn lemma_consumed_bounded(line: Seq<u8>, s: Seq<u8>)
    ensures
        decode_spec(line, s).2 <= s.len(),
    decreases s.len(),
{
    if s.len() > 0 {
        let k: int = if s[0] == IAC { 2 } else { 1 };
        if k <= s.len() {
            if s[0] == IAC {
                lemma_consumed_bounded(line_after_iac(line, s), s.skip(k));
            } else {
                lemma_consumed_bounded(line, s.skip(k));
                lemma_consumed_bounded(line.push(s[0]), s.skip(k));
            }
        }
    }
}

/// Feeding the decoder in pieces gives what feeding it at once gives: when a
/// call on `s` asks for more bytes, a call on `s` followed by `t` ends as a
/// call on the unconsumed rest of `s` followed by `t`, from the line that the
/// first call left, ends, with the bytes of the first call counted too.
pub proof fn lemma_need_more_resumes(line: Seq<u8>, s: Seq<u8>, t: Seq<u8>)
    requires
        decode_spec(line, s).0 == Outcome::NeedMore,
    ensures
        ({
            let (_, l1, n) = decode_spec(line, s);
            let (o2, l2, m) = decode_spec(l1, s.skip(n as int) + t);
            decode_spec(line, s + t) == (o2, l2, m + n)
        }),
    decreases s.len(),
{
    let u = s + t;
    if s.len() == 0 {
        assert(u =~= t);
        assert(s.skip(0) =~= s);
    } else if s[0] == IAC && iac_step(s) is NeedMore {
        assert(s.skip(0) =~= s);
    } else {
        let k: int = if s[0] == IAC { 2 } else { 1 };
        let line2 = if s[0] == IAC {
            line_after_iac(line, s)
        } else if s[0] == 10 || s[0] < 32 {
            line
        } else {
            line.push(s[0])
        };
        assert(u[0] == s[0]);
        if s[0] == IAC {
            assert(u[1] == s[1]);
            if is_three_byte_command(s[1]) {
                assert(u[2] == s[2]);
            }
            assert(iac_step(u) == iac_step(s));
        }
        assert(u.skip(k) =~= s.skip(k) + t);
        lemma_need_more_resumes(line2, s.skip(k), t);
        let n1 = decode_spec(line2, s.skip(k)).2;
        lemma_consumed_bounded(line2, s.skip(k));
        assert(s.skip(k).skip(n1 as int) =~= s.skip(k + n1));
    }
}

/// The byte count of an escape sequence that [`iac_step`] describes: none
/// when more bytes are needed or the command is unknown.
pub open spec fn iac_len(step: IacStep) -> nat {
    match step {
        IacStep::NeedMore => 0,
        IacStep::Invalid(_) => 0,
        IacStep::Emit(_, n) => n,
        _ => 2,
    }
}

enum ParseIacResult {
    Invalid(u8),
    NeedMore,
    Item(Item),
    NOP,
    EraseCharacter,
    EraseLine,
    Escaped,
}

impl ParseIacResult {
    spec fn step(&self, consume: usize) -> IacStep {
        match self {
            ParseIacResult::Invalid(c) => IacStep::Invalid(*c),
            ParseIacResult::NeedMore => IacStep::NeedMore,
            ParseIacResult::Item(i) => IacStep::Emit(i@, consume as nat),
            ParseIacResult::NOP => IacStep::Nop,
            ParseIacResult::EraseCharacter => IacStep::EraseCharacter,
            ParseIacResult::EraseLine => IacStep::EraseLine,
            ParseIacResult::Escaped => IacStep::Escaped,
        }
    }
}

/// Parses the escape sequence at the front of `bytes`, and says how many
/// bytes it takes.
fn try_parse_iac(bytes: &[u8]) -> (r: (ParseIacResult, usize))
    requires
        bytes@.len() >= 2 ==> bytes@[0] == IAC,
    ensures
        r.0.step(r.1) == iac_step(bytes@),
        r.1 == iac_len(iac_step(bytes@)),
        r.1 <= bytes@.len(),
        r.0 is NeedMore <==> bytes@.len() < 2 || (is_three_byte_command(bytes@[1]) && bytes@.len() < 3),
        r.0 is Invalid <==> bytes@.len() >= 2 && bytes@[1] < 240,
{
    if bytes.len() < 2 {
        return (ParseIacResult::NeedMore, 0);
    }
    if is_three_byte_iac(bytes[1]) && bytes.len() < 3 {
        return (ParseIacResult::NeedMore, 0);
    }
    match bytes[1] {
        240 => (ParseIacResult::Item(Item::SE), 2),
        241 => (ParseIacResult::NOP, 2),
        242 => (ParseIacResult::Item(Item::DataMark), 2),
        243 => (ParseIacResult::Item(Item::Break), 2),
        244 => (ParseIacResult::Item(Item::InterruptProcess), 2),
        245 => (ParseIacResult::Item(Item::AbortOutput), 2),
        246 => (ParseIacResult::Item(Item::AreYouThere), 2),
        247 => (ParseIacResult::EraseCharacter, 2),
        248 => (ParseIacResult::EraseLine, 2),
        249 => (ParseIacResult::Item(Item::GoAhead), 2),
        250 => (ParseIacResult::Item(Item::SB), 2),
        251 => (ParseIacResult::Item(Item::Will(bytes[2])), 3),
        252 => (ParseIacResult::Item(Item::Wont(bytes[2])), 3),
        253 => (ParseIacResult::Item(Item::Do(bytes[2])), 3),
        254 => (ParseIacResult::Item(Item::Dont(bytes[2])), 3),
        255 => (ParseIacResult::Escaped, 2),
        cmd => (ParseIacResult::Invalid(cmd), 0),
    }
}

/// Whether command byte `byte` is followed by an option byte.
pub fn is_three_byte_iac(byte: u8) -> (r: bool)
    ensures
        r == is_three_byte_command(byte),
{
    match byte {
        251..=254 => true,
        _ => false,
    }
}

/// Whether `r` is what a decoder call that ends in `o` returns.
pub open spec fn returns_outcome(o: Outcome, r: Result<Option<Item>, DecodeError>) -> bool {
    match o {
        Outcome::NeedMore => r == Ok::<Option<Item>, DecodeError>(None),
        Outcome::Emit(i) => r matches Ok(Some(x)) && x@ == i,
        Outcome::Invalid(c) => r == Err::<Option<Item>, DecodeError>(DecodeError::UnknownCommand(c)),
    }
}

impl TelnetCodec {
    /// Consumes bytes from the front of `src` until an item is complete, more
    /// bytes are needed, or an unknown command is met.
    pub fn decode(&mut self, src: &mut BytesMut) -> (r: Result<Option<Item>, DecodeError>)
        ensures
            ({
                let (o, line, n) = decode_spec(old(self)@, buffered(*old(src)));
                &&& returns_outcome(o, r)
                &&& final(self)@ == line
                &&& buffered(*final(src)) == buffered(*old(src)).skip(n as int)
            }),
    {
        let ghost line0 = self@;
        let ghost s0 = buffered(*src);
        let ghost mut k: int = 0;
        loop
            invariant
                line0 == old(self)@,
                s0 == buffered(*old(src)),
                0 <= k <= s0.len(),
                buffered(*src) == s0.skip(k),
                ({
                    let (o, line, n) = decode_spec(self@, buffered(*src));
                    decode_spec(line0, s0) == (o, line, (n + k) as nat)
                }),
            decreases buffered(*src).len(),
        {
            let bytes = buffer_contents(src);
            if bytes.len() == 0 {
                return Ok(None);
            }
            if bytes[0] == IAC {
                let (res, consume) = try_parse_iac(bytes);
                buffer_advance(src, consume);
                proof {
                    assert(buffered(*src) =~= s0.skip(k + consume));
                    k = k + consume;
                }
                match res {
                    ParseIacResult::Invalid(c) => {
                        return Err(DecodeError::UnknownCommand(c));
                    },
                    ParseIacResult::NeedMore => {
                        return Ok(None);
                    },
                    ParseIacResult::Item(item) => {
                        return Ok(Some(item));
                    },
                    ParseIacResult::NOP => {},
                    ParseIacResult::EraseCharacter => {
                        self.current_line.pop();
                    },
                    ParseIacResult::EraseLine => {
                        self.current_line.clear();
                    },
                    ParseIacResult::Escaped => {
                        self.current_line.push(IAC);
                    },
                }
            } else {
                let byte = bytes[0];
                buffer_advance(src, 1);
                proof {
                    assert(buffered(*src) =~= s0.skip(k + 1));
                    k = k + 1;
                }
                if byte == 10 {
                    let line = self.current_line.clone();
                    assert(line@ =~= self.current_line@);
                    self.current_line.clear();
                    return Ok(Some(Item::Line(line)));
                } else if byte < 32 {
                    // other control bytes, carriage return among them, are dropped
                } else {
                    self.current_line.push(byte);
                }
            }
        }
    }
}

} // verus!
