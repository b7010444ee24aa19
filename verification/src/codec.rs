//! The wire format: a frame is its command line, one `key:value` line per
//! header, an empty line, the body and a NUL byte; a heart-beat is a lone
//! end of line. Header text is written as it stands, without escapes, and
//! a body runs to the first NUL byte.
use vstd::prelude::*;
use vstd::utf8::{
    char_is_scalar, char_u32_cast, encode_scalar, encode_utf8, encode_utf8_decode_utf8, encode_utf8_valid_utf8, has_width_1_encoding,
    is_ascii_chars, is_ascii_chars_encode_utf8, is_scalar, valid_utf8,
};
use crate::frame::{Command, Frame, FrameView, Transmission, TransmissionView};
use crate::header::{Header, HeaderList, HeaderView};

verus! {

/// The text of a command on the wire.
pub open spec fn command_text(c: Command) -> Seq<char> {
    match c {
        Command::Send => "SEND"@,
        Command::Subscribe => "SUBSCRIBE"@,
        Command::Unsubscribe => "UNSUBSCRIBE"@,
        Command::Begin => "BEGIN"@,
        Command::Commit => "COMMIT"@,
        Command::Abort => "ABORT"@,
        Command::Ack => "ACK"@,
        Command::Nack => "NACK"@,
        Command::Disconnect => "DISCONNECT"@,
        Command::Connect => "CONNECT"@,
        Command::Stomp => "STOMP"@,
        Command::Connected => "CONNECTED"@,
        Command::Message => "MESSAGE"@,
        Command::Receipt => "RECEIPT"@,
        Command::Error => "ERROR"@,
    }
}

/// One header on the wire: `key:value` and an end of line.
pub open spec fn header_line(h: HeaderView) -> Seq<u8> {
    encode_utf8(h.0) + seq![58u8] + encode_utf8(h.1) + seq![10u8]
}

/// The header lines of a frame, in order.
pub open spec fn header_lines(hs: Seq<HeaderView>) -> Seq<u8>
    decreases hs.len(),
{
    if hs.len() == 0 {
        Seq::empty()
    } else {
        header_lines(hs.drop_last()) + header_line(hs.last())
    }
}

/// The bytes of the command line and the header lines of a frame.
pub open spec fn frame_head(command: Command, hs: Seq<HeaderView>) -> Seq<u8> {
    encode_utf8(command_text(command)) + seq![10u8] + header_lines(hs)
}

/// A frame on the wire.
pub open spec fn frame_bytes(f: FrameView) -> Seq<u8> {
    frame_head(f.command, f.headers) + seq![10u8] + f.body + seq![0u8]
}

/// A transmission on the wire.
pub open spec fn transmission_bytes(t: TransmissionView) -> Seq<u8> {
    match t {
        TransmissionView::HeartBeat => seq![10u8],
        TransmissionView::CompleteFrame(f) => frame_bytes(f),
    }
}

fn append_bytes(out: &mut Vec<u8>, bytes: &[u8])
    ensures
        final(out)@ == old(out)@ + bytes@,
{
    out.extend_from_slice(bytes);
    assert(out@ =~= old(out)@ + bytes@);
}

fn append_byte(out: &mut Vec<u8>, b: u8)
    ensures
        final(out)@ == old(out)@ + seq![b],
{
    out.push(b);
    assert(out@ =~= old(out)@ + seq![b]);
}

fn command_str(c: Command) -> (s: &'static str)
    ensures
        s@ == command_text(c),
{
    match c {
        Command::Send => "SEND",
        Command::Subscribe => "SUBSCRIBE",
        Command::Unsubscribe => "UNSUBSCRIBE",
        Command::Begin => "BEGIN",
        Command::Commit => "COMMIT",
        Command::Abort => "ABORT",
        Command::Ack => "ACK",
        Command::Nack => "NACK",
        Command::Disconnect => "DISCONNECT",
        Command::Connect => "CONNECT",
        Command::Stomp => "STOMP",
        Command::Connected => "CONNECTED",
        Command::Message => "MESSAGE",
        Command::Receipt => "RECEIPT",
        Command::Error => "ERROR",
    }
}

/// Writes a frame to `out`.
pub fn encode_frame(frame: &Frame, out: &mut Vec<u8>)
    ensures
        final(out)@ == old(out)@ + frame_bytes(frame@),
{
    append_bytes(out, command_str(frame.command).as_bytes());
    append_byte(out, 10);
    let ghost start = old(out)@ + encode_utf8(command_text(frame.command)) + seq![10u8];
    let mut i: usize = 0;
    while i < frame.headers.headers.len()
        invariant
            i <= frame.headers.headers.len(),
            out@ == start + header_lines(frame.headers@.subrange(0, i as int)),
        decreases frame.headers.headers.len() - i,
    {
        let h = &frame.headers.headers[i];
        let ghost before = out@;
        append_bytes(out, h.key.as_str().as_bytes());
        append_byte(out, 58);
        append_bytes(out, h.value.as_str().as_bytes());
        append_byte(out, 10);
        assert(frame.headers@.subrange(0, i + 1).drop_last() =~= frame.headers@.subrange(0, i as int));
        assert(frame.headers@[i as int] == h@);
        assert(out@ =~= before + header_line(h@));
        i = i + 1;
    }
    assert(frame.headers@.subrange(0, i as int) =~= frame.headers@);
    append_byte(out, 10);
    append_bytes(out, frame.body.as_slice());
    append_byte(out, 0);
    assert(out@ =~= old(out)@ + frame_bytes(frame@));
}

/// Writes a transmission to `out`.
pub fn encode(t: &Transmission, out: &mut Vec<u8>)
    ensures
        final(out)@ == old(out)@ + transmission_bytes(t@),
{
    match t {
        Transmission::HeartBeat => append_byte(out, 10),
        Transmission::CompleteFrame(frame) => encode_frame(frame, out),
    }
}

/// Reads UTF-8 text by `std::str::from_utf8`, which std documents as
/// succeeding exactly on valid UTF-8 and giving the text those bytes encode.
/// The contract claims that the call succeeds exactly where the bytes are
/// valid UTF-8 as vstd defines it, and that the text read encodes back to the
/// bytes given.
#[verifier::external_body]
fn utf8_string(bytes: &[u8]) -> (s: Option<String>)
    ensures
        s is Some <==> valid_utf8(bytes@),
        s matches Some(t) ==> encode_utf8(t@) == bytes@,
{
    match std::str::from_utf8(bytes) {
        Ok(t) => Some(t.to_owned()),
        Err(_) => None,
    }
}

/// What the start of a buffer holds.
pub enum Decoded {
    /// No transmission can be read yet: more bytes are needed.
    Incomplete,
    /// A transmission, and the number of bytes it took.
    Complete(Transmission, usize),
    /// The bytes up to the first NUL are not a frame.
    Invalid,
}

/// The first place at or after `from` and before `to` where `b` holds `x`.
fn find_byte(b: &[u8], x: u8, from: usize, to: usize) -> (r: Option<usize>)
    requires
        from <= to <= b@.len(),
    ensures
        r matches Some(i) ==> from <= i < to && b@[i as int] == x
            && forall|j: int| from <= j < i ==> b@[j] != x,
        r is None ==> forall|j: int| from <= j < to ==> b@[j] != x,
{
    let mut i = from;
    while i < to
        invariant
            from <= i <= to <= b@.len(),
            forall|j: int| from <= j < i ==> b@[j] != x,
        decreases to - i,
    {
        if b[i] == x {
            return Some(i);
        }
        i = i + 1;
    }
    None
}

/// A header value that is written and read back unchanged: any text with
/// no NUL and no end of line.
pub open spec fn plain_value(s: Seq<char>) -> bool {
    forall|i: int| 0 <= i < s.len() ==> (#[trigger] s[i] != '\0' && s[i] != '\n')
}

/// A header key that is written and read back unchanged: a plain value
/// with no colon.
pub open spec fn plain_key(s: Seq<char>) -> bool {
    plain_value(s) && forall|i: int| 0 <= i < s.len() ==> #[trigger] s[i] != ':'
}

/// A frame that is written and read back unchanged: plain header keys and
/// values, and a body with no NUL byte.
pub open spec fn plain_frame(f: FrameView) -> bool {
    &&& forall|i: int| 0 <= i < f.headers.len() ==> plain_key((#[trigger] f.headers[i]).0) && plain_value(f.headers[i].1)
    &&& forall|i: int| 0 <= i < f.body.len() ==> #[trigger] f.body[i] != 0
}

/// `buf` starts with the bytes of `f`.
pub open spec fn begins_with(buf: Seq<u8>, f: FrameView) -> bool {
    frame_bytes(f).len() <= buf.len() && buf.subrange(0, frame_bytes(f).len() as int) == frame_bytes(f)
}

/// A byte of a character's UTF-8 encoding is below 0x80 only where the
/// character is that byte: every byte of a longer encoding is 0x80 or above.
proof fn lemma_scalar_bytes(v: u32)
    requires
        is_scalar(v),
    ensures
        forall|i: int| 0 <= i < encode_scalar(v).len() && #[trigger] encode_scalar(v)[i] < 0x80
            ==> encode_scalar(v)[i] == v,
{
    if has_width_1_encoding(v) {
        assert((v & 0x7F) as u8 == v) by (bit_vector)
            requires v <= 0x7F;
    } else {
        assert(0xC0u8 | ((v >> 6) & 0x1F) as u8 >= 0x80) by (bit_vector);
        assert(0xE0u8 | ((v >> 12) & 0x0F) as u8 >= 0x80) by (bit_vector);
        assert(0xF0u8 | ((v >> 18) & 0x7) as u8 >= 0x80) by (bit_vector);
        assert(0x80u8 | (v & 0x3F) as u8 >= 0x80) by (bit_vector);
        assert(0x80u8 | ((v >> 6) & 0x3F) as u8 >= 0x80) by (bit_vector);
        assert(0x80u8 | ((v >> 12) & 0x3F) as u8 >= 0x80) by (bit_vector);
    }
}

/// A byte below 0x80 in the UTF-8 encoding of a text is one of the text's
/// characters.
proof fn lemma_utf8_low_bytes(s: Seq<char>)
    ensures
        forall|i: int| 0 <= i < encode_utf8(s).len() && #[trigger] encode_utf8(s)[i] < 0x80
            ==> exists|j: int| 0 <= j < s.len() && s[j] as u32 == encode_utf8(s)[i],
    decreases s.len(),
{
    if s.len() > 0 {
        let head = encode_scalar(s[0] as u32);
        let rest = encode_utf8(s.drop_first());
        char_is_scalar(s[0]);
        lemma_scalar_bytes(s[0] as u32);
        lemma_utf8_low_bytes(s.drop_first());
        assert(encode_utf8(s) == head + rest);
        assert forall|i: int| 0 <= i < encode_utf8(s).len() && #[trigger] encode_utf8(s)[i] < 0x80
            implies exists|j: int| 0 <= j < s.len() && s[j] as u32 == encode_utf8(s)[i] by {
            if i < head.len() {
                assert(encode_utf8(s)[i] == head[i]);
                assert(s[0] as u32 == encode_utf8(s)[i]);
            } else {
                assert(encode_utf8(s)[i] == rest[i - head.len()]);
                let j = choose|j: int| 0 <= j < s.drop_first().len() && s.drop_first()[j] as u32 == rest[i - head.len()];
                assert(s[j + 1] == s.drop_first()[j]);
            }
        }
    }
}

/// No byte of a plain value is NUL or an end of line; no byte of a plain
/// key is a colon either.
proof fn lemma_plain_bytes(s: Seq<char>)
    requires
        plain_value(s),
    ensures
        forall|i: int| 0 <= i < encode_utf8(s).len() ==> #[trigger] encode_utf8(s)[i] != 0 && encode_utf8(s)[i] != 10,
        plain_key(s) ==> forall|i: int| 0 <= i < encode_utf8(s).len() ==> #[trigger] encode_utf8(s)[i] != 58,
{
    lemma_utf8_low_bytes(s);
    assert forall|i: int| 0 <= i < encode_utf8(s).len() implies #[trigger] encode_utf8(s)[i] != 0 && encode_utf8(s)[i] != 10 by {
        if encode_utf8(s)[i] < 0x80 {
            let j = choose|j: int| 0 <= j < s.len() && s[j] as u32 == encode_utf8(s)[i];
            char_u32_cast(s[j], s[j] as u32);
            char_u32_cast('\0', '\0' as u32);
            char_u32_cast('\n', '\n' as u32);
            assert(s[j] != '\0' && s[j] != '\n');
        }
    }
    if plain_key(s) {
        assert forall|i: int| 0 <= i < encode_utf8(s).len() implies #[trigger] encode_utf8(s)[i] != 58 by {
            if encode_utf8(s)[i] < 0x80 {
                let j = choose|j: int| 0 <= j < s.len() && s[j] as u32 == encode_utf8(s)[i];
                char_u32_cast(s[j], s[j] as u32);
                char_u32_cast(':', ':' as u32);
                assert(s[j] != ':');
            }
        }
    }
}

/// A command's bytes are capital letters, at least one.
proof fn lemma_command_bytes(c: Command)
    ensures
        encode_utf8(command_text(c)).len() > 0,
        forall|i: int| 0 <= i < encode_utf8(command_text(c)).len() ==>
            65 <= #[trigger] encode_utf8(command_text(c))[i] <= 90,
{
    reveal_strlit("SEND");
    reveal_strlit("SUBSCRIBE");
    reveal_strlit("UNSUBSCRIBE");
    reveal_strlit("BEGIN");
    reveal_strlit("COMMIT");
    reveal_strlit("ABORT");
    reveal_strlit("ACK");
    reveal_strlit("NACK");
    reveal_strlit("DISCONNECT");
    reveal_strlit("CONNECT");
    reveal_strlit("STOMP");
    reveal_strlit("CONNECTED");
    reveal_strlit("MESSAGE");
    reveal_strlit("RECEIPT");
    reveal_strlit("ERROR");
    let t = command_text(c);
    assert(forall|i: int| 0 <= i < t.len() ==> 'A' <= #[trigger] t[i] && t[i] <= 'Z');
    assert(is_ascii_chars(t));
    is_ascii_chars_encode_utf8(t);
    assert forall|i: int| 0 <= i < t.len() implies 65 <= #[trigger] encode_utf8(t)[i] <= 90 by {
        assert(t[i] as u8 == encode_utf8(t)[i]);
    }
}

/// Different commands are written differently.
proof fn lemma_command_text_injective(c1: Command, c2: Command)
    requires
        command_text(c1) == command_text(c2),
    ensures
        c1 == c2,
{
    reveal_strlit("SEND");
    reveal_strlit("SUBSCRIBE");
    reveal_strlit("UNSUBSCRIBE");
    reveal_strlit("BEGIN");
    reveal_strlit("COMMIT");
    reveal_strlit("ABORT");
    reveal_strlit("ACK");
    reveal_strlit("NACK");
    reveal_strlit("DISCONNECT");
    reveal_strlit("CONNECT");
    reveal_strlit("STOMP");
    reveal_strlit("CONNECTED");
    reveal_strlit("MESSAGE");
    reveal_strlit("RECEIPT");
    reveal_strlit("ERROR");
    let t1 = command_text(c1);
    let t2 = command_text(c2);
    assert(t1.len() == t2.len());
    assert(t1[0] == t2[0]);
    if t1.len() > 1 { assert(t1[1] == t2[1]); }
    if t1.len() > 2 { assert(t1[2] == t2[2]); }
    if t1.len() > 7 { assert(t1[7] == t2[7]); }
}

/// The length of the command line and the first `k` header lines of `f`.
pub open spec fn head_len(f: FrameView, k: int) -> int {
    frame_head(f.command, f.headers.take(k)).len() as int
}

proof fn lemma_header_lines_step(hs: Seq<HeaderView>, k: int)
    requires
        0 <= k < hs.len(),
    ensures
        header_lines(hs.take(k + 1)) == header_lines(hs.take(k)) + header_line(hs[k]),
{
    assert(hs.take(k + 1).drop_last() =~= hs.take(k));
    assert(hs.take(k + 1).last() == hs[k]);
}

/// The first lines of a frame head are a prefix of it.
proof fn lemma_head_prefix(f: FrameView, k: int)
    requires
        0 <= k <= f.headers.len(),
    ensures
        head_len(f, k) <= frame_head(f.command, f.headers).len(),
        frame_head(f.command, f.headers).subrange(0, head_len(f, k)) == frame_head(f.command, f.headers.take(k)),
    decreases f.headers.len() - k,
{
    let full = frame_head(f.command, f.headers);
    if k == f.headers.len() {
        assert(f.headers.take(k) =~= f.headers);
        assert(full.subrange(0, head_len(f, k)) =~= full);
    } else {
        lemma_head_prefix(f, k + 1);
        lemma_header_lines_step(f.headers, k);
        let a = frame_head(f.command, f.headers.take(k));
        let b = frame_head(f.command, f.headers.take(k + 1));
        assert(b =~= a + header_line(f.headers[k]));
        assert(full.subrange(0, head_len(f, k)) =~= b.subrange(0, a.len() as int));
        assert(b.subrange(0, a.len() as int) =~= a);
    }
}

/// Where the `k`th header line of a frame stands in its bytes, and what it
/// holds there.
proof fn lemma_header_line_place(f: FrameView, k: int)
    requires
        0 <= k < f.headers.len(),
    ensures
        head_len(f, k + 1) == head_len(f, k) + header_line(f.headers[k]).len(),
        head_len(f, k + 1) <= frame_head(f.command, f.headers).len(),
        frame_bytes(f).subrange(head_len(f, k), head_len(f, k + 1)) == header_line(f.headers[k]),
{
    lemma_head_prefix(f, k + 1);
    lemma_header_lines_step(f.headers, k);
    let a = frame_head(f.command, f.headers.take(k));
    let b = frame_head(f.command, f.headers.take(k + 1));
    let full = frame_head(f.command, f.headers);
    let fb = frame_bytes(f);
    assert(b =~= a + header_line(f.headers[k]));
    assert(fb.subrange(0, full.len() as int) =~= full);
    assert(fb.subrange(head_len(f, k), head_len(f, k + 1)) =~= b.subrange(a.len() as int, b.len() as int));
}

/// No byte of a plain frame is NUL before its end.
proof fn lemma_plain_frame_bytes(f: FrameView)
    requires
        plain_frame(f),
    ensures
        ({
            let fb = frame_bytes(f);
            let c = encode_utf8(command_text(f.command)).len() as int;
            let h = frame_head(f.command, f.headers).len() as int;
            &&& c > 0
            &&& head_len(f, 0) == c + 1
            &&& h == head_len(f, f.headers.len() as int)
            &&& fb.len() == h + 1 + f.body.len() + 1
            &&& fb[c] == 10
            &&& fb[h] == 10
            &&& fb[fb.len() - 1] == 0
            &&& fb.subrange(0, c) == encode_utf8(command_text(f.command))
            &&& fb.subrange(h + 1, fb.len() - 1) == f.body
            &&& forall|j: int| 0 <= j < c ==> #[trigger] fb[j] != 10 && fb[j] != 0
            &&& forall|j: int| 0 <= j < fb.len() - 1 ==> #[trigger] fb[j] != 0
        }),
{
    let fb = frame_bytes(f);
    let cmd = encode_utf8(command_text(f.command));
    let c = cmd.len() as int;
    let full = frame_head(f.command, f.headers);
    let h = full.len() as int;
    lemma_command_bytes(f.command);
    assert(f.headers.take(0) =~= Seq::<HeaderView>::empty());
    assert(header_lines(f.headers.take(0)) =~= Seq::<u8>::empty());
    assert(frame_head(f.command, f.headers.take(0)) =~= cmd + seq![10u8]);
    assert(f.headers.take(f.headers.len() as int) =~= f.headers);
    assert(fb =~= cmd + seq![10u8] + header_lines(f.headers) + seq![10u8] + f.body + seq![0u8]);
    assert(fb.subrange(0, c) =~= cmd);
    assert(fb.subrange(h + 1, fb.len() - 1) =~= f.body);
    assert forall|j: int| 0 <= j < c implies #[trigger] fb[j] != 10 && fb[j] != 0 by {
        assert(fb[j] == cmd[j]);
    }
    // Every header line is free of NUL bytes.
    assert forall|j: int| c + 1 <= j < h implies #[trigger] fb[j] != 0 by {
        lemma_line_exists(f, j);
        let k = choose_line(f, j);
        lemma_header_line_place(f, k);
        let line = header_line(f.headers[k]);
        let o = head_len(f, k);
        assert(fb[j] == line[j - o]);
        lemma_plain_bytes(f.headers[k].0);
        lemma_plain_bytes(f.headers[k].1);
        let kb = encode_utf8(f.headers[k].0);
        let vb = encode_utf8(f.headers[k].1);
        assert(line =~= kb + seq![58u8] + vb + seq![10u8]);
        if j - o < kb.len() {
            assert(line[j - o] == kb[j - o]);
        } else if j - o > kb.len() && j - o < kb.len() + 1 + vb.len() {
            assert(line[j - o] == vb[j - o - kb.len() - 1]);
        }
    }
    assert forall|j: int| 0 <= j < fb.len() - 1 implies #[trigger] fb[j] != 0 by {
        if j < c {
        } else if j == c {
        } else if j < h {
        } else if j == h {
        } else {
            assert(fb[j] == f.body[j - h - 1]);
        }
    }
}

/// The header line in which the byte at `j` of a frame's head stands.
spec fn choose_line(f: FrameView, j: int) -> int {
    choose|k: int| 0 <= k < f.headers.len() && #[trigger] head_len(f, k) <= j < head_len(f, k + 1)
}

proof fn lemma_line_exists(f: FrameView, j: int)
    requires
        head_len(f, 0) <= j < head_len(f, f.headers.len() as int),
    ensures
        0 <= choose_line(f, j) < f.headers.len(),
        head_len(f, choose_line(f, j)) <= j < head_len(f, choose_line(f, j) + 1),
{
    lemma_line_exists_from(f, j, 0);
}

proof fn lemma_line_exists_from(f: FrameView, j: int, k: int)
    requires
        0 <= k <= f.headers.len(),
        head_len(f, k) <= j < head_len(f, f.headers.len() as int),
    ensures
        exists|m: int| 0 <= m < f.headers.len() && #[trigger] head_len(f, m) <= j < head_len(f, m + 1),
    decreases f.headers.len() - k,
{
    if k == f.headers.len() {
    } else {
        lemma_header_line_place(f, k);
        if j < head_len(f, k + 1) {
            assert(head_len(f, k) <= j < head_len(f, k + 1));
        } else {
            lemma_line_exists_from(f, j, k + 1);
        }
    }
}

fn parse_command(line: &[u8]) -> (r: Option<Command>)
    ensures
        r matches Some(c) ==> encode_utf8(command_text(c)) == line@,
        forall|c: Command| encode_utf8(command_text(c)) == line@ ==> r == Some(c),
{
    let text = match utf8_string(line) {
        Some(t) => t,
        None => {
            proof {
                assert forall|c: Command| encode_utf8(command_text(c)) == line@ implies None::<Command> == Some(c) by {
                    encode_utf8_valid_utf8(command_text(c));
                }
            }
            return None;
        },
    };
    let commands = [
        Command::Send, Command::Subscribe, Command::Unsubscribe, Command::Begin, Command::Commit,
        Command::Abort, Command::Ack, Command::Nack, Command::Disconnect, Command::Connect,
        Command::Stomp, Command::Connected, Command::Message, Command::Receipt, Command::Error,
    ];
    assert forall|c: Command| encode_utf8(command_text(c)) == line@ implies text@ == command_text(c) by {
        encode_utf8_decode_utf8(text@);
        encode_utf8_decode_utf8(command_text(c));
    }
    let mut i: usize = 0;
    while i < 15
        invariant
            i <= 15,
            encode_utf8(text@) == line@,
            commands@ == seq![
                Command::Send, Command::Subscribe, Command::Unsubscribe, Command::Begin, Command::Commit,
                Command::Abort, Command::Ack, Command::Nack, Command::Disconnect, Command::Connect,
                Command::Stomp, Command::Connected, Command::Message, Command::Receipt, Command::Error,
            ],
            forall|c: Command| encode_utf8(command_text(c)) == line@ ==> text@ == command_text(c),
            forall|j: int| 0 <= j < i ==> text@ != command_text(#[trigger] commands@[j]),
        decreases 15 - i,
    {
        let c = commands[i];
        let name = command_str(c).to_owned();
        if text == name {
            proof {
                assert forall|c2: Command| encode_utf8(command_text(c2)) == line@ implies Some(c) == Some(c2) by {
                    lemma_command_text_injective(c, c2);
                }
            }
            return Some(c);
        }
        i = i + 1;
    }
    proof {
        assert forall|c: Command| encode_utf8(command_text(c)) == line@ implies None::<Command> == Some(c) by {
            let k: int = match c {
                Command::Send => 0, Command::Subscribe => 1, Command::Unsubscribe => 2, Command::Begin => 3,
                Command::Commit => 4, Command::Abort => 5, Command::Ack => 6, Command::Nack => 7,
                Command::Disconnect => 8, Command::Connect => 9, Command::Stomp => 10, Command::Connected => 11,
                Command::Message => 12, Command::Receipt => 13, Command::Error => 14,
            };
            assert(commands@[k] == c);
        }
    }
    None
}

proof fn lemma_begins_index(buf: Seq<u8>, f: FrameView)
    requires
        begins_with(buf, f),
    ensures
        forall|j: int| 0 <= j < frame_bytes(f).len() ==> #[trigger] buf[j] == frame_bytes(f)[j],
{
    assert forall|j: int| 0 <= j < frame_bytes(f).len() implies #[trigger] buf[j] == frame_bytes(f)[j] by {
        assert(buf.subrange(0, frame_bytes(f).len() as int)[j] == buf[j]);
    }
}

/// The bytes of the `k`th header line of a plain frame: its key, a colon,
/// its value and an end of line, with no end of line or colon earlier in
/// the line than those.
proof fn lemma_line_bytes(f: FrameView, k: int)
    requires
        plain_frame(f),
        0 <= k < f.headers.len(),
    ensures
        ({
            let fb = frame_bytes(f);
            let o = head_len(f, k);
            let kb = encode_utf8(f.headers[k].0);
            let vb = encode_utf8(f.headers[k].1);
            let e = head_len(f, k + 1) - 1;
            &&& e == o + kb.len() + 1 + vb.len()
            &&& e < frame_head(f.command, f.headers).len()
            &&& fb[o + kb.len()] == 58
            &&& fb[e] == 10
            &&& fb[o] != 10
            &&& forall|j: int| o <= j < o + kb.len() ==> #[trigger] fb[j] != 10 && fb[j] != 58
            &&& forall|j: int| o + kb.len() < j < e ==> #[trigger] fb[j] != 10
            &&& fb.subrange(o, o + kb.len()) == kb
            &&& fb.subrange(o + kb.len() + 1, e) == vb
        }),
{
    let fb = frame_bytes(f);
    let o = head_len(f, k);
    let kb = encode_utf8(f.headers[k].0);
    let vb = encode_utf8(f.headers[k].1);
    lemma_header_line_place(f, k);
    lemma_plain_bytes(f.headers[k].0);
    lemma_plain_bytes(f.headers[k].1);
    let line = header_line(f.headers[k]);
    assert(line =~= kb + seq![58u8] + vb + seq![10u8]);
    let sub = fb.subrange(o, head_len(f, k + 1));
    assert(sub == line);
    assert forall|j: int| o <= j < head_len(f, k + 1) implies #[trigger] fb[j] == line[j - o] by {
        assert(sub[j - o] == fb[j]);
    }
    assert forall|j: int| o <= j < o + kb.len() implies #[trigger] fb[j] != 10 && fb[j] != 58 by {
        assert(line[j - o] == kb[j - o]);
    }
    let e = head_len(f, k + 1) - 1;
    assert forall|j: int| o + kb.len() < j < e implies #[trigger] fb[j] != 10 by {
        assert(line[j - o] == vb[j - o - kb.len() - 1]);
    }
    assert(fb[o] == line[0]);
    if kb.len() > 0 {
        assert(line[0] == kb[0]);
    }
    assert(fb.subrange(o, o + kb.len()) =~= kb) by {
        assert forall|j: int| 0 <= j < kb.len() implies fb.subrange(o, o + kb.len())[j] == kb[j] by {
            assert(fb[o + j] == line[j]);
        }
    }
    assert(fb.subrange(o + kb.len() + 1, e) =~= vb) by {
        assert forall|j: int| 0 <= j < vb.len() implies fb.subrange(o + kb.len() + 1, e)[j] == vb[j] by {
            assert(fb[o + kb.len() + 1 + j] == line[kb.len() + 1 + j]);
        }
    }
}

/// What `encode` writes of a frame, followed by anything at all, begins with
/// that frame; by `decode`'s contract a plain frame is then read back
/// unchanged, with the bytes that follow it left for the next read.
pub proof fn lemma_written_frame_read_back(f: FrameView, rest: Seq<u8>)
    ensures
        begins_with(frame_bytes(f) + rest, f),
{
    assert((frame_bytes(f) + rest).subrange(0, frame_bytes(f).len() as int) =~= frame_bytes(f));
}

/// Reads the transmission at the start of `buf`. A heart-beat is a lone end
/// of line; a frame is read up to the first NUL byte. Every plain frame
/// (keys and values of any text without NUL or end of line, keys without a
/// colon, a body without NUL) is read back as it was written.
#[verifier::rlimit(40)]
#[verifier::spinoff_prover]
pub fn decode(buf: &[u8]) -> (d: Decoded)
    ensures
        d matches Decoded::Complete(t, n) ==> n <= buf@.len()
            && buf@.subrange(0, n as int) == transmission_bytes(t@),
        buf@.len() == 0 ==> d is Incomplete,
        buf@.len() > 0 && buf@[0] == 10 ==> d matches Decoded::Complete(Transmission::HeartBeat, 1),
        d is Incomplete <==> (buf@.len() == 0 || (buf@[0] != 10
            && forall|j: int| 0 <= j < buf@.len() ==> buf@[j] != 0)),
        forall|f: FrameView| plain_frame(f) && begins_with(buf@, f) ==>
            (d matches Decoded::Complete(t, n) && t@ == TransmissionView::CompleteFrame(f)
                && n == frame_bytes(f).len()),
{
    let len = buf.len();
    if len == 0 {
        return Decoded::Incomplete;
    }
    if buf[0] == 10 {
        assert(buf@.subrange(0, 1) =~= seq![10u8]);
        proof {
            assert forall|f: FrameView| plain_frame(f) && begins_with(buf@, f) implies false by {
                lemma_plain_frame_bytes(f);
                lemma_begins_index(buf@, f);
                assert(buf@[0] == frame_bytes(f)[0]);
            }
        }
        return Decoded::Complete(Transmission::HeartBeat, 1);
    }
    let end = match find_byte(buf, 0, 0, len) {
        Some(z) => z,
        None => {
            proof {
                assert forall|f: FrameView| plain_frame(f) && begins_with(buf@, f) implies false by {
                    lemma_plain_frame_bytes(f);
                    lemma_begins_index(buf@, f);
                    let l = frame_bytes(f).len() as int;
                    assert(buf@[l - 1] == frame_bytes(f)[l - 1]);
                }
            }
            return Decoded::Incomplete;
        },
    };
    proof {
        assert forall|f: FrameView| plain_frame(f) && begins_with(buf@, f) implies end == frame_bytes(f).len() - 1 by {
            lemma_plain_frame_bytes(f);
            lemma_begins_index(buf@, f);
            let l = frame_bytes(f).len() as int;
            assert(buf@[l - 1] == frame_bytes(f)[l - 1]);
            if end < l - 1 {
                assert(buf@[end as int] == frame_bytes(f)[end as int]);
            }
        }
    }
    let command_end = match find_byte(buf, 10, 0, end) {
        Some(e) => e,
        None => {
            proof {
                assert forall|f: FrameView| plain_frame(f) && begins_with(buf@, f) implies false by {
                    lemma_plain_frame_bytes(f);
                    lemma_begins_index(buf@, f);
                    let c = encode_utf8(command_text(f.command)).len() as int;
                    assert(buf@[c] == frame_bytes(f)[c]);
                }
            }
            return Decoded::Invalid;
        },
    };
    let line = vstd::slice::slice_subrange(buf, 0, command_end);
    proof {
        assert forall|f: FrameView| plain_frame(f) && begins_with(buf@, f) implies
            line@ == encode_utf8(command_text(f.command)) by {
            lemma_plain_frame_bytes(f);
            lemma_begins_index(buf@, f);
            let c = encode_utf8(command_text(f.command)).len() as int;
            assert(buf@[c] == frame_bytes(f)[c]);
            if command_end < c {
                assert(buf@[command_end as int] == frame_bytes(f)[command_end as int]);
            }
            assert(command_end == c);
            assert(line@ =~= frame_bytes(f).subrange(0, c));
        }
    }
    let command = match parse_command(line) {
        Some(c) => c,
        None => return Decoded::Invalid,
    };
    let mut headers = HeaderList::new();
    let mut pos = command_end + 1;
    assert(buf@.subrange(0, pos as int) =~= frame_head(command, headers@));
    proof {
        assert forall|f: FrameView| plain_frame(f) && begins_with(buf@, f) implies
            headers@ =~= f.headers.take(headers@.len() as int) by {
        }
    }
    loop
        invariant_except_break
            pos <= end < buf@.len(),
            buf@[end as int] == 0,
            buf@[0] != 10,
            buf@.subrange(0, pos as int) == frame_head(command, headers@),
            forall|f: FrameView| plain_frame(f) && begins_with(buf@, f) ==> {
                &&& f.command == command
                &&& end == frame_bytes(f).len() - 1
                &&& headers@.len() <= f.headers.len()
                &&& headers@ == f.headers.take(headers@.len() as int)
            },
        ensures
            pos < end,
            buf@[pos as int] == 10,
            buf@.subrange(0, pos as int) == frame_head(command, headers@),
            forall|f: FrameView| plain_frame(f) && begins_with(buf@, f) ==> {
                &&& f.command == command
                &&& end == frame_bytes(f).len() - 1
                &&& headers@ == f.headers
            },
        decreases end - pos,
    {
        proof {
            assert forall|f: FrameView| plain_frame(f) && begins_with(buf@, f) implies
                pos == head_len(f, headers@.len() as int) by {
            }
        }
        let line_end = match find_byte(buf, 10, pos, end) {
            Some(e) => e,
            None => {
                proof {
                    assert forall|f: FrameView| plain_frame(f) && begins_with(buf@, f) implies false by {
                        lemma_plain_frame_bytes(f);
                        lemma_begins_index(buf@, f);
                        let k = headers@.len() as int;
                        if k < f.headers.len() {
                            lemma_line_bytes(f, k);
                            let e = head_len(f, k + 1) - 1;
                            assert(buf@[e] == frame_bytes(f)[e]);
                        } else {
                            assert(f.headers.take(k) =~= f.headers);
                            let h = frame_head(f.command, f.headers).len() as int;
                            assert(buf@[h] == frame_bytes(f)[h]);
                        }
                    }
                }
                return Decoded::Invalid;
            },
        };
        if line_end == pos {
            proof {
                assert forall|f: FrameView| plain_frame(f) && begins_with(buf@, f) implies headers@ == f.headers by {
                    lemma_plain_frame_bytes(f);
                    lemma_begins_index(buf@, f);
                    let k = headers@.len() as int;
                    if k < f.headers.len() {
                        lemma_line_bytes(f, k);
                        assert(buf@[pos as int] == frame_bytes(f)[pos as int]);
                    }
                    assert(f.headers.take(k) =~= f.headers);
                }
            }
            break;
        }
        proof {
            assert forall|f: FrameView| plain_frame(f) && begins_with(buf@, f) implies
                headers@.len() < f.headers.len() && line_end == head_len(f, headers@.len() as int + 1) - 1 by {
                lemma_plain_frame_bytes(f);
                lemma_begins_index(buf@, f);
                let k = headers@.len() as int;
                if k == f.headers.len() {
                    assert(f.headers.take(k) =~= f.headers);
                    let h = frame_head(f.command, f.headers).len() as int;
                    assert(buf@[h] == frame_bytes(f)[h]);
                } else {
                    lemma_line_bytes(f, k);
                    let e = head_len(f, k + 1) - 1;
                    assert(buf@[e] == frame_bytes(f)[e]);
                    if line_end < e {
                        assert(buf@[line_end as int] == frame_bytes(f)[line_end as int]);
                        let kl = encode_utf8(f.headers[k].0).len();
                        if line_end < head_len(f, k) + kl {
                        } else if line_end == head_len(f, k) + kl {
                        } else {
                        }
                    }
                }
            }
        }
        let colon = match find_byte(buf, 58, pos, line_end) {
            Some(c) => c,
            None => {
                proof {
                    assert forall|f: FrameView| plain_frame(f) && begins_with(buf@, f) implies false by {
                        lemma_begins_index(buf@, f);
                        let k = headers@.len() as int;
                        lemma_line_bytes(f, k);
                        let c = head_len(f, k) + encode_utf8(f.headers[k].0).len();
                        assert(buf@[c] == frame_bytes(f)[c]);
                    }
                }
                return Decoded::Invalid;
            },
        };
        let key_bytes = vstd::slice::slice_subrange(buf, pos, colon);
        let value_bytes = vstd::slice::slice_subrange(buf, colon + 1, line_end);
        proof {
            assert forall|f: FrameView| plain_frame(f) && begins_with(buf@, f) implies
                key_bytes@ == encode_utf8(f.headers[headers@.len() as int].0)
                && value_bytes@ == encode_utf8(f.headers[headers@.len() as int].1) by {
                lemma_begins_index(buf@, f);
                let k = headers@.len() as int;
                lemma_line_bytes(f, k);
                let kl = encode_utf8(f.headers[k].0).len() as int;
                let c = head_len(f, k) + kl;
                assert(buf@[c] == frame_bytes(f)[c]);
                if colon < c {
                    assert(buf@[colon as int] == frame_bytes(f)[colon as int]);
                }
                assert(colon == c);
                assert(key_bytes@ =~= frame_bytes(f).subrange(pos as int, c));
                assert(value_bytes@ =~= frame_bytes(f).subrange(c + 1, line_end as int));
            }
        }
        let key = match utf8_string(key_bytes) {
            Some(k) => k,
            None => {
                proof {
                    assert forall|f: FrameView| plain_frame(f) && begins_with(buf@, f) implies false by {
                        encode_utf8_valid_utf8(f.headers[headers@.len() as int].0);
                    }
                }
                return Decoded::Invalid;
            },
        };
        let value = match utf8_string(value_bytes) {
            Some(v) => v,
            None => {
                proof {
                    assert forall|f: FrameView| plain_frame(f) && begins_with(buf@, f) implies false by {
                        encode_utf8_valid_utf8(f.headers[headers@.len() as int].1);
                    }
                }
                return Decoded::Invalid;
            },
        };
        let ghost old_headers = headers@;
        let header = Header { key, value };
        assert(buf@.subrange(pos as int, line_end + 1) =~= header_line(header@));
        proof {
            assert forall|f: FrameView| plain_frame(f) && begins_with(buf@, f) implies
                header@ == f.headers[old_headers.len() as int] by {
                let k = old_headers.len() as int;
                encode_utf8_decode_utf8(header@.0);
                encode_utf8_decode_utf8(f.headers[k].0);
                encode_utf8_decode_utf8(header@.1);
                encode_utf8_decode_utf8(f.headers[k].1);
            }
        }
        headers.push(header);
        assert(headers@.drop_last() =~= old_headers);
        assert(buf@.subrange(0, line_end + 1) =~= buf@.subrange(0, pos as int) + buf@.subrange(pos as int, line_end + 1));
        proof {
            assert forall|f: FrameView| plain_frame(f) && begins_with(buf@, f) implies
                headers@ == f.headers.take(headers@.len() as int) by {
                assert(headers@ =~= f.headers.take(headers@.len() as int));
            }
        }
        pos = line_end + 1;
    }
    let body = vstd::slice::slice_to_vec(vstd::slice::slice_subrange(buf, pos + 1, end));
    let frame = Frame { command, headers, body };
    assert(buf@.subrange(0, end + 1) =~= buf@.subrange(0, pos as int) + seq![10u8] + buf@.subrange(pos + 1, end as int) + seq![0u8]);
    proof {
        assert forall|f: FrameView| plain_frame(f) && begins_with(buf@, f) implies frame@ == f by {
            lemma_plain_frame_bytes(f);
            lemma_begins_index(buf@, f);
            assert(f.headers.take(f.headers.len() as int) =~= f.headers);
            let h = frame_head(f.command, f.headers).len() as int;
            assert(pos == h);
            assert(frame.body@ =~= frame_bytes(f).subrange(h + 1, end as int));
            assert(frame@ =~= f);
        }
    }
    Decoded::Complete(Transmission::CompleteFrame(frame), end + 1)
}

} // verus!
