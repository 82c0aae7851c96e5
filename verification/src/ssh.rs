//! Commands over an SSH shell: how a command is wrapped so that its output
//! can be found in the shell's stream, how that output is cut out, how a
//! file is framed for `scp`, and how the checksums of the uploaded software
//! are read back.
use vstd::prelude::*;
use itertools::Itertools;
use vstd::utf8::{decode_utf8, encode_utf8, valid_utf8};
use crate::text::{is_whitespace, utf8_to_string};

verus! {

/// Why a shell command failed.
#[derive(Debug, PartialEq, Eq, Clone, Copy)]
pub enum Error {
    ConnectionFailure,
    LoginFailure,
    ChannelFailure,
    IoFailure,
    Disconnected,
}

/// The marker that the wrapped command prints before its output.
pub const START_OF_TEXT: u8 = 0x02;
/// The marker that the wrapped command prints after its output.
pub const END_OF_TEXT: u8 = 0x03;

/// The bytes of `s`.
fn str_bytes(s: &str) -> (res: Vec<u8>)
    ensures
        res@ == encode_utf8(s@),
{
    let bytes = s.as_bytes();
    let mut data: Vec<u8> = Vec::new();
    let mut i: usize = 0;
    while i < bytes.len()
        invariant
            i <= bytes@.len(),
            bytes@ == encode_utf8(s@),
            data@ == bytes@.take(i as int),
        decreases bytes.len() - i,
    {
        data.push(bytes[i]);
        i = i + 1;
        assert(data@ =~= bytes@.take(i as int));
    }
    assert(bytes@.take(i as int) =~= bytes@);
    data
}

/// Appends the bytes of `s` to `out`.
fn push_str_bytes(out: &mut Vec<u8>, s: &str)
    ensures
        final(out)@ == old(out)@ + encode_utf8(s@),
{
    let bytes = str_bytes(s);
    let mut i: usize = 0;
    while i < bytes.len()
        invariant
            i <= bytes@.len(),
            bytes@ == encode_utf8(s@),
            out@ == old(out)@ + bytes@.take(i as int),
        decreases bytes.len() - i,
    {
        out.push(bytes[i]);
        i = i + 1;
        assert(out@ =~= old(out)@ + bytes@.take(i as int));
    }
    assert(bytes@.take(i as int) =~= bytes@);
}

/// The line that runs `command` in the shell so that its output is printed
/// between the two markers.
pub open spec fn wrapped_command(command: Seq<u8>) -> Seq<u8> {
    encode_utf8("printf \"%b%s%b\" \"\\002\" \"`"@) + command + encode_utf8("`\" \"\\003\"\n"@)
}

/// Wraps `command` so that its output can be found in the shell's stream.
pub fn wrap_command(command: &str) -> (res: Vec<u8>)
    ensures
        res@ == wrapped_command(encode_utf8(command@)),
{
    let mut out: Vec<u8> = Vec::new();
    push_str_bytes(&mut out, "printf \"%b%s%b\" \"\\002\" \"`");
    push_str_bytes(&mut out, command);
    push_str_bytes(&mut out, "`\" \"\\003\"\n");
    assert(out@ =~= wrapped_command(encode_utf8(command@)));
    out
}

/// The position of the first `b` in `buf`, if any.
pub open spec fn first_pos(buf: Seq<u8>, b: u8) -> Option<int> {
    if exists|i: int| 0 <= i < buf.len() && buf[i] == b {
        Some(choose|i: int| 0 <= i < buf.len() && buf[i] == b && forall|j: int| 0 <= j < i ==> buf[j] != b)
    } else {
        None
    }
}

/// The position of the last `b` in `buf`, if any.
pub open spec fn last_pos(buf: Seq<u8>, b: u8) -> Option<int> {
    if exists|i: int| 0 <= i < buf.len() && buf[i] == b {
        Some(choose|i: int| 0 <= i < buf.len() && buf[i] == b && forall|j: int| i < j < buf.len() ==> buf[j] != b)
    } else {
        None
    }
}

/// The output of a wrapped command in what the shell has sent so far: the
/// bytes between the first start marker and the last end marker, once the
/// latter follows the former; `None` while more must be read.
pub open spec fn reply_span(buf: Seq<u8>) -> Option<(int, int)> {
    match (first_pos(buf, START_OF_TEXT), last_pos(buf, END_OF_TEXT)) {
        (Some(s), Some(e)) => if s < e { Some((s + 1, e)) } else { None },
        _ => None,
    }
}

/// Finds the output of a wrapped command in what the shell has sent so far:
/// `None` while it is not complete; then the output as text, or
/// `IoFailure` where it is not UTF-8.
pub fn extract_reply(buf: &Vec<u8>) -> (res: Option<Result<String, Error>>)
    ensures
        reply_span(buf@) is None ==> res is None,
        reply_span(buf@) matches Some((s, e)) ==> {
            let out = buf@.subrange(s, e);
            &&& res is Some
            &&& valid_utf8(out) ==> (res matches Some(Ok(t)) && t@ == decode_utf8(out))
            &&& !valid_utf8(out) ==> res == Some(Err::<String, Error>(Error::IoFailure))
        },
{
    let mut start: usize = 0;
    while start < buf.len() && buf[start] != START_OF_TEXT
        invariant
            start <= buf@.len(),
            forall|j: int| 0 <= j < start ==> buf@[j] != START_OF_TEXT,
        decreases buf.len() - start,
    {
        start = start + 1;
    }
    if start == buf.len() {
        assert(first_pos(buf@, START_OF_TEXT) is None);
        return None;
    }
    proof {
        let c = choose|c: int| 0 <= c < buf@.len() && buf@[c] == START_OF_TEXT
            && forall|j: int| 0 <= j < c ==> buf@[j] != START_OF_TEXT;
        assert(c == start as int);
    }
    assert(first_pos(buf@, START_OF_TEXT) == Some(start as int));
    let mut end: usize = buf.len();
    while end > 0 && buf[end - 1] != END_OF_TEXT
        invariant
            end <= buf@.len(),
            forall|j: int| end <= j < buf@.len() ==> buf@[j] != END_OF_TEXT,
        decreases end,
    {
        end = end - 1;
    }
    if end == 0 {
        assert(last_pos(buf@, END_OF_TEXT) is None);
        return None;
    }
    let e = end - 1;
    proof {
        let c = choose|c: int| 0 <= c < buf@.len() && buf@[c] == END_OF_TEXT
            && forall|j: int| c < j < buf@.len() ==> buf@[j] != END_OF_TEXT;
        assert(c == e as int);
    }
    assert(last_pos(buf@, END_OF_TEXT) == Some(e as int));
    if start >= e {
        return None;
    }
    let out = copy_bytes(buf, start + 1, e);
    match utf8_to_string(out.as_slice()) {
        Ok(text) => Some(Ok(text)),
        Err(_) => Some(Err(Error::IoFailure)),
    }
}

/// The bytes of `buf` from `from` up to `to`.
fn copy_bytes(buf: &Vec<u8>, from: usize, to: usize) -> (res: Vec<u8>)
    requires
        from <= to <= buf@.len(),
    ensures
        res@ == buf@.subrange(from as int, to as int),
{
    let mut res: Vec<u8> = Vec::new();
    let mut i: usize = from;
    while i < to
        invariant
            from <= i <= to <= buf@.len(),
            res@ == buf@.subrange(from as int, i as int),
        decreases to - i,
    {
        res.push(buf[i]);
        i = i + 1;
        assert(res@ =~= buf@.subrange(from as int, i as int));
    }
    res
}

/// The ASCII digit of `d` (below 10).
pub open spec fn digit_byte(d: nat) -> u8 {
    (0x30 + d) as u8
}

/// The digits of `n` in `base` (2 to 10), most significant first, without
/// leading zeros ("0" for zero).
pub open spec fn digits(n: nat, base: nat) -> Seq<u8>
    recommends
        2 <= base <= 10,
    decreases n,
{
    if base < 2 || n < base {
        seq![digit_byte(n % 10)]
    } else {
        proof {
            assert(n / base < n) by (nonlinear_arith)
                requires
                    n >= base,
                    base >= 2,
            ;
        }
        digits(n / base, base).push(digit_byte(n % base))
    }
}

/// Appends the digits of `n` in `base` to `out`.
fn push_digits(out: &mut Vec<u8>, n: usize, base: usize)
    requires
        2 <= base <= 10,
    ensures
        final(out)@ == old(out)@ + digits(n as nat, base as nat),
    decreases n,
{
    if n >= base {
        assert(n / base < n) by (nonlinear_arith)
            requires
                n >= base,
                base >= 2,
        ;
        push_digits(out, n / base, base);
        let d = (n % base) as u8;
        out.push(0x30 + d);
        assert(out@ =~= old(out)@ + digits(n as nat, base as nat));
    } else {
        let d = n as u8;
        assert(n % 10 == n);
        out.push(0x30 + d);
        assert(out@ =~= old(out)@ + digits(n as nat, base as nat));
    }
}

/// The header with which `scp` receives a file: its permissions in octal,
/// its length in decimal and its name.
pub open spec fn scp_header_spec(permissions: nat, len: nat, name: Seq<u8>) -> Seq<u8> {
    seq![0x43u8, 0x30u8] + digits(permissions, 8) + seq![0x20u8] + digits(len, 10) + seq![0x20u8] + name
        + seq![0x0au8]
}

/// What is sent to `scp` to upload a file: the header, the contents, and a
/// zero byte that confirms the transfer.
pub open spec fn scp_stream_spec(permissions: nat, name: Seq<u8>, contents: Seq<u8>) -> Seq<u8> {
    scp_header_spec(permissions, contents.len(), name) + contents + seq![0u8]
}

/// Frames a file for `scp`.
pub fn scp_stream(permissions: usize, filename: &str, contents: &Vec<u8>) -> (res: Vec<u8>)
    ensures
        res@ == scp_stream_spec(permissions as nat, encode_utf8(filename@), contents@),
{
    let mut out: Vec<u8> = Vec::new();
    out.push(0x43);
    out.push(0x30);
    push_digits(&mut out, permissions, 8);
    out.push(0x20);
    push_digits(&mut out, contents.len(), 10);
    out.push(0x20);
    push_str_bytes(&mut out, filename);
    out.push(0x0a);
    let mut i: usize = 0;
    let ghost head = out@;
    while i < contents.len()
        invariant
            i <= contents@.len(),
            out@ == head + contents@.take(i as int),
        decreases contents.len() - i,
    {
        out.push(contents[i]);
        i = i + 1;
        assert(out@ =~= head + contents@.take(i as int));
    }
    assert(contents@.take(i as int) =~= contents@);
    out.push(0);
    assert(out@ =~= scp_stream_spec(permissions as nat, encode_utf8(filename@), contents@));
    out
}

/// The length of the run of non-whitespace characters at the start of `s`.
pub open spec fn word_len(s: Seq<char>) -> nat
    decreases s.len(),
{
    if s.len() == 0 || is_whitespace(s[0]) {
        0
    } else {
        1 + word_len(s.drop_first())
    }
}

/// A word is never longer than the text it starts.
pub proof fn lemma_word_len(s: Seq<char>)
    ensures
        word_len(s) <= s.len(),
    decreases s.len(),
{
    if s.len() > 0 && !is_whitespace(s[0]) {
        lemma_word_len(s.drop_first());
    }
}

/// The words of `s`: its maximal runs of characters without whitespace, in
/// order.
pub open spec fn words_of(s: Seq<char>) -> Seq<Seq<char>>
    decreases s.len(),
{
    if s.len() == 0 {
        Seq::empty()
    } else if is_whitespace(s[0]) {
        words_of(s.drop_first())
    } else {
        proof { lemma_word_len(s); }
        seq![s.take(word_len(s) as int)] + words_of(s.skip(word_len(s) as int))
    }
}

/// Splits text into its words with `str::split_whitespace`, whose
/// documentation gives the words as the sub-slices separated by any amount
/// of Unicode White_Space.
#[verifier::external_body]
fn split_whitespace(s: &str) -> (res: Vec<String>)
    ensures
        res@.map_values(|w: String| w@) == words_of(s@),
{
    s.split_whitespace().map(String::from).collect()
}

/// Groups words in pairs with `Itertools::tuples`, which yields
/// consecutive pairs and drops a last word without a partner.
#[verifier::external_body]
fn pairs(words: Vec<String>) -> (res: Vec<(String, String)>)
    ensures
        res@.len() == words@.len() / 2,
        forall|i: int| 0 <= i < res@.len() ==> (#[trigger] res@[i]).0 == words@[2 * i] && res@[i].1 == words@[2 * i + 1],
{
    words.into_iter().tuples::<(String, String)>().collect()
}

/// The pairs (checksum, path) that `md5sum` printed for the uploaded
/// software: its words, two by two.
pub fn checksums(listing: &str) -> (res: Vec<(String, String)>)
    ensures
        res@.len() == words_of(listing@).len() / 2,
        forall|i: int| 0 <= i < res@.len() ==> (#[trigger] res@[i]).0@ == words_of(listing@)[2 * i]
            && res@[i].1@ == words_of(listing@)[2 * i + 1],
{
    let words = split_whitespace(listing);
    let ghost w = words@;
    let res = pairs(words);
    assert forall|i: int| 0 <= i < res@.len() implies (#[trigger] res@[i]).0@ == words_of(listing@)[2 * i]
        && res@[i].1@ == words_of(listing@)[2 * i + 1] by {
        assert(w.map_values(|x: String| x@)[2 * i] == w[2 * i]@);
        assert(w.map_values(|x: String| x@)[2 * i + 1] == w[2 * i + 1]@);
    }
    res
}

/// The command that lists the checksum of every file below `path`.
pub open spec fn checksum_query_spec(path: Seq<char>) -> Seq<char> {
    "find "@ + path + " -type f -exec md5sum '{}' \\;"@
}

/// Builds the command that lists the checksums of the uploaded software.
pub fn checksum_query(path: &str) -> (res: String)
    ensures
        res@ == checksum_query_spec(path@),
{
    let mut q = String::from_str("find ");
    q.append(path);
    q.append(" -type f -exec md5sum '{}' \\;");
    proof {
        reveal_strlit("find ");
        reveal_strlit(" -type f -exec md5sum '{}' \\;");
    }
    q
}

} // verus!
