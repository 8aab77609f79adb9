//! Splits the byte output of the whisper command-line tool into sentences.
//!
//! Line feeds and carriage returns end a line; `.` and `?` end a sentence and
//! are kept; the terminal sequence ESC `[2K`, which the tool writes to erase
//! the current line, erases what has been gathered. A piece of text is handed
//! out, trimmed, only when it holds at least three bytes.
use vstd::prelude::*;
use vstd::utf8::encode_utf8;

verus! {

/// Whether a character has Unicode's White_Space property.
pub open spec fn is_white_space(c: char) -> bool {
    let u = c as u32;
    (0x09 <= u <= 0x0D) || u == 0x20 || u == 0x85 || u == 0xA0 || u == 0x1680 || (0x2000 <= u
        <= 0x200A) || u == 0x2028 || u == 0x2029 || u == 0x202F || u == 0x205F || u == 0x3000
}

/// The characters without their leading white space.
pub open spec fn strip_leading(s: Seq<char>) -> Seq<char>
    decreases s.len(),
{
    if s.len() > 0 && is_white_space(s[0]) {
        strip_leading(s.skip(1))
    } else {
        s
    }
}

/// The characters without their trailing white space.
pub open spec fn strip_trailing(s: Seq<char>) -> Seq<char>
    decreases s.len(),
{
    if s.len() > 0 && is_white_space(s.last()) {
        strip_trailing(s.drop_last())
    } else {
        s
    }
}

/// The characters without leading and trailing white space.
pub open spec fn trim_of(s: Seq<char>) -> Seq<char> {
    strip_trailing(strip_leading(s))
}

/// Relies on `str::trim`: leading and trailing characters with Unicode's
/// White_Space property removed.
#[verifier::external_body]
fn trimmed(s: &String) -> (r: String)
    ensures
        r@ == trim_of(s@),
{
    s.trim().to_owned()
}

/// Relies on `String::push`: the character is appended.
#[verifier::external_body]
fn push_char(s: &mut String, c: char)
    ensures
        final(s)@ == old(s)@.push(c),
{
    s.push(c)
}

/// Relies on `str::ends_with`: whether the pattern's characters are the last
/// characters of the string.
#[verifier::external_body]
fn ends_with_str(s: &String, pattern: &str) -> (r: bool)
    ensures
        r == (pattern@.len() <= s@.len() && s@.subrange(s@.len() - pattern@.len(), s@.len() as int)
            == pattern@),
{
    s.ends_with(pattern)
}

/// The erase-line sequence, once its escape byte has become `E`.
pub open spec fn erase_prefix() -> Seq<char> {
    seq!['E', '[', '2']
}

/// Hands out the gathered text, trimmed, if it holds at least three bytes.
pub open spec fn flush_spec(buffer: Seq<char>) -> (Seq<char>, Option<Seq<char>>) {
    if encode_utf8(buffer).len() >= 3 {
        (Seq::empty(), Some(trim_of(buffer)))
    } else {
        (buffer, None)
    }
}

/// The buffer and the text handed out after one byte of output.
pub open spec fn step_spec(buffer: Seq<char>, byte: u8) -> (Seq<char>, Option<Seq<char>>) {
    if byte == 0x0A || byte == 0x0D {
        flush_spec(buffer)
    } else if byte == 0x2E {
        flush_spec(buffer.push('.'))
    } else if byte == 0x3F {
        flush_spec(buffer.push('?'))
    } else if byte == 0x1B {
        (buffer.push('E'), None)
    } else if byte == 0x4B {
        if buffer.len() >= 3 && buffer.subrange(buffer.len() - 3, buffer.len() as int)
            == erase_prefix() {
            (Seq::empty(), None)
        } else {
            (buffer.push('K'), None)
        }
    } else {
        (buffer.push(byte as char), None)
    }
}

/// The texts handed out over a whole output, and what is left gathered.
pub open spec fn lines_spec(bytes: Seq<u8>) -> (Seq<char>, Seq<Seq<char>>)
    decreases bytes.len(),
{
    if bytes.len() == 0 {
        (Seq::empty(), Seq::empty())
    } else {
        let (buffer, lines) = lines_spec(bytes.drop_last());
        let (next, out) = step_spec(buffer, bytes.last());
        match out {
            Some(line) => (next, lines.push(line)),
            None => (next, lines),
        }
    }
}

proof fn lemma_strip_leading(s: Seq<char>)
    ensures
        strip_leading(s).len() > 0 ==> !is_white_space(strip_leading(s)[0]),
    decreases s.len(),
{
    if s.len() > 0 && is_white_space(s[0]) {
        lemma_strip_leading(s.skip(1));
    }
}

proof fn lemma_strip_trailing(s: Seq<char>)
    ensures
        strip_trailing(s).len() <= s.len(),
        strip_trailing(s) == s.subrange(0, strip_trailing(s).len() as int),
        strip_trailing(s).len() > 0 ==> !is_white_space(strip_trailing(s).last()),
    decreases s.len(),
{
    if s.len() > 0 && is_white_space(s.last()) {
        lemma_strip_trailing(s.drop_last());
        let t = strip_trailing(s.drop_last());
        assert(s.drop_last().subrange(0, t.len() as int) =~= s.subrange(0, t.len() as int));
    } else {
        assert(s.subrange(0, s.len() as int) =~= s);
    }
}

/// A trimmed text neither starts nor ends with white space.
pub proof fn lemma_trim_bare(s: Seq<char>)
    ensures
        trim_of(s).len() > 0 ==> !is_white_space(trim_of(s)[0]) && !is_white_space(
            trim_of(s).last(),
        ),
{
    lemma_strip_leading(s);
    lemma_strip_trailing(strip_leading(s));
}

/// Every text handed out over an output is trimmed, so it neither starts
/// nor ends with white space; and no more texts come out than there are
/// bytes.
pub proof fn lemma_lines_bare(bytes: Seq<u8>)
    ensures
        lines_spec(bytes).1.len() <= bytes.len(),
        forall|i: int|
            0 <= i < lines_spec(bytes).1.len() ==> (#[trigger] lines_spec(bytes).1[i]).len() == 0
                || !is_white_space(lines_spec(bytes).1[i][0]) && !is_white_space(
                lines_spec(bytes).1[i].last(),
            ),
    decreases bytes.len(),
{
    if bytes.len() > 0 {
        lemma_lines_bare(bytes.drop_last());
        let (buffer, lines) = lines_spec(bytes.drop_last());
        let b = bytes.last();
        let pushed = if b == 0x2E {
            buffer.push('.')
        } else if b == 0x3F {
            buffer.push('?')
        } else {
            buffer
        };
        lemma_trim_bare(pushed);
    }
}

/// Empties the buffer; hands out nothing.
pub fn clear(buffer: &mut String) -> (r: Option<String>)
    ensures
        final(buffer)@ == Seq::<char>::empty(),
        r is None,
{
    *buffer = String::new();
    None
}

/// Hands out the buffer's text, trimmed, and empties it, if it holds at
/// least three bytes; otherwise leaves it as it is.
pub fn flush(buffer: &mut String) -> (r: Option<String>)
    ensures
        final(buffer)@ == flush_spec(old(buffer)@).0,
        match r {
            Some(s) => flush_spec(old(buffer)@).1 == Some(s@),
            None => flush_spec(old(buffer)@).1 is None,
        },
{
    let bytes: &[u8] = buffer.as_str().as_bytes();
    if bytes.len() >= 3 {
        let result = trimmed(buffer);
        *buffer = String::new();
        Some(result)
    } else {
        None
    }
}

/// Appends a character; hands out nothing.
pub fn push(buffer: &mut String, c: char) -> (r: Option<String>)
    ensures
        final(buffer)@ == old(buffer)@.push(c),
        r is None,
{
    push_char(buffer, c);
    None
}

/// Takes one byte of output; returns the text it completes, if any.
pub fn whisper_step(buffer: &mut String, byte: u8) -> (r: Option<String>)
    ensures
        final(buffer)@ == step_spec(old(buffer)@, byte).0,
        match r {
            Some(s) => step_spec(old(buffer)@, byte).1 == Some(s@),
            None => step_spec(old(buffer)@, byte).1 is None,
        },
{
    if byte == 0x0A || byte == 0x0D {
        flush(buffer)
    } else if byte == 0x2E {
        push(buffer, '.');
        flush(buffer)
    } else if byte == 0x3F {
        push(buffer, '?');
        flush(buffer)
    } else if byte == 0x1B {
        push(buffer, 'E')
    } else if byte == 0x4B {
        proof {
            reveal_strlit("E[2");
        }
        if ends_with_str(buffer, "E[2") {
            assert("E[2"@ =~= erase_prefix());
            clear(buffer)
        } else {
            assert("E[2"@ =~= erase_prefix());
            push(buffer, 'K')
        }
    } else {
        push(buffer, byte as char)
    }
}

/// Splits a whole output into the texts it hands out, in order; text left
/// gathered at the end is not handed out.
pub fn whisper_buf_reader(bytes: &[u8]) -> (r: Vec<String>)
    ensures
        r@.len() == lines_spec(bytes@).1.len(),
        forall|i: int| 0 <= i < r@.len() ==> r@[i]@ == lines_spec(bytes@).1[i],
{
    let mut buffer = String::new();
    let mut lines: Vec<String> = Vec::new();
    let mut i: usize = 0;
    while i < bytes.len()
        invariant
            i <= bytes@.len(),
            buffer@ == lines_spec(bytes@.subrange(0, i as int)).0,
            lines@.len() == lines_spec(bytes@.subrange(0, i as int)).1.len(),
            forall|j: int|
                0 <= j < lines@.len() ==> lines@[j]@ == lines_spec(
                    bytes@.subrange(0, i as int),
                ).1[j],
        decreases bytes@.len() - i,
    {
        let ghost prefix = bytes@.subrange(0, i as int);
        let ghost next = bytes@.subrange(0, i + 1);
        assert(next.drop_last() =~= prefix);
        assert(next.last() == bytes@[i as int]);
        match whisper_step(&mut buffer, bytes[i]) {
            Some(line) => {
                lines.push(line);
            },
            None => {},
        }
        i = i + 1;
    }
    assert(bytes@.subrange(0, bytes@.len() as int) =~= bytes@);
    lines
}

} // verus!
