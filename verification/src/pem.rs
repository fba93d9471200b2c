//! PEM certificates: base64, line wrapping, and the normal form in which certificates are compared.

use vstd::prelude::*;

use crate::text::{chars_of, is_white_space, starts_with};

verus! {

/// The character that stands for a six-bit value in the standard base64 alphabet.
pub open spec fn base64_char(sextet: int) -> char {
    if sextet < 26 {
        ('A' as int + sextet) as char
    } else if sextet < 52 {
        ('a' as int + (sextet - 26)) as char
    } else if sextet < 62 {
        ('0' as int + (sextet - 52)) as char
    } else if sextet == 62 {
        '+'
    } else {
        '/'
    }
}

/// One to three bytes as four base64 characters: the bytes are read as one 24-bit number, filled up
/// with zero bits at the right, and `=` stands for each missing byte.
pub open spec fn base64_group(bytes: Seq<u8>) -> Seq<char> {
    let second: int = if bytes.len() > 1 { bytes[1] as int } else { 0 };
    let third: int = if bytes.len() > 2 { bytes[2] as int } else { 0 };
    let bits: int = bytes[0] * 0x10000 + second * 0x100 + third;
    seq![
        base64_char(bits / 0x40000),
        base64_char((bits / 0x1000) % 0x40),
        if bytes.len() > 1 { base64_char((bits / 0x40) % 0x40) } else { '=' },
        if bytes.len() > 2 { base64_char(bits % 0x40) } else { '=' },
    ]
}

/// The padded standard base64 encoding of RFC 4648: one group after the other.
pub open spec fn base64(data: Seq<u8>) -> Seq<char>
    decreases data.len(),
{
    if data.len() == 0 {
        Seq::empty()
    } else if data.len() <= 3 {
        base64_group(data)
    } else {
        base64_group(data.take(3)) + base64(data.skip(3))
    }
}

/// The length of the base64 encoding of `len` bytes.
pub open spec fn base64_len(len: int) -> int {
    4 * ((len + 2) / 3)
}

/// `base64::Engine::encode` of the `base64::engine::general_purpose::STANDARD` engine: the padded
/// encoding over the standard alphabet. It panics where the encoding would not fit in memory.
#[verifier::external_body]
fn encode_standard(data: &[u8]) -> (r: String)
    requires
        base64_len(data@.len() as int) <= isize::MAX,
    ensures
        r@ == base64(data@),
{
    base64::Engine::encode(&base64::engine::general_purpose::STANDARD, data)
}

/// Text broken into lines of 64 characters.
pub open spec fn wrapped(text: Seq<char>) -> Seq<char>
    decreases text.len(),
{
    if text.len() <= 64 {
        text
    } else {
        text.take(64) + seq!['\n'] + wrapped(text.skip(64))
    }
}

/// The PEM encoding of a DER certificate.
pub open spec fn pem_of(der: Seq<u8>) -> Seq<char> {
    "-----BEGIN CERTIFICATE-----\n"@ + wrapped(base64(der)) + "\n-----END CERTIFICATE-----"@
}

/// The PEM encoding of a DER certificate: its base64 encoding in lines of 64 characters, between
/// the certificate boundary lines.
pub fn der_to_pem(der_bytes: &[u8]) -> (pem: String)
    requires
        base64_len(der_bytes@.len() as int) <= isize::MAX,
    ensures
        pem@ == pem_of(der_bytes@),
{
    let encoded: String = encode_standard(der_bytes);
    proof {
        lemma_base64_len(der_bytes@);
        lemma_base64_chars(der_bytes@);
    }
    let ghost text = base64(der_bytes@);
    let body: &str = encoded.as_str();
    let len: usize = body.unicode_len();
    let mut pem: String = "-----BEGIN CERTIFICATE-----\n".to_string();
    let ghost header = "-----BEGIN CERTIFICATE-----\n"@;
    let mut start: usize = 0;
    proof {
        assert(text.skip(0) == text);
    }
    while len - start > 64
        invariant
            body@ == text,
            body.is_ascii(),
            len == text.len(),
            start <= len,
            pem@ + wrapped(text.skip(start as int)) == header + wrapped(text),
        decreases len - start,
    {
        proof {
            let rest = text.skip(start as int);
            assert(rest.take(64) == text.subrange(start as int, start + 64));
            assert(rest.skip(64) == text.skip(start + 64));
            assert(pem@ + (rest.take(64) + seq!['\n'] + wrapped(rest.skip(64))) == (pem@
                + rest.take(64) + seq!['\n']) + wrapped(rest.skip(64)));
            reveal_strlit("\n");
            assert("\n"@ == seq!['\n']);
        }
        pem.append(body.substring_ascii(start, start + 64));
        pem.append("\n");
        start = start + 64;
    }
    proof {
        assert(text.skip(start as int) == text.subrange(start as int, len as int));
    }
    pem.append(body.substring_ascii(start, len));
    pem.append("\n-----END CERTIFICATE-----");
    pem
}

/// The base64 alphabet, the padding character among it.
pub open spec fn is_base64_char(c: char) -> bool {
    ||| 'A' <= c <= 'Z'
    ||| 'a' <= c <= 'z'
    ||| '0' <= c <= '9'
    ||| c == '+'
    ||| c == '/'
    ||| c == '='
}

/// The encoding of `len` bytes has `base64_len(len)` characters.
pub proof fn lemma_base64_len(data: Seq<u8>)
    ensures
        base64(data).len() == base64_len(data.len() as int),
    decreases data.len(),
{
    if data.len() > 3 {
        lemma_base64_len(data.skip(3));
    }
}

/// The characters of one group belong to the alphabet.
proof fn lemma_group_chars(bytes: Seq<u8>)
    requires
        1 <= bytes.len() <= 3,
    ensures
        base64_group(bytes).len() == 4,
        forall|i: int| 0 <= i < 4 ==> is_base64_char(#[trigger] base64_group(bytes)[i]),
{
    let group = base64_group(bytes);
    assert(is_base64_char(group[0]) && is_base64_char(group[1]) && is_base64_char(group[2])
        && is_base64_char(group[3]));
}

/// Base64 is made of the characters of its alphabet alone.
pub proof fn lemma_base64_chars(data: Seq<u8>)
    ensures
        forall|i: int| 0 <= i < base64(data).len() ==> is_base64_char(#[trigger] base64(data)[i]),
    decreases data.len(),
{
    if data.len() > 3 {
        let first = base64_group(data.take(3));
        let rest = base64(data.skip(3));
        lemma_group_chars(data.take(3));
        lemma_base64_chars(data.skip(3));
        assert forall|i: int| 0 <= i < base64(data).len() implies is_base64_char(
            #[trigger] base64(data)[i],
        ) by {
            if i < 4 {
                assert(base64(data)[i] == first[i]);
            } else {
                assert(base64(data)[i] == rest[i - 4]);
            }
        }
    } else if data.len() > 0 {
        lemma_group_chars(data);
    }
}

/// Different six-bit values have different characters.
proof fn lemma_base64_char_injective(a: int, b: int)
    requires
        0 <= a < 64,
        0 <= b < 64,
        base64_char(a) == base64_char(b),
    ensures
        a == b,
        base64_char(a) != '=',
{
}

/// A 24-bit number is determined by its four six-bit parts.
proof fn lemma_sextets(m: int)
    requires
        0 <= m < 0x1000000,
    ensures
        m == (m / 0x40000) * 0x40000 + ((m / 0x1000) % 0x40) * 0x1000 + ((m / 0x40) % 0x40) * 0x40
            + m % 0x40,
        0 <= m / 0x40000 < 64,
{
}

/// The bytes of a group as a 24-bit number.
spec fn group_bits(bytes: Seq<u8>) -> int {
    let second: int = if bytes.len() > 1 { bytes[1] as int } else { 0 };
    let third: int = if bytes.len() > 2 { bytes[2] as int } else { 0 };
    bytes[0] * 0x10000 + second * 0x100 + third
}

/// The low sextets of a short group are zero.
proof fn lemma_short_group(bytes: Seq<u8>)
    requires
        1 <= bytes.len() <= 3,
    ensures
        0 <= group_bits(bytes) < 0x1000000,
        bytes.len() == 1 ==> (group_bits(bytes) / 0x40) % 0x40 == 0,
        bytes.len() <= 2 ==> group_bits(bytes) % 0x40 == 0,
{
}

/// The number of a group determines its bytes, given how many there are.
proof fn lemma_group_bits_injective(a: Seq<u8>, b: Seq<u8>)
    requires
        1 <= a.len() <= 3,
        a.len() == b.len(),
        group_bits(a) == group_bits(b),
    ensures
        a == b,
{
    assert(a[0] == b[0]);
    if a.len() > 1 {
        assert(a[1] == b[1]);
    }
    if a.len() > 2 {
        assert(a[2] == b[2]);
    }
    assert(a =~= b);
}

/// A group determines its bytes.
proof fn lemma_group_injective(a: Seq<u8>, b: Seq<u8>)
    requires
        1 <= a.len() <= 3,
        1 <= b.len() <= 3,
        base64_group(a) == base64_group(b),
    ensures
        a == b,
{
    let ga = base64_group(a);
    let gb = base64_group(b);
    let m = group_bits(a);
    let n = group_bits(b);
    lemma_short_group(a);
    lemma_short_group(b);
    lemma_sextets(m);
    lemma_sextets(n);
    assert(ga[0] == base64_char(m / 0x40000) && gb[0] == base64_char(n / 0x40000));
    assert(ga[1] == base64_char((m / 0x1000) % 0x40) && gb[1] == base64_char((n / 0x1000) % 0x40));
    lemma_base64_char_injective(m / 0x40000, n / 0x40000);
    lemma_base64_char_injective((m / 0x1000) % 0x40, (n / 0x1000) % 0x40);
    lemma_base64_char_injective((m / 0x40) % 0x40, (m / 0x40) % 0x40);
    lemma_base64_char_injective((n / 0x40) % 0x40, (n / 0x40) % 0x40);
    lemma_base64_char_injective(m % 0x40, m % 0x40);
    lemma_base64_char_injective(n % 0x40, n % 0x40);
    assert(ga[2] == gb[2]);
    assert(ga[3] == gb[3]);
    assert(a.len() == b.len());
    if a.len() > 1 {
        lemma_base64_char_injective((m / 0x40) % 0x40, (n / 0x40) % 0x40);
    }
    if a.len() > 2 {
        lemma_base64_char_injective(m % 0x40, n % 0x40);
    }
    lemma_group_bits_injective(a, b);
}

/// Different byte strings have different encodings.
pub proof fn lemma_base64_injective(a: Seq<u8>, b: Seq<u8>)
    requires
        base64(a) == base64(b),
    ensures
        a == b,
    decreases a.len(),
{
    lemma_base64_len(a);
    lemma_base64_len(b);
    if a.len() == 0 || b.len() == 0 {
        assert(a =~= b);
    } else {
        let la: int = if a.len() <= 3 { a.len() as int } else { 3 };
        let lb: int = if b.len() <= 3 { b.len() as int } else { 3 };
        assert(a.take(la) == a || a.len() > 3);
        assert(b.take(lb) == b || b.len() > 3);
        assert(base64(a).take(4) =~= base64_group(a.take(la)));
        assert(base64(b).take(4) =~= base64_group(b.take(lb)));
        lemma_group_injective(a.take(la), b.take(lb));
        assert(base64(a).skip(4) =~= base64(a.skip(la)));
        assert(base64(b).skip(4) =~= base64(b.skip(lb)));
        lemma_base64_injective(a.skip(la), b.skip(lb));
        assert(a =~= a.take(la) + a.skip(la));
        assert(b =~= b.take(lb) + b.skip(lb));
    }
}

/// The number of characters before the first line feed, or of all of them where there is none.
pub open spec fn line_len(text: Seq<char>) -> int
    decreases text.len(),
{
    if text.len() == 0 || text[0] == '\n' {
        0
    } else {
        1 + line_len(text.skip(1))
    }
}

/// The characters of a line that are kept: none of a boundary line, else all but white space.
pub open spec fn kept_of_line(line: Seq<char>) -> Seq<char> {
    if starts_with(line, "-----"@) {
        Seq::empty()
    } else {
        line.filter(|c: char| !is_white_space(c))
    }
}

/// The normal form of a PEM text: what is kept of each of its lines, one after the other.
pub open spec fn normalized(text: Seq<char>) -> Seq<char>
    decreases text.len(),
    via normalized_decreases
{
    let n = line_len(text);
    if n < text.len() {
        kept_of_line(text.take(n)) + normalized(text.skip(n + 1))
    } else {
        kept_of_line(text)
    }
}

#[via_fn]
proof fn normalized_decreases(text: Seq<char>) {
    lemma_line_len(text);
}

/// A line ends at the first line feed or at the end of the text.
proof fn lemma_line_len(text: Seq<char>)
    ensures
        0 <= line_len(text) <= text.len(),
        line_len(text) < text.len() ==> text[line_len(text)] == '\n',
        forall|i: int| 0 <= i < line_len(text) ==> text[i] != '\n',
    decreases text.len(),
{
    if text.len() > 0 && text[0] != '\n' {
        let rest = text.skip(1);
        lemma_line_len(rest);
        assert forall|i: int| 0 <= i < line_len(text) implies text[i] != '\n' by {
            if i > 0 {
                assert(text[i] == rest[i - 1]);
            }
        }
    }
}

/// The first line feed is where the line ends.
proof fn lemma_line_len_is(text: Seq<char>, n: int)
    requires
        0 <= n <= text.len(),
        forall|i: int| 0 <= i < n ==> text[i] != '\n',
        n < text.len() ==> text[n] == '\n',
    ensures
        line_len(text) == n,
{
    lemma_line_len(text);
    if n < line_len(text) {
        assert(text[n] != '\n');
    }
    if line_len(text) < n {
        assert(text[line_len(text)] != '\n');
    }
}

/// The normal form in which two PEM texts of one certificate agree: the lines that do not start
/// with `-----`, joined, without white space.
///
/// A line ends at a line feed; a carriage return before it is white space and falls away with the
/// rest of it.
pub fn normalize_certificate_pem(pem: &str) -> (r: String)
    ensures
        r@ == normalized(pem@),
{
    let chars: Vec<char> = chars_of(pem);
    let ghost text = pem@;
    let len: usize = chars.len();
    let mut out: String = String::new();
    let mut start: usize = 0;
    proof {
        assert(text.skip(0) == text);
        reveal_strlit("-----");
    }
    loop
        invariant
            chars@ == text,
            len == text.len(),
            start <= len,
            text == pem@,
            out@ + normalized(text.skip(start as int)) == normalized(text),
            "-----"@ == seq!['-', '-', '-', '-', '-'],
        decreases len - start,
    {
        let mut end: usize = start;
        while end < len && chars[end] != '\n'
            invariant
                chars@ == text,
                len == text.len(),
                start <= end <= len,
                forall|j: int| start <= j < end ==> text[j] != '\n',
            decreases len - end,
        {
            end = end + 1;
        }
        let ghost rest = text.skip(start as int);
        let ghost line = text.subrange(start as int, end as int);
        let ghost before = out@;
        proof {
            lemma_line_len_is(rest, end - start);
            assert(rest.take(end - start) == line);
            if end == len {
                assert(rest == line);
            } else {
                assert(rest.skip(end - start + 1) == text.skip(end + 1));
            }
        }
        let boundary: bool = end - start >= 5 && chars[start] == '-' && chars[start + 1] == '-'
            && chars[start + 2] == '-' && chars[start + 3] == '-' && chars[start + 4] == '-';
        proof {
            let dashes = seq!['-', '-', '-', '-', '-'];
            if boundary {
                assert(line.take(5) =~= dashes);
            } else if line.len() >= 5 && line.take(5) == dashes {
                assert(line[0] == dashes[0] && line[1] == dashes[1] && line[2] == dashes[2]
                    && line[3] == dashes[3] && line[4] == dashes[4]) by {
                    assert(forall|k: int| 0 <= k < 5 ==> line[k] == #[trigger] line.take(5)[k]);
                }
            }
            assert(boundary == starts_with(line, "-----"@));
        }
        if !boundary {
            push_visible(&chars, start, end, &mut out);
        }
        assert(out@ == before + kept_of_line(line));
        if end == len {
            assert(out@ == normalized(text));
            return out;
        }
        assert(out@ + normalized(text.skip(end + 1)) == before + (kept_of_line(line) + normalized(
            text.skip(end + 1),
        )));
        start = end + 1;
    }
}

/// Appends the characters of a range that are not white space.
fn push_visible(chars: &Vec<char>, start: usize, end: usize, out: &mut String)
    requires
        start <= end <= chars@.len(),
    ensures
        final(out)@ == old(out)@ + chars@.subrange(start as int, end as int).filter(
            |c: char| !is_white_space(c),
        ),
{
    let ghost visible = |c: char| !is_white_space(c);
    let ghost before = out@;
    let mut i: usize = start;
    proof {
        reveal(Seq::filter);
        assert(chars@.subrange(start as int, start as int).filter(visible) == Seq::<char>::empty());
    }
    while i < end
        invariant
            start <= i <= end <= chars@.len(),
            visible == (|c: char| !is_white_space(c)),
            out@ == before + chars@.subrange(start as int, i as int).filter(visible),
        decreases end - i,
    {
        let c: char = chars[i];
        proof {
            reveal(Seq::filter);
            assert(chars@.subrange(start as int, i + 1).drop_last() == chars@.subrange(
                start as int,
                i as int,
            ));
        }
        if !c.is_whitespace() {
            out.push(c);
        }
        i = i + 1;
    }
}

/// A text without a line feed is one line.
proof fn lemma_single_line(line: Seq<char>)
    requires
        forall|i: int| 0 <= i < line.len() ==> line[i] != '\n',
    ensures
        normalized(line) == kept_of_line(line),
{
    lemma_line_len_is(line, line.len() as int);
}

/// Lines are normalized one by one: the normal form of two texts with a line feed between them is
/// that of the first followed by that of the second.
pub proof fn lemma_normalized_concat(a: Seq<char>, b: Seq<char>)
    ensures
        normalized(a + seq!['\n'] + b) == normalized(a) + normalized(b),
    decreases a.len(),
{
    let whole = a + seq!['\n'] + b;
    let n = line_len(a);
    lemma_line_len(a);
    assert(whole[n] == '\n') by {
        if n < a.len() {
            assert(whole[n] == a[n]);
        }
    }
    assert forall|i: int| 0 <= i < n implies whole[i] != '\n' by {
        assert(whole[i] == a[i]);
    }
    lemma_line_len_is(whole, n);
    assert(whole.take(n) == a.take(n));
    if n < a.len() {
        let rest = a.skip(n + 1);
        lemma_normalized_concat(rest, b);
        assert(whole.skip(n + 1) == rest + seq!['\n'] + b);
        assert(kept_of_line(a.take(n)) + (normalized(rest) + normalized(b)) == (kept_of_line(
            a.take(n),
        ) + normalized(rest)) + normalized(b));
    } else {
        assert(a.take(n) == a);
        assert(whole.skip(n + 1) == b);
    }
}

/// A filter that keeps everything changes nothing.
proof fn lemma_filter_all(text: Seq<char>)
    requires
        forall|i: int| 0 <= i < text.len() ==> !is_white_space(#[trigger] text[i]),
    ensures
        text.filter(|c: char| !is_white_space(c)) == text,
    decreases text.len(),
{
    reveal(Seq::filter);
    if text.len() > 0 {
        let front = text.drop_last();
        assert forall|i: int| 0 <= i < front.len() implies !is_white_space(#[trigger] front[i]) by {
            assert(front[i] == text[i]);
        }
        lemma_filter_all(front);
        assert(!is_white_space(text[text.len() - 1]));
        assert(front.push(text.last()) == text);
    }
}

/// A line of base64 is kept as it is.
proof fn lemma_base64_line(line: Seq<char>)
    requires
        forall|i: int| 0 <= i < line.len() ==> is_base64_char(#[trigger] line[i]),
    ensures
        normalized(line) == line,
{
    reveal_strlit("-----");
    lemma_single_line(line);
    lemma_filter_all(line);
    if starts_with(line, "-----"@) {
        assert(line.take(5)[0] == line[0]);
        assert("-----"@[0] == '-');
        assert(is_base64_char(line[0]));
    }
}

/// Wrapping base64 into lines does not change its normal form.
proof fn lemma_wrapped_base64(text: Seq<char>)
    requires
        forall|i: int| 0 <= i < text.len() ==> is_base64_char(#[trigger] text[i]),
    ensures
        normalized(wrapped(text)) == text,
    decreases text.len(),
{
    if text.len() <= 64 {
        lemma_base64_line(text);
    } else {
        let line = text.take(64);
        let rest = text.skip(64);
        assert forall|i: int| 0 <= i < line.len() implies is_base64_char(#[trigger] line[i]) by {
            assert(line[i] == text[i]);
        }
        assert forall|i: int| 0 <= i < rest.len() implies is_base64_char(#[trigger] rest[i]) by {
            assert(rest[i] == text[i + 64]);
        }
        lemma_base64_line(line);
        lemma_wrapped_base64(rest);
        lemma_normalized_concat(line, wrapped(rest));
        assert(line + rest == text);
    }
}

/// The normal form of the PEM encoding of a certificate is the base64 encoding of its DER form: the
/// boundary lines and the line breaks fall away.
pub proof fn lemma_normalized_pem(der: Seq<u8>)
    ensures
        normalized(pem_of(der)) == base64(der),
{
    let begin = "-----BEGIN CERTIFICATE-----\n"@;
    let end = "\n-----END CERTIFICATE-----"@;
    let body = wrapped(base64(der));
    reveal_strlit("-----BEGIN CERTIFICATE-----\n");
    reveal_strlit("\n-----END CERTIFICATE-----");
    reveal_strlit("-----");
    let first = begin.take(27);
    let last = end.skip(1);
    assert(begin == first + seq!['\n']);
    assert(end == seq!['\n'] + last);
    assert(first.take(5) =~= "-----"@);
    assert(last.take(5) =~= "-----"@);
    lemma_single_line(first);
    lemma_single_line(last);
    lemma_base64_chars(der);
    lemma_wrapped_base64(base64(der));
    lemma_normalized_concat(body, last);
    lemma_normalized_concat(first, body + seq!['\n'] + last);
    assert(pem_of(der) == first + seq!['\n'] + (body + seq!['\n'] + last));
    assert(normalized(pem_of(der)) =~= base64(der));
}

/// Two certificates agree in the normal form of their PEM encodings exactly when they are the same
/// certificate.
pub proof fn lemma_same_normal_form(a: Seq<u8>, b: Seq<u8>)
    ensures
        normalized(pem_of(a)) == normalized(pem_of(b)) <==> a == b,
{
    lemma_normalized_pem(a);
    lemma_normalized_pem(b);
    if base64(a) == base64(b) {
        lemma_base64_injective(a, b);
    }
}

/// The text with a carriage return before each line feed.
pub open spec fn with_crlf(text: Seq<char>) -> Seq<char>
    decreases text.len(),
{
    if text.len() == 0 {
        Seq::empty()
    } else if text[0] == '\n' {
        seq!['\r', '\n'] + with_crlf(text.skip(1))
    } else {
        seq![text[0]] + with_crlf(text.skip(1))
    }
}

/// Only line feeds are affected by [`with_crlf`].
proof fn lemma_with_crlf_line(text: Seq<char>)
    ensures
        line_len(text) == text.len() ==> with_crlf(text) == text,
        line_len(text) < text.len() ==> with_crlf(text) == text.take(line_len(text)) + seq!['\r', '\n']
            + with_crlf(text.skip(line_len(text) + 1)),
    decreases text.len(),
{
    lemma_line_len(text);
    if text.len() > 0 && text[0] != '\n' {
        let rest = text.skip(1);
        let n = line_len(rest);
        lemma_with_crlf_line(rest);
        lemma_line_len(rest);
        assert(seq![text[0]] + rest == text);
        if n < rest.len() {
            assert(rest.skip(n + 1) == text.skip(n + 2));
            assert(seq![text[0]] + rest.take(n) == text.take(n + 1));
            assert(with_crlf(text) =~= text.take(n + 1) + seq!['\r', '\n'] + with_crlf(
                text.skip(n + 2),
            ));
        }
    } else if text.len() > 0 {
        assert(text.take(0) + seq!['\r', '\n'] =~= seq!['\r', '\n']);
    }
}

/// A carriage return at the end of a line changes nothing of what is kept of it.
proof fn lemma_kept_with_cr(line: Seq<char>)
    ensures
        kept_of_line(line.push('\r')) == kept_of_line(line),
{
    reveal(Seq::filter);
    reveal_strlit("-----");
    let longer = line.push('\r');
    assert(longer.drop_last() == line);
    if line.len() >= 5 {
        assert(longer.take(5) == line.take(5));
    } else if longer.len() == 5 {
        assert(longer.take(5)[4] == '\r');
        assert("-----"@[4] == '-');
    }
}

/// It does not matter whether the lines of a PEM text end in line feeds or in carriage returns and
/// line feeds.
pub proof fn lemma_normalized_crlf(text: Seq<char>)
    ensures
        normalized(with_crlf(text)) == normalized(text),
    decreases text.len(),
{
    lemma_line_len(text);
    lemma_with_crlf_line(text);
    let n = line_len(text);
    if n < text.len() {
        let line = text.take(n);
        let rest = text.skip(n + 1);
        lemma_normalized_crlf(rest);
        let longer = line.push('\r');
        assert(line + seq!['\r', '\n'] + with_crlf(rest) == longer + seq!['\n'] + with_crlf(rest));
        lemma_normalized_concat(longer, with_crlf(rest));
        assert forall|i: int| 0 <= i < longer.len() implies longer[i] != '\n' by {
            if i < n {
                assert(longer[i] == text[i]);
            }
        }
        lemma_single_line(longer);
        lemma_kept_with_cr(line);
    }
}

/// The length of a text in lines of 64 characters: one line feed between each two lines.
pub open spec fn wrapped_len(len: int) -> int {
    if len == 0 {
        0
    } else {
        len + (len - 1) / 64
    }
}

/// The PEM encoding of a certificate is the base64 encoding between the boundary lines, with a line
/// feed after each 64 characters that others follow, and no other character added or left out.
pub proof fn lemma_pem_layout(der: Seq<u8>)
    ensures
        exists|body: Seq<char>|
            {
                &&& pem_of(der) == #[trigger] ("-----BEGIN CERTIFICATE-----\n"@ + body
                    + "\n-----END CERTIFICATE-----"@)
                &&& is_in_lines_of_64(body, base64(der))
            },
{
    lemma_wrapped_layout(base64(der));
    let body = wrapped(base64(der));
    assert(pem_of(der) == "-----BEGIN CERTIFICATE-----\n"@ + body
        + "\n-----END CERTIFICATE-----"@);
}

/// The body is the text with a line feed after each 64 characters that others follow.
pub open spec fn is_in_lines_of_64(body: Seq<char>, text: Seq<char>) -> bool {
    &&& body.len() == wrapped_len(text.len() as int)
    &&& forall|i: int|
        0 <= i < body.len() ==> #[trigger] body[i] == (if i % 65 == 64 {
            '\n'
        } else {
            text[i - i / 65]
        })
}

proof fn lemma_wrapped_layout(text: Seq<char>)
    ensures
        is_in_lines_of_64(wrapped(text), text),
    decreases text.len(),
{
    let body = wrapped(text);
    if text.len() > 64 {
        let rest = text.skip(64);
        let tail = wrapped(rest);
        lemma_wrapped_layout(rest);
        assert forall|i: int| 0 <= i < body.len() implies #[trigger] body[i] == (if i % 65 == 64 {
            '\n'
        } else {
            text[i - i / 65]
        }) by {
            if i >= 65 {
                let k = i - 65;
                assert(body[i] == tail[k]);
                assert(k % 65 == i % 65 && k / 65 == i / 65 - 1);
                if k % 65 != 64 {
                    assert(0 <= k - k / 65 < rest.len());
                    assert(rest[k - k / 65] == text[64 + (k - k / 65)]);
                }
            } else if i < 64 {
                assert(body[i] == text[i]);
            }
        }
    }
}

/// Of a single line a certificate's normal form has nothing where the line is a boundary, that is
/// where it begins with five hyphens, and everything but the white space otherwise.
pub proof fn lemma_normalized_line(line: Seq<char>)
    requires
        !line.contains('\n'),
    ensures
        line.len() >= 5 && (forall|i: int| 0 <= i < 5 ==> line[i] == '-') ==> normalized(line)
            == Seq::<char>::empty(),
        !(line.len() >= 5 && (forall|i: int| 0 <= i < 5 ==> line[i] == '-')) ==> normalized(line)
            == line.filter(|c: char| !is_white_space(c)),
{
    reveal_strlit("-----");
    assert forall|i: int| 0 <= i < line.len() implies line[i] != '\n' by {
        assert(line.contains(line[i]));
    }
    lemma_single_line(line);
    if line.len() >= 5 {
        if forall|i: int| 0 <= i < 5 ==> line[i] == '-' {
            assert(line.take(5) =~= "-----"@);
        } else {
            if line.take(5) == "-----"@ {
                assert forall|i: int| 0 <= i < 5 implies line[i] == '-' by {
                    assert(line.take(5)[i] == line[i]);
                    assert("-----"@[i] == '-');
                }
            }
        }
    }
}

} // verus!
