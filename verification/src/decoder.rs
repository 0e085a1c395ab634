//! Decoding the streamed response body: byte frames are reassembled into
//! newline-delimited JSON records, each holding one `content` delta. A frame
//! that is not valid UTF-8, or a record that does not match the grammar,
//! fails the whole stream; no resynchronization is attempted.

use vstd::prelude::*;
use vstd::string::*;
use vstd::utf8::{decode_utf8, valid_utf8};
use crate::chat::{concat_all, lemma_concat_all_append};
use crate::error::TabbyApiError;
use crate::text::{
    bytes_to_text, char_from_code, chars_to_string, copy_range, find_char, lemma_first_index_of,
    push_chars, split_on, string_to_chars,
};

verus! {

/// JSON insignificant whitespace.
pub open spec fn is_json_ws(c: char) -> bool {
    c == ' ' || c == '\t' || c == '\r' || c == '\n'
}

/// The first position at or after `i` holding something other than JSON
/// whitespace, or the length.
pub open spec fn skip_ws(s: Seq<char>, i: int) -> int
    decreases s.len() - i
        when 0 <= i <= s.len()
{
    if 0 <= i < s.len() && is_json_ws(s[i]) {
        skip_ws(s, i + 1)
    } else {
        i
    }
}

fn is_json_ws_exec(c: char) -> (r: bool)
    ensures
        r == is_json_ws(c),
{
    c == ' ' || c == '\t' || c == '\r' || c == '\n'
}

fn skip_ws_exec(v: &Vec<char>, i: usize) -> (j: usize)
    requires
        i <= v@.len(),
    ensures
        i <= j <= v@.len(),
        j as int == skip_ws(v@, i as int),
{
    let n = v.len();
    let mut j = i;
    while j < n && is_json_ws_exec(v[j])
        invariant
            i <= j <= n,
            n == v@.len(),
            skip_ws(v@, i as int) == skip_ws(v@, j as int),
        decreases n - j,
    {
        j += 1;
    }
    j
}

/// Whether `pat` occurs in `s` starting at `i`.
pub open spec fn matches_at(s: Seq<char>, i: int, pat: Seq<char>) -> bool {
    0 <= i && i + pat.len() <= s.len() && s.subrange(i, i + pat.len()) == pat
}

fn matches_at_exec(v: &Vec<char>, i: usize, pat: &str) -> (r: bool)
    requires
        i <= v@.len(),
    ensures
        r == matches_at(v@, i as int, pat@),
{
    let p = string_to_chars(pat);
    let m = p.len();
    let n = v.len();
    if n - i < m {
        return false;
    }
    let mut j: usize = 0;
    while j < m
        invariant
            j <= m,
            m == p@.len(),
            p@ == pat@,
            n == v@.len(),
            i + m <= n,
            forall|t: int| 0 <= t < j ==> v@[i + t] == p@[t],
        decreases m - j,
    {
        if v[i + j] != p[j] {
            proof {
                assert(v@.subrange(i as int, i + m) != pat@) by {
                    assert(v@.subrange(i as int, i + m)[j as int] == v@[i + j]);
                }
            }
            return false;
        }
        j += 1;
    }
    proof {
        assert(v@.subrange(i as int, i + m) =~= pat@);
    }
    true
}

/// Whether `c` is an ASCII hex digit.
pub open spec fn is_hex_digit(c: char) -> bool {
    let n = c as u32;
    (48 <= n && n <= 57) || (97 <= n && n <= 102) || (65 <= n && n <= 70)
}

/// The value of a hex digit (zero for anything else).
pub open spec fn hex_val(c: char) -> int {
    let n = c as u32;
    if 48 <= n && n <= 57 {
        n - 48
    } else if 97 <= n && n <= 102 {
        n - 87
    } else if 65 <= n && n <= 70 {
        n - 55
    } else {
        0
    }
}

fn hex_val_exec(c: char) -> (r: (bool, u32))
    ensures
        r.0 == is_hex_digit(c),
        r.0 ==> r.1 as int == hex_val(c) && r.1 < 16,
{
    let n = c as u32;
    if 48 <= n && n <= 57 {
        (true, n - 48)
    } else if 97 <= n && n <= 102 {
        (true, n - 87)
    } else if 65 <= n && n <= 70 {
        (true, n - 55)
    } else {
        (false, 0)
    }
}

/// Whether four hex digits stand at `i`.
pub open spec fn hex4_at(s: Seq<char>, i: int) -> bool {
    0 <= i && i + 4 <= s.len() && is_hex_digit(s[i]) && is_hex_digit(s[i + 1]) && is_hex_digit(
        s[i + 2],
    ) && is_hex_digit(s[i + 3])
}

/// The value of the four hex digits at `i`.
pub open spec fn hex4_val(s: Seq<char>, i: int) -> int {
    hex_val(s[i]) * 0x1000 + hex_val(s[i + 1]) * 0x100 + hex_val(s[i + 2]) * 0x10 + hex_val(
        s[i + 3],
    )
}

fn hex4_exec(v: &Vec<char>, i: usize) -> (r: Option<u32>)
    requires
        i <= v@.len(),
    ensures
        r is Some <==> hex4_at(v@, i as int),
        r matches Some(x) ==> x as int == hex4_val(v@, i as int) && x < 0x10000,
{
    if v.len() - i < 4 {
        return None;
    }
    let (ok0, d0) = hex_val_exec(v[i]);
    let (ok1, d1) = hex_val_exec(v[i + 1]);
    let (ok2, d2) = hex_val_exec(v[i + 2]);
    let (ok3, d3) = hex_val_exec(v[i + 3]);
    if ok0 && ok1 && ok2 && ok3 {
        Some(d0 * 0x1000 + d1 * 0x100 + d2 * 0x10 + d3)
    } else {
        None
    }
}

/// One escape sequence, starting just after the backslash: the character it
/// denotes and the position after it. A lone or ill-paired surrogate escape
/// is malformed.
pub open spec fn parse_escape(s: Seq<char>, i: int) -> Option<(char, int)> {
    if !(0 <= i < s.len()) {
        Option::None
    } else {
        let c = s[i];
        if c == '"' {
            Option::Some(('"', i + 1))
        } else if c == '\\' {
            Option::Some(('\\', i + 1))
        } else if c == '/' {
            Option::Some(('/', i + 1))
        } else if c == 'b' {
            Option::Some(('\u{8}', i + 1))
        } else if c == 'f' {
            Option::Some(('\u{c}', i + 1))
        } else if c == 'n' {
            Option::Some(('\n', i + 1))
        } else if c == 'r' {
            Option::Some(('\r', i + 1))
        } else if c == 't' {
            Option::Some(('\t', i + 1))
        } else if c == 'u' {
            if !hex4_at(s, i + 1) {
                Option::None
            } else {
                let hi = hex4_val(s, i + 1);
                if 0xD800 <= hi && hi < 0xDC00 {
                    if i + 11 <= s.len() && s[i + 5] == '\\' && s[i + 6] == 'u' && hex4_at(
                        s,
                        i + 7,
                    ) {
                        let lo = hex4_val(s, i + 7);
                        if 0xDC00 <= lo && lo <= 0xDFFF {
                            Option::Some(
                                (
                                    ((0x10000 + (hi - 0xD800) * 0x400 + (lo - 0xDC00)) as u32)
                                        as char,
                                    i + 11,
                                ),
                            )
                        } else {
                            Option::None
                        }
                    } else {
                        Option::None
                    }
                } else if 0xDC00 <= hi && hi <= 0xDFFF {
                    Option::None
                } else {
                    Option::Some(((hi as u32) as char, i + 5))
                }
            }
        } else {
            Option::None
        }
    }
}

fn parse_escape_exec(v: &Vec<char>, i: usize) -> (r: Option<(char, usize)>)
    requires
        i <= v@.len(),
    ensures
        r is Some <==> parse_escape(v@, i as int) is Some,
        r matches Some((c, j)) ==> parse_escape(v@, i as int) == Option::Some((c, j as int))
            && i < j <= v@.len(),
{
    let n = v.len();
    if i >= n {
        return None;
    }
    let c = v[i];
    if c == '"' {
        Some(('"', i + 1))
    } else if c == '\\' {
        Some(('\\', i + 1))
    } else if c == '/' {
        Some(('/', i + 1))
    } else if c == 'b' {
        Some(('\u{8}', i + 1))
    } else if c == 'f' {
        Some(('\u{c}', i + 1))
    } else if c == 'n' {
        Some(('\n', i + 1))
    } else if c == 'r' {
        Some(('\r', i + 1))
    } else if c == 't' {
        Some(('\t', i + 1))
    } else if c == 'u' {
        match hex4_exec(v, i + 1) {
            Option::None => None,
            Option::Some(hi) => {
                if 0xD800 <= hi && hi < 0xDC00 {
                    if n - i >= 11 && v[i + 5] == '\\' && v[i + 6] == 'u' {
                        match hex4_exec(v, i + 7) {
                            Option::None => None,
                            Option::Some(lo) => {
                                if 0xDC00 <= lo && lo <= 0xDFFF {
                                    let code: u32 = 0x10000 + (hi - 0xD800) * 0x400 + (lo
                                        - 0xDC00);
                                    match char_from_code(code) {
                                        Option::Some(ch) => {
                                            proof {
                                                assert(ch == code as char);
                                            }
                                            Some((ch, i + 11))
                                        },
                                        Option::None => {
                                            proof {
                                                assert(false);
                                            }
                                            None
                                        },
                                    }
                                } else {
                                    None
                                }
                            },
                        }
                    } else {
                        None
                    }
                } else if 0xDC00 <= hi && hi <= 0xDFFF {
                    None
                } else {
                    match char_from_code(hi) {
                        Option::Some(ch) => {
                            proof {
                                assert(ch == hi as char);
                            }
                            Some((ch, i + 5))
                        },
                        Option::None => {
                            proof {
                                assert(false);
                            }
                            None
                        },
                    }
                }
            },
        }
    } else {
        None
    }
}

/// The body of a JSON string literal, starting just after the opening quote:
/// the denoted characters and the position after the closing quote. Raw
/// control characters are malformed.
pub open spec fn parse_string_body(s: Seq<char>, i: int) -> Option<(Seq<char>, int)>
    decreases s.len() - i
        when 0 <= i <= s.len()
{
    if i >= s.len() {
        Option::None
    } else if s[i] == '"' {
        Option::Some((Seq::empty(), i + 1))
    } else if s[i] == '\\' {
        match parse_escape(s, i + 1) {
            Option::None => Option::None,
            Option::Some((c, j)) => {
                if i + 1 < j <= s.len() {
                    match parse_string_body(s, j) {
                        Option::None => Option::None,
                        Option::Some((rest, k)) => Option::Some((seq![c] + rest, k)),
                    }
                } else {
                    Option::None
                }
            },
        }
    } else if (s[i] as u32) < 0x20 {
        Option::None
    } else {
        match parse_string_body(s, i + 1) {
            Option::None => Option::None,
            Option::Some((rest, k)) => Option::Some((seq![s[i]] + rest, k)),
        }
    }
}

/// Where a parsed string body ends: strictly after where it began, within
/// the text.
proof fn lemma_parse_string_body_bounds(s: Seq<char>, i: int)
    requires
        0 <= i <= s.len(),
    ensures
        parse_string_body(s, i) matches Some((t, k)) ==> i < k <= s.len(),
    decreases s.len() - i,
{
    if i >= s.len() {
    } else if s[i] == '"' {
    } else if s[i] == '\\' {
        match parse_escape(s, i + 1) {
            Option::None => {},
            Option::Some((c, j)) => {
                if i + 1 < j <= s.len() {
                    lemma_parse_string_body_bounds(s, j);
                }
            },
        }
    } else if (s[i] as u32) < 0x20 {
    } else {
        lemma_parse_string_body_bounds(s, i + 1);
    }
}

fn parse_string_body_exec(v: &Vec<char>, start: usize) -> (r: Option<(Vec<char>, usize)>)
    requires
        start <= v@.len(),
    ensures
        r is Some <==> parse_string_body(v@, start as int) is Some,
        r matches Some((t, k)) ==> parse_string_body(v@, start as int) == Option::Some(
            (t@, k as int),
        ) && start < k <= v@.len(),
{
    let n = v.len();
    let mut acc: Vec<char> = Vec::new();
    let mut i = start;
    proof {
        lemma_parse_string_body_bounds(v@, start as int);
        match parse_string_body(v@, start as int) {
            Option::Some((rest, k)) => {
                assert(Seq::<char>::empty() + rest =~= rest);
            },
            Option::None => {},
        }
    }
    loop
        invariant
            start <= i <= n,
            n == v@.len(),
            (match parse_string_body(v@, i as int) {
                Option::Some((rest, k)) => parse_string_body(v@, start as int) == Option::Some(
                    (acc@ + rest, k),
                ),
                Option::None => parse_string_body(v@, start as int) is None,
            }),
        decreases n - i,
    {
        if i >= n {
            return None;
        }
        let c = v[i];
        if c == '"' {
            proof {
                assert(acc@ + Seq::<char>::empty() =~= acc@);
            }
            return Some((acc, i + 1));
        } else if c == '\\' {
            match parse_escape_exec(v, i + 1) {
                Option::None => {
                    return None;
                },
                Option::Some((ec, j)) => {
                    if j <= i + 1 || j > n {
                        return None;
                    }
                    let ghost acc_before = acc@;
                    acc.push(ec);
                    proof {
                        match parse_string_body(v@, j as int) {
                            Option::Some((rest, k)) => {
                                assert(acc_before + (seq![ec] + rest) =~= acc@ + rest);
                            },
                            Option::None => {},
                        }
                    }
                    i = j;
                },
            }
        } else if (c as u32) < 0x20 {
            return None;
        } else {
            let ghost acc_before = acc@;
            acc.push(c);
            proof {
                match parse_string_body(v@, i + 1) {
                    Option::Some((rest, k)) => {
                        assert(acc_before + (seq![c] + rest) =~= acc@ + rest);
                    },
                    Option::None => {},
                }
            }
            i += 1;
        }
    }
}

/// One streamed record: an object with a single `content` field holding a
/// string, with nothing but whitespace around the tokens. The result is the
/// content.
pub open spec fn parse_chunk_line(line: Seq<char>) -> Option<Seq<char>> {
    let i0 = skip_ws(line, 0);
    if i0 < line.len() && line[i0] == '{' {
        let i1 = skip_ws(line, i0 + 1);
        if matches_at(line, i1, "\"content\""@) {
            let i2 = skip_ws(line, i1 + "\"content\""@.len());
            if i2 < line.len() && line[i2] == ':' {
                let i3 = skip_ws(line, i2 + 1);
                if i3 < line.len() && line[i3] == '"' {
                    match parse_string_body(line, i3 + 1) {
                        Option::None => Option::None,
                        Option::Some((content, j)) => {
                            let k = skip_ws(line, j);
                            if k < line.len() && line[k] == '}' {
                                if skip_ws(line, k + 1) == line.len() {
                                    Option::Some(content)
                                } else {
                                    Option::None
                                }
                            } else {
                                Option::None
                            }
                        },
                    }
                } else {
                    Option::None
                }
            } else {
                Option::None
            }
        } else {
            Option::None
        }
    } else {
        Option::None
    }
}

fn parse_chunk_line_exec(line: &Vec<char>) -> (r: Option<Vec<char>>)
    ensures
        r is Some <==> parse_chunk_line(line@) is Some,
        r matches Some(t) ==> parse_chunk_line(line@) == Option::Some(t@),
{
    let n = line.len();
    let i0 = skip_ws_exec(line, 0);
    if !(i0 < n && line[i0] == '{') {
        return None;
    }
    let i1 = skip_ws_exec(line, i0 + 1);
    if !matches_at_exec(line, i1, "\"content\"") {
        return None;
    }
    proof {
        reveal_strlit("\"content\"");
    }
    let i2 = skip_ws_exec(line, i1 + 9);
    if !(i2 < n && line[i2] == ':') {
        return None;
    }
    let i3 = skip_ws_exec(line, i2 + 1);
    if !(i3 < n && line[i3] == '"') {
        return None;
    }
    match parse_string_body_exec(line, i3 + 1) {
        Option::None => None,
        Option::Some((content, j)) => {
            let k = skip_ws_exec(line, j);
            if !(k < n && line[k] == '}') {
                return None;
            }
            let e = skip_ws_exec(line, k + 1);
            if e == n {
                Some(content)
            } else {
                None
            }
        },
    }
}

/// A line holding nothing but whitespace; such lines between records are
/// skipped rather than parsed.
pub open spec fn is_blank(line: Seq<char>) -> bool {
    skip_ws(line, 0) == line.len()
}

/// The content deltas of a sequence of complete lines, in order: blank lines
/// are skipped, every other line must be one record. `None` when any line is
/// malformed.
pub open spec fn parse_lines(lines: Seq<Seq<char>>) -> Option<Seq<Seq<char>>>
    decreases lines.len(),
{
    if lines.len() == 0 {
        Option::Some(Seq::empty())
    } else if is_blank(lines.first()) {
        parse_lines(lines.drop_first())
    } else {
        match parse_chunk_line(lines.first()) {
            Option::None => Option::None,
            Option::Some(c) => match parse_lines(lines.drop_first()) {
                Option::None => Option::None,
                Option::Some(cs) => Option::Some(seq![c] + cs),
            },
        }
    }
}

/// What one decoded frame text does to the decoder: the complete lines of
/// the pending text extended by the frame are parsed into deltas, in order,
/// and the piece after the last newline stays pending. `None` when any line
/// is malformed.
pub open spec fn feed_model(pending: Seq<char>, text: Seq<char>) -> Option<
    (Seq<char>, Seq<Seq<char>>),
> {
    let combined = pending + text;
    let parts = split_on(combined, '\n');
    match parse_lines(parts.drop_last()) {
        Option::None => Option::None,
        Option::Some(ds) => Option::Some((parts.last(), ds)),
    }
}

/// A whole stream of decoded frame texts folded through the decoder: the
/// final pending piece, the final accumulator, and the deltas of every frame
/// in arrival order. `None` when any frame holds a malformed line.
pub open spec fn feed_all_model(pending: Seq<char>, acc: Seq<char>, texts: Seq<Seq<char>>)
    -> Option<(Seq<char>, Seq<char>, Seq<Seq<char>>)>
    decreases texts.len(),
{
    if texts.len() == 0 {
        Option::Some((pending, acc, Seq::empty()))
    } else {
        match feed_model(pending, texts.first()) {
            Option::None => Option::None,
            Option::Some((p1, ds1)) => match feed_all_model(
                p1,
                acc + concat_all(ds1),
                texts.drop_first(),
            ) {
                Option::None => Option::None,
                Option::Some((pn, accn, rest)) => Option::Some((pn, accn, ds1 + rest)),
            },
        }
    }
}

/// Order-preserving accumulation across a whole stream: when every frame
/// decodes, a decoder fed those frames in order — each [`StreamDecoder::feed`]
/// call extends the accumulator by its frame's share — ends with the
/// accumulator grown by the concatenation `d1 + d2 + ... + dn` of every
/// delta of every frame.
pub proof fn lemma_feed_all_accumulation(pending: Seq<char>, acc: Seq<char>, texts: Seq<Seq<char>>)
    ensures
        feed_all_model(pending, acc, texts) matches Some((pn, accn, ds)) ==> accn == acc
            + concat_all(ds),
    decreases texts.len(),
{
    if texts.len() == 0 {
        assert(acc + concat_all(Seq::<Seq<char>>::empty()) =~= acc);
    } else {
        match feed_model(pending, texts.first()) {
            Option::None => {},
            Option::Some((p1, ds1)) => {
                let acc1 = acc + concat_all(ds1);
                lemma_feed_all_accumulation(p1, acc1, texts.drop_first());
                match feed_all_model(p1, acc1, texts.drop_first()) {
                    Option::None => {},
                    Option::Some((pn, accn, rest)) => {
                        lemma_concat_all_append(ds1, rest);
                        assert((acc + concat_all(ds1)) + concat_all(rest) =~= acc + concat_all(
                            ds1 + rest,
                        ));
                    },
                }
            },
        }
    }
}

/// A split always yields at least the tail piece.
proof fn lemma_split_on_nonempty(s: Seq<char>, c: char)
    ensures
        split_on(s, c).len() >= 1,
{
}

/// Reassembles the streamed byte frames into records and accumulates their
/// deltas. `pending` holds the partial line after the last newline seen;
/// `acc` holds every delta decoded so far, in order.
///
/// A frame is decoded as a unit: when it is not valid UTF-8, or any complete
/// line in it is malformed, the whole frame is refused and the decoder is
/// left as it was — deltas from earlier frames stay delivered.
pub struct StreamDecoder {
    pub pending: Vec<char>,
    pub acc: Vec<char>,
}

impl StreamDecoder {
    /// A decoder with nothing buffered.
    pub fn new() -> (d: Self)
        ensures
            d.pending@ == Seq::<char>::empty(),
            d.acc@ == Seq::<char>::empty(),
    {
        StreamDecoder { pending: Vec::new(), acc: Vec::new() }
    }

    /// Everything accumulated so far.
    pub fn accumulated(&self) -> (r: String)
        ensures
            r@ == self.acc@,
    {
        chars_to_string(&self.acc)
    }

    /// Feeds one byte frame. The frame's characters extend the pending text;
    /// every complete line in it is decoded, in order, into the returned
    /// deltas, which also extend the accumulator. The piece after the last
    /// newline stays pending. A frame that is not UTF-8, or holds a malformed
    /// record, yields a decode error and leaves the decoder unchanged.
    pub fn feed(&mut self, frame: &[u8]) -> (r: Result<Vec<String>, TabbyApiError>)
        ensures
            ({
                let combined = old(self).pending@ + decode_utf8(frame@);
                let parts = split_on(combined, '\n');
                let parsed = parse_lines(parts.drop_last());
                &&& (r is Err <==> (!valid_utf8(frame@) || parsed is None))
                &&& (r matches Err(e) ==> (e matches TabbyApiError::DecodeError(m) && m@ == (
                if valid_utf8(frame@) {
                    "malformed stream record"@
                } else {
                    "invalid UTF-8 in stream frame"@
                })))
                &&& (r is Err ==> final(self).pending@ == old(self).pending@ && final(self).acc@ == old(self).acc@)
                &&& (r matches Ok(ds) ==> ({
                    &&& parsed == Option::Some(ds@.map_values(|s: String| s@))
                    &&& final(self).pending@ == parts.last()
                    &&& final(self).acc@ == old(self).acc@ + concat_all(
                        ds@.map_values(|s: String| s@),
                    )
                    &&& feed_model(old(self).pending@, decode_utf8(frame@)) == Option::Some(
                        (final(self).pending@, ds@.map_values(|s: String| s@)),
                    )
                }))
                &&& ((valid_utf8(frame@) && r is Err) ==> feed_model(
                    old(self).pending@,
                    decode_utf8(frame@),
                ) is None)
            }),
    {
        let text = match bytes_to_text(frame) {
            Option::None => {
                return Result::Err(
                    TabbyApiError::DecodeError("invalid UTF-8 in stream frame".to_owned()),
                );
            },
            Option::Some(t) => t,
        };
        let mut combined: Vec<char> = Vec::new();
        push_chars(&mut combined, &self.pending);
        let tv = string_to_chars(text.as_str());
        push_chars(&mut combined, &tv);
        let ghost full = combined@;
        let ghost all_parts = split_on(full, '\n');
        let ghost all_lines = all_parts.drop_last();
        let n = combined.len();
        let mut deltas: Vec<String> = Vec::new();
        let mut acc_add: Vec<char> = Vec::new();
        let mut pos: usize = 0;
        let mut done = false;
        proof {
            assert(full.skip(0) =~= full);
            assert(deltas@.map_values(|s: String| s@) =~= Seq::<Seq<char>>::empty());
            match parse_lines(all_lines) {
                Option::Some(ds) => {
                    assert(Seq::<Seq<char>>::empty() + ds =~= ds);
                },
                Option::None => {},
            }
        }
        while !done
            invariant
                pos <= n,
                n == full.len(),
                combined@ == full,
                valid_utf8(frame@),
                full == old(self).pending@ + decode_utf8(frame@),
                all_parts == split_on(full, '\n'),
                all_lines == all_parts.drop_last(),
                self.pending@ == old(self).pending@,
                self.acc@ == old(self).acc@,
                (if done {
                    all_parts.last() == full.skip(pos as int)
                } else {
                    all_parts.last() == split_on(full.skip(pos as int), '\n').last()
                }),
                ({
                    let rem_lines = if done {
                        Seq::<Seq<char>>::empty()
                    } else {
                        split_on(full.skip(pos as int), '\n').drop_last()
                    };
                    let dsmap = deltas@.map_values(|s: String| s@);
                    match parse_lines(rem_lines) {
                        Option::Some(ds) => parse_lines(all_lines) == Option::Some(dsmap + ds)
                            && concat_all(dsmap + ds) == acc_add@ + concat_all(ds),
                        Option::None => parse_lines(all_lines) is None,
                    }
                }),
            decreases n + 1 - pos, (if done { 0int } else { 1int }),
        {
            let ghost suffix = full.skip(pos as int);
            let ghost rem_parts = split_on(suffix, '\n');
            let ghost rem_lines = rem_parts.drop_last();
            let ghost dsmap = deltas@.map_values(|s: String| s@);
            let k = find_char(&combined, pos, '\n');
            proof {
                lemma_first_index_of(suffix, '\n');
                assert(suffix.take(k - pos) =~= full.subrange(pos as int, k as int));
            }
            if k == n {
                proof {
                    assert(rem_parts == seq![suffix]);
                    assert(rem_parts.last() == suffix);
                    assert(rem_lines =~= Seq::<Seq<char>>::empty());
                }
                done = true;
            } else {
                let line = copy_range(&combined, pos, k);
                proof {
                    let rest_parts = split_on(full.skip(k + 1), '\n');
                    lemma_split_on_nonempty(full.skip(k + 1), '\n');
                    assert(suffix.skip(k - pos + 1) =~= full.skip(k + 1));
                    assert(rem_parts == seq![suffix.take(k - pos)] + rest_parts);
                    assert(line@ == rem_parts.first());
                    assert(rem_parts.last() == rest_parts.last());
                    assert(rem_lines =~= seq![line@] + rest_parts.drop_last());
                    assert(rem_lines.first() == line@);
                    assert(rem_lines.drop_first() =~= rest_parts.drop_last());
                }
                let ws_end = skip_ws_exec(&line, 0);
                if ws_end == line.len() {
                    proof {
                        assert(is_blank(line@));
                        assert(parse_lines(rem_lines) == parse_lines(rem_lines.drop_first()));
                    }
                    pos = k + 1;
                } else {
                    proof {
                        assert(!is_blank(line@));
                    }
                    match parse_chunk_line_exec(&line) {
                        Option::None => {
                            proof {
                                assert(parse_lines(rem_lines) is None);
                            }
                            return Result::Err(
                                TabbyApiError::DecodeError("malformed stream record".to_owned()),
                            );
                        },
                        Option::Some(content) => {
                            let ghost c = content@;
                            deltas.push(chars_to_string(&content));
                            push_chars(&mut acc_add, &content);
                            proof {
                                assert(deltas@.map_values(|s: String| s@) =~= dsmap.push(c));
                                match parse_lines(rem_lines.drop_first()) {
                                    Option::Some(ds2) => {
                                        assert(parse_lines(rem_lines) == Option::Some(
                                            seq![c] + ds2,
                                        ));
                                        assert(dsmap + (seq![c] + ds2) =~= dsmap.push(c) + ds2);
                                        assert((seq![c] + ds2).first() == c);
                                        assert((seq![c] + ds2).drop_first() =~= ds2);
                                        assert(concat_all(seq![c] + ds2) == c + concat_all(ds2));
                                    },
                                    Option::None => {},
                                }
                            }
                            pos = k + 1;
                        },
                    }
                }
            }
        }
        let tail = copy_range(&combined, pos, n);
        self.pending = tail;
        push_chars(&mut self.acc, &acc_add);
        proof {
            let dsmap = deltas@.map_values(|s: String| s@);
            assert(dsmap + Seq::<Seq<char>>::empty() =~= dsmap);
            assert(concat_all(Seq::<Seq<char>>::empty()) =~= Seq::<char>::empty());
            assert(acc_add@ + Seq::<char>::empty() =~= acc_add@);
            assert(full.skip(pos as int) =~= full.subrange(pos as int, n as int));
        }
        Result::Ok(deltas)
    }

    /// Closes the stream: a record left pending without a trailing newline is
    /// decoded as a final delta, a blank tail is dropped. On a malformed tail
    /// the decoder is left unchanged.
    pub fn finish(&mut self) -> (r: Result<Option<String>, TabbyApiError>)
        ensures
            ({
                let tail = old(self).pending@;
                &&& (is_blank(tail) ==> ({
                    &&& r matches Ok(d) && d is None
                    &&& final(self).pending@ == Seq::<char>::empty()
                    &&& final(self).acc@ == old(self).acc@
                }))
                &&& (!is_blank(tail) ==> (match parse_chunk_line(tail) {
                    Option::Some(c) => {
                        &&& r matches Ok(d) && (d matches Some(s) && s@ == c)
                        &&& final(self).pending@ == Seq::<char>::empty()
                        &&& final(self).acc@ == old(self).acc@ + c
                    },
                    Option::None => {
                        &&& r matches Err(e) && (e matches TabbyApiError::DecodeError(m) && m@
                            == "malformed stream record"@)
                        &&& final(self).pending@ == old(self).pending@
                        &&& final(self).acc@ == old(self).acc@
                    },
                }))
            }),
    {
        let ws_end = skip_ws_exec(&self.pending, 0);
        if ws_end == self.pending.len() {
            self.pending.clear();
            return Result::Ok(Option::None);
        }
        match parse_chunk_line_exec(&self.pending) {
            Option::None => Result::Err(
                TabbyApiError::DecodeError("malformed stream record".to_owned()),
            ),
            Option::Some(content) => {
                let s = chars_to_string(&content);
                push_chars(&mut self.acc, &content);
                self.pending.clear();
                Result::Ok(Option::Some(s))
            },
        }
    }
}

} // verus!
