//! What the small local web server that hands out the browser host decides by itself: how a
//! request path is decoded and which type a file is sent as.
use vstd::prelude::*;
use vstd::string::StringSliceAdditionalSpecFns;
use vstd::utf8::{decode_utf8, encode_utf8, valid_utf8};

verus! {

/// The value of one ASCII hex digit, either case.
pub open spec fn hex_digit(b: u8) -> Option<u8> {
    if 0x30 <= b <= 0x39 {
        Some((b - 0x30) as u8)
    } else if 0x61 <= b <= 0x66 {
        Some((b - 0x61 + 10) as u8)
    } else if 0x41 <= b <= 0x46 {
        Some((b - 0x41 + 10) as u8)
    } else {
        None
    }
}

/// The byte that the two characters after a `%` stand for, read in base 16 as
/// `u8::from_str_radix` reads them: two hex digits, or a plus sign and one.
pub open spec fn escape_value(first: u8, second: u8) -> Option<u8> {
    match hex_digit(second) {
        Some(low) => match hex_digit(first) {
            Some(high) => Some((high * 16 + low) as u8),
            None => if first == 0x2B {
                Some(low)
            } else {
                None
            },
        },
        None => None,
    }
}

/// Whether an escape starts at offset `i`: a `%` with two more bytes after it that make a
/// value.
pub open spec fn escape_at(s: Seq<u8>, i: int) -> bool {
    &&& s[i] == 0x25
    &&& i + 2 < s.len()
    &&& escape_value(s[i + 1], s[i + 2]) is Some
}

/// The bytes of `s` from offset `i` on, with every escape read from the left replaced by the
/// byte it stands for; every other byte is kept.
pub open spec fn unescaped(s: Seq<u8>, i: int) -> Seq<u8>
    decreases s.len() - i,
{
    if i < 0 || i >= s.len() {
        Seq::empty()
    } else if escape_at(s, i) {
        seq![escape_value(s[i + 1], s[i + 2]).unwrap()] + unescaped(s, i + 3)
    } else {
        seq![s[i]] + unescaped(s, i + 1)
    }
}

/// The character for a hex digit 0 to 15, upper case.
pub open spec fn hex_char(digit: u8) -> u8 {
    if digit < 10 {
        (0x30 + digit) as u8
    } else {
        (0x41 + digit - 10) as u8
    }
}

/// Every byte written as an escape: `%` and its two hex digits.
pub open spec fn escaped(bytes: Seq<u8>) -> Seq<u8>
    decreases bytes.len(),
{
    if bytes.len() == 0 {
        Seq::empty()
    } else {
        seq![0x25u8, hex_char(bytes[0] / 16), hex_char(bytes[0] % 16)] + escaped(
            bytes.subrange(1, bytes.len() as int),
        )
    }
}

/// Decoding from offset `i` reads only the bytes from `i` on.
proof fn lemma_unescaped_suffix(s: Seq<u8>, k: int, i: int)
    requires
        0 <= k <= i,
        k <= s.len(),
    ensures
        unescaped(s, i) == unescaped(s.subrange(k, s.len() as int), i - k),
    decreases s.len() - i,
{
    let t = s.subrange(k, s.len() as int);
    if i < s.len() {
        assert(t[i - k] == s[i]);
        if i + 2 < s.len() {
            assert(t[i - k + 1] == s[i + 1]);
            assert(t[i - k + 2] == s[i + 2]);
        }
        assert(escape_at(s, i) == escape_at(t, i - k));
        if escape_at(s, i) {
            lemma_unescaped_suffix(s, k, i + 3);
        } else {
            lemma_unescaped_suffix(s, k, i + 1);
        }
    }
}

/// Decoding undoes escaping: bytes written out as escapes all come back.
pub proof fn lemma_decode_undoes_escape(bytes: Seq<u8>)
    ensures
        unescaped(escaped(bytes), 0) == bytes,
    decreases bytes.len(),
{
    if bytes.len() > 0 {
        let rest = bytes.subrange(1, bytes.len() as int);
        let e = escaped(bytes);
        let b = bytes[0];
        lemma_decode_undoes_escape(rest);
        lemma_unescaped_suffix(e, 3, 3);
        assert(e.subrange(3, e.len() as int) =~= escaped(rest));
        assert(escape_value(hex_char(b / 16), hex_char(b % 16)) == Some(b));
        assert(unescaped(e, 0) =~= seq![b] + rest);
        assert(bytes =~= seq![b] + rest);
    }
}

/// Whether offset `i` of UTF-8 text is the start of a character or the end of the text.
pub open spec fn char_start(s: Seq<u8>, i: int) -> bool {
    i == s.len() || !(0x80 <= s[i] < 0xC0)
}

/// Whether the text can be cut after every `%` and the two bytes that follow it, at each
/// `%` the decoder looks at from offset `i` on: a cut inside a character is refused.
pub open spec fn cuts_cleanly(s: Seq<u8>, i: int) -> bool
    decreases s.len() - i,
{
    if i < 0 || i >= s.len() {
        true
    } else if s[i] == 0x25 && i + 2 < s.len() {
        &&& char_start(s, i + 3)
        &&& if escape_at(s, i) {
            cuts_cleanly(s, i + 3)
        } else {
            cuts_cleanly(s, i + 1)
        }
    } else {
        cuts_cleanly(s, i + 1)
    }
}

/// The text that `String::from_utf8_lossy` makes of some bytes: the bytes read as UTF-8, with
/// each sequence that is not UTF-8 replaced by U+FFFD.
pub uninterp spec fn lossy_text(bytes: Seq<u8>) -> Seq<char>;

/// Calls `String::from_utf8_lossy` and takes the owned text out of what it returns. Its
/// documentation promises that bytes which are UTF-8 already come back as the same text;
/// what it makes of other bytes is left to the name `lossy_text`.
#[verifier::external_body]
fn text_from_bytes(bytes: &[u8]) -> (r: String)
    ensures
        r@ == lossy_text(bytes@),
        valid_utf8(bytes@) ==> r@ == decode_utf8(bytes@),
{
    String::from_utf8_lossy(bytes).into_owned()
}

fn hex_value(b: u8) -> (r: Option<u8>)
    ensures
        r == hex_digit(b),
{
    if 0x30 <= b && b <= 0x39 {
        Some(b - 0x30)
    } else if 0x61 <= b && b <= 0x66 {
        Some(b - 0x61 + 10)
    } else if 0x41 <= b && b <= 0x46 {
        Some(b - 0x41 + 10)
    } else {
        None
    }
}

fn read_escape(first: u8, second: u8) -> (r: Option<u8>)
    ensures
        r == escape_value(first, second),
{
    match hex_value(second) {
        Some(low) => match hex_value(first) {
            Some(high) => Some(high * 16 + low),
            None => if first == 0x2B {
                Some(low)
            } else {
                None
            },
        },
        None => None,
    }
}

/// Turn `%20` and friends back into the bytes they stand for.
pub fn decode_escapes(bytes: &[u8]) -> (r: Vec<u8>)
    ensures
        r@ == unescaped(bytes@, 0),
{
    let mut out: Vec<u8> = Vec::with_capacity(bytes.len());
    let mut i: usize = 0;
    while i < bytes.len()
        invariant
            i <= bytes.len(),
            out@ + unescaped(bytes@, i as int) == unescaped(bytes@, 0),
        decreases bytes.len() - i,
    {
        if bytes[i] == 0x25 && bytes.len() - i > 2 {
            if let Some(byte) = read_escape(bytes[i + 1], bytes[i + 2]) {
                proof {
                    assert(out@.push(byte) + unescaped(bytes@, i + 3) =~= out@ + unescaped(
                        bytes@,
                        i as int,
                    ));
                }
                out.push(byte);
                i = i + 3;
                continue;
            }
        }
        proof {
            assert(out@.push(bytes[i as int]) + unescaped(bytes@, i + 1) =~= out@ + unescaped(
                bytes@,
                i as int,
            ));
        }
        out.push(bytes[i]);
        i = i + 1;
    }
    assert(out@ =~= out@ + unescaped(bytes@, i as int));
    out
}

/// Whether `percent_decode` accepts the text: no escape it looks at ends inside a character.
pub fn escapes_cut_cleanly(text: &str) -> (r: bool)
    ensures
        r == cuts_cleanly(text.spec_bytes(), 0),
{
    let bytes = text.as_bytes();
    let mut i: usize = 0;
    while i < bytes.len()
        invariant
            i <= bytes.len(),
            bytes@ == text.spec_bytes(),
            cuts_cleanly(bytes@, 0) == cuts_cleanly(bytes@, i as int),
        decreases bytes.len() - i,
    {
        if bytes[i] == 0x25 && bytes.len() - i > 2 {
            let end = i + 3;
            if end < bytes.len() && 0x80 <= bytes[end] && bytes[end] < 0xC0 {
                return false;
            }
            if read_escape(bytes[i + 1], bytes[i + 2]).is_some() {
                i = end;
            } else {
                i = i + 1;
            }
        } else {
            i = i + 1;
        }
    }
    true
}

/// Turn `%20` and friends back into the characters they stand for. Text that an escape
/// would cut in the middle of a character is not accepted.
pub fn percent_decode(text: &str) -> (r: String)
    requires
        cuts_cleanly(text.spec_bytes(), 0),
    ensures
        r@ == lossy_text(unescaped(text.spec_bytes(), 0)),
        valid_utf8(unescaped(text.spec_bytes(), 0)) ==> r@ == decode_utf8(
            unescaped(text.spec_bytes(), 0),
        ),
{
    let bytes = decode_escapes(text.as_bytes());
    text_from_bytes(bytes.as_slice())
}

/// Where the part of a request target that names a file ends: at the first `?` or `#`
/// from offset `i` on, or at the end.
pub open spec fn path_end(target: Seq<char>, i: int) -> int
    decreases target.len() - i,
{
    if i < 0 || i >= target.len() {
        target.len() as int
    } else if target[i] == '?' || target[i] == '#' {
        i
    } else {
        path_end(target, i + 1)
    }
}

/// What a path segment names once decoded, as the first component of a path: `None` for a
/// segment that starts again from the root, stays put (`.`) or climbs out (`..`); otherwise
/// the text up to its first `/`.
pub open spec fn first_name(decoded: Seq<char>) -> Option<Seq<char>> {
    let end = match first_index_of(decoded, '/', 0) {
        Some(k) => k,
        None => decoded.len() as int,
    };
    let name = decoded.subrange(0, end);
    if decoded.len() == 0 || decoded[0] == '/' || name == "."@ || name == ".."@ {
        None
    } else {
        Some(name)
    }
}

/// The position of the first `c` in `text` at or after offset `i`, if there is one.
pub open spec fn first_index_of(text: Seq<char>, c: char, i: int) -> Option<int>
    decreases text.len() - i,
{
    if i < 0 || i >= text.len() {
        None
    } else if text[i] == c {
        Some(i)
    } else {
        first_index_of(text, c, i + 1)
    }
}

/// The text a path segment stands for: its escapes decoded, read as UTF-8.
pub open spec fn decoded_segment(segment: Seq<char>) -> Seq<char> {
    lossy_text(unescaped(encode_utf8(segment), 0))
}

/// The names of the segments of `path[start..]`, one per `/`-separated piece that is not
/// empty, scanning from offset `j`; `None` as soon as a piece names no file of its own.
pub open spec fn names_from(path: Seq<char>, start: int, j: int) -> Option<Seq<Seq<char>>>
    decreases path.len() - j,
{
    if j < start || start < 0 {
        None
    } else if j >= path.len() || path[j] == '/' {
        let piece = path.subrange(start, if j >= path.len() {
            path.len() as int
        } else {
            j
        });
        let here: Option<Seq<Seq<char>>> = if piece.len() == 0 {
            Some(Seq::empty())
        } else {
            match first_name(decoded_segment(piece)) {
                Some(name) => Some(seq![name]),
                None => None,
            }
        };
        match here {
            Some(h) => if j >= path.len() {
                Some(h)
            } else {
                match names_from(path, j + 1, j + 1) {
                    Some(rest) => Some(h + rest),
                    None => None,
                }
            },
            None => None,
        }
    } else {
        names_from(path, start, j + 1)
    }
}

/// The names a request target asks for, one per folder level, from the served folder down.
pub open spec fn request_names_of(target: Seq<char>) -> Option<Seq<Seq<char>>> {
    names_from(target.subrange(0, path_end(target, 0)), 0, 0)
}

/// Whether every path segment that the walk in `names_from` reaches, from offset `j` of
/// `path[start..]` on, can be cut at its escapes: `percent_decode` accepts it.
pub open spec fn decodes_from(path: Seq<char>, start: int, j: int) -> bool
    decreases path.len() - j,
{
    if j < start || start < 0 {
        true
    } else if j >= path.len() || path[j] == '/' {
        let piece = path.subrange(start, if j >= path.len() {
            path.len() as int
        } else {
            j
        });
        let goes_on = j >= path.len() || decodes_from(path, j + 1, j + 1);
        if piece.len() == 0 {
            goes_on
        } else {
            &&& cuts_cleanly(encode_utf8(piece), 0)
            &&& (first_name(decoded_segment(piece)) is Some ==> goes_on)
        }
    } else {
        decodes_from(path, start, j + 1)
    }
}

/// Whether `request_names` accepts the target: every segment it decodes can be cut at its
/// escapes.
pub open spec fn request_decodes(target: Seq<char>) -> bool {
    decodes_from(target.subrange(0, path_end(target, 0)), 0, 0)
}

fn path_end_of(target: &str) -> (r: usize)
    ensures
        r == path_end(target@, 0),
        r <= target@.len(),
{
    let len = target.unicode_len();
    let mut i: usize = 0;
    while i < len
        invariant
            i <= len,
            len == target@.len(),
            path_end(target@, 0) == path_end(target@, i as int),
        decreases len - i,
    {
        let c = target.get_char(i);
        if c == '?' || c == '#' {
            return i;
        }
        i = i + 1;
    }
    i
}

fn first_index(text: &str, c: char) -> (r: Option<usize>)
    ensures
        text@.len() <= usize::MAX,
        match r {
            Some(k) => k < text@.len() && first_index_of(text@, c, 0) == Some(k as int),
            None => first_index_of(text@, c, 0) is None,
        },
{
    let len = text.unicode_len();
    let mut i: usize = 0;
    while i < len
        invariant
            i <= len,
            len == text@.len(),
            first_index_of(text@, c, 0) == first_index_of(text@, c, i as int),
        decreases len - i,
    {
        if text.get_char(i) == c {
            return Some(i);
        }
        i = i + 1;
    }
    None
}

// What a decoded segment names, as the first component of a path.
fn first_name_in(decoded: &str) -> (r: Option<String>)
    ensures
        match r {
            Some(name) => first_name(decoded@) == Some(name@),
            None => first_name(decoded@) is None,
        },
{
    let len = decoded.unicode_len();
    if len == 0 || decoded.get_char(0) == '/' {
        return None;
    }
    let end = match first_index(decoded, '/') {
        Some(k) => k,
        None => len,
    };
    let name = decoded.substring_char(0, end);
    assert(name@.subrange(0, name@.len() as int) =~= name@);
    if segment_is(name, 0, end, ".") || segment_is(name, 0, end, "..") {
        return None;
    }
    Some(name.to_owned())
}

/// Whether `request_names` accepts the target: every segment it reaches can be cut at its
/// escapes, so that `percent_decode` takes it.
pub fn request_decodes_cleanly(target: &str) -> (r: bool)
    ensures
        r == request_decodes(target@),
{
    let end = path_end_of(target);
    let path = target.substring_char(0, end);
    let len = path.unicode_len();
    let mut start: usize = 0;
    let mut j: usize = 0;
    loop
        invariant
            start <= j <= len,
            len == path@.len(),
            request_decodes(target@) == decodes_from(path@, start as int, j as int),
        decreases len - j,
    {
        if j == len || path.get_char(j) == '/' {
            let piece = path.substring_char(start, j);
            if piece.unicode_len() > 0 {
                if !escapes_cut_cleanly(piece) {
                    return false;
                }
                let decoded = percent_decode(piece);
                if first_name_in(decoded.as_str()).is_none() {
                    return true;
                }
            }
            if j == len {
                return true;
            }
            start = j + 1;
        }
        j = j + 1;
    }
}

/// The names a request target asks for, one per folder level from the served folder down:
/// the part before any `?` or `#`, cut at each `/`, empty pieces dropped, each piece decoded.
/// `None` when a piece would start again from the root, stay put (`.`) or climb out (`..`),
/// so that a request can never reach outside the served folder.
pub fn request_names(target: &str) -> (r: Option<Vec<String>>)
    requires
        request_decodes(target@),
    ensures
        match r {
            Some(names) => request_names_of(target@) == Some(
                names@.map_values(|name: String| name@),
            ),
            None => request_names_of(target@) is None,
        },
{
    let end = path_end_of(target);
    let path = target.substring_char(0, end);
    let len = path.unicode_len();
    let mut names: Vec<String> = Vec::new();
    let mut start: usize = 0;
    let mut j: usize = 0;
    loop
        invariant
            start <= j <= len,
            len == path@.len(),
            decodes_from(path@, start as int, j as int),
            request_names_of(target@) == (match names_from(path@, start as int, j as int) {
                Some(rest) => Some(names@.map_values(|name: String| name@) + rest),
                None => None,
            }),
        decreases len - j,
    {
        if j == len || path.get_char(j) == '/' {
            let piece = path.substring_char(start, j);
            if piece.unicode_len() > 0 {
                let decoded = percent_decode(piece);
                match first_name_in(decoded.as_str()) {
                    Some(name) => {
                        let ghost before = names@.map_values(|n: String| n@);
                        names.push(name);
                        assert(names@.map_values(|n: String| n@) =~= before.push(name@));
                    },
                    None => return None,
                }
            }
            if j == len {
                assert(names@.map_values(|n: String| n@) + Seq::<Seq<char>>::empty() =~= names@.map_values(|n: String| n@));
                return Some(names);
            }
            start = j + 1;
        }
        j = j + 1;
    }
}

/// `request_names` for any target: `None` where an escape in a segment that it reaches ends
/// inside a character, so that no name can be decoded from it; otherwise `Some` of what
/// `request_names` gives.
pub fn requested_names(target: &str) -> (r: Option<Option<Vec<String>>>)
    ensures
        match r {
            None => !request_decodes(target@),
            Some(None) => request_decodes(target@) && request_names_of(target@) is None,
            Some(Some(names)) => request_decodes(target@) && request_names_of(target@) == Some(
                names@.map_values(|name: String| name@),
            ),
        },
{
    if request_decodes_cleanly(target) {
        Some(request_names(target))
    } else {
        None
    }
}

/// The position of the last `c` in `text` before offset `end`, if there is one.
pub open spec fn last_index_of(text: Seq<char>, c: char, end: int) -> Option<int>
    decreases end,
{
    if end <= 0 {
        None
    } else if text[end - 1] == c {
        Some(end - 1)
    } else {
        last_index_of(text, c, end - 1)
    }
}

/// Where the segment of a path that ends at `end` starts: just after the last `/` before it.
pub open spec fn segment_start(path: Seq<char>, end: int) -> int {
    match last_index_of(path, '/', end) {
        Some(i) => i + 1,
        None => 0,
    }
}

/// A found position lies before `end`, and holds the character looked for.
pub proof fn lemma_last_index_bounds(text: Seq<char>, c: char, end: int)
    requires
        end <= text.len(),
    ensures
        match last_index_of(text, c, end) {
            Some(i) => 0 <= i < end && text[i] == c,
            None => true,
        },
    decreases end,
{
    if end > 0 && text[end - 1] != c {
        lemma_last_index_bounds(text, c, end - 1);
    }
}

/// The file name of the path `path[..end]`: its last segment, with trailing slashes and
/// `.` segments passed over. A path that ends in `..`, or has only `/` and `.` in it, has none.
pub open spec fn file_name_in(path: Seq<char>, end: int) -> Option<Seq<char>>
    recommends
        end <= path.len(),
    decreases end,
{
    if end <= 0 || end > path.len() {
        None
    } else if path[end - 1] == '/' {
        file_name_in(path, end - 1)
    } else {
        let start = segment_start(path, end);
        let segment = path.subrange(start, end);
        proof {
            lemma_last_index_bounds(path, '/', end - 1);
        }
        if segment == "."@ {
            file_name_in(path, start)
        } else if segment == ".."@ {
            None
        } else {
            Some(segment)
        }
    }
}

/// The extension of a file name: what follows its last dot, unless that dot is its first
/// character.
pub open spec fn extension_of_name(name: Seq<char>) -> Option<Seq<char>> {
    match last_index_of(name, '.', name.len() as int) {
        Some(dot) => if dot > 0 {
            Some(name.subrange(dot + 1, name.len() as int))
        } else {
            None
        },
        None => None,
    }
}

/// The extension of a path: that of its file name, where it has one.
pub open spec fn extension_of(path: Seq<char>) -> Option<Seq<char>> {
    match file_name_in(path, path.len() as int) {
        Some(name) => extension_of_name(name),
        None => None,
    }
}

/// The type a browser is told for a file with this extension; wasm must be exactly
/// `application/wasm` or browsers will not stream it.
pub open spec fn content_type_of(extension: Option<Seq<char>>) -> Seq<char> {
    match extension {
        Some(e) => if e == "html"@ {
            "text/html; charset=utf-8"@
        } else if e == "js"@ {
            "text/javascript; charset=utf-8"@
        } else if e == "wasm"@ {
            "application/wasm"@
        } else if e == "css"@ {
            "text/css; charset=utf-8"@
        } else if e == "json"@ {
            "application/json"@
        } else if e == "png"@ {
            "image/png"@
        } else if e == "jpeg"@ || e == "jpg"@ {
            "image/jpeg"@
        } else if e == "svg"@ {
            "image/svg+xml"@
        } else {
            "application/octet-stream"@
        },
        None => "application/octet-stream"@,
    }
}

// Where the last `c` before `end` in `text[..]` stands, read from inside the segment that
// runs from `start` to `end`.
proof fn lemma_last_index_in(text: Seq<char>, c: char, start: int, end: int, k: int)
    requires
        0 <= start <= k <= end <= text.len(),
    ensures
        last_index_of(text.subrange(start, end), c, k - start) == match last_index_of(text, c, k) {
            Some(i) => if i >= start {
                Some(i - start)
            } else {
                None
            },
            None => None,
        },
    decreases k,
{
    lemma_last_index_bounds(text, c, k);
    if k > start {
        assert(text.subrange(start, end)[k - start - 1] == text[k - 1]);
        if text[k - 1] != c {
            lemma_last_index_in(text, c, start, end, k - 1);
        }
    }
}

fn last_index(text: &str, c: char, end: usize) -> (r: Option<usize>)
    requires
        end <= text@.len(),
    ensures
        match r {
            Some(i) => i < end && last_index_of(text@, c, end as int) == Some(i as int),
            None => last_index_of(text@, c, end as int) is None,
        },
{
    let mut k = end;
    while k > 0
        invariant
            k <= end,
            end <= text@.len(),
            last_index_of(text@, c, end as int) == last_index_of(text@, c, k as int),
        decreases k,
    {
        if text.get_char(k - 1) == c {
            return Some(k - 1);
        }
        k = k - 1;
    }
    None
}

// Whether the characters of `text` from `from` up to `to` are exactly `word`.
fn segment_is(text: &str, from: usize, to: usize, word: &str) -> (r: bool)
    requires
        from <= to <= text@.len(),
    ensures
        r == (text@.subrange(from as int, to as int) == word@),
{
    let n = word.unicode_len();
    if to - from != n {
        assert(text@.subrange(from as int, to as int).len() != word@.len());
        return false;
    }
    let mut k: usize = 0;
    while k < n
        invariant
            k <= n,
            n == word@.len(),
            to <= text@.len(),
            to - from == n,
            forall|j: int| 0 <= j < k ==> text@[from + j] == word@[j],
        decreases n - k,
    {
        if text.get_char(from + k) != word.get_char(k) {
            assert(text@.subrange(from as int, to as int)[k as int] != word@[k as int]);
            return false;
        }
        k = k + 1;
    }
    assert(text@.subrange(from as int, to as int) =~= word@);
    true
}

// Where the file name of `path` stands in it, if it has one.
fn file_name_bounds(path: &str) -> (r: Option<(usize, usize)>)
    ensures
        match r {
            Some((start, end)) => start <= end <= path@.len() && file_name_in(
                path@,
                path@.len() as int,
            ) == Some(path@.subrange(start as int, end as int)),
            None => file_name_in(path@, path@.len() as int) is None,
        },
{
    let len = path.unicode_len();
    let mut end = len;
    loop
        invariant
            end <= len,
            len == path@.len(),
            file_name_in(path@, len as int) == file_name_in(path@, end as int),
        decreases end,
    {
        if end == 0 {
            return None;
        }
        if path.get_char(end - 1) == '/' {
            end = end - 1;
        } else {
            proof {
                lemma_last_index_bounds(path@, '/', end - 1);
            }
            let start = match last_index(path, '/', end) {
                Some(i) => i + 1,
                None => 0,
            };
            assert(start == segment_start(path@, end as int));
            if segment_is(path, start, end, ".") {
                end = start;
            } else if segment_is(path, start, end, "..") {
                return None;
            } else {
                return Some((start, end));
            }
        }
    }
}

/// The type to send a file as, going by the extension of its path.
pub fn content_type(path: &str) -> (r: &'static str)
    ensures
        r@ == content_type_of(extension_of(path@)),
{
    let (start, end) = match file_name_bounds(path) {
        Some(bounds) => bounds,
        None => return "application/octet-stream",
    };
    proof {
        lemma_last_index_in(path@, '.', start as int, end as int, end as int);
    }
    let dot = match last_index(path, '.', end) {
        Some(dot) if dot > start => dot,
        _ => return "application/octet-stream",
    };
    let from = dot + 1;
    assert(path@.subrange(start as int, end as int).subrange(dot - start + 1, end - start)
        =~= path@.subrange(from as int, end as int));
    if segment_is(path, from, end, "html") {
        "text/html; charset=utf-8"
    } else if segment_is(path, from, end, "js") {
        "text/javascript; charset=utf-8"
    } else if segment_is(path, from, end, "wasm") {
        "application/wasm"
    } else if segment_is(path, from, end, "css") {
        "text/css; charset=utf-8"
    } else if segment_is(path, from, end, "json") {
        "application/json"
    } else if segment_is(path, from, end, "png") {
        "image/png"
    } else if segment_is(path, from, end, "jpeg") || segment_is(path, from, end, "jpg") {
        "image/jpeg"
    } else if segment_is(path, from, end, "svg") {
        "image/svg+xml"
    } else {
        "application/octet-stream"
    }
}

} // verus!
