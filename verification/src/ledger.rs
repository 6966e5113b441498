//! The ledger of successful fetches: one JSON object per line.

use vstd::prelude::*;

use crate::text::{
    chars_of, decimal, digit_char, is_white_space, lemma_trim_unchanged, push_decimal, push_str,
    split_on, string_from_range, trim, trim_bounds,
};

verus! {

/// One successful fetch: the URL, when it was fetched (RFC 3339), and the
/// file the page was written to.
#[derive(Debug, Clone)]
pub struct LedgerEntry {
    pub url: String,
    pub fetched_at: String,
    pub file: String,
}

/// A nonblank line of a ledger file: its number (from one) and its text
/// without surrounding white space.
#[derive(Debug)]
pub struct LedgerLine {
    pub number: usize,
    pub text: String,
}

// ── duplicate detection ─────────────────────────────────────────────────────

/// Some entry of `entries` records `url`.
pub open spec fn has_url(entries: Seq<LedgerEntry>, url: Seq<char>) -> bool {
    exists|i: int| 0 <= i < entries.len() && (#[trigger] entries[i]).url@ == url
}

/// Entry `i` is the first one of `entries` that records `url`.
pub open spec fn first_with_url(entries: Seq<LedgerEntry>, url: Seq<char>, i: int) -> bool {
    &&& 0 <= i < entries.len()
    &&& entries[i].url@ == url
    &&& forall|j: int| 0 <= j < i ==> (#[trigger] entries[j]).url@ != url
}

/// Finds the first entry that records exactly `url` (the same characters; no
/// normalisation, so a URL with another query string is another URL).
pub fn is_duplicate<'a>(entries: &'a [LedgerEntry], url: &str) -> (r: Option<&'a LedgerEntry>)
    ensures
        r is None <==> !has_url(entries@, url@),
        r matches Some(e) ==> exists|i: int| first_with_url(entries@, url@, i) && *e == entries@[i],
{
    let wanted = url.to_string();
    proof {
        broadcast use vstd::string::group_string_axioms;
    }
    let mut i: usize = 0;
    while i < entries.len()
        invariant
            i <= entries@.len(),
            wanted@ == url@,
            forall|j: int| 0 <= j < i ==> (#[trigger] entries@[j]).url@ != url@,
        decreases entries.len() - i,
    {
        if entries[i].url == wanted {
            assert(first_with_url(entries@, url@, i as int));
            return Some(&entries[i]);
        }
        i = i + 1;
    }
    None
}

/// Duplicate detection law: one more entry for another URL changes nothing
/// about `url`; one more entry for `url` itself makes `url` a duplicate, and
/// when `url` was not in the ledger before, that new entry is the one found.
pub proof fn lemma_duplicate_after_append(entries: Seq<LedgerEntry>, added: LedgerEntry, url: Seq<char>)
    ensures
        added.url@ != url ==> (has_url(entries.push(added), url) == has_url(entries, url)),
        added.url@ != url ==> forall|i: int|
            first_with_url(entries.push(added), url, i) == first_with_url(entries, url, i),
        added.url@ == url ==> has_url(entries.push(added), url),
        added.url@ == url && !has_url(entries, url) ==> first_with_url(
            entries.push(added),
            url,
            entries.len() as int,
        ),
{
    let longer = entries.push(added);
    assert(longer[entries.len() as int] == added);
    if has_url(entries, url) {
        let i = choose|i: int| 0 <= i < entries.len() && (#[trigger] entries[i]).url@ == url;
        assert(longer[i] == entries[i]);
    }
    if has_url(longer, url) && added.url@ != url {
        let i = choose|i: int| 0 <= i < longer.len() && (#[trigger] longer[i]).url@ == url;
        assert(entries[i] == longer[i]);
    }
    assert forall|i: int| #![auto] added.url@ != url implies first_with_url(longer, url, i)
        == first_with_url(entries, url, i) by {
        if first_with_url(longer, url, i) {
            assert forall|j: int| 0 <= j < i implies (#[trigger] entries[j]).url@ != url by {
                assert(longer[j] == entries[j]);
            }
        }
        if first_with_url(entries, url, i) {
            assert forall|j: int| 0 <= j < i implies (#[trigger] longer[j]).url@ != url by {
                assert(longer[j] == entries[j]);
            }
        }
    }
    if added.url@ == url && !has_url(entries, url) {
        assert forall|j: int| 0 <= j < entries.len() implies (#[trigger] longer[j]).url@ != url by {
            assert(longer[j] == entries[j]);
        }
    }
}

// ── JSON lines ──────────────────────────────────────────────────────────────

/// The lower-case hexadecimal digit for `d` (below sixteen).
pub open spec fn hex_digit_char(d: nat) -> char {
    if d < 10 {
        digit_char(d)
    } else if d == 10 {
        'a'
    } else if d == 11 {
        'b'
    } else if d == 12 {
        'c'
    } else if d == 13 {
        'd'
    } else if d == 14 {
        'e'
    } else {
        'f'
    }
}

/// How JSON writes one character inside a string: quote and backslash get a
/// backslash, the common control characters their short escapes, the other
/// control characters a `\u00XX` escape, and everything else stands as it is.
pub open spec fn json_escape_char(c: char) -> Seq<char> {
    if c == '"' {
        seq!['\\', '"']
    } else if c == '\\' {
        seq!['\\', '\\']
    } else if c == '\u{8}' {
        seq!['\\', 'b']
    } else if c == '\t' {
        seq!['\\', 't']
    } else if c == '\n' {
        seq!['\\', 'n']
    } else if c == '\u{c}' {
        seq!['\\', 'f']
    } else if c == '\r' {
        seq!['\\', 'r']
    } else if (c as u32) < 0x20 {
        seq![
            '\\',
            'u',
            '0',
            '0',
            hex_digit_char((c as u32 / 16) as nat),
            hex_digit_char((c as u32 % 16) as nat),
        ]
    } else {
        seq![c]
    }
}

/// Inside a JSON string only the double quote, the backslash and the control
/// characters are escaped, each escape opening with a backslash; every other
/// character is written as itself.
pub proof fn lemma_json_escapes_only_specials(c: char)
    ensures
        c != '"' && c != '\\' && (c as u32) >= 0x20 ==> json_escape_char(c) == seq![c],
        c == '"' ==> json_escape_char(c) == seq!['\\', '"'],
        c == '\\' ==> json_escape_char(c) == seq!['\\', '\\'],
        (c as u32) < 0x20 ==> json_escape_char(c).len() >= 2 && json_escape_char(c)[0] == '\\',
{
}

/// The characters of `s`, each written as JSON writes it inside a string.
pub open spec fn json_escape(s: Seq<char>) -> Seq<char>
    decreases s.len(),
{
    if s.len() == 0 {
        Seq::<char>::empty()
    } else {
        json_escape(s.drop_last()) + json_escape_char(s.last())
    }
}

/// `s` as a JSON string: escaped, between double quotes.
pub open spec fn json_string(s: Seq<char>) -> Seq<char> {
    seq!['"'] + json_escape(s) + seq!['"']
}

/// The JSON object that records a ledger entry, as serde writes the entry's
/// three fields in order, without spaces.
pub open spec fn entry_json(url: Seq<char>, fetched_at: Seq<char>, file: Seq<char>) -> Seq<char> {
    "{\"url\":"@ + json_string(url) + ",\"fetched_at\":"@ + json_string(fetched_at)
        + ",\"file\":"@ + json_string(file) + "}"@
}

/// `serde_json::to_string` on a string slice: the string written as a JSON
/// string literal, quoted and escaped as `json_string` says. Its documentation
/// names the only ways it fails (a `Serialize` impl that decides to fail, a
/// map with non-string keys); `str` serialises by `serialize_str` and holds no
/// map, so it always succeeds. The error case would come back as `None`.
#[verifier::external_body]
pub(crate) fn json_quote(s: &str) -> (r: Option<String>)
    ensures
        r is Some,
        r matches Some(q) ==> q@ == json_string(s@),
{
    serde_json::to_string(s).ok()
}

/// The object line of a ledger entry from its three fields already written as
/// JSON strings.
pub fn entry_object(url_json: &str, fetched_at_json: &str, file_json: &str) -> (line: String)
    ensures
        line@ == "{\"url\":"@ + url_json@ + ",\"fetched_at\":"@ + fetched_at_json@ + ",\"file\":"@
            + file_json@ + "}"@,
{
    let mut line = String::new();
    push_str(&mut line, "{\"url\":");
    push_str(&mut line, url_json);
    push_str(&mut line, ",\"fetched_at\":");
    push_str(&mut line, fetched_at_json);
    push_str(&mut line, ",\"file\":");
    push_str(&mut line, file_json);
    push_str(&mut line, "}");
    line
}

impl LedgerEntry {
    /// The entry as one line of JSON (without the line break); serialising
    /// its three strings always succeeds.
    pub fn to_json_line(&self) -> (r: Option<String>)
        ensures
            r is Some,
            r matches Some(line) ==> line@ == entry_json(self.url@, self.fetched_at@, self.file@),
    {
        let u = json_quote(self.url.as_str())?;
        let f = json_quote(self.fetched_at.as_str())?;
        let p = json_quote(self.file.as_str())?;
        Some(entry_object(u.as_str(), f.as_str(), p.as_str()))
    }
}

/// No escaped character is a line break.
proof fn lemma_json_escape_single_line(s: Seq<char>)
    ensures
        !json_escape(s).contains('\n'),
    decreases s.len(),
{
    if s.len() > 0 {
        lemma_json_escape_single_line(s.drop_last());
        let a = json_escape(s.drop_last());
        let b = json_escape_char(s.last());
        assert(!b.contains('\n')) by {
            if b.contains('\n') {
                let k = choose|k: int| 0 <= k < b.len() && b[k] == '\n';
                let c = s.last();
                if (c as u32) < 0x20 && c != '\u{8}' && c != '\t' && c != '\n' && c != '\u{c}'
                    && c != '\r' {
                    assert(hex_digit_char((c as u32 / 16) as nat) != '\n');
                    assert(hex_digit_char((c as u32 % 16) as nat) != '\n');
                }
            }
        }
        assert forall|k: int| 0 <= k < (a + b).len() implies (a + b)[k] != '\n' by {
            if k < a.len() {
                assert((a + b)[k] == a[k]);
            } else {
                assert((a + b)[k] == b[k - a.len()]);
            }
        }
    }
}

/// No JSON string literal holds a line break.
pub proof fn lemma_json_string_single_line(s: Seq<char>)
    ensures
        !json_string(s).contains('\n'),
        json_string(s).len() >= 2,
{
    lemma_json_escape_single_line(s);
    let e = json_escape(s);
    let q = json_string(s);
    assert forall|k: int| 0 <= k < q.len() implies q[k] != '\n' by {
        if 1 <= k < q.len() - 1 {
            assert(q[k] == e[k - 1]);
        }
    }
}

/// A ledger line is one line: it holds no line break, opens with `{` and
/// closes with `}`, so trimming leaves it as it is.
pub proof fn lemma_entry_json_is_one_line(url: Seq<char>, fetched_at: Seq<char>, file: Seq<char>)
    ensures
        !entry_json(url, fetched_at, file).contains('\n'),
        entry_json(url, fetched_at, file).len() > 0,
        entry_json(url, fetched_at, file)[0] == '{',
        entry_json(url, fetched_at, file).last() == '}',
        trim(entry_json(url, fetched_at, file)) == entry_json(url, fetched_at, file),
{
    reveal_strlit("{\"url\":");
    reveal_strlit(",\"fetched_at\":");
    reveal_strlit(",\"file\":");
    reveal_strlit("}");
    lemma_json_string_single_line(url);
    lemma_json_string_single_line(fetched_at);
    lemma_json_string_single_line(file);
    let line = entry_json(url, fetched_at, file);
    lemma_concat_single_line("{\"url\":"@, json_string(url));
    let p1 = "{\"url\":"@ + json_string(url);
    lemma_concat_single_line(p1, ",\"fetched_at\":"@);
    let p2 = p1 + ",\"fetched_at\":"@;
    lemma_concat_single_line(p2, json_string(fetched_at));
    let p3 = p2 + json_string(fetched_at);
    lemma_concat_single_line(p3, ",\"file\":"@);
    let p4 = p3 + ",\"file\":"@;
    lemma_concat_single_line(p4, json_string(file));
    let p5 = p4 + json_string(file);
    lemma_concat_single_line(p5, "}"@);
    assert(line == p5 + "}"@);
    assert(line[0] == '{');
    assert(line.last() == '}');
    lemma_trim_unchanged(line);
}

/// Two pieces without line breaks make a piece without line breaks.
proof fn lemma_concat_single_line(a: Seq<char>, b: Seq<char>)
    requires
        !a.contains('\n'),
        !b.contains('\n'),
    ensures
        !(a + b).contains('\n'),
{
    assert forall|k: int| 0 <= k < (a + b).len() implies (a + b)[k] != '\n' by {
        if k < a.len() {
            assert((a + b)[k] == a[k]);
        } else {
            assert((a + b)[k] == b[k - a.len()]);
        }
    }
}

// ── reading ledger text ─────────────────────────────────────────────────────

/// The nonblank lines among `pieces`, trimmed, each with its number (from
/// one).
pub open spec fn numbered_lines(pieces: Seq<Seq<char>>) -> Seq<(int, Seq<char>)>
    decreases pieces.len(),
{
    if pieces.len() == 0 {
        Seq::<(int, Seq<char>)>::empty()
    } else {
        let before = numbered_lines(pieces.drop_last());
        let t = trim(pieces.last());
        if t.len() == 0 {
            before
        } else {
            before.push((pieces.len() as int, t))
        }
    }
}

/// The nonblank lines of a ledger text, trimmed and numbered.
pub open spec fn ledger_text_lines(content: Seq<char>) -> Seq<(int, Seq<char>)> {
    numbered_lines(split_on(content, '\n'))
}

/// Numbered lines come in order of their numbers, which lie between one and
/// the number of pieces, and their texts are nonblank and trimmed.
proof fn lemma_numbered_lines_shape(pieces: Seq<Seq<char>>)
    ensures
        forall|k: int|
            0 <= k < numbered_lines(pieces).len() ==> {
                let (n, t) = #[trigger] numbered_lines(pieces)[k];
                &&& 1 <= n <= pieces.len()
                &&& t.len() > 0
                &&& trim(t) == t
            },
        forall|j: int, k: int|
            0 <= j < k < numbered_lines(pieces).len() ==> (#[trigger] numbered_lines(pieces)[j]).0
                < (#[trigger] numbered_lines(pieces)[k]).0,
    decreases pieces.len(),
{
    if pieces.len() > 0 {
        let before = numbered_lines(pieces.drop_last());
        let l = numbered_lines(pieces);
        lemma_numbered_lines_shape(pieces.drop_last());
        crate::text::lemma_trim_idempotent(pieces.last());
        assert forall|k: int| 0 <= k < before.len() implies #[trigger] l[k] == before[k] by {}
        assert forall|k: int|
            0 <= k < l.len() implies {
                let (n, t) = #[trigger] l[k];
                &&& 1 <= n <= pieces.len()
                &&& t.len() > 0
                &&& trim(t) == t
            } by {
            if k < before.len() {
                assert(l[k] == before[k]);
            }
        }
        assert forall|j: int, k: int| 0 <= j < k < l.len() implies (#[trigger] l[j]).0 < (
        #[trigger] l[k]).0 by {
            assert(l[j] == before[j]);
            if k < before.len() {
                assert(l[k] == before[k]);
            }
        }
    }
}

/// The shape of what a ledger text reads as: nonblank lines without
/// surrounding white space, numbered from one in increasing order, none
/// numbered past the line count of the text.
pub proof fn lemma_ledger_lines_shape(content: Seq<char>)
    ensures
        forall|k: int|
            0 <= k < ledger_text_lines(content).len() ==> {
                let (n, t) = #[trigger] ledger_text_lines(content)[k];
                &&& 1 <= n <= split_on(content, '\n').len()
                &&& t.len() > 0
                &&& trim(t) == t
            },
        forall|j: int, k: int|
            0 <= j < k < ledger_text_lines(content).len() ==> (
            #[trigger] ledger_text_lines(content)[j]).0 < (#[trigger] ledger_text_lines(
                content,
            )[k]).0,
{
    lemma_numbered_lines_shape(split_on(content, '\n'));
}

/// The numbers and texts of ledger lines.
pub open spec fn lines_view(lines: Seq<LedgerLine>) -> Seq<(int, Seq<char>)> {
    lines.map_values(|l: LedgerLine| (l.number as int, l.text@))
}

/// Splits a ledger text into lines, drops surrounding white space from each,
/// and keeps the nonblank ones with their line numbers.
pub fn ledger_lines(content: &str) -> (lines: Vec<LedgerLine>)
    requires
        content@.len() < usize::MAX,
    ensures
        lines_view(lines@) == ledger_text_lines(content@),
{
    let cs = chars_of(content);
    let mut lines: Vec<LedgerLine> = Vec::new();
    let ghost mut done: Seq<Seq<char>> = Seq::empty();
    let mut start: usize = 0;
    let mut count: usize = 0;
    let mut i: usize = 0;
    assert(cs@.take(0) =~= Seq::<char>::empty());
    assert(cs@.subrange(0, 0) =~= Seq::<char>::empty());
    while i < cs.len()
        invariant
            cs@ == content@,
            cs@.len() < usize::MAX,
            start <= i <= cs@.len(),
            count == done.len(),
            count <= i,
            split_on(cs@.take(i as int), '\n') == done.push(cs@.subrange(start as int, i as int)),
            lines_view(lines@) == numbered_lines(done),
        decreases cs.len() - i,
    {
        let c = cs[i];
        let ghost piece = cs@.subrange(start as int, i as int);
        assert(cs@.take(i + 1).drop_last() =~= cs@.take(i as int));
        assert(cs@.take(i + 1).last() == c);
        if c == '\n' {
            let (a, b) = trim_bounds(&cs, start, i);
            if a < b {
                let text = string_from_range(&cs, a, b);
                lines.push(LedgerLine { number: count + 1, text });
            }
            proof {
                let d2 = done.push(piece);
                assert(d2.drop_last() =~= done);
                assert(lines_view(lines@) =~= numbered_lines(d2));
                done = d2;
            }
            count = count + 1;
            start = i + 1;
            assert(cs@.subrange(start as int, i + 1) =~= Seq::<char>::empty());
        } else {
            assert(cs@.subrange(start as int, i + 1) =~= piece.push(c));
            assert(done.push(piece).update(done.len() as int, piece.push(c)) =~= done.push(
                piece.push(c),
            ));
        }
        i = i + 1;
    }
    assert(cs@.take(cs@.len() as int) =~= cs@);
    let (a, b) = trim_bounds(&cs, start, i);
    if a < b {
        let text = string_from_range(&cs, a, b);
        lines.push(LedgerLine { number: count + 1, text });
    }
    proof {
        let d2 = done.push(cs@.subrange(start as int, i as int));
        assert(d2.drop_last() =~= done);
        assert(lines_view(lines@) =~= numbered_lines(d2));
    }
    lines
}

// ── appending ───────────────────────────────────────────────────────────────

/// Splitting after more characters without separators extends the last
/// piece.
proof fn lemma_split_append_plain(s: Seq<char>, t: Seq<char>, sep: char)
    requires
        !t.contains(sep),
    ensures
        split_on(s + t, sep) == split_on(s, sep).update(
            split_on(s, sep).len() - 1,
            split_on(s, sep).last() + t,
        ),
    decreases t.len(),
{
    crate::text::lemma_split_len(s, sep);
    if t.len() == 0 {
        assert(s + t =~= s);
        assert(split_on(s, sep).last() + t =~= split_on(s, sep).last());
        assert(split_on(s, sep).update(split_on(s, sep).len() - 1, split_on(s, sep).last())
            =~= split_on(s, sep));
    } else {
        let t0 = t.drop_last();
        assert(!t0.contains(sep)) by {
            if t0.contains(sep) {
                let k = choose|k: int| 0 <= k < t0.len() && t0[k] == sep;
                assert(t[k] == sep);
            }
        }
        assert(t.last() != sep) by {
            if t.last() == sep {
                assert(t.contains(sep));
            }
        }
        lemma_split_append_plain(s, t0, sep);
        assert((s + t).drop_last() =~= s + t0);
        assert((s + t).last() == t.last());
        crate::text::lemma_split_len(s + t0, sep);
        let p = split_on(s, sep);
        assert((p.last() + t0).push(t.last()) =~= p.last() + t);
        assert(split_on(s + t, sep) =~= p.update(p.len() - 1, p.last() + t));
    }
}

/// The ledger read-back law for appends: writing an entry's line and a line
/// break at the end of a ledger text that is empty or ends with a line break
/// adds exactly that line to what the text reads as, numbered after all the
/// lines before it.
pub proof fn lemma_append_entry_line(content: Seq<char>, entry: LedgerEntry)
    requires
        content.len() == 0 || content.last() == '\n',
    ensures
        ledger_text_lines(
            content + entry_json(entry.url@, entry.fetched_at@, entry.file@) + seq!['\n'],
        ) == ledger_text_lines(content).push(
            (
                split_on(content, '\n').len() as int,
                entry_json(entry.url@, entry.fetched_at@, entry.file@),
            ),
        ),
{
    let line = entry_json(entry.url@, entry.fetched_at@, entry.file@);
    lemma_entry_json_is_one_line(entry.url@, entry.fetched_at@, entry.file@);
    lemma_last_piece_empty(content);
    let p = split_on(content, '\n');
    crate::text::lemma_split_len(content, '\n');
    lemma_split_append_plain(content, line, '\n');
    let q = split_on(content + line, '\n');
    assert(q =~= p.drop_last().push(line)) by {
        assert(p.last() + line =~= line);
    }
    let full = content + line + seq!['\n'];
    assert(full.drop_last() =~= content + line);
    assert(split_on(full, '\n') == q.push(Seq::<char>::empty()));
    assert(trim(Seq::<char>::empty()) =~= Seq::<char>::empty());
    assert(q.push(Seq::<char>::empty()).drop_last() =~= q);
    assert(q.drop_last() =~= p.drop_last());
    assert(q.last() == line);
    assert(q.len() == p.len());
    assert(numbered_lines(p) == numbered_lines(p.drop_last()));
    assert(numbered_lines(q) == numbered_lines(p.drop_last()).push((p.len() as int, line)));
    assert(numbered_lines(q.push(Seq::<char>::empty())) == numbered_lines(q));
}

/// A text that is empty or ends with a line break splits with an empty last
/// piece.
proof fn lemma_last_piece_empty(content: Seq<char>)
    requires
        content.len() == 0 || content.last() == '\n',
    ensures
        split_on(content, '\n').len() >= 1,
        split_on(content, '\n').last() == Seq::<char>::empty(),
{
    crate::text::lemma_split_len(content, '\n');
}

// ── keeping the lines that parsed ───────────────────────────────────────────

/// A nonblank line of a ledger after parsing: its number (from one) and the
/// entry it holds, or the message of the error that parsing it gave.
#[derive(Debug)]
pub struct ParsedLine {
    pub number: usize,
    pub parsed: Result<LedgerEntry, String>,
}

/// The entries of the lines that parsed, in order.
pub open spec fn parsed_entries(lines: Seq<ParsedLine>) -> Seq<LedgerEntry>
    decreases lines.len(),
{
    if lines.len() == 0 {
        Seq::empty()
    } else {
        let rest = parsed_entries(lines.drop_last());
        match lines.last().parsed {
            Ok(e) => rest.push(e),
            Err(_) => rest,
        }
    }
}

/// The warning for line `number` of a `kind` file that did not parse.
pub open spec fn malformed_warning(kind: Seq<char>, number: nat, message: Seq<char>) -> Seq<char> {
    "warning: skipping malformed "@ + kind + " line "@ + decimal(number) + ": "@ + message
}

/// The warnings for the lines that did not parse, in order.
pub open spec fn malformed_warnings(lines: Seq<ParsedLine>, kind: Seq<char>) -> Seq<Seq<char>>
    decreases lines.len(),
{
    if lines.len() == 0 {
        Seq::empty()
    } else {
        let rest = malformed_warnings(lines.drop_last(), kind);
        match lines.last().parsed {
            Ok(_) => rest,
            Err(m) => rest.push(malformed_warning(kind, lines.last().number as nat, m@)),
        }
    }
}

/// Keeps the entries of the lines of a `kind` file that parsed, in order, and
/// gives a warning for each line that did not: a malformed line is skipped,
/// not an error.
pub fn keep_parsed_entries(lines: &Vec<ParsedLine>, kind: &str) -> (r: (Vec<LedgerEntry>, Vec<String>))
    ensures
        r.0@ == parsed_entries(lines@),
        r.1@.map_values(|w: String| w@) == malformed_warnings(lines@, kind@),
{
    let mut entries: Vec<LedgerEntry> = Vec::new();
    let mut warnings: Vec<String> = Vec::new();
    let mut i: usize = 0;
    while i < lines.len()
        invariant
            i <= lines@.len(),
            entries@ == parsed_entries(lines@.take(i as int)),
            warnings@.map_values(|w: String| w@) == malformed_warnings(lines@.take(i as int), kind@),
        decreases lines.len() - i,
    {
        let line = &lines[i];
        let ghost before = warnings@;
        assert(lines@.take(i + 1).drop_last() == lines@.take(i as int));
        assert(lines@.take(i + 1).last() == lines@[i as int]);
        match &line.parsed {
            Ok(e) => {
                entries.push(
                    LedgerEntry { url: e.url.clone(), fetched_at: e.fetched_at.clone(), file: e.file.clone() },
                );
            },
            Err(m) => {
                let mut w = String::new();
                push_str(&mut w, "warning: skipping malformed ");
                push_str(&mut w, kind);
                push_str(&mut w, " line ");
                push_decimal(&mut w, line.number as u64);
                push_str(&mut w, ": ");
                push_str(&mut w, m.as_str());
                warnings.push(w);
                assert(warnings@.map_values(|w: String| w@) == before.map_values(|w: String| w@).push(
                    w@,
                ));
            },
        }
        i += 1;
    }
    assert(lines@.take(lines@.len() as int) == lines@);
    (entries, warnings)
}

} // verus!
