//! Markdown documents with a YAML frontmatter block.

use vstd::prelude::*;

use crate::text::push_str;

verus! {

// ── specifications ──────────────────────────────────────────────────────────

/// How one character of a title is written inside a YAML double-quoted
/// scalar: backslashes and double quotes get a backslash in front.
pub open spec fn quote_escape_char(c: char) -> Seq<char> {
    if c == '\\' {
        seq!['\\', '\\']
    } else if c == '"' {
        seq!['\\', '"']
    } else {
        seq![c]
    }
}

/// The title with `\` written as `\\` and `"` written as `\"`.
pub open spec fn quote_escape(s: Seq<char>) -> Seq<char>
    decreases s.len(),
{
    if s.len() == 0 {
        Seq::<char>::empty()
    } else {
        quote_escape_char(s[0]) + quote_escape(s.drop_first())
    }
}

/// Reads back an escaped title: a backslash takes the next character as it
/// is.
pub open spec fn quote_unescape(s: Seq<char>) -> Seq<char>
    decreases s.len(),
{
    if s.len() == 0 {
        Seq::<char>::empty()
    } else if s[0] == '\\' && s.len() >= 2 {
        seq![s[1]] + quote_unescape(s.skip(2))
    } else {
        seq![s[0]] + quote_unescape(s.drop_first())
    }
}

/// The value of the `title:` field: the escaped title in double quotes, or
/// `""` when there is no title.
pub open spec fn title_field(title: Option<Seq<char>>) -> Seq<char> {
    match title {
        Some(t) => seq!['"'] + quote_escape(t) + seq!['"'],
        None => seq!['"', '"'],
    }
}

/// The `# title` heading that opens the body, when there is a title.
pub open spec fn title_heading(title: Option<Seq<char>>) -> Seq<char> {
    match title {
        Some(t) => "# "@ + t + "\n\n"@,
        None => Seq::<char>::empty(),
    }
}

/// The frontmatter block: the title, URL and fetch time between `---` lines.
pub open spec fn frontmatter(title: Option<Seq<char>>, url: Seq<char>, fetched_at: Seq<char>) -> Seq<
    char,
> {
    "---\n"@ + "title: "@ + title_field(title) + "\n"@ + "url: "@ + url + "\n"@ + "fetched: "@
        + fetched_at + "\n"@ + "---\n\n"@
}

/// A whole document: frontmatter, the heading when there is a title, the
/// body, and a final newline.
pub open spec fn document(
    title: Option<Seq<char>>,
    url: Seq<char>,
    fetched_at: Seq<char>,
    body: Seq<char>,
) -> Seq<char> {
    frontmatter(title, url, fetched_at) + title_heading(title) + body + "\n"@
}

/// The view of an optional string slice.
pub open spec fn opt_view(title: Option<&str>) -> Option<Seq<char>> {
    match title {
        Some(t) => Some(t@),
        None => None,
    }
}

// ── lemmas ──────────────────────────────────────────────────────────────────

/// Escaping a title one more character at the end escapes that character
/// alone.
proof fn lemma_quote_escape_push(s: Seq<char>, c: char)
    ensures
        quote_escape(s.push(c)) == quote_escape(s) + quote_escape_char(c),
    decreases s.len(),
{
    if s.len() == 0 {
        assert(s.push(c).drop_first() =~= Seq::<char>::empty());
        assert(quote_escape(Seq::<char>::empty()) == Seq::<char>::empty());
        assert(s.push(c)[0] == c);
        assert(quote_escape(s.push(c)) =~= quote_escape_char(c));
    } else {
        assert(s.push(c).drop_first() =~= s.drop_first().push(c));
        lemma_quote_escape_push(s.drop_first(), c);
        assert(quote_escape(s.push(c)) =~= quote_escape_char(s[0]) + (quote_escape(s.drop_first())
            + quote_escape_char(c)));
    }
}

/// The title written in the frontmatter reads back as the title: escaping
/// loses nothing.
pub proof fn lemma_title_escape_roundtrip(t: Seq<char>)
    ensures
        quote_unescape(quote_escape(t)) == t,
    decreases t.len(),
{
    if t.len() > 0 {
        lemma_title_escape_roundtrip(t.drop_first());
        let e = quote_escape(t);
        let rest = quote_escape(t.drop_first());
        let c = t[0];
        if c == '\\' || c == '"' {
            assert(e =~= seq!['\\', c] + rest);
            assert(e.skip(2) =~= rest);
        } else {
            assert(e =~= seq![c] + rest);
            assert(e.drop_first() =~= rest);
        }
        assert(t =~= seq![c] + t.drop_first());
    }
}

/// Inside the quoted title only a backslash and a double quote are escaped,
/// each with one backslash in front; every other character (an apostrophe,
/// say) is written as itself, as YAML's double-quoted scalars want it.
pub proof fn lemma_title_escapes_only_backslash_and_quote(c: char)
    ensures
        c != '\\' && c != '"' ==> quote_escape_char(c) == seq![c],
        c == '\\' || c == '"' ==> quote_escape_char(c) == seq!['\\', c],
{
}

/// A title with no backslash and no double quote is written in the title
/// field exactly as it is, between double quotes.
pub proof fn lemma_plain_title_written_as_is(t: Seq<char>)
    requires
        forall|i: int| 0 <= i < t.len() ==> t[i] != '\\' && t[i] != '"',
    ensures
        quote_escape(t) == t,
        title_field(Some(t)) == seq!['"'] + t + seq!['"'],
    decreases t.len(),
{
    if t.len() > 0 {
        let rest = t.drop_first();
        assert forall|i: int| 0 <= i < rest.len() implies rest[i] != '\\' && rest[i] != '"' by {
            assert(rest[i] == t[i + 1]);
        }
        lemma_plain_title_written_as_is(rest);
        assert(t[0] != '\\' && t[0] != '"');
        assert(t =~= seq![t[0]] + rest);
    } else {
        assert(t =~= Seq::<char>::empty());
    }
}

/// The layout of a document: it opens with the `---` line of the
/// frontmatter, the frontmatter block comes first, and the document closes
/// with the body and a final newline; without a title, the body follows the
/// frontmatter directly.
pub proof fn lemma_document_layout(
    title: Option<Seq<char>>,
    url: Seq<char>,
    fetched_at: Seq<char>,
    body: Seq<char>,
)
    ensures
        document(title, url, fetched_at, body).take(4) == seq!['-', '-', '-', '\n'],
        frontmatter(title, url, fetched_at).is_prefix_of(document(title, url, fetched_at, body)),
        (body + "\n"@).is_suffix_of(document(title, url, fetched_at, body)),
        title is None ==> document(title, url, fetched_at, body) == frontmatter(title, url, fetched_at)
            + body + "\n"@,
{
    reveal_strlit("---\n");
    let d = document(title, url, fetched_at, body);
    let f = frontmatter(title, url, fetched_at);
    let h = title_heading(title);
    assert(d =~= f + (h + body + "\n"@));
    assert(f =~= "---\n"@ + (f.skip(4)));
    assert(d.take(4) =~= seq!['-', '-', '-', '\n']);
    assert(d.subrange(0, f.len() as int) =~= f);
    assert(d =~= (f + h) + (body + "\n"@));
    assert(d.subrange(d.len() - (body + "\n"@).len(), d.len() as int) =~= body + "\n"@);
    if title is None {
        assert(h =~= Seq::<char>::empty());
        assert(d =~= f + body + "\n"@);
    }
}

// ── executable code ─────────────────────────────────────────────────────────

/// Appends `t` with `\` and `"` escaped.
fn push_quote_escaped(out: &mut String, t: &str)
    ensures
        final(out)@ == old(out)@ + quote_escape(t@),
{
    let cs = crate::text::chars_of(t);
    let ghost start = out@;
    let mut i: usize = 0;
    assert(cs@.take(0) =~= Seq::<char>::empty());
    while i < cs.len()
        invariant
            i <= cs@.len(),
            cs@ == t@,
            out@ == start + quote_escape(cs@.take(i as int)),
        decreases cs.len() - i,
    {
        let c = cs[i];
        proof {
            assert(cs@.take(i + 1) =~= cs@.take(i as int).push(c));
            lemma_quote_escape_push(cs@.take(i as int), c);
        }
        if c == '\\' {
            out.push('\\');
            out.push('\\');
        } else if c == '"' {
            out.push('\\');
            out.push('"');
        } else {
            out.push(c);
        }
        assert(out@ =~= start + quote_escape(cs@.take(i + 1)));
        i = i + 1;
    }
    assert(cs@.take(cs@.len() as int) =~= cs@);
}

/// Formats a markdown document with YAML frontmatter: the title (quoted and
/// escaped, or `""` when absent), the URL and the fetch time, then a `# title`
/// heading when there is a title, then the body and a final newline.
pub fn format_document(title: Option<&str>, url: &str, fetched_at: &str, body: &str) -> (doc:
    String)
    ensures
        doc@ == document(opt_view(title), url@, fetched_at@, body@),
{
    let mut doc = String::new();
    push_str(&mut doc, "---\n");
    push_str(&mut doc, "title: ");
    match title {
        Some(t) => {
            doc.push('"');
            push_quote_escaped(&mut doc, t);
            doc.push('"');
        },
        None => {
            doc.push('"');
            doc.push('"');
        },
    }
    push_str(&mut doc, "\n");
    push_str(&mut doc, "url: ");
    push_str(&mut doc, url);
    push_str(&mut doc, "\n");
    push_str(&mut doc, "fetched: ");
    push_str(&mut doc, fetched_at);
    push_str(&mut doc, "\n");
    push_str(&mut doc, "---\n\n");
    let ghost front = doc@;
    assert(front =~= frontmatter(opt_view(title), url@, fetched_at@));
    match title {
        Some(t) => {
            push_str(&mut doc, "# ");
            push_str(&mut doc, t);
            push_str(&mut doc, "\n\n");
        },
        None => {},
    }
    assert(doc@ =~= front + title_heading(opt_view(title)));
    push_str(&mut doc, body);
    push_str(&mut doc, "\n");
    assert(doc@ =~= document(opt_view(title), url@, fetched_at@, body@));
    doc
}

/// The name of the file that holds a document: `filename.md`.
pub fn document_file_name(filename: &str) -> (name: String)
    ensures
        name@ == filename@ + ".md"@,
{
    let mut name = String::new();
    push_str(&mut name, filename);
    push_str(&mut name, ".md");
    assert(name@ =~= filename@ + ".md"@);
    name
}

} // verus!
