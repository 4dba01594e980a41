//! The SQL text of native queries, with parameters written `{{name}}`.
use vstd::prelude::*;

verus! {

/// A part of a Native Query text, either raw text or a parameter.
#[derive(Debug, PartialEq, Eq)]
pub enum NativeQueryPart {
    /// A raw text part
    Text(String),
    /// A parameter
    Parameter(String),
}

/// The mathematical value of a [`NativeQueryPart`].
pub ghost enum PartView {
    Text(Seq<char>),
    Parameter(Seq<char>),
}

impl View for NativeQueryPart {
    type V = PartView;

    open spec fn view(&self) -> PartView {
        match self {
            NativeQueryPart::Text(text) => PartView::Text(text@),
            NativeQueryPart::Parameter(name) => PartView::Parameter(name@),
        }
    }
}

/// A Native Query SQL parts after parsing.
#[derive(Debug, PartialEq, Eq)]
pub struct NativeQueryParts(pub Vec<NativeQueryPart>);

/// The views of `parts`.
pub open spec fn parts_view(parts: Seq<NativeQueryPart>) -> Seq<PartView> {
    parts.map_values(|part: NativeQueryPart| part@)
}

/// The text of a part: the raw text, or `{{name}}`.
pub open spec fn part_text(part: PartView) -> Seq<char> {
    match part {
        PartView::Text(text) => text,
        PartView::Parameter(name) => "{{"@ + name + "}}"@,
    }
}

/// The text of parts, one after the other.
pub open spec fn rendered(parts: Seq<PartView>) -> Seq<char>
    decreases parts.len(),
{
    if parts.len() == 0 {
        Seq::empty()
    } else {
        rendered(parts.subrange(0, parts.len() - 1)) + part_text(parts[parts.len() - 1])
    }
}

/// The first position `i` in `[from, to - 1)` where `s` reads `a` then `b`, or -1.
pub open spec fn first_pair(s: Seq<char>, a: char, b: char, from: int, to: int) -> int
    decreases to - from,
{
    if from < 0 || from + 1 >= to || to > s.len() {
        -1
    } else if s[from] == a && s[from + 1] == b {
        from
    } else {
        first_pair(s, a, b, from + 1, to)
    }
}

/// The parts of the piece `s[from..to]` of a text split at `{{`: a parameter up to the
/// first `}}` and the text after it, if any; or the whole piece as text when it has no
/// `}}`.
pub open spec fn piece_parts(s: Seq<char>, from: int, to: int) -> Seq<PartView> {
    let k = first_pair(s, '}', '}', from, to);
    if k < 0 {
        seq![PartView::Text(s.subrange(from, to))]
    } else if k + 2 == to {
        seq![PartView::Parameter(s.subrange(from, k))]
    } else {
        seq![PartView::Parameter(s.subrange(from, k)), PartView::Text(s.subrange(k + 2, to))]
    }
}

/// The parts of `s[start..]`, split at each `{{`.
pub open spec fn parts_from(s: Seq<char>, start: int) -> Seq<PartView>
    decreases s.len() - start,
{
    let j = first_pair(s, '{', '{', start, s.len() as int);
    if j < 0 {
        piece_parts(s, start, s.len() as int)
    } else {
        proof {
            lemma_first_pair(s, '{', '{', start, s.len() as int);
        }
        piece_parts(s, start, j) + parts_from(s, j + 2)
    }
}

/// The parts of a native query text: the text is split at each `{{`, and each piece after
/// the first names a parameter up to its `}}`.
pub open spec fn parsed(s: Seq<char>) -> Seq<PartView> {
    parts_from(s, 0)
}

/// Each piece of `s[start..]` (split at `{{`) has a `}}`, but the first piece of the whole
/// text, which has none.
pub open spec fn delimited_from(s: Seq<char>, start: int, is_first: bool) -> bool
    decreases s.len() - start,
{
    let j = first_pair(s, '{', '{', start, s.len() as int);
    let end = if j < 0 {
        s.len() as int
    } else {
        j
    };
    let has_close = first_pair(s, '}', '}', start, end) >= 0;
    &&& if is_first {
        !has_close
    } else {
        has_close
    }
    &&& j >= 0 ==> {
        proof {
            lemma_first_pair(s, '{', '{', start, s.len() as int);
        }
        delimited_from(s, j + 2, false)
    }
}

/// A position found by `first_pair` reads `a` then `b`.
pub proof fn lemma_first_pair(s: Seq<char>, a: char, b: char, from: int, to: int)
    ensures
        first_pair(s, a, b, from, to) >= 0 ==> {
            let r = first_pair(s, a, b, from, to);
            &&& from <= r && r + 1 < to && to <= s.len()
            &&& s[r] == a && s[r + 1] == b
        },
        first_pair(s, a, b, from, to) < 0 || first_pair(s, a, b, from, to) >= from,
    decreases to - from,
{
    if from < 0 || from + 1 >= to || to > s.len() {
    } else if s[from] == a && s[from + 1] == b {
    } else {
        lemma_first_pair(s, a, b, from + 1, to);
    }
}

/// The text of a single part.
pub proof fn lemma_rendered_one(part: PartView)
    ensures
        rendered(seq![part]) == part_text(part),
{
    assert(seq![part].subrange(0, 0) =~= Seq::<PartView>::empty());
    assert(rendered(Seq::<PartView>::empty()) == Seq::<char>::empty());
    assert(Seq::<char>::empty() + part_text(part) =~= part_text(part));
}

/// The text of two lists of parts one after the other is the text of each.
pub proof fn lemma_rendered_concat(p: Seq<PartView>, q: Seq<PartView>)
    ensures
        rendered(p + q) == rendered(p) + rendered(q),
    decreases q.len(),
{
    if q.len() == 0 {
        assert(p + q =~= p);
    } else {
        let init = q.subrange(0, q.len() - 1);
        lemma_rendered_concat(p, init);
        assert((p + q).subrange(0, (p + q).len() - 1) =~= p + init);
        assert(rendered(init) + part_text(q[q.len() - 1]) == rendered(q));
    }
}

/// Rendering the parts of a well delimited text gives the text back.
proof fn lemma_render_parts_from(s: Seq<char>, start: int, is_first: bool)
    requires
        0 <= start <= s.len(),
        delimited_from(s, start, is_first),
        !is_first ==> start >= 2 && s[start - 2] == '{' && s[start - 1] == '{',
    ensures
        rendered(parts_from(s, start)) == if is_first {
            s.subrange(start, s.len() as int)
        } else {
            s.subrange(start - 2, s.len() as int)
        },
    decreases s.len() - start,
{
    let len = s.len() as int;
    let j = first_pair(s, '{', '{', start, len);
    lemma_first_pair(s, '{', '{', start, len);
    let end = if j < 0 {
        len
    } else {
        j
    };
    let k = first_pair(s, '}', '}', start, end);
    lemma_first_pair(s, '}', '}', start, end);
    let piece = piece_parts(s, start, end);
    let open: Seq<char> = if is_first {
        Seq::empty()
    } else {
        seq!['{', '{']
    };
    let begin = if is_first {
        start
    } else {
        start - 2
    };
    assert(rendered(piece) == s.subrange(begin, end)) by {
        if is_first {
            assert(k < 0);
            lemma_rendered_one(PartView::Text(s.subrange(start, end)));
        } else {
            assert(k >= 0);
            reveal_strlit("{{");
            reveal_strlit("}}");
            let param = PartView::Parameter(s.subrange(start, k));
            assert(part_text(param) =~= s.subrange(start - 2, k + 2));
            lemma_rendered_one(param);
            if k + 2 == end {
            } else {
                let text = PartView::Text(s.subrange(k + 2, end));
                let two = seq![param, text];
                assert(two.subrange(0, 1) =~= seq![param]);
                assert(rendered(two) == rendered(seq![param]) + s.subrange(k + 2, end));
                assert(s.subrange(start - 2, k + 2) + s.subrange(k + 2, end) =~= s.subrange(
                    start - 2,
                    end,
                ));
            }
        }
    }
    if j < 0 {
        assert(parts_from(s, start) == piece);
    } else {
        lemma_render_parts_from(s, j + 2, false);
        lemma_rendered_concat(piece, parts_from(s, j + 2));
        assert(s.subrange(begin, j) + s.subrange(j, len) =~= s.subrange(begin, len));
    }
}

/// Rendering the parts parsed from a text gives the text back, when the first piece of
/// the text (before any `{{`) has no `}}` and each later piece has one.
pub proof fn lemma_render_parsed(s: Seq<char>)
    requires
        delimited_from(s, 0, true),
    ensures
        rendered(parsed(s)) == s,
{
    lemma_render_parts_from(s, 0, true);
    assert(s.subrange(0, s.len() as int) =~= s);
}

/// The characters of a text.
fn chars_of(text: &str) -> (chars: Vec<char>)
    ensures
        chars@ == text@,
{
    let n = text.unicode_len();
    let mut chars: Vec<char> = Vec::new();
    let mut i: usize = 0;
    while i < n
        invariant
            n == text@.len(),
            i <= n,
            chars@ == text@.subrange(0, i as int),
        decreases n - i,
    {
        chars.push(text.get_char(i));
        assert(chars@ =~= text@.subrange(0, i + 1));
        i = i + 1;
    }
    assert(chars@ =~= text@);
    chars
}

/// The first position in `[from, to - 1)` where `chars` reads `a` then `b`.
fn find_pair(chars: &Vec<char>, a: char, b: char, from: usize, to: usize) -> (position: Option<usize>)
    requires
        from <= to <= chars@.len(),
    ensures
        match position {
            Some(i) => first_pair(chars@, a, b, from as int, to as int) == i,
            None => first_pair(chars@, a, b, from as int, to as int) < 0,
        },
{
    let mut i = from;
    while to - i > 1
        invariant
            from <= i <= to,
            to <= chars@.len(),
            first_pair(chars@, a, b, from as int, to as int) == first_pair(
                chars@,
                a,
                b,
                i as int,
                to as int,
            ),
        decreases to - i,
    {
        if chars[i] == a && chars[i + 1] == b {
            return Some(i);
        }
        i = i + 1;
    }
    None
}

/// Add the parts of the piece `text[from..to]` to `parts`.
fn push_piece_parts(
    text: &str,
    chars: &Vec<char>,
    from: usize,
    to: usize,
    parts: &mut Vec<NativeQueryPart>,
)
    requires
        chars@ == text@,
        from <= to <= chars@.len(),
    ensures
        parts_view(final(parts)@) == parts_view(old(parts)@) + piece_parts(
            text@,
            from as int,
            to as int,
        ),
{
    let ghost before = parts@;
    match find_pair(chars, '}', '}', from, to) {
        None => {
            parts.push(NativeQueryPart::Text(String::from_str(text.substring_char(from, to))));
            assert(parts_view(parts@) =~= parts_view(before) + piece_parts(
                text@,
                from as int,
                to as int,
            ));
        },
        Some(k) => {
            proof {
                lemma_first_pair(chars@, '}', '}', from as int, to as int);
            }
            parts.push(NativeQueryPart::Parameter(String::from_str(text.substring_char(from, k))));
            if k + 2 != to {
                parts.push(NativeQueryPart::Text(String::from_str(text.substring_char(k + 2, to))));
            }
            assert(parts_view(parts@) =~= parts_view(before) + piece_parts(
                text@,
                from as int,
                to as int,
            ));
        },
    }
}

/// Parse a native query into parts where variables have the syntax `{{<variable>}}`.
pub fn parse_native_query(string: &str) -> (parts: NativeQueryParts)
    ensures
        parts_view(parts.0@) == parsed(string@),
{
    let chars = chars_of(string);
    let len = chars.len();
    let mut parts: Vec<NativeQueryPart> = Vec::new();
    let mut start: usize = 0;
    let mut next = find_pair(&chars, '{', '{', 0, len);
    assert(parts_view(parts@) =~= Seq::<PartView>::empty());
    assert(Seq::<PartView>::empty() + parts_from(string@, 0) =~= parsed(string@));
    while next.is_some()
        invariant
            chars@ == string@,
            len == chars@.len(),
            start <= len,
            match next {
                Some(j) => first_pair(string@, '{', '{', start as int, len as int) == j,
                None => first_pair(string@, '{', '{', start as int, len as int) < 0,
            },
            parts_view(parts@) + parts_from(string@, start as int) == parsed(string@),
        decreases len - start,
    {
        let j = next.unwrap();
        proof {
            lemma_first_pair(string@, '{', '{', start as int, len as int);
        }
        let ghost before = parts_view(parts@);
        push_piece_parts(string, &chars, start, j, &mut parts);
        assert(before + parts_from(string@, start as int) =~= parts_view(parts@) + parts_from(
            string@,
            j + 2,
        ));
        start = j + 2;
        next = find_pair(&chars, '{', '{', start, len);
    }
    let ghost before = parts_view(parts@);
    push_piece_parts(string, &chars, start, len, &mut parts);
    assert(before + parts_from(string@, start as int) =~= parts_view(parts@));
    NativeQueryParts(parts)
}

impl NativeQueryParts {
    /// The SQL text of the parts, with each parameter written `{{name}}`.
    pub fn render(&self) -> (sql: String)
        ensures
            sql@ == rendered(parts_view(self.0@)),
    {
        let mut sql = String::new();
        let mut i: usize = 0;
        proof {
            reveal_strlit("{{");
            reveal_strlit("}}");
        }
        assert(parts_view(self.0@.subrange(0, 0)) =~= Seq::<PartView>::empty());
        while i < self.0.len()
            invariant
                i <= self.0@.len(),
                sql@ == rendered(parts_view(self.0@.subrange(0, i as int))),
            decreases self.0@.len() - i,
        {
            let ghost before = parts_view(self.0@.subrange(0, i as int));
            match &self.0[i] {
                NativeQueryPart::Text(text) => {
                    sql.append(text.as_str());
                },
                NativeQueryPart::Parameter(param) => {
                    sql.append("{{");
                    sql.append(param.as_str());
                    sql.append("}}");
                },
            }
            let ghost after = parts_view(self.0@.subrange(0, i + 1));
            assert(after.subrange(0, after.len() - 1) =~= before);
            assert(after[after.len() - 1] == self.0@[i as int]@);
            assert(sql@ =~= rendered(before) + part_text(self.0@[i as int]@));
            i = i + 1;
        }
        assert(self.0@.subrange(0, i as int) =~= self.0@);
        sql
    }
}

/// Rendering the parts parsed from a native query text gives the text back, when the
/// first piece of the text (before any `{{`) has no `}}` and each later piece has one.
pub proof fn render_undoes_parse(text: Seq<char>)
    requires
        delimited_from(text, 0, true),
    ensures
        rendered(parsed(text)) == text,
{
    lemma_render_parsed(text);
}

/// A native query's SQL once its file, if it has one, has been read.
pub enum NativeQuerySql {
    FromFile {
        /// The path of the file, relative to the configuration directory.
        file: String,
        sql: NativeQueryParts,
    },
    Inline { sql: NativeQueryParts },
}

impl NativeQuerySql {
    /// Extract the native query sql expression.
    pub fn sql(self) -> (sql: NativeQueryParts)
        ensures
            sql == match self {
                NativeQuerySql::FromFile { sql, .. } => sql,
                NativeQuerySql::Inline { sql } => sql,
            },
    {
        match self {
            NativeQuerySql::FromFile { sql, .. } => sql,
            NativeQuerySql::Inline { sql } => sql,
        }
    }
}

/// Where a native query's SQL is, as the configuration writes it.
pub enum NativeQuerySqlExternal {
    /// Refer to an external native query SQL file, by its path relative to the configuration
    /// directory.
    File { file: String },
    /// An inline native query SQL string.
    Inline { inline: NativeQueryParts },
    /// An inline native query SQL string, without a tag.
    InlineUntagged(NativeQueryParts),
}

/// A native query's SQL before or after its file has been read.
pub enum NativeQuerySqlEither {
    NativeQuerySql(NativeQuerySql),
    NativeQuerySqlExternal(NativeQuerySqlExternal),
}

/// The message of extracting the SQL of a native query whose file was not read.
pub open spec fn files_not_read_message() -> Seq<char> {
    "not all native query sql files were read during parsing"@
}

impl NativeQuerySqlEither {
    /// Extract the actual native query sql from this type. Before its file was read, it fails
    /// with an error.
    pub fn sql(self) -> (res: Result<NativeQueryParts, String>)
        ensures
            match self {
                NativeQuerySqlEither::NativeQuerySql(NativeQuerySql::FromFile { sql, .. }) => res
                    == Ok::<NativeQueryParts, String>(sql),
                NativeQuerySqlEither::NativeQuerySql(NativeQuerySql::Inline { sql }) => res == Ok::<
                    NativeQueryParts,
                    String,
                >(sql),
                NativeQuerySqlEither::NativeQuerySqlExternal(
                    NativeQuerySqlExternal::Inline { inline },
                ) => res == Ok::<NativeQueryParts, String>(inline),
                NativeQuerySqlEither::NativeQuerySqlExternal(
                    NativeQuerySqlExternal::InlineUntagged(inline),
                ) => res == Ok::<NativeQueryParts, String>(inline),
                NativeQuerySqlEither::NativeQuerySqlExternal(NativeQuerySqlExternal::File { .. }) => {
                    res matches Err(message) && message@ == files_not_read_message()
                },
            },
    {
        match self {
            NativeQuerySqlEither::NativeQuerySql(sql) => Ok(sql.sql()),
            NativeQuerySqlEither::NativeQuerySqlExternal(NativeQuerySqlExternal::Inline { inline }) => {
                Ok(inline)
            },
            NativeQuerySqlEither::NativeQuerySqlExternal(
                NativeQuerySqlExternal::InlineUntagged(inline),
            ) => Ok(inline),
            NativeQuerySqlEither::NativeQuerySqlExternal(NativeQuerySqlExternal::File { .. }) => {
                proof { reveal_strlit("not all native query sql files were read during parsing"); }
                Err(String::from_str("not all native query sql files were read during parsing"))
            },
        }
    }
}

} // verus!
