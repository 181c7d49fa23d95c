//! Parser of the policy language's source text: spaces and comments, headers,
//! doc comments, identifiers and enum declarations.
use vstd::prelude::*;

verus! {

/// A position in a source file: the text left to read and the file's name.
#[derive(Debug, Clone, Copy, PartialEq, Eq)]
pub struct PInput<'src> {
    pub fragment: &'src str,
    pub file: &'src str,
}

/// Starts reading `text`, from the file named `file`.
pub fn pinput<'src>(text: &'src str, file: &'src str) -> (r: PInput<'src>)
    ensures
        r == (PInput { fragment: text, file }),
{
    PInput { fragment: text, file }
}

/// What went wrong, with `I` the type of a position.
#[derive(Debug, Clone, PartialEq, Eq)]
pub enum PErrorKind<I> {
    /// The text does not hold what was expected here; names it.
    Expected(&'static str),
    /// The format version is not a number.
    InvalidFormat,
    /// No valid name follows the keyword, which is given.
    InvalidName(I),
    /// The given token was expected.
    UnexpectedToken(&'static str),
    /// The given opening delimiter is never closed.
    UnterminatedDelimiter(I),
}

/// A parse error: where it happened and what it is.
#[derive(Debug, Clone, PartialEq, Eq)]
pub struct PError<I> {
    pub context: I,
    pub kind: PErrorKind<I>,
}

/// What a parser returns: the rest of the input and the value read, or an
/// error.
pub type PResult<'src, O> = Result<(PInput<'src>, O), PError<PInput<'src>>>;

fn fail<'src, O>(context: PInput<'src>, kind: PErrorKind<PInput<'src>>) -> (r: PResult<'src, O>)
    ensures
        r matches Err(e) && e.context == context && e.kind == kind,
{
    Err(PError { context, kind })
}

/// Rest of `i`, from character `k` on.
fn advance<'src>(i: PInput<'src>, k: usize) -> (r: PInput<'src>)
    requires
        k <= i.fragment@.len(),
    ensures
        r.fragment@ == i.fragment@.skip(k as int),
        r.file == i.file,
{
    let n = i.fragment.unicode_len();
    PInput { fragment: i.fragment.substring_char(k, n), file: i.file }
}

/// Whether `s` starts with `p`.
pub open spec fn starts_with(s: Seq<char>, p: Seq<char>) -> bool {
    p.len() <= s.len() && s.take(p.len() as int) == p
}

fn has_prefix(s: &str, p: &str) -> (r: bool)
    ensures
        r == starts_with(s@, p@),
{
    let n = s.unicode_len();
    let m = p.unicode_len();
    if m > n {
        return false;
    }
    let mut k: usize = 0;
    while k < m
        invariant
            m == p@.len(),
            n == s@.len(),
            m <= n,
            k <= m,
            forall|j: int| 0 <= j < k ==> s@[j] == p@[j],
        decreases m - k,
    {
        if s.get_char(k) != p.get_char(k) {
            assert(s@.take(m as int)[k as int] != p@[k as int]);
            return false;
        }
        k = k + 1;
    }
    assert(s@.take(m as int) =~= p@);
    true
}

/// Blank characters.
pub open spec fn is_space(c: char) -> bool {
    c == ' ' || c == '\t' || c == '\n' || c == '\r'
}

/// What is left of `s` once leading spaces and `#` comments are skipped;
/// `in_comment` tells whether a comment is being read, which ends with the
/// line.
pub open spec fn skip_blank(s: Seq<char>, in_comment: bool) -> Seq<char>
    decreases s.len(),
{
    if s.len() == 0 {
        s
    } else if in_comment {
        skip_blank(s.drop_first(), s[0] != '\n')
    } else if is_space(s[0]) || s[0] == '#' {
        skip_blank(s.drop_first(), s[0] == '#')
    } else {
        s
    }
}

/// Skips spaces and comments.
pub fn strip_spaces_and_comment<'src>(i: PInput<'src>) -> (r: PResult<'src, ()>)
    ensures
        r matches Ok((rest, _)) && rest.fragment@ == skip_blank(i.fragment@, false) && rest.file
            == i.file,
{
    let s = i.fragment;
    let n = s.unicode_len();
    let mut k: usize = 0;
    let mut in_comment = false;
    let mut done = false;
    assert(s@.skip(0) =~= s@);
    while k < n && !done
        invariant
            n == s@.len(),
            k <= n,
            skip_blank(s@, false) == skip_blank(s@.skip(k as int), in_comment),
            done ==> skip_blank(s@.skip(k as int), in_comment) == s@.skip(k as int),
        decreases n - k, (if done { 0int } else { 1int }),
    {
        let c = s.get_char(k);
        assert(s@.skip(k as int)[0] == c);
        assert(s@.skip(k as int).drop_first() =~= s@.skip(k + 1));
        if in_comment {
            in_comment = c != '\n';
        } else if c == ' ' || c == '\t' || c == '\n' || c == '\r' || c == '#' {
            in_comment = c == '#';
        } else {
            assert(skip_blank(s@.skip(k as int), in_comment) == s@.skip(k as int));
            done = true;
        }
        if !done {
            k = k + 1;
        }
    }
    assert(skip_blank(s@.skip(k as int), in_comment) == s@.skip(k as int));
    Ok((advance(i, k), ()))
}

/// Whether `c` is alphabetic or numeric, as Unicode classes it.
pub uninterp spec fn alphanumeric(c: char) -> bool;

/// Relies on `char::is_alphanumeric`: whether the character is alphabetic or
/// numeric in Unicode.
#[verifier::external_body]
fn is_alphanumeric(c: char) -> (r: bool)
    ensures
        r == alphanumeric(c),
{
    c.is_alphanumeric()
}

/// A character of an identifier.
pub open spec fn ident_char(c: char) -> bool {
    alphanumeric(c) || c == '_'
}

/// Length of the identifier that starts `s`.
pub open spec fn ident_len(s: Seq<char>) -> nat
    decreases s.len(),
{
    if s.len() > 0 && ident_char(s[0]) {
        1 + ident_len(s.drop_first())
    } else {
        0
    }
}

proof fn lemma_ident_len_bound(s: Seq<char>)
    ensures
        ident_len(s) <= s.len(),
    decreases s.len(),
{
    if s.len() > 0 && ident_char(s[0]) {
        lemma_ident_len_bound(s.drop_first());
    }
}

/// A non-empty string of identifier characters.
pub open spec fn is_ident(s: Seq<char>) -> bool {
    s.len() > 0 && forall|j: int| 0 <= j < s.len() ==> ident_char(#[trigger] s[j])
}

/// Reads an identifier: one or more letters, digits or `_`.
pub fn pidentifier<'src>(i: PInput<'src>) -> (r: PResult<'src, String>)
    ensures
        ident_len(i.fragment@) > 0 <==> r is Ok,
        r matches Ok((rest, name)) ==> name@ == i.fragment@.take(ident_len(i.fragment@) as int)
            && rest.fragment@ == i.fragment@.skip(ident_len(i.fragment@) as int) && rest.file
            == i.file,
        r matches Ok((_, name)) ==> is_ident(name@),
        r matches Err(e) ==> e.context == i && e.kind == PErrorKind::<PInput<'src>>::Expected(
            "identifier",
        ),
{
    let s = i.fragment;
    let n = s.unicode_len();
    let mut k: usize = 0;
    assert(s@.skip(0) =~= s@);
    proof {
        lemma_ident_len_bound(s@);
    }
    let mut done = false;
    while k < n && !done
        invariant
            n == s@.len(),
            k <= n,
            ident_len(s@) == k + ident_len(s@.skip(k as int)),
            done ==> ident_len(s@.skip(k as int)) == 0,
            forall|j: int| 0 <= j < k ==> ident_char(#[trigger] s@[j]),
        decreases n - k, (if done { 0int } else { 1int }),
    {
        let c = s.get_char(k);
        assert(s@.skip(k as int)[0] == c);
        assert(s@.skip(k as int).drop_first() =~= s@.skip(k + 1));
        if !(is_alphanumeric(c) || c == '_') {
            assert(ident_len(s@.skip(k as int)) == 0);
            done = true;
        } else {
            k = k + 1;
        }
    }
    assert(ident_len(s@.skip(k as int)) == 0);
    if k == 0 {
        return fail(i, PErrorKind::Expected("identifier"));
    }
    let name = String::from_str(s.substring_char(0, k));
    Ok((advance(i, k), name))
}

/// Runs `f`, then skips the spaces and comments that follow.
pub fn spa<'src, F, O>(f: F, i: PInput<'src>) -> (r: PResult<'src, O>)
    where
        F: Fn(PInput<'src>) -> PResult<'src, O>,
    requires
        f.requires((i,)),
    ensures
        r is Ok ==> exists|r0: PResult<'src, O>|
            #[trigger] f.ensures((i,), r0) && r0 is Ok && r->Ok_0.1 == r0->Ok_0.1
                && r->Ok_0.0.fragment@ == skip_blank(r0->Ok_0.0.fragment@, false),
        r is Err ==> f.ensures((i,), r),
{
    match f(i) {
        Ok((rest, v)) => {
            let ghost r0: PResult<'src, O> = Ok((rest, v));
            match strip_spaces_and_comment(rest) {
                Ok((rest2, _)) => {
                    Ok((rest2, v))
                },
                Err(e) => Err(e),
            }
        },
        Err(e) => Err(e),
    }
}

/// What follows the first line of `s`.
pub open spec fn after_line(s: Seq<char>) -> Seq<char>
    decreases s.len(),
{
    if s.len() == 0 {
        s
    } else if s[0] == '\n' {
        s.drop_first()
    } else {
        after_line(s.drop_first())
    }
}

/// Length of the first line of `s`, without its end.
pub open spec fn line_len(s: Seq<char>) -> nat
    decreases s.len(),
{
    if s.len() == 0 || s[0] == '\n' {
        0
    } else {
        1 + line_len(s.drop_first())
    }
}

proof fn lemma_line(s: Seq<char>)
    ensures
        line_len(s) <= s.len(),
        after_line(s).len() <= s.len(),
        after_line(s) == s.skip(
            if line_len(s) < s.len() {
                (line_len(s) + 1) as int
            } else {
                line_len(s) as int
            },
        ),
    decreases s.len(),
{
    if s.len() > 0 {
        lemma_line(s.drop_first());
        if s[0] != '\n' {
            assert(s.drop_first().skip(
                if line_len(s.drop_first()) < s.len() - 1 {
                    (line_len(s.drop_first()) + 1) as int
                } else {
                    line_len(s.drop_first()) as int
                },
            ) =~= s.skip(
                if line_len(s) < s.len() {
                    (line_len(s) + 1) as int
                } else {
                    line_len(s) as int
                },
            ));
        } else {
            assert(s.drop_first() =~= s.skip(1));
        }
    } else {
        assert(s.skip(0) =~= s);
    }
}

/// Reads the first line of `i`: its text, and the input after its end.
fn read_line<'src>(i: PInput<'src>) -> (r: (String, PInput<'src>))
    ensures
        r.0@ == i.fragment@.take(line_len(i.fragment@) as int),
        r.1.fragment@ == after_line(i.fragment@),
        r.1.file == i.file,
{
    let s = i.fragment;
    let n = s.unicode_len();
    let mut k: usize = 0;
    let mut done = false;
    proof {
        lemma_line(s@);
    }
    assert(s@.skip(0) =~= s@);
    while k < n && !done
        invariant
            n == s@.len(),
            k <= n,
            line_len(s@) == k + line_len(s@.skip(k as int)),
            done ==> k < n && s@[k as int] == '\n',
        decreases n - k, (if done { 0int } else { 1int }),
    {
        assert(s@.skip(k as int)[0] == s@[k as int]);
        assert(s@.skip(k as int).drop_first() =~= s@.skip(k + 1));
        if s.get_char(k) == '\n' {
            done = true;
        } else {
            k = k + 1;
        }
    }
    assert(line_len(s@.skip(k as int)) == 0);
    let line = String::from_str(s.substring_char(0, k));
    let next = if k < n { k + 1 } else { k };
    (line, advance(i, next))
}

/// The header's format version.
#[derive(Debug, Clone, Copy, PartialEq, Eq)]
pub struct PHeader {
    pub version: u32,
}

pub open spec fn is_digit(c: char) -> bool {
    '0' <= c && c <= '9'
}

/// Number of decimal digits that start `s`.
pub open spec fn digit_len(s: Seq<char>) -> nat
    decreases s.len(),
{
    if s.len() > 0 && is_digit(s[0]) {
        1 + digit_len(s.drop_first())
    } else {
        0
    }
}

/// Value of a string of decimal digits.
pub open spec fn decimal(s: Seq<char>) -> int
    decreases s.len(),
{
    if s.len() == 0 {
        0
    } else {
        decimal(s.drop_last()) * 10 + (s.last() as int - '0' as int)
    }
}

/// The text of a header once an interpreter line, if any, is skipped.
pub open spec fn header_body(s: Seq<char>) -> Seq<char> {
    if starts_with(s, "#!"@) {
        after_line(s)
    } else {
        s
    }
}

/// The part of a header that holds the version number.
pub open spec fn version_text(s: Seq<char>) -> Seq<char> {
    header_body(s).skip("@format="@.len() as int)
}

/// Whether a header's version is a number that fits in `u32` on a line of its
/// own.
pub open spec fn valid_version(u: Seq<char>) -> bool {
    0 < digit_len(u) < u.len() && u[digit_len(u) as int] == '\n' && decimal(
        u.take(digit_len(u) as int),
    ) <= u32::MAX
}

/// Reads a file header: an optional interpreter line, then
/// `@format=<version>` on a line of its own.
pub fn pheader<'src>(i: PInput<'src>) -> (r: PResult<'src, PHeader>)
    ensures
        !starts_with(header_body(i.fragment@), "@format="@) ==> (r matches Err(e)
            && e.context.fragment@ == header_body(i.fragment@) && e.kind
            == PErrorKind::<PInput<'src>>::Expected("@format=")),
        starts_with(header_body(i.fragment@), "@format="@) ==> ({
            let u = version_text(i.fragment@);
            &&& valid_version(u) <==> r is Ok
            &&& r matches Ok((rest, h)) ==> h.version == decimal(u.take(digit_len(u) as int))
                && rest.fragment@ == u.skip((digit_len(u) + 1) as int)
            &&& r matches Err(e) ==> e.context.fragment@ == u && e.kind
                == PErrorKind::<PInput<'src>>::InvalidFormat
        }),
{
    let t = if has_prefix(i.fragment, "#!") {
        read_line(i).1
    } else {
        i
    };
    if !has_prefix(t.fragment, "@format=") {
        return fail(t, PErrorKind::Expected("@format="));
    }
    let u = advance(t, "@format=".unicode_len());
    let s = u.fragment;
    let n = s.unicode_len();
    let mut k: usize = 0;
    let mut acc: u64 = 0;
    let mut over = false;
    let mut done = false;
    assert(s@.skip(0) =~= s@);
    assert(s@.take(0) =~= Seq::<char>::empty());
    while k < n && !done
        invariant
            n == s@.len(),
            k <= n,
            digit_len(s@) == k + digit_len(s@.skip(k as int)),
            done ==> digit_len(s@.skip(k as int)) == 0,
            !over ==> acc == decimal(s@.take(k as int)) && acc <= u32::MAX,
            over ==> decimal(s@.take(k as int)) > u32::MAX,
        decreases n - k, (if done { 0int } else { 1int }),
    {
        let c = s.get_char(k);
        assert(s@.skip(k as int)[0] == c);
        assert(s@.skip(k as int).drop_first() =~= s@.skip(k + 1));
        if '0' <= c && c <= '9' {
            assert(s@.take(k + 1).drop_last() =~= s@.take(k as int));
            assert(s@.take(k + 1).last() == c);
            if !over {
                let d = (c as u32 - '0' as u32) as u64;
                acc = acc * 10 + d;
                if acc > 0xffff_ffff {
                    over = true;
                }
            }
            k = k + 1;
        } else {
            done = true;
        }
    }
    assert(digit_len(s@.skip(k as int)) == 0);
    if k == 0 || k >= n || over {
        return fail(u, PErrorKind::InvalidFormat);
    }
    if s.get_char(k) != '\n' {
        return fail(u, PErrorKind::InvalidFormat);
    }
    Ok((advance(u, k + 1), PHeader { version: acc as u32 }))
}

/// A doc comment: consecutive lines that start with `##`.
#[derive(Debug, Clone, PartialEq, Eq)]
pub struct PComment {
    pub lines: Vec<String>,
}

pub open spec fn lines_view(v: Seq<String>) -> Seq<Seq<char>> {
    v.map_values(|l: String| l@)
}

/// The lines of the doc comment that starts `s`, and what follows it.
pub open spec fn doc_lines(s: Seq<char>) -> (Seq<Seq<char>>, Seq<char>)
    decreases s.len(),
    via doc_lines_decreases
{
    if starts_with(s, "##"@) {
        let t = s.skip(2);
        let next = doc_lines(after_line(t));
        (seq![t.take(line_len(t) as int)] + next.0, next.1)
    } else {
        (Seq::empty(), s)
    }
}

#[via_fn]
proof fn doc_lines_decreases(s: Seq<char>) {
    if starts_with(s, "##"@) {
        reveal_strlit("##");
        lemma_line(s.skip(2));
    }
}

/// Reads a doc comment: one or more lines starting with `##`, whose text
/// follows the `##`.
pub fn pcomment<'src>(i: PInput<'src>) -> (r: PResult<'src, PComment>)
    ensures
        doc_lines(i.fragment@).0.len() > 0 <==> r is Ok,
        r matches Ok((rest, c)) ==> lines_view(c.lines@) == doc_lines(i.fragment@).0
            && rest.fragment@ == doc_lines(i.fragment@).1,
        r matches Err(e) ==> e.context == i && e.kind == PErrorKind::<PInput<'src>>::Expected(
            "##",
        ),
{
    let mut lines: Vec<String> = Vec::new();
    let mut cur = i;
    proof {
        reveal_strlit("##");
    }
    assert(lines_view(lines@) + doc_lines(cur.fragment@).0 =~= doc_lines(i.fragment@).0);
    while has_prefix(cur.fragment, "##")
        invariant
            "##"@.len() == 2,
            lines_view(lines@) + doc_lines(cur.fragment@).0 == doc_lines(i.fragment@).0,
            doc_lines(cur.fragment@).1 == doc_lines(i.fragment@).1,
            lines@.len() == 0 ==> cur == i,
        decreases cur.fragment@.len(),
    {
        let ghost before = lines@;
        let t = advance(cur, 2);
        proof {
            lemma_line(t.fragment@);
        }
        let (line, next) = read_line(t);
        lines.push(line);
        assert(lines_view(lines@) =~= lines_view(before).push(line@));
        assert(lines_view(lines@) + doc_lines(next.fragment@).0 =~= lines_view(before) + doc_lines(
            cur.fragment@,
        ).0);
        cur = next;
    }
    if lines.len() == 0 {
        return fail(i, PErrorKind::Expected("##"));
    }
    Ok((cur, PComment { lines }))
}

proof fn lemma_skip_blank_len(s: Seq<char>, in_comment: bool)
    ensures
        skip_blank(s, in_comment).len() <= s.len(),
    decreases s.len(),
{
    if s.len() > 0 {
        lemma_skip_blank_len(s.drop_first(), s[0] != '\n');
        lemma_skip_blank_len(s.drop_first(), s[0] == '#');
    }
}

fn skip_blank_input<'src>(i: PInput<'src>) -> (r: PInput<'src>)
    ensures
        r.fragment@ == skip_blank(i.fragment@, false),
        r.fragment@.len() <= i.fragment@.len(),
        r.file == i.file,
{
    proof {
        lemma_skip_blank_len(i.fragment@, false);
    }
    match strip_spaces_and_comment(i) {
        Ok((r, _)) => r,
        Err(_) => i,
    }
}

/// An enum declaration: its name and its items, in order.
#[derive(Debug, Clone, PartialEq, Eq)]
pub struct PEnum {
    pub global: bool,
    pub name: String,
    pub items: Vec<String>,
}

/// The ways an enum declaration can be wrong.
pub open spec fn enum_error<'src>(k: PErrorKind<PInput<'src>>) -> bool {
    match k {
        PErrorKind::Expected(e) => e@ == "enum"@,
        PErrorKind::InvalidName(kw) => kw.fragment@ == "enum"@,
        PErrorKind::UnexpectedToken(t) => t@ == "{"@,
        PErrorKind::UnterminatedDelimiter(d) => d.fragment@ == "{"@,
        PErrorKind::InvalidFormat => false,
    }
}

/// Reads an enum declaration: `[global] enum <name> { <item>, ... }`, with an
/// optional comma after the last item.
pub fn penum<'src>(i: PInput<'src>) -> (r: PResult<'src, PEnum>)
    ensures
        r matches Ok((_, e)) ==> e.global == starts_with(i.fragment@, "global"@) && is_ident(
            e.name@,
        ) && forall|k: int| 0 <= k < e.items@.len() ==> is_ident(#[trigger] e.items@[k]@),
        r matches Err(e) ==> enum_error(e.kind),
{
    let mut cur = i;
    let global = has_prefix(cur.fragment, "global");
    if global {
        cur = skip_blank_input(advance(cur, "global".unicode_len()));
    }
    if !has_prefix(cur.fragment, "enum") {
        return fail(cur, PErrorKind::Expected("enum"));
    }
    let n = "enum".unicode_len();
    let kw = PInput { fragment: cur.fragment.substring_char(0, n), file: cur.file };
    cur = skip_blank_input(advance(cur, n));
    let name = match pidentifier(cur) {
        Ok((rest, name)) => {
            cur = rest;
            name
        },
        Err(_) => {
            return fail(cur, PErrorKind::InvalidName(kw));
        },
    };
    cur = skip_blank_input(cur);
    if !has_prefix(cur.fragment, "{") {
        return fail(cur, PErrorKind::UnexpectedToken("{"));
    }
    proof {
        reveal_strlit("{");
    }
    let open = PInput { fragment: cur.fragment.substring_char(0, 1), file: cur.file };
    cur = skip_blank_input(advance(cur, 1));
    let mut items: Vec<String> = Vec::new();
    let mut more = true;
    while more
        invariant
            forall|k: int| 0 <= k < items@.len() ==> is_ident(#[trigger] items@[k]@),
        decreases cur.fragment@.len(), (if more { 1int } else { 0int }),
    {
        proof {
            lemma_ident_len_bound(cur.fragment@);
        }
        match pidentifier(cur) {
            Ok((rest, item)) => {
                items.push(item);
                cur = skip_blank_input(rest);
                if has_prefix(cur.fragment, ",") {
                    proof {
                        reveal_strlit(",");
                    }
                    cur = skip_blank_input(advance(cur, 1));
                } else {
                    more = false;
                }
            },
            Err(_) => {
                more = false;
            },
        }
    }
    if !has_prefix(cur.fragment, "}") {
        return fail(cur, PErrorKind::UnterminatedDelimiter(open));
    }
    proof {
        reveal_strlit("}");
    }
    Ok((advance(cur, 1), PEnum { global, name, items }))
}

/// Runs `fa` then `fb`, each followed by the spaces and comments after it,
/// and pairs their values.
pub fn spi<'src, FA, FB, A, B>(fa: FA, fb: FB, i: PInput<'src>) -> (r: PResult<'src, (A, B)>)
    where
        FA: Fn(PInput<'src>) -> PResult<'src, A>,
        FB: Fn(PInput<'src>) -> PResult<'src, B>,
    requires
        forall|x: PInput<'src>| fa.requires((x,)),
        forall|x: PInput<'src>| fb.requires((x,)),
    ensures
        r is Ok ==> exists|ra: PResult<'src, A>, x: PInput<'src>, rb: PResult<'src, B>|
            #[trigger] fa.ensures((i,), ra) && ra is Ok && #[trigger] fb.ensures((x,), rb)
                && x.fragment@ == skip_blank(ra->Ok_0.0.fragment@, false) && rb is Ok && r->Ok_0.1.0
                == ra->Ok_0.1 && r->Ok_0.1.1 == rb->Ok_0.1 && r->Ok_0.0.fragment@ == skip_blank(
                rb->Ok_0.0.fragment@,
                false,
            ),
{
    let (rest, a) = match fa(i) {
        Ok((rest, a)) => (rest, a),
        Err(e) => return Err(e),
    };
    let ghost ra: PResult<'src, A> = Ok((rest, a));
    let rest = skip_blank_input(rest);
    let (rest2, b) = match fb(rest) {
        Ok((rest2, b)) => (rest2, b),
        Err(e) => return Err(e),
    };
    let ghost rb: PResult<'src, B> = Ok((rest2, b));
    let rest3 = skip_blank_input(rest2);
    let r = Ok((rest3, (a, b)));
    assert(fa.ensures((i,), ra) && fb.ensures((rest,), rb));
    r
}

/// A parse error with its positions given as the text left to read.
pub open spec fn plain_error<'src>(e: PError<PInput<'src>>) -> (&'src str, PErrorKind<&'src str>) {
    (
        e.context.fragment,
        match e.kind {
            PErrorKind::Expected(t) => PErrorKind::Expected(t),
            PErrorKind::InvalidFormat => PErrorKind::InvalidFormat,
            PErrorKind::InvalidName(p) => PErrorKind::InvalidName(p.fragment),
            PErrorKind::UnexpectedToken(t) => PErrorKind::UnexpectedToken(t),
            PErrorKind::UnterminatedDelimiter(p) => PErrorKind::UnterminatedDelimiter(p.fragment),
        },
    )
}

pub open spec fn plain_result<'src, O>(r: PResult<'src, O>) -> Result<
    (&'src str, O),
    (&'src str, PErrorKind<&'src str>),
> {
    match r {
        Ok((rest, v)) => Ok((rest.fragment, v)),
        Err(e) => Err(plain_error(e)),
    }
}

/// Gives the positions of an error as the text left to read.
pub fn map_err<'src>(err: PError<PInput<'src>>) -> (r: (&'src str, PErrorKind<&'src str>))
    ensures
        r == plain_error(err),
{
    let kind = match err.kind {
        PErrorKind::Expected(t) => PErrorKind::Expected(t),
        PErrorKind::InvalidFormat => PErrorKind::InvalidFormat,
        PErrorKind::InvalidName(p) => PErrorKind::InvalidName(p.fragment),
        PErrorKind::UnexpectedToken(t) => PErrorKind::UnexpectedToken(t),
        PErrorKind::UnterminatedDelimiter(p) => PErrorKind::UnterminatedDelimiter(p.fragment),
    };
    (err.context.fragment, kind)
}

/// Runs `f` on `i`, read from an unnamed file, and gives positions as the
/// text left to read.
pub fn map_res<'src, F, O>(f: F, i: &'src str) -> (r: Result<
    (&'src str, O),
    (&'src str, PErrorKind<&'src str>),
>)
    where
        F: Fn(PInput<'src>) -> PResult<'src, O>,
    requires
        forall|x: PInput<'src>| f.requires((x,)),
    ensures
        exists|r0: PResult<'src, O>|
            #[trigger] f.ensures((PInput { fragment: i, file: "" },), r0) && r == plain_result(r0),
{
    let r0 = f(pinput(i, ""));
    let ghost g = r0;
    match r0 {
        Ok((x, y)) => Ok((x.fragment, y)),
        Err(e) => Err(map_err(e)),
    }
}

} // verus!
