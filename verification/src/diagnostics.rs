use vstd::prelude::*;
use crate::lexer::{
    Span, SpecToken, digits_end, digits_value, find_char, lemma_digits_end_all_digits, lemma_find_char_bounds, lex_token,
};
use crate::text::{owned, push_str, string_push};

verus! {

broadcast use vstd::string::group_string_axioms;

/// The decimal digits of `n` (no leading zeros; `0` for zero).
pub open spec fn dec(n: nat) -> Seq<char>
    decreases n,
{
    if n < 10 {
        seq![digit_char(n)]
    } else {
        dec(n / 10).push(digit_char(n % 10))
    }
}

pub open spec fn digit_char(d: nat) -> char {
    if d == 0 { '0' }
    else if d == 1 { '1' }
    else if d == 2 { '2' }
    else if d == 3 { '3' }
    else if d == 4 { '4' }
    else if d == 5 { '5' }
    else if d == 6 { '6' }
    else if d == 7 { '7' }
    else if d == 8 { '8' }
    else { '9' }
}

/// The decimal text of a signed integer, with a leading `-` when negative.
pub open spec fn signed_dec(n: int) -> Seq<char> {
    if n < 0 {
        seq!['-'] + dec((-n) as nat)
    } else {
        dec(n as nat)
    }
}

fn digit_char_exec(d: u64) -> (c: char)
    requires
        d < 10,
    ensures
        c == digit_char(d as nat),
{
    if d == 0 { '0' }
    else if d == 1 { '1' }
    else if d == 2 { '2' }
    else if d == 3 { '3' }
    else if d == 4 { '4' }
    else if d == 5 { '5' }
    else if d == 6 { '6' }
    else if d == 7 { '7' }
    else if d == 8 { '8' }
    else { '9' }
}

/// Appends the decimal digits of `n`.
pub fn push_dec(s: &mut String, n: u64)
    ensures
        final(s)@ == old(s)@ + dec(n as nat),
    decreases n,
{
    if n < 10 {
        string_push(s, digit_char_exec(n));
    } else {
        push_dec(s, n / 10);
        string_push(s, digit_char_exec(n % 10));
        assert(old(s)@ + dec((n / 10) as nat) + seq![digit_char((n % 10) as nat)] =~= old(s)@ + dec(n as nat));
    }
}

/// The decimal text of `n`.
pub fn usize_to_string(n: usize) -> (r: String)
    ensures
        r@ == dec(n as nat),
{
    let mut s = String::new();
    push_dec(&mut s, n as u64);
    assert(s@ =~= dec(n as nat));
    s
}

/// Appends the decimal text of a signed integer.
pub fn push_signed_dec(s: &mut String, n: i64)
    ensures
        final(s)@ == old(s)@ + signed_dec(n as int),
{
    if n < 0 {
        string_push(s, '-');
        let m: u64 = if n == i64::MIN {
            9223372036854775808u64
        } else {
            (-n) as u64
        };
        push_dec(s, m);
        assert(old(s)@.push('-') + dec(m as nat) =~= old(s)@ + signed_dec(n as int));
    } else {
        push_dec(s, n as u64);
    }
}

/// `n` copies of `c`.
pub open spec fn repeat(c: char, n: nat) -> Seq<char> {
    Seq::new(n, |i: int| c)
}

/// Appends `n` copies of `c`.
pub fn push_repeat(s: &mut String, c: char, n: usize)
    ensures
        final(s)@ == old(s)@ + repeat(c, n as nat),
{
    let mut i: usize = 0;
    while i < n
        invariant
            i <= n,
            s@ == old(s)@ + repeat(c, i as nat),
        decreases n - i,
    {
        string_push(s, c);
        i += 1;
        assert(s@ =~= old(s)@ + repeat(c, i as nat));
    }
}

/// The value of a string of decimal digits.
pub open spec fn dec_value(d: Seq<char>) -> int
    decreases d.len(),
{
    if d.len() == 0 {
        0
    } else {
        dec_value(d.drop_last()) * 10 + (d.last() as int - '0' as int)
    }
}

/// The decimal text of a number is made of digits, reads back as the
/// number and has no leading zero.
pub proof fn lemma_dec_reads_back(n: nat)
    ensures
        forall|i: int| 0 <= i < dec(n).len() ==> '0' <= #[trigger] dec(n)[i] <= '9',
        dec_value(dec(n)) == n,
        n > 0 ==> dec(n)[0] != '0',
    decreases n,
{
    let c = digit_char((n % 10) as nat);
    assert(c as int - '0' as int == n % 10 && '0' <= c <= '9');
    if n < 10 {
        assert(dec(n).drop_last() =~= Seq::<char>::empty());
        assert(dec(n).last() == c);
        assert(dec_value(dec(n)) == dec_value(Seq::<char>::empty()) * 10 + (c as int - '0' as int));
    } else {
        lemma_dec_reads_back(n / 10);
        let h = dec(n / 10);
        assert(dec(n).drop_last() =~= h);
        assert(dec(n).last() == c);
        assert(dec_value(dec(n)) == dec_value(dec(n).drop_last()) * 10 + (c as int - '0' as int));
        assert((n / 10) * 10 + n % 10 == n);
        assert forall|i: int| 0 <= i < dec(n).len() implies '0' <= #[trigger] dec(n)[i] <= '9' by {
            if i < h.len() {
                assert(dec(n)[i] == h[i]);
            }
        }
        assert(dec(n)[0] == h[0]);
    }
}

proof fn lemma_digits_positive(d: Seq<char>)
    requires
        d.len() > 0,
        forall|i: int| 0 <= i < d.len() ==> '0' <= #[trigger] d[i] <= '9',
        d[0] != '0',
    ensures
        digits_value(d) > 0,
    decreases d.len(),
{
    if d.len() > 1 {
        assert(d.drop_last()[0] == d[0]);
        lemma_digits_positive(d.drop_last());
    }
}

proof fn lemma_dec_of_digits(d: Seq<char>)
    requires
        d.len() > 0,
        forall|i: int| 0 <= i < d.len() ==> '0' <= #[trigger] d[i] <= '9',
        d.len() > 1 ==> d[0] != '0',
    ensures
        dec(digits_value(d)) == d,
    decreases d.len(),
{
    let c = d.last();
    let k = ((c as u32) - ('0' as u32)) as nat;
    assert(k < 10 && digit_char(k) == c);
    if d.len() == 1 {
        assert(d.drop_last() =~= Seq::<char>::empty());
        assert(digits_value(d) == digits_value(d.drop_last()) * 10 + k);
        assert(digits_value(Seq::<char>::empty()) == 0);
        assert(digits_value(d) == k);
        assert(dec(k) =~= d);
    } else {
        let e = d.drop_last();
        assert(e[0] == d[0]);
        lemma_dec_of_digits(e);
        lemma_digits_positive(e);
        let v = digits_value(d);
        assert(v == digits_value(e) * 10 + k);
        assert(v / 10 == digits_value(e) && v % 10 == k);
        assert(dec(v) == dec(v / 10).push(digit_char(v % 10)));
        assert(d =~= e.push(c));
    }
}

/// An integer literal means the number it writes: reading a run of digits
/// that is not a decimal gives an integer whose decimal text is those digits
/// (for a literal without leading zeros), or an error where it does not fit
/// in 64 bits; the token covers exactly the digits.
pub proof fn lemma_integer_literal_value(s: Seq<char>, p: int)
    requires
        0 <= p < s.len(),
        '0' <= s[p] <= '9',
    ensures
        lex_token(s, p) matches (SpecToken::IntLiteral(v), e) ==> {
            &&& p < e <= s.len()
            &&& forall|i: int| p <= i < e ==> '0' <= #[trigger] s[i] <= '9'
            &&& (e == p + 1 || s[p] != '0') ==> dec(v as nat) == s.subrange(p, e)
        },
{
    lemma_digits_end_all_digits(s, p);
    lemma_digits_end_all_digits(s, p + 1);
    let e = digits_end(s, p);
    let d = s.subrange(p, e);
    let c = s[p];
    assert(c != 'f' && c != '#' && c != '@' && c != '"' && c != '“' && c != '(' && c != '（' && c != ')' && c != '）');
    assert(c != '[' && c != '【' && c != ']' && c != '】' && c != ':' && c != '：' && c != ',' && c != '，' && c != '.');
    assert(c != '。' && c != '=' && c != '+' && c != '-' && c != '*' && c != '/' && c != '%' && c != '!' && c != '<');
    assert(c != '>' && c != '&' && c != '|');
    if e == p + 1 || s[p] != '0' {
        if e > p {
            lemma_dec_of_digits(d);
        }
    }
}

/// The number of line breaks among the first `n` characters.
pub open spec fn breaks_before(s: Seq<char>, n: int) -> nat
    decreases n,
{
    if n <= 0 {
        0
    } else {
        breaks_before(s, n - 1) + if s[n - 1] == '\n' { 1nat } else { 0nat }
    }
}

/// Where the line holding offset `n` starts: just after the last line break
/// before `n`, or at `0`.
pub open spec fn line_start_before(s: Seq<char>, n: int) -> int
    decreases n,
{
    if n <= 0 {
        0
    } else if s[n - 1] == '\n' {
        n
    } else {
        line_start_before(s, n - 1)
    }
}

proof fn lemma_line_col_counts(s: Seq<char>, pos: int, idx: int)
    requires
        0 <= idx <= pos <= s.len(),
    ensures
        line_col_from(s, pos, idx, 1 + breaks_before(s, idx), (idx - line_start_before(s, idx) + 1) as nat, line_start_before(s, idx) as nat)
            == (1 + breaks_before(s, pos), (pos - line_start_before(s, pos) + 1) as nat, line_start_before(s, pos) as nat),
    decreases pos - idx,
{
    lemma_line_start_bounds(s, idx);
    if idx < pos {
        lemma_line_col_counts(s, pos, idx + 1);
        lemma_line_start_bounds(s, idx + 1);
    }
}

proof fn lemma_line_start_bounds(s: Seq<char>, n: int)
    requires
        0 <= n <= s.len(),
    ensures
        0 <= line_start_before(s, n) <= n,
    decreases n,
{
    if n > 0 {
        lemma_line_start_bounds(s, n - 1);
    }
}

/// Lines and columns count from one: the line of an offset is one more
/// than the line breaks before it, its line starts just after the last of
/// them, and its column is its distance from that start plus one.
pub proof fn lemma_line_col_meaning(s: Seq<char>, pos: int)
    requires
        0 <= pos <= s.len(),
    ensures
        line_col_spec(s, pos) == (1 + breaks_before(s, pos), (pos - line_start_before(s, pos) + 1) as nat, line_start_before(s, pos) as nat),
{
    lemma_line_col_counts(s, pos, 0);
}

/// The 1-based line, 1-based column and line-start offset of the character
/// offset `pos`, scanning from `idx` with the counters so far.
pub open spec fn line_col_from(s: Seq<char>, pos: int, idx: int, line: nat, col: nat, start: nat) -> (
    nat,
    nat,
    nat,
)
    decreases s.len() - idx,
{
    if idx < 0 || idx >= s.len() || idx == pos {
        (line, col, start)
    } else if s[idx] == '\n' {
        line_col_from(s, pos, idx + 1, line + 1, 1, (idx + 1) as nat)
    } else {
        line_col_from(s, pos, idx + 1, line, col + 1, start)
    }
}

/// Line, column and line start of offset `pos` in `s`.
pub open spec fn line_col_spec(s: Seq<char>, pos: int) -> (nat, nat, nat) {
    line_col_from(s, pos, 0, 1, 1, 0)
}

proof fn lemma_line_col_bounds(s: Seq<char>, pos: int, idx: int, line: nat, col: nat, start: nat)
    requires
        0 <= idx <= s.len(),
        line >= 1,
        col >= 1,
        line <= idx + 1,
        col <= idx + 1,
        start <= idx,
    ensures
        ({
            let r = line_col_from(s, pos, idx, line, col, start);
            &&& 1 <= r.0 <= s.len() + 1
            &&& 1 <= r.1 <= s.len() + 1
            &&& r.2 <= s.len()
        }),
    decreases s.len() - idx,
{
    if idx < s.len() && idx != pos {
        if s[idx] == '\n' {
            lemma_line_col_bounds(s, pos, idx + 1, line + 1, 1, (idx + 1) as nat);
        } else {
            lemma_line_col_bounds(s, pos, idx + 1, line, col + 1, start);
        }
    }
}

/// Line, column and line start of the character offset `pos` in `src`.
pub fn line_col(src: &Vec<char>, pos: usize) -> (r: (usize, usize, usize))
    requires
        src@.len() < usize::MAX,
    ensures
        (r.0 as nat, r.1 as nat, r.2 as nat) == line_col_spec(src@, pos as int),
        1 <= r.0 <= src@.len() + 1,
        1 <= r.1 <= src@.len() + 1,
        r.2 <= src@.len(),
        r.2 + r.1 - 1 <= src@.len(),
{
    proof {
        lemma_line_col_bounds(src@, pos as int, 0, 1, 1, 0);
    }
    let mut line: usize = 1;
    let mut col: usize = 1;
    let mut start: usize = 0;
    let mut idx: usize = 0;
    while idx < src.len() && idx != pos
        invariant
            idx <= src@.len(),
            1 <= line <= idx + 1,
            1 <= col <= idx + 1,
            start <= idx,
            col + start == idx + 1,
            src@.len() < usize::MAX,
            line_col_from(src@, pos as int, idx as int, line as nat, col as nat, start as nat)
                == line_col_spec(src@, pos as int),
        decreases src@.len() - idx,
    {
        if src[idx] == '\n' {
            line += 1;
            col = 1;
            start = idx + 1;
        } else {
            col += 1;
        }
        idx += 1;
    }
    proof {
        lemma_line_col_bounds(src@, pos as int, idx as int, line as nat, col as nat, start as nat);
    }
    (line, col, start)
}

/// The text of the line that starts at `start`, without its line ending
/// (`\n`, or `\r\n`).
pub open spec fn line_text(s: Seq<char>, start: int) -> Seq<char> {
    let e = find_char(s, start, '\n');
    if e < s.len() && e > start && s[e - 1] == '\r' {
        s.subrange(start, e - 1)
    } else if start <= s.len() {
        s.subrange(start, e)
    } else {
        Seq::empty()
    }
}

/// The bounds of the line text starting at `start`.
pub(crate) fn line_bounds(src: &Vec<char>, start: usize) -> (r: (usize, usize))
    requires
        start <= src@.len(),
    ensures
        start <= r.0 <= r.1 <= src@.len(),
        src@.subrange(r.0 as int, r.1 as int) == line_text(src@, start as int),
        r.0 == start,
{
    proof {
        lemma_find_char_bounds(src@, start as int, '\n');
    }
    let mut e = start;
    while e < src.len() && src[e] != '\n'
        invariant
            start <= e <= src@.len(),
            find_char(src@, e as int, '\n') == find_char(src@, start as int, '\n'),
        decreases src@.len() - e,
    {
        e += 1;
    }
    if e < src.len() && e > start && src[e - 1] == '\r' {
        (start, e - 1)
    } else {
        (start, e)
    }
}

/// The width of the caret run under a span: the span's length, cut at the
/// end of the line, and at least one.
pub open spec fn caret_width(span: Span, line_len: nat, col_width: nat) -> nat {
    let len: nat = if span.end >= span.start { (span.end - span.start) as nat } else { 0 };
    let room: nat = if line_len >= col_width { (line_len - col_width) as nat } else { 0 };
    let w = if len <= room { len } else { room };
    if w >= 1 { w } else { 1 }
}

/// The location line of a diagnostic.
pub open spec fn location_text(name: Option<Seq<char>>, line: nat, col: nat) -> Seq<char> {
    match name {
        Some(n) => " --> "@ + n + ":"@ + dec(line) + ":"@ + dec(col) + "\n"@,
        None => " --> 第 "@ + dec(line) + " 行，第 "@ + dec(col) + " 列\n"@,
    }
}

/// The quoted source line with a run of `marker` under the span.
pub open spec fn snippet_text(src: Seq<char>, span: Span, marker: char) -> Seq<char> {
    let (line, col, start) = line_col_spec(src, span.start as int);
    let text = line_text(src, start as int);
    let col_width: nat = (col - 1) as nat;
    let pad = repeat(' ', dec(line).len());
    dec(line) + " | "@ + text + "\n"@ + pad + " | "@ + repeat(' ', col_width) + repeat(
        marker,
        caret_width(span, text.len(), col_width),
    )
}

/// The text of a located diagnostic: a title line, the location, the source
/// line with a caret run under the span, an optional help line and the
/// character offset.
pub open spec fn diagnostic_text(
    kind: Seq<char>,
    title: Seq<char>,
    name: Option<Seq<char>>,
    src: Seq<char>,
    span: Span,
    help: Option<Seq<char>>,
) -> Seq<char> {
    let (line, col, start) = line_col_spec(src, span.start as int);
    let col_width: nat = (col - 1) as nat;
    kind + ": "@ + title + "\n"@ + location_text(name, line, col) + repeat(' ', dec(line).len())
        + " |\n"@ + snippet_text(src, span, '^') + "\n"@ + match help {
        Some(h) => "  = 帮助: "@ + h + "\n"@,
        None => Seq::empty(),
    } + "  = 位置: 字符偏移 "@ + dec(start + col_width) + "\n"@
}

/// Appends the location line of a diagnostic.
pub fn push_location(out: &mut String, name: Option<&str>, line: usize, col: usize)
    ensures
        final(out)@ == old(out)@ + location_text(
            match name {
                Some(n) => Some(n@),
                None => None,
            },
            line as nat,
            col as nat,
        ),
{
    let ghost o = out@;
    let line_str = usize_to_string(line);
    let col_str = usize_to_string(col);
    match name {
        Some(n) => {
            push_str(out, " --> ");
            push_str(out, n);
            push_str(out, ":");
            push_str(out, line_str.as_str());
            push_str(out, ":");
            push_str(out, col_str.as_str());
            push_str(out, "\n");
            assert(out@ =~= o + location_text(Some(n@), line as nat, col as nat));
        },
        None => {
            push_str(out, " --> 第 ");
            push_str(out, line_str.as_str());
            push_str(out, " 行，第 ");
            push_str(out, col_str.as_str());
            push_str(out, " 列\n");
            assert(out@ =~= o + location_text(None, line as nat, col as nat));
        },
    }
}

/// Appends the quoted source line with a run of `marker` under the span.
#[verifier::spinoff_prover]
#[verifier::rlimit(40)]
pub fn push_snippet(out: &mut String, src: &Vec<char>, span: Span, marker: char)
    requires
        src@.len() < usize::MAX,
    ensures
        final(out)@ == old(out)@ + snippet_text(src@, span, marker),
{
    let ghost o = out@;
    let (line, col, start) = line_col(src, span.start);
    let (ls, le) = line_bounds(src, start);
    let col_width = col - 1;
    let line_str = usize_to_string(line);
    let w = line_str.as_str().unicode_len();
    let span_len: usize = if span.end >= span.start { span.end - span.start } else { 0 };
    let line_len = le - ls;
    let room: usize = if line_len >= col_width { line_len - col_width } else { 0 };
    let mut caret = if span_len <= room { span_len } else { room };
    if caret < 1 {
        caret = 1;
    }
    push_str(out, line_str.as_str());
    push_str(out, " | ");
    push_chars(out, src, ls, le);
    push_str(out, "\n");
    push_repeat(out, ' ', w);
    push_str(out, " | ");
    push_repeat(out, ' ', col_width);
    push_repeat(out, marker, caret);
    assert(out@ =~= o + snippet_text(src@, span, marker));
}

proof fn lemma_dec_len_bound(n: nat)
    ensures
        1 <= dec(n).len() <= n + 1,
    decreases n,
{
    if n >= 10 {
        lemma_dec_len_bound(n / 10);
    }
}

/// Appends the characters `src[lo..hi]`.
pub fn push_chars(s: &mut String, src: &Vec<char>, lo: usize, hi: usize)
    requires
        lo <= hi <= src@.len(),
    ensures
        final(s)@ == old(s)@ + src@.subrange(lo as int, hi as int),
{
    let mut i = lo;
    while i < hi
        invariant
            lo <= i <= hi <= src@.len(),
            s@ == old(s)@ + src@.subrange(lo as int, i as int),
        decreases hi - i,
    {
        string_push(s, src[i]);
        i += 1;
        assert(s@ =~= old(s)@ + src@.subrange(lo as int, i as int));
    }
}

/// Renders a located diagnostic (see `diagnostic_text`).
pub fn render_diagnostic(
    kind: &str,
    title: String,
    source_name: Option<&str>,
    src: &Vec<char>,
    span: Span,
    help: Option<String>,
) -> (out: String)
    requires
        src@.len() < usize::MAX,
    ensures
        out@ == diagnostic_text(
            kind@,
            title@,
            match source_name {
                Some(n) => Some(n@),
                None => None,
            },
            src@,
            span,
            match help {
                Some(h) => Some(h@),
                None => None,
            },
        ),
{
    let (line, col, start) = line_col(src, span.start);
    let col_width = col - 1;
    let line_str = usize_to_string(line);
    let w = line_str.as_str().unicode_len();
    let mut out = owned(kind);
    push_str(&mut out, ": ");
    push_str(&mut out, title.as_str());
    push_str(&mut out, "\n");
    push_location(&mut out, source_name, line, col);
    push_repeat(&mut out, ' ', w);
    push_str(&mut out, " |\n");
    push_snippet(&mut out, src, span, '^');
    push_str(&mut out, "\n");
    let ghost before_help = out@;
    match &help {
        Some(h) => {
            push_str(&mut out, "  = 帮助: ");
            push_str(&mut out, h.as_str());
            push_str(&mut out, "\n");
        },
        None => {},
    }
    let ghost help_v = match help {
        Some(h) => Some(h@),
        None => None::<Seq<char>>,
    };
    assert(out@ =~= before_help + match help_v {
        Some(h) => "  = 帮助: "@ + h + "\n"@,
        None => Seq::empty(),
    });
    push_str(&mut out, "  = 位置: 字符偏移 ");
    let pos_str = usize_to_string(start + col_width);
    push_str(&mut out, pos_str.as_str());
    push_str(&mut out, "\n");
    proof {
        let name_v = match source_name {
            Some(n) => Some(n@),
            None => None::<Seq<char>>,
        };
        assert(out@ =~= diagnostic_text(kind@, title@, name_v, src@, span, help_v));
    }
    out
}

} // verus!
