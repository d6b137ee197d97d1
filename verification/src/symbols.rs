use vstd::prelude::*;
use crate::parser::FunctionDef;
use crate::semantic::{function_path, function_path_spec};
use crate::stdlib::{external_symbol_for, external_symbol_spec};
use crate::lexer::{find_char, find_char_exec};
use crate::parser::{trim, trim_front, trimmed_bounds};
use crate::text::{chars_to_string, copy_string, is_whitespace, is_ws, owned, push_str, str_chars, string_push};

verus! {

broadcast use vstd::string::group_string_axioms;

/// ASCII letters and digits.
pub open spec fn is_ascii_alnum(c: char) -> bool {
    ('0' <= c <= '9') || ('a' <= c <= 'z') || ('A' <= c <= 'Z')
}

/// The characters an LLVM identifier may hold.
pub open spec fn is_llvm_ident_char(c: char) -> bool {
    is_ascii_alnum(c) || c == '_' || c == '.' || c == '$' || c == '-'
}

/// The lowercase hexadecimal digits of `n` (no leading zeros; `0` for zero).
pub open spec fn hex(n: nat) -> Seq<char>
    decreases n,
{
    if n < 16 {
        seq![hex_digit(n)]
    } else {
        hex(n / 16).push(hex_digit(n % 16))
    }
}

pub open spec fn hex_digit(d: nat) -> char {
    if d < 10 {
        ((d + 48) as u8) as char
    } else {
        ((d + 87) as u8) as char
    }
}

/// How one character of a name is written: kept when it is an ASCII letter,
/// digit or `_`, else `_`, its code point in hexadecimal and `_`.
pub open spec fn encode_char(c: char) -> Seq<char> {
    if is_ascii_alnum(c) || c == '_' {
        seq![c]
    } else {
        seq!['_'] + hex((c as u32) as nat) + seq!['_']
    }
}

/// The encoding of every character of `s`, in order.
pub open spec fn encode_chars(s: Seq<char>) -> Seq<char>
    decreases s.len(),
{
    if s.len() == 0 {
        Seq::empty()
    } else {
        encode_chars(s.drop_last()) + encode_char(s.last())
    }
}

/// An LLVM identifier body: `[-a-zA-Z$._][-a-zA-Z$._0-9]*`.
pub open spec fn is_llvm_ident(s: Seq<char>) -> bool {
    &&& s.len() > 0
    &&& !('0' <= s[0] <= '9')
    &&& forall|i: int| 0 <= i < s.len() ==> is_llvm_ident_char(#[trigger] s[i])
}

/// A name as an LLVM identifier: kept when it is already one, else encoded
/// character by character, with `_` in front where the encoding is empty or
/// starts with a digit.
pub open spec fn sanitize_spec(s: Seq<char>) -> Seq<char> {
    if is_llvm_ident(s) {
        s
    } else if encode_chars(s).len() > 0 && !('0' <= encode_chars(s)[0] <= '9') {
        encode_chars(s)
    } else {
        seq!['_'] + encode_chars(s)
    }
}

/// The symbol a function is emitted under: `main` for the entry point, the
/// declared symbol of an external function, the standard library's symbol
/// for its functions, else the sanitised qualified path.
pub open spec fn llvm_function_name_spec(f: FunctionDef) -> Seq<char> {
    if f.is_entry {
        "main"@
    } else if f.external_symbol is Some {
        f.external_symbol->0@
    } else if f.is_external {
        match external_symbol_spec(function_path_spec(f)) {
            Some(sym) => sym,
            None => sanitize_spec(function_path_spec(f)),
        }
    } else {
        sanitize_spec(function_path_spec(f))
    }
}

fn hex_digit_exec(d: u32) -> (c: char)
    requires
        d < 16,
    ensures
        c == hex_digit(d as nat),
{
    let b: u8 = if d < 10 {
        (d + 48) as u8
    } else {
        (d + 87) as u8
    };
    b as char
}

/// Appends the lowercase hexadecimal digits of `n`.
pub fn push_hex(s: &mut String, n: u32)
    ensures
        final(s)@ == old(s)@ + hex(n as nat),
    decreases n,
{
    if n < 16 {
        string_push(s, hex_digit_exec(n));
    } else {
        push_hex(s, n / 16);
        string_push(s, hex_digit_exec(n % 16));
        assert(old(s)@ + hex((n / 16) as nat) + seq![hex_digit((n % 16) as nat)] =~= old(s)@ + hex(n as nat));
    }
}

fn is_ascii_alnum_exec(c: char) -> (r: bool)
    ensures
        r == is_ascii_alnum(c),
{
    ('0' <= c && c <= '9') || ('a' <= c && c <= 'z') || ('A' <= c && c <= 'Z')
}

/// Sanitises a variable or function name for use as an LLVM identifier
/// (see `sanitize_spec`).
pub fn sanitize_llvm_name(name: &str) -> (r: String)
    ensures
        r@ == sanitize_spec(name@),
{
    let chars = str_chars(name);
    let mut valid = chars.len() > 0 && !('0' <= chars[0] && chars[0] <= '9');
    let mut i: usize = 0;
    while i < chars.len()
        invariant
            i <= chars@.len(),
            valid == (chars@.len() > 0 && !('0' <= chars@[0] <= '9') && forall|k: int| 0 <= k < i ==> is_llvm_ident_char(#[trigger] chars@[k])),
        decreases chars@.len() - i,
    {
        let c = chars[i];
        let ok = is_ascii_alnum_exec(c) || c == '_' || c == '.' || c == '$' || c == '-';
        if !ok {
            valid = false;
        }
        i += 1;
    }
    if valid {
        return owned(name);
    }
    let mut s = String::new();
    let mut j: usize = 0;
    while j < chars.len()
        invariant
            j <= chars@.len(),
            s@ == encode_chars(chars@.take(j as int)),
        decreases chars@.len() - j,
    {
        let c = chars[j];
        assert(chars@.take(j + 1).drop_last() =~= chars@.take(j as int));
        if is_ascii_alnum_exec(c) || c == '_' {
            string_push(&mut s, c);
        } else {
            let ghost before = s@;
            string_push(&mut s, '_');
            push_hex(&mut s, c as u32);
            string_push(&mut s, '_');
            assert(s@ =~= before + encode_char(c));
        }
        j += 1;
    }
    assert(chars@.take(chars@.len() as int) =~= chars@);
    proof {
        lemma_encode_chars_valid(chars@);
        if chars@.len() > 0 {
            lemma_encode_chars_first(chars@);
        }
    }
    if chars.len() > 0 && !('0' <= chars[0] && chars[0] <= '9') {
        return s;
    }
    let mut r = String::new();
    string_push(&mut r, '_');
    push_str(&mut r, s.as_str());
    assert(r@ =~= seq!['_'] + s@);
    r
}

/// The symbol a function is emitted under (see `llvm_function_name_spec`).
pub fn llvm_function_name(func: &FunctionDef) -> (r: String)
    ensures
        r@ == llvm_function_name_spec(*func),
{
    if func.is_entry {
        owned("main")
    } else if let Some(symbol) = &func.external_symbol {
        copy_string(symbol)
    } else if func.is_external {
        let path = function_path(func);
        match external_symbol_for(path.as_str()) {
            Some(sym) => sym,
            None => sanitize_llvm_name(path.as_str()),
        }
    } else {
        let path = function_path(func);
        sanitize_llvm_name(path.as_str())
    }
}

// ---------------------------------------------------------------------------
// The native symbol named by an export attribute.
// ---------------------------------------------------------------------------

/// The symbol of `name = "symbol"`, with whitespace allowed around `=` and
/// around the whole; the symbol ends at the next `"` and is not empty.
pub open spec fn parse_symbol_name_spec(attr: Seq<char>) -> Result<Seq<char>, Seq<char>> {
    let t = trim(attr);
    if !(t.len() >= 4 && t.subrange(0, 4) == "name"@) {
        Err("请写成 #[wenyuan_ffi::export(name = \"symbol\")]"@)
    } else {
        let a = trim_front(t, 4);
        if !(a < t.len() && t[a] == '=') {
            Err("`name` 后需要 `= \"symbol\"`"@)
        } else {
            let b = trim_front(t, a + 1);
            if !(b < t.len() && t[b] == '"') {
                Err("导出符号名必须是字符串字面量"@)
            } else {
                let e = find_char(t, b + 1, '"');
                if e >= t.len() {
                    Err("导出符号名缺少结束引号"@)
                } else if e == b + 1 {
                    Err("导出符号名不能为空"@)
                } else {
                    Ok(t.subrange(b + 1, e))
                }
            }
        }
    }
}

fn skip_ws(v: &Vec<char>, i: usize) -> (r: usize)
    requires
        i <= v@.len(),
    ensures
        r as int == trim_front(v@, i as int),
        i <= r <= v@.len(),
{
    let mut k = i;
    while k < v.len() && is_whitespace(v[k])
        invariant
            i <= k <= v@.len(),
            trim_front(v@, k as int) == trim_front(v@, i as int),
        decreases v@.len() - k,
    {
        k += 1;
    }
    k
}

/// Reads the symbol of an export attribute (see `parse_symbol_name_spec`).
pub fn parse_symbol_name(attr: &str) -> (r: Result<String, String>)
    ensures
        match r {
            Ok(s) => parse_symbol_name_spec(attr@) == Ok::<Seq<char>, Seq<char>>(s@),
            Err(e) => parse_symbol_name_spec(attr@) == Err::<Seq<char>, Seq<char>>(e@),
        },
{
    let all = str_chars(attr);
    let (lo, hi) = trimmed_bounds(&all, 0, all.len());
    assert(all@.subrange(0, all@.len() as int) =~= all@);
    let trimmed = chars_to_string(&all, lo, hi);
    let t = str_chars(trimmed.as_str());
    proof {
        reveal_strlit("name");
    }
    if !(t.len() >= 4 && t[0] == 'n' && t[1] == 'a' && t[2] == 'm' && t[3] == 'e') {
        proof {
            if t@.len() >= 4 && t@.subrange(0, 4) == "name"@ {
                assert(t@[0] == t@.subrange(0, 4)[0]);
                assert(t@[1] == t@.subrange(0, 4)[1]);
                assert(t@[2] == t@.subrange(0, 4)[2]);
                assert(t@[3] == t@.subrange(0, 4)[3]);
            }
        }
        return Err(owned("请写成 #[wenyuan_ffi::export(name = \"symbol\")]"));
    }
    assert(t@.subrange(0, 4) =~= "name"@);
    let a = skip_ws(&t, 4);
    if !(a < t.len() && t[a] == '=') {
        return Err(owned("`name` 后需要 `= \"symbol\"`"));
    }
    let b = skip_ws(&t, a + 1);
    if !(b < t.len() && t[b] == '"') {
        return Err(owned("导出符号名必须是字符串字面量"));
    }
    let e = find_char_exec(&t, b + 1, '"');
    if e >= t.len() {
        return Err(owned("导出符号名缺少结束引号"));
    }
    if e == b + 1 {
        return Err(owned("导出符号名不能为空"));
    }
    Ok(chars_to_string(&t, b + 1, e))
}

// ---------------------------------------------------------------------------
// Laws of the names.
// ---------------------------------------------------------------------------

/// The value of a string of hexadecimal digits.
pub open spec fn hex_value(d: Seq<char>) -> int
    decreases d.len(),
{
    if d.len() == 0 {
        0
    } else {
        hex_value(d.drop_last()) * 16 + if '0' <= d.last() <= '9' {
            d.last() as int - '0' as int
        } else {
            d.last() as int - 'a' as int + 10
        }
    }
}

proof fn lemma_hex_digit_value(d: nat)
    requires
        d < 16,
    ensures
        d < 10 ==> '0' <= hex_digit(d) <= '9' && hex_digit(d) as int - '0' as int == d,
        d >= 10 ==> 'a' <= hex_digit(d) <= 'f' && hex_digit(d) as int - 'a' as int + 10 == d,
{
    if d < 10 {
        assert(((d + 48) as u8) as int == d + 48);
    } else {
        assert(((d + 87) as u8) as int == d + 87);
    }
}

/// The encoding of a code point is its value in lowercase hexadecimal: the
/// digits are `0-9a-f`, they read back as the number, and there is no
/// leading zero.
pub proof fn lemma_hex_reads_back(n: nat)
    ensures
        forall|i: int| 0 <= i < hex(n).len() ==> ('0' <= #[trigger] hex(n)[i] <= '9' || 'a' <= hex(n)[i] <= 'f'),
        hex_value(hex(n)) == n,
        n > 0 ==> hex(n)[0] != '0',
    decreases n,
{
    lemma_hex_digit_value(n % 16);
    let c = hex_digit((n % 16) as nat);
    let dv: int = if '0' <= c <= '9' { c as int - '0' as int } else { c as int - 'a' as int + 10 };
    assert(dv == n % 16);
    if n < 16 {
        assert(hex(n).drop_last() =~= Seq::<char>::empty());
        assert(hex(n).last() == c);
        assert(hex_value(hex(n)) == hex_value(Seq::<char>::empty()) * 16 + dv);
    } else {
        assert(hex(n).last() == c);
        assert(hex_value(hex(n)) == hex_value(hex(n).drop_last()) * 16 + dv);
        assert(hex(n).drop_last() =~= hex(n / 16));
        assert((n / 16) * 16 + n % 16 == n);
        lemma_hex_reads_back(n / 16);
        let h = hex(n / 16);
        assert(hex(n).drop_last() =~= h);
        assert forall|i: int| 0 <= i < hex(n).len() implies ('0' <= #[trigger] hex(n)[i] <= '9' || 'a' <= hex(n)[i] <= 'f') by {
            if i < h.len() {
                assert(hex(n)[i] == h[i]);
            }
        }
        assert(hex(n)[0] == h[0]);
    }
}

proof fn lemma_hex_alnum(n: nat)
    ensures
        hex(n).len() > 0,
        forall|i: int| 0 <= i < hex(n).len() ==> is_ascii_alnum(#[trigger] hex(n)[i]),
    decreases n,
{
    if n >= 16 {
        lemma_hex_alnum(n / 16);
        assert forall|i: int| 0 <= i < hex(n).len() implies is_ascii_alnum(#[trigger] hex(n)[i]) by {
            if i < hex(n / 16).len() {
                assert(hex(n)[i] == hex(n / 16)[i]);
            }
        }
    }
}

proof fn lemma_encode_chars_valid(s: Seq<char>)
    ensures
        s.len() > 0 ==> encode_chars(s).len() > 0,
        forall|i: int| 0 <= i < encode_chars(s).len() ==> is_llvm_ident_char(#[trigger] encode_chars(s)[i]),
    decreases s.len(),
{
    if s.len() > 0 {
        lemma_encode_chars_valid(s.drop_last());
        let c = s.last();
        let prev = encode_chars(s.drop_last());
        let piece = encode_char(c);
        if !(is_ascii_alnum(c) || c == '_') {
            lemma_hex_alnum((c as u32) as nat);
        }
        assert forall|i: int| 0 <= i < encode_chars(s).len() implies is_llvm_ident_char(#[trigger] encode_chars(s)[i]) by {
            if i < prev.len() {
                assert(encode_chars(s)[i] == prev[i]);
            } else {
                assert(encode_chars(s)[i] == piece[i - prev.len()]);
                if !(is_ascii_alnum(c) || c == '_') {
                    let h = hex((c as u32) as nat);
                    if 0 < i - prev.len() <= h.len() {
                        assert(piece[i - prev.len()] == h[i - prev.len() - 1]);
                    }
                }
            }
        }
    }
}

proof fn lemma_encode_chars_first(s: Seq<char>)
    requires
        s.len() > 0,
    ensures
        encode_chars(s)[0] == encode_char(s[0])[0],
    decreases s.len(),
{
    if s.len() == 1 {
        assert(s.drop_last().len() == 0);
        assert(encode_chars(s) =~= encode_char(s[0]));
    } else {
        lemma_encode_chars_first(s.drop_last());
        lemma_encode_chars_valid(s.drop_last());
        assert(encode_chars(s)[0] == encode_chars(s.drop_last())[0]);
    }
}

/// Every sanitised name is an LLVM identifier body, and a name that already
/// is one is kept.
pub proof fn lemma_sanitize_is_ident(s: Seq<char>)
    ensures
        is_llvm_ident(sanitize_spec(s)),
        is_llvm_ident(s) ==> sanitize_spec(s) == s,
{
    lemma_encode_chars_valid(s);
    let e = encode_chars(s);
    if !is_llvm_ident(s) && !(e.len() > 0 && !('0' <= e[0] <= '9')) {
        let t = seq!['_'] + e;
        assert forall|i: int| 0 <= i < t.len() implies is_llvm_ident_char(#[trigger] t[i]) by {
            if i > 0 {
                assert(t[i] == e[i - 1]);
            }
        }
    }
}

/// Sanitising a name twice gives what sanitising it once gives.
pub proof fn lemma_sanitize_idempotent(s: Seq<char>)
    ensures
        sanitize_spec(sanitize_spec(s)) == sanitize_spec(s),
{
    lemma_sanitize_is_ident(s);
    lemma_sanitize_is_ident(sanitize_spec(s));
}

proof fn lemma_find_char_skips(s: Seq<char>, p: int, c: char)
    requires
        0 <= p <= s.len(),
    ensures
        p <= find_char(s, p, c) <= s.len(),
        forall|k: int| p <= k < find_char(s, p, c) ==> s[k] != c,
        find_char(s, p, c) < s.len() ==> s[find_char(s, p, c)] == c,
    decreases s.len() - p,
{
    if p < s.len() && s[p] != c {
        lemma_find_char_skips(s, p + 1, c);
    }
}

proof fn lemma_trim_front_bounds(s: Seq<char>, i: int)
    requires
        0 <= i,
    ensures
        i <= trim_front(s, i),
        i <= s.len() ==> trim_front(s, i) <= s.len(),
    decreases s.len() - i,
{
    if 0 <= i < s.len() && is_ws(s[i]) {
        lemma_trim_front_bounds(s, i + 1);
    }
}

/// An accepted export symbol is not empty and holds no quotation mark.
pub proof fn lemma_symbol_is_plain(attr: Seq<char>)
    ensures
        parse_symbol_name_spec(attr) matches Ok(sym) ==> sym.len() > 0
            && forall|k: int| 0 <= k < sym.len() ==> sym[k] != '"',
{
    let t = trim(attr);
    if t.len() >= 4 && t.subrange(0, 4) == "name"@ {
        let a = trim_front(t, 4);
        lemma_trim_front_bounds(t, 4);
        if a < t.len() && t[a] == '=' {
            let b = trim_front(t, a + 1);
            lemma_trim_front_bounds(t, a + 1);
            if b < t.len() && t[b] == '"' {
                lemma_find_char_skips(t, b + 1, '"');
            }
        }
    }
}

} // verus!
