use vstd::prelude::*;
use crate::lexer::{find_char, find_char_exec, lemma_find_char_bounds};
use crate::parser::{trim, trimmed_bounds};
use crate::text::{
    chars_to_string, concat3, copy_string, owned, push_str, str_chars, str_is, string_push,
};

verus! {

broadcast use vstd::string::group_string_axioms;

// ---------------------------------------------------------------------------
// Text helpers: lines, trimming, quotes.
// ---------------------------------------------------------------------------

/// The lines of `s[i..]`: split at `\n`, with a `\r` before the `\n`
/// removed; a final `\n` starts no further line.
pub open spec fn lines_from(s: Seq<char>, i: int) -> Seq<Seq<char>>
    decreases s.len() - i,
{
    if i < 0 || i >= s.len() {
        Seq::empty()
    } else {
        let j = find_char(s, i, '\n');
        proof {
            lemma_find_char_bounds(s, i, '\n');
        }
        let raw = s.subrange(i, j);
        let line = if j < s.len() && raw.len() > 0 && raw.last() == '\r' {
            raw.drop_last()
        } else {
            raw
        };
        if j < s.len() {
            seq![line] + lines_from(s, j + 1)
        } else {
            seq![line]
        }
    }
}

pub open spec fn lines_spec(s: Seq<char>) -> Seq<Seq<char>> {
    lines_from(s, 0)
}

/// The offset of a `//` comment outside quotes, scanning from `i` with the
/// given quote state; `"`, `“` and `”` each toggle the state.
pub open spec fn comment_at(s: Seq<char>, i: int, in_string: bool) -> Option<int>
    decreases s.len() - i,
{
    if i < 0 || i + 1 >= s.len() {
        None
    } else if s[i] == '"' || s[i] == '“' || s[i] == '”' {
        comment_at(s, i + 1, !in_string)
    } else if s[i] == '/' && !in_string && s[i + 1] == '/' {
        Some(i)
    } else {
        comment_at(s, i + 1, in_string)
    }
}

/// A line without its `//` comment.
pub open spec fn strip_comment_spec(s: Seq<char>) -> Seq<char> {
    match comment_at(s, 0, false) {
        Some(k) => s.subrange(0, k),
        None => s,
    }
}

/// Chinese quotation marks replaced by `"`.
pub open spec fn normalize_quotes(s: Seq<char>) -> Seq<char> {
    s.map_values(|c: char| if c == '“' || c == '”' { '"' } else { c })
}

/// The offset of the first character at or after `i` that is not `c`.
pub open spec fn skip_char(s: Seq<char>, i: int, c: char) -> int
    decreases s.len() - i,
{
    if 0 <= i < s.len() && s[i] == c {
        skip_char(s, i + 1, c)
    } else {
        i
    }
}

/// The end of `s[..j]` once trailing `c` at or after `lo` are removed.
pub open spec fn skip_char_back(s: Seq<char>, lo: int, j: int, c: char) -> int
    decreases j - lo,
{
    if lo < j && j <= s.len() && s[j - 1] == c {
        skip_char_back(s, lo, j - 1, c)
    } else {
        j
    }
}

/// `s` without leading and trailing `c`.
pub open spec fn trim_char(s: Seq<char>, c: char) -> Seq<char> {
    let lo = skip_char(s, 0, c);
    s.subrange(lo, skip_char_back(s, lo, s.len() as int, c))
}

/// `s` without trailing `c`.
pub open spec fn trim_end_char(s: Seq<char>, c: char) -> Seq<char> {
    s.subrange(0, skip_char_back(s, 0, s.len() as int, c))
}

/// A value without surrounding whitespace and quotation marks.
pub open spec fn unquote_spec(s: Seq<char>) -> Seq<char> {
    trim_char(trim_char(trim_char(trim(s), '"'), '“'), '”')
}

/// The lines of a manifest or configuration file as the parsers see them.
fn split_lines(text: &str) -> (r: Vec<String>)
    ensures
        r@.map_values(|l: String| l@) == lines_spec(text@),
{
    let chars = str_chars(text);
    let mut lines: Vec<String> = Vec::new();
    let mut i: usize = 0;
    while i < chars.len()
        invariant
            i <= chars@.len(),
            chars@ == text@,
            lines@.map_values(|l: String| l@) + lines_from(chars@, i as int) == lines_spec(chars@),
        decreases chars@.len() - i,
    {
        let j = find_char_exec(&chars, i, '\n');
        let mut end = j;
        if j < chars.len() && j > i && chars[j - 1] == '\r' {
            end = j - 1;
        }
        let line = chars_to_string(&chars, i, end);
        let ghost before = lines@;
        proof {
            let raw = chars@.subrange(i as int, j as int);
            if j < chars@.len() && raw.len() > 0 && raw.last() == '\r' {
                assert(raw.drop_last() =~= chars@.subrange(i as int, end as int));
            } else {
                assert(raw =~= chars@.subrange(i as int, end as int));
            }
        }
        lines.push(line);
        proof {
            assert(lines@.map_values(|l: String| l@) =~= before.map_values(|l: String| l@).push(line@));
            if j + 1 >= chars@.len() {
                assert(lines_from(chars@, j + 1) =~= Seq::<Seq<char>>::empty());
            }
        }
        if j >= chars.len() {
            i = chars.len();
        } else {
            i = j + 1;
        }
    }
    proof {
        assert(lines_from(chars@, i as int) =~= Seq::<Seq<char>>::empty());
    }
    lines
}

/// `s` without leading and trailing whitespace.
fn trim_string(s: &String) -> (r: String)
    ensures
        r@ == trim(s@),
{
    let chars = str_chars(s.as_str());
    let (a, b) = trimmed_bounds(&chars, 0, chars.len());
    assert(chars@.subrange(0, chars@.len() as int) =~= chars@);
    chars_to_string(&chars, a, b)
}

/// `s` without leading and trailing `c`.
fn trim_char_string(s: &String, c: char) -> (r: String)
    ensures
        r@ == trim_char(s@, c),
{
    let chars = str_chars(s.as_str());
    let mut a: usize = 0;
    while a < chars.len() && chars[a] == c
        invariant
            a <= chars@.len(),
            chars@ == s@,
            skip_char(chars@, a as int, c) == skip_char(chars@, 0, c),
        decreases chars@.len() - a,
    {
        a += 1;
    }
    let mut b = chars.len();
    while b > a && chars[b - 1] == c
        invariant
            a <= b <= chars@.len(),
            chars@ == s@,
            skip_char(chars@, 0, c) == a,
            skip_char_back(chars@, a as int, b as int, c) == skip_char_back(chars@, a as int, chars@.len() as int, c),
        decreases b - a,
    {
        b -= 1;
    }
    chars_to_string(&chars, a, b)
}

/// `s` without trailing `c`.
fn trim_end_char_string(s: &String, c: char) -> (r: String)
    ensures
        r@ == trim_end_char(s@, c),
{
    let chars = str_chars(s.as_str());
    let mut b = chars.len();
    while b > 0 && chars[b - 1] == c
        invariant
            b <= chars@.len(),
            chars@ == s@,
            skip_char_back(chars@, 0, b as int, c) == skip_char_back(chars@, 0, chars@.len() as int, c),
        decreases b,
    {
        b -= 1;
    }
    chars_to_string(&chars, 0, b)
}

/// The line with Chinese quotation marks written as `"`.
fn normalize_quotes_string(s: &String) -> (r: String)
    ensures
        r@ == normalize_quotes(s@),
{
    let chars = str_chars(s.as_str());
    let mut out = String::new();
    let mut i: usize = 0;
    while i < chars.len()
        invariant
            i <= chars@.len(),
            chars@ == s@,
            out@ == normalize_quotes(chars@.take(i as int)),
        decreases chars@.len() - i,
    {
        let c = chars[i];
        string_push(&mut out, if c == '“' || c == '”' { '"' } else { c });
        assert(normalize_quotes(chars@.take(i + 1)) =~= normalize_quotes(chars@.take(i as int)).push(
            if c == '“' || c == '”' { '"' } else { c },
        ));
        i += 1;
    }
    assert(chars@.take(chars@.len() as int) =~= chars@);
    out
}

/// A configuration line without its `//` comment; `//` inside quotes is
/// kept.
pub fn strip_comment(line: &str) -> (r: String)
    ensures
        r@ == strip_comment_spec(line@),
{
    let chars = str_chars(line);
    let mut in_string = false;
    let mut index: usize = 0;
    while index < chars.len() && index + 1 < chars.len()
        invariant
            index <= chars@.len(),
            chars@ == line@,
            comment_at(chars@, index as int, in_string) == comment_at(chars@, 0, false),
        decreases chars@.len() - index,
    {
        let c = chars[index];
        if c == '"' || c == '“' || c == '”' {
            in_string = !in_string;
        } else if c == '/' && !in_string && chars[index + 1] == '/' {
            return chars_to_string(&chars, 0, index);
        }
        index += 1;
    }
    owned(line)
}

/// A value without surrounding whitespace and quotation marks.
pub fn unquote(value: &str) -> (r: String)
    ensures
        r@ == unquote_spec(value@),
{
    let v = owned(value);
    let t = trim_string(&v);
    let a = trim_char_string(&t, '"');
    let b = trim_char_string(&a, '“');
    trim_char_string(&b, '”')
}

/// The first `=` splits a line into key and value.
fn split_at_eq(s: &String) -> (r: Option<(String, String)>)
    ensures
        match r {
            Some((k, v)) => find_char(s@, 0, '=') < s@.len() && k@ == s@.subrange(0, find_char(s@, 0, '='))
                && v@ == s@.subrange(find_char(s@, 0, '=') + 1, s@.len() as int),
            None => find_char(s@, 0, '=') == s@.len(),
        },
{
    let chars = str_chars(s.as_str());
    if chars.len() == 0 {
        return None;
    }
    let k = find_char_exec(&chars, 0, '=');
    if k >= chars.len() {
        return None;
    }
    Some((chars_to_string(&chars, 0, k), chars_to_string(&chars, k + 1, chars.len())))
}

// ---------------------------------------------------------------------------
// Booleans.
// ---------------------------------------------------------------------------

pub open spec fn parse_bool_spec(v: Seq<char>) -> Result<bool, Seq<char>> {
    if v == "是"@ || v == "true"@ || v == "True"@ || v == "TRUE"@ {
        Ok(true)
    } else if v == "否"@ || v == "false"@ || v == "False"@ || v == "FALSE"@ {
        Ok(false)
    } else {
        Err("错误: 布尔值只能是 `是` 或 `否`，实际为 `"@ + v + "`"@)
    }
}

/// The documented spellings of true: `是`, `true`, `True`, `TRUE`.
pub open spec fn spells_true(v: Seq<char>) -> bool {
    ||| v == seq!['是']
    ||| v == seq!['t', 'r', 'u', 'e']
    ||| v == seq!['T', 'r', 'u', 'e']
    ||| v == seq!['T', 'R', 'U', 'E']
}

/// The documented spellings of false: `否`, `false`, `False`, `FALSE`.
pub open spec fn spells_false(v: Seq<char>) -> bool {
    ||| v == seq!['否']
    ||| v == seq!['f', 'a', 'l', 's', 'e']
    ||| v == seq!['F', 'a', 'l', 's', 'e']
    ||| v == seq!['F', 'A', 'L', 'S', 'E']
}

/// A configuration boolean reads as true exactly for the four spellings of
/// true, as false exactly for the four spellings of false, and anything else
/// is rejected.
pub proof fn lemma_bool_spellings(v: Seq<char>)
    ensures
        parse_bool_spec(v) == Ok::<bool, Seq<char>>(true) <==> spells_true(v),
        parse_bool_spec(v) == Ok::<bool, Seq<char>>(false) <==> spells_false(v),
        parse_bool_spec(v) is Err <==> !spells_true(v) && !spells_false(v),
{
    reveal_strlit("是");
    reveal_strlit("true");
    reveal_strlit("True");
    reveal_strlit("TRUE");
    reveal_strlit("否");
    reveal_strlit("false");
    reveal_strlit("False");
    reveal_strlit("FALSE");
    assert("是"@ =~= seq!['是']);
    assert("true"@ =~= seq!['t', 'r', 'u', 'e']);
    assert("True"@ =~= seq!['T', 'r', 'u', 'e']);
    assert("TRUE"@ =~= seq!['T', 'R', 'U', 'E']);
    assert("否"@ =~= seq!['否']);
    assert("false"@ =~= seq!['f', 'a', 'l', 's', 'e']);
    assert("False"@ =~= seq!['F', 'a', 'l', 's', 'e']);
    assert("FALSE"@ =~= seq!['F', 'A', 'L', 'S', 'E']);
    assert(spells_true(v) ==> (v.len() == 1 && v[0] == '是') || v.len() == 4);
    assert(spells_false(v) ==> (v.len() == 1 && v[0] == '否') || v.len() == 5);
}

/// A configuration boolean: `是` or `否`, or `true` / `false` in lower,
/// capitalised or upper case.
pub fn parse_bool(value: &str) -> (r: Result<bool, String>)
    ensures
        match r {
            Ok(b) => parse_bool_spec(value@) == Ok::<bool, Seq<char>>(b),
            Err(e) => parse_bool_spec(value@) == Err::<bool, Seq<char>>(e@),
        },
{
    let v = owned(value);
    if str_is(&v, "是") || str_is(&v, "true") || str_is(&v, "True") || str_is(&v, "TRUE") {
        Ok(true)
    } else if str_is(&v, "否") || str_is(&v, "false") || str_is(&v, "False") || str_is(&v, "FALSE") {
        Ok(false)
    } else {
        Err(concat3("错误: 布尔值只能是 `是` 或 `否`，实际为 `", value, "`"))
    }
}

// ---------------------------------------------------------------------------
// The project configuration file.
// ---------------------------------------------------------------------------

/// A Rust crate that the project links against.
#[derive(Debug, Clone, PartialEq, Eq)]
pub struct RustDependency {
    pub name: String,
    pub project_path: String,
}

/// The settings of a project, read from `project.ascfg` or `项目设置`.
#[derive(Debug, Clone, PartialEq, Eq)]
pub struct ProjectConfig {
    pub project_name: String,
    pub version: String,
    pub license: String,
    pub enable_chinese_paths: bool,
    pub exe_name: String,
    pub rust_deps: Vec<RustDependency>,
}

/// The section a configuration line belongs to.
#[derive(Debug, Clone, Copy, PartialEq, Eq, Structural)]
pub enum ConfigSection {
    Top,
    Package,
    Executable,
    RustDeps,
}

/// A dependency as values: its name and project path.
pub type DepView = (Seq<char>, Seq<char>);

/// The settings as values.
pub struct ConfigView {
    pub project_name: Seq<char>,
    pub version: Seq<char>,
    pub license: Seq<char>,
    pub chinese: bool,
    pub exe_name: Seq<char>,
    pub deps: Seq<DepView>,
}

/// What has been read so far: the settings, the current section and the
/// dependency whose settings follow.
pub struct ConfigState {
    pub project_name: Seq<char>,
    pub version: Seq<char>,
    pub license: Seq<char>,
    pub chinese: bool,
    pub exe_name: Seq<char>,
    pub deps: Seq<DepView>,
    pub section: ConfigSection,
    pub current: Option<DepView>,
}

pub open spec fn deps_view(v: Seq<RustDependency>) -> Seq<DepView> {
    v.map_values(|d: RustDependency| (d.name@, d.project_path@))
}

impl ProjectConfig {
    pub open spec fn view_config(self) -> ConfigView {
        ConfigView {
            project_name: self.project_name@,
            version: self.version@,
            license: self.license@,
            chinese: self.enable_chinese_paths,
            exe_name: self.exe_name@,
            deps: deps_view(self.rust_deps@),
        }
    }

    /// The directory that holds the sources.
    pub fn source_dir_name(&self) -> (r: &'static str)
        ensures
            r@ == (if self.enable_chinese_paths { "源码"@ } else { "src"@ }),
    {
        if self.enable_chinese_paths {
            "源码"
        } else {
            "src"
        }
    }

    /// The directory that receives the build output.
    pub fn target_dir_name(&self) -> (r: &'static str)
        ensures
            r@ == (if self.enable_chinese_paths { "目标输出"@ } else { "target"@ }),
    {
        if self.enable_chinese_paths {
            "目标输出"
        } else {
            "target"
        }
    }
}

/// A raw line as the parser reads it: comment removed, trimmed, Chinese
/// quotation marks made plain.
pub open spec fn clean_line(raw: Seq<char>) -> Seq<char> {
    normalize_quotes(trim(strip_comment_spec(raw)))
}

/// A line ending in `：` opens a section, or names a dependency inside
/// `Rust依赖`; the dependency read so far is complete.
pub open spec fn header_step(st: ConfigState, line: Seq<char>) -> ConfigState {
    let st1 = if st.section == ConfigSection::RustDeps && st.current is Some {
        ConfigState { deps: st.deps.push(st.current->0), current: None, ..st }
    } else {
        st
    };
    let name = trim(trim_end_char(line, '：'));
    if name == "包配置"@ {
        ConfigState { section: ConfigSection::Package, ..st1 }
    } else if name == "可执行文件设置"@ {
        ConfigState { section: ConfigSection::Executable, ..st1 }
    } else if name == "Rust依赖"@ {
        ConfigState { section: ConfigSection::RustDeps, ..st1 }
    } else if st1.section == ConfigSection::RustDeps {
        ConfigState { current: Some((name, Seq::empty())), ..st1 }
    } else {
        st1
    }
}

/// A `key = value` line sets a setting of the current section; unknown keys
/// are ignored.
pub open spec fn entry_step(st: ConfigState, raw: Seq<char>, line: Seq<char>) -> Result<ConfigState, Seq<char>> {
    let k = find_char(line, 0, '=');
    if k >= line.len() {
        Err("错误: 无法解析配置行 `"@ + trim(raw) + "`"@)
    } else {
        let key = trim(line.subrange(0, k));
        let value = unquote_spec(trim(line.subrange(k + 1, line.len() as int)));
        match st.section {
            ConfigSection::Package => if key == "项目名"@ {
                Ok(ConfigState { project_name: value, ..st })
            } else if key == "版本"@ {
                Ok(ConfigState { version: value, ..st })
            } else if key == "许可证"@ {
                Ok(ConfigState { license: value, ..st })
            } else if key == "启用系统级中文路径"@ {
                match parse_bool_spec(value) {
                    Ok(b) => Ok(ConfigState { chinese: b, ..st }),
                    Err(e) => Err(e),
                }
            } else {
                Ok(st)
            },
            ConfigSection::Executable => if key == "exe文件名"@ {
                Ok(ConfigState { exe_name: value, ..st })
            } else {
                Ok(st)
            },
            ConfigSection::RustDeps => if key == "项目路径"@ {
                match st.current {
                    Some(d) => Ok(ConfigState { current: Some((d.0, value)), ..st }),
                    None => Err("错误: `项目路径` 必须写在某个 Rust依赖 名称下面"@),
                }
            } else {
                Ok(st)
            },
            ConfigSection::Top => Ok(st),
        }
    }
}

/// What each setting line sets, for a line `key = value` whose key and
/// value (trimmed, unquoted) are `key` and `value`: under `包配置`,
/// `项目名`, `版本` and `许可证` set the project name, version and licence,
/// and `启用系统级中文路径` sets Chinese paths on for a spelling of true and
/// off for a spelling of false; under `可执行文件设置`, `exe文件名` sets the
/// executable's name; under `Rust依赖`, `项目路径` sets the path of the
/// dependency being read. Other keys leave the settings as they are.
pub proof fn lemma_config_keys(st: ConfigState, raw: Seq<char>, line: Seq<char>, key: Seq<char>, value: Seq<char>)
    requires
        find_char(line, 0, '=') < line.len(),
        key == trim(line.subrange(0, find_char(line, 0, '='))),
        value == unquote_spec(trim(line.subrange(find_char(line, 0, '=') + 1, line.len() as int))),
    ensures
        st.section == ConfigSection::Package && key == seq!['项', '目', '名'] ==> entry_step(st, raw, line) == Ok::<ConfigState, Seq<char>>(
            ConfigState { project_name: value, ..st },
        ),
        st.section == ConfigSection::Package && key == seq!['版', '本'] ==> entry_step(st, raw, line) == Ok::<ConfigState, Seq<char>>(
            ConfigState { version: value, ..st },
        ),
        st.section == ConfigSection::Package && key == seq!['许', '可', '证'] ==> entry_step(st, raw, line) == Ok::<ConfigState, Seq<char>>(
            ConfigState { license: value, ..st },
        ),
        st.section == ConfigSection::Package && key == seq!['启', '用', '系', '统', '级', '中', '文', '路', '径'] && spells_true(value) ==> entry_step(st, raw, line) == Ok::<
            ConfigState,
            Seq<char>,
        >(ConfigState { chinese: true, ..st }),
        st.section == ConfigSection::Package && key == seq!['启', '用', '系', '统', '级', '中', '文', '路', '径'] && spells_false(value) ==> entry_step(st, raw, line) == Ok::<
            ConfigState,
            Seq<char>,
        >(ConfigState { chinese: false, ..st }),
        st.section == ConfigSection::Executable && key == seq!['e', 'x', 'e', '文', '件', '名'] ==> entry_step(st, raw, line) == Ok::<ConfigState, Seq<char>>(
            ConfigState { exe_name: value, ..st },
        ),
        st.section == ConfigSection::RustDeps && key == seq!['项', '目', '路', '径'] ==> match st.current {
            Some((name, _)) => entry_step(st, raw, line) == Ok::<ConfigState, Seq<char>>(
                ConfigState { current: Some((name, value)), ..st },
            ),
            None => entry_step(st, raw, line) is Err,
        },
        st.section == ConfigSection::Package && key != seq!['项', '目', '名'] && key != seq!['版', '本'] && key != seq!['许', '可', '证'] && key != seq!['启', '用', '系', '统', '级', '中', '文', '路', '径'] ==> entry_step(
            st,
            raw,
            line,
        ) == Ok::<ConfigState, Seq<char>>(st),
{
    reveal_strlit("项目名");
    reveal_strlit("版本");
    reveal_strlit("许可证");
    reveal_strlit("启用系统级中文路径");
    reveal_strlit("exe文件名");
    reveal_strlit("项目路径");
    assert("项目名"@ =~= seq!['项', '目', '名']);
    assert("版本"@ =~= seq!['版', '本']);
    assert("许可证"@ =~= seq!['许', '可', '证']);
    assert("启用系统级中文路径"@ =~= seq!['启', '用', '系', '统', '级', '中', '文', '路', '径']);
    assert("exe文件名"@ =~= seq!['e', 'x', 'e', '文', '件', '名']);
    assert("项目路径"@ =~= seq!['项', '目', '路', '径']);
    lemma_bool_spellings(value);
}

/// The section headers: `包配置：`, `可执行文件设置：` and `Rust依赖：`
/// open the package, executable and dependency sections.
pub proof fn lemma_config_sections(st: ConfigState, line: Seq<char>)
    ensures
        trim(trim_end_char(line, '：')) == seq!['包', '配', '置'] ==> header_step(st, line).section == ConfigSection::Package,
        trim(trim_end_char(line, '：')) == seq!['可', '执', '行', '文', '件', '设', '置'] ==> header_step(st, line).section == ConfigSection::Executable,
        trim(trim_end_char(line, '：')) == seq!['R', 'u', 's', 't', '依', '赖'] ==> header_step(st, line).section == ConfigSection::RustDeps,
{
    reveal_strlit("包配置");
    reveal_strlit("可执行文件设置");
    reveal_strlit("Rust依赖");
    assert("包配置"@ =~= seq!['包', '配', '置']);
    assert("可执行文件设置"@ =~= seq!['可', '执', '行', '文', '件', '设', '置']);
    assert("Rust依赖"@ =~= seq!['R', 'u', 's', 't', '依', '赖']);
}

/// One line: blank lines are skipped.
pub open spec fn line_step(st: ConfigState, raw: Seq<char>) -> Result<ConfigState, Seq<char>> {
    let line = clean_line(raw);
    if line.len() == 0 {
        Ok(st)
    } else if line.last() == '：' {
        Ok(header_step(st, line))
    } else {
        entry_step(st, raw, line)
    }
}

/// The lines from `i` on, read in order; the first error stops the reading.
pub open spec fn config_from(lines: Seq<Seq<char>>, i: int, st: ConfigState) -> Result<ConfigState, Seq<char>>
    decreases lines.len() - i,
{
    if i < 0 || i >= lines.len() {
        Ok(st)
    } else {
        match line_step(st, lines[i]) {
            Ok(next) => config_from(lines, i + 1, next),
            Err(e) => Err(e),
        }
    }
}

pub open spec fn initial_state() -> ConfigState {
    ConfigState {
        project_name: Seq::empty(),
        version: "0.1.0"@,
        license: Seq::empty(),
        chinese: false,
        exe_name: Seq::empty(),
        deps: Seq::empty(),
        section: ConfigSection::Top,
        current: None,
    }
}

/// The first dependency from `i` on without a project path.
pub open spec fn first_missing_path(deps: Seq<DepView>, i: int) -> Option<int>
    decreases deps.len() - i,
{
    if i < 0 || i >= deps.len() {
        None
    } else if deps[i].1.len() == 0 {
        Some(i)
    } else {
        first_missing_path(deps, i + 1)
    }
}

/// The settings once every line is read: the project name is required, the
/// executable is named after the project unless named, and every
/// dependency needs a project path.
pub open spec fn finish_config(st: ConfigState) -> Result<ConfigView, Seq<char>> {
    let deps = match st.current {
        Some(d) => st.deps.push(d),
        None => st.deps,
    };
    if st.project_name.len() == 0 {
        Err("错误: 配置文件缺少 `项目名`"@)
    } else {
        match first_missing_path(deps, 0) {
            Some(k) => Err("错误: Rust依赖 `"@ + deps[k].0 + "` 缺少 `项目路径`"@),
            None => Ok(ConfigView {
                project_name: st.project_name,
                version: st.version,
                license: st.license,
                chinese: st.chinese,
                exe_name: if st.exe_name.len() == 0 { st.project_name } else { st.exe_name },
                deps,
            }),
        }
    }
}

pub open spec fn parse_project_config_spec(text: Seq<char>) -> Result<ConfigView, Seq<char>> {
    match config_from(lines_spec(text), 0, initial_state()) {
        Ok(st) => finish_config(st),
        Err(e) => Err(e),
    }
}

proof fn lemma_no_missing_path(deps: Seq<DepView>, i: int)
    requires
        0 <= i,
        first_missing_path(deps, i) is None,
    ensures
        forall|k: int| i <= k < deps.len() ==> (#[trigger] deps[k]).1.len() > 0,
    decreases deps.len() - i,
{
    if i < deps.len() {
        lemma_no_missing_path(deps, i + 1);
    }
}

/// An accepted configuration names its project and its executable, and
/// every Rust dependency has a project path.
pub proof fn lemma_accepted_config_is_complete(text: Seq<char>)
    ensures
        parse_project_config_spec(text) matches Ok(c) ==> c.project_name.len() > 0 && c.exe_name.len() > 0
            && forall|k: int| 0 <= k < c.deps.len() ==> (#[trigger] c.deps[k]).1.len() > 0,
{
    if let Ok(st) = config_from(lines_spec(text), 0, initial_state()) {
        let deps = match st.current {
            Some(d) => st.deps.push(d),
            None => st.deps,
        };
        if first_missing_path(deps, 0) is None {
            lemma_no_missing_path(deps, 0);
        }
    }
}

/// The configuration being read.
struct ConfigReader {
    config: ProjectConfig,
    section: ConfigSection,
    current: Option<RustDependency>,
}

impl ConfigReader {
    spec fn state(self) -> ConfigState {
        ConfigState {
            project_name: self.config.project_name@,
            version: self.config.version@,
            license: self.config.license@,
            chinese: self.config.enable_chinese_paths,
            exe_name: self.config.exe_name@,
            deps: deps_view(self.config.rust_deps@),
            section: self.section,
            current: match self.current {
                Some(d) => Some((d.name@, d.project_path@)),
                None => None,
            },
        }
    }

    fn header(&mut self, line: &String)
        ensures
            final(self).state() == header_step(old(self).state(), line@),
    {
        if self.section == ConfigSection::RustDeps {
            if let Some(dep) = self.current.take() {
                proof {
                    lemma_deps_push(self.config.rust_deps@, dep);
                }
                self.config.rust_deps.push(dep);
            }
        }
        let stripped = trim_end_char_string(line, '：');
        let name = trim_string(&stripped);
        if str_is(&name, "包配置") {
            self.section = ConfigSection::Package;
        } else if str_is(&name, "可执行文件设置") {
            self.section = ConfigSection::Executable;
        } else if str_is(&name, "Rust依赖") {
            self.section = ConfigSection::RustDeps;
        } else if self.section == ConfigSection::RustDeps {
            self.current = Some(RustDependency { name, project_path: String::new() });
        }
    }

    fn entry(&mut self, raw: &str, line: &String) -> (r: Result<(), String>)
        ensures
            match r {
                Ok(()) => entry_step(old(self).state(), raw@, line@) == Ok::<ConfigState, Seq<char>>(final(self).state()),
                Err(e) => entry_step(old(self).state(), raw@, line@) == Err::<ConfigState, Seq<char>>(e@),
            },
    {
        let (key_raw, value_raw) = match split_at_eq(line) {
            Some(kv) => kv,
            None => {
                let t = trim_string(&owned(raw));
                return Err(concat3("错误: 无法解析配置行 `", t.as_str(), "`"));
            },
        };
        let key = trim_string(&key_raw);
        let value_trimmed = trim_string(&value_raw);
        let value = unquote(value_trimmed.as_str());
        match self.section {
            ConfigSection::Package => {
                if str_is(&key, "项目名") {
                    self.config.project_name = value;
                } else if str_is(&key, "版本") {
                    self.config.version = value;
                } else if str_is(&key, "许可证") {
                    self.config.license = value;
                } else if str_is(&key, "启用系统级中文路径") {
                    let b = parse_bool(value.as_str())?;
                    self.config.enable_chinese_paths = b;
                }
            },
            ConfigSection::Executable => {
                if str_is(&key, "exe文件名") {
                    self.config.exe_name = value;
                }
            },
            ConfigSection::RustDeps => {
                if str_is(&key, "项目路径") {
                    match &mut self.current {
                        Some(dep) => {
                            dep.project_path = value;
                        },
                        None => {
                            return Err(owned("错误: `项目路径` 必须写在某个 Rust依赖 名称下面"));
                        },
                    }
                }
            },
            ConfigSection::Top => {},
        }
        Ok(())
    }
}

proof fn lemma_deps_push(v: Seq<RustDependency>, d: RustDependency)
    ensures
        deps_view(v.push(d)) == deps_view(v).push((d.name@, d.project_path@)),
{
    assert(deps_view(v.push(d)) =~= deps_view(v).push((d.name@, d.project_path@)));
}

/// Reads a project configuration (see `parse_project_config_spec`).
pub fn parse_project_config(text: &str) -> (r: Result<ProjectConfig, String>)
    ensures
        match r {
            Ok(c) => parse_project_config_spec(text@) == Ok::<ConfigView, Seq<char>>(c.view_config()),
            Err(e) => parse_project_config_spec(text@) == Err::<ConfigView, Seq<char>>(e@),
        },
{
    let lines = split_lines(text);
    let ghost lv = lines_spec(text@);
    let mut reader = ConfigReader {
        config: ProjectConfig {
            project_name: String::new(),
            version: owned("0.1.0"),
            license: String::new(),
            enable_chinese_paths: false,
            exe_name: String::new(),
            rust_deps: Vec::new(),
        },
        section: ConfigSection::Top,
        current: None,
    };
    assert(deps_view(reader.config.rust_deps@) =~= Seq::<DepView>::empty());
    assert(reader.state() == initial_state());
    let mut i: usize = 0;
    while i < lines.len()
        invariant
            i <= lines@.len(),
            lv == lines_spec(text@),
            lines@.map_values(|l: String| l@) == lv,
            config_from(lv, i as int, reader.state()) == config_from(lv, 0, initial_state()),
        decreases lines@.len() - i,
    {
        let raw = &lines[i];
        assert(lv[i as int] == raw@);
        let no_comment = strip_comment(raw.as_str());
        let trimmed = trim_string(&no_comment);
        let line = normalize_quotes_string(&trimmed);
        let n = line.as_str().unicode_len();
        if n > 0 {
            let last = line.as_str().get_char(n - 1);
            if last == '：' {
                reader.header(&line);
            } else {
                reader.entry(raw.as_str(), &line)?;
            }
        }
        i += 1;
    }
    let ghost st = reader.state();
    assert(config_from(lv, 0, initial_state()) == Ok::<ConfigState, Seq<char>>(st));
    let ConfigReader { config, section: _, current } = reader;
    let mut config = config;
    if let Some(dep) = current {
        proof {
            lemma_deps_push(config.rust_deps@, dep);
        }
        config.rust_deps.push(dep);
    }
    if config.project_name.as_str().unicode_len() == 0 {
        return Err(owned("错误: 配置文件缺少 `项目名`"));
    }
    if config.exe_name.as_str().unicode_len() == 0 {
        config.exe_name = copy_string(&config.project_name);
    }
    let mut k: usize = 0;
    while k < config.rust_deps.len()
        invariant
            k <= config.rust_deps@.len(),
            parse_project_config_spec(text@) == finish_config(st),
            st.project_name.len() > 0,
            deps_view(config.rust_deps@) == (match st.current {
                Some(d) => st.deps.push(d),
                None => st.deps,
            }),
            first_missing_path(deps_view(config.rust_deps@), k as int) == first_missing_path(deps_view(config.rust_deps@), 0),
        decreases config.rust_deps@.len() - k,
    {
        if config.rust_deps[k].project_path.as_str().unicode_len() == 0 {
            return Err(concat3("错误: Rust依赖 `", config.rust_deps[k].name.as_str(), "` 缺少 `项目路径`"));
        }
        k += 1;
    }
    Ok(config)
}

// ---------------------------------------------------------------------------
// The `salt` command line.
// ---------------------------------------------------------------------------

/// The usage text of `salt`.
pub fn usage() -> (r: &'static str)
    ensures
        r@ == "用法:\n  salt new <项目名>\n  salt init --bin\n  salt build\n  salt run"@,
{
    "用法:\n  salt new <项目名>\n  salt init --bin\n  salt build\n  salt run"
}

pub open spec fn extra_arg_message(arg: Seq<char>) -> Seq<char> {
    "错误: 未识别的参数 `"@ + arg + "`\n"@ + "用法:\n  salt new <项目名>\n  salt init --bin\n  salt build\n  salt run"@
}

fn extra_arg_error(arg: &String) -> (r: String)
    ensures
        r@ == extra_arg_message(arg@),
{
    let mut s = concat3("错误: 未识别的参数 `", arg.as_str(), "`\n");
    push_str(&mut s, usage());
    s
}

/// Fails on any argument after the first `expected_len`.
pub fn ensure_no_extra_args(args: &[String], expected_len: usize) -> (r: Result<(), String>)
    requires
        expected_len <= args@.len(),
    ensures
        match r {
            Ok(()) => args@.len() == expected_len,
            Err(e) => args@.len() != expected_len && e@ == extra_arg_message(args@[expected_len as int]@),
        },
{
    if args.len() == expected_len {
        Ok(())
    } else {
        Err(extra_arg_error(&args[expected_len]))
    }
}

/// A `salt` subcommand.
#[derive(Debug, Clone, PartialEq, Eq)]
pub enum SaltCommand {
    New(String),
    Init,
    Build,
    Run,
    Help,
}

/// A subcommand as a value.
pub enum CommandView {
    New(Seq<char>),
    Init,
    Build,
    Run,
    Help,
}

impl SaltCommand {
    pub open spec fn view_command(self) -> CommandView {
        match self {
            SaltCommand::New(n) => CommandView::New(n@),
            SaltCommand::Init => CommandView::Init,
            SaltCommand::Build => CommandView::Build,
            SaltCommand::Run => CommandView::Run,
            SaltCommand::Help => CommandView::Help,
        }
    }
}

/// What `salt <command> ...` asks for: `new <name>`, `init --bin`, `build`,
/// `run` or help; anything else is an error with the usage text.
pub open spec fn parse_command_spec(args: Seq<Seq<char>>) -> Result<CommandView, Seq<char>> {
    let usage_text = "用法:\n  salt new <项目名>\n  salt init --bin\n  salt build\n  salt run"@;
    if args.len() < 2 {
        Err(usage_text)
    } else {
        let c = args[1];
        if c == "new"@ {
            if args.len() < 3 {
                Err("错误: `salt new` 需要项目名"@)
            } else if args.len() > 3 {
                Err(extra_arg_message(args[3]))
            } else {
                Ok(CommandView::New(args[2]))
            }
        } else if c == "init"@ {
            if args.len() < 3 || args[2] != "--bin"@ || args.len() > 3 {
                Err("错误: 目前仅支持 `salt init --bin`"@)
            } else {
                Ok(CommandView::Init)
            }
        } else if c == "build"@ || c == "run"@ {
            if args.len() != 2 {
                Err(extra_arg_message(args[2]))
            } else if c == "build"@ {
                Ok(CommandView::Build)
            } else {
                Ok(CommandView::Run)
            }
        } else if c == "-h"@ || c == "--help"@ || c == "help"@ {
            Ok(CommandView::Help)
        } else {
            Err("错误: 未识别的命令 `"@ + c + "`\n"@ + usage_text)
        }
    }
}

/// Each command word gives its own command: `salt build` builds, `salt run`
/// runs, `salt new <name>` makes the project `<name>`, `salt init --bin`
/// initialises, and `help`, `-h`, `--help` ask for help.
pub proof fn lemma_command_words(args: Seq<Seq<char>>)
    ensures
        args.len() == 2 && args[1] == seq!['b', 'u', 'i', 'l', 'd'] ==> parse_command_spec(args) == Ok::<CommandView, Seq<char>>(CommandView::Build),
        args.len() == 2 && args[1] == seq!['r', 'u', 'n'] ==> parse_command_spec(args) == Ok::<CommandView, Seq<char>>(CommandView::Run),
        args.len() == 3 && args[1] == seq!['n', 'e', 'w'] ==> parse_command_spec(args) == Ok::<CommandView, Seq<char>>(CommandView::New(args[2])),
        args.len() == 3 && args[1] == seq!['i', 'n', 'i', 't'] && args[2] == seq!['-', '-', 'b', 'i', 'n'] ==> parse_command_spec(args)
            == Ok::<CommandView, Seq<char>>(CommandView::Init),
        args.len() >= 2 && (args[1] == seq!['h', 'e', 'l', 'p'] || args[1] == seq!['-', 'h'] || args[1] == seq!['-', '-', 'h', 'e', 'l', 'p'])
            ==> parse_command_spec(args) == Ok::<CommandView, Seq<char>>(CommandView::Help),
        parse_command_spec(args) == Ok::<CommandView, Seq<char>>(CommandView::Run) ==> args[1] == seq!['r', 'u', 'n'],
        parse_command_spec(args) == Ok::<CommandView, Seq<char>>(CommandView::Build) ==> args[1] == seq!['b', 'u', 'i', 'l', 'd'],
{
    reveal_strlit("new");
    reveal_strlit("init");
    reveal_strlit("build");
    reveal_strlit("run");
    reveal_strlit("-h");
    reveal_strlit("--help");
    reveal_strlit("help");
    reveal_strlit("--bin");
    assert("new"@ =~= seq!['n', 'e', 'w']);
    assert("init"@ =~= seq!['i', 'n', 'i', 't']);
    assert("build"@ =~= seq!['b', 'u', 'i', 'l', 'd']);
    assert("run"@ =~= seq!['r', 'u', 'n']);
    assert("-h"@ =~= seq!['-', 'h']);
    assert("--help"@ =~= seq!['-', '-', 'h', 'e', 'l', 'p']);
    assert("help"@ =~= seq!['h', 'e', 'l', 'p']);
    assert("--bin"@ =~= seq!['-', '-', 'b', 'i', 'n']);
}

/// Reads the `salt` command line (see `parse_command_spec`).
pub fn parse_command(args: &[String]) -> (r: Result<SaltCommand, String>)
    ensures
        match r {
            Ok(c) => parse_command_spec(args@.map_values(|s: String| s@)) == Ok::<CommandView, Seq<char>>(c.view_command()),
            Err(e) => parse_command_spec(args@.map_values(|s: String| s@)) == Err::<CommandView, Seq<char>>(e@),
        },
{
    let ghost av = args@.map_values(|s: String| s@);
    proof {
        reveal_strlit("new");
        reveal_strlit("init");
        reveal_strlit("build");
        reveal_strlit("run");
        reveal_strlit("-h");
        reveal_strlit("--help");
        reveal_strlit("help");
    }
    if args.len() < 2 {
        return Err(owned(usage()));
    }
    let command = &args[1];
    assert(av[1] == command@);
    if str_is(command, "new") {
        if args.len() < 3 {
            return Err(owned("错误: `salt new` 需要项目名"));
        }
        if args.len() > 3 {
            assert(av[3] == args@[3]@);
            return Err(extra_arg_error(&args[3]));
        }
        assert(av[2] == args@[2]@);
        Ok(SaltCommand::New(copy_string(&args[2])))
    } else if str_is(command, "init") {
        if args.len() < 3 || !str_is(&args[2], "--bin") || args.len() > 3 {
            return Err(owned("错误: 目前仅支持 `salt init --bin`"));
        }
        Ok(SaltCommand::Init)
    } else if str_is(command, "build") || str_is(command, "run") {
        if args.len() != 2 {
            assert(av[2] == args@[2]@);
        }
        ensure_no_extra_args(args, 2)?;
        if str_is(command, "build") {
            Ok(SaltCommand::Build)
        } else {
            Ok(SaltCommand::Run)
        }
    } else if str_is(command, "-h") || str_is(command, "--help") || str_is(command, "help") {
        Ok(SaltCommand::Help)
    } else {
        let mut s = concat3("错误: 未识别的命令 `", command.as_str(), "`\n");
        push_str(&mut s, usage());
        Err(s)
    }
}

// ---------------------------------------------------------------------------
// New projects.
// ---------------------------------------------------------------------------

pub open spec fn default_config_spec(name: Seq<char>) -> Seq<char> {
    "包配置：\n项目名 = “"@ + name + "”\n版本 = “0.1.0”\n许可证 = “MIT”\n启用系统级中文路径 = 否\n\n可执行文件设置：\nexe文件名 = “"@
        + name + "”\n\nRust依赖：\n"@
}

/// The configuration file of a new project.
pub fn default_config(project_name: &str) -> (r: String)
    ensures
        r@ == default_config_spec(project_name@),
{
    let mut s = concat3("包配置：\n项目名 = “", project_name, "”\n版本 = “0.1.0”\n许可证 = “MIT”\n启用系统级中文路径 = 否\n\n可执行文件设置：\nexe文件名 = “");
    push_str(&mut s, project_name);
    push_str(&mut s, "”\n\nRust依赖：\n");
    s
}

pub open spec fn default_main_source_spec(name: Seq<char>) -> Seq<char> {
    "引用 模块：标准库-输入输出-输出 为 输出\n\n@声明 入口\n定义 方法 主（）返回 无：\n    执行 输出：“你好，"@ + name
        + "”\n。。\n"@
}

/// The entry source of a new project: it greets with the project's name.
pub fn default_main_source(project_name: &str) -> (r: String)
    ensures
        r@ == default_main_source_spec(project_name@),
{
    concat3("引用 模块：标准库-输入输出-输出 为 输出\n\n@声明 入口\n定义 方法 主（）返回 无：\n    执行 输出：“你好，", project_name, "”\n。。\n")
}

// ---------------------------------------------------------------------------
// Rust dependencies.
// ---------------------------------------------------------------------------

/// The operating system that library file names are chosen for.
#[derive(Debug, Clone, Copy, PartialEq, Eq, Structural)]
pub enum TargetOs {
    MacOs,
    Windows,
    Other,
}

pub open spec fn platform_library_file_names_spec(os: TargetOs, lib: Seq<char>) -> Seq<Seq<char>> {
    let stat = "lib"@ + lib + ".a"@;
    match os {
        TargetOs::MacOs => seq![stat, "lib"@ + lib + ".dylib"@],
        TargetOs::Windows => seq![stat, lib + ".dll"@, lib + ".lib"@],
        TargetOs::Other => seq![stat, "lib"@ + lib + ".so"@],
    }
}

/// The source of a project: each file, in the order given, after a comment
/// line that names its path, and followed by a line break.
pub open spec fn joined_sources_spec(files: Seq<(Seq<char>, Seq<char>)>) -> Seq<char>
    decreases files.len(),
{
    if files.len() == 0 {
        Seq::empty()
    } else {
        joined_sources_spec(files.drop_last()) + "\n// 文件："@ + files.last().0 + "\n"@ + files.last().1 + "\n"@
    }
}

pub open spec fn files_view(files: Seq<(String, String)>) -> Seq<(Seq<char>, Seq<char>)> {
    files.map_values(|f: (String, String)| (f.0@, f.1@))
}

/// Joins the project's source files, given as path and text, into one
/// program text (see `joined_sources_spec`).
pub fn join_project_sources(files: &Vec<(String, String)>) -> (r: String)
    ensures
        r@ == joined_sources_spec(files_view(files@)),
{
    let mut source = String::new();
    let mut i: usize = 0;
    while i < files.len()
        invariant
            i <= files@.len(),
            source@ == joined_sources_spec(files_view(files@).take(i as int)),
        decreases files@.len() - i,
    {
        let (path, text) = &files[i];
        push_str(&mut source, "\n// 文件：");
        push_str(&mut source, path.as_str());
        push_str(&mut source, "\n");
        push_str(&mut source, text.as_str());
        push_str(&mut source, "\n");
        proof {
            let fv = files_view(files@);
            assert(fv.take(i + 1).drop_last() =~= fv.take(i as int));
            assert(fv.take(i + 1).last() == (path@, text@));
        }
        i += 1;
    }
    assert(files_view(files@).take(files@.len() as int) =~= files_view(files@));
    source
}

/// The files a Rust library crate builds to, static library first.
pub fn platform_library_file_names(os: TargetOs, lib_name: &str) -> (r: Vec<String>)
    ensures
        r@.map_values(|s: String| s@) == platform_library_file_names_spec(os, lib_name@),
{
    let mut names: Vec<String> = Vec::new();
    names.push(concat3("lib", lib_name, ".a"));
    match os {
        TargetOs::MacOs => {
            names.push(concat3("lib", lib_name, ".dylib"));
        },
        TargetOs::Windows => {
            names.push(concat3("", lib_name, ".dll"));
            names.push(concat3("", lib_name, ".lib"));
        },
        TargetOs::Other => {
            names.push(concat3("lib", lib_name, ".so"));
        },
    }
    proof {
        reveal_strlit("");
        assert(names@.map_values(|s: String| s@) =~= platform_library_file_names_spec(os, lib_name@));
    }
    names
}

/// `s` without leading and trailing `[` and `]`.
pub open spec fn strip_brackets(s: Seq<char>) -> Seq<char> {
    let lo = skip_brackets(s, 0);
    s.subrange(lo, skip_brackets_back(s, lo, s.len() as int))
}

pub open spec fn skip_brackets(s: Seq<char>, i: int) -> int
    decreases s.len() - i,
{
    if 0 <= i < s.len() && (s[i] == '[' || s[i] == ']') {
        skip_brackets(s, i + 1)
    } else {
        i
    }
}

pub open spec fn skip_brackets_back(s: Seq<char>, lo: int, j: int) -> int
    decreases j - lo,
{
    if lo < j && j <= s.len() && (s[j - 1] == '[' || s[j - 1] == ']') {
        skip_brackets_back(s, lo, j - 1)
    } else {
        j
    }
}

/// What a manifest has read so far: the section and the two names.
pub struct ManifestState {
    pub section: Seq<char>,
    pub package: Option<Seq<char>>,
    pub lib: Option<Seq<char>>,
}

/// One manifest line: `[section]` switches the section; `name = "..."`
/// in `[package]` or `[lib]` records that name.
pub open spec fn manifest_step(st: ManifestState, raw: Seq<char>) -> ManifestState {
    let line = trim(raw);
    if line.len() > 0 && line[0] == '[' && line.last() == ']' {
        ManifestState { section: strip_brackets(line), ..st }
    } else {
        let k = find_char(line, 0, '=');
        if k >= line.len() || trim(line.subrange(0, k)) != "name"@ {
            st
        } else {
            let value = unquote_spec(trim(line.subrange(k + 1, line.len() as int)));
            if st.section == "package"@ {
                ManifestState { package: Some(value), ..st }
            } else if st.section == "lib"@ {
                ManifestState { lib: Some(value), ..st }
            } else {
                st
            }
        }
    }
}

pub open spec fn manifest_from(lines: Seq<Seq<char>>, i: int, st: ManifestState) -> ManifestState
    decreases lines.len() - i,
{
    if i < 0 || i >= lines.len() {
        st
    } else {
        manifest_from(lines, i + 1, manifest_step(st, lines[i]))
    }
}

/// `-` written as `_`, as Cargo names library files.
pub open spec fn underscores(s: Seq<char>) -> Seq<char> {
    s.map_values(|c: char| if c == '-' { '_' } else { c })
}

/// The library name of a Cargo manifest: the `[lib]` name, else the
/// `[package]` name, with `-` written as `_`.
pub open spec fn rust_library_name_spec(text: Seq<char>) -> Option<Seq<char>> {
    let st = manifest_from(lines_spec(text), 0, ManifestState { section: Seq::empty(), package: None, lib: None });
    match st.lib {
        Some(l) => Some(underscores(l)),
        None => match st.package {
            Some(p) => Some(underscores(p)),
            None => None,
        },
    }
}

fn strip_brackets_string(s: &String) -> (r: String)
    ensures
        r@ == strip_brackets(s@),
{
    let chars = str_chars(s.as_str());
    let mut a: usize = 0;
    while a < chars.len() && (chars[a] == '[' || chars[a] == ']')
        invariant
            a <= chars@.len(),
            chars@ == s@,
            skip_brackets(chars@, a as int) == skip_brackets(chars@, 0),
        decreases chars@.len() - a,
    {
        a += 1;
    }
    let mut b = chars.len();
    while b > a && (chars[b - 1] == '[' || chars[b - 1] == ']')
        invariant
            a <= b <= chars@.len(),
            chars@ == s@,
            skip_brackets(chars@, 0) == a,
            skip_brackets_back(chars@, a as int, b as int) == skip_brackets_back(chars@, a as int, chars@.len() as int),
        decreases b - a,
    {
        b -= 1;
    }
    chars_to_string(&chars, a, b)
}

fn underscores_string(s: &String) -> (r: String)
    ensures
        r@ == underscores(s@),
{
    let chars = str_chars(s.as_str());
    let mut out = String::new();
    let mut i: usize = 0;
    while i < chars.len()
        invariant
            i <= chars@.len(),
            chars@ == s@,
            out@ == underscores(chars@.take(i as int)),
        decreases chars@.len() - i,
    {
        let c = chars[i];
        string_push(&mut out, if c == '-' { '_' } else { c });
        assert(underscores(chars@.take(i + 1)) =~= underscores(chars@.take(i as int)).push(if c == '-' { '_' } else { c }));
        i += 1;
    }
    assert(chars@.take(chars@.len() as int) =~= chars@);
    out
}

/// The library name that a Cargo manifest's text declares (see
/// `rust_library_name_spec`).
pub fn rust_library_name(manifest_text: &str) -> (r: Option<String>)
    ensures
        match r {
            Some(n) => rust_library_name_spec(manifest_text@) == Some(n@),
            None => rust_library_name_spec(manifest_text@) is None,
        },
{
    let lines = split_lines(manifest_text);
    let ghost lv = lines_spec(manifest_text@);
    let ghost init = ManifestState { section: Seq::empty(), package: None, lib: None };
    let mut section = String::new();
    let mut package_name: Option<String> = None;
    let mut lib_name: Option<String> = None;
    let mut i: usize = 0;
    while i < lines.len()
        invariant
            i <= lines@.len(),
            lv == lines_spec(manifest_text@),
            lines@.map_values(|l: String| l@) == lv,
            manifest_from(lv, i as int, ManifestState {
                section: section@,
                package: match package_name { Some(p) => Some(p@), None => None },
                lib: match lib_name { Some(l) => Some(l@), None => None },
            }) == manifest_from(lv, 0, init),
        decreases lines@.len() - i,
    {
        proof {
            reveal_strlit("name");
            reveal_strlit("package");
            reveal_strlit("lib");
        }
        let raw = &lines[i];
        assert(lv[i as int] == raw@);
        let line = trim_string(raw);
        let n = line.as_str().unicode_len();
        if n > 0 && line.as_str().get_char(0) == '[' && line.as_str().get_char(n - 1) == ']' {
            section = strip_brackets_string(&line);
        } else {
            match split_at_eq(&line) {
                Some((key, value)) => {
                    let key = trim_string(&key);
                    if str_is(&key, "name") {
                        let value_trimmed = trim_string(&value);
                        let value = unquote(value_trimmed.as_str());
                        if str_is(&section, "package") {
                            package_name = Some(value);
                        } else if str_is(&section, "lib") {
                            lib_name = Some(value);
                        }
                    }
                },
                None => {},
            }
        }
        i += 1;
    }
    match lib_name {
        Some(l) => Some(underscores_string(&l)),
        None => match package_name {
            Some(p) => Some(underscores_string(&p)),
            None => None,
        },
    }
}

} // verus!
