use vstd::prelude::*;
use crate::parser::{Parser, Program, program_shape};
use crate::lexer::Lexer;
use crate::semantic::{analysis_error, analyze_with_source, program_ok};
use crate::grammar::{parse_source_spec, program_view};
use crate::stdlib::{STD_IO_SOURCE, merge_with_standard_library, prepended_view};
use crate::text::{cat, chars_to_string, concat3, copy_string, owned, push_str, str_chars, str_is};

verus! {

broadcast use vstd::string::group_string_axioms;

/// Libraries and search paths handed to the linker.
#[derive(Debug, Clone, PartialEq, Eq)]
pub struct FfiLinkOptions {
    pub libs: Vec<String>,
    pub search_paths: Vec<String>,
    pub rpaths: Vec<String>,
}

/// What one run of the compiler is asked to do.
#[derive(Debug, Clone, PartialEq, Eq)]
pub struct CompileOptions {
    pub input_path: String,
    pub output_path: String,
    pub ir_mode: bool,
    pub ffi: FfiLinkOptions,
}

/// The options as values: output path, IR mode, libraries, search paths,
/// rpaths.
pub struct ArgsState {
    pub output: Seq<char>,
    pub ir: bool,
    pub libs: Seq<Seq<char>>,
    pub search: Seq<Seq<char>>,
    pub rpaths: Seq<Seq<char>>,
}

/// The options as values, with the input path first.
pub struct OptionsView {
    pub input: Seq<char>,
    pub output: Seq<char>,
    pub ir: bool,
    pub libs: Seq<Seq<char>>,
    pub search: Seq<Seq<char>>,
    pub rpaths: Seq<Seq<char>>,
}

pub open spec fn strings_view(v: Seq<String>) -> Seq<Seq<char>> {
    v.map_values(|s: String| s@)
}

impl CompileOptions {
    pub open spec fn view_options(self) -> OptionsView {
        OptionsView {
            input: self.input_path@,
            output: self.output_path@,
            ir: self.ir_mode,
            libs: strings_view(self.ffi.libs@),
            search: strings_view(self.ffi.search_paths@),
            rpaths: strings_view(self.ffi.rpaths@),
        }
    }
}

// ---------------------------------------------------------------------------
// The default output path: the input's file name without its extension.
// ---------------------------------------------------------------------------

/// The length of `s[..n]` once its trailing `/` characters and trailing
/// `/.` components are taken off: neither names a file.
pub open spec fn stripped_len(s: Seq<char>, n: int) -> int
    decreases n,
{
    if n <= 0 {
        0
    } else if s[n - 1] == '/' || (n >= 2 && s[n - 1] == '.' && s[n - 2] == '/') {
        stripped_len(s, n - 1)
    } else {
        n
    }
}

/// The start of the last `/`-separated segment of `s[..n]`.
pub open spec fn segment_start(s: Seq<char>, n: int) -> int
    decreases n,
{
    if n <= 0 {
        0
    } else if s[n - 1] == '/' {
        n
    } else {
        segment_start(s, n - 1)
    }
}

/// The offset of the last `.` in `s[lo..n]`, or `lo - 1` when there is none.
pub open spec fn last_dot(s: Seq<char>, lo: int, n: int) -> int
    decreases n - lo,
{
    if n <= lo {
        lo - 1
    } else if s[n - 1] == '.' {
        n - 1
    } else {
        last_dot(s, lo, n - 1)
    }
}

/// Where the final component of the path `s[..n]` lies: `None` for an empty
/// path, a root, `.` or a final `..`.
pub open spec fn file_name_range(s: Seq<char>, n: int) -> Option<(int, int)> {
    let m = stripped_len(s, n);
    let lo = segment_start(s, m);
    let name = s.subrange(lo, m);
    if name.len() == 0 || name == "."@ || name == ".."@ {
        None
    } else {
        Some((lo, m))
    }
}

/// A file name without its extension: the part before its last `.`, unless
/// that `.` is the first character.
pub open spec fn file_stem_spec(name: Seq<char>) -> Seq<char> {
    let d = last_dot(name, 0, name.len() as int);
    if d <= 0 {
        name
    } else {
        name.subrange(0, d)
    }
}

/// The executable written when `-o` is not given. The path is cut right
/// after the stem of its file name, and the file name of what is left is
/// taken, or `a.out` where there is none: a stem `.` leaves the directory's
/// name, a stem `..` leaves no name.
pub open spec fn default_output_spec(input: Seq<char>) -> Seq<char> {
    match file_name_range(input, input.len() as int) {
        Some((lo, m)) => {
            let stem = file_stem_spec(input.subrange(lo, m));
            if stem == "."@ {
                match file_name_range(input, lo) {
                    Some((a, b)) => input.subrange(a, b),
                    None => "a.out"@,
                }
            } else if stem == ".."@ {
                "a.out"@
            } else {
                stem
            }
        },
        None => "a.out"@,
    }
}

fn stripped_len_exec(s: &Vec<char>, n: usize) -> (r: usize)
    requires
        n <= s@.len(),
    ensures
        r == stripped_len(s@, n as int),
        r <= n,
{
    let mut k = n;
    while k > 0 && (s[k - 1] == '/' || (k >= 2 && s[k - 1] == '.' && s[k - 2] == '/'))
        invariant
            k <= n <= s@.len(),
            stripped_len(s@, k as int) == stripped_len(s@, n as int),
        decreases k,
    {
        k -= 1;
    }
    k
}

fn segment_start_exec(s: &Vec<char>, n: usize) -> (r: usize)
    requires
        n <= s@.len(),
    ensures
        r == segment_start(s@, n as int),
        r <= n,
{
    let mut k = n;
    while k > 0 && s[k - 1] != '/'
        invariant
            k <= n <= s@.len(),
            segment_start(s@, k as int) == segment_start(s@, n as int),
        decreases k,
    {
        k -= 1;
    }
    k
}

fn last_dot_exec(s: &Vec<char>) -> (r: usize)
    ensures
        r <= s@.len(),
        r as int == (if last_dot(s@, 0, s@.len() as int) <= 0 { s@.len() as int } else { last_dot(s@, 0, s@.len() as int) }),
{
    let mut k = s.len();
    while k > 0 && s[k - 1] != '.'
        invariant
            k <= s@.len(),
            last_dot(s@, 0, k as int) == last_dot(s@, 0, s@.len() as int),
        decreases k,
    {
        k -= 1;
    }
    if k <= 1 {
        s.len()
    } else {
        k - 1
    }
}

/// Where the final component of `s[..n]` lies (see `file_name_range`).
fn file_name_range_exec(s: &Vec<char>, n: usize) -> (r: Option<(usize, usize)>)
    requires
        n <= s@.len(),
    ensures
        match r {
            Some((a, b)) => file_name_range(s@, n as int) == Some((a as int, b as int)) && a <= b <= n,
            None => file_name_range(s@, n as int) is None,
        },
{
    let m = stripped_len_exec(s, n);
    let lo = segment_start_exec(s, m);
    let name = chars_to_string(s, lo, m);
    proof {
        reveal_strlit(".");
        reveal_strlit("..");
    }
    if lo == m || str_is(&name, ".") || str_is(&name, "..") {
        None
    } else {
        Some((lo, m))
    }
}

/// The default output path for an input path (see `default_output_spec`).
pub fn default_output_path(input_path: &str) -> (r: String)
    ensures
        r@ == default_output_spec(input_path@),
{
    let chars = str_chars(input_path);
    proof {
        reveal_strlit(".");
        reveal_strlit("..");
    }
    match file_name_range_exec(&chars, chars.len()) {
        Some((lo, m)) => {
            let name = chars_to_string(&chars, lo, m);
            let name_chars = str_chars(name.as_str());
            let d = last_dot_exec(&name_chars);
            let stem = chars_to_string(&name_chars, 0, d);
            proof {
                assert(name_chars@ == chars@.subrange(lo as int, m as int));
                if d == name_chars@.len() {
                    assert(stem@ =~= name_chars@);
                }
            }
            if str_is(&stem, ".") {
                match file_name_range_exec(&chars, lo) {
                    Some((a, b)) => chars_to_string(&chars, a, b),
                    None => owned("a.out"),
                }
            } else if str_is(&stem, "..") {
                owned("a.out")
            } else {
                stem
            }
        },
        None => owned("a.out"),
    }
}

proof fn lemma_stripped_len_bounds(s: Seq<char>, n: int)
    requires
        0 <= n <= s.len(),
    ensures
        0 <= stripped_len(s, n) <= n,
    decreases n,
{
    if n > 0 && (s[n - 1] == '/' || (n >= 2 && s[n - 1] == '.' && s[n - 2] == '/')) {
        lemma_stripped_len_bounds(s, n - 1);
    }
}

proof fn lemma_segment_has_no_slash(s: Seq<char>, n: int)
    requires
        0 <= n <= s.len(),
    ensures
        0 <= segment_start(s, n) <= n,
        forall|k: int| segment_start(s, n) <= k < n ==> s[k] != '/',
    decreases n,
{
    if n > 0 && s[n - 1] != '/' {
        lemma_segment_has_no_slash(s, n - 1);
    }
}

proof fn lemma_last_dot_bounds(s: Seq<char>, lo: int, n: int)
    requires
        lo <= n,
    ensures
        lo - 1 <= last_dot(s, lo, n) < n,
    decreases n - lo,
{
    if n > lo && s[n - 1] != '.' {
        lemma_last_dot_bounds(s, lo, n - 1);
    }
}

/// A file name found in a path is never empty and holds no `/`.
proof fn lemma_file_name_range_plain(s: Seq<char>, n: int)
    requires
        0 <= n <= s.len(),
    ensures
        file_name_range(s, n) matches Some((a, b)) ==> 0 <= a < b <= n && forall|k: int|
            a <= k < b ==> s[k] != '/',
{
    lemma_stripped_len_bounds(s, n);
    lemma_segment_has_no_slash(s, stripped_len(s, n));
}

/// The default output path is a plain file name: it is never empty and
/// holds no `/`, so the executable is written to the current directory.
pub proof fn lemma_default_output_is_file_name(input: Seq<char>)
    ensures
        default_output_spec(input).len() > 0,
        forall|k: int| 0 <= k < default_output_spec(input).len() ==> default_output_spec(input)[k] != '/',
{
    reveal_strlit("a.out");
    reveal_strlit(".");
    reveal_strlit("..");
    lemma_file_name_range_plain(input, input.len() as int);
    if let Some((lo, m)) = file_name_range(input, input.len() as int) {
        let name = input.subrange(lo, m);
        lemma_last_dot_bounds(name, 0, name.len() as int);
        let d = last_dot(name, 0, name.len() as int);
        assert forall|k: int| 0 <= k < name.len() implies name[k] != '/' by {
            assert(name[k] == input[lo + k]);
        }
        if d > 0 {
            assert forall|k: int| 0 <= k < d implies name.subrange(0, d)[k] != '/' by {
                assert(name.subrange(0, d)[k] == name[k]);
            }
        }
        let stem = file_stem_spec(name);
        if stem == "."@ {
            lemma_file_name_range_plain(input, lo);
            if let Some((a, b)) = file_name_range(input, lo) {
                assert forall|k: int| 0 <= k < b - a implies input.subrange(a, b)[k] != '/' by {
                    assert(input.subrange(a, b)[k] == input[a + k]);
                }
            }
        }
    }
}

proof fn lemma_segment_start_no_slash(s: Seq<char>, n: int)
    requires
        0 <= n <= s.len(),
        forall|k: int| 0 <= k < n ==> s[k] != '/',
    ensures
        segment_start(s, n) == 0,
    decreases n,
{
    if n > 0 {
        lemma_segment_start_no_slash(s, n - 1);
    }
}

proof fn lemma_last_dot_at(s: Seq<char>, n: int, d: int)
    requires
        0 <= d < n <= s.len(),
        s[d] == '.',
        forall|k: int| d < k < n ==> s[k] != '.',
    ensures
        last_dot(s, 0, n) == d,
    decreases n,
{
    if n - 1 > d {
        lemma_last_dot_at(s, n - 1, d);
    }
}

/// The default output of a plain file name `stem.ext`, with no directory
/// and one dot that is not its first character, is `stem`: the extension
/// is taken off and nothing else.
pub proof fn lemma_default_output_drops_extension(s: Seq<char>, d: int)
    requires
        0 < d < s.len() - 1,
        s[d] == '.',
        forall|k: int| 0 <= k < s.len() ==> s[k] != '/',
        forall|k: int| 0 <= k < s.len() && k != d ==> s[k] != '.',
    ensures
        default_output_spec(s) == s.subrange(0, d),
{
    reveal_strlit(".");
    reveal_strlit("..");
    let n = s.len() as int;
    assert(stripped_len(s, n) == n);
    lemma_segment_start_no_slash(s, n);
    lemma_last_dot_at(s, n, d);
    assert(s.subrange(0, n) =~= s);
    assert(s != "."@ && s != ".."@) by {
        if s.len() <= 2 {
            assert(s[0] != '.' || d == 0);
        }
    }
    let stem = s.subrange(0, d);
    assert(stem[0] == s[0]);
    assert(stem != "."@ && stem != ".."@) by {
        assert(stem[0] != '.');
    }
}

/// In IR mode no executable is written: the options name no output file.
pub proof fn lemma_ir_mode_has_no_output(args: Seq<Seq<char>>)
    ensures
        parse_args_spec(args) matches Ok(o) ==> (o.ir ==> o.output.len() == 0),
{
}

/// What each flag does to the options read so far: `--ir` asks for IR
/// only; `-o <path>` sets the output path; `--ffi-lib <path>`,
/// `--ffi-search <dir>` and `--ffi-rpath <dir>` add a library, a search
/// path and a run-time path after those already given; a flag that wants a
/// value and has none, or any other argument, is an error.
pub proof fn lemma_flag_effects(args: Seq<Seq<char>>, i: int, st: ArgsState)
    requires
        0 <= i < args.len(),
    ensures
        args[i] == seq!['-', '-', 'i', 'r'] ==> args_from(args, i, st) == args_from(args, i + 1, ArgsState { ir: true, ..st }),
        i + 1 < args.len() && args[i] == seq!['-', 'o'] ==> args_from(args, i, st) == args_from(args, i + 2, ArgsState { output: args[i + 1], ..st }),
        i + 1 < args.len() && args[i] == seq!['-', '-', 'f', 'f', 'i', '-', 'l', 'i', 'b'] ==> args_from(args, i, st) == args_from(
            args,
            i + 2,
            ArgsState { libs: st.libs.push(args[i + 1]), ..st },
        ),
        i + 1 < args.len() && args[i] == seq!['-', '-', 'f', 'f', 'i', '-', 's', 'e', 'a', 'r', 'c', 'h'] ==> args_from(args, i, st) == args_from(
            args,
            i + 2,
            ArgsState { search: st.search.push(args[i + 1]), ..st },
        ),
        i + 1 < args.len() && args[i] == seq!['-', '-', 'f', 'f', 'i', '-', 'r', 'p', 'a', 't', 'h'] ==> args_from(args, i, st) == args_from(
            args,
            i + 2,
            ArgsState { rpaths: st.rpaths.push(args[i + 1]), ..st },
        ),
        i + 1 == args.len() && (args[i] == seq!['-', 'o'] || args[i] == seq!['-', '-', 'f', 'f', 'i', '-', 'l', 'i', 'b'] || args[i] == seq!['-', '-', 'f', 'f', 'i', '-', 's', 'e', 'a', 'r', 'c', 'h'] || args[i] == seq!['-', '-', 'f', 'f', 'i', '-', 'r', 'p', 'a', 't', 'h']) ==> args_from(args, i, st) is Err,
        args[i] != seq!['-', '-', 'i', 'r'] && args[i] != seq!['-', 'o'] && args[i] != seq!['-', '-', 'f', 'f', 'i', '-', 'l', 'i', 'b'] && args[i] != seq!['-', '-', 'f', 'f', 'i', '-', 's', 'e', 'a', 'r', 'c', 'h'] && args[i] != seq!['-', '-', 'f', 'f', 'i', '-', 'r', 'p', 'a', 't', 'h'] ==> args_from(args, i, st) is Err,
{
    reveal_strlit("--ir");
    reveal_strlit("-o");
    reveal_strlit("--ffi-lib");
    reveal_strlit("--ffi-search");
    reveal_strlit("--ffi-rpath");
    assert("--ir"@ =~= seq!['-', '-', 'i', 'r']);
    assert("-o"@ =~= seq!['-', 'o']);
    assert("--ffi-lib"@ =~= seq!['-', '-', 'f', 'f', 'i', '-', 'l', 'i', 'b']);
    assert("--ffi-search"@ =~= seq!['-', '-', 'f', 'f', 'i', '-', 's', 'e', 'a', 'r', 'c', 'h']);
    assert("--ffi-rpath"@ =~= seq!['-', '-', 'f', 'f', 'i', '-', 'r', 'p', 'a', 't', 'h']);
    assert(seq!['-', '-', 'i', 'r'].len() == 4 && seq!['-', 'o'].len() == 2 && seq!['-', '-', 'f', 'f', 'i', '-', 'l', 'i', 'b'].len() == 9 && seq!['-', '-', 'f', 'f', 'i', '-', 's', 'e', 'a', 'r', 'c', 'h'].len() == 12 && seq!['-', '-', 'f', 'f', 'i', '-', 'r', 'p', 'a', 't', 'h'].len() == 11);
    assert(seq!['-', '-', 'f', 'f', 'i', '-', 'l', 'i', 'b'][6] == 'l' && seq!['-', '-', 'f', 'f', 'i', '-', 'r', 'p', 'a', 't', 'h'][6] == 'r');
}

/// Without flags the options name the source file, the default output path
/// and nothing else.
pub proof fn lemma_default_options(args: Seq<Seq<char>>)
    requires
        args.len() == 2,
    ensures
        parse_args_spec(args) == Ok::<OptionsView, Seq<char>>(OptionsView {
            input: args[1],
            output: default_output_spec(args[1]),
            ir: false,
            libs: Seq::empty(),
            search: Seq::empty(),
            rpaths: Seq::empty(),
        }),
{
}

// ---------------------------------------------------------------------------
// Command-line arguments.
// ---------------------------------------------------------------------------

pub open spec fn missing_value_message(flag: Seq<char>) -> Seq<char> {
    if flag == "-o"@ {
        "错误: `-o` 后缺少输出文件路径"@
    } else if flag == "--ffi-lib"@ {
        "错误: `--ffi-lib` 后缺少库文件路径"@
    } else if flag == "--ffi-search"@ {
        "错误: `--ffi-search` 后缺少目录路径"@
    } else {
        "错误: `--ffi-rpath` 后缺少目录路径"@
    }
}

pub open spec fn takes_value(flag: Seq<char>) -> bool {
    flag == "-o"@ || flag == "--ffi-lib"@ || flag == "--ffi-search"@ || flag == "--ffi-rpath"@
}

/// The options after reading the arguments from `i` on.
pub open spec fn args_from(args: Seq<Seq<char>>, i: int, st: ArgsState) -> Result<ArgsState, Seq<char>>
    decreases args.len() - i,
{
    if i < 0 || i >= args.len() {
        Ok(st)
    } else {
        let a = args[i];
        if a == "--ir"@ {
            args_from(args, i + 1, ArgsState { ir: true, ..st })
        } else if takes_value(a) {
            if i + 1 >= args.len() {
                Err(missing_value_message(a))
            } else {
                let v = args[i + 1];
                let next = if a == "-o"@ {
                    ArgsState { output: v, ..st }
                } else if a == "--ffi-lib"@ {
                    ArgsState { libs: st.libs.push(v), ..st }
                } else if a == "--ffi-search"@ {
                    ArgsState { search: st.search.push(v), ..st }
                } else {
                    ArgsState { rpaths: st.rpaths.push(v), ..st }
                };
                args_from(args, i + 2, next)
            }
        } else {
            Err("错误: 未识别的参数 `"@ + a + "`"@)
        }
    }
}

/// The options that `asc <input> [flags...]` asks for; in IR mode no
/// executable is written, so the output path is empty.
pub open spec fn parse_args_spec(args: Seq<Seq<char>>) -> Result<OptionsView, Seq<char>> {
    if args.len() < 2 {
        Err("错误: 缺少源文件"@)
    } else {
        let init = ArgsState {
            output: default_output_spec(args[1]),
            ir: false,
            libs: Seq::empty(),
            search: Seq::empty(),
            rpaths: Seq::empty(),
        };
        match args_from(args, 2, init) {
            Ok(st) => Ok(OptionsView {
                input: args[1],
                output: if st.ir { Seq::empty() } else { st.output },
                ir: st.ir,
                libs: st.libs,
                search: st.search,
                rpaths: st.rpaths,
            }),
            Err(e) => Err(e),
        }
    }
}

proof fn lemma_strings_push(v: Seq<String>, s: String)
    ensures
        strings_view(v.push(s)) == strings_view(v).push(s@),
{
    assert(strings_view(v.push(s)) =~= strings_view(v).push(s@));
}

/// Reads the command line: the program name, the source file, then `--ir`,
/// `-o <path>`, `--ffi-lib <path>`, `--ffi-search <dir>` and
/// `--ffi-rpath <dir>` in any order, the last three repeatable.
pub fn parse_args(args: &[String]) -> (r: Result<CompileOptions, String>)
    ensures
        match r {
            Ok(o) => parse_args_spec(strings_view(args@)) == Ok::<OptionsView, Seq<char>>(o.view_options()),
            Err(e) => parse_args_spec(strings_view(args@)) == Err::<OptionsView, Seq<char>>(e@),
        },
{
    let ghost av = strings_view(args@);
    if args.len() < 2 {
        return Err(owned("错误: 缺少源文件"));
    }
    let input_path = copy_string(&args[1]);
    let mut output_path = default_output_path(args[1].as_str());
    let mut ir_mode = false;
    let mut libs: Vec<String> = Vec::new();
    let mut search_paths: Vec<String> = Vec::new();
    let mut rpaths: Vec<String> = Vec::new();
    let ghost init = ArgsState {
        output: output_path@,
        ir: false,
        libs: Seq::empty(),
        search: Seq::empty(),
        rpaths: Seq::empty(),
    };
    proof {
        reveal_strlit("--ir");
        reveal_strlit("-o");
        reveal_strlit("--ffi-lib");
        reveal_strlit("--ffi-search");
        reveal_strlit("--ffi-rpath");
        assert(strings_view(libs@) =~= Seq::<Seq<char>>::empty());
        assert(strings_view(search_paths@) =~= Seq::<Seq<char>>::empty());
        assert(strings_view(rpaths@) =~= Seq::<Seq<char>>::empty());
    }
    let mut index: usize = 2;
    while index < args.len()
        invariant
            2 <= index <= args@.len() + 1,
            av == strings_view(args@),
            av.len() == args@.len(),
            args@.len() >= 2,
            init == (ArgsState {
                output: default_output_spec(av[1]),
                ir: false,
                libs: Seq::empty(),
                search: Seq::empty(),
                rpaths: Seq::empty(),
            }),
            args_from(
                av,
                index as int,
                ArgsState {
                    output: output_path@,
                    ir: ir_mode,
                    libs: strings_view(libs@),
                    search: strings_view(search_paths@),
                    rpaths: strings_view(rpaths@),
                },
            ) == args_from(av, 2, init),
        decreases args@.len() + 1 - index,
    {
        proof {
            reveal_strlit("--ir");
            reveal_strlit("-o");
            reveal_strlit("--ffi-lib");
            reveal_strlit("--ffi-search");
            reveal_strlit("--ffi-rpath");
        }
        let arg = &args[index];
        assert(av[index as int] == arg@);
        if str_is(arg, "--ir") {
            ir_mode = true;
            index += 1;
        } else if str_is(arg, "-o") || str_is(arg, "--ffi-lib") || str_is(arg, "--ffi-search") || str_is(arg, "--ffi-rpath") {
            if index + 1 >= args.len() {
                proof {
                    let st = ArgsState {
                        output: output_path@,
                        ir: ir_mode,
                        libs: strings_view(libs@),
                        search: strings_view(search_paths@),
                        rpaths: strings_view(rpaths@),
                    };
                    assert(takes_value(arg@));
                    assert(args_from(av, index as int, st) == Err::<ArgsState, Seq<char>>(missing_value_message(arg@)));
                }
                if str_is(arg, "-o") {
                    return Err(owned("错误: `-o` 后缺少输出文件路径"));
                } else if str_is(arg, "--ffi-lib") {
                    return Err(owned("错误: `--ffi-lib` 后缺少库文件路径"));
                } else if str_is(arg, "--ffi-search") {
                    return Err(owned("错误: `--ffi-search` 后缺少目录路径"));
                } else {
                    return Err(owned("错误: `--ffi-rpath` 后缺少目录路径"));
                }
            }
            let value = copy_string(&args[index + 1]);
            assert(av[index + 1] == value@);
            if str_is(arg, "-o") {
                output_path = value;
            } else if str_is(arg, "--ffi-lib") {
                proof {
                    lemma_strings_push(libs@, value);
                }
                libs.push(value);
            } else if str_is(arg, "--ffi-search") {
                proof {
                    lemma_strings_push(search_paths@, value);
                }
                search_paths.push(value);
            } else {
                proof {
                    lemma_strings_push(rpaths@, value);
                }
                rpaths.push(value);
            }
            index += 2;
        } else {
            return Err(concat3("错误: 未识别的参数 `", arg.as_str(), "`"));
        }
    }
    if ir_mode {
        output_path = String::new();
    }
    Ok(CompileOptions {
        input_path,
        output_path,
        ir_mode,
        ffi: FfiLinkOptions { libs, search_paths, rpaths },
    })
}

/// `prefix` in front of each string.
pub open spec fn prefixed(prefix: Seq<char>, v: Seq<Seq<char>>) -> Seq<Seq<char>> {
    v.map_values(|x: Seq<char>| prefix + x)
}

/// The linker arguments for the FFI options: `-L<dir>` for each search
/// path, `-Wl,-rpath,<dir>` for each run-time path where the linker takes
/// one, then the libraries themselves.
pub open spec fn ffi_link_args_spec(
    libs: Seq<Seq<char>>,
    search: Seq<Seq<char>>,
    rpaths: Seq<Seq<char>>,
    with_rpath: bool,
) -> Seq<Seq<char>> {
    prefixed("-L"@, search) + (if with_rpath {
        prefixed("-Wl,-rpath,"@, rpaths)
    } else {
        Seq::empty()
    }) + libs
}

/// Appends `prefix` followed by each string of `v` to `out`.
fn push_prefixed(out: &mut Vec<String>, prefix: &str, v: &Vec<String>)
    ensures
        strings_view(final(out)@) == strings_view(old(out)@) + prefixed(prefix@, strings_view(v@)),
{
    let ghost start = strings_view(out@);
    let mut i: usize = 0;
    while i < v.len()
        invariant
            i <= v@.len(),
            strings_view(out@) == start + prefixed(prefix@, strings_view(v@)).take(i as int),
        decreases v@.len() - i,
    {
        let mut a = owned(prefix);
        push_str(&mut a, v[i].as_str());
        let ghost before = strings_view(out@);
        out.push(a);
        proof {
            let pv = prefixed(prefix@, strings_view(v@));
            assert(strings_view(out@) =~= before.push(a@));
            assert(pv.take(i + 1) =~= pv.take(i as int).push(pv[i as int]));
            assert(start + pv.take(i + 1) =~= (start + pv.take(i as int)).push(pv[i as int]));
        }
        i += 1;
    }
    assert(prefixed(prefix@, strings_view(v@)).take(v@.len() as int) =~= prefixed(prefix@, strings_view(v@)));
}

/// The linker arguments for the FFI options (see `ffi_link_args_spec`);
/// `with_rpath` tells whether the target's linker takes run-time paths.
pub fn ffi_link_args(ffi: &FfiLinkOptions, with_rpath: bool) -> (r: Vec<String>)
    ensures
        strings_view(r@) == ffi_link_args_spec(
            strings_view(ffi.libs@),
            strings_view(ffi.search_paths@),
            strings_view(ffi.rpaths@),
            with_rpath,
        ),
{
    let mut out: Vec<String> = Vec::new();
    assert(strings_view(out@) =~= Seq::<Seq<char>>::empty());
    push_prefixed(&mut out, "-L", &ffi.search_paths);
    let ghost after_search = strings_view(out@);
    if with_rpath {
        push_prefixed(&mut out, "-Wl,-rpath,", &ffi.rpaths);
    } else {
        assert(after_search + Seq::<Seq<char>>::empty() =~= after_search);
    }
    push_prefixed(&mut out, "", &ffi.libs);
    proof {
        reveal_strlit("");
        assert(prefixed(""@, strings_view(ffi.libs@)) =~= strings_view(ffi.libs@));
    }
    out
}

/// The value after the first `-o` from `i` on that is followed by one.
pub open spec fn output_arg_spec(args: Seq<Seq<char>>, i: int) -> Option<Seq<char>>
    decreases args.len() - i,
{
    if i < 0 || i + 1 >= args.len() {
        None
    } else if args[i] == "-o"@ {
        Some(args[i + 1])
    } else {
        output_arg_spec(args, i + 1)
    }
}

/// The output path given by `-o`, if any: the argument after the first
/// `-o` that is followed by one.
pub fn parse_output_arg(args: &[String]) -> (r: Option<String>)
    ensures
        match r {
            Some(o) => output_arg_spec(strings_view(args@), 0) == Some(o@),
            None => output_arg_spec(strings_view(args@), 0) is None,
        },
{
    let ghost av = strings_view(args@);
    let mut i: usize = 0;
    while i < args.len() && i + 1 < args.len()
        invariant
            av == strings_view(args@),
            av.len() == args@.len(),
            i <= args@.len(),
            output_arg_spec(av, i as int) == output_arg_spec(av, 0),
        decreases args@.len() - i,
    {
        proof {
            reveal_strlit("-o");
        }
        if str_is(&args[i], "-o") {
            return Some(copy_string(&args[i + 1]));
        }
        i += 1;
    }
    None
}

/// The usage line printed with an argument error.
pub fn usage() -> (r: &'static str)
    ensures
        r@ == "用法: asc <源文件.as> [-o <输出文件>] [--ir] [--ffi-lib <库路径>] [--ffi-search <目录>] [--ffi-rpath <目录>]"@,
{
    "用法: asc <源文件.as> [-o <输出文件>] [--ir] [--ffi-lib <库路径>] [--ffi-search <目录>] [--ffi-rpath <目录>]"
}

// ---------------------------------------------------------------------------
// The checks a source file passes before code is generated.
// ---------------------------------------------------------------------------

/// The error for a program without an entry point.
pub open spec fn no_entry_message(input_name: Seq<char>) -> Seq<char> {
    "错误: 程序没有入口点\n --> "@ + input_name
        + "\n  = 帮助: 在主方法前添加一行 `@声明 入口`，例如：\n\n@声明 入口\n定义 方法 主（）返回 无：\n。。"@
}

/// Parses a source file, puts the standard library in front of it and
/// analyses the result; unless only IR is asked for, the program must have
/// an entry point. The program that comes back is ready for code generation.
pub fn check_source(source: &str, input_name: &str, ir_mode: bool) -> (r: Result<Program, String>)
    ensures
        match r {
            Ok(p) => {
                &&& program_ok(p)
                &&& program_shape(p)
                &&& ir_mode || p.has_entry
                &&& parse_source_spec(source@) matches Some(user)
                &&& parse_source_spec(STD_IO_SOURCE@) matches Some(lib)
                &&& program_view(p) == prepended_view(lib, user)
            },
            Err(e) => {
                ||| parse_source_spec(source@) is None
                ||| exists|m: Program|
                    #[trigger] program_view(m) == prepended_view(
                        parse_source_spec(STD_IO_SOURCE@)->0,
                        parse_source_spec(source@)->0,
                    ) && ((!program_ok(m) && e@ == analysis_error(m, Some(source), Some(input_name))) || (program_ok(m) && !ir_mode
                        && !m.has_entry && e@ == no_entry_message(input_name@)))
            },
        },
{
    let lexer = Lexer::new_with_name(source, owned(input_name));
    let parser = Parser::new(lexer);
    let program = parser.parse_program()?;
    let program = match merge_with_standard_library(program) {
        Ok(p) => p,
        Err(e) => {
            return Err(cat(&["标准库解析错误:\n", e.as_str()]));
        },
    };
    if let Err(e) = analyze_with_source(&program, Some(source), Some(input_name)) {
        assert(program_view(program) == prepended_view(
            parse_source_spec(STD_IO_SOURCE@)->0,
            parse_source_spec(source@)->0,
        ));
        return Err(e);
    }
    if !ir_mode && !program.has_entry {
        assert(program_view(program) == prepended_view(
            parse_source_spec(STD_IO_SOURCE@)->0,
            parse_source_spec(source@)->0,
        ));
        return Err(
            concat3(
                "错误: 程序没有入口点\n --> ",
                input_name,
                "\n  = 帮助: 在主方法前添加一行 `@声明 入口`，例如：\n\n@声明 入口\n定义 方法 主（）返回 无：\n。。",
            ),
        );
    }
    Ok(program)
}

} // verus!
