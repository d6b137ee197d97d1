use vstd::prelude::*;
use crate::grammar::{
    PState, SProgram, adv, p_declaration, p_program, p_type, p_external_symbol, p_function_def, p_items, p_module_def, p_param, p_params,
    parse_source_spec, program_view, start_state,
};
use crate::lexer::{Lexer, Span, SpecToken, ident_end, next_token_at, skip_trivia_from};
use crate::parser::{Parser, Program, SpecType, function_shape, method_shape, program_shape};
use crate::text::{owned, str_is};

verus! {

broadcast use vstd::string::group_string_axioms;

/// The qualified path of the standard output function.
pub const STD_IO_OUTPUT_PATH: &'static str = "标准库-输入输出-输出";

/// The qualified path of the standard integer input function.
pub const STD_IO_INPUT_PATH: &'static str = "标准库-输入输出-获取输入";

/// The source of the standard input/output module: two external functions.
pub const STD_IO_SOURCE: &'static str = "#模块 标准库-输入输出\n\n@声明 外部\n定义 方法 输出（内容：字符串）返回 无\n\n@声明 外部\n定义 方法 获取输入（）返回 整数\n";

/// `q` is `program` with `prefix` in front: each list of `prefix` comes first,
/// and `q` has an entry point when either has one.
pub open spec fn prepended(q: Program, prefix: Program, program: Program) -> bool {
    &&& q.has_entry == (prefix.has_entry || program.has_entry)
    &&& q.modules@ == prefix.modules@ + program.modules@
    &&& q.imports@ == prefix.imports@ + program.imports@
    &&& q.structs@ == prefix.structs@ + program.structs@
    &&& q.objects@ == prefix.objects@ + program.objects@
    &&& q.functions@ == prefix.functions@ + program.functions@
}

/// The syntax tree of `program` with `prefix` in front.
pub open spec fn prepended_view(prefix: SProgram, program: SProgram) -> SProgram {
    SProgram {
        has_entry: prefix.has_entry || program.has_entry,
        modules: prefix.modules + program.modules,
        imports: prefix.imports + program.imports,
        structs: prefix.structs + program.structs,
        objects: prefix.objects + program.objects,
        functions: prefix.functions + program.functions,
    }
}

/// Putting one program in front of another puts its syntax tree in front.
pub proof fn lemma_prepended_view(q: Program, prefix: Program, program: Program)
    requires
        prepended(q, prefix, program),
    ensures
        program_view(q) == prepended_view(program_view(prefix), program_view(program)),
{
    assert(program_view(q) =~= prepended_view(program_view(prefix), program_view(program)));
}

/// The native symbol of a standard-library function, by qualified path.
pub open spec fn external_symbol_spec(path: Seq<char>) -> Option<Seq<char>> {
    if path == STD_IO_OUTPUT_PATH@ {
        Some("as_std_io_output"@)
    } else if path == STD_IO_INPUT_PATH@ {
        Some("as_std_io_input_int"@)
    } else {
        None
    }
}

/// The standard library's two functions are linked against their native
/// symbols: `标准库-输入输出-输出` against `as_std_io_output` and
/// `标准库-输入输出-获取输入` against `as_std_io_input_int`; no other path has
/// a native symbol of its own.
pub proof fn lemma_standard_symbols(path: Seq<char>)
    ensures
        path == seq!['标', '准', '库', '-', '输', '入', '输', '出', '-', '输', '出'] ==> external_symbol_spec(path) == Some(seq!['a', 's', '_', 's', 't', 'd', '_', 'i', 'o', '_', 'o', 'u', 't', 'p', 'u', 't']),
        path == seq!['标', '准', '库', '-', '输', '入', '输', '出', '-', '获', '取', '输', '入'] ==> external_symbol_spec(path) == Some(seq!['a', 's', '_', 's', 't', 'd', '_', 'i', 'o', '_', 'i', 'n', 'p', 'u', 't', '_', 'i', 'n', 't']),
        path != seq!['标', '准', '库', '-', '输', '入', '输', '出', '-', '输', '出'] && path != seq!['标', '准', '库', '-', '输', '入', '输', '出', '-', '获', '取', '输', '入'] ==> external_symbol_spec(path) is None,
{
    reveal_strlit("标准库-输入输出-输出");
    reveal_strlit("标准库-输入输出-获取输入");
    reveal_strlit("as_std_io_output");
    reveal_strlit("as_std_io_input_int");
    assert(STD_IO_OUTPUT_PATH@ =~= seq!['标', '准', '库', '-', '输', '入', '输', '出', '-', '输', '出']);
    assert(STD_IO_INPUT_PATH@ =~= seq!['标', '准', '库', '-', '输', '入', '输', '出', '-', '获', '取', '输', '入']);
    assert("as_std_io_output"@ =~= seq!['a', 's', '_', 's', 't', 'd', '_', 'i', 'o', '_', 'o', 'u', 't', 'p', 'u', 't']);
    assert("as_std_io_input_int"@ =~= seq!['a', 's', '_', 's', 't', 'd', '_', 'i', 'o', '_', 'i', 'n', 'p', 'u', 't', '_', 'i', 'n', 't']);
}

fn empty_program() -> (p: Program)
    ensures
        !p.has_entry,
        p.modules@.len() == 0,
        p.imports@.len() == 0,
        p.structs@.len() == 0,
        p.objects@.len() == 0,
        p.functions@.len() == 0,
{
    Program {
        has_entry: false,
        modules: Vec::new(),
        imports: Vec::new(),
        structs: Vec::new(),
        objects: Vec::new(),
        functions: Vec::new(),
    }
}

/// Appends the declarations of `source` to `target`.
fn merge_programs(target: &mut Program, source: Program)
    ensures
        prepended(*final(target), *old(target), source),
{
    let mut source = source;
    target.has_entry = target.has_entry || source.has_entry;
    target.modules.append(&mut source.modules);
    target.imports.append(&mut source.imports);
    target.structs.append(&mut source.structs);
    target.objects.append(&mut source.objects);
    target.functions.append(&mut source.functions);
}

/// Puts the declarations of `prefix` in front of those of `program`.
fn prepend_program(program: &mut Program, prefix: Program)
    ensures
        prepended(*final(program), prefix, *old(program)),
{
    let mut prefix = prefix;
    prefix.has_entry = prefix.has_entry || program.has_entry;
    prefix.modules.append(&mut program.modules);
    prefix.imports.append(&mut program.imports);
    prefix.structs.append(&mut program.structs);
    prefix.objects.append(&mut program.objects);
    prefix.functions.append(&mut program.functions);
    *program = prefix;
}

/// Putting one parsed program in front of another gives a program of the
/// same shape.
pub proof fn lemma_prepend_keeps_shape(q: Program, prefix: Program, program: Program)
    requires
        program_shape(prefix),
        program_shape(program),
        prepended(q, prefix, program),
    ensures
        program_shape(q),
{
    let n = prefix.functions@.len();
    assert forall|i: int| 0 <= i < q.functions@.len() implies function_shape(#[trigger] q.functions@[i]) by {
        if i < n {
            assert(q.functions@[i] == prefix.functions@[i]);
        } else {
            assert(q.functions@[i] == program.functions@[i - n]);
        }
    }
    if q.has_entry {
        if prefix.has_entry {
            let i = choose|i: int| 0 <= i < prefix.functions@.len() && #[trigger] prefix.functions@[i].is_entry;
            assert(q.functions@[i] == prefix.functions@[i]);
        } else {
            let i = choose|i: int| 0 <= i < program.functions@.len() && #[trigger] program.functions@[i].is_entry;
            assert(q.functions@[n + i] == program.functions@[i]);
        }
    }
    assert((exists|i: int| 0 <= i < q.functions@.len() && #[trigger] q.functions@[i].is_entry) ==> q.has_entry) by {
        if exists|i: int| 0 <= i < q.functions@.len() && #[trigger] q.functions@[i].is_entry {
            let i = choose|i: int| 0 <= i < q.functions@.len() && #[trigger] q.functions@[i].is_entry;
            if i < n {
                assert(prefix.functions@[i].is_entry);
            } else {
                assert(program.functions@[i - n].is_entry);
            }
        }
    }
    let m = prefix.objects@.len();
    assert forall|i: int, j: int|
        0 <= i < q.objects@.len() && 0 <= j < q.objects@[i].methods@.len() implies method_shape(
        #[trigger] q.objects@[i].methods@[j].function,
        q.objects@[i].name@,
    ) by {
        if i < m {
            assert(q.objects@[i] == prefix.objects@[i]);
        } else {
            assert(q.objects@[i] == program.objects@[i - m]);
        }
    }
}

/// The tokens of the standard library's source, one by one.
proof fn lemma_std_tokens()
    ensures
        STD_IO_SOURCE@.len() == 68,
        next_token_at(STD_IO_SOURCE@, 0) == (SpecToken::Hash, 1int),
        next_token_at(STD_IO_SOURCE@, 1) == (SpecToken::Module, 3int),
        next_token_at(STD_IO_SOURCE@, 3) == (SpecToken::Ident(STD_IO_SOURCE@.subrange(4, 12)), 12int),
        next_token_at(STD_IO_SOURCE@, 12) == (SpecToken::At, 15int),
        next_token_at(STD_IO_SOURCE@, 15) == (SpecToken::Declare, 17int),
        next_token_at(STD_IO_SOURCE@, 17) == (SpecToken::External, 20int),
        next_token_at(STD_IO_SOURCE@, 20) == (SpecToken::Define, 23int),
        next_token_at(STD_IO_SOURCE@, 23) == (SpecToken::Method, 26int),
        next_token_at(STD_IO_SOURCE@, 26) == (SpecToken::Ident(STD_IO_SOURCE@.subrange(27, 29)), 29int),
        next_token_at(STD_IO_SOURCE@, 29) == (SpecToken::LParen, 30int),
        next_token_at(STD_IO_SOURCE@, 30) == (SpecToken::Ident(STD_IO_SOURCE@.subrange(30, 32)), 32int),
        next_token_at(STD_IO_SOURCE@, 32) == (SpecToken::Colon, 33int),
        next_token_at(STD_IO_SOURCE@, 33) == (SpecToken::StringKw, 36int),
        next_token_at(STD_IO_SOURCE@, 36) == (SpecToken::RParen, 37int),
        next_token_at(STD_IO_SOURCE@, 37) == (SpecToken::ReturnKw, 39int),
        next_token_at(STD_IO_SOURCE@, 39) == (SpecToken::VoidKw, 41int),
        next_token_at(STD_IO_SOURCE@, 41) == (SpecToken::At, 44int),
        next_token_at(STD_IO_SOURCE@, 44) == (SpecToken::Declare, 46int),
        next_token_at(STD_IO_SOURCE@, 46) == (SpecToken::External, 49int),
        next_token_at(STD_IO_SOURCE@, 49) == (SpecToken::Define, 52int),
        next_token_at(STD_IO_SOURCE@, 52) == (SpecToken::Method, 55int),
        next_token_at(STD_IO_SOURCE@, 55) == (SpecToken::Ident(STD_IO_SOURCE@.subrange(56, 60)), 60int),
        next_token_at(STD_IO_SOURCE@, 60) == (SpecToken::LParen, 61int),
        next_token_at(STD_IO_SOURCE@, 61) == (SpecToken::RParen, 62int),
        next_token_at(STD_IO_SOURCE@, 62) == (SpecToken::ReturnKw, 64int),
        next_token_at(STD_IO_SOURCE@, 64) == (SpecToken::IntKw, 67int),
        next_token_at(STD_IO_SOURCE@, 67) == (SpecToken::Eof, 68int),
{
    let s = STD_IO_SOURCE@;
    reveal_strlit("#模块 标准库-输入输出\n\n@声明 外部\n定义 方法 输出（内容：字符串）返回 无\n\n@声明 外部\n定义 方法 获取输入（）返回 整数\n");
    assert(s.len() == 68);
    reveal_with_fuel(skip_trivia_from, 4);
    reveal_with_fuel(ident_end, 10);
    assert(next_token_at(s, 0) == (SpecToken::Hash, 1int));
    assert(next_token_at(s, 1) == (SpecToken::Module, 3int));
    assert(next_token_at(s, 3) == (SpecToken::Ident(s.subrange(4, 12)), 12int));
    assert(next_token_at(s, 12) == (SpecToken::At, 15int));
    assert(next_token_at(s, 15) == (SpecToken::Declare, 17int));
    assert(next_token_at(s, 17) == (SpecToken::External, 20int));
    assert(next_token_at(s, 20) == (SpecToken::Define, 23int));
    assert(next_token_at(s, 23) == (SpecToken::Method, 26int));
    assert(next_token_at(s, 26) == (SpecToken::Ident(s.subrange(27, 29)), 29int));
    assert(next_token_at(s, 29) == (SpecToken::LParen, 30int));
    assert(next_token_at(s, 30) == (SpecToken::Ident(s.subrange(30, 32)), 32int));
    assert(next_token_at(s, 32) == (SpecToken::Colon, 33int));
    assert(next_token_at(s, 33) == (SpecToken::StringKw, 36int));
    assert(next_token_at(s, 36) == (SpecToken::RParen, 37int));
    assert(next_token_at(s, 37) == (SpecToken::ReturnKw, 39int));
    assert(next_token_at(s, 39) == (SpecToken::VoidKw, 41int));
    assert(next_token_at(s, 41) == (SpecToken::At, 44int));
    assert(next_token_at(s, 44) == (SpecToken::Declare, 46int));
    assert(next_token_at(s, 46) == (SpecToken::External, 49int));
    assert(next_token_at(s, 49) == (SpecToken::Define, 52int));
    assert(next_token_at(s, 52) == (SpecToken::Method, 55int));
    assert(next_token_at(s, 55) == (SpecToken::Ident(s.subrange(56, 60)), 60int));
    assert(next_token_at(s, 60) == (SpecToken::LParen, 61int));
    assert(next_token_at(s, 61) == (SpecToken::RParen, 62int));
    assert(next_token_at(s, 62) == (SpecToken::ReturnKw, 64int));
    assert(next_token_at(s, 64) == (SpecToken::IntKw, 67int));
    assert(next_token_at(s, 67) == (SpecToken::Eof, 68int));
}

/// A position in the standard library's source that reads `tok` next and
/// stands at `off`, with no declaration pending.
pub open spec fn std_at(k: PState, tok: SpecToken, off: int) -> bool {
    &&& k.src == STD_IO_SOURCE@
    &&& k.cur == tok
    &&& k.off == off
}

proof fn lemma_std_module(st0: PState)
    requires
        std_at(st0, SpecToken::Hash, 1),
    ensures
        p_module_def(st0) matches Some((_, k)) && std_at(k, SpecToken::At, 15) && k.entry_pending == st0.entry_pending
            && k.has_entry == st0.has_entry && k.external_pending == st0.external_pending,
{
    lemma_std_tokens();
    reveal(adv);
}

proof fn lemma_std_declaration(k: PState, o0: int, o1: int, o2: int, o3: int)
    requires
        std_at(k, SpecToken::At, o0),
        next_token_at(STD_IO_SOURCE@, o0) == (SpecToken::Declare, o1),
        next_token_at(STD_IO_SOURCE@, o1) == (SpecToken::External, o2),
        next_token_at(STD_IO_SOURCE@, o2) == (SpecToken::Define, o3),
    ensures
        p_declaration(k) matches Some(r) && std_at(r, SpecToken::Define, o3) && r.external_pending && !r.entry_pending
            == !k.entry_pending && r.has_entry == k.has_entry,
{
    reveal(adv);
}

proof fn lemma_std_param(p0: PState)
    requires
        std_at(p0, SpecToken::Ident(STD_IO_SOURCE@.subrange(30, 32)), 32),
    ensures
        p_params(p0) matches Some((_, q)) && std_at(q, SpecToken::RParen, 37) && q.entry_pending == p0.entry_pending
            && q.external_pending == p0.external_pending,
{
    lemma_std_tokens();
    reveal(adv);
    assert(p_param(p0) is Some);
}

#[verifier::rlimit(40)]
proof fn lemma_std_output(g: PState)
    requires
        std_at(g, SpecToken::Method, 26),
        g.external_pending,
        !g.entry_pending,
    ensures
        p_function_def(g) matches Some((_, k)) && std_at(k, SpecToken::At, 44) && !k.external_pending && !k.entry_pending,
{
    lemma_std_tokens();
    reveal(adv);
    let p0 = adv(adv(adv(g)));
    assert(std_at(p0, SpecToken::Ident(STD_IO_SOURCE@.subrange(30, 32)), 32));
    lemma_std_param(p0);
    let (_, q) = p_params(p0)->0;
    let s6 = adv(adv(q));
    assert(std_at(s6, SpecToken::VoidKw, 41));
    let s7 = adv(s6);
    assert(std_at(s7, SpecToken::At, 44));
    assert(p_type(s6) == Some((SpecType::Void, s7)));
    assert(s7.external_pending);
}

proof fn lemma_std_input(g: PState)
    requires
        std_at(g, SpecToken::Method, 55),
        g.external_pending,
    ensures
        p_function_def(g) matches Some((_, k)) && std_at(k, SpecToken::Eof, 68),
{
    lemma_std_tokens();
    reveal(adv);
}

proof fn lemma_std_items_end(k: PState, acc: SProgram)
    requires
        std_at(k, SpecToken::Eof, 68),
    ensures
        p_items(k, acc) is Some,
{
}

proof fn lemma_std_items_input(f: PState, acc: SProgram)
    requires
        std_at(f, SpecToken::Define, 52),
        std_at(adv(f), SpecToken::Method, 55),
        p_function_def(adv(f)) matches Some((_, k)) && std_at(k, SpecToken::Eof, 68),
    ensures
        p_items(f, acc) is Some,
{
    let (func, k) = p_function_def(adv(f))->0;
    lemma_std_items_end(k, SProgram { functions: acc.functions.push(func), ..acc });
}

proof fn lemma_std_items_second(k1: PState, acc: SProgram)
    requires
        std_at(k1, SpecToken::At, 44),
        p_declaration(k1) matches Some(f) && std_at(f, SpecToken::Define, 52) && std_at(adv(f), SpecToken::Method, 55)
            && (p_function_def(adv(f)) matches Some((_, k)) && std_at(k, SpecToken::Eof, 68)),
    ensures
        p_items(k1, acc) is Some,
{
    lemma_std_tokens();
    lemma_std_items_input(p_declaration(k1)->0, acc);
}

proof fn lemma_std_items_output(f: PState, acc: SProgram)
    requires
        std_at(f, SpecToken::Define, 23),
        std_at(adv(f), SpecToken::Method, 26),
        p_function_def(adv(f)) matches Some((_, k)) && std_at(k, SpecToken::At, 44) && (p_declaration(k) matches Some(f2)
            && std_at(f2, SpecToken::Define, 52) && std_at(adv(f2), SpecToken::Method, 55) && (p_function_def(adv(f2)) matches Some((
            _,
            k2,
        )) && std_at(k2, SpecToken::Eof, 68))),
    ensures
        p_items(f, acc) is Some,
{
    let (func, k) = p_function_def(adv(f))->0;
    lemma_std_items_second(k, SProgram { functions: acc.functions.push(func), ..acc });
}

/// The standard library's source parses.
pub proof fn lemma_standard_library_parses()
    ensures
        parse_source_spec(STD_IO_SOURCE@) is Some,
{
    lemma_std_tokens();
    let s = STD_IO_SOURCE@;
    let st0 = start_state(s, 0, Span { start: 0, end: 0 });
    assert(std_at(st0, SpecToken::Hash, 1)) by {
        reveal(adv);
    }
    lemma_std_module(st0);
    let (name, k0) = p_module_def(st0)->0;
    let m = PState { module: Some(name), ..k0 };
    lemma_std_declaration(m, 15, 17, 20, 23);
    let f1 = p_declaration(m)->0;
    let g1 = adv(f1);
    assert(std_at(g1, SpecToken::Method, 26) && g1.external_pending && !g1.entry_pending) by {
        reveal(adv);
    }
    lemma_std_output(g1);
    let (_, k1) = p_function_def(g1)->0;
    lemma_std_declaration(k1, 44, 46, 49, 52);
    let f2 = p_declaration(k1)->0;
    let g2 = adv(f2);
    assert(std_at(g2, SpecToken::Method, 55) && g2.external_pending) by {
        reveal(adv);
    }
    lemma_std_input(g2);
    let acc = SProgram {
        has_entry: false,
        modules: Seq::empty(),
        imports: Seq::empty(),
        structs: Seq::empty(),
        objects: Seq::empty(),
        functions: Seq::empty(),
    };
    lemma_std_items_output(f1, SProgram { modules: acc.modules.push(name), ..acc });
    assert(p_items(m, SProgram { modules: acc.modules.push(name), ..acc }) is Some);
    assert(p_items(st0, acc) is Some);
}

/// Parses the standard library sources into one program. They always parse
/// (see `lemma_standard_library_parses`).
pub fn parse_standard_library() -> (r: Result<Program, String>)
    ensures
        r matches Ok(p) && parse_source_spec(STD_IO_SOURCE@) == Some(program_view(p)) && program_shape(p),
{
    proof {
        lemma_standard_library_parses();
    }
    let mut std_program = empty_program();
    let parser = Parser::new(Lexer::new(STD_IO_SOURCE));
    let parsed = parser.parse_program()?;
    let ghost before = std_program;
    merge_programs(&mut std_program, parsed);
    proof {
        assert(before.modules@ + parsed.modules@ =~= parsed.modules@);
        assert(before.imports@ + parsed.imports@ =~= parsed.imports@);
        assert(before.structs@ + parsed.structs@ =~= parsed.structs@);
        assert(before.functions@ + parsed.functions@ =~= parsed.functions@);
        assert(before.objects@ + parsed.objects@ =~= parsed.objects@);
        assert(std_program.modules@ == parsed.modules@);
        assert(std_program.imports@ == parsed.imports@);
        assert(std_program.structs@ == parsed.structs@);
        assert(std_program.functions@ == parsed.functions@);
        assert(std_program.objects@ == parsed.objects@);
        assert(program_view(std_program) == program_view(parsed));
    }
    Ok(std_program)
}

/// The program with the standard library's declarations in front of its
/// own, so that its imports of the standard library resolve. As the
/// standard library always parses, this always succeeds.
pub fn merge_with_standard_library(program: Program) -> (r: Result<Program, String>)
    ensures
        r matches Ok(q) && parse_source_spec(STD_IO_SOURCE@) matches Some(lib) && program_view(q) == prepended_view(
            lib,
            program_view(program),
        ),
        r matches Ok(q) ==> (program_shape(program) ==> program_shape(q)),
{
    let ghost original = program;
    let std_program = match parse_standard_library() {
        Ok(p) => p,
        Err(e) => {
            return Err(e);
        },
    };
    let ghost s = std_program;
    assert(program_shape(s));
    let mut merged = program;
    prepend_program(&mut merged, std_program);
    proof {
        assert(prepended(merged, s, original));
        lemma_prepended_view(merged, s, original);
        if program_shape(original) {
            lemma_prepend_keeps_shape(merged, s, original);
        }
    }
    Ok(merged)
}

/// The native symbol that a standard-library function is linked against.
pub fn external_symbol_for(path: &str) -> (r: Option<String>)
    ensures
        match r {
            Some(x) => external_symbol_spec(path@) == Some(x@),
            None => external_symbol_spec(path@) is None,
        },
{
    let p = owned(path);
    if str_is(&p, STD_IO_OUTPUT_PATH) {
        Some(owned("as_std_io_output"))
    } else if str_is(&p, STD_IO_INPUT_PATH) {
        Some(owned("as_std_io_input_int"))
    } else {
        None
    }
}

} // verus!
