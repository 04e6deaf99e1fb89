//! SPDX header extraction: the first lines of a source file are searched
//! for an `SPDX-License-Identifier:` line.
use vstd::prelude::*;
use crate::catalog::{char_rows, lemma_split_nonempty, split_chars, split_on};
use crate::spdx::{SpdxExpr, SpdxExprView, parse_spdx_expr, parse_spec};
use crate::text::{chars_of, has_prefix, string_from, string_from_range, str_eq, trim, trim_chars, chars_start_with};

verus! {

/// Number of lines searched for a header.
pub open spec fn max_header_lines() -> nat {
    15
}

/// Comment prefix used for a file extension.
pub open spec fn comment_prefix_spec(ext: Seq<char>) -> Seq<char> {
    if ext == "rs"@ || ext == "zig"@ || ext == "js"@ || ext == "ts"@ || ext == "jsx"@ || ext
        == "tsx"@ || ext == "res"@ || ext == "resi"@ || ext == "go"@ || ext == "c"@ || ext
        == "h"@ || ext == "cpp"@ || ext == "hpp"@ || ext == "java"@ || ext == "kt"@ || ext
        == "scala"@ || ext == "pony"@ || ext == "v"@ {
        "//"@
    } else if ext == "idr"@ || ext == "hs"@ || ext == "ml"@ || ext == "mli"@ || ext == "ada"@
        || ext == "adb"@ || ext == "ads"@ {
        "--"@
    } else if ext == "ex"@ || ext == "exs"@ || ext == "gleam"@ || ext == "nim"@ || ext == "py"@
        || ext == "rb"@ || ext == "sh"@ || ext == "bash"@ || ext == "zsh"@ || ext == "toml"@
        || ext == "yaml"@ || ext == "yml"@ || ext == "ncl"@ || ext == "nix"@ || ext == "jl"@ {
        "#"@
    } else if ext == "scm"@ {
        ";;"@
    } else {
        "//"@
    }
}

/// The comment prefix for a file extension (`//` when unknown).
pub fn comment_prefix(ext: &str) -> (r: &'static str)
    ensures
        r@ == comment_prefix_spec(ext@),
{
    if str_eq(ext, "rs") || str_eq(ext, "zig") || str_eq(ext, "js") || str_eq(ext, "ts")
        || str_eq(ext, "jsx") || str_eq(ext, "tsx") || str_eq(ext, "res") || str_eq(ext, "resi")
        || str_eq(ext, "go") || str_eq(ext, "c") || str_eq(ext, "h") || str_eq(ext, "cpp")
        || str_eq(ext, "hpp") || str_eq(ext, "java") || str_eq(ext, "kt") || str_eq(ext, "scala")
        || str_eq(ext, "pony") || str_eq(ext, "v") {
        "//"
    } else if str_eq(ext, "idr") || str_eq(ext, "hs") || str_eq(ext, "ml") || str_eq(ext, "mli")
        || str_eq(ext, "ada") || str_eq(ext, "adb") || str_eq(ext, "ads") {
        "--"
    } else if str_eq(ext, "ex") || str_eq(ext, "exs") || str_eq(ext, "gleam") || str_eq(ext, "nim")
        || str_eq(ext, "py") || str_eq(ext, "rb") || str_eq(ext, "sh") || str_eq(ext, "bash")
        || str_eq(ext, "zsh") || str_eq(ext, "toml") || str_eq(ext, "yaml") || str_eq(ext, "yml")
        || str_eq(ext, "ncl") || str_eq(ext, "nix") || str_eq(ext, "jl") {
        "#"
    } else if str_eq(ext, "scm") {
        ";;"
    } else {
        "//"
    }
}

/// The file extensions that should carry SPDX headers.
pub open spec fn auditable_extensions() -> Seq<Seq<char>> {
    seq![
        "rs"@, "zig"@, "idr"@, "js"@, "ts"@, "jsx"@, "tsx"@, "res"@, "resi"@, "ex"@, "exs"@,
        "gleam"@, "jl"@, "hs"@, "ml"@, "mli"@, "nim"@, "pony"@, "py"@, "rb"@, "go"@, "c"@, "h"@,
        "cpp"@, "hpp"@, "java"@, "kt"@, "scala"@, "sh"@, "bash"@, "zsh"@, "toml"@, "yaml"@,
        "yml"@, "ncl"@, "nix"@, "scm"@, "v"@, "ada"@, "adb"@, "ads"@,
    ]
}

fn auditable_extension(i: usize) -> (r: &'static str)
    requires
        i < 41,
    ensures
        r@ == auditable_extensions()[i as int],
{
    let all: [&'static str; 41] = [
        "rs", "zig", "idr", "js", "ts", "jsx", "tsx", "res", "resi", "ex", "exs", "gleam", "jl",
        "hs", "ml", "mli", "nim", "pony", "py", "rb", "go", "c", "h", "cpp", "hpp", "java", "kt",
        "scala", "sh", "bash", "zsh", "toml", "yaml", "yml", "ncl", "nix", "scm", "v", "ada",
        "adb", "ads",
    ];
    all[i]
}

/// Whether files with this extension are audited for SPDX headers.
pub fn is_auditable(ext: &str) -> (r: bool)
    ensures
        r == auditable_extensions().contains(ext@),
{
    let mut i: usize = 0;
    assert(auditable_extensions().len() == 41);
    while i < 41
        invariant
            i <= 41,
            auditable_extensions().len() == 41,
            forall|k: int| 0 <= k < i ==> auditable_extensions()[k] != ext@,
        decreases 41 - i,
    {
        if str_eq(auditable_extension(i), ext) {
            assert(auditable_extensions()[i as int] == ext@);
            return true;
        }
        i = i + 1;
    }
    false
}

/// A line without the `\r` of a `\r\n` ending.
pub open spec fn strip_cr(l: Seq<char>) -> Seq<char> {
    if l.len() > 0 && l.last() == '\r' {
        l.drop_last()
    } else {
        l
    }
}

/// The lines of a text as `str::lines` yields them: split at `\n`, a
/// `\r` before the `\n` removed, no final empty line.
pub open spec fn lines_of(s: Seq<char>) -> Seq<Seq<char>> {
    let raw = split_on(s, '\n');
    let body = raw.subrange(0, raw.len() - 1).map_values(|l: Seq<char>| strip_cr(l));
    if raw.last().len() == 0 {
        body
    } else {
        body.push(raw.last())
    }
}

/// The line with its first comment marker (`//`, `#`, `--`, `;;`, tried
/// in that order) removed, then trimmed.
pub open spec fn uncommented(line: Seq<char>) -> Seq<char> {
    let t = trim(line);
    let s = if has_prefix(t, "//"@) {
        t.subrange(2, t.len() as int)
    } else if has_prefix(t, "#"@) {
        t.subrange(1, t.len() as int)
    } else if has_prefix(t, "--"@) {
        t.subrange(2, t.len() as int)
    } else if has_prefix(t, ";;"@) {
        t.subrange(2, t.len() as int)
    } else {
        t
    };
    trim(s)
}

/// The marker that introduces the license expression.
pub open spec fn spdx_marker() -> Seq<char> {
    "SPDX-License-Identifier:"@
}

/// The trimmed text after the marker, when the line carries one.
pub open spec fn header_value(line: Seq<char>) -> Option<Seq<char>> {
    let u = uncommented(line);
    if has_prefix(u, spdx_marker()) {
        Some(trim(u.subrange(spdx_marker().len() as int, u.len() as int)))
    } else {
        None
    }
}

/// The value of the first header line among `lines`.
pub open spec fn first_header(lines: Seq<Seq<char>>) -> Option<Seq<char>>
    decreases lines.len(),
{
    if lines.len() == 0 {
        None
    } else {
        match header_value(lines[0]) {
            Some(v) => Some(v),
            None => first_header(lines.drop_first()),
        }
    }
}

/// The raw SPDX expression text of a file: the value of the first header
/// line within the first 15 lines.
pub open spec fn raw_header(content: Seq<char>) -> Option<Seq<char>> {
    let ls = lines_of(content);
    first_header(ls.subrange(0, if ls.len() < max_header_lines() { ls.len() as int } else { max_header_lines() as int }))
}

fn strip_marker_prefix(t: &Vec<char>) -> (r: Vec<char>)
    ensures
        r@ == (if has_prefix(t@, "//"@) {
            t@.subrange(2, t@.len() as int)
        } else if has_prefix(t@, "#"@) {
            t@.subrange(1, t@.len() as int)
        } else if has_prefix(t@, "--"@) {
            t@.subrange(2, t@.len() as int)
        } else if has_prefix(t@, ";;"@) {
            t@.subrange(2, t@.len() as int)
        } else {
            t@
        }),
{
    let slash = chars_of("//");
    let hash = chars_of("#");
    let dash = chars_of("--");
    let semi = chars_of(";;");
    proof {
        reveal_strlit("//");
        reveal_strlit("#");
        reveal_strlit("--");
        reveal_strlit(";;");
    }
    let from: usize = if chars_start_with(t.as_slice(), slash.as_slice()) {
        2
    } else if chars_start_with(t.as_slice(), hash.as_slice()) {
        1
    } else if chars_start_with(t.as_slice(), dash.as_slice()) {
        2
    } else if chars_start_with(t.as_slice(), semi.as_slice()) {
        2
    } else {
        0
    };
    let mut r: Vec<char> = Vec::new();
    let mut i: usize = from;
    while i < t.len()
        invariant
            from <= i <= t@.len(),
            from <= t@.len(),
            r@ == t@.subrange(from as int, i as int),
        decreases t@.len() - i,
    {
        r.push(t[i]);
        i = i + 1;
        assert(r@ =~= t@.subrange(from as int, i as int));
    }
    assert(t@.subrange(0, t@.len() as int) =~= t@);
    r
}

fn header_value_of(line: &[char]) -> (r: Option<Vec<char>>)
    ensures
        match r {
            Some(v) => header_value(line@) == Some(v@),
            None => header_value(line@) is None,
        },
{
    let t = trim_chars(line);
    let s = strip_marker_prefix(&t);
    let u = trim_chars(s.as_slice());
    let marker = chars_of("SPDX-License-Identifier:");
    proof {
        reveal_strlit("SPDX-License-Identifier:");
    }
    if chars_start_with(u.as_slice(), marker.as_slice()) {
        let mut rest: Vec<char> = Vec::new();
        let mut i: usize = marker.len();
        while i < u.len()
            invariant
                marker@.len() <= i <= u@.len(),
                rest@ == u@.subrange(marker@.len() as int, i as int),
            decreases u@.len() - i,
        {
            rest.push(u[i]);
            i = i + 1;
            assert(rest@ =~= u@.subrange(marker@.len() as int, i as int));
        }
        Some(trim_chars(rest.as_slice()))
    } else {
        None
    }
}

fn strip_cr_vec(l: Vec<char>) -> (r: Vec<char>)
    ensures
        r@ == strip_cr(l@),
{
    let mut l = l;
    if l.len() > 0 && l[l.len() - 1] == '\r' {
        l.pop();
    }
    l
}

/// The raw SPDX expression text in a file's header lines.
pub fn extract_spdx_raw_from_content(content: &str) -> (r: Option<String>)
    ensures
        match r {
            Some(v) => raw_header(content@) == Some(v@),
            None => raw_header(content@) is None,
        },
{
    let chars = chars_of(content);
    let raw = split_chars(chars.as_slice(), '\n');
    proof {
        lemma_split_nonempty(content@, '\n');
    }
    let ghost rows = char_rows(raw@);
    let ghost ls = lines_of(content@);
    let n = raw.len();
    let ghost limit: int = if ls.len() < 15 { ls.len() as int } else { 15 };
    let mut k: usize = 0;
    assert(ls.len() == (if rows.last().len() == 0 { n - 1 } else { n as int }));
    while k < 15 && k < n && !(k + 1 == n && raw[k].len() == 0)
        invariant
            n == rows.len(),
            rows == char_rows(raw@),
            rows == split_on(content@, '\n'),
            ls == lines_of(content@),
            n >= 1,
            limit == (if ls.len() < 15 { ls.len() as int } else { 15 }),
            k <= 15,
            k <= limit,
            first_header(ls.subrange(0, limit)) == first_header(ls.subrange(k as int, limit)),
        decreases n - k,
    {
        let ghost sub = ls.subrange(k as int, limit);
        assert(k < limit);
        let line = if k + 1 < n {
            let mut l: Vec<char> = Vec::new();
            let mut i: usize = 0;
            while i < raw[k].len()
                invariant
                    k < raw@.len(),
                    i <= raw@[k as int]@.len(),
                    l@ == raw@[k as int]@.subrange(0, i as int),
                decreases raw@[k as int]@.len() - i,
            {
                l.push(raw[k][i]);
                i = i + 1;
                assert(l@ =~= raw@[k as int]@.subrange(0, i as int));
            }
            assert(l@ =~= raw@[k as int]@);
            strip_cr_vec(l)
        } else {
            let mut l: Vec<char> = Vec::new();
            let mut i: usize = 0;
            while i < raw[k].len()
                invariant
                    k < raw@.len(),
                    i <= raw@[k as int]@.len(),
                    l@ == raw@[k as int]@.subrange(0, i as int),
                decreases raw@[k as int]@.len() - i,
            {
                l.push(raw[k][i]);
                i = i + 1;
                assert(l@ =~= raw@[k as int]@.subrange(0, i as int));
            }
            assert(l@ =~= raw@[k as int]@);
            l
        };
        assert(sub[0] == ls[k as int]);
        assert(line@ == ls[k as int]);
        assert(sub.drop_first() =~= ls.subrange(k + 1, limit));
        match header_value_of(line.as_slice()) {
            Some(v) => {
                return Some(string_from(v.as_slice()));
            },
            None => {},
        }
        k = k + 1;
    }
    assert(ls.subrange(k as int, limit).len() == 0);
    None
}

/// The parsed SPDX expression of a file's header; `None` when there is no
/// header line or its expression does not parse.
pub fn extract_spdx_from_content(content: &str) -> (r: Option<SpdxExpr>)
    ensures
        match raw_header(content@) {
            None => r is None,
            Some(v) => match parse_spec(v) {
                Ok(e) => r matches Some(x) && x@ == e,
                Err(_) => r is None,
            },
        },
{
    match extract_spdx_raw_from_content(content) {
        None => None,
        Some(v) => match parse_spdx_expr(v.as_str()) {
            Ok(e) => Some(e),
            Err(_) => None,
        },
    }
}

/// Languages whose line comments start with `//`: Rust, Zig, the JavaScript family, ReScript, Go, the C family, Java, Kotlin, Scala, Pony and V.
pub open spec fn slash_comment_exts() -> Seq<Seq<char>> {
    seq!["rs"@, "zig"@, "js"@, "ts"@, "jsx"@, "tsx"@, "res"@, "resi"@, "go"@, "c"@, "h"@, "cpp"@, "hpp"@, "java"@, "kt"@, "scala"@, "pony"@, "v"@]
}

/// Languages whose line comments start with `--`, as the audit writes them: Idris, Haskell, the ML files and Ada.
pub open spec fn dash_comment_exts() -> Seq<Seq<char>> {
    seq!["idr"@, "hs"@, "ml"@, "mli"@, "ada"@, "adb"@, "ads"@]
}

/// Languages whose line comments start with `#`: Elixir, Gleam, Nim, Python, Ruby, the shells, TOML, YAML, Nickel, Nix and Julia.
pub open spec fn hash_comment_exts() -> Seq<Seq<char>> {
    seq!["ex"@, "exs"@, "gleam"@, "nim"@, "py"@, "rb"@, "sh"@, "bash"@, "zsh"@, "toml"@, "yaml"@, "yml"@, "ncl"@, "nix"@, "jl"@]
}

/// The header written for a file is a comment in its language: every
/// auditable extension belongs to one comment family, and `comment_prefix`
/// gives that family's line-comment marker (`#` for shell scripts, Python,
/// TOML, ...; `//` for Rust, C, ...; `--` for Haskell, Ada, ...; `;;` for
/// Scheme).
pub proof fn lemma_comment_prefix_by_language()
    ensures
        forall|i: int| 0 <= i < slash_comment_exts().len() ==> comment_prefix_spec(#[trigger] slash_comment_exts()[i]) == "//"@,
        forall|i: int| 0 <= i < dash_comment_exts().len() ==> comment_prefix_spec(#[trigger] dash_comment_exts()[i]) == "--"@,
        forall|i: int| 0 <= i < hash_comment_exts().len() ==> comment_prefix_spec(#[trigger] hash_comment_exts()[i]) == "#"@,
        comment_prefix_spec("scm"@) == ";;"@,
        forall|e: Seq<char>| #[trigger] auditable_extensions().contains(e) ==> slash_comment_exts().contains(e)
            || dash_comment_exts().contains(e) || hash_comment_exts().contains(e) || e == "scm"@,
{
    reveal_strlit("rs");
    reveal_strlit("zig");
    reveal_strlit("js");
    reveal_strlit("ts");
    reveal_strlit("jsx");
    reveal_strlit("tsx");
    reveal_strlit("res");
    reveal_strlit("resi");
    reveal_strlit("go");
    reveal_strlit("c");
    reveal_strlit("h");
    reveal_strlit("cpp");
    reveal_strlit("hpp");
    reveal_strlit("java");
    reveal_strlit("kt");
    reveal_strlit("scala");
    reveal_strlit("pony");
    reveal_strlit("v");
    reveal_strlit("idr");
    reveal_strlit("hs");
    reveal_strlit("ml");
    reveal_strlit("mli");
    reveal_strlit("ada");
    reveal_strlit("adb");
    reveal_strlit("ads");
    reveal_strlit("ex");
    reveal_strlit("exs");
    reveal_strlit("gleam");
    reveal_strlit("nim");
    reveal_strlit("py");
    reveal_strlit("rb");
    reveal_strlit("sh");
    reveal_strlit("bash");
    reveal_strlit("zsh");
    reveal_strlit("toml");
    reveal_strlit("yaml");
    reveal_strlit("yml");
    reveal_strlit("ncl");
    reveal_strlit("nix");
    reveal_strlit("jl");
    reveal_strlit("scm");
    reveal_strlit("//");
    reveal_strlit("--");
    reveal_strlit("#");
    reveal_strlit(";;");
    assert(comment_prefix_spec("rs"@) == "//"@) by {
    }
    assert(comment_prefix_spec("zig"@) == "//"@) by {
        assert("zig"@.len() != "rs"@.len());
    }
    assert(comment_prefix_spec("js"@) == "//"@) by {
        assert("js"@[0] != "rs"@[0]);
        assert("js"@.len() != "zig"@.len());
    }
    assert(comment_prefix_spec("ts"@) == "//"@) by {
        assert("ts"@[0] != "rs"@[0]);
        assert("ts"@.len() != "zig"@.len());
        assert("ts"@[0] != "js"@[0]);
    }
    assert(comment_prefix_spec("jsx"@) == "//"@) by {
        assert("jsx"@.len() != "rs"@.len());
        assert("jsx"@[0] != "zig"@[0]);
        assert("jsx"@.len() != "js"@.len());
        assert("jsx"@.len() != "ts"@.len());
    }
    assert(comment_prefix_spec("tsx"@) == "//"@) by {
        assert("tsx"@.len() != "rs"@.len());
        assert("tsx"@[0] != "zig"@[0]);
        assert("tsx"@.len() != "js"@.len());
        assert("tsx"@.len() != "ts"@.len());
        assert("tsx"@[0] != "jsx"@[0]);
    }
    assert(comment_prefix_spec("res"@) == "//"@) by {
        assert("res"@.len() != "rs"@.len());
        assert("res"@[0] != "zig"@[0]);
        assert("res"@.len() != "js"@.len());
        assert("res"@.len() != "ts"@.len());
        assert("res"@[0] != "jsx"@[0]);
        assert("res"@[0] != "tsx"@[0]);
    }
    assert(comment_prefix_spec("resi"@) == "//"@) by {
        assert("resi"@.len() != "rs"@.len());
        assert("resi"@.len() != "zig"@.len());
        assert("resi"@.len() != "js"@.len());
        assert("resi"@.len() != "ts"@.len());
        assert("resi"@.len() != "jsx"@.len());
        assert("resi"@.len() != "tsx"@.len());
        assert("resi"@.len() != "res"@.len());
    }
    assert(comment_prefix_spec("go"@) == "//"@) by {
        assert("go"@[0] != "rs"@[0]);
        assert("go"@.len() != "zig"@.len());
        assert("go"@[0] != "js"@[0]);
        assert("go"@[0] != "ts"@[0]);
        assert("go"@.len() != "jsx"@.len());
        assert("go"@.len() != "tsx"@.len());
        assert("go"@.len() != "res"@.len());
        assert("go"@.len() != "resi"@.len());
    }
    assert(comment_prefix_spec("c"@) == "//"@) by {
        assert("c"@.len() != "rs"@.len());
        assert("c"@.len() != "zig"@.len());
        assert("c"@.len() != "js"@.len());
        assert("c"@.len() != "ts"@.len());
        assert("c"@.len() != "jsx"@.len());
        assert("c"@.len() != "tsx"@.len());
        assert("c"@.len() != "res"@.len());
        assert("c"@.len() != "resi"@.len());
        assert("c"@.len() != "go"@.len());
    }
    assert(comment_prefix_spec("h"@) == "//"@) by {
        assert("h"@.len() != "rs"@.len());
        assert("h"@.len() != "zig"@.len());
        assert("h"@.len() != "js"@.len());
        assert("h"@.len() != "ts"@.len());
        assert("h"@.len() != "jsx"@.len());
        assert("h"@.len() != "tsx"@.len());
        assert("h"@.len() != "res"@.len());
        assert("h"@.len() != "resi"@.len());
        assert("h"@.len() != "go"@.len());
        assert("h"@[0] != "c"@[0]);
    }
    assert(comment_prefix_spec("cpp"@) == "//"@) by {
        assert("cpp"@.len() != "rs"@.len());
        assert("cpp"@[0] != "zig"@[0]);
        assert("cpp"@.len() != "js"@.len());
        assert("cpp"@.len() != "ts"@.len());
        assert("cpp"@[0] != "jsx"@[0]);
        assert("cpp"@[0] != "tsx"@[0]);
        assert("cpp"@[0] != "res"@[0]);
        assert("cpp"@.len() != "resi"@.len());
        assert("cpp"@.len() != "go"@.len());
        assert("cpp"@.len() != "c"@.len());
        assert("cpp"@.len() != "h"@.len());
    }
    assert(comment_prefix_spec("hpp"@) == "//"@) by {
        assert("hpp"@.len() != "rs"@.len());
        assert("hpp"@[0] != "zig"@[0]);
        assert("hpp"@.len() != "js"@.len());
        assert("hpp"@.len() != "ts"@.len());
        assert("hpp"@[0] != "jsx"@[0]);
        assert("hpp"@[0] != "tsx"@[0]);
        assert("hpp"@[0] != "res"@[0]);
        assert("hpp"@.len() != "resi"@.len());
        assert("hpp"@.len() != "go"@.len());
        assert("hpp"@.len() != "c"@.len());
        assert("hpp"@.len() != "h"@.len());
        assert("hpp"@[0] != "cpp"@[0]);
    }
    assert(comment_prefix_spec("java"@) == "//"@) by {
        assert("java"@.len() != "rs"@.len());
        assert("java"@.len() != "zig"@.len());
        assert("java"@.len() != "js"@.len());
        assert("java"@.len() != "ts"@.len());
        assert("java"@.len() != "jsx"@.len());
        assert("java"@.len() != "tsx"@.len());
        assert("java"@.len() != "res"@.len());
        assert("java"@[0] != "resi"@[0]);
        assert("java"@.len() != "go"@.len());
        assert("java"@.len() != "c"@.len());
        assert("java"@.len() != "h"@.len());
        assert("java"@.len() != "cpp"@.len());
        assert("java"@.len() != "hpp"@.len());
    }
    assert(comment_prefix_spec("kt"@) == "//"@) by {
        assert("kt"@[0] != "rs"@[0]);
        assert("kt"@.len() != "zig"@.len());
        assert("kt"@[0] != "js"@[0]);
        assert("kt"@[0] != "ts"@[0]);
        assert("kt"@.len() != "jsx"@.len());
        assert("kt"@.len() != "tsx"@.len());
        assert("kt"@.len() != "res"@.len());
        assert("kt"@.len() != "resi"@.len());
        assert("kt"@[0] != "go"@[0]);
        assert("kt"@.len() != "c"@.len());
        assert("kt"@.len() != "h"@.len());
        assert("kt"@.len() != "cpp"@.len());
        assert("kt"@.len() != "hpp"@.len());
        assert("kt"@.len() != "java"@.len());
    }
    assert(comment_prefix_spec("scala"@) == "//"@) by {
        assert("scala"@.len() != "rs"@.len());
        assert("scala"@.len() != "zig"@.len());
        assert("scala"@.len() != "js"@.len());
        assert("scala"@.len() != "ts"@.len());
        assert("scala"@.len() != "jsx"@.len());
        assert("scala"@.len() != "tsx"@.len());
        assert("scala"@.len() != "res"@.len());
        assert("scala"@.len() != "resi"@.len());
        assert("scala"@.len() != "go"@.len());
        assert("scala"@.len() != "c"@.len());
        assert("scala"@.len() != "h"@.len());
        assert("scala"@.len() != "cpp"@.len());
        assert("scala"@.len() != "hpp"@.len());
        assert("scala"@.len() != "java"@.len());
        assert("scala"@.len() != "kt"@.len());
    }
    assert(comment_prefix_spec("pony"@) == "//"@) by {
        assert("pony"@.len() != "rs"@.len());
        assert("pony"@.len() != "zig"@.len());
        assert("pony"@.len() != "js"@.len());
        assert("pony"@.len() != "ts"@.len());
        assert("pony"@.len() != "jsx"@.len());
        assert("pony"@.len() != "tsx"@.len());
        assert("pony"@.len() != "res"@.len());
        assert("pony"@[0] != "resi"@[0]);
        assert("pony"@.len() != "go"@.len());
        assert("pony"@.len() != "c"@.len());
        assert("pony"@.len() != "h"@.len());
        assert("pony"@.len() != "cpp"@.len());
        assert("pony"@.len() != "hpp"@.len());
        assert("pony"@[0] != "java"@[0]);
        assert("pony"@.len() != "kt"@.len());
        assert("pony"@.len() != "scala"@.len());
    }
    assert(comment_prefix_spec("v"@) == "//"@) by {
        assert("v"@.len() != "rs"@.len());
        assert("v"@.len() != "zig"@.len());
        assert("v"@.len() != "js"@.len());
        assert("v"@.len() != "ts"@.len());
        assert("v"@.len() != "jsx"@.len());
        assert("v"@.len() != "tsx"@.len());
        assert("v"@.len() != "res"@.len());
        assert("v"@.len() != "resi"@.len());
        assert("v"@.len() != "go"@.len());
        assert("v"@[0] != "c"@[0]);
        assert("v"@[0] != "h"@[0]);
        assert("v"@.len() != "cpp"@.len());
        assert("v"@.len() != "hpp"@.len());
        assert("v"@.len() != "java"@.len());
        assert("v"@.len() != "kt"@.len());
        assert("v"@.len() != "scala"@.len());
        assert("v"@.len() != "pony"@.len());
    }
    assert(comment_prefix_spec("idr"@) == "--"@) by {
        assert("idr"@.len() != "rs"@.len());
        assert("idr"@[0] != "zig"@[0]);
        assert("idr"@.len() != "js"@.len());
        assert("idr"@.len() != "ts"@.len());
        assert("idr"@[0] != "jsx"@[0]);
        assert("idr"@[0] != "tsx"@[0]);
        assert("idr"@[0] != "res"@[0]);
        assert("idr"@.len() != "resi"@.len());
        assert("idr"@.len() != "go"@.len());
        assert("idr"@.len() != "c"@.len());
        assert("idr"@.len() != "h"@.len());
        assert("idr"@[0] != "cpp"@[0]);
        assert("idr"@[0] != "hpp"@[0]);
        assert("idr"@.len() != "java"@.len());
        assert("idr"@.len() != "kt"@.len());
        assert("idr"@.len() != "scala"@.len());
        assert("idr"@.len() != "pony"@.len());
        assert("idr"@.len() != "v"@.len());
    }
    assert(comment_prefix_spec("hs"@) == "--"@) by {
        assert("hs"@[0] != "rs"@[0]);
        assert("hs"@.len() != "zig"@.len());
        assert("hs"@[0] != "js"@[0]);
        assert("hs"@[0] != "ts"@[0]);
        assert("hs"@.len() != "jsx"@.len());
        assert("hs"@.len() != "tsx"@.len());
        assert("hs"@.len() != "res"@.len());
        assert("hs"@.len() != "resi"@.len());
        assert("hs"@[0] != "go"@[0]);
        assert("hs"@.len() != "c"@.len());
        assert("hs"@.len() != "h"@.len());
        assert("hs"@.len() != "cpp"@.len());
        assert("hs"@.len() != "hpp"@.len());
        assert("hs"@.len() != "java"@.len());
        assert("hs"@[0] != "kt"@[0]);
        assert("hs"@.len() != "scala"@.len());
        assert("hs"@.len() != "pony"@.len());
        assert("hs"@.len() != "v"@.len());
        assert("hs"@.len() != "idr"@.len());
    }
    assert(comment_prefix_spec("ml"@) == "--"@) by {
        assert("ml"@[0] != "rs"@[0]);
        assert("ml"@.len() != "zig"@.len());
        assert("ml"@[0] != "js"@[0]);
        assert("ml"@[0] != "ts"@[0]);
        assert("ml"@.len() != "jsx"@.len());
        assert("ml"@.len() != "tsx"@.len());
        assert("ml"@.len() != "res"@.len());
        assert("ml"@.len() != "resi"@.len());
        assert("ml"@[0] != "go"@[0]);
        assert("ml"@.len() != "c"@.len());
        assert("ml"@.len() != "h"@.len());
        assert("ml"@.len() != "cpp"@.len());
        assert("ml"@.len() != "hpp"@.len());
        assert("ml"@.len() != "java"@.len());
        assert("ml"@[0] != "kt"@[0]);
        assert("ml"@.len() != "scala"@.len());
        assert("ml"@.len() != "pony"@.len());
        assert("ml"@.len() != "v"@.len());
        assert("ml"@.len() != "idr"@.len());
        assert("ml"@[0] != "hs"@[0]);
    }
    assert(comment_prefix_spec("mli"@) == "--"@) by {
        assert("mli"@.len() != "rs"@.len());
        assert("mli"@[0] != "zig"@[0]);
        assert("mli"@.len() != "js"@.len());
        assert("mli"@.len() != "ts"@.len());
        assert("mli"@[0] != "jsx"@[0]);
        assert("mli"@[0] != "tsx"@[0]);
        assert("mli"@[0] != "res"@[0]);
        assert("mli"@.len() != "resi"@.len());
        assert("mli"@.len() != "go"@.len());
        assert("mli"@.len() != "c"@.len());
        assert("mli"@.len() != "h"@.len());
        assert("mli"@[0] != "cpp"@[0]);
        assert("mli"@[0] != "hpp"@[0]);
        assert("mli"@.len() != "java"@.len());
        assert("mli"@.len() != "kt"@.len());
        assert("mli"@.len() != "scala"@.len());
        assert("mli"@.len() != "pony"@.len());
        assert("mli"@.len() != "v"@.len());
        assert("mli"@[0] != "idr"@[0]);
        assert("mli"@.len() != "hs"@.len());
        assert("mli"@.len() != "ml"@.len());
    }
    assert(comment_prefix_spec("ada"@) == "--"@) by {
        assert("ada"@.len() != "rs"@.len());
        assert("ada"@[0] != "zig"@[0]);
        assert("ada"@.len() != "js"@.len());
        assert("ada"@.len() != "ts"@.len());
        assert("ada"@[0] != "jsx"@[0]);
        assert("ada"@[0] != "tsx"@[0]);
        assert("ada"@[0] != "res"@[0]);
        assert("ada"@.len() != "resi"@.len());
        assert("ada"@.len() != "go"@.len());
        assert("ada"@.len() != "c"@.len());
        assert("ada"@.len() != "h"@.len());
        assert("ada"@[0] != "cpp"@[0]);
        assert("ada"@[0] != "hpp"@[0]);
        assert("ada"@.len() != "java"@.len());
        assert("ada"@.len() != "kt"@.len());
        assert("ada"@.len() != "scala"@.len());
        assert("ada"@.len() != "pony"@.len());
        assert("ada"@.len() != "v"@.len());
        assert("ada"@[0] != "idr"@[0]);
        assert("ada"@.len() != "hs"@.len());
        assert("ada"@.len() != "ml"@.len());
        assert("ada"@[0] != "mli"@[0]);
    }
    assert(comment_prefix_spec("adb"@) == "--"@) by {
        assert("adb"@.len() != "rs"@.len());
        assert("adb"@[0] != "zig"@[0]);
        assert("adb"@.len() != "js"@.len());
        assert("adb"@.len() != "ts"@.len());
        assert("adb"@[0] != "jsx"@[0]);
        assert("adb"@[0] != "tsx"@[0]);
        assert("adb"@[0] != "res"@[0]);
        assert("adb"@.len() != "resi"@.len());
        assert("adb"@.len() != "go"@.len());
        assert("adb"@.len() != "c"@.len());
        assert("adb"@.len() != "h"@.len());
        assert("adb"@[0] != "cpp"@[0]);
        assert("adb"@[0] != "hpp"@[0]);
        assert("adb"@.len() != "java"@.len());
        assert("adb"@.len() != "kt"@.len());
        assert("adb"@.len() != "scala"@.len());
        assert("adb"@.len() != "pony"@.len());
        assert("adb"@.len() != "v"@.len());
        assert("adb"@[0] != "idr"@[0]);
        assert("adb"@.len() != "hs"@.len());
        assert("adb"@.len() != "ml"@.len());
        assert("adb"@[0] != "mli"@[0]);
        assert("adb"@[2] != "ada"@[2]);
    }
    assert(comment_prefix_spec("ads"@) == "--"@) by {
        assert("ads"@.len() != "rs"@.len());
        assert("ads"@[0] != "zig"@[0]);
        assert("ads"@.len() != "js"@.len());
        assert("ads"@.len() != "ts"@.len());
        assert("ads"@[0] != "jsx"@[0]);
        assert("ads"@[0] != "tsx"@[0]);
        assert("ads"@[0] != "res"@[0]);
        assert("ads"@.len() != "resi"@.len());
        assert("ads"@.len() != "go"@.len());
        assert("ads"@.len() != "c"@.len());
        assert("ads"@.len() != "h"@.len());
        assert("ads"@[0] != "cpp"@[0]);
        assert("ads"@[0] != "hpp"@[0]);
        assert("ads"@.len() != "java"@.len());
        assert("ads"@.len() != "kt"@.len());
        assert("ads"@.len() != "scala"@.len());
        assert("ads"@.len() != "pony"@.len());
        assert("ads"@.len() != "v"@.len());
        assert("ads"@[0] != "idr"@[0]);
        assert("ads"@.len() != "hs"@.len());
        assert("ads"@.len() != "ml"@.len());
        assert("ads"@[0] != "mli"@[0]);
        assert("ads"@[2] != "ada"@[2]);
        assert("ads"@[2] != "adb"@[2]);
    }
    assert(comment_prefix_spec("ex"@) == "#"@) by {
        assert("ex"@[0] != "rs"@[0]);
        assert("ex"@.len() != "zig"@.len());
        assert("ex"@[0] != "js"@[0]);
        assert("ex"@[0] != "ts"@[0]);
        assert("ex"@.len() != "jsx"@.len());
        assert("ex"@.len() != "tsx"@.len());
        assert("ex"@.len() != "res"@.len());
        assert("ex"@.len() != "resi"@.len());
        assert("ex"@[0] != "go"@[0]);
        assert("ex"@.len() != "c"@.len());
        assert("ex"@.len() != "h"@.len());
        assert("ex"@.len() != "cpp"@.len());
        assert("ex"@.len() != "hpp"@.len());
        assert("ex"@.len() != "java"@.len());
        assert("ex"@[0] != "kt"@[0]);
        assert("ex"@.len() != "scala"@.len());
        assert("ex"@.len() != "pony"@.len());
        assert("ex"@.len() != "v"@.len());
        assert("ex"@.len() != "idr"@.len());
        assert("ex"@[0] != "hs"@[0]);
        assert("ex"@[0] != "ml"@[0]);
        assert("ex"@.len() != "mli"@.len());
        assert("ex"@.len() != "ada"@.len());
        assert("ex"@.len() != "adb"@.len());
        assert("ex"@.len() != "ads"@.len());
    }
    assert(comment_prefix_spec("exs"@) == "#"@) by {
        assert("exs"@.len() != "rs"@.len());
        assert("exs"@[0] != "zig"@[0]);
        assert("exs"@.len() != "js"@.len());
        assert("exs"@.len() != "ts"@.len());
        assert("exs"@[0] != "jsx"@[0]);
        assert("exs"@[0] != "tsx"@[0]);
        assert("exs"@[0] != "res"@[0]);
        assert("exs"@.len() != "resi"@.len());
        assert("exs"@.len() != "go"@.len());
        assert("exs"@.len() != "c"@.len());
        assert("exs"@.len() != "h"@.len());
        assert("exs"@[0] != "cpp"@[0]);
        assert("exs"@[0] != "hpp"@[0]);
        assert("exs"@.len() != "java"@.len());
        assert("exs"@.len() != "kt"@.len());
        assert("exs"@.len() != "scala"@.len());
        assert("exs"@.len() != "pony"@.len());
        assert("exs"@.len() != "v"@.len());
        assert("exs"@[0] != "idr"@[0]);
        assert("exs"@.len() != "hs"@.len());
        assert("exs"@.len() != "ml"@.len());
        assert("exs"@[0] != "mli"@[0]);
        assert("exs"@[0] != "ada"@[0]);
        assert("exs"@[0] != "adb"@[0]);
        assert("exs"@[0] != "ads"@[0]);
        assert("exs"@.len() != "ex"@.len());
    }
    assert(comment_prefix_spec("gleam"@) == "#"@) by {
        assert("gleam"@.len() != "rs"@.len());
        assert("gleam"@.len() != "zig"@.len());
        assert("gleam"@.len() != "js"@.len());
        assert("gleam"@.len() != "ts"@.len());
        assert("gleam"@.len() != "jsx"@.len());
        assert("gleam"@.len() != "tsx"@.len());
        assert("gleam"@.len() != "res"@.len());
        assert("gleam"@.len() != "resi"@.len());
        assert("gleam"@.len() != "go"@.len());
        assert("gleam"@.len() != "c"@.len());
        assert("gleam"@.len() != "h"@.len());
        assert("gleam"@.len() != "cpp"@.len());
        assert("gleam"@.len() != "hpp"@.len());
        assert("gleam"@.len() != "java"@.len());
        assert("gleam"@.len() != "kt"@.len());
        assert("gleam"@[0] != "scala"@[0]);
        assert("gleam"@.len() != "pony"@.len());
        assert("gleam"@.len() != "v"@.len());
        assert("gleam"@.len() != "idr"@.len());
        assert("gleam"@.len() != "hs"@.len());
        assert("gleam"@.len() != "ml"@.len());
        assert("gleam"@.len() != "mli"@.len());
        assert("gleam"@.len() != "ada"@.len());
        assert("gleam"@.len() != "adb"@.len());
        assert("gleam"@.len() != "ads"@.len());
        assert("gleam"@.len() != "ex"@.len());
        assert("gleam"@.len() != "exs"@.len());
    }
    assert(comment_prefix_spec("nim"@) == "#"@) by {
        assert("nim"@.len() != "rs"@.len());
        assert("nim"@[0] != "zig"@[0]);
        assert("nim"@.len() != "js"@.len());
        assert("nim"@.len() != "ts"@.len());
        assert("nim"@[0] != "jsx"@[0]);
        assert("nim"@[0] != "tsx"@[0]);
        assert("nim"@[0] != "res"@[0]);
        assert("nim"@.len() != "resi"@.len());
        assert("nim"@.len() != "go"@.len());
        assert("nim"@.len() != "c"@.len());
        assert("nim"@.len() != "h"@.len());
        assert("nim"@[0] != "cpp"@[0]);
        assert("nim"@[0] != "hpp"@[0]);
        assert("nim"@.len() != "java"@.len());
        assert("nim"@.len() != "kt"@.len());
        assert("nim"@.len() != "scala"@.len());
        assert("nim"@.len() != "pony"@.len());
        assert("nim"@.len() != "v"@.len());
        assert("nim"@[0] != "idr"@[0]);
        assert("nim"@.len() != "hs"@.len());
        assert("nim"@.len() != "ml"@.len());
        assert("nim"@[0] != "mli"@[0]);
        assert("nim"@[0] != "ada"@[0]);
        assert("nim"@[0] != "adb"@[0]);
        assert("nim"@[0] != "ads"@[0]);
        assert("nim"@.len() != "ex"@.len());
        assert("nim"@[0] != "exs"@[0]);
        assert("nim"@.len() != "gleam"@.len());
    }
    assert(comment_prefix_spec("py"@) == "#"@) by {
        assert("py"@[0] != "rs"@[0]);
        assert("py"@.len() != "zig"@.len());
        assert("py"@[0] != "js"@[0]);
        assert("py"@[0] != "ts"@[0]);
        assert("py"@.len() != "jsx"@.len());
        assert("py"@.len() != "tsx"@.len());
        assert("py"@.len() != "res"@.len());
        assert("py"@.len() != "resi"@.len());
        assert("py"@[0] != "go"@[0]);
        assert("py"@.len() != "c"@.len());
        assert("py"@.len() != "h"@.len());
        assert("py"@.len() != "cpp"@.len());
        assert("py"@.len() != "hpp"@.len());
        assert("py"@.len() != "java"@.len());
        assert("py"@[0] != "kt"@[0]);
        assert("py"@.len() != "scala"@.len());
        assert("py"@.len() != "pony"@.len());
        assert("py"@.len() != "v"@.len());
        assert("py"@.len() != "idr"@.len());
        assert("py"@[0] != "hs"@[0]);
        assert("py"@[0] != "ml"@[0]);
        assert("py"@.len() != "mli"@.len());
        assert("py"@.len() != "ada"@.len());
        assert("py"@.len() != "adb"@.len());
        assert("py"@.len() != "ads"@.len());
        assert("py"@[0] != "ex"@[0]);
        assert("py"@.len() != "exs"@.len());
        assert("py"@.len() != "gleam"@.len());
        assert("py"@.len() != "nim"@.len());
    }
    assert(comment_prefix_spec("rb"@) == "#"@) by {
        assert("rb"@[1] != "rs"@[1]);
        assert("rb"@.len() != "zig"@.len());
        assert("rb"@[0] != "js"@[0]);
        assert("rb"@[0] != "ts"@[0]);
        assert("rb"@.len() != "jsx"@.len());
        assert("rb"@.len() != "tsx"@.len());
        assert("rb"@.len() != "res"@.len());
        assert("rb"@.len() != "resi"@.len());
        assert("rb"@[0] != "go"@[0]);
        assert("rb"@.len() != "c"@.len());
        assert("rb"@.len() != "h"@.len());
        assert("rb"@.len() != "cpp"@.len());
        assert("rb"@.len() != "hpp"@.len());
        assert("rb"@.len() != "java"@.len());
        assert("rb"@[0] != "kt"@[0]);
        assert("rb"@.len() != "scala"@.len());
        assert("rb"@.len() != "pony"@.len());
        assert("rb"@.len() != "v"@.len());
        assert("rb"@.len() != "idr"@.len());
        assert("rb"@[0] != "hs"@[0]);
        assert("rb"@[0] != "ml"@[0]);
        assert("rb"@.len() != "mli"@.len());
        assert("rb"@.len() != "ada"@.len());
        assert("rb"@.len() != "adb"@.len());
        assert("rb"@.len() != "ads"@.len());
        assert("rb"@[0] != "ex"@[0]);
        assert("rb"@.len() != "exs"@.len());
        assert("rb"@.len() != "gleam"@.len());
        assert("rb"@.len() != "nim"@.len());
        assert("rb"@[0] != "py"@[0]);
    }
    assert(comment_prefix_spec("sh"@) == "#"@) by {
        assert("sh"@[0] != "rs"@[0]);
        assert("sh"@.len() != "zig"@.len());
        assert("sh"@[0] != "js"@[0]);
        assert("sh"@[0] != "ts"@[0]);
        assert("sh"@.len() != "jsx"@.len());
        assert("sh"@.len() != "tsx"@.len());
        assert("sh"@.len() != "res"@.len());
        assert("sh"@.len() != "resi"@.len());
        assert("sh"@[0] != "go"@[0]);
        assert("sh"@.len() != "c"@.len());
        assert("sh"@.len() != "h"@.len());
        assert("sh"@.len() != "cpp"@.len());
        assert("sh"@.len() != "hpp"@.len());
        assert("sh"@.len() != "java"@.len());
        assert("sh"@[0] != "kt"@[0]);
        assert("sh"@.len() != "scala"@.len());
        assert("sh"@.len() != "pony"@.len());
        assert("sh"@.len() != "v"@.len());
        assert("sh"@.len() != "idr"@.len());
        assert("sh"@[0] != "hs"@[0]);
        assert("sh"@[0] != "ml"@[0]);
        assert("sh"@.len() != "mli"@.len());
        assert("sh"@.len() != "ada"@.len());
        assert("sh"@.len() != "adb"@.len());
        assert("sh"@.len() != "ads"@.len());
        assert("sh"@[0] != "ex"@[0]);
        assert("sh"@.len() != "exs"@.len());
        assert("sh"@.len() != "gleam"@.len());
        assert("sh"@.len() != "nim"@.len());
        assert("sh"@[0] != "py"@[0]);
        assert("sh"@[0] != "rb"@[0]);
    }
    assert(comment_prefix_spec("bash"@) == "#"@) by {
        assert("bash"@.len() != "rs"@.len());
        assert("bash"@.len() != "zig"@.len());
        assert("bash"@.len() != "js"@.len());
        assert("bash"@.len() != "ts"@.len());
        assert("bash"@.len() != "jsx"@.len());
        assert("bash"@.len() != "tsx"@.len());
        assert("bash"@.len() != "res"@.len());
        assert("bash"@[0] != "resi"@[0]);
        assert("bash"@.len() != "go"@.len());
        assert("bash"@.len() != "c"@.len());
        assert("bash"@.len() != "h"@.len());
        assert("bash"@.len() != "cpp"@.len());
        assert("bash"@.len() != "hpp"@.len());
        assert("bash"@[0] != "java"@[0]);
        assert("bash"@.len() != "kt"@.len());
        assert("bash"@.len() != "scala"@.len());
        assert("bash"@[0] != "pony"@[0]);
        assert("bash"@.len() != "v"@.len());
        assert("bash"@.len() != "idr"@.len());
        assert("bash"@.len() != "hs"@.len());
        assert("bash"@.len() != "ml"@.len());
        assert("bash"@.len() != "mli"@.len());
        assert("bash"@.len() != "ada"@.len());
        assert("bash"@.len() != "adb"@.len());
        assert("bash"@.len() != "ads"@.len());
        assert("bash"@.len() != "ex"@.len());
        assert("bash"@.len() != "exs"@.len());
        assert("bash"@.len() != "gleam"@.len());
        assert("bash"@.len() != "nim"@.len());
        assert("bash"@.len() != "py"@.len());
        assert("bash"@.len() != "rb"@.len());
        assert("bash"@.len() != "sh"@.len());
    }
    assert(comment_prefix_spec("zsh"@) == "#"@) by {
        assert("zsh"@.len() != "rs"@.len());
        assert("zsh"@[1] != "zig"@[1]);
        assert("zsh"@.len() != "js"@.len());
        assert("zsh"@.len() != "ts"@.len());
        assert("zsh"@[0] != "jsx"@[0]);
        assert("zsh"@[0] != "tsx"@[0]);
        assert("zsh"@[0] != "res"@[0]);
        assert("zsh"@.len() != "resi"@.len());
        assert("zsh"@.len() != "go"@.len());
        assert("zsh"@.len() != "c"@.len());
        assert("zsh"@.len() != "h"@.len());
        assert("zsh"@[0] != "cpp"@[0]);
        assert("zsh"@[0] != "hpp"@[0]);
        assert("zsh"@.len() != "java"@.len());
        assert("zsh"@.len() != "kt"@.len());
        assert("zsh"@.len() != "scala"@.len());
        assert("zsh"@.len() != "pony"@.len());
        assert("zsh"@.len() != "v"@.len());
        assert("zsh"@[0] != "idr"@[0]);
        assert("zsh"@.len() != "hs"@.len());
        assert("zsh"@.len() != "ml"@.len());
        assert("zsh"@[0] != "mli"@[0]);
        assert("zsh"@[0] != "ada"@[0]);
        assert("zsh"@[0] != "adb"@[0]);
        assert("zsh"@[0] != "ads"@[0]);
        assert("zsh"@.len() != "ex"@.len());
        assert("zsh"@[0] != "exs"@[0]);
        assert("zsh"@.len() != "gleam"@.len());
        assert("zsh"@[0] != "nim"@[0]);
        assert("zsh"@.len() != "py"@.len());
        assert("zsh"@.len() != "rb"@.len());
        assert("zsh"@.len() != "sh"@.len());
        assert("zsh"@.len() != "bash"@.len());
    }
    assert(comment_prefix_spec("toml"@) == "#"@) by {
        assert("toml"@.len() != "rs"@.len());
        assert("toml"@.len() != "zig"@.len());
        assert("toml"@.len() != "js"@.len());
        assert("toml"@.len() != "ts"@.len());
        assert("toml"@.len() != "jsx"@.len());
        assert("toml"@.len() != "tsx"@.len());
        assert("toml"@.len() != "res"@.len());
        assert("toml"@[0] != "resi"@[0]);
        assert("toml"@.len() != "go"@.len());
        assert("toml"@.len() != "c"@.len());
        assert("toml"@.len() != "h"@.len());
        assert("toml"@.len() != "cpp"@.len());
        assert("toml"@.len() != "hpp"@.len());
        assert("toml"@[0] != "java"@[0]);
        assert("toml"@.len() != "kt"@.len());
        assert("toml"@.len() != "scala"@.len());
        assert("toml"@[0] != "pony"@[0]);
        assert("toml"@.len() != "v"@.len());
        assert("toml"@.len() != "idr"@.len());
        assert("toml"@.len() != "hs"@.len());
        assert("toml"@.len() != "ml"@.len());
        assert("toml"@.len() != "mli"@.len());
        assert("toml"@.len() != "ada"@.len());
        assert("toml"@.len() != "adb"@.len());
        assert("toml"@.len() != "ads"@.len());
        assert("toml"@.len() != "ex"@.len());
        assert("toml"@.len() != "exs"@.len());
        assert("toml"@.len() != "gleam"@.len());
        assert("toml"@.len() != "nim"@.len());
        assert("toml"@.len() != "py"@.len());
        assert("toml"@.len() != "rb"@.len());
        assert("toml"@.len() != "sh"@.len());
        assert("toml"@[0] != "bash"@[0]);
        assert("toml"@.len() != "zsh"@.len());
    }
    assert(comment_prefix_spec("yaml"@) == "#"@) by {
        assert("yaml"@.len() != "rs"@.len());
        assert("yaml"@.len() != "zig"@.len());
        assert("yaml"@.len() != "js"@.len());
        assert("yaml"@.len() != "ts"@.len());
        assert("yaml"@.len() != "jsx"@.len());
        assert("yaml"@.len() != "tsx"@.len());
        assert("yaml"@.len() != "res"@.len());
        assert("yaml"@[0] != "resi"@[0]);
        assert("yaml"@.len() != "go"@.len());
        assert("yaml"@.len() != "c"@.len());
        assert("yaml"@.len() != "h"@.len());
        assert("yaml"@.len() != "cpp"@.len());
        assert("yaml"@.len() != "hpp"@.len());
        assert("yaml"@[0] != "java"@[0]);
        assert("yaml"@.len() != "kt"@.len());
        assert("yaml"@.len() != "scala"@.len());
        assert("yaml"@[0] != "pony"@[0]);
        assert("yaml"@.len() != "v"@.len());
        assert("yaml"@.len() != "idr"@.len());
        assert("yaml"@.len() != "hs"@.len());
        assert("yaml"@.len() != "ml"@.len());
        assert("yaml"@.len() != "mli"@.len());
        assert("yaml"@.len() != "ada"@.len());
        assert("yaml"@.len() != "adb"@.len());
        assert("yaml"@.len() != "ads"@.len());
        assert("yaml"@.len() != "ex"@.len());
        assert("yaml"@.len() != "exs"@.len());
        assert("yaml"@.len() != "gleam"@.len());
        assert("yaml"@.len() != "nim"@.len());
        assert("yaml"@.len() != "py"@.len());
        assert("yaml"@.len() != "rb"@.len());
        assert("yaml"@.len() != "sh"@.len());
        assert("yaml"@[0] != "bash"@[0]);
        assert("yaml"@.len() != "zsh"@.len());
        assert("yaml"@[0] != "toml"@[0]);
    }
    assert(comment_prefix_spec("yml"@) == "#"@) by {
        assert("yml"@.len() != "rs"@.len());
        assert("yml"@[0] != "zig"@[0]);
        assert("yml"@.len() != "js"@.len());
        assert("yml"@.len() != "ts"@.len());
        assert("yml"@[0] != "jsx"@[0]);
        assert("yml"@[0] != "tsx"@[0]);
        assert("yml"@[0] != "res"@[0]);
        assert("yml"@.len() != "resi"@.len());
        assert("yml"@.len() != "go"@.len());
        assert("yml"@.len() != "c"@.len());
        assert("yml"@.len() != "h"@.len());
        assert("yml"@[0] != "cpp"@[0]);
        assert("yml"@[0] != "hpp"@[0]);
        assert("yml"@.len() != "java"@.len());
        assert("yml"@.len() != "kt"@.len());
        assert("yml"@.len() != "scala"@.len());
        assert("yml"@.len() != "pony"@.len());
        assert("yml"@.len() != "v"@.len());
        assert("yml"@[0] != "idr"@[0]);
        assert("yml"@.len() != "hs"@.len());
        assert("yml"@.len() != "ml"@.len());
        assert("yml"@[0] != "mli"@[0]);
        assert("yml"@[0] != "ada"@[0]);
        assert("yml"@[0] != "adb"@[0]);
        assert("yml"@[0] != "ads"@[0]);
        assert("yml"@.len() != "ex"@.len());
        assert("yml"@[0] != "exs"@[0]);
        assert("yml"@.len() != "gleam"@.len());
        assert("yml"@[0] != "nim"@[0]);
        assert("yml"@.len() != "py"@.len());
        assert("yml"@.len() != "rb"@.len());
        assert("yml"@.len() != "sh"@.len());
        assert("yml"@.len() != "bash"@.len());
        assert("yml"@[0] != "zsh"@[0]);
        assert("yml"@.len() != "toml"@.len());
        assert("yml"@.len() != "yaml"@.len());
    }
    assert(comment_prefix_spec("ncl"@) == "#"@) by {
        assert("ncl"@.len() != "rs"@.len());
        assert("ncl"@[0] != "zig"@[0]);
        assert("ncl"@.len() != "js"@.len());
        assert("ncl"@.len() != "ts"@.len());
        assert("ncl"@[0] != "jsx"@[0]);
        assert("ncl"@[0] != "tsx"@[0]);
        assert("ncl"@[0] != "res"@[0]);
        assert("ncl"@.len() != "resi"@.len());
        assert("ncl"@.len() != "go"@.len());
        assert("ncl"@.len() != "c"@.len());
        assert("ncl"@.len() != "h"@.len());
        assert("ncl"@[0] != "cpp"@[0]);
        assert("ncl"@[0] != "hpp"@[0]);
        assert("ncl"@.len() != "java"@.len());
        assert("ncl"@.len() != "kt"@.len());
        assert("ncl"@.len() != "scala"@.len());
        assert("ncl"@.len() != "pony"@.len());
        assert("ncl"@.len() != "v"@.len());
        assert("ncl"@[0] != "idr"@[0]);
        assert("ncl"@.len() != "hs"@.len());
        assert("ncl"@.len() != "ml"@.len());
        assert("ncl"@[0] != "mli"@[0]);
        assert("ncl"@[0] != "ada"@[0]);
        assert("ncl"@[0] != "adb"@[0]);
        assert("ncl"@[0] != "ads"@[0]);
        assert("ncl"@.len() != "ex"@.len());
        assert("ncl"@[0] != "exs"@[0]);
        assert("ncl"@.len() != "gleam"@.len());
        assert("ncl"@[1] != "nim"@[1]);
        assert("ncl"@.len() != "py"@.len());
        assert("ncl"@.len() != "rb"@.len());
        assert("ncl"@.len() != "sh"@.len());
        assert("ncl"@.len() != "bash"@.len());
        assert("ncl"@[0] != "zsh"@[0]);
        assert("ncl"@.len() != "toml"@.len());
        assert("ncl"@.len() != "yaml"@.len());
        assert("ncl"@[0] != "yml"@[0]);
    }
    assert(comment_prefix_spec("nix"@) == "#"@) by {
        assert("nix"@.len() != "rs"@.len());
        assert("nix"@[0] != "zig"@[0]);
        assert("nix"@.len() != "js"@.len());
        assert("nix"@.len() != "ts"@.len());
        assert("nix"@[0] != "jsx"@[0]);
        assert("nix"@[0] != "tsx"@[0]);
        assert("nix"@[0] != "res"@[0]);
        assert("nix"@.len() != "resi"@.len());
        assert("nix"@.len() != "go"@.len());
        assert("nix"@.len() != "c"@.len());
        assert("nix"@.len() != "h"@.len());
        assert("nix"@[0] != "cpp"@[0]);
        assert("nix"@[0] != "hpp"@[0]);
        assert("nix"@.len() != "java"@.len());
        assert("nix"@.len() != "kt"@.len());
        assert("nix"@.len() != "scala"@.len());
        assert("nix"@.len() != "pony"@.len());
        assert("nix"@.len() != "v"@.len());
        assert("nix"@[0] != "idr"@[0]);
        assert("nix"@.len() != "hs"@.len());
        assert("nix"@.len() != "ml"@.len());
        assert("nix"@[0] != "mli"@[0]);
        assert("nix"@[0] != "ada"@[0]);
        assert("nix"@[0] != "adb"@[0]);
        assert("nix"@[0] != "ads"@[0]);
        assert("nix"@.len() != "ex"@.len());
        assert("nix"@[0] != "exs"@[0]);
        assert("nix"@.len() != "gleam"@.len());
        assert("nix"@[2] != "nim"@[2]);
        assert("nix"@.len() != "py"@.len());
        assert("nix"@.len() != "rb"@.len());
        assert("nix"@.len() != "sh"@.len());
        assert("nix"@.len() != "bash"@.len());
        assert("nix"@[0] != "zsh"@[0]);
        assert("nix"@.len() != "toml"@.len());
        assert("nix"@.len() != "yaml"@.len());
        assert("nix"@[0] != "yml"@[0]);
        assert("nix"@[1] != "ncl"@[1]);
    }
    assert(comment_prefix_spec("jl"@) == "#"@) by {
        assert("jl"@[0] != "rs"@[0]);
        assert("jl"@.len() != "zig"@.len());
        assert("jl"@[1] != "js"@[1]);
        assert("jl"@[0] != "ts"@[0]);
        assert("jl"@.len() != "jsx"@.len());
        assert("jl"@.len() != "tsx"@.len());
        assert("jl"@.len() != "res"@.len());
        assert("jl"@.len() != "resi"@.len());
        assert("jl"@[0] != "go"@[0]);
        assert("jl"@.len() != "c"@.len());
        assert("jl"@.len() != "h"@.len());
        assert("jl"@.len() != "cpp"@.len());
        assert("jl"@.len() != "hpp"@.len());
        assert("jl"@.len() != "java"@.len());
        assert("jl"@[0] != "kt"@[0]);
        assert("jl"@.len() != "scala"@.len());
        assert("jl"@.len() != "pony"@.len());
        assert("jl"@.len() != "v"@.len());
        assert("jl"@.len() != "idr"@.len());
        assert("jl"@[0] != "hs"@[0]);
        assert("jl"@[0] != "ml"@[0]);
        assert("jl"@.len() != "mli"@.len());
        assert("jl"@.len() != "ada"@.len());
        assert("jl"@.len() != "adb"@.len());
        assert("jl"@.len() != "ads"@.len());
        assert("jl"@[0] != "ex"@[0]);
        assert("jl"@.len() != "exs"@.len());
        assert("jl"@.len() != "gleam"@.len());
        assert("jl"@.len() != "nim"@.len());
        assert("jl"@[0] != "py"@[0]);
        assert("jl"@[0] != "rb"@[0]);
        assert("jl"@[0] != "sh"@[0]);
        assert("jl"@.len() != "bash"@.len());
        assert("jl"@.len() != "zsh"@.len());
        assert("jl"@.len() != "toml"@.len());
        assert("jl"@.len() != "yaml"@.len());
        assert("jl"@.len() != "yml"@.len());
        assert("jl"@.len() != "ncl"@.len());
        assert("jl"@.len() != "nix"@.len());
    }
    assert(comment_prefix_spec("scm"@) == ";;"@) by {
        assert("scm"@.len() != "rs"@.len());
        assert("scm"@[0] != "zig"@[0]);
        assert("scm"@.len() != "js"@.len());
        assert("scm"@.len() != "ts"@.len());
        assert("scm"@[0] != "jsx"@[0]);
        assert("scm"@[0] != "tsx"@[0]);
        assert("scm"@[0] != "res"@[0]);
        assert("scm"@.len() != "resi"@.len());
        assert("scm"@.len() != "go"@.len());
        assert("scm"@.len() != "c"@.len());
        assert("scm"@.len() != "h"@.len());
        assert("scm"@[0] != "cpp"@[0]);
        assert("scm"@[0] != "hpp"@[0]);
        assert("scm"@.len() != "java"@.len());
        assert("scm"@.len() != "kt"@.len());
        assert("scm"@.len() != "scala"@.len());
        assert("scm"@.len() != "pony"@.len());
        assert("scm"@.len() != "v"@.len());
        assert("scm"@[0] != "idr"@[0]);
        assert("scm"@.len() != "hs"@.len());
        assert("scm"@.len() != "ml"@.len());
        assert("scm"@[0] != "mli"@[0]);
        assert("scm"@[0] != "ada"@[0]);
        assert("scm"@[0] != "adb"@[0]);
        assert("scm"@[0] != "ads"@[0]);
        assert("scm"@.len() != "ex"@.len());
        assert("scm"@[0] != "exs"@[0]);
        assert("scm"@.len() != "gleam"@.len());
        assert("scm"@[0] != "nim"@[0]);
        assert("scm"@.len() != "py"@.len());
        assert("scm"@.len() != "rb"@.len());
        assert("scm"@.len() != "sh"@.len());
        assert("scm"@.len() != "bash"@.len());
        assert("scm"@[0] != "zsh"@[0]);
        assert("scm"@.len() != "toml"@.len());
        assert("scm"@.len() != "yaml"@.len());
        assert("scm"@[0] != "yml"@[0]);
        assert("scm"@[0] != "ncl"@[0]);
        assert("scm"@[0] != "nix"@[0]);
        assert("scm"@.len() != "jl"@.len());
    }
    assert forall|i: int| 0 <= i < slash_comment_exts().len() implies comment_prefix_spec(#[trigger] slash_comment_exts()[i]) == "//"@ by {
        if i == 0 {
            assert(slash_comment_exts()[0] == "rs"@);
        } else if i == 1 {
            assert(slash_comment_exts()[1] == "zig"@);
        } else if i == 2 {
            assert(slash_comment_exts()[2] == "js"@);
        } else if i == 3 {
            assert(slash_comment_exts()[3] == "ts"@);
        } else if i == 4 {
            assert(slash_comment_exts()[4] == "jsx"@);
        } else if i == 5 {
            assert(slash_comment_exts()[5] == "tsx"@);
        } else if i == 6 {
            assert(slash_comment_exts()[6] == "res"@);
        } else if i == 7 {
            assert(slash_comment_exts()[7] == "resi"@);
        } else if i == 8 {
            assert(slash_comment_exts()[8] == "go"@);
        } else if i == 9 {
            assert(slash_comment_exts()[9] == "c"@);
        } else if i == 10 {
            assert(slash_comment_exts()[10] == "h"@);
        } else if i == 11 {
            assert(slash_comment_exts()[11] == "cpp"@);
        } else if i == 12 {
            assert(slash_comment_exts()[12] == "hpp"@);
        } else if i == 13 {
            assert(slash_comment_exts()[13] == "java"@);
        } else if i == 14 {
            assert(slash_comment_exts()[14] == "kt"@);
        } else if i == 15 {
            assert(slash_comment_exts()[15] == "scala"@);
        } else if i == 16 {
            assert(slash_comment_exts()[16] == "pony"@);
        } else if i == 17 {
            assert(slash_comment_exts()[17] == "v"@);
        }
    }
    assert forall|i: int| 0 <= i < dash_comment_exts().len() implies comment_prefix_spec(#[trigger] dash_comment_exts()[i]) == "--"@ by {
        if i == 0 {
            assert(dash_comment_exts()[0] == "idr"@);
        } else if i == 1 {
            assert(dash_comment_exts()[1] == "hs"@);
        } else if i == 2 {
            assert(dash_comment_exts()[2] == "ml"@);
        } else if i == 3 {
            assert(dash_comment_exts()[3] == "mli"@);
        } else if i == 4 {
            assert(dash_comment_exts()[4] == "ada"@);
        } else if i == 5 {
            assert(dash_comment_exts()[5] == "adb"@);
        } else if i == 6 {
            assert(dash_comment_exts()[6] == "ads"@);
        }
    }
    assert forall|i: int| 0 <= i < hash_comment_exts().len() implies comment_prefix_spec(#[trigger] hash_comment_exts()[i]) == "#"@ by {
        if i == 0 {
            assert(hash_comment_exts()[0] == "ex"@);
        } else if i == 1 {
            assert(hash_comment_exts()[1] == "exs"@);
        } else if i == 2 {
            assert(hash_comment_exts()[2] == "gleam"@);
        } else if i == 3 {
            assert(hash_comment_exts()[3] == "nim"@);
        } else if i == 4 {
            assert(hash_comment_exts()[4] == "py"@);
        } else if i == 5 {
            assert(hash_comment_exts()[5] == "rb"@);
        } else if i == 6 {
            assert(hash_comment_exts()[6] == "sh"@);
        } else if i == 7 {
            assert(hash_comment_exts()[7] == "bash"@);
        } else if i == 8 {
            assert(hash_comment_exts()[8] == "zsh"@);
        } else if i == 9 {
            assert(hash_comment_exts()[9] == "toml"@);
        } else if i == 10 {
            assert(hash_comment_exts()[10] == "yaml"@);
        } else if i == 11 {
            assert(hash_comment_exts()[11] == "yml"@);
        } else if i == 12 {
            assert(hash_comment_exts()[12] == "ncl"@);
        } else if i == 13 {
            assert(hash_comment_exts()[13] == "nix"@);
        } else if i == 14 {
            assert(hash_comment_exts()[14] == "jl"@);
        }
    }
    assert forall|e: Seq<char>| #[trigger] auditable_extensions().contains(e) implies slash_comment_exts().contains(e)
        || dash_comment_exts().contains(e) || hash_comment_exts().contains(e) || e == "scm"@ by {
        let k = choose|k: int| 0 <= k < auditable_extensions().len() && auditable_extensions()[k] == e;
        if k == 0 {
            assert(e == "rs"@);
            assert(slash_comment_exts()[0] == e);
        } else if k == 1 {
            assert(e == "zig"@);
            assert(slash_comment_exts()[1] == e);
        } else if k == 2 {
            assert(e == "idr"@);
            assert(dash_comment_exts()[0] == e);
        } else if k == 3 {
            assert(e == "js"@);
            assert(slash_comment_exts()[2] == e);
        } else if k == 4 {
            assert(e == "ts"@);
            assert(slash_comment_exts()[3] == e);
        } else if k == 5 {
            assert(e == "jsx"@);
            assert(slash_comment_exts()[4] == e);
        } else if k == 6 {
            assert(e == "tsx"@);
            assert(slash_comment_exts()[5] == e);
        } else if k == 7 {
            assert(e == "res"@);
            assert(slash_comment_exts()[6] == e);
        } else if k == 8 {
            assert(e == "resi"@);
            assert(slash_comment_exts()[7] == e);
        } else if k == 9 {
            assert(e == "ex"@);
            assert(hash_comment_exts()[0] == e);
        } else if k == 10 {
            assert(e == "exs"@);
            assert(hash_comment_exts()[1] == e);
        } else if k == 11 {
            assert(e == "gleam"@);
            assert(hash_comment_exts()[2] == e);
        } else if k == 12 {
            assert(e == "jl"@);
            assert(hash_comment_exts()[14] == e);
        } else if k == 13 {
            assert(e == "hs"@);
            assert(dash_comment_exts()[1] == e);
        } else if k == 14 {
            assert(e == "ml"@);
            assert(dash_comment_exts()[2] == e);
        } else if k == 15 {
            assert(e == "mli"@);
            assert(dash_comment_exts()[3] == e);
        } else if k == 16 {
            assert(e == "nim"@);
            assert(hash_comment_exts()[3] == e);
        } else if k == 17 {
            assert(e == "pony"@);
            assert(slash_comment_exts()[16] == e);
        } else if k == 18 {
            assert(e == "py"@);
            assert(hash_comment_exts()[4] == e);
        } else if k == 19 {
            assert(e == "rb"@);
            assert(hash_comment_exts()[5] == e);
        } else if k == 20 {
            assert(e == "go"@);
            assert(slash_comment_exts()[8] == e);
        } else if k == 21 {
            assert(e == "c"@);
            assert(slash_comment_exts()[9] == e);
        } else if k == 22 {
            assert(e == "h"@);
            assert(slash_comment_exts()[10] == e);
        } else if k == 23 {
            assert(e == "cpp"@);
            assert(slash_comment_exts()[11] == e);
        } else if k == 24 {
            assert(e == "hpp"@);
            assert(slash_comment_exts()[12] == e);
        } else if k == 25 {
            assert(e == "java"@);
            assert(slash_comment_exts()[13] == e);
        } else if k == 26 {
            assert(e == "kt"@);
            assert(slash_comment_exts()[14] == e);
        } else if k == 27 {
            assert(e == "scala"@);
            assert(slash_comment_exts()[15] == e);
        } else if k == 28 {
            assert(e == "sh"@);
            assert(hash_comment_exts()[6] == e);
        } else if k == 29 {
            assert(e == "bash"@);
            assert(hash_comment_exts()[7] == e);
        } else if k == 30 {
            assert(e == "zsh"@);
            assert(hash_comment_exts()[8] == e);
        } else if k == 31 {
            assert(e == "toml"@);
            assert(hash_comment_exts()[9] == e);
        } else if k == 32 {
            assert(e == "yaml"@);
            assert(hash_comment_exts()[10] == e);
        } else if k == 33 {
            assert(e == "yml"@);
            assert(hash_comment_exts()[11] == e);
        } else if k == 34 {
            assert(e == "ncl"@);
            assert(hash_comment_exts()[12] == e);
        } else if k == 35 {
            assert(e == "nix"@);
            assert(hash_comment_exts()[13] == e);
        } else if k == 36 {
            assert(e == "scm"@);
        } else if k == 37 {
            assert(e == "v"@);
            assert(slash_comment_exts()[17] == e);
        } else if k == 38 {
            assert(e == "ada"@);
            assert(dash_comment_exts()[4] == e);
        } else if k == 39 {
            assert(e == "adb"@);
            assert(dash_comment_exts()[5] == e);
        } else if k == 40 {
            assert(e == "ads"@);
            assert(dash_comment_exts()[6] == e);
        }
    }
}

} // verus!
