use vstd::prelude::*;

use crate::text::{lemma_strs_push, lemma_strs_take_all, lemma_strs_take_push, strs};

verus! {

/// A named file type and the glob patterns that select its files.
#[derive(Debug, Clone)]
pub struct FileTypeDef {
    pub name: String,
    pub globs: Vec<String>,
}

impl View for FileTypeDef {
    type V = (Seq<char>, Seq<Seq<char>>);

    open spec fn view(&self) -> (Seq<char>, Seq<Seq<char>>) {
        (self.name@, self.globs@.map_values(|g: String| g@))
    }
}

/// The built-in table of file types, as (name, globs) pairs, in order.
pub open spec fn builtin_table() -> Seq<(Seq<char>, Seq<Seq<char>>)> {
    seq![
        ("rust"@, seq!["*.rs"@]),
        ("rs"@, seq!["*.rs"@]),
        ("python"@, seq!["*.py"@]),
        ("py"@, seq!["*.py"@]),
        ("js"@, seq!["*.js"@, "*.jsx"@]),
        ("ts"@, seq!["*.ts"@, "*.tsx"@]),
        ("html"@, seq!["*.html"@, "*.htm"@]),
        ("css"@, seq!["*.css"@, "*.scss"@, "*.sass"@, "*.less"@]),
        ("json"@, seq!["*.json"@]),
        ("toml"@, seq!["*.toml"@]),
        ("yaml"@, seq!["*.yaml"@, "*.yml"@]),
        ("md"@, seq!["*.md"@, "*.markdown"@]),
        ("c"@, seq!["*.c"@, "*.h"@]),
        ("cpp"@, seq!["*.cpp"@, "*.cc"@, "*.hpp"@, "*.h"@]),
        ("java"@, seq!["*.java"@]),
        ("go"@, seq!["*.go"@]),
        ("rb"@, seq!["*.rb"@]),
        ("php"@, seq!["*.php"@]),
        ("sh"@, seq!["*.sh"@, "*.bash"@]),
        ("text"@, seq!["*.txt"@]),
        ("min"@, seq!["*.min.js"@, "*.min.css"@]),
    ]
}

pub open spec fn defs_view(defs: Seq<FileTypeDef>) -> Seq<(Seq<char>, Seq<Seq<char>>)> {
    defs.map_values(|d: FileTypeDef| d@)
}

fn owned(s: &str) -> (r: String)
    ensures
        r@ == s@,
{
    String::from_str(s)
}

fn file_type1(name: &str, a: &str) -> (def: FileTypeDef)
    ensures
        def@ == (name@, seq![a@]),
{
    let def = FileTypeDef { name: owned(name), globs: vec![owned(a)] };
    assert(def@.1 =~= seq![a@]);
    def
}

fn file_type2(name: &str, a: &str, b: &str) -> (def: FileTypeDef)
    ensures
        def@ == (name@, seq![a@, b@]),
{
    let def = FileTypeDef { name: owned(name), globs: vec![owned(a), owned(b)] };
    assert(def@.1 =~= seq![a@, b@]);
    def
}

fn file_type4(name: &str, a: &str, b: &str, c: &str, d: &str) -> (def: FileTypeDef)
    ensures
        def@ == (name@, seq![a@, b@, c@, d@]),
{
    let def = FileTypeDef { name: owned(name), globs: vec![owned(a), owned(b), owned(c), owned(d)] };
    assert(def@.1 =~= seq![a@, b@, c@, d@]);
    def
}

/// The built-in file type aliases that `--type` and `--type-not` accept.
pub fn builtin_file_types() -> (defs: Vec<FileTypeDef>)
    ensures
        defs_view(defs@) == builtin_table(),
{
    let defs = vec![
        file_type1("rust", "*.rs"),
        file_type1("rs", "*.rs"),
        file_type1("python", "*.py"),
        file_type1("py", "*.py"),
        file_type2("js", "*.js", "*.jsx"),
        file_type2("ts", "*.ts", "*.tsx"),
        file_type2("html", "*.html", "*.htm"),
        file_type4("css", "*.css", "*.scss", "*.sass", "*.less"),
        file_type1("json", "*.json"),
        file_type1("toml", "*.toml"),
        file_type2("yaml", "*.yaml", "*.yml"),
        file_type2("md", "*.md", "*.markdown"),
        file_type2("c", "*.c", "*.h"),
        file_type4("cpp", "*.cpp", "*.cc", "*.hpp", "*.h"),
        file_type1("java", "*.java"),
        file_type1("go", "*.go"),
        file_type1("rb", "*.rb"),
        file_type1("php", "*.php"),
        file_type2("sh", "*.sh", "*.bash"),
        file_type1("text", "*.txt"),
        file_type2("min", "*.min.js", "*.min.css"),
    ];
    assert(defs_view(defs@) =~= builtin_table());
    defs
}


/// The globs a type contributes: as they are when included, each behind a
/// `!` when excluded.
pub open spec fn marked(globs: Seq<Seq<char>>, included: bool) -> Seq<Seq<char>> {
    if included {
        globs
    } else {
        globs.map_values(|g: Seq<char>| "!"@ + g)
    }
}

/// The globs of every entry of `table` whose name is `t`, in table order.
pub open spec fn globs_of_type(
    table: Seq<(Seq<char>, Seq<Seq<char>>)>,
    t: Seq<char>,
    included: bool,
) -> Seq<Seq<char>>
    decreases table.len(),
{
    if table.len() == 0 {
        seq![]
    } else {
        globs_of_type(table.drop_last(), t, included) + (if table.last().0 == t {
            marked(table.last().1, included)
        } else {
            seq![]
        })
    }
}

/// The globs that the type names `types` select, type by type, from the
/// built-in table; an unknown name selects nothing.
pub open spec fn type_globs(types: Seq<Seq<char>>, included: bool) -> Seq<Seq<char>>
    decreases types.len(),
{
    if types.len() == 0 {
        seq![]
    } else {
        type_globs(types.drop_last(), included) + globs_of_type(builtin_table(), types.last(), included)
    }
}

fn push_marked(globs: &Vec<String>, included: bool, out: &mut Vec<String>)
    ensures
        strs(final(out)@) == strs(old(out)@) + marked(strs(globs@), included),
{
    let ghost start = strs(out@);
    let mut k: usize = 0;
    while k < globs.len()
        invariant
            k <= globs.len(),
            strs(out@) == start + marked(strs(globs@.take(k as int)), included),
        decreases globs.len() - k,
    {
        proof {
            lemma_strs_take_push(globs@, k as int);
            lemma_strs_push(out@, globs@[k as int]);
        }
        let g = if included {
            globs[k].clone()
        } else {
            String::from_str("!").concat(globs[k].as_str())
        };
        proof {
            lemma_strs_push(out@, g);
            let before = strs(globs@.take(k as int));
            if !included {
                assert(marked(before.push(globs@[k as int]@), included) =~= marked(before, included).push(g@));
            }
        }
        out.push(g);
        k = k + 1;
    }
    proof {
        lemma_strs_take_all(globs@);
    }
}

fn push_type_globs(t: &String, defs: &Vec<FileTypeDef>, included: bool, out: &mut Vec<String>)
    ensures
        strs(final(out)@) == strs(old(out)@) + globs_of_type(defs_view(defs@), t@, included),
{
    let ghost start = strs(out@);
    let mut j: usize = 0;
    while j < defs.len()
        invariant
            j <= defs.len(),
            strs(out@) == start + globs_of_type(defs_view(defs@.take(j as int)), t@, included),
        decreases defs.len() - j,
    {
        let ghost prev = strs(out@);
        proof {
            assert(defs_view(defs@.take(j + 1)).drop_last() =~= defs_view(defs@.take(j as int)));
            assert(defs_view(defs@.take(j + 1)).last() == defs@[j as int]@);
        }
        if defs[j].name == *t {
            push_marked(&defs[j].globs, included, out);
            assert(strs(out@) =~= start + globs_of_type(defs_view(defs@.take(j + 1)), t@, included));
        } else {
            assert(strs(out@) =~= start + globs_of_type(defs_view(defs@.take(j + 1)), t@, included));
        }
        j = j + 1;
    }
    assert(defs@.take(defs.len() as int) =~= defs@);
}

/// The globs that the file type names in `types` stand for, in the order of
/// `types` and then of the built-in table; with `included` false each glob
/// gets a leading `!`, which marks it as an exclusion.
pub fn type_to_globs(types: &[String], included: bool) -> (globs: Vec<String>)
    ensures
        strs(globs@) == type_globs(strs(types@), included),
{
    let mut globs: Vec<String> = Vec::new();
    let builtin = builtin_file_types();
    let mut i: usize = 0;
    while i < types.len()
        invariant
            i <= types.len(),
            defs_view(builtin@) == builtin_table(),
            strs(globs@) == type_globs(strs(types@.take(i as int)), included),
        decreases types.len() - i,
    {
        proof {
            lemma_strs_take_push(types@, i as int);
            assert(strs(types@.take(i + 1)).drop_last() =~= strs(types@.take(i as int)));
        }
        push_type_globs(&types[i], &builtin, included, &mut globs);
        i = i + 1;
    }
    proof {
        lemma_strs_take_all(types@);
    }
    globs
}


proof fn lemma_globs_of_type_negated(table: Seq<(Seq<char>, Seq<Seq<char>>)>, t: Seq<char>)
    ensures
        globs_of_type(table, t, false) == globs_of_type(table, t, true).map_values(
            |g: Seq<char>| "!"@ + g,
        ),
    decreases table.len(),
{
    if table.len() > 0 {
        lemma_globs_of_type_negated(table.drop_last(), t);
        assert(globs_of_type(table, t, false) =~= globs_of_type(table, t, true).map_values(
            |g: Seq<char>| "!"@ + g,
        ));
    } else {
        assert(globs_of_type(table, t, false) =~= globs_of_type(table, t, true).map_values(
            |g: Seq<char>| "!"@ + g,
        ));
    }
}

/// Excluding a list of types gives the same globs as including it, each
/// behind a `!`: `type_to_globs(types, false)` negates `type_to_globs(types, true)`
/// glob by glob.
pub proof fn law_excluded_types_are_negated_includes(types: Seq<Seq<char>>)
    ensures
        type_globs(types, false) == type_globs(types, true).map_values(|g: Seq<char>| "!"@ + g),
    decreases types.len(),
{
    if types.len() > 0 {
        law_excluded_types_are_negated_includes(types.drop_last());
        lemma_globs_of_type_negated(builtin_table(), types.last());
    }
    assert(type_globs(types, false) =~= type_globs(types, true).map_values(
        |g: Seq<char>| "!"@ + g,
    ));
}

/// The globs of the entries of `table` named `t`, from entry `i` on.
spec fn globs_from(table: Seq<(Seq<char>, Seq<Seq<char>>)>, t: Seq<char>, i: int) -> Seq<Seq<char>>
    decreases table.len() - i,
{
    if i < 0 || i >= table.len() {
        seq![]
    } else {
        (if table[i].0 == t {
            table[i].1
        } else {
            seq![]
        }) + globs_from(table, t, i + 1)
    }
}

proof fn lemma_globs_from(table: Seq<(Seq<char>, Seq<Seq<char>>)>, t: Seq<char>, i: int)
    requires
        0 <= i <= table.len(),
    ensures
        globs_of_type(table, t, true) == globs_of_type(table.take(i), t, true) + globs_from(table, t, i),
    decreases table.len() - i,
{
    if i == table.len() {
        assert(table.take(i) =~= table);
        assert(globs_of_type(table, t, true) + globs_from(table, t, i) =~= globs_of_type(table, t, true));
    } else {
        lemma_globs_from(table, t, i + 1);
        assert(table.take(i + 1).drop_last() =~= table.take(i));
        assert(table.take(i + 1).last() == table[i]);
        let entry = if table[i].0 == t {
            table[i].1
        } else {
            Seq::<Seq<char>>::empty()
        };
        assert(globs_of_type(table.take(i + 1), t, true) == globs_of_type(table.take(i), t, true) + entry);
        assert(globs_from(table, t, i) == entry + globs_from(table, t, i + 1));
        assert(globs_of_type(table.take(i), t, true) + entry + globs_from(table, t, i + 1)
            =~= globs_of_type(table.take(i), t, true) + (entry + globs_from(table, t, i + 1)));
    }
}

/// The globs a type name selects from the built-in table, read front to back.
proof fn lemma_builtin_globs_from(t: Seq<char>)
    ensures
        globs_of_type(builtin_table(), t, true) == globs_from(builtin_table(), t, 0),
{
    lemma_globs_from(builtin_table(), t, 0);
    assert(globs_of_type(builtin_table().take(0), t, true) =~= Seq::<Seq<char>>::empty());
    assert(Seq::<Seq<char>>::empty() + globs_from(builtin_table(), t, 0) =~= globs_from(builtin_table(), t, 0));
}

/// A number that tells the built-in type names apart: made of a name's
/// length, first and last character.
spec fn name_key(s: Seq<char>) -> int {
    if s.len() == 0 {
        0
    } else {
        s.len() * 1000000 + (s[0] as int) * 1000 + (s.last() as int)
    }
}

/// The entries of the built-in table, each with the key of its name.
proof fn lemma_builtin_entries()
    ensures
        builtin_table().len() == 21,
        builtin_table()[0] == ("rust"@, seq!["*.rs"@]),
        name_key("rust"@) == 4114116,
        builtin_table()[1] == ("rs"@, seq!["*.rs"@]),
        name_key("rs"@) == 2114115,
        builtin_table()[2] == ("python"@, seq!["*.py"@]),
        name_key("python"@) == 6112110,
        builtin_table()[3] == ("py"@, seq!["*.py"@]),
        name_key("py"@) == 2112121,
        builtin_table()[4] == ("js"@, seq!["*.js"@, "*.jsx"@]),
        name_key("js"@) == 2106115,
        builtin_table()[5] == ("ts"@, seq!["*.ts"@, "*.tsx"@]),
        name_key("ts"@) == 2116115,
        builtin_table()[6] == ("html"@, seq!["*.html"@, "*.htm"@]),
        name_key("html"@) == 4104108,
        builtin_table()[7] == ("css"@, seq!["*.css"@, "*.scss"@, "*.sass"@, "*.less"@]),
        name_key("css"@) == 3099115,
        builtin_table()[8] == ("json"@, seq!["*.json"@]),
        name_key("json"@) == 4106110,
        builtin_table()[9] == ("toml"@, seq!["*.toml"@]),
        name_key("toml"@) == 4116108,
        builtin_table()[10] == ("yaml"@, seq!["*.yaml"@, "*.yml"@]),
        name_key("yaml"@) == 4121108,
        builtin_table()[11] == ("md"@, seq!["*.md"@, "*.markdown"@]),
        name_key("md"@) == 2109100,
        builtin_table()[12] == ("c"@, seq!["*.c"@, "*.h"@]),
        name_key("c"@) == 1099099,
        builtin_table()[13] == ("cpp"@, seq!["*.cpp"@, "*.cc"@, "*.hpp"@, "*.h"@]),
        name_key("cpp"@) == 3099112,
        builtin_table()[14] == ("java"@, seq!["*.java"@]),
        name_key("java"@) == 4106097,
        builtin_table()[15] == ("go"@, seq!["*.go"@]),
        name_key("go"@) == 2103111,
        builtin_table()[16] == ("rb"@, seq!["*.rb"@]),
        name_key("rb"@) == 2114098,
        builtin_table()[17] == ("php"@, seq!["*.php"@]),
        name_key("php"@) == 3112112,
        builtin_table()[18] == ("sh"@, seq!["*.sh"@, "*.bash"@]),
        name_key("sh"@) == 2115104,
        builtin_table()[19] == ("text"@, seq!["*.txt"@]),
        name_key("text"@) == 4116116,
        builtin_table()[20] == ("min"@, seq!["*.min.js"@, "*.min.css"@]),
        name_key("min"@) == 3109110,
{
    reveal_strlit("rust");
    reveal_strlit("rs");
    reveal_strlit("python");
    reveal_strlit("py");
    reveal_strlit("js");
    reveal_strlit("ts");
    reveal_strlit("html");
    reveal_strlit("css");
    reveal_strlit("json");
    reveal_strlit("toml");
    reveal_strlit("yaml");
    reveal_strlit("md");
    reveal_strlit("c");
    reveal_strlit("cpp");
    reveal_strlit("java");
    reveal_strlit("go");
    reveal_strlit("rb");
    reveal_strlit("php");
    reveal_strlit("sh");
    reveal_strlit("text");
    reveal_strlit("min");
}

/// The globs entry `m` of the built-in table gives for the name `t`.
spec fn entry_globs(t: Seq<char>, m: int) -> Seq<Seq<char>> {
    if builtin_table()[m].0 == t {
        builtin_table()[m].1
    } else {
        seq![]
    }
}

/// The globs a name selects, written out entry by entry.
proof fn lemma_builtin_globs_unrolled(t: Seq<char>)
    ensures
        globs_of_type(builtin_table(), t, true) == entry_globs(t, 0) + (entry_globs(t, 1) + (entry_globs(t, 2) + (entry_globs(t, 3) + (entry_globs(t, 4) + (entry_globs(t, 5) + (entry_globs(t, 6) + (entry_globs(t, 7) + (entry_globs(t, 8) + (entry_globs(t, 9) + (entry_globs(t, 10) + (entry_globs(t, 11) + (entry_globs(t, 12) + (entry_globs(t, 13) + (entry_globs(t, 14) + (entry_globs(t, 15) + (entry_globs(t, 16) + (entry_globs(t, 17) + (entry_globs(t, 18) + (entry_globs(t, 19) + (entry_globs(t, 20))))))))))))))))))))),
{
    lemma_builtin_globs_from(t);
    let table = builtin_table();
    assert(table.len() == 21);
    assert(globs_from(table, t, 21) == Seq::<Seq<char>>::empty());
    assert(globs_from(table, t, 20) == entry_globs(t, 20) + globs_from(table, t, 21));
    assert(globs_from(table, t, 19) == entry_globs(t, 19) + globs_from(table, t, 20));
    assert(globs_from(table, t, 18) == entry_globs(t, 18) + globs_from(table, t, 19));
    assert(globs_from(table, t, 17) == entry_globs(t, 17) + globs_from(table, t, 18));
    assert(globs_from(table, t, 16) == entry_globs(t, 16) + globs_from(table, t, 17));
    assert(globs_from(table, t, 15) == entry_globs(t, 15) + globs_from(table, t, 16));
    assert(globs_from(table, t, 14) == entry_globs(t, 14) + globs_from(table, t, 15));
    assert(globs_from(table, t, 13) == entry_globs(t, 13) + globs_from(table, t, 14));
    assert(globs_from(table, t, 12) == entry_globs(t, 12) + globs_from(table, t, 13));
    assert(globs_from(table, t, 11) == entry_globs(t, 11) + globs_from(table, t, 12));
    assert(globs_from(table, t, 10) == entry_globs(t, 10) + globs_from(table, t, 11));
    assert(globs_from(table, t, 9) == entry_globs(t, 9) + globs_from(table, t, 10));
    assert(globs_from(table, t, 8) == entry_globs(t, 8) + globs_from(table, t, 9));
    assert(globs_from(table, t, 7) == entry_globs(t, 7) + globs_from(table, t, 8));
    assert(globs_from(table, t, 6) == entry_globs(t, 6) + globs_from(table, t, 7));
    assert(globs_from(table, t, 5) == entry_globs(t, 5) + globs_from(table, t, 6));
    assert(globs_from(table, t, 4) == entry_globs(t, 4) + globs_from(table, t, 5));
    assert(globs_from(table, t, 3) == entry_globs(t, 3) + globs_from(table, t, 4));
    assert(globs_from(table, t, 2) == entry_globs(t, 2) + globs_from(table, t, 3));
    assert(globs_from(table, t, 1) == entry_globs(t, 1) + globs_from(table, t, 2));
    assert(globs_from(table, t, 0) == entry_globs(t, 0) + globs_from(table, t, 1));
    assert(globs_from(table, t, 20) =~= entry_globs(t, 20));
    assert(globs_from(table, t, 0) == entry_globs(t, 0) + (entry_globs(t, 1) + (entry_globs(t, 2) + (entry_globs(t, 3) + (entry_globs(t, 4) + (entry_globs(t, 5) + (entry_globs(t, 6) + (entry_globs(t, 7) + (entry_globs(t, 8) + (entry_globs(t, 9) + (entry_globs(t, 10) + (entry_globs(t, 11) + (entry_globs(t, 12) + (entry_globs(t, 13) + (entry_globs(t, 14) + (entry_globs(t, 15) + (entry_globs(t, 16) + (entry_globs(t, 17) + (entry_globs(t, 18) + (entry_globs(t, 19) + (entry_globs(t, 20))))))))))))))))))))));
}

/// What one type name selects is what the built-in table gives for it.
proof fn lemma_single_type_globs(t: Seq<char>)
    ensures
        type_globs(seq![t], true) == globs_of_type(builtin_table(), t, true),
{
    assert(seq![t].drop_last() =~= Seq::<Seq<char>>::empty());
    assert(type_globs(Seq::<Seq<char>>::empty(), true) == Seq::<Seq<char>>::empty());
    assert(Seq::<Seq<char>>::empty() + globs_of_type(builtin_table(), t, true) =~= globs_of_type(builtin_table(), t, true));
}

/// What each built-in type alias selects, alias by alias: `-t NAME` gives
/// exactly these globs, in this order.
pub proof fn law_builtin_alias_globs()
    ensures
        type_globs(seq!["rust"@], true) == seq!["*.rs"@],
        type_globs(seq!["rs"@], true) == seq!["*.rs"@],
        type_globs(seq!["python"@], true) == seq!["*.py"@],
        type_globs(seq!["py"@], true) == seq!["*.py"@],
        type_globs(seq!["js"@], true) == seq!["*.js"@, "*.jsx"@],
        type_globs(seq!["ts"@], true) == seq!["*.ts"@, "*.tsx"@],
        type_globs(seq!["html"@], true) == seq!["*.html"@, "*.htm"@],
        type_globs(seq!["css"@], true) == seq!["*.css"@, "*.scss"@, "*.sass"@, "*.less"@],
        type_globs(seq!["json"@], true) == seq!["*.json"@],
        type_globs(seq!["toml"@], true) == seq!["*.toml"@],
        type_globs(seq!["yaml"@], true) == seq!["*.yaml"@, "*.yml"@],
        type_globs(seq!["md"@], true) == seq!["*.md"@, "*.markdown"@],
        type_globs(seq!["c"@], true) == seq!["*.c"@, "*.h"@],
        type_globs(seq!["cpp"@], true) == seq!["*.cpp"@, "*.cc"@, "*.hpp"@, "*.h"@],
        type_globs(seq!["java"@], true) == seq!["*.java"@],
        type_globs(seq!["go"@], true) == seq!["*.go"@],
        type_globs(seq!["rb"@], true) == seq!["*.rb"@],
        type_globs(seq!["php"@], true) == seq!["*.php"@],
        type_globs(seq!["sh"@], true) == seq!["*.sh"@, "*.bash"@],
        type_globs(seq!["text"@], true) == seq!["*.txt"@],
        type_globs(seq!["min"@], true) == seq!["*.min.js"@, "*.min.css"@],
{
    lemma_builtin_entries();
    assert(globs_of_type(builtin_table(), "rust"@, true) =~= seq!["*.rs"@]) by {
        lemma_builtin_globs_unrolled("rust"@);
    }
    lemma_single_type_globs("rust"@);
    assert(globs_of_type(builtin_table(), "rs"@, true) =~= seq!["*.rs"@]) by {
        lemma_builtin_globs_unrolled("rs"@);
    }
    lemma_single_type_globs("rs"@);
    assert(globs_of_type(builtin_table(), "python"@, true) =~= seq!["*.py"@]) by {
        lemma_builtin_globs_unrolled("python"@);
    }
    lemma_single_type_globs("python"@);
    assert(globs_of_type(builtin_table(), "py"@, true) =~= seq!["*.py"@]) by {
        lemma_builtin_globs_unrolled("py"@);
    }
    lemma_single_type_globs("py"@);
    assert(globs_of_type(builtin_table(), "js"@, true) =~= seq!["*.js"@, "*.jsx"@]) by {
        lemma_builtin_globs_unrolled("js"@);
    }
    lemma_single_type_globs("js"@);
    assert(globs_of_type(builtin_table(), "ts"@, true) =~= seq!["*.ts"@, "*.tsx"@]) by {
        lemma_builtin_globs_unrolled("ts"@);
    }
    lemma_single_type_globs("ts"@);
    assert(globs_of_type(builtin_table(), "html"@, true) =~= seq!["*.html"@, "*.htm"@]) by {
        lemma_builtin_globs_unrolled("html"@);
    }
    lemma_single_type_globs("html"@);
    assert(globs_of_type(builtin_table(), "css"@, true) =~= seq!["*.css"@, "*.scss"@, "*.sass"@, "*.less"@]) by {
        lemma_builtin_globs_unrolled("css"@);
    }
    lemma_single_type_globs("css"@);
    assert(globs_of_type(builtin_table(), "json"@, true) =~= seq!["*.json"@]) by {
        lemma_builtin_globs_unrolled("json"@);
    }
    lemma_single_type_globs("json"@);
    assert(globs_of_type(builtin_table(), "toml"@, true) =~= seq!["*.toml"@]) by {
        lemma_builtin_globs_unrolled("toml"@);
    }
    lemma_single_type_globs("toml"@);
    assert(globs_of_type(builtin_table(), "yaml"@, true) =~= seq!["*.yaml"@, "*.yml"@]) by {
        lemma_builtin_globs_unrolled("yaml"@);
    }
    lemma_single_type_globs("yaml"@);
    assert(globs_of_type(builtin_table(), "md"@, true) =~= seq!["*.md"@, "*.markdown"@]) by {
        lemma_builtin_globs_unrolled("md"@);
    }
    lemma_single_type_globs("md"@);
    assert(globs_of_type(builtin_table(), "c"@, true) =~= seq!["*.c"@, "*.h"@]) by {
        lemma_builtin_globs_unrolled("c"@);
    }
    lemma_single_type_globs("c"@);
    assert(globs_of_type(builtin_table(), "cpp"@, true) =~= seq!["*.cpp"@, "*.cc"@, "*.hpp"@, "*.h"@]) by {
        lemma_builtin_globs_unrolled("cpp"@);
    }
    lemma_single_type_globs("cpp"@);
    assert(globs_of_type(builtin_table(), "java"@, true) =~= seq!["*.java"@]) by {
        lemma_builtin_globs_unrolled("java"@);
    }
    lemma_single_type_globs("java"@);
    assert(globs_of_type(builtin_table(), "go"@, true) =~= seq!["*.go"@]) by {
        lemma_builtin_globs_unrolled("go"@);
    }
    lemma_single_type_globs("go"@);
    assert(globs_of_type(builtin_table(), "rb"@, true) =~= seq!["*.rb"@]) by {
        lemma_builtin_globs_unrolled("rb"@);
    }
    lemma_single_type_globs("rb"@);
    assert(globs_of_type(builtin_table(), "php"@, true) =~= seq!["*.php"@]) by {
        lemma_builtin_globs_unrolled("php"@);
    }
    lemma_single_type_globs("php"@);
    assert(globs_of_type(builtin_table(), "sh"@, true) =~= seq!["*.sh"@, "*.bash"@]) by {
        lemma_builtin_globs_unrolled("sh"@);
    }
    lemma_single_type_globs("sh"@);
    assert(globs_of_type(builtin_table(), "text"@, true) =~= seq!["*.txt"@]) by {
        lemma_builtin_globs_unrolled("text"@);
    }
    lemma_single_type_globs("text"@);
    assert(globs_of_type(builtin_table(), "min"@, true) =~= seq!["*.min.js"@, "*.min.css"@]) by {
        lemma_builtin_globs_unrolled("min"@);
    }
    lemma_single_type_globs("min"@);
}

/// Type names are read one after the other: the globs of a list of names
/// are the globs of its first part followed by those of the rest.
pub proof fn law_type_globs_concatenate(a: Seq<Seq<char>>, b: Seq<Seq<char>>, included: bool)
    ensures
        type_globs(a + b, included) == type_globs(a, included) + type_globs(b, included),
    decreases b.len(),
{
    if b.len() == 0 {
        assert(a + b =~= a);
        assert(type_globs(a, included) + type_globs(b, included) =~= type_globs(a, included));
    } else {
        law_type_globs_concatenate(a, b.drop_last(), included);
        assert((a + b).drop_last() =~= a + b.drop_last());
        assert((a + b).last() == b.last());
        assert(type_globs(a + b, included) =~= type_globs(a, included) + type_globs(b, included));
    }
}

} // verus!
