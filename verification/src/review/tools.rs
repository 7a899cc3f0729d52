//! Which files of a repository are reviewed: the file types that belong to
//! each language, and the names that the walk of the repository leaves out.
use crate::retrieval::data::str_eq;
use crate::text::{
    chars_of, ends_with, has_prefix, has_suffix, lines, lines_of, push_all, slice_chars,
    starts_with, string_of, trim, trim_char, trim_char_chars, trim_chars,
};
use vstd::prelude::*;

verus! {

// ---------------------------------------------------------------------------
// File types of each language
// ---------------------------------------------------------------------------

/// The names held in a list of strings, as a set.
pub open spec fn name_set(v: Seq<String>) -> Set<Seq<char>> {
    Set::new(|e: Seq<char>| exists|i: int| 0 <= i < v.len() && v[i]@ == e)
}

/// The names of a list of string literals, as a set.
pub open spec fn str_set(v: Seq<&str>) -> Set<Seq<char>> {
    Set::new(|e: Seq<char>| exists|i: int| 0 <= i < v.len() && v[i]@ == e)
}

/// The map that inserting the entries in order builds: a later entry for a
/// language replaces an earlier one.
pub open spec fn types_map(es: Seq<(String, Vec<String>)>) -> Map<Seq<char>, Set<Seq<char>>>
    decreases es.len(),
{
    if es.len() == 0 {
        Map::empty()
    } else {
        types_map(es.drop_last()).insert(es.last().0@, name_set(es.last().1@))
    }
}

/// The languages that are reviewed, each with the file extensions that
/// belong to it.
pub open spec fn default_language_file_types() -> Map<Seq<char>, Set<Seq<char>>> {
    Map::empty()
        .insert("Rust"@, str_set(seq!["rs", "toml", "md"]))
        .insert("Python"@, str_set(seq!["py", "md", "txt", "ini"]))
        .insert("Java"@, str_set(seq!["java", "xml", "gradle", "md", "properties"]))
        .insert("Go"@, str_set(seq!["go", "mod", "sum", "md"]))
        .insert(".Net"@, str_set(seq!["cs", "csproj", "sln", "config", "md", "xml", "ps1", "xaml"]))
        .insert(
            ".Net-Web"@,
            str_set(
                seq![
                    "cs", "cshtml", "razor", "js", "ts", "html", "css", "scss", "json", "md", "config",
                    "xml", "aspx", "ascx",
                ],
            ),
        )
        .insert("JavaScript-Node"@, str_set(seq!["js", "json", "md", "jsx"]))
        .insert("JavaScript-Web"@, str_set(seq!["js", "html", "css", "scss", "md"]))
        .insert("TypeScript"@, str_set(seq!["ts", "tsx", "json", "md"]))
        .insert("Ruby"@, str_set(seq!["rb", "erb", "rake", "md", "gemspec"]))
}

/// The file extensions that belong to each language.
pub struct LanguageFileTypes {
    types: Vec<(String, Vec<String>)>,
}

/// The strings of a list of literals.
fn names_of(xs: &[&str]) -> (r: Vec<String>)
    ensures
        name_set(r@) == str_set(xs@),
{
    let mut r: Vec<String> = Vec::new();
    let mut i: usize = 0;
    while i < xs.len()
        invariant
            i <= xs@.len(),
            r@.len() == i,
            forall|k: int| 0 <= k < i ==> (#[trigger] r@[k])@ == xs@[k]@,
        decreases xs@.len() - i,
    {
        r.push(xs[i].to_string());
        i = i + 1;
    }
    assert forall|e: Seq<char>| name_set(r@).contains(e) <==> str_set(xs@).contains(e) by {
        if name_set(r@).contains(e) {
            let k = choose|k: int| 0 <= k < r@.len() && r@[k]@ == e;
            assert(xs@[k]@ == e);
        }
        if str_set(xs@).contains(e) {
            let k = choose|k: int| 0 <= k < xs@.len() && xs@[k]@ == e;
            assert(r@[k]@ == e);
        }
    }
    assert(name_set(r@) =~= str_set(xs@));
    r
}

/// Adds a language and its extensions.
fn push_language(types: &mut Vec<(String, Vec<String>)>, name: &str, exts: &[&str])
    ensures
        types_map(final(types)@) == types_map(old(types)@).insert(name@, str_set(exts@)),
{
    let entry = (name.to_string(), names_of(exts));
    types.push(entry);
    assert(types@.drop_last() =~= old(types)@);
}

/// Looking a language up: the last entry for it counts.
proof fn lemma_types_map_found(es: Seq<(String, Vec<String>)>, k: Seq<char>, j: int)
    requires
        0 <= j < es.len(),
        es[j].0@ == k,
        forall|i: int| j < i < es.len() ==> (#[trigger] es[i]).0@ != k,
    ensures
        types_map(es).contains_key(k),
        types_map(es)[k] == name_set(es[j].1@),
    decreases es.len(),
{
    if j < es.len() - 1 {
        let d = es.drop_last();
        assert forall|i: int| j < i < d.len() implies (#[trigger] d[i]).0@ != k by {
            assert(d[i] == es[i]);
        }
        lemma_types_map_found(d, k, j);
        assert(es.last().0@ != k);
    }
}

/// A language with no entry is not in the map.
proof fn lemma_types_map_absent(es: Seq<(String, Vec<String>)>, k: Seq<char>)
    requires
        forall|i: int| 0 <= i < es.len() ==> (#[trigger] es[i]).0@ != k,
    ensures
        !types_map(es).contains_key(k),
    decreases es.len(),
{
    if es.len() > 0 {
        let d = es.drop_last();
        assert forall|i: int| 0 <= i < d.len() implies (#[trigger] d[i]).0@ != k by {
            assert(d[i] == es[i]);
        }
        lemma_types_map_absent(d, k);
        assert(es.last().0@ != k);
    }
}

impl LanguageFileTypes {
    /// The languages and the file extensions of each.
    pub closed spec fn view(self) -> Map<Seq<char>, Set<Seq<char>>> {
        types_map(self.types@)
    }

    /// The file types of the languages that are reviewed: Rust, Python,
    /// Java, Go, .Net, .Net-Web, JavaScript-Node, JavaScript-Web,
    /// TypeScript and Ruby.
    pub fn new() -> (r: Self)
        ensures
            r@ == default_language_file_types(),
    {
        let mut types: Vec<(String, Vec<String>)> = Vec::new();
        let rust = ["rs", "toml", "md"];
        let python = ["py", "md", "txt", "ini"];
        let java = ["java", "xml", "gradle", "md", "properties"];
        let go = ["go", "mod", "sum", "md"];
        let dotnet = ["cs", "csproj", "sln", "config", "md", "xml", "ps1", "xaml"];
        let dotnet_web = [
            "cs", "cshtml", "razor", "js", "ts", "html", "css", "scss", "json", "md", "config",
            "xml", "aspx", "ascx",
        ];
        let js_node = ["js", "json", "md", "jsx"];
        let js_web = ["js", "html", "css", "scss", "md"];
        let typescript = ["ts", "tsx", "json", "md"];
        let ruby = ["rb", "erb", "rake", "md", "gemspec"];
        assert(rust@ =~= seq!["rs", "toml", "md"]);
        assert(python@ =~= seq!["py", "md", "txt", "ini"]);
        assert(java@ =~= seq!["java", "xml", "gradle", "md", "properties"]);
        assert(go@ =~= seq!["go", "mod", "sum", "md"]);
        assert(dotnet@ =~= seq!["cs", "csproj", "sln", "config", "md", "xml", "ps1", "xaml"]);
        assert(dotnet_web@ =~= seq![
            "cs", "cshtml", "razor", "js", "ts", "html", "css", "scss", "json", "md", "config",
            "xml", "aspx", "ascx",
        ]);
        assert(js_node@ =~= seq!["js", "json", "md", "jsx"]);
        assert(js_web@ =~= seq!["js", "html", "css", "scss", "md"]);
        assert(typescript@ =~= seq!["ts", "tsx", "json", "md"]);
        assert(ruby@ =~= seq!["rb", "erb", "rake", "md", "gemspec"]);
        push_language(&mut types, "Rust", &rust);
        push_language(&mut types, "Python", &python);
        push_language(&mut types, "Java", &java);
        push_language(&mut types, "Go", &go);
        push_language(&mut types, ".Net", &dotnet);
        push_language(&mut types, ".Net-Web", &dotnet_web);
        push_language(&mut types, "JavaScript-Node", &js_node);
        push_language(&mut types, "JavaScript-Web", &js_web);
        push_language(&mut types, "TypeScript", &typescript);
        push_language(&mut types, "Ruby", &ruby);
        Self { types }
    }
}

/// Whether `ext` is one of the file types of `language`: false for a
/// language that is not known.
pub fn is_valid_extension(language_file_types: &LanguageFileTypes, language: &str, ext: &str) -> (r: bool)
    ensures
        r == (language_file_types@.contains_key(language@) && language_file_types@[language@].contains(ext@)),
{
    let types = &language_file_types.types;
    let mut i: usize = types.len();
    while i > 0
        invariant
            types@ == language_file_types.types@,
            i <= types@.len(),
            forall|t: int| i <= t < types@.len() ==> (#[trigger] types@[t]).0@ != language@,
        decreases i,
    {
        i = i - 1;
        if str_eq(types[i].0.as_str(), language) {
            proof {
                lemma_types_map_found(types@, language@, i as int);
            }
            let exts = &types[i].1;
            let mut j: usize = 0;
            while j < exts.len()
                invariant
                    types@ == language_file_types.types@,
                    0 <= i < types@.len(),
                    exts@ == types@[i as int].1@,
                    types_map(types@).contains_key(language@),
                    types_map(types@)[language@] == name_set(exts@),
                    j <= exts@.len(),
                    forall|t: int| 0 <= t < j ==> (#[trigger] exts@[t])@ != ext@,
                decreases exts@.len() - j,
            {
                if str_eq(exts[j].as_str(), ext) {
                    assert(exts@[j as int]@ == ext@);
                    assert(name_set(exts@).contains(ext@));
                    return true;
                }
                j = j + 1;
            }
            assert(!name_set(exts@).contains(ext@));
            return false;
        }
    }
    proof {
        lemma_types_map_absent(types@, language@);
    }
    false
}

// ---------------------------------------------------------------------------
// Names left out of the walk
// ---------------------------------------------------------------------------

/// The names of a list of strings, in order.
pub open spec fn views(v: Seq<String>) -> Seq<Seq<char>> {
    v.map_values(|s: String| s@)
}

/// Whether a name is not on the blacklist; a name that is not valid UTF-8
/// (`None`) is never on it.
pub fn is_not_blacklisted(file_name: Option<&str>, blacklist: &[String]) -> (r: bool)
    ensures
        r == match file_name {
            Some(n) => !views(blacklist@).contains(n@),
            None => true,
        },
{
    match file_name {
        None => true,
        Some(n) => {
            let mut i: usize = 0;
            while i < blacklist.len()
                invariant
                    file_name == Some(n),
                    i <= blacklist@.len(),
                    forall|t: int| 0 <= t < i ==> (#[trigger] blacklist@[t])@ != n@,
                decreases blacklist@.len() - i,
            {
                if str_eq(blacklist[i].as_str(), n) {
                    assert(views(blacklist@).len() == blacklist@.len());
                    assert(views(blacklist@)[i as int] == n@);
                    assert(views(blacklist@).contains(n@));
                    return false;
                }
                i = i + 1;
            }
            assert forall|t: int| 0 <= t < views(blacklist@).len() implies views(blacklist@)[t] != n@ by {
                assert(blacklist@[t]@ != n@);
            }
            true
        },
    }
}

/// What a line like `[Rr]elease/` adds: the name with an upper-case and
/// with a lower-case `R`. Other patterns with a character class add nothing.
pub open spec fn class_pattern_entries(line: Seq<char>) -> Seq<Seq<char>> {
    if starts_with(line, seq!['[', 'R', 'r', ']']) && ends_with(line, seq!['/']) {
        let base = line.subrange(4, line.len() - 1);
        seq![seq!['R'] + base, seq!['r'] + base]
    } else {
        seq![]
    }
}

/// What one line of a `.gitignore` adds: nothing for a comment or a blank
/// line; for a line with a character class, what [`class_pattern_entries`]
/// gives; else the line without its leading and trailing slashes.
pub open spec fn blacklist_entries(line: Seq<char>) -> Seq<Seq<char>> {
    if starts_with(line, seq!['#']) || trim(line).len() == 0 {
        seq![]
    } else if line.contains('[') && line.contains(']') {
        class_pattern_entries(line)
    } else {
        seq![trim_char(line, '/')]
    }
}

/// What the lines add, in order.
pub open spec fn blacklist_from_lines(ls: Seq<Seq<char>>) -> Seq<Seq<char>>
    decreases ls.len(),
{
    if ls.len() == 0 {
        seq![]
    } else {
        blacklist_from_lines(ls.drop_last()) + blacklist_entries(ls.last())
    }
}

/// The blacklist: `.git`, then what the `.gitignore` adds, if there is one.
pub open spec fn spec_blacklist_dirs(gitignore: Option<Seq<char>>) -> Seq<Seq<char>> {
    seq![seq!['.', 'g', 'i', 't']] + match gitignore {
        Some(c) => blacklist_from_lines(lines(c)),
        None => seq![],
    }
}

/// Adds the names of a character class pattern such as `[Rr]elease/`.
pub fn handle_character_class_pattern(blacklist: &mut Vec<String>, line: &str)
    ensures
        views(final(blacklist)@) == views(old(blacklist)@) + class_pattern_entries(line@),
{
    let lc = chars_of(line);
    let prefix = ['[', 'R', 'r', ']'];
    let slash = ['/'];
    assert(prefix@ =~= seq!['[', 'R', 'r', ']']);
    assert(slash@ =~= seq!['/']);
    if has_prefix(&lc, &prefix) && has_suffix(&lc, &slash) {
        proof {
            assert(lc@[3] == lc@.take(4)[3]);
            assert(lc@[lc@.len() - 1] == lc@.skip(lc@.len() - 1)[0]);
        }
        let base = slice_chars(&lc, 4, lc.len() - 1);
        let mut upper: Vec<char> = Vec::new();
        upper.push('R');
        push_all(&mut upper, &base);
        let mut lower: Vec<char> = Vec::new();
        lower.push('r');
        push_all(&mut lower, &base);
        let ghost before = blacklist@;
        blacklist.push(string_of(&upper));
        blacklist.push(string_of(&lower));
        assert(views(blacklist@) =~= views(before) + class_pattern_entries(line@));
    } else {
        assert(views(blacklist@) =~= views(blacklist@) + class_pattern_entries(line@));
    }
}

/// Whether a line has a non-whitespace character.
fn has_content(t: &[char]) -> (r: bool)
    ensures
        r == (trim(t@).len() != 0),
{
    let tt = trim_chars(t);
    tt.len() != 0
}

/// The blacklist of names that the walk of a repository leaves out: `.git`,
/// and the entries of the repository's `.gitignore` when there is one
/// (`gitignore` holds its contents).
pub fn get_blacklist_dirs(gitignore: Option<&str>) -> (r: Vec<String>)
    ensures
        views(r@) == spec_blacklist_dirs(
            match gitignore {
                Some(c) => Some(c@),
                None => None,
            },
        ),
{
    let mut blacklist: Vec<String> = Vec::new();
    blacklist.push(".git".to_string());
    proof {
        reveal_strlit(".git");
    }
    assert(blacklist@[0]@ == ".git"@);
    assert(".git"@ =~= seq!['.', 'g', 'i', 't']);
    assert(views(blacklist@) =~= seq![seq!['.', 'g', 'i', 't']]);
    match gitignore {
        None => {
            assert(views(blacklist@) =~= spec_blacklist_dirs(None));
        },
        Some(contents) => {
            let cs = chars_of(contents);
            let ls = lines_of(&cs);
            let ghost g = lines(contents@);
            let mut i: usize = 0;
            assert(g.take(0) =~= Seq::<Seq<char>>::empty());
            while i < ls.len()
                invariant
                    i <= ls@.len(),
                    ls@.len() == g.len(),
                    forall|k: int| 0 <= k < ls@.len() ==> (#[trigger] ls@[k])@ == g[k],
                    views(blacklist@) == seq![seq!['.', 'g', 'i', 't']] + blacklist_from_lines(g.take(i as int)),
                decreases ls@.len() - i,
            {
                let line = &ls[i];
                assert(g.take(i + 1).drop_last() =~= g.take(i as int));
                assert(g.take(i + 1).last() == line@);
                let ghost before = blacklist@;
                let hash = ['#'];
                assert(hash@ =~= seq!['#']);
                if has_prefix(line, &hash) || !has_content(line) {
                    assert(blacklist_entries(line@) =~= seq![]);
                } else {
                    let text = string_of(line);
                    if crate::text::contains_char(line, '[') && crate::text::contains_char(line, ']') {
                        handle_character_class_pattern(&mut blacklist, text.as_str());
                    } else {
                        let trimmed = trim_char_chars(line, '/');
                        blacklist.push(string_of(&trimmed));
                        assert(views(blacklist@) =~= views(before) + seq![trim_char(line@, '/')]);
                    }
                }
                assert(views(blacklist@) =~= seq![seq!['.', 'g', 'i', 't']] + blacklist_from_lines(g.take(i + 1)));
                i = i + 1;
            }
            assert(g.take(i as int) =~= g);
        },
    }
    blacklist
}

/// `.git` is always on the blacklist, whatever the `.gitignore` holds: it is
/// the first entry.
pub proof fn lemma_git_dir_always_blacklisted(gitignore: Option<Seq<char>>)
    ensures
        spec_blacklist_dirs(gitignore).len() > 0,
        spec_blacklist_dirs(gitignore)[0] == seq!['.', 'g', 'i', 't'],
        spec_blacklist_dirs(gitignore).contains(seq!['.', 'g', 'i', 't']),
{
    assert(spec_blacklist_dirs(gitignore)[0] == seq!['.', 'g', 'i', 't']);
}

/// Comment lines and blank lines of a `.gitignore` add nothing to the
/// blacklist.
pub proof fn lemma_comments_and_blank_lines_add_nothing(line: Seq<char>)
    requires
        starts_with(line, seq!['#']) || trim(line).len() == 0,
    ensures
        blacklist_entries(line) == Seq::<Seq<char>>::empty(),
{
}

} // verus!
