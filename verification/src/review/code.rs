//! The breakdown of a repository's code by language and file extension:
//! for each pair, the total size in bytes, the number of files and the lines
//! of code; and the total size over all of them.
use crate::retrieval::data::str_eq;
use vstd::prelude::*;

verus! {

/// The map that inserting the entries in order builds, each value taken
/// through `f`; a later entry of the same name replaces an earlier one.
pub open spec fn keyed<V, W>(es: Seq<(String, V)>, f: spec_fn(V) -> W) -> Map<Seq<char>, W>
    decreases es.len(),
{
    if es.len() == 0 {
        Map::empty()
    } else {
        keyed(es.drop_last(), f).insert(es.last().0@, f(es.last().1))
    }
}

/// No name occurs twice among the entries.
pub open spec fn names_distinct<V>(es: Seq<(String, V)>) -> bool {
    forall|i: int, j: int| 0 <= i < j < es.len() ==> (#[trigger] es[i]).0@ != (#[trigger] es[j]).0@
}

/// A usage as it is held.
pub open spec fn as_held() -> spec_fn((u64, i32, i64)) -> (u64, i32, i64) {
    |u: (u64, i32, i64)| u
}

/// The usage of each extension: (size in bytes, files, lines of code).
pub open spec fn ext_usages(es: Seq<(String, (u64, i32, i64))>) -> Map<Seq<char>, (u64, i32, i64)> {
    keyed(es, as_held())
}

/// The usages of a language's extensions, as a map.
pub open spec fn as_ext_map() -> spec_fn(Vec<(String, (u64, i32, i64))>) -> Map<Seq<char>, (u64, i32, i64)> {
    |v: Vec<(String, (u64, i32, i64))>| ext_usages(v@)
}

/// The usages of each language, by extension.
pub open spec fn lang_usages(
    ls: Seq<(String, Vec<(String, (u64, i32, i64))>)>,
) -> Map<Seq<char>, Map<Seq<char>, (u64, i32, i64)>> {
    keyed(ls, as_ext_map())
}

proof fn lemma_keyed_drop_distinct<V>(es: Seq<(String, V)>)
    requires
        names_distinct(es),
        es.len() > 0,
    ensures
        names_distinct(es.drop_last()),
{
    let d = es.drop_last();
    assert forall|i: int, j: int| 0 <= i < j < d.len() implies (#[trigger] d[i]).0@ != (#[trigger] d[j]).0@ by {
        assert(d[i] == es[i] && d[j] == es[j]);
    }
}

/// With distinct names, the value of an entry's name is that of the entry.
proof fn lemma_keyed_found<V, W>(es: Seq<(String, V)>, f: spec_fn(V) -> W, j: int)
    requires
        names_distinct(es),
        0 <= j < es.len(),
    ensures
        keyed(es, f).contains_key(es[j].0@),
        keyed(es, f)[es[j].0@] == f(es[j].1),
    decreases es.len(),
{
    if j < es.len() - 1 {
        lemma_keyed_drop_distinct(es);
        lemma_keyed_found(es.drop_last(), f, j);
        assert(es.drop_last()[j] == es[j]);
    }
}

/// A name that no entry has is not in the map.
proof fn lemma_keyed_absent<V, W>(es: Seq<(String, V)>, f: spec_fn(V) -> W, k: Seq<char>)
    requires
        forall|i: int| 0 <= i < es.len() ==> (#[trigger] es[i]).0@ != k,
    ensures
        !keyed(es, f).contains_key(k),
    decreases es.len(),
{
    if es.len() > 0 {
        let d = es.drop_last();
        assert forall|i: int| 0 <= i < d.len() implies (#[trigger] d[i]).0@ != k by {
            assert(d[i] == es[i]);
        }
        lemma_keyed_absent(d, f, k);
        assert(es[es.len() - 1].0@ != k);
    }
}

/// Replacing the value of an entry (its name's view kept) replaces the
/// value of its name in the map.
proof fn lemma_keyed_update<V, W>(es: Seq<(String, V)>, f: spec_fn(V) -> W, j: int, e: (String, V))
    requires
        names_distinct(es),
        0 <= j < es.len(),
        e.0@ == es[j].0@,
    ensures
        names_distinct(es.update(j, e)),
        keyed(es.update(j, e), f) == keyed(es, f).insert(e.0@, f(e.1)),
    decreases es.len(),
{
    let u = es.update(j, e);
    assert forall|a: int, b: int| 0 <= a < b < u.len() implies (#[trigger] u[a]).0@ != (#[trigger] u[b]).0@ by {
        assert(es[a].0@ != es[b].0@);
    }
    if j < es.len() - 1 {
        lemma_keyed_drop_distinct(es);
        lemma_keyed_update(es.drop_last(), f, j, e);
        assert(u.drop_last() =~= es.drop_last().update(j, e));
        assert(u.last() == es.last());
        assert(es.last().0@ != e.0@) by {
            assert(es[j].0@ != es[es.len() - 1].0@);
        }
        assert(keyed(u, f) =~= keyed(es, f).insert(e.0@, f(e.1)));
    } else {
        assert(u.drop_last() =~= es.drop_last());
        assert(keyed(u, f) =~= keyed(es, f).insert(e.0@, f(e.1)));
    }
}

/// Appending an entry with a new name adds that name; the names stay distinct.
proof fn lemma_keyed_push<V, W>(es: Seq<(String, V)>, f: spec_fn(V) -> W, e: (String, V))
    requires
        names_distinct(es),
        forall|i: int| 0 <= i < es.len() ==> (#[trigger] es[i]).0@ != e.0@,
    ensures
        names_distinct(es.push(e)),
        keyed(es.push(e), f) == keyed(es, f).insert(e.0@, f(e.1)),
{
    let p = es.push(e);
    assert forall|a: int, b: int| 0 <= a < b < p.len() implies (#[trigger] p[a]).0@ != (#[trigger] p[b]).0@ by {
        if b < es.len() {
            assert(es[a].0@ != es[b].0@);
        } else {
            assert(es[a].0@ != e.0@);
        }
    }
    assert(p.drop_last() =~= es);
}

/// The usages of a language in `m`: empty when it has none.
pub open spec fn inner_of(
    m: Map<Seq<char>, Map<Seq<char>, (u64, i32, i64)>>,
    lang: Seq<char>,
) -> Map<Seq<char>, (u64, i32, i64)> {
    if m.contains_key(lang) {
        m[lang]
    } else {
        Map::empty()
    }
}

/// The usage of an extension of a language in `m`: zero when it has none.
pub open spec fn usage_of(
    m: Map<Seq<char>, Map<Seq<char>, (u64, i32, i64)>>,
    lang: Seq<char>,
    ext: Seq<char>,
) -> (u64, i32, i64) {
    if inner_of(m, lang).contains_key(ext) {
        inner_of(m, lang)[ext]
    } else {
        (0u64, 0i32, 0i64)
    }
}

/// A usage with one more file of `size` bytes and `loc` lines counted.
pub open spec fn bumped(u: (u64, i32, i64), size: u64, loc: i64) -> (u64, i32, i64) {
    ((u.0 + size) as u64, (u.1 + 1) as i32, (u.2 + loc) as i64)
}

/// Whether counting one more file stays within range.
pub open spec fn bump_fits(u: (u64, i32, i64), size: u64, loc: i64) -> bool {
    &&& u.0 + size <= u64::MAX
    &&& u.1 + 1 <= i32::MAX
    &&& i64::MIN <= u.2 + loc <= i64::MAX
}

/// Sizes, file counts and lines of code by language and extension.
pub struct LanguageBreakdown {
    usages: Vec<(String, Vec<(String, (u64, i32, i64))>)>,
    total_size: u64,
}

/// Counts one more file of `ext` in `exts`.
fn add_to_extension(exts: &mut Vec<(String, (u64, i32, i64))>, ext: &str, size: u64, loc: i64)
    requires
        names_distinct(old(exts)@),
        bump_fits(
            if ext_usages(old(exts)@).contains_key(ext@) {
                ext_usages(old(exts)@)[ext@]
            } else {
                (0u64, 0i32, 0i64)
            },
            size,
            loc,
        ),
    ensures
        names_distinct(final(exts)@),
        ext_usages(final(exts)@) == ext_usages(old(exts)@).insert(
            ext@,
            bumped(
                if ext_usages(old(exts)@).contains_key(ext@) {
                    ext_usages(old(exts)@)[ext@]
                } else {
                    (0u64, 0i32, 0i64)
                },
                size,
                loc,
            ),
        ),
{
    let ghost before = exts@;
    let mut j: usize = 0;
    while j < exts.len()
        invariant
            exts@ == before,
            before == old(exts)@,
            names_distinct(before),
            bump_fits(
                if ext_usages(before).contains_key(ext@) {
                    ext_usages(before)[ext@]
                } else {
                    (0u64, 0i32, 0i64)
                },
                size,
                loc,
            ),
            j <= before.len(),
            forall|t: int| 0 <= t < j ==> (#[trigger] before[t]).0@ != ext@,
        decreases before.len() - j,
    {
        if str_eq(exts[j].0.as_str(), ext) {
            let (a, b, c) = exts[j].1;
            proof {
                lemma_keyed_found(before, as_held(), j as int);
                assert(before[j as int].0@ == ext@);
                assert(ext_usages(before).contains_key(ext@));
                assert(ext_usages(before)[ext@] == (a, b, c));
            }
            let entry = (ext.to_string(), (a + size, b + 1, c + loc));
            proof {
                lemma_keyed_update(before, as_held(), j as int, entry);
            }
            exts.set(j, entry);
            assert(exts@ == before.update(j as int, entry));
            assert(as_held()(entry.1) == entry.1);
            assert(entry.1 == bumped((a, b, c), size, loc));
            return;
        }
        j = j + 1;
    }
    proof {
        lemma_keyed_absent(before, as_held(), ext@);
    }
    let entry = (ext.to_string(), (size, 1i32, loc));
    proof {
        lemma_keyed_push(before, as_held(), entry);
        assert(bumped((0u64, 0i32, 0i64), size, loc) == (size, 1i32, loc));
    }
    exts.push(entry);
}

impl LanguageBreakdown {
    /// The usages by language, then by extension.
    pub closed spec fn view(&self) -> Map<Seq<char>, Map<Seq<char>, (u64, i32, i64)>> {
        lang_usages(self.usages@)
    }

    /// The total size counted.
    pub closed spec fn spec_total_size(&self) -> u64 {
        self.total_size
    }

    #[verifier::type_invariant]
    spec fn inv(&self) -> bool {
        &&& names_distinct(self.usages@)
        &&& forall|i: int| 0 <= i < self.usages@.len() ==> names_distinct((#[trigger] self.usages@[i]).1@)
    }

    /// An empty breakdown.
    pub fn new() -> (r: Self)
        ensures
            r@ == Map::<Seq<char>, Map<Seq<char>, (u64, i32, i64)>>::empty(),
            r.spec_total_size() == 0,
    {
        LanguageBreakdown { usages: Vec::new(), total_size: 0 }
    }

    /// The total size counted, in bytes.
    pub fn total_size(&self) -> (r: u64)
        ensures
            r == self.spec_total_size(),
    {
        self.total_size
    }

    /// Counts one more file of language `lang` and extension `ext`, of
    /// `size` bytes and `loc` lines of code.
    pub fn add_usage(&mut self, lang: &str, ext: &str, size: u64, loc: i64)
        requires
            old(self).spec_total_size() + size <= u64::MAX,
            bump_fits(usage_of(old(self)@, lang@, ext@), size, loc),
        ensures
            final(self)@ == old(self)@.insert(
                lang@,
                inner_of(old(self)@, lang@).insert(ext@, bumped(usage_of(old(self)@, lang@, ext@), size, loc)),
            ),
            final(self).spec_total_size() == old(self).spec_total_size() + size,
    {
        proof {
            use_type_invariant(&*self);
        }
        let ghost old_view = self@;
        let mut usages: Vec<(String, Vec<(String, (u64, i32, i64))>)> = Vec::new();
        std::mem::swap(&mut usages, &mut self.usages);
        let ghost before = usages@;
        let ghost f = as_ext_map();
        let mut i: usize = 0;
        let mut found = false;
        while i < usages.len()
            invariant_except_break
                !found,
            invariant
                usages@ == before,
                i <= before.len(),
                forall|t: int| 0 <= t < i ==> (#[trigger] before[t]).0@ != lang@,
            ensures
                found ==> i < before.len() && before[i as int].0@ == lang@,
                !found ==> forall|t: int| 0 <= t < before.len() ==> (#[trigger] before[t]).0@ != lang@,
            decreases before.len() - i,
        {
            if str_eq(usages[i].0.as_str(), lang) {
                found = true;
                break;
            }
            i = i + 1;
        }
        if found {
            let (name, mut exts) = usages.remove(i);
            proof {
                lemma_keyed_found(before, f, i as int);
                assert(name == before[i as int].0 && exts == before[i as int].1);
                assert(inner_of(old_view, lang@) == ext_usages(exts@));
            }
            add_to_extension(&mut exts, ext, size, loc);
            let entry = (name, exts);
            usages.insert(i, entry);
            proof {
                assert(usages@ =~= before.update(i as int, entry));
                lemma_keyed_update(before, f, i as int, entry);
                assert forall|t: int| 0 <= t < usages@.len() implies names_distinct((#[trigger] usages@[t]).1@) by {
                    if t != i {
                        assert(usages@[t] == before[t]);
                    }
                }
            }
        } else {
            let mut exts: Vec<(String, (u64, i32, i64))> = Vec::new();
            proof {
                lemma_keyed_absent(before, f, lang@);
                assert(ext_usages(exts@) =~= Map::<Seq<char>, (u64, i32, i64)>::empty());
            }
            add_to_extension(&mut exts, ext, size, loc);
            let entry = (lang.to_string(), exts);
            proof {
                lemma_keyed_push(before, f, entry);
            }
            usages.push(entry);
            proof {
                assert forall|t: int| 0 <= t < usages@.len() implies names_distinct((#[trigger] usages@[t]).1@) by {
                    if t < before.len() {
                        assert(usages@[t] == before[t]);
                    }
                }
            }
        }
        self.usages = usages;
        self.total_size = self.total_size + size;
    }
}

/// A key of the map is the name of one of the entries.
proof fn lemma_keyed_key<V, W>(es: Seq<(String, V)>, f: spec_fn(V) -> W, k: Seq<char>)
    requires
        keyed(es, f).contains_key(k),
    ensures
        exists|i: int| 0 <= i < es.len() && (#[trigger] es[i]).0@ == k,
    decreases es.len(),
{
    if es.len() > 0 {
        let d = es.drop_last();
        if es.last().0@ == k {
            assert(es[es.len() - 1].0@ == k);
        } else {
            lemma_keyed_key(d, f, k);
            let i = choose|i: int| 0 <= i < d.len() && (#[trigger] d[i]).0@ == k;
            assert(es[i] == d[i]);
        }
    }
}

/// One language and extension of a breakdown, with its usage. Its share of
/// the total size (a floating-point division) is left to the caller.
#[derive(Clone, Debug)]
pub struct LanguageFileType {
    pub language: String,
    pub extension: String,
    pub loc: i64,
    pub total_size: u64,
    pub file_count: i32,
}

/// Whether the entry `t` is the usage of its language and extension in `m`.
pub open spec fn describes(m: Map<Seq<char>, Map<Seq<char>, (u64, i32, i64)>>, t: LanguageFileType) -> bool {
    &&& m.contains_key(t.language@)
    &&& m[t.language@].contains_key(t.extension@)
    &&& m[t.language@][t.extension@] == (t.total_size, t.file_count, t.loc)
}

/// Whether the usage of language entry `i`, extension entry `j` is listed in `out`.
pub open spec fn listed(
    us: Seq<(String, Vec<(String, (u64, i32, i64))>)>,
    out: Seq<LanguageFileType>,
    i: int,
    j: int,
) -> bool {
    exists|k: int|
        0 <= k < out.len() && (#[trigger] out[k]).language@ == us[i].0@ && out[k].extension@ == us[i].1@[j].0@
}

/// Whether `t`'s language is that of one of the first `i` language entries.
pub open spec fn from_earlier(us: Seq<(String, Vec<(String, (u64, i32, i64))>)>, t: LanguageFileType, i: int) -> bool {
    exists|a: int| 0 <= a < i && (#[trigger] us[a]).0@ == t.language@
}

/// Whether `t`'s extension is that of one of the first `j` extension entries.
pub open spec fn from_earlier_ext(es: Seq<(String, (u64, i32, i64))>, t: LanguageFileType, j: int) -> bool {
    exists|b: int| 0 <= b < j && (#[trigger] es[b]).0@ == t.extension@
}

impl LanguageBreakdown {
    /// Every language and extension of the breakdown with its usage, each
    /// pair once.
    pub fn to_language_file_types(&self) -> (r: Vec<LanguageFileType>)
        ensures
            forall|k: int| 0 <= k < r@.len() ==> describes(self@, #[trigger] r@[k]),
            forall|l: Seq<char>, e: Seq<char>|
                #![trigger self@[l].contains_key(e)]
                self@.contains_key(l) && self@[l].contains_key(e) ==> exists|k: int|
                    0 <= k < r@.len() && (#[trigger] r@[k]).language@ == l && r@[k].extension@ == e,
            forall|a: int, b: int|
                0 <= a < b < r@.len() ==> !((#[trigger] r@[a]).language@ == (#[trigger] r@[b]).language@
                    && r@[a].extension@ == r@[b].extension@),
    {
        proof {
            use_type_invariant(self);
        }
        let us = &self.usages;
        let ghost g = us@;
        let mut out: Vec<LanguageFileType> = Vec::new();
        let mut i: usize = 0;
        while i < us.len()
            invariant
                g == us@,
                g == self.usages@,
                names_distinct(g),
                forall|t: int| 0 <= t < g.len() ==> names_distinct((#[trigger] g[t]).1@),
                i <= g.len(),
                forall|k: int| 0 <= k < out@.len() ==> describes(self@, #[trigger] out@[k]),
                forall|k: int| 0 <= k < out@.len() ==> from_earlier(g, #[trigger] out@[k], i as int),
                forall|a: int, b: int| 0 <= a < i && 0 <= b < g[a].1@.len() ==> #[trigger] listed(g, out@, a, b),
                forall|a: int, b: int|
                    0 <= a < b < out@.len() ==> !((#[trigger] out@[a]).language@ == (#[trigger] out@[b]).language@
                        && out@[a].extension@ == out@[b].extension@),
            decreases g.len() - i,
        {
            let lang = &us[i].0;
            let exts = &us[i].1;
            proof {
                lemma_keyed_found(g, as_ext_map(), i as int);
            }
            let ghost start = out@;
            let mut j: usize = 0;
            while j < exts.len()
                invariant
                    g == us@,
                    g == self.usages@,
                    names_distinct(g),
                    forall|t: int| 0 <= t < g.len() ==> names_distinct((#[trigger] g[t]).1@),
                    i < g.len(),
                    lang@ == g[i as int].0@,
                    exts@ == g[i as int].1@,
                    self@.contains_key(lang@),
                    self@[lang@] == ext_usages(exts@),
                    j <= exts@.len(),
                    start.len() <= out@.len(),
                    forall|k: int| 0 <= k < start.len() ==> out@[k] == #[trigger] start[k],
                    forall|k: int| 0 <= k < start.len() ==> from_earlier(g, #[trigger] start[k], i as int),
                    forall|k: int| start.len() <= k < out@.len() ==> (#[trigger] out@[k]).language@ == lang@
                        && from_earlier_ext(exts@, out@[k], j as int),
                    forall|k: int| 0 <= k < out@.len() ==> describes(self@, #[trigger] out@[k]),
                    forall|a: int, b: int| 0 <= a < i && 0 <= b < g[a].1@.len() ==> #[trigger] listed(g, out@, a, b),
                    forall|b: int| 0 <= b < j ==> #[trigger] listed(g, out@, i as int, b),
                    forall|a: int, b: int|
                        0 <= a < b < out@.len() ==> !((#[trigger] out@[a]).language@ == (#[trigger] out@[b]).language@
                            && out@[a].extension@ == out@[b].extension@),
                decreases exts@.len() - j,
            {
                let (ext, (size, count, loc)) = (&exts[j].0, exts[j].1);
                let t = LanguageFileType {
                    language: lang.clone(),
                    extension: ext.clone(),
                    loc,
                    total_size: size,
                    file_count: count,
                };
                let ghost before = out@;
                proof {
                    lemma_keyed_found(exts@, as_held(), j as int);
                    assert(describes(self@, t));
                    assert forall|k: int| 0 <= k < before.len() implies !((#[trigger] before[k]).language@ == t.language@
                        && before[k].extension@ == t.extension@) by {
                        if k < start.len() {
                            assert(from_earlier(g, start[k], i as int));
                            let a = choose|a: int| 0 <= a < i && (#[trigger] g[a]).0@ == start[k].language@;
                            assert(g[a].0@ != g[i as int].0@);
                        } else {
                            assert(from_earlier_ext(exts@, before[k], j as int));
                            let b = choose|b: int| 0 <= b < j && (#[trigger] exts@[b]).0@ == before[k].extension@;
                            assert(exts@[b].0@ != exts@[j as int].0@);
                        }
                    }
                }
                out.push(t);
                proof {
                    assert(out@[before.len() as int] == t);
                    assert forall|a: int, b: int| 0 <= a < i && 0 <= b < g[a].1@.len() implies #[trigger] listed(g, out@, a, b) by {
                        assert(listed(g, before, a, b));
                        let k = choose|k: int|
                            0 <= k < before.len() && (#[trigger] before[k]).language@ == g[a].0@ && before[k].extension@ == g[a].1@[b].0@;
                        assert(out@[k] == before[k]);
                    }
                    assert forall|b: int| 0 <= b < j + 1 implies #[trigger] listed(g, out@, i as int, b) by {
                        if b < j {
                            assert(listed(g, before, i as int, b));
                            let k = choose|k: int|
                                0 <= k < before.len() && (#[trigger] before[k]).language@ == g[i as int].0@ && before[k].extension@ == g[i as int].1@[b].0@;
                            assert(out@[k] == before[k]);
                        } else {
                            assert(out@[before.len() as int].language@ == g[i as int].0@);
                        }
                    }
                    assert forall|k: int| start.len() <= k < out@.len() implies (#[trigger] out@[k]).language@ == lang@
                        && from_earlier_ext(exts@, out@[k], j + 1) by {
                        if k < before.len() {
                            assert(out@[k] == before[k]);
                            assert(from_earlier_ext(exts@, before[k], j as int));
                        } else {
                            assert(exts@[j as int].0@ == out@[k].extension@);
                        }
                    }
                }
                j = j + 1;
            }
            proof {
                assert forall|k: int| 0 <= k < out@.len() implies from_earlier(g, #[trigger] out@[k], i + 1) by {
                    if k < start.len() {
                        assert(out@[k] == start[k]);
                        assert(from_earlier(g, start[k], i as int));
                    } else {
                        assert(g[i as int].0@ == out@[k].language@);
                    }
                }
                assert forall|a: int, b: int| 0 <= a < i + 1 && 0 <= b < g[a].1@.len() implies #[trigger] listed(g, out@, a, b) by {
                    if a == i {
                        assert(listed(g, out@, i as int, b));
                    }
                }
            }
            i = i + 1;
        }
        proof {
            assert forall|l: Seq<char>, e: Seq<char>|
                #![trigger self@[l].contains_key(e)]
                self@.contains_key(l) && self@[l].contains_key(e) implies exists|k: int|
                    0 <= k < out@.len() && (#[trigger] out@[k]).language@ == l && out@[k].extension@ == e by {
                lemma_keyed_key(g, as_ext_map(), l);
                let a = choose|a: int| 0 <= a < g.len() && (#[trigger] g[a]).0@ == l;
                lemma_keyed_found(g, as_ext_map(), a);
                lemma_keyed_key(g[a].1@, as_held(), e);
                let b = choose|b: int| 0 <= b < g[a].1@.len() && (#[trigger] g[a].1@[b]).0@ == e;
                assert(listed(g, out@, a, b));
            }
        }
        out
    }
}

} // verus!
