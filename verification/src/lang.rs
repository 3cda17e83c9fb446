//! The extension registry: a table mapping each language name to the set of
//! file extensions recognized as belonging to it.
//!
//! Construction checks that the table is well formed: language names are
//! unique and no extension is claimed by two languages, so classification is
//! unambiguous.

use vstd::prelude::*;

verus! {

/// One language entry: its display name and the extensions it claims
/// (without the leading dot, matched case-sensitively).
pub struct Language {
    pub name: String,
    pub exts: Vec<String>,
}

/// Whether language `l` claims extension `e`.
pub open spec fn lang_has_ext(l: Language, e: Seq<char>) -> bool {
    exists|k: int| 0 <= k < l.exts@.len() && l.exts@[k]@ == e
}

/// Whether any of the first `upto` languages claims extension `e`.
pub open spec fn ext_in_prefix(langs: Seq<Language>, upto: int, e: Seq<char>) -> bool {
    exists|i: int| 0 <= i < upto && lang_has_ext(langs[i], e)
}

/// Whether any of the first `upto` languages is named `name`.
pub open spec fn name_in_prefix(langs: Seq<Language>, upto: int, name: Seq<char>) -> bool {
    exists|i: int| 0 <= i < upto && langs[i].name@ == name
}

/// No extension is claimed by two distinct languages.
pub open spec fn exts_disjoint(langs: Seq<Language>) -> bool {
    forall|i: int, j: int, e: Seq<char>|
        #![trigger lang_has_ext(langs[i], e), lang_has_ext(langs[j], e)]
        0 <= i < j < langs.len() ==> !(lang_has_ext(langs[i], e) && lang_has_ext(langs[j], e))
}

/// No two languages share a name.
pub open spec fn names_unique(langs: Seq<Language>) -> bool {
    forall|i: int, j: int|
        #![trigger langs[i].name@, langs[j].name@]
        0 <= i < j < langs.len() ==> langs[i].name@ != langs[j].name@
}

/// Language `j` claims no extension already claimed by an earlier language.
pub open spec fn lang_fresh(langs: Seq<Language>, j: int) -> bool {
    forall|k: int|
        0 <= k < langs[j].exts@.len() ==> !ext_in_prefix(langs, j, #[trigger] langs[j].exts@[k]@)
}

/// The registry, valid only when built through `try_new`.
pub struct LanguageTable {
    pub langs: Vec<Language>,
}

/// Well-formedness of the registry: unambiguous classification.
pub open spec fn table_wf(t: LanguageTable) -> bool {
    exts_disjoint(t.langs@) && names_unique(t.langs@)
}

/// If each language is fresh with respect to its predecessors, the whole
/// table has pairwise disjoint extension sets.
proof fn lemma_fresh_implies_disjoint(langs: Seq<Language>)
    requires
        forall|j: int| 0 <= j < langs.len() ==> lang_fresh(langs, j),
    ensures
        exts_disjoint(langs),
{
    assert forall|i: int, j: int, e: Seq<char>|
        #![trigger lang_has_ext(langs[i], e), lang_has_ext(langs[j], e)]
        0 <= i < j < langs.len() implies !(lang_has_ext(langs[i], e) && lang_has_ext(
        langs[j],
        e,
    )) by {
        if lang_has_ext(langs[i], e) && lang_has_ext(langs[j], e) {
            let k = choose|k: int| 0 <= k < langs[j].exts@.len() && langs[j].exts@[k]@ == e;
            assert(lang_fresh(langs, j));
            assert(!ext_in_prefix(langs, j, langs[j].exts@[k]@));
            assert(ext_in_prefix(langs, j, e));
        }
    }
}

/// Whether `l` claims extension `e`, decided by scanning its extension list.
fn lang_contains(l: &Language, e: &String) -> (r: bool)
    ensures
        r == lang_has_ext(*l, e@),
{
    let n = l.exts.len();
    let mut k: usize = 0;
    while k < n
        invariant
            k <= n,
            n == l.exts@.len(),
            forall|m: int| 0 <= m < k ==> l.exts@[m]@ != e@,
        decreases n - k,
    {
        if l.exts[k].eq(e) {
            assert(l.exts@[k as int]@ == e@);
            return true;
        }
        k = k + 1;
    }
    false
}

/// Whether any of the first `upto` languages claims `e`.
fn ext_in_first(langs: &Vec<Language>, upto: usize, e: &String) -> (r: bool)
    requires
        upto <= langs@.len(),
    ensures
        r == ext_in_prefix(langs@, upto as int, e@),
{
    let mut i: usize = 0;
    while i < upto
        invariant
            i <= upto,
            upto <= langs@.len(),
            forall|j: int| 0 <= j < i ==> !lang_has_ext(#[trigger] langs@[j], e@),
        decreases upto - i,
    {
        if lang_contains(&langs[i], e) {
            assert(lang_has_ext(langs@[i as int], e@));
            return true;
        }
        i = i + 1;
    }
    false
}

/// Whether any of the first `upto` languages is named `name`.
fn name_in_first(langs: &Vec<Language>, upto: usize, name: &String) -> (r: bool)
    requires
        upto <= langs@.len(),
    ensures
        r == name_in_prefix(langs@, upto as int, name@),
{
    let mut i: usize = 0;
    while i < upto
        invariant
            i <= upto,
            upto <= langs@.len(),
            forall|j: int| 0 <= j < i ==> #[trigger] langs@[j].name@ != name@,
        decreases upto - i,
    {
        if langs[i].name.eq(name) {
            assert(langs@[i as int].name@ == name@);
            return true;
        }
        i = i + 1;
    }
    false
}

impl LanguageTable {
    /// Builds a registry from the given entries, rejecting any collision:
    /// a duplicated language name or an extension claimed twice across
    /// languages is a construction-time error, never silently resolved.
    pub fn try_new(langs: Vec<Language>) -> (r: Option<LanguageTable>)
        ensures
            match r {
                Some(t) => t.langs@ == langs@ && table_wf(t),
                None => !(exts_disjoint(langs@) && names_unique(langs@)),
            },
    {
        let n = langs.len();
        let mut i: usize = 0;
        while i < n
            invariant
                i <= n,
                n == langs@.len(),
                forall|j: int| 0 <= j < i ==> lang_fresh(langs@, j),
                forall|p: int, q: int|
                    #![trigger langs@[p].name@, langs@[q].name@]
                    0 <= p < q < i ==> langs@[p].name@ != langs@[q].name@,
            decreases n - i,
        {
            if name_in_first(&langs, i, &langs[i].name) {
                proof {
                    let p = choose|p: int| 0 <= p < i && langs@[p].name@ == langs@[i as int].name@;
                    assert(langs@[p].name@ == langs@[i as int].name@);
                    assert(!names_unique(langs@));
                }
                return None;
            }
            let m = langs[i].exts.len();
            let mut k: usize = 0;
            while k < m
                invariant
                    k <= m,
                    i < n,
                    n == langs@.len(),
                    m == langs@[i as int].exts@.len(),
                    forall|t: int|
                        0 <= t < k ==> !ext_in_prefix(
                            langs@,
                            i as int,
                            #[trigger] langs@[i as int].exts@[t]@,
                        ),
                decreases m - k,
            {
                if ext_in_first(&langs, i, &langs[i].exts[k]) {
                    proof {
                        let e = langs@[i as int].exts@[k as int]@;
                        let p = choose|p: int| 0 <= p < i && lang_has_ext(langs@[p], e);
                        assert(lang_has_ext(langs@[p], e));
                        assert(lang_has_ext(langs@[i as int], e));
                        assert(!exts_disjoint(langs@));
                    }
                    return None;
                }
                k = k + 1;
            }
            assert(lang_fresh(langs@, i as int));
            i = i + 1;
        }
        proof {
            lemma_fresh_implies_disjoint(langs@);
        }
        Some(LanguageTable { langs })
    }

    /// The name of language `i`.
    pub fn lang_name(&self, i: usize) -> (r: &String)
        requires
            i < self.langs@.len(),
        ensures
            r@ == self.langs@[i as int].name@,
    {
        &self.langs[i].name
    }

    /// Resolves an extension to the first language claiming it, or `None`
    /// when no language does. Matching is exact and case-sensitive. In a
    /// well-formed table the claiming language is unique.
    pub fn classify(&self, ext: &String) -> (r: Option<usize>)
        ensures
            match r {
                Some(i) => i < self.langs@.len() && lang_has_ext(self.langs@[i as int], ext@)
                    && forall|j: int| 0 <= j < i ==> !lang_has_ext(#[trigger] self.langs@[j], ext@),
                None => forall|j: int|
                    0 <= j < self.langs@.len() ==> !lang_has_ext(#[trigger] self.langs@[j], ext@),
            },
    {
        let n = self.langs.len();
        let mut i: usize = 0;
        while i < n
            invariant
                i <= n,
                n == self.langs@.len(),
                forall|j: int| 0 <= j < i ==> !lang_has_ext(#[trigger] self.langs@[j], ext@),
            decreases n - i,
        {
            if lang_contains(&self.langs[i], ext) {
                return Some(i);
            }
            i = i + 1;
        }
        None
    }
}

/// The name/extension pairs of one language, at the specification level.
pub open spec fn lang_model(l: Language) -> (Seq<char>, Seq<Seq<char>>) {
    (l.name@, l.exts.deep_view())
}

/// The whole registry at the specification level.
pub open spec fn langs_model(langs: Seq<Language>) -> Seq<(Seq<char>, Seq<Seq<char>>)> {
    langs.map_values(|l: Language| lang_model(l))
}

/// The built-in registry contents.
pub open spec fn default_model() -> Seq<(Seq<char>, Seq<Seq<char>>)> {
    seq![
        ("Python"@, seq!["py"@, "pyi"@, "pyc"@, "pyw"@]),
        ("JavaScript"@, seq!["js"@, "jsx"@]),
        ("Java"@, seq!["java"@]),
        ("C/C++"@, seq!["cpp"@, "cxx"@, "hpp"@, "hxx"@, "c"@, "cc"@, "h"@]),
        ("C#"@, seq!["cs"@, "csx"@]),
        (
            "PHP"@,
            seq![
                "php"@,
                "phtml"@,
                "php3"@,
                "php4"@,
                "php5"@,
                "php7"@,
                "phps"@,
                "php-s"@,
                "pht"@,
                "phar"@,
            ],
        ),
        ("Perl"@, seq!["plx"@, "pl"@, "pm"@, "xs"@, "t"@, "pod"@]),
        ("Rust"@, seq!["rs"@]),
        ("HTML"@, seq!["html"@, "htm"@]),
        ("Shell script"@, seq!["sh"@]),
        ("TypeScript"@, seq!["ts"@, "tsx"@]),
        ("Batch script"@, seq!["bat"@, "cmd"@]),
        ("R"@, seq!["r"@]),
        ("Objective-C"@, seq!["m"@, "mm"@, "M"@]),
        ("Swift"@, seq!["swift"@]),
        ("Kotlin"@, seq!["kt"@]),
        ("Go"@, seq!["go"@]),
        ("Ruby"@, seq!["rb"@]),
        ("Scala"@, seq!["scala"@]),
        ("Ada"@, seq!["ada"@]),
        ("Dart"@, seq!["dart"@]),
        ("Lua"@, seq!["lua"@]),
        ("Groovy"@, seq!["gradle"@, "groovy"@]),
        ("Julia"@, seq!["jl"@]),
        ("Cobol"@, seq!["cobol"@]),
        ("Pascal"@, seq!["pas"@]),
        ("Haskell"@, seq!["hs"@]),
        ("GDScript"@, seq!["gd"@]),
    ]
}

/// Whether a model entry claims extension `e`.
pub open spec fn model_has_ext(entry: (Seq<char>, Seq<Seq<char>>), e: Seq<char>) -> bool {
    exists|k: int| 0 <= k < entry.1.len() && entry.1[k] == e
}

/// No extension is claimed by two distinct languages of a model.
pub open spec fn model_exts_disjoint(m: Seq<(Seq<char>, Seq<Seq<char>>)>) -> bool {
    forall|i: int, j: int, e: Seq<char>|
        #![trigger model_has_ext(m[i], e), model_has_ext(m[j], e)]
        0 <= i < j < m.len() ==> !(model_has_ext(m[i], e) && model_has_ext(m[j], e))
}

/// No two languages of a model share a name.
pub open spec fn model_names_unique(m: Seq<(Seq<char>, Seq<Seq<char>>)>) -> bool {
    forall|i: int, j: int|
        #![trigger m[i].0, m[j].0]
        0 <= i < j < m.len() ==> m[i].0 != m[j].0
}

/// A language list is well formed exactly when its model is: disjointness
/// and name uniqueness carry across `langs_model` in both directions.
pub proof fn lemma_model_reflects_wf(langs: Seq<Language>)
    ensures
        exts_disjoint(langs) <==> model_exts_disjoint(langs_model(langs)),
        names_unique(langs) <==> model_names_unique(langs_model(langs)),
{
    let m = langs_model(langs);
    assert(m.len() == langs.len());
    assert forall|i: int, e: Seq<char>|
        #![trigger model_has_ext(m[i], e)]
        #![trigger lang_has_ext(langs[i], e)]
        0 <= i < langs.len() implies (lang_has_ext(langs[i], e) <==> model_has_ext(m[i], e)) by {
        assert(m[i] == lang_model(langs[i]));
        if lang_has_ext(langs[i], e) {
            let k = choose|k: int| 0 <= k < langs[i].exts@.len() && langs[i].exts@[k]@ == e;
            assert(langs[i].exts.deep_view()[k] == langs[i].exts@[k]@);
            assert(m[i].1[k] == e);
            assert(model_has_ext(m[i], e));
        }
        if model_has_ext(m[i], e) {
            let k = choose|k: int| 0 <= k < m[i].1.len() && m[i].1[k] == e;
            assert(langs[i].exts.deep_view()[k] == langs[i].exts@[k]@);
            assert(langs[i].exts@[k]@ == e);
            assert(lang_has_ext(langs[i], e));
        }
    }
    assert forall|i: int| 0 <= i < langs.len() implies #[trigger] m[i].0 == langs[i].name@ by {
        assert(m[i] == lang_model(langs[i]));
    }
    if exts_disjoint(langs) {
        assert forall|i: int, j: int, e: Seq<char>|
            #![trigger model_has_ext(m[i], e), model_has_ext(m[j], e)]
            0 <= i < j < m.len() implies !(model_has_ext(m[i], e) && model_has_ext(m[j], e)) by {
            if model_has_ext(m[i], e) && model_has_ext(m[j], e) {
                assert(lang_has_ext(langs[i], e));
                assert(lang_has_ext(langs[j], e));
            }
        }
    }
    if model_exts_disjoint(m) {
        assert forall|i: int, j: int, e: Seq<char>|
            #![trigger lang_has_ext(langs[i], e), lang_has_ext(langs[j], e)]
            0 <= i < j < langs.len() implies !(lang_has_ext(langs[i], e) && lang_has_ext(
            langs[j],
            e,
        )) by {
            if lang_has_ext(langs[i], e) && lang_has_ext(langs[j], e) {
                assert(model_has_ext(m[i], e));
                assert(model_has_ext(m[j], e));
            }
        }
    }
    if names_unique(langs) {
        assert forall|i: int, j: int|
            #![trigger m[i].0, m[j].0]
            0 <= i < j < m.len() implies m[i].0 != m[j].0 by {
            assert(m[i].0 == langs[i].name@);
            assert(m[j].0 == langs[j].name@);
        }
    }
    if model_names_unique(m) {
        assert forall|i: int, j: int|
            #![trigger langs[i].name@, langs[j].name@]
            0 <= i < j < langs.len() implies langs[i].name@ != langs[j].name@ by {
            assert(m[i].0 == langs[i].name@);
            assert(m[j].0 == langs[j].name@);
        }
    }
}

/// `x` differs from the names of the first `n` entries of `m`.
pub open spec fn name_fresh_upto(x: Seq<char>, m: Seq<(Seq<char>, Seq<Seq<char>>)>, n: int) -> bool
    decreases n,
{
    if n <= 0 {
        true
    } else {
        x != m[n - 1].0 && name_fresh_upto(x, m, n - 1)
    }
}

/// The first `n` entries of `m` carry pairwise different names.
pub open spec fn names_distinct_upto(m: Seq<(Seq<char>, Seq<Seq<char>>)>, n: int) -> bool
    decreases n,
{
    if n <= 0 {
        true
    } else {
        names_distinct_upto(m, n - 1) && name_fresh_upto(m[n - 1].0, m, n - 1)
    }
}

/// `e` differs from the first `n` extensions in `es`.
pub open spec fn ext_fresh_in_list(e: Seq<char>, es: Seq<Seq<char>>, n: int) -> bool
    decreases n,
{
    if n <= 0 {
        true
    } else {
        e != es[n - 1] && ext_fresh_in_list(e, es, n - 1)
    }
}

/// No entry among the first `n` of `m` claims `e`.
pub open spec fn ext_fresh_upto(e: Seq<char>, m: Seq<(Seq<char>, Seq<Seq<char>>)>, n: int) -> bool
    decreases n,
{
    if n <= 0 {
        true
    } else {
        ext_fresh_in_list(e, m[n - 1].1, m[n - 1].1.len() as int) && ext_fresh_upto(e, m, n - 1)
    }
}

/// None of the first `n` extensions of `es` is claimed by the first `j`
/// entries of `m`.
pub open spec fn exts_fresh_upto(
    es: Seq<Seq<char>>,
    m: Seq<(Seq<char>, Seq<Seq<char>>)>,
    j: int,
    n: int,
) -> bool
    decreases n,
{
    if n <= 0 {
        true
    } else {
        ext_fresh_upto(es[n - 1], m, j) && exts_fresh_upto(es, m, j, n - 1)
    }
}

/// Every entry among the first `n` of `m` claims only extensions that none
/// of its predecessors claims.
pub open spec fn exts_distinct_upto(m: Seq<(Seq<char>, Seq<Seq<char>>)>, n: int) -> bool
    decreases n,
{
    if n <= 0 {
        true
    } else {
        exts_distinct_upto(m, n - 1) && exts_fresh_upto(
            m[n - 1].1,
            m,
            n - 1,
            m[n - 1].1.len() as int,
        )
    }
}

proof fn lemma_name_fresh(x: Seq<char>, m: Seq<(Seq<char>, Seq<Seq<char>>)>, n: int)
    requires
        name_fresh_upto(x, m, n),
    ensures
        forall|j: int| 0 <= j < n ==> x != #[trigger] m[j].0,
    decreases n,
{
    if n > 0 {
        lemma_name_fresh(x, m, n - 1);
    }
}

/// The stepwise name check implies pairwise distinct names.
proof fn lemma_names_distinct(m: Seq<(Seq<char>, Seq<Seq<char>>)>, n: int)
    requires
        names_distinct_upto(m, n),
    ensures
        forall|p: int, q: int| #![trigger m[p].0, m[q].0] 0 <= p < q < n ==> m[p].0 != m[q].0,
    decreases n,
{
    if n > 0 {
        lemma_names_distinct(m, n - 1);
        lemma_name_fresh(m[n - 1].0, m, n - 1);
    }
}

proof fn lemma_ext_fresh_in_list(e: Seq<char>, es: Seq<Seq<char>>, n: int)
    requires
        ext_fresh_in_list(e, es, n),
    ensures
        forall|k: int| 0 <= k < n ==> e != #[trigger] es[k],
    decreases n,
{
    if n > 0 {
        lemma_ext_fresh_in_list(e, es, n - 1);
    }
}

proof fn lemma_ext_fresh_upto(e: Seq<char>, m: Seq<(Seq<char>, Seq<Seq<char>>)>, n: int)
    requires
        ext_fresh_upto(e, m, n),
    ensures
        forall|j: int| 0 <= j < n ==> !model_has_ext(#[trigger] m[j], e),
    decreases n,
{
    if n > 0 {
        lemma_ext_fresh_upto(e, m, n - 1);
        lemma_ext_fresh_in_list(e, m[n - 1].1, m[n - 1].1.len() as int);
        assert forall|j: int| 0 <= j < n implies !model_has_ext(#[trigger] m[j], e) by {
            if j == n - 1 && model_has_ext(m[j], e) {
                let k = choose|k: int| 0 <= k < m[j].1.len() && m[j].1[k] == e;
                assert(e != m[j].1[k]);
            }
        }
    }
}

proof fn lemma_exts_fresh_upto(
    es: Seq<Seq<char>>,
    m: Seq<(Seq<char>, Seq<Seq<char>>)>,
    j: int,
    n: int,
)
    requires
        exts_fresh_upto(es, m, j, n),
    ensures
        forall|k: int, p: int|
            #![trigger model_has_ext(m[p], es[k])]
            0 <= k < n && 0 <= p < j ==> !model_has_ext(m[p], es[k]),
    decreases n,
{
    if n > 0 {
        lemma_exts_fresh_upto(es, m, j, n - 1);
        lemma_ext_fresh_upto(es[n - 1], m, j);
    }
}

/// The stepwise extension check implies cross-language disjointness.
proof fn lemma_exts_distinct(m: Seq<(Seq<char>, Seq<Seq<char>>)>, n: int)
    requires
        exts_distinct_upto(m, n),
    ensures
        forall|i: int, j: int, e: Seq<char>|
            #![trigger model_has_ext(m[i], e), model_has_ext(m[j], e)]
            0 <= i < j < n ==> !(model_has_ext(m[i], e) && model_has_ext(m[j], e)),
    decreases n,
{
    if n > 0 {
        lemma_exts_distinct(m, n - 1);
        lemma_exts_fresh_upto(m[n - 1].1, m, n - 1, m[n - 1].1.len() as int);
        assert forall|i: int, j: int, e: Seq<char>|
            #![trigger model_has_ext(m[i], e), model_has_ext(m[j], e)]
            0 <= i < j < n implies !(model_has_ext(m[i], e) && model_has_ext(m[j], e)) by {
            if j == n - 1 && model_has_ext(m[i], e) && model_has_ext(m[j], e) {
                let k = choose|k: int| 0 <= k < m[j].1.len() && m[j].1[k] == e;
                assert(!model_has_ext(m[i], m[j].1[k]));
            }
        }
    }
}

/// The names of the built-in model, pairwise distinct.
#[verifier::rlimit(100)]
#[verifier::spinoff_prover]
proof fn lemma_default_names_distinct()
    ensures
        names_distinct_upto(default_model(), 28),
{
    reveal_strlit("Python");
    reveal_strlit("JavaScript");
    reveal_strlit("Java");
    reveal_strlit("C/C++");
    reveal_strlit("C#");
    reveal_strlit("PHP");
    reveal_strlit("Perl");
    reveal_strlit("Rust");
    reveal_strlit("HTML");
    reveal_strlit("Shell script");
    reveal_strlit("TypeScript");
    reveal_strlit("Batch script");
    reveal_strlit("R");
    reveal_strlit("Objective-C");
    reveal_strlit("Swift");
    reveal_strlit("Kotlin");
    reveal_strlit("Go");
    reveal_strlit("Ruby");
    reveal_strlit("Scala");
    reveal_strlit("Ada");
    reveal_strlit("Dart");
    reveal_strlit("Lua");
    reveal_strlit("Groovy");
    reveal_strlit("Julia");
    reveal_strlit("Cobol");
    reveal_strlit("Pascal");
    reveal_strlit("Haskell");
    reveal_strlit("GDScript");
    assert("Python"@.len() == 6);
    assert("JavaScript"@.len() == 10);
    assert("Java"@.len() == 4);
    assert("C/C++"@.len() == 5);
    assert("C#"@.len() == 2);
    assert("PHP"@.len() == 3);
    assert("Perl"@.len() == 4);
    assert("Rust"@.len() == 4);
    assert("HTML"@.len() == 4);
    assert("Shell script"@.len() == 12);
    assert("TypeScript"@.len() == 10);
    assert("Batch script"@.len() == 12);
    assert("R"@.len() == 1);
    assert("Objective-C"@.len() == 11);
    assert("Swift"@.len() == 5);
    assert("Kotlin"@.len() == 6);
    assert("Go"@.len() == 2);
    assert("Ruby"@.len() == 4);
    assert("Scala"@.len() == 5);
    assert("Ada"@.len() == 3);
    assert("Dart"@.len() == 4);
    assert("Lua"@.len() == 3);
    assert("Groovy"@.len() == 6);
    assert("Julia"@.len() == 5);
    assert("Cobol"@.len() == 5);
    assert("Pascal"@.len() == 6);
    assert("Haskell"@.len() == 7);
    assert("GDScript"@.len() == 8);
    assert("Python"@[0] == 'P');
    assert("Python"@[1] == 'y');
    assert("Python"@[2] == 't');
    assert("Python"@[3] == 'h');
    assert("Python"@[4] == 'o');
    assert("Python"@[5] == 'n');
    assert("JavaScript"@[0] == 'J');
    assert("JavaScript"@[1] == 'a');
    assert("JavaScript"@[2] == 'v');
    assert("JavaScript"@[3] == 'a');
    assert("JavaScript"@[4] == 'S');
    assert("JavaScript"@[5] == 'c');
    assert("JavaScript"@[6] == 'r');
    assert("JavaScript"@[7] == 'i');
    assert("JavaScript"@[8] == 'p');
    assert("JavaScript"@[9] == 't');
    assert("Java"@[0] == 'J');
    assert("Java"@[1] == 'a');
    assert("Java"@[2] == 'v');
    assert("Java"@[3] == 'a');
    assert("C/C++"@[0] == 'C');
    assert("C/C++"@[1] == '/');
    assert("C/C++"@[2] == 'C');
    assert("C/C++"@[3] == '+');
    assert("C/C++"@[4] == '+');
    assert("C#"@[0] == 'C');
    assert("C#"@[1] == '#');
    assert("PHP"@[0] == 'P');
    assert("PHP"@[1] == 'H');
    assert("PHP"@[2] == 'P');
    assert("Perl"@[0] == 'P');
    assert("Perl"@[1] == 'e');
    assert("Perl"@[2] == 'r');
    assert("Perl"@[3] == 'l');
    assert("Rust"@[0] == 'R');
    assert("Rust"@[1] == 'u');
    assert("Rust"@[2] == 's');
    assert("Rust"@[3] == 't');
    assert("HTML"@[0] == 'H');
    assert("HTML"@[1] == 'T');
    assert("HTML"@[2] == 'M');
    assert("HTML"@[3] == 'L');
    assert("Shell script"@[0] == 'S');
    assert("Shell script"@[1] == 'h');
    assert("Shell script"@[2] == 'e');
    assert("Shell script"@[3] == 'l');
    assert("Shell script"@[4] == 'l');
    assert("Shell script"@[5] == ' ');
    assert("Shell script"@[6] == 's');
    assert("Shell script"@[7] == 'c');
    assert("Shell script"@[8] == 'r');
    assert("Shell script"@[9] == 'i');
    assert("Shell script"@[10] == 'p');
    assert("Shell script"@[11] == 't');
    assert("TypeScript"@[0] == 'T');
    assert("TypeScript"@[1] == 'y');
    assert("TypeScript"@[2] == 'p');
    assert("TypeScript"@[3] == 'e');
    assert("TypeScript"@[4] == 'S');
    assert("TypeScript"@[5] == 'c');
    assert("TypeScript"@[6] == 'r');
    assert("TypeScript"@[7] == 'i');
    assert("TypeScript"@[8] == 'p');
    assert("TypeScript"@[9] == 't');
    assert("Batch script"@[0] == 'B');
    assert("Batch script"@[1] == 'a');
    assert("Batch script"@[2] == 't');
    assert("Batch script"@[3] == 'c');
    assert("Batch script"@[4] == 'h');
    assert("Batch script"@[5] == ' ');
    assert("Batch script"@[6] == 's');
    assert("Batch script"@[7] == 'c');
    assert("Batch script"@[8] == 'r');
    assert("Batch script"@[9] == 'i');
    assert("Batch script"@[10] == 'p');
    assert("Batch script"@[11] == 't');
    assert("R"@[0] == 'R');
    assert("Objective-C"@[0] == 'O');
    assert("Objective-C"@[1] == 'b');
    assert("Objective-C"@[2] == 'j');
    assert("Objective-C"@[3] == 'e');
    assert("Objective-C"@[4] == 'c');
    assert("Objective-C"@[5] == 't');
    assert("Objective-C"@[6] == 'i');
    assert("Objective-C"@[7] == 'v');
    assert("Objective-C"@[8] == 'e');
    assert("Objective-C"@[9] == '-');
    assert("Objective-C"@[10] == 'C');
    assert("Swift"@[0] == 'S');
    assert("Swift"@[1] == 'w');
    assert("Swift"@[2] == 'i');
    assert("Swift"@[3] == 'f');
    assert("Swift"@[4] == 't');
    assert("Kotlin"@[0] == 'K');
    assert("Kotlin"@[1] == 'o');
    assert("Kotlin"@[2] == 't');
    assert("Kotlin"@[3] == 'l');
    assert("Kotlin"@[4] == 'i');
    assert("Kotlin"@[5] == 'n');
    assert("Go"@[0] == 'G');
    assert("Go"@[1] == 'o');
    assert("Ruby"@[0] == 'R');
    assert("Ruby"@[1] == 'u');
    assert("Ruby"@[2] == 'b');
    assert("Ruby"@[3] == 'y');
    assert("Scala"@[0] == 'S');
    assert("Scala"@[1] == 'c');
    assert("Scala"@[2] == 'a');
    assert("Scala"@[3] == 'l');
    assert("Scala"@[4] == 'a');
    assert("Ada"@[0] == 'A');
    assert("Ada"@[1] == 'd');
    assert("Ada"@[2] == 'a');
    assert("Dart"@[0] == 'D');
    assert("Dart"@[1] == 'a');
    assert("Dart"@[2] == 'r');
    assert("Dart"@[3] == 't');
    assert("Lua"@[0] == 'L');
    assert("Lua"@[1] == 'u');
    assert("Lua"@[2] == 'a');
    assert("Groovy"@[0] == 'G');
    assert("Groovy"@[1] == 'r');
    assert("Groovy"@[2] == 'o');
    assert("Groovy"@[3] == 'o');
    assert("Groovy"@[4] == 'v');
    assert("Groovy"@[5] == 'y');
    assert("Julia"@[0] == 'J');
    assert("Julia"@[1] == 'u');
    assert("Julia"@[2] == 'l');
    assert("Julia"@[3] == 'i');
    assert("Julia"@[4] == 'a');
    assert("Cobol"@[0] == 'C');
    assert("Cobol"@[1] == 'o');
    assert("Cobol"@[2] == 'b');
    assert("Cobol"@[3] == 'o');
    assert("Cobol"@[4] == 'l');
    assert("Pascal"@[0] == 'P');
    assert("Pascal"@[1] == 'a');
    assert("Pascal"@[2] == 's');
    assert("Pascal"@[3] == 'c');
    assert("Pascal"@[4] == 'a');
    assert("Pascal"@[5] == 'l');
    assert("Haskell"@[0] == 'H');
    assert("Haskell"@[1] == 'a');
    assert("Haskell"@[2] == 's');
    assert("Haskell"@[3] == 'k');
    assert("Haskell"@[4] == 'e');
    assert("Haskell"@[5] == 'l');
    assert("Haskell"@[6] == 'l');
    assert("GDScript"@[0] == 'G');
    assert("GDScript"@[1] == 'D');
    assert("GDScript"@[2] == 'S');
    assert("GDScript"@[3] == 'c');
    assert("GDScript"@[4] == 'r');
    assert("GDScript"@[5] == 'i');
    assert("GDScript"@[6] == 'p');
    assert("GDScript"@[7] == 't');
    let m = default_model();
    assert(m.len() == 28);
    reveal_with_fuel(names_distinct_upto, 3);
    reveal_with_fuel(name_fresh_upto, 30);
    assert(names_distinct_upto(m, 1));
    assert(names_distinct_upto(m, 2));
    assert(names_distinct_upto(m, 3));
    assert(names_distinct_upto(m, 4));
    assert(names_distinct_upto(m, 5));
    assert(names_distinct_upto(m, 6));
    assert(names_distinct_upto(m, 7));
    assert(names_distinct_upto(m, 8));
    assert(names_distinct_upto(m, 9));
    assert(names_distinct_upto(m, 10));
    assert(names_distinct_upto(m, 11));
    assert(names_distinct_upto(m, 12));
    assert(names_distinct_upto(m, 13));
    assert(names_distinct_upto(m, 14));
    assert(names_distinct_upto(m, 15));
    assert(names_distinct_upto(m, 16));
    assert(names_distinct_upto(m, 17));
    assert(names_distinct_upto(m, 18));
    assert(names_distinct_upto(m, 19));
    assert(names_distinct_upto(m, 20));
    assert(names_distinct_upto(m, 21));
    assert(names_distinct_upto(m, 22));
    assert(names_distinct_upto(m, 23));
    assert(names_distinct_upto(m, 24));
    assert(names_distinct_upto(m, 25));
    assert(names_distinct_upto(m, 26));
    assert(names_distinct_upto(m, 27));
    assert(names_distinct_upto(m, 28));
}

/// The extension sets of the built-in model, pairwise disjoint across
/// languages.
#[verifier::rlimit(100)]
#[verifier::spinoff_prover]
proof fn lemma_default_exts_distinct()
    ensures
        exts_distinct_upto(default_model(), 28),
{
    reveal_strlit("py");
    reveal_strlit("pyi");
    reveal_strlit("pyc");
    reveal_strlit("pyw");
    reveal_strlit("js");
    reveal_strlit("jsx");
    reveal_strlit("java");
    reveal_strlit("cpp");
    reveal_strlit("cxx");
    reveal_strlit("hpp");
    reveal_strlit("hxx");
    reveal_strlit("c");
    reveal_strlit("cc");
    reveal_strlit("h");
    reveal_strlit("cs");
    reveal_strlit("csx");
    reveal_strlit("php");
    reveal_strlit("phtml");
    reveal_strlit("php3");
    reveal_strlit("php4");
    reveal_strlit("php5");
    reveal_strlit("php7");
    reveal_strlit("phps");
    reveal_strlit("php-s");
    reveal_strlit("pht");
    reveal_strlit("phar");
    reveal_strlit("plx");
    reveal_strlit("pl");
    reveal_strlit("pm");
    reveal_strlit("xs");
    reveal_strlit("t");
    reveal_strlit("pod");
    reveal_strlit("rs");
    reveal_strlit("html");
    reveal_strlit("htm");
    reveal_strlit("sh");
    reveal_strlit("ts");
    reveal_strlit("tsx");
    reveal_strlit("bat");
    reveal_strlit("cmd");
    reveal_strlit("r");
    reveal_strlit("m");
    reveal_strlit("mm");
    reveal_strlit("M");
    reveal_strlit("swift");
    reveal_strlit("kt");
    reveal_strlit("go");
    reveal_strlit("rb");
    reveal_strlit("scala");
    reveal_strlit("ada");
    reveal_strlit("dart");
    reveal_strlit("lua");
    reveal_strlit("gradle");
    reveal_strlit("groovy");
    reveal_strlit("jl");
    reveal_strlit("cobol");
    reveal_strlit("pas");
    reveal_strlit("hs");
    reveal_strlit("gd");
    assert("py"@.len() == 2);
    assert("pyi"@.len() == 3);
    assert("pyc"@.len() == 3);
    assert("pyw"@.len() == 3);
    assert("js"@.len() == 2);
    assert("jsx"@.len() == 3);
    assert("java"@.len() == 4);
    assert("cpp"@.len() == 3);
    assert("cxx"@.len() == 3);
    assert("hpp"@.len() == 3);
    assert("hxx"@.len() == 3);
    assert("c"@.len() == 1);
    assert("cc"@.len() == 2);
    assert("h"@.len() == 1);
    assert("cs"@.len() == 2);
    assert("csx"@.len() == 3);
    assert("php"@.len() == 3);
    assert("phtml"@.len() == 5);
    assert("php3"@.len() == 4);
    assert("php4"@.len() == 4);
    assert("php5"@.len() == 4);
    assert("php7"@.len() == 4);
    assert("phps"@.len() == 4);
    assert("php-s"@.len() == 5);
    assert("pht"@.len() == 3);
    assert("phar"@.len() == 4);
    assert("plx"@.len() == 3);
    assert("pl"@.len() == 2);
    assert("pm"@.len() == 2);
    assert("xs"@.len() == 2);
    assert("t"@.len() == 1);
    assert("pod"@.len() == 3);
    assert("rs"@.len() == 2);
    assert("html"@.len() == 4);
    assert("htm"@.len() == 3);
    assert("sh"@.len() == 2);
    assert("ts"@.len() == 2);
    assert("tsx"@.len() == 3);
    assert("bat"@.len() == 3);
    assert("cmd"@.len() == 3);
    assert("r"@.len() == 1);
    assert("m"@.len() == 1);
    assert("mm"@.len() == 2);
    assert("M"@.len() == 1);
    assert("swift"@.len() == 5);
    assert("kt"@.len() == 2);
    assert("go"@.len() == 2);
    assert("rb"@.len() == 2);
    assert("scala"@.len() == 5);
    assert("ada"@.len() == 3);
    assert("dart"@.len() == 4);
    assert("lua"@.len() == 3);
    assert("gradle"@.len() == 6);
    assert("groovy"@.len() == 6);
    assert("jl"@.len() == 2);
    assert("cobol"@.len() == 5);
    assert("pas"@.len() == 3);
    assert("hs"@.len() == 2);
    assert("gd"@.len() == 2);
    assert("py"@[0] == 'p');
    assert("py"@[1] == 'y');
    assert("pyi"@[0] == 'p');
    assert("pyi"@[1] == 'y');
    assert("pyi"@[2] == 'i');
    assert("pyc"@[0] == 'p');
    assert("pyc"@[1] == 'y');
    assert("pyc"@[2] == 'c');
    assert("pyw"@[0] == 'p');
    assert("pyw"@[1] == 'y');
    assert("pyw"@[2] == 'w');
    assert("js"@[0] == 'j');
    assert("js"@[1] == 's');
    assert("jsx"@[0] == 'j');
    assert("jsx"@[1] == 's');
    assert("jsx"@[2] == 'x');
    assert("java"@[0] == 'j');
    assert("java"@[1] == 'a');
    assert("java"@[2] == 'v');
    assert("java"@[3] == 'a');
    assert("cpp"@[0] == 'c');
    assert("cpp"@[1] == 'p');
    assert("cpp"@[2] == 'p');
    assert("cxx"@[0] == 'c');
    assert("cxx"@[1] == 'x');
    assert("cxx"@[2] == 'x');
    assert("hpp"@[0] == 'h');
    assert("hpp"@[1] == 'p');
    assert("hpp"@[2] == 'p');
    assert("hxx"@[0] == 'h');
    assert("hxx"@[1] == 'x');
    assert("hxx"@[2] == 'x');
    assert("c"@[0] == 'c');
    assert("cc"@[0] == 'c');
    assert("cc"@[1] == 'c');
    assert("h"@[0] == 'h');
    assert("cs"@[0] == 'c');
    assert("cs"@[1] == 's');
    assert("csx"@[0] == 'c');
    assert("csx"@[1] == 's');
    assert("csx"@[2] == 'x');
    assert("php"@[0] == 'p');
    assert("php"@[1] == 'h');
    assert("php"@[2] == 'p');
    assert("phtml"@[0] == 'p');
    assert("phtml"@[1] == 'h');
    assert("phtml"@[2] == 't');
    assert("phtml"@[3] == 'm');
    assert("phtml"@[4] == 'l');
    assert("php3"@[0] == 'p');
    assert("php3"@[1] == 'h');
    assert("php3"@[2] == 'p');
    assert("php3"@[3] == '3');
    assert("php4"@[0] == 'p');
    assert("php4"@[1] == 'h');
    assert("php4"@[2] == 'p');
    assert("php4"@[3] == '4');
    assert("php5"@[0] == 'p');
    assert("php5"@[1] == 'h');
    assert("php5"@[2] == 'p');
    assert("php5"@[3] == '5');
    assert("php7"@[0] == 'p');
    assert("php7"@[1] == 'h');
    assert("php7"@[2] == 'p');
    assert("php7"@[3] == '7');
    assert("phps"@[0] == 'p');
    assert("phps"@[1] == 'h');
    assert("phps"@[2] == 'p');
    assert("phps"@[3] == 's');
    assert("php-s"@[0] == 'p');
    assert("php-s"@[1] == 'h');
    assert("php-s"@[2] == 'p');
    assert("php-s"@[3] == '-');
    assert("php-s"@[4] == 's');
    assert("pht"@[0] == 'p');
    assert("pht"@[1] == 'h');
    assert("pht"@[2] == 't');
    assert("phar"@[0] == 'p');
    assert("phar"@[1] == 'h');
    assert("phar"@[2] == 'a');
    assert("phar"@[3] == 'r');
    assert("plx"@[0] == 'p');
    assert("plx"@[1] == 'l');
    assert("plx"@[2] == 'x');
    assert("pl"@[0] == 'p');
    assert("pl"@[1] == 'l');
    assert("pm"@[0] == 'p');
    assert("pm"@[1] == 'm');
    assert("xs"@[0] == 'x');
    assert("xs"@[1] == 's');
    assert("t"@[0] == 't');
    assert("pod"@[0] == 'p');
    assert("pod"@[1] == 'o');
    assert("pod"@[2] == 'd');
    assert("rs"@[0] == 'r');
    assert("rs"@[1] == 's');
    assert("html"@[0] == 'h');
    assert("html"@[1] == 't');
    assert("html"@[2] == 'm');
    assert("html"@[3] == 'l');
    assert("htm"@[0] == 'h');
    assert("htm"@[1] == 't');
    assert("htm"@[2] == 'm');
    assert("sh"@[0] == 's');
    assert("sh"@[1] == 'h');
    assert("ts"@[0] == 't');
    assert("ts"@[1] == 's');
    assert("tsx"@[0] == 't');
    assert("tsx"@[1] == 's');
    assert("tsx"@[2] == 'x');
    assert("bat"@[0] == 'b');
    assert("bat"@[1] == 'a');
    assert("bat"@[2] == 't');
    assert("cmd"@[0] == 'c');
    assert("cmd"@[1] == 'm');
    assert("cmd"@[2] == 'd');
    assert("r"@[0] == 'r');
    assert("m"@[0] == 'm');
    assert("mm"@[0] == 'm');
    assert("mm"@[1] == 'm');
    assert("M"@[0] == 'M');
    assert("swift"@[0] == 's');
    assert("swift"@[1] == 'w');
    assert("swift"@[2] == 'i');
    assert("swift"@[3] == 'f');
    assert("swift"@[4] == 't');
    assert("kt"@[0] == 'k');
    assert("kt"@[1] == 't');
    assert("go"@[0] == 'g');
    assert("go"@[1] == 'o');
    assert("rb"@[0] == 'r');
    assert("rb"@[1] == 'b');
    assert("scala"@[0] == 's');
    assert("scala"@[1] == 'c');
    assert("scala"@[2] == 'a');
    assert("scala"@[3] == 'l');
    assert("scala"@[4] == 'a');
    assert("ada"@[0] == 'a');
    assert("ada"@[1] == 'd');
    assert("ada"@[2] == 'a');
    assert("dart"@[0] == 'd');
    assert("dart"@[1] == 'a');
    assert("dart"@[2] == 'r');
    assert("dart"@[3] == 't');
    assert("lua"@[0] == 'l');
    assert("lua"@[1] == 'u');
    assert("lua"@[2] == 'a');
    assert("gradle"@[0] == 'g');
    assert("gradle"@[1] == 'r');
    assert("gradle"@[2] == 'a');
    assert("gradle"@[3] == 'd');
    assert("gradle"@[4] == 'l');
    assert("gradle"@[5] == 'e');
    assert("groovy"@[0] == 'g');
    assert("groovy"@[1] == 'r');
    assert("groovy"@[2] == 'o');
    assert("groovy"@[3] == 'o');
    assert("groovy"@[4] == 'v');
    assert("groovy"@[5] == 'y');
    assert("jl"@[0] == 'j');
    assert("jl"@[1] == 'l');
    assert("cobol"@[0] == 'c');
    assert("cobol"@[1] == 'o');
    assert("cobol"@[2] == 'b');
    assert("cobol"@[3] == 'o');
    assert("cobol"@[4] == 'l');
    assert("pas"@[0] == 'p');
    assert("pas"@[1] == 'a');
    assert("pas"@[2] == 's');
    assert("hs"@[0] == 'h');
    assert("hs"@[1] == 's');
    assert("gd"@[0] == 'g');
    assert("gd"@[1] == 'd');
    let m = default_model();
    assert(m.len() == 28);
    reveal_with_fuel(exts_distinct_upto, 3);
    reveal_with_fuel(exts_fresh_upto, 12);
    reveal_with_fuel(ext_fresh_upto, 30);
    reveal_with_fuel(ext_fresh_in_list, 12);
    assert(exts_distinct_upto(m, 1));
    assert(exts_distinct_upto(m, 2));
    assert(exts_distinct_upto(m, 3));
    assert(exts_distinct_upto(m, 4));
    assert(exts_distinct_upto(m, 5));
    assert(exts_distinct_upto(m, 6));
    assert(exts_distinct_upto(m, 7));
    assert(exts_distinct_upto(m, 8));
    assert(exts_distinct_upto(m, 9));
    assert(exts_distinct_upto(m, 10));
    assert(exts_distinct_upto(m, 11));
    assert(exts_distinct_upto(m, 12));
    assert(exts_distinct_upto(m, 13));
    assert(exts_distinct_upto(m, 14));
    assert(exts_distinct_upto(m, 15));
    assert(exts_distinct_upto(m, 16));
    assert(exts_distinct_upto(m, 17));
    assert(exts_distinct_upto(m, 18));
    assert(exts_distinct_upto(m, 19));
    assert(exts_distinct_upto(m, 20));
    assert(exts_distinct_upto(m, 21));
    assert(exts_distinct_upto(m, 22));
    assert(exts_distinct_upto(m, 23));
    assert(exts_distinct_upto(m, 24));
    assert(exts_distinct_upto(m, 25));
    assert(exts_distinct_upto(m, 26));
    assert(exts_distinct_upto(m, 27));
    assert(exts_distinct_upto(m, 28));
}

/// The built-in model itself is well formed: its 28 languages carry
/// pairwise different names and pairwise disjoint extension sets.
pub proof fn lemma_default_model_wf()
    ensures
        model_names_unique(default_model()),
        model_exts_disjoint(default_model()),
{
    let m = default_model();
    assert(m.len() == 28);
    lemma_default_names_distinct();
    lemma_names_distinct(m, 28);
    lemma_default_exts_distinct();
    lemma_exts_distinct(m, 28);
}

/// An owned copy of a string literal.
fn lit(x: &str) -> (r: String)
    ensures
        r@ == x@,
{
    x.to_owned()
}

/// Builds the built-in registry: the languages of `default_model`, checked
/// for well-formedness on construction. Extension sets that would collide
/// are rejected rather than silently overwritten, so `None` could only mean
/// the built-in data itself is inconsistent — which it is not.
pub fn default_table() -> (r: Option<LanguageTable>)
    ensures
        r is Some,
        r matches Some(t) ==> table_wf(t) && langs_model(t.langs@) == default_model(),
{
    let mut langs: Vec<Language> = Vec::new();
    langs.push(
        Language { name: lit("Python"), exts: vec![lit("py"), lit("pyi"), lit("pyc"), lit("pyw")] },
    );
    langs.push(Language { name: lit("JavaScript"), exts: vec![lit("js"), lit("jsx")] });
    langs.push(Language { name: lit("Java"), exts: vec![lit("java")] });
    langs.push(
        Language {
            name: lit("C/C++"),
            exts: vec![
                lit("cpp"),
                lit("cxx"),
                lit("hpp"),
                lit("hxx"),
                lit("c"),
                lit("cc"),
                lit("h"),
            ],
        },
    );
    langs.push(Language { name: lit("C#"), exts: vec![lit("cs"), lit("csx")] });
    langs.push(
        Language {
            name: lit("PHP"),
            exts: vec![
                lit("php"),
                lit("phtml"),
                lit("php3"),
                lit("php4"),
                lit("php5"),
                lit("php7"),
                lit("phps"),
                lit("php-s"),
                lit("pht"),
                lit("phar"),
            ],
        },
    );
    langs.push(
        Language {
            name: lit("Perl"),
            exts: vec![lit("plx"), lit("pl"), lit("pm"), lit("xs"), lit("t"), lit("pod")],
        },
    );
    langs.push(Language { name: lit("Rust"), exts: vec![lit("rs")] });
    langs.push(Language { name: lit("HTML"), exts: vec![lit("html"), lit("htm")] });
    langs.push(Language { name: lit("Shell script"), exts: vec![lit("sh")] });
    langs.push(Language { name: lit("TypeScript"), exts: vec![lit("ts"), lit("tsx")] });
    langs.push(Language { name: lit("Batch script"), exts: vec![lit("bat"), lit("cmd")] });
    langs.push(Language { name: lit("R"), exts: vec![lit("r")] });
    langs.push(Language { name: lit("Objective-C"), exts: vec![lit("m"), lit("mm"), lit("M")] });
    langs.push(Language { name: lit("Swift"), exts: vec![lit("swift")] });
    langs.push(Language { name: lit("Kotlin"), exts: vec![lit("kt")] });
    langs.push(Language { name: lit("Go"), exts: vec![lit("go")] });
    langs.push(Language { name: lit("Ruby"), exts: vec![lit("rb")] });
    langs.push(Language { name: lit("Scala"), exts: vec![lit("scala")] });
    langs.push(Language { name: lit("Ada"), exts: vec![lit("ada")] });
    langs.push(Language { name: lit("Dart"), exts: vec![lit("dart")] });
    langs.push(Language { name: lit("Lua"), exts: vec![lit("lua")] });
    langs.push(Language { name: lit("Groovy"), exts: vec![lit("gradle"), lit("groovy")] });
    langs.push(Language { name: lit("Julia"), exts: vec![lit("jl")] });
    langs.push(Language { name: lit("Cobol"), exts: vec![lit("cobol")] });
    langs.push(Language { name: lit("Pascal"), exts: vec![lit("pas")] });
    langs.push(Language { name: lit("Haskell"), exts: vec![lit("hs")] });
    langs.push(Language { name: lit("GDScript"), exts: vec![lit("gd")] });
    proof {
        assert(langs_model(langs@) =~~= default_model());
        lemma_default_model_wf();
        lemma_model_reflects_wf(langs@);
        assert(exts_disjoint(langs@) && names_unique(langs@));
    }
    LanguageTable::try_new(langs)
}

} // verus!
