//! The filter predicate: exclusion list, language filter, and the two
//! title-matching modes (substring and whole-word), together with the
//! builder of the exclusion list.

use vstd::prelude::*;
use crate::text::{
    char_is_alphabetic, chars_eq, chars_of, contains_sub, is_alpha, is_substring, lower_of,
    lowercase, range_matches, string_from_chars,
};

verus! {

/// `[i, j)` delimits one token of `title` as split on non-alphabetic
/// characters: every character inside is alphabetic and both neighbours,
/// where they exist, are not. Tokens may be empty, as between two adjacent
/// non-alphabetic characters.
pub open spec fn token_at(title: Seq<char>, i: int, j: int) -> bool {
    &&& 0 <= i <= j <= title.len()
    &&& forall|k: int| i <= k < j ==> is_alpha(#[trigger] title[k])
    &&& (i == 0 || !is_alpha(title[i - 1]))
    &&& (j == title.len() || !is_alpha(title[j]))
}

/// Some token of `title` equals `term`.
pub open spec fn has_word_match(title: Seq<char>, term: Seq<char>) -> bool {
    exists|i: int, j: int| token_at(title, i, j) && #[trigger] title.subrange(i, j) == term
}

/// `tok` equals one of `terms`.
pub open spec fn eq_some_term(tok: Seq<char>, terms: Seq<Seq<char>>) -> bool {
    exists|t: int| 0 <= t < terms.len() && terms[t] == tok
}

/// Some token of `title` equals some term.
pub open spec fn any_word_match(title: Seq<char>, terms: Seq<Seq<char>>) -> bool {
    exists|t: int| 0 <= t < terms.len() && has_word_match(title, #[trigger] terms[t])
}

/// Every term is a substring of `title`.
pub open spec fn all_substrings(title: Seq<char>, terms: Seq<Seq<char>>) -> bool {
    forall|t: int| 0 <= t < terms.len() ==> is_substring(#[trigger] terms[t], title)
}

/// Some term is a substring of `title`.
pub open spec fn any_substring(title: Seq<char>, terms: Seq<Seq<char>>) -> bool {
    exists|t: int| 0 <= t < terms.len() && is_substring(#[trigger] terms[t], title)
}

/// The filter predicate over already-folded values. `lower_name` and
/// `lower_title` are the entry's display name and title after lowercasing;
/// the terms and the exclusion entries are taken as given.
pub open spec fn matches_view(
    whole_word: bool,
    require_all: bool,
    terms: Seq<Seq<char>>,
    excluded: Seq<Seq<char>>,
    lang_filter: Option<Seq<char>>,
    entry_lang: Seq<char>,
    lower_name: Seq<char>,
    lower_title: Seq<char>,
) -> bool {
    if excluded.contains(lower_name) {
        false
    } else if match lang_filter {
        Option::Some(l) => l != entry_lang,
        Option::None => false,
    } {
        false
    } else if whole_word {
        any_word_match(lower_title, terms)
    } else if require_all {
        all_substrings(lower_title, terms)
    } else {
        any_substring(lower_title, terms)
    }
}

/// The unique start of a token ending at `p`: where `[start, p)` is all
/// alphabetic with a non-alphabetic left neighbour, no other `i` delimits a
/// token `[i, p)`.
proof fn lemma_token_start_unique(title: Seq<char>, start: int, p: int)
    requires
        0 <= start <= p <= title.len(),
        forall|k: int| start <= k < p ==> is_alpha(#[trigger] title[k]),
        start == 0 || !is_alpha(title[start - 1]),
    ensures
        forall|i: int| token_at(title, i, p) ==> i == start,
{
    assert forall|i: int| token_at(title, i, p) implies i == start by {
        if i < start {
            assert(is_alpha(title[start - 1]));
        } else if i > start {
            assert(is_alpha(title[i - 1]));
        }
    }
}

/// Whether the token `title[from..to]` equals some term.
fn token_eq_some_term(title: &Vec<char>, from: usize, to: usize, terms: &Vec<Vec<char>>) -> (r:
    bool)
    requires
        from <= to <= title@.len(),
    ensures
        r == eq_some_term(title@.subrange(from as int, to as int), terms.deep_view()),
{
    let mut t: usize = 0;
    while t < terms.len()
        invariant
            from <= to <= title@.len(),
            t <= terms@.len(),
            terms.deep_view().len() == terms@.len(),
            forall|k: int|
                0 <= k < t ==> #[trigger] terms.deep_view()[k] != title@.subrange(
                    from as int,
                    to as int,
                ),
        decreases terms@.len() - t,
    {
        proof {
            assert(terms.deep_view()[t as int] =~= terms@[t as int]@);
        }
        if terms[t].len() == to - from {
            if range_matches(title, from, &terms[t]) {
                proof {
                    assert(title@.subrange(from as int, from + terms@[t as int]@.len())
                        =~= title@.subrange(from as int, to as int));
                    assert(eq_some_term(title@.subrange(from as int, to as int), terms.deep_view()));
                }
                return true;
            }
        }
        t = t + 1;
    }
    proof {
        if eq_some_term(title@.subrange(from as int, to as int), terms.deep_view()) {
            let w = choose|w: int|
                0 <= w < terms.deep_view().len() && terms.deep_view()[w] == title@.subrange(
                    from as int,
                    to as int,
                );
            assert(terms.deep_view()[w] != title@.subrange(from as int, to as int));
        }
    }
    false
}

/// Whether some token of `title`, split on non-alphabetic characters,
/// equals some term.
fn word_match_exec(title: &Vec<char>, terms: &Vec<Vec<char>>) -> (r: bool)
    ensures
        r == any_word_match(title@, terms.deep_view()),
{
    let n: usize = title.len();
    let mut start: usize = 0;
    let mut p: usize = 0;
    loop
        invariant
            n == title@.len(),
            start <= p <= n,
            forall|k: int| start <= k < p ==> is_alpha(#[trigger] title@[k]),
            start == 0 || !is_alpha(title@[start - 1]),
            forall|i: int, j: int|
                token_at(title@, i, j) && j < p ==> !eq_some_term(
                    #[trigger] title@.subrange(i, j),
                    terms.deep_view(),
                ),
        decreases n - p,
    {
        let at_end: bool = p == n;
        let is_delim: bool = if at_end {
            true
        } else {
            !char_is_alphabetic(title[p])
        };
        if is_delim {
            if token_eq_some_term(title, start, p, terms) {
                proof {
                    assert(token_at(title@, start as int, p as int));
                    let w = choose|w: int|
                        0 <= w < terms.deep_view().len() && terms.deep_view()[w]
                            == title@.subrange(start as int, p as int);
                    assert(has_word_match(title@, terms.deep_view()[w]));
                }
                return true;
            }
            proof {
                lemma_token_start_unique(title@, start as int, p as int);
                assert forall|i: int, j: int|
                    token_at(title@, i, j) && j <= p as int implies !eq_some_term(
                    #[trigger] title@.subrange(i, j),
                    terms.deep_view(),
                ) by {
                    if j == p as int {
                        assert(i == start as int);
                    }
                }
            }
            if at_end {
                proof {
                    assert forall|t: int|
                        0 <= t < terms.deep_view().len() implies !has_word_match(
                        title@,
                        #[trigger] terms.deep_view()[t],
                    ) by {
                        if has_word_match(title@, terms.deep_view()[t]) {
                            let (i, j) = choose|i: int, j: int|
                                token_at(title@, i, j) && #[trigger] title@.subrange(i, j)
                                    == terms.deep_view()[t];
                            assert(eq_some_term(title@.subrange(i, j), terms.deep_view()));
                        }
                    }
                }
                return false;
            }
            start = p + 1;
        }
        p = p + 1;
    }
}

/// The filter predicate on already-folded character vectors. Pure: the
/// result is a function of the arguments alone.
pub fn matches_core(
    whole_word: bool,
    require_all: bool,
    terms: &Vec<Vec<char>>,
    excluded: &Vec<Vec<char>>,
    lang_filter: &Option<Vec<char>>,
    entry_lang: &Vec<char>,
    lower_name: &Vec<char>,
    lower_title: &Vec<char>,
) -> (r: bool)
    ensures
        r == matches_view(
            whole_word,
            require_all,
            terms.deep_view(),
            excluded.deep_view(),
            match *lang_filter {
                Option::Some(l) => Option::Some(l@),
                Option::None => Option::None,
            },
            entry_lang@,
            lower_name@,
            lower_title@,
        ),
{
    let mut e: usize = 0;
    while e < excluded.len()
        invariant
            e <= excluded@.len(),
            excluded.deep_view().len() == excluded@.len(),
            forall|k: int| 0 <= k < e ==> #[trigger] excluded.deep_view()[k] != lower_name@,
        decreases excluded@.len() - e,
    {
        proof {
            assert(excluded.deep_view()[e as int] =~= excluded@[e as int]@);
        }
        if chars_eq(&excluded[e], lower_name) {
            proof {
                assert(excluded.deep_view().contains(lower_name@));
            }
            return false;
        }
        e = e + 1;
    }
    proof {
        if excluded.deep_view().contains(lower_name@) {
            let k = choose|k: int|
                0 <= k < excluded.deep_view().len() && excluded.deep_view()[k] == lower_name@;
            assert(excluded.deep_view()[k] != lower_name@);
        }
    }
    match lang_filter {
        Option::Some(l) => {
            if !chars_eq(l, entry_lang) {
                return false;
            }
        },
        Option::None => {},
    }
    if whole_word {
        return word_match_exec(lower_title, terms);
    }
    if require_all {
        let mut t: usize = 0;
        while t < terms.len()
            invariant
                !whole_word,
                require_all,
                t <= terms@.len(),
                terms.deep_view().len() == terms@.len(),
                !excluded.deep_view().contains(lower_name@),
                match *lang_filter {
                    Option::Some(l) => l@ == entry_lang@,
                    Option::None => true,
                },
                forall|k: int|
                    0 <= k < t ==> is_substring(#[trigger] terms.deep_view()[k], lower_title@),
            decreases terms@.len() - t,
        {
            proof {
                assert(terms.deep_view()[t as int] =~= terms@[t as int]@);
            }
            if !contains_sub(lower_title, &terms[t]) {
                return false;
            }
            t = t + 1;
        }
        return true;
    }
    let mut t: usize = 0;
    while t < terms.len()
        invariant
            !whole_word,
            !require_all,
            t <= terms@.len(),
            terms.deep_view().len() == terms@.len(),
            !excluded.deep_view().contains(lower_name@),
            match *lang_filter {
                Option::Some(l) => l@ == entry_lang@,
                Option::None => true,
            },
            forall|k: int|
                0 <= k < t ==> !is_substring(#[trigger] terms.deep_view()[k], lower_title@),
        decreases terms@.len() - t,
    {
        proof {
            assert(terms.deep_view()[t as int] =~= terms@[t as int]@);
        }
        if contains_sub(lower_title, &terms[t]) {
            return true;
        }
        t = t + 1;
    }
    false
}


/// The segments of `s` split on `','`, in order; adjacent or leading or
/// trailing commas yield empty segments, and an empty input yields one
/// empty segment.
pub open spec fn split_commas(s: Seq<char>) -> Seq<Seq<char>>
    decreases s.len(),
{
    if s.len() == 0 {
        seq![s]
    } else if s[0] == ',' {
        seq![Seq::<char>::empty()] + split_commas(s.drop_first())
    } else {
        let rest = split_commas(s.drop_first());
        rest.update(0, seq![s[0]] + rest[0])
    }
}

proof fn lemma_split_commas_nonempty(s: Seq<char>)
    ensures
        split_commas(s).len() >= 1,
    decreases s.len(),
{
    if s.len() > 0 {
        lemma_split_commas_nonempty(s.drop_first());
    }
}

fn split_commas_from(s: &Vec<char>, from: usize) -> (r: Vec<Vec<char>>)
    requires
        from <= s@.len(),
    ensures
        r.deep_view() == split_commas(s@.skip(from as int)),
    decreases s@.len() - from,
{
    proof {
        lemma_split_commas_nonempty(s@.skip(from + 1 as int));
    }
    if from == s.len() {
        let mut r: Vec<Vec<char>> = Vec::new();
        r.push(Vec::new());
        proof {
            assert(s@.skip(from as int) =~= Seq::<char>::empty());
            assert(r.deep_view() =~~= split_commas(s@.skip(from as int)));
        }
        r
    } else if s[from] == ',' {
        let mut r = split_commas_from(s, from + 1);
        r.insert(0, Vec::new());
        proof {
            assert(s@.skip(from as int).drop_first() =~= s@.skip(from + 1 as int));
            assert(r.deep_view() =~~= split_commas(s@.skip(from as int)));
        }
        r
    } else {
        let mut r = split_commas_from(s, from + 1);
        let mut head: Vec<char> = r.remove(0);
        head.insert(0, s[from]);
        r.insert(0, head);
        proof {
            assert(s@.skip(from as int).drop_first() =~= s@.skip(from + 1 as int));
            let rest = split_commas(s@.skip(from + 1 as int));
            assert(head@ =~= seq![s@.skip(from as int)[0]] + rest[0]);
            assert(r.deep_view() =~~= rest.update(0, seq![s@.skip(from as int)[0]] + rest[0]));
            assert(r.deep_view() =~~= split_commas(s@.skip(from as int)));
        }
        r
    }
}

/// The comma-separated segments of `s`, in order.
pub fn split_commas_vec(s: &Vec<char>) -> (r: Vec<Vec<char>>)
    ensures
        r.deep_view() == split_commas(s@),
{
    let r = split_commas_from(s, 0);
    proof {
        assert(s@.skip(0) =~= s@);
    }
    r
}

/// The exclusion list built from the command line's entries and the
/// comma-separated environment value: each entry lowercased, command-line
/// entries first, in the given order.
pub open spec fn exclusions_view(
    cli: Option<Seq<Seq<char>>>,
    env_ignore: Option<Seq<char>>,
) -> Seq<Seq<char>> {
    let base = match cli {
        Option::Some(xs) => xs.map_values(|x: Seq<char>| lower_of(x)),
        Option::None => Seq::<Seq<char>>::empty(),
    };
    match env_ignore {
        Option::Some(e) => base + split_commas(e).map_values(|x: Seq<char>| lower_of(x)),
        Option::None => base,
    }
}

/// The deep view of an optional list of strings.
pub open spec fn opt_strings_view(o: Option<Vec<String>>) -> Option<Seq<Seq<char>>> {
    match o {
        Option::Some(xs) => Option::Some(xs.deep_view()),
        Option::None => Option::None,
    }
}

/// The view of an optional string.
pub open spec fn opt_string_view(o: Option<String>) -> Option<Seq<char>> {
    match o {
        Option::Some(s) => Option::Some(s@),
        Option::None => Option::None,
    }
}

/// The first half of `exclusions_view`: the lowercased command-line
/// entries.
pub open spec fn exclusions_base(cli: Option<Seq<Seq<char>>>) -> Seq<Seq<char>> {
    match cli {
        Option::Some(xs) => xs.map_values(|x: Seq<char>| lower_of(x)),
        Option::None => Seq::<Seq<char>>::empty(),
    }
}

/// The exclusion list: the command-line entries, then the comma-separated
/// segments of the environment value, each lowercased.
pub fn exclusions(cli: Option<Vec<String>>, env_ignore: Option<String>) -> (r: Vec<String>)
    ensures
        r.deep_view() == exclusions_view(opt_strings_view(cli), opt_string_view(env_ignore)),
{
    let ghost base: Seq<Seq<char>> = exclusions_base(opt_strings_view(cli));
    let mut r: Vec<String> = Vec::new();
    match cli {
        Option::Some(xs) => {
            let mut i: usize = 0;
            while i < xs.len()
                invariant
                    i <= xs@.len(),
                    xs.deep_view().len() == xs@.len(),
                    base == xs.deep_view().map_values(|x: Seq<char>| lower_of(x)),
                    r@.len() == i,
                    forall|k: int| 0 <= k < i ==> #[trigger] r@[k]@ == base[k],
                decreases xs@.len() - i,
            {
                proof {
                    assert(xs.deep_view()[i as int] =~= xs@[i as int]@);
                }
                r.push(lowercase(xs[i].as_str()));
                i = i + 1;
            }
        },
        Option::None => {},
    }
    proof {
        assert(r@.len() == base.len());
        assert(forall|k: int| 0 <= k < r@.len() ==> #[trigger] r@[k]@ == base[k]);
    }
    let ghost half: Seq<String> = r@;
    match env_ignore {
        Option::Some(e) => {
            let cs = chars_of(e.as_str());
            let parts = split_commas_vec(&cs);
            let ghost tail: Seq<Seq<char>> = split_commas(e@).map_values(
                |x: Seq<char>| lower_of(x),
            );
            let mut i: usize = 0;
            while i < parts.len()
                invariant
                    i <= parts@.len(),
                    parts.deep_view().len() == parts@.len(),
                    parts.deep_view() == split_commas(e@),
                    tail == split_commas(e@).map_values(|x: Seq<char>| lower_of(x)),
                    half.len() == base.len(),
                    forall|k: int| 0 <= k < half.len() ==> #[trigger] half[k]@ == base[k],
                    r@.len() == half.len() + i,
                    forall|k: int| 0 <= k < half.len() ==> r@[k] == #[trigger] half[k],
                    forall|k: int|
                        0 <= k < i ==> #[trigger] r@[half.len() + k]@ == tail[k],
                decreases parts@.len() - i,
            {
                proof {
                    assert(parts.deep_view()[i as int] =~= parts@[i as int]@);
                }
                let part = string_from_chars(&parts[i]);
                r.push(lowercase(part.as_str()));
                i = i + 1;
            }
            proof {
                assert forall|k: int| 0 <= k < r@.len() implies #[trigger] r@[k]@ == (base
                    + tail)[k] by {
                    if k < half.len() {
                        assert(r@[k] == half[k]);
                    } else {
                        assert(r@[half.len() + (k - half.len())]@ == tail[k - half.len()]);
                    }
                }
                assert(r.deep_view() =~~= base + tail);
            }
        },
        Option::None => {
            proof {
                assert(r.deep_view() =~~= base);
            }
        },
    }
    r
}


/// Purity law: the filter predicate is a function of its inputs alone —
/// two results computed from equal inputs are equal.
pub proof fn lemma_matches_deterministic(
    r1: bool,
    r2: bool,
    whole_word: bool,
    require_all: bool,
    terms: Seq<Seq<char>>,
    excluded: Seq<Seq<char>>,
    lang_filter: Option<Seq<char>>,
    entry_lang: Seq<char>,
    lower_name: Seq<char>,
    lower_title: Seq<char>,
)
    requires
        r1 == matches_view(
            whole_word,
            require_all,
            terms,
            excluded,
            lang_filter,
            entry_lang,
            lower_name,
            lower_title,
        ),
        r2 == matches_view(
            whole_word,
            require_all,
            terms,
            excluded,
            lang_filter,
            entry_lang,
            lower_name,
            lower_title,
        ),
    ensures
        r1 == r2,
{
}

/// Exclusion-precedence law: an entry whose lowercased display name is in
/// the exclusion set never matches, whatever the other settings say.
pub proof fn lemma_exclusion_precedence(
    whole_word: bool,
    require_all: bool,
    terms: Seq<Seq<char>>,
    excluded: Seq<Seq<char>>,
    lang_filter: Option<Seq<char>>,
    entry_lang: Seq<char>,
    lower_name: Seq<char>,
    lower_title: Seq<char>,
)
    requires
        excluded.contains(lower_name),
    ensures
        !matches_view(
            whole_word,
            require_all,
            terms,
            excluded,
            lang_filter,
            entry_lang,
            lower_name,
            lower_title,
        ),
{
}

/// Empty-term law: where some term is empty, any-substring mode matches
/// every title, so an entry that is neither excluded nor filtered out by
/// language always matches.
pub proof fn lemma_empty_term_matches_all(
    terms: Seq<Seq<char>>,
    excluded: Seq<Seq<char>>,
    lang_filter: Option<Seq<char>>,
    entry_lang: Seq<char>,
    lower_name: Seq<char>,
    lower_title: Seq<char>,
)
    requires
        !excluded.contains(lower_name),
        (lang_filter is Some) ==> lang_filter.unwrap() == entry_lang,
        exists|t: int| 0 <= t < terms.len() && (#[trigger] terms[t]).len() == 0,
    ensures
        matches_view(
            false,
            false,
            terms,
            excluded,
            lang_filter,
            entry_lang,
            lower_name,
            lower_title,
        ),
{
    let t = choose|t: int| 0 <= t < terms.len() && (#[trigger] terms[t]).len() == 0;
    assert(lower_title.subrange(0, 0 + terms[t].len() as int) =~= terms[t]);
    assert(is_substring(terms[t], lower_title));
}

} // verus!
