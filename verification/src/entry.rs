//! One live-stream record: the decoded fields, the filter predicate over
//! them, and the five display cells of its table row.

use vstd::prelude::*;
use vstd::string::StringExecFns;
use crate::filter::{matches_core, matches_view};
use crate::numfmt::{dec_str, u64_dec_chars};
use crate::text::{chars_of, lower_of, lowercase, push_char, string_from_chars};

verus! {

/// A Unicode control character: the C0 and C1 ranges together with
/// delete, exactly the characters `char::is_control` accepts.
pub open spec fn is_ctl(c: char) -> bool {
    (c as u32) < 0x20 || (0x7f <= c as u32 && c as u32 <= 0x9f)
}

/// `s` with every control character replaced by a space.
pub open spec fn sanitized(s: Seq<char>) -> Seq<char> {
    s.map_values(|c: char| if is_ctl(c) { ' ' } else { c })
}

/// `s` with every control character replaced by a space.
pub fn sanitize(s: &str) -> (r: String)
    ensures
        r@ == sanitized(s@),
{
    let cs = chars_of(s);
    let mut out = String::new();
    let mut i: usize = 0;
    while i < cs.len()
        invariant
            cs@ == s@,
            i <= cs@.len(),
            out@ =~= sanitized(s@).take(i as int),
        decreases cs@.len() - i,
    {
        let c = cs[i];
        let u: u32 = c as u32;
        let replaced: char = if u < 0x20 || (0x7f <= u && u <= 0x9f) {
            ' '
        } else {
            c
        };
        push_char(&mut out, replaced);
        proof {
            assert(replaced == sanitized(s@)[i as int]);
            assert(sanitized(s@).take((i + 1) as int) =~= sanitized(s@).take(i as int).push(
                sanitized(s@)[i as int],
            ));
        }
        i = i + 1;
    }
    proof {
        assert(sanitized(s@).take(cs@.len() as int) =~= sanitized(s@));
    }
    out
}

/// One live broadcast record, immutable once decoded.
pub struct Entry {
    /// Short language code.
    pub lang: String,
    /// Channel display name.
    pub display_name: String,
    /// Free-text title; may contain control characters.
    pub title: String,
    /// Non-negative viewer count.
    pub viewer_count: u64,
    /// Rendered live duration; empty where the start timestamp was missing
    /// or unparsable.
    pub live_duration: String,
}

/// The five display cells of an entry's table row: language, channel URL,
/// viewer-count label, live duration, sanitized title.
pub open spec fn row_view(e: Entry) -> Seq<Seq<char>> {
    seq![
        e.lang@,
        "https://twitch.tv/"@ + e.display_name@,
        dec_str(e.viewer_count as nat) + " viewers"@,
        e.live_duration@,
        sanitized(e.title@),
    ]
}

impl Entry {
    /// The filter predicate applied to this entry: the display name and
    /// title are lowercased, the terms and exclusion entries are taken as
    /// given, the language is compared exactly.
    pub open spec fn matches_spec(
        self,
        whole_word: bool,
        require_all: bool,
        terms: Seq<Seq<char>>,
        excluded: Seq<Seq<char>>,
        lang_filter: Option<Seq<char>>,
    ) -> bool {
        matches_view(
            whole_word,
            require_all,
            terms,
            excluded,
            lang_filter,
            self.lang@,
            lower_of(self.display_name@),
            lower_of(self.title@),
        )
    }

    /// Whether this entry passes the filter. Pure: the result is a
    /// function of the arguments alone.
    pub fn matches(
        &self,
        whole_word: bool,
        require_all: bool,
        terms: &Vec<String>,
        excluded: &Vec<String>,
        lang: &Option<String>,
    ) -> (r: bool)
        ensures
            r == self.matches_spec(
                whole_word,
                require_all,
                terms.deep_view(),
                excluded.deep_view(),
                match *lang {
                    Option::Some(l) => Option::Some(l@),
                    Option::None => Option::None,
                },
            ),
    {
        let mut terms_c: Vec<Vec<char>> = Vec::new();
        let mut i: usize = 0;
        while i < terms.len()
            invariant
                i <= terms@.len(),
                terms.deep_view().len() == terms@.len(),
                terms_c@.len() == i,
                forall|k: int| 0 <= k < i ==> #[trigger] terms_c@[k]@ == terms.deep_view()[k],
            decreases terms@.len() - i,
        {
            proof {
                assert(terms.deep_view()[i as int] =~= terms@[i as int]@);
            }
            terms_c.push(chars_of(terms[i].as_str()));
            i = i + 1;
        }
        let mut excl_c: Vec<Vec<char>> = Vec::new();
        let mut j: usize = 0;
        while j < excluded.len()
            invariant
                j <= excluded@.len(),
                excluded.deep_view().len() == excluded@.len(),
                excl_c@.len() == j,
                forall|k: int| 0 <= k < j ==> #[trigger] excl_c@[k]@ == excluded.deep_view()[k],
            decreases excluded@.len() - j,
        {
            proof {
                assert(excluded.deep_view()[j as int] =~= excluded@[j as int]@);
            }
            excl_c.push(chars_of(excluded[j].as_str()));
            j = j + 1;
        }
        let lang_c: Option<Vec<char>> = match lang {
            Option::Some(l) => Option::Some(chars_of(l.as_str())),
            Option::None => Option::None,
        };
        let entry_lang = chars_of(self.lang.as_str());
        let low_name = lowercase(self.display_name.as_str());
        let lower_name = chars_of(low_name.as_str());
        let low_title = lowercase(self.title.as_str());
        let lower_title = chars_of(low_title.as_str());
        let r = matches_core(
            whole_word,
            require_all,
            &terms_c,
            &excl_c,
            &lang_c,
            &entry_lang,
            &lower_name,
            &lower_title,
        );
        proof {
            assert(terms_c.deep_view() =~~= terms.deep_view());
            assert(excl_c.deep_view() =~~= excluded.deep_view());
        }
        r
    }

    /// The five display cells of this entry's row: language, channel URL,
    /// viewer-count label, live duration, sanitized title.
    pub fn format_row(&self) -> (r: Vec<String>)
        ensures
            r@.len() == 5,
            r.deep_view() == row_view(*self),
    {
        let mut url = "https://twitch.tv/".to_owned();
        url.append(self.display_name.as_str());
        let digits = u64_dec_chars(self.viewer_count);
        let mut viewers = string_from_chars(&digits);
        viewers.append(" viewers");
        let mut r: Vec<String> = Vec::new();
        r.push(self.lang.clone());
        r.push(url);
        r.push(viewers);
        r.push(self.live_duration.clone());
        r.push(sanitize(self.title.as_str()));
        proof {
            assert(r.deep_view() =~~= row_view(*self));
        }
        r
    }
}

} // verus!
