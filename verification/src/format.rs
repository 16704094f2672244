//! Normalizing tags, and reading lists of numbers and paging cursors out of
//! request parameters.
use vstd::prelude::*;

use unicode_normalization::UnicodeNormalization;

use crate::text::{
    chars_of, is_ws, parse_i64, parse_i64_spec, push_char, split_chars, split_spec,
    string_from_chars, trim_chars, trim_spec, views,
};

verus! {

// ---------------------------------------------------------------------------
// Tags
// ---------------------------------------------------------------------------

/// What std's `str::to_lowercase` gives for `s`.
pub uninterp spec fn spec_to_lowercase(s: Seq<char>) -> Seq<char>;

/// The compatibility decomposition (NFKD) of `s`, as unicode-normalization
/// computes it.
pub uninterp spec fn spec_nfkd(s: Seq<char>) -> Seq<char>;

/// What is left of `s` when regex removes every match of `[^\w\s-]`: the
/// characters that are not word characters, whitespace or `-`.
pub uninterp spec fn spec_strip_non_word(s: Seq<char>) -> Seq<char>;

/// `s` in lower case (std's `str::to_lowercase`). The contract ties the
/// result to the name: Unicode case mapping is not restated here.
#[verifier::external_body]
fn to_lowercase(s: &str) -> (res: String)
    ensures
        res@ == spec_to_lowercase(s@),
{
    s.to_lowercase()
}

/// The NFKD form of `s` (unicode-normalization's `nfkd`). The contract ties
/// the result to the name: the decomposition tables are not restated here.
#[verifier::external_body]
fn nfkd(s: &str) -> (res: String)
    ensures
        res@ == spec_nfkd(s@),
{
    s.nfkd().collect::<String>()
}

/// `s` without the characters that are not word characters, whitespace or
/// `-` (regex's `Regex::replace_all` of `[^\w\s-]` by nothing; the pattern
/// is valid, so `Regex::new` does not fail). The contract ties the result
/// to the name: Unicode's word characters are not restated here.
#[verifier::external_body]
fn strip_non_word(s: &str) -> (res: String)
    ensures
        res@ == spec_strip_non_word(s@),
{
    regex::Regex::new(r"[^\w\s-]").expect("a valid pattern").replace_all(s, "").into_owned()
}

/// `s` with each run of whitespace replaced by one `-` (what regex's
/// `replace_all` of `[\s]+` by `-` does, `\s` being Unicode's White_Space).
pub open spec fn dash_whitespace_spec(s: Seq<char>) -> Seq<char>
    decreases s.len(),
{
    if s.len() == 0 {
        Seq::<char>::empty()
    } else {
        let prev = dash_whitespace_spec(s.drop_last());
        if is_ws(s.last()) {
            if s.len() >= 2 && is_ws(s[s.len() - 2]) {
                prev
            } else {
                prev.push('-')
            }
        } else {
            prev.push(s.last())
        }
    }
}

/// `s` with each run of whitespace replaced by one `-` (regex's
/// `Regex::replace_all` of `[\s]+` by `-`; the pattern is valid, so
/// `Regex::new` does not fail). The contract states the replacement:
/// regex's `\s` is Unicode's White_Space, each match is a maximal run of it,
/// and each match gives way to one `-`.
#[verifier::external_body]
fn dash_whitespace(s: &str) -> (res: String)
    ensures
        res@ == dash_whitespace_spec(s@),
{
    regex::Regex::new(r"[\s]+").expect("a valid pattern").replace_all(s, "-").into_owned()
}

/// Characters that a tag keeps at most.
pub const MAX_TAG_CHARS: usize = 50;

/// The normal form of a tag: trimmed, lower case, decomposed (NFKD),
/// without characters other than word characters, whitespace and `-`, with
/// whitespace runs made `-`, and cut to 50 characters.
pub open spec fn normalize_tag_spec(tag: Seq<char>) -> Seq<char> {
    let t = dash_whitespace_spec(
        spec_strip_non_word(spec_nfkd(spec_to_lowercase(trim_spec(tag)))),
    );
    if t.len() <= MAX_TAG_CHARS {
        t
    } else {
        t.take(MAX_TAG_CHARS as int)
    }
}

/// A tag's normal form is its cleaned text (trimmed, in lower case,
/// decomposed, without characters other than word characters, whitespace
/// and `-`, each whitespace run made one `-`) cut to its first 50
/// characters; a cleaned text of at most 50 characters is kept whole.
pub proof fn lemma_tag_cut_to_fifty(tag: Seq<char>)
    ensures
        ({
            let full = dash_whitespace_spec(
                spec_strip_non_word(spec_nfkd(spec_to_lowercase(trim_spec(tag)))),
            );
            &&& normalize_tag_spec(tag).len() == if full.len() <= 50 {
                full.len()
            } else {
                50
            }
            &&& normalize_tag_spec(tag) == full.subrange(0, normalize_tag_spec(tag).len() as int)
        }),
{
    let full = dash_whitespace_spec(
        spec_strip_non_word(spec_nfkd(spec_to_lowercase(trim_spec(tag)))),
    );
    if full.len() <= 50 {
        assert(full.subrange(0, full.len() as int) =~= full);
    }
}

/// The normal form of a tag.
pub fn normalize_tag(tag: &str) -> (res: String)
    ensures
        res@ == normalize_tag_spec(tag@),
        res@.len() <= MAX_TAG_CHARS,
{
    let tc = chars_of(tag);
    let trimmed = trim_chars(tc.as_slice());
    let trimmed_text = string_from_chars(trimmed.as_slice());
    let lower = to_lowercase(trimmed_text.as_str());
    let decomposed = nfkd(lower.as_str());
    let kept = strip_non_word(decomposed.as_str());
    let dashed_text = dash_whitespace(kept.as_str());
    let dashed = chars_of(dashed_text.as_str());
    let mut out = String::new();
    let n = if dashed.len() <= MAX_TAG_CHARS {
        dashed.len()
    } else {
        MAX_TAG_CHARS
    };
    for i in 0..n
        invariant
            n <= dashed@.len(),
            out@ == dashed@.take(i as int),
    {
        push_char(&mut out, dashed[i]);
        assert(dashed@.take(i + 1) =~= dashed@.take(i as int).push(dashed@[i as int]));
    }
    assert(dashed@.take(dashed@.len() as int) =~= dashed@);
    out
}

/// The first occurrence of each distinct element of `s`, in order.
pub open spec fn dedup_spec(s: Seq<Seq<char>>) -> Seq<Seq<char>>
    decreases s.len(),
{
    if s.len() == 0 {
        Seq::<Seq<char>>::empty()
    } else {
        let prev = dedup_spec(s.drop_last());
        if prev.contains(s.last()) {
            prev
        } else {
            prev.push(s.last())
        }
    }
}

/// The normal forms of tags, without the empty ones.
pub open spec fn normalized_tags_spec(raw: Seq<Seq<char>>) -> Seq<Seq<char>>
    decreases raw.len(),
{
    if raw.len() == 0 {
        Seq::<Seq<char>>::empty()
    } else {
        let prev = normalized_tags_spec(raw.drop_last());
        let t = normalize_tag_spec(raw.last());
        if t.len() == 0 {
            prev
        } else {
            prev.push(t)
        }
    }
}

/// The views of a vector of strings.
pub open spec fn string_views(v: Seq<String>) -> Seq<Seq<char>> {
    v.map_values(|s: String| s@)
}

proof fn lemma_dedup_facts(s: Seq<Seq<char>>)
    ensures
        dedup_spec(s).no_duplicates(),
        forall|x: Seq<char>| #[trigger] dedup_spec(s).contains(x) <==> s.contains(x),
    decreases s.len(),
{
    if s.len() > 0 {
        let p = s.drop_last();
        lemma_dedup_facts(p);
        assert forall|x: Seq<char>| #[trigger] dedup_spec(s).contains(x) <==> s.contains(x) by {
            if s.contains(x) && x != s.last() {
                let i = choose|i: int| 0 <= i < s.len() && s[i] == x;
                assert(p[i] == x);
            }
            if p.contains(x) {
                let i = choose|i: int| 0 <= i < p.len() && p[i] == x;
                assert(s[i] == x);
            }
            if dedup_spec(p).contains(x) || x == s.last() {
                if x == s.last() {
                    assert(s[s.len() - 1] == x);
                }
            }
            if !dedup_spec(p).contains(s.last()) {
                assert(dedup_spec(s) == dedup_spec(p).push(s.last()));
                if dedup_spec(s).contains(x) {
                    let i = choose|i: int| 0 <= i < dedup_spec(s).len() && dedup_spec(s)[i] == x;
                    if i < dedup_spec(p).len() {
                        assert(dedup_spec(p)[i] == x);
                    }
                }
                if dedup_spec(p).contains(x) {
                    let i = choose|i: int| 0 <= i < dedup_spec(p).len() && dedup_spec(p)[i] == x;
                    assert(dedup_spec(s)[i] == x);
                }
                assert(dedup_spec(s)[dedup_spec(p).len() as int] == s.last());
            }
        }
    }
}

proof fn lemma_normalized_members(raw: Seq<Seq<char>>)
    ensures
        forall|t: Seq<char>|
            #[trigger] normalized_tags_spec(raw).contains(t) <==> (t.len() > 0 && exists|i: int|
                0 <= i < raw.len() && #[trigger] normalize_tag_spec(raw[i]) == t),
    decreases raw.len(),
{
    if raw.len() > 0 {
        let p = raw.drop_last();
        lemma_normalized_members(p);
        let prev = normalized_tags_spec(p);
        let last = normalize_tag_spec(raw.last());
        assert forall|t: Seq<char>| #[trigger] normalized_tags_spec(raw).contains(t) <==> (t.len()
            > 0 && exists|i: int| 0 <= i < raw.len() && #[trigger] normalize_tag_spec(raw[i]) == t) by {
            if normalized_tags_spec(raw).contains(t) {
                if prev.contains(t) {
                    let i = choose|i: int| 0 <= i < p.len() && #[trigger] normalize_tag_spec(p[i]) == t;
                    assert(raw[i] == p[i]);
                } else {
                    assert(last.len() > 0);
                    let j = choose|j: int|
                        0 <= j < normalized_tags_spec(raw).len() && normalized_tags_spec(raw)[j] == t;
                    if j < prev.len() {
                        assert(prev[j] == t);
                    }
                    assert(normalize_tag_spec(raw[raw.len() - 1]) == t);
                }
            }
            if t.len() > 0 && exists|i: int| 0 <= i < raw.len() && #[trigger] normalize_tag_spec(raw[i]) == t {
                let i = choose|i: int| 0 <= i < raw.len() && #[trigger] normalize_tag_spec(raw[i]) == t;
                if i < p.len() {
                    assert(p[i] == raw[i]);
                    assert(prev.contains(t));
                    if last.len() > 0 {
                        let k = choose|k: int| 0 <= k < prev.len() && prev[k] == t;
                        assert(prev.push(last)[k] == t);
                    }
                } else {
                    assert(normalized_tags_spec(raw) == prev.push(last));
                    assert(prev.push(last)[prev.len() as int] == t);
                }
            }
        }
    }
}

/// Tagging keeps every tag whose normal form is not empty: that form is in
/// the result, once; the result holds nothing else, so only tags whose normal
/// form is empty are dropped.
pub proof fn lemma_tags_keep_nonempty_forms(raw: Seq<Seq<char>>)
    ensures
        forall|i: int|
            0 <= i < raw.len() && normalize_tag_spec(raw[i]).len() > 0 ==> dedup_spec(
                normalized_tags_spec(raw),
            ).contains(#[trigger] normalize_tag_spec(raw[i])),
        forall|t: Seq<char>|
            #[trigger] dedup_spec(normalized_tags_spec(raw)).contains(t) ==> t.len() > 0
                && exists|i: int| 0 <= i < raw.len() && normalize_tag_spec(raw[i]) == t,
        dedup_spec(normalized_tags_spec(raw)).no_duplicates(),
{
    lemma_normalized_members(raw);
    lemma_dedup_facts(normalized_tags_spec(raw));
    assert forall|i: int|
        0 <= i < raw.len() && normalize_tag_spec(raw[i]).len() > 0 implies dedup_spec(
            normalized_tags_spec(raw),
        ).contains(#[trigger] normalize_tag_spec(raw[i])) by {
        assert(normalized_tags_spec(raw).contains(normalize_tag_spec(raw[i])));
    }
}

/// The raw tag at `k` is the first one whose normal form is `t`.
pub open spec fn first_tag_at(raw: Seq<Seq<char>>, t: Seq<char>, k: int) -> bool {
    &&& 0 <= k < raw.len()
    &&& normalize_tag_spec(raw[k]) == t
    &&& forall|m: int| 0 <= m < k ==> normalize_tag_spec(#[trigger] raw[m]) != t
}

/// Some raw tag is the first one whose normal form is `t`.
pub open spec fn has_first_tag(raw: Seq<Seq<char>>, t: Seq<char>) -> bool {
    exists|k: int| first_tag_at(raw, t, k)
}

/// Tagging lists the normal forms in the order in which they first appear
/// among the raw tags: each kept form has a first raw tag, and of two kept
/// forms the earlier one first appears earlier.
pub proof fn lemma_tags_in_first_seen_order(raw: Seq<Seq<char>>)
    ensures
        forall|i: int|
            0 <= i < dedup_spec(normalized_tags_spec(raw)).len() ==> has_first_tag(
                raw,
                #[trigger] dedup_spec(normalized_tags_spec(raw))[i],
            ),
        forall|i: int, j: int, ki: int, kj: int|
            0 <= i < j < dedup_spec(normalized_tags_spec(raw)).len() && #[trigger] first_tag_at(
                raw,
                dedup_spec(normalized_tags_spec(raw))[i],
                ki,
            ) && #[trigger] first_tag_at(raw, dedup_spec(normalized_tags_spec(raw))[j], kj)
                ==> ki < kj,
    decreases raw.len(),
{
    let r = dedup_spec(normalized_tags_spec(raw));
    if raw.len() > 0 {
        let p = raw.drop_last();
        let n = p.len() as int;
        lemma_tags_in_first_seen_order(p);
        lemma_normalized_members(p);
        lemma_normalized_members(raw);
        lemma_dedup_facts(normalized_tags_spec(p));
        lemma_dedup_facts(normalized_tags_spec(raw));
        let rp = dedup_spec(normalized_tags_spec(p));
        let t = normalize_tag_spec(raw.last());
        let added = t.len() > 0 && !normalized_tags_spec(p).contains(t);
        if added {
            assert(normalized_tags_spec(raw) == normalized_tags_spec(p).push(t));
            assert(normalized_tags_spec(raw).drop_last() =~= normalized_tags_spec(p));
            assert(!rp.contains(t));
            assert(r == rp.push(t));
        } else if t.len() > 0 {
            assert(normalized_tags_spec(raw) == normalized_tags_spec(p).push(t));
            assert(normalized_tags_spec(raw).drop_last() =~= normalized_tags_spec(p));
            assert(rp.contains(t));
            assert(r == rp);
        } else {
            assert(r == rp);
        }
        // A form kept from the earlier tags first appears among them.
        assert forall|x: Seq<char>, k: int|
            rp.contains(x) && #[trigger] first_tag_at(raw, x, k) implies k < n && first_tag_at(
            p,
            x,
            k,
        ) by {
            let m = choose|m: int| 0 <= m < p.len() && #[trigger] normalize_tag_spec(p[m]) == x;
            assert(raw[m] == p[m]);
            if k >= n {
                assert(normalize_tag_spec(raw[m]) != x);
            }
            assert forall|m2: int| 0 <= m2 < k implies normalize_tag_spec(#[trigger] p[m2]) != x by {
                assert(raw[m2] == p[m2]);
            }
            assert(raw[k] == p[k]);
        }
        assert forall|x: Seq<char>, k: int| #[trigger] first_tag_at(p, x, k) implies first_tag_at(
            raw,
            x,
            k,
        ) by {
            assert(raw[k] == p[k]);
            assert forall|m2: int| 0 <= m2 < k implies normalize_tag_spec(#[trigger] raw[m2]) != x by {
                assert(raw[m2] == p[m2]);
            }
        }
        if added {
            assert forall|m: int| 0 <= m < n implies normalize_tag_spec(#[trigger] raw[m]) != t by {
                assert(raw[m] == p[m]);
            }
            assert(first_tag_at(raw, t, n));
        }
        assert forall|i: int| 0 <= i < r.len() implies has_first_tag(raw, #[trigger] r[i]) by {
            if i < rp.len() {
                assert(r[i] == rp[i]);
                assert(has_first_tag(p, rp[i]));
                let k = choose|k: int| first_tag_at(p, rp[i], k);
                assert(first_tag_at(raw, r[i], k));
            } else {
                assert(first_tag_at(raw, r[i], n));
            }
        }
        assert forall|i: int, j: int, ki: int, kj: int|
            0 <= i < j < r.len() && #[trigger] first_tag_at(raw, r[i], ki) && #[trigger] first_tag_at(
                raw,
                r[j],
                kj,
            ) implies ki < kj by {
            assert(r[i] == rp[i]);
            assert(rp.contains(rp[i]));
            assert(first_tag_at(p, rp[i], ki));
            if j < rp.len() {
                assert(r[j] == rp[j]);
                assert(rp.contains(rp[j]));
                assert(first_tag_at(p, rp[j], kj));
            } else {
                assert(r[j] == t);
                if kj < n {
                    assert(raw[kj] == p[kj]);
                    assert(normalized_tags_spec(p).contains(t));
                }
            }
        }
    } else {
        assert(normalized_tags_spec(raw).len() == 0);
        assert(r.len() == 0);
    }
}

/// The normal forms of `raw_tags`, in order, without the empty ones and
/// without repeats: each distinct normal form once, where it first occurs.
pub fn normalize_tags(raw_tags: &Vec<String>) -> (res: Vec<String>)
    ensures
        string_views(res@) == dedup_spec(normalized_tags_spec(string_views(raw_tags@))),
        string_views(res@).no_duplicates(),
        forall|t: Seq<char>|
            #[trigger] string_views(res@).contains(t) <==> normalized_tags_spec(
                string_views(raw_tags@),
            ).contains(t),
        forall|i: int|
            0 <= i < raw_tags@.len() && normalize_tag_spec(raw_tags@[i]@).len() > 0
                ==> string_views(res@).contains(#[trigger] normalize_tag_spec(raw_tags@[i]@)),
        forall|t: Seq<char>|
            #[trigger] string_views(res@).contains(t) ==> t.len() > 0 && exists|i: int|
                0 <= i < raw_tags@.len() && normalize_tag_spec(raw_tags@[i]@) == t,
        forall|i: int|
            0 <= i < res@.len() ==> has_first_tag(
                string_views(raw_tags@),
                #[trigger] string_views(res@)[i],
            ),
        forall|i: int, j: int, ki: int, kj: int|
            0 <= i < j < res@.len() && #[trigger] first_tag_at(
                string_views(raw_tags@),
                string_views(res@)[i],
                ki,
            ) && #[trigger] first_tag_at(string_views(raw_tags@), string_views(res@)[j], kj)
                ==> ki < kj,
{
    let mut names: Vec<String> = Vec::new();
    let ghost raw = string_views(raw_tags@);
    for i in 0..raw_tags.len()
        invariant
            raw == string_views(raw_tags@),
            string_views(names@) == dedup_spec(normalized_tags_spec(raw.take(i as int))),
    {
        let nt = normalize_tag(raw_tags[i].as_str());
        proof {
            assert(raw.take(i + 1).drop_last() =~= raw.take(i as int));
            assert(raw.take(i + 1).last() == raw_tags@[i as int]@);
        }
        let ghost before = normalized_tags_spec(raw.take(i as int));
        if nt.as_str().is_empty() {
            assert(normalized_tags_spec(raw.take(i + 1)) == before);
        } else {
            assert(normalized_tags_spec(raw.take(i + 1)) == before.push(nt@));
            assert(before.push(nt@).drop_last() =~= before);
            let mut seen = false;
            for j in 0..names.len()
                invariant
                    seen == exists|k: int| 0 <= k < j && names@[k]@ == nt@,
            {
                if !seen && crate::text::str_eq(names[j].as_str(), nt.as_str()) {
                    seen = true;
                }
            }
            let ghost prev = string_views(names@);
            proof {
                if seen {
                    let k = choose|k: int| 0 <= k < names@.len() && names@[k]@ == nt@;
                    assert(prev[k] == nt@);
                } else {
                    assert forall|k: int| 0 <= k < prev.len() implies prev[k] != nt@ by {
                        assert(prev[k] == names@[k]@);
                    }
                }
            }
            if !seen {
                names.push(nt);
                assert(string_views(names@) =~= prev.push(nt@));
            }
            assert(string_views(names@) == dedup_spec(before.push(nt@)));
        }
    }
    assert(raw.take(raw_tags.len() as int) =~= raw);
    proof {
        lemma_dedup_facts(normalized_tags_spec(raw));
        lemma_tags_keep_nonempty_forms(raw);
        lemma_tags_in_first_seen_order(raw);
        assert forall|i: int|
            0 <= i < raw_tags@.len() && normalize_tag_spec(raw_tags@[i]@).len() > 0 implies string_views(
            names@,
        ).contains(#[trigger] normalize_tag_spec(raw_tags@[i]@)) by {
            assert(raw[i] == raw_tags@[i]@);
        }
        assert forall|t: Seq<char>| #[trigger] string_views(names@).contains(t) implies t.len() > 0
            && exists|i: int| 0 <= i < raw_tags@.len() && normalize_tag_spec(raw_tags@[i]@) == t by {
            let i = choose|i: int| 0 <= i < raw.len() && normalize_tag_spec(raw[i]) == t;
            assert(raw[i] == raw_tags@[i]@);
        }
    }
    names
}

// ---------------------------------------------------------------------------
// Numbers and cursors
// ---------------------------------------------------------------------------

/// The numbers that the trimmed pieces `pieces` read as, if all do.
pub open spec fn parse_pieces_spec(pieces: Seq<Seq<char>>) -> Option<Seq<i64>>
    decreases pieces.len(),
{
    if pieces.len() == 0 {
        Some(Seq::<i64>::empty())
    } else {
        match (parse_pieces_spec(pieces.drop_last()), parse_i64_spec(trim_spec(pieces.last()))) {
            (Some(prev), Some(v)) => Some(prev.push(v)),
            _ => None,
        }
    }
}

/// The numbers of a comma-separated list, each trimmed; `None` where a piece
/// is not a number.
pub open spec fn parse_numbers_spec(s: Seq<char>) -> Option<Seq<i64>> {
    parse_pieces_spec(split_spec(s, ','))
}

fn parse_piece(piece: &[char]) -> (res: Option<i64>)
    ensures
        res == parse_i64_spec(trim_spec(piece@)),
{
    let t = trim_chars(piece);
    parse_i64(t.as_slice())
}

/// The numbers of the comma-separated list `s`.
pub fn parse_number_list(s: &str) -> (res: Option<Vec<i64>>)
    ensures
        match res {
            Some(v) => parse_numbers_spec(s@) == Some(v@),
            None => parse_numbers_spec(s@) is None,
        },
{
    let cs = chars_of(s);
    let pieces = split_chars(cs.as_slice(), ',');
    let ghost ps = views(pieces@);
    let mut out: Vec<i64> = Vec::new();
    for i in 0..pieces.len()
        invariant
            ps == views(pieces@),
            ps == split_spec(s@, ','),
            parse_pieces_spec(ps.take(i as int)) == Some(out@),
    {
        assert(ps.take(i + 1).drop_last() =~= ps.take(i as int));
        assert(ps.take(i + 1).last() == pieces@[i as int]@);
        match parse_piece(pieces[i].as_slice()) {
            Some(v) => {
                out.push(v);
            },
            None => {
                proof {
                    lemma_parse_pieces_none(ps, i as int + 1);
                }
                return None;
            },
        }
    }
    assert(ps.take(pieces.len() as int) =~= ps);
    Some(out)
}

proof fn lemma_parse_pieces_none(ps: Seq<Seq<char>>, i: int)
    requires
        0 <= i <= ps.len(),
        parse_pieces_spec(ps.take(i)) is None,
    ensures
        parse_pieces_spec(ps) is None,
    decreases ps.len() - i,
{
    if i < ps.len() {
        assert(ps.take(i + 1).drop_last() =~= ps.take(i));
        lemma_parse_pieces_none(ps, i + 1);
    } else {
        assert(ps.take(i) =~= ps);
    }
}

/// The first `k` numbers of a comma-separated list, each piece trimmed;
/// pieces after the first `k` are not read. `None` where there are fewer than
/// `k` pieces or one of the first `k` is not a number.
pub open spec fn parse_prefix_spec(s: Seq<char>, k: nat) -> Option<Seq<i64>> {
    let pieces = split_spec(s, ',');
    if pieces.len() < k {
        None
    } else {
        parse_pieces_spec(pieces.take(k as int))
    }
}

fn parse_prefix(s: &str, k: usize) -> (res: Option<Vec<i64>>)
    ensures
        match res {
            Some(v) => parse_prefix_spec(s@, k as nat) == Some(v@) && v@.len() == k,
            None => parse_prefix_spec(s@, k as nat) is None,
        },
{
    let cs = chars_of(s);
    let pieces = split_chars(cs.as_slice(), ',');
    let ghost ps = views(pieces@);
    if pieces.len() < k {
        return None;
    }
    let mut out: Vec<i64> = Vec::new();
    for i in 0..k
        invariant
            k <= pieces@.len(),
            ps == views(pieces@),
            ps == split_spec(s@, ','),
            parse_pieces_spec(ps.take(i as int)) == Some(out@),
            out@.len() == i,
    {
        assert(ps.take(i + 1).drop_last() =~= ps.take(i as int));
        assert(ps.take(i + 1).last() == pieces@[i as int]@);
        match parse_piece(pieces[i].as_slice()) {
            Some(v) => {
                out.push(v);
            },
            None => {
                proof {
                    lemma_parse_pieces_none(ps.take(k as int), i as int + 1);
                    assert(ps.take(k as int).take(i + 1) =~= ps.take(i + 1));
                }
                return None;
            },
        }
    }
    Some(out)
}

/// The comments cursor `is_user,popularity,comment_id`.
pub fn parse_cursor(s: &str) -> (res: Option<(i64, i64, i64)>)
    ensures
        match res {
            Some((a, b, c)) => parse_prefix_spec(s@, 3) == Some(seq![a, b, c]),
            None => parse_prefix_spec(s@, 3) is None,
        },
{
    match parse_prefix(s, 3) {
        Some(v) => {
            assert(v@ =~= seq![v@[0], v@[1], v@[2]]);
            Some((v[0], v[1], v[2]))
        },
        None => None,
    }
}

/// The popular-posts cursor `popularity,post_id`.
pub fn parse_tuple(s: &str) -> (res: Option<(i64, i64)>)
    ensures
        match res {
            Some((a, b)) => parse_prefix_spec(s@, 2) == Some(seq![a, b]),
            None => parse_prefix_spec(s@, 2) is None,
        },
{
    match parse_prefix(s, 2) {
        Some(v) => {
            assert(v@ =~= seq![v@[0], v@[1]]);
            Some((v[0], v[1]))
        },
        None => None,
    }
}

} // verus!
