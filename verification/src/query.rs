//! Full-text search queries: cleaning user input for SQLite FTS5, expanding
//! abbreviations, and planning the SQL of a search request.
use vstd::prelude::*;
use crate::display::owned;
use crate::text::{
    all_words, append, byte_len, byte_len_capped, chars_of, contains, contains_in, ends_with,
    ends_with_in, is_ws, join, join_words, lemma_join_concat, lemma_words_are_words,
    lemma_words_nonempty, lemma_words_of_join, lemma_words_split, same, split_words, string_of,
    to_uppercase, trim, trim_of, uppercase, views, words, CharClass,
};

verus! {

// ---------------------------------------------------------------------------
// FTS5 input cleaning
// ---------------------------------------------------------------------------

/// Characters with a meaning in FTS5 query syntax (and line breaks).
pub open spec fn is_fts_special(c: char) -> bool {
    c == '"' || c == '*' || c == ':' || c == '(' || c == ')' || c == '\n' || c == '\r'
}

/// The special characters turned into spaces.
pub open spec fn blank_fts(s: Seq<char>) -> Seq<char> {
    s.map_values(|c: char| if is_fts_special(c) { ' ' } else { c })
}

/// An FTS5 operator keyword (compared in upper case).
pub open spec fn is_fts_keyword(u: Seq<char>) -> bool {
    u == "AND"@ || u == "OR"@ || u == "NOT"@ || u == "NEAR"@
}

/// The words whose upper-case form is not an FTS5 keyword, in order.
pub open spec fn drop_keywords(ws: Seq<Seq<char>>) -> Seq<Seq<char>>
    decreases ws.len(),
{
    if ws.len() == 0 {
        seq![]
    } else {
        let kept = drop_keywords(ws.drop_last());
        if is_fts_keyword(uppercase(ws.last())) {
            kept
        } else {
            kept.push(ws.last())
        }
    }
}

/// A user query made safe for FTS5: special characters removed, keywords
/// dropped, words joined by single spaces.
pub open spec fn fts_query(q: Seq<char>) -> Seq<char> {
    join(drop_keywords(words(blank_fts(q))), " "@)
}

pub fn blank_fts_of(s: &[char]) -> (r: Vec<char>)
    ensures
        r@ == blank_fts(s@),
{
    let mut out: Vec<char> = Vec::new();
    let mut i: usize = 0;
    while i < s.len()
        invariant
            i <= s@.len(),
            out@ == blank_fts(s@.take(i as int)),
        decreases s@.len() - i,
    {
        let c = s[i];
        let d = if c == '"' || c == '*' || c == ':' || c == '(' || c == ')' || c == '\n' || c
            == '\r' {
            ' '
        } else {
            c
        };
        out.push(d);
        assert(blank_fts(s@.take(i + 1)) =~= blank_fts(s@.take(i as int)).push(d));
        i = i + 1;
    }
    assert(s@.take(s@.len() as int) =~= s@);
    out
}

fn is_text(s: &Vec<char>, lit: &str) -> (b: bool)
    ensures
        b == (s@ == lit@),
{
    let p = chars_of(lit);
    same(s.as_slice(), p.as_slice())
}

fn is_keyword(w: &[char]) -> (b: bool)
    ensures
        b == is_fts_keyword(uppercase(w@)),
{
    let u = to_uppercase(w);
    is_text(&u, "AND") || is_text(&u, "OR") || is_text(&u, "NOT") || is_text(&u, "NEAR")
}

/// Cleans a user query for FTS5.
pub fn sanitize_fts_query(query: &str) -> (r: String)
    ensures
        r@ == fts_query(query@),
{
    let qv = chars_of(query);
    let cleaned = blank_fts_of(qv.as_slice());
    let ws = split_words(cleaned.as_slice());
    let mut kept: Vec<Vec<char>> = Vec::new();
    let mut i: usize = 0;
    while i < ws.len()
        invariant
            i <= ws@.len(),
            views(kept@) == drop_keywords(views(ws@).take(i as int)),
        decreases ws@.len() - i,
    {
        let ghost before = views(kept@);
        let ghost pre = views(ws@).take(i as int);
        let w = ws[i].clone();
        proof {
            assert(views(ws@).take(i + 1).drop_last() =~= pre);
            assert(views(ws@)[i as int] == ws@[i as int]@);
        }
        if !is_keyword(w.as_slice()) {
            kept.push(w);
            assert(views(kept@) =~= before.push(ws@[i as int]@));
        }
        i = i + 1;
    }
    assert(views(ws@).take(ws@.len() as int) =~= views(ws@));
    let space = chars_of(" ");
    let joined = join_words(&kept, space.as_slice());
    string_of(joined.as_slice())
}

// ---------------------------------------------------------------------------
// Laws of the cleaning
// ---------------------------------------------------------------------------

pub open spec fn free_of_fts_special(s: Seq<char>) -> bool {
    forall|i: int| 0 <= i < s.len() ==> !is_fts_special(#[trigger] s[i])
}

pub open spec fn all_free_of_fts_special(ws: Seq<Seq<char>>) -> bool {
    forall|j: int| 0 <= j < ws.len() ==> free_of_fts_special(#[trigger] ws[j])
}

proof fn lemma_words_free(s: Seq<char>)
    requires
        free_of_fts_special(s),
    ensures
        all_free_of_fts_special(words(s)),
    decreases s.len(),
{
    let t = crate::text::strip_start(s, CharClass::Whitespace);
    crate::text::lemma_leading(s, CharClass::Whitespace);
    if t.len() > 0 {
        let n = crate::text::leading(t, CharClass::NotWhitespace);
        assert(in_class_not_ws(t[0]));
        crate::text::lemma_leading(t, CharClass::NotWhitespace);
        assert(free_of_fts_special(t)) by {
            assert forall|i: int| 0 <= i < t.len() implies !is_fts_special(#[trigger] t[i]) by {
                assert(t[i] == s[i + crate::text::leading(s, CharClass::Whitespace)]);
            }
        }
        let rest = t.skip(n as int);
        assert(free_of_fts_special(rest)) by {
            assert forall|i: int| 0 <= i < rest.len() implies !is_fts_special(#[trigger] rest[i]) by {
                assert(rest[i] == t[i + n]);
            }
        }
        lemma_words_free(rest);
        let w = t.take(n as int);
        assert(free_of_fts_special(w)) by {
            assert forall|i: int| 0 <= i < w.len() implies !is_fts_special(#[trigger] w[i]) by {
                assert(w[i] == t[i]);
            }
        }
        let all = seq![w] + words(rest);
        assert(words(s) == all);
        assert forall|j: int| 0 <= j < all.len() implies free_of_fts_special(#[trigger] all[j]) by {
            if j > 0 {
                assert(all[j] == words(rest)[j - 1]);
            }
        }
    }
}

spec fn in_class_not_ws(c: char) -> bool {
    crate::text::in_class(CharClass::NotWhitespace, c)
}

proof fn lemma_drop_keywords_free(ws: Seq<Seq<char>>)
    requires
        all_free_of_fts_special(ws),
    ensures
        all_free_of_fts_special(drop_keywords(ws)),
    decreases ws.len(),
{
    if ws.len() > 0 {
        lemma_drop_keywords_free(ws.drop_last());
        let kept = drop_keywords(ws.drop_last());
        assert(free_of_fts_special(ws[ws.len() - 1]));
        if !is_fts_keyword(uppercase(ws.last())) {
            assert forall|j: int| 0 <= j < kept.push(ws.last()).len() implies free_of_fts_special(
                #[trigger] kept.push(ws.last())[j],
            ) by {
                if j < kept.len() {
                    assert(kept.push(ws.last())[j] == kept[j]);
                }
            }
        }
    }
}

proof fn lemma_join_free(ws: Seq<Seq<char>>, sep: Seq<char>)
    requires
        all_free_of_fts_special(ws),
        free_of_fts_special(sep),
    ensures
        free_of_fts_special(join(ws, sep)),
    decreases ws.len(),
{
    if ws.len() == 1 {
        assert(free_of_fts_special(ws[0]));
    } else if ws.len() > 1 {
        let init = ws.drop_last();
        assert(all_free_of_fts_special(init)) by {
            assert forall|j: int| 0 <= j < init.len() implies free_of_fts_special(#[trigger] init[j]) by {
                assert(init[j] == ws[j]);
            }
        }
        lemma_join_free(init, sep);
        let a = join(init, sep);
        let l = ws.last();
        assert(free_of_fts_special(ws[ws.len() - 1]));
        let r = a + sep + l;
        assert forall|i: int| 0 <= i < r.len() implies !is_fts_special(#[trigger] r[i]) by {
            if i < a.len() {
                assert(r[i] == a[i]);
            } else if i < a.len() + sep.len() {
                assert(r[i] == sep[i - a.len()]);
            } else {
                assert(r[i] == l[i - a.len() - sep.len()]);
            }
        }
    }
}

/// A cleaned query holds none of the characters that have a meaning in FTS5
/// syntax (`"`, `*`, `:`, `(`, `)`) nor a line break.
pub proof fn fts_query_has_no_special_characters(q: Seq<char>)
    ensures
        free_of_fts_special(fts_query(q)),
{
    let b = blank_fts(q);
    assert(free_of_fts_special(b));
    lemma_words_free(b);
    lemma_drop_keywords_free(words(b));
    reveal_strlit(" ");
    assert(free_of_fts_special(" "@));
    lemma_join_free(drop_keywords(words(b)), " "@);
}

proof fn lemma_blank_fts_fixed(s: Seq<char>)
    requires
        free_of_fts_special(s),
    ensures
        blank_fts(s) == s,
{
    assert(blank_fts(s) =~= s);
}

proof fn lemma_drop_keywords_words(ws: Seq<Seq<char>>)
    requires
        all_words(ws),
    ensures
        all_words(drop_keywords(ws)),
    decreases ws.len(),
{
    if ws.len() > 0 {
        let init = ws.drop_last();
        assert(all_words(init)) by {
            assert forall|j: int| 0 <= j < init.len() implies crate::text::is_word(
                #[trigger] init[j],
            ) by {
                assert(init[j] == ws[j]);
            }
        }
        lemma_drop_keywords_words(init);
        let kept = drop_keywords(init);
        assert(crate::text::is_word(ws[ws.len() - 1]));
        if !is_fts_keyword(uppercase(ws.last())) {
            assert forall|j: int| 0 <= j < kept.push(ws.last()).len() implies crate::text::is_word(
                #[trigger] kept.push(ws.last())[j],
            ) by {
                if j < kept.len() {
                    assert(kept.push(ws.last())[j] == kept[j]);
                }
            }
        }
    }
}

proof fn lemma_drop_keywords_twice(ws: Seq<Seq<char>>)
    ensures
        drop_keywords(drop_keywords(ws)) == drop_keywords(ws),
    decreases ws.len(),
{
    if ws.len() > 0 {
        let init = ws.drop_last();
        lemma_drop_keywords_twice(init);
        let kept = drop_keywords(init);
        if !is_fts_keyword(uppercase(ws.last())) {
            let pushed = kept.push(ws.last());
            assert(pushed.drop_last() =~= kept);
            assert(pushed.last() == ws.last());
        }
    }
}

/// Cleaning a query that was already cleaned changes nothing.
pub proof fn cleaning_a_clean_query_changes_nothing(q: Seq<char>)
    ensures
        fts_query(fts_query(q)) == fts_query(q),
{
    let ws = words(blank_fts(q));
    let kept = drop_keywords(ws);
    reveal_strlit(" ");
    assert(" "@ == seq![' ']);
    fts_query_has_no_special_characters(q);
    lemma_blank_fts_fixed(fts_query(q));
    lemma_words_are_words(blank_fts(q));
    lemma_drop_keywords_words(ws);
    lemma_words_of_join(kept);
    lemma_drop_keywords_twice(ws);
}

// ---------------------------------------------------------------------------
// Abbreviations
// ---------------------------------------------------------------------------

/// The expansion of a well-known abbreviation (given in upper case).
pub open spec fn synonym(u: Seq<char>) -> Option<Seq<char>> {
    if u == "OS"@ {
        Some("(OS OR \"Operating Systems\")"@)
    } else if u == "AI"@ {
        Some("(AI OR \"Artificial Intelligence\")"@)
    } else if u == "ML"@ {
        Some("(ML OR \"Machine Learning\")"@)
    } else if u == "DS"@ || u == "DSA"@ {
        Some("(DSA OR \"Data Structures\")"@)
    } else if u == "CN"@ {
        Some("(CN OR \"Computer Networks\")"@)
    } else if u == "DBMS"@ {
        Some("(DBMS OR \"Database Management\")"@)
    } else if u == "CV"@ {
        Some("(CV OR \"Computer Vision\")"@)
    } else if u == "CVL"@ {
        Some("(CVL OR Civil)"@)
    } else if u == "MAT"@ || u == "MATH"@ {
        Some("(MAT OR Mathematics)"@)
    } else {
        None
    }
}

/// A query token as FTS5 sees it: an abbreviation expanded, otherwise a
/// prefix search (`token*`) for tokens of two bytes or more that are not
/// already prefix searches or quoted.
pub open spec fn expanded_token(w: Seq<char>) -> Seq<char> {
    match synonym(uppercase(w)) {
        Some(e) => e,
        None => if byte_len(w) >= 2 && !ends_with(w, "*"@) && !contains(w, "\""@) {
            w + "*"@
        } else {
            w
        },
    }
}

/// Every token of the query expanded, joined by single spaces.
pub open spec fn expanded_query(q: Seq<char>) -> Seq<char> {
    join(words(q).map_values(|w: Seq<char>| expanded_token(w)), " "@)
}

/// Expanding two parts that each hold a word, joined by a space, gives the
/// expansions of the parts joined by a space.
pub proof fn expansion_goes_part_by_part(a: Seq<char>, b: Seq<char>)
    requires
        exists|i: int| 0 <= i < a.len() && !is_ws(#[trigger] a[i]),
        exists|i: int| 0 <= i < b.len() && !is_ws(#[trigger] b[i]),
    ensures
        expanded_query(a + " "@ + b) == expanded_query(a) + " "@ + expanded_query(b),
{
    reveal_strlit(" ");
    assert(" "@ == seq![' ']);
    let i = choose|i: int| 0 <= i < a.len() && !is_ws(#[trigger] a[i]);
    let j = choose|i: int| 0 <= i < b.len() && !is_ws(#[trigger] b[i]);
    lemma_words_nonempty(a, i);
    lemma_words_nonempty(b, j);
    assert(is_ws(' '));
    lemma_words_split(a, ' ', b);
    let x = words(a).map_values(|w: Seq<char>| expanded_token(w));
    let y = words(b).map_values(|w: Seq<char>| expanded_token(w));
    assert(words(a + " "@ + b).map_values(|w: Seq<char>| expanded_token(w)) =~= x + y);
    lemma_join_concat(x, y, " "@);
}

proof fn lemma_expands_os(w: Seq<char>)
    requires
        uppercase(w) == "OS"@,
    ensures
        expanded_token(w) == "(OS OR \"Operating Systems\")"@,
{
    reveal_strlit("OS");
    assert("OS"@.len() == 2);
}

proof fn lemma_expands_ai(w: Seq<char>)
    requires
        uppercase(w) == "AI"@,
    ensures
        expanded_token(w) == "(AI OR \"Artificial Intelligence\")"@,
{
    reveal_strlit("OS");
    reveal_strlit("AI");
    assert("OS"@.len() == 2);
    assert("AI"@.len() == 2);
    assert("AI"@[0] == 'A');
    assert("OS"@[0] == 'O');
    assert("AI"@ != "OS"@);
}

proof fn lemma_expands_ml(w: Seq<char>)
    requires
        uppercase(w) == "ML"@,
    ensures
        expanded_token(w) == "(ML OR \"Machine Learning\")"@,
{
    reveal_strlit("OS");
    reveal_strlit("AI");
    reveal_strlit("ML");
    assert("OS"@.len() == 2);
    assert("AI"@.len() == 2);
    assert("ML"@.len() == 2);
    assert("ML"@[0] == 'M');
    assert("OS"@[0] == 'O');
    assert("ML"@ != "OS"@);
    assert("ML"@[0] == 'M');
    assert("AI"@[0] == 'A');
    assert("ML"@ != "AI"@);
}

proof fn lemma_expands_ds(w: Seq<char>)
    requires
        uppercase(w) == "DS"@,
    ensures
        expanded_token(w) == "(DSA OR \"Data Structures\")"@,
{
    reveal_strlit("OS");
    reveal_strlit("AI");
    reveal_strlit("ML");
    reveal_strlit("DS");
    assert("OS"@.len() == 2);
    assert("AI"@.len() == 2);
    assert("ML"@.len() == 2);
    assert("DS"@.len() == 2);
    assert("DS"@[0] == 'D');
    assert("OS"@[0] == 'O');
    assert("DS"@ != "OS"@);
    assert("DS"@[0] == 'D');
    assert("AI"@[0] == 'A');
    assert("DS"@ != "AI"@);
    assert("DS"@[0] == 'D');
    assert("ML"@[0] == 'M');
    assert("DS"@ != "ML"@);
}

proof fn lemma_expands_dsa(w: Seq<char>)
    requires
        uppercase(w) == "DSA"@,
    ensures
        expanded_token(w) == "(DSA OR \"Data Structures\")"@,
{
    reveal_strlit("OS");
    reveal_strlit("AI");
    reveal_strlit("ML");
    reveal_strlit("DS");
    reveal_strlit("DSA");
    assert("OS"@.len() == 2);
    assert("AI"@.len() == 2);
    assert("ML"@.len() == 2);
    assert("DS"@.len() == 2);
    assert("DSA"@.len() == 3);
    assert("DSA"@ != "OS"@);
    assert("DSA"@ != "AI"@);
    assert("DSA"@ != "ML"@);
    assert("DSA"@ != "DS"@);
}

proof fn lemma_expands_cn(w: Seq<char>)
    requires
        uppercase(w) == "CN"@,
    ensures
        expanded_token(w) == "(CN OR \"Computer Networks\")"@,
{
    reveal_strlit("OS");
    reveal_strlit("AI");
    reveal_strlit("ML");
    reveal_strlit("DS");
    reveal_strlit("DSA");
    reveal_strlit("CN");
    assert("OS"@.len() == 2);
    assert("AI"@.len() == 2);
    assert("ML"@.len() == 2);
    assert("DS"@.len() == 2);
    assert("DSA"@.len() == 3);
    assert("CN"@.len() == 2);
    assert("CN"@[0] == 'C');
    assert("OS"@[0] == 'O');
    assert("CN"@ != "OS"@);
    assert("CN"@[0] == 'C');
    assert("AI"@[0] == 'A');
    assert("CN"@ != "AI"@);
    assert("CN"@[0] == 'C');
    assert("ML"@[0] == 'M');
    assert("CN"@ != "ML"@);
    assert("CN"@[0] == 'C');
    assert("DS"@[0] == 'D');
    assert("CN"@ != "DS"@);
    assert("CN"@ != "DSA"@);
}

proof fn lemma_expands_dbms(w: Seq<char>)
    requires
        uppercase(w) == "DBMS"@,
    ensures
        expanded_token(w) == "(DBMS OR \"Database Management\")"@,
{
    reveal_strlit("OS");
    reveal_strlit("AI");
    reveal_strlit("ML");
    reveal_strlit("DS");
    reveal_strlit("DSA");
    reveal_strlit("CN");
    reveal_strlit("DBMS");
    assert("OS"@.len() == 2);
    assert("AI"@.len() == 2);
    assert("ML"@.len() == 2);
    assert("DS"@.len() == 2);
    assert("DSA"@.len() == 3);
    assert("CN"@.len() == 2);
    assert("DBMS"@.len() == 4);
    assert("DBMS"@ != "OS"@);
    assert("DBMS"@ != "AI"@);
    assert("DBMS"@ != "ML"@);
    assert("DBMS"@ != "DS"@);
    assert("DBMS"@ != "DSA"@);
    assert("DBMS"@ != "CN"@);
}

proof fn lemma_expands_cv(w: Seq<char>)
    requires
        uppercase(w) == "CV"@,
    ensures
        expanded_token(w) == "(CV OR \"Computer Vision\")"@,
{
    reveal_strlit("OS");
    reveal_strlit("AI");
    reveal_strlit("ML");
    reveal_strlit("DS");
    reveal_strlit("DSA");
    reveal_strlit("CN");
    reveal_strlit("DBMS");
    reveal_strlit("CV");
    assert("OS"@.len() == 2);
    assert("AI"@.len() == 2);
    assert("ML"@.len() == 2);
    assert("DS"@.len() == 2);
    assert("DSA"@.len() == 3);
    assert("CN"@.len() == 2);
    assert("DBMS"@.len() == 4);
    assert("CV"@.len() == 2);
    assert("CV"@[0] == 'C');
    assert("OS"@[0] == 'O');
    assert("CV"@ != "OS"@);
    assert("CV"@[0] == 'C');
    assert("AI"@[0] == 'A');
    assert("CV"@ != "AI"@);
    assert("CV"@[0] == 'C');
    assert("ML"@[0] == 'M');
    assert("CV"@ != "ML"@);
    assert("CV"@[0] == 'C');
    assert("DS"@[0] == 'D');
    assert("CV"@ != "DS"@);
    assert("CV"@ != "DSA"@);
    assert("CV"@[1] == 'V');
    assert("CN"@[1] == 'N');
    assert("CV"@ != "CN"@);
    assert("CV"@ != "DBMS"@);
}

proof fn lemma_expands_cvl(w: Seq<char>)
    requires
        uppercase(w) == "CVL"@,
    ensures
        expanded_token(w) == "(CVL OR Civil)"@,
{
    reveal_strlit("OS");
    reveal_strlit("AI");
    reveal_strlit("ML");
    reveal_strlit("DS");
    reveal_strlit("DSA");
    reveal_strlit("CN");
    reveal_strlit("DBMS");
    reveal_strlit("CV");
    reveal_strlit("CVL");
    assert("OS"@.len() == 2);
    assert("AI"@.len() == 2);
    assert("ML"@.len() == 2);
    assert("DS"@.len() == 2);
    assert("DSA"@.len() == 3);
    assert("CN"@.len() == 2);
    assert("DBMS"@.len() == 4);
    assert("CV"@.len() == 2);
    assert("CVL"@.len() == 3);
    assert("CVL"@ != "OS"@);
    assert("CVL"@ != "AI"@);
    assert("CVL"@ != "ML"@);
    assert("CVL"@ != "DS"@);
    assert("CVL"@[0] == 'C');
    assert("DSA"@[0] == 'D');
    assert("CVL"@ != "DSA"@);
    assert("CVL"@ != "CN"@);
    assert("CVL"@ != "DBMS"@);
    assert("CVL"@ != "CV"@);
}

proof fn lemma_expands_mat(w: Seq<char>)
    requires
        uppercase(w) == "MAT"@,
    ensures
        expanded_token(w) == "(MAT OR Mathematics)"@,
{
    reveal_strlit("OS");
    reveal_strlit("AI");
    reveal_strlit("ML");
    reveal_strlit("DS");
    reveal_strlit("DSA");
    reveal_strlit("CN");
    reveal_strlit("DBMS");
    reveal_strlit("CV");
    reveal_strlit("CVL");
    reveal_strlit("MAT");
    assert("OS"@.len() == 2);
    assert("AI"@.len() == 2);
    assert("ML"@.len() == 2);
    assert("DS"@.len() == 2);
    assert("DSA"@.len() == 3);
    assert("CN"@.len() == 2);
    assert("DBMS"@.len() == 4);
    assert("CV"@.len() == 2);
    assert("CVL"@.len() == 3);
    assert("MAT"@.len() == 3);
    assert("MAT"@ != "OS"@);
    assert("MAT"@ != "AI"@);
    assert("MAT"@ != "ML"@);
    assert("MAT"@ != "DS"@);
    assert("MAT"@[0] == 'M');
    assert("DSA"@[0] == 'D');
    assert("MAT"@ != "DSA"@);
    assert("MAT"@ != "CN"@);
    assert("MAT"@ != "DBMS"@);
    assert("MAT"@ != "CV"@);
    assert("MAT"@[0] == 'M');
    assert("CVL"@[0] == 'C');
    assert("MAT"@ != "CVL"@);
}

proof fn lemma_expands_math(w: Seq<char>)
    requires
        uppercase(w) == "MATH"@,
    ensures
        expanded_token(w) == "(MAT OR Mathematics)"@,
{
    reveal_strlit("OS");
    reveal_strlit("AI");
    reveal_strlit("ML");
    reveal_strlit("DS");
    reveal_strlit("DSA");
    reveal_strlit("CN");
    reveal_strlit("DBMS");
    reveal_strlit("CV");
    reveal_strlit("CVL");
    reveal_strlit("MAT");
    reveal_strlit("MATH");
    assert("OS"@.len() == 2);
    assert("AI"@.len() == 2);
    assert("ML"@.len() == 2);
    assert("DS"@.len() == 2);
    assert("DSA"@.len() == 3);
    assert("CN"@.len() == 2);
    assert("DBMS"@.len() == 4);
    assert("CV"@.len() == 2);
    assert("CVL"@.len() == 3);
    assert("MAT"@.len() == 3);
    assert("MATH"@.len() == 4);
    assert("MATH"@ != "OS"@);
    assert("MATH"@ != "AI"@);
    assert("MATH"@ != "ML"@);
    assert("MATH"@ != "DS"@);
    assert("MATH"@ != "DSA"@);
    assert("MATH"@ != "CN"@);
    assert("MATH"@[0] == 'M');
    assert("DBMS"@[0] == 'D');
    assert("MATH"@ != "DBMS"@);
    assert("MATH"@ != "CV"@);
    assert("MATH"@ != "CVL"@);
    assert("MATH"@ != "MAT"@);
}

/// Every abbreviation of the table, in any letter case, expands to its
/// listed search: `OS`, `AI`, `ML`, `DS`/`DSA`, `CN`, `DBMS`, `CV`, `CVL` and
/// `MAT`/`MATH`.
pub proof fn abbreviations_expand_as_listed(w: Seq<char>)
    ensures
        uppercase(w) == "OS"@ ==> expanded_token(w) == "(OS OR \"Operating Systems\")"@,
        uppercase(w) == "AI"@ ==> expanded_token(w) == "(AI OR \"Artificial Intelligence\")"@,
        uppercase(w) == "ML"@ ==> expanded_token(w) == "(ML OR \"Machine Learning\")"@,
        uppercase(w) == "DS"@ ==> expanded_token(w) == "(DSA OR \"Data Structures\")"@,
        uppercase(w) == "DSA"@ ==> expanded_token(w) == "(DSA OR \"Data Structures\")"@,
        uppercase(w) == "CN"@ ==> expanded_token(w) == "(CN OR \"Computer Networks\")"@,
        uppercase(w) == "DBMS"@ ==> expanded_token(w) == "(DBMS OR \"Database Management\")"@,
        uppercase(w) == "CV"@ ==> expanded_token(w) == "(CV OR \"Computer Vision\")"@,
        uppercase(w) == "CVL"@ ==> expanded_token(w) == "(CVL OR Civil)"@,
        uppercase(w) == "MAT"@ ==> expanded_token(w) == "(MAT OR Mathematics)"@,
        uppercase(w) == "MATH"@ ==> expanded_token(w) == "(MAT OR Mathematics)"@,
{
    if uppercase(w) == "OS"@ {
        lemma_expands_os(w);
    }
    if uppercase(w) == "AI"@ {
        lemma_expands_ai(w);
    }
    if uppercase(w) == "ML"@ {
        lemma_expands_ml(w);
    }
    if uppercase(w) == "DS"@ {
        lemma_expands_ds(w);
    }
    if uppercase(w) == "DSA"@ {
        lemma_expands_dsa(w);
    }
    if uppercase(w) == "CN"@ {
        lemma_expands_cn(w);
    }
    if uppercase(w) == "DBMS"@ {
        lemma_expands_dbms(w);
    }
    if uppercase(w) == "CV"@ {
        lemma_expands_cv(w);
    }
    if uppercase(w) == "CVL"@ {
        lemma_expands_cvl(w);
    }
    if uppercase(w) == "MAT"@ {
        lemma_expands_mat(w);
    }
    if uppercase(w) == "MATH"@ {
        lemma_expands_math(w);
    }
}

/// A token that is no abbreviation becomes a prefix search (`token*`) when
/// it has two bytes or more and is neither a prefix search already nor
/// quoted; otherwise it is kept as it is.
pub proof fn plain_tokens_become_prefix_searches(w: Seq<char>)
    requires
        uppercase(w) != "OS"@,
        uppercase(w) != "AI"@,
        uppercase(w) != "ML"@,
        uppercase(w) != "DS"@,
        uppercase(w) != "DSA"@,
        uppercase(w) != "CN"@,
        uppercase(w) != "DBMS"@,
        uppercase(w) != "CV"@,
        uppercase(w) != "CVL"@,
        uppercase(w) != "MAT"@,
        uppercase(w) != "MATH"@,
    ensures
        byte_len(w) >= 2 && !ends_with(w, "*"@) && !contains(w, "\""@) ==> expanded_token(w) == w
            + "*"@,
        !(byte_len(w) >= 2 && !ends_with(w, "*"@) && !contains(w, "\""@)) ==> expanded_token(w)
            == w,
{
}

fn synonym_of(u: &Vec<char>) -> (r: Option<Vec<char>>)
    ensures
        r matches Some(e) ==> synonym(u@) == Some(e@),
        r is None ==> synonym(u@) is None,
{
    if is_text(u, "OS") {
        Some(chars_of("(OS OR \"Operating Systems\")"))
    } else if is_text(u, "AI") {
        Some(chars_of("(AI OR \"Artificial Intelligence\")"))
    } else if is_text(u, "ML") {
        Some(chars_of("(ML OR \"Machine Learning\")"))
    } else if is_text(u, "DS") || is_text(u, "DSA") {
        Some(chars_of("(DSA OR \"Data Structures\")"))
    } else if is_text(u, "CN") {
        Some(chars_of("(CN OR \"Computer Networks\")"))
    } else if is_text(u, "DBMS") {
        Some(chars_of("(DBMS OR \"Database Management\")"))
    } else if is_text(u, "CV") {
        Some(chars_of("(CV OR \"Computer Vision\")"))
    } else if is_text(u, "CVL") {
        Some(chars_of("(CVL OR Civil)"))
    } else if is_text(u, "MAT") || is_text(u, "MATH") {
        Some(chars_of("(MAT OR Mathematics)"))
    } else {
        None
    }
}

pub fn expand_token(w: &[char]) -> (r: Vec<char>)
    ensures
        r@ == expanded_token(w@),
{
    let u = to_uppercase(w);
    match synonym_of(&u) {
        Some(e) => e,
        None => {
            let star = chars_of("*");
            let quote = chars_of("\"");
            let mut out: Vec<char> = Vec::new();
            append(&mut out, w);
            if byte_len_capped(w, 2) >= 2 && !ends_with_in(w, star.as_slice()) && !contains_in(
                w,
                quote.as_slice(),
            ) {
                append(&mut out, star.as_slice());
            }
            out
        },
    }
}

/// Expands abbreviations and turns plain tokens into prefix searches.
pub fn expand_synonyms(query: &str) -> (r: String)
    ensures
        r@ == expanded_query(query@),
{
    let qv = chars_of(query);
    let ws = split_words(qv.as_slice());
    let mut tokens: Vec<Vec<char>> = Vec::new();
    let mut i: usize = 0;
    while i < ws.len()
        invariant
            i <= ws@.len(),
            views(tokens@) =~= views(ws@).take(i as int).map_values(
                |w: Seq<char>| expanded_token(w),
            ),
        decreases ws@.len() - i,
    {
        let e = expand_token(ws[i].as_slice());
        let ghost before = views(tokens@);
        tokens.push(e);
        proof {
            assert(views(ws@)[i as int] == ws@[i as int]@);
            assert(views(tokens@) =~= before.push(e@));
        }
        i = i + 1;
    }
    assert(views(ws@).take(ws@.len() as int) =~= views(ws@));
    let space = chars_of(" ");
    let joined = join_words(&tokens, space.as_slice());
    string_of(joined.as_slice())
}

} // verus!
