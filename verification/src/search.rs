use vstd::prelude::*;

use crate::chars::{
    chars_of, is_space_char, is_word_char, push_char, space, word_char,
};
use crate::error::{AppResult, Error};

verus! {

/// A character that survives the cleaning pass: word characters,
/// whitespace and hyphens; everything else is stripped before the search
/// text is tokenized.
pub open spec fn is_kept_char(c: char) -> bool {
    is_word_char(c) || is_space_char(c) || c == '-'
}

/// The cleaning pass: every character that is not a word character, not
/// whitespace and not a hyphen is removed.
pub open spec fn spec_clean(s: Seq<char>) -> Seq<char>
    decreases s.len(),
{
    if s.len() == 0 {
        Seq::empty()
    } else {
        spec_clean(s.drop_last()) + (if is_kept_char(s.last()) {
            seq![s.last()]
        } else {
            Seq::<char>::empty()
        })
    }
}

/// Where the token that is under way at position `i` ends.
///
/// A token is a maximal run of word characters that may contain single
/// interior hyphens and may end in a single trailing hyphen; `i` points
/// just past the token's first word character.
pub open spec fn token_end(c: Seq<char>, i: int) -> int
    decreases c.len() - i,
{
    if 0 <= i < c.len() && is_word_char(c[i]) {
        token_end(c, i + 1)
    } else if 0 <= i < c.len() && c[i] == '-' {
        if i + 1 < c.len() && is_word_char(c[i + 1]) {
            token_end(c, i + 2)
        } else {
            i + 1
        }
    } else {
        i
    }
}

pub proof fn lemma_token_end_bounds(c: Seq<char>, i: int)
    requires
        0 <= i <= c.len(),
    ensures
        i <= token_end(c, i) <= c.len(),
    decreases c.len() - i,
{
    if i < c.len() && is_word_char(c[i]) {
        lemma_token_end_bounds(c, i + 1);
    } else if i < c.len() && c[i] == '-' {
        if i + 1 < c.len() && is_word_char(c[i + 1]) {
            lemma_token_end_bounds(c, i + 2);
        }
    }
}

/// The rendered search expression for the cleaned text from position `i`
/// on: each token gets the prefix-match marker `:*` appended, and tokens
/// are joined by the adjacency operator `" <-> "` in order of appearance.
pub open spec fn render_from(c: Seq<char>, i: int, first: bool) -> Seq<char>
    decreases c.len() - i,
{
    if i < 0 || i >= c.len() {
        Seq::empty()
    } else if !is_word_char(c[i]) {
        render_from(c, i + 1, first)
    } else {
        proof {
            lemma_token_end_bounds(c, i + 1);
        }
        let j = token_end(c, i + 1);
        (if first {
            Seq::<char>::empty()
        } else {
            " <-> "@
        }) + c.subrange(i, j) + ":*"@ + render_from(c, j, false)
    }
}

/// The full sanitizer: clean the text, break it into tokens, mark each
/// token for prefix matching and join them with the adjacency operator.
/// Text without any token renders as the empty string.
pub open spec fn spec_tsquery(s: Seq<char>) -> Seq<char> {
    render_from(spec_clean(s), 0, true)
}

/// Remove all characters that are not alphanumeric, whitespace or
/// hyphens, then generate a string that may be used in a full-text-search
/// query: each group of word characters (single interior hyphens
/// allowed) has `:*` appended, and the groups are joined by `" <-> "`.
pub fn tsquery_string(text: &str) -> (r: String)
    ensures
        r@ == spec_tsquery(text@),
{
    let source = chars_of(text);
    let mut cleaned: Vec<char> = Vec::new();
    let n = source.len();
    let mut i: usize = 0;
    while i < n
        invariant
            n == source@.len(),
            source@ == text@,
            i <= n,
            cleaned@ == spec_clean(text@.subrange(0, i as int)),
        decreases n - i,
    {
        let c = source[i];
        if word_char(c) || space(c) || c == '-' {
            cleaned.push(c);
        }
        proof {
            assert(text@.subrange(0, i + 1 as int).drop_last() =~= text@.subrange(0, i as int));
            assert(text@.subrange(0, i + 1 as int).last() == text@[i as int]);
            if is_kept_char(text@[i as int]) {
                assert(cleaned@ =~= spec_clean(text@.subrange(0, i as int)) + seq![text@[i as int]]);
            } else {
                assert(cleaned@ =~= spec_clean(text@.subrange(0, i as int))
                    + Seq::<char>::empty());
            }
        }
        i += 1;
    }
    proof {
        assert(text@.subrange(0, n as int) =~= text@);
    }
    render_tokens(&cleaned)
}

/// Render the cleaned character sequence as the final expression.
fn render_tokens(cleaned: &Vec<char>) -> (r: String)
    ensures
        r@ == render_from(cleaned@, 0, true),
{
    let ghost cs = cleaned@;
    let n = cleaned.len();
    let mut out = String::new();
    let mut first: bool = true;
    let mut i: usize = 0;
    while i < n
        invariant
            n == cs.len(),
            cleaned@ == cs,
            i <= n,
            out@ + render_from(cs, i as int, first) == render_from(cs, 0, true),
        decreases n - i,
    {
        let c = cleaned[i];
        if word_char(c) {
            let ghost out_entry = out@;
            if !first {
                out.append(" <-> ");
            }
            let ghost sep: Seq<char> = if first {
                Seq::empty()
            } else {
                " <-> "@
            };
            push_char(&mut out, c);
            let ghost jj = token_end(cs, i + 1);
            proof {
                lemma_token_end_bounds(cs, i + 1);
                assert(out@ =~= out_entry + sep + cs.subrange(i as int, i + 1));
            }
            let mut j = i + 1;
            loop
                invariant_except_break
                    token_end(cs, j as int) == jj,
                invariant
                    n == cs.len(),
                    cleaned@ == cs,
                    i < j <= n,
                    j <= jj <= n,
                    out@ == out_entry + sep + cs.subrange(i as int, j as int),
                ensures
                    j == jj,
                    out@ == out_entry + sep + cs.subrange(i as int, jj),
                decreases n - j,
            {
                if j < n && word_char(cleaned[j]) {
                    push_char(&mut out, cleaned[j]);
                    proof {
                        assert(out@ =~= out_entry + sep + cs.subrange(i as int, j + 1 as int));
                        lemma_token_end_bounds(cs, j + 1);
                    }
                    j += 1;
                } else if j < n && cleaned[j] == '-' {
                    push_char(&mut out, '-');
                    proof {
                        assert(out@ =~= out_entry + sep + cs.subrange(i as int, j + 1 as int));
                    }
                    if j + 1 < n && word_char(cleaned[j + 1]) {
                        push_char(&mut out, cleaned[j + 1]);
                        proof {
                            assert(out@ =~= out_entry + sep + cs.subrange(i as int, j + 2 as int));
                            lemma_token_end_bounds(cs, j + 2);
                        }
                        j += 2;
                    } else {
                        j += 1;
                        break;
                    }
                } else {
                    break;
                }
            }
            out.append(":*");
            proof {
                assert(render_from(cs, i as int, first) == sep + cs.subrange(i as int, jj)
                    + ":*"@ + render_from(cs, jj, false));
                assert(out@ =~= out_entry + (sep + cs.subrange(i as int, jj) + ":*"@));
                assert(out@ + render_from(cs, jj, false) =~= out_entry + render_from(
                    cs,
                    i as int,
                    first,
                ));
            }
            i = j;
            first = false;
        } else {
            i += 1;
        }
    }
    proof {
        assert(out@ + render_from(cs, n as int, first) =~= out@);
    }
    out
}

/// Whether the text contains nothing but whitespace (so trimming it
/// would leave it empty).
pub open spec fn spec_blank(s: Seq<char>) -> bool {
    forall|k: int| 0 <= k < s.len() ==> is_space_char(s[k])
}

/// Executable test for [`spec_blank`].
fn blank(text: &str) -> (r: bool)
    ensures
        r == spec_blank(text@),
{
    let source = chars_of(text);
    let n = source.len();
    let mut i: usize = 0;
    while i < n
        invariant
            n == source@.len(),
            source@ == text@,
            i <= n,
            forall|k: int| 0 <= k < i ==> is_space_char(text@[k]),
        decreases n - i,
    {
        if !space(source[i]) {
            return false;
        }
        i += 1;
    }
    true
}

/// Prepare a user-supplied search query for the full-text-search layer.
///
/// A query that is empty, or blank after trimming, is rejected before any
/// search work is done; any other query is sanitized into the expression
/// that the search predicate consumes.
pub fn prepare_search_query(query: &str) -> (r: AppResult<String>)
    ensures
        r is Ok <==> !spec_blank(query@),
        r is Ok ==> r->Ok_0@ == spec_tsquery(query@),
        r is Err ==> r->Err_0 == Error::ValidationError,
{
    if blank(query) {
        Err(Error::ValidationError)
    } else {
        Ok(tsquery_string(query))
    }
}

} // verus!
