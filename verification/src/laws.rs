//! The scanner's guarantees, stated and proved over the specification model.

use crate::lexer::digit_run_end;
use crate::lexer::letter_run_end;
use crate::lexer::run_end;
use crate::lexer::skip_whitespace_end;
use crate::lexer::spec_next_token;
use crate::lexer::token_end_at;
use crate::lexer::token_kind_at;
use crate::lexer::token_text_at;
use crate::token::TokenType;
use crate::token::spec_is_digit;
use crate::token::spec_is_letter;
use crate::token::spec_is_whitespace;
use crate::token::spec_lookup_ident;
use vstd::prelude::*;

verus! {

/// The end of a run lies between its start and the end of the sequence; every
/// character inside the run satisfies the predicate; the character at the end,
/// if any, does not.
pub proof fn lemma_run_end_bounds(s: Seq<char>, i: int, p: spec_fn(char) -> bool)
    requires
        0 <= i <= s.len(),
    ensures
        i <= run_end(s, i, p) <= s.len(),
        forall|k: int| i <= k < run_end(s, i, p) ==> p(s[k]),
        run_end(s, i, p) < s.len() ==> !p(s[run_end(s, i, p)]),
    decreases s.len() - i,
{
    if i < s.len() && p(s[i]) {
        lemma_run_end_bounds(s, i + 1, p);
    }
}

/// A run's end is pinned down by its characterization: if everything in
/// `[i, e)` satisfies the predicate and the character at `e`, if any, does
/// not, then `e` is the run's end.
pub proof fn lemma_run_end_exact(s: Seq<char>, i: int, e: int, p: spec_fn(char) -> bool)
    requires
        0 <= i <= e <= s.len(),
        forall|k: int| i <= k < e ==> p(s[k]),
        e < s.len() ==> !p(s[e]),
    ensures
        run_end(s, i, p) == e,
    decreases e - i,
{
    if i < e {
        lemma_run_end_exact(s, i + 1, e, p);
    }
}

/// Scanning a token makes progress: the token starts where whitespace
/// skipping stops, ends no later than the source does, consumes at least one
/// character unless it is `EOF`, and is `EOF` exactly when nothing but
/// whitespace remains.
pub proof fn lemma_token_progress(s: Seq<char>, i: int)
    requires
        0 <= i <= s.len(),
    ensures
        i <= skip_whitespace_end(s, i) <= token_end_at(s, i) <= s.len(),
        token_kind_at(s, i) == TokenType::EOF <==> skip_whitespace_end(s, i) == s.len(),
        token_kind_at(s, i) != TokenType::EOF ==> skip_whitespace_end(s, i) < token_end_at(s, i),
{
    lemma_run_end_bounds(s, i, |c: char| spec_is_whitespace(c));
    let j = skip_whitespace_end(s, i);
    if j < s.len() {
        let c = s[j];
        if spec_is_letter(c) {
            lemma_run_end_bounds(s, j + 1, |x: char| spec_is_letter(x));
            assert(letter_run_end(s, j) == run_end(s, j + 1, |x: char| spec_is_letter(x)));
        } else if spec_is_digit(c) {
            lemma_run_end_bounds(s, j + 1, |x: char| spec_is_digit(x));
            assert(digit_run_end(s, j) == run_end(s, j + 1, |x: char| spec_is_digit(x)));
        }
    }
}

/// Greedy maximal munch for identifiers and keywords: when the first
/// character after leading whitespace is a letter, the token's text is the
/// entire maximal contiguous run of letters starting there — all letters, and
/// not extendable by the character that follows it.
pub proof fn lemma_maximal_munch_letters(s: Seq<char>, i: int)
    requires
        0 <= i <= s.len(),
        skip_whitespace_end(s, i) < s.len(),
        spec_is_letter(s[skip_whitespace_end(s, i)]),
    ensures
        token_kind_at(s, i) == spec_lookup_ident(token_text_at(s, i)),
        token_text_at(s, i) == s.subrange(skip_whitespace_end(s, i), token_end_at(s, i)),
        skip_whitespace_end(s, i) < token_end_at(s, i) <= s.len(),
        forall|k: int|
            skip_whitespace_end(s, i) <= k < token_end_at(s, i) ==> spec_is_letter(s[k]),
        token_end_at(s, i) < s.len() ==> !spec_is_letter(s[token_end_at(s, i)]),
{
    let j = skip_whitespace_end(s, i);
    lemma_run_end_bounds(s, i, |c: char| spec_is_whitespace(c));
    lemma_run_end_bounds(s, j, |x: char| spec_is_letter(x));
    lemma_run_end_bounds(s, j + 1, |x: char| spec_is_letter(x));
    assert(letter_run_end(s, j) == run_end(s, j + 1, |x: char| spec_is_letter(x)));
}

/// Greedy maximal munch for integers: when the first character after leading
/// whitespace is a digit, the token is `INT` and its text is the entire
/// maximal contiguous run of digits starting there.
pub proof fn lemma_maximal_munch_digits(s: Seq<char>, i: int)
    requires
        0 <= i <= s.len(),
        skip_whitespace_end(s, i) < s.len(),
        spec_is_digit(s[skip_whitespace_end(s, i)]),
    ensures
        token_kind_at(s, i) == TokenType::INT,
        token_text_at(s, i) == s.subrange(skip_whitespace_end(s, i), token_end_at(s, i)),
        skip_whitespace_end(s, i) < token_end_at(s, i) <= s.len(),
        forall|k: int| skip_whitespace_end(s, i) <= k < token_end_at(s, i) ==> spec_is_digit(s[k]),
        token_end_at(s, i) < s.len() ==> !spec_is_digit(s[token_end_at(s, i)]),
{
    let j = skip_whitespace_end(s, i);
    lemma_run_end_bounds(s, i, |c: char| spec_is_whitespace(c));
    lemma_run_end_bounds(s, j, |x: char| spec_is_digit(x));
    lemma_run_end_bounds(s, j + 1, |x: char| spec_is_digit(x));
    assert(digit_run_end(s, j) == run_end(s, j + 1, |x: char| spec_is_digit(x)));
}

/// The idempotent tail: once the scanner produces `EOF` its cursor stands at
/// the end of the source, and scanning again from there produces the very
/// same `EOF` token at the very same cursor, forever.
pub proof fn lemma_end_of_input_idempotent(s: Seq<char>, i: int)
    requires
        0 <= i <= s.len(),
        token_kind_at(s, i) == TokenType::EOF,
    ensures
        token_end_at(s, i) == s.len(),
        spec_next_token(s, token_end_at(s, i)) == spec_next_token(s, i),
{
    lemma_token_progress(s, i);
    assert(skip_whitespace_end(s, s.len() as int) == s.len() as int);
}

/// Every token but `EOF` carries as its text exactly the non-empty,
/// contiguous slice of the source that produced it, from the first character
/// after leading whitespace to the cursor it leaves behind; the `EOF` token's
/// text is empty.
pub proof fn lemma_token_text_is_source_slice(s: Seq<char>, i: int)
    requires
        0 <= i <= s.len(),
    ensures
        token_kind_at(s, i) != TokenType::EOF ==> token_text_at(s, i) == s.subrange(
            skip_whitespace_end(s, i),
            token_end_at(s, i),
        ),
        token_kind_at(s, i) != TokenType::EOF ==> token_text_at(s, i).len() > 0,
        token_kind_at(s, i) == TokenType::EOF ==> token_text_at(s, i) == Seq::<char>::empty(),
{
    lemma_token_progress(s, i);
    let j = skip_whitespace_end(s, i);
    let e = token_end_at(s, i);
    if j < s.len() {
        let c = s[j];
        if spec_is_letter(c) || spec_is_digit(c) {
        } else if e == j + 2 {
            assert(s.subrange(j, e) =~= seq![s[j], s[j + 1]]);
        } else {
            assert(s.subrange(j, e) =~= seq![s[j]]);
        }
    }
}

/// The full token stream scanned from cursor `i`: the kind and text of each
/// token in order, ending with the `EOF` token.
pub open spec fn spec_tokens(s: Seq<char>, i: int) -> Seq<(TokenType, Seq<char>)>
    decreases s.len() - i,
{
    if 0 <= i <= s.len() {
        let k = token_kind_at(s, i);
        let t = token_text_at(s, i);
        let e = token_end_at(s, i);
        if k == TokenType::EOF {
            seq![(k, t)]
        } else if i < e <= s.len() {
            seq![(k, t)] + spec_tokens(s, e)
        } else {
            seq![(k, t)]
        }
    } else {
        Seq::<(TokenType, Seq<char>)>::empty()
    }
}

/// Whether scanning from cursor `i` passes through cursor `m`: `m` is a token
/// boundary of the stream scanned from `i`.
pub open spec fn scan_reaches(s: Seq<char>, i: int, m: int) -> bool
    decreases m - i,
{
    if i == m {
        true
    } else if 0 <= i < m {
        let e = token_end_at(s, i);
        if i < e <= m {
            scan_reaches(s, e, m)
        } else {
            false
        }
    } else {
        false
    }
}

/// The token scanned at a cursor depends only on the source from the cursor
/// onward: equal suffixes give the same kind and text, and cursors that
/// advance by the same amount.
pub proof fn lemma_next_token_shift(s1: Seq<char>, s2: Seq<char>, i1: int, i2: int)
    requires
        0 <= i1 <= s1.len(),
        0 <= i2 <= s2.len(),
        s1.subrange(i1, s1.len() as int) == s2.subrange(i2, s2.len() as int),
    ensures
        s1.len() - i1 == s2.len() - i2,
        token_kind_at(s1, i1) == token_kind_at(s2, i2),
        token_text_at(s1, i1) == token_text_at(s2, i2),
        token_end_at(s1, i1) - i1 == token_end_at(s2, i2) - i2,
{
    assert(s1.subrange(i1, s1.len() as int).len() == s2.subrange(i2, s2.len() as int).len());
    assert(s1.subrange(i1, s1.len() as int).len() == s1.len() - i1);
    assert(s2.subrange(i2, s2.len() as int).len() == s2.len() - i2);
    assert(s1.len() - i1 == s2.len() - i2);
    assert forall|k: int| i2 <= k < s2.len() implies #[trigger] s2[k] == s1[k - i2 + i1] by {
        assert(0 <= k - i2 < s2.len() - i2);
        assert(s2[k] == s2.subrange(i2, s2.len() as int)[k - i2]);
        assert(s1[k - i2 + i1] == s1.subrange(i1, s1.len() as int)[k - i2]);
    }
    lemma_run_end_bounds(s1, i1, |c: char| spec_is_whitespace(c));
    let j1 = skip_whitespace_end(s1, i1);
    let j2 = i2 + (j1 - i1);
    lemma_run_end_exact(s2, i2, j2, |c: char| spec_is_whitespace(c));
    if j1 < s1.len() {
        let c = s1[j1];
        assert(s2[j2] == c);
        if spec_is_letter(c) {
            lemma_run_end_bounds(s1, j1, |x: char| spec_is_letter(x));
            let e1 = letter_run_end(s1, j1);
            let e2 = j2 + (e1 - j1);
            lemma_run_end_exact(s2, j2, e2, |x: char| spec_is_letter(x));
            assert(s1.subrange(j1, e1) =~= s2.subrange(j2, e2));
        } else if spec_is_digit(c) {
            lemma_run_end_bounds(s1, j1, |x: char| spec_is_digit(x));
            let e1 = digit_run_end(s1, j1);
            let e2 = j2 + (e1 - j1);
            lemma_run_end_exact(s2, j2, e2, |x: char| spec_is_digit(x));
            assert(s1.subrange(j1, e1) =~= s2.subrange(j2, e2));
        }
    }
}

/// The token stream scanned at a cursor depends only on the source from the
/// cursor onward.
pub proof fn lemma_tokens_shift(s1: Seq<char>, s2: Seq<char>, i1: int, i2: int)
    requires
        0 <= i1 <= s1.len(),
        0 <= i2 <= s2.len(),
        s1.subrange(i1, s1.len() as int) == s2.subrange(i2, s2.len() as int),
    ensures
        spec_tokens(s1, i1) == spec_tokens(s2, i2),
    decreases s1.len() - i1,
{
    lemma_next_token_shift(s1, s2, i1, i2);
    lemma_token_progress(s1, i1);
    lemma_token_progress(s2, i2);
    if token_kind_at(s1, i1) != TokenType::EOF {
        let e1 = token_end_at(s1, i1);
        let e2 = token_end_at(s2, i2);
        assert forall|k: int| i2 <= k < s2.len() implies #[trigger] s2[k] == s1[k - i2 + i1] by {
            assert(s2[k] == s2.subrange(i2, s2.len() as int)[k - i2]);
            assert(s1[k - i2 + i1] == s1.subrange(i1, s1.len() as int)[k - i2]);
        }
        assert(s1.subrange(e1, s1.len() as int) =~= s2.subrange(e2, s2.len() as int));
        lemma_tokens_shift(s1, s2, e1, e2);
    }
}

/// Leading whitespace is invisible: when everything between cursors `i` and
/// `j` is whitespace, scanning from either cursor gives the same token and
/// the same token stream.
pub proof fn lemma_whitespace_prefix_invisible(s: Seq<char>, i: int, j: int)
    requires
        0 <= i <= j <= s.len(),
        forall|k: int| i <= k < j ==> spec_is_whitespace(s[k]),
    ensures
        spec_next_token(s, i) == spec_next_token(s, j),
        spec_tokens(s, i) == spec_tokens(s, j),
{
    lemma_run_end_bounds(s, j, |c: char| spec_is_whitespace(c));
    let jj = skip_whitespace_end(s, j);
    lemma_run_end_exact(s, i, jj, |c: char| spec_is_whitespace(c));
    lemma_token_progress(s, i);
    lemma_token_progress(s, j);
}

/// Inserting whitespace right after a token that ends at or before the
/// insertion point does not change that token: the scan reads the same kind
/// and text and stops at the same cursor.
proof fn lemma_insertion_token_agree(a: Seq<char>, w: Seq<char>, b: Seq<char>, i: int)
    requires
        forall|k: int| 0 <= k < w.len() ==> spec_is_whitespace(w[k]),
        0 <= i <= a.len(),
        token_kind_at(a + b, i) != TokenType::EOF,
        token_end_at(a + b, i) <= a.len(),
    ensures
        spec_next_token(a + w + b, i) == spec_next_token(a + b, i),
{
    let s1 = a + b;
    let s2 = a + w + b;
    if w.len() == 0 {
        assert(s2 =~= s1);
    } else {
        assert forall|m: int| 0 <= m < a.len() implies #[trigger] s2[m] == s1[m] by {
            assert(s1[m] == a[m]);
            assert(s2[m] == (a + w)[m]);
            assert((a + w)[m] == a[m]);
        }
        assert(s2[a.len() as int] == (a + w)[a.len() as int]);
        assert(s2[a.len() as int] == w[0]);
        lemma_token_progress(s1, i);
        lemma_run_end_bounds(s1, i, |c: char| spec_is_whitespace(c));
        let j = skip_whitespace_end(s1, i);
        let e = token_end_at(s1, i);
        lemma_run_end_exact(s2, i, j, |c: char| spec_is_whitespace(c));
        let c = s1[j];
        assert(s2[j] == c);
        if c == '!' || c == '=' {
            if j + 1 < s1.len() && s1[j + 1] == '=' {
                assert(e == j + 2);
                assert(s2[j + 1] == s1[j + 1]);
            } else {
                if j + 1 < s2.len() && s2[j + 1] == '=' {
                    if j + 1 < a.len() {
                        assert(s2[j + 1] == s1[j + 1]);
                        assert(false);
                    } else {
                        assert(j + 1 == a.len());
                        assert(spec_is_whitespace(s2[j + 1]));
                        assert(false);
                    }
                }
            }
        } else if spec_is_letter(c) {
            lemma_run_end_bounds(s1, j, |x: char| spec_is_letter(x));
            assert(e == letter_run_end(s1, j));
            lemma_run_end_exact(s2, j, e, |x: char| spec_is_letter(x));
            assert(s1.subrange(j, e) =~= s2.subrange(j, e)) by {
                assert forall|m: int| 0 <= m < e - j implies s1.subrange(j, e)[m] == s2.subrange(
                    j,
                    e,
                )[m] by {
                    assert(s1.subrange(j, e)[m] == s1[j + m]);
                    assert(s2.subrange(j, e)[m] == s2[j + m]);
                }
            }
        } else if spec_is_digit(c) {
            lemma_run_end_bounds(s1, j, |x: char| spec_is_digit(x));
            assert(e == digit_run_end(s1, j));
            lemma_run_end_exact(s2, j, e, |x: char| spec_is_digit(x));
            assert(s1.subrange(j, e) =~= s2.subrange(j, e)) by {
                assert forall|m: int| 0 <= m < e - j implies s1.subrange(j, e)[m] == s2.subrange(
                    j,
                    e,
                )[m] by {
                    assert(s1.subrange(j, e)[m] == s1[j + m]);
                    assert(s2.subrange(j, e)[m] == s2[j + m]);
                }
            }
        }
    }
}

/// The induction behind the whitespace-invisibility law: from any cursor the
/// scan passes through on its way to the insertion point, the streams with
/// and without the inserted whitespace agree.
proof fn lemma_whitespace_insertion_from(a: Seq<char>, w: Seq<char>, b: Seq<char>, i: int)
    requires
        forall|k: int| 0 <= k < w.len() ==> spec_is_whitespace(w[k]),
        0 <= i <= a.len(),
        scan_reaches(a + b, i, a.len() as int),
    ensures
        spec_tokens(a + w + b, i) == spec_tokens(a + b, i),
    decreases a.len() - i,
{
    let s1 = a + b;
    let s2 = a + w + b;
    assert forall|m: int| 0 <= m < a.len() implies #[trigger] s2[m] == s1[m] by {
        assert(s1[m] == a[m]);
        assert(s2[m] == (a + w)[m]);
        assert((a + w)[m] == a[m]);
    }
    if i == a.len() {
        assert forall|k: int| i <= k < i + w.len() implies spec_is_whitespace(#[trigger] s2[k]) by {
            assert(s2[k] == (a + w)[k]);
            assert((a + w)[k] == w[k - a.len()]);
        }
        lemma_whitespace_prefix_invisible(s2, i, i + w.len());
        assert(s1.subrange(i, s1.len() as int) =~= s2.subrange(
            i + w.len(),
            s2.len() as int,
        )) by {
            assert forall|m: int|
                0 <= m < b.len() implies s1.subrange(i, s1.len() as int)[m] == s2.subrange(
                i + w.len(),
                s2.len() as int,
            )[m] by {
                assert(s1.subrange(i, s1.len() as int)[m] == s1[i + m]);
                assert(s1[i + m] == b[m]);
                assert(s2.subrange(i + w.len(), s2.len() as int)[m] == s2[i + w.len() + m]);
                assert(s2[i + w.len() + m] == b[m]);
            }
        }
        lemma_tokens_shift(s2, s1, i + w.len(), i);
    } else {
        let e = token_end_at(s1, i);
        lemma_token_progress(s1, i);
        if token_kind_at(s1, i) == TokenType::EOF {
            assert(e == s1.len());
            assert(b.len() == 0);
            lemma_run_end_bounds(s1, i, |c: char| spec_is_whitespace(c));
            assert forall|k: int| i <= k < s2.len() implies spec_is_whitespace(
                #[trigger] s2[k],
            ) by {
                if k < a.len() {
                    assert(s2[k] == s1[k]);
                } else {
                    assert(s2[k] == (a + w)[k]);
                    assert((a + w)[k] == w[k - a.len()]);
                }
            }
            lemma_run_end_exact(s2, i, s2.len() as int, |c: char| spec_is_whitespace(c));
        } else {
            lemma_insertion_token_agree(a, w, b, i);
            lemma_token_progress(s2, i);
            lemma_whitespace_insertion_from(a, w, b, e);
        }
    }
}

/// Whitespace invisibility: inserting spaces or newlines between two tokens —
/// at any point the scan passes through — does not change the resulting token
/// stream, neither the kinds nor the texts.
pub proof fn lemma_whitespace_invisibility(a: Seq<char>, w: Seq<char>, b: Seq<char>)
    requires
        forall|k: int| 0 <= k < w.len() ==> spec_is_whitespace(w[k]),
        scan_reaches(a + b, 0, a.len() as int),
    ensures
        spec_tokens(a + w + b, 0) == spec_tokens(a + b, 0),
{
    lemma_whitespace_insertion_from(a, w, b, 0);
}

} // verus!
